//! The reader screen's own state: its side panels, the layers that Escape
//! closes one at a time, and what the header and footer show.

use vstd::prelude::*;
use crate::text::{chars_of, string_from_chars};

verus! {

/// A side panel of the reader.
#[derive(Clone, Copy, Debug, PartialEq, Eq, Structural)]
pub enum ReaderPanel {
    Toc,
    Settings,
    Notes,
}

/// Which side panels are open.
#[derive(Clone, Copy, Debug, PartialEq, Eq, Structural)]
pub struct PanelState {
    pub toc_open: bool,
    pub settings_open: bool,
    pub notes_open: bool,
}

pub open spec fn is_open(s: PanelState, panel: ReaderPanel) -> bool {
    match panel {
        ReaderPanel::Toc => s.toc_open,
        ReaderPanel::Settings => s.settings_open,
        ReaderPanel::Notes => s.notes_open,
    }
}

pub open spec fn all_closed() -> PanelState {
    PanelState { toc_open: false, settings_open: false, notes_open: false }
}

/// Only the given panel is open.
pub open spec fn only(panel: ReaderPanel) -> PanelState {
    PanelState {
        toc_open: panel == ReaderPanel::Toc,
        settings_open: panel == ReaderPanel::Settings,
        notes_open: panel == ReaderPanel::Notes,
    }
}

/// At most one panel is open.
pub open spec fn at_most_one_open(s: PanelState) -> bool {
    !(s.toc_open && s.settings_open) && !(s.toc_open && s.notes_open) && !(s.settings_open && s.notes_open)
}

pub open spec fn spec_panel_trigger(panel: ReaderPanel) -> Seq<char> {
    match panel {
        ReaderPanel::Toc => "reader-toc-button"@,
        ReaderPanel::Settings => "reader-settings-button"@,
        ReaderPanel::Notes => "reader-notes-button"@,
    }
}

pub open spec fn spec_panel_close_button(panel: ReaderPanel) -> Seq<char> {
    match panel {
        ReaderPanel::Toc => "reader-toc-close"@,
        ReaderPanel::Settings => "reader-settings-close"@,
        ReaderPanel::Notes => "reader-notes-close"@,
    }
}

/// The toolbar button that opens a panel; focus returns there when it closes.
pub fn panel_trigger(panel: ReaderPanel) -> (r: &'static str)
    ensures
        r@ == spec_panel_trigger(panel),
{
    match panel {
        ReaderPanel::Toc => "reader-toc-button",
        ReaderPanel::Settings => "reader-settings-button",
        ReaderPanel::Notes => "reader-notes-button",
    }
}

fn panel_close_button(panel: ReaderPanel) -> (r: &'static str)
    ensures
        r@ == spec_panel_close_button(panel),
{
    match panel {
        ReaderPanel::Toc => "reader-toc-close",
        ReaderPanel::Settings => "reader-settings-close",
        ReaderPanel::Notes => "reader-notes-close",
    }
}

pub open spec fn spec_toggled(s: PanelState, panel: ReaderPanel) -> PanelState {
    if is_open(s, panel) { all_closed() } else { only(panel) }
}

/// A panel's toolbar button: every panel closes, and this one opens unless it
/// was open. Focus goes to the opened panel's close button, or back to the
/// toolbar button.
pub fn toggle_reader_panel(state: &mut PanelState, panel: ReaderPanel) -> (focus: &'static str)
    ensures
        *final(state) == spec_toggled(*old(state), panel),
        focus@ == (if is_open(*old(state), panel) { spec_panel_trigger(panel) } else { spec_panel_close_button(panel) }),
{
    let was_open = match panel {
        ReaderPanel::Toc => state.toc_open,
        ReaderPanel::Settings => state.settings_open,
        ReaderPanel::Notes => state.notes_open,
    };
    state.toc_open = false;
    state.settings_open = false;
    state.notes_open = false;
    if !was_open {
        match panel {
            ReaderPanel::Toc => state.toc_open = true,
            ReaderPanel::Settings => state.settings_open = true,
            ReaderPanel::Notes => state.notes_open = true,
        }
    }
    if was_open {
        panel_trigger(panel)
    } else {
        panel_close_button(panel)
    }
}

pub open spec fn spec_closed(s: PanelState, panel: ReaderPanel) -> PanelState {
    match panel {
        ReaderPanel::Toc => PanelState { toc_open: false, ..s },
        ReaderPanel::Settings => PanelState { settings_open: false, ..s },
        ReaderPanel::Notes => PanelState { notes_open: false, ..s },
    }
}

/// A panel's close button: that panel closes and focus returns to its toolbar button.
pub fn close_reader_panel(state: &mut PanelState, panel: ReaderPanel) -> (focus: &'static str)
    ensures
        *final(state) == spec_closed(*old(state), panel),
        focus@ == spec_panel_trigger(panel),
{
    match panel {
        ReaderPanel::Toc => state.toc_open = false,
        ReaderPanel::Settings => state.settings_open = false,
        ReaderPanel::Notes => state.notes_open = false,
    }
    panel_trigger(panel)
}

/// After a toggle at most one panel is open, and the toggled one is open
/// exactly when it was closed.
pub proof fn law_toggle_leaves_one_panel(s: PanelState, panel: ReaderPanel)
    ensures
        at_most_one_open(spec_toggled(s, panel)),
        is_open(spec_toggled(s, panel), panel) == !is_open(s, panel),
        forall|other: ReaderPanel| other != panel ==> !is_open(#[trigger] spec_toggled(s, panel), other),
{
}

/// Pressing a panel's button twice: a panel that was closed ends closed with all
/// others, and a panel that was open ends as the only open one.
pub proof fn law_toggle_twice(s: PanelState, panel: ReaderPanel)
    ensures
        !is_open(s, panel) ==> spec_toggled(spec_toggled(s, panel), panel) == all_closed(),
        is_open(s, panel) ==> spec_toggled(spec_toggled(s, panel), panel) == only(panel),
{
}

/// The layout class of the reader for its open panel.
pub fn layout_class(state: PanelState) -> (r: &'static str)
    ensures
        r@ == (if state.toc_open {
            "toc-open"@
        } else if state.notes_open {
            "notes-open"@
        } else if state.settings_open {
            "settings-open"@
        } else {
            ""@
        }),
{
    if state.toc_open {
        "toc-open"
    } else if state.notes_open {
        "notes-open"
    } else if state.settings_open {
        "settings-open"
    } else {
        ""
    }
}

/// Whether a panel covers the page (the page is then inert).
pub fn overlay_open(state: PanelState) -> (r: bool)
    ensures
        r == (state.toc_open || state.settings_open || state.notes_open),
{
    state.toc_open || state.settings_open || state.notes_open
}

/// The layers over the page that Escape closes.
#[derive(Clone, Copy, Debug, PartialEq, Eq, Structural)]
pub struct OverlayState {
    pub footnote_open: bool,
    pub panels: PanelState,
    pub selection_open: bool,
}

/// Which layer Escape closed.
#[derive(Clone, Copy, Debug, PartialEq, Eq, Structural)]
pub enum OverlayClosed {
    Footnote,
    Panel(ReaderPanel),
    Selection,
    Nothing,
}

pub open spec fn spec_close_overlay(s: OverlayState) -> (OverlayState, OverlayClosed) {
    if s.footnote_open {
        (OverlayState { footnote_open: false, ..s }, OverlayClosed::Footnote)
    } else if s.panels.toc_open {
        (OverlayState { panels: PanelState { toc_open: false, ..s.panels }, ..s }, OverlayClosed::Panel(ReaderPanel::Toc))
    } else if s.panels.settings_open {
        (OverlayState { panels: PanelState { settings_open: false, ..s.panels }, ..s }, OverlayClosed::Panel(ReaderPanel::Settings))
    } else if s.panels.notes_open {
        (OverlayState { panels: PanelState { notes_open: false, ..s.panels }, ..s }, OverlayClosed::Panel(ReaderPanel::Notes))
    } else if s.selection_open {
        (OverlayState { selection_open: false, ..s }, OverlayClosed::Selection)
    } else {
        (s, OverlayClosed::Nothing)
    }
}

/// Escape closes the topmost layer: the footnote, else the contents, settings or
/// notes panel, else the selection and its composers.
pub fn close_reader_overlay(state: &mut OverlayState) -> (closed: OverlayClosed)
    ensures
        (*final(state), closed) == spec_close_overlay(*old(state)),
{
    if state.footnote_open {
        state.footnote_open = false;
        OverlayClosed::Footnote
    } else if state.panels.toc_open {
        state.panels.toc_open = false;
        OverlayClosed::Panel(ReaderPanel::Toc)
    } else if state.panels.settings_open {
        state.panels.settings_open = false;
        OverlayClosed::Panel(ReaderPanel::Settings)
    } else if state.panels.notes_open {
        state.panels.notes_open = false;
        OverlayClosed::Panel(ReaderPanel::Notes)
    } else if state.selection_open {
        state.selection_open = false;
        OverlayClosed::Selection
    } else {
        OverlayClosed::Nothing
    }
}

/// Where focus goes after Escape: the panel's toolbar button, or the page after
/// the selection; nowhere after a footnote or when nothing was open.
pub fn overlay_focus_target(closed: OverlayClosed) -> (r: Option<&'static str>)
    ensures
        match closed {
            OverlayClosed::Panel(p) => r matches Some(t) && t@ == spec_panel_trigger(p),
            OverlayClosed::Selection => r matches Some(t) && t@ == "reader-page-surface"@,
            _ => r is None,
        },
{
    match closed {
        OverlayClosed::Panel(p) => Some(panel_trigger(p)),
        OverlayClosed::Selection => Some("reader-page-surface"),
        _ => None,
    }
}

/// Escape closes exactly one layer when one is open, and changes nothing otherwise.
pub proof fn law_escape_closes_one_layer(s: OverlayState)
    ensures
        ({
            let (t, closed) = spec_close_overlay(s);
            let open_before = (s.footnote_open as int) + (s.panels.toc_open as int) + (s.panels.settings_open as int)
                + (s.panels.notes_open as int) + (s.selection_open as int);
            let open_after = (t.footnote_open as int) + (t.panels.toc_open as int) + (t.panels.settings_open as int)
                + (t.panels.notes_open as int) + (t.selection_open as int);
            &&& open_before > 0 ==> open_after == open_before - 1 && closed != OverlayClosed::Nothing
            &&& open_before == 0 ==> t == s && closed == OverlayClosed::Nothing
        }),
{
}

/// The page shown: the navigation's page, kept inside the page map.
pub fn current_page_index(current: usize, page_count: usize) -> (r: usize)
    ensures
        r == (if page_count == 0 { 0 } else if current < page_count { current as int } else { page_count - 1 }),
{
    let last = page_count.saturating_sub(1);
    if current < last { current } else { last }
}

/// Reading progress in percent after the shown page.
pub fn reading_progress_percent(current_page: usize, page_count: usize) -> (r: usize)
    requires
        (current_page + 1) * 100 <= usize::MAX,
    ensures
        r == ((current_page + 1) * 100) / (if page_count > 0 { page_count as int } else { 1 }),
{
    let pages = if page_count > 0 { page_count } else { 1 };
    ((current_page + 1) * 100) / pages
}

/// The page ends a chapter: it belongs to a content unit and the next page does not
/// belong to the same one.
pub fn is_chapter_end(current_unit: &Option<String>, next_unit: &Option<String>) -> (r: bool)
    ensures
        r == (match current_unit {
            Some(c) => match next_unit {
                Some(n) => c@ != n@,
                None => true,
            },
            None => false,
        }),
{
    match current_unit {
        Some(c) => match next_unit {
            Some(n) => !String::eq(c, n),
            None => true,
        },
        None => false,
    }
}

/// The authors line of the header.
pub open spec fn join_with(parts: Seq<Seq<char>>, sep: Seq<char>) -> Seq<char>
    decreases parts.len(),
{
    if parts.len() == 0 {
        Seq::empty()
    } else if parts.len() == 1 {
        parts[0]
    } else {
        join_with(parts.drop_last(), sep) + sep + parts.last()
    }
}

fn push_all(out: &mut Vec<char>, s: &Vec<char>)
    ensures
        final(out)@ == old(out)@ + s@,
{
    let mut i: usize = 0;
    let ghost before = out@;
    while i < s.len()
        invariant
            i <= s@.len(),
            out@ == before + s@.take(i as int),
        decreases s.len() - i,
    {
        out.push(s[i]);
        i += 1;
        proof {
            assert(s@.take(i as int) =~= s@.take(i - 1).push(s@[i - 1]));
        }
    }
    proof {
        assert(s@.take(s@.len() as int) =~= s@);
    }
}

/// The strings joined by a separator (`join`).
pub fn join_strings(parts: &Vec<String>, sep: &str) -> (r: String)
    ensures
        r@ == join_with(parts@.map_values(|p: String| p@), sep@),
{
    let ghost views = parts@.map_values(|p: String| p@);
    let sep_chars = chars_of(sep);
    let mut out: Vec<char> = Vec::new();
    let mut i: usize = 0;
    proof {
        assert(views.take(0) =~= Seq::<Seq<char>>::empty());
    }
    while i < parts.len()
        invariant
            i <= parts@.len(),
            views == parts@.map_values(|p: String| p@),
            sep_chars@ == sep@,
            out@ == join_with(views.take(i as int), sep@),
        decreases parts.len() - i,
    {
        let ghost before = out@;
        if i > 0 {
            push_all(&mut out, &sep_chars);
        }
        let piece = chars_of(parts[i].as_str());
        push_all(&mut out, &piece);
        proof {
            let t = views.take(i + 1);
            assert(t.drop_last() =~= views.take(i as int));
            assert(t.last() == parts@[i as int]@);
            if i == 0 {
                assert(out@ =~= t[0]);
            } else {
                assert(out@ =~= join_with(t.drop_last(), sep@) + sep@ + t.last());
            }
        }
        i += 1;
    }
    proof {
        assert(views.take(parts@.len() as int) =~= views);
    }
    string_from_chars(&out)
}

/// The authors line: the creators joined by ", ", or a note that none is known.
pub fn creators_label(creators: &Vec<String>) -> (r: String)
    ensures
        creators@.len() == 0 ==> r@ == "Автор не указан"@,
        creators@.len() > 0 ==> r@ == join_with(creators@.map_values(|p: String| p@), ", "@),
{
    if creators.len() == 0 {
        "Автор не указан".to_string()
    } else {
        join_strings(creators, ", ")
    }
}

/// Colour theme of the reader.
#[derive(Clone, Copy, Debug, PartialEq, Eq, Structural)]
pub enum ReaderTheme {
    Paper,
    Night,
}

/// Line width of the reader.
#[derive(Clone, Copy, Debug, PartialEq, Eq, Structural)]
pub enum ReaderWidth {
    Narrow,
    Balanced,
    Wide,
}

pub fn theme_class(theme: ReaderTheme) -> (r: &'static str)
    ensures
        r@ == match theme {
            ReaderTheme::Paper => "paper"@,
            ReaderTheme::Night => "night"@,
        },
{
    match theme {
        ReaderTheme::Paper => "paper",
        ReaderTheme::Night => "night",
    }
}

pub fn width_class(width: ReaderWidth) -> (r: &'static str)
    ensures
        r@ == match width {
            ReaderWidth::Narrow => "narrow"@,
            ReaderWidth::Balanced => "balanced"@,
            ReaderWidth::Wide => "wide"@,
        },
{
    match width {
        ReaderWidth::Narrow => "narrow",
        ReaderWidth::Balanced => "balanced",
        ReaderWidth::Wide => "wide",
    }
}

/// What a reader annotation is, for the notes panel's tabs.
#[derive(Clone, Copy, Debug, PartialEq, Eq, Structural)]
pub enum AnnotationType {
    Highlight,
    Note,
    MarginNote,
    VoiceNote,
}

/// A tab of the notes panel.
#[derive(Clone, Copy, Debug, PartialEq, Eq, Structural)]
pub enum NotesFilter {
    All,
    Notes,
    Highlights,
    Voice,
}

pub open spec fn spec_filter_accepts(filter: NotesFilter, t: AnnotationType) -> bool {
    match filter {
        NotesFilter::All => true,
        NotesFilter::Notes => t == AnnotationType::Note || t == AnnotationType::MarginNote,
        NotesFilter::Highlights => t == AnnotationType::Highlight,
        NotesFilter::Voice => t == AnnotationType::VoiceNote,
    }
}

/// Whether a tab lists an annotation of the type.
pub fn filter_accepts(filter: NotesFilter, t: AnnotationType) -> (r: bool)
    ensures
        r == spec_filter_accepts(filter, t),
{
    match filter {
        NotesFilter::All => true,
        NotesFilter::Notes => t == AnnotationType::Note || t == AnnotationType::MarginNote,
        NotesFilter::Highlights => t == AnnotationType::Highlight,
        NotesFilter::Voice => t == AnnotationType::VoiceNote,
    }
}

/// The positions of the annotations that a tab lists, in order.
pub fn visible_annotations(filter: NotesFilter, types: &Vec<AnnotationType>) -> (r: Vec<usize>)
    ensures
        forall|k: int| 0 <= k < r@.len() ==> (#[trigger] r@[k]) < types@.len() && spec_filter_accepts(filter, types@[r@[k] as int]),
        forall|k: int, l: int| 0 <= k < l < r@.len() ==> #[trigger] r@[k] < #[trigger] r@[l],
        forall|i: int| 0 <= i < types@.len() && spec_filter_accepts(filter, #[trigger] types@[i]) ==> r@.contains(i as usize),
{
    let mut out: Vec<usize> = Vec::new();
    let mut i: usize = 0;
    while i < types.len()
        invariant
            i <= types@.len(),
            forall|k: int| 0 <= k < out@.len() ==> (#[trigger] out@[k]) < i && spec_filter_accepts(filter, types@[out@[k] as int]),
            forall|k: int, l: int| 0 <= k < l < out@.len() ==> #[trigger] out@[k] < #[trigger] out@[l],
            forall|j: int| 0 <= j < i && spec_filter_accepts(filter, #[trigger] types@[j]) ==> out@.contains(j as usize),
        decreases types.len() - i,
    {
        if filter_accepts(filter, types[i]) {
            let ghost before = out@;
            out.push(i);
            proof {
                assert(out@[out@.len() - 1] == i);
                assert forall|j: int| 0 <= j < i + 1 && spec_filter_accepts(filter, #[trigger] types@[j]) implies out@.contains(j as usize) by {
                    if j < i {
                        assert(before.contains(j as usize));
                        let w = choose|w: int| 0 <= w < before.len() && before[w] == j as usize;
                        assert(out@[w] == j as usize);
                    } else {
                        assert(out@[out@.len() - 1] == j as usize);
                    }
                }
            }
        }
        i += 1;
    }
    out
}

/// The notice of the notes panel: none while it lists annotations.
pub fn notes_notice(total: usize, visible: usize) -> (r: Option<&'static str>)
    ensures
        total == 0 ==> (r matches Some(t) && t@ == "Выделите фрагмент на странице, чтобы сохранить выделение или заметку."@),
        total > 0 && visible == 0 ==> (r matches Some(t) && t@ == "Для этого фильтра записей пока нет."@),
        total > 0 && visible > 0 ==> r is None,
{
    if total == 0 {
        Some("Выделите фрагмент на странице, чтобы сохранить выделение или заметку.")
    } else if visible == 0 {
        Some("Для этого фильтра записей пока нет.")
    } else {
        None
    }
}

} // verus!
