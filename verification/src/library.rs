//! The library screen and its dialogs: which materials each shelf shows, which
//! notice stands in for the shelves, the server features that switch imports
//! and connections on, the source tabs of the import dialog, and the
//! connections screen.

use vstd::prelude::*;
use crate::ai::same_str;
use crate::http::{decimal, framed_number};
use crate::text::{chars_of, trim};

verus! {

// ---------------------------------------------------------------- features

/// Whether the server lists a feature.
pub open spec fn lists_feature(features: Seq<String>, name: Seq<char>) -> bool {
    exists|i: int| 0 <= i < features.len() && (#[trigger] features[i])@ == name
}

/// Whether the server's feature list holds `name`.
pub fn has_feature(features: &Vec<String>, name: &str) -> (r: bool)
    ensures
        r == lists_feature(features@, name@),
{
    let mut i: usize = 0;
    while i < features.len()
        invariant
            i <= features@.len(),
            forall|k: int| 0 <= k < i ==> (#[trigger] features@[k])@ != name@,
        decreases features.len() - i,
    {
        if same_str(features[i].as_str(), name) {
            return true;
        }
        i += 1;
    }
    false
}

/// Which imports the server accepts besides EPUB.
#[derive(Clone, Copy, Debug, PartialEq, Eq, Structural)]
pub struct ImportCaps {
    pub web: bool,
    pub pdf: bool,
    pub markdown: bool,
    pub lum: bool,
}

/// The imports that the server's features switch on.
pub fn import_caps(features: &Vec<String>) -> (r: ImportCaps)
    ensures
        r.web == lists_feature(features@, "public-web-url-import"@),
        r.pdf == lists_feature(features@, "pdf-fixed-layout-import"@),
        r.markdown == lists_feature(features@, "markdown-import"@),
        r.lum == lists_feature(features@, "lum-import"@),
{
    ImportCaps {
        web: has_feature(features, "public-web-url-import"),
        pdf: has_feature(features, "pdf-fixed-layout-import"),
        markdown: has_feature(features, "markdown-import"),
        lum: has_feature(features, "lum-import"),
    }
}

// ---------------------------------------------------------------- shelves

/// Where a material stands in the library.
#[derive(Clone, Copy, Debug, PartialEq, Eq, Structural)]
pub enum LibraryState {
    Active,
    Archived,
}

/// The positions, in order, of the first `n` states that equal `state`.
pub open spec fn positions_with(states: Seq<LibraryState>, state: LibraryState, n: int) -> Seq<usize>
    decreases n,
{
    if n <= 0 {
        Seq::empty()
    } else {
        let before = positions_with(states, state, n - 1);
        if states[n - 1] == state { before.push((n - 1) as usize) } else { before }
    }
}

/// The shelves of the library: the positions of the active materials and
/// those of the archived ones, each in the library's order.
pub fn library_sections(states: &Vec<LibraryState>) -> (r: (Vec<usize>, Vec<usize>))
    ensures
        r.0@ == positions_with(states@, LibraryState::Active, states@.len() as int),
        r.1@ == positions_with(states@, LibraryState::Archived, states@.len() as int),
{
    let mut active: Vec<usize> = Vec::new();
    let mut archived: Vec<usize> = Vec::new();
    let mut i: usize = 0;
    while i < states.len()
        invariant
            i <= states@.len(),
            active@ == positions_with(states@, LibraryState::Active, i as int),
            archived@ == positions_with(states@, LibraryState::Archived, i as int),
        decreases states.len() - i,
    {
        match states[i] {
            LibraryState::Active => active.push(i),
            LibraryState::Archived => archived.push(i),
        }
        i += 1;
    }
    (active, archived)
}

/// The shelves split the library: the shelf of a state holds, in increasing
/// order, exactly the positions of the materials in that state, so every
/// material stands on the one shelf of its state.
pub proof fn law_shelves_partition(states: Seq<LibraryState>, state: LibraryState, n: int)
    requires
        0 <= n <= states.len() <= usize::MAX,
    ensures
        forall|k: int| 0 <= k < positions_with(states, state, n).len() ==> {
            &&& (#[trigger] positions_with(states, state, n)[k]) < n
            &&& states[positions_with(states, state, n)[k] as int] == state
        },
        forall|k: int, l: int| 0 <= k < l < positions_with(states, state, n).len()
            ==> #[trigger] positions_with(states, state, n)[k] < #[trigger] positions_with(states, state, n)[l],
        forall|i: int| 0 <= i < n && #[trigger] states[i] == state ==> positions_with(states, state, n).contains(i as usize),
    decreases n,
{
    if n > 0 {
        law_shelves_partition(states, state, n - 1);
        let before = positions_with(states, state, n - 1);
        let now = positions_with(states, state, n);
        assert forall|k: int| 0 <= k < now.len() implies {
            &&& (#[trigger] now[k]) < n
            &&& states[now[k] as int] == state
        } by {
            if k < before.len() {
                assert(now[k] == before[k]);
            }
        }
        assert forall|k: int, l: int| 0 <= k < l < now.len() implies #[trigger] now[k] < #[trigger] now[l] by {
            if l < before.len() {
                assert(now[k] == before[k] && now[l] == before[l]);
            } else {
                assert(now[k] == before[k]);
            }
        }
        assert forall|i: int| 0 <= i < n && #[trigger] states[i] == state implies now.contains(i as usize) by {
            if i < n - 1 {
                assert(before.contains(i as usize));
                let k = choose|k: int| 0 <= k < before.len() && before[k] == i as usize;
                assert(now[k] == i as usize);
            } else {
                assert(now[now.len() - 1] == i as usize);
            }
        }
    }
}

/// What the library shows in place of, or before, its shelves.
#[derive(Clone, Copy, Debug, PartialEq, Eq, Structural)]
pub enum LibraryNotice {
    /// Nothing loaded yet and no error: the loading mark.
    Loading,
    /// Nothing loaded and an error shown: the library is not replaced by an empty one.
    Unavailable,
    /// Loaded, with no active material: the first-material invitation.
    Empty,
    /// Loaded, with active materials: the shelves.
    Shelves,
}

/// The notice of the library, from whether the materials loaded, the error
/// shown and whether any material is active.
pub fn library_notice(loaded: bool, error: &str, has_active: bool) -> (r: LibraryNotice)
    ensures
        r == (if !loaded && error@.len() == 0 {
            LibraryNotice::Loading
        } else if !loaded {
            LibraryNotice::Unavailable
        } else if !has_active {
            LibraryNotice::Empty
        } else {
            LibraryNotice::Shelves
        }),
{
    if !loaded && error.is_empty() {
        LibraryNotice::Loading
    } else if !loaded {
        LibraryNotice::Unavailable
    } else if !has_active {
        LibraryNotice::Empty
    } else {
        LibraryNotice::Shelves
    }
}

// ---------------------------------------------------------------- import dialog

/// The source tabs of the import dialog, in their order.
#[derive(Clone, Copy, Debug, PartialEq, Eq, Structural)]
pub enum AddSourceMode {
    Epub,
    Lum,
    Markdown,
    Pdf,
    Web,
}

/// An arrow key on a source tab.
#[derive(Clone, Copy, Debug, PartialEq, Eq, Structural)]
pub enum TabKey {
    Left,
    Right,
}

/// Whether a tab can be chosen: EPUB always, the others when the server
/// accepts that import.
pub fn tab_enabled(mode: AddSourceMode, caps: ImportCaps) -> (r: bool)
    ensures
        r == match mode {
            AddSourceMode::Epub => true,
            AddSourceMode::Lum => caps.lum,
            AddSourceMode::Markdown => caps.markdown,
            AddSourceMode::Pdf => caps.pdf,
            AddSourceMode::Web => caps.web,
        },
{
    match mode {
        AddSourceMode::Epub => true,
        AddSourceMode::Lum => caps.lum,
        AddSourceMode::Markdown => caps.markdown,
        AddSourceMode::Pdf => caps.pdf,
        AddSourceMode::Web => caps.web,
    }
}

/// The tab an arrow key moves to: the neighbouring tab when it can be chosen,
/// nothing otherwise; Right on the last tab wraps to EPUB, Left on EPUB stays.
pub fn tab_after_key(mode: AddSourceMode, key: TabKey, caps: ImportCaps) -> (r: Option<AddSourceMode>)
    ensures
        r == match (mode, key) {
            (AddSourceMode::Epub, TabKey::Left) => None,
            (AddSourceMode::Epub, TabKey::Right) => if caps.lum { Some(AddSourceMode::Lum) } else { None },
            (AddSourceMode::Lum, TabKey::Left) => Some(AddSourceMode::Epub),
            (AddSourceMode::Lum, TabKey::Right) => if caps.markdown { Some(AddSourceMode::Markdown) } else { None },
            (AddSourceMode::Markdown, TabKey::Left) => if caps.lum { Some(AddSourceMode::Lum) } else { None },
            (AddSourceMode::Markdown, TabKey::Right) => if caps.pdf { Some(AddSourceMode::Pdf) } else { None },
            (AddSourceMode::Pdf, TabKey::Left) => if caps.markdown { Some(AddSourceMode::Markdown) } else { None },
            (AddSourceMode::Pdf, TabKey::Right) => if caps.web { Some(AddSourceMode::Web) } else { None },
            (AddSourceMode::Web, TabKey::Left) => if caps.pdf { Some(AddSourceMode::Pdf) } else { None },
            (AddSourceMode::Web, TabKey::Right) => Some(AddSourceMode::Epub),
        },
{
    match (mode, key) {
        (AddSourceMode::Epub, TabKey::Left) => None,
        (AddSourceMode::Epub, TabKey::Right) => if caps.lum { Some(AddSourceMode::Lum) } else { None },
        (AddSourceMode::Lum, TabKey::Left) => Some(AddSourceMode::Epub),
        (AddSourceMode::Lum, TabKey::Right) => if caps.markdown { Some(AddSourceMode::Markdown) } else { None },
        (AddSourceMode::Markdown, TabKey::Left) => if caps.lum { Some(AddSourceMode::Lum) } else { None },
        (AddSourceMode::Markdown, TabKey::Right) => if caps.pdf { Some(AddSourceMode::Pdf) } else { None },
        (AddSourceMode::Pdf, TabKey::Left) => if caps.markdown { Some(AddSourceMode::Markdown) } else { None },
        (AddSourceMode::Pdf, TabKey::Right) => if caps.web { Some(AddSourceMode::Web) } else { None },
        (AddSourceMode::Web, TabKey::Left) => if caps.pdf { Some(AddSourceMode::Pdf) } else { None },
        (AddSourceMode::Web, TabKey::Right) => Some(AddSourceMode::Epub),
    }
}

/// A move by arrow key drops the chosen file, except a move from the web tab,
/// which holds no file.
pub fn key_move_clears_upload(from: AddSourceMode) -> (r: bool)
    ensures
        r == (from != AddSourceMode::Web),
{
    from != AddSourceMode::Web
}

/// The message that refuses a chosen file of `len` bytes: LUM files above
/// `lum_limit` and Markdown files above `markdown_limit` are refused; EPUB and
/// PDF files are taken as they are.
pub fn upload_error(mode: AddSourceMode, len: usize, lum_limit: usize, markdown_limit: usize) -> (r: Option<&'static str>)
    ensures
        mode == AddSourceMode::Lum && len > lum_limit ==> (r matches Some(m) && m@ == "LUM превышает лимит 100 МБ."@),
        mode == AddSourceMode::Markdown && len > markdown_limit ==> (r matches Some(m) && m@ == "Markdown превышает лимит 10 МБ."@),
        !(mode == AddSourceMode::Lum && len > lum_limit) && !(mode == AddSourceMode::Markdown && len > markdown_limit) ==> r is None,
{
    match mode {
        AddSourceMode::Lum => if len > lum_limit { Some("LUM превышает лимит 100 МБ.") } else { None },
        AddSourceMode::Markdown => if len > markdown_limit { Some("Markdown превышает лимит 10 МБ.") } else { None },
        _ => None,
    }
}

/// The import button is enabled when nothing is in flight and the tab has its
/// input: a chosen file for a file tab, a non-blank address for the web tab.
pub fn import_ready(mode: AddSourceMode, busy: bool, has_upload: bool, url: &str) -> (r: bool)
    ensures
        r == (!busy && if mode == AddSourceMode::Web { trim(url@).len() > 0 } else { has_upload }),
{
    if busy {
        return false;
    }
    match mode {
        AddSourceMode::Web => {
            let t = crate::text::trim_str(url);
            !t.as_str().is_empty()
        },
        _ => has_upload,
    }
}

// ---------------------------------------------------------------- connections

/// How a service's section stands.
#[derive(Clone, Copy, Debug, PartialEq, Eq, Structural)]
pub enum ServiceSection {
    /// The capabilities are not loaded yet.
    Checking,
    /// The server does not offer the service.
    Unavailable,
    /// The service is offered.
    Enabled,
}

/// The section of a service from whether the capabilities loaded and whether
/// they switch it on.
pub fn service_section(capabilities_loaded: bool, enabled: bool) -> (r: ServiceSection)
    ensures
        r == (if !capabilities_loaded {
            ServiceSection::Checking
        } else if enabled {
            ServiceSection::Enabled
        } else {
            ServiceSection::Unavailable
        }),
{
    if !capabilities_loaded {
        ServiceSection::Checking
    } else if enabled {
        ServiceSection::Enabled
    } else {
        ServiceSection::Unavailable
    }
}

/// Telegram import needs both the text import and the automatic link.
pub fn telegram_enabled(features: &Vec<String>) -> (r: bool)
    ensures
        r == (lists_feature(features@, "telegram-text-import"@) && lists_feature(features@, "telegram-admin-auto-link"@)),
{
    has_feature(features, "telegram-text-import") && has_feature(features, "telegram-admin-auto-link")
}

/// External agents need the MCP feature.
pub fn mcp_enabled(features: &Vec<String>) -> (r: bool)
    ensures
        r == lists_feature(features@, "mcp-account-agent"@),
{
    has_feature(features, "mcp-account-agent")
}

/// The badge of the Telegram section.
pub fn telegram_badge(section: ServiceSection) -> (r: &'static str)
    ensures
        r@ == match section {
            ServiceSection::Checking => "Проверяем…"@,
            ServiceSection::Unavailable => "Недоступен"@,
            ServiceSection::Enabled => "Без отдельной привязки"@,
        },
{
    match section {
        ServiceSection::Checking => "Проверяем…",
        ServiceSection::Unavailable => "Недоступен",
        ServiceSection::Enabled => "Без отдельной привязки",
    }
}

/// State of an MCP connection.
#[derive(Clone, Copy, Debug, PartialEq, Eq, Structural)]
pub enum ConnectionStatus {
    Active,
    Revoked,
}

/// The number of active connections among the first `n`.
pub open spec fn active_count(statuses: Seq<ConnectionStatus>, n: int) -> nat
    decreases n,
{
    if n <= 0 {
        0
    } else {
        active_count(statuses, n - 1) + if statuses[n - 1] == ConnectionStatus::Active { 1nat } else { 0nat }
    }
}

proof fn lemma_active_count_bound(statuses: Seq<ConnectionStatus>, n: int)
    requires
        0 <= n <= statuses.len(),
    ensures
        active_count(statuses, n) <= n,
    decreases n,
{
    if n > 0 {
        lemma_active_count_bound(statuses, n - 1);
    }
}

/// How many connections are active.
pub fn active_connections(statuses: &Vec<ConnectionStatus>) -> (r: usize)
    ensures
        r == active_count(statuses@, statuses@.len() as int),
{
    let mut count: usize = 0;
    let mut i: usize = 0;
    while i < statuses.len()
        invariant
            i <= statuses@.len(),
            count == active_count(statuses@, i as int),
        decreases statuses.len() - i,
    {
        proof {
            lemma_active_count_bound(statuses@, i as int);
        }
        if statuses[i] == ConnectionStatus::Active {
            count += 1;
        }
        i += 1;
    }
    count
}

/// The badge of the MCP section: the number of active connections once the
/// service is offered.
pub fn mcp_badge(section: ServiceSection, active: u64) -> (r: String)
    ensures
        r@ == match section {
            ServiceSection::Checking => "Проверяем…"@,
            ServiceSection::Unavailable => "Недоступен"@,
            ServiceSection::Enabled => decimal(active as nat) + " активно"@,
        },
{
    match section {
        ServiceSection::Checking => crate::text::string_from_chars(&chars_of("Проверяем…")),
        ServiceSection::Unavailable => crate::text::string_from_chars(&chars_of("Недоступен")),
        ServiceSection::Enabled => {
            let r = framed_number("", active, " активно");
            proof {
                reveal_strlit("");
                assert(""@ + decimal(active as nat) + " активно"@ =~= decimal(active as nat) + " активно"@);
            }
            r
        },
    }
}

/// What the connection list shows.
#[derive(Clone, Copy, Debug, PartialEq, Eq, Structural)]
pub enum ConnectionList {
    Loading,
    Empty,
    Listed,
}

/// The connection list: loading until the list arrives, then empty or listed.
pub fn connection_list(loaded: bool, count: usize) -> (r: ConnectionList)
    ensures
        r == (if !loaded { ConnectionList::Loading } else if count == 0 { ConnectionList::Empty } else { ConnectionList::Listed }),
{
    if !loaded {
        ConnectionList::Loading
    } else if count == 0 {
        ConnectionList::Empty
    } else {
        ConnectionList::Listed
    }
}

/// The state line of a connection.
pub fn connection_status_label(status: ConnectionStatus) -> (r: &'static str)
    ensures
        r@ == match status {
            ConnectionStatus::Active => "Активно"@,
            ConnectionStatus::Revoked => "Отозвано"@,
        },
{
    match status {
        ConnectionStatus::Active => "Активно",
        ConnectionStatus::Revoked => "Отозвано",
    }
}

/// Revoking is offered for an active connection only; reissuing the token is
/// offered for every connection.
pub fn revoke_offered(status: ConnectionStatus) -> (r: bool)
    ensures
        r == (status == ConnectionStatus::Active),
{
    status == ConnectionStatus::Active
}

} // verus!
