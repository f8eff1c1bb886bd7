//! Reader logic: tags, wikilinks, text offsets and page breaks.

use vstd::prelude::*;
use crate::tags::{comma_tags, spec_comma_tags, TagCase};
use crate::text::{
    alphanumeric, char_is_alphanumeric, char_len_utf16, char_len_utf8, chars_of, chars_start_with,
    chars_to_ascii_lowercase, ascii_lowercase, lemma_utf16_nonneg, lemma_utf16_take_step,
    starts_with, string_from_chars, strings_view, trim, trim_chars, utf16_len, utf16_prefix_sat,
    utf8_len,
};

verus! {

/// Tags parsed from the comma-separated field of a note: trimmed, non-empty,
/// without ASCII-case duplicates (the first spelling stays), at most `max_tags`.
pub fn parse_tags(value: &str, max_tags: usize) -> (r: Vec<String>)
    ensures
        strings_view(r@) == spec_comma_tags(value@, max_tags as nat, TagCase::Ascii),
{
    comma_tags(value, max_tags, TagCase::Ascii)
}


/// `Some` of the text unless it is empty.
pub fn non_empty(value: &str) -> (r: Option<String>)
    ensures
        value@.len() == 0 ==> r is None,
        value@.len() > 0 ==> (r matches Some(v) && v@ == value@),
{
    let chars = chars_of(value);
    if chars.len() == 0 {
        None
    } else {
        Some(string_from_chars(&chars))
    }
}

/// Scalars `start..end` of a text, clipped to the text (`chars().skip().take()`).
pub open spec fn spec_scalar_slice(s: Seq<char>, start: int, end: int) -> Seq<char> {
    let rest = if start >= s.len() { Seq::<char>::empty() } else { s.skip(start) };
    let n = if end > start { end - start } else { 0 };
    if n < rest.len() { rest.take(n) } else { rest }
}

pub fn scalar_slice(text: &str, start: usize, end: usize) -> (r: String)
    ensures
        r@ == spec_scalar_slice(text@, start as int, end as int),
{
    let chars = chars_of(text);
    let mut out: Vec<char> = Vec::new();
    if start < chars.len() && end > start {
        let stop = if end < chars.len() { end } else { chars.len() };
        let mut i = start;
        while i < stop
            invariant
                start <= i <= stop <= chars@.len(),
                out@ == chars@.subrange(start as int, i as int),
            decreases stop - i,
        {
            out.push(chars[i]);
            i += 1;
        }
        proof {
            assert(out@ =~= spec_scalar_slice(text@, start as int, end as int));
        }
    } else {
        proof {
            assert(out@ =~= spec_scalar_slice(text@, start as int, end as int));
        }
    }
    string_from_chars(&out)
}

/// UTF-16 offset of the scalar boundary `scalar_offset` (clipped to the text),
/// saturated at `u32::MAX`.
pub fn utf16_offset(text: &str, scalar_offset: usize) -> (r: u32)
    ensures
        r as int == utf16_prefix_sat(text@, if scalar_offset < text@.len() { scalar_offset as int } else { text@.len() as int }),
{
    let chars = chars_of(text);
    let stop = if scalar_offset < chars.len() { scalar_offset } else { chars.len() };
    let mut total: u32 = 0;
    let mut i: usize = 0;
    proof {
        assert(text@.take(0) =~= Seq::<char>::empty());
    }
    while i < stop
        invariant
            i <= stop <= chars@.len(),
            chars@ == text@,
            total as int == utf16_prefix_sat(text@, i as int),
        decreases stop - i,
    {
        proof {
            lemma_utf16_take_step(text@, i as int);
            lemma_utf16_nonneg(text@, i as int);
        }
        total = total.saturating_add(char_len_utf16(chars[i]));
        i += 1;
    }
    total
}

/// Whether a page may break before scalar `i` without splitting a word.
pub open spec fn is_word_break(c: Seq<char>, i: int) -> bool {
    !alphanumeric(c[i - 1]) || !alphanumeric(c[i])
}

/// The last word break in `lo..hi`, or -1.
pub open spec fn last_break_in(c: Seq<char>, lo: int, hi: int) -> int
    decreases hi - lo,
{
    if hi <= lo {
        -1
    } else if is_word_break(c, hi - 1) {
        hi - 1
    } else {
        last_break_in(c, lo, hi - 1)
    }
}

/// Where a page that fits scalars `start..accepted` of a block ending at `end` breaks:
/// at `accepted` unless that splits a word, else at the last word break after `start`.
pub open spec fn spec_snap_page_break(c: Seq<char>, start: int, accepted: int, end: int) -> int {
    if accepted >= end {
        end
    } else if accepted == 0 || accepted >= c.len() || is_word_break(c, accepted) {
        accepted
    } else {
        let b = last_break_in(c, start + 1, accepted);
        if b >= 0 { b } else { accepted }
    }
}

proof fn lemma_last_break_range(c: Seq<char>, lo: int, hi: int)
    ensures
        last_break_in(c, lo, hi) == -1 || lo <= last_break_in(c, lo, hi) < hi,
    decreases hi - lo,
{
    if hi > lo && !is_word_break(c, hi - 1) {
        lemma_last_break_range(c, lo, hi - 1);
    }
}

/// A break snapped from an accepted position after `start` stays after `start`
/// and within the block.
pub proof fn lemma_snap_page_break_range(c: Seq<char>, start: int, accepted: int, end: int)
    requires
        0 <= start < accepted <= end,
    ensures
        start < spec_snap_page_break(c, start, accepted, end) <= end,
{
    lemma_last_break_range(c, start + 1, accepted);
}

pub fn snap_page_break(text: &str, start: usize, accepted: usize, end: usize) -> (r: usize)
    requires
        start < usize::MAX,
    ensures
        r as int == spec_snap_page_break(text@, start as int, accepted as int, end as int),
{
    if accepted >= end {
        return end;
    }
    let c = chars_of(text);
    if accepted == 0 || accepted >= c.len() || !char_is_alphanumeric(c[accepted - 1])
        || !char_is_alphanumeric(c[accepted])
    {
        return accepted;
    }
    let lo = start + 1;
    let mut index = accepted;
    while index > lo
        invariant
            lo == start + 1,
            0 < accepted < end,
            !is_word_break(text@, accepted as int),
            index <= accepted < c@.len(),
            c@ == text@,
            index >= lo ==> last_break_in(text@, lo as int, accepted as int) == last_break_in(text@, lo as int, index as int),
            index < lo ==> index == accepted,
        decreases index,
    {
        let k = index - 1;
        if !char_is_alphanumeric(c[k - 1]) || !char_is_alphanumeric(c[k]) {
            return k;
        }
        index = k;
    }
    proof {
        lemma_last_break_range(text@, lo as int, accepted as int);
    }
    accepted
}


/// Start of the last `[[` in a text, or -1.
pub open spec fn last_open_bracket(s: Seq<char>, j: int) -> int
    decreases j,
{
    if j < 2 {
        -1
    } else if s[j - 2] == '[' && s[j - 1] == '[' {
        j - 2
    } else {
        last_open_bracket(s, j - 1)
    }
}

pub open spec fn contains_pair(s: Seq<char>, a: char, b: char) -> bool {
    exists|k: int| 0 <= k && k + 1 < s.len() && #[trigger] s[k] == a && s[k + 1] == b
}

pub open spec fn contains_char(s: Seq<char>, a: char) -> bool {
    exists|k: int| 0 <= k < s.len() && #[trigger] s[k] == a
}

/// The query of a `[[…` link still being typed at the end of a draft: the text
/// after the last `[[`, trimmed, when it holds no `]]` and no line break, is at
/// most 1000 bytes long and is not blank.
pub open spec fn spec_unfinished_wikilink_query(s: Seq<char>) -> Option<Seq<char>> {
    let start = last_open_bracket(s, s.len() as int);
    if start < 0 {
        None
    } else {
        let tail = s.skip(start + 2);
        if contains_pair(tail, ']', ']') || contains_char(tail, '\n') || utf8_len(tail) > 1000 {
            None
        } else if trim(tail).len() == 0 {
            None
        } else {
            Some(trim(tail))
        }
    }
}

proof fn lemma_last_open_range(s: Seq<char>, j: int)
    requires
        j <= s.len(),
    ensures
        last_open_bracket(s, j) == -1 || (0 <= last_open_bracket(s, j) && last_open_bracket(s, j) + 2 <= j),
    decreases j,
{
    if j >= 2 && !(s[j - 2] == '[' && s[j - 1] == '[') {
        lemma_last_open_range(s, j - 1);
    }
}

fn find_last_open(c: &[char]) -> (r: Option<usize>)
    ensures
        r is None ==> last_open_bracket(c@, c@.len() as int) == -1,
        r matches Some(i) ==> (i == last_open_bracket(c@, c@.len() as int) && i + 2 <= c@.len()),
{
    let mut j = c.len();
    while j >= 2
        invariant
            j <= c@.len(),
            last_open_bracket(c@, c@.len() as int) == last_open_bracket(c@, j as int),
        decreases j,
    {
        if c[j - 2] == '[' && c[j - 1] == '[' {
            return Some(j - 2);
        }
        j -= 1;
    }
    None
}

fn utf8_len_over(c: &[char], limit: u64) -> (r: bool)
    requires
        limit < u64::MAX - 4,
    ensures
        r == (utf8_len(c@) > limit),
{
    let mut total: u64 = 0;
    let mut i: usize = 0;
    proof {
        assert(c@.take(0) =~= Seq::<char>::empty());
    }
    while i < c.len()
        invariant
            i <= c@.len(),
            total as int == utf8_len(c@.take(i as int)),
            total <= limit,
            limit < u64::MAX - 4,
        decreases c.len() - i,
    {
        proof {
            assert(c@.take(i + 1).drop_last() =~= c@.take(i as int));
        }
        total = total + char_len_utf8(c[i]) as u64;
        if total > limit {
            proof {
                crate::reader::lemma_utf8_prefix_monotone(c@, i + 1, c@.len() as int);
                assert(c@.take(c@.len() as int) =~= c@);
            }
            return true;
        }
        i += 1;
    }
    assert(c@.take(c@.len() as int) =~= c@);
    false
}

pub proof fn lemma_utf8_prefix_monotone(s: Seq<char>, a: int, b: int)
    requires
        0 <= a <= b <= s.len(),
    ensures
        utf8_len(s.take(a)) <= utf8_len(s.take(b)),
    decreases b - a,
{
    if a < b {
        lemma_utf8_prefix_monotone(s, a, b - 1);
        assert(s.take(b).drop_last() =~= s.take(b - 1));
    }
}

pub fn unfinished_wikilink_query(value: &str) -> (r: Option<String>)
    ensures
        r matches Some(q) ==> spec_unfinished_wikilink_query(value@) == Some(q@),
        r is None ==> spec_unfinished_wikilink_query(value@) is None,
{
    let c = chars_of(value);
    let found = find_last_open(c.as_slice());
    let start = match found {
        Some(i) => i,
        None => return None,
    };
    assert(start + 2 <= c.len());
    let mut tail: Vec<char> = Vec::new();
    let mut i = start + 2;
    while i < c.len()
        invariant
            start + 2 <= i <= c@.len(),
            tail@ == c@.subrange(start + 2, i as int),
        decreases c.len() - i,
    {
        tail.push(c[i]);
        i += 1;
    }
    proof {
        assert(tail@ =~= value@.skip(start + 2));
    }
    let mut k: usize = 0;
    while k < tail.len()
        invariant
            k <= tail@.len(),
            tail@ == value@.skip(start + 2),
            c@ == value@,
            start as int == last_open_bracket(value@, value@.len() as int),
            forall|m: int| 0 <= m < k ==> #[trigger] tail@[m] != '\n',
            forall|m: int| 0 <= m < k && m + 1 < tail@.len() ==> !(#[trigger] tail@[m] == ']' && tail@[m + 1] == ']'),
        decreases tail.len() - k,
    {
        if tail[k] == '\n' {
            proof {
                assert(contains_char(tail@, '\n'));
            }
            return None;
        }
        if k + 1 < tail.len() && tail[k] == ']' && tail[k + 1] == ']' {
            proof {
                assert(contains_pair(tail@, ']', ']'));
            }
            return None;
        }
        k += 1;
    }
    if utf8_len_over(&tail, 1000) {
        return None;
    }
    let query = trim_chars(&tail);
    if query.len() == 0 {
        None
    } else {
        Some(string_from_chars(&query))
    }
}

/// The draft once the `[[…` being typed at its end becomes `[[display_path]]`.
pub open spec fn spec_insert_wikilink(draft: Seq<char>, display_path: Seq<char>) -> Seq<char> {
    let start = last_open_bracket(draft, draft.len() as int);
    if start < 0 {
        draft
    } else {
        draft.take(start) + seq!['[', '['] + display_path + seq![']', ']']
    }
}

pub fn insert_wikilink_suggestion(draft: &mut String, display_path: &str)
    ensures
        final(draft)@ == spec_insert_wikilink(old(draft)@, display_path@),
{
    let c = chars_of(draft.as_str());
    if let Some(start) = find_last_open(&c) {
        let path = chars_of(display_path);
        let mut out: Vec<char> = Vec::new();
        let mut i: usize = 0;
        while i < start
            invariant
                i <= start <= c@.len(),
                out@ == c@.take(i as int),
            decreases start - i,
        {
            out.push(c[i]);
            i += 1;
        }
        out.push('[');
        out.push('[');
        let mut j: usize = 0;
        while j < path.len()
            invariant
                j <= path@.len(),
                out@ == c@.take(start as int) + seq!['[', '['] + path@.take(j as int),
            decreases path.len() - j,
        {
            out.push(path[j]);
            j += 1;
            proof {
                assert(path@.take(j as int) =~= path@.take(j - 1).push(path@[j - 1]));
            }
        }
        out.push(']');
        out.push(']');
        proof {
            assert(path@.take(path@.len() as int) =~= path@);
            assert(out@ =~= spec_insert_wikilink(old(draft)@, display_path@));
        }
        *draft = string_from_chars(&out);
    }
}

/// Whether loaded link suggestions still answer the draft: the draft still ends
/// in an unfinished link with the same query.
pub fn suggestions_still_current(active_draft: &str, query: &str) -> (r: bool)
    ensures
        r == (spec_unfinished_wikilink_query(active_draft@) == Some(query@)),
{
    match unfinished_wikilink_query(active_draft) {
        Some(q) => {
            let a = chars_of(q.as_str());
            let b = chars_of(query);
            crate::tags::chars_equal(&a, &b)
        },
        None => false,
    }
}

/// The label of a selection sent to the AI chat: the material's title, a dash,
/// and the first 80 scalars of the quote in guillemets.
pub open spec fn spec_selection_label(title: Seq<char>, quote: Seq<char>) -> Seq<char> {
    let shown = if quote.len() <= 80 { quote } else { quote.take(80) };
    title + " — «"@ + shown + "»"@
}

pub fn selection_label(title: &str, quote: &str) -> (r: String)
    ensures
        r@ == spec_selection_label(title@, quote@),
{
    let quote_chars = chars_of(quote);
    let shown_len = if quote_chars.len() <= 80 { quote_chars.len() } else { 80 };
    let shown = scalar_slice(quote, 0, shown_len);
    let head = crate::http::prefixed(title, " — «");
    let body = crate::http::prefixed(head.as_str(), shown.as_str());
    let r = crate::http::prefixed(body.as_str(), "»");
    proof {
        if quote@.len() <= 80 {
            assert(quote@.skip(0) =~= quote@);
            assert(shown@ =~= quote@);
        } else {
            assert(quote@.skip(0) =~= quote@);
        }
    }
    r
}

/// Whether a failed selection capture is reported: an empty selection is not.
pub fn selection_error_notice(error: &str) -> (r: Option<&'static str>)
    ensures
        error@ == "Выделение пусто"@ ==> r is None,
        error@ != "Выделение пусто"@ ==> (r matches Some(m) && m@ == "Выделите текст внутри страницы книги."@),
{
    let a = chars_of(error);
    let b = chars_of("Выделение пусто");
    if crate::tags::chars_equal(&a, &b) {
        None
    } else {
        Some("Выделите текст внутри страницы книги.")
    }
}

/// UTF-16 length of the first `offset` children of a selection's element node
/// (each child counted at most `u32::MAX`), saturated at `u32::MAX`.
pub open spec fn children_utf16(lengths: Seq<usize>, count: int) -> int
    decreases count,
{
    if count <= 0 {
        0
    } else {
        let before = children_utf16(lengths, count - 1);
        let own = if lengths[count - 1] > u32::MAX { u32::MAX as int } else { lengths[count - 1] as int };
        if before + own > u32::MAX { u32::MAX as int } else { before + own }
    }
}

proof fn lemma_children_utf16_range(lengths: Seq<usize>, count: int)
    ensures
        0 <= children_utf16(lengths, count) <= u32::MAX,
    decreases count,
{
    if count > 0 {
        lemma_children_utf16_range(lengths, count - 1);
    }
}

pub fn children_utf16_length(child_lengths: &Vec<usize>, offset: u32) -> (r: u32)
    requires
        child_lengths@.len() <= u32::MAX,
    ensures
        r as int == children_utf16(child_lengths@, if (offset as int) < child_lengths@.len() { offset as int } else { child_lengths@.len() as int }),
{
    let count = child_lengths.len() as u32;
    let limit = if offset < count { offset } else { count };
    let mut total: u32 = 0;
    let mut i: u32 = 0;
    while i < limit
        invariant
            i <= limit <= child_lengths@.len(),
            limit as int == (if (offset as int) < child_lengths@.len() { offset as int } else { child_lengths@.len() as int }),
            total as int == children_utf16(child_lengths@, i as int),
        decreases limit - i,
    {
        let raw = child_lengths[i as usize];
        let own: u32 = if raw > u32::MAX as usize { u32::MAX } else { raw as u32 };
        proof {
            lemma_children_utf16_range(child_lengths@, i as int);
        }
        total = total.saturating_add(own);
        i += 1;
    }
    total
}

/// The scalar offset of a selection boundary in its block: the fragment's start
/// (read from its attribute) plus the boundary's offset inside the fragment.
pub fn selection_offset(fragment_start: Option<&str>, fragment_text: &str, boundary_utf16: u32) -> (r: Result<usize, String>)
    requires
        fragment_start matches Some(a) ==> (crate::parse::spec_parse_unsigned(a@, usize::MAX as nat) matches Some(v)
            ==> v + fragment_text@.len() <= usize::MAX),
    ensures
        ({
            let start = match fragment_start {
                Some(a) => crate::parse::spec_parse_unsigned(a@, usize::MAX as nat),
                None => None,
            };
            &&& start is None ==> (r matches Err(m) && m@ == "DOM fragment не содержит scalar offset"@)
            &&& start matches Some(v) ==> (
                (exists|k: int| 0 <= k <= fragment_text@.len() && #[trigger] utf16_prefix_sat(fragment_text@, k) == boundary_utf16)
                    <==> r is Ok)
            &&& start matches Some(v) ==> (r matches Ok(o) ==> exists|k: int| 0 <= k <= fragment_text@.len()
                && #[trigger] utf16_prefix_sat(fragment_text@, k) == boundary_utf16
                && (forall|j: int| 0 <= j < k ==> #[trigger] utf16_prefix_sat(fragment_text@, j) < boundary_utf16)
                && o == v + k)
        }),
{
    let start = match fragment_start {
        Some(a) => crate::parse::parse_usize(a),
        None => None,
    };
    let start = match start {
        Some(v) => v,
        None => return Err("DOM fragment не содержит scalar offset".to_string()),
    };
    let local = crate::text::scalar_offset_from_utf16(fragment_text, boundary_utf16)?;
    Ok(start + local)
}

/// A node of a reading document: the first step of its path and its id.
pub struct DocNode {
    pub root: Option<String>,
    pub id: String,
}

/// Index of the first node under the root, or -1.
pub open spec fn first_node_under(nodes: Seq<DocNode>, root: Seq<char>, i: int) -> int
    decreases nodes.len() - i,
{
    if i < 0 || i >= nodes.len() {
        -1
    } else if (nodes[i].root matches Some(r) && r@ == root) {
        i
    } else {
        first_node_under(nodes, root, i + 1)
    }
}

/// The content unit of a page: the id of the first node under the root of the
/// page's first fragment.
pub fn page_unit_id(page_root: Option<&str>, nodes: &Vec<DocNode>) -> (r: Option<String>)
    ensures
        page_root is None ==> r is None,
        page_root matches Some(root) ==> ({
            let k = first_node_under(nodes@, root@, 0);
            &&& k < 0 ==> r is None
            &&& k >= 0 ==> (r matches Some(id) && id@ == nodes@[k].id@)
        }),
{
    let root = match page_root {
        Some(r) => r,
        None => return None,
    };
    let wanted = chars_of(root);
    let mut i: usize = 0;
    while i < nodes.len()
        invariant
            i <= nodes@.len(),
            wanted@ == root@,
            page_root == Some(root),
            first_node_under(nodes@, root@, 0) == first_node_under(nodes@, root@, i as int),
        decreases nodes.len() - i,
    {
        match &nodes[i].root {
            Some(r) => {
                let have = chars_of(r.as_str());
                if crate::tags::chars_equal(&have, &wanted) {
                    let id = chars_of(nodes[i].id.as_str());
                    return Some(string_from_chars(&id));
                }
            },
            None => {},
        }
        i += 1;
    }
    None
}

/// An external link opens only over HTTP(S): its URL when it starts with
/// `https://` or `http://`, ignoring ASCII case.
pub fn safe_external_url(url: Option<&str>) -> (r: Option<String>)
    ensures
        url is None ==> r is None,
        url matches Some(u) ==> (
            (starts_with(ascii_lowercase(u@), "https://"@) || starts_with(ascii_lowercase(u@), "http://"@)) <==> r is Some),
        url matches Some(u) ==> (r matches Some(v) ==> v@ == u@),
{
    let u = match url {
        Some(u) => u,
        None => return None,
    };
    let chars = chars_of(u);
    let lowered = chars_to_ascii_lowercase(&chars);
    let https = chars_of("https://");
    let http = chars_of("http://");
    if chars_start_with(&lowered, &https) || chars_start_with(&lowered, &http) {
        Some(string_from_chars(&chars))
    } else {
        None
    }
}

/// What a note's composer submits: the trimmed text, the trimmed title unless
/// blank, and the tags; nothing when the text is blank.
pub struct NoteSubmission {
    pub body: String,
    pub title: Option<String>,
    pub tags: Vec<String>,
}

pub fn note_submission(draft: &str, title: &str, tags: &str, max_tags: usize) -> (r: Option<NoteSubmission>)
    ensures
        trim(draft@).len() == 0 ==> r is None,
        trim(draft@).len() > 0 ==> (r matches Some(n) && n.body@ == trim(draft@)
            && (trim(title@).len() == 0 ==> n.title is None)
            && (trim(title@).len() > 0 ==> (n.title matches Some(t) && t@ == trim(title@)))
            && strings_view(n.tags@) == spec_comma_tags(tags@, max_tags as nat, TagCase::Ascii)),
{
    let body = crate::text::trim_str(draft);
    if body.as_str().is_empty() {
        return None;
    }
    let trimmed_title = crate::text::trim_str(title);
    let note_title = non_empty(trimmed_title.as_str());
    Some(NoteSubmission { body, title: note_title, tags: parse_tags(tags, max_tags) })
}

/// Where a link of a note leads.
#[derive(Clone, Copy, Debug, PartialEq, Eq, Structural)]
pub enum LinkTargetAction {
    /// To the anchor of the target in this material.
    Anchor,
    /// To the anchor of the linked annotation in this material.
    AnnotationAnchor,
    /// To the start of this material.
    MaterialStart,
    /// To the reader of another material.
    OtherMaterial,
    /// Nowhere.
    Stay,
}

/// The way to a link's target: inside this material by the target's anchor, by
/// the anchor of the linked annotation, or to its start; else to the other
/// material's reader when the target names one.
pub fn link_target_action(same_material: bool, has_anchor: bool, annotation_anchor_found: bool, names_material: bool) -> (r: LinkTargetAction)
    ensures
        same_material && has_anchor ==> r == LinkTargetAction::Anchor,
        same_material && !has_anchor && annotation_anchor_found ==> r == LinkTargetAction::AnnotationAnchor,
        same_material && !has_anchor && !annotation_anchor_found ==> r == LinkTargetAction::MaterialStart,
        !same_material && names_material ==> r == LinkTargetAction::OtherMaterial,
        !same_material && !names_material ==> r == LinkTargetAction::Stay,
{
    if same_material {
        if has_anchor {
            LinkTargetAction::Anchor
        } else if annotation_anchor_found {
            LinkTargetAction::AnnotationAnchor
        } else {
            LinkTargetAction::MaterialStart
        }
    } else if names_material {
        LinkTargetAction::OtherMaterial
    } else {
        LinkTargetAction::Stay
    }
}

/// The way to a backlink's source: its annotation's anchor in this material,
/// nowhere when that annotation is not here, or the other material's reader.
pub fn backlink_action(same_material: bool, anchor_found: bool) -> (r: LinkTargetAction)
    ensures
        same_material && anchor_found ==> r == LinkTargetAction::AnnotationAnchor,
        same_material && !anchor_found ==> r == LinkTargetAction::Stay,
        !same_material ==> r == LinkTargetAction::OtherMaterial,
{
    if same_material {
        if anchor_found { LinkTargetAction::AnnotationAnchor } else { LinkTargetAction::Stay }
    } else {
        LinkTargetAction::OtherMaterial
    }
}

/// Kind of a link in the text.
#[derive(Clone, Copy, Debug, PartialEq, Eq, Structural)]
pub enum ReadingLinkKind {
    Internal,
    Footnote,
    External,
}

/// What activating a link does.
#[derive(Clone, Copy, Debug, PartialEq, Eq, Structural)]
pub enum LinkActivation {
    /// Open the URL in a new tab, when it is safe.
    OpenExternal,
    /// Show the footnote.
    ShowFootnote,
    /// Go to the page of the link's target, when it has one.
    JumpToTarget,
}

pub fn link_activation(kind: ReadingLinkKind) -> (r: LinkActivation)
    ensures
        r == match kind {
            ReadingLinkKind::External => LinkActivation::OpenExternal,
            ReadingLinkKind::Footnote => LinkActivation::ShowFootnote,
            ReadingLinkKind::Internal => LinkActivation::JumpToTarget,
        },
{
    match kind {
        ReadingLinkKind::External => LinkActivation::OpenExternal,
        ReadingLinkKind::Footnote => LinkActivation::ShowFootnote,
        ReadingLinkKind::Internal => LinkActivation::JumpToTarget,
    }
}

/// The settings that decide the page layout.
#[derive(Clone, Copy, Debug, PartialEq, Eq, Structural)]
pub struct LayoutSettings {
    pub font_size_px: u16,
    pub line_height_percent: u16,
    pub width: crate::reader_view::ReaderWidth,
}

/// A change of settings that needs new pages: the font size, the line height or the width.
pub fn layout_changed(previous: LayoutSettings, next: LayoutSettings) -> (r: bool)
    ensures
        r == (previous.font_size_px != next.font_size_px || previous.line_height_percent != next.line_height_percent
            || previous.width != next.width),
{
    previous.font_size_px != next.font_size_px || previous.line_height_percent != next.line_height_percent
        || previous.width != next.width
}

/// Kind of a block of a reading document.
#[derive(Clone, Copy, Debug, PartialEq, Eq, Structural)]
pub enum BlockKind {
    Heading(u8),
    Paragraph,
    Blockquote,
    ListItem,
    CodeBlock,
    Table,
    HorizontalRule,
    Image,
    Caption,
    Footnote,
    PluginPlaceholder,
}

/// The element a block is measured in.
pub fn measurement_tag(kind: BlockKind) -> (r: &'static str)
    ensures
        r@ == match kind {
            BlockKind::Heading(1) => "h2"@,
            BlockKind::Heading(2) => "h3"@,
            BlockKind::Heading(3) => "h4"@,
            BlockKind::Heading(4) => "h5"@,
            BlockKind::Heading(_) => "h6"@,
            BlockKind::Blockquote => "blockquote"@,
            BlockKind::CodeBlock => "pre"@,
            BlockKind::Footnote => "aside"@,
            BlockKind::HorizontalRule => "hr"@,
            _ => "p"@,
        },
{
    match kind {
        BlockKind::Heading(1) => "h2",
        BlockKind::Heading(2) => "h3",
        BlockKind::Heading(3) => "h4",
        BlockKind::Heading(4) => "h5",
        BlockKind::Heading(_) => "h6",
        BlockKind::Blockquote => "blockquote",
        BlockKind::CodeBlock => "pre",
        BlockKind::Footnote => "aside",
        BlockKind::HorizontalRule => "hr",
        _ => "p",
    }
}

/// The height an atomic block is measured with.
pub fn atomic_block_height(kind: BlockKind) -> (r: &'static str)
    ensures
        r@ == match kind {
            BlockKind::HorizontalRule => "1px"@,
            BlockKind::Table => "180px"@,
            BlockKind::Image => "min(360px, calc(100% - 1em))"@,
            _ => "160px"@,
        },
{
    match kind {
        BlockKind::HorizontalRule => "1px",
        BlockKind::Table => "180px",
        BlockKind::Image => "min(360px, calc(100% - 1em))",
        _ => "160px",
    }
}

/// Choosing a suggestion finishes the link being typed: afterwards the draft
/// has no unfinished link, so no suggestion is asked for.
pub proof fn law_inserted_link_is_finished(draft: Seq<char>, display_path: Seq<char>)
    ensures
        spec_unfinished_wikilink_query(spec_insert_wikilink(draft, display_path)) is None,
{
    let start = last_open_bracket(draft, draft.len() as int);
    lemma_last_open_range(draft, draft.len() as int);
    if start >= 0 {
        let d = spec_insert_wikilink(draft, display_path);
        let n = d.len() as int;
        assert(d[n - 1] == ']' && d[n - 2] == ']');
        let k = last_open_bracket(d, n);
        lemma_last_open_range(d, n);
        if k >= 0 {
            lemma_last_open_is_open(d, n);
            assert(d[k] == '[' && d[k + 1] == '[');
            assert(k + 1 != n - 1 && k + 1 != n - 2 && k != n - 2);
            let tail = d.skip(k + 2);
            assert(tail[tail.len() - 2] == ']' && tail[tail.len() - 1] == ']');
            assert(contains_pair(tail, ']', ']'));
        }
    }
}

proof fn lemma_last_open_is_open(s: Seq<char>, j: int)
    requires
        j <= s.len(),
        last_open_bracket(s, j) >= 0,
    ensures
        s[last_open_bracket(s, j)] == '[' && s[last_open_bracket(s, j) + 1] == '[',
    decreases j,
{
    if !(s[j - 2] == '[' && s[j - 1] == '[') {
        lemma_last_open_is_open(s, j - 1);
    }
}

/// A scalar boundary converted to UTF-16 and back is the same boundary (while the
/// UTF-16 offset fits in `u32`): it is the only, and so the first, boundary with
/// that UTF-16 offset.
pub proof fn law_utf16_round_trip(text: Seq<char>, k: int)
    requires
        0 <= k <= text.len(),
        utf16_len(text.take(k)) <= u32::MAX,
    ensures
        forall|k0: int| 0 <= k0 <= text.len() && utf16_prefix_sat(text, k0) == utf16_prefix_sat(text, k)
            && (forall|j: int| 0 <= j < k0 ==> #[trigger] utf16_prefix_sat(text, j) < utf16_prefix_sat(text, k))
            ==> k0 == k,
{
    assert forall|k0: int| 0 <= k0 <= text.len() && utf16_prefix_sat(text, k0) == utf16_prefix_sat(text, k)
        && (forall|j: int| 0 <= j < k0 ==> #[trigger] utf16_prefix_sat(text, j) < utf16_prefix_sat(text, k))
        implies k0 == k by {
        if k0 > k {
            assert(utf16_prefix_sat(text, k) < utf16_prefix_sat(text, k));
        } else if k0 < k {
            crate::text::lemma_utf16_monotone(text, k0, k);
            crate::text::lemma_utf16_nonneg(text, k0);
        }
    }
}

} // verus!
