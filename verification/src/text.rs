use vstd::prelude::*;

verus! {

/// Appends one character to a string (`String::push`).
#[verifier::external_body]
pub(crate) fn push_char(s: &mut String, c: char)
    ensures
        final(s)@ == old(s)@.push(c),
{
    s.push(c);
}

/// The scalar values of a string slice, in order.
pub fn chars_of(s: &str) -> (r: Vec<char>)
    ensures
        r@ == s@,
{
    let mut out: Vec<char> = Vec::new();
    for c in it: s.chars()
        invariant
            out@ == it.seq().take(it.index() as int),
    {
        out.push(c);
    }
    out
}

/// A string holding exactly the given scalar values.
pub fn string_from_chars(chars: &[char]) -> (r: String)
    ensures
        r@ == chars@,
{
    let mut out = String::new();
    let mut i: usize = 0;
    while i < chars.len()
        invariant
            i <= chars.len(),
            out@ == chars@.take(i as int),
        decreases chars.len() - i,
    {
        push_char(&mut out, chars[i]);
        i += 1;
        assert(chars@.take(i as int) =~= chars@.take((i - 1) as int).push(chars@[i - 1]));
    }
    assert(chars@.take(chars.len() as int) =~= chars@);
    out
}

} // verus!

verus! {

/// Unicode `White_Space`, the property behind `char::is_whitespace`.
pub open spec fn is_whitespace(c: char) -> bool {
    let v = c as u32;
    (0x09 <= v && v <= 0x0d) || v == 0x20 || v == 0x85 || v == 0xa0 || v == 0x1680
        || (0x2000 <= v && v <= 0x200a) || v == 0x2028 || v == 0x2029 || v == 0x202f
        || v == 0x205f || v == 0x3000
}

pub fn char_is_whitespace(c: char) -> (r: bool)
    ensures
        r == is_whitespace(c),
{
    let v = c as u32;
    (0x09 <= v && v <= 0x0d) || v == 0x20 || v == 0x85 || v == 0xa0 || v == 0x1680
        || (0x2000 <= v && v <= 0x200a) || v == 0x2028 || v == 0x2029 || v == 0x202f
        || v == 0x205f || v == 0x3000
}

/// Index of the first non-whitespace character at or after `i` (the length when none).
pub open spec fn first_non_ws_from(s: Seq<char>, i: int) -> int
    decreases s.len() - i,
{
    if i >= s.len() {
        s.len() as int
    } else if !is_whitespace(s[i]) {
        i
    } else {
        first_non_ws_from(s, i + 1)
    }
}

/// End of the text once trailing whitespace down to `lo` is dropped.
pub open spec fn trimmed_end_from(s: Seq<char>, j: int, lo: int) -> int
    decreases j - lo,
{
    if j <= lo {
        lo
    } else if !is_whitespace(s[j - 1]) {
        j
    } else {
        trimmed_end_from(s, j - 1, lo)
    }
}

pub open spec fn trim_start_index(s: Seq<char>) -> int {
    first_non_ws_from(s, 0)
}

pub open spec fn trim_end_index(s: Seq<char>) -> int {
    trimmed_end_from(s, s.len() as int, trim_start_index(s))
}

/// `str::trim`: the text without leading and trailing whitespace.
pub open spec fn trim(s: Seq<char>) -> Seq<char> {
    s.subrange(trim_start_index(s), trim_end_index(s))
}

pub proof fn lemma_first_non_ws_bounds(s: Seq<char>, i: int)
    requires
        0 <= i <= s.len(),
    ensures
        i <= first_non_ws_from(s, i) <= s.len(),
        forall|k: int| i <= k < first_non_ws_from(s, i) ==> is_whitespace(#[trigger] s[k]),
        first_non_ws_from(s, i) < s.len() ==> !is_whitespace(s[first_non_ws_from(s, i)]),
    decreases s.len() - i,
{
    if i < s.len() && is_whitespace(s[i]) {
        lemma_first_non_ws_bounds(s, i + 1);
    }
}

pub proof fn lemma_trimmed_end_bounds(s: Seq<char>, j: int, lo: int)
    requires
        0 <= lo <= j <= s.len(),
    ensures
        lo <= trimmed_end_from(s, j, lo) <= j,
        forall|k: int| trimmed_end_from(s, j, lo) <= k < j ==> is_whitespace(#[trigger] s[k]),
        trimmed_end_from(s, j, lo) > lo ==> !is_whitespace(s[trimmed_end_from(s, j, lo) - 1]),
    decreases j - lo,
{
    if j > lo && is_whitespace(s[j - 1]) {
        lemma_trimmed_end_bounds(s, j - 1, lo);
    }
}

pub proof fn lemma_trim_bounds(s: Seq<char>)
    ensures
        0 <= trim_start_index(s) <= trim_end_index(s) <= s.len(),
{
    lemma_first_non_ws_bounds(s, 0);
    lemma_trimmed_end_bounds(s, s.len() as int, trim_start_index(s));
}

/// The bounds of `chars` once leading and trailing whitespace are dropped.
pub fn trim_bounds(chars: &[char]) -> (r: (usize, usize))
    ensures
        r.0 == trim_start_index(chars@),
        r.1 == trim_end_index(chars@),
        r.0 <= r.1 <= chars@.len(),
        chars@.subrange(r.0 as int, r.1 as int) == trim(chars@),
{
    let n = chars.len();
    let mut i: usize = 0;
    while i < n && char_is_whitespace(chars[i])
        invariant
            i <= n == chars@.len(),
            first_non_ws_from(chars@, i as int) == first_non_ws_from(chars@, 0),
        decreases n - i,
    {
        i += 1;
    }
    let mut j: usize = n;
    while j > i && char_is_whitespace(chars[j - 1])
        invariant
            i <= j <= n == chars@.len(),
            i == trim_start_index(chars@),
            trimmed_end_from(chars@, j as int, i as int) == trim_end_index(chars@),
        decreases j,
    {
        j -= 1;
    }
    proof {
        lemma_trim_bounds(chars@);
    }
    (i, j)
}

/// `str::trim` on a character vector.
pub fn trim_chars(chars: &[char]) -> (r: Vec<char>)
    ensures
        r@ == trim(chars@),
{
    let (a, b) = trim_bounds(chars);
    let mut out: Vec<char> = Vec::new();
    let mut k = a;
    while k < b
        invariant
            a <= k <= b <= chars@.len(),
            out@ == chars@.subrange(a as int, k as int),
        decreases b - k,
    {
        out.push(chars[k]);
        k += 1;
    }
    out
}

/// `str::trim`.
pub fn trim_str(s: &str) -> (r: String)
    ensures
        r@ == trim(s@),
{
    let chars = chars_of(s);
    let t = trim_chars(&chars);
    string_from_chars(&t)
}

/// `str::split` on one separator character: the pieces between separators.
pub open spec fn split(s: Seq<char>, sep: char) -> Seq<Seq<char>>
    decreases s.len(),
{
    if s.len() == 0 {
        seq![Seq::<char>::empty()]
    } else {
        let p = split(s.drop_last(), sep);
        if s.last() == sep {
            p.push(Seq::<char>::empty())
        } else {
            p.update(p.len() - 1, p.last().push(s.last()))
        }
    }
}

pub proof fn lemma_split_nonempty(s: Seq<char>, sep: char)
    ensures
        split(s, sep).len() >= 1,
    decreases s.len(),
{
    if s.len() > 0 {
        lemma_split_nonempty(s.drop_last(), sep);
    }
}

/// Splitting two texts joined by the separator gives the pieces of the first,
/// then those of the second.
pub proof fn lemma_split_concat(a: Seq<char>, b: Seq<char>, sep: char)
    ensures
        split(a + seq![sep] + b, sep) == split(a, sep) + split(b, sep),
    decreases b.len(),
{
    let s = a + seq![sep] + b;
    if b.len() == 0 {
        assert(s.drop_last() =~= a);
        assert(split(a, sep) + split(b, sep) =~= split(a, sep).push(Seq::<char>::empty()));
    } else {
        let b0 = b.drop_last();
        lemma_split_concat(a, b0, sep);
        lemma_split_nonempty(b0, sep);
        assert(s.drop_last() =~= a + seq![sep] + b0);
        let p = split(a, sep) + split(b0, sep);
        if b.last() == sep {
            assert(split(a, sep) + split(b, sep) =~= p.push(Seq::<char>::empty()));
        } else {
            assert(split(a, sep) + split(b, sep) =~= p.update(p.len() - 1, p.last().push(b.last())));
        }
    }
}

/// A text without the separator is a single piece.
pub proof fn lemma_split_without_sep(t: Seq<char>, sep: char)
    requires
        !t.contains(sep),
    ensures
        split(t, sep) == seq![t],
    decreases t.len(),
{
    if t.len() > 0 {
        let t0 = t.drop_last();
        assert(!t0.contains(sep)) by {
            if t0.contains(sep) {
                let k = choose|k: int| 0 <= k < t0.len() && t0[k] == sep;
                assert(t[k] == sep);
            }
        }
        lemma_split_without_sep(t0, sep);
        assert(t[t.len() - 1] != sep);
        assert(t0.push(t.last()) =~= t);
        assert(seq![t0].update(0, t0.push(t.last())) =~= seq![t]);
        assert(seq![t0].last() == t0);
    } else {
        assert(t =~= Seq::<char>::empty());
    }
}

/// A non-empty text that trimming leaves alone, with one space before it,
/// trims back to itself.
pub proof fn lemma_trim_after_space(t: Seq<char>)
    requires
        t.len() > 0,
        trim(t) == t,
    ensures
        trim(seq![' '] + t) == t,
{
    lemma_first_non_ws_bounds(t, 0);
    lemma_trim_bounds(t);
    lemma_trimmed_end_bounds(t, t.len() as int, trim_start_index(t));
    assert(trim_start_index(t) == 0);
    assert(trim_end_index(t) == t.len());
    assert(!is_whitespace(t[0]));
    assert(!is_whitespace(t[t.len() - 1]));
    let u = seq![' '] + t;
    assert(u[0] == ' ');
    assert(u[1] == t[0]);
    assert(first_non_ws_from(u, 1) == 1);
    assert(first_non_ws_from(u, 0) == 1);
    assert(u[u.len() - 1] == t[t.len() - 1]);
    assert(trimmed_end_from(u, u.len() as int, 1) == u.len());
    assert(u.subrange(1, u.len() as int) =~= t);
}

/// The pieces of `chars` between occurrences of `sep`.
pub fn split_chars(chars: &[char], sep: char) -> (r: Vec<Vec<char>>)
    ensures
        r@.len() >= 1,
        r@.len() == split(chars@, sep).len(),
        forall|k: int| 0 <= k < r@.len() ==> (#[trigger] r@[k])@ == split(chars@, sep)[k],
{
    let mut pieces: Vec<Vec<char>> = Vec::new();
    let mut current: Vec<char> = Vec::new();
    let mut i: usize = 0;
    while i < chars.len()
        invariant
            i <= chars@.len(),
            pieces@.len() + 1 == split(chars@.take(i as int), sep).len(),
            forall|k: int| 0 <= k < pieces@.len() ==> (#[trigger] pieces@[k])@ == split(chars@.take(i as int), sep)[k],
            current@ == split(chars@.take(i as int), sep).last(),
        decreases chars.len() - i,
    {
        let c = chars[i];
        proof {
            lemma_split_nonempty(chars@.take(i as int), sep);
            assert(chars@.take(i + 1).drop_last() =~= chars@.take(i as int));
        }
        if c == sep {
            let done = current;
            pieces.push(done);
            current = Vec::new();
        } else {
            current.push(c);
        }
        i += 1;
    }
    proof {
        assert(chars@.take(chars@.len() as int) =~= chars@);
    }
    pieces.push(current);
    pieces
}

} // verus!

verus! {

pub open spec fn is_ascii_uppercase(c: char) -> bool {
    0x41 <= (c as u32) && (c as u32) <= 0x5a
}

/// `char::to_ascii_lowercase`.
pub open spec fn ascii_lower(c: char) -> char {
    if is_ascii_uppercase(c) {
        ((c as u32) + 32) as char
    } else {
        c
    }
}

pub fn char_to_ascii_lowercase(c: char) -> (r: char)
    ensures
        r == ascii_lower(c),
{
    let v = c as u32;
    if 0x41 <= v && v <= 0x5a {
        let b = (v + 32) as u8;
        b as char
    } else {
        c
    }
}

/// `str::eq_ignore_ascii_case`.
pub open spec fn eq_ignore_ascii_case(a: Seq<char>, b: Seq<char>) -> bool {
    a.len() == b.len() && forall|i: int| 0 <= i < a.len() ==> ascii_lower(#[trigger] a[i]) == ascii_lower(b[i])
}

pub fn chars_eq_ignore_ascii_case(a: &[char], b: &[char]) -> (r: bool)
    ensures
        r == eq_ignore_ascii_case(a@, b@),
{
    if a.len() != b.len() {
        return false;
    }
    let mut i: usize = 0;
    while i < a.len()
        invariant
            i <= a@.len() == b@.len(),
            forall|k: int| 0 <= k < i ==> ascii_lower(#[trigger] a@[k]) == ascii_lower(b@[k]),
        decreases a.len() - i,
    {
        if char_to_ascii_lowercase(a[i]) != char_to_ascii_lowercase(b[i]) {
            return false;
        }
        i += 1;
    }
    true
}

/// `str::to_ascii_lowercase`.
pub open spec fn ascii_lowercase(s: Seq<char>) -> Seq<char> {
    s.map_values(|c: char| ascii_lower(c))
}

pub fn chars_to_ascii_lowercase(s: &[char]) -> (r: Vec<char>)
    ensures
        r@ == ascii_lowercase(s@),
{
    let mut out: Vec<char> = Vec::new();
    let mut i: usize = 0;
    while i < s.len()
        invariant
            i <= s@.len(),
            out@ == ascii_lowercase(s@.take(i as int)),
        decreases s.len() - i,
    {
        out.push(char_to_ascii_lowercase(s[i]));
        i += 1;
        assert(ascii_lowercase(s@.take(i as int)) =~= ascii_lowercase(s@.take((i - 1) as int)).push(ascii_lower(s@[i - 1])));
    }
    assert(s@.take(s@.len() as int) =~= s@);
    out
}

/// Whether `s` begins with `prefix`.
pub open spec fn starts_with(s: Seq<char>, prefix: Seq<char>) -> bool {
    prefix.len() <= s.len() && s.take(prefix.len() as int) == prefix
}

pub fn chars_start_with(s: &[char], prefix: &[char]) -> (r: bool)
    ensures
        r == starts_with(s@, prefix@),
{
    if prefix.len() > s.len() {
        return false;
    }
    let mut i: usize = 0;
    while i < prefix.len()
        invariant
            i <= prefix@.len() <= s@.len(),
            forall|k: int| 0 <= k < i ==> s@[k] == prefix@[k],
        decreases prefix.len() - i,
    {
        if s[i] != prefix[i] {
            assert(s@.take(prefix@.len() as int)[i as int] != prefix@[i as int]);
            return false;
        }
        i += 1;
    }
    assert(s@.take(prefix@.len() as int) =~= prefix@);
    true
}

/// Number of UTF-16 code units of one scalar (`char::len_utf16`).
pub open spec fn char_utf16_len(c: char) -> int {
    if (c as u32) < 0x10000 { 1 } else { 2 }
}

/// Number of UTF-8 bytes of one scalar (`char::len_utf8`).
pub open spec fn char_utf8_len(c: char) -> int {
    let v = c as u32;
    if v < 0x80 { 1 } else if v < 0x800 { 2 } else if v < 0x10000 { 3 } else { 4 }
}

/// Length of a text in UTF-16 code units.
pub open spec fn utf16_len(s: Seq<char>) -> int
    decreases s.len(),
{
    if s.len() == 0 { 0 } else { utf16_len(s.drop_last()) + char_utf16_len(s.last()) }
}

/// Length of a text in UTF-8 bytes (`str::len`).
pub open spec fn utf8_len(s: Seq<char>) -> int
    decreases s.len(),
{
    if s.len() == 0 { 0 } else { utf8_len(s.drop_last()) + char_utf8_len(s.last()) }
}

pub fn char_len_utf16(c: char) -> (r: u32)
    ensures
        r == char_utf16_len(c),
{
    if (c as u32) < 0x10000 { 1 } else { 2 }
}

pub fn char_len_utf8(c: char) -> (r: u32)
    ensures
        r == char_utf8_len(c),
{
    let v = c as u32;
    if v < 0x80 { 1 } else if v < 0x800 { 2 } else if v < 0x10000 { 3 } else { 4 }
}

/// UTF-16 length of the first `k` scalars, saturated at `u32::MAX`.
pub open spec fn utf16_prefix_sat(s: Seq<char>, k: int) -> int {
    let v = utf16_len(s.take(k));
    if v > u32::MAX { u32::MAX as int } else { v }
}

pub proof fn lemma_utf16_take_step(s: Seq<char>, k: int)
    requires
        0 <= k < s.len(),
    ensures
        utf16_len(s.take(k + 1)) == utf16_len(s.take(k)) + char_utf16_len(s[k]),
{
    assert(s.take(k + 1).drop_last() =~= s.take(k));
}

pub proof fn lemma_utf16_monotone(s: Seq<char>, a: int, b: int)
    requires
        0 <= a <= b <= s.len(),
    ensures
        utf16_len(s.take(a)) + (b - a) <= utf16_len(s.take(b)),
    decreases b - a,
{
    if a < b {
        lemma_utf16_monotone(s, a, b - 1);
        lemma_utf16_take_step(s, b - 1);
    }
}

pub proof fn lemma_utf16_nonneg(s: Seq<char>, k: int)
    requires
        0 <= k <= s.len(),
    ensures
        utf16_len(s.take(k)) >= 0,
{
    lemma_utf16_monotone(s, 0, k);
    assert(s.take(0) =~= Seq::<char>::empty());
}

/// The scalar offset of a UTF-16 boundary inside a text fragment.
pub fn scalar_offset_from_utf16(text: &str, offset: u32) -> (r: Result<usize, String>)
    ensures
        r is Ok <==> exists|k: int| 0 <= k <= text@.len() && #[trigger] utf16_prefix_sat(text@, k) == offset,
        r matches Ok(k) ==> k <= text@.len() && utf16_prefix_sat(text@, k as int) == offset
            && forall|j: int| 0 <= j < k ==> #[trigger] utf16_prefix_sat(text@, j) < offset,
        r matches Err(m) ==> m@ == (if (offset as int) < utf16_prefix_sat(text@, text@.len() as int) {
            "Граница Selection попала внутрь Unicode scalar"@
        } else {
            "Граница Selection выходит за пределы fragment"@
        }),
{
    let chars = chars_of(text);
    let n = chars.len();
    let mut utf16: u32 = 0;
    let mut i: usize = 0;
    proof {
        assert(chars@.take(0) =~= Seq::<char>::empty());
    }
    while i < n
        invariant
            i <= n == chars@.len(),
            chars@ == text@,
            utf16 as int == utf16_prefix_sat(text@, i as int),
            utf16 <= offset,
            forall|j: int| 0 <= j < i ==> #[trigger] utf16_prefix_sat(text@, j) < offset,
        decreases n - i,
    {
        if utf16 == offset {
            return Ok(i);
        }
        let step = char_len_utf16(chars[i]);
        proof {
            lemma_utf16_take_step(text@, i as int);
            lemma_utf16_nonneg(text@, i as int);
        }
        utf16 = utf16.saturating_add(step);
        if utf16 > offset {
            proof {
                assert forall|k: int| 0 <= k <= text@.len() implies #[trigger] utf16_prefix_sat(text@, k) != offset by {
                    if k > i {
                        lemma_utf16_monotone(text@, i + 1, k);
                    }
                }
                lemma_utf16_monotone(text@, i + 1, text@.len() as int);
            }
            return Err("Граница Selection попала внутрь Unicode scalar".to_string());
        }
        i += 1;
    }
    if utf16 == offset {
        Ok(n)
    } else {
        proof {
            assert forall|k: int| 0 <= k <= text@.len() implies #[trigger] utf16_prefix_sat(text@, k) != offset by {
                if k == text@.len() {
                } else {
                    assert(utf16_prefix_sat(text@, k) < offset);
                }
            }
        }
        Err("Граница Selection выходит за пределы fragment".to_string())
    }
}

} // verus!

verus! {

/// The views of a sequence of strings.
pub open spec fn strings_view(v: Seq<String>) -> Seq<Seq<char>> {
    v.map_values(|t: String| t@)
}

/// Unicode lower-casing as `str::to_lowercase` performs it.
pub uninterp spec fn unicode_lowercase(s: Seq<char>) -> Seq<char>;

/// Unicode upper-casing as `str::to_uppercase` performs it.
pub uninterp spec fn unicode_uppercase(s: Seq<char>) -> Seq<char>;

/// Whether `char::is_alphanumeric` holds of a scalar.
pub uninterp spec fn alphanumeric(c: char) -> bool;

pub open spec fn is_ascii_alphanumeric(c: char) -> bool {
    let v = c as u32;
    (0x30 <= v && v <= 0x39) || (0x41 <= v && v <= 0x5a) || (0x61 <= v && v <= 0x7a)
}

/// `str::to_lowercase`. The contract names the result; of ASCII text it states
/// that only `A`-`Z` change, as the standard library documents.
#[verifier::external_body]
pub(crate) fn str_to_lowercase(s: &str) -> (r: String)
    ensures
        r@ == unicode_lowercase(s@),
        (forall|i: int| 0 <= i < s@.len() ==> (#[trigger] s@[i] as u32) < 0x80) ==> r@ == ascii_lowercase(s@),
{
    s.to_lowercase()
}

/// `str::to_uppercase`. The contract names the result and states nothing more of it.
#[verifier::external_body]
pub(crate) fn str_to_uppercase(s: &str) -> (r: String)
    ensures
        r@ == unicode_uppercase(s@),
{
    s.to_uppercase()
}

/// `char::is_alphanumeric`. Of an ASCII scalar the contract states the result
/// (letters and digits); of others it names it.
#[verifier::external_body]
pub(crate) fn char_is_alphanumeric(c: char) -> (r: bool)
    ensures
        r == alphanumeric(c),
        (c as u32) < 0x80 ==> (r <==> is_ascii_alphanumeric(c)),
{
    c.is_alphanumeric()
}

} // verus!
