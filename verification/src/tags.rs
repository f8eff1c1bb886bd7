//! Comma-separated tag fields.

use vstd::prelude::*;
use crate::text::{
    chars_eq_ignore_ascii_case, chars_of, eq_ignore_ascii_case, split, split_chars,
    str_to_lowercase, string_from_chars, strings_view, trim, trim_chars, unicode_lowercase,
    lemma_split_concat, lemma_split_without_sep, lemma_trim_after_space, lemma_trim_bounds,
};
use crate::reader_view::join_with;

verus! {

/// How two tags are compared for duplicates.
#[derive(Clone, Copy, PartialEq, Eq, Structural)]
pub enum TagCase {
    /// `str::eq_ignore_ascii_case`.
    Ascii,
    /// Equal after `str::to_lowercase`.
    Unicode,
}

pub open spec fn same_tag(case: TagCase) -> spec_fn(Seq<char>, Seq<char>) -> bool {
    match case {
        TagCase::Ascii => |a: Seq<char>, b: Seq<char>| eq_ignore_ascii_case(a, b),
        TagCase::Unicode => |a: Seq<char>, b: Seq<char>| unicode_lowercase(a) == unicode_lowercase(b),
    }
}


/// One step of tag collection: a trimmed piece joins the tags unless it is empty,
/// the tags are already full, or `same` finds it among them.
pub open spec fn keep_tag(
    acc: Seq<Seq<char>>,
    piece: Seq<char>,
    max_tags: nat,
    same: spec_fn(Seq<char>, Seq<char>) -> bool,
) -> Seq<Seq<char>> {
    let t = trim(piece);
    if t.len() == 0 {
        acc
    } else if acc.len() == max_tags && max_tags > 0 {
        acc
    } else if exists|i: int| 0 <= i < acc.len() && same(#[trigger] acc[i], t) {
        acc
    } else {
        acc.push(t)
    }
}

/// The tags kept from comma-separated pieces, in order.
pub open spec fn collect_tags(
    pieces: Seq<Seq<char>>,
    max_tags: nat,
    same: spec_fn(Seq<char>, Seq<char>) -> bool,
) -> Seq<Seq<char>>
    decreases pieces.len(),
{
    if pieces.len() == 0 {
        Seq::empty()
    } else {
        keep_tag(collect_tags(pieces.drop_last(), max_tags, same), pieces.last(), max_tags, same)
    }
}

/// Tags of a comma-separated field: trimmed, non-empty, without duplicates
/// under `case`, at most `max_tags` of them.
pub open spec fn spec_comma_tags(value: Seq<char>, max_tags: nat, case: TagCase) -> Seq<Seq<char>> {
    collect_tags(split(value, ','), max_tags, same_tag(case))
}

pub proof fn lemma_collect_tags_full_stays(
    pieces: Seq<Seq<char>>,
    k: int,
    max_tags: nat,
    same: spec_fn(Seq<char>, Seq<char>) -> bool,
)
    requires
        0 <= k <= pieces.len(),
        max_tags > 0,
        collect_tags(pieces.take(k), max_tags, same).len() == max_tags,
    ensures
        collect_tags(pieces, max_tags, same) == collect_tags(pieces.take(k), max_tags, same),
    decreases pieces.len() - k,
{
    if k < pieces.len() {
        assert(pieces.take(k + 1).drop_last() =~= pieces.take(k));
        lemma_collect_tags_full_stays(pieces, k + 1, max_tags, same);
    } else {
        assert(pieces.take(k) =~= pieces);
    }
}

pub fn chars_equal(a: &[char], b: &[char]) -> (r: bool)
    ensures
        r == (a@ == b@),
{
    if a.len() != b.len() {
        return false;
    }
    let mut i: usize = 0;
    while i < a.len()
        invariant
            i <= a@.len() == b@.len(),
            forall|k: int| 0 <= k < i ==> a@[k] == b@[k],
        decreases a.len() - i,
    {
        if a[i] != b[i] {
            return false;
        }
        i += 1;
    }
    assert(a@ =~= b@);
    true
}

fn lowercase_chars(t: &[char]) -> (r: Vec<char>)
    ensures
        r@ == unicode_lowercase(t@),
{
    let s = string_from_chars(t);
    let lower = str_to_lowercase(s.as_str());
    chars_of(lower.as_str())
}

fn same_tag_exec(kept: &[char], candidate: &[char], case: TagCase) -> (r: bool)
    ensures
        r == (same_tag(case))(kept@, candidate@),
{
    match case {
        TagCase::Ascii => chars_eq_ignore_ascii_case(kept, candidate),
        TagCase::Unicode => {
            let a = lowercase_chars(kept);
            let b = lowercase_chars(candidate);
            chars_equal(&a, &b)
        },
    }
}

/// The tags of a comma-separated field, compared for duplicates as `case` says.
pub fn comma_tags(value: &str, max_tags: usize, case: TagCase) -> (r: Vec<String>)
    ensures
        strings_view(r@) == spec_comma_tags(value@, max_tags as nat, case),
{
    let chars = chars_of(value);
    let pieces = split_chars(&chars, ',');
    let ghost ps: Seq<Seq<char>> = split(value@, ',');
    let mut tags: Vec<String> = Vec::new();
    let mut kept: Vec<Vec<char>> = Vec::new();
    let mut i: usize = 0;
    while i < pieces.len()
        invariant
            i <= pieces@.len() == ps.len(),
            ps == split(value@, ','),
            forall|k: int| 0 <= k < pieces@.len() ==> (#[trigger] pieces@[k])@ == ps[k],
            kept@.len() == tags@.len(),
            forall|k: int| 0 <= k < kept@.len() ==> (#[trigger] kept@[k])@ == tags@[k]@,
            strings_view(tags@) == collect_tags(ps.take(i as int), max_tags as nat, same_tag(case)),
            !(tags@.len() == max_tags && max_tags > 0),
        decreases pieces.len() - i,
    {
        let t = trim_chars(&pieces[i]);
        proof {
            assert(ps.take(i + 1).drop_last() =~= ps.take(i as int));
            assert(ps.take(i + 1).last() == ps[i as int]);
        }
        if t.len() > 0 {
            let mut found = false;
            let mut j: usize = 0;
            while j < kept.len()
                invariant
                    j <= kept@.len() == tags@.len(),
                    forall|k: int| 0 <= k < kept@.len() ==> (#[trigger] kept@[k])@ == tags@[k]@,
                    found <==> exists|k: int| 0 <= k < j && (same_tag(case))(#[trigger] tags@[k]@, t@),
                decreases kept.len() - j,
            {
                if same_tag_exec(&kept[j], &t, case) {
                    found = true;
                }
                j += 1;
            }
            proof {
                let acc = strings_view(tags@);
                assert forall|k: int| 0 <= k < acc.len() implies acc[k] == tags@[k]@ by {}
                if found {
                    let k = choose|k: int| 0 <= k < j && (same_tag(case))(#[trigger] tags@[k]@, t@);
                    assert((same_tag(case))(acc[k], t@));
                } else {
                    assert forall|k: int| 0 <= k < acc.len() implies !(same_tag(case))(#[trigger] acc[k], t@) by {
                        assert(acc[k] == tags@[k]@);
                    }
                }
            }
            if !found {
                let ghost before = tags@;
                let s = string_from_chars(&t);
                tags.push(s);
                kept.push(t);
                proof {
                    assert(strings_view(tags@) =~= strings_view(before).push(tags@.last()@));
                }
            }
        }
        i += 1;
        assert(strings_view(tags@) == collect_tags(ps.take(i as int), max_tags as nat, same_tag(case)));
        if tags.len() == max_tags && max_tags > 0 {
            proof {
                lemma_collect_tags_full_stays(ps, i as int, max_tags as nat, same_tag(case));
            }
            return tags;
        }
    }
    proof {
        assert(ps.take(ps.len() as int) =~= ps);
    }
    tags
}

/// The tags of a field are non-empty, no two are the same tag, and there are
/// no more of them than allowed.
pub proof fn law_tags_distinct_and_bounded(pieces: Seq<Seq<char>>, max_tags: nat, same: spec_fn(Seq<char>, Seq<char>) -> bool)
    ensures
        forall|i: int| 0 <= i < collect_tags(pieces, max_tags, same).len() ==> (#[trigger] collect_tags(pieces, max_tags, same)[i]).len() > 0,
        forall|i: int, j: int| 0 <= i < j < collect_tags(pieces, max_tags, same).len()
            ==> !same(#[trigger] collect_tags(pieces, max_tags, same)[i], #[trigger] collect_tags(pieces, max_tags, same)[j]),
        max_tags > 0 ==> collect_tags(pieces, max_tags, same).len() <= max_tags,
    decreases pieces.len(),
{
    if pieces.len() > 0 {
        let acc = collect_tags(pieces.drop_last(), max_tags, same);
        law_tags_distinct_and_bounded(pieces.drop_last(), max_tags, same);
        let r = collect_tags(pieces, max_tags, same);
        let t = trim(pieces.last());
        if r != acc {
            assert(r == acc.push(t));
            assert forall|i: int, j: int| 0 <= i < j < r.len() implies !same(#[trigger] r[i], #[trigger] r[j]) by {
                if j == acc.len() {
                    assert(r[i] == acc[i]);
                } else {
                    assert(r[i] == acc[i] && r[j] == acc[j]);
                }
            }
            assert forall|i: int| 0 <= i < r.len() implies (#[trigger] r[i]).len() > 0 by {
                if i < acc.len() {
                    assert(r[i] == acc[i]);
                }
            }
        }
    }
}

/// Tags that can stand in a tag field: each non-empty, without a comma and
/// without surrounding whitespace.
pub open spec fn editable_tags(tags: Seq<Seq<char>>) -> bool {
    forall|i: int| 0 <= i < tags.len() ==> {
        &&& (#[trigger] tags[i]).len() > 0
        &&& trim(tags[i]) == tags[i]
        &&& !tags[i].contains(',')
    }
}

/// Tags joined by ", " split back at the commas: the first tag, then each
/// following tag after its space.
pub proof fn lemma_joined_tags_pieces(tags: Seq<Seq<char>>)
    requires
        tags.len() >= 2,
        editable_tags(tags),
    ensures
        split(join_with(tags, ", "@), ',') == split(join_with(tags.drop_last(), ", "@), ',').push(seq![' '] + tags.last()),
{
    reveal_strlit(", ");
    let front = join_with(tags.drop_last(), ", "@);
    let last = tags.last();
    assert(last == tags[tags.len() - 1]);
    assert(join_with(tags, ", "@) =~= front + seq![','] + (seq![' '] + last));
    lemma_split_concat(front, seq![' '] + last, ',');
    assert(!(seq![' '] + last).contains(',')) by {
        if (seq![' '] + last).contains(',') {
            let k = choose|k: int| 0 <= k < (seq![' '] + last).len() && (seq![' '] + last)[k] == ',';
            assert(k > 0);
            assert(last[k - 1] == ',');
        }
    }
    lemma_split_without_sep(seq![' '] + last, ',');
}

/// Tags shown in an edit field joined by ", " read back unchanged, in order,
/// when each can stand in a tag field, no two are the same tag, and there are
/// no more of them than allowed (`max_tags` 0 allows any number).
pub proof fn law_joined_tags_read_back(tags: Seq<Seq<char>>, max_tags: nat, case: TagCase)
    requires
        editable_tags(tags),
        forall|i: int, j: int| 0 <= i < j < tags.len() ==> !(same_tag(case))(#[trigger] tags[i], #[trigger] tags[j]),
        max_tags == 0 || tags.len() <= max_tags,
    ensures
        spec_comma_tags(join_with(tags, ", "@), max_tags, case) == tags,
    decreases tags.len(),
{
    let same = same_tag(case);
    if tags.len() == 0 {
        let e = Seq::<char>::empty();
        lemma_trim_bounds(e);
        assert(trim(e).len() == 0);
        assert(split(join_with(tags, ", "@), ',') == seq![e]);
        assert(seq![e].drop_last() =~= Seq::<Seq<char>>::empty());
        assert(collect_tags(Seq::<Seq<char>>::empty(), max_tags, same) == Seq::<Seq<char>>::empty());
        assert(collect_tags(seq![e], max_tags, same) =~= tags);
        assert(spec_comma_tags(join_with(tags, ", "@), max_tags, case) == tags);
    } else if tags.len() == 1 {
        let t = tags[0];
        assert(t.len() > 0 && trim(t) == t && !t.contains(','));
        assert(join_with(tags, ", "@) == t);
        lemma_split_without_sep(t, ',');
        assert(seq![t].drop_last() =~= Seq::<Seq<char>>::empty());
        assert(seq![t].last() == t);
        assert(keep_tag(Seq::<Seq<char>>::empty(), t, max_tags, same) =~= seq![t]);
        assert(collect_tags(Seq::<Seq<char>>::empty(), max_tags, same) == Seq::<Seq<char>>::empty());
        assert(collect_tags(seq![t], max_tags, same) == seq![t]);
        assert(split(join_with(tags, ", "@), ',') == seq![t]);
        assert(Seq::<Seq<char>>::empty().push(t) =~= tags);
        assert(spec_comma_tags(join_with(tags, ", "@), max_tags, case) == tags);
    } else {
        let front = tags.drop_last();
        let last = tags.last();
        assert(last == tags[tags.len() - 1]);
        assert(editable_tags(front)) by {
            assert forall|i: int| 0 <= i < front.len() implies (#[trigger] front[i]).len() > 0 && trim(front[i]) == front[i]
                && !front[i].contains(',') by {
                assert(front[i] == tags[i]);
            }
        }
        assert forall|i: int, j: int| 0 <= i < j < front.len() implies !(same_tag(case))(#[trigger] front[i], #[trigger] front[j]) by {
            assert(front[i] == tags[i] && front[j] == tags[j]);
        }
        law_joined_tags_read_back(front, max_tags, case);
        lemma_joined_tags_pieces(tags);
        lemma_trim_after_space(last);
        let pieces = split(join_with(tags, ", "@), ',');
        assert(pieces.drop_last() =~= split(join_with(front, ", "@), ','));
        assert(pieces.last() == seq![' '] + last);
        assert(!(exists|i: int| 0 <= i < front.len() && same(#[trigger] front[i], last))) by {
            if exists|i: int| 0 <= i < front.len() && same(#[trigger] front[i], last) {
                let i = choose|i: int| 0 <= i < front.len() && same(#[trigger] front[i], last);
                assert(front[i] == tags[i]);
                assert(!(same_tag(case))(tags[i], tags[tags.len() - 1]));
            }
        }
        assert(front.push(last) =~= tags);
        assert(keep_tag(front, pieces.last(), max_tags, same) == tags);
        assert(collect_tags(pieces, max_tags, same) == tags);
    }
}

} // verus!
