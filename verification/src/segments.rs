//! Splitting the visible text of a block into runs that share annotation marks and link.

use vstd::prelude::*;
use crate::annotation::{law_mark_classes_distinct, mark_class, spec_mark_class, MarkKind};
use crate::reader::{scalar_slice, spec_scalar_slice};
use crate::text::{chars_of, string_from_chars};

verus! {

/// Scalars `start..end` of a block's text.
#[derive(Clone, Copy, Debug, PartialEq, Eq, Structural)]
pub struct ScalarRange {
    pub start: usize,
    pub end: usize,
}

/// An annotation resolved into the block being drawn: where it lies and how it looks.
#[derive(Clone, Copy, Debug, PartialEq, Eq, Structural)]
pub struct Mark {
    pub range: ScalarRange,
    pub kind: MarkKind,
}

/// A run of visible text with one set of marks and one link.
#[derive(Clone, Debug)]
pub struct TextSegment {
    pub text: String,
    pub scalar_start: usize,
    pub class_name: String,
    pub link_index: Option<usize>,
}

/// The visible scalars of a block's text.
pub open spec fn visible_chars(text: Seq<char>, visible: ScalarRange) -> Seq<char> {
    spec_scalar_slice(text, visible.start as int, visible.end as int)
}

/// Whether a range covers the `i`-th visible scalar.
pub open spec fn covers(r: ScalarRange, visible: ScalarRange, i: int) -> bool {
    let s = visible.start + i;
    r.start <= s && s < r.end && s < visible.end
}

/// The kinds of the marks over the `i`-th visible scalar, each once, in the
/// order in which they first occur among the marks.
pub open spec fn kinds_at(marks: Seq<Mark>, visible: ScalarRange, i: int) -> Seq<MarkKind>
    decreases marks.len(),
{
    if marks.len() == 0 {
        Seq::empty()
    } else {
        let acc = kinds_at(marks.drop_last(), visible, i);
        let m = marks.last();
        if covers(m.range, visible, i) && !acc.contains(m.kind) {
            acc.push(m.kind)
        } else {
            acc
        }
    }
}

/// The index of the last link over the `i`-th visible scalar.
pub open spec fn link_at(links: Seq<ScalarRange>, visible: ScalarRange, i: int) -> Option<usize>
    decreases links.len(),
{
    if links.len() == 0 {
        None
    } else if covers(links.last(), visible, i) {
        Some((links.len() - 1) as usize)
    } else {
        link_at(links.drop_last(), visible, i)
    }
}

/// The class attribute of a run: the classes of its kinds, separated by single spaces.
pub open spec fn join_classes(kinds: Seq<MarkKind>) -> Seq<char>
    decreases kinds.len(),
{
    if kinds.len() == 0 {
        Seq::empty()
    } else if kinds.len() == 1 {
        spec_mark_class(kinds[0])
    } else {
        join_classes(kinds.drop_last()) + seq![' '] + spec_mark_class(kinds.last())
    }
}

/// Two visible scalars carry the same marks and the same link.
pub open spec fn same_key(marks: Seq<Mark>, links: Seq<ScalarRange>, visible: ScalarRange, i: int, j: int) -> bool {
    kinds_at(marks, visible, i) == kinds_at(marks, visible, j) && link_at(links, visible, i) == link_at(links, visible, j)
}

/// Offset of a segment inside the visible text.
pub open spec fn seg_offset(seg: TextSegment, visible: ScalarRange) -> int {
    seg.scalar_start - visible.start
}

/// The segments tile the visible text from its start, in order, without gaps.
pub open spec fn tiles(r: Seq<TextSegment>, c: Seq<char>, visible: ScalarRange) -> bool {
    &&& (r.len() == 0 <==> c.len() == 0)
    &&& r.len() > 0 ==> r[0].scalar_start == visible.start
    &&& forall|k: int| 0 <= k < r.len() ==> {
        &&& (#[trigger] r[k]).text@.len() > 0
        &&& 0 <= seg_offset(r[k], visible)
        &&& seg_offset(r[k], visible) + r[k].text@.len() <= c.len()
        &&& r[k].text@ == c.subrange(seg_offset(r[k], visible), seg_offset(r[k], visible) + r[k].text@.len())
    }
    &&& forall|k: int| 0 <= k < r.len() - 1 ==> (#[trigger] r[k + 1]).scalar_start == r[k].scalar_start + r[k].text@.len()
    &&& r.len() > 0 ==> seg_offset(r.last(), visible) + r.last().text@.len() == c.len()
}

/// Each segment is one maximal run of scalars that carry the same marks and link,
/// and it shows them.
pub open spec fn runs_of(r: Seq<TextSegment>, marks: Seq<Mark>, links: Seq<ScalarRange>, visible: ScalarRange) -> bool {
    &&& forall|k: int, j: int|
        0 <= k < r.len() && seg_offset(r[k], visible) <= j < seg_offset(r[k], visible) + r[k].text@.len()
            ==> #[trigger] same_key(marks, links, visible, j, seg_offset(#[trigger] r[k], visible))
    &&& forall|k: int| 0 <= k < r.len() ==> (#[trigger] r[k]).class_name@ == join_classes(kinds_at(marks, visible, seg_offset(r[k], visible)))
    &&& forall|k: int| 0 <= k < r.len() ==> (#[trigger] r[k]).link_index == link_at(links, visible, seg_offset(r[k], visible))
    &&& forall|k: int| 0 < k < r.len() ==> !same_key(marks, links, visible, seg_offset(#[trigger] r[k], visible), seg_offset(r[k], visible) - 1)
}

/// Text under one mark only is drawn with that mark's class, and with no
/// other kind's class: a run under a single blue highlight is blue.
pub proof fn law_lone_mark_class(m: Mark, visible: ScalarRange, i: int, other: MarkKind)
    requires
        covers(m.range, visible, i),
        other != m.kind,
    ensures
        join_classes(kinds_at(seq![m], visible, i)) == spec_mark_class(m.kind),
        join_classes(kinds_at(seq![m], visible, i)) != spec_mark_class(other),
{
    let ms = seq![m];
    assert(ms.drop_last() =~= Seq::<Mark>::empty());
    assert(kinds_at(ms.drop_last(), visible, i) == Seq::<MarkKind>::empty());
    assert(kinds_at(ms, visible, i) =~= seq![m.kind]);
    law_mark_classes_distinct(m.kind, other);
}

proof fn lemma_visible_len(text: Seq<char>, visible: ScalarRange)
    ensures
        visible_chars(text, visible).len() == 0 || visible.start + visible_chars(text, visible).len() <= visible.end,
{
}

fn covers_exec(r: ScalarRange, visible: ScalarRange, s: usize) -> (b: bool)
    ensures
        b == (r.start <= s && s < r.end && s < visible.end),
{
    r.start <= s && s < r.end && s < visible.end
}

fn contains_kind(kinds: &Vec<MarkKind>, kind: MarkKind) -> (b: bool)
    ensures
        b == kinds@.contains(kind),
{
    let mut i: usize = 0;
    while i < kinds.len()
        invariant
            i <= kinds@.len(),
            forall|j: int| 0 <= j < i ==> kinds@[j] != kind,
        decreases kinds.len() - i,
    {
        if kinds[i] == kind {
            return true;
        }
        i += 1;
    }
    false
}

fn kinds_for(marks: &Vec<Mark>, visible: ScalarRange, i: usize) -> (r: Vec<MarkKind>)
    requires
        visible.start + i <= usize::MAX,
    ensures
        r@ == kinds_at(marks@, visible, i as int),
{
    let s = visible.start + i;
    let mut acc: Vec<MarkKind> = Vec::new();
    let mut j: usize = 0;
    proof {
        assert(marks@.take(0) =~= Seq::<Mark>::empty());
    }
    while j < marks.len()
        invariant
            j <= marks@.len(),
            s == visible.start + i,
            acc@ == kinds_at(marks@.take(j as int), visible, i as int),
        decreases marks.len() - j,
    {
        let m = marks[j];
        proof {
            assert(marks@.take(j + 1).drop_last() =~= marks@.take(j as int));
        }
        if covers_exec(m.range, visible, s) && !contains_kind(&acc, m.kind) {
            acc.push(m.kind);
        }
        j += 1;
    }
    proof {
        assert(marks@.take(marks@.len() as int) =~= marks@);
    }
    acc
}

fn link_for(links: &Vec<ScalarRange>, visible: ScalarRange, i: usize) -> (r: Option<usize>)
    requires
        visible.start + i <= usize::MAX,
    ensures
        r == link_at(links@, visible, i as int),
{
    let s = visible.start + i;
    let mut found: Option<usize> = None;
    let mut j: usize = 0;
    proof {
        assert(links@.take(0) =~= Seq::<ScalarRange>::empty());
    }
    while j < links.len()
        invariant
            j <= links@.len(),
            s == visible.start + i,
            found == link_at(links@.take(j as int), visible, i as int),
        decreases links.len() - j,
    {
        proof {
            assert(links@.take(j + 1).drop_last() =~= links@.take(j as int));
        }
        if covers_exec(links[j], visible, s) {
            found = Some(j);
        }
        j += 1;
    }
    proof {
        assert(links@.take(links@.len() as int) =~= links@);
    }
    found
}

fn kinds_equal(a: &Vec<MarkKind>, b: &Vec<MarkKind>) -> (r: bool)
    ensures
        r == (a@ == b@),
{
    if a.len() != b.len() {
        return false;
    }
    let mut i: usize = 0;
    while i < a.len()
        invariant
            i <= a@.len() == b@.len(),
            forall|k: int| 0 <= k < i ==> a@[k] == b@[k],
        decreases a.len() - i,
    {
        if a[i] != b[i] {
            return false;
        }
        i += 1;
    }
    assert(a@ =~= b@);
    true
}

fn same_link(a: Option<usize>, b: Option<usize>) -> (r: bool)
    ensures
        r == (a == b),
{
    match (a, b) {
        (Some(x), Some(y)) => x == y,
        (None, None) => true,
        _ => false,
    }
}

fn class_name_of(kinds: &Vec<MarkKind>) -> (r: String)
    ensures
        r@ == join_classes(kinds@),
{
    let mut out: Vec<char> = Vec::new();
    let mut i: usize = 0;
    proof {
        assert(kinds@.take(0) =~= Seq::<MarkKind>::empty());
    }
    while i < kinds.len()
        invariant
            i <= kinds@.len(),
            out@ == join_classes(kinds@.take(i as int)),
        decreases kinds.len() - i,
    {
        if i > 0 {
            out.push(' ');
        }
        let class = chars_of(mark_class(kinds[i]));
        let mut j: usize = 0;
        let ghost before = out@;
        while j < class.len()
            invariant
                j <= class@.len(),
                out@ == before + class@.take(j as int),
            decreases class.len() - j,
        {
            out.push(class[j]);
            j += 1;
            proof {
                assert(class@.take(j as int) =~= class@.take(j - 1).push(class@[j - 1]));
            }
        }
        proof {
            assert(class@.take(class@.len() as int) =~= class@);
            let t = kinds@.take(i + 1);
            assert(t.drop_last() =~= kinds@.take(i as int));
            if i == 0 {
                assert(before =~= Seq::<char>::empty());
                assert(out@ =~= spec_mark_class(t[0]));
            } else {
                assert(out@ =~= join_classes(t.drop_last()) + seq![' '] + spec_mark_class(t.last()));
            }
        }
        i += 1;
    }
    proof {
        assert(kinds@.take(kinds@.len() as int) =~= kinds@);
    }
    string_from_chars(&out)
}

fn copy_range(chars: &Vec<char>, start: usize, end: usize) -> (r: Vec<char>)
    requires
        start <= end <= chars@.len(),
    ensures
        r@ == chars@.subrange(start as int, end as int),
{
    let mut out: Vec<char> = Vec::new();
    let mut i = start;
    while i < end
        invariant
            start <= i <= end <= chars@.len(),
            out@ == chars@.subrange(start as int, i as int),
        decreases end - i,
    {
        out.push(chars[i]);
        i += 1;
    }
    out
}

/// The segments in which a block's visible text is drawn. `marks` are the
/// annotations resolved into the block, in the annotations' order; `links` are
/// the text ranges of the block's links, in the block's order. Each segment is
/// a maximal run of scalars under the same marks and the same (last) link.
pub fn annotation_segments(
    text: &str,
    visible: ScalarRange,
    marks: &Vec<Mark>,
    links: &Vec<ScalarRange>,
) -> (r: Vec<TextSegment>)
    ensures
        tiles(r@, visible_chars(text@, visible), visible),
        runs_of(r@, marks@, links@, visible),
{
    let shown = scalar_slice(text, visible.start, visible.end);
    let chars = chars_of(shown.as_str());
    let n = chars.len();
    let ghost c = visible_chars(text@, visible);
    proof {
        lemma_visible_len(text@, visible);
    }
    let mut out: Vec<TextSegment> = Vec::new();
    if n == 0 {
        return out;
    }
    let mut keys: Vec<Vec<MarkKind>> = Vec::new();
    let mut link_keys: Vec<Option<usize>> = Vec::new();
    let mut i: usize = 0;
    while i < n
        invariant
            i <= n == chars@.len() == c.len(),
            visible.start + n <= visible.end,
            keys@.len() == i,
            link_keys@.len() == i,
            forall|k: int| 0 <= k < i ==> (#[trigger] keys@[k])@ == kinds_at(marks@, visible, k),
            forall|k: int| 0 <= k < i ==> #[trigger] link_keys@[k] == link_at(links@, visible, k),
        decreases n - i,
    {
        keys.push(kinds_for(marks, visible, i));
        link_keys.push(link_for(links, visible, i));
        i += 1;
    }
    let mut start: usize = 0;
    while start < n
        invariant
            start <= n == chars@.len() == c.len(),
            chars@ == c,
            visible.start + n <= visible.end,
            keys@.len() == n,
            link_keys@.len() == n,
            forall|k: int| 0 <= k < n ==> (#[trigger] keys@[k])@ == kinds_at(marks@, visible, k),
            forall|k: int| 0 <= k < n ==> #[trigger] link_keys@[k] == link_at(links@, visible, k),
            out@.len() == 0 <==> start == 0,
            out@.len() > 0 ==> out@[0].scalar_start == visible.start,
            out@.len() > 0 ==> seg_offset(out@.last(), visible) + out@.last().text@.len() == start,
            0 < start < n ==> !same_key(marks@, links@, visible, start as int, start - 1),
            forall|k: int| 0 <= k < out@.len() ==> {
                &&& (#[trigger] out@[k]).text@.len() > 0
                &&& 0 <= seg_offset(out@[k], visible)
                &&& seg_offset(out@[k], visible) + out@[k].text@.len() <= c.len()
                &&& out@[k].text@ == c.subrange(seg_offset(out@[k], visible), seg_offset(out@[k], visible) + out@[k].text@.len())
            },
            forall|k: int| 0 <= k < out@.len() - 1 ==> (#[trigger] out@[k + 1]).scalar_start == out@[k].scalar_start + out@[k].text@.len(),
            runs_of(out@, marks@, links@, visible),
        decreases n - start,
    {
        let mut end = start + 1;
        let mut extending = end < n && kinds_equal(&keys[end], &keys[start]) && same_link(link_keys[end], link_keys[start]);
        while extending
            invariant
                start < end <= n == chars@.len(),
                keys@.len() == n,
                link_keys@.len() == n,
                forall|j: int| start <= j < end ==> (#[trigger] keys@[j])@ == keys@[start as int]@ && link_keys@[j] == link_keys@[start as int],
                extending ==> end < n && keys@[end as int]@ == keys@[start as int]@ && link_keys@[end as int] == link_keys@[start as int],
                !extending ==> end == n || !(keys@[end as int]@ == keys@[start as int]@ && link_keys@[end as int] == link_keys@[start as int]),
            decreases n - end,
        {
            proof {
                assert(keys@[end as int]@ == keys@[start as int]@);
                assert(link_keys@[end as int] == link_keys@[start as int]);
            }
            let ghost prev_end = end;
            end += 1;
            proof {
                assert forall|j: int| start <= j < end implies (#[trigger] keys@[j])@ == keys@[start as int]@ && link_keys@[j] == link_keys@[start as int] by {
                    if j < prev_end {
                    } else {
                        assert(j == prev_end);
                    }
                }
            }
            extending = end < n && kinds_equal(&keys[end], &keys[start]) && same_link(link_keys[end], link_keys[start]);
        }
        let piece = copy_range(&chars, start, end);
        let seg = TextSegment {
            text: string_from_chars(&piece),
            scalar_start: visible.start + start,
            class_name: class_name_of(&keys[start]),
            link_index: link_keys[start],
        };
        let ghost old_out = out@;
        out.push(seg);
        proof {
            assert(seg_offset(seg, visible) == start);
            assert forall|j: int| start <= j < end implies #[trigger] same_key(marks@, links@, visible, j, start as int) by {
                assert(keys@[j]@ == keys@[start as int]@);
            }
            if end < n {
                assert(!same_key(marks@, links@, visible, end as int, end - 1)) by {
                    assert(keys@[end - 1]@ == keys@[start as int]@ && link_keys@[end - 1] == link_keys@[start as int]);
                    if keys@[end as int]@ == keys@[start as int]@ {
                        assert(link_keys@[end as int] != link_keys@[start as int]);
                    }
                }
            }
            assert forall|k: int, j: int|
                0 <= k < out@.len() && seg_offset(out@[k], visible) <= j < seg_offset(out@[k], visible) + out@[k].text@.len()
                implies #[trigger] same_key(marks@, links@, visible, j, seg_offset(#[trigger] out@[k], visible)) by {
                if k < old_out.len() {
                    assert(out@[k] == old_out[k]);
                }
            }
            assert forall|k: int| 0 < k < out@.len() implies !same_key(marks@, links@, visible, seg_offset(#[trigger] out@[k], visible), seg_offset(out@[k], visible) - 1) by {
                if k < old_out.len() {
                    assert(out@[k] == old_out[k]);
                } else {
                    assert(seg_offset(out@[k], visible) == start);
                }
            }
        }
        start = end;
    }
    out
}

} // verus!
