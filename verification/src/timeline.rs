//! Paged timelines (chat messages, discussion threads, activity events) merged
//! page by page and kept in `(created_at, id)` order.

use vstd::prelude::*;

verus! {

/// One entry of a timeline: its creation time, its identifier, and what it carries.
pub struct TimelineEntry<T> {
    pub created_at: i64,
    pub id: u128,
    pub item: T,
}

/// One page of a timeline and the cursor of the page after it.
pub struct TimelinePage<T> {
    pub entries: Vec<TimelineEntry<T>>,
    pub next_cursor: Option<String>,
}

/// `a` comes no later than `b` in `(created_at, id)` order.
pub open spec fn key_le<T>(a: TimelineEntry<T>, b: TimelineEntry<T>) -> bool {
    a.created_at < b.created_at || (a.created_at == b.created_at && a.id <= b.id)
}

/// The entries are in `(created_at, id)` order.
pub open spec fn is_sorted<T>(s: Seq<TimelineEntry<T>>) -> bool {
    forall|i: int, j: int| 0 <= i < j < s.len() ==> key_le(#[trigger] s[i], #[trigger] s[j])
}

/// Index of the first entry with the given id at or after `i`, or -1.
pub open spec fn find_id_from<T>(s: Seq<TimelineEntry<T>>, id: u128, i: int) -> int
    decreases s.len() - i,
{
    if i < 0 || i >= s.len() {
        -1
    } else if s[i].id == id {
        i
    } else {
        find_id_from(s, id, i + 1)
    }
}

/// Index of the first entry with the given id, or -1.
pub open spec fn find_id<T>(s: Seq<TimelineEntry<T>>, id: u128) -> int {
    find_id_from(s, id, 0)
}

/// Whether some entry has the id.
pub open spec fn has_id<T>(s: Seq<TimelineEntry<T>>, id: u128) -> bool {
    exists|i: int| 0 <= i < s.len() && (#[trigger] s[i]).id == id
}

/// No two entries share an id.
pub open spec fn unique_ids<T>(s: Seq<TimelineEntry<T>>) -> bool {
    forall|i: int, j: int| 0 <= i < j < s.len() ==> (#[trigger] s[i]).id != (#[trigger] s[j]).id
}

/// The first entry with the id of `x` is replaced by `x`; without one, `x` is appended.
pub open spec fn upsert<T>(s: Seq<TimelineEntry<T>>, x: TimelineEntry<T>) -> Seq<TimelineEntry<T>> {
    let p = find_id(s, x.id);
    if p >= 0 {
        s.update(p, x)
    } else {
        s.push(x)
    }
}

/// Every incoming entry upserted, in order.
pub open spec fn upsert_all<T>(s: Seq<TimelineEntry<T>>, xs: Seq<TimelineEntry<T>>) -> Seq<TimelineEntry<T>>
    decreases xs.len(),
{
    if xs.len() == 0 {
        s
    } else {
        upsert(upsert_all(s, xs.drop_last()), xs.last())
    }
}

/// `x` is appended unless an entry with its id is already there.
pub open spec fn insert_missing<T>(s: Seq<TimelineEntry<T>>, x: TimelineEntry<T>) -> Seq<TimelineEntry<T>> {
    if find_id(s, x.id) >= 0 {
        s
    } else {
        s.push(x)
    }
}

/// Every incoming entry inserted unless already there, in order.
pub open spec fn insert_missing_all<T>(s: Seq<TimelineEntry<T>>, xs: Seq<TimelineEntry<T>>) -> Seq<TimelineEntry<T>>
    decreases xs.len(),
{
    if xs.len() == 0 {
        s
    } else {
        insert_missing(insert_missing_all(s, xs.drop_last()), xs.last())
    }
}

/// `x` placed into a sorted sequence after every entry whose key is not greater.
pub open spec fn insert_sorted<T>(s: Seq<TimelineEntry<T>>, x: TimelineEntry<T>) -> Seq<TimelineEntry<T>>
    decreases s.len(),
{
    if s.len() == 0 {
        seq![x]
    } else if key_le(s.last(), x) {
        s.push(x)
    } else {
        insert_sorted(s.drop_last(), x).push(s.last())
    }
}

/// The stable sort by `(created_at, id)`: entries with equal keys keep their order.
pub open spec fn sort_by_key<T>(s: Seq<TimelineEntry<T>>) -> Seq<TimelineEntry<T>>
    decreases s.len(),
{
    if s.len() == 0 {
        s
    } else {
        insert_sorted(sort_by_key(s.drop_last()), s.last())
    }
}

/// The cursor a merged page keeps.
pub open spec fn merged_cursor(existing: Option<String>, incoming: Option<String>, preserve_existing_cursor: bool, merged_len: nat, incoming_len: nat) -> Option<String> {
    if !preserve_existing_cursor || merged_len <= incoming_len {
        incoming
    } else {
        existing
    }
}

// ---------------------------------------------------------------- lemmas

proof fn lemma_find_from_range<T>(s: Seq<TimelineEntry<T>>, id: u128, i: int)
    ensures
        find_id_from(s, id, i) == -1 || (i <= find_id_from(s, id, i) < s.len() && s[find_id_from(s, id, i)].id == id
            && forall|j: int| i <= j < find_id_from(s, id, i) ==> (#[trigger] s[j]).id != id),
        find_id_from(s, id, i) == -1 ==> forall|j: int| 0 <= i <= j < s.len() ==> (#[trigger] s[j]).id != id,
    decreases s.len() - i,
{
    if i >= 0 && i < s.len() && s[i].id != id {
        lemma_find_from_range(s, id, i + 1);
    }
}

pub proof fn lemma_find_id<T>(s: Seq<TimelineEntry<T>>, id: u128)
    ensures
        find_id(s, id) == -1 <==> !has_id(s, id),
        find_id(s, id) != -1 ==> 0 <= find_id(s, id) < s.len() && s[find_id(s, id)].id == id,
{
    lemma_find_from_range(s, id, 0);
    if find_id(s, id) == -1 {
        assert(!has_id(s, id));
    } else {
        assert(s[find_id(s, id)].id == id);
    }
}

proof fn lemma_insert_sorted_props<T>(s: Seq<TimelineEntry<T>>, x: TimelineEntry<T>)
    requires
        is_sorted(s),
    ensures
        is_sorted(insert_sorted(s, x)),
        insert_sorted(s, x).to_multiset() == s.to_multiset().insert(x),
        insert_sorted(s, x).len() == s.len() + 1,
    decreases s.len(),
{
    broadcast use vstd::seq_lib::group_to_multiset_ensures;
    if s.len() == 0 {
        assert(s =~= Seq::<TimelineEntry<T>>::empty());
        assert(seq![x] =~= s.push(x));
    } else if key_le(s.last(), x) {
        assert forall|i: int, j: int| 0 <= i < j < s.len() + 1 implies key_le(#[trigger] s.push(x)[i], #[trigger] s.push(x)[j]) by {
            if j == s.len() {
                assert(key_le(s[i], s.last()));
            }
        }
    } else {
        let t = s.drop_last();
        assert(is_sorted(t));
        lemma_insert_sorted_props(t, x);
        let u = insert_sorted(t, x);
        let last = s.last();
        assert forall|i: int, j: int| 0 <= i < j < u.len() + 1 implies key_le(#[trigger] u.push(last)[i], #[trigger] u.push(last)[j]) by {
            if j == u.len() {
                // every element of u is an element of t or x, all no greater than last
                assert(u.to_multiset().count(u[i]) > 0);
                assert(t.to_multiset().insert(x).count(u[i]) > 0);
                if u[i] == x {
                } else {
                    assert(t.to_multiset().count(u[i]) > 0);
                    assert(t.contains(u[i]));
                    let k = choose|k: int| 0 <= k < t.len() && t[k] == u[i];
                    assert(s[k] == t[k]);
                    assert(key_le(s[k], s[s.len() - 1]));
                }
            }
        }
        assert(s =~= t.push(last));
        assert(u.push(last).to_multiset() =~= s.to_multiset().insert(x));
    }
}

/// The stable sort gives a sorted permutation.
pub proof fn lemma_sort_by_key_props<T>(s: Seq<TimelineEntry<T>>)
    ensures
        is_sorted(sort_by_key(s)),
        sort_by_key(s).to_multiset() == s.to_multiset(),
        sort_by_key(s).len() == s.len(),
    decreases s.len(),
{
    broadcast use vstd::seq_lib::group_to_multiset_ensures;
    if s.len() > 0 {
        lemma_sort_by_key_props(s.drop_last());
        lemma_insert_sorted_props(sort_by_key(s.drop_last()), s.last());
        assert(s =~= s.drop_last().push(s.last()));
    }
}

/// Where `insert_sorted` puts `x`: after the last entry whose key is not greater.
proof fn lemma_insert_sorted_at<T>(s: Seq<TimelineEntry<T>>, x: TimelineEntry<T>, p: int)
    requires
        0 <= p <= s.len(),
        p == 0 || key_le(s[p - 1], x),
        forall|j: int| p <= j < s.len() ==> !key_le(#[trigger] s[j], x),
    ensures
        insert_sorted(s, x) == s.insert(p, x),
    decreases s.len(),
{
    if s.len() == 0 {
        assert(s.insert(p, x) =~= seq![x]);
    } else if key_le(s.last(), x) {
        assert(p == s.len());
        assert(s.insert(p, x) =~= s.push(x));
    } else {
        lemma_insert_sorted_at(s.drop_last(), x, p);
        assert(s.drop_last().insert(p, x).push(s.last()) =~= s.insert(p, x));
    }
}

// ---------------------------------------------------------------- laws

proof fn lemma_find_update<T>(s: Seq<TimelineEntry<T>>, p: int, x: TimelineEntry<T>, id: u128, i: int)
    requires
        0 <= p < s.len(),
        s[p].id == x.id,
        0 <= i,
    ensures
        find_id_from(s.update(p, x), id, i) == find_id_from(s, id, i),
    decreases s.len() - i,
{
    if i < s.len() && s[i].id != id {
        lemma_find_update(s, p, x, id, i + 1);
    }
}

proof fn lemma_find_push<T>(s: Seq<TimelineEntry<T>>, x: TimelineEntry<T>, id: u128, i: int)
    requires
        0 <= i,
        find_id_from(s, id, i) >= 0 || x.id != id,
    ensures
        find_id_from(s.push(x), id, i) == find_id_from(s, id, i),
    decreases s.len() - i,
{
    if i < s.len() {
        assert(s.push(x)[i] == s[i]);
        if s[i].id != id {
            lemma_find_push(s, x, id, i + 1);
        }
    } else {
        assert(find_id_from(s, id, i) == -1);
        if i == s.len() {
            assert(s.push(x)[i].id == x.id);
            assert(find_id_from(s.push(x), id, i + 1) == -1);
        }
    }
}

/// An id is present after upserting exactly when it was present before or arrives.
pub proof fn law_upsert_keeps_ids<T>(e: Seq<TimelineEntry<T>>, xs: Seq<TimelineEntry<T>>, id: u128)
    ensures
        has_id(upsert_all(e, xs), id) <==> (has_id(e, id) || has_id(xs, id)),
    decreases xs.len(),
{
    if xs.len() > 0 {
        let s = upsert_all(e, xs.drop_last());
        let x = xs.last();
        law_upsert_keeps_ids(e, xs.drop_last(), id);
        lemma_find_id(s, x.id);
        let p = find_id(s, x.id);
        if p >= 0 {
            let t = s.update(p, x);
            if has_id(s, id) {
                let i = choose|i: int| 0 <= i < s.len() && (#[trigger] s[i]).id == id;
                assert(t[i].id == id);
            }
            if has_id(t, id) {
                let i = choose|i: int| 0 <= i < t.len() && (#[trigger] t[i]).id == id;
                assert(s[i].id == id);
            }
        } else {
            let t = s.push(x);
            if has_id(s, id) {
                let i = choose|i: int| 0 <= i < s.len() && (#[trigger] s[i]).id == id;
                assert(t[i].id == id);
            }
            if has_id(t, id) {
                let i = choose|i: int| 0 <= i < t.len() && (#[trigger] t[i]).id == id;
                if i < s.len() {
                    assert(s[i].id == id);
                }
            }
            assert(t[s.len() as int].id == x.id);
        }
        if has_id(xs.drop_last(), id) {
            let i = choose|i: int| 0 <= i < xs.drop_last().len() && (#[trigger] xs.drop_last()[i]).id == id;
            assert(xs[i].id == id);
        }
        if has_id(xs, id) {
            let i = choose|i: int| 0 <= i < xs.len() && (#[trigger] xs[i]).id == id;
            if i < xs.len() - 1 {
                assert(xs.drop_last()[i].id == id);
            }
        }
        assert(xs[xs.len() - 1].id == x.id);
    }
}

/// Upserting never introduces a second entry with the same id.
pub proof fn law_upsert_keeps_ids_unique<T>(e: Seq<TimelineEntry<T>>, xs: Seq<TimelineEntry<T>>)
    requires
        unique_ids(e),
    ensures
        unique_ids(upsert_all(e, xs)),
    decreases xs.len(),
{
    if xs.len() > 0 {
        let s = upsert_all(e, xs.drop_last());
        let x = xs.last();
        law_upsert_keeps_ids_unique(e, xs.drop_last());
        lemma_find_id(s, x.id);
        let p = find_id(s, x.id);
        if p >= 0 {
            let t = s.update(p, x);
            assert forall|i: int, j: int| 0 <= i < j < t.len() implies (#[trigger] t[i]).id != (#[trigger] t[j]).id by {
                assert(s[i].id != s[j].id);
            }
        } else {
            let t = s.push(x);
            assert forall|i: int, j: int| 0 <= i < j < t.len() implies (#[trigger] t[i]).id != (#[trigger] t[j]).id by {
                if j == s.len() {
                    assert(t[i] == s[i]);
                } else {
                    assert(s[i].id != s[j].id);
                }
            }
        }
    }
}

/// Merging a reloaded page that overlaps what is shown lists every id once:
/// the merged entries hold exactly the ids of the shown and the incoming ones.
pub proof fn law_insert_missing_keeps_ids<T>(e: Seq<TimelineEntry<T>>, xs: Seq<TimelineEntry<T>>, id: u128)
    ensures
        has_id(insert_missing_all(e, xs), id) <==> (has_id(e, id) || has_id(xs, id)),
    decreases xs.len(),
{
    if xs.len() > 0 {
        let s = insert_missing_all(e, xs.drop_last());
        let x = xs.last();
        law_insert_missing_keeps_ids(e, xs.drop_last(), id);
        lemma_find_id(s, x.id);
        if find_id(s, x.id) < 0 {
            let t = s.push(x);
            if has_id(s, id) {
                let i = choose|i: int| 0 <= i < s.len() && (#[trigger] s[i]).id == id;
                assert(t[i].id == id);
            }
            if has_id(t, id) {
                let i = choose|i: int| 0 <= i < t.len() && (#[trigger] t[i]).id == id;
                if i < s.len() {
                    assert(s[i].id == id);
                }
            }
            assert(t[s.len() as int].id == x.id);
        } else {
            assert(s[find_id(s, x.id)].id == x.id);
        }
        if has_id(xs.drop_last(), id) {
            let i = choose|i: int| 0 <= i < xs.drop_last().len() && (#[trigger] xs.drop_last()[i]).id == id;
            assert(xs[i].id == id);
        }
        if has_id(xs, id) {
            let i = choose|i: int| 0 <= i < xs.len() && (#[trigger] xs[i]).id == id;
            if i < xs.len() - 1 {
                assert(xs.drop_last()[i].id == id);
            }
        }
        assert(xs[xs.len() - 1].id == x.id);
    }
}

/// Merging never lists an id twice: an incoming entry whose id is already
/// shown, anywhere, is skipped; the shown entries stay first, as they were.
pub proof fn law_insert_missing_keeps_ids_unique<T>(e: Seq<TimelineEntry<T>>, xs: Seq<TimelineEntry<T>>)
    requires
        unique_ids(e),
    ensures
        unique_ids(insert_missing_all(e, xs)),
        e.is_prefix_of(insert_missing_all(e, xs)),
    decreases xs.len(),
{
    if xs.len() == 0 {
        assert(e.subrange(0, e.len() as int) =~= e);
    } else {
        let s = insert_missing_all(e, xs.drop_last());
        let x = xs.last();
        law_insert_missing_keeps_ids_unique(e, xs.drop_last());
        lemma_find_id(s, x.id);
        if find_id(s, x.id) < 0 {
            let t = s.push(x);
            assert forall|i: int, j: int| 0 <= i < j < t.len() implies (#[trigger] t[i]).id != (#[trigger] t[j]).id by {
                if j == s.len() {
                    assert(t[i] == s[i]);
                    assert(!has_id(s, x.id));
                } else {
                    assert(s[i].id != s[j].id);
                }
            }
            assert(t.subrange(0, e.len() as int) =~= s.subrange(0, e.len() as int));
        }
    }
}

/// With distinct incoming ids, every incoming entry is the entry found under its id.
pub proof fn law_upsert_takes_incoming<T>(e: Seq<TimelineEntry<T>>, xs: Seq<TimelineEntry<T>>, k: int)
    requires
        unique_ids(xs),
        0 <= k < xs.len(),
    ensures
        0 <= find_id(upsert_all(e, xs), xs[k].id) < upsert_all(e, xs).len(),
        upsert_all(e, xs)[find_id(upsert_all(e, xs), xs[k].id)] == xs[k],
    decreases xs.len(),
{
    let s = upsert_all(e, xs.drop_last());
    let x = xs.last();
    lemma_find_id(s, x.id);
    let p = find_id(s, x.id);
    let t = upsert_all(e, xs);
    if k == xs.len() - 1 {
        if p >= 0 {
            lemma_find_id(t, x.id);
            lemma_find_update(s, p, x, x.id, 0);
        } else {
            assert(!has_id(s, x.id));
            lemma_find_from_range(s.push(x), x.id, 0);
            assert(s.push(x)[s.len() as int].id == x.id);
            assert(forall|j: int| 0 <= j < s.len() ==> (#[trigger] s.push(x)[j]).id != x.id);
            lemma_find_from_range(s.push(x), x.id, 0);
        }
    } else {
        let d = xs.drop_last();
        assert(unique_ids(d));
        assert(d[k] == xs[k]);
        law_upsert_takes_incoming(e, d, k);
        assert(xs[k].id != x.id);
        let q = find_id(s, xs[k].id);
        if p >= 0 {
            lemma_find_update(s, p, x, xs[k].id, 0);
        } else {
            lemma_find_push(s, x, xs[k].id, 0);
        }
    }
}

proof fn lemma_upsert_all_noop<T>(m: Seq<TimelineEntry<T>>, xs: Seq<TimelineEntry<T>>)
    requires
        forall|k: int| 0 <= k < xs.len() ==> 0 <= find_id(m, (#[trigger] xs[k]).id) < m.len() && m[find_id(m, xs[k].id)] == xs[k],
    ensures
        upsert_all(m, xs) == m,
    decreases xs.len(),
{
    if xs.len() > 0 {
        let d = xs.drop_last();
        assert forall|k: int| 0 <= k < d.len() implies 0 <= find_id(m, (#[trigger] d[k]).id) < m.len() && m[find_id(m, d[k].id)] == d[k] by {
            assert(d[k] == xs[k]);
        }
        lemma_upsert_all_noop(m, d);
        let x = xs.last();
        assert(xs[xs.len() - 1] == x);
        assert(m.update(find_id(m, x.id), x) =~= m);
    }
}

proof fn lemma_insert_sorted_ids<T>(s: Seq<TimelineEntry<T>>, x: TimelineEntry<T>, id: u128)
    ensures
        has_id(insert_sorted(s, x), id) <==> (has_id(s, id) || x.id == id),
        unique_ids(s) && !has_id(s, x.id) ==> unique_ids(insert_sorted(s, x)),
    decreases s.len(),
{
    if s.len() == 0 {
        assert(insert_sorted(s, x)[0].id == x.id);
    } else if key_le(s.last(), x) {
        let t = s.push(x);
        assert(t[s.len() as int].id == x.id);
        if has_id(s, id) {
            let i = choose|i: int| 0 <= i < s.len() && (#[trigger] s[i]).id == id;
            assert(t[i].id == id);
        }
        if has_id(t, id) {
            let i = choose|i: int| 0 <= i < t.len() && (#[trigger] t[i]).id == id;
            if i < s.len() {
                assert(s[i].id == id);
            }
        }
        if unique_ids(s) && !has_id(s, x.id) {
            assert forall|i: int, j: int| 0 <= i < j < t.len() implies (#[trigger] t[i]).id != (#[trigger] t[j]).id by {
                if j == s.len() {
                    assert(t[i] == s[i]);
                } else {
                    assert(s[i].id != s[j].id);
                }
            }
        }
    } else {
        let d = s.drop_last();
        let last = s.last();
        lemma_insert_sorted_ids(d, x, id);
        lemma_insert_sorted_ids(d, x, last.id);
        let u = insert_sorted(d, x);
        let t = u.push(last);
        assert(t[u.len() as int] == last);
        if has_id(d, id) {
            let i = choose|i: int| 0 <= i < d.len() && (#[trigger] d[i]).id == id;
            assert(s[i].id == id);
        }
        if has_id(s, id) {
            let i = choose|i: int| 0 <= i < s.len() && (#[trigger] s[i]).id == id;
            if i < d.len() {
                assert(d[i].id == id);
            }
        }
        if has_id(u, id) {
            let i = choose|i: int| 0 <= i < u.len() && (#[trigger] u[i]).id == id;
            assert(t[i].id == id);
        }
        if has_id(t, id) {
            let i = choose|i: int| 0 <= i < t.len() && (#[trigger] t[i]).id == id;
            if i < u.len() {
                assert(u[i].id == id);
            }
        }
        assert(s[s.len() - 1] == last);
        if unique_ids(s) && !has_id(s, x.id) {
            assert(unique_ids(d)) by {
                assert forall|i: int, j: int| 0 <= i < j < d.len() implies (#[trigger] d[i]).id != (#[trigger] d[j]).id by {
                    assert(s[i].id != s[j].id);
                }
            }
            assert(!has_id(d, x.id)) by {
                if has_id(d, x.id) {
                    let i = choose|i: int| 0 <= i < d.len() && (#[trigger] d[i]).id == x.id;
                    assert(s[i].id == x.id);
                }
            }
            assert(!has_id(d, last.id)) by {
                if has_id(d, last.id) {
                    let i = choose|i: int| 0 <= i < d.len() && (#[trigger] d[i]).id == last.id;
                    assert(s[i].id != s[s.len() - 1].id);
                }
            }
            assert(x.id != last.id) by {
                assert(s[s.len() - 1].id == last.id);
            }
            assert(!has_id(u, last.id));
            assert forall|i: int, j: int| 0 <= i < j < t.len() implies (#[trigger] t[i]).id != (#[trigger] t[j]).id by {
                if j == u.len() {
                    assert(t[i] == u[i]);
                    if u[i].id == last.id {
                        assert(has_id(u, last.id));
                    }
                } else {
                    assert(u[i].id != u[j].id);
                }
            }
        }
    }
}

/// Sorting keeps the ids and keeps them distinct.
pub proof fn law_sort_keeps_ids<T>(s: Seq<TimelineEntry<T>>, id: u128)
    ensures
        has_id(sort_by_key(s), id) <==> has_id(s, id),
        unique_ids(s) ==> unique_ids(sort_by_key(s)),
    decreases s.len(),
{
    if s.len() > 0 {
        let d = s.drop_last();
        let last = s.last();
        law_sort_keeps_ids(d, id);
        law_sort_keeps_ids(d, last.id);
        lemma_insert_sorted_ids(sort_by_key(d), last, id);
        assert(s[s.len() - 1] == last);
        if has_id(d, id) {
            let i = choose|i: int| 0 <= i < d.len() && (#[trigger] d[i]).id == id;
            assert(s[i].id == id);
        }
        if has_id(s, id) {
            let i = choose|i: int| 0 <= i < s.len() && (#[trigger] s[i]).id == id;
            if i < d.len() {
                assert(d[i].id == id);
            }
        }
        if unique_ids(s) {
            assert(unique_ids(d)) by {
                assert forall|i: int, j: int| 0 <= i < j < d.len() implies (#[trigger] d[i]).id != (#[trigger] d[j]).id by {
                    assert(s[i].id != s[j].id);
                }
            }
            assert(!has_id(d, last.id)) by {
                if has_id(d, last.id) {
                    let i = choose|i: int| 0 <= i < d.len() && (#[trigger] d[i]).id == last.id;
                    assert(s[i].id != s[s.len() - 1].id);
                }
            }
            lemma_insert_sorted_ids(sort_by_key(d), last, last.id);
        }
    }
}

/// Sorting what is already sorted changes nothing.
pub proof fn law_sort_sorted_is_identity<T>(s: Seq<TimelineEntry<T>>)
    requires
        is_sorted(s),
    ensures
        sort_by_key(s) == s,
    decreases s.len(),
{
    if s.len() > 0 {
        let d = s.drop_last();
        assert(is_sorted(d));
        law_sort_sorted_is_identity(d);
        if d.len() > 0 {
            assert(key_le(s[d.len() - 1], s[s.len() - 1]));
            assert(d.last() == s[d.len() - 1]);
        }
        assert(d.push(s.last()) =~= s);
    }
}

/// Loading the same page again (distinct ids on both sides) leaves the merged
/// timeline as it was.
pub proof fn law_merge_same_page_twice<T>(e: Seq<TimelineEntry<T>>, xs: Seq<TimelineEntry<T>>)
    requires
        unique_ids(e),
        unique_ids(xs),
    ensures
        sort_by_key(upsert_all(sort_by_key(upsert_all(e, xs)), xs)) == sort_by_key(upsert_all(e, xs)),
        upsert_all(sort_by_key(upsert_all(e, xs)), xs).len() == upsert_all(e, xs).len(),
{
    broadcast use vstd::seq_lib::group_to_multiset_ensures;
    let mm = upsert_all(e, xs);
    let m = sort_by_key(mm);
    law_upsert_keeps_ids_unique(e, xs);
    lemma_sort_by_key_props(mm);
    law_sort_keeps_ids(mm, 0);
    assert forall|k: int| 0 <= k < xs.len() implies 0 <= find_id(m, (#[trigger] xs[k]).id) < m.len() && m[find_id(m, xs[k].id)] == xs[k] by {
        law_upsert_takes_incoming(e, xs, k);
        let i = find_id(mm, xs[k].id);
        assert(mm.contains(xs[k]));
        assert(mm.to_multiset().count(xs[k]) > 0);
        assert(m.contains(xs[k]));
        let j = choose|j: int| 0 <= j < m.len() && m[j] == xs[k];
        lemma_find_id(m, xs[k].id);
        assert(has_id(m, xs[k].id)) by {
            assert(m[j].id == xs[k].id);
        }
        let f = find_id(m, xs[k].id);
        if f != j {
            if f < j {
                assert(m[f].id != m[j].id);
            } else {
                assert(m[j].id != m[f].id);
            }
        }
    }
    lemma_upsert_all_noop(m, xs);
    law_sort_sorted_is_identity(m);
}

// ---------------------------------------------------------------- exec

fn key_le_exec<T>(a: &TimelineEntry<T>, b: &TimelineEntry<T>) -> (r: bool)
    ensures
        r == key_le(*a, *b),
{
    a.created_at < b.created_at || (a.created_at == b.created_at && a.id <= b.id)
}

fn find_position<T>(s: &Vec<TimelineEntry<T>>, id: u128) -> (r: Option<usize>)
    ensures
        r is None ==> find_id(s@, id) == -1,
        r matches Some(p) ==> (p == find_id(s@, id) && p < s@.len()),
{
    let mut i: usize = 0;
    while i < s.len()
        invariant
            i <= s@.len(),
            find_id(s@, id) == find_id_from(s@, id, i as int),
        decreases s.len() - i,
    {
        if s[i].id == id {
            return Some(i);
        }
        i += 1;
    }
    None
}

fn sort_entries<T>(entries: Vec<TimelineEntry<T>>) -> (r: Vec<TimelineEntry<T>>)
    ensures
        r@ == sort_by_key(entries@),
{
    let ghost original = entries@;
    let mut rest = entries;
    let mut sorted: Vec<TimelineEntry<T>> = Vec::new();
    let ghost mut taken: int = 0;
    while rest.len() > 0
        invariant
            0 <= taken <= original.len(),
            rest@ == original.skip(taken),
            sorted@ == sort_by_key(original.take(taken)),
            is_sorted(sorted@),
        decreases rest.len(),
    {
        let x = rest.remove(0);
        let mut p = sorted.len();
        while p > 0 && !key_le_exec(&sorted[p - 1], &x)
            invariant
                p <= sorted@.len(),
                forall|j: int| p <= j < sorted@.len() ==> !key_le(#[trigger] sorted@[j], x),
            decreases p,
        {
            p -= 1;
        }
        proof {
            lemma_insert_sorted_at(sorted@, x, p as int);
            assert(original.take(taken + 1).drop_last() =~= original.take(taken));
            assert(original.take(taken + 1).last() == x);
            lemma_sort_by_key_props(original.take(taken + 1));
            taken = taken + 1;
            assert(rest@ =~= original.skip(taken));
        }
        sorted.insert(p, x);
    }
    proof {
        assert(original.take(taken) =~= original);
    }
    sorted
}

fn upsert_entries<T>(existing: Vec<TimelineEntry<T>>, incoming: Vec<TimelineEntry<T>>) -> (r: Vec<TimelineEntry<T>>)
    ensures
        r@ == upsert_all(existing@, incoming@),
{
    let ghost xs = incoming@;
    let mut merged = existing;
    let mut rest = incoming;
    let ghost mut taken: int = 0;
    proof {
        assert(xs.take(0) =~= Seq::<TimelineEntry<T>>::empty());
    }
    while rest.len() > 0
        invariant
            0 <= taken <= xs.len(),
            rest@ == xs.skip(taken),
            merged@ == upsert_all(existing@, xs.take(taken)),
        decreases rest.len(),
    {
        let x = rest.remove(0);
        proof {
            assert(xs.take(taken + 1).drop_last() =~= xs.take(taken));
            assert(xs.take(taken + 1).last() == x);
        }
        match find_position(&merged, x.id) {
            Some(p) => {
                merged.set(p, x);
            },
            None => {
                merged.push(x);
            },
        }
        proof {
            taken = taken + 1;
            assert(rest@ =~= xs.skip(taken));
        }
    }
    proof {
        assert(xs.take(taken) =~= xs);
    }
    merged
}

fn insert_missing_entries<T>(existing: Vec<TimelineEntry<T>>, incoming: Vec<TimelineEntry<T>>) -> (r: Vec<TimelineEntry<T>>)
    ensures
        r@ == insert_missing_all(existing@, incoming@),
{
    let ghost xs = incoming@;
    let mut merged = existing;
    let mut rest = incoming;
    let ghost mut taken: int = 0;
    proof {
        assert(xs.take(0) =~= Seq::<TimelineEntry<T>>::empty());
    }
    while rest.len() > 0
        invariant
            0 <= taken <= xs.len(),
            rest@ == xs.skip(taken),
            merged@ == insert_missing_all(existing@, xs.take(taken)),
        decreases rest.len(),
    {
        let x = rest.remove(0);
        proof {
            assert(xs.take(taken + 1).drop_last() =~= xs.take(taken));
            assert(xs.take(taken + 1).last() == x);
        }
        if find_position(&merged, x.id).is_none() {
            merged.push(x);
        }
        proof {
            taken = taken + 1;
            assert(rest@ =~= xs.skip(taken));
        }
    }
    proof {
        assert(xs.take(taken) =~= xs);
    }
    merged
}

/// The page after merging a freshly loaded page into what is shown: entries with
/// a known id are replaced, new ones are added, all are ordered by
/// `(created_at, id)`, and the cursor follows `merged_cursor`. Without anything
/// shown yet, the incoming page is taken as it is.
pub fn merge_upserted_pages<T>(
    existing: Option<TimelinePage<T>>,
    incoming: TimelinePage<T>,
    preserve_existing_cursor: bool,
) -> (r: TimelinePage<T>)
    ensures
        existing is None ==> r.entries@ == incoming.entries@ && r.next_cursor == incoming.next_cursor,
        existing matches Some(e) ==> {
            let merged = upsert_all(e.entries@, incoming.entries@);
            &&& r.entries@ == sort_by_key(merged)
            &&& r.next_cursor == merged_cursor(e.next_cursor, incoming.next_cursor, preserve_existing_cursor, merged.len(), incoming.entries@.len())
        },
{
    match existing {
        None => incoming,
        Some(current) => {
            let incoming_len = incoming.entries.len();
            let merged = upsert_entries(current.entries, incoming.entries);
            let merged_len = merged.len();
            let entries = sort_entries(merged);
            let next_cursor = if !preserve_existing_cursor || merged_len <= incoming_len {
                incoming.next_cursor
            } else {
                current.next_cursor
            };
            TimelinePage { entries, next_cursor }
        },
    }
}

/// Chat messages: a loaded page merged into the shown one.
pub fn merge_chat_pages<T>(
    existing: Option<TimelinePage<T>>,
    incoming: TimelinePage<T>,
    preserve_existing_cursor: bool,
) -> (r: TimelinePage<T>)
    ensures
        existing is None ==> r.entries@ == incoming.entries@ && r.next_cursor == incoming.next_cursor,
        existing matches Some(e) ==> {
            let merged = upsert_all(e.entries@, incoming.entries@);
            &&& r.entries@ == sort_by_key(merged)
            &&& r.next_cursor == merged_cursor(e.next_cursor, incoming.next_cursor, preserve_existing_cursor, merged.len(), incoming.entries@.len())
        },
{
    merge_upserted_pages(existing, incoming, preserve_existing_cursor)
}

/// Discussion threads: a loaded page merged into the shown one.
pub fn merge_discussion_pages<T>(
    existing: Option<TimelinePage<T>>,
    incoming: TimelinePage<T>,
    preserve_existing_cursor: bool,
) -> (r: TimelinePage<T>)
    ensures
        existing is None ==> r.entries@ == incoming.entries@ && r.next_cursor == incoming.next_cursor,
        existing matches Some(e) ==> {
            let merged = upsert_all(e.entries@, incoming.entries@);
            &&& r.entries@ == sort_by_key(merged)
            &&& r.next_cursor == merged_cursor(e.next_cursor, incoming.next_cursor, preserve_existing_cursor, merged.len(), incoming.entries@.len())
        },
{
    merge_upserted_pages(existing, incoming, preserve_existing_cursor)
}

/// Activity events: a loaded page merged into the shown one. Events already
/// shown are kept as they are; new ones are added; all are ordered by
/// `(created_at, id)`.
pub fn merge_activity_pages<T>(
    existing: Option<TimelinePage<T>>,
    incoming: TimelinePage<T>,
    preserve_existing_cursor: bool,
) -> (r: TimelinePage<T>)
    ensures
        existing is None ==> r.entries@ == incoming.entries@ && r.next_cursor == incoming.next_cursor,
        existing matches Some(e) ==> {
            let merged = insert_missing_all(e.entries@, incoming.entries@);
            &&& r.entries@ == sort_by_key(merged)
            &&& r.next_cursor == merged_cursor(e.next_cursor, incoming.next_cursor, preserve_existing_cursor, merged.len(), incoming.entries@.len())
        },
{
    match existing {
        None => incoming,
        Some(current) => {
            let incoming_len = incoming.entries.len();
            let merged = insert_missing_entries(current.entries, incoming.entries);
            let merged_len = merged.len();
            let entries = sort_entries(merged);
            let next_cursor = if !preserve_existing_cursor || merged_len <= incoming_len {
                incoming.next_cursor
            } else {
                current.next_cursor
            };
            TimelinePage { entries, next_cursor }
        },
    }
}

} // verus!
