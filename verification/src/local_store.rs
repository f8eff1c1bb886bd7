//! The reader's local list of annotations while their saves travel to the
//! server: each item carries its sync state and the request that is pending.
//! Operations address the first item with an id, as the reader finds it.

use vstd::prelude::*;
use crate::annotation::AnnotationStatus;
use crate::save_state::SaveSubject;
use crate::http::ApiMutationError;

verus! {

/// Where an annotation stands with the server.
#[derive(Clone, Copy, Debug, PartialEq, Eq, Structural)]
pub enum SyncState {
    Synced,
    Saving,
    Failed,
    Conflicted,
}

/// What a pending request does.
#[derive(Clone, Copy, Debug, PartialEq, Eq, Structural)]
pub enum MutationKind {
    Create,
    Update,
    Delete,
}

/// The subject the save indicator names for a request.
pub fn pending_subject(kind: MutationKind) -> (r: SaveSubject)
    ensures
        r == match kind {
            MutationKind::Create => SaveSubject::Annotation,
            MutationKind::Update => SaveSubject::Note,
            MutationKind::Delete => SaveSubject::Deletion,
        },
{
    match kind {
        MutationKind::Create => SaveSubject::Annotation,
        MutationKind::Update => SaveSubject::Note,
        MutationKind::Delete => SaveSubject::Deletion,
    }
}

/// One annotation in the list: its id, the annotation, its sync state and the
/// request still to be confirmed.
pub struct LocalItem<A, P> {
    pub id: u128,
    pub annotation: A,
    pub sync: SyncState,
    pub pending: Option<P>,
}

/// Index of the first item with the id at or after `i`, or -1.
pub open spec fn first_from<A, P>(s: Seq<LocalItem<A, P>>, id: u128, i: int) -> int
    decreases s.len() - i,
{
    if i < 0 || i >= s.len() {
        -1
    } else if s[i].id == id {
        i
    } else {
        first_from(s, id, i + 1)
    }
}

/// Index of the first item with the id, or -1.
pub open spec fn first_index<A, P>(s: Seq<LocalItem<A, P>>, id: u128) -> int {
    first_from(s, id, 0)
}

pub open spec fn has_item<A, P>(s: Seq<LocalItem<A, P>>, id: u128) -> bool {
    exists|i: int| 0 <= i < s.len() && (#[trigger] s[i]).id == id
}

/// The items after the first one with the id is replaced by `f` of it.
pub open spec fn update_first<A, P>(s: Seq<LocalItem<A, P>>, id: u128, item: LocalItem<A, P>) -> Seq<LocalItem<A, P>> {
    let p = first_index(s, id);
    if p >= 0 { s.update(p, item) } else { s }
}

/// The items without any that has the id.
pub open spec fn without_id<A, P>(s: Seq<LocalItem<A, P>>, id: u128) -> Seq<LocalItem<A, P>>
    decreases s.len(),
{
    if s.len() == 0 {
        s
    } else {
        let rest = without_id(s.drop_last(), id);
        if s.last().id == id { rest } else { rest.push(s.last()) }
    }
}

proof fn lemma_first_from<A, P>(s: Seq<LocalItem<A, P>>, id: u128, i: int)
    ensures
        first_from(s, id, i) == -1 || (i <= first_from(s, id, i) < s.len() && s[first_from(s, id, i)].id == id),
        first_from(s, id, i) == -1 ==> forall|j: int| 0 <= i <= j < s.len() ==> (#[trigger] s[j]).id != id,
    decreases s.len() - i,
{
    if 0 <= i < s.len() && s[i].id != id {
        lemma_first_from(s, id, i + 1);
    }
}

/// Where the first item with an id is, if there is one.
pub proof fn lemma_first_index<A, P>(s: Seq<LocalItem<A, P>>, id: u128)
    ensures
        first_index(s, id) == -1 <==> !has_item(s, id),
        first_index(s, id) != -1 ==> 0 <= first_index(s, id) < s.len() && s[first_index(s, id)].id == id,
{
    lemma_first_from(s, id, 0);
    if first_index(s, id) != -1 {
        assert(s[first_index(s, id)].id == id);
    }
}

proof fn lemma_without_id<A, P>(s: Seq<LocalItem<A, P>>, id: u128)
    ensures
        !has_item(without_id(s, id), id),
        forall|k: u128| k != id ==> (has_item(without_id(s, id), k) <==> #[trigger] has_item(s, k)),
        without_id(s, id).len() <= s.len(),
    decreases s.len(),
{
    if s.len() > 0 {
        let d = s.drop_last();
        lemma_without_id(d, id);
        let rest = without_id(d, id);
        let w = without_id(s, id);
        assert forall|k: u128| k != id implies (has_item(w, k) <==> #[trigger] has_item(s, k)) by {
            if has_item(s, k) {
                let i = choose|i: int| 0 <= i < s.len() && (#[trigger] s[i]).id == k;
                if i < d.len() {
                    assert(d[i].id == k);
                    assert(has_item(d, k));
                    assert(has_item(rest, k));
                    let j = choose|j: int| 0 <= j < rest.len() && (#[trigger] rest[j]).id == k;
                    assert(w[j].id == k);
                } else {
                    assert(w[w.len() - 1].id == k);
                }
            }
            if has_item(w, k) {
                let j = choose|j: int| 0 <= j < w.len() && (#[trigger] w[j]).id == k;
                if j < rest.len() {
                    assert(rest[j].id == k);
                    assert(has_item(rest, k));
                    assert(has_item(d, k));
                    let i = choose|i: int| 0 <= i < d.len() && (#[trigger] d[i]).id == k;
                    assert(s[i].id == k);
                } else {
                    assert(s[s.len() - 1].id == k);
                }
            }
        }
        if has_item(w, id) {
            let j = choose|j: int| 0 <= j < w.len() && (#[trigger] w[j]).id == id;
            if j < rest.len() {
                assert(rest[j].id == id);
            }
        }
    }
}

/// The local list of annotations.
pub struct LocalAnnotations<A, P> {
    items: Vec<LocalItem<A, P>>,
}

impl<A, P> View for LocalAnnotations<A, P> {
    type V = Seq<LocalItem<A, P>>;

    closed spec fn view(&self) -> Seq<LocalItem<A, P>> {
        self.items@
    }
}

impl<A, P> LocalAnnotations<A, P> {
    /// The annotations as loaded from the server: synced, nothing pending.
    pub fn from_loaded(loaded: Vec<(u128, A)>) -> (r: Self)
        ensures
            r@.len() == loaded@.len(),
            forall|i: int| 0 <= i < loaded@.len() ==> (#[trigger] r@[i]).id == loaded@[i].0 && r@[i].annotation == loaded@[i].1
                && r@[i].sync == SyncState::Synced && r@[i].pending is None,
    {
        let ghost src = loaded@;
        let mut rest = loaded;
        let mut items: Vec<LocalItem<A, P>> = Vec::new();
        let ghost mut k: int = 0;
        while rest.len() > 0
            invariant
                0 <= k <= src.len(),
                rest@ == src.skip(k),
                items@.len() == k,
                forall|i: int| 0 <= i < k ==> (#[trigger] items@[i]).id == src[i].0 && items@[i].annotation == src[i].1
                    && items@[i].sync == SyncState::Synced && items@[i].pending is None,
            decreases rest.len(),
        {
            let (id, annotation) = rest.remove(0);
            items.push(LocalItem { id, annotation, sync: SyncState::Synced, pending: None });
            proof {
                k = k + 1;
                assert(rest@ =~= src.skip(k));
            }
        }
        LocalAnnotations { items }
    }

    /// The items, in order.
    pub fn items(&self) -> (r: &Vec<LocalItem<A, P>>)
        ensures
            r@ == self@,
    {
        &self.items
    }

    /// Where the first item with the id is.
    pub fn position(&self, id: u128) -> (r: Option<usize>)
        ensures
            r is None ==> first_index(self@, id) == -1,
            r matches Some(p) ==> (p == first_index(self@, id) && p < self@.len()),
    {
        let mut i: usize = 0;
        while i < self.items.len()
            invariant
                i <= self.items@.len(),
                first_index(self.items@, id) == first_from(self.items@, id, i as int),
            decreases self.items.len() - i,
        {
            if self.items[i].id == id {
                return Some(i);
            }
            i += 1;
        }
        None
    }

    /// Whether an item has the id.
    pub fn contains(&self, id: u128) -> (r: bool)
        ensures
            r == has_item(self@, id),
    {
        proof {
            lemma_first_index(self@, id);
        }
        self.position(id).is_some()
    }

    /// An annotation created here: it is shown at once, saving.
    pub fn push_saving(&mut self, id: u128, annotation: A, pending: P)
        ensures
            final(self)@ == old(self)@.push(LocalItem { id, annotation, sync: SyncState::Saving, pending: Some(pending) }),
    {
        self.items.push(LocalItem { id, annotation, sync: SyncState::Saving, pending: Some(pending) });
    }

    fn replace_at(&mut self, p: usize, item: LocalItem<A, P>)
        requires
            p < old(self)@.len(),
        ensures
            final(self)@ == old(self)@.update(p as int, item),
    {
        let _old = self.items.remove(p);
        self.items.insert(p, item);
        proof {
            assert(self.items@ =~= old(self)@.update(p as int, item));
        }
    }

    /// A change sent for an annotation: it is saving, with this request pending,
    /// and shows `annotation` meanwhile.
    pub fn begin_mutation(&mut self, id: u128, annotation: A, pending: P) -> (found: bool)
        ensures
            found == has_item(old(self)@, id),
            final(self)@ == update_first(old(self)@, id, LocalItem { id, annotation, sync: SyncState::Saving, pending: Some(pending) }),
    {
        proof {
            lemma_first_index(old(self)@, id);
        }
        match self.position(id) {
            Some(p) => {
                self.replace_at(p, LocalItem { id, annotation, sync: SyncState::Saving, pending: Some(pending) });
                true
            },
            None => false,
        }
    }

    /// The first item with the id is saving again; true when it has a request
    /// pending, which is then sent once more.
    pub fn retry(&mut self, id: u128) -> (r: bool)
        ensures
            ({
                let p = first_index(old(self)@, id);
                if p >= 0 && old(self)@[p].pending is Some {
                    &&& r
                    &&& final(self)@ == old(self)@.update(p, LocalItem { sync: SyncState::Saving, ..old(self)@[p] })
                } else {
                    &&& !r
                    &&& final(self)@ == old(self)@
                }
            }),
    {
        match self.position(id) {
            Some(p) => {
                if self.items[p].pending.is_some() {
                    let item = self.items.remove(p);
                    let LocalItem { id: item_id, annotation, sync: _, pending } = item;
                    self.items.insert(p, LocalItem { id: item_id, annotation, sync: SyncState::Saving, pending });
                    proof {
                        assert(self.items@ =~= old(self)@.update(p as int, LocalItem { sync: SyncState::Saving, ..old(self)@[p as int] }));
                    }
                    true
                } else {
                    false
                }
            },
            None => false,
        }
    }

    /// The server confirmed a create or an update: the first item with
    /// `local_id` becomes the server's annotation, synced, nothing pending.
    pub fn confirm(&mut self, local_id: u128, server_id: u128, annotation: A)
        ensures
            final(self)@ == update_first(old(self)@, local_id, LocalItem { id: server_id, annotation, sync: SyncState::Synced, pending: None }),
    {
        match self.position(local_id) {
            Some(p) => {
                self.replace_at(p, LocalItem { id: server_id, annotation, sync: SyncState::Synced, pending: None });
            },
            None => {},
        }
    }

    /// The server confirmed a delete: every item with the id leaves the list.
    pub fn remove(&mut self, id: u128)
        ensures
            final(self)@ == without_id(old(self)@, id),
            !has_item(final(self)@, id),
            forall|k: u128| k != id ==> (has_item(final(self)@, k) <==> #[trigger] has_item(old(self)@, k)),
    {
        let ghost s0 = self.items@;
        let mut rest: Vec<LocalItem<A, P>> = Vec::new();
        core::mem::swap(&mut rest, &mut self.items);
        let mut kept: Vec<LocalItem<A, P>> = Vec::new();
        let ghost mut k: int = 0;
        proof {
            assert(s0.take(0) =~= Seq::<LocalItem<A, P>>::empty());
        }
        while rest.len() > 0
            invariant
                0 <= k <= s0.len(),
                rest@ == s0.skip(k),
                kept@ == without_id(s0.take(k), id),
            decreases rest.len(),
        {
            let item = rest.remove(0);
            proof {
                assert(s0.take(k + 1).drop_last() =~= s0.take(k));
                assert(s0.take(k + 1).last() == item);
            }
            if item.id != id {
                kept.push(item);
            }
            proof {
                k = k + 1;
                assert(rest@ =~= s0.skip(k));
            }
        }
        proof {
            assert(s0.take(k) =~= s0);
            lemma_without_id(s0, id);
        }
        self.items = kept;
    }

    /// A request failed: the first item with the id is marked failed and keeps
    /// its request for a retry.
    pub fn mark_failed(&mut self, id: u128)
        ensures
            ({
                let p = first_index(old(self)@, id);
                if p >= 0 {
                    final(self)@ == old(self)@.update(p, LocalItem { sync: SyncState::Failed, ..old(self)@[p] })
                } else {
                    final(self)@ == old(self)@
                }
            }),
    {
        match self.position(id) {
            Some(p) => {
                let item = self.items.remove(p);
                let LocalItem { id: item_id, annotation, sync: _, pending } = item;
                self.items.insert(p, LocalItem { id: item_id, annotation, sync: SyncState::Failed, pending });
                proof {
                    assert(self.items@ =~= old(self)@.update(p as int, LocalItem { sync: SyncState::Failed, ..old(self)@[p as int] }));
                }
            },
            None => {},
        }
    }

    /// The server reported a version conflict and its current list was loaded:
    /// the local item takes the server's version (when the server has one),
    /// stops waiting, and is marked conflicted; a server version that is missing
    /// here is added. Returns whether the list now holds the id.
    pub fn apply_conflict(&mut self, local_id: u128, server: Option<A>) -> (present: bool)
        ensures
            ({
                let s = old(self)@;
                let p = first_index(s, local_id);
                if p >= 0 {
                    &&& final(self)@ == s.update(p, LocalItem {
                        annotation: match server { Some(a) => a, None => s[p].annotation },
                        sync: SyncState::Conflicted,
                        pending: None,
                        ..s[p]
                    })
                    &&& present
                } else {
                    match server {
                        Some(a) => final(self)@ == s.push(LocalItem { id: local_id, annotation: a, sync: SyncState::Conflicted, pending: None }) && present,
                        None => final(self)@ == s && !present,
                    }
                }
            }),
    {
        match self.position(local_id) {
            Some(p) => {
                let item = self.items.remove(p);
                let LocalItem { id: item_id, annotation, sync: _, pending: _ } = item;
                let shown = match server {
                    Some(a) => a,
                    None => annotation,
                };
                self.items.insert(p, LocalItem { id: item_id, annotation: shown, sync: SyncState::Conflicted, pending: None });
                proof {
                    let s = old(self)@;
                    assert(self.items@ =~= s.update(p as int, LocalItem {
                        annotation: match server { Some(a) => a, None => s[p as int].annotation },
                        sync: SyncState::Conflicted,
                        pending: None,
                        ..s[p as int]
                    }));
                }
                true
            },
            None => match server {
                Some(a) => {
                    self.items.push(LocalItem { id: local_id, annotation: a, sync: SyncState::Conflicted, pending: None });
                    true
                },
                None => false,
            },
        }
    }
}

/// How the answer to a pending request is applied.
impl<A, P> LocalAnnotations<A, P> {
    /// The server answered the request of kind `kind` sent for `local_id`:
    /// a confirmed delete removes the item, a confirmed create or update
    /// replaces it with the server's annotation (`server_id`, `stored`), a
    /// version conflict leaves the list for `settle_conflict` once the server's
    /// list is loaded, and any other error marks the item failed. The result is
    /// what the save indicator records for the request's key: `Ok` on a
    /// confirmation, the error's message on a failure, nothing yet on a conflict.
    pub fn settle(&mut self, local_id: u128, kind: MutationKind, answer: Result<(u128, A), ApiMutationError>) -> (r: Option<Result<(), String>>)
        ensures
            answer is Ok && kind == MutationKind::Delete ==> final(self)@ == without_id(old(self)@, local_id) && r == Some(Ok::<(), String>(())),
            answer matches Ok((server_id, stored)) ==> (kind != MutationKind::Delete ==> final(self)@ == update_first(old(self)@, local_id,
                LocalItem { id: server_id, annotation: stored, sync: SyncState::Synced, pending: None }) && r == Some(Ok::<(), String>(()))),
            answer matches Err(ApiMutationError::Conflict) ==> final(self)@ == old(self)@ && r is None,
            answer matches Err(e) ==> (e != ApiMutationError::Conflict ==> {
                &&& r matches Some(Err(m)) && m@ == e.spec_message()
                &&& {
                    let p = first_index(old(self)@, local_id);
                    if p >= 0 {
                        final(self)@ == old(self)@.update(p, LocalItem { sync: SyncState::Failed, ..old(self)@[p] })
                    } else {
                        final(self)@ == old(self)@
                    }
                }
            }),
    {
        match answer {
            Ok((server_id, stored)) => {
                match kind {
                    MutationKind::Delete => self.remove(local_id),
                    _ => self.confirm(local_id, server_id, stored),
                }
                Some(Ok(()))
            },
            Err(ApiMutationError::Conflict) => None,
            Err(e) => {
                let m = e.message();
                self.mark_failed(local_id);
                Some(Err(m))
            },
        }
    }

    /// After a conflict the server's list was loaded (with the server's version
    /// of the annotation when it has one), or loading it failed: the conflict
    /// is applied as `apply_conflict` does and the save is recorded as done, or
    /// the item is marked failed and the save records the error.
    pub fn settle_conflict(&mut self, local_id: u128, reload: Result<Option<A>, String>) -> (r: Result<(), String>)
        ensures
            reload is Ok ==> r is Ok,
            reload matches Ok(server) ==> {
                let s = old(self)@;
                let p = first_index(s, local_id);
                if p >= 0 {
                    final(self)@ == s.update(p, LocalItem {
                        annotation: match server { Some(a) => a, None => s[p].annotation },
                        sync: SyncState::Conflicted,
                        pending: None,
                        ..s[p]
                    })
                } else {
                    match server {
                        Some(a) => final(self)@ == s.push(LocalItem { id: local_id, annotation: a, sync: SyncState::Conflicted, pending: None }),
                        None => final(self)@ == s,
                    }
                }
            },
            reload matches Err(m) ==> {
                &&& r == Err::<(), String>(m)
                &&& {
                    let p = first_index(old(self)@, local_id);
                    if p >= 0 {
                        final(self)@ == old(self)@.update(p, LocalItem { sync: SyncState::Failed, ..old(self)@[p] })
                    } else {
                        final(self)@ == old(self)@
                    }
                }
            },
    {
        match reload {
            Ok(server) => {
                let _present = self.apply_conflict(local_id, server);
                Ok(())
            },
            Err(m) => {
                self.mark_failed(local_id);
                Err(m)
            },
        }
    }
}

/// A failed request that is retried goes out again as the same request.
pub proof fn law_failed_then_retried<A, P>(s: Seq<LocalItem<A, P>>, id: u128)
    requires
        first_index(s, id) >= 0,
        s[first_index(s, id)].pending is Some,
    ensures
        ({
            let p = first_index(s, id);
            let failed = s.update(p, LocalItem { sync: SyncState::Failed, ..s[p] });
            &&& first_index(failed, id) == p
            &&& failed[p].pending == s[p].pending
            &&& failed.update(p, LocalItem { sync: SyncState::Saving, ..failed[p] })[p].pending == s[p].pending
            &&& failed.update(p, LocalItem { sync: SyncState::Saving, ..failed[p] })[p].sync == SyncState::Saving
        }),
{
    let p = first_index(s, id);
    lemma_first_index(s, id);
    let failed = s.update(p, LocalItem { sync: SyncState::Failed, ..s[p] });
    lemma_same_first(s, failed, id, p, 0);
}

/// An annotation created here and then confirmed by the server ends as the
/// server's annotation, synced with nothing pending, after the others, which
/// stay as they were; the local id is a fresh one that no item has.
pub proof fn law_created_then_confirmed<A, P>(
    s: Seq<LocalItem<A, P>>,
    local_id: u128,
    shown: A,
    pending: P,
    server_id: u128,
    stored: A,
)
    requires
        !has_item(s, local_id),
    ensures
        update_first(
            s.push(LocalItem { id: local_id, annotation: shown, sync: SyncState::Saving, pending: Some(pending) }),
            local_id,
            LocalItem { id: server_id, annotation: stored, sync: SyncState::Synced, pending: None },
        ) == s.push(LocalItem { id: server_id, annotation: stored, sync: SyncState::Synced, pending: None }),
{
    let created = s.push(LocalItem { id: local_id, annotation: shown, sync: SyncState::Saving, pending: Some(pending) });
    assert(created[s.len() as int].id == local_id);
    lemma_first_index(created, local_id);
    let p = first_index(created, local_id);
    if p < s.len() {
        assert(s[p].id == local_id);
    }
    assert(p == s.len());
    assert(created.update(p, LocalItem { id: server_id, annotation: stored, sync: SyncState::Synced, pending: None })
        =~= s.push(LocalItem { id: server_id, annotation: stored, sync: SyncState::Synced, pending: None }));
}

proof fn lemma_same_first<A, P>(s: Seq<LocalItem<A, P>>, t: Seq<LocalItem<A, P>>, id: u128, p: int, i: int)
    requires
        s.len() == t.len(),
        0 <= p < s.len(),
        forall|j: int| 0 <= j < s.len() ==> (#[trigger] s[j]).id == t[j].id,
        0 <= i,
    ensures
        first_from(s, id, i) == first_from(t, id, i),
    decreases s.len() - i,
{
    if i < s.len() {
        assert(s[i].id == t[i].id);
        lemma_same_first(s, t, id, p, i + 1);
    }
}

/// The metadata that an update sends: a title and tags left empty keep the
/// annotation's own, and a status not given keeps its status.
pub fn merge_update(
    previous_title: Option<String>,
    previous_tags: Vec<String>,
    previous_status: AnnotationStatus,
    title: Option<String>,
    tags: Vec<String>,
    status: Option<AnnotationStatus>,
) -> (r: (Option<String>, Vec<String>, AnnotationStatus))
    ensures
        r.0 == (match title { Some(t) => Some(t), None => previous_title }),
        r.1@ == (if tags@.len() == 0 { previous_tags@ } else { tags@ }),
        r.2 == (match status { Some(s) => s, None => previous_status }),
{
    let merged_title = match title {
        Some(t) => Some(t),
        None => previous_title,
    };
    let merged_tags = if tags.len() == 0 { previous_tags } else { tags };
    let merged_status = match status {
        Some(s) => s,
        None => previous_status,
    };
    (merged_title, merged_tags, merged_status)
}

/// The draft kept aside after a conflict: the text being edited, unless empty.
pub fn conflict_draft(draft: String) -> (r: Option<String>)
    ensures
        draft@.len() == 0 ==> r is None,
        draft@.len() > 0 ==> r == Some(draft),
{
    if draft.as_str().is_empty() {
        None
    } else {
        Some(draft)
    }
}

} // verus!
