//! The reader's save indicator: how many saves are in flight, what was saved
//! last, and which saves failed; and the debounce rule of settings and position saves.

use vstd::prelude::*;
use crate::text::{chars_of, string_from_chars};
use crate::http::prefixed;

verus! {

/// What a save is about, in the words of the indicator ("Сохраняем …").
#[derive(Clone, Copy, Debug, PartialEq, Eq, Structural)]
pub enum SaveSubject {
    Changes,
    Annotation,
    Note,
    Deletion,
    Settings,
    Position,
}

pub open spec fn spec_subject_word(s: SaveSubject) -> Seq<char> {
    match s {
        SaveSubject::Changes => "изменения"@,
        SaveSubject::Annotation => "аннотацию"@,
        SaveSubject::Note => "заметку"@,
        SaveSubject::Deletion => "удаление"@,
        SaveSubject::Settings => "настройки"@,
        SaveSubject::Position => "позицию"@,
    }
}

pub fn subject_word(s: SaveSubject) -> (r: &'static str)
    ensures
        r@ == spec_subject_word(s),
{
    match s {
        SaveSubject::Changes => "изменения",
        SaveSubject::Annotation => "аннотацию",
        SaveSubject::Note => "заметку",
        SaveSubject::Deletion => "удаление",
        SaveSubject::Settings => "настройки",
        SaveSubject::Position => "позицию",
    }
}

/// `a` sorts before `b` by code points, as `String`'s order compares them.
pub open spec fn chars_lt(a: Seq<char>, b: Seq<char>) -> bool
    decreases a.len(),
{
    if b.len() == 0 {
        false
    } else if a.len() == 0 {
        true
    } else if (a[0] as u32) < (b[0] as u32) {
        true
    } else if a[0] == b[0] {
        chars_lt(a.drop_first(), b.drop_first())
    } else {
        false
    }
}

pub proof fn lemma_chars_lt_irreflexive(a: Seq<char>)
    ensures
        !chars_lt(a, a),
    decreases a.len(),
{
    if a.len() > 0 {
        lemma_chars_lt_irreflexive(a.drop_first());
    }
}

pub proof fn lemma_chars_lt_transitive(a: Seq<char>, b: Seq<char>, c: Seq<char>)
    requires
        chars_lt(a, b),
        chars_lt(b, c),
    ensures
        chars_lt(a, c),
    decreases a.len(),
{
    if a.len() > 0 && b.len() > 0 && c.len() > 0 && a[0] == b[0] && b[0] == c[0] {
        lemma_chars_lt_transitive(a.drop_first(), b.drop_first(), c.drop_first());
    }
}

fn chars_less(a: &Vec<char>, b: &Vec<char>) -> (r: bool)
    ensures
        r == chars_lt(a@, b@),
{
    let mut i: usize = 0;
    proof {
        assert(a@.skip(0) =~= a@);
        assert(b@.skip(0) =~= b@);
    }
    while i < a.len() && i < b.len() && a[i] == b[i]
        invariant
            i <= a@.len(),
            i <= b@.len(),
            chars_lt(a@, b@) == chars_lt(a@.skip(i as int), b@.skip(i as int)),
        decreases a.len() - i,
    {
        proof {
            assert(a@.skip(i as int).drop_first() =~= a@.skip(i + 1));
            assert(b@.skip(i as int).drop_first() =~= b@.skip(i + 1));
        }
        i += 1;
    }
    if i == b.len() {
        false
    } else if i == a.len() {
        true
    } else {
        (a[i] as u32) < (b[i] as u32)
    }
}

/// The failure recorded under a key.
pub open spec fn lookup(f: Seq<(Seq<char>, Seq<char>)>, key: Seq<char>) -> Option<Seq<char>>
    decreases f.len(),
{
    if f.len() == 0 {
        None
    } else if f.last().0 == key {
        Some(f.last().1)
    } else {
        lookup(f.drop_last(), key)
    }
}

/// The entry with the least key.
pub open spec fn least_entry(f: Seq<(Seq<char>, Seq<char>)>) -> (Seq<char>, Seq<char>)
    decreases f.len(),
{
    if f.len() <= 1 {
        f[0]
    } else {
        let m = least_entry(f.drop_last());
        if chars_lt(f.last().0, m.0) { f.last() } else { m }
    }
}

/// The failures of a save state, as their views.
pub open spec fn failures_view(f: Seq<(String, String)>) -> Seq<(Seq<char>, Seq<char>)> {
    f.map_values(|e: (String, String)| (e.0@, e.1@))
}

/// The model of the save indicator.
pub struct SaveModel {
    pub pending: nat,
    pub subject: SaveSubject,
    pub failures: Seq<(Seq<char>, Seq<char>)>,
}

pub struct SaveState {
    pending: usize,
    latest_subject: SaveSubject,
    failures: Vec<(String, String)>,
}

impl View for SaveState {
    type V = SaveModel;

    closed spec fn view(&self) -> SaveModel {
        SaveModel { pending: self.pending as nat, subject: self.latest_subject, failures: failures_view(self.failures@) }
    }
}

/// The text of the indicator.
pub open spec fn spec_save_label(m: SaveModel) -> Seq<char> {
    if m.pending > 0 {
        "Сохраняем "@ + spec_subject_word(m.subject) + "…"@
    } else if m.failures.len() > 0 {
        "Не сохранено: "@ + least_entry(m.failures).1
    } else {
        "Сохранено"@
    }
}

/// The class of the indicator.
pub open spec fn spec_save_class(m: SaveModel) -> Seq<char> {
    if m.pending > 0 {
        "saving"@
    } else if m.failures.len() == 0 {
        "saved"@
    } else {
        "failed"@
    }
}

fn copy_string(s: &String) -> (r: String)
    ensures
        r@ == s@,
{
    let c = chars_of(s.as_str());
    string_from_chars(&c)
}

fn string_chars(s: &String) -> (r: Vec<char>)
    ensures
        r@ == s@,
{
    chars_of(s.as_str())
}

fn same_text(a: &String, b: &str) -> (r: bool)
    ensures
        r == (a@ == b@),
{
    let x = chars_of(a.as_str());
    let y = chars_of(b);
    crate::tags::chars_equal(&x, &y)
}

/// The failures without those recorded under `key`.
pub open spec fn without_key(f: Seq<(Seq<char>, Seq<char>)>, key: Seq<char>) -> Seq<(Seq<char>, Seq<char>)>
    decreases f.len(),
{
    if f.len() == 0 {
        f
    } else {
        let rest = without_key(f.drop_last(), key);
        if f.last().0 == key { rest } else { rest.push(f.last()) }
    }
}

proof fn lemma_without_key_lookup(f: Seq<(Seq<char>, Seq<char>)>, key: Seq<char>, k: Seq<char>)
    ensures
        lookup(without_key(f, key), k) == (if k == key { None } else { lookup(f, k) }),
    decreases f.len(),
{
    if f.len() > 0 {
        lemma_without_key_lookup(f.drop_last(), key, k);
        let rest = without_key(f.drop_last(), key);
        if f.last().0 != key {
            assert(rest.push(f.last()).drop_last() =~= rest);
        }
    }
}

proof fn lemma_without_key_len(f: Seq<(Seq<char>, Seq<char>)>, key: Seq<char>)
    ensures
        without_key(f, key).len() <= f.len(),
    decreases f.len(),
{
    if f.len() > 0 {
        lemma_without_key_len(f.drop_last(), key);
    }
}

/// The least entry is an entry, and no key sorts before its key.
pub proof fn law_least_entry_is_least(f: Seq<(Seq<char>, Seq<char>)>)
    requires
        f.len() > 0,
    ensures
        f.contains(least_entry(f)),
        forall|j: int| 0 <= j < f.len() ==> !chars_lt(#[trigger] f[j].0, least_entry(f).0),
    decreases f.len(),
{
    if f.len() == 1 {
        lemma_chars_lt_irreflexive(f[0].0);
        assert(f[0] == least_entry(f));
    } else {
        let d = f.drop_last();
        law_least_entry_is_least(d);
        let m = least_entry(d);
        let k = choose|k: int| 0 <= k < d.len() && d[k] == m;
        assert(f[k] == m);
        if chars_lt(f.last().0, m.0) {
            lemma_chars_lt_irreflexive(f.last().0);
            assert forall|j: int| 0 <= j < f.len() implies !chars_lt(#[trigger] f[j].0, least_entry(f).0) by {
                if j < f.len() - 1 {
                    assert(f[j] == d[j]);
                    if chars_lt(f[j].0, f.last().0) {
                        lemma_chars_lt_transitive(f[j].0, f.last().0, m.0);
                    }
                }
            }
            assert(f[f.len() - 1] == least_entry(f));
        } else {
            assert forall|j: int| 0 <= j < f.len() implies !chars_lt(#[trigger] f[j].0, least_entry(f).0) by {
                if j < f.len() - 1 {
                    assert(f[j] == d[j]);
                }
            }
        }
    }
}

impl SaveState {
    pub fn new() -> (r: Self)
        ensures
            r@.pending == 0,
            r@.subject == SaveSubject::Changes,
            r@.failures.len() == 0,
    {
        let r = SaveState { pending: 0, latest_subject: SaveSubject::Changes, failures: Vec::new() };
        proof {
            assert(r@.failures =~= Seq::<(Seq<char>, Seq<char>)>::empty());
        }
        r
    }

    /// Number of saves in flight.
    pub fn pending(&self) -> (r: usize)
        ensures
            r as nat == self@.pending,
    {
        self.pending
    }

    /// The failure recorded under a key.
    pub fn failure(&self, key: &str) -> (r: Option<String>)
        ensures
            r matches Some(v) ==> lookup(self@.failures, key@) == Some(v@),
            r is None ==> lookup(self@.failures, key@) is None,
    {
        let n = self.failures.len();
        let mut i: usize = n;
        proof {
            assert(self@.failures.take(n as int) =~= self@.failures);
        }
        while i > 0
            invariant
                i <= n == self@.failures.len(),
                lookup(self@.failures, key@) == lookup(self@.failures.take(i as int), key@),
            decreases i,
        {
            proof {
                assert(self@.failures.take(i as int).drop_last() =~= self@.failures.take(i - 1));
            }
            if same_text(&self.failures[i - 1].0, key) {
                return Some(copy_string(&self.failures[i - 1].1));
            }
            i -= 1;
        }
        None
    }

    fn remove_failure(&mut self, key: &str)
        ensures
            final(self).pending == old(self).pending,
            final(self).latest_subject == old(self).latest_subject,
            final(self)@.failures == without_key(old(self)@.failures, key@),
    {
        let ghost f0 = self@.failures;
        let mut kept: Vec<(String, String)> = Vec::new();
        let mut i: usize = 0;
        proof {
            assert(f0.take(0) =~= Seq::<(Seq<char>, Seq<char>)>::empty());
            assert(failures_view(kept@) =~= Seq::<(Seq<char>, Seq<char>)>::empty());
        }
        while i < self.failures.len()
            invariant
                i <= self.failures@.len(),
                self@.failures == f0,
                failures_view(kept@) == without_key(f0.take(i as int), key@),
            decreases self.failures.len() - i,
        {
            proof {
                assert(f0.take(i + 1).drop_last() =~= f0.take(i as int));
                assert(f0.take(i + 1).last() == f0[i as int]);
            }
            if !same_text(&self.failures[i].0, key) {
                let entry = (copy_string(&self.failures[i].0), copy_string(&self.failures[i].1));
                let ghost before = kept@;
                kept.push(entry);
                proof {
                    assert(failures_view(kept@) =~= failures_view(before).push(f0[i as int]));
                }
            }
            i += 1;
        }
        proof {
            assert(f0.take(i as int) =~= f0);
        }
        self.failures = kept;
    }

    /// A save starts: one more in flight, the indicator names its subject, and an
    /// earlier failure under its key is forgotten.
    pub fn begin_save(&mut self, key: &str, subject: SaveSubject)
        ensures
            final(self)@.pending == (if old(self)@.pending < usize::MAX { old(self)@.pending + 1 } else { old(self)@.pending }),
            final(self)@.subject == subject,
            final(self)@.failures == without_key(old(self)@.failures, key@),
            lookup(final(self)@.failures, key@) is None,
            forall|k: Seq<char>| k != key@ ==> #[trigger] lookup(final(self)@.failures, k) == lookup(old(self)@.failures, k),
    {
        self.pending = self.pending.saturating_add(1);
        self.latest_subject = subject;
        self.remove_failure(key);
        proof {
            lemma_without_key_lookup(old(self)@.failures, key@, key@);
            assert forall|k: Seq<char>| k != key@ implies #[trigger] lookup(self@.failures, k) == lookup(old(self)@.failures, k) by {
                lemma_without_key_lookup(old(self)@.failures, key@, k);
            }
        }
    }

    /// A save ends: one fewer in flight, and an error is recorded under its key.
    pub fn finish_save(&mut self, key: &str, result: Result<(), String>)
        ensures
            final(self)@.pending == (if old(self)@.pending > 0 { old(self)@.pending - 1 } else { 0 }),
            final(self)@.subject == old(self)@.subject,
            result is Ok ==> final(self)@.failures == old(self)@.failures,
            result matches Err(e) ==> final(self)@.failures == without_key(old(self)@.failures, key@).push((key@, e@)),
            result matches Err(e) ==> lookup(final(self)@.failures, key@) == Some(e@),
            forall|k: Seq<char>| k != key@ ==> #[trigger] lookup(final(self)@.failures, k) == lookup(old(self)@.failures, k),
    {
        self.pending = self.pending.saturating_sub(1);
        if let Err(error) = result {
            self.remove_failure(key);
            let name = copy_string_str(key);
            let ghost before = self@.failures;
            self.failures.push((name, error));
            proof {
                assert(self@.failures =~= before.push((key@, error@)));
                assert(self@.failures.drop_last() =~= before);
                assert forall|k: Seq<char>| k != key@ implies #[trigger] lookup(self@.failures, k) == lookup(old(self)@.failures, k) by {
                    lemma_without_key_lookup(old(self)@.failures, key@, k);
                }
            }
        }
    }

    /// The text of the indicator: saving, the failure with the least key, or saved.
    pub fn save_label(&self) -> (r: String)
        ensures
            r@ == spec_save_label(self@),
    {
        if self.pending > 0 {
            let mut out = chars_of("Сохраняем ");
            let word = chars_of(subject_word(self.latest_subject));
            let mut i: usize = 0;
            let ghost before = out@;
            while i < word.len()
                invariant
                    i <= word@.len(),
                    out@ == before + word@.take(i as int),
                decreases word.len() - i,
            {
                out.push(word[i]);
                i += 1;
                proof {
                    assert(word@.take(i as int) =~= word@.take(i - 1).push(word@[i - 1]));
                }
            }
            proof {
                assert(word@.take(word@.len() as int) =~= word@);
            }
            out.push('…');
            proof {
                reveal_strlit("…");
                assert(out@ =~= "Сохраняем "@ + spec_subject_word(self@.subject) + "…"@);
            }
            string_from_chars(&out)
        } else if self.failures.len() > 0 {
            let mut best: usize = 0;
            let mut best_key = string_chars(&self.failures[0].0);
            let mut i: usize = 1;
            proof {
                assert(self@.failures.take(1) =~= seq![self@.failures[0]]);
            }
            while i < self.failures.len()
                invariant
                    1 <= i <= self.failures@.len(),
                    best < i,
                    best_key@ == self@.failures[best as int].0,
                    self@.failures[best as int] == least_entry(self@.failures.take(i as int)),
                decreases self.failures.len() - i,
            {
                let candidate = string_chars(&self.failures[i].0);
                proof {
                    assert(self@.failures.take(i + 1).drop_last() =~= self@.failures.take(i as int));
                    assert(self@.failures.take(i + 1).last() == self@.failures[i as int]);
                }
                if chars_less(&candidate, &best_key) {
                    best = i;
                    best_key = candidate;
                }
                i += 1;
            }
            proof {
                assert(self@.failures.take(i as int) =~= self@.failures);
            }
            prefixed("Не сохранено: ", self.failures[best].1.as_str())
        } else {
            "Сохранено".to_string()
        }
    }

    /// The class of the indicator.
    pub fn save_class(&self) -> (r: &'static str)
        ensures
            r@ == spec_save_class(self@),
    {
        if self.pending > 0 {
            "saving"
        } else if self.failures.len() == 0 {
            "saved"
        } else {
            "failed"
        }
    }
}

fn copy_string_str(s: &str) -> (r: String)
    ensures
        r@ == s@,
{
    let c = chars_of(s);
    string_from_chars(&c)
}

/// A save that starts and ends without error leaves the count where it was and
/// no failure under its key; one that ends with an error leaves exactly that error.
pub proof fn law_save_round_trip(before: SaveModel, started: SaveModel, ended: SaveModel, key: Seq<char>, error: Option<Seq<char>>)
    requires
        before.pending < usize::MAX,
        started.pending == before.pending + 1,
        lookup(started.failures, key) is None,
        ended.pending == (if started.pending > 0 { started.pending - 1 } else { 0 }),
        error is None ==> ended.failures == started.failures,
        error matches Some(e) ==> lookup(ended.failures, key) == Some(e),
    ensures
        ended.pending == before.pending,
        lookup(ended.failures, key) == error,
{
}

/// What a debounced save does once its delay is over.
#[derive(Clone, Copy, Debug, PartialEq, Eq, Structural)]
pub enum DebounceDecision {
    /// A save of this generation is still in flight: wait and look again.
    Wait,
    /// A newer change superseded this one: end without saving.
    Abandon,
    /// Send the save.
    Send,
}

/// The generation of the next change.
pub fn next_generation(generation: u64) -> (r: u64)
    ensures
        r == (if generation < u64::MAX { generation + 1 } else { generation as int }),
{
    generation.saturating_add(1)
}

/// The decision of a save scheduled as generation `mine` when the current
/// generation is `current` and a save may be in flight.
pub fn debounce_decision(current: u64, mine: u64, in_flight: bool) -> (r: DebounceDecision)
    ensures
        r == (if current != mine {
            DebounceDecision::Abandon
        } else if in_flight {
            DebounceDecision::Wait
        } else {
            DebounceDecision::Send
        }),
{
    if current != mine {
        DebounceDecision::Abandon
    } else if in_flight {
        DebounceDecision::Wait
    } else {
        DebounceDecision::Send
    }
}

/// The outcome a save reports to the indicator: its own result while it is the
/// latest, and success once a newer change has superseded it.
pub fn settle_save(current: u64, mine: u64, result: Result<(), String>) -> (r: Result<(), String>)
    ensures
        current == mine ==> r == result,
        current != mine ==> r is Ok,
{
    if current == mine {
        result
    } else {
        Ok(())
    }
}

} // verus!
