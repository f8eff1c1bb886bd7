//! Splitting reading blocks into pages. The browser measures; this module decides.
//!
//! A `Paginator` walks the blocks of a document. Each call of `step` hands it the
//! answer to its last `Measure` and returns the next thing to do with the
//! measurement page: measure a piece of a block, place one, remove the piece
//! measured last, or close the page. Non-atomic blocks that do not fit are cut
//! where a binary search over measured prefixes says, moved back to a word break.

use vstd::prelude::*;
use crate::reader::{snap_page_break, spec_snap_page_break};
use crate::text::chars_of;

verus! {

/// Scalars `start..end` of block `block` shown on a page.
#[derive(Clone, Copy, Debug, PartialEq, Eq, Structural)]
pub struct PageFragment {
    pub block: usize,
    pub start: usize,
    pub end: usize,
}

/// What the browser is asked to do next with the measurement page.
#[derive(Clone, Copy, Debug, PartialEq, Eq, Structural)]
pub enum PageAction {
    /// Append scalars `start..end` of the block and report whether the page still fits.
    Measure { block: usize, start: usize, end: usize },
    /// Append scalars `start..end` of the block; no report is needed.
    Place { block: usize, start: usize, end: usize },
    /// Remove the element appended last.
    RemoveLast,
    /// The page is complete: empty the measurement page.
    FinishPage,
    /// Every block has been placed.
    Done,
}

/// Where the walk stands between two steps.
#[derive(Clone, Copy, Debug, PartialEq, Eq, Structural)]
pub enum Phase {
    Begin,
    Whole,
    WholeRemoved,
    PlacedAtomic,
    Probe { low: usize, high: usize, accepted: usize, middle: usize },
    ProbeRemoved { low: usize, high: usize, accepted: usize },
    PlacedPart,
    Finished,
}

/// A block to lay out: its text and whether it must stay whole.
pub struct LayoutBlock {
    pub text: String,
    pub atomic: bool,
}

/// The model of a block.
pub struct BlockModel {
    pub text: Seq<char>,
    pub atomic: bool,
}

/// Number of positions of a block: its scalars, and one for an empty block.
pub open spec fn block_len(b: BlockModel) -> int {
    if b.text.len() == 0 { 1 } else { b.text.len() as int }
}

/// The model of a paginator.
pub struct PaginatorModel {
    pub blocks: Seq<BlockModel>,
    pub pages: Seq<Seq<PageFragment>>,
    pub fragments: Seq<PageFragment>,
    pub block: int,
    pub start: int,
    pub phase: Phase,
}

pub open spec fn with_phase(m: PaginatorModel, phase: Phase) -> PaginatorModel {
    PaginatorModel { phase, ..m }
}

/// The fragments gathered so far become a page (when there are any).
pub open spec fn finish(m: PaginatorModel) -> PaginatorModel {
    if m.fragments.len() == 0 {
        m
    } else {
        PaginatorModel { pages: m.pages.push(m.fragments), fragments: Seq::empty(), ..m }
    }
}

pub open spec fn frag(block: int, start: int, end: int) -> PageFragment {
    PageFragment { block: block as usize, start: start as usize, end: end as usize }
}

/// The start of one round over the current block: move past a finished block;
/// after the last one close the last page; an atomic block starts on a fresh
/// page; otherwise measure the rest of the block.
pub open spec fn begin(m: PaginatorModel) -> (PaginatorModel, PageAction) {
    let m1 = if 0 <= m.block < m.blocks.len() && m.start >= block_len(m.blocks[m.block]) {
        PaginatorModel { block: m.block + 1, start: 0, ..m }
    } else {
        m
    };
    if m1.block >= m1.blocks.len() {
        if m1.fragments.len() > 0 {
            (with_phase(finish(m1), Phase::Finished), PageAction::FinishPage)
        } else {
            (with_phase(m1, Phase::Finished), PageAction::Done)
        }
    } else if m1.blocks[m1.block].atomic && m1.fragments.len() > 0 {
        (with_phase(finish(m1), Phase::Begin), PageAction::FinishPage)
    } else {
        (
            with_phase(m1, Phase::Whole),
            PageAction::Measure {
                block: m1.block as usize,
                start: m1.start as usize,
                end: block_len(m1.blocks[m1.block]) as usize,
            },
        )
    }
}

/// One round of the binary search for the longest prefix that fits; when it is
/// over, an empty result on a used page closes the page, and otherwise the
/// accepted prefix (at least one scalar) is moved back to a word break and placed.
pub open spec fn search(m: PaginatorModel, low: int, high: int, accepted: int) -> (PaginatorModel, PageAction) {
    let b = m.blocks[m.block];
    let len = block_len(b);
    if low <= high {
        let middle = low + (high - low) / 2;
        (
            with_phase(m, Phase::Probe { low: low as usize, high: high as usize, accepted: accepted as usize, middle: middle as usize }),
            PageAction::Measure { block: m.block as usize, start: m.start as usize, end: middle as usize },
        )
    } else if accepted == m.start && m.fragments.len() > 0 {
        (with_phase(finish(m), Phase::Begin), PageAction::FinishPage)
    } else {
        let wanted = if accepted > m.start + 1 { accepted } else { m.start + 1 };
        let capped = if wanted < len { wanted } else { len };
        let cut = spec_snap_page_break(b.text, m.start, capped, len);
        (
            PaginatorModel {
                fragments: m.fragments.push(frag(m.block, m.start, cut)),
                start: cut,
                phase: Phase::PlacedPart,
                ..m
            },
            PageAction::Place { block: m.block as usize, start: m.start as usize, end: cut as usize },
        )
    }
}

/// The transition of the paginator on the answer `fits` to its last question.
pub open spec fn step_spec(m: PaginatorModel, fits: bool) -> (PaginatorModel, PageAction) {
    match m.phase {
        Phase::Begin => begin(m),
        Phase::Whole => {
            let b = m.blocks[m.block];
            let len = block_len(b);
            if fits {
                let m2 = PaginatorModel { fragments: m.fragments.push(frag(m.block, m.start, len)), start: len, ..m };
                if b.atomic {
                    (with_phase(finish(m2), Phase::Begin), PageAction::FinishPage)
                } else {
                    begin(m2)
                }
            } else {
                (with_phase(m, Phase::WholeRemoved), PageAction::RemoveLast)
            }
        },
        Phase::WholeRemoved => {
            let b = m.blocks[m.block];
            let len = block_len(b);
            if b.atomic {
                if m.fragments.len() > 0 {
                    (with_phase(finish(m), Phase::Begin), PageAction::FinishPage)
                } else {
                    (
                        PaginatorModel { fragments: m.fragments.push(frag(m.block, 0, 1)), start: len, phase: Phase::PlacedAtomic, ..m },
                        PageAction::Place { block: m.block as usize, start: m.start as usize, end: len as usize },
                    )
                }
            } else {
                search(m, m.start + 1, len, m.start)
            }
        },
        Phase::PlacedAtomic => (with_phase(finish(m), Phase::Begin), PageAction::FinishPage),
        Phase::Probe { low, high, accepted, middle } => {
            if fits {
                (with_phase(m, Phase::ProbeRemoved { low: (middle + 1) as usize, high, accepted: middle }), PageAction::RemoveLast)
            } else {
                let lowered = if middle > 0 { (middle - 1) as usize } else { 0usize };
                (with_phase(m, Phase::ProbeRemoved { low, high: lowered, accepted }), PageAction::RemoveLast)
            }
        },
        Phase::ProbeRemoved { low, high, accepted } => search(m, low as int, high as int, accepted as int),
        Phase::PlacedPart => {
            if m.start < block_len(m.blocks[m.block]) {
                (with_phase(finish(m), Phase::Begin), PageAction::FinishPage)
            } else {
                begin(m)
            }
        },
        Phase::Finished => (m, PageAction::Done),
    }
}

/// Position bounds of the walk.
pub open spec fn model_bounds(m: PaginatorModel) -> bool {
    &&& forall|i: int| 0 <= i < m.blocks.len() ==> block_len(#[trigger] m.blocks[i]) < usize::MAX
    &&& 0 <= m.block <= m.blocks.len()
    &&& m.block < m.blocks.len() ==> 0 <= m.start <= block_len(m.blocks[m.block])
    &&& m.block == m.blocks.len() ==> m.start == 0
    &&& m.blocks.len() <= usize::MAX
    &&& m.block < m.blocks.len() && m.blocks[m.block].atomic ==> m.start == 0 || m.start == block_len(m.blocks[m.block])
}

/// Bounds that every state of the walk keeps.
pub open spec fn model_ok(m: PaginatorModel) -> bool {
    &&& model_bounds(m)
    &&& match m.phase {
        Phase::Begin => true,
        Phase::Finished => m.block == m.blocks.len() && m.fragments.len() == 0,
        Phase::Whole => m.block < m.blocks.len() && m.start < block_len(m.blocks[m.block]),
        Phase::WholeRemoved => m.block < m.blocks.len() && m.start < block_len(m.blocks[m.block])
            && (m.blocks[m.block].atomic ==> m.start == 0),
        Phase::PlacedAtomic => m.block < m.blocks.len(),
        Phase::PlacedPart => m.block < m.blocks.len(),
        Phase::Probe { low, high, accepted, middle } => m.block < m.blocks.len()
            && !m.blocks[m.block].atomic
            && m.start < block_len(m.blocks[m.block])
            && m.start + 1 <= low <= middle <= high <= block_len(m.blocks[m.block])
            && m.start <= accepted <= block_len(m.blocks[m.block]),
        Phase::ProbeRemoved { low, high, accepted } => m.block < m.blocks.len()
            && !m.blocks[m.block].atomic
            && m.start < block_len(m.blocks[m.block])
            && m.start + 1 <= low <= block_len(m.blocks[m.block]) + 1
            && high <= block_len(m.blocks[m.block])
            && low <= high + 1
            && m.start <= accepted <= block_len(m.blocks[m.block]),
    }
}

// ---------------------------------------------------------------- laws

/// A fragment closes its block: an atomic block has one fragment, a text block
/// is closed by the fragment that reaches its end.
pub open spec fn completes(f: PageFragment, blocks: Seq<BlockModel>) -> bool {
    blocks[f.block as int].atomic || f.end as int == block_len(blocks[f.block as int])
}

/// Where the next fragment has to start after the given ones: `(block, scalar)`.
pub open spec fn pos_after(frags: Seq<PageFragment>, blocks: Seq<BlockModel>) -> (int, int) {
    if frags.len() == 0 {
        (0, 0)
    } else if completes(frags.last(), blocks) {
        (frags.last().block + 1, 0)
    } else {
        (frags.last().block as int, frags.last().end as int)
    }
}

/// A fragment starts where the previous one left off and stays inside its block:
/// a text block is cut into non-empty consecutive pieces; an atomic block is one
/// fragment from 0 to its end, or to 1 when it is forced onto a page of its own.
pub open spec fn fragment_follows(f: PageFragment, blocks: Seq<BlockModel>, pos: (int, int)) -> bool {
    &&& f.block as int == pos.0
    &&& f.start as int == pos.1
    &&& 0 <= pos.0 < blocks.len()
    &&& f.start < f.end
    &&& if blocks[f.block as int].atomic {
        f.start == 0 && (f.end as int == block_len(blocks[f.block as int]) || f.end == 1)
    } else {
        f.end as int <= block_len(blocks[f.block as int])
    }
}

/// Every fragment follows the ones before it.
#[verifier::opaque]
pub open spec fn chained(frags: Seq<PageFragment>, blocks: Seq<BlockModel>) -> bool {
    forall|k: int| 0 <= k < frags.len() ==> fragment_follows(#[trigger] frags[k], blocks, pos_after(frags.take(k), blocks))
}

/// Every fragment laid out so far: the closed pages, then the open one.
pub open spec fn all_fragments(m: PaginatorModel) -> Seq<PageFragment> {
    m.pages.flatten() + m.fragments
}

/// The position of the walk, past a block that it has finished.
pub open spec fn walk_pos(m: PaginatorModel) -> (int, int) {
    if 0 <= m.block < m.blocks.len() && m.start >= block_len(m.blocks[m.block]) {
        (m.block + 1, 0)
    } else {
        (m.block, m.start)
    }
}

/// What the walk keeps: the fragments laid out follow one another from the
/// first block on, the walk stands where they end, and no page is empty.
pub open spec fn walk_ok(m: PaginatorModel) -> bool {
    &&& model_ok(m)
    &&& chained(all_fragments(m), m.blocks)
    &&& walk_pos(m) == pos_after(all_fragments(m), m.blocks)
    &&& forall|i: int| 0 <= i < m.pages.len() ==> (#[trigger] m.pages[i]).len() > 0
    &&& (m.phase == Phase::PlacedAtomic || m.phase == Phase::PlacedPart) ==> m.fragments.len() > 0
}

proof fn lemma_chained_push(frags: Seq<PageFragment>, f: PageFragment, blocks: Seq<BlockModel>)
    requires
        chained(frags, blocks),
        fragment_follows(f, blocks, pos_after(frags, blocks)),
    ensures
        chained(frags.push(f), blocks),
{
    reveal(chained);
    let t = frags.push(f);
    assert forall|k: int| 0 <= k < t.len() implies fragment_follows(#[trigger] t[k], blocks, pos_after(t.take(k), blocks)) by {
        if k < frags.len() {
            assert(t.take(k) =~= frags.take(k));
            assert(t[k] == frags[k]);
        } else {
            assert(t.take(k) =~= frags);
        }
    }
}

proof fn lemma_finish_keeps(m: PaginatorModel)
    ensures
        all_fragments(finish(m)) == all_fragments(m),
        finish(m).blocks == m.blocks,
        finish(m).block == m.block,
        finish(m).start == m.start,
        finish(m).fragments.len() == 0,
        m.fragments.len() > 0 ==> finish(m).pages == m.pages.push(m.fragments),
        m.fragments.len() == 0 ==> finish(m).pages == m.pages,
{
    if m.fragments.len() > 0 {
        m.pages.lemma_flatten_push(m.fragments);
        assert(all_fragments(finish(m)) =~= all_fragments(m));
    }
}

proof fn lemma_finish_walk(m: PaginatorModel, phase: Phase)
    requires
        walk_ok(m),
        model_ok(with_phase(finish(m), phase)),
        phase != Phase::PlacedAtomic && phase != Phase::PlacedPart,
    ensures
        walk_ok(with_phase(finish(m), phase)),
{
    lemma_finish_keeps(m);
    let n = with_phase(finish(m), phase);
    assert forall|i: int| 0 <= i < n.pages.len() implies (#[trigger] n.pages[i]).len() > 0 by {
        if i < m.pages.len() {
            assert(n.pages[i] == m.pages[i]);
        }
    }
}

proof fn lemma_push_walk(m: PaginatorModel, f: PageFragment, n: PaginatorModel)
    requires
        walk_ok(m),
        fragment_follows(f, m.blocks, pos_after(all_fragments(m), m.blocks)),
        n.blocks == m.blocks,
        n.pages == m.pages,
        n.fragments == m.fragments.push(f),
        model_ok(n),
        walk_pos(n) == pos_after(all_fragments(m).push(f), m.blocks),
    ensures
        walk_ok(n),
{
    lemma_chained_push(all_fragments(m), f, m.blocks);
    assert(all_fragments(n) =~= all_fragments(m).push(f));
}

proof fn lemma_begin_walk(m: PaginatorModel)
    requires
        walk_ok(with_phase(m, Phase::Begin)),
    ensures
        walk_ok(begin(m).0),
        begin(m).0.pages.len() >= m.pages.len(),
{
    let m0 = with_phase(m, Phase::Begin);
    let m1 = if 0 <= m.block < m.blocks.len() && m.start >= block_len(m.blocks[m.block]) {
        PaginatorModel { block: m.block + 1, start: 0, ..m0 }
    } else {
        m0
    };
    assert(walk_ok(m1));
    if m1.block >= m1.blocks.len() {
        if m1.fragments.len() > 0 {
            lemma_finish_walk(m1, Phase::Finished);
        }
    } else if m1.blocks[m1.block].atomic && m1.fragments.len() > 0 {
        lemma_finish_walk(m1, Phase::Begin);
    }
    lemma_finish_keeps(m1);
}

proof fn lemma_whole_walk(m: PaginatorModel, fits: bool)
    requires
        walk_ok(m),
        m.phase == Phase::Whole,
    ensures
        walk_ok(step_spec(m, fits).0),
        step_spec(m, fits).0.blocks == m.blocks,
        m.pages.is_prefix_of(step_spec(m, fits).0.pages),
{
    lemma_prefix_refl(m.pages);
    let len = block_len(m.blocks[m.block]);
    if fits {
        let f = frag(m.block, m.start, len);
        let m2 = PaginatorModel { fragments: m.fragments.push(f), start: len, ..m };
        lemma_push_walk(m, f, with_phase(m2, Phase::Begin));
        if m.blocks[m.block].atomic {
            lemma_finish_walk(with_phase(m2, Phase::Begin), Phase::Begin);
            lemma_finish_keeps(m2);
        } else {
            lemma_begin_walk(m2);
            lemma_begin_pages(m2);
        }
    }
}

proof fn lemma_whole_removed_walk(m: PaginatorModel, fits: bool)
    requires
        walk_ok(m),
        m.phase == Phase::WholeRemoved,
    ensures
        walk_ok(step_spec(m, fits).0),
        step_spec(m, fits).0.blocks == m.blocks,
        m.pages.is_prefix_of(step_spec(m, fits).0.pages),
{
    lemma_prefix_refl(m.pages);
    let len = block_len(m.blocks[m.block]);
    if m.blocks[m.block].atomic {
        if m.fragments.len() > 0 {
            lemma_finish_walk(m, Phase::Begin);
            lemma_finish_keeps(m);
        } else {
            let f = frag(m.block, 0, 1);
            assert(m.start == 0);
            assert(walk_pos(m) == (m.block, 0int));
            assert(fragment_follows(f, m.blocks, pos_after(all_fragments(m), m.blocks)));
            lemma_push_walk(m, f, step_spec(m, fits).0);
        }
    } else {
        lemma_search_walk(m, m.start + 1, len, m.start);
    }
}

/// Every step keeps what the walk keeps, and pages once closed stay as they are.
pub proof fn law_step_keeps_walk(m: PaginatorModel, fits: bool)
    requires
        walk_ok(m),
    ensures
        walk_ok(step_spec(m, fits).0),
        step_spec(m, fits).0.blocks == m.blocks,
        m.pages.is_prefix_of(step_spec(m, fits).0.pages),
{
    lemma_prefix_refl(m.pages);
    match m.phase {
        Phase::Begin => {
            lemma_begin_walk(m);
            lemma_begin_pages(m);
        },
        Phase::Whole => lemma_whole_walk(m, fits),
        Phase::WholeRemoved => lemma_whole_removed_walk(m, fits),
        Phase::PlacedAtomic => {
            lemma_finish_walk(m, Phase::Begin);
            lemma_finish_keeps(m);
        },
        Phase::Probe { low, high, accepted, middle } => {},
        Phase::ProbeRemoved { low, high, accepted } => {
            lemma_search_walk(m, low as int, high as int, accepted as int);
        },
        Phase::PlacedPart => {
            if m.start < block_len(m.blocks[m.block]) {
                lemma_finish_walk(m, Phase::Begin);
                lemma_finish_keeps(m);
            } else {
                lemma_begin_walk(m);
                lemma_begin_pages(m);
            }
        },
        Phase::Finished => {},
    }
}

proof fn lemma_prefix_refl(p: Seq<Seq<PageFragment>>)
    ensures
        p.is_prefix_of(p),
        forall|f: Seq<PageFragment>| p.is_prefix_of(#[trigger] p.push(f)),
{
    assert(p.is_prefix_of(p)) by {
        assert(p.subrange(0, p.len() as int) =~= p);
    }
    assert forall|f: Seq<PageFragment>| p.is_prefix_of(#[trigger] p.push(f)) by {
        assert(p.push(f).subrange(0, p.len() as int) =~= p);
    }
}

proof fn lemma_begin_pages(m: PaginatorModel)
    ensures
        m.pages.is_prefix_of(begin(m).0.pages),
        begin(m).0.blocks == m.blocks,
{
    lemma_prefix_refl(m.pages);
}

proof fn lemma_search_walk(m: PaginatorModel, low: int, high: int, accepted: int)
    requires
        walk_ok(m),
        0 <= m.block < m.blocks.len(),
        !m.blocks[m.block].atomic,
        m.start < block_len(m.blocks[m.block]),
        m.start + 1 <= low <= block_len(m.blocks[m.block]) + 1,
        high <= block_len(m.blocks[m.block]),
        low <= high + 1,
        m.start <= accepted <= block_len(m.blocks[m.block]),
    ensures
        walk_ok(search(m, low, high, accepted).0),
        search(m, low, high, accepted).0.blocks == m.blocks,
        m.pages.is_prefix_of(search(m, low, high, accepted).0.pages),
{
    let b = m.blocks[m.block];
    let len = block_len(b);
    lemma_prefix_refl(m.pages);
    if low <= high {
    } else if accepted == m.start && m.fragments.len() > 0 {
        lemma_finish_walk(m, Phase::Begin);
        lemma_finish_keeps(m);
    } else {
        let wanted = if accepted > m.start + 1 { accepted } else { m.start + 1 };
        let capped = if wanted < len { wanted } else { len };
        let cut = spec_snap_page_break(b.text, m.start, capped, len);
        crate::reader::lemma_snap_page_break_range(b.text, m.start, capped, len);
        let f = frag(m.block, m.start, cut);
        lemma_push_walk(m, f, search(m, low, high, accepted).0);
    }
}

// ---------------------------------------------------------------- the search for the longest prefix

/// The end of the longest prefix of the rest of the current block that fits a
/// page which holds the block's scalars up to `capacity` (a page answers
/// "fits" for a prefix ending at `e` exactly when `e <= capacity`): the
/// capacity, kept between the start of the rest and the block's end.
pub open spec fn fit_limit(m: PaginatorModel, capacity: int) -> int {
    let len = block_len(m.blocks[m.block]);
    if capacity < m.start {
        m.start
    } else if capacity > len {
        len
    } else {
        capacity
    }
}

/// A search in progress for the longest prefix that fits such a page: the
/// longest fitting prefix lies between the prefix accepted so far and the upper
/// bound, and the next probe lies between the bounds.
pub open spec fn searching_for(m: PaginatorModel, capacity: int) -> bool {
    match m.phase {
        Phase::Probe { low, high, accepted, middle } => {
            &&& low == accepted + 1
            &&& accepted <= fit_limit(m, capacity) <= high
            &&& low <= middle <= high
        },
        Phase::ProbeRemoved { low, high, accepted } => {
            &&& low == accepted + 1
            &&& accepted <= fit_limit(m, capacity) <= high
        },
        _ => false,
    }
}

/// A text block that does not fit whole starts a search, from nothing accepted
/// up to the block's end, which contains the longest fitting prefix whatever
/// the page holds.
pub proof fn law_search_starts(m: PaginatorModel, fits: bool, capacity: int)
    requires
        model_ok(m),
        m.phase == Phase::WholeRemoved,
        !m.blocks[m.block].atomic,
    ensures
        step_spec(m, fits).0.phase is Probe,
        searching_for(step_spec(m, fits).0, capacity),
        fit_limit(step_spec(m, fits).0, capacity) == fit_limit(m, capacity),
{
}

/// The answer to a probe narrows the search without losing the longest prefix
/// that fits: a probe that fits becomes the accepted prefix and the upper
/// bound stays; a probe that does not fit lowers the upper bound below it.
pub proof fn law_probe_narrows_search(m: PaginatorModel, capacity: int)
    requires
        model_ok(m),
        searching_for(m, capacity),
        m.phase is Probe,
    ensures
        ({
            let fits = m.phase->Probe_middle as int <= capacity;
            let n = step_spec(m, fits).0;
            &&& n.phase is ProbeRemoved
            &&& searching_for(n, capacity)
            &&& fit_limit(n, capacity) == fit_limit(m, capacity)
            &&& fits ==> n.phase->ProbeRemoved_accepted == m.phase->Probe_middle
                && n.phase->ProbeRemoved_high == m.phase->Probe_high
            &&& !fits ==> n.phase->ProbeRemoved_accepted == m.phase->Probe_accepted
                && n.phase->ProbeRemoved_high + 1 == m.phase->Probe_middle
        }),
{
}

/// While the bounds leave room, the search probes a prefix between them.
pub proof fn law_search_continues(m: PaginatorModel, fits: bool, capacity: int)
    requires
        model_ok(m),
        searching_for(m, capacity),
        m.phase matches Phase::ProbeRemoved { low, high, accepted } && low <= high,
    ensures
        step_spec(m, fits).0.phase is Probe,
        searching_for(step_spec(m, fits).0, capacity),
        fit_limit(step_spec(m, fits).0, capacity) == fit_limit(m, capacity),
        step_spec(m, fits).1 == (PageAction::Measure {
            block: m.block as usize,
            start: m.start as usize,
            end: step_spec(m, fits).0.phase->Probe_middle,
        }),
{
}

/// When the search is over, the accepted prefix is the longest one that fits;
/// the page is closed when nothing fits on a used page, and otherwise the piece
/// placed is that prefix (at least one scalar) moved back to a word break.
pub proof fn law_search_ends_at_longest_fit(m: PaginatorModel, fits: bool, capacity: int)
    requires
        model_ok(m),
        searching_for(m, capacity),
        m.phase matches Phase::ProbeRemoved { low, high, accepted } && low > high,
    ensures
        m.phase->ProbeRemoved_accepted == fit_limit(m, capacity),
        fit_limit(m, capacity) == m.start && m.fragments.len() > 0 ==> step_spec(m, fits).1 == PageAction::FinishPage,
        !(fit_limit(m, capacity) == m.start && m.fragments.len() > 0) ==> ({
            let len = block_len(m.blocks[m.block]);
            let wanted = if fit_limit(m, capacity) > m.start + 1 { fit_limit(m, capacity) } else { m.start + 1 };
            let capped = if wanted < len { wanted } else { len };
            step_spec(m, fits).1 == (PageAction::Place {
                block: m.block as usize,
                start: m.start as usize,
                end: spec_snap_page_break(m.blocks[m.block].text, m.start, capped, len) as usize,
            })
        }),
{
}

/// A walk that has just begun keeps what the walk keeps.
pub proof fn law_new_walk(blocks: Seq<BlockModel>)
    requires
        forall|i: int| 0 <= i < blocks.len() ==> block_len(#[trigger] blocks[i]) < usize::MAX,
        blocks.len() <= usize::MAX,
    ensures
        walk_ok(PaginatorModel { blocks, pages: Seq::empty(), fragments: Seq::empty(), block: 0, start: 0, phase: Phase::Begin }),
{
    let m = PaginatorModel { blocks, pages: Seq::empty(), fragments: Seq::empty(), block: 0, start: 0, phase: Phase::Begin };
    assert(all_fragments(m) =~= Seq::<PageFragment>::empty());
    reveal(chained);
}

/// When the walk is over, the pages hold every block: the fragments, page after
/// page, follow one another from the first block to past the last one.
pub proof fn law_finished_covers_all_blocks(m: PaginatorModel)
    requires
        walk_ok(m),
        m.phase == Phase::Finished,
    ensures
        m.fragments.len() == 0,
        chained(m.pages.flatten(), m.blocks),
        pos_after(m.pages.flatten(), m.blocks) == (m.blocks.len() as int, 0int),
{
    assert(all_fragments(m) =~= m.pages.flatten());
}

/// Positions of the blocks from `b` on.
pub open spec fn positions_from(blocks: Seq<BlockModel>, b: int) -> int
    decreases blocks.len() - b,
{
    if b < 0 || b >= blocks.len() {
        0
    } else {
        block_len(blocks[b]) + positions_from(blocks, b + 1)
    }
}

/// Positions not yet laid out.
pub open spec fn remaining(m: PaginatorModel) -> int {
    if 0 <= m.block < m.blocks.len() {
        positions_from(m.blocks, m.block) - m.start
    } else {
        0
    }
}

pub open spec fn phase_rank(p: Phase) -> int {
    match p {
        Phase::Finished => 0,
        Phase::Probe { .. } => 2,
        Phase::ProbeRemoved { .. } => 3,
        Phase::WholeRemoved => 5,
        Phase::Whole => 6,
        Phase::Begin => 7,
        Phase::PlacedPart => 8,
        Phase::PlacedAtomic => 9,
    }
}

/// Candidates left to the binary search; more than any search has outside one.
pub open spec fn search_width(p: Phase) -> int {
    match p {
        Phase::Probe { low, high, .. } => high - low + 1,
        Phase::ProbeRemoved { low, high, .. } => high - low + 1,
        _ => usize::MAX + 1,
    }
}

/// How far the walk is from its end, compared lexicographically: positions left,
/// whether a page is open, candidates left to the search, and the phase.
pub open spec fn progress_measure(m: PaginatorModel) -> (int, int, int, int) {
    (remaining(m), if m.fragments.len() > 0 { 1int } else { 0int }, search_width(m.phase), phase_rank(m.phase))
}

pub open spec fn lex_lt(a: (int, int, int, int), b: (int, int, int, int)) -> bool {
    a.0 < b.0 || (a.0 == b.0 && (a.1 < b.1 || (a.1 == b.1 && (a.2 < b.2 || (a.2 == b.2 && a.3 < b.3)))))
}

proof fn lemma_positions_nonneg(blocks: Seq<BlockModel>, b: int)
    ensures
        positions_from(blocks, b) >= 0,
        0 <= b < blocks.len() ==> positions_from(blocks, b) >= block_len(blocks[b]),
    decreases blocks.len() - b,
{
    if 0 <= b < blocks.len() {
        lemma_positions_nonneg(blocks, b + 1);
    }
}

proof fn lemma_measure_nonneg(m: PaginatorModel)
    requires
        walk_ok(m),
    ensures
        progress_measure(m).0 >= 0,
        progress_measure(m).1 >= 0,
        progress_measure(m).2 >= 0,
        progress_measure(m).3 >= 0,
{
    lemma_positions_nonneg(m.blocks, m.block);
}

proof fn lemma_begin_progress(m: PaginatorModel, old_m: PaginatorModel)
    requires
        walk_ok(with_phase(m, Phase::Begin)),
        remaining(m) < remaining(old_m)
            || (remaining(m) == remaining(old_m) && m.fragments.len() > 0 && old_m.fragments.len() > 0
                && search_width(old_m.phase) == usize::MAX + 1 && phase_rank(old_m.phase) > phase_rank(Phase::Whole)),
    ensures
        begin(m).0.phase == Phase::Finished || lex_lt(progress_measure(begin(m).0), progress_measure(old_m)),
{
    lemma_positions_nonneg(m.blocks, m.block + 1);
    lemma_finish_keeps(m);
    let m1 = if 0 <= m.block < m.blocks.len() && m.start >= block_len(m.blocks[m.block]) {
        PaginatorModel { block: m.block + 1, start: 0, ..m }
    } else {
        m
    };
    assert(remaining(m1) == remaining(m));
    lemma_finish_keeps(m1);
}

/// Every step of a walk that is not over brings it closer to its end: the
/// measure falls in lexicographic order and no component is negative, so a walk
/// ends after finitely many steps whatever the browser answers.
pub proof fn law_step_progresses(m: PaginatorModel, fits: bool)
    requires
        walk_ok(m),
        m.phase != Phase::Finished,
    ensures
        step_spec(m, fits).0.phase == Phase::Finished
            || lex_lt(progress_measure(step_spec(m, fits).0), progress_measure(m)),
        progress_measure(m).0 >= 0 && progress_measure(m).1 >= 0 && progress_measure(m).2 >= 0 && progress_measure(m).3 >= 0,
{
    lemma_measure_nonneg(m);
    lemma_positions_nonneg(m.blocks, m.block);
    lemma_positions_nonneg(m.blocks, m.block + 1);
    match m.phase {
        Phase::Begin => {
            let m1 = if 0 <= m.block < m.blocks.len() && m.start >= block_len(m.blocks[m.block]) {
                PaginatorModel { block: m.block + 1, start: 0, ..m }
            } else {
                m
            };
            assert(remaining(m1) == remaining(m));
            lemma_finish_keeps(m1);
        },
        Phase::Whole => {
            let len = block_len(m.blocks[m.block]);
            if fits {
                let f = frag(m.block, m.start, len);
                let m2 = PaginatorModel { fragments: m.fragments.push(f), start: len, ..m };
                lemma_push_walk(m, f, with_phase(m2, Phase::Begin));
                assert(remaining(m2) < remaining(m));
                lemma_finish_keeps(m2);
                if !m.blocks[m.block].atomic {
                    lemma_begin_progress(m2, m);
                }
            }
        },
        Phase::WholeRemoved => {
            lemma_finish_keeps(m);
        },
        Phase::PlacedAtomic => {
            lemma_finish_keeps(m);
        },
        Phase::Probe { low, high, accepted, middle } => {},
        Phase::ProbeRemoved { low, high, accepted } => {
            lemma_finish_keeps(m);
            let b = m.blocks[m.block];
            let len = block_len(b);
            if low > high && !(accepted == m.start && m.fragments.len() > 0) {
                let wanted = if accepted > m.start + 1 { accepted as int } else { m.start + 1 };
                let capped = if wanted < len { wanted } else { len };
                crate::reader::lemma_snap_page_break_range(b.text, m.start, capped, len);
            }
        },
        Phase::PlacedPart => {
            lemma_finish_keeps(m);
            if m.start >= block_len(m.blocks[m.block]) {
                lemma_begin_progress(m, m);
            }
        },
        Phase::Finished => {},
    }
}

/// A finished walk stays finished and answers `Done`.
pub proof fn law_finished_is_done(m: PaginatorModel, fits: bool)
    requires
        m.phase == Phase::Finished,
    ensures
        step_spec(m, fits) == (m, PageAction::Done),
{
}

// ---------------------------------------------------------------- exec

pub struct Paginator {
    blocks: Vec<LayoutBlock>,
    lens: Vec<usize>,
    pages: Vec<Vec<PageFragment>>,
    fragments: Vec<PageFragment>,
    block: usize,
    start: usize,
    phase: Phase,
}

pub open spec fn block_model(b: LayoutBlock) -> BlockModel {
    BlockModel { text: b.text@, atomic: b.atomic }
}

impl View for Paginator {
    type V = PaginatorModel;

    closed spec fn view(&self) -> PaginatorModel {
        PaginatorModel {
            blocks: self.blocks@.map_values(|b: LayoutBlock| block_model(b)),
            pages: self.pages@.map_values(|p: Vec<PageFragment>| p@),
            fragments: self.fragments@,
            block: self.block as int,
            start: self.start as int,
            phase: self.phase,
        }
    }
}

impl Paginator {
    /// The lengths kept beside the blocks agree with them, and the state is in bounds.
    pub closed spec fn wf(&self) -> bool {
        &&& self.wf_core()
        &&& model_ok(self@)
    }

    closed spec fn wf_core(&self) -> bool {
        &&& self.lens@.len() == self.blocks@.len()
        &&& forall|i: int| 0 <= i < self.lens@.len() ==> #[trigger] self.lens@[i] as int == block_len(block_model(self.blocks@[i]))
        &&& model_bounds(self@)
    }

    /// A walk over `blocks` that has not started yet.
    pub fn new(blocks: Vec<LayoutBlock>) -> (r: Self)
        requires
            forall|i: int| 0 <= i < blocks@.len() ==> (#[trigger] blocks@[i]).text@.len() < usize::MAX,
        ensures
            r.wf(),
            r@.blocks == blocks@.map_values(|b: LayoutBlock| block_model(b)),
            r@.pages.len() == 0,
            r@.fragments.len() == 0,
            r@.block == 0,
            r@.start == 0,
            r@.phase == Phase::Begin,
    {
        let mut lens: Vec<usize> = Vec::new();
        let mut i: usize = 0;
        while i < blocks.len()
            invariant
                i <= blocks@.len(),
                lens@.len() == i,
                forall|k: int| 0 <= k < blocks@.len() ==> (#[trigger] blocks@[k]).text@.len() < usize::MAX,
                forall|k: int| 0 <= k < i ==> #[trigger] lens@[k] as int == block_len(block_model(blocks@[k])),
            decreases blocks.len() - i,
        {
            let count = chars_of(blocks[i].text.as_str()).len();
            lens.push(if count == 0 { 1 } else { count });
            i += 1;
        }
        let r = Paginator { blocks, lens, pages: Vec::new(), fragments: Vec::new(), block: 0, start: 0, phase: Phase::Begin };
        proof {
            let m = r@;
            assert forall|k: int| 0 <= k < m.blocks.len() implies block_len(#[trigger] m.blocks[k]) < usize::MAX by {
                assert(m.blocks[k] == block_model(r.blocks@[k]));
            }
            assert(m.pages =~= Seq::<Seq<PageFragment>>::empty());
        }
        r
    }

    /// The pages closed so far.
    pub fn pages(&self) -> (r: &Vec<Vec<PageFragment>>)
        ensures
            r@.map_values(|p: Vec<PageFragment>| p@) == self@.pages,
    {
        &self.pages
    }

    fn finish_page(&mut self)
        ensures
            final(self)@ == finish(old(self)@),
            final(self).lens == old(self).lens,
            final(self).blocks == old(self).blocks,
    {
        if self.fragments.len() > 0 {
            let mut taken: Vec<PageFragment> = Vec::new();
            core::mem::swap(&mut taken, &mut self.fragments);
            self.pages.push(taken);
            proof {
                assert(self@.pages =~= old(self)@.pages.push(old(self)@.fragments));
                assert(self@.fragments =~= Seq::<PageFragment>::empty());
            }
        }
    }

    proof fn lemma_view_block(&self, i: int)
        requires
            self.wf_core(),
            0 <= i < self.blocks@.len(),
        ensures
            self@.blocks[i] == block_model(self.blocks@[i]),
            self.lens@[i] as int == block_len(self@.blocks[i]),
            self.lens@[i] < usize::MAX,
    {
    }

    fn begin_exec(&mut self) -> (action: PageAction)
        requires
            old(self).wf_core(),
        ensures
            final(self).wf(),
            (final(self)@, action) == begin(old(self)@),
    {
        let ghost m0 = self@;
        if self.block < self.blocks.len() {
            proof {
                self.lemma_view_block(self.block as int);
            }
            if self.start >= self.lens[self.block] {
                self.block = self.block + 1;
                self.start = 0;
            }
        }
        let ghost m1 = self@;
        proof {
            assert(m1.blocks == m0.blocks);
        }
        if self.block >= self.blocks.len() {
            if self.fragments.len() > 0 {
                self.finish_page();
                self.phase = Phase::Finished;
                return PageAction::FinishPage;
            } else {
                self.phase = Phase::Finished;
                return PageAction::Done;
            }
        }
        proof {
            self.lemma_view_block(self.block as int);
        }
        if self.blocks[self.block].atomic && self.fragments.len() > 0 {
            self.finish_page();
            self.phase = Phase::Begin;
            PageAction::FinishPage
        } else {
            self.phase = Phase::Whole;
            PageAction::Measure { block: self.block, start: self.start, end: self.lens[self.block] }
        }
    }

    fn search_exec(&mut self, low: usize, high: usize, accepted: usize) -> (action: PageAction)
        requires
            old(self).wf_core(),
            old(self).block < old(self).blocks@.len(),
            !old(self)@.blocks[old(self).block as int].atomic,
            old(self).start < old(self).lens@[old(self).block as int],
            old(self).start + 1 <= low <= old(self).lens@[old(self).block as int] + 1,
            high <= old(self).lens@[old(self).block as int],
            low <= high + 1,
            old(self).start <= accepted <= old(self).lens@[old(self).block as int],
        ensures
            final(self).wf(),
            (final(self)@, action) == search(old(self)@, low as int, high as int, accepted as int),
    {
        proof {
            self.lemma_view_block(self.block as int);
        }
        let len = self.lens[self.block];
        if low <= high {
            let middle = low + (high - low) / 2;
            self.phase = Phase::Probe { low, high, accepted, middle };
            return PageAction::Measure { block: self.block, start: self.start, end: middle };
        }
        if accepted == self.start && self.fragments.len() > 0 {
            self.finish_page();
            self.phase = Phase::Begin;
            return PageAction::FinishPage;
        }
        let wanted = if accepted > self.start + 1 { accepted } else { self.start + 1 };
        let capped = if wanted < len { wanted } else { len };
        let cut = snap_page_break(self.blocks[self.block].text.as_str(), self.start, capped, len);
        proof {
            crate::reader::lemma_snap_page_break_range(self@.blocks[self.block as int].text, self.start as int, capped as int, len as int);
        }
        let start = self.start;
        self.fragments.push(PageFragment { block: self.block, start, end: cut });
        self.start = cut;
        self.phase = Phase::PlacedPart;
        PageAction::Place { block: self.block, start, end: cut }
    }

    /// The next thing to do, given whether the page still fitted after the last
    /// `Measure` (the answer is not read after other actions).
    pub fn step(&mut self, fits: bool) -> (action: PageAction)
        requires
            old(self).wf(),
        ensures
            final(self).wf(),
            (final(self)@, action) == step_spec(old(self)@, fits),
    {
        match self.phase {
            Phase::Begin => self.begin_exec(),
            Phase::Whole => {
                proof {
                    self.lemma_view_block(self.block as int);
                }
                let len = self.lens[self.block];
                if fits {
                    let start = self.start;
                    self.fragments.push(PageFragment { block: self.block, start, end: len });
                    self.start = len;
                    if self.blocks[self.block].atomic {
                        self.finish_page();
                        self.phase = Phase::Begin;
                        PageAction::FinishPage
                    } else {
                        self.begin_exec()
                    }
                } else {
                    self.phase = Phase::WholeRemoved;
                    PageAction::RemoveLast
                }
            },
            Phase::WholeRemoved => {
                proof {
                    self.lemma_view_block(self.block as int);
                }
                let len = self.lens[self.block];
                if self.blocks[self.block].atomic {
                    if self.fragments.len() > 0 {
                        self.finish_page();
                        self.phase = Phase::Begin;
                        PageAction::FinishPage
                    } else {
                        let start = self.start;
                        self.fragments.push(PageFragment { block: self.block, start: 0, end: 1 });
                        self.start = len;
                        self.phase = Phase::PlacedAtomic;
                        PageAction::Place { block: self.block, start, end: len }
                    }
                } else {
                    let start = self.start;
                    self.search_exec(start + 1, len, start)
                }
            },
            Phase::PlacedAtomic => {
                self.finish_page();
                self.phase = Phase::Begin;
                PageAction::FinishPage
            },
            Phase::Probe { low, high, accepted, middle } => {
                if fits {
                    self.phase = Phase::ProbeRemoved { low: middle + 1, high, accepted: middle };
                } else {
                    self.phase = Phase::ProbeRemoved { low, high: middle.saturating_sub(1), accepted };
                }
                PageAction::RemoveLast
            },
            Phase::ProbeRemoved { low, high, accepted } => self.search_exec(low, high, accepted),
            Phase::PlacedPart => {
                proof {
                    self.lemma_view_block(self.block as int);
                }
                if self.start < self.lens[self.block] {
                    self.finish_page();
                    self.phase = Phase::Begin;
                    PageAction::FinishPage
                } else {
                    self.begin_exec()
                }
            },
            Phase::Finished => PageAction::Done,
        }
    }
}

} // verus!
