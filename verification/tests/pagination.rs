use lumi_web::paginate::{LayoutBlock, PageAction, PageFragment, Paginator};

/// Runs a walk against a page that holds `capacity` units: a text piece takes
/// one unit per scalar, an atomic block `atomic_size` units.
fn paginate(blocks: &[(&str, bool)], capacity: usize, atomic_size: usize) -> (Vec<Vec<(usize, usize, usize)>>, Vec<PageAction>) {
    let layout: Vec<LayoutBlock> = blocks.iter().map(|(t, a)| LayoutBlock { text: t.to_string(), atomic: *a }).collect();
    let mut paginator = Paginator::new(layout);
    let mut page: Vec<usize> = Vec::new();
    let mut fits = true;
    let mut actions = Vec::new();
    let size = |block: usize, start: usize, end: usize| if blocks[block].1 { atomic_size } else { end - start };
    for _ in 0..10_000 {
        let action = paginator.step(fits);
        actions.push(action);
        match action {
            PageAction::Measure { block, start, end } => {
                page.push(size(block, start, end));
                fits = page.iter().sum::<usize>() <= capacity;
            }
            PageAction::Place { block, start, end } => page.push(size(block, start, end)),
            PageAction::RemoveLast => {
                page.pop();
            }
            PageAction::FinishPage => page.clear(),
            PageAction::Done => break,
        }
    }
    assert_eq!(actions.last(), Some(&PageAction::Done));
    let pages = paginator
        .pages()
        .iter()
        .map(|p| p.iter().map(|f: &PageFragment| (f.block, f.start, f.end)).collect())
        .collect();
    (pages, actions)
}

#[test]
fn long_text_is_cut_at_word_breaks() {
    let (pages, _) = paginate(&[("hello world foo", false), ("bar", false)], 10, 5);
    assert_eq!(pages, vec![vec![(0, 0, 6)], vec![(0, 6, 15), (1, 0, 1)], vec![(1, 1, 3)]]);
}

#[test]
fn atomic_blocks_start_a_page_of_their_own() {
    let (pages, _) = paginate(&[("intro text", false), ("", true), ("end", false)], 12, 5);
    assert_eq!(pages, vec![vec![(0, 0, 10)], vec![(1, 0, 1)], vec![(2, 0, 3)]]);
}

#[test]
fn an_atomic_block_too_large_is_placed_alone() {
    let (pages, actions) = paginate(&[("", true)], 3, 5);
    assert_eq!(pages, vec![vec![(0, 0, 1)]]);
    assert_eq!(
        actions,
        vec![
            PageAction::Measure { block: 0, start: 0, end: 1 },
            PageAction::RemoveLast,
            PageAction::Place { block: 0, start: 0, end: 1 },
            PageAction::FinishPage,
            PageAction::Done,
        ]
    );
}

#[test]
fn no_blocks_give_no_pages() {
    let (pages, actions) = paginate(&[], 10, 5);
    assert!(pages.is_empty());
    assert_eq!(actions, vec![PageAction::Done]);
}

#[test]
fn every_block_is_covered_in_order() {
    let blocks = [("one two three four five six", false), ("x", true), ("seven eight", false), ("", false)];
    for capacity in 1..20 {
        let (pages, _) = paginate(&blocks, capacity, 4);
        let flat: Vec<(usize, usize, usize)> = pages.iter().flatten().cloned().collect();
        assert!(pages.iter().all(|p| !p.is_empty()));
        let mut expected_block = 0;
        let mut expected_start = 0;
        for (block, start, end) in flat {
            assert_eq!((block, start), (expected_block, expected_start));
            assert!(start < end);
            let len = blocks[block].0.chars().count().max(1);
            if blocks[block].1 || end == len {
                expected_block += 1;
                expected_start = 0;
            } else {
                expected_start = end;
            }
        }
        assert_eq!(expected_block, blocks.len());
    }
}
