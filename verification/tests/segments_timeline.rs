use lumi_web::annotation::{HighlightStyle, MarkKind};
use lumi_web::segments::{annotation_segments, Mark, ScalarRange};
use lumi_web::timeline::{merge_activity_pages, merge_chat_pages, merge_discussion_pages, TimelineEntry, TimelinePage};

fn seg(text: &str, start: usize, class: &str, link: Option<usize>) -> (String, usize, String, Option<usize>) {
    (text.to_string(), start, class.to_string(), link)
}

#[test]
fn segments_split_at_mark_and_link_changes() {
    let marks = vec![
        Mark { range: ScalarRange { start: 0, end: 5 }, kind: MarkKind::Highlight(HighlightStyle::Yellow) },
        Mark { range: ScalarRange { start: 3, end: 8 }, kind: MarkKind::Note },
    ];
    let links = vec![ScalarRange { start: 6, end: 11 }];
    let out = annotation_segments("Hello world", ScalarRange { start: 0, end: 11 }, &marks, &links);
    let got: Vec<_> = out.iter().map(|s| (s.text.clone(), s.scalar_start, s.class_name.clone(), s.link_index)).collect();
    assert_eq!(
        got,
        vec![
            seg("Hel", 0, "annotation-highlight", None),
            seg("lo", 3, "annotation-highlight annotation-note", None),
            seg(" ", 5, "annotation-note", None),
            seg("wo", 6, "annotation-note", Some(0)),
            seg("rld", 8, "", Some(0)),
        ]
    );
}

#[test]
fn segments_show_each_class_once_and_the_last_link() {
    let marks = vec![
        Mark { range: ScalarRange { start: 0, end: 4 }, kind: MarkKind::Highlight(HighlightStyle::Bold) },
        Mark { range: ScalarRange { start: 1, end: 3 }, kind: MarkKind::Highlight(HighlightStyle::Bold) },
        Mark { range: ScalarRange { start: 2, end: 4 }, kind: MarkKind::VoiceNote },
    ];
    let links = vec![ScalarRange { start: 0, end: 4 }, ScalarRange { start: 2, end: 3 }];
    let out = annotation_segments("abcd", ScalarRange { start: 0, end: 4 }, &marks, &links);
    let got: Vec<_> = out.iter().map(|s| (s.text.clone(), s.scalar_start, s.class_name.clone(), s.link_index)).collect();
    assert_eq!(
        got,
        vec![
            seg("ab", 0, "annotation-highlight-bold", Some(0)),
            seg("c", 2, "annotation-highlight-bold annotation-voice", Some(1)),
            seg("d", 3, "annotation-highlight-bold annotation-voice", Some(0)),
        ]
    );
}

#[test]
fn segments_cover_only_the_visible_range() {
    let marks = vec![Mark { range: ScalarRange { start: 0, end: 3 }, kind: MarkKind::Highlight(HighlightStyle::Green) }];
    let out = annotation_segments("привет мир", ScalarRange { start: 2, end: 8 }, &marks, &vec![]);
    let got: Vec<_> = out.iter().map(|s| (s.text.clone(), s.scalar_start, s.class_name.clone(), s.link_index)).collect();
    assert_eq!(got, vec![seg("и", 2, "annotation-highlight-green", None), seg("вет м", 3, "", None)]);
    let joined: String = out.iter().map(|s| s.text.clone()).collect();
    assert_eq!(joined, "ивет м");
    assert!(annotation_segments("abc", ScalarRange { start: 5, end: 9 }, &marks, &vec![]).is_empty());
    assert!(annotation_segments("", ScalarRange { start: 0, end: 1 }, &marks, &vec![]).is_empty());
}

fn entry(created_at: i64, id: u128, item: &str) -> TimelineEntry<String> {
    TimelineEntry { created_at, id, item: item.to_string() }
}

fn ids(page: &TimelinePage<String>) -> Vec<(i64, u128, String)> {
    page.entries.iter().map(|e| (e.created_at, e.id, e.item.clone())).collect()
}

#[test]
fn chat_pages_merge_by_id_and_sort() {
    let existing = TimelinePage { entries: vec![entry(5, 2, "b"), entry(1, 1, "a")], next_cursor: Some("old".to_string()) };
    let incoming = TimelinePage { entries: vec![entry(5, 2, "b2"), entry(3, 3, "c")], next_cursor: Some("new".to_string()) };
    let merged = merge_chat_pages(Some(existing), incoming, true);
    assert_eq!(ids(&merged), vec![(1, 1, "a".to_string()), (3, 3, "c".to_string()), (5, 2, "b2".to_string())]);
    // Three entries against two incoming: the shown cursor is kept.
    assert_eq!(merged.next_cursor, Some("old".to_string()));
}

#[test]
fn merged_cursor_follows_the_incoming_page_unless_preserved() {
    let existing = TimelinePage { entries: vec![entry(1, 1, "a")], next_cursor: Some("old".to_string()) };
    let incoming = TimelinePage { entries: vec![entry(2, 2, "b")], next_cursor: None };
    let merged = merge_discussion_pages(Some(existing), incoming, false);
    assert_eq!(merged.next_cursor, None);
    let existing = TimelinePage { entries: vec![entry(1, 1, "a")], next_cursor: Some("old".to_string()) };
    let incoming = TimelinePage { entries: vec![entry(1, 1, "a2")], next_cursor: Some("n".to_string()) };
    let merged = merge_discussion_pages(Some(existing), incoming, true);
    assert_eq!(merged.next_cursor, Some("n".to_string()));
    assert_eq!(ids(&merged), vec![(1, 1, "a2".to_string())]);
}

#[test]
fn first_page_is_taken_as_it_is() {
    let incoming = TimelinePage { entries: vec![entry(9, 1, "z"), entry(1, 2, "a")], next_cursor: Some("c".to_string()) };
    let merged = merge_chat_pages(None, incoming, true);
    assert_eq!(ids(&merged), vec![(9, 1, "z".to_string()), (1, 2, "a".to_string())]);
    assert_eq!(merged.next_cursor, Some("c".to_string()));
}

#[test]
fn equal_times_are_ordered_by_id() {
    let existing = TimelinePage { entries: vec![entry(4, 9, "x")], next_cursor: None };
    let incoming = TimelinePage { entries: vec![entry(4, 3, "y"), entry(2, 10, "w")], next_cursor: None };
    let merged = merge_chat_pages(Some(existing), incoming, false);
    assert_eq!(ids(&merged), vec![(2, 10, "w".to_string()), (4, 3, "y".to_string()), (4, 9, "x".to_string())]);
}

#[test]
fn merging_the_same_page_twice_changes_nothing() {
    let existing = TimelinePage { entries: vec![entry(3, 1, "a"), entry(1, 2, "b")], next_cursor: Some("e".to_string()) };
    let page = || TimelinePage { entries: vec![entry(2, 3, "c"), entry(3, 1, "a2")], next_cursor: Some("p".to_string()) };
    let once = merge_chat_pages(Some(existing), page(), true);
    let once_ids = ids(&once);
    let once_cursor = once.next_cursor.clone();
    let twice = merge_chat_pages(Some(once), page(), true);
    assert_eq!(ids(&twice), once_ids);
    assert_eq!(twice.next_cursor, once_cursor);
}

#[test]
fn activity_keeps_events_already_shown() {
    let existing = TimelinePage { entries: vec![entry(2, 1, "joined")], next_cursor: Some("e".to_string()) };
    let incoming = TimelinePage { entries: vec![entry(2, 1, "changed"), entry(1, 2, "created")], next_cursor: Some("n".to_string()) };
    let merged = merge_activity_pages(Some(existing), incoming, true);
    assert_eq!(ids(&merged), vec![(1, 2, "created".to_string()), (2, 1, "joined".to_string())]);
    assert_eq!(merged.next_cursor, Some("n".to_string()));
}
