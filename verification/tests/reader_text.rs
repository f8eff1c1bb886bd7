use lumi_web::reader::{
    backlink_action, children_utf16_length, layout_changed, link_activation, link_target_action,
    measurement_tag, atomic_block_height, non_empty, note_submission, page_unit_id, parse_tags,
    safe_external_url, scalar_slice, selection_error_notice, selection_label, selection_offset,
    snap_page_break, suggestions_still_current, unfinished_wikilink_query,
    insert_wikilink_suggestion, utf16_offset, BlockKind, DocNode, LayoutSettings, LinkActivation,
    LinkTargetAction, ReadingLinkKind,
};
use lumi_web::reader_view::ReaderWidth;
use lumi_web::text::scalar_offset_from_utf16;

#[test]
fn reader_tags_are_trimmed_deduplicated_and_limited() {
    assert_eq!(parse_tags("a, b,A ,, c", 10), vec!["a".to_string(), "b".to_string(), "c".to_string()]);
    assert_eq!(parse_tags("a, b, c", 2), vec!["a".to_string(), "b".to_string()]);
    assert_eq!(parse_tags("x, X, y", 0), vec!["x".to_string(), "y".to_string()]);
    assert_eq!(parse_tags(" , ,", 5), Vec::<String>::new());
    // Non-ASCII case differences are not duplicates for the reflowable reader.
    assert_eq!(parse_tags("Тег, тег", 5), vec!["Тег".to_string(), "тег".to_string()]);
}

#[test]
fn reader_non_empty_keeps_text_as_is() {
    assert_eq!(non_empty(""), None);
    assert_eq!(non_empty(" x "), Some(" x ".to_string()));
}

#[test]
fn scalar_slice_takes_scalars() {
    assert_eq!(scalar_slice("привет", 1, 3), "ри");
    assert_eq!(scalar_slice("привет", 4, 100), "ет");
    assert_eq!(scalar_slice("привет", 10, 12), "");
    assert_eq!(scalar_slice("привет", 3, 2), "");
}

#[test]
fn utf16_offsets_count_surrogate_pairs() {
    assert_eq!(utf16_offset("a😀b", 0), 0);
    assert_eq!(utf16_offset("a😀b", 2), 3);
    assert_eq!(utf16_offset("a😀b", 9), 4);
}

#[test]
fn utf16_boundaries_map_back_to_scalars() {
    assert_eq!(scalar_offset_from_utf16("a😀b", 3), Ok(2));
    assert_eq!(scalar_offset_from_utf16("a😀b", 4), Ok(3));
    assert_eq!(scalar_offset_from_utf16("", 0), Ok(0));
    assert_eq!(
        scalar_offset_from_utf16("a😀b", 2),
        Err("Граница Selection попала внутрь Unicode scalar".to_string())
    );
    assert_eq!(
        scalar_offset_from_utf16("a😀b", 5),
        Err("Граница Selection выходит за пределы fragment".to_string())
    );
}

#[test]
fn utf16_round_trip_on_every_boundary() {
    let text = "ж😀x🎉 end";
    let count = text.chars().count();
    for k in 0..=count {
        let u = utf16_offset(text, k);
        assert_eq!(scalar_offset_from_utf16(text, u), Ok(k));
    }
}

#[test]
fn page_breaks_snap_back_to_word_boundaries() {
    let text = "hello world foo";
    assert_eq!(snap_page_break(text, 0, 8, 15), 6);
    assert_eq!(snap_page_break(text, 0, 5, 15), 5);
    assert_eq!(snap_page_break(text, 0, 15, 15), 15);
    assert_eq!(snap_page_break(text, 0, 20, 15), 15);
    // No break after the page's start: the accepted position stays.
    assert_eq!(snap_page_break("abcdefgh", 0, 4, 8), 4);
    assert_eq!(snap_page_break(text, 7, 9, 15), 9);
}

#[test]
fn unfinished_wikilink_queries() {
    assert_eq!(unfinished_wikilink_query("see [[Foo ba"), Some("Foo ba".to_string()));
    assert_eq!(unfinished_wikilink_query("see [[ Foo ]"), Some("Foo ]".to_string()));
    assert_eq!(unfinished_wikilink_query("see [[Foo]] x"), None);
    assert_eq!(unfinished_wikilink_query("[[   "), None);
    assert_eq!(unfinished_wikilink_query("a [[x\ny"), None);
    assert_eq!(unfinished_wikilink_query("no link"), None);
    assert_eq!(unfinished_wikilink_query("[[a]] and [[b"), Some("b".to_string()));
    let long = format!("[[{}", "x".repeat(1001));
    assert_eq!(unfinished_wikilink_query(&long), None);
    let edge = format!("[[{}", "x".repeat(1000));
    assert_eq!(unfinished_wikilink_query(&edge), Some("x".repeat(1000)));
}

#[test]
fn inserting_a_suggestion_finishes_the_link() {
    let mut draft = "see [[Fo".to_string();
    insert_wikilink_suggestion(&mut draft, "Foo/Bar");
    assert_eq!(draft, "see [[Foo/Bar]]");
    assert_eq!(unfinished_wikilink_query(&draft), None);
    let mut plain = "no link here".to_string();
    insert_wikilink_suggestion(&mut plain, "X");
    assert_eq!(plain, "no link here");
    let mut nested = "[[a".to_string();
    insert_wikilink_suggestion(&mut nested, "b[[c");
    assert_eq!(nested, "[[b[[c]]");
    assert_eq!(unfinished_wikilink_query(&nested), None);
}

#[test]
fn stale_suggestions_are_detected() {
    assert!(suggestions_still_current("x [[Foo", "Foo"));
    assert!(!suggestions_still_current("x [[Foob", "Foo"));
    assert!(!suggestions_still_current("x [[Foo]]", "Foo"));
}

#[test]
fn external_urls_must_be_http() {
    assert_eq!(safe_external_url(Some("HTTPS://example.org")), Some("HTTPS://example.org".to_string()));
    assert_eq!(safe_external_url(Some("http://a")), Some("http://a".to_string()));
    assert_eq!(safe_external_url(Some("javascript:alert(1)")), None);
    assert_eq!(safe_external_url(None), None);
}

#[test]
fn selection_labels_quote_eighty_scalars() {
    assert_eq!(selection_label("Книга", "цитата"), "Книга — «цитата»");
    let long: String = "я".repeat(100);
    let expected = format!("T — «{}»", "я".repeat(80));
    assert_eq!(selection_label("T", &long), expected);
}

#[test]
fn empty_selection_is_silent() {
    assert_eq!(selection_error_notice("Выделение пусто"), None);
    assert_eq!(selection_error_notice("Reader ещё не готов"), Some("Выделите текст внутри страницы книги."));
}

#[test]
fn note_submission_trims_and_parses() {
    let n = note_submission("  мысль ", " ", "a, A, b", 5).unwrap();
    assert_eq!(n.body, "мысль");
    assert_eq!(n.title, None);
    assert_eq!(n.tags, vec!["a".to_string(), "b".to_string()]);
    let t = note_submission("x", " Заголовок ", "", 5).unwrap();
    assert_eq!(t.title, Some("Заголовок".to_string()));
    assert!(note_submission("   ", "t", "a", 5).is_none());
}

#[test]
fn selection_offsets_add_the_fragment_start() {
    assert_eq!(selection_offset(Some("10"), "a😀b", 3), Ok(12));
    assert_eq!(selection_offset(Some("+3"), "ab", 0), Ok(3));
    assert_eq!(selection_offset(None, "ab", 0), Err("DOM fragment не содержит scalar offset".to_string()));
    assert_eq!(selection_offset(Some("x"), "ab", 0), Err("DOM fragment не содержит scalar offset".to_string()));
    assert_eq!(
        selection_offset(Some("1"), "a😀b", 2),
        Err("Граница Selection попала внутрь Unicode scalar".to_string())
    );
}

#[test]
fn child_lengths_are_summed_up_to_the_offset() {
    assert_eq!(children_utf16_length(&vec![3, 4, 5], 2), 7);
    assert_eq!(children_utf16_length(&vec![3, 4, 5], 10), 12);
    assert_eq!(children_utf16_length(&vec![], 1), 0);
    assert_eq!(children_utf16_length(&vec![u32::MAX as usize, 5], 2), u32::MAX);
}

#[test]
fn page_unit_is_the_first_node_under_the_root() {
    let nodes = vec![
        DocNode { root: Some("c1".to_string()), id: "n1".to_string() },
        DocNode { root: Some("c2".to_string()), id: "n2".to_string() },
        DocNode { root: Some("c2".to_string()), id: "n3".to_string() },
    ];
    assert_eq!(page_unit_id(Some("c2"), &nodes), Some("n2".to_string()));
    assert_eq!(page_unit_id(Some("c9"), &nodes), None);
    assert_eq!(page_unit_id(None, &nodes), None);
}

#[test]
fn links_lead_where_their_target_is() {
    assert_eq!(link_target_action(true, true, false, true), LinkTargetAction::Anchor);
    assert_eq!(link_target_action(true, false, true, true), LinkTargetAction::AnnotationAnchor);
    assert_eq!(link_target_action(true, false, false, true), LinkTargetAction::MaterialStart);
    assert_eq!(link_target_action(false, true, true, true), LinkTargetAction::OtherMaterial);
    assert_eq!(link_target_action(false, false, false, false), LinkTargetAction::Stay);
    assert_eq!(backlink_action(true, true), LinkTargetAction::AnnotationAnchor);
    assert_eq!(backlink_action(true, false), LinkTargetAction::Stay);
    assert_eq!(backlink_action(false, false), LinkTargetAction::OtherMaterial);
    assert_eq!(link_activation(ReadingLinkKind::Footnote), LinkActivation::ShowFootnote);
    assert_eq!(link_activation(ReadingLinkKind::External), LinkActivation::OpenExternal);
    assert_eq!(link_activation(ReadingLinkKind::Internal), LinkActivation::JumpToTarget);
}

#[test]
fn layout_changes_and_measurement_elements() {
    let a = LayoutSettings { font_size_px: 18, line_height_percent: 150, width: ReaderWidth::Balanced };
    assert!(!layout_changed(a, a));
    assert!(layout_changed(a, LayoutSettings { font_size_px: 19, ..a }));
    assert!(layout_changed(a, LayoutSettings { width: ReaderWidth::Wide, ..a }));
    assert_eq!(measurement_tag(BlockKind::Heading(1)), "h2");
    assert_eq!(measurement_tag(BlockKind::Heading(4)), "h5");
    assert_eq!(measurement_tag(BlockKind::Heading(6)), "h6");
    assert_eq!(measurement_tag(BlockKind::Table), "p");
    assert_eq!(measurement_tag(BlockKind::CodeBlock), "pre");
    assert_eq!(atomic_block_height(BlockKind::Table), "180px");
    assert_eq!(atomic_block_height(BlockKind::Paragraph), "160px");
}

#[test]
fn joined_note_tags_read_back_unchanged() {
    let tags = vec!["философия".to_string(), "Kant".to_string(), "эпистемология".to_string()];
    let shown = lumi_web::reader_view::join_strings(&tags, ", ");
    assert_eq!(shown, "философия, Kant, эпистемология");
    assert_eq!(parse_tags(&shown, 3), tags);
    assert_eq!(lumi_web::pdf_reader::parse_tags(&shown, 0), tags);
    assert_eq!(lumi_web::desk::parse_tags(&shown), tags);
    assert_eq!(parse_tags(&lumi_web::reader_view::join_strings(&Vec::new(), ", "), 3), Vec::<String>::new());
}
