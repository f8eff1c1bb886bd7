use lumi_web::annotation::{annotation_kind_label, highlight_style_label, mark_class, pdf_overlay_kind, toggled_status, AnnotationStatus, HighlightStyle, MarkKind};
use lumi_web::local_store::{conflict_draft, merge_update, pending_subject, LocalAnnotations, MutationKind, SyncState};
use lumi_web::reader_view::{
    close_reader_overlay, close_reader_panel, creators_label, current_page_index, filter_accepts, is_chapter_end,
    layout_class, notes_notice, overlay_focus_target, overlay_open, panel_trigger, reading_progress_percent,
    theme_class, toggle_reader_panel, visible_annotations, width_class, AnnotationType, NotesFilter, OverlayClosed,
    OverlayState, PanelState, ReaderPanel, ReaderTheme, ReaderWidth,
};
use lumi_web::save_state::{debounce_decision, next_generation, settle_save, DebounceDecision, SaveState, SaveSubject};

fn closed() -> PanelState {
    PanelState { toc_open: false, settings_open: false, notes_open: false }
}

#[test]
fn toggling_opens_one_panel_and_closes_the_others() {
    let mut s = PanelState { toc_open: true, settings_open: false, notes_open: false };
    assert_eq!(toggle_reader_panel(&mut s, ReaderPanel::Notes), "reader-notes-close");
    assert_eq!(s, PanelState { toc_open: false, settings_open: false, notes_open: true });
    assert_eq!(toggle_reader_panel(&mut s, ReaderPanel::Notes), "reader-notes-button");
    assert_eq!(s, closed());
}

#[test]
fn toggling_twice_is_a_round_trip() {
    for panel in [ReaderPanel::Toc, ReaderPanel::Settings, ReaderPanel::Notes] {
        let mut s = closed();
        toggle_reader_panel(&mut s, panel);
        toggle_reader_panel(&mut s, panel);
        assert_eq!(s, closed());
    }
}

#[test]
fn closing_a_panel_returns_focus_to_its_button() {
    let mut s = PanelState { toc_open: true, settings_open: true, notes_open: false };
    assert_eq!(close_reader_panel(&mut s, ReaderPanel::Toc), "reader-toc-button");
    assert_eq!(s, PanelState { toc_open: false, settings_open: true, notes_open: false });
    assert_eq!(panel_trigger(ReaderPanel::Settings), "reader-settings-button");
    assert_eq!(layout_class(s), "settings-open");
    assert_eq!(layout_class(PanelState { toc_open: true, settings_open: false, notes_open: true }), "toc-open");
    assert_eq!(layout_class(closed()), "");
    assert!(overlay_open(s));
    assert!(!overlay_open(closed()));
}

#[test]
fn escape_closes_the_topmost_layer_only() {
    let mut s = OverlayState {
        footnote_open: true,
        panels: PanelState { toc_open: false, settings_open: true, notes_open: true },
        selection_open: true,
    };
    assert_eq!(close_reader_overlay(&mut s), OverlayClosed::Footnote);
    assert_eq!(close_reader_overlay(&mut s), OverlayClosed::Panel(ReaderPanel::Settings));
    assert_eq!(close_reader_overlay(&mut s), OverlayClosed::Panel(ReaderPanel::Notes));
    assert_eq!(close_reader_overlay(&mut s), OverlayClosed::Selection);
    assert_eq!(close_reader_overlay(&mut s), OverlayClosed::Nothing);
    assert_eq!(overlay_focus_target(OverlayClosed::Panel(ReaderPanel::Notes)), Some("reader-notes-button"));
    assert_eq!(overlay_focus_target(OverlayClosed::Selection), Some("reader-page-surface"));
    assert_eq!(overlay_focus_target(OverlayClosed::Footnote), None);
}

#[test]
fn page_numbers_and_progress() {
    assert_eq!(current_page_index(7, 5), 4);
    assert_eq!(current_page_index(2, 5), 2);
    assert_eq!(current_page_index(3, 0), 0);
    assert_eq!(reading_progress_percent(0, 4), 25);
    assert_eq!(reading_progress_percent(2, 3), 100);
    assert_eq!(reading_progress_percent(0, 0), 100);
    assert_eq!(reading_progress_percent(0, 3), 33);
}

#[test]
fn chapter_ends_where_the_unit_changes() {
    assert!(is_chapter_end(&Some("a".to_string()), &Some("b".to_string())));
    assert!(is_chapter_end(&Some("a".to_string()), &None));
    assert!(!is_chapter_end(&Some("a".to_string()), &Some("a".to_string())));
    assert!(!is_chapter_end(&None, &Some("a".to_string())));
}

#[test]
fn header_labels() {
    assert_eq!(creators_label(&vec![]), "Автор не указан");
    assert_eq!(creators_label(&vec!["Толстой".to_string(), "Чехов".to_string()]), "Толстой, Чехов");
    assert_eq!(theme_class(ReaderTheme::Night), "night");
    assert_eq!(width_class(ReaderWidth::Narrow), "narrow");
}

#[test]
fn notes_tabs_filter_by_type() {
    let types = vec![AnnotationType::Highlight, AnnotationType::MarginNote, AnnotationType::VoiceNote, AnnotationType::Note];
    assert_eq!(visible_annotations(NotesFilter::All, &types), vec![0, 1, 2, 3]);
    assert_eq!(visible_annotations(NotesFilter::Notes, &types), vec![1, 3]);
    assert_eq!(visible_annotations(NotesFilter::Highlights, &types), vec![0]);
    assert_eq!(visible_annotations(NotesFilter::Voice, &types), vec![2]);
    assert!(!filter_accepts(NotesFilter::Voice, AnnotationType::Note));
    assert_eq!(notes_notice(0, 0), Some("Выделите фрагмент на странице, чтобы сохранить выделение или заметку."));
    assert_eq!(notes_notice(3, 0), Some("Для этого фильтра записей пока нет."));
    assert_eq!(notes_notice(3, 1), None);
}

#[test]
fn save_indicator_follows_saves() {
    let mut s = SaveState::new();
    assert_eq!(s.save_label(), "Сохранено");
    assert_eq!(s.save_class(), "saved");
    s.begin_save("k1", SaveSubject::Annotation);
    assert_eq!(s.pending(), 1);
    assert_eq!(s.save_label(), "Сохраняем аннотацию…");
    assert_eq!(s.save_class(), "saving");
    s.finish_save("k1", Err("сбой".to_string()));
    assert_eq!(s.pending(), 0);
    assert_eq!(s.save_label(), "Не сохранено: сбой");
    assert_eq!(s.save_class(), "failed");
    assert_eq!(s.failure("k1"), Some("сбой".to_string()));
    // A retry under the same key forgets the failure.
    s.begin_save("k1", SaveSubject::Note);
    assert_eq!(s.failure("k1"), None);
    s.finish_save("k1", Ok(()));
    assert_eq!(s.save_label(), "Сохранено");
}

#[test]
fn the_failure_with_the_least_key_is_shown() {
    let mut s = SaveState::new();
    s.begin_save("settings", SaveSubject::Settings);
    s.begin_save("progress", SaveSubject::Position);
    s.finish_save("settings", Err("настройки".to_string()));
    s.finish_save("progress", Err("позиция".to_string()));
    assert_eq!(s.save_label(), "Не сохранено: позиция");
    s.finish_save("progress", Err("ещё раз".to_string()));
    assert_eq!(s.failure("progress"), Some("ещё раз".to_string()));
    // Finishing never goes below zero in flight.
    assert_eq!(s.pending(), 0);
}

#[test]
fn debounced_saves_yield_to_newer_changes() {
    assert_eq!(next_generation(4), 5);
    assert_eq!(next_generation(u64::MAX), u64::MAX);
    assert_eq!(debounce_decision(5, 5, true), DebounceDecision::Wait);
    assert_eq!(debounce_decision(5, 5, false), DebounceDecision::Send);
    assert_eq!(debounce_decision(6, 5, false), DebounceDecision::Abandon);
    assert_eq!(settle_save(6, 5, Err("x".to_string())), Ok(()));
    assert_eq!(settle_save(5, 5, Err("x".to_string())), Err("x".to_string()));
}

#[test]
fn local_annotations_follow_their_requests() {
    let mut store: LocalAnnotations<&str, &str> = LocalAnnotations::from_loaded(vec![(1, "a"), (2, "b")]);
    store.push_saving(3, "c", "create-3");
    assert_eq!(store.items()[2].sync, SyncState::Saving);
    store.mark_failed(3);
    assert_eq!(store.items()[2].sync, SyncState::Failed);
    assert!(store.retry(3));
    assert_eq!(store.items()[2].sync, SyncState::Saving);
    assert_eq!(store.items()[2].pending, Some("create-3"));
    assert!(!store.retry(1));
    store.confirm(3, 30, "c-server");
    assert_eq!(store.items()[2].id, 30);
    assert_eq!(store.items()[2].sync, SyncState::Synced);
    assert_eq!(store.items()[2].pending, None);
    assert!(store.begin_mutation(1, "a2", "update-1"));
    assert!(!store.begin_mutation(9, "z", "update-9"));
    assert_eq!(store.items()[0].annotation, "a2");
    store.remove(2);
    assert!(!store.contains(2));
    assert_eq!(store.items().len(), 2);
    assert_eq!(store.position(30), Some(1));
}

#[test]
fn conflicts_keep_the_server_version() {
    let mut store: LocalAnnotations<&str, &str> = LocalAnnotations::from_loaded(vec![(1, "mine")]);
    assert!(store.begin_mutation(1, "mine2", "u"));
    assert!(store.apply_conflict(1, Some("theirs")));
    assert_eq!(store.items()[0].annotation, "theirs");
    assert_eq!(store.items()[0].sync, SyncState::Conflicted);
    assert_eq!(store.items()[0].pending, None);
    assert!(store.apply_conflict(5, Some("new")));
    assert_eq!(store.items()[1].id, 5);
    assert!(!store.apply_conflict(6, None));
    assert_eq!(store.items().len(), 2);
    assert_eq!(conflict_draft(String::new()), None);
    assert_eq!(conflict_draft("текст".to_string()), Some("текст".to_string()));
}

#[test]
fn updates_keep_unspecified_fields() {
    let (title, tags, status) = merge_update(
        Some("old".to_string()),
        vec!["t".to_string()],
        AnnotationStatus::Active,
        None,
        vec![],
        None,
    );
    assert_eq!(title, Some("old".to_string()));
    assert_eq!(tags, vec!["t".to_string()]);
    assert_eq!(status, AnnotationStatus::Active);
    let (title, tags, status) = merge_update(None, vec![], AnnotationStatus::Active, Some("n".to_string()), vec!["u".to_string()], Some(AnnotationStatus::Archived));
    assert_eq!((title, tags, status), (Some("n".to_string()), vec!["u".to_string()], AnnotationStatus::Archived));
    assert_eq!(pending_subject(MutationKind::Delete), SaveSubject::Deletion);
    assert_eq!(pending_subject(MutationKind::Create), SaveSubject::Annotation);
}

#[test]
fn annotation_presentation() {
    assert_eq!(mark_class(MarkKind::Highlight(HighlightStyle::Yellow)), "annotation-highlight");
    assert_eq!(mark_class(MarkKind::VoiceNote), "annotation-voice");
    assert_eq!(pdf_overlay_kind(MarkKind::Highlight(HighlightStyle::Blue)), "highlight-blue");
    assert_eq!(pdf_overlay_kind(MarkKind::Note), "note");
    assert_eq!(highlight_style_label(HighlightStyle::Green), "зелёное");
    assert_eq!(annotation_kind_label(MarkKind::Highlight(HighlightStyle::Bold)), "Жирное выделение");
    assert_eq!(annotation_kind_label(MarkKind::Highlight(HighlightStyle::Blue)), "Выделение");
    assert_eq!(toggled_status(AnnotationStatus::Active), AnnotationStatus::Archived);
    assert_eq!(toggled_status(toggled_status(AnnotationStatus::Archived)), AnnotationStatus::Archived);
}
