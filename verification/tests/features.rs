use lumi_web::ai::{
    credential_label, is_learning_source, keep_polling, message_status_label, pdf_chapter_page, pdf_target,
    reader_target_message, target_is_for, CredentialState, MessageStatus, PdfTargetScope, ReaderTargetScope,
};
use lumi_web::annotation::{HighlightStyle, MarkKind};
use lumi_web::community::{
    activity_label, check_space_image, claim_status_label, cursor_query, empty_mutation_method, image_media_type,
    join_url, json_mutation_method, link_status_label, refresh_is_current, role_label, social_state_label,
    social_state_placeholder, source_formats_label, AccessLinkStatus, ActivityKind, ClaimStatus, CommunityRole,
    MutationMethod, SocialContentState, SourceFormat,
};
use lumi_web::desk::{
    desk_type_label, join_query, learning_state_label, material_from_view, non_empty, parse_tags, same_section,
    status_parameter, DeskLearningState, DeskObjectType, DeskView,
};
use lumi_web::http::ApiError;
use lumi_web::learning::{
    answer_ready, build_attempt, fill_editor, filtered_groups, item_command, item_status_label, revealed_answer,
    source_display_label, source_scope, task_status_label, transcript_status_label, unique_material_groups,
    AiTaskStatus, AnswerPresentation, AnswerSpec, AttemptAnswer, EditorFields, ItemContent, ItemKind,
    LearningItemStatus, SourceScopeChoice, TranscriptStatus,
};
use lumi_web::pdf_reader::{annotation_overlays, initial_pdf_page, restored_pdf_page, OverlaySource, PdfOverlay};

#[test]
fn images_are_recognised_by_signature() {
    assert_eq!(image_media_type(b"\x89PNG\r\n\x1a\nrest"), Some("image/png"));
    assert_eq!(image_media_type(&[0xff, 0xd8, 0xff, 0x00]), Some("image/jpeg"));
    assert_eq!(image_media_type(b"GIF89a"), None);
    assert_eq!(image_media_type(&[0xff, 0xd8]), None);
}

#[test]
fn space_images_are_checked_before_upload() {
    let limit = 5 * 1024 * 1024;
    assert_eq!(
        check_space_image(&[], limit),
        Err(ApiError::Message("Изображение пустое или превышает лимит 5 МБ.".to_string()))
    );
    assert_eq!(
        check_space_image(&[0xff, 0xd8, 0xff, 1, 2], 4),
        Err(ApiError::Message("Изображение пустое или превышает лимит 5 МБ.".to_string()))
    );
    assert_eq!(
        check_space_image(b"GIF89a", limit),
        Err(ApiError::Message("Поддерживаются только корректные PNG и JPEG.".to_string()))
    );
    assert_eq!(check_space_image(&[0xff, 0xd8, 0xff, 1], limit), Ok("image/jpeg"));
}

#[test]
fn mutation_methods() {
    assert_eq!(json_mutation_method("PATCH"), Ok(MutationMethod::Patch));
    assert_eq!(json_mutation_method("POST"), Ok(MutationMethod::Post));
    assert_eq!(json_mutation_method("PUT"), Err(ApiError::Message("Неподдерживаемая операция.".to_string())));
    assert_eq!(empty_mutation_method("DELETE"), Ok(MutationMethod::Delete));
    assert_eq!(empty_mutation_method("PATCH"), Err(ApiError::Message("Неподдерживаемая операция.".to_string())));
}

#[test]
fn join_links_and_cursors() {
    assert_eq!(join_url(Some("https://lumi.app"), "tok"), "https://lumi.app/#join/tok");
    assert_eq!(join_url(None, "tok"), "#join/tok");
    assert_eq!(cursor_query("&", Some("c1")), "&after=c1");
    assert_eq!(cursor_query("?", None), "");
    assert!(refresh_is_current(3, 3));
    assert!(!refresh_is_current(4, 3));
}

#[test]
fn community_labels() {
    assert_eq!(role_label(CommunityRole::Admin), "Администратор");
    assert_eq!(claim_status_label(None), "Импортируйте свою копию");
    assert_eq!(claim_status_label(Some(ClaimStatus::ManualReview)), "Нужно подтвердить");
    assert_eq!(source_formats_label(&vec![SourceFormat::Epub, SourceFormat::WebPage, SourceFormat::Lum]), "EPUB, Web, LUM");
    assert_eq!(source_formats_label(&vec![]), "");
    assert_eq!(link_status_label(AccessLinkStatus::Revoked), "Отозвана");
    assert_eq!(social_state_label(SocialContentState::Hidden), "Скрыто модератором");
    assert_eq!(social_state_placeholder(SocialContentState::Visible), "");
    assert_eq!(social_state_placeholder(SocialContentState::Deleted), "Комментарий удалён.");
    assert_eq!(activity_label(ActivityKind::ChatMessageCreated), "написал(а) в чат");
}

#[test]
fn ai_labels_and_polling() {
    assert_eq!(credential_label(CredentialState::Invalid), "нужна повторная проверка");
    assert_eq!(message_status_label(MessageStatus::Failed), "Ответ завершился ошибкой");
    assert_eq!(message_status_label(MessageStatus::Streaming), "");
    assert!(keep_polling(0, Some(true)));
    assert!(!keep_polling(0, Some(false)));
    assert!(!keep_polling(0, None));
    assert!(!keep_polling(600, Some(true)));
    assert!(is_learning_source("learning_source"));
    assert!(!is_learning_source("summary"));
    assert!(target_is_for(7, 7));
    assert!(!target_is_for(7, 8));
}

#[test]
fn cited_sources_open_in_the_readers() {
    assert_eq!(reader_target_message(false, true, ReaderTargetScope::Material), "Источник ответа относится к другой версии материала.");
    assert_eq!(reader_target_message(true, false, ReaderTargetScope::Selection { resolved: true }), "Открыт источник ответа AI.");
    assert_eq!(reader_target_message(true, false, ReaderTargetScope::Selection { resolved: false }), "Не удалось восстановить источник ответа в этой версии.");
    assert_eq!(reader_target_message(true, true, ReaderTargetScope::Chapter { found: true }), "Открыт источник задания.");
    assert_eq!(reader_target_message(true, false, ReaderTargetScope::Chapter { found: false }), "Не удалось найти главу источника саммари.");
    assert_eq!(reader_target_message(true, false, ReaderTargetScope::Material), "Открыт материал источника саммари.");
    assert_eq!(pdf_chapter_page("page:12"), 12);
    assert_eq!(pdf_chapter_page("7"), 7);
    assert_eq!(pdf_chapter_page("page:x"), 0);
    assert_eq!(pdf_chapter_page("chapter-3"), 0);
    assert_eq!(pdf_target(true, &PdfTargetScope::Selection { page: Some(4) }), Ok((4, true)));
    assert_eq!(pdf_target(true, &PdfTargetScope::Selection { page: None }), Err("Citation не содержит PDF page anchor."));
    assert_eq!(pdf_target(true, &PdfTargetScope::Chapter { scope_ref: "page:2".to_string() }), Ok((2, false)));
    assert_eq!(pdf_target(true, &PdfTargetScope::Material), Ok((0, false)));
    assert_eq!(pdf_target(false, &PdfTargetScope::Material), Err("Источник ответа относится к другой версии материала."));
}

#[test]
fn desk_sections_and_fields() {
    assert!(same_section(DeskView::Records(None), DeskView::Records(Some(3))));
    assert!(!same_section(DeskView::Overview, DeskView::Material(1)));
    assert_eq!(material_from_view(DeskView::Learning(Some(9))), Some(9));
    assert_eq!(material_from_view(DeskView::Item(DeskObjectType::Annotation, 9)), None);
    assert_eq!(desk_type_label(DeskObjectType::AiArtifact), "AI-артефакт");
    assert_eq!(learning_state_label(DeskLearningState::Due), "Сегодня");
    assert_eq!(parse_tags(" a, A ,, b "), vec!["a".to_string(), "A".to_string(), "b".to_string()]);
    assert_eq!(non_empty("  x "), Some("x".to_string()));
    assert_eq!(non_empty("   "), None);
    assert_eq!(status_parameter(Some(DeskObjectType::LearningItem)), "learning_state");
    assert_eq!(status_parameter(None), "status");
    assert_eq!(join_query(&vec!["limit=60".to_string(), "tag=x".to_string()]), "limit=60&tag=x");
}

fn fields() -> EditorFields {
    EditorFields {
        kind: "old".to_string(),
        prompt: String::new(),
        answer_a: "keep-a".to_string(),
        answer_b: "keep-b".to_string(),
        correct: "keep".to_string(),
        explanation: String::new(),
        hint_one: String::new(),
        hint_two: String::new(),
    }
}

fn content(draft: &lumi_web::learning::ItemDraft) -> ItemContent {
    ItemContent {
        prompt: draft.prompt.clone(),
        explanation: draft.explanation.clone(),
        hints: draft.hints.iter().map(|h| h.text.clone()).collect(),
        answer: draft.answer.clone(),
    }
}

#[test]
fn item_editor_validates_and_builds() {
    assert_eq!(
        item_command("single", "Q", " ", "b", "a", "", "", "").err(),
        Some("Заполните оба варианта ответа.".to_string())
    );
    assert_eq!(
        item_command("hinted", "Q", "ans", "", "", "", " ", "h2").err(),
        Some("Добавьте пример ответа и первую подсказку.".to_string())
    );
    let d = item_command("single", " Q ", " A ", " B ", "b", " why ", " ", " h2 ").unwrap();
    assert_eq!(d.kind, ItemKind::QuizSingleChoice);
    assert_eq!(d.prompt, "Q");
    assert_eq!(d.explanation, "why");
    assert_eq!(d.hints.iter().map(|h| (h.position, h.text.clone())).collect::<Vec<_>>(), vec![(1u16, "h2".to_string())]);
    match &d.answer {
        AnswerSpec::SingleChoice { options, correct_option_id } => {
            assert_eq!(options.iter().map(|o| (o.id.clone(), o.label.clone())).collect::<Vec<_>>(), vec![("a".to_string(), "A".to_string()), ("b".to_string(), "B".to_string())]);
            assert_eq!(correct_option_id, "b");
        }
        _ => panic!("single choice expected"),
    }
    let t = item_command("whatever", "Q", "", "", "a", "", "", "").unwrap();
    assert_eq!(t.kind, ItemKind::QuizTrueFalse);
    assert!(matches!(t.answer, AnswerSpec::TrueFalse { correct: true }));
}

#[test]
fn the_editor_shows_a_saved_item_again() {
    let d = item_command("single", " Q ", " A ", " B ", "b", " why ", " h1 ", "").unwrap();
    let mut f = fields();
    fill_editor(&mut f, &content(&d));
    assert_eq!((f.kind.as_str(), f.prompt.as_str(), f.answer_a.as_str(), f.answer_b.as_str(), f.correct.as_str()), ("single", "Q", "A", "B", "b"));
    assert_eq!((f.explanation.as_str(), f.hint_one.as_str(), f.hint_two.as_str()), ("why", "h1", ""));
    let o = item_command("open", "Q", " sample ", "ignored", "", "", "", "").unwrap();
    let mut f = fields();
    fill_editor(&mut f, &content(&o));
    assert_eq!((f.kind.as_str(), f.answer_a.as_str(), f.answer_b.as_str(), f.correct.as_str()), ("open", "sample", "", "keep"));
    let t = item_command("true_false", "Q", "", "", "b", "", "", "").unwrap();
    let mut f = fields();
    fill_editor(&mut f, &content(&t));
    assert_eq!((f.kind.as_str(), f.correct.as_str(), f.answer_a.as_str()), ("true_false", "b", "keep-a"));
}

#[test]
fn answers_and_attempts() {
    assert!(answer_ready(AnswerPresentation::SingleChoice, 1, "", false));
    assert!(!answer_ready(AnswerPresentation::MultipleChoice, 0, "x", true));
    assert!(answer_ready(AnswerPresentation::OpenText, 0, " x ", true));
    assert!(!answer_ready(AnswerPresentation::OpenText, 0, "   ", true));
    assert!(answer_ready(AnswerPresentation::Flashcard, 0, "", true));
    assert!(answer_ready(AnswerPresentation::Reflection, 0, "y", false));
    assert!(build_attempt(AnswerPresentation::SingleChoice, vec![], "").is_none());
    assert!(matches!(build_attempt(AnswerPresentation::SingleChoice, vec!["b".to_string()], ""), Some(AttemptAnswer::SingleChoice { option_id }) if option_id == "b"));
    assert!(matches!(build_attempt(AnswerPresentation::TrueFalse, vec!["true".to_string()], ""), Some(AttemptAnswer::TrueFalse { value: true })));
    assert!(matches!(build_attempt(AnswerPresentation::TrueFalse, vec!["false".to_string()], ""), Some(AttemptAnswer::TrueFalse { value: false })));
    assert!(matches!(build_attempt(AnswerPresentation::Flashcard, vec![], ""), Some(AttemptAnswer::Revealed)));
    assert!(matches!(build_attempt(AnswerPresentation::Cloze, vec![], "txt"), Some(AttemptAnswer::Text { text }) if text == "txt"));
    assert!(matches!(build_attempt(AnswerPresentation::MultipleChoice, vec!["a".to_string(), "c".to_string()], ""), Some(AttemptAnswer::MultipleChoice { option_ids }) if option_ids == vec!["a".to_string(), "c".to_string()]));
    assert_eq!(revealed_answer(&AnswerSpec::Flashcard { back: "оборот".to_string() }), "оборот");
    assert_eq!(revealed_answer(&AnswerSpec::TrueFalse { correct: true }), "");
}

#[test]
fn learning_labels_and_sources() {
    assert_eq!(item_status_label(LearningItemStatus::Archived), "Архив");
    assert_eq!(task_status_label(AiTaskStatus::NeedsInput), "нужна настройка provider");
    assert_eq!(transcript_status_label(TranscriptStatus::Processing), "Whisper расшифровывает запись…");
    assert_eq!(source_display_label(0), "Источник задания 1");
    assert_eq!(source_display_label(u32::MAX), "Источник задания 4294967296");
    assert_eq!(source_scope(true, true), SourceScopeChoice::Selection);
    assert_eq!(source_scope(false, true), SourceScopeChoice::Chapter);
    assert_eq!(source_scope(false, false), SourceScopeChoice::Material);
}

#[test]
fn challenge_groups() {
    assert_eq!(filtered_groups(&vec![5, 6, 5], Some(5)), vec![0, 2]);
    assert_eq!(filtered_groups(&vec![5, 6, 5], None), vec![0, 1, 2]);
    let groups = vec![(3u128, "g3"), (1, "g1"), (3, "g3b")];
    let ready = vec![(2u128, "r2"), (1, "r1")];
    assert_eq!(unique_material_groups(groups, ready), vec![(1, "g1"), (2, "r2"), (3, "g3")]);
    assert!(unique_material_groups::<&str>(vec![], vec![]).is_empty());
}

#[test]
fn pdf_pages_and_overlays() {
    assert_eq!(restored_pdf_page(None), 0);
    assert_eq!(restored_pdf_page(Some(4)), 4);
    assert_eq!(initial_pdf_page(Some(9), Some(2), 5), 4);
    assert_eq!(initial_pdf_page(None, Some(2), 5), 2);
    assert_eq!(initial_pdf_page(None, None, 0), 0);
    let items = vec![
        OverlaySource { page: Some(1), kind: MarkKind::Highlight(HighlightStyle::Bold) },
        OverlaySource { page: None, kind: MarkKind::Note },
        OverlaySource { page: Some(0), kind: MarkKind::VoiceNote },
    ];
    assert_eq!(
        annotation_overlays(&items),
        vec![
            PdfOverlay { source: 0, page_index: 1, kind: MarkKind::Highlight(HighlightStyle::Bold) },
            PdfOverlay { source: 2, page_index: 0, kind: MarkKind::VoiceNote },
        ]
    );
    assert_eq!(lumi_web::pdf_reader::parse_tags("Тег, тег, ТЕГ, b", 5), vec!["Тег".to_string(), "b".to_string()]);
    assert_eq!(lumi_web::pdf_reader::parse_tags("a, b, c", 2), vec!["a".to_string(), "b".to_string()]);
}
