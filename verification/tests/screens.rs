use lumi_web::account::MaterialKind;
use lumi_web::pdf_reader::{reader_choice, ReaderChoice};
use lumi_web::ai::{chat_step, ChatAction, ChatComposer, ChatEvent};
use lumi_web::community::{
    can_leave, can_moderate, link_actions_offered, member_actions, role_change_label, AccessLinkStatus,
    CommunityRole, MemberView, SpacePermissions,
};
use lumi_web::gate::{
    needs_record_capability, on_account_loaded, on_session_expired, on_sign_in_again, route_on_sign_in,
    route_title, shows_topbar, AccountPhase, AppRoute, Gate,
};
use lumi_web::http::{ApiError, ApiMutationError};
use lumi_web::learning::{
    ai_check_label, explain_back_offered, first_unanswered, material_learning_actions, needs_start,
    offer_step, offered_item_count, pause_toggle, practice_enabled, session_counter, session_view,
    snooze_offered, status_toggle_label, status_toggle_target, ItemSummary, LearningItemStatus, OfferEvent,
    OfferState, SessionKind, SessionPhase, SessionView,
};
use lumi_web::library::{
    active_connections, connection_list, connection_status_label, has_feature, import_caps, import_ready,
    key_move_clears_upload, library_notice, library_sections, mcp_badge, mcp_enabled, revoke_offered,
    service_section, tab_after_key, tab_enabled, telegram_badge, telegram_enabled, upload_error,
    AddSourceMode, ConnectionList, ConnectionStatus, ImportCaps, LibraryNotice, LibraryState, ServiceSection,
    TabKey,
};
use lumi_web::local_store::{LocalAnnotations, MutationKind, SyncState};

fn composer(draft: &str) -> ChatComposer<&'static str, u32> {
    ChatComposer {
        open: true,
        settings_open: false,
        draft: draft.to_string(),
        attachments: vec!["ctx"],
        busy: false,
        error: "old".to_string(),
        last_generation: None,
    }
}

#[test]
fn chat_sends_a_draft_once_and_keeps_it_on_failure() {
    let (c, action) = chat_step(composer("   "), ChatEvent::Submit);
    assert_eq!(action, ChatAction::Nothing);
    assert_eq!(c.draft, "   ");
    assert!(!c.busy);
    let (c, action) = chat_step(composer("Что главное?"), ChatEvent::Submit);
    assert_eq!(action, ChatAction::Send { ensure_conversation: false });
    assert!(c.busy);
    assert_eq!(c.error, "");
    let (failed, action) = chat_step(c, ChatEvent::Sent(Err("нет сети".to_string())));
    assert_eq!(action, ChatAction::Nothing);
    assert_eq!(failed.draft, "Что главное?");
    assert_eq!(failed.attachments, vec!["ctx"]);
    assert_eq!(failed.error, "нет сети");
    assert!(!failed.busy);
    let (c, _) = chat_step(failed, ChatEvent::Submit);
    let (sent, action) = chat_step(c, ChatEvent::Sent(Ok(7)));
    assert_eq!(action, ChatAction::PollConversation);
    assert_eq!(sent.draft, "");
    assert!(sent.attachments.is_empty());
    assert_eq!(sent.last_generation, Some(7));
    let (done, _) = chat_step(sent, ChatEvent::Polled);
    assert!(!done.busy);
}

#[test]
fn chat_handoff_sends_only_when_asked() {
    let closed = ChatComposer { open: false, settings_open: true, ..composer("") };
    let (c, action) = chat_step(closed, ChatEvent::Handoff { instruction: "Объясни".to_string(), attachment: "src", auto_submit: false });
    assert_eq!(action, ChatAction::FocusComposer);
    assert!(c.open && !c.settings_open);
    assert_eq!(c.draft, "Объясни");
    assert_eq!(c.attachments, vec!["src"]);
    let (c, action) = chat_step(c, ChatEvent::Handoff { instruction: "Кратко".to_string(), attachment: "src2", auto_submit: true });
    assert_eq!(action, ChatAction::Send { ensure_conversation: true });
    assert!(c.busy);
}

#[test]
fn learning_session_resumes_at_the_first_unanswered_item() {
    assert_eq!(first_unanswered(&vec![10, 20, 30], &vec![10, 30]), Some(1));
    assert_eq!(first_unanswered(&vec![10, 20], &vec![20, 10]), None);
    assert_eq!(first_unanswered(&vec![], &vec![]), None);
    assert_eq!(session_counter(2, 7), "2 / 7");
    assert!(needs_start(SessionPhase::Offered));
    assert!(!needs_start(SessionPhase::Running));
    assert_eq!(session_view(None, None, ""), SessionView::Restoring);
    assert_eq!(session_view(None, None, "ошибка"), SessionView::ErrorOnly);
    assert_eq!(session_view(Some(SessionPhase::Completed), Some(0), ""), SessionView::Completed);
    assert_eq!(session_view(Some(SessionPhase::Running), Some(2), ""), SessionView::Item(2));
    assert_eq!(session_view(Some(SessionPhase::Running), None, ""), SessionView::AllAnswered);
    assert!(snooze_offered(SessionKind::ScheduledReview));
    assert!(!snooze_offered(SessionKind::ManualPractice));
    assert_eq!(ai_check_label(SessionKind::ExplainBack), "Получить обратную связь AI");
    assert_eq!(ai_check_label(SessionKind::ManualPractice), "Проверить ответ с AI");
}

#[test]
fn material_learning_page_actions() {
    let items = vec![
        ItemSummary { status: LearningItemStatus::Draft, explain_back: true, source_id: 1 },
        ItemSummary { status: LearningItemStatus::Active, explain_back: false, source_id: 2 },
        ItemSummary { status: LearningItemStatus::Active, explain_back: true, source_id: 3 },
    ];
    let actions = material_learning_actions(&items, None);
    assert_eq!(actions.active_count, 2);
    assert_eq!(actions.explain_count, 1);
    assert_eq!(actions.source, Some(2));
    assert!(practice_enabled(actions, false));
    assert!(!practice_enabled(actions, true));
    assert!(explain_back_offered(actions));
    assert_eq!(material_learning_actions(&items, Some(9)).source, Some(9));
    let none = material_learning_actions(&vec![items[0]], None);
    assert_eq!(none.source, None);
    assert!(!explain_back_offered(none));
    assert_eq!(status_toggle_target(LearningItemStatus::Active), LearningItemStatus::Archived);
    assert_eq!(status_toggle_target(LearningItemStatus::Archived), LearningItemStatus::Active);
    assert_eq!(status_toggle_label(LearningItemStatus::Active), "Архивировать");
    assert_eq!(status_toggle_label(LearningItemStatus::Draft), "Активировать");
    assert_eq!(pause_toggle(true), (false, "Возобновить повторение"));
    assert_eq!(pause_toggle(false), (true, "Пауза повторения"));
}

#[test]
fn completion_offer_shows_one_offer() {
    let s: OfferState<u8> = OfferState::Saving;
    let s = offer_step(s, OfferEvent::Saved(Ok(true)), Some(4));
    assert!(matches!(s, OfferState::Ready(4)));
    let s = offer_step(s, OfferEvent::Act, None);
    assert!(matches!(s, OfferState::Busy(4)));
    let s = offer_step(s, OfferEvent::Answered(Err("HTTP 500".to_string())), None);
    assert!(matches!(&s, OfferState::Failed(m) if m == "HTTP 500"));
    let s = offer_step(s, OfferEvent::Retry, None);
    assert!(matches!(s, OfferState::Saving));
    let s = offer_step(s, OfferEvent::Saved(Ok(false)), Some(5));
    assert!(matches!(s, OfferState::Hidden));
    assert_eq!(offered_item_count(3), 3);
    assert_eq!(offered_item_count(12), 7);
}

fn gate() -> Gate<&'static str, u8, u32> {
    Gate { phase: AccountPhase::Loading, csrf: "t".to_string(), capabilities: Some(1), route: AppRoute::Settings }
}

#[test]
fn the_gate_routes_and_expires() {
    assert!(matches!(route_on_sign_in(AppRoute::<u32>::Settings, false, false), (AppRoute::Library, true)));
    assert!(matches!(route_on_sign_in(AppRoute::<u32>::Desk(3), false, true), (AppRoute::Library, true)));
    assert!(matches!(route_on_sign_in(AppRoute::<u32>::Settings, true, true), (AppRoute::Settings, false)));
    assert!(matches!(route_on_sign_in(AppRoute::<u32>::Reader(5), false, false), (AppRoute::Reader(5), false)));
    assert_eq!(route_title(&AppRoute::<u32>::Reader(1)), "Чтение — Lumi");
    assert!(!shows_topbar(&AppRoute::<u32>::LearningSession(1)));
    assert!(shows_topbar(&AppRoute::<u32>::Library));
    assert!(needs_record_capability(&AppRoute::<u32>::Search(1)));
    assert!(!needs_record_capability(&AppRoute::<u32>::Library));

    let (g, rewrite) = on_account_loaded(gate(), Ok(("ann", false)), Some("csrf".to_string()), false);
    assert!(rewrite);
    assert!(matches!(g.phase, AccountPhase::SignedIn("ann")));
    assert_eq!(g.csrf, "csrf");
    assert!(matches!(g.route, AppRoute::Library));
    let (g, _) = on_account_loaded(gate(), Err(ApiError::Unauthorized), None, false);
    assert!(matches!(g.phase, AccountPhase::SignedOut));
    assert_eq!(g.capabilities, None);
    let (g, rewrite) = on_account_loaded(gate(), Err(ApiError::Message("HTTP 500".to_string())), None, false);
    assert!(!rewrite);
    assert!(matches!(&g.phase, AccountPhase::Failed(m) if m == "HTTP 500"));
    let g = on_session_expired(g);
    assert!(matches!(g.phase, AccountPhase::Expired));
    assert_eq!(g.csrf, "");
    assert_eq!(g.capabilities, None);
    assert!(matches!(g.route, AppRoute::Library));
    assert!(matches!(on_sign_in_again(g).phase, AccountPhase::SignedOut));
}

#[test]
fn community_member_actions_follow_permissions() {
    let all = SpacePermissions { can_edit_space: true, can_manage_links: true, can_assign_admin: true, can_remove_members: true };
    let member = MemberView { user_id: 2, role: CommunityRole::Member, active: true };
    let admin = MemberView { user_id: 3, role: CommunityRole::Admin, active: true };
    let owner = MemberView { user_id: 4, role: CommunityRole::Owner, active: true };
    assert_eq!(member_actions(all, 1, member).role_change, Some(CommunityRole::Admin));
    assert!(member_actions(all, 1, member).can_remove);
    assert_eq!(member_actions(all, 1, admin).role_change, Some(CommunityRole::Member));
    assert!(!member_actions(all, 1, admin).can_remove);
    assert_eq!(member_actions(all, 1, owner).role_change, None);
    assert_eq!(member_actions(all, 2, member).role_change, None);
    assert!(!member_actions(all, 1, MemberView { active: false, ..member }).can_remove);
    let none = SpacePermissions { can_assign_admin: false, can_remove_members: false, ..all };
    assert_eq!(member_actions(none, 1, member).role_change, None);
    assert!(!member_actions(none, 1, member).can_remove);
    assert_eq!(role_change_label(CommunityRole::Admin), "Сделать участником");
    assert_eq!(role_change_label(CommunityRole::Member), "Назначить администратором");
    assert!(!can_leave(CommunityRole::Owner));
    assert!(can_leave(CommunityRole::Admin));
    assert!(can_moderate(CommunityRole::Admin));
    assert!(!can_moderate(CommunityRole::Member));
    assert!(link_actions_offered(AccessLinkStatus::Active));
    assert!(!link_actions_offered(AccessLinkStatus::Revoked));
}

#[test]
fn library_shelves_and_notice() {
    let states = vec![LibraryState::Archived, LibraryState::Active, LibraryState::Active, LibraryState::Archived];
    assert_eq!(library_sections(&states), (vec![1, 2], vec![0, 3]));
    assert_eq!(library_notice(false, "", false), LibraryNotice::Loading);
    assert_eq!(library_notice(false, "HTTP 500", true), LibraryNotice::Unavailable);
    assert_eq!(library_notice(true, "", false), LibraryNotice::Empty);
    assert_eq!(library_notice(true, "x", true), LibraryNotice::Shelves);
}

#[test]
fn import_dialog_tabs_and_limits() {
    let features = vec!["lum-import".to_string(), "public-web-url-import".to_string()];
    let caps = import_caps(&features);
    assert_eq!(caps, ImportCaps { web: true, pdf: false, markdown: false, lum: true });
    assert!(has_feature(&features, "lum-import"));
    assert!(!has_feature(&features, "lum"));
    assert!(tab_enabled(AddSourceMode::Epub, caps));
    assert!(!tab_enabled(AddSourceMode::Pdf, caps));
    assert_eq!(tab_after_key(AddSourceMode::Epub, TabKey::Right, caps), Some(AddSourceMode::Lum));
    assert_eq!(tab_after_key(AddSourceMode::Epub, TabKey::Left, caps), None);
    assert_eq!(tab_after_key(AddSourceMode::Lum, TabKey::Right, caps), None);
    assert_eq!(tab_after_key(AddSourceMode::Web, TabKey::Right, caps), Some(AddSourceMode::Epub));
    assert_eq!(tab_after_key(AddSourceMode::Web, TabKey::Left, caps), None);
    assert!(key_move_clears_upload(AddSourceMode::Lum));
    assert!(!key_move_clears_upload(AddSourceMode::Web));
    assert_eq!(upload_error(AddSourceMode::Lum, 101, 100, 10), Some("LUM превышает лимит 100 МБ."));
    assert_eq!(upload_error(AddSourceMode::Lum, 100, 100, 10), None);
    assert_eq!(upload_error(AddSourceMode::Markdown, 11, 100, 10), Some("Markdown превышает лимит 10 МБ."));
    assert_eq!(upload_error(AddSourceMode::Pdf, 1_000_000, 100, 10), None);
    assert!(import_ready(AddSourceMode::Web, false, false, " https://a "));
    assert!(!import_ready(AddSourceMode::Web, false, true, "   "));
    assert!(!import_ready(AddSourceMode::Epub, false, false, ""));
    assert!(!import_ready(AddSourceMode::Epub, true, true, ""));
}

#[test]
fn connections_sections() {
    let features = vec!["telegram-text-import".to_string(), "mcp-account-agent".to_string()];
    assert!(!telegram_enabled(&features));
    assert!(mcp_enabled(&features));
    assert_eq!(service_section(false, true), ServiceSection::Checking);
    assert_eq!(service_section(true, false), ServiceSection::Unavailable);
    assert_eq!(service_section(true, true), ServiceSection::Enabled);
    assert_eq!(telegram_badge(ServiceSection::Enabled), "Без отдельной привязки");
    let statuses = vec![ConnectionStatus::Active, ConnectionStatus::Revoked, ConnectionStatus::Active];
    assert_eq!(active_connections(&statuses), 2);
    assert_eq!(mcp_badge(ServiceSection::Enabled, 2), "2 активно");
    assert_eq!(mcp_badge(ServiceSection::Checking, 2), "Проверяем…");
    assert_eq!(connection_list(false, 3), ConnectionList::Loading);
    assert_eq!(connection_list(true, 0), ConnectionList::Empty);
    assert_eq!(connection_list(true, 1), ConnectionList::Listed);
    assert_eq!(connection_status_label(ConnectionStatus::Revoked), "Отозвано");
    assert!(revoke_offered(ConnectionStatus::Active));
    assert!(!revoke_offered(ConnectionStatus::Revoked));
}

#[test]
fn answers_to_annotation_requests_are_applied() {
    let mut store: LocalAnnotations<&str, &str> = LocalAnnotations::from_loaded(vec![(1, "a")]);
    store.push_saving(9, "draft", "create-9");
    assert_eq!(store.settle(9, MutationKind::Create, Ok((2, "stored"))), Some(Ok(())));
    assert_eq!(store.items()[1].id, 2);
    assert_eq!(store.items()[1].sync, SyncState::Synced);
    assert!(store.begin_mutation(2, "edit", "update-2"));
    assert_eq!(store.settle(2, MutationKind::Update, Err(ApiMutationError::Conflict)), None);
    assert_eq!(store.items()[1].sync, SyncState::Saving);
    assert_eq!(store.settle_conflict(2, Ok(Some("server"))), Ok(()));
    assert_eq!(store.items()[1].sync, SyncState::Conflicted);
    assert_eq!(store.items()[1].annotation, "server");
    assert!(store.begin_mutation(1, "a2", "update-1"));
    assert_eq!(
        store.settle(1, MutationKind::Update, Err(ApiMutationError::Unauthorized)),
        Some(Err("Сессия истекла — войдите снова".to_string()))
    );
    assert_eq!(store.items()[0].sync, SyncState::Failed);
    assert_eq!(store.settle(1, MutationKind::Delete, Ok((0, ""))), Some(Ok(())));
    assert!(!store.contains(1));
    assert_eq!(store.settle_conflict(2, Err("HTTP 500".to_string())), Err("HTTP 500".to_string()));
    assert_eq!(store.items()[0].sync, SyncState::Failed);
}

#[test]
fn a_pdf_opens_in_the_fixed_layout_reader() {
    assert_eq!(reader_choice(Ok(MaterialKind::Pdf)), ReaderChoice::Pdf);
    assert_eq!(reader_choice(Ok(MaterialKind::Epub)), ReaderChoice::Reflowable);
    assert_eq!(reader_choice(Ok(MaterialKind::WebPage)), ReaderChoice::Reflowable);
    assert_eq!(reader_choice(Err("HTTP 404".to_string())), ReaderChoice::Failed("HTTP 404".to_string()));
}
