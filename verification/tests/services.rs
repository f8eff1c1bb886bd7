use lumi_web::account::{
    cover_monogram, derive_entropy, job_stage_label, job_wait_step, job_wait_timeout_message, material_format_label,
    material_format_short, material_source_download_label, material_status_class, material_status_label, read_cookie,
    JobProgress, JobStage, JobWait, MaterialImportStatus, MaterialKind,
};
use lumi_web::digest::{hex_encode, hex_sha256};
use lumi_web::http::{
    annotation_status, api_response_error, api_status_error, audio_upload_status, contract_error, desk_response_status,
    export_status, format_decimal, is_success, logout_status, network_error, pdf_progress_save_status,
    progress_save_status, reader_post_status, reader_response_status, settings_save_status, ApiError, ApiMutationError,
};
use lumi_web::parse::{parse_u32, parse_usize};

#[test]
fn decimal_numbers() {
    assert_eq!(format_decimal(0), "0");
    assert_eq!(format_decimal(409), "409");
    assert_eq!(format_decimal(u64::MAX), u64::MAX.to_string());
}

#[test]
fn annotation_statuses() {
    assert_eq!(annotation_status(201), Ok(()));
    assert_eq!(annotation_status(401), Err(ApiMutationError::Unauthorized));
    assert_eq!(annotation_status(409), Err(ApiMutationError::Conflict));
    assert_eq!(annotation_status(500), Err(ApiMutationError::Other("Lumi API вернул HTTP 500".to_string())));
    assert_eq!(ApiMutationError::Conflict.message(), "Конфликт версии: сервер сохранил более новую запись");
    assert_eq!(ApiMutationError::Unauthorized.message(), "Сессия истекла — войдите снова");
    assert_eq!(ApiMutationError::Other("x".to_string()).message(), "x");
}

#[test]
fn status_messages() {
    assert!(is_success(200) && is_success(299) && !is_success(300) && !is_success(199));
    assert_eq!(api_status_error(404), "Lumi API вернул HTTP 404.");
    assert_eq!(reader_response_status(204), Ok(()));
    assert_eq!(reader_response_status(503), Err("Lumi API вернул HTTP 503.".to_string()));
    assert_eq!(
        reader_post_status(413),
        Err("Lumi API отклонил запрос (HTTP 413). Проверьте формат, размер и подключение.".to_string())
    );
    assert_eq!(audio_upload_status(400), Err("Аудио не загружено: Lumi API вернул HTTP 400.".to_string()));
    assert_eq!(settings_save_status(500), Err("Настройки не сохранены: HTTP 500".to_string()));
    assert_eq!(progress_save_status(500), Err("Позиция не сохранена: HTTP 500".to_string()));
    assert_eq!(pdf_progress_save_status(500), Err("Позиция не сохранена: HTTP 500.".to_string()));
    assert_eq!(export_status(403), Err("Экспорт не выполнен: Lumi API вернул HTTP 403.".to_string()));
    assert_eq!(logout_status(500), Err(ApiError::Message("Выход завершился с HTTP 500.".to_string())));
    assert_eq!(logout_status(204), Ok(()));
    assert_eq!(desk_response_status(401), Err("Сессия завершена.".to_string()));
    assert_eq!(desk_response_status(409), Err("Запись уже изменилась в Reader. Обновите Desk и повторите.".to_string()));
    assert_eq!(desk_response_status(418), Err("Сервер вернул статус 418.".to_string()));
    assert_eq!(desk_response_status(200), Ok(()));
    assert_eq!(api_response_error(401), ApiError::Unauthorized);
    assert_eq!(api_response_error(500), ApiError::Message("Lumi API вернул HTTP 500.".to_string()));
    assert_eq!(ApiError::Unauthorized.text(), "Сессия не найдена.");
    assert_eq!(network_error("timeout"), "Сеть/API недоступны: timeout");
    assert_eq!(contract_error("bad"), "Auth challenge отклонён: bad");
}

#[test]
fn unsigned_numbers_parse_like_str_parse() {
    assert_eq!(parse_u32("12"), Some(12));
    assert_eq!(parse_u32("+7"), Some(7));
    assert_eq!(parse_u32("0042"), Some(42));
    assert_eq!(parse_u32("4294967295"), Some(u32::MAX));
    assert_eq!(parse_u32("4294967296"), None);
    assert_eq!(parse_u32(""), None);
    assert_eq!(parse_u32("+"), None);
    assert_eq!(parse_u32("-1"), None);
    assert_eq!(parse_u32(" 1"), None);
    assert_eq!(parse_usize("18446744073709551615"), "18446744073709551615".parse::<usize>().ok());
    for s in ["0", "99", "+5", "1a", "", "x"] {
        assert_eq!(parse_u32(s), s.parse::<u32>().ok());
    }
}

#[test]
fn sha256_in_lowercase_hex() {
    assert_eq!(hex_sha256(b"abc"), "ba7816bf8f01cfea414140de5dae2223b00361a396177a9cb410ff61f20015ad");
    assert_eq!(hex_sha256(b""), "e3b0c44298fc1c149afbf4c8996fb92427ae41e4649b934ca495991b7852b855");
    assert_eq!(hex_encode(&[0x00, 0x0f, 0xa0, 0xff]), "000fa0ff");
}

const ZERO_PHRASE: &str = "abandon abandon abandon abandon abandon abandon abandon abandon abandon abandon abandon abandon abandon abandon abandon abandon abandon abandon abandon abandon abandon abandon abandon art";

#[test]
fn recovery_phrase_gives_its_entropy() {
    assert_eq!(derive_entropy(ZERO_PHRASE), Ok(vec![0u8; 32]));
    assert_eq!(derive_entropy(&format!("  {ZERO_PHRASE}\n")), Ok(vec![0u8; 32]));
    let legal = "legal winner thank year wave sausage worth useful legal winner thank year wave sausage worth useful legal winner thank year wave sausage worth title";
    assert_eq!(derive_entropy(legal), Ok(vec![0x7fu8; 32]));
}

#[test]
fn recovery_phrase_errors() {
    let twelve = "abandon abandon abandon abandon abandon abandon abandon abandon abandon abandon abandon about";
    assert_eq!(
        derive_entropy(twelve),
        Err(ApiError::Message("Фраза восстановления должна содержать ровно 24 слова.".to_string()))
    );
    assert_eq!(
        derive_entropy("not a phrase"),
        Err(ApiError::Message("Нужна корректная recovery phrase из 24 слов.".to_string()))
    );
    let bad_checksum = ZERO_PHRASE.replace(" art", " abandon");
    assert_eq!(
        derive_entropy(&bad_checksum),
        Err(ApiError::Message("Нужна корректная recovery phrase из 24 слов.".to_string()))
    );
}

#[test]
fn cookies_are_read_by_name() {
    assert_eq!(read_cookie("a=1; lumi_csrf=xyz; b=2", "lumi_csrf"), Some("xyz".to_string()));
    assert_eq!(read_cookie("lumi_csrf=; x=1", "lumi_csrf"), Some(String::new()));
    assert_eq!(read_cookie("a=1=2", "a"), Some("1=2".to_string()));
    assert_eq!(read_cookie("noequals; c=3", "noequals"), None);
    assert_eq!(read_cookie("", "a"), None);
    assert_eq!(read_cookie("a=1; a=2", "a"), Some("1".to_string()));
}

#[test]
fn cover_monograms() {
    assert_eq!(cover_monogram("war and peace"), "WAP");
    assert_eq!(cover_monogram("  лев   толстой "), "ЛТ");
    assert_eq!(cover_monogram("a b c d e"), "ABC");
    assert_eq!(cover_monogram(""), "");
    assert_eq!(cover_monogram("ßig"), "SS");
}

#[test]
fn job_waits_are_bounded() {
    assert_eq!(job_wait_step(0, JobProgress::Active), JobWait::PollAgain);
    assert_eq!(job_wait_step(3, JobProgress::Succeeded), JobWait::Report);
    assert_eq!(job_wait_step(119, JobProgress::Cancelled), JobWait::Report);
    assert_eq!(job_wait_step(120, JobProgress::Failed), JobWait::GiveUp);
    assert_eq!(job_wait_timeout_message(), "Импорт продолжается дольше ожидаемого; его состояние сохранено.");
}

#[test]
fn library_labels() {
    assert_eq!(material_status_label(MaterialImportStatus::Importing), "Импортируется");
    assert_eq!(material_status_class(MaterialImportStatus::Cancelled), "danger");
    assert_eq!(material_status_class(MaterialImportStatus::Queued), "pending");
    assert_eq!(job_stage_label(JobStage::InspectingDocument), "Проверяем PDF");
    assert_eq!(material_format_short(MaterialKind::Telegram), "TG");
    assert_eq!(material_format_label(MaterialKind::WebPage), "Web · статья");
    assert_eq!(material_source_download_label(MaterialKind::Pdf), "Скачать исходный PDF");
}
