//! What the web client makes of an API response status: success, a session
//! that ended, a version conflict, or a message naming the status.

use vstd::prelude::*;
use crate::text::{chars_of, string_from_chars};

verus! {

/// The decimal digit `d`.
pub open spec fn digit_char(d: int) -> char {
    if d == 0 { '0' } else if d == 1 { '1' } else if d == 2 { '2' } else if d == 3 { '3' }
    else if d == 4 { '4' } else if d == 5 { '5' } else if d == 6 { '6' } else if d == 7 { '7' }
    else if d == 8 { '8' } else { '9' }
}

/// The decimal notation of a number, as `{}` formats it.
pub open spec fn decimal(n: nat) -> Seq<char>
    decreases n,
{
    if n < 10 {
        seq![digit_char(n as int)]
    } else {
        decimal(n / 10).push(digit_char((n % 10) as int))
    }
}

fn digit(d: u64) -> (c: char)
    requires
        d < 10,
    ensures
        c == digit_char(d as int),
{
    if d == 0 { '0' } else if d == 1 { '1' } else if d == 2 { '2' } else if d == 3 { '3' }
    else if d == 4 { '4' } else if d == 5 { '5' } else if d == 6 { '6' } else if d == 7 { '7' }
    else if d == 8 { '8' } else { '9' }
}

fn decimal_chars(n: u64) -> (r: Vec<char>)
    ensures
        r@ == decimal(n as nat),
    decreases n,
{
    if n < 10 {
        let mut v: Vec<char> = Vec::new();
        v.push(digit(n));
        proof {
            assert(v@ =~= seq![digit_char(n as int)]);
        }
        v
    } else {
        let mut v = decimal_chars(n / 10);
        v.push(digit(n % 10));
        v
    }
}

/// The decimal notation of a number.
pub fn format_decimal(n: u64) -> (r: String)
    ensures
        r@ == decimal(n as nat),
{
    let v = decimal_chars(n);
    string_from_chars(&v)
}

fn append(out: &mut Vec<char>, s: &str)
    ensures
        final(out)@ == old(out)@ + s@,
{
    let chars = chars_of(s);
    let mut i: usize = 0;
    let ghost before = out@;
    while i < chars.len()
        invariant
            i <= chars@.len(),
            chars@ == s@,
            out@ == before + chars@.take(i as int),
        decreases chars.len() - i,
    {
        out.push(chars[i]);
        i += 1;
        proof {
            assert(chars@.take(i as int) =~= chars@.take(i - 1).push(chars@[i - 1]));
        }
    }
    proof {
        assert(chars@.take(chars@.len() as int) =~= chars@);
    }
}

/// `prefix`, the number in decimal, then `suffix`.
pub fn framed_number(prefix: &str, n: u64, suffix: &str) -> (r: String)
    ensures
        r@ == prefix@ + decimal(n as nat) + suffix@,
{
    let mut out: Vec<char> = Vec::new();
    append(&mut out, prefix);
    let digits = decimal_chars(n);
    let mut i: usize = 0;
    let ghost before = out@;
    while i < digits.len()
        invariant
            i <= digits@.len(),
            out@ == before + digits@.take(i as int),
        decreases digits.len() - i,
    {
        out.push(digits[i]);
        i += 1;
        proof {
            assert(digits@.take(i as int) =~= digits@.take(i - 1).push(digits@[i - 1]));
        }
    }
    proof {
        assert(digits@.take(digits@.len() as int) =~= digits@);
        assert(out@ =~= prefix@ + decimal(n as nat));
    }
    append(&mut out, suffix);
    string_from_chars(&out)
}

/// `prefix` followed by the number in decimal.
pub fn number_after(prefix: &str, n: u64) -> (r: String)
    ensures
        r@ == prefix@ + decimal(n as nat),
{
    let r = framed_number(prefix, n, "");
    proof {
        reveal_strlit("");
        assert(r@ =~= prefix@ + decimal(n as nat));
    }
    r
}

/// `prefix` followed by `detail`.
pub fn prefixed(prefix: &str, detail: &str) -> (r: String)
    ensures
        r@ == prefix@ + detail@,
{
    let mut out: Vec<char> = Vec::new();
    append(&mut out, prefix);
    append(&mut out, detail);
    proof {
        assert(out@ =~= prefix@ + detail@);
    }
    string_from_chars(&out)
}

/// A status in `200..=299`, as `Response::ok` counts it.
pub open spec fn status_ok(status: u16) -> bool {
    200 <= status <= 299
}

pub fn is_success(status: u16) -> (r: bool)
    ensures
        r == status_ok(status),
{
    200 <= status && status <= 299
}

/// The message of a request that failed with a status.
pub open spec fn api_status_message(status: u16) -> Seq<char> {
    "Lumi API вернул HTTP "@ + decimal(status as nat) + "."@
}

/// "Lumi API вернул HTTP {status}." — the common message of a failed request.
pub fn api_status_error(status: u16) -> (r: String)
    ensures
        r@ == api_status_message(status),
{
    framed_number("Lumi API вернул HTTP ", status as u64, ".")
}

/// The message of a request that the network or the API never answered.
pub fn network_error(detail: &str) -> (r: String)
    ensures
        r@ == "Сеть/API недоступны: "@ + detail@,
{
    prefixed("Сеть/API недоступны: ", detail)
}

/// The message of an authentication challenge that was refused.
pub fn contract_error(detail: &str) -> (r: String)
    ensures
        r@ == "Auth challenge отклонён: "@ + detail@,
{
    prefixed("Auth challenge отклонён: ", detail)
}

/// What an annotation mutation that got an answer came to.
#[derive(Clone, Debug, PartialEq, Eq)]
pub enum ApiMutationError {
    Conflict,
    Unauthorized,
    Other(String),
}

impl ApiMutationError {
    pub open spec fn spec_message(&self) -> Seq<char> {
        match self {
            ApiMutationError::Conflict => "Конфликт версии: сервер сохранил более новую запись"@,
            ApiMutationError::Unauthorized => "Сессия истекла — войдите снова"@,
            ApiMutationError::Other(m) => m@,
        }
    }

    /// What the reader shows for the error.
    pub fn message(&self) -> (r: String)
        ensures
            r@ == self.spec_message(),
    {
        match self {
            ApiMutationError::Conflict => "Конфликт версии: сервер сохранил более новую запись".to_string(),
            ApiMutationError::Unauthorized => "Сессия истекла — войдите снова".to_string(),
            ApiMutationError::Other(m) => {
                let c = chars_of(m.as_str());
                string_from_chars(&c)
            },
        }
    }
}

/// How an annotation mutation's status is read: a success (the body is then
/// the annotation), an ended session, a version conflict, or a message.
pub fn annotation_status(status: u16) -> (r: Result<(), ApiMutationError>)
    ensures
        status_ok(status) <==> r is Ok,
        status == 401 ==> r == Err::<(), ApiMutationError>(ApiMutationError::Unauthorized),
        status == 409 ==> r == Err::<(), ApiMutationError>(ApiMutationError::Conflict),
        !status_ok(status) && status != 401 && status != 409 ==> (r matches Err(ApiMutationError::Other(m))
            && m@ == "Lumi API вернул HTTP "@ + decimal(status as nat)),
{
    if is_success(status) {
        Ok(())
    } else if status == 401 {
        Err(ApiMutationError::Unauthorized)
    } else if status == 409 {
        Err(ApiMutationError::Conflict)
    } else {
        Err(ApiMutationError::Other(number_after("Lumi API вернул HTTP ", status as u64)))
    }
}

/// The error of the account API for a failed status: an ended session or a message.
#[derive(Clone, Debug, PartialEq, Eq)]
pub enum ApiError {
    Unauthorized,
    Message(String),
}

impl ApiError {
    pub open spec fn spec_text(&self) -> Seq<char> {
        match self {
            ApiError::Unauthorized => "Сессия не найдена."@,
            ApiError::Message(m) => m@,
        }
    }

    /// What the error says to the reader.
    pub fn text(&self) -> (r: String)
        ensures
            r@ == self.spec_text(),
    {
        match self {
            ApiError::Unauthorized => "Сессия не найдена.".to_string(),
            ApiError::Message(m) => {
                let c = chars_of(m.as_str());
                string_from_chars(&c)
            },
        }
    }
}

/// The account API's error for a status that is not a success.
pub fn api_response_error(status: u16) -> (r: ApiError)
    ensures
        status == 401 ==> r == ApiError::Unauthorized,
        status != 401 ==> (r matches ApiError::Message(m) && m@ == api_status_message(status)),
{
    if status == 401 {
        ApiError::Unauthorized
    } else {
        ApiError::Message(api_status_error(status))
    }
}

/// The Desk's reading of a response status: `Ok` for a success, else the message.
pub fn desk_response_status(status: u16) -> (r: Result<(), String>)
    ensures
        status == 401 ==> (r matches Err(m) && m@ == "Сессия завершена."@),
        status == 409 ==> (r matches Err(m) && m@ == "Запись уже изменилась в Reader. Обновите Desk и повторите."@),
        status != 401 && status != 409 ==> (status_ok(status) <==> r is Ok),
        status != 401 && status != 409 && !status_ok(status) ==> (r matches Err(m)
            && m@ == "Сервер вернул статус "@ + decimal(status as nat) + "."@),
{
    if status == 401 {
        Err("Сессия завершена.".to_string())
    } else if status == 409 {
        Err("Запись уже изменилась в Reader. Обновите Desk и повторите.".to_string())
    } else if !is_success(status) {
        Err(framed_number("Сервер вернул статус ", status as u64, "."))
    } else {
        Ok(())
    }
}

/// A reader request's status: `Ok` for a success, else the common message.
pub fn reader_response_status(status: u16) -> (r: Result<(), String>)
    ensures
        status_ok(status) <==> r is Ok,
        r matches Err(m) ==> m@ == api_status_message(status),
{
    if is_success(status) {
        Ok(())
    } else {
        Err(api_status_error(status))
    }
}

/// A reader JSON post's status: `Ok` for a success, else a message that asks
/// to check the request.
pub fn reader_post_status(status: u16) -> (r: Result<(), String>)
    ensures
        status_ok(status) <==> r is Ok,
        r matches Err(m) ==> m@ == "Lumi API отклонил запрос (HTTP "@ + decimal(status as nat)
            + "). Проверьте формат, размер и подключение."@,
{
    if is_success(status) {
        Ok(())
    } else {
        Err(framed_number("Lumi API отклонил запрос (HTTP ", status as u64, "). Проверьте формат, размер и подключение."))
    }
}

/// The status of an audio upload.
pub fn audio_upload_status(status: u16) -> (r: Result<(), String>)
    ensures
        status_ok(status) <==> r is Ok,
        r matches Err(m) ==> m@ == "Аудио не загружено: Lumi API вернул HTTP "@ + decimal(status as nat) + "."@,
{
    if is_success(status) {
        Ok(())
    } else {
        Err(framed_number("Аудио не загружено: Lumi API вернул HTTP ", status as u64, "."))
    }
}

/// The status of saving reader settings.
pub fn settings_save_status(status: u16) -> (r: Result<(), String>)
    ensures
        status_ok(status) <==> r is Ok,
        r matches Err(m) ==> m@ == "Настройки не сохранены: HTTP "@ + decimal(status as nat),
{
    if is_success(status) {
        Ok(())
    } else {
        Err(number_after("Настройки не сохранены: HTTP ", status as u64))
    }
}

/// The status of saving the reading position in the reflowable reader.
pub fn progress_save_status(status: u16) -> (r: Result<(), String>)
    ensures
        status_ok(status) <==> r is Ok,
        r matches Err(m) ==> m@ == "Позиция не сохранена: HTTP "@ + decimal(status as nat),
{
    if is_success(status) {
        Ok(())
    } else {
        Err(number_after("Позиция не сохранена: HTTP ", status as u64))
    }
}

/// The status of saving the reading position in the PDF reader.
pub fn pdf_progress_save_status(status: u16) -> (r: Result<(), String>)
    ensures
        status_ok(status) <==> r is Ok,
        r matches Err(m) ==> m@ == "Позиция не сохранена: HTTP "@ + decimal(status as nat) + "."@,
{
    if is_success(status) {
        Ok(())
    } else {
        Err(framed_number("Позиция не сохранена: HTTP ", status as u64, "."))
    }
}

/// The status of signing out.
pub fn logout_status(status: u16) -> (r: Result<(), ApiError>)
    ensures
        status_ok(status) <==> r is Ok,
        r matches Err(e) ==> (e matches ApiError::Message(m) && m@ == "Выход завершился с HTTP "@ + decimal(status as nat) + "."@),
{
    if is_success(status) {
        Ok(())
    } else {
        Err(ApiError::Message(framed_number("Выход завершился с HTTP ", status as u64, ".")))
    }
}

/// The status of an annotation export.
pub fn export_status(status: u16) -> (r: Result<(), String>)
    ensures
        status_ok(status) <==> r is Ok,
        r matches Err(m) ==> m@ == "Экспорт не выполнен: Lumi API вернул HTTP "@ + decimal(status as nat) + "."@,
{
    if is_success(status) {
        Ok(())
    } else {
        Err(framed_number("Экспорт не выполнен: Lumi API вернул HTTP ", status as u64, "."))
    }
}

} // verus!
