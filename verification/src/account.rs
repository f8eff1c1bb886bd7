//! Account logic of the web client: the recovery phrase, the session cookie,
//! import jobs, and how materials are labelled in the library.

use vstd::prelude::*;
use vstd::arithmetic::power2::pow2;
use crate::http::ApiError;
use crate::text::{chars_of, is_whitespace, split, split_chars, str_to_uppercase, string_from_chars, trim, trim_chars, trim_str, unicode_uppercase};

verus! {

// ---------------------------------------------------------------- recovery phrase

#[verifier::external_type_specification]
#[verifier::external_body]
pub struct ExMnemonic(bip39::Mnemonic);

#[verifier::external_type_specification]
#[verifier::external_body]
pub struct ExBip39Error(bip39::Error);

/// The indices, in the word list, of the words that a mnemonic holds.
pub uninterp spec fn mnemonic_words(m: bip39::Mnemonic) -> Seq<u16>;

/// The indices of a phrase's words in the English BIP-39 list when the phrase is
/// a valid English mnemonic (known words, allowed count, matching checksum).
pub uninterp spec fn english_mnemonic(phrase: Seq<char>) -> Option<Seq<u16>>;

/// Bit `b` of the words' 11-bit indices written one after another, most
/// significant bit first.
pub open spec fn word_bit(words: Seq<u16>, b: int) -> bool {
    (words[b / 11] as int / pow2((10 - b % 11) as nat) as int) % 2 == 1
}

/// The first `j` bits of byte `i` of the bit stream, as a number.
pub open spec fn byte_prefix(words: Seq<u16>, i: int, j: int) -> int
    decreases j,
{
    if j <= 0 {
        0
    } else {
        2 * byte_prefix(words, i, j - 1) + if word_bit(words, 8 * i + j - 1) { 1int } else { 0int }
    }
}

/// The entropy that a sequence of word indices encodes: the first four bytes
/// of every three words' bit stream (the rest is the checksum).
pub open spec fn mnemonic_entropy_of(words: Seq<u16>) -> Seq<u8> {
    Seq::new(words.len() / 3 * 4, |i: int| byte_prefix(words, i, 8) as u8)
}

/// The number of whitespace-separated words (`split_whitespace().count()`).
pub open spec fn word_count(s: Seq<char>) -> nat
    decreases s.len(),
{
    if s.len() == 0 {
        0
    } else {
        let starts = !is_whitespace(s.last()) && (s.len() == 1 || is_whitespace(s[s.len() - 2]));
        word_count(s.drop_last()) + if starts { 1nat } else { 0nat }
    }
}

/// The word counts that BIP-39 allows.
pub open spec fn allowed_word_count(n: nat) -> bool {
    12 <= n <= 24 && n % 3 == 0
}

/// `bip39::Mnemonic::parse_in_normalized` with the English list. The contract
/// names the outcome (`english_mnemonic`) and states what the source shows of it:
/// the words are counted with `split_whitespace`, and a count other than 12, 15,
/// 18, 21 or 24 is refused before any word is looked up.
#[verifier::external_body]
fn parse_english(phrase: &str) -> (r: Result<bip39::Mnemonic, bip39::Error>)
    ensures
        r is Ok <==> english_mnemonic(phrase@) is Some,
        r matches Ok(m) ==> Some(mnemonic_words(m)) == english_mnemonic(phrase@),
        r matches Ok(m) ==> mnemonic_words(m).len() == word_count(phrase@) && allowed_word_count(word_count(phrase@)),
        !allowed_word_count(word_count(phrase@)) ==> r is Err,
{
    bip39::Mnemonic::parse_in_normalized(bip39::Language::English, phrase)
}

/// `bip39::Mnemonic::word_count`: the number of words the mnemonic holds.
#[verifier::external_body]
fn mnemonic_word_count(m: &bip39::Mnemonic) -> (r: usize)
    ensures
        r == mnemonic_words(*m).len(),
{
    m.word_count()
}

/// `bip39::Mnemonic::to_entropy`: the words' 11-bit indices packed into bytes,
/// most significant bit first, keeping four bytes for every three words.
#[verifier::external_body]
fn mnemonic_entropy(m: &bip39::Mnemonic) -> (r: Vec<u8>)
    ensures
        r@ == mnemonic_entropy_of(mnemonic_words(*m)),
        r@.len() == mnemonic_words(*m).len() / 3 * 4,
{
    m.to_entropy()
}

/// The 256-bit entropy of a 24-word English recovery phrase (surrounding
/// whitespace ignored), from which the account keys are derived.
pub fn derive_entropy(phrase: &str) -> (r: Result<Vec<u8>, ApiError>)
    ensures
        english_mnemonic(trim(phrase@)) is None ==> (r matches Err(ApiError::Message(m))
            && m@ == "Нужна корректная recovery phrase из 24 слов."@),
        english_mnemonic(trim(phrase@)) matches Some(w) ==> (w.len() != 24 ==> (r matches Err(ApiError::Message(m))
            && m@ == "Фраза восстановления должна содержать ровно 24 слова."@)),
        english_mnemonic(trim(phrase@)) matches Some(w) ==> (w.len() == 24 ==> (r matches Ok(e)
            && e@ == mnemonic_entropy_of(w) && e@.len() == 32)),
{
    let trimmed = trim_str(phrase);
    let mnemonic = match parse_english(trimmed.as_str()) {
        Ok(m) => m,
        Err(_) => {
            return Err(ApiError::Message("Нужна корректная recovery phrase из 24 слов.".to_string()));
        },
    };
    if mnemonic_word_count(&mnemonic) != 24 {
        return Err(ApiError::Message("Фраза восстановления должна содержать ровно 24 слова.".to_string()));
    }
    let entropy = mnemonic_entropy(&mnemonic);
    if entropy.len() != 32 {
        return Err(ApiError::Message("Фраза восстановления должна кодировать 256 бит.".to_string()));
    }
    Ok(entropy)
}

// ---------------------------------------------------------------- session cookie

/// Position of the first `c` in `s`, or -1.
pub open spec fn first_pos(s: Seq<char>, c: char) -> int
    decreases s.len(),
{
    if s.len() == 0 {
        -1
    } else if first_pos(s.drop_last(), c) >= 0 {
        first_pos(s.drop_last(), c)
    } else if s.last() == c {
        s.len() - 1
    } else {
        -1
    }
}

/// The value of the first cookie named `name` among `;`-separated pieces.
pub open spec fn cookie_in(pieces: Seq<Seq<char>>, name: Seq<char>) -> Option<Seq<char>>
    decreases pieces.len(),
{
    if pieces.len() == 0 {
        None
    } else {
        let t = trim(pieces[0]);
        let eq = first_pos(t, '=');
        if eq >= 0 && t.take(eq) == name {
            Some(t.skip(eq + 1))
        } else {
            cookie_in(pieces.drop_first(), name)
        }
    }
}

proof fn lemma_first_pos(s: Seq<char>, c: char)
    ensures
        first_pos(s, c) == -1 || (0 <= first_pos(s, c) < s.len() && s[first_pos(s, c)] == c),
        forall|i: int| 0 <= i < s.len() && (first_pos(s, c) == -1 || i < first_pos(s, c)) ==> #[trigger] s[i] != c,
    decreases s.len(),
{
    if s.len() > 0 {
        lemma_first_pos(s.drop_last(), c);
        assert forall|i: int| 0 <= i < s.len() && (first_pos(s, c) == -1 || i < first_pos(s, c)) implies #[trigger] s[i] != c by {
            if i < s.len() - 1 {
                assert(s.drop_last()[i] == s[i]);
            }
        }
    }
}

fn find_char(s: &Vec<char>, c: char) -> (r: Option<usize>)
    ensures
        r is None ==> first_pos(s@, c) == -1,
        r matches Some(i) ==> i == first_pos(s@, c) && i < s@.len(),
{
    proof {
        lemma_first_pos(s@, c);
    }
    let mut i: usize = 0;
    while i < s.len()
        invariant
            i <= s@.len(),
            forall|j: int| 0 <= j < i ==> s@[j] != c,
            first_pos(s@, c) == -1 || (0 <= first_pos(s@, c) < s@.len() && s@[first_pos(s@, c)] == c),
            forall|j: int| 0 <= j < s@.len() && (first_pos(s@, c) == -1 || j < first_pos(s@, c)) ==> #[trigger] s@[j] != c,
        decreases s.len() - i,
    {
        if s[i] == c {
            return Some(i);
        }
        i += 1;
    }
    None
}

fn copy_slice(s: &Vec<char>, from: usize, to: usize) -> (r: Vec<char>)
    requires
        from <= to <= s@.len(),
    ensures
        r@ == s@.subrange(from as int, to as int),
{
    let mut out: Vec<char> = Vec::new();
    let mut i = from;
    while i < to
        invariant
            from <= i <= to <= s@.len(),
            out@ == s@.subrange(from as int, i as int),
        decreases to - i,
    {
        out.push(s[i]);
        i += 1;
    }
    out
}

/// The value of the cookie `name` in a `Cookie` header: the first `;`-separated
/// piece that, trimmed, reads `name=value`.
pub fn read_cookie(cookies: &str, name: &str) -> (r: Option<String>)
    ensures
        r matches Some(v) ==> cookie_in(split(cookies@, ';'), name@) == Some(v@),
        r is None ==> cookie_in(split(cookies@, ';'), name@) is None,
{
    let chars = chars_of(cookies);
    let pieces = split_chars(&chars, ';');
    let wanted = chars_of(name);
    let ghost all = split(cookies@, ';');
    let mut i: usize = 0;
    proof {
        assert(all.skip(0) =~= all);
    }
    while i < pieces.len()
        invariant
            i <= pieces@.len(),
            all == split(cookies@, ';'),
            pieces@.len() == all.len(),
            forall|k: int| 0 <= k < pieces@.len() ==> (#[trigger] pieces@[k])@ == all[k],
            wanted@ == name@,
            cookie_in(all, name@) == cookie_in(all.skip(i as int), name@),
        decreases pieces.len() - i,
    {
        let piece = trim_chars(&pieces[i]);
        proof {
            assert(all.skip(i as int)[0] == all[i as int]);
            assert(all.skip(i as int).drop_first() =~= all.skip(i + 1));
        }
        match find_char(&piece, '=') {
            Some(eq) => {
                let key = copy_slice(&piece, 0, eq);
                if crate::tags::chars_equal(&key, &wanted) {
                    let value = copy_slice(&piece, eq + 1, piece.len());
                    proof {
                        assert(key@ =~= piece@.take(eq as int));
                        assert(value@ =~= piece@.skip(eq + 1));
                        assert(piece@ == trim(all[i as int]));
                        assert(key@ == name@);
                        let rest = all.skip(i as int);
                        assert(trim(rest[0]) == piece@);
                        assert(cookie_in(rest, name@) == Some(piece@.skip(eq + 1)));
                        assert(cookie_in(all, name@) == Some(value@));
                    }
                    let found = string_from_chars(&value);
                    assert(found@ == value@);

                    return Some(found);
                }
                proof {
                    assert(key@ =~= piece@.take(eq as int));
                }
            },
            None => {},
        }
        i += 1;
    }
    None
}

// ---------------------------------------------------------------- import jobs

/// Where an import job is, as far as waiting for it goes.
#[derive(Clone, Copy, Debug, PartialEq, Eq, Structural)]
pub enum JobProgress {
    Active,
    Succeeded,
    Failed,
    Cancelled,
}

/// What waiting for an import job does next.
#[derive(Clone, Copy, Debug, PartialEq, Eq, Structural)]
pub enum JobWait {
    /// The job is over: report it.
    Report,
    /// Wait a moment and load the job again.
    PollAgain,
    /// The job takes too long: stop waiting.
    GiveUp,
}

/// Most loads of a job while waiting for it.
pub const JOB_POLL_LIMIT: u32 = 120;

/// The decision after `polls` loads of the job, with the job as last seen.
pub fn job_wait_step(polls: u32, progress: JobProgress) -> (r: JobWait)
    ensures
        polls >= JOB_POLL_LIMIT ==> r == JobWait::GiveUp,
        polls < JOB_POLL_LIMIT && progress != JobProgress::Active ==> r == JobWait::Report,
        polls < JOB_POLL_LIMIT && progress == JobProgress::Active ==> r == JobWait::PollAgain,
{
    if polls >= JOB_POLL_LIMIT {
        JobWait::GiveUp
    } else if progress != JobProgress::Active {
        JobWait::Report
    } else {
        JobWait::PollAgain
    }
}

/// The message when an import outlasts the wait.
pub fn job_wait_timeout_message() -> (r: &'static str)
    ensures
        r@ == "Импорт продолжается дольше ожидаемого; его состояние сохранено."@,
{
    "Импорт продолжается дольше ожидаемого; его состояние сохранено."
}

/// Waiting loads a job at most as many times as the limit allows.
pub proof fn law_job_wait_is_bounded(polls: u32, progress: JobProgress)
    ensures
        polls >= JOB_POLL_LIMIT ==> job_wait_step_spec(polls, progress) != JobWait::PollAgain,
{
}

pub open spec fn job_wait_step_spec(polls: u32, progress: JobProgress) -> JobWait {
    if polls >= JOB_POLL_LIMIT {
        JobWait::GiveUp
    } else if progress != JobProgress::Active {
        JobWait::Report
    } else {
        JobWait::PollAgain
    }
}

// ---------------------------------------------------------------- library labels

/// Import status of a material.
#[derive(Clone, Copy, Debug, PartialEq, Eq, Structural)]
pub enum MaterialImportStatus {
    Queued,
    Importing,
    Ready,
    Failed,
    Cancelled,
}

pub fn material_status_label(status: MaterialImportStatus) -> (r: &'static str)
    ensures
        r@ == match status {
            MaterialImportStatus::Queued => "В очереди"@,
            MaterialImportStatus::Importing => "Импортируется"@,
            MaterialImportStatus::Ready => "Готово"@,
            MaterialImportStatus::Failed => "Ошибка"@,
            MaterialImportStatus::Cancelled => "Отменено"@,
        },
{
    match status {
        MaterialImportStatus::Queued => "В очереди",
        MaterialImportStatus::Importing => "Импортируется",
        MaterialImportStatus::Ready => "Готово",
        MaterialImportStatus::Failed => "Ошибка",
        MaterialImportStatus::Cancelled => "Отменено",
    }
}

pub fn material_status_class(status: MaterialImportStatus) -> (r: &'static str)
    ensures
        r@ == match status {
            MaterialImportStatus::Ready => "success"@,
            MaterialImportStatus::Failed | MaterialImportStatus::Cancelled => "danger"@,
            MaterialImportStatus::Queued | MaterialImportStatus::Importing => "pending"@,
        },
{
    match status {
        MaterialImportStatus::Ready => "success",
        MaterialImportStatus::Failed | MaterialImportStatus::Cancelled => "danger",
        MaterialImportStatus::Queued | MaterialImportStatus::Importing => "pending",
    }
}

/// Stage of an import job.
#[derive(Clone, Copy, Debug, PartialEq, Eq, Structural)]
pub enum JobStage {
    SourceAccepted,
    FetchingSource,
    CapturingSnapshot,
    CapturingTelegramMedia,
    FetchingLinkedSources,
    ExtractingContent,
    ValidatingContainer,
    InspectingDocument,
    Normalizing,
    Persisting,
    ReaderDocumentBuilt,
    Committed,
}

pub fn job_stage_label(stage: JobStage) -> (r: &'static str)
    ensures
        r@ == match stage {
            JobStage::SourceAccepted => "Исходник сохранён"@,
            JobStage::FetchingSource => "Загружаем страницу"@,
            JobStage::CapturingSnapshot => "Сохраняем копию страницы"@,
            JobStage::CapturingTelegramMedia => "Сохраняем фото из Telegram"@,
            JobStage::FetchingLinkedSources => "Загружаем связанные страницы"@,
            JobStage::ExtractingContent => "Извлекаем основной текст"@,
            JobStage::ValidatingContainer => "Проверяем контейнер"@,
            JobStage::InspectingDocument => "Проверяем PDF"@,
            JobStage::Normalizing => "Нормализуем главы"@,
            JobStage::Persisting => "Публикуем результат"@,
            JobStage::ReaderDocumentBuilt => "Готовим документ чтения"@,
            JobStage::Committed => "Импорт завершён"@,
        },
{
    match stage {
        JobStage::SourceAccepted => "Исходник сохранён",
        JobStage::FetchingSource => "Загружаем страницу",
        JobStage::CapturingSnapshot => "Сохраняем копию страницы",
        JobStage::CapturingTelegramMedia => "Сохраняем фото из Telegram",
        JobStage::FetchingLinkedSources => "Загружаем связанные страницы",
        JobStage::ExtractingContent => "Извлекаем основной текст",
        JobStage::ValidatingContainer => "Проверяем контейнер",
        JobStage::InspectingDocument => "Проверяем PDF",
        JobStage::Normalizing => "Нормализуем главы",
        JobStage::Persisting => "Публикуем результат",
        JobStage::ReaderDocumentBuilt => "Готовим документ чтения",
        JobStage::Committed => "Импорт завершён",
    }
}

/// Source format of a material.
#[derive(Clone, Copy, Debug, PartialEq, Eq, Structural)]
pub enum MaterialKind {
    Epub,
    Pdf,
    WebPage,
    Telegram,
    Markdown,
    Lum,
}

pub fn material_format_short(kind: MaterialKind) -> (r: &'static str)
    ensures
        r@ == match kind {
            MaterialKind::Epub => "EPUB"@,
            MaterialKind::Pdf => "PDF"@,
            MaterialKind::WebPage => "WEB"@,
            MaterialKind::Telegram => "TG"@,
            MaterialKind::Markdown => "MD"@,
            MaterialKind::Lum => "LUM"@,
        },
{
    match kind {
        MaterialKind::Epub => "EPUB",
        MaterialKind::Pdf => "PDF",
        MaterialKind::WebPage => "WEB",
        MaterialKind::Telegram => "TG",
        MaterialKind::Markdown => "MD",
        MaterialKind::Lum => "LUM",
    }
}

pub fn material_format_label(kind: MaterialKind) -> (r: &'static str)
    ensures
        r@ == match kind {
            MaterialKind::Epub => "EPUB · книга"@,
            MaterialKind::Pdf => "PDF · документ"@,
            MaterialKind::WebPage => "Web · статья"@,
            MaterialKind::Telegram => "Telegram · составной материал"@,
            MaterialKind::Markdown => "Markdown · документ"@,
            MaterialKind::Lum => "LUM · книга"@,
        },
{
    match kind {
        MaterialKind::Epub => "EPUB · книга",
        MaterialKind::Pdf => "PDF · документ",
        MaterialKind::WebPage => "Web · статья",
        MaterialKind::Telegram => "Telegram · составной материал",
        MaterialKind::Markdown => "Markdown · документ",
        MaterialKind::Lum => "LUM · книга",
    }
}

pub fn material_source_download_label(kind: MaterialKind) -> (r: &'static str)
    ensures
        r@ == match kind {
            MaterialKind::Epub => "Скачать исходник"@,
            MaterialKind::Pdf => "Скачать исходный PDF"@,
            MaterialKind::WebPage => "Скачать сохранённую страницу"@,
            MaterialKind::Telegram => "Скачать исходное Telegram-сообщение"@,
            MaterialKind::Markdown => "Скачать исходный Markdown"@,
            MaterialKind::Lum => "Скачать исходный LUM"@,
        },
{
    match kind {
        MaterialKind::Epub => "Скачать исходник",
        MaterialKind::Pdf => "Скачать исходный PDF",
        MaterialKind::WebPage => "Скачать сохранённую страницу",
        MaterialKind::Telegram => "Скачать исходное Telegram-сообщение",
        MaterialKind::Markdown => "Скачать исходный Markdown",
        MaterialKind::Lum => "Скачать исходный LUM",
    }
}

/// The first scalars of the whitespace-separated words, in order.
pub open spec fn initials(s: Seq<char>) -> Seq<char>
    decreases s.len(),
{
    if s.len() == 0 {
        Seq::empty()
    } else {
        let starts = !is_whitespace(s.last()) && (s.len() == 1 || is_whitespace(s[s.len() - 2]));
        if starts { initials(s.drop_last()).push(s.last()) } else { initials(s.drop_last()) }
    }
}

/// The monogram on a cover without an image: the initials of the first three
/// words of the title, upper-cased.
pub fn cover_monogram(title: &str) -> (r: String)
    ensures
        r@ == unicode_uppercase(if initials(title@).len() <= 3 { initials(title@) } else { initials(title@).take(3) }),
{
    let chars = chars_of(title);
    let mut picked: Vec<char> = Vec::new();
    let mut i: usize = 0;
    proof {
        assert(title@.take(0) =~= Seq::<char>::empty());
    }
    while i < chars.len()
        invariant
            i <= chars@.len(),
            chars@ == title@,
            picked@ == (if initials(title@.take(i as int)).len() <= 3 {
                initials(title@.take(i as int))
            } else {
                initials(title@.take(i as int)).take(3)
            }),
        decreases chars.len() - i,
    {
        let starts = !crate::text::char_is_whitespace(chars[i])
            && (i == 0 || crate::text::char_is_whitespace(chars[i - 1]));
        proof {
            let t = title@.take(i + 1);
            assert(t.drop_last() =~= title@.take(i as int));
            assert(t.last() == title@[i as int]);
            if i > 0 {
                assert(t[t.len() - 2] == title@[i - 1]);
            }
        }
        if starts && picked.len() < 3 {
            picked.push(chars[i]);
        }
        proof {
            let before = initials(title@.take(i as int));
            let after = initials(title@.take(i + 1));
            if starts {
                assert(after == before.push(title@[i as int]));
                if before.len() < 3 {
                    assert(picked@ =~= (if after.len() <= 3 { after } else { after.take(3) }));
                } else {
                    assert(after.take(3) =~= before.take(3));
                }
            }
        }
        i += 1;
    }
    proof {
        assert(title@.take(chars@.len() as int) =~= title@);
    }
    let picked_string = string_from_chars(&picked);
    str_to_uppercase(picked_string.as_str())
}

} // verus!
