//! The AI chat surface: labels, how long a reply is waited for, and where a
//! source that an answer cites opens in the readers.

use vstd::prelude::*;
use crate::parse::{parse_u32, spec_parse_unsigned};
use crate::text::{chars_of, trim, trim_chars};

verus! {

/// State of the AI provider key.
#[derive(Clone, Copy, Debug, PartialEq, Eq, Structural)]
pub enum CredentialState {
    Missing,
    Unvalidated,
    Valid,
    Invalid,
}

pub fn credential_label(state: CredentialState) -> (r: &'static str)
    ensures
        r@ == match state {
            CredentialState::Missing => "ключ не добавлен"@,
            CredentialState::Unvalidated => "не проверен"@,
            CredentialState::Valid => "готов"@,
            CredentialState::Invalid => "нужна повторная проверка"@,
        },
{
    match state {
        CredentialState::Missing => "ключ не добавлен",
        CredentialState::Unvalidated => "не проверен",
        CredentialState::Valid => "готов",
        CredentialState::Invalid => "нужна повторная проверка",
    }
}

/// State of a message of the chat.
#[derive(Clone, Copy, Debug, PartialEq, Eq, Structural)]
pub enum MessageStatus {
    Committed,
    Streaming,
    Completed,
    Failed,
    Cancelled,
}

pub fn message_status_label(status: MessageStatus) -> (r: &'static str)
    ensures
        r@ == match status {
            MessageStatus::Failed => "Ответ завершился ошибкой"@,
            MessageStatus::Cancelled => "Ответ остановлен"@,
            _ => ""@,
        },
{
    match status {
        MessageStatus::Failed => "Ответ завершился ошибкой",
        MessageStatus::Cancelled => "Ответ остановлен",
        _ => "",
    }
}

/// Most loads of a conversation while its reply is generated.
pub const CONVERSATION_POLL_LIMIT: u32 = 600;

/// Whether to load the conversation again after `polls` loads, given the last
/// load: `Some(true)` while a generation is active, `Some(false)` when none is,
/// `None` when the load failed.
pub fn keep_polling(polls: u32, last: Option<bool>) -> (r: bool)
    ensures
        r == (polls < CONVERSATION_POLL_LIMIT && last == Some(true)),
{
    polls < CONVERSATION_POLL_LIMIT && match last {
        Some(active) => active,
        None => false,
    }
}

pub(crate) fn same_str(a: &str, b: &str) -> (r: bool)
    ensures
        r == (a@ == b@),
{
    let x = chars_of(a);
    let y = chars_of(b);
    crate::tags::chars_equal(&x, &y)
}

/// Whether a cited source is a learning item's source (rather than a summary's).
pub fn is_learning_source(kind: &str) -> (r: bool)
    ensures
        r == (kind@ == "learning_source"@),
{
    same_str(kind, "learning_source")
}

/// A stored reader target is taken only by the reader of its material.
pub fn target_is_for(target_material: u128, material: u128) -> (r: bool)
    ensures
        r == (target_material == material),
{
    target_material == material
}

/// What a cited source points at, as the reflowable reader finds it.
#[derive(Clone, Copy, Debug, PartialEq, Eq, Structural)]
pub enum ReaderTargetScope {
    /// A selection; whether its anchor resolves in this revision.
    Selection { resolved: bool },
    /// A chapter; whether a page of it was found.
    Chapter { found: bool },
    /// The whole material.
    Material,
}

/// The message after the reflowable reader opened a cited source.
pub fn reader_target_message(same_revision: bool, learning_source: bool, scope: ReaderTargetScope) -> (r: &'static str)
    ensures
        !same_revision ==> r@ == "Источник ответа относится к другой версии материала."@,
        same_revision ==> r@ == match scope {
            ReaderTargetScope::Selection { resolved } => if resolved {
                "Открыт источник ответа AI."@
            } else {
                "Не удалось восстановить источник ответа в этой версии."@
            },
            ReaderTargetScope::Chapter { found } => if found {
                if learning_source { "Открыт источник задания."@ } else { "Открыт источник саммари."@ }
            } else {
                if learning_source { "Не удалось найти раздел источника задания."@ } else { "Не удалось найти главу источника саммари."@ }
            },
            ReaderTargetScope::Material => if learning_source {
                "Открыт материал источника задания."@
            } else {
                "Открыт материал источника саммари."@
            },
        },
{
    if !same_revision {
        return "Источник ответа относится к другой версии материала.";
    }
    match scope {
        ReaderTargetScope::Selection { resolved } => if resolved {
            "Открыт источник ответа AI."
        } else {
            "Не удалось восстановить источник ответа в этой версии."
        },
        ReaderTargetScope::Chapter { found } => if found {
            if learning_source { "Открыт источник задания." } else { "Открыт источник саммари." }
        } else {
            if learning_source { "Не удалось найти раздел источника задания." } else { "Не удалось найти главу источника саммари." }
        },
        ReaderTargetScope::Material => if learning_source {
            "Открыт материал источника задания."
        } else {
            "Открыт материал источника саммари."
        },
    }
}

/// What a cited source points at, as the PDF reader finds it.
pub enum PdfTargetScope {
    /// A selection, with the PDF page of its anchor when it has one.
    Selection { page: Option<u32> },
    /// A chapter reference such as `page:12`.
    Chapter { scope_ref: String },
    /// The whole material.
    Material,
}

/// The page that a chapter reference of the PDF reader names: the number after
/// `page:` (or the whole reference), 0 when it is not a number.
pub open spec fn spec_chapter_page(scope_ref: Seq<char>) -> nat {
    let prefix = "page:"@;
    let rest = if scope_ref.len() >= prefix.len() && scope_ref.take(prefix.len() as int) == prefix {
        scope_ref.skip(prefix.len() as int)
    } else {
        scope_ref
    };
    match spec_parse_unsigned(rest, u32::MAX as nat) {
        Some(v) => v,
        None => 0,
    }
}

pub fn pdf_chapter_page(scope_ref: &str) -> (r: u32)
    ensures
        r as nat == spec_chapter_page(scope_ref@),
{
    let chars = chars_of(scope_ref);
    let prefix = chars_of("page:");
    let rest: String = if crate::text::chars_start_with(&chars, &prefix) {
        let mut out: Vec<char> = Vec::new();
        let mut i = prefix.len();
        while i < chars.len()
            invariant
                prefix@.len() <= i <= chars@.len(),
                out@ == chars@.subrange(prefix@.len() as int, i as int),
            decreases chars.len() - i,
        {
            out.push(chars[i]);
            i += 1;
        }
        proof {
            assert(out@ =~= scope_ref@.skip(prefix@.len() as int));
        }
        crate::text::string_from_chars(&out)
    } else {
        crate::text::string_from_chars(&chars)
    };
    match parse_u32(rest.as_str()) {
        Some(v) => v,
        None => 0,
    }
}

/// Where the PDF reader goes for a cited source: the page, and whether the
/// source's anchor is selected there; or the message when it cannot go.
pub fn pdf_target(same_revision: bool, scope: &PdfTargetScope) -> (r: Result<(u32, bool), &'static str>)
    ensures
        !same_revision ==> (r matches Err(m) && m@ == "Источник ответа относится к другой версии материала."@),
        same_revision ==> match scope {
            PdfTargetScope::Selection { page } => match page {
                Some(p) => r == Ok::<(u32, bool), &'static str>((*p, true)),
                None => r matches Err(m) && m@ == "Citation не содержит PDF page anchor."@,
            },
            PdfTargetScope::Chapter { scope_ref } => r matches Ok(t) && t.0 as nat == spec_chapter_page(scope_ref@) && !t.1,
            PdfTargetScope::Material => r == Ok::<(u32, bool), &'static str>((0u32, false)),
        },
{
    if !same_revision {
        return Err("Источник ответа относится к другой версии материала.");
    }
    match scope {
        PdfTargetScope::Selection { page } => match page {
            Some(p) => Ok((*p, true)),
            None => Err("Citation не содержит PDF page anchor."),
        },
        PdfTargetScope::Chapter { scope_ref } => Ok((pdf_chapter_page(scope_ref.as_str()), false)),
        PdfTargetScope::Material => Ok((0, false)),
    }
}

// ---------------------------------------------------------------- the chat composer

/// The composer of the AI chat: whether the chat and its settings are open,
/// the draft, the context attached to it, whether a request is in flight, the
/// error shown, and the generation last started.
pub struct ChatComposer<A, G> {
    pub open: bool,
    pub settings_open: bool,
    pub draft: String,
    pub attachments: Vec<A>,
    pub busy: bool,
    pub error: String,
    pub last_generation: Option<G>,
}

/// What happens to the composer.
pub enum ChatEvent<A, G> {
    /// The reader submits the draft.
    Submit,
    /// The reader hands a source over to the chat, with an instruction.
    Handoff { instruction: String, attachment: A, auto_submit: bool },
    /// The message request answered: the generation it started, or an error.
    Sent(Result<G, String>),
    /// The conversation was loaded again after a message was accepted.
    Polled,
}

/// What the application does next.
#[derive(Clone, Copy, Debug, PartialEq, Eq, Structural)]
pub enum ChatAction {
    Nothing,
    /// Send the composer's draft with its attachments, creating the
    /// conversation first when `ensure_conversation`.
    Send { ensure_conversation: bool },
    /// Put the focus in the composer.
    FocusComposer,
    /// Load the conversation until its generation settles, then report `Polled`.
    PollConversation,
}

/// One step of the chat composer.
///
/// A blank draft is not sent and changes nothing. Any other draft is sent once,
/// as it stands, with its attachments. An accepted message clears the draft and
/// the attachments and records the generation, and the conversation is loaded
/// again; a refused one keeps both and shows the error. A handoff opens the chat
/// with the source attached and the instruction as the draft, and sends it only
/// when asked to.
pub fn chat_step<A, G>(c: ChatComposer<A, G>, e: ChatEvent<A, G>) -> (r: (ChatComposer<A, G>, ChatAction))
    ensures
        e is Submit && trim(c.draft@).len() == 0 ==> {
            &&& r.1 == ChatAction::Nothing
            &&& r.0 == c
        },
        e is Submit && trim(c.draft@).len() > 0 ==> {
            &&& r.1 == ChatAction::Send { ensure_conversation: false }
            &&& r.0.draft == c.draft && r.0.attachments@ == c.attachments@
            &&& r.0.busy && r.0.error@.len() == 0
            &&& r.0.last_generation == c.last_generation
            &&& r.0.open == c.open && r.0.settings_open == c.settings_open
        },
        e matches ChatEvent::Handoff { instruction, attachment, auto_submit } ==> {
            &&& r.0.open && !r.0.settings_open
            &&& r.0.draft == instruction
            &&& r.0.attachments@ == seq![attachment]
            &&& r.0.last_generation == c.last_generation
            &&& !auto_submit ==> r.1 == ChatAction::FocusComposer && r.0.busy == c.busy && r.0.error == c.error
            &&& auto_submit ==> r.1 == (ChatAction::Send { ensure_conversation: true }) && r.0.busy && r.0.error@.len() == 0
        },
        e matches ChatEvent::Sent(Ok(g)) ==> {
            &&& r.1 == ChatAction::PollConversation
            &&& r.0.last_generation == Some(g)
            &&& r.0.draft@.len() == 0 && r.0.attachments@.len() == 0
            &&& r.0.busy == c.busy && r.0.error == c.error
            &&& r.0.open == c.open && r.0.settings_open == c.settings_open
        },
        e matches ChatEvent::Sent(Err(m)) ==> {
            &&& r.1 == ChatAction::Nothing
            &&& r.0.error == m && !r.0.busy
            &&& r.0.draft == c.draft && r.0.attachments@ == c.attachments@
            &&& r.0.last_generation == c.last_generation
            &&& r.0.open == c.open && r.0.settings_open == c.settings_open
        },
        e is Polled ==> {
            &&& r.1 == ChatAction::Nothing
            &&& !r.0.busy
            &&& r.0.draft == c.draft && r.0.attachments@ == c.attachments@ && r.0.error == c.error
            &&& r.0.last_generation == c.last_generation
            &&& r.0.open == c.open && r.0.settings_open == c.settings_open
        },
{
    match e {
        ChatEvent::Submit => {
            let blank = trim_chars(&chars_of(c.draft.as_str())).len() == 0;
            if blank {
                (c, ChatAction::Nothing)
            } else {
                (ChatComposer { busy: true, error: String::new(), ..c }, ChatAction::Send { ensure_conversation: false })
            }
        },
        ChatEvent::Handoff { instruction, attachment, auto_submit } => {
            let attachments = vec![attachment];
            if auto_submit {
                (ChatComposer { open: true, settings_open: false, draft: instruction, attachments, busy: true, error: String::new(), ..c },
                    ChatAction::Send { ensure_conversation: true })
            } else {
                (ChatComposer { open: true, settings_open: false, draft: instruction, attachments, ..c }, ChatAction::FocusComposer)
            }
        },
        ChatEvent::Sent(Ok(g)) => {
            (ChatComposer { draft: String::new(), attachments: Vec::new(), last_generation: Some(g), ..c }, ChatAction::PollConversation)
        },
        ChatEvent::Sent(Err(m)) => (ChatComposer { error: m, busy: false, ..c }, ChatAction::Nothing),
        ChatEvent::Polled => (ChatComposer { busy: false, ..c }, ChatAction::Nothing),
    }
}

} // verus!
