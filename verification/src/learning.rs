//! Learning after reading: the item editor, answering an item, and the lists of
//! challenge groups.

use vstd::prelude::*;
use crate::text::{chars_of, string_from_chars, trim, trim_str};
use crate::http::{decimal, framed_number, number_after};

verus! {

// ---------------------------------------------------------------- the item editor

/// Kind of a learning item that the editor writes.
#[derive(Clone, Copy, Debug, PartialEq, Eq, Structural)]
pub enum ItemKind {
    QuizSingleChoice,
    OpenQuestion,
    HintedQuestion,
    QuizTrueFalse,
}

/// One option of a single-choice question.
#[derive(Clone, Debug)]
pub struct ChoiceOption {
    pub id: String,
    pub label: String,
}

/// How an item is answered and checked.
#[derive(Clone, Debug)]
pub enum AnswerSpec {
    SingleChoice { options: Vec<ChoiceOption>, correct_option_id: String },
    OpenSelfCheck { sample_answer: String },
    HintedSelfCheck { sample_answer: String },
    TrueFalse { correct: bool },
    Flashcard { back: String },
    Other,
}

/// A hint of an item, numbered from 1.
#[derive(Clone, Debug)]
pub struct Hint {
    pub position: u16,
    pub text: String,
}

/// An item as the editor creates it.
pub struct ItemDraft {
    pub kind: ItemKind,
    pub prompt: String,
    pub answer: AnswerSpec,
    pub explanation: String,
    pub hints: Vec<Hint>,
}

/// The fields of the item editor.
pub struct EditorFields {
    pub kind: String,
    pub prompt: String,
    pub answer_a: String,
    pub answer_b: String,
    pub correct: String,
    pub explanation: String,
    pub hint_one: String,
    pub hint_two: String,
}

/// Model of a choice option.
pub struct OptionModel {
    pub id: Seq<char>,
    pub label: Seq<char>,
}

/// Model of an answer spec.
pub enum SpecModel {
    SingleChoice { options: Seq<OptionModel>, correct_option_id: Seq<char> },
    OpenSelfCheck { sample_answer: Seq<char> },
    HintedSelfCheck { sample_answer: Seq<char> },
    TrueFalse { correct: bool },
    Flashcard { back: Seq<char> },
    Other,
}

pub open spec fn spec_model(s: AnswerSpec) -> SpecModel {
    match s {
        AnswerSpec::SingleChoice { options, correct_option_id } => SpecModel::SingleChoice {
            options: options@.map_values(|o: ChoiceOption| OptionModel { id: o.id@, label: o.label@ }),
            correct_option_id: correct_option_id@,
        },
        AnswerSpec::OpenSelfCheck { sample_answer } => SpecModel::OpenSelfCheck { sample_answer: sample_answer@ },
        AnswerSpec::HintedSelfCheck { sample_answer } => SpecModel::HintedSelfCheck { sample_answer: sample_answer@ },
        AnswerSpec::TrueFalse { correct } => SpecModel::TrueFalse { correct },
        AnswerSpec::Flashcard { back } => SpecModel::Flashcard { back: back@ },
        AnswerSpec::Other => SpecModel::Other,
    }
}

/// Model of the item a draft describes.
pub struct DraftModel {
    pub kind: ItemKind,
    pub prompt: Seq<char>,
    pub answer: SpecModel,
    pub explanation: Seq<char>,
    pub hints: Seq<(u16, Seq<char>)>,
}

pub open spec fn draft_model(d: ItemDraft) -> DraftModel {
    DraftModel {
        kind: d.kind,
        prompt: d.prompt@,
        answer: spec_model(d.answer),
        explanation: d.explanation@,
        hints: d.hints@.map_values(|h: Hint| (h.position, h.text@)),
    }
}

/// Model of the editor fields.
pub struct FieldsModel {
    pub kind: Seq<char>,
    pub prompt: Seq<char>,
    pub answer_a: Seq<char>,
    pub answer_b: Seq<char>,
    pub correct: Seq<char>,
    pub explanation: Seq<char>,
    pub hint_one: Seq<char>,
    pub hint_two: Seq<char>,
}

pub open spec fn fields_model(f: EditorFields) -> FieldsModel {
    FieldsModel {
        kind: f.kind@,
        prompt: f.prompt@,
        answer_a: f.answer_a@,
        answer_b: f.answer_b@,
        correct: f.correct@,
        explanation: f.explanation@,
        hint_one: f.hint_one@,
        hint_two: f.hint_two@,
    }
}

/// The hints of the two hint fields: the non-blank ones, trimmed, numbered from 1.
pub open spec fn spec_hints(hint_one: Seq<char>, hint_two: Seq<char>) -> Seq<(u16, Seq<char>)> {
    if trim(hint_one).len() > 0 && trim(hint_two).len() > 0 {
        seq![(1u16, trim(hint_one)), (2u16, trim(hint_two))]
    } else if trim(hint_one).len() > 0 {
        seq![(1u16, trim(hint_one))]
    } else if trim(hint_two).len() > 0 {
        seq![(1u16, trim(hint_two))]
    } else {
        Seq::empty()
    }
}

/// What the editor creates from its fields, or the message that says what is missing.
pub open spec fn spec_item_command(
    kind: Seq<char>,
    prompt: Seq<char>,
    answer_a: Seq<char>,
    answer_b: Seq<char>,
    correct: Seq<char>,
    explanation: Seq<char>,
    hint_one: Seq<char>,
    hint_two: Seq<char>,
) -> Result<DraftModel, Seq<char>> {
    let hints = spec_hints(hint_one, hint_two);
    if kind == "single"@ {
        if trim(answer_a).len() == 0 || trim(answer_b).len() == 0 {
            Err("Заполните оба варианта ответа."@)
        } else {
            Ok(DraftModel {
                kind: ItemKind::QuizSingleChoice,
                prompt: trim(prompt),
                answer: SpecModel::SingleChoice {
                    options: seq![OptionModel { id: "a"@, label: trim(answer_a) }, OptionModel { id: "b"@, label: trim(answer_b) }],
                    correct_option_id: correct,
                },
                explanation: trim(explanation),
                hints,
            })
        }
    } else if kind == "open"@ {
        Ok(DraftModel {
            kind: ItemKind::OpenQuestion,
            prompt: trim(prompt),
            answer: SpecModel::OpenSelfCheck { sample_answer: trim(answer_a) },
            explanation: trim(explanation),
            hints,
        })
    } else if kind == "hinted"@ {
        if trim(answer_a).len() == 0 || trim(hint_one).len() == 0 {
            Err("Добавьте пример ответа и первую подсказку."@)
        } else {
            Ok(DraftModel {
                kind: ItemKind::HintedQuestion,
                prompt: trim(prompt),
                answer: SpecModel::HintedSelfCheck { sample_answer: trim(answer_a) },
                explanation: trim(explanation),
                hints,
            })
        }
    } else {
        Ok(DraftModel {
            kind: ItemKind::QuizTrueFalse,
            prompt: trim(prompt),
            answer: SpecModel::TrueFalse { correct: correct == "a"@ },
            explanation: trim(explanation),
            hints,
        })
    }
}

/// The hints of an item follow its hint fields in order: the first field, when
/// not blank, is hint 1; the second, when not blank, comes after it (as hint 2,
/// or as hint 1 when the first field is blank); blank fields give no hint; every
/// hint is trimmed.
pub proof fn law_hints_follow_fields(
    kind: Seq<char>,
    prompt: Seq<char>,
    answer_a: Seq<char>,
    answer_b: Seq<char>,
    correct: Seq<char>,
    explanation: Seq<char>,
    hint_one: Seq<char>,
    hint_two: Seq<char>,
)
    ensures
        spec_item_command(kind, prompt, answer_a, answer_b, correct, explanation, hint_one, hint_two) matches Ok(d) ==> {
            &&& d.hints.len() == (if trim(hint_one).len() > 0 { 1nat } else { 0nat }) + (if trim(hint_two).len() > 0 { 1nat } else { 0nat })
            &&& forall|k: int| 0 <= k < d.hints.len() ==> (#[trigger] d.hints[k]).0 == k + 1
            &&& trim(hint_one).len() > 0 ==> d.hints[0].1 == trim(hint_one)
            &&& trim(hint_one).len() > 0 && trim(hint_two).len() > 0 ==> d.hints[1].1 == trim(hint_two)
            &&& trim(hint_one).len() == 0 && trim(hint_two).len() > 0 ==> d.hints[0].1 == trim(hint_two)
        },
{
}

fn same_str(a: &str, b: &str) -> (r: bool)
    ensures
        r == (a@ == b@),
{
    let x = chars_of(a);
    let y = chars_of(b);
    crate::tags::chars_equal(&x, &y)
}

fn is_blank(s: &str) -> (r: bool)
    ensures
        r == (trim(s@).len() == 0),
{
    let t = trim_str(s);
    t.as_str().is_empty()
}

fn hints_of(hint_one: &str, hint_two: &str) -> (r: Vec<Hint>)
    ensures
        r@.map_values(|h: Hint| (h.position, h.text@)) == spec_hints(hint_one@, hint_two@),
{
    let mut hints: Vec<Hint> = Vec::new();
    let one = trim_str(hint_one);
    let two = trim_str(hint_two);
    let one_blank = one.as_str().is_empty();
    let two_blank = two.as_str().is_empty();
    if !one_blank {
        hints.push(Hint { position: 1, text: one });
    }
    if !two_blank {
        let position: u16 = if one_blank { 1 } else { 2 };
        hints.push(Hint { position, text: two });
    }
    proof {
        assert(hints@.map_values(|h: Hint| (h.position, h.text@)) =~= spec_hints(hint_one@, hint_two@));
    }
    hints
}

/// The item that the editor's fields describe. A single-choice question needs
/// both answers, a hinted question a sample answer and a first hint; any kind
/// other than "single", "open" and "hinted" is a true/false question, true when
/// the correct answer is "a".
pub fn item_command(
    kind: &str,
    prompt: &str,
    answer_a: &str,
    answer_b: &str,
    correct: &str,
    explanation: &str,
    hint_one: &str,
    hint_two: &str,
) -> (r: Result<ItemDraft, String>)
    ensures
        spec_item_command(kind@, prompt@, answer_a@, answer_b@, correct@, explanation@, hint_one@, hint_two@) matches Ok(d)
            ==> (r matches Ok(x) && draft_model(x) == d),
        spec_item_command(kind@, prompt@, answer_a@, answer_b@, correct@, explanation@, hint_one@, hint_two@) matches Err(m)
            ==> (r matches Err(x) && x@ == m),
{
    proof {
        reveal_strlit("single");
        reveal_strlit("open");
        reveal_strlit("hinted");
        assert("single"@.len() == 6 && "open"@.len() == 4 && "hinted"@.len() == 6);
        assert("single"@[0] == 's' && "hinted"@[0] == 'h');
    }
    let answer = if same_str(kind, "single") {
        if is_blank(answer_a) || is_blank(answer_b) {
            return Err("Заполните оба варианта ответа.".to_string());
        }
        let mut options: Vec<ChoiceOption> = Vec::new();
        options.push(ChoiceOption { id: "a".to_string(), label: trim_str(answer_a) });
        options.push(ChoiceOption { id: "b".to_string(), label: trim_str(answer_b) });
        let correct_id = copy_str(correct);
        proof {
            assert(options@.map_values(|o: ChoiceOption| OptionModel { id: o.id@, label: o.label@ })
                =~= seq![OptionModel { id: "a"@, label: trim(answer_a@) }, OptionModel { id: "b"@, label: trim(answer_b@) }]);
        }
        (ItemKind::QuizSingleChoice, AnswerSpec::SingleChoice { options, correct_option_id: correct_id })
    } else if same_str(kind, "open") {
        (ItemKind::OpenQuestion, AnswerSpec::OpenSelfCheck { sample_answer: trim_str(answer_a) })
    } else if same_str(kind, "hinted") {
        if is_blank(answer_a) || is_blank(hint_one) {
            return Err("Добавьте пример ответа и первую подсказку.".to_string());
        }
        (ItemKind::HintedQuestion, AnswerSpec::HintedSelfCheck { sample_answer: trim_str(answer_a) })
    } else {
        (ItemKind::QuizTrueFalse, AnswerSpec::TrueFalse { correct: same_str(correct, "a") })
    };
    let hints = hints_of(hint_one, hint_two);
    Ok(ItemDraft {
        kind: answer.0,
        prompt: trim_str(prompt),
        answer: answer.1,
        explanation: trim_str(explanation),
        hints,
    })
}

fn copy_str(s: &str) -> (r: String)
    ensures
        r@ == s@,
{
    let c = chars_of(s);
    string_from_chars(&c)
}

/// The content of an item that the editor is filled from.
pub struct ItemContent {
    pub prompt: String,
    pub explanation: String,
    pub hints: Vec<String>,
    pub answer: AnswerSpec,
}

/// Model of an item's content.
pub struct ContentModel {
    pub prompt: Seq<char>,
    pub explanation: Seq<char>,
    pub hints: Seq<Seq<char>>,
    pub answer: SpecModel,
}

pub open spec fn content_model(c: ItemContent) -> ContentModel {
    ContentModel {
        prompt: c.prompt@,
        explanation: c.explanation@,
        hints: c.hints@.map_values(|h: String| h@),
        answer: spec_model(c.answer),
    }
}

/// The editor's fields after it is filled from an item; fields that the item's
/// kind of answer does not speak of keep their values.
pub open spec fn spec_fill_editor(f: FieldsModel, c: ContentModel) -> FieldsModel {
    let base = FieldsModel {
        prompt: c.prompt,
        explanation: c.explanation,
        hint_one: if c.hints.len() > 0 { c.hints[0] } else { Seq::empty() },
        hint_two: if c.hints.len() > 1 { c.hints[1] } else { Seq::empty() },
        ..f
    };
    match c.answer {
        SpecModel::SingleChoice { options, correct_option_id } => FieldsModel {
            kind: "single"@,
            answer_a: if options.len() > 0 { options[0].label } else { Seq::empty() },
            answer_b: if options.len() > 1 { options[1].label } else { Seq::empty() },
            correct: correct_option_id,
            ..base
        },
        SpecModel::OpenSelfCheck { sample_answer } => FieldsModel { kind: "open"@, answer_a: sample_answer, answer_b: Seq::empty(), ..base },
        SpecModel::HintedSelfCheck { sample_answer } => FieldsModel { kind: "hinted"@, answer_a: sample_answer, answer_b: Seq::empty(), ..base },
        SpecModel::TrueFalse { correct } => FieldsModel { kind: "true_false"@, correct: if correct { "a"@ } else { "b"@ }, ..base },
        _ => base,
    }
}

/// The editor filled from an item.
pub fn fill_editor(fields: &mut EditorFields, item: &ItemContent)
    ensures
        fields_model(*final(fields)) == spec_fill_editor(fields_model(*old(fields)), content_model(*item)),
{
    fields.prompt = copy_string(&item.prompt);
    fields.explanation = copy_string(&item.explanation);
    fields.hint_one = if item.hints.len() > 0 { copy_string(&item.hints[0]) } else { String::new() };
    fields.hint_two = if item.hints.len() > 1 { copy_string(&item.hints[1]) } else { String::new() };
    match &item.answer {
        AnswerSpec::SingleChoice { options, correct_option_id } => {
            fields.kind = "single".to_string();
            fields.answer_a = if options.len() > 0 { copy_string(&options[0].label) } else { String::new() };
            fields.answer_b = if options.len() > 1 { copy_string(&options[1].label) } else { String::new() };
            fields.correct = copy_string(correct_option_id);
        },
        AnswerSpec::OpenSelfCheck { sample_answer } => {
            fields.kind = "open".to_string();
            fields.answer_a = copy_string(sample_answer);
            fields.answer_b = String::new();
        },
        AnswerSpec::HintedSelfCheck { sample_answer } => {
            fields.kind = "hinted".to_string();
            fields.answer_a = copy_string(sample_answer);
            fields.answer_b = String::new();
        },
        AnswerSpec::TrueFalse { correct } => {
            fields.kind = "true_false".to_string();
            fields.correct = if *correct { "a".to_string() } else { "b".to_string() };
        },
        _ => {},
    }
}

fn copy_string(s: &String) -> (r: String)
    ensures
        r@ == s@,
{
    let c = chars_of(s.as_str());
    string_from_chars(&c)
}

/// The content of the item that a draft creates.
pub open spec fn created_content(d: DraftModel) -> ContentModel {
    ContentModel {
        prompt: d.prompt,
        explanation: d.explanation,
        hints: d.hints.map_values(|h: (u16, Seq<char>)| h.1),
        answer: d.answer,
    }
}

/// An item made in the editor and opened again shows its fields as they were
/// saved: trimmed, with blank hints dropped, and a true/false answer as "a" or "b".
pub proof fn law_editor_round_trip(
    f: FieldsModel,
    kind: Seq<char>,
    prompt: Seq<char>,
    answer_a: Seq<char>,
    answer_b: Seq<char>,
    correct: Seq<char>,
    explanation: Seq<char>,
    hint_one: Seq<char>,
    hint_two: Seq<char>,
)
    requires
        spec_item_command(kind, prompt, answer_a, answer_b, correct, explanation, hint_one, hint_two) is Ok,
    ensures
        ({
            let d = spec_item_command(kind, prompt, answer_a, answer_b, correct, explanation, hint_one, hint_two)->Ok_0;
            let g = spec_fill_editor(f, created_content(d));
            let hints = spec_hints(hint_one, hint_two);
            &&& g.prompt == trim(prompt)
            &&& g.explanation == trim(explanation)
            &&& g.hint_one == (if hints.len() > 0 { hints[0].1 } else { Seq::empty() })
            &&& g.hint_two == (if hints.len() > 1 { hints[1].1 } else { Seq::empty() })
            &&& kind == "single"@ ==> g.kind == kind && g.answer_a == trim(answer_a) && g.answer_b == trim(answer_b) && g.correct == correct
            &&& (kind == "open"@ || kind == "hinted"@) ==> g.kind == kind && g.answer_a == trim(answer_a) && g.answer_b.len() == 0
            &&& (kind != "single"@ && kind != "open"@ && kind != "hinted"@) ==> g.kind == "true_false"@
                && g.correct == (if correct == "a"@ { "a"@ } else { "b"@ })
        }),
{
    reveal_strlit("single");
    reveal_strlit("open");
    reveal_strlit("hinted");
    assert("single"@.len() == 6 && "open"@.len() == 4 && "hinted"@.len() == 6);
    assert("single"@[0] == 's' && "hinted"@[0] == 'h');
    let d = spec_item_command(kind, prompt, answer_a, answer_b, correct, explanation, hint_one, hint_two)->Ok_0;
    let hints = spec_hints(hint_one, hint_two);
    assert(d.hints == hints);
    let texts = d.hints.map_values(|h: (u16, Seq<char>)| h.1);
    assert(texts.len() == hints.len());
    if hints.len() > 0 {
        assert(texts[0] == hints[0].1);
    }
    if hints.len() > 1 {
        assert(texts[1] == hints[1].1);
    }
}

// ---------------------------------------------------------------- answering

/// How an item's answer is given.
#[derive(Clone, Copy, Debug, PartialEq, Eq, Structural)]
pub enum AnswerPresentation {
    SingleChoice,
    MultipleChoice,
    TrueFalse,
    OpenText,
    Cloze,
    Flashcard,
    ExplainBack,
    Reflection,
}

/// Whether an answer can be submitted.
pub fn answer_ready(answer: AnswerPresentation, selected: usize, text: &str, self_checked: bool) -> (r: bool)
    ensures
        r == match answer {
            AnswerPresentation::SingleChoice | AnswerPresentation::MultipleChoice | AnswerPresentation::TrueFalse => selected > 0,
            AnswerPresentation::OpenText => trim(text@).len() > 0 && self_checked,
            AnswerPresentation::Flashcard => self_checked,
            AnswerPresentation::Cloze | AnswerPresentation::ExplainBack | AnswerPresentation::Reflection => trim(text@).len() > 0,
        },
{
    match answer {
        AnswerPresentation::SingleChoice | AnswerPresentation::MultipleChoice | AnswerPresentation::TrueFalse => selected > 0,
        AnswerPresentation::OpenText => !is_blank(text) && self_checked,
        AnswerPresentation::Flashcard => self_checked,
        AnswerPresentation::Cloze | AnswerPresentation::ExplainBack | AnswerPresentation::Reflection => !is_blank(text),
    }
}

/// The answer part of an attempt.
#[derive(Clone, Debug)]
pub enum AttemptAnswer {
    SingleChoice { option_id: String },
    MultipleChoice { option_ids: Vec<String> },
    TrueFalse { value: bool },
    Revealed,
    Text { text: String },
}

pub open spec fn strings_contain(v: Seq<String>, s: Seq<char>) -> bool {
    exists|i: int| 0 <= i < v.len() && (#[trigger] v[i])@ == s
}

/// The chosen options form a set: no option occurs twice.
pub open spec fn distinct_options(selected: Seq<String>) -> bool {
    forall|i: int, j: int| 0 <= i < j < selected.len() ==> (#[trigger] selected[i])@ != (#[trigger] selected[j])@
}

/// The answer of an attempt from the chosen options (in the order the
/// selection yields them) and the typed text; a single choice needs a choice.
pub fn build_attempt(answer: AnswerPresentation, selected: Vec<String>, text: &str) -> (r: Option<AttemptAnswer>)
    requires
        distinct_options(selected@),
    ensures
        answer == AnswerPresentation::SingleChoice ==> (selected@.len() == 0 <==> r is None),
        answer == AnswerPresentation::SingleChoice && selected@.len() > 0 ==> (r matches Some(AttemptAnswer::SingleChoice { option_id }) && option_id@ == selected@[0]@),
        answer == AnswerPresentation::MultipleChoice ==> (r matches Some(AttemptAnswer::MultipleChoice { option_ids }) && option_ids@ == selected@
            && distinct_options(option_ids@)),
        answer == AnswerPresentation::TrueFalse ==> (r matches Some(AttemptAnswer::TrueFalse { value }) && value == strings_contain(selected@, "true"@)),
        answer == AnswerPresentation::Flashcard ==> (r matches Some(AttemptAnswer::Revealed)),
        (answer == AnswerPresentation::OpenText || answer == AnswerPresentation::Cloze || answer == AnswerPresentation::ExplainBack
            || answer == AnswerPresentation::Reflection) ==> (r matches Some(AttemptAnswer::Text { text: t }) && t@ == text@),
{
    match answer {
        AnswerPresentation::SingleChoice => {
            if selected.len() == 0 {
                None
            } else {
                let first = copy_string(&selected[0]);
                Some(AttemptAnswer::SingleChoice { option_id: first })
            }
        },
        AnswerPresentation::MultipleChoice => Some(AttemptAnswer::MultipleChoice { option_ids: selected }),
        AnswerPresentation::TrueFalse => {
            let mut found = false;
            let mut i: usize = 0;
            while i < selected.len()
                invariant
                    i <= selected@.len(),
                    found == exists|k: int| 0 <= k < i && (#[trigger] selected@[k])@ == "true"@,
                decreases selected.len() - i,
            {
                if same_str(selected[i].as_str(), "true") {
                    found = true;
                }
                i += 1;
            }
            Some(AttemptAnswer::TrueFalse { value: found })
        },
        AnswerPresentation::Flashcard => Some(AttemptAnswer::Revealed),
        _ => Some(AttemptAnswer::Text { text: copy_str(text) }),
    }
}

/// The answer shown after an item is revealed.
pub fn revealed_answer(answer: &AnswerSpec) -> (r: String)
    ensures
        r@ == match spec_model(*answer) {
            SpecModel::OpenSelfCheck { sample_answer } => sample_answer,
            SpecModel::HintedSelfCheck { sample_answer } => sample_answer,
            SpecModel::Flashcard { back } => back,
            _ => Seq::empty(),
        },
{
    match answer {
        AnswerSpec::OpenSelfCheck { sample_answer } => copy_string(sample_answer),
        AnswerSpec::HintedSelfCheck { sample_answer } => copy_string(sample_answer),
        AnswerSpec::Flashcard { back } => copy_string(back),
        _ => String::new(),
    }
}

// ---------------------------------------------------------------- labels

#[derive(Clone, Copy, Debug, PartialEq, Eq, Structural)]
pub enum LearningItemStatus {
    Draft,
    Active,
    Archived,
    Rejected,
}

pub fn item_status_label(status: LearningItemStatus) -> (r: &'static str)
    ensures
        r@ == match status {
            LearningItemStatus::Draft => "Черновик"@,
            LearningItemStatus::Active => "Активно"@,
            LearningItemStatus::Archived => "Архив"@,
            LearningItemStatus::Rejected => "Отклонено"@,
        },
{
    match status {
        LearningItemStatus::Draft => "Черновик",
        LearningItemStatus::Active => "Активно",
        LearningItemStatus::Archived => "Архив",
        LearningItemStatus::Rejected => "Отклонено",
    }
}

#[derive(Clone, Copy, Debug, PartialEq, Eq, Structural)]
pub enum AiTaskStatus {
    Queued,
    Running,
    NeedsInput,
    Succeeded,
    Failed,
    Cancelled,
}

pub fn task_status_label(status: AiTaskStatus) -> (r: &'static str)
    ensures
        r@ == match status {
            AiTaskStatus::Queued => "в очереди"@,
            AiTaskStatus::Running => "выполняется"@,
            AiTaskStatus::NeedsInput => "нужна настройка provider"@,
            AiTaskStatus::Succeeded => "готово"@,
            AiTaskStatus::Failed => "ошибка"@,
            AiTaskStatus::Cancelled => "отменено"@,
        },
{
    match status {
        AiTaskStatus::Queued => "в очереди",
        AiTaskStatus::Running => "выполняется",
        AiTaskStatus::NeedsInput => "нужна настройка provider",
        AiTaskStatus::Succeeded => "готово",
        AiTaskStatus::Failed => "ошибка",
        AiTaskStatus::Cancelled => "отменено",
    }
}

#[derive(Clone, Copy, Debug, PartialEq, Eq, Structural)]
pub enum TranscriptStatus {
    Pending,
    Processing,
    NeedsReview,
    Accepted,
    Failed,
    Cancelled,
}

pub fn transcript_status_label(status: TranscriptStatus) -> (r: &'static str)
    ensures
        r@ == match status {
            TranscriptStatus::Pending => "Запись ждёт транскрибации."@,
            TranscriptStatus::Processing => "Whisper расшифровывает запись…"@,
            TranscriptStatus::NeedsReview => "Проверьте текст и подтвердите транскрипт."@,
            TranscriptStatus::Accepted => "Транскрипт подтверждён."@,
            TranscriptStatus::Failed => "Транскрибация не выполнена. Проверьте ключ OpenAI и повторите запись."@,
            TranscriptStatus::Cancelled => "Транскрибация отменена."@,
        },
{
    match status {
        TranscriptStatus::Pending => "Запись ждёт транскрибации.",
        TranscriptStatus::Processing => "Whisper расшифровывает запись…",
        TranscriptStatus::NeedsReview => "Проверьте текст и подтвердите транскрипт.",
        TranscriptStatus::Accepted => "Транскрипт подтверждён.",
        TranscriptStatus::Failed => "Транскрибация не выполнена. Проверьте ключ OpenAI и повторите запись.",
        TranscriptStatus::Cancelled => "Транскрибация отменена.",
    }
}

/// The label of the AI source of a learning item.
pub fn source_display_label(position: u32) -> (r: String)
    ensures
        r@ == "Источник задания "@ + crate::http::decimal((position + 1) as nat),
{
    number_after("Источник задания ", position as u64 + 1)
}

/// Which source an AI question about an item points at.
#[derive(Clone, Copy, Debug, PartialEq, Eq, Structural)]
pub enum SourceScopeChoice {
    Selection,
    Chapter,
    Material,
}

/// The item's own anchor when it has one, else its chapter when the session
/// covers one content unit, else the whole material.
pub fn source_scope(has_anchor: bool, content_unit_scope: bool) -> (r: SourceScopeChoice)
    ensures
        r == (if has_anchor {
            SourceScopeChoice::Selection
        } else if content_unit_scope {
            SourceScopeChoice::Chapter
        } else {
            SourceScopeChoice::Material
        }),
{
    if has_anchor {
        SourceScopeChoice::Selection
    } else if content_unit_scope {
        SourceScopeChoice::Chapter
    } else {
        SourceScopeChoice::Material
    }
}

// ---------------------------------------------------------------- challenge groups

/// Whether a group of `m` is listed when `material` is chosen.
pub open spec fn selects(material: Option<u128>, m: u128) -> bool {
    match material {
        Some(x) => m == x,
        None => true,
    }
}

/// The positions of the groups of one material, or of all when none is chosen.
pub fn filtered_groups(materials: &Vec<u128>, material: Option<u128>) -> (r: Vec<usize>)
    ensures
        forall|k: int| 0 <= k < r@.len() ==> (#[trigger] r@[k]) < materials@.len() && selects(material, materials@[r@[k] as int]),
        forall|k: int, l: int| 0 <= k < l < r@.len() ==> #[trigger] r@[k] < #[trigger] r@[l],
        forall|i: int| 0 <= i < materials@.len() && #[trigger] selects(material, materials@[i]) ==> r@.contains(i as usize),
{
    let mut out: Vec<usize> = Vec::new();
    let mut i: usize = 0;
    while i < materials.len()
        invariant
            i <= materials@.len(),
            forall|k: int| 0 <= k < out@.len() ==> (#[trigger] out@[k]) < i && selects(material, materials@[out@[k] as int]),
            forall|k: int, l: int| 0 <= k < l < out@.len() ==> #[trigger] out@[k] < #[trigger] out@[l],
            forall|j: int| 0 <= j < i && #[trigger] selects(material, materials@[j]) ==> out@.contains(j as usize),
        decreases materials.len() - i,
    {
        let keep = match material {
            Some(m) => materials[i] == m,
            None => true,
        };
        assert(keep == selects(material, materials@[i as int]));
        if keep {
            let ghost before = out@;
            out.push(i);
            proof {
                assert forall|j: int| 0 <= j < i + 1 && #[trigger] selects(material, materials@[j])
                    implies out@.contains(j as usize) by {
                    if j < i {
                        assert(before.contains(j as usize));
                        let w = choose|w: int| 0 <= w < before.len() && before[w] == j as usize;
                        assert(out@[w] == j as usize);
                    } else {
                        assert(out@[out@.len() - 1] == j as usize);
                    }
                }
            }
        }
        i += 1;
    }
    out
}

/// Index of the first entry with the key, or -1.
pub open spec fn first_with_key<T>(s: Seq<(u128, T)>, key: u128) -> int
    decreases s.len(),
{
    if s.len() == 0 {
        -1
    } else if first_with_key(s.drop_last(), key) >= 0 {
        first_with_key(s.drop_last(), key)
    } else if s.last().0 == key {
        s.len() - 1
    } else {
        -1
    }
}

proof fn lemma_first_with_key<T>(s: Seq<(u128, T)>, key: u128)
    ensures
        first_with_key(s, key) == -1 <==> forall|i: int| 0 <= i < s.len() ==> (#[trigger] s[i]).0 != key,
        first_with_key(s, key) != -1 ==> 0 <= first_with_key(s, key) < s.len() && s[first_with_key(s, key)].0 == key,
    decreases s.len(),
{
    if s.len() > 0 {
        let d = s.drop_last();
        lemma_first_with_key(d, key);
        if first_with_key(s, key) == -1 {
            assert forall|i: int| 0 <= i < s.len() implies (#[trigger] s[i]).0 != key by {
                if i < d.len() {
                    assert(d[i] == s[i]);
                }
            }
        }
        if forall|i: int| 0 <= i < s.len() ==> (#[trigger] s[i]).0 != key {
            assert forall|i: int| 0 <= i < d.len() implies (#[trigger] d[i]).0 != key by {
                assert(d[i] == s[i]);
            }
            assert(s[s.len() - 1].0 != key);
        }
        if first_with_key(d, key) >= 0 {
            assert(d[first_with_key(d, key)] == s[first_with_key(d, key)]);
        }
    }
}

/// Some entry has the key.
pub open spec fn key_listed<T>(s: Seq<(u128, T)>, key: u128) -> bool {
    exists|j: int| 0 <= j < s.len() && (#[trigger] s[j]).0 == key
}

/// One group per material, the first met when the groups and then the ready
/// groups are read in order, sorted by material (a stable sort by material and
/// a dedup by material).
pub fn unique_material_groups<T>(groups: Vec<(u128, T)>, ready_groups: Vec<(u128, T)>) -> (r: Vec<(u128, T)>)
    ensures
        ({
            let all = groups@ + ready_groups@;
            &&& forall|j: int, k: int| 0 <= j < k < r@.len() ==> (#[trigger] r@[j]).0 < (#[trigger] r@[k]).0
            &&& forall|j: int| 0 <= j < r@.len() ==> first_with_key(all, (#[trigger] r@[j]).0) >= 0
                && r@[j] == all[first_with_key(all, r@[j].0)]
            &&& forall|i: int| 0 <= i < all.len() ==> key_listed(r@, (#[trigger] all[i]).0)
        }),
{
    let ghost all = groups@ + ready_groups@;
    let mut rest = groups;
    let mut tail = ready_groups;
    rest.append(&mut tail);
    proof {
        assert(rest@ =~= all);
    }
    let mut out: Vec<(u128, T)> = Vec::new();
    let ghost mut k: int = 0;
    while rest.len() > 0
        invariant
            all == groups@ + ready_groups@,
            0 <= k <= all.len(),
            rest@ == all.skip(k),
            forall|j: int, l: int| 0 <= j < l < out@.len() ==> (#[trigger] out@[j]).0 < (#[trigger] out@[l]).0,
            forall|j: int| 0 <= j < out@.len() ==> first_with_key(all.take(k), (#[trigger] out@[j]).0) >= 0
                && out@[j] == all.take(k)[first_with_key(all.take(k), out@[j].0)],
            forall|i: int| 0 <= i < k ==> key_listed(out@, (#[trigger] all[i]).0),
        decreases rest.len(),
    {
        let item = rest.remove(0);
        proof {
            assert(item == all[k]);
        }
        let key = item.0;
        let mut p: usize = 0;
        while p < out.len() && out[p].0 < key
            invariant
                p <= out@.len(),
                forall|j: int| 0 <= j < p ==> (#[trigger] out@[j]).0 < key,
            decreases out.len() - p,
        {
            p += 1;
        }
        let ghost prefix = all.take(k);
        let ghost grown = all.take(k + 1);
        proof {
            assert(grown.drop_last() =~= prefix);
            assert(grown.last() == item);
            lemma_first_with_key(prefix, key);
            lemma_first_with_key(grown, key);
        }
        if p < out.len() && out[p].0 == key {
            proof {
                // the key is known: nothing changes, and each kept entry is still the first of its key
                assert forall|j: int| 0 <= j < out@.len() implies first_with_key(grown, (#[trigger] out@[j]).0) >= 0
                    && out@[j] == grown[first_with_key(grown, out@[j].0)] by {
                    lemma_first_with_key(prefix, out@[j].0);
                    assert(grown[first_with_key(prefix, out@[j].0)] == prefix[first_with_key(prefix, out@[j].0)]);
                }
                assert forall|i: int| 0 <= i < k + 1 implies key_listed(out@, (#[trigger] all[i]).0) by {
                    if i == k {
                        assert(out@[p as int].0 == all[i].0);
                    }
                }
            }
        } else {
            let ghost before = out@;
            proof {
                // no kept entry has the key, so it is new to the prefix
                assert forall|i: int| 0 <= i < prefix.len() implies (#[trigger] prefix[i]).0 != key by {
                    assert(prefix[i] == all[i]);
                    assert(key_listed(before, all[i].0));
                    let j = choose|j: int| 0 <= j < before.len() && (#[trigger] before[j]).0 == all[i].0;
                    if before[j].0 == key {
                        if j < p {
                        } else if j == p {
                        } else {
                            assert(before[p as int].0 < before[j].0);
                        }
                    }
                }
            }
            out.insert(p, item);
            proof {
                assert forall|j: int, l: int| 0 <= j < l < out@.len() implies (#[trigger] out@[j]).0 < (#[trigger] out@[l]).0 by {
                    if l < p {
                        assert(out@[j] == before[j] && out@[l] == before[l]);
                    } else if l == p {
                        assert(out@[j] == before[j]);
                    } else if j < p {
                        assert(out@[j] == before[j] && out@[l] == before[l - 1]);
                        assert(before[j].0 < key);
                    } else if j == p {
                        assert(out@[l] == before[l - 1]);
                        assert(before[p as int].0 >= key);
                        if l - 1 > p {
                            assert(before[p as int].0 < before[l - 1].0);
                        }
                    } else {
                        assert(out@[j] == before[j - 1] && out@[l] == before[l - 1]);
                    }
                }
                assert forall|j: int| 0 <= j < out@.len() implies first_with_key(grown, (#[trigger] out@[j]).0) >= 0
                    && out@[j] == grown[first_with_key(grown, out@[j].0)] by {
                    if j == p {
                        assert(first_with_key(grown, key) == k);
                    } else {
                        let b = if j < p { j } else { j - 1 };
                        assert(out@[j] == before[b]);
                        lemma_first_with_key(prefix, before[b].0);
                        assert(grown[first_with_key(prefix, before[b].0)] == prefix[first_with_key(prefix, before[b].0)]);
                    }
                }
                assert forall|i: int| 0 <= i < k + 1 implies key_listed(out@, (#[trigger] all[i]).0) by {
                    if i == k {
                        assert(out@[p as int].0 == all[i].0);
                    } else {
                        assert(key_listed(before, all[i].0));
                        let j = choose|j: int| 0 <= j < before.len() && (#[trigger] before[j]).0 == all[i].0;
                        if j < p {
                            assert(out@[j] == before[j]);
                        } else {
                            assert(out@[j + 1] == before[j]);
                        }
                    }
                }
            }
        }
        proof {
            k = k + 1;
            assert(rest@ =~= all.skip(k));
        }
    }
    proof {
        assert(k == all.len());
        assert(all.take(k) =~= all);
        assert forall|j: int| 0 <= j < out@.len() implies first_with_key(all, (#[trigger] out@[j]).0) >= 0
            && out@[j] == all[first_with_key(all, out@[j].0)] by {
            assert(first_with_key(all.take(k), out@[j].0) >= 0);
        }

    }
    out
}

// ---------------------------------------------------------------- the session runner

/// Where a learning session stands: offered (not started yet), running, or completed.
#[derive(Clone, Copy, Debug, PartialEq, Eq, Structural)]
pub enum SessionPhase {
    Offered,
    Running,
    Completed,
}

/// An offered session is started as soon as it is opened.
pub fn needs_start(phase: SessionPhase) -> (r: bool)
    ensures
        r == (phase == SessionPhase::Offered),
{
    phase == SessionPhase::Offered
}

/// Whether an item has an attempt.
pub open spec fn is_answered(answered: Seq<u128>, item: u128) -> bool {
    exists|k: int| 0 <= k < answered.len() && answered[k] == item
}

fn answered_exec(answered: &Vec<u128>, item: u128) -> (r: bool)
    ensures
        r == is_answered(answered@, item),
{
    let mut k: usize = 0;
    while k < answered.len()
        invariant
            k <= answered@.len(),
            forall|j: int| 0 <= j < k ==> answered@[j] != item,
        decreases answered.len() - k,
    {
        if answered[k] == item {
            return true;
        }
        k += 1;
    }
    false
}

/// The item to answer next: the first item of the session, in order, without
/// an attempt; `None` when every item has one. The session is resumed there
/// after a reload.
pub fn first_unanswered(items: &Vec<u128>, answered: &Vec<u128>) -> (r: Option<usize>)
    ensures
        r matches Some(i) ==> i < items@.len() && !is_answered(answered@, items@[i as int])
            && forall|j: int| 0 <= j < i ==> is_answered(answered@, #[trigger] items@[j]),
        r is None ==> forall|j: int| 0 <= j < items@.len() ==> is_answered(answered@, #[trigger] items@[j]),
{
    let mut i: usize = 0;
    while i < items.len()
        invariant
            i <= items@.len(),
            forall|j: int| 0 <= j < i ==> is_answered(answered@, #[trigger] items@[j]),
        decreases items.len() - i,
    {
        if !answered_exec(answered, items[i]) {
            return Some(i);
        }
        i += 1;
    }
    None
}

/// The session's counter: attempts saved, then the number of items.
pub fn session_counter(attempts: u64, items: u64) -> (r: String)
    ensures
        r@ == decimal(attempts as nat) + " / "@ + decimal(items as nat),
{
    let head = framed_number("", attempts, " / ");
    let r = framed_number(head.as_str(), items, "");
    proof {
        reveal_strlit("");
        assert(r@ =~= decimal(attempts as nat) + " / "@ + decimal(items as nat));
    }
    r
}

/// What the session page shows.
#[derive(Clone, Copy, Debug, PartialEq, Eq, Structural)]
pub enum SessionView {
    /// The session is being loaded again.
    Restoring,
    /// Loading failed: only the error is shown.
    ErrorOnly,
    /// The session is over.
    Completed,
    /// The item at this position is asked.
    Item(usize),
    /// Every item has an attempt: the session can be completed.
    AllAnswered,
}

/// The view of the session page, from the session's phase once loaded, the
/// item to answer next and the error shown.
pub fn session_view(phase: Option<SessionPhase>, current: Option<usize>, error: &str) -> (r: SessionView)
    ensures
        r == match phase {
            None => if error@.len() == 0 { SessionView::Restoring } else { SessionView::ErrorOnly },
            Some(SessionPhase::Completed) => SessionView::Completed,
            Some(_) => match current {
                Some(i) => SessionView::Item(i),
                None => SessionView::AllAnswered,
            },
        },
{
    match phase {
        None => if error.is_empty() { SessionView::Restoring } else { SessionView::ErrorOnly },
        Some(SessionPhase::Completed) => SessionView::Completed,
        Some(_) => match current {
            Some(i) => SessionView::Item(i),
            None => SessionView::AllAnswered,
        },
    }
}

/// Kind of a learning session.
#[derive(Clone, Copy, Debug, PartialEq, Eq, Structural)]
pub enum SessionKind {
    ManualPractice,
    ScheduledReview,
    ExplainBack,
}

/// A scheduled review can be put off until tomorrow.
pub fn snooze_offered(kind: SessionKind) -> (r: bool)
    ensures
        r == (kind == SessionKind::ScheduledReview),
{
    kind == SessionKind::ScheduledReview
}

/// The AI check button of an answer.
pub fn ai_check_label(kind: SessionKind) -> (r: &'static str)
    ensures
        r@ == (if kind == SessionKind::ExplainBack { "Получить обратную связь AI"@ } else { "Проверить ответ с AI"@ }),
{
    if kind == SessionKind::ExplainBack { "Получить обратную связь AI" } else { "Проверить ответ с AI" }
}

// ---------------------------------------------------------------- the material's items

/// An item of a material as its learning page reads it.
#[derive(Clone, Copy, Debug, PartialEq, Eq, Structural)]
pub struct ItemSummary {
    pub status: LearningItemStatus,
    /// The item asks to explain back in one's own words.
    pub explain_back: bool,
    pub source_id: u128,
}

/// The number of active items among the first `n`, and of those that ask to
/// explain back when `explain_only`.
pub open spec fn count_active(items: Seq<ItemSummary>, n: int, explain_only: bool) -> nat
    decreases n,
{
    if n <= 0 {
        0
    } else {
        let it = items[n - 1];
        count_active(items, n - 1, explain_only)
            + if it.status == LearningItemStatus::Active && (!explain_only || it.explain_back) { 1nat } else { 0nat }
    }
}

/// The source of the first active item among the first `n`, if any.
pub open spec fn first_active_source(items: Seq<ItemSummary>, n: int) -> Option<u128>
    decreases n,
{
    if n <= 0 {
        None
    } else {
        match first_active_source(items, n - 1) {
            Some(s) => Some(s),
            None => if items[n - 1].status == LearningItemStatus::Active { Some(items[n - 1].source_id) } else { None },
        }
    }
}

proof fn lemma_count_active_bound(items: Seq<ItemSummary>, n: int, explain_only: bool)
    requires
        0 <= n <= items.len(),
    ensures
        count_active(items, n, explain_only) <= n,
    decreases n,
{
    if n > 0 {
        lemma_count_active_bound(items, n - 1, explain_only);
    }
}

pub open spec fn is_active(it: ItemSummary) -> bool {
    it.status == LearningItemStatus::Active
}

pub open spec fn is_active_explain_back(it: ItemSummary) -> bool {
    it.status == LearningItemStatus::Active && it.explain_back
}

proof fn lemma_counts_are_filters(items: Seq<ItemSummary>, n: int)
    requires
        0 <= n <= items.len(),
    ensures
        count_active(items, n, false) == items.take(n).filter(|it: ItemSummary| is_active(it)).len(),
        count_active(items, n, true) == items.take(n).filter(|it: ItemSummary| is_active_explain_back(it)).len(),
        first_active_source(items, n) is None <==> forall|i: int| 0 <= i < n ==> !is_active(#[trigger] items[i]),
        first_active_source(items, n) matches Some(s) ==> exists|i: int| 0 <= i < n && is_active(#[trigger] items[i])
            && items[i].source_id == s && forall|j: int| 0 <= j < i ==> !is_active(#[trigger] items[j]),
    decreases n,
{
    reveal(Seq::filter);
    if n == 0 {
        assert(items.take(0) =~= Seq::<ItemSummary>::empty());
    } else {
        lemma_counts_are_filters(items, n - 1);
        let t = items.take(n);
        assert(t.drop_last() =~= items.take(n - 1));
        assert(t.last() == items[n - 1]);
        let p = |it: ItemSummary| is_active(it);
        let q = |it: ItemSummary| is_active_explain_back(it);
        assert(t.filter(p) == (if p(t.last()) { t.drop_last().filter(p).push(t.last()) } else { t.drop_last().filter(p) }));
        assert(t.filter(q) == (if q(t.last()) { t.drop_last().filter(q).push(t.last()) } else { t.drop_last().filter(q) }));
        if first_active_source(items, n - 1) is None && is_active(items[n - 1]) {
            assert(forall|j: int| 0 <= j < n - 1 ==> !is_active(#[trigger] items[j]));
        }
        match first_active_source(items, n - 1) {
            Some(s) => {
                let i = choose|i: int| 0 <= i < n - 1 && is_active(#[trigger] items[i])
                    && items[i].source_id == s && forall|j: int| 0 <= j < i ==> !is_active(#[trigger] items[j]);
                assert(0 <= i < n && is_active(items[i]));
            },
            None => {},
        }
    }
}

/// The learning page counts only active items: the practice count is the
/// number of active items, the explain-back count the number of active items
/// that ask to explain back; sessions are made from the opened source, or else
/// from the source of the first active item, and there is no source when no
/// item is active.
pub proof fn law_only_active_items_count(items: Seq<ItemSummary>)
    ensures
        count_active(items, items.len() as int, false) == items.filter(|it: ItemSummary| it.status == LearningItemStatus::Active).len(),
        count_active(items, items.len() as int, true)
            == items.filter(|it: ItemSummary| it.status == LearningItemStatus::Active && it.explain_back).len(),
        (forall|i: int| 0 <= i < items.len() ==> (#[trigger] items[i]).status != LearningItemStatus::Active)
            ==> first_active_source(items, items.len() as int) is None,
        first_active_source(items, items.len() as int) matches Some(s) ==> exists|i: int|
            0 <= i < items.len() && (#[trigger] items[i]).status == LearningItemStatus::Active && items[i].source_id == s
            && forall|j: int| 0 <= j < i ==> (#[trigger] items[j]).status != LearningItemStatus::Active,
{
    lemma_counts_are_filters(items, items.len() as int);
    assert(items.take(items.len() as int) =~= items);
    assert((|it: ItemSummary| is_active(it)) =~= (|it: ItemSummary| it.status == LearningItemStatus::Active));
    assert((|it: ItemSummary| is_active_explain_back(it))
        =~= (|it: ItemSummary| it.status == LearningItemStatus::Active && it.explain_back));
}

/// What the learning page of a material offers.
#[derive(Clone, Copy, Debug, PartialEq, Eq, Structural)]
pub struct MaterialLearningActions {
    /// Active items: a practice session can start when there are any.
    pub active_count: usize,
    /// Active explain-back items: the explain-back session is offered when there are any.
    pub explain_count: usize,
    /// The source that sessions are made from: the one opened, else that of
    /// the first active item; the actions are shown only when there is one.
    pub source: Option<u128>,
}

/// The actions of a material's learning page.
pub fn material_learning_actions(items: &Vec<ItemSummary>, opened_source: Option<u128>) -> (r: MaterialLearningActions)
    ensures
        r.active_count == count_active(items@, items@.len() as int, false),
        r.explain_count == count_active(items@, items@.len() as int, true),
        r.source == match opened_source {
            Some(s) => Some(s),
            None => first_active_source(items@, items@.len() as int),
        },
{
    let mut active: usize = 0;
    let mut explain: usize = 0;
    let mut first: Option<u128> = None;
    let mut i: usize = 0;
    while i < items.len()
        invariant
            i <= items@.len(),
            active == count_active(items@, i as int, false),
            explain == count_active(items@, i as int, true),
            first == first_active_source(items@, i as int),
        decreases items.len() - i,
    {
        proof {
            lemma_count_active_bound(items@, i as int, false);
            lemma_count_active_bound(items@, i as int, true);
        }
        let it = items[i];
        if it.status == LearningItemStatus::Active {
            active += 1;
            if it.explain_back {
                explain += 1;
            }
            if first.is_none() {
                first = Some(it.source_id);
            }
        }
        i += 1;
    }
    let source = match opened_source {
        Some(s) => Some(s),
        None => first,
    };
    MaterialLearningActions { active_count: active, explain_count: explain, source }
}

/// A practice session can start with active items and nothing in flight.
pub fn practice_enabled(actions: MaterialLearningActions, busy: bool) -> (r: bool)
    ensures
        r == (actions.active_count > 0 && !busy),
{
    actions.active_count > 0 && !busy
}

/// The explain-back session is offered when an active item asks for it.
pub fn explain_back_offered(actions: MaterialLearningActions) -> (r: bool)
    ensures
        r == (actions.explain_count > 0),
{
    actions.explain_count > 0
}

/// The status an item's toggle sets: an active item is archived, any other
/// is made active.
pub fn status_toggle_target(status: LearningItemStatus) -> (r: LearningItemStatus)
    ensures
        r == (if status == LearningItemStatus::Active { LearningItemStatus::Archived } else { LearningItemStatus::Active }),
{
    if status == LearningItemStatus::Active { LearningItemStatus::Archived } else { LearningItemStatus::Active }
}

/// The text of an item's status toggle.
pub fn status_toggle_label(status: LearningItemStatus) -> (r: &'static str)
    ensures
        r@ == (if status == LearningItemStatus::Active { "Архивировать"@ } else { "Активировать"@ }),
{
    if status == LearningItemStatus::Active { "Архивировать" } else { "Активировать" }
}

/// The pause button of a source's review schedule: the paused state it asks
/// for (the opposite of the current one) and its text.
pub fn pause_toggle(paused: bool) -> (r: (bool, &'static str))
    ensures
        r.0 == !paused,
        r.1@ == (if paused { "Возобновить повторение"@ } else { "Пауза повторения"@ }),
{
    (!paused, if paused { "Возобновить повторение" } else { "Пауза повторения" })
}

// ---------------------------------------------------------------- the completion offer

/// The learning offer after a chapter is read: the reading is being saved, no
/// offer is shown, the one offer is shown, it is being acted on, or saving failed.
/// The state holds at most one offer, so at most one is ever shown.
pub enum OfferState<O> {
    Saving,
    Hidden,
    Ready(O),
    Busy(O),
    Failed(String),
}

/// What happens to the offer.
pub enum OfferEvent {
    /// The reading position and the completion were saved; the answer says
    /// whether to offer (the offer itself comes with `offered`).
    Saved(Result<bool, String>),
    /// The reader retries after a failure.
    Retry,
    /// The reader chose an action on the offer (start, later, not now, never).
    Act,
    /// The chosen action's request answered.
    Answered(Result<(), String>),
}

/// One step of the completion offer. `offered` is the offer that a save that
/// says to offer brings.
pub fn offer_step<O>(state: OfferState<O>, event: OfferEvent, offered: Option<O>) -> (r: OfferState<O>)
    ensures
        event matches OfferEvent::Saved(Ok(true)) ==> match offered {
            Some(o) => r == OfferState::<O>::Ready(o),
            None => r is Hidden,
        },
        event matches OfferEvent::Saved(Ok(false)) ==> r is Hidden,
        event matches OfferEvent::Saved(Err(m)) ==> (r matches OfferState::Failed(t) && t == m),
        event is Retry ==> (if state is Failed { r is Saving } else { r == state }),
        event is Act ==> match state {
            OfferState::Ready(o) => r == OfferState::<O>::Busy(o),
            _ => r == state,
        },
        event matches OfferEvent::Answered(Ok(())) ==> (if state is Busy { r is Hidden } else { r == state }),
        event matches OfferEvent::Answered(Err(m)) ==> (if state is Busy { r matches OfferState::Failed(t) && t == m } else { r == state }),
{
    match event {
        OfferEvent::Saved(Ok(true)) => match offered {
            Some(o) => OfferState::Ready(o),
            None => OfferState::Hidden,
        },
        OfferEvent::Saved(Ok(false)) => OfferState::Hidden,
        OfferEvent::Saved(Err(m)) => OfferState::Failed(m),
        OfferEvent::Retry => match state {
            OfferState::Failed(_) => OfferState::Saving,
            other => other,
        },
        OfferEvent::Act => match state {
            OfferState::Ready(o) => OfferState::Busy(o),
            other => other,
        },
        OfferEvent::Answered(Ok(())) => match state {
            OfferState::Busy(_) => OfferState::Hidden,
            other => other,
        },
        OfferEvent::Answered(Err(m)) => match state {
            OfferState::Busy(_) => OfferState::Failed(m),
            other => other,
        },
    }
}

/// The number of items a quick check offers: the active items, at most seven.
pub fn offered_item_count(active_items: u32) -> (r: u32)
    ensures
        r == (if active_items < 7 { active_items } else { 7 }),
{
    if active_items < 7 { active_items } else { 7 }
}

} // verus!
