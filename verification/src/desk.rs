//! The Desk: its sections, the labels of its records, and its filters.

use vstd::prelude::*;
use crate::reader_view::{join_strings, join_with};
use crate::text::{
    chars_of, split, split_chars, string_from_chars, trim, trim_chars, trim_str,
    lemma_split_without_sep, lemma_trim_after_space, lemma_trim_bounds,
};
use crate::tags::{editable_tags, lemma_joined_tags_pieces};

verus! {

/// Kind of a Desk record.
#[derive(Clone, Copy, Debug, PartialEq, Eq, Structural)]
pub enum DeskObjectType {
    Annotation,
    LearningItem,
    AiArtifact,
}

pub fn desk_type_label(value: DeskObjectType) -> (r: &'static str)
    ensures
        r@ == match value {
            DeskObjectType::Annotation => "Запись"@,
            DeskObjectType::LearningItem => "Обучение"@,
            DeskObjectType::AiArtifact => "AI-артефакт"@,
        },
{
    match value {
        DeskObjectType::Annotation => "Запись",
        DeskObjectType::LearningItem => "Обучение",
        DeskObjectType::AiArtifact => "AI-артефакт",
    }
}

/// Where a learning item stands today.
#[derive(Clone, Copy, Debug, PartialEq, Eq, Structural)]
pub enum DeskLearningState {
    Scheduled,
    Due,
    Missed,
    Skipped,
    Completed,
}

pub fn learning_state_label(value: DeskLearningState) -> (r: &'static str)
    ensures
        r@ == match value {
            DeskLearningState::Scheduled => "Запланировано"@,
            DeskLearningState::Due => "Сегодня"@,
            DeskLearningState::Missed => "Пропущено"@,
            DeskLearningState::Skipped => "Отложено"@,
            DeskLearningState::Completed => "Пройдено"@,
        },
{
    match value {
        DeskLearningState::Scheduled => "Запланировано",
        DeskLearningState::Due => "Сегодня",
        DeskLearningState::Missed => "Пропущено",
        DeskLearningState::Skipped => "Отложено",
        DeskLearningState::Completed => "Пройдено",
    }
}

/// A view of the Desk; material and item ids as numbers.
#[derive(Clone, Copy, Debug, PartialEq, Eq, Structural)]
pub enum DeskView {
    Overview,
    Material(u128),
    Records(Option<u128>),
    Learning(Option<u128>),
    Artifacts(Option<u128>),
    Item(DeskObjectType, u128),
}

/// Two views belong to the same section of the Desk's navigation.
pub fn same_section(left: DeskView, right: DeskView) -> (r: bool)
    ensures
        r == match (left, right) {
            (DeskView::Overview, DeskView::Overview) => true,
            (DeskView::Material(_), DeskView::Material(_)) => true,
            (DeskView::Records(_), DeskView::Records(_)) => true,
            (DeskView::Learning(_), DeskView::Learning(_)) => true,
            (DeskView::Artifacts(_), DeskView::Artifacts(_)) => true,
            (DeskView::Item(_, _), DeskView::Item(_, _)) => true,
            _ => false,
        },
{
    match (left, right) {
        (DeskView::Overview, DeskView::Overview) => true,
        (DeskView::Material(_), DeskView::Material(_)) => true,
        (DeskView::Records(_), DeskView::Records(_)) => true,
        (DeskView::Learning(_), DeskView::Learning(_)) => true,
        (DeskView::Artifacts(_), DeskView::Artifacts(_)) => true,
        (DeskView::Item(_, _), DeskView::Item(_, _)) => true,
        _ => false,
    }
}

/// The material a view is about, if any.
pub fn material_from_view(view: DeskView) -> (r: Option<u128>)
    ensures
        r == match view {
            DeskView::Material(m) => Some(m),
            DeskView::Records(Some(m)) => Some(m),
            DeskView::Learning(Some(m)) => Some(m),
            DeskView::Artifacts(Some(m)) => Some(m),
            _ => None,
        },
{
    match view {
        DeskView::Material(m) => Some(m),
        DeskView::Records(Some(m)) => Some(m),
        DeskView::Learning(Some(m)) => Some(m),
        DeskView::Artifacts(Some(m)) => Some(m),
        _ => None,
    }
}

/// The trimmed, non-empty pieces of a comma-separated field, in order.
pub open spec fn nonblank_pieces(pieces: Seq<Seq<char>>) -> Seq<Seq<char>>
    decreases pieces.len(),
{
    if pieces.len() == 0 {
        Seq::empty()
    } else {
        let rest = nonblank_pieces(pieces.drop_last());
        if trim(pieces.last()).len() == 0 { rest } else { rest.push(trim(pieces.last())) }
    }
}

/// The tags of a Desk record's tag field: every trimmed, non-empty piece.
pub fn parse_tags(value: &str) -> (r: Vec<String>)
    ensures
        r@.map_values(|t: String| t@) == nonblank_pieces(split(value@, ',')),
{
    let chars = chars_of(value);
    let pieces = split_chars(&chars, ',');
    let ghost all = split(value@, ',');
    let mut out: Vec<String> = Vec::new();
    let mut i: usize = 0;
    proof {
        assert(all.take(0) =~= Seq::<Seq<char>>::empty());
        assert(out@.map_values(|t: String| t@) =~= Seq::<Seq<char>>::empty());
    }
    while i < pieces.len()
        invariant
            all == split(value@, ','),
            i <= pieces@.len(),
            pieces@.len() == all.len(),
            forall|k: int| 0 <= k < pieces@.len() ==> (#[trigger] pieces@[k])@ == all[k],
            out@.map_values(|t: String| t@) == nonblank_pieces(all.take(i as int)),
        decreases pieces.len() - i,
    {
        let t = trim_chars(&pieces[i]);
        proof {
            assert(all.take(i + 1).drop_last() =~= all.take(i as int));
            assert(all.take(i + 1).last() == all[i as int]);
        }
        if t.len() > 0 {
            let ghost before = out@;
            out.push(string_from_chars(&t));
            proof {
                assert(out@.map_values(|x: String| x@) =~= before.map_values(|x: String| x@).push(t@));
            }
        }
        i += 1;
    }
    proof {
        assert(all.take(i as int) =~= all);
    }
    out
}

/// A trimmed field, unless it is blank.
pub fn non_empty(value: &str) -> (r: Option<String>)
    ensures
        trim(value@).len() == 0 ==> r is None,
        trim(value@).len() > 0 ==> (r matches Some(v) && v@ == trim(value@)),
{
    let t = trim_str(value);
    if t.as_str().is_empty() {
        None
    } else {
        Some(t)
    }
}

/// The query parameter that filters records by state: learning items have a
/// learning state, other records a status.
pub fn status_parameter(object_type: Option<DeskObjectType>) -> (r: &'static str)
    ensures
        object_type == Some(DeskObjectType::LearningItem) ==> r@ == "learning_state"@,
        object_type != Some(DeskObjectType::LearningItem) ==> r@ == "status"@,
{
    match object_type {
        Some(DeskObjectType::LearningItem) => "learning_state",
        _ => "status",
    }
}

/// Query parameters joined with `&`.
pub fn join_query(parameters: &Vec<String>) -> (r: String)
    ensures
        r@ == join_with(parameters@.map_values(|p: String| p@), "&"@),
{
    join_strings(parameters, "&")
}

/// The tag field of a Desk record shows its tags joined by ", "; saving the
/// field unchanged keeps the same tags, in order, when each can stand in a
/// tag field.
pub proof fn law_desk_tags_read_back(tags: Seq<Seq<char>>)
    requires
        editable_tags(tags),
    ensures
        nonblank_pieces(split(join_with(tags, ", "@), ',')) == tags,
    decreases tags.len(),
{
    if tags.len() == 0 {
        let e = Seq::<char>::empty();
        lemma_trim_bounds(e);
        assert(split(join_with(tags, ", "@), ',') == seq![e]);
        assert(seq![e].drop_last() =~= Seq::<Seq<char>>::empty());
        assert(seq![e].last() == e);
        assert(trim(e).len() == 0);
        assert(nonblank_pieces(Seq::<Seq<char>>::empty()) == Seq::<Seq<char>>::empty());
        assert(nonblank_pieces(seq![e]) =~= tags);
    } else if tags.len() == 1 {
        let t = tags[0];
        assert(t.len() > 0 && trim(t) == t && !t.contains(','));
        assert(join_with(tags, ", "@) == t);
        lemma_split_without_sep(t, ',');
        assert(seq![t].drop_last() =~= Seq::<Seq<char>>::empty());
        assert(seq![t].last() == t);
        assert(nonblank_pieces(Seq::<Seq<char>>::empty()) == Seq::<Seq<char>>::empty());
        assert(nonblank_pieces(seq![t]) =~= tags);
    } else {
        let front = tags.drop_last();
        let last = tags.last();
        assert(last == tags[tags.len() - 1]);
        assert(editable_tags(front)) by {
            assert forall|i: int| 0 <= i < front.len() implies (#[trigger] front[i]).len() > 0 && trim(front[i]) == front[i]
                && !front[i].contains(',') by {
                assert(front[i] == tags[i]);
            }
        }
        law_desk_tags_read_back(front);
        lemma_joined_tags_pieces(tags);
        lemma_trim_after_space(last);
        let pieces = split(join_with(tags, ", "@), ',');
        assert(pieces.drop_last() =~= split(join_with(front, ", "@), ','));
        assert(pieces.last() == seq![' '] + last);
        assert(front.push(last) =~= tags);
    }
}

} // verus!
