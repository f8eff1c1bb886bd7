//! Annotation kinds as the reader shows them: highlight styles, CSS classes and labels.

use vstd::prelude::*;

verus! {

/// Colour of a highlight.
#[derive(Clone, Copy, Debug, PartialEq, Eq, Structural)]
pub enum HighlightStyle {
    Yellow,
    Bold,
    Green,
    Blue,
}

/// What an annotation is, as far as its presentation goes.
#[derive(Clone, Copy, Debug, PartialEq, Eq, Structural)]
pub enum MarkKind {
    Highlight(HighlightStyle),
    Note,
    VoiceNote,
}

/// Lifecycle status of an annotation.
#[derive(Clone, Copy, Debug, PartialEq, Eq, Structural)]
pub enum AnnotationStatus {
    Active,
    Archived,
}

/// The CSS class that marks annotated text of a kind in the reflowable reader.
pub open spec fn spec_mark_class(kind: MarkKind) -> Seq<char> {
    match kind {
        MarkKind::Highlight(HighlightStyle::Bold) => "annotation-highlight-bold"@,
        MarkKind::Highlight(HighlightStyle::Green) => "annotation-highlight-green"@,
        MarkKind::Highlight(HighlightStyle::Blue) => "annotation-highlight-blue"@,
        MarkKind::Highlight(HighlightStyle::Yellow) => "annotation-highlight"@,
        MarkKind::Note => "annotation-note"@,
        MarkKind::VoiceNote => "annotation-voice"@,
    }
}

pub fn mark_class(kind: MarkKind) -> (r: &'static str)
    ensures
        r@ == spec_mark_class(kind),
{
    match kind {
        MarkKind::Highlight(HighlightStyle::Bold) => "annotation-highlight-bold",
        MarkKind::Highlight(HighlightStyle::Green) => "annotation-highlight-green",
        MarkKind::Highlight(HighlightStyle::Blue) => "annotation-highlight-blue",
        MarkKind::Highlight(HighlightStyle::Yellow) => "annotation-highlight",
        MarkKind::Note => "annotation-note",
        MarkKind::VoiceNote => "annotation-voice",
    }
}

/// Every kind of mark is drawn with a class of its own: two marks share a class
/// only when they are the same kind (a blue highlight never looks yellow).
pub proof fn law_mark_classes_distinct(a: MarkKind, b: MarkKind)
    ensures
        spec_mark_class(a) == spec_mark_class(b) ==> a == b,
{
    reveal_strlit("annotation-highlight-bold");
    reveal_strlit("annotation-highlight-green");
    reveal_strlit("annotation-highlight-blue");
    reveal_strlit("annotation-highlight");
    reveal_strlit("annotation-note");
    reveal_strlit("annotation-voice");
    if spec_mark_class(a) == spec_mark_class(b) && a != b {
        let ca = spec_mark_class(a);
        let cb = spec_mark_class(b);
        assert(ca.len() == cb.len());
        if ca.len() == 25 {
            assert(ca[22] == cb[22]);
        }
    }
}

/// The overlay kind that the PDF reader draws for an annotation.
pub open spec fn spec_pdf_overlay_kind(kind: MarkKind) -> Seq<char> {
    match kind {
        MarkKind::Highlight(HighlightStyle::Bold) => "highlight-bold"@,
        MarkKind::Highlight(HighlightStyle::Green) => "highlight-green"@,
        MarkKind::Highlight(HighlightStyle::Blue) => "highlight-blue"@,
        MarkKind::Highlight(HighlightStyle::Yellow) => "highlight"@,
        MarkKind::Note => "note"@,
        MarkKind::VoiceNote => "voice"@,
    }
}

pub fn pdf_overlay_kind(kind: MarkKind) -> (r: &'static str)
    ensures
        r@ == spec_pdf_overlay_kind(kind),
{
    match kind {
        MarkKind::Highlight(HighlightStyle::Bold) => "highlight-bold",
        MarkKind::Highlight(HighlightStyle::Green) => "highlight-green",
        MarkKind::Highlight(HighlightStyle::Blue) => "highlight-blue",
        MarkKind::Highlight(HighlightStyle::Yellow) => "highlight",
        MarkKind::Note => "note",
        MarkKind::VoiceNote => "voice",
    }
}

/// Name of a highlight colour in the style menu.
pub fn highlight_style_label(style: HighlightStyle) -> (r: &'static str)
    ensures
        r@ == match style {
            HighlightStyle::Yellow => "жёлтое"@,
            HighlightStyle::Bold => "жирное"@,
            HighlightStyle::Green => "зелёное"@,
            HighlightStyle::Blue => "синее"@,
        },
{
    match style {
        HighlightStyle::Yellow => "жёлтое",
        HighlightStyle::Bold => "жирное",
        HighlightStyle::Green => "зелёное",
        HighlightStyle::Blue => "синее",
    }
}

/// Heading of an annotation in the PDF reader's list.
pub fn annotation_kind_label(kind: MarkKind) -> (r: &'static str)
    ensures
        r@ == match kind {
            MarkKind::Highlight(HighlightStyle::Bold) => "Жирное выделение"@,
            MarkKind::Highlight(_) => "Выделение"@,
            MarkKind::Note => "Заметка"@,
            MarkKind::VoiceNote => "Голосовая заметка"@,
        },
{
    match kind {
        MarkKind::Highlight(HighlightStyle::Bold) => "Жирное выделение",
        MarkKind::Highlight(_) => "Выделение",
        MarkKind::Note => "Заметка",
        MarkKind::VoiceNote => "Голосовая заметка",
    }
}

/// The status an annotation gets when its archive toggle is pressed.
pub open spec fn spec_toggled_status(status: AnnotationStatus) -> AnnotationStatus {
    match status {
        AnnotationStatus::Active => AnnotationStatus::Archived,
        AnnotationStatus::Archived => AnnotationStatus::Active,
    }
}

pub fn toggled_status(status: AnnotationStatus) -> (r: AnnotationStatus)
    ensures
        r == spec_toggled_status(status),
{
    if status == AnnotationStatus::Active {
        AnnotationStatus::Archived
    } else {
        AnnotationStatus::Active
    }
}

/// Pressing the archive toggle twice gives the status back, and once always changes it.
pub proof fn law_archive_toggle_twice(status: AnnotationStatus)
    ensures
        spec_toggled_status(spec_toggled_status(status)) == status,
        spec_toggled_status(status) != status,
{
}

/// Every kind of mark gets an overlay kind of its own in the PDF reader.
pub proof fn law_overlay_kinds_distinct(a: MarkKind, b: MarkKind)
    ensures
        spec_pdf_overlay_kind(a) == spec_pdf_overlay_kind(b) ==> a == b,
{
    reveal_strlit("highlight-bold");
    reveal_strlit("highlight-green");
    reveal_strlit("highlight-blue");
    reveal_strlit("highlight");
    reveal_strlit("note");
    reveal_strlit("voice");
    if spec_pdf_overlay_kind(a) == spec_pdf_overlay_kind(b) && a != b {
        let ca = spec_pdf_overlay_kind(a);
        let cb = spec_pdf_overlay_kind(b);
        assert(ca.len() == cb.len());
        if ca.len() == 14 {
            assert(ca[11] == cb[11]);
        }
        if ca.len() == 4 {
            assert(ca[0] == cb[0]);
        }
    }
}

} // verus!
