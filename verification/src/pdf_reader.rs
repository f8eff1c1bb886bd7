//! The fixed-layout PDF reader: where it opens, the overlays it draws for
//! annotations, and its tag field.

use vstd::prelude::*;
use crate::annotation::MarkKind;
use crate::tags::{comma_tags, spec_comma_tags, TagCase};
use crate::text::strings_view;
use crate::account::MaterialKind;

verus! {

/// Which reader a material opens in, once its format is known.
#[derive(Clone, Debug, PartialEq, Eq)]
pub enum ReaderChoice {
    /// The format is being looked up.
    Resolving,
    /// PDF: the fixed-layout reader.
    Pdf,
    /// Anything else: the reflowable reader.
    Reflowable,
    /// The material could not be loaded: the message.
    Failed(String),
}

/// The reader for a looked-up material: a PDF goes to the fixed-layout
/// reader, anything else to the reflowable one; a failed lookup shows its error.
pub fn reader_choice(lookup: Result<MaterialKind, String>) -> (r: ReaderChoice)
    ensures
        lookup matches Ok(k) ==> r == (if k == MaterialKind::Pdf { ReaderChoice::Pdf } else { ReaderChoice::Reflowable }),
        lookup matches Err(m) ==> r == ReaderChoice::Failed(m),
{
    match lookup {
        Ok(MaterialKind::Pdf) => ReaderChoice::Pdf,
        Ok(_) => ReaderChoice::Reflowable,
        Err(m) => ReaderChoice::Failed(m),
    }
}

/// The page saved as reading progress, or the first page.
pub fn restored_pdf_page(saved_page: Option<u32>) -> (r: u32)
    ensures
        r == match saved_page {
            Some(p) => p,
            None => 0,
        },
{
    match saved_page {
        Some(p) => p,
        None => 0,
    }
}

/// The page the PDF reader opens on: the page of a cited selection, else the
/// saved page, kept on the document's last page.
pub fn initial_pdf_page(target_page: Option<u32>, saved_page: Option<u32>, page_count: usize) -> (r: u32)
    ensures
        ({
            let wanted = match target_page {
                Some(p) => p,
                None => match saved_page {
                    Some(p) => p,
                    None => 0u32,
                },
            };
            let last = (if page_count > 0 { page_count - 1 } else { 0 }) as u32;
            r == (if wanted < last { wanted } else { last })
        }),
{
    let wanted = match target_page {
        Some(p) => p,
        None => restored_pdf_page(saved_page),
    };
    let last = page_count.saturating_sub(1) as u32;
    if wanted < last { wanted } else { last }
}

/// What the overlay of an annotation is drawn from: its PDF page, when its
/// anchor has one, and its kind.
#[derive(Clone, Copy, Debug, PartialEq, Eq, Structural)]
pub struct OverlaySource {
    pub page: Option<u32>,
    pub kind: MarkKind,
}

/// An overlay: which annotation, on which page, of which kind.
#[derive(Clone, Copy, Debug, PartialEq, Eq, Structural)]
pub struct PdfOverlay {
    pub source: usize,
    pub page_index: u32,
    pub kind: MarkKind,
}

/// The overlays of the annotations that have a PDF page, in order.
pub open spec fn overlays_of(items: Seq<OverlaySource>) -> Seq<PdfOverlay>
    decreases items.len(),
{
    if items.len() == 0 {
        Seq::empty()
    } else {
        let rest = overlays_of(items.drop_last());
        match items.last().page {
            Some(p) => rest.push(PdfOverlay { source: (items.len() - 1) as usize, page_index: p, kind: items.last().kind }),
            None => rest,
        }
    }
}

pub fn annotation_overlays(items: &Vec<OverlaySource>) -> (r: Vec<PdfOverlay>)
    ensures
        r@ == overlays_of(items@),
{
    let mut out: Vec<PdfOverlay> = Vec::new();
    let mut i: usize = 0;
    proof {
        assert(items@.take(0) =~= Seq::<OverlaySource>::empty());
    }
    while i < items.len()
        invariant
            i <= items@.len(),
            out@ == overlays_of(items@.take(i as int)),
        decreases items.len() - i,
    {
        proof {
            let t = items@.take(i + 1);
            assert(t.drop_last() =~= items@.take(i as int));
            assert(t.last() == items@[i as int]);
        }
        match items[i].page {
            Some(p) => {
                out.push(PdfOverlay { source: i, page_index: p, kind: items[i].kind });
            },
            None => {},
        }
        i += 1;
    }
    proof {
        assert(items@.take(items@.len() as int) =~= items@);
    }
    out
}

/// Tags of a PDF annotation: trimmed, non-empty, without duplicates after
/// lower-casing (the first spelling stays), at most `max_tags`.
pub fn parse_tags(value: &str, max_tags: usize) -> (r: Vec<String>)
    ensures
        strings_view(r@) == spec_comma_tags(value@, max_tags as nat, TagCase::Unicode),
{
    comma_tags(value, max_tags, TagCase::Unicode)
}

} // verus!
