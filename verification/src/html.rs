//! What a CSS selector finds in an HTML page, through `scraper`.

use crate::text::texts_view;
use vstd::prelude::*;

verus! {

/// `scraper::error::SelectorErrorKind`, carried through as it is.
#[verifier::external_type_specification]
#[verifier::external_body]
pub struct ExSelectorErrorKind(scraper::error::SelectorErrorKind);

/// The longest page, in characters, that is handed to `scraper`. Its
/// parser holds text in buffers with a 32-bit length; a page within this
/// bound stays below that length at four bytes for each character, also
/// where the parser puts a longer character in the place of a shorter one.
pub const PAGE_LIMIT: usize = 0x0fff_ffff;

/// What a selector finds in a page.
pub enum Selection {
    /// The selector is no CSS selector.
    BadSelector,
    /// The elements that match, in the order in which `Html::select`
    /// yields them, each as the texts that `ElementRef::text` yields for
    /// it, in that order.
    Elements(Seq<Seq<Seq<char>>>),
}

/// The views of a list of elements, each a list of texts.
pub open spec fn elements_view(elements: Seq<Vec<String>>) -> Seq<Seq<Seq<char>>> {
    Seq::new(elements.len(), |i: int| texts_view(elements[i]@))
}

/// What `scraper` finds for a selector in a page: the page parsed by
/// `Html::parse_document`, the selector by `Selector::parse`, the elements
/// that `Html::select` yields, and for each the items of its
/// `ElementRef::text`.
pub uninterp spec fn selected(html: Seq<char>, selector: Seq<char>) -> Selection;

/// The texts of the first element that a selector finds; `None` where it
/// finds no element or is no selector.
pub open spec fn first_texts(found: Selection) -> Option<Seq<Seq<char>>> {
    match found {
        Selection::Elements(elements) => if elements.len() > 0 {
            Some(elements[0])
        } else {
            None
        },
        Selection::BadSelector => None,
    }
}

/// Parses the selector with `scraper::Selector::parse` and the page with
/// `scraper::Html::parse_document`, and collects for each element that
/// `Html::select` yields what `ElementRef::text` yields for it. The
/// contract names the outcome and tells a malformed selector from a list
/// of elements; it says nothing of HTML or CSS. A page beyond
/// `PAGE_LIMIT` is left out: the parser's buffers cannot hold it.
#[verifier::external_body]
fn select_all(html: &str, selector: &str) -> (r: Result<
    Vec<Vec<String>>,
    scraper::error::SelectorErrorKind,
>)
    requires
        html@.len() <= PAGE_LIMIT,
    ensures
        match r {
            Ok(elements) => selected(html@, selector@) == Selection::Elements(
                elements_view(elements@),
            ),
            Err(_) => selected(html@, selector@) == Selection::BadSelector,
        },
{
    let parsed = scraper::Selector::parse(selector)?;
    let document = scraper::Html::parse_document(html);
    let found = document.select(&parsed);
    Ok(found.map(|e| e.text().map(|t| t.to_owned()).collect()).collect())
}

/// Whether a page is within `PAGE_LIMIT`.
pub fn page_fits(html: &str) -> (r: bool)
    ensures
        r == (html@.len() <= PAGE_LIMIT),
{
    html.unicode_len() <= PAGE_LIMIT
}

/// The first of a list of elements; `None` for an empty list.
pub fn first_of(elements: Vec<Vec<String>>) -> (r: Option<Vec<String>>)
    ensures
        match r {
            Some(texts) => first_texts(Selection::Elements(elements_view(elements@))) == Some(
                texts_view(texts@),
            ),
            None => first_texts(Selection::Elements(elements_view(elements@))) is None,
        },
{
    let mut elements = elements;
    if elements.len() > 0 {
        assert(elements_view(elements@)[0] == texts_view(elements@[0]@));
        Some(elements.remove(0))
    } else {
        None
    }
}

/// The texts of the first element of `html` that matches `selector`;
/// `None` where no element matches or the selector is malformed. The
/// page must be within `PAGE_LIMIT`.
pub fn first_element_texts(html: &str, selector: &str) -> (r: Option<Vec<String>>)
    requires
        html@.len() <= PAGE_LIMIT,
    ensures
        match r {
            Some(texts) => first_texts(selected(html@, selector@)) == Some(texts_view(texts@)),
            None => first_texts(selected(html@, selector@)) is None,
        },
{
    match select_all(html, selector) {
        Ok(elements) => first_of(elements),
        Err(_) => None,
    }
}

} // verus!
