//! The contracts that a listing page enumerates.

use crate::apidb::{entries_view, ApiDB, EntryValue};
use crate::html::{first_element_texts, first_texts, selected, Selection, PAGE_LIMIT};
use crate::models::{texts_result, ParseError};
use crate::parser::Parser;
use crate::text::{contains, str_contains, texts_view};
use vstd::prelude::*;

verus! {

/// Some entry's name occurs in `text`: the text is the URL of a contract
/// that can be routed.
pub open spec fn is_routable(text: Seq<char>, entries: Seq<EntryValue>) -> bool {
    exists|i: int| 0 <= i < entries.len() && contains(text, (#[trigger] entries[i]).name)
}

/// The texts that can be routed, in their order.
pub open spec fn routable_texts(texts: Seq<Seq<char>>, entries: Seq<EntryValue>) -> Seq<Seq<char>>
    decreases texts.len(),
{
    if texts.len() == 0 {
        Seq::empty()
    } else {
        let before = routable_texts(texts.drop_last(), entries);
        if is_routable(texts.last(), entries) {
            before.push(texts.last())
        } else {
            before
        }
    }
}

/// The selector of the element that enumerates the contracts of a listing
/// page.
pub open spec fn listing_selector() -> Seq<char> {
    "section.mb-12:nth-child(3) > div:nth-child(2)"@
}

/// The contract URLs that a listing page enumerates, from what the
/// selector of its list finds: the texts of that element that can be
/// routed. `ListingPageError` where the page has no such element.
pub open spec fn listed_urls(found: Selection, entries: Seq<EntryValue>) -> Result<
    Seq<Seq<char>>,
    ParseError,
> {
    match first_texts(found) {
        Some(texts) => Ok(routable_texts(texts, entries)),
        None => Err(ParseError::ListingPageError),
    }
}

impl Parser {
    /// The texts that can be routed: those in which the name of some
    /// entry occurs, in their order.
    pub fn routable(texts: &Vec<String>, apis: &ApiDB) -> (r: Vec<String>)
        ensures
            texts_view(r@) == routable_texts(texts_view(texts@), apis@),
    {
        let entries = apis.entries();
        let ghost all = texts_view(texts@);
        let mut kept: Vec<String> = Vec::new();
        assert(all.take(0) =~= Seq::<Seq<char>>::empty());
        assert(texts_view(kept@) =~= Seq::<Seq<char>>::empty());
        let mut i: usize = 0;
        while i < texts.len()
            invariant
                i <= texts.len(),
                all == texts_view(texts@),
                entries_view(entries@) == apis@,
                texts_view(kept@) == routable_texts(all.take(i as int), apis@),
            decreases texts.len() - i,
        {
            let text = texts[i].as_str();
            proof {
                let head = all.take(i + 1);
                assert(head.drop_last() =~= all.take(i as int));
                assert(head.last() == text@);
            }
            let mut found = false;
            let mut k: usize = 0;
            while k < entries.len() && !found
                invariant
                    k <= entries.len(),
                    entries_view(entries@) == apis@,
                    found ==> is_routable(text@, apis@),
                    !found ==> forall|j: int|
                        0 <= j < k ==> !contains(text@, (#[trigger] apis@[j]).name),
                decreases entries.len() - k + (if found { 0int } else { 1int }),
            {
                assert(apis@[k as int] == entries@[k as int]@);
                if str_contains(text, entries[k].name.as_str()) {
                    found = true;
                } else {
                    k += 1;
                }
            }
            if found {
                let ghost before = texts_view(kept@);
                kept.push(text.to_owned());
                assert(texts_view(kept@) =~= before.push(text@));
            }
            i += 1;
        }
        assert(all.take(i as int) =~= all);
        kept
    }

    /// The contract URLs that a listing page enumerates: the texts of the
    /// element that lists the contracts, as far as they can be routed.
    /// `ListingPageError` exactly where the page has no such element. The
    /// page must be within `PAGE_LIMIT`.
    pub fn immunefi_traverse(body: &str, api: &ApiDB) -> (r: Result<Vec<String>, ParseError>)
        requires
            body@.len() <= PAGE_LIMIT,
        ensures
            texts_result(r) == listed_urls(selected(body@, listing_selector()), api@),
    {
        match first_element_texts(body, "section.mb-12:nth-child(3) > div:nth-child(2)") {
            Some(texts) => Ok(Parser::routable(&texts, api)),
            None => Err(ParseError::ListingPageError),
        }
    }
}

} // verus!
