//! The address of a contract: read from the URL itself, or from the page
//! that the URL leads to.

use crate::html::{first_element_texts, first_texts, selected, Selection, PAGE_LIMIT};
use crate::models::{text_result, ParseError};
use crate::parser::Parser;
use crate::text::{chars_of, str_trim, texts_view, trim};
use vstd::prelude::*;

verus! {

/// The number of characters of an address: `0x` and 40 hexadecimal digits.
pub open spec fn address_len() -> int {
    42
}

/// A hexadecimal digit, in either case.
pub open spec fn is_hex_digit(c: char) -> bool {
    ('0' <= c && c <= '9') || ('a' <= c && c <= 'f') || ('A' <= c && c <= 'F')
}

/// An address stands in `s` at index `i`: `0x`, then exactly 40
/// hexadecimal digits, so that no further hexadecimal digit follows them.
pub open spec fn address_at(s: Seq<char>, i: int) -> bool {
    &&& 0 <= i
    &&& i + address_len() <= s.len()
    &&& s[i] == '0'
    &&& s[i + 1] == 'x'
    &&& forall|k: int| 2 <= k < address_len() ==> is_hex_digit(#[trigger] s[i + k])
    &&& i + address_len() == s.len() || !is_hex_digit(s[i + address_len()])
}

/// Some address stands in `s`.
pub open spec fn has_address(s: Seq<char>) -> bool {
    exists|i: int| address_at(s, i)
}

/// The leftmost address in `s` stands at index `i`.
pub open spec fn first_address_at(s: Seq<char>, i: int) -> bool {
    &&& address_at(s, i)
    &&& forall|j: int| 0 <= j < i ==> !address_at(s, j)
}

/// The leftmost address in `s`, as written there; `None` where `s` holds
/// no address.
pub open spec fn address_in(s: Seq<char>) -> Option<Seq<char>> {
    if has_address(s) {
        let i = choose|i: int| first_address_at(s, i);
        Some(s.subrange(i, i + address_len()))
    } else {
        None
    }
}

/// The selector of the element that holds the address on a contract page.
pub open spec fn address_selector() -> Seq<char> {
    "#mainaddress"@
}

/// The address that the texts of a page's address field give: the first
/// of them, trimmed. `ScrapeError` where the page has no such field,
/// `NoAddressFound` where the field holds no text.
pub open spec fn address_of_texts(texts: Option<Seq<Seq<char>>>) -> Result<Seq<char>, ParseError> {
    match texts {
        Some(found) => if found.len() > 0 {
            Ok(trim(found[0]))
        } else {
            Err(ParseError::NoAddressFound)
        },
        None => Err(ParseError::ScrapeError),
    }
}

/// The address that a contract page shows, from what the selector of its
/// address field finds: the address of the texts of the first element.
pub open spec fn scraped_address(found: Selection) -> Result<Seq<char>, ParseError> {
    address_of_texts(first_texts(found))
}

/// Below an address there is a leftmost one.
pub proof fn lemma_first_address_exists(s: Seq<char>, i: int)
    requires
        address_at(s, i),
    ensures
        exists|j: int| first_address_at(s, j),
    decreases i,
{
    if exists|j: int| 0 <= j < i && address_at(s, j) {
        let j = choose|j: int| 0 <= j < i && address_at(s, j);
        lemma_first_address_exists(s, j);
    } else {
        assert(first_address_at(s, i));
    }
}

fn hex_digit(c: char) -> (r: bool)
    ensures
        r == is_hex_digit(c),
{
    ('0' <= c && c <= '9') || ('a' <= c && c <= 'f') || ('A' <= c && c <= 'F')
}

fn is_address_at(s: &Vec<char>, i: usize) -> (r: bool)
    requires
        i + address_len() <= s.len(),
    ensures
        r == address_at(s@, i as int),
{
    if s[i] != '0' || s[i + 1] != 'x' {
        return false;
    }
    let mut k: usize = 2;
    while k < 42
        invariant
            2 <= k <= 42,
            i + 42 <= s.len(),
            forall|n: int| 2 <= n < k ==> is_hex_digit(#[trigger] s@[i + n]),
        decreases 42 - k,
    {
        if !hex_digit(s[i + k]) {
            return false;
        }
        k += 1;
    }
    i + 42 == s.len() || !hex_digit(s[i + 42])
}

impl Parser {
    /// The leftmost address that stands in the URL itself: `0x` and 40
    /// hexadecimal digits, as written. `None` exactly where the URL holds
    /// no address, so that the address has to be read from the page.
    pub fn get_contract_address(url: &str) -> (r: Option<String>)
        ensures
            match r {
                Some(a) => address_in(url@) == Some(a@),
                None => address_in(url@) is None,
            },
    {
        let chars = chars_of(url);
        if chars.len() < 42 {
            return None;
        }
        let last: usize = chars.len() - 42;
        let mut i: usize = 0;
        loop
            invariant
                chars@ == url@,
                last + 42 == chars.len(),
                i <= last,
                forall|j: int| 0 <= j < i ==> !address_at(url@, j),
            decreases last - i,
        {
            if is_address_at(&chars, i) {
                assert(first_address_at(url@, i as int));
                return Some(url.substring_char(i, i + 42).to_owned());
            }
            if i == last {
                return None;
            }
            i += 1;
        }
    }

    /// The address that the texts of a page's address field give: the
    /// first of them, trimmed. `ScrapeError` where the page has no such
    /// field, `NoAddressFound` where the field holds no text.
    pub fn address_from_texts(texts: &Option<Vec<String>>) -> (r: Result<String, ParseError>)
        ensures
            text_result(r) == address_of_texts(
                match *texts {
                    Some(found) => Some(texts_view(found@)),
                    None => None,
                },
            ),
    {
        match texts {
            Some(found) => {
                if found.len() > 0 {
                    assert(texts_view(found@)[0] == found@[0]@);
                    Ok(str_trim(found[0].as_str()).to_owned())
                } else {
                    Err(ParseError::NoAddressFound)
                }
            },
            None => Err(ParseError::ScrapeError),
        }
    }

    /// The address that a contract page shows in the element `#mainaddress`.
    /// `ScrapeError` where the page has no such element. The page must be
    /// within `PAGE_LIMIT`.
    pub fn scrape_contract_address(body: &str) -> (r: Result<String, ParseError>)
        requires
            body@.len() <= PAGE_LIMIT,
        ensures
            text_result(r) == scraped_address(selected(body@, address_selector())),
    {
        let texts = first_element_texts(body, "#mainaddress");
        Parser::address_from_texts(&texts)
    }
}

} // verus!
