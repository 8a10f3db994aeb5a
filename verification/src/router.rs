//! Which explorer a URL belongs to: the credentials for a request and the
//! URL of the request.

use crate::apidb::{distinct_names, entries_view, has_name, ApiDB, CredentialEntry, EntryValue};
use crate::models::{text_result, ParseError};
use crate::parser::Parser;
use crate::text::{contains, joined, str_contains};
use vstd::prelude::*;

verus! {

/// The entry at index `i` is the one that requests for `url` go to: the
/// entry named `optimistic` where the URL holds that word, else the first
/// entry whose name occurs in the URL.
pub open spec fn routes_to(entries: Seq<EntryValue>, url: Seq<char>, i: int) -> bool {
    &&& 0 <= i < entries.len()
    &&& if contains(url, "optimistic"@) {
        entries[i].name == "optimistic"@
    } else {
        &&& contains(url, entries[i].name)
        &&& forall|j: int| 0 <= j < i ==> !contains(url, (#[trigger] entries[j]).name)
    }
}

/// Requests for `url` go to some entry.
pub open spec fn has_route(entries: Seq<EntryValue>, url: Seq<char>) -> bool {
    exists|i: int| routes_to(entries, url, i)
}

/// The entry that requests for `url` go to; `None` where no entry matches.
pub open spec fn route_of(entries: Seq<EntryValue>, url: Seq<char>) -> Option<EntryValue> {
    if has_route(entries, url) {
        Some(entries[choose|i: int| routes_to(entries, url, i)])
    } else {
        None
    }
}

/// The URL of the request for the sources of the contract at `address`,
/// with the credentials of `entry`.
pub open spec fn request_url(entry: EntryValue, address: Seq<char>) -> Seq<char> {
    entry.url + "/api?module=contract&action=getsourcecode&address="@ + address + "&apikey="@
        + entry.key
}

/// The URL of the request for the sources of the contract at `address`,
/// at the explorer that `url` belongs to; `NoRouteFound` where no entry
/// matches.
pub open spec fn request_for(entries: Seq<EntryValue>, url: Seq<char>, address: Seq<char>) -> Result<
    Seq<char>,
    ParseError,
> {
    match route_of(entries, url) {
        Some(e) => Ok(request_url(e, address)),
        None => Err(ParseError::NoRouteFound),
    }
}

/// Requests for one URL go to one entry only.
pub proof fn lemma_route_unique(entries: Seq<EntryValue>, url: Seq<char>, i: int, j: int)
    requires
        distinct_names(entries),
        routes_to(entries, url, i),
        routes_to(entries, url, j),
    ensures
        i == j,
{
    if i < j {
        assert(entries[i].name != entries[j].name);
    } else if j < i {
        assert(entries[j].name != entries[i].name);
    }
}

/// Requests for a URL that holds `optimistic` go to the entry named
/// `optimistic`, whatever other names occur in the URL; without such an
/// entry they go nowhere.
pub proof fn lemma_optimistic_route(entries: Seq<EntryValue>, url: Seq<char>)
    requires
        contains(url, "optimistic"@),
    ensures
        match route_of(entries, url) {
            Some(e) => e.name == "optimistic"@,
            None => !has_name(entries, "optimistic"@),
        },
{
    if has_route(entries, url) {
        let i = choose|i: int| routes_to(entries, url, i);
        assert(routes_to(entries, url, i));
    } else {
        assert forall|i: int| 0 <= i < entries.len() implies (#[trigger] entries[i]).name
            != "optimistic"@ by {
            assert(!routes_to(entries, url, i));
        }
    }
}

impl Parser {
    /// The entry that requests for `url` go to. `None` exactly where no
    /// entry matches.
    pub fn route<'a>(url: &str, apis: &'a ApiDB) -> (r: Option<&'a CredentialEntry>)
        ensures
            match r {
                Some(e) => route_of(apis@, url@) == Some(e@),
                None => route_of(apis@, url@) is None,
            },
    {
        let entries = apis.entries();
        if str_contains(url, "optimistic") {
            match apis.get("optimistic") {
                Some(e) => {
                    proof {
                        let i = choose|i: int| 0 <= i < apis@.len() && apis@[i] == e@;
                        assert(routes_to(apis@, url@, i));
                        lemma_route_unique(
                            apis@,
                            url@,
                            i,
                            choose|k: int| routes_to(apis@, url@, k),
                        );
                    }
                    Some(e)
                },
                None => None,
            }
        } else {
            let mut i: usize = 0;
            while i < entries.len()
                invariant
                    i <= entries.len(),
                    entries_view(entries@) == apis@,
                    distinct_names(apis@),
                    !contains(url@, "optimistic"@),
                    forall|j: int| 0 <= j < i ==> !contains(url@, (#[trigger] apis@[j]).name),
                decreases entries.len() - i,
            {
                assert(apis@[i as int] == entries@[i as int]@);
                if str_contains(url, entries[i].name.as_str()) {
                    proof {
                        assert(routes_to(apis@, url@, i as int));
                        lemma_route_unique(
                            apis@,
                            url@,
                            i as int,
                            choose|k: int| routes_to(apis@, url@, k),
                        );
                    }
                    return Some(&entries[i]);
                }
                i += 1;
            }
            None
        }
    }

    /// The URL of the request for the sources of the contract at
    /// `contract_address`, at the explorer that `url` belongs to.
    /// `NoRouteFound` exactly where no entry matches the URL.
    pub fn get_api_url(url: &str, contract_address: &str, apis: &ApiDB) -> (r: Result<
        String,
        ParseError,
    >)
        ensures
            text_result(r) == request_for(apis@, url@, contract_address@),
    {
        match Parser::route(url, apis) {
            Some(e) => {
                let mut u = joined(
                    e.url.as_str(),
                    "/api?module=contract&action=getsourcecode&address=",
                );
                u.append(contract_address);
                u.append("&apikey=");
                u.append(e.key.as_str());
                Ok(u)
            },
            None => Err(ParseError::NoRouteFound),
        }
    }
}

} // verus!
