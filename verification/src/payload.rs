//! The explorer's answer: the contract it holds and the shape of its
//! source.

use crate::json::{json_document, Json, JsonValue};
use crate::models::{ContractData, ContractType, ParseError};
use crate::parser::Parser;
use vstd::prelude::*;

verus! {

/// What stands for a name or a source that the explorer's answer lacks.
pub open spec fn placeholder() -> Seq<char> {
    "couldn't convert SourceCode to string"@
}

/// The text of `result[0][field]` in an explorer's answer, or the
/// placeholder where the answer has no such text.
pub open spec fn answer_field(doc: JsonValue, field: Seq<char>) -> Seq<char> {
    match doc.get("result"@).at(0).get(field).as_text() {
        Some(t) => t,
        None => placeholder(),
    }
}

/// A source that begins with `{` is a bundle of files.
pub open spec fn is_bundle(code: Seq<char>) -> bool {
    code.len() > 0 && code[0] == '{'
}

/// A bundle as it is handed to the JSON parser: one that begins with `{{`
/// loses its first and its last character.
pub open spec fn normalized(code: Seq<char>) -> Seq<char> {
    if code.len() >= 2 && code[0] == '{' && code[1] == '{' {
        code.subrange(1, code.len() - 1)
    } else {
        code
    }
}

/// The text of `result[0][field]` in an explorer's answer.
fn answer_text<'a>(doc: &'a Json, field: &str) -> (r: Option<&'a str>)
    ensures
        match r {
            Some(t) => doc@.get("result"@).at(0).get(field@).as_text() == Some(t@),
            None => doc@.get("result"@).at(0).get(field@).as_text() is None,
        },
{
    match doc.member("result") {
        Some(result) => match result.element(0) {
            Some(first) => match first.member(field) {
                Some(v) => v.as_str(),
                None => None,
            },
            None => None,
        },
        None => None,
    }
}

impl Parser {
    /// The contract that a parsed answer of the explorer holds: the texts
    /// `result[0].ContractName` and `result[0].SourceCode`, each replaced
    /// by the placeholder where the answer has no such text.
    pub fn contract_data_of(doc: &Json) -> (r: ContractData)
        ensures
            r.name@ == answer_field(doc@, "ContractName"@),
            r.code@ == answer_field(doc@, "SourceCode"@),
    {
        let name = match answer_text(doc, "ContractName") {
            Some(t) => t,
            None => "couldn't convert SourceCode to string",
        };
        let code = match answer_text(doc, "SourceCode") {
            Some(t) => t,
            None => "couldn't convert SourceCode to string",
        };
        ContractData { name: name.to_owned(), code: code.to_owned() }
    }

    /// The contract that an explorer's answer holds. `DecodeError` exactly
    /// where the answer is no JSON document.
    pub fn get_contract_data(body: &str) -> (r: Result<ContractData, ParseError>)
        ensures
            match r {
                Ok(data) => json_document(body@) is Some && data.name@ == answer_field(
                    json_document(body@)->0,
                    "ContractName"@,
                ) && data.code@ == answer_field(json_document(body@)->0, "SourceCode"@),
                Err(e) => e == ParseError::DecodeError && json_document(body@) is None,
            },
    {
        match Json::parse(body) {
            Ok(doc) => Ok(Parser::contract_data_of(&doc)),
            Err(e) => Err(e),
        }
    }

    /// Whether the source of a contract is a bundle of files or one file.
    pub fn get_contract_type(contract: &ContractData) -> (r: ContractType)
        ensures
            r == if is_bundle(contract.code@) {
                ContractType::Splitted
            } else {
                ContractType::United
            },
    {
        let code = contract.code.as_str();
        if code.unicode_len() > 0 && code.get_char(0) == '{' {
            ContractType::Splitted
        } else {
            ContractType::United
        }
    }

    /// A bundle as it is handed to the JSON parser: where it begins with
    /// `{{`, without its first and its last character.
    pub fn normalize(code: &str) -> (r: &str)
        ensures
            r@ == normalized(code@),
    {
        let n = code.unicode_len();
        if n >= 2 && code.get_char(0) == '{' && code.get_char(1) == '{' {
            code.substring_char(1, n - 1)
        } else {
            code
        }
    }
}

} // verus!
