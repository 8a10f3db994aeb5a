//! From a contract to the files that hold its sources: where each file
//! goes, which sources are left out, and what the operator is told.

use crate::json::{json_document, members_view, Json, JsonValue, MemberValue};
use crate::models::{
    effects_result, effects_view, ContractData, ContractType, Effect, EffectValue, FileWrite,
    FileWriteValue, ParseError, ParserMode,
};
use crate::parser::Parser;
use crate::payload::{answer_field, is_bundle, normalized};
use crate::text::{chars_of, contains, joined, str_contains};
use vstd::prelude::*;

verus! {

/// The directory under which the files of one contract go.
pub open spec fn root_of(mode: ParserMode, address: Seq<char>) -> Seq<char> {
    match mode {
        ParserMode::Single => "./"@ + address,
        ParserMode::Immunefi(folder) => "./"@ + folder@ + "/"@ + address,
    }
}

/// A path cut off at its last `/`; empty for a path without one.
pub open spec fn dir_of(path: Seq<char>) -> Seq<char>
    decreases path.len(),
{
    if path.len() == 0 {
        path
    } else if path.last() == '/' {
        path.drop_last()
    } else {
        dir_of(path.drop_last())
    }
}

/// The file that holds a contract delivered as one source.
pub open spec fn united_write(
    name: Seq<char>,
    code: Seq<char>,
    mode: ParserMode,
    address: Seq<char>,
) -> FileWriteValue {
    let root = root_of(mode, address);
    FileWriteValue { dir: root, path: root + "/"@ + name + ".sol"@, content: code }
}

/// The file that holds one source of a bundle.
pub open spec fn splitted_write(
    mode: ParserMode,
    address: Seq<char>,
    path: Seq<char>,
    content: Seq<char>,
) -> FileWriteValue {
    let root = root_of(mode, address);
    FileWriteValue { dir: root + "/"@ + dir_of(path), path: root + "/"@ + path, content: content }
}

/// The warning for a source without a `content` text.
pub open spec fn missing_content_warning(name: Seq<char>, address: Seq<char>) -> Seq<char> {
    "Couldn't access \"content\" field in returned JSON of contract \""@ + name + "\" "@ + address
}

/// The warning for a bundle without a `sources` object.
pub open spec fn missing_sources_warning(name: Seq<char>, address: Seq<char>) -> Seq<char> {
    "Couldn't access \"sources\" field in returned JSON of contract \""@ + name + "\" "@ + address
}

/// A source that is left out: a generated import stub, or a file of the
/// OpenZeppelin library unless those were asked for.
pub open spec fn is_skipped(path: Seq<char>, open_zeppelin: bool) -> bool {
    contains(path, "/import.sol"@) || (contains(path, "@openzeppelin"@) && !open_zeppelin)
}

/// What one member of `sources` leads to: nothing where it is skipped, a
/// file where it has a `content` text, else a warning.
pub open spec fn source_effect(
    m: MemberValue,
    name: Seq<char>,
    address: Seq<char>,
    mode: ParserMode,
    open_zeppelin: bool,
) -> Option<EffectValue> {
    if is_skipped(m.name, open_zeppelin) {
        None
    } else {
        match m.value.get("content"@).as_text() {
            Some(content) => Some(EffectValue::Save(splitted_write(mode, address, m.name, content))),
            None => Some(EffectValue::Warn(missing_content_warning(name, address))),
        }
    }
}

/// What the members of `sources` lead to, in their order.
pub open spec fn source_effects(
    members: Seq<MemberValue>,
    name: Seq<char>,
    address: Seq<char>,
    mode: ParserMode,
    open_zeppelin: bool,
) -> Seq<EffectValue>
    decreases members.len(),
{
    if members.len() == 0 {
        Seq::empty()
    } else {
        let before = source_effects(members.drop_last(), name, address, mode, open_zeppelin);
        match source_effect(members.last(), name, address, mode, open_zeppelin) {
            Some(e) => before.push(e),
            None => before,
        }
    }
}

/// What a parsed bundle leads to: the effects of its `sources`, or one
/// warning where it has no such object.
pub open spec fn bundle_effects(
    doc: JsonValue,
    name: Seq<char>,
    address: Seq<char>,
    mode: ParserMode,
    open_zeppelin: bool,
) -> Seq<EffectValue> {
    match doc.get("sources"@).as_object() {
        Some(members) => source_effects(members, name, address, mode, open_zeppelin),
        None => seq![EffectValue::Warn(missing_sources_warning(name, address))],
    }
}

/// What a contract leads to: one file for a single source; for a bundle
/// the effects of its normalized text, or `DecodeError` where that text is
/// no JSON document.
pub open spec fn contract_effects(
    name: Seq<char>,
    code: Seq<char>,
    address: Seq<char>,
    mode: ParserMode,
    open_zeppelin: bool,
) -> Result<Seq<EffectValue>, ParseError> {
    if is_bundle(code) {
        match json_document(normalized(code)) {
            Some(doc) => Ok(bundle_effects(doc, name, address, mode, open_zeppelin)),
            None => Err(ParseError::DecodeError),
        }
    } else {
        Ok(seq![EffectValue::Save(united_write(name, code, mode, address))])
    }
}

/// What an explorer's answer leads to: `DecodeError` where it is no JSON
/// document, else the effects of the contract it holds.
pub open spec fn answer_effects(
    body: Seq<char>,
    address: Seq<char>,
    mode: ParserMode,
    open_zeppelin: bool,
) -> Result<Seq<EffectValue>, ParseError> {
    match json_document(body) {
        Some(doc) => contract_effects(
            answer_field(doc, "ContractName"@),
            answer_field(doc, "SourceCode"@),
            address,
            mode,
            open_zeppelin,
        ),
        None => Err(ParseError::DecodeError),
    }
}

/// A source that begins with `{{` is read as JSON without its first and
/// its last character, and as nothing else.
pub proof fn lemma_double_brace_is_stripped(
    name: Seq<char>,
    code: Seq<char>,
    address: Seq<char>,
    mode: ParserMode,
    open_zeppelin: bool,
)
    requires
        code.len() >= 2,
        code[0] == '{',
        code[1] == '{',
    ensures
        normalized(code) == code.subrange(1, code.len() - 1),
        contract_effects(name, code, address, mode, open_zeppelin) == match json_document(
            code.subrange(1, code.len() - 1),
        ) {
            Some(doc) => Ok::<Seq<EffectValue>, ParseError>(
                bundle_effects(doc, name, address, mode, open_zeppelin),
            ),
            None => Err(ParseError::DecodeError),
        },
{
}

/// Every member of `sources` that leads to an effect has that effect in
/// the plan: no path with its content is lost but those that are skipped.
pub proof fn lemma_sources_are_preserved(
    members: Seq<MemberValue>,
    name: Seq<char>,
    address: Seq<char>,
    mode: ParserMode,
    open_zeppelin: bool,
    i: int,
)
    requires
        0 <= i < members.len(),
        source_effect(members[i], name, address, mode, open_zeppelin) is Some,
    ensures
        source_effects(members, name, address, mode, open_zeppelin).contains(
            source_effect(members[i], name, address, mode, open_zeppelin)->0,
        ),
    decreases members.len(),
{
    let all = source_effects(members, name, address, mode, open_zeppelin);
    let before = source_effects(members.drop_last(), name, address, mode, open_zeppelin);
    let e = source_effect(members[i], name, address, mode, open_zeppelin)->0;
    if i == members.len() - 1 {
        assert(all == before.push(e));
        assert(all[all.len() - 1] == e);
    } else {
        assert(members.drop_last()[i] == members[i]);
        lemma_sources_are_preserved(members.drop_last(), name, address, mode, open_zeppelin, i);
        let k = choose|k: int| 0 <= k < before.len() && before[k] == e;
        assert(all[k] == e);
    }
}

/// Every effect of the plan is the effect of some member of `sources`:
/// nothing is written that the bundle does not hold.
pub proof fn lemma_effects_come_from_sources(
    members: Seq<MemberValue>,
    name: Seq<char>,
    address: Seq<char>,
    mode: ParserMode,
    open_zeppelin: bool,
    k: int,
)
    requires
        0 <= k < source_effects(members, name, address, mode, open_zeppelin).len(),
    ensures
        exists|i: int|
            0 <= i < members.len() && source_effect(
                #[trigger] members[i],
                name,
                address,
                mode,
                open_zeppelin,
            ) == Some(source_effects(members, name, address, mode, open_zeppelin)[k]),
    decreases members.len(),
{
    let all = source_effects(members, name, address, mode, open_zeppelin);
    let before = source_effects(members.drop_last(), name, address, mode, open_zeppelin);
    if k < before.len() {
        lemma_effects_come_from_sources(
            members.drop_last(),
            name,
            address,
            mode,
            open_zeppelin,
            k,
        );
        let i = choose|i: int|
            0 <= i < members.drop_last().len() && source_effect(
                #[trigger] members.drop_last()[i],
                name,
                address,
                mode,
                open_zeppelin,
            ) == Some(before[k]);
        assert(members[i] == members.drop_last()[i]);
        assert(all[k] == before[k]);
    } else {
        let last = members.len() - 1;
        assert(source_effect(members[last], name, address, mode, open_zeppelin) == Some(all[k]));
    }
}

/// A source whose path holds `/import.sol` leads to nothing. A source
/// whose path holds `@openzeppelin` and no `/import.sol`, and which has a
/// content, is written exactly where the library's sources were asked
/// for.
pub proof fn lemma_filter_rules(
    m: MemberValue,
    name: Seq<char>,
    address: Seq<char>,
    mode: ParserMode,
    open_zeppelin: bool,
)
    ensures
        contains(m.name, "/import.sol"@) ==> source_effect(m, name, address, mode, open_zeppelin)
            is None,
        contains(m.name, "@openzeppelin"@) && !contains(m.name, "/import.sol"@) && m.value.get(
            "content"@,
        ).as_text() is Some ==> (open_zeppelin <==> source_effect(
            m,
            name,
            address,
            mode,
            open_zeppelin,
        ) matches Some(EffectValue::Save(_))),
{
}

/// Under one root, two sources go to the same file exactly where they
/// have the same path: a source written again replaces its own file and
/// no other.
pub proof fn lemma_one_file_for_each_path(
    mode: ParserMode,
    address: Seq<char>,
    path1: Seq<char>,
    content1: Seq<char>,
    path2: Seq<char>,
    content2: Seq<char>,
)
    ensures
        splitted_write(mode, address, path1, content1).path == splitted_write(
            mode,
            address,
            path2,
            content2,
        ).path <==> path1 == path2,
{
    let prefix = root_of(mode, address) + "/"@;
    let a = prefix + path1;
    let b = prefix + path2;
    if a == b {
        assert(path1 =~= a.subrange(prefix.len() as int, a.len() as int));
        assert(path2 =~= b.subrange(prefix.len() as int, b.len() as int));
    }
}

/// The directory under which the files of one contract go.
fn root_dir(mode: &ParserMode, contract_address: &str) -> (r: String)
    ensures
        r@ == root_of(*mode, contract_address@),
{
    match mode {
        ParserMode::Single => joined("./", contract_address),
        ParserMode::Immunefi(folder) => {
            let mut r = joined("./", folder.as_str());
            r.append("/");
            r.append(contract_address);
            r
        },
    }
}

impl Parser {
    /// The directory part of the path of a source: the path cut off at
    /// its last `/`, empty where it has none.
    pub fn get_dir_of_splitted_contract(file_path: &str) -> (r: &str)
        ensures
            r@ == dir_of(file_path@),
    {
        let chars = chars_of(file_path);
        assert(chars@.subrange(0, chars.len() as int) =~= chars@);
        let mut end: usize = chars.len();
        while end > 0 && chars[end - 1] != '/'
            invariant
                end <= chars.len(),
                chars@ == file_path@,
                dir_of(chars@) == dir_of(chars@.subrange(0, end as int)),
            decreases end,
        {
            proof {
                let head = chars@.subrange(0, end as int);
                assert(head.drop_last() =~= chars@.subrange(0, end - 1));
            }
            end -= 1;
        }
        if end == 0 {
            file_path.substring_char(0, 0)
        } else {
            proof {
                let head = chars@.subrange(0, end as int);
                assert(head.drop_last() =~= chars@.subrange(0, end - 1));
            }
            file_path.substring_char(0, end - 1)
        }
    }

    /// The file that holds one source of a bundle: under the contract's
    /// root, at the path the bundle gives it.
    pub fn save_splitted_contract(
        mode: &ParserMode,
        contract_address: &str,
        path: &str,
        source_content: &str,
    ) -> (r: FileWrite)
        ensures
            r@ == splitted_write(*mode, contract_address@, path@, source_content@),
    {
        let dir_part = Parser::get_dir_of_splitted_contract(path);
        let root = root_dir(mode, contract_address);
        let mut dir = joined(root.as_str(), "/");
        dir.append(dir_part);
        let mut file_path = joined(root.as_str(), "/");
        file_path.append(path);
        FileWrite { dir: dir, path: file_path, content: source_content.to_owned() }
    }

    /// The file that holds a contract delivered as one source:
    /// `<name>.sol` under the contract's root.
    pub fn save_united_contract(
        contract_data: &ContractData,
        mode: &ParserMode,
        contract_address: &str,
    ) -> (r: FileWrite)
        ensures
            r@ == united_write(contract_data.name@, contract_data.code@, *mode, contract_address@),
    {
        let root = root_dir(mode, contract_address);
        let mut file_path = joined(root.as_str(), "/");
        file_path.append(contract_data.name.as_str());
        file_path.append(".sol");
        FileWrite { dir: root, path: file_path, content: contract_data.code.clone() }
    }

    /// What a parsed bundle leads to: for each member of `sources` that is
    /// not skipped, in order, the file that holds its `content`, or a
    /// warning where it has none; one warning where the bundle has no
    /// `sources` object.
    pub fn plan_sources(
        doc: &Json,
        name: &str,
        contract_address: &str,
        mode: &ParserMode,
        open_zeppelin: bool,
    ) -> (r: Vec<Effect>)
        ensures
            effects_view(r@) == bundle_effects(
                doc@,
                name@,
                contract_address@,
                *mode,
                open_zeppelin,
            ),
    {
        let mut effects: Vec<Effect> = Vec::new();
        let sources = match doc.member("sources") {
            Some(sources) => sources.as_object(),
            None => None,
        };
        let members = match sources {
            Some(members) => members,
            None => {
                let mut message = joined(
                    "Couldn't access \"sources\" field in returned JSON of contract \"",
                    name,
                );
                message.append("\" ");
                message.append(contract_address);
                effects.push(Effect::Warn(message));
                assert(effects_view(effects@) =~= seq![
                    EffectValue::Warn(missing_sources_warning(name@, contract_address@)),
                ]);
                return effects;
            },
        };
        let ghost all = members_view(members@);
        assert(all.take(0) =~= Seq::<MemberValue>::empty());
        assert(effects_view(effects@) =~= Seq::<EffectValue>::empty());
        let mut i: usize = 0;
        while i < members.len()
            invariant
                i <= members.len(),
                all == members_view(members@),
                effects_view(effects@) == source_effects(
                    all.take(i as int),
                    name@,
                    contract_address@,
                    *mode,
                    open_zeppelin,
                ),
            decreases members.len() - i,
        {
            let m = &members[i];
            let ghost before = effects_view(effects@);
            proof {
                let head = all.take(i + 1);
                assert(head.drop_last() =~= all.take(i as int));
                assert(head.last() == all[i as int]);
                assert(all[i as int].name == m.name@ && all[i as int].value == m.value@);
            }
            let path = m.name.as_str();
            let skipped = str_contains(path, "/import.sol") || (str_contains(path, "@openzeppelin")
                && !open_zeppelin);
            if !skipped {
                let content = match m.value.member("content") {
                    Some(c) => c.as_str(),
                    None => None,
                };
                match content {
                    Some(source_content) => {
                        let w = Parser::save_splitted_contract(
                            mode,
                            contract_address,
                            path,
                            source_content,
                        );
                        effects.push(Effect::Save(w));
                    },
                    None => {
                        let mut message = joined(
                            "Couldn't access \"content\" field in returned JSON of contract \"",
                            name,
                        );
                        message.append("\" ");
                        message.append(contract_address);
                        effects.push(Effect::Warn(message));
                    },
                }
                assert(effects_view(effects@) =~= before.push(
                    source_effect(all[i as int], name@, contract_address@, *mode, open_zeppelin)->0,
                ));
            }
            i += 1;
        }
        assert(all.take(i as int) =~= all);
        effects
    }

    /// What a contract leads to. A single source gives the one file that
    /// holds it. A bundle is normalized and read as JSON: `DecodeError`
    /// exactly where that fails, else what its sources lead to.
    pub fn plan_contract(
        contract_data: &ContractData,
        contract_address: &str,
        mode: &ParserMode,
        open_zeppelin: bool,
    ) -> (r: Result<Vec<Effect>, ParseError>)
        ensures
            effects_result(r) == contract_effects(
                contract_data.name@,
                contract_data.code@,
                contract_address@,
                *mode,
                open_zeppelin,
            ),
    {
        match Parser::get_contract_type(contract_data) {
            ContractType::Splitted => {
                let text = Parser::normalize(contract_data.code.as_str());
                match Json::parse(text) {
                    Ok(doc) => Ok(
                        Parser::plan_sources(
                            &doc,
                            contract_data.name.as_str(),
                            contract_address,
                            mode,
                            open_zeppelin,
                        ),
                    ),
                    Err(e) => Err(e),
                }
            },
            ContractType::United => {
                let mut effects: Vec<Effect> = Vec::new();
                effects.push(
                    Effect::Save(Parser::save_united_contract(contract_data, mode, contract_address)),
                );
                assert(effects_view(effects@) =~= seq![
                    EffectValue::Save(
                        united_write(
                            contract_data.name@,
                            contract_data.code@,
                            *mode,
                            contract_address@,
                        ),
                    ),
                ]);
                Ok(effects)
            },
        }
    }

    /// What the explorer's answer for the contract at `contract_address`
    /// leads to: the files to write and the warnings to give, in order.
    /// `DecodeError` exactly where the answer, or the bundle it holds, is
    /// no JSON document.
    pub fn parse_contract(
        body: &str,
        contract_address: &str,
        mode: &ParserMode,
        open_zeppelin: bool,
    ) -> (r: Result<Vec<Effect>, ParseError>)
        ensures
            effects_result(r) == answer_effects(body@, contract_address@, *mode, open_zeppelin),
    {
        match Parser::get_contract_data(body) {
            Ok(data) => Parser::plan_contract(&data, contract_address, mode, open_zeppelin),
            Err(e) => Err(e),
        }
    }
}

} // verus!
