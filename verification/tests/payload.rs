use iscp::{ContractData, ContractType, Effect, Json, ParseError, Parser, ParserMode};

const ADDRESS: &str = "0xdac17f958d2ee523a2206206994597c13d831ec7";

fn quoted(text: &str) -> String {
    serde_json::to_string(&serde_json::Value::String(text.to_owned())).unwrap()
}

fn answer(name: &str, code: &str) -> String {
    format!(
        "{{\"status\":\"1\",\"message\":\"OK\",\"result\":[{{\"SourceCode\":{},\"ContractName\":{}}}]}}",
        quoted(code),
        quoted(name)
    )
}

fn saved(effects: &[Effect]) -> Vec<(String, String, String)> {
    let mut out = Vec::new();
    for e in effects {
        if let Effect::Save(w) = e {
            out.push((w.dir.clone(), w.path.clone(), w.content.clone()));
        }
    }
    out
}

fn warned(effects: &[Effect]) -> Vec<String> {
    let mut out = Vec::new();
    for e in effects {
        if let Effect::Warn(m) = e {
            out.push(m.clone());
        }
    }
    out
}

#[test]
fn parse_single_contract_test() {
    let mode = ParserMode::Single;
    let url = "https://etherscan.io/address/0xdac17f958d2ee523a2206206994597c13d831ec7";
    let address = Parser::get_contract_address(url).unwrap();
    let body = answer("TetherToken", "pragma solidity ^0.4.17;\ncontract TetherToken {}");
    let effects = Parser::parse_contract(&body, &address, &mode, false).unwrap();
    assert_eq!(effects.len(), 1);
    match &effects[0] {
        Effect::Save(w) => {
            assert_eq!(w.dir, "./0xdac17f958d2ee523a2206206994597c13d831ec7");
            assert_eq!(w.path, "./0xdac17f958d2ee523a2206206994597c13d831ec7/TetherToken.sol");
            assert_eq!(w.content, "pragma solidity ^0.4.17;\ncontract TetherToken {}");
            assert_eq!(
                w.report(),
                "./0xdac17f958d2ee523a2206206994597c13d831ec7/TetherToken.sol has been created!"
            );
        }
        other => panic!("unexpected {:?}", other),
    }
}

#[test]
fn bundle_writes_its_sources_and_skips_import_stubs() {
    let code = "{\"sources\":{\"contracts/A.sol\":{\"content\":\"pragma ...\"},\"contracts/import.sol\":{\"content\":\"x\"}}}";
    let body = answer("A", code);
    let effects = Parser::parse_contract(&body, ADDRESS, &ParserMode::Single, false).unwrap();
    assert_eq!(
        saved(&effects),
        vec![(
            format!("./{}/contracts", ADDRESS),
            format!("./{}/contracts/A.sol", ADDRESS),
            "pragma ...".to_owned()
        )]
    );
    assert!(warned(&effects).is_empty());
}

#[test]
fn double_braces_are_stripped_before_parsing() {
    let inner = "{\"language\":\"Solidity\",\"sources\":{\"src/B.sol\":{\"content\":\"contract B {}\"}}}";
    let wrapped = format!("{{{}}}", inner);
    let plain = Parser::parse_contract(&answer("B", inner), ADDRESS, &ParserMode::Single, false).unwrap();
    let stripped =
        Parser::parse_contract(&answer("B", &wrapped), ADDRESS, &ParserMode::Single, false).unwrap();
    assert_eq!(saved(&plain), saved(&stripped));
    assert_eq!(
        saved(&stripped),
        vec![(
            format!("./{}/src", ADDRESS),
            format!("./{}/src/B.sol", ADDRESS),
            "contract B {}".to_owned()
        )]
    );
    assert_eq!(Parser::normalize(&wrapped), inner);
    assert_eq!(Parser::normalize(inner), inner);
    assert_eq!(Parser::normalize("{{"), "");
    assert_eq!(Parser::normalize("{{x"), "{");
    assert_eq!(Parser::normalize("{"), "{");
    assert_eq!(Parser::normalize(""), "");
    assert_eq!(Parser::normalize("a{{b}}"), "a{{b}}");
}

#[test]
fn every_kept_source_is_written_with_its_content() {
    let code = "{\"sources\":{\"a/One.sol\":{\"content\":\"1\"},\"b/c/Two.sol\":{\"content\":\"2\"},\"Three.sol\":{\"content\":\"3\"}}}";
    let data = ContractData { name: "N".to_owned(), code: code.to_owned() };
    let effects = Parser::plan_contract(&data, "0xabc", &ParserMode::Single, false).unwrap();
    assert_eq!(
        saved(&effects),
        vec![
            ("./0xabc/".to_owned(), "./0xabc/Three.sol".to_owned(), "3".to_owned()),
            ("./0xabc/a".to_owned(), "./0xabc/a/One.sol".to_owned(), "1".to_owned()),
            ("./0xabc/b/c".to_owned(), "./0xabc/b/c/Two.sol".to_owned(), "2".to_owned()),
        ]
    );
}

#[test]
fn openzeppelin_sources_are_written_only_on_request() {
    let code = "{\"sources\":{\"@openzeppelin/contracts/Ownable.sol\":{\"content\":\"o\"},\"src/A.sol\":{\"content\":\"a\"},\"@openzeppelin/x/import.sol\":{\"content\":\"i\"}}}";
    let data = ContractData { name: "N".to_owned(), code: code.to_owned() };
    let without = Parser::plan_contract(&data, "0xabc", &ParserMode::Single, false).unwrap();
    assert_eq!(
        saved(&without),
        vec![("./0xabc/src".to_owned(), "./0xabc/src/A.sol".to_owned(), "a".to_owned())]
    );
    let with = Parser::plan_contract(&data, "0xabc", &ParserMode::Single, true).unwrap();
    assert_eq!(
        saved(&with),
        vec![
            (
                "./0xabc/@openzeppelin/contracts".to_owned(),
                "./0xabc/@openzeppelin/contracts/Ownable.sol".to_owned(),
                "o".to_owned()
            ),
            ("./0xabc/src".to_owned(), "./0xabc/src/A.sol".to_owned(), "a".to_owned()),
        ]
    );
}

#[test]
fn source_without_content_gives_a_warning_and_the_rest_goes_on() {
    let code = "{\"sources\":{\"a/A.sol\":{\"content\":7},\"b/B.sol\":{},\"c/C.sol\":{\"content\":\"c\"}}}";
    let data = ContractData { name: "Token".to_owned(), code: code.to_owned() };
    let effects =
        Parser::plan_contract(&data, "0xabc", &ParserMode::Immunefi("sushi".to_owned()), false)
            .unwrap();
    assert_eq!(effects.len(), 3);
    let warning =
        "Couldn't access \"content\" field in returned JSON of contract \"Token\" 0xabc".to_owned();
    assert_eq!(warned(&effects), vec![warning.clone(), warning]);
    assert_eq!(
        saved(&effects),
        vec![(
            "./sushi/0xabc/c".to_owned(),
            "./sushi/0xabc/c/C.sol".to_owned(),
            "c".to_owned()
        )]
    );
    assert!(matches!(effects[2], Effect::Save(_)));
}

#[test]
fn bundle_without_sources_gives_one_warning() {
    for code in ["{}", "{\"sources\":[1]}", "{\"language\":\"Solidity\"}"] {
        let data = ContractData { name: "Token".to_owned(), code: code.to_owned() };
        let effects = Parser::plan_contract(&data, "0xabc", &ParserMode::Single, false).unwrap();
        assert!(saved(&effects).is_empty());
        assert_eq!(
            warned(&effects),
            vec!["Couldn't access \"sources\" field in returned JSON of contract \"Token\" 0xabc"
                .to_owned()]
        );
    }
}

#[test]
fn malformed_json_gives_decode_error() {
    assert!(matches!(
        Parser::parse_contract("<html>rate limited</html>", ADDRESS, &ParserMode::Single, false),
        Err(ParseError::DecodeError)
    ));
    assert!(matches!(Parser::get_contract_data(""), Err(ParseError::DecodeError)));
    let data = ContractData { name: "N".to_owned(), code: "{ not json".to_owned() };
    assert!(matches!(
        Parser::plan_contract(&data, "0xabc", &ParserMode::Single, false),
        Err(ParseError::DecodeError)
    ));
    // a bundle in three braces loses one pair only
    let data = ContractData { name: "N".to_owned(), code: "{{{\"sources\":{}}}}".to_owned() };
    assert!(matches!(
        Parser::plan_contract(&data, "0xabc", &ParserMode::Single, false),
        Err(ParseError::DecodeError)
    ));
}

#[test]
fn missing_fields_become_the_placeholder() {
    let placeholder = "couldn't convert SourceCode to string";
    for body in [
        "{}",
        "{\"result\":[]}",
        "{\"result\":\"Max rate limit reached\"}",
        "{\"result\":[{\"ContractName\":7,\"SourceCode\":null}]}",
        "[]",
    ] {
        let data = Parser::get_contract_data(body).unwrap();
        assert_eq!(data.name, placeholder);
        assert_eq!(data.code, placeholder);
    }
    let data = Parser::get_contract_data("{\"result\":[{\"ContractName\":\"X\"}]}").unwrap();
    assert_eq!(data.name, "X");
    assert_eq!(data.code, placeholder);
    // a placeholder is a single source
    let effects = Parser::parse_contract("{}", "0xabc", &ParserMode::Single, false).unwrap();
    assert_eq!(
        saved(&effects),
        vec![(
            "./0xabc".to_owned(),
            format!("./0xabc/{}.sol", placeholder),
            placeholder.to_owned()
        )]
    );
}

#[test]
fn only_the_first_result_is_read() {
    let body = "{\"result\":[{\"ContractName\":\"First\",\"SourceCode\":\"a\"},{\"ContractName\":\"Second\",\"SourceCode\":\"b\"}]}";
    let data = Parser::get_contract_data(body).unwrap();
    assert_eq!(data.name, "First");
    assert_eq!(data.code, "a");
    let doc = Json::parse(body).unwrap();
    let same = Parser::contract_data_of(&doc);
    assert_eq!(same.name, "First");
    assert_eq!(same.code, "a");
}

#[test]
fn a_source_is_a_bundle_exactly_where_it_begins_with_a_brace() {
    let kind = |code: &str| {
        Parser::get_contract_type(&ContractData { name: "N".to_owned(), code: code.to_owned() })
    };
    assert_eq!(kind("{\"sources\":{}}"), ContractType::Splitted);
    assert_eq!(kind("{{\"sources\":{}}}"), ContractType::Splitted);
    assert_eq!(kind("{"), ContractType::Splitted);
    assert_eq!(kind(""), ContractType::United);
    assert_eq!(kind(" {"), ContractType::United);
    assert_eq!(kind("pragma solidity ^0.8.0;"), ContractType::United);
    assert_eq!(kind("[{}]"), ContractType::United);
}

#[test]
fn plan_sources_reads_a_parsed_bundle() {
    let doc = Json::parse("{\"sources\":{\"x/Y.sol\":{\"content\":\"y\"}}}").unwrap();
    let effects = Parser::plan_sources(&doc, "N", "0xabc", &ParserMode::Single, false);
    assert_eq!(
        saved(&effects),
        vec![("./0xabc/x".to_owned(), "./0xabc/x/Y.sol".to_owned(), "y".to_owned())]
    );
}
