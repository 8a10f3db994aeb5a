use iscp::{ContractData, Parser, ParserMode};

#[test]
fn directory_part_is_the_path_up_to_its_last_separator() {
    assert_eq!(Parser::get_dir_of_splitted_contract("contracts/A.sol"), "contracts");
    assert_eq!(Parser::get_dir_of_splitted_contract("a/b/c/D.sol"), "a/b/c");
    assert_eq!(Parser::get_dir_of_splitted_contract("/A.sol"), "");
    assert_eq!(Parser::get_dir_of_splitted_contract("dir/"), "dir");
    assert_eq!(Parser::get_dir_of_splitted_contract("a//b"), "a/");
}

#[test]
fn directory_part_of_a_path_without_separator_is_empty() {
    assert_eq!(Parser::get_dir_of_splitted_contract("A.sol"), "");
    assert_eq!(Parser::get_dir_of_splitted_contract(""), "");
}

#[test]
fn directory_part_counts_characters_not_bytes() {
    assert_eq!(Parser::get_dir_of_splitted_contract("caf\u{e9}/\u{fc}ber/A.sol"), "caf\u{e9}/\u{fc}ber");
}

#[test]
fn single_mode_roots_at_the_address() {
    let data = ContractData { name: "TetherToken".to_owned(), code: "code".to_owned() };
    let w = Parser::save_united_contract(&data, &ParserMode::Single, "0xabc");
    assert_eq!(w.dir, "./0xabc");
    assert_eq!(w.path, "./0xabc/TetherToken.sol");
    assert_eq!(w.content, "code");
    let w = Parser::save_splitted_contract(&ParserMode::Single, "0xabc", "lib/Math.sol", "m");
    assert_eq!(w.dir, "./0xabc/lib");
    assert_eq!(w.path, "./0xabc/lib/Math.sol");
    assert_eq!(w.content, "m");
}

#[test]
fn listing_mode_roots_at_the_collection() {
    let mode = ParserMode::Immunefi("sushi swap".to_owned());
    let data = ContractData { name: "Router".to_owned(), code: "code".to_owned() };
    let w = Parser::save_united_contract(&data, &mode, "0xabc");
    assert_eq!(w.dir, "./sushi swap/0xabc");
    assert_eq!(w.path, "./sushi swap/0xabc/Router.sol");
    assert_eq!(w.content, "code");
    let w = Parser::save_splitted_contract(&mode, "0xabc", "contracts/pool/Pool.sol", "p");
    assert_eq!(w.dir, "./sushi swap/0xabc/contracts/pool");
    assert_eq!(w.path, "./sushi swap/0xabc/contracts/pool/Pool.sol");
    assert_eq!(w.content, "p");
    assert_eq!(w.report(), "./sushi swap/0xabc/contracts/pool/Pool.sol has been created!");
}

#[test]
fn the_same_source_goes_to_the_same_file_and_siblings_elsewhere() {
    let first = Parser::save_splitted_contract(&ParserMode::Single, "0xabc", "src/A.sol", "old");
    let again = Parser::save_splitted_contract(&ParserMode::Single, "0xabc", "src/A.sol", "new");
    let sibling = Parser::save_splitted_contract(&ParserMode::Single, "0xabc", "src/B.sol", "b");
    assert_eq!(first.path, again.path);
    assert_eq!(first.dir, again.dir);
    assert_eq!(again.content, "new");
    assert_ne!(first.path, sibling.path);
    assert_eq!(first.dir, sibling.dir);
}

#[test]
fn two_contracts_never_share_a_file() {
    let a = Parser::save_splitted_contract(&ParserMode::Single, "0xaaa", "src/A.sol", "a");
    let b = Parser::save_splitted_contract(&ParserMode::Single, "0xbbb", "src/A.sol", "a");
    assert_ne!(a.path, b.path);
}
