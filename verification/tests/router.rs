use iscp::{ApiDB, ParseError, Parser};

fn store() -> ApiDB {
    let mut db = ApiDB::new();
    db.add_new_api("etherscan", "EK", "https://api.etherscan.io");
    db.add_new_api("optimistic", "OK", "https://api-optimistic.etherscan.io");
    db.add_new_api("polygonscan", "PK", "https://api.polygonscan.com");
    db
}

#[test]
fn the_first_matching_entry_is_selected() {
    let db = store();
    let e = Parser::route("https://polygonscan.com/address/0x1", &db).unwrap();
    assert_eq!(e.name, "polygonscan");
    let e = Parser::route("https://etherscan.io/address/0x1", &db).unwrap();
    assert_eq!(e.name, "etherscan");
}

#[test]
fn entries_are_tried_in_their_order() {
    let mut db = ApiDB::new();
    db.add_new_api("scan", "1", "one");
    db.add_new_api("etherscan", "2", "two");
    assert_eq!(Parser::route("https://etherscan.io/x", &db).unwrap().name, "scan");
    let mut db = ApiDB::new();
    db.add_new_api("etherscan", "2", "two");
    db.add_new_api("scan", "1", "one");
    assert_eq!(Parser::route("https://etherscan.io/x", &db).unwrap().name, "etherscan");
}

#[test]
fn optimistic_urls_go_to_the_optimistic_entry() {
    let db = store();
    let url = "https://optimistic.etherscan.io/address/0xdac17f958d2ee523a2206206994597c13d831ec7";
    let e = Parser::route(url, &db).unwrap();
    assert_eq!(e.name, "optimistic");
    assert_eq!(e.key, "OK");
    assert_eq!(
        Parser::get_api_url(url, "0xdac17f958d2ee523a2206206994597c13d831ec7", &db),
        Ok("https://api-optimistic.etherscan.io/api?module=contract&action=getsourcecode&address=0xdac17f958d2ee523a2206206994597c13d831ec7&apikey=OK".to_owned())
    );
}

#[test]
fn optimistic_urls_without_an_optimistic_entry_have_no_route() {
    let mut db = ApiDB::new();
    db.add_new_api("etherscan", "EK", "https://api.etherscan.io");
    let url = "https://optimistic.etherscan.io/address/0x1";
    assert!(Parser::route(url, &db).is_none());
    assert_eq!(Parser::get_api_url(url, "0x1", &db), Err(ParseError::NoRouteFound));
}

#[test]
fn no_matching_entry_gives_no_route_found() {
    let db = store();
    assert!(Parser::route("https://bscscan.com/address/0x1", &db).is_none());
    assert_eq!(
        Parser::get_api_url("https://bscscan.com/address/0x1", "0x1", &db),
        Err(ParseError::NoRouteFound)
    );
    assert_eq!(
        Parser::get_api_url("https://etherscan.io/address/0x1", "0x1", &ApiDB::new()),
        Err(ParseError::NoRouteFound)
    );
}

#[test]
fn request_url_follows_the_template() {
    let db = store();
    assert_eq!(
        Parser::get_api_url("https://etherscan.io/address/0xabc", "0xabc", &db),
        Ok("https://api.etherscan.io/api?module=contract&action=getsourcecode&address=0xabc&apikey=EK".to_owned())
    );
    assert_eq!(
        Parser::get_api_url("polygonscan", "", &db),
        Ok("https://api.polygonscan.com/api?module=contract&action=getsourcecode&address=&apikey=PK".to_owned())
    );
}

#[test]
fn error_messages_name_the_reason() {
    assert_eq!(ParseError::ScrapeError.message(), "wrong smart contract page or selector");
    assert_eq!(ParseError::ListingPageError.message(), "wrong immunefi page or selector");
    assert_eq!(ParseError::NoAddressFound.message(), "no contract address found");
    assert_eq!(ParseError::NoRouteFound.message(), "no api in database matches the url");
    assert_eq!(ParseError::FetchError.message(), "request failed");
    assert_eq!(ParseError::DecodeError.message(), "malformed JSON");
    assert_eq!(ParseError::PersistError.message(), "could not write to disk");
}
