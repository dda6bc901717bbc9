use chain_react::error::AuthError;
use chain_react::json::{parse_json, Json};
use chain_react::ownership::{answer_shows_item, balance_query, owns_item, BalanceReply};

const ITEM: &str = "ge862a974002715c4f45859a5bd6b489";

fn reply(text: &str) -> BalanceReply {
    BalanceReply { status: 200, status_line: "200 OK".to_string(), text: text.to_string() }
}

fn owns(text: &str) -> bool {
    owns_item(&reply(text), "addr", ITEM).unwrap()
}

#[test]
fn the_question_goes_to_the_service() {
    let query = balance_query("https://mempool.lineage.to", "addr");
    assert_eq!(query.url, "https://mempool.lineage.to/v1/balances/query");
    assert_eq!(query.addresses, vec!["addr".to_string()]);
    assert_eq!(balance_query("http://x///", "a").url, "http://x/v1/balances/query");
    assert_eq!(balance_query("", "a").url, "/v1/balances/query");
}

#[test]
fn an_item_at_the_address_is_owned() {
    assert!(owns(
        r#"{"balance":{"address_list":{"addr":[
            {"value":{"Token":5}},
            {"value":{"Item":{"genesis_hash":"ge862a974002715c4f45859a5bd6b489","amount":1}}}
        ]}}}"#
    ));
}

#[test]
fn the_older_shape_of_an_answer_is_read_too() {
    assert!(owns(
        r#"{"address_list":{"addr":[
            {"value":{"Item":{"genesis_hash":"GE862A974002715C4F45859A5BD6B489","amount":3}}}
        ]}}"#
    ));
    // What stands under "balance" hides the root.
    assert!(!owns(
        r#"{"balance":{},"address_list":{"addr":[
            {"value":{"Item":{"genesis_hash":"ge862a974002715c4f45859a5bd6b489","amount":3}}}
        ]}}"#
    ));
}

#[test]
fn the_amount_has_to_be_positive() {
    assert!(!owns(
        r#"{"address_list":{"addr":[
            {"value":{"Item":{"genesis_hash":"ge862a974002715c4f45859a5bd6b489","amount":0}}},
            {"value":{"Item":{"genesis_hash":"ge862a974002715c4f45859a5bd6b489","amount":-1}}},
            {"value":{"Item":{"genesis_hash":"ge862a974002715c4f45859a5bd6b489","amount":1.5}}},
            {"value":{"Item":{"genesis_hash":"ge862a974002715c4f45859a5bd6b489","amount":"1"}}},
            {"value":{"Item":{"genesis_hash":"ge862a974002715c4f45859a5bd6b489"}}}
        ]}}"#
    ));
    assert!(owns(
        r#"{"address_list":{"addr":[
            {"value":{"Item":{"genesis_hash":"ge862a974002715c4f45859a5bd6b489",
                              "amount":18446744073709551615}}}
        ]}}"#
    ));
}

#[test]
fn another_item_does_not_count() {
    assert!(!owns(
        r#"{"address_list":{"addr":[
            {"value":{"Item":{"genesis_hash":"other","amount":1}}},
            {"value":{"Item":{"genesis_hash":7,"amount":1}}},
            {"value":{"Item":{"amount":1}}},
            {"value":{}},
            {},
            null,
            3
        ]}}"#
    ));
}

#[test]
fn an_item_at_another_address_does_not_count() {
    let text = r#"{"address_list":{"Addr":[
        {"value":{"Item":{"genesis_hash":"ge862a974002715c4f45859a5bd6b489","amount":1}}}
    ]}}"#;
    assert!(!owns(text));
    assert!(owns_item(&reply(text), "Addr", ITEM).unwrap());
}

#[test]
fn an_answer_without_entries_shows_nothing() {
    assert!(!owns("{}"));
    assert!(!owns("[]"));
    assert!(!owns("null"));
    assert!(!owns(r#"{"address_list":{}}"#));
    assert!(!owns(r#"{"address_list":[]}"#));
    assert!(!owns(r#"{"address_list":{"addr":{}}}"#));
    assert!(!owns(r#"{"address_list":{"addr":[]}}"#));
    assert!(!owns(r#"{"balance":null}"#));
}

#[test]
fn an_item_without_a_hash_is_the_one_of_the_empty_hash() {
    let text = r#"{"address_list":{"addr":[{"value":{"Item":{"amount":1}}}]}}"#;
    assert!(owns_item(&reply(text), "addr", "").unwrap());
}

#[test]
fn a_failure_of_the_service_is_passed_on() {
    for status in [100, 199, 300, 404, 503] {
        let failed = BalanceReply {
            status,
            status_line: "503 Service Unavailable".to_string(),
            text: "later".to_string(),
        };
        let error = owns_item(&failed, "addr", ITEM).unwrap_err();
        assert!(matches!(error, AuthError::ApiStatus { .. }));
        assert_eq!(
            error.message().unwrap(),
            "Lineage API returned 503 Service Unavailable: later"
        );
    }
    for status in [200, 204, 299] {
        let fine =
            BalanceReply { status, status_line: "fine".to_string(), text: "{}".to_string() };
        assert!(!owns_item(&fine, "addr", ITEM).unwrap());
    }
}

#[test]
fn an_answer_that_is_no_json_is_refused() {
    for text in ["", "{", "{} x", "owned"] {
        assert!(matches!(owns_item(&reply(text), "addr", ITEM), Err(AuthError::InvalidReply(_))));
    }
    // A failed status comes first.
    let failed = BalanceReply { status: 500, status_line: "s".to_string(), text: "{".to_string() };
    assert!(matches!(owns_item(&failed, "addr", ITEM), Err(AuthError::ApiStatus { .. })));
}

#[test]
fn json_is_read_with_all_that_it_holds() {
    let json = parse_json(r#"{"a":[null,true,1,-1,0.5,"t",{"b":[]}],"z":"last"}"#).unwrap();
    let items = match json.get("a") {
        Some(Json::List(items)) => items,
        other => panic!("{:?}", other),
    };
    assert_eq!(items.len(), 7);
    assert!(matches!(items[0], Json::Null));
    assert!(matches!(items[1], Json::Bool(true)));
    assert!(matches!(items[2], Json::Number(Some(1))));
    assert!(matches!(items[3], Json::Number(None)));
    assert!(matches!(items[4], Json::Number(None)));
    assert_eq!(items[5].as_str(), Some("t"));
    assert!(matches!(items[6].get("b"), Some(Json::List(inner)) if inner.is_empty()));
    assert_eq!(json.get("z").unwrap().as_str(), Some("last"));
    assert!(json.get("b").is_none());
    assert!(items[5].get("a").is_none());
    assert_eq!(items[2].as_u64(), Some(1));
    assert_eq!(items[5].as_u64(), None);
    assert_eq!(items[2].as_str(), None);
}

#[test]
fn of_fields_with_one_key_the_last_counts() {
    let json = parse_json(r#"{"k":1,"k":2}"#).unwrap();
    assert_eq!(json.get("k").unwrap().as_u64(), Some(2));
}

#[test]
fn an_answer_can_be_read_without_its_text() {
    let item = Json::Object(vec![
        ("genesis_hash".to_string(), Json::Text(ITEM.to_string())),
        ("amount".to_string(), Json::Number(Some(1))),
    ]);
    let value = Json::Object(vec![("Item".to_string(), item)]);
    let entry = Json::Object(vec![("value".to_string(), value)]);
    let list = Json::Object(vec![("addr".to_string(), Json::List(vec![entry]))]);
    let answer = Json::Object(vec![("address_list".to_string(), list)]);
    assert!(answer_shows_item(&answer, "addr", ITEM));
    assert!(!answer_shows_item(&answer, "other", ITEM));
    assert!(!answer_shows_item(&answer, "addr", "other"));
}
