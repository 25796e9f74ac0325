//! Texts, JSON values and the names of contracts.

use clarinet_tooling::contracts::{
    call_target, find_named, resolve, write_call, write_local_call, write_transfer, CallTarget,
    ContractId,
};
use clarinet_tooling::dap::project::{accounts_json, deployer_address, Project, Wallet};
use clarinet_tooling::dap::reply::{
    asset_balances, eval_to_tx_result, project_accounts, Receipt,
};
use clarinet_tooling::dap::server::write_response;
use clarinet_tooling::json::Json;
use clarinet_tooling::simnet::{ClarityValue, EvaluationResult, ExecutionResult};
use clarinet_tooling::text::{
    chars_of, contains_char, contains_text, join, parse_u64, same_text, split_last,
    starts_with_char, strip_leading, to_decimal, trim,
};

fn strings(list: &[&str]) -> Vec<String> {
    list.iter().map(|text| text.to_string()).collect()
}

fn id(issuer: &str, name: &str) -> ContractId {
    ContractId { issuer: issuer.to_string(), name: name.to_string() }
}

fn object(fields: Vec<(&str, Json)>) -> Json {
    Json::Object(fields.into_iter().map(|(key, value)| (key.to_string(), value)).collect())
}

#[test]
fn numbers_are_written_and_read_back() {
    for n in [0, 1, 9, 10, 99, 100, 12345, u64::MAX] {
        let text = to_decimal(n as u128);
        assert_eq!(text, n.to_string());
        assert_eq!(parse_u64(&text), Some(n));
    }
    assert_eq!(to_decimal(u128::MAX), u128::MAX.to_string());
}

#[test]
fn numbers_are_read_as_the_standard_library_reads_them() {
    for text in [
        "", "+", "-", "0", "00", "+5", "-0", "-5", "1e3", " 1", "1 ", "\u{661}", "1_000",
        "18446744073709551615", "18446744073709551616", "99999999999999999999999",
        "00000000000000000000000018446744073709551615",
    ] {
        assert_eq!(parse_u64(text), text.parse::<u64>().ok(), "{text:?}");
    }
}

#[test]
fn texts_are_trimmed_as_the_standard_library_trims_them() {
    for text in
        ["", " ", "a", " a ", "\t a b\r\n", "\u{a0}x\u{3000}", "\u{200b}x", "\u{85}\u{2028}x\u{1680}"]
    {
        assert_eq!(trim(text), text.trim(), "{text:?}");
    }
}

#[test]
fn texts_are_split_at_the_last_place() {
    assert_eq!(split_last("a.b.c", '.'), Some(("a.b".to_string(), "c".to_string())));
    assert_eq!(split_last(".", '.'), Some((String::new(), String::new())));
    assert_eq!(split_last("abc", '.'), None);
    assert_eq!(split_last("é.ü", '.'), Some(("é".to_string(), "ü".to_string())));
}

#[test]
fn texts_are_searched_and_joined() {
    assert!(contains_text("abcabd", "abd"));
    assert!(contains_text("x", ""));
    assert!(!contains_text("", "x"));
    assert!(!contains_text("ab", "abc"));
    assert!(contains_char("a.b", '.'));
    assert!(!contains_char("", '.'));
    assert!(starts_with_char(".a", '.'));
    assert!(!starts_with_char("", '.'));
    assert_eq!(strip_leading("..a.", '.'), "a.");
    assert_eq!(strip_leading("...", '.'), "");
    assert!(same_text("é", "é"));
    assert!(!same_text("e", "é"));
    assert_eq!(chars_of("aé"), vec!['a', 'é']);
    assert_eq!(join(&strings(&["a", "", "b"]), "; "), "a; ; b");
    assert_eq!(join(&Vec::new(), "; "), "");
}

#[test]
fn a_leading_dot_is_ignored() {
    let contracts = vec![id("ST1", "token"), id("ST2", "pool"), id("ST3", "pool")];
    for name in ["pool", ".pool", "..pool"] {
        assert_eq!(resolve(name, &contracts), "'ST2.pool");
        assert_eq!(call_target(name, &contracts), CallTarget::Deployed(id("ST2", "pool")));
    }
    assert_eq!(find_named(&contracts, "pool"), Some(id("ST2", "pool")));
    assert_eq!(find_named(&contracts, "bank"), None);
}

#[test]
fn a_full_identifier_is_taken_as_it_is() {
    let contracts = vec![id("ST1", "token")];
    assert_eq!(resolve("ST9.token", &contracts), "'ST9.token");
    assert_eq!(call_target("ST9.token", &contracts), CallTarget::Transient);
    assert_eq!(resolve("bank", &contracts), ".bank");
    assert_eq!(resolve("", &contracts), ".");
    assert_eq!(id("ST1", "token").principal(), "ST1.token");
}

#[test]
fn calls_are_written_as_snippets() {
    assert_eq!(write_call("'ST1.a", "f", &Vec::new()), "(contract-call? 'ST1.a f)");
    assert_eq!(
        write_call(".a", "f", &strings(&["u1", "true"])),
        "(contract-call? .a f u1 true)"
    );
    assert_eq!(write_local_call("f", &strings(&["u1"])), "(f u1)");
    assert_eq!(write_local_call("f", &strings(&["", ""])), "(f  )");
    assert_eq!(
        write_transfer(u64::MAX, "ST1", "ST2"),
        "(stx-transfer? u18446744073709551615 'ST1 'ST2)"
    );
}

#[test]
fn the_last_account_of_a_name_counts() {
    let wallet = |name: &str, address: &str| Wallet {
        name: name.to_string(),
        address: address.to_string(),
    };
    let wallets = vec![wallet("deployer", "A"), wallet("w", "B"), wallet("deployer", "C")];
    assert_eq!(deployer_address(&wallets), "C");
    assert_eq!(accounts_json(&wallets).get_text("deployer"), Some("C".to_string()));
    assert_eq!(accounts_json(&wallets).get_text("w"), Some("B".to_string()));
    assert_eq!(deployer_address(&Vec::new()), "");
}

#[test]
fn fields_are_read_by_their_kind() {
    let json = object(vec![
        ("a", Json::Unsigned(1)),
        ("b", Json::Negative(-1)),
        ("c", Json::Text("x".to_string())),
        (
            "d",
            Json::Array(vec![
                Json::Text("p".to_string()),
                Json::Null,
                Json::Text("q".to_string()),
            ]),
        ),
        ("a", Json::Unsigned(2)),
    ]);
    assert_eq!(json.get_u64("a"), Some(2));
    assert_eq!(json.get_u64("b"), None);
    assert_eq!(json.get_text("c"), Some("x".to_string()));
    assert_eq!(json.get_text("a"), None);
    assert_eq!(json.text_or_empty("z"), "");
    assert_eq!(json.get_texts("d"), strings(&["p", "q"]));
    assert!(json.get_texts("c").is_empty());
    assert_eq!(json.get("z"), None);
    assert_eq!(Json::Null.get("a"), None);
    assert_eq!(json.into_field("a"), Json::Unsigned(2));
    assert_eq!(Json::Bool(true).into_field("a"), Json::Null);
}

#[test]
fn a_reply_is_one_line() {
    let reply = object(vec![
        ("text", Json::Text("a\nb\u{1}\"".to_string())),
        ("list", Json::Array(vec![Json::Bool(false), Json::Negative(-7), Json::Null])),
    ]);
    assert_eq!(
        write_response(&reply),
        "{\"list\":[false,-7,null],\"text\":\"a\\nb\\u0001\\\"\"}\n"
    );
}

#[test]
fn the_last_value_of_a_key_is_written() {
    let wallet = |name: &str, address: &str| Wallet {
        name: name.to_string(),
        address: address.to_string(),
    };
    let project = Project {
        contracts: Vec::new(),
        wallets: vec![wallet("w", "A"), wallet("deployer", "B"), wallet("w", "C")],
        manifest: String::new(),
    };
    assert_eq!(
        write_response(&project_accounts(Json::Unsigned(1), &project)),
        "{\"id\":1,\"result\":{\"accounts\":{\"deployer\":\"B\",\"w\":\"C\"},\"deployer\":\"B\"}}\n"
    );
    let balances = |amount: u128| vec![("A".to_string(), 7), ("A".to_string(), amount)];
    let assets = vec![("STX".to_string(), balances(1)), ("STX".to_string(), balances(2))];
    assert_eq!(
        write_response(&asset_balances(Json::Null, &assets)),
        "{\"id\":null,\"result\":{\"assets\":{\"STX\":{\"A\":\"2\"}}}}\n"
    );
    assert_eq!(
        write_response(&object(vec![("a", Json::Unsigned(1)), ("a", Json::Unsigned(2))])),
        "{\"a\":2}\n"
    );
}

#[test]
fn a_receipt_without_events_holds_an_empty_array() {
    let execution = ExecutionResult {
        result: EvaluationResult::Contract { identifier: "ST1.a".to_string(), value: None },
        events: Vec::new(),
        cost: None,
    };
    assert_eq!(
        eval_to_tx_result(Ok(execution)),
        Ok(Receipt { result: "0x03".to_string(), events: "[]".to_string() })
    );
}

#[test]
fn a_receipt_holds_the_events_in_order() {
    let execution = ExecutionResult {
        result: EvaluationResult::Contract {
            identifier: "ST1.a".to_string(),
            value: Some(ClarityValue {
                display: "u1".to_string(),
                text: "u1".to_string(),
                hex: "0x01".to_string(),
            }),
        },
        events: vec![Json::Unsigned(1), Json::Text("two".to_string())],
        cost: None,
    };
    assert_eq!(
        eval_to_tx_result(Ok(execution)),
        Ok(Receipt { result: "0x01".to_string(), events: "[1,\"two\"]".to_string() })
    );
    assert_eq!(
        eval_to_tx_result(Err(strings(&["one", "two"]))),
        Err("one; two".to_string())
    );
}
