//! Replays: the height that they start from, what they run, and what is printed.

use clarinet_tooling::json::Json;
use clarinet_tooling::replay::{
    close_replay, execute_tx, format_execution_result, is_mainnet_name, is_mainnet_url,
    open_replay, replay_result, replay_transaction, session_height, session_settings, ApiUrl,
    ContractCallDetails, RemoteDataSettings, Replay, ReplayPlan, ReplayResult,
    SmartContractDetails, TokenTransferDetails, TransactionDetails,
};
use clarinet_tooling::simnet::{
    ClarityValue, ContractDeployment, Epoch, EvaluationResult, ExecutionCost, ExecutionResult,
    LanguageVersion, Outcome, SessionOp,
};

const SENDER: &str = "SP3FBR2AGK5H9QBDH3EEN6DF8EK8JY7RX8QJ5SVTE";
const MAINNET: &str = "https://api.hiro.so";

fn url(text: &str) -> ApiUrl {
    ApiUrl(text.to_string())
}

fn tx(tx_type: &str) -> TransactionDetails {
    TransactionDetails {
        tx_id: "0xabc".to_string(),
        tx_type: tx_type.to_string(),
        sender_address: SENDER.to_string(),
        block_height: Some(100),
        contract_call: None,
        smart_contract: None,
        token_transfer: None,
    }
}

fn call_tx(args: &[&str]) -> TransactionDetails {
    TransactionDetails {
        contract_call: Some(ContractCallDetails {
            contract_id: "SP1.pool".to_string(),
            function_name: "swap".to_string(),
            function_args: args.iter().map(|arg| arg.to_string()).collect(),
        }),
        ..tx("contract_call")
    }
}

fn deploy_tx(contract_id: &str) -> TransactionDetails {
    TransactionDetails {
        smart_contract: Some(SmartContractDetails {
            contract_id: contract_id.to_string(),
            source_code: "(define-constant a u1)".to_string(),
        }),
        ..tx("smart_contract")
    }
}

fn transfer_tx(amount: &str) -> TransactionDetails {
    TransactionDetails {
        token_transfer: Some(TokenTransferDetails {
            recipient_address: "SP2".to_string(),
            amount: amount.to_string(),
        }),
        ..tx("token_transfer")
    }
}

fn evaluate(snippet: &str) -> Result<ReplayPlan, String> {
    Ok(ReplayPlan::Evaluate { snippet: snippet.to_string(), cost_track: true })
}

/// The deployment of `deploy_tx`, by a deployer and under a name.
fn deployment(deployer: &str, name: &str) -> ContractDeployment {
    ContractDeployment {
        deployer: deployer.to_string(),
        name: name.to_string(),
        source: "(define-constant a u1)".to_string(),
        epoch: Epoch::Current,
        clarity_version: LanguageVersion::DefaultOfEpoch,
        skip_analysis: false,
    }
}

fn execution() -> ExecutionResult {
    ExecutionResult {
        result: EvaluationResult::Snippet(ClarityValue {
            display: "(ok true)".to_string(),
            text: "(ok true)".to_string(),
            hex: "0x0703".to_string(),
        }),
        events: Vec::new(),
        cost: None,
    }
}

#[test]
fn a_network_is_told_by_the_address_of_its_server() {
    assert!(is_mainnet_url(&url(MAINNET)));
    assert!(is_mainnet_url(&url("")));
    assert!(!is_mainnet_url(&url("https://api.testnet.hiro.so")));
    assert!(!is_mainnet_url(&url("https://API.TestNet.hiro.so")));
    assert!(!is_mainnet_url(&url("https://krypton.example")));
    assert!(!is_mainnet_url(&url("KRYPTON")));
    assert!(is_mainnet_url(&url("https://test.net")));
    assert!(is_mainnet_name("KRYPTON"));
    // The kelvin sign has a `k` for its lower case.
    assert!(!is_mainnet_url(&url("\u{212a}RYPTON")));
}

#[test]
fn a_replay_starts_before_the_block() {
    assert_eq!(session_height(&tx(""), None), Ok(99));
    assert_eq!(session_height(&tx(""), Some(7)), Ok(7));
    assert_eq!(
        session_height(&TransactionDetails { block_height: Some(0), ..tx("") }, None),
        Ok(0)
    );
    let pending = TransactionDetails { block_height: None, ..tx("") };
    assert_eq!(session_height(&pending, Some(7)), Ok(7));
    assert_eq!(
        session_height(&pending, None),
        Err("transaction 0xabc has no block_height — is it still pending?".to_string())
    );
}

#[test]
fn a_session_takes_its_state_from_the_server() {
    assert_eq!(
        session_settings(url(MAINNET), 41),
        RemoteDataSettings {
            enabled: true,
            api_url: url(MAINNET),
            initial_height: Some(41),
            use_mainnet_wallets: true,
        }
    );
    assert!(!session_settings(url("https://api.testnet.hiro.so"), 41).use_mainnet_wallets);
}

#[test]
fn a_call_becomes_a_snippet() {
    assert_eq!(execute_tx(&call_tx(&[])), evaluate("(contract-call? 'SP1.pool swap)"));
    assert_eq!(execute_tx(&call_tx(&[""])), evaluate("(contract-call? 'SP1.pool swap)"));
    assert_eq!(
        execute_tx(&call_tx(&["u1", "'SP2.token"])),
        evaluate("(contract-call? 'SP1.pool swap u1 'SP2.token)")
    );
    assert_eq!(
        execute_tx(&tx("contract_call")),
        Err("missing contract_call field on transaction".to_string())
    );
}

#[test]
fn a_deployment_splits_the_identifier_at_its_last_dot() {
    assert_eq!(
        execute_tx(&deploy_tx("SP1.a.b")),
        Ok(ReplayPlan::Deploy {
            deployment: deployment("SP1.a", "b"),
            cost_track: true,
            snippet: "(deploy 'SP1.a.b)".to_string(),
        })
    );
    assert_eq!(execute_tx(&deploy_tx("pool")), Err("invalid contract_id: pool".to_string()));
    assert_eq!(
        execute_tx(&tx("smart_contract")),
        Err("missing smart_contract field on transaction".to_string())
    );
}

#[test]
fn a_transfer_becomes_a_snippet() {
    assert_eq!(execute_tx(&transfer_tx("0")), evaluate("(stx-transfer? u0 tx-sender 'SP2)"));
    assert_eq!(execute_tx(&transfer_tx("+007")), evaluate("(stx-transfer? u7 tx-sender 'SP2)"));
    assert_eq!(
        execute_tx(&transfer_tx("18446744073709551615")),
        evaluate("(stx-transfer? u18446744073709551615 tx-sender 'SP2)")
    );
    for amount in ["18446744073709551616", "", "+", "-1", "1 ", "0x1", "u1", "++1"] {
        assert_eq!(
            execute_tx(&transfer_tx(amount)),
            Err(format!("invalid token_transfer amount: {amount}"))
        );
    }
    assert_eq!(
        execute_tx(&tx("token_transfer")),
        Err("missing token_transfer field on transaction".to_string())
    );
}

#[test]
fn a_replay_tracks_its_cost() {
    let bns = "SP000000000000000000002Q6VF78";
    let call = |args: &[&str]| TransactionDetails {
        contract_call: Some(ContractCallDetails {
            contract_id: format!("{bns}.bns"),
            function_name: "f".to_string(),
            function_args: args.iter().map(|arg| arg.to_string()).collect(),
        }),
        ..tx("contract_call")
    };
    let transfer = TransactionDetails {
        token_transfer: Some(TokenTransferDetails {
            recipient_address: bns.to_string(),
            amount: "007".to_string(),
        }),
        ..tx("token_transfer")
    };
    for (tx, snippet) in [
        (call(&["u1", "(some true)"]), format!("(contract-call? '{bns}.bns f u1 (some true))")),
        (call(&[]), format!("(contract-call? '{bns}.bns f)")),
        (transfer, format!("(stx-transfer? u7 tx-sender '{bns})")),
    ] {
        let plan = execute_tx(&tx).unwrap();
        assert_eq!(
            open_replay(&plan, SENDER),
            vec![
                SessionOp::SetSender(SENDER.to_string()),
                SessionOp::Eval { snippet, cost_track: true },
            ]
        );
    }
}

#[test]
fn other_transactions_are_not_replayed() {
    assert_eq!(
        execute_tx(&tx("coinbase")),
        Err("unsupported transaction type 'coinbase' — only contract_call, smart_contract, and \
             token_transfer are supported"
            .to_string())
    );
}

#[test]
fn a_replay_is_prepared_from_a_transaction() {
    assert_eq!(
        replay_transaction(url(MAINNET), &call_tx(&["u1"]), None),
        Ok(Replay {
            settings: session_settings(url(MAINNET), 99),
            session_height: 99,
            plan: ReplayPlan::Evaluate {
                snippet: "(contract-call? 'SP1.pool swap u1)".to_string(),
                cost_track: true,
            },
        })
    );
    // The height is looked at first.
    let pending = TransactionDetails { block_height: None, ..tx("coinbase") };
    assert_eq!(
        replay_transaction(url(MAINNET), &pending, None),
        Err("transaction 0xabc has no block_height — is it still pending?".to_string())
    );
    assert!(replay_transaction(url(MAINNET), &pending, Some(3))
        .unwrap_err()
        .starts_with("unsupported transaction type 'coinbase'"));
}

#[test]
fn a_replay_runs_as_the_sender_and_restores_it() {
    let plan = execute_tx(&transfer_tx("5")).unwrap();
    assert_eq!(
        open_replay(&plan, SENDER),
        vec![
            SessionOp::SetSender(SENDER.to_string()),
            SessionOp::Eval {
                snippet: "(stx-transfer? u5 tx-sender 'SP2)".to_string(),
                cost_track: true,
            },
        ]
    );
    let outcome: Outcome = Ok(execution());
    assert_eq!(
        close_replay(&plan, &outcome, "ST1"),
        vec![SessionOp::SetSender("ST1".to_string())]
    );
    let failed: Outcome = Err(vec!["no".to_string()]);
    assert_eq!(close_replay(&plan, &failed, "ST1"), Vec::new());
}

#[test]
fn a_deployment_leaves_the_sender_alone() {
    let plan = execute_tx(&deploy_tx("SP1.a")).unwrap();
    assert_eq!(
        open_replay(&plan, SENDER),
        vec![SessionOp::Deploy { deployment: deployment("SP1", "a"), cost_track: true }]
    );
    let outcome: Outcome = Ok(execution());
    assert_eq!(close_replay(&plan, &outcome, "ST1"), Vec::new());
}

#[test]
fn a_replay_has_a_result() {
    let plan = execute_tx(&deploy_tx("SP1.a")).unwrap();
    assert_eq!(
        replay_result(deploy_tx("SP1.a"), 99, plan, Ok(execution())),
        Ok(ReplayResult {
            txid: "0xabc".to_string(),
            tx_type: "smart_contract".to_string(),
            session_height: 99,
            sender: SENDER.to_string(),
            snippet: "(deploy 'SP1.a)".to_string(),
            execution: execution(),
        })
    );
    let plan = execute_tx(&transfer_tx("5")).unwrap();
    assert_eq!(
        replay_result(
            transfer_tx("5"),
            99,
            plan,
            Err(vec!["first".to_string(), "second".to_string()])
        ),
        Err("first; second".to_string())
    );
}

#[test]
fn an_execution_is_printed() {
    assert_eq!(format_execution_result(&execution()), "Result: (ok true)\n");
}

#[test]
fn a_deployment_is_printed_with_events_and_cost() {
    let event = |n: u64| {
        Json::Object(vec![
            ("value".to_string(), Json::Unsigned(n)),
            ("type".to_string(), Json::Text("a\nb".to_string())),
        ])
    };
    let result = ExecutionResult {
        result: EvaluationResult::Contract { identifier: "SP1.a".to_string(), value: None },
        events: vec![event(1), event(2)],
        cost: Some(ExecutionCost {
            runtime: 12345,
            read_count: 2,
            read_length: 30,
            write_count: 0,
            write_length: u64::MAX,
        }),
    };
    assert_eq!(
        format_execution_result(&result),
        "Result: contract 'SP1.a' deployed\n\
         \nEvents:\n\
         \x20 - {\"type\":\"a\\nb\",\"value\":1}\n\
         \x20 - {\"type\":\"a\\nb\",\"value\":2}\n\
         \nExecution costs:\n\
         \x20 runtime:      12345\n\
         \x20 read_count:   2\n\
         \x20 read_length:  30\n\
         \x20 write_count:  0\n\
         \x20 write_length: 18446744073709551615\n"
    );
}
