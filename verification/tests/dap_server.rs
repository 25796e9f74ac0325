//! The server, driven against a network that holds one `counter` contract: a public
//! function that counts and prints, a read-only getter and a private function.

use std::collections::VecDeque;

use clarinet_tooling::contracts::{CallTarget, ContractId};
use clarinet_tooling::dap::launch::{ready_line, run_dap, Launch};
use clarinet_tooling::dap::project::{Project, Wallet};
use clarinet_tooling::dap::server::{Action, DapServer, Event, Handshake};
use clarinet_tooling::json::Json;
use clarinet_tooling::simnet::{
    ClarityValue, EvaluationResult, ExecutionResult, FunctionAccess, Outcome, SessionOp,
};
use serde_json::Value;

const DEPLOYER: &str = "ST1PQHQKV0RJXZFY1DGX8MNSNYVE3VGZJSRTPGZGM";
const WALLET_1: &str = "ST1SJ3DTE5DN7X54YDH5D64R3BCB6A2AG2ZQ8YPD5";
const SDK_PORT: u16 = 5432;
const DAP_PORT: u16 = 4321;
const FIXTURE_DIR: &str = "/projects/counter";
const FIXTURE_MANIFEST: &str = "/projects/counter/Clarinet.toml";

/// A Clarity `uint` in hexadecimal: the type byte `0x01` and a 16-byte big-endian
/// value.
fn clarity_uint(value: u128) -> String {
    format!("0x01{:032x}", value)
}

fn value(display: &str, hex: &str) -> ClarityValue {
    ClarityValue { display: display.to_string(), text: display.to_string(), hex: hex.to_string() }
}

fn executed(value: ClarityValue, events: Vec<Json>) -> Outcome {
    Ok(ExecutionResult { result: EvaluationResult::Snippet(value), events, cost: None })
}

/// The network.
struct Simnet {
    count: u128,
    sender: String,
    stacks: u32,
    burn: u32,
    /// Every operation that was run, with the sender that it was run as.
    log: Vec<(String, SessionOp)>,
}

impl Simnet {
    fn increment(&mut self) -> Outcome {
        self.count += 1;
        let event = Json::Object(vec![
            ("type".to_string(), Json::Text("print_event".to_string())),
            ("value".to_string(), Json::Text("{ event: \"increment\" }".to_string())),
        ]);
        executed(value("(ok true)", "0x0703"), vec![event])
    }

    fn evaluate(&mut self, snippet: &str) -> Outcome {
        let counter = format!("(contract-call? '{DEPLOYER}.counter ");
        if let Some(call) = snippet.strip_prefix(counter.as_str()) {
            match call {
                "increment)" => self.increment(),
                "get-count)" => {
                    let count = self.count;
                    executed(value(&format!("u{count}"), &clarity_uint(count)), Vec::new())
                }
                _ => Err(vec!["use of unresolved function".to_string(), call.to_string()]),
            }
        } else if snippet.starts_with("(stx-transfer? ") {
            executed(value("(ok true)", "0x0703"), Vec::new())
        } else if snippet == "(define-data-var x uint u0)" {
            let result =
                EvaluationResult::Contract { identifier: format!("{DEPLOYER}.x"), value: None };
            Ok(ExecutionResult { result, events: Vec::new(), cost: None })
        } else {
            Err(vec![format!("cannot evaluate {snippet}")])
        }
    }

    fn call_private(&mut self, contract: &str, function: &str, args: &[String]) -> Outcome {
        assert_eq!(contract, format!("'{DEPLOYER}.counter"));
        assert_eq!(function, "double");
        assert_eq!(args.len(), 1);
        let doubled = 2 * args[0][1..].parse::<u128>().expect("no unsigned integer");
        executed(value(&format!("u{doubled}"), &clarity_uint(doubled)), Vec::new())
    }

    /// Runs a script and gives back the outcome of its evaluation.
    fn run(&mut self, script: Vec<SessionOp>) -> Outcome {
        let mut outcome = None;
        for op in script {
            match &op {
                SessionOp::SetSender(sender) => self.sender = sender.clone(),
                SessionOp::Prepare { .. } => {}
                SessionOp::Eval { snippet, cost_track } => {
                    assert!(!cost_track);
                    outcome = Some(self.evaluate(snippet));
                }
                SessionOp::CallPrivate { contract, function, args, cost_track } => {
                    assert!(!cost_track);
                    outcome = Some(self.call_private(contract, function, args));
                }
                SessionOp::Deploy { .. } => panic!("the server deploys nothing"),
            }
            self.log.push((self.sender.clone(), op));
        }
        outcome.expect("the script evaluates nothing")
    }

    fn look_up(&self, contract: &str, function: &str) -> Option<FunctionAccess> {
        if contract != format!("'{DEPLOYER}.counter") {
            return None;
        }
        match function {
            "increment" => Some(FunctionAccess::Public),
            "get-count" => Some(FunctionAccess::ReadOnly),
            "double" => Some(FunctionAccess::Private),
            _ => None,
        }
    }
}

/// Resolves a path against a directory, where there is such a file.
fn resolve(base: Option<String>, path: &str) -> Option<String> {
    let mut parts: Vec<&str> = Vec::new();
    let base = base.unwrap_or_else(|| "/somewhere/else".to_string());
    let whole = if path.starts_with('/') { path.to_string() } else { format!("{base}/{path}") };
    for part in whole.split('/') {
        match part {
            "" | "." => {}
            ".." => {
                parts.pop();
            }
            part => parts.push(part),
        }
    }
    let resolved = format!("/{}", parts.join("/"));
    if resolved == FIXTURE_MANIFEST || resolved == "/projects/other/Clarinet.toml" {
        Some(resolved)
    } else {
        None
    }
}

/// The other end of a connection.
#[derive(Default)]
struct Connection {
    requests: VecDeque<String>,
    replies: VecDeque<String>,
    /// How many replies still get through before writing fails.
    readable: Option<usize>,
    closed: bool,
}

/// A server with everything around it.
struct Harness {
    server: Option<DapServer>,
    action: Action,
    simnet: Simnet,
    handshake: Handshake,
    waiting: VecDeque<Connection>,
    client: Option<Connection>,
    announced: Vec<String>,
    exit: Option<Result<(), String>>,
    next_id: u64,
}

fn project() -> Project {
    Project {
        contracts: vec![ContractId { issuer: DEPLOYER.to_string(), name: "counter".to_string() }],
        wallets: vec![
            Wallet { name: "deployer".to_string(), address: DEPLOYER.to_string() },
            Wallet { name: "wallet_1".to_string(), address: WALLET_1.to_string() },
        ],
        manifest: FIXTURE_MANIFEST.to_string(),
    }
}

impl Harness {
    /// A server that no editor attaches to.
    fn start() -> Harness {
        Harness::with(false, Handshake::Attached)
    }

    /// A server that an editor attaches to; the handshake ends as given.
    fn start_attach(handshake: Handshake) -> Harness {
        Harness::with(true, handshake)
    }

    fn with(attach: bool, handshake: Handshake) -> Harness {
        let (server, action) = DapServer::new(project(), 0, attach.then_some(DAP_PORT));
        let mut harness = Harness {
            server: Some(server),
            action,
            simnet: Simnet {
                count: 0,
                sender: DEPLOYER.to_string(),
                stacks: 1,
                burn: 1,
                log: Vec::new(),
            },
            handshake,
            waiting: VecDeque::new(),
            client: None,
            announced: Vec::new(),
            exit: None,
            next_id: 1,
        };
        harness.run();
        assert_eq!(harness.announced, vec![format!("CLARINET_DAP_SDK_READY:{SDK_PORT}")]);
        assert_eq!(harness.action, Action::AcceptClient);
        harness
    }

    fn connect(&mut self) {
        self.waiting.push_back(Connection::default());
        self.run();
    }

    /// Takes the action that the server asks for. There is no event while it waits
    /// for a client.
    fn act(&mut self) -> Option<Event> {
        let action = std::mem::replace(&mut self.action, Action::ReadLine);
        match action {
            Action::BindClients(port) => {
                assert_eq!(port, 0);
                Some(Event::Bound(SDK_PORT))
            }
            Action::BindEditor(port) => {
                assert_eq!(port, DAP_PORT);
                Some(Event::Done)
            }
            Action::Announce(line) => {
                self.announced.push(line);
                Some(Event::Done)
            }
            Action::AcceptClient => {
                self.client = self.waiting.pop_front();
                if self.client.is_none() {
                    self.action = Action::AcceptClient;
                    return None;
                }
                Some(Event::Accepted)
            }
            Action::JoinDebugger => Some(Event::Joined(self.handshake)),
            Action::UseNoOpDebugger => Some(Event::Done),
            Action::ReadLine => {
                let client = self.client.as_mut().expect("nobody to read from");
                match client.requests.pop_front() {
                    Some(line) => Some(Event::Line(line)),
                    None if client.closed => Some(Event::Closed),
                    None => None,
                }
            }
            Action::Run(script) => Some(Event::Evaluated(self.simnet.run(script))),
            Action::LookUpFunction { contract, function } => {
                Some(Event::Function(self.simnet.look_up(&contract, &function)))
            }
            Action::AdvanceChainTip => {
                self.simnet.stacks += 1;
                self.simnet.burn += 1;
                Some(Event::Done)
            }
            Action::ReadHeights => {
                Some(Event::Heights { stacks: self.simnet.stacks, burn: self.simnet.burn })
            }
            Action::ReadAssets => Some(Event::Assets(vec![(
                "STX".to_string(),
                vec![(DEPLOYER.to_string(), u128::MAX), (WALLET_1.to_string(), 0)],
            )])),
            Action::ResolveManifest { base, path } => Some(Event::Manifest(resolve(base, &path))),
            Action::Write(text) => {
                let client = self.client.as_mut().expect("nobody to write to");
                match client.readable {
                    Some(0) => Some(Event::WriteFailed),
                    left => {
                        client.readable = left.map(|n| n - 1);
                        client.replies.push_back(text);
                        Some(Event::Written)
                    }
                }
            }
            Action::Stop(problem) => {
                self.exit = Some(match problem {
                    Some(problem) => Err(problem),
                    None => Ok(()),
                });
                None
            }
        }
    }

    /// Runs the server until it waits or ends.
    fn run(&mut self) {
        while self.exit.is_none() {
            match self.act() {
                Some(event) => self.feed(event),
                None => break,
            }
        }
    }

    fn feed(&mut self, event: Event) {
        let server = self.server.take().expect("no server");
        assert!(server.expects(&event), "unexpected {event:?} in {:?}", server.phase);
        let sender = self.simnet.sender.clone();
        let (server, action) = server.step(event, &sender);
        self.server = Some(server);
        self.action = action;
    }

    fn send_raw(&mut self, line: &str) {
        self.client.as_mut().expect("not connected").requests.push_back(format!("{line}\n"));
        self.run();
    }

    fn read_reply(&mut self) -> String {
        let client = self.client.as_mut().expect("not connected");
        let reply = client.replies.pop_front().expect("the server did not reply");
        assert!(reply.ends_with('\n') && reply.matches('\n').count() == 1, "not a line: {reply}");
        reply.trim_end().to_string()
    }

    /// Sends a request with an `id` of its own, and reads the reply.
    fn request(&mut self, request: &str) -> Value {
        let id = self.next_id;
        self.next_id += 1;
        let mut request: Value = serde_json::from_str(request).expect("no JSON text");
        request["id"] = Value::from(id);
        self.send_raw(&serde_json::to_string(&request).unwrap());
        let reply: Value = serde_json::from_str(&self.read_reply()).expect("no JSON text");
        assert_eq!(reply["id"], id);
        reply
    }

    fn call(&mut self, contract: &str, function: &str, method: &str) -> Value {
        self.request(&format!(
            r#"{{"method":"{method}","contract":"{contract}","function":"{function}","args":[]}}"#
        ))
    }

    fn call_public(&mut self, contract: &str, function: &str) -> Value {
        self.call(contract, function, "callPublicFn")
    }

    fn call_read_only(&mut self, contract: &str, function: &str) -> Value {
        self.call(contract, function, "callReadOnlyFn")
    }

    fn mine_block(&mut self, txs: &str) -> Value {
        self.request(&format!(r#"{{"method":"mineBlock","txs":{txs}}}"#))
    }

    /// `(get-count)` as a hex-encoded Clarity `uint`.
    fn count(&mut self) -> String {
        let response = self.call_read_only("counter", "get-count");
        response["result"]["result"]
            .as_str()
            .unwrap_or_else(|| panic!("no result in {response}"))
            .to_string()
    }

    /// The snippets that were evaluated, with their senders.
    fn evaluated(&self) -> Vec<(String, String)> {
        self.simnet
            .log
            .iter()
            .filter_map(|(sender, op)| match op {
                SessionOp::Eval { snippet, .. } => Some((sender.clone(), snippet.clone())),
                SessionOp::CallPrivate { function, .. } => {
                    Some((sender.clone(), function.clone()))
                }
                _ => None,
            })
            .collect()
    }
}

#[test]
fn harness_starts_the_server_and_completes_a_round_trip() {
    let mut server = Harness::start();
    server.connect();

    let accounts = server.request(r#"{"method":"getAccounts"}"#);
    assert!(
        accounts["result"]["accounts"]["deployer"].is_string(),
        "expected a deployer account, got {accounts}"
    );

    let result = server.call_public("counter", "increment");
    // 0x07 = `ok`, 0x03 = `true`.
    assert_eq!(
        result["result"]["result"], "0x0703",
        "increment should return (ok true), got {result}"
    );
}

#[test]
fn a_contract_call_reports_the_events_it_emitted() {
    let mut server = Harness::start();
    server.connect();

    let response = server.call_public("counter", "increment");
    let events = response["result"]["events"]
        .as_str()
        .unwrap_or_else(|| panic!("no events field in {response}"));
    let events: Value = serde_json::from_str(events)
        .unwrap_or_else(|e| panic!("events was not a JSON array ({e}): {events}"));
    assert_eq!(
        events.as_array().map(Vec::len),
        Some(1),
        "expected the print event emitted by `increment`, got {events}"
    );
    assert_eq!(events[0]["type"], "print_event");
    assert_eq!(events[0]["value"], "{ event: \"increment\" }");
}

#[test]
fn call_read_only_fn_does_not_commit_state() {
    let mut server = Harness::start();
    server.connect();

    assert_eq!(server.count(), clarity_uint(0), "the fixture starts at u0");

    let response = server.call_read_only("counter", "increment");

    assert_eq!(
        server.count(),
        clarity_uint(0),
        "callReadOnlyFn committed the state change; the server answered {response}"
    );
    assert_eq!(response["error"], "increment is not a read-only function");
}

#[test]
fn mine_block_can_call_a_private_function() {
    let mut server = Harness::start();
    server.connect();

    let response = server.mine_block(
        r#"[{"type":"callPrivateFn","contract":"counter","function":"double","args":["u21"]}]"#,
    );

    let tx = &response["result"]["results"][0];
    assert_eq!(
        tx["result"].as_str(),
        Some(clarity_uint(42).as_str()),
        "`double` should have returned u42; the server answered {response}"
    );
}

#[test]
fn init_session_resolves_a_relative_manifest_against_the_client_cwd() {
    let mut server = Harness::start();
    server.connect();

    let response = server.request(&format!(
        r#"{{"method":"initSession","cwd":"{FIXTURE_DIR}","manifestPath":"./Clarinet.toml"}}"#
    ));
    assert!(
        response["error"].is_null(),
        "initSession rejected the manifest of the server: {response}"
    );
}

#[test]
fn a_client_that_disconnects_before_reading_does_not_kill_the_server() {
    let mut server = Harness::start();

    // Twenty requests are sent at once. The first reply still gets through, and then
    // the connection is gone.
    let mut abandoning = Connection { readable: Some(1), closed: true, ..Connection::default() };
    for id in 1..=20 {
        abandoning.requests.push_back(format!(r#"{{"id":{id},"method":"getAccounts"}}"#));
    }
    server.waiting.push_back(abandoning);
    server.run();

    if let Some(result) = &server.exit {
        panic!("the server exited when a client stopped reading: {result:?}");
    }

    server.connect();
    let response = server.request(r#"{"method":"getAccounts"}"#);
    assert!(
        response["result"]["accounts"]["deployer"].is_string(),
        "the server survived but stopped answering: {response}"
    );
}

#[test]
fn a_dap_client_disconnecting_mid_handshake_does_not_kill_the_server() {
    let mut server = Harness::start_attach(Handshake::Failed);
    server.run();

    if let Some(result) = &server.exit {
        panic!("the server exited when the DAP client disconnected: {result:?}");
    }

    server.connect();
    let response = server.request(r#"{"method":"getAccounts"}"#);
    assert!(
        response["result"]["accounts"]["deployer"].is_string(),
        "the server should have gone on without an editor: {response}"
    );
}

#[test]
fn accounts_are_listed_by_name() {
    let mut server = Harness::start();
    server.connect();
    server.send_raw(r#"{"id":1,"method":"getAccounts"}"#);
    assert_eq!(
        server.read_reply(),
        format!(
            r#"{{"id":1,"result":{{"accounts":{{"deployer":"{DEPLOYER}","wallet_1":"{WALLET_1}"}},"deployer":"{DEPLOYER}"}}}}"#
        )
    );
}

#[test]
fn heights_are_numbers_and_amounts_are_texts() {
    let mut server = Harness::start();
    server.connect();
    server.send_raw(r#"{"id":1,"method":"blockHeight"}"#);
    assert_eq!(server.read_reply(), r#"{"id":1,"result":{"burnHeight":1,"stacksHeight":1}}"#);
    let response = server.request(r#"{"method":"getAssetsMap"}"#);
    let stx = &response["result"]["assets"]["STX"];
    assert_eq!(stx[DEPLOYER], "340282366920938463463374607431768211455");
    assert_eq!(stx[WALLET_1], "0");
}

#[test]
fn a_snippet_is_answered_with_its_value() {
    let mut server = Harness::start();
    server.connect();
    server.send_raw(&format!(
        r#"{{"id":1,"method":"eval","snippet":"(contract-call? '{DEPLOYER}.counter get-count)"}}"#
    ));
    assert_eq!(
        server.read_reply(),
        format!(r#"{{"id":1,"result":{{"hex":"{}","value":"u0"}}}}"#, clarity_uint(0))
    );
    assert_eq!(
        server.simnet.log[0].1,
        SessionOp::Prepare {
            target: CallTarget::Transient,
            snippet: format!("(contract-call? '{DEPLOYER}.counter get-count)"),
        }
    );
}

#[test]
fn a_contract_without_a_value_counts_as_true() {
    let mut server = Harness::start();
    server.connect();
    server.send_raw(r#"{"id":1,"method":"eval","snippet":"(define-data-var x uint u0)"}"#);
    assert_eq!(server.read_reply(), r#"{"id":1,"result":{"hex":"0x03","value":""}}"#);
}

#[test]
fn a_snippet_that_fails_is_answered_with_its_messages() {
    let mut server = Harness::start();
    server.connect();
    let response = server.call("counter", "no-such-function", "call");
    assert_eq!(response["error"], "use of unresolved function; no-such-function)");
    assert!(response.get("result").is_none());
}

#[test]
fn a_call_names_its_contract_in_several_ways() {
    let full = format!("{DEPLOYER}.counter");
    for contract in ["counter", ".counter", "..counter", full.as_str()] {
        let mut server = Harness::start();
        server.connect();
        let response = server.call(contract, "get-count", "call");
        assert_eq!(response["result"]["value"], "u0", "{contract}: {response}");
    }
    let mut server = Harness::start();
    server.connect();
    let response = server.call("missing", "f", "call");
    assert_eq!(response["error"], "cannot evaluate (contract-call? .missing f)");
}

#[test]
fn a_call_is_made_as_the_sender_that_it_names() {
    let mut server = Harness::start();
    server.connect();
    server.request(&format!(
        r#"{{"method":"call","contract":"counter","function":"increment","sender":"{WALLET_1}","args":[]}}"#
    ));
    let snippet = format!("(contract-call? '{DEPLOYER}.counter increment)");
    assert_eq!(
        server.simnet.log,
        vec![
            (WALLET_1.to_string(), SessionOp::SetSender(WALLET_1.to_string())),
            (
                WALLET_1.to_string(),
                SessionOp::Prepare {
                    target: CallTarget::Deployed(ContractId {
                        issuer: DEPLOYER.to_string(),
                        name: "counter".to_string(),
                    }),
                    snippet: snippet.clone(),
                }
            ),
            (WALLET_1.to_string(), SessionOp::Eval { snippet, cost_track: false }),
            (DEPLOYER.to_string(), SessionOp::SetSender(DEPLOYER.to_string())),
        ]
    );
    assert_eq!(server.simnet.sender, DEPLOYER);
}

#[test]
fn arguments_that_are_no_texts_are_passed_over() {
    let mut server = Harness::start();
    server.connect();
    let response = server.request(
        r#"{"method":"call","contract":"c","function":"f","args":["u1",2,null,"u3"]}"#,
    );
    assert_eq!(response["error"], "cannot evaluate (contract-call? .c f u1 u3)");
}

#[test]
fn a_block_runs_in_order_and_reports_every_transaction() {
    let mut server = Harness::start();
    server.connect();
    let response = server.mine_block(&format!(
        r#"[{{"callPublicFn":{{"contract":"counter","method":"increment","args":[]}}}},
            {{"callPrivateFn":{{"contract":"counter","method":"double","args":["u4"],"sender":"{WALLET_1}"}}}},
            {{"transferSTX":{{"amount":7,"sender":"{WALLET_1}","recipient":"{DEPLOYER}"}}}},
            {{"type":"callPublicFn","contract":"counter","function":"get-count"}}]"#
    ));
    let result = &response["result"];
    assert_eq!(result["stacksHeight"], 2);
    assert_eq!(result["burnHeight"], 2);
    assert_eq!(result["txs"], result["results"]);
    let hex: Vec<&str> = result["txs"]
        .as_array()
        .unwrap()
        .iter()
        .map(|receipt| receipt["result"].as_str().unwrap())
        .collect();
    let one = clarity_uint(1);
    let eight = clarity_uint(8);
    assert_eq!(hex, vec!["0x0703", eight.as_str(), "0x0703", one.as_str()]);
    assert_eq!(result["txs"][1]["events"], "[]");
    assert_eq!(
        server.evaluated(),
        vec![
            (DEPLOYER.to_string(), format!("(contract-call? '{DEPLOYER}.counter increment)")),
            (WALLET_1.to_string(), "double".to_string()),
            (WALLET_1.to_string(), format!("(stx-transfer? u7 '{WALLET_1} '{DEPLOYER})")),
            (DEPLOYER.to_string(), format!("(contract-call? '{DEPLOYER}.counter get-count)")),
        ]
    );
    assert_eq!(server.simnet.sender, DEPLOYER);
}

#[test]
fn an_empty_block_advances_the_chain() {
    let mut server = Harness::start();
    server.connect();
    server.send_raw(r#"{"id":1,"method":"mineBlock"}"#);
    assert_eq!(
        server.read_reply(),
        r#"{"id":1,"result":{"burnHeight":2,"results":[],"stacksHeight":2,"txs":[]}}"#
    );
}

#[test]
fn a_block_ends_at_the_first_failure() {
    let mut server = Harness::start();
    server.connect();
    let response = server.mine_block(
        r#"[{"callPublicFn":{"contract":"counter","method":"increment"}},
            {"callPublicFn":{"contract":"counter","method":"missing"}},
            {"callPublicFn":{"contract":"counter","method":"increment"}}]"#,
    );
    assert_eq!(response["error"], "use of unresolved function; missing)");
    assert!(response.get("result").is_none());
    assert_eq!(server.simnet.count, 1);
    assert_eq!(server.simnet.stacks, 2);
}

#[test]
fn a_block_ends_at_a_rejected_transaction() {
    let cases = [
        (r#"{"deployContract":{}}"#, "deployContract is not supported in debug mode"),
        (r#"{"type":"deployContract"}"#, "deployContract is not supported in debug mode"),
        (r#"{"somethingElse":{}}"#, "unknown tx type in mineBlock"),
        ("17", "unknown tx type in mineBlock"),
        (
            r#"{"transferSTX":{"recipient":"R","sender":"S"}}"#,
            "transferSTX: missing or invalid amount",
        ),
        (
            r#"{"transferSTX":{"amount":-1,"recipient":"R","sender":"S"}}"#,
            "transferSTX: missing or invalid amount",
        ),
        (
            r#"{"transferSTX":{"amount":1.5,"recipient":"R","sender":"S"}}"#,
            "transferSTX: missing or invalid amount",
        ),
        (r#"{"transferSTX":{"amount":1,"sender":"S"}}"#, "transferSTX: missing recipient"),
        (r#"{"type":"transferSTX","amount":1,"recipient":"R"}"#, "transferSTX: missing sender"),
    ];
    for (tx, message) in cases {
        let mut server = Harness::start();
        server.connect();
        let response = server.mine_block(&format!(
            r#"[{tx},{{"callPublicFn":{{"contract":"counter","method":"increment"}}}}]"#
        ));
        assert_eq!(response["error"], message, "{tx}");
        assert_eq!(server.simnet.count, 0, "{tx}");
    }
}

#[test]
fn a_session_is_granted_on_the_own_manifest_alone() {
    let mut server = Harness::start();
    server.connect();
    server.send_raw(&format!(
        r#"{{"id":1,"method":"initSession","manifestPath":"{FIXTURE_MANIFEST}"}}"#
    ));
    assert_eq!(server.read_reply(), r#"{"id":1,"result":null}"#);
    for (cwd, path) in [
        ("/projects/other", "./Clarinet.toml"),
        ("/projects", "./Clarinet.toml"),
        (FIXTURE_DIR, "Other.toml"),
    ] {
        let response = server.request(&format!(
            r#"{{"method":"initSession","cwd":"{cwd}","manifestPath":"{path}"}}"#
        ));
        assert_eq!(
            response["error"],
            format!("initSession: not the manifest of this server: {path}")
        );
    }
}

#[test]
fn an_unknown_method_is_named() {
    let mut server = Harness::start();
    server.connect();
    server.send_raw(r#"{"id":"a","method":"fly"}"#);
    assert_eq!(server.read_reply(), r#"{"error":"unknown method: fly","id":"a"}"#);
    server.send_raw(r#"{"method":7}"#);
    assert_eq!(server.read_reply(), r#"{"error":"unknown method: ","id":null}"#);
    server.send_raw("[1,2]");
    assert_eq!(server.read_reply(), r#"{"error":"unknown method: ","id":null}"#);
}

#[test]
fn an_id_comes_back_as_it_was() {
    let mut server = Harness::start();
    server.connect();
    for id in ["null", "true", "18446744073709551615", "-3", "1.5", r#""x\ny""#, r#"{"a":[1]}"#] {
        server.send_raw(&format!(r#"{{"id":{id},"method":"blockHeight"}}"#));
        let reply = server.read_reply();
        let reply: Value = serde_json::from_str(&reply).unwrap();
        assert_eq!(reply["id"], serde_json::from_str::<Value>(id).unwrap());
    }
}

#[test]
fn the_last_of_two_fields_of_one_name_counts() {
    let mut server = Harness::start();
    server.connect();
    server.send_raw(r#"{"id":1,"method":"fly","id":2,"method":"blockHeight"}"#);
    assert_eq!(server.read_reply(), r#"{"id":2,"result":{"burnHeight":1,"stacksHeight":1}}"#);
}

#[test]
fn noise_is_passed_over() {
    let mut server = Harness::start();
    server.connect();
    for line in ["", "  \t ", "{", "not json", "{\"id\":1} trailing"] {
        server.send_raw(line);
    }
    assert!(server.client.as_ref().unwrap().replies.is_empty());
    server.send_raw("\u{a0} {\"id\":1,\"method\":\"blockHeight\"} \r");
    assert_eq!(server.read_reply(), r#"{"id":1,"result":{"burnHeight":1,"stacksHeight":1}}"#);
}

#[test]
fn a_client_ends_the_server_by_disconnecting() {
    let mut server = Harness::start();
    server.connect();
    server.send_raw(r#"{"id":9,"method":"disconnect"}"#);
    assert_eq!(server.read_reply(), r#"{"id":9,"result":null}"#);
    assert_eq!(server.exit, Some(Ok(())));

    let mut server = Harness::start();
    server.connect();
    server.client.as_mut().unwrap().readable = Some(0);
    server.send_raw(r#"{"id":9,"method":"disconnect"}"#);
    assert_eq!(server.exit, Some(Ok(())));
}

#[test]
fn a_client_that_closes_is_followed_by_the_next() {
    let mut server = Harness::start();
    server.connect();
    server.call_public("counter", "increment");
    server.client.as_mut().unwrap().closed = true;
    server.run();
    assert_eq!(server.action, Action::AcceptClient);
    server.connect();
    assert_eq!(server.count(), clarity_uint(1));
}

#[test]
fn the_server_ends_where_it_cannot_accept() {
    let mut server = Harness::start();
    server.feed(Event::AcceptFailed("too many files".to_string()));
    server.run();
    assert_eq!(server.exit, Some(Err("SDK accept error: too many files".to_string())));
}

#[test]
fn the_server_ends_where_the_handshake_panicked() {
    let mut server = Harness::start_attach(Handshake::Panicked);
    server.connect();
    assert_eq!(server.exit, Some(Err("DAP handshake thread panicked".to_string())));
}

#[test]
fn an_attached_editor_is_waited_for_once() {
    let mut server = Harness::start_attach(Handshake::Attached);
    server.feed(Event::Accepted);
    assert_eq!(server.action, Action::JoinDebugger);
    server.feed(Event::Joined(Handshake::Attached));
    assert_eq!(server.action, Action::ReadLine);
    server.feed(Event::Closed);
    server.feed(Event::Accepted);
    assert_eq!(server.action, Action::ReadLine);
}

#[test]
fn nothing_is_read_before_the_handshake_is_over() {
    let mut server = Harness::start_attach(Handshake::Attached);
    let mut eager = Connection::default();
    eager.requests.push_back(r#"{"id":1,"method":"blockHeight"}"#.to_string());
    server.waiting.push_back(eager);
    let event = server.act().unwrap();
    assert_eq!(event, Event::Accepted);
    server.feed(event);
    assert_eq!(server.action, Action::JoinDebugger);
    assert_eq!(server.client.as_ref().unwrap().requests.len(), 1);
    server.run();
    assert_eq!(server.read_reply(), r#"{"id":1,"result":{"burnHeight":1,"stacksHeight":1}}"#);
}

#[test]
fn the_server_is_announced_once_both_ports_are_bound() {
    let (server, action) = DapServer::new(project(), 7, Some(8));
    assert_eq!(action, Action::BindClients(7));
    let (server, action) = server.step(Event::Bound(9), "S");
    assert_eq!(action, Action::BindEditor(8));
    let (server, action) = server.step(Event::Done, "S");
    assert_eq!(action, Action::Announce("CLARINET_DAP_SDK_READY:9".to_string()));
    let (_, action) = server.step(Event::Done, "S");
    assert_eq!(action, Action::AcceptClient);

    let (server, _) = DapServer::new(project(), 7, None);
    let (_, action) = server.step(Event::Bound(7), "S");
    assert_eq!(action, Action::Announce("CLARINET_DAP_SDK_READY:7".to_string()));
}

#[test]
fn the_server_ends_where_it_cannot_listen() {
    let stopped = |problem: &str| Action::Stop(Some(problem.to_string()));
    let (server, _) = DapServer::new(project(), 7, Some(8));
    let (_, action) = server.step(Event::BindFailed("in use".to_string()), "S");
    assert_eq!(action, stopped("failed to bind SDK port 7: in use"));
    let (server, _) = DapServer::new(project(), 7, Some(8));
    let (_, action) = server.step(Event::AddressFailed("gone".to_string()), "S");
    assert_eq!(action, stopped("failed to read SDK listener address: gone"));
    let (server, _) = DapServer::new(project(), 7, Some(8));
    let (server, _) = server.step(Event::Bound(7), "S");
    let (_, action) = server.step(Event::BindFailed("in use".to_string()), "S");
    assert_eq!(action, stopped("failed to bind DAP port 8: in use"));
}

#[test]
fn only_events_that_fit_are_expected() {
    let (server, action) = DapServer::new(project(), 7, None);
    assert_eq!(action, Action::BindClients(7));
    assert!(server.expects(&Event::Bound(7)));
    assert!(!server.expects(&Event::Accepted));
    assert!(!server.expects(&Event::Written));
    assert!(!server.expects(&Event::Line(String::new())));
}

#[test]
fn a_start_is_announced() {
    assert_eq!(ready_line(0), "CLARINET_DAP_SDK_READY:0");
    assert_eq!(ready_line(65535), "CLARINET_DAP_SDK_READY:65535");
}

#[test]
fn a_launched_session_ends_with_its_result() {
    assert_eq!(run_dap(Launch::Evaluated { interpreted: true }), Ok(()));
    assert_eq!(
        run_dap(Launch::Evaluated { interpreted: false }),
        Err("unable to interpret expression".to_string())
    );
    assert_eq!(
        run_dap(Launch::InitFailed("no editor".to_string())),
        Err("dap_init: no editor".to_string())
    );
    assert_eq!(
        run_dap(Launch::LoadFailed("no manifest".to_string())),
        Err("no manifest".to_string())
    );
}
