//! Replaying a transaction of the network in a session that starts from the block
//! before it.

use crate::contracts::{
    call_snippet, law_call_names_its_function, lemma_between, spaced, write_call,
};
use crate::json::{json_text, json_view, write_json, Json};
use crate::simnet::{
    evaluated_at, evaluates, ops, sender_after, tracks_cost, ContractDeployment,
    ContractDeploymentView, Epoch, EvaluationResult, ExecutionCost, ExecutionResult,
    LanguageVersion, Outcome, SessionOp, SessionOpView,
};
use crate::text::{
    around_last, ascii_lower, contains_text, decimal, digits_value, is_digits, join, joined,
    law_decimal_has_no_leading_zero, law_decimal_injective, law_decimal_value,
    law_occurring_is_standing_between, law_parse_decimal, law_u64_is_read_from_digits, lowercase,
    occurs, parse_u64, same_text, split_last, texts, to_decimal, to_lowercase, u64_value,
};
use vstd::prelude::*;

verus! {

/// The address of an API server.
#[derive(Debug, PartialEq)]
pub struct ApiUrl(pub String);

/// The call of a transaction.
#[derive(Debug, PartialEq)]
pub struct ContractCallDetails {
    pub contract_id: String,
    pub function_name: String,
    /// The arguments, as Clarity expressions.
    pub function_args: Vec<String>,
}

/// The deployment of a transaction.
#[derive(Debug, PartialEq)]
pub struct SmartContractDetails {
    pub contract_id: String,
    pub source_code: String,
}

/// The transfer of a transaction.
#[derive(Debug, PartialEq)]
pub struct TokenTransferDetails {
    pub recipient_address: String,
    pub amount: String,
}

/// A transaction as the API describes it.
#[derive(Debug, PartialEq)]
pub struct TransactionDetails {
    pub tx_id: String,
    pub tx_type: String,
    pub sender_address: String,
    /// The block that it stands in; a pending transaction has none.
    pub block_height: Option<u32>,
    pub contract_call: Option<ContractCallDetails>,
    pub smart_contract: Option<SmartContractDetails>,
    pub token_transfer: Option<TokenTransferDetails>,
}

/// Where a session gets the state of the network from.
#[derive(Debug, PartialEq)]
pub struct RemoteDataSettings {
    pub enabled: bool,
    pub api_url: ApiUrl,
    pub initial_height: Option<u32>,
    pub use_mainnet_wallets: bool,
}

/// What a replayed transaction came to.
#[derive(Debug, PartialEq)]
pub struct ReplayResult {
    pub txid: String,
    pub tx_type: String,
    /// The height that the session started from.
    pub session_height: u32,
    pub sender: String,
    /// The Clarity snippet that was executed.
    pub snippet: String,
    pub execution: ExecutionResult,
}

/// Whether an address, in lower case, is one of the main network: it names no test
/// network.
pub open spec fn names_mainnet(lower: Seq<char>) -> bool {
    !occurs("testnet"@, lower) && !occurs("krypton"@, lower)
}

/// Whether an address that was put in lower case is one of the main network.
pub fn is_mainnet_name(lower: &str) -> (mainnet: bool)
    ensures
        mainnet == names_mainnet(lower@),
{
    !contains_text(lower, "testnet") && !contains_text(lower, "krypton")
}

/// Whether an API server serves the main network.
pub fn is_mainnet_url(api_url: &ApiUrl) -> (mainnet: bool)
    ensures
        mainnet == names_mainnet(lowercase(api_url.0@)),
        (forall|i: int| 0 <= i < api_url.0@.len() ==> #[trigger] api_url.0@[i] <= '\u{7f}')
            ==> mainnet == names_mainnet(api_url.0@.map_values(|c: char| ascii_lower(c))),
{
    let lower = to_lowercase(api_url.0.as_str());
    is_mainnet_name(lower.as_str())
}

/// The height that a replay starts from: the one that was asked for, or else the one
/// before the block of the transaction. A pending transaction has none.
pub open spec fn start_height(block_height: Option<u32>, asked: Option<u32>) -> Option<u32> {
    match asked {
        Some(height) => Some(height),
        None => match block_height {
            Some(height) => Some(
                if height == 0 {
                    0
                } else {
                    (height - 1) as u32
                },
            ),
            None => None,
        },
    }
}

/// Finds the height that a replay starts from.
pub fn session_height(tx: &TransactionDetails, asked: Option<u32>) -> (height: Result<u32, String>)
    ensures
        match height {
            Ok(height) => start_height(tx.block_height, asked) == Some(height),
            Err(message) => start_height(tx.block_height, asked) is None && message@
                == "transaction "@ + tx.tx_id@ + " has no block_height — is it still pending?"@,
        },
{
    match asked {
        Some(height) => Ok(height),
        None => match tx.block_height {
            Some(height) => Ok(
                if height == 0 {
                    0
                } else {
                    height - 1
                },
            ),
            None => {
                let mut message = "transaction ".to_owned();
                message.append(tx.tx_id.as_str());
                message.append(" has no block_height — is it still pending?");
                Err(message)
            },
        },
    }
}

/// The settings of the session that a transaction is replayed in.
pub fn session_settings(api_url: ApiUrl, height: u32) -> (settings: RemoteDataSettings)
    ensures
        settings.enabled,
        settings.api_url == api_url,
        settings.initial_height == Some(height),
        settings.use_mainnet_wallets == names_mainnet(lowercase(api_url.0@)),
{
    let use_mainnet_wallets = is_mainnet_url(&api_url);
    RemoteDataSettings {
        enabled: true,
        api_url,
        initial_height: Some(height),
        use_mainnet_wallets,
    }
}

/// How a transaction is replayed.
#[derive(Debug, PartialEq)]
pub enum ReplayPlan {
    /// By evaluating a snippet as the sender of the transaction.
    Evaluate { snippet: String, cost_track: bool },
    /// By deploying a contract; `snippet` stands for that.
    Deploy { deployment: ContractDeployment, cost_track: bool, snippet: String },
}

pub enum ReplayPlanView {
    Evaluate { snippet: Seq<char>, cost_track: bool },
    Deploy { deployment: ContractDeploymentView, cost_track: bool, snippet: Seq<char> },
}

impl View for ReplayPlan {
    type V = ReplayPlanView;

    open spec fn view(&self) -> ReplayPlanView {
        match self {
            ReplayPlan::Evaluate { snippet, cost_track } => ReplayPlanView::Evaluate {
                snippet: snippet@,
                cost_track: *cost_track,
            },
            ReplayPlan::Deploy { deployment, cost_track, snippet } => ReplayPlanView::Deploy {
                deployment: deployment@,
                cost_track: *cost_track,
                snippet: snippet@,
            },
        }
    }
}

impl ReplayPlanView {
    /// The snippet that stands for the transaction.
    pub open spec fn snippet(self) -> Seq<char> {
        match self {
            ReplayPlanView::Evaluate { snippet, .. } => snippet,
            ReplayPlanView::Deploy { snippet, .. } => snippet,
        }
    }
}

/// The plan for a call.
pub open spec fn call_plan(call: Option<ContractCallDetails>) -> Result<ReplayPlanView, Seq<char>> {
    match call {
        Some(call) => Ok(
            ReplayPlanView::Evaluate {
                snippet: call_snippet(
                    "'"@ + call.contract_id@,
                    call.function_name@,
                    texts(call.function_args@),
                ),
                cost_track: true,
            },
        ),
        None => Err("missing contract_call field on transaction"@),
    }
}

/// The plan for a deployment. The name of the contract stands behind the last dot of
/// its identifier; it is analysed and deployed in the epoch that the session is in, in
/// the default version of the language.
pub open spec fn deploy_plan(contract: Option<SmartContractDetails>) -> Result<
    ReplayPlanView,
    Seq<char>,
> {
    match contract {
        Some(contract) => match around_last(contract.contract_id@, '.') {
            Some((deployer, name)) => Ok(
                ReplayPlanView::Deploy {
                    deployment: ContractDeploymentView {
                        deployer,
                        name,
                        source: contract.source_code@,
                        epoch: Epoch::Current,
                        clarity_version: LanguageVersion::DefaultOfEpoch,
                        skip_analysis: false,
                    },
                    cost_track: true,
                    snippet: "(deploy '"@ + deployer + "."@ + name + ")"@,
                },
            ),
            None => Err("invalid contract_id: "@ + contract.contract_id@),
        },
        None => Err("missing smart_contract field on transaction"@),
    }
}

/// The plan for a transfer.
pub open spec fn transfer_plan(transfer: Option<TokenTransferDetails>) -> Result<
    ReplayPlanView,
    Seq<char>,
> {
    match transfer {
        Some(transfer) => match u64_value(transfer.amount@) {
            Some(amount) => Ok(
                ReplayPlanView::Evaluate {
                    snippet: "(stx-transfer? u"@ + decimal(amount as nat) + " tx-sender '"@
                        + transfer.recipient_address@ + ")"@,
                    cost_track: true,
                },
            ),
            None => Err("invalid token_transfer amount: "@ + transfer.amount@),
        },
        None => Err("missing token_transfer field on transaction"@),
    }
}

/// The plan for a transaction, by its type.
pub open spec fn plan_of(tx: TransactionDetails) -> Result<ReplayPlanView, Seq<char>> {
    if tx.tx_type@ == "contract_call"@ {
        call_plan(tx.contract_call)
    } else if tx.tx_type@ == "smart_contract"@ {
        deploy_plan(tx.smart_contract)
    } else if tx.tx_type@ == "token_transfer"@ {
        transfer_plan(tx.token_transfer)
    } else {
        Err(
            "unsupported transaction type '"@ + tx.tx_type@
                + "' — only contract_call, smart_contract, and token_transfer are supported"@,
        )
    }
}

/// The view of a plan, or of the reason why there is none.
pub open spec fn plan_view(plan: Result<ReplayPlan, String>) -> Result<ReplayPlanView, Seq<char>> {
    match plan {
        Ok(plan) => Ok(plan@),
        Err(message) => Err(message@),
    }
}

/// Plans a call.
fn plan_call(call: &Option<ContractCallDetails>) -> (plan: Result<ReplayPlan, String>)
    ensures
        plan_view(plan) == call_plan(*call),
{
    match call {
        Some(call) => {
            let mut contract = "'".to_owned();
            contract.append(call.contract_id.as_str());
            let snippet = write_call(
                contract.as_str(),
                call.function_name.as_str(),
                &call.function_args,
            );
            Ok(ReplayPlan::Evaluate { snippet, cost_track: true })
        },
        None => Err("missing contract_call field on transaction".to_owned()),
    }
}

/// Plans a deployment.
fn plan_deploy(contract: &Option<SmartContractDetails>) -> (plan: Result<ReplayPlan, String>)
    ensures
        plan_view(plan) == deploy_plan(*contract),
{
    match contract {
        Some(contract) => match split_last(contract.contract_id.as_str(), '.') {
            Some((deployer, name)) => {
                let mut snippet = "(deploy '".to_owned();
                snippet.append(deployer.as_str());
                snippet.append(".");
                snippet.append(name.as_str());
                snippet.append(")");
                let deployment = ContractDeployment {
                    deployer,
                    name,
                    source: contract.source_code.clone(),
                    epoch: Epoch::Current,
                    clarity_version: LanguageVersion::DefaultOfEpoch,
                    skip_analysis: false,
                };
                Ok(ReplayPlan::Deploy { deployment, cost_track: true, snippet })
            },
            None => {
                let mut message = "invalid contract_id: ".to_owned();
                message.append(contract.contract_id.as_str());
                Err(message)
            },
        },
        None => Err("missing smart_contract field on transaction".to_owned()),
    }
}

/// Plans a transfer.
fn plan_transfer(transfer: &Option<TokenTransferDetails>) -> (plan: Result<ReplayPlan, String>)
    ensures
        plan_view(plan) == transfer_plan(*transfer),
{
    match transfer {
        Some(transfer) => match parse_u64(transfer.amount.as_str()) {
            Some(amount) => {
                let mut snippet = "(stx-transfer? u".to_owned();
                snippet.append(to_decimal(amount as u128).as_str());
                snippet.append(" tx-sender '");
                snippet.append(transfer.recipient_address.as_str());
                snippet.append(")");
                Ok(ReplayPlan::Evaluate { snippet, cost_track: true })
            },
            None => {
                let mut message = "invalid token_transfer amount: ".to_owned();
                message.append(transfer.amount.as_str());
                Err(message)
            },
        },
        None => Err("missing token_transfer field on transaction".to_owned()),
    }
}

/// Plans the replay of a transaction.
pub fn execute_tx(tx: &TransactionDetails) -> (plan: Result<ReplayPlan, String>)
    ensures
        plan_view(plan) == plan_of(*tx),
{
    if same_text(tx.tx_type.as_str(), "contract_call") {
        plan_call(&tx.contract_call)
    } else if same_text(tx.tx_type.as_str(), "smart_contract") {
        plan_deploy(&tx.smart_contract)
    } else if same_text(tx.tx_type.as_str(), "token_transfer") {
        plan_transfer(&tx.token_transfer)
    } else {
        let mut message = "unsupported transaction type '".to_owned();
        message.append(tx.tx_type.as_str());
        message.append(
            "' — only contract_call, smart_contract, and token_transfer are supported",
        );
        Err(message)
    }
}

/// A replay that is ready to run.
#[derive(Debug, PartialEq)]
pub struct Replay {
    /// The settings of the session that it runs in.
    pub settings: RemoteDataSettings,
    pub session_height: u32,
    pub plan: ReplayPlan,
}

/// Prepares the replay of a transaction. `block_height_override` forces a height to
/// start from.
pub fn replay_transaction(
    api_url: ApiUrl,
    tx: &TransactionDetails,
    block_height_override: Option<u32>,
) -> (replay: Result<Replay, String>)
    ensures
        match start_height(tx.block_height, block_height_override) {
            Some(height) => match replay {
                Ok(replay) => {
                    &&& plan_of(*tx) == Ok::<ReplayPlanView, Seq<char>>(replay.plan@)
                    &&& replay.session_height == height
                    &&& replay.settings.enabled
                    &&& replay.settings.api_url == api_url
                    &&& replay.settings.initial_height == Some(height)
                    &&& replay.settings.use_mainnet_wallets == names_mainnet(
                        lowercase(api_url.0@),
                    )
                },
                Err(message) => plan_of(*tx) == Err::<ReplayPlanView, Seq<char>>(message@),
            },
            None => replay matches Err(message) && message@ == "transaction "@ + tx.tx_id@
                + " has no block_height — is it still pending?"@,
        },
{
    match session_height(tx, block_height_override) {
        Ok(height) => {
            let settings = session_settings(api_url, height);
            match execute_tx(tx) {
                Ok(plan) => Ok(Replay { settings, session_height: height, plan }),
                Err(message) => Err(message),
            }
        },
        Err(message) => Err(message),
    }
}

/// What is run on the session before the outcome is known. A deployment is made by the
/// deployer that the plan names, whoever the sender is.
pub open spec fn opening(plan: ReplayPlanView, sender: Seq<char>) -> Seq<SessionOpView> {
    match plan {
        ReplayPlanView::Evaluate { snippet, cost_track } => seq![
            SessionOpView::SetSender(sender),
            SessionOpView::Eval { snippet, cost_track },
        ],
        ReplayPlanView::Deploy { deployment, cost_track, .. } => seq![
            SessionOpView::Deploy { deployment, cost_track },
        ],
    }
}

/// What is run on the session once the outcome is known: after an evaluation that
/// succeeded it gets back the sender that it had.
pub open spec fn closing(plan: ReplayPlanView, outcome: Outcome, original: Seq<char>) -> Seq<
    SessionOpView,
> {
    if plan is Evaluate && outcome is Ok {
        seq![SessionOpView::SetSender(original)]
    } else {
        Seq::empty()
    }
}

/// Plans what is run on the session before the outcome is known.
pub fn open_replay(plan: &ReplayPlan, sender: &str) -> (script: Vec<SessionOp>)
    ensures
        ops(script@) == opening(plan@, sender@),
{
    let mut script: Vec<SessionOp> = Vec::new();
    match plan {
        ReplayPlan::Evaluate { snippet, cost_track } => {
            script.push(SessionOp::SetSender(sender.to_owned()));
            script.push(
                SessionOp::Eval { snippet: snippet.clone(), cost_track: *cost_track },
            );
        },
        ReplayPlan::Deploy { deployment, cost_track, snippet: _ } => {
            script.push(
                SessionOp::Deploy { deployment: deployment.copy(), cost_track: *cost_track },
            );
        },
    }
    assert(ops(script@) =~= opening(plan@, sender@));
    script
}

/// Plans what is run on the session once the outcome is known.
pub fn close_replay(plan: &ReplayPlan, outcome: &Outcome, original: &str) -> (script: Vec<
    SessionOp,
>)
    ensures
        ops(script@) == closing(plan@, *outcome, original@),
{
    let mut script: Vec<SessionOp> = Vec::new();
    match (plan, outcome) {
        (ReplayPlan::Evaluate { snippet: _, cost_track: _ }, Ok(_)) => {
            script.push(SessionOp::SetSender(original.to_owned()));
        },
        _ => {},
    }
    assert(ops(script@) =~= closing(plan@, *outcome, original@));
    script
}

/// The result of a replay, or the messages of the diagnostics that stopped it.
pub fn replay_result(
    tx: TransactionDetails,
    session_height: u32,
    plan: ReplayPlan,
    outcome: Outcome,
) -> (result: Result<ReplayResult, String>)
    ensures
        match result {
            Ok(replay) => {
                &&& outcome == Ok::<ExecutionResult, Vec<String>>(replay.execution)
                &&& replay.txid == tx.tx_id
                &&& replay.tx_type == tx.tx_type
                &&& replay.session_height == session_height
                &&& replay.sender == tx.sender_address
                &&& replay.snippet@ == plan@.snippet()
            },
            Err(message) => outcome matches Err(messages) && message@ == joined(
                texts(messages@),
                "; "@,
            ),
        },
{
    let snippet = match plan {
        ReplayPlan::Evaluate { snippet, cost_track: _ } => snippet,
        ReplayPlan::Deploy { deployment: _, cost_track: _, snippet } => snippet,
    };
    match outcome {
        Ok(execution) => Ok(
            ReplayResult {
                txid: tx.tx_id,
                tx_type: tx.tx_type,
                session_height,
                sender: tx.sender_address,
                snippet,
                execution,
            },
        ),
        Err(messages) => Err(join(&messages, "; ")),
    }
}

/// The line on the result of an execution.
pub open spec fn result_line(result: EvaluationResult) -> Seq<char> {
    match result {
        EvaluationResult::Snippet(value) => "Result: "@ + value.display@ + "\n"@,
        EvaluationResult::Contract { identifier, .. } => "Result: contract '"@ + identifier@
            + "' deployed\n"@,
    }
}

/// One line for each event.
pub open spec fn event_lines(events: Seq<Json>) -> Seq<char>
    decreases events.len(),
{
    if events.len() == 0 {
        Seq::empty()
    } else {
        event_lines(events.drop_last()) + "  - "@ + json_text(json_view(events.last())) + "\n"@
    }
}

/// The lines on the events of an execution, where there are any.
pub open spec fn event_section(events: Seq<Json>) -> Seq<char> {
    if events.len() == 0 {
        Seq::empty()
    } else {
        "\nEvents:\n"@ + event_lines(events)
    }
}

/// One line on the cost of an execution.
pub open spec fn cost_line(label: Seq<char>, amount: u64) -> Seq<char> {
    label + decimal(amount as nat) + "\n"@
}

/// The lines on the cost of an execution, where it is known.
pub open spec fn cost_section(cost: Option<ExecutionCost>) -> Seq<char> {
    match cost {
        Some(cost) => "\nExecution costs:\n"@ + cost_line("  runtime:      "@, cost.runtime)
            + cost_line("  read_count:   "@, cost.read_count) + cost_line(
            "  read_length:  "@,
            cost.read_length,
        ) + cost_line("  write_count:  "@, cost.write_count) + cost_line(
            "  write_length: "@,
            cost.write_length,
        ),
        None => Seq::empty(),
    }
}

/// Writes one line on the cost of an execution.
fn write_cost_line(label: &str, amount: u64) -> (line: String)
    ensures
        line@ == cost_line(label@, amount),
{
    let mut line = label.to_owned();
    line.append(to_decimal(amount as u128).as_str());
    line.append("\n");
    line
}

/// Writes the line on the result of an execution.
fn write_result(result: &EvaluationResult) -> (line: String)
    ensures
        line@ == result_line(*result),
{
    match result {
        EvaluationResult::Snippet(value) => {
            let mut line = "Result: ".to_owned();
            line.append(value.display.as_str());
            line.append("\n");
            line
        },
        EvaluationResult::Contract { identifier, value: _ } => {
            let mut line = "Result: contract '".to_owned();
            line.append(identifier.as_str());
            line.append("' deployed\n");
            line
        },
    }
}

/// Writes the lines on the events of an execution.
fn write_events(events: &Vec<Json>) -> (section: String)
    ensures
        section@ == event_section(events@),
{
    if events.len() == 0 {
        return String::new();
    }
    let mut lines = String::new();
    for i in 0..events.len()
        invariant
            lines@ == event_lines(events@.take(i as int)),
    {
        assert(events@.take(i + 1).drop_last() =~= events@.take(i as int));
        lines.append("  - ");
        lines.append(write_json(&events[i]).as_str());
        lines.append("\n");
    }
    assert(events@.take(events.len() as int) =~= events@);
    let mut section = "\nEvents:\n".to_owned();
    section.append(lines.as_str());
    section
}

/// Writes the lines on the cost of an execution.
fn write_cost(cost: &Option<ExecutionCost>) -> (section: String)
    ensures
        section@ == cost_section(*cost),
{
    match cost {
        Some(cost) => {
            let mut section = "\nExecution costs:\n".to_owned();
            section.append(write_cost_line("  runtime:      ", cost.runtime).as_str());
            section.append(write_cost_line("  read_count:   ", cost.read_count).as_str());
            section.append(write_cost_line("  read_length:  ", cost.read_length).as_str());
            section.append(write_cost_line("  write_count:  ", cost.write_count).as_str());
            section.append(write_cost_line("  write_length: ", cost.write_length).as_str());
            section
        },
        None => String::new(),
    }
}

/// Formats an execution for people.
pub fn format_execution_result(result: &ExecutionResult) -> (out: String)
    ensures
        out@ == result_line(result.result) + event_section(result.events@) + cost_section(
            result.cost,
        ),
{
    let mut out = write_result(&result.result);
    out.append(write_events(&result.events).as_str());
    out.append(write_cost(&result.cost).as_str());
    out
}

/// A replay that succeeds leaves the session with the sender that it had, and the
/// transaction is evaluated as its own sender.
pub proof fn law_replay_restores_the_sender(
    plan: ReplayPlanView,
    outcome: Outcome,
    sender: Seq<char>,
    original: Seq<char>,
)
    requires
        outcome is Ok,
    ensures
        sender_after(opening(plan, sender) + closing(plan, outcome, original), original)
            == original,
        plan is Evaluate ==> sender_after(opening(plan, sender).take(1), original) == sender,
{
    let script = opening(plan, sender) + closing(plan, outcome, original);
    if plan is Evaluate {
        assert(script.last() == SessionOpView::SetSender(original));
        assert(opening(plan, sender).take(1).last() == SessionOpView::SetSender(sender));
    } else {
        reveal_with_fuel(sender_after, 2);
    }
}

/// A transaction that is replayed runs Clarity code exactly once, and its cost is
/// tracked: a call or a transfer by its snippet, as the sender of the transaction, and a
/// deployment as the session stands. What closes the replay runs none.
pub proof fn law_replay_runs_once_and_tracks_its_cost(
    tx: TransactionDetails,
    outcome: Outcome,
    original: Seq<char>,
)
    requires
        plan_of(tx) is Ok,
    ensures
        ({
            let plan = plan_of(tx)->Ok_0;
            let sender = tx.sender_address@;
            let at = opening(plan, sender).len() - 1;
            let who = if plan is Evaluate {
                sender
            } else {
                original
            };
            &&& evaluated_at(opening(plan, sender), at, original, who)
            &&& tracks_cost(opening(plan, sender)[at])
            &&& plan is Evaluate ==> opening(plan, sender)[at] == (SessionOpView::Eval {
                snippet: plan.snippet(),
                cost_track: true,
            })
            &&& forall|i: int|
                0 <= i < closing(plan, outcome, original).len() ==> !evaluates(
                    #[trigger] closing(plan, outcome, original)[i],
                )
        }),
{
    let plan = plan_of(tx)->Ok_0;
    let script = opening(plan, tx.sender_address@);
    if plan is Evaluate {
        assert(script.take(1).last() == SessionOpView::SetSender(tx.sender_address@));
    } else {
        assert(script.take(0).len() == 0);
    }
}

/// A replay starts from the state just before the block of its transaction, unless
/// another height was asked for.
pub proof fn law_replay_starts_before_the_block(block_height: u32, asked: Option<u32>)
    ensures
        asked is Some ==> start_height(Some(block_height), asked) == asked,
        asked is None && block_height > 0 ==> start_height(Some(block_height), asked) == Some(
            (block_height - 1) as u32,
        ),
{
}

/// A deployment is planned for the deployer and the name that its identifier joins by
/// a dot; the name has none.
pub proof fn law_deployment_splits_the_identifier(contract: SmartContractDetails)
    ensures
        deploy_plan(Some(contract)) is Ok <==> contract.contract_id@.contains('.'),
        deploy_plan(Some(contract)) matches Ok(ReplayPlanView::Deploy { deployment, .. })
            ==> contract.contract_id@ == deployment.deployer + seq!['.'] + deployment.name
            && !deployment.name.contains('.'),
{
    crate::text::law_parts_around_last(contract.contract_id@, '.');
}

/// The types of transactions differ in length or in their first letter.
proof fn lemma_type_names()
    ensures
        "contract_call"@.len() == 13,
        "smart_contract"@.len() == 14 && "smart_contract"@[0] == 's',
        "token_transfer"@.len() == 14 && "token_transfer"@[0] == 't',
{
    reveal_strlit("contract_call");
    reveal_strlit("smart_contract");
    reveal_strlit("token_transfer");
}

/// A transfer is planned as the evaluation of a snippet that transfers the amount of the
/// transaction, in digits that read as that amount, from the sender to the recipient.
pub proof fn law_transfer_is_planned_with_its_amount(
    tx: TransactionDetails,
    transfer: TokenTransferDetails,
    amount: u64,
)
    requires
        tx.tx_type@ == "token_transfer"@,
        tx.token_transfer == Some(transfer),
        transfer.amount@ == decimal(amount as nat) || transfer.amount@ == seq!['+'] + decimal(
            amount as nat,
        ),
    ensures
        plan_of(tx) matches Ok(ReplayPlanView::Evaluate { snippet, cost_track }) && cost_track
            && exists|digits: Seq<char>|
            {
                &&& is_digits(digits)
                &&& digits_value(digits) == amount
                &&& digits.len() == 1 || digits[0] != '0'
                &&& snippet == "(stx-transfer? u"@ + #[trigger] (digits + " tx-sender '"@)
                    + transfer.recipient_address@ + ")"@
            },
{
    lemma_type_names();
    let digits = decimal(amount as nat);
    law_decimal_value(amount as nat);
    law_decimal_has_no_leading_zero(amount as nat);
    law_parse_decimal(amount);
    law_u64_is_read_from_digits(digits);
    reveal_strlit("0");
    assert("(stx-transfer? u"@ + (digits + " tx-sender '"@) =~= "(stx-transfer? u"@ + digits
        + " tx-sender '"@);
}

/// An amount that is no `u64` is refused, and named; a `u64` is not.
pub proof fn law_amounts_are_read_or_refused(
    tx: TransactionDetails,
    transfer: TokenTransferDetails,
)
    requires
        tx.tx_type@ == "token_transfer"@,
        tx.token_transfer == Some(transfer),
    ensures
        u64_value(transfer.amount@) is Some <==> plan_of(tx) is Ok,
        u64_value(transfer.amount@) is None ==> plan_of(tx) == Err::<ReplayPlanView, Seq<char>>(
            "invalid token_transfer amount: "@ + transfer.amount@,
        ),
{
    lemma_type_names();
}

/// Transfers to one recipient that are planned alike move the same amount.
pub proof fn law_planned_transfers_differ_by_their_amounts(
    a: TransactionDetails,
    b: TransactionDetails,
    first: TokenTransferDetails,
    second: TokenTransferDetails,
)
    requires
        a.tx_type@ == "token_transfer"@,
        b.tx_type@ == "token_transfer"@,
        a.token_transfer == Some(first),
        b.token_transfer == Some(second),
        first.recipient_address@ == second.recipient_address@,
        plan_of(a) is Ok,
        plan_of(a) == plan_of(b),
    ensures
        u64_value(first.amount@) is Some,
        u64_value(first.amount@) == u64_value(second.amount@),
{
    lemma_type_names();
    let m = u64_value(first.amount@)->0;
    let n = u64_value(second.amount@)->0;
    let head = "(stx-transfer? u"@;
    let tail = " tx-sender '"@ + first.recipient_address@ + ")"@;
    let snippet = plan_of(a)->Ok_0.snippet();
    assert(snippet =~= head + decimal(m as nat) + tail);
    assert(plan_of(b)->Ok_0.snippet() =~= head + decimal(n as nat) + tail);
    lemma_between(head, decimal(m as nat), decimal(n as nat), tail);
    law_decimal_injective(m as nat, n as nat);
}

/// A call is planned as the evaluation of the snippet that calls the function of the
/// contract of the transaction, each by its full name, with all of its arguments.
pub proof fn law_call_is_planned_as_it_was_made(tx: TransactionDetails, call: ContractCallDetails)
    requires
        tx.tx_type@ == "contract_call"@,
        tx.contract_call == Some(call),
        forall|i: int|
            0 <= i < call.function_args@.len() ==> (#[trigger] call.function_args@[i])@.len() > 0,
    ensures
        plan_of(tx) == Ok::<ReplayPlanView, Seq<char>>(
            ReplayPlanView::Evaluate {
                snippet: "(contract-call? '"@ + call.contract_id@ + " "@ + call.function_name@
                    + spaced(call.function_args@.map_values(|arg: String| arg@)) + ")"@,
                cost_track: true,
            },
        ),
{
    lemma_type_names();
    let args = call.function_args@.map_values(|arg: String| arg@);
    assert(args =~= texts(call.function_args@));
    assert forall|i: int| 0 <= i < args.len() implies (#[trigger] args[i]).len() > 0 by {
        assert(call.function_args@[i]@.len() > 0);
    }
    law_call_names_its_function("'"@ + call.contract_id@, call.function_name@, args);
    reveal_strlit("(contract-call? ");
    reveal_strlit("'");
    reveal_strlit("(contract-call? '");
    assert("(contract-call? "@ + ("'"@ + call.contract_id@) =~= "(contract-call? '"@
        + call.contract_id@);
}

/// A deployment is planned for the source of the transaction, under its identifier: it
/// is analysed, in the epoch of the session and its default version of the language, and
/// its cost is tracked.
pub proof fn law_deployment_is_planned_as_it_was_made(
    tx: TransactionDetails,
    contract: SmartContractDetails,
    deployer: Seq<char>,
    name: Seq<char>,
)
    requires
        tx.tx_type@ == "smart_contract"@,
        tx.smart_contract == Some(contract),
        contract.contract_id@ == deployer + "."@ + name,
        !name.contains('.'),
    ensures
        plan_of(tx) == Ok::<ReplayPlanView, Seq<char>>(
            ReplayPlanView::Deploy {
                deployment: ContractDeploymentView {
                    deployer,
                    name,
                    source: contract.source_code@,
                    epoch: Epoch::Current,
                    clarity_version: LanguageVersion::DefaultOfEpoch,
                    skip_analysis: false,
                },
                cost_track: true,
                snippet: "(deploy '"@ + contract.contract_id@ + ")"@,
            },
        ),
{
    lemma_type_names();
    reveal_strlit(".");
    let whole = contract.contract_id@;
    assert(whole =~= deployer + seq!['.'] + name);
    lemma_around_last(deployer, name, '.');
    assert("(deploy '"@ + deployer + "."@ + name + ")"@ =~= "(deploy '"@ + whole + ")"@);
}

proof fn lemma_around_last(before: Seq<char>, after: Seq<char>, c: char)
    requires
        !after.contains(c),
    ensures
        around_last(before + seq![c] + after, c) == Some((before, after)),
    decreases after.len(),
{
    let whole = before + seq![c] + after;
    if after.len() == 0 {
        assert(whole.drop_last() =~= before);
        assert(after =~= Seq::empty());
    } else {
        assert(after.contains(after.last()));
        assert(whole.drop_last() =~= before + seq![c] + after.drop_last());
        assert(!after.drop_last().contains(c)) by {
            if after.drop_last().contains(c) {
                let i = choose|i: int|
                    0 <= i < after.drop_last().len() && after.drop_last()[i] == c;
                assert(after[i] == c);
            }
        }
        lemma_around_last(before, after.drop_last(), c);
        assert(after.drop_last().push(after.last()) =~= after);
    }
}

/// A transaction that lacks what its type asks for, or whose type is none of the three,
/// is refused, and it is said why.
pub proof fn law_other_transactions_are_refused(tx: TransactionDetails)
    ensures
        tx.tx_type@ == "contract_call"@ && tx.contract_call is None ==> plan_of(tx)
            == Err::<ReplayPlanView, Seq<char>>("missing contract_call field on transaction"@),
        tx.tx_type@ == "smart_contract"@ && tx.smart_contract is None ==> plan_of(tx)
            == Err::<ReplayPlanView, Seq<char>>("missing smart_contract field on transaction"@),
        tx.tx_type@ == "token_transfer"@ && tx.token_transfer is None ==> plan_of(tx)
            == Err::<ReplayPlanView, Seq<char>>("missing token_transfer field on transaction"@),
        tx.tx_type@ == "smart_contract"@ && tx.smart_contract is Some
            && !(tx.smart_contract->0).contract_id@.contains('.') ==> plan_of(tx)
            == Err::<ReplayPlanView, Seq<char>>(
            "invalid contract_id: "@ + (tx.smart_contract->0).contract_id@,
        ),
        tx.tx_type@ != "contract_call"@ && tx.tx_type@ != "smart_contract"@ && tx.tx_type@
            != "token_transfer"@ ==> plan_of(tx) == Err::<ReplayPlanView, Seq<char>>(
            "unsupported transaction type '"@ + tx.tx_type@
                + "' — only contract_call, smart_contract, and token_transfer are supported"@,
        ),
{
    lemma_type_names();
    if let Some(contract) = tx.smart_contract {
        crate::text::law_parts_around_last(contract.contract_id@, '.');
    }
}

/// A call, a transfer and a deployment are each run by one operation: the first two as
/// the sender of the transaction, who is then no longer the sender where they succeed.
pub proof fn law_replay_runs_what_was_planned(
    plan: ReplayPlanView,
    outcome: Outcome,
    sender: Seq<char>,
    original: Seq<char>,
)
    ensures
        (match plan {
            ReplayPlanView::Evaluate { snippet, cost_track } => {
                &&& opening(plan, sender) == seq![
                    SessionOpView::SetSender(sender),
                    SessionOpView::Eval { snippet, cost_track },
                ]
                &&& outcome is Ok ==> closing(plan, outcome, original) == seq![
                    SessionOpView::SetSender(original),
                ]
                &&& outcome is Err ==> closing(plan, outcome, original).len() == 0
                &&& plan.snippet() == snippet
            },
            ReplayPlanView::Deploy { deployment, cost_track, snippet } => {
                &&& opening(plan, sender) == seq![SessionOpView::Deploy { deployment, cost_track }]
                &&& closing(plan, outcome, original).len() == 0
                &&& plan.snippet() == snippet
            },
        }),
{
}

/// A replay has a height to start from unless its transaction is pending and none was
/// asked for; the first block is replayed from itself.
pub proof fn law_only_pending_transactions_have_no_height(
    block_height: Option<u32>,
    asked: Option<u32>,
)
    ensures
        start_height(block_height, asked) is None <==> block_height is None && asked is None,
        asked is Some ==> start_height(block_height, asked) == asked,
        start_height(Some(0), None) == Some(0u32),
        asked is None && block_height is Some && block_height->0 > 0 ==> start_height(
            block_height,
            asked,
        )->0 + 1 == block_height->0,
{
}

/// An address is one of a test network exactly where it has the name of one in it,
/// wherever that stands.
pub proof fn law_test_networks_are_told_by_name(lower: Seq<char>, before: Seq<char>, after: Seq<char>)
    ensures
        !names_mainnet(before + "testnet"@ + after),
        !names_mainnet(before + "krypton"@ + after),
        !names_mainnet(lower) ==> exists|a: Seq<char>, b: Seq<char>|
            lower == #[trigger] (a + "testnet"@ + b) || lower == a + "krypton"@ + b,
{
    law_occurring_is_standing_between("testnet"@, lower, before, after);
    law_occurring_is_standing_between("krypton"@, lower, before, after);
    if !names_mainnet(lower) && !occurs("testnet"@, lower) {
        let (a, b) = choose|a: Seq<char>, b: Seq<char>| lower == #[trigger] (a + "krypton"@ + b);
        let unused = a + "testnet"@ + b;
        assert(lower == a + "krypton"@ + b);
    }
}

/// The result of an execution is printed on a line of its own.
pub proof fn law_result_is_printed(result: EvaluationResult)
    ensures
        result matches EvaluationResult::Snippet(value) ==> result_line(result) == "Result: "@
            + value.display@ + "\n"@,
        result is Contract ==> result_line(result) == "Result: contract '"@ + result->identifier@
            + "' deployed\n"@,
{
}

/// Every event is printed on a line of its own, in order, below one heading; without
/// events there is no heading.
pub proof fn law_each_event_is_printed(events: Seq<Json>, event: Json)
    ensures
        event_section(Seq::empty()).len() == 0,
        event_section(seq![event]) == "\nEvents:\n"@ + "  - "@ + json_text(event@) + "\n"@,
        events.len() > 0 ==> event_section(events.push(event)) == event_section(events) + "  - "@
            + json_text(event@) + "\n"@,
{
    assert(events.push(event).drop_last() =~= events);
    assert(seq![event].drop_last() =~= Seq::empty());
    reveal_with_fuel(event_lines, 2);
    assert(event_section(seq![event]) =~= "\nEvents:\n"@ + "  - "@ + json_text(event@) + "\n"@);
    assert("\nEvents:\n"@ + (event_lines(events) + "  - "@ + json_text(event@) + "\n"@)
        =~= "\nEvents:\n"@ + event_lines(events) + "  - "@ + json_text(event@) + "\n"@);
}

/// A known cost is printed number by number below one heading; an unknown one is not.
pub proof fn law_cost_is_printed(cost: ExecutionCost)
    ensures
        cost_section(None).len() == 0,
        cost_section(Some(cost)) == "\nExecution costs:\n"@ + "  runtime:      "@ + decimal(
            cost.runtime as nat,
        ) + "\n"@ + "  read_count:   "@ + decimal(cost.read_count as nat) + "\n"@
            + "  read_length:  "@ + decimal(cost.read_length as nat) + "\n"@ + "  write_count:  "@
            + decimal(cost.write_count as nat) + "\n"@ + "  write_length: "@ + decimal(
            cost.write_length as nat,
        ) + "\n"@,
{
    let head = "\nExecution costs:\n"@;
    let a = cost_line("  runtime:      "@, cost.runtime);
    let b = cost_line("  read_count:   "@, cost.read_count);
    let c = cost_line("  read_length:  "@, cost.read_length);
    let d = cost_line("  write_count:  "@, cost.write_count);
    lemma_add_line(head, "  runtime:      "@, cost.runtime);
    lemma_add_line(head + a, "  read_count:   "@, cost.read_count);
    lemma_add_line(head + a + b, "  read_length:  "@, cost.read_length);
    lemma_add_line(head + a + b + c, "  write_count:  "@, cost.write_count);
    lemma_add_line(head + a + b + c + d, "  write_length: "@, cost.write_length);
}

proof fn lemma_add_line(before: Seq<char>, label: Seq<char>, amount: u64)
    ensures
        before + cost_line(label, amount) == before + label + decimal(amount as nat) + "\n"@,
{
    assert(before + (label + decimal(amount as nat) + "\n"@) =~= before + label + decimal(
        amount as nat,
    ) + "\n"@);
}

/// A plan stands for what its texts say.
pub proof fn law_plans_are_taken_as_they_are(plan: ReplayPlan)
    ensures
        (match plan {
            ReplayPlan::Evaluate { snippet, cost_track } => plan@ == (ReplayPlanView::Evaluate {
                snippet: snippet@,
                cost_track,
            }),
            ReplayPlan::Deploy { deployment, cost_track, snippet } => plan@ == (
            ReplayPlanView::Deploy { deployment: deployment@, cost_track, snippet: snippet@ }),
        }),
        plan_view(Ok(plan)) == Ok::<ReplayPlanView, Seq<char>>(plan@),
        forall|message: String| #[trigger]
            plan_view(Err(message)) == Err::<ReplayPlanView, Seq<char>>(message@),
{
}

/// A prepared replay is that of its transaction: it starts at the height that was asked
/// for, or just before the block, in a session on the server that was named, with the
/// wallets of its network.
pub proof fn law_prepared_replay_is_that_of_its_transaction(
    api_url: ApiUrl,
    tx: TransactionDetails,
    asked: Option<u32>,
    replay: Result<Replay, String>,
)
    requires
        call_ensures(replay_transaction, (api_url, &tx, asked), replay),
    ensures
        replay matches Ok(prepared) ==> {
            &&& plan_of(tx) == Ok::<ReplayPlanView, Seq<char>>(prepared.plan@)
            &&& asked is Some ==> prepared.session_height == asked->0
            &&& asked is None ==> tx.block_height is Some
            &&& asked is None && tx.block_height->0 > 0 ==> prepared.session_height + 1
                == tx.block_height->0
            &&& asked is None && tx.block_height->0 == 0 ==> prepared.session_height == 0
            &&& prepared.settings.enabled
            &&& prepared.settings.api_url == api_url
            &&& prepared.settings.initial_height == Some(prepared.session_height)
            &&& prepared.settings.use_mainnet_wallets <==> !occurs(
                "testnet"@,
                lowercase(api_url.0@),
            ) && !occurs("krypton"@, lowercase(api_url.0@))
        },
        replay is Ok <==> (asked is Some || tx.block_height is Some) && plan_of(tx) is Ok,
        asked is None && tx.block_height is None ==> replay is Err && replay->Err_0@
            == "transaction "@ + tx.tx_id@ + " has no block_height — is it still pending?"@,
        (asked is Some || tx.block_height is Some) && plan_of(tx) is Err ==> replay is Err
            && replay->Err_0@ == plan_of(tx)->Err_0,
{
}

/// Each part of a replay gives what was asked of it: the height, the settings, the plan
/// and the scripts around the outcome.
pub proof fn law_parts_of_a_replay(
    tx: TransactionDetails,
    asked: Option<u32>,
    height: Result<u32, String>,
    plan: Result<ReplayPlan, String>,
    planned: ReplayPlan,
    outcome: Outcome,
    sender: &str,
    opened: Vec<SessionOp>,
    closed: Vec<SessionOp>,
)
    requires
        call_ensures(session_height, (&tx, asked), height),
        call_ensures(execute_tx, (&tx,), plan),
        call_ensures(open_replay, (&planned, sender), opened),
        call_ensures(close_replay, (&planned, &outcome, sender), closed),
    ensures
        height matches Ok(from) ==> Some(from) == start_height(tx.block_height, asked),
        height is Ok <==> asked is Some || tx.block_height is Some,
        plan is Ok <==> plan_of(tx) is Ok,
        plan is Ok ==> plan->Ok_0@ == plan_of(tx)->Ok_0,
        plan is Err ==> plan->Err_0@ == plan_of(tx)->Err_0,
        planned matches ReplayPlan::Evaluate { snippet, cost_track } ==> {
            &&& opened@.len() == 2
            &&& opened@[0]@ == SessionOpView::SetSender(sender@)
            &&& opened@[1]@ == (SessionOpView::Eval { snippet: snippet@, cost_track })
            &&& outcome is Ok ==> closed@.len() == 1 && closed@[0]@ == SessionOpView::SetSender(
                sender@,
            )
            &&& outcome is Err ==> closed@.len() == 0
        },
        planned matches ReplayPlan::Deploy { deployment, cost_track, .. } ==> {
            &&& opened@.len() == 1
            &&& opened@[0]@ == (SessionOpView::Deploy { deployment: deployment@, cost_track })
            &&& closed@.len() == 0
        },
{
    assert(ops(opened@).len() == opened@.len());
    assert(ops(closed@).len() == closed@.len());
    assert(opened@.len() > 0 ==> ops(opened@)[0] == opened@[0]@);
    assert(opened@.len() > 1 ==> ops(opened@)[1] == opened@[1]@);
    assert(closed@.len() > 0 ==> ops(closed@)[0] == closed@[0]@);
}

/// The result of a replay is that of its transaction and its execution; a failed one is
/// reported with the messages of all diagnostics.
pub proof fn law_result_of_a_replay(
    tx: TransactionDetails,
    height: u32,
    plan: ReplayPlan,
    outcome: Outcome,
    result: Result<ReplayResult, String>,
)
    requires
        call_ensures(replay_result, (tx, height, plan, outcome), result),
    ensures
        result is Ok <==> outcome is Ok,
        result matches Ok(replayed) ==> {
            &&& replayed.txid@ == tx.tx_id@
            &&& replayed.tx_type@ == tx.tx_type@
            &&& replayed.session_height == height
            &&& replayed.sender@ == tx.sender_address@
            &&& replayed.execution == outcome->Ok_0
            &&& plan matches ReplayPlan::Evaluate { snippet, .. } ==> replayed.snippet@ == snippet@
            &&& plan matches ReplayPlan::Deploy { snippet, .. } ==> replayed.snippet@ == snippet@
        },
        result is Err ==> result->Err_0@ == joined(texts((outcome->Err_0)@), "; "@),
{
}

/// What is printed of an execution is its result, then its events and then its cost.
pub proof fn law_printed_execution(execution: ExecutionResult, out: String)
    requires
        call_ensures(format_execution_result, (&execution,), out),
    ensures
        out@ == result_line(execution.result) + event_section(execution.events@) + cost_section(
            execution.cost,
        ),
{
}

/// An address in ASCII is one of the main network exactly where it has the name of no
/// test network in it, in whatever case.
pub proof fn law_network_is_told_in_any_case(api_url: ApiUrl, mainnet: bool)
    requires
        call_ensures(is_mainnet_url, (&api_url,), mainnet),
        forall|i: int| 0 <= i < api_url.0@.len() ==> #[trigger] api_url.0@[i] <= '\u{7f}',
    ensures
        ({
            let lower = api_url.0@.map_values(|c: char| ascii_lower(c));
            mainnet <==> !occurs("testnet"@, lower) && !occurs("krypton"@, lower)
        }),
{
}

} // verus!
