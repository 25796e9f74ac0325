//! The simulated network as the tools see it: what an evaluation came to, and the
//! operations that they ask of a session.

use crate::contracts::{
    call_snippet, call_target, ids, local_snippet, reference, resolve, target, transfer_snippet,
    write_call, write_local_call, write_transfer, CallTarget, CallTargetView, ContractCall,
    ContractCallView, ContractId, ContractIdView,
};
use crate::json::Json;
use crate::lint::ast::ClarityVersion;
use crate::text::texts;
use vstd::prelude::*;

verus! {

/// A Clarity value, in the forms that the tools print.
#[derive(Debug, PartialEq)]
pub struct ClarityValue {
    /// As the interpreter displays it.
    pub display: String,
    /// As the console prints it.
    pub text: String,
    /// Its consensus serialization, in hexadecimal.
    pub hex: String,
}

/// What was evaluated.
#[derive(Debug, PartialEq)]
pub enum EvaluationResult {
    /// A contract was deployed. Its last expression may have had a value.
    Contract { identifier: String, value: Option<ClarityValue> },
    Snippet(ClarityValue),
}

/// What an execution cost.
#[derive(Debug, PartialEq)]
pub struct ExecutionCost {
    pub runtime: u64,
    pub read_count: u64,
    pub read_length: u64,
    pub write_count: u64,
    pub write_length: u64,
}

/// What an execution came to.
#[derive(Debug, PartialEq)]
pub struct ExecutionResult {
    pub result: EvaluationResult,
    /// The events that it emitted, in order.
    pub events: Vec<Json>,
    pub cost: Option<ExecutionCost>,
}

/// An execution, or the messages of the diagnostics that stopped it.
pub type Outcome = Result<ExecutionResult, Vec<String>>;

/// How a function may be called.
#[derive(Debug, PartialEq, Eq, Structural, Clone, Copy)]
pub enum FunctionAccess {
    Public,
    ReadOnly,
    Private,
}

/// An epoch of the network.
#[derive(Debug, PartialEq, Eq, Structural, Clone, Copy)]
pub enum Epoch {
    /// The one that the session is in.
    Current,
    /// The newest that there is.
    Latest,
}

/// The version of the language that a contract is deployed in.
#[derive(Debug, PartialEq, Eq, Structural, Clone, Copy)]
pub enum LanguageVersion {
    /// The default of the epoch that it is deployed in.
    DefaultOfEpoch,
    Exactly(ClarityVersion),
}

/// A contract that is to be deployed.
#[derive(Debug, PartialEq)]
pub struct ContractDeployment {
    /// The address that deploys it.
    pub deployer: String,
    pub name: String,
    pub source: String,
    pub epoch: Epoch,
    pub clarity_version: LanguageVersion,
    /// Whether it is deployed without being analysed.
    pub skip_analysis: bool,
}

pub struct ContractDeploymentView {
    pub deployer: Seq<char>,
    pub name: Seq<char>,
    pub source: Seq<char>,
    pub epoch: Epoch,
    pub clarity_version: LanguageVersion,
    pub skip_analysis: bool,
}

impl View for ContractDeployment {
    type V = ContractDeploymentView;

    open spec fn view(&self) -> ContractDeploymentView {
        ContractDeploymentView {
            deployer: self.deployer@,
            name: self.name@,
            source: self.source@,
            epoch: self.epoch,
            clarity_version: self.clarity_version,
            skip_analysis: self.skip_analysis,
        }
    }
}

impl ContractDeployment {
    /// A second description of the same deployment.
    pub fn copy(&self) -> (deployment: ContractDeployment)
        ensures
            deployment@ == self@,
    {
        ContractDeployment {
            deployer: self.deployer.clone(),
            name: self.name.clone(),
            source: self.source.clone(),
            epoch: self.epoch,
            clarity_version: self.clarity_version,
            skip_analysis: self.skip_analysis,
        }
    }
}

/// One operation on a session. What runs Clarity code says whether its cost is tracked.
#[derive(Debug, PartialEq)]
pub enum SessionOp {
    /// Makes `0` the sender of what follows.
    SetSender(String),
    /// Readies the debugger for the evaluation of a snippet.
    Prepare { target: CallTarget, snippet: String },
    /// Evaluates a snippet.
    Eval { snippet: String, cost_track: bool },
    /// Calls a private function of a contract.
    CallPrivate { contract: String, function: String, args: Vec<String>, cost_track: bool },
    /// Deploys a contract.
    Deploy { deployment: ContractDeployment, cost_track: bool },
}

pub enum SessionOpView {
    SetSender(Seq<char>),
    Prepare { target: CallTargetView, snippet: Seq<char> },
    Eval { snippet: Seq<char>, cost_track: bool },
    CallPrivate {
        contract: Seq<char>,
        function: Seq<char>,
        args: Seq<Seq<char>>,
        cost_track: bool,
    },
    Deploy { deployment: ContractDeploymentView, cost_track: bool },
}

impl View for SessionOp {
    type V = SessionOpView;

    open spec fn view(&self) -> SessionOpView {
        match self {
            SessionOp::SetSender(sender) => SessionOpView::SetSender(sender@),
            SessionOp::Prepare { target, snippet } => SessionOpView::Prepare {
                target: target@,
                snippet: snippet@,
            },
            SessionOp::Eval { snippet, cost_track } => SessionOpView::Eval {
                snippet: snippet@,
                cost_track: *cost_track,
            },
            SessionOp::CallPrivate { contract, function, args, cost_track } =>
                SessionOpView::CallPrivate {
                contract: contract@,
                function: function@,
                args: texts(args@),
                cost_track: *cost_track,
            },
            SessionOp::Deploy { deployment, cost_track } => SessionOpView::Deploy {
                deployment: deployment@,
                cost_track: *cost_track,
            },
        }
    }
}

/// The views of a list of operations.
pub open spec fn ops(list: Seq<SessionOp>) -> Seq<SessionOpView> {
    list.map_values(|op: SessionOp| op@)
}

/// The script that evaluates a snippet as the current sender.
pub open spec fn eval_script(snippet: Seq<char>) -> Seq<SessionOpView> {
    seq![
        SessionOpView::Prepare { target: CallTargetView::Transient, snippet },
        SessionOpView::Eval { snippet, cost_track: false },
    ]
}

/// `body` as `sender`, where one is given, and then again as `current`.
pub open spec fn as_sender(
    sender: Option<Seq<char>>,
    current: Seq<char>,
    body: Seq<SessionOpView>,
) -> Seq<SessionOpView> {
    match sender {
        Some(sender) => seq![SessionOpView::SetSender(sender)] + body + seq![
            SessionOpView::SetSender(current),
        ],
        None => body,
    }
}

/// The script that calls a function through `contract-call?`.
pub open spec fn call_script(
    call: ContractCallView,
    contracts: Seq<ContractIdView>,
    current: Seq<char>,
) -> Seq<SessionOpView> {
    let snippet = call_snippet(reference(call.contract, contracts), call.function, call.args);
    as_sender(
        call.sender,
        current,
        seq![
            SessionOpView::Prepare { target: target(call.contract, contracts), snippet },
            SessionOpView::Eval { snippet, cost_track: false },
        ],
    )
}

/// The script that calls a private function, which `contract-call?` does not reach.
pub open spec fn private_script(
    call: ContractCallView,
    contracts: Seq<ContractIdView>,
    current: Seq<char>,
) -> Seq<SessionOpView> {
    as_sender(
        call.sender,
        current,
        seq![
            SessionOpView::Prepare {
                target: target(call.contract, contracts),
                snippet: local_snippet(call.function, call.args),
            },
            SessionOpView::CallPrivate {
                contract: reference(call.contract, contracts),
                function: call.function,
                args: call.args,
                cost_track: false,
            },
        ],
    )
}

/// The script that transfers STX as the account that pays.
pub open spec fn transfer_script(
    amount: u64,
    sender: Seq<char>,
    recipient: Seq<char>,
    current: Seq<char>,
) -> Seq<SessionOpView> {
    as_sender(
        Some(sender),
        current,
        seq![
            SessionOpView::Eval {
                snippet: transfer_snippet(amount, sender, recipient),
                cost_track: false,
            },
        ],
    )
}

/// Plans the evaluation of a snippet.
pub fn plan_eval(snippet: &str) -> (script: Vec<SessionOp>)
    ensures
        ops(script@) == eval_script(snippet@),
{
    let mut script: Vec<SessionOp> = Vec::new();
    script.push(
        SessionOp::Prepare { target: CallTarget::Transient, snippet: snippet.to_owned() },
    );
    script.push(SessionOp::Eval { snippet: snippet.to_owned(), cost_track: false });
    assert(ops(script@) =~= eval_script(snippet@));
    script
}

/// Plans a call through `contract-call?`.
pub fn plan_call(call: &ContractCall, contracts: &Vec<ContractId>, current: &str) -> (script: Vec<
    SessionOp,
>)
    ensures
        ops(script@) == call_script(call@, ids(contracts@), current@),
{
    let contract = resolve(call.contract.as_str(), contracts);
    let snippet = write_call(contract.as_str(), call.function.as_str(), &call.args);
    let mut script: Vec<SessionOp> = Vec::new();
    if let Some(sender) = &call.sender {
        script.push(SessionOp::SetSender(sender.clone()));
    }
    script.push(
        SessionOp::Prepare {
            target: call_target(call.contract.as_str(), contracts),
            snippet: snippet.clone(),
        },
    );
    script.push(SessionOp::Eval { snippet, cost_track: false });
    if call.sender.is_some() {
        script.push(SessionOp::SetSender(current.to_owned()));
    }
    assert(ops(script@) =~= call_script(call@, ids(contracts@), current@));
    script
}

/// A second list of the same texts.
fn copy_texts(list: &Vec<String>) -> (copy: Vec<String>)
    ensures
        texts(copy@) == texts(list@),
{
    let mut copy: Vec<String> = Vec::new();
    for i in 0..list.len()
        invariant
            texts(copy@) == texts(list@).take(i as int),
    {
        let ghost before = copy@;
        copy.push(list[i].clone());
        assert(texts(copy@) =~= texts(before).push(list@[i as int]@));
    }
    assert(texts(list@).take(list.len() as int) =~= texts(list@));
    copy
}

/// Plans a call to a private function.
pub fn plan_private_call(
    call: &ContractCall,
    contracts: &Vec<ContractId>,
    current: &str,
) -> (script: Vec<SessionOp>)
    ensures
        ops(script@) == private_script(call@, ids(contracts@), current@),
{
    let mut script: Vec<SessionOp> = Vec::new();
    if let Some(sender) = &call.sender {
        script.push(SessionOp::SetSender(sender.clone()));
    }
    script.push(
        SessionOp::Prepare {
            target: call_target(call.contract.as_str(), contracts),
            snippet: write_local_call(call.function.as_str(), &call.args),
        },
    );
    script.push(
        SessionOp::CallPrivate {
            contract: resolve(call.contract.as_str(), contracts),
            function: call.function.clone(),
            args: copy_texts(&call.args),
            cost_track: false,
        },
    );
    if call.sender.is_some() {
        script.push(SessionOp::SetSender(current.to_owned()));
    }
    assert(ops(script@) =~= private_script(call@, ids(contracts@), current@));
    script
}

/// Plans a transfer of STX.
pub fn plan_transfer(amount: u64, sender: &str, recipient: &str, current: &str) -> (script: Vec<
    SessionOp,
>)
    ensures
        ops(script@) == transfer_script(amount, sender@, recipient@, current@),
{
    let mut script: Vec<SessionOp> = Vec::new();
    script.push(SessionOp::SetSender(sender.to_owned()));
    script.push(
        SessionOp::Eval { snippet: write_transfer(amount, sender, recipient), cost_track: false },
    );
    script.push(SessionOp::SetSender(current.to_owned()));
    assert(ops(script@) =~= transfer_script(amount, sender@, recipient@, current@));
    script
}

/// The sender of a session after a script, run on a session with the sender `before`.
pub open spec fn sender_after(script: Seq<SessionOpView>, before: Seq<char>) -> Seq<char>
    decreases script.len(),
{
    if script.len() == 0 {
        before
    } else {
        match script.last() {
            SessionOpView::SetSender(sender) => sender,
            _ => sender_after(script.drop_last(), before),
        }
    }
}

/// Whether an operation runs Clarity code.
pub open spec fn evaluates(op: SessionOpView) -> bool {
    op is Eval || op is CallPrivate || op is Deploy
}

/// Whether an operation runs Clarity code and tracks its cost.
pub open spec fn tracks_cost(op: SessionOpView) -> bool {
    match op {
        SessionOpView::Eval { cost_track, .. } => cost_track,
        SessionOpView::CallPrivate { cost_track, .. } => cost_track,
        SessionOpView::Deploy { cost_track, .. } => cost_track,
        _ => false,
    }
}

/// Whether the operation at `at` is the only one of the script that runs Clarity
/// code, and is run as `who`.
pub open spec fn evaluated_at(
    script: Seq<SessionOpView>,
    at: int,
    current: Seq<char>,
    who: Seq<char>,
) -> bool {
    &&& 0 <= at < script.len()
    &&& evaluates(script[at])
    &&& sender_after(script.take(at), current) == who
    &&& forall|i: int| 0 <= i < script.len() && evaluates(#[trigger] script[i]) ==> i == at
}

/// Whether a script evaluates Clarity code exactly once, as `who`.
pub open spec fn evaluates_once_as(
    script: Seq<SessionOpView>,
    current: Seq<char>,
    who: Seq<char>,
) -> bool {
    exists|at: int| #[trigger] evaluated_at(script, at, current, who)
}

/// Every script leaves the session with the sender that it started with.
pub proof fn law_scripts_restore_the_sender(
    call: ContractCallView,
    contracts: Seq<ContractIdView>,
    snippet: Seq<char>,
    amount: u64,
    payer: Seq<char>,
    recipient: Seq<char>,
    current: Seq<char>,
)
    ensures
        sender_after(eval_script(snippet), current) == current,
        sender_after(call_script(call, contracts, current), current) == current,
        sender_after(private_script(call, contracts, current), current) == current,
        sender_after(transfer_script(amount, payer, recipient, current), current) == current,
{
    reveal_with_fuel(sender_after, 3);
}

/// Every script evaluates Clarity code exactly once. A call is made as the sender
/// that it names, and as the current sender where it names none; a transfer is made
/// as the account that pays.
pub proof fn law_scripts_evaluate_once_as_asked(
    call: ContractCallView,
    contracts: Seq<ContractIdView>,
    snippet: Seq<char>,
    amount: u64,
    payer: Seq<char>,
    recipient: Seq<char>,
    current: Seq<char>,
)
    ensures
        evaluates_once_as(eval_script(snippet), current, current),
        ({
            let who = match call.sender {
                Some(sender) => sender,
                None => current,
            };
            &&& evaluates_once_as(call_script(call, contracts, current), current, who)
            &&& evaluates_once_as(private_script(call, contracts, current), current, who)
        }),
        evaluates_once_as(transfer_script(amount, payer, recipient, current), current, payer),
{
    reveal_with_fuel(sender_after, 4);
    assert(evaluated_at(eval_script(snippet), 1, current, current));
    let at: int = if call.sender is Some {
        2
    } else {
        1
    };
    let who = match call.sender {
        Some(sender) => sender,
        None => current,
    };
    assert(evaluated_at(call_script(call, contracts, current), at, current, who));
    assert(evaluated_at(private_script(call, contracts, current), at, current, who));
    assert(evaluated_at(transfer_script(amount, payer, recipient, current), 1, current, payer));
}

/// A private function is not called through a snippet, which could not reach it: the
/// one evaluation of the script is a call to the function itself.
pub proof fn law_private_calls_reach_the_function(
    call: ContractCallView,
    contracts: Seq<ContractIdView>,
    current: Seq<char>,
    at: int,
)
    requires
        0 <= at < private_script(call, contracts, current).len(),
        evaluates(private_script(call, contracts, current)[at]),
    ensures
        private_script(call, contracts, current)[at] == (SessionOpView::CallPrivate {
            contract: reference(call.contract, contracts),
            function: call.function,
            args: call.args,
            cost_track: false,
        }),
{
}

} // verus!
