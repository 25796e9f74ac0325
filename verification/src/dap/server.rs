//! The server: which step follows which event. The steps themselves, on sockets and
//! on the session, are taken by whoever drives it.

use crate::contracts::{reference, resolve, ContractCall, ContractCallView};
use crate::dap::launch::{ready_line, ready_text};
use crate::dap::laws::law_replies_are_written_in_full;
use crate::dap::project::{Project, ProjectView};
use crate::dap::reply::{
    accounts_reply, asset_balances, assets_map, assets_reply, block_heights, call_receipt, error,
    error_reply, eval_snippet, eval_to_tx_result, failure, heights_reply, lemma_replies_are_plain,
    mined_block, mined_reply,
    ok, ok_reply, project_accounts, receipt_of, receipt_reply, receipts, value_reply, Receipt,
    ReceiptView,
};
use crate::dap::request::{
    command_in, read_command, transactions, Command, CommandView, Transaction, TransactionView,
};
use crate::json::{json_text, parsed_json, plain, read_json, write_json, Json, JsonView};
use crate::simnet::{
    call_script, eval_script, ops, plan_call, plan_eval, plan_private_call, plan_transfer,
    private_script, transfer_script, FunctionAccess, Outcome, SessionOp, SessionOpView,
};
use crate::text::{decimal, opt_text, same_text, to_decimal, trim, trimmed};
use vstd::prelude::*;

verus! {

/// How far the debugger is.
#[derive(Debug, PartialEq, Eq, Structural, Clone, Copy)]
pub enum Debugger {
    /// An editor is expected, and its handshake goes on in the background.
    Pending,
    /// No editor is expected.
    Absent,
    /// It stands ready, with an editor or without.
    Ready,
}

/// How the handshake with an editor ended.
#[derive(Debug, PartialEq, Eq, Structural, Clone, Copy)]
pub enum Handshake {
    Attached,
    /// The editor went away, or its connection failed.
    Failed,
    /// The thread that ran it panicked.
    Panicked,
}

/// What the server waits for.
#[derive(Debug, PartialEq)]
pub enum Phase {
    /// The port for clients. An editor is expected where it is given a port.
    Binding { sdk_port: u16, dap_port: Option<u16> },
    /// The port for the editor; clients are listened for on `sdk_port`.
    BindingEditor { sdk_port: u16, editor_port: u16 },
    /// The end of the announcement that the server listens.
    Announcing(Debugger),
    /// The next client.
    Accepting(Debugger),
    /// The end of the handshake with the editor.
    Joining,
    /// A debugger without an editor.
    Fitting,
    /// The next request of the client.
    Reading,
    /// An evaluation that is answered with its value.
    Valuing { id: Json },
    /// A call that is answered with its receipt.
    Receipting { id: Json },
    /// The kind of the function that a call for a read-only function names.
    Checking { id: Json, call: ContractCall },
    /// The new block.
    Tipping { id: Json, txs: Vec<Transaction> },
    /// A transaction of the block; `rest` are those behind it.
    Mining { id: Json, done: Vec<Receipt>, rest: Vec<Transaction> },
    /// The heights after the block.
    Sealing { id: Json, done: Vec<Receipt> },
    /// The heights, for a client that asked for them.
    Measuring { id: Json },
    /// The balances.
    Balancing { id: Json },
    /// The manifest that a client names.
    Resolving { id: Json, path: String },
    /// The end of a reply. The server ends after the last one.
    Writing { last: bool },
    /// Nothing more.
    Stopped,
}

pub enum PhaseView {
    Binding { sdk_port: u16, dap_port: Option<u16> },
    BindingEditor { sdk_port: u16, editor_port: u16 },
    Announcing(Debugger),
    Accepting(Debugger),
    Joining,
    Fitting,
    Reading,
    Valuing { id: JsonView },
    Receipting { id: JsonView },
    Checking { id: JsonView, call: ContractCallView },
    Tipping { id: JsonView, txs: Seq<TransactionView> },
    Mining { id: JsonView, done: Seq<ReceiptView>, rest: Seq<TransactionView> },
    Sealing { id: JsonView, done: Seq<ReceiptView> },
    Measuring { id: JsonView },
    Balancing { id: JsonView },
    Resolving { id: JsonView, path: Seq<char> },
    Writing { last: bool },
    Stopped,
}

impl View for Phase {
    type V = PhaseView;

    open spec fn view(&self) -> PhaseView {
        match self {
            Phase::Binding { sdk_port, dap_port } => PhaseView::Binding {
                sdk_port: *sdk_port,
                dap_port: *dap_port,
            },
            Phase::BindingEditor { sdk_port, editor_port } => PhaseView::BindingEditor {
                sdk_port: *sdk_port,
                editor_port: *editor_port,
            },
            Phase::Announcing(debugger) => PhaseView::Announcing(*debugger),
            Phase::Accepting(debugger) => PhaseView::Accepting(*debugger),
            Phase::Joining => PhaseView::Joining,
            Phase::Fitting => PhaseView::Fitting,
            Phase::Reading => PhaseView::Reading,
            Phase::Valuing { id } => PhaseView::Valuing { id: id@ },
            Phase::Receipting { id } => PhaseView::Receipting { id: id@ },
            Phase::Checking { id, call } => PhaseView::Checking { id: id@, call: call@ },
            Phase::Tipping { id, txs } => PhaseView::Tipping { id: id@, txs: transactions(txs@) },
            Phase::Mining { id, done, rest } => PhaseView::Mining {
                id: id@,
                done: receipts(done@),
                rest: transactions(rest@),
            },
            Phase::Sealing { id, done } => PhaseView::Sealing { id: id@, done: receipts(done@) },
            Phase::Measuring { id } => PhaseView::Measuring { id: id@ },
            Phase::Balancing { id } => PhaseView::Balancing { id: id@ },
            Phase::Resolving { id, path } => PhaseView::Resolving { id: id@, path: path@ },
            Phase::Writing { last } => PhaseView::Writing { last: *last },
            Phase::Stopped => PhaseView::Stopped,
        }
    }
}

/// What the server wants done next. What comes of it is the next event.
#[derive(Debug, PartialEq)]
pub enum Action {
    /// Listen for clients on a port.
    BindClients(u16),
    /// Listen for the editor on a port, and complete its handshake in the background.
    BindEditor(u16),
    /// Print a line for whoever started the server.
    Announce(String),
    /// Accept a client.
    AcceptClient,
    /// Wait for the handshake with the editor to end.
    JoinDebugger,
    /// Go on with a debugger that no editor is attached to.
    UseNoOpDebugger,
    /// Read a line from the client.
    ReadLine,
    /// Run operations on the session, one after the other.
    Run(Vec<SessionOp>),
    /// Look up the kind of a function.
    LookUpFunction { contract: String, function: String },
    /// Advance the chain by one block.
    AdvanceChainTip,
    /// Read the heights of the two chains.
    ReadHeights,
    /// Read the balances.
    ReadAssets,
    /// Resolve a path, against the directory `base` where one is given.
    ResolveManifest { base: Option<String>, path: String },
    /// Write to the client.
    Write(String),
    /// End the server, with an error where one is given.
    Stop(Option<String>),
}

/// What an action is for. A reply is taken as the value that is sent.
pub enum ActionView {
    BindClients(u16),
    BindEditor(u16),
    Announce(Seq<char>),
    AcceptClient,
    JoinDebugger,
    UseNoOpDebugger,
    ReadLine,
    Run(Seq<SessionOpView>),
    LookUpFunction { contract: Seq<char>, function: Seq<char> },
    AdvanceChainTip,
    ReadHeights,
    ReadAssets,
    ResolveManifest { base: Option<Seq<char>>, path: Seq<char> },
    Reply(JsonView),
    Stop(Option<Seq<char>>),
}

/// A reply as it is sent: its JSON text and the end of the line.
pub open spec fn line_of(reply: JsonView) -> Seq<char> {
    json_text(reply) + "\n"@
}

/// Whether `text` sends `reply`. It is the line of the reply, and is not broken before
/// its end; a client that reads it finds the reply, where the reply is written in full
/// and no deeper than readers go.
pub open spec fn sends(text: Seq<char>, reply: JsonView) -> bool {
    &&& text == line_of(reply)
    &&& text.last() == '\n'
    &&& !text.drop_last().contains('\n')
    &&& plain(reply, 127) ==> parsed_json(text.drop_last()) == Some(reply)
}

impl Action {
    /// Whether this action does what is wanted.
    pub open spec fn does(self, wanted: ActionView) -> bool {
        match self {
            Action::BindClients(port) => wanted == ActionView::BindClients(port),
            Action::BindEditor(port) => wanted == ActionView::BindEditor(port),
            Action::Announce(line) => wanted == ActionView::Announce(line@),
            Action::AcceptClient => wanted == ActionView::AcceptClient,
            Action::JoinDebugger => wanted == ActionView::JoinDebugger,
            Action::UseNoOpDebugger => wanted == ActionView::UseNoOpDebugger,
            Action::ReadLine => wanted == ActionView::ReadLine,
            Action::Run(script) => wanted == ActionView::Run(ops(script@)),
            Action::LookUpFunction { contract, function } => wanted
                == ActionView::LookUpFunction { contract: contract@, function: function@ },
            Action::AdvanceChainTip => wanted == ActionView::AdvanceChainTip,
            Action::ReadHeights => wanted == ActionView::ReadHeights,
            Action::ReadAssets => wanted == ActionView::ReadAssets,
            Action::ResolveManifest { base, path } => wanted == ActionView::ResolveManifest {
                base: opt_text(base),
                path: path@,
            },
            Action::Write(text) => wanted matches ActionView::Reply(reply) && sends(text@, reply),
            Action::Stop(problem) => wanted == ActionView::Stop(opt_text(problem)),
        }
    }
}

/// Whether a phase and an action are what is wanted.
pub open spec fn is_step(step: (Phase, Action), wanted: (PhaseView, ActionView)) -> bool {
    step.0@ == wanted.0 && step.1.does(wanted.1)
}

/// What came of an action.
#[derive(Debug, PartialEq)]
pub enum Event {
    /// The port that is listened on for clients.
    Bound(u16),
    BindFailed(String),
    /// The port is listened on, but which one it is could not be found out.
    AddressFailed(String),
    Accepted,
    AcceptFailed(String),
    Joined(Handshake),
    Done,
    Line(String),
    /// The client closed its connection, or reading from it failed.
    Closed,
    Evaluated(Outcome),
    /// The kind of a function, where there is such a function.
    Function(Option<FunctionAccess>),
    Heights { stacks: u32, burn: u32 },
    /// The balances, by asset and account.
    Assets(Vec<(String, Vec<(String, u128)>)>),
    /// The resolved path, where there is such a file.
    Manifest(Option<String>),
    Written,
    WriteFailed,
}

/// Whether an event can come of the action that the server asked for when it went
/// into `phase`.
pub open spec fn fits(phase: PhaseView, event: Event) -> bool {
    match phase {
        PhaseView::Binding { .. } => event is Bound || event is BindFailed
            || event is AddressFailed,
        PhaseView::BindingEditor { .. } => event is Done || event is BindFailed,
        PhaseView::Announcing(_) => event is Done,
        PhaseView::Accepting(_) => event is Accepted || event is AcceptFailed,
        PhaseView::Joining => event is Joined,
        PhaseView::Fitting => event is Done,
        PhaseView::Reading => event is Line || event is Closed,
        PhaseView::Valuing { .. } => event is Evaluated,
        PhaseView::Receipting { .. } => event is Evaluated,
        PhaseView::Checking { .. } => event is Function,
        PhaseView::Tipping { .. } => event is Done,
        PhaseView::Mining { .. } => event is Evaluated,
        PhaseView::Sealing { .. } => event is Heights,
        PhaseView::Measuring { .. } => event is Heights,
        PhaseView::Balancing { .. } => event is Assets,
        PhaseView::Resolving { .. } => event is Manifest,
        PhaseView::Writing { .. } => event is Written || event is WriteFailed,
        PhaseView::Stopped => false,
    }
}

/// The start of a server: it listens for clients.
pub open spec fn start(sdk_port: u16, dap_port: Option<u16>) -> (PhaseView, ActionView) {
    (PhaseView::Binding { sdk_port, dap_port }, ActionView::BindClients(sdk_port))
}

/// The announcement that clients are listened for on `sdk_port`.
pub open spec fn announce(sdk_port: u16, debugger: Debugger) -> (PhaseView, ActionView) {
    (PhaseView::Announcing(debugger), ActionView::Announce(ready_text(sdk_port)))
}

/// The end of the server over a problem.
pub open spec fn fail(problem: Seq<char>) -> (PhaseView, ActionView) {
    (PhaseView::Stopped, ActionView::Stop(Some(problem)))
}

/// Sending a reply.
pub open spec fn send(reply: JsonView) -> (PhaseView, ActionView) {
    (PhaseView::Writing { last: false }, ActionView::Reply(reply))
}

/// What a request leads to.
pub open spec fn on_request(project: ProjectView, request: JsonView, sender: Seq<char>) -> (
    PhaseView,
    ActionView,
) {
    let id = request.at("id"@);
    match command_in(request) {
        CommandView::Disconnect => (
            PhaseView::Writing { last: true },
            ActionView::Reply(ok_reply(id, JsonView::Null)),
        ),
        CommandView::Eval(snippet) => (
            PhaseView::Valuing { id },
            ActionView::Run(eval_script(snippet)),
        ),
        CommandView::Call(call) => (
            PhaseView::Valuing { id },
            ActionView::Run(call_script(call, project.contracts, sender)),
        ),
        CommandView::CallPublic(call) => (
            PhaseView::Receipting { id },
            ActionView::Run(call_script(call, project.contracts, sender)),
        ),
        CommandView::CallReadOnly(call) => (
            PhaseView::Checking { id, call },
            ActionView::LookUpFunction {
                contract: reference(call.contract, project.contracts),
                function: call.function,
            },
        ),
        CommandView::GetAccounts => send(accounts_reply(id, project)),
        CommandView::BlockHeight => (PhaseView::Measuring { id }, ActionView::ReadHeights),
        CommandView::GetAssetsMap => (PhaseView::Balancing { id }, ActionView::ReadAssets),
        CommandView::MineBlock(txs) => (
            PhaseView::Tipping { id, txs },
            ActionView::AdvanceChainTip,
        ),
        CommandView::InitSession { cwd, manifest } => (
            PhaseView::Resolving { id, path: manifest },
            ActionView::ResolveManifest { base: cwd, path: manifest },
        ),
        CommandView::Unknown(method) => send(error_reply(id, "unknown method: "@ + method)),
    }
}

/// What a line leads to. A line that is empty or no JSON text is passed over.
pub open spec fn on_line(project: ProjectView, line: Seq<char>, sender: Seq<char>) -> (
    PhaseView,
    ActionView,
) {
    if trimmed(line).len() == 0 {
        (PhaseView::Reading, ActionView::ReadLine)
    } else {
        match parsed_json(trimmed(line)) {
            Some(request) => on_request(project, request, sender),
            None => (PhaseView::Reading, ActionView::ReadLine),
        }
    }
}

/// The next step of a block with the receipts `done` and the transactions `rest` still
/// to run.
pub open spec fn mine(
    project: ProjectView,
    id: JsonView,
    done: Seq<ReceiptView>,
    rest: Seq<TransactionView>,
    sender: Seq<char>,
) -> (PhaseView, ActionView) {
    if rest.len() == 0 {
        (PhaseView::Sealing { id, done }, ActionView::ReadHeights)
    } else {
        let mining = PhaseView::Mining { id, done, rest: rest.skip(1) };
        match rest[0] {
            TransactionView::CallPublic(call) => (
                mining,
                ActionView::Run(call_script(call, project.contracts, sender)),
            ),
            TransactionView::CallPrivate(call) => (
                mining,
                ActionView::Run(private_script(call, project.contracts, sender)),
            ),
            TransactionView::Transfer { amount, sender: payer, recipient } => (
                mining,
                ActionView::Run(transfer_script(amount, payer, recipient, sender)),
            ),
            TransactionView::Rejected(reason) => send(error_reply(id, reason)),
        }
    }
}

/// The answer to a client that asks for a session: the manifest that it names has to
/// be the one that the server runs.
pub open spec fn session_reply(
    project: ProjectView,
    id: JsonView,
    path: Seq<char>,
    resolved: Option<Seq<char>>,
) -> JsonView {
    if resolved == Some(project.manifest) {
        ok_reply(id, JsonView::Null)
    } else {
        error_reply(id, "initSession: not the manifest of this server: "@ + path)
    }
}

/// What the server does on an event: the phase that it goes into, and the action that
/// it asks for. `sender` is the sender of the session at that time.
pub open spec fn next(
    project: ProjectView,
    phase: PhaseView,
    event: Event,
    sender: Seq<char>,
) -> (PhaseView, ActionView) {
    match (phase, event) {
        (PhaseView::Binding { sdk_port, .. }, Event::BindFailed(problem)) => fail(
            "failed to bind SDK port "@ + decimal(sdk_port as nat) + ": "@ + problem@,
        ),
        (PhaseView::Binding { .. }, Event::AddressFailed(problem)) => fail(
            "failed to read SDK listener address: "@ + problem@,
        ),
        (PhaseView::Binding { dap_port: Some(dap_port), .. }, Event::Bound(sdk_port)) => (
            PhaseView::BindingEditor { sdk_port, editor_port: dap_port },
            ActionView::BindEditor(dap_port),
        ),
        (PhaseView::Binding { dap_port: None, .. }, Event::Bound(sdk_port)) => announce(
            sdk_port,
            Debugger::Absent,
        ),
        (PhaseView::BindingEditor { sdk_port, .. }, Event::Done) => announce(
            sdk_port,
            Debugger::Pending,
        ),
        (PhaseView::BindingEditor { editor_port, .. }, Event::BindFailed(problem)) => fail(
            "failed to bind DAP port "@ + decimal(editor_port as nat) + ": "@ + problem@,
        ),
        (PhaseView::Announcing(debugger), Event::Done) => (
            PhaseView::Accepting(debugger),
            ActionView::AcceptClient,
        ),
        (PhaseView::Accepting(Debugger::Pending), Event::Accepted) => (
            PhaseView::Joining,
            ActionView::JoinDebugger,
        ),
        (PhaseView::Accepting(Debugger::Absent), Event::Accepted) => (
            PhaseView::Fitting,
            ActionView::UseNoOpDebugger,
        ),
        (PhaseView::Accepting(Debugger::Ready), Event::Accepted) => (
            PhaseView::Reading,
            ActionView::ReadLine,
        ),
        (PhaseView::Accepting(_), Event::AcceptFailed(problem)) => fail(
            "SDK accept error: "@ + problem@,
        ),
        (PhaseView::Joining, Event::Joined(Handshake::Attached)) => (
            PhaseView::Reading,
            ActionView::ReadLine,
        ),
        (PhaseView::Joining, Event::Joined(Handshake::Failed)) => (
            PhaseView::Fitting,
            ActionView::UseNoOpDebugger,
        ),
        (PhaseView::Joining, Event::Joined(Handshake::Panicked)) => fail(
            "DAP handshake thread panicked"@,
        ),
        (PhaseView::Fitting, Event::Done) => (PhaseView::Reading, ActionView::ReadLine),
        (PhaseView::Reading, Event::Line(line)) => on_line(project, line@, sender),
        (PhaseView::Reading, Event::Closed) => (
            PhaseView::Accepting(Debugger::Ready),
            ActionView::AcceptClient,
        ),
        (PhaseView::Valuing { id }, Event::Evaluated(outcome)) => send(value_reply(id, outcome)),
        (PhaseView::Receipting { id }, Event::Evaluated(outcome)) => send(
            receipt_reply(id, outcome),
        ),
        (PhaseView::Checking { id, call }, Event::Function(access)) => if access == Some(
            FunctionAccess::ReadOnly,
        ) {
            (
                PhaseView::Receipting { id },
                ActionView::Run(call_script(call, project.contracts, sender)),
            )
        } else {
            send(error_reply(id, call.function + " is not a read-only function"@))
        },
        (PhaseView::Tipping { id, txs }, Event::Done) => mine(
            project,
            id,
            Seq::empty(),
            txs,
            sender,
        ),
        (PhaseView::Mining { id, done, rest }, Event::Evaluated(outcome)) => match outcome {
            Ok(execution) => mine(project, id, done.push(receipt_of(execution)), rest, sender),
            Err(messages) => send(error_reply(id, failure(messages@))),
        },
        (PhaseView::Sealing { id, done }, Event::Heights { stacks, burn }) => send(
            mined_reply(id, stacks, burn, done),
        ),
        (PhaseView::Measuring { id }, Event::Heights { stacks, burn }) => send(
            heights_reply(id, stacks, burn),
        ),
        (PhaseView::Balancing { id }, Event::Assets(assets)) => send(
            assets_reply(id, assets_map(assets@)),
        ),
        (PhaseView::Resolving { id, path }, Event::Manifest(resolved)) => send(
            session_reply(project, id, path, opt_text(resolved)),
        ),
        (PhaseView::Writing { last: true }, _) => (PhaseView::Stopped, ActionView::Stop(None)),
        (PhaseView::Writing { last: false }, Event::Written) => (
            PhaseView::Reading,
            ActionView::ReadLine,
        ),
        (PhaseView::Writing { last: false }, Event::WriteFailed) => (
            PhaseView::Accepting(Debugger::Ready),
            ActionView::AcceptClient,
        ),
        (phase, _) => (phase, ActionView::Stop(None)),
    }
}

/// The identifier of the request that the server works on, where it works on one.
pub open spec fn pending(phase: PhaseView) -> Option<JsonView> {
    match phase {
        PhaseView::Valuing { id } => Some(id),
        PhaseView::Receipting { id } => Some(id),
        PhaseView::Checking { id, .. } => Some(id),
        PhaseView::Tipping { id, .. } => Some(id),
        PhaseView::Mining { id, .. } => Some(id),
        PhaseView::Sealing { id, .. } => Some(id),
        PhaseView::Measuring { id } => Some(id),
        PhaseView::Balancing { id } => Some(id),
        PhaseView::Resolving { id, .. } => Some(id),
        _ => None,
    }
}

/// Whether a step is written in full, no deeper than readers go: the reply that it
/// sends, or the identifier that the reply to come will carry.
pub open spec fn written_in_full(step: (PhaseView, ActionView)) -> bool {
    &&& pending(step.0) matches Some(id) ==> plain(id, 126)
    &&& step.1 matches ActionView::Reply(reply) ==> plain(reply, 127)
}

/// Whether the identifier of the request on a line, where there is one, is written in
/// full.
pub open spec fn plain_line(line: Seq<char>) -> bool {
    parsed_json(trimmed(line)) matches Some(request) ==> plain(request.at("id"@), 126)
}

/// Whether the identifier of the request that the server works on, or is to take up, is
/// written in full.
pub open spec fn plain_ids(phase: PhaseView, event: Event) -> bool {
    match event {
        Event::Line(line) => plain_line(line@),
        _ => pending(phase) matches Some(id) ==> plain(id, 126),
    }
}

/// Whether a client that reads what an action writes finds the reply that is wanted.
pub open spec fn reads_back(action: Action, wanted: ActionView) -> bool {
    action matches Action::Write(text) ==> wanted matches ActionView::Reply(reply)
        && parsed_json(text@.drop_last()) == Some(reply)
}

/// What a request leads to is written in full where its identifier is.
pub proof fn lemma_requested_in_full(project: ProjectView, request: JsonView, sender: Seq<char>)
    requires
        plain(request.at("id"@), 126),
    ensures
        written_in_full(on_request(project, request, sender)),
{
    lemma_replies_are_plain(request.at("id"@));
}

/// What a block leads to is written in full where the identifier of its request is.
pub proof fn lemma_mined_in_full(
    project: ProjectView,
    id: JsonView,
    done: Seq<ReceiptView>,
    rest: Seq<TransactionView>,
    sender: Seq<char>,
)
    requires
        plain(id, 126),
    ensures
        written_in_full(mine(project, id, done, rest, sender)),
{
    lemma_replies_are_plain(id);
}

/// Writes a reply: its JSON text and the end of the line.
pub fn write_response(reply: &Json) -> (line: String)
    ensures
        sends(line@, reply@),
{
    let mut line = write_json(reply);
    let ghost text = line@;
    line.append("\n");
    proof {
        reveal_strlit("\n");
    }
    assert(line@.drop_last() =~= text);
    line
}

/// Sends a reply.
fn reply_with(reply: &Json) -> (step: (Phase, Action))
    ensures
        is_step(step, send(reply@)),
{
    (Phase::Writing { last: false }, Action::Write(write_response(reply)))
}

/// Ends the server over a problem.
fn fail_with(message: &str, problem: &str) -> (step: (Phase, Action))
    ensures
        is_step(step, fail(message@ + problem@)),
{
    let mut text = message.to_owned();
    text.append(problem);
    (Phase::Stopped, Action::Stop(Some(text)))
}

/// Ends the server over a port that cannot be listened on.
fn fail_to_bind(message: &str, port: u16, problem: &str) -> (step: (Phase, Action))
    ensures
        is_step(step, fail(message@ + decimal(port as nat) + ": "@ + problem@)),
{
    let mut text = message.to_owned();
    text.append(to_decimal(port as u128).as_str());
    text.append(": ");
    fail_with(text.as_str(), problem)
}

/// Announces that clients are listened for on `sdk_port`.
fn announce_port(sdk_port: u16, debugger: Debugger) -> (step: (Phase, Action))
    ensures
        is_step(step, announce(sdk_port, debugger)),
{
    (Phase::Announcing(debugger), Action::Announce(ready_line(sdk_port)))
}

/// Acts on a request.
pub fn answer(project: &Project, request: Json, sender: &str) -> (step: (Phase, Action))
    ensures
        is_step(step, on_request(project@, request@, sender@)),
        plain(request@.at("id"@), 126) ==> reads_back(
            step.1,
            on_request(project@, request@, sender@).1,
        ),
{
    proof {
        if plain(request@.at("id"@), 126) {
            lemma_requested_in_full(project@, request@, sender@);
        }
    }
    let command = read_command(&request);
    let id = request.into_field("id");
    match command {
        Command::Disconnect => (
            Phase::Writing { last: true },
            Action::Write(write_response(&ok(id, Json::Null))),
        ),
        Command::Eval(snippet) => (Phase::Valuing { id }, Action::Run(plan_eval(snippet.as_str()))),
        Command::Call(call) => (
            Phase::Valuing { id },
            Action::Run(plan_call(&call, &project.contracts, sender)),
        ),
        Command::CallPublic(call) => (
            Phase::Receipting { id },
            Action::Run(plan_call(&call, &project.contracts, sender)),
        ),
        Command::CallReadOnly(call) => {
            let action = Action::LookUpFunction {
                contract: resolve(call.contract.as_str(), &project.contracts),
                function: call.function.clone(),
            };
            (Phase::Checking { id, call }, action)
        },
        Command::GetAccounts => reply_with(&project_accounts(id, project)),
        Command::BlockHeight => (Phase::Measuring { id }, Action::ReadHeights),
        Command::GetAssetsMap => (Phase::Balancing { id }, Action::ReadAssets),
        Command::MineBlock(txs) => (Phase::Tipping { id, txs }, Action::AdvanceChainTip),
        Command::InitSession { cwd, manifest } => {
            let action = Action::ResolveManifest { base: cwd, path: manifest.clone() };
            (Phase::Resolving { id, path: manifest }, action)
        },
        Command::Unknown(method) => {
            let mut message = "unknown method: ".to_owned();
            message.append(method.as_str());
            reply_with(&error(id, message))
        },
    }
}

/// Acts on a line from a client.
pub fn answer_line(project: &Project, line: &str, sender: &str) -> (step: (Phase, Action))
    ensures
        is_step(step, on_line(project@, line@, sender@)),
        plain_line(line@) ==> reads_back(step.1, on_line(project@, line@, sender@).1),
{
    let text = trim(line);
    if text.is_empty() {
        return (Phase::Reading, Action::ReadLine);
    }
    match read_json(text) {
        Some(request) => answer(project, request, sender),
        None => (Phase::Reading, Action::ReadLine),
    }
}

/// Goes on with a block.
pub fn continue_block(
    project: &Project,
    id: Json,
    done: Vec<Receipt>,
    pending: Vec<Transaction>,
    sender: &str,
) -> (step: (Phase, Action))
    ensures
        is_step(
            step,
            mine(project@, id@, receipts(done@), transactions(pending@), sender@),
        ),
        plain(id@, 126) ==> reads_back(
            step.1,
            mine(project@, id@, receipts(done@), transactions(pending@), sender@).1,
        ),
{
    proof {
        if plain(id@, 126) {
            lemma_mined_in_full(
                project@,
                id@,
                receipts(done@),
                transactions(pending@),
                sender@,
            );
        }
    }
    let mut rest = pending;
    if rest.len() == 0 {
        return (Phase::Sealing { id, done }, Action::ReadHeights);
    }
    let tx = rest.remove(0);
    assert(transactions(rest@) =~= transactions(pending@).skip(1));
    let script = match tx {
        Transaction::CallPublic(call) => plan_call(&call, &project.contracts, sender),
        Transaction::CallPrivate(call) => plan_private_call(&call, &project.contracts, sender),
        Transaction::Transfer { amount, sender: payer, recipient } => plan_transfer(
            amount,
            payer.as_str(),
            recipient.as_str(),
            sender,
        ),
        Transaction::Rejected(reason) => {
            return reply_with(&error(id, reason));
        },
    };
    (Phase::Mining { id, done, rest }, Action::Run(script))
}

/// A server.
#[derive(Debug, PartialEq)]
pub struct DapServer {
    pub project: Project,
    pub phase: Phase,
}

impl DapServer {
    /// A server for `project`, which listens for clients on `sdk_port`, or on a port of
    /// the system's choice where that is zero. An editor is expected on `dap_port`, where
    /// it is given.
    pub fn new(project: Project, sdk_port: u16, dap_port: Option<u16>) -> (step: (
        DapServer,
        Action,
    ))
        ensures
            step.0.project == project,
            is_step((step.0.phase, step.1), start(sdk_port, dap_port)),
    {
        let phase = Phase::Binding { sdk_port, dap_port };
        (DapServer { project, phase }, Action::BindClients(sdk_port))
    }

    /// Whether an event can come of the action that the server last asked for.
    pub fn expects(&self, event: &Event) -> (expected: bool)
        ensures
            expected == fits(self.phase@, *event),
    {
        match (&self.phase, event) {
            (Phase::Binding { sdk_port: _, dap_port: _ }, Event::Bound(_)) => true,
            (Phase::Binding { sdk_port: _, dap_port: _ }, Event::BindFailed(_)) => true,
            (Phase::Binding { sdk_port: _, dap_port: _ }, Event::AddressFailed(_)) => true,
            (Phase::BindingEditor { sdk_port: _, editor_port: _ }, Event::Done) => true,
            (Phase::BindingEditor { sdk_port: _, editor_port: _ }, Event::BindFailed(_)) => true,
            (Phase::Announcing(_), Event::Done) => true,
            (Phase::Accepting(_), Event::Accepted) => true,
            (Phase::Accepting(_), Event::AcceptFailed(_)) => true,
            (Phase::Joining, Event::Joined(_)) => true,
            (Phase::Fitting, Event::Done) => true,
            (Phase::Reading, Event::Line(_)) => true,
            (Phase::Reading, Event::Closed) => true,
            (Phase::Valuing { id: _ }, Event::Evaluated(_)) => true,
            (Phase::Receipting { id: _ }, Event::Evaluated(_)) => true,
            (Phase::Checking { id: _, call: _ }, Event::Function(_)) => true,
            (Phase::Tipping { id: _, txs: _ }, Event::Done) => true,
            (Phase::Mining { id: _, done: _, rest: _ }, Event::Evaluated(_)) => true,
            (Phase::Sealing { id: _, done: _ }, Event::Heights { stacks: _, burn: _ }) => true,
            (Phase::Measuring { id: _ }, Event::Heights { stacks: _, burn: _ }) => true,
            (Phase::Balancing { id: _ }, Event::Assets(_)) => true,
            (Phase::Resolving { id: _, path: _ }, Event::Manifest(_)) => true,
            (Phase::Writing { last: _ }, Event::Written) => true,
            (Phase::Writing { last: _ }, Event::WriteFailed) => true,
            _ => false,
        }
    }

    /// Takes an event in and says what to do next.
    pub fn step(self, event: Event, sender: &str) -> (step: (DapServer, Action))
        requires
            fits(self.phase@, event),
        ensures
            step.0.project == self.project,
            is_step(
                (step.0.phase, step.1),
                next(self.project@, self.phase@, event, sender@),
            ),
            plain_ids(self.phase@, event) ==> reads_back(
                step.1,
                next(self.project@, self.phase@, event, sender@).1,
            ),
    {
        proof {
            if plain_ids(self.phase@, event) {
                law_replies_are_written_in_full(self.project@, self.phase@, event, sender@);
            }
        }
        let project = self.project;
        let (phase, action) = match (self.phase, event) {
            (Phase::Binding { sdk_port, dap_port: _ }, Event::BindFailed(problem)) => fail_to_bind(
                "failed to bind SDK port ",
                sdk_port,
                problem.as_str(),
            ),
            (Phase::Binding { sdk_port: _, dap_port: _ }, Event::AddressFailed(problem)) =>
                fail_with("failed to read SDK listener address: ", problem.as_str()),
            (Phase::Binding { sdk_port: _, dap_port }, Event::Bound(sdk_port)) => match dap_port {
                Some(dap_port) => (
                    Phase::BindingEditor { sdk_port, editor_port: dap_port },
                    Action::BindEditor(dap_port),
                ),
                None => announce_port(sdk_port, Debugger::Absent),
            },
            (Phase::BindingEditor { sdk_port, editor_port: _ }, Event::Done) => announce_port(
                sdk_port,
                Debugger::Pending,
            ),
            (Phase::BindingEditor { sdk_port: _, editor_port }, Event::BindFailed(problem)) =>
                fail_to_bind("failed to bind DAP port ", editor_port, problem.as_str()),
            (Phase::Announcing(debugger), Event::Done) => (
                Phase::Accepting(debugger),
                Action::AcceptClient,
            ),
            (Phase::Accepting(debugger), Event::Accepted) => match debugger {
                Debugger::Pending => (Phase::Joining, Action::JoinDebugger),
                Debugger::Absent => (Phase::Fitting, Action::UseNoOpDebugger),
                Debugger::Ready => (Phase::Reading, Action::ReadLine),
            },
            (Phase::Accepting(_), Event::AcceptFailed(problem)) => fail_with(
                "SDK accept error: ",
                problem.as_str(),
            ),
            (Phase::Joining, Event::Joined(handshake)) => match handshake {
                Handshake::Attached => (Phase::Reading, Action::ReadLine),
                Handshake::Failed => (Phase::Fitting, Action::UseNoOpDebugger),
                Handshake::Panicked => (
                    Phase::Stopped,
                    Action::Stop(Some("DAP handshake thread panicked".to_owned())),
                ),
            },
            (Phase::Fitting, Event::Done) => (Phase::Reading, Action::ReadLine),
            (Phase::Reading, Event::Line(line)) => answer_line(&project, line.as_str(), sender),
            (Phase::Reading, Event::Closed) => (
                Phase::Accepting(Debugger::Ready),
                Action::AcceptClient,
            ),
            (Phase::Valuing { id }, Event::Evaluated(outcome)) => reply_with(
                &eval_snippet(id, &outcome),
            ),
            (Phase::Receipting { id }, Event::Evaluated(outcome)) => reply_with(
                &call_receipt(id, outcome),
            ),
            (Phase::Checking { id, call }, Event::Function(access)) => match access {
                Some(FunctionAccess::ReadOnly) => (
                    Phase::Receipting { id },
                    Action::Run(plan_call(&call, &project.contracts, sender)),
                ),
                _ => {
                    let mut message = call.function;
                    message.append(" is not a read-only function");
                    reply_with(&error(id, message))
                },
            },
            (Phase::Tipping { id, txs }, Event::Done) => {
                let done: Vec<Receipt> = Vec::new();
                assert(receipts(done@) =~= Seq::empty());
                continue_block(&project, id, done, txs, sender)
            },
            (Phase::Mining { id, done: before, rest }, Event::Evaluated(outcome)) => {
                let mut done = before;
                match eval_to_tx_result(outcome) {
                    Ok(receipt) => {
                        done.push(receipt);
                        assert(receipts(done@) =~= receipts(before@).push(receipt@));
                        continue_block(&project, id, done, rest, sender)
                    },
                    Err(message) => reply_with(&error(id, message)),
                }
            },
            (Phase::Sealing { id, done }, Event::Heights { stacks, burn }) => reply_with(
                &mined_block(id, stacks, burn, &done),
            ),
            (Phase::Measuring { id }, Event::Heights { stacks, burn }) => reply_with(
                &block_heights(id, stacks, burn),
            ),
            (Phase::Balancing { id }, Event::Assets(assets)) => reply_with(
                &asset_balances(id, &assets),
            ),
            (Phase::Resolving { id, path }, Event::Manifest(resolved)) => {
                let own = match &resolved {
                    Some(manifest) => same_text(manifest.as_str(), project.manifest.as_str()),
                    None => false,
                };
                if own {
                    reply_with(&ok(id, Json::Null))
                } else {
                    let mut message = "initSession: not the manifest of this server: ".to_owned();
                    message.append(path.as_str());
                    reply_with(&error(id, message))
                }
            },
            (Phase::Writing { last: true }, _) => (Phase::Stopped, Action::Stop(None)),
            (Phase::Writing { last: false }, Event::Written) => (
                Phase::Reading,
                Action::ReadLine,
            ),
            (Phase::Writing { last: false }, Event::WriteFailed) => (
                Phase::Accepting(Debugger::Ready),
                Action::AcceptClient,
            ),
            _ => vstd::pervasive::unreached(),
        };
        (DapServer { project, phase }, action)
    }
}

} // verus!
