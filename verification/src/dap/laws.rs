//! What holds of the server whatever its clients do.

use crate::contracts::ContractCallView;
use crate::dap::launch::ready_text;
use crate::dap::project::ProjectView;
use crate::dap::reply::{
    error_reply, failure, lemma_replies_are_plain, ok_reply, receipt_of, ReceiptView,
};
use crate::dap::request::{command_in, TransactionView};
use crate::dap::server::{
    fits, lemma_mined_in_full, lemma_requested_in_full, mine, next, on_line, on_request, pending,
    plain_ids, send, start, written_in_full, ActionView, Debugger, Event, Handshake, PhaseView,
};
use crate::json::{parsed_json, JsonView};
use crate::simnet::{
    call_script, eval_script, evaluates_once_as, law_scripts_evaluate_once_as_asked,
    law_scripts_restore_the_sender, private_script, sender_after, tracks_cost, transfer_script,
    FunctionAccess, Outcome, SessionOpView,
};
use crate::text::{opt_text, trimmed};
use vstd::prelude::*;

verus! {

/// Whether `reply` is an answer under `id`: a result or an error, and not both.
pub open spec fn is_reply(reply: JsonView, id: JsonView) -> bool {
    &&& reply.get("id"@) == Some(id)
    &&& reply.get("result"@) is Some <==> reply.get("error"@) is None
}

/// Whether a step sends an answer under `id`.
pub open spec fn sends_reply(step: (PhaseView, ActionView), id: JsonView) -> bool {
    &&& step.0 is Writing
    &&& step.1 matches ActionView::Reply(reply) && is_reply(reply, id)
}

/// A bound on the events that pass before the request is answered.
pub open spec fn events_left(phase: PhaseView) -> nat {
    match phase {
        PhaseView::Tipping { txs, .. } => txs.len() + 2,
        PhaseView::Mining { rest, .. } => rest.len() + 2,
        PhaseView::Checking { .. } => 2,
        _ => if pending(phase) is Some {
            1
        } else {
            0
        },
    }
}

proof fn lemma_replies(id: JsonView)
    ensures
        forall|result: JsonView| is_reply(#[trigger] ok_reply(id, result), id),
        forall|message: Seq<char>| is_reply(#[trigger] error_reply(id, message), id),
{
    reveal_strlit("id");
    reveal_strlit("result");
    reveal_strlit("error");
    assert("id"@.len() == 2 && "result"@.len() == 6 && "error"@.len() == 5);
}

/// A request is answered at once, or the server works on it under its identifier.
pub proof fn law_request_is_taken_up(project: ProjectView, request: JsonView, sender: Seq<char>)
    ensures
        ({
            let step = on_request(project, request, sender);
            let id = request.at("id"@);
            ||| sends_reply(step, id)
            ||| pending(step.0) == Some(id)
        }),
{
    lemma_replies(request.at("id"@));
}

/// Each event brings a request nearer to its answer, and the answer carries the
/// identifier of the request.
pub proof fn law_request_is_answered_under_its_id(
    project: ProjectView,
    phase: PhaseView,
    event: Event,
    sender: Seq<char>,
)
    requires
        pending(phase) is Some,
        fits(phase, event),
    ensures
        ({
            let step = next(project, phase, event, sender);
            let id = pending(phase)->0;
            ||| sends_reply(step, id)
            ||| pending(step.0) == Some(id) && events_left(step.0) < events_left(phase)
        }),
{
    lemma_replies(pending(phase)->0);
}

/// An event and the sender of the session at its time.
pub struct Moment {
    pub event: Event,
    pub sender: Seq<char>,
}

/// Where the server is after `moments`, or after those of them that it needed to
/// answer the request that it works on.
pub open spec fn drive(
    project: ProjectView,
    step: (PhaseView, ActionView),
    moments: Seq<Moment>,
) -> (PhaseView, ActionView)
    decreases moments.len(),
{
    if moments.len() == 0 || pending(step.0) is None {
        step
    } else {
        drive(
            project,
            next(project, step.0, moments[0].event, moments[0].sender),
            moments.skip(1),
        )
    }
}

/// Whether each of `moments` that the server needs fits where it comes.
pub open spec fn drives(
    project: ProjectView,
    step: (PhaseView, ActionView),
    moments: Seq<Moment>,
) -> bool
    decreases moments.len(),
{
    moments.len() == 0 || pending(step.0) is None || {
        &&& fits(step.0, moments[0].event)
        &&& drives(
            project,
            next(project, step.0, moments[0].event, moments[0].sender),
            moments.skip(1),
        )
    }
}

/// Every request is answered, under its own identifier, after no more events than its
/// bound: whatever the events are.
pub proof fn law_every_request_is_answered(
    project: ProjectView,
    request: JsonView,
    sender: Seq<char>,
    moments: Seq<Moment>,
)
    requires
        drives(project, on_request(project, request, sender), moments),
        moments.len() >= events_left(on_request(project, request, sender).0),
    ensures
        sends_reply(
            drive(project, on_request(project, request, sender), moments),
            request.at("id"@),
        ),
{
    law_request_is_taken_up(project, request, sender);
    if pending(on_request(project, request, sender).0) is Some {
        lemma_drive(project, on_request(project, request, sender), request.at("id"@), moments);
    }
}

proof fn lemma_drive(
    project: ProjectView,
    step: (PhaseView, ActionView),
    id: JsonView,
    moments: Seq<Moment>,
)
    requires
        pending(step.0) == Some(id),
        drives(project, step, moments),
        moments.len() >= events_left(step.0),
    ensures
        sends_reply(drive(project, step, moments), id),
    decreases moments.len(),
{
    reveal_with_fuel(drive, 2);
    let moment = moments[0];
    let after = next(project, step.0, moment.event, moment.sender);
    law_request_is_answered_under_its_id(project, step.0, moment.event, moment.sender);
    if pending(after.0) is Some {
        lemma_drive(project, after, id, moments.skip(1));
    }
}

/// Every reply is written in full, and no deeper than readers go, where the identifier
/// of its request is: a client that reads the line finds the reply.
pub proof fn law_replies_are_written_in_full(
    project: ProjectView,
    phase: PhaseView,
    event: Event,
    sender: Seq<char>,
)
    requires
        fits(phase, event),
        plain_ids(phase, event),
    ensures
        written_in_full(next(project, phase, event, sender)),
{
    if let Some(id) = pending(phase) {
        lemma_replies_are_plain(id);
    }
    match (phase, event) {
        (PhaseView::Reading, Event::Line(line)) => {
            if let Some(request) = parsed_json(trimmed(line@)) {
                lemma_requested_in_full(project, request, sender);
            }
        },
        (PhaseView::Tipping { id, txs }, Event::Done) => {
            lemma_mined_in_full(project, id, Seq::empty(), txs, sender);
        },
        (PhaseView::Mining { id, done, rest }, Event::Evaluated(Ok(execution))) => {
            lemma_mined_in_full(project, id, done.push(receipt_of(execution)), rest, sender);
        },
        _ => {},
    }
}

/// A line that is empty, or that is no JSON text, is passed over: nothing is
/// answered and nothing is run.
pub proof fn law_noise_is_passed_over(project: ProjectView, line: Seq<char>, sender: Seq<char>)
    requires
        trimmed(line).len() == 0 || parsed_json(trimmed(line)) is None,
    ensures
        on_line(project, line, sender) == (PhaseView::Reading, ActionView::ReadLine),
{
}

/// The server ends only when a client asks for it, when it cannot listen or accept, or
/// when the handshake panicked.
pub proof fn law_server_ends_only_when_told(
    project: ProjectView,
    phase: PhaseView,
    event: Event,
    sender: Seq<char>,
)
    requires
        fits(phase, event),
    ensures
        next(project, phase, event, sender).1 is Stop <==> {
            ||| phase == (PhaseView::Writing { last: true })
            ||| event is AcceptFailed || event is BindFailed || event is AddressFailed
            ||| event == Event::Joined(Handshake::Panicked)
        },
        next(project, phase, event, sender).0 == (PhaseView::Writing { last: true }) <==> {
            &&& event matches Event::Line(line)
            &&& trimmed(line@).len() > 0
            &&& parsed_json(trimmed(line@)) matches Some(request)
            &&& command_in(request) is Disconnect
        },
{
}

/// Whether a server can go through `steps`: from each to the one behind it on one of
/// `moments`, which fits.
pub open spec fn is_run(
    project: ProjectView,
    steps: Seq<(PhaseView, ActionView)>,
    moments: Seq<Moment>,
) -> bool {
    &&& steps.len() == moments.len() + 1
    &&& forall|k: int|
        0 <= k < moments.len() ==> fits(steps[k].0, (#[trigger] moments[k]).event) && steps[k + 1]
            == next(project, steps[k].0, moments[k].event, moments[k].sender)
}

/// Whether the server is past its start: it listens, and has said so.
pub open spec fn started(phase: PhaseView) -> bool {
    !(phase is Binding || phase is BindingEditor || phase is Announcing)
}

/// The position of the step that announces the server, in a run that gets there.
pub open spec fn announced_at(dap_port: Option<u16>) -> int {
    if dap_port is Some {
        2
    } else {
        1
    }
}

/// The server is announced once: after it listens for clients, and for the editor where
/// one is expected, and before it accepts the first client. The line names the port that
/// clients are listened for on.
pub proof fn law_server_is_announced_once(
    project: ProjectView,
    steps: Seq<(PhaseView, ActionView)>,
    moments: Seq<Moment>,
    sdk_port: u16,
    dap_port: Option<u16>,
)
    requires
        is_run(project, steps, moments),
        steps[0] == start(sdk_port, dap_port),
    ensures
        forall|k: int|
            0 <= k < steps.len() && (#[trigger] steps[k]).1 is Announce ==> {
                &&& k == announced_at(dap_port)
                &&& moments[0].event matches Event::Bound(port) && steps[k].1
                    == ActionView::Announce(ready_text(port))
                &&& dap_port matches Some(port) ==> steps[1].1 == ActionView::BindEditor(port)
                    && moments[1].event is Done
            },
        forall|k: int|
            0 <= k < steps.len() && (#[trigger] steps[k]).1 is AcceptClient ==> {
                &&& announced_at(dap_port) < k
                &&& steps[announced_at(dap_port)].1 is Announce
            },
{
    let at = announced_at(dap_port);
    lemma_start(project, steps, moments, sdk_port, dap_port);
    assert forall|k: int| 0 <= k < steps.len() && k > at implies {
        let step = #[trigger] steps[k];
        &&& started(step.0)
        &&& !(step.1 is Announce)
        &&& step.1 is AcceptClient ==> steps[at].1 is Announce
    } by {
        lemma_started(project, steps, moments, at, k);
    }
}

/// The first steps of a server.
proof fn lemma_start(
    project: ProjectView,
    steps: Seq<(PhaseView, ActionView)>,
    moments: Seq<Moment>,
    sdk_port: u16,
    dap_port: Option<u16>,
)
    requires
        is_run(project, steps, moments),
        steps[0] == start(sdk_port, dap_port),
    ensures
        ({
            let at = announced_at(dap_port);
            &&& forall|k: int|
                0 <= k < steps.len() && k <= at ==> !((#[trigger] steps[k]).1 is AcceptClient)
            &&& forall|k: int|
                0 <= k < steps.len() && k <= at && (#[trigger] steps[k]).1 is Announce ==> {
                    &&& k == at
                    &&& moments[0].event matches Event::Bound(port) && steps[k].1
                        == ActionView::Announce(ready_text(port))
                    &&& dap_port matches Some(port) ==> steps[1].1 == ActionView::BindEditor(port)
                        && moments[1].event is Done
                }
            &&& steps.len() > at ==> {
                ||| steps[at].0 is Announcing && steps[at].1 is Announce
                ||| steps[at].0 is Stopped
            }
        }),
{
    if moments.len() > 0 {
        assert(fits(steps[0].0, moments[0].event));
    }
    if dap_port is Some && moments.len() > 1 {
        assert(fits(steps[1].0, moments[1].event));
    }
}

/// Behind its announcement the server neither starts nor announces itself again.
proof fn lemma_started(
    project: ProjectView,
    steps: Seq<(PhaseView, ActionView)>,
    moments: Seq<Moment>,
    at: int,
    k: int,
)
    requires
        is_run(project, steps, moments),
        0 <= at < k < steps.len(),
        steps[at].0 is Stopped || (steps[at].0 is Announcing && steps[at].1 is Announce),
    ensures
        started(steps[k].0),
        !(steps[k].1 is Announce),
        steps[at].1 is Announce,
    decreases k,
{
    assert(fits(steps[k - 1].0, moments[k - 1].event));
    if k - 1 > at {
        lemma_started(project, steps, moments, at, k - 1);
    }
}

/// Whether the handshake with the editor was over by the step at `k` of a run.
pub open spec fn joined_by(moments: Seq<Moment>, k: int) -> bool {
    exists|j: int| 0 <= j < k && (#[trigger] moments[j]).event is Joined
}

/// Where an editor is expected, nothing is read from a client, run for it or answered
/// before the handshake with the editor is over.
pub proof fn law_handshake_comes_first(
    project: ProjectView,
    steps: Seq<(PhaseView, ActionView)>,
    moments: Seq<Moment>,
    sdk_port: u16,
    dap_port: u16,
)
    requires
        is_run(project, steps, moments),
        steps[0] == start(sdk_port, Some(dap_port)),
    ensures
        forall|k: int|
            0 <= k < steps.len() && !joined_by(moments, k) ==> {
                let action = (#[trigger] steps[k]).1;
                ||| action is BindClients || action is BindEditor || action is Announce
                ||| action is AcceptClient || action is JoinDebugger || action is Stop
            },
{
    assert forall|k: int| 0 <= k < steps.len() && !joined_by(moments, k) implies {
        let action = (#[trigger] steps[k]).1;
        ||| action is BindClients || action is BindEditor || action is Announce
        ||| action is AcceptClient || action is JoinDebugger || action is Stop
    } by {
        lemma_before_handshake(project, steps, moments, sdk_port, dap_port, k);
    }
}

proof fn lemma_before_handshake(
    project: ProjectView,
    steps: Seq<(PhaseView, ActionView)>,
    moments: Seq<Moment>,
    sdk_port: u16,
    dap_port: u16,
    k: int,
)
    requires
        is_run(project, steps, moments),
        steps[0] == start(sdk_port, Some(dap_port)),
        0 <= k < steps.len(),
        !joined_by(moments, k),
    ensures
        ({
            let action = steps[k].1;
            ||| action is BindClients || action is BindEditor || action is Announce
            ||| action is AcceptClient || action is JoinDebugger || action is Stop
        }),
        ({
            let phase = steps[k].0;
            ||| phase matches PhaseView::Binding { dap_port: Some(_), .. }
            ||| phase is BindingEditor || phase is Joining || phase is Stopped
            ||| phase == PhaseView::Announcing(Debugger::Pending)
            ||| phase == PhaseView::Accepting(Debugger::Pending)
        }),
    decreases k,
{
    if k > 0 {
        assert(!joined_by(moments, k - 1)) by {
            if joined_by(moments, k - 1) {
                let j = choose|j: int| 0 <= j < k - 1 && (#[trigger] moments[j]).event is Joined;
                assert(moments[j].event is Joined);
            }
        }
        lemma_before_handshake(project, steps, moments, sdk_port, dap_port, k - 1);
        assert(!(moments[k - 1].event is Joined));
        assert(fits(steps[k - 1].0, moments[k - 1].event));
    }
}

/// A client that goes away, before or while it is answered, leaves the server ready
/// for the next one.
pub proof fn law_lost_client_is_followed_by_the_next(project: ProjectView, sender: Seq<char>)
    ensures
        next(project, PhaseView::Reading, Event::Closed, sender) == (
            PhaseView::Accepting(Debugger::Ready),
            ActionView::AcceptClient,
        ),
        next(project, PhaseView::Writing { last: false }, Event::WriteFailed, sender) == (
            PhaseView::Accepting(Debugger::Ready),
            ActionView::AcceptClient,
        ),
        next(project, PhaseView::Accepting(Debugger::Ready), Event::Accepted, sender) == (
            PhaseView::Reading,
            ActionView::ReadLine,
        ),
{
}

/// An editor that goes away during its handshake leaves a server that works without
/// one.
pub proof fn law_lost_editor_is_done_without(project: ProjectView, sender: Seq<char>)
    ensures
        next(project, PhaseView::Joining, Event::Joined(Handshake::Failed), sender) == next(
            project,
            PhaseView::Accepting(Debugger::Absent),
            Event::Accepted,
            sender,
        ),
        next(project, PhaseView::Fitting, Event::Done, sender) == (
            PhaseView::Reading,
            ActionView::ReadLine,
        ),
{
}

/// Whether a script, run with the sender `sender`, runs Clarity code exactly once,
/// without tracking its cost, and leaves the sender as it was.
pub open spec fn keeps_sender(script: Seq<SessionOpView>, sender: Seq<char>) -> bool {
    &&& sender_after(script, sender) == sender
    &&& exists|who: Seq<char>| evaluates_once_as(script, sender, who)
    &&& forall|i: int| 0 <= i < script.len() ==> !tracks_cost(#[trigger] script[i])
}

/// Whatever the server runs on the session runs Clarity code exactly once, without
/// tracking its cost, and leaves the sender as it was.
pub proof fn law_runs_keep_the_sender(
    project: ProjectView,
    phase: PhaseView,
    event: Event,
    sender: Seq<char>,
)
    requires
        fits(phase, event),
    ensures
        next(project, phase, event, sender).1 matches ActionView::Run(script) ==> keeps_sender(
            script,
            sender,
        ),
{
    let contracts = project.contracts;
    let none = Seq::<char>::empty();
    let no_call = ContractCallView {
        contract: none,
        function: none,
        sender: None,
        args: Seq::empty(),
    };
    assert forall|call: ContractCallView|
        keeps_sender(#[trigger] call_script(call, contracts, sender), sender) by {
        law_scripts_restore_the_sender(call, contracts, none, 0, none, none, sender);
        law_scripts_evaluate_once_as_asked(call, contracts, none, 0, none, none, sender);
    }
    assert forall|call: ContractCallView|
        keeps_sender(#[trigger] private_script(call, contracts, sender), sender) by {
        law_scripts_restore_the_sender(call, contracts, none, 0, none, none, sender);
        law_scripts_evaluate_once_as_asked(call, contracts, none, 0, none, none, sender);
    }
    assert forall|snippet: Seq<char>|
        keeps_sender(#[trigger] eval_script(snippet), sender) by {
        law_scripts_restore_the_sender(no_call, contracts, snippet, 0, none, none, sender);
        law_scripts_evaluate_once_as_asked(no_call, contracts, snippet, 0, none, none, sender);
    }
    assert forall|amount: u64, payer: Seq<char>, recipient: Seq<char>|
        keeps_sender(#[trigger] transfer_script(amount, payer, recipient, sender), sender) by {
        law_scripts_restore_the_sender(no_call, contracts, none, amount, payer, recipient, sender);
        law_scripts_evaluate_once_as_asked(
            no_call,
            contracts,
            none,
            amount,
            payer,
            recipient,
            sender,
        );
    }
}

/// A call for a read-only function is run only where the function is read-only: a
/// function that could change the chain is never called this way, and the client is
/// told.
pub proof fn law_read_only_calls_run_read_only_functions(
    project: ProjectView,
    request: JsonView,
    access: Option<FunctionAccess>,
    sender: Seq<char>,
)
    requires
        command_in(request) is CallReadOnly,
    ensures
        ({
            let call = command_in(request)->CallReadOnly_0;
            let id = request.at("id"@);
            let asked = on_request(project, request, sender);
            let step = next(project, asked.0, Event::Function(access), sender);
            &&& asked.1 is LookUpFunction
            &&& fits(asked.0, Event::Function(access))
            &&& access == Some(FunctionAccess::ReadOnly) ==> step.1 == ActionView::Run(
                call_script(call, project.contracts, sender),
            )
            &&& access != Some(FunctionAccess::ReadOnly) ==> step == send(
                error_reply(id, call.function + " is not a read-only function"@),
            )
        }),
{
}

/// A client names a manifest relative to its own directory, and gets a session
/// exactly where that is the manifest that the server runs.
pub proof fn law_session_is_granted_on_the_own_manifest(
    project: ProjectView,
    request: JsonView,
    resolved: Option<String>,
    sender: Seq<char>,
)
    requires
        request.at("method"@) == JsonView::Text("initSession"@),
    ensures
        ({
            let id = request.at("id"@);
            let path = request.at("manifestPath"@).text_or_empty();
            let asked = on_request(project, request, sender);
            let step = next(project, asked.0, Event::Manifest(resolved), sender);
            &&& asked.1 == ActionView::ResolveManifest {
                base: request.at("cwd"@).as_text(),
                path,
            }
            &&& fits(asked.0, Event::Manifest(resolved))
            &&& opt_text(resolved) == Some(project.manifest) ==> step == send(
                ok_reply(id, JsonView::Null),
            )
            &&& opt_text(resolved) != Some(project.manifest) ==> step == send(
                error_reply(id, "initSession: not the manifest of this server: "@ + path),
            )
        }),
{
    reveal_strlit("initSession");
    reveal_strlit("disconnect");
    reveal_strlit("eval");
    reveal_strlit("call");
    reveal_strlit("callPublicFn");
    reveal_strlit("callReadOnlyFn");
    reveal_strlit("getAccounts");
    reveal_strlit("blockHeight");
    reveal_strlit("getAssetsMap");
    reveal_strlit("mineBlock");
    assert("initSession"@[0] == 'i');
    assert("getAccounts"@[0] == 'g');
    assert("blockHeight"@[0] == 'b');
    assert("initSession"@.len() == 11);
}

/// What a block comes to when its transactions have the given outcomes, one after the
/// other.
pub open spec fn run_block(
    project: ProjectView,
    step: (PhaseView, ActionView),
    outcomes: Seq<Outcome>,
    sender: Seq<char>,
) -> (PhaseView, ActionView)
    decreases outcomes.len(),
{
    if outcomes.len() == 0 {
        step
    } else {
        run_block(
            project,
            next(project, step.0, Event::Evaluated(outcomes[0]), sender),
            outcomes.skip(1),
            sender,
        )
    }
}

/// The receipts of executions that succeeded.
pub open spec fn receipts_of(outcomes: Seq<Outcome>) -> Seq<ReceiptView> {
    outcomes.map_values(|outcome: Outcome| receipt_of(outcome->Ok_0))
}

/// Whether every one of `outcomes` is a success.
pub open spec fn all_ok(outcomes: Seq<Outcome>) -> bool {
    forall|i: int| 0 <= i < outcomes.len() ==> #[trigger] outcomes[i] is Ok
}

/// Whether none of the first `count` transactions is rejected.
pub open spec fn none_rejected(txs: Seq<TransactionView>, count: int) -> bool {
    forall|i: int| 0 <= i < count ==> !(#[trigger] txs[i] is Rejected)
}

/// The transactions of a block are run one after the other: behind those that
/// succeeded comes the next one, with their receipts kept in order.
pub proof fn law_block_runs_in_order(
    project: ProjectView,
    id: JsonView,
    done: Seq<ReceiptView>,
    txs: Seq<TransactionView>,
    outcomes: Seq<Outcome>,
    sender: Seq<char>,
)
    requires
        outcomes.len() <= txs.len(),
        none_rejected(txs, outcomes.len() as int),
        all_ok(outcomes),
    ensures
        run_block(project, mine(project, id, done, txs, sender), outcomes, sender) == mine(
            project,
            id,
            done + receipts_of(outcomes),
            txs.skip(outcomes.len() as int),
            sender,
        ),
    decreases outcomes.len(),
{
    if outcomes.len() == 0 {
        assert(done + receipts_of(outcomes) =~= done);
        assert(txs.skip(0) =~= txs);
    } else {
        let first = receipt_of(outcomes[0]->Ok_0);
        assert(!(txs[0] is Rejected));
        assert(outcomes[0] is Ok);
        assert(none_rejected(txs.skip(1), outcomes.skip(1).len() as int)) by {
            assert forall|i: int| 0 <= i < outcomes.skip(1).len() implies !(#[trigger] txs.skip(
                1,
            )[i] is Rejected) by {
                assert(txs.skip(1)[i] == txs[i + 1]);
            }
        }
        assert(all_ok(outcomes.skip(1))) by {
            assert forall|i: int|
                0 <= i < outcomes.skip(1).len() implies #[trigger] outcomes.skip(1)[i] is Ok by {
                assert(outcomes.skip(1)[i] == outcomes[i + 1]);
            }
        }
        law_block_runs_in_order(
            project,
            id,
            done.push(first),
            txs.skip(1),
            outcomes.skip(1),
            sender,
        );
        assert(done.push(first) + receipts_of(outcomes.skip(1)) =~= done + receipts_of(outcomes));
        assert(txs.skip(1).skip(outcomes.skip(1).len() as int) =~= txs.skip(outcomes.len() as int));
    }
}

/// A block whose transactions all succeed is reported with one receipt for each, in
/// order.
pub proof fn law_block_reports_every_transaction(
    project: ProjectView,
    id: JsonView,
    txs: Seq<TransactionView>,
    outcomes: Seq<Outcome>,
    sender: Seq<char>,
)
    requires
        outcomes.len() == txs.len(),
        none_rejected(txs, txs.len() as int),
        all_ok(outcomes),
    ensures
        run_block(
            project,
            next(project, PhaseView::Tipping { id, txs }, Event::Done, sender),
            outcomes,
            sender,
        ) == (
            PhaseView::Sealing { id, done: receipts_of(outcomes) },
            ActionView::ReadHeights,
        ),
        receipts_of(outcomes).len() == txs.len(),
{
    law_block_runs_in_order(project, id, Seq::empty(), txs, outcomes, sender);
    assert(Seq::empty() + receipts_of(outcomes) =~= receipts_of(outcomes));
}

/// A block ends at the first transaction that fails: the client is told why, and the
/// transactions behind it are not run.
pub proof fn law_block_ends_at_the_first_failure(
    project: ProjectView,
    id: JsonView,
    txs: Seq<TransactionView>,
    outcomes: Seq<Outcome>,
    messages: Vec<String>,
    sender: Seq<char>,
)
    requires
        outcomes.len() < txs.len(),
        none_rejected(txs, outcomes.len() as int + 1),
        all_ok(outcomes),
    ensures
        ({
            let begun = next(project, PhaseView::Tipping { id, txs }, Event::Done, sender);
            let failing = run_block(project, begun, outcomes, sender);
            next(project, failing.0, Event::Evaluated(Err(messages)), sender) == send(
                error_reply(id, failure(messages@)),
            )
        }),
{
    law_block_runs_in_order(project, id, Seq::empty(), txs, outcomes, sender);
    assert(!(txs[outcomes.len() as int] is Rejected));
}

/// A block ends at a transaction that cannot be run: the client is told why, and the
/// transactions behind it are not run.
pub proof fn law_block_ends_at_a_rejected_transaction(
    project: ProjectView,
    id: JsonView,
    txs: Seq<TransactionView>,
    outcomes: Seq<Outcome>,
    reason: Seq<char>,
    sender: Seq<char>,
)
    requires
        outcomes.len() < txs.len(),
        none_rejected(txs, outcomes.len() as int),
        txs[outcomes.len() as int] == TransactionView::Rejected(reason),
        all_ok(outcomes),
    ensures
        ({
            let begun = next(project, PhaseView::Tipping { id, txs }, Event::Done, sender);
            run_block(project, begun, outcomes, sender) == send(error_reply(id, reason))
        }),
{
    law_block_runs_in_order(project, id, Seq::empty(), txs, outcomes, sender);
}

} // verus!
