//! What each request is for: from its JSON to what is run on the session, and from what
//! came of that to the JSON of the answer.

use crate::contracts::{
    call_snippet, ids, local_snippet, reference, target, CallTargetView,
};
use crate::dap::launch::ready_text;
use crate::dap::project::{accounts_of, Project, ProjectView, WalletView};
use crate::dap::reply::{
    assets_map, balances_map, eval_to_tx_result, receipt_of, Receipt, ReceiptView,
};
use crate::dap::request::{transaction_in, Transaction, TransactionView};
use crate::dap::server::{
    fits, mine, next, on_request, plain_ids, reads_back, start, write_response, Action, ActionView,
    DapServer, Debugger, Event, Handshake, Phase, PhaseView,
};
use crate::json::{items_view, json_text, parsed_json, plain, texts_of, Json, JsonView};
use crate::simnet::{
    EvaluationResult, ExecutionResult, FunctionAccess, Outcome, SessionOp, SessionOpView,
};
use crate::text::{
    decimal, digits_value, is_digits, joined, law_decimal_value, texts, trimmed,
};
use vstd::prelude::*;

verus! {

/// The names of the methods differ in length or in their first letter.
proof fn lemma_method_names()
    ensures
        "disconnect"@.len() == 10,
        "eval"@.len() == 4 && "eval"@[0] == 'e',
        "call"@.len() == 4 && "call"@[0] == 'c',
        "callPublicFn"@.len() == 12 && "callPublicFn"@[0] == 'c',
        "callReadOnlyFn"@.len() == 14,
        "getAccounts"@.len() == 11 && "getAccounts"@[0] == 'g',
        "blockHeight"@.len() == 11 && "blockHeight"@[0] == 'b',
        "getAssetsMap"@.len() == 12 && "getAssetsMap"@[0] == 'g',
        "mineBlock"@.len() == 9,
        "initSession"@.len() == 11 && "initSession"@[0] == 'i',
{
    reveal_strlit("disconnect");
    reveal_strlit("eval");
    reveal_strlit("call");
    reveal_strlit("callPublicFn");
    reveal_strlit("callReadOnlyFn");
    reveal_strlit("getAccounts");
    reveal_strlit("blockHeight");
    reveal_strlit("getAssetsMap");
    reveal_strlit("mineBlock");
    reveal_strlit("initSession");
}

/// The kinds of transactions differ in the lengths of their names.
proof fn lemma_kind_names()
    ensures
        "callPublicFn"@.len() == 12,
        "callPrivateFn"@.len() == 13,
        "transferSTX"@.len() == 11,
        "deployContract"@.len() == 14,
{
    reveal_strlit("callPublicFn");
    reveal_strlit("callPrivateFn");
    reveal_strlit("transferSTX");
    reveal_strlit("deployContract");
}

/// The keys of replies differ in their lengths or in their first letters.
proof fn lemma_reply_keys()
    ensures
        "id"@.len() == 2,
        "result"@.len() == 6,
        "error"@.len() == 5,
        "value"@.len() == 5,
        "hex"@.len() == 3,
        "events"@.len() == 6 && "events"@[0] == 'e' && "result"@[0] == 'r',
        "stacksHeight"@.len() == 12,
        "burnHeight"@.len() == 10,
        "txs"@.len() == 3,
        "results"@.len() == 7,
        "deployer"@.len() == 8 && "deployer"@[0] == 'd',
        "accounts"@.len() == 8 && "accounts"@[0] == 'a',
        "assets"@.len() == 6,
{
    reveal_strlit("id");
    reveal_strlit("result");
    reveal_strlit("error");
    reveal_strlit("value");
    reveal_strlit("hex");
    reveal_strlit("events");
    reveal_strlit("stacksHeight");
    reveal_strlit("burnHeight");
    reveal_strlit("txs");
    reveal_strlit("results");
    reveal_strlit("deployer");
    reveal_strlit("accounts");
    reveal_strlit("assets");
}

/// A snippet is evaluated as it was sent, under the debugger and as the sender of the
/// session.
pub proof fn law_snippet_is_evaluated(project: ProjectView, request: JsonView, current: Seq<char>)
    requires
        request.get("method"@) == Some(JsonView::Text("eval"@)),
    ensures
        ({
            let snippet = request.at("snippet"@).text_or_empty();
            on_request(project, request, current) == (
                PhaseView::Valuing { id: request.at("id"@) },
                ActionView::Run(
                    seq![
                        SessionOpView::Prepare { target: CallTargetView::Transient, snippet },
                        SessionOpView::Eval { snippet, cost_track: false },
                    ],
                ),
            )
        }),
{
    lemma_method_names();
}

/// A call is made through the one snippet that calls the function of the contract that
/// the request names, with the arguments that it holds: as the sender that it names, who
/// is then no longer the sender, or as the sender of the session where it names none.
/// `call` is answered with the value, `callPublicFn` with a receipt.
pub proof fn law_call_is_made_as_asked(project: ProjectView, request: JsonView, current: Seq<char>)
    requires
        request.get("method"@) == Some(JsonView::Text("call"@)) || request.get("method"@) == Some(
            JsonView::Text("callPublicFn"@),
        ),
    ensures
        ({
            let id = request.at("id"@);
            let contract = request.at("contract"@).text_or_empty();
            let snippet = call_snippet(
                reference(contract, project.contracts),
                request.at("function"@).text_or_empty(),
                texts_of(request.at("args"@).items()),
            );
            let prepare = SessionOpView::Prepare {
                target: target(contract, project.contracts),
                snippet,
            };
            let eval = SessionOpView::Eval { snippet, cost_track: false };
            let step = on_request(project, request, current);
            &&& step.0 == if request.at("method"@) == JsonView::Text("call"@) {
                PhaseView::Valuing { id }
            } else {
                PhaseView::Receipting { id }
            }
            &&& step.1 == ActionView::Run(
                match request.at("sender"@) {
                    JsonView::Text(sender) => seq![
                        SessionOpView::SetSender(sender),
                        prepare,
                        eval,
                        SessionOpView::SetSender(current),
                    ],
                    _ => seq![prepare, eval],
                },
            )
        }),
{
    lemma_method_names();
    let step = on_request(project, request, current);
    let script = step.1->Run_0;
    if let JsonView::Text(sender) = request.at("sender"@) {
        assert(script =~= seq![script[0], script[1], script[2], script[3]]);
    }
}

/// A call for a read-only function first looks the function up, and is then made as any
/// other call, where it is read-only.
pub proof fn law_read_only_call_is_made_as_asked(
    project: ProjectView,
    request: JsonView,
    current: Seq<char>,
)
    requires
        request.get("method"@) == Some(JsonView::Text("callReadOnlyFn"@)),
    ensures
        ({
            let id = request.at("id"@);
            let contract = request.at("contract"@).text_or_empty();
            let function = request.at("function"@).text_or_empty();
            let snippet = call_snippet(
                reference(contract, project.contracts),
                function,
                texts_of(request.at("args"@).items()),
            );
            let prepare = SessionOpView::Prepare {
                target: target(contract, project.contracts),
                snippet,
            };
            let eval = SessionOpView::Eval { snippet, cost_track: false };
            let asked = on_request(project, request, current);
            let found = Event::Function(Some(FunctionAccess::ReadOnly));
            let step = next(project, asked.0, found, current);
            &&& asked.1 == ActionView::LookUpFunction {
                contract: reference(contract, project.contracts),
                function,
            }
            &&& fits(asked.0, found)
            &&& step.0 == PhaseView::Receipting { id }
            &&& step.1 == ActionView::Run(
                match request.at("sender"@) {
                    JsonView::Text(sender) => seq![
                        SessionOpView::SetSender(sender),
                        prepare,
                        eval,
                        SessionOpView::SetSender(current),
                    ],
                    _ => seq![prepare, eval],
                },
            )
        }),
{
    lemma_method_names();
    let asked = on_request(project, request, current);
    let found = Event::Function(Some(FunctionAccess::ReadOnly));
    let script = next(project, asked.0, found, current).1->Run_0;
    if let JsonView::Text(sender) = request.at("sender"@) {
        assert(script =~= seq![script[0], script[1], script[2], script[3]]);
    }
}

/// A function that is not read-only, or that there is none of, is not called as one: the
/// client is told, and nothing is run.
pub proof fn law_other_functions_are_refused(
    project: ProjectView,
    request: JsonView,
    access: Option<FunctionAccess>,
    current: Seq<char>,
)
    requires
        request.get("method"@) == Some(JsonView::Text("callReadOnlyFn"@)),
        access != Some(FunctionAccess::ReadOnly),
    ensures
        ({
            let asked = on_request(project, request, current);
            let step = next(project, asked.0, Event::Function(access), current);
            &&& step.0 == (PhaseView::Writing { last: false })
            &&& step.1 == ActionView::Reply(
                JsonView::Object(
                    map![
                        "id"@ => request.at("id"@),
                        "error"@ => JsonView::Text(
                            request.at("function"@).text_or_empty()
                                + " is not a read-only function"@,
                        ),
                    ],
                ),
            )
        }),
{
    lemma_method_names();
}

/// A block is started by advancing the chain, and holds one transaction for each item
/// of the request, in order.
pub proof fn law_block_holds_every_transaction(
    project: ProjectView,
    request: JsonView,
    current: Seq<char>,
)
    requires
        request.get("method"@) == Some(JsonView::Text("mineBlock"@)),
    ensures
        ({
            let items = request.at("txs"@).items();
            let step = on_request(project, request, current);
            &&& step.1 == ActionView::AdvanceChainTip
            &&& step.0 matches PhaseView::Tipping { id, txs } && id == request.at("id"@)
                && txs.len() == items.len() && (forall|i: int|
                0 <= i < items.len() ==> #[trigger] txs[i] == transaction_in(items[i]))
                && next(project, step.0, Event::Done, current) == mine(
                project,
                id,
                Seq::empty(),
                txs,
                current,
            )
        }),
{
    lemma_method_names();
}

/// The call under the key `callPublicFn` of a transaction is made as asked: the contract,
/// the function, the arguments and the sender are those that it holds.
pub proof fn law_public_call_in_a_block(
    project: ProjectView,
    id: JsonView,
    done: Seq<ReceiptView>,
    tx: JsonView,
    rest: Seq<TransactionView>,
    current: Seq<char>,
)
    requires
        tx.get("callPublicFn"@) is Some,
    ensures
        ({
            let call = tx.at("callPublicFn"@);
            let contract = call.at("contract"@).text_or_empty();
            let snippet = call_snippet(
                reference(contract, project.contracts),
                call.at("method"@).text_or_empty(),
                texts_of(call.at("args"@).items()),
            );
            let prepare = SessionOpView::Prepare {
                target: target(contract, project.contracts),
                snippet,
            };
            let eval = SessionOpView::Eval { snippet, cost_track: false };
            let step = mine(project, id, done, seq![transaction_in(tx)] + rest, current);
            &&& step.0 == PhaseView::Mining { id, done, rest }
            &&& step.1 == ActionView::Run(
                match call.at("sender"@) {
                    JsonView::Text(sender) => seq![
                        SessionOpView::SetSender(sender),
                        prepare,
                        eval,
                        SessionOpView::SetSender(current),
                    ],
                    _ => seq![prepare, eval],
                },
            )
        }),
{
    let txs = seq![transaction_in(tx)] + rest;
    assert(txs[0] == transaction_in(tx));
    assert(txs.skip(1) =~= rest);
    let script = mine(project, id, done, txs, current).1->Run_0;
    if let JsonView::Text(sender) = tx.at("callPublicFn"@).at("sender"@) {
        assert(script =~= seq![script[0], script[1], script[2], script[3]]);
    }
}

/// The call under the key `callPrivateFn` of a transaction is made to the function
/// itself: the contract, the function, the arguments and the sender are those that it
/// holds.
pub proof fn law_private_call_in_a_block(
    project: ProjectView,
    id: JsonView,
    done: Seq<ReceiptView>,
    tx: JsonView,
    rest: Seq<TransactionView>,
    current: Seq<char>,
)
    requires
        tx.get("callPublicFn"@) is None,
        tx.get("callPrivateFn"@) is Some,
    ensures
        ({
            let call = tx.at("callPrivateFn"@);
            let contract = call.at("contract"@).text_or_empty();
            let function = call.at("method"@).text_or_empty();
            let args = texts_of(call.at("args"@).items());
            let prepare = SessionOpView::Prepare {
                target: target(contract, project.contracts),
                snippet: local_snippet(function, args),
            };
            let made = SessionOpView::CallPrivate {
                contract: reference(contract, project.contracts),
                function,
                args,
                cost_track: false,
            };
            let step = mine(project, id, done, seq![transaction_in(tx)] + rest, current);
            &&& step.0 == PhaseView::Mining { id, done, rest }
            &&& step.1 == ActionView::Run(
                match call.at("sender"@) {
                    JsonView::Text(sender) => seq![
                        SessionOpView::SetSender(sender),
                        prepare,
                        made,
                        SessionOpView::SetSender(current),
                    ],
                    _ => seq![prepare, made],
                },
            )
        }),
{
    let txs = seq![transaction_in(tx)] + rest;
    assert(txs[0] == transaction_in(tx));
    assert(txs.skip(1) =~= rest);
    let script = mine(project, id, done, txs, current).1->Run_0;
    if let JsonView::Text(sender) = tx.at("callPrivateFn"@).at("sender"@) {
        assert(script =~= seq![script[0], script[1], script[2], script[3]]);
    }
}

/// Whether a transaction has its kind under `type` alone.
pub open spec fn is_typed(tx: JsonView, kind: Seq<char>) -> bool {
    &&& tx.get("callPublicFn"@) is None
    &&& tx.get("callPrivateFn"@) is None
    &&& tx.get("transferSTX"@) is None
    &&& tx.get("deployContract"@) is None
    &&& tx.get("type"@) == Some(JsonView::Text(kind))
}

/// A call whose kind stands under `type` is made as asked too; its function stands under
/// `function`.
pub proof fn law_typed_call_in_a_block(
    project: ProjectView,
    id: JsonView,
    done: Seq<ReceiptView>,
    tx: JsonView,
    rest: Seq<TransactionView>,
    current: Seq<char>,
)
    requires
        is_typed(tx, "callPublicFn"@) || is_typed(tx, "callPrivateFn"@),
    ensures
        ({
            let contract = tx.at("contract"@).text_or_empty();
            let function = tx.at("function"@).text_or_empty();
            let args = texts_of(tx.at("args"@).items());
            let public = tx.at("type"@) == JsonView::Text("callPublicFn"@);
            let snippet = if public {
                call_snippet(reference(contract, project.contracts), function, args)
            } else {
                local_snippet(function, args)
            };
            let prepare = SessionOpView::Prepare {
                target: target(contract, project.contracts),
                snippet,
            };
            let made = if public {
                SessionOpView::Eval { snippet, cost_track: false }
            } else {
                SessionOpView::CallPrivate {
                    contract: reference(contract, project.contracts),
                    function,
                    args,
                    cost_track: false,
                }
            };
            let step = mine(project, id, done, seq![transaction_in(tx)] + rest, current);
            &&& step.0 == PhaseView::Mining { id, done, rest }
            &&& step.1 == ActionView::Run(
                match tx.at("sender"@) {
                    JsonView::Text(sender) => seq![
                        SessionOpView::SetSender(sender),
                        prepare,
                        made,
                        SessionOpView::SetSender(current),
                    ],
                    _ => seq![prepare, made],
                },
            )
        }),
{
    lemma_kind_names();
    let txs = seq![transaction_in(tx)] + rest;
    assert(txs[0] == transaction_in(tx));
    assert(txs.skip(1) =~= rest);
    let script = mine(project, id, done, txs, current).1->Run_0;
    if let JsonView::Text(sender) = tx.at("sender"@) {
        assert(script =~= seq![script[0], script[1], script[2], script[3]]);
    } else {
        assert(script =~= seq![script[0], script[1]]);
    }
}

/// A transfer moves the amount that it holds from its sender to its recipient, and is
/// made as its sender. It stands under `transferSTX`, or is the transaction itself.
pub proof fn law_transfer_in_a_block(
    project: ProjectView,
    id: JsonView,
    done: Seq<ReceiptView>,
    tx: JsonView,
    rest: Seq<TransactionView>,
    current: Seq<char>,
    amount: u64,
    sender: Seq<char>,
    recipient: Seq<char>,
)
    requires
        ({
            let transfer = if is_typed(tx, "transferSTX"@) {
                tx
            } else {
                tx.at("transferSTX"@)
            };
            &&& is_typed(tx, "transferSTX"@) || {
                &&& tx.get("callPublicFn"@) is None
                &&& tx.get("callPrivateFn"@) is None
                &&& tx.get("transferSTX"@) is Some
            }
            &&& transfer.get("amount"@) == Some(JsonView::Unsigned(amount))
            &&& transfer.get("sender"@) == Some(JsonView::Text(sender))
            &&& transfer.get("recipient"@) == Some(JsonView::Text(recipient))
        }),
    ensures
        mine(project, id, done, seq![transaction_in(tx)] + rest, current) == (
            PhaseView::Mining { id, done, rest },
            ActionView::Run(
                seq![
                    SessionOpView::SetSender(sender),
                    SessionOpView::Eval {
                        snippet: "(stx-transfer? u"@ + decimal(amount as nat) + " '"@ + sender
                            + " '"@ + recipient + ")"@,
                        cost_track: false,
                    },
                    SessionOpView::SetSender(current),
                ],
            ),
        ),
{
    lemma_kind_names();
    let txs = seq![transaction_in(tx)] + rest;
    assert(txs[0] == transaction_in(tx));
    assert(txs.skip(1) =~= rest);
    let script = mine(project, id, done, txs, current).1->Run_0;
    assert(script =~= seq![script[0], script[1], script[2]]);
}

/// A transfer that lacks a part of it ends the block: the client is told which is
/// missing, the amount first, then the recipient, then the sender.
pub proof fn law_incomplete_transfer_is_refused(
    project: ProjectView,
    id: JsonView,
    done: Seq<ReceiptView>,
    tx: JsonView,
    rest: Seq<TransactionView>,
    current: Seq<char>,
)
    requires
        tx.get("callPublicFn"@) is None,
        tx.get("callPrivateFn"@) is None,
        tx.get("transferSTX"@) is Some,
    ensures
        ({
            let transfer = tx.at("transferSTX"@);
            let step = mine(project, id, done, seq![transaction_in(tx)] + rest, current);
            let told = |message: Seq<char>|
                step == (
                    PhaseView::Writing { last: false },
                    ActionView::Reply(
                        JsonView::Object(
                            map!["id"@ => id, "error"@ => JsonView::Text(message)],
                        ),
                    ),
                );
            if !(transfer.at("amount"@) is Unsigned) {
                told("transferSTX: missing or invalid amount"@)
            } else if !(transfer.at("recipient"@) is Text) {
                told("transferSTX: missing recipient"@)
            } else if !(transfer.at("sender"@) is Text) {
                told("transferSTX: missing sender"@)
            } else {
                step.1 is Run
            }
        }),
{
    let txs = seq![transaction_in(tx)] + rest;
    assert(txs[0] == transaction_in(tx));
}

/// A deployment, and a transaction of no known kind, ends the block: the client is told.
pub proof fn law_other_transactions_are_refused(
    project: ProjectView,
    id: JsonView,
    done: Seq<ReceiptView>,
    tx: JsonView,
    rest: Seq<TransactionView>,
    current: Seq<char>,
)
    requires
        tx.get("callPublicFn"@) is None,
        tx.get("callPrivateFn"@) is None,
        tx.get("transferSTX"@) is None,
        tx.at("type"@) != JsonView::Text("callPublicFn"@),
        tx.at("type"@) != JsonView::Text("callPrivateFn"@),
        tx.at("type"@) != JsonView::Text("transferSTX"@),
    ensures
        mine(project, id, done, seq![transaction_in(tx)] + rest, current) == (
            PhaseView::Writing { last: false },
            ActionView::Reply(
                JsonView::Object(
                    map![
                        "id"@ => id,
                        "error"@ => JsonView::Text(
                            if tx.get("deployContract"@) is Some || tx.at("type"@)
                                == JsonView::Text("deployContract"@) {
                                "deployContract is not supported in debug mode"@
                            } else {
                                "unknown tx type in mineBlock"@
                            },
                        ),
                    ],
                ),
            ),
        ),
{
    lemma_kind_names();
    let txs = seq![transaction_in(tx)] + rest;
    assert(txs[0] == transaction_in(tx));
}

/// The questions for the heights and for the balances are passed on; a manifest is
/// resolved against the directory of the client; a farewell is answered and is the last
/// reply; a method that there is none of is named.
pub proof fn law_other_requests(project: ProjectView, request: JsonView, current: Seq<char>)
    ensures
        ({
            let id = request.at("id"@);
            let method = request.at("method"@);
            let step = on_request(project, request, current);
            &&& method == JsonView::Text("blockHeight"@) ==> step == (
                PhaseView::Measuring { id },
                ActionView::ReadHeights,
            )
            &&& method == JsonView::Text("getAssetsMap"@) ==> step == (
                PhaseView::Balancing { id },
                ActionView::ReadAssets,
            )
            &&& method == JsonView::Text("initSession"@) ==> step.1
                == ActionView::ResolveManifest {
                base: request.at("cwd"@).as_text(),
                path: request.at("manifestPath"@).text_or_empty(),
            }
            &&& method == JsonView::Text("disconnect"@) ==> step == (
                PhaseView::Writing { last: true },
                ActionView::Reply(
                    JsonView::Object(map!["id"@ => id, "result"@ => JsonView::Null]),
                ),
            )
            &&& !(method is Text) || method->Text_0.len() == 0 || method->Text_0.len() > 14
                ==> step == (
                PhaseView::Writing { last: false },
                ActionView::Reply(
                    JsonView::Object(
                        map![
                            "id"@ => id,
                            "error"@ => JsonView::Text(
                                "unknown method: "@ + method.text_or_empty(),
                            ),
                        ],
                    ),
                ),
            )
        }),
{
    lemma_method_names();
}

/// A method that is none of those that there are is named, and nothing is run for it.
pub proof fn law_unknown_method_is_named(
    project: ProjectView,
    request: JsonView,
    method: Seq<char>,
    current: Seq<char>,
)
    requires
        request.get("method"@) == Some(JsonView::Text(method)),
        method != "disconnect"@ && method != "eval"@ && method != "call"@,
        method != "callPublicFn"@ && method != "callReadOnlyFn"@,
        method != "getAccounts"@ && method != "blockHeight"@ && method != "getAssetsMap"@,
        method != "mineBlock"@ && method != "initSession"@,
    ensures
        on_request(project, request, current) == (
            PhaseView::Writing { last: false },
            ActionView::Reply(
                JsonView::Object(
                    map![
                        "id"@ => request.at("id"@),
                        "error"@ => JsonView::Text("unknown method: "@ + method),
                    ],
                ),
            ),
        ),
{
}

/// The value of an evaluation as it is reported: printed, and in hexadecimal. A contract
/// without a value is reported as `true`, and printed as nothing.
pub open spec fn is_value(result: EvaluationResult, text: Seq<char>, hex: Seq<char>) -> bool {
    match result {
        EvaluationResult::Snippet(value) => text == value.text@ && hex == value.hex@,
        EvaluationResult::Contract { value: Some(value), .. } => text == value.text@ && hex
            == value.hex@,
        EvaluationResult::Contract { value: None, .. } => text.len() == 0 && hex == "0x03"@,
    }
}

/// An evaluation is answered with its value, printed and in hexadecimal; a failed one
/// with the messages of all diagnostics.
pub proof fn law_value_is_reported(
    project: ProjectView,
    id: JsonView,
    outcome: Outcome,
    current: Seq<char>,
)
    ensures
        ({
            let step = next(
                project,
                PhaseView::Valuing { id },
                Event::Evaluated(outcome),
                current,
            );
            &&& step.0 == (PhaseView::Writing { last: false })
            &&& step.1 matches ActionView::Reply(reply) && match outcome {
                Ok(execution) => {
                    let result = reply.at("result"@);
                    &&& reply == JsonView::Object(map!["id"@ => id, "result"@ => result])
                    &&& result == JsonView::Object(
                        map!["value"@ => result.at("value"@), "hex"@ => result.at("hex"@)],
                    )
                    &&& result.at("value"@) is Text && result.at("hex"@) is Text
                    &&& is_value(
                        execution.result,
                        result.at("value"@)->Text_0,
                        result.at("hex"@)->Text_0,
                    )
                },
                Err(messages) => reply == JsonView::Object(
                    map![
                        "id"@ => id,
                        "error"@ => JsonView::Text(joined(texts(messages@), "; "@)),
                    ],
                ),
            }
        }),
{
    lemma_reply_keys();
}

/// Whether a receipt is that of an execution: the value in hexadecimal, and the JSON
/// text of the array of the events that it emitted.
pub open spec fn is_receipt(receipt: ReceiptView, execution: ExecutionResult) -> bool {
    &&& receipt.events == json_text(JsonView::Array(items_view(execution.events@)))
    &&& match execution.result {
        EvaluationResult::Snippet(value) => receipt.result == value.hex@,
        EvaluationResult::Contract { value: Some(value), .. } => receipt.result == value.hex@,
        EvaluationResult::Contract { value: None, .. } => receipt.result == "0x03"@,
    }
}

/// A call that reports a receipt is answered with the value in hexadecimal and the
/// events, a failed one with the messages of all diagnostics.
pub proof fn law_receipt_is_reported(
    project: ProjectView,
    id: JsonView,
    outcome: Outcome,
    current: Seq<char>,
)
    ensures
        ({
            let step = next(
                project,
                PhaseView::Receipting { id },
                Event::Evaluated(outcome),
                current,
            );
            &&& step.0 == (PhaseView::Writing { last: false })
            &&& step.1 matches ActionView::Reply(reply) && match outcome {
                Ok(execution) => {
                    let receipt = receipt_of(execution);
                    &&& is_receipt(receipt, execution)
                    &&& reply == JsonView::Object(
                        map![
                            "id"@ => id,
                            "result"@ => JsonView::Object(
                                map![
                                    "result"@ => JsonView::Text(receipt.result),
                                    "events"@ => JsonView::Text(receipt.events),
                                ],
                            ),
                        ],
                    )
                },
                Err(messages) => reply == JsonView::Object(
                    map![
                        "id"@ => id,
                        "error"@ => JsonView::Text(joined(texts(messages@), "; "@)),
                    ],
                ),
            }
        }),
{
}

/// A transaction of a block that succeeds is kept as the last receipt, and the block
/// goes on; one that fails ends the block with its messages.
pub proof fn law_block_goes_on_with_the_receipt(
    project: ProjectView,
    id: JsonView,
    done: Seq<ReceiptView>,
    rest: Seq<TransactionView>,
    outcome: Outcome,
    current: Seq<char>,
)
    ensures
        ({
            let step = next(
                project,
                PhaseView::Mining { id, done, rest },
                Event::Evaluated(outcome),
                current,
            );
            match outcome {
                Ok(execution) => {
                    &&& is_receipt(receipt_of(execution), execution)
                    &&& step == mine(
                        project,
                        id,
                        done.push(receipt_of(execution)),
                        rest,
                        current,
                    )
                },
                Err(messages) => step == (
                    PhaseView::Writing { last: false },
                    ActionView::Reply(
                        JsonView::Object(
                            map![
                                "id"@ => id,
                                "error"@ => JsonView::Text(joined(texts(messages@), "; "@)),
                            ],
                        ),
                    ),
                ),
            }
        }),
{
}

/// A block without transactions left is closed by reading the heights, and is answered
/// with them and with every receipt, in order, under `txs` and under `results`.
pub proof fn law_mined_block_is_reported(
    project: ProjectView,
    id: JsonView,
    done: Seq<ReceiptView>,
    stacks: u32,
    burn: u32,
    current: Seq<char>,
)
    ensures
        mine(project, id, done, Seq::empty(), current) == (
            PhaseView::Sealing { id, done },
            ActionView::ReadHeights,
        ),
        ({
            let step = next(
                project,
                PhaseView::Sealing { id, done },
                Event::Heights { stacks, burn },
                current,
            );
            &&& step.0 == (PhaseView::Writing { last: false })
            &&& step.1 matches ActionView::Reply(reply) && {
                let result = reply.at("result"@);
                let txs = result.at("txs"@).items();
                &&& reply.get("id"@) == Some(id)
                &&& reply.get("error"@) is None
                &&& result.get("stacksHeight"@) == Some(JsonView::Unsigned(stacks as u64))
                &&& result.get("burnHeight"@) == Some(JsonView::Unsigned(burn as u64))
                &&& result.at("txs"@) is Array
                &&& result.at("results"@) == result.at("txs"@)
                &&& txs.len() == done.len()
                &&& forall|i: int|
                    0 <= i < done.len() ==> #[trigger] txs[i] == JsonView::Object(
                        map![
                            "result"@ => JsonView::Text(done[i].result),
                            "events"@ => JsonView::Text(done[i].events),
                        ],
                    )
            }
        }),
{
    lemma_reply_keys();
}

/// The heights are reported as they are.
pub proof fn law_heights_are_reported(
    project: ProjectView,
    id: JsonView,
    stacks: u32,
    burn: u32,
    current: Seq<char>,
)
    ensures
        next(
            project,
            PhaseView::Measuring { id },
            Event::Heights { stacks, burn },
            current,
        ) == (
            PhaseView::Writing { last: false },
            ActionView::Reply(
                JsonView::Object(
                    map![
                        "id"@ => id,
                        "result"@ => JsonView::Object(
                            map![
                                "stacksHeight"@ => JsonView::Unsigned(stacks as u64),
                                "burnHeight"@ => JsonView::Unsigned(burn as u64),
                            ],
                        ),
                    ],
                ),
            ),
        ),
{
}

/// Every account is reported under its name with its address, the last of two of one
/// name; no other name is. The deployer is the account of that name, and empty where
/// there is none.
pub proof fn law_accounts_are_reported(
    project: ProjectView,
    request: JsonView,
    name: Seq<char>,
    current: Seq<char>,
)
    requires
        request.get("method"@) == Some(JsonView::Text("getAccounts"@)),
    ensures
        ({
            let step = on_request(project, request, current);
            let wallets = project.wallets;
            &&& step.0 == (PhaseView::Writing { last: false })
            &&& step.1 matches ActionView::Reply(reply) && {
                let result = reply.at("result"@);
                let accounts = result.at("accounts"@);
                &&& reply.get("id"@) == Some(request.at("id"@))
                &&& reply.get("error"@) is None
                &&& forall|k: int|
                    0 <= k < wallets.len() && is_last(wallets, k) ==> accounts.get(
                        (#[trigger] wallets[k]).name,
                    ) == Some(JsonView::Text(wallets[k].address))
                &&& (forall|k: int| 0 <= k < wallets.len() ==> (#[trigger] wallets[k]).name != name)
                    ==> accounts.get(name) is None
                &&& accounts.get("deployer"@) is Some ==> result.get("deployer"@)
                    == accounts.get("deployer"@)
                &&& accounts.get("deployer"@) is None ==> result.get("deployer"@) == Some(
                    JsonView::Text(Seq::empty()),
                )
            }
        }),
{
    lemma_method_names();
    lemma_reply_keys();
    let wallets = project.wallets;
    assert forall|k: int| 0 <= k < wallets.len() && is_last(
        wallets,
        k,
    ) implies accounts_of(wallets).contains_pair(
        (#[trigger] wallets[k]).name,
        wallets[k].address,
    ) by {
        lemma_account(wallets, k);
    }
    if forall|k: int| 0 <= k < wallets.len() ==> (#[trigger] wallets[k]).name != name {
        lemma_no_account(wallets, name);
    }
}

/// Whether no account behind the one at `k` has its name.
pub open spec fn is_last(wallets: Seq<WalletView>, k: int) -> bool {
    forall|j: int| k < j < wallets.len() ==> (#[trigger] wallets[j]).name != wallets[k].name
}

proof fn lemma_account(wallets: Seq<WalletView>, k: int)
    requires
        0 <= k < wallets.len(),
        is_last(wallets, k),
    ensures
        accounts_of(wallets).contains_pair(wallets[k].name, wallets[k].address),
    decreases wallets.len(),
{
    if k < wallets.len() - 1 {
        let rest = wallets.drop_last();
        assert forall|j: int| k < j < rest.len() implies (#[trigger] rest[j]).name
            != rest[k].name by {
            assert(rest[j] == wallets[j]);
        }
        lemma_account(rest, k);
        assert(wallets[wallets.len() - 1].name != wallets[k].name);
    }
}

proof fn lemma_no_account(wallets: Seq<WalletView>, name: Seq<char>)
    requires
        forall|k: int| 0 <= k < wallets.len() ==> (#[trigger] wallets[k]).name != name,
    ensures
        !accounts_of(wallets).contains_key(name),
    decreases wallets.len(),
{
    if wallets.len() > 0 {
        let rest = wallets.drop_last();
        assert forall|k: int| 0 <= k < rest.len() implies (#[trigger] rest[k]).name != name by {
            assert(rest[k] == wallets[k]);
        }
        assert(wallets[wallets.len() - 1].name != name);
        lemma_no_account(rest, name);
    }
}

/// Every balance is reported under its asset and its account, with its amount in digits;
/// the last of two of one name counts. An asset or an account that there is none of is
/// not reported.
pub proof fn law_balances_are_reported(
    project: ProjectView,
    id: JsonView,
    assets: Vec<(String, Vec<(String, u128)>)>,
    i: int,
    j: int,
    name: Seq<char>,
    current: Seq<char>,
)
    requires
        0 <= i < assets@.len(),
        forall|k: int| i < k < assets@.len() ==> (#[trigger] assets@[k]).0@ != assets@[i].0@,
        0 <= j < assets@[i].1@.len(),
        forall|k: int|
            j < k < assets@[i].1@.len() ==> (#[trigger] assets@[i].1@[k]).0@
                != assets@[i].1@[j].0@,
    ensures
        ({
            let step = next(
                project,
                PhaseView::Balancing { id },
                Event::Assets(assets),
                current,
            );
            &&& step.0 == (PhaseView::Writing { last: false })
            &&& step.1 matches ActionView::Reply(reply) && {
                let reported = reply.at("result"@).at("assets"@);
                let balances = reported.at(assets@[i].0@);
                &&& reply.get("id"@) == Some(id)
                &&& reply.get("error"@) is None
                &&& balances.get(assets@[i].1@[j].0@) == Some(
                    JsonView::Text(decimal(assets@[i].1@[j].1 as nat)),
                )
                &&& (forall|k: int| 0 <= k < assets@.len() ==> (#[trigger] assets@[k]).0@ != name)
                    ==> reported.get(name) is None
                &&& (forall|k: int|
                    0 <= k < assets@[i].1@.len() ==> (#[trigger] assets@[i].1@[k]).0@ != name)
                    ==> balances.get(name) is None
            }
        }),
{
    lemma_reply_keys();
    lemma_asset(assets@, i);
    lemma_balance(assets@[i].1@, j);
    if forall|k: int| 0 <= k < assets@.len() ==> (#[trigger] assets@[k]).0@ != name {
        lemma_no_asset(assets@, name);
    }
    if forall|k: int| 0 <= k < assets@[i].1@.len() ==> (#[trigger] assets@[i].1@[k]).0@ != name {
        lemma_no_balance(assets@[i].1@, name);
    }
}

proof fn lemma_asset(assets: Seq<(String, Vec<(String, u128)>)>, i: int)
    requires
        0 <= i < assets.len(),
        forall|k: int| i < k < assets.len() ==> (#[trigger] assets[k]).0@ != assets[i].0@,
    ensures
        assets_map(assets).contains_pair(assets[i].0@, balances_map(assets[i].1@)),
    decreases assets.len(),
{
    if i < assets.len() - 1 {
        let rest = assets.drop_last();
        assert forall|k: int| i < k < rest.len() implies (#[trigger] rest[k]).0@
            != rest[i].0@ by {
            assert(rest[k] == assets[k]);
        }
        lemma_asset(rest, i);
        assert(assets[assets.len() - 1].0@ != assets[i].0@);
    }
}

proof fn lemma_no_asset(assets: Seq<(String, Vec<(String, u128)>)>, name: Seq<char>)
    requires
        forall|k: int| 0 <= k < assets.len() ==> (#[trigger] assets[k]).0@ != name,
    ensures
        !assets_map(assets).contains_key(name),
    decreases assets.len(),
{
    if assets.len() > 0 {
        let rest = assets.drop_last();
        assert forall|k: int| 0 <= k < rest.len() implies (#[trigger] rest[k]).0@ != name by {
            assert(rest[k] == assets[k]);
        }
        assert(assets[assets.len() - 1].0@ != name);
        lemma_no_asset(rest, name);
    }
}

proof fn lemma_balance(balances: Seq<(String, u128)>, j: int)
    requires
        0 <= j < balances.len(),
        forall|k: int| j < k < balances.len() ==> (#[trigger] balances[k]).0@ != balances[j].0@,
    ensures
        balances_map(balances).contains_pair(balances[j].0@, balances[j].1),
    decreases balances.len(),
{
    if j < balances.len() - 1 {
        let rest = balances.drop_last();
        assert forall|k: int| j < k < rest.len() implies (#[trigger] rest[k]).0@
            != rest[j].0@ by {
            assert(rest[k] == balances[k]);
        }
        lemma_balance(rest, j);
        assert(balances[balances.len() - 1].0@ != balances[j].0@);
    }
}

proof fn lemma_no_balance(balances: Seq<(String, u128)>, name: Seq<char>)
    requires
        forall|k: int| 0 <= k < balances.len() ==> (#[trigger] balances[k]).0@ != name,
    ensures
        !balances_map(balances).contains_key(name),
    decreases balances.len(),
{
    if balances.len() > 0 {
        let rest = balances.drop_last();
        assert forall|k: int| 0 <= k < rest.len() implies (#[trigger] rest[k]).0@ != name by {
            assert(rest[k] == balances[k]);
        }
        assert(balances[balances.len() - 1].0@ != name);
        lemma_no_balance(rest, name);
    }
}

/// A server that cannot start says over what, and on which port.
pub proof fn law_failed_start_says_why(
    project: ProjectView,
    sdk_port: u16,
    dap_port: Option<u16>,
    editor_port: u16,
    problem: String,
    current: Seq<char>,
)
    ensures
        next(
            project,
            PhaseView::Binding { sdk_port, dap_port },
            Event::BindFailed(problem),
            current,
        ).1 == ActionView::Stop(
            Some("failed to bind SDK port "@ + decimal(sdk_port as nat) + ": "@ + problem@),
        ),
        next(
            project,
            PhaseView::Binding { sdk_port, dap_port },
            Event::AddressFailed(problem),
            current,
        ).1 == ActionView::Stop(Some("failed to read SDK listener address: "@ + problem@)),
        next(
            project,
            PhaseView::BindingEditor { sdk_port, editor_port },
            Event::BindFailed(problem),
            current,
        ).1 == ActionView::Stop(
            Some("failed to bind DAP port "@ + decimal(editor_port as nat) + ": "@ + problem@),
        ),
        forall|debugger: Debugger|
            (#[trigger] next(
                project,
                PhaseView::Accepting(debugger),
                Event::AcceptFailed(problem),
                current,
            )).1 == ActionView::Stop(Some("SDK accept error: "@ + problem@)),
{
}

/// In each phase the server takes in everything that can come of what it asked for.
pub proof fn law_what_can_come_is_taken_in(
    id: JsonView,
    done: Seq<ReceiptView>,
    rest: Seq<TransactionView>,
    event: Event,
    last: bool,
)
    ensures
        event is Line || event is Closed ==> fits(PhaseView::Reading, event),
        event is Evaluated ==> fits(PhaseView::Valuing { id }, event) && fits(
            PhaseView::Receipting { id },
            event,
        ) && fits(PhaseView::Mining { id, done, rest }, event),
        event is Heights ==> fits(PhaseView::Measuring { id }, event) && fits(
            PhaseView::Sealing { id, done },
            event,
        ),
        event is Assets ==> fits(PhaseView::Balancing { id }, event),
        event is Written || event is WriteFailed ==> fits(PhaseView::Writing { last }, event),
        event is Joined ==> fits(PhaseView::Joining, event),
        event is Accepted || event is AcceptFailed ==> fits(
            PhaseView::Accepting(Debugger::Pending),
            event,
        ) && fits(PhaseView::Accepting(Debugger::Absent), event) && fits(
            PhaseView::Accepting(Debugger::Ready),
            event,
        ),
        !fits(PhaseView::Stopped, event),
{
}

/// An action hands on exactly what is wanted: the operations of a script one for one,
/// and the texts as they are. What is written sends one reply, as one line.
pub proof fn law_actions_hand_on_what_is_wanted(action: Action, wanted: ActionView)
    requires
        action.does(wanted),
    ensures
        (match action {
            Action::Run(script) => wanted matches ActionView::Run(list) && list.len()
                == script@.len() && forall|i: int|
                0 <= i < list.len() ==> #[trigger] list[i] == script@[i]@,
            Action::Announce(line) => wanted == ActionView::Announce(line@),
            Action::LookUpFunction { contract, function } => wanted
                == (ActionView::LookUpFunction { contract: contract@, function: function@ }),
            Action::ResolveManifest { base, path } => wanted matches ActionView::ResolveManifest {
                base: directory,
                path: wanted_path,
            } && wanted_path == path@ && directory is Some == base is Some && (base is Some
                ==> directory->0 == base->0@),
            Action::BindClients(port) => wanted == ActionView::BindClients(port),
            Action::BindEditor(port) => wanted == ActionView::BindEditor(port),
            Action::Write(text) => wanted matches ActionView::Reply(reply) && text@ == json_text(
                reply,
            ) + "\n"@ && !text@.drop_last().contains('\n'),
            Action::AcceptClient => wanted is AcceptClient,
            Action::JoinDebugger => wanted is JoinDebugger,
            Action::UseNoOpDebugger => wanted is UseNoOpDebugger,
            Action::ReadLine => wanted is ReadLine,
            Action::AdvanceChainTip => wanted is AdvanceChainTip,
            Action::ReadHeights => wanted is ReadHeights,
            Action::ReadAssets => wanted is ReadAssets,
            Action::Stop(problem) => wanted matches ActionView::Stop(told) && told is Some
                == problem is Some && (problem is Some ==> told->0 == problem->0@),
        }),
{
}

/// An operation stands for what its texts say.
pub proof fn law_operations_are_taken_as_they_are(op: SessionOp)
    ensures
        (match op {
            SessionOp::SetSender(sender) => op@ == SessionOpView::SetSender(sender@),
            SessionOp::Eval { snippet, cost_track } => op@ == (SessionOpView::Eval {
                snippet: snippet@,
                cost_track,
            }),
            SessionOp::CallPrivate { contract, function, args, cost_track } => op@ == (
            SessionOpView::CallPrivate {
                contract: contract@,
                function: function@,
                args: args@.map_values(|arg: String| arg@),
                cost_track,
            }),
            SessionOp::Prepare { target, snippet } => op@ == (SessionOpView::Prepare {
                target: target@,
                snippet: snippet@,
            }),
            SessionOp::Deploy { deployment, cost_track } => op@ matches SessionOpView::Deploy {
                deployment: view,
                cost_track: with_cost,
            } && with_cost == cost_track && view.deployer == deployment.deployer@ && view.name
                == deployment.name@ && view.source == deployment.source@ && view.epoch
                == deployment.epoch && view.clarity_version == deployment.clarity_version
                && view.skip_analysis == deployment.skip_analysis,
        }),
{
}

/// A request on a line is acted on, whatever white space stands around it.
pub proof fn law_request_on_a_line_is_acted_on(
    project: ProjectView,
    line: String,
    request: JsonView,
    current: Seq<char>,
)
    requires
        trimmed(line@).len() > 0,
        parsed_json(trimmed(line@)) == Some(request),
    ensures
        fits(PhaseView::Reading, Event::Line(line)),
        next(project, PhaseView::Reading, Event::Line(line), current) == on_request(
            project,
            request,
            current,
        ),
{
}

/// The turns of the server that no request decides: where it starts, whom it waits for,
/// and what it does between replies.
pub proof fn law_turns_of_the_server(
    project: ProjectView,
    sdk_port: u16,
    dap_port: Option<u16>,
    current: Seq<char>,
)
    ensures
        start(sdk_port, dap_port) == (
            PhaseView::Binding { sdk_port, dap_port },
            ActionView::BindClients(sdk_port),
        ),
        next(project, PhaseView::Accepting(Debugger::Pending), Event::Accepted, current) == (
            PhaseView::Joining,
            ActionView::JoinDebugger,
        ),
        next(project, PhaseView::Accepting(Debugger::Absent), Event::Accepted, current) == (
            PhaseView::Fitting,
            ActionView::UseNoOpDebugger,
        ),
        next(project, PhaseView::Accepting(Debugger::Ready), Event::Accepted, current) == (
            PhaseView::Reading,
            ActionView::ReadLine,
        ),
        next(project, PhaseView::Joining, Event::Joined(Handshake::Attached), current) == (
            PhaseView::Reading,
            ActionView::ReadLine,
        ),
        next(project, PhaseView::Joining, Event::Joined(Handshake::Failed), current) == (
            PhaseView::Fitting,
            ActionView::UseNoOpDebugger,
        ),
        next(project, PhaseView::Joining, Event::Joined(Handshake::Panicked), current) == (
            PhaseView::Stopped,
            ActionView::Stop(Some("DAP handshake thread panicked"@)),
        ),
        next(project, PhaseView::Fitting, Event::Done, current) == (
            PhaseView::Reading,
            ActionView::ReadLine,
        ),
        next(project, PhaseView::Reading, Event::Closed, current) == (
            PhaseView::Accepting(Debugger::Ready),
            ActionView::AcceptClient,
        ),
        next(project, PhaseView::Writing { last: false }, Event::Written, current) == (
            PhaseView::Reading,
            ActionView::ReadLine,
        ),
        next(project, PhaseView::Writing { last: false }, Event::WriteFailed, current) == (
            PhaseView::Accepting(Debugger::Ready),
            ActionView::AcceptClient,
        ),
        next(project, PhaseView::Writing { last: true }, Event::Written, current) == (
            PhaseView::Stopped,
            ActionView::Stop(None),
        ),
        next(project, PhaseView::Writing { last: true }, Event::WriteFailed, current) == (
            PhaseView::Stopped,
            ActionView::Stop(None),
        ),
        forall|debugger: Debugger| #[trigger]
            next(project, PhaseView::Announcing(debugger), Event::Done, current) == (
                PhaseView::Accepting(debugger),
                ActionView::AcceptClient,
            ),
{
}

/// The announcement names the port in digits.
pub proof fn law_announcement_names_the_port(sdk_port: u16)
    ensures
        exists|digits: Seq<char>|
            {
                &&& is_digits(digits)
                &&& digits_value(digits) == sdk_port
                &&& ready_text(sdk_port) == #[trigger] ("CLARINET_DAP_SDK_READY:"@ + digits)
            },
{
    law_decimal_value(sdk_port as nat);
    assert(ready_text(sdk_port) == "CLARINET_DAP_SDK_READY:"@ + decimal(sdk_port as nat));
}

/// The manifest that a client names is its server's exactly where it resolves to it.
pub proof fn law_session_answer(
    project: ProjectView,
    id: JsonView,
    path: Seq<char>,
    resolved: Option<String>,
    current: Seq<char>,
)
    ensures
        next(
            project,
            PhaseView::Resolving { id, path },
            Event::Manifest(resolved),
            current,
        ) == (
            PhaseView::Writing { last: false },
            ActionView::Reply(
                if resolved is Some && resolved->0@ == project.manifest {
                    JsonView::Object(map!["id"@ => id, "result"@ => JsonView::Null])
                } else {
                    JsonView::Object(
                        map![
                            "id"@ => id,
                            "error"@ => JsonView::Text(
                                "initSession: not the manifest of this server: "@ + path,
                            ),
                        ],
                    )
                },
            ),
        ),
{
}

/// A client that reads what is sent finds the reply, where the identifier of its request
/// is written in full: at once, and after the server has worked on the request.
pub proof fn law_clients_find_their_replies(
    action: Action,
    reply: JsonView,
    id: JsonView,
    line: String,
    event: Event,
    text: String,
)
    ensures
        action.does(ActionView::Reply(reply)) && plain(reply, 127) ==> reads_back(
            action,
            ActionView::Reply(reply),
        ),
        reads_back(Action::Write(text), ActionView::Reply(reply)) <==> parsed_json(
            text@.drop_last(),
        ) == Some(reply),
        parsed_json(trimmed(line@)) is Some && plain(
            (parsed_json(trimmed(line@))->0).at("id"@),
            126,
        ) ==> plain_ids(PhaseView::Reading, Event::Line(line)),
        plain(id, 126) && !(event is Line) ==> plain_ids(PhaseView::Valuing { id }, event)
            && plain_ids(PhaseView::Receipting { id }, event) && plain_ids(
            PhaseView::Measuring { id },
            event,
        ) && plain_ids(PhaseView::Balancing { id }, event),
{
}

/// The phase that the server is in stands for what it holds.
pub proof fn law_phases_are_taken_as_they_are(phase: Phase)
    ensures
        (match phase {
            Phase::Valuing { id } => phase@ == (PhaseView::Valuing { id: id@ }),
            Phase::Receipting { id } => phase@ == (PhaseView::Receipting { id: id@ }),
            Phase::Checking { id, call } => phase@ == (PhaseView::Checking {
                id: id@,
                call: call@,
            }),
            Phase::Tipping { id, txs } => phase@ matches PhaseView::Tipping { id: kept, txs: list }
                && kept == id@ && list.len() == txs@.len() && forall|i: int|
                0 <= i < list.len() ==> #[trigger] list[i] == txs@[i]@,
            Phase::Mining { id, done, rest } => phase@ matches PhaseView::Mining {
                id: kept,
                done: receipts,
                rest: list,
            } && kept == id@ && list.len() == rest@.len() && receipts.len() == done@.len() && (
            forall|i: int| 0 <= i < list.len() ==> #[trigger] list[i] == rest@[i]@) && forall|i:
                int|
                0 <= i < receipts.len() ==> #[trigger] receipts[i] == done@[i]@,
            Phase::Sealing { id, done } => phase@ matches PhaseView::Sealing {
                id: kept,
                done: receipts,
            } && kept == id@ && receipts.len() == done@.len() && forall|i: int|
                0 <= i < receipts.len() ==> #[trigger] receipts[i] == done@[i]@,
            Phase::Measuring { id } => phase@ == (PhaseView::Measuring { id: id@ }),
            Phase::Balancing { id } => phase@ == (PhaseView::Balancing { id: id@ }),
            Phase::Resolving { id, path } => phase@ == (PhaseView::Resolving {
                id: id@,
                path: path@,
            }),
            Phase::Writing { last } => phase@ == (PhaseView::Writing { last }),
            _ => true,
        }),
{
}

/// A transaction, a receipt and a project stand for what they hold.
pub proof fn law_data_is_taken_as_it_is(tx: Transaction, receipt: Receipt, project: Project)
    ensures
        (match tx {
            Transaction::CallPublic(call) => tx@ == TransactionView::CallPublic(call@),
            Transaction::CallPrivate(call) => tx@ == TransactionView::CallPrivate(call@),
            Transaction::Transfer { amount, sender, recipient } => tx@ == (
            TransactionView::Transfer { amount, sender: sender@, recipient: recipient@ }),
            Transaction::Rejected(reason) => tx@ == TransactionView::Rejected(reason@),
        }),
        receipt@.result == receipt.result@,
        receipt@.events == receipt.events@,
        project@.manifest == project.manifest@,
        project@.contracts == ids(project.contracts@),
        project@.wallets.len() == project.wallets@.len(),
        forall|i: int|
            0 <= i < project.wallets@.len() ==> (#[trigger] project@.wallets[i]).name
                == project.wallets@[i].name@ && project@.wallets[i].address
                == project.wallets@[i].address@,
{
}

/// The server starts, and takes each step, as its turns say, and stays that of its
/// project; it expects every event that fits.
pub proof fn law_server_takes_its_turns(
    project: Project,
    sdk_port: u16,
    dap_port: Option<u16>,
    started: (DapServer, Action),
    server: DapServer,
    event: Event,
    current: &str,
    stepped: (DapServer, Action),
)
    requires
        fits(server.phase@, event),
        call_ensures(DapServer::new, (project, sdk_port, dap_port), started),
        call_ensures(DapServer::step, (server, event, current), stepped),
    ensures
        call_ensures(DapServer::expects, (&server, &event), false) ==> false,
        started.0.project == project,
        started.0.phase@ == (PhaseView::Binding { sdk_port, dap_port }),
        started.1 == Action::BindClients(sdk_port),
        stepped.0.project == server.project,
        ({
            let turn = next(server.project@, server.phase@, event, current@);
            &&& stepped.0.phase@ == turn.0
            &&& stepped.1.does(turn.1)
            &&& plain_ids(server.phase@, event) ==> reads_back(stepped.1, turn.1)
        }),
{
}

/// A reply is written as its JSON text and the end of the line, and a receipt as the
/// value in hexadecimal and the JSON text of the events.
pub proof fn law_replies_are_written(
    reply: Json,
    line: String,
    outcome: Outcome,
    receipt: Result<Receipt, String>,
)
    requires
        call_ensures(write_response, (&reply,), line),
        call_ensures(eval_to_tx_result, (outcome,), receipt),
    ensures
        line@ == json_text(reply@) + "\n"@,
        !line@.drop_last().contains('\n'),
        plain(reply@, 127) ==> parsed_json(line@.drop_last()) == Some(reply@),
        receipt is Ok <==> outcome is Ok,
        receipt is Ok ==> is_receipt(receipt->Ok_0@, outcome->Ok_0),
        receipt is Ok && (outcome->Ok_0).events@.len() == 0 ==> (receipt->Ok_0).events@ == "[]"@,
        receipt is Err ==> receipt->Err_0@ == joined(texts((outcome->Err_0)@), "; "@),
{
}

} // verus!
