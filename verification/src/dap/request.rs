//! What a client asks for: the requests, and the transactions of a block.

use crate::contracts::{ContractCall, ContractCallView};
use crate::json::{items_view, json_view, lemma_items_view, texts_of, Json, JsonView};
use crate::text::{opt_text, same_text};
use vstd::prelude::*;

verus! {

/// One transaction of a block.
#[derive(Debug, PartialEq)]
pub enum Transaction {
    CallPublic(ContractCall),
    CallPrivate(ContractCall),
    Transfer { amount: u64, sender: String, recipient: String },
    /// It cannot be run, for the reason given.
    Rejected(String),
}

pub enum TransactionView {
    CallPublic(ContractCallView),
    CallPrivate(ContractCallView),
    Transfer { amount: u64, sender: Seq<char>, recipient: Seq<char> },
    Rejected(Seq<char>),
}

impl View for Transaction {
    type V = TransactionView;

    open spec fn view(&self) -> TransactionView {
        match self {
            Transaction::CallPublic(call) => TransactionView::CallPublic(call@),
            Transaction::CallPrivate(call) => TransactionView::CallPrivate(call@),
            Transaction::Transfer { amount, sender, recipient } => TransactionView::Transfer {
                amount: *amount,
                sender: sender@,
                recipient: recipient@,
            },
            Transaction::Rejected(reason) => TransactionView::Rejected(reason@),
        }
    }
}

/// The views of a list of transactions.
pub open spec fn transactions(list: Seq<Transaction>) -> Seq<TransactionView> {
    list.map_values(|tx: Transaction| tx@)
}

/// A request.
#[derive(Debug, PartialEq)]
pub enum Command {
    /// Ends the server.
    Disconnect,
    /// Evaluates a snippet.
    Eval(String),
    /// Calls a function and reports its value.
    Call(ContractCall),
    /// Calls a function and reports its value and the events it emitted.
    CallPublic(ContractCall),
    /// The same, for a function that changes nothing.
    CallReadOnly(ContractCall),
    GetAccounts,
    BlockHeight,
    GetAssetsMap,
    /// Advances the chain by one block and runs transactions in it.
    MineBlock(Vec<Transaction>),
    /// Asks for a session on a manifest, given relative to the client's directory.
    InitSession { cwd: Option<String>, manifest: String },
    /// The name of a method that is none of these.
    Unknown(String),
}

pub enum CommandView {
    Disconnect,
    Eval(Seq<char>),
    Call(ContractCallView),
    CallPublic(ContractCallView),
    CallReadOnly(ContractCallView),
    GetAccounts,
    BlockHeight,
    GetAssetsMap,
    MineBlock(Seq<TransactionView>),
    InitSession { cwd: Option<Seq<char>>, manifest: Seq<char> },
    Unknown(Seq<char>),
}

impl View for Command {
    type V = CommandView;

    open spec fn view(&self) -> CommandView {
        match self {
            Command::Disconnect => CommandView::Disconnect,
            Command::Eval(snippet) => CommandView::Eval(snippet@),
            Command::Call(call) => CommandView::Call(call@),
            Command::CallPublic(call) => CommandView::CallPublic(call@),
            Command::CallReadOnly(call) => CommandView::CallReadOnly(call@),
            Command::GetAccounts => CommandView::GetAccounts,
            Command::BlockHeight => CommandView::BlockHeight,
            Command::GetAssetsMap => CommandView::GetAssetsMap,
            Command::MineBlock(txs) => CommandView::MineBlock(transactions(txs@)),
            Command::InitSession { cwd, manifest } => CommandView::InitSession {
                cwd: opt_text(*cwd),
                manifest: manifest@,
            },
            Command::Unknown(method) => CommandView::Unknown(method@),
        }
    }
}

/// The call that a JSON object describes. The name of the function stands under
/// `function_key`; what is missing or no text is empty.
pub open spec fn call_in(json: JsonView, function_key: Seq<char>) -> ContractCallView {
    ContractCallView {
        contract: json.at("contract"@).text_or_empty(),
        function: json.at(function_key).text_or_empty(),
        sender: json.at("sender"@).as_text(),
        args: texts_of(json.at("args"@).items()),
    }
}

/// The transfer that a JSON object describes: amount, recipient and sender are all
/// needed, and the first that is missing is named.
pub open spec fn transfer_in(json: JsonView) -> TransactionView {
    match json.at("amount"@).as_u64() {
        None => TransactionView::Rejected("transferSTX: missing or invalid amount"@),
        Some(amount) => match json.at("recipient"@).as_text() {
            None => TransactionView::Rejected("transferSTX: missing recipient"@),
            Some(recipient) => match json.at("sender"@).as_text() {
                None => TransactionView::Rejected("transferSTX: missing sender"@),
                Some(sender) => TransactionView::Transfer { amount, sender, recipient },
            },
        },
    }
}

/// The transaction that a JSON object describes: under the key that names its kind,
/// or with its kind under `type`.
pub open spec fn transaction_in(tx: JsonView) -> TransactionView {
    let kind = tx.at("type"@).as_text();
    if tx.get("callPublicFn"@) is Some {
        TransactionView::CallPublic(call_in(tx.at("callPublicFn"@), "method"@))
    } else if tx.get("callPrivateFn"@) is Some {
        TransactionView::CallPrivate(call_in(tx.at("callPrivateFn"@), "method"@))
    } else if tx.get("transferSTX"@) is Some {
        transfer_in(tx.at("transferSTX"@))
    } else if tx.get("deployContract"@) is Some || kind == Some("deployContract"@) {
        TransactionView::Rejected("deployContract is not supported in debug mode"@)
    } else if kind == Some("callPublicFn"@) {
        TransactionView::CallPublic(call_in(tx, "function"@))
    } else if kind == Some("callPrivateFn"@) {
        TransactionView::CallPrivate(call_in(tx, "function"@))
    } else if kind == Some("transferSTX"@) {
        transfer_in(tx)
    } else {
        TransactionView::Rejected("unknown tx type in mineBlock"@)
    }
}

/// The request that a JSON value describes.
pub open spec fn command_in(request: JsonView) -> CommandView {
    let method = request.at("method"@).text_or_empty();
    if method == "disconnect"@ {
        CommandView::Disconnect
    } else if method == "eval"@ {
        CommandView::Eval(request.at("snippet"@).text_or_empty())
    } else if method == "call"@ {
        CommandView::Call(call_in(request, "function"@))
    } else if method == "callPublicFn"@ {
        CommandView::CallPublic(call_in(request, "function"@))
    } else if method == "callReadOnlyFn"@ {
        CommandView::CallReadOnly(call_in(request, "function"@))
    } else if method == "getAccounts"@ {
        CommandView::GetAccounts
    } else if method == "blockHeight"@ {
        CommandView::BlockHeight
    } else if method == "getAssetsMap"@ {
        CommandView::GetAssetsMap
    } else if method == "mineBlock"@ {
        CommandView::MineBlock(
            request.at("txs"@).items().map_values(|tx: JsonView| transaction_in(tx)),
        )
    } else if method == "initSession"@ {
        CommandView::InitSession {
            cwd: request.at("cwd"@).as_text(),
            manifest: request.at("manifestPath"@).text_or_empty(),
        }
    } else {
        CommandView::Unknown(method)
    }
}

/// Reads a call out of a JSON object.
pub fn read_call(json: &Json, function_key: &str) -> (call: ContractCall)
    ensures
        call@ == call_in(json@, function_key@),
{
    ContractCall {
        contract: json.text_or_empty("contract"),
        function: json.text_or_empty(function_key),
        sender: json.get_text("sender"),
        args: json.get_texts("args"),
    }
}

/// Reads a transfer out of a JSON object.
pub fn read_transfer(json: &Json) -> (tx: Transaction)
    ensures
        tx@ == transfer_in(json@),
{
    let amount: u64 = match json.get_u64("amount") {
        Some(amount) => amount,
        None => {
            return Transaction::Rejected("transferSTX: missing or invalid amount".to_owned());
        },
    };
    let recipient = match json.get_text("recipient") {
        Some(recipient) => recipient,
        None => {
            return Transaction::Rejected("transferSTX: missing recipient".to_owned());
        },
    };
    match json.get_text("sender") {
        Some(sender) => Transaction::Transfer { amount, sender, recipient },
        None => Transaction::Rejected("transferSTX: missing sender".to_owned()),
    }
}

/// Reads a transaction out of a JSON object.
pub fn read_transaction(tx: &Json) -> (read: Transaction)
    ensures
        read@ == transaction_in(tx@),
{
    if let Some(call) = tx.get("callPublicFn") {
        return Transaction::CallPublic(read_call(call, "method"));
    }
    if let Some(call) = tx.get("callPrivateFn") {
        return Transaction::CallPrivate(read_call(call, "method"));
    }
    if let Some(transfer) = tx.get("transferSTX") {
        return read_transfer(transfer);
    }
    let kind = tx.get_text("type");
    let unsupported = match &kind {
        Some(kind) => same_text(kind.as_str(), "deployContract"),
        None => false,
    };
    if tx.get("deployContract").is_some() || unsupported {
        return Transaction::Rejected("deployContract is not supported in debug mode".to_owned());
    }
    if let Some(kind) = &kind {
        if same_text(kind.as_str(), "callPublicFn") {
            return Transaction::CallPublic(read_call(tx, "function"));
        }
        if same_text(kind.as_str(), "callPrivateFn") {
            return Transaction::CallPrivate(read_call(tx, "function"));
        }
        if same_text(kind.as_str(), "transferSTX") {
            return read_transfer(tx);
        }
    }
    Transaction::Rejected("unknown tx type in mineBlock".to_owned())
}

/// Reads the transactions of a block.
pub fn read_transactions(request: &Json) -> (txs: Vec<Transaction>)
    ensures
        transactions(txs@) == request@.at("txs"@).items().map_values(
            |tx: JsonView| transaction_in(tx),
        ),
{
    let mut txs: Vec<Transaction> = Vec::new();
    let ghost read = |tx: JsonView| transaction_in(tx);
    match request.get("txs") {
        Some(Json::Array(items)) => {
            let ghost views = items_view(items@);
            proof {
                lemma_items_view(items@);
            }
            for i in 0..items.len()
                invariant
                    views.len() == items.len(),
                    forall|k: int|
                        0 <= k < items.len() ==> #[trigger] views[k] == json_view(items@[k]),
                    read == (|tx: JsonView| transaction_in(tx)),
                    transactions(txs@) == views.take(i as int).map_values(read),
            {
                let ghost before = txs@;
                assert(views[i as int] == json_view(items@[i as int]));
                txs.push(read_transaction(&items[i]));
                assert(transactions(txs@) =~= transactions(before).push(
                    transaction_in(views[i as int]),
                ));
                assert(views.take(i + 1).map_values(read) =~= views.take(i as int).map_values(
                    read,
                ).push(transaction_in(views[i as int])));
            }
            assert(views.take(items.len() as int) =~= views);
        },
        _ => {},
    }
    assert(transactions(txs@) =~= request@.at("txs"@).items().map_values(read));
    txs
}

/// Reads a request out of a JSON value.
pub fn read_command(request: &Json) -> (command: Command)
    ensures
        command@ == command_in(request@),
{
    let method = request.text_or_empty("method");
    let name = method.as_str();
    if same_text(name, "disconnect") {
        Command::Disconnect
    } else if same_text(name, "eval") {
        Command::Eval(request.text_or_empty("snippet"))
    } else if same_text(name, "call") {
        Command::Call(read_call(request, "function"))
    } else if same_text(name, "callPublicFn") {
        Command::CallPublic(read_call(request, "function"))
    } else if same_text(name, "callReadOnlyFn") {
        Command::CallReadOnly(read_call(request, "function"))
    } else if same_text(name, "getAccounts") {
        Command::GetAccounts
    } else if same_text(name, "blockHeight") {
        Command::BlockHeight
    } else if same_text(name, "getAssetsMap") {
        Command::GetAssetsMap
    } else if same_text(name, "mineBlock") {
        Command::MineBlock(read_transactions(request))
    } else if same_text(name, "initSession") {
        Command::InitSession {
            cwd: request.get_text("cwd"),
            manifest: request.text_or_empty("manifestPath"),
        }
    } else {
        Command::Unknown(method)
    }
}

} // verus!
