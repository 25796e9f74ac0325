//! What a client is answered.

use crate::dap::project::{
    accounts_json, accounts_of, deployer_address, deployer_of, text_object, Project, ProjectView,
};
use crate::json::{
    fields_view, items_view, json_text, object1, object2, parsed_json, plain, push_field,
    write_json, Json, JsonView,
};
use crate::simnet::{EvaluationResult, ExecutionResult, Outcome};
use crate::text::{decimal, join, joined, texts, to_decimal};
use vstd::prelude::*;

verus! {

/// The answer to a request that succeeded.
pub open spec fn ok_reply(id: JsonView, result: JsonView) -> JsonView {
    JsonView::Object(map!["id"@ => id, "result"@ => result])
}

/// The answer to a request that failed.
pub open spec fn error_reply(id: JsonView, message: Seq<char>) -> JsonView {
    JsonView::Object(map!["id"@ => id, "error"@ => JsonView::Text(message)])
}

/// Answers a request that succeeded.
pub fn ok(id: Json, result: Json) -> (reply: Json)
    ensures
        reply@ == ok_reply(id@, result@),
{
    object2("id", id, "result", result)
}

/// Answers a request that failed.
pub fn error(id: Json, message: String) -> (reply: Json)
    ensures
        reply@ == error_reply(id@, message@),
{
    object2("id", id, "error", Json::Text(message))
}

/// The value of an evaluation as it is printed. A contract without a value prints
/// nothing.
pub open spec fn printed(result: EvaluationResult) -> Seq<char> {
    match result {
        EvaluationResult::Snippet(value) => value.text@,
        EvaluationResult::Contract { value: Some(value), .. } => value.text@,
        EvaluationResult::Contract { value: None, .. } => Seq::empty(),
    }
}

/// The value of an evaluation in hexadecimal. A contract without a value counts as
/// `true`.
pub open spec fn hex(result: EvaluationResult) -> Seq<char> {
    match result {
        EvaluationResult::Snippet(value) => value.hex@,
        EvaluationResult::Contract { value: Some(value), .. } => value.hex@,
        EvaluationResult::Contract { value: None, .. } => "0x03"@,
    }
}

/// The value of an evaluation as it is printed.
fn printed_text(result: &EvaluationResult) -> (text: String)
    ensures
        text@ == printed(*result),
{
    match result {
        EvaluationResult::Snippet(value) => value.text.clone(),
        EvaluationResult::Contract { identifier: _, value } => match value {
            Some(value) => value.text.clone(),
            None => String::new(),
        },
    }
}

/// The value of an evaluation in hexadecimal.
fn hex_text(result: &EvaluationResult) -> (text: String)
    ensures
        text@ == hex(*result),
{
    match result {
        EvaluationResult::Snippet(value) => value.hex.clone(),
        EvaluationResult::Contract { identifier: _, value } => match value {
            Some(value) => value.hex.clone(),
            None => "0x03".to_owned(),
        },
    }
}

/// The messages of diagnostics as one text.
pub open spec fn failure(messages: Seq<String>) -> Seq<char> {
    joined(texts(messages), "; "@)
}

/// The answer to an evaluation: its value, printed and in hexadecimal.
pub open spec fn value_reply(id: JsonView, outcome: Outcome) -> JsonView {
    match outcome {
        Ok(execution) => ok_reply(
            id,
            JsonView::Object(
                map![
                    "value"@ => JsonView::Text(printed(execution.result)),
                    "hex"@ => JsonView::Text(hex(execution.result)),
                ],
            ),
        ),
        Err(messages) => error_reply(id, failure(messages@)),
    }
}

/// Answers an evaluation with its value.
pub fn eval_snippet(id: Json, outcome: &Outcome) -> (reply: Json)
    ensures
        reply@ == value_reply(id@, *outcome),
{
    match outcome {
        Ok(execution) => {
            let result = object2(
                "value",
                Json::Text(printed_text(&execution.result)),
                "hex",
                Json::Text(hex_text(&execution.result)),
            );
            ok(id, result)
        },
        Err(messages) => error(id, join(messages, "; ")),
    }
}

/// What is reported of a transaction.
#[derive(Debug, PartialEq)]
pub struct Receipt {
    /// Its value in hexadecimal.
    pub result: String,
    /// The JSON text of the array of the events that it emitted.
    pub events: String,
}

pub struct ReceiptView {
    pub result: Seq<char>,
    pub events: Seq<char>,
}

impl View for Receipt {
    type V = ReceiptView;

    open spec fn view(&self) -> ReceiptView {
        ReceiptView { result: self.result@, events: self.events@ }
    }
}

/// The views of a list of receipts.
pub open spec fn receipts(list: Seq<Receipt>) -> Seq<ReceiptView> {
    list.map_values(|receipt: Receipt| receipt@)
}

impl ReceiptView {
    /// The receipt as a JSON object.
    pub open spec fn json(self) -> JsonView {
        JsonView::Object(
            map!["result"@ => JsonView::Text(self.result), "events"@ => JsonView::Text(self.events)],
        )
    }
}

/// The receipt of an execution.
pub open spec fn receipt_of(execution: ExecutionResult) -> ReceiptView {
    ReceiptView {
        result: hex(execution.result),
        events: json_text(JsonView::Array(items_view(execution.events@))),
    }
}

/// The receipt of a transaction, or the messages of what stopped it as one text. A
/// client that reads the events finds each of those that were emitted, in order; where
/// there are none, the text is that of the empty array.
pub fn eval_to_tx_result(outcome: Outcome) -> (receipt: Result<Receipt, String>)
    ensures
        match receipt {
            Ok(receipt) => outcome matches Ok(execution) && receipt@ == receipt_of(execution),
            Err(message) => outcome matches Err(messages) && message@ == failure(messages@),
        },
        receipt matches Ok(receipt) ==> plain(
            JsonView::Array(items_view((outcome->Ok_0).events@)),
            127,
        ) ==> parsed_json(receipt.events@) == Some(
            JsonView::Array(items_view((outcome->Ok_0).events@)),
        ),
        receipt matches Ok(receipt) ==> (outcome->Ok_0).events@.len() == 0 ==> receipt.events@
            == "[]"@,
{
    match outcome {
        Ok(execution) => {
            let result = hex_text(&execution.result);
            Ok(Receipt { result, events: write_json(&Json::Array(execution.events)) })
        },
        Err(messages) => Err(join(&messages, "; ")),
    }
}

impl Receipt {
    /// The receipt as a JSON object.
    pub fn json(&self) -> (json: Json)
        ensures
            json@ == self@.json(),
    {
        object2(
            "result",
            Json::Text(self.result.clone()),
            "events",
            Json::Text(self.events.clone()),
        )
    }
}

/// The answer to a call that reports a receipt.
pub open spec fn receipt_reply(id: JsonView, outcome: Outcome) -> JsonView {
    match outcome {
        Ok(execution) => ok_reply(id, receipt_of(execution).json()),
        Err(messages) => error_reply(id, failure(messages@)),
    }
}

/// Answers a call with a receipt.
pub fn call_receipt(id: Json, outcome: Outcome) -> (reply: Json)
    ensures
        reply@ == receipt_reply(id@, outcome),
{
    match eval_to_tx_result(outcome) {
        Ok(receipt) => ok(id, receipt.json()),
        Err(message) => error(id, message),
    }
}

/// The receipts as a JSON array.
pub open spec fn receipts_json(list: Seq<ReceiptView>) -> JsonView {
    JsonView::Array(list.map_values(|receipt: ReceiptView| receipt.json()))
}

/// The receipts as a JSON array.
fn receipts_array(list: &Vec<Receipt>) -> (json: Json)
    ensures
        json@ == receipts_json(receipts(list@)),
{
    let ghost views = receipts(list@);
    let ghost to_json = |receipt: ReceiptView| receipt.json();
    let mut items: Vec<Json> = Vec::new();
    for i in 0..list.len()
        invariant
            views == receipts(list@),
            to_json == (|receipt: ReceiptView| receipt.json()),
            items_view(items@) == views.take(i as int).map_values(to_json),
    {
        let ghost before = items@;
        items.push(list[i].json());
        assert(items@.drop_last() =~= before);
        assert(views.take(i + 1).map_values(to_json) =~= views.take(i as int).map_values(
            to_json,
        ).push(views[i as int].json()));
    }
    assert(views.take(list.len() as int) =~= views);
    Json::Array(items)
}

/// The heights of the two chains as a JSON object.
pub open spec fn heights(stacks: u32, burn: u32) -> Map<Seq<char>, JsonView> {
    map![
        "stacksHeight"@ => JsonView::Unsigned(stacks as u64),
        "burnHeight"@ => JsonView::Unsigned(burn as u64),
    ]
}

/// The answer to a question for the heights.
pub open spec fn heights_reply(id: JsonView, stacks: u32, burn: u32) -> JsonView {
    ok_reply(id, JsonView::Object(heights(stacks, burn)))
}

/// Answers a question for the heights.
pub fn block_heights(id: Json, stacks: u32, burn: u32) -> (reply: Json)
    ensures
        reply@ == heights_reply(id@, stacks, burn),
{
    let result = object2(
        "stacksHeight",
        Json::Unsigned(stacks as u64),
        "burnHeight",
        Json::Unsigned(burn as u64),
    );
    ok(id, result)
}

/// The answer to a mined block: the heights after it and the receipts, which stand
/// both under `txs` and under `results`.
pub open spec fn mined_reply(
    id: JsonView,
    stacks: u32,
    burn: u32,
    list: Seq<ReceiptView>,
) -> JsonView {
    ok_reply(
        id,
        JsonView::Object(
            heights(stacks, burn).insert("txs"@, receipts_json(list)).insert(
                "results"@,
                receipts_json(list),
            ),
        ),
    )
}

/// Answers a mined block.
pub fn mined_block(id: Json, stacks: u32, burn: u32, list: &Vec<Receipt>) -> (reply: Json)
    ensures
        reply@ == mined_reply(id@, stacks, burn, receipts(list@)),
{
    let mut fields: Vec<(String, Json)> = Vec::new();
    push_field(&mut fields, "stacksHeight", Json::Unsigned(stacks as u64));
    push_field(&mut fields, "burnHeight", Json::Unsigned(burn as u64));
    push_field(&mut fields, "txs", receipts_array(list));
    push_field(&mut fields, "results", receipts_array(list));
    ok(id, Json::Object(fields))
}

/// The answer to a question for the accounts.
pub open spec fn accounts_reply(id: JsonView, project: ProjectView) -> JsonView {
    ok_reply(
        id,
        JsonView::Object(
            map![
                "deployer"@ => JsonView::Text(deployer_of(project.wallets)),
                "accounts"@ => text_object(accounts_of(project.wallets)),
            ],
        ),
    )
}

/// Answers a question for the accounts.
pub fn project_accounts(id: Json, project: &Project) -> (reply: Json)
    ensures
        reply@ == accounts_reply(id@, project@),
{
    let result = object2(
        "deployer",
        Json::Text(deployer_address(&project.wallets)),
        "accounts",
        accounts_json(&project.wallets),
    );
    ok(id, result)
}

/// The balances of one asset by account. The last of two balances of one account
/// counts.
pub open spec fn balances_map(balances: Seq<(String, u128)>) -> Map<Seq<char>, u128>
    decreases balances.len(),
{
    if balances.len() == 0 {
        Map::empty()
    } else {
        balances_map(balances.drop_last()).insert(balances.last().0@, balances.last().1)
    }
}

/// The balances by asset and account.
pub open spec fn assets_map(assets: Seq<(String, Vec<(String, u128)>)>) -> Map<
    Seq<char>,
    Map<Seq<char>, u128>,
>
    decreases assets.len(),
{
    if assets.len() == 0 {
        Map::empty()
    } else {
        assets_map(assets.drop_last()).insert(assets.last().0@, balances_map(assets.last().1@))
    }
}

/// Balances as a JSON object. An amount is a text, since a JSON number would not keep
/// all of its digits.
pub open spec fn balances_json(balances: Map<Seq<char>, u128>) -> JsonView {
    text_object(balances.map_values(|amount: u128| decimal(amount as nat)))
}

/// The answer to a question for the balances.
pub open spec fn assets_reply(id: JsonView, assets: Map<Seq<char>, Map<Seq<char>, u128>>) -> JsonView {
    ok_reply(
        id,
        JsonView::Object(
            map![
                "assets"@ => JsonView::Object(
                    assets.map_values(|balances: Map<Seq<char>, u128>| balances_json(balances)),
                ),
            ],
        ),
    )
}

/// The balances of one asset as a JSON object.
fn balances_object(balances: &Vec<(String, u128)>) -> (json: Json)
    ensures
        json@ == balances_json(balances_map(balances@)),
{
    let mut fields: Vec<(String, Json)> = Vec::new();
    assert(JsonView::Object(fields_view(fields@)) == balances_json(balances_map(balances@.take(0))))
        by {
        assert(balances_json(balances_map(balances@.take(0)))->Object_0 =~= Map::empty());
    }
    for i in 0..balances.len()
        invariant
            JsonView::Object(fields_view(fields@)) == balances_json(
                balances_map(balances@.take(i as int)),
            ),
    {
        let ghost before = balances_map(balances@.take(i as int));
        assert(balances@.take(i + 1).drop_last() =~= balances@.take(i as int));
        push_field(
            &mut fields,
            balances[i].0.as_str(),
            Json::Text(to_decimal(balances[i].1)),
        );
        assert(balances_json(before.insert(balances@[i as int].0@, balances@[i as int].1))->Object_0
            =~= balances_json(before)->Object_0.insert(
            balances@[i as int].0@,
            JsonView::Text(decimal(balances@[i as int].1 as nat)),
        ));
    }
    assert(balances@.take(balances.len() as int) =~= balances@);
    Json::Object(fields)
}

/// Answers a question for the balances.
pub fn asset_balances(id: Json, assets: &Vec<(String, Vec<(String, u128)>)>) -> (reply: Json)
    ensures
        reply@ == assets_reply(id@, assets_map(assets@)),
{
    let mut fields: Vec<(String, Json)> = Vec::new();
    let ghost to_json = |balances: Map<Seq<char>, u128>| balances_json(balances);
    for i in 0..assets.len()
        invariant
            to_json == (|balances: Map<Seq<char>, u128>| balances_json(balances)),
            fields_view(fields@) == assets_map(assets@.take(i as int)).map_values(to_json),
    {
        let ghost before = assets_map(assets@.take(i as int));
        assert(assets@.take(i + 1).drop_last() =~= assets@.take(i as int));
        push_field(&mut fields, assets[i].0.as_str(), balances_object(&assets[i].1));
        assert(before.insert(assets@[i as int].0@, balances_map(assets@[i as int].1@)).map_values(
            to_json,
        ) =~= before.map_values(to_json).insert(
            assets@[i as int].0@,
            balances_json(balances_map(assets@[i as int].1@)),
        ));
    }
    assert(assets@.take(assets.len() as int) =~= assets@);
    ok(id, object1("assets", Json::Object(fields)))
}

/// An object of texts is written in full.
proof fn lemma_plain_texts(map: Map<Seq<char>, Seq<char>>, depth: nat)
    requires
        depth > 0,
    ensures
        plain(text_object(map), depth),
{
    let fields = text_object(map)->Object_0;
    assert forall|key: Seq<char>| #[trigger] fields.contains_key(key) implies plain(
        fields[key],
        (depth - 1) as nat,
    ) by {
        assert(fields[key] == JsonView::Text(map[key]));
    }
}

/// An object of two values is written in full where the values are.
proof fn lemma_plain_pair(
    key1: Seq<char>,
    value1: JsonView,
    key2: Seq<char>,
    value2: JsonView,
    depth: nat,
)
    requires
        plain(value1, depth),
        plain(value2, depth),
    ensures
        plain(JsonView::Object(map![key1 => value1, key2 => value2]), depth + 1),
{
}

/// What a client is answered is written in full, no deeper than readers go, where the
/// identifier of its request is.
pub proof fn lemma_replies_are_plain(id: JsonView)
    requires
        plain(id, 126),
    ensures
        forall|message: Seq<char>| plain(#[trigger] error_reply(id, message), 127),
        forall|result: JsonView|
            plain(result, 126) ==> plain(#[trigger] ok_reply(id, result), 127),
        forall|outcome: Outcome| plain(#[trigger] value_reply(id, outcome), 127),
        forall|outcome: Outcome| plain(#[trigger] receipt_reply(id, outcome), 127),
        forall|stacks: u32, burn: u32| plain(#[trigger] heights_reply(id, stacks, burn), 127),
        forall|stacks: u32, burn: u32, list: Seq<ReceiptView>|
            plain(#[trigger] mined_reply(id, stacks, burn, list), 127),
        forall|project: ProjectView| plain(#[trigger] accounts_reply(id, project), 127),
        forall|assets: Map<Seq<char>, Map<Seq<char>, u128>>|
            plain(#[trigger] assets_reply(id, assets), 127),
{
    assert forall|message: Seq<char>| plain(#[trigger] error_reply(id, message), 127) by {
        lemma_plain_pair("id"@, id, "error"@, JsonView::Text(message), 126);
    }
    assert forall|result: JsonView| plain(result, 126) implies plain(
        #[trigger] ok_reply(id, result),
        127,
    ) by {
        lemma_plain_pair("id"@, id, "result"@, result, 126);
    }
    assert forall|outcome: Outcome| plain(#[trigger] value_reply(id, outcome), 127) by {
        if let Ok(execution) = outcome {
            lemma_plain_pair(
                "value"@,
                JsonView::Text(printed(execution.result)),
                "hex"@,
                JsonView::Text(hex(execution.result)),
                125,
            );
        }
    }
    assert forall|outcome: Outcome| plain(#[trigger] receipt_reply(id, outcome), 127) by {
        if let Ok(execution) = outcome {
            lemma_plain_receipt(receipt_of(execution), 126);
        }
    }
    assert forall|stacks: u32, burn: u32| plain(#[trigger] heights_reply(id, stacks, burn), 127) by {
        lemma_plain_heights(stacks, burn);
    }
    assert forall|stacks: u32, burn: u32, list: Seq<ReceiptView>|
        plain(#[trigger] mined_reply(id, stacks, burn, list), 127) by {
        lemma_plain_heights(stacks, burn);
        lemma_plain_receipts(list);
        let fields = heights(stacks, burn).insert("txs"@, receipts_json(list)).insert(
            "results"@,
            receipts_json(list),
        );
        assert forall|key: Seq<char>| #[trigger] fields.contains_key(key) implies plain(
            fields[key],
            125,
        ) by {
            assert(fields[key] == receipts_json(list) || fields[key] is Unsigned);
        }
        assert(plain(JsonView::Object(fields), 126));
    }
    assert forall|project: ProjectView| plain(#[trigger] accounts_reply(id, project), 127) by {
        lemma_plain_texts(accounts_of(project.wallets), 125);
        lemma_plain_pair(
            "deployer"@,
            JsonView::Text(deployer_of(project.wallets)),
            "accounts"@,
            text_object(accounts_of(project.wallets)),
            125,
        );
    }
    assert forall|assets: Map<Seq<char>, Map<Seq<char>, u128>>|
        plain(#[trigger] assets_reply(id, assets), 127) by {
        lemma_plain_assets(assets);
    }
}

proof fn lemma_plain_receipt(receipt: ReceiptView, depth: nat)
    requires
        depth > 0,
    ensures
        plain(receipt.json(), depth),
{
    lemma_plain_pair(
        "result"@,
        JsonView::Text(receipt.result),
        "events"@,
        JsonView::Text(receipt.events),
        (depth - 1) as nat,
    );
}

proof fn lemma_plain_heights(stacks: u32, burn: u32)
    ensures
        plain(JsonView::Object(heights(stacks, burn)), 126),
{
    lemma_plain_pair(
        "stacksHeight"@,
        JsonView::Unsigned(stacks as u64),
        "burnHeight"@,
        JsonView::Unsigned(burn as u64),
        125,
    );
}

proof fn lemma_plain_receipts(list: Seq<ReceiptView>)
    ensures
        plain(receipts_json(list), 125),
{
    let items = receipts_json(list)->Array_0;
    assert forall|i: int| 0 <= i < items.len() implies plain(#[trigger] items[i], 124) by {
        lemma_plain_receipt(list[i], 124);
    }
}

proof fn lemma_plain_assets(assets: Map<Seq<char>, Map<Seq<char>, u128>>)
    ensures
        plain(
            JsonView::Object(
                map![
                    "assets"@ => JsonView::Object(
                        assets.map_values(|balances: Map<Seq<char>, u128>| balances_json(balances)),
                    ),
                ],
            ),
            126,
        ),
{
    let fields = assets.map_values(|balances: Map<Seq<char>, u128>| balances_json(balances));
    assert forall|asset: Seq<char>| #[trigger] fields.contains_key(asset) implies plain(
        fields[asset],
        124,
    ) by {
        lemma_plain_texts(
            assets[asset].map_values(|amount: u128| decimal(amount as nat)),
            124,
        );
    }
    assert(plain(JsonView::Object(fields), 125));
}

} // verus!
