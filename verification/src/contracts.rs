//! Contracts and calls to them: how a contract is named, how a name is resolved
//! against the deployed contracts, and the Clarity snippet that makes a call.

use crate::text::{
    contains_char, decimal, digits_value, is_digits, join, joined, law_decimal_injective,
    law_decimal_value, law_joining_adds_a_part, opt_text, same_text, starts_with_char,
    strip_leading, texts, to_decimal, without_leading,
};
use vstd::prelude::*;

verus! {

/// The identifier of a deployed contract.
#[derive(Debug, PartialEq)]
pub struct ContractId {
    /// The address that deployed it.
    pub issuer: String,
    pub name: String,
}

pub struct ContractIdView {
    pub issuer: Seq<char>,
    pub name: Seq<char>,
}

impl View for ContractId {
    type V = ContractIdView;

    open spec fn view(&self) -> ContractIdView {
        ContractIdView { issuer: self.issuer@, name: self.name@ }
    }
}

impl ContractIdView {
    /// The identifier as it is written: issuer, dot, name.
    pub open spec fn principal(self) -> Seq<char> {
        self.issuer + "."@ + self.name
    }
}

/// The views of a list of identifiers.
pub open spec fn ids(contracts: Seq<ContractId>) -> Seq<ContractIdView> {
    contracts.map_values(|id: ContractId| id@)
}

impl ContractId {
    /// A second identifier of the same contract.
    pub fn copy(&self) -> (id: ContractId)
        ensures
            id@ == self@,
    {
        ContractId { issuer: self.issuer.clone(), name: self.name.clone() }
    }

    /// The identifier as it is written.
    pub fn principal(&self) -> (text: String)
        ensures
            text@ == self@.principal(),
    {
        let mut text = self.issuer.clone();
        text.append(".");
        text.append(self.name.as_str());
        text
    }
}

/// The first of `contracts` with the given name.
pub open spec fn first_named(contracts: Seq<ContractIdView>, name: Seq<char>) -> Option<
    ContractIdView,
>
    decreases contracts.len(),
{
    if contracts.len() == 0 {
        None
    } else if contracts[0].name == name {
        Some(contracts[0])
    } else {
        first_named(contracts.skip(1), name)
    }
}

/// Finds the first of `contracts` with the given name.
pub fn find_named(contracts: &Vec<ContractId>, name: &str) -> (found: Option<ContractId>)
    ensures
        match found {
            Some(id) => first_named(ids(contracts@), name@) == Some(id@),
            None => first_named(ids(contracts@), name@) is None,
        },
{
    let ghost all = ids(contracts@);
    assert(all.skip(0) == all);
    for i in 0..contracts.len()
        invariant
            all == ids(contracts@),
            first_named(all, name@) == first_named(all.skip(i as int), name@),
    {
        assert(all.skip(i as int)[0] == contracts@[i as int]@);
        if same_text(contracts[i].name.as_str(), name) {
            return Some(contracts[i].copy());
        }
        assert(all.skip(i as int).skip(1) == all.skip(i + 1));
    }
    None
}

/// Whether a reference names issuer and contract in full: it has a dot and does not
/// start with one.
pub open spec fn is_full(contract: Seq<char>) -> bool {
    contract.contains('.') && contract[0] != '.'
}

/// How a call refers to a contract. A full identifier is taken as it is. A short
/// name, with or without leading dots, stands for the first deployed contract of
/// that name; where there is none it is left for the interpreter to resolve.
pub open spec fn reference(contract: Seq<char>, contracts: Seq<ContractIdView>) -> Seq<char> {
    if is_full(contract) {
        "'"@ + contract
    } else {
        let short = without_leading(contract, '.');
        match first_named(contracts, short) {
            Some(id) => "'"@ + id.principal(),
            None => "."@ + short,
        }
    }
}

/// Resolves a reference to a contract.
pub fn resolve(contract: &str, contracts: &Vec<ContractId>) -> (text: String)
    ensures
        text@ == reference(contract@, ids(contracts@)),
{
    if contains_char(contract, '.') && !starts_with_char(contract, '.') {
        let mut text = "'".to_owned();
        text.append(contract);
        text
    } else {
        let short = strip_leading(contract, '.');
        match find_named(contracts, short) {
            Some(id) => {
                let mut text = "'".to_owned();
                text.append(id.principal().as_str());
                text
            },
            None => {
                let mut text = ".".to_owned();
                text.append(short);
                text
            },
        }
    }
}

/// The contract whose source the debugger shows during an evaluation.
#[derive(Debug, PartialEq)]
pub enum CallTarget {
    /// The snippet itself, which belongs to no deployed contract.
    Transient,
    Deployed(ContractId),
}

pub enum CallTargetView {
    Transient,
    Deployed(ContractIdView),
}

impl View for CallTarget {
    type V = CallTargetView;

    open spec fn view(&self) -> CallTargetView {
        match self {
            CallTarget::Transient => CallTargetView::Transient,
            CallTarget::Deployed(id) => CallTargetView::Deployed(id@),
        }
    }
}

/// The target of a call to `contract`: the deployed contract of that short name.
pub open spec fn target(contract: Seq<char>, contracts: Seq<ContractIdView>) -> CallTargetView {
    match first_named(contracts, without_leading(contract, '.')) {
        Some(id) => CallTargetView::Deployed(id),
        None => CallTargetView::Transient,
    }
}

/// Finds the target of a call to `contract`.
pub fn call_target(contract: &str, contracts: &Vec<ContractId>) -> (found: CallTarget)
    ensures
        found@ == target(contract@, ids(contracts@)),
{
    match find_named(contracts, strip_leading(contract, '.')) {
        Some(id) => CallTarget::Deployed(id),
        None => CallTarget::Transient,
    }
}

/// A call to a function of a contract, as a client asks for it.
#[derive(Debug, PartialEq)]
pub struct ContractCall {
    pub contract: String,
    pub function: String,
    /// Who makes the call, where that is not the session's current sender.
    pub sender: Option<String>,
    /// The arguments, as Clarity expressions.
    pub args: Vec<String>,
}

pub struct ContractCallView {
    pub contract: Seq<char>,
    pub function: Seq<char>,
    pub sender: Option<Seq<char>>,
    pub args: Seq<Seq<char>>,
}

impl View for ContractCall {
    type V = ContractCallView;

    open spec fn view(&self) -> ContractCallView {
        ContractCallView {
            contract: self.contract@,
            function: self.function@,
            sender: opt_text(self.sender),
            args: texts(self.args@),
        }
    }
}

/// `head`, and the arguments behind it where they write anything.
pub open spec fn with_args(head: Seq<char>, args: Seq<Seq<char>>) -> Seq<char> {
    let text = joined(args, " "@);
    if text.len() == 0 {
        head + ")"@
    } else {
        head + " "@ + text + ")"@
    }
}

/// The snippet that calls `function` of the contract that `contract` refers to.
pub open spec fn call_snippet(
    contract: Seq<char>,
    function: Seq<char>,
    args: Seq<Seq<char>>,
) -> Seq<char> {
    with_args("(contract-call? "@ + contract + " "@ + function, args)
}

/// The snippet that calls `function` from within its own contract.
pub open spec fn local_snippet(function: Seq<char>, args: Seq<Seq<char>>) -> Seq<char> {
    with_args("("@ + function, args)
}

/// The snippet that transfers `amount` from `sender` to `recipient`.
pub open spec fn transfer_snippet(
    amount: u64,
    sender: Seq<char>,
    recipient: Seq<char>,
) -> Seq<char> {
    "(stx-transfer? u"@ + decimal(amount as nat) + " '"@ + sender + " '"@ + recipient + ")"@
}

/// Closes a call, with the arguments where they write anything.
fn close_call(head: String, args: &Vec<String>) -> (text: String)
    ensures
        text@ == with_args(head@, texts(args@)),
{
    let args_text = join(args, " ");
    let mut text = head;
    if !args_text.as_str().is_empty() {
        text.append(" ");
        text.append(args_text.as_str());
    }
    text.append(")");
    text
}

/// Writes the snippet that calls a function of another contract.
pub fn write_call(contract: &str, function: &str, args: &Vec<String>) -> (snippet: String)
    ensures
        snippet@ == call_snippet(contract@, function@, texts(args@)),
{
    let mut head = "(contract-call? ".to_owned();
    head.append(contract);
    head.append(" ");
    head.append(function);
    close_call(head, args)
}

/// Writes the snippet that calls a function from within its own contract.
pub fn write_local_call(function: &str, args: &Vec<String>) -> (snippet: String)
    ensures
        snippet@ == local_snippet(function@, texts(args@)),
{
    let mut head = "(".to_owned();
    head.append(function);
    close_call(head, args)
}

/// Writes the snippet that transfers STX.
pub fn write_transfer(amount: u64, sender: &str, recipient: &str) -> (snippet: String)
    ensures
        snippet@ == transfer_snippet(amount, sender@, recipient@),
{
    let mut snippet = "(stx-transfer? u".to_owned();
    snippet.append(to_decimal(amount as u128).as_str());
    snippet.append(" '");
    snippet.append(sender);
    snippet.append(" '");
    snippet.append(recipient);
    snippet.append(")");
    snippet
}

/// A leading dot changes nothing about what a short name refers to.
pub proof fn law_leading_dot_is_ignored(name: Seq<char>, contracts: Seq<ContractIdView>)
    requires
        !name.contains('.'),
    ensures
        reference("."@ + name, contracts) == reference(name, contracts),
        target("."@ + name, contracts) == target(name, contracts),
{
    reveal_strlit(".");
    let dotted = "."@ + name;
    assert(dotted[0] == '.');
    assert(dotted.skip(1) == name);
    assert(name.len() > 0 ==> name.contains(name[0]));
    assert(without_leading(dotted, '.') == without_leading(name, '.'));
}

/// A short name refers to a deployed contract of that name, where there is one.
pub proof fn law_short_name_finds_deployed(
    contracts: Seq<ContractIdView>,
    id: ContractIdView,
)
    requires
        contracts.contains(id),
        !id.name.contains('.'),
    ensures
        first_named(contracts, id.name) matches Some(found) && contracts.contains(found)
            && found.name == id.name && reference(id.name, contracts) == "'"@
            + found.principal() && target(id.name, contracts) == CallTargetView::Deployed(found),
{
    lemma_first_named(contracts, id);
    assert(id.name.len() > 0 ==> id.name.contains(id.name[0]));
    assert(without_leading(id.name, '.') == id.name);
}

proof fn lemma_first_named(contracts: Seq<ContractIdView>, id: ContractIdView)
    requires
        contracts.contains(id),
    ensures
        first_named(contracts, id.name) matches Some(found) && contracts.contains(found)
            && found.name == id.name,
    decreases contracts.len(),
{
    if contracts[0].name == id.name {
        assert(contracts.contains(contracts[0]));
    } else {
        let rest = contracts.skip(1);
        let at = choose|i: int| 0 <= i < contracts.len() && contracts[i] == id;
        assert(rest[at - 1] == id);
        lemma_first_named(rest, id);
        let found = first_named(rest, id.name)->0;
        let k = choose|i: int| 0 <= i < rest.len() && rest[i] == found;
        assert(contracts[k + 1] == found);
    }
}

/// `args` one after the other, each behind a blank.
pub open spec fn spaced(args: Seq<Seq<char>>) -> Seq<char>
    decreases args.len(),
{
    if args.len() == 0 {
        Seq::empty()
    } else {
        " "@ + args[0] + spaced(args.skip(1))
    }
}

/// A call is written as its head, a blank and the argument for each argument in order,
/// and a closing parenthesis.
pub proof fn law_call_lists_its_arguments(head: Seq<char>, args: Seq<Seq<char>>)
    requires
        forall|i: int| 0 <= i < args.len() ==> (#[trigger] args[i]).len() > 0,
    ensures
        with_args(head, args) == head + spaced(args) + ")"@,
{
    if args.len() > 0 {
        lemma_spaced(args);
        assert(args[0].len() > 0);
        assert(head + (" "@ + joined(args, " "@)) =~= head + " "@ + joined(args, " "@));
    } else {
        assert(head + Seq::<char>::empty() =~= head);
    }
}

proof fn lemma_spaced(args: Seq<Seq<char>>)
    requires
        args.len() > 0,
    ensures
        spaced(args) == " "@ + joined(args, " "@),
        joined(args, " "@).len() >= args[0].len(),
    decreases args.len(),
{
    let rest = args.skip(1);
    if args.len() == 1 {
        assert(spaced(rest) =~= Seq::empty());
        assert(" "@ + args[0] + Seq::<char>::empty() =~= " "@ + args[0]);
    } else {
        lemma_spaced(rest);
        law_joining_adds_a_part(rest, args[0], " "@);
        assert(seq![args[0]] + rest =~= args);
        assert(" "@ + (args[0] + " "@ + joined(rest, " "@)) =~= " "@ + args[0] + (" "@ + joined(
            rest,
            " "@,
        )));
    }
}

/// Arguments that write nothing are left out; others stand between the head and the
/// closing parenthesis, with a blank before them and one between neighbours.
pub proof fn law_call_holds_its_arguments(head: Seq<char>, args: Seq<Seq<char>>)
    ensures
        joined(args, " "@).len() == 0 ==> with_args(head, args) == head + ")"@,
        joined(args, " "@).len() > 0 ==> with_args(head, args) == head + " "@ + joined(args, " "@)
            + ")"@,
{
}

/// A call with one more argument at its end is the call without it, with a blank and the
/// argument before the closing parenthesis.
pub proof fn law_one_more_argument(head: Seq<char>, args: Seq<Seq<char>>, arg: Seq<char>)
    requires
        forall|i: int| 0 <= i < args.len() ==> (#[trigger] args[i]).len() > 0,
        arg.len() > 0,
    ensures
        with_args(head, Seq::empty()) == head + ")"@,
        with_args(head, args).last() == ')',
        with_args(head, args.push(arg)) == with_args(head, args).drop_last() + " "@ + arg + ")"@,
{
    reveal_strlit(")");
    law_joining_adds_a_part(args, arg, " "@);
    if args.len() > 0 {
        lemma_spaced(args);
        assert(args[0].len() > 0);
        let text = joined(args, " "@);
        assert(with_args(head, args).drop_last() =~= head + " "@ + text);
        assert(head + " "@ + (text + " "@ + arg) =~= head + " "@ + text + " "@ + arg);
    } else {
        assert(args.push(arg) =~= seq![arg]);
        assert(with_args(head, args).drop_last() =~= head);
    }
}

/// A call names the contract and the function that it is for; a call from within a
/// contract names the function alone.
pub proof fn law_call_names_its_function(
    contract: Seq<char>,
    function: Seq<char>,
    args: Seq<Seq<char>>,
)
    requires
        forall|i: int| 0 <= i < args.len() ==> (#[trigger] args[i]).len() > 0,
    ensures
        call_snippet(contract, function, args) == "(contract-call? "@ + contract + " "@ + function
            + spaced(args) + ")"@,
        local_snippet(function, args) == "("@ + function + spaced(args) + ")"@,
{
    law_call_lists_its_arguments("(contract-call? "@ + contract + " "@ + function, args);
    law_call_lists_its_arguments("("@ + function, args);
}

/// A transfer writes its amount in digits, and names who pays and who is paid.
pub proof fn law_transfer_states_its_amount(amount: u64, sender: Seq<char>, recipient: Seq<char>)
    ensures
        exists|digits: Seq<char>|
            {
                &&& is_digits(digits)
                &&& digits_value(digits) == amount
                &&& transfer_snippet(amount, sender, recipient) == "(stx-transfer? u"@
                    + #[trigger] (digits + " '"@) + sender + " '"@ + recipient + ")"@
            },
{
    let digits = decimal(amount as nat);
    law_decimal_value(amount as nat);
    assert("(stx-transfer? u"@ + (digits + " '"@) =~= "(stx-transfer? u"@ + digits + " '"@);
}

/// Transfers of different amounts are different snippets.
pub proof fn law_transfers_differ_by_their_amounts(
    a: u64,
    b: u64,
    sender: Seq<char>,
    recipient: Seq<char>,
)
    requires
        transfer_snippet(a, sender, recipient) == transfer_snippet(b, sender, recipient),
    ensures
        a == b,
{
    let head = "(stx-transfer? u"@;
    let tail = " '"@ + sender + " '"@ + recipient + ")"@;
    assert(transfer_snippet(a, sender, recipient) =~= head + decimal(a as nat) + tail);
    assert(transfer_snippet(b, sender, recipient) =~= head + decimal(b as nat) + tail);
    lemma_between(head, decimal(a as nat), decimal(b as nat), tail);
    law_decimal_injective(a as nat, b as nat);
}

/// What stands between the same two texts is fixed by the whole.
pub proof fn lemma_between(head: Seq<char>, a: Seq<char>, b: Seq<char>, tail: Seq<char>)
    requires
        head + a + tail == head + b + tail,
    ensures
        a == b,
{
    assert((head + a + tail).len() == head.len() + a.len() + tail.len());
    assert((head + b + tail).len() == head.len() + b.len() + tail.len());
    let from = head.len() as int;
    assert((head + a + tail).subrange(from, from + a.len()) =~= a);
    assert((head + b + tail).subrange(from, from + b.len()) =~= b);
}

/// A reference with a dot that does not start with one is taken as it is, whatever is
/// deployed.
pub proof fn law_full_identifier_is_kept(
    issuer: Seq<char>,
    name: Seq<char>,
    contracts: Seq<ContractIdView>,
)
    requires
        issuer.len() > 0,
        issuer[0] != '.',
    ensures
        reference(issuer + "."@ + name, contracts) == "'"@ + issuer + "."@ + name,
{
    reveal_strlit(".");
    let full = issuer + "."@ + name;
    assert(full[issuer.len() as int] == '.');
    assert(full[0] == issuer[0]);
    assert("'"@ + full =~= "'"@ + issuer + "."@ + name);
}

/// A short name stands for the first deployed contract of that name.
pub proof fn law_short_name_is_the_first_deployed(
    before: Seq<ContractIdView>,
    id: ContractIdView,
    after: Seq<ContractIdView>,
)
    requires
        forall|i: int| 0 <= i < before.len() ==> (#[trigger] before[i]).name != id.name,
        !id.name.contains('.'),
    ensures
        ({
            let contracts = before + seq![id] + after;
            &&& reference(id.name, contracts) == "'"@ + id.issuer + "."@ + id.name
            &&& target(id.name, contracts) == CallTargetView::Deployed(id)
        }),
{
    let contracts = before + seq![id] + after;
    lemma_first_of_name(before, id, after);
    assert(id.name.len() > 0 ==> id.name.contains(id.name[0]));
    assert(without_leading(id.name, '.') == id.name);
    assert("'"@ + id.principal() =~= "'"@ + id.issuer + "."@ + id.name);
}

proof fn lemma_first_of_name(
    before: Seq<ContractIdView>,
    id: ContractIdView,
    after: Seq<ContractIdView>,
)
    requires
        forall|i: int| 0 <= i < before.len() ==> (#[trigger] before[i]).name != id.name,
    ensures
        first_named(before + seq![id] + after, id.name) == Some(id),
    decreases before.len(),
{
    let all = before + seq![id] + after;
    if before.len() > 0 {
        assert(all[0] == before[0]);
        assert(all.skip(1) =~= before.skip(1) + seq![id] + after);
        assert forall|i: int| 0 <= i < before.skip(1).len() implies (#[trigger] before.skip(
            1,
        )[i]).name != id.name by {
            assert(before.skip(1)[i] == before[i + 1]);
        }
        lemma_first_of_name(before.skip(1), id, after);
    } else {
        assert(all[0] == id);
    }
}

/// A short name that nothing is deployed under is left to the interpreter, behind a dot.
pub proof fn law_unknown_name_is_left_alone(name: Seq<char>, contracts: Seq<ContractIdView>)
    requires
        !name.contains('.'),
        forall|i: int| 0 <= i < contracts.len() ==> (#[trigger] contracts[i]).name != name,
    ensures
        reference(name, contracts) == "."@ + name,
        target(name, contracts) == CallTargetView::Transient,
{
    assert(name.len() > 0 ==> name.contains(name[0]));
    assert(without_leading(name, '.') == name);
    lemma_none_of_name(contracts, name);
}

proof fn lemma_none_of_name(contracts: Seq<ContractIdView>, name: Seq<char>)
    requires
        forall|i: int| 0 <= i < contracts.len() ==> (#[trigger] contracts[i]).name != name,
    ensures
        first_named(contracts, name) is None,
    decreases contracts.len(),
{
    if contracts.len() > 0 {
        assert forall|i: int| 0 <= i < contracts.skip(1).len() implies (#[trigger] contracts.skip(
            1,
        )[i]).name != name by {
            assert(contracts.skip(1)[i] == contracts[i + 1]);
        }
        lemma_none_of_name(contracts.skip(1), name);
    }
}

/// A call stands for what its texts say, and a list of contracts for each of them.
pub proof fn law_calls_are_taken_as_they_are(call: ContractCall, contracts: Seq<ContractId>)
    ensures
        call@.contract == call.contract@,
        call@.function == call.function@,
        call@.sender is Some == call.sender is Some,
        call.sender is Some ==> call@.sender->0 == call.sender->0@,
        call@.args.len() == call.args@.len(),
        forall|i: int| 0 <= i < call.args@.len() ==> #[trigger] call@.args[i] == call.args@[i]@,
        ids(contracts).len() == contracts.len(),
        forall|i: int|
            0 <= i < contracts.len() ==> (#[trigger] ids(contracts)[i]).issuer
                == contracts[i].issuer@ && ids(contracts)[i].name == contracts[i].name@,
{
}

/// The target of a call stands for the contract that it holds.
pub proof fn law_targets_are_taken_as_they_are(found: CallTarget)
    ensures
        found is Transient ==> found@ is Transient,
        found matches CallTarget::Deployed(id) ==> found@ matches CallTargetView::Deployed(view)
            && view.issuer == id.issuer@ && view.name == id.name@,
{
}

/// Behind its leading dots a name is resolved like any other: to the first deployed
/// contract of that name, and where there is none to the name itself, behind one dot.
pub proof fn law_dotted_name_is_resolved(
    contract: Seq<char>,
    before: Seq<ContractIdView>,
    id: ContractIdView,
    after: Seq<ContractIdView>,
)
    requires
        contract.len() > 0,
        contract[0] == '.',
        forall|i: int|
            0 <= i < before.len() ==> (#[trigger] before[i]).name != without_leading(
                contract,
                '.',
            ),
    ensures
        reference(contract, before) == "."@ + without_leading(contract, '.'),
        target(contract, before) == CallTargetView::Transient,
        id.name == without_leading(contract, '.') ==> {
            let contracts = before + seq![id] + after;
            &&& reference(contract, contracts) == "'"@ + id.issuer + "."@ + id.name
            &&& target(contract, contracts) == CallTargetView::Deployed(id)
        },
{
    lemma_none_of_name(before, without_leading(contract, '.'));
    if id.name == without_leading(contract, '.') {
        lemma_first_of_name(before, id, after);
        assert("'"@ + id.principal() =~= "'"@ + id.issuer + "."@ + id.name);
    }
}

/// A call to a contract by its full identifier shows the source of none of the deployed
/// contracts, whose names have no dots.
pub proof fn law_full_identifier_has_no_target(
    issuer: Seq<char>,
    name: Seq<char>,
    contracts: Seq<ContractIdView>,
)
    requires
        issuer.len() > 0,
        issuer[0] != '.',
        forall|i: int| 0 <= i < contracts.len() ==> !(#[trigger] contracts[i]).name.contains('.'),
    ensures
        target(issuer + "."@ + name, contracts) == CallTargetView::Transient,
{
    reveal_strlit(".");
    let full = issuer + "."@ + name;
    assert(full[issuer.len() as int] == '.');
    assert(full[0] == issuer[0]);
    assert(full.contains('.'));
    assert(without_leading(full, '.') == full);
    assert forall|i: int| 0 <= i < contracts.len() implies (#[trigger] contracts[i]).name
        != full by {
        assert(!contracts[i].name.contains('.'));
    }
    lemma_none_of_name(contracts, full);
}

} // verus!
