//! The bridge between an editor and the language server: what is asked of the server,
//! and what the editor is told of its answers. Locations, documents and answers are
//! passed on as they are.

use vstd::prelude::*;

verus! {

/// What an editor asks for.
#[derive(Debug, PartialEq, Eq, Structural, Clone, Copy)]
pub enum RequestKind {
    Initialize,
    Completion,
    SignatureHelp,
    Definition,
    DocumentSymbol,
    DocumentFormatting,
    DocumentRangeFormatting,
    Hover,
}

/// What comes in over the channels of the server; a channel that is closed brings
/// nothing.
#[derive(Debug, PartialEq)]
pub enum Received<N, R> {
    Notification(Option<N>),
    Request(Option<(RequestKind, R)>),
}

/// What the server does with what came in.
#[derive(Debug, PartialEq)]
pub enum Task<N, R> {
    /// Take in a notification.
    Notify(N),
    /// Answer a request that changes the state of the editor.
    Mutate(R),
    /// Answer a request from the state of the editor as it is.
    Read(R),
    /// Wait for more.
    Wait,
}

/// What the server does with what came in: only the first request of an editor changes
/// its state.
pub open spec fn task_for<N, R>(received: Received<N, R>) -> Task<N, R> {
    match received {
        Received::Notification(Some(notification)) => Task::Notify(notification),
        Received::Request(Some((RequestKind::Initialize, request))) => Task::Mutate(request),
        Received::Request(Some((_, request))) => Task::Read(request),
        _ => Task::Wait,
    }
}

/// Decides what the server does with what came in.
pub fn dispatch<N, R>(received: Received<N, R>) -> (task: Task<N, R>)
    ensures
        task == task_for(received),
{
    match received {
        Received::Notification(Some(notification)) => Task::Notify(notification),
        Received::Notification(None) => Task::Wait,
        Received::Request(Some((kind, request))) => match kind {
            RequestKind::Initialize => Task::Mutate(request),
            _ => Task::Read(request),
        },
        Received::Request(None) => Task::Wait,
    }
}

/// What is sent back for a result: a failure is not answered.
pub open spec fn reply_of<T, E>(result: Result<T, E>) -> Option<T> {
    match result {
        Ok(value) => Some(value),
        Err(_) => None,
    }
}

/// Decides what is sent back for a result.
pub fn reply_for<T, E>(result: Result<T, E>) -> (reply: Option<T>)
    ensures
        reply == reply_of(result),
{
    match result {
        Ok(value) => Some(value),
        Err(_) => None,
    }
}

/// How a message to the server went.
#[derive(Debug, PartialEq)]
pub enum Exchange<R> {
    /// The channel could not be used: a thread panicked while it held it.
    Poisoned,
    /// The server is gone.
    Closed,
    /// The server did not answer.
    Unanswered,
    Answered(R),
}

/// The answer to a message, where there is one.
pub open spec fn answer_of<R>(exchange: Exchange<R>) -> Option<R> {
    match exchange {
        Exchange::Answered(answer) => Some(answer),
        _ => None,
    }
}

/// Takes the answer out of an exchange.
pub fn send_request<R>(exchange: Exchange<R>) -> (answer: Option<R>)
    ensures
        answer == answer_of(exchange),
{
    match exchange {
        Exchange::Answered(answer) => Some(answer),
        _ => None,
    }
}

/// What the server answers a notification: the findings on each file, where its
/// location can be written as a URL, and a message for the user.
#[derive(Debug, PartialEq)]
pub struct NotificationResponse<D, L> {
    pub aggregated_diagnostics: Vec<(Option<String>, D)>,
    pub notification: Option<(L, String)>,
}

/// What the editor is told.
#[derive(Debug, PartialEq)]
pub enum Delivery<D, L> {
    Publish { url: String, diagnostics: D },
    ShowMessage { level: L, message: String },
}

/// What the editor is told of findings: those on a file without a URL are dropped.
pub open spec fn publications<D, L>(list: Seq<(Option<String>, D)>) -> Seq<Delivery<D, L>>
    decreases list.len(),
{
    if list.len() == 0 {
        Seq::empty()
    } else {
        let rest = publications(list.drop_last());
        match list.last().0 {
            Some(url) => rest.push(Delivery::Publish { url, diagnostics: list.last().1 }),
            None => rest,
        }
    }
}

/// What the editor is told of an answer: first the findings, then the message.
pub open spec fn deliveries_of<D, L>(response: NotificationResponse<D, L>) -> Seq<Delivery<D, L>> {
    let published = publications(response.aggregated_diagnostics@);
    match response.notification {
        Some((level, message)) => published.push(Delivery::ShowMessage { level, message }),
        None => published,
    }
}

/// What the editor is told after a notification; nothing where it was not answered.
pub fn send_notification<D, L>(exchange: Exchange<NotificationResponse<D, L>>) -> (told: Vec<
    Delivery<D, L>,
>)
    ensures
        match exchange {
            Exchange::Answered(response) => told@ == deliveries_of(response),
            _ => told@.len() == 0,
        },
{
    let mut told: Vec<Delivery<D, L>> = Vec::new();
    let response = match exchange {
        Exchange::Answered(response) => response,
        _ => {
            return told;
        },
    };
    let ghost all = response.aggregated_diagnostics@;
    let mut left = response.aggregated_diagnostics;
    let ghost mut taken: int = 0;
    while left.len() > 0
        invariant
            0 <= taken <= all.len(),
            left@ == all.skip(taken),
            told@ == publications::<D, L>(all.take(taken)),
        decreases left.len(),
    {
        let (location, diagnostics) = left.remove(0);
        assert(all.take(taken + 1).drop_last() =~= all.take(taken));
        match location {
            Some(url) => {
                told.push(Delivery::Publish { url, diagnostics });
            },
            None => {},
        }
        proof {
            taken = taken + 1;
        }
        assert(left@ =~= all.skip(taken));
    }
    assert(all.take(taken) =~= all);
    match response.notification {
        Some((level, message)) => {
            told.push(Delivery::ShowMessage { level, message });
        },
        None => {},
    }
    told
}

/// The answer of the server to a request.
#[derive(Debug, PartialEq)]
pub enum LspRequestResponse<I, C, D, S, H, G, E> {
    Initialize(I),
    CompletionItems(C),
    Definition(Option<D>),
    DocumentSymbol(S),
    Hover(Option<H>),
    SignatureHelp(Option<G>),
    DocumentFormatting(Option<E>),
    DocumentRangeFormatting(Option<E>),
}

/// An error that an editor is told.
#[derive(Debug, PartialEq, Eq, Structural, Clone, Copy)]
pub enum BridgeError {
    InternalError,
}

/// Starting needs an answer: without one of the right kind it is an error.
pub fn initialize<I, C, D, S, H, G, E>(
    response: Option<LspRequestResponse<I, C, D, S, H, G, E>>,
) -> (answer: Result<I, BridgeError>)
    ensures
        match response {
            Some(LspRequestResponse::Initialize(result)) => answer == Ok::<I, BridgeError>(result),
            _ => answer == Err::<I, BridgeError>(BridgeError::InternalError),
        },
{
    match response {
        Some(LspRequestResponse::Initialize(result)) => Ok(result),
        _ => Err(BridgeError::InternalError),
    }
}

/// The completions, where the server sent any.
pub fn completion<I, C, D, S, H, G, E>(
    response: Option<LspRequestResponse<I, C, D, S, H, G, E>>,
) -> (answer: Option<C>)
    ensures
        match response {
            Some(LspRequestResponse::CompletionItems(items)) => answer == Some(items),
            _ => answer is None,
        },
{
    match response {
        Some(LspRequestResponse::CompletionItems(items)) => Some(items),
        _ => None,
    }
}

/// The definition, where the server found one.
pub fn goto_definition<I, C, D, S, H, G, E>(
    response: Option<LspRequestResponse<I, C, D, S, H, G, E>>,
) -> (answer: Option<D>)
    ensures
        match response {
            Some(LspRequestResponse::Definition(found)) => answer == found,
            _ => answer is None,
        },
{
    match response {
        Some(LspRequestResponse::Definition(found)) => found,
        _ => None,
    }
}

/// The symbols of a document, where the server sent any.
pub fn document_symbol<I, C, D, S, H, G, E>(
    response: Option<LspRequestResponse<I, C, D, S, H, G, E>>,
) -> (answer: Option<S>)
    ensures
        match response {
            Some(LspRequestResponse::DocumentSymbol(symbols)) => answer == Some(symbols),
            _ => answer is None,
        },
{
    match response {
        Some(LspRequestResponse::DocumentSymbol(symbols)) => Some(symbols),
        _ => None,
    }
}

/// The hover text, where the server has one.
pub fn hover<I, C, D, S, H, G, E>(
    response: Option<LspRequestResponse<I, C, D, S, H, G, E>>,
) -> (answer: Option<H>)
    ensures
        match response {
            Some(LspRequestResponse::Hover(data)) => answer == data,
            _ => answer is None,
        },
{
    match response {
        Some(LspRequestResponse::Hover(data)) => data,
        _ => None,
    }
}

/// The signature help, where the server has any.
pub fn signature_help<I, C, D, S, H, G, E>(
    response: Option<LspRequestResponse<I, C, D, S, H, G, E>>,
) -> (answer: Option<G>)
    ensures
        match response {
            Some(LspRequestResponse::SignatureHelp(data)) => answer == data,
            _ => answer is None,
        },
{
    match response {
        Some(LspRequestResponse::SignatureHelp(data)) => data,
        _ => None,
    }
}

/// The edits that format a document, where the server has any.
pub fn formatting<I, C, D, S, H, G, E>(
    response: Option<LspRequestResponse<I, C, D, S, H, G, E>>,
) -> (answer: Option<E>)
    ensures
        match response {
            Some(LspRequestResponse::DocumentFormatting(data)) => answer == data,
            _ => answer is None,
        },
{
    match response {
        Some(LspRequestResponse::DocumentFormatting(data)) => data,
        _ => None,
    }
}

/// The edits that format a part of a document, where the server has any.
pub fn range_formatting<I, C, D, S, H, G, E>(
    response: Option<LspRequestResponse<I, C, D, S, H, G, E>>,
) -> (answer: Option<E>)
    ensures
        match response {
            Some(LspRequestResponse::DocumentRangeFormatting(data)) => answer == data,
            _ => answer is None,
        },
{
    match response {
        Some(LspRequestResponse::DocumentRangeFormatting(data)) => data,
        _ => None,
    }
}

/// A notification for the server, about a file at `0`.
#[derive(Debug, PartialEq)]
pub enum Notice<P> {
    ContractOpened(P),
    ManifestOpened(P),
    ContractSaved(P),
    ManifestSaved(P),
    ContractChanged(P, String),
    ContractClosed(P),
}

/// What an event in the editor leads to.
#[derive(Debug, PartialEq)]
pub enum Reaction<P> {
    /// The server is told; the code lenses are refreshed after it where `refresh` says
    /// so.
    Notify { notice: Notice<P>, refresh: bool },
    /// The user is warned.
    Warn(String),
    Ignore,
}

/// A file was opened: `contract` is its location where it is a contract, `manifest`
/// where it is a manifest.
pub fn did_open<P>(contract: Option<P>, manifest: Option<P>) -> (reaction: Reaction<P>)
    ensures
        match (contract, manifest) {
            (Some(location), _) => reaction == (Reaction::Notify {
                notice: Notice::ContractOpened(location),
                refresh: true,
            }),
            (None, Some(location)) => reaction == (Reaction::Notify {
                notice: Notice::ManifestOpened(location),
                refresh: true,
            }),
            (None, None) => reaction matches Reaction::Warn(message) && message@
                == "Unsupported file opened"@,
        },
{
    match (contract, manifest) {
        (Some(location), _) => Reaction::Notify {
            notice: Notice::ContractOpened(location),
            refresh: true,
        },
        (None, Some(location)) => Reaction::Notify {
            notice: Notice::ManifestOpened(location),
            refresh: true,
        },
        (None, None) => Reaction::Warn("Unsupported file opened".to_owned()),
    }
}

/// A file was saved.
pub fn did_save<P>(contract: Option<P>, manifest: Option<P>) -> (reaction: Reaction<P>)
    ensures
        match (contract, manifest) {
            (Some(location), _) => reaction == (Reaction::Notify {
                notice: Notice::ContractSaved(location),
                refresh: true,
            }),
            (None, Some(location)) => reaction == (Reaction::Notify {
                notice: Notice::ManifestSaved(location),
                refresh: true,
            }),
            (None, None) => reaction == Reaction::<P>::Ignore,
        },
{
    match (contract, manifest) {
        (Some(location), _) => Reaction::Notify {
            notice: Notice::ContractSaved(location),
            refresh: true,
        },
        (None, Some(location)) => Reaction::Notify {
            notice: Notice::ManifestSaved(location),
            refresh: true,
        },
        (None, None) => Reaction::Ignore,
    }
}

/// A file was changed. The whole text stands in the first of the changes.
pub fn did_change<P>(contract: Option<P>, changes: &Vec<String>) -> (reaction: Reaction<P>)
    requires
        contract is Some ==> changes@.len() > 0,
    ensures
        match contract {
            Some(location) => reaction matches Reaction::Notify { notice, refresh } && !refresh
                && (notice matches Notice::ContractChanged(changed, text) && changed == location
                && text@ == changes@[0]@),
            None => reaction == Reaction::<P>::Ignore,
        },
{
    match contract {
        Some(location) => Reaction::Notify {
            notice: Notice::ContractChanged(location, changes[0].clone()),
            refresh: false,
        },
        None => Reaction::Ignore,
    }
}

/// A file was closed.
pub fn did_close<P>(contract: Option<P>) -> (reaction: Reaction<P>)
    ensures
        match contract {
            Some(location) => reaction == (Reaction::Notify {
                notice: Notice::ContractClosed(location),
                refresh: false,
            }),
            None => reaction == Reaction::<P>::Ignore,
        },
{
    match contract {
        Some(location) => Reaction::Notify {
            notice: Notice::ContractClosed(location),
            refresh: false,
        },
        None => Reaction::Ignore,
    }
}

/// What is done with the state of the editor, whatever it is: a notification and the
/// first request may change it, every other request is given it to read.
#[verifier::reject_recursive_types(S)]
#[verifier::reject_recursive_types(N)]
#[verifier::reject_recursive_types(R)]
pub struct Handlers<S, N, R, A, E> {
    pub notify: spec_fn(S, N) -> (S, Result<A, E>),
    pub mutate: spec_fn(S, R) -> (S, Result<A, E>),
    pub read: spec_fn(S, R) -> Result<A, E>,
}

/// The state of the editor after something came in, and what is sent back for it.
pub open spec fn serve_one<S, N, R, A, E>(
    handlers: Handlers<S, N, R, A, E>,
    state: S,
    received: Received<N, R>,
) -> (S, Option<A>) {
    match task_for(received) {
        Task::Notify(notification) => {
            let done = (handlers.notify)(state, notification);
            (done.0, reply_of(done.1))
        },
        Task::Mutate(request) => {
            let done = (handlers.mutate)(state, request);
            (done.0, reply_of(done.1))
        },
        Task::Read(request) => (state, reply_of((handlers.read)(state, request))),
        Task::Wait => (state, None),
    }
}

/// The state of the editor after all that came in, and what is sent back for each of it.
pub open spec fn serve<S, N, R, A, E>(
    handlers: Handlers<S, N, R, A, E>,
    state: S,
    received: Seq<Received<N, R>>,
) -> (S, Seq<Option<A>>)
    decreases received.len(),
{
    if received.len() == 0 {
        (state, Seq::empty())
    } else {
        let before = serve(handlers, state, received.drop_last());
        let last = serve_one(handlers, before.0, received.last());
        (last.0, before.1.push(last.1))
    }
}

/// Over any run of messages each is served once, in order, on the one state that those
/// before it left, and gets what it is answered from that state. Only a notification
/// and the first request of an editor change the state. Neither a failure nor a closed
/// channel ends the run: a closed channel changes nothing and is answered nothing, and
/// the messages behind it are served all the same.
pub proof fn law_each_message_is_served_once<S, N, R, A, E>(
    handlers: Handlers<S, N, R, A, E>,
    state: S,
    received: Seq<Received<N, R>>,
)
    ensures
        serve(handlers, state, received).1.len() == received.len(),
        forall|i: int|
            0 <= i < received.len() ==> {
                let before = serve(handlers, state, received.take(i)).0;
                let served = serve_one(handlers, before, #[trigger] received[i]);
                &&& serve(handlers, state, received).1[i] == served.1
                &&& serve(handlers, state, received.take(i + 1)).0 == served.0
                &&& !(received[i] is Notification) && !(received[i] matches Received::Request(
                    Some((RequestKind::Initialize, _)),
                )) ==> served.0 == before
                &&& task_for(received[i]) is Wait ==> served == (before, None::<A>)
            },
    decreases received.len(),
{
    if received.len() > 0 {
        let rest = received.drop_last();
        law_each_message_is_served_once(handlers, state, rest);
        assert forall|i: int| 0 <= i < received.len() implies {
            let before = serve(handlers, state, received.take(i)).0;
            let served = serve_one(handlers, before, #[trigger] received[i]);
            &&& serve(handlers, state, received).1[i] == served.1
            &&& serve(handlers, state, received.take(i + 1)).0 == served.0
            &&& !(received[i] is Notification) && !(received[i] matches Received::Request(
                Some((RequestKind::Initialize, _)),
            )) ==> served.0 == before
            &&& task_for(received[i]) is Wait ==> served == (before, None::<A>)
        } by {
            assert(received.take(i + 1).drop_last() =~= received.take(i));
            if i < rest.len() {
                assert(rest[i] == received[i]);
                assert(rest.take(i) =~= received.take(i));
            } else {
                assert(rest =~= received.take(i));
            }
        }
    }
}

/// A message is answered exactly where what it leads to succeeds.
pub proof fn law_failures_are_not_answered<S, N, R, A, E>(
    handlers: Handlers<S, N, R, A, E>,
    state: S,
    received: Received<N, R>,
)
    ensures
        serve_one(handlers, state, received).1 is Some <==> match task_for(received) {
            Task::Notify(notification) => (handlers.notify)(state, notification).1 is Ok,
            Task::Mutate(request) => (handlers.mutate)(state, request).1 is Ok,
            Task::Read(request) => (handlers.read)(state, request) is Ok,
            Task::Wait => false,
        },
{
}

/// The state of the editor is changed by its first request and by notifications alone:
/// every other request is answered from it as it is.
pub proof fn law_requests_leave_the_state_alone<N, R>(kind: RequestKind, request: R)
    ensures
        task_for::<N, R>(Received::Request(Some((kind, request)))) == (if kind
            == RequestKind::Initialize {
            Task::<N, R>::Mutate(request)
        } else {
            Task::<N, R>::Read(request)
        }),
{
}

/// The editor is told of every file whose location can be written as a URL, and of no
/// other.
pub proof fn law_findings_are_published_by_url<D, L>(list: Seq<(Option<String>, D)>)
    ensures
        forall|k: int|
            0 <= k < list.len() && (#[trigger] list[k]).0 is Some ==> publications::<D, L>(
                list,
            ).contains(Delivery::Publish { url: list[k].0->0, diagnostics: list[k].1 }),
        forall|i: int|
            0 <= i < publications::<D, L>(list).len() ==> exists|k: int|
                {
                    &&& 0 <= k < list.len()
                    &&& (#[trigger] list[k]).0 is Some
                    &&& #[trigger] publications::<D, L>(list)[i] == (Delivery::<D, L>::Publish {
                        url: list[k].0->0,
                        diagnostics: list[k].1,
                    })
                },
    decreases list.len(),
{
    if list.len() > 0 {
        let rest = list.drop_last();
        let told = publications::<D, L>(list);
        let before = publications::<D, L>(rest);
        law_findings_are_published_by_url::<D, L>(rest);
        assert forall|k: int|
            0 <= k < list.len() && (#[trigger] list[k]).0 is Some implies told.contains(
            Delivery::Publish { url: list[k].0->0, diagnostics: list[k].1 },
        ) by {
            let wanted: Delivery<D, L> = Delivery::Publish {
                url: list[k].0->0,
                diagnostics: list[k].1,
            };
            if k < rest.len() {
                assert(rest[k] == list[k]);
                let i = choose|i: int| 0 <= i < before.len() && before[i] == wanted;
                assert(told[i] == wanted);
            } else {
                assert(told[told.len() - 1] == wanted);
            }
        }
        assert forall|i: int| 0 <= i < told.len() implies exists|k: int|
            {
                &&& 0 <= k < list.len()
                &&& (#[trigger] list[k]).0 is Some
                &&& #[trigger] told[i] == (Delivery::<D, L>::Publish {
                    url: list[k].0->0,
                    diagnostics: list[k].1,
                })
            } by {
            if i < before.len() {
                assert(told[i] == before[i]);
                let k = choose|k: int|
                    {
                        &&& 0 <= k < rest.len()
                        &&& (#[trigger] rest[k]).0 is Some
                        &&& before[i] == (Delivery::<D, L>::Publish {
                            url: rest[k].0->0,
                            diagnostics: rest[k].1,
                        })
                    };
                assert(list[k] == rest[k]);
            } else {
                assert(list[list.len() - 1].0 is Some);
            }
        }
    }
}

/// The message of an answer is the last thing that the editor is told, with its level
/// and its text, whether or not anything is published; without one no message is shown.
/// Before it come the findings, and nothing else.
pub proof fn law_message_is_shown_last<D, L>(response: NotificationResponse<D, L>)
    ensures
        ({
            let told = deliveries_of(response);
            let published = publications::<D, L>(response.aggregated_diagnostics@);
            &&& response.notification matches Some((level, message)) ==> told.len()
                == published.len() + 1 && told.last() == (Delivery::<D, L>::ShowMessage {
                level,
                message,
            })
            &&& response.notification is None ==> told.len() == published.len()
            &&& forall|i: int| 0 <= i < published.len() ==> #[trigger] told[i] == published[i]
            &&& forall|i: int| 0 <= i < published.len() ==> (#[trigger] told[i]) is Publish
        }),
{
    lemma_only_published::<D, L>(response.aggregated_diagnostics@);
}

proof fn lemma_only_published<D, L>(list: Seq<(Option<String>, D)>)
    ensures
        forall|i: int|
            0 <= i < publications::<D, L>(list).len() ==> (#[trigger] publications::<D, L>(
                list,
            )[i]) is Publish,
    decreases list.len(),
{
    if list.len() > 0 {
        lemma_only_published::<D, L>(list.drop_last());
    }
}

/// The findings on each file with a URL are published once, in order, at that URL; those
/// on a file without one are not.
pub proof fn law_findings_are_published_in_order<D, L>(
    a: Seq<(Option<String>, D)>,
    b: Seq<(Option<String>, D)>,
    url: String,
    findings: D,
)
    ensures
        publications::<D, L>(Seq::empty()).len() == 0,
        publications::<D, L>(seq![(Some(url), findings)]) == seq![
            Delivery::<D, L>::Publish { url, diagnostics: findings },
        ],
        publications::<D, L>(seq![(None::<String>, findings)]).len() == 0,
        publications::<D, L>(a + b) == publications::<D, L>(a) + publications::<D, L>(b),
    decreases b.len(),
{
    let one: Seq<(Option<String>, D)> = seq![(Some(url), findings)];
    let none: Seq<(Option<String>, D)> = seq![(None::<String>, findings)];
    assert(one.drop_last() =~= Seq::empty());
    assert(none.drop_last() =~= Seq::empty());
    assert(publications::<D, L>(Seq::empty()) =~= Seq::empty());
    assert(publications::<D, L>(one) =~= seq![
        Delivery::<D, L>::Publish { url, diagnostics: findings },
    ]);
    if b.len() == 0 {
        assert(a + b =~= a);
        assert(publications::<D, L>(a) + publications::<D, L>(b) =~= publications::<D, L>(a));
    } else {
        law_findings_are_published_in_order::<D, L>(a, b.drop_last(), url, findings);
        assert((a + b).drop_last() =~= a + b.drop_last());
        assert(publications::<D, L>(a + b) =~= publications::<D, L>(a) + publications::<D, L>(b));
    }
}

/// An answer is taken where there is one, and a result is sent back where it succeeded;
/// nothing is made up.
pub proof fn law_answers_are_passed_on<R, T, E>(exchange: Exchange<R>, result: Result<T, E>)
    ensures
        exchange matches Exchange::Answered(answer) ==> answer_of(exchange) == Some(answer),
        !(exchange is Answered) ==> answer_of(exchange) is None,
        result matches Ok(value) ==> reply_of(result) == Some(value),
        result is Err ==> reply_of(result) is None,
{
}

/// A notification and a request are each handed on as they came; a closed channel is
/// waited on.
pub proof fn law_messages_are_handed_on<N, R>(notification: N)
    ensures
        task_for::<N, R>(Received::Notification(Some(notification))) == Task::<N, R>::Notify(
            notification,
        ),
        task_for::<N, R>(Received::Notification(None)) == Task::<N, R>::Wait,
        task_for::<N, R>(Received::Request(None)) == Task::<N, R>::Wait,
{
}

/// A file that was opened is told to the server, as a contract where it is one and else
/// as a manifest, and the code lenses are refreshed; of any other file the user is warned.
pub proof fn law_opened_files_are_told<P>(
    contract: Option<P>,
    manifest: Option<P>,
    reaction: Reaction<P>,
)
    requires
        call_ensures(did_open::<P>, (contract, manifest), reaction),
    ensures
        contract is Some ==> reaction == (Reaction::Notify {
            notice: Notice::ContractOpened(contract->0),
            refresh: true,
        }),
        contract is None && manifest is Some ==> reaction == (Reaction::Notify {
            notice: Notice::ManifestOpened(manifest->0),
            refresh: true,
        }),
        contract is None && manifest is None ==> (reaction matches Reaction::Warn(message)
            && message@ == "Unsupported file opened"@),
{
}

/// A file that was saved is told to the server, as a contract where it is one and else as
/// a manifest, and the code lenses are refreshed; any other file is passed over.
pub proof fn law_saved_files_are_told<P>(
    contract: Option<P>,
    manifest: Option<P>,
    reaction: Reaction<P>,
)
    requires
        call_ensures(did_save::<P>, (contract, manifest), reaction),
    ensures
        contract is Some ==> reaction == (Reaction::Notify {
            notice: Notice::ContractSaved(contract->0),
            refresh: true,
        }),
        contract is None && manifest is Some ==> reaction == (Reaction::Notify {
            notice: Notice::ManifestSaved(manifest->0),
            refresh: true,
        }),
        contract is None && manifest is None ==> reaction is Ignore,
{
}

/// A contract that was changed is told to the server with the text of the first change;
/// one that was closed is told too. Any other file is passed over.
pub proof fn law_changed_and_closed_contracts_are_told<P>(
    contract: Option<P>,
    changes: Vec<String>,
    changed: Reaction<P>,
    closed: Reaction<P>,
)
    requires
        contract is Some ==> changes@.len() > 0,
        call_ensures(did_change::<P>, (contract, &changes), changed),
        call_ensures(did_close::<P>, (contract,), closed),
    ensures
        contract matches Some(location) ==> {
            &&& closed == (Reaction::Notify {
                notice: Notice::ContractClosed(location),
                refresh: false,
            })
            &&& changed matches Reaction::Notify { notice, refresh }
            &&& !refresh
            &&& notice matches Notice::ContractChanged(told, text)
            &&& told == location && text@ == changes@[0]@
        },
        contract is None ==> changed is Ignore && closed is Ignore,
{
}

/// The answer to a request is handed to the editor as it is; without one, or with one of
/// another kind, it is told that there is nothing, but for the first request, which is an
/// error then.
pub proof fn law_answers_reach_the_editor<I, C, D, S, H, G, E>(
    response: Option<LspRequestResponse<I, C, D, S, H, G, E>>,
    initialized: Result<I, BridgeError>,
    completed: Option<C>,
    defined: Option<D>,
    symbols: Option<S>,
)
    requires
        call_ensures(initialize::<I, C, D, S, H, G, E>, (response,), initialized),
        call_ensures(completion::<I, C, D, S, H, G, E>, (response,), completed),
        call_ensures(goto_definition::<I, C, D, S, H, G, E>, (response,), defined),
        call_ensures(document_symbol::<I, C, D, S, H, G, E>, (response,), symbols),
    ensures
        response is Some && response->0 is Initialize <==> initialized is Ok,
        initialized is Ok ==> response == Some(
            LspRequestResponse::<I, C, D, S, H, G, E>::Initialize(initialized->Ok_0),
        ),
        response is Some && response->0 is CompletionItems <==> completed is Some,
        completed is Some ==> response == Some(
            LspRequestResponse::<I, C, D, S, H, G, E>::CompletionItems(completed->0),
        ),
        defined is Some <==> response is Some && response->0 is Definition
            && response->0->Definition_0 is Some,
        defined is Some ==> response->0->Definition_0 == defined,
        response is Some && response->0 is DocumentSymbol <==> symbols is Some,
        symbols is Some ==> response == Some(
            LspRequestResponse::<I, C, D, S, H, G, E>::DocumentSymbol(symbols->0),
        ),
{
}

/// Hover texts, signatures and edits are handed to the editor as they are, each for its
/// own request.
pub proof fn law_details_reach_the_editor<I, C, D, S, H, G, E>(
    response: Option<LspRequestResponse<I, C, D, S, H, G, E>>,
    hovered: Option<H>,
    signature: Option<G>,
    edits: Option<E>,
    range_edits: Option<E>,
)
    requires
        call_ensures(hover::<I, C, D, S, H, G, E>, (response,), hovered),
        call_ensures(signature_help::<I, C, D, S, H, G, E>, (response,), signature),
        call_ensures(formatting::<I, C, D, S, H, G, E>, (response,), edits),
        call_ensures(range_formatting::<I, C, D, S, H, G, E>, (response,), range_edits),
    ensures
        response is Some && response->0 is Hover ==> hovered == response->0->Hover_0,
        hovered is Some ==> response is Some && response->0 is Hover,
        response is Some && response->0 is SignatureHelp ==> signature
            == response->0->SignatureHelp_0,
        signature is Some ==> response is Some && response->0 is SignatureHelp,
        response is Some && response->0 is DocumentFormatting ==> edits
            == response->0->DocumentFormatting_0,
        edits is Some ==> response is Some && response->0 is DocumentFormatting,
        response is Some && response->0 is DocumentRangeFormatting ==> range_edits
            == response->0->DocumentRangeFormatting_0,
        range_edits is Some ==> response is Some && response->0 is DocumentRangeFormatting,
{
}

/// After a notification that was answered the editor is told the findings on each file
/// with a URL, and then the message, where there is one; after one that was not answered
/// it is told nothing.
pub proof fn law_editor_is_told_what_was_answered<D, L>(
    exchange: Exchange<NotificationResponse<D, L>>,
    told: Vec<Delivery<D, L>>,
)
    requires
        call_ensures(send_notification::<D, L>, (exchange,), told),
    ensures
        !(exchange is Answered) ==> told@.len() == 0,
        exchange matches Exchange::Answered(response) ==> {
            let published = publications::<D, L>(response.aggregated_diagnostics@);
            match response.notification {
                Some((level, message)) => told@ == published.push(
                    Delivery::ShowMessage { level, message },
                ),
                None => told@ == published,
            }
        },
{
}

/// What comes in is done as its kind asks, what succeeds is sent back, and what is
/// answered is taken.
pub proof fn law_messages_are_served<N, R, T, E, A>(
    received: Received<N, R>,
    task: Task<N, R>,
    result: Result<T, E>,
    reply: Option<T>,
    exchange: Exchange<A>,
    answer: Option<A>,
)
    requires
        call_ensures(dispatch::<N, R>, (received,), task),
        call_ensures(reply_for::<T, E>, (result,), reply),
        call_ensures(send_request::<A>, (exchange,), answer),
    ensures
        received matches Received::Notification(Some(notification)) ==> task
            == Task::<N, R>::Notify(notification),
        received matches Received::Request(Some((kind, request))) ==> task == if kind
            == RequestKind::Initialize {
            Task::<N, R>::Mutate(request)
        } else {
            Task::<N, R>::Read(request)
        },
        received == Received::<N, R>::Notification(None) || received
            == Received::<N, R>::Request(None) ==> task is Wait,
        reply is Some <==> result is Ok,
        reply is Some ==> reply->0 == result->Ok_0,
        answer is Some <==> exchange is Answered,
        answer is Some ==> exchange == Exchange::Answered(answer->0),
{
}

} // verus!
