//! What holds of the protocol as a whole.

use crate::envelope;
use crate::envelope::{
    ControlResponseView, IncomingControlRequestView, RoutedControlResponseView,
};
use crate::errors::{ClaudeErrorView, RoutedSendFailureView};
use crate::hooks;
use crate::hooks::{EventHooksView, HookMatcherView, HookTableView};
use crate::ident;
use crate::interrupt;
use crate::interrupt::InterruptQueryErrorView;
use crate::json::JsonView;
use crate::permission;
use crate::permission::{PermissionMode, PermissionResultView};
use crate::protocol;
use crate::protocol::{ControlActionView, QueryEvent, QueryView, RouteActionView};
use crate::table;
use vstd::prelude::*;

verus! {

/// Decimal notation is made of digits.
proof fn lemma_decimal_digits(n: nat)
    ensures
        ident::decimal(n).len() > 0,
        forall|i: int|
            0 <= i < ident::decimal(n).len() ==> '0' <= #[trigger] ident::decimal(n)[i] <= '9',
    decreases n,
{
    if n >= 10 {
        lemma_decimal_digits(n / 10);
    }
}

/// Two numbers with the same decimal notation are the same.
proof fn lemma_decimal_injective(a: nat, b: nat)
    requires
        ident::decimal(a) == ident::decimal(b),
    ensures
        a == b,
    decreases a,
{
    if a >= 10 {
        lemma_decimal_digits(a / 10);
    }
    if b >= 10 {
        lemma_decimal_digits(b / 10);
    }
    assert(ident::decimal(a).last() == ident::digit(a % 10));
    assert(ident::decimal(b).last() == ident::digit(b % 10));
    if a >= 10 && b >= 10 {
        assert(ident::decimal(a).drop_last() =~= ident::decimal(a / 10));
        assert(ident::decimal(b).drop_last() =~= ident::decimal(b / 10));
        lemma_decimal_injective(a / 10, b / 10);
    }
}

/// No two hook callbacks share an identifier.
pub proof fn law_hook_ids_distinct(first: u64, second: u64)
    requires
        first != second,
    ensures
        ident::hook_id(first) != ident::hook_id(second),
{
    if ident::hook_id(first) == ident::hook_id(second) {
        let prefix = "hook_"@.len() as int;
        assert(ident::hook_id(first).skip(prefix) =~= ident::decimal(first as nat));
        assert(ident::hook_id(second).skip(prefix) =~= ident::decimal(second as nat));
        lemma_decimal_injective(first as nat, second as nat);
    }
}

/// No two control requests share an identifier: requests with other numbers, or with other
/// tokens, have other identifiers.
pub proof fn law_request_ids_distinct(
    first: u64,
    first_token: Seq<char>,
    second: u64,
    second_token: Seq<char>,
)
    requires
        first != second || first_token != second_token,
    ensures
        ident::request_id(first, first_token) != ident::request_id(second, second_token),
{
    reveal_strlit("req_");
    reveal_strlit("_");
    let a = ident::request_id(first, first_token);
    let b = ident::request_id(second, second_token);
    let da = ident::decimal(first as nat);
    let db = ident::decimal(second as nat);
    let la = da.len() as int;
    let lb = db.len() as int;
    lemma_decimal_digits(first as nat);
    lemma_decimal_digits(second as nat);
    if a == b {
        assert(a[4 + la] == '_');
        assert(b[4 + lb] == '_');
        if la < lb {
            assert(b[4 + la] == db[la]);
        }
        if lb < la {
            assert(a[4 + lb] == da[lb]);
        }
        assert(a.subrange(4, 4 + la) =~= da);
        assert(b.subrange(4, 4 + lb) =~= db);
        lemma_decimal_injective(first as nat, second as nat);
        assert(a.skip(5 + la) =~= first_token);
        assert(b.skip(5 + lb) =~= second_token);
    }
}

/// The names of an envelope's members are distinct.
proof fn lemma_envelope_names()
    ensures
        "type"@ != "response"@,
        "type"@ != "request"@,
        "type"@ != "request_id"@,
        "request"@ != "request_id"@,
        "subtype"@ != "request_id"@,
        "subtype"@ != "response"@,
        "request_id"@ != "response"@,
        "control_request"@ != "control_response"@,
{
    reveal_strlit("type");
    reveal_strlit("response");
    reveal_strlit("request");
    reveal_strlit("request_id");
    reveal_strlit("subtype");
    reveal_strlit("control_request");
    reveal_strlit("control_response");
    assert("type"@.len() == 4 && "request"@.len() == 7 && "subtype"@.len() == 7);
    assert("response"@.len() == 8 && "request_id"@.len() == 10);
    assert("control_request"@.len() == 15 && "control_response"@.len() == 16);
}

/// A control request that is sent is read back as it was: the same identifier, the same request.
pub proof fn law_sent_request_is_read_back(request_id: Seq<char>, request: JsonView)
    ensures
        envelope::control_request_of(envelope::control_request_message(request_id, request))
            == Some((IncomingControlRequestView { request_id, request })),
{
    lemma_envelope_names();
}

/// An answer to a control request is read back as a success for that request, with the payload
/// whole.
pub proof fn law_reply_is_read_back(request_id: Seq<char>, payload: JsonView)
    ensures
        envelope::control_response_of(envelope::success_message(request_id, payload)) == Some(
            (ControlResponseView {
                request_id,
                response: RoutedControlResponseView {
                    subtype: "success"@,
                    data: JsonView::object().with("response"@, payload),
                },
            }),
        ),
{
    lemma_envelope_names();
    let inner = Map::<Seq<char>, JsonView>::empty()
        .insert("subtype"@, JsonView::String("success"@))
        .insert("request_id"@, JsonView::String(request_id))
        .insert("response"@, payload);
    assert(inner.remove("subtype"@).remove("request_id"@) =~= Map::<
        Seq<char>,
        JsonView,
    >::empty().insert("response"@, payload));
}

/// What a control request asks for carries the identifier of that request, under which it is
/// answered.
pub proof fn law_actions_keep_the_request_id(
    query: QueryView,
    request: IncomingControlRequestView,
)
    ensures
        query.control_action(request) matches Ok(action) ==> action.request_id()
            == request.request_id,
{
}

/// A request that waits goes on waiting until it is answered or the reader exits.
proof fn lemma_waits_on(query: QueryView, events: Seq<QueryEvent>, number: u64, token: Seq<char>)
    requires
        !query.reader_exited,
        table::entry_of(query.pending, ident::request_id(number, token)) == Some(number),
        forall|i: int|
            0 <= i < events.len() ==> !protocol::ends_wait(
                #[trigger] events[i],
                ident::request_id(number, token),
            ),
    ensures
        !protocol::history(query, events).reader_exited,
        table::entry_of(
            protocol::history(query, events).pending,
            ident::request_id(number, token),
        ) == Some(number),
    decreases events.len(),
{
    if events.len() > 0 {
        let before = protocol::history(query, events.drop_last());
        assert(!protocol::ends_wait(events[events.len() - 1], ident::request_id(number, token)));
        lemma_waits_on(query, events.drop_last(), number, token);
        if let QueryEvent::Send { request: _, token: other } = events.last() {
            if before.request_counter != number || other != token {
                law_request_ids_distinct(number, token, before.request_counter, other);
            }
        }
    }
}

/// The response to a registered request reaches the waiter that was registered with it, known by
/// its handle, whatever happens in between, and leaves every other waiter where it was. This holds
/// for as long as the request is not answered before and the reader does not exit.
pub proof fn law_response_reaches_its_waiter(
    query: QueryView,
    request: JsonView,
    token: Seq<char>,
    events: Seq<QueryEvent>,
    message: JsonView,
    other: Seq<char>,
)
    requires
        !query.reader_exited,
        forall|i: int|
            0 <= i < events.len() ==> !protocol::ends_wait(
                #[trigger] events[i],
                ident::request_id(query.request_counter, token),
            ),
        protocol::answers(message, ident::request_id(query.request_counter, token)),
        other != ident::request_id(query.request_counter, token),
    ensures
        ({
            let (sent, outgoing) = query.register(request, token);
            let waiting = protocol::history(sent, events);
            let (after, action) = waiting.route(message);
            &&& outgoing matches Ok(outgoing) && action == (RouteActionView::Deliver {
                waiter: outgoing.waiter,
                response: envelope::control_response_of(message)->Some_0.response,
            })
            &&& table::entry_of(after.pending, other) == table::entry_of(waiting.pending, other)
            &&& table::entry_of(
                after.pending,
                ident::request_id(query.request_counter, token),
            ) is None
        }),
{
    let number = query.request_counter;
    let sent = query.register(request, token).0;
    lemma_waits_on(sent, events, number, token);
}

/// An identifier that nothing waits under is entered only by a request that is registered under it.
proof fn lemma_not_entered_again(query: QueryView, events: Seq<QueryEvent>, id: Seq<char>)
    requires
        table::entry_of(query.pending, id) is None,
        forall|i: int|
            0 <= i < events.len() && #[trigger] events[i] is Send ==> protocol::request_id_at(
                query,
                events,
                i,
            ) != id,
    ensures
        table::entry_of(protocol::history(query, events).pending, id) is None,
    decreases events.len(),
{
    if events.len() > 0 {
        let earlier = events.drop_last();
        let last = events.len() - 1;
        assert forall|i: int| 0 <= i < earlier.len() && #[trigger] earlier[i] is Send implies
            protocol::request_id_at(query, earlier, i) != id by {
            assert(events[i] is Send);
            assert(earlier.take(i) =~= events.take(i));
        }
        lemma_not_entered_again(query, earlier, id);
        assert(events.take(last) =~= earlier);
        assert(events[last] is Send ==> protocol::request_id_at(query, events, last) != id);
    }
}

/// Once a request is answered, a response with its identifier changes nothing and reaches nobody,
/// until another request is registered under that identifier.
pub proof fn law_answered_until_the_id_comes_again(
    query: QueryView,
    message: JsonView,
    events: Seq<QueryEvent>,
    again: JsonView,
    id: Seq<char>,
)
    requires
        protocol::answers(message, id),
        query.route(message).1 is Deliver,
        forall|i: int|
            0 <= i < events.len() && #[trigger] events[i] is Send ==> protocol::request_id_at(
                query.route(message).0,
                events,
                i,
            ) != id,
        protocol::answers(again, id),
    ensures
        ({
            let later = protocol::history(query.route(message).0, events);
            later.route(again) == (later, RouteActionView::Ignore)
        }),
{
    lemma_not_entered_again(query.route(message).0, events, id);
}

/// A request is answered once: a later response with the same identifier changes nothing and
/// reaches nobody, whatever happened in between, for as long as the counter of 64 bits has not
/// come round.
pub proof fn law_answered_once(
    query: QueryView,
    message: JsonView,
    events: Seq<QueryEvent>,
    again: JsonView,
    id: Seq<char>,
)
    requires
        query.wf(),
        query.waiters_distinct(),
        query.request_counter + protocol::requests_begun(events) <= u64::MAX,
        protocol::answers(message, id),
        query.route(message).1 is Deliver,
        protocol::answers(again, id),
    ensures
        ({
            let later = protocol::history(query.route(message).0, events);
            later.route(again) == (later, RouteActionView::Ignore)
        }),
{
    let number = query.pending[id];
    let answered = query.route(message).0;
    assert(protocol::names_waiter(id, number));
    let token = choose|token: Seq<char>| id == #[trigger] ident::request_id(number, token);
    assert forall|i: int| 0 <= i < events.len() && #[trigger] events[i] is Send implies
        protocol::request_id_at(answered, events, i) != id by {
        lemma_requests_begun_between(events, i, i + 1);
        law_request_counter_counts_requests(answered, events.take(i));
        law_request_ids_distinct(
            number,
            token,
            protocol::history(answered, events.take(i)).request_counter,
            events[i]->token,
        );
    }
    law_answered_until_the_id_comes_again(query, message, events, again, id);
}

/// The exit of the reader releases every waiter. From then on, whatever happens, no request stays
/// registered or gets written, and no response is delivered.
pub proof fn law_exit_is_final(
    query: QueryView,
    events: Seq<QueryEvent>,
    request: JsonView,
    token: Seq<char>,
    message: JsonView,
)
    ensures
        ({
            let later = protocol::history(query.exit(), events);
            &&& later.reader_exited
            &&& later.pending == Map::<Seq<char>, u64>::empty()
            &&& later.register(request, token).1 == Err::<
                protocol::OutgoingRequestView,
                RoutedSendFailureView,
            >(RoutedSendFailureView::NoAcknowledgement)
            &&& !(later.route(message).1 is Deliver)
        }),
    decreases events.len(),
{
    if events.len() > 0 {
        let before = protocol::history(query.exit(), events.drop_last());
        law_exit_is_final(query, events.drop_last(), request, token, message);
        assert(before.after(events.last()).pending =~= Map::<Seq<char>, u64>::empty());
    }
}

/// A query starts well-formed, and whatever happens to it keeps it so.
pub proof fn law_queries_stay_well_formed(query: QueryView, events: Seq<QueryEvent>)
    requires
        query.wf(),
    ensures
        QueryView::fresh().wf(),
        protocol::history(query, events).wf(),
    decreases events.len(),
{
    if events.len() > 0 {
        let before = protocol::history(query, events.drop_last());
        let after = before.after(events.last());
        law_queries_stay_well_formed(query, events.drop_last());
        if before.reader_exited {
            assert(after.pending =~= Map::<Seq<char>, u64>::empty());
        }
        if let QueryEvent::Send { request: _, token } = events.last() {
            assert(protocol::names_waiter(
                ident::request_id(before.request_counter, token),
                before.request_counter,
            ));
        }
    }
}

/// No two requests that wait share a waiter, whatever happens, for as long as the counter of
/// 64 bits has not come round.
pub proof fn law_waiters_stay_distinct(query: QueryView, events: Seq<QueryEvent>)
    requires
        query.waiters_distinct(),
        query.request_counter + protocol::requests_begun(events) <= u64::MAX,
    ensures
        QueryView::fresh().waiters_distinct(),
        protocol::history(query, events).waiters_distinct(),
    decreases events.len(),
{
    if events.len() > 0 {
        law_waiters_stay_distinct(query, events.drop_last());
        law_request_counter_counts_requests(query, events.drop_last());
    }
}

/// What comes of sending a request is what comes of registering it with the token of some UUID:
/// the identifier that it gets is `req_`, the number that the counter shows, and that token.
pub proof fn law_sending_registers_under_a_uuid(
    query: QueryView,
    request: JsonView,
    after: QueryView,
    result: Result<protocol::OutgoingRequestView, RoutedSendFailureView>,
)
    requires
        query.sends(request, after, result),
    ensures
        exists|token: Seq<char>|
            {
                &&& ident::is_simple_uuid(token)
                &&& after == query.after(QueryEvent::Send { request, token })
                &&& result matches Ok(outgoing) ==> outgoing.request_id
                    == #[trigger] ident::request_id(query.request_counter, token)
            },
{
    let token = choose|token: Seq<char>|
        ident::is_simple_uuid(token) && (after, result) == #[trigger] query.register(
            request,
            token,
        );
    let id = ident::request_id(query.request_counter, token);
    assert(after == query.after(QueryEvent::Send { request, token }));
}

/// What comes of an initialization is what comes of entering its callbacks and then registering
/// the request that announces them with the token of some UUID.
pub proof fn law_initializing_enters_and_sends(
    query: QueryView,
    events: Seq<EventHooksView>,
    after: QueryView,
    result: Result<protocol::OutgoingRequestView, RoutedSendFailureView>,
)
    requires
        (QueryView {
            hooks: query.hooks.enter(hooks::events_hooks(events)),
            ..query
        }).sends(protocol::initialize_request(events, query.hooks.next), after, result),
    ensures
        exists|token: Seq<char>|
            #[trigger] ident::is_simple_uuid(token) && after == protocol::history(
                query,
                seq![
                    QueryEvent::EnterHooks(events),
                    QueryEvent::Send {
                        request: protocol::initialize_request(events, query.hooks.next),
                        token,
                    },
                ],
            ),
{
    let request = protocol::initialize_request(events, query.hooks.next);
    let entered = query.after(QueryEvent::EnterHooks(events));
    law_sending_registers_under_a_uuid(entered, request, after, result);
    let token = choose|token: Seq<char>|
        {
            &&& ident::is_simple_uuid(token)
            &&& after == entered.after(QueryEvent::Send { request, token })
            &&& result matches Ok(outgoing) ==> outgoing.request_id
                == #[trigger] ident::request_id(entered.request_counter, token)
        };
    let steps = seq![QueryEvent::EnterHooks(events), QueryEvent::Send { request, token }];
    assert(steps.drop_last() =~= seq![QueryEvent::EnterHooks(events)]);
    assert(steps.drop_last().drop_last() =~= Seq::<QueryEvent>::empty());
    reveal_with_fuel(protocol::history, 3);
    assert(ident::is_simple_uuid(token) && after == protocol::history(query, steps));
}

/// The request counter shows how many control requests were begun, whatever became of them: those
/// that failed or were withdrawn count too. It comes round after as many as 64 bits can count.
pub proof fn law_request_counter_counts_requests(query: QueryView, events: Seq<QueryEvent>)
    ensures
        protocol::history(query, events).request_counter == hooks::counted(
            query.request_counter,
            protocol::requests_begun(events),
        ),
        query.request_counter + protocol::requests_begun(events) <= u64::MAX
            ==> protocol::history(query, events).request_counter == query.request_counter
            + protocol::requests_begun(events),
    decreases events.len(),
{
    hooks::lemma_counted(query.request_counter, 0, 0);
    if events.len() > 0 {
        law_request_counter_counts_requests(query, events.drop_last());
        hooks::lemma_counted(
            query.request_counter,
            protocol::requests_begun(events.drop_last()),
            1,
        );
    }
}

/// A control request is registered under `req_`, the number of requests that were begun before it
/// on the query, and its token.
pub proof fn law_request_is_numbered_by_those_before_it(
    query: QueryView,
    events: Seq<QueryEvent>,
    i: int,
)
    requires
        0 <= i < events.len(),
        events[i] is Send,
    ensures
        ({
            let before = protocol::history(query, events.take(i));
            let count = protocol::requests_begun(events.take(i));
            let id = protocol::request_id_at(query, events, i);
            &&& before.register(events[i]->request, events[i]->token).1 matches Ok(outgoing)
                ==> outgoing.request_id == id
            &&& id == ident::request_id(
                hooks::counted(query.request_counter, count),
                events[i]->token,
            )
            &&& query == QueryView::fresh() && count <= u64::MAX ==> id == "req_"@
                + ident::decimal(count) + "_"@ + events[i]->token
        }),
{
    law_request_counter_counts_requests(query, events.take(i));
}

/// As many requests as are begun before a later one are begun before an earlier one and from
/// there on, the earlier one counted.
proof fn lemma_requests_begun_between(events: Seq<QueryEvent>, i: int, j: int)
    requires
        0 <= i < j <= events.len(),
        events[i] is Send,
    ensures
        protocol::requests_begun(events.take(i)) < protocol::requests_begun(events.take(j)),
        protocol::requests_begun(events.take(j)) <= protocol::requests_begun(events),
    decreases events.len(),
{
    let before = events.drop_last();
    if j < events.len() {
        lemma_requests_begun_between(before, i, j);
        assert(before.take(i) =~= events.take(i));
        assert(before.take(j) =~= events.take(j));
    } else {
        assert(events.take(j) =~= events);
        if i < j - 1 {
            lemma_requests_begun_between(before, i, j - 1);
            assert(before.take(i) =~= events.take(i));
            assert(before.take(j - 1) =~= before);
        } else {
            assert(before =~= events.take(i));
        }
    }
}

/// A counter shows the same number again exactly after a multiple of what it counts.
proof fn lemma_counted_alike(first: u64, earlier: nat, later: nat)
    requires
        earlier < later,
    ensures
        hooks::counted(first, earlier) == hooks::counted(first, later) <==> (later - earlier) % (
        u64::MAX + 1) == 0,
        later - earlier <= u64::MAX ==> hooks::counted(first, earlier) != hooks::counted(
            first,
            later,
        ),
{
}

/// The control requests of a history are registered under distinct identifiers, unless there are
/// more of them than a counter of 64 bits can tell apart. Even then, two share one only with the
/// same token and with a multiple of what the counter counts between them.
pub proof fn law_requests_of_a_history_have_distinct_ids(
    query: QueryView,
    events: Seq<QueryEvent>,
    i: int,
    j: int,
)
    requires
        0 <= i < j < events.len(),
        events[i] is Send,
        events[j] is Send,
    ensures
        protocol::request_id_at(query, events, i) == protocol::request_id_at(query, events, j)
            <==> {
            &&& events[i]->token == events[j]->token
            &&& (protocol::requests_begun(events.take(j)) - protocol::requests_begun(
                events.take(i),
            )) % (u64::MAX + 1) == 0
        },
        protocol::requests_begun(events) <= u64::MAX + 1 ==> protocol::request_id_at(
            query,
            events,
            i,
        ) != protocol::request_id_at(query, events, j),
{
    let earlier = protocol::requests_begun(events.take(i));
    let later = protocol::requests_begun(events.take(j));
    let first = hooks::counted(query.request_counter, earlier);
    let second = hooks::counted(query.request_counter, later);
    assert(protocol::request_id_at(query, events, i) == ident::request_id(
        first,
        events[i]->token,
    )) by {
        law_request_is_numbered_by_those_before_it(query, events, i);
    }
    assert(protocol::request_id_at(query, events, j) == ident::request_id(
        second,
        events[j]->token,
    )) by {
        law_request_is_numbered_by_those_before_it(query, events, j);
    }
    assert(earlier < later < protocol::requests_begun(events)) by {
        lemma_requests_begun_between(events, i, j);
        lemma_requests_begun_between(events, j, j + 1);
    }
    lemma_counted_alike(query.request_counter, earlier, later);
    if first != second || events[i]->token != events[j]->token {
        law_request_ids_distinct(first, events[i]->token, second, events[j]->token);
    }
}

/// A message that is no control message is passed on as it is and changes nothing; a control
/// message is never passed on.
pub proof fn law_only_regular_messages_are_forwarded(query: QueryView, message: JsonView)
    ensures
        !protocol::is_control(message) ==> query.route(message) == (
            query,
            RouteActionView::Forward(message),
        ),
        protocol::is_control(message) ==> !(query.route(message).1 is Forward),
{
}

/// Of all that the reader receives, exactly the regular messages reach the stream, unchanged and
/// in order.
pub proof fn law_stream_is_the_regular_messages(query: QueryView, messages: Seq<JsonView>)
    ensures
        protocol::forwarded(protocol::run(query, messages).1) == messages.filter(
            |message: JsonView| !protocol::is_control(message),
        ),
    decreases messages.len(),
{
    reveal(Seq::filter);
    if messages.len() > 0 {
        let (before, actions) = protocol::run(query, messages.drop_last());
        let action = before.route(messages.last()).1;
        law_stream_is_the_regular_messages(query, messages.drop_last());
        law_only_regular_messages_are_forwarded(before, messages.last());
        assert(actions.push(action).drop_last() =~= actions);
    }
}

/// The stream ends with the end message, and the error that ended it, if there was one, comes
/// right before.
pub proof fn law_stream_ends(error: Option<Seq<char>>)
    ensures
        protocol::sentinels(error).last().text_member("type"@) == Some("end"@),
        match error {
            Some(text) => {
                &&& protocol::sentinels(error).len() == 2
                &&& protocol::sentinels(error)[0].text_member("type"@) == Some("error"@)
                &&& protocol::sentinels(error)[0].text_member("error"@) == Some(text)
            },
            None => protocol::sentinels(error).len() == 1,
        },
{
    reveal_strlit("type");
    reveal_strlit("error");
    assert("type"@.len() == 4 && "error"@.len() == 5);
}

/// Entering callbacks leaves what another identifier stands for alone.
pub(crate) proof fn lemma_entered_elsewhere(
    entries: Map<Seq<char>, u64>,
    first: u64,
    callbacks: Seq<u64>,
    id: Seq<char>,
)
    requires
        forall|k: int|
            0 <= k < callbacks.len() ==> id != #[trigger] ident::hook_id(
                hooks::counted(first, k as nat),
            ),
    ensures
        table::entry_of(hooks::entered(entries, first, callbacks), id) == table::entry_of(
            entries,
            id,
        ),
    decreases callbacks.len(),
{
    if callbacks.len() > 0 {
        lemma_entered_elsewhere(entries, first, callbacks.drop_last(), id);
        let last = callbacks.len() - 1;
        assert(id != ident::hook_id(hooks::counted(first, last as nat)));
    }
}

/// Each callback that is entered is found again under the identifier that it was announced with,
/// unless there are more of them than a counter of 64 bits can tell apart.
pub proof fn law_entered_hook_is_found(table_before: HookTableView, callbacks: Seq<u64>, k: int)
    requires
        0 <= k < callbacks.len() <= u64::MAX + 1,
    ensures
        table::entry_of(
            table_before.enter(callbacks).entries,
            ident::hook_id(hooks::counted(table_before.next, k as nat)),
        ) == Some(callbacks[k]),
    decreases callbacks.len(),
{
    let first = table_before.next;
    let last = callbacks.len() - 1;
    if k < last {
        law_entered_hook_is_found(table_before, callbacks.drop_last(), k);
        assert(hooks::counted(first, k as nat) != hooks::counted(first, last as nat));
        law_hook_ids_distinct(
            hooks::counted(first, k as nat),
            hooks::counted(first, last as nat),
        );
    }
}

/// Entering more callbacks leaves those that were entered before alone, until the counter of
/// 64 bits has come round to their numbers.
pub proof fn law_earlier_hooks_stay(
    table_before: HookTableView,
    callbacks: Seq<u64>,
    number: u64,
)
    requires
        number < table_before.next,
        table_before.next + callbacks.len() <= u64::MAX + 1 + number,
    ensures
        table::entry_of(table_before.enter(callbacks).entries, ident::hook_id(number))
            == table::entry_of(table_before.entries, ident::hook_id(number)),
{
    let first = table_before.next;
    assert forall|k: int| 0 <= k < callbacks.len() implies ident::hook_id(number)
        != #[trigger] ident::hook_id(hooks::counted(first, k as nat)) by {
        law_hook_ids_distinct(number, hooks::counted(first, k as nat));
    }
    lemma_entered_elsewhere(table_before.entries, first, callbacks, ident::hook_id(number));
}

/// A `hook_callback` request with the identifier that a callback was announced with runs that
/// callback.
pub proof fn law_announced_hook_runs(
    query: QueryView,
    callbacks: Seq<u64>,
    k: int,
    request: IncomingControlRequestView,
)
    requires
        0 <= k < callbacks.len() <= u64::MAX + 1,
        request.request.text_member("subtype"@) == Some("hook_callback"@),
        request.request.text_member("callback_id"@) == Some(
            ident::hook_id(hooks::counted(query.hooks.next, k as nat)),
        ),
    ensures
        (QueryView { hooks: query.hooks.enter(callbacks), ..query }).control_action(request)
            == Ok::<ControlActionView, ClaudeErrorView>(
            (ControlActionView::RunHook {
                request_id: request.request_id,
                callback: callbacks[k],
                input: protocol::input_of(request.request),
                tool_use_id: request.request.text_member("tool_use_id"@),
            }),
        ),
{
    law_entered_hook_is_found(query.hooks, callbacks, k);
    reveal_strlit("can_use_tool");
    reveal_strlit("hook_callback");
    assert("can_use_tool"@.len() == 12 && "hook_callback"@.len() == 13);
}

/// The number that the next callback gets is how many callbacks were entered, those of
/// initializations that failed included. It comes round after as many as 64 bits can count.
pub proof fn law_hook_counter_counts_callbacks(query: QueryView, events: Seq<QueryEvent>)
    ensures
        protocol::history(query, events).hooks.next == hooks::counted(
            query.hooks.next,
            protocol::hooks_entered(events),
        ),
        query.hooks.next + protocol::hooks_entered(events) <= u64::MAX ==> protocol::history(
            query,
            events,
        ).hooks.next == query.hooks.next + protocol::hooks_entered(events),
    decreases events.len(),
{
    hooks::lemma_counted(query.hooks.next, 0, 0);
    if events.len() > 0 {
        law_hook_counter_counts_callbacks(query, events.drop_last());
        if let QueryEvent::EnterHooks(entered) = events.last() {
            hooks::lemma_counted(
                query.hooks.next,
                protocol::hooks_entered(events.drop_last()),
                hooks::events_hooks(entered).len(),
            );
        }
    }
}

/// The identifiers of callbacks count on from the number that the first one gets.
proof fn lemma_hook_ids_handed_out(query: QueryView, events: Seq<QueryEvent>)
    ensures
        protocol::hook_ids_handed_out(query, events) == Seq::new(
            protocol::hooks_entered(events),
            |k: int| ident::hook_id(hooks::counted(query.hooks.next, k as nat)),
        ),
    decreases events.len(),
{
    let ids = protocol::hook_ids_handed_out(query, events);
    let next = query.hooks.next;
    let numbered = |k: int| ident::hook_id(hooks::counted(next, k as nat));
    if events.len() > 0 {
        let earlier = events.drop_last();
        let count = protocol::hooks_entered(earlier);
        lemma_hook_ids_handed_out(query, earlier);
        law_hook_counter_counts_callbacks(query, earlier);
        assert forall|k: int| 0 <= k < ids.len() implies ids[k] == #[trigger] numbered(k) by {
            if k >= count {
                hooks::lemma_counted(next, count, (k - count) as nat);
                assert(count + (k - count) as nat == k as nat);
            }
        }
    }
    assert(ids =~= Seq::new(protocol::hooks_entered(events), numbered));
}

/// Over all initializations of a query the callbacks get the identifiers that count on one by
/// one: `n` callbacks of a new query get exactly `hook_0` up to `hook_` and `n - 1`, in order and
/// each once, unless there are more of them than a counter of 64 bits can tell apart.
pub proof fn law_hook_ids_count_on(query: QueryView, events: Seq<QueryEvent>)
    ensures
        ({
            let ids = protocol::hook_ids_handed_out(query, events);
            &&& ids.len() == protocol::hooks_entered(events)
            &&& forall|k: int|
                0 <= k < ids.len() ==> #[trigger] ids[k] == ident::hook_id(
                    hooks::counted(query.hooks.next, k as nat),
                )
            &&& query == QueryView::fresh() ==> forall|k: int|
                0 <= k < ids.len() && k <= u64::MAX ==> #[trigger] ids[k] == "hook_"@
                    + ident::decimal(k as nat)
            &&& ids.len() <= u64::MAX + 1 ==> ids.no_duplicates()
        }),
{
    let ids = protocol::hook_ids_handed_out(query, events);
    let next = query.hooks.next;
    lemma_hook_ids_handed_out(query, events);
    if query == QueryView::fresh() {
        assert forall|k: int| 0 <= k < ids.len() && k <= u64::MAX implies #[trigger] ids[k]
            == "hook_"@ + ident::decimal(k as nat) by {
            assert(hooks::counted(0, k as nat) == k);
        }
    }
    if ids.len() <= u64::MAX + 1 {
        assert forall|k: int, m: int| 0 <= k < m < ids.len() implies ids[k] != ids[m] by {
            assert(hooks::counted(next, k as nat) != hooks::counted(next, m as nat));
            law_hook_ids_distinct(
                hooks::counted(next, k as nat),
                hooks::counted(next, m as nat),
            );
        }
    }
}

/// What an identifier stands for stays, whatever happens to the query, until a callback is entered
/// under that identifier.
pub proof fn law_hooks_stay_until_the_id_comes_again(
    query: QueryView,
    events: Seq<QueryEvent>,
    id: Seq<char>,
)
    requires
        !protocol::hook_ids_handed_out(query, events).contains(id),
    ensures
        table::entry_of(protocol::history(query, events).hooks.entries, id) == table::entry_of(
            query.hooks.entries,
            id,
        ),
    decreases events.len(),
{
    if events.len() > 0 {
        let earlier = events.drop_last();
        let before = protocol::history(query, earlier);
        let ids = protocol::hook_ids_handed_out(query, events);
        let earlier_ids = protocol::hook_ids_handed_out(query, earlier);
        assert forall|k: int| 0 <= k < earlier_ids.len() implies earlier_ids[k] != id by {
            assert(ids[k] == earlier_ids[k]);
        }
        law_hooks_stay_until_the_id_comes_again(query, earlier, id);
        if let QueryEvent::EnterHooks(entered) = events.last() {
            let callbacks = hooks::events_hooks(entered);
            assert forall|k: int| 0 <= k < callbacks.len() implies id != #[trigger] ident::hook_id(
                hooks::counted(before.hooks.next, k as nat),
            ) by {
                assert(ids[earlier_ids.len() + k] == ident::hook_id(
                    hooks::counted(before.hooks.next, k as nat),
                ));
            }
            lemma_entered_elsewhere(before.hooks.entries, before.hooks.next, callbacks, id);
        }
    }
}

/// A callback that was entered stays under its identifier, whatever happens to the query, until
/// the counter of 64 bits has come round to its number.
pub proof fn law_entered_hooks_stay(query: QueryView, events: Seq<QueryEvent>, number: u64)
    requires
        number < query.hooks.next,
        query.hooks.next + protocol::hooks_entered(events) <= u64::MAX + 1 + number,
    ensures
        table::entry_of(protocol::history(query, events).hooks.entries, ident::hook_id(number))
            == table::entry_of(query.hooks.entries, ident::hook_id(number)),
{
    let ids = protocol::hook_ids_handed_out(query, events);
    law_hook_ids_count_on(query, events);
    assert forall|k: int| 0 <= k < ids.len() implies ids[k] != ident::hook_id(number) by {
        law_hook_ids_distinct(number, hooks::counted(query.hooks.next, k as nat));
    }
    law_hooks_stay_until_the_id_comes_again(query, events, ident::hook_id(number));
}

/// A matcher's configuration stands where the matcher stood and announces its callbacks, which
/// follow those of the matchers before it.
pub(crate) proof fn lemma_matcher_announced(matchers: Seq<HookMatcherView>, first: u64, j: int)
    requires
        0 <= j < matchers.len(),
    ensures
        ({
            let offset = hooks::matchers_hooks(matchers.take(j)).len();
            let own = matchers[j].hooks;
            &&& hooks::matchers_config(matchers, first).len() == matchers.len()
            &&& hooks::matchers_config(matchers, first)[j] == hooks::matcher_config(
                matchers[j],
                hooks::counted(first, offset),
            )
            &&& offset + own.len() <= hooks::matchers_hooks(matchers).len()
            &&& forall|p: int|
                0 <= p < own.len() ==> hooks::matchers_hooks(matchers)[offset + p]
                    == #[trigger] own[p]
        }),
    decreases matchers.len(),
{
    let before = matchers.drop_last();
    lemma_matchers_config_len(before, first);
    if j < matchers.len() - 1 {
        lemma_matcher_announced(before, first, j);
        assert(before.take(j) =~= matchers.take(j));
    } else {
        assert(before =~= matchers.take(j));
    }
}

/// Every matcher has its configuration.
pub(crate) proof fn lemma_matchers_config_len(matchers: Seq<HookMatcherView>, first: u64)
    ensures
        hooks::matchers_config(matchers, first).len() == matchers.len(),
    decreases matchers.len(),
{
    if matchers.len() > 0 {
        lemma_matchers_config_len(matchers.drop_last(), first);
    }
}

/// An event's configuration stands under its name, and its callbacks follow those of the events
/// before it.
pub(crate) proof fn lemma_event_announced(events: Seq<EventHooksView>, first: u64, i: int)
    requires
        0 <= i < events.len(),
        forall|k: int| i < k < events.len() ==> (#[trigger] events[k]).event != events[i].event,
    ensures
        ({
            let offset = hooks::events_hooks(events.take(i)).len();
            let own = hooks::matchers_hooks(events[i].matchers);
            &&& hooks::events_config(events, first) is Object
            &&& hooks::events_config(events, first).member(events[i].event) == Some(
                JsonView::Array(
                    hooks::matchers_config(events[i].matchers, hooks::counted(first, offset)),
                ),
            )
            &&& offset + own.len() <= hooks::events_hooks(events).len()
            &&& forall|q: int|
                0 <= q < own.len() ==> hooks::events_hooks(events)[offset + q] == #[trigger] own[q]
        }),
    decreases events.len(),
{
    let before = events.drop_last();
    lemma_events_config_is_object(before, first);
    if i < events.len() - 1 {
        assert forall|k: int| i < k < before.len() implies (#[trigger] before[k]).event
            != before[i].event by {
            assert(events[k].event != events[i].event);
        }
        lemma_event_announced(before, first, i);
        assert(before.take(i) =~= events.take(i));
        assert(events[events.len() - 1].event != events[i].event);
    } else {
        assert(before =~= events.take(i));
    }
}

/// The configuration of the hooks is an object.
proof fn lemma_events_config_is_object(events: Seq<EventHooksView>, first: u64)
    ensures
        hooks::events_config(events, first) is Object,
    decreases events.len(),
{
    if events.len() > 0 {
        lemma_events_config_is_object(events.drop_last(), first);
    }
}

/// Each matcher announces its callbacks under consecutive ascending identifiers, which follow
/// those of all that stands before it in the same initialization and of all earlier ones.
pub proof fn law_matcher_announces_consecutive_identifiers(
    query: QueryView,
    earlier: Seq<QueryEvent>,
    events: Seq<EventHooksView>,
    i: int,
    j: int,
)
    requires
        0 <= i < events.len(),
        0 <= j < events[i].matchers.len(),
        forall|k: int| i < k < events.len() ==> (#[trigger] events[k]).event != events[i].event,
    ensures
        ({
            let first = protocol::history(query, earlier).hooks.next;
            let place = hooks::callbacks_before(events, i, j);
            let count = protocol::hooks_entered(earlier) + place;
            let own = events[i].matchers[j].hooks;
            let ids = hooks::callback_ids(hooks::counted(query.hooks.next, count), own.len());
            let handed_out = protocol::hook_ids_handed_out(
                query,
                earlier.push(QueryEvent::EnterHooks(events)),
            );
            &&& hooks::events_config(events, first).member(events[i].event) matches Some(
                JsonView::Array(matchers),
            )
            &&& matchers.len() == events[i].matchers.len()
            &&& matchers[j].member("hookCallbackIds"@) == Some(JsonView::Array(ids))
            &&& forall|p: int|
                0 <= p < own.len() ==> #[trigger] ids[p] == JsonView::String(handed_out[count + p])
            &&& place + own.len() <= hooks::events_hooks(events).len()
            &&& forall|p: int|
                0 <= p < own.len() ==> hooks::events_hooks(events)[place + p] == #[trigger] own[p]
        }),
{
    let first = protocol::history(query, earlier).hooks.next;
    let own = events[i].matchers;
    let event_offset = hooks::events_hooks(events.take(i)).len();
    let matcher_offset = hooks::matchers_hooks(own.take(j)).len();
    let all = hooks::matchers_hooks(own);
    lemma_event_announced(events, first, i);
    lemma_matcher_announced(own, hooks::counted(first, event_offset), j);
    law_hook_counter_counts_callbacks(query, earlier);
    hooks::lemma_counted(first, event_offset, matcher_offset);
    hooks::lemma_counted(
        query.hooks.next,
        protocol::hooks_entered(earlier),
        event_offset + matcher_offset,
    );
    let with_these = earlier.push(QueryEvent::EnterHooks(events));
    let count = protocol::hooks_entered(earlier) + hooks::callbacks_before(events, i, j);
    let ids = hooks::callback_ids(hooks::counted(query.hooks.next, count), own[j].hooks.len());
    assert(with_these.drop_last() =~= earlier);
    law_hook_ids_count_on(query, with_these);
    assert forall|p: int| 0 <= p < own[j].hooks.len() implies #[trigger] ids[p]
        == JsonView::String(protocol::hook_ids_handed_out(query, with_these)[count + p]) by {
        hooks::lemma_counted(query.hooks.next, count, p as nat);
    }
    assert forall|p: int| 0 <= p < own[j].hooks.len() implies hooks::events_hooks(
        events,
    )[event_offset + matcher_offset + p] == #[trigger] own[j].hooks[p] by {
        assert(all[matcher_offset + p] == own[j].hooks[p]);
        assert(hooks::events_hooks(events)[event_offset + (matcher_offset + p)]
            == all[matcher_offset + p]);
    }
    reveal_strlit("matcher");
    reveal_strlit("hookCallbackIds");
    reveal_strlit("timeout");
    assert("matcher"@.len() == 7 && "hookCallbackIds"@.len() == 15 && "timeout"@.len() == 7);
}

/// Whatever the configuration announces is what was given: the identifier that stands under an
/// event, in its matcher, in the place of a callback leads to that callback.
pub proof fn law_announced_identifiers_lead_to_their_callbacks(
    table_before: HookTableView,
    events: Seq<EventHooksView>,
    i: int,
    j: int,
    p: int,
)
    requires
        0 <= i < events.len(),
        0 <= j < events[i].matchers.len(),
        0 <= p < events[i].matchers[j].hooks.len(),
        forall|k: int| i < k < events.len() ==> (#[trigger] events[k]).event != events[i].event,
        hooks::events_hooks(events).len() <= u64::MAX + 1,
    ensures
        ({
            let config = hooks::events_config(events, table_before.next);
            let after = table_before.enter(hooks::events_hooks(events));
            &&& config.member(events[i].event) matches Some(JsonView::Array(matchers))
            &&& matchers.len() == events[i].matchers.len()
            &&& matchers[j].member("hookCallbackIds"@) matches Some(JsonView::Array(ids))
            &&& ids.len() == events[i].matchers[j].hooks.len()
            &&& ids[p] matches JsonView::String(id)
            &&& table::entry_of(after.entries, id) == Some(events[i].matchers[j].hooks[p])
        }),
{
    let next = table_before.next;
    let own = events[i].matchers;
    let event_offset = hooks::events_hooks(events.take(i)).len();
    let matcher_offset = hooks::matchers_hooks(own.take(j)).len();
    let event_first = hooks::counted(next, event_offset);
    lemma_event_announced(events, next, i);
    lemma_matcher_announced(own, event_first, j);
    assert(hooks::matchers_hooks(own)[matcher_offset + p] == own[j].hooks[p]);
    let place = event_offset + (matcher_offset + p);
    assert(hooks::events_hooks(events)[place] == hooks::matchers_hooks(own)[matcher_offset + p]);
    law_entered_hook_is_found(table_before, hooks::events_hooks(events), place);
    hooks::lemma_counted(next, event_offset, matcher_offset);
    hooks::lemma_counted(next, event_offset + matcher_offset, p as nat);
    reveal_strlit("matcher");
    reveal_strlit("hookCallbackIds");
    reveal_strlit("timeout");
    assert("matcher"@.len() == 7 && "hookCallbackIds"@.len() == 15 && "timeout"@.len() == 7);
}

/// A tool server is found under its name: the last one that was given with that name.
pub proof fn law_last_server_of_a_name_is_found(servers: Seq<(String, u64)>, name: Seq<char>)
    ensures
        forall|i: int|
            0 <= i < servers.len() && (#[trigger] servers[i]).0@ == name && (forall|j: int|
                i < j < servers.len() ==> (#[trigger] servers[j]).0@ != name) ==> table::entry_of(
                protocol::server_table(servers),
                name,
            ) == Some(servers[i].1),
        (forall|i: int| 0 <= i < servers.len() ==> (#[trigger] servers[i]).0@ != name)
            ==> table::entry_of(protocol::server_table(servers), name) is None,
    decreases servers.len(),
{
    if servers.len() > 0 {
        let before = servers.drop_last();
        law_last_server_of_a_name_is_found(before, name);
        let last = servers.last();
        assert(last == servers[servers.len() - 1]);
        assert forall|i: int|
            0 <= i < servers.len() && (#[trigger] servers[i]).0@ == name && (forall|j: int|
                i < j < servers.len() ==> (#[trigger] servers[j]).0@ != name) implies table::entry_of(
            protocol::server_table(servers),
            name,
        ) == Some(servers[i].1) by {
            if i < servers.len() - 1 {
                assert(before[i] == servers[i]);
                assert forall|j: int| i < j < before.len() implies (#[trigger] before[j]).0@
                    != name by {
                    assert(before[j] == servers[j]);
                }
            }
        }
        if forall|i: int| 0 <= i < servers.len() ==> (#[trigger] servers[i]).0@ != name {
            assert forall|i: int| 0 <= i < before.len() implies (#[trigger] before[i]).0@
                != name by {
                assert(before[i] == servers[i]);
            }
        }
    }
}

/// The tool permission callback that the reader asks is the one that was set when it started:
/// one that is set later, or anything else that happens, changes nothing about that.
pub proof fn law_reader_keeps_its_permission_callback(query: QueryView, events: Seq<QueryEvent>)
    requires
        forall|i: int| 0 <= i < events.len() ==> !(#[trigger] events[i] is Start),
    ensures
        protocol::history(query.after(QueryEvent::Start), events).reader_can_use_tool
            == query.can_use_tool,
    decreases events.len(),
{
    if events.len() > 0 {
        assert(!(events[events.len() - 1] is Start));
        law_reader_keeps_its_permission_callback(query, events.drop_last());
    }
}

/// The first answer to the initialization stays, whatever comes later; a failure stores nothing.
pub proof fn law_first_initialization_stays(
    query: QueryView,
    first: RoutedControlResponseView,
    events: Seq<QueryEvent>,
    failure: RoutedSendFailureView,
)
    requires
        query.initialization is None,
    ensures
        protocol::history(query.initialized(Ok(first)), events).initialization == Some(first.data),
        query.initialized(Err(failure)) == query,
    decreases events.len(),
{
    if events.len() > 0 {
        law_first_initialization_stays(query, first, events.drop_last(), failure);
    }
}

/// There is no answer to the initialization until one ends well.
pub proof fn law_no_initialization_without_an_answer(query: QueryView, events: Seq<QueryEvent>)
    requires
        query.initialization is None,
        forall|i: int|
            0 <= i < events.len() ==> !(#[trigger] events[i] matches QueryEvent::EndInitialization(
                Ok(_),
            )),
    ensures
        protocol::history(query, events).initialization is None,
    decreases events.len(),
{
    if events.len() > 0 {
        assert(!(events[events.len() - 1] matches QueryEvent::EndInitialization(Ok(_))));
        law_no_initialization_without_an_answer(query, events.drop_last());
    }
}

/// An interrupt counts as accepted exactly when a correlated response with the subtype `success`
/// arrived, whatever its payload.
pub proof fn law_acceptance_is_the_success_envelope(
    outcome: Result<RoutedControlResponseView, RoutedSendFailureView>,
)
    ensures
        interrupt::interrupt_outcome(outcome) is Ok <==> (outcome matches Ok(routed)
            && routed.subtype == "success"@),
{
}

/// Every response to an interrupt that is neither a success nor an error with a message is
/// reported as unusable, with its subtype.
pub proof fn law_other_responses_are_unusable(routed: RoutedControlResponseView)
    requires
        routed.subtype != "success"@,
        routed.subtype != "error"@ || routed.data.text_member("error"@) is None,
    ensures
        interrupt::interrupt_outcome(Ok(routed)) == Err::<
            interrupt::InterruptRequestAcceptedView,
            InterruptQueryErrorView,
        >((InterruptQueryErrorView::UnexpectedResponse { subtype: routed.subtype })),
{
}

/// A receipt is whole or absent: it lists every item of the array in order, and there is none
/// where an item is no string.
pub proof fn law_receipt_is_whole_or_absent(data: JsonView, items: Seq<JsonView>)
    requires
        data.nested("response"@, "still_queued"@) == Some(JsonView::Array(items)),
    ensures
        match interrupt::still_queued_of(data) {
            Some(list) => {
                &&& list.len() == items.len()
                &&& forall|i: int|
                    0 <= i < items.len() ==> #[trigger] items[i] == JsonView::String(list[i])
            },
            None => exists|i: int| 0 <= i < items.len() && !(#[trigger] items[i] is String),
        },
{
}

/// A mode that the peer confirms by its name is the mode that was asked for, and no other.
pub proof fn law_confirmed_mode_is_read_back(mode: PermissionMode, refusal: Seq<char>)
    ensures
        permission::mode_reply(
            JsonView::object().with(
                "response"@,
                JsonView::object().with(
                    "mode"@,
                    protocol::mode_request(mode).member("mode"@)->Some_0,
                ),
            ),
            refusal,
        ) == Ok::<PermissionMode, ClaudeErrorView>(mode),
{
    let confirmed = JsonView::object().with(
        "response"@,
        JsonView::object().with("mode"@, JsonView::String(mode.name())),
    );
    reveal_strlit("subtype");
    reveal_strlit("mode");
    reveal_strlit("error");
    reveal_strlit("response");
    assert("subtype"@.len() == 7 && "mode"@.len() == 4);
    assert("error"@.len() == 5 && "response"@.len() == 8);
    law_named_mode_is_the_effective_one(confirmed, mode, refusal);
}

/// A mode that the peer names in its reply is the effective one, whatever else the reply says, as
/// long as it reports no error.
pub proof fn law_named_mode_is_the_effective_one(
    data: JsonView,
    mode: PermissionMode,
    refusal: Seq<char>,
)
    requires
        data.text_member("error"@) is None,
        data.nested("response"@, "mode"@) == Some(JsonView::String(mode.name())),
    ensures
        permission::mode_reply(data, refusal) == Ok::<PermissionMode, ClaudeErrorView>(mode),
{
    reveal_strlit("default");
    reveal_strlit("acceptEdits");
    reveal_strlit("plan");
    reveal_strlit("bypassPermissions");
    assert("default"@.len() == 7 && "acceptEdits"@.len() == 11);
    assert("plan"@.len() == 4 && "bypassPermissions"@.len() == 17);
}

/// A decision reaches the peer as it was taken: an allowed tool runs with the updated input, or
/// with the one that was asked about, and a denial carries its message, and the interrupt flag
/// only where it is set.
pub proof fn law_decision_is_reported(result: PermissionResultView, input: JsonView)
    ensures
        ({
            let payload = permission::permission_payload(result, input);
            match result {
                PermissionResultView::Allow { updated_input, updated_permissions } => {
                    &&& payload.text_member("behavior"@) == Some("allow"@)
                    &&& payload.member("updatedInput"@) == Some(
                        match updated_input {
                            Some(updated) => updated,
                            None => input,
                        },
                    )
                    &&& (payload.member("updatedPermissions"@) is Some
                        <==> updated_permissions is Some)
                },
                PermissionResultView::Deny { message, interrupt } => {
                    &&& payload.text_member("behavior"@) == Some("deny"@)
                    &&& payload.text_member("message"@) == Some(message)
                    &&& payload.member("interrupt"@) == (if interrupt {
                        Some(JsonView::Bool(true))
                    } else {
                        None
                    })
                },
            }
        }),
{
    reveal_strlit("behavior");
    reveal_strlit("updatedInput");
    reveal_strlit("updatedPermissions");
    reveal_strlit("message");
    reveal_strlit("interrupt");
    assert("behavior"@.len() == 8 && "updatedInput"@.len() == 12);
    assert("updatedPermissions"@.len() == 18 && "message"@.len() == 7);
    assert("interrupt"@.len() == 9);
}

} // verus!
