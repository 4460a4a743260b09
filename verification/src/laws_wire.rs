//! What holds of JSON trees, identifiers and the messages that go over the wire.

use crate::encode;
use crate::encode::ValueNode;
use crate::envelope;
use crate::envelope::{
    ControlResponse, ControlResponseView, IncomingControlRequest, IncomingControlRequestView,
    RoutedControlResponse, RoutedControlResponseView,
};
use crate::errors::{ClaudeError, ClaudeErrorView, RoutedSendFailure, RoutedSendFailureView};
use crate::hooks;
use crate::hooks::{EventHooksView, HookMatcher};
use crate::ident;
use crate::json::{Json, JsonView};
use crate::model;
use crate::permission;
use crate::permission::PermissionMode;
use crate::protocol;
use crate::protocol::{OutgoingRequest, OutgoingRequestView};
use vstd::prelude::*;

verus! {

/// The number that decimal digits spell.
pub open spec fn numeral(digits: Seq<char>) -> int
    decreases digits.len(),
{
    if digits.len() == 0 {
        0
    } else {
        10 * numeral(digits.drop_last()) + (digits.last() as int - '0' as int)
    }
}

/// Decimal notation is made of digits, spells the number, and starts with a zero only for zero
/// itself.
pub proof fn law_decimal_spells_the_number(n: nat)
    ensures
        numeral(ident::decimal(n)) == n,
        ident::decimal(n).len() > 0,
        forall|i: int|
            0 <= i < ident::decimal(n).len() ==> '0' <= #[trigger] ident::decimal(n)[i] <= '9',
        n > 0 ==> ident::decimal(n)[0] != '0',
    decreases n,
{
    let digits = ident::decimal(n);
    if n >= 10 {
        law_decimal_spells_the_number(n / 10);
        assert(digits.drop_last() =~= ident::decimal(n / 10));
    } else {
        assert(digits.drop_last() =~= Seq::<char>::empty());
        assert(numeral(digits.drop_last()) == 0);
    }
}

/// An identifier is its prefix and its number, and that of a request the token after it.
pub proof fn law_identifiers_are_spelled_out(number: u64, token: Seq<char>)
    ensures
        ident::hook_id(number) == seq!['h', 'o', 'o', 'k', '_'] + ident::decimal(number as nat),
        ident::request_id(number, token) == seq!['r', 'e', 'q', '_'] + ident::decimal(
            number as nat,
        ) + seq!['_'] + token,
{
    reveal_strlit("hook_");
    reveal_strlit("req_");
    reveal_strlit("_");
    assert("hook_"@ =~= seq!['h', 'o', 'o', 'k', '_']);
    assert("req_"@ =~= seq!['r', 'e', 'q', '_']);
    assert("_"@ =~= seq!['_']);
}

/// The token of a UUID is made of 32 lower-case hexadecimal digits, with the version and the
/// variant in their places.
pub proof fn law_uuid_tokens(token: Seq<char>)
    ensures
        ident::is_simple_uuid(token) <==> {
            &&& token.len() == 32
            &&& forall|i: int|
                0 <= i < 32 ==> {
                    ||| '0' <= #[trigger] token[i] <= '9'
                    ||| 'a' <= token[i] <= 'f'
                }
            &&& token[12] == '4'
            &&& '8' <= token[16] <= 'b'
        },
{
}

/// A counter goes up by one with each step, and from the greatest number back to zero.
pub proof fn law_counter_steps(first: u64, steps: nat)
    ensures
        hooks::counted(first, 0) == first,
        hooks::counted(first, steps + 1) == if hooks::counted(first, steps) == u64::MAX {
            0
        } else {
            hooks::counted(first, steps) + 1
        },
{
    hooks::lemma_counted(first, steps, 1);
}

/// A tree means what it holds: its scalar, its items in order, or its members, of which the last
/// with a name counts.
pub proof fn law_tree_means_what_it_holds(tree: Json)
    ensures
        match tree {
            Json::Null => tree@ == JsonView::Null,
            Json::Bool(b) => tree@ == JsonView::Bool(b),
            Json::Number(n) => tree@ == JsonView::Number(n),
            Json::String(s) => tree@ == JsonView::String(s@),
            Json::Array(items) => {
                &&& tree@ matches JsonView::Array(views)
                &&& views.len() == items@.len()
                &&& forall|i: int| 0 <= i < items@.len() ==> #[trigger] views[i] == items@[i]@
            },
            Json::Object(members) => {
                &&& tree@ matches JsonView::Object(views)
                &&& forall|name: Seq<char>| #[trigger]
                    views.contains_key(name) ==> exists|i: int|
                        0 <= i < members@.len() && (#[trigger] members@[i]).0@ == name
                &&& forall|i: int|
                    0 <= i < members@.len() && (forall|j: int|
                        i < j < members@.len() ==> (#[trigger] members@[j]).0@ != members@[i].0@)
                        ==> views.contains_key((#[trigger] members@[i]).0@)
                        && views[members@[i].0@] == members@[i].1@
            },
        },
{
    if let Json::Object(members) = tree {
        lemma_members_count(members@);
    }
}

/// Of the members with a name the last counts, and there are no other names.
proof fn lemma_members_count(members: Seq<(String, Json)>)
    ensures
        ({
            let views = crate::json::object_tree(members);
            &&& forall|name: Seq<char>| #[trigger]
                views.contains_key(name) ==> exists|i: int|
                    0 <= i < members.len() && (#[trigger] members[i]).0@ == name
            &&& forall|i: int|
                0 <= i < members.len() && (forall|j: int|
                    i < j < members.len() ==> (#[trigger] members[j]).0@ != members[i].0@)
                    ==> views.contains_key((#[trigger] members[i]).0@)
                    && views[members[i].0@] == members[i].1@
        }),
    decreases members.len(),
{
    if members.len() > 0 {
        let before = members.drop_last();
        let last = members.len() - 1;
        let views = crate::json::object_tree(members);
        let earlier = crate::json::object_tree(before);
        lemma_members_count(before);
        assert(views == earlier.insert(members[last].0@, members[last].1@));
        assert forall|name: Seq<char>| #[trigger] views.contains_key(name) implies exists|i: int|
            0 <= i < members.len() && (#[trigger] members[i]).0@ == name by {
            if name == members[last].0@ {
                assert(members[last].0@ == name);
            } else {
                assert(earlier.contains_key(name));
                let i = choose|i: int|
                    0 <= i < before.len() && (#[trigger] before[i]).0@ == name;
                assert(members[i].0@ == name);
            }
        }
        assert forall|i: int|
            0 <= i < members.len() && (forall|j: int|
                i < j < members.len() ==> (#[trigger] members[j]).0@ != members[i].0@) implies
            views.contains_key((#[trigger] members[i]).0@) && views[members[i].0@]
            == members[i].1@ by {
            if i < last {
                assert(before[i] == members[i]);
                assert(members[last].0@ != members[i].0@);
                assert forall|j: int| i < j < before.len() implies (#[trigger] before[j]).0@
                    != before[i].0@ by {
                    assert(members[j].0@ != members[i].0@);
                }
            }
        }
    }
}

/// A value that is taken apart holds the tree of its parts: its scalar, its values in order, or its
/// named values, each under its name.
pub proof fn law_parts_hold_the_tree(node: ValueNode)
    ensures
        match node {
            ValueNode::Null => encode::node_tree(node) == JsonView::Null,
            ValueNode::Bool(b) => encode::node_tree(node) == JsonView::Bool(b),
            ValueNode::Number(n) => encode::node_tree(node) == JsonView::Number(n),
            ValueNode::String(s) => encode::node_tree(node) == JsonView::String(s@),
            ValueNode::Array(values) => {
                &&& encode::node_tree(node) matches JsonView::Array(trees)
                &&& trees.len() == values@.len()
                &&& forall|i: int|
                    0 <= i < values@.len() ==> #[trigger] trees[i] == encode::value_tree(
                        values@[i],
                    )
            },
            ValueNode::Object(pairs) => {
                &&& encode::node_tree(node) matches JsonView::Object(trees)
                &&& forall|name: Seq<char>| #[trigger]
                    trees.contains_key(name) ==> exists|i: int|
                        0 <= i < pairs@.len() && (#[trigger] pairs@[i]).0@ == name
                &&& (forall|i: int, j: int|
                    0 <= i < j < pairs@.len() ==> (#[trigger] pairs@[i]).0@ != (
                    #[trigger] pairs@[j]).0@) ==> forall|i: int|
                    0 <= i < pairs@.len() ==> trees.contains_key((#[trigger] pairs@[i]).0@)
                        && trees[pairs@[i].0@] == encode::value_tree(pairs@[i].1)
            },
        },
{
    if let ValueNode::Object(pairs) = node {
        lemma_pair_names(pairs@);
        if forall|i: int, j: int|
            0 <= i < j < pairs@.len() ==> (#[trigger] pairs@[i]).0@ != (#[trigger] pairs@[j]).0@ {
            assert(encode::distinct_names(pairs@));
            assert forall|i: int| 0 <= i < pairs@.len() implies encode::pairs_tree(
                pairs@,
            ).contains_key((#[trigger] pairs@[i]).0@) && encode::pairs_tree(pairs@)[pairs@[i].0@]
                == encode::value_tree(pairs@[i].1) by {
                encode::lemma_pair_is_member(pairs@, i);
            }
        }
    }
}

/// Only the names of named values are names of what they spell out.
proof fn lemma_pair_names(pairs: Seq<(String, serde_json::Value)>)
    ensures
        forall|name: Seq<char>| #[trigger]
            encode::pairs_tree(pairs).contains_key(name) ==> exists|i: int|
                0 <= i < pairs.len() && (#[trigger] pairs[i]).0@ == name,
    decreases pairs.len(),
{
    if pairs.len() > 0 {
        let before = pairs.drop_last();
        let last = pairs.len() - 1;
        lemma_pair_names(before);
        assert forall|name: Seq<char>| #[trigger]
            encode::pairs_tree(pairs).contains_key(name) implies exists|i: int|
            0 <= i < pairs.len() && (#[trigger] pairs[i]).0@ == name by {
            if name == pairs[last].0@ {
                assert(pairs[last].0@ == name);
            } else {
                assert(encode::pairs_tree(before).contains_key(name));
                let i = choose|i: int|
                    0 <= i < before.len() && (#[trigger] before[i]).0@ == name;
                assert(pairs[i].0@ == name);
            }
        }
    }
}

/// A lookup finds what stands in the tree: only an object has members, only a string is text, and
/// what stands two levels down is found member by member.
pub proof fn law_lookups_find_what_stands_there(
    tree: JsonView,
    name: Seq<char>,
    inner: Seq<char>,
    value: JsonView,
)
    ensures
        tree.member(name) == Some(value) <==> (tree matches JsonView::Object(members)
            && members.contains_key(name) && members[name] == value),
        tree.member(name) is None <==> !(tree matches JsonView::Object(members)
            && members.contains_key(name)),
        tree.as_text() == Some(name) <==> tree == JsonView::String(name),
        tree.as_text() is None <==> !(tree is String),
        tree.text_member(name) == Some(inner) <==> tree.member(name) == Some(
            JsonView::String(inner),
        ),
        tree.text_member(name) is None <==> !(tree.member(name) matches Some(JsonView::String(_))),
        tree.nested(name, inner) == Some(value) <==> (tree.member(name) matches Some(outer)
            && outer.member(inner) == Some(value)),
        tree.nested(name, inner) is None <==> !(tree.member(name) matches Some(outer)
            && outer.member(inner) is Some),
{
}

/// An object is made member by member: one that is added is found, the others stay as they were,
/// and nothing but an object takes members.
pub proof fn law_objects_are_made_of_their_members(
    tree: JsonView,
    name: Seq<char>,
    value: JsonView,
    other: Seq<char>,
)
    ensures
        JsonView::object() is Object,
        JsonView::object().member(name) is None,
        tree is Object ==> tree.with(name, value) is Object,
        tree is Object ==> tree.with(name, value).member(name) == Some(value),
        tree is Object && other != name ==> tree.with(name, value).member(other) == tree.member(
            other,
        ),
        !(tree is Object) ==> tree.with(name, value) == tree,
        JsonView::optional_text(Some(name)) == JsonView::String(name),
        JsonView::optional_text(None) == JsonView::Null,
{
}

/// An optional value and a result are seen through their parts.
pub proof fn law_results_are_seen_through_their_parts(
    text: String,
    tree: Json,
    error: ClaudeError,
    texts: Seq<String>,
    i: int,
)
    ensures
        model::option_view(Some(text)) == Some(text@),
        model::option_view(None::<String>) is None,
        model::option_view(Some(tree)) == Some(tree@),
        model::option_view(None::<Json>) is None,
        model::result_view(Ok::<Json, ClaudeError>(tree)) == Ok::<JsonView, ClaudeErrorView>(
            tree@,
        ),
        model::result_view(Err::<Json, ClaudeError>(error)) == Err::<JsonView, ClaudeErrorView>(
            error@,
        ),
        model::texts(texts).len() == texts.len(),
        0 <= i < texts.len() ==> model::texts(texts)[i] == texts[i]@,
{
}

/// What is read from the wire, and what is written to it, is seen field by field.
pub proof fn law_messages_are_seen_field_by_field(
    routed: RoutedControlResponse,
    response: ControlResponse,
    request: IncomingControlRequest,
    outgoing: OutgoingRequest,
)
    ensures
        routed@ == (RoutedControlResponseView { subtype: routed.subtype@, data: routed.data@ }),
        response@ == (ControlResponseView {
            request_id: response.request_id@,
            response: RoutedControlResponseView {
                subtype: response.response.subtype@,
                data: response.response.data@,
            },
        }),
        request@ == (IncomingControlRequestView {
            request_id: request.request_id@,
            request: request.request@,
        }),
        outgoing@ == (OutgoingRequestView {
            waiter: outgoing.waiter,
            request_id: outgoing.request_id@,
            text: outgoing.text@,
        }),
{
}

/// An error keeps its kind and its text, and a caller of the generic path sees the transport's
/// failure as it was, or a closed channel.
pub proof fn law_errors_keep_their_text(error: ClaudeError, failure: RoutedSendFailure)
    ensures
        match error {
            ClaudeError::Transport(text) => {
                &&& error@ == ClaudeErrorView::Transport(text@)
                &&& error@.text() == text@
            },
            ClaudeError::ControlProtocol(text) => {
                &&& error@ == ClaudeErrorView::ControlProtocol(text@)
                &&& error@.text() == text@
            },
        },
        match failure {
            RoutedSendFailure::Write(source) => {
                &&& failure@ == RoutedSendFailureView::Write(source@)
                &&& failure@.error() == source@
            },
            RoutedSendFailure::NoAcknowledgement => {
                &&& failure@ == RoutedSendFailureView::NoAcknowledgement
                &&& failure@.error() == ClaudeErrorView::ControlProtocol(
                    "Control request response channel closed"@,
                )
            },
        },
{
}

/// A control request travels in an object of exactly three members: its type, its identifier and
/// itself, whatever it is.
pub proof fn law_requests_are_framed(request_id: Seq<char>, request: JsonView)
    ensures
        envelope::control_request_message(request_id, request) == JsonView::Object(
            map![
                "type"@ => JsonView::String("control_request"@),
                "request_id"@ => JsonView::String(request_id),
                "request"@ => request,
            ],
        ),
{
}

/// An answer travels in a control response that says success, names the request and carries the
/// payload, whatever it is, and nothing else.
pub proof fn law_replies_are_framed(request_id: Seq<char>, payload: JsonView)
    ensures
        envelope::success_message(request_id, payload) == JsonView::Object(
            map![
                "type"@ => JsonView::String("control_response"@),
                "response"@ => JsonView::Object(
                    map![
                        "subtype"@ => JsonView::String("success"@),
                        "request_id"@ => JsonView::String(request_id),
                        "response"@ => payload,
                    ],
                ),
            ],
        ),
{
}

/// A message is read as a control request exactly where it has a type and an identifier that are
/// strings, and a request; it is read with that identifier and that request.
pub proof fn law_requests_are_read(message: JsonView, request_id: Seq<char>, request: JsonView)
    ensures
        envelope::control_request_of(message) == Some(
            (IncomingControlRequestView { request_id, request }),
        ) <==> {
            &&& message.member("type"@) matches Some(JsonView::String(_))
            &&& message.member("request_id"@) == Some(JsonView::String(request_id))
            &&& message.member("request"@) == Some(request)
        },
        envelope::control_request_of(message) is None <==> !({
            &&& message.member("type"@) matches Some(JsonView::String(_))
            &&& message.member("request_id"@) matches Some(JsonView::String(_))
            &&& message.member("request"@) is Some
        }),
{
}

/// A message is read as a control response exactly where it has a type that is a string, and a
/// response that is an object with a subtype and an identifier that are strings. The data keeps
/// every other member of that object, and no more.
pub proof fn law_responses_are_read(message: JsonView, name: Seq<char>)
    ensures
        envelope::control_response_of(message) is Some <==> {
            &&& message.member("type"@) matches Some(JsonView::String(_))
            &&& message.nested("response"@, "subtype"@) matches Some(JsonView::String(_))
            &&& message.nested("response"@, "request_id"@) matches Some(JsonView::String(_))
        },
        envelope::control_response_of(message) matches Some(read) ==> {
            &&& message.nested("response"@, "subtype"@) == Some(
                JsonView::String(read.response.subtype),
            )
            &&& message.nested("response"@, "request_id"@) == Some(
                JsonView::String(read.request_id),
            )
            &&& read.response.data is Object
            &&& read.response.data.member(name) == if name == "subtype"@ || name
                == "request_id"@ {
                None
            } else {
                message.nested("response"@, name)
            }
        },
{
}

/// Each mode has its own name on the wire.
pub proof fn law_modes_have_their_names(mode: PermissionMode, name: Seq<char>)
    ensures
        mode.name() == match mode {
            PermissionMode::Default => "default"@,
            PermissionMode::AcceptEdits => "acceptEdits"@,
            PermissionMode::Plan => "plan"@,
            PermissionMode::BypassPermissions => "bypassPermissions"@,
        },
        permission::mode_named(name) == Some(mode) <==> name == mode.name(),
        permission::mode_named(name) is None <==> name != "default"@ && name != "acceptEdits"@
            && name != "plan"@ && name != "bypassPermissions"@,
{
    reveal_strlit("default");
    reveal_strlit("acceptEdits");
    reveal_strlit("plan");
    reveal_strlit("bypassPermissions");
    assert("default"@.len() == 7 && "acceptEdits"@.len() == 11);
    assert("plan"@.len() == 4 && "bypassPermissions"@.len() == 17);
}

/// A JSON value spells a mode exactly where it is the mode's name, or an object whose only member
/// has that name and is null.
pub proof fn law_modes_are_spelled(value: JsonView, mode: PermissionMode)
    ensures
        permission::mode_of(value) == Some(mode) <==> {
            ||| value == JsonView::String(mode.name())
            ||| value == JsonView::Object(map![mode.name() => JsonView::Null])
        },
{
    law_modes_have_their_names(PermissionMode::Default, mode.name());
    law_modes_have_their_names(PermissionMode::AcceptEdits, mode.name());
    law_modes_have_their_names(PermissionMode::Plan, mode.name());
    law_modes_have_their_names(PermissionMode::BypassPermissions, mode.name());
    law_modes_have_their_names(mode, mode.name());
    assert forall|m: PermissionMode| m != mode implies !(#[trigger] m.is_spelled(value)
        && mode.is_spelled(value)) by {
        law_modes_have_their_names(m, mode.name());
        let single = map![m.name() => JsonView::Null];
        let other = map![mode.name() => JsonView::Null];
        assert(single.contains_key(m.name()) && !other.contains_key(m.name()));
    }
}

/// Each request that a caller makes is an object of exactly these members.
pub proof fn law_requests_say_what_they_ask_for(
    mode: PermissionMode,
    model: Option<Seq<char>>,
    user_message_id: Seq<char>,
    events: Seq<EventHooksView>,
    first: u64,
)
    ensures
        protocol::interrupt_request() == JsonView::Object(
            map!["subtype"@ => JsonView::String("interrupt"@)],
        ),
        protocol::mode_request(mode) == JsonView::Object(
            map![
                "subtype"@ => JsonView::String("set_permission_mode"@),
                "mode"@ => JsonView::String(mode.name()),
            ],
        ),
        protocol::model_request(model) == JsonView::Object(
            map![
                "subtype"@ => JsonView::String("set_model"@),
                "model"@ => match model {
                    Some(text) => JsonView::String(text),
                    None => JsonView::Null,
                },
            ],
        ),
        protocol::rewind_request(user_message_id) == JsonView::Object(
            map![
                "subtype"@ => JsonView::String("rewind_files"@),
                "user_message_id"@ => JsonView::String(user_message_id),
            ],
        ),
        protocol::initialize_request(events, first) == JsonView::Object(
            map![
                "subtype"@ => JsonView::String("initialize"@),
                "hooks"@ => if events.len() == 0 {
                    JsonView::Null
                } else {
                    hooks::events_config(events, first)
                },
            ],
        ),
{
}

/// The stream ends with exactly these messages: the error that ended it, if any, and the end.
pub proof fn law_stream_ends_with_exactly_these(error: Seq<char>)
    ensures
        protocol::sentinels(None) == seq![
            JsonView::Object(map!["type"@ => JsonView::String("end"@)]),
        ],
        protocol::sentinels(Some(error)) == seq![
            JsonView::Object(
                map![
                    "type"@ => JsonView::String("error"@),
                    "error"@ => JsonView::String(error),
                ],
            ),
            JsonView::Object(map!["type"@ => JsonView::String("end"@)]),
        ],
{
}

/// Matchers and events are seen part by part, in order.
pub proof fn law_hooks_are_seen_part_by_part(
    matcher: HookMatcher,
    events: Seq<(String, Vec<HookMatcher>)>,
    i: int,
    j: int,
)
    ensures
        matcher@.hooks == matcher.hooks@,
        match matcher.matcher {
            Some(text) => matcher@.matcher == Some(text@),
            None => matcher@.matcher is None,
        },
        match matcher.timeout {
            Some(timeout) => matcher@.timeout == Some(timeout@),
            None => matcher@.timeout is None,
        },
        hooks::events_view(events).len() == events.len(),
        0 <= i < events.len() ==> {
            &&& hooks::events_view(events)[i].event == events[i].0@
            &&& hooks::events_view(events)[i].matchers.len() == events[i].1@.len()
            &&& 0 <= j < events[i].1@.len() ==> hooks::events_view(events)[i].matchers[j]
                == events[i].1@[j]@
        },
{
}

/// The configuration of a matcher says its pattern, or null exactly where it has none; the
/// identifiers of its callbacks, which count on one by one; its timeout exactly where it has one;
/// and nothing else.
pub proof fn law_matcher_is_announced_as_given(
    matcher: HookMatcher,
    first: u64,
    p: int,
    name: Seq<char>,
)
    ensures
        ({
            let config = hooks::matcher_config(matcher@, first);
            &&& config is Object
            &&& config.member("matcher"@) == Some(
                match matcher.matcher {
                    Some(text) => JsonView::String(text@),
                    None => JsonView::Null,
                },
            )
            &&& config.member("timeout"@) == match matcher.timeout {
                Some(timeout) => Some(timeout@),
                None => None,
            }
            &&& config.member("hookCallbackIds"@) matches Some(JsonView::Array(ids))
            &&& ids.len() == matcher.hooks@.len()
            &&& 0 <= p < ids.len() ==> ids[p] == JsonView::String(
                ident::hook_id(hooks::counted(first, p as nat)),
            )
            &&& config.member(name) is Some ==> name == "matcher"@ || name == "hookCallbackIds"@
                || name == "timeout"@
        }),
{
    reveal_strlit("matcher");
    reveal_strlit("hookCallbackIds");
    reveal_strlit("timeout");
    assert("matcher"@.len() == 7 && "hookCallbackIds"@.len() == 15 && "timeout"@.len() == 7);
    assert("matcher"@[0] == 'm' && "timeout"@[0] == 't');
}

/// The text that is written for a request is the JSON text of its frame.
pub proof fn law_written_text_is_the_frame(
    request_id: Seq<char>,
    payload: JsonView,
    error: ClaudeErrorView,
)
    ensures
        protocol::reply_text(request_id, Ok(payload)) == Ok::<Seq<char>, ClaudeErrorView>(
            encode::json_text(
                JsonView::Object(
                    map![
                        "type"@ => JsonView::String("control_response"@),
                        "response"@ => JsonView::Object(
                            map![
                                "subtype"@ => JsonView::String("success"@),
                                "request_id"@ => JsonView::String(request_id),
                                "response"@ => payload,
                            ],
                        ),
                    ],
                ),
            ),
        ),
        protocol::reply_text(request_id, Err(error)) == Err::<Seq<char>, ClaudeErrorView>(error),
{
}

} // verus!
