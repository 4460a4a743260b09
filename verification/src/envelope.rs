//! The envelopes that control requests and responses travel in.

use crate::json;
use crate::json::{Json, JsonView};
use crate::model;
use vstd::prelude::*;

verus! {

/// A correlated control response as handed to the waiter: the discriminator beside everything
/// that stood with it in the response object, the identifier left out.
#[derive(Debug)]
pub struct RoutedControlResponse {
    pub subtype: String,
    pub data: Json,
}

/// What a [`RoutedControlResponse`] says.
pub struct RoutedControlResponseView {
    pub subtype: Seq<char>,
    pub data: JsonView,
}

impl View for RoutedControlResponse {
    type V = RoutedControlResponseView;

    open spec fn view(&self) -> RoutedControlResponseView {
        RoutedControlResponseView { subtype: self.subtype@, data: self.data@ }
    }
}

/// A control response from the peer.
#[derive(Debug)]
pub struct ControlResponse {
    pub request_id: String,
    pub response: RoutedControlResponse,
}

/// What a [`ControlResponse`] says.
pub struct ControlResponseView {
    pub request_id: Seq<char>,
    pub response: RoutedControlResponseView,
}

impl View for ControlResponse {
    type V = ControlResponseView;

    open spec fn view(&self) -> ControlResponseView {
        ControlResponseView { request_id: self.request_id@, response: self.response@ }
    }
}

/// A control request from the peer.
#[derive(Debug)]
pub struct IncomingControlRequest {
    pub request_id: String,
    pub request: Json,
}

/// What an [`IncomingControlRequest`] says.
pub struct IncomingControlRequestView {
    pub request_id: Seq<char>,
    pub request: JsonView,
}

impl View for IncomingControlRequest {
    type V = IncomingControlRequestView;

    open spec fn view(&self) -> IncomingControlRequestView {
        IncomingControlRequestView { request_id: self.request_id@, request: self.request@ }
    }
}

/// What a message says as a control response. Its `response` member has to be an object that
/// holds a `subtype` and a `request_id`, both strings; the rest of that object is the data.
pub open spec fn control_response_of(message: JsonView) -> Option<ControlResponseView> {
    match (message.text_member("type"@), message.member("response"@)) {
        (Some(_), Some(JsonView::Object(members))) => match (
            JsonView::Object(members).text_member("subtype"@),
            JsonView::Object(members).text_member("request_id"@),
        ) {
            (Some(subtype), Some(request_id)) => Some(
                ControlResponseView {
                    request_id,
                    response: RoutedControlResponseView {
                        subtype,
                        data: JsonView::Object(members.remove("subtype"@).remove("request_id"@)),
                    },
                },
            ),
            _ => None,
        },
        _ => None,
    }
}

/// What a message says as a control request: a `request_id` that is a string, and a `request`.
pub open spec fn control_request_of(message: JsonView) -> Option<IncomingControlRequestView> {
    match (
        message.text_member("type"@),
        message.text_member("request_id"@),
        message.member("request"@),
    ) {
        (Some(_), Some(request_id), Some(request)) => Some(
            IncomingControlRequestView { request_id, request },
        ),
        _ => None,
    }
}

/// The message that carries a control request to the peer.
pub open spec fn control_request_message(request_id: Seq<char>, request: JsonView) -> JsonView {
    JsonView::object()
        .with("type"@, JsonView::String("control_request"@))
        .with("request_id"@, JsonView::String(request_id))
        .with("request"@, request)
}

/// The message that answers a control request of the peer.
pub open spec fn success_message(request_id: Seq<char>, response: JsonView) -> JsonView {
    JsonView::object()
        .with("type"@, JsonView::String("control_response"@))
        .with(
            "response"@,
            JsonView::object()
                .with("subtype"@, JsonView::String("success"@))
                .with("request_id"@, JsonView::String(request_id))
                .with("response"@, response),
        )
}

/// The members that are neither named `first` nor `second`.
fn members_but(members: &Vec<(String, Json)>, first: &str, second: &str) -> (r: Vec<(String, Json)>)
    ensures
        json::object_tree(r@) == json::object_tree(members@).remove(first@).remove(second@),
{
    let mut kept: Vec<(String, Json)> = Vec::new();
    let mut i: usize = 0;
    assert(members@.take(0) =~= Seq::<(String, Json)>::empty());
    assert(json::object_tree(kept@) =~= json::object_tree(members@.take(0)).remove(first@).remove(
        second@,
    ));
    while i < members.len()
        invariant
            i <= members.len(),
            json::object_tree(kept@) == json::object_tree(members@.take(i as int)).remove(
                first@,
            ).remove(second@),
        decreases members.len() - i,
    {
        let ghost before = json::object_tree(members@.take(i as int));
        proof {
            json::lemma_object_push(members@.take(i as int), members@[i as int]);
            assert(members@.take(i + 1) =~= members@.take(i as int).push(members@[i as int]));
        }
        let name = members[i].0.as_str();
        if json::same_text(name, first) || json::same_text(name, second) {
            assert(before.insert(name@, members@[i as int].1@).remove(first@).remove(second@)
                =~= before.remove(first@).remove(second@));
        } else {
            let copy = (members[i].0.clone(), members[i].1.clone());
            proof {
                json::lemma_object_push(kept@, copy);
                assert(before.insert(name@, members@[i as int].1@).remove(first@).remove(second@)
                    =~= before.remove(first@).remove(second@).insert(
                    name@,
                    members@[i as int].1@,
                ));
            }
            kept.push(copy);
        }
        i += 1;
    }
    assert(members@.take(i as int) =~= members@);
    kept
}

impl ControlResponse {
    /// Reads a message as a control response.
    pub fn from_json(message: &Json) -> (r: Option<ControlResponse>)
        ensures
            model::option_view(r) == control_response_of(message@),
    {
        if message.get_str("type").is_none() {
            return None;
        }
        match message.get("response") {
            Some(inner) => match (inner, inner.get_str("subtype"), inner.get_str("request_id")) {
                (Json::Object(members), Some(subtype), Some(request_id)) => Some(
                    ControlResponse {
                        request_id: request_id.to_owned(),
                        response: RoutedControlResponse {
                            subtype: subtype.to_owned(),
                            data: Json::Object(members_but(members, "subtype", "request_id")),
                        },
                    },
                ),
                _ => None,
            },
            None => None,
        }
    }
}

impl IncomingControlRequest {
    /// Reads a message as a control request.
    pub fn from_json(message: &Json) -> (r: Option<IncomingControlRequest>)
        ensures
            model::option_view(r) == control_request_of(message@),
    {
        match (message.get_str("type"), message.get_str("request_id"), message.get("request")) {
            (Some(_), Some(request_id), Some(request)) => Some(
                IncomingControlRequest {
                    request_id: request_id.to_owned(),
                    request: request.clone(),
                },
            ),
            _ => None,
        }
    }
}

/// The message that carries a control request to the peer.
pub fn control_request(request_id: &str, request: Json) -> (r: Json)
    ensures
        r@ == control_request_message(request_id@, request@),
{
    Json::object()
        .with("type", Json::text("control_request"))
        .with("request_id", Json::text(request_id))
        .with("request", request)
}

/// The message that answers a control request of the peer.
pub fn success_response(request_id: &str, response: Json) -> (r: Json)
    ensures
        r@ == success_message(request_id@, response@),
{
    let inner = Json::object()
        .with("subtype", Json::text("success"))
        .with("request_id", Json::text(request_id))
        .with("response", response);
    Json::object().with("type", Json::text("control_response")).with("response", inner)
}

} // verus!
