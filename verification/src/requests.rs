//! Requests that look at delayed events or change them.

use crate::error::{failure, seen, Error, ErrorKind, ErrorView};
use crate::event::{DelayedEvent, DelayedEventStatus, DelayedEventView};
use crate::json::{JsonObject, JsonValue, JsonValueView};
use crate::service::event_not_found;
use ruma::api::client::delayed_events::update_delayed_event::UpdateAction;
use vstd::prelude::*;

verus! {

/// What can be done with a delayed event.
#[derive(Clone, Copy, Debug, PartialEq, Eq, Structural)]
pub enum Operation {
    Cancel,
    Send,
    Restart,
}

impl DeepView for Operation {
    type V = Operation;

    open spec fn deep_view(&self) -> Operation {
        *self
    }
}

/// The operation of this name, where there is one.
pub open spec fn operation_named(action: Seq<char>) -> Option<Operation> {
    if action == "cancel"@ {
        Some(Operation::Cancel)
    } else if action == "send"@ {
        Some(Operation::Send)
    } else if action == "restart"@ {
        Some(Operation::Restart)
    } else {
        None
    }
}

/// Trusted: `UpdateAction::from` of `ruma`. The actions that it knows are the
/// ones listed in [`operation_named`].
#[verifier::external_body]
fn read_action(action: &str) -> (operation: Option<Operation>)
    ensures
        operation == operation_named(action@),
{
    match UpdateAction::from(action) {
        UpdateAction::Cancel => Some(Operation::Cancel),
        UpdateAction::Send => Some(Operation::Send),
        UpdateAction::Restart => Some(Operation::Restart),
        _ => None,
    }
}

/// Which operation a request to update a delayed event asks for.
pub fn update_operation(action: &str) -> (result: Result<Operation, Error>)
    ensures
        seen(result) == (match operation_named(action@) {
            Some(operation) => Ok(operation),
            None => Err(failure(ErrorKind::InvalidParam, "Unknown update action"@)),
        }),
{
    match read_action(action) {
        Some(operation) => Ok(operation),
        None => Err(Error::new(ErrorKind::InvalidParam, "Unknown update action")),
    }
}

/// The name of a status.
pub open spec fn status_name(status: DelayedEventStatus) -> Seq<char> {
    match status {
        DelayedEventStatus::Scheduled => "scheduled"@,
        DelayedEventStatus::Finalized => "finalized"@,
    }
}

/// A member with the value, where there is one.
pub open spec fn optional_member(name: Seq<char>, value: Option<JsonValueView>) -> Seq<
    (Seq<char>, JsonValueView),
> {
    match value {
        Some(value) => seq![(name, value)],
        None => Seq::empty(),
    }
}

/// The text as a value, where there is one.
pub open spec fn optional_text(text: Option<Seq<char>>) -> Option<JsonValueView> {
    match text {
        Some(text) => Some(JsonValueView::Text(text)),
        None => None,
    }
}

/// The JSON text as a value, where there is one.
pub open spec fn optional_json(json: Option<Seq<char>>) -> Option<JsonValueView> {
    match json {
        Some(json) => Some(JsonValueView::Json(json)),
        None => None,
    }
}

/// The number as a value, where there is one.
pub open spec fn optional_number(number: Option<u64>) -> Option<JsonValueView> {
    match number {
        Some(number) => Some(JsonValueView::Number(number)),
        None => None,
    }
}

/// The members that every delayed event is shown with.
pub open spec fn common_members(event: DelayedEventView) -> Seq<(Seq<char>, JsonValueView)> {
    seq![
        ("delay_id"@, JsonValueView::Text(event.delay_id)),
        ("room_id"@, JsonValueView::Text(event.room_id)),
        ("type"@, JsonValueView::Text(event.event_type)),
        ("delay"@, JsonValueView::Number(event.delay_ms)),
        ("send_ts"@, JsonValueView::Number(event.timeout)),
        ("running_since"@, JsonValueView::Number(event.running_since)),
        ("content"@, JsonValueView::Json(event.content)),
        ("status"@, JsonValueView::Text(status_name(event.status))),
    ]
}

/// What a client is shown of a delayed event.
pub open spec fn event_members(event: DelayedEventView) -> Seq<(Seq<char>, JsonValueView)> {
    common_members(event) + optional_member("state_key"@, optional_text(event.state_key))
        + optional_member("error"@, optional_json(event.error)) + optional_member(
        "event_id"@,
        optional_text(event.event_id),
    ) + optional_member("finalised_ts"@, optional_number(event.finalised_ts))
}

/// Appends the member, where there is a value.
fn push_optional(object: &mut JsonObject, name: &str, value: Option<JsonValue>)
    ensures
        final(object).deep_view() == old(object).deep_view() + optional_member(
            name@,
            value.deep_view(),
        ),
{
    let ghost before = object.deep_view();
    match value {
        Some(value) => {
            object.push((name.to_owned(), value));
            assert(object.deep_view() =~= before + optional_member(
                name@,
                Some(value.deep_view()),
            ));
        },
        None => {
            assert(before =~= before + optional_member(name@, None));
        },
    }
}

/// What a client is shown of a delayed event.
pub fn event_to_json(event: DelayedEvent) -> (object: JsonObject)
    ensures
        object.deep_view() == event_members(event@),
{
    let ghost view = event@;
    let status = match event.status {
        DelayedEventStatus::Scheduled => "scheduled",
        DelayedEventStatus::Finalized => "finalized",
    };
    let mut object: JsonObject = vec![
        ("delay_id".to_owned(), JsonValue::Text(event.delay_id)),
        ("room_id".to_owned(), JsonValue::Text(event.room_id)),
        ("type".to_owned(), JsonValue::Text(event.event_type)),
        ("delay".to_owned(), JsonValue::Number(event.delay_ms)),
        ("send_ts".to_owned(), JsonValue::Number(event.timeout)),
        ("running_since".to_owned(), JsonValue::Number(event.running_since)),
        ("content".to_owned(), JsonValue::Json(event.content)),
        ("status".to_owned(), JsonValue::Text(status.to_owned())),
    ];
    assert(object.deep_view() =~= common_members(view));
    let state_key = match event.state_key {
        Some(state_key) => Some(JsonValue::Text(state_key)),
        None => None,
    };
    push_optional(&mut object, "state_key", state_key);
    let error = match event.error {
        Some(error) => Some(JsonValue::Json(error)),
        None => None,
    };
    push_optional(&mut object, "error", error);
    let event_id = match event.event_id {
        Some(event_id) => Some(JsonValue::Text(event_id)),
        None => None,
    };
    push_optional(&mut object, "event_id", event_id);
    let finalised_ts = match event.finalised_ts {
        Some(finalised_ts) => Some(JsonValue::Number(finalised_ts)),
        None => None,
    };
    push_optional(&mut object, "finalised_ts", finalised_ts);
    object
}

/// What a user is shown who asks for a delayed event: others cannot tell it
/// from one that is not there.
pub open spec fn shown_event(
    stored: Option<DelayedEventView>,
    sender_user: Seq<char>,
) -> Result<Seq<(Seq<char>, JsonValueView)>, ErrorView> {
    match stored {
        Some(event) => if event.sender_user == sender_user {
            Ok(event_members(event))
        } else {
            Err(event_not_found())
        },
        None => Err(event_not_found()),
    }
}

/// Answers a user who asks for a delayed event. `stored` is what is stored under
/// the delay ID.
pub fn get_delayed_event(stored: Option<DelayedEvent>, sender_user: &String) -> (result: Result<
    JsonObject,
    Error,
>)
    ensures
        seen(result) == shown_event(stored.deep_view(), sender_user@),
{
    let event = match stored {
        Some(event) => event,
        None => {
            return Err(Error::new(ErrorKind::NotFound, "Delayed event not found"));
        },
    };
    if event.sender_user != *sender_user {
        return Err(Error::new(ErrorKind::NotFound, "Delayed event not found"));
    }
    Ok(event_to_json(event))
}

/// Answers a user who asks for all their delayed events, as
/// [`crate::service::Service::get_by_sender`] gives them.
pub fn list_delayed_events(events: &Vec<DelayedEvent>) -> (objects: Vec<JsonObject>)
    ensures
        objects.deep_view() == events.deep_view().map_values(
            |event: DelayedEventView| event_members(event),
        ),
{
    let mut objects: Vec<JsonObject> = Vec::new();
    let mut i: usize = 0;
    while i < events.len()
        invariant
            i <= events.len(),
            objects.len() == i,
            forall|j: int|
                0 <= j < i ==> (#[trigger] objects[j]).deep_view() == event_members(events[j]@),
        decreases events.len() - i,
    {
        objects.push(event_to_json(events[i].clone()));
        i += 1;
    }
    assert(objects.deep_view() =~= events.deep_view().map_values(
        |event: DelayedEventView| event_members(event),
    ));
    objects
}

} // verus!
