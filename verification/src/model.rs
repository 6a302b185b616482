//! The broker's rules, stated over a map from labels to endpoint states.
//!
//! Every operation of the broker is specified here as a pair of functions: one
//! gives the map after the operation, one gives what the broker answers. The
//! executable broker is proved against them.

use vstd::prelude::*;
use crate::actions::{ActionView, DeliveryView, ResponseView};
use crate::endpoint::Label;
use crate::endpoint_state::{Endpoint, Verdict};
use crate::error::{
    already_observing, already_queued, no_control, unknown_device, ErrorView,
};

verus! {

/// All endpoints that the broker knows, by label.
pub type Endpoints = Map<Label, Endpoint>;

/// What holds of the broker's endpoints at every moment: each of them is well
/// formed, so each has at most one controller, and that controller does not
/// wait in the queue.
pub open spec fn all_wf(endpoints: Endpoints) -> bool {
    forall|label: Label| #[trigger] endpoints.dom().contains(label) ==> endpoints[label].wf()
}

/// Whether `label` can be used: a mock endpoint always can, since it is made
/// when first referred to; a device only once it has been registered.
pub open spec fn usable(endpoints: Endpoints, label: Label) -> bool {
    label is Mock || endpoints.dom().contains(label)
}

/// The state of `label`; that of an untouched endpoint if it is not known yet.
pub open spec fn state_of(endpoints: Endpoints, label: Label) -> Endpoint {
    if endpoints.dom().contains(label) {
        endpoints[label]
    } else {
        Endpoint::fresh()
    }
}

/// The endpoints after a device was registered under `label`.
pub open spec fn after_register(endpoints: Endpoints, label: Label) -> Endpoints {
    if endpoints.dom().contains(label) {
        endpoints
    } else {
        endpoints.insert(label, Endpoint::fresh())
    }
}

/// What `user` is told when it asks to observe `label`.
pub open spec fn observe_reply(endpoints: Endpoints, user: Seq<char>, label: Label) -> Result<
    ResponseView,
    ErrorView,
> {
    if !usable(endpoints, label) {
        Err(ErrorView::BadRequest(unknown_device()))
    } else if state_of(endpoints, label).observes(user) {
        Err(ErrorView::BadRequest(already_observing()))
    } else {
        Ok(ResponseView::Okay)
    }
}

/// The endpoints after `user` asked to observe `label`.
pub open spec fn after_observe(endpoints: Endpoints, user: Seq<char>, label: Label) -> Endpoints {
    if observe_reply(endpoints, user, label) is Ok {
        endpoints.insert(label, state_of(endpoints, label).observe(user))
    } else {
        endpoints
    }
}

/// What `user` is told when it asks for control of `label`.
pub open spec fn control_reply(endpoints: Endpoints, user: Seq<char>, label: Label) -> Result<
    ResponseView,
    ErrorView,
> {
    if !usable(endpoints, label) {
        Err(ErrorView::BadRequest(unknown_device()))
    } else {
        match state_of(endpoints, label).verdict(user) {
            Verdict::Granted => Ok(ResponseView::ControlGranted(label)),
            Verdict::Queued => Ok(ResponseView::ControlQueue(label)),
            Verdict::Refused => Err(ErrorView::BadRequest(already_queued())),
        }
    }
}

/// The endpoints after `user` asked for control of `label`.
pub open spec fn after_control(endpoints: Endpoints, user: Seq<char>, label: Label) -> Endpoints {
    if control_reply(endpoints, user, label) is Ok {
        endpoints.insert(label, state_of(endpoints, label).control(user))
    } else {
        endpoints
    }
}

/// Whether `user` may write to `label`: only as its controller.
pub open spec fn may_write(endpoints: Endpoints, user: Seq<char>, label: Label) -> bool {
    endpoints.dom().contains(label) && endpoints[label].controls(user)
}

/// What `user` is told when it writes to `label`.
pub open spec fn write_reply(endpoints: Endpoints, user: Seq<char>, label: Label) -> Result<
    ResponseView,
    ErrorView,
> {
    if may_write(endpoints, user, label) {
        Ok(ResponseView::Okay)
    } else {
        Err(ErrorView::BadRequest(no_control()))
    }
}

/// One message with `bytes` from `label` for each of `observers`, in their
/// order.
pub open spec fn fan_out(observers: Seq<Seq<char>>, label: Label, bytes: Seq<u8>) -> Seq<
    DeliveryView,
> {
    Seq::new(
        observers.len(),
        |i: int| DeliveryView { to: observers[i], message: ResponseView::Message(label, bytes) },
    )
}

/// What is pushed when `user` writes `bytes` to `label`: the bytes to every
/// observer if the write is allowed, nothing otherwise.
pub open spec fn write_pushes(
    endpoints: Endpoints,
    user: Seq<char>,
    label: Label,
    bytes: Seq<u8>,
) -> Seq<DeliveryView> {
    if may_write(endpoints, user, label) {
        fan_out(endpoints[label].observers, label, bytes)
    } else {
        Seq::empty()
    }
}

/// What is pushed when the device behind `label` sends `bytes`: the bytes to
/// every observer.
pub open spec fn device_pushes(endpoints: Endpoints, label: Label, bytes: Seq<u8>) -> Seq<
    DeliveryView,
> {
    fan_out(state_of(endpoints, label).observers, label, bytes)
}

/// The endpoints after `user` gave up control of `label`, or its place in the
/// queue for it.
pub open spec fn after_release_control(
    endpoints: Endpoints,
    user: Seq<char>,
    label: Label,
) -> Endpoints {
    if endpoints.dom().contains(label) {
        endpoints.insert(label, endpoints[label].release_control(user))
    } else {
        endpoints
    }
}

/// The grant that goes to the head of `label`'s queue when `user` gives up
/// control of it, if `user` holds it and anybody waits.
pub open spec fn release_push(endpoints: Endpoints, user: Seq<char>, label: Label) -> Option<
    DeliveryView,
> {
    match state_of(endpoints, label).promoted(user) {
        Some(next) => Some(
            DeliveryView { to: next, message: ResponseView::ControlGranted(label) },
        ),
        None => None,
    }
}

/// The endpoints after `user` stopped observing `label`.
pub open spec fn after_release_observe(
    endpoints: Endpoints,
    user: Seq<char>,
    label: Label,
) -> Endpoints {
    if endpoints.dom().contains(label) {
        endpoints.insert(label, endpoints[label].release_observe(user))
    } else {
        endpoints
    }
}

/// The endpoints after `user` disconnected: it has left every one of them.
pub open spec fn after_disconnect(endpoints: Endpoints, user: Seq<char>) -> Endpoints {
    Map::new(
        |label: Label| endpoints.dom().contains(label),
        |label: Label| endpoints[label].leave(user),
    )
}

/// Whether `delivery` is one of the grants that go out when `user`
/// disconnects: for each endpoint that `user` controlled and somebody waited
/// for, one grant to the head of its queue.
pub open spec fn disconnect_grants(
    endpoints: Endpoints,
    user: Seq<char>,
    delivery: DeliveryView,
) -> bool {
    exists|label: Label|
        #![trigger endpoints.dom().contains(label)]
        endpoints.dom().contains(label) && release_push(endpoints, user, label) == Some(delivery)
}

/// Whether `user` has any part in any endpoint.
pub open spec fn present(endpoints: Endpoints, user: Seq<char>) -> bool {
    exists|label: Label|
        #![trigger endpoints.dom().contains(label)]
        endpoints.dom().contains(label) && endpoints[label].involves(user)
}

/// What `user` is told in answer to `action`.
pub open spec fn action_reply(endpoints: Endpoints, user: Seq<char>, action: ActionView) -> Result<
    ResponseView,
    ErrorView,
> {
    match action {
        ActionView::Observe(label) => observe_reply(endpoints, user, label),
        ActionView::ObserveMock(name) => observe_reply(endpoints, user, Label::Mock(name)),
        ActionView::Control(label) => control_reply(endpoints, user, label),
        ActionView::Write(label, _) => write_reply(endpoints, user, label),
    }
}

/// The endpoints after `user` sent `action`.
pub open spec fn after_action(
    endpoints: Endpoints,
    user: Seq<char>,
    action: ActionView,
) -> Endpoints {
    match action {
        ActionView::Observe(label) => after_observe(endpoints, user, label),
        ActionView::ObserveMock(name) => after_observe(endpoints, user, Label::Mock(name)),
        ActionView::Control(label) => after_control(endpoints, user, label),
        ActionView::Write(_, _) => endpoints,
    }
}

/// What is pushed to other users because `user` sent `action`.
pub open spec fn action_pushes(endpoints: Endpoints, user: Seq<char>, action: ActionView) -> Seq<
    DeliveryView,
> {
    match action {
        ActionView::Write(label, bytes) => write_pushes(endpoints, user, label, bytes),
        _ => Seq::empty(),
    }
}

/// Whether `action` of `user` is a write that is also due to a device.
pub open spec fn action_to_device(
    endpoints: Endpoints,
    user: Seq<char>,
    action: ActionView,
) -> bool {
    match action {
        ActionView::Write(label, _) => may_write(endpoints, user, label) && label is Device,
        _ => false,
    }
}

} // verus!
