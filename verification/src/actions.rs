//! What clients ask for and what they are told.

use vstd::prelude::*;
use vstd::std_specs::cmp::PartialEqSpecImpl;
use crate::bytes::{copy_bytes, same_bytes};
use crate::endpoint::{EndpointLabel, Label};
use crate::error::{Error, ErrorView};
use crate::user::User;

verus! {

/// What an [`Action`] stands for in contracts.
pub enum ActionView {
    Observe(Label),
    ObserveMock(Seq<char>),
    Control(Label),
    Write(Label, Seq<u8>),
}

/// A request of a client.
#[derive(Debug)]
pub enum Action {
    /// Start receiving what is written to the endpoint.
    Observe(EndpointLabel),
    /// Short for observing the mock endpoint of this name.
    ObserveMock(String),
    /// Ask for exclusive write access to the endpoint.
    Control(EndpointLabel),
    /// Write these bytes to the endpoint.
    Write(EndpointLabel, Vec<u8>),
}

impl View for Action {
    type V = ActionView;

    open spec fn view(&self) -> ActionView {
        match self {
            Action::Observe(label) => ActionView::Observe(label@),
            Action::ObserveMock(name) => ActionView::ObserveMock(name@),
            Action::Control(label) => ActionView::Control(label@),
            Action::Write(label, bytes) => ActionView::Write(label@, bytes@),
        }
    }
}

impl ActionView {
    /// The endpoint that the action is about.
    pub open spec fn label(self) -> Label {
        match self {
            ActionView::Observe(label) => label,
            ActionView::ObserveMock(name) => Label::Mock(name),
            ActionView::Control(label) => label,
            ActionView::Write(label, _) => label,
        }
    }
}

impl Action {
    /// The request to observe `label`.
    pub fn observe(label: &EndpointLabel) -> (action: Action)
        ensures
            action@ == ActionView::Observe(label@),
    {
        Action::Observe(label.clone())
    }

    /// The request to observe the mock endpoint called `name`.
    pub fn observe_mock(name: &str) -> (action: Action)
        ensures
            action@ == ActionView::ObserveMock(name@),
    {
        Action::ObserveMock(name.to_owned())
    }

    /// The request for control of `label`.
    pub fn control(label: &EndpointLabel) -> (action: Action)
        ensures
            action@ == ActionView::Control(label@),
    {
        Action::Control(label.clone())
    }

    /// The request to write `bytes` to `label`.
    pub fn write(label: &EndpointLabel, bytes: Vec<u8>) -> (action: Action)
        ensures
            action@ == ActionView::Write(label@, bytes@),
    {
        Action::Write(label.clone(), bytes)
    }

    /// The endpoint that this request is about.
    pub fn label(&self) -> (label: EndpointLabel)
        ensures
            label@ == self@.label(),
    {
        match self {
            Action::Observe(label) => label.clone(),
            Action::ObserveMock(name) => EndpointLabel::Mock(name.clone()),
            Action::Control(label) => label.clone(),
            Action::Write(label, _) => label.clone(),
        }
    }
}

impl Clone for Action {
    fn clone(&self) -> (copy: Action)
        ensures
            copy@ == self@,
    {
        match self {
            Action::Observe(label) => Action::Observe(label.clone()),
            Action::ObserveMock(name) => Action::ObserveMock(name.clone()),
            Action::Control(label) => Action::Control(label.clone()),
            Action::Write(label, bytes) => Action::Write(label.clone(), copy_bytes(bytes)),
        }
    }
}

impl PartialEq for Action {
    fn eq(&self, other: &Action) -> (same: bool) {
        match (self, other) {
            (Action::Observe(a), Action::Observe(b)) => *a == *b,
            (Action::ObserveMock(a), Action::ObserveMock(b)) => *a == *b,
            (Action::Control(a), Action::Control(b)) => *a == *b,
            (Action::Write(a, x), Action::Write(b, y)) => *a == *b && same_bytes(x, y),
            _ => false,
        }
    }
}

impl Eq for Action {
}

impl PartialEqSpecImpl for Action {
    open spec fn obeys_eq_spec() -> bool {
        true
    }

    open spec fn eq_spec(&self, other: &Action) -> bool {
        self@ == other@
    }
}

/// What a [`Response`] stands for in contracts.
pub enum ResponseView {
    Okay,
    ControlGranted(Label),
    ControlQueue(Label),
    Message(Label, Seq<u8>),
}

/// What the broker tells a client.
///
/// `Okay`, `ControlGranted` and `ControlQueue` answer a request. `Message` is
/// never an answer: it is pushed to the observers of an endpoint. A
/// `ControlGranted` is also pushed, to the user whose turn has come.
#[derive(Debug)]
pub enum Response {
    /// The request was carried out.
    Okay,
    /// The user now holds control of the endpoint.
    ControlGranted(EndpointLabel),
    /// Somebody else holds control; the user waits in the queue.
    ControlQueue(EndpointLabel),
    /// These bytes were written to the endpoint.
    Message(EndpointLabel, Vec<u8>),
}

impl View for Response {
    type V = ResponseView;

    open spec fn view(&self) -> ResponseView {
        match self {
            Response::Okay => ResponseView::Okay,
            Response::ControlGranted(label) => ResponseView::ControlGranted(label@),
            Response::ControlQueue(label) => ResponseView::ControlQueue(label@),
            Response::Message(label, bytes) => ResponseView::Message(label@, bytes@),
        }
    }
}

impl Response {
    /// Whether this response can only arrive unasked: observed data.
    pub fn is_push_only(&self) -> (push: bool)
        ensures
            push == (self@ is Message),
    {
        match self {
            Response::Message(_, _) => true,
            _ => false,
        }
    }
}

impl Clone for Response {
    fn clone(&self) -> (copy: Response)
        ensures
            copy@ == self@,
    {
        match self {
            Response::Okay => Response::Okay,
            Response::ControlGranted(label) => Response::ControlGranted(label.clone()),
            Response::ControlQueue(label) => Response::ControlQueue(label.clone()),
            Response::Message(label, bytes) => Response::Message(label.clone(), copy_bytes(bytes)),
        }
    }
}

impl PartialEq for Response {
    fn eq(&self, other: &Response) -> (same: bool) {
        match (self, other) {
            (Response::Okay, Response::Okay) => true,
            (Response::ControlGranted(a), Response::ControlGranted(b)) => *a == *b,
            (Response::ControlQueue(a), Response::ControlQueue(b)) => *a == *b,
            (Response::Message(a, x), Response::Message(b, y)) => *a == *b && same_bytes(x, y),
            _ => false,
        }
    }
}

impl Eq for Response {
}

impl PartialEqSpecImpl for Response {
    open spec fn obeys_eq_spec() -> bool {
        true
    }

    open spec fn eq_spec(&self, other: &Response) -> bool {
        self@ == other@
    }
}

/// What goes out to a client: a response or an error.
pub type ResponseResult = Result<Response, Error>;

/// What a [`ResponseResult`] stands for in contracts.
pub open spec fn result_view(result: ResponseResult) -> Result<ResponseView, ErrorView> {
    match result {
        Ok(response) => Ok(response@),
        Err(error) => Err(error@),
    }
}

/// What a [`Delivery`] stands for in contracts.
pub struct DeliveryView {
    pub to: Seq<char>,
    pub message: ResponseView,
}

/// A response that the broker sends unasked, and the user it is for.
#[derive(Debug)]
pub struct Delivery {
    pub to: User,
    pub message: Response,
}

impl View for Delivery {
    type V = DeliveryView;

    open spec fn view(&self) -> DeliveryView {
        DeliveryView { to: self.to@, message: self.message@ }
    }
}

impl Clone for Delivery {
    fn clone(&self) -> (copy: Delivery)
        ensures
            copy@ == self@,
    {
        Delivery { to: self.to.clone(), message: self.message.clone() }
    }
}

impl PartialEq for Delivery {
    fn eq(&self, other: &Delivery) -> (same: bool) {
        self.to == other.to && self.message == other.message
    }
}

impl Eq for Delivery {
}

impl PartialEqSpecImpl for Delivery {
    open spec fn obeys_eq_spec() -> bool {
        true
    }

    open spec fn eq_spec(&self, other: &Delivery) -> bool {
        self@ == other@
    }
}

} // verus!
