//! Names of endpoints.

use vstd::prelude::*;
use vstd::std_specs::cmp::PartialEqSpecImpl;

verus! {

/// What an endpoint label stands for in contracts: its kind and its name.
pub enum Label {
    Mock(Seq<char>),
    Device(Seq<char>),
}

/// The name of an endpoint, tagged by its kind.
///
/// A mock endpoint is simulated in software and comes into being when it is
/// first referred to. A device endpoint stands for real hardware and has to be
/// registered with the broker before anybody can use it.
#[derive(Debug)]
pub enum EndpointLabel {
    Mock(String),
    Device(String),
}

impl View for EndpointLabel {
    type V = Label;

    open spec fn view(&self) -> Label {
        match self {
            EndpointLabel::Mock(name) => Label::Mock(name@),
            EndpointLabel::Device(name) => Label::Device(name@),
        }
    }
}

impl EndpointLabel {
    /// The mock endpoint called `name`.
    pub fn mock(name: &str) -> (label: EndpointLabel)
        ensures
            label@ == Label::Mock(name@),
    {
        EndpointLabel::Mock(name.to_owned())
    }

    /// The device endpoint called `name`.
    pub fn device(name: &str) -> (label: EndpointLabel)
        ensures
            label@ == Label::Device(name@),
    {
        EndpointLabel::Device(name.to_owned())
    }

    /// Whether this label names a mock endpoint.
    pub fn is_mock(&self) -> (mock: bool)
        ensures
            mock == (self@ is Mock),
    {
        match self {
            EndpointLabel::Mock(_) => true,
            EndpointLabel::Device(_) => false,
        }
    }

    /// The name without its kind.
    pub fn name(&self) -> (name: &str)
        ensures
            self@ == Label::Mock(name@) || self@ == Label::Device(name@),
            name@ == match self@ {
                Label::Mock(n) => n,
                Label::Device(n) => n,
            },
    {
        match self {
            EndpointLabel::Mock(name) => name.as_str(),
            EndpointLabel::Device(name) => name.as_str(),
        }
    }
}

impl Clone for EndpointLabel {
    fn clone(&self) -> (copy: EndpointLabel)
        ensures
            copy@ == self@,
    {
        match self {
            EndpointLabel::Mock(name) => EndpointLabel::Mock(name.clone()),
            EndpointLabel::Device(name) => EndpointLabel::Device(name.clone()),
        }
    }
}

impl PartialEq for EndpointLabel {
    fn eq(&self, other: &EndpointLabel) -> (same: bool) {
        match (self, other) {
            (EndpointLabel::Mock(a), EndpointLabel::Mock(b)) => *a == *b,
            (EndpointLabel::Device(a), EndpointLabel::Device(b)) => *a == *b,
            _ => false,
        }
    }
}

impl Eq for EndpointLabel {
}

impl PartialEqSpecImpl for EndpointLabel {
    open spec fn obeys_eq_spec() -> bool {
        true
    }

    open spec fn eq_spec(&self, other: &EndpointLabel) -> bool {
        self@ == other@
    }
}

} // verus!
