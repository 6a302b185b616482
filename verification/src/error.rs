//! What the broker answers when it cannot do what was asked.

use vstd::prelude::*;
use vstd::std_specs::cmp::PartialEqSpecImpl;

verus! {

/// What an [`Error`] stands for in contracts.
pub enum ErrorView {
    BadJson { request: Seq<char>, problem: Seq<char> },
    BadRequest(Seq<char>),
}

/// A request that was not carried out.
///
/// Neither kind closes the connection and neither changes what the broker
/// knows: the client may simply send its next request.
#[derive(Debug)]
pub enum Error {
    /// The text of the request could not be read as an action. `request` is the
    /// text as it came and `problem` says what was wrong with it.
    BadJson { request: String, problem: String },
    /// The request was readable but asks for something the broker's rules
    /// forbid. The text says which rule.
    BadRequest(String),
}

impl View for Error {
    type V = ErrorView;

    open spec fn view(&self) -> ErrorView {
        match self {
            Error::BadJson { request, problem } => ErrorView::BadJson {
                request: request@,
                problem: problem@,
            },
            Error::BadRequest(reason) => ErrorView::BadRequest(reason@),
        }
    }
}

/// The reason given to a user who observes an endpoint a second time.
pub open spec fn already_observing() -> Seq<char> {
    "already observing this endpoint"@
}

/// The reason given to a user who asks for control while already waiting for it.
pub open spec fn already_queued() -> Seq<char> {
    "already queued for this endpoint"@
}

/// The reason given to a user who writes to an endpoint without controlling it.
pub open spec fn no_control() -> Seq<char> {
    "no control over this endpoint"@
}

/// The reason given to a user who names a device that nobody registered.
pub open spec fn unknown_device() -> Seq<char> {
    "no such device endpoint"@
}

impl Error {
    /// The error for a request text that could not be read.
    pub fn bad_json(request: &str, problem: &str) -> (error: Error)
        ensures
            error@ == (ErrorView::BadJson { request: request@, problem: problem@ }),
    {
        Error::BadJson { request: request.to_owned(), problem: problem.to_owned() }
    }

    /// The error for a second observation of one endpoint.
    pub fn already_observing() -> (error: Error)
        ensures
            error@ == ErrorView::BadRequest(already_observing()),
    {
        Error::BadRequest("already observing this endpoint".to_owned())
    }

    /// The error for a second request for control by a user who is waiting.
    pub fn already_queued() -> (error: Error)
        ensures
            error@ == ErrorView::BadRequest(already_queued()),
    {
        Error::BadRequest("already queued for this endpoint".to_owned())
    }

    /// The error for a write by a user who does not hold control.
    pub fn no_control() -> (error: Error)
        ensures
            error@ == ErrorView::BadRequest(no_control()),
    {
        Error::BadRequest("no control over this endpoint".to_owned())
    }

    /// The error for a device label that was never registered.
    pub fn unknown_device() -> (error: Error)
        ensures
            error@ == ErrorView::BadRequest(unknown_device()),
    {
        Error::BadRequest("no such device endpoint".to_owned())
    }

    /// Whether this error reports an unreadable request.
    pub fn is_bad_json(&self) -> (bad_json: bool)
        ensures
            bad_json == (self@ is BadJson),
    {
        match self {
            Error::BadJson { .. } => true,
            Error::BadRequest(_) => false,
        }
    }

    /// Whether this error reports a request that the rules forbid.
    pub fn is_bad_request(&self) -> (bad_request: bool)
        ensures
            bad_request == (self@ is BadRequest),
    {
        match self {
            Error::BadJson { .. } => false,
            Error::BadRequest(_) => true,
        }
    }
}

impl Clone for Error {
    fn clone(&self) -> (copy: Error)
        ensures
            copy@ == self@,
    {
        match self {
            Error::BadJson { request, problem } => Error::BadJson {
                request: request.clone(),
                problem: problem.clone(),
            },
            Error::BadRequest(reason) => Error::BadRequest(reason.clone()),
        }
    }
}

impl PartialEq for Error {
    fn eq(&self, other: &Error) -> (same: bool) {
        match (self, other) {
            (
                Error::BadJson { request: left_request, problem: left_problem },
                Error::BadJson { request: right_request, problem: right_problem },
            ) => *left_request == *right_request && *left_problem == *right_problem,
            (Error::BadRequest(a), Error::BadRequest(b)) => *a == *b,
            _ => false,
        }
    }
}

impl Eq for Error {
}

impl PartialEqSpecImpl for Error {
    open spec fn obeys_eq_spec() -> bool {
        true
    }

    open spec fn eq_spec(&self, other: &Error) -> bool {
        self@ == other@
    }
}

} // verus!
