use serial_keel::actions::{Action, Response};
use serial_keel::bytes::{copy_bytes, same_bytes};
use serial_keel::endpoint::EndpointLabel;
use serial_keel::endpoint_state::{EndpointState, Verdict};
use serial_keel::error::Error;
use serial_keel::roster::{copy_users, position, remove_user};
use serial_keel::user::User;

#[test]
fn labels_differ_by_kind_and_name() {
    let mock = EndpointLabel::mock("x");
    let device = EndpointLabel::device("x");

    assert!(mock.is_mock());
    assert!(!device.is_mock());
    assert_eq!(mock.name(), "x");
    assert_eq!(device.name(), "x");
    assert_ne!(mock, device);
    assert_eq!(mock, EndpointLabel::Mock("x".to_string()));
    assert_ne!(mock, EndpointLabel::mock("y"));
    assert_eq!(device.clone(), device);
}

#[test]
fn observe_mock_is_short_for_observing_the_mock() {
    let label = EndpointLabel::mock("m");
    assert_eq!(Action::observe_mock("m").label(), label);
    assert_eq!(Action::observe(&label).label(), label);
    assert_eq!(Action::control(&label).label(), label);
    assert_eq!(Action::write(&label, vec![1]).label(), label);
    assert_ne!(Action::observe_mock("m"), Action::observe(&label));
    assert_eq!(Action::write(&label, vec![1, 2]).clone(), Action::Write(label, vec![1, 2]));
}

#[test]
fn errors_carry_their_reason() {
    assert_eq!(
        Error::already_observing(),
        Error::BadRequest("already observing this endpoint".to_string())
    );
    assert_eq!(
        Error::already_queued(),
        Error::BadRequest("already queued for this endpoint".to_string())
    );
    assert_eq!(Error::no_control(), Error::BadRequest("no control over this endpoint".to_string()));
    assert_eq!(Error::unknown_device(), Error::BadRequest("no such device endpoint".to_string()));
    let bad_json = Error::bad_json("hi", "expected value");
    assert_eq!(
        bad_json,
        Error::BadJson { request: "hi".to_string(), problem: "expected value".to_string() }
    );
    assert!(bad_json.is_bad_json());
    assert!(!bad_json.is_bad_request());
    assert!(Error::no_control().is_bad_request());
    assert_ne!(bad_json.clone(), Error::bad_json("hi", "other"));
}

#[test]
fn only_messages_are_push_only() {
    let label = EndpointLabel::mock("m");
    assert!(Response::Message(label.clone(), vec![1]).is_push_only());
    assert!(!Response::Okay.is_push_only());
    assert!(!Response::ControlGranted(label.clone()).is_push_only());
    assert!(!Response::ControlQueue(label.clone()).is_push_only());
    assert_ne!(Response::ControlGranted(label.clone()), Response::ControlQueue(label.clone()));
    assert_ne!(Response::Message(label.clone(), vec![1]), Response::Message(label, vec![2]));
}

#[test]
fn bytes_are_copied_and_compared() {
    let bytes: Vec<u8> = vec![0, 1, 255];
    assert_eq!(copy_bytes(&bytes), vec![0, 1, 255]);
    assert_eq!(copy_bytes(&Vec::new()), Vec::<u8>::new());
    assert!(same_bytes(&bytes, &vec![0, 1, 255]));
    assert!(!same_bytes(&bytes, &vec![0, 1]));
    assert!(!same_bytes(&bytes, &vec![0, 1, 254]));
    assert!(same_bytes(&Vec::new(), &Vec::new()));
}

#[test]
fn a_user_is_found_and_removed_in_place() {
    let mut users = vec![User::new("a"), User::new("b"), User::new("c")];

    assert_eq!(position(&users, &User::new("a")), Some(0));
    assert_eq!(position(&users, &User::new("c")), Some(2));
    assert_eq!(position(&users, &User::new("d")), None);
    assert_eq!(copy_users(&users), users);

    assert!(remove_user(&mut users, &User::new("b")));
    assert_eq!(users, vec![User::new("a"), User::new("c")]);
    assert!(!remove_user(&mut users, &User::new("b")));
    assert_eq!(users, vec![User::new("a"), User::new("c")]);
}

#[test]
fn an_endpoint_has_one_controller_and_a_queue() {
    let mut state = EndpointState::new();
    let a = User::new("a");
    let b = User::new("b");
    let c = User::new("c");
    assert_eq!(state.controller(), None);
    assert!(!state.involves(&a));

    assert_eq!(state.control(&a), Verdict::Granted);
    assert_eq!(state.control(&a), Verdict::Granted);
    assert_eq!(state.control(&b), Verdict::Queued);
    assert_eq!(state.control(&c), Verdict::Queued);
    assert_eq!(state.control(&b), Verdict::Refused);
    assert_eq!(state.controller(), Some(a.clone()));
    assert_eq!(state.queue(), vec![b.clone(), c.clone()]);
    assert!(state.controls(&a) && !state.waits(&a));
    assert!(state.waits(&b) && !state.controls(&b));

    assert_eq!(state.release_control(&a), Some(b.clone()));
    assert_eq!(state.controller(), Some(b.clone()));
    assert_eq!(state.queue(), vec![c.clone()]);
    assert_eq!(state.release_control(&a), None);
    assert_eq!(state.release_control(&c), None);
    assert!(state.queue().is_empty());
    assert_eq!(state.release_control(&b), None);
    assert_eq!(state.controller(), None);
}

#[test]
fn observers_are_kept_in_order_without_repetition() {
    let mut state = EndpointState::new();
    let a = User::new("a");
    let b = User::new("b");

    assert!(state.observe(&a));
    assert!(state.observe(&b));
    assert!(!state.observe(&a));
    assert_eq!(state.observers(), vec![a.clone(), b.clone()]);
    assert!(state.observes(&a) && state.involves(&a));
    assert_eq!(state.controller(), None);

    state.release_observe(&a);
    assert_eq!(state.observers(), vec![b.clone()]);
    state.release_observe(&a);
    assert_eq!(state.observers(), vec![b]);
    assert!(!state.involves(&a));
}
