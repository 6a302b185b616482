use serial_keel::actions::{Action, Delivery, Response};
use serial_keel::broker::Broker;
use serial_keel::endpoint::EndpointLabel;
use serial_keel::error::Error;
use serial_keel::user::User;

fn bad_request(reason: &str) -> Error {
    Error::BadRequest(reason.to_string())
}

#[test]
fn control_of_a_new_mock_is_granted_at_once() {
    let mut broker = Broker::new();
    let label = EndpointLabel::mock("fresh");
    assert!(!broker.knows(&label));

    let reply = broker.control(&User::new("a"), &label);

    assert_eq!(reply, Ok(Response::ControlGranted(label.clone())));
    assert!(broker.knows(&label));
    assert_eq!(broker.write(&User::new("a"), &label, &vec![1]).reply, Ok(Response::Okay));
}

#[test]
fn observing_a_new_mock_gives_no_control() {
    let mut broker = Broker::new();
    let label = EndpointLabel::mock("fresh");
    let user = User::new("a");

    assert_eq!(broker.observe(&user, &label), Ok(Response::Okay));

    assert!(broker.knows(&label));
    let written = broker.write(&user, &label, &vec![1, 2, 3]);
    assert_eq!(written.reply, Err(bad_request("no control over this endpoint")));
    assert!(written.pushes.is_empty());
    assert!(!written.to_device);
    let other = User::new("b");
    assert_eq!(broker.control(&other, &label), Ok(Response::ControlGranted(label)));
}

#[test]
fn second_observe_is_refused_until_released() {
    let mut broker = Broker::new();
    let label = EndpointLabel::mock("twice");
    let user = User::new("a");

    assert_eq!(broker.observe(&user, &label), Ok(Response::Okay));
    assert_eq!(
        broker.observe(&user, &label),
        Err(bad_request("already observing this endpoint"))
    );
    assert_eq!(
        broker.observe(&user, &label),
        Err(bad_request("already observing this endpoint"))
    );

    broker.release_observe(&user, &label);
    assert_eq!(broker.observe(&user, &label), Ok(Response::Okay));
}

#[test]
fn asking_again_for_held_control_is_granted_again() {
    let mut broker = Broker::new();
    let label = EndpointLabel::mock("x");
    let user = User::new("a");

    assert_eq!(broker.control(&user, &label), Ok(Response::ControlGranted(label.clone())));
    assert_eq!(broker.control(&user, &label), Ok(Response::ControlGranted(label.clone())));

    let other = User::new("b");
    assert_eq!(broker.control(&other, &label), Ok(Response::ControlQueue(label.clone())));
    assert_eq!(broker.release_control(&user, &label).map(|d| d.to), Some(other));
}

#[test]
fn asking_again_while_queued_is_refused() {
    let mut broker = Broker::new();
    let label = EndpointLabel::mock("x");
    let holder = User::new("a");
    let waiter = User::new("b");

    broker.control(&holder, &label).unwrap();
    assert_eq!(broker.control(&waiter, &label), Ok(Response::ControlQueue(label.clone())));
    assert_eq!(
        broker.control(&waiter, &label),
        Err(bad_request("already queued for this endpoint"))
    );

    let push = broker.release_control(&holder, &label);
    assert_eq!(
        push,
        Some(Delivery { to: waiter.clone(), message: Response::ControlGranted(label.clone()) })
    );
    assert_eq!(broker.release_control(&waiter, &label), None);
    assert_eq!(broker.control(&holder, &label), Ok(Response::ControlGranted(label)));
}

#[test]
fn control_passes_in_order_of_arrival() {
    let mut broker = Broker::new();
    let label = EndpointLabel::mock("busy");
    let a = User::new("a");
    let b = User::new("b");
    let c = User::new("c");
    let d = User::new("d");

    assert_eq!(broker.control(&a, &label), Ok(Response::ControlGranted(label.clone())));
    assert_eq!(broker.control(&b, &label), Ok(Response::ControlQueue(label.clone())));
    assert_eq!(broker.control(&c, &label), Ok(Response::ControlQueue(label.clone())));
    assert_eq!(broker.control(&d, &label), Ok(Response::ControlQueue(label.clone())));

    let granted = Response::ControlGranted(label.clone());
    assert_eq!(
        broker.release_control(&a, &label),
        Some(Delivery { to: b.clone(), message: granted.clone() })
    );
    assert_eq!(
        broker.release_control(&b, &label),
        Some(Delivery { to: c.clone(), message: granted.clone() })
    );
    assert_eq!(
        broker.release_control(&c, &label),
        Some(Delivery { to: d.clone(), message: granted })
    );
    assert_eq!(broker.release_control(&d, &label), None);
    assert_eq!(broker.control(&a, &label), Ok(Response::ControlGranted(label)));
}

#[test]
fn leaving_the_queue_lets_the_next_move_up() {
    let mut broker = Broker::new();
    let label = EndpointLabel::mock("busy");
    let holder = User::new("holder");
    let a = User::new("a");
    let b = User::new("b");

    broker.control(&holder, &label).unwrap();
    broker.control(&a, &label).unwrap();
    broker.control(&b, &label).unwrap();

    assert!(broker.disconnect(&a).is_empty());
    assert_eq!(
        broker.release_control(&holder, &label),
        Some(Delivery { to: b, message: Response::ControlGranted(label) })
    );
}

#[test]
fn only_the_controller_writes() {
    let mut broker = Broker::new();
    let label = EndpointLabel::mock("m");
    let holder = User::new("holder");
    let waiter = User::new("waiter");
    let stranger = User::new("stranger");
    broker.control(&holder, &label).unwrap();
    broker.control(&waiter, &label).unwrap();
    broker.observe(&waiter, &label).unwrap();

    for user in [&waiter, &stranger] {
        let written = broker.write(user, &label, &vec![7]);
        assert_eq!(written.reply, Err(bad_request("no control over this endpoint")));
        assert!(written.pushes.is_empty());
    }
    let unknown = EndpointLabel::mock("never seen");
    let written = broker.write(&holder, &unknown, &vec![7]);
    assert_eq!(written.reply, Err(bad_request("no control over this endpoint")));
    assert!(!broker.knows(&unknown));
}

#[test]
fn a_write_reaches_every_observer_in_order() {
    let mut broker = Broker::new();
    let label = EndpointLabel::mock("m");
    let holder = User::new("holder");
    let first = User::new("first");
    let second = User::new("second");
    broker.observe(&first, &label).unwrap();
    broker.control(&holder, &label).unwrap();
    broker.observe(&second, &label).unwrap();
    broker.observe(&holder, &label).unwrap();

    let bytes: Vec<u8> = "Hi there".into();
    let written = broker.write(&holder, &label, &bytes);

    assert_eq!(written.reply, Ok(Response::Okay));
    assert!(!written.to_device);
    let message = Response::Message(label.clone(), bytes.clone());
    assert_eq!(
        written.pushes,
        vec![
            Delivery { to: first, message: message.clone() },
            Delivery { to: second.clone(), message: message.clone() },
            Delivery { to: holder.clone(), message: message.clone() },
        ]
    );

    broker.release_observe(&User::new("first"), &label);
    let written = broker.write(&holder, &label, &bytes);
    assert_eq!(
        written.pushes,
        vec![
            Delivery { to: second, message: message.clone() },
            Delivery { to: holder, message },
        ]
    );
}

#[test]
fn a_device_must_be_registered() {
    let mut broker = Broker::new();
    let label = EndpointLabel::device("ttyACM0");
    let user = User::new("a");

    assert_eq!(broker.observe(&user, &label), Err(bad_request("no such device endpoint")));
    assert_eq!(broker.control(&user, &label), Err(bad_request("no such device endpoint")));
    assert!(!broker.knows(&label));

    assert!(broker.register(&label));
    assert!(!broker.register(&label));
    assert!(broker.knows(&label));
    assert!(!broker.knows(&EndpointLabel::mock("ttyACM0")));

    assert_eq!(broker.observe(&user, &label), Ok(Response::Okay));
    assert_eq!(broker.control(&user, &label), Ok(Response::ControlGranted(label.clone())));
    let written = broker.write(&user, &label, &vec![1, 2]);
    assert_eq!(written.reply, Ok(Response::Okay));
    assert!(written.to_device);
    assert_eq!(
        written.pushes,
        vec![Delivery { to: user, message: Response::Message(label, vec![1, 2]) }]
    );
}

#[test]
fn device_data_reaches_the_observers() {
    let mut broker = Broker::new();
    let label = EndpointLabel::device("ttyACM0");
    broker.register(&label);
    let a = User::new("a");
    let b = User::new("b");
    broker.observe(&a, &label).unwrap();
    broker.observe(&b, &label).unwrap();

    let pushes = broker.device_data(&label, &vec![9, 8]);

    let message = Response::Message(label, vec![9, 8]);
    assert_eq!(
        pushes,
        vec![Delivery { to: a, message: message.clone() }, Delivery { to: b, message }]
    );
    assert!(broker.device_data(&EndpointLabel::device("other"), &vec![1]).is_empty());
}

#[test]
fn disconnect_releases_everything_once() {
    let mut broker = Broker::new();
    let one = EndpointLabel::mock("one");
    let two = EndpointLabel::mock("two");
    let three = EndpointLabel::mock("three");
    let leaver = User::new("leaver");
    let next = User::new("next");
    let holder = User::new("holder");

    broker.control(&leaver, &one).unwrap();
    broker.control(&next, &one).unwrap();
    broker.control(&leaver, &two).unwrap();
    broker.observe(&leaver, &two).unwrap();
    broker.control(&holder, &three).unwrap();
    broker.control(&leaver, &three).unwrap();
    broker.observe(&next, &three).unwrap();

    let pushes = broker.disconnect(&leaver);
    assert_eq!(
        pushes,
        vec![Delivery { to: next.clone(), message: Response::ControlGranted(one.clone()) }]
    );

    assert_eq!(broker.write(&next, &one, &vec![1]).reply, Ok(Response::Okay));
    assert!(broker.write(&holder, &two, &vec![1]).reply.is_err());
    assert_eq!(broker.control(&holder, &two), Ok(Response::ControlGranted(two.clone())));
    assert!(broker.write(&holder, &two, &vec![1]).pushes.is_empty());
    assert_eq!(broker.release_control(&holder, &three), None);
    assert_eq!(
        broker.write(&holder, &three, &vec![1]).reply,
        Err(bad_request("no control over this endpoint"))
    );

    assert!(broker.disconnect(&leaver).is_empty());
    assert_eq!(broker.write(&next, &one, &vec![1]).reply, Ok(Response::Okay));
    assert_eq!(broker.observe(&next, &three), Err(bad_request("already observing this endpoint")));
}

#[test]
fn apply_carries_out_each_action() {
    let mut broker = Broker::new();
    let user = User::new("a");
    let label = EndpointLabel::mock("m");

    let outcome = broker.apply(&user, &Action::observe_mock("m"));
    assert_eq!(outcome.reply, Ok(Response::Okay));
    assert!(outcome.pushes.is_empty());

    let outcome = broker.apply(&user, &Action::observe(&label));
    assert_eq!(outcome.reply, Err(bad_request("already observing this endpoint")));

    let outcome = broker.apply(&user, &Action::control(&label));
    assert_eq!(outcome.reply, Ok(Response::ControlGranted(label.clone())));

    let outcome = broker.apply(&user, &Action::write(&label, vec![4, 2]));
    assert_eq!(outcome.reply, Ok(Response::Okay));
    assert_eq!(
        outcome.pushes,
        vec![Delivery { to: user, message: Response::Message(label, vec![4, 2]) }]
    );
    assert!(!outcome.to_device);
}
