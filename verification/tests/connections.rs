use serial_keel::actions::{Action, Delivery, Response};
use serial_keel::broker::Broker;
use serial_keel::endpoint::EndpointLabel;
use serial_keel::error::Error;
use serial_keel::hub::Hub;
use serial_keel::peer::{Peer, Phase};
use serial_keel::user::User;

#[test]
fn queued_user_is_granted_when_the_controller_disconnects() {
    let mut hub = Hub::new();
    let a = hub.on_connect("127.0.0.1:50001");
    let b = hub.on_connect("127.0.0.1:50002");
    let label = EndpointLabel::mock("x");

    hub.on_message(a, "", Ok(Action::control(&label)));
    assert_eq!(hub.next_outbound(a), Some(Ok(Response::ControlGranted(label.clone()))));

    hub.on_message(b, "", Ok(Action::control(&label)));
    assert_eq!(hub.next_outbound(b), Some(Ok(Response::ControlQueue(label.clone()))));
    assert_eq!(hub.next_outbound(b), None);

    let pushes = hub.on_disconnect(a);
    assert_eq!(
        pushes,
        vec![Delivery {
            to: User::new("127.0.0.1:50002"),
            message: Response::ControlGranted(label.clone())
        }]
    );
    assert_eq!(hub.next_outbound(b), Some(Ok(Response::ControlGranted(label.clone()))));
    assert_eq!(hub.next_outbound(b), None);

    hub.on_message(b, "", Ok(Action::write(&label, vec![1])));
    assert_eq!(hub.next_outbound(b), Some(Ok(Response::Okay)));
}

#[test]
fn a_waiter_that_disconnects_is_passed_over() {
    let mut hub = Hub::new();
    let holder = hub.on_connect("holder");
    let a = hub.on_connect("a");
    let b = hub.on_connect("b");
    let label = EndpointLabel::mock("x");
    for agent in [holder, a, b] {
        hub.on_message(agent, "", Ok(Action::control(&label)));
        hub.next_outbound(agent).unwrap().unwrap();
    }

    assert!(hub.on_disconnect(a).is_empty());
    assert_eq!(hub.pending(b), 0);
    let pushes = hub.on_disconnect(holder);

    assert_eq!(pushes.len(), 1);
    assert_eq!(hub.pending(a), 0);
    assert_eq!(hub.next_outbound(b), Some(Ok(Response::ControlGranted(label))));
}

#[test]
fn the_answer_comes_before_the_pushed_message() {
    let mut hub = Hub::new();
    let writer = hub.on_connect("writer");
    let watcher = hub.on_connect("watcher");
    let label = EndpointLabel::mock("m");
    hub.on_message(writer, "", Ok(Action::control(&label)));
    hub.on_message(writer, "", Ok(Action::observe(&label)));
    hub.on_message(watcher, "", Ok(Action::observe_mock("m")));
    assert_eq!(hub.next_outbound(writer), Some(Ok(Response::ControlGranted(label.clone()))));
    assert_eq!(hub.next_outbound(writer), Some(Ok(Response::Okay)));
    assert_eq!(hub.next_outbound(watcher), Some(Ok(Response::Okay)));

    let effects = hub.on_message(writer, "", Ok(Action::write(&label, vec![5, 6])));

    assert_eq!(effects.pushes.len(), 2);
    assert!(!effects.to_device);
    let message = Response::Message(label, vec![5, 6]);
    assert_eq!(hub.pending(writer), 2);
    assert_eq!(hub.next_outbound(writer), Some(Ok(Response::Okay)));
    assert_eq!(hub.next_outbound(writer), Some(Ok(message.clone())));
    assert_eq!(hub.next_outbound(watcher), Some(Ok(message)));
    assert_eq!(hub.next_outbound(watcher), None);
}

#[test]
fn unreadable_text_is_echoed_and_changes_nothing() {
    let mut hub = Hub::new();
    let agent = hub.on_connect("client");

    let effects = hub.on_message(agent, "{\"Observe\":", Err("EOF while parsing".to_string()));

    assert!(effects.pushes.is_empty());
    assert_eq!(
        hub.next_outbound(agent),
        Some(Err(Error::BadJson {
            request: "{\"Observe\":".to_string(),
            problem: "EOF while parsing".to_string()
        }))
    );
    assert_eq!(hub.phase(agent), Phase::Active);
    hub.on_message(agent, "", Ok(Action::observe_mock("m")));
    assert_eq!(hub.next_outbound(agent), Some(Ok(Response::Okay)));
}

#[test]
fn a_connection_drains_and_then_closes() {
    let mut hub = Hub::new();
    let agent = hub.on_connect("client");
    hub.on_message(agent, "", Ok(Action::observe_mock("m")));
    hub.on_message(agent, "", Ok(Action::observe_mock("m")));
    assert_eq!(hub.phase(agent), Phase::Active);
    assert!(!hub.abort(agent));
    assert_eq!(hub.phase(agent), Phase::Active);

    hub.on_disconnect(agent);
    assert_eq!(hub.phase(agent), Phase::Draining);
    assert_eq!(hub.pending(agent), 2);

    hub.on_message(agent, "", Ok(Action::observe_mock("other")));
    assert_eq!(hub.pending(agent), 2);
    assert!(!hub.broker().knows(&EndpointLabel::mock("other")));

    assert_eq!(hub.next_outbound(agent), Some(Ok(Response::Okay)));
    assert!(matches!(hub.next_outbound(agent), Some(Err(Error::BadRequest(_)))));
    assert_eq!(hub.phase(agent), Phase::Draining);
    assert_eq!(hub.next_outbound(agent), None);
    assert_eq!(hub.phase(agent), Phase::Closed);
    assert_eq!(hub.next_outbound(agent), None);
    assert!(hub.on_disconnect(agent).is_empty());
    assert_eq!(hub.phase(agent), Phase::Closed);
}

#[test]
fn aborting_a_draining_connection_drops_its_messages() {
    let mut hub = Hub::new();
    let agent = hub.on_connect("client");
    hub.on_message(agent, "", Ok(Action::observe_mock("m")));
    hub.on_disconnect(agent);

    assert!(hub.abort(agent));

    assert_eq!(hub.phase(agent), Phase::Closed);
    assert_eq!(hub.pending(agent), 0);
    assert!(!hub.abort(agent));
}

#[test]
fn a_closed_connection_takes_no_message() {
    let mut broker = Broker::new();
    let mut peer = Peer::on_connect("client");
    let label = EndpointLabel::mock("m");
    let for_client =
        Delivery { to: User::new("client"), message: Response::ControlGranted(label.clone()) };
    let for_other = Delivery { to: User::new("other"), message: Response::ControlGranted(label) };

    assert!(!peer.deliver(&for_other));
    assert!(peer.deliver(&for_client));
    assert_eq!(peer.pending(), 1);

    assert!(peer.shutdown(&mut broker).is_empty());
    assert!(peer.deliver(&for_client));
    assert_eq!(peer.pending(), 2);

    assert!(peer.abort());
    assert!(!peer.deliver(&for_client));
    assert_eq!(peer.pending(), 0);
}

#[test]
fn two_connections_of_one_user_both_get_the_message() {
    let mut hub = Hub::new();
    let first = hub.on_connect("same");
    let second = hub.on_connect("same");
    let label = EndpointLabel::device("ttyUSB0");
    assert!(hub.register(&label));
    hub.on_message(first, "", Ok(Action::observe(&label)));
    assert_eq!(hub.next_outbound(first), Some(Ok(Response::Okay)));

    let pushes = hub.device_data(&label, &vec![1, 2, 3]);

    assert_eq!(pushes.len(), 1);
    let message = Response::Message(label, vec![1, 2, 3]);
    assert_eq!(hub.next_outbound(first), Some(Ok(message.clone())));
    assert_eq!(hub.next_outbound(second), Some(Ok(message)));
    assert_eq!(hub.connections(), 2);
}

#[test]
fn submit_answers_on_the_outbox() {
    let mut broker = Broker::new();
    let mut peer = Peer::new(User::new("client"));
    let label = EndpointLabel::mock("m");

    let effects = peer.submit(&mut broker, &Action::control(&label));

    assert!(effects.pushes.is_empty());
    assert!(!effects.to_device);
    assert_eq!(peer.next_outbound(), Some(Ok(Response::ControlGranted(label))));
    assert_eq!(peer.next_outbound(), None);
    assert_eq!(peer.phase(), Phase::Active);
}
