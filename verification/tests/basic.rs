use serial_keel::actions::{Action, Response, ResponseResult};
use serial_keel::broker::Broker;
use serial_keel::endpoint::EndpointLabel;
use serial_keel::error::Error;
use serial_keel::peer::{Peer, Phase};

fn connect() -> (Broker, Peer) {
    (Broker::new(), Peer::on_connect("127.0.0.1:50000"))
}

fn decode_failure(text: &str) -> String {
    match serde_json::from_str::<serde_json::Value>(text) {
        Ok(_) => panic!("the text is valid JSON"),
        Err(problem) => problem.to_string(),
    }
}

fn send_text(broker: &mut Broker, peer: &mut Peer, text: &str) -> ResponseResult {
    let problem = decode_failure(text);
    peer.on_message(broker, text, Err(problem));
    peer.next_outbound().expect("every request gets an answer")
}

fn send_receive(broker: &mut Broker, peer: &mut Peer, action: Action) -> ResponseResult {
    peer.on_message(broker, "", Ok(action));
    peer.next_outbound().expect("every request gets an answer")
}

#[test]
fn can_connect() {
    let (_broker, peer) = connect();
    assert_eq!(peer.phase(), Phase::Active);
    assert_eq!(peer.pending(), 0);
    assert_eq!(peer.user().name(), "127.0.0.1:50000");
}

#[test]
fn can_send_and_receive() {
    let (mut broker, mut client) = connect();
    let _response = send_text(&mut broker, &mut client, "hi");
    assert_eq!(client.pending(), 0);
}

#[test]
fn non_json_request_is_bad() {
    let (mut broker, mut client) = connect();
    let response = send_text(&mut broker, &mut client, "hi");

    assert!(matches!(response, Result::Err(Error::BadJson { .. })));
    match response {
        Err(Error::BadJson { request, problem }) => {
            assert_eq!(request, "hi");
            assert_eq!(problem, "expected value at line 1 column 1");
        }
        _ => unreachable!(),
    }
    assert_eq!(client.phase(), Phase::Active);
    assert!(!broker.knows(&EndpointLabel::mock("hi")));
}

#[test]
fn non_existing_mock_endpoint_observe_is_ok() {
    let (mut broker, mut client) = connect();

    let request = Action::observe_mock("non_existing_mock_endpoint_observe_is_ok");
    let response = send_receive(&mut broker, &mut client, request);

    assert!(matches!(response, Result::Ok(Response::Okay)));
}

#[test]
fn observe_same_twice_is_bad() {
    let (mut broker, mut client) = connect();

    let request = Action::observe_mock("twice");
    let response = send_receive(&mut broker, &mut client, request);
    assert!(matches!(response, Result::Ok(Response::Okay)));

    let request = Action::observe_mock("twice");
    let response = send_receive(&mut broker, &mut client, request);
    assert!(matches!(response, Result::Err(Error::BadRequest(_))));
}

#[test]
fn observe_mock_and_write_is_bad_no_control() {
    let (mut broker, mut client) = connect();

    let label = EndpointLabel::mock("some-mock");

    let request = Action::Observe(label.clone());
    let response = send_receive(&mut broker, &mut client, request);
    assert!(matches!(response, Result::Ok(Response::Okay)));

    let request = Action::write(&label, "Hi there".into());
    let response = send_receive(&mut broker, &mut client, request);

    assert_ne!(response, Ok(Response::Okay));
    assert!(matches!(response, Result::Err(Error::BadRequest(_))));
}
