use serial_keel::actions::{Action, Response};
use serial_keel::broker::Broker;
use serial_keel::peer::{Peer, Phase};
use serial_keel::transport::{
    read_step, write_step, Frame, Incoming, ReadStep, Skipped, WriteStep,
};

#[test]
fn only_text_reaches_the_agent() {
    assert!(matches!(
        read_step(Incoming::Frame(Frame::Text("hi".to_string()))),
        ReadStep::Decode(text) if text == "hi"
    ));
    assert!(matches!(read_step(Incoming::Frame(Frame::Binary)), ReadStep::Skip(Skipped::Binary)));
    assert!(matches!(read_step(Incoming::Frame(Frame::Ping)), ReadStep::Skip(Skipped::Ping)));
    assert!(matches!(read_step(Incoming::Frame(Frame::Pong)), ReadStep::Skip(Skipped::Pong)));
    assert!(matches!(read_step(Incoming::Frame(Frame::Close)), ReadStep::Skip(Skipped::Close)));
}

#[test]
fn the_end_of_the_stream_shuts_down() {
    assert!(matches!(read_step(Incoming::Ended), ReadStep::Shutdown));
    assert!(matches!(read_step(Incoming::Failed), ReadStep::Shutdown));
}

#[test]
fn the_sender_sends_waits_and_finishes() {
    let mut broker = Broker::new();
    let mut peer = Peer::on_connect("client");

    assert!(matches!(write_step(&mut peer, true), WriteStep::Wait));

    peer.submit(&mut broker, &Action::observe_mock("m"));
    assert!(matches!(write_step(&mut peer, true), WriteStep::Send(Ok(Response::Okay))));
    assert!(matches!(write_step(&mut peer, true), WriteStep::Wait));

    peer.submit(&mut broker, &Action::observe_mock("n"));
    peer.shutdown(&mut broker);
    assert!(matches!(write_step(&mut peer, true), WriteStep::Send(Ok(Response::Okay))));
    assert_eq!(peer.phase(), Phase::Draining);
    assert!(matches!(write_step(&mut peer, true), WriteStep::Finish));
    assert_eq!(peer.phase(), Phase::Closed);
}

#[test]
fn a_failed_send_stops_the_sender() {
    let mut broker = Broker::new();
    let mut peer = Peer::on_connect("client");
    peer.submit(&mut broker, &Action::observe_mock("m"));

    assert!(matches!(write_step(&mut peer, false), WriteStep::Finish));

    assert_eq!(peer.pending(), 1);
    assert_eq!(peer.phase(), Phase::Active);
}
