//! What to do with what the transport hands over.
//!
//! The transport reads frames from a connection and writes frames to it. The
//! functions here take each thing it reports and say what is to be done next;
//! doing it is left to the transport.

use vstd::prelude::*;
use crate::actions::{result_view, ResponseResult};
use crate::peer::{Outgoing, Peer, Phase};

verus! {

/// A frame that a client sent.
#[derive(Debug)]
pub enum Frame {
    /// Text: it should hold a request.
    Text(String),
    /// Binary data.
    Binary,
    /// A ping of the transport.
    Ping,
    /// The answer to a ping.
    Pong,
    /// The client announces that it closes the connection.
    Close,
}

/// What reading from a connection gave.
#[derive(Debug)]
pub enum Incoming {
    /// The next frame.
    Frame(Frame),
    /// The transport failed.
    Failed,
    /// There is nothing more to read.
    Ended,
}

/// A frame that holds no request.
#[derive(Clone, Copy, Debug, PartialEq, Eq, Structural)]
pub enum Skipped {
    Binary,
    Ping,
    Pong,
    Close,
}

/// What the reader of a connection does next.
#[derive(Debug)]
pub enum ReadStep {
    /// Decode this text and hand it to the connection's agent, then read on.
    Decode(String),
    /// Nothing: the frame holds no request. Read on.
    Skip(Skipped),
    /// Stop reading and shut the agent down.
    Shutdown,
}

/// What a [`ReadStep`] stands for in contracts.
pub enum ReadStepView {
    Decode(Seq<char>),
    Skip(Skipped),
    Shutdown,
}

impl View for ReadStep {
    type V = ReadStepView;

    open spec fn view(&self) -> ReadStepView {
        match self {
            ReadStep::Decode(text) => ReadStepView::Decode(text@),
            ReadStep::Skip(skipped) => ReadStepView::Skip(*skipped),
            ReadStep::Shutdown => ReadStepView::Shutdown,
        }
    }
}

/// What the reader does with what it read.
///
/// Only a text frame reaches the agent. Any other frame is passed over and
/// reading goes on; a close frame too, since the end of the stream follows it.
/// When the stream has ended or failed the reader stops and the agent is shut
/// down.
pub fn read_step(incoming: Incoming) -> (step: ReadStep)
    ensures
        step@ == match incoming {
            Incoming::Frame(Frame::Text(text)) => ReadStepView::Decode(text@),
            Incoming::Frame(Frame::Binary) => ReadStepView::Skip(Skipped::Binary),
            Incoming::Frame(Frame::Ping) => ReadStepView::Skip(Skipped::Ping),
            Incoming::Frame(Frame::Pong) => ReadStepView::Skip(Skipped::Pong),
            Incoming::Frame(Frame::Close) => ReadStepView::Skip(Skipped::Close),
            Incoming::Failed => ReadStepView::Shutdown,
            Incoming::Ended => ReadStepView::Shutdown,
        },
{
    match incoming {
        Incoming::Frame(frame) => match frame {
            Frame::Text(text) => ReadStep::Decode(text),
            Frame::Binary => ReadStep::Skip(Skipped::Binary),
            Frame::Ping => ReadStep::Skip(Skipped::Ping),
            Frame::Pong => ReadStep::Skip(Skipped::Pong),
            Frame::Close => ReadStep::Skip(Skipped::Close),
        },
        Incoming::Failed => ReadStep::Shutdown,
        Incoming::Ended => ReadStep::Shutdown,
    }
}

/// What the sender of a connection does next.
#[derive(Debug)]
pub enum WriteStep {
    /// Encode this message and send it to the client.
    Send(ResponseResult),
    /// Nothing for now: wait until the agent has something to send.
    Wait,
    /// Stop sending for good.
    Finish,
}

/// What a [`WriteStep`] stands for in contracts.
pub enum WriteStepView {
    Send(Outgoing),
    Wait,
    Finish,
}

impl View for WriteStep {
    type V = WriteStepView;

    open spec fn view(&self) -> WriteStepView {
        match self {
            WriteStep::Send(message) => WriteStepView::Send(result_view(*message)),
            WriteStep::Wait => WriteStepView::Wait,
            WriteStep::Finish => WriteStepView::Finish,
        }
    }
}

/// What the sender does next, given whether its last send reached the client.
///
/// After a send that failed the client is gone: the sender stops, and the
/// agent keeps what it holds. Otherwise the oldest message of the outbox is
/// sent. With an empty outbox the sender waits while the connection is active,
/// and is done once it is draining or closed.
pub fn write_step(peer: &mut Peer, last_send_arrived: bool) -> (step: WriteStep)
    requires
        old(peer).wf(),
    ensures
        final(peer).wf(),
        final(peer)@ == if last_send_arrived {
            old(peer)@.sent()
        } else {
            old(peer)@
        },
        step@ == if !last_send_arrived {
            WriteStepView::Finish
        } else if old(peer)@.outbox.len() > 0 {
            WriteStepView::Send(old(peer)@.outbox[0])
        } else if old(peer)@.phase is Active {
            WriteStepView::Wait
        } else {
            WriteStepView::Finish
        },
{
    if !last_send_arrived {
        return WriteStep::Finish;
    }
    match peer.next_outbound() {
        Some(message) => WriteStep::Send(message),
        None => match peer.phase() {
            Phase::Active => WriteStep::Wait,
            _ => WriteStep::Finish,
        },
    }
}

} // verus!
