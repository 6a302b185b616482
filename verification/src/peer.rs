//! The connection agent: what the broker's side keeps for one connection.

use vstd::prelude::*;
use crate::actions::{
    result_view, Action, Delivery, DeliveryView, ResponseResult, ResponseView,
};
use crate::broker::{delivery_views, Broker};
use crate::error::{Error, ErrorView};
use crate::model::{
    action_pushes, action_reply, action_to_device, after_action, after_disconnect,
    disconnect_grants,
};
use crate::user::User;

verus! {

/// Where a connection stands in its life.
#[derive(Clone, Copy, Debug, PartialEq, Eq, Structural)]
pub enum Phase {
    /// Requests come in and messages go out.
    Active,
    /// No more requests come in; what was queued for the client still goes out.
    Draining,
    /// Nothing comes in or goes out any more.
    Closed,
}

/// What goes out to a client, as contracts see it.
pub type Outgoing = Result<ResponseView, ErrorView>;

/// The views of `messages`, in the same order.
pub open spec fn outgoing_views(messages: Seq<ResponseResult>) -> Seq<Outgoing> {
    messages.map_values(|message: ResponseResult| result_view(message))
}

/// A connection agent as contracts see it.
pub struct PeerView {
    /// Whose connection it is.
    pub user: Seq<char>,
    pub phase: Phase,
    /// What waits to be sent to the client, the oldest first. Answers and
    /// pushed messages share this one queue.
    pub outbox: Seq<Outgoing>,
}

impl PeerView {
    /// A closed connection has nothing left to send.
    pub open spec fn wf(self) -> bool {
        self.phase is Closed ==> self.outbox.len() == 0
    }

    /// The agent with `message` added at the end of its outbox.
    pub open spec fn with(self, message: Outgoing) -> PeerView {
        PeerView { outbox: self.outbox.push(message), ..self }
    }

    /// The agent once its connection has no more requests to give: an active
    /// one starts draining, any other stays as it is.
    pub open spec fn shut(self) -> PeerView {
        if self.phase is Active {
            PeerView { phase: Phase::Draining, ..self }
        } else {
            self
        }
    }

    /// The agent after its sender asked for the next message: the oldest one
    /// leaves the outbox; a draining agent with nothing left is closed.
    pub open spec fn sent(self) -> PeerView {
        if self.outbox.len() > 0 {
            PeerView { outbox: self.outbox.drop_first(), ..self }
        } else if self.phase is Draining {
            PeerView { phase: Phase::Closed, ..self }
        } else {
            self
        }
    }

    /// The agent after its sender was stopped: a draining agent is closed and
    /// what it had left is dropped, any other stays as it is.
    pub open spec fn aborted(self) -> PeerView {
        if self.phase is Draining {
            PeerView { phase: Phase::Closed, outbox: Seq::empty(), ..self }
        } else {
            self
        }
    }

    /// Whether the agent takes `delivery`: it is for this user and the
    /// connection is not closed.
    pub open spec fn takes(self, delivery: DeliveryView) -> bool {
        delivery.to == self.user && !(self.phase is Closed)
    }
}

/// What a request brings about beyond the answer to its sender.
#[derive(Debug)]
pub struct Effects {
    /// The messages that the broker pushes, each with the user it is for.
    pub pushes: Vec<Delivery>,
    /// Whether the request was a write whose bytes are also due to a device.
    pub to_device: bool,
}

/// The agent of one client connection.
///
/// It stands between the transport and the broker: requests that come in are
/// handed to the broker under the connection's user, the answers are queued for
/// the client, and when the connection ends the broker is told to release what
/// the user held.
#[derive(Debug)]
pub struct Peer {
    user: User,
    phase: Phase,
    outbox: Vec<ResponseResult>,
}

impl View for Peer {
    type V = PeerView;

    closed spec fn view(&self) -> PeerView {
        PeerView { user: self.user@, phase: self.phase, outbox: outgoing_views(self.outbox@) }
    }
}

impl Peer {
    /// Whether the agent is in a state that its methods can have produced.
    pub open spec fn wf(&self) -> bool {
        self@.wf()
    }

    /// The agent of a connection that was just accepted for `user`.
    pub fn new(user: User) -> (peer: Peer)
        ensures
            peer.wf(),
            peer@ == (PeerView { user: user@, phase: Phase::Active, outbox: Seq::empty() }),
    {
        let peer = Peer { user, phase: Phase::Active, outbox: Vec::new() };
        assert(peer@.outbox =~= Seq::empty());
        peer
    }

    /// The agent of a connection that was just accepted from `identity`.
    pub fn on_connect(identity: &str) -> (peer: Peer)
        ensures
            peer.wf(),
            peer@ == (PeerView { user: identity@, phase: Phase::Active, outbox: Seq::empty() }),
    {
        Peer::new(User::new(identity))
    }

    /// The user of this connection.
    pub fn user(&self) -> (user: &User)
        ensures
            user@ == self@.user,
    {
        &self.user
    }

    /// Where the connection stands.
    pub fn phase(&self) -> (phase: Phase)
        ensures
            phase == self@.phase,
    {
        self.phase
    }

    /// How many messages wait to be sent.
    pub fn pending(&self) -> (count: usize)
        ensures
            count == self@.outbox.len(),
    {
        self.outbox.len()
    }

    /// Puts `message` at the end of the outbox.
    fn enqueue(&mut self, message: ResponseResult)
        requires
            old(self).wf(),
            !(old(self)@.phase is Closed),
        ensures
            final(self).wf(),
            final(self)@ == old(self)@.with(result_view(message)),
    {
        let ghost before = self.outbox@;
        self.outbox.push(message);
        assert(outgoing_views(self.outbox@) =~= outgoing_views(before).push(result_view(message)));
    }

    /// Hands `action` to the broker and queues the answer for the client.
    ///
    /// On an active connection the broker carries out the action under this
    /// connection's user, the answer goes to the end of the outbox, and what the
    /// broker pushes to observers is returned. On a connection that is no
    /// longer active nothing happens.
    pub fn submit(&mut self, broker: &mut Broker, action: &Action) -> (effects: Effects)
        requires
            old(self).wf(),
            old(broker).wf(),
        ensures
            final(self).wf(),
            final(broker).wf(),
            old(self)@.phase is Active ==> {
                &&& final(self)@ == old(self)@.with(
                    action_reply(old(broker)@, old(self)@.user, action@),
                )
                &&& final(broker)@ == after_action(old(broker)@, old(self)@.user, action@)
                &&& delivery_views(effects.pushes@) == action_pushes(
                    old(broker)@,
                    old(self)@.user,
                    action@,
                )
                &&& effects.to_device == action_to_device(old(broker)@, old(self)@.user, action@)
            },
            !(old(self)@.phase is Active) ==> {
                &&& final(self)@ == old(self)@
                &&& final(broker)@ == old(broker)@
                &&& delivery_views(effects.pushes@) == Seq::<DeliveryView>::empty()
                &&& !effects.to_device
            },
    {
        match self.phase {
            Phase::Active => {
                let outcome = broker.apply(&self.user, action);
                self.enqueue(outcome.reply);
                Effects { pushes: outcome.pushes, to_device: outcome.to_device }
            },
            _ => Self::nothing(),
        }
    }

    /// No effects at all.
    fn nothing() -> (effects: Effects)
        ensures
            delivery_views(effects.pushes@) == Seq::<DeliveryView>::empty(),
            !effects.to_device,
    {
        let pushes: Vec<Delivery> = Vec::new();
        Effects { pushes, to_device: false }
    }

    /// Takes one text message of the client together with what decoding it
    /// gave: the action that it holds, or what was wrong with the text.
    ///
    /// A message that holds an action is [submitted](Peer::submit). For one
    /// that could not be decoded, the client is sent a `BadJson` error holding
    /// the text as it came and the problem; the broker is not touched. Either
    /// way the connection stays open, and a connection that is no longer active
    /// ignores the message.
    pub fn on_message(
        &mut self,
        broker: &mut Broker,
        raw_text: &str,
        decoded: Result<Action, String>,
    ) -> (effects: Effects)
        requires
            old(self).wf(),
            old(broker).wf(),
        ensures
            final(self).wf(),
            final(broker).wf(),
            final(self)@.phase == old(self)@.phase,
            final(self)@.user == old(self)@.user,
            old(self)@.phase is Active ==> match decoded {
                Ok(action) => {
                    &&& final(self)@ == old(self)@.with(
                        action_reply(old(broker)@, old(self)@.user, action@),
                    )
                    &&& final(broker)@ == after_action(old(broker)@, old(self)@.user, action@)
                    &&& delivery_views(effects.pushes@) == action_pushes(
                        old(broker)@,
                        old(self)@.user,
                        action@,
                    )
                    &&& effects.to_device == action_to_device(
                        old(broker)@,
                        old(self)@.user,
                        action@,
                    )
                },
                Err(problem) => {
                    &&& final(self)@ == old(self)@.with(
                        Err(ErrorView::BadJson { request: raw_text@, problem: problem@ }),
                    )
                    &&& final(broker)@ == old(broker)@
                    &&& delivery_views(effects.pushes@) == Seq::<DeliveryView>::empty()
                    &&& !effects.to_device
                },
            },
            !(old(self)@.phase is Active) ==> {
                &&& final(self)@ == old(self)@
                &&& final(broker)@ == old(broker)@
                &&& delivery_views(effects.pushes@) == Seq::<DeliveryView>::empty()
                &&& !effects.to_device
            },
    {
        match decoded {
            Ok(action) => self.submit(broker, &action),
            Err(problem) => {
                match self.phase {
                    Phase::Active => {
                        self.enqueue(Err(Error::bad_json(raw_text, problem.as_str())));
                    },
                    _ => {},
                }
                Self::nothing()
            },
        }
    }

    /// Queues a message that the broker pushed, if it is for this connection's
    /// user and the connection is not closed. Says whether it was taken.
    pub fn deliver(&mut self, delivery: &Delivery) -> (taken: bool)
        requires
            old(self).wf(),
        ensures
            final(self).wf(),
            taken == old(self)@.takes(delivery@),
            final(self)@ == if taken {
                old(self)@.with(Ok(delivery@.message))
            } else {
                old(self)@
            },
    {
        let closed = match self.phase {
            Phase::Closed => true,
            _ => false,
        };
        if !closed && delivery.to == self.user {
            self.enqueue(Ok(delivery.message.clone()));
            true
        } else {
            false
        }
    }

    /// Ends the inbound side of the connection.
    ///
    /// The first call on an active connection makes the broker release
    /// everything that the user held, waited for or observed, and returns the
    /// grants that are due to the users whose turn has come. The connection is
    /// draining from then on: what is in the outbox can still be sent. Any
    /// later call does nothing.
    pub fn shutdown(&mut self, broker: &mut Broker) -> (pushes: Vec<Delivery>)
        requires
            old(self).wf(),
            old(broker).wf(),
        ensures
            final(self).wf(),
            final(broker).wf(),
            final(self)@ == old(self)@.shut(),
            old(self)@.phase is Active ==> {
                &&& final(broker)@ == after_disconnect(old(broker)@, old(self)@.user)
                &&& forall|delivery: DeliveryView|
                    delivery_views(pushes@).contains(delivery) <==> disconnect_grants(
                        old(broker)@,
                        old(self)@.user,
                        delivery,
                    )
                &&& delivery_views(pushes@).no_duplicates()
            },
            !(old(self)@.phase is Active) ==> {
                &&& final(broker)@ == old(broker)@
                &&& delivery_views(pushes@) == Seq::<DeliveryView>::empty()
            },
    {
        match self.phase {
            Phase::Active => {
                let pushes = broker.disconnect(&self.user);
                self.phase = Phase::Draining;
                pushes
            },
            _ => {
                Vec::new()
            },
        }
    }

    /// Gives the sender its next message: the oldest in the outbox.
    ///
    /// When there is none and the connection is draining, the sender is done
    /// and the connection is closed.
    pub fn next_outbound(&mut self) -> (message: Option<ResponseResult>)
        requires
            old(self).wf(),
        ensures
            final(self).wf(),
            final(self)@ == old(self)@.sent(),
            match message {
                Some(first) => old(self)@.outbox.len() > 0 && result_view(first) == old(
                    self,
                )@.outbox[0],
                None => old(self)@.outbox.len() == 0,
            },
    {
        if self.outbox.len() > 0 {
            let ghost before = self.outbox@;
            let first = self.outbox.remove(0);
            assert(outgoing_views(self.outbox@) =~= outgoing_views(before).drop_first());
            Some(first)
        } else {
            match self.phase {
                Phase::Draining => {
                    self.phase = Phase::Closed;
                },
                _ => {},
            }
            None
        }
    }

    /// Stops the sender of a draining connection and drops what it had left to
    /// send. A connection that is still active cannot be closed this way: it
    /// has to shut down first, so that the broker learns of its end.
    pub fn abort(&mut self) -> (closed: bool)
        requires
            old(self).wf(),
        ensures
            final(self).wf(),
            final(self)@ == old(self)@.aborted(),
            closed == (old(self)@.phase is Draining),
    {
        match self.phase {
            Phase::Draining => {
                self.phase = Phase::Closed;
                self.outbox.clear();
                assert(outgoing_views(self.outbox@) =~= Seq::empty());
                true
            },
            _ => false,
        }
    }
}

} // verus!
