//! The broker together with the agents of all connections.
//!
//! This is the whole of the serialized authority: every request, every
//! disconnect and every message that is due to a client passes through one
//! [`Hub`], one call at a time.

use vstd::prelude::*;
use crate::actions::{result_view, Action, Delivery, DeliveryView, ResponseResult};
use crate::broker::{delivery_views, Broker};
use crate::endpoint::{EndpointLabel, Label};
use crate::endpoint_state::Endpoint;
use crate::error::ErrorView;
use crate::model::{
    action_pushes, action_reply, action_to_device, after_action, after_disconnect, after_register,
    all_wf, device_pushes, disconnect_grants, Endpoints,
};
use crate::peer::{Effects, Peer, PeerView, Phase};
use crate::transport::{write_step, WriteStep, WriteStepView};

verus! {

/// The agent after each of `pushes` that it takes was put into its outbox, in
/// their order.
pub open spec fn routed(peer: PeerView, pushes: Seq<DeliveryView>) -> PeerView
    decreases pushes.len(),
{
    if pushes.len() == 0 {
        peer
    } else {
        let before = routed(peer, pushes.drop_last());
        if before.takes(pushes.last()) {
            before.with(Ok(pushes.last().message))
        } else {
            before
        }
    }
}

/// Each of `peers` after `pushes` were routed to it.
pub open spec fn all_routed(peers: Seq<PeerView>, pushes: Seq<DeliveryView>) -> Seq<PeerView> {
    Seq::new(peers.len(), |i: int| routed(peers[i], pushes))
}

/// The views of `peers`, in the same order.
pub open spec fn peer_views(peers: Seq<Peer>) -> Seq<PeerView> {
    peers.map_values(|peer: Peer| peer@)
}

/// A hub as contracts see it.
pub struct HubView {
    /// The state of every endpoint.
    pub endpoints: Endpoints,
    /// The agent of every connection that was ever accepted, in the order they
    /// were. A connection is known by its place here.
    pub peers: Seq<PeerView>,
}

/// The broker and the agents of all connections.
#[derive(Debug)]
pub struct Hub {
    broker: Broker,
    peers: Vec<Peer>,
}

impl View for Hub {
    type V = HubView;

    closed spec fn view(&self) -> HubView {
        HubView { endpoints: self.broker@, peers: peer_views(self.peers@) }
    }
}

impl Hub {
    /// Whether the hub is in a state that its methods can have produced.
    pub closed spec fn wf(&self) -> bool {
        &&& self.broker.wf()
        &&& forall|i: int| 0 <= i < self.peers@.len() ==> (#[trigger] self.peers@[i]).wf()
    }

    /// In a hub that is well formed every endpoint and every agent is.
    pub proof fn lemma_wf(&self)
        requires
            self.wf(),
        ensures
            all_wf(self@.endpoints),
            forall|i: int| 0 <= i < self@.peers.len() ==> (#[trigger] self@.peers[i]).wf(),
    {
        self.broker.lemma_wf();
    }

    /// A hub without endpoints and without connections.
    pub fn new() -> (hub: Hub)
        ensures
            hub.wf(),
            hub@.endpoints == Map::<Label, Endpoint>::empty(),
            hub@.peers == Seq::<PeerView>::empty(),
    {
        Hub { broker: Broker::new(), peers: Vec::new() }
    }

    /// The broker of this hub.
    pub fn broker(&self) -> (broker: &Broker)
        requires
            self.wf(),
        ensures
            broker.wf(),
            broker@ == self@.endpoints,
    {
        &self.broker
    }

    /// How many connections were accepted so far.
    pub fn connections(&self) -> (count: usize)
        ensures
            count == self@.peers.len(),
    {
        self.peers.len()
    }

    /// Where the connection `agent` stands.
    pub fn phase(&self, agent: usize) -> (phase: Phase)
        requires
            agent < self@.peers.len(),
        ensures
            phase == self@.peers[agent as int].phase,
    {
        self.peers[agent].phase()
    }

    /// How many messages wait to be sent to the connection `agent`.
    pub fn pending(&self, agent: usize) -> (count: usize)
        requires
            agent < self@.peers.len(),
        ensures
            count == self@.peers[agent as int].outbox.len(),
    {
        self.peers[agent].pending()
    }

    /// Accepts a connection from `identity` and returns the place of its
    /// agent, by which the connection is known from now on.
    pub fn on_connect(&mut self, identity: &str) -> (agent: usize)
        requires
            old(self).wf(),
        ensures
            final(self).wf(),
            agent == old(self)@.peers.len(),
            final(self)@.endpoints == old(self)@.endpoints,
            final(self)@.peers == old(self)@.peers.push(
                PeerView { user: identity@, phase: Phase::Active, outbox: Seq::empty() },
            ),
    {
        let agent = self.peers.len();
        let peer = Peer::on_connect(identity);
        self.peers.push(peer);
        agent
    }

    /// Puts each of `pushes` into the outbox of every agent that takes it.
    fn route(&mut self, pushes: &Vec<Delivery>)
        requires
            old(self).wf(),
        ensures
            final(self).wf(),
            final(self)@.endpoints == old(self)@.endpoints,
            final(self)@.peers == all_routed(old(self)@.peers, delivery_views(pushes@)),
    {
        let ghost start = peer_views(self.peers@);
        let ghost views = delivery_views(pushes@);
        let mut k: usize = 0;
        while k < pushes.len()
            invariant
                self.wf(),
                self.broker@ == old(self).broker@,
                views == delivery_views(pushes@),
                start == peer_views(old(self).peers@),
                k <= pushes.len(),
                self.peers@.len() == start.len(),
                forall|i: int|
                    0 <= i < start.len() ==> (#[trigger] self.peers@[i])@ == routed(
                        start[i],
                        views.subrange(0, k as int),
                    ),
            decreases pushes.len() - k,
        {
            let ghost done = views.subrange(0, k as int);
            let ghost next = views.subrange(0, k + 1);
            let mut i: usize = 0;
            while i < self.peers.len()
                invariant
                    self.wf(),
                    self.broker@ == old(self).broker@,
                    k < pushes.len(),
                    i <= self.peers@.len(),
                    self.peers@.len() == start.len(),
                    next.len() == k + 1,
                    next.drop_last() == done,
                    next.last() == pushes@[k as int]@,
                    forall|j: int|
                        0 <= j < i ==> (#[trigger] self.peers@[j])@ == routed(start[j], next),
                    forall|j: int|
                        i <= j < start.len() ==> (#[trigger] self.peers@[j])@ == routed(
                            start[j],
                            done,
                        ),
                decreases self.peers.len() - i,
            {
                self.peers[i].deliver(&pushes[k]);
                i += 1;
            }
            k += 1;
        }
        assert(views.subrange(0, pushes.len() as int) =~= views);
    }

    /// Takes one text message from the connection `agent`, together with what
    /// decoding it gave.
    ///
    /// The agent [handles the message](Peer::on_message): the answer goes to
    /// the end of its outbox. Then whatever the broker pushes is put into the
    /// outbox of every connection of the user it is for. The effects are
    /// returned as well.
    pub fn on_message(
        &mut self,
        agent: usize,
        raw_text: &str,
        decoded: Result<Action, String>,
    ) -> (effects: Effects)
        requires
            old(self).wf(),
            agent < old(self)@.peers.len(),
        ensures
            final(self).wf(),
            ({
                let sender = old(self)@.peers[agent as int];
                let endpoints = old(self)@.endpoints;
                if sender.phase is Active {
                    match decoded {
                        Ok(action) => {
                            &&& final(self)@.endpoints == after_action(
                                endpoints,
                                sender.user,
                                action@,
                            )
                            &&& delivery_views(effects.pushes@) == action_pushes(
                                endpoints,
                                sender.user,
                                action@,
                            )
                            &&& effects.to_device == action_to_device(
                                endpoints,
                                sender.user,
                                action@,
                            )
                            &&& final(self)@.peers == all_routed(
                                old(self)@.peers.update(
                                    agent as int,
                                    sender.with(action_reply(endpoints, sender.user, action@)),
                                ),
                                delivery_views(effects.pushes@),
                            )
                        },
                        Err(problem) => {
                            &&& final(self)@.endpoints == endpoints
                            &&& delivery_views(effects.pushes@) == Seq::<DeliveryView>::empty()
                            &&& !effects.to_device
                            &&& final(self)@.peers == old(self)@.peers.update(
                                agent as int,
                                sender.with(
                                    Err(
                                        ErrorView::BadJson {
                                            request: raw_text@,
                                            problem: problem@,
                                        },
                                    ),
                                ),
                            )
                        },
                    }
                } else {
                    &&& final(self)@ == old(self)@
                    &&& delivery_views(effects.pushes@) == Seq::<DeliveryView>::empty()
                    &&& !effects.to_device
                }
            }),
    {
        let effects = self.peers[agent].on_message(&mut self.broker, raw_text, decoded);
        let ghost middle = peer_views(self.peers@);
        self.route(&effects.pushes);
        proof {
            if delivery_views(effects.pushes@).len() == 0 {
                assert(all_routed(middle, delivery_views(effects.pushes@)) =~= middle);
            }
            if !(old(self)@.peers[agent as int].phase is Active) {
                assert(middle =~= old(self)@.peers);
            }
        }
        effects
    }

    /// Ends the inbound side of the connection `agent`.
    ///
    /// The agent [shuts down](Peer::shutdown): on the first call the broker
    /// releases everything that the user held, and the grants that are due to
    /// the users whose turn has come are put into their outboxes. The grants
    /// are returned as well. Any later call does nothing.
    pub fn on_disconnect(&mut self, agent: usize) -> (pushes: Vec<Delivery>)
        requires
            old(self).wf(),
            agent < old(self)@.peers.len(),
        ensures
            final(self).wf(),
            ({
                let leaver = old(self)@.peers[agent as int];
                let endpoints = old(self)@.endpoints;
                &&& final(self)@.peers == all_routed(
                    old(self)@.peers.update(agent as int, leaver.shut()),
                    delivery_views(pushes@),
                )
                &&& leaver.phase is Active ==> {
                    &&& final(self)@.endpoints == after_disconnect(endpoints, leaver.user)
                    &&& forall|delivery: DeliveryView|
                        delivery_views(pushes@).contains(delivery) <==> disconnect_grants(
                            endpoints,
                            leaver.user,
                            delivery,
                        )
                    &&& delivery_views(pushes@).no_duplicates()
                }
                &&& !(leaver.phase is Active) ==> {
                    &&& final(self)@ == old(self)@
                    &&& delivery_views(pushes@) == Seq::<DeliveryView>::empty()
                }
            }),
    {
        let pushes = self.peers[agent].shutdown(&mut self.broker);
        let ghost middle = peer_views(self.peers@);
        self.route(&pushes);
        proof {
            if !(old(self)@.peers[agent as int].phase is Active) {
                assert(middle =~= old(self)@.peers);
                assert(all_routed(middle, delivery_views(pushes@)) =~= middle);
            }
        }
        pushes
    }

    /// Puts messages that did not arise in this hub into the outbox of every
    /// connection of the user each is for: what a device sent, say.
    pub fn deliver(&mut self, pushes: &Vec<Delivery>)
        requires
            old(self).wf(),
        ensures
            final(self).wf(),
            final(self)@.endpoints == old(self)@.endpoints,
            final(self)@.peers == all_routed(old(self)@.peers, delivery_views(pushes@)),
    {
        self.route(pushes)
    }

    /// Gives the sender of the connection `agent` its next message: the oldest
    /// in its outbox. When there is none and the connection is draining, the
    /// connection is closed.
    pub fn next_outbound(&mut self, agent: usize) -> (message: Option<ResponseResult>)
        requires
            old(self).wf(),
            agent < old(self)@.peers.len(),
        ensures
            final(self).wf(),
            final(self)@.endpoints == old(self)@.endpoints,
            final(self)@.peers == old(self)@.peers.update(
                agent as int,
                old(self)@.peers[agent as int].sent(),
            ),
            match message {
                Some(first) => old(self)@.peers[agent as int].outbox.len() > 0 && result_view(first)
                    == old(self)@.peers[agent as int].outbox[0],
                None => old(self)@.peers[agent as int].outbox.len() == 0,
            },
    {
        self.peers[agent].next_outbound()
    }

    /// Stops the sender of the connection `agent` if it is draining, and drops
    /// what it had left to send.
    pub fn abort(&mut self, agent: usize) -> (closed: bool)
        requires
            old(self).wf(),
            agent < old(self)@.peers.len(),
        ensures
            final(self).wf(),
            final(self)@.endpoints == old(self)@.endpoints,
            final(self)@.peers == old(self)@.peers.update(
                agent as int,
                old(self)@.peers[agent as int].aborted(),
            ),
            closed == (old(self)@.peers[agent as int].phase is Draining),
    {
        self.peers[agent].abort()
    }

    /// What the sender of the connection `agent` does next, given whether its
    /// last send reached the client: see [`write_step`].
    pub fn write_step(&mut self, agent: usize, last_send_arrived: bool) -> (step: WriteStep)
        requires
            old(self).wf(),
            agent < old(self)@.peers.len(),
        ensures
            final(self).wf(),
            final(self)@.endpoints == old(self)@.endpoints,
            final(self)@.peers == old(self)@.peers.update(
                agent as int,
                if last_send_arrived {
                    old(self)@.peers[agent as int].sent()
                } else {
                    old(self)@.peers[agent as int]
                },
            ),
            step@ == if !last_send_arrived {
                WriteStepView::Finish
            } else if old(self)@.peers[agent as int].outbox.len() > 0 {
                WriteStepView::Send(old(self)@.peers[agent as int].outbox[0])
            } else if old(self)@.peers[agent as int].phase is Active {
                WriteStepView::Wait
            } else {
                WriteStepView::Finish
            },
    {
        write_step(&mut self.peers[agent], last_send_arrived)
    }

    /// Makes the device endpoint `label` known to the broker, so that users
    /// can observe and control it.
    pub fn register(&mut self, label: &EndpointLabel) -> (added: bool)
        requires
            old(self).wf(),
        ensures
            final(self).wf(),
            final(self)@.endpoints == after_register(old(self)@.endpoints, label@),
            final(self)@.peers == old(self)@.peers,
            added == !old(self)@.endpoints.dom().contains(label@),
    {
        self.broker.register(label)
    }

    /// Takes `bytes` that the device behind `label` sent and puts them, as a
    /// message, into the outbox of every connection of every observer of the
    /// endpoint. What was pushed is returned as well.
    pub fn device_data(&mut self, label: &EndpointLabel, bytes: &Vec<u8>) -> (pushes: Vec<Delivery>)
        requires
            old(self).wf(),
        ensures
            final(self).wf(),
            final(self)@.endpoints == old(self)@.endpoints,
            delivery_views(pushes@) == device_pushes(old(self)@.endpoints, label@, bytes@),
            final(self)@.peers == all_routed(old(self)@.peers, delivery_views(pushes@)),
    {
        let pushes = self.broker.device_data(label, bytes);
        self.route(&pushes);
        pushes
    }
}

} // verus!
