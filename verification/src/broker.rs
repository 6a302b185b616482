//! The access broker: the one authority over every endpoint.

use vstd::prelude::*;
use crate::actions::{
    result_view, Action, Delivery, DeliveryView, Response, ResponseResult, ResponseView,
};
use crate::bytes::copy_bytes;
use crate::endpoint::{EndpointLabel, Label};
use crate::endpoint_state::{Endpoint, EndpointState, Verdict};
use crate::error::Error;
use crate::holdings::Holdings;
use crate::model::{
    action_pushes, action_reply, action_to_device, after_action, after_control, after_disconnect,
    after_observe, after_register, after_release_control, after_release_observe, all_wf,
    control_reply, device_pushes, disconnect_grants, fan_out, observe_reply, release_push,
    state_of, write_pushes, write_reply, Endpoints,
};
use crate::roster::names;
use crate::user::User;

verus! {

/// The views of `labels`, in the same order.
pub open spec fn label_views(labels: Seq<EndpointLabel>) -> Seq<Label> {
    labels.map_values(|label: EndpointLabel| label@)
}

/// The views of `deliveries`, in the same order.
pub open spec fn delivery_views(deliveries: Seq<Delivery>) -> Seq<DeliveryView> {
    deliveries.map_values(|delivery: Delivery| delivery@)
}

/// How a request ended.
#[derive(Debug)]
pub struct Outcome {
    /// What the sender of the request is told.
    pub reply: ResponseResult,
    /// The messages that go to the observers.
    pub pushes: Vec<Delivery>,
    /// Whether the request was a write whose bytes are also due to the device
    /// behind the label.
    pub to_device: bool,
}

/// The broker. It owns the state of every endpoint, and every decision on who
/// may observe, control or write is taken by one of its methods.
#[derive(Debug)]
pub struct Broker {
    labels: Vec<EndpointLabel>,
    states: Vec<EndpointState>,
    holdings: Holdings,
}

impl View for Broker {
    type V = Endpoints;

    closed spec fn view(&self) -> Endpoints {
        Map::new(
            |label: Label| label_views(self.labels@).contains(label),
            |label: Label| self.states@[label_views(self.labels@).index_of(label)]@,
        )
    }
}

impl Broker {
    /// Every endpoint has one label and one state, and each state is well
    /// formed.
    spec fn slots_wf(&self) -> bool {
        &&& self.labels@.len() == self.states@.len()
        &&& label_views(self.labels@).no_duplicates()
        &&& forall|i: int| 0 <= i < self.states@.len() ==> (#[trigger] self.states@[i]).wf()
    }

    /// The endpoint numbered `slot` is noted for `user` exactly if there is
    /// such an endpoint and `user` has a part in it.
    spec fn noted_at(&self, user: Seq<char>, slot: usize) -> bool {
        self.holdings.listed(user, slot) <==> (slot < self.states@.len()
            && self.states@[slot as int]@.involves(user))
    }

    /// The holdings are exact for every user and every endpoint.
    spec fn noted(&self) -> bool {
        forall|user: Seq<char>, slot: usize| #[trigger] self.noted_at(user, slot)
    }

    /// The holdings are exact but perhaps for `user` at the endpoint numbered
    /// `at`.
    spec fn noted_except(&self, user: Seq<char>, at: usize) -> bool {
        forall|other: Seq<char>, slot: usize|
            !(other == user && slot == at) ==> #[trigger] self.noted_at(other, slot)
    }

    /// Whether the broker is in a state that its methods can have produced.
    pub closed spec fn wf(&self) -> bool {
        &&& self.slots_wf()
        &&& self.holdings.wf()
        &&& self.noted()
    }

    /// In a broker that is well formed every endpoint is.
    pub proof fn lemma_wf(&self)
        requires
            self.wf(),
        ensures
            all_wf(self@),
            self@.dom().finite(),
    {
        let keys = label_views(self.labels@);
        vstd::seq_lib::seq_to_set_is_finite(keys);
    }

    /// What the slot at `at` means for the view.
    proof fn lemma_slot(&self, at: int)
        requires
            self.slots_wf(),
            0 <= at < self.labels@.len(),
        ensures
            self@.dom().contains(self.labels@[at]@),
            self@[self.labels@[at]@] == self.states@[at]@,
    {
        let keys = label_views(self.labels@);
        assert(keys[at] == self.labels@[at]@);
    }

    /// What replacing the state in the slot at `at` means for the view and
    /// for the holdings, when the new state differs from the old one only in
    /// the part that `user` has.
    proof fn lemma_update(before: Broker, after: Broker, at: int, user: Seq<char>)
        requires
            before.wf(),
            0 <= at < before.labels@.len(),
            after.labels@ == before.labels@,
            after.holdings == before.holdings,
            after.states@.len() == before.states@.len(),
            forall|i: int|
                0 <= i < before.states@.len() && i != at ==> after.states@[i] == before.states@[i],
            after.states@[at].wf(),
            forall|other: Seq<char>|
                other != user ==> after.states@[at]@.involves(other)
                    == before.states@[at]@.involves(other),
        ensures
            after.slots_wf(),
            after.holdings.wf(),
            after.noted_except(user, at as usize),
            after@ == before@.insert(before.labels@[at]@, after.states@[at]@),
    {
        assert forall|other: Seq<char>, slot: usize|
            !(other == user && slot == at as usize) implies #[trigger] after.noted_at(
            other,
            slot,
        ) by {
            assert(before.noted_at(other, slot));
        }
        let keys = label_views(before.labels@);
        assert(keys[at] == before.labels@[at]@);
    }

    /// A broker that knows no endpoint.
    pub fn new() -> (broker: Broker)
        ensures
            broker.wf(),
            broker@ == Map::<Label, Endpoint>::empty(),
    {
        Broker { labels: Vec::new(), states: Vec::new(), holdings: Holdings::new() }
    }

    /// The slot that holds `label`, if the broker knows it.
    fn find(&self, label: &EndpointLabel) -> (place: Option<usize>)
        requires
            self.slots_wf(),
        ensures
            match place {
                Some(at) => at < self.labels@.len() && self.labels@[at as int]@ == label@
                    && self@.dom().contains(label@) && self@[label@] == self.states@[at as int]@,
                None => !self@.dom().contains(label@),
            },
    {
        let mut i: usize = 0;
        while i < self.labels.len()
            invariant
                self.slots_wf(),
                i <= self.labels@.len(),
                forall|j: int| 0 <= j < i ==> label_views(self.labels@)[j] != label@,
            decreases self.labels.len() - i,
        {
            if self.labels[i] == *label {
                proof {
                    self.lemma_slot(i as int);
                }
                return Some(i);
            }
            i += 1;
        }
        None
    }

    /// Whether the broker knows `label`.
    pub fn knows(&self, label: &EndpointLabel) -> (known: bool)
        requires
            self.wf(),
        ensures
            known == self@.dom().contains(label@),
    {
        self.find(label).is_some()
    }

    /// The slot that holds `label`, made now if the broker did not know it.
    fn slot(&mut self, label: &EndpointLabel) -> (at: usize)
        requires
            old(self).wf(),
        ensures
            final(self).wf(),
            final(self)@ == after_register(old(self)@, label@),
            at < final(self).labels@.len(),
            final(self).labels@[at as int]@ == label@,
            final(self).states@[at as int]@ == state_of(old(self)@, label@),
    {
        match self.find(label) {
            Some(at) => at,
            None => {
                let ghost before = *self;
                let at = self.labels.len();
                let copy = label.clone();
                self.labels.push(copy);
                self.states.push(EndpointState::new());
                proof {
                    let keys = label_views(self.labels@);
                    let old_keys = label_views(before.labels@);
                    assert(keys =~= old_keys.push(label@));
                    assert forall|l: Label| self@.dom().contains(l) <==> after_register(
                        before@,
                        label@,
                    ).dom().contains(l) by {
                        if old_keys.contains(l) {
                            let i = old_keys.index_of(l);
                            assert(keys[i] == l);
                        }
                        if l == label@ {
                            assert(keys[at as int] == l);
                        }
                    }
                    assert forall|user: Seq<char>, slot: usize| #[trigger]
                        self.noted_at(user, slot) by {
                        assert(before.noted_at(user, slot));
                    }
                }
                at
            },
        }
    }

    /// Brings the holdings up to date for `user` at the endpoint numbered `at`.
    fn reindex(&mut self, user: &User, at: usize)
        requires
            old(self).slots_wf(),
            old(self).holdings.wf(),
            old(self).noted_except(user@, at),
            at < old(self).states@.len(),
        ensures
            final(self).wf(),
            final(self).labels == old(self).labels,
            final(self).states == old(self).states,
            final(self)@ == old(self)@,
    {
        let ghost before = *self;
        let involved = self.states[at].involves(user);
        self.holdings.set(user, at, involved);
        proof {
            assert forall|other: Seq<char>, slot: usize| #[trigger]
                self.noted_at(other, slot) by {
                if !(other == user@ && slot == at) {
                    assert(before.noted_at(other, slot));
                }
            }
        }
    }

    /// Makes `user` an observer of `label`.
    ///
    /// A mock endpoint that the broker does not know yet is made first. A device
    /// that was never registered is refused, and so is a user who observes the
    /// endpoint already; neither changes anything.
    pub fn observe(&mut self, user: &User, label: &EndpointLabel) -> (reply: ResponseResult)
        requires
            old(self).wf(),
        ensures
            final(self).wf(),
            final(self)@ == after_observe(old(self)@, user@, label@),
            result_view(reply) == observe_reply(old(self)@, user@, label@),
    {
        if !label.is_mock() && !self.knows(label) {
            return Err(Error::unknown_device());
        }
        let at = self.slot(label);
        let ghost before = *self;
        let added = self.states[at].observe(user);
        proof {
            assert forall|other: Seq<char>|
                other != user@ implies self.states@[at as int]@.involves(other)
                == before.states@[at as int]@.involves(other) by {
                before.states@[at as int]@.lemma_others_unmoved(user@, other);
            }
            Self::lemma_update(before, *self, at as int, user@);
        }
        self.reindex(user, at);
        if added {
            Ok(Response::Okay)
        } else {
            Err(Error::already_observing())
        }
    }

    /// Makes the device endpoint `label` known, so that users can observe and
    /// control it. Registering a label a second time changes nothing.
    pub fn register(&mut self, label: &EndpointLabel) -> (added: bool)
        requires
            old(self).wf(),
        ensures
            final(self).wf(),
            final(self)@ == after_register(old(self)@, label@),
            added == !old(self)@.dom().contains(label@),
    {
        let known = self.knows(label);
        self.slot(label);
        !known
    }

    /// Gives `user` control of `label`, or a place in the queue for it.
    ///
    /// A mock endpoint that the broker does not know yet is made first. Control
    /// is granted if the endpoint is free or `user` holds it already. If somebody
    /// else holds it, `user` is put at the end of the queue. A device that was
    /// never registered is refused, and so is a user who waits already; neither
    /// changes anything.
    pub fn control(&mut self, user: &User, label: &EndpointLabel) -> (reply: ResponseResult)
        requires
            old(self).wf(),
        ensures
            final(self).wf(),
            final(self)@ == after_control(old(self)@, user@, label@),
            result_view(reply) == control_reply(old(self)@, user@, label@),
    {
        if !label.is_mock() && !self.knows(label) {
            return Err(Error::unknown_device());
        }
        let at = self.slot(label);
        let ghost before = *self;
        let verdict = self.states[at].control(user);
        proof {
            assert forall|other: Seq<char>|
                other != user@ implies self.states@[at as int]@.involves(other)
                == before.states@[at as int]@.involves(other) by {
                before.states@[at as int]@.lemma_others_unmoved(user@, other);
            }
            Self::lemma_update(before, *self, at as int, user@);
        }
        self.reindex(user, at);
        match verdict {
            Verdict::Granted => Ok(Response::ControlGranted(label.clone())),
            Verdict::Queued => Ok(Response::ControlQueue(label.clone())),
            Verdict::Refused => Err(Error::already_queued()),
        }
    }

    /// One message with `bytes` from `label` for each observer of the slot at
    /// `at`.
    fn messages(&self, at: usize, label: &EndpointLabel, bytes: &Vec<u8>) -> (pushes: Vec<Delivery>)
        requires
            at < self.states@.len(),
        ensures
            delivery_views(pushes@) == fan_out(self.states@[at as int]@.observers, label@, bytes@),
    {
        let watching = self.states[at].observers();
        let mut pushes: Vec<Delivery> = Vec::new();
        let mut i: usize = 0;
        while i < watching.len()
            invariant
                i <= watching.len(),
                delivery_views(pushes@) == fan_out(names(watching@), label@, bytes@).subrange(
                    0,
                    i as int,
                ),
            decreases watching.len() - i,
        {
            let ghost before = pushes@;
            let delivery = Delivery {
                to: watching[i].clone(),
                message: Response::Message(label.clone(), copy_bytes(bytes)),
            };
            pushes.push(delivery);
            i += 1;
            assert(delivery_views(pushes@) =~= delivery_views(before).push(delivery@));
        }
        pushes
    }

    /// Writes `bytes` to `label` on behalf of `user`.
    ///
    /// Only the controller may write. Its bytes go to every observer of the
    /// endpoint, in the order they began to observe; `to_device` says whether
    /// they are also due to the device behind the label. Anybody else is refused
    /// and nothing is sent. Writing never changes the broker.
    pub fn write(&self, user: &User, label: &EndpointLabel, bytes: &Vec<u8>) -> (written: Outcome)
        requires
            self.wf(),
        ensures
            result_view(written.reply) == write_reply(self@, user@, label@),
            delivery_views(written.pushes@) == write_pushes(self@, user@, label@, bytes@),
            written.to_device == (written.reply is Ok && label@ is Device),
    {
        match self.find(label) {
            Some(at) => {
                if self.states[at].controls(user) {
                    return Outcome {
                        reply: Ok(Response::Okay),
                        pushes: self.messages(at, label, bytes),
                        to_device: !label.is_mock(),
                    };
                }
            },
            None => {},
        }
        let pushes: Vec<Delivery> = Vec::new();
        Outcome { reply: Err(Error::no_control()), pushes, to_device: false }
    }

    /// Hands `bytes` that came from the device behind `label` to every observer
    /// of the endpoint, in the order they began to observe.
    pub fn device_data(&self, label: &EndpointLabel, bytes: &Vec<u8>) -> (pushes: Vec<Delivery>)
        requires
            self.wf(),
        ensures
            delivery_views(pushes@) == device_pushes(self@, label@, bytes@),
    {
        match self.find(label) {
            Some(at) => self.messages(at, label, bytes),
            None => {
                Vec::new()
            },
        }
    }

    /// Takes control of `label`, or the place in its queue, away from `user`.
    ///
    /// When the controller leaves and somebody waits, the head of the queue
    /// becomes the controller, and the grant that is due to it is returned. The
    /// others keep their order. A user who neither controls nor waits changes
    /// nothing.
    pub fn release_control(&mut self, user: &User, label: &EndpointLabel) -> (push: Option<
        Delivery,
    >)
        requires
            old(self).wf(),
        ensures
            final(self).wf(),
            final(self)@ == after_release_control(old(self)@, user@, label@),
            match push {
                Some(delivery) => release_push(old(self)@, user@, label@) == Some(delivery@),
                None => release_push(old(self)@, user@, label@) is None,
            },
    {
        match self.find(label) {
            Some(at) => {
                let ghost before = *self;
                let promoted = self.states[at].release_control(user);
                proof {
                    assert forall|other: Seq<char>|
                        other != user@ implies self.states@[at as int]@.involves(other)
                        == before.states@[at as int]@.involves(other) by {
                        before.states@[at as int]@.lemma_others_unmoved(user@, other);
                    }
                    Self::lemma_update(before, *self, at as int, user@);
                }
                self.reindex(user, at);
                match promoted {
                    Some(next) => Some(
                        Delivery { to: next, message: Response::ControlGranted(label.clone()) },
                    ),
                    None => None,
                }
            },
            None => None,
        }
    }

    /// Takes `user` out of the observers of `label`. Nothing else changes.
    pub fn release_observe(&mut self, user: &User, label: &EndpointLabel)
        requires
            old(self).wf(),
        ensures
            final(self).wf(),
            final(self)@ == after_release_observe(old(self)@, user@, label@),
    {
        match self.find(label) {
            Some(at) => {
                let ghost before = *self;
                self.states[at].release_observe(user);
                proof {
                    assert forall|other: Seq<char>|
                        other != user@ implies self.states@[at as int]@.involves(other)
                        == before.states@[at as int]@.involves(other) by {
                        before.states@[at as int]@.lemma_others_unmoved(user@, other);
                    }
                    Self::lemma_update(before, *self, at as int, user@);
                }
                self.reindex(user, at);
            },
            None => {},
        }
    }

    /// The grant that leaves the slot at `at` when `user` leaves it.
    spec fn grant_at(&self, user: Seq<char>, at: int) -> Option<DeliveryView> {
        match self.states@[at]@.promoted(user) {
            Some(next) => Some(
                DeliveryView {
                    to: next,
                    message: ResponseView::ControlGranted(self.labels@[at]@),
                },
            ),
            None => None,
        }
    }

    /// Releases everything that `user` holds, waits for or observes.
    ///
    /// In every endpoint `user` gives up control, its place in the queue and
    /// its observation. Where it held control and somebody waited, the head of
    /// the queue becomes the controller; the grants that are due to those users
    /// are returned, one for each such endpoint. Afterwards `user` has no part
    /// in any endpoint, so a second call changes nothing and returns nothing.
    ///
    /// Only the endpoints that `user` has a part in are visited.
    pub fn disconnect(&mut self, user: &User) -> (pushes: Vec<Delivery>)
        requires
            old(self).wf(),
        ensures
            final(self).wf(),
            final(self)@ == after_disconnect(old(self)@, user@),
            forall|delivery: DeliveryView|
                delivery_views(pushes@).contains(delivery) <==> disconnect_grants(
                    old(self)@,
                    user@,
                    delivery,
                ),
            delivery_views(pushes@).no_duplicates(),
    {
        let ghost before = *self;
        let ghost mut origin: Seq<int> = Seq::empty();
        let slots = self.holdings.slots_of(user);
        let mut pushes: Vec<Delivery> = Vec::new();
        let mut i: usize = 0;
        proof {
            assert forall|x: int| 0 <= x < slots@.len() implies #[trigger] slots@[x]
                < before.states@.len() by {
                assert(slots@.contains(slots@[x]));
                assert(before.noted_at(user@, slots@[x]));
            }
        }
        while i < slots.len()
            invariant
                before.wf(),
                slots@.no_duplicates(),
                forall|x: int|
                    0 <= x < slots@.len() ==> #[trigger] slots@[x] < before.states@.len(),
                self.labels@ == before.labels@,
                self.holdings == before.holdings,
                self.states@.len() == before.states@.len(),
                i <= slots@.len(),
                forall|x: int|
                    0 <= x < i ==> (#[trigger] self.states@[slots@[x] as int])@
                        == before.states@[slots@[x] as int]@.leave(user@),
                forall|j: int|
                    0 <= j < self.states@.len() && !slots@.subrange(0, i as int).contains(
                        j as usize,
                    ) ==> #[trigger] self.states@[j] == before.states@[j],
                forall|j: int| 0 <= j < self.states@.len() ==> (#[trigger] self.states@[j]).wf(),
                origin.len() == pushes@.len(),
                forall|k: int|
                    0 <= k < origin.len() ==> slots@.subrange(0, i as int).contains(
                        #[trigger] origin[k] as usize,
                    ) && 0 <= origin[k] < before.states@.len() && before.grant_at(
                        user@,
                        origin[k],
                    ) == Some(delivery_views(pushes@)[k]),
                forall|k: int, l: int|
                    0 <= k < origin.len() && 0 <= l < origin.len() && k != l
                        ==> #[trigger] origin[k] != #[trigger] origin[l],
                forall|x: int|
                    0 <= x < i && (#[trigger] before.grant_at(user@, slots@[x] as int)) is Some
                        ==> origin.contains(slots@[x] as int),
            decreases slots@.len() - i,
        {
            let at = slots[i];
            let ghost origin_before = origin;
            let ghost done_after = slots@.subrange(0, i + 1);
            proof {
                assert(done_after[i as int] == at);
            }
            let promoted = self.states[at].release_control(user);
            self.states[at].release_observe(user);
            match promoted {
                Some(next) => {
                    let delivery = Delivery {
                        to: next,
                        message: Response::ControlGranted(self.labels[at].clone()),
                    };
                    pushes.push(delivery);
                    proof {
                        origin = origin.push(at as int);
                        assert forall|x: int|
                            0 <= x < i + 1 && (#[trigger] before.grant_at(user@, slots@[x] as int))
                                is Some implies origin.contains(slots@[x] as int) by {
                            if x < i {
                                let k = choose|k: int|
                                    0 <= k < origin_before.len() && origin_before[k]
                                        == slots@[x] as int;
                                assert(origin[k] == slots@[x] as int);
                            } else {
                                assert(origin[origin.len() - 1] == at as int);
                            }
                        }
                    }
                },
                None => {},
            }
            i += 1;
        }
        self.holdings.drop_user(user);
        proof {
            let keys = label_views(before.labels@);
            assert(before.states@.len() == before.states.len());
            assert forall|j: int| 0 <= j < self.states@.len() implies (
            #[trigger] self.states@[j])@ == before.states@[j]@.leave(user@) by {
                if !slots@.contains(j as usize) {
                    assert(before.noted_at(user@, j as usize));
                    before.states@[j]@.lemma_leave_absent(user@);
                }
            }
            assert forall|other: Seq<char>, slot: usize| #[trigger]
                self.noted_at(other, slot) by {
                assert(before.noted_at(other, slot));
                if slot < before.states@.len() {
                    let state = before.states@[slot as int]@;
                    if other != user@ {
                        state.lemma_others_unmoved(user@, other);
                    }
                }
            }
            let views = delivery_views(pushes@);
            assert forall|delivery: DeliveryView|
                views.contains(delivery) implies disconnect_grants(before@, user@, delivery) by {
                let k = choose|k: int| 0 <= k < views.len() && views[k] == delivery;
                let j = origin[k];
                before.lemma_slot(j);
            }
            assert forall|delivery: DeliveryView|
                disconnect_grants(before@, user@, delivery) implies views.contains(delivery) by {
                let l = choose|l: Label|
                    #![trigger before@.dom().contains(l)]
                    before@.dom().contains(l) && release_push(before@, user@, l) == Some(
                        delivery,
                    );
                let j = keys.index_of(l);
                assert(before.grant_at(user@, j) == Some(delivery));
                assert(before.noted_at(user@, j as usize));
                assert(slots@.contains(j as usize));
            }
            assert forall|k: int, l: int|
                0 <= k < views.len() && 0 <= l < views.len() && k != l implies views[k]
                != views[l] by {
                let a = origin[k];
                let b = origin[l];
                assert(keys[a] == before.labels@[a]@);
                assert(keys[b] == before.labels@[b]@);
            }
        }
        pushes
    }

    /// The labels of the endpoints that `user` controls, waits for or
    /// observes, each once.
    pub fn labels_of(&self, user: &User) -> (labels: Vec<EndpointLabel>)
        requires
            self.wf(),
        ensures
            label_views(labels@).no_duplicates(),
            forall|label: Label|
                label_views(labels@).contains(label) <==> self@.dom().contains(label)
                    && self@[label].involves(user@),
    {
        let slots = self.holdings.slots_of(user);
        let ghost keys = label_views(self.labels@);
        let mut labels: Vec<EndpointLabel> = Vec::new();
        let mut i: usize = 0;
        proof {
            assert forall|x: int| 0 <= x < slots@.len() implies #[trigger] slots@[x]
                < self.states@.len() by {
                assert(slots@.contains(slots@[x]));
                assert(self.noted_at(user@, slots@[x]));
            }
        }
        while i < slots.len()
            invariant
                self.wf(),
                keys == label_views(self.labels@),
                forall|x: int| 0 <= x < slots@.len() ==> #[trigger] slots@[x] < self.states@.len(),
                i <= slots@.len(),
                labels@.len() == i,
                forall|x: int|
                    0 <= x < i ==> #[trigger] label_views(labels@)[x] == keys[slots@[x] as int],
            decreases slots@.len() - i,
        {
            let ghost before = labels@;
            let label = self.labels[slots[i]].clone();
            labels.push(label);
            assert(label_views(labels@) =~= label_views(before).push(label@));
            i += 1;
        }
        proof {
            let found = label_views(labels@);
            assert(self.states@.len() == self.states.len());
            assert forall|label: Label| found.contains(label) implies self@.dom().contains(label)
                && self@[label].involves(user@) by {
                let x = choose|x: int| 0 <= x < found.len() && found[x] == label;
                let at = slots@[x];
                assert(slots@.contains(at));
                assert(self.noted_at(user@, at));
            }
            assert forall|label: Label|
                self@.dom().contains(label) && self@[label].involves(user@) implies found.contains(
                label,
            ) by {
                let j = keys.index_of(label);
                assert(self.noted_at(user@, j as usize));
                assert(slots@.contains(j as usize));
                let x = choose|x: int| 0 <= x < slots@.len() && slots@[x] == j as usize;
                assert(found[x] == label);
            }
        }
        labels
    }

    /// Carries out `action` for `user`: the matching one of
    /// [`observe`](Broker::observe), [`control`](Broker::control) and
    /// [`write`](Broker::write).
    pub fn apply(&mut self, user: &User, action: &Action) -> (outcome: Outcome)
        requires
            old(self).wf(),
        ensures
            final(self).wf(),
            final(self)@ == after_action(old(self)@, user@, action@),
            result_view(outcome.reply) == action_reply(old(self)@, user@, action@),
            delivery_views(outcome.pushes@) == action_pushes(old(self)@, user@, action@),
            outcome.to_device == action_to_device(old(self)@, user@, action@),
    {
        match action {
            Action::Observe(label) => {
                let reply = self.observe(user, label);
                Self::silent(reply)
            },
            Action::ObserveMock(name) => {
                let label = EndpointLabel::Mock(name.clone());
                let reply = self.observe(user, &label);
                Self::silent(reply)
            },
            Action::Control(label) => {
                let reply = self.control(user, label);
                Self::silent(reply)
            },
            Action::Write(label, bytes) => self.write(user, label, bytes),
        }
    }

    /// The outcome of a request that pushes nothing to anybody.
    fn silent(reply: ResponseResult) -> (outcome: Outcome)
        ensures
            outcome.reply == reply,
            delivery_views(outcome.pushes@) == Seq::<DeliveryView>::empty(),
            !outcome.to_device,
    {
        let pushes: Vec<Delivery> = Vec::new();
        Outcome { reply, pushes, to_device: false }
    }
}

} // verus!
