//! The state of one endpoint: who controls it, who waits, who observes.

use vstd::prelude::*;
use crate::roster::{
    copy_users, lemma_without_absent, lemma_without_contains, lemma_without_no_duplicates, names,
    position, remove_user, without,
};
use crate::user::User;

verus! {

/// How a request for control ended.
#[derive(Clone, Copy, Debug, PartialEq, Eq, Structural)]
pub enum Verdict {
    /// The user holds control.
    Granted,
    /// Somebody else holds control; the user was put at the end of the queue.
    Queued,
    /// The user was in the queue already; nothing changed.
    Refused,
}

/// The state of one endpoint as contracts see it. Users stand by their names.
pub struct Endpoint {
    /// Who holds exclusive write access, if anybody.
    pub controller: Option<Seq<char>>,
    /// Who waits for control, the longest waiting first.
    pub queue: Seq<Seq<char>>,
    /// Who receives what is written, in the order they began to observe.
    pub observers: Seq<Seq<char>>,
}

impl Endpoint {
    /// The state of an endpoint that nobody has touched.
    pub open spec fn fresh() -> Endpoint {
        Endpoint { controller: None, queue: Seq::empty(), observers: Seq::empty() }
    }

    /// What holds of every endpoint at every moment: nobody waits or observes
    /// twice, nobody waits for an endpoint that is free, and the controller does
    /// not wait.
    pub open spec fn wf(self) -> bool {
        &&& self.queue.no_duplicates()
        &&& self.observers.no_duplicates()
        &&& self.queue.len() > 0 ==> self.controller is Some
        &&& self.controller is Some ==> !self.queue.contains(self.controller->Some_0)
    }

    pub open spec fn controls(self, user: Seq<char>) -> bool {
        self.controller == Some(user)
    }

    pub open spec fn waits(self, user: Seq<char>) -> bool {
        self.queue.contains(user)
    }

    pub open spec fn observes(self, user: Seq<char>) -> bool {
        self.observers.contains(user)
    }

    /// Whether `user` has any part in this endpoint.
    pub open spec fn involves(self, user: Seq<char>) -> bool {
        self.controls(user) || self.waits(user) || self.observes(user)
    }

    /// The state after `user` asked to observe: a new observer is added at the
    /// end, one who observes already changes nothing.
    pub open spec fn observe(self, user: Seq<char>) -> Endpoint {
        if self.observes(user) {
            self
        } else {
            Endpoint { observers: self.observers.push(user), ..self }
        }
    }

    /// How a request of `user` for control ends in this state.
    pub open spec fn verdict(self, user: Seq<char>) -> Verdict {
        if self.controller is None || self.controls(user) {
            Verdict::Granted
        } else if self.waits(user) {
            Verdict::Refused
        } else {
            Verdict::Queued
        }
    }

    /// The state after `user` asked for control.
    pub open spec fn control(self, user: Seq<char>) -> Endpoint {
        match self.verdict(user) {
            Verdict::Granted => Endpoint { controller: Some(user), ..self },
            Verdict::Queued => Endpoint { queue: self.queue.push(user), ..self },
            Verdict::Refused => self,
        }
    }

    /// The user whose turn comes when `user` gives up control: the head of the
    /// queue, if `user` is the controller and anybody waits.
    pub open spec fn promoted(self, user: Seq<char>) -> Option<Seq<char>> {
        if self.controls(user) && self.queue.len() > 0 {
            Some(self.queue[0])
        } else {
            None
        }
    }

    /// The state after `user` gave up control or its place in the queue.
    pub open spec fn release_control(self, user: Seq<char>) -> Endpoint {
        if self.controls(user) {
            if self.queue.len() > 0 {
                Endpoint {
                    controller: Some(self.queue[0]),
                    queue: self.queue.drop_first(),
                    ..self
                }
            } else {
                Endpoint { controller: None, ..self }
            }
        } else {
            Endpoint { queue: without(self.queue, user), ..self }
        }
    }

    /// The state after `user` stopped observing.
    pub open spec fn release_observe(self, user: Seq<char>) -> Endpoint {
        Endpoint { observers: without(self.observers, user), ..self }
    }

    /// The state after `user` gave up every part it had in the endpoint.
    pub open spec fn leave(self, user: Seq<char>) -> Endpoint {
        self.release_control(user).release_observe(user)
    }

    /// Observing keeps the state well formed.
    pub proof fn lemma_observe_wf(self, user: Seq<char>)
        requires
            self.wf(),
        ensures
            self.observe(user).wf(),
            self.observe(user).observes(user),
    {
        if !self.observes(user) {
            let after = self.observers.push(user);
            assert(after[after.len() - 1] == user);
        }
    }

    /// Asking for control keeps the state well formed.
    pub proof fn lemma_control_wf(self, user: Seq<char>)
        requires
            self.wf(),
        ensures
            self.control(user).wf(),
    {
    }

    /// Giving up control keeps the state well formed, and afterwards the user
    /// neither controls nor waits.
    pub proof fn lemma_release_control_wf(self, user: Seq<char>)
        requires
            self.wf(),
        ensures
            self.release_control(user).wf(),
            !self.release_control(user).controls(user),
            !self.release_control(user).waits(user),
    {
        if !self.controls(user) {
            lemma_without_no_duplicates(self.queue, user);
            lemma_without_contains(self.queue, user);
        }
    }

    /// Ceasing to observe keeps the state well formed.
    pub proof fn lemma_release_observe_wf(self, user: Seq<char>)
        requires
            self.wf(),
        ensures
            self.release_observe(user).wf(),
            !self.release_observe(user).observes(user),
    {
        lemma_without_no_duplicates(self.observers, user);
    }

    /// Leaving keeps the state well formed, and afterwards the user has no part
    /// in the endpoint.
    pub proof fn lemma_leave_wf(self, user: Seq<char>)
        requires
            self.wf(),
        ensures
            self.leave(user).wf(),
            !self.leave(user).involves(user),
    {
        self.lemma_release_control_wf(user);
        self.release_control(user).lemma_release_observe_wf(user);
    }

    /// What one user does leaves every other user's part in the endpoint as it
    /// was: who had a part keeps one, who had none gets none.
    pub proof fn lemma_others_unmoved(self, user: Seq<char>, other: Seq<char>)
        requires
            self.wf(),
            other != user,
        ensures
            self.observe(user).involves(other) == self.involves(other),
            self.control(user).involves(other) == self.involves(other),
            self.release_control(user).involves(other) == self.involves(other),
            self.release_observe(user).involves(other) == self.involves(other),
            self.leave(user).involves(other) == self.involves(other),
            self.leave(user).observes(other) == self.observes(other),
    {
        lemma_without_contains(self.queue, user);
        lemma_without_contains(self.observers, user);
        if !self.observes(user) {
            let after = self.observers.push(user);
            if self.observers.contains(other) {
                let i = choose|i: int| 0 <= i < self.observers.len() && self.observers[i] == other;
                assert(after[i] == other);
            }
        }
        if self.verdict(user) == Verdict::Queued {
            let after = self.queue.push(user);
            if self.queue.contains(other) {
                let i = choose|i: int| 0 <= i < self.queue.len() && self.queue[i] == other;
                assert(after[i] == other);
            }
        }
        if self.controls(user) && self.queue.len() > 0 {
            let rest = self.queue.drop_first();
            if self.queue.contains(other) {
                let i = choose|i: int| 0 <= i < self.queue.len() && self.queue[i] == other;
                if i > 0 {
                    assert(rest[i - 1] == other);
                }
            }
        }
    }

    /// A user without any part in the endpoint leaves it as it is.
    pub proof fn lemma_leave_absent(self, user: Seq<char>)
        requires
            !self.involves(user),
        ensures
            self.leave(user) == self,
            self.release_control(user) == self,
            self.release_observe(user) == self,
            self.promoted(user) is None,
    {
        lemma_without_absent(self.queue, user);
        lemma_without_absent(self.observers, user);
    }
}

/// The record that the broker keeps for one endpoint.
#[derive(Debug)]
pub struct EndpointState {
    controller: Option<User>,
    queue: Vec<User>,
    observers: Vec<User>,
}

impl View for EndpointState {
    type V = Endpoint;

    closed spec fn view(&self) -> Endpoint {
        Endpoint {
            controller: match self.controller {
                Some(user) => Some(user@),
                None => None,
            },
            queue: names(self.queue@),
            observers: names(self.observers@),
        }
    }
}

impl EndpointState {
    /// Whether the record is one that the broker can have reached.
    pub open spec fn wf(&self) -> bool {
        self@.wf()
    }

    /// The record of an endpoint that nobody has touched.
    pub fn new() -> (state: EndpointState)
        ensures
            state@ == Endpoint::fresh(),
            state.wf(),
    {
        let state = EndpointState { controller: None, queue: Vec::new(), observers: Vec::new() };
        assert(state@.queue =~= Seq::empty());
        state
    }

    /// Whether `user` holds control.
    pub fn controls(&self, user: &User) -> (yes: bool)
        ensures
            yes == self@.controls(user@),
    {
        match &self.controller {
            Some(holder) => *holder == *user,
            None => false,
        }
    }

    /// Whether `user` waits in the queue.
    pub fn waits(&self, user: &User) -> (yes: bool)
        ensures
            yes == self@.waits(user@),
    {
        position(&self.queue, user).is_some()
    }

    /// Whether `user` observes.
    pub fn observes(&self, user: &User) -> (yes: bool)
        ensures
            yes == self@.observes(user@),
    {
        position(&self.observers, user).is_some()
    }

    /// Whether `user` has any part in the endpoint.
    pub fn involves(&self, user: &User) -> (yes: bool)
        ensures
            yes == self@.involves(user@),
    {
        self.controls(user) || self.waits(user) || self.observes(user)
    }

    /// The user who holds control, if anybody.
    pub fn controller(&self) -> (holder: Option<User>)
        ensures
            match holder {
                Some(user) => self@.controller == Some(user@),
                None => self@.controller is None,
            },
    {
        match &self.controller {
            Some(holder) => Some(holder.clone()),
            None => None,
        }
    }

    /// The users who wait for control, the longest waiting first.
    pub fn queue(&self) -> (waiting: Vec<User>)
        ensures
            names(waiting@) == self@.queue,
    {
        copy_users(&self.queue)
    }

    /// The users who observe, in the order they began.
    pub fn observers(&self) -> (watching: Vec<User>)
        ensures
            names(watching@) == self@.observers,
    {
        copy_users(&self.observers)
    }

    /// Adds `user` to the observers, unless it observes already.
    pub fn observe(&mut self, user: &User) -> (added: bool)
        requires
            old(self).wf(),
        ensures
            final(self)@ == old(self)@.observe(user@),
            final(self).wf(),
            added == !old(self)@.observes(user@),
    {
        if self.observes(user) {
            false
        } else {
            let ghost before = self.observers@;
            let newcomer = user.clone();
            self.observers.push(newcomer);
            assert(names(self.observers@) =~= names(before).push(user@));
            true
        }
    }

    /// Gives `user` control if the endpoint is free or `user` holds it already,
    /// and puts it at the end of the queue otherwise. A user who waits already
    /// is refused and keeps its place.
    pub fn control(&mut self, user: &User) -> (verdict: Verdict)
        requires
            old(self).wf(),
        ensures
            final(self)@ == old(self)@.control(user@),
            final(self).wf(),
            verdict == old(self)@.verdict(user@),
    {
        if self.controller.is_none() {
            self.controller = Some(user.clone());
            Verdict::Granted
        } else if self.controls(user) {
            Verdict::Granted
        } else if self.waits(user) {
            Verdict::Refused
        } else {
            let ghost before = self.queue@;
            let newcomer = user.clone();
            self.queue.push(newcomer);
            assert(names(self.queue@) =~= names(before).push(user@));
            Verdict::Queued
        }
    }

    /// Takes control, or the place in the queue, away from `user`. When the
    /// controller leaves and somebody waits, the head of the queue becomes the
    /// controller and is returned.
    pub fn release_control(&mut self, user: &User) -> (promoted: Option<User>)
        requires
            old(self).wf(),
        ensures
            final(self)@ == old(self)@.release_control(user@),
            final(self).wf(),
            match promoted {
                Some(next) => old(self)@.promoted(user@) == Some(next@),
                None => old(self)@.promoted(user@) is None,
            },
    {
        proof {
            self@.lemma_release_control_wf(user@);
        }
        if self.controls(user) {
            if self.queue.len() > 0 {
                let ghost before = self.queue@;
                let next = self.queue.remove(0);
                assert(names(self.queue@) =~= names(before).drop_first());
                self.controller = Some(next.clone());
                Some(next)
            } else {
                self.controller = None;
                None
            }
        } else {
            remove_user(&mut self.queue, user);
            None
        }
    }

    /// Takes `user` out of the observers.
    pub fn release_observe(&mut self, user: &User)
        requires
            old(self).wf(),
        ensures
            final(self)@ == old(self)@.release_observe(user@),
            final(self).wf(),
    {
        remove_user(&mut self.observers, user);
    }
}

} // verus!
