//! What follows from the broker's rules, whatever the requests and whoever
//! sends them.

use vstd::prelude::*;
use crate::actions::{DeliveryView, ResponseView};
use crate::endpoint::Label;
use crate::endpoint_state::{Endpoint, Verdict};
use crate::error::{already_observing, no_control, ErrorView};
use crate::model::{
    after_control, after_disconnect, after_observe, after_register, after_release_control,
    after_release_observe, all_wf, control_reply, disconnect_grants, may_write, observe_reply,
    present, release_push, state_of, write_pushes, write_reply, Endpoints,
};
use crate::peer::{Outgoing, PeerView, Phase};
use crate::roster::{lemma_without_absent, lemma_without_contains, lemma_without_remove, without};

verus! {

/// At every moment an endpoint has no controller or exactly one, and that user
/// does not wait in the queue: no request, release or disconnect of any user
/// for any label leads out of the well-formed states.
pub proof fn law_exclusive_control(endpoints: Endpoints, user: Seq<char>, label: Label)
    requires
        all_wf(endpoints),
    ensures
        all_wf(after_register(endpoints, label)),
        all_wf(after_observe(endpoints, user, label)),
        all_wf(after_control(endpoints, user, label)),
        all_wf(after_release_control(endpoints, user, label)),
        all_wf(after_release_observe(endpoints, user, label)),
        all_wf(after_disconnect(endpoints, user)),
        forall|other: Label| #[trigger]
            endpoints.dom().contains(other) && endpoints[other].controller is Some
                ==> !endpoints[other].queue.contains(endpoints[other].controller->Some_0),
{
    let state = state_of(endpoints, label);
    state.lemma_control_wf(user);
    state.lemma_release_control_wf(user);
    state.lemma_release_observe_wf(user);
    assert forall|other: Label| #[trigger]
        after_disconnect(endpoints, user).dom().contains(other) implies after_disconnect(
        endpoints,
        user,
    )[other].wf() by {
        endpoints[other].lemma_leave_wf(user);
    }
}

/// Who observes an endpoint is told so when it asks again: the second of two
/// requests to observe one label is refused as a bad request, and so is every
/// later one for as long as the user keeps observing.
pub proof fn law_observe_twice(endpoints: Endpoints, user: Seq<char>, label: Label)
    requires
        all_wf(endpoints),
    ensures
        observe_reply(endpoints, user, label) is Ok ==> observe_reply(
            after_observe(endpoints, user, label),
            user,
            label,
        ) == Err::<ResponseView, ErrorView>(ErrorView::BadRequest(already_observing())),
        observe_reply(after_observe(endpoints, user, label), user, label) is Err,
        after_observe(after_observe(endpoints, user, label), user, label) == after_observe(
            endpoints,
            user,
            label,
        ),
{
    state_of(endpoints, label).lemma_observe_wf(user);
}

/// A user who observes an endpoint keeps observing it whatever anybody does,
/// until it stops observing or disconnects.
pub proof fn law_observer_stays(
    endpoints: Endpoints,
    user: Seq<char>,
    label: Label,
    other: Seq<char>,
    elsewhere: Label,
)
    requires
        all_wf(endpoints),
        state_of(endpoints, label).observes(user),
    ensures
        state_of(after_register(endpoints, elsewhere), label).observes(user),
        state_of(after_observe(endpoints, other, elsewhere), label).observes(user),
        state_of(after_control(endpoints, other, elsewhere), label).observes(user),
        state_of(after_release_control(endpoints, other, elsewhere), label).observes(user),
        other != user || elsewhere != label ==> state_of(
            after_release_observe(endpoints, other, elsewhere),
            label,
        ).observes(user),
        other != user ==> state_of(after_disconnect(endpoints, other), label).observes(user),
{
    let state = endpoints[label];
    if !state.observes(other) {
        let after = state.observers.push(other);
        let i = choose|i: int| 0 <= i < state.observers.len() && state.observers[i] == user;
        assert(after[i] == user);
    }
}

/// Only the controller writes: anybody else is refused with a bad request and
/// nothing reaches the observers, whether or not the writer observes the
/// endpoint itself.
pub proof fn law_write_needs_control(
    endpoints: Endpoints,
    user: Seq<char>,
    label: Label,
    bytes: Seq<u8>,
)
    requires
        !state_of(endpoints, label).controls(user),
    ensures
        write_reply(endpoints, user, label) == Err::<ResponseView, ErrorView>(
            ErrorView::BadRequest(no_control()),
        ),
        write_pushes(endpoints, user, label, bytes) == Seq::<DeliveryView>::empty(),
{
}

/// Observing gives no right to write: a user who has only asked to observe is
/// refused when it writes.
pub proof fn law_observing_is_not_control(
    endpoints: Endpoints,
    user: Seq<char>,
    label: Label,
    bytes: Seq<u8>,
)
    requires
        !state_of(endpoints, label).controls(user),
    ensures
        write_reply(after_observe(endpoints, user, label), user, label) == Err::<
            ResponseView,
            ErrorView,
        >(ErrorView::BadRequest(no_control())),
{
}

/// Control and observation are apart: asking for control makes nobody an
/// observer, and asking to observe changes neither the controller nor the
/// queue.
pub proof fn law_control_is_not_observing(endpoints: Endpoints, user: Seq<char>, label: Label)
    ensures
        state_of(after_control(endpoints, user, label), label).observers == state_of(
            endpoints,
            label,
        ).observers,
        state_of(after_observe(endpoints, user, label), label).controller == state_of(
            endpoints,
            label,
        ).controller,
        state_of(after_observe(endpoints, user, label), label).queue == state_of(
            endpoints,
            label,
        ).queue,
{
}

/// A mock endpoint that the broker has not seen yet is made by the first
/// request for control, and that request is granted at once.
pub proof fn law_new_mock_is_granted(endpoints: Endpoints, user: Seq<char>, label: Label)
    requires
        label is Mock,
        !endpoints.dom().contains(label),
    ensures
        control_reply(endpoints, user, label) == Ok::<ResponseView, ErrorView>(
            ResponseView::ControlGranted(label),
        ),
        after_control(endpoints, user, label).dom().contains(label),
        after_control(endpoints, user, label)[label].controls(user),
        after_control(endpoints, user, label)[label].queue == Seq::<Seq<char>>::empty(),
        may_write(after_control(endpoints, user, label), user, label),
{
}

/// A mock endpoint that the broker has not seen yet is made by the first
/// request to observe it. The request succeeds and gives the user no control:
/// the endpoint stays free and the user may not write to it.
pub proof fn law_new_mock_is_observed(endpoints: Endpoints, user: Seq<char>, label: Label)
    requires
        label is Mock,
        !endpoints.dom().contains(label),
    ensures
        observe_reply(endpoints, user, label) == Ok::<ResponseView, ErrorView>(ResponseView::Okay),
        after_observe(endpoints, user, label).dom().contains(label),
        after_observe(endpoints, user, label)[label].observers == seq![user],
        after_observe(endpoints, user, label)[label].controller is None,
        after_observe(endpoints, user, label)[label].queue == Seq::<Seq<char>>::empty(),
        !may_write(after_observe(endpoints, user, label), user, label),
{
}

/// Whether `first` stands before `second` in `list`.
pub open spec fn before_in(list: Seq<Seq<char>>, first: Seq<char>, second: Seq<char>) -> bool {
    exists|i: int, j: int|
        #![trigger list[i], list[j]]
        0 <= i < j < list.len() && list[i] == first && list[j] == second
}

/// Whether `first` is ahead of `second` for the endpoint: it holds control
/// while `second` waits, or both wait and `first` stands nearer to the head.
pub open spec fn ahead(endpoint: Endpoint, first: Seq<char>, second: Seq<char>) -> bool {
    ||| endpoint.controls(first) && endpoint.waits(second)
    ||| before_in(endpoint.queue, first, second)
}

/// Users are queued in the order in which they ask: when two users ask for
/// control of a busy endpoint one after the other, the one who asked first is
/// ahead of the other.
pub proof fn law_queued_in_order(
    endpoint: Endpoint,
    first: Seq<char>,
    second: Seq<char>,
)
    requires
        endpoint.wf(),
        endpoint.controller is Some,
        first != second,
        !endpoint.controls(first) && !endpoint.waits(first),
        !endpoint.controls(second) && !endpoint.waits(second),
    ensures
        endpoint.verdict(first) == Verdict::Queued,
        endpoint.control(first).verdict(second) == Verdict::Queued,
        endpoint.control(first).control(second).queue == endpoint.queue.push(first).push(second),
        ahead(endpoint.control(first).control(second), first, second),
{
    let once = endpoint.queue.push(first);
    let twice = once.push(second);
    assert(twice[twice.len() - 2] == first && twice[twice.len() - 1] == second);
}

/// Nobody overtakes: while `first` is ahead of `second`, `second` does not hold
/// control, and whatever any third user does, `first` stays ahead of `second`.
/// So `second` is never granted control before `first` has held it or has
/// left.
pub proof fn law_no_overtaking(
    endpoint: Endpoint,
    first: Seq<char>,
    second: Seq<char>,
    other: Seq<char>,
)
    requires
        endpoint.wf(),
        ahead(endpoint, first, second),
    ensures
        !endpoint.controls(second),
        first != second,
        ahead(endpoint.observe(other), first, second),
        ahead(endpoint.release_observe(other), first, second),
        ahead(endpoint.control(other), first, second),
        other != first && other != second ==> ahead(
            endpoint.release_control(other),
            first,
            second,
        ),
        other != first && other != second ==> ahead(endpoint.leave(other), first, second),
{
    let queue = endpoint.queue;
    assert(endpoint.observe(other).queue == queue);
    assert(endpoint.release_observe(other).queue == queue);
    if endpoint.controls(first) {
        let j = choose|j: int| 0 <= j < queue.len() && queue[j] == second;
        assert(queue.push(other)[j] == second);
        if other != first && other != second {
            lemma_without_contains(queue, other);
        }
    } else {
        let (i, j) = choose|i: int, j: int|
            #![trigger queue[i], queue[j]]
            0 <= i < j < queue.len() && queue[i] == first && queue[j] == second;
        assert(queue.contains(second));
        assert(queue.contains(first));
        let longer = queue.push(other);
        assert(longer[i] == first && longer[j] == second);
        assert(before_in(longer, first, second));
        if other != first && other != second {
            if endpoint.controls(other) {
                let rest = queue.drop_first();
                if i == 0 {
                    assert(rest[j - 1] == second);
                } else {
                    assert(rest[i - 1] == first && rest[j - 1] == second);
                    assert(before_in(rest, first, second));
                }
            } else {
                lemma_order_kept(queue, other, i, j);
            }
        }
    }
}

/// Taking `item` out of a list leaves any two other members in the order they
/// had.
proof fn lemma_order_kept(list: Seq<Seq<char>>, item: Seq<char>, i: int, j: int)
    requires
        list.no_duplicates(),
        0 <= i < j < list.len(),
        list[i] != item,
        list[j] != item,
    ensures
        before_in(without(list, item), list[i], list[j]),
{
    if list.contains(item) {
        let at = choose|at: int| 0 <= at < list.len() && list[at] == item;
        lemma_without_remove(list, at);
        let rest = list.remove(at);
        let k = if i < at { i } else { i - 1 };
        let l = if j < at { j } else { j - 1 };
        assert(rest[k] == list[i] && rest[l] == list[j]);
    } else {
        lemma_without_absent(list, item);
    }
}

/// First come, first served. When the controller gives up a busy endpoint,
/// control goes to the user who has waited longest and the others move up in
/// their order. So of two users who asked one after the other, the first is
/// granted control before the second; and if the first leaves while it waits,
/// the second is next in its place.
pub proof fn law_first_come_first_served(
    endpoint: Endpoint,
    holder: Seq<char>,
    first: Seq<char>,
    second: Seq<char>,
)
    requires
        endpoint.wf(),
        endpoint.controls(holder),
        endpoint.queue.len() == 0,
        holder != first && holder != second && first != second,
    ensures
        ({
            let busy = endpoint.control(first).control(second);
            &&& busy.promoted(holder) == Some(first)
            &&& busy.release_control(holder).controls(first)
            &&& busy.release_control(holder).queue == seq![second]
            &&& busy.release_control(holder).promoted(first) == Some(second)
            &&& busy.release_control(holder).release_control(first).controls(second)
            &&& busy.leave(first).controls(holder)
            &&& busy.leave(first).queue == seq![second]
            &&& busy.leave(first).promoted(holder) == Some(second)
            &&& busy.leave(first).release_control(holder).controls(second)
        }),
{
    let busy = endpoint.control(first).control(second);
    lemma_without_remove(busy.queue, 0);
}

/// When the controller gives up an endpoint that somebody waits for, the head
/// of the queue becomes the controller and is told so, and the rest of the
/// queue is what it was. A user who leaves the queue takes nobody else with
/// it.
pub proof fn law_release_promotes_head(endpoints: Endpoints, user: Seq<char>, label: Label)
    requires
        all_wf(endpoints),
        endpoints.dom().contains(label),
    ensures
        ({
            let before = endpoints[label];
            let after = after_release_control(endpoints, user, label)[label];
            &&& before.controls(user) && before.queue.len() > 0 ==> {
                &&& after.controls(before.queue[0])
                &&& after.queue == before.queue.drop_first()
                &&& release_push(endpoints, user, label) == Some(
                    DeliveryView {
                        to: before.queue[0],
                        message: ResponseView::ControlGranted(label),
                    },
                )
            }
            &&& before.controls(user) && before.queue.len() == 0 ==> {
                &&& after.controller is None
                &&& release_push(endpoints, user, label) is None
            }
            &&& !before.controls(user) ==> {
                &&& after.controller == before.controller
                &&& release_push(endpoints, user, label) is None
                &&& forall|other: Seq<char>|
                    other != user ==> (after.waits(other) <==> before.waits(other))
            }
            &&& after.observers == before.observers
        }),
{
    lemma_without_contains(endpoints[label].queue, user);
}

/// A disconnect is the one cleanup that is needed. Afterwards the user has no
/// part in any endpoint. Each endpoint that it controlled has gone to the head
/// of its queue, or is free if nobody waited. Every other user observes and
/// waits as before. And a second disconnect changes nothing and grants
/// nothing.
pub proof fn law_disconnect_releases_all(endpoints: Endpoints, user: Seq<char>)
    requires
        all_wf(endpoints),
    ensures
        !present(after_disconnect(endpoints, user), user),
        after_disconnect(endpoints, user).dom() == endpoints.dom(),
        forall|label: Label| #[trigger]
            endpoints.dom().contains(label) ==> {
                let before = endpoints[label];
                let after = after_disconnect(endpoints, user)[label];
                &&& before.controls(user) && before.queue.len() > 0 ==> after.controls(
                    before.queue[0],
                ) && after.queue == before.queue.drop_first()
                &&& before.controls(user) && before.queue.len() == 0 ==> after.controller is None
                &&& !before.controls(user) ==> after.controller == before.controller
                &&& forall|other: Seq<char>|
                    other != user ==> (after.observes(other) <==> before.observes(other))
                &&& forall|other: Seq<char>|
                    other != user ==> (after.controls(other) || after.waits(other)
                        <==> before.controls(other) || before.waits(other))
            },
        after_disconnect(after_disconnect(endpoints, user), user) == after_disconnect(
            endpoints,
            user,
        ),
        forall|delivery: DeliveryView|
            !disconnect_grants(after_disconnect(endpoints, user), user, delivery),
{
    let after = after_disconnect(endpoints, user);
    assert forall|label: Label| #[trigger] endpoints.dom().contains(label) implies {
        let b = endpoints[label];
        let a = after[label];
        &&& !a.involves(user)
        &&& a.leave(user) == a
        &&& b.controls(user) && b.queue.len() > 0 ==> a.controls(b.queue[0]) && a.queue
            == b.queue.drop_first()
        &&& b.controls(user) && b.queue.len() == 0 ==> a.controller is None
        &&& !b.controls(user) ==> a.controller == b.controller
        &&& forall|other: Seq<char>| other != user ==> (a.observes(other) <==> b.observes(other))
        &&& forall|other: Seq<char>|
            other != user ==> (a.controls(other) || a.waits(other) <==> b.controls(other)
                || b.waits(other))
    } by {
        let b = endpoints[label];
        let a = after[label];
        lemma_without_contains(b.observers, user);
        lemma_without_contains(b.queue, user);
        lemma_without_absent(a.queue, user);
        lemma_without_absent(a.observers, user);
        if b.controls(user) && b.queue.len() > 0 {
            let rest = b.queue.drop_first();
            assert forall|other: Seq<char>| other != user implies (a.controls(other) || a.waits(
                other,
            ) <==> b.waits(other)) by {
                if b.waits(other) {
                    let i = choose|i: int| 0 <= i < b.queue.len() && b.queue[i] == other;
                    if i > 0 {
                        assert(rest[i - 1] == other);
                    }
                }
            }
        }
    }
}

/// Endpoints are never destroyed: whatever is asked of the broker, an endpoint
/// that it knows stays known.
pub proof fn law_endpoints_stay(
    endpoints: Endpoints,
    user: Seq<char>,
    label: Label,
    known: Label,
)
    requires
        endpoints.dom().contains(known),
    ensures
        after_register(endpoints, label).dom().contains(known),
        after_observe(endpoints, user, label).dom().contains(known),
        after_control(endpoints, user, label).dom().contains(known),
        after_release_control(endpoints, user, label).dom().contains(known),
        after_release_observe(endpoints, user, label).dom().contains(known),
        after_disconnect(endpoints, user).dom().contains(known),
{
}

/// How far a connection has come in its life.
pub open spec fn progress(phase: Phase) -> nat {
    match phase {
        Phase::Active => 0,
        Phase::Draining => 1,
        Phase::Closed => 2,
    }
}

/// A connection only moves forward: from active to draining, and from draining
/// to closed. Shutting down is what ends the active phase and it does so once:
/// a second shutdown changes nothing. Only a draining connection is ever
/// closed, so no connection closes before the broker has heard of its end.
/// Queuing a message never changes the phase.
pub proof fn law_connection_moves_forward(peer: PeerView, message: Outgoing)
    ensures
        peer.with(message).phase == peer.phase,
        progress(peer.shut().phase) >= progress(peer.phase),
        progress(peer.sent().phase) >= progress(peer.phase),
        progress(peer.aborted().phase) >= progress(peer.phase),
        peer.shut().shut() == peer.shut(),
        !(peer.shut().phase is Active),
        !(peer.shut().phase is Closed) || peer.phase is Closed,
        peer.phase is Active ==> peer.sent().phase is Active && peer.aborted() == peer,
        peer.shut().outbox == peer.outbox,
{
}

} // verus!
