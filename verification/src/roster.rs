//! Ordered lists of users without repetition.
//!
//! The queue of an endpoint and its observers are both kept as a vector in
//! order of arrival. This module says what it means to take a user out of such
//! a list and provides the operations that do it.

use vstd::prelude::*;
use crate::user::User;

verus! {

/// The names of the users in `users`, in the same order.
pub open spec fn names(users: Seq<User>) -> Seq<Seq<char>> {
    users.map_values(|user: User| user@)
}

/// `list` with every occurrence of `item` taken out and the rest in the order
/// they had.
pub open spec fn without<A>(list: Seq<A>, item: A) -> Seq<A> {
    list.filter(|other: A| other != item)
}

/// Taking an item out of the list after appending another one is the same as
/// appending after taking out.
pub proof fn lemma_without_push<A>(list: Seq<A>, last: A, item: A)
    ensures
        without(list.push(last), item) == if last == item {
            without(list, item)
        } else {
            without(list, item).push(last)
        },
{
    list.lemma_filter_push(last, |other: A| other != item);
}

/// What is left holds exactly the other items of the list.
pub proof fn lemma_without_contains<A>(list: Seq<A>, item: A)
    ensures
        !without(list, item).contains(item),
        forall|other: A|
            other != item ==> (#[trigger] without(list, item).contains(other) <==> list.contains(
                other,
            )),
        without(list, item).len() <= list.len(),
{
    let keep = |other: A| other != item;
    let rest = list.filter(keep);
    assert forall|other: A| other != item implies (#[trigger] rest.contains(other)
        <==> list.contains(other)) by {
        if rest.contains(other) {
            list.lemma_filter_contains_rev(keep, other);
        }
    }
}

/// Nothing can be taken out of the empty list.
pub proof fn lemma_without_empty<A>(item: A)
    ensures
        without(Seq::<A>::empty(), item) == Seq::<A>::empty(),
{
    reveal(Seq::filter);
}

/// Taking out an item that is not in the list changes nothing.
pub proof fn lemma_without_absent<A>(list: Seq<A>, item: A)
    requires
        !list.contains(item),
    ensures
        without(list, item) == list,
    decreases list.len(),
{
    if list.len() == 0 {
        lemma_without_empty::<A>(item);
        assert(list =~= Seq::<A>::empty());
    } else {
        let front = list.drop_last();
        assert forall|i: int| 0 <= i < front.len() implies front[i] != item by {
            assert(list[i] == front[i]);
        }
        lemma_without_absent(front, item);
        lemma_without_push(front, list.last(), item);
        assert(list[list.len() - 1] != item);
        assert(front.push(list.last()) =~= list);
    }
}

/// A list without repetition stays so when an item is taken out.
pub proof fn lemma_without_no_duplicates<A>(list: Seq<A>, item: A)
    requires
        list.no_duplicates(),
    ensures
        without(list, item).no_duplicates(),
    decreases list.len(),
{
    if list.len() == 0 {
        lemma_without_empty::<A>(item);
        assert(list =~= Seq::<A>::empty());
    } else {
        let front = list.drop_last();
        lemma_without_no_duplicates(front, item);
        lemma_without_push(front, list.last(), item);
        lemma_without_contains(front, item);
        assert(front.push(list.last()) =~= list);
        if list.last() != item {
            if without(front, item).contains(list.last()) {
                assert(front.contains(list.last()));
                let j = choose|j: int| 0 <= j < front.len() && front[j] == list.last();
                assert(list[j] == list[list.len() - 1]);
            }
        }
    }
}

/// In a list without repetition, taking out an item is removing the one place
/// where it stands.
pub proof fn lemma_without_remove<A>(list: Seq<A>, at: int)
    requires
        list.no_duplicates(),
        0 <= at < list.len(),
    ensures
        without(list, list[at]) == list.remove(at),
    decreases list.len(),
{
    let item = list[at];
    let front = list.drop_last();
    lemma_without_push(front, list.last(), item);
    assert(front.push(list.last()) =~= list);
    if at == list.len() - 1 {
        lemma_without_absent(front, item);
    } else {
        lemma_without_remove(front, at);
    }
}

/// Where `user` stands in `users`, if it stands there at all.
pub fn position(users: &Vec<User>, user: &User) -> (place: Option<usize>)
    ensures
        match place {
            Some(at) => at < users.len() && names(users@)[at as int] == user@ && !names(
                users@,
            ).subrange(0, at as int).contains(user@),
            None => !names(users@).contains(user@),
        },
{
    let mut i: usize = 0;
    while i < users.len()
        invariant
            i <= users.len(),
            forall|j: int| 0 <= j < i ==> names(users@)[j] != user@,
        decreases users.len() - i,
    {
        if users[i] == *user {
            return Some(i);
        }
        i += 1;
    }
    None
}

/// Takes `user` out of `users`; the others keep their order.
pub fn remove_user(users: &mut Vec<User>, user: &User) -> (removed: bool)
    requires
        names(old(users)@).no_duplicates(),
    ensures
        names(final(users)@) == without(names(old(users)@), user@),
        names(final(users)@).no_duplicates(),
        removed == names(old(users)@).contains(user@),
{
    match position(users, user) {
        Some(at) => {
            proof {
                lemma_without_remove(names(users@), at as int);
            }
            let ghost before = users@;
            users.remove(at);
            assert(names(users@) =~= names(before).remove(at as int));
            true
        },
        None => {
            proof {
                lemma_without_absent(names(users@), user@);
            }
            false
        },
    }
}

/// A copy of `users`, user by user.
pub fn copy_users(users: &Vec<User>) -> (copy: Vec<User>)
    ensures
        names(copy@) == names(users@),
{
    let mut copy: Vec<User> = Vec::new();
    let mut i: usize = 0;
    while i < users.len()
        invariant
            i <= users.len(),
            names(copy@) == names(users@).subrange(0, i as int),
        decreases users.len() - i,
    {
        let ghost before = copy@;
        let user = users[i].clone();
        copy.push(user);
        i += 1;
        assert(names(copy@) =~= names(before).push(user@));
    }
    copy
}

} // verus!
