//! Which endpoints each user has a part in.
//!
//! The broker numbers its endpoints. For every user it keeps the numbers of the
//! endpoints that the user controls, waits for or observes, so that a
//! disconnect finds them without looking at every endpoint.

use vstd::prelude::*;
use crate::roster::{names, position};
use crate::user::User;

verus! {

/// Where `slot` stands in `slots`, if it stands there at all.
fn place_of(slots: &Vec<usize>, slot: usize) -> (place: Option<usize>)
    ensures
        match place {
            Some(at) => at < slots@.len() && slots@[at as int] == slot,
            None => !slots@.contains(slot),
        },
{
    let mut i: usize = 0;
    while i < slots.len()
        invariant
            i <= slots@.len(),
            forall|j: int| 0 <= j < i ==> slots@[j] != slot,
        decreases slots.len() - i,
    {
        if slots[i] == slot {
            return Some(i);
        }
        i += 1;
    }
    None
}

/// For each user, the numbers of the endpoints it has a part in.
#[derive(Debug)]
pub struct Holdings {
    users: Vec<User>,
    held: Vec<Vec<usize>>,
}

impl Holdings {
    /// Whether the record is one that its methods can have produced.
    pub closed spec fn wf(&self) -> bool {
        &&& self.users@.len() == self.held@.len()
        &&& names(self.users@).no_duplicates()
        &&& forall|k: int| 0 <= k < self.held@.len() ==> (#[trigger] self.held@[k])@.no_duplicates()
    }

    /// Whether the endpoint numbered `slot` is noted for `user`.
    pub closed spec fn listed(&self, user: Seq<char>, slot: usize) -> bool {
        exists|k: int|
            #![trigger self.held@[k]]
            0 <= k < self.users@.len() && self.users@[k]@ == user && self.held@[k]@.contains(slot)
    }

    /// What is noted for the user in row `k` is what that row holds.
    proof fn lemma_row(&self, k: int, slot: usize)
        requires
            self.wf(),
            0 <= k < self.users@.len(),
        ensures
            self.listed(self.users@[k]@, slot) == self.held@[k]@.contains(slot),
    {
        if self.listed(self.users@[k]@, slot) {
            let other = choose|other: int|
                #![trigger self.held@[other]]
                0 <= other < self.users@.len() && self.users@[other]@ == self.users@[k]@
                    && self.held@[other]@.contains(slot);
            assert(names(self.users@)[other] == names(self.users@)[k]);
        }
    }

    /// Nothing is noted for a user without a row.
    proof fn lemma_no_row(&self, user: Seq<char>, slot: usize)
        requires
            self.wf(),
            !names(self.users@).contains(user),
        ensures
            !self.listed(user, slot),
    {
        if self.listed(user, slot) {
            let k = choose|k: int|
                #![trigger self.held@[k]]
                0 <= k < self.users@.len() && self.users@[k]@ == user && self.held@[k]@.contains(
                    slot,
                );
            assert(names(self.users@)[k] == user);
        }
    }

    /// The record in which nothing is noted for anybody.
    pub fn new() -> (holdings: Holdings)
        ensures
            holdings.wf(),
            forall|user: Seq<char>, slot: usize| !holdings.listed(user, slot),
    {
        Holdings { users: Vec::new(), held: Vec::new() }
    }

    /// Notes for `user` that it has a part in the endpoint numbered `slot`, or
    /// that it has none, as `present` says. What is noted of other users and of
    /// other endpoints stays.
    pub fn set(&mut self, user: &User, slot: usize, present: bool)
        requires
            old(self).wf(),
        ensures
            final(self).wf(),
            forall|other: Seq<char>, at: usize|
                #![trigger final(self).listed(other, at)]
                #![trigger old(self).listed(other, at)]
                final(self).listed(other, at) == if other == user@ && at == slot {
                    present
                } else {
                    old(self).listed(other, at)
                },
    {
        let ghost before = *self;
        match position(&self.users, user) {
            Some(k) => {
                let found = place_of(&self.held[k], slot);
                match found {
                    Some(x) => {
                        if !present {
                            self.held[k].remove(x);
                        }
                    },
                    None => {
                        if present {
                            self.held[k].push(slot);
                        }
                    },
                }
                proof {
                    let row = before.held@[k as int]@;
                    let now = self.held@[k as int]@;
                    assert forall|at: usize| now.contains(at) == if at == slot {
                        present
                    } else {
                        row.contains(at)
                    } by {
                        match found {
                            Some(x) => {
                                if !present {
                                    if row.contains(at) && at != slot {
                                        let i = choose|i: int| 0 <= i < row.len() && row[i] == at;
                                        if i < x {
                                            assert(now[i] == at);
                                        } else {
                                            assert(now[i - 1] == at);
                                        }
                                    }
                                }
                            },
                            None => {
                                if present {
                                    assert(now[now.len() - 1] == slot);
                                    if row.contains(at) {
                                        let i = choose|i: int| 0 <= i < row.len() && row[i] == at;
                                        assert(now[i] == at);
                                    }
                                }
                            },
                        }
                    }
                    assert forall|other: Seq<char>, at: usize|
                        #![trigger self.listed(other, at)]
                        #![trigger before.listed(other, at)]
                        self.listed(other, at) == if other == user@ && at == slot {
                            present
                        } else {
                            before.listed(other, at)
                        } by {
                        if other == user@ {
                            self.lemma_row(k as int, at);
                            before.lemma_row(k as int, at);
                        } else {
                            if before.listed(other, at) {
                                let j = choose|j: int|
                                    #![trigger before.held@[j]]
                                    0 <= j < before.users@.len() && before.users@[j]@ == other
                                        && before.held@[j]@.contains(at);
                                assert(self.held@[j] == before.held@[j]);
                            }
                        }
                    }
                }
            },
            None => {
                if present {
                    let mut row: Vec<usize> = Vec::new();
                    row.push(slot);
                    let copy = user.clone();
                    self.users.push(copy);
                    self.held.push(row);
                    proof {
                        let k = before.users@.len() as int;
                        assert(names(self.users@) =~= names(before.users@).push(user@));
                        assert forall|other: Seq<char>, at: usize|
                            #![trigger self.listed(other, at)]
                            #![trigger before.listed(other, at)]
                            self.listed(other, at) == if other == user@ && at == slot {
                                present
                            } else {
                                before.listed(other, at)
                            } by {
                            if other == user@ {
                                before.lemma_no_row(user@, at);
                                assert(self.held@[k]@[0] == slot);
                            } else {
                                if before.listed(other, at) {
                                    let j = choose|j: int|
                                        #![trigger before.held@[j]]
                                        0 <= j < before.users@.len() && before.users@[j]@ == other
                                            && before.held@[j]@.contains(at);
                                    assert(self.held@[j] == before.held@[j]);
                                }
                            }
                        }
                    }
                } else {
                    proof {
                        assert forall|at: usize| !self.listed(user@, at) by {
                            self.lemma_no_row(user@, at);
                        }
                    }
                }
            },
        }
    }

    /// The numbers of the endpoints noted for `user`, each once.
    pub fn slots_of(&self, user: &User) -> (slots: Vec<usize>)
        requires
            self.wf(),
        ensures
            slots@.no_duplicates(),
            forall|slot: usize| slots@.contains(slot) == self.listed(user@, slot),
    {
        match position(&self.users, user) {
            Some(k) => {
                let row = &self.held[k];
                let mut slots: Vec<usize> = Vec::new();
                let mut i: usize = 0;
                while i < row.len()
                    invariant
                        i <= row@.len(),
                        slots@ == row@.subrange(0, i as int),
                    decreases row.len() - i,
                {
                    slots.push(row[i]);
                    i += 1;
                }
                proof {
                    assert(row@.subrange(0, row@.len() as int) =~= row@);
                    assert forall|slot: usize| slots@.contains(slot) == self.listed(
                        user@,
                        slot,
                    ) by {
                        self.lemma_row(k as int, slot);
                    }
                }
                slots
            },
            None => {
                let slots: Vec<usize> = Vec::new();
                proof {
                    assert forall|slot: usize| slots@.contains(slot) == self.listed(
                        user@,
                        slot,
                    ) by {
                        self.lemma_no_row(user@, slot);
                    }
                }
                slots
            },
        }
    }

    /// Forgets everything noted for `user`. What is noted of other users stays.
    pub fn drop_user(&mut self, user: &User)
        requires
            old(self).wf(),
        ensures
            final(self).wf(),
            forall|other: Seq<char>, at: usize|
                #![trigger final(self).listed(other, at)]
                #![trigger old(self).listed(other, at)]
                final(self).listed(other, at) == (other != user@ && old(self).listed(other, at)),
    {
        let ghost before = *self;
        match position(&self.users, user) {
            Some(k) => {
                self.users.remove(k);
                self.held.remove(k);
                proof {
                    let old_names = names(before.users@);
                    let new_names = names(self.users@);
                    assert(new_names =~= old_names.remove(k as int));
                    assert forall|other: Seq<char>, at: usize|
                        #![trigger self.listed(other, at)]
                        #![trigger before.listed(other, at)]
                        self.listed(other, at) == (other != user@ && before.listed(other, at)) by {
                        if self.listed(other, at) {
                            let j = choose|j: int|
                                #![trigger self.held@[j]]
                                0 <= j < self.users@.len() && self.users@[j]@ == other
                                    && self.held@[j]@.contains(at);
                            let a = if j < k { j } else { j + 1 };
                            assert(old_names[a] == other && old_names[k as int] == user@);
                        }
                        if other != user@ && before.listed(other, at) {
                            let a = choose|a: int|
                                #![trigger before.held@[a]]
                                0 <= a < before.users@.len() && before.users@[a]@ == other
                                    && before.held@[a]@.contains(at);
                            let j = if a < k { a } else { a - 1 };
                            assert(self.held@[j] == before.held@[a]);
                        }
                    }
                }
            },
            None => {
                proof {
                    assert forall|other: Seq<char>, at: usize|
                        #![trigger self.listed(other, at)]
                        #![trigger before.listed(other, at)]
                        self.listed(other, at) == (other != user@ && before.listed(other, at)) by {
                        if other == user@ {
                            self.lemma_no_row(user@, at);
                        }
                    }
                }
            },
        }
    }
}

} // verus!
