//! Cursors that drive the bounce state machine over a sequence.
use vstd::prelude::*;
use crate::walk::{BounceState, Walk, bounce_index, period, lemma_step, lemma_advanced};
use vstd::arithmetic::div_mod::lemma_small_mod;

verus! {

/// Bounce cursor over a buffer that the caller owns.
///
/// The cursor holds only the traversal state; each step borrows the buffer
/// mutably for as long as the slot it hands out is in use, so at most one
/// mutable view of the buffer exists at any time.
pub struct BounceCursor {
    len: usize,
    position: usize,
    state: BounceState,
}

impl View for BounceCursor {
    type V = Walk;

    closed spec fn view(&self) -> Walk {
        Walk { len: self.len as nat, position: self.position as nat, state: self.state }
    }
}

impl BounceCursor {
    /// A cursor over `len` slots that starts at the first one.
    pub fn new(len: usize) -> (c: Self)
        requires
            len > 0,
        ensures
            c@ == Walk::start(len as nat),
            c@.wf(),
    {
        BounceCursor { len, position: 0, state: BounceState::Forward }
    }

    /// A cursor over `len` slots that starts at the last one.
    pub fn new_rev(len: usize) -> (c: Self)
        requires
            len > 0,
        ensures
            c@ == Walk::start_rev(len as nat),
            c@.wf(),
    {
        BounceCursor { len, position: len - 1, state: BounceState::Forward }
    }

    /// Corrects at the boundaries, returns the slot to produce and advances.
    pub fn step(&mut self) -> (i: usize)
        requires
            old(self)@.wf(),
        ensures
            i == old(self)@.current(),
            i == old(self)@.produced(0),
            i < old(self)@.len,
            final(self)@ == old(self)@.stepped(),
            final(self)@.wf(),
    {
        proof {
            lemma_step(self@);
        }
        let len = self.len;
        if len > 1 {
            if self.position >= len {
                self.state = BounceState::Reverse;
                self.position = len - 2;
            }
            if self.position == 0 {
                self.state = BounceState::Forward;
            }
        } else {
            self.state = BounceState::NoBounce;
        }
        let i = self.position;
        match self.state {
            BounceState::Reverse => {
                self.position = i - 1;
            },
            BounceState::Forward => {
                self.position = i + 1;
            },
            BounceState::NoBounce => {},
        }
        i
    }

    /// Steps and hands out the produced slot of `buffer` for mutation.
    pub fn step_mut<'a, T>(&mut self, buffer: &'a mut Vec<T>) -> (slot: &'a mut T)
        requires
            old(self)@.wf(),
            old(self)@.len == old(buffer)@.len(),
        ensures
            final(self)@ == old(self)@.stepped(),
            final(self)@.wf(),
            *slot == old(buffer)@[old(self)@.current() as int],
            final(buffer)@ == old(buffer)@.update(old(self)@.current() as int, *final(slot)),
    {
        let i = self.step();
        &mut buffer[i]
    }
}

/// Bounce iterator that owns its sequence and hands out a clone of the
/// element at each step. Over shared cells (see `rwlockify`) the clones are
/// handles to the same cells, so elements can be changed between steps.
pub struct BounceIterLockedMut<T> {
    collection: Vec<T>,
    cursor: BounceCursor,
}

impl<T> BounceIterLockedMut<T> where T: Clone {
    /// The sequence being traversed.
    pub closed spec fn items(&self) -> Seq<T> {
        self.collection@
    }

    /// The traversal state.
    pub closed spec fn walk(&self) -> Walk {
        self.cursor@
    }

    /// The traversal state is reachable over the sequence it walks.
    pub open spec fn wf(&self) -> bool {
        &&& self.walk().wf()
        &&& self.walk().len == self.items().len()
    }

    /// Moves the traversal back to the first element; the direction is
    /// recomputed by the next step.
    pub fn reset(&mut self)
        requires
            old(self).wf(),
        ensures
            final(self).wf(),
            final(self).items() == old(self).items(),
            final(self).walk() == old(self).walk().rewound(),
    {
        self.cursor.position = 0;
    }

    /// Moves the traversal to the last element; the direction is recomputed
    /// by the next step.
    pub fn reset_rev(&mut self)
        requires
            old(self).wf(),
        ensures
            final(self).wf(),
            final(self).items() == old(self).items(),
            final(self).walk() == old(self).walk().rewound_rev(),
    {
        self.cursor.position = self.collection.len() - 1;
    }

    /// A traversal of a non-empty `collection` from its first element.
    pub fn new(collection: Vec<T>) -> (it: Self)
        requires
            collection@.len() > 0,
        ensures
            it.wf(),
            it.items() == collection@,
            it.walk() == Walk::start(collection@.len()),
    {
        let cursor = BounceCursor::new(collection.len());
        BounceIterLockedMut { collection, cursor }
    }

    /// A traversal of a non-empty `collection` from its last element.
    pub fn new_rev(collection: Vec<T>) -> (it: Self)
        requires
            collection@.len() > 0,
        ensures
            it.wf(),
            it.items() == collection@,
            it.walk() == Walk::start_rev(collection@.len()),
    {
        let cursor = BounceCursor::new_rev(collection.len());
        BounceIterLockedMut { collection, cursor }
    }

    /// Checked construction: `None` exactly when `collection` is empty, which
    /// no traversal can walk.
    pub fn try_new(collection: Vec<T>, reversed: bool) -> (r: Option<Self>)
        ensures
            r is None <==> collection@.len() == 0,
            r matches Some(it) ==> {
                &&& it.wf()
                &&& it.items() == collection@
                &&& it.walk() == if reversed {
                    Walk::start_rev(collection@.len())
                } else {
                    Walk::start(collection@.len())
                }
            },
    {
        if collection.len() == 0 {
            None
        } else if reversed {
            Some(Self::new_rev(collection))
        } else {
            Some(Self::new(collection))
        }
    }

    /// The element just before the current position in index order, or
    /// `None` at the first slot. Does not move the traversal.
    pub fn peek_before(&self) -> (r: Option<T>)
        requires
            self.wf(),
        ensures
            r is None <==> self.walk().position == 0,
            r matches Some(x) ==> cloned(self.items()[self.walk().position - 1], x),
    {
        if self.cursor.position == 0 {
            None
        } else {
            Some(self.collection[self.cursor.position - 1].clone())
        }
    }

    /// The element just after the current position in index order, or
    /// `None` past the last slot. Does not move the traversal.
    pub fn peek_after(&self) -> (r: Option<T>)
        requires
            self.wf(),
        ensures
            r is None <==> self.walk().position + 1 >= self.items().len(),
            r matches Some(x) ==> cloned(self.items()[self.walk().position + 1 as int], x),
    {
        if self.cursor.position >= self.collection.len() - 1 {
            None
        } else {
            Some(self.collection[self.cursor.position + 1].clone())
        }
    }

    /// Produces the element at the current slot and advances. Never `None`:
    /// the traversal does not end.
    pub fn next(&mut self) -> (r: Option<T>)
        requires
            old(self).wf(),
        ensures
            final(self).wf(),
            final(self).items() == old(self).items(),
            final(self).walk() == old(self).walk().stepped(),
            r matches Some(x) && cloned(old(self).items()[old(self).walk().current() as int], x),
    {
        let i = self.cursor.step();
        Some(self.collection[i].clone())
    }

    /// Produces the next `n` elements, in traversal order.
    pub fn pull(&mut self, n: usize) -> (out: Vec<T>)
        requires
            old(self).wf(),
        ensures
            final(self).wf(),
            final(self).items() == old(self).items(),
            final(self).walk() == old(self).walk().advanced(n as nat),
            out@.len() == n,
            forall|j: int|
                0 <= j < n ==> cloned(
                    old(self).items()[old(self).walk().produced(j as nat) as int],
                    #[trigger] out@[j],
                ),
    {
        let ghost w0 = self.walk();
        let mut out: Vec<T> = Vec::new();
        let mut k: usize = 0;
        while k < n
            invariant
                k <= n,
                self.wf(),
                self.items() == old(self).items(),
                self.walk() == w0.advanced(k as nat),
                w0.wf(),
                w0 == old(self).walk(),
                out@.len() == k,
                forall|j: int|
                    0 <= j < k ==> cloned(
                        self.items()[w0.produced(j as nat) as int],
                        #[trigger] out@[j],
                    ),
            decreases n - k,
        {
            proof {
                lemma_advanced(w0, k as nat, 0);
            }
            let i = self.cursor.step();
            out.push(self.collection[i].clone());
            k = k + 1;
        }
        out
    }
}

/// Rewinding replays a fresh traversal: after `reset`, the `j`-th step
/// produces the same slot as the `j`-th step of a newly built forward cursor
/// over the same sequence, and the first `len` steps produce the slots
/// `0, 1, .., len - 1` in order.
pub proof fn lemma_reset_replays_fresh(w: Walk, j: nat)
    requires
        w.wf(),
    ensures
        w.rewound().wf(),
        w.rewound().produced(j) == Walk::start(w.len).produced(j),
        j < w.len ==> w.rewound().produced(j) == j,
{
    if w.len > 1 && j < w.len {
        lemma_small_mod(j, period(w.len));
        assert(bounce_index(w.len, j) == j);
    }
}

/// Looking ahead agrees with stepping: moving forward from position `p`
/// with `p + 1` inside the sequence, the first step produces slot `p` and the
/// second produces slot `p + 1`, the slot that `peek_after` reads.
pub proof fn lemma_peek_after_second_step(w: Walk)
    requires
        w.wf(),
        w.state == BounceState::Forward,
        w.position + 1 < w.len,
    ensures
        w.current() == w.position,
        w.stepped().current() == w.position + 1,
{
}

} // verus!
