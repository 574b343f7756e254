//! The bounce direction state machine and its closed form.
use vstd::prelude::*;
use vstd::arithmetic::div_mod::{
    lemma_add_mod_noop, lemma_mod_add_multiples_vanish, lemma_mod_bound, lemma_mod_self_0,
    lemma_mod_sub_multiples_vanish, lemma_mod_twice, lemma_small_mod,
};

verus! {

/// Direction in which a bounce traversal currently moves.
#[derive(Clone, Copy, Debug, PartialEq, Eq, Structural, Default)]
pub enum BounceState {
    Reverse,
    #[default]
    Forward,
    /// A sequence of one slot never moves.
    NoBounce,
}

/// Abstract traversal state over `len` slots: the slot to be produced next
/// (before boundary correction) and the current direction.
pub struct Walk {
    pub len: nat,
    pub position: nat,
    pub state: BounceState,
}

/// Length of one full back-and-forth sweep (1 for a single slot).
pub open spec fn period(len: nat) -> nat {
    if len <= 1 {
        1
    } else {
        2 * (len - 1) as nat
    }
}

/// Slot visited at step `k` of a traversal that starts at slot 0: a triangle
/// wave `0, 1, .., len - 1, len - 2, .., 1, 0, 1, ..`.
pub open spec fn bounce_index(len: nat, k: nat) -> nat {
    if len <= 1 {
        0
    } else {
        let r = k % period(len);
        if r < len {
            r
        } else {
            (period(len) - r) as nat
        }
    }
}

impl Walk {
    /// States that a traversal can reach over a non-empty sequence.
    pub open spec fn wf(self) -> bool {
        &&& self.len >= 1
        &&& self.position <= self.len
        &&& self.len == 1 ==> self.position == 0
        &&& self.len > 1 ==> self.state != BounceState::NoBounce
    }

    /// A fresh traversal from the first slot.
    pub open spec fn start(len: nat) -> Walk {
        Walk { len, position: 0, state: BounceState::Forward }
    }

    /// A fresh traversal from the last slot.
    pub open spec fn start_rev(len: nat) -> Walk {
        Walk { len, position: (len - 1) as nat, state: BounceState::Forward }
    }

    /// The same traversal moved back to the first slot, direction kept.
    pub open spec fn rewound(self) -> Walk {
        Walk { position: 0, ..self }
    }

    /// The same traversal moved to the last slot, direction kept.
    pub open spec fn rewound_rev(self) -> Walk {
        Walk { position: (self.len - 1) as nat, ..self }
    }

    /// Boundary correction, run before every production: the slot that is
    /// produced and the direction that then applies.
    pub open spec fn corrected(self) -> (nat, BounceState) {
        if self.len <= 1 {
            (self.position, BounceState::NoBounce)
        } else {
            let (p, d) = if self.position >= self.len {
                ((self.len - 2) as nat, BounceState::Reverse)
            } else {
                (self.position, self.state)
            };
            if p == 0 {
                (p, BounceState::Forward)
            } else {
                (p, d)
            }
        }
    }

    /// The slot that the next step produces.
    pub open spec fn current(self) -> nat {
        self.corrected().0
    }

    /// The state after one step: correct, produce, then advance.
    pub open spec fn stepped(self) -> Walk {
        let (p, d) = self.corrected();
        Walk {
            len: self.len,
            position: match d {
                BounceState::Forward => p + 1,
                BounceState::Reverse => (p - 1) as nat,
                BounceState::NoBounce => p,
            },
            state: d,
        }
    }

    /// The state after `n` steps.
    pub open spec fn advanced(self, n: nat) -> Walk
        decreases n,
    {
        if n == 0 {
            self
        } else {
            self.advanced((n - 1) as nat).stepped()
        }
    }

    /// Where this state stands within one sweep of `bounce_index`.
    pub open spec fn phase(self) -> nat {
        if self.len <= 1 {
            0
        } else if self.position >= self.len {
            self.len % period(self.len)
        } else if self.position == 0 {
            0
        } else if self.state == BounceState::Reverse {
            (period(self.len) - self.position) as nat
        } else {
            self.position
        }
    }

    /// The slot produced by the `j`-th step from this state (the first is `j == 0`).
    pub open spec fn produced(self, j: nat) -> nat {
        bounce_index(self.len, self.phase() + j)
    }
}

/// `bounce_index` depends on the step only modulo the period.
proof fn lemma_bounce_index_mod(len: nat, k: nat)
    ensures
        bounce_index(len, k) == bounce_index(len, k % period(len)),
{
    lemma_mod_twice(k as int, period(len) as int);
}

/// One step produces the slot that the closed form gives for the current
/// phase, and moves the phase on by one.
pub proof fn lemma_step(w: Walk)
    requires
        w.wf(),
    ensures
        w.stepped().wf(),
        w.current() < w.len,
        w.current() == w.produced(0),
        w.phase() < period(w.len),
        w.stepped().phase() == ((w.phase() + 1) as nat) % period(w.len),
{
    let p = period(w.len);
    if w.len <= 1 {
        lemma_mod_self_0(1);
    } else {
        if w.len == 2 {
            lemma_mod_self_0(2);
        } else {
            lemma_small_mod(w.len, p);
        }
        let ph = w.phase();
        assert(ph < p);
        lemma_small_mod(ph, p);
        if ph + 1 < p {
            lemma_small_mod((ph + 1) as nat, p);
        } else {
            lemma_mod_self_0(p as int);
        }
    }
}

/// Successive steps walk the closed form: the state after one step produces,
/// at its `j`-th step, what this state produces at its `j + 1`-th.
pub proof fn lemma_step_produced(w: Walk, j: nat)
    requires
        w.wf(),
    ensures
        w.stepped().produced(j) == w.produced(j + 1),
{
    let p = period(w.len) as int;
    lemma_step(w);
    let a = w.phase() as int + 1;
    lemma_bounce_index_mod(w.len, w.stepped().phase() + j);
    lemma_bounce_index_mod(w.len, (a + j) as nat);
    assert(w.produced(j + 1) == bounce_index(w.len, (a + j) as nat));
    lemma_add_mod_noop(a, j as int, p);
    lemma_add_mod_noop(a % p, j as int, p);
    lemma_mod_twice(a, p);
}

/// After `n` steps a traversal is still well formed and goes on where the
/// closed form says.
pub proof fn lemma_advanced(w: Walk, n: nat, j: nat)
    requires
        w.wf(),
    ensures
        w.advanced(n).wf(),
        w.advanced(n).produced(j) == w.produced(n + j),
    decreases n,
{
    if n > 0 {
        let m = (n - 1) as nat;
        lemma_advanced(w, m, j + 1);
        lemma_step(w.advanced(m));
        lemma_step_produced(w.advanced(m), j);
    }
}

/// A traversal started at slot 0 visits the slots of the triangle wave in
/// order: it repeats with period `2 * (len - 1)` when `len > 1`, and stays on
/// slot 0 when `len == 1`.
pub proof fn lemma_bounce_periodic(len: nat, k: nat)
    requires
        len >= 1,
    ensures
        Walk::start(len).produced(k) == bounce_index(len, k),
        len > 1 ==> bounce_index(len, (k + 2 * (len - 1)) as nat) == bounce_index(len, k),
        len == 1 ==> bounce_index(len, k) == 0,
{
    if len > 1 {
        lemma_mod_add_multiples_vanish(k as int, period(len) as int);
    }
}

/// Half a sweep after any step the traversal stands at the mirror slot:
/// `bounce_index(len, k + len - 1) == len - 1 - bounce_index(len, k)`. So the
/// two differ unless step `k` is at the middle slot of an odd-length sequence.
pub proof fn lemma_bounce_half_period(len: nat, k: nat)
    requires
        len > 1,
    ensures
        bounce_index(len, (k + len - 1) as nat) == (len - 1) - bounce_index(len, k),
        2 * bounce_index(len, k) != len - 1 ==> bounce_index(len, (k + len - 1) as nat) != bounce_index(len, k),
{
    let p = period(len) as int;
    let c = len - 1;
    let r = k as int % p;
    lemma_mod_bound(k as int, p);
    lemma_small_mod(c as nat, p as nat);
    lemma_add_mod_noop(k as int, c, p);
    let s = r + c;
    if s < p {
        lemma_small_mod(s as nat, p as nat);
    } else {
        lemma_mod_sub_multiples_vanish(s, p);
        lemma_small_mod((s - p) as nat, p as nat);
    }
}

} // verus!
