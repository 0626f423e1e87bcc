//! A fixed-length window of joystick samples, overwritten oldest first, and
//! the mean that the firmware reports from it.
use vstd::prelude::*;

use crate::arith::{
    constant_seq, lemma_div_trunc_fits, lemma_sum_concat, lemma_sum_take_step,
    lemma_trunc_mean_constant, lemma_trunc_mean_permutation, sum_of, trunc_mean,
};

verus! {

/// Number of samples the moving average is taken over.
pub const SAMPLE_LENGTH: usize = 512;

/// The samples that a window holds after `vs` were pushed, in order, into a
/// window that held `held`: each push drops the oldest sample and appends the
/// new one.
pub open spec fn after_pushes(held: Seq<i16>, vs: Seq<i16>) -> Seq<i16>
    decreases vs.len(),
{
    if vs.len() == 0 {
        held
    } else {
        after_pushes(held, vs.drop_last()).drop_first().push(vs.last())
    }
}

/// A ring buffer of `SAMPLE_LENGTH` samples. `oldest` is the slot that the
/// next sample overwrites, which holds the oldest sample.
#[derive(Clone, Copy)]
pub struct SampleWindow {
    samples: [i16; SAMPLE_LENGTH],
    oldest: usize,
}

impl View for SampleWindow {
    type V = Seq<i16>;

    /// The samples held, oldest first.
    closed spec fn view(&self) -> Seq<i16> {
        self.samples@.subrange(self.oldest as int, self.samples@.len() as int)
            + self.samples@.subrange(0, self.oldest as int)
    }
}

impl SampleWindow {
    /// A well-formed window holds `SAMPLE_LENGTH` samples and its cursor
    /// points at one of them.
    pub proof fn lemma_shape(&self)
        requires
            self.well_formed(),
        ensures
            self@.len() == SAMPLE_LENGTH,
            self.cursor() < SAMPLE_LENGTH,
    {
    }

    /// The buffer has `SAMPLE_LENGTH` slots and the cursor points at one.
    pub closed spec fn well_formed(&self) -> bool {
        &&& self.samples@.len() == SAMPLE_LENGTH
        &&& self.oldest < SAMPLE_LENGTH
    }

    /// The slot that the next sample overwrites.
    pub closed spec fn cursor(&self) -> nat {
        self.oldest as nat
    }

    /// A window of zero samples, whose next sample goes to the first slot.
    pub fn new() -> (w: Self)
        ensures
            w.well_formed(),
            w@ == constant_seq(0, SAMPLE_LENGTH as nat),
            w.cursor() == 0,
    {
        let samples: [i16; SAMPLE_LENGTH] = [0i16; SAMPLE_LENGTH];
        let w = SampleWindow { samples, oldest: 0 };
        assert(w@ =~= constant_seq(0, SAMPLE_LENGTH as nat));
        w
    }

    /// Overwrites the oldest sample with `v` and moves on to the next slot.
    /// Returns whether the cursor wrapped round to the first slot, which
    /// happens once every `SAMPLE_LENGTH` samples.
    pub fn push(&mut self, v: i16) -> (wrapped: bool)
        requires
            old(self).well_formed(),
        ensures
            final(self).well_formed(),
            final(self)@ == old(self)@.drop_first().push(v),
            final(self).cursor() == (old(self).cursor() + 1) % (SAMPLE_LENGTH as nat),
            wrapped == (final(self).cursor() == 0),
    {
        let ghost before = self@;
        let ghost s = self.samples@;
        let o = self.oldest;
        self.samples[o] = v;
        let next = if o + 1 == SAMPLE_LENGTH {
            0
        } else {
            o + 1
        };
        self.oldest = next;
        proof {
            assert(self.samples@ == s.update(o as int, v));
            assert(self@ =~= before.drop_first().push(v));
        }
        next == 0
    }

    /// The slot that the next sample overwrites.
    pub fn position(&self) -> (p: usize)
        requires
            self.well_formed(),
        ensures
            p == self.cursor(),
            p < SAMPLE_LENGTH,
    {
        self.oldest
    }

    /// The samples held, oldest first.
    pub fn to_vec(&self) -> (v: Vec<i16>)
        requires
            self.well_formed(),
        ensures
            v@ == self@,
    {
        let mut v: Vec<i16> = Vec::new();
        let mut i: usize = self.oldest;
        while i < SAMPLE_LENGTH
            invariant
                self.well_formed(),
                self.oldest <= i <= SAMPLE_LENGTH,
                v@ == self.samples@.subrange(self.oldest as int, i as int),
            decreases SAMPLE_LENGTH - i,
        {
            v.push(self.samples[i]);
            i = i + 1;
            assert(v@ =~= self.samples@.subrange(self.oldest as int, i as int));
        }
        let mut j: usize = 0;
        while j < self.oldest
            invariant
                self.well_formed(),
                j <= self.oldest,
                v@ == self.samples@.subrange(self.oldest as int, SAMPLE_LENGTH as int)
                    + self.samples@.subrange(0, j as int),
            decreases self.oldest - j,
        {
            v.push(self.samples[j]);
            j = j + 1;
            assert(v@ =~= self.samples@.subrange(self.oldest as int, SAMPLE_LENGTH as int)
                + self.samples@.subrange(0, j as int));
        }
        v
    }

    /// The mean of the samples held, rounded toward zero.
    pub fn average(&self) -> (avg: i16)
        requires
            self.well_formed(),
        ensures
            avg == trunc_mean(self@),
    {
        let ghost s = self.samples@;
        let mut total: i64 = 0;
        let mut i: usize = 0;
        while i < SAMPLE_LENGTH
            invariant
                i <= SAMPLE_LENGTH,
                s == self.samples@,
                s.len() == SAMPLE_LENGTH,
                total == sum_of(s.take(i as int)),
                -32768 * i <= total <= 32767 * i,
            decreases SAMPLE_LENGTH - i,
        {
            proof {
                lemma_sum_take_step(s, i as int);
            }
            total = total + self.samples[i] as i64;
            i = i + 1;
        }
        proof {
            assert(s.take(SAMPLE_LENGTH as int) =~= s);
            let o = self.oldest as int;
            let front = s.subrange(0, o);
            let back = s.subrange(o, s.len() as int);
            assert(front + back =~= s);
            lemma_sum_concat(front, back);
            lemma_sum_concat(back, front);
            assert(self@.len() == SAMPLE_LENGTH);
            lemma_div_trunc_fits(total as int, SAMPLE_LENGTH as int);
        }
        let q = total / (SAMPLE_LENGTH as i64);
        q as i16
    }
}

/// The window always holds the last `SAMPLE_LENGTH` samples pushed: pushing
/// `vs` into a window holding `held` leaves the last `SAMPLE_LENGTH` values of
/// `held` followed by `vs`.
pub proof fn lemma_window_keeps_latest(held: Seq<i16>, vs: Seq<i16>)
    requires
        held.len() == SAMPLE_LENGTH,
    ensures
        after_pushes(held, vs) == (held + vs).subrange(
            vs.len() as int,
            vs.len() + SAMPLE_LENGTH,
        ),
    decreases vs.len(),
{
    if vs.len() > 0 {
        lemma_window_keeps_latest(held, vs.drop_last());
        assert(held + vs.drop_last() =~= (held + vs).drop_last());
        assert(after_pushes(held, vs) =~= (held + vs).subrange(
            vs.len() as int,
            vs.len() + SAMPLE_LENGTH,
        ));
    } else {
        assert((held + vs).subrange(0, SAMPLE_LENGTH as int) =~= held);
    }
}

/// After a full cycle of `SAMPLE_LENGTH` pushes the window holds exactly the
/// samples pushed, whatever it held before.
pub proof fn lemma_full_cycle_replaces_all(held: Seq<i16>, vs: Seq<i16>)
    requires
        held.len() == SAMPLE_LENGTH,
        vs.len() == SAMPLE_LENGTH,
    ensures
        after_pushes(held, vs) == vs,
{
    lemma_window_keeps_latest(held, vs);
    assert((held + vs).subrange(vs.len() as int, vs.len() + SAMPLE_LENGTH) =~= vs);
}

/// A window fed `SAMPLE_LENGTH` copies of the same sample averages to that
/// sample.
pub proof fn lemma_steady_input_average(held: Seq<i16>, c: i16)
    requires
        held.len() == SAMPLE_LENGTH,
    ensures
        trunc_mean(after_pushes(held, constant_seq(c, SAMPLE_LENGTH as nat))) == c,
{
    lemma_full_cycle_replaces_all(held, constant_seq(c, SAMPLE_LENGTH as nat));
    lemma_trunc_mean_constant(c, SAMPLE_LENGTH as nat);
}

/// The average depends only on which samples a window holds, each how often:
/// not on their order nor on where the cursor stands.
pub proof fn lemma_average_ignores_order(a: SampleWindow, b: SampleWindow)
    requires
        a.well_formed(),
        b.well_formed(),
        a@.to_multiset() == b@.to_multiset(),
    ensures
        trunc_mean(a@) == trunc_mean(b@),
{
    lemma_trunc_mean_permutation(a@, b@);
}

/// Of any `SAMPLE_LENGTH` consecutive pushes, exactly one wraps the cursor:
/// starting from cursor `c`, the `j`-th push wraps it exactly when `j`
/// brings it round to the first slot.
pub proof fn lemma_one_wrap_per_cycle(c: nat, j: nat)
    requires
        c < SAMPLE_LENGTH,
        1 <= j <= SAMPLE_LENGTH,
    ensures
        ((c + j) % (SAMPLE_LENGTH as nat) == 0) <==> (j == SAMPLE_LENGTH - c),
{
}

} // verus!
