//! Sums of sample sequences and integer division as the hardware does it.
use vstd::prelude::*;
use vstd::arithmetic::div_mod::{lemma_fundamental_div_mod, lemma_fundamental_div_mod_converse};

verus! {

/// The sum of a sequence of samples.
pub open spec fn sum_of(s: Seq<i16>) -> int
    decreases s.len(),
{
    if s.len() == 0 {
        0
    } else {
        sum_of(s.drop_last()) + s.last()
    }
}

/// Integer division rounded toward zero, as Rust's `/` on signed integers.
pub open spec fn div_trunc(a: int, d: int) -> int {
    if a >= 0 {
        a / d
    } else {
        -((-a) / d)
    }
}

/// The mean of a sequence of samples, rounded toward zero.
pub open spec fn trunc_mean(s: Seq<i16>) -> int {
    div_trunc(sum_of(s), s.len() as int)
}

/// A sequence of `n` copies of `c`.
pub open spec fn constant_seq(c: i16, n: nat) -> Seq<i16> {
    Seq::new(n, |i: int| c)
}

/// The sum of a concatenation is the sum of the parts.
pub proof fn lemma_sum_concat(a: Seq<i16>, b: Seq<i16>)
    ensures
        sum_of(a + b) == sum_of(a) + sum_of(b),
    decreases b.len(),
{
    if b.len() == 0 {
        assert(a + b =~= a);
    } else {
        lemma_sum_concat(a, b.drop_last());
        assert((a + b).drop_last() =~= a + b.drop_last());
    }
}

/// Removing the sample at `i` takes it out of the sum.
pub proof fn lemma_sum_remove(s: Seq<i16>, i: int)
    requires
        0 <= i < s.len(),
    ensures
        sum_of(s) == sum_of(s.remove(i)) + s[i],
{
    let front = s.subrange(0, i);
    let back = s.subrange(i + 1, s.len() as int);
    assert(s =~= front + (seq![s[i]] + back));
    assert(s.remove(i) =~= front + back);
    lemma_sum_concat(front, seq![s[i]] + back);
    lemma_sum_concat(seq![s[i]], back);
    lemma_sum_concat(front, back);
    let single = seq![s[i]];
    assert(single.len() == 1);
    assert(single.drop_last() =~= Seq::<i16>::empty());
    assert(sum_of(single.drop_last()) == 0);
    assert(single.last() == s[i]);
    assert(sum_of(single) == s[i]);
}

/// The sum does not depend on the order of the samples: two sequences that
/// hold the same samples, each as often, have the same sum.
pub proof fn lemma_sum_permutation(s1: Seq<i16>, s2: Seq<i16>)
    requires
        s1.to_multiset() == s2.to_multiset(),
    ensures
        sum_of(s1) == sum_of(s2),
    decreases s1.len(),
{
    broadcast use vstd::seq_lib::group_to_multiset_ensures;

    vstd::seq_lib::to_multiset_len(s1);
    vstd::seq_lib::to_multiset_len(s2);
    if s1.len() == 0 {
        assert(s2.len() == 0);
    } else {
        let k = s1.len() - 1;
        let x = s1[k];
        assert(s1.contains(x));
        assert(s2.to_multiset().count(x) > 0);
        assert(s2.contains(x));
        let i = choose|i: int| 0 <= i < s2.len() && s2[i] == x;
        assert(s1.remove(k) =~= s1.drop_last());
        assert(s1.remove(k).to_multiset() == s1.to_multiset().remove(x));
        assert(s2.remove(i).to_multiset() == s2.to_multiset().remove(x));
        lemma_sum_permutation(s1.drop_last(), s2.remove(i));
        lemma_sum_remove(s2, i);
    }
}

/// The rounded mean does not depend on the order of the samples either.
pub proof fn lemma_trunc_mean_permutation(s1: Seq<i16>, s2: Seq<i16>)
    requires
        s1.to_multiset() == s2.to_multiset(),
    ensures
        trunc_mean(s1) == trunc_mean(s2),
{
    broadcast use vstd::seq_lib::group_to_multiset_ensures;

    lemma_sum_permutation(s1, s2);
    vstd::seq_lib::to_multiset_len(s1);
    vstd::seq_lib::to_multiset_len(s2);
}

/// A sum of `n` samples lies between `n` times the least and `n` times the
/// greatest `i16`.
pub proof fn lemma_sum_bounds(s: Seq<i16>)
    ensures
        -32768 * s.len() <= sum_of(s) <= 32767 * s.len(),
    decreases s.len(),
{
    if s.len() > 0 {
        lemma_sum_bounds(s.drop_last());
    }
}

/// The sum of `n` copies of `c` is `n * c`.
pub proof fn lemma_sum_constant(c: i16, n: nat)
    ensures
        sum_of(constant_seq(c, n)) == n as int * c as int,
    decreases n,
{
    if n > 0 {
        let m: int = n - 1;
        let ci: int = c as int;
        lemma_sum_constant(c, m as nat);
        assert(constant_seq(c, n).drop_last() =~= constant_seq(c, m as nat));
        assert(constant_seq(c, n).last() == c);
        assert((m + 1) * ci == m * ci + ci) by (nonlinear_arith);
        assert(sum_of(constant_seq(c, n)) == sum_of(constant_seq(c, m as nat)) + ci);
        assert(m + 1 == n);
    } else {
        assert(constant_seq(c, n).len() == 0);
        assert(sum_of(constant_seq(c, n)) == 0);
    }
}

/// Summing the first `i + 1` samples adds the sample at `i` to the sum of
/// the first `i`.
pub proof fn lemma_sum_take_step(s: Seq<i16>, i: int)
    requires
        0 <= i < s.len(),
    ensures
        sum_of(s.take(i + 1)) == sum_of(s.take(i)) + s[i],
{
    assert(s.take(i + 1).drop_last() =~= s.take(i));
}

/// Rounding toward zero the quotient of a sum of `n` samples by `n` gives a
/// value that fits an `i16`.
pub proof fn lemma_div_trunc_fits(a: int, n: int)
    requires
        n > 0,
        -32768 * n <= a <= 32767 * n,
    ensures
        -32768 <= div_trunc(a, n) <= 32767,
{
    if a >= 0 {
        assert(a / n <= 32767) by (nonlinear_arith)
            requires
                0 <= a <= 32767 * n,
                n > 0,
        ;
        assert(a / n >= 0) by (nonlinear_arith)
            requires
                0 <= a,
                n > 0,
        ;
    } else {
        assert((-a) / n <= 32768) by (nonlinear_arith)
            requires
                0 < -a <= 32768 * n,
                n > 0,
        ;
        assert((-a) / n >= 0) by (nonlinear_arith)
            requires
                0 < -a,
                n > 0,
        ;
    }
}

/// Dividing `n * c` by `n` gives back `c`.
pub proof fn lemma_div_trunc_exact(c: int, n: int)
    requires
        n > 0,
    ensures
        div_trunc(n * c, n) == c,
{
    if c >= 0 {
        assert(n * c >= 0) by (nonlinear_arith)
            requires
                n > 0,
                c >= 0,
        ;
        assert((n * c) / n == c) by (nonlinear_arith)
            requires
                n > 0,
        ;
    } else {
        assert(n * c < 0 && -(n * c) == n * (-c)) by (nonlinear_arith)
            requires
                n > 0,
                c < 0,
        ;
        assert((n * (-c)) / n == -c) by (nonlinear_arith)
            requires
                n > 0,
        ;
    }
}

/// The mean of `n` copies of `c` is `c`.
pub proof fn lemma_trunc_mean_constant(c: i16, n: nat)
    requires
        n > 0,
    ensures
        trunc_mean(constant_seq(c, n)) == c,
{
    lemma_sum_constant(c, n);
    lemma_div_trunc_exact(c as int, n as int);
}

/// Every sample of `s` moved by `d`.
pub open spec fn shifted(s: Seq<i16>, d: int) -> Seq<i16> {
    Seq::new(s.len(), |i: int| (s[i] + d) as i16)
}

/// Moving every sample of `s` by `d` keeps it within the range of an `i16`.
pub open spec fn shift_fits(s: Seq<i16>, d: int) -> bool {
    forall|i: int| 0 <= i < s.len() ==> i16::MIN <= #[trigger] s[i] + d <= i16::MAX
}

/// Moving every sample by `d` moves the sum by `d` per sample.
pub proof fn lemma_sum_shifted(s: Seq<i16>, d: int)
    requires
        shift_fits(s, d),
    ensures
        sum_of(shifted(s, d)) == sum_of(s) + s.len() * d,
    decreases s.len(),
{
    if s.len() == 0 {
        assert(shifted(s, d).len() == 0);
    } else {
        let k = s.len() - 1;
        assert(shift_fits(s.drop_last(), d)) by {
            assert forall|i: int| 0 <= i < s.drop_last().len() implies i16::MIN <= #[trigger] s.drop_last()[i] + d <= i16::MAX by {
                assert(s.drop_last()[i] == s[i]);
            }
        }
        lemma_sum_shifted(s.drop_last(), d);
        assert(shifted(s, d).drop_last() =~= shifted(s.drop_last(), d));
        assert(i16::MIN <= s[k] + d <= i16::MAX);
        assert(shifted(s, d).last() == s[k] + d);
        assert((k + 1) * d == k * d + d) by (nonlinear_arith);
    }
}

/// Adding `n * d` to a dividend that stays on the same side of zero adds `d`
/// to its quotient by `n`, rounded toward zero.
pub proof fn lemma_div_trunc_add_multiple(a: int, n: int, d: int)
    requires
        n > 0,
        (a >= 0 && a + n * d >= 0) || (a <= 0 && a + n * d <= 0),
    ensures
        div_trunc(a + n * d, n) == div_trunc(a, n) + d,
{
    if a >= 0 && a + n * d >= 0 {
        lemma_fundamental_div_mod(a, n);
        let q = a / n;
        let r = a % n;
        assert(a + n * d == (q + d) * n + r) by (nonlinear_arith)
            requires
                a == n * q + r,
        ;
        lemma_fundamental_div_mod_converse(a + n * d, n, q + d, r);
        if a == 0 {
            assert(0int / n == 0);
        }
    } else {
        let b = -a;
        lemma_fundamental_div_mod(b, n);
        let q = b / n;
        let r = b % n;
        assert(-(a + n * d) == (q - d) * n + r) by (nonlinear_arith)
            requires
                b == n * q + r,
                b == -a,
        ;
        lemma_fundamental_div_mod_converse(-(a + n * d), n, q - d, r);
        if a + n * d == 0 {
            assert(0int / n == 0);
        }
    }
}

/// Moving every sample by `d` moves the rounded mean by `d`, provided the sum
/// stays on the same side of zero.
pub proof fn lemma_trunc_mean_shifted(s: Seq<i16>, d: int)
    requires
        s.len() > 0,
        shift_fits(s, d),
        (sum_of(s) >= 0 && sum_of(s) + s.len() * d >= 0) || (sum_of(s) <= 0 && sum_of(s)
            + s.len() * d <= 0),
    ensures
        trunc_mean(shifted(s, d)) == trunc_mean(s) + d,
{
    lemma_sum_shifted(s, d);
    lemma_div_trunc_add_multiple(sum_of(s), s.len() as int, d);
}

} // verus!
