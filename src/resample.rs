//! Sample-and-hold sample-rate conversion over a flat sample sequence.

use vstd::prelude::*;

verus! {

/// Length of a sequence of `n` samples taken from rate `from` to rate `to`:
/// `floor(n * to / from)`.
pub open spec fn resampled_len(n: nat, from: nat, to: nat) -> nat {
    (n * to / from) as nat
}

/// Index of the source sample that output index `i` holds:
/// `floor(i / (to / from)) == floor(i * from / to)`.
pub open spec fn source_index(i: nat, from: nat, to: nat) -> nat {
    (i * from / to) as nat
}

/// The resampled sequence: unchanged when the rates agree, otherwise
/// each output index repeats or skips source samples.
pub open spec fn resample_spec<T>(s: Seq<T>, from: nat, to: nat) -> Seq<T> {
    if from == to {
        s
    } else {
        Seq::new(resampled_len(s.len(), from, to), |i: int| s[source_index(i as nat, from, to) as int])
    }
}

proof fn lemma_source_in_bounds(i: nat, n: nat, from: nat, to: nat)
    requires
        from > 0,
        to > 0,
        i < resampled_len(n, from, to),
    ensures
        source_index(i, from, to) < n,
{
    let q = n * to / from;
    assert(q * from <= n * to) by (nonlinear_arith)
        requires q == n * to / from, from > 0;
    assert(i * from < n * to) by (nonlinear_arith)
        requires i < q, q * from <= n * to, from > 0;
    let j = i * from / to;
    assert(j * to <= i * from) by (nonlinear_arith)
        requires j == i * from / to, to > 0;
    assert(j < n) by (nonlinear_arith)
        requires j * to <= i * from, i * from < n * to, to > 0;
}

/// A copy of `samples`, element for element.
pub fn copy_samples<T: Copy>(samples: &Vec<T>) -> (r: Vec<T>)
    ensures
        r@ == samples@,
{
    let mut r: Vec<T> = Vec::with_capacity(samples.len());
    let mut i: usize = 0;
    while i < samples.len()
        invariant
            i <= samples@.len(),
            r@ == samples@.subrange(0, i as int),
        decreases samples@.len() - i,
    {
        r.push(samples[i]);
        i = i + 1;
        assert(r@ =~= samples@.subrange(0, i as int));
    }
    assert(samples@.subrange(0, i as int) =~= samples@);
    r
}

/// Converts `samples` from `from_rate` to `to_rate` by sample-and-hold:
/// output index `i` holds source sample `floor(i * from_rate / to_rate)`,
/// and the output has `floor(len * to_rate / from_rate)` samples.
pub fn resample<T: Copy>(samples: &Vec<T>, from_rate: u32, to_rate: u32) -> (r: Vec<T>)
    requires
        from_rate > 0,
        resampled_len(samples@.len(), from_rate as nat, to_rate as nat) <= usize::MAX,
    ensures
        r@ == resample_spec(samples@, from_rate as nat, to_rate as nat),
        r@.len() == resampled_len(samples@.len(), from_rate as nat, to_rate as nat),
{
    if from_rate == to_rate {
        let r = copy_samples(samples);
        proof {
            assert(samples@.len() * (to_rate as nat) / (from_rate as nat) == samples@.len()) by (nonlinear_arith)
                requires from_rate == to_rate, from_rate > 0;
        }
        return r;
    }
    let len: usize = samples.len();
    let n: u128 = len as u128;
    let from: u128 = from_rate as u128;
    let to: u128 = to_rate as u128;
    assert(n * to <= 0xffff_ffff_ffff_ffffu128 * 0xffff_ffffu128) by (nonlinear_arith)
        requires n <= 0xffff_ffff_ffff_ffffu128, to <= 0xffff_ffffu128;
    let total: u128 = n * to / from;
    assert(to == 0 ==> total == 0) by (nonlinear_arith)
        requires total as int == (n as int) * (to as int) / (from as int), from > 0;
    let new_len: usize = total as usize;
    let ghost spec_r = resample_spec(samples@, from_rate as nat, to_rate as nat);
    let mut r: Vec<T> = Vec::with_capacity(new_len);
    let mut i: usize = 0;
    while i < new_len
        invariant
            from_rate > 0,
            from_rate != to_rate,
            from == from_rate,
            to == to_rate,
            len == samples@.len(),
            n == len,
            new_len == resampled_len(samples@.len(), from_rate as nat, to_rate as nat),
            spec_r == resample_spec(samples@, from_rate as nat, to_rate as nat),
            new_len > 0 ==> to_rate > 0,
            i <= new_len,
            r@.len() == i,
            forall|j: int| 0 <= j < i ==> r@[j] == spec_r[j],
        decreases new_len - i,
    {
        proof {
            lemma_source_in_bounds(i as nat, samples@.len(), from_rate as nat, to_rate as nat);
        }
        assert((i as u128) * from <= 0xffff_ffff_ffff_ffffu128 * 0xffff_ffffu128) by (nonlinear_arith)
            requires i <= 0xffff_ffff_ffff_ffffu128, from <= 0xffff_ffffu128;
        let prod: u128 = (i as u128) * from;
        assert(prod as nat == (i as nat) * (from_rate as nat));
        let q: u128 = prod / to;
        assert(q as nat == source_index(i as nat, from_rate as nat, to_rate as nat));
        assert(q < n);
        assert(q < usize::MAX);
        let src: usize = q as usize;
        assert(spec_r[i as int] == samples@[source_index(i as nat, from_rate as nat, to_rate as nat) as int]);
        r.push(samples[src]);
        i = i + 1;
    }
    assert(r@ =~= spec_r);
    r
}

/// Resampling between equal rates gives back the same samples.
pub proof fn lemma_resample_identity<T>(s: Seq<T>, rate: nat)
    ensures
        resample_spec(s, rate, rate) == s,
{
}

/// The resampled sequence has exactly `floor(len * to / from)` samples.
pub proof fn lemma_resample_len<T>(s: Seq<T>, from: nat, to: nat)
    requires
        from > 0,
    ensures
        resample_spec(s, from, to).len() == resampled_len(s.len(), from, to),
{
    if from == to {
        assert(s.len() * to / from == s.len()) by (nonlinear_arith)
            requires from == to, from > 0;
    }
}

} // verus!
