//! The cyclic batch sampler: a fixed pool of samples is expanded to the
//! least common multiple of the pool length and the batch size, so that a
//! whole number of equal-size batches exhausts the expanded pool and every
//! pool entry is replicated the same number of times. Draws walk the
//! expanded pool batch by batch; a looping sampler wraps around instead of
//! ending.

use vstd::prelude::*;
use vstd::arithmetic::div_mod::*;
use vstd::pervasive::cloned;
use vstd::slice::slice_subrange;
use crate::math::{is_lcm, lcm_usize, index_hits, lemma_lcm_bounds, lemma_index_hits_exact};

verus! {

/// A sampler that deals a fixed pool of samples out in equal-size batches.
pub struct Batches<T> {
    /// Whether an exhausted sampler starts over instead of ending.
    pub loop_back: bool,
    /// The pool, replicated until a whole number of batches covers it.
    pub elements: Vec<T>,
    /// The position of the next batch.
    pub offset: usize,
    /// The length of the expanded pool.
    pub total: usize,
    /// How many elements one draw yields.
    pub size: usize,
}

impl<T: Clone> Batches<T> {
    /// The sampler's internal consistency: batches tile the expanded pool,
    /// and the cursor stands on a batch boundary. A degenerate sampler is
    /// empty, at rest, and never loops.
    pub open spec fn wf(self) -> bool {
        &&& self.total == self.elements@.len()
        &&& self.offset <= self.total
        &&& self.total > 0 ==> {
            &&& self.size >= 1
            &&& self.total % self.size == 0
            &&& self.offset % self.size == 0
        }
        &&& self.total == 0 ==> self.offset == 0 && self.size == 0 && !self.loop_back
    }

    /// How many draws a non-looping sampler still has before it ends.
    pub open spec fn draws_remaining(self) -> nat {
        if self.size == 0 {
            0
        } else {
            ((self.total - self.offset) as nat) / (self.size as nat)
        }
    }

    /// Draws the next batch: the `size` elements at the cursor, after
    /// wrapping the cursor around when a looping sampler is exhausted.
    /// A non-looping sampler that has walked its whole expanded pool ends,
    /// and keeps ending on every further draw.
    pub fn next(&mut self) -> (r: Option<Vec<T>>)
        requires
            old(self).wf(),
        ensures
            final(self).wf(),
            final(self).elements@ == old(self).elements@,
            final(self).size == old(self).size,
            final(self).total == old(self).total,
            final(self).loop_back == old(self).loop_back,
            match r {
                Some(batch) => {
                    let start = if old(self).offset < old(self).total {
                        old(self).offset as int
                    } else {
                        0int
                    };
                    &&& old(self).total > 0
                    &&& old(self).offset < old(self).total || old(self).loop_back
                    &&& batch@.len() == old(self).size
                    &&& forall|i: int|
                        0 <= i < old(self).size ==> cloned::<T>(
                            old(self).elements@[start + i],
                            #[trigger] batch@[i],
                        )
                    &&& final(self).offset == start + old(self).size
                },
                None => {
                    &&& old(self).total == 0 || (old(self).offset == old(self).total
                        && !old(self).loop_back)
                    &&& final(self).offset == old(self).offset
                },
            },
            old(self).loop_back && old(self).total > 0 ==> r is Some,
            old(self).total == 0 ==> r is None,
            !old(self).loop_back ==> (r is Some <==> old(self).draws_remaining() > 0),
            (r is Some && old(self).offset < old(self).total) ==> final(self).draws_remaining()
                + 1 == old(self).draws_remaining(),
            r is None ==> final(self).draws_remaining() == old(self).draws_remaining(),
    {
        let mut start = self.offset;
        if start >= self.total {
            if self.loop_back && self.total > 0 {
                start = 0;
                proof {
                    lemma_mod_self_0(self.size as int);
                }
            } else {
                return None;
            }
        }
        proof {
            lemma_batch_fits(self.total as nat, start as nat, self.size as nat);
        }
        let end = start + self.size;
        let mut batch: Vec<T> = Vec::new();
        batch.extend_from_slice(slice_subrange(self.elements.as_slice(), start, end));
        self.offset = end;
        proof {
            lemma_mod_add_multiples_vanish(start as int, self.size as int);
            lemma_draws_step(self.total as nat, start as nat, self.size as nat);
        }
        Some(batch)
    }
}

/// A batch starting inside the expanded pool, on a boundary, ends on one
/// too: it never runs past the pool.
proof fn lemma_batch_fits(total: nat, start: nat, size: nat)
    requires
        size >= 1,
        start < total,
        total % size == 0,
        start % size == 0,
    ensures
        start + size <= total,
{
    lemma_fundamental_div_mod(start as int, size as int);
    lemma_fundamental_div_mod(total as int, size as int);
    let q = start as int / size as int;
    let p = total as int / size as int;
    assert(q < p) by (nonlinear_arith)
        requires size >= 1 && size * q < size * p;
    assert((q + 1) * size <= p * size) by (nonlinear_arith)
        requires q + 1 <= p && size >= 1;
    assert((q + 1) * size == size * q + size) by (nonlinear_arith);
    assert(p * size == size * p) by (nonlinear_arith);
}

/// Advancing the cursor one batch costs exactly one remaining draw, and a
/// cursor short of the end has a draw left.
proof fn lemma_draws_step(total: nat, start: nat, size: nat)
    requires
        size >= 1,
        start < total,
        start + size <= total,
        total % size == 0,
        start % size == 0,
    ensures
        ((total - start) as nat) / size >= 1,
        ((total - start - size) as nat) / size + 1 == ((total - start) as nat) / size,
{
    let m = (total - start) as int;
    assert(m % size as int == 0) by {
        lemma_sub_mod_noop(total as int, start as int, size as int);
        lemma_mod_self_0(size as int);
        lemma_small_mod(0, size as nat);
    }
    lemma_fundamental_div_mod(m, size as int);
    let t = m / size as int;
    assert(t >= 1) by (nonlinear_arith)
        requires size >= 1 && m >= size && m == size * t;
    assert(m - size == (t - 1) * size) by (nonlinear_arith)
        requires m == size * t;
    lemma_div_by_multiple(t - 1, size as int);
}

/// Builds a sampler from a pool, a batch size and a loop flag. An empty
/// pool or a zero batch size yields the degenerate sampler, which ends on
/// the first draw; otherwise the pool is replicated to the least common
/// multiple of its length and the batch size, so that the batches tile it
/// and every pool entry occurs equally often.
pub fn prepare<T: Clone>(samples: Vec<T>, batch_size: usize, loop_back: bool) -> (r: Batches<T>)
    requires
        samples@.len() * batch_size <= usize::MAX,
    ensures
        r.wf(),
        r.offset == 0,
        (batch_size == 0 || samples@.len() == 0) ==> r.total == 0,
        (batch_size >= 1 && samples@.len() >= 1) ==> {
            &&& r.size == batch_size
            &&& r.loop_back == loop_back
            &&& is_lcm(samples@.len() as nat, batch_size as nat, r.total as nat)
            &&& forall|p: int|
                0 <= p < r.total ==> cloned::<T>(
                    samples@[p % samples@.len() as int],
                    #[trigger] r.elements@[p],
                )
        },
{
    if batch_size == 0 || samples.len() == 0 {
        Batches { loop_back: false, elements: Vec::new(), offset: 0, total: 0, size: 0 }
    } else {
        let n = samples.len();
        let total = lcm_usize(n, batch_size);
        proof {
            lemma_lcm_bounds(n as nat, batch_size as nat, total as nat);
        }
        let repeat = total / n;
        proof {
            lemma_fundamental_div_mod(total as int, n as int);
            assert(repeat * n == total) by (nonlinear_arith)
                requires
                    total as int == n as int * (total as int / n as int),
                    repeat == total as int / n as int,
            ;
        }
        let mut elements: Vec<T> = Vec::new();
        let mut c: usize = 0;
        while c < repeat
            invariant
                n == samples@.len(),
                n >= 1,
                c <= repeat,
                repeat * n == total,
                elements@.len() == c * n,
                forall|p: int|
                    0 <= p < c * n ==> cloned::<T>(
                        samples@[p % n as int],
                        #[trigger] elements@[p],
                    ),
            decreases repeat - c,
        {
            assert(c * n < repeat * n && (c + 1) * n <= repeat * n && (c + 1) * n == c * n + n)
                by (nonlinear_arith)
                requires c < repeat && n >= 1;
            elements.extend_from_slice(samples.as_slice());
            proof {
                assert forall|p: int| c * n <= p < (c + 1) * n implies samples@[p - c * n]
                    == samples@[#[trigger] (p % n as int)] by {
                    lemma_mod_multiples_vanish(c as int, p - c * n, n as int);
                    lemma_small_mod((p - c * n) as nat, n as nat);
                    assert(c * n == n * c) by (nonlinear_arith);
                }
            }
            c = c + 1;
        }
        Batches { loop_back, elements, offset: 0, total, size: batch_size }
    }
}

/// One full run of a non-looping sampler tiles the expanded pool: the pool
/// length is a whole number of batches and a whole number of pool cycles,
/// so there are exactly `total / b` draws, at least one, and each of the
/// `n` pool positions is covered exactly `total / n` times — every sample
/// with the same frequency.
pub proof fn lemma_uniform_frequency(n: nat, b: nat, total: nat, i: nat)
    requires
        n >= 1,
        b >= 1,
        is_lcm(n, b, total),
        i < n,
    ensures
        total % b == 0,
        total % n == 0,
        total / b >= 1,
        total / n >= 1,
        index_hits(total, n, i) == total / n,
{
    lemma_lcm_bounds(n, b, total);
    lemma_index_hits_exact(total, n, i);
    lemma_div_is_ordered(b as int, total as int, b as int);
    lemma_div_by_self(b as int);
    lemma_div_is_ordered(n as int, total as int, n as int);
    lemma_div_by_self(n as int);
}

} // verus!
