//! Stateful linear-interpolation sample-rate converter.
//!
//! Samples are signed 16-bit PCM values. The converter keeps the final
//! sample of the previous chunk, an exact fractional phase (a numerator
//! over `to_rate`), and the number of input samples to skip at the head
//! of the next chunk, so the interpolation index sequence is exactly
//! continuous across chunk boundaries: feeding one long chunk or the
//! same samples split into many chunks produces the same output.
//!
//! The mathematical model is `resampled(from, to, stream)`: the output
//! of a fresh converter on the whole input stream. Output sample `k`
//! sits at phase `k * from - to` in units of `1 / to` of a stream
//! position (one sample of latency; the sample before the stream is
//! silence), and is the linear interpolation between the two
//! neighbouring input samples.

use vstd::prelude::*;
use vstd::arithmetic::div_mod::{
    lemma_div_pos_is_pos, lemma_fundamental_div_mod, lemma_fundamental_div_mod_converse,
    lemma_multiply_divide_le,
};
use vstd::arithmetic::mul::{
    lemma_mul_inequality, lemma_mul_is_commutative, lemma_mul_is_distributive_add_other_way,
    lemma_mul_is_distributive_sub_other_way, lemma_mul_nonnegative, lemma_mul_upper_bound,
};

verus! {

/// The sample the interpolation reads at stream position `i`:
/// positions outside the stream are silence.
pub open spec fn sample_at(stream: Seq<i16>, i: int) -> int {
    if 0 <= i < stream.len() {
        stream[i] as int
    } else {
        0
    }
}

/// Linear interpolation between `s0` and `s1` at fraction `f / to`,
/// with the division truncated toward `s0` (as the executable code
/// computes it on non-negative numerators).
pub open spec fn lerp(s0: int, s1: int, f: int, to: int) -> int {
    if s1 >= s0 {
        s0 + (s1 - s0) * f / to
    } else {
        s0 - (s0 - s1) * f / to
    }
}

/// Phase of output sample `k`, in units of `1 / to` of a stream
/// position.
pub open spec fn phase(from: int, to: int, k: int) -> int {
    k * from - to
}

/// Index of the lower interpolation neighbour of output sample `k`.
pub open spec fn src_index(from: int, to: int, k: int) -> int {
    phase(from, to, k) / to
}

/// Fractional part (numerator over `to`) of output sample `k`.
pub open spec fn src_frac(from: int, to: int, k: int) -> int {
    phase(from, to, k) % to
}

/// Value of output sample `k` for the given whole input stream.
pub open spec fn out_sample(from: int, to: int, stream: Seq<i16>, k: int) -> int {
    lerp(
        sample_at(stream, src_index(from, to, k)),
        sample_at(stream, src_index(from, to, k) + 1),
        src_frac(from, to, k),
        to,
    )
}

/// How many output samples a stream of `n` input samples yields: the
/// smallest `k` with `k * from >= n * to`.
pub open spec fn out_count(from: int, to: int, n: int) -> int {
    if n <= 0 {
        0
    } else {
        (n * to + from - 1) / from
    }
}

/// The whole-stream output of a fresh converter: the input unchanged
/// when the rates agree, else the interpolated sequence.
pub open spec fn resampled(from: int, to: int, stream: Seq<i16>) -> Seq<i16> {
    if from == to {
        stream
    } else {
        Seq::new(
            out_count(from, to, stream.len() as int) as nat,
            |k: int| out_sample(from, to, stream, k) as i16,
        )
    }
}

/// `k < out_count(from, to, n)` exactly when `k * from < n * to`.
proof fn lemma_out_count_char(from: int, to: int, n: int, k: int)
    requires
        from >= 1,
        to >= 1,
        n >= 0,
        k >= 0,
    ensures
        (k < out_count(from, to, n)) <==> (k * from < n * to),
{
    if n == 0 {
        assert(n * to == 0);
        if k * from < 0 {
            lemma_mul_inequality(0, k, from);
        }
    } else {
        let m = n * to - 1;
        assert(m >= 0) by {
            lemma_mul_inequality(1, n, to);
        }
        // out_count(n) == m / from + 1
        let q = m / from;
        let r = m % from;
        lemma_fundamental_div_mod(m, from);
        assert(m == from * q + r);
        assert((q + 1) * from == q * from + from) by {
            lemma_mul_is_distributive_add_other_way(from, q, 1);
        }
        assert(q * from == from * q) by {
            lemma_mul_is_commutative(q, from);
        }
        lemma_fundamental_div_mod_converse(m + from, from, q + 1, r);
        assert(out_count(from, to, n) == q + 1);
        // k <= q  <==>  k * from <= m
        if k <= q {
            lemma_mul_inequality(k, q, from);
        }
        if k * from <= m && k > q {
            lemma_mul_inequality(q + 1, k, from);
            assert((q + 1) * from <= k * from);
            assert(false);
        }
        assert((k <= q) <==> (k * from <= m));
    }
}

/// `out_count` never shrinks as the stream grows, and is never
/// negative.
proof fn lemma_out_count_monotone(from: int, to: int, n1: int, n2: int)
    requires
        from >= 1,
        to >= 1,
        0 <= n1 <= n2,
    ensures
        0 <= out_count(from, to, n1) <= out_count(from, to, n2),
{
    let c1 = out_count(from, to, n1);
    if n1 > 0 {
        assert(c1 >= 0) by {
            assert(n1 * to - 1 >= 0) by {
                lemma_mul_inequality(1, n1, to);
            }
            lemma_div_pos_is_pos(n1 * to + from - 1, from);
        }
    }
    if c1 > 0 {
        lemma_out_count_char(from, to, n1, c1 - 1);
        assert((c1 - 1) * from < n1 * to);
        assert(n1 * to <= n2 * to) by {
            lemma_mul_inequality(n1, n2, to);
        }
        lemma_out_count_char(from, to, n2, c1 - 1);
    }
}

/// Output samples produced within a prefix of the stream do not change
/// when the stream is extended.
proof fn lemma_out_sample_prefix(from: int, to: int, s1: Seq<i16>, s2: Seq<i16>, k: int)
    requires
        from >= 1,
        to >= 1,
        s1.len() <= s2.len(),
        forall|i: int| 0 <= i < s1.len() ==> s1[i] == s2[i],
        0 <= k < out_count(from, to, s1.len() as int),
    ensures
        out_sample(from, to, s2, k) == out_sample(from, to, s1, k),
{
    let n1 = s1.len() as int;
    lemma_out_count_char(from, to, n1, k);
    assert(k * from < n1 * to);
    let p = phase(from, to, k);
    let g = src_index(from, to, k);
    assert(p >= -to) by {
        lemma_mul_inequality(0, k, from);
    }
    lemma_fundamental_div_mod(p, to);
    assert(p == to * g + (p % to));
    if g < -1 {
        assert(to * g <= (-2) * to) by {
            lemma_mul_inequality(g, -2, to);
            lemma_mul_is_commutative(to, g);
        }
        assert((-2) * to <= -2 + -(to - 2));
        assert(false);
    }
    assert(p < n1 * to - to);
    if g > n1 - 2 {
        assert((n1 - 1) * to <= g * to) by {
            lemma_mul_inequality(n1 - 1, g, to);
        }
        assert((n1 - 1) * to == n1 * to - to) by {
            lemma_mul_is_distributive_sub_other_way(to, n1, 1);
        }
        assert(g * to == to * g) by {
            lemma_mul_is_commutative(g, to);
        }
        assert(false);
    }
    assert(-1 <= g <= n1 - 2);
    assert(sample_at(s2, g) == sample_at(s1, g));
    assert(sample_at(s2, g + 1) == sample_at(s1, g + 1));
}

/// The truncated interpolation quotient lies between 0 and `d`.
proof fn lemma_interp_quotient(d: int, f: int, to: int)
    requires
        d >= 0,
        to >= 1,
        0 <= f < to,
    ensures
        0 <= d * f / to <= d,
{
    lemma_mul_nonnegative(d, f);
    lemma_div_pos_is_pos(d * f, to);
    assert(d * f <= to * d) by {
        lemma_mul_inequality(f, to, d);
        lemma_mul_is_commutative(d, f);
        lemma_mul_is_commutative(to, d);
    }
    lemma_multiply_divide_le(d * f, to, d);
}

/// The interpolated value lies between its two neighbouring samples.
proof fn lemma_lerp_range(s0: int, s1: int, f: int, to: int)
    requires
        to >= 1,
        0 <= f < to,
    ensures
        (if s0 <= s1 {
            s0 <= lerp(s0, s1, f, to) <= s1
        } else {
            s1 <= lerp(s0, s1, f, to) <= s0
        }),
{
    if s1 >= s0 {
        lemma_interp_quotient(s1 - s0, f, to);
    } else {
        lemma_interp_quotient(s0 - s1, f, to);
    }
}

/// Every output sample fits in an `i16`.
proof fn lemma_out_sample_range(from: int, to: int, stream: Seq<i16>, k: int)
    requires
        from >= 1,
        to >= 1,
        k >= 0,
    ensures
        i16::MIN <= out_sample(from, to, stream, k) <= i16::MAX,
{
    let g = src_index(from, to, k);
    let s0 = sample_at(stream, g);
    let s1 = sample_at(stream, g + 1);
    let f = src_frac(from, to, k);
    assert(0 <= f < to) by {
        lemma_fundamental_div_mod(phase(from, to, k), to);
    }
    lemma_lerp_range(s0, s1, f, to);
}

/// A stateful linear-interpolation sample-rate converter.
pub struct Resampler {
    from_rate: u32,
    to_rate: u32,
    last_sample: i16,
    frac: u32,
    skip: usize,
    hist: Ghost<Seq<i16>>,
}

impl Resampler {
    /// Every input sample this converter has ever been fed, in order.
    pub closed spec fn history(self) -> Seq<i16> {
        self.hist@
    }

    pub closed spec fn spec_from_rate(self) -> u32 {
        self.from_rate
    }

    pub closed spec fn spec_to_rate(self) -> u32 {
        self.to_rate
    }

    /// The converter state agrees with its history: the stored
    /// fraction, skip count and held sample are exactly those reached
    /// after consuming `history()` from a fresh converter.
    pub closed spec fn wf(self) -> bool {
        let from = self.from_rate as int;
        let to = self.to_rate as int;
        let n = self.hist@.len() as int;
        let k = out_count(from, to, n);
        &&& self.from_rate >= 1
        &&& self.to_rate >= 1
        &&& (self.from_rate != self.to_rate ==> {
            &&& self.frac as int == src_frac(from, to, k)
            &&& self.skip as int == src_index(from, to, k) - (n - 1)
            &&& self.last_sample as int == sample_at(self.hist@, n - 1)
            &&& self.skip <= self.from_rate as usize
        })
    }

    /// A fresh converter from `from_rate` to `to_rate` samples per
    /// second, with an empty history.
    pub fn new(from_rate: u32, to_rate: u32) -> (r: Resampler)
        requires
            1 <= from_rate,
            1 <= to_rate,
        ensures
            r.wf(),
            r.history() == Seq::<i16>::empty(),
            r.spec_from_rate() == from_rate,
            r.spec_to_rate() == to_rate,
    {
        let r = Resampler {
            from_rate,
            to_rate,
            last_sample: 0i16,
            frac: 0u32,
            skip: 0usize,
            hist: Ghost(Seq::empty()),
        };
        proof {
            if from_rate != to_rate {
                let from = from_rate as int;
                let to = to_rate as int;
                assert(out_count(from, to, 0) == 0);
                assert(0 * from == 0);
                assert((-1) * to + 0 == -to) by {
                    lemma_mul_is_commutative(-1, to);
                }
                lemma_fundamental_div_mod_converse(-to, to, -1, 0);
                assert(phase(from, to, 0) == -to);
            }
        }
        r
    }

    /// Convert one chunk. The returned samples extend the whole-stream
    /// output: across any number of calls, the concatenation of the
    /// outputs equals `resampled(from, to, history)` exactly, however
    /// the stream is split into chunks (no discontinuity and no phase
    /// reset at chunk boundaries). With equal rates the input comes
    /// back unchanged.
    #[verifier::loop_isolation(false)]
    pub fn process(&mut self, input: &Vec<i16>) -> (out: Vec<i16>)
        requires
            old(self).wf(),
            input@.len() + old(self).spec_from_rate() + 1 <= usize::MAX,
        ensures
            final(self).wf(),
            final(self).spec_from_rate() == old(self).spec_from_rate(),
            final(self).spec_to_rate() == old(self).spec_to_rate(),
            final(self).history() == old(self).history() + input@,
            resampled(
                old(self).spec_from_rate() as int,
                old(self).spec_to_rate() as int,
                final(self).history(),
            ) == resampled(
                old(self).spec_from_rate() as int,
                old(self).spec_to_rate() as int,
                old(self).history(),
            ) + out@,
            old(self).spec_from_rate() == old(self).spec_to_rate() ==> out@ == input@,
    {
        let ghost old_hist = self.hist@;
        let ghost fromi = self.from_rate as int;
        let ghost toi = self.to_rate as int;
        let ghost new_hist = old_hist + input@;

        if self.from_rate == self.to_rate {
            let out = vstd::slice::slice_to_vec(input.as_slice());
            proof {
                self.hist@ = new_hist;
                assert(resampled(fromi, toi, new_hist) =~= resampled(fromi, toi, old_hist)
                    + out@);
            }
            return out;
        }

        let ghost n0 = old_hist.len() as int;
        let ghost nn = new_hist.len() as int;
        let ghost k0 = out_count(fromi, toi, n0);
        let ghost cnn = out_count(fromi, toi, nn);
        proof {
            lemma_out_count_monotone(fromi, toi, n0, nn);
        }

        let len: usize = input.len();
        let to64: u64 = self.to_rate as u64;
        let from64: u64 = self.from_rate as u64;
        let mut out: Vec<i16> = Vec::new();
        let mut j: usize = self.skip;
        let mut frac: u64 = self.frac as u64;

        proof {
            lemma_fundamental_div_mod(phase(fromi, toi, k0), toi);
            assert(phase(fromi, toi, k0) == toi * (n0 + j - 1) + frac as int);
        }

        while j < len
            invariant
                k0 + out@.len() <= cnn,
                frac as int == src_frac(fromi, toi, k0 + out@.len() as int),
                frac < to64,
                j as int == src_index(fromi, toi, k0 + out@.len() as int) - n0 + 1,
                j <= len + fromi,
                forall|t: int|
                    0 <= t < out@.len() ==> out@[t] as int == out_sample(
                        fromi,
                        toi,
                        new_hist,
                        k0 + t,
                    ),
            decreases cnn - (k0 + out@.len() as int),
        {
            let ghost kk = k0 + out@.len() as int;
            proof {
                lemma_fundamental_div_mod(phase(fromi, toi, kk), toi);
                assert(phase(fromi, toi, kk) == toi * (n0 + j - 1) + frac as int);
            }
            let s1: i16 = input[j];
            let s0: i16 = if j == 0 {
                self.last_sample
            } else {
                input[j - 1]
            };
            proof {
                assert(s0 as int == sample_at(new_hist, n0 + j as int - 1));
                assert(s1 as int == sample_at(new_hist, n0 + j as int));
            }
            let val: i16 = if s1 >= s0 {
                let d: u64 = (s1 as i64 - s0 as i64) as u64;
                proof {
                    lemma_mul_upper_bound(d as int, 0x10000, frac as int, 0xffff_ffff);
                    lemma_interp_quotient(d as int, frac as int, toi);
                }
                let q: u64 = d * frac / to64;
                (s0 as i64 + q as i64) as i16
            } else {
                let d: u64 = (s0 as i64 - s1 as i64) as u64;
                proof {
                    lemma_mul_upper_bound(d as int, 0x10000, frac as int, 0xffff_ffff);
                    lemma_interp_quotient(d as int, frac as int, toi);
                }
                let q: u64 = d * frac / to64;
                (s0 as i64 - q as i64) as i16
            };
            proof {
                assert(val as int == out_sample(fromi, toi, new_hist, kk));
                // this output index lies below the final count
                assert(toi * (n0 + j - 1) <= toi * (nn - 2)) by {
                    lemma_mul_inequality(n0 + j as int - 1, nn - 2, toi);
                    lemma_mul_is_commutative(toi, n0 + j as int - 1);
                    lemma_mul_is_commutative(toi, nn - 2);
                }
                assert(toi * (nn - 2) == toi * nn - 2 * toi) by {
                    lemma_mul_is_distributive_sub_other_way(toi, nn, 2);
                    lemma_mul_is_commutative(toi, nn - 2);
                    lemma_mul_is_commutative(toi, nn);
                }
                assert(kk * fromi < nn * toi) by {
                    assert(kk * fromi == phase(fromi, toi, kk) + toi);
                    lemma_mul_is_commutative(toi, nn);
                }
                lemma_out_count_char(fromi, toi, nn, kk);
                assert(kk < cnn);
            }
            out.push(val);
            frac = frac + from64;
            let ghost kk1 = kk + 1;
            let ghost pos1 = phase(fromi, toi, kk1);
            proof {
                assert(pos1 == phase(fromi, toi, kk) + fromi) by {
                    lemma_mul_is_distributive_add_other_way(fromi, kk, 1);
                }
                assert(pos1 == toi * (n0 + j as int - 1) + frac as int);
                // an upper bound on how far the source index can move
                assert(toi * (n0 + j as int - 1) <= toi * (n0 + len as int - 2)) by {
                    lemma_mul_inequality(n0 + j as int - 1, n0 + len as int - 2, toi);
                    lemma_mul_is_commutative(toi, n0 + j as int - 1);
                    lemma_mul_is_commutative(toi, n0 + len as int - 2);
                }
                assert(pos1 <= toi * (n0 + len as int - 2) + toi - 1 + fromi);
            }
            while frac >= to64
                invariant
                    j <= len + fromi,
                    toi * (n0 + j as int - 1) + frac as int == pos1,
                decreases frac,
            {
                frac = frac - to64;
                j = j + 1;
                proof {
                    assert(toi * (n0 + j as int - 1) == toi * (n0 + (j as int - 1) - 1)
                        + toi) by {
                        lemma_mul_is_distributive_add_other_way(toi, n0 + (j as int - 1) - 1, 1);
                        lemma_mul_is_commutative(toi, n0 + (j as int - 1) - 1);
                        lemma_mul_is_commutative(toi, n0 + j as int - 1);
                        assert((n0 + (j as int - 1) - 1 + 1) * toi == (n0 + (j as int - 1) - 1)
                            * toi + 1 * toi);
                    }
                    if j as int > len as int + fromi {
                        assert(toi * (n0 + len as int + fromi) <= toi * (n0 + j as int - 1)) by {
                            lemma_mul_inequality(n0 + len as int + fromi, n0 + j as int - 1, toi);
                            lemma_mul_is_commutative(toi, n0 + len as int + fromi);
                            lemma_mul_is_commutative(toi, n0 + j as int - 1);
                        }
                        assert(toi * (n0 + len as int + fromi) == toi * (n0 + len as int - 2)
                            + toi * (fromi + 2)) by {
                            lemma_mul_is_distributive_add_other_way(
                                toi,
                                n0 + len as int - 2,
                                fromi + 2,
                            );
                            lemma_mul_is_commutative(toi, n0 + len as int + fromi);
                            lemma_mul_is_commutative(toi, n0 + len as int - 2);
                            lemma_mul_is_commutative(toi, fromi + 2);
                        }
                        assert(toi * (fromi + 2) == toi * fromi + 2 * toi) by {
                            lemma_mul_is_distributive_add_other_way(toi, fromi, 2);
                            lemma_mul_is_commutative(toi, fromi + 2);
                            lemma_mul_is_commutative(toi, fromi);
                            assert((fromi + 2) * toi == fromi * toi + 2 * toi);
                        }
                        assert(toi * fromi >= fromi) by {
                            lemma_mul_inequality(1, toi, fromi);
                            lemma_mul_is_commutative(toi, fromi);
                        }
                        assert(toi * (n0 + j as int - 1) <= pos1);
                        assert(false);
                    }
                }
            }
            proof {
                assert(pos1 == (n0 + j as int - 1) * toi + frac as int) by {
                    lemma_mul_is_commutative(n0 + j as int - 1, toi);
                }
                lemma_fundamental_div_mod_converse(pos1, toi, n0 + j as int - 1, frac as int);
                assert(frac as int == src_frac(fromi, toi, kk1));
                assert(j as int == src_index(fromi, toi, kk1) - n0 + 1);
            }
        }

        // after the loop every remaining output needs samples beyond
        // this chunk, so the produced outputs are exactly those of the
        // extended stream
        let ghost kend = k0 + out@.len() as int;
        proof {
            lemma_fundamental_div_mod(phase(fromi, toi, kend), toi);
            assert(phase(fromi, toi, kend) == toi * (n0 + j - 1) + frac as int);
            assert(toi * (nn - 1) <= toi * (n0 + j - 1)) by {
                lemma_mul_inequality(nn - 1, n0 + j as int - 1, toi);
                lemma_mul_is_commutative(toi, nn - 1);
                lemma_mul_is_commutative(toi, n0 + j as int - 1);
            }
            assert(toi * (nn - 1) + toi == nn * toi) by {
                lemma_mul_is_distributive_sub_other_way(toi, nn, 1);
                lemma_mul_is_commutative(toi, nn - 1);
                lemma_mul_is_commutative(toi, nn);
            }
            assert(kend * fromi >= nn * toi) by {
                assert(kend * fromi == phase(fromi, toi, kend) + toi);
            }
            if kend < cnn {
                lemma_out_count_char(fromi, toi, nn, kend);
                assert(false);
            }
            assert(kend == cnn);
            // the new skip count is at most from_rate
            if kend >= 1 {
                lemma_out_count_char(fromi, toi, nn, kend - 1);
                assert((kend - 1) * fromi < nn * toi);
                assert((kend - 1) * fromi == kend * fromi - fromi) by {
                    lemma_mul_is_distributive_sub_other_way(fromi, kend, 1);
                }
                assert(phase(fromi, toi, kend) < nn * toi + fromi - toi);
                if (j as int - len as int) > fromi {
                    assert(toi * (nn + fromi) <= toi * (n0 + j as int - 1)) by {
                        lemma_mul_inequality(nn + fromi, n0 + j as int - 1, toi);
                        lemma_mul_is_commutative(toi, nn + fromi);
                        lemma_mul_is_commutative(toi, n0 + j as int - 1);
                    }
                    assert(toi * (nn + fromi) == toi * nn + toi * fromi) by {
                        lemma_mul_is_distributive_add_other_way(toi, nn, fromi);
                        lemma_mul_is_commutative(toi, nn + fromi);
                        lemma_mul_is_commutative(toi, nn);
                        lemma_mul_is_commutative(toi, fromi);
                        assert((nn + fromi) * toi == nn * toi + fromi * toi);
                    }
                    assert(toi * fromi >= fromi) by {
                        lemma_mul_inequality(1, toi, fromi);
                        lemma_mul_is_commutative(toi, fromi);
                    }
                    assert(toi * nn == nn * toi) by {
                        lemma_mul_is_commutative(toi, nn);
                    }
                    assert(false);
                }
            } else {
                assert(kend == 0);
                if nn > 0 {
                    lemma_out_count_char(fromi, toi, nn, 0);
                    assert(0 * fromi == 0);
                    assert(0 < nn * toi) by {
                        lemma_mul_inequality(1, nn, toi);
                    }
                    assert(false);
                }
                assert(len == 0);
            }
        }
        self.skip = j - len;
        self.frac = frac as u32;
        if len > 0 {
            self.last_sample = input[len - 1];
        }
        proof {
            self.hist@ = new_hist;
            assert(sample_at(new_hist, nn - 1) == self.last_sample as int);
            assert(self.wf());
            // assemble the sequence equation
            let full = resampled(fromi, toi, new_hist);
            let pre = resampled(fromi, toi, old_hist);
            assert(full.len() == cnn as nat);
            assert(pre.len() == k0 as nat);
            assert forall|k: int| 0 <= k < k0 implies full[k] == pre[k] by {
                lemma_out_sample_prefix(fromi, toi, old_hist, new_hist, k);
            }
            assert forall|t: int| 0 <= t < out@.len() implies full[k0 + t] == out@[t] by {
                assert(out@[t] as int == out_sample(fromi, toi, new_hist, k0 + t));
                lemma_out_sample_range(fromi, toi, new_hist, k0 + t);
            }
            assert(full =~= pre + out@);
        }
        out
    }
}

} // verus!
