use std::collections::VecDeque;
use vstd::prelude::*;

use crate::fixed::{abs, magnitude, ONE};

verus! {

/// The sum of a sequence of magnitudes.
pub open spec fn sum_of(s: Seq<u32>) -> int
    decreases s.len(),
{
    if s.len() == 0 {
        0
    } else {
        s[0] + sum_of(s.drop_first())
    }
}

/// The mean of a window of magnitudes, rounded down.
pub open spec fn average(s: Seq<u32>) -> int {
    sum_of(s) / (s.len() as int)
}

/// One step of the moving window: the oldest magnitude leaves, the new one enters.
pub open spec fn slide(w: Seq<u32>, x: i32) -> Seq<u32> {
    w.drop_first().push(abs(x as int) as u32)
}

/// The window after the samples `xs` have been fed in order.
pub open spec fn feed(w: Seq<u32>, xs: Seq<i32>) -> Seq<u32>
    decreases xs.len(),
{
    if xs.len() == 0 {
        w
    } else {
        feed(slide(w, xs[0]), xs.drop_first())
    }
}

/// `n` copies of one magnitude.
pub open spec fn filled(n: nat, v: u32) -> Seq<u32> {
    Seq::new(n, |i: int| v)
}

/// A window of `n` zeros.
pub open spec fn silence(n: nat) -> Seq<u32> {
    filled(n, 0)
}

proof fn lemma_sum_push(s: Seq<u32>, x: u32)
    ensures
        sum_of(s.push(x)) == sum_of(s) + x,
    decreases s.len(),
{
    if s.len() > 0 {
        assert(s.push(x).drop_first() =~= s.drop_first().push(x));
        lemma_sum_push(s.drop_first(), x);
    } else {
        assert(s.push(x).drop_first() =~= Seq::<u32>::empty());
        assert(sum_of(s.push(x).drop_first()) == 0);
    }
}

proof fn lemma_sum_bound(s: Seq<u32>)
    requires
        forall|i: int| 0 <= i < s.len() ==> s[i] <= 0x8000_0000u32,
    ensures
        0 <= sum_of(s) <= s.len() * 0x8000_0000,
    decreases s.len(),
{
    if s.len() > 0 {
        lemma_sum_bound(s.drop_first());
    }
}

proof fn lemma_sum_constant(n: nat, v: u32)
    ensures
        sum_of(filled(n, v)) == n * v,
    decreases n,
{
    if n > 0 {
        let s = filled(n, v);
        assert(s.drop_first() =~= filled((n - 1) as nat, v));
        lemma_sum_constant((n - 1) as nat, v);
        assert(s[0] == v);
        assert(sum_of(s) == s[0] + sum_of(s.drop_first()));
        let m = (n - 1) as nat;
        assert(n * v == v + m * v) by (nonlinear_arith)
            requires
                m == n - 1,
        ;
    } else {
        assert(filled(n, v).len() == 0);
    }
}

/// `k` copies of one sample.
pub open spec fn repeat(k: nat, a: i32) -> Seq<i32> {
    Seq::new(k, |i: int| a)
}

proof fn lemma_feed_tail(w: Seq<u32>, a: i32, k: nat)
    requires
        w.len() > 0,
    ensures
        feed(w, repeat(k, a)).len() == w.len(),
        forall|i: int|
            0 <= i < w.len() ==> #[trigger] feed(w, repeat(k, a))[i] == if i + k < w.len() {
                w[i + k]
            } else {
                abs(a as int) as u32
            },
    decreases k,
{
    if k > 0 {
        let w1 = slide(w, a);
        assert(repeat(k, a).drop_first() =~= repeat((k - 1) as nat, a));
        assert(feed(w, repeat(k, a)) == feed(w1, repeat((k - 1) as nat, a)));
        lemma_feed_tail(w1, a, (k - 1) as nat);
    }
}

/// The moving-average follower: once a constant input has filled the
/// window, the output is exactly that input's magnitude.
pub proof fn lemma_moving_average_settles(w: Seq<u32>, a: i32, k: nat)
    requires
        w.len() > 0,
        k >= w.len(),
    ensures
        average(feed(w, repeat(k, a))) == abs(a as int),
{
    let m = abs(a as int) as u32;
    lemma_feed_tail(w, a, k);
    assert(feed(w, repeat(k, a)) =~= filled(w.len(), m));
    lemma_sum_constant(w.len(), m);
    assert((w.len() * m) / (w.len() as int) == m as int) by (nonlinear_arith)
        requires w.len() > 0;
}

/// Tracks the envelope of a signal as the mean magnitude of its last
/// `size` samples, kept with a running sum.
pub struct SimpleEnvelopeFollower {
    inputs: VecDeque<u32>,
    sum: u64,
    size: i32,
}

impl SimpleEnvelopeFollower {
    /// The magnitudes in the window, oldest first.
    pub closed spec fn window(&self) -> Seq<u32> {
        self.inputs@
    }

    /// The number of samples the window holds.
    pub closed spec fn size(&self) -> int {
        self.size as int
    }

    pub closed spec fn wf(&self) -> bool {
        &&& self.size > 0
        &&& self.inputs@.len() == self.size
        &&& self.sum == sum_of(self.inputs@)
        &&& forall|i: int| 0 <= i < self.inputs@.len() ==> self.inputs@[i] <= 0x8000_0000u32
    }

    /// A follower whose window of `size` samples is silent.
    pub fn new(size: i32) -> (r: Self)
        requires
            size > 0,
        ensures
            r.wf(),
            r.size() == size,
            r.window() == silence(size as nat),
    {
        let mut inputs: VecDeque<u32> = VecDeque::with_capacity(size as usize);
        let mut i: i32 = 0;
        while i < size
            invariant
                0 <= i <= size,
                inputs@ =~= silence(i as nat),
            decreases size - i,
        {
            inputs.push_back(0);
            i = i + 1;
        }
        proof {
            lemma_sum_constant(size as nat, 0);
        }
        SimpleEnvelopeFollower { inputs, sum: 0, size }
    }

    /// A follower with no window, standing in a slot while the real one is
    /// in use elsewhere.
    pub(crate) fn vacant() -> (r: Self) {
        SimpleEnvelopeFollower { inputs: VecDeque::new(), sum: 0, size: 0 }
    }

    /// Takes one sample in and returns the mean magnitude of the window.
    pub fn process(&mut self, input: i32) -> (r: u32)
        requires
            old(self).wf(),
        ensures
            final(self).wf(),
            final(self).size() == old(self).size(),
            final(self).window() == slide(old(self).window(), input),
            r == average(final(self).window()),
    {
        let ghost w0 = self.inputs@;
        proof {
            assert(w0 =~= seq![w0[0]] + w0.drop_first());
            assert(sum_of(w0) == w0[0] + sum_of(w0.drop_first()));
            lemma_sum_bound(w0.drop_first());
        }
        let oldest = match self.inputs.pop_front() {
            Some(v) => v,
            None => 0,
        };
        let m = magnitude(input);
        proof {
            assert(self.inputs@ == w0.drop_first());
            lemma_sum_push(w0.drop_first(), m);
        }
        self.sum = self.sum - oldest as u64 + m as u64;
        self.inputs.push_back(m);
        let r = self.sum / (self.size as u64);
        proof {
            lemma_sum_bound(self.inputs@);
            assert(r <= 0x8000_0000) by (nonlinear_arith)
                requires
                    r == self.sum / (self.size as u64),
                    self.sum <= self.size * 0x8000_0000,
                    self.size > 0,
            ;
        }
        r as u32
    }

    /// Clears the window back to silence.
    pub fn reset(&mut self)
        requires
            old(self).wf(),
        ensures
            final(self).wf(),
            final(self).size() == old(self).size(),
            final(self).window() == silence(old(self).size() as nat),
    {
        self.inputs.clear();
        let n = self.size;
        let mut i: i32 = 0;
        while i < n
            invariant
                0 <= i <= n,
                n > 0,
                self.size == n,
                self.inputs@ =~= silence(i as nat),
            decreases n - i,
        {
            self.inputs.push_back(0);
            i = i + 1;
        }
        self.sum = 0;
        proof {
            lemma_sum_constant(n as nat, 0);
        }
    }
}

/// The share of the distance to the input that one step of the RC follower
/// covers, in Q16.16, for a time constant of `time` samples: `1 / (time + 1)`.
pub open spec fn rc_alpha(time: int) -> int {
    ONE as int / (time + 1)
}

/// The blend `state * (1 - alpha) + |x| * alpha`, rounded to nearest.
pub open spec fn rc_blend(state: int, x: int, time: int) -> int {
    (state * (ONE - rc_alpha(time)) + abs(x) * rc_alpha(time) + ONE / 2) / (ONE as int)
}

/// One step of the RC follower: the blend, moved on by one raw unit toward
/// `|x|` where rounding would leave the state where it was.
pub open spec fn rc_step(state: int, x: int, time: int) -> int {
    let n = rc_blend(state, x, time);
    if n == state && state < abs(x) {
        state + 1
    } else if n == state && state > abs(x) {
        state - 1
    } else {
        n
    }
}

pub open spec fn min(a: int, b: int) -> int {
    if a <= b {
        a
    } else {
        b
    }
}

pub open spec fn max(a: int, b: int) -> int {
    if a >= b {
        a
    } else {
        b
    }
}

/// The RC follower never leaves the range spanned by its state and the
/// magnitude of its input, so its output is never negative; and unless it
/// already holds that magnitude, each step brings it strictly closer.
pub proof fn lemma_rc_output_bounded(state: int, x: int, time: int)
    requires
        state >= 0,
        time >= 0,
    ensures
        0 <= min(state, abs(x)) <= rc_step(state, x, time) <= max(state, abs(x)),
        state != abs(x) ==> abs(rc_step(state, x, time) - abs(x)) < abs(state - abs(x)),
{
    let a = rc_alpha(time);
    let m = abs(x);
    let one = ONE as int;
    assert(0 <= a <= one) by (nonlinear_arith)
        requires
            a == one / (time + 1),
            time >= 0,
            one == 65536,
    ;
    let lo = min(state, m);
    let hi = max(state, m);
    let t = state * (one - a) + m * a;
    assert(lo * one <= t <= hi * one) by (nonlinear_arith)
        requires
            0 <= a <= one,
            lo <= state <= hi,
            lo <= m <= hi,
            t == state * (one - a) + m * a,
    ;
    assert(lo <= (t + 32768) / one <= hi) by (nonlinear_arith)
        requires
            lo * one <= t <= hi * one,
            one == 65536,
    ;
    assert(rc_blend(state, x, time) == (t + 32768) / one);
}

/// Tracks the envelope of a signal with a one-pole low-pass filter over its
/// magnitude.
pub struct EnvelopeFollower {
    current_value: u32,
    time: u32,
}

impl EnvelopeFollower {
    /// The filtered magnitude, in Q16.16.
    pub closed spec fn value(&self) -> int {
        self.current_value as int
    }

    /// The time constant, in samples.
    pub closed spec fn time(&self) -> int {
        self.time as int
    }

    /// A silent follower with a time constant of fifty samples.
    pub fn new() -> (r: Self)
        ensures
            r.value() == 0,
            r.time() == 50,
    {
        EnvelopeFollower { current_value: 0, time: 50 }
    }

    /// Takes one sample in and returns the updated filtered magnitude.
    pub fn process(&mut self, input: i32) -> (r: u32)
        ensures
            final(self).time() == old(self).time(),
            final(self).value() == rc_step(old(self).value(), input as int, old(self).time()),
            min(old(self).value(), abs(input as int)) <= r <= max(
                old(self).value(),
                abs(input as int),
            ),
            r == final(self).value(),
    {
        let alpha: u64 = (ONE as u64) / (self.time as u64 + 1);
        let m = magnitude(input);
        proof {
            lemma_rc_output_bounded(self.current_value as int, input as int, self.time as int);
            assert(alpha <= ONE) by (nonlinear_arith)
                requires
                    alpha as int == 65536int / (self.time as int + 1),
            ;
            assert(self.current_value * (ONE - alpha) <= 0xffff_ffffu64 * 65536) by (nonlinear_arith)
                requires
                    alpha <= 65536,
                    self.current_value <= 0xffff_ffffu64,
            ;
            assert(m * alpha <= 0xffff_ffffu64 * 65536) by (nonlinear_arith)
                requires
                    alpha <= 65536,
                    m <= 0xffff_ffffu64,
            ;
        }
        let t: u64 = (self.current_value as u64) * ((ONE as u64) - alpha) + (m as u64) * alpha;
        let blend: u64 = (t + (ONE as u64) / 2) / (ONE as u64);
        let next: u64 = if blend == self.current_value as u64 && self.current_value < m {
            blend + 1
        } else if blend == self.current_value as u64 && self.current_value > m {
            blend - 1
        } else {
            blend
        };
        self.current_value = next as u32;
        self.current_value
    }

    /// Sets the time constant, in samples.
    pub fn update_time(&mut self, new_time: u32)
        ensures
            final(self).time() == new_time,
            final(self).value() == old(self).value(),
    {
        self.time = new_time;
    }

    /// Clears the filter state to zero.
    pub fn reset(&mut self)
        ensures
            final(self).time() == old(self).time(),
            final(self).value() == 0,
    {
        self.current_value = 0;
    }
}

} // verus!
