use vstd::prelude::*;

use crate::fixed::{abs, div_toward_zero, lemma_fraction_between, trunc_div, ONE};

verus! {

/// How a parameter moves from its current value to a new target.
#[derive(Clone, Copy, Debug, PartialEq, Eq, Structural)]
pub enum SmoothingStyle {
    /// Jump to the target at once.
    Off,
    /// Move in equal steps, reaching the target after this many samples.
    Linear(u32),
    /// Cover a fixed share of the remaining distance per sample, with this
    /// time constant in samples; the target is reached after five time
    /// constants (plus one sample each).
    Exponential(u32),
}

/// What makes a configuration unusable.
#[derive(Clone, Copy, Debug, PartialEq, Eq, Structural)]
pub enum ConfigError {
    /// A smoothing duration or time constant of zero.
    NonPositiveTime,
    /// A sample rate of zero.
    NonPositiveSampleRate,
    /// A parameter range whose minimum lies above its maximum.
    EmptyRange,
}

/// The number of samples a change of target takes under a style.
pub open spec fn duration(style: SmoothingStyle) -> int {
    match style {
        SmoothingStyle::Off => 0,
        SmoothingStyle::Linear(n) => n as int,
        SmoothingStyle::Exponential(t) => 5 * (t + 1),
    }
}

/// Whether a style has a zero duration or time constant.
pub open spec fn zero_time(style: SmoothingStyle) -> bool {
    match style {
        SmoothingStyle::Off => false,
        SmoothingStyle::Linear(n) => n == 0,
        SmoothingStyle::Exponential(t) => t == 0,
    }
}

/// The share of the remaining distance that an exponential step covers, in
/// Q16.16: `1 / (t + 1)`, and never less than one raw unit.
pub open spec fn exp_rate(t: int) -> int {
    if ONE as int / (t + 1) == 0 {
        1
    } else {
        ONE as int / (t + 1)
    }
}

/// How far an exponential step moves when `d` remains to the target: the
/// share `rate` of `d`, rounded toward zero, but at least one raw unit
/// while the target is not reached.
pub open spec fn exp_move(d: int, rate: int) -> int {
    let q = trunc_div(d * rate, ONE as int);
    if q == 0 && d > 0 {
        1
    } else if q == 0 && d < 0 {
        -1
    } else {
        q
    }
}

pub open spec fn clamp(v: int, lo: int, hi: int) -> int {
    if v < lo {
        lo
    } else if v > hi {
        hi
    } else {
        v
    }
}

/// The smoothed cursor of one parameter with a range `[min, max]`. A
/// movement runs from `start` toward `target`; `current` is the value most
/// recently handed out and `steps_left` counts the steps until the target.
pub struct Smoother {
    pub style: SmoothingStyle,
    pub min: i32,
    pub max: i32,
    pub start: i32,
    pub current: i32,
    pub target: i32,
    pub steps_left: u64,
}

impl Smoother {
    pub open spec fn style(&self) -> SmoothingStyle {
        self.style
    }

    pub open spec fn min(&self) -> int {
        self.min as int
    }

    pub open spec fn max(&self) -> int {
        self.max as int
    }

    /// The value most recently handed out.
    pub open spec fn current(&self) -> int {
        self.current as int
    }

    /// The value the cursor is moving toward.
    pub open spec fn target(&self) -> int {
        self.target as int
    }

    /// The value the current movement started from.
    pub open spec fn start(&self) -> int {
        self.start as int
    }

    /// The number of steps until the target is reached.
    pub open spec fn steps_left(&self) -> int {
        self.steps_left as int
    }

    pub open spec fn wf(&self) -> bool {
        &&& self.min <= self.max
        &&& self.min <= self.start <= self.max
        &&& self.min <= self.current <= self.max
        &&& self.min <= self.target <= self.max
        &&& self.steps_left <= duration(self.style)
        &&& !zero_time(self.style)
    }

    /// The cursor after one step.
    pub open spec fn stepped(&self) -> Smoother {
        if self.steps_left <= 1 {
            Smoother { current: self.target, steps_left: 0, ..*self }
        } else {
            let left = (self.steps_left - 1) as u64;
            let value = match self.style {
                SmoothingStyle::Linear(n) => self.start + trunc_div(
                    (self.target - self.start) * (n - left),
                    n as int,
                ),
                SmoothingStyle::Exponential(t) => self.current + exp_move(
                    self.target - self.current,
                    exp_rate(t as int),
                ),
                SmoothingStyle::Off => self.target as int,
            };
            Smoother { current: value as i32, steps_left: left, ..*self }
        }
    }

    /// The cursor at rest on `v`, with its style and range kept.
    pub open spec fn resting(&self, v: i32) -> Smoother {
        Smoother { start: v, current: v, target: v, steps_left: 0, ..*self }
    }

    /// The cursor under another style, with any movement in progress
    /// shortened to fit its duration.
    pub open spec fn restyled(&self, style: SmoothingStyle) -> Smoother {
        Smoother {
            style,
            steps_left: if self.steps_left <= duration(style) {
                self.steps_left
            } else {
                duration(style) as u64
            },
            ..*self
        }
    }

    /// The cursor after `k` steps.
    pub open spec fn advanced(&self, k: nat) -> Smoother
        decreases k,
    {
        if k == 0 {
            *self
        } else {
            self.stepped().advanced((k - 1) as nat)
        }
    }

    /// A cursor resting at `value`, clamped into `[min, max]`.
    pub fn new(style: SmoothingStyle, min: i32, max: i32, value: i32) -> (r: Result<
        Smoother,
        ConfigError,
    >)
        ensures
            zero_time(style) ==> r == Err::<Smoother, ConfigError>(ConfigError::NonPositiveTime),
            !zero_time(style) && min > max ==> r == Err::<Smoother, ConfigError>(
                ConfigError::EmptyRange,
            ),
            !zero_time(style) && min <= max ==> r is Ok,
            r matches Ok(s) ==> {
                &&& s.wf()
                &&& s.style() == style
                &&& s.min() == min
                &&& s.max() == max
                &&& s.current() == clamp(value as int, min as int, max as int)
                &&& s.target() == s.current()
                &&& s.steps_left() == 0
            },
    {
        let zero = match style {
            SmoothingStyle::Off => false,
            SmoothingStyle::Linear(n) => n == 0,
            SmoothingStyle::Exponential(t) => t == 0,
        };
        if zero {
            return Err(ConfigError::NonPositiveTime);
        }
        if min > max {
            return Err(ConfigError::EmptyRange);
        }
        let v = if value < min {
            min
        } else if value > max {
            max
        } else {
            value
        };
        Ok(Smoother { style, min, max, start: v, current: v, target: v, steps_left: 0 })
    }

    /// Starts a movement from the current value toward `target`, clamped
    /// into the range.
    pub fn set_target(&mut self, target: i32)
        requires
            old(self).wf(),
        ensures
            final(self).wf(),
            final(self).style() == old(self).style(),
            final(self).min() == old(self).min(),
            final(self).max() == old(self).max(),
            final(self).current() == old(self).current(),
            final(self).start() == old(self).current(),
            final(self).target() == clamp(target as int, old(self).min(), old(self).max()),
            final(self).steps_left() == duration(old(self).style()),
    {
        let t = if target < self.min {
            self.min
        } else if target > self.max {
            self.max
        } else {
            target
        };
        self.start = self.current;
        self.target = t;
        self.steps_left = match self.style {
            SmoothingStyle::Off => 0,
            SmoothingStyle::Linear(n) => n as u64,
            SmoothingStyle::Exponential(t) => 5 * (t as u64 + 1),
        };
    }

    /// Changes the smoothing style; a zero duration or time constant is
    /// refused and leaves the cursor as it was.
    pub fn set_style(&mut self, style: SmoothingStyle) -> (r: Result<(), ConfigError>)
        requires
            old(self).wf(),
        ensures
            final(self).wf(),
            zero_time(style) ==> r == Err::<(), ConfigError>(ConfigError::NonPositiveTime)
                && *final(self) == *old(self),
            !zero_time(style) ==> r is Ok && *final(self) == old(self).restyled(style),
    {
        let (zero, steps): (bool, u64) = match style {
            SmoothingStyle::Off => (false, 0),
            SmoothingStyle::Linear(n) => (n == 0, n as u64),
            SmoothingStyle::Exponential(t) => (t == 0, 5 * (t as u64 + 1)),
        };
        if zero {
            return Err(ConfigError::NonPositiveTime);
        }
        self.style = style;
        if self.steps_left > steps {
            self.steps_left = steps;
        }
        Ok(())
    }

    /// Places the cursor at rest on `value`, clamped into the range.
    pub fn reset(&mut self, value: i32)
        requires
            old(self).wf(),
        ensures
            final(self).wf(),
            *final(self) == old(self).resting(clamp(value as int, old(self).min(), old(self).max()) as i32),
    {
        let v = if value < self.min {
            self.min
        } else if value > self.max {
            self.max
        } else {
            value
        };
        self.start = v;
        self.current = v;
        self.target = v;
        self.steps_left = 0;
    }

    /// The value the cursor is moving toward.
    pub fn target_value(&self) -> (r: i32)
        requires
            self.wf(),
        ensures
            r == self.target(),
            self.min() <= r <= self.max(),
    {
        self.target
    }

    /// The value most recently handed out.
    pub fn current_value(&self) -> (r: i32)
        requires
            self.wf(),
        ensures
            r == self.current(),
            self.min() <= r <= self.max(),
    {
        self.current
    }

    /// Advances the cursor by one sample and returns the new value.
    pub fn next(&mut self) -> (r: i32)
        requires
            old(self).wf(),
        ensures
            final(self).wf(),
            *final(self) == old(self).stepped(),
            final(self).style() == old(self).style(),
            final(self).min() == old(self).min(),
            final(self).max() == old(self).max(),
            final(self).target() == old(self).target(),
            r == final(self).current(),
    {
        if self.steps_left <= 1 {
            self.current = self.target;
            self.steps_left = 0;
            return self.current;
        }
        let left: u64 = self.steps_left - 1;
        let value: i32 = match self.style {
            SmoothingStyle::Linear(n) => {
                let span: i128 = (self.target as i128) - (self.start as i128);
                let done: i128 = (n as i128) - (left as i128);
                proof {
                    lemma_fraction_between(span as int, done as int, n as int);
                    assert(span * done <= 0x1_0000_0000 * 0x1_0000_0000) by (nonlinear_arith)
                        requires
                            -0x1_0000_0000 <= span <= 0x1_0000_0000,
                            0 <= done <= 0x1_0000_0000,
                    ;
                    assert(span * done >= -0x1_0000_0000 * 0x1_0000_0000) by (nonlinear_arith)
                        requires
                            -0x1_0000_0000 <= span <= 0x1_0000_0000,
                            0 <= done <= 0x1_0000_0000,
                    ;
                }
                let q = div_toward_zero(span * done, n as i128);
                (self.start as i128 + q) as i32
            },
            SmoothingStyle::Exponential(t) => {
                let span: i128 = (self.target as i128) - (self.current as i128);
                let quot: i128 = (ONE as i128) / (t as i128 + 1);
                let rate: i128 = if quot == 0 {
                    1
                } else {
                    quot
                };
                proof {
                    assert(quot <= ONE) by (nonlinear_arith)
                        requires
                            quot as int == 65536int / (t as int + 1),
                    ;
                    lemma_fraction_between(span as int, rate as int, ONE as int);
                    assert(span * rate <= 0x1_0000_0000 * 0x1_0000) by (nonlinear_arith)
                        requires
                            -0x1_0000_0000 <= span <= 0x1_0000_0000,
                            0 <= rate <= 0x1_0000,
                    ;
                    assert(span * rate >= -0x1_0000_0000 * 0x1_0000) by (nonlinear_arith)
                        requires
                            -0x1_0000_0000 <= span <= 0x1_0000_0000,
                            0 <= rate <= 0x1_0000,
                    ;
                }
                let q0 = div_toward_zero(span * rate, ONE as i128);
                let q: i128 = if q0 == 0 && span > 0 {
                    1
                } else if q0 == 0 && span < 0 {
                    -1
                } else {
                    q0
                };
                (self.current as i128 + q) as i32
            },
            SmoothingStyle::Off => self.target,
        };
        self.current = value;
        self.steps_left = left;
        value
    }
}

/// Once a movement has started, the cursor holds exactly its target after
/// `steps_left` more steps (at least one), and at every later step. A new
/// target therefore is reached after `duration(style)` samples: exactly the
/// set duration for the linear law, five time constants (plus one sample
/// each) for the exponential one, and at the first sample when smoothing is
/// off.
pub proof fn lemma_reaches_target(s: Smoother, k: nat)
    requires
        k >= 1,
        k >= s.steps_left(),
    ensures
        s.advanced(k).current() == s.target(),
        s.advanced(k).target() == s.target(),
        s.advanced(k).steps_left() == 0,
    decreases k,
{
    if k > 1 {
        lemma_reaches_target(s.stepped(), (k - 1) as nat);
    } else {
        assert(s.advanced(1) == s.stepped().advanced(0));
    }
}

/// Stepping after `k` steps is taking `k + 1` steps.
pub proof fn lemma_advanced_succ(s: Smoother, k: nat)
    ensures
        s.advanced(k).stepped() == s.advanced(k + 1),
    decreases k,
{
    reveal_with_fuel(Smoother::advanced, 2);
    if k > 0 {
        lemma_advanced_succ(s.stepped(), (k - 1) as nat);
    }
}

proof fn lemma_stepped_wf(s: Smoother)
    requires
        s.wf(),
    ensures
        s.stepped().wf(),
        s.stepped().min == s.min,
        s.stepped().max == s.max,
        s.stepped().target == s.target,
{
    if s.steps_left > 1 {
        let left = (s.steps_left - 1) as u64;
        match s.style {
            SmoothingStyle::Linear(n) => {
                lemma_fraction_between(s.target - s.start, n - left, n as int);
            },
            SmoothingStyle::Exponential(t) => {
                assert(ONE as int / (t + 1) <= ONE) by (nonlinear_arith)
                    requires
                        t >= 0,
                ;
                lemma_fraction_between(s.target - s.current, exp_rate(t as int), ONE as int);
                lemma_exp_move_between(s.target - s.current, exp_rate(t as int));
            },
            SmoothingStyle::Off => {},
        }
    }
}

/// A parameter never leaves its range: however many steps a well-formed
/// cursor takes, it stays well-formed, with its value within `[min, max]`.
pub proof fn lemma_stays_in_range(s: Smoother, k: nat)
    requires
        s.wf(),
    ensures
        s.advanced(k).wf(),
        s.min() <= s.advanced(k).current() <= s.max(),
        s.advanced(k).min == s.min,
        s.advanced(k).max == s.max,
    decreases k,
{
    if k > 0 {
        lemma_stepped_wf(s);
        lemma_stays_in_range(s.stepped(), (k - 1) as nat);
    }
}

proof fn lemma_exp_move_between(d: int, rate: int)
    requires
        0 <= rate <= ONE,
    ensures
        d > 0 ==> 1 <= exp_move(d, rate) <= d,
        d < 0 ==> d <= exp_move(d, rate) <= -1,
        d == 0 ==> exp_move(d, rate) == 0,
{
    lemma_fraction_between(d, rate, ONE as int);
    if d == 0 {
        assert(d * rate == 0);
    }
}

/// Each exponential step that does not end a movement brings the cursor
/// strictly closer to its target, by at least one raw unit and by at least
/// the share `exp_rate(t)` of the remaining distance, and never past it.
pub proof fn lemma_exponential_progress(s: Smoother, t: u32)
    requires
        s.wf(),
        s.style == SmoothingStyle::Exponential(t),
        s.steps_left > 1,
    ensures
        s.target != s.current ==> abs(s.target - s.stepped().current) < abs(
            s.target - s.current,
        ),
        abs(s.target - s.stepped().current) <= abs(s.target - s.current),
        abs(s.stepped().current - s.current) >= abs(
            trunc_div((s.target - s.current) * exp_rate(t as int), ONE as int),
        ),
{
    lemma_stepped_wf(s);
    let d = s.target - s.current;
    assert(ONE as int / (t + 1) <= ONE) by (nonlinear_arith)
        requires
            t >= 0,
    ;
    lemma_exp_move_between(d, exp_rate(t as int));
}

} // verus!
