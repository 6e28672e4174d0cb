use vstd::prelude::*;

use crate::envelope::{average, slide, SimpleEnvelopeFollower};
use crate::fixed::{abs, magnitude, mul_fx, saturate, saturate_i128, scaled, trunc_div, ONE};

verus! {

/// The highest index the mode parameter can select.
pub const MAX_MODE: u32 = 7;

/// The rule that combines a primary sample with a sidechain sample.
#[derive(Clone, Copy, Debug, PartialEq, Eq, Structural)]
pub enum Mode {
    /// `primary * input_gain + sidechain * sidechain_gain`.
    Add,
    /// `(primary * input_gain) * (sidechain * sidechain_gain)`.
    Multiply,
    /// `(primary * input_gain) * (|sidechain| * sidechain_gain)`.
    AbsMultiply,
    /// `(primary * input_gain) % (sidechain * sidechain_gain)`; the primary
    /// sample passes unchanged when the divisor is zero.
    Modulo,
    /// `(primary * input_gain) * envelope(sidechain * sidechain_gain)`.
    EnvelopeModulate,
    /// The primary sample passes unchanged (the reserved indices).
    Passthrough,
}

/// The mode index selected by a smoothed mode value in Q16.16: the value is
/// truncated toward zero; a result outside `[0, MAX_MODE]`, below or above,
/// selects `MAX_MODE`, which passes the primary signal through.
pub open spec fn mode_index_of(value: int) -> int {
    let t = trunc_div(value, ONE as int);
    if 0 <= t <= MAX_MODE {
        t
    } else {
        MAX_MODE as int
    }
}

/// The mode an index selects.
pub open spec fn mode_of(index: int) -> Mode {
    if index == 0 {
        Mode::Add
    } else if index == 1 {
        Mode::Multiply
    } else if index == 2 {
        Mode::AbsMultiply
    } else if index == 3 {
        Mode::Modulo
    } else if index == 4 {
        Mode::EnvelopeModulate
    } else {
        Mode::Passthrough
    }
}

/// The remainder of `a` by `b` with the sign of `a`, as Rust's `%` gives it.
pub open spec fn trunc_rem(a: int, b: int) -> int {
    if a >= 0 {
        a % abs(b)
    } else {
        -((-a) % abs(b))
    }
}

/// What a mode makes of one primary and one sidechain sample, before the
/// output gain, given the envelope level `env` of the sidechain.
pub open spec fn combined(mode: Mode, p: int, s: int, ig: int, sg: int, env: int) -> int {
    match mode {
        Mode::Add => saturate(scaled(p, ig) + scaled(s, sg)),
        Mode::Multiply => scaled(scaled(p, ig), scaled(s, sg)),
        Mode::AbsMultiply => scaled(scaled(p, ig), scaled(abs(s), sg)),
        Mode::Modulo => if scaled(s, sg) == 0 {
            p
        } else {
            trunc_rem(scaled(p, ig), scaled(s, sg))
        },
        Mode::EnvelopeModulate => scaled(scaled(p, ig), env),
        Mode::Passthrough => p,
    }
}

/// The envelope window after a sample in a mode: only the envelope mode
/// feeds the follower, with the sidechain sample after its gain.
pub open spec fn window_after(mode: Mode, w: Seq<u32>, s: int, sg: int) -> Seq<u32> {
    if mode == Mode::EnvelopeModulate {
        slide(w, scaled(s, sg) as i32)
    } else {
        w
    }
}

/// Every smoothed mode value selects a defined mode: its truncation when that
/// lies in `[0, MAX_MODE]`, and otherwise the pass-through mode.
pub proof fn lemma_mode_always_defined(value: int)
    ensures
        0 <= mode_index_of(value) <= MAX_MODE,
        0 <= trunc_div(value, ONE as int) <= MAX_MODE ==> mode_index_of(value) == trunc_div(
            value,
            ONE as int,
        ),
        !(0 <= trunc_div(value, ONE as int) <= MAX_MODE) ==> mode_of(mode_index_of(value))
            == Mode::Passthrough,
{
}

/// Maps a smoothed mode value to a mode index in `[0, MAX_MODE]`.
pub fn mode_index(value: i32) -> (r: u32)
    ensures
        r == mode_index_of(value as int),
        r <= MAX_MODE,
{
    let t: i32 = if value >= 0 {
        value / ONE
    } else {
        -((-(value as i64)) / (ONE as i64)) as i32
    };
    if t < 0 || t > MAX_MODE as i32 {
        MAX_MODE
    } else {
        t as u32
    }
}

impl Mode {
    /// The mode an index selects; every index above the defined modes
    /// passes the primary signal through.
    pub fn from_index(index: u32) -> (r: Mode)
        ensures
            r == mode_of(index as int),
    {
        match index {
            0 => Mode::Add,
            1 => Mode::Multiply,
            2 => Mode::AbsMultiply,
            3 => Mode::Modulo,
            4 => Mode::EnvelopeModulate,
            _ => Mode::Passthrough,
        }
    }

    /// The mode a smoothed mode value selects.
    pub fn from_value(value: i32) -> (r: Mode)
        ensures
            r == mode_of(mode_index_of(value as int)),
    {
        Mode::from_index(mode_index(value))
    }
}

/// The remainder with the sign of the dividend; zero divisors excluded.
fn remainder(a: i32, b: i32) -> (r: i32)
    requires
        b != 0,
    ensures
        r == trunc_rem(a as int, b as int),
{
    let d: u32 = magnitude(b);
    let m: u32 = magnitude(a);
    let q: u32 = m % d;
    if a >= 0 {
        q as i32
    } else {
        -(q as i64) as i32
    }
}

/// Combines one primary sample with one sidechain sample under `mode`.
/// The envelope mode feeds the gained sidechain sample to `follower` and
/// uses its new level; every other mode leaves the follower as it was.
pub fn combine(
    mode: Mode,
    primary: i32,
    sidechain: i32,
    input_gain: i32,
    sidechain_gain: i32,
    follower: &mut SimpleEnvelopeFollower,
) -> (r: i32)
    requires
        old(follower).wf(),
    ensures
        final(follower).wf(),
        final(follower).size() == old(follower).size(),
        final(follower).window() == window_after(
            mode,
            old(follower).window(),
            sidechain as int,
            sidechain_gain as int,
        ),
        r == combined(
            mode,
            primary as int,
            sidechain as int,
            input_gain as int,
            sidechain_gain as int,
            average(final(follower).window()),
        ),
        mode == Mode::Modulo && scaled(sidechain as int, sidechain_gain as int) == 0 ==> r
            == primary,
{
    match mode {
        Mode::Add => {
            let a = mul_fx(primary as i64, input_gain as i64);
            let b = mul_fx(sidechain as i64, sidechain_gain as i64);
            saturate_i128(a as i128 + b as i128)
        },
        Mode::Multiply => {
            let a = mul_fx(primary as i64, input_gain as i64);
            let b = mul_fx(sidechain as i64, sidechain_gain as i64);
            mul_fx(a as i64, b as i64)
        },
        Mode::AbsMultiply => {
            let a = mul_fx(primary as i64, input_gain as i64);
            let b = mul_fx(magnitude(sidechain) as i64, sidechain_gain as i64);
            mul_fx(a as i64, b as i64)
        },
        Mode::Modulo => {
            let b = mul_fx(sidechain as i64, sidechain_gain as i64);
            if b == 0 {
                primary
            } else {
                let a = mul_fx(primary as i64, input_gain as i64);
                remainder(a, b)
            }
        },
        Mode::EnvelopeModulate => {
            let a = mul_fx(primary as i64, input_gain as i64);
            let b = mul_fx(sidechain as i64, sidechain_gain as i64);
            let env = follower.process(b);
            mul_fx(a as i64, env as i64)
        },
        Mode::Passthrough => primary,
    }
}

} // verus!
