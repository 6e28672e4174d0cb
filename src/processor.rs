use vstd::prelude::*;

use crate::combiner::{combine, combined, mode_index_of, mode_of, window_after, Mode, MAX_MODE};
use crate::envelope::{average, silence, SimpleEnvelopeFollower};
use vstd::pervasive::VecAdditionalExecFns;
use crate::fixed::{mul_fx, scaled, ONE};
use crate::smoother::{lemma_advanced_succ, lemma_reaches_target, ConfigError, Smoother, SmoothingStyle};

verus! {

/// The lowest gain a gain parameter takes, -30 dB in Q16.16.
pub const MIN_GAIN: i32 = 2072;

/// The highest gain a gain parameter takes, +30 dB in Q16.16.
pub const MAX_GAIN: i32 = 2072430;

/// The shortest envelope window, in samples.
pub const MIN_WINDOW: i32 = 5;

/// The longest envelope window, in samples.
pub const MAX_WINDOW: i32 = 1000;

/// The envelope window a new instance starts with, in samples.
pub const DEFAULT_WINDOW: i32 = 10;

/// What a block leaves the host to do.
#[derive(Clone, Copy, Debug, PartialEq, Eq, Structural)]
pub enum ProcessStatus {
    /// Go on with the next block.
    Normal,
    /// Stop the stream.
    Error,
}

/// The parameter values that hold for one frame.
#[derive(Clone, Copy, Debug, PartialEq, Eq, Structural)]
pub struct FrameValues {
    pub mode: Mode,
    pub input_gain: i32,
    pub sidechain_gain: i32,
    pub output_gain: i32,
}

/// The parameters of the engine. Gains are linear amplitudes in Q16.16,
/// the mode is an index in Q16.16, and the envelope window is a number of
/// samples.
pub struct SideboxParams {
    pub input_gain: Smoother,
    pub sidechain_input_gain: Smoother,
    pub output_gain: Smoother,
    pub envelope_follower_smoothing: Smoother,
    pub mode: Smoother,
}

/// The time constant of the gain smoothers at a sample rate: ten
/// milliseconds, so that a change settles in about fifty.
pub open spec fn gain_time(sample_rate: int) -> int {
    sample_rate / 100 + 1
}

/// The values a frame uses, read from the parameters once they have been
/// advanced for that frame.
pub open spec fn frame_values(p: SideboxParams) -> FrameValues {
    FrameValues {
        mode: mode_of(mode_index_of(p.mode.current())),
        input_gain: p.input_gain.current() as i32,
        sidechain_gain: p.sidechain_input_gain.current() as i32,
        output_gain: p.output_gain.current() as i32,
    }
}

/// Whether parameters hold their defaults for a sample rate: unity gains
/// within -30 dB to +30 dB, smoothed exponentially with the time constant
/// `gain_time`; mode 0 within `[0, MAX_MODE]`, unsmoothed; a window of ten
/// samples within five to a thousand.
pub open spec fn is_default(p: SideboxParams, sample_rate: int) -> bool {
    let gain_style = SmoothingStyle::Exponential(gain_time(sample_rate) as u32);
    &&& p.input_gain.style() == gain_style
    &&& p.sidechain_input_gain.style() == gain_style
    &&& p.output_gain.style() == gain_style
    &&& p.input_gain.min() == MIN_GAIN && p.input_gain.max() == MAX_GAIN
    &&& p.sidechain_input_gain.min() == MIN_GAIN && p.sidechain_input_gain.max() == MAX_GAIN
    &&& p.output_gain.min() == MIN_GAIN && p.output_gain.max() == MAX_GAIN
    &&& p.input_gain.current() == ONE && p.input_gain.target() == ONE
    &&& p.sidechain_input_gain.current() == ONE && p.sidechain_input_gain.target() == ONE
    &&& p.output_gain.current() == ONE && p.output_gain.target() == ONE
    &&& p.mode.style() == SmoothingStyle::Off
    &&& p.mode.min() == 0 && p.mode.max() == MAX_MODE * ONE
    &&& p.mode.current() == 0 && p.mode.target() == 0
    &&& p.envelope_follower_smoothing.style() == SmoothingStyle::Off
    &&& p.envelope_follower_smoothing.current() == DEFAULT_WINDOW
    &&& p.envelope_follower_smoothing.target() == DEFAULT_WINDOW
}

impl SideboxParams {
    pub open spec fn wf(&self) -> bool {
        &&& self.input_gain.wf()
        &&& self.sidechain_input_gain.wf()
        &&& self.output_gain.wf()
        &&& self.envelope_follower_smoothing.wf()
        &&& self.mode.wf()
        &&& self.envelope_follower_smoothing.min() == MIN_WINDOW
        &&& self.envelope_follower_smoothing.max() == MAX_WINDOW
    }

    /// Every parameter at rest on its target, with styles and ranges kept.
    pub open spec fn rested(&self) -> SideboxParams {
        SideboxParams {
            input_gain: self.input_gain.resting(self.input_gain.target),
            sidechain_input_gain: self.sidechain_input_gain.resting(
                self.sidechain_input_gain.target,
            ),
            output_gain: self.output_gain.resting(self.output_gain.target),
            envelope_follower_smoothing: self.envelope_follower_smoothing.resting(
                self.envelope_follower_smoothing.target,
            ),
            mode: self.mode.resting(self.mode.target),
        }
    }

    /// The parameters with the gain smoothers set up for a sample rate.
    pub open spec fn for_rate(&self, sample_rate: int) -> SideboxParams {
        let style = SmoothingStyle::Exponential(gain_time(sample_rate) as u32);
        SideboxParams {
            input_gain: self.input_gain.restyled(style),
            sidechain_input_gain: self.sidechain_input_gain.restyled(style),
            output_gain: self.output_gain.restyled(style),
            ..*self
        }
    }

    /// Every parameter after `k` steps.
    pub open spec fn advanced(&self, k: nat) -> SideboxParams {
        SideboxParams {
            input_gain: self.input_gain.advanced(k),
            sidechain_input_gain: self.sidechain_input_gain.advanced(k),
            output_gain: self.output_gain.advanced(k),
            envelope_follower_smoothing: self.envelope_follower_smoothing.advanced(k),
            mode: self.mode.advanced(k),
        }
    }

    /// The parameters at their defaults for a sample rate.
    pub fn new(sample_rate: u32) -> (r: Result<SideboxParams, ConfigError>)
        ensures
            sample_rate == 0 <==> r == Err::<SideboxParams, ConfigError>(
                ConfigError::NonPositiveSampleRate,
            ),
            sample_rate > 0 ==> r is Ok,
            r matches Ok(p) ==> p.wf() && is_default(p, sample_rate as int),
    {
        if sample_rate == 0 {
            return Err(ConfigError::NonPositiveSampleRate);
        }
        let gain_style = SmoothingStyle::Exponential(sample_rate / 100 + 1);
        let input_gain = match Smoother::new(gain_style, MIN_GAIN, MAX_GAIN, ONE) {
            Ok(s) => s,
            Err(e) => return Err(e),
        };
        let sidechain_input_gain = match Smoother::new(gain_style, MIN_GAIN, MAX_GAIN, ONE) {
            Ok(s) => s,
            Err(e) => return Err(e),
        };
        let output_gain = match Smoother::new(gain_style, MIN_GAIN, MAX_GAIN, ONE) {
            Ok(s) => s,
            Err(e) => return Err(e),
        };
        let envelope_follower_smoothing = match Smoother::new(
            SmoothingStyle::Off,
            MIN_WINDOW,
            MAX_WINDOW,
            DEFAULT_WINDOW,
        ) {
            Ok(s) => s,
            Err(e) => return Err(e),
        };
        let mode = match Smoother::new(SmoothingStyle::Off, 0, (MAX_MODE as i32) * ONE, 0) {
            Ok(s) => s,
            Err(e) => return Err(e),
        };
        Ok(SideboxParams {
            input_gain,
            sidechain_input_gain,
            output_gain,
            envelope_follower_smoothing,
            mode,
        })
    }

    /// Advances every parameter exactly once and returns the frame's values.
    pub fn next_frame(&mut self) -> (r: FrameValues)
        requires
            old(self).wf(),
        ensures
            final(self).wf(),
            *final(self) == old(self).advanced(1),
            r == frame_values(*final(self)),
    {
        let mode_value = self.mode.next();
        let output_gain = self.output_gain.next();
        let input_gain = self.input_gain.next();
        let sidechain_gain = self.sidechain_input_gain.next();
        self.envelope_follower_smoothing.next();
        proof {
            reveal_with_fuel(Smoother::advanced, 2);
        }
        FrameValues { mode: Mode::from_value(mode_value), input_gain, sidechain_gain, output_gain }
    }

    /// Brings every parameter to rest on its target.
    pub fn reset(&mut self)
        requires
            old(self).wf(),
        ensures
            final(self).wf(),
            *final(self) == old(self).rested(),
    {
        let t = self.input_gain.target_value();
        self.input_gain.reset(t);
        let t = self.sidechain_input_gain.target_value();
        self.sidechain_input_gain.reset(t);
        let t = self.output_gain.target_value();
        self.output_gain.reset(t);
        let t = self.envelope_follower_smoothing.target_value();
        self.envelope_follower_smoothing.reset(t);
        let t = self.mode.target_value();
        self.mode.reset(t);
    }
}

/// The number of frames of a block: the length of its first channel.
pub open spec fn frames_of(b: Seq<Vec<i32>>) -> int {
    if b.len() == 0 {
        0
    } else {
        b[0]@.len() as int
    }
}

/// Whether every channel of a block holds `frames` samples.
pub open spec fn rectangular(b: Seq<Vec<i32>>, frames: int) -> bool {
    forall|c: int| 0 <= c < b.len() ==> #[trigger] b[c]@.len() == frames
}

/// Whether a primary and an auxiliary block can be processed together by
/// an engine with `channels` envelope followers: same channel count, and
/// every channel of both as long as the first primary one.
pub open spec fn shapes_match(main: Seq<Vec<i32>>, aux: Seq<Vec<i32>>, channels: int) -> bool {
    &&& main.len() == channels
    &&& aux.len() == channels
    &&& rectangular(main, frames_of(main))
    &&& rectangular(aux, frames_of(main))
}

/// The envelope window of one channel after `f` frames, starting from
/// `w0` with the parameters `p`, fed by the sidechain samples `side`.
pub open spec fn window_at(p: SideboxParams, w0: Seq<u32>, side: Seq<i32>, f: nat) -> Seq<u32>
    decreases f,
{
    if f == 0 {
        w0
    } else {
        let v = frame_values(p.advanced(f));
        window_after(
            v.mode,
            window_at(p, w0, side, (f - 1) as nat),
            side[f - 1] as int,
            v.sidechain_gain as int,
        )
    }
}

/// The output sample of one channel at frame `f`: the frame's mode applied
/// to the primary and sidechain samples, then the output gain.
pub open spec fn output_at(
    p: SideboxParams,
    w0: Seq<u32>,
    prim: Seq<i32>,
    side: Seq<i32>,
    f: int,
) -> int {
    let v = frame_values(p.advanced((f + 1) as nat));
    scaled(
        combined(
            v.mode,
            prim[f] as int,
            side[f] as int,
            v.input_gain as int,
            v.sidechain_gain as int,
            average(window_at(p, w0, side, (f + 1) as nat)),
        ),
        v.output_gain as int,
    )
}

/// Within a block, every frame from the one at which a gain movement ends
/// uses exactly that gain's target: frame `f` (counted from zero) applies
/// the parameters advanced `f + 1` times, and a smoother holds its target
/// once its remaining steps are taken.
pub proof fn lemma_block_gains_settle(p: SideboxParams, f: nat)
    requires
        p.wf(),
    ensures
        f + 1 >= p.input_gain.steps_left() ==> frame_values(p.advanced(f + 1)).input_gain
            == p.input_gain.target(),
        f + 1 >= p.sidechain_input_gain.steps_left() ==> frame_values(
            p.advanced(f + 1),
        ).sidechain_gain == p.sidechain_input_gain.target(),
        f + 1 >= p.output_gain.steps_left() ==> frame_values(p.advanced(f + 1)).output_gain
            == p.output_gain.target(),
{
    if f + 1 >= p.input_gain.steps_left() {
        lemma_reaches_target(p.input_gain, f + 1);
    }
    if f + 1 >= p.sidechain_input_gain.steps_left() {
        lemma_reaches_target(p.sidechain_input_gain, f + 1);
    }
    if f + 1 >= p.output_gain.steps_left() {
        lemma_reaches_target(p.output_gain, f + 1);
    }
}

proof fn lemma_params_succ(p: SideboxParams, k: nat)
    ensures
        p.advanced(k).advanced(1) == p.advanced(k + 1),
{
    reveal_with_fuel(Smoother::advanced, 2);
    lemma_advanced_succ(p.input_gain, k);
    lemma_advanced_succ(p.sidechain_input_gain, k);
    lemma_advanced_succ(p.output_gain, k);
    lemma_advanced_succ(p.envelope_follower_smoothing, k);
    lemma_advanced_succ(p.mode, k);
}

/// Whether two blocks have matching shapes for `channels` followers.
pub fn shapes_ok(main: &Vec<Vec<i32>>, aux: &Vec<Vec<i32>>, channels: usize) -> (r: bool)
    ensures
        r == shapes_match(main@, aux@, channels as int),
{
    if main.len() != channels || aux.len() != channels {
        return false;
    }
    if channels == 0 {
        return true;
    }
    let frames = main[0].len();
    let mut c: usize = 0;
    while c < channels
        invariant
            main@.len() == channels,
            aux@.len() == channels,
            channels > 0,
            frames == frames_of(main@),
            0 <= c <= channels,
            forall|d: int| 0 <= d < c ==> #[trigger] main@[d]@.len() == frames,
            forall|d: int| 0 <= d < c ==> #[trigger] aux@[d]@.len() == frames,
        decreases channels - c,
    {
        if main[c].len() != frames || aux[c].len() != frames {
            return false;
        }
        c = c + 1;
    }
    true
}

/// The sidechain combination engine: parameters, and one envelope follower
/// per channel.
pub struct Sidebox {
    pub params: SideboxParams,
    pub followers: Vec<SimpleEnvelopeFollower>,
}

impl Sidebox {
    /// The envelope followers, one per channel.
    pub open spec fn followers(&self) -> Seq<SimpleEnvelopeFollower> {
        self.followers@
    }

    pub open spec fn wf(&self) -> bool {
        &&& self.params.wf()
        &&& forall|c: int| 0 <= c < self.followers().len() ==> #[trigger] self.followers()[c].wf()
    }

    /// An engine with default parameters for a sample rate and no channels
    /// yet.
    pub fn new(sample_rate: u32) -> (r: Result<Sidebox, ConfigError>)
        ensures
            sample_rate == 0 <==> r == Err::<Sidebox, ConfigError>(
                ConfigError::NonPositiveSampleRate,
            ),
            sample_rate > 0 ==> r is Ok,
            r matches Ok(s) ==> {
                &&& s.wf()
                &&& s.followers().len() == 0
                &&& is_default(s.params, sample_rate as int)
            },
    {
        match SideboxParams::new(sample_rate) {
            Ok(params) => Ok(Sidebox { params, followers: Vec::new() }),
            Err(e) => Err(e),
        }
    }

    /// Prepares the engine for a stream: sets up the gain smoothers for the
    /// sample rate and makes one silent envelope follower per channel, each
    /// with the window that the window parameter holds now. A sample rate of
    /// zero is refused and changes nothing; every other configuration
    /// succeeds, as well-formed parameters have no zero time constant and a
    /// window of at least `MIN_WINDOW` samples.
    pub fn initialize(&mut self, sample_rate: u32, channels: usize) -> (r: Result<(), ConfigError>)
        requires
            old(self).wf(),
        ensures
            final(self).wf(),
            sample_rate == 0 <==> r == Err::<(), ConfigError>(ConfigError::NonPositiveSampleRate),
            sample_rate > 0 <==> r is Ok,
            r is Err ==> *final(self) == *old(self),
            r is Ok ==> {
                &&& final(self).params == old(self).params.for_rate(sample_rate as int)
                &&& final(self).followers().len() == channels
                &&& forall|c: int|
                    0 <= c < channels ==> {
                        &&& #[trigger] final(self).followers()[c].size()
                            == old(self).params.envelope_follower_smoothing.current()
                        &&& final(self).followers()[c].window() == silence(
                            old(self).params.envelope_follower_smoothing.current() as nat,
                        )
                    }
            },
    {
        if sample_rate == 0 {
            return Err(ConfigError::NonPositiveSampleRate);
        }
        let style = SmoothingStyle::Exponential(sample_rate / 100 + 1);
        match self.params.input_gain.set_style(style) {
            Ok(()) => {},
            Err(e) => return Err(e),
        }
        match self.params.sidechain_input_gain.set_style(style) {
            Ok(()) => {},
            Err(e) => return Err(e),
        }
        match self.params.output_gain.set_style(style) {
            Ok(()) => {},
            Err(e) => return Err(e),
        }
        let size = self.params.envelope_follower_smoothing.current_value();
        let mut followers: Vec<SimpleEnvelopeFollower> = Vec::with_capacity(channels);
        let mut c: usize = 0;
        while c < channels
            invariant
                0 <= c <= channels,
                size >= MIN_WINDOW,
                size == self.params.envelope_follower_smoothing.current(),
                followers@.len() == c,
                forall|d: int|
                    0 <= d < c ==> {
                        &&& (#[trigger] followers@[d]).wf()
                        &&& followers@[d].size() == size
                        &&& followers@[d].window() == silence(size as nat)
                    },
            decreases channels - c,
        {
            followers.push(SimpleEnvelopeFollower::new(size));
            c = c + 1;
        }
        self.followers = followers;
        Ok(())
    }

    /// Clears the history of the stream: every envelope window falls
    /// silent and every parameter comes to rest on its target.
    pub fn reset(&mut self)
        requires
            old(self).wf(),
        ensures
            final(self).wf(),
            final(self).params == old(self).params.rested(),
            final(self).followers().len() == old(self).followers().len(),
            forall|c: int|
                0 <= c < old(self).followers().len() ==> {
                    &&& #[trigger] final(self).followers()[c].size()
                        == old(self).followers()[c].size()
                    &&& final(self).followers()[c].window() == silence(
                        old(self).followers()[c].size() as nat,
                    )
                },
    {
        self.params.reset();
        let n = self.followers.len();
        let ghost before = self.followers@;
        let ghost params = self.params;
        proof {
            assert forall|d: int| 0 <= d < n implies (#[trigger] before[d]).wf() by {
                assert(before[d] == old(self).followers()[d]);
            }
        }
        let mut slot = SimpleEnvelopeFollower::vacant();
        let mut c: usize = 0;
        while c < n
            invariant
                0 <= c <= n,
                n == before.len(),
                self.params == params,
                self.params.wf(),
                self.followers@.len() == n,
                forall|d: int| 0 <= d < n ==> (#[trigger] before[d]).wf(),
                forall|d: int|
                    0 <= d < c ==> {
                        &&& (#[trigger] self.followers@[d]).wf()
                        &&& self.followers@[d].size() == before[d].size()
                        &&& self.followers@[d].window() == silence(before[d].size() as nat)
                    },
                forall|d: int| c <= d < n ==> #[trigger] self.followers@[d] == before[d],
            decreases n - c,
        {
            self.followers.set_and_swap(c, &mut slot);
            slot.reset();
            self.followers.set_and_swap(c, &mut slot);
            c = c + 1;
        }
    }

    /// Processes one block in place. When the blocks' shapes match the
    /// followers, each frame in order advances every parameter once and
    /// then, for each channel, writes the combined sample times the output
    /// gain over the primary sample. Otherwise the block passes through
    /// untouched. The host always goes on.
    pub fn process(&mut self, main: &mut Vec<Vec<i32>>, aux: &Vec<Vec<i32>>) -> (r: ProcessStatus)
        requires
            old(self).wf(),
        ensures
            r == ProcessStatus::Normal,
            final(self).wf(),
            !shapes_match(old(main)@, aux@, old(self).followers().len() as int) ==> {
                &&& *final(main) == *old(main)
                &&& *final(self) == *old(self)
            },
            shapes_match(old(main)@, aux@, old(self).followers().len() as int) ==> {
                let frames = frames_of(old(main)@);
                &&& final(main)@.len() == old(main)@.len()
                &&& forall|c: int|
                    0 <= c < final(main)@.len() ==> (#[trigger] final(main)@[c])@.len() == frames
                &&& forall|c: int, f: int|
                    0 <= c < final(main)@.len() && 0 <= f < frames ==> (#[trigger] final(main)@[c]@[f]) == output_at(
                        old(self).params,
                        old(self).followers()[c].window(),
                        old(main)@[c]@,
                        aux@[c]@,
                        f,
                    )
                &&& final(self).params == old(self).params.advanced(frames as nat)
                &&& final(self).followers().len() == old(self).followers().len()
                &&& forall|c: int|
                    0 <= c < final(self).followers().len() ==> {
                        &&& (#[trigger] final(self).followers()[c]).size()
                            == old(self).followers()[c].size()
                        &&& final(self).followers()[c].window() == window_at(
                            old(self).params,
                            old(self).followers()[c].window(),
                            aux@[c]@,
                            frames as nat,
                        )
                    }
            },
    {
        let channels = self.followers.len();
        if !shapes_ok(main, aux, channels) {
            return ProcessStatus::Normal;
        }
        let frames: usize = if channels == 0 {
            0
        } else {
            main[0].len()
        };
        let ghost initial_params = self.params;
        let ghost initial_main = main@;
        let ghost initial_followers = self.followers@;
        let mut slot = SimpleEnvelopeFollower::vacant();
        let mut row: Vec<i32> = Vec::new();
        let mut f: usize = 0;
        while f < frames
            invariant
                0 <= f <= frames,
                frames == frames_of(initial_main),
                shapes_match(initial_main, aux@, channels as int),
                initial_followers.len() == channels,
                forall|c: int| 0 <= c < channels ==> (#[trigger] initial_followers[c]).wf(),
                self.params.wf(),
                self.params == initial_params.advanced(f as nat),
                self.followers@.len() == channels,
                forall|c: int|
                    0 <= c < channels ==> {
                        &&& (#[trigger] self.followers@[c]).wf()
                        &&& self.followers@[c].size() == initial_followers[c].size()
                        &&& self.followers@[c].window() == window_at(
                            initial_params,
                            initial_followers[c].window(),
                            aux@[c]@,
                            f as nat,
                        )
                    },
                main@.len() == channels,
                forall|c: int| 0 <= c < channels ==> (#[trigger] main@[c])@.len() == frames,
                forall|c: int, g: int|
                    0 <= c < channels && 0 <= g < f ==> (#[trigger] main@[c]@[g]) == output_at(
                        initial_params,
                        initial_followers[c].window(),
                        initial_main[c]@,
                        aux@[c]@,
                        g,
                    ),
                forall|c: int, g: int|
                    0 <= c < channels && f <= g < frames ==> (#[trigger] main@[c]@[g])
                        == initial_main[c]@[g],
            decreases frames - f,
        {
            proof {
                lemma_params_succ(initial_params, f as nat);
            }
            let v = self.params.next_frame();
            let mut c: usize = 0;
            while c < channels
                invariant
                    0 <= c <= channels,
                    0 <= f < frames,
                    frames == frames_of(initial_main),
                    shapes_match(initial_main, aux@, channels as int),
                    initial_followers.len() == channels,
                    forall|d: int| 0 <= d < channels ==> (#[trigger] initial_followers[d]).wf(),
                    self.params.wf(),
                    self.params == initial_params.advanced((f + 1) as nat),
                    v == frame_values(initial_params.advanced((f + 1) as nat)),
                    self.followers@.len() == channels,
                    forall|d: int|
                        0 <= d < channels ==> {
                            &&& (#[trigger] self.followers@[d]).wf()
                            &&& self.followers@[d].size() == initial_followers[d].size()
                            &&& self.followers@[d].window() == window_at(
                                initial_params,
                                initial_followers[d].window(),
                                aux@[d]@,
                                if d < c {
                                    (f + 1) as nat
                                } else {
                                    f as nat
                                },
                            )
                        },
                    main@.len() == channels,
                    forall|d: int| 0 <= d < channels ==> (#[trigger] main@[d])@.len() == frames,
                    forall|d: int, g: int|
                        0 <= d < channels && (0 <= g < f || (g == f && d < c)) ==> (
                        #[trigger] main@[d]@[g]) == output_at(
                            initial_params,
                            initial_followers[d].window(),
                            initial_main[d]@,
                            aux@[d]@,
                            g,
                        ),
                    forall|d: int, g: int|
                        0 <= d < channels && f <= g < frames && !(g == f && d < c) ==> (
                        #[trigger] main@[d]@[g]) == initial_main[d]@[g],
                decreases channels - c,
            {
                let ghost main_before = main@;
                let ghost fol_before = self.followers@;
                self.followers.set_and_swap(c, &mut slot);
                main.set_and_swap(c, &mut row);
                proof {
                    assert(aux@[c as int]@.len() == frames);
                    assert(row@ == main_before[c as int]@);
                }
                let x = row[f];
                let s = aux[c][f];
                let combined = combine(
                    v.mode,
                    x,
                    s,
                    v.input_gain,
                    v.sidechain_gain,
                    &mut slot,
                );
                let y = mul_fx(combined as i64, v.output_gain as i64);
                row.set(f, y);
                let ghost updated = row@;
                main.set_and_swap(c, &mut row);
                self.followers.set_and_swap(c, &mut slot);
                proof {
                    assert(x == initial_main[c as int]@[f as int]);
                    assert(window_at(initial_params, initial_followers[c as int].window(), aux@[c as int]@, (f + 1) as nat)
                        == window_after(
                        v.mode,
                        window_at(initial_params, initial_followers[c as int].window(), aux@[c as int]@, f as nat),
                        s as int,
                        v.sidechain_gain as int,
                    ));
                    assert(y == output_at(
                        initial_params,
                        initial_followers[c as int].window(),
                        initial_main[c as int]@,
                        aux@[c as int]@,
                        f as int,
                    ));
                    assert forall|d: int, g: int|
                        0 <= d < channels && 0 <= g < frames implies #[trigger] main@[d]@[g]
                        == if d == c {
                            updated[g]
                        } else {
                            main_before[d]@[g]
                        } by {}
                }
                c = c + 1;
            }
            f = f + 1;
        }
        ProcessStatus::Normal
    }
}

} // verus!