//! The render loop: one call per buffer of the host.
//!
//! A buffer is a list of input channels and a list of output channels, paired
//! by position, each channel a list of samples (bit patterns). One call clamps
//! every frame of every pair with the one threshold it was given, and counts
//! the frames. What follows the clamp is applied by the caller to the output
//! that this loop leaves.

use vstd::prelude::*;
use crate::engine::{clamp, clamped};
use crate::store::Parameters;

verus! {

/// The pattern of 44100, the sample rate of a new state.
pub const DEFAULT_SAMPLE_RATE: u32 = 0x472c_4400;

/// What a render state holds.
pub struct RenderView {
    /// The sample rate in frames per second, as a binary32 bit pattern.
    pub sample_rate: u32,
    /// The number of frames rendered so far, over all channels.
    pub frames: nat,
}

/// The state that the render loop keeps between buffers: the sample rate and
/// the time that has passed, counted in frames. The count never goes back and
/// stops at the largest value that it can hold. The time in seconds is the
/// count divided by the sample rate.
#[derive(Debug)]
pub struct RenderState {
    sample_rate: u32,
    frames: u64,
}

impl View for RenderState {
    type V = RenderView;

    closed spec fn view(&self) -> RenderView {
        RenderView { sample_rate: self.sample_rate, frames: self.frames as nat }
    }
}

/// The frame count after `count` more frames.
pub open spec fn advanced(frames: nat, count: nat) -> nat {
    if frames + count <= u64::MAX {
        frames + count
    } else {
        u64::MAX as nat
    }
}

/// The number of frames that are rendered of one pair of channels: the frame
/// count asked for, or as many as both channels hold.
pub open spec fn frames_of(input: Seq<u32>, output: Seq<u32>, frame_count: nat) -> nat {
    if input.len() <= output.len() {
        if frame_count <= input.len() {
            frame_count
        } else {
            input.len()
        }
    } else {
        if frame_count <= output.len() {
            frame_count
        } else {
            output.len()
        }
    }
}

/// An output channel after rendering: each rendered frame holds the clamped
/// input frame of the same position, the frames behind them are as before.
pub open spec fn rendered(
    input: Seq<u32>,
    output: Seq<u32>,
    frame_count: nat,
    threshold: u32,
) -> Seq<u32> {
    Seq::new(
        output.len(),
        |i: int|
            if i < frames_of(input, output, frame_count) {
                clamped(input[i], threshold)
            } else {
                output[i]
            },
    )
}

/// The number of channel pairs: as many as both lists hold.
pub open spec fn pairs_of(inputs: nat, outputs: nat) -> nat {
    if inputs <= outputs {
        inputs
    } else {
        outputs
    }
}

/// The number of frames that are rendered of the first `pairs` pairs of
/// channels.
pub open spec fn frames_in(
    inputs: Seq<Vec<u32>>,
    outputs: Seq<Vec<u32>>,
    frame_count: nat,
    pairs: nat,
) -> nat
    decreases pairs,
{
    if pairs == 0 {
        0
    } else {
        frames_in(inputs, outputs, frame_count, (pairs - 1) as nat) + frames_of(
            inputs[pairs - 1]@,
            outputs[pairs - 1]@,
            frame_count,
        )
    }
}

/// The count grows with the frames added and never falls; adding in two steps
/// is adding at once.
pub proof fn lemma_advanced(frames: nat, first: nat, second: nat)
    requires
        frames <= u64::MAX,
    ensures
        frames <= advanced(frames, first) <= u64::MAX,
        first <= second ==> advanced(frames, first) <= advanced(frames, second),
        advanced(advanced(frames, first), second) == advanced(frames, first + second),
{
}

impl RenderState {
    /// A state at the default sample rate, with no frame rendered.
    pub fn new() -> (state: RenderState)
        ensures
            state@.sample_rate == DEFAULT_SAMPLE_RATE,
            state@.frames == 0,
    {
        RenderState { sample_rate: DEFAULT_SAMPLE_RATE, frames: 0 }
    }

    /// The sample rate.
    pub fn sample_rate(&self) -> (rate: u32)
        ensures
            rate == self@.sample_rate,
    {
        self.sample_rate
    }

    /// The number of frames rendered so far.
    pub fn frames(&self) -> (frames: u64)
        ensures
            frames == self@.frames,
    {
        self.frames
    }

    /// Replaces the sample rate. The frame count stays.
    pub fn set_sample_rate(&mut self, rate: u32)
        ensures
            final(self)@.sample_rate == rate,
            final(self)@.frames == old(self)@.frames,
    {
        self.sample_rate = rate;
    }

    /// Counts `count` more frames.
    fn advance(&mut self, count: usize)
        ensures
            final(self)@.sample_rate == old(self)@.sample_rate,
            final(self)@.frames == advanced(old(self)@.frames, count as nat),
    {
        let count: u64 = count as u64;
        if u64::MAX - self.frames >= count {
            self.frames = self.frames + count;
        } else {
            self.frames = u64::MAX;
        }
    }

    /// Renders one pair of channels: clamps the first `frame_count` frames of
    /// the input, or as many as both channels hold, into the same positions of
    /// the output, and counts them.
    pub fn render_channel(
        &mut self,
        threshold: u32,
        input: &Vec<u32>,
        output: &mut Vec<u32>,
        frame_count: usize,
    )
        ensures
            final(output)@ == rendered(input@, old(output)@, frame_count as nat, threshold),
            final(self)@.sample_rate == old(self)@.sample_rate,
            final(self)@.frames == advanced(
                old(self)@.frames,
                frames_of(input@, old(output)@, frame_count as nat),
            ),
    {
        let mut count: usize = frame_count;
        if input.len() < count {
            count = input.len();
        }
        if output.len() < count {
            count = output.len();
        }
        let mut frame: usize = 0;
        while frame < count
            invariant
                frame <= count,
                count == frames_of(input@, old(output)@, frame_count as nat),
                output.len() == old(output).len(),
                forall|i: int| 0 <= i < frame ==> output@[i] == clamped(input@[i], threshold),
                forall|i: int| frame <= i < output.len() ==> output@[i] == old(output)@[i],
            decreases count - frame,
        {
            output[frame] = clamp(input[frame], threshold);
            frame = frame + 1;
        }
        self.advance(count);
        assert(output@ =~= rendered(input@, old(output)@, frame_count as nat, threshold));
    }

    /// Renders one buffer.
    ///
    /// The channels are paired by position, as many pairs as both lists hold.
    /// Every frame of every pair is clamped with the threshold of the one set
    /// of parameters that the call was given. Output channels without an input
    /// are left as they are, and so is what lies behind the rendered frames of
    /// a channel. The frame count grows by the number of frames rendered.
    pub fn process(
        &mut self,
        parameters: Parameters,
        inputs: &Vec<Vec<u32>>,
        outputs: &mut Vec<Vec<u32>>,
        frame_count: usize,
    )
        ensures
            final(outputs).len() == old(outputs).len(),
            forall|c: int|
                0 <= c < pairs_of(inputs.len() as nat, old(outputs).len() as nat) ==> (
                #[trigger] final(outputs)[c])@ == rendered(
                    inputs[c]@,
                    old(outputs)[c]@,
                    frame_count as nat,
                    parameters.threshold,
                ),
            forall|c: int|
                inputs.len() <= c < old(outputs).len() ==> #[trigger] final(outputs)[c]
                    == old(outputs)[c],
            final(self)@.sample_rate == old(self)@.sample_rate,
            final(self)@.frames == advanced(
                old(self)@.frames,
                frames_in(
                    inputs@,
                    old(outputs)@,
                    frame_count as nat,
                    pairs_of(inputs.len() as nat, old(outputs).len() as nat),
                ),
            ),
    {
        let threshold: u32 = parameters.threshold;
        let mut pairs: usize = inputs.len();
        if outputs.len() < pairs {
            pairs = outputs.len();
        }
        let mut channel: usize = 0;
        while channel < pairs
            invariant
                channel <= pairs,
                pairs == pairs_of(inputs.len() as nat, old(outputs).len() as nat),
                outputs.len() == old(outputs).len(),
                forall|c: int|
                    0 <= c < channel ==> (#[trigger] outputs[c])@ == rendered(
                        inputs[c]@,
                        old(outputs)[c]@,
                        frame_count as nat,
                        threshold,
                    ),
                forall|c: int|
                    channel <= c < outputs.len() ==> #[trigger] outputs[c] == old(outputs)[c],
                self@.sample_rate == old(self)@.sample_rate,
                self@.frames == advanced(
                    old(self)@.frames,
                    frames_in(inputs@, old(outputs)@, frame_count as nat, channel as nat),
                ),
            decreases pairs - channel,
        {
            self.render_channel(threshold, &inputs[channel], &mut outputs[channel], frame_count);
            channel = channel + 1;
        }
    }
}

impl Default for RenderState {
    fn default() -> (state: RenderState)
        ensures
            state@.sample_rate == DEFAULT_SAMPLE_RATE,
            state@.frames == 0,
    {
        RenderState::new()
    }
}

} // verus!
