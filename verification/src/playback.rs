//! Playback of synthesized speech: which outputs a direction plays to, and how
//! queued samples fill the buffers of an output.

use crate::config::{Direction, OutputConfig};
use std::collections::VecDeque;
use vstd::arithmetic::div_mod::{lemma_fundamental_div_mod, lemma_fundamental_div_mod_converse};
use vstd::prelude::*;
use vstd::string::*;

verus! {

/// What an output is for.
#[derive(Debug, Clone, Copy, PartialEq, Eq, Structural)]
pub enum SinkRole {
    /// You hear the other party.
    Relay,
    /// The call hears you.
    VirtualMic,
    /// You hear yourself.
    SelfMonitor,
}

/// An output to open.
#[derive(Debug)]
pub struct SinkRequest {
    pub role: SinkRole,
    /// The device, by name. `None` stands for the default output.
    pub device: Option<String>,
}

impl DeepView for SinkRequest {
    type V = (SinkRole, Option<Seq<char>>);

    open spec fn deep_view(&self) -> (SinkRole, Option<Seq<char>>) {
        (self.role, self.device.deep_view())
    }
}

/// The outputs that `direction` plays to. Relay plays to the device that you
/// listen on. Self plays into the call, if there is a sink for it, and, if it is
/// monitored, to the device that you listen on.
pub open spec fn outputs(direction: Direction, output: OutputConfig) -> Seq<
    (SinkRole, Option<Seq<char>>),
> {
    match direction {
        Direction::Relay => seq![(SinkRole::Relay, output.playback_device.deep_view())],
        Direction::SelfMode => {
            (if output.mic_sink is Some {
                seq![(SinkRole::VirtualMic, output.mic_sink.deep_view())]
            } else {
                Seq::empty()
            }) + (if output.monitor_self {
                seq![(SinkRole::SelfMonitor, output.playback_device.deep_view())]
            } else {
                Seq::empty()
            })
        },
    }
}

/// The outputs that `direction` plays to, in order.
pub fn sinks_for(direction: Direction, output: &OutputConfig) -> (sinks: Vec<SinkRequest>)
    ensures
        sinks.deep_view() == outputs(direction, *output),
{
    let mut sinks: Vec<SinkRequest> = Vec::new();
    match direction {
        Direction::Relay => {
            sinks.push(
                SinkRequest { role: SinkRole::Relay, device: output.playback_device.clone() },
            );
        },
        Direction::SelfMode => {
            if output.mic_sink.is_some() {
                sinks.push(
                    SinkRequest { role: SinkRole::VirtualMic, device: output.mic_sink.clone() },
                );
            }
            if output.monitor_self {
                sinks.push(
                    SinkRequest {
                        role: SinkRole::SelfMonitor,
                        device: output.playback_device.clone(),
                    },
                );
            }
        },
    }
    assert(sinks.deep_view() =~= outputs(direction, *output));
    sinks
}

/// Only the self direction feeds the call, and only through the sink that is set
/// for it.
pub proof fn only_self_feeds_the_call(direction: Direction, output: OutputConfig, at: int)
    requires
        0 <= at < outputs(direction, output).len(),
        outputs(direction, output)[at].0 == SinkRole::VirtualMic,
    ensures
        direction == Direction::SelfMode,
        outputs(direction, output)[at].1 == output.mic_sink.deep_view(),
        output.mic_sink is Some,
{
}

/// Samples that wait to be played, oldest first.
pub struct PlaybackQueue<T> {
    samples: VecDeque<T>,
}

impl<T> View for PlaybackQueue<T> {
    type V = Seq<T>;

    closed spec fn view(&self) -> Seq<T> {
        self.samples@
    }
}

/// The sample at `at`, or silence when there are no more.
pub open spec fn sample_or<T>(samples: Seq<T>, at: int, silence: T) -> T {
    if 0 <= at < samples.len() {
        samples[at]
    } else {
        silence
    }
}

/// How many frames of `channels` samples a buffer of `len` samples holds, the last
/// of them perhaps in part.
pub open spec fn frame_count(len: int, channels: int) -> int {
    (len + channels - 1) / channels
}

impl<T: Copy> PlaybackQueue<T> {
    pub fn new() -> (queue: Self)
        ensures
            queue@ == Seq::<T>::empty(),
    {
        PlaybackQueue { samples: VecDeque::new() }
    }

    /// Queues `samples` behind what waits already.
    pub fn submit(&mut self, samples: Vec<T>)
        ensures
            final(self)@ == old(self)@ + samples@,
    {
        let ghost before = self.samples@;
        let mut at: usize = 0;
        while at < samples.len()
            invariant
                at <= samples.len(),
                self.samples@ == before + samples@.take(at as int),
            decreases samples.len() - at,
        {
            self.samples.push_back(samples[at]);
            assert(samples@.take(at + 1) =~= samples@.take(at as int).push(samples@[at as int]));
            at = at + 1;
        }
        assert(samples@.take(samples@.len() as int) =~= samples@);
    }

    /// Fills the buffer of an output with `channels` channels: each frame gets the
    /// next sample on all of its channels, or silence when none waits.
    pub fn fill(&mut self, data: &mut [T], channels: usize, silence: T)
        requires
            channels > 0,
        ensures
            final(data)@.len() == old(data)@.len(),
            forall|i: int|
                0 <= i < old(data)@.len() ==> #[trigger] final(data)@[i] == (if (i / channels as int)
                    < old(self)@.len() {
                    old(self)@[i / channels as int]
                } else {
                    silence
                }),
            forall|i: int|
                0 <= i < old(data)@.len() ==> #[trigger] final(data)@[i] == sample_or(
                    old(self)@,
                    i / channels as int,
                    silence,
                ),
            final(self)@ == (if frame_count(old(data)@.len() as int, channels as int) <= old(
                self,
            )@.len() {
                old(self)@.skip(frame_count(old(data)@.len() as int, channels as int))
            } else {
                Seq::empty()
            }),
    {
        let ghost before = self.samples@;
        let ghost wanted = data@.len() as int;
        let total: usize = data.len();
        let mut at: usize = 0;
        let mut within: usize = 0;
        let mut sample: T = silence;
        let ghost mut frames: int = 0;
        assert(before.skip(0) =~= before);
        while at < total
            invariant
                channels > 0,
                at <= total == data@.len() == wanted,
                within < channels,
                frames >= 0,
                at == (if within == 0 {
                    frames * channels
                } else {
                    (frames - 1) * channels + within
                }),
                within > 0 ==> frames > 0 && sample == sample_or(before, frames - 1, silence),
                self.samples@ == (if frames <= before.len() {
                    before.skip(frames)
                } else {
                    Seq::empty()
                }),
                forall|i: int|
                    0 <= i < at ==> #[trigger] data@[i] == sample_or(
                        before,
                        i / channels as int,
                        silence,
                    ),
            decreases total - at,
        {
            if within == 0 {
                sample = match self.samples.pop_front() {
                    Some(sample) => sample,
                    None => silence,
                };
                proof {
                    frames = frames + 1;
                    assert((frames - 1) * channels + channels == frames * channels)
                        by (nonlinear_arith);
                }
            }
            proof {
                lemma_fundamental_div_mod_converse(
                    at as int,
                    channels as int,
                    frames - 1,
                    within as int,
                );
            }
            data[at] = sample;
            at = at + 1;
            within = within + 1;
            if within == channels {
                within = 0;
                assert((frames - 1) * channels + channels == frames * channels)
                    by (nonlinear_arith);
            }
        }
        proof {
            if within == 0 {
                assert(wanted + channels - 1 == frames * channels + (channels - 1));
                lemma_fundamental_div_mod_converse(
                    wanted + channels - 1,
                    channels as int,
                    frames,
                    channels - 1,
                );
            } else {
                assert((frames - 1) * channels + channels == frames * channels)
                    by (nonlinear_arith);
                lemma_fundamental_div_mod_converse(
                    wanted + channels - 1,
                    channels as int,
                    frames,
                    within - 1,
                );
            }
        }
    }
}

/// A buffer takes as many samples as it has frames, one that it has only in part among
/// them.
pub proof fn each_frame_takes_a_sample(len: int, channels: int)
    requires
        len >= 0,
        channels > 0,
    ensures
        len <= frame_count(len, channels) * channels < len + channels,
{
    let count = frame_count(len, channels);
    lemma_fundamental_div_mod(len + channels - 1, channels);
    assert(channels * count == count * channels) by (nonlinear_arith);
}

/// Relay plays to the device that you listen on, and to nothing else.
pub proof fn relay_plays_to_you(output: OutputConfig)
    ensures
        outputs(Direction::Relay, output) == seq![
            (SinkRole::Relay, output.playback_device.deep_view()),
        ],
{
}

/// Self plays into the call if there is a sink for it, then to the device that you listen
/// on if it is monitored, and to nothing else.
pub proof fn self_plays_into_the_call(output: OutputConfig)
    ensures
        ({
            let all = outputs(Direction::SelfMode, output);
            let call = output.mic_sink is Some;
            &&& all.len() == (if call {
                1int
            } else {
                0
            }) + (if output.monitor_self {
                1int
            } else {
                0
            })
            &&& call ==> all[0] == (SinkRole::VirtualMic, output.mic_sink.deep_view())
            &&& output.monitor_self ==> all.last() == (
                SinkRole::SelfMonitor,
                output.playback_device.deep_view(),
            )
        }),
{
}

}
