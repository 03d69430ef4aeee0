//! Audio capture: which device to listen to, how loud it is, and how detected
//! speech is cut into utterances.

use crate::config::Direction;
use crate::sequence::{
    drawn_from, drawn_from_drawn, drawn_from_itself, drawn_from_parts, newest, newest_is_drawn,
};
use crate::single;
use std::collections::VecDeque;
use vstd::arithmetic::power2::{lemma2_to64, pow2};
use vstd::prelude::*;
use vstd::string::*;

verus! {

broadcast use vstd::string::group_string_axioms;

/// Samples per chunk that is tested for speech.
pub const VAD_CHUNK_SIZE: usize = 512;

/// The rate at which speech is detected and transcribed.
pub const SPEECH_RATE: u32 = 16000;

/// The pattern of `0.5`: from this probability on, a chunk is speech.
pub const SPEECH_THRESHOLD: u32 = 0x3f00_0000;

/// Silent chunks that end an utterance: about a second.
pub const SILENCE_CHUNKS_FOR_RESET: usize = 32;

/// Chunks from before the speech that are replayed when it starts, so that the
/// first words are not clipped.
pub const LOOKBACK_CHUNKS: usize = 8;

/// The pattern of `0.002`: an input whose peak stays below it appears dead.
pub const DEAD_LEVEL: u32 = 0x3b03_126f;

/// The pattern of `0.02`: an input whose peak stays below it is quiet.
pub const QUIET_LEVEL: u32 = 0x3ca3_d70a;

/// One unit of audio handed to the transcription.
#[derive(Debug)]
pub enum Segment {
    /// A 16 kHz mono frame that belongs to an utterance.
    Speech(Vec<i16>),
    /// Silence followed a run of speech: the utterance is complete.
    EndOfUtterance,
}

/// Cuts a stream of frames into utterances.
pub struct Segmenter {
    speaking: bool,
    silence: usize,
    lookback: VecDeque<Vec<i16>>,
}

/// What a [`Segmenter`] knows: whether an utterance is open, how many silent
/// frames it has heard in a row since the last speech, and the frames it keeps
/// in case speech starts.
#[verifier::ext_equal]
pub ghost struct Listening {
    pub speaking: bool,
    pub silence: nat,
    pub lookback: Seq<Vec<i16>>,
}

/// What a [`Segmenter`] answers to one frame.
#[derive(Debug)]
pub struct Heard {
    /// The segments to hand on, in order.
    pub segments: Vec<Segment>,
    /// How many kept frames were replayed, when the frame starts an utterance.
    pub started: Option<usize>,
    /// The utterance is over: the detector starts afresh.
    pub ended: bool,
}

/// The frames as speech.
pub open spec fn speech(frames: Seq<Vec<i16>>) -> Seq<Segment> {
    frames.map_values(|frame: Vec<i16>| Segment::Speech(frame))
}

impl Listening {
    /// Nothing heard yet.
    pub open spec fn quiet() -> Listening {
        Listening { speaking: false, silence: 0, lookback: Seq::empty() }
    }

    /// An open utterance keeps no frames back and is not over; without one, no
    /// more than the lookback is kept.
    pub open spec fn well_formed(self) -> bool {
        &&& self.lookback.len() <= LOOKBACK_CHUNKS
        &&& self.silence < SILENCE_CHUNKS_FOR_RESET
        &&& self.speaking ==> self.lookback.len() == 0
        &&& !self.speaking ==> self.silence == 0
    }

    /// What is known after one frame.
    pub open spec fn after(self, voiced: bool, frame: Vec<i16>) -> Listening {
        if voiced {
            Listening { speaking: true, silence: 0, lookback: Seq::empty() }
        } else if self.speaking && self.silence + 1 < SILENCE_CHUNKS_FOR_RESET {
            Listening { silence: self.silence + 1, ..self }
        } else if self.speaking {
            Listening::quiet()
        } else {
            Listening {
                lookback: newest(self.lookback.push(frame), LOOKBACK_CHUNKS as nat),
                ..self
            }
        }
    }

    /// The segments that one frame gives.
    pub open spec fn segments(self, voiced: bool, frame: Vec<i16>) -> Seq<Segment> {
        if voiced {
            speech(self.lookback.push(frame))
        } else if self.speaking && self.silence + 1 < SILENCE_CHUNKS_FOR_RESET {
            seq![Segment::Speech(frame)]
        } else if self.speaking {
            seq![Segment::Speech(frame), Segment::EndOfUtterance]
        } else {
            Seq::empty()
        }
    }

    /// What is known after a run of frames.
    pub open spec fn after_all(self, frames: Seq<(bool, Vec<i16>)>) -> Listening
        decreases frames.len(),
    {
        if frames.len() == 0 {
            self
        } else {
            self.after(frames[0].0, frames[0].1).after_all(frames.skip(1))
        }
    }

    /// The segments that a run of frames gives.
    pub open spec fn all_segments(self, frames: Seq<(bool, Vec<i16>)>) -> Seq<Segment>
        decreases frames.len(),
    {
        if frames.len() == 0 {
            Seq::empty()
        } else {
            self.segments(frames[0].0, frames[0].1) + self.after(
                frames[0].0,
                frames[0].1,
            ).all_segments(frames.skip(1))
        }
    }
}

impl View for Segmenter {
    type V = Listening;

    closed spec fn view(&self) -> Listening {
        Listening {
            speaking: self.speaking,
            silence: self.silence as nat,
            lookback: self.lookback@,
        }
    }
}

impl Segmenter {
    pub fn new() -> (segmenter: Self)
        ensures
            segmenter@ == Listening::quiet(),
            segmenter@.well_formed(),
    {
        Segmenter { speaking: false, silence: 0, lookback: VecDeque::new() }
    }

    /// Takes the next frame, with the bit pattern of the probability that it is
    /// speech.
    pub fn push(&mut self, probability: u32, frame: Vec<i16>) -> (heard: Heard)
        requires
            old(self)@.well_formed(),
        ensures
            final(self)@ == old(self)@.after(single::at_least(probability, SPEECH_THRESHOLD), frame),
            final(self)@.well_formed(),
            heard.segments@ == old(self)@.segments(
                single::at_least(probability, SPEECH_THRESHOLD),
                frame,
            ),
            heard.started == (if !old(self)@.speaking && final(self)@.speaking {
                Some(old(self)@.lookback.len() as usize)
            } else {
                None
            }),
            heard.ended == (old(self)@.speaking && !final(self)@.speaking),
            !single::is_nan(probability) && !single::below(probability, SPEECH_THRESHOLD) ==> {
                &&& final(self)@.speaking
                &&& final(self)@.silence == 0
                &&& heard.segments@.len() == old(self)@.lookback.len() + 1
                &&& heard.segments@.last() == Segment::Speech(frame)
            },
            single::is_nan(probability) || single::below(probability, SPEECH_THRESHOLD) ==> {
                &&& heard.started is None
                &&& heard.ended == (old(self)@.speaking && old(self)@.silence + 1
                    == SILENCE_CHUNKS_FOR_RESET)
                &&& !old(self)@.speaking ==> heard.segments@.len() == 0
            },
    {
        let mut segments: Vec<Segment> = Vec::new();
        if single::is_at_least(probability, SPEECH_THRESHOLD) {
            let started: Option<usize> = if self.speaking {
                None
            } else {
                Some(self.lookback.len())
            };
            let ghost kept = self.lookback@;
            assert(speech(kept).skip(0) =~= speech(kept));
            while self.lookback.len() > 0
                invariant
                    segments@ + speech(self.lookback@) == speech(kept),
                decreases self.lookback@.len(),
            {
                let ghost before = self.lookback@;
                match self.lookback.pop_front() {
                    Some(buffered) => {
                        segments.push(Segment::Speech(buffered));
                        assert(speech(before) =~= seq![Segment::Speech(buffered)] + speech(
                            self.lookback@,
                        ));
                    },
                    None => {},
                }
            }
            self.speaking = true;
            self.silence = 0;
            segments.push(Segment::Speech(frame));
            assert(self.lookback@ =~= Seq::empty());
            assert(segments@ =~= speech(kept.push(frame)));
            return Heard { segments, started, ended: false };
        }
        if self.speaking {
            segments.push(Segment::Speech(frame));
            self.silence = self.silence + 1;
            if self.silence < SILENCE_CHUNKS_FOR_RESET {
                return Heard { segments, started: None, ended: false };
            }
            segments.push(Segment::EndOfUtterance);
            self.speaking = false;
            self.silence = 0;
            self.lookback.clear();
            assert(self.lookback@ =~= Seq::empty());
            return Heard { segments, started: None, ended: true };
        }
        let ghost kept = self.lookback@;
        if self.lookback.len() >= LOOKBACK_CHUNKS {
            let _ = self.lookback.pop_front();
        }
        self.lookback.push_back(frame);
        assert(self.lookback@ =~= newest(kept.push(frame), LOOKBACK_CHUNKS as nat));
        Heard { segments, started: None, ended: false }
    }
}

/// The frames of a run, without what was made of them.
pub open spec fn frames_of(run: Seq<(bool, Vec<i16>)>) -> Seq<Vec<i16>> {
    run.map_values(|heard: (bool, Vec<i16>)| heard.1)
}

/// No frame of a run is speech.
pub open spec fn unvoiced(run: Seq<(bool, Vec<i16>)>) -> bool {
    forall|i: int| 0 <= i < run.len() ==> !(#[trigger] run[i]).0
}

/// Whatever is heard, what is known stays well-formed.
pub proof fn listening_stays_well_formed(start: Listening, run: Seq<(bool, Vec<i16>)>)
    requires
        start.well_formed(),
    ensures
        start.after_all(run).well_formed(),
    decreases run.len(),
{
    if run.len() > 0 {
        listening_stays_well_formed(start.after(run[0].0, run[0].1), run.skip(1));
    }
}

/// Every end of an utterance directly follows speech: no utterance is empty.
pub proof fn ends_follow_speech(start: Listening, run: Seq<(bool, Vec<i16>)>, at: int)
    requires
        0 <= at < start.all_segments(run).len(),
        start.all_segments(run)[at] is EndOfUtterance,
    ensures
        at > 0,
        start.all_segments(run)[at - 1] is Speech,
    decreases run.len(),
{
    if run.len() > 0 {
        let first = start.segments(run[0].0, run[0].1);
        let next = start.after(run[0].0, run[0].1);
        if at >= first.len() {
            ends_follow_speech(next, run.skip(1), at - first.len());
        }
    }
}

/// A pause shorter than the limit belongs to the utterance: its frames are
/// handed on and the utterance stays open.
pub proof fn short_pause_is_kept(start: Listening, run: Seq<(bool, Vec<i16>)>)
    requires
        start.speaking,
        unvoiced(run),
        start.silence + run.len() < SILENCE_CHUNKS_FOR_RESET,
    ensures
        start.all_segments(run) == speech(frames_of(run)),
        start.after_all(run) == (Listening { silence: start.silence + run.len(), ..start }),
    decreases run.len(),
{
    if run.len() > 0 {
        let next = start.after(run[0].0, run[0].1);
        short_pause_is_kept(next, run.skip(1));
        assert(frames_of(run) =~= seq![run[0].1] + frames_of(run.skip(1)));
        assert(speech(frames_of(run)) =~= seq![Segment::Speech(run[0].1)] + speech(
            frames_of(run.skip(1)),
        ));
    } else {
        assert(speech(frames_of(run)) =~= Seq::empty());
    }
}

/// Silence of the full length ends the utterance, once, after its last frame.
pub proof fn long_pause_ends(start: Listening, run: Seq<(bool, Vec<i16>)>)
    requires
        start.speaking,
        unvoiced(run),
        start.silence < SILENCE_CHUNKS_FOR_RESET,
        start.silence + run.len() == SILENCE_CHUNKS_FOR_RESET,
    ensures
        start.all_segments(run) == speech(frames_of(run)).push(Segment::EndOfUtterance),
        start.after_all(run) == Listening::quiet(),
    decreases run.len(),
{
    let next = start.after(run[0].0, run[0].1);
    assert(frames_of(run) =~= seq![run[0].1] + frames_of(run.skip(1)));
    assert(speech(frames_of(run)) =~= seq![Segment::Speech(run[0].1)] + speech(
        frames_of(run.skip(1)),
    ));
    if run.len() == 1 {
        assert(run.skip(1).len() == 0);
        assert(speech(frames_of(run.skip(1))) =~= Seq::empty());
        assert(next.after_all(run.skip(1)) == next);
        assert(next.all_segments(run.skip(1)) == Seq::<Segment>::empty());
        assert(start.all_segments(run) =~= seq![Segment::Speech(run[0].1), Segment::EndOfUtterance]);
    } else {
        long_pause_ends(next, run.skip(1));
        assert(start.all_segments(run) =~= speech(frames_of(run)).push(Segment::EndOfUtterance));
    }
}

/// Outside an utterance nothing is handed on, and the newest frames are kept.
pub proof fn silence_is_kept_back(start: Listening, run: Seq<(bool, Vec<i16>)>)
    requires
        start.well_formed(),
        !start.speaking,
        unvoiced(run),
    ensures
        start.all_segments(run) == Seq::<Segment>::empty(),
        start.after_all(run) == (Listening {
            lookback: newest(start.lookback + frames_of(run), LOOKBACK_CHUNKS as nat),
            ..start
        }),
    decreases run.len(),
{
    if run.len() > 0 {
        let next = start.after(run[0].0, run[0].1);
        silence_is_kept_back(next, run.skip(1));
        assert(frames_of(run) =~= seq![run[0].1] + frames_of(run.skip(1)));
        assert(newest(next.lookback + frames_of(run.skip(1)), LOOKBACK_CHUNKS as nat) =~= newest(
            start.lookback + frames_of(run),
            LOOKBACK_CHUNKS as nat,
        ));
        assert(start.all_segments(run) =~= Seq::empty());
    } else {
        assert(start.lookback + frames_of(run) =~= start.lookback);
    }
}

/// Speech after silence starts with the frames heard just before it, so the
/// first words are not clipped: the newest of the silent frames, then the frame
/// itself.
pub proof fn speech_starts_with_lookback(run: Seq<(bool, Vec<i16>)>, frame: Vec<i16>)
    requires
        unvoiced(run),
    ensures
        Listening::quiet().after_all(run).segments(true, frame) == speech(
            newest(frames_of(run), LOOKBACK_CHUNKS as nat).push(frame),
        ),
        Listening::quiet().after_all(run).after(true, frame).speaking,
{
    silence_is_kept_back(Listening::quiet(), run);
    assert(Listening::quiet().lookback + frames_of(run) =~= frames_of(run));
}

/// The silence that ends an utterance is counted from the last speech: whatever came
/// before it, a pause of fewer than [`SILENCE_CHUNKS_FOR_RESET`] frames is handed on
/// frame by frame and ends nothing, and the last frame of a pause of that many is
/// followed by the end, at once.
pub proof fn pause_counts_from_the_last_speech(
    start: Listening,
    frame: Vec<i16>,
    run: Seq<(bool, Vec<i16>)>,
)
    requires
        start.well_formed(),
        unvoiced(run),
        run.len() <= SILENCE_CHUNKS_FOR_RESET,
    ensures
        ({
            let out = start.after(true, frame).all_segments(run);
            let ends: nat = if run.len() == SILENCE_CHUNKS_FOR_RESET {
                1
            } else {
                0
            };
            &&& out.len() == run.len() + ends
            &&& forall|i: int|
                0 <= i < run.len() ==> #[trigger] out[i] == Segment::Speech(run[i].1)
            &&& ends == 1 ==> out.last() == Segment::EndOfUtterance
        }),
{
    let heard = start.after(true, frame);
    if run.len() == SILENCE_CHUNKS_FOR_RESET {
        long_pause_ends(heard, run);
    } else {
        short_pause_is_kept(heard, run);
    }
}

proof fn lemma_after_last(start: Listening, run: Seq<(bool, Vec<i16>)>)
    requires
        run.len() > 0,
    ensures
        start.after_all(run) == start.after_all(run.drop_last()).after(
            run.last().0,
            run.last().1,
        ),
    decreases run.len(),
{
    reveal_with_fuel(Listening::after_all, 2);
    if run.len() > 1 {
        let next = start.after(run[0].0, run[0].1);
        lemma_after_last(next, run.skip(1));
        assert(run.skip(1).drop_last() =~= run.drop_last().skip(1));
        assert(run.skip(1).last() == run.last());
    } else {
        assert(run.skip(1) =~= Seq::empty());
        assert(run.drop_last() =~= Seq::empty());
    }
}

proof fn lemma_silence_is_unbroken(run: Seq<(bool, Vec<i16>)>)
    ensures
        ({
            let now = Listening::quiet().after_all(run);
            &&& now.speaking ==> {
                &&& now.silence < run.len()
                &&& run[run.len() - 1 - now.silence].0
                &&& forall|k: int|
                    run.len() - now.silence <= k < run.len() ==> !(#[trigger] run[k]).0
            }
        }),
    decreases run.len(),
{
    if run.len() > 0 {
        let before = run.drop_last();
        lemma_silence_is_unbroken(before);
        lemma_after_last(Listening::quiet(), run);
        let earlier = Listening::quiet().after_all(before);
        let now = Listening::quiet().after_all(run);
        if now.speaking && !run.last().0 {
            assert(earlier.speaking && now.silence == earlier.silence + 1);
            assert(before[before.len() - 1 - earlier.silence] == run[run.len() - 1 - now.silence]);
            assert forall|k: int| run.len() - now.silence <= k < run.len() implies !(
            #[trigger] run[k]).0 by {
                if k < before.len() {
                    assert(before[k] == run[k]);
                }
            }
        }
    }
}

/// An utterance ends only after unbroken silence: where a frame of a run gives an end,
/// that frame and those right before it, [`SILENCE_CHUNKS_FOR_RESET`] in all, are
/// silent, and the frame before them is speech.
pub proof fn ends_need_unbroken_silence(run: Seq<(bool, Vec<i16>)>, at: int)
    requires
        0 <= at < run.len(),
        Listening::quiet().after_all(run.take(at)).segments(run[at].0, run[at].1).contains(
            Segment::EndOfUtterance,
        ),
    ensures
        at >= SILENCE_CHUNKS_FOR_RESET,
        forall|k: int| at - SILENCE_CHUNKS_FOR_RESET < k <= at ==> !(#[trigger] run[k]).0,
        run[at - SILENCE_CHUNKS_FOR_RESET].0,
{
    let before = run.take(at);
    let now = Listening::quiet().after_all(before);
    listening_stays_well_formed(Listening::quiet(), before);
    lemma_silence_is_unbroken(before);
    let out = now.segments(run[at].0, run[at].1);
    let found = choose|i: int| 0 <= i < out.len() && out[i] == Segment::EndOfUtterance;
    assert(!run[at].0 && now.speaking && now.silence + 1 == SILENCE_CHUNKS_FOR_RESET);
    assert forall|k: int| at - SILENCE_CHUNKS_FOR_RESET < k <= at implies !(#[trigger] run[k]).0 by {
        if k < at {
            assert(before[k] == run[k]);
        }
    }
    assert(before[at - SILENCE_CHUNKS_FOR_RESET] == run[at - SILENCE_CHUNKS_FOR_RESET]);
}

/// Within an utterance every frame is handed on, as it is and at once.
pub proof fn utterance_is_handed_on(start: Listening, voiced: bool, frame: Vec<i16>)
    requires
        start.well_formed(),
        start.speaking,
    ensures
        start.segments(voiced, frame)[0] == Segment::Speech(frame),
        start.segments(voiced, frame).len() == (if !voiced && start.silence + 1
            == SILENCE_CHUNKS_FOR_RESET {
            2nat
        } else {
            1nat
        }),
        start.after(voiced, frame).speaking == (start.segments(voiced, frame).len() == 1),
{
}

/// Speech after silence replays the newest frames that came before it, up to
/// [`LOOKBACK_CHUNKS`] of them, each once and in order, and then the frame itself.
pub proof fn lookback_is_replayed(run: Seq<(bool, Vec<i16>)>, frame: Vec<i16>)
    requires
        unvoiced(run),
    ensures
        ({
            let kept: int = if run.len() < LOOKBACK_CHUNKS {
                run.len() as int
            } else {
                LOOKBACK_CHUNKS as int
            };
            let out = Listening::quiet().after_all(run).segments(true, frame);
            &&& Listening::quiet().all_segments(run).len() == 0
            &&& out.len() == kept + 1
            &&& forall|i: int|
                0 <= i < kept ==> #[trigger] out[i] == Segment::Speech(run[run.len() - kept + i].1)
            &&& out[kept] == Segment::Speech(frame)
        }),
{
    speech_starts_with_lookback(run, frame);
    silence_is_kept_back(Listening::quiet(), run);
}

/// An utterance that has ended leaves nothing behind: what follows it is heard as at
/// the very beginning.
pub proof fn end_starts_afresh(start: Listening, voiced: bool, frame: Vec<i16>)
    requires
        start.well_formed(),
        start.speaking,
        !start.after(voiced, frame).speaking,
    ensures
        start.after(voiced, frame).silence == 0,
        start.after(voiced, frame).lookback.len() == 0,
{
}

/// The frames that segments hand on.
pub open spec fn spoken(segments: Seq<Segment>) -> Seq<Vec<i16>>
    decreases segments.len(),
{
    if segments.len() == 0 {
        Seq::empty()
    } else {
        (match segments[0] {
            Segment::Speech(frame) => seq![frame],
            Segment::EndOfUtterance => Seq::empty(),
        }) + spoken(segments.skip(1))
    }
}

proof fn lemma_spoken_parts(a: Seq<Segment>, b: Seq<Segment>)
    ensures
        spoken(a + b) == spoken(a) + spoken(b),
    decreases a.len(),
{
    if a.len() == 0 {
        assert(a + b =~= b);
    } else {
        lemma_spoken_parts(a.skip(1), b);
        assert((a + b).skip(1) =~= a.skip(1) + b);
        assert(spoken(a + b) =~= spoken(a) + spoken(b));
    }
}

proof fn lemma_spoken_speech(frames: Seq<Vec<i16>>)
    ensures
        spoken(speech(frames)) == frames,
    decreases frames.len(),
{
    if frames.len() > 0 {
        lemma_spoken_speech(frames.skip(1));
        assert(speech(frames).skip(1) =~= speech(frames.skip(1)));
        assert(spoken(speech(frames)) =~= frames);
    } else {
        assert(spoken(speech(frames)) =~= frames);
    }
}

proof fn lemma_one_frame(start: Listening, voiced: bool, frame: Vec<i16>)
    requires
        start.well_formed(),
    ensures
        drawn_from(
            spoken(start.segments(voiced, frame)) + start.after(voiced, frame).lookback,
            start.lookback.push(frame),
        ),
{
    let out = spoken(start.segments(voiced, frame));
    let kept = start.after(voiced, frame).lookback;
    let all = start.lookback.push(frame);
    drawn_from_itself(all);
    if voiced {
        lemma_spoken_speech(all);
        assert(out + kept =~= all);
    } else if start.speaking {
        reveal_with_fuel(spoken, 3);
        assert(out =~= seq![frame]);
        assert(all =~= seq![frame]);
        assert(out + kept =~= all);
    } else {
        newest_is_drawn(all, LOOKBACK_CHUNKS as nat);
        assert(out + kept =~= kept);
    }
}

/// No frame is handed on twice or out of order, and none is made up: what is handed
/// on, and then what is kept back, are among the frames that were heard.
pub proof fn frames_stay_in_order(start: Listening, run: Seq<(bool, Vec<i16>)>)
    requires
        start.well_formed(),
    ensures
        drawn_from(
            spoken(start.all_segments(run)) + start.after_all(run).lookback,
            start.lookback + frames_of(run),
        ),
    decreases run.len(),
{
    if run.len() == 0 {
        drawn_from_itself(start.lookback);
        assert(spoken(start.all_segments(run)) + start.after_all(run).lookback =~= start.lookback);
        assert(start.lookback + frames_of(run) =~= start.lookback);
    } else {
        let next = start.after(run[0].0, run[0].1);
        let out = spoken(start.segments(run[0].0, run[0].1));
        let later = spoken(next.all_segments(run.skip(1)));
        let kept = start.after_all(run).lookback;
        let rest = frames_of(run.skip(1));
        frames_stay_in_order(next, run.skip(1));
        lemma_one_frame(start, run[0].0, run[0].1);
        lemma_spoken_parts(
            start.segments(run[0].0, run[0].1),
            next.all_segments(run.skip(1)),
        );
        drawn_from_itself(out);
        drawn_from_itself(rest);
        drawn_from_parts(out, out, later + kept, next.lookback + rest);
        drawn_from_parts(out + next.lookback, start.lookback.push(run[0].1), rest, rest);
        assert(out + (next.lookback + rest) =~= (out + next.lookback) + rest);
        drawn_from_drawn(
            out + (later + kept),
            out + (next.lookback + rest),
            start.lookback.push(run[0].1) + rest,
        );
        assert(spoken(start.all_segments(run)) + kept =~= out + (later + kept));
        assert(start.lookback + frames_of(run) =~= start.lookback.push(run[0].1) + rest);
    }
}

/// Speech is never lost: every frame that is speech is handed on.
pub proof fn speech_is_handed_on(start: Listening, run: Seq<(bool, Vec<i16>)>, at: int)
    requires
        0 <= at < run.len(),
        run[at].0,
    ensures
        start.all_segments(run).contains(Segment::Speech(run[at].1)),
    decreases run.len(),
{
    let first = start.segments(run[0].0, run[0].1);
    let next = start.after(run[0].0, run[0].1);
    let later = next.all_segments(run.skip(1));
    let wanted = Segment::Speech(run[at].1);
    if at == 0 {
        assert(first[first.len() - 1] == wanted);
        assert(start.all_segments(run)[first.len() - 1] == wanted);
    } else {
        speech_is_handed_on(next, run.skip(1), at - 1);
        let found = later.index_of(wanted);
        assert(start.all_segments(run)[first.len() + found] == wanted);
    }
}

/// True when audio at `native_sample_rate` has to be resampled for the speech
/// detector.
pub fn needs_resampling(native_sample_rate: u32) -> (needed: bool)
    ensures
        needed == (native_sample_rate != 16000),
{
    native_sample_rate != SPEECH_RATE
}

/// Samples that wait to be taken in chunks, oldest first.
pub struct SampleQueue<T> {
    samples: VecDeque<T>,
}

impl<T> View for SampleQueue<T> {
    type V = Seq<T>;

    closed spec fn view(&self) -> Seq<T> {
        self.samples@
    }
}

impl<T> SampleQueue<T> {
    pub fn new() -> (queue: Self)
        ensures
            queue@ == Seq::<T>::empty(),
    {
        SampleQueue { samples: VecDeque::new() }
    }

    pub fn len(&self) -> (count: usize)
        ensures
            count == self@.len(),
    {
        self.samples.len()
    }

    /// Queues `samples` behind what waits already.
    pub fn extend(&mut self, samples: Vec<T>)
        ensures
            final(self)@ == old(self)@ + samples@,
    {
        let ghost before = self.samples@;
        for sample in it: samples
            invariant
                it.seq() == samples@,
                self.samples@ == before + samples@.take(it.index() as int),
        {
            self.samples.push_back(sample);
            assert(samples@.take(it.index() + 1) =~= samples@.take(it.index() as int).push(sample));
        }
        assert(samples@.take(samples@.len() as int) =~= samples@);
    }

    /// Takes the `count` oldest samples, once that many wait.
    pub fn take(&mut self, count: usize) -> (chunk: Option<Vec<T>>)
        ensures
            match chunk {
                Some(chunk) => {
                    &&& old(self)@.len() >= count
                    &&& chunk@ == old(self)@.take(count as int)
                    &&& final(self)@ == old(self)@.skip(count as int)
                },
                None => old(self)@.len() < count && final(self)@ == old(self)@,
            },
    {
        if self.samples.len() < count {
            return None;
        }
        let ghost before = self.samples@;
        let mut chunk: Vec<T> = Vec::new();
        assert(before.skip(0) =~= before);
        while chunk.len() < count
            invariant
                chunk@.len() <= count <= before.len(),
                chunk@ == before.take(chunk@.len() as int),
                self.samples@ == before.skip(chunk@.len() as int),
            decreases count - chunk@.len(),
        {
            match self.samples.pop_front() {
                Some(sample) => {
                    let ghost taken = chunk@.len() as int;
                    chunk.push(sample);
                    assert(before.take(taken).push(sample) =~= before.take(taken + 1));
                    assert(before.skip(taken).skip(1) =~= before.skip(taken + 1));
                },
                None => {},
            }
        }
        Some(chunk)
    }

    /// Takes every whole chunk of `size` samples, oldest first. Nothing is lost:
    /// the chunks, one after the other, and what still waits are what waited
    /// before.
    pub fn take_chunks(&mut self, size: usize) -> (chunks: Vec<Vec<T>>)
        requires
            size > 0,
        ensures
            forall|i: int| 0 <= i < chunks@.len() ==> (#[trigger] chunks@[i])@.len() == size,
            joined(chunks@) + final(self)@ == old(self)@,
            final(self)@.len() < size,
            old(self)@.len() == chunks@.len() * size + final(self)@.len(),
            forall|i: int, k: int|
                #![trigger chunks@[i]@[k]]
                0 <= i < chunks@.len() && 0 <= k < size ==> chunks@[i]@[k] == old(self)@[i * size
                    + k],
            final(self)@ == old(self)@.skip(chunks@.len() * size),
    {
        let ghost before = self@;
        let mut chunks: Vec<Vec<T>> = Vec::new();
        assert(joined(chunks@) + self@ =~= before);
        loop
            invariant
                size > 0,
                before == old(self)@,
                forall|i: int| 0 <= i < chunks@.len() ==> (#[trigger] chunks@[i])@.len() == size,
                joined(chunks@) + self@ == before,
            decreases self@.len(),
        {
            let ghost waiting = self@;
            match self.take(size) {
                Some(chunk) => {
                    let ghost taken = chunks@;
                    assert(waiting =~= chunk@ + self@);
                    chunks.push(chunk);
                    assert(chunks@.drop_last() =~= taken);
                    assert(joined(chunks@) + self@ =~= joined(taken) + waiting);
                },
                None => {
                    proof {
                        lemma_joined_len(chunks@, size as int);
                        let all = joined(chunks@);
                        assert(before.skip(chunks@.len() * size) =~= self@);
                        assert forall|i: int, k: int|
                            #![trigger chunks@[i]@[k]]
                            0 <= i < chunks@.len() && 0 <= k < size implies chunks@[i]@[k]
                            == before[i * size + k] by {
                            lemma_joined_at(chunks@, size as int, i, k);
                            assert(before[i * size + k] == all[i * size + k]);
                        }
                    }
                    return chunks;
                },
            }
        }
    }

    /// Moves everything that waits here behind what waits in `other`.
    pub fn move_to(&mut self, other: &mut SampleQueue<T>)
        ensures
            final(self)@ == Seq::<T>::empty(),
            final(other)@ == old(other)@ + old(self)@,
    {
        other.samples.append(&mut self.samples);
    }
}

/// The samples of all `chunks`, one chunk after the other.
pub open spec fn joined<T>(chunks: Seq<Vec<T>>) -> Seq<T>
    decreases chunks.len(),
{
    if chunks.len() == 0 {
        Seq::empty()
    } else {
        joined(chunks.drop_last()) + chunks.last()@
    }
}

proof fn lemma_joined_len<T>(chunks: Seq<Vec<T>>, size: int)
    requires
        forall|i: int| 0 <= i < chunks.len() ==> (#[trigger] chunks[i])@.len() == size,
    ensures
        joined(chunks).len() == chunks.len() * size,
    decreases chunks.len(),
{
    if chunks.len() > 0 {
        lemma_joined_len(chunks.drop_last(), size);
        let count = chunks.len() - 1;
        assert((count + 1) * size == count * size + size) by (nonlinear_arith);
    } else {
        assert(0 * size == 0) by (nonlinear_arith);
    }
}

proof fn lemma_joined_at<T>(chunks: Seq<Vec<T>>, size: int, i: int, k: int)
    requires
        forall|i: int| 0 <= i < chunks.len() ==> (#[trigger] chunks[i])@.len() == size,
        0 <= i < chunks.len(),
        0 <= k < size,
    ensures
        0 <= i * size + k < joined(chunks).len(),
        joined(chunks)[i * size + k] == chunks[i]@[k],
    decreases chunks.len(),
{
    let rest = chunks.drop_last();
    let count = rest.len() as int;
    lemma_joined_len(rest, size);
    assert((count + 1) * size == count * size + size) by (nonlinear_arith);
    assert(0 <= i * size) by (nonlinear_arith)
        requires
            0 <= i,
            size > 0,
    ;
    if i < count {
        lemma_joined_at(rest, size, i, k);
    }
}

/// Watches the input level, to tell a dead input from a quiet one.
pub struct LevelMeter {
    peak: u32,
    sample_count: u64,
    quiet_warned: bool,
    dead_warned: bool,
}

/// What a [`LevelMeter`] knows: the peak and the number of samples since the
/// last report, and which warnings stand.
pub ghost struct Level {
    pub peak: u32,
    pub sample_count: nat,
    pub quiet_warned: bool,
    pub dead_warned: bool,
}

impl Level {
    /// The peak is a number.
    pub open spec fn well_formed(self) -> bool {
        !single::is_nan(self.peak)
    }
}

/// How often the input level is reported, in milliseconds.
pub const LEVEL_INTERVAL_MS: u64 = 500;

/// How long to wait for samples before the input level is to be reported, in
/// milliseconds, when the last report was `elapsed_ms` ago. `None` if the report is
/// due, whether or not samples have come.
pub fn level_wait(elapsed_ms: u64) -> (wait: Option<u64>)
    ensures
        wait == (if elapsed_ms >= LEVEL_INTERVAL_MS {
            None
        } else {
            Some((LEVEL_INTERVAL_MS - elapsed_ms) as u64)
        }),
        wait matches Some(rest) ==> rest > 0 && elapsed_ms + rest == 500,
        wait is None ==> elapsed_ms >= 500,
{
    if elapsed_ms >= LEVEL_INTERVAL_MS {
        None
    } else {
        Some(LEVEL_INTERVAL_MS - elapsed_ms)
    }
}

/// What there is to say of the input level. Peaks are bit patterns.
#[derive(Debug)]
pub enum LevelReport {
    /// No sample came: the device produces no data. `again` if the user was warned
    /// of it already.
    NoSamples { again: bool },
    /// Samples come, and none of them carries a signal. `again` if the user was
    /// warned of it already.
    AppearsDead { peak: u32, again: bool },
    /// The input is live, if perhaps below typical speech.
    Live { peak: u32, quiet: bool },
}

impl View for LevelMeter {
    type V = Level;

    closed spec fn view(&self) -> Level {
        Level {
            peak: self.peak,
            sample_count: self.sample_count as nat,
            quiet_warned: self.quiet_warned,
            dead_warned: self.dead_warned,
        }
    }
}

/// `peak` is the greatest of `floor` and the absolute values of `samples`.
pub open spec fn is_peak(peak: u32, floor: u32, samples: Seq<u32>) -> bool {
    &&& peak == floor || exists|i: int|
        0 <= i < samples.len() && peak == single::magnitude(#[trigger] samples[i])
    &&& !single::is_nan(peak)
    &&& !single::below(peak, floor)
    &&& forall|i: int|
        0 <= i < samples.len() ==> !single::below(peak, single::magnitude(#[trigger] samples[i]))
}

impl LevelMeter {
    pub fn new() -> (meter: Self)
        ensures
            meter@ == (Level {
                peak: 0,
                sample_count: 0,
                quiet_warned: false,
                dead_warned: false,
            }),
            meter@.well_formed(),
    {
        LevelMeter { peak: 0, sample_count: 0, quiet_warned: false, dead_warned: false }
    }

    /// Takes the bit patterns of samples into account.
    pub fn observe(&mut self, samples: &Vec<u32>)
        requires
            old(self)@.sample_count + samples@.len() <= u64::MAX,
            old(self)@.well_formed(),
        ensures
            final(self)@.well_formed(),
            is_peak(final(self)@.peak, old(self)@.peak, samples@),
            forall|i: int|
                0 <= i < samples@.len() && !single::is_nan(#[trigger] samples@[i]) ==> single::rank(
                    single::magnitude(samples@[i]),
                ) <= single::rank(final(self)@.peak),
            single::rank(old(self)@.peak) <= single::rank(final(self)@.peak),
            final(self)@.peak == old(self)@.peak || exists|i: int|
                0 <= i < samples@.len() && final(self)@.peak == single::magnitude(
                    #[trigger] samples@[i],
                ),
            final(self)@.sample_count == old(self)@.sample_count + samples@.len(),
            final(self)@.quiet_warned == old(self)@.quiet_warned,
            final(self)@.dead_warned == old(self)@.dead_warned,
    {
        let ghost before = self@;
        let mut i: usize = 0;
        while i < samples.len()
            invariant
                i <= samples.len(),
                is_peak(self@.peak, before.peak, samples@.take(i as int)),
                self@.sample_count == before.sample_count,
                self@.quiet_warned == before.quiet_warned,
                self@.dead_warned == before.dead_warned,
            decreases samples.len() - i,
        {
            let level: u32 = single::abs(samples[i]);
            let ghost seen = samples@.take(i as int);
            let ghost now = samples@.take(i + 1);
            assert(now[i as int] == samples@[i as int]);
            assert(forall|k: int| 0 <= k < i ==> seen[k] == #[trigger] now[k]);
            if single::is_below(self.peak, level) {
                self.peak = level;
            }
            i = i + 1;
        }
        assert(samples@.take(samples@.len() as int) =~= samples@);
        self.sample_count = self.sample_count + samples.len() as u64;
    }

    /// Reports the level since the last report and starts over. The user has been
    /// warned already unless this is the first such report, or the first one since
    /// the input was live.
    pub fn report(&mut self) -> (report: LevelReport)
        ensures
            final(self)@.well_formed(),
            ({
                let dead = old(self)@.sample_count > 0 && single::below(
                    old(self)@.peak,
                    DEAD_LEVEL,
                );
                &&& final(self)@.peak == 0
                &&& final(self)@.sample_count == 0
                &&& if old(self)@.sample_count == 0 {
                    &&& report == (LevelReport::NoSamples { again: old(self)@.dead_warned })
                    &&& final(self)@.dead_warned
                    &&& final(self)@.quiet_warned == old(self)@.quiet_warned
                } else if dead {
                    &&& report == (LevelReport::AppearsDead {
                        peak: old(self)@.peak,
                        again: old(self)@.quiet_warned,
                    })
                    &&& final(self)@.quiet_warned
                    &&& final(self)@.dead_warned == old(self)@.dead_warned
                } else {
                    &&& report == (LevelReport::Live {
                        peak: old(self)@.peak,
                        quiet: single::below(old(self)@.peak, QUIET_LEVEL),
                    })
                    &&& !final(self)@.quiet_warned
                    &&& !final(self)@.dead_warned
                }
            }),
    {
        let peak: u32 = self.peak;
        let count: u64 = self.sample_count;
        self.peak = 0;
        self.sample_count = 0;
        if count == 0 {
            let again: bool = self.dead_warned;
            self.dead_warned = true;
            LevelReport::NoSamples { again }
        } else if single::is_below(peak, DEAD_LEVEL) {
            let again: bool = self.quiet_warned;
            self.quiet_warned = true;
            LevelReport::AppearsDead { peak, again }
        } else {
            self.quiet_warned = false;
            self.dead_warned = false;
            LevelReport::Live { peak, quiet: single::is_below(peak, QUIET_LEVEL) }
        }
    }
}

/// Half is enough for speech, a peak below two thousandths is that of a dead input, and
/// one below two hundredths that of a quiet one.
pub proof fn levels_are_what_they_say()
    ensures
        single::is_nearest(SPEECH_THRESHOLD, 1, 2),
        single::is_nearest(DEAD_LEVEL, 2, 1000),
        single::is_nearest(QUIET_LEVEL, 2, 100),
{
    lemma2_to64();
    assert(SPEECH_THRESHOLD / 0x80_0000 == 126 && SPEECH_THRESHOLD % 0x80_0000 == 0);
    assert(pow2(1) == 2);
    single::nearness_can_be_told(SPEECH_THRESHOLD, 1, 2, 2);
    assert(DEAD_LEVEL / 0x80_0000 == 118 && DEAD_LEVEL % 0x80_0000 == 0x3126f);
    assert(pow2(9) == 512);
    single::nearness_can_be_told(DEAD_LEVEL, 2, 1000, 512);
    assert(QUIET_LEVEL / 0x80_0000 == 121 && QUIET_LEVEL % 0x80_0000 == 0x23d70a);
    assert(pow2(6) == 64);
    single::nearness_can_be_told(QUIET_LEVEL, 2, 100, 64);
}

/// The silence that ends an utterance lasts a second, and not a chunk more than that
/// takes; what is replayed is a quarter of it. Chunks are tested at 16 kHz.
pub proof fn silence_lasts_a_second()
    ensures
        SPEECH_RATE == 16000,
        (SILENCE_CHUNKS_FOR_RESET - 1) * VAD_CHUNK_SIZE < SPEECH_RATE,
        SPEECH_RATE <= SILENCE_CHUNKS_FOR_RESET * VAD_CHUNK_SIZE,
        4 * LOOKBACK_CHUNKS == SILENCE_CHUNKS_FOR_RESET,
        VAD_CHUNK_SIZE == 512,
{
}

}
