//! One direction's pipeline: what it tells the user while an utterance is
//! transcribed, translated, and spoken.

use crate::config::{CerebrasConfig, Direction, LanguageConfig, MistralConfig};
use crate::stt::SttEvent;
use vstd::prelude::*;
use vstd::string::*;

verus! {

broadcast use vstd::string::group_string_axioms;

/// What a pipeline is doing.
#[derive(Clone, Copy, Debug, PartialEq, Eq, Structural)]
pub enum Stage {
    Listening,
    Transcribing,
    Translating,
    Speaking,
}

impl Default for Stage {
    fn default() -> (stage: Self)
        ensures
            stage == Stage::Listening,
    {
        Stage::Listening
    }
}

/// What a pipeline tells the user. Everything carries the direction that it comes
/// from.
#[derive(Clone, Debug)]
pub enum UiEvent {
    /// The transcript so far of the current utterance.
    SourcePartial { direction: Direction, text: String },
    /// The transcript of a completed utterance.
    SourceFinal { direction: Direction, text: String },
    /// A completed translation.
    Translation { direction: Direction, source: String, translated: String },
    Stage { direction: Direction, stage: Stage },
    Error { direction: Direction, message: String },
}

/// What a [`UiEvent`] says, in characters.
pub ghost enum News {
    SourcePartial(Seq<char>),
    SourceFinal(Seq<char>),
    Translation { source: Seq<char>, translated: Seq<char> },
    Stage(Stage),
    Error(Seq<char>),
}

impl UiEvent {
    /// The direction that the event comes from.
    pub open spec fn direction(self) -> Direction {
        match self {
            UiEvent::SourcePartial { direction, .. } => direction,
            UiEvent::SourceFinal { direction, .. } => direction,
            UiEvent::Translation { direction, .. } => direction,
            UiEvent::Stage { direction, .. } => direction,
            UiEvent::Error { direction, .. } => direction,
        }
    }

    /// What the event says.
    pub open spec fn news(self) -> News {
        match self {
            UiEvent::SourcePartial { text, .. } => News::SourcePartial(text@),
            UiEvent::SourceFinal { text, .. } => News::SourceFinal(text@),
            UiEvent::Translation { source, translated, .. } => News::Translation {
                source: source@,
                translated: translated@,
            },
            UiEvent::Stage { stage, .. } => News::Stage(stage),
            UiEvent::Error { message, .. } => News::Error(message@),
        }
    }
}

impl DeepView for UiEvent {
    type V = (Direction, News);

    open spec fn deep_view(&self) -> (Direction, News) {
        (self.direction(), self.news())
    }
}

/// `news`, all from one direction.
pub open spec fn tagged(direction: Direction, news: Seq<News>) -> Seq<(Direction, News)> {
    news.map_values(|one: News| (direction, one))
}

/// Everything one pipeline needs.
pub struct PipelineConfig {
    pub direction: Direction,
    pub mistral: MistralConfig,
    pub cerebras: CerebrasConfig,
    pub languages: LanguageConfig,
}

/// What a pipeline waits for.
#[derive(Debug)]
pub enum PipelineEvent {
    /// The transcription gives something.
    Stt(SttEvent),
    /// The transcription has ended.
    SttClosed,
    /// The translation is there, or the reason why it is not.
    Translated(Result<String, String>),
    /// The speech is on its way to the outputs, or the reason why it is not.
    Spoken(Result<(), String>),
}

/// What a pipeline does next.
#[derive(Debug)]
pub enum PipelineStep {
    /// Wait for the transcription.
    Wait,
    /// Translate this.
    Translate(String),
    /// Synthesize this and play it.
    Speak(String),
    /// The transcription has ended, and so does the pipeline.
    Stop,
}

/// How far a pipeline has come with an utterance.
pub ghost enum Work {
    Waiting,
    Translating(Seq<char>),
    Speaking(Seq<char>),
    Stopped,
}

impl View for PipelineStep {
    type V = Work;

    open spec fn view(&self) -> Work {
        match self {
            PipelineStep::Wait => Work::Waiting,
            PipelineStep::Translate(source) => Work::Translating(source@),
            PipelineStep::Speak(translated) => Work::Speaking(translated@),
            PipelineStep::Stop => Work::Stopped,
        }
    }
}

impl Work {
    /// How far the pipeline has come after `event`. An event that nothing waits
    /// for changes nothing.
    pub open spec fn after(self, event: PipelineEvent) -> Work {
        match (self, event) {
            (Work::Waiting, PipelineEvent::Stt(SttEvent::Final(source))) => Work::Translating(
                source@,
            ),
            (Work::Waiting, PipelineEvent::SttClosed) => Work::Stopped,
            (Work::Translating(_), PipelineEvent::Translated(Ok(translated))) => Work::Speaking(
                translated@,
            ),
            (Work::Translating(_), PipelineEvent::Translated(Err(_))) => Work::Waiting,
            (Work::Speaking(_), PipelineEvent::Spoken(_)) => Work::Waiting,
            _ => self,
        }
    }

    /// What the user is told of `event`.
    pub open spec fn news(self, event: PipelineEvent) -> Seq<News> {
        match (self, event) {
            (Work::Waiting, PipelineEvent::Stt(SttEvent::Partial(text))) => seq![
                News::Stage(Stage::Transcribing),
                News::SourcePartial(text@),
            ],
            (Work::Waiting, PipelineEvent::Stt(SttEvent::Final(source))) => seq![
                News::SourceFinal(source@),
                News::Stage(Stage::Translating),
            ],
            (Work::Waiting, PipelineEvent::SttClosed) => seq![News::Stage(Stage::Listening)],
            (Work::Translating(source), PipelineEvent::Translated(Ok(translated))) => seq![
                News::Translation { source, translated: translated@ },
                News::Stage(Stage::Speaking),
            ],
            (Work::Translating(_), PipelineEvent::Translated(Err(message))) => seq![
                News::Error(message@),
                News::Stage(Stage::Listening),
            ],
            (Work::Speaking(_), PipelineEvent::Spoken(Ok(_))) => seq![
                News::Stage(Stage::Listening),
            ],
            (Work::Speaking(_), PipelineEvent::Spoken(Err(message))) => seq![
                News::Error(message@),
                News::Stage(Stage::Listening),
            ],
            _ => Seq::empty(),
        }
    }
}

enum Doing {
    Waiting,
    Translating(String),
    Speaking(String),
    Stopped,
}

impl Doing {
    spec fn work(self) -> Work {
        match self {
            Doing::Waiting => Work::Waiting,
            Doing::Translating(source) => Work::Translating(source@),
            Doing::Speaking(translated) => Work::Speaking(translated@),
            Doing::Stopped => Work::Stopped,
        }
    }
}

/// Takes the utterances of one direction from the transcript to the speech.
pub struct Consumer {
    direction: Direction,
    doing: Doing,
}

impl View for Consumer {
    type V = Work;

    closed spec fn view(&self) -> Work {
        self.doing.work()
    }
}

fn push_news(events: &mut Vec<UiEvent>, event: UiEvent)
    ensures
        final(events).deep_view() == old(events).deep_view().push(event.deep_view()),
{
    events.push(event);
    assert(events.deep_view() =~= old(events).deep_view().push(event.deep_view()));
}

impl Consumer {
    pub closed spec fn direction(self) -> Direction {
        self.direction
    }

    pub fn new(direction: Direction) -> (consumer: Self)
        ensures
            consumer.direction() == direction,
            consumer@ == Work::Waiting,
    {
        Consumer { direction, doing: Doing::Waiting }
    }

    /// What is to be done next.
    pub fn step(&self) -> (step: PipelineStep)
        ensures
            step@ == self@,
    {
        match &self.doing {
            Doing::Waiting => PipelineStep::Wait,
            Doing::Translating(source) => PipelineStep::Translate(source.clone()),
            Doing::Speaking(translated) => PipelineStep::Speak(translated.clone()),
            Doing::Stopped => PipelineStep::Stop,
        }
    }

    /// Takes the next event and gives what to tell the user.
    pub fn on(&mut self, event: PipelineEvent) -> (events: Vec<UiEvent>)
        ensures
            final(self)@ == old(self)@.after(event),
            final(self).direction() == old(self).direction(),
            events.deep_view() == tagged(old(self).direction(), old(self)@.news(event)),
    {
        let direction: Direction = self.direction;
        let ghost before = self@;
        let mut doing: Doing = Doing::Waiting;
        std::mem::swap(&mut doing, &mut self.doing);
        let mut events: Vec<UiEvent> = Vec::new();
        self.doing = match (doing, event) {
            (Doing::Waiting, PipelineEvent::Stt(SttEvent::Partial(text))) => {
                push_news(&mut events, UiEvent::Stage { direction, stage: Stage::Transcribing });
                push_news(&mut events, UiEvent::SourcePartial { direction, text });
                Doing::Waiting
            },
            (Doing::Waiting, PipelineEvent::Stt(SttEvent::Final(source))) => {
                push_news(&mut events, UiEvent::SourceFinal { direction, text: source.clone() });
                push_news(&mut events, UiEvent::Stage { direction, stage: Stage::Translating });
                Doing::Translating(source)
            },
            (Doing::Waiting, PipelineEvent::SttClosed) => {
                push_news(&mut events, UiEvent::Stage { direction, stage: Stage::Listening });
                Doing::Stopped
            },
            (Doing::Translating(source), PipelineEvent::Translated(Ok(translated))) => {
                push_news(
                    &mut events,
                    UiEvent::Translation { direction, source, translated: translated.clone() },
                );
                push_news(&mut events, UiEvent::Stage { direction, stage: Stage::Speaking });
                Doing::Speaking(translated)
            },
            (Doing::Translating(_), PipelineEvent::Translated(Err(message))) => {
                push_news(&mut events, UiEvent::Error { direction, message });
                push_news(&mut events, UiEvent::Stage { direction, stage: Stage::Listening });
                Doing::Waiting
            },
            (Doing::Speaking(_), PipelineEvent::Spoken(Ok(_))) => {
                push_news(&mut events, UiEvent::Stage { direction, stage: Stage::Listening });
                Doing::Waiting
            },
            (Doing::Speaking(_), PipelineEvent::Spoken(Err(message))) => {
                push_news(&mut events, UiEvent::Error { direction, message });
                push_news(&mut events, UiEvent::Stage { direction, stage: Stage::Listening });
                Doing::Waiting
            },
            (doing, _) => doing,
        };
        assert(events.deep_view() =~= tagged(direction, before.news(event)));
        events
    }
}

/// Whatever becomes of an utterance, the pipeline waits for the next one and the
/// last thing that the user is told is that it listens again.
pub proof fn utterance_ends_listening(
    source: Seq<char>,
    translated: Result<String, String>,
    spoken: Result<(), String>,
)
    ensures
        ({
            let translating = Work::Translating(source);
            let done = translating.after(PipelineEvent::Translated(translated));
            match translated {
                Err(_) => {
                    &&& done == Work::Waiting
                    &&& translating.news(PipelineEvent::Translated(translated)).last()
                        == News::Stage(Stage::Listening)
                },
                Ok(text) => {
                    &&& done == Work::Speaking(text@)
                    &&& done.after(PipelineEvent::Spoken(spoken)) == Work::Waiting
                    &&& done.news(PipelineEvent::Spoken(spoken)).last() == News::Stage(
                        Stage::Listening,
                    )
                },
            }
        }),
{
}

/// A failure is told to the user, and stops nothing: the pipeline goes on to the
/// next utterance.
pub proof fn failure_is_told(work: Work, event: PipelineEvent, message: String)
    requires
        (work is Translating && event == PipelineEvent::Translated(Err::<String, String>(message)))
            || (work is Speaking && event == PipelineEvent::Spoken(Err::<(), String>(message))),
    ensures
        work.news(event).contains(News::Error(message@)),
        work.after(event) == Work::Waiting,
{
    assert(work.news(event)[0] == News::Error(message@));
}

/// What is being said is shown as it is, and the pipeline goes on waiting.
pub proof fn partial_transcript_is_told(text: String)
    ensures
        ({
            let event = PipelineEvent::Stt(SttEvent::Partial(text));
            &&& Work::Waiting.after(event) == Work::Waiting
            &&& Work::Waiting.news(event) == seq![
                News::Stage(Stage::Transcribing),
                News::SourcePartial(text@),
            ]
        }),
{
}

/// What was said is translated as it was said, and what was translated is spoken as it
/// was translated: both are told, together, and the pipeline then waits again.
pub proof fn utterance_is_translated_and_spoken(source: String, translated: String)
    ensures
        ({
            let said = PipelineEvent::Stt(SttEvent::Final(source));
            let done = PipelineEvent::Translated(Ok::<String, String>(translated));
            let spoken = PipelineEvent::Spoken(Ok::<(), String>(()));
            let translating = Work::Waiting.after(said);
            let speaking = translating.after(done);
            &&& translating == Work::Translating(source@)
            &&& Work::Waiting.news(said) == seq![
                News::SourceFinal(source@),
                News::Stage(Stage::Translating),
            ]
            &&& speaking == Work::Speaking(translated@)
            &&& translating.news(done) == seq![
                News::Translation { source: source@, translated: translated@ },
                News::Stage(Stage::Speaking),
            ]
            &&& speaking.after(spoken) == Work::Waiting
            &&& speaking.news(spoken) == seq![News::Stage(Stage::Listening)]
        }),
{
}

/// A failure is told with its reason, and then that the pipeline listens; nothing else.
pub proof fn failures_are_told_with_their_reason(text: Seq<char>, message: String)
    ensures
        Work::Translating(text).news(
            PipelineEvent::Translated(Err::<String, String>(message)),
        ) == seq![News::Error(message@), News::Stage(Stage::Listening)],
        Work::Speaking(text).news(PipelineEvent::Spoken(Err::<(), String>(message))) == seq![
            News::Error(message@),
            News::Stage(Stage::Listening),
        ],
{
}

/// The pipeline stops when the transcription has ended, and then does nothing more; what
/// it does not wait for changes nothing and is not told.
pub proof fn pipeline_stops_with_the_transcription(work: Work, event: PipelineEvent)
    ensures
        Work::Waiting.after(PipelineEvent::SttClosed) == Work::Stopped,
        Work::Waiting.news(PipelineEvent::SttClosed) == seq![News::Stage(Stage::Listening)],
        Work::Stopped.after(event) == Work::Stopped,
        Work::Stopped.news(event).len() == 0,
        work is Translating && !(event is Translated) ==> work.after(event) == work && work.news(
            event,
        ).len() == 0,
        work is Speaking && !(event is Spoken) ==> work.after(event) == work && work.news(
            event,
        ).len() == 0,
        work is Waiting && !(event is Stt) && !(event is SttClosed) ==> work.after(event) == work
            && work.news(event).len() == 0,
{
}

/// All that a pipeline tells carries its direction, in order.
pub proof fn news_carries_the_direction(direction: Direction, news: Seq<News>, at: int)
    requires
        0 <= at < news.len(),
    ensures
        tagged(direction, news).len() == news.len(),
        tagged(direction, news)[at] == (direction, news[at]),
{
}

/// An event says what it holds, of the direction that it holds.
pub proof fn events_say_what_they_hold(
    direction: Direction,
    text: String,
    translated: String,
    stage: Stage,
)
    ensures
        (UiEvent::SourcePartial { direction, text }).deep_view() == (
            direction,
            News::SourcePartial(text@),
        ),
        (UiEvent::SourceFinal { direction, text }).deep_view() == (
            direction,
            News::SourceFinal(text@),
        ),
        (UiEvent::Translation { direction, source: text, translated }).deep_view() == (
            direction,
            News::Translation { source: text@, translated: translated@ },
        ),
        (UiEvent::Stage { direction, stage }).deep_view() == (direction, News::Stage(stage)),
        (UiEvent::Error { direction, message: text }).deep_view() == (
            direction,
            News::Error(text@),
        ),
{
}

/// A step is what is to be done, with the text that it is to be done with.
pub proof fn steps_hold_their_text(text: String)
    ensures
        PipelineStep::Wait@ == Work::Waiting,
        PipelineStep::Translate(text)@ == Work::Translating(text@),
        PipelineStep::Speak(text)@ == Work::Speaking(text@),
        PipelineStep::Stop@ == Work::Stopped,
{
}

}
