//! Realtime transcription over a message stream.
//!
//! Each utterance has its own session. A session is opened while nobody speaks,
//! so that it is ready for the first frame. Frames are appended as they come;
//! the end of the utterance flushes and ends the input. The provider answers
//! with increments of the transcript and, at last, with the whole of it.

use crate::audio::Segment;
use crate::encoding;
use crate::json;
use crate::json::JsonTree;
use crate::text;
use serde_json::Value;
use vstd::prelude::*;
use vstd::string::*;
use vstd::utf8::{decode_utf8, valid_utf8};

verus! {

broadcast use vstd::string::group_string_axioms;

/// What the transcription of an utterance gives.
#[derive(Debug, Clone)]
pub enum SttEvent {
    /// The transcript so far of the utterance that is being spoken.
    Partial(String),
    /// The transcript of a completed utterance.
    Final(String),
}

/// A [`SttEvent`], in characters.
pub ghost enum Transcript {
    Partial(Seq<char>),
    Final(Seq<char>),
}

impl View for SttEvent {
    type V = Transcript;

    open spec fn view(&self) -> Transcript {
        match self {
            SttEvent::Partial(text) => Transcript::Partial(text@),
            SttEvent::Final(text) => Transcript::Final(text@),
        }
    }
}

impl DeepView for SttEvent {
    type V = Transcript;

    open spec fn deep_view(&self) -> Transcript {
        self@
    }
}

/// Where the realtime service for the REST address `base` is found.
pub open spec fn realtime_address(base: Seq<char>, model: Seq<char>) -> Seq<char> {
    let base = text::without_trailing(base, '/');
    let socket = if "https://"@.is_prefix_of(base) {
        "wss://"@ + base.skip("https://"@.len() as int)
    } else if "http://"@.is_prefix_of(base) {
        "ws://"@ + base.skip("http://"@.len() as int)
    } else {
        base
    };
    socket + "/audio/transcriptions/realtime?model="@ + model
}

/// The address of the realtime service: that of the REST service, with the
/// scheme of a web socket.
pub fn realtime_url(base: &str, model: &str) -> (url: String)
    ensures
        url@ == realtime_address(base@, model@),
{
    let base: &str = text::trim_end_of(base, '/');
    let mut url: String = match text::strip_prefix(base, "https://") {
        Some(rest) => "wss://".to_owned().concat(rest),
        None => match text::strip_prefix(base, "http://") {
            Some(rest) => "ws://".to_owned().concat(rest),
            None => base.to_owned(),
        },
    };
    url.append("/audio/transcriptions/realtime?model=");
    url.append(model);
    url
}

/// The message that appends `frame` to the input.
pub open spec fn append_tree(frame: Seq<i16>) -> JsonTree {
    JsonTree::Object(
        map![
            "type"@ => JsonTree::Text("input_audio.append"@),
            "audio"@ => JsonTree::Text(encoding::base64_text(encoding::pcm16_bytes(frame))),
        ],
    )
}

/// The message that appends `frame` to the input: its samples as little-endian
/// PCM in Base64. A reader finds there the frame that was sent.
pub fn append_message(frame: &Vec<i16>) -> (message: String)
    ensures
        message@ == json::json_text(append_tree(frame@)),
        json::reads_as(message@, append_tree(frame@)),
        encoding::stands_for(
            encoding::base64_text(encoding::pcm16_bytes(frame@)),
            encoding::pcm16_bytes(frame@),
        ),
        encoding::pcm16_samples(encoding::pcm16_bytes(frame@)) == frame@,
        ({
            &&& json::json_parse(message@) matches Ok(tree)
            &&& tree.text_at("type"@) == Some("input_audio.append"@)
            &&& tree.text_at("audio"@) matches Some(audio)
            &&& encoding::base64_bytes(audio) matches Ok(bytes)
            &&& encoding::pcm16_samples(bytes) == frame@
        }),
{
    let audio: String = encoding::base64_encode(encoding::pcm16_encode(frame).as_slice());
    let message: Value = json::with(
        json::with(json::empty_object(), "type", json::of_text("input_audio.append")),
        "audio",
        json::of_text(&audio),
    );
    proof {
        encoding::pcm16_reads_back(frame@);
        assert(json::json_tree(message) =~= append_tree(frame@));
        assert(append_tree(frame@).plain(64)) by {
            reveal_with_fuel(JsonTree::plain, 2);
        }
        reveal_strlit("type");
        reveal_strlit("audio");
        assert("type"@.len() != "audio"@.len());
    }
    json::to_text(&message)
}

/// The message that configures a session.
pub open spec fn session_update_tree(delay_ms: u32) -> JsonTree {
    JsonTree::Object(
        map![
            "type"@ => JsonTree::Text("session.update"@),
            "session"@ => JsonTree::Object(
                map![
                    "audio_format"@ => JsonTree::Object(
                        map![
                            "encoding"@ => JsonTree::Text("pcm_s16le"@),
                            "sample_rate"@ => JsonTree::UInt(16000),
                        ],
                    ),
                    "target_streaming_delay_ms"@ => JsonTree::UInt(delay_ms as u64),
                ],
            ),
        ],
    )
}

/// The message that configures a session: 16 kHz PCM, and the target latency.
pub fn session_update(delay_ms: u32) -> (message: String)
    ensures
        message@ == json::json_text(session_update_tree(delay_ms)),
        json::reads_as(message@, session_update_tree(delay_ms)),
        ({
            &&& json::json_parse(message@) matches Ok(tree)
            &&& tree.text_at("type"@) == Some("session.update"@)
            &&& tree.get("session"@) matches Some(session)
            &&& session.get("target_streaming_delay_ms"@) == Some(JsonTree::UInt(delay_ms as u64))
            &&& session.get("audio_format"@) matches Some(format)
            &&& format.text_at("encoding"@) == Some("pcm_s16le"@)
            &&& format.get("sample_rate"@) == Some(JsonTree::UInt(16000))
        }),
{
    let format: Value = json::with(
        json::with(json::empty_object(), "encoding", json::of_text("pcm_s16le")),
        "sample_rate",
        json::of_uint(16000),
    );
    let session: Value = json::with(
        json::with(json::empty_object(), "audio_format", format),
        "target_streaming_delay_ms",
        json::of_uint(delay_ms as u64),
    );
    let message: Value = json::with(
        json::with(json::empty_object(), "type", json::of_text("session.update")),
        "session",
        session,
    );
    proof {
        assert(json::json_tree(format) =~= JsonTree::Object(
            map![
                "encoding"@ => JsonTree::Text("pcm_s16le"@),
                "sample_rate"@ => JsonTree::UInt(16000),
            ],
        ));
        assert(json::json_tree(session) =~= JsonTree::Object(
            map![
                "audio_format"@ => json::json_tree(format),
                "target_streaming_delay_ms"@ => JsonTree::UInt(delay_ms as u64),
            ],
        ));
        assert(json::json_tree(message) =~= session_update_tree(delay_ms));
        assert(session_update_tree(delay_ms).plain(64)) by {
            reveal_with_fuel(JsonTree::plain, 4);
        }
        reveal_strlit("type");
        reveal_strlit("session");
        reveal_strlit("audio_format");
        reveal_strlit("target_streaming_delay_ms");
        reveal_strlit("encoding");
        reveal_strlit("sample_rate");
        assert("type"@.len() != "session"@.len());
        assert("audio_format"@.len() != "target_streaming_delay_ms"@.len());
        assert("encoding"@.len() != "sample_rate"@.len());
    }
    json::to_text(&message)
}

/// The message that has the provider transcribe what it holds.
pub const FLUSH: &'static str = "{\"type\":\"input_audio.flush\"}";

/// The message that ends the input of an utterance.
pub const END: &'static str = "{\"type\":\"input_audio.end\"}";

/// How long the provider is given to apply the configuration of a session, in
/// milliseconds.
pub const SESSION_SETTLE_MS: u64 = 75;

/// The provider reports an error in `raw`.
pub open spec fn reports_error(raw: Seq<char>) -> bool {
    json::json_parse(raw) matches Ok(payload) && payload.text_at("type"@) == Some("error"@)
}

/// True when the provider reports an error.
pub fn is_error_event(raw: &str) -> (error: bool)
    ensures
        error == reports_error(raw@),
        error == (match json::json_parse(raw@) {
            Ok(payload) => payload.text_at("type"@) == Some("error"@),
            Err(_) => false,
        }),
{
    match json::from_text(raw) {
        Ok(payload) => match json::text_at(&payload, "type") {
            Some(kind) => text::same(kind, "error"),
            None => false,
        },
        Err(_) => false,
    }
}

/// How a message of the provider changes the transcription of an utterance.
pub ghost struct Progress {
    /// The transcript that has been put together.
    pub full: Seq<char>,
    /// What there is to tell.
    pub told: Option<Transcript>,
    /// The utterance is finished.
    pub finished: bool,
}

/// The progress that a message of some kind makes, with the text that it
/// carries. Increments add up. A finished utterance has the text that comes with
/// it, or else what the increments gave; a blank one is not told.
pub open spec fn progress(
    kind: Option<Seq<char>>,
    carried: Option<Seq<char>>,
    full: Seq<char>,
) -> Progress {
    if kind == Some("transcription.text.delta"@) {
        match carried {
            Some(more) => Progress {
                full: full + more,
                told: Some(Transcript::Partial(full + more)),
                finished: false,
            },
            None => Progress { full, told: None, finished: false },
        }
    } else if kind == Some("transcription.done"@) {
        let whole = match carried {
            Some(given) => if given.len() > 0 {
                given
            } else {
                full
            },
            None => full,
        };
        Progress {
            full: if carried is Some && carried->0.len() > 0 {
                full
            } else {
                Seq::empty()
            },
            told: if text::trimmed(whole).len() > 0 {
                Some(Transcript::Final(whole))
            } else {
                None
            },
            finished: true,
        }
    } else {
        Progress { full, told: None, finished: kind == Some("error"@) }
    }
}

/// The progress that the message `raw` makes. What is no JSON makes none.
pub open spec fn raw_progress(raw: Seq<char>, full: Seq<char>) -> Progress {
    match json::json_parse(raw) {
        Ok(payload) => progress(payload.text_at("type"@), payload.text_at("text"@), full),
        Err(_) => Progress { full, told: None, finished: false },
    }
}

/// Takes a message of some kind, with the text that it carries, into the
/// transcript `full`. Gives what there is to tell, and whether the utterance is
/// finished.
pub fn handle_payload(kind: Option<&str>, carried: Option<&str>, full: &mut String) -> (outcome: (
    Option<SttEvent>,
    bool,
))
    ensures
        ({
            let made = progress(kind.deep_view(), carried.deep_view(), old(full)@);
            &&& final(full)@ == made.full
            &&& outcome.0.deep_view() == made.told
            &&& outcome.1 == made.finished
        }),
{
    let kind: &str = match kind {
        Some(kind) => kind,
        None => {
            return (None, false);
        },
    };
    if text::same(kind, "transcription.text.delta") {
        return match carried {
            Some(more) => {
                full.append(more);
                (Some(SttEvent::Partial(full.clone())), false)
            },
            None => (None, false),
        };
    }
    if text::same(kind, "transcription.done") {
        let given: &str = match carried {
            Some(given) => given,
            None => "",
        };
        proof {
            reveal_strlit("");
        }
        let whole: String = if given.is_empty() {
            let whole: String = full.clone();
            *full = String::new();
            whole
        } else {
            given.to_owned()
        };
        return if text::is_blank(&whole) {
            (None, true)
        } else {
            (Some(SttEvent::Final(whole)), true)
        };
    }
    (None, text::same(kind, "error"))
}

/// Takes the message `raw` into the transcript `full`. Gives what there is to
/// tell, and whether the utterance is finished.
pub fn handle_event(raw: &str, full: &mut String) -> (outcome: (Option<SttEvent>, bool))
    ensures
        ({
            let made = raw_progress(raw@, old(full)@);
            &&& final(full)@ == made.full
            &&& outcome.0.deep_view() == made.told
            &&& outcome.1 == made.finished
        }),
{
    match json::from_text(raw) {
        Ok(payload) => {
            let kind: Option<&str> = json::text_at(&payload, "type");
            let carried: Option<&str> = json::text_at(&payload, "text");
            handle_payload(kind, carried, full)
        },
        Err(_) => (None, false),
    }
}

/// What comes in on a session.
#[derive(Debug)]
pub enum Incoming {
    Text(String),
    Binary(Vec<u8>),
    /// The session was closed.
    Closed,
    /// A message without content, such as a ping.
    Other,
    /// Reading failed.
    Failed,
}

impl Incoming {
    /// The text of a message that carries one.
    pub open spec fn message(self) -> Option<Seq<char>> {
        match self {
            Incoming::Text(text) => Some(text@),
            Incoming::Binary(bytes) => if valid_utf8(bytes@) {
                Some(decode_utf8(bytes@))
            } else {
                None
            },
            _ => None,
        }
    }

    /// The text of a message that carries one. Bytes carry one if they are
    /// UTF-8.
    pub fn into_message(self) -> (message: Option<String>)
        ensures
            message.deep_view() == self.message(),
    {
        match self {
            Incoming::Text(text) => Some(text),
            Incoming::Binary(bytes) => text::utf8_text(bytes.as_slice()),
            _ => None,
        }
    }
}

/// What the transcription of an utterance waits for.
#[derive(Debug)]
pub enum SessionEvent {
    /// The next segment of audio.
    Segment(Segment),
    /// There will be no more segments.
    SegmentsClosed,
    /// Something came in on the session.
    Incoming(Incoming),
    /// What was to be sent is sent.
    Sent,
    /// What was to be sent could not be sent.
    SendFailed,
    /// A new session has taken the place of the old one.
    Reopened,
    /// No new session could be opened.
    ReopenFailed,
}

/// How the transcription of an utterance ended.
#[derive(Debug, Clone, Copy, PartialEq, Eq, Structural)]
pub enum Outcome {
    /// The provider finished it.
    Completed,
    /// There will be no more segments.
    SegmentsClosed,
    /// The session failed.
    Failed,
}

/// What is to be done next for an utterance.
#[derive(Debug)]
pub enum SessionStep {
    /// Wait for something to come in and, if `segments`, for the next segment.
    Wait { segments: bool },
    /// Send these messages, in order, until one cannot be sent.
    Send(Vec<String>),
    /// Open a new session in place of the old one.
    Reopen,
    /// The utterance is over.
    Finish(Outcome),
}

/// A [`SessionStep`], in characters.
pub ghost enum Todo {
    Wait { segments: bool },
    Send(Seq<Seq<char>>),
    Reopen,
    Finish(Outcome),
}

impl View for SessionStep {
    type V = Todo;

    open spec fn view(&self) -> Todo {
        match self {
            SessionStep::Wait { segments } => Todo::Wait { segments: *segments },
            SessionStep::Send(messages) => Todo::Send(messages.deep_view()),
            SessionStep::Reopen => Todo::Reopen,
            SessionStep::Finish(outcome) => Todo::Finish(*outcome),
        }
    }
}

/// How far an utterance has come.
pub ghost enum Phase {
    /// A session is ready, and nobody has spoken yet.
    Idle,
    /// The idle session is being replaced.
    IdleReopening,
    /// The first frame is being sent.
    Starting(Seq<i16>),
    /// The session that did not take the first frame is being replaced.
    StartReopening(Seq<i16>),
    /// The first frame is being sent again.
    Restarting(Seq<i16>),
    /// Frames may come, unless the input is done; transcripts may come.
    Streaming { input_done: bool },
    /// A frame is being sent.
    Appending(Seq<i16>),
    /// The input is being ended.
    Ending,
    /// It is over.
    Over(Outcome),
}

/// The transcription of an utterance: how far it has come, and the transcript
/// that has been put together.
pub ghost struct Transcribing {
    pub phase: Phase,
    pub full: Seq<char>,
}

impl Transcribing {
    /// A session is ready, and nobody has spoken yet.
    pub open spec fn start() -> Transcribing {
        Transcribing { phase: Phase::Idle, full: Seq::empty() }
    }

    /// What is to be done next.
    pub open spec fn todo(self) -> Todo {
        match self.phase {
            Phase::Idle => Todo::Wait { segments: true },
            Phase::IdleReopening | Phase::StartReopening(_) => Todo::Reopen,
            Phase::Starting(frame) | Phase::Restarting(frame) | Phase::Appending(frame) => Todo::Send(
                seq![json::json_text(append_tree(frame))],
            ),
            Phase::Streaming { input_done } => Todo::Wait { segments: !input_done },
            Phase::Ending => Todo::Send(seq![FLUSH@, END@]),
            Phase::Over(outcome) => Todo::Finish(outcome),
        }
    }

    /// The same transcript, in another phase.
    pub open spec fn to(self, phase: Phase) -> Transcribing {
        Transcribing { phase, ..self }
    }

    /// Idle, before the first frame: a session that closes, fails, or reports an
    /// error is replaced.
    pub open spec fn after_idle(self, event: SessionEvent) -> Transcribing {
        match event {
            SessionEvent::Segment(Segment::Speech(frame)) => self.to(Phase::Starting(frame@)),
            SessionEvent::SegmentsClosed => self.to(Phase::Over(Outcome::SegmentsClosed)),
            SessionEvent::Incoming(Incoming::Closed) | SessionEvent::Incoming(
                Incoming::Failed,
            ) => self.to(Phase::IdleReopening),
            SessionEvent::Incoming(incoming) => match incoming.message() {
                Some(raw) => if reports_error(raw) {
                    self.to(Phase::IdleReopening)
                } else {
                    self
                },
                None => self,
            },
            _ => self,
        }
    }

    /// During the utterance: frames are appended until it ends, and messages of
    /// the provider make progress until one finishes it. A session that closes
    /// finishes it too.
    pub open spec fn after_streaming(self, input_done: bool, event: SessionEvent) -> Transcribing {
        match event {
            SessionEvent::Segment(Segment::Speech(frame)) => if input_done {
                self
            } else {
                self.to(Phase::Appending(frame@))
            },
            SessionEvent::Segment(Segment::EndOfUtterance)
            | SessionEvent::SegmentsClosed => if input_done {
                self
            } else {
                self.to(Phase::Ending)
            },
            SessionEvent::Incoming(Incoming::Closed) => Transcribing {
                phase: Phase::Over(Outcome::Completed),
                full: Seq::empty(),
            },
            SessionEvent::Incoming(Incoming::Failed) => self.to(Phase::Over(Outcome::Failed)),
            SessionEvent::Incoming(incoming) => match incoming.message() {
                Some(raw) => {
                    let made = raw_progress(raw, self.full);
                    Transcribing {
                        phase: if made.finished {
                            Phase::Over(Outcome::Completed)
                        } else {
                            self.phase
                        },
                        full: made.full,
                    }
                },
                None => self,
            },
            _ => self,
        }
    }

    /// How far the utterance has come after `event`. An event that nothing waits
    /// for changes nothing.
    pub open spec fn after(self, event: SessionEvent) -> Transcribing {
        match (self.phase, event) {
            (Phase::Idle, _) => self.after_idle(event),
            (Phase::Streaming { input_done }, _) => self.after_streaming(input_done, event),
            (Phase::IdleReopening, SessionEvent::Reopened) => self.to(Phase::Idle),
            (Phase::IdleReopening, SessionEvent::ReopenFailed) => self.to(
                Phase::Over(Outcome::Failed),
            ),
            (Phase::Starting(_), SessionEvent::Sent) => self.to(
                Phase::Streaming { input_done: false },
            ),
            (Phase::Starting(frame), SessionEvent::SendFailed) => self.to(
                Phase::StartReopening(frame),
            ),
            (Phase::StartReopening(frame), SessionEvent::Reopened) => self.to(
                Phase::Restarting(frame),
            ),
            (Phase::StartReopening(_), SessionEvent::ReopenFailed) => self.to(
                Phase::Over(Outcome::Failed),
            ),
            (Phase::Restarting(_), SessionEvent::Sent) => self.to(
                Phase::Streaming { input_done: false },
            ),
            (Phase::Restarting(_), SessionEvent::SendFailed) => self.to(
                Phase::Over(Outcome::Failed),
            ),
            (Phase::Appending(_), SessionEvent::Sent) => self.to(
                Phase::Streaming { input_done: false },
            ),
            (Phase::Appending(_), SessionEvent::SendFailed) => self.to(
                Phase::Over(Outcome::Failed),
            ),
            (Phase::Ending, SessionEvent::Sent) => self.to(Phase::Streaming { input_done: true }),
            (Phase::Ending, SessionEvent::SendFailed) => self.to(Phase::Over(Outcome::Failed)),
            _ => self,
        }
    }

    /// What `event` gives to tell. A session that closes surfaces the transcript
    /// that it leaves behind.
    pub open spec fn told(self, event: SessionEvent) -> Option<Transcript> {
        match (self.phase, event) {
            (Phase::Streaming { .. }, SessionEvent::Incoming(incoming)) => match incoming {
                Incoming::Closed => if self.full.len() > 0 {
                    Some(Transcript::Final(self.full))
                } else {
                    None
                },
                _ => match incoming.message() {
                    Some(raw) => raw_progress(raw, self.full).told,
                    None => None,
                },
            },
            _ => None,
        }
    }
}

enum State {
    Idle,
    IdleReopening,
    Starting(Vec<i16>),
    StartReopening(Vec<i16>),
    Restarting(Vec<i16>),
    Streaming { input_done: bool },
    Appending(Vec<i16>),
    Ending,
    Over(Outcome),
}

impl State {
    spec fn phase(self) -> Phase {
        match self {
            State::Idle => Phase::Idle,
            State::IdleReopening => Phase::IdleReopening,
            State::Starting(frame) => Phase::Starting(frame@),
            State::StartReopening(frame) => Phase::StartReopening(frame@),
            State::Restarting(frame) => Phase::Restarting(frame@),
            State::Streaming { input_done } => Phase::Streaming { input_done },
            State::Appending(frame) => Phase::Appending(frame@),
            State::Ending => Phase::Ending,
            State::Over(outcome) => Phase::Over(outcome),
        }
    }
}

/// The transcription of one utterance, from an idle session to the transcript.
pub struct Utterance {
    state: State,
    full: String,
}

impl View for Utterance {
    type V = Transcribing;

    closed spec fn view(&self) -> Transcribing {
        Transcribing { phase: self.state.phase(), full: self.full@ }
    }
}

fn one_message(message: String) -> (messages: Vec<String>)
    ensures
        messages.deep_view() == seq![message@],
        messages@ == seq![message],
{
    let mut messages: Vec<String> = Vec::new();
    messages.push(message);
    assert(messages.deep_view() =~= seq![message@]);
    messages
}

fn closing_messages() -> (messages: Vec<String>)
    ensures
        messages.deep_view() == seq![FLUSH@, END@],
{
    let mut messages: Vec<String> = Vec::new();
    messages.push(FLUSH.to_owned());
    messages.push(END.to_owned());
    assert(messages.deep_view() =~= seq![FLUSH@, END@]);
    messages
}

impl Utterance {
    /// An utterance whose session is ready.
    pub fn new() -> (utterance: Self)
        ensures
            utterance@ == Transcribing::start(),
    {
        Utterance { state: State::Idle, full: String::new() }
    }

    /// What is to be done next.
    pub fn step(&self) -> (step: SessionStep)
        ensures
            step@ == self@.todo(),
            match self@.phase {
                Phase::Starting(frame) | Phase::Restarting(frame) | Phase::Appending(frame) => {
                    &&& step matches SessionStep::Send(messages)
                    &&& messages@.len() == 1
                    &&& json::json_parse(messages@[0]@) matches Ok(tree)
                    &&& tree.text_at("type"@) == Some("input_audio.append"@)
                    &&& tree.text_at("audio"@) matches Some(audio)
                    &&& encoding::base64_bytes(audio) matches Ok(bytes)
                    &&& encoding::pcm16_samples(bytes) == frame
                },
                _ => true,
            },
    {
        match &self.state {
            State::Idle => SessionStep::Wait { segments: true },
            State::IdleReopening => SessionStep::Reopen,
            State::StartReopening(_) => SessionStep::Reopen,
            State::Starting(frame) => SessionStep::Send(one_message(append_message(frame))),
            State::Restarting(frame) => SessionStep::Send(one_message(append_message(frame))),
            State::Appending(frame) => SessionStep::Send(one_message(append_message(frame))),
            State::Streaming { input_done } => SessionStep::Wait { segments: !*input_done },
            State::Ending => SessionStep::Send(closing_messages()),
            State::Over(outcome) => SessionStep::Finish(*outcome),
        }
    }

    fn idle(event: SessionEvent) -> (next: State)
        ensures
            forall|before: Transcribing|
                before.phase is Idle ==> #[trigger] before.after_idle(event) == before.to(
                    next.phase(),
                ),
    {
        match event {
            SessionEvent::Segment(Segment::Speech(frame)) => State::Starting(frame),
            SessionEvent::SegmentsClosed => State::Over(Outcome::SegmentsClosed),
            SessionEvent::Incoming(Incoming::Closed) => State::IdleReopening,
            SessionEvent::Incoming(Incoming::Failed) => State::IdleReopening,
            SessionEvent::Incoming(incoming) => match incoming.into_message() {
                Some(raw) => if is_error_event(&raw) {
                    State::IdleReopening
                } else {
                    State::Idle
                },
                None => State::Idle,
            },
            _ => State::Idle,
        }
    }

    /// Takes the next event and gives what there is to tell.
    pub fn on(&mut self, event: SessionEvent) -> (told: Option<SttEvent>)
        ensures
            final(self)@ == old(self)@.after(event),
            told.deep_view() == old(self)@.told(event),
    {
        let mut state: State = State::Idle;
        std::mem::swap(&mut state, &mut self.state);
        let mut told: Option<SttEvent> = None;
        self.state = match state {
            State::Idle => Self::idle(event),
            State::Streaming { input_done } => match event {
                SessionEvent::Segment(Segment::Speech(frame)) => if input_done {
                    State::Streaming { input_done }
                } else {
                    State::Appending(frame)
                },
                SessionEvent::Segment(Segment::EndOfUtterance)
                | SessionEvent::SegmentsClosed => if input_done {
                    State::Streaming { input_done }
                } else {
                    State::Ending
                },
                SessionEvent::Incoming(Incoming::Closed) => {
                    let full: String = self.full.clone();
                    self.full = String::new();
                    if !full.as_str().is_empty() {
                        told = Some(SttEvent::Final(full));
                    }
                    State::Over(Outcome::Completed)
                },
                SessionEvent::Incoming(Incoming::Failed) => State::Over(Outcome::Failed),
                SessionEvent::Incoming(incoming) => match incoming.into_message() {
                    Some(raw) => {
                        let (event, finished): (Option<SttEvent>, bool) = handle_event(
                            &raw,
                            &mut self.full,
                        );
                        told = event;
                        if finished {
                            State::Over(Outcome::Completed)
                        } else {
                            State::Streaming { input_done }
                        }
                    },
                    None => State::Streaming { input_done },
                },
                _ => State::Streaming { input_done },
            },
            State::IdleReopening => match event {
                SessionEvent::Reopened => State::Idle,
                SessionEvent::ReopenFailed => State::Over(Outcome::Failed),
                _ => State::IdleReopening,
            },
            State::Starting(frame) => match event {
                SessionEvent::Sent => State::Streaming { input_done: false },
                SessionEvent::SendFailed => State::StartReopening(frame),
                _ => State::Starting(frame),
            },
            State::StartReopening(frame) => match event {
                SessionEvent::Reopened => State::Restarting(frame),
                SessionEvent::ReopenFailed => State::Over(Outcome::Failed),
                _ => State::StartReopening(frame),
            },
            State::Restarting(frame) => match event {
                SessionEvent::Sent => State::Streaming { input_done: false },
                SessionEvent::SendFailed => State::Over(Outcome::Failed),
                _ => State::Restarting(frame),
            },
            State::Appending(frame) => match event {
                SessionEvent::Sent => State::Streaming { input_done: false },
                SessionEvent::SendFailed => State::Over(Outcome::Failed),
                _ => State::Appending(frame),
            },
            State::Ending => match event {
                SessionEvent::Sent => State::Streaming { input_done: true },
                SessionEvent::SendFailed => State::Over(Outcome::Failed),
                _ => State::Ending,
            },
            State::Over(outcome) => State::Over(outcome),
        };
        told
    }
}

/// What the transcription does next, between utterances.
#[derive(Debug, Clone, Copy, PartialEq, Eq, Structural)]
pub enum RunStep {
    /// Open a session and transcribe the next utterance.
    Transcribe,
    /// Drop the next segment: it belongs to an utterance that failed.
    Resync,
    /// There will be no more segments.
    Stop,
}

/// What follows an utterance. After a failure, the frames that are still on
/// their way are dropped up to the end of the utterance. A session that could
/// not be opened counts as a failure.
pub fn after_utterance(outcome: Outcome) -> (next: RunStep)
    ensures
        next == (match outcome {
            Outcome::Completed => RunStep::Transcribe,
            Outcome::Failed => RunStep::Resync,
            Outcome::SegmentsClosed => RunStep::Stop,
        }),
{
    match outcome {
        Outcome::Completed => RunStep::Transcribe,
        Outcome::Failed => RunStep::Resync,
        Outcome::SegmentsClosed => RunStep::Stop,
    }
}

/// What follows a dropped segment; `None` stands for the end of all segments.
pub fn after_dropped(segment: &Option<Segment>) -> (next: RunStep)
    ensures
        next == (match segment {
            Some(Segment::Speech(_)) => RunStep::Resync,
            Some(Segment::EndOfUtterance) => RunStep::Transcribe,
            None => RunStep::Stop,
        }),
{
    match segment {
        Some(Segment::Speech(_)) => RunStep::Resync,
        Some(Segment::EndOfUtterance) => RunStep::Transcribe,
        None => RunStep::Stop,
    }
}

impl Transcribing {
    /// How far the utterance has come after a run of events.
    pub open spec fn after_all(self, events: Seq<SessionEvent>) -> Transcribing
        decreases events.len(),
    {
        if events.len() == 0 {
            self
        } else {
            self.after(events[0]).after_all(events.skip(1))
        }
    }

    /// No frame and no end of input will be sent any more.
    pub open spec fn input_closed(self) -> bool {
        self.phase == (Phase::Streaming { input_done: true }) || self.phase is Over
    }
}

/// An utterance that is over stays as it is, and tells nothing.
pub proof fn over_stays_over(utterance: Transcribing, event: SessionEvent)
    requires
        utterance.phase is Over,
    ensures
        utterance.after(event) == utterance,
        utterance.told(event) is None,
{
}

/// A final transcript completes the utterance, so there is at most one.
pub proof fn final_completes(utterance: Transcribing, event: SessionEvent)
    requires
        utterance.told(event) matches Some(told) && told is Final,
    ensures
        utterance.after(event).phase == Phase::Over(Outcome::Completed),
{
}

/// Once the input has ended, nothing is sent any more, whatever happens.
pub proof fn input_ends_once(utterance: Transcribing, events: Seq<SessionEvent>)
    requires
        utterance.input_closed(),
    ensures
        utterance.after_all(events).input_closed(),
        !(utterance.after_all(events).todo() is Send),
    decreases events.len(),
{
    if events.len() > 0 {
        input_ends_once(utterance.after(events[0]), events.skip(1));
    }
}

/// Until the input ends, every frame is sent, one at a time, and the transcript is
/// not touched by it.
pub proof fn frames_are_sent(utterance: Transcribing, frame: Vec<i16>)
    requires
        utterance.phase == (Phase::Streaming { input_done: false }),
    ensures
        ({
            let appending = utterance.after(SessionEvent::Segment(Segment::Speech(frame)));
            &&& appending.todo() == Todo::Send(seq![json::json_text(append_tree(frame@))])
            &&& appending.after(SessionEvent::Sent) == utterance
        }),
{
}

/// The end of an utterance flushes and ends the input, and leaves the transcript to be
/// waited for.
pub proof fn end_is_flushed(utterance: Transcribing, event: SessionEvent)
    requires
        utterance.phase == (Phase::Streaming { input_done: false }),
        event == SessionEvent::SegmentsClosed || event == SessionEvent::Segment(
            Segment::EndOfUtterance,
        ),
    ensures
        utterance.after(event).todo() == Todo::Send(seq![FLUSH@, END@]),
        FLUSH@ == "{\"type\":\"input_audio.flush\"}"@,
        END@ == "{\"type\":\"input_audio.end\"}"@,
        utterance.after(event).after(SessionEvent::Sent) == utterance.to(
            Phase::Streaming { input_done: true },
        ),
        utterance.after(event).after(SessionEvent::Sent).input_closed(),
{
}

/// A first frame that the session did not take is sent again on a new one: the
/// first words are not lost.
pub proof fn first_frame_is_sent_again(utterance: Transcribing, frame: Seq<i16>)
    requires
        utterance.phase == Phase::Starting(frame),
    ensures
        utterance.after(SessionEvent::SendFailed).todo() is Reopen,
        utterance.after(SessionEvent::SendFailed).after(SessionEvent::Reopened).todo()
            == utterance.todo(),
{
}

/// Before anybody speaks, a session that fails is replaced and nothing is told.
pub proof fn idle_session_is_replaced(utterance: Transcribing, event: SessionEvent)
    requires
        utterance.phase is Idle,
        event == SessionEvent::Incoming(Incoming::Closed) || event == SessionEvent::Incoming(
            Incoming::Failed,
        ) || (event matches SessionEvent::Incoming(incoming) && incoming.message() matches Some(raw)
            && reports_error(raw)),
    ensures
        utterance.after(event).todo() is Reopen,
        utterance.after(event).after(SessionEvent::Reopened) == utterance,
        utterance.told(event) is None,
{
}

/// An event is an increment of the transcript by `more`.
pub open spec fn is_increment(event: SessionEvent, more: Seq<char>) -> bool {
    event matches SessionEvent::Incoming(incoming) && incoming.message() matches Some(raw)
        && json::json_parse(raw) matches Ok(payload) && payload.text_at("type"@) == Some(
        "transcription.text.delta"@,
    ) && payload.text_at("text"@) == Some(more)
}

/// The increments, one after the other.
pub open spec fn added_up(increments: Seq<Seq<char>>) -> Seq<char>
    decreases increments.len(),
{
    if increments.len() == 0 {
        Seq::empty()
    } else {
        increments[0] + added_up(increments.skip(1))
    }
}

/// Increments add up to the transcript, and the last of them tells all of it.
pub proof fn increments_add_up(
    utterance: Transcribing,
    events: Seq<SessionEvent>,
    increments: Seq<Seq<char>>,
)
    requires
        utterance.phase is Streaming,
        events.len() == increments.len(),
        forall|i: int|
            0 <= i < events.len() ==> is_increment(#[trigger] events[i], increments[i]),
    ensures
        utterance.after_all(events) == (Transcribing {
            full: utterance.full + added_up(increments),
            ..utterance
        }),
        events.len() > 0 ==> utterance.after_all(events.drop_last()).told(events.last()) == Some(
            Transcript::Partial(utterance.full + added_up(increments)),
        ),
    decreases events.len(),
{
    if events.len() == 0 {
        assert(utterance.full + added_up(increments) =~= utterance.full);
    } else {
        let next = utterance.after(events[0]);
        assert(is_increment(events[0], increments[0]));
        assert(next == (Transcribing { full: utterance.full + increments[0], ..utterance }));
        assert forall|i: int| 0 <= i < events.skip(1).len() implies is_increment(
            #[trigger] events.skip(1)[i],
            increments.skip(1)[i],
        ) by {
            assert(is_increment(events[i + 1], increments[i + 1]));
        }
        increments_add_up(next, events.skip(1), increments.skip(1));
        assert(next.full + added_up(increments.skip(1)) =~= utterance.full + added_up(increments));
        if events.len() == 1 {
            assert(added_up(increments.skip(1)) =~= Seq::<char>::empty());
            assert(utterance.after_all(events.drop_last()) == utterance);
            assert(utterance.full + added_up(increments) =~= utterance.full + increments[0]);
        } else {
            assert(events.drop_last().skip(1) =~= events.skip(1).drop_last());
            assert(events.skip(1).last() == events.last());
        }
    }
}

/// What the provider adds is told at once, behind all that it gave before, and nothing
/// of it is lost or changed.
pub proof fn additions_are_told(full: Seq<char>, more: Seq<char>)
    ensures
        ({
            let made = progress(Some("transcription.text.delta"@), Some(more), full);
            &&& made.told == Some(Transcript::Partial(full + more))
            &&& made.full == full + more
            &&& !made.finished
        }),
        ({
            let made = progress(Some("transcription.text.delta"@), None, full);
            &&& made.told is None
            &&& made.full == full
            &&& !made.finished
        }),
{
}

/// A finished transcript is the text that comes with it, if it is not empty, and else
/// all that was given before. It is told as it is, unless it is blank.
pub proof fn finished_transcript_is_whole(carried: Option<Seq<char>>, full: Seq<char>)
    ensures
        ({
            let made = progress(Some("transcription.done"@), carried, full);
            &&& made.finished
            &&& made.full == (if carried is Some && carried->0.len() > 0 {
                full
            } else {
                Seq::empty()
            })
            &&& carried is Some && carried->0.len() > 0 ==> made.told == (if text::trimmed(
                carried->0,
            ).len() > 0 {
                Some(Transcript::Final(carried->0))
            } else {
                None
            })
            &&& (carried is None || carried->0.len() == 0) ==> made.told == (if text::trimmed(
                full,
            ).len() > 0 {
                Some(Transcript::Final(full))
            } else {
                None
            })
        }),
{
    reveal_strlit("transcription.text.delta");
    reveal_strlit("transcription.done");
    assert("transcription.text.delta"@.len() != "transcription.done"@.len());
}

/// An error finishes the utterance without a transcript, and a message of any other
/// kind changes nothing.
pub proof fn other_messages_tell_nothing(
    kind: Option<Seq<char>>,
    carried: Option<Seq<char>>,
    full: Seq<char>,
)
    requires
        kind != Some("transcription.text.delta"@),
        kind != Some("transcription.done"@),
    ensures
        progress(kind, carried, full).told is None,
        progress(kind, carried, full).full == full,
        progress(kind, carried, full).finished == (kind == Some("error"@)),
{
}

/// A message is read by its members `type` and `text`, wherever it stands in the
/// utterance, and what is no JSON is passed over.
pub proof fn messages_are_read_by_their_members(raw: Seq<char>, full: Seq<char>)
    ensures
        json::json_parse(raw) is Err ==> raw_progress(raw, full) == (Progress {
            full,
            told: None,
            finished: false,
        }),
        json::json_parse(raw) matches Ok(payload) ==> raw_progress(raw, full) == progress(
            payload.text_at("type"@),
            payload.text_at("text"@),
            full,
        ),
{
}

/// What comes in while an utterance is under way makes the progress that the message
/// makes, as text or as UTF-8 bytes, and the utterance is over when that finishes it.
pub proof fn messages_make_progress(utterance: Transcribing, raw: String, bytes: Vec<u8>)
    requires
        utterance.phase is Streaming,
        valid_utf8(bytes@),
        decode_utf8(bytes@) == raw@,
    ensures
        ({
            let made = raw_progress(raw@, utterance.full);
            let text = SessionEvent::Incoming(Incoming::Text(raw));
            let binary = SessionEvent::Incoming(Incoming::Binary(bytes));
            &&& utterance.told(text) == made.told && utterance.told(binary) == made.told
            &&& utterance.after(text) == utterance.after(binary)
            &&& utterance.after(text).full == made.full
            &&& made.finished ==> utterance.after(text).phase == Phase::Over(Outcome::Completed)
            &&& !made.finished ==> utterance.after(text).phase == utterance.phase
        }),
{
}

/// The first frame of speech is sent at once, and then the utterance is under way; what
/// is no speech before it is passed over.
pub proof fn speech_starts_the_utterance(utterance: Transcribing, frame: Vec<i16>)
    requires
        utterance.phase is Idle,
    ensures
        utterance.after(SessionEvent::Segment(Segment::Speech(frame))) == utterance.to(
            Phase::Starting(frame@),
        ),
        utterance.to(Phase::Starting(frame@)).after(SessionEvent::Sent) == utterance.to(
            Phase::Streaming { input_done: false },
        ),
        utterance.to(Phase::StartReopening(frame@)).after(SessionEvent::Reopened) == utterance.to(
            Phase::Restarting(frame@),
        ),
        utterance.to(Phase::Restarting(frame@)).after(SessionEvent::Sent) == utterance.to(
            Phase::Streaming { input_done: false },
        ),
        utterance.after(SessionEvent::Segment(Segment::EndOfUtterance)) == utterance,
        utterance.after(SessionEvent::SegmentsClosed).todo() == Todo::Finish(
            Outcome::SegmentsClosed,
        ),
        Transcribing::start().full.len() == 0,
        Transcribing::start().todo() == (Todo::Wait { segments: true }),
{
}

/// A session that closes during an utterance leaves the transcript that it has given,
/// all of it, as the final one; without any there is none. Either way the utterance is
/// complete.
pub proof fn closed_session_leaves_its_transcript(utterance: Transcribing)
    requires
        utterance.phase is Streaming,
    ensures
        ({
            let closed = SessionEvent::Incoming(Incoming::Closed);
            &&& utterance.full.len() > 0 ==> utterance.told(closed) == Some(
                Transcript::Final(utterance.full),
            )
            &&& utterance.full.len() == 0 ==> utterance.told(closed) is None
            &&& utterance.after(closed).todo() == Todo::Finish(Outcome::Completed)
        }),
{
}

/// A session that fails during an utterance, or takes no more of it, ends the utterance
/// as failed, and so does a session that cannot be replaced.
pub proof fn broken_session_fails(utterance: Transcribing, event: SessionEvent)
    requires
        (utterance.phase is Streaming && event == SessionEvent::Incoming(Incoming::Failed)) || ((
        utterance.phase is Appending || utterance.phase is Ending || utterance.phase is Restarting)
            && event == SessionEvent::SendFailed) || ((utterance.phase is IdleReopening
            || utterance.phase is StartReopening) && event == SessionEvent::ReopenFailed),
    ensures
        utterance.after(event).todo() == Todo::Finish(Outcome::Failed),
        utterance.told(event) is None,
{
}

/// After the input has ended, transcripts are waited for and segments are not.
pub proof fn transcript_is_awaited(utterance: Transcribing, event: SessionEvent)
    requires
        utterance.phase == (Phase::Streaming { input_done: true }),
        event is Segment || event is SegmentsClosed,
    ensures
        utterance.todo() == (Todo::Wait { segments: false }),
        utterance.after(event) == utterance,
{
}

/// The realtime address has the scheme of a web socket in place of that of the web, and
/// all of the rest of the base: its host and its path.
pub proof fn realtime_address_keeps_the_host(rest: Seq<char>, model: Seq<char>)
    requires
        rest.len() > 0,
        rest.last() != '/',
    ensures
        realtime_address("https://"@ + rest, model) == "wss://"@ + rest
            + "/audio/transcriptions/realtime?model="@ + model,
        realtime_address("http://"@ + rest, model) == "ws://"@ + rest
            + "/audio/transcriptions/realtime?model="@ + model,
        realtime_address(("https://"@ + rest).push('/'), model) == realtime_address(
            "https://"@ + rest,
            model,
        ),
        !"https://"@.is_prefix_of(rest) && !"http://"@.is_prefix_of(rest) ==> realtime_address(
            rest,
            model,
        ) == rest + "/audio/transcriptions/realtime?model="@ + model,
{
    reveal_strlit("https://");
    reveal_strlit("http://");
    let secure = "https://"@ + rest;
    let plain = "http://"@ + rest;
    assert(secure.last() == rest.last() && plain.last() == rest.last());
    assert(text::without_trailing(secure, '/') == secure);
    assert(text::without_trailing(plain, '/') == plain);
    assert(text::without_trailing(rest, '/') == rest);
    assert(secure.push('/').drop_last() =~= secure);
    assert("https://"@.is_prefix_of(secure)) by {
        assert(secure.subrange(0, 8) =~= "https://"@);
    }
    assert(secure.skip(8) =~= rest);
    assert(plain.skip(7) =~= rest);
    assert(!"https://"@.is_prefix_of(plain)) by {
        assert("https://"@[4] != plain[4]);
    }
    assert("http://"@.is_prefix_of(plain)) by {
        assert(plain.subrange(0, 7) =~= "http://"@);
    }
}

/// While nobody speaks, a session is replaced for a message whose `type` is `error`, and
/// for no other one, be it text or UTF-8 bytes.
pub proof fn only_errors_replace_an_idle_session(
    utterance: Transcribing,
    raw: String,
    bytes: Vec<u8>,
)
    requires
        utterance.phase is Idle,
        valid_utf8(bytes@),
        decode_utf8(bytes@) == raw@,
    ensures
        ({
            let text = SessionEvent::Incoming(Incoming::Text(raw));
            let binary = SessionEvent::Incoming(Incoming::Binary(bytes));
            let error = match json::json_parse(raw@) {
                Ok(payload) => payload.text_at("type"@) == Some("error"@),
                Err(_) => false,
            };
            &&& utterance.after(text) == utterance.after(binary)
            &&& error ==> utterance.after(text).todo() is Reopen
            &&& !error ==> utterance.after(text) == utterance
            &&& utterance.told(text) is None && utterance.told(binary) is None
        }),
{
}

/// A message without content changes nothing, and neither do bytes that are no text.
pub proof fn empty_messages_change_nothing(utterance: Transcribing, bytes: Vec<u8>)
    requires
        utterance.phase is Idle || utterance.phase is Streaming,
        !valid_utf8(bytes@),
    ensures
        utterance.after(SessionEvent::Incoming(Incoming::Other)) == utterance,
        utterance.after(SessionEvent::Incoming(Incoming::Binary(bytes))) == utterance,
        utterance.told(SessionEvent::Incoming(Incoming::Other)) is None,
        utterance.told(SessionEvent::Incoming(Incoming::Binary(bytes))) is None,
{
}

/// Whoever reads the message of a frame finds all of its samples there, in order,
/// whatever its length: the Base64 text under `audio` stands for two bytes a sample, the
/// low one first.
pub proof fn frames_are_sent_whole(frame: Seq<i16>, message: Seq<char>, at: int)
    requires
        json::reads_as(message, append_tree(frame)),
        encoding::stands_for(
            encoding::base64_text(encoding::pcm16_bytes(frame)),
            encoding::pcm16_bytes(frame),
        ),
        0 <= at < frame.len(),
    ensures
        ({
            &&& json::json_parse(message) matches Ok(tree)
            &&& tree.text_at("type"@) == Some("input_audio.append"@)
            &&& tree.text_at("audio"@) matches Some(audio)
            &&& encoding::base64_bytes(audio) matches Ok(bytes)
            &&& bytes.len() == 2 * frame.len()
            &&& bytes[2 * at] + 256 * bytes[2 * at + 1] == (if frame[at] < 0 {
                frame[at] + 0x1_0000
            } else {
                frame[at] as int
            })
        }),
{
    reveal_strlit("type");
    reveal_strlit("audio");
    assert("type"@.len() != "audio"@.len());
    encoding::pcm16_writes_every_sample(frame, at);
}

/// What an utterance does not wait for changes nothing and is not told: while something
/// is sent, only whether it was sent counts, and while a session is replaced, only
/// whether it was replaced.
pub proof fn utterance_waits_for_its_turn(utterance: Transcribing, event: SessionEvent)
    requires
        match utterance.todo() {
            Todo::Send(_) => !(event is Sent) && !(event is SendFailed),
            Todo::Reopen => !(event is Reopened) && !(event is ReopenFailed),
            Todo::Finish(_) => true,
            Todo::Wait { .. } => event is Sent || event is SendFailed || event is Reopened
                || event is ReopenFailed,
        },
    ensures
        utterance.after(event) == utterance,
        utterance.told(event) is None,
{
}

/// During the utterance, segments and messages are waited for, and nothing that is sent
/// or heard of the input is told.
pub proof fn input_tells_nothing(utterance: Transcribing, event: SessionEvent)
    requires
        !(event is Incoming),
    ensures
        utterance.told(event) is None,
        utterance.phase == (Phase::Streaming { input_done: false }) ==> utterance.todo() == (
        Todo::Wait { segments: true }),
        utterance.after(event).full == utterance.full,
{
}

/// A step is what is to be done, with what it is to be done with.
pub proof fn steps_say_what_is_to_be_done(
    segments: bool,
    messages: Vec<String>,
    outcome: Outcome,
    at: int,
)
    requires
        0 <= at < messages@.len(),
    ensures
        (SessionStep::Wait { segments })@ == (Todo::Wait { segments }),
        SessionStep::Send(messages)@ matches Todo::Send(sent) && sent.len() == messages@.len()
            && sent[at] == messages@[at]@,
        SessionStep::Reopen@ == Todo::Reopen,
        SessionStep::Finish(outcome)@ == Todo::Finish(outcome),
{
}

/// A transcript is told as it is, and as what it is.
pub proof fn transcripts_say_what_they_hold(text: String)
    ensures
        SttEvent::Partial(text).deep_view() == Transcript::Partial(text@),
        SttEvent::Final(text).deep_view() == Transcript::Final(text@),
{
}

}
