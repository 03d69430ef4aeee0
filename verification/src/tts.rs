//! Speech synthesis: the voice to speak with, the request, and the audio that
//! comes back.

use crate::config::MistralConfig;
use crate::encoding;
use crate::http;
use crate::http::HttpStatus;
use crate::json;
use crate::json::JsonTree;
use crate::text;
use crate::wav;
use crate::wav::{Audio, TtsAudio, WavError};
use serde_json::Value;
use vstd::prelude::*;
use vstd::string::*;

verus! {

broadcast use vstd::string::group_string_axioms;

/// Synthesizes speech in one language.
pub struct Tts {
    pub config: MistralConfig,
    /// The language to speak, which may have a voice of its own.
    pub language: String,
    /// The voice that was discovered, once the provider has listed its voices. It
    /// may have none.
    pub resolved_voice: Option<Option<String>>,
}

/// Which voice to speak with.
#[derive(Debug)]
pub enum VoiceChoice {
    /// This one.
    Use(String),
    /// There is none.
    NoVoice,
    /// The first of those that the provider lists.
    Discover,
}

/// A [`VoiceChoice`], in characters.
pub ghost enum Voice {
    Use(Seq<char>),
    NoVoice,
    Discover,
}

impl View for VoiceChoice {
    type V = Voice;

    open spec fn view(&self) -> Voice {
        match self {
            VoiceChoice::Use(voice) => Voice::Use(voice@),
            VoiceChoice::NoVoice => Voice::NoVoice,
            VoiceChoice::Discover => Voice::Discover,
        }
    }
}

/// What the provider answers when asked for its voices.
#[derive(Debug)]
pub enum VoicesReply {
    /// Nothing.
    Unreachable,
    /// A reply with this status and body.
    Reply { status: HttpStatus, body: Vec<u8> },
}

/// What is to be done next for an utterance.
#[derive(Debug)]
pub enum SpeechStep {
    /// Ask the provider for its voices at `url`.
    Discover { url: String },
    /// Post `body` to `url`.
    Post { url: String, body: String },
    /// Give up, for this reason.
    Fail(String),
}

/// A [`SpeechStep`], in characters.
pub ghost enum Request {
    Discover { url: Seq<char> },
    Post { url: Seq<char>, body: Seq<char> },
    Fail(Seq<char>),
}

impl View for SpeechStep {
    type V = Request;

    open spec fn view(&self) -> Request {
        match self {
            SpeechStep::Discover { url } => Request::Discover { url: url@ },
            SpeechStep::Post { url, body } => Request::Post { url: url@, body: body@ },
            SpeechStep::Fail(message) => Request::Fail(message@),
        }
    }
}

/// Why there is no speech to play.
#[derive(Debug)]
pub enum TtsError {
    /// The provider refused the request: status and detail.
    Refused { status: HttpStatus, detail: String },
    /// The reply is said to be JSON, and is none.
    BadJson(String),
    /// The reply is JSON without audio.
    MissingAudio,
    /// The audio is no Base64.
    BadBase64(String),
    /// The audio is no WAV file that can be played.
    BadWav(WavError),
}

/// The first voice that `voices` gives for `language`.
pub open spec fn voice_for(voices: Seq<(Seq<char>, Seq<char>)>, language: Seq<char>) -> Option<
    Seq<char>,
>
    decreases voices.len(),
{
    if voices.len() == 0 {
        None
    } else if voices[0].0 == language {
        Some(voices[0].1)
    } else {
        voice_for(voices.skip(1), language)
    }
}

/// The voice that is configured for `language`: its own, or else the default one.
/// Blank ones do not count.
pub open spec fn configured_voice(config: MistralConfig, language: Seq<char>) -> Option<Seq<char>> {
    let own = voice_for(config.tts_voices.deep_view(), language);
    if own is Some && text::trimmed(own->0).len() > 0 {
        Some(text::trimmed(own->0))
    } else if text::trimmed(config.tts_voice@).len() > 0 {
        Some(text::trimmed(config.tts_voice@))
    } else {
        None
    }
}

/// The id of the first voice in a list of voices.
pub open spec fn first_listed(voices: JsonTree) -> Option<Seq<char>> {
    match voices.get("items"@) {
        Some(items) => match items.at(0) {
            Some(first) => first.text_at("id"@),
            None => None,
        },
        None => None,
    }
}

/// The message for an utterance without a voice.
pub open spec fn no_voice_message(language: Seq<char>, base_url: Seq<char>) -> Seq<char> {
    "No TTS voice configured and none could be auto-discovered. Set `mistral.tts_voice`, or `mistral.tts_voices."@
        + language + "`, to a voice id (list them with GET `"@ + http::address(
        base_url,
        "/audio/voices"@,
    ) + "`)."@
}

/// The request body for `input`, spoken with `voice`.
pub open spec fn speech_tree(model: Seq<char>, input: Seq<char>, voice: Seq<char>) -> JsonTree {
    JsonTree::Object(
        map![
            "model"@ => JsonTree::Text(model),
            "input"@ => JsonTree::Text(input),
            "response_format"@ => JsonTree::Text("wav"@),
            "voice"@ => JsonTree::Text(voice),
        ],
    )
}

/// A reader of the request finds there the model, `input`, and the voice.
pub open spec fn asks_for(step: SpeechStep, model: Seq<char>, input: Seq<char>, voice: Seq<char>) -> bool {
    &&& step matches SpeechStep::Post { body, .. }
    &&& json::reads_as(body@, speech_tree(model, input, voice))
    &&& json::json_parse(body@) matches Ok(tree)
    &&& tree.text_at("model"@) == Some(model)
    &&& tree.text_at("input"@) == Some(input)
    &&& tree.text_at("voice"@) == Some(voice)
    &&& tree.text_at("response_format"@) == Some("wav"@)
}

/// A request for speech holds, where the provider looks for it, the model, the whole
/// text, the voice, and the kind of file to answer with.
pub proof fn speech_is_asked_for(model: Seq<char>, input: Seq<char>, voice: Seq<char>)
    ensures
        speech_tree(model, input, voice).text_at("model"@) == Some(model),
        speech_tree(model, input, voice).text_at("input"@) == Some(input),
        speech_tree(model, input, voice).text_at("voice"@) == Some(voice),
        speech_tree(model, input, voice).text_at("response_format"@) == Some("wav"@),
{
    reveal_strlit("model");
    reveal_strlit("input");
    reveal_strlit("voice");
    reveal_strlit("response_format");
    assert("model"@[0] != "input"@[0] && "model"@[0] != "voice"@[0] && "input"@[0] != "voice"@[0]);
    assert("response_format"@.len() == 15 && "model"@.len() == 5);
    assert("input"@.len() == 5 && "voice"@.len() == 5);
}

impl Tts {
    /// Which voice to speak with: a configured one, or else the one that was
    /// discovered.
    pub open spec fn choice(self) -> Voice {
        match configured_voice(self.config, self.language@) {
            Some(voice) => Voice::Use(voice),
            None => match self.resolved_voice {
                Some(Some(voice)) => Voice::Use(voice@),
                Some(None) => Voice::NoVoice,
                None => Voice::Discover,
            },
        }
    }

    /// The request that speaks `input` with a voice, or the reason why there is
    /// none.
    pub open spec fn request(self, input: Seq<char>, voice: Option<Seq<char>>) -> Request {
        match voice {
            Some(voice) => Request::Post {
                url: http::address(self.config.base_url@, "/audio/speech"@),
                body: json::json_text(speech_tree(self.config.tts_model@, input, voice)),
            },
            None => Request::Fail(no_voice_message(self.language@, self.config.base_url@)),
        }
    }

    pub fn new(config: MistralConfig, language: String) -> (tts: Self)
        ensures
            tts.config == config,
            tts.language == language,
            tts.resolved_voice is None,
    {
        Tts { config, language, resolved_voice: None }
    }

    fn own_voice(&self) -> (voice: Option<&str>)
        ensures
            match voice {
                Some(voice) => voice_for(self.config.tts_voices.deep_view(), self.language@)
                    == Some(voice@),
                None => voice_for(self.config.tts_voices.deep_view(), self.language@) is None,
            },
    {
        let ghost all = self.config.tts_voices.deep_view();
        let mut at: usize = 0;
        assert(all.skip(0) =~= all);
        while at < self.config.tts_voices.len()
            invariant
                at <= self.config.tts_voices@.len(),
                all == self.config.tts_voices.deep_view(),
                voice_for(all, self.language@) == voice_for(all.skip(at as int), self.language@),
            decreases self.config.tts_voices.len() - at,
        {
            let entry: &(String, String) = &self.config.tts_voices[at];
            assert(all.skip(at as int)[0] == (entry.0@, entry.1@));
            if text::same(&entry.0, &self.language) {
                return Some(entry.1.as_str());
            }
            assert(all.skip(at as int).skip(1) =~= all.skip(at + 1));
            at = at + 1;
        }
        None
    }

    /// Which voice to speak with. One for the language comes first, then the
    /// default one, then the one that was discovered.
    pub fn resolve_voice(&self) -> (choice: VoiceChoice)
        ensures
            choice@ == self.choice(),
    {
        match self.own_voice() {
            Some(voice) => {
                let voice: &str = text::trim(voice);
                if !voice.is_empty() {
                    return VoiceChoice::Use(voice.to_owned());
                }
            },
            None => {},
        }
        let configured: &str = text::trim(&self.config.tts_voice);
        if !configured.is_empty() {
            return VoiceChoice::Use(configured.to_owned());
        }
        match &self.resolved_voice {
            Some(Some(voice)) => VoiceChoice::Use(voice.clone()),
            Some(None) => VoiceChoice::NoVoice,
            None => VoiceChoice::Discover,
        }
    }

    /// Remembers the voice that was discovered, unless one is remembered already.
    pub fn remember(&mut self, voice: &Option<String>)
        ensures
            final(self).config == old(self).config,
            final(self).language == old(self).language,
            match old(self).resolved_voice {
                Some(_) => final(self).resolved_voice == old(self).resolved_voice,
                None => final(self).resolved_voice == Some(*voice),
            },
    {
        if self.resolved_voice.is_none() {
            self.resolved_voice = Some(voice.clone());
        }
    }

    /// Takes the provider's list of voices and gives the first one. What is no
    /// list is not remembered, so that it is asked for again.
    pub fn discovered(&mut self, reply: &VoicesReply) -> (voice: Option<String>)
        ensures
            final(self).config == old(self).config,
            final(self).language == old(self).language,
            voice.deep_view() == (match listed(*reply) {
                Some(voices) => first_listed(voices),
                None => None,
            }),
            final(self).resolved_voice == (if listed(*reply) is Some && old(
                self,
            ).resolved_voice is None {
                Some(voice)
            } else {
                old(self).resolved_voice
            }),
    {
        match reply {
            VoicesReply::Unreachable => None,
            VoicesReply::Reply { status, body } => {
                if !status.is_success() {
                    return None;
                }
                match json::from_bytes(body.as_slice()) {
                    Ok(voices) => {
                        let first: Option<String> = first_voice(&voices);
                        self.remember(&first);
                        first
                    },
                    Err(_) => None,
                }
            },
        }
    }

    fn post(&self, input: &str, voice: &str) -> (step: SpeechStep)
        ensures
            step@ == self.request(input@, Some(voice@)),
            asks_for(step, self.config.tts_model@, input@, voice@),
    {
        let body: Value = json::with(
            json::with(
                json::with(
                    json::with(json::empty_object(), "model", json::of_text(&self.config.tts_model)),
                    "input",
                    json::of_text(input),
                ),
                "response_format",
                json::of_text("wav"),
            ),
            "voice",
            json::of_text(voice),
        );
        let ghost tree = speech_tree(self.config.tts_model@, input@, voice@);
        assert(json::json_tree(body) =~= tree);
        assert(tree.plain(64)) by {
            reveal_with_fuel(JsonTree::plain, 2);
        }
        proof {
            speech_is_asked_for(self.config.tts_model@, input@, voice@);
        }
        SpeechStep::Post {
            url: http::url(&self.config.base_url, "/audio/speech"),
            body: json::to_text(&body),
        }
    }

    fn fail(&self) -> (step: SpeechStep)
        ensures
            step@ == self.request(Seq::empty(), None),
    {
        let mut message: String =
            "No TTS voice configured and none could be auto-discovered. Set `mistral.tts_voice`, or `mistral.tts_voices.".to_owned();
        message.append(&self.language);
        message.append("`, to a voice id (list them with GET `");
        message.append(&http::url(&self.config.base_url, "/audio/voices"));
        message.append("`).");
        SpeechStep::Fail(message)
    }

    /// What is to be done to speak `input`.
    pub fn synthesize(&self, input: &str) -> (step: SpeechStep)
        ensures
            step@ == (match self.choice() {
                Voice::Use(voice) => self.request(input@, Some(voice)),
                Voice::NoVoice => self.request(input@, None),
                Voice::Discover => Request::Discover {
                    url: http::address(self.config.base_url@, "/audio/voices"@),
                },
            }),
            self.choice() matches Voice::Use(voice) ==> asks_for(
                step,
                self.config.tts_model@,
                input@,
                voice,
            ),
    {
        match self.resolve_voice() {
            VoiceChoice::Use(voice) => self.post(input, &voice),
            VoiceChoice::NoVoice => self.fail(),
            VoiceChoice::Discover => SpeechStep::Discover {
                url: http::url(&self.config.base_url, "/audio/voices"),
            },
        }
    }

    /// What is to be done to speak `input`, once the provider has been asked for
    /// its voices.
    pub fn synthesize_discovered(&mut self, input: &str, reply: &VoicesReply) -> (step: SpeechStep)
        ensures
            final(self).config == old(self).config,
            final(self).language == old(self).language,
            step@ == old(self).request(
                input@,
                match listed(*reply) {
                    Some(voices) => first_listed(voices),
                    None => None,
                },
            ),
            listed(*reply) matches Some(voices) ==> (first_listed(voices) matches Some(voice)
                ==> asks_for(step, old(self).config.tts_model@, input@, voice)),
            final(self).resolved_voice.deep_view() == (if listed(*reply) is Some && old(
                self,
            ).resolved_voice is None {
                Some(first_listed(listed(*reply)->0))
            } else {
                old(self).resolved_voice.deep_view()
            }),
    {
        match self.discovered(reply) {
            Some(voice) => self.post(input, &voice),
            None => self.fail(),
        }
    }
}

/// The list of voices that a reply holds.
pub open spec fn listed(reply: VoicesReply) -> Option<JsonTree> {
    match reply {
        VoicesReply::Unreachable => None,
        VoicesReply::Reply { status, body } => if status.success() {
            match json::json_parse_bytes(body@) {
                Ok(voices) => Some(voices),
                Err(_) => None,
            }
        } else {
            None
        },
    }
}

/// The id of the first voice in a list of voices.
pub fn first_voice(voices: &Value) -> (id: Option<String>)
    ensures
        id.deep_view() == first_listed(json::json_tree(*voices)),
{
    match json::get(voices, "items") {
        Some(items) => match json::get_at(items, 0) {
            Some(first) => match json::text_at(first, "id") {
                Some(id) => Some(id.to_owned()),
                None => None,
            },
            None => None,
        },
        None => None,
    }
}

/// ASCII white space.
pub open spec fn ascii_white_space(byte: u8) -> bool {
    byte == 0x20 || byte == 0x09 || byte == 0x0a || byte == 0x0c || byte == 0x0d
}

/// The first byte that is no ASCII white space is an opening brace.
pub open spec fn opens_with_brace(bytes: Seq<u8>) -> bool {
    exists|at: int|
        0 <= at < bytes.len() && #[trigger] bytes[at] == 0x7b && forall|k: int|
            0 <= k < at ==> ascii_white_space(#[trigger] bytes[k])
}

/// True when the bytes start as a JSON object does.
pub fn starts_with_json(bytes: &[u8]) -> (json: bool)
    ensures
        json == opens_with_brace(bytes@),
{
    let total: usize = bytes.len();
    let mut at: usize = 0;
    while at < total
        invariant
            total == bytes@.len(),
            at <= total,
            forall|k: int| 0 <= k < at ==> ascii_white_space(#[trigger] bytes@[k]),
        decreases total - at,
    {
        let byte: u8 = bytes[at];
        if !(byte == 0x20 || byte == 0x09 || byte == 0x0a || byte == 0x0c || byte == 0x0d) {
            assert(!ascii_white_space(bytes@[at as int]));
            return byte == 0x7b;
        }
        at = at + 1;
    }
    false
}

/// What is made of the provider's reply.
pub ghost enum Speech {
    Audio(Audio),
    Refused { code: u16, shown: Seq<char>, detail: Seq<char> },
    BadJson(Seq<char>),
    MissingAudio,
    BadBase64(Seq<char>),
    BadWav(WavError),
}

/// What is made of the bytes of an audio file.
pub open spec fn file_speech(bytes: Seq<u8>) -> Speech {
    match wav::decoded(bytes) {
        Ok(audio) => Speech::Audio(audio),
        Err(error) => Speech::BadWav(error),
    }
}

/// What is made of a JSON reply: the audio file is its member `audio_data`, in
/// Base64.
pub open spec fn json_speech(reply: JsonTree) -> Speech {
    match reply.text_at("audio_data"@) {
        Some(encoded) => match encoding::base64_bytes(encoded) {
            Ok(bytes) => file_speech(bytes),
            Err(message) => Speech::BadBase64(message),
        },
        None => Speech::MissingAudio,
    }
}

/// What is made of the body of a reply. It is JSON if its type says so or if it
/// starts as JSON does, and else the audio file itself.
pub open spec fn body_speech(content_type: Seq<char>, body: Seq<u8>) -> Speech {
    if text::holds(content_type, "json"@) || opens_with_brace(body) {
        match json::json_parse_bytes(body) {
            Ok(reply) => json_speech(reply),
            Err(message) => Speech::BadJson(message),
        }
    } else {
        file_speech(body)
    }
}

/// The outcome of an utterance, as [`Speech`].
pub open spec fn outcome(result: Result<TtsAudio, TtsError>) -> Speech {
    match result {
        Ok(audio) => Speech::Audio(audio@),
        Err(TtsError::Refused { status, detail }) => Speech::Refused {
            code: status.code,
            shown: status.shown@,
            detail: detail@,
        },
        Err(TtsError::BadJson(message)) => Speech::BadJson(message@),
        Err(TtsError::MissingAudio) => Speech::MissingAudio,
        Err(TtsError::BadBase64(message)) => Speech::BadBase64(message@),
        Err(TtsError::BadWav(error)) => Speech::BadWav(error),
    }
}

fn decode_file(bytes: &[u8]) -> (result: Result<TtsAudio, TtsError>)
    ensures
        outcome(result) == file_speech(bytes@),
{
    match wav::decode_wav(bytes) {
        Ok(audio) => Ok(audio),
        Err(error) => Err(TtsError::BadWav(error)),
    }
}

/// Decodes the audio of a JSON reply.
pub fn decode_json(reply: &Value) -> (result: Result<TtsAudio, TtsError>)
    ensures
        outcome(result) == json_speech(json::json_tree(*reply)),
{
    match json::text_at(reply, "audio_data") {
        Some(encoded) => match encoding::base64_decode(encoded) {
            Ok(bytes) => decode_file(bytes.as_slice()),
            Err(message) => Err(TtsError::BadBase64(message)),
        },
        None => Err(TtsError::MissingAudio),
    }
}

/// Decodes the body of a reply.
pub fn decode_body(content_type: &str, body: &[u8]) -> (result: Result<TtsAudio, TtsError>)
    ensures
        outcome(result) == body_speech(content_type@, body@),
{
    if text::contains(content_type, "json") || starts_with_json(body) {
        match json::from_bytes(body) {
            Ok(reply) => decode_json(&reply),
            Err(message) => Err(TtsError::BadJson(message)),
        }
    } else {
        decode_file(body)
    }
}

/// Takes the provider's reply. The body of one that is no success is read as text
/// for the detail.
pub fn speech_reply(status: HttpStatus, content_type: &str, body: &[u8], detail: &str) -> (result:
    Result<TtsAudio, TtsError>)
    ensures
        outcome(result) == (if status.success() {
            body_speech(content_type@, body@)
        } else {
            Speech::Refused { code: status.code, shown: status.shown@, detail: detail@ }
        }),
{
    if status.is_success() {
        decode_body(content_type, body)
    } else {
        Err(TtsError::Refused { status, detail: detail.to_owned() })
    }
}

impl TtsError {
    /// The message that tells the user.
    pub fn message(&self) -> (message: String)
        ensures
            message@ == (match self {
                TtsError::Refused { status, detail } => http::refusal(
                    "Voxtral TTS"@,
                    *status,
                    detail@,
                ),
                TtsError::BadJson(reason) => reason@,
                TtsError::MissingAudio => "TTS JSON response missing audio_data"@,
                TtsError::BadBase64(reason) => reason@,
                TtsError::BadWav(WavError::NotWav) => "TTS response is not a WAV file"@,
                TtsError::BadWav(WavError::MissingData) => "WAV missing data chunk"@,
                TtsError::BadWav(WavError::Unsupported { format_tag, bits }) => {
                    "Unsupported WAV format tag "@ + text::decimal(*format_tag as nat) + " / "@
                        + text::decimal(*bits as nat) + " bits"@
                },
            }),
    {
        match self {
            TtsError::Refused { status, detail } => http::refused("Voxtral TTS", status, detail),
            TtsError::BadJson(reason) => reason.clone(),
            TtsError::MissingAudio => "TTS JSON response missing audio_data".to_owned(),
            TtsError::BadBase64(reason) => reason.clone(),
            TtsError::BadWav(WavError::NotWav) => "TTS response is not a WAV file".to_owned(),
            TtsError::BadWav(WavError::MissingData) => "WAV missing data chunk".to_owned(),
            TtsError::BadWav(WavError::Unsupported { format_tag, bits }) => {
                let mut message: String = "Unsupported WAV format tag ".to_owned();
                message.append(&text::decimal_text(*format_tag as u64));
                message.append(" / ");
                message.append(&text::decimal_text(*bits as u64));
                message.append(" bits");
                message
            },
        }
    }
}

/// An audio file sent in JSON, in Base64, is decoded as if it had been sent
/// itself.
pub proof fn base64_audio_is_the_file(reply: JsonTree, encoded: Seq<char>, file: Seq<u8>)
    requires
        reply.text_at("audio_data"@) == Some(encoded),
        encoding::stands_for(encoded, file),
    ensures
        json_speech(reply) == file_speech(file),
{
}

/// A discovered voice is asked for once: whatever the provider listed, the next
/// utterance does not ask again.
pub proof fn voices_are_listed_once(tts: Tts, voices: JsonTree)
    requires
        tts.resolved_voice.deep_view() == Some(first_listed(voices)),
    ensures
        !(tts.choice() is Discover),
        configured_voice(tts.config, tts.language@) is None ==> tts.choice() == (match first_listed(
            voices,
        ) {
            Some(voice) => Voice::Use(voice),
            None => Voice::NoVoice,
        }),
{
}

/// The voice of a language is the first one that is listed for it.
pub proof fn first_voice_for_the_language(
    voices: Seq<(Seq<char>, Seq<char>)>,
    language: Seq<char>,
    at: int,
)
    requires
        0 <= at < voices.len(),
        voices[at].0 == language,
        forall|k: int| 0 <= k < at ==> (#[trigger] voices[k]).0 != language,
    ensures
        voice_for(voices, language) == Some(voices[at].1),
    decreases at,
{
    if at > 0 {
        let rest = voices.skip(1);
        assert(voices[0].0 != language);
        assert forall|k: int| 0 <= k < at - 1 implies (#[trigger] rest[k]).0 != language by {
            assert(rest[k] == voices[k + 1]);
        }
        first_voice_for_the_language(rest, language, at - 1);
    }
}

/// A language without a voice has none.
pub proof fn no_voice_for_the_language(voices: Seq<(Seq<char>, Seq<char>)>, language: Seq<char>)
    requires
        forall|k: int| 0 <= k < voices.len() ==> (#[trigger] voices[k]).0 != language,
    ensures
        voice_for(voices, language) is None,
    decreases voices.len(),
{
    if voices.len() > 0 {
        let rest = voices.skip(1);
        assert(voices[0].0 != language);
        assert forall|k: int| 0 <= k < rest.len() implies (#[trigger] rest[k]).0 != language by {
            assert(rest[k] == voices[k + 1]);
        }
        no_voice_for_the_language(rest, language);
    }
}

/// The voice of the language comes first, then the default one, each without white
/// space around it and only if anything is left of it; then the one that was discovered,
/// and if nothing was, voices are to be listed.
pub proof fn voices_in_order(tts: Tts)
    ensures
        ({
            let own = voice_for(tts.config.tts_voices.deep_view(), tts.language@);
            let default = text::trimmed(tts.config.tts_voice@);
            let has_own = own is Some && text::trimmed(own->0).len() > 0;
            &&& has_own ==> tts.choice() == Voice::Use(text::trimmed(own->0))
            &&& !has_own && default.len() > 0 ==> tts.choice() == Voice::Use(default)
            &&& !has_own && default.len() == 0 ==> tts.choice() == (match tts.resolved_voice {
                Some(Some(voice)) => Voice::Use(voice@),
                Some(None) => Voice::NoVoice,
                None => Voice::Discover,
            })
        }),
{
}

/// The voice that is discovered is the `id` of the first of the `items`.
pub proof fn first_item_is_discovered(voices: JsonTree, items: JsonTree, first: JsonTree)
    requires
        voices.get("items"@) == Some(items),
        items.at(0) == Some(first),
    ensures
        first_listed(voices) == first.text_at("id"@),
{
}

/// An utterance is posted to the speech service of the base, and one without a voice
/// fails with a message that names the language.
pub proof fn speech_goes_to_the_service(tts: Tts, input: Seq<char>, voice: Seq<char>)
    ensures
        tts.request(input, Some(voice)) matches Request::Post { url, body } && url == http::address(
            tts.config.base_url@,
            "/audio/speech"@,
        ) && body == json::json_text(speech_tree(tts.config.tts_model@, input, voice)),
        tts.request(input, None) == Request::Fail(
            "No TTS voice configured and none could be auto-discovered. Set `mistral.tts_voice`, or `mistral.tts_voices."@
                + tts.language@ + "`, to a voice id (list them with GET `"@ + http::address(
                tts.config.base_url@,
                "/audio/voices"@,
            ) + "`)."@,
        ),
{
}

/// A body that neither says that it is JSON nor starts with a brace is the audio file,
/// all of it.
pub proof fn raw_audio_is_the_file(content_type: Seq<char>, body: Seq<u8>)
    requires
        !text::holds(content_type, "json"@),
        body.len() == 0 || body[0] != 0x7b,
        body.len() > 0 ==> !ascii_white_space(body[0]),
    ensures
        body_speech(content_type, body) == (match wav::decoded(body) {
            Ok(audio) => Speech::Audio(audio),
            Err(error) => Speech::BadWav(error),
        }),
{
}

/// A body that says that it is JSON, or whose first byte that is no white space is a
/// brace, is read as JSON: what is none is told, and so is a missing or a broken file.
pub proof fn json_audio_is_unpacked(content_type: Seq<char>, body: Seq<u8>, at: int)
    requires
        text::holds(content_type, "json"@) || (0 <= at < body.len() && body[at] == 0x7b && forall|
            k: int,
        |
            0 <= k < at ==> ascii_white_space(#[trigger] body[k])),
    ensures
        json::json_parse_bytes(body) matches Err(message) ==> body_speech(content_type, body)
            == Speech::BadJson(message),
        json::json_parse_bytes(body) matches Ok(reply) ==> (reply.text_at("audio_data"@) is None
            ==> body_speech(content_type, body) == Speech::MissingAudio),
        json::json_parse_bytes(body) matches Ok(reply) ==> (reply.text_at("audio_data"@)
            matches Some(encoded) ==> body_speech(content_type, body) == (
        match encoding::base64_bytes(encoded) {
            Err(message) => Speech::BadBase64(message),
            Ok(file) => match wav::decoded(file) {
                Ok(audio) => Speech::Audio(audio),
                Err(error) => Speech::BadWav(error),
            },
        })),
{
}

/// The white space before a brace is that of ASCII: space, tab, line feed, form feed,
/// and carriage return.
pub proof fn white_space_of_ascii(byte: u8)
    ensures
        ascii_white_space(byte) <==> byte == 32 || byte == 9 || byte == 10 || byte == 12 || byte
            == 13,
{
}

/// The voices are listed by a reply that is a success and JSON, and by no other one.
pub proof fn voices_are_read_from_a_success(status: HttpStatus, body: Vec<u8>)
    ensures
        listed(VoicesReply::Unreachable) is None,
        listed(VoicesReply::Reply { status, body }) == (if 200 <= status.code <= 299 {
            match json::json_parse_bytes(body@) {
                Ok(voices) => Some(voices),
                Err(_) => None,
            }
        } else {
            None
        }),
{
}

/// The outcome of an utterance is the audio, or the reason why there is none, each with
/// what it holds.
pub proof fn outcomes_say_what_they_hold(
    audio: TtsAudio,
    status: HttpStatus,
    text: String,
    error: WavError,
)
    ensures
        outcome(Ok::<TtsAudio, TtsError>(audio)) == Speech::Audio(audio@),
        outcome(Err::<TtsAudio, TtsError>(TtsError::Refused { status, detail: text })) == (
        Speech::Refused { code: status.code, shown: status.shown@, detail: text@ }),
        outcome(Err::<TtsAudio, TtsError>(TtsError::BadJson(text))) == Speech::BadJson(text@),
        outcome(Err::<TtsAudio, TtsError>(TtsError::MissingAudio)) == Speech::MissingAudio,
        outcome(Err::<TtsAudio, TtsError>(TtsError::BadBase64(text))) == Speech::BadBase64(text@),
        outcome(Err::<TtsAudio, TtsError>(TtsError::BadWav(error))) == Speech::BadWav(error),
        audio@.channels == audio.channels,
        audio@.sample_rate == audio.sample_rate,
        audio.samples matches wav::Samples::Pcm16(samples) ==> audio@.samples
            == wav::SampleSeq::Pcm16(samples@),
        audio.samples matches wav::Samples::Float32(samples) ==> audio@.samples
            == wav::SampleSeq::Float32(samples@),
{
}

/// A choice of a voice and a step are what they hold.
pub proof fn steps_say_what_is_to_be_done(url: String, text: String)
    ensures
        VoiceChoice::Use(text)@ == Voice::Use(text@),
        VoiceChoice::NoVoice@ == Voice::NoVoice,
        VoiceChoice::Discover@ == Voice::Discover,
        (SpeechStep::Discover { url })@ == (Request::Discover { url: url@ }),
        (SpeechStep::Post { url, body: text })@ == (Request::Post { url: url@, body: text@ }),
        SpeechStep::Fail(text)@ == Request::Fail(text@),
{
}

}
