//! Configuration: audio routing, languages, and the remote services.

use vstd::prelude::*;
use vstd::string::*;

verus! {

broadcast use vstd::string::group_string_axioms;

/// Top-level Joya configuration.
#[derive(Debug, Clone)]
pub struct Config {
    pub audio: AudioConfig,
    pub languages: LanguageConfig,
    pub mistral: MistralConfig,
    pub cerebras: CerebrasConfig,
    pub overlay: OverlayConfig,
}

/// Which side of the call Joya translates for. Each direction is an independent
/// pipeline (capture, transcription, translation, synthesis, playback), and both
/// can run at once.
///
/// Languages are framed from your point of view: `languages.source` is the
/// language you speak, `languages.target` is the language the other party
/// speaks. `SelfMode` translates `source` into `target`; `Relay` translates the
/// swapped pair.
#[derive(Debug, Clone, Copy, PartialEq, Eq, Hash, Structural)]
pub enum Direction {
    /// The other party's voice, translated into your language, played to you.
    Relay,
    /// Your voice, translated into the other party's language, played to them.
    SelfMode,
}

/// Audio routing: the capture of each direction and the shared outputs.
#[derive(Debug, Clone)]
pub struct AudioConfig {
    pub relay: RelayConfig,
    pub self_mode: SelfConfig,
    pub output: OutputConfig,
}

/// Capture of the other party's voice.
#[derive(Debug, Clone)]
pub struct RelayConfig {
    /// `false` skips this direction.
    pub enabled: bool,
    /// Where the other party's voice is captured from, by name or id. `None`
    /// stands for the default output's monitor, which also hears Joya's own
    /// speech.
    pub capture_device: Option<String>,
}

/// Capture of your own voice.
#[derive(Debug, Clone)]
pub struct SelfConfig {
    /// `false` skips this direction.
    pub enabled: bool,
    /// The microphone, by name or id. `None` stands for the default input.
    pub capture_device: Option<String>,
}

/// Output routing that both directions share.
#[derive(Debug, Clone)]
pub struct OutputConfig {
    /// The virtual sink that feeds the call. `None` feeds nothing into it.
    pub mic_sink: Option<String>,
    /// The device you listen on. `None` stands for the default output.
    pub playback_device: Option<String>,
    /// Also play your own outgoing translation on `playback_device`.
    pub monitor_self: bool,
}

/// The languages of the two parties, from your point of view.
#[derive(Debug)]
pub struct LanguageConfig {
    /// The language you speak. `None` leaves it to be detected.
    pub source: Option<String>,
    /// The language the other party speaks.
    pub target: String,
}

/// Mistral's services: transcription and speech synthesis.
#[derive(Debug, Clone)]
pub struct MistralConfig {
    pub api_key: String,
    /// REST base URL; the realtime URL is derived from it.
    pub base_url: String,
    pub stt_model: String,
    /// Target latency of the realtime transcription, in milliseconds.
    pub stt_target_delay_ms: u32,
    pub tts_model: String,
    /// The voice to speak with. Blank leaves it to be discovered.
    pub tts_voice: String,
    /// Voices by language, ahead of `tts_voice`.
    pub tts_voices: Vec<(String, String)>,
}

/// Cerebras, which hosts the translation model.
#[derive(Debug, Clone)]
pub struct CerebrasConfig {
    pub api_key: String,
    pub base_url: String,
    pub model: String,
    /// `none`, `low`, `medium`, or `high`.
    pub reasoning_effort: String,
}

/// The on-screen translation overlay.
#[derive(Debug, Clone)]
pub struct OverlayConfig {
    pub enabled: bool,
    /// The output (monitor) to cover, by name. `None` stands for that of the
    /// primary display.
    pub output: Option<String>,
    /// The language to translate on-screen text into.
    pub language: String,
    /// Pause between two looks at the screen, in milliseconds.
    pub interval_ms: u64,
}

/// The shortest pause between two looks at the screen, in milliseconds.
pub const MIN_INTERVAL_MS: u64 = 250;

/// The pair of languages that a [`LanguageConfig`] names.
pub ghost struct LanguagePair {
    pub source: Option<Seq<char>>,
    pub target: Seq<char>,
}

impl LanguagePair {
    /// The reverse pair. An undetermined source is taken to be English.
    pub open spec fn swapped(self) -> LanguagePair {
        LanguagePair {
            source: Some(self.target),
            target: match self.source {
                Some(source) => source,
                None => "English"@,
            },
        }
    }
}

impl View for LanguageConfig {
    type V = LanguagePair;

    open spec fn view(&self) -> LanguagePair {
        LanguagePair { source: self.source.deep_view(), target: self.target@ }
    }
}

impl Clone for LanguageConfig {
    fn clone(&self) -> (copy: Self)
        ensures
            copy == *self,
    {
        LanguageConfig { source: self.source.clone(), target: self.target.clone() }
    }
}

impl LanguageConfig {
    /// The reverse direction: the two parties' languages swap places. When your
    /// language is not set, the default target stands in for it.
    pub fn swapped(&self) -> (reverse: LanguageConfig)
        ensures
            reverse@ == self@.swapped(),
    {
        LanguageConfig {
            source: Some(self.target.clone()),
            target: match &self.source {
                Some(source) => source.clone(),
                None => default_target(),
            },
        }
    }
}

/// Swapping the languages twice gives them back, when your language is set.
pub proof fn swapped_twice(pair: LanguagePair)
    requires
        pair.source is Some,
    ensures
        pair.swapped().swapped() == pair,
{
}

pub fn default_true() -> (on: bool)
    ensures
        on,
{
    true
}

pub fn default_target() -> (language: String)
    ensures
        language@ == "English"@,
{
    "English".to_owned()
}

/// The Mistral key: what the environment gives, or nothing.
pub fn default_mistral_key(from_environment: Option<String>) -> (key: String)
    ensures
        key@ == (match from_environment {
            Some(key) => key@,
            None => Seq::empty(),
        }),
{
    from_environment.unwrap_or_default()
}

pub fn default_mistral_base() -> (url: String)
    ensures
        url@ == "https://api.mistral.ai/v1"@,
{
    "https://api.mistral.ai/v1".to_owned()
}

pub fn default_stt_model() -> (model: String)
    ensures
        model@ == "voxtral-mini-transcribe-realtime-2602"@,
{
    "voxtral-mini-transcribe-realtime-2602".to_owned()
}

pub fn default_stt_delay_ms() -> (delay: u32)
    ensures
        delay == 480,
{
    480
}

pub fn default_tts_model() -> (model: String)
    ensures
        model@ == "voxtral-mini-tts-latest"@,
{
    "voxtral-mini-tts-latest".to_owned()
}

/// The Cerebras key: what the environment gives, or nothing.
pub fn default_cerebras_key(from_environment: Option<String>) -> (key: String)
    ensures
        key@ == (match from_environment {
            Some(key) => key@,
            None => Seq::empty(),
        }),
{
    from_environment.unwrap_or_default()
}

pub fn default_cerebras_base() -> (url: String)
    ensures
        url@ == "https://api.cerebras.ai/v1"@,
{
    "https://api.cerebras.ai/v1".to_owned()
}

pub fn default_cerebras_model() -> (model: String)
    ensures
        model@ == "gemma-4-31b"@,
{
    "gemma-4-31b".to_owned()
}

pub fn default_reasoning_effort() -> (effort: String)
    ensures
        effort@ == "low"@,
{
    "low".to_owned()
}

impl Default for AudioConfig {
    /// Relay on, self off, no device named.
    fn default() -> (audio: Self)
        ensures
            audio.relay.enabled && audio.relay.capture_device is None,
            !audio.self_mode.enabled && audio.self_mode.capture_device is None,
            audio.output.mic_sink is None && audio.output.playback_device is None,
            audio.output.monitor_self,
    {
        AudioConfig {
            relay: default_relay(),
            self_mode: SelfConfig::default(),
            output: OutputConfig::default(),
        }
    }
}

impl Default for RelayConfig {
    fn default() -> (relay: Self)
        ensures
            relay.enabled,
            relay.capture_device is None,
    {
        RelayConfig { enabled: true, capture_device: None }
    }
}

impl Default for SelfConfig {
    fn default() -> (own: Self)
        ensures
            !own.enabled,
            own.capture_device is None,
    {
        SelfConfig { enabled: false, capture_device: None }
    }
}

impl Default for OutputConfig {
    fn default() -> (output: Self)
        ensures
            output.mic_sink is None,
            output.playback_device is None,
            output.monitor_self,
    {
        OutputConfig { mic_sink: None, playback_device: None, monitor_self: true }
    }
}

pub fn default_relay() -> (relay: RelayConfig)
    ensures
        relay.enabled,
        relay.capture_device is None,
{
    RelayConfig::default()
}

impl Default for Direction {
    fn default() -> (direction: Self)
        ensures
            direction == Direction::Relay,
    {
        Direction::Relay
    }
}

impl Default for LanguageConfig {
    fn default() -> (languages: Self)
        ensures
            languages.source is None,
            languages.target@ == "English"@,
    {
        LanguageConfig { source: None, target: default_target() }
    }
}

impl Default for OverlayConfig {
    fn default() -> (overlay: Self)
        ensures
            !overlay.enabled,
            overlay.output is None,
            overlay.language@ == "English"@,
            overlay.interval_ms == MIN_INTERVAL_MS,
    {
        OverlayConfig {
            enabled: false,
            output: None,
            language: default_target(),
            interval_ms: MIN_INTERVAL_MS,
        }
    }
}

impl MistralConfig {
    /// The default settings, with `api_key`.
    pub fn with_key(api_key: String) -> (mistral: Self)
        ensures
            mistral.api_key == api_key,
            mistral.base_url@ == "https://api.mistral.ai/v1"@,
            mistral.stt_model@ == "voxtral-mini-transcribe-realtime-2602"@,
            mistral.stt_target_delay_ms == 480,
            mistral.tts_model@ == "voxtral-mini-tts-latest"@,
            mistral.tts_voice@.len() == 0,
            mistral.tts_voices@.len() == 0,
    {
        MistralConfig {
            api_key,
            base_url: default_mistral_base(),
            stt_model: default_stt_model(),
            stt_target_delay_ms: default_stt_delay_ms(),
            tts_model: default_tts_model(),
            tts_voice: String::new(),
            tts_voices: Vec::new(),
        }
    }
}

impl CerebrasConfig {
    /// The default settings, with `api_key`.
    pub fn with_key(api_key: String) -> (cerebras: Self)
        ensures
            cerebras.api_key == api_key,
            cerebras.base_url@ == "https://api.cerebras.ai/v1"@,
            cerebras.model@ == "gemma-4-31b"@,
            cerebras.reasoning_effort@ == "low"@,
    {
        CerebrasConfig {
            api_key,
            base_url: default_cerebras_base(),
            model: default_cerebras_model(),
            reasoning_effort: default_reasoning_effort(),
        }
    }
}

impl Config {
    /// The default configuration, with the keys of the two services.
    pub fn with_keys(mistral_key: String, cerebras_key: String) -> (config: Self)
        ensures
            config.audio.relay.enabled && config.audio.relay.capture_device is None,
            !config.audio.self_mode.enabled && config.audio.self_mode.capture_device is None,
            config.audio.output.mic_sink is None && config.audio.output.playback_device is None,
            config.audio.output.monitor_self,
            config.languages.source is None && config.languages.target@ == "English"@,
            config.mistral.api_key == mistral_key,
            config.mistral.base_url@ == "https://api.mistral.ai/v1"@,
            config.mistral.stt_model@ == "voxtral-mini-transcribe-realtime-2602"@,
            config.mistral.stt_target_delay_ms == 480,
            config.mistral.tts_model@ == "voxtral-mini-tts-latest"@,
            config.mistral.tts_voice@.len() == 0 && config.mistral.tts_voices@.len() == 0,
            config.cerebras.api_key == cerebras_key,
            config.cerebras.base_url@ == "https://api.cerebras.ai/v1"@,
            config.cerebras.model@ == "gemma-4-31b"@,
            config.cerebras.reasoning_effort@ == "low"@,
            !config.overlay.enabled && config.overlay.output is None,
            config.overlay.language@ == "English"@,
            config.overlay.interval_ms == MIN_INTERVAL_MS,
    {
        Config {
            audio: AudioConfig::default(),
            languages: LanguageConfig::default(),
            mistral: MistralConfig::with_key(mistral_key),
            cerebras: CerebrasConfig::with_key(cerebras_key),
            overlay: OverlayConfig::default(),
        }
    }
}

/// The reverse direction translates from the other party's language into yours, or, if
/// yours is not set, into the default one.
pub proof fn swapping_exchanges_the_languages(pair: LanguagePair)
    ensures
        pair.swapped().source == Some(pair.target),
        pair.source is Some ==> pair.swapped().target == pair.source->0,
        pair.source is None ==> pair.swapped().target == "English"@,
{
}

}
