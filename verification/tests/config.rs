use joya::config::{
    default_cerebras_key, default_mistral_key, default_true, AudioConfig, Config, Direction,
    LanguageConfig, MIN_INTERVAL_MS,
};

fn languages(source: Option<&str>, target: &str) -> LanguageConfig {
    LanguageConfig { source: source.map(str::to_owned), target: target.to_owned() }
}

#[test]
fn swapping_exchanges_the_languages() {
    let swapped = languages(Some("Spanish"), "English").swapped();
    assert_eq!(swapped.source.as_deref(), Some("English"));
    assert_eq!(swapped.target, "Spanish");
    let back = swapped.swapped();
    assert_eq!(back.source.as_deref(), Some("Spanish"));
    assert_eq!(back.target, "English");
}

#[test]
fn an_unset_source_becomes_english() {
    let swapped = languages(None, "French").swapped();
    assert_eq!(swapped.source.as_deref(), Some("French"));
    assert_eq!(swapped.target, "English");
}

#[test]
fn relay_is_on_by_default_and_self_is_off() {
    let audio = AudioConfig::default();
    assert!(audio.relay.enabled);
    assert!(!audio.self_mode.enabled);
    assert!(audio.output.monitor_self);
    assert_eq!(audio.output.mic_sink, None);
    assert_eq!(Direction::default(), Direction::Relay);
    assert!(default_true());
}

#[test]
fn the_default_configuration_names_the_services() {
    let config = Config::with_keys("m".to_owned(), "c".to_owned());
    assert_eq!(config.mistral.api_key, "m");
    assert_eq!(config.mistral.base_url, "https://api.mistral.ai/v1");
    assert_eq!(config.mistral.stt_model, "voxtral-mini-transcribe-realtime-2602");
    assert_eq!(config.mistral.stt_target_delay_ms, 480);
    assert_eq!(config.mistral.tts_model, "voxtral-mini-tts-latest");
    assert_eq!(config.mistral.tts_voice, "");
    assert_eq!(config.cerebras.api_key, "c");
    assert_eq!(config.cerebras.base_url, "https://api.cerebras.ai/v1");
    assert_eq!(config.cerebras.model, "gemma-4-31b");
    assert_eq!(config.cerebras.reasoning_effort, "low");
    assert_eq!(config.languages.source, None);
    assert_eq!(config.languages.target, "English");
    assert!(!config.overlay.enabled);
    assert_eq!(config.overlay.interval_ms, MIN_INTERVAL_MS);
}

#[test]
fn keys_come_from_the_environment() {
    assert_eq!(default_mistral_key(Some("key".to_owned())), "key");
    assert_eq!(default_mistral_key(None), "");
    assert_eq!(default_cerebras_key(Some("key".to_owned())), "key");
    assert_eq!(default_cerebras_key(None), "");
}
