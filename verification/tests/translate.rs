use joya::chat::{ChatReply, ChoiceMessage};
use joya::config::{CerebrasConfig, LanguageConfig};
use joya::http::HttpStatus;
use joya::translate::Translator;

fn translator(source: Option<&str>) -> Translator {
    Translator::new(
        CerebrasConfig::with_key("k".to_owned()),
        &LanguageConfig { source: source.map(str::to_owned), target: "French".to_owned() },
    )
}

fn reply(contents: &[Option<&str>]) -> ChatReply {
    ChatReply::Choices(
        contents
            .iter()
            .map(|content| ChoiceMessage {
                content: content.map(str::to_owned),
                tool_calls: Vec::new(),
            })
            .collect(),
    )
}

#[test]
fn the_interpreter_is_told_the_languages() {
    assert_eq!(
        translator(Some("Spanish")).system_prompt,
        "You are a professional real-time interpreter. Translate the user's message from Spanish \
         into French. Output only the translation — no quotes, transliteration, notes, or \
         explanations. Preserve tone and meaning; keep it natural and concise for speech."
    );
    assert!(translator(None)
        .system_prompt
        .starts_with("You are a professional real-time interpreter. Translate the user's message into French."));
}

#[test]
fn a_translation_is_asked_for() {
    let translator = translator(None);
    let post = translator.translate("¿Qué tal?");
    assert_eq!(post.url, "https://api.cerebras.ai/v1/chat/completions");
    let body: serde_json::Value = serde_json::from_str(&post.body).unwrap();
    assert_eq!(body["model"], "gemma-4-31b");
    assert_eq!(body["messages"][0]["role"], "system");
    assert_eq!(body["messages"][0]["content"], translator.system_prompt.as_str());
    assert_eq!(body["messages"][1]["role"], "user");
    assert_eq!(body["messages"][1]["content"], "¿Qué tal?");
    assert_eq!(body["reasoning_effort"], "low");
    assert_eq!(body["stream"], false);
}

#[test]
fn the_first_completion_is_the_translation() {
    let translation = Translator::translation(reply(&[Some(" Ça va ?\n"), Some("x")])).unwrap();
    assert_eq!(translation.translated, "Ça va ?");
    assert_eq!(Translator::translation(reply(&[None])).unwrap().translated, "");
}

#[test]
fn a_missing_translation_is_told() {
    assert_eq!(Translator::translation(reply(&[])).unwrap_err(), "Cerebras returned no choices");
    assert_eq!(
        Translator::translation(ChatReply::Failed("timed out".to_owned())).unwrap_err(),
        "timed out"
    );
    let refused = ChatReply::Refused {
        status: HttpStatus { code: 429, shown: "429 Too Many Requests".to_owned() },
        detail: "slow down".to_owned(),
    };
    assert_eq!(
        Translator::translation(refused).unwrap_err(),
        "Cerebras translation failed (429 Too Many Requests): slow down"
    );
}
