use joya::config::Direction;
use joya::pipeline::{Consumer, PipelineEvent, PipelineStep, Stage, UiEvent};
use joya::stt::SttEvent;

fn shown(events: Vec<UiEvent>) -> Vec<String> {
    events
        .into_iter()
        .map(|event| match event {
            UiEvent::SourcePartial { direction, text } => format!("{direction:?} partial {text}"),
            UiEvent::SourceFinal { direction, text } => format!("{direction:?} final {text}"),
            UiEvent::Translation { direction, source, translated } => {
                format!("{direction:?} {source} -> {translated}")
            }
            UiEvent::Stage { direction, stage } => format!("{direction:?} {stage:?}"),
            UiEvent::Error { direction, message } => format!("{direction:?} error {message}"),
        })
        .collect()
}

#[test]
fn an_utterance_is_translated_and_spoken() {
    let mut consumer = Consumer::new(Direction::SelfMode);
    assert!(matches!(consumer.step(), PipelineStep::Wait));
    assert_eq!(
        shown(consumer.on(PipelineEvent::Stt(SttEvent::Partial("ho".to_owned())))),
        vec!["SelfMode Transcribing", "SelfMode partial ho"]
    );
    assert_eq!(
        shown(consumer.on(PipelineEvent::Stt(SttEvent::Final("hola".to_owned())))),
        vec!["SelfMode final hola", "SelfMode Translating"]
    );
    assert!(matches!(consumer.step(), PipelineStep::Translate(source) if source == "hola"));
    assert_eq!(
        shown(consumer.on(PipelineEvent::Translated(Ok("hello".to_owned())))),
        vec!["SelfMode hola -> hello", "SelfMode Speaking"]
    );
    assert!(matches!(consumer.step(), PipelineStep::Speak(text) if text == "hello"));
    assert_eq!(shown(consumer.on(PipelineEvent::Spoken(Ok(())))), vec!["SelfMode Listening"]);
    assert!(matches!(consumer.step(), PipelineStep::Wait));
}

#[test]
fn a_failure_is_told_and_the_next_utterance_awaited() {
    let mut consumer = Consumer::new(Direction::Relay);
    consumer.on(PipelineEvent::Stt(SttEvent::Final("a".to_owned())));
    assert_eq!(
        shown(consumer.on(PipelineEvent::Translated(Err("no".to_owned())))),
        vec!["Relay error no", "Relay Listening"]
    );
    assert!(matches!(consumer.step(), PipelineStep::Wait));
    consumer.on(PipelineEvent::Stt(SttEvent::Final("a".to_owned())));
    consumer.on(PipelineEvent::Translated(Ok("b".to_owned())));
    assert_eq!(
        shown(consumer.on(PipelineEvent::Spoken(Err("mute".to_owned())))),
        vec!["Relay error mute", "Relay Listening"]
    );
    assert!(matches!(consumer.step(), PipelineStep::Wait));
}

#[test]
fn the_pipeline_ends_with_the_transcription() {
    let mut consumer = Consumer::new(Direction::Relay);
    assert_eq!(shown(consumer.on(PipelineEvent::SttClosed)), vec!["Relay Listening"]);
    assert!(matches!(consumer.step(), PipelineStep::Stop));
    assert!(consumer.on(PipelineEvent::Stt(SttEvent::Final("a".to_owned()))).is_empty());
    assert!(matches!(consumer.step(), PipelineStep::Stop));
}

#[test]
fn a_pipeline_listens_by_default() {
    assert_eq!(Stage::default(), Stage::Listening);
}
