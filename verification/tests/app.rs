use joya::app::{
    build_pipeline, DirectionPalette, DirectionState, JoyaApp, Line, Startup, LOOPS,
};
use joya::config::{Config, Direction};
use joya::pipeline::{Stage, UiEvent};
use joya::playback::SinkRole;

fn config(relay: Option<&str>, own: bool) -> Config {
    let mut config = Config::with_keys(String::new(), String::new());
    config.audio.relay.capture_device = relay.map(str::to_owned);
    config.audio.self_mode.enabled = own;
    config.languages.source = Some("Spanish".to_owned());
    config
}

fn lines(app: &JoyaApp) -> Vec<String> {
    app.render()
        .lines
        .into_iter()
        .map(|line| match line {
            Line::Entry { label, source, translated, .. } => {
                format!("{label} | {source} | {translated}")
            }
            Line::Partial { label, text, .. } => format!("{label} ... {text}"),
            Line::Error(message) => message,
        })
        .collect()
}

#[test]
fn the_directions_mirror_each_other() {
    let config = config(Some("call_remote"), true);
    let relay = build_pipeline(&config, Direction::Relay).unwrap().unwrap();
    let own = build_pipeline(&config, Direction::SelfMode).unwrap().unwrap();
    assert_eq!(own.languages.source.as_deref(), Some("Spanish"));
    assert_eq!(own.languages.target, "English");
    assert_eq!(relay.languages.source.as_deref(), Some("English"));
    assert_eq!(relay.languages.target, "Spanish");
    assert_eq!(relay.capture_device.as_deref(), Some("call_remote"));
    assert_eq!(own.capture_device, None);
    assert_eq!(relay.sinks[0].role, SinkRole::Relay);
    assert_eq!(own.sinks[0].role, SinkRole::SelfMonitor);
}

#[test]
fn relay_is_refused_without_a_device() {
    let config = config(None, false);
    let message = build_pipeline(&config, Direction::Relay).unwrap_err();
    assert_eq!(
        message,
        "relay.capture_device is not set. With no capture device, relay captures the default \
         output's monitor, which also picks up Joya's own TTS and re-translates it in a loop. Run \
         `scripts/setup-virtual-mic.sh` to create the isolation sink, then set \
         `relay.capture_device: call_remote.monitor` so relay hears only the other party."
    );
    assert_eq!(message, LOOPS);
}

#[test]
fn a_disabled_direction_is_skipped() {
    let mut config = config(None, false);
    config.audio.relay.enabled = false;
    assert!(build_pipeline(&config, Direction::Relay).unwrap().is_none());
    assert!(build_pipeline(&config, Direction::SelfMode).unwrap().is_none());
    let mut startup = Startup::new();
    assert!(startup.next_direction(&config).is_none());
    let (active, told) = startup.finish();
    assert!(active.is_empty() && told.is_empty());
}

#[test]
fn directions_start_in_order() {
    let config = config(Some("call_remote"), true);
    let mut startup = Startup::new();
    let (first, _) = startup.next_direction(&config).unwrap();
    assert_eq!(first, Direction::Relay);
    startup.captured(first, Ok(()));
    let (second, _) = startup.next_direction(&config).unwrap();
    assert_eq!(second, Direction::SelfMode);
    startup.captured(second, Ok(()));
    assert!(startup.next_direction(&config).is_none());
    let (active, told) = startup.finish();
    assert_eq!(active, vec![Direction::Relay, Direction::SelfMode]);
    assert!(told.is_empty());
}

#[test]
fn a_direction_that_does_not_start_is_shown_with_the_reason() {
    let config = config(None, true);
    let mut startup = Startup::new();
    let (first, _) = startup.next_direction(&config).unwrap();
    assert_eq!(first, Direction::SelfMode);
    startup.captured(first, Err("busy".to_owned()));
    let (active, told) = startup.finish();
    assert!(active.is_empty());
    let mut app = JoyaApp::new(config, active);
    for event in told {
        app.handle_event(event);
    }
    assert_eq!(lines(&app), vec![format!("relay: {LOOPS}"), "self: capture: busy".to_owned()]);
    assert!(app.render().pills.is_empty());
}

#[test]
fn a_conversation_is_shown_as_it_goes() {
    let direction = Direction::Relay;
    let mut app = JoyaApp::new(config(Some("x"), true), vec![direction, Direction::SelfMode]);
    app.handle_event(UiEvent::Stage { direction, stage: Stage::Transcribing });
    app.handle_event(UiEvent::SourcePartial { direction, text: "hel".to_owned() });
    assert_eq!(lines(&app), vec!["relay ... hel"]);
    app.handle_event(UiEvent::SourceFinal { direction, text: "hello".to_owned() });
    app.handle_event(UiEvent::Error { direction, message: "slow".to_owned() });
    assert_eq!(lines(&app), vec!["relay ... hello", "relay: slow"]);
    app.handle_event(UiEvent::Error {
        direction: Direction::SelfMode,
        message: "mute".to_owned(),
    });
    app.handle_event(UiEvent::Translation {
        direction,
        source: "hello".to_owned(),
        translated: "hola".to_owned(),
    });
    assert_eq!(lines(&app), vec!["relay | hello | hola", "self: mute"]);
    let screen = app.render();
    assert_eq!(screen.languages, "Spanish → English");
    assert_eq!(screen.model, "· gemma-4-31b");
    let pills: Vec<(&str, &str)> =
        screen.pills.iter().map(|pill| (pill.label, pill.stage.as_str())).collect();
    assert_eq!(pills, vec![("relay", "· transcribing"), ("self", "· listening")]);
}

#[test]
fn a_direction_that_does_not_run_has_no_status() {
    let mut config = config(Some("x"), false);
    config.languages.source = None;
    let mut app = JoyaApp::new(config, vec![Direction::Relay]);
    let direction = Direction::SelfMode;
    app.handle_event(UiEvent::SourcePartial { direction, text: "x".to_owned() });
    app.handle_event(UiEvent::Stage { direction, stage: Stage::Speaking });
    assert!(lines(&app).is_empty());
    assert_eq!(app.render().pills.len(), 1);
    assert_eq!(app.render().languages, "auto → English");
}

#[test]
fn stages_and_directions_have_names() {
    for (stage, label) in [
        (Stage::Listening, "listening"),
        (Stage::Transcribing, "transcribing"),
        (Stage::Translating, "translating"),
        (Stage::Speaking, "speaking"),
    ] {
        let state = DirectionState { stage, ..DirectionState::default() };
        assert_eq!(state.stage_label(), label);
    }
    assert_eq!(DirectionPalette::label(Direction::Relay), "relay");
    assert_eq!(DirectionPalette::label(Direction::SelfMode), "self");
    assert_eq!(
        DirectionPalette::for_direction(Direction::Relay),
        DirectionPalette { accent: 0xFFD700FF, fill: 0xFFD70030 }
    );
    assert_eq!(
        DirectionPalette::for_direction(Direction::SelfMode),
        DirectionPalette { accent: 0x2DD4BFFF, fill: 0x2DD4BF30 }
    );
}
