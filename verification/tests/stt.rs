use joya::audio::Segment;
use joya::stt::{
    after_dropped, after_utterance, append_message, handle_event, handle_payload, is_error_event,
    realtime_url, session_update, Incoming, Outcome, RunStep, SessionEvent, SessionStep, SttEvent,
    Utterance, END, FLUSH,
};

fn partial(event: Option<SttEvent>) -> Option<String> {
    match event {
        Some(SttEvent::Partial(text)) => Some(text),
        _ => None,
    }
}

fn finished(event: Option<SttEvent>) -> Option<String> {
    match event {
        Some(SttEvent::Final(text)) => Some(text),
        _ => None,
    }
}

fn text(raw: &str) -> SessionEvent {
    SessionEvent::Incoming(Incoming::Text(raw.to_owned()))
}

fn delta(more: &str) -> SessionEvent {
    text(&format!("{{\"type\":\"transcription.text.delta\",\"text\":\"{more}\"}}"))
}

fn sends(step: SessionStep) -> Vec<String> {
    match step {
        SessionStep::Send(messages) => messages,
        other => panic!("{other:?}"),
    }
}

fn streaming() -> Utterance {
    let mut utterance = Utterance::new();
    assert!(utterance.on(SessionEvent::Segment(Segment::Speech(vec![1]))).is_none());
    assert!(utterance.on(SessionEvent::Sent).is_none());
    utterance
}

#[test]
fn the_realtime_address_has_the_scheme_of_a_socket() {
    assert_eq!(
        realtime_url("https://api.mistral.ai/v1/", "m"),
        "wss://api.mistral.ai/v1/audio/transcriptions/realtime?model=m"
    );
    assert_eq!(realtime_url("http://x", "m"), "ws://x/audio/transcriptions/realtime?model=m");
    assert_eq!(realtime_url("ws://x", "m"), "ws://x/audio/transcriptions/realtime?model=m");
}

#[test]
fn frames_are_sent_as_base64_pcm() {
    assert_eq!(
        append_message(&vec![1, -1]),
        "{\"audio\":\"AQD//w==\",\"type\":\"input_audio.append\"}"
    );
}

#[test]
fn sessions_are_configured_for_16_khz() {
    let message: serde_json::Value = serde_json::from_str(&session_update(480)).unwrap();
    assert_eq!(message["type"], "session.update");
    assert_eq!(message["session"]["audio_format"]["encoding"], "pcm_s16le");
    assert_eq!(message["session"]["audio_format"]["sample_rate"], 16000);
    assert_eq!(message["session"]["target_streaming_delay_ms"], 480);
}

#[test]
fn errors_are_recognized() {
    assert!(is_error_event("{\"type\":\"error\"}"));
    assert!(!is_error_event("{\"type\":\"ok\"}"));
    assert!(!is_error_event("error"));
    assert!(!is_error_event("{\"type\":5}"));
}

#[test]
fn messages_make_a_transcript() {
    let mut full = String::new();
    let (event, done) =
        handle_event("{\"type\":\"transcription.text.delta\",\"text\":\"hola \"}", &mut full);
    assert_eq!(partial(event).as_deref(), Some("hola "));
    assert!(!done);
    let (event, done) =
        handle_event("{\"type\":\"transcription.text.delta\",\"text\":\"mundo\"}", &mut full);
    assert_eq!(partial(event).as_deref(), Some("hola mundo"));
    assert!(!done);
    let (event, done) = handle_event("not json", &mut full);
    assert!(event.is_none() && !done);
    let (event, done) = handle_event("{\"type\":\"transcription.done\"}", &mut full);
    assert_eq!(finished(event).as_deref(), Some("hola mundo"));
    assert!(done);
    assert_eq!(full, "");
}

#[test]
fn the_transcript_of_the_provider_wins() {
    let mut full = "partial".to_owned();
    let (event, done) = handle_payload(Some("transcription.done"), Some("whole"), &mut full);
    assert_eq!(finished(event).as_deref(), Some("whole"));
    assert!(done);
    assert_eq!(full, "partial");
    let (event, done) = handle_payload(Some("transcription.done"), Some(""), &mut full);
    assert_eq!(finished(event).as_deref(), Some("partial"));
    assert!(done);
}

#[test]
fn a_blank_transcript_is_not_told() {
    let mut full = " \n".to_owned();
    let (event, done) = handle_payload(Some("transcription.done"), None, &mut full);
    assert!(event.is_none() && done);
    let (event, done) = handle_payload(Some("error"), None, &mut full);
    assert!(event.is_none() && done);
    let (event, done) = handle_payload(Some("session.created"), None, &mut full);
    assert!(event.is_none() && !done);
    let (event, done) = handle_payload(None, Some("x"), &mut full);
    assert!(event.is_none() && !done);
}

#[test]
fn an_utterance_goes_from_speech_to_transcript() {
    let mut utterance = Utterance::new();
    assert!(matches!(utterance.step(), SessionStep::Wait { segments: true }));
    utterance.on(SessionEvent::Segment(Segment::EndOfUtterance));
    assert!(matches!(utterance.step(), SessionStep::Wait { segments: true }));
    utterance.on(SessionEvent::Segment(Segment::Speech(vec![1])));
    assert_eq!(sends(utterance.step()), vec![append_message(&vec![1])]);
    utterance.on(SessionEvent::Sent);
    utterance.on(SessionEvent::Segment(Segment::Speech(vec![2])));
    assert_eq!(sends(utterance.step()), vec![append_message(&vec![2])]);
    utterance.on(SessionEvent::Sent);
    assert_eq!(partial(utterance.on(delta("ho"))).as_deref(), Some("ho"));
    utterance.on(SessionEvent::Segment(Segment::EndOfUtterance));
    assert_eq!(sends(utterance.step()), vec![FLUSH.to_owned(), END.to_owned()]);
    utterance.on(SessionEvent::Sent);
    assert!(matches!(utterance.step(), SessionStep::Wait { segments: false }));
    assert_eq!(partial(utterance.on(delta("la"))).as_deref(), Some("hola"));
    let told = utterance.on(text("{\"type\":\"transcription.done\",\"text\":\"Hola.\"}"));
    assert_eq!(finished(told).as_deref(), Some("Hola."));
    assert!(matches!(utterance.step(), SessionStep::Finish(Outcome::Completed)));
    // What is over stays over.
    assert!(utterance.on(delta("x")).is_none());
    assert!(matches!(utterance.step(), SessionStep::Finish(Outcome::Completed)));
}

#[test]
fn the_first_frame_survives_a_dead_session() {
    let mut utterance = Utterance::new();
    utterance.on(SessionEvent::Segment(Segment::Speech(vec![7])));
    let first = sends(utterance.step());
    utterance.on(SessionEvent::SendFailed);
    assert!(matches!(utterance.step(), SessionStep::Reopen));
    utterance.on(SessionEvent::Reopened);
    assert_eq!(sends(utterance.step()), first);
    utterance.on(SessionEvent::SendFailed);
    assert!(matches!(utterance.step(), SessionStep::Finish(Outcome::Failed)));
}

#[test]
fn an_idle_session_is_replaced() {
    for event in [
        SessionEvent::Incoming(Incoming::Closed),
        SessionEvent::Incoming(Incoming::Failed),
        text("{\"type\":\"error\"}"),
        SessionEvent::Incoming(Incoming::Binary(b"{\"type\":\"error\"}".to_vec())),
    ] {
        let mut utterance = Utterance::new();
        assert!(utterance.on(event).is_none());
        assert!(matches!(utterance.step(), SessionStep::Reopen));
        utterance.on(SessionEvent::Reopened);
        assert!(matches!(utterance.step(), SessionStep::Wait { segments: true }));
    }
    for event in [
        text("{\"type\":\"session.created\"}"),
        SessionEvent::Incoming(Incoming::Binary(vec![0xff, 0xfe])),
        SessionEvent::Incoming(Incoming::Other),
    ] {
        let mut utterance = Utterance::new();
        utterance.on(event);
        assert!(matches!(utterance.step(), SessionStep::Wait { segments: true }));
    }
    let mut utterance = Utterance::new();
    utterance.on(SessionEvent::Incoming(Incoming::Closed));
    utterance.on(SessionEvent::ReopenFailed);
    assert!(matches!(utterance.step(), SessionStep::Finish(Outcome::Failed)));
}

#[test]
fn binary_messages_are_read_as_text() {
    let mut utterance = streaming();
    let raw = "{\"type\":\"transcription.text.delta\",\"text\":\"año\"}";
    let told = utterance.on(SessionEvent::Incoming(Incoming::Binary(raw.as_bytes().to_vec())));
    assert_eq!(partial(told).as_deref(), Some("año"));
    let told = utterance.on(SessionEvent::Incoming(Incoming::Binary(vec![0x80])));
    assert!(told.is_none());
}

#[test]
fn a_session_that_closes_leaves_what_it_said() {
    let mut utterance = streaming();
    utterance.on(delta("adiós"));
    let told = utterance.on(SessionEvent::Incoming(Incoming::Closed));
    assert_eq!(finished(told).as_deref(), Some("adiós"));
    assert!(matches!(utterance.step(), SessionStep::Finish(Outcome::Completed)));
    let mut utterance = streaming();
    assert!(utterance.on(SessionEvent::Incoming(Incoming::Closed)).is_none());
    assert!(matches!(utterance.step(), SessionStep::Finish(Outcome::Completed)));
}

#[test]
fn a_session_that_fails_ends_the_utterance() {
    let mut utterance = streaming();
    assert!(utterance.on(SessionEvent::Incoming(Incoming::Failed)).is_none());
    assert!(matches!(utterance.step(), SessionStep::Finish(Outcome::Failed)));
    let mut utterance = streaming();
    utterance.on(SessionEvent::Segment(Segment::Speech(vec![2])));
    utterance.on(SessionEvent::SendFailed);
    assert!(matches!(utterance.step(), SessionStep::Finish(Outcome::Failed)));
}

#[test]
fn segments_that_end_flush_or_stop() {
    let mut utterance = streaming();
    utterance.on(SessionEvent::SegmentsClosed);
    assert_eq!(sends(utterance.step()), vec![FLUSH.to_owned(), END.to_owned()]);
    let mut utterance = Utterance::new();
    utterance.on(SessionEvent::SegmentsClosed);
    assert!(matches!(utterance.step(), SessionStep::Finish(Outcome::SegmentsClosed)));
}

#[test]
fn a_failed_utterance_is_dropped_up_to_its_end() {
    assert_eq!(after_utterance(Outcome::Completed), RunStep::Transcribe);
    assert_eq!(after_utterance(Outcome::Failed), RunStep::Resync);
    assert_eq!(after_utterance(Outcome::SegmentsClosed), RunStep::Stop);
    assert_eq!(after_dropped(&Some(Segment::Speech(vec![]))), RunStep::Resync);
    assert_eq!(after_dropped(&Some(Segment::EndOfUtterance)), RunStep::Transcribe);
    assert_eq!(after_dropped(&None), RunStep::Stop);
}
