use joya::config::MistralConfig;
use joya::http::HttpStatus;
use joya::tts::{
    decode_body, speech_reply, starts_with_json, SpeechStep, Tts, TtsError, VoiceChoice,
    VoicesReply,
};
use joya::wav::{decode_wav, Samples, TtsAudio, WavError};

fn chunk(id: &[u8], body: &[u8]) -> Vec<u8> {
    let mut bytes = id.to_vec();
    bytes.extend_from_slice(&(body.len() as u32).to_le_bytes());
    bytes.extend_from_slice(body);
    if body.len() % 2 == 1 {
        bytes.push(0);
    }
    bytes
}

fn fmt(tag: u16, channels: u16, rate: u32, bits: u16) -> Vec<u8> {
    let mut body = tag.to_le_bytes().to_vec();
    body.extend_from_slice(&channels.to_le_bytes());
    body.extend_from_slice(&rate.to_le_bytes());
    body.extend_from_slice(&[0; 6]);
    body.extend_from_slice(&bits.to_le_bytes());
    chunk(b"fmt ", &body)
}

fn wav(chunks: &[Vec<u8>]) -> Vec<u8> {
    let mut bytes = b"RIFF\0\0\0\0WAVE".to_vec();
    for chunk in chunks {
        bytes.extend_from_slice(chunk);
    }
    bytes
}

fn pcm(audio: TtsAudio) -> (Vec<i16>, u16, u32) {
    match audio.samples {
        Samples::Pcm16(samples) => (samples, audio.channels, audio.sample_rate),
        other => panic!("{other:?}"),
    }
}

fn ok() -> HttpStatus {
    HttpStatus { code: 200, shown: "200 OK".to_owned() }
}

fn voices(body: &str) -> VoicesReply {
    VoicesReply::Reply { status: ok(), body: body.as_bytes().to_vec() }
}

fn tts(voice: &str, by_language: &[(&str, &str)]) -> Tts {
    let mut config = MistralConfig::with_key("k".to_owned());
    config.tts_voice = voice.to_owned();
    for (language, voice) in by_language {
        config.tts_voices.push(((*language).to_owned(), (*voice).to_owned()));
    }
    Tts::new(config, "Spanish".to_owned())
}

#[test]
fn pcm_is_decoded() {
    let file = wav(&[
        fmt(1, 2, 48000, 16),
        chunk(b"LIST", &[1, 2, 3]),
        chunk(b"data", &[1, 0, 0xff, 0xff, 9]),
    ]);
    assert_eq!(pcm(decode_wav(&file).unwrap()), (vec![1, -1], 2, 48000));
}

#[test]
fn floats_are_decoded() {
    let mut body = 0.5f32.to_le_bytes().to_vec();
    body.extend_from_slice(&(-1.0f32).to_le_bytes());
    let audio = decode_wav(&wav(&[fmt(3, 1, 24000, 32), chunk(b"data", &body)])).unwrap();
    match audio.samples {
        Samples::Float32(samples) => {
            let samples: Vec<f32> = samples.into_iter().map(f32::from_bits).collect();
            assert_eq!(samples, vec![0.5, -1.0]);
        }
        other => panic!("{other:?}"),
    }
}

#[test]
fn a_file_without_a_format_is_24_khz_mono() {
    let file = wav(&[chunk(b"data", &[2, 0])]);
    assert_eq!(pcm(decode_wav(&file).unwrap()), (vec![2], 1, 24000));
    let file = wav(&[fmt(1, 0, 8000, 16), chunk(b"data", &[2, 0])]);
    assert_eq!(pcm(decode_wav(&file).unwrap()), (vec![2], 1, 8000));
}

#[test]
fn a_chunk_that_is_cut_short_counts_as_far_as_it_goes() {
    let mut file = wav(&[fmt(1, 1, 8000, 16)]);
    file.extend_from_slice(b"data\xff\xff\xff\xff\x05\x00\x06");
    assert_eq!(pcm(decode_wav(&file).unwrap()), (vec![5], 1, 8000));
}

#[test]
fn what_cannot_be_played_is_told() {
    assert_eq!(decode_wav(b"RIFF").unwrap_err(), WavError::NotWav);
    assert_eq!(decode_wav(b"RIFX\0\0\0\0WAVE").unwrap_err(), WavError::NotWav);
    assert_eq!(decode_wav(&wav(&[fmt(1, 1, 8000, 16)])).unwrap_err(), WavError::MissingData);
    let error = decode_wav(&wav(&[fmt(1, 1, 8000, 24), chunk(b"data", &[])])).unwrap_err();
    assert_eq!(error, WavError::Unsupported { format_tag: 1, bits: 24 });
    assert_eq!(TtsError::BadWav(error).message(), "Unsupported WAV format tag 1 / 24 bits");
    assert_eq!(
        TtsError::BadWav(WavError::NotWav).message(),
        "TTS response is not a WAV file"
    );
    assert_eq!(TtsError::BadWav(WavError::MissingData).message(), "WAV missing data chunk");
}

#[test]
fn json_is_recognized_by_its_brace() {
    assert!(starts_with_json(b" \n\t{"));
    assert!(!starts_with_json(b"RIFF{"));
    assert!(!starts_with_json(b"\x0b{"));
    assert!(!starts_with_json(b""));
}

#[test]
fn audio_comes_raw_or_in_json() {
    let file = wav(&[chunk(b"data", &[2, 0])]);
    assert_eq!(pcm(decode_body("audio/wav", &file).unwrap()), (vec![2], 1, 24000));
    let reply = "{\"audio_data\":\"UklGRgAAAABXQVZFZGF0YQIAAAACAA==\"}";
    assert_eq!(pcm(decode_body("", reply.as_bytes()).unwrap()), (vec![2], 1, 24000));
    assert_eq!(
        pcm(decode_body("application/json", reply.as_bytes()).unwrap()),
        (vec![2], 1, 24000)
    );
}

#[test]
fn a_bad_reply_is_told() {
    assert!(matches!(decode_body("application/json", b"RIFF"), Err(TtsError::BadJson(_))));
    let missing = decode_body("", b"{}").unwrap_err();
    assert!(matches!(missing, TtsError::MissingAudio));
    assert_eq!(missing.message(), "TTS JSON response missing audio_data");
    assert!(matches!(decode_body("", b"{\"audio_data\":5}"), Err(TtsError::MissingAudio)));
    let base64 = decode_body("", b"{\"audio_data\":\"!\"}").unwrap_err();
    assert!(matches!(base64, TtsError::BadBase64(_)));
    assert!(!base64.message().is_empty());
    assert!(matches!(decode_body("audio/wav", b"x"), Err(TtsError::BadWav(WavError::NotWav))));
}

#[test]
fn a_refused_request_is_told_with_its_detail() {
    let status = HttpStatus { code: 422, shown: "422 Unprocessable Entity".to_owned() };
    let error = speech_reply(status, "", b"", "no voice").unwrap_err();
    assert_eq!(error.message(), "Voxtral TTS failed (422 Unprocessable Entity): no voice");
    let file = wav(&[chunk(b"data", &[2, 0])]);
    assert!(speech_reply(ok(), "audio/wav", &file, "").is_ok());
}

fn used(choice: VoiceChoice) -> Option<String> {
    match choice {
        VoiceChoice::Use(voice) => Some(voice),
        _ => None,
    }
}

#[test]
fn the_voice_of_the_language_comes_first() {
    let own = tts(" default ", &[("French", "f"), ("Spanish", " s "), ("Spanish", "t")]);
    assert_eq!(used(own.resolve_voice()).as_deref(), Some("s"));
    let blank = tts(" default ", &[("Spanish", "  ")]);
    assert_eq!(used(blank.resolve_voice()).as_deref(), Some("default"));
    assert!(matches!(tts("", &[]).resolve_voice(), VoiceChoice::Discover));
}

#[test]
fn a_request_names_model_text_and_voice() {
    match tts("v", &[]).synthesize("hola \"tú\"") {
        SpeechStep::Post { url, body } => {
            assert_eq!(url, "https://api.mistral.ai/v1/audio/speech");
            let body: serde_json::Value = serde_json::from_str(&body).unwrap();
            assert_eq!(body["model"], "voxtral-mini-tts-latest");
            assert_eq!(body["input"], "hola \"tú\"");
            assert_eq!(body["response_format"], "wav");
            assert_eq!(body["voice"], "v");
            assert_eq!(body.as_object().unwrap().len(), 4);
        }
        other => panic!("{other:?}"),
    }
}

#[test]
fn a_voice_is_discovered_once() {
    let mut tts = tts("", &[]);
    match tts.synthesize("x") {
        SpeechStep::Discover { url } => assert_eq!(url, "https://api.mistral.ai/v1/audio/voices"),
        other => panic!("{other:?}"),
    }
    let listed = voices("{\"items\":[{\"id\":\"first\"},{\"id\":\"second\"}]}");
    match tts.synthesize_discovered("x", &listed) {
        SpeechStep::Post { body, .. } => assert!(body.contains("\"voice\":\"first\"")),
        other => panic!("{other:?}"),
    }
    assert_eq!(used(tts.resolve_voice()).as_deref(), Some("first"));
    assert!(matches!(tts.synthesize("y"), SpeechStep::Post { .. }));
}

#[test]
fn without_a_voice_there_is_no_speech() {
    let message = "No TTS voice configured and none could be auto-discovered. Set \
                   `mistral.tts_voice`, or `mistral.tts_voices.Spanish`, to a voice id (list \
                   them with GET `https://api.mistral.ai/v1/audio/voices`).";
    // What is no list is asked for again.
    for reply in [
        VoicesReply::Unreachable,
        VoicesReply::Reply {
            status: HttpStatus { code: 500, shown: String::new() },
            body: Vec::new(),
        },
        voices("<html>"),
    ] {
        let mut tts = tts("", &[]);
        match tts.synthesize_discovered("x", &reply) {
            SpeechStep::Fail(reason) => assert_eq!(reason, message),
            other => panic!("{other:?}"),
        }
        assert!(matches!(tts.resolve_voice(), VoiceChoice::Discover));
    }
    // A list without voices is remembered.
    let mut tts = tts("", &[]);
    match tts.synthesize_discovered("x", &voices("{\"items\":[]}")) {
        SpeechStep::Fail(reason) => assert_eq!(reason, message),
        other => panic!("{other:?}"),
    }
    assert!(matches!(tts.resolve_voice(), VoiceChoice::NoVoice));
    assert!(matches!(tts.synthesize("x"), SpeechStep::Fail(_)));
}
