use joya::config::Direction;
use joya::devices::{
    capture, capture_source, device_matches, direction_tag, find_output, id_suffix,
    list_audio_devices, missing_default, CaptureSource, DeviceInfo,
};

fn device(name: Option<&str>, id: Option<&str>) -> DeviceInfo {
    DeviceInfo { name: name.map(str::to_owned), id: id.map(str::to_owned) }
}

#[test]
fn directions_have_short_tags() {
    assert_eq!(direction_tag(Direction::Relay), "relay");
    assert_eq!(direction_tag(Direction::SelfMode), "self");
}

#[test]
fn a_device_goes_by_its_name_and_by_its_id() {
    let scarlett = device(Some("Scarlett Solo USB"), Some("alsa_input.mic1"));
    assert!(device_matches(&scarlett, "Scarlett Solo USB"));
    assert!(device_matches(&scarlett, "alsa_input.mic1"));
    assert!(!device_matches(&scarlett, "alsa_input.mic2"));
    assert!(!device_matches(&device(None, None), ""));
    assert!(device_matches(&device(None, Some("x")), "x"));
}

#[test]
fn the_default_depends_on_the_direction() {
    assert!(matches!(
        capture_source(Some("call_remote.monitor"), Direction::Relay),
        CaptureSource::Named(name) if name == "call_remote.monitor"
    ));
    assert!(matches!(capture_source(None, Direction::Relay), CaptureSource::DefaultOutput));
    assert!(matches!(capture_source(None, Direction::SelfMode), CaptureSource::DefaultInput));
    assert_eq!(missing_default(Direction::Relay), "No default output device found");
    assert_eq!(missing_default(Direction::SelfMode), "No default input device found");
}

#[test]
fn the_id_tells_devices_of_one_name_apart() {
    let devices = vec![
        device(Some("Scarlett Solo USB"), Some("mic1")),
        device(Some("Scarlett Solo USB"), Some("mic2")),
    ];
    assert_eq!(capture(&devices, "Scarlett Solo USB"), Ok(0));
    assert_eq!(capture(&devices, "mic2"), Ok(1));
    assert_eq!(
        capture(&devices, "nope"),
        Err("Audio device 'nope' not found. Run with `list-devices` to see options \
             (match is against either the friendly name or the unique id)."
            .to_owned())
    );
}

#[test]
fn an_output_goes_by_its_name_alone() {
    let devices = vec![device(Some("joya_mic"), Some("a")), device(Some("phones"), Some("b"))];
    assert_eq!(find_output(&devices, "phones"), Ok(1));
    assert_eq!(find_output(&devices, "b"), Err("output device 'b' not found".to_owned()));
}

#[test]
fn an_id_that_repeats_the_name_is_not_logged() {
    assert_eq!(id_suffix("mic", "alsa.mic"), " [id=alsa.mic]");
    assert_eq!(id_suffix("mic", "mic"), "");
    assert_eq!(id_suffix("mic", ""), "");
}

#[test]
fn devices_are_listed_with_their_ids() {
    let inputs = vec![
        device(Some("Scarlett Solo USB"), Some("mic1")),
        device(None, Some("hidden")),
        device(Some("input_default"), Some("input_default")),
    ];
    let lines = list_audio_devices(
        &Some("input_default".to_owned()),
        &Some(inputs),
        &None,
        &None,
    );
    assert_eq!(
        lines,
        vec![
            "Input devices (default: input_default)",
            "  Scarlett Solo USB",
            "    id: mic1",
            "  input_default  <- default",
            "",
            "Output devices",
            "",
            "In `relay` mode, `capture_device: null` uses the default OUTPUT (headphone monitor).",
            "In `self` mode,   `capture_device: null` uses the default INPUT  (microphone).",
            "When several devices share a name (common on PipeWire — e.g. multiple Scarlett",
            "inputs all read \"Scarlett Solo USB\"), set `capture_device` to the `id:` line above",
            "to target the exact node.",
        ]
    );
}
