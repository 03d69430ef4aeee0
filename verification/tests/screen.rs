use joya::chat::{ChatReply, ChoiceMessage};
use joya::config::{CerebrasConfig, OverlayConfig};
use joya::http::HttpStatus;
use joya::monitor::{
    display_pause, find_display, find_output, resolve_overlay_monitor, DisplayInfo, MonitorChoice,
    NAMESPACE_DNS,
};
use joya::screen_capture::{capture, data_uri, target_output, to_data_uri, OutputGeometry};
use joya::screen_translate::{
    clamp, describe, extract_update, model_output, object_text, read_update, tool_arguments,
    tool_schema, unreadable, value_to_id, Described, NewOverlay, RawUpdate, ScreenTranslator,
};
use serde_json::Value;

fn outputs(names: &[&str]) -> Vec<OutputGeometry> {
    names
        .iter()
        .map(|name| OutputGeometry {
            name: (*name).to_owned(),
            x: 0,
            y: 0,
            width: 1920,
            height: 1080,
        })
        .collect()
}

fn uuid_of(name: &str) -> u128 {
    uuid::Uuid::new_v5(&uuid::Uuid::NAMESPACE_DNS, name.as_bytes()).as_u128()
}

fn display(uuid: Option<u128>, width: u32, height: u32) -> DisplayInfo {
    DisplayInfo { uuid, width, height }
}

fn new_overlay(text: &str, x: f32) -> NewOverlay {
    NewOverlay {
        x: x.to_bits(),
        y: 0.5f32.to_bits(),
        w: 2.0f32.to_bits(),
        h: (-1.0f32).to_bits(),
        text: text.to_owned(),
    }
}

#[test]
fn the_named_output_is_captured() {
    let all = outputs(&["DP-1", "DP-2", "DP-2"]);
    assert_eq!(target_output(&all, &Some("DP-2".to_owned())), Some(1));
    assert_eq!(target_output(&all, &None), Some(0));
    assert_eq!(capture(&all, &None), Ok(0));
    assert_eq!(capture(&all, &Some("x\"y".to_owned())), Err("output \"x\\\"y\" not found".to_owned()));
    assert_eq!(capture(&Vec::new(), &None), Err("no Wayland outputs to capture".to_owned()));
}

#[test]
fn a_screenshot_becomes_a_data_uri() {
    assert_eq!(data_uri(&[0xff, 0xd8]), "data:image/jpeg;base64,/9g=");
    let uri = to_data_uri(&[200; 2 * 3 * 3], 2, 3).unwrap();
    // The first bytes of a JPEG file.
    assert!(uri.starts_with("data:image/jpeg;base64,/9j/"));
    assert_ne!(uri, data_uri(&[200; 2 * 3 * 3]));
}

#[test]
fn an_image_that_has_no_jpeg_is_told() {
    assert_eq!(to_data_uri(&[0; 5], 2, 1), Err("JPEG encode".to_owned()));
    assert_eq!(to_data_uri(&[], 0, 1), Err("JPEG encode".to_owned()));
    assert_eq!(to_data_uri(&[], 1, 0), Err("JPEG encode".to_owned()));
    let wide = vec![0; 3 * 65536];
    assert_eq!(to_data_uri(&wide, 65536, 1), Err("JPEG encode".to_owned()));
    assert_eq!(to_data_uri(&wide, 1, 65536), Err("JPEG encode".to_owned()));
    assert!(to_data_uri(&wide, 65535, 1).is_ok());
}

#[test]
fn the_overlay_covers_the_display_it_captures() {
    assert_eq!(NAMESPACE_DNS, uuid::Uuid::NAMESPACE_DNS.as_u128());
    let config = OverlayConfig { output: Some("DP-2".to_owned()), ..OverlayConfig::default() };
    let displays = vec![
        display(Some(uuid_of("DP-1")), 1920, 1080),
        display(Some(uuid_of("DP-2")), 1920, 1080),
    ];
    assert_eq!(
        resolve_overlay_monitor(&config, &outputs(&["DP-1", "DP-2"]), &displays, Some(0)),
        Some(MonitorChoice { output: 1, display: Some(1) })
    );
    assert_eq!(resolve_overlay_monitor(&config, &outputs(&["DP-1"]), &displays, Some(0)), None);
}

#[test]
fn without_a_configured_output_the_primary_display_is_covered() {
    let config = OverlayConfig::default();
    let all = outputs(&["DP-1", "DP-2"]);
    let displays = vec![
        display(Some(uuid_of("DP-1")), 1920, 1080),
        display(Some(uuid_of("DP-2")), 1920, 1080),
    ];
    assert_eq!(
        resolve_overlay_monitor(&config, &all, &displays, Some(1)),
        Some(MonitorChoice { output: 1, display: Some(1) })
    );
    // Without a primary display, or an output for it, it is the first output.
    let first = Some(MonitorChoice { output: 0, display: Some(0) });
    assert_eq!(resolve_overlay_monitor(&config, &all, &displays, None), first);
    assert_eq!(resolve_overlay_monitor(&config, &all, &displays, Some(9)), first);
    let unknown = vec![display(Some(uuid_of("DP-1")), 1920, 1080), display(None, 1920, 1080)];
    assert_eq!(resolve_overlay_monitor(&config, &all, &unknown, Some(1)), first);
    assert_eq!(resolve_overlay_monitor(&config, &Vec::new(), &displays, Some(1)), None);
}

#[test]
fn the_primary_display_without_a_uuid_is_found_by_size() {
    let mut all = outputs(&["DP-1", "DP-2"]);
    all[1].width = 800;
    all[1].height = 600;
    let displays = vec![display(None, 1920, 1080), display(None, 800, 600)];
    assert_eq!(
        resolve_overlay_monitor(&OverlayConfig::default(), &all, &displays, Some(1)),
        Some(MonitorChoice { output: 1, display: Some(1) })
    );
    assert_eq!(find_output(&all, &displays[1]), Some(1));
    assert_eq!(find_output(&all, &display(None, 640, 480)), None);
    assert_eq!(find_output(&outputs(&["A", "B"]), &displays[0]), None);
}

#[test]
fn a_display_without_the_uuid_is_found_by_a_unique_size() {
    let twins = vec![display(None, 800, 600), display(None, 800, 600)];
    assert_eq!(find_display(&twins, 8, 800, 600), None);
    let displays = vec![display(None, 800, 600), display(Some(7), 1920, 1080)];
    assert_eq!(find_display(&displays, 7, 800, 600), Some(1));
    assert_eq!(find_display(&displays, 8, 800, 600), Some(0));
    assert_eq!(find_display(&displays, 8, 640, 480), None);
}

#[test]
fn the_overlay_waits_for_displays() {
    assert_eq!(display_pause(0, 0), Some(50));
    assert_eq!(display_pause(39, 0), Some(50));
    assert_eq!(display_pause(40, 0), None);
    assert_eq!(display_pause(0, 1), None);
}

#[test]
fn shown_overlays_are_described() {
    assert_eq!(
        describe(&Vec::new()),
        "No overlays are currently shown. Add overlays for any foreign text you see."
    );
    let shown = vec![
        Described {
            id: 12,
            text: "say \"hi\"\n".to_owned(),
            x: "0.10".to_owned(),
            y: "0.25".to_owned(),
        },
        Described { id: 3, text: "b".to_owned(), x: "0.00".to_owned(), y: "1.00".to_owned() },
    ];
    assert_eq!(
        describe(&shown),
        "Overlays currently shown (id: text @ x,y):\n#12: \"say \\\"hi\\\"\\n\" @ 0.10,0.25\n#3: \
         \"b\" @ 0.00,1.00\nAdd overlays only for foreign text not already in this list; remove \
         the ids whose text is gone."
    );
}

#[test]
fn the_model_is_forced_to_call_the_tool() {
    let translator = ScreenTranslator::new(CerebrasConfig::with_key("k".to_owned()), "English");
    assert!(translator.system_prompt.starts_with(
        "You maintain a set of live translation overlays drawn on top of the user's screen. The \
         user reads English. On each call you get a fresh screenshot"
    ));
    assert!(translator.system_prompt.ends_with("Do not write any prose."));
    let post = translator.diff("data:x", &Vec::new());
    assert_eq!(post.url, "https://api.cerebras.ai/v1/chat/completions");
    let body: Value = serde_json::from_str(&post.body).unwrap();
    assert_eq!(body["model"], "gemma-4-31b");
    assert_eq!(body["messages"][0]["content"], translator.system_prompt.as_str());
    let content = &body["messages"][1]["content"];
    assert_eq!(content[0]["type"], "image_url");
    assert_eq!(content[0]["image_url"]["url"], "data:x");
    assert_eq!(content[1]["type"], "text");
    assert_eq!(content[1]["text"], describe(&Vec::new()).as_str());
    assert_eq!(body["tools"][0], tool_schema());
    assert_eq!(body["tool_choice"]["type"], "function");
    assert_eq!(body["tool_choice"]["function"]["name"], "update_overlays");
    assert_eq!(body["prompt_cache_key"], "joya-overlay");
    assert_eq!(body["reasoning_effort"], "low");
    assert_eq!(body["stream"], false);
}

#[test]
fn the_tool_has_a_fixed_schema() {
    let schema = tool_schema();
    assert_eq!(schema["function"]["name"], "update_overlays");
    let parameters = &schema["function"]["parameters"];
    assert_eq!(parameters["required"][0], "add");
    assert_eq!(parameters["required"][1], "keep");
    let item = &parameters["properties"]["add"]["items"];
    assert_eq!(item["properties"]["h"]["type"], "number");
    assert_eq!(item["properties"]["text"]["description"], "The translated text.");
    assert_eq!(item["required"].as_array().unwrap().len(), 3);
    assert_eq!(parameters["properties"]["keep"]["items"]["type"], "integer");
}

fn said(content: Option<&str>, calls: &[&str]) -> ChatReply {
    ChatReply::Choices(vec![ChoiceMessage {
        content: content.map(str::to_owned),
        tool_calls: calls.iter().map(|call| (*call).to_owned()).collect(),
    }])
}

#[test]
fn a_tool_call_comes_before_content() {
    assert_eq!(model_output(said(Some("c"), &["t", "u"])), Ok("t".to_owned()));
    assert_eq!(model_output(said(Some("c"), &[])), Ok("c".to_owned()));
    assert_eq!(
        model_output(said(None, &[])),
        Err("model returned neither a tool call nor content".to_owned())
    );
    assert_eq!(
        model_output(ChatReply::Choices(Vec::new())),
        Err("model returned no choices".to_owned())
    );
    assert_eq!(
        model_output(ChatReply::Refused {
            status: HttpStatus { code: 500, shown: "500 Internal Server Error".to_owned() },
            detail: "d".to_owned(),
        }),
        Err("screen translation failed (500 Internal Server Error): d".to_owned())
    );
    assert_eq!(model_output(ChatReply::Failed("f".to_owned())), Err("f".to_owned()));
}

#[test]
fn fences_and_prose_are_stripped() {
    assert_eq!(
        object_text("Sure:\n```json\n{\"add\": [{}]}\n``` é"),
        Some("{\"add\": [{}]}".to_owned())
    );
    assert_eq!(object_text("} {"), None);
    assert_eq!(object_text("{"), None);
    assert_eq!(object_text("none"), None);
    assert_eq!(unreadable("x"), "could not parse model output: x");
}

#[test]
fn an_unreadable_reply_is_an_error() {
    let arguments = tool_arguments(said(None, &["x {\"keep\":[1]} y"])).unwrap();
    assert_eq!(arguments.raw, "x {\"keep\":[1]} y");
    assert_eq!(arguments.object, "{\"keep\":[1]}");
    assert_eq!(
        tool_arguments(said(Some("}{"), &[])).unwrap_err(),
        "could not parse model output: }{"
    );
    assert_eq!(
        tool_arguments(said(None, &[])).unwrap_err(),
        "model returned neither a tool call nor content"
    );
    assert_eq!(
        tool_arguments(ChatReply::Choices(Vec::new())).unwrap_err(),
        "model returned no choices"
    );
    assert_eq!(read_update("raw", None).unwrap_err(), "could not parse model output: raw");
    let empty = read_update("{}", Some(RawUpdate { add: Vec::new(), keep: Vec::new() })).unwrap();
    assert!(empty.add.is_empty() && empty.keep.is_empty());
    let update = read_update(
        "raw",
        Some(RawUpdate { add: vec![new_overlay("a", 2.0)], keep: vec![Value::from("3")] }),
    )
    .unwrap();
    assert_eq!(f32::from_bits(update.add[0].x), 1.0);
    assert_eq!(update.keep, vec![3]);
}

#[test]
fn ids_come_as_numbers_or_texts() {
    assert_eq!(value_to_id(&Value::from(5u64)), Some(5));
    assert_eq!(value_to_id(&Value::from(" 17 ")), Some(17));
    assert_eq!(value_to_id(&Value::from("x")), None);
    assert_eq!(value_to_id(&Value::from(-1i64)), None);
    assert_eq!(value_to_id(&Value::from(1.5f64)), None);
    assert_eq!(value_to_id(&Value::Null), None);
}

#[test]
fn new_overlays_are_kept_on_the_screen() {
    let kept = clamp(new_overlay("a", 1.5));
    assert_eq!(f32::from_bits(kept.x), 1.0);
    assert_eq!(f32::from_bits(kept.y), 0.5);
    assert_eq!(f32::from_bits(kept.w), 1.0);
    assert_eq!(f32::from_bits(kept.h), 0.0);
}

#[test]
fn an_update_is_cleaned_up() {
    let update = extract_update(RawUpdate {
        add: vec![new_overlay("a", -0.5), new_overlay(" \t", 0.1), new_overlay("b", 0.1)],
        keep: vec![Value::from(1u64), Value::Null, Value::from("2")],
    });
    assert_eq!(update.keep, vec![1, 2]);
    let texts: Vec<&str> = update.add.iter().map(|new| new.text.as_str()).collect();
    assert_eq!(texts, vec!["a", "b"]);
    assert_eq!(f32::from_bits(update.add[0].x), 0.0);
}
