use joya::config::OverlayConfig;
use joya::overlay_board::{apply_update, BoardChange, LiveOverlay, MAX_OVERLAYS};
use joya::screen_overlay::{
    width_of, BoxWidth, LoopEvent, LoopStep, OverlayEvent, OverlayLoop, ScreenOverlay, MIN_WIDTH,
    NO_WIDTH,
};
use joya::screen_translate::{NewOverlay, Overlay, OverlayUpdate};

fn new_text(text: &str) -> NewOverlay {
    NewOverlay {
        x: 0.25f32.to_bits(),
        y: 0.5f32.to_bits(),
        w: 0.125f32.to_bits(),
        h: 0.1f32.to_bits(),
        text: text.to_owned(),
    }
}

fn update(add: &[&str], keep: &[u64]) -> OverlayUpdate {
    OverlayUpdate { add: add.iter().map(|text| new_text(text)).collect(), keep: keep.to_vec() }
}

fn board(live: &[LiveOverlay]) -> Vec<(u64, &str, u8)> {
    live.iter().map(|t| (t.overlay.id, t.overlay.text.as_str(), t.misses)).collect()
}

#[test]
fn new_overlays_get_fresh_ids() {
    let mut live = Vec::new();
    let mut next_id = 1;
    apply_update(&mut live, &mut next_id, update(&["a", "b"], &[]));
    assert_eq!(board(&live), vec![(1, "a", 0), (2, "b", 0)]);
    assert_eq!(next_id, 3);
    apply_update(&mut live, &mut next_id, update(&["c"], &[1, 2]));
    assert_eq!(board(&live), vec![(1, "a", 0), (2, "b", 0), (3, "c", 0)]);
    assert_eq!(f32::from_bits(live[0].overlay.x), 0.25);
    assert_eq!(f32::from_bits(live[0].overlay.w), 0.125);
}

#[test]
fn one_miss_is_tolerated_and_two_are_not() {
    let mut live = Vec::new();
    let mut next_id = 1;
    apply_update(&mut live, &mut next_id, update(&["a", "b"], &[]));
    apply_update(&mut live, &mut next_id, update(&[], &[2]));
    assert_eq!(board(&live), vec![(1, "a", 1), (2, "b", 0)]);
    apply_update(&mut live, &mut next_id, update(&[], &[1]));
    assert_eq!(board(&live), vec![(1, "a", 0), (2, "b", 1)]);
    apply_update(&mut live, &mut next_id, update(&[], &[1, 99]));
    assert_eq!(board(&live), vec![(1, "a", 0)]);
}

#[test]
fn a_change_of_scene_clears_at_once() {
    let mut live = Vec::new();
    let mut next_id = 1;
    apply_update(&mut live, &mut next_id, update(&["a", "b"], &[]));
    let change = apply_update(&mut live, &mut next_id, update(&["c"], &[]));
    assert_eq!(change, BoardChange { shown: 1, added: 1, removed: 2 });
    assert_eq!(board(&live), vec![(3, "c", 0)]);
}

#[test]
fn the_same_text_is_shown_once() {
    let mut live = Vec::new();
    let mut next_id = 1;
    apply_update(&mut live, &mut next_id, update(&["Straße", " STRASSE", "STRAßE "], &[]));
    assert_eq!(board(&live), vec![(1, "Straße", 0), (2, " STRASSE", 0)]);
    apply_update(&mut live, &mut next_id, update(&["straße"], &[1, 2]));
    assert_eq!(live.len(), 2);
    assert_eq!(next_id, 3);
}

#[test]
fn the_newest_overlays_are_kept() {
    let texts: Vec<String> = (0..MAX_OVERLAYS + 3).map(|n| format!("t{n}")).collect();
    let texts: Vec<&str> = texts.iter().map(String::as_str).collect();
    let mut live = Vec::new();
    let mut next_id = 1;
    let change = apply_update(&mut live, &mut next_id, update(&texts, &[]));
    assert_eq!(change, BoardChange { shown: 100, added: 103, removed: 0 });
    assert_eq!(next_id, 104);
    assert_eq!(live.len(), 100);
    assert_eq!(live[0].overlay.id, 4);
    assert_eq!(live[99].overlay.id, 103);
}

fn looking(interval_ms: u64) -> OverlayLoop {
    let mut looking = OverlayLoop::new(&OverlayConfig { interval_ms, ..OverlayConfig::default() });
    assert!(matches!(looking.step(), LoopStep::Open));
    looking.on(LoopEvent::Opened(Ok(())));
    looking
}

fn captured(looking: &mut OverlayLoop, outcome: Result<(), String>) {
    assert!(matches!(looking.step(), LoopStep::Tell(OverlayEvent::Hide)));
    looking.on(LoopEvent::Done);
    assert!(matches!(looking.step(), LoopStep::AwaitHidden { timeout_ms: 250 }));
    looking.on(LoopEvent::Done);
    assert!(matches!(looking.step(), LoopStep::Capture));
    looking.on(LoopEvent::Captured(outcome));
    assert!(matches!(looking.step(), LoopStep::Tell(OverlayEvent::Show)));
    looking.on(LoopEvent::Done);
}

fn diffed(looking: &mut OverlayLoop) -> Vec<u64> {
    match looking.step() {
        LoopStep::Diff { current } => current.into_iter().map(|overlay| overlay.id).collect(),
        other => panic!("{other:?}"),
    }
}

#[test]
fn a_look_hides_captures_shows_and_updates() {
    let mut looking = looking(1000);
    captured(&mut looking, Ok(()));
    assert!(diffed(&mut looking).is_empty());
    assert!(looking.has_ids_for(2));
    assert_eq!(
        looking.on(LoopEvent::Diffed(Ok(update(&["a", "b"], &[])))),
        Some(BoardChange { shown: 2, added: 2, removed: 0 })
    );
    match looking.step() {
        LoopStep::Tell(OverlayEvent::Overlays(shown)) => {
            let texts: Vec<&str> = shown.iter().map(|overlay| overlay.text.as_str()).collect();
            assert_eq!(texts, vec!["a", "b"]);
        }
        other => panic!("{other:?}"),
    }
    assert_eq!(looking.on(LoopEvent::Done), None);
    assert!(matches!(looking.step(), LoopStep::Sleep { ms: 1000 }));
    looking.on(LoopEvent::Done);
    captured(&mut looking, Ok(()));
    assert_eq!(diffed(&mut looking), vec![1, 2]);
}

#[test]
fn a_look_that_fails_keeps_the_overlays() {
    let mut looking = looking(10);
    captured(&mut looking, Ok(()));
    looking.on(LoopEvent::Diffed(Ok(update(&["a"], &[]))));
    looking.on(LoopEvent::Done);
    assert!(matches!(looking.step(), LoopStep::Sleep { ms: 250 }));
    looking.on(LoopEvent::Done);
    captured(&mut looking, Err("no frame".to_owned()));
    assert!(matches!(
        looking.step(),
        LoopStep::Tell(OverlayEvent::Error(message)) if message == "no frame"
    ));
    looking.on(LoopEvent::Done);
    looking.on(LoopEvent::Done);
    captured(&mut looking, Ok(()));
    looking.on(LoopEvent::Diffed(Err("timeout".to_owned())));
    assert!(matches!(
        looking.step(),
        LoopStep::Tell(OverlayEvent::Error(message)) if message == "timeout"
    ));
    looking.on(LoopEvent::Done);
    looking.on(LoopEvent::Done);
    captured(&mut looking, Ok(()));
    assert_eq!(diffed(&mut looking), vec![1]);
}

#[test]
fn a_screen_that_cannot_be_opened_ends_the_loop() {
    let mut looking = OverlayLoop::new(&OverlayConfig::default());
    looking.on(LoopEvent::Opened(Err("no compositor".to_owned())));
    assert!(matches!(
        looking.step(),
        LoopStep::Tell(OverlayEvent::Error(message)) if message == "capture init: no compositor"
    ));
    looking.on(LoopEvent::Done);
    assert!(matches!(looking.step(), LoopStep::Stop));
    assert!(matches!(looking.step(), LoopStep::Stop));
}

fn overlay(w: f32) -> Overlay {
    Overlay {
        id: 1,
        x: 0.25f32.to_bits(),
        y: 0.5f32.to_bits(),
        w: w.to_bits(),
        text: "hi".to_owned(),
    }
}

#[test]
fn nothing_is_painted_while_hidden() {
    let mut view = ScreenOverlay::new();
    view.handle_event(OverlayEvent::Overlays(vec![overlay(0.5)]));
    view.handle_event(OverlayEvent::Error("e".to_owned()));
    view.handle_event(OverlayEvent::Hide);
    let painting = view.render();
    assert!(painting.signal);
    assert!(painting.boxes.is_empty());
    assert_eq!(painting.error, None);
    assert!(!view.render().signal);
    view.handle_event(OverlayEvent::Show);
    let painting = view.render();
    assert!(!painting.signal);
    assert_eq!(painting.boxes.len(), 1);
    assert_eq!(painting.error.as_deref(), Some("overlay: e"));
}

#[test]
fn boxes_hug_the_text_if_its_width_is_known() {
    assert_eq!(f32::from_bits(NO_WIDTH), 0.01);
    let mut view = ScreenOverlay::new();
    view.handle_event(OverlayEvent::Overlays(vec![overlay(0.5), overlay(0.01), overlay(0.0)]));
    let painting = view.render();
    let widths: Vec<BoxWidth> = painting.boxes.iter().map(|text| text.width).collect();
    assert_eq!(
        widths,
        vec![BoxWidth::Text(0.5f32.to_bits()), BoxWidth::ToEdge, BoxWidth::ToEdge]
    );
    assert_eq!(f32::from_bits(painting.boxes[0].x), 0.25);
    assert_eq!(f32::from_bits(painting.boxes[0].y), 0.5);
    assert_eq!(painting.boxes[0].text, "hi");
}

#[test]
fn a_box_never_passes_the_right_edge() {
    let width = |w: f32, x: f32| width_of(x.to_bits(), w.to_bits());
    let text = |w: f32| BoxWidth::Text(w.to_bits());
    assert_eq!(f32::from_bits(MIN_WIDTH), 0.05);
    assert_eq!(width(0.75, 0.5), BoxWidth::ToEdge);
    assert_eq!(width(0.5, 0.5), text(0.5));
    assert_eq!(width(0.25, 0.5), text(0.25));
    // The least width applies where there is room for it.
    assert_eq!(width(0.02, 0.5), text(0.05));
    assert_eq!(width(0.02, 0.97), BoxWidth::ToEdge);
    assert_eq!(width(0.02, 1.0), BoxWidth::ToEdge);
    assert_eq!(width(f32::NAN, 0.5), BoxWidth::ToEdge);
    assert_eq!(width(0.5, f32::NAN), BoxWidth::ToEdge);
    // The sum is exact: rounded, it would be 1.0.
    assert_eq!(1.0f32 + 1e-9f32, 1.0);
    assert_eq!(width(1.0, 1e-9), BoxWidth::ToEdge);
    assert_eq!(width(1.0, 0.0), text(1.0));
    assert_eq!(width(1.0, -0.0), text(1.0));
    let mut view = ScreenOverlay::new();
    view.handle_event(OverlayEvent::Overlays(vec![overlay(0.75), overlay(0.875)]));
    let widths: Vec<BoxWidth> = view.render().boxes.iter().map(|text| text.width).collect();
    assert_eq!(widths, vec![text(0.75), BoxWidth::ToEdge]);
}

#[test]
fn new_overlays_clear_the_error() {
    let mut view = ScreenOverlay::new();
    view.handle_event(OverlayEvent::Error("e".to_owned()));
    assert_eq!(view.render().error.as_deref(), Some("overlay: e"));
    view.handle_event(OverlayEvent::Overlays(Vec::new()));
    assert_eq!(view.render().error, None);
}
