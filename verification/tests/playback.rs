use joya::config::{Direction, OutputConfig};
use joya::playback::{sinks_for, PlaybackQueue, SinkRole};

fn output(mic_sink: Option<&str>, monitor_self: bool) -> OutputConfig {
    OutputConfig {
        mic_sink: mic_sink.map(str::to_owned),
        playback_device: Some("phones".to_owned()),
        monitor_self,
    }
}

fn roles(direction: Direction, output: &OutputConfig) -> Vec<(SinkRole, Option<String>)> {
    sinks_for(direction, output).into_iter().map(|sink| (sink.role, sink.device)).collect()
}

#[test]
fn relay_plays_to_you() {
    assert_eq!(
        roles(Direction::Relay, &output(Some("joya_mic"), true)),
        vec![(SinkRole::Relay, Some("phones".to_owned()))]
    );
}

#[test]
fn self_plays_into_the_call() {
    assert_eq!(
        roles(Direction::SelfMode, &output(Some("joya_mic"), true)),
        vec![
            (SinkRole::VirtualMic, Some("joya_mic".to_owned())),
            (SinkRole::SelfMonitor, Some("phones".to_owned()))
        ]
    );
    assert_eq!(
        roles(Direction::SelfMode, &output(Some("joya_mic"), false)),
        vec![(SinkRole::VirtualMic, Some("joya_mic".to_owned()))]
    );
    assert!(roles(Direction::SelfMode, &output(None, false)).is_empty());
}

#[test]
fn each_frame_gets_the_next_sample() {
    let mut queue = PlaybackQueue::new();
    queue.submit(vec![1, 2]);
    queue.submit(vec![3]);
    let mut data = [9; 4];
    queue.fill(&mut data, 2, 0);
    assert_eq!(data, [1, 1, 2, 2]);
    let mut data = [9; 5];
    queue.fill(&mut data, 2, 0);
    assert_eq!(data, [3, 3, 0, 0, 0]);
    queue.submit(vec![4, 5]);
    let mut data = [9; 3];
    queue.fill(&mut data, 2, 0);
    assert_eq!(data, [4, 4, 5]);
    let mut data = [9; 1];
    queue.fill(&mut data, 1, 0);
    assert_eq!(data, [0]);
}
