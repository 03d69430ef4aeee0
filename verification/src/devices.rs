//! Audio devices: choosing one by name or id, and listing them.

use crate::config::Direction;
use crate::text;
use vstd::prelude::*;
use vstd::string::*;

verus! {

broadcast use vstd::string::group_string_axioms;

/// How a device calls itself. Either may be unknown.
#[derive(Debug)]
pub struct DeviceInfo {
    /// The friendly name, which several devices may share.
    pub name: Option<String>,
    /// The id that only this device has.
    pub id: Option<String>,
}

/// How a device calls itself, in characters.
pub ghost struct DeviceIdentity {
    pub name: Option<Seq<char>>,
    pub id: Option<Seq<char>>,
}

impl DeepView for DeviceInfo {
    type V = DeviceIdentity;

    open spec fn deep_view(&self) -> DeviceIdentity {
        DeviceIdentity { name: self.name.deep_view(), id: self.id.deep_view() }
    }
}

impl DeviceIdentity {
    /// The device goes by `name`, as its friendly name or as its id.
    pub open spec fn goes_by(self, name: Seq<char>) -> bool {
        self.name == Some(name) || self.id == Some(name)
    }

    /// The id, or nothing.
    pub open spec fn id_or_empty(self) -> Seq<char> {
        match self.id {
            Some(id) => id,
            None => Seq::empty(),
        }
    }
}

/// Where a direction captures from.
#[derive(Debug)]
pub enum CaptureSource {
    /// The device that goes by this name or id.
    Named(String),
    /// The monitor of the default output.
    DefaultOutput,
    /// The default input.
    DefaultInput,
}

/// Short lowercase label of a direction.
pub open spec fn direction_name(direction: Direction) -> Seq<char> {
    match direction {
        Direction::Relay => "relay"@,
        Direction::SelfMode => "self"@,
    }
}

/// Short lowercase label of a direction, for log lines.
pub fn direction_tag(direction: Direction) -> (tag: &'static str)
    ensures
        tag@ == direction_name(direction),
        tag@ == (match direction {
            Direction::Relay => "relay"@,
            Direction::SelfMode => "self"@,
        }),
{
    match direction {
        Direction::Relay => "relay",
        Direction::SelfMode => "self",
    }
}

fn is_text(value: &Option<String>, wanted: &str) -> (equal: bool)
    ensures
        equal == (value.deep_view() == Some(wanted@)),
{
    match value {
        Some(value) => text::same(value, wanted),
        None => false,
    }
}

/// True when `device` goes by `name`: its friendly name or its id is `name`.
pub fn device_matches(device: &DeviceInfo, name: &str) -> (matches: bool)
    ensures
        matches == device.deep_view().goes_by(name@),
        matches == (device.name.deep_view() == Some(name@) || device.id.deep_view() == Some(
            name@,
        )),
{
    is_text(&device.name, name) || is_text(&device.id, name)
}

/// Where `direction` captures from: the named device, or else the default
/// output's monitor for relay and the default input for self.
pub fn capture_source(device_name: Option<&str>, direction: Direction) -> (source: CaptureSource)
    ensures
        match device_name {
            Some(name) => source matches CaptureSource::Named(wanted) && wanted@ == name@,
            None => source == (match direction {
                Direction::Relay => CaptureSource::DefaultOutput,
                Direction::SelfMode => CaptureSource::DefaultInput,
            }),
        },
{
    match device_name {
        Some(name) => CaptureSource::Named(name.to_owned()),
        None => match direction {
            Direction::Relay => CaptureSource::DefaultOutput,
            Direction::SelfMode => CaptureSource::DefaultInput,
        },
    }
}

/// The message for a capture device that is not there.
pub open spec fn capture_device_missing(name: Seq<char>) -> Seq<char> {
    "Audio device '"@ + name
        + "' not found. Run with `list-devices` to see options (match is against either the friendly name or the unique id)."@
}

/// The first of `devices` (inputs, then outputs) that goes by `name`, or the
/// message that there is none.
pub fn capture(devices: &Vec<DeviceInfo>, name: &str) -> (found: Result<usize, String>)
    ensures
        match found {
            Ok(at) => {
                &&& at < devices@.len()
                &&& devices@[at as int].deep_view().goes_by(name@)
                &&& devices@[at as int].name.deep_view() == Some(name@)
                    || devices@[at as int].id.deep_view() == Some(name@)
                &&& forall|k: int|
                    0 <= k < at ==> !(#[trigger] devices@[k]).deep_view().goes_by(name@)
            },
            Err(message) => {
                &&& forall|k: int|
                    0 <= k < devices@.len() ==> !(#[trigger] devices@[k]).deep_view().goes_by(name@)
                &&& message@ == capture_device_missing(name@)
            },
        },
{
    let mut at: usize = 0;
    while at < devices.len()
        invariant
            at <= devices@.len(),
            forall|k: int|
                0 <= k < at ==> !(#[trigger] devices@[k]).deep_view().goes_by(name@),
        decreases devices.len() - at,
    {
        if device_matches(&devices[at], name) {
            return Ok(at);
        }
        at = at + 1;
    }
    let mut message: String = "Audio device '".to_owned();
    message.append(name);
    message.append(
        "' not found. Run with `list-devices` to see options (match is against either the friendly name or the unique id).",
    );
    Err(message)
}

/// The message for a default device that is not there.
pub fn missing_default(direction: Direction) -> (message: &'static str)
    ensures
        message@ == (match direction {
            Direction::Relay => "No default output device found"@,
            Direction::SelfMode => "No default input device found"@,
        }),
{
    match direction {
        Direction::Relay => "No default output device found",
        Direction::SelfMode => "No default input device found",
    }
}

/// The first of the output `devices` whose friendly name is `name`, or the
/// message that there is none.
pub fn find_output(devices: &Vec<DeviceInfo>, name: &str) -> (found: Result<usize, String>)
    ensures
        match found {
            Ok(at) => {
                &&& at < devices@.len()
                &&& devices@[at as int].name.deep_view() == Some(name@)
                &&& forall|k: int|
                    0 <= k < at ==> (#[trigger] devices@[k]).name.deep_view() != Some(name@)
            },
            Err(message) => {
                &&& forall|k: int|
                    0 <= k < devices@.len() ==> (#[trigger] devices@[k]).name.deep_view() != Some(
                        name@,
                    )
                &&& message@ == "output device '"@ + name@ + "' not found"@
            },
        },
{
    let mut at: usize = 0;
    while at < devices.len()
        invariant
            at <= devices@.len(),
            forall|k: int|
                0 <= k < at ==> (#[trigger] devices@[k]).name.deep_view() != Some(name@),
        decreases devices.len() - at,
    {
        if is_text(&devices[at].name, name) {
            return Ok(at);
        }
        at = at + 1;
    }
    let mut message: String = "output device '".to_owned();
    message.append(name);
    message.append("' not found");
    Err(message)
}

/// What a log line adds behind the name of a device: its id, unless there is
/// none or it is the name again.
pub fn id_suffix(device_name: &str, device_id: &str) -> (suffix: String)
    ensures
        suffix@ == (if device_id@.len() == 0 || device_id@ == device_name@ {
            Seq::empty()
        } else {
            " [id="@ + device_id@ + "]"@
        }),
{
    if device_id.is_empty() || text::same(device_id, device_name) {
        String::new()
    } else {
        let mut suffix: String = " [id=".to_owned();
        suffix.append(device_id);
        suffix.append("]");
        suffix
    }
}

/// The lines that list one device: its name, marked if it is the default, and
/// its id, unless there is none or it is the name again. A device without a name
/// is not listed.
pub open spec fn device_lines(default: Option<Seq<char>>, device: DeviceIdentity) -> Seq<Seq<char>> {
    match device.name {
        None => Seq::empty(),
        Some(name) => {
            let line = "  "@ + name + (if default == Some(name) {
                "  <- default"@
            } else {
                ""@
            });
            if device.id_or_empty().len() > 0 && device.id_or_empty() != name {
                seq![line, "    id: "@ + device.id_or_empty()]
            } else {
                seq![line]
            }
        },
    }
}

/// The lines that list `devices`, one device after the other.
pub open spec fn all_device_lines(default: Option<Seq<char>>, devices: Seq<DeviceIdentity>) -> Seq<
    Seq<char>,
>
    decreases devices.len(),
{
    if devices.len() == 0 {
        Seq::empty()
    } else {
        all_device_lines(default, devices.drop_last()) + device_lines(default, devices.last())
    }
}

/// A heading with the name of the default device, then the devices, as far as
/// they could be listed.
pub open spec fn section(
    title: Seq<char>,
    default: Option<Seq<char>>,
    devices: Option<Seq<DeviceIdentity>>,
) -> Seq<Seq<char>> {
    let heading = match default {
        Some(name) => title + " (default: "@ + name + ")"@,
        None => title,
    };
    match devices {
        Some(devices) => seq![heading] + all_device_lines(default, devices),
        None => seq![heading],
    }
}

/// What the listing of the devices ends with.
pub open spec fn listing_notes() -> Seq<Seq<char>> {
    seq![
        ""@,
        "In `relay` mode, `capture_device: null` uses the default OUTPUT (headphone monitor)."@,
        "In `self` mode,   `capture_device: null` uses the default INPUT  (microphone)."@,
        "When several devices share a name (common on PipeWire — e.g. multiple Scarlett"@,
        "inputs all read \"Scarlett Solo USB\"), set `capture_device` to the `id:` line above"@,
        "to target the exact node."@,
    ]
}

fn push_line(lines: &mut Vec<String>, line: String)
    ensures
        final(lines).deep_view() == old(lines).deep_view().push(line@),
{
    lines.push(line);
    assert(lines.deep_view() =~= old(lines).deep_view().push(line@));
}

fn push_device(lines: &mut Vec<String>, default: &Option<String>, device: &DeviceInfo)
    ensures
        final(lines).deep_view() == old(lines).deep_view() + device_lines(
            default.deep_view(),
            device.deep_view(),
        ),
{
    match &device.name {
        None => {
            assert(lines.deep_view() =~= old(lines).deep_view() + Seq::<Seq<char>>::empty());
        },
        Some(name) => {
            let mut line: String = "  ".to_owned();
            line.append(name);
            if is_text(default, name) {
                line.append("  <- default");
            } else {
                line.append("");
            }
            let ghost first = line@;
            push_line(lines, line);
            match &device.id {
                Some(id) => {
                    if !id.as_str().is_empty() && !text::same(id, name) {
                        let mut second: String = "    id: ".to_owned();
                        second.append(id);
                        let ghost last = second@;
                        push_line(lines, second);
                        assert(lines.deep_view() =~= old(lines).deep_view() + seq![first, last]);
                        return ;
                    }
                },
                None => {},
            }
            assert(lines.deep_view() =~= old(lines).deep_view() + seq![first]);
        },
    }
}

fn push_section(
    lines: &mut Vec<String>,
    title: &str,
    default: &Option<String>,
    devices: &Option<Vec<DeviceInfo>>,
)
    ensures
        final(lines).deep_view() == old(lines).deep_view() + section(
            title@,
            default.deep_view(),
            devices.deep_view(),
        ),
{
    let mut heading: String = title.to_owned();
    match default {
        Some(name) => {
            heading.append(" (default: ");
            heading.append(name);
            heading.append(")");
        },
        None => {},
    }
    let ghost first = heading@;
    push_line(lines, heading);
    let ghost start = lines.deep_view();
    match devices {
        Some(devices) => {
            let ghost all = devices.deep_view();
            let mut at: usize = 0;
            assert(start + Seq::<Seq<char>>::empty() =~= start);
            while at < devices.len()
                invariant
                    at <= devices@.len(),
                    all == devices.deep_view(),
                    lines.deep_view() == start + all_device_lines(
                        default.deep_view(),
                        all.take(at as int),
                    ),
                decreases devices.len() - at,
            {
                push_device(lines, default, &devices[at]);
                assert(all.take(at + 1).drop_last() =~= all.take(at as int));
                assert(all.take(at + 1).last() == devices@[at as int].deep_view());
                at = at + 1;
                assert(lines.deep_view() =~= start + all_device_lines(
                    default.deep_view(),
                    all.take(at as int),
                ));
            }
            assert(all.take(all.len() as int) =~= all);
            assert(lines.deep_view() =~= old(lines).deep_view() + (seq![first] + all_device_lines(
                default.deep_view(),
                all,
            )));
        },
        None => {
            assert(lines.deep_view() =~= old(lines).deep_view() + seq![first]);
        },
    }
}

/// The listing of the audio devices, line by line. `None` stands for devices
/// that could not be listed.
pub fn list_audio_devices(
    default_input: &Option<String>,
    inputs: &Option<Vec<DeviceInfo>>,
    default_output: &Option<String>,
    outputs: &Option<Vec<DeviceInfo>>,
) -> (lines: Vec<String>)
    ensures
        lines.deep_view() == section("Input devices"@, default_input.deep_view(), inputs.deep_view())
            + seq![""@] + section(
            "Output devices"@,
            default_output.deep_view(),
            outputs.deep_view(),
        ) + listing_notes(),
{
    let mut lines: Vec<String> = Vec::new();
    push_section(&mut lines, "Input devices", default_input, inputs);
    push_line(&mut lines, "".to_owned());
    push_section(&mut lines, "Output devices", default_output, outputs);
    let ghost listed = lines.deep_view();
    push_line(&mut lines, "".to_owned());
    push_line(
        &mut lines,
        "In `relay` mode, `capture_device: null` uses the default OUTPUT (headphone monitor).".to_owned(),
    );
    push_line(
        &mut lines,
        "In `self` mode,   `capture_device: null` uses the default INPUT  (microphone).".to_owned(),
    );
    push_line(
        &mut lines,
        "When several devices share a name (common on PipeWire — e.g. multiple Scarlett".to_owned(),
    );
    push_line(
        &mut lines,
        "inputs all read \"Scarlett Solo USB\"), set `capture_device` to the `id:` line above".to_owned(),
    );
    push_line(&mut lines, "to target the exact node.".to_owned());
    assert(lines.deep_view() =~= listed + listing_notes());
    assert(lines.deep_view() =~= section(
        "Input devices"@,
        default_input.deep_view(),
        inputs.deep_view(),
    ) + seq![""@] + section("Output devices"@, default_output.deep_view(), outputs.deep_view())
        + listing_notes());
    lines
}

/// Either its name or its id is enough for a device to be found, and nothing else is.
pub proof fn name_or_id_is_enough(device: DeviceIdentity, name: Seq<char>)
    ensures
        device.name == Some(name) ==> device.goes_by(name),
        device.id == Some(name) ==> device.goes_by(name),
        device.name != Some(name) && device.id != Some(name) ==> !device.goes_by(name),
{
}

/// Devices are listed one after the other: one more is listed behind the others, which
/// stay as they are.
pub proof fn devices_are_listed_in_order(
    default: Option<Seq<char>>,
    devices: Seq<DeviceIdentity>,
    one: DeviceIdentity,
)
    ensures
        all_device_lines(default, Seq::empty()).len() == 0,
        all_device_lines(default, devices.push(one)) == all_device_lines(default, devices)
            + device_lines(default, one),
{
    assert(devices.push(one).drop_last() =~= devices);
}

/// A device is listed with its name, marked if it is the default one, and its id on a
/// line of its own, unless that says nothing new. One without a name is not listed.
pub proof fn device_is_listed_with_its_id(default: Option<Seq<char>>, device: DeviceIdentity)
    ensures
        device.name is None ==> device_lines(default, device).len() == 0,
        device.name matches Some(name) ==> {
            let lines = device_lines(default, device);
            let has_id = device.id is Some && device.id->0.len() > 0 && device.id->0 != name;
            &&& lines.len() == (if has_id {
                2nat
            } else {
                1nat
            })
            &&& default == Some(name) ==> lines[0] == "  "@ + name + "  <- default"@
            &&& default != Some(name) ==> lines[0] == "  "@ + name
            &&& has_id ==> lines[1] == "    id: "@ + device.id->0
        },
{
    reveal_strlit("");
    if device.name is Some {
        assert("  "@ + device.name->0 + ""@ =~= "  "@ + device.name->0);
    }
}

/// The default device is named in the heading.
pub proof fn heading_names_the_default(
    title: Seq<char>,
    default: Option<Seq<char>>,
    devices: Option<Seq<DeviceIdentity>>,
)
    ensures
        section(title, default, devices).len() > 0,
        default is None ==> section(title, default, devices)[0] == title,
        default matches Some(name) ==> section(title, default, devices)[0] == title
            + " (default: "@ + name + ")"@,
        devices is None ==> section(title, default, devices).len() == 1,
        devices matches Some(all) ==> section(title, default, devices).skip(1)
            == all_device_lines(default, all),
{
    if devices is Some {
        assert(section(title, default, devices).skip(1) =~= all_device_lines(default, devices->0));
    }
}

}
