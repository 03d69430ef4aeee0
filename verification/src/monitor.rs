//! The monitor of the translation overlay: the output to capture, and the display
//! to put the window on.

use crate::config::OverlayConfig;
use crate::screen_capture;
use crate::screen_capture::OutputGeometry;
use vstd::prelude::*;
use vstd::string::*;
use vstd::utf8::encode_utf8;

verus! {

broadcast use vstd::string::group_string_axioms;

/// A display that windows can be put on.
#[derive(Debug)]
pub struct DisplayInfo {
    /// Its UUID, if it has one.
    pub uuid: Option<u128>,
    /// Its size, in whole pixels.
    pub width: u32,
    pub height: u32,
}

/// Where the overlay goes: the output to capture and, if one corresponds to it,
/// the display to cover.
#[derive(Debug, Clone, Copy, PartialEq, Eq, Structural)]
pub struct MonitorChoice {
    pub output: usize,
    pub display: Option<usize>,
}

/// How often the displays are asked for before the overlay opens without them.
pub const DISPLAY_TRIES: u32 = 40;

/// The pause between two times, in milliseconds.
pub const DISPLAY_PAUSE_MS: u64 = 50;

/// The displays are not known at once. How long to wait before they are asked for
/// again, in milliseconds, or `None` if the overlay is to open: when there are some,
/// or when they have been asked for often enough.
pub fn display_pause(tries: u32, displays: usize) -> (pause: Option<u64>)
    ensures
        pause == (if displays == 0 && tries < DISPLAY_TRIES {
            Some(DISPLAY_PAUSE_MS)
        } else {
            None
        }),
        displays > 0 ==> pause is None,
        tries >= 40 ==> pause is None,
        displays == 0 && tries < 40 ==> pause == Some(50u64),
{
    if displays == 0 && tries < DISPLAY_TRIES {
        Some(DISPLAY_PAUSE_MS)
    } else {
        None
    }
}

/// The namespace of the UUIDs that displays have.
pub const NAMESPACE_DNS: u128 = 0x6ba7_b810_9dad_11d1_80b4_00c0_4fd4_30c8;

/// The version 5 UUID of `name` in `namespace`, as `uuid` computes it.
pub uninterp spec fn uuid_v5(namespace: u128, name: Seq<u8>) -> u128;

/// Computes a UUID with `uuid`'s `Uuid::new_v5`, a function of the namespace and
/// the name.
#[verifier::external_body]
pub(crate) fn new_uuid_v5(namespace: u128, name: &[u8]) -> (uuid: u128)
    ensures
        uuid == uuid_v5(namespace, name@),
{
    uuid::Uuid::new_v5(&uuid::Uuid::from_u128(namespace), name).as_u128()
}

/// `at` is the first display with this UUID.
pub open spec fn is_first_by_uuid(displays: Seq<DisplayInfo>, uuid: u128, at: int) -> bool {
    &&& 0 <= at < displays.len()
    &&& displays[at].uuid == Some(uuid)
    &&& forall|k: int| 0 <= k < at ==> (#[trigger] displays[k]).uuid != Some(uuid)
}

/// `at` is the only display of this size.
pub open spec fn is_only_by_size(
    displays: Seq<DisplayInfo>,
    width: u32,
    height: u32,
    at: int,
) -> bool {
    &&& 0 <= at < displays.len()
    &&& displays[at].width == width && displays[at].height == height
    &&& forall|k: int|
        0 <= k < displays.len() && k != at ==> !((#[trigger] displays[k]).width == width
            && displays[k].height == height)
}

/// No display has this UUID.
pub open spec fn none_by_uuid(displays: Seq<DisplayInfo>, uuid: u128) -> bool {
    forall|k: int| 0 <= k < displays.len() ==> (#[trigger] displays[k]).uuid != Some(uuid)
}

/// The display that corresponds to an output: the first one with its UUID, or else
/// the one of its size, if only one has it.
pub open spec fn corresponds(
    displays: Seq<DisplayInfo>,
    uuid: u128,
    width: u32,
    height: u32,
    display: Option<usize>,
) -> bool {
    match display {
        Some(at) => is_first_by_uuid(displays, uuid, at as int) || (none_by_uuid(displays, uuid)
            && is_only_by_size(displays, width, height, at as int)),
        None => none_by_uuid(displays, uuid) && forall|at: int|
            !#[trigger] is_only_by_size(displays, width, height, at),
    }
}

fn only_display(displays: &Vec<DisplayInfo>, width: u32, height: u32) -> (only: Option<usize>)
    ensures
        match only {
            Some(at) => is_only_by_size(displays@, width, height, at as int),
            None => forall|at: int| !#[trigger] is_only_by_size(displays@, width, height, at),
        },
{
    let mut only: Option<usize> = None;
    let mut at: usize = 0;
    while at < displays.len()
        invariant
            at <= displays@.len(),
            match only {
                Some(found) => found < at && is_only_by_size(
                    displays@.take(at as int),
                    width,
                    height,
                    found as int,
                ),
                None => forall|k: int|
                    0 <= k < at ==> !((#[trigger] displays@[k]).width == width
                        && displays@[k].height == height),
            },
        decreases displays.len() - at,
    {
        let ghost seen = displays@.take(at as int);
        let ghost now = displays@.take(at + 1);
        assert(forall|k: int| 0 <= k < at ==> seen[k] == #[trigger] now[k]);
        assert(now[at as int] == displays@[at as int]);
        if displays[at].width == width && displays[at].height == height {
            match only {
                Some(found) => {
                    assert(seen[found as int] == displays@[found as int]);
                    assert forall|one: int| !#[trigger] is_only_by_size(
                        displays@,
                        width,
                        height,
                        one,
                    ) by {
                        if one == found {
                            assert(displays@[at as int].width == width);
                        } else {
                            assert(displays@[found as int].width == width);
                        }
                    }
                    return None;
                },
                None => {
                    only = Some(at);
                },
            }
        }
        at = at + 1;
    }
    assert(displays@.take(displays@.len() as int) =~= displays@);
    only
}

/// The display that corresponds to an output with this UUID and size.
pub fn find_display(displays: &Vec<DisplayInfo>, uuid: u128, width: u32, height: u32) -> (display:
    Option<usize>)
    ensures
        corresponds(displays@, uuid, width, height, display),
{
    let mut at: usize = 0;
    while at < displays.len()
        invariant
            at <= displays@.len(),
            forall|k: int| 0 <= k < at ==> (#[trigger] displays@[k]).uuid != Some(uuid),
        decreases displays.len() - at,
    {
        match displays[at].uuid {
            Some(found) => {
                if found == uuid {
                    return Some(at);
                }
            },
            None => {},
        }
        at = at + 1;
    }
    only_display(displays, width, height)
}

/// The UUID of the display of an output: that of the name of the output.
pub open spec fn output_uuid(output: OutputGeometry) -> u128 {
    uuid_v5(NAMESPACE_DNS, encode_utf8(output.name@))
}

/// Two outputs of the same name have the same UUID, which is that of the name in the
/// namespace of domain names.
pub proof fn uuid_is_that_of_the_name(a: OutputGeometry, b: OutputGeometry)
    requires
        a.name@ == b.name@,
    ensures
        output_uuid(a) == output_uuid(b),
        output_uuid(a) == uuid_v5(0x6ba7_b810_9dad_11d1_80b4_00c0_4fd4_30c8, encode_utf8(a.name@)),
{
}

/// `at` is the first output whose display has the UUID of `display`.
pub open spec fn is_first_of_uuid(
    outputs: Seq<OutputGeometry>,
    display: DisplayInfo,
    at: int,
) -> bool {
    &&& 0 <= at < outputs.len()
    &&& display.uuid == Some(output_uuid(outputs[at]))
    &&& forall|k: int|
        0 <= k < at ==> display.uuid != Some(output_uuid(#[trigger] outputs[k]))
}

/// No output's display has the UUID of `display`.
pub open spec fn none_of_uuid(outputs: Seq<OutputGeometry>, display: DisplayInfo) -> bool {
    forall|k: int|
        0 <= k < outputs.len() ==> display.uuid != Some(output_uuid(#[trigger] outputs[k]))
}

/// `at` is the only output of the size of `display`.
pub open spec fn is_only_of_size(
    outputs: Seq<OutputGeometry>,
    display: DisplayInfo,
    at: int,
) -> bool {
    &&& 0 <= at < outputs.len()
    &&& outputs[at].width == display.width && outputs[at].height == display.height
    &&& forall|k: int|
        0 <= k < outputs.len() && k != at ==> !((#[trigger] outputs[k]).width == display.width
            && outputs[k].height == display.height)
}

/// `at` is the output of `display`: the first one with its UUID, or else the one of
/// its size, if only one has it.
pub open spec fn is_output_of(outputs: Seq<OutputGeometry>, display: DisplayInfo, at: int) -> bool {
    ||| is_first_of_uuid(outputs, display, at)
    ||| none_of_uuid(outputs, display) && is_only_of_size(outputs, display, at)
}

/// `at` is the output that the overlay goes to: the one that is configured, or else
/// that of the primary display, or else the first one.
pub open spec fn is_overlay_output(
    outputs: Seq<OutputGeometry>,
    wanted: Option<Seq<char>>,
    primary: Option<DisplayInfo>,
    at: int,
) -> bool {
    if wanted is None && primary is Some && exists|one: int| #[trigger]
        is_output_of(outputs, primary->0, one) {
        is_output_of(outputs, primary->0, at)
    } else {
        screen_capture::is_target(outputs, wanted, at)
    }
}

/// The primary one of `displays`, if there is one.
pub open spec fn primary_of(displays: Seq<DisplayInfo>, primary: Option<usize>) -> Option<
    DisplayInfo,
> {
    match primary {
        Some(at) => if at < displays.len() {
            Some(displays[at as int])
        } else {
            None
        },
        None => None,
    }
}

fn first_of_uuid(outputs: &Vec<OutputGeometry>, display: &DisplayInfo) -> (first: Option<usize>)
    ensures
        match first {
            Some(at) => is_first_of_uuid(outputs@, *display, at as int),
            None => none_of_uuid(outputs@, *display),
        },
{
    match display.uuid {
        Some(uuid) => {
            let mut at: usize = 0;
            while at < outputs.len()
                invariant
                    at <= outputs@.len(),
                    display.uuid == Some(uuid),
                    forall|k: int|
                        0 <= k < at ==> display.uuid != Some(output_uuid(#[trigger] outputs@[k])),
                decreases outputs.len() - at,
            {
                if new_uuid_v5(NAMESPACE_DNS, outputs[at].name.as_str().as_bytes()) == uuid {
                    return Some(at);
                }
                at = at + 1;
            }
            None
        },
        None => None,
    }
}

fn only_output(outputs: &Vec<OutputGeometry>, display: &DisplayInfo) -> (only: Option<usize>)
    ensures
        match only {
            Some(at) => is_only_of_size(outputs@, *display, at as int),
            None => forall|at: int| !#[trigger] is_only_of_size(outputs@, *display, at),
        },
{
    let mut only: Option<usize> = None;
    let mut at: usize = 0;
    while at < outputs.len()
        invariant
            at <= outputs@.len(),
            match only {
                Some(found) => found < at && is_only_of_size(
                    outputs@.take(at as int),
                    *display,
                    found as int,
                ),
                None => forall|k: int|
                    0 <= k < at ==> !((#[trigger] outputs@[k]).width == display.width
                        && outputs@[k].height == display.height),
            },
        decreases outputs.len() - at,
    {
        let ghost seen = outputs@.take(at as int);
        let ghost now = outputs@.take(at + 1);
        assert(forall|k: int| 0 <= k < at ==> seen[k] == #[trigger] now[k]);
        assert(now[at as int] == outputs@[at as int]);
        if outputs[at].width == display.width && outputs[at].height == display.height {
            match only {
                Some(found) => {
                    assert(seen[found as int] == outputs@[found as int]);
                    assert forall|one: int| !#[trigger] is_only_of_size(
                        outputs@,
                        *display,
                        one,
                    ) by {
                        if one == found {
                            assert(outputs@[at as int].width == display.width);
                        } else {
                            assert(outputs@[found as int].width == display.width);
                        }
                    }
                    return None;
                },
                None => {
                    only = Some(at);
                },
            }
        }
        at = at + 1;
    }
    assert(outputs@.take(outputs@.len() as int) =~= outputs@);
    only
}

/// The output of `display`: the first one with its UUID, or else the one of its size,
/// if only one has it.
pub fn find_output(outputs: &Vec<OutputGeometry>, display: &DisplayInfo) -> (found: Option<usize>)
    ensures
        match found {
            Some(at) => is_output_of(outputs@, *display, at as int),
            None => forall|at: int| !#[trigger] is_output_of(outputs@, *display, at),
        },
{
    match first_of_uuid(outputs, display) {
        Some(at) => Some(at),
        None => only_output(outputs, display),
    }
}

fn overlay_output(
    outputs: &Vec<OutputGeometry>,
    wanted: &Option<String>,
    displays: &Vec<DisplayInfo>,
    primary: Option<usize>,
) -> (found: Option<usize>)
    ensures
        match found {
            Some(at) => is_overlay_output(
                outputs@,
                wanted.deep_view(),
                primary_of(displays@, primary),
                at as int,
            ),
            None => screen_capture::no_target(outputs@, wanted.deep_view()),
        },
{
    if wanted.is_none() {
        match primary {
            Some(at) => {
                if at < displays.len() {
                    match find_output(outputs, &displays[at]) {
                        Some(found) => {
                            return Some(found);
                        },
                        None => {},
                    }
                }
            },
            None => {},
        }
    }
    screen_capture::target_output(outputs, wanted)
}

/// Where the overlay goes: the output that is configured, or else that of the primary
/// display, or else the first one, and the display that corresponds to it. The UUID of
/// a display is that of the name of its output. `primary` is the place of the primary
/// display among `displays`.
pub fn resolve_overlay_monitor(
    config: &OverlayConfig,
    outputs: &Vec<OutputGeometry>,
    displays: &Vec<DisplayInfo>,
    primary: Option<usize>,
) -> (choice: Option<MonitorChoice>)
    ensures
        match choice {
            Some(choice) => {
                let output = outputs@[choice.output as int];
                &&& is_overlay_output(
                    outputs@,
                    config.output.deep_view(),
                    primary_of(displays@, primary),
                    choice.output as int,
                )
                &&& corresponds(
                    displays@,
                    output_uuid(output),
                    output.width,
                    output.height,
                    choice.display,
                )
            },
            None => screen_capture::no_target(outputs@, config.output.deep_view()),
        },
{
    match overlay_output(outputs, &config.output, displays, primary) {
        Some(at) => {
            let output: &OutputGeometry = &outputs[at];
            let uuid: u128 = new_uuid_v5(NAMESPACE_DNS, output.name.as_str().as_bytes());
            Some(
                MonitorChoice {
                    output: at,
                    display: find_display(displays, uuid, output.width, output.height),
                },
            )
        },
        None => None,
    }
}

/// The overlay goes to the output of the name that is configured, if there is one of
/// that name, whatever the primary display is.
pub proof fn configured_output_is_taken(
    outputs: Seq<OutputGeometry>,
    name: Seq<char>,
    primary: Option<DisplayInfo>,
    at: int,
)
    requires
        is_overlay_output(outputs, Some(name), primary, at),
    ensures
        0 <= at < outputs.len(),
        outputs[at].name@ == name,
        forall|k: int| 0 <= k < at ==> (#[trigger] outputs[k]).name@ != name,
{
}

/// With no output configured and no output of a primary display, the overlay goes to the
/// first output.
pub proof fn first_output_is_taken(
    outputs: Seq<OutputGeometry>,
    primary: Option<DisplayInfo>,
    at: int,
)
    requires
        is_overlay_output(outputs, None, primary, at),
        primary matches Some(display) ==> forall|k: int|
            0 <= k < outputs.len() ==> {
                &&& display.uuid != Some(output_uuid(#[trigger] outputs[k]))
                &&& !(outputs[k].width == display.width && outputs[k].height == display.height)
            },
    ensures
        at == 0,
        outputs.len() > 0,
{
    if primary is Some {
        let display = primary->0;
        assert forall|one: int| !#[trigger] is_output_of(outputs, display, one) by {
            if 0 <= one < outputs.len() {
                assert(display.uuid != Some(output_uuid(outputs[one])));
            }
        }
    }
}

/// There is no place for the overlay only if there is no output at all, or none of the
/// name that is configured.
pub proof fn no_output_is_left_out(outputs: Seq<OutputGeometry>, at: int, wanted: Option<Seq<char>>)
    requires
        0 <= at < outputs.len(),
        screen_capture::no_target(outputs, wanted),
    ensures
        wanted is Some,
        outputs[at].name@ != wanted->0,
{
}

/// With no output configured, and none of the UUID of the primary display, the overlay
/// goes to the output of its size, if only one has it.
pub proof fn primary_goes_by_its_size(
    outputs: Seq<OutputGeometry>,
    display: DisplayInfo,
    of_display: int,
    at: int,
)
    requires
        0 <= of_display < outputs.len(),
        outputs[of_display].width == display.width,
        outputs[of_display].height == display.height,
        forall|k: int|
            0 <= k < outputs.len() ==> {
                &&& display.uuid != Some(output_uuid(#[trigger] outputs[k]))
                &&& k != of_display ==> !(outputs[k].width == display.width && outputs[k].height
                    == display.height)
            },
        is_overlay_output(outputs, None, Some(display), at),
    ensures
        at == of_display,
{
    assert(none_of_uuid(outputs, display));
    assert(is_only_of_size(outputs, display, of_display));
    assert(is_output_of(outputs, display, of_display));
    assert(is_output_of(outputs, display, at));
}

/// The display that the window covers has the UUID of the output, or, if none has it, is
/// the only one of its size. There is none only if neither can be.
pub proof fn display_is_that_of_the_output(
    displays: Seq<DisplayInfo>,
    uuid: u128,
    width: u32,
    height: u32,
    display: Option<usize>,
    k: int,
)
    requires
        corresponds(displays, uuid, width, height, display),
        0 <= k < displays.len(),
    ensures
        display matches Some(at) ==> at < displays.len(),
        displays[k].uuid == Some(uuid) ==> display is Some && display->0 <= k
            && displays[display->0 as int].uuid == Some(uuid),
        display matches Some(at) ==> displays[at as int].uuid == Some(uuid) || {
            &&& displays[at as int].width == width && displays[at as int].height == height
            &&& k != at ==> !(displays[k].width == width && displays[k].height == height)
        },
{
}

/// If no display has the UUID of the output and one alone has its size, it is covered.
pub proof fn display_of_the_size_is_found(
    displays: Seq<DisplayInfo>,
    uuid: u128,
    width: u32,
    height: u32,
    display: Option<usize>,
    of_output: int,
)
    requires
        corresponds(displays, uuid, width, height, display),
        0 <= of_output < displays.len(),
        displays[of_output].width == width,
        displays[of_output].height == height,
        forall|k: int|
            0 <= k < displays.len() ==> {
                &&& (#[trigger] displays[k]).uuid != Some(uuid)
                &&& k != of_output ==> !(displays[k].width == width && displays[k].height == height)
            },
    ensures
        display matches Some(at) && at == of_output,
{
    assert(is_only_by_size(displays, width, height, of_output));
}

/// With no output configured, the overlay goes to the primary display, if one of the
/// outputs has its UUID: that output is captured, and the window covers a display of
/// that UUID.
pub proof fn primary_display_is_covered(
    outputs: Seq<OutputGeometry>,
    displays: Seq<DisplayInfo>,
    primary: usize,
    of_primary: int,
    choice: MonitorChoice,
)
    requires
        primary < displays.len(),
        0 <= of_primary < outputs.len(),
        displays[primary as int].uuid == Some(output_uuid(outputs[of_primary])),
        is_overlay_output(
            outputs,
            None,
            primary_of(displays, Some(primary)),
            choice.output as int,
        ),
        corresponds(
            displays,
            output_uuid(outputs[choice.output as int]),
            outputs[choice.output as int].width,
            outputs[choice.output as int].height,
            choice.display,
        ),
    ensures
        displays[primary as int].uuid == Some(output_uuid(outputs[choice.output as int])),
        choice.display matches Some(at) && displays[at as int].uuid
            == displays[primary as int].uuid,
{
    let display = displays[primary as int];
    let first = lemma_first_of_uuid(outputs, display, of_primary);
    assert(is_output_of(outputs, display, first));
    assert(!none_of_uuid(outputs, display)) by {
        assert(display.uuid == Some(output_uuid(outputs[of_primary])));
    }
    assert(primary_of(displays, Some(primary)) == Some(display));
    assert(is_output_of(outputs, display, choice.output as int));
    assert(is_first_of_uuid(outputs, display, choice.output as int));
    assert(displays[primary as int].uuid == display.uuid);
}

proof fn lemma_first_of_uuid(
    outputs: Seq<OutputGeometry>,
    display: DisplayInfo,
    at: int,
) -> (first: int)
    requires
        0 <= at < outputs.len(),
        display.uuid == Some(output_uuid(outputs[at])),
    ensures
        is_first_of_uuid(outputs, display, first),
    decreases at,
{
    if exists|k: int| 0 <= k < at && display.uuid == Some(output_uuid(#[trigger] outputs[k])) {
        let earlier = choose|k: int|
            0 <= k < at && display.uuid == Some(output_uuid(#[trigger] outputs[k]));
        lemma_first_of_uuid(outputs, display, earlier)
    } else {
        at
    }
}

}
