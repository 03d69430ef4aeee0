//! The translation overlay: the loop that looks at the screen again and again, and
//! what is painted over it.
//!
//! The overlays are hidden for the instant of each screenshot. Otherwise the model
//! would see its own translations and confirm them forever.

use crate::config::{OverlayConfig, MIN_INTERVAL_MS};
use crate::overlay_board;
use crate::overlay_board::{Board, BoardChange, LiveOverlay};
use crate::screen_translate::{Overlay, OverlayUpdate};
use crate::single;
use vstd::arithmetic::power2::{lemma2_to64, pow2};
use vstd::prelude::*;
use vstd::string::*;

verus! {

broadcast use vstd::string::group_string_axioms;

/// How long to wait for the overlays to be hidden, in milliseconds.
pub const HIDE_TIMEOUT_MS: u64 = 250;

/// The pattern of `0.01`: a width that is not above it is none.
pub const NO_WIDTH: u32 = 0x3c23_d70a;

/// The pattern of `0.05`: no box is narrower, if there is room for it.
pub const MIN_WIDTH: u32 = 0x3d4c_cccd;

/// What the loop tells the view.
#[derive(Debug)]
pub enum OverlayEvent {
    /// The overlays to show.
    Overlays(Vec<Overlay>),
    Error(String),
    /// Hide all overlays, so that a screenshot does not capture them.
    Hide,
    /// Show them again.
    Show,
}

/// An [`OverlayEvent`], in sequences.
pub ghost enum OverlayNews {
    Overlays(Seq<Overlay>),
    Error(Seq<char>),
    Hide,
    Show,
}

impl View for OverlayEvent {
    type V = OverlayNews;

    open spec fn view(&self) -> OverlayNews {
        match self {
            OverlayEvent::Overlays(overlays) => OverlayNews::Overlays(overlays@),
            OverlayEvent::Error(message) => OverlayNews::Error(message@),
            OverlayEvent::Hide => OverlayNews::Hide,
            OverlayEvent::Show => OverlayNews::Show,
        }
    }
}

/// What the loop does next.
#[derive(Debug)]
pub enum LoopStep {
    /// Open the screen for capture.
    Open,
    /// Tell the view.
    Tell(OverlayEvent),
    /// Wait until the overlays are hidden, but no longer than this.
    AwaitHidden { timeout_ms: u64 },
    /// Capture the screen.
    Capture,
    /// Ask the model what changed on the captured screen, while these overlays are
    /// shown.
    Diff { current: Vec<Overlay> },
    /// Sleep.
    Sleep { ms: u64 },
    /// There is nothing more to do.
    Stop,
}

/// A [`LoopStep`], in sequences.
pub ghost enum LoopTodo {
    Open,
    Tell(OverlayNews),
    AwaitHidden { timeout_ms: u64 },
    Capture,
    Diff { current: Seq<Overlay> },
    Sleep { ms: u64 },
    Stop,
}

impl View for LoopStep {
    type V = LoopTodo;

    open spec fn view(&self) -> LoopTodo {
        match self {
            LoopStep::Open => LoopTodo::Open,
            LoopStep::Tell(event) => LoopTodo::Tell(event@),
            LoopStep::AwaitHidden { timeout_ms } => LoopTodo::AwaitHidden {
                timeout_ms: *timeout_ms,
            },
            LoopStep::Capture => LoopTodo::Capture,
            LoopStep::Diff { current } => LoopTodo::Diff { current: current@ },
            LoopStep::Sleep { ms } => LoopTodo::Sleep { ms: *ms },
            LoopStep::Stop => LoopTodo::Stop,
        }
    }
}

/// What the loop waits for.
#[derive(Debug)]
pub enum LoopEvent {
    /// What was to be done is done.
    Done,
    /// The screen is open, or the reason why it is not.
    Opened(Result<(), String>),
    /// There is a screenshot, or the reason why there is none.
    Captured(Result<(), String>),
    /// What changed, or the reason why it is not known.
    Diffed(Result<OverlayUpdate, String>),
}

/// How far a look at the screen has come.
pub ghost enum Moment {
    Open,
    /// The screen cannot be opened, for this reason.
    Unopened(Seq<char>),
    Hide,
    AwaitHidden,
    Capture,
    /// There is a screenshot, or none for this reason.
    Show(Option<Seq<char>>),
    Diff,
    /// The overlays are up to date, or not for this reason.
    Report(Option<Seq<char>>),
    Sleep,
    Stop,
}

/// The loop: how far a look has come, the overlays, and the pause between two looks.
pub ghost struct Looking {
    pub moment: Moment,
    pub board: Board,
    pub interval_ms: u64,
}

/// The overlays that are shown.
pub open spec fn shown(board: Board) -> Seq<Overlay> {
    board.live.map_values(|live: LiveOverlay| live.overlay)
}

impl Looking {
    /// What is to be done next.
    pub open spec fn todo(self) -> LoopTodo {
        match self.moment {
            Moment::Open => LoopTodo::Open,
            Moment::Unopened(message) => LoopTodo::Tell(
                OverlayNews::Error("capture init: "@ + message),
            ),
            Moment::Hide => LoopTodo::Tell(OverlayNews::Hide),
            Moment::AwaitHidden => LoopTodo::AwaitHidden { timeout_ms: HIDE_TIMEOUT_MS },
            Moment::Capture => LoopTodo::Capture,
            Moment::Show(_) => LoopTodo::Tell(OverlayNews::Show),
            Moment::Diff => LoopTodo::Diff { current: shown(self.board) },
            Moment::Report(None) => LoopTodo::Tell(OverlayNews::Overlays(shown(self.board))),
            Moment::Report(Some(message)) => LoopTodo::Tell(OverlayNews::Error(message)),
            Moment::Sleep => LoopTodo::Sleep { ms: self.interval_ms },
            Moment::Stop => LoopTodo::Stop,
        }
    }

    /// The same overlays, at another moment.
    pub open spec fn to(self, moment: Moment) -> Looking {
        Looking { moment, ..self }
    }

    /// How far the look has come after `event`. An event that nothing waits for
    /// changes nothing.
    pub open spec fn after(self, event: LoopEvent) -> Looking {
        match (self.moment, event) {
            (Moment::Open, LoopEvent::Opened(Ok(_))) => self.to(Moment::Hide),
            (Moment::Open, LoopEvent::Opened(Err(message))) => self.to(Moment::Unopened(message@)),
            (Moment::Unopened(_), LoopEvent::Done) => self.to(Moment::Stop),
            (Moment::Hide, LoopEvent::Done) => self.to(Moment::AwaitHidden),
            (Moment::AwaitHidden, LoopEvent::Done) => self.to(Moment::Capture),
            (Moment::Capture, LoopEvent::Captured(Ok(_))) => self.to(Moment::Show(None)),
            (Moment::Capture, LoopEvent::Captured(Err(message))) => self.to(
                Moment::Show(Some(message@)),
            ),
            (Moment::Show(None), LoopEvent::Done) => self.to(Moment::Diff),
            (Moment::Show(Some(message)), LoopEvent::Done) => self.to(
                Moment::Report(Some(message)),
            ),
            (Moment::Diff, LoopEvent::Diffed(Ok(update))) => Looking {
                moment: Moment::Report(None),
                board: self.board.updated(update),
                ..self
            },
            (Moment::Diff, LoopEvent::Diffed(Err(message))) => self.to(
                Moment::Report(Some(message@)),
            ),
            (Moment::Report(_), LoopEvent::Done) => self.to(Moment::Sleep),
            (Moment::Sleep, LoopEvent::Done) => self.to(Moment::Hide),
            _ => self,
        }
    }

    /// The overlays have been told to hide, and not yet to show again.
    pub open spec fn hidden(self) -> bool {
        self.moment is AwaitHidden || self.moment is Capture || self.moment is Show
    }

    /// How far the loop has come after a run of events.
    pub open spec fn after_all(self, events: Seq<LoopEvent>) -> Looking
        decreases events.len(),
    {
        if events.len() == 0 {
            self
        } else {
            self.after(events[0]).after_all(events.skip(1))
        }
    }

    /// Whether the view hides the overlays after a run of events: each time that it
    /// has been told to hide or to show them, it does so.
    pub open spec fn curtain(self, down: bool, events: Seq<LoopEvent>) -> bool
        decreases events.len(),
    {
        if events.len() == 0 {
            down
        } else {
            let told = events[0] is Done;
            let next = if told && self.todo() == LoopTodo::Tell(OverlayNews::Hide) {
                true
            } else if told && self.todo() == LoopTodo::Tell(OverlayNews::Show) {
                false
            } else {
                down
            };
            self.after(events[0]).curtain(next, events.skip(1))
        }
    }
}

enum Tick {
    Open,
    Unopened(String),
    Hide,
    AwaitHidden,
    Capture,
    Show(Option<String>),
    Diff,
    Report(Option<String>),
    Sleep,
    Stop,
}

impl Tick {
    spec fn moment(self) -> Moment {
        match self {
            Tick::Open => Moment::Open,
            Tick::Unopened(message) => Moment::Unopened(message@),
            Tick::Hide => Moment::Hide,
            Tick::AwaitHidden => Moment::AwaitHidden,
            Tick::Capture => Moment::Capture,
            Tick::Show(message) => Moment::Show(message.deep_view()),
            Tick::Diff => Moment::Diff,
            Tick::Report(message) => Moment::Report(message.deep_view()),
            Tick::Sleep => Moment::Sleep,
            Tick::Stop => Moment::Stop,
        }
    }
}

/// Looks at the screen again and again, and owns the overlays.
pub struct OverlayLoop {
    tick: Tick,
    live: Vec<LiveOverlay>,
    next_id: u64,
    interval_ms: u64,
}

impl View for OverlayLoop {
    type V = Looking;

    closed spec fn view(&self) -> Looking {
        Looking {
            moment: self.tick.moment(),
            board: Board { live: self.live@, next_id: self.next_id as nat },
            interval_ms: self.interval_ms,
        }
    }
}

fn overlays(live: &Vec<LiveOverlay>) -> (current: Vec<Overlay>)
    ensures
        current@ == live@.map_values(|live: LiveOverlay| live.overlay),
{
    let mut current: Vec<Overlay> = Vec::new();
    let mut at: usize = 0;
    while at < live.len()
        invariant
            at <= live@.len(),
            current@ =~= live@.map_values(|live: LiveOverlay| live.overlay).take(at as int),
        decreases live.len() - at,
    {
        current.push(live[at].overlay.clone());
        at = at + 1;
    }
    current
}

impl OverlayLoop {
    /// Nothing shown, and the screen about to be opened.
    pub fn new(config: &OverlayConfig) -> (this: Self)
        ensures
            this@.moment == Moment::Open,
            this@.board == Board::empty(),
            this@.board.well_formed(),
            this@.interval_ms == (if config.interval_ms >= MIN_INTERVAL_MS {
                config.interval_ms
            } else {
                MIN_INTERVAL_MS
            }),
            this@.interval_ms >= 250,
            this@.interval_ms >= config.interval_ms,
            this@.interval_ms == config.interval_ms || this@.interval_ms == 250,
    {
        OverlayLoop {
            tick: Tick::Open,
            live: Vec::new(),
            next_id: 1,
            interval_ms: if config.interval_ms >= MIN_INTERVAL_MS {
                config.interval_ms
            } else {
                MIN_INTERVAL_MS
            },
        }
    }

    /// True when there are ids left for `count` more overlays.
    pub fn has_ids_for(&self, count: usize) -> (enough: bool)
        ensures
            enough == (self@.board.next_id + count <= u64::MAX),
    {
        count as u64 <= u64::MAX - self.next_id
    }

    /// What is to be done next.
    pub fn step(&self) -> (step: LoopStep)
        ensures
            step@ == self@.todo(),
    {
        match &self.tick {
            Tick::Open => LoopStep::Open,
            Tick::Unopened(message) => LoopStep::Tell(
                OverlayEvent::Error("capture init: ".to_owned().concat(message)),
            ),
            Tick::Hide => LoopStep::Tell(OverlayEvent::Hide),
            Tick::AwaitHidden => LoopStep::AwaitHidden { timeout_ms: HIDE_TIMEOUT_MS },
            Tick::Capture => LoopStep::Capture,
            Tick::Show(_) => LoopStep::Tell(OverlayEvent::Show),
            Tick::Diff => LoopStep::Diff { current: overlays(&self.live) },
            Tick::Report(None) => LoopStep::Tell(OverlayEvent::Overlays(overlays(&self.live))),
            Tick::Report(Some(message)) => LoopStep::Tell(OverlayEvent::Error(message.clone())),
            Tick::Sleep => LoopStep::Sleep { ms: self.interval_ms },
            Tick::Stop => LoopStep::Stop,
        }
    }

    /// Takes the next event, and gives what a look at the screen did to the overlays.
    pub fn on(&mut self, event: LoopEvent) -> (change: Option<BoardChange>)
        requires
            old(self)@.board.well_formed(),
            event matches LoopEvent::Diffed(Ok(update)) ==> old(self)@.board.next_id
                + update.add@.len() <= u64::MAX,
        ensures
            final(self)@ == old(self)@.after(event),
            final(self)@.board.well_formed(),
            change == (match (old(self)@.moment, event) {
                (Moment::Diff, LoopEvent::Diffed(Ok(update))) => Some(
                    old(self)@.board.change(update),
                ),
                _ => None,
            }),
    {
        let mut change: Option<BoardChange> = None;
        let mut tick: Tick = Tick::Hide;
        std::mem::swap(&mut tick, &mut self.tick);
        self.tick = match (tick, event) {
            (Tick::Open, LoopEvent::Opened(Ok(_))) => Tick::Hide,
            (Tick::Open, LoopEvent::Opened(Err(message))) => Tick::Unopened(message),
            (Tick::Unopened(_), LoopEvent::Done) => Tick::Stop,
            (Tick::Hide, LoopEvent::Done) => Tick::AwaitHidden,
            (Tick::AwaitHidden, LoopEvent::Done) => Tick::Capture,
            (Tick::Capture, LoopEvent::Captured(Ok(_))) => Tick::Show(None),
            (Tick::Capture, LoopEvent::Captured(Err(message))) => Tick::Show(Some(message)),
            (Tick::Show(None), LoopEvent::Done) => Tick::Diff,
            (Tick::Show(Some(message)), LoopEvent::Done) => Tick::Report(Some(message)),
            (Tick::Diff, LoopEvent::Diffed(Ok(update))) => {
                change = Some(
                    overlay_board::apply_update(&mut self.live, &mut self.next_id, update),
                );
                Tick::Report(None)
            },
            (Tick::Diff, LoopEvent::Diffed(Err(message))) => Tick::Report(Some(message)),
            (Tick::Report(_), LoopEvent::Done) => Tick::Sleep,
            (Tick::Sleep, LoopEvent::Done) => Tick::Hide,
            (tick, _) => tick,
        };
        change
    }
}

/// The screen is captured only while the overlays are hidden, whatever happens.
pub proof fn captured_while_hidden(start: Looking, down: bool, events: Seq<LoopEvent>)
    requires
        start.hidden() ==> down,
    ensures
        start.after_all(events).moment is Capture ==> start.curtain(down, events),
    decreases events.len(),
{
    if events.len() > 0 {
        let told = events[0] is Done;
        let next = if told && start.todo() == LoopTodo::Tell(OverlayNews::Hide) {
            true
        } else if told && start.todo() == LoopTodo::Tell(OverlayNews::Show) {
            false
        } else {
            down
        };
        captured_while_hidden(start.after(events[0]), next, events.skip(1));
    }
}

/// A look that fails leaves the overlays as they are and reports the reason.
pub proof fn failure_keeps_overlays(looking: Looking, message: String)
    ensures
        looking.to(Moment::Diff).after(
            LoopEvent::Diffed(Err::<OverlayUpdate, String>(message)),
        ) == looking.to(Moment::Report(Some(message@))),
        looking.to(Moment::Capture).after(
            LoopEvent::Captured(Err::<(), String>(message)),
        ).after(LoopEvent::Done) == looking.to(Moment::Report(Some(message@))),
        looking.to(Moment::Report(Some(message@))).todo() == LoopTodo::Tell(
            OverlayNews::Error(message@),
        ),
{
}

/// What is painted over the screen.
pub struct ScreenOverlay {
    pub overlays: Vec<Overlay>,
    pub last_error: Option<String>,
    /// Nothing is painted, so that a screenshot sees a clean screen.
    pub hidden: bool,
    /// It was just hidden, and the loop has not been told that it shows.
    pub pending_present: bool,
}

/// How wide a box may get. No box runs past the right edge of the screen.
#[derive(Debug, Clone, Copy, PartialEq, Eq, Structural)]
pub enum BoxWidth {
    /// This wide (a bit pattern): it hugs the text that it covers, and ends on the
    /// screen.
    Text(u32),
    /// Up to the right edge of the screen.
    ToEdge,
}

/// A box with text. Its corner is relative to the screen (bit patterns).
#[derive(Debug)]
pub struct TextBox {
    pub x: u32,
    pub y: u32,
    pub width: BoxWidth,
    pub text: String,
}

/// What to paint.
#[derive(Debug)]
pub struct Painting {
    /// Once this is on the screen, the loop is to be told.
    pub signal: bool,
    pub boxes: Vec<TextBox>,
    pub error: Option<String>,
}

/// The width of a box that hugs a text of width `w`: that of the text, but not less
/// than the least one.
pub open spec fn hugging(w: u32) -> u32 {
    if single::below(w, MIN_WIDTH) {
        MIN_WIDTH
    } else {
        w
    }
}

/// How wide a box may get whose left is at `x` and whose text has the width `w`: it
/// hugs the text, if the model gave a width and the box then ends on the screen.
pub open spec fn box_width(x: u32, w: u32) -> BoxWidth {
    if single::below(NO_WIDTH, w) && single::sum_in_unit(x, hugging(w)) {
        BoxWidth::Text(hugging(w))
    } else {
        BoxWidth::ToEdge
    }
}

/// Computes [`box_width`].
pub fn width_of(x: u32, w: u32) -> (width: BoxWidth)
    ensures
        width == box_width(x, w),
{
    let hugging: u32 = if single::is_below(w, MIN_WIDTH) {
        MIN_WIDTH
    } else {
        w
    };
    if single::is_below(NO_WIDTH, w) && single::is_sum_in_unit(x, hugging) {
        BoxWidth::Text(hugging)
    } else {
        BoxWidth::ToEdge
    }
}

/// A box never runs past the right edge of the screen: it ends there, or its left and
/// its width add up to no more than the screen. One that hugs its text is as wide as
/// the text, or as the least width.
pub proof fn boxes_stay_on_screen(x: u32, w: u32)
    ensures
        box_width(x, w) matches BoxWidth::Text(width) ==> {
            &&& single::units(x) + single::units(width) <= single::units(single::ONE)
            &&& single::at_least(width, w)
            &&& width == w || width == MIN_WIDTH
        },
        single::at_least(w, MIN_WIDTH) && single::sum_in_unit(x, w) ==> box_width(x, w)
            == BoxWidth::Text(w),
{
}

/// The box of an overlay.
pub open spec fn box_of(overlay: Overlay) -> TextBox {
    TextBox {
        x: overlay.x,
        y: overlay.y,
        width: box_width(overlay.x, overlay.w),
        text: overlay.text,
    }
}

impl ScreenOverlay {
    pub fn new() -> (overlay: Self)
        ensures
            overlay.overlays@.len() == 0,
            overlay.last_error is None,
            !overlay.hidden,
            !overlay.pending_present,
    {
        ScreenOverlay {
            overlays: Vec::new(),
            last_error: None,
            hidden: false,
            pending_present: false,
        }
    }

    /// Takes what the loop tells. New overlays clear the last error.
    pub fn handle_event(&mut self, event: OverlayEvent)
        ensures
            match event {
                OverlayEvent::Overlays(overlays) => *final(self) == (ScreenOverlay {
                    overlays,
                    last_error: None,
                    ..*old(self)
                }),
                OverlayEvent::Error(message) => *final(self) == (ScreenOverlay {
                    last_error: Some(message),
                    ..*old(self)
                }),
                OverlayEvent::Hide => *final(self) == (ScreenOverlay {
                    hidden: true,
                    pending_present: true,
                    ..*old(self)
                }),
                OverlayEvent::Show => *final(self) == (ScreenOverlay { hidden: false, ..*old(self) }),
            },
    {
        match event {
            OverlayEvent::Overlays(overlays) => {
                self.overlays = overlays;
                self.last_error = None;
            },
            OverlayEvent::Error(message) => {
                self.last_error = Some(message);
            },
            OverlayEvent::Hide => {
                self.hidden = true;
                self.pending_present = true;
            },
            OverlayEvent::Show => {
                self.hidden = false;
            },
        }
    }

    /// What to paint: nothing while hidden, and else a box for each overlay and the
    /// last error. The first painting after hiding is signalled, once.
    pub fn render(&mut self) -> (painting: Painting)
        ensures
            *final(self) == (ScreenOverlay { pending_present: false, ..*old(self) }),
            painting.signal == old(self).pending_present,
            old(self).hidden ==> painting.boxes@.len() == 0 && painting.error is None,
            !old(self).hidden ==> {
                &&& painting.boxes@ == old(self).overlays@.map_values(
                    |overlay: Overlay| box_of(overlay),
                )
                &&& painting.boxes@.len() == old(self).overlays@.len()
                &&& forall|i: int|
                    0 <= i < painting.boxes@.len() ==> {
                        let overlay = old(self).overlays@[i];
                        &&& (#[trigger] painting.boxes@[i]).x == overlay.x
                        &&& painting.boxes@[i].y == overlay.y
                        &&& painting.boxes@[i].text == overlay.text
                        &&& painting.boxes@[i].width == box_width(overlay.x, overlay.w)
                    }
                &&& painting.error.deep_view() == (match old(self).last_error {
                    Some(message) => Some("overlay: "@ + message@),
                    None => None,
                })
            },
    {
        let signal: bool = self.pending_present;
        self.pending_present = false;
        let mut boxes: Vec<TextBox> = Vec::new();
        if self.hidden {
            return Painting { signal, boxes, error: None };
        }
        let mut at: usize = 0;
        while at < self.overlays.len()
            invariant
                at <= self.overlays@.len(),
                *self == (ScreenOverlay { pending_present: false, ..*old(self) }),
                boxes@ =~= self.overlays@.map_values(|overlay: Overlay| box_of(overlay)).take(
                    at as int,
                ),
            decreases self.overlays.len() - at,
        {
            let overlay: &Overlay = &self.overlays[at];
            boxes.push(
                TextBox {
                    x: overlay.x,
                    y: overlay.y,
                    width: width_of(overlay.x, overlay.w),
                    text: overlay.text.clone(),
                },
            );
            at = at + 1;
        }
        let error: Option<String> = match &self.last_error {
            Some(message) => Some("overlay: ".to_owned().concat(message)),
            None => None,
        };
        Painting { signal, boxes, error }
    }
}

/// A look takes its course: the overlays are hidden, and once they are, the screen is
/// captured; they show again while the model is asked about exactly those that are
/// shown; what became of them is told; and after the pause the next look begins.
pub proof fn look_takes_its_course(looking: Looking, update: OverlayUpdate)
    requires
        looking.moment is Hide,
    ensures
        ({
            let hiding = looking.after(LoopEvent::Done);
            let hidden = hiding.after(LoopEvent::Done);
            let captured = hidden.after(LoopEvent::Captured(Ok::<(), String>(())));
            let showing = captured.after(LoopEvent::Done);
            let diffed = showing.after(LoopEvent::Diffed(Ok::<OverlayUpdate, String>(update)));
            let reported = diffed.after(LoopEvent::Done);
            let rested = reported.after(LoopEvent::Done);
            let board = looking.board.updated(update);
            &&& looking.todo() == LoopTodo::Tell(OverlayNews::Hide)
            &&& hiding.todo() == (LoopTodo::AwaitHidden { timeout_ms: 250 })
            &&& hidden.todo() == LoopTodo::Capture
            &&& captured.todo() == LoopTodo::Tell(OverlayNews::Show)
            &&& showing.todo() matches LoopTodo::Diff { current } && {
                &&& current.len() == looking.board.live.len()
                &&& forall|i: int|
                    0 <= i < current.len() ==> #[trigger] current[i]
                        == looking.board.live[i].overlay
            }
            &&& diffed.todo() matches LoopTodo::Tell(OverlayNews::Overlays(told)) && {
                &&& told.len() == board.live.len()
                &&& forall|i: int|
                    0 <= i < told.len() ==> #[trigger] told[i] == board.live[i].overlay
            }
            &&& reported.todo() == (LoopTodo::Sleep { ms: looking.interval_ms })
            &&& rested.moment is Hide
            &&& rested.board == board
            &&& rested.interval_ms == looking.interval_ms
        }),
{
}

/// A look that fails shows the overlays again before the reason is told, and the next
/// look comes after the pause all the same.
pub proof fn failed_looks_are_repeated(looking: Looking, message: String)
    requires
        looking.moment is Capture || looking.moment is Diff,
    ensures
        ({
            let failed = if looking.moment is Capture {
                looking.after(LoopEvent::Captured(Err::<(), String>(message)))
            } else {
                looking.after(LoopEvent::Diffed(Err::<OverlayUpdate, String>(message)))
            };
            let shown_again = if looking.moment is Capture {
                failed.after(LoopEvent::Done)
            } else {
                failed
            };
            let reported = shown_again.after(LoopEvent::Done);
            let rested = reported.after(LoopEvent::Done);
            &&& looking.moment is Capture ==> failed.todo() == LoopTodo::Tell(OverlayNews::Show)
            &&& shown_again.todo() == LoopTodo::Tell(OverlayNews::Error(message@))
            &&& reported.todo() == (LoopTodo::Sleep { ms: looking.interval_ms })
            &&& rested.moment is Hide
            &&& rested.board == looking.board
            &&& rested.interval_ms == looking.interval_ms
        }),
{
}

/// The loop opens the screen first. If it cannot, it tells why and stops for good.
pub proof fn loop_opens_or_stops(looking: Looking, message: String, event: LoopEvent)
    requires
        looking.moment is Open,
    ensures
        ({
            let opened = looking.after(LoopEvent::Opened(Ok::<(), String>(())));
            let refused = looking.after(LoopEvent::Opened(Err::<(), String>(message)));
            let stopped = refused.after(LoopEvent::Done);
            &&& looking.todo() == LoopTodo::Open
            &&& opened.moment is Hide
            &&& opened.board == looking.board
            &&& refused.todo() == LoopTodo::Tell(
                OverlayNews::Error("capture init: "@ + message@),
            )
            &&& stopped.todo() == LoopTodo::Stop
            &&& stopped.after(event) == stopped
        }),
{
}

/// What the loop does not wait for changes nothing.
pub proof fn loop_waits_for_its_turn(looking: Looking, event: LoopEvent)
    requires
        match looking.todo() {
            LoopTodo::Open => !(event is Opened),
            LoopTodo::Capture => !(event is Captured),
            LoopTodo::Diff { .. } => !(event is Diffed),
            LoopTodo::Stop => true,
            _ => !(event is Done),
        },
    ensures
        looking.after(event) == looking,
{
}

/// The model's width counts only above the least one that says anything, and a box that
/// hugs a narrow text is a little wider. Where there is no room, a box ends at the edge.
pub proof fn widths_are_chosen(x: u32, w: u32)
    ensures
        NO_WIDTH < MIN_WIDTH < single::ONE,
        !single::below(NO_WIDTH, w) ==> box_width(x, w) is ToEdge,
        single::below(NO_WIDTH, w) && single::below(w, MIN_WIDTH) && single::sum_in_unit(
            x,
            MIN_WIDTH,
        ) ==> box_width(x, w) == BoxWidth::Text(MIN_WIDTH),
        single::units(x) + single::units(w) > single::units(single::ONE) && single::at_least(
            w,
            MIN_WIDTH,
        ) ==> box_width(x, w) is ToEdge,
        !single::in_unit(x) ==> box_width(x, w) is ToEdge,
{
}

/// A step is what is to be done, with what it is to be done with.
pub proof fn steps_say_what_is_to_be_done(
    overlays: Vec<Overlay>,
    message: String,
    timeout_ms: u64,
    ms: u64,
)
    ensures
        LoopStep::Open@ == LoopTodo::Open,
        LoopStep::Tell(OverlayEvent::Overlays(overlays))@ == LoopTodo::Tell(
            OverlayNews::Overlays(overlays@),
        ),
        LoopStep::Tell(OverlayEvent::Error(message))@ == LoopTodo::Tell(
            OverlayNews::Error(message@),
        ),
        LoopStep::Tell(OverlayEvent::Hide)@ == LoopTodo::Tell(OverlayNews::Hide),
        LoopStep::Tell(OverlayEvent::Show)@ == LoopTodo::Tell(OverlayNews::Show),
        (LoopStep::AwaitHidden { timeout_ms })@ == (LoopTodo::AwaitHidden { timeout_ms }),
        LoopStep::Capture@ == LoopTodo::Capture,
        (LoopStep::Diff { current: overlays })@ == (LoopTodo::Diff { current: overlays@ }),
        (LoopStep::Sleep { ms })@ == (LoopTodo::Sleep { ms }),
        LoopStep::Stop@ == LoopTodo::Stop,
{
}

/// A width of up to a hundredth of the screen says nothing, and no box that hugs its
/// text is narrower than a twentieth.
pub proof fn least_widths_are_what_they_say()
    ensures
        single::is_nearest(NO_WIDTH, 1, 100),
        single::is_nearest(MIN_WIDTH, 1, 20),
{
    lemma2_to64();
    assert(NO_WIDTH / 0x80_0000 == 120 && NO_WIDTH % 0x80_0000 == 0x23d70a);
    assert(pow2(7) == 128);
    single::nearness_can_be_told(NO_WIDTH, 1, 100, 128);
    assert(MIN_WIDTH / 0x80_0000 == 122 && MIN_WIDTH % 0x80_0000 == 0x4ccccd);
    assert(pow2(5) == 32);
    single::nearness_can_be_told(MIN_WIDTH, 1, 20, 32);
}

}
