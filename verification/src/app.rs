//! The main window: which directions start, what becomes of the events that they
//! send, and what is shown.

use crate::config::{Config, Direction, LanguageConfig, LanguagePair};
use crate::devices::{direction_name, direction_tag};
use crate::pipeline::{News, Stage, UiEvent};
use crate::playback;
use crate::playback::{SinkRequest, SinkRole};
use vstd::prelude::*;
use vstd::string::*;

verus! {

broadcast use vstd::string::group_string_axioms;

/// Why relay does not start without a capture device.
pub const LOOPS: &'static str = "relay.capture_device is not set. With no capture device, relay captures the default output's monitor, which also picks up Joya's own TTS and re-translates it in a loop. Run `scripts/setup-virtual-mic.sh` to create the isolation sink, then set `relay.capture_device: call_remote.monitor` so relay hears only the other party.";

/// What a direction needs to start.
#[derive(Debug)]
pub struct ResolvedPipeline {
    pub capture_device: Option<String>,
    pub languages: LanguageConfig,
    /// The outputs to open, in order.
    pub sinks: Vec<SinkRequest>,
}

/// A [`ResolvedPipeline`], in characters.
pub ghost struct Resolved {
    pub capture_device: Option<Seq<char>>,
    pub languages: LanguagePair,
    pub sinks: Seq<(SinkRole, Option<Seq<char>>)>,
}

impl View for ResolvedPipeline {
    type V = Resolved;

    open spec fn view(&self) -> Resolved {
        Resolved {
            capture_device: self.capture_device.deep_view(),
            languages: self.languages@,
            sinks: self.sinks.deep_view(),
        }
    }
}

/// What `direction` needs to start: nothing if it is disabled, and the reason if
/// it would be unsafe to run. Self translates the languages as they are set, and
/// relay the swapped pair. Without a capture device relay would hear, and translate,
/// its own speech.
pub open spec fn resolved(config: Config, direction: Direction) -> Result<
    Option<Resolved>,
    Seq<char>,
> {
    match direction {
        Direction::Relay => if !config.audio.relay.enabled {
            Ok(None)
        } else if config.audio.relay.capture_device is None {
            Err(LOOPS@)
        } else {
            Ok(
                Some(
                    Resolved {
                        capture_device: config.audio.relay.capture_device.deep_view(),
                        languages: config.languages@.swapped(),
                        sinks: playback::outputs(direction, config.audio.output),
                    },
                ),
            )
        },
        Direction::SelfMode => if !config.audio.self_mode.enabled {
            Ok(None)
        } else {
            Ok(
                Some(
                    Resolved {
                        capture_device: config.audio.self_mode.capture_device.deep_view(),
                        languages: config.languages@,
                        sinks: playback::outputs(direction, config.audio.output),
                    },
                ),
            )
        },
    }
}

/// What `direction` needs to start: `Ok(None)` if it is disabled, and an error if
/// it is enabled but unsafe to run.
pub fn build_pipeline(config: &Config, direction: Direction) -> (built: Result<
    Option<ResolvedPipeline>,
    String,
>)
    ensures
        match built {
            Ok(None) => resolved(*config, direction) == Ok::<_, Seq<char>>(None::<Resolved>),
            Ok(Some(pipeline)) => resolved(*config, direction) == Ok::<_, Seq<char>>(
                Some(pipeline@),
            ),
            Err(message) => resolved(*config, direction) == Err::<Option<Resolved>, _>(message@),
        },
        direction == Direction::Relay ==> match built {
            Ok(None) => !config.audio.relay.enabled,
            Ok(Some(pipeline)) => {
                &&& config.audio.relay.enabled
                &&& config.audio.relay.capture_device is Some
                &&& pipeline.capture_device.deep_view()
                    == config.audio.relay.capture_device.deep_view()
                &&& pipeline.languages.source.deep_view() == Some(config.languages.target@)
                &&& pipeline.languages.target@ == (match config.languages.source {
                    Some(source) => source@,
                    None => "English"@,
                })
                &&& pipeline.sinks@.len() == 1
                &&& pipeline.sinks@[0].role == SinkRole::Relay
                &&& pipeline.sinks@[0].device.deep_view()
                    == config.audio.output.playback_device.deep_view()
            },
            Err(_) => config.audio.relay.enabled && config.audio.relay.capture_device is None,
        },
        direction == Direction::SelfMode ==> match built {
            Ok(None) => !config.audio.self_mode.enabled,
            Ok(Some(pipeline)) => {
                &&& config.audio.self_mode.enabled
                &&& pipeline.capture_device.deep_view()
                    == config.audio.self_mode.capture_device.deep_view()
                &&& pipeline.languages.source.deep_view() == config.languages.source.deep_view()
                &&& pipeline.languages.target@ == config.languages.target@
                &&& pipeline.sinks.deep_view() == playback::outputs(direction, config.audio.output)
            },
            Err(_) => false,
        },
{
    match direction {
        Direction::Relay => {
            let relay = &config.audio.relay;
            if !relay.enabled {
                return Ok(None);
            }
            if relay.capture_device.is_none() {
                return Err(LOOPS.to_owned());
            }
            let sinks: Vec<SinkRequest> = playback::sinks_for(direction, &config.audio.output);
            assert(sinks.deep_view() == playback::outputs(direction, config.audio.output));
            assert(sinks@.len() == sinks.deep_view().len());
            assert(sinks@[0].deep_view() == sinks.deep_view()[0]);
            Ok(
                Some(
                    ResolvedPipeline {
                        capture_device: relay.capture_device.clone(),
                        languages: config.languages.swapped(),
                        sinks,
                    },
                ),
            )
        },
        Direction::SelfMode => {
            let own = &config.audio.self_mode;
            if !own.enabled {
                return Ok(None);
            }
            Ok(
                Some(
                    ResolvedPipeline {
                        capture_device: own.capture_device.clone(),
                        languages: config.languages.clone(),
                        sinks: playback::sinks_for(direction, &config.audio.output),
                    },
                ),
            )
        },
    }
}

/// Relay never starts without a capture device, so it never hears its own speech
/// on the default output's monitor.
pub proof fn relay_needs_a_device(config: Config)
    ensures
        resolved(config, Direction::Relay) matches Ok(Some(pipeline))
            ==> pipeline.capture_device is Some,
{
}

/// When both directions run, each one translates the other's languages the
/// opposite way.
pub proof fn directions_mirror(config: Config, relay: Resolved, own: Resolved)
    requires
        resolved(config, Direction::Relay) == Ok::<_, Seq<char>>(Some(relay)),
        resolved(config, Direction::SelfMode) == Ok::<_, Seq<char>>(Some(own)),
    ensures
        relay.languages == own.languages.swapped(),
        relay.languages.source == Some(own.languages.target),
        own.languages.source is Some ==> own.languages == relay.languages.swapped(),
{
}

/// A disabled direction is skipped, whatever else is set.
pub proof fn disabled_is_skipped(config: Config)
    ensures
        !config.audio.relay.enabled ==> resolved(config, Direction::Relay) == Ok::<_, Seq<char>>(
            None::<Resolved>,
        ),
        !config.audio.self_mode.enabled ==> resolved(config, Direction::SelfMode) == Ok::<
            _,
            Seq<char>,
        >(None::<Resolved>),
{
}

/// The start of the directions, one after the other.
pub ghost struct Launch {
    /// The directions whose turn has not come yet.
    pub waiting: Seq<Direction>,
    /// The directions that run, in the order of their start.
    pub active: Seq<Direction>,
    /// What the user is told.
    pub told: Seq<(Direction, News)>,
}

impl Launch {
    pub open spec fn begun() -> Launch {
        Launch {
            waiting: seq![Direction::Relay, Direction::SelfMode],
            active: Seq::empty(),
            told: Seq::empty(),
        }
    }

    /// Passes over the directions that are disabled, and over those that are
    /// refused, of which the user is told, up to the next one that is to start.
    pub open spec fn advanced(self, config: Config) -> (Launch, Option<(Direction, Resolved)>)
        decreases self.waiting.len(),
    {
        if self.waiting.len() == 0 {
            (self, None)
        } else {
            let direction = self.waiting[0];
            let rest = Launch { waiting: self.waiting.skip(1), ..self };
            match resolved(config, direction) {
                Ok(None) => rest.advanced(config),
                Ok(Some(pipeline)) => (rest, Some((direction, pipeline))),
                Err(message) => (Launch {
                    told: self.told.push((direction, News::Error(message))),
                    ..rest
                }).advanced(config),
            }
        }
    }

    /// The direction runs if it could be captured. Else the user is told.
    pub open spec fn settled(self, direction: Direction, captured: Result<(), Seq<char>>) -> Launch {
        match captured {
            Ok(_) => Launch { active: self.active.push(direction), ..self },
            Err(message) => Launch {
                told: self.told.push((direction, News::Error("capture: "@ + message))),
                ..self
            },
        }
    }
}

/// Starts the directions, one after the other.
pub struct Startup {
    waiting: Vec<Direction>,
    active: Vec<Direction>,
    told: Vec<UiEvent>,
}

impl View for Startup {
    type V = Launch;

    closed spec fn view(&self) -> Launch {
        Launch {
            waiting: self.waiting@,
            active: self.active@,
            told: self.told.deep_view(),
        }
    }
}

impl Startup {
    /// Relay first, self second.
    pub fn new() -> (startup: Self)
        ensures
            startup@ == Launch::begun(),
            startup@.waiting == seq![Direction::Relay, Direction::SelfMode],
            startup@.active.len() == 0,
            startup@.told.len() == 0,
    {
        let mut waiting: Vec<Direction> = Vec::new();
        waiting.push(Direction::Relay);
        waiting.push(Direction::SelfMode);
        let startup = Startup { waiting, active: Vec::new(), told: Vec::new() };
        assert(startup@.told =~= Launch::begun().told);
        assert(startup@.waiting =~= Launch::begun().waiting);
        startup
    }

    fn tell(&mut self, event: UiEvent)
        ensures
            final(self)@ == (Launch {
                told: old(self)@.told.push(event.deep_view()),
                ..old(self)@
            }),
    {
        self.told.push(event);
        assert(self.told.deep_view() =~= old(self).told.deep_view().push(event.deep_view()));
    }

    /// The next direction to start, and what it needs. `None` when all have had
    /// their turn.
    pub fn next_direction(&mut self, config: &Config) -> (next: Option<
        (Direction, ResolvedPipeline),
    >)
        ensures
            (final(self)@, match next {
                Some((direction, pipeline)) => Some((direction, pipeline@)),
                None => None,
            }) == old(self)@.advanced(*config),
    {
        while self.waiting.len() > 0
            invariant
                self@.advanced(*config) == old(self)@.advanced(*config),
            decreases self.waiting.len(),
        {
            let ghost before = self@;
            let direction: Direction = self.waiting.remove(0);
            assert(self.waiting@ =~= before.waiting.skip(1));
            match build_pipeline(config, direction) {
                Ok(None) => {},
                Ok(Some(pipeline)) => {
                    return Some((direction, pipeline));
                },
                Err(message) => {
                    self.tell(UiEvent::Error { direction, message });
                },
            }
        }
        None
    }

    /// `direction` was captured, or the reason why it was not.
    pub fn captured(&mut self, direction: Direction, outcome: Result<(), String>)
        ensures
            final(self)@ == old(self)@.settled(
                direction,
                match outcome {
                    Ok(_) => Ok(()),
                    Err(message) => Err(message@),
                },
            ),
            final(self)@.waiting == old(self)@.waiting,
            match outcome {
                Ok(_) => {
                    &&& final(self)@.active == old(self)@.active.push(direction)
                    &&& final(self)@.told == old(self)@.told
                },
                Err(message) => {
                    &&& final(self)@.active == old(self)@.active
                    &&& final(self)@.told == old(self)@.told.push(
                        (direction, News::Error("capture: "@ + message@)),
                    )
                },
            },
    {
        match outcome {
            Ok(_) => {
                self.active.push(direction);
            },
            Err(message) => {
                self.tell(
                    UiEvent::Error { direction, message: "capture: ".to_owned().concat(&message) },
                );
            },
        }
    }

    /// The directions that run, and what the user is to be told.
    pub fn finish(self) -> (end: (Vec<Direction>, Vec<UiEvent>))
        ensures
            end.0@ == self@.active,
            end.1.deep_view() == self@.told,
    {
        (self.active, self.told)
    }
}

/// No direction stands among those that run twice, or while it still waits.
pub open spec fn orderly(launch: Launch) -> bool {
    &&& launch.waiting.no_duplicates()
    &&& launch.active.no_duplicates()
    &&& forall|i: int, j: int|
        0 <= i < launch.waiting.len() && 0 <= j < launch.active.len() ==> launch.waiting[i]
            != launch.active[j]
}

/// Each direction starts at most once.
pub proof fn starts_at_most_once(launch: Launch, config: Config, captured: Result<(), Seq<char>>)
    requires
        orderly(launch),
    ensures
        orderly(Launch::begun()),
        orderly(launch.advanced(config).0),
        launch.advanced(config).1 matches Some((direction, _)) ==> {
            &&& !launch.active.contains(direction)
            &&& orderly(launch.advanced(config).0.settled(direction, captured))
        },
    decreases launch.waiting.len(),
{
    if launch.waiting.len() > 0 {
        let direction = launch.waiting[0];
        let rest = Launch { waiting: launch.waiting.skip(1), ..launch };
        assert(orderly(rest));
        match resolved(config, direction) {
            Ok(None) => {
                starts_at_most_once(rest, config, captured);
            },
            Ok(Some(_)) => {},
            Err(message) => {
                let told = Launch {
                    told: launch.told.push((direction, News::Error(message))),
                    ..rest
                };
                starts_at_most_once(told, config, captured);
            },
        }
    }
}

/// No direction is passed over in silence: one that neither waits nor is next is
/// disabled, or the user has been told why it was refused.
pub proof fn refusals_are_told(launch: Launch, config: Config, at: int)
    requires
        0 <= at < launch.waiting.len(),
    ensures
        ({
            let direction = launch.waiting[at];
            let (after, next) = launch.advanced(config);
            ||| after.waiting.contains(direction)
            ||| next matches Some((chosen, _)) && chosen == direction
            ||| match resolved(config, direction) {
                Ok(pipeline) => pipeline is None,
                Err(message) => after.told.contains((direction, News::Error(message))),
            }
        }),
        launch.told.is_prefix_of(launch.advanced(config).0.told),
        launch.advanced(config).0.active == launch.active,
    decreases launch.waiting.len(),
{
    reveal_with_fuel(Launch::advanced, 2);
    let first = launch.waiting[0];
    let rest = Launch { waiting: launch.waiting.skip(1), ..launch };
    let next = match resolved(config, first) {
        Err(message) => Launch {
            told: launch.told.push((first, News::Error(message))),
            ..rest
        },
        _ => rest,
    };
    match resolved(config, first) {
        Ok(Some(_)) => {
            if at > 0 {
                assert(rest.waiting[at - 1] == launch.waiting[at]);
            }
        },
        _ => {
            if rest.waiting.len() > 0 {
                refusals_are_told(next, config, if at > 0 {
                    at - 1
                } else {
                    0
                });
            }
            if at == 0 && resolved(config, first) is Err {
                let told = launch.advanced(config).0.told;
                assert(told[launch.told.len() as int] == next.told[launch.told.len() as int]);
            }
        },
    }
}

/// One translated utterance.
#[derive(Debug)]
pub struct Entry {
    pub direction: Direction,
    pub source: String,
    pub translated: String,
}

/// An [`Entry`], in characters.
pub ghost struct Said {
    pub direction: Direction,
    pub source: Seq<char>,
    pub translated: Seq<char>,
}

impl DeepView for Entry {
    type V = Said;

    open spec fn deep_view(&self) -> Said {
        Said {
            direction: self.direction,
            source: self.source@,
            translated: self.translated@,
        }
    }
}

/// What a direction is doing: the transcript so far, the stage, the last error.
#[derive(Debug)]
pub struct DirectionState {
    pub source_partial: String,
    pub stage: Stage,
    pub last_error: Option<String>,
}

/// A [`DirectionState`], in characters.
pub ghost struct Slot {
    pub source_partial: Seq<char>,
    pub stage: Stage,
    pub last_error: Option<Seq<char>>,
}

impl Slot {
    pub open spec fn fresh() -> Slot {
        Slot { source_partial: Seq::empty(), stage: Stage::Listening, last_error: None }
    }

    /// A transcript takes the place of the one before. A translation ends it and
    /// clears the last error.
    pub open spec fn after(self, news: News) -> Slot {
        match news {
            News::SourcePartial(text) => Slot { source_partial: text, ..self },
            News::SourceFinal(text) => Slot { source_partial: text, ..self },
            News::Translation { .. } => Slot {
                source_partial: Seq::empty(),
                last_error: None,
                ..self
            },
            News::Stage(stage) => Slot { stage, ..self },
            News::Error(message) => Slot { last_error: Some(message), ..self },
        }
    }
}

impl View for DirectionState {
    type V = Slot;

    open spec fn view(&self) -> Slot {
        Slot {
            source_partial: self.source_partial@,
            stage: self.stage,
            last_error: self.last_error.deep_view(),
        }
    }
}

impl Default for DirectionState {
    fn default() -> (state: Self)
        ensures
            state@ == Slot::fresh(),
            state.source_partial@.len() == 0,
            state.stage == Stage::Listening,
            state.last_error is None,
    {
        DirectionState {
            source_partial: String::new(),
            stage: Stage::Listening,
            last_error: None,
        }
    }
}

/// What a stage is called.
pub open spec fn stage_name(stage: Stage) -> Seq<char> {
    match stage {
        Stage::Listening => "listening"@,
        Stage::Transcribing => "transcribing"@,
        Stage::Translating => "translating"@,
        Stage::Speaking => "speaking"@,
    }
}

impl DirectionState {
    pub fn stage_label(&self) -> (label: &'static str)
        ensures
            label@ == stage_name(self.stage),
            label@ == (match self.stage {
                Stage::Listening => "listening"@,
                Stage::Transcribing => "transcribing"@,
                Stage::Translating => "translating"@,
                Stage::Speaking => "speaking"@,
            }),
    {
        match self.stage {
            Stage::Listening => "listening",
            Stage::Transcribing => "transcribing",
            Stage::Translating => "translating",
            Stage::Speaking => "speaking",
        }
    }

    fn take(&mut self, event: UiEvent)
        ensures
            final(self)@ == old(self)@.after(event.news()),
    {
        match event {
            UiEvent::SourcePartial { text, .. } => {
                self.source_partial = text;
            },
            UiEvent::SourceFinal { text, .. } => {
                self.source_partial = text;
            },
            UiEvent::Translation { .. } => {
                self.source_partial = String::new();
                self.last_error = None;
            },
            UiEvent::Stage { stage, .. } => {
                self.stage = stage;
            },
            UiEvent::Error { message, .. } => {
                self.last_error = Some(message);
            },
        }
    }
}

/// What the window knows: the translations so far, a slot for each direction that
/// runs, and why the others do not run.
pub ghost struct Conversation {
    pub entries: Seq<Said>,
    pub slots: Map<Direction, Slot>,
    pub notices: Map<Direction, Seq<char>>,
    pub active: Seq<Direction>,
}

impl Conversation {
    pub open spec fn begun(active: Seq<Direction>) -> Conversation {
        Conversation {
            entries: Seq::empty(),
            slots: Map::new(|direction: Direction| active.contains(direction), |d| Slot::fresh()),
            notices: Map::empty(),
            active,
        }
    }

    /// What the window knows after `news` from `direction`. A translation is kept.
    /// Of a direction that does not run, only the last error is kept besides.
    pub open spec fn after(self, direction: Direction, news: News) -> Conversation {
        Conversation {
            entries: match news {
                News::Translation { source, translated } => self.entries.push(
                    Said { direction, source, translated },
                ),
                _ => self.entries,
            },
            slots: if self.slots.contains_key(direction) {
                self.slots.insert(direction, self.slots[direction].after(news))
            } else {
                self.slots
            },
            notices: match news {
                News::Error(message) => if self.slots.contains_key(direction) {
                    self.notices
                } else {
                    self.notices.insert(direction, message)
                },
                _ => self.notices,
            },
            active: self.active,
        }
    }
}

/// The main window.
pub struct JoyaApp {
    config: Config,
    entries: Vec<Entry>,
    relay: Option<DirectionState>,
    own: Option<DirectionState>,
    relay_notice: Option<String>,
    own_notice: Option<String>,
    active_directions: Vec<Direction>,
}

impl JoyaApp {
    spec fn slot(self, direction: Direction) -> Option<DirectionState> {
        match direction {
            Direction::Relay => self.relay,
            Direction::SelfMode => self.own,
        }
    }

    spec fn notice(self, direction: Direction) -> Option<String> {
        match direction {
            Direction::Relay => self.relay_notice,
            Direction::SelfMode => self.own_notice,
        }
    }

    pub closed spec fn config(self) -> Config {
        self.config
    }
}

impl View for JoyaApp {
    type V = Conversation;

    closed spec fn view(&self) -> Conversation {
        Conversation {
            entries: self.entries.deep_view(),
            slots: Map::new(
                |direction: Direction| self.slot(direction) is Some,
                |direction: Direction| self.slot(direction)->0@,
            ),
            notices: Map::new(
                |direction: Direction| self.notice(direction) is Some,
                |direction: Direction| self.notice(direction)->0@,
            ),
            active: self.active_directions@,
        }
    }
}

fn holds(directions: &Vec<Direction>, direction: Direction) -> (found: bool)
    ensures
        found == directions@.contains(direction),
{
    let mut at: usize = 0;
    while at < directions.len()
        invariant
            at <= directions@.len(),
            forall|i: int| 0 <= i < at ==> directions@[i] != direction,
        decreases directions.len() - at,
    {
        if directions[at] == direction {
            return true;
        }
        at = at + 1;
    }
    false
}

fn slot_if(active: bool) -> (slot: Option<DirectionState>)
    ensures
        active == (slot is Some),
        slot matches Some(state) ==> state@ == Slot::fresh(),
{
    if active {
        Some(DirectionState::default())
    } else {
        None
    }
}

impl JoyaApp {
    /// Nothing said yet, and a fresh slot for each direction that runs.
    pub fn new(config: Config, active_directions: Vec<Direction>) -> (app: Self)
        ensures
            app.config() == config,
            app@ == Conversation::begun(active_directions@),
            app@.entries.len() == 0,
            app@.active == active_directions@,
            forall|direction: Direction|
                {
                    &&& #[trigger] app@.slots.contains_key(direction)
                        == active_directions@.contains(direction)
                    &&& !app@.notices.contains_key(direction)
                },
    {
        let app = JoyaApp {
            config,
            entries: Vec::new(),
            relay: slot_if(holds(&active_directions, Direction::Relay)),
            own: slot_if(holds(&active_directions, Direction::SelfMode)),
            relay_notice: None,
            own_notice: None,
            active_directions,
        };
        proof {
            let begun = Conversation::begun(active_directions@);
            assert(app@.entries =~= begun.entries);
            assert(app@.slots =~= begun.slots);
            assert(app@.notices =~= begun.notices);
        }
        app
    }

    /// Takes what a direction tells.
    pub fn handle_event(&mut self, event: UiEvent)
        ensures
            final(self)@ == old(self)@.after(event.direction(), event.news()),
            final(self).config() == old(self).config(),
    {
        let ghost before = self@;
        let ghost wanted = before.after(event.direction(), event.news());
        let direction: Direction = match &event {
            UiEvent::SourcePartial { direction, .. } => *direction,
            UiEvent::SourceFinal { direction, .. } => *direction,
            UiEvent::Translation { direction, .. } => *direction,
            UiEvent::Stage { direction, .. } => *direction,
            UiEvent::Error { direction, .. } => *direction,
        };
        if let UiEvent::Translation { source, translated, .. } = &event {
            self.entries.push(
                Entry { direction, source: source.clone(), translated: translated.clone() },
            );
        }
        assert(self@.entries =~= wanted.entries);
        let mut slot: Option<DirectionState> = None;
        match direction {
            Direction::Relay => std::mem::swap(&mut slot, &mut self.relay),
            Direction::SelfMode => std::mem::swap(&mut slot, &mut self.own),
        }
        match slot {
            Some(state) => {
                let mut state: DirectionState = state;
                state.take(event);
                match direction {
                    Direction::Relay => {
                        self.relay = Some(state);
                    },
                    Direction::SelfMode => {
                        self.own = Some(state);
                    },
                }
            },
            None => {
                if let UiEvent::Error { message, .. } = event {
                    match direction {
                        Direction::Relay => {
                            self.relay_notice = Some(message);
                        },
                        Direction::SelfMode => {
                            self.own_notice = Some(message);
                        },
                    }
                }
            },
        }
        assert(self@.slots =~= wanted.slots);
        assert(self@.notices =~= wanted.notices);
    }
}

/// What one direction tells changes nothing about the other one.
pub proof fn directions_are_separate(
    conversation: Conversation,
    direction: Direction,
    other: Direction,
    news: News,
)
    requires
        direction != other,
    ensures
        conversation.after(direction, news).slots.contains_key(other)
            == conversation.slots.contains_key(other),
        conversation.after(direction, news).slots[other] == conversation.slots[other],
        conversation.after(direction, news).notices.contains_key(other)
            == conversation.notices.contains_key(other),
        conversation.after(direction, news).notices[other] == conversation.notices[other],
{
}

/// No translation is ever lost or changed, and only a translation adds one.
pub proof fn translations_stay(conversation: Conversation, direction: Direction, news: News)
    ensures
        conversation.entries.is_prefix_of(conversation.after(direction, news).entries),
        !(news is Translation) ==> conversation.after(direction, news).entries
            == conversation.entries,
{
}

/// No direction starts or stops by what it tells: those that run keep a slot each,
/// and the others get none.
pub proof fn slots_stay(conversation: Conversation, direction: Direction, news: News)
    ensures
        conversation.after(direction, news).slots.dom() == conversation.slots.dom(),
        conversation.after(direction, news).active == conversation.active,
{
    assert(conversation.after(direction, news).slots.dom() =~= conversation.slots.dom());
}

/// The colors of one direction, as red, green, blue, and opacity: the accent, and
/// the translucent fill behind a translation.
#[derive(Debug, Clone, Copy, PartialEq, Eq, Structural)]
pub struct DirectionPalette {
    pub accent: u32,
    pub fill: u32,
}

impl DirectionPalette {
    /// Relay is gold, self is teal.
    pub fn for_direction(direction: Direction) -> (palette: Self)
        ensures
            palette == (match direction {
                Direction::Relay => DirectionPalette { accent: 0xFFD700FF, fill: 0xFFD70030 },
                Direction::SelfMode => DirectionPalette { accent: 0x2DD4BFFF, fill: 0x2DD4BF30 },
            }),
    {
        match direction {
            Direction::Relay => DirectionPalette { accent: 0xFFD700FF, fill: 0xFFD70030 },
            Direction::SelfMode => DirectionPalette { accent: 0x2DD4BFFF, fill: 0x2DD4BF30 },
        }
    }

    pub fn label(direction: Direction) -> (label: &'static str)
        ensures
            label@ == direction_name(direction),
    {
        direction_tag(direction)
    }
}

/// The status of a direction in the header.
#[derive(Debug)]
pub struct Pill {
    pub direction: Direction,
    pub label: &'static str,
    pub stage: String,
}

impl DeepView for Pill {
    type V = (Direction, Seq<char>, Seq<char>);

    open spec fn deep_view(&self) -> (Direction, Seq<char>, Seq<char>) {
        (self.direction, self.label@, self.stage@)
    }
}

/// One block of the list.
#[derive(Debug)]
pub enum Line {
    /// A translation, under what was said.
    Entry { direction: Direction, label: &'static str, source: String, translated: String },
    /// What is being said.
    Partial { direction: Direction, label: &'static str, text: String },
    Error(String),
}

/// A [`Line`], in characters.
pub ghost enum Shown {
    Entry { direction: Direction, label: Seq<char>, source: Seq<char>, translated: Seq<char> },
    Partial { direction: Direction, label: Seq<char>, text: Seq<char> },
    Error(Seq<char>),
}

impl DeepView for Line {
    type V = Shown;

    open spec fn deep_view(&self) -> Shown {
        match *self {
            Line::Entry { direction, label, source, translated } => Shown::Entry {
                direction,
                label: label@,
                source: source@,
                translated: translated@,
            },
            Line::Partial { direction, label, text } => Shown::Partial {
                direction,
                label: label@,
                text: text@,
            },
            Line::Error(message) => Shown::Error(message@),
        }
    }
}

/// What the window shows.
#[derive(Debug)]
pub struct Screen {
    pub languages: String,
    pub pills: Vec<Pill>,
    pub model: String,
    pub lines: Vec<Line>,
}

impl Said {
    pub open spec fn line(self) -> Shown {
        Shown::Entry {
            direction: self.direction,
            label: direction_name(self.direction),
            source: self.source,
            translated: self.translated,
        }
    }
}

/// The line of an error.
pub open spec fn error_line(direction: Direction, message: Seq<char>) -> Shown {
    Shown::Error(direction_name(direction) + ": "@ + message)
}

impl Slot {
    /// The lines of a direction that runs: what is being said, if anything is, and
    /// the last error, if there is one.
    pub open spec fn lines(self, direction: Direction) -> Seq<Shown> {
        (if self.source_partial.len() > 0 {
            seq![
                Shown::Partial {
                    direction,
                    label: direction_name(direction),
                    text: self.source_partial,
                },
            ]
        } else {
            Seq::empty()
        }) + (match self.last_error {
            Some(message) => seq![error_line(direction, message)],
            None => Seq::empty(),
        })
    }
}

impl Conversation {
    /// The pill of `direction`.
    pub open spec fn pill(self, direction: Direction) -> (Direction, Seq<char>, Seq<char>) {
        let stage = if self.slots.contains_key(direction) {
            stage_name(self.slots[direction].stage)
        } else {
            "off"@
        };
        (direction, direction_name(direction), "· "@ + stage)
    }

    /// The pills of the directions that run.
    pub open spec fn pills(self) -> Seq<(Direction, Seq<char>, Seq<char>)> {
        self.active.map_values(|direction: Direction| self.pill(direction))
    }

    /// The lines of the first `count` directions that run.
    pub open spec fn live_lines(self, count: int) -> Seq<Shown>
        decreases count,
    {
        if count <= 0 {
            Seq::empty()
        } else {
            let direction = self.active[count - 1];
            self.live_lines(count - 1) + (if self.slots.contains_key(direction) {
                self.slots[direction].lines(direction)
            } else {
                Seq::empty()
            })
        }
    }

    /// The line that says why `direction` does not run.
    pub open spec fn notice_lines(self, direction: Direction) -> Seq<Shown> {
        if self.notices.contains_key(direction) {
            seq![error_line(direction, self.notices[direction])]
        } else {
            Seq::empty()
        }
    }

    /// The list: the translations, what the directions that run are doing, and why
    /// the others do not run.
    pub open spec fn lines(self) -> Seq<Shown> {
        self.entries.map_values(|said: Said| said.line()) + self.live_lines(
            self.active.len() as int,
        ) + self.notice_lines(Direction::Relay) + self.notice_lines(Direction::SelfMode)
    }
}

fn push_line(lines: &mut Vec<Line>, line: Line)
    ensures
        final(lines).deep_view() == old(lines).deep_view().push(line.deep_view()),
{
    lines.push(line);
    assert(lines.deep_view() =~= old(lines).deep_view().push(line.deep_view()));
}

fn error_text(direction: Direction, message: &String) -> (line: Line)
    ensures
        line.deep_view() == error_line(direction, message@),
{
    Line::Error(DirectionPalette::label(direction).to_owned().concat(": ").concat(message))
}

fn push_slot(lines: &mut Vec<Line>, direction: Direction, state: &DirectionState)
    ensures
        final(lines).deep_view() == old(lines).deep_view() + state@.lines(direction),
{
    if !state.source_partial.as_str().is_empty() {
        push_line(
            lines,
            Line::Partial {
                direction,
                label: DirectionPalette::label(direction),
                text: state.source_partial.clone(),
            },
        );
    }
    if let Some(message) = &state.last_error {
        push_line(lines, error_text(direction, message));
    }
    assert(lines.deep_view() =~= old(lines).deep_view() + state@.lines(direction));
}

impl JoyaApp {
    fn state(&self, direction: Direction) -> (state: &Option<DirectionState>)
        ensures
            *state == self.slot(direction),
    {
        match direction {
            Direction::Relay => &self.relay,
            Direction::SelfMode => &self.own,
        }
    }

    /// The languages, or `auto` for one that is to be detected.
    fn languages(&self) -> (header: String)
        ensures
            header@ == (match self.config().languages@.source {
                Some(source) => source,
                None => "auto"@,
            }) + " → "@ + self.config().languages@.target,
    {
        let source: String = match &self.config.languages.source {
            Some(source) => source.clone(),
            None => "auto".to_owned(),
        };
        source.concat(" → ").concat(&self.config.languages.target)
    }

    fn pills(&self) -> (pills: Vec<Pill>)
        ensures
            pills.deep_view() == self@.pills(),
    {
        let mut pills: Vec<Pill> = Vec::new();
        let mut at: usize = 0;
        while at < self.active_directions.len()
            invariant
                at <= self.active_directions@.len(),
                pills.deep_view() =~= self@.pills().take(at as int),
            decreases self.active_directions.len() - at,
        {
            let direction: Direction = self.active_directions[at];
            let stage: &str = match self.state(direction) {
                Some(state) => state.stage_label(),
                None => "off",
            };
            let pill = Pill {
                direction,
                label: DirectionPalette::label(direction),
                stage: "· ".to_owned().concat(stage),
            };
            assert(pill.deep_view() == self@.pill(direction));
            let ghost before = pills.deep_view();
            pills.push(pill);
            assert(pills.deep_view() =~= before.push(pill.deep_view()));
            at = at + 1;
        }
        pills
    }

    fn push_notice(&self, lines: &mut Vec<Line>, direction: Direction)
        ensures
            final(lines).deep_view() == old(lines).deep_view() + self@.notice_lines(direction),
    {
        let notice: &Option<String> = match direction {
            Direction::Relay => &self.relay_notice,
            Direction::SelfMode => &self.own_notice,
        };
        if let Some(message) = notice {
            push_line(lines, error_text(direction, message));
        }
        assert(lines.deep_view() =~= old(lines).deep_view() + self@.notice_lines(direction));
    }

    fn lines(&self) -> (lines: Vec<Line>)
        ensures
            lines.deep_view() == self@.lines(),
    {
        let mut lines: Vec<Line> = Vec::new();
        let mut at: usize = 0;
        while at < self.entries.len()
            invariant
                at <= self.entries@.len(),
                lines.deep_view() =~= self@.entries.map_values(|said: Said| said.line()).take(
                    at as int,
                ),
            decreases self.entries.len() - at,
        {
            let entry: &Entry = &self.entries[at];
            push_line(
                &mut lines,
                Line::Entry {
                    direction: entry.direction,
                    label: DirectionPalette::label(entry.direction),
                    source: entry.source.clone(),
                    translated: entry.translated.clone(),
                },
            );
            at = at + 1;
        }
        let ghost said = self@.entries.map_values(|said: Said| said.line());
        assert(lines.deep_view() =~= said + self@.live_lines(0));
        let mut live: usize = 0;
        while live < self.active_directions.len()
            invariant
                live <= self.active_directions@.len(),
                lines.deep_view() == said + self@.live_lines(live as int),
            decreases self.active_directions.len() - live,
        {
            let direction: Direction = self.active_directions[live];
            if let Some(state) = self.state(direction) {
                push_slot(&mut lines, direction, state);
            }
            assert(lines.deep_view() =~= said + self@.live_lines(live + 1));
            live = live + 1;
        }
        self.push_notice(&mut lines, Direction::Relay);
        self.push_notice(&mut lines, Direction::SelfMode);
        lines
    }

    /// What the window shows: the languages, the status of each direction that
    /// runs, the model, and the list.
    pub fn render(&self) -> (screen: Screen)
        ensures
            screen.languages@ == (match self.config().languages@.source {
                Some(source) => source,
                None => "auto"@,
            }) + " → "@ + self.config().languages@.target,
            screen.pills.deep_view() == self@.active.map_values(|d: Direction| self@.pill(d)),
            screen.model@ == "· "@ + self.config().cerebras.model@,
            screen.lines.deep_view() == self@.lines(),
    {
        Screen {
            languages: self.languages(),
            pills: self.pills(),
            model: "· ".to_owned().concat(&self.config.cerebras.model),
            lines: self.lines(),
        }
    }
}

/// A direction that is refused is shown with the reason.
pub proof fn refusal_is_shown(
    active: Seq<Direction>,
    direction: Direction,
    message: Seq<char>,
)
    requires
        !active.contains(direction),
    ensures
        Conversation::begun(active).after(direction, News::Error(message)).lines().contains(
            error_line(direction, message),
        ),
{
    let refused = Conversation::begun(active).after(direction, News::Error(message));
    let line = error_line(direction, message);
    let before = refused.entries.map_values(|said: Said| said.line()) + refused.live_lines(
        refused.active.len() as int,
    );
    let relay = refused.notice_lines(Direction::Relay);
    match direction {
        Direction::Relay => {
            assert(refused.lines()[before.len() as int] == line);
        },
        Direction::SelfMode => {
            assert(refused.lines()[(before + relay).len() as int] == line);
        },
    }
}

/// A translation is shown from then on.
pub proof fn translation_is_shown(
    conversation: Conversation,
    direction: Direction,
    source: Seq<char>,
    translated: Seq<char>,
)
    ensures
        conversation.after(direction, News::Translation { source, translated }).lines().contains(
            Said { direction, source, translated }.line(),
        ),
{
    let news = News::Translation { source, translated };
    let after = conversation.after(direction, news);
    assert(after.lines()[conversation.entries.len() as int] == (Said {
        direction,
        source,
        translated,
    }).line());
}

/// The next direction to start is the first one that waits and can start, with what it
/// needs. Those behind it go on waiting.
pub proof fn first_that_can_start_is_next(
    launch: Launch,
    config: Config,
    at: int,
    pipeline: Resolved,
)
    requires
        0 <= at < launch.waiting.len(),
        resolved(config, launch.waiting[at]) == Ok::<_, Seq<char>>(Some(pipeline)),
        forall|k: int|
            0 <= k < at ==> !(resolved(config, #[trigger] launch.waiting[k]) matches Ok(Some(_))),
    ensures
        launch.advanced(config).1 == Some((launch.waiting[at], pipeline)),
        launch.advanced(config).0.waiting == launch.waiting.skip(at + 1),
    decreases launch.waiting.len(),
{
    if at > 0 {
        let first = launch.waiting[0];
        let rest = Launch { waiting: launch.waiting.skip(1), ..launch };
        let next = match resolved(config, first) {
            Err(message) => Launch {
                told: launch.told.push((first, News::Error(message))),
                ..rest
            },
            _ => rest,
        };
        assert(next.waiting[at - 1] == launch.waiting[at]);
        assert forall|k: int| 0 <= k < at - 1 implies !(resolved(
            config,
            #[trigger] next.waiting[k],
        ) matches Ok(Some(_))) by {
            assert(next.waiting[k] == launch.waiting[k + 1]);
        }
        first_that_can_start_is_next(next, config, at - 1, pipeline);
        assert(launch.waiting.skip(1).skip(at) =~= launch.waiting.skip(at + 1));
    }
}

/// When none of those that wait can start, all have had their turn.
pub proof fn none_can_start(launch: Launch, config: Config)
    requires
        forall|k: int|
            0 <= k < launch.waiting.len() ==> !(resolved(
                config,
                #[trigger] launch.waiting[k],
            ) matches Ok(Some(_))),
    ensures
        launch.advanced(config).1 is None,
        launch.advanced(config).0.waiting.len() == 0,
    decreases launch.waiting.len(),
{
    if launch.waiting.len() > 0 {
        let first = launch.waiting[0];
        let rest = Launch { waiting: launch.waiting.skip(1), ..launch };
        let next = match resolved(config, first) {
            Err(message) => Launch {
                told: launch.told.push((first, News::Error(message))),
                ..rest
            },
            _ => rest,
        };
        assert forall|k: int| 0 <= k < next.waiting.len() implies !(resolved(
            config,
            #[trigger] next.waiting[k],
        ) matches Ok(Some(_))) by {
            assert(next.waiting[k] == launch.waiting[k + 1]);
        }
        none_can_start(next, config);
    }
}

/// Of the start the user is told nothing but why a direction that waited was refused.
pub proof fn only_refusals_are_told(launch: Launch, config: Config, at: int)
    requires
        launch.told.len() <= at < launch.advanced(config).0.told.len(),
    ensures
        ({
            let (direction, news) = launch.advanced(config).0.told[at];
            &&& launch.waiting.contains(direction)
            &&& resolved(config, direction) is Err
            &&& news == News::Error(resolved(config, direction)->Err_0)
        }),
    decreases launch.waiting.len(),
{
    if launch.waiting.len() > 0 {
        let first = launch.waiting[0];
        let rest = Launch { waiting: launch.waiting.skip(1), ..launch };
        match resolved(config, first) {
            Ok(Some(_)) => {},
            Ok(None) => {
                only_refusals_are_told(rest, config, at);
                let direction = launch.advanced(config).0.told[at].0;
                let k = choose|k: int|
                    0 <= k < rest.waiting.len() && rest.waiting[k] == direction;
                assert(launch.waiting[k + 1] == direction);
            },
            Err(message) => {
                let next = Launch {
                    told: launch.told.push((first, News::Error(message))),
                    ..rest
                };
                if at >= next.told.len() {
                    only_refusals_are_told(next, config, at);
                    let direction = launch.advanced(config).0.told[at].0;
                    let k = choose|k: int|
                        0 <= k < next.waiting.len() && next.waiting[k] == direction;
                    assert(launch.waiting[k + 1] == direction);
                } else {
                    reveal_with_fuel(Launch::advanced, 2);
                    if next.waiting.len() > 0 {
                        refusals_are_told(next, config, 0);
                    }
                    assert(next.told.is_prefix_of(next.advanced(config).0.told));
                    assert(launch.advanced(config).0.told[at] == next.told[at]);
                    assert(launch.waiting[0] == first);
                }
            },
        }
    }
}

/// What a direction that runs tells changes what it is known for, and nothing else: what
/// is being said, the stage, or the last error. A translation is kept with what was said,
/// behind the earlier ones, and ends what was being said and the last error.
pub proof fn news_is_taken(conversation: Conversation, direction: Direction, news: News)
    requires
        conversation.slots.contains_key(direction),
    ensures
        ({
            let after = conversation.after(direction, news);
            let old_slot = conversation.slots[direction];
            let slot = after.slots[direction];
            &&& after.notices == conversation.notices
            &&& news matches News::SourcePartial(text) ==> {
                &&& slot.source_partial == text
                &&& slot.stage == old_slot.stage
                &&& slot.last_error == old_slot.last_error
                &&& after.entries == conversation.entries
            }
            &&& news matches News::SourceFinal(text) ==> {
                &&& slot.source_partial == text
                &&& slot.stage == old_slot.stage
                &&& slot.last_error == old_slot.last_error
                &&& after.entries == conversation.entries
            }
            &&& news matches News::Translation { source, translated } ==> {
                &&& slot.source_partial.len() == 0
                &&& slot.stage == old_slot.stage
                &&& slot.last_error is None
                &&& after.entries.len() == conversation.entries.len() + 1
                &&& after.entries.last().direction == direction
                &&& after.entries.last().source == source
                &&& after.entries.last().translated == translated
            }
            &&& news matches News::Stage(stage) ==> {
                &&& slot.source_partial == old_slot.source_partial
                &&& slot.stage == stage
                &&& slot.last_error == old_slot.last_error
                &&& after.entries == conversation.entries
            }
            &&& news matches News::Error(message) ==> {
                &&& slot.source_partial == old_slot.source_partial
                &&& slot.stage == old_slot.stage
                &&& slot.last_error == Some(message)
                &&& after.entries == conversation.entries
            }
        }),
{
}

/// Of a direction that does not run, the last error is kept, and its translations.
pub proof fn errors_of_the_others_are_kept(
    conversation: Conversation,
    direction: Direction,
    news: News,
)
    requires
        !conversation.slots.contains_key(direction),
    ensures
        ({
            let after = conversation.after(direction, news);
            &&& after.slots == conversation.slots
            &&& news matches News::Error(message) ==> {
                &&& after.notices.contains_key(direction)
                &&& after.notices[direction] == message
                &&& after.entries == conversation.entries
            }
            &&& !(news is Error) ==> after.notices == conversation.notices
            &&& news matches News::Translation { source, translated } ==> {
                &&& after.entries.len() == conversation.entries.len() + 1
                &&& after.entries.last().direction == direction
                &&& after.entries.last().source == source
                &&& after.entries.last().translated == translated
            }
        }),
{
}

/// A direction that has just started listens, and nothing has been said or gone wrong.
pub proof fn directions_start_afresh(active: Seq<Direction>, direction: Direction)
    requires
        active.contains(direction),
    ensures
        ({
            let slot = Conversation::begun(active).slots[direction];
            &&& slot.source_partial.len() == 0
            &&& slot.stage == Stage::Listening
            &&& slot.last_error is None
        }),
{
}

/// The list begins with the translations, oldest first, each with its direction, what was
/// said, and what it means.
pub proof fn translations_are_listed_first(conversation: Conversation, at: int)
    requires
        0 <= at < conversation.entries.len(),
    ensures
        conversation.entries.len() <= conversation.lines().len(),
        conversation.lines()[at] == (Shown::Entry {
            direction: conversation.entries[at].direction,
            label: match conversation.entries[at].direction {
                Direction::Relay => "relay"@,
                Direction::SelfMode => "self"@,
            },
            source: conversation.entries[at].source,
            translated: conversation.entries[at].translated,
        }),
{
}

/// What a direction is doing takes a line for what is being said, if anything is, and
/// then one for the last error, if there is one.
pub proof fn state_takes_its_lines(slot: Slot, direction: Direction)
    ensures
        ({
            let lines = slot.lines(direction);
            let label = match direction {
                Direction::Relay => "relay"@,
                Direction::SelfMode => "self"@,
            };
            let said = slot.source_partial.len() > 0;
            &&& lines.len() == (if said {
                1int
            } else {
                0
            }) + (if slot.last_error is Some {
                1int
            } else {
                0
            })
            &&& said ==> lines[0] == (Shown::Partial {
                direction,
                label,
                text: slot.source_partial,
            })
            &&& slot.last_error matches Some(message) ==> lines.last() == Shown::Error(
                label + ": "@ + message,
            )
        }),
{
}

proof fn lemma_live_lines_hold(conversation: Conversation, count: int, at: int, line: Shown)
    requires
        0 <= at < count <= conversation.active.len(),
        conversation.slots.contains_key(conversation.active[at]),
        conversation.slots[conversation.active[at]].lines(conversation.active[at]).contains(line),
    ensures
        conversation.live_lines(count).contains(line),
    decreases count,
{
    let before = conversation.live_lines(count - 1);
    if at < count - 1 {
        lemma_live_lines_hold(conversation, count - 1, at, line);
        let k = choose|k: int| 0 <= k < before.len() && before[k] == line;
        assert(conversation.live_lines(count)[k] == line);
    } else {
        let lines = conversation.slots[conversation.active[at]].lines(conversation.active[at]);
        let k = choose|k: int| 0 <= k < lines.len() && lines[k] == line;
        assert(conversation.live_lines(count)[before.len() + k] == line);
    }
}

/// What is being said in a direction that runs is in the list, and so is its last error.
pub proof fn live_state_is_shown(conversation: Conversation, at: int)
    requires
        0 <= at < conversation.active.len(),
        conversation.slots.contains_key(conversation.active[at]),
    ensures
        ({
            let direction = conversation.active[at];
            let slot = conversation.slots[direction];
            let label = match direction {
                Direction::Relay => "relay"@,
                Direction::SelfMode => "self"@,
            };
            &&& slot.source_partial.len() > 0 ==> conversation.lines().contains(
                Shown::Partial { direction, label, text: slot.source_partial },
            )
            &&& slot.last_error matches Some(message) ==> conversation.lines().contains(
                Shown::Error(label + ": "@ + message),
            )
        }),
{
    let direction = conversation.active[at];
    let slot = conversation.slots[direction];
    let lines = slot.lines(direction);
    let count = conversation.active.len() as int;
    let live = conversation.live_lines(count);
    let said = conversation.entries.len();
    state_takes_its_lines(slot, direction);
    assert forall|line: Shown| #[trigger] lines.contains(line) implies conversation.lines().contains(
        line,
    ) by {
        lemma_live_lines_hold(conversation, count, at, line);
        let k = choose|k: int| 0 <= k < live.len() && live[k] == line;
        assert(conversation.lines()[said + k] == line);
    }
    if slot.source_partial.len() > 0 {
        assert(lines.contains(lines[0]));
    }
    if slot.last_error is Some {
        assert(lines.contains(lines.last()));
    }
}

proof fn lemma_live_line_origin(conversation: Conversation, count: int, k: int) -> (at: int)
    requires
        0 <= count <= conversation.active.len(),
        0 <= k < conversation.live_lines(count).len(),
    ensures
        0 <= at < count,
        conversation.slots.contains_key(conversation.active[at]),
        conversation.slots[conversation.active[at]].lines(conversation.active[at]).contains(
            conversation.live_lines(count)[k],
        ),
    decreases count,
{
    let before = conversation.live_lines(count - 1);
    if k < before.len() {
        lemma_live_line_origin(conversation, count - 1, k)
    } else {
        let direction = conversation.active[count - 1];
        let lines = conversation.slots[direction].lines(direction);
        assert(conversation.live_lines(count)[k] == lines[k - before.len()]);
        count - 1
    }
}

/// The list shows nothing behind the translations but what is being said in a direction
/// that runs, its last error, and why a direction does not run.
pub proof fn nothing_else_is_shown(conversation: Conversation, at: int)
    requires
        conversation.entries.len() <= at < conversation.lines().len(),
    ensures
        match conversation.lines()[at] {
            Shown::Entry { .. } => false,
            Shown::Partial { direction, text, .. } => {
                &&& conversation.active.contains(direction)
                &&& conversation.slots.contains_key(direction)
                &&& conversation.slots[direction].source_partial == text
            },
            Shown::Error(message) => exists|direction: Direction, reason: Seq<char>|
                #![trigger error_line(direction, reason)]
                {
                    &&& Shown::Error(message) == error_line(direction, reason)
                    &&& {
                        ||| conversation.active.contains(direction)
                            && conversation.slots.contains_key(direction)
                            && conversation.slots[direction].last_error == Some(reason)
                        ||| conversation.notices.contains_key(direction)
                            && conversation.notices[direction] == reason
                    }
                },
        },
{
    let said = conversation.entries.len();
    let count = conversation.active.len() as int;
    let live = conversation.live_lines(count);
    let line = conversation.lines()[at];
    if at < said + live.len() {
        assert(line == live[at - said]);
        let which = lemma_live_line_origin(conversation, count, at - said);
        let direction = conversation.active[which];
        let slot = conversation.slots[direction];
        let lines = slot.lines(direction);
        let k = choose|k: int| 0 <= k < lines.len() && lines[k] == line;
        assert(conversation.active.contains(direction));
        if line is Error {
            let reason = slot.last_error->0;
            assert(line == error_line(direction, reason));
        }
    } else {
        let relay = conversation.notice_lines(Direction::Relay);
        if at < said + live.len() + relay.len() {
            assert(line == relay[0]);
            assert(line == error_line(
                Direction::Relay,
                conversation.notices[Direction::Relay],
            ));
        } else {
            let own = conversation.notice_lines(Direction::SelfMode);
            assert(line == own[0]);
            assert(line == error_line(
                Direction::SelfMode,
                conversation.notices[Direction::SelfMode],
            ));
        }
    }
}

/// Why a direction does not run is in the list.
pub proof fn reasons_are_shown(conversation: Conversation, direction: Direction)
    requires
        conversation.notices.contains_key(direction),
    ensures
        conversation.lines().contains(
            Shown::Error(
                (match direction {
                    Direction::Relay => "relay"@,
                    Direction::SelfMode => "self"@,
                }) + ": "@ + conversation.notices[direction],
            ),
        ),
{
    let before = conversation.entries.len() + conversation.live_lines(
        conversation.active.len() as int,
    ).len();
    let relay = conversation.notice_lines(Direction::Relay);
    match direction {
        Direction::Relay => {
            assert(conversation.lines()[before as int] == relay[0]);
        },
        Direction::SelfMode => {
            let own = conversation.notice_lines(Direction::SelfMode);
            assert(conversation.lines()[(before + relay.len()) as int] == own[0]);
        },
    }
}

/// The directions that run are shown in the order of their start.
pub proof fn live_lines_are_in_order(conversation: Conversation, first: Direction, second: Direction)
    requires
        conversation.active == seq![first, second],
        conversation.slots.contains_key(first),
        conversation.slots.contains_key(second),
    ensures
        conversation.live_lines(2) == conversation.slots[first].lines(first)
            + conversation.slots[second].lines(second),
{
    reveal_with_fuel(Conversation::live_lines, 3);
    assert(conversation.live_lines(2) =~= conversation.slots[first].lines(first)
        + conversation.slots[second].lines(second));
}

/// The pill of a direction names the direction and its stage, or says that it is off.
pub proof fn pill_names_the_stage(conversation: Conversation, direction: Direction)
    ensures
        ({
            let pill = conversation.pill(direction);
            &&& pill.0 == direction
            &&& pill.1 == (match direction {
                Direction::Relay => "relay"@,
                Direction::SelfMode => "self"@,
            })
            &&& pill.2 == "· "@ + (if !conversation.slots.contains_key(direction) {
                "off"@
            } else {
                match conversation.slots[direction].stage {
                    Stage::Listening => "listening"@,
                    Stage::Transcribing => "transcribing"@,
                    Stage::Translating => "translating"@,
                    Stage::Speaking => "speaking"@,
                }
            })
        }),
{
}

/// A line shows what it holds.
pub proof fn lines_show_what_they_hold(
    direction: Direction,
    label: &'static str,
    source: String,
    translated: String,
)
    ensures
        (Line::Entry { direction, label, source, translated }).deep_view() == (Shown::Entry {
            direction,
            label: label@,
            source: source@,
            translated: translated@,
        }),
        (Line::Partial { direction, label, text: source }).deep_view() == (Shown::Partial {
            direction,
            label: label@,
            text: source@,
        }),
        Line::Error(source).deep_view() == Shown::Error(source@),
{
}

}
