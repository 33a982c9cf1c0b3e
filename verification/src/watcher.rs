//! The keyboard watcher's decisions: which capture session should run for the
//! published keyboard, which captured inputs still count, and what each of
//! them dispatches.
//!
//! One session runs at a time. It is replaced when the keyboard or the set of
//! diverted controls changes, and it gives way while pairing asks for the
//! receiver. Every session has an identity of its own, so that what a replaced
//! session still sends is recognised and dropped.

use vstd::prelude::*;

use crate::binding::{Action, Binding, BindingMap, ButtonId, GestureDirection};
use crate::control_table::KeyboardCaptureTargets;
use crate::crown_mode::{CrownModes, Position};
use crate::translator::CapturedInput;

verus! {

/// How often, in milliseconds, to re-read the published keyboard, so that a
/// config edit, an overlay change or a reconnect re-points the session.
pub const TARGET_POLL_MILLIS: u64 = 1000;

/// One capture session's identity: the keyboard's stable config key, and a
/// number that distinguishes the sessions run for it.
#[derive(Debug, PartialEq, Eq)]
pub struct HidppSessionId {
    config_key: String,
    epoch: u64,
}

/// A session's identity.
pub struct IdView {
    /// The keyboard's config key.
    pub config_key: Seq<char>,
    /// The session's number.
    pub epoch: u64,
}

impl View for HidppSessionId {
    type V = IdView;

    closed spec fn view(&self) -> IdView {
        IdView { config_key: self.config_key@, epoch: self.epoch }
    }
}

impl Clone for HidppSessionId {
    fn clone(&self) -> (r: Self)
        ensures
            r@ == self@,
    {
        HidppSessionId { config_key: self.config_key.clone(), epoch: self.epoch }
    }
}

impl HidppSessionId {
    /// The session of this number for the keyboard with this config key.
    pub fn new(config_key: &str, epoch: u64) -> (r: Self)
        ensures
            r@ == (IdView { config_key: config_key@, epoch }),
    {
        HidppSessionId { config_key: config_key.to_owned(), epoch }
    }

    /// The session's number.
    pub fn epoch(&self) -> (r: u64)
        ensures
            r == self@.epoch,
    {
        self.epoch
    }

    /// The keyboard's config key.
    pub fn config_key(&self) -> (r: &str)
        ensures
            r@ == self@.config_key,
    {
        self.config_key.as_str()
    }

    /// Whether both identify the same session.
    pub fn same(&self, other: &HidppSessionId) -> (r: bool)
        ensures
            r == (self@ == other@),
    {
        self.config_key == other.config_key && self.epoch == other.epoch
    }
}

/// Where a device is: a HID node, and the device's index behind it.
#[derive(Debug, PartialEq, Eq)]
pub struct DeviceRoute {
    /// The HID node's path.
    pub node: String,
    /// The device's index on it.
    pub index: u8,
}

/// Where a device is.
pub struct RouteView {
    /// The HID node's path.
    pub node: Seq<char>,
    /// The device's index on it.
    pub index: u8,
}

impl View for DeviceRoute {
    type V = RouteView;

    open spec fn view(&self) -> RouteView {
        RouteView { node: self.node@, index: self.index }
    }
}

impl Clone for DeviceRoute {
    fn clone(&self) -> (r: Self)
        ensures
            r@ == self@,
    {
        DeviceRoute { node: self.node.clone(), index: self.index }
    }
}

impl DeviceRoute {
    /// The device's index behind its HID node.
    pub fn device_index(&self) -> (r: u8)
        ensures
            r == self@.index,
    {
        self.index
    }

    /// Whether both reach the same device.
    pub fn same(&self, other: &DeviceRoute) -> (r: bool)
        ensures
            r == (self@ == other@),
    {
        self.node == other.node && self.index == other.index
    }
}

/// Everything needed to capture one keyboard: where it is, which controls to
/// divert, and the bindings its inputs dispatch through.
///
/// The crown modes are not part of it: a tap changes the active mode without
/// any change here, so they are consulted per event.
#[derive(Debug)]
pub struct KeyboardSpec {
    /// Stable config key, which scopes cancellation and hardware actions.
    pub config_key: String,
    /// Where the keyboard is.
    pub route: DeviceRoute,
    /// The controls and the crown to divert, for exactly the bound ones.
    pub targets: KeyboardCaptureTargets,
    /// The binding in effect for each control.
    pub bindings: BindingMap,
}

/// A keyboard to capture.
pub struct SpecView {
    /// Stable config key.
    pub config_key: Seq<char>,
    /// Where the keyboard is.
    pub route: RouteView,
    /// What to divert.
    pub targets: crate::control_table::TargetsView,
    /// The binding in effect for each control.
    pub bindings: Map<ButtonId, Binding>,
}

impl View for KeyboardSpec {
    type V = SpecView;

    open spec fn view(&self) -> SpecView {
        SpecView {
            config_key: self.config_key@,
            route: self.route@,
            targets: self.targets@,
            bindings: self.bindings@,
        }
    }
}

impl Clone for KeyboardSpec {
    fn clone(&self) -> (r: Self)
        ensures
            r@ == self@,
    {
        KeyboardSpec {
            config_key: self.config_key.clone(),
            route: self.route.clone(),
            targets: self.targets.clone(),
            bindings: self.bindings.clone(),
        }
    }
}

/// What identifies a session's hardware side. Bindings are left out: they may
/// change without a restart while the diverted controls stay the same.
#[derive(Debug)]
pub struct KeyboardTarget {
    /// The keyboard's config key.
    pub config_key: String,
    /// Where the keyboard is.
    pub route: DeviceRoute,
    /// What to divert.
    pub targets: KeyboardCaptureTargets,
}

/// What identifies a session's hardware side.
pub struct TargetView {
    /// The keyboard's config key.
    pub config_key: Seq<char>,
    /// Where the keyboard is.
    pub route: RouteView,
    /// What to divert.
    pub targets: crate::control_table::TargetsView,
}

impl View for KeyboardTarget {
    type V = TargetView;

    open spec fn view(&self) -> TargetView {
        TargetView {
            config_key: self.config_key@,
            route: self.route@,
            targets: self.targets@,
        }
    }
}

/// The target of a session that captures `spec`.
pub open spec fn target_of(spec: SpecView) -> TargetView {
    TargetView { config_key: spec.config_key, route: spec.route, targets: spec.targets }
}

impl KeyboardTarget {
    /// The target of a session that captures `spec`.
    pub fn for_spec(spec: &KeyboardSpec) -> (r: Self)
        ensures
            r@ == target_of(spec@),
    {
        KeyboardTarget {
            config_key: spec.config_key.clone(),
            route: spec.route.clone(),
            targets: spec.targets.clone(),
        }
    }

    /// Whether a session with this target still captures `spec`.
    pub fn matches(&self, spec: &KeyboardSpec) -> (r: bool)
        ensures
            r == (self@ == target_of(spec@)),
    {
        self.config_key == spec.config_key && self.route.same(&spec.route) && self.targets.same(
            &spec.targets,
        )
    }
}

/// The rotation control a chord direction stands in for, or `None` for the
/// click, which is a press and not a rotation, and for the sideways directions.
pub open spec fn rotation_of(direction: GestureDirection) -> Option<ButtonId> {
    match direction {
        GestureDirection::Up => Some(ButtonId::CrownRotateUp),
        GestureDirection::Down => Some(ButtonId::CrownRotateDown),
        _ => None,
    }
}

/// The rotation control a chord direction stands in for.
pub fn rotation_control(direction: GestureDirection) -> (r: Option<ButtonId>)
    ensures
        r == rotation_of(direction),
{
    match direction {
        GestureDirection::Up => Some(ButtonId::CrownRotateUp),
        GestureDirection::Down => Some(ButtonId::CrownRotateDown),
        GestureDirection::Left | GestureDirection::Right | GestureDirection::Click => None,
    }
}

/// Whether `binding` makes `button` a chord holder rather than an ordinary
/// press. Only the crown press chords: any other diverted control is a key,
/// which has no way to produce a direction.
pub open spec fn chords(button: ButtonId, binding: Option<Binding>) -> bool {
    button == ButtonId::CrownPress && binding is Some && binding->0 is Gesture
}

/// Whether `binding` makes `button` a chord holder.
pub fn is_chord_binding(button: ButtonId, binding: Option<Binding>) -> (r: bool)
    ensures
        r == chords(button, binding),
{
    match binding {
        Some(Binding::Gesture(_)) => button == ButtonId::CrownPress,
        _ => false,
    }
}

/// The device positions a reader of the crown modes sees; `None` when they
/// cannot be read.
pub open spec fn readable(modes: Option<&CrownModes>) -> Option<Map<Seq<char>, Position>> {
    match modes {
        Some(modes) => Some(modes@),
        None => None,
    }
}

/// The active crown mode's binding for `button`, if a mode claims it.
pub open spec fn claimed(
    modes: Option<Map<Seq<char>, Position>>,
    config_key: Seq<char>,
    button: ButtonId,
) -> Option<Binding> {
    match modes {
        Some(positions) => if positions.contains_key(config_key) {
            match positions[config_key].assigns(button) {
                Some(action) => Some(Binding::Single(action)),
                None => None,
            }
        } else {
            None
        },
        None => None,
    }
}

/// The binding in force for `button`: the active crown mode's first, then the
/// keyboard's own.
pub open spec fn in_force(
    spec: SpecView,
    modes: Option<Map<Seq<char>, Position>>,
    button: ButtonId,
) -> Option<Binding> {
    match claimed(modes, spec.config_key, button) {
        Some(binding) => Some(binding),
        None => if spec.bindings.contains_key(button) {
            Some(spec.bindings[button])
        } else {
            None
        },
    }
}

/// The active crown mode's binding for `button`, if a mode claims it. `None`
/// means to fall through to the ordinary binding: this device has no modes,
/// the active mode leaves the control alone, or the modes cannot be read.
pub fn mode_binding(
    spec: &KeyboardSpec,
    modes: Option<&CrownModes>,
    button: ButtonId,
) -> (r: Option<Binding>)
    ensures
        r == claimed(readable(modes), spec@.config_key, button),
{
    match modes {
        Some(modes) => match modes.action_for(Some(spec.config_key.as_str()), button) {
            Some(action) => Some(Binding::Single(*action)),
            None => None,
        },
        None => None,
    }
}

/// The binding in force for `button`: the active crown mode's first, then the
/// keyboard's own.
pub fn effective_binding(
    spec: &KeyboardSpec,
    modes: Option<&CrownModes>,
    button: ButtonId,
) -> (r: Option<Binding>)
    ensures
        r == in_force(spec@, readable(modes), button),
{
    match mode_binding(spec, modes, button) {
        Some(binding) => Some(binding),
        None => spec.bindings.get(button),
    }
}

/// A live press, as the dispatcher numbers it.
#[derive(Debug, Clone, Copy, PartialEq, Eq, Structural)]
pub struct PressToken(pub u64);

/// The crown press's live token, while it is holding a chord.
///
/// Press-and-rotate dispatches each detent against the press, so that the
/// direction shares the press's cancellation. Only one keyboard captures at a
/// time and only the crown press chords, so one slot is enough.
#[derive(Debug, Clone, Copy, PartialEq, Eq, Structural)]
pub struct CrownChord(pub Option<PressToken>);

impl Default for CrownChord {
    fn default() -> (r: Self)
        ensures
            r == CrownChord(None),
    {
        CrownChord(None)
    }
}

/// What one input asks of the dispatcher.
#[derive(Debug, Clone, Copy, PartialEq, Eq, Structural)]
pub enum Dispatch {
    /// Begin a press with this binding. A chorded press keeps its token.
    Down {
        /// The control.
        button: ButtonId,
        /// What the press runs.
        binding: Option<Binding>,
        /// Whether the press holds a chord.
        chorded: bool,
    },
    /// End a press.
    Up {
        /// The control.
        button: ButtonId,
    },
    /// Run a binding once.
    Pulse {
        /// The control.
        button: ButtonId,
        /// What it runs.
        binding: Option<Binding>,
    },
    /// Run an action, if this press is still live.
    WhilePressed {
        /// The press.
        press: PressToken,
        /// The action.
        action: Action,
    },
    /// Nothing.
    Nothing,
}

/// The action bound to a chord direction, if there is one to run.
pub open spec fn chord_action(
    spec: SpecView,
    modes: Option<Map<Seq<char>, Position>>,
    button: ButtonId,
    direction: GestureDirection,
) -> Option<Action> {
    match in_force(spec, modes, button) {
        Some(Binding::Gesture(map)) => match map.at(direction) {
            Some(action) => if action != Action::NoAction {
                Some(action)
            } else {
                None
            },
            None => None,
        },
        _ => None,
    }
}

/// What one press-and-rotate direction dispatches.
pub open spec fn chord_dispatch(
    spec: SpecView,
    modes: Option<Map<Seq<char>, Position>>,
    chord: CrownChord,
    button: ButtonId,
    direction: GestureDirection,
) -> Dispatch {
    match chord_action(spec, modes, button, direction) {
        Some(action) => match chord.0 {
            Some(press) => Dispatch::WhilePressed { press, action },
            None => Dispatch::Nothing,
        },
        None => match rotation_of(direction) {
            Some(rotation) => Dispatch::Pulse {
                button: rotation,
                binding: in_force(spec, modes, rotation),
            },
            None => Dispatch::Nothing,
        },
    }
}

/// What one input dispatches.
pub open spec fn dispatched(
    spec: SpecView,
    modes: Option<Map<Seq<char>, Position>>,
    chord: CrownChord,
    input: CapturedInput,
) -> Dispatch {
    match input {
        CapturedInput::ButtonDown(button) => {
            let binding = in_force(spec, modes, button);
            let chorded = chords(button, binding);
            Dispatch::Down {
                button,
                binding: if chorded {
                    None
                } else {
                    binding
                },
                chorded,
            }
        },
        CapturedInput::ButtonUp(button) => Dispatch::Up { button },
        CapturedInput::ButtonPulse(button) => Dispatch::Pulse {
            button,
            binding: in_force(spec, modes, button),
        },
        CapturedInput::Gesture(button, direction) => chord_dispatch(
            spec,
            modes,
            chord,
            button,
            direction,
        ),
        CapturedInput::Scroll { .. } => Dispatch::Nothing,
    }
}

/// What is left of a chord after one input: the crown coming up ends it.
pub open spec fn chord_after(chord: CrownChord, input: CapturedInput) -> CrownChord {
    if input == CapturedInput::ButtonUp(ButtonId::CrownPress) {
        CrownChord(None)
    } else {
        chord
    }
}

/// Decide one press-and-rotate direction, or fall back to plain rotation.
///
/// Whoever reports the direction cannot see bindings. So an unbound chord is
/// resolved here, back to the rotation control it would have been, which keeps
/// a held dial doing its ordinary rotation for everyone who has bound no chord.
pub fn dispatch_crown_chord(
    button: ButtonId,
    direction: GestureDirection,
    spec: &KeyboardSpec,
    modes: Option<&CrownModes>,
    chord: &CrownChord,
) -> (r: Dispatch)
    ensures
        r == chord_dispatch(spec@, readable(modes), *chord, button, direction),
{
    let bound: Option<Action> = match effective_binding(spec, modes, button) {
        Some(Binding::Gesture(map)) => map.get(direction),
        _ => None,
    };
    if let Some(action) = bound {
        if action != Action::NoAction {
            // Against the press, so the direction inherits its cancellation.
            return match chord.0 {
                Some(press) => Dispatch::WhilePressed { press, action },
                None => Dispatch::Nothing,
            };
        }
    }
    // Unbound. The click has nothing to fall back to, but a rotation does.
    match rotation_control(direction) {
        Some(rotation) => Dispatch::Pulse {
            button: rotation,
            binding: effective_binding(spec, modes, rotation),
        },
        None => Dispatch::Nothing,
    }
}

/// Decide what one accepted input dispatches.
///
/// A crown press with a chord map runs nothing on the down edge: the press is
/// not yet committed to being a click, and a turn is still free to claim it.
pub fn dispatch_input(
    input: CapturedInput,
    spec: &KeyboardSpec,
    modes: Option<&CrownModes>,
    chord: &mut CrownChord,
) -> (r: Dispatch)
    ensures
        r == dispatched(spec@, readable(modes), *old(chord), input),
        *final(chord) == chord_after(*old(chord), input),
        input matches CapturedInput::ButtonUp(button) ==> r == (Dispatch::Up { button }),
        input matches CapturedInput::ButtonDown(button) ==> (r matches Dispatch::Down {
            button: begun,
            ..
        } && begun == button),
        input == CapturedInput::ButtonUp(ButtonId::CrownPress) ==> final(chord).0 is None,
        input != CapturedInput::ButtonUp(ButtonId::CrownPress) ==> *final(chord) == *old(chord),
{
    match input {
        CapturedInput::ButtonDown(button) => {
            let effective = effective_binding(spec, modes, button);
            let chorded: bool = is_chord_binding(button, effective);
            let binding = if chorded {
                None
            } else {
                effective
            };
            Dispatch::Down { button, binding, chorded }
        },
        CapturedInput::ButtonUp(button) => {
            if button == ButtonId::CrownPress {
                *chord = CrownChord(None);
            }
            Dispatch::Up { button }
        },
        CapturedInput::ButtonPulse(button) => Dispatch::Pulse {
            button,
            binding: effective_binding(spec, modes, button),
        },
        CapturedInput::Gesture(button, direction) => dispatch_crown_chord(
            button,
            direction,
            spec,
            modes,
            chord,
        ),
        CapturedInput::Scroll { .. } => Dispatch::Nothing,
    }
}

/// The target a session should have: the published keyboard's, unless pairing
/// currently owns capture.
pub open spec fn wanted(exclusive: bool, live: Option<SpecView>) -> Option<TargetView> {
    if exclusive {
        None
    } else {
        match live {
            Some(spec) => Some(target_of(spec)),
            None => None,
        }
    }
}

/// The published keyboard, if there is one.
pub open spec fn published(live: Option<&KeyboardSpec>) -> Option<SpecView> {
    match live {
        Some(spec) => Some(spec@),
        None => None,
    }
}

/// The target a session should have: the published keyboard's, unless pairing
/// currently owns capture.
pub fn wanted_session(exclusive: bool, live: Option<&KeyboardSpec>) -> (r: Option<KeyboardTarget>)
    ensures
        match r {
            Some(target) => wanted(exclusive, published(live)) == Some(target@),
            None => wanted(exclusive, published(live)) is None,
        },
{
    if exclusive {
        return None;
    }
    match live {
        Some(spec) => Some(KeyboardTarget::for_spec(spec)),
        None => None,
    }
}

/// A session that runs, or is to run.
#[derive(Debug)]
pub struct RunningKeyboardSession {
    /// Its identity.
    pub id: HidppSessionId,
    /// What it captures.
    pub target: KeyboardTarget,
}

/// A session that runs, or is to run.
pub struct RunningView {
    /// Its identity.
    pub id: IdView,
    /// What it captures.
    pub target: TargetView,
}

impl View for RunningKeyboardSession {
    type V = RunningView;

    open spec fn view(&self) -> RunningView {
        RunningView { id: self.id@, target: self.target@ }
    }
}

/// What to do with one input.
#[derive(Debug)]
pub enum Hearing {
    /// No session runs: drop it.
    Drop,
    /// It does not come from the session that should run: cancel what its
    /// session still has in flight, and drop it.
    Cancel,
    /// Run this.
    Run(Dispatch),
}

/// What one look at the published keyboard asks for.
#[derive(Debug)]
pub enum Tick {
    /// Nothing: the right session runs, or none should.
    Keep,
    /// Cancel what this session has in flight, and stop it.
    Stop(HidppSessionId),
    /// Start this session, if the receiver can be leased.
    Start(RunningKeyboardSession),
}

/// What one look at the published keyboard asks for.
pub enum TickView {
    /// Nothing.
    Keep,
    /// Stop this session.
    Stop(IdView),
    /// Start this session.
    Start(RunningView),
}

impl View for Tick {
    type V = TickView;

    open spec fn view(&self) -> TickView {
        match self {
            Tick::Keep => TickView::Keep,
            Tick::Stop(id) => TickView::Stop(id@),
            Tick::Start(session) => TickView::Start(session@),
        }
    }
}

/// The watcher's state.
#[verifier::ext_equal]
pub struct WatcherView {
    /// The session that runs.
    pub current: Option<RunningView>,
    /// The chord the crown press holds.
    pub chord: CrownChord,
    /// The number of the session started last.
    pub epoch: u64,
}

/// The number after `epoch`, starting over past the largest.
pub open spec fn next_epoch(epoch: u64) -> u64 {
    if epoch == u64::MAX {
        0
    } else {
        (epoch + 1) as u64
    }
}

impl WatcherView {
    /// Whether an input of `session` is from the session that runs and should
    /// run.
    pub open spec fn accepts(
        self,
        session: IdView,
        exclusive: bool,
        live: Option<SpecView>,
    ) -> bool {
        &&& self.current matches Some(running)
        &&& session == running.id
        &&& wanted(exclusive, live) == Some(running.target)
    }

    /// Whether the session that runs is the one that should.
    pub open spec fn settled(self, want: Option<TargetView>) -> bool {
        self.current matches Some(running) && want == Some(running.target)
    }

    /// What a look asks for when `want` is the target a session should have.
    pub open spec fn asks(self, want: Option<TargetView>) -> TickView {
        if self.settled(want) {
            TickView::Keep
        } else {
            match (self.current, want) {
                (Some(running), _) => TickView::Stop(running.id),
                (None, Some(target)) => TickView::Start(
                    RunningView {
                        id: IdView {
                            config_key: target.config_key,
                            epoch: next_epoch(self.epoch),
                        },
                        target,
                    },
                ),
                (None, None) => TickView::Keep,
            }
        }
    }

    /// The state after such a look.
    pub open spec fn after_tick(self, want: Option<TargetView>) -> WatcherView {
        match self.asks(want) {
            TickView::Keep => self,
            TickView::Stop(_) => WatcherView { current: None, ..self },
            TickView::Start(_) => WatcherView { epoch: next_epoch(self.epoch), ..self },
        }
    }
}

/// Keeps one capture session pointed at the published keyboard.
#[derive(Debug)]
pub struct Watcher {
    current: Option<RunningKeyboardSession>,
    chord: CrownChord,
    epoch: u64,
}

impl View for Watcher {
    type V = WatcherView;

    closed spec fn view(&self) -> WatcherView {
        WatcherView {
            current: match self.current {
                Some(running) => Some(running@),
                None => None,
            },
            chord: self.chord,
            epoch: self.epoch,
        }
    }
}

impl Watcher {
    /// A watcher with no session.
    pub fn new() -> (r: Self)
        ensures
            r@ == (WatcherView { current: None, chord: CrownChord(None), epoch: 0 }),
    {
        Watcher { current: None, chord: CrownChord(None), epoch: 0 }
    }

    /// The session that runs.
    pub fn current(&self) -> (r: Option<&RunningKeyboardSession>)
        ensures
            match r {
                Some(running) => self@.current == Some(running@),
                None => self@.current is None,
            },
    {
        self.current.as_ref()
    }

    /// Decide one captured input, tagged with the session it came from.
    pub fn input(
        &mut self,
        session: &HidppSessionId,
        input: CapturedInput,
        exclusive: bool,
        live: Option<&KeyboardSpec>,
        modes: Option<&CrownModes>,
    ) -> (r: Hearing)
        ensures
            match r {
                Hearing::Drop => {
                    &&& old(self)@.current is None
                    &&& final(self)@ == old(self)@
                },
                Hearing::Cancel => {
                    &&& old(self)@.current is Some
                    &&& !old(self)@.accepts(session@, exclusive, published(live))
                    &&& final(self)@ == old(self)@
                },
                Hearing::Run(dispatch) => {
                    &&& old(self)@.accepts(session@, exclusive, published(live))
                    &&& live matches Some(spec)
                    &&& dispatch == dispatched(spec@, readable(modes), old(self)@.chord, input)
                    &&& final(self)@ == (WatcherView {
                        chord: chord_after(old(self)@.chord, input),
                        ..old(self)@
                    })
                },
            },
            final(self)@.current == old(self)@.current,
            final(self)@.epoch == old(self)@.epoch,
            r matches Hearing::Run(dispatch) ==> {
                &&& input matches CapturedInput::ButtonUp(button) ==> dispatch == (Dispatch::Up {
                    button,
                })
                &&& input == CapturedInput::ButtonUp(ButtonId::CrownPress) ==> final(self)@.chord.0 is None
                &&& input != CapturedInput::ButtonUp(ButtonId::CrownPress) ==> final(self)@.chord
                    == old(self)@.chord
            },
    {
        let ghost was = self@;
        let running = match self.current.as_ref() {
            Some(running) => running,
            None => {
                return Hearing::Drop;
            },
        };
        let spec = match live {
            Some(spec) => spec,
            None => {
                return Hearing::Cancel;
            },
        };
        if exclusive || !running.id.same(session) || !running.target.matches(spec) {
            return Hearing::Cancel;
        }
        let mut chord: CrownChord = self.chord;
        let dispatch = dispatch_input(input, spec, modes, &mut chord);
        self.chord = chord;
        assert(self@ =~= WatcherView { chord: chord_after(was.chord, input), ..was });
        Hearing::Run(dispatch)
    }

    /// Keep the token of a chorded press that the dispatcher just began, or
    /// note that it began none.
    pub fn hold_chord(&mut self, press: Option<PressToken>)
        ensures
            final(self)@ == (WatcherView { chord: CrownChord(press), ..old(self)@ }),
    {
        let ghost was = self@;
        self.chord = CrownChord(press);
        assert(self@ =~= WatcherView { chord: CrownChord(press), ..was });
    }

    /// Compare the session that runs with the published keyboard.
    ///
    /// A change first stops the old session, which lets it hand its controls
    /// back; the new one starts at a later look.
    pub fn tick(&mut self, exclusive: bool, live: Option<&KeyboardSpec>) -> (r: Tick)
        ensures
            r@ == old(self)@.asks(wanted(exclusive, published(live))),
            final(self)@ == old(self)@.after_tick(wanted(exclusive, published(live))),
    {
        let ghost was = self@;
        let kept: bool = match (&self.current, live) {
            (Some(running), Some(spec)) => !exclusive && running.target.matches(spec),
            _ => false,
        };
        if kept {
            return Tick::Keep;
        }
        let mut current: Option<RunningKeyboardSession> = None;
        std::mem::swap(&mut current, &mut self.current);
        if let Some(running) = current {
            assert(self@ =~= WatcherView { current: None, ..was });
            return Tick::Stop(running.id);
        }
        assert(self@ =~= was);
        match wanted_session(exclusive, live) {
            Some(target) => {
                self.epoch = self.epoch.wrapping_add(1);
                assert(self@ =~= WatcherView { epoch: next_epoch(was.epoch), ..was });
                let id = HidppSessionId::new(target.config_key.as_str(), self.epoch);
                Tick::Start(RunningKeyboardSession { id, target })
            },
            None => Tick::Keep,
        }
    }

    /// Take up a session that did start. Without the receiver's lease none
    /// starts, and the next look asks for one again.
    pub fn started(&mut self, session: RunningKeyboardSession)
        ensures
            final(self)@ == (WatcherView { current: Some(session@), ..old(self)@ }),
    {
        let ghost was = self@;
        self.current = Some(session);
        assert(self@ =~= WatcherView { current: Some(session@), ..was });
    }

    /// Take note that a session ended on its own, and say whether it was the
    /// one that runs: then what it has in flight is to be cancelled, and the
    /// next look starts another. The end of any other session changes nothing.
    pub fn done(&mut self, session: &HidppSessionId) -> (r: bool)
        ensures
            r == (old(self)@.current matches Some(running) && running.id == session@),
            final(self)@ == (if r {
                WatcherView { current: None, ..old(self)@ }
            } else {
                old(self)@
            }),
    {
        let ghost was = self@;
        let ended: bool = match self.current.as_ref() {
            Some(running) => running.id.same(session),
            None => false,
        };
        if ended {
            self.current = None;
            assert(self@ =~= WatcherView { current: None, ..was });
        }
        ended
    }
}

/// A session for the right keyboard is left alone.
pub proof fn law_a_steady_keyboard_keeps_its_session(w: WatcherView, want: Option<TargetView>)
    requires
        w.settled(want),
    ensures
        w.asks(want) == TickView::Keep,
        w.after_tick(want) == w,
{
}

/// A change stops the old session first; only a later look starts another, and
/// then for whatever is wanted by then.
pub proof fn law_a_change_stops_before_it_starts(
    w: WatcherView,
    want: Option<TargetView>,
    later: Option<TargetView>,
)
    requires
        w.current is Some,
        !w.settled(want),
    ensures
        w.asks(want) == TickView::Stop(w.current->0.id),
        w.after_tick(want).current is None,
        later matches Some(target) ==> w.after_tick(want).asks(later) == TickView::Start(
            RunningView {
                id: IdView { config_key: target.config_key, epoch: next_epoch(w.epoch) },
                target,
            },
        ),
        later is None ==> w.after_tick(want).asks(later) == TickView::Keep,
{
}

/// While pairing asks for the receiver, no session starts, the one that runs is
/// stopped, and no input is run.
pub proof fn law_pairing_gets_the_receiver(
    w: WatcherView,
    live: Option<SpecView>,
    session: IdView,
)
    ensures
        w.asks(wanted(true, live)) !is Start,
        w.after_tick(wanted(true, live)).current is None,
        w.current matches Some(running) ==> w.asks(wanted(true, live)) == TickView::Stop(
            running.id,
        ),
        !w.accepts(session, true, live),
{
}

/// The number after `n` more starts.
pub open spec fn epoch_after(epoch: u64, n: nat) -> u64
    decreases n,
{
    if n == 0 {
        epoch
    } else {
        next_epoch(epoch_after(epoch, (n - 1) as nat))
    }
}

proof fn lemma_epoch_after(epoch: u64, n: nat)
    requires
        n <= u64::MAX,
    ensures
        epoch_after(epoch, n) == if epoch + n <= u64::MAX {
            epoch + n
        } else {
            epoch + n - 0x1_0000_0000_0000_0000
        },
    decreases n,
{
    if n > 0 {
        lemma_epoch_after(epoch, (n - 1) as nat);
    }
}

/// No session has the identity of one of the `u64::MAX` started before it, so
/// what a replaced session still sends is never taken for the new one's.
pub proof fn law_a_restarted_session_has_another_identity(
    w: WatcherView,
    replaced: IdView,
    starts: nat,
    want: Option<TargetView>,
    exclusive: bool,
    live: Option<SpecView>,
)
    requires
        starts < u64::MAX,
        w.epoch == epoch_after(replaced.epoch, starts),
        w.asks(want) is Start,
    ensures
        w.asks(want)->Start_0.id.epoch == epoch_after(replaced.epoch, starts + 1),
        w.asks(want)->Start_0.id != replaced,
        !(WatcherView {
            current: Some(w.asks(want)->Start_0),
            ..w.after_tick(want)
        }.accepts(replaced, exclusive, live)),
{
    lemma_epoch_after(replaced.epoch, starts + 1);
}

/// No crown mode claims the tap, so whatever cycles modes keeps working in
/// every mode: the tap always runs the keyboard's own binding.
pub proof fn law_no_mode_claims_the_tap(
    spec: SpecView,
    modes: Option<Map<Seq<char>, Position>>,
)
    ensures
        claimed(modes, spec.config_key, ButtonId::CrownTap) is None,
        in_force(spec, modes, ButtonId::CrownTap) == if spec.bindings.contains_key(
            ButtonId::CrownTap,
        ) {
            Some(spec.bindings[ButtonId::CrownTap])
        } else {
            None
        },
{
}

/// A crown press with a chord map runs nothing when it goes down: a turn is
/// still free to claim it.
pub proof fn law_a_chorded_press_runs_nothing_on_the_down_edge(
    spec: SpecView,
    modes: Option<Map<Seq<char>, Position>>,
    chord: CrownChord,
)
    requires
        chords(ButtonId::CrownPress, in_force(spec, modes, ButtonId::CrownPress)),
    ensures
        dispatched(spec, modes, chord, CapturedInput::ButtonDown(ButtonId::CrownPress))
            == (Dispatch::Down { button: ButtonId::CrownPress, binding: None, chorded: true }),
{
}

/// A chord direction without an action of its own is plain rotation: it
/// dispatches just what one detent of the dial would.
pub proof fn law_an_unbound_chord_is_plain_rotation(
    spec: SpecView,
    modes: Option<Map<Seq<char>, Position>>,
    chord: CrownChord,
    button: ButtonId,
    direction: GestureDirection,
)
    requires
        chord_action(spec, modes, button, direction) is None,
        rotation_of(direction) is Some,
    ensures
        dispatched(spec, modes, chord, CapturedInput::Gesture(button, direction)) == dispatched(
            spec,
            modes,
            chord,
            CapturedInput::ButtonPulse(rotation_of(direction)->0),
        ),
{
}

/// A chord's action runs only against the press that is held: once the crown
/// is up, the same direction runs nothing.
pub proof fn law_a_chord_needs_a_live_press(
    spec: SpecView,
    modes: Option<Map<Seq<char>, Position>>,
    chord: CrownChord,
    button: ButtonId,
    direction: GestureDirection,
)
    requires
        chord_action(spec, modes, button, direction) is Some,
    ensures
        dispatched(spec, modes, chord, CapturedInput::Gesture(button, direction))
            == match chord.0 {
            Some(press) => Dispatch::WhilePressed {
                press,
                action: chord_action(spec, modes, button, direction)->0,
            },
            None => Dispatch::Nothing,
        },
        dispatched(
            spec,
            modes,
            chord_after(chord, CapturedInput::ButtonUp(ButtonId::CrownPress)),
            CapturedInput::Gesture(button, direction),
        ) == Dispatch::Nothing,
{
}

/// Every release ends its press, whichever control it is, whatever is bound to
/// it, and whether or not a chord is held; the crown's ends the chord too, and
/// nothing else does.
pub proof fn law_every_release_ends_its_press(
    spec: SpecView,
    modes: Option<Map<Seq<char>, Position>>,
    chord: CrownChord,
    button: ButtonId,
    input: CapturedInput,
)
    ensures
        dispatched(spec, modes, chord, CapturedInput::ButtonUp(button)) == (Dispatch::Up {
            button,
        }),
        chord_after(chord, CapturedInput::ButtonUp(ButtonId::CrownPress)) == CrownChord(None),
        !(input is ButtonUp) || input->ButtonUp_0 != ButtonId::CrownPress ==> chord_after(
            chord,
            input,
        ) == chord,
{
}

/// Every press begins as its own control's. It runs the binding in force,
/// unless that is a gesture map on the crown press, which holds a chord and
/// runs nothing yet.
pub proof fn law_every_press_begins_its_own(
    spec: SpecView,
    modes: Option<Map<Seq<char>, Position>>,
    chord: CrownChord,
    button: ButtonId,
)
    ensures
        ({
            let binding = in_force(spec, modes, button);
            dispatched(spec, modes, chord, CapturedInput::ButtonDown(button)) == if button
                == ButtonId::CrownPress && binding is Some && binding->0 is Gesture {
                Dispatch::Down { button, binding: None, chorded: true }
            } else {
                Dispatch::Down { button, binding, chorded: false }
            }
        }),
{
}

/// A pulse runs its own control's binding in force, once. The crown produces no
/// wheel movement, so one runs nothing.
pub proof fn law_a_pulse_runs_what_is_in_force(
    spec: SpecView,
    modes: Option<Map<Seq<char>, Position>>,
    chord: CrownChord,
    button: ButtonId,
    delta: i32,
)
    ensures
        dispatched(spec, modes, chord, CapturedInput::ButtonPulse(button)) == (Dispatch::Pulse {
            button,
            binding: in_force(spec, modes, button),
        }),
        dispatched(spec, modes, chord, CapturedInput::Scroll { delta }) == Dispatch::Nothing,
{
}

/// Whether a press of `button` is under way after `dispatches`, having been or
/// not before them; `None` when one begins while it is under way or ends while
/// it is not.
pub open spec fn press_after(
    dispatches: Seq<Dispatch>,
    button: ButtonId,
    under_way: bool,
) -> Option<bool>
    decreases dispatches.len(),
{
    if dispatches.len() == 0 {
        Some(under_way)
    } else {
        match press_after(dispatches.drop_last(), button, under_way) {
            None => None,
            Some(going) => match dispatches.last() {
                Dispatch::Down { button: begun, .. } => if begun != button {
                    Some(going)
                } else if going {
                    None
                } else {
                    Some(true)
                },
                Dispatch::Up { button: ended } => if ended != button {
                    Some(going)
                } else if going {
                    Some(false)
                } else {
                    None
                },
                _ => Some(going),
            },
        }
    }
}

/// Presses balance just as the inputs do: over any run of inputs, whatever is
/// bound and whichever modes are active when each is dispatched, a press of a
/// button is under way exactly while the button is held.
pub proof fn law_presses_balance_as_the_inputs_do(
    specs: Seq<SpecView>,
    modes: Seq<Option<Map<Seq<char>, Position>>>,
    chords: Seq<CrownChord>,
    inputs: Seq<CapturedInput>,
    dispatches: Seq<Dispatch>,
    button: ButtonId,
    held: bool,
)
    requires
        specs.len() == inputs.len(),
        modes.len() == inputs.len(),
        chords.len() == inputs.len(),
        dispatches.len() == inputs.len(),
        forall|i: int|
            0 <= i < inputs.len() ==> #[trigger] dispatches[i] == dispatched(
                specs[i],
                modes[i],
                chords[i],
                inputs[i],
            ),
    ensures
        press_after(dispatches, button, held) == crate::translator::hold_after(
            inputs,
            button,
            held,
        ),
    decreases inputs.len(),
{
    if inputs.len() > 0 {
        let n = inputs.len() - 1;
        let sooner = dispatches.drop_last();
        assert forall|i: int| 0 <= i < n implies #[trigger] sooner[i] == dispatched(
            specs.drop_last()[i],
            modes.drop_last()[i],
            chords.drop_last()[i],
            inputs.drop_last()[i],
        ) by {
            assert(sooner[i] == dispatches[i]);
        }
        law_presses_balance_as_the_inputs_do(
            specs.drop_last(),
            modes.drop_last(),
            chords.drop_last(),
            inputs.drop_last(),
            sooner,
            button,
            held,
        );
        assert(dispatches[n] == dispatched(specs[n], modes[n], chords[n], inputs[n]));
        law_every_release_ends_its_press(specs[n], modes[n], chords[n], button, inputs[n]);
    }
}

/// The active mode of the keyboard comes first: what it assigns to a control is
/// what is in force for it.
pub proof fn law_the_active_mode_comes_first(
    spec: SpecView,
    positions: Map<Seq<char>, Position>,
    button: ButtonId,
    action: Action,
)
    requires
        positions.contains_key(spec.config_key),
        positions[spec.config_key].active() matches Some(mode) && mode.assigns(button) == Some(
            action,
        ),
    ensures
        in_force(spec, Some(positions), button) == Some(Binding::Single(action)),
{
}

/// What the active mode leaves alone falls through to the keyboard's own
/// binding, as does everything where the keyboard has no modes or they cannot
/// be read; a control that is not bound then has none.
pub proof fn law_what_no_mode_claims_falls_through(
    spec: SpecView,
    modes: Option<Map<Seq<char>, Position>>,
    button: ButtonId,
)
    requires
        modes matches Some(positions) ==> {
            ||| !positions.contains_key(spec.config_key)
            ||| positions[spec.config_key].active() is None
            ||| positions[spec.config_key].active()->0.assigns(button) is None
        },
    ensures
        spec.bindings.contains_key(button) ==> in_force(spec, modes, button) == Some(
            spec.bindings[button],
        ),
        !spec.bindings.contains_key(button) ==> in_force(spec, modes, button) is None,
{
}

/// Another device's modes play no part.
pub proof fn law_only_the_keyboards_own_modes_count(
    spec: SpecView,
    a: Map<Seq<char>, Position>,
    b: Map<Seq<char>, Position>,
    button: ButtonId,
)
    requires
        a.contains_key(spec.config_key) == b.contains_key(spec.config_key),
        a.contains_key(spec.config_key) ==> a[spec.config_key] == b[spec.config_key],
    ensures
        in_force(spec, Some(a), button) == in_force(spec, Some(b), button),
{
}

/// A chord direction with an action of its own runs that action against the
/// press that is held, and nothing without one.
pub proof fn law_a_bound_direction_runs_against_the_press(
    spec: SpecView,
    modes: Option<Map<Seq<char>, Position>>,
    press: PressToken,
    button: ButtonId,
    direction: GestureDirection,
)
    requires
        in_force(spec, modes, button) matches Some(Binding::Gesture(map)) && map.at(direction)
            is Some && map.at(direction)->0 != Action::NoAction,
    ensures
        ({
            let input = CapturedInput::Gesture(button, direction);
            let action = in_force(spec, modes, button)->0->Gesture_0.at(direction)->0;
            &&& dispatched(spec, modes, CrownChord(Some(press)), input)
                == (Dispatch::WhilePressed { press, action })
            &&& dispatched(spec, modes, CrownChord(None), input) == Dispatch::Nothing
        }),
{
}

/// A chord direction without an action, or with one that does nothing, is
/// plain rotation that way, chord or no chord; the click and the sideways
/// directions have nothing to fall back to.
pub proof fn law_an_unbound_direction_turns_the_dial(
    spec: SpecView,
    modes: Option<Map<Seq<char>, Position>>,
    chord: CrownChord,
    button: ButtonId,
    direction: GestureDirection,
)
    requires
        in_force(spec, modes, button) matches Some(Binding::Gesture(map)) ==> map.at(direction)
            is None || map.at(direction)->0 == Action::NoAction,
    ensures
        dispatched(spec, modes, chord, CapturedInput::Gesture(button, direction))
            == match direction {
            GestureDirection::Up => Dispatch::Pulse {
                button: ButtonId::CrownRotateUp,
                binding: in_force(spec, modes, ButtonId::CrownRotateUp),
            },
            GestureDirection::Down => Dispatch::Pulse {
                button: ButtonId::CrownRotateDown,
                binding: in_force(spec, modes, ButtonId::CrownRotateDown),
            },
            _ => Dispatch::Nothing,
        },
{
}

/// What makes a session another: its keyboard, where that is, or what it
/// diverts. A change of bindings alone never does.
pub proof fn law_what_makes_a_session_another(a: SpecView, b: SpecView)
    ensures
        wanted(false, Some(a)) matches Some(target) && target.config_key == a.config_key
            && target.route == a.route && target.targets == a.targets,
        wanted(false, Some(a)) == wanted(false, Some(b)) <==> a.config_key == b.config_key
            && a.route == b.route && a.targets == b.targets,
        wanted(true, Some(a)) is None,
        wanted(true, None) is None,
        wanted(false, None) is None,
{
}

/// Only the session that runs is heard, and only while it is the one that
/// should run: pairing does not own the receiver, a keyboard is published, and
/// it is still the one the session was started for.
pub proof fn law_only_the_running_session_is_heard(
    w: WatcherView,
    session: IdView,
    exclusive: bool,
    live: Option<SpecView>,
)
    ensures
        w.accepts(session, exclusive, live) <==> {
            &&& !exclusive
            &&& w.current is Some
            &&& live is Some
            &&& w.current->0.id.config_key == session.config_key
            &&& w.current->0.id.epoch == session.epoch
            &&& w.current->0.target.config_key == live->0.config_key
            &&& w.current->0.target.route == live->0.route
            &&& w.current->0.target.targets == live->0.targets
        },
{
}

/// What a look asks for: to keep the session that should run, to stop one that
/// should not, and to start one where none runs and one should, for that very
/// keyboard and under a number not used for the last. A start takes up nothing
/// by itself, and a look never touches the chord.
pub proof fn law_what_a_look_asks_for(w: WatcherView, want: Option<TargetView>)
    ensures
        w.current matches Some(running) ==> {
            &&& want == Some(running.target) ==> w.asks(want) == TickView::Keep
                && w.after_tick(want) == w
            &&& want != Some(running.target) ==> {
                &&& w.asks(want) == TickView::Stop(running.id)
                &&& w.after_tick(want) == (WatcherView { current: None, ..w })
            }
        },
        w.current is None && want is None ==> w.asks(want) == TickView::Keep && w.after_tick(want)
            == w,
        w.current is None && want is Some ==> {
            &&& w.asks(want) matches TickView::Start(session)
            &&& session.target == want->0
            &&& session.id.config_key == want->0.config_key
            &&& session.id.epoch != w.epoch
            &&& w.after_tick(want) == (WatcherView { epoch: session.id.epoch, ..w })
        },
{
}

/// What can be read is read as it is: the modes where there are any to read,
/// and the keyboard where one is published.
pub proof fn law_what_can_be_read_is_read(modes: &CrownModes, spec: &KeyboardSpec)
    ensures
        readable(Some(modes)) == Some(modes@),
        readable(None) is None,
        published(Some(spec)) == Some(spec@),
        published(None) is None,
{
}

} // verus!
