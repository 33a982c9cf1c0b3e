//! One keyboard's capture session, as a state machine: divert the bound
//! controls and the crown, serve their events, re-divert after a reconnect,
//! and hand everything back on the way out.
//!
//! The session says what to do next ([`CaptureSession::action`]); whoever
//! drives it does that and reports what came of it
//! ([`CaptureSession::step`]). An unbound control is never diverted, so it
//! keeps its native firmware function.
//!
//! The crown rides along in the keyboard's session rather than one of its own:
//! a second channel to the same keyboard would split its input-report stream.

use std::collections::{BTreeMap, BTreeSet};

use vstd::prelude::*;

use crate::binding::ButtonId;
use crate::control_table::{emit_button_edges, key_list, KeyboardCaptureTargets};
use crate::crown_state::{ReportingMode, SetCrownMode};
use crate::text::owned;
use crate::translator::{
    slots_per_detent, CapturedInput, CrownTranslator, CrownUpdate, DialState,
    FALLBACK_SLOTS_PER_DETENT,
};

verus! {

broadcast use {
    vstd::std_specs::btree::group_btree_axioms,
    vstd::laws_cmp::group_laws_cmp,
};

/// The HID++ feature that diverts keyboard controls.
pub const REPROG_CONTROLS: u16 = 0x1b04;

/// The HID++ feature of the crown dial.
pub const CROWN: u16 = 0x4600;

/// The HID++ feature that announces reconnects.
pub const WIRELESS_DEVICE_STATUS: u16 = 0x1d4b;

/// How long to wait after a reconnect before writing: the announcement arrives
/// the instant the link is back, occasionally before the device accepts
/// feature writes again.
pub const SETTLE_MILLIS: u64 = 200;

/// Why a session ended without serving.
#[derive(Debug, PartialEq, Eq)]
pub enum GestureError {
    /// No channel reaches the device.
    DeviceNotFound,
    /// The channel is open and the device at this index does not answer.
    DeviceUnreachable(u8),
    /// A HID++ exchange failed.
    Hidpp(String),
}

/// A session failure with its text as characters.
pub enum FailureView {
    /// No channel reaches the device.
    DeviceNotFound,
    /// The device at this index does not answer.
    DeviceUnreachable(u8),
    /// A HID++ exchange failed.
    Hidpp(Seq<char>),
}

impl View for GestureError {
    type V = FailureView;

    open spec fn view(&self) -> FailureView {
        match self {
            GestureError::DeviceNotFound => FailureView::DeviceNotFound,
            GestureError::DeviceUnreachable(index) => FailureView::DeviceUnreachable(*index),
            GestureError::Hidpp(text) => FailureView::Hidpp(text@),
        }
    }
}

/// One control a keyboard exposes.
#[derive(Debug, Clone, Copy, PartialEq, Eq, Structural)]
pub struct ControlInfo {
    /// The control's ID.
    pub control: u16,
    /// Whether it can be diverted.
    pub divertable: bool,
}

/// Where a session stands.
#[derive(Debug, Clone, Copy, PartialEq, Eq, Structural)]
pub enum Phase {
    /// Getting the channel.
    Connecting,
    /// Opening the device on it.
    Opening,
    /// Looking for the divertable controls.
    FindingKeys,
    /// Listing them.
    Enumerating,
    /// Diverting the wanted control at this position.
    Diverting {
        /// Position among the wanted controls.
        at: usize,
    },
    /// Looking for the crown.
    FindingCrown,
    /// Reading its geometry.
    ReadingCrown,
    /// Diverting it.
    DivertingCrown {
        /// Slots per detent.
        detent: i32,
    },
    /// Looking for the reconnect announcements.
    FindingWireless,
    /// Publishing the open channel.
    Publishing,
    /// Waiting for events.
    Serving,
    /// Letting a reconnected device settle.
    Settling,
    /// Diverting the armed control at this position again.
    Rearming {
        /// Position among the armed controls.
        at: usize,
    },
    /// Diverting the crown again.
    RearmingCrown,
    /// Every event source has ended; only the shutdown remains.
    Draining,
    /// Withdrawing the published channel.
    Clearing,
    /// Handing back the armed control at this position.
    Restoring {
        /// Position among the armed controls.
        at: usize,
    },
    /// Handing back the crown.
    RestoringCrown,
    /// Ended in order.
    Finished,
    /// Ended by a failure.
    Failed,
}

/// What a session wants done next.
#[derive(Debug, Clone, Copy, PartialEq, Eq, Structural)]
pub enum SessionAction {
    /// Get the channel that reaches the device.
    Connect,
    /// Open the device at this index on the channel.
    OpenDevice(u8),
    /// Ask the device for this feature, and bind to it where it exists.
    FindFeature(u16),
    /// List the keyboard's controls.
    EnumerateControls,
    /// Write one control's reporting.
    SetReporting {
        /// The control's ID.
        control: u16,
        /// Divert it, or hand it back.
        diverted: bool,
    },
    /// Read the crown's geometry.
    ReadCrownInfo,
    /// Write the crown's mode.
    SetMode(SetCrownMode),
    /// Publish the open channel for hardware writes to reuse.
    PublishChannel,
    /// Wait for the next event or the shutdown.
    Await,
    /// Pause for this many milliseconds.
    Settle(u64),
    /// Wait for the shutdown alone.
    AwaitShutdown,
    /// Withdraw the published channel.
    ClearChannel,
    /// Nothing more: the session ended in order.
    Finish,
    /// Nothing more: the session failed.
    Fail,
}

/// What came of an action, or what happened while waiting.
#[derive(Debug)]
pub enum Reply {
    /// The action succeeded.
    Done,
    /// The channel or feature does not exist.
    Missing,
    /// The exchange failed, with the error's text.
    Refused(String),
    /// The action failed, with an error of its own.
    Failed(GestureError),
    /// The keyboard's controls.
    Controls(Vec<ControlInfo>),
    /// The crown's geometry.
    Geometry {
        /// Slots per revolution.
        slots: u16,
        /// Ratchets per revolution.
        ratchets: u16,
    },
    /// The device announced a reconnect.
    Reconnected,
    /// The crown reported its state.
    Crown(CrownUpdate),
    /// Every event source ended.
    SourcesEnded,
    /// The session is to stop.
    Shutdown,
}

/// A session's state.
#[verifier::ext_equal]
pub struct SessionView {
    /// The device's index on its channel.
    pub index: u8,
    /// The wanted controls, ascending.
    pub wanted: Seq<(u16, ButtonId)>,
    /// Whether the crown is wanted.
    pub crown: bool,
    /// The controls the keyboard listed.
    pub controls: Seq<ControlInfo>,
    /// The armed controls.
    pub diverted: Map<u16, ButtonId>,
    /// The armed controls that are down.
    pub held: Set<u16>,
    /// The armed crown, if there is one.
    pub dial: Option<DialState>,
    /// Where the session stands.
    pub phase: Phase,
    /// Why it failed, if it did.
    pub failure: Option<FailureView>,
}

/// Whether the keyboard lists `control` as divertable.
pub open spec fn divertable(controls: Seq<ControlInfo>, control: u16) -> bool {
    exists|i: int|
        0 <= i < controls.len() && (#[trigger] controls[i]).control == control
            && controls[i].divertable
}

/// Whether a write was answered, one way or the other.
pub open spec fn answers_a_write(reply: Reply) -> bool {
    reply is Done || reply is Refused
}

impl SessionView {
    /// The first wanted control from position `at` on that the keyboard lists
    /// as divertable, or the number of wanted controls.
    pub open spec fn next_divertable(self, at: int) -> int
        decreases self.wanted.len() - at,
    {
        if at >= self.wanted.len() || divertable(self.controls, self.wanted[at].0) {
            at
        } else {
            self.next_divertable(at + 1)
        }
    }

    /// The armed controls, ascending.
    pub open spec fn armed(self) -> Seq<(u16, ButtonId)> {
        crate::control_table::ascending(self.diverted)
    }

    /// The session in another phase.
    pub open spec fn at(self, phase: Phase) -> SessionView {
        SessionView { phase, ..self }
    }

    /// The session ended by `failure`.
    pub open spec fn failed(self, failure: FailureView) -> SessionView {
        SessionView { phase: Phase::Failed, failure: Some(failure), ..self }
    }

    /// On to the next wanted control that can be diverted: one the keyboard
    /// does not expose, or cannot divert, is left native.
    pub open spec fn diverting_from(self, at: int) -> SessionView {
        let next = self.next_divertable(at);
        if next < self.wanted.len() {
            self.at(Phase::Diverting { at: next as usize })
        } else {
            self.past_keys()
        }
    }

    /// On from the keys to the crown, if it is wanted.
    pub open spec fn past_keys(self) -> SessionView {
        self.at(
            if self.crown {
                Phase::FindingCrown
            } else {
                Phase::FindingWireless
            },
        )
    }

    /// On to the next armed control to divert again, then the crown.
    pub open spec fn rearming_from(self, at: int) -> SessionView {
        self.at(
            if at < self.armed().len() {
                Phase::Rearming { at: at as usize }
            } else if self.dial is Some {
                Phase::RearmingCrown
            } else {
                Phase::Serving
            },
        )
    }

    /// On to the next armed control to hand back, then the crown.
    pub open spec fn restoring_from(self, at: int) -> SessionView {
        self.at(
            if at < self.armed().len() {
                Phase::Restoring { at: at as usize }
            } else if self.dial is Some {
                Phase::RestoringCrown
            } else {
                Phase::Finished
            },
        )
    }

    /// What the session wants done.
    pub open spec fn pending(self) -> SessionAction {
        let divert = crate::crown_state::mode_write(ReportingMode::Diverted);
        match self.phase {
            Phase::Connecting => SessionAction::Connect,
            Phase::Opening => SessionAction::OpenDevice(self.index),
            Phase::FindingKeys => SessionAction::FindFeature(REPROG_CONTROLS),
            Phase::Enumerating => SessionAction::EnumerateControls,
            Phase::Diverting { at } => SessionAction::SetReporting {
                control: self.wanted[at as int].0,
                diverted: true,
            },
            Phase::FindingCrown => SessionAction::FindFeature(CROWN),
            Phase::ReadingCrown => SessionAction::ReadCrownInfo,
            Phase::DivertingCrown { .. } => SessionAction::SetMode(divert),
            Phase::FindingWireless => SessionAction::FindFeature(WIRELESS_DEVICE_STATUS),
            Phase::Publishing => SessionAction::PublishChannel,
            Phase::Serving => SessionAction::Await,
            Phase::Settling => SessionAction::Settle(SETTLE_MILLIS),
            Phase::Rearming { at } => SessionAction::SetReporting {
                control: self.armed()[at as int].0,
                diverted: true,
            },
            Phase::RearmingCrown => SessionAction::SetMode(divert),
            Phase::Draining => SessionAction::AwaitShutdown,
            Phase::Clearing => SessionAction::ClearChannel,
            Phase::Restoring { at } => SessionAction::SetReporting {
                control: self.armed()[at as int].0,
                diverted: false,
            },
            Phase::RestoringCrown => SessionAction::SetMode(
                crate::crown_state::mode_write(ReportingMode::Hid),
            ),
            Phase::Finished => SessionAction::Finish,
            Phase::Failed => SessionAction::Fail,
        }
    }

    /// The session after `reply`. A reply it is not waiting for changes
    /// nothing.
    pub open spec fn after(self, reply: Reply) -> SessionView {
        match (self.phase, reply) {
            (Phase::Connecting, Reply::Done) => self.at(Phase::Opening),
            (Phase::Connecting, Reply::Missing) => self.failed(FailureView::DeviceNotFound),
            (Phase::Connecting, Reply::Failed(e)) => self.failed(e@),
            // With no key bound the whole half is skipped: the crown does not
            // need the divertable controls, and a keyboard may expose none.
            (Phase::Opening, Reply::Done) => if self.wanted.len() == 0 {
                self.past_keys()
            } else {
                self.at(Phase::FindingKeys)
            },
            (Phase::Opening, Reply::Refused(_)) => self.failed(
                FailureView::DeviceUnreachable(self.index),
            ),
            (Phase::FindingKeys, Reply::Done) => self.at(Phase::Enumerating),
            (Phase::FindingKeys, Reply::Missing) => self.failed(
                FailureView::Hidpp("keyboard exposes no 0x1b04 reprog controls"@),
            ),
            (Phase::FindingKeys, Reply::Refused(text)) => self.failed(FailureView::Hidpp(text@)),
            (Phase::Enumerating, Reply::Controls(list)) => SessionView {
                controls: list@,
                ..self
            }.diverting_from(0),
            (Phase::Enumerating, Reply::Failed(e)) => self.failed(e@),
            (Phase::Diverting { at }, Reply::Done) => SessionView {
                diverted: self.diverted.insert(
                    self.wanted[at as int].0,
                    self.wanted[at as int].1,
                ),
                ..self
            }.diverting_from(at + 1),
            (Phase::Diverting { at }, Reply::Refused(text)) => self.failed(
                FailureView::Hidpp(text@),
            ),
            (Phase::FindingCrown, Reply::Done) => self.at(Phase::ReadingCrown),
            // A keyboard without a crown leaves the crown's bindings inert.
            (Phase::FindingCrown, Reply::Missing) => self.at(Phase::FindingWireless),
            (Phase::FindingCrown, Reply::Refused(text)) => self.failed(FailureView::Hidpp(text@)),
            (Phase::ReadingCrown, Reply::Geometry { slots, ratchets }) => self.at(
                Phase::DivertingCrown {
                    detent: crate::translator::detent_slots(slots, ratchets) as i32,
                },
            ),
            (Phase::ReadingCrown, Reply::Refused(_)) => self.at(
                Phase::DivertingCrown { detent: FALLBACK_SLOTS_PER_DETENT },
            ),
            (Phase::DivertingCrown { detent }, Reply::Done) => SessionView {
                dial: Some(
                    DialState {
                        slots_per_detent: detent as int,
                        residue: 0,
                        pressed: false,
                        contact: None,
                    },
                ),
                ..self
            }.at(Phase::FindingWireless),
            (Phase::DivertingCrown { detent }, Reply::Refused(text)) => self.failed(
                FailureView::Hidpp("crown divert failed: "@ + text@),
            ),
            (Phase::FindingWireless, Reply::Done) => self.at(Phase::Publishing),
            (Phase::FindingWireless, Reply::Missing) => self.at(Phase::Publishing),
            (Phase::FindingWireless, Reply::Refused(_)) => self.at(Phase::Publishing),
            (Phase::Publishing, Reply::Done) => self.at(Phase::Serving),
            (Phase::Serving, Reply::Reconnected) => if self.wanted.len() > 0 {
                self.at(Phase::Settling)
            } else {
                self.rearming_from(0)
            },
            (Phase::Serving, Reply::Crown(update)) => SessionView {
                dial: match self.dial {
                    Some(dial) => Some(dial.after(crate::translator::sample_of(update))),
                    None => None,
                },
                ..self
            },
            (Phase::Serving, Reply::SourcesEnded) => self.at(Phase::Draining),
            (Phase::Serving, Reply::Shutdown) => self.at(Phase::Clearing),
            (Phase::Settling, Reply::Done) => self.rearming_from(0),
            // A failed re-divert is left to the next reconnect.
            (Phase::Rearming { at }, Reply::Done) => self.rearming_from(at + 1),
            (Phase::Rearming { at }, Reply::Refused(_)) => self.rearming_from(at + 1),
            (Phase::RearmingCrown, Reply::Done) => self.at(Phase::Serving),
            (Phase::RearmingCrown, Reply::Refused(_)) => self.at(Phase::Serving),
            (Phase::Draining, Reply::Shutdown) => self.at(Phase::Clearing),
            (Phase::Clearing, Reply::Done) => self.restoring_from(0),
            // A failed hand-back does not keep the others from theirs.
            (Phase::Restoring { at }, Reply::Done) => self.restoring_from(at + 1),
            (Phase::Restoring { at }, Reply::Refused(_)) => self.restoring_from(at + 1),
            (Phase::RestoringCrown, Reply::Done) => self.at(Phase::Finished),
            (Phase::RestoringCrown, Reply::Refused(_)) => self.at(Phase::Finished),
            _ => self,
        }
    }

    /// The inputs to dispatch on `reply`: a served crown report's, none
    /// otherwise.
    pub open spec fn emits(self, reply: Reply) -> Seq<CapturedInput> {
        match (self.phase, self.dial, reply) {
            (Phase::Serving, Some(dial), Reply::Crown(update)) => dial.emits(
                crate::translator::sample_of(update),
            ),
            _ => Seq::empty(),
        }
    }

    /// Whether snapshots of the armed controls are consumed: from the moment
    /// the keys are armed until the session is told to stop.
    pub open spec fn listens(self) -> bool {
        self.wanted.len() > 0 && match self.phase {
            Phase::FindingCrown | Phase::ReadingCrown | Phase::DivertingCrown { .. }
            | Phase::FindingWireless | Phase::Publishing | Phase::Serving | Phase::Settling
            | Phase::Rearming { .. } | Phase::RearmingCrown | Phase::Draining => true,
            _ => false,
        }
    }
}

/// A session that has not begun.
pub open spec fn fresh(
    index: u8,
    targets: crate::control_table::TargetsView,
) -> SessionView {
    SessionView {
        index,
        wanted: crate::control_table::ascending(targets.keys),
        crown: targets.crown,
        controls: Seq::empty(),
        diverted: Map::empty(),
        held: Set::empty(),
        dial: None,
        phase: Phase::Connecting,
        failure: None,
    }
}

/// One keyboard's capture session.
#[derive(Debug)]
pub struct CaptureSession {
    index: u8,
    wanted: Vec<(u16, ButtonId)>,
    crown: bool,
    controls: Vec<ControlInfo>,
    diverted: BTreeMap<u16, ButtonId>,
    armed: Vec<(u16, ButtonId)>,
    held: BTreeSet<u16>,
    dial: Option<CrownTranslator>,
    phase: Phase,
    failure: Option<GestureError>,
}

impl View for CaptureSession {
    type V = SessionView;

    closed spec fn view(&self) -> SessionView {
        SessionView {
            index: self.index,
            wanted: self.wanted@,
            crown: self.crown,
            controls: self.controls@,
            diverted: self.diverted@,
            held: self.held@,
            dial: match self.dial {
                Some(dial) => Some(dial@),
                None => None,
            },
            phase: self.phase,
            failure: match self.failure {
                Some(failure) => Some(failure@),
                None => None,
            },
        }
    }
}

fn is_divertable(controls: &Vec<ControlInfo>, control: u16) -> (r: bool)
    ensures
        r == divertable(controls@, control),
{
    let mut i: usize = 0;
    while i < controls.len()
        invariant
            i <= controls@.len(),
            forall|k: int|
                0 <= k < i ==> !((#[trigger] controls@[k]).control == control
                    && controls@[k].divertable),
        decreases controls@.len() - i,
    {
        if controls[i].control == control && controls[i].divertable {
            assert(controls@[i as int].control == control);
            return true;
        }
        i += 1;
    }
    false
}

impl CaptureSession {
    /// What a session keeps while it runs: its positions are in range, and the
    /// armed controls are listed in order.
    pub closed spec fn well_formed(&self) -> bool {
        &&& self.armed@ == crate::control_table::ascending(self.diverted@)
        &&& match self.phase {
            Phase::Diverting { at } => at < self.wanted@.len(),
            Phase::Rearming { at } => at < self.armed@.len(),
            Phase::Restoring { at } => at < self.armed@.len(),
            Phase::DivertingCrown { detent } => 1 <= detent <= 0xffff,
            _ => true,
        }
    }

    /// A session for the device at `index` that diverts `targets`.
    pub fn new(index: u8, targets: &KeyboardCaptureTargets) -> (r: Self)
        ensures
            r.well_formed(),
            r@ == fresh(index, targets@),
    {
        let diverted: BTreeMap<u16, ButtonId> = BTreeMap::new();
        let armed = key_list(&diverted);
        let r = CaptureSession {
            index,
            wanted: key_list(&targets.keys),
            crown: targets.crown,
            controls: Vec::new(),
            diverted,
            armed,
            held: BTreeSet::new(),
            dial: None,
            phase: Phase::Connecting,
            failure: None,
        };
        assert(r@ =~= fresh(index, targets@));
        r
    }

    /// What to do next.
    pub fn action(&self) -> (r: SessionAction)
        requires
            self.well_formed(),
        ensures
            r == self@.pending(),
    {
        match self.phase {
            Phase::Connecting => SessionAction::Connect,
            Phase::Opening => SessionAction::OpenDevice(self.index),
            Phase::FindingKeys => SessionAction::FindFeature(REPROG_CONTROLS),
            Phase::Enumerating => SessionAction::EnumerateControls,
            Phase::Diverting { at } => SessionAction::SetReporting {
                control: self.wanted[at].0,
                diverted: true,
            },
            Phase::FindingCrown => SessionAction::FindFeature(CROWN),
            Phase::ReadingCrown => SessionAction::ReadCrownInfo,
            Phase::DivertingCrown { .. } => SessionAction::SetMode(
                SetCrownMode::reporting_only(ReportingMode::Diverted),
            ),
            Phase::FindingWireless => SessionAction::FindFeature(WIRELESS_DEVICE_STATUS),
            Phase::Publishing => SessionAction::PublishChannel,
            Phase::Serving => SessionAction::Await,
            Phase::Settling => SessionAction::Settle(SETTLE_MILLIS),
            Phase::Rearming { at } => SessionAction::SetReporting {
                control: self.armed[at].0,
                diverted: true,
            },
            Phase::RearmingCrown => SessionAction::SetMode(
                SetCrownMode::reporting_only(ReportingMode::Diverted),
            ),
            Phase::Draining => SessionAction::AwaitShutdown,
            Phase::Clearing => SessionAction::ClearChannel,
            Phase::Restoring { at } => SessionAction::SetReporting {
                control: self.armed[at].0,
                diverted: false,
            },
            Phase::RestoringCrown => SessionAction::SetMode(
                SetCrownMode::reporting_only(ReportingMode::Hid),
            ),
            Phase::Finished => SessionAction::Finish,
            Phase::Failed => SessionAction::Fail,
        }
    }

    /// Why the session failed, if it did.
    pub fn error(&self) -> (r: Option<&GestureError>)
        ensures
            match r {
                Some(e) => self@.failure == Some(e@),
                None => self@.failure is None,
            },
    {
        self.failure.as_ref()
    }

    /// Why the session failed, if it did, once nothing more is asked of it.
    pub fn into_error(self) -> (r: Option<GestureError>)
        ensures
            match r {
                Some(e) => self@.failure == Some(e@),
                None => self@.failure is None,
            },
    {
        self.failure
    }

    /// The controls armed so far, ascending.
    pub fn armed_controls(&self) -> (r: &Vec<(u16, ButtonId)>)
        requires
            self.well_formed(),
        ensures
            r@ == self@.armed(),
    {
        &self.armed
    }

    /// Whether a crown is armed.
    pub fn crown_armed(&self) -> (r: bool)
        ensures
            r == (self@.dial is Some),
    {
        self.dial.is_some()
    }

    fn fail(&mut self, failure: GestureError)
        requires
            old(self).well_formed(),
        ensures
            final(self).well_formed(),
            final(self)@ == old(self)@.failed(failure@),
    {
        let ghost was = self@;
        self.phase = Phase::Failed;
        self.failure = Some(failure);
        assert(self@ =~= was.failed(failure@));
    }

    fn go(&mut self, phase: Phase)
        requires
            old(self).well_formed(),
            match phase {
                Phase::Diverting { at } => at < old(self)@.wanted.len(),
                Phase::Rearming { at } => at < old(self)@.armed().len(),
                Phase::Restoring { at } => at < old(self)@.armed().len(),
                Phase::DivertingCrown { detent } => 1 <= detent <= 0xffff,
                _ => true,
            },
        ensures
            final(self).well_formed(),
            final(self)@ == old(self)@.at(phase),
    {
        let ghost was = self@;
        self.phase = phase;
        assert(self@ =~= was.at(phase));
    }

    fn pass_keys(&mut self)
        requires
            old(self).well_formed(),
        ensures
            final(self).well_formed(),
            final(self)@ == old(self)@.past_keys(),
    {
        if self.crown {
            self.go(Phase::FindingCrown)
        } else {
            self.go(Phase::FindingWireless)
        }
    }

    fn divert_from(&mut self, from: usize)
        requires
            old(self).well_formed(),
            from <= old(self)@.wanted.len(),
        ensures
            final(self).well_formed(),
            final(self)@ == old(self)@.diverting_from(from as int),
    {
        let ghost was = self@;
        let mut at: usize = from;
        while at < self.wanted.len() && !is_divertable(&self.controls, self.wanted[at].0)
            invariant
                from <= at <= self.wanted@.len(),
                self@ == was,
                self.well_formed(),
                was.wanted == self.wanted@,
                was.controls == self.controls@,
                was.next_divertable(from as int) == was.next_divertable(at as int),
            decreases self.wanted@.len() - at,
        {
            at += 1;
        }
        if at < self.wanted.len() {
            self.go(Phase::Diverting { at })
        } else {
            self.pass_keys()
        }
    }

    fn rearm_from(&mut self, at: usize)
        requires
            old(self).well_formed(),
        ensures
            final(self).well_formed(),
            final(self)@ == old(self)@.rearming_from(at as int),
    {
        if at < self.armed.len() {
            self.go(Phase::Rearming { at })
        } else if self.dial.is_some() {
            self.go(Phase::RearmingCrown)
        } else {
            self.go(Phase::Serving)
        }
    }

    fn restore_from(&mut self, at: usize)
        requires
            old(self).well_formed(),
        ensures
            final(self).well_formed(),
            final(self)@ == old(self)@.restoring_from(at as int),
    {
        if at < self.armed.len() {
            self.go(Phase::Restoring { at })
        } else if self.dial.is_some() {
            self.go(Phase::RestoringCrown)
        } else {
            self.go(Phase::Finished)
        }
    }

    /// Divert one more control, and go on to the next.
    fn arm(&mut self, at: usize)
        requires
            old(self).well_formed(),
            at < old(self)@.wanted.len(),
        ensures
            final(self).well_formed(),
            final(self)@ == (SessionView {
                diverted: old(self)@.diverted.insert(
                    old(self)@.wanted[at as int].0,
                    old(self)@.wanted[at as int].1,
                ),
                ..old(self)@
            }.diverting_from(at + 1)),
    {
        let ghost was = self@;
        let (control, button) = self.wanted[at];
        self.phase = Phase::Enumerating;
        self.diverted.insert(control, button);
        self.armed = key_list(&self.diverted);
        let ghost armed = SessionView { diverted: was.diverted.insert(control, button), ..was };
        assert(self@ =~= armed.at(Phase::Enumerating));
        proof {
            lemma_position_ignores_phase(armed, Phase::Enumerating, at + 1);
        }
        assert(at < self.wanted.len());
        self.divert_from(at + 1);
    }

    /// Take what came of [`Self::action`], or an event, and return the inputs
    /// to dispatch. A reply the session is not waiting for changes nothing.
    pub fn step(&mut self, reply: Reply) -> (out: Vec<CapturedInput>)
        requires
            old(self).well_formed(),
        ensures
            final(self).well_formed(),
            final(self)@ == old(self)@.after(reply),
            out@ == old(self)@.emits(reply),
            reply !is Crown ==> out@.len() == 0,
            old(self)@.phase !is Failed && (reply is Done || reply is Controls
                || reply is Geometry || reply is Reconnected || reply is Crown
                || reply is SourcesEnded || reply is Shutdown) ==> final(self)@.phase !is Failed
                && final(self)@.failure == old(self)@.failure,
            final(self)@.wanted == old(self)@.wanted,
            final(self)@.held == old(self)@.held,
    {
        match self.phase {
            Phase::Connecting => match reply {
                Reply::Done => self.go(Phase::Opening),
                Reply::Missing => self.fail(GestureError::DeviceNotFound),
                Reply::Failed(e) => self.fail(e),
                _ => {},
            },
            Phase::Opening => match reply {
                Reply::Done => {
                    if self.wanted.len() == 0 {
                        self.pass_keys()
                    } else {
                        self.go(Phase::FindingKeys)
                    }
                },
                Reply::Refused(_) => {
                    let index: u8 = self.index;
                    self.fail(GestureError::DeviceUnreachable(index))
                },
                _ => {},
            },
            Phase::FindingKeys => match reply {
                Reply::Done => self.go(Phase::Enumerating),
                Reply::Missing => self.fail(
                    GestureError::Hidpp(owned("keyboard exposes no 0x1b04 reprog controls")),
                ),
                Reply::Refused(text) => self.fail(GestureError::Hidpp(text)),
                _ => {},
            },
            Phase::Enumerating => match reply {
                Reply::Controls(list) => {
                    let ghost was = self@;
                    self.controls = list;
                    assert(self@ =~= SessionView { controls: list@, ..was });
                    self.divert_from(0)
                },
                Reply::Failed(e) => self.fail(e),
                _ => {},
            },
            Phase::Diverting { at } => match reply {
                Reply::Done => self.arm(at),
                Reply::Refused(text) => self.fail(GestureError::Hidpp(text)),
                _ => {},
            },
            Phase::FindingCrown => match reply {
                Reply::Done => self.go(Phase::ReadingCrown),
                Reply::Missing => self.go(Phase::FindingWireless),
                Reply::Refused(text) => self.fail(GestureError::Hidpp(text)),
                _ => {},
            },
            Phase::ReadingCrown => match reply {
                Reply::Geometry { slots, ratchets } => {
                    let detent: i32 = slots_per_detent(slots, ratchets);
                    self.go(Phase::DivertingCrown { detent })
                },
                Reply::Refused(_) => self.go(
                    Phase::DivertingCrown { detent: FALLBACK_SLOTS_PER_DETENT },
                ),
                _ => {},
            },
            Phase::DivertingCrown { detent } => match reply {
                Reply::Done => {
                    let ghost was = self@;
                    self.dial = Some(CrownTranslator::new(detent));
                    self.go(Phase::FindingWireless);
                    assert(self@ =~= was.after(reply));
                },
                Reply::Refused(text) => {
                    let mut message = owned("crown divert failed: ");
                    message.append(text.as_str());
                    self.fail(GestureError::Hidpp(message))
                },
                _ => {},
            },
            Phase::FindingWireless => match reply {
                Reply::Done | Reply::Missing | Reply::Refused(_) => self.go(Phase::Publishing),
                _ => {},
            },
            Phase::Publishing => match reply {
                Reply::Done => self.go(Phase::Serving),
                _ => {},
            },
            Phase::Serving => match reply {
                Reply::Reconnected => {
                    if self.wanted.len() > 0 {
                        self.go(Phase::Settling)
                    } else {
                        self.rearm_from(0)
                    }
                },
                Reply::Crown(update) => {
                    return self.serve_crown(&update);
                },
                Reply::SourcesEnded => self.go(Phase::Draining),
                Reply::Shutdown => self.go(Phase::Clearing),
                _ => {},
            },
            Phase::Settling => match reply {
                Reply::Done => self.rearm_from(0),
                _ => {},
            },
            Phase::Rearming { at } => match reply {
                Reply::Done | Reply::Refused(_) => {
                    assert(at < self.armed.len());
                    self.rearm_from(at + 1)
                },
                _ => {},
            },
            Phase::RearmingCrown => match reply {
                Reply::Done | Reply::Refused(_) => self.go(Phase::Serving),
                _ => {},
            },
            Phase::Draining => match reply {
                Reply::Shutdown => self.go(Phase::Clearing),
                _ => {},
            },
            Phase::Clearing => match reply {
                Reply::Done => self.restore_from(0),
                _ => {},
            },
            Phase::Restoring { at } => match reply {
                Reply::Done | Reply::Refused(_) => {
                    assert(at < self.armed.len());
                    self.restore_from(at + 1)
                },
                _ => {},
            },
            Phase::RestoringCrown => match reply {
                Reply::Done | Reply::Refused(_) => self.go(Phase::Finished),
                _ => {},
            },
            Phase::Finished => {},
            Phase::Failed => {},
        }
        Vec::new()
    }

    /// Translate one served crown report.
    fn serve_crown(&mut self, update: &CrownUpdate) -> (out: Vec<CapturedInput>)
        requires
            old(self).well_formed(),
            old(self)@.phase == Phase::Serving,
        ensures
            final(self).well_formed(),
            final(self)@ == old(self)@.after(Reply::Crown(*update)),
            out@ == old(self)@.emits(Reply::Crown(*update)),
    {
        let ghost was = self@;
        let mut dial: Option<CrownTranslator> = None;
        std::mem::swap(&mut dial, &mut self.dial);
        match dial {
            Some(translator) => {
                let mut translator = translator;
                let out = translator.update(update);
                self.dial = Some(translator);
                assert(self@ =~= was.after(Reply::Crown(*update)));
                out
            },
            None => {
                assert(self@ =~= was.after(Reply::Crown(*update)));
                Vec::new()
            },
        }
    }

    /// Take one full snapshot of the diverted controls that are down, and
    /// return the edges it makes. Nothing is read from one that arrives before
    /// the keys are armed or after the session was told to stop.
    pub fn snapshot(&mut self, cids: &[u16]) -> (out: Vec<CapturedInput>)
        requires
            old(self).well_formed(),
        ensures
            final(self).well_formed(),
            old(self)@.listens() ==> {
                &&& out@ == crate::control_table::edges(
                    old(self)@.armed(),
                    old(self)@.held,
                    cids@.to_set(),
                )
                &&& final(self)@ == (SessionView {
                    held: crate::control_table::held_after(
                        old(self)@.diverted,
                        old(self)@.held,
                        cids@.to_set(),
                    ),
                    ..old(self)@
                })
            },
            !old(self)@.listens() ==> out@.len() == 0 && final(self)@ == old(self)@,
            old(self)@.listens() ==> forall|c: u16| #[trigger]
                old(self)@.diverted.contains_key(c) ==> final(self)@.held.contains(c)
                    == cids@.contains(c),
            final(self)@.phase == old(self)@.phase,
            final(self)@.diverted == old(self)@.diverted,
    {
        let ghost was = self@;
        let open: bool = match self.phase {
            Phase::FindingCrown | Phase::ReadingCrown | Phase::DivertingCrown { .. }
            | Phase::FindingWireless | Phase::Publishing | Phase::Serving | Phase::Settling
            | Phase::Rearming { .. } | Phase::RearmingCrown | Phase::Draining => true,
            _ => false,
        };
        if self.wanted.len() == 0 || !open {
            return Vec::new();
        }
        let out = emit_button_edges(&mut self.held, cids, &self.diverted);
        assert(self@ =~= SessionView {
            held: crate::control_table::held_after(was.diverted, was.held, cids@.to_set()),
            ..was
        });
        out
    }
}

/// Which wanted controls come next does not depend on the phase.
proof fn lemma_position_ignores_phase(v: SessionView, phase: Phase, at: int)
    requires
        0 <= at <= v.wanted.len(),
    ensures
        v.at(phase).next_divertable(at) == v.next_divertable(at),
        v.at(phase).diverting_from(at) == v.diverting_from(at),
    decreases v.wanted.len() - at,
{
    if at < v.wanted.len() && !divertable(v.controls, v.wanted[at].0) {
        lemma_position_ignores_phase(v, phase, at + 1);
    }
}

/// What a session's writes amount to: an upper bound on what the device may
/// hold diverted, the hand-backs it refused, and whether the channel is
/// published.
///
/// A divert that was refused may still have taken effect, so it counts; a
/// device may lose a diversion at any time, so nothing here is a lower bound.
#[verifier::ext_equal]
pub struct Ledger {
    /// Controls that may be diverted.
    pub keys: Set<u16>,
    /// Whether the crown may be diverted.
    pub crown: bool,
    /// Controls whose hand-back was refused.
    pub refused: Set<u16>,
    /// Whether the crown's hand-back was refused.
    pub crown_refused: bool,
    /// Whether the channel is published.
    pub published: bool,
}

impl Ledger {
    /// The ledger once `action` was answered by `reply`.
    pub open spec fn entered(self, action: SessionAction, reply: Reply) -> Ledger {
        match action {
            SessionAction::SetReporting { control, diverted } => if !answers_a_write(reply) {
                self
            } else if diverted {
                Ledger { keys: self.keys.insert(control), ..self }
            } else if reply is Done {
                Ledger { keys: self.keys.remove(control), ..self }
            } else {
                Ledger { refused: self.refused.insert(control), ..self }
            },
            SessionAction::SetMode(mode) => if !answers_a_write(reply) {
                self
            } else if mode.diverting == ReportingMode::Diverted {
                Ledger { crown: true, ..self }
            } else if reply is Done {
                Ledger { crown: false, ..self }
            } else {
                Ledger { crown_refused: true, ..self }
            },
            SessionAction::PublishChannel => if reply is Done {
                Ledger { published: true, ..self }
            } else {
                self
            },
            SessionAction::ClearChannel => if reply is Done {
                Ledger { published: false, ..self }
            } else {
                self
            },
            _ => self,
        }
    }
}

/// The ledger of a session that has written nothing.
pub open spec fn blank() -> Ledger {
    Ledger {
        keys: Set::empty(),
        crown: false,
        refused: Set::empty(),
        crown_refused: false,
        published: false,
    }
}

/// The session after a run of replies.
pub open spec fn after_replies(session: SessionView, replies: Seq<Reply>) -> SessionView
    decreases replies.len(),
{
    if replies.len() == 0 {
        session
    } else {
        after_replies(session, replies.drop_last()).after(replies.last())
    }
}

/// The ledger after a run of replies.
pub open spec fn ledger_after(session: SessionView, replies: Seq<Reply>) -> Ledger
    decreases replies.len(),
{
    if replies.len() == 0 {
        blank()
    } else {
        ledger_after(session, replies.drop_last()).entered(
            after_replies(session, replies.drop_last()).pending(),
            replies.last(),
        )
    }
}

/// Whether the channel is published in `phase`.
pub open spec fn publishes(phase: Phase) -> bool {
    match phase {
        Phase::Serving | Phase::Settling | Phase::Rearming { .. } | Phase::RearmingCrown
        | Phase::Draining | Phase::Clearing => true,
        _ => false,
    }
}

/// Whether `control` is one of the armed controls from position `at` on.
spec fn still_armed(v: SessionView, at: int, control: u16) -> bool {
    exists|j: int| at <= j < v.armed().len() && (#[trigger] v.armed()[j]).0 == control
}

/// How a session and its ledger fit together at every moment.
spec fn accounts(
    v: SessionView,
    l: Ledger,
    targets: crate::control_table::TargetsView,
) -> bool {
    &&& v.wanted == crate::control_table::ascending(targets.keys)
    &&& v.crown == targets.crown
    &&& l.published == publishes(v.phase)
    &&& forall|c: u16| #[trigger]
        l.keys.contains(c) ==> targets.keys.contains_key(c) && divertable(v.controls, c)
    &&& forall|c: u16| #[trigger]
        v.diverted.contains_key(c) ==> targets.keys.contains_key(c) && divertable(v.controls, c)
    &&& (l.crown || v.dial is Some) ==> v.crown
    &&& match v.phase {
        Phase::Connecting | Phase::Opening | Phase::FindingKeys | Phase::Enumerating => {
            &&& l.keys == Set::<u16>::empty()
            &&& v.diverted == Map::<u16, ButtonId>::empty()
            &&& !l.crown
        },
        Phase::Diverting { at } => {
            &&& at < v.wanted.len()
            &&& divertable(v.controls, v.wanted[at as int].0)
            &&& forall|c: u16| #[trigger] l.keys.contains(c) ==> v.diverted.contains_key(c)
            &&& !l.crown
        },
        Phase::FindingCrown | Phase::ReadingCrown | Phase::DivertingCrown { .. } => {
            &&& forall|c: u16| #[trigger] l.keys.contains(c) ==> v.diverted.contains_key(c)
            &&& v.crown
            &&& !l.crown
        },
        Phase::Failed => true,
        Phase::Restoring { at } => {
            &&& at < v.armed().len()
            &&& forall|c: u16| #[trigger]
                l.keys.contains(c) ==> l.refused.contains(c) || still_armed(v, at as int, c)
            &&& l.crown ==> v.dial is Some
        },
        Phase::RestoringCrown => {
            &&& forall|c: u16| #[trigger] l.keys.contains(c) ==> l.refused.contains(c)
            &&& v.dial is Some
        },
        Phase::Finished => {
            &&& forall|c: u16| #[trigger] l.keys.contains(c) ==> l.refused.contains(c)
            &&& l.crown ==> l.crown_refused
        },
        _ => {
            &&& forall|c: u16| #[trigger] l.keys.contains(c) ==> v.diverted.contains_key(c)
            &&& l.crown ==> v.dial is Some
            &&& v.phase is RearmingCrown ==> v.dial is Some
            &&& v.phase matches Phase::Rearming { at } ==> at < v.armed().len()
        },
    }
}

proof fn lemma_next_divertable_is_divertable(v: SessionView, at: int)
    requires
        0 <= at <= v.wanted.len(),
    ensures
        at <= v.next_divertable(at) <= v.wanted.len(),
        v.next_divertable(at) < v.wanted.len() ==> divertable(
            v.controls,
            v.wanted[v.next_divertable(at)].0,
        ),
    decreases v.wanted.len() - at,
{
    if at < v.wanted.len() && !divertable(v.controls, v.wanted[at].0) {
        lemma_next_divertable_is_divertable(v, at + 1);
    }
}

#[verifier::spinoff_prover]
#[verifier::rlimit(40)]
proof fn lemma_step_accounts(
    v: SessionView,
    l: Ledger,
    targets: crate::control_table::TargetsView,
    reply: Reply,
)
    requires
        accounts(v, l, targets),
    ensures
        accounts(v.after(reply), l.entered(v.pending(), reply), targets),
{
    let next = v.after(reply);
    let entry = l.entered(v.pending(), reply);
    crate::control_table::lemma_ascending_entries(targets.keys);
    crate::control_table::lemma_ascending_entries(v.diverted);
    match v.phase {
        Phase::Enumerating => {
            if reply is Controls {
                let listed = SessionView { controls: reply->Controls_0@, ..v };
                lemma_next_divertable_is_divertable(listed, 0);
            }
        },
        Phase::Diverting { at } => {
            assert(targets.keys.contains_key(v.wanted[at as int].0));
            if reply is Done {
                let armed = SessionView {
                    diverted: v.diverted.insert(v.wanted[at as int].0, v.wanted[at as int].1),
                    ..v
                };
                lemma_next_divertable_is_divertable(armed, at + 1);
            }
        },
        Phase::Rearming { at } => {
            assert(v.diverted.contains_key(v.armed()[at as int].0));
        },
        Phase::Clearing => {
            assert forall|c: u16| #[trigger] entry.keys.contains(c) implies still_armed(
                v,
                0,
                c,
            ) by {
                assert(v.diverted.contains_key(c));
                let i = choose|i: int| 0 <= i < v.armed().len() && (#[trigger] v.armed()[i]).0 == c;
                assert(v.armed()[i].0 == c);
            }
            assert(next.armed() == v.armed());
        },
        Phase::Restoring { at } => {
            assert(next.armed() == v.armed());
            assert forall|c: u16| #[trigger] entry.keys.contains(c) && answers_a_write(
                reply,
            ) implies entry.refused.contains(c) || still_armed(v, at + 1, c) by {
                if !l.refused.contains(c) {
                    let j = choose|j: int|
                        at <= j < v.armed().len() && (#[trigger] v.armed()[j]).0 == c;
                    assert(v.armed()[j].0 == c);
                    if j == at {
                        assert(v.pending() == SessionAction::SetReporting {
                            control: c,
                            diverted: false,
                        });
                    }
                }
            }
            assert forall|c: u16| still_armed(v, at as int, c) implies still_armed(
                next,
                at as int,
                c,
            ) by {
                let j = choose|j: int|
                    at <= j < v.armed().len() && (#[trigger] v.armed()[j]).0 == c;
                assert(next.armed()[j].0 == c);
            }
        },
        _ => {},
    }
}

proof fn lemma_run_accounts(
    index: u8,
    targets: crate::control_table::TargetsView,
    replies: Seq<Reply>,
)
    ensures
        accounts(
            after_replies(fresh(index, targets), replies),
            ledger_after(fresh(index, targets), replies),
            targets,
        ),
    decreases replies.len(),
{
    if replies.len() > 0 {
        lemma_run_accounts(index, targets, replies.drop_last());
        lemma_step_accounts(
            after_replies(fresh(index, targets), replies.drop_last()),
            ledger_after(fresh(index, targets), replies.drop_last()),
            targets,
            replies.last(),
        );
    }
}

/// Whatever the device answers, only a bound control that the keyboard lists
/// as divertable is ever diverted, and the crown only when it is bound: every
/// other control keeps its native function.
pub proof fn law_an_unbound_control_stays_native(
    index: u8,
    targets: crate::control_table::TargetsView,
    replies: Seq<Reply>,
)
    ensures
        forall|c: u16| #[trigger]
            ledger_after(fresh(index, targets), replies).keys.contains(c)
                ==> targets.keys.contains_key(c) && divertable(
                after_replies(fresh(index, targets), replies).controls,
                c,
            ),
        ledger_after(fresh(index, targets), replies).crown ==> targets.crown,
{
    lemma_run_accounts(index, targets, replies);
}

/// A session that ends in order has handed everything back: a control or a
/// crown that may still be diverted is one whose hand-back the device refused.
pub proof fn law_a_finished_session_hands_everything_back(
    index: u8,
    targets: crate::control_table::TargetsView,
    replies: Seq<Reply>,
)
    requires
        after_replies(fresh(index, targets), replies).phase == Phase::Finished,
    ensures
        ledger_after(fresh(index, targets), replies).keys.subset_of(
            ledger_after(fresh(index, targets), replies).refused,
        ),
        ledger_after(fresh(index, targets), replies).crown ==> ledger_after(
            fresh(index, targets),
            replies,
        ).crown_refused,
{
    lemma_run_accounts(index, targets, replies);
}

/// The channel is published exactly while the session serves; however the
/// session ends, it is withdrawn.
pub proof fn law_the_channel_is_published_only_while_serving(
    index: u8,
    targets: crate::control_table::TargetsView,
    replies: Seq<Reply>,
)
    ensures
        ledger_after(fresh(index, targets), replies).published == publishes(
            after_replies(fresh(index, targets), replies).phase,
        ),
{
    lemma_run_accounts(index, targets, replies);
}

/// Whether the keys have been armed by `phase`.
pub open spec fn past_arming(phase: Phase) -> bool {
    match phase {
        Phase::Connecting | Phase::Opening | Phase::FindingKeys | Phase::Enumerating
        | Phase::Diverting { .. } | Phase::Failed => false,
        _ => true,
    }
}

/// Whether `control` is one of the wanted controls before position `at`.
spec fn wanted_before(v: SessionView, at: int, control: u16) -> bool {
    exists|j: int| 0 <= j < at && (#[trigger] v.wanted[j]).0 == control
}

/// What is armed at every moment.
spec fn arms(v: SessionView, targets: crate::control_table::TargetsView) -> bool {
    &&& v.wanted == crate::control_table::ascending(targets.keys)
    &&& forall|c: u16| #[trigger]
        v.diverted.contains_key(c) ==> targets.keys.contains_key(c) && v.diverted[c]
            == targets.keys[c]
    &&& match v.phase {
        Phase::Connecting | Phase::Opening | Phase::FindingKeys | Phase::Enumerating => v.diverted
            == Map::<u16, ButtonId>::empty(),
        Phase::Diverting { at } => {
            &&& at < v.wanted.len()
            &&& divertable(v.controls, v.wanted[at as int].0)
            &&& forall|c: u16| #[trigger]
                v.diverted.contains_key(c) <==> wanted_before(v, at as int, c) && divertable(
                    v.controls,
                    c,
                )
        },
        Phase::Failed => true,
        _ => forall|c: u16| #[trigger]
            v.diverted.contains_key(c) <==> targets.keys.contains_key(c) && divertable(
                v.controls,
                c,
            ),
    }
}

/// The controls that are passed over cannot be diverted.
proof fn lemma_passed_over(v: SessionView, at: int, j: int)
    requires
        0 <= at <= j < v.next_divertable(at),
        at <= v.wanted.len(),
    ensures
        !divertable(v.controls, v.wanted[j].0),
    decreases v.wanted.len() - at,
{
    if at < v.wanted.len() && !divertable(v.controls, v.wanted[at].0) && at < j {
        lemma_passed_over(v, at + 1, j);
    }
}

/// Going on to the next control that can be diverted keeps what is armed.
proof fn lemma_diverting_from_arms(
    v: SessionView,
    targets: crate::control_table::TargetsView,
    at: int,
)
    requires
        v.wanted == crate::control_table::ascending(targets.keys),
        0 <= at <= v.wanted.len(),
        forall|c: u16| #[trigger]
            v.diverted.contains_key(c) ==> targets.keys.contains_key(c) && v.diverted[c]
                == targets.keys[c],
        forall|c: u16| #[trigger]
            v.diverted.contains_key(c) <==> wanted_before(v, at, c) && divertable(v.controls, c),
    ensures
        arms(v.diverting_from(at), targets),
{
    crate::control_table::lemma_ascending_entries(targets.keys);
    lemma_next_divertable_is_divertable(v, at);
    let next = v.next_divertable(at);
    let on = v.diverting_from(at);
    assert forall|c: u16| #[trigger] v.diverted.contains_key(c) <==> wanted_before(v, next, c)
        && divertable(v.controls, c) by {
        if wanted_before(v, at, c) {
            let j = choose|j: int| 0 <= j < at && (#[trigger] v.wanted[j]).0 == c;
            assert(v.wanted[j].0 == c);
        } else if wanted_before(v, next, c) {
            let j = choose|j: int| 0 <= j < next && (#[trigger] v.wanted[j]).0 == c;
            assert(j >= at);
            lemma_passed_over(v, at, j);
        }
    }
    assert forall|c: u16|
        wanted_before(on, next, c) == wanted_before(v, next, c) && divertable(on.controls, c)
            == divertable(v.controls, c) by {
        if wanted_before(v, next, c) {
            let j = choose|j: int| 0 <= j < next && (#[trigger] v.wanted[j]).0 == c;
            assert(on.wanted[j].0 == c);
        }
        if wanted_before(on, next, c) {
            let j = choose|j: int| 0 <= j < next && (#[trigger] on.wanted[j]).0 == c;
            assert(v.wanted[j].0 == c);
        }
    }
    if next == v.wanted.len() {
        assert forall|c: u16| wanted_before(v, next, c) == targets.keys.contains_key(c) by {
            if targets.keys.contains_key(c) {
                let j = choose|j: int|
                    0 <= j < v.wanted.len() && (#[trigger] v.wanted[j]).0 == c;
                assert(v.wanted[j].0 == c);
            }
            if wanted_before(v, next, c) {
                let j = choose|j: int| 0 <= j < next && (#[trigger] v.wanted[j]).0 == c;
                assert(targets.keys.contains_key(v.wanted[j].0));
            }
        }
    }
}

#[verifier::spinoff_prover]
#[verifier::rlimit(40)]
proof fn lemma_step_arms(
    v: SessionView,
    targets: crate::control_table::TargetsView,
    reply: Reply,
)
    requires
        arms(v, targets),
    ensures
        arms(v.after(reply), targets),
{
    crate::control_table::lemma_ascending_entries(targets.keys);
    match v.phase {
        Phase::Opening => {
            if v.wanted.len() == 0 {
                assert forall|c: u16| !targets.keys.contains_key(c) by {
                    if targets.keys.contains_key(c) {
                        let j = choose|j: int|
                            0 <= j < v.wanted.len() && (#[trigger] v.wanted[j]).0 == c;
                        assert(false);
                    }
                }
            }
        },
        Phase::Enumerating => {
            if reply is Controls {
                let listed = SessionView { controls: reply->Controls_0@, ..v };
                lemma_diverting_from_arms(listed, targets, 0);
            }
        },
        Phase::Diverting { at } => {
            if reply is Done {
                let (control, button) = v.wanted[at as int];
                let armed = SessionView { diverted: v.diverted.insert(control, button), ..v };
                assert(targets.keys.contains_key(v.wanted[at as int].0));
                assert forall|c: u16| #[trigger]
                    armed.diverted.contains_key(c) <==> wanted_before(armed, at + 1, c)
                        && divertable(armed.controls, c) by {
                    if c == control {
                        assert(armed.wanted[at as int].0 == c);
                    } else if wanted_before(armed, at + 1, c) {
                        let j = choose|j: int|
                            0 <= j < at + 1 && (#[trigger] armed.wanted[j]).0 == c;
                        assert(v.wanted[j].0 == c);
                    } else if wanted_before(v, at as int, c) {
                        let j = choose|j: int|
                            0 <= j < at && (#[trigger] v.wanted[j]).0 == c;
                        assert(armed.wanted[j].0 == c);
                    }
                }
                lemma_diverting_from_arms(armed, targets, at + 1);
            }
        },
        _ => {},
    }
}

/// However a session goes, once its keys are armed exactly the bound controls
/// that the keyboard lists as divertable are, each as its own button: what the
/// keyboard lacks costs that control alone.
pub proof fn law_every_bound_control_that_can_be_is_armed(
    index: u8,
    targets: crate::control_table::TargetsView,
    replies: Seq<Reply>,
)
    ensures
        ({
            let now = after_replies(fresh(index, targets), replies);
            past_arming(now.phase) ==> forall|c: u16| #[trigger]
                now.diverted.contains_key(c) <==> targets.keys.contains_key(c) && divertable(
                    now.controls,
                    c,
                )
        }),
        ({
            let now = after_replies(fresh(index, targets), replies);
            forall|c: u16| #[trigger]
                now.diverted.contains_key(c) ==> now.diverted[c] == targets.keys[c]
        }),
{
    lemma_run_arms(index, targets, replies);
}

proof fn lemma_run_arms(
    index: u8,
    targets: crate::control_table::TargetsView,
    replies: Seq<Reply>,
)
    ensures
        arms(after_replies(fresh(index, targets), replies), targets),
    decreases replies.len(),
{
    if replies.len() > 0 {
        lemma_run_arms(index, targets, replies.drop_last());
        lemma_step_arms(
            after_replies(fresh(index, targets), replies.drop_last()),
            targets,
            replies.last(),
        );
    }
}

/// The session once a reconnect was announced and the device has settled. A
/// session without keys does not wait for it to.
pub open spec fn settled(session: SessionView) -> SessionView {
    if session.wanted.len() > 0 {
        session.after(Reply::Reconnected).after(Reply::Done)
    } else {
        session.after(Reply::Reconnected)
    }
}

/// A reconnect diverts every armed control again, in order and whatever
/// becomes of each write, and then the crown, before the session serves on.
pub proof fn law_a_reconnect_diverts_everything_again(session: SessionView, writes: Seq<Reply>)
    requires
        session.phase == Phase::Serving,
        writes.len() <= session.armed().len(),
        forall|i: int| 0 <= i < writes.len() ==> #[trigger] answers_a_write(writes[i]),
    ensures
        session.wanted.len() > 0 ==> session.after(Reply::Reconnected).pending()
            == SessionAction::Settle(SETTLE_MILLIS),
        ({
            let now = after_replies(settled(session), writes);
            if writes.len() < session.armed().len() {
                now.pending() == SessionAction::SetReporting {
                    control: session.armed()[writes.len() as int].0,
                    diverted: true,
                }
            } else if session.dial is Some {
                &&& now.pending() == SessionAction::SetMode(
                    crate::crown_state::mode_write(ReportingMode::Diverted),
                )
                &&& now.after(Reply::Done) == session
            } else {
                now == session
            }
        }),
{
    lemma_rearming_position(session, writes);
    crate::control_table::lemma_ascending_entries(session.diverted);
    let now = after_replies(settled(session), writes);
    assert(now.armed() == session.armed());
    assert(session.at(Phase::Serving) =~= session);
    if writes.len() == session.armed().len() && session.dial is Some {
        assert(now.after(Reply::Done) =~= session);
    }
}

proof fn lemma_rearming_position(session: SessionView, writes: Seq<Reply>)
    requires
        session.phase == Phase::Serving,
        writes.len() <= session.armed().len(),
        forall|i: int| 0 <= i < writes.len() ==> #[trigger] answers_a_write(writes[i]),
    ensures
        after_replies(settled(session), writes) == session.rearming_from(writes.len() as int),
    decreases writes.len(),
{
    crate::control_table::lemma_ascending_entries(session.diverted);
    if writes.len() == 0 {
        assert(settled(session) =~= session.rearming_from(0));
    } else {
        let sooner = writes.drop_last();
        assert forall|i: int| 0 <= i < sooner.len() implies #[trigger] answers_a_write(
            sooner[i],
        ) by {
            assert(answers_a_write(writes[i]));
        }
        lemma_rearming_position(session, sooner);
        assert(answers_a_write(writes[writes.len() - 1]));
        let before = session.rearming_from(sooner.len() as int);
        assert(before.armed() == session.armed());
        assert(before.after(writes.last()) =~= session.rearming_from(writes.len() as int));
    }
}

/// A session that has not begun has armed nothing, wants exactly what it was
/// asked for, and begins by asking for the channel.
pub proof fn law_a_fresh_session_asks_for_the_channel(
    index: u8,
    targets: crate::control_table::TargetsView,
)
    ensures
        ({
            let v = fresh(index, targets);
            &&& v.pending() == SessionAction::Connect
            &&& v.index == index
            &&& v.crown == targets.crown
            &&& v.diverted.dom() =~= Set::<u16>::empty()
            &&& v.dial is None
            &&& v.held =~= Set::<u16>::empty()
            &&& v.failure is None
            &&& forall|c: u16| #[trigger]
                targets.keys.contains_key(c) <==> exists|i: int|
                    0 <= i < v.wanted.len() && (#[trigger] v.wanted[i]).0 == c
            &&& forall|i: int|
                0 <= i < v.wanted.len() ==> (#[trigger] v.wanted[i]).1 == targets.keys[v.wanted[i].0]
            &&& forall|i: int, j: int|
                0 <= i < j < v.wanted.len() ==> (#[trigger] v.wanted[i]).0 < (
                #[trigger] v.wanted[j]).0
        }),
{
    crate::control_table::lemma_ascending_entries(targets.keys);
    let v = fresh(index, targets);
    assert forall|c: u16| #[trigger] targets.keys.contains_key(c) <==> exists|i: int|
        0 <= i < v.wanted.len() && (#[trigger] v.wanted[i]).0 == c by {
        if exists|i: int| 0 <= i < v.wanted.len() && (#[trigger] v.wanted[i]).0 == c {
            let i = choose|i: int| 0 <= i < v.wanted.len() && (#[trigger] v.wanted[i]).0 == c;
            assert(targets.keys.contains_key(v.wanted[i].0));
        }
    }
}

/// A session fails only on a reply that reports a failure: no success and no
/// event ends it so, and nothing does once it serves.
pub proof fn law_a_session_fails_only_on_a_failure(v: SessionView, reply: Reply)
    requires
        v.phase !is Failed,
        reply is Done || reply is Controls || reply is Geometry || reply is Reconnected
            || reply is Crown || reply is SourcesEnded || reply is Shutdown || v.phase is Serving
            || v.phase is Settling || v.phase is Rearming || v.phase is RearmingCrown
            || v.phase is Draining || v.phase is Clearing || v.phase is Restoring
            || v.phase is RestoringCrown || v.phase is Finished,
    ensures
        v.after(reply).phase !is Failed,
        v.after(reply).failure == v.failure,
{
}

/// What fails a session, and with which error: a channel that is missing or
/// cannot be had, a device that does not answer, divertable controls that are
/// missing, and a refusal while the keys or the crown are looked for or first
/// diverted. Nothing else does.
pub proof fn law_what_fails_a_session(v: SessionView, reply: Reply)
    requires
        v.phase !is Failed,
    ensures
        ({
            let next = v.after(reply);
            &&& next.phase is Failed <==> {
                ||| v.phase is Connecting && (reply is Missing || reply is Failed)
                ||| v.phase is Opening && reply is Refused
                ||| v.phase is FindingKeys && (reply is Missing || reply is Refused)
                ||| v.phase is Enumerating && reply is Failed
                ||| v.phase is Diverting && reply is Refused
                ||| v.phase is FindingCrown && reply is Refused
                ||| v.phase is DivertingCrown && reply is Refused
            }
            &&& next.phase is Failed ==> next.failure == Some(
                match reply {
                    Reply::Missing => if v.phase is Connecting {
                        FailureView::DeviceNotFound
                    } else {
                        FailureView::Hidpp("keyboard exposes no 0x1b04 reprog controls"@)
                    },
                    Reply::Failed(e) => e@,
                    Reply::Refused(text) => if v.phase is Opening {
                        FailureView::DeviceUnreachable(v.index)
                    } else if v.phase is DivertingCrown {
                        FailureView::Hidpp("crown divert failed: "@ + text@)
                    } else {
                        FailureView::Hidpp(text@)
                    },
                    _ => FailureView::DeviceNotFound,
                },
            )
            &&& next.phase is Failed ==> next.pending() == SessionAction::Fail
            &&& next.phase !is Failed ==> next.failure == v.failure
        }),
{
}

/// A session that has ended stays as it is.
pub proof fn law_an_ended_session_stays_ended(v: SessionView, reply: Reply)
    requires
        v.phase is Finished || v.phase is Failed,
    ensures
        v.after(reply) == v,
        v.emits(reply) == Seq::<CapturedInput>::empty(),
        !v.listens(),
        v.pending() == if v.phase is Finished {
            SessionAction::Finish
        } else {
            SessionAction::Fail
        },
{
}

/// What a session asks for once its keys are behind it: the crown where it is
/// wanted, and else the reconnect announcements.
pub proof fn law_past_the_keys_comes_the_crown(v: SessionView)
    ensures
        v.past_keys().pending() == SessionAction::FindFeature(
            if v.crown {
                0x4600u16
            } else {
                0x1d4bu16
            },
        ),
        v.past_keys() == (SessionView { phase: v.past_keys().phase, ..v }),
{
}

/// Each success leads to the next request, in the order in which a keyboard is
/// set up: channel, device, keys, crown, announcements, publication, and then
/// the wait for events.
pub proof fn law_each_success_leads_to_the_next_request(v: SessionView)
    ensures
        v.pending() == SessionAction::Connect ==> v.after(Reply::Done).pending()
            == SessionAction::OpenDevice(v.index),
        v.phase is Opening ==> {
            &&& v.pending() == SessionAction::OpenDevice(v.index)
            &&& v.after(Reply::Done).pending() == SessionAction::FindFeature(
                if v.wanted.len() > 0 {
                    0x1b04u16
                } else if v.crown {
                    0x4600u16
                } else {
                    0x1d4bu16
                },
            )
        },
        v.pending() == SessionAction::FindFeature(0x1b04) ==> v.after(Reply::Done).pending()
            == SessionAction::EnumerateControls,
        v.pending() == SessionAction::FindFeature(0x4600) ==> v.after(Reply::Done).pending()
            == SessionAction::ReadCrownInfo,
        v.phase is DivertingCrown ==> v.after(Reply::Done).pending()
            == SessionAction::FindFeature(0x1d4b),
        v.pending() == SessionAction::FindFeature(0x1d4b) ==> v.after(Reply::Done).pending()
            == SessionAction::PublishChannel,
        v.pending() == SessionAction::PublishChannel ==> {
            &&& v.after(Reply::Done).pending() == SessionAction::Await
            &&& v.after(Reply::Done).phase is Serving
        },
{
}

/// The next wanted control from `at` on that can be diverted is the one the
/// session diverts next; with none left it goes on past the keys.
proof fn lemma_next_request(v: SessionView, at: int, i: int)
    requires
        0 <= at <= i,
        i <= v.wanted.len() <= usize::MAX,
        forall|k: int|
            at <= k < i ==> !divertable(v.controls, (#[trigger] v.wanted[k]).0),
        i < v.wanted.len() ==> divertable(v.controls, v.wanted[i].0),
    ensures
        v.next_divertable(at) == i,
        v.diverting_from(at).pending() == if i < v.wanted.len() {
            SessionAction::SetReporting { control: v.wanted[i].0, diverted: true }
        } else {
            SessionAction::FindFeature(
                if v.crown {
                    0x4600u16
                } else {
                    0x1d4bu16
                },
            )
        },
    decreases i - at,
{
    if at < i {
        assert(!divertable(v.controls, v.wanted[at].0));
        lemma_next_request(v, at + 1, i);
    }
}

/// The wanted controls that the keyboard lists as divertable are diverted one
/// by one in ascending order, each remembered as its own button once it is;
/// then comes the crown, or what follows it.
pub proof fn law_the_keys_are_diverted_one_by_one(
    v: SessionView,
    list: Vec<ControlInfo>,
    i: int,
)
    requires
        0 <= i <= v.wanted.len() <= 0x10000,
        v.phase is Enumerating || v.phase is Diverting && (v.phase->Diverting_at) < i,
        ({
            let controls = if v.phase is Enumerating {
                list@
            } else {
                v.controls
            };
            &&& forall|k: int|
                (if v.phase is Enumerating {
                    0
                } else {
                    v.phase->Diverting_at + 1
                }) <= k < i ==> !divertable(controls, (#[trigger] v.wanted[k]).0)
            &&& i < v.wanted.len() ==> divertable(controls, v.wanted[i].0)
        }),
    ensures
        ({
            let next = v.after(
                if v.phase is Enumerating {
                    Reply::Controls(list)
                } else {
                    Reply::Done
                },
            );
            &&& next.pending() == if i < v.wanted.len() {
                SessionAction::SetReporting { control: v.wanted[i].0, diverted: true }
            } else {
                SessionAction::FindFeature(
                    if v.crown {
                        0x4600u16
                    } else {
                        0x1d4bu16
                    },
                )
            }
            &&& v.phase is Enumerating ==> {
                &&& v.pending() == SessionAction::EnumerateControls
                &&& next.controls == list@
                &&& next.diverted == v.diverted
            }
            &&& v.phase is Diverting ==> {
                let (control, button) = v.wanted[v.phase->Diverting_at as int];
                &&& v.pending() == SessionAction::SetReporting { control, diverted: true }
                &&& next.controls == v.controls
                &&& next.diverted == v.diverted.insert(control, button)
            }
        }),
{
    match v.phase {
        Phase::Enumerating => {
            let listed = SessionView { controls: list@, ..v };
            lemma_next_request(listed, 0, i);
        },
        Phase::Diverting { at } => {
            let (control, button) = v.wanted[at as int];
            let armed = SessionView { diverted: v.diverted.insert(control, button), ..v };
            lemma_next_request(armed, at + 1, i);
        },
        _ => {},
    }
}

/// What a keyboard lacks is done without: a keyboard without a crown serves
/// its keys, a crown that does not say its geometry is taken to have eight
/// slots to a detent, and one that announces no reconnects serves all the same.
pub proof fn law_a_lack_is_done_without(v: SessionView, text: String)
    ensures
        v.pending() == SessionAction::FindFeature(0x4600) ==> {
            &&& v.after(Reply::Missing).pending() == SessionAction::FindFeature(0x1d4b)
            &&& v.after(Reply::Missing).dial == v.dial
        },
        v.pending() == SessionAction::ReadCrownInfo ==> {
            let next = v.after(Reply::Refused(text));
            &&& next.phase is DivertingCrown
            &&& next.after(Reply::Done).dial matches Some(dial)
            &&& dial.slots_per_detent == 8
        },
        v.pending() == SessionAction::FindFeature(0x1d4b) ==> {
            &&& v.after(Reply::Missing).pending() == SessionAction::PublishChannel
            &&& v.after(Reply::Refused(text)).pending() == SessionAction::PublishChannel
        },
{
}

/// The crown is diverted by handing its rotation to the host and nothing else,
/// and then turns by the geometry it reported: a detent is as many whole slots
/// as fit, with nothing turned, pressed or touched yet.
pub proof fn law_the_dial_turns_by_its_own_geometry(v: SessionView, slots: u16, ratchets: u16)
    requires
        v.pending() == SessionAction::ReadCrownInfo,
        1 <= ratchets <= slots,
    ensures
        ({
            let asked = v.after(Reply::Geometry { slots, ratchets });
            let armed = asked.after(Reply::Done);
            &&& asked.phase is DivertingCrown
            &&& asked.dial == v.dial
            &&& asked.pending() matches SessionAction::SetMode(write)
            &&& write.diverting == ReportingMode::Diverted
            &&& write.ratchet_mode == crate::crown_state::RatchetMode::NoChange
            &&& write.rotation_timeout == 0
            &&& write.short_long_timeout == 0
            &&& write.double_tap_speed == 0
            &&& armed.dial matches Some(dial)
            &&& dial.slots_per_detent * ratchets <= slots
            &&& slots < (dial.slots_per_detent + 1) * ratchets
            &&& dial.residue == 0
            &&& !dial.pressed
            &&& dial.contact is None
        }),
{
    crate::translator::law_a_detent_is_the_whole_quotient(slots, ratchets);
}

/// Whether a reply reports that an action was done. Nothing does of a wait or
/// of an end.
pub open spec fn succeeds(action: SessionAction, reply: Reply) -> bool {
    match action {
        SessionAction::EnumerateControls => reply is Controls,
        SessionAction::ReadCrownInfo => reply is Geometry,
        SessionAction::Await | SessionAction::AwaitShutdown | SessionAction::Finish
        | SessionAction::Fail => false,
        _ => reply is Done,
    }
}

/// How many successes a session is from serving, at most.
spec fn distance(v: SessionView) -> int {
    let keys = v.wanted.len() as int;
    match v.phase {
        Phase::Connecting => keys + 9,
        Phase::Opening => keys + 8,
        Phase::FindingKeys => keys + 7,
        Phase::Enumerating => keys + 6,
        Phase::Diverting { at } => keys - at + 5,
        Phase::FindingCrown => 5,
        Phase::ReadingCrown => 4,
        Phase::DivertingCrown { .. } => 3,
        Phase::FindingWireless => 2,
        Phase::Publishing => 1,
        _ => 0,
    }
}

/// Whether a session is being set up, or serves, with the crown armed by the
/// time it is due.
spec fn on_course(v: SessionView) -> bool {
    &&& v.dial is Some ==> v.crown
    &&& v.wanted.len() <= 0x10000
    &&& match v.phase {
        Phase::Connecting | Phase::Opening | Phase::FindingKeys | Phase::Enumerating => true,
        Phase::Diverting { at } => at < v.wanted.len(),
        Phase::FindingCrown | Phase::ReadingCrown | Phase::DivertingCrown { .. } => v.crown,
        Phase::FindingWireless | Phase::Publishing | Phase::Serving => v.crown == (v.dial is Some),
        _ => false,
    }
}

proof fn lemma_success_comes_closer(v: SessionView, reply: Reply)
    requires
        on_course(v),
        succeeds(v.pending(), reply),
    ensures
        on_course(v.after(reply)),
        distance(v.after(reply)) < distance(v),
        v.after(reply).wanted == v.wanted,
        v.after(reply).crown == v.crown,
{
    match v.phase {
        Phase::Enumerating => {
            let listed = SessionView { controls: reply->Controls_0@, ..v };
            lemma_next_divertable_is_divertable(listed, 0);
        },
        Phase::Diverting { at } => {
            let armed = SessionView {
                diverted: v.diverted.insert(v.wanted[at as int].0, v.wanted[at as int].1),
                ..v
            };
            lemma_next_divertable_is_divertable(armed, at + 1);
        },
        _ => {},
    }
}

/// A session whose every request succeeds comes to serve: it never fails or
/// gets stuck on the way, it takes no more successes than nine and one for each
/// bound key, with or without a crown, and when it serves the crown is armed
/// exactly where it was wanted.
pub proof fn law_success_leads_to_serving(
    index: u8,
    targets: crate::control_table::TargetsView,
    replies: Seq<Reply>,
)
    requires
        forall|i: int|
            0 <= i < replies.len() ==> succeeds(
                after_replies(fresh(index, targets), replies.take(i)).pending(),
                #[trigger] replies[i],
            ),
    ensures
        ({
            let now = after_replies(fresh(index, targets), replies);
            &&& now.phase !is Failed
            &&& now.pending() != SessionAction::AwaitShutdown
            &&& now.pending() != SessionAction::Finish
            &&& now.pending() != SessionAction::Fail
            &&& replies.len() <= fresh(index, targets).wanted.len() + 9
            &&& now.pending() == SessionAction::Await ==> now.phase is Serving && (now.dial is Some)
                == targets.crown
        }),
{
    lemma_success_run(index, targets, replies);
}

proof fn lemma_success_run(
    index: u8,
    targets: crate::control_table::TargetsView,
    replies: Seq<Reply>,
)
    requires
        forall|i: int|
            0 <= i < replies.len() ==> succeeds(
                after_replies(fresh(index, targets), replies.take(i)).pending(),
                #[trigger] replies[i],
            ),
    ensures
        ({
            let start = fresh(index, targets);
            let now = after_replies(start, replies);
            &&& on_course(now)
            &&& now.wanted == start.wanted
            &&& now.crown == targets.crown
            &&& replies.len() + distance(now) <= start.wanted.len() + 9
            &&& distance(now) >= 0
        }),
    decreases replies.len(),
{
    let start = fresh(index, targets);
    crate::control_table::lemma_ascending_entries(targets.keys);
    if replies.len() > 0 {
        let sooner = replies.drop_last();
        assert forall|i: int| 0 <= i < sooner.len() implies succeeds(
            after_replies(start, sooner.take(i)).pending(),
            #[trigger] sooner[i],
        ) by {
            assert(sooner[i] == replies[i]);
            assert(sooner.take(i) =~= replies.take(i));
        }
        lemma_success_run(index, targets, sooner);
        assert(replies.take(replies.len() - 1) =~= sooner);
        assert(replies[replies.len() - 1] == replies.last());
        lemma_success_comes_closer(after_replies(start, sooner), replies.last());
    }
}

/// While it waits for events a session does just what each asks for: a
/// reconnect pauses for 200 ms before anything is written if keys are bound,
/// the end of every source leaves the shutdown to wait for, and the shutdown
/// withdraws the channel.
pub proof fn law_what_each_event_asks_for(v: SessionView)
    ensures
        v.phase is Serving ==> {
            &&& v.pending() == SessionAction::Await
            &&& v.wanted.len() > 0 ==> v.after(Reply::Reconnected).pending()
                == SessionAction::Settle(200)
            &&& v.after(Reply::SourcesEnded).pending() == SessionAction::AwaitShutdown
            &&& v.after(Reply::SourcesEnded).after(Reply::Shutdown).pending()
                == SessionAction::ClearChannel
            &&& v.after(Reply::Shutdown).pending() == SessionAction::ClearChannel
            &&& v.after(Reply::Shutdown).diverted == v.diverted
            &&& v.after(Reply::Shutdown).dial == v.dial
        },
{
}

/// A crown report that is served gives just the dial's inputs and moves just
/// the dial; without a dial, or while the session does not serve, it gives
/// nothing and changes nothing.
pub proof fn law_a_served_report_moves_the_dial_alone(v: SessionView, update: CrownUpdate)
    ensures
        ({
            let next = v.after(Reply::Crown(update));
            let sample = crate::translator::sample_of(update);
            if v.phase is Serving && v.dial is Some {
                &&& v.emits(Reply::Crown(update)) == v.dial->0.emits(sample)
                &&& next == (SessionView { dial: Some(v.dial->0.after(sample)), ..v })
            } else {
                &&& v.emits(Reply::Crown(update)) == Seq::<CapturedInput>::empty()
                &&& next == v
            }
        }),
{
}

/// Whether a session that asked for `action` waits for such a reply.
pub open spec fn awaited(action: SessionAction, reply: Reply) -> bool {
    match action {
        SessionAction::Connect => reply is Done || reply is Missing || reply is Failed,
        SessionAction::OpenDevice(_) | SessionAction::SetReporting { .. }
        | SessionAction::SetMode(_) => reply is Done || reply is Refused,
        SessionAction::FindFeature(_) => reply is Done || reply is Missing || reply is Refused,
        SessionAction::EnumerateControls => reply is Controls || reply is Failed,
        SessionAction::ReadCrownInfo => reply is Geometry || reply is Refused,
        SessionAction::PublishChannel | SessionAction::ClearChannel
        | SessionAction::Settle(_) => reply is Done,
        SessionAction::Await => reply is Reconnected || reply is Crown || reply is SourcesEnded
            || reply is Shutdown,
        SessionAction::AwaitShutdown => reply is Shutdown,
        SessionAction::Finish | SessionAction::Fail => false,
    }
}

/// A reply of another sort than what was asked for changes nothing, and no
/// reply ever changes which device and controls a session is for, which of
/// them are held, or gives inputs unless it is a crown report.
pub proof fn law_a_reply_changes_only_what_it_answers(v: SessionView, reply: Reply)
    ensures
        ({
            let next = v.after(reply);
            &&& !awaited(v.pending(), reply) ==> next == v
            &&& next.index == v.index
            &&& next.wanted == v.wanted
            &&& next.crown == v.crown
            &&& next.held == v.held
            &&& reply !is Controls ==> next.controls == v.controls
            &&& v.phase !is Diverting ==> next.diverted == v.diverted
            &&& v.phase !is DivertingCrown && reply !is Crown ==> next.dial == v.dial
            &&& reply !is Crown ==> v.emits(reply) == Seq::<CapturedInput>::empty()
        }),
{
}

/// Snapshots count from the moment the keys are armed until the session is
/// told to stop: while keys are bound, only the shutdown or a failure ends the
/// listening, and it begins as soon as the last key is diverted.
pub proof fn law_armed_keys_are_heard_until_the_shutdown(v: SessionView, reply: Reply)
    ensures
        v.wanted.len() == 0 ==> !v.listens(),
        v.phase is Connecting || v.phase is Opening || v.phase is FindingKeys
            || v.phase is Enumerating || v.phase is Diverting ==> !v.listens(),
        v.phase is Clearing || v.phase is Restoring || v.phase is RestoringCrown ==> !v.listens(),
        ({
            let next = v.after(reply);
            &&& v.listens() ==> next.listens() || reply is Shutdown || next.phase is Failed
            &&& v.listens() && reply is Shutdown && awaited(v.pending(), reply) ==> !next.listens()
            &&& (v.phase is Enumerating || v.phase is Diverting) && v.wanted.len() > 0
                && next.phase !is Enumerating && next.phase !is Diverting && next.phase !is Failed
                ==> next.listens()
        }),
{
}

/// A shutdown hands every armed control back, in order and whatever becomes of
/// each write, then the crown, and then the session is over.
pub proof fn law_a_shutdown_hands_back_one_by_one(session: SessionView, writes: Seq<Reply>)
    requires
        session.phase is Serving || session.phase is Draining,
        writes.len() <= session.armed().len(),
        forall|i: int| 0 <= i < writes.len() ==> #[trigger] answers_a_write(writes[i]),
    ensures
        session.after(Reply::Shutdown).pending() == SessionAction::ClearChannel,
        ({
            let now = after_replies(session.after(Reply::Shutdown).after(Reply::Done), writes);
            if writes.len() < session.armed().len() {
                now.pending() == SessionAction::SetReporting {
                    control: session.armed()[writes.len() as int].0,
                    diverted: false,
                }
            } else if session.dial is Some {
                &&& now.pending() matches SessionAction::SetMode(write)
                &&& write.diverting == ReportingMode::Hid
                &&& write.ratchet_mode == crate::crown_state::RatchetMode::NoChange
                &&& write.rotation_timeout == 0
                &&& write.short_long_timeout == 0
                &&& write.double_tap_speed == 0
                &&& now.after(Reply::Done).pending() == SessionAction::Finish
            } else {
                now.pending() == SessionAction::Finish
            }
        }),
{
    lemma_restoring_position(session, writes);
    crate::control_table::lemma_ascending_entries(session.diverted);
    let now = after_replies(session.after(Reply::Shutdown).after(Reply::Done), writes);
    assert(now.armed() == session.armed());
}

proof fn lemma_restoring_position(session: SessionView, writes: Seq<Reply>)
    requires
        session.phase is Serving || session.phase is Draining,
        writes.len() <= session.armed().len(),
        forall|i: int| 0 <= i < writes.len() ==> #[trigger] answers_a_write(writes[i]),
    ensures
        after_replies(session.after(Reply::Shutdown).after(Reply::Done), writes)
            == session.restoring_from(writes.len() as int),
    decreases writes.len(),
{
    crate::control_table::lemma_ascending_entries(session.diverted);
    if writes.len() == 0 {
        assert(session.after(Reply::Shutdown).after(Reply::Done) =~= session.restoring_from(0));
    } else {
        let sooner = writes.drop_last();
        assert forall|i: int| 0 <= i < sooner.len() implies #[trigger] answers_a_write(
            sooner[i],
        ) by {
            assert(answers_a_write(writes[i]));
        }
        lemma_restoring_position(session, sooner);
        assert(answers_a_write(writes[writes.len() - 1]));
        let before = session.restoring_from(sooner.len() as int);
        assert(before.armed() == session.armed());
        assert(before.after(writes.last()) =~= session.restoring_from(writes.len() as int));
    }
}

/// The armed controls are the diverted ones, each once with its own button, in
/// ascending order.
pub proof fn law_the_armed_controls_are_the_diverted_ones(v: SessionView)
    ensures
        forall|c: u16| #[trigger]
            v.diverted.contains_key(c) <==> exists|i: int|
                0 <= i < v.armed().len() && (#[trigger] v.armed()[i]).0 == c,
        forall|i: int|
            0 <= i < v.armed().len() ==> (#[trigger] v.armed()[i]).1 == v.diverted[v.armed()[i].0],
        forall|i: int, j: int|
            0 <= i < j < v.armed().len() ==> (#[trigger] v.armed()[i]).0 < (
            #[trigger] v.armed()[j]).0,
{
    crate::control_table::lemma_ascending_entries(v.diverted);
    assert forall|c: u16| #[trigger] v.diverted.contains_key(c) <==> exists|i: int|
        0 <= i < v.armed().len() && (#[trigger] v.armed()[i]).0 == c by {
        let entries = crate::control_table::ascending(v.diverted);
        if v.diverted.contains_key(c) {
            let i = choose|i: int| 0 <= i < entries.len() && (#[trigger] entries[i]).0 == c;
            assert(v.armed()[i].0 == c);
        }
        if exists|i: int| 0 <= i < v.armed().len() && (#[trigger] v.armed()[i]).0 == c {
            let i = choose|i: int| 0 <= i < v.armed().len() && (#[trigger] v.armed()[i]).0 == c;
            assert(v.diverted.contains_key(entries[i].0));
        }
    }
}

/// A control can be diverted exactly when the keyboard lists it as one that
/// can be.
pub proof fn law_what_counts_as_divertable(controls: Seq<ControlInfo>, control: u16)
    ensures
        divertable(controls, control) <==> controls.contains(
            ControlInfo { control, divertable: true },
        ),
{
    let entry = ControlInfo { control, divertable: true };
    if divertable(controls, control) {
        let i = choose|i: int|
            0 <= i < controls.len() && (#[trigger] controls[i]).control == control
                && controls[i].divertable;
        assert(controls[i] == entry);
    }
    if controls.contains(entry) {
        let i = choose|i: int| 0 <= i < controls.len() && controls[i] == entry;
        assert(controls[i].control == control);
    }
}

/// A crown that refuses to be diverted again does not keep the session from
/// serving on, and one that refuses to be handed back does not keep it from
/// ending.
pub proof fn law_a_refused_crown_write_holds_nothing_up(v: SessionView, text: String)
    ensures
        v.phase is RearmingCrown ==> v.after(Reply::Refused(text)) == v.after(Reply::Done)
            && v.after(Reply::Done).pending() == SessionAction::Await,
        v.phase is RestoringCrown ==> v.after(Reply::Refused(text)) == v.after(Reply::Done)
            && v.after(Reply::Done).pending() == SessionAction::Finish,
{
}

} // verus!
