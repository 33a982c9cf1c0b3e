//! The Craft keyboard's crown dial, translated into input edges.
//!
//! The crown reports rotation, touch, gesture and button state in one packet.
//! [`CrownTranslator`] turns each [`CrownUpdate`] into the [`CapturedInput`]
//! edges a dispatcher knows how to run: one pulse per detent of rotation, one
//! balanced edge pair per press, and one pulse per tap.

use vstd::prelude::*;

use crate::binding::{ButtonId, GestureDirection};

verus! {

/// Slots per ratchet detent to assume when the device reports counts that
/// cannot be divided: a plausible mid-range figure that keeps rotation moving
/// rather than silently swallowing it.
pub const FALLBACK_SLOTS_PER_DETENT: i32 = 8;

/// Most rotation steps to emit from one event. A fast flick reports a large
/// slot delta; without a ceiling one packet could fire dozens of actions from
/// a single physical spin.
pub const MAX_STEPS_PER_EVENT: i32 = 8;

/// The largest detent, in slots, whose sub-detent travel plus one event's
/// slots still fits the residue.
pub const MAX_SLOTS_PER_DETENT: i32 = 0x7fff_ff81;

/// One input edge.
#[derive(Debug, Clone, Copy, PartialEq, Eq, Structural)]
pub enum CapturedInput {
    /// A control went down.
    ButtonDown(ButtonId),
    /// A control came up.
    ButtonUp(ButtonId),
    /// A control fired once, with no hold.
    ButtonPulse(ButtonId),
    /// A direction, or the click, of a held control.
    Gesture(ButtonId, GestureDirection),
    /// A wheel movement.
    Scroll {
        /// Signed wheel travel.
        delta: i32,
    },
}

/// The crown button's state in one packet.
#[derive(Debug, Clone, Copy, PartialEq, Eq, Structural)]
pub enum ButtonState {
    /// Not pressed.
    Inactive,
    /// Just went down.
    Press,
    /// Still held, not yet long.
    ShortPressActive,
    /// The hold just became long.
    LongPress,
    /// Still held, already long.
    LongPressActive,
    /// Just came up.
    Release,
    /// A byte outside the defined values.
    Other(u8),
}

/// The phase of a sensor's activity in one packet.
#[derive(Debug, Clone, Copy, PartialEq, Eq, Structural)]
pub enum ActivityState {
    /// Nothing sensed.
    Inactive,
    /// Activity just began.
    Start,
    /// Activity continues.
    Active,
    /// Activity just ended.
    Stop,
    /// A byte outside the defined values.
    Other(u8),
}

/// The gesture the crown recognised in one packet.
#[derive(Debug, Clone, Copy, PartialEq, Eq, Structural)]
pub enum CrownGesture {
    /// No gesture.
    NoGesture,
    /// A single tap.
    Tap,
    /// A double tap.
    DoubleTap,
    /// A byte outside the defined values.
    Other(u8),
}

/// One packet as the crown reports it.
#[derive(Debug, Clone, Copy, PartialEq, Eq, Structural)]
pub struct CrownUpdate {
    /// Slots rotated since the last packet.
    pub relative_slot_rotation: i8,
    /// Detents rotated since the last packet.
    pub relative_ratchet_rotation: i8,
    /// Hand-nearby phase.
    pub proximity: ActivityState,
    /// Finger-contact phase.
    pub touch: ActivityState,
    /// Recognised gesture.
    pub gesture: CrownGesture,
    /// Button state.
    pub button: ButtonState,
}

/// The parts of a [`CrownUpdate`] that can produce an input.
#[derive(Debug, Clone, Copy, PartialEq, Eq, Structural)]
pub struct CrownSample {
    /// Detents rotated since the last event, as the firmware counted them.
    pub ratchets: i8,
    /// Slots rotated since the last event (finer than a detent).
    pub slots: i8,
    /// Button state at this event.
    pub button: ButtonState,
    /// Whether this event reports a deliberate single tap.
    pub tap: bool,
    /// The finger-contact phase, which brackets one touch of the dial.
    pub touch: TouchPhase,
}

/// One contact's lifecycle, from the crown's touch sensor.
#[derive(Debug, Clone, Copy, PartialEq, Eq, Structural)]
pub enum TouchPhase {
    /// No finger, or this crown has no touch sensor.
    Idle,
    /// A finger just arrived.
    Start,
    /// A finger is still on the dial.
    Active,
    /// The finger just left.
    Stop,
}

impl Default for TouchPhase {
    fn default() -> (r: Self)
        ensures
            r == TouchPhase::Idle,
    {
        TouchPhase::Idle
    }
}

/// The contact phase an activity state stands for. `Inactive` and any byte
/// outside the defined values mean "no contact to track"; guessing otherwise
/// would strand a contact open.
pub open spec fn touch_phase(state: ActivityState) -> TouchPhase {
    match state {
        ActivityState::Start => TouchPhase::Start,
        ActivityState::Active => TouchPhase::Active,
        ActivityState::Stop => TouchPhase::Stop,
        _ => TouchPhase::Idle,
    }
}

impl vstd::std_specs::convert::FromSpecImpl<ActivityState> for TouchPhase {
    open spec fn obeys_from_spec() -> bool {
        true
    }

    open spec fn from_spec(state: ActivityState) -> Self {
        touch_phase(state)
    }
}

impl From<ActivityState> for TouchPhase {
    fn from(state: ActivityState) -> (r: Self) {
        match state {
            ActivityState::Start => TouchPhase::Start,
            ActivityState::Active => TouchPhase::Active,
            ActivityState::Stop => TouchPhase::Stop,
            _ => TouchPhase::Idle,
        }
    }
}

/// What of a packet can produce an input. Proximity is dropped: it fires from
/// a hand merely resting near the dial. A double tap is no tap of its own: the
/// firmware reports it alongside the tap that began it.
pub open spec fn sample_of(u: CrownUpdate) -> CrownSample {
    CrownSample {
        ratchets: u.relative_ratchet_rotation,
        slots: u.relative_slot_rotation,
        button: u.button,
        tap: u.gesture == CrownGesture::Tap,
        touch: touch_phase(u.touch),
    }
}

impl<'a> vstd::std_specs::convert::FromSpecImpl<&'a CrownUpdate> for CrownSample {
    open spec fn obeys_from_spec() -> bool {
        true
    }

    open spec fn from_spec(u: &'a CrownUpdate) -> Self {
        sample_of(*u)
    }
}

impl<'a> From<&'a CrownUpdate> for CrownSample {
    fn from(u: &'a CrownUpdate) -> (r: Self) {
        CrownSample {
            ratchets: u.relative_ratchet_rotation,
            slots: u.relative_slot_rotation,
            button: u.button,
            tap: u.gesture == CrownGesture::Tap,
            touch: TouchPhase::from(u.touch),
        }
    }
}

/// How many slots make one detent, from the crown's reported per-revolution
/// counts. A crown reporting zero ratchets, or more ratchets than slots, has
/// no geometry that can be divided and gets the fallback.
pub open spec fn detent_slots(slots: u16, ratchets: u16) -> int {
    if ratchets == 0 || slots < ratchets {
        FALLBACK_SLOTS_PER_DETENT as int
    } else {
        slots as int / ratchets as int
    }
}

/// How many slots make one detent, from the crown's reported per-revolution
/// counts. Always at least one.
pub fn slots_per_detent(slots: u16, ratchets: u16) -> (r: i32)
    ensures
        r == detent_slots(slots, ratchets),
        1 <= r <= 0xffff,
        1 <= ratchets <= slots ==> r * ratchets <= slots < (r + 1) * ratchets,
        ratchets == 0 || slots < ratchets ==> r == 8,
{
    proof {
        law_a_detent_is_the_whole_quotient(slots, ratchets);
    }
    let slots: i32 = slots as i32;
    let ratchets: i32 = ratchets as i32;
    if ratchets <= 0 || slots < ratchets {
        return FALLBACK_SLOTS_PER_DETENT;
    }
    let per: i32 = slots / ratchets;
    assert(1 <= slots as int / ratchets as int <= slots) by (nonlinear_arith)
        requires
            1 <= ratchets <= slots,
    ;
    if per < 1 {
        1
    } else {
        per
    }
}

/// The magnitude of an integer.
pub open spec fn magnitude(x: int) -> int {
    if x < 0 {
        -x
    } else {
        x
    }
}

/// Division rounding toward zero.
pub open spec fn quotient(a: int, b: int) -> int {
    if (a < 0) == (b < 0) {
        magnitude(a) / magnitude(b)
    } else {
        -(magnitude(a) / magnitude(b))
    }
}

/// `x` held between `lo` and `hi`.
pub open spec fn clamped(x: int, lo: int, hi: int) -> int {
    if x < lo {
        lo
    } else if x > hi {
        hi
    } else {
        x
    }
}

/// One finger contact, from touch-start to touch-stop.
///
/// A tap is only a tap if nothing else happened while the finger was down,
/// which is what this accumulates. Bracketing the whole contact, rather than
/// judging each packet, is what makes a press-then-release, or a turn, or a
/// finger resting, reliably not-a-tap: the disqualification survives until the
/// finger actually leaves.
#[derive(Debug, Clone, Copy, PartialEq, Eq, Structural)]
pub struct Contact {
    /// The firmware called this contact a tap at some point during it.
    pub tap_seen: bool,
    /// Something happened that a tap excludes: rotation, or a button press.
    pub disqualified: bool,
}

/// What a translator remembers between packets.
pub struct DialState {
    /// Slots per detent.
    pub slots_per_detent: int,
    /// Sub-detent travel carried between events.
    pub residue: int,
    /// Whether the crown's button is held.
    pub pressed: bool,
    /// The finger contact in progress.
    pub contact: Option<Contact>,
}

impl DialState {
    /// Detents the travel of `sample` completes, signed and without ceiling.
    /// The firmware's own ratchet count comes first: in ratchet mode it is
    /// already the detent count. Free-spin mode reports slots only.
    pub open spec fn detents(self, sample: CrownSample) -> int {
        if sample.ratchets != 0 {
            sample.ratchets as int
        } else if sample.slots != 0 {
            quotient(self.residue + sample.slots, self.slots_per_detent)
        } else {
            0
        }
    }

    /// Detent steps `sample` emits, signed, held to the ceiling.
    pub open spec fn steps(self, sample: CrownSample) -> int {
        clamped(self.detents(sample), -(MAX_STEPS_PER_EVENT as int), MAX_STEPS_PER_EVENT as int)
    }

    /// The travel left over after `sample`.
    pub open spec fn residue_after(self, sample: CrownSample) -> int {
        if sample.ratchets != 0 {
            0
        } else if sample.slots != 0 {
            self.residue + sample.slots - self.detents(sample) * self.slots_per_detent
        } else {
            self.residue
        }
    }

    /// Whether the button takes part in `sample`: held before it, or anything
    /// but idle in it.
    pub open spec fn button_involved(self, sample: CrownSample) -> bool {
        self.pressed || sample.button != ButtonState::Inactive
    }

    /// Whether `sample` begins a hold. `Press` is the physical transition; a
    /// packet can also arrive with the press already promoted to `LongPress`.
    pub open spec fn goes_down(self, sample: CrownSample) -> bool {
        !self.pressed && (sample.button == ButtonState::Press || sample.button
            == ButtonState::LongPress)
    }

    /// Whether `sample` ends a hold.
    pub open spec fn comes_up(self, sample: CrownSample) -> bool {
        self.pressed && (sample.button == ButtonState::Release || sample.button
            == ButtonState::Inactive)
    }

    /// The contact `sample` belongs to, with what the packet adds to it.
    pub open spec fn contact_at(self, sample: CrownSample) -> Option<Contact> {
        let open = if sample.touch == TouchPhase::Start {
            Some(Contact { tap_seen: false, disqualified: false })
        } else {
            self.contact
        };
        match open {
            Some(c) => Some(
                Contact {
                    tap_seen: c.tap_seen || sample.tap,
                    disqualified: c.disqualified || self.button_involved(sample) || self.steps(
                        sample,
                    ) != 0,
                },
            ),
            None => None,
        }
    }

    /// Whether `sample` settles as a tap. Within a contact only the finger
    /// leaving settles it; with no contact to bracket, the packet alone does.
    pub open spec fn taps(self, sample: CrownSample) -> bool {
        match self.contact_at(sample) {
            Some(c) => sample.touch == TouchPhase::Stop && c.tap_seen && !c.disqualified,
            None => sample.tap && !self.button_involved(sample),
        }
    }

    /// The rotation pulses of `sample`.
    pub open spec fn rotation(self, sample: CrownSample) -> Seq<CapturedInput> {
        let steps = self.steps(sample);
        let direction = if steps > 0 {
            ButtonId::CrownRotateUp
        } else {
            ButtonId::CrownRotateDown
        };
        Seq::new(magnitude(steps) as nat, |i: int| CapturedInput::ButtonPulse(direction))
    }

    /// The press edge of `sample`, if any.
    pub open spec fn press_edge(self, sample: CrownSample) -> Seq<CapturedInput> {
        if self.goes_down(sample) {
            seq![CapturedInput::ButtonDown(ButtonId::CrownPress)]
        } else if self.comes_up(sample) {
            seq![CapturedInput::ButtonUp(ButtonId::CrownPress)]
        } else {
            Seq::empty()
        }
    }

    /// The tap pulse of `sample`, if any.
    pub open spec fn tap_pulse(self, sample: CrownSample) -> Seq<CapturedInput> {
        if self.taps(sample) {
            seq![CapturedInput::ButtonPulse(ButtonId::CrownTap)]
        } else {
            Seq::empty()
        }
    }

    /// The inputs `sample` produces: rotation, then the press edge, then the
    /// tap.
    pub open spec fn emits(self, sample: CrownSample) -> Seq<CapturedInput> {
        self.rotation(sample) + self.press_edge(sample) + self.tap_pulse(sample)
    }

    /// The state once the travel of `sample` alone was taken in.
    pub open spec fn turned(self, sample: CrownSample) -> DialState {
        DialState { residue: self.residue_after(sample), ..self }
    }

    /// The state after `sample`.
    pub open spec fn after(self, sample: CrownSample) -> DialState {
        DialState {
            slots_per_detent: self.slots_per_detent,
            residue: self.residue_after(sample),
            pressed: (self.pressed || self.goes_down(sample)) && !self.comes_up(sample),
            contact: if sample.touch == TouchPhase::Stop {
                None
            } else {
                self.contact_at(sample)
            },
        }
    }

    /// Sub-detent travel is less than one detent.
    pub open spec fn well_formed(self) -> bool {
        &&& self.slots_per_detent != 0
        &&& magnitude(self.slots_per_detent) <= MAX_SLOTS_PER_DETENT
        &&& magnitude(self.residue) < magnitude(self.slots_per_detent)
    }
}

/// Division rounding toward zero leaves a remainder smaller than the divisor.
proof fn lemma_quotient_remainder(a: int, b: int)
    requires
        b != 0,
    ensures
        magnitude(a - quotient(a, b) * b) < magnitude(b),
        magnitude(quotient(a, b)) <= magnitude(a),
        magnitude(quotient(a, b) * b) <= magnitude(a),
{
    let m = magnitude(a);
    let d = magnitude(b);
    let q = m / d;
    assert(m == d * q + m % d && 0 <= m % d < d && 0 <= q) by (nonlinear_arith)
        requires
            d > 0,
            m >= 0,
            q == m / d,
    ;
    assert(q <= m) by (nonlinear_arith)
        requires
            d >= 1,
            q >= 0,
            m >= d * q,
    ;
    assert(quotient(a, b) * b == if a < 0 {
        -(d * q)
    } else {
        d * q
    }) by (nonlinear_arith)
        requires
            d == magnitude(b),
            m == magnitude(a),
            q == m / d,
            b != 0,
    ;
}

/// Dividing a magnitude by a divisor of either sign.
proof fn lemma_signed_division(a: int, b: int)
    requires
        a >= 0,
        b != 0,
    ensures
        0 <= a / magnitude(b) <= a,
        b < 0 ==> a / b == -(a / magnitude(b)),
{
    let d = magnitude(b);
    let q = a / d;
    let r = a % d;
    assert(a == d * q + r && 0 <= r < d && 0 <= q) by (nonlinear_arith)
        requires
            d > 0,
            a >= 0,
            q == a / d,
            r == a % d,
    ;
    assert(q <= a) by (nonlinear_arith)
        requires
            d >= 1,
            q >= 0,
            a >= d * q,
    ;
    if b < 0 {
        let p = a / b;
        let t = a % b;
        assert(a == b * p + t && 0 <= t < d) by (nonlinear_arith)
            requires
                b < 0,
                d == -b,
                p == a / b,
                t == a % b,
        ;
        assert(p == -q) by (nonlinear_arith)
            requires
                a == b * p + t,
                a == d * q + r,
                0 <= t < d,
                0 <= r < d,
                d == -b,
                d > 0,
        ;
    }
}

/// `a` divided by `b`, rounding toward zero.
fn divide(a: i32, b: i32) -> (r: i32)
    requires
        b != 0,
        !(a == i32::MIN && b == -1),
    ensures
        r == quotient(a as int, b as int),
{
    proof {
        let m = magnitude(a as int);
        let d = magnitude(b as int);
        lemma_signed_division(m, b as int);
        assert(d >= 2 && m > 0 ==> m / d < m) by (nonlinear_arith)
            requires
                m >= 0,
                d >= 1,
        ;
    }
    a / b
}

/// Turns the crown's continuous rotation and edge-less state packets into
/// discrete [`CapturedInput`]s.
///
/// Rotation is quantised to detents so one physical click of the dial is one
/// action, and press state is diffed so the runtime sees exactly one down and
/// one up per physical press.
#[derive(Debug)]
pub struct CrownTranslator {
    slots_per_detent: i32,
    residue: i32,
    pressed: bool,
    contact: Option<Contact>,
}

impl CrownTranslator {
    /// What the translator remembers.
    pub closed spec fn view(&self) -> DialState {
        DialState {
            slots_per_detent: self.slots_per_detent as int,
            residue: self.residue as int,
            pressed: self.pressed,
            contact: self.contact,
        }
    }

    #[verifier::type_invariant]
    spec fn inv(&self) -> bool {
        self@.well_formed()
    }

    /// A translator for a dial with this many slots per detent, with nothing
    /// turned, pressed or touched yet.
    pub fn new(slots_per_detent: i32) -> (r: Self)
        requires
            slots_per_detent != 0,
            magnitude(slots_per_detent as int) <= MAX_SLOTS_PER_DETENT,
        ensures
            r@ == (DialState {
                slots_per_detent: slots_per_detent as int,
                residue: 0,
                pressed: false,
                contact: None,
            }),
    {
        CrownTranslator { slots_per_detent, residue: 0, pressed: false, contact: None }
    }

    /// Translate one crown packet into zero or more inputs to dispatch.
    pub fn update(&mut self, update: &CrownUpdate) -> (out: Vec<CapturedInput>)
        ensures
            out@ == old(self)@.emits(sample_of(*update)),
            final(self)@ == old(self)@.after(sample_of(*update)),
            final(self)@.well_formed(),
    {
        self.sample(CrownSample::from(update))
    }

    /// Translate one sample into zero or more inputs to dispatch.
    pub fn sample(&mut self, sample: CrownSample) -> (out: Vec<CapturedInput>)
        ensures
            out@ == old(self)@.emits(sample),
            final(self)@ == old(self)@.after(sample),
            final(self)@.well_formed(),
            sample.button == ButtonState::Press || sample.button == ButtonState::LongPress
                ==> final(self)@.pressed,
            sample.button == ButtonState::Release || sample.button == ButtonState::Inactive
                ==> !final(self)@.pressed,
            out@.contains(CapturedInput::ButtonDown(ButtonId::CrownPress)) <==> !old(self)@.pressed
                && final(self)@.pressed,
            out@.contains(CapturedInput::ButtonUp(ButtonId::CrownPress)) <==> old(self)@.pressed
                && !final(self)@.pressed,
            net_rotation(out@) == old(self)@.steps(sample),
    {
        proof {
            use_type_invariant(&*self);
        }
        let ghost before = self@;
        let mut out: Vec<CapturedInput> = Vec::new();
        // Whether the button is involved in this event, captured before the
        // press edges below change `pressed`.
        let button_involved: bool = self.pressed || sample.button != ButtonState::Inactive;

        // Open a contact the moment the finger lands, so everything below can
        // disqualify it.
        if sample.touch == TouchPhase::Start {
            self.contact = Some(Contact { tap_seen: false, disqualified: false });
        }
        let steps: i32 = self.rotation_steps(sample);
        let direction = if steps > 0 {
            ButtonId::CrownRotateUp
        } else {
            ButtonId::CrownRotateDown
        };
        let count: i32 = if steps < 0 {
            -steps
        } else {
            steps
        };
        let mut i: i32 = 0;
        while i < count
            invariant
                0 <= i <= count,
                out@ =~= Seq::new(i as nat, |k: int| CapturedInput::ButtonPulse(direction)),
            decreases count - i,
        {
            out.push(CapturedInput::ButtonPulse(direction));
            i += 1;
        }
        assert(out@ =~= before.rotation(sample));

        // Press edges. The `*Active` states are the firmware repeating "still
        // held", which must not fire a second down edge.
        let down: bool = sample.button == ButtonState::Press || sample.button
            == ButtonState::LongPress;
        let up: bool = sample.button == ButtonState::Release || sample.button
            == ButtonState::Inactive;
        if down && !self.pressed {
            self.pressed = true;
            out.push(CapturedInput::ButtonDown(ButtonId::CrownPress));
        } else if up && self.pressed {
            self.pressed = false;
            out.push(CapturedInput::ButtonUp(ButtonId::CrownPress));
        }
        assert(out@ =~= before.rotation(sample) + before.press_edge(sample));

        // The tap decision. Pressing the crown touches the capacitive sensor
        // above it, and turning it does too, so the firmware reports its tap
        // gesture alongside both. Judging the whole contact rather than the
        // packet is what makes either reliably not-a-tap.
        match self.contact {
            Some(contact) => {
                let tap_seen: bool = contact.tap_seen || sample.tap;
                let disqualified: bool = contact.disqualified || button_involved || steps != 0;
                if sample.touch == TouchPhase::Stop {
                    self.contact = None;
                    if tap_seen && !disqualified {
                        out.push(CapturedInput::ButtonPulse(ButtonId::CrownTap));
                    }
                } else {
                    self.contact = Some(Contact { tap_seen, disqualified });
                }
            },
            None => {
                // No contact to bracket: either this crown has no touch
                // sensor, or the gesture arrived without one.
                if sample.tap && !button_involved {
                    out.push(CapturedInput::ButtonPulse(ButtonId::CrownTap));
                }
            },
        }
        assert(out@ =~= before.emits(sample));
        proof {
            use_type_invariant(&*self);
            law_the_hold_follows_the_button(before, sample);
            lemma_emits_counts(before, sample);
        }
        out
    }

    /// Detent steps this event completes, signed, held to
    /// [`MAX_STEPS_PER_EVENT`]. Consumes the travel they stand for.
    pub fn rotation_steps(&mut self, sample: CrownSample) -> (steps: i32)
        ensures
            steps == old(self)@.steps(sample),
            -MAX_STEPS_PER_EVENT <= steps <= MAX_STEPS_PER_EVENT,
            final(self)@ == old(self)@.turned(sample),
            final(self)@.well_formed(),
    {
        proof {
            use_type_invariant(&*self);
        }
        let steps: i32 = if sample.ratchets != 0 {
            self.residue = 0;
            sample.ratchets as i32
        } else if sample.slots != 0 {
            let total: i32 = self.residue + sample.slots as i32;
            proof {
                lemma_quotient_remainder(total as int, self.slots_per_detent as int);
            }
            let steps: i32 = divide(total, self.slots_per_detent);
            self.residue = total - steps * self.slots_per_detent;
            steps
        } else {
            0
        };
        if steps < -MAX_STEPS_PER_EVENT {
            -MAX_STEPS_PER_EVENT
        } else if steps > MAX_STEPS_PER_EVENT {
            MAX_STEPS_PER_EVENT
        } else {
            steps
        }
    }
}

impl DialState {
    /// The inputs a run of packets produces.
    pub open spec fn emits_all(self, samples: Seq<CrownSample>) -> Seq<CapturedInput>
        decreases samples.len(),
    {
        if samples.len() == 0 {
            Seq::empty()
        } else {
            self.emits_all(samples.drop_last()) + self.after_all(samples.drop_last()).emits(
                samples.last(),
            )
        }
    }

    /// The state after a run of packets.
    pub open spec fn after_all(self, samples: Seq<CrownSample>) -> DialState
        decreases samples.len(),
    {
        if samples.len() == 0 {
            self
        } else {
            self.after_all(samples.drop_last()).after(samples.last())
        }
    }

    /// Whether the `i`th packet of a run neither turns nor presses the dial.
    pub open spec fn quiet_at(self, samples: Seq<CrownSample>, i: int) -> bool {
        let state = self.after_all(samples.take(i));
        !state.button_involved(samples[i]) && state.steps(samples[i]) == 0
    }
}

/// Whether `button` is held after `inputs`, having been held or not before
/// them; `None` when a down edge comes while it is held or an up edge while it
/// is not.
pub open spec fn hold_after(
    inputs: Seq<CapturedInput>,
    button: ButtonId,
    held: bool,
) -> Option<bool>
    decreases inputs.len(),
{
    if inputs.len() == 0 {
        Some(held)
    } else {
        match hold_after(inputs.drop_last(), button, held) {
            None => None,
            Some(h) => if inputs.last() == CapturedInput::ButtonDown(button) {
                if h {
                    None
                } else {
                    Some(true)
                }
            } else if inputs.last() == CapturedInput::ButtonUp(button) {
                if h {
                    Some(false)
                } else {
                    None
                }
            } else {
                Some(h)
            },
        }
    }
}

/// The edges of a button compose: a run of inputs and then another.
pub proof fn lemma_hold_after_concat(
    a: Seq<CapturedInput>,
    b: Seq<CapturedInput>,
    button: ButtonId,
    held: bool,
)
    ensures
        hold_after(a + b, button, held) == match hold_after(a, button, held) {
            None => None::<bool>,
            Some(h) => hold_after(b, button, h),
        },
    decreases b.len(),
{
    if b.len() == 0 {
        assert(a + b =~= a);
    } else {
        lemma_hold_after_concat(a, b.drop_last(), button, held);
        assert((a + b).drop_last() =~= a + b.drop_last());
    }
}

/// Upward rotation pulses less downward ones.
pub open spec fn net_rotation(inputs: Seq<CapturedInput>) -> int
    decreases inputs.len(),
{
    if inputs.len() == 0 {
        0
    } else {
        let last = if inputs.last() == CapturedInput::ButtonPulse(ButtonId::CrownRotateUp) {
            1int
        } else if inputs.last() == CapturedInput::ButtonPulse(ButtonId::CrownRotateDown) {
            -1int
        } else {
            0int
        };
        net_rotation(inputs.drop_last()) + last
    }
}

/// How many tap pulses there are.
pub open spec fn tap_count(inputs: Seq<CapturedInput>) -> int
    decreases inputs.len(),
{
    if inputs.len() == 0 {
        0
    } else {
        let last = if inputs.last() == CapturedInput::ButtonPulse(ButtonId::CrownTap) {
            1int
        } else {
            0int
        };
        tap_count(inputs.drop_last()) + last
    }
}

/// The slots a run of packets turned.
pub open spec fn slots_turned(samples: Seq<CrownSample>) -> int
    decreases samples.len(),
{
    if samples.len() == 0 {
        0
    } else {
        slots_turned(samples.drop_last()) + samples.last().slots
    }
}

proof fn lemma_counts_concat(a: Seq<CapturedInput>, b: Seq<CapturedInput>)
    ensures
        net_rotation(a + b) == net_rotation(a) + net_rotation(b),
        tap_count(a + b) == tap_count(a) + tap_count(b),
    decreases b.len(),
{
    if b.len() == 0 {
        assert(a + b =~= a);
    } else {
        lemma_counts_concat(a, b.drop_last());
        assert((a + b).drop_last() =~= a + b.drop_last());
    }
}

/// What one packet's inputs amount to: the press edge keeps the hold in step,
/// the rotation pulses are the steps, and there is a tap pulse exactly when
/// the packet settles as a tap.
proof fn lemma_emits_counts(state: DialState, sample: CrownSample)
    ensures
        hold_after(state.emits(sample), ButtonId::CrownPress, state.pressed) == Some(
            state.after(sample).pressed,
        ),
        net_rotation(state.emits(sample)) == state.steps(sample),
        tap_count(state.emits(sample)) == if state.taps(sample) {
            1int
        } else {
            0int
        },
{
    let rotation = state.rotation(sample);
    let press = state.press_edge(sample);
    let tap = state.tap_pulse(sample);
    lemma_rotation_counts(state.steps(sample), rotation, state.pressed);
    lemma_counts_concat(rotation, press);
    lemma_counts_concat(rotation + press, tap);
    lemma_hold_after_concat(rotation, press, ButtonId::CrownPress, state.pressed);
    lemma_hold_after_concat(rotation + press, tap, ButtonId::CrownPress, state.pressed);
    reveal_with_fuel(hold_after, 2);
    reveal_with_fuel(net_rotation, 2);
    reveal_with_fuel(tap_count, 2);
}

proof fn lemma_rotation_counts(steps: int, pulses: Seq<CapturedInput>, held: bool)
    requires
        pulses.len() == magnitude(steps),
        forall|i: int|
            0 <= i < pulses.len() ==> #[trigger] pulses[i] == CapturedInput::ButtonPulse(
                if steps > 0 {
                    ButtonId::CrownRotateUp
                } else {
                    ButtonId::CrownRotateDown
                },
            ),
    ensures
        hold_after(pulses, ButtonId::CrownPress, held) == Some(held),
        net_rotation(pulses) == steps,
        tap_count(pulses) == 0,
    decreases pulses.len(),
{
    if pulses.len() > 0 {
        let fewer = if steps > 0 {
            steps - 1
        } else {
            steps + 1
        };
        lemma_rotation_counts(fewer, pulses.drop_last(), held);
    }
}

/// The press edges of any run of packets are balanced: a down edge only while
/// the crown is up, an up edge only while it is down, and after the run the
/// crown is held exactly when the translator says so.
pub proof fn law_press_edges_balance(start: DialState, samples: Seq<CrownSample>)
    ensures
        hold_after(start.emits_all(samples), ButtonId::CrownPress, start.pressed) == Some(
            start.after_all(samples).pressed,
        ),
    decreases samples.len(),
{
    if samples.len() > 0 {
        let sooner = samples.drop_last();
        law_press_edges_balance(start, sooner);
        let state = start.after_all(sooner);
        lemma_emits_counts(state, samples.last());
        lemma_hold_after_concat(
            start.emits_all(sooner),
            state.emits(samples.last()),
            ButtonId::CrownPress,
            start.pressed,
        );
    }
}

/// One packet never fires more than [`MAX_STEPS_PER_EVENT`] rotation pulses,
/// however far the dial turned.
pub proof fn law_one_packet_fires_a_bounded_burst(state: DialState, sample: CrownSample)
    ensures
        state.rotation(sample).len() <= MAX_STEPS_PER_EVENT,
        state.emits(sample).len() <= MAX_STEPS_PER_EVENT + 2,
{
}

/// Well-formedness survives every packet.
proof fn lemma_after_well_formed(state: DialState, sample: CrownSample)
    requires
        state.well_formed(),
    ensures
        state.after(sample).well_formed(),
{
    lemma_quotient_remainder(state.residue + sample.slots, state.slots_per_detent);
}

/// Free-spin travel is never rounded away: over any run of slot reports of
/// which none completes more detents than one packet may fire, the detents
/// emitted and the travel still carried add up to what was turned.
pub proof fn law_free_spin_travel_is_conserved(start: DialState, samples: Seq<CrownSample>)
    requires
        start.well_formed(),
        forall|i: int|
            0 <= i < samples.len() ==> (#[trigger] samples[i]).ratchets == 0 && magnitude(
                start.after_all(samples.take(i)).detents(samples[i]),
            ) <= MAX_STEPS_PER_EVENT,
    ensures
        net_rotation(start.emits_all(samples)) * start.slots_per_detent + start.after_all(
            samples,
        ).residue == start.residue + slots_turned(samples),
        start.after_all(samples).well_formed(),
        start.after_all(samples).slots_per_detent == start.slots_per_detent,
    decreases samples.len(),
{
    if samples.len() > 0 {
        let sooner = samples.drop_last();
        let sample = samples.last();
        assert forall|i: int| 0 <= i < sooner.len() implies (#[trigger] sooner[i]).ratchets == 0
            && magnitude(start.after_all(sooner.take(i)).detents(sooner[i]))
            <= MAX_STEPS_PER_EVENT by {
            assert(sooner[i] == samples[i]);
            assert(sooner.take(i) =~= samples.take(i));
        }
        law_free_spin_travel_is_conserved(start, sooner);
        let state = start.after_all(sooner);
        lemma_after_well_formed(state, sample);
        lemma_emits_counts(state, sample);
        lemma_counts_concat(start.emits_all(sooner), state.emits(sample));
        assert(samples[samples.len() - 1] == sample);
        assert(samples.take(samples.len() - 1) =~= sooner);
        let a = net_rotation(start.emits_all(sooner));
        let b = state.steps(sample);
        let d = start.slots_per_detent;
        assert((a + b) * d == a * d + b * d) by (nonlinear_arith);
        if sample.slots == 0 {
            assert(b * d == 0) by (nonlinear_arith)
                requires
                    b == 0,
            ;
        }
    } else {
        assert(0 * start.slots_per_detent == 0) by (nonlinear_arith);
    }
}

/// The state once the travel of a run of packets was taken in.
pub open spec fn turned_all(start: DialState, samples: Seq<CrownSample>) -> DialState
    decreases samples.len(),
{
    if samples.len() == 0 {
        start
    } else {
        turned_all(start, samples.drop_last()).turned(samples.last())
    }
}

/// The detent steps of a run of packets, added up.
pub open spec fn steps_taken(start: DialState, samples: Seq<CrownSample>) -> int
    decreases samples.len(),
{
    if samples.len() == 0 {
        0
    } else {
        steps_taken(start, samples.drop_last()) + turned_all(start, samples.drop_last()).steps(
            samples.last(),
        )
    }
}

/// Quantising free-spin travel loses and invents nothing: over any run of slot
/// reports that stays within the ceiling, the steps taken account for all the
/// travel but what is still carried, which is always less than one detent. A
/// dial with nothing banked is thus never a whole detent out.
pub proof fn law_rotation_steps_account_for_all_travel(
    start: DialState,
    samples: Seq<CrownSample>,
)
    requires
        start.well_formed(),
        forall|i: int|
            0 <= i < samples.len() ==> (#[trigger] samples[i]).ratchets == 0 && magnitude(
                turned_all(start, samples.take(i)).detents(samples[i]),
            ) <= MAX_STEPS_PER_EVENT,
    ensures
        steps_taken(start, samples) * start.slots_per_detent + turned_all(start, samples).residue
            == start.residue + slots_turned(samples),
        turned_all(start, samples).well_formed(),
        turned_all(start, samples).slots_per_detent == start.slots_per_detent,
        start.residue == 0 ==> magnitude(
            slots_turned(samples) - start.slots_per_detent * steps_taken(start, samples),
        ) < magnitude(start.slots_per_detent),
    decreases samples.len(),
{
    let d = start.slots_per_detent;
    if samples.len() > 0 {
        let sooner = samples.drop_last();
        let sample = samples.last();
        assert forall|i: int| 0 <= i < sooner.len() implies (#[trigger] sooner[i]).ratchets == 0
            && magnitude(turned_all(start, sooner.take(i)).detents(sooner[i]))
            <= MAX_STEPS_PER_EVENT by {
            assert(sooner[i] == samples[i]);
            assert(sooner.take(i) =~= samples.take(i));
        }
        law_rotation_steps_account_for_all_travel(start, sooner);
        let state = turned_all(start, sooner);
        lemma_after_well_formed(state, sample);
        assert(samples[samples.len() - 1] == sample);
        assert(samples.take(samples.len() - 1) =~= sooner);
        let a = steps_taken(start, sooner);
        let b = state.steps(sample);
        assert((a + b) * d == a * d + b * d) by (nonlinear_arith);
        if sample.slots == 0 {
            assert(b * d == 0) by (nonlinear_arith)
                requires
                    b == 0,
            ;
        }
    } else {
        assert(0 * d == 0) by (nonlinear_arith);
    }
    let total = steps_taken(start, samples);
    assert(total * d == d * total) by (nonlinear_arith);
}

/// Turning back cancels banked travel rather than completing a detent in the
/// new direction: a turn that completes no detent and its reversal emit no
/// rotation, and leave just the travel that was banked before.
pub proof fn law_reversing_banks_no_step(state: DialState, out: CrownSample, back: CrownSample)
    requires
        state.well_formed(),
        out.ratchets == 0,
        back.ratchets == 0,
        back.slots == -out.slots,
        magnitude(state.residue + out.slots) < magnitude(state.slots_per_detent),
    ensures
        state.rotation(out).len() == 0,
        state.after(out).rotation(back).len() == 0,
        state.after(out).after(back).residue == state.residue,
{
    let d = magnitude(state.slots_per_detent);
    let there = magnitude(state.residue + out.slots);
    assert(there / d == 0) by (nonlinear_arith)
        requires
            0 <= there < d,
    ;
    let here = magnitude(state.residue);
    assert(here / d == 0) by (nonlinear_arith)
        requires
            0 <= here < d,
    ;
    assert(0 * state.slots_per_detent == 0) by (nonlinear_arith);
}

/// A ratchet report is authoritative: it emits its own count, whatever slots
/// it carries and whatever travel was banked, and leaves nothing banked.
pub proof fn law_ratchet_report_discards_banked_travel(state: DialState, sample: CrownSample)
    requires
        sample.ratchets != 0,
    ensures
        net_rotation(state.emits(sample)) == clamped(
            sample.ratchets as int,
            -(MAX_STEPS_PER_EVENT as int),
            MAX_STEPS_PER_EVENT as int,
        ),
        state.after(sample).residue == 0,
{
    lemma_emits_counts(state, sample);
}

/// A packet in which the button takes part never pulses the tap: the finger
/// pressing the crown is not also tapping it.
pub proof fn law_a_press_is_never_also_a_tap(state: DialState, sample: CrownSample)
    requires
        state.button_involved(sample),
    ensures
        tap_count(state.emits(sample)) == 0,
{
    lemma_emits_counts(state, sample);
}

/// Whether a run is one finger contact: the finger lands in its first packet,
/// leaves in its last, and does neither in between.
pub open spec fn is_one_contact(samples: Seq<CrownSample>) -> bool {
    &&& samples.len() >= 2
    &&& samples[0].touch == TouchPhase::Start
    &&& samples.last().touch == TouchPhase::Stop
    &&& forall|i: int|
        0 < i < samples.len() - 1 ==> (#[trigger] samples[i]).touch != TouchPhase::Start
            && samples[i].touch != TouchPhase::Stop
}

/// One contact, one outcome: a contact pulses the tap once if the firmware
/// called it a tap at any point and it neither turned nor pressed the dial,
/// and not at all otherwise. Whatever contact went before it plays no part,
/// and none is left open after it.
pub proof fn law_one_contact_one_outcome(start: DialState, samples: Seq<CrownSample>)
    requires
        is_one_contact(samples),
    ensures
        tap_count(start.emits_all(samples)) == (if (exists|i: int|
            0 <= i < samples.len() && (#[trigger] samples[i]).tap) && (forall|i: int|
            0 <= i < samples.len() ==> #[trigger] start.quiet_at(samples, i)) {
            1int
        } else {
            0int
        }),
        start.after_all(samples).contact is None,
{
    let n = samples.len() - 1;
    let sooner = samples.drop_last();
    assert(sooner =~= samples.take(n));
    lemma_contact_so_far(start, samples, n);
    let state = start.after_all(sooner);
    lemma_emits_counts(state, samples.last());
    lemma_counts_concat(start.emits_all(sooner), state.emits(samples.last()));
    let tapped = exists|i: int| 0 <= i < samples.len() && (#[trigger] samples[i]).tap;
    let quiet = forall|i: int| 0 <= i < samples.len() ==> #[trigger] start.quiet_at(samples, i);
    let c = state.contact_at(samples.last())->0;
    assert(c.tap_seen == tapped) by {
        if samples.last().tap {
            assert(samples[n].tap);
        }
    }
    assert(c.disqualified == !quiet) by {
        assert(start.quiet_at(samples, n) == (!state.button_involved(samples.last())
            && state.steps(samples.last()) == 0));
    }
}

proof fn lemma_contact_so_far(start: DialState, samples: Seq<CrownSample>, n: int)
    requires
        is_one_contact(samples),
        0 < n < samples.len(),
    ensures
        tap_count(start.emits_all(samples.take(n))) == 0,
        start.after_all(samples.take(n)).contact is Some,
        start.after_all(samples.take(n)).contact->0.tap_seen == (exists|i: int|
            0 <= i < n && (#[trigger] samples[i]).tap),
        start.after_all(samples.take(n)).contact->0.disqualified == !(forall|i: int|
            0 <= i < n ==> #[trigger] start.quiet_at(samples, i)),
    decreases n,
{
    let part = samples.take(n);
    let sooner = samples.take(n - 1);
    assert(part.drop_last() =~= sooner);
    assert(part.last() == samples[n - 1]);
    let state = start.after_all(sooner);
    let sample = samples[n - 1];
    lemma_emits_counts(state, sample);
    lemma_counts_concat(start.emits_all(sooner), state.emits(sample));
    assert(start.quiet_at(samples, n - 1) == (!state.button_involved(sample) && state.steps(sample)
        == 0));
    if n > 1 {
        lemma_contact_so_far(start, samples, n - 1);
        if exists|i: int| 0 <= i < n && (#[trigger] samples[i]).tap {
            let i = choose|i: int| 0 <= i < n && (#[trigger] samples[i]).tap;
            assert(i < n - 1 || sample.tap);
        }
        if sample.tap {
            assert(samples[n - 1].tap);
        }
    } else {
        assert(sooner =~= Seq::<CrownSample>::empty());
        if sample.tap {
            assert(samples[0].tap);
        }
    }
}

/// A hand near the dial, or a finger resting on it, dispatches nothing: a
/// packet with no rotation, no press and no tap gesture emits no input while
/// the crown is up, unless it is the finger leaving after a tap.
pub proof fn law_resting_near_the_dial_dispatches_nothing(state: DialState, update: CrownUpdate)
    requires
        update.relative_ratchet_rotation == 0,
        update.relative_slot_rotation == 0,
        update.button == ButtonState::Inactive,
        update.gesture != CrownGesture::Tap,
        !state.pressed,
        !(update.touch == ActivityState::Stop && state.contact is Some
            && state.contact->0.tap_seen && !state.contact->0.disqualified),
    ensures
        state.emits(sample_of(update)) == Seq::<CapturedInput>::empty(),
        state.after(sample_of(update)).residue == state.residue,
{
    assert(state.emits(sample_of(update)) =~= Seq::<CapturedInput>::empty());
}

/// Where the crown's counts can be divided, a detent is the whole number of
/// slots that each ratchet has: that many fit and one more would not. Where
/// they cannot, it is eight.
pub proof fn law_a_detent_is_the_whole_quotient(slots: u16, ratchets: u16)
    ensures
        1 <= ratchets <= slots ==> {
            let r = detent_slots(slots, ratchets);
            &&& 1 <= r
            &&& r * ratchets <= slots
            &&& slots < (r + 1) * ratchets
        },
        ratchets == 0 || slots < ratchets ==> detent_slots(slots, ratchets) == 8,
{
    let s = slots as int;
    let d = ratchets as int;
    if 1 <= d <= s {
        let q = s / d;
        assert(1 <= q && q * d <= s && s < (q + 1) * d) by (nonlinear_arith)
            requires
                1 <= d <= s,
                q == s / d,
        ;
    }
}

/// Whether travel of `total` slots is `q` whole detents of `d` slots and `left`
/// slots more, neither turning the other way.
pub open spec fn splits(total: int, d: int, q: int, left: int) -> bool {
    &&& total == q * d + left
    &&& magnitude(left) < magnitude(d)
    &&& total >= 0 ==> left >= 0
    &&& total <= 0 ==> left <= 0
}

/// Free-spin travel turns the dial by the whole detents in it, eight at most,
/// and keeps what is left over; a packet without travel keeps what there was.
pub proof fn law_free_spin_turns_by_whole_detents(state: DialState, sample: CrownSample)
    requires
        state.well_formed(),
        sample.ratchets == 0,
    ensures
        exists|q: int|
            {
                &&& #[trigger] splits(
                    state.residue + sample.slots,
                    state.slots_per_detent,
                    q,
                    state.after(sample).residue,
                )
                &&& net_rotation(state.emits(sample)) == if q > 8 {
                    8
                } else if q < -8 {
                    -8
                } else {
                    q
                }
            },
        sample.slots == 0 ==> state.after(sample).residue == state.residue && net_rotation(
            state.emits(sample),
        ) == 0,
{
    lemma_emits_counts(state, sample);
    let d = state.slots_per_detent;
    let total = state.residue + sample.slots;
    let q = state.detents(sample);
    lemma_quotient_remainder(total, d);
    if sample.slots == 0 {
        assert(0 * d == 0) by (nonlinear_arith);
        assert(splits(total, d, q, state.after(sample).residue));
    } else {
        let left = total - q * d;
        let m = magnitude(total);
        let e = magnitude(d);
        assert(0 <= e * (m / e) <= m) by (nonlinear_arith)
            requires
                e > 0,
                m >= 0,
        ;
        assert(q * d == if total < 0 {
            -(e * (m / e))
        } else {
            e * (m / e)
        }) by (nonlinear_arith)
            requires
                q == quotient(total, d),
                m == magnitude(total),
                e == magnitude(d),
                d != 0,
        ;
        assert(splits(total, d, q, left));
        assert(left == state.after(sample).residue);
    }
}

/// A ratchet report turns the dial by just its own count, eight at most, and
/// leaves nothing over.
pub proof fn law_a_ratchet_report_turns_by_its_count(state: DialState, sample: CrownSample)
    requires
        sample.ratchets != 0,
    ensures
        net_rotation(state.emits(sample)) == if sample.ratchets > 8 {
            8
        } else if sample.ratchets < -8 {
            -8
        } else {
            sample.ratchets as int
        },
        state.after(sample).residue == 0,
{
    lemma_emits_counts(state, sample);
}

/// One packet's inputs come in order: its rotation pulses, all one way, then at
/// most one edge of the press, then at most one tap.
pub proof fn law_one_packet_is_dispatched_in_order(state: DialState, sample: CrownSample)
    ensures
        ({
            let out = state.emits(sample);
            let net = net_rotation(out);
            let n = magnitude(net);
            let up = CapturedInput::ButtonPulse(ButtonId::CrownRotateUp);
            let down = CapturedInput::ButtonPulse(ButtonId::CrownRotateDown);
            let tap = CapturedInput::ButtonPulse(ButtonId::CrownTap);
            &&& n <= out.len() <= n + 2
            &&& forall|i: int|
                0 <= i < n ==> #[trigger] out[i] == if net > 0 {
                    up
                } else {
                    down
                }
            &&& forall|i: int|
                n <= i < out.len() ==> {
                    ||| #[trigger] out[i] == CapturedInput::ButtonDown(ButtonId::CrownPress)
                    ||| out[i] == CapturedInput::ButtonUp(ButtonId::CrownPress)
                    ||| out[i] == tap
                }
            &&& forall|i: int|
                0 <= i < out.len() - 1 ==> #[trigger] out[i] != tap
        }),
{
    lemma_emits_counts(state, sample);
}

/// The hold follows the button: going down, or long, holds it, coming up or
/// lying idle lets go, and anything else leaves it. Each change makes its one
/// edge, and no edge comes without one.
pub proof fn law_the_hold_follows_the_button(state: DialState, sample: CrownSample)
    ensures
        ({
            let next = state.after(sample);
            let out = state.emits(sample);
            &&& sample.button == ButtonState::Press || sample.button == ButtonState::LongPress
                ==> next.pressed
            &&& sample.button == ButtonState::Release || sample.button == ButtonState::Inactive
                ==> !next.pressed
            &&& sample.button == ButtonState::ShortPressActive || sample.button
                == ButtonState::LongPressActive || sample.button is Other ==> next.pressed
                == state.pressed
            &&& out.contains(CapturedInput::ButtonDown(ButtonId::CrownPress)) <==> !state.pressed
                && next.pressed
            &&& out.contains(CapturedInput::ButtonUp(ButtonId::CrownPress)) <==> state.pressed
                && !next.pressed
            &&& next.slots_per_detent == state.slots_per_detent
        }),
{
    let out = state.emits(sample);
    let n = state.rotation(sample).len();
    if state.goes_down(sample) || state.comes_up(sample) {
        assert(out[n as int] == state.press_edge(sample)[0]);
    }
    assert forall|i: int| 0 <= i < out.len() implies (#[trigger] out[i]
        == CapturedInput::ButtonDown(ButtonId::CrownPress) ==> state.goes_down(sample)) && (out[i]
        == CapturedInput::ButtonUp(ButtonId::CrownPress) ==> state.comes_up(sample)) by {
        if i < n {
            assert(out[i] == state.rotation(sample)[i]);
        }
    }
}

/// What a packet makes of a tap. Outside a contact the packet alone decides:
/// the gesture counts unless the button is held or active. Within one nothing
/// is decided until the finger leaves: then it was a tap if the gesture was
/// seen at any point, and the dial was neither turned nor pressed. A finger
/// that lands begins anew, whatever came before.
pub proof fn law_what_a_packet_makes_of_a_tap(state: DialState, sample: CrownSample)
    ensures
        ({
            let out = state.emits(sample);
            let next = state.after(sample);
            let tapped = out.contains(CapturedInput::ButtonPulse(ButtonId::CrownTap));
            let spoilt = state.pressed || sample.button != ButtonState::Inactive || net_rotation(
                out,
            ) != 0;
            let before = if sample.touch == TouchPhase::Start {
                Some(Contact { tap_seen: false, disqualified: false })
            } else {
                state.contact
            };
            match before {
                None => {
                    &&& tapped <==> sample.tap && !state.pressed && sample.button
                        == ButtonState::Inactive
                    &&& next.contact is None
                },
                Some(c) => if sample.touch == TouchPhase::Stop {
                    &&& tapped <==> (c.tap_seen || sample.tap) && !c.disqualified && !spoilt
                    &&& next.contact is None
                } else {
                    &&& !tapped
                    &&& next.contact == Some(
                        Contact {
                            tap_seen: c.tap_seen || sample.tap,
                            disqualified: c.disqualified || spoilt,
                        },
                    )
                },
            }
        }),
{
    lemma_emits_counts(state, sample);
    let out = state.emits(sample);
    let tap = CapturedInput::ButtonPulse(ButtonId::CrownTap);
    let n = state.rotation(sample).len();
    if state.taps(sample) {
        assert(out[out.len() - 1] == tap);
    }
    assert forall|i: int| 0 <= i < out.len() && #[trigger] out[i] == tap implies state.taps(
        sample,
    ) by {
        if i < n {
            assert(out[i] == state.rotation(sample)[i]);
        }
    }
}

/// What of a packet matters: its rotation, its touch, its button, and whether
/// it reports a tap. How near a hand is, and any other gesture, plays no part.
pub proof fn law_only_what_counts_of_a_packet_matters(
    state: DialState,
    a: CrownUpdate,
    b: CrownUpdate,
)
    requires
        a.relative_slot_rotation == b.relative_slot_rotation,
        a.relative_ratchet_rotation == b.relative_ratchet_rotation,
        a.touch == b.touch,
        a.button == b.button,
        (a.gesture == CrownGesture::Tap) == (b.gesture == CrownGesture::Tap),
    ensures
        state.emits(sample_of(a)) == state.emits(sample_of(b)),
        state.after(sample_of(a)) == state.after(sample_of(b)),
{
}

/// A packet is read field by field: ratchets as ratchets, slots as slots, the
/// button as it is, the single tap alone as a tap, and each touch phase as its
/// own, with none for a byte that no phase defines.
pub proof fn law_a_packet_is_read_field_by_field(u: CrownUpdate)
    ensures
        ({
            let s = sample_of(u);
            &&& s.ratchets == u.relative_ratchet_rotation
            &&& s.slots == u.relative_slot_rotation
            &&& s.button == u.button
            &&& s.tap <==> u.gesture is Tap
            &&& s.touch is Start <==> u.touch is Start
            &&& s.touch is Active <==> u.touch is Active
            &&& s.touch is Stop <==> u.touch is Stop
            &&& s.touch is Idle <==> u.touch is Inactive || u.touch is Other
        }),
{
}

} // verus!
