//! What a crown reports about itself, the modes it can be written, and the
//! report that shows both.

use vstd::prelude::*;

use crate::text::{decimal, owned};

verus! {

/// Who consumes the crown's rotation.
#[derive(Debug, Clone, Copy, PartialEq, Eq, Structural)]
pub enum ReportingMode {
    /// Leave it as it is. A write-only sentinel.
    NoChange,
    /// The firmware's native function.
    Hid,
    /// The host, over HID++.
    Diverted,
    /// A byte outside the defined values.
    Other(u8),
}

/// How the dial turns.
#[derive(Debug, Clone, Copy, PartialEq, Eq, Structural)]
pub enum RatchetMode {
    /// Leave it as it is. A write-only sentinel.
    NoChange,
    /// Without detents.
    Free,
    /// In detents.
    Ratchet,
    /// A byte outside the defined values.
    Other(u8),
}

/// One write of the crown's mode. `NoChange` and `0` leave a setting alone.
#[derive(Debug, Clone, Copy, PartialEq, Eq, Structural)]
pub struct SetCrownMode {
    /// Who consumes rotation.
    pub diverting: ReportingMode,
    /// How the dial turns.
    pub ratchet_mode: RatchetMode,
    /// Rotation timeout, in 10 ms steps.
    pub rotation_timeout: u8,
    /// Short/long press boundary, in 10 ms steps.
    pub short_long_timeout: u8,
    /// Double-tap window, in 10 ms steps.
    pub double_tap_speed: u8,
}

/// The write that hands rotation to `reporting` and touches nothing else: the
/// ratchet mode and the three timeouts belong to the user.
pub open spec fn mode_write(reporting: ReportingMode) -> SetCrownMode {
    SetCrownMode {
        diverting: reporting,
        ratchet_mode: RatchetMode::NoChange,
        rotation_timeout: 0,
        short_long_timeout: 0,
        double_tap_speed: 0,
    }
}

impl SetCrownMode {
    /// Hand rotation to `reporting` and leave every other setting alone.
    pub fn reporting_only(reporting: ReportingMode) -> (r: Self)
        ensures
            r == mode_write(reporting),
    {
        SetCrownMode {
            diverting: reporting,
            ratchet_mode: RatchetMode::NoChange,
            rotation_timeout: 0,
            short_long_timeout: 0,
            double_tap_speed: 0,
        }
    }
}

/// What a crown's own description says: its geometry and its capabilities.
#[derive(Debug, Clone, Copy, PartialEq, Eq, Structural)]
pub struct CrownInfo {
    /// Slots (fine steps) per full revolution.
    pub slots: u16,
    /// Ratchet detents per full revolution.
    pub ratchets: u16,
    /// There is a physical button.
    pub button: bool,
    /// The button distinguishes a long press.
    pub button_long_press: bool,
    /// The short/long press boundary can be written.
    pub short_long_timeout_configurable: bool,
    /// The double-tap window can be written.
    pub double_tap_speed_configurable: bool,
    /// A touch phase is reported.
    pub touch: bool,
    /// A proximity phase is reported.
    pub proximity: bool,
    /// A tap is recognised.
    pub tap_gesture: bool,
    /// A double tap is recognised.
    pub double_tap_gesture: bool,
}

/// The mode a crown reports when it is read.
#[derive(Debug, Clone, Copy, PartialEq, Eq, Structural)]
pub struct CrownModeReport {
    /// Who consumes rotation.
    pub diverting: ReportingMode,
    /// How the dial turns.
    pub ratchet_mode: RatchetMode,
    /// Rotation timeout, in 10 ms steps.
    pub rotation_timeout: u8,
    /// Short/long press boundary, in 10 ms steps.
    pub short_long_timeout: u8,
    /// Double-tap window, in 10 ms steps.
    pub double_tap_speed: u8,
}

/// What a crown reports about itself and its current mode.
#[derive(Debug, Clone, Copy, PartialEq, Eq, Structural)]
pub struct CrownState {
    /// Slots (fine steps) per full revolution.
    pub slots_per_revolution: u16,
    /// Ratchet detents per full revolution.
    pub ratchets_per_revolution: u16,
    /// Whether the crown has a physical button.
    pub has_button: bool,
    /// Whether the crown detects a touch tap.
    pub has_tap: bool,
    /// Whether the crown reports a touch phase (finger on/off).
    pub has_touch: bool,
    /// Whether the crown reports a proximity phase (hand nearby).
    pub has_proximity: bool,
    /// Whether the crown detects a double tap distinct from a single one.
    pub has_double_tap: bool,
    /// Whether the button distinguishes a long press from a short one.
    pub has_long_press: bool,
    /// Whether the firmware's short/long press boundary is configurable.
    pub short_long_configurable: bool,
    /// Whether the firmware's double-tap window is configurable.
    pub double_tap_configurable: bool,
    /// Current rotation timeout, in 10 ms steps.
    pub rotation_timeout: u8,
    /// Current short/long press boundary, in 10 ms steps.
    pub short_long_timeout: u8,
    /// Current double-tap window, in 10 ms steps.
    pub double_tap_speed: u8,
    /// Whether rotation currently goes to HID++ instead of the firmware's
    /// native function. `None` for a mode byte that no read defines.
    pub diverted: Option<bool>,
    /// Whether the crown is in ratchet (detented) rather than free-spin mode.
    /// `None` for a mode byte that no read defines.
    pub ratcheting: Option<bool>,
}

/// Whether a reported mode means that the host owns rotation. `NoChange` is a
/// write-only sentinel: a device answering a read with it reports something
/// undefined, as does any other byte.
pub open spec fn host_owned(reporting: ReportingMode) -> Option<bool> {
    match reporting {
        ReportingMode::Diverted => Some(true),
        ReportingMode::Hid => Some(false),
        _ => None,
    }
}

/// Whether a reported mode means that the dial turns in detents.
pub open spec fn detented(ratchet: RatchetMode) -> Option<bool> {
    match ratchet {
        RatchetMode::Ratchet => Some(true),
        RatchetMode::Free => Some(false),
        _ => None,
    }
}

impl CrownState {
    /// The state that a crown's description and its current mode make up.
    pub fn new(info: CrownInfo, mode: CrownModeReport) -> (r: Self)
        ensures
            r == (CrownState {
                slots_per_revolution: info.slots,
                ratchets_per_revolution: info.ratchets,
                has_button: info.button,
                has_tap: info.tap_gesture,
                has_touch: info.touch,
                has_proximity: info.proximity,
                has_double_tap: info.double_tap_gesture,
                has_long_press: info.button_long_press,
                short_long_configurable: info.short_long_timeout_configurable,
                double_tap_configurable: info.double_tap_speed_configurable,
                rotation_timeout: mode.rotation_timeout,
                short_long_timeout: mode.short_long_timeout,
                double_tap_speed: mode.double_tap_speed,
                diverted: host_owned(mode.diverting),
                ratcheting: detented(mode.ratchet_mode),
            }),
    {
        CrownState {
            slots_per_revolution: info.slots,
            ratchets_per_revolution: info.ratchets,
            has_button: info.button,
            has_tap: info.tap_gesture,
            has_touch: info.touch,
            has_proximity: info.proximity,
            has_double_tap: info.double_tap_gesture,
            has_long_press: info.button_long_press,
            short_long_configurable: info.short_long_timeout_configurable,
            double_tap_configurable: info.double_tap_speed_configurable,
            rotation_timeout: mode.rotation_timeout,
            short_long_timeout: mode.short_long_timeout,
            double_tap_speed: mode.double_tap_speed,
            diverted: match mode.diverting {
                ReportingMode::Diverted => Some(true),
                ReportingMode::Hid => Some(false),
                _ => None,
            },
            ratcheting: match mode.ratchet_mode {
                RatchetMode::Ratchet => Some(true),
                RatchetMode::Free => Some(false),
                _ => None,
            },
        }
    }
}

/// The word for a capability.
pub open spec fn yes_no_word(value: bool) -> Seq<char> {
    if value {
        "yes"@
    } else {
        "no"@
    }
}

/// The word for a capability.
pub fn yes_no(value: bool) -> (r: &'static str)
    ensures
        r@ == yes_no_word(value),
{
    if value {
        "yes"
    } else {
        "no"
    }
}

/// The words for a mode that may be undefined.
pub open spec fn tristate_words(
    value: Option<bool>,
    when_true: Seq<char>,
    when_false: Seq<char>,
) -> Seq<char> {
    match value {
        Some(true) => when_true,
        Some(false) => when_false,
        None => "unknown (undefined mode byte)"@,
    }
}

/// The words for a mode that may be undefined. A mode byte that no read
/// defines is reported as unknown rather than collapsed into either state.
pub fn tristate(
    value: Option<bool>,
    when_true: &'static str,
    when_false: &'static str,
) -> (r: &'static str)
    ensures
        r@ == tristate_words(value, when_true@, when_false@),
{
    match value {
        Some(true) => when_true,
        Some(false) => when_false,
        None => "unknown (undefined mode byte)",
    }
}

/// The first line of the report: the dial's geometry.
pub open spec fn geometry_line(state: CrownState) -> Seq<char> {
    "  geometry: "@ + crate::text::decimal_digits(state.slots_per_revolution as nat) + " slots / "@
        + crate::text::decimal_digits(state.ratchets_per_revolution as nat)
        + " ratchets per revolution"@
}

/// The second line: the controls besides rotation.
pub open spec fn controls_line(state: CrownState) -> Seq<char> {
    "  controls: button="@ + yes_no_word(state.has_button) + " tap="@ + yes_no_word(state.has_tap)
}

/// The third line: who owns the dial right now, and how it turns.
pub open spec fn mode_line(state: CrownState) -> Seq<char> {
    "  mode: reporting="@ + tristate_words(
        state.diverted,
        "diverted (host-owned)"@,
        "native (firmware)"@,
    ) + " ratchet="@ + tristate_words(state.ratcheting, "ratchet"@, "free-spin"@)
}

/// The report on a crown's state, line by line. `diverted` means that some
/// host software translates rotation itself, so the crown's native function is
/// not running.
pub fn state_lines(state: CrownState) -> (r: Vec<String>)
    ensures
        r@.len() == 3,
        r@[0]@ == geometry_line(state),
        r@[1]@ == controls_line(state),
        r@[2]@ == mode_line(state),
{
    let mut geometry = owned("  geometry: ");
    geometry.append(decimal(state.slots_per_revolution).as_str());
    geometry.append(" slots / ");
    geometry.append(decimal(state.ratchets_per_revolution).as_str());
    geometry.append(" ratchets per revolution");

    let mut controls = owned("  controls: button=");
    controls.append(yes_no(state.has_button));
    controls.append(" tap=");
    controls.append(yes_no(state.has_tap));

    let mut mode = owned("  mode: reporting=");
    mode.append(tristate(state.diverted, "diverted (host-owned)", "native (firmware)"));
    mode.append(" ratchet=");
    mode.append(tristate(state.ratcheting, "ratchet", "free-spin"));

    let mut lines: Vec<String> = Vec::new();
    lines.push(geometry);
    lines.push(controls);
    lines.push(mode);
    lines
}

/// A mode write hands rotation to whom it names and touches nothing of the
/// user's: neither how the dial turns nor any of its timeouts.
pub proof fn law_a_mode_write_touches_rotation_alone(reporting: ReportingMode)
    ensures
        mode_write(reporting).diverting == reporting,
        mode_write(reporting).ratchet_mode == RatchetMode::NoChange,
        mode_write(reporting).rotation_timeout == 0,
        mode_write(reporting).short_long_timeout == 0,
        mode_write(reporting).double_tap_speed == 0,
{
}

/// A read is believed only where it is defined: the host owns rotation exactly
/// when it is reported diverted and the firmware exactly when it is reported
/// native, the dial turns in detents exactly when it reports so and freely
/// exactly when it reports that, and every other byte is unknown.
pub proof fn law_an_undefined_byte_is_unknown(reporting: ReportingMode, ratchet: RatchetMode)
    ensures
        host_owned(reporting) == Some(true) <==> reporting is Diverted,
        host_owned(reporting) == Some(false) <==> reporting is Hid,
        host_owned(reporting) is None <==> reporting is NoChange || reporting is Other,
        detented(ratchet) == Some(true) <==> ratchet is Ratchet,
        detented(ratchet) == Some(false) <==> ratchet is Free,
        detented(ratchet) is None <==> ratchet is NoChange || ratchet is Other,
{
}

/// The report's words tell every state apart: yes from no, and each of two
/// modes from the other and from a mode that is unknown.
pub proof fn law_the_words_tell_states_apart(value: bool, mode: Option<bool>)
    ensures
        yes_no_word(value) == if value {
            "yes"@
        } else {
            "no"@
        },
        tristate_words(Some(true), "diverted (host-owned)"@, "native (firmware)"@)
            == "diverted (host-owned)"@,
        tristate_words(Some(false), "diverted (host-owned)"@, "native (firmware)"@)
            == "native (firmware)"@,
        tristate_words(mode, "ratchet"@, "free-spin"@) == "unknown (undefined mode byte)"@
            <==> mode is None,
        tristate_words(mode, "ratchet"@, "free-spin"@) == "ratchet"@ <==> mode == Some(true),
        tristate_words(mode, "ratchet"@, "free-spin"@) == "free-spin"@ <==> mode == Some(false),
{
    reveal_strlit("ratchet");
    reveal_strlit("free-spin");
    reveal_strlit("unknown (undefined mode byte)");
    assert("ratchet"@[0] == 'r');
    assert("free-spin"@[0] == 'f');
    assert("unknown (undefined mode byte)"@[0] == 'u');
}

/// The report says what the crown reported: the two counts in decimal, which
/// of the button and the tap there is, and who owns rotation and how it turns.
pub proof fn law_the_report_says_what_was_read(state: CrownState)
    ensures
        geometry_line(state) == "  geometry: "@ + crate::text::decimal_digits(
            state.slots_per_revolution as nat,
        ) + " slots / "@ + crate::text::decimal_digits(state.ratchets_per_revolution as nat)
            + " ratchets per revolution"@,
        controls_line(state) == "  controls: button="@ + (if state.has_button {
            "yes"@
        } else {
            "no"@
        }) + " tap="@ + (if state.has_tap {
            "yes"@
        } else {
            "no"@
        }),
        state.diverted == Some(true) && state.ratcheting == Some(true) ==> mode_line(state)
            == "  mode: reporting="@ + "diverted (host-owned)"@ + " ratchet="@ + "ratchet"@,
        state.diverted == Some(true) && state.ratcheting == Some(false) ==> mode_line(state)
            == "  mode: reporting="@ + "diverted (host-owned)"@ + " ratchet="@ + "free-spin"@,
        state.diverted == Some(false) && state.ratcheting == Some(true) ==> mode_line(state)
            == "  mode: reporting="@ + "native (firmware)"@ + " ratchet="@ + "ratchet"@,
        state.diverted == Some(false) && state.ratcheting == Some(false) ==> mode_line(state)
            == "  mode: reporting="@ + "native (firmware)"@ + " ratchet="@ + "free-spin"@,
{
}

} // verus!
