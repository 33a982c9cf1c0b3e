//! The report on a crown.

use crown::crown_state::{
    state_lines, tristate, yes_no, CrownInfo, CrownModeReport, CrownState, RatchetMode,
    ReportingMode, SetCrownMode,
};

fn info() -> CrownInfo {
    CrownInfo {
        slots: 960,
        ratchets: 24,
        button: true,
        button_long_press: false,
        short_long_timeout_configurable: true,
        double_tap_speed_configurable: false,
        touch: true,
        proximity: false,
        tap_gesture: false,
        double_tap_gesture: true,
    }
}

fn mode(diverting: ReportingMode, ratchet_mode: RatchetMode) -> CrownModeReport {
    CrownModeReport {
        diverting,
        ratchet_mode,
        rotation_timeout: 1,
        short_long_timeout: 2,
        double_tap_speed: 3,
    }
}

#[test]
fn a_state_takes_every_capability_from_its_own_bit() {
    let state = CrownState::new(info(), mode(ReportingMode::Diverted, RatchetMode::Free));
    assert_eq!(
        state,
        CrownState {
            slots_per_revolution: 960,
            ratchets_per_revolution: 24,
            has_button: true,
            has_tap: false,
            has_touch: true,
            has_proximity: false,
            has_double_tap: true,
            has_long_press: false,
            short_long_configurable: true,
            double_tap_configurable: false,
            rotation_timeout: 1,
            short_long_timeout: 2,
            double_tap_speed: 3,
            diverted: Some(true),
            ratcheting: Some(false),
        }
    );
}

#[test]
fn an_undefined_mode_byte_is_unknown() {
    let state = CrownState::new(info(), mode(ReportingMode::NoChange, RatchetMode::Other(7)));
    assert_eq!(state.diverted, None);
    assert_eq!(state.ratcheting, None);
    assert_eq!(
        state_lines(state)[2],
        "  mode: reporting=unknown (undefined mode byte) ratchet=unknown (undefined mode byte)"
    );
}

#[test]
fn the_report_has_three_lines() {
    let state = CrownState::new(info(), mode(ReportingMode::Hid, RatchetMode::Ratchet));
    assert_eq!(
        state_lines(state),
        vec![
            "  geometry: 960 slots / 24 ratchets per revolution".to_string(),
            "  controls: button=yes tap=no".to_string(),
            "  mode: reporting=native (firmware) ratchet=ratchet".to_string(),
        ]
    );
    let host = CrownState::new(info(), mode(ReportingMode::Diverted, RatchetMode::Free));
    assert_eq!(
        state_lines(host)[2],
        "  mode: reporting=diverted (host-owned) ratchet=free-spin"
    );
    let flat = CrownState {
        slots_per_revolution: 0,
        ratchets_per_revolution: 65535,
        ..state
    };
    assert_eq!(
        state_lines(flat)[0],
        "  geometry: 0 slots / 65535 ratchets per revolution"
    );
}

#[test]
fn the_words_for_flags() {
    assert_eq!(yes_no(true), "yes");
    assert_eq!(yes_no(false), "no");
    assert_eq!(tristate(Some(true), "a", "b"), "a");
    assert_eq!(tristate(Some(false), "a", "b"), "b");
    assert_eq!(tristate(None, "a", "b"), "unknown (undefined mode byte)");
}

#[test]
fn a_divert_leaves_every_other_setting_alone() {
    let write = SetCrownMode::reporting_only(ReportingMode::Diverted);
    assert_eq!(write.ratchet_mode, RatchetMode::NoChange);
    assert_eq!(write.rotation_timeout, 0);
    assert_eq!(write.short_long_timeout, 0);
    assert_eq!(write.double_tap_speed, 0);
}
