//! Crown modes: what a mode assigns, and how the dial cycles through a list.

use crown::binding::{Action, ButtonId};
use crown::crown_mode::{CrownMode, CrownModeState, CrownModes};

fn mode(name: &str, up: Action) -> CrownMode {
    CrownMode {
        name: name.into(),
        rotate_up: Some(up),
        rotate_down: None,
        press: None,
    }
}

fn inert(name: &str) -> CrownMode {
    CrownMode {
        name: name.into(),
        ..CrownMode::default()
    }
}

#[test]
fn cycling_wraps_and_reports_the_new_mode() {
    let mut state = CrownModeState::new(vec![
        mode("Volume", Action::VolumeUp),
        mode("Scroll", Action::ScrollUp),
    ]);
    assert_eq!(state.active().map(|m| m.name.as_str()), Some("Volume"));
    assert_eq!(state.cycle().map(|m| m.name.as_str()), Some("Scroll"));
    assert_eq!(state.cycle().map(|m| m.name.as_str()), Some("Volume"));
}

#[test]
fn cycling_skips_a_mode_that_assigns_nothing() {
    let mut state = CrownModeState::new(vec![
        mode("Volume", Action::VolumeUp),
        inert("Empty"),
        mode("Scroll", Action::ScrollUp),
    ]);
    assert_eq!(state.cycle().map(|m| m.name.as_str()), Some("Scroll"));
}

/// All-inert must not spin forever or silently move the index.
#[test]
fn an_all_inert_list_never_cycles() {
    let mut state = CrownModeState::new(vec![inert("A"), inert("B")]);
    assert!(state.cycle().is_none());
    let shown = state.indicator().expect("a non-empty list has an indicator");
    assert_eq!(shown.selected, 0, "the index must not drift");
}

#[test]
fn an_empty_list_never_cycles() {
    let mut state = CrownModeState::new(Vec::new());
    assert!(state.cycle().is_none());
    assert!(state.active().is_none());
}

#[test]
fn only_the_controls_the_mode_sets_resolve() {
    let state = CrownModeState::new(vec![mode("Volume", Action::VolumeUp)]);
    assert_eq!(
        state.action_for(ButtonId::CrownRotateUp),
        Some(&Action::VolumeUp)
    );
    assert_eq!(state.action_for(ButtonId::CrownRotateDown), None);
    assert_eq!(state.action_for(ButtonId::CrownTap), None);
}

#[test]
fn the_indicator_lists_every_mode_and_marks_the_active_one() {
    let mut state = CrownModeState::new(vec![
        mode("Volume", Action::VolumeUp),
        mode("Scroll", Action::ScrollUp),
    ]);
    state.cycle();
    let hud = state
        .indicator()
        .expect("a non-empty list has an indicator");
    assert_eq!(hud.names, vec!["Volume".to_string(), "Scroll".to_string()]);
    assert_eq!(hud.selected, 1);
}

#[test]
fn an_empty_list_has_no_indicator() {
    assert!(CrownModeState::new(Vec::new()).indicator().is_none());
}

#[test]
fn a_device_without_modes_resolves_to_nothing() {
    let modes = CrownModes::default();
    assert_eq!(
        modes.action_for(Some("2b034"), ButtonId::CrownRotateUp),
        None
    );
    assert_eq!(modes.action_for(None, ButtonId::CrownRotateUp), None);
}

/// An unrelated config edit must not yank the dial back to mode one.
#[test]
fn republishing_an_unchanged_list_keeps_the_position() {
    let list = vec![
        mode("Volume", Action::VolumeUp),
        mode("Scroll", Action::ScrollUp),
    ];
    let mut modes = CrownModes::default();
    modes.republish(vec![("k".to_string(), list.clone())]);
    modes.state_for(Some("k")).expect("state").cycle();
    assert_eq!(modes.active_name(Some("k")), Some("Scroll"));

    modes.republish(vec![("k".to_string(), list)]);
    assert_eq!(
        modes.active_name(Some("k")),
        Some("Scroll"),
        "an unchanged list must not reset the active mode"
    );
}

/// A changed list invalidates the old position.
#[test]
fn republishing_a_changed_list_resets_the_position() {
    let mut modes = CrownModes::default();
    modes.republish(vec![(
        "k".to_string(),
        vec![
            mode("Volume", Action::VolumeUp),
            mode("Scroll", Action::ScrollUp),
        ],
    )]);
    modes.state_for(Some("k")).expect("state").cycle();
    assert_eq!(modes.active_name(Some("k")), Some("Scroll"));

    modes.republish(vec![(
        "k".to_string(),
        vec![
            mode("Zoom", Action::ScrollUp),
            mode("Tabs", Action::NextTab),
        ],
    )]);
    assert_eq!(modes.active_name(Some("k")), Some("Zoom"));
}

#[test]
fn republishing_drops_a_device_that_lost_its_modes() {
    let mut modes = CrownModes::default();
    modes.republish(vec![(
        "k".to_string(),
        vec![mode("Volume", Action::VolumeUp)],
    )]);
    assert!(modes.active_name(Some("k")).is_some());
    modes.republish(Vec::new());
    assert!(modes.active_name(Some("k")).is_none());
}

fn volume() -> CrownMode {
    CrownMode {
        name: "Volume".into(),
        rotate_up: Some(Action::VolumeUp),
        rotate_down: Some(Action::VolumeDown),
        press: None,
    }
}

#[test]
fn a_mode_answers_only_for_the_controls_it_sets() {
    let mode = volume();
    assert_eq!(
        mode.action_for(ButtonId::CrownRotateUp),
        Some(&Action::VolumeUp)
    );
    assert_eq!(
        mode.action_for(ButtonId::CrownRotateDown),
        Some(&Action::VolumeDown)
    );
    // Unset: the press keeps whatever its ordinary binding is.
    assert_eq!(mode.action_for(ButtonId::CrownPress), None);
}

/// A mode must never own the tap, or a mode whose tap did something else
/// would trap the user with no way to cycle out.
#[test]
fn a_mode_never_owns_the_tap() {
    let mode = CrownMode {
        name: "Trap".into(),
        rotate_up: Some(Action::VolumeUp),
        rotate_down: None,
        press: Some(Action::PlayPause),
    };
    assert_eq!(mode.action_for(ButtonId::CrownTap), None);
}

#[test]
fn a_mode_that_sets_nothing_is_inert() {
    assert!(CrownMode::default().is_inert());
    assert!(!volume().is_inert());
}

/// Non-crown buttons are not a mode's business even if one is passed in.
#[test]
fn an_unrelated_button_resolves_to_nothing() {
    assert_eq!(volume().action_for(ButtonId::MiddleClick), None);
}

#[test]
fn a_list_with_one_usable_mode_cycles_back_to_it() {
    let mut state = CrownModeState::new(vec![inert("A"), mode("Only", Action::NextTab)]);
    assert_eq!(state.cycle().map(|m| m.name.as_str()), Some("Only"));
    assert_eq!(state.cycle().map(|m| m.name.as_str()), Some("Only"));
}

#[test]
fn a_round_of_cycling_visits_every_usable_mode_once() {
    let mut state = CrownModeState::new(vec![
        inert("First"),
        mode("Volume", Action::VolumeUp),
        mode("Scroll", Action::ScrollUp),
        inert("Between"),
        mode("Tabs", Action::NextTab),
    ]);
    state.cycle();
    assert_eq!(state.cycle().map(|m| m.name.as_str()), Some("Scroll"));
    let mut visited: Vec<String> = Vec::new();
    for _ in 0..3 {
        visited.extend(state.cycle().map(|m| m.name.clone()));
    }
    assert_eq!(visited, ["Tabs", "Volume", "Scroll"]);
}

#[test]
fn a_later_list_for_the_same_device_wins() {
    let mut modes = CrownModes::default();
    modes.republish(vec![
        ("k".to_string(), vec![mode("Volume", Action::VolumeUp)]),
        ("k".to_string(), vec![mode("Tabs", Action::NextTab)]),
        ("other".to_string(), vec![mode("Scroll", Action::ScrollUp)]),
    ]);
    assert_eq!(modes.active_name(Some("k")), Some("Tabs"));
    assert_eq!(modes.active_name(Some("other")), Some("Scroll"));
    assert_eq!(
        modes.action_for(Some("k"), ButtonId::CrownRotateUp),
        Some(&Action::NextTab)
    );
    assert!(modes.state_for(None).is_none());
    assert!(modes.state_for(Some("absent")).is_none());
    assert_eq!(modes.active_name(None), None);
}

#[test]
fn a_default_state_has_no_modes() {
    assert!(CrownModeState::default().active().is_none());
}

/// A device published with an empty list has no modes, and so no state.
#[test]
fn a_device_with_an_empty_list_has_no_state() {
    let mut modes = CrownModes::default();
    modes.republish(vec![
        ("k".to_string(), Vec::new()),
        ("full".to_string(), vec![inert("A")]),
    ]);
    assert!(modes.state_for(Some("k")).is_none());
    assert!(modes.state_for(Some("full")).is_some());
    assert_eq!(modes.active_name(Some("k")), None);
    assert_eq!(modes.action_for(Some("k"), ButtonId::CrownRotateUp), None);
}

#[test]
fn a_clone_keeps_every_position_and_goes_its_own_way() {
    let mut modes = CrownModes::default();
    modes.republish(vec![(
        "k".to_string(),
        vec![
            mode("Volume", Action::VolumeUp),
            mode("Scroll", Action::ScrollUp),
        ],
    )]);
    modes.state_for(Some("k")).expect("state").cycle();
    let copy = modes.clone();
    let state = modes.state_for(Some("k")).expect("state").clone();
    modes.state_for(Some("k")).expect("state").cycle();
    assert_eq!(copy.active_name(Some("k")), Some("Scroll"));
    assert_eq!(state.active().map(|m| m.name.as_str()), Some("Scroll"));
    assert_eq!(modes.active_name(Some("k")), Some("Volume"));
}
