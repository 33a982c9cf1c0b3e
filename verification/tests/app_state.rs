//! Editing the crown-mode list of the open profile.

use crown::app_state::{AppState, Config, Edit};
use crown::binding::{Action, ButtonId};

fn names(state: &AppState) -> Vec<String> {
    state.current_crown_modes().into_iter().map(|m| m.name).collect()
}

fn with_modes(modes: &[&str]) -> AppState {
    let mut state = AppState::new(Config::new());
    state.select_device(Some("craft".into()));
    for name in modes {
        assert_eq!(state.add_crown_mode(name.to_string()), Some(Edit::Mode));
    }
    state
}

#[test]
fn without_a_device_nothing_is_read_or_written() {
    let mut state = AppState::new(Config::new());
    assert!(state.current_crown_modes().is_empty());
    assert_eq!(state.add_crown_mode("Volume".into()), None);
    assert!(!state.crown_modes_are_overridden());
    state.edit_app(Some("editor".into()));
    assert_eq!(state.clear_app_crown_modes(), None);
    state.select_device(Some("craft".into()));
    assert!(state.current_crown_modes().is_empty());
}

#[test]
fn an_edit_is_read_back_in_order() {
    let mut state = with_modes(&["Volume", "Scroll"]);
    assert_eq!(names(&state), ["Volume", "Scroll"]);
    assert_eq!(state.remove_crown_mode(0), Some(Edit::Mode));
    assert_eq!(names(&state), ["Scroll"]);
    assert_eq!(state.remove_crown_mode(1), None);
    assert_eq!(names(&state), ["Scroll"]);
}

#[test]
fn the_first_edit_in_an_app_profile_forks_the_list() {
    let mut state = with_modes(&["Volume"]);
    state.edit_app(Some("editor".into()));
    assert_eq!(state.editing_app(), Some("editor"));
    assert_eq!(names(&state), ["Volume"], "inherited");
    assert!(!state.crown_modes_are_overridden());
    state.add_crown_mode("Tabs".into());
    assert!(state.crown_modes_are_overridden());
    assert_eq!(names(&state), ["Volume", "Tabs"]);
    state.edit_app(Some("browser".into()));
    assert_eq!(names(&state), ["Volume"]);
    state.edit_app(None);
    assert_eq!(names(&state), ["Volume"]);
    assert!(!state.crown_modes_are_overridden());
    assert_eq!(
        state.config().per_app_crown_modes("craft", "editor").map(Vec::len),
        Some(2)
    );
}

#[test]
fn removing_the_last_mode_of_an_app_inherits_again() {
    let mut state = with_modes(&["Volume"]);
    state.edit_app(Some("editor".into()));
    state.add_crown_mode("Tabs".into());
    state.remove_crown_mode(1);
    assert!(state.crown_modes_are_overridden());
    state.remove_crown_mode(0);
    assert!(!state.crown_modes_are_overridden());
    assert_eq!(names(&state), ["Volume"]);
}

#[test]
fn clearing_an_override_is_for_app_profiles_alone() {
    let mut state = with_modes(&["Volume"]);
    assert_eq!(state.clear_app_crown_modes(), None);
    assert_eq!(names(&state), ["Volume"]);
    state.edit_app(Some("editor".into()));
    state.add_crown_mode("Tabs".into());
    assert_eq!(state.clear_app_crown_modes(), Some(Edit::ModeOverride));
    assert_eq!(names(&state), ["Volume"]);
}

#[test]
fn a_rename_trims_and_refuses_blanks() {
    let mut state = with_modes(&["Volume", "Scroll"]);
    assert_eq!(state.rename_crown_mode(1, "\u{3000}Zoom\n"), Some(Edit::ModeName));
    assert_eq!(names(&state), ["Volume", "Zoom"]);
    assert_eq!(state.rename_crown_mode(1, " \u{a0} "), None);
    assert_eq!(state.rename_crown_mode(1, " Zoom "), None);
    assert_eq!(state.rename_crown_mode(2, "Tabs"), None);
    assert_eq!(names(&state), ["Volume", "Zoom"]);
}

#[test]
fn an_action_is_stored_for_a_control_a_mode_can_own() {
    let mut state = with_modes(&["Volume"]);
    let up = ButtonId::CrownRotateUp;
    assert_eq!(
        state.commit_crown_mode_action(0, up, Some(Action::VolumeUp)),
        Some(Edit::ModeAction)
    );
    assert_eq!(state.commit_crown_mode_action(0, up, Some(Action::VolumeUp)), None);
    assert_eq!(
        state.commit_crown_mode_action(0, ButtonId::CrownTap, Some(Action::PlayPause)),
        None
    );
    assert_eq!(
        state.commit_crown_mode_action(0, ButtonId::CrownPress, Some(Action::PlayPause)),
        Some(Edit::ModeAction)
    );
    assert_eq!(state.commit_crown_mode_action(1, up, None), None);
    let mode = &state.current_crown_modes()[0];
    assert_eq!(mode.action_for(up), Some(&Action::VolumeUp));
    assert_eq!(mode.action_for(ButtonId::CrownPress), Some(&Action::PlayPause));
    assert_eq!(
        state.commit_crown_mode_action(0, up, None),
        Some(Edit::ModeAction)
    );
    assert_eq!(state.current_crown_modes()[0].rotate_up, None);
}

#[test]
fn the_words_for_an_edit() {
    assert_eq!(Edit::Mode.label(), "crown mode");
    assert_eq!(Edit::ModeName.label(), "crown mode name");
    assert_eq!(Edit::ModeAction.label(), "crown mode action");
    assert_eq!(Edit::ModeOverride.label(), "crown mode override");
}
