//! The crown panel, its press-and-rotate card and its modes.

use crown::app_state::{AppState, Config, Edit};
use crown::binding::{Action, ButtonId, GestureDirection, GestureMap};
use crown::chord_panel::{
    chord_card, enable_row, slot_caption, slot_label, EnableRow, CHORD_SLOTS,
};
use crown::crown_mode::CrownMode;
use crown::modes_panel::{
    control_slot, heading, mode_control_row, modes_section, NameDialog, MODE_CONTROLS,
};
use crown::panel::{
    catalog_selection, control_id, control_list, crown_slots, is_relevant, picker_panel, Caption,
    CrownPanel, StateEvent, Target,
};

#[test]
fn an_inert_control_ticks_no_catalog_row() {
    assert_eq!(catalog_selection(&Action::NoAction), None);
}

#[test]
fn a_bound_control_ticks_its_own_action() {
    assert_eq!(
        catalog_selection(&Action::VolumeUp),
        Some(&Action::VolumeUp)
    );
}

/// The panel renders one row per crown control, so a control added to
/// [`ButtonId::CROWN_CONTROLS`] without a label would show up blank.
#[test]
fn every_crown_control_has_a_label() {
    for button in ButtonId::CROWN_CONTROLS {
        assert!(
            !button.label().is_empty(),
            "{button:?} would render an unnamed row"
        );
    }
}

/// A dial has one rotation axis, so the card must never offer a slot no
/// turn can reach — a `Left`/`Right` row would be dead configuration.
#[test]
fn the_card_offers_only_slots_a_dial_can_reach() {
    assert!(!CHORD_SLOTS.contains(&GestureDirection::Left));
    assert!(!CHORD_SLOTS.contains(&GestureDirection::Right));
    assert!(CHORD_SLOTS.contains(&GestureDirection::Click));
}

/// Every offered slot needs a dial-specific label; the swipe vocabulary
/// `GestureDirection` carries would read as nonsense on a crown.
#[test]
fn every_offered_slot_has_its_own_label() {
    for direction in CHORD_SLOTS {
        assert_ne!(
            slot_label(direction),
            "Off",
            "{direction:?} falls through to the placeholder label"
        );
    }
}

#[test]
fn clicking_the_open_control_closes_it() {
    let mut panel = CrownPanel::new();
    panel.click_control(2);
    assert_eq!(panel.selected, Some(Target::Control(2)));
    panel.click_control(1);
    assert_eq!(panel.selected, Some(Target::Control(1)));
    panel.click_control(1);
    assert_eq!(panel.selected, None);
    panel.select(Target::Chord(GestureDirection::Up));
    assert_eq!(panel.selected, Some(Target::Chord(GestureDirection::Up)));
}

#[test]
fn announcements_that_concern_the_panel() {
    assert!(is_relevant(&StateEvent::InventoryChanged, None));
    assert!(is_relevant(&StateEvent::DeviceSelected("x".into()), None));
    assert!(is_relevant(&StateEvent::BindingsChanged("craft".into()), Some("craft")));
    assert!(!is_relevant(&StateEvent::BindingsChanged("craft".into()), Some("mx")));
    assert!(!is_relevant(&StateEvent::BindingsChanged("craft".into()), None));
    assert!(!is_relevant(&StateEvent::Other, Some("craft")));
}

#[test]
fn the_rows_show_the_action_in_force() {
    let slots = crown_slots(&vec![
        (ButtonId::KeyMute, Action::PlayPause),
        (ButtonId::CrownPress, Action::PlayPause),
    ]);
    assert_eq!(slots.len(), 4);
    assert_eq!(slots[2].action, Action::PlayPause);
    assert_eq!(slots[0].action, Action::NoAction);
    let mut panel = CrownPanel::new();
    panel.click_control(2);
    let rows = control_list(&slots, &panel);
    assert_eq!(rows[2].caption, Caption::Named(Action::PlayPause));
    assert!(rows[2].bound && rows[2].selected);
    assert_eq!(rows[3].caption, Caption::Off);
    assert!(!rows[3].bound && !rows[3].selected);
    assert_eq!(rows.iter().map(|row| row.id).collect::<Vec<_>>(), [0, 1, 2, 3]);
    let reordered = vec![slots[3], slots[0]];
    let moved = control_list(&reordered, &panel);
    assert_eq!(moved[0].id, 3, "a row keeps its identity wherever it stands");
    assert_eq!(control_id(ButtonId::KeyMute), 4);
    assert_eq!(panel.open_slot(&slots), Some(slots[2]));
    panel.click_control(9);
    assert_eq!(panel.open_slot(&slots), None);
}

#[test]
fn the_picker_offers_the_default_only_for_an_override() {
    let slots = crown_slots(&vec![(ButtonId::CrownTap, Action::CycleCrownMode)]);
    let plain = picker_panel(&slots[3], None);
    assert_eq!(plain.title, "Bind Crown Tap");
    assert_eq!(plain.ticked, Some(Action::CycleCrownMode));
    assert!(!plain.offers_default);
    assert!(picker_panel(&slots[3], Some(&vec![ButtonId::CrownTap])).offers_default);
    assert!(!picker_panel(&slots[3], Some(&vec![ButtonId::CrownPress])).offers_default);
    assert_eq!(picker_panel(&slots[0], None).ticked, None);
}

#[test]
fn an_unset_chord_slot_and_one_set_to_nothing_both_read_off() {
    let map = GestureMap {
        up: Some(Action::NextTab),
        down: Some(Action::NoAction),
        left: None,
        right: None,
        click: None,
    };
    let mut panel = CrownPanel::new();
    panel.select(Target::Chord(GestureDirection::Click));
    let rows = chord_card(&map, &panel);
    assert_eq!(rows.len(), 3);
    assert_eq!(rows[0].caption, Caption::Named(Action::NextTab));
    assert!(rows[0].bound);
    assert_eq!(rows[1].caption, Caption::Off);
    assert_eq!(rows[2].caption, Caption::Off);
    assert!(rows[2].selected && !rows[0].selected);
    assert_eq!(slot_caption(GestureDirection::Up), "Turn up while held");
    assert_eq!(slot_caption(GestureDirection::Left), "Off");
    assert_eq!(enable_row(true), EnableRow::PerDeviceNote);
    assert_eq!(enable_row(false), EnableRow::TurnOn);
}

fn mode(name: &str, press: Option<Action>) -> CrownMode {
    CrownMode { name: name.into(), rotate_up: None, rotate_down: None, press }
}

#[test]
fn the_modes_section_shows_a_card_per_mode() {
    let modes = vec![mode("Empty", None), mode("Media", Some(Action::PlayPause))];
    let mut panel = CrownPanel::new();
    panel.select(Target::ModeControl(1, ButtonId::CrownPress));
    let section = modes_section(&modes, false, true, &panel);
    assert!(section.unreachable);
    assert_eq!(section.caption, "Bind a control to Cycle Crown Mode to reach these.");
    assert!(!section.says_none);
    assert!(section.offers_default);
    assert_eq!(section.cards[0].name, "Empty");
    assert!(section.cards[0].empty);
    assert_eq!(section.cards[0].rows[2].caption, Caption::FallsThrough);
    let row = section.cards[1].rows[2];
    assert_eq!(row.caption, Caption::Named(Action::PlayPause));
    assert_eq!(row.id, 5);
    assert!(row.selected && row.assigned);
    assert!(!section.cards[1].empty);
    assert_eq!(
        section.cards[1].rename_dialog(),
        NameDialog::Rename { index: 1, current: "Media".into() }
    );

    let none = modes_section(&Vec::new(), false, false, &panel);
    assert!(none.says_none && !none.unreachable);
    assert_eq!(heading(&modes, true), (false, "Cycled by whichever control runs Cycle Crown Mode."));
}

#[test]
fn row_ids_follow_the_mode_and_the_control() {
    assert_eq!(control_slot(ButtonId::CrownRotateDown), 1);
    assert_eq!(control_slot(ButtonId::CrownTap), 3);
    let mut ids = Vec::new();
    for index in 0..4 {
        for control in MODE_CONTROLS {
            ids.push(mode_control_row(index, control, None, false).id);
        }
    }
    assert_eq!(ids, (0..12).collect::<Vec<_>>());
}

#[test]
fn the_name_dialog_refuses_a_blank_name() {
    let mut state = AppState::new(Config::new());
    state.select_device(Some("craft".into()));
    assert_eq!(NameDialog::Add.commit(&mut state, "  \t".into()), None);
    assert!(state.current_crown_modes().is_empty());
    assert_eq!(NameDialog::Add.commit(&mut state, "Zoom".into()), Some(Edit::Mode));
    let rename = NameDialog::Rename { index: 0, current: "Zoom".into() };
    assert_eq!(rename.initial(), "Zoom");
    assert_eq!(rename.title(), "Rename mode");
    assert_eq!(NameDialog::Add.initial(), "");
    assert_eq!(NameDialog::Add.title(), "Add mode");
    assert_eq!(rename.commit(&mut state, " ".into()), None);
    assert_eq!(rename.commit(&mut state, " Tabs ".into()), Some(Edit::ModeName));
    assert_eq!(state.current_crown_modes()[0].name, "Tabs");
    assert_eq!(rename.commit(&mut state, "Tabs".into()), None, "nothing to change");
}
