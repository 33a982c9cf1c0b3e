//! Snapshots of the diverted controls, and what a session diverts.

use std::collections::{BTreeMap, BTreeSet};

use crown::binding::ButtonId;
use crown::control_table::{
    emit_button_edges, key_list, KeyboardCaptureTargets, KEYBOARD_KEY_CIDS,
};
use crown::translator::CapturedInput;

#[test]
fn keyboard_snapshots_emit_balanced_edges_without_duplicates() {
    let diverted = BTreeMap::from([
        (0x00d4, ButtonId::KeySearch),
        (0x0103, ButtonId::KeyDictation),
    ]);
    let mut inputs = Vec::new();
    let mut down = BTreeSet::new();

    inputs.extend(emit_button_edges(&mut down, &[0x00d4], &diverted));
    inputs.extend(emit_button_edges(&mut down, &[0x00d4], &diverted));
    inputs.extend(emit_button_edges(&mut down, &[0x00d4, 0x0103], &diverted));
    inputs.extend(emit_button_edges(&mut down, &[0x0103], &diverted));
    inputs.extend(emit_button_edges(&mut down, &[], &diverted));

    assert_eq!(
        inputs,
        vec![
            CapturedInput::ButtonDown(ButtonId::KeySearch),
            CapturedInput::ButtonDown(ButtonId::KeyDictation),
            CapturedInput::ButtonUp(ButtonId::KeySearch),
            CapturedInput::ButtonUp(ButtonId::KeyDictation),
        ]
    );
}

#[test]
fn a_control_that_is_not_diverted_makes_no_edge() {
    let diverted = BTreeMap::from([(0x00e7, ButtonId::KeyMute)]);
    let mut down = BTreeSet::from([0x0999]);
    assert!(emit_button_edges(&mut down, &[0x0108], &diverted).is_empty());
    assert_eq!(down, BTreeSet::from([0x0999]));
}

#[test]
fn one_snapshot_makes_edges_in_ascending_order_of_control() {
    let diverted = BTreeMap::from([
        (0x011c, ButtonId::KeyMicMute),
        (0x00e5, ButtonId::KeyPlayPause),
        (0x0108, ButtonId::KeyEmoji),
    ]);
    let mut down = BTreeSet::from([0x0108]);
    assert_eq!(
        emit_button_edges(&mut down, &[0x011c, 0x00e5], &diverted),
        vec![
            CapturedInput::ButtonDown(ButtonId::KeyPlayPause),
            CapturedInput::ButtonUp(ButtonId::KeyEmoji),
            CapturedInput::ButtonDown(ButtonId::KeyMicMute),
        ]
    );
    assert_eq!(down, BTreeSet::from([0x00e5, 0x011c]));
}

#[test]
fn targets_are_empty_only_without_keys_and_crown() {
    let none = KeyboardCaptureTargets::default();
    assert!(none.is_empty());
    let crown = KeyboardCaptureTargets { crown: true, ..KeyboardCaptureTargets::default() };
    assert!(!crown.is_empty());
    let keys = KeyboardCaptureTargets {
        keys: BTreeMap::from([(0x00d4, ButtonId::KeySearch)]),
        crown: false,
    };
    assert!(!keys.is_empty());
    assert!(!keys.same(&crown));
    assert!(keys.same(&keys.clone()));
    assert_eq!(keys.clone(), keys);
    let other = KeyboardCaptureTargets {
        keys: BTreeMap::from([(0x00d4, ButtonId::KeyEmoji)]),
        crown: false,
    };
    assert!(!keys.same(&other));
}

#[test]
fn the_key_table_names_nine_distinct_controls() {
    let table: BTreeMap<u16, ButtonId> = KEYBOARD_KEY_CIDS.into_iter().collect();
    assert_eq!(table.len(), 9);
    assert_eq!(table[&0x00d4], ButtonId::KeySearch);
    assert_eq!(table[&0x00e9], ButtonId::KeyVolumeUp);
    let listed = key_list(&table);
    assert_eq!(listed[0], (0x00d4, ButtonId::KeySearch));
    assert_eq!(listed[8], (0x011c, ButtonId::KeyMicMute));
}
