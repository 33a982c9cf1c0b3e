//! Which session runs, which inputs count, and what they dispatch.

use std::collections::BTreeMap;

use crown::binding::{Action, Binding, BindingMap, ButtonId, GestureDirection, GestureMap};
use crown::control_table::KeyboardCaptureTargets;
use crown::crown_mode::{CrownMode, CrownModes};
use crown::translator::CapturedInput;
use crown::watcher::{
    dispatch_input, effective_binding, is_chord_binding, rotation_control, wanted_session,
    CrownChord, DeviceRoute, Dispatch, Hearing, HidppSessionId, KeyboardSpec, KeyboardTarget,
    PressToken, Tick, Watcher,
};

fn spec(bindings: &[(ButtonId, Binding)]) -> KeyboardSpec {
    let mut map = BindingMap::new();
    for &(button, binding) in bindings {
        map.insert(button, binding);
    }
    KeyboardSpec {
        config_key: "craft".into(),
        route: DeviceRoute { node: "/dev/hidraw3".into(), index: 1 },
        targets: KeyboardCaptureTargets {
            keys: BTreeMap::from([(0x00d4, ButtonId::KeySearch)]),
            crown: true,
        },
        bindings: map,
    }
}

fn chord_map() -> Binding {
    Binding::Gesture(GestureMap {
        up: Some(Action::NextTab),
        down: Some(Action::NoAction),
        left: None,
        right: None,
        click: Some(Action::PlayPause),
    })
}

fn modes(press: Option<Action>) -> CrownModes {
    let mut modes = CrownModes::default();
    modes.republish(vec![(
        "craft".to_string(),
        vec![CrownMode {
            name: "Scroll".into(),
            rotate_up: Some(Action::ScrollUp),
            rotate_down: None,
            press,
        }],
    )]);
    modes
}

/// Start the session a tick asks for, as if the receiver were leased.
fn start(w: &mut Watcher, spec: &KeyboardSpec) -> HidppSessionId {
    match w.tick(false, Some(spec)) {
        Tick::Start(session) => {
            let id = session.id.clone();
            w.started(session);
            id
        }
        other => panic!("expected a start, got {other:?}"),
    }
}

#[test]
fn a_mode_comes_before_the_keyboards_own_binding() {
    let s = spec(&[
        (ButtonId::CrownRotateUp, Binding::Single(Action::VolumeUp)),
        (ButtonId::CrownRotateDown, Binding::Single(Action::VolumeDown)),
        (ButtonId::CrownTap, Binding::Single(Action::CycleCrownMode)),
    ]);
    let m = modes(None);
    assert_eq!(
        effective_binding(&s, Some(&m), ButtonId::CrownRotateUp),
        Some(Binding::Single(Action::ScrollUp))
    );
    assert_eq!(
        effective_binding(&s, Some(&m), ButtonId::CrownRotateDown),
        Some(Binding::Single(Action::VolumeDown))
    );
    assert_eq!(
        effective_binding(&s, Some(&m), ButtonId::CrownTap),
        Some(Binding::Single(Action::CycleCrownMode))
    );
    assert_eq!(
        effective_binding(&s, None, ButtonId::CrownRotateUp),
        Some(Binding::Single(Action::VolumeUp)),
        "modes that cannot be read claim nothing"
    );
    assert_eq!(effective_binding(&s, Some(&m), ButtonId::KeyMute), None);
}

#[test]
fn a_chorded_press_waits_for_the_turn_or_the_release() {
    let s = spec(&[(ButtonId::CrownPress, chord_map())]);
    let mut chord = CrownChord::default();
    assert_eq!(
        dispatch_input(CapturedInput::ButtonDown(ButtonId::CrownPress), &s, None, &mut chord),
        Dispatch::Down { button: ButtonId::CrownPress, binding: None, chorded: true }
    );
    chord = CrownChord(Some(PressToken(7)));
    assert_eq!(
        dispatch_input(
            CapturedInput::Gesture(ButtonId::CrownPress, GestureDirection::Up),
            &s,
            None,
            &mut chord,
        ),
        Dispatch::WhilePressed { press: PressToken(7), action: Action::NextTab }
    );
    assert_eq!(
        dispatch_input(CapturedInput::ButtonUp(ButtonId::CrownPress), &s, None, &mut chord),
        Dispatch::Up { button: ButtonId::CrownPress }
    );
    assert_eq!(chord, CrownChord(None));
    assert_eq!(
        dispatch_input(
            CapturedInput::Gesture(ButtonId::CrownPress, GestureDirection::Up),
            &s,
            None,
            &mut chord,
        ),
        Dispatch::Nothing,
        "no live press, no chord"
    );
}

#[test]
fn a_mode_that_claims_the_press_leaves_no_chord() {
    let s = spec(&[(ButtonId::CrownPress, chord_map())]);
    let m = modes(Some(Action::PlayPause));
    let mut chord = CrownChord::default();
    assert_eq!(
        dispatch_input(CapturedInput::ButtonDown(ButtonId::CrownPress), &s, Some(&m), &mut chord),
        Dispatch::Down {
            button: ButtonId::CrownPress,
            binding: Some(Binding::Single(Action::PlayPause)),
            chorded: false,
        }
    );
}

#[test]
fn an_unbound_chord_direction_is_plain_rotation() {
    let s = spec(&[
        (ButtonId::CrownPress, chord_map()),
        (ButtonId::CrownRotateDown, Binding::Single(Action::VolumeDown)),
    ]);
    let mut chord = CrownChord(Some(PressToken(1)));
    let gesture = CapturedInput::Gesture(ButtonId::CrownPress, GestureDirection::Down);
    let pulse = CapturedInput::ButtonPulse(ButtonId::CrownRotateDown);
    let chorded = dispatch_input(gesture, &s, None, &mut chord);
    assert_eq!(
        chorded,
        Dispatch::Pulse {
            button: ButtonId::CrownRotateDown,
            binding: Some(Binding::Single(Action::VolumeDown)),
        }
    );
    assert_eq!(chorded, dispatch_input(pulse, &s, None, &mut chord));
    assert_eq!(
        dispatch_input(
            CapturedInput::Gesture(ButtonId::CrownPress, GestureDirection::Left),
            &s,
            None,
            &mut chord,
        ),
        Dispatch::Nothing
    );
    assert_eq!(
        dispatch_input(CapturedInput::Scroll { delta: 3 }, &s, None, &mut chord),
        Dispatch::Nothing
    );
}

#[test]
fn a_key_with_a_gesture_map_is_no_chord() {
    assert!(is_chord_binding(ButtonId::CrownPress, Some(chord_map())));
    assert!(!is_chord_binding(ButtonId::KeyMute, Some(chord_map())));
    assert!(!is_chord_binding(
        ButtonId::CrownPress,
        Some(Binding::LongPress { short: Action::PlayPause, long: Action::NextTab })
    ));
    assert!(!is_chord_binding(ButtonId::CrownPress, None));
    assert_eq!(rotation_control(GestureDirection::Up), Some(ButtonId::CrownRotateUp));
    assert_eq!(rotation_control(GestureDirection::Down), Some(ButtonId::CrownRotateDown));
    assert_eq!(rotation_control(GestureDirection::Click), None);
}

#[test]
fn a_steady_keyboard_keeps_its_session_while_bindings_change() {
    let mut w = Watcher::new();
    let id = start(&mut w, &spec(&[]));
    assert_eq!(id.epoch(), 1);
    assert_eq!(id.config_key(), "craft");
    let rebound = spec(&[(ButtonId::KeySearch, Binding::Single(Action::NextTab))]);
    assert!(matches!(w.tick(false, Some(&rebound)), Tick::Keep));
    assert!(w.current().is_some());
}

#[test]
fn a_change_stops_the_session_before_another_starts() {
    let mut w = Watcher::new();
    let first = start(&mut w, &spec(&[]));
    let mut moved = spec(&[]);
    moved.route = DeviceRoute { node: "/dev/hidraw4".into(), index: 1 };
    match w.tick(false, Some(&moved)) {
        Tick::Stop(id) => assert!(id.same(&first)),
        other => panic!("expected a stop, got {other:?}"),
    }
    assert!(w.current().is_none());
    let second = start(&mut w, &moved);
    assert!(!second.same(&first));
    assert_eq!(second.epoch(), 2);
    assert!(!w.done(&first), "the replaced session's end changes nothing");
    assert!(w.current().is_some());
    assert!(w.done(&second));
    assert!(w.current().is_none());
}

#[test]
fn without_a_lease_the_next_look_asks_again() {
    let mut w = Watcher::new();
    let s = spec(&[]);
    assert!(matches!(w.tick(false, Some(&s)), Tick::Start(_)));
    match w.tick(false, Some(&s)) {
        Tick::Start(session) => assert_eq!(session.id.epoch(), 2),
        other => panic!("expected a start, got {other:?}"),
    }
}

#[test]
fn pairing_stops_the_session_and_its_inputs() {
    let mut w = Watcher::new();
    let s = spec(&[]);
    let id = start(&mut w, &s);
    let press = CapturedInput::ButtonDown(ButtonId::KeySearch);
    assert!(matches!(w.input(&id, press, true, Some(&s), None), Hearing::Cancel));
    assert!(matches!(w.tick(true, Some(&s)), Tick::Stop(_)));
    assert!(matches!(w.tick(true, Some(&s)), Tick::Keep));
    assert!(matches!(w.input(&id, press, false, Some(&s), None), Hearing::Drop));
}

#[test]
fn only_the_session_that_should_run_is_heard() {
    let mut w = Watcher::new();
    let s = spec(&[(ButtonId::KeySearch, Binding::Single(Action::NextTab))]);
    let id = start(&mut w, &s);
    let press = CapturedInput::ButtonDown(ButtonId::KeySearch);
    let stale = HidppSessionId::new("craft", 99);
    assert!(matches!(w.input(&stale, press, false, Some(&s), None), Hearing::Cancel));
    assert!(matches!(w.input(&id, press, false, None, None), Hearing::Cancel));
    let mut fewer = spec(&[]);
    fewer.targets.crown = false;
    assert!(matches!(w.input(&id, press, false, Some(&fewer), None), Hearing::Cancel));
    match w.input(&id, press, false, Some(&s), None) {
        Hearing::Run(dispatch) => assert_eq!(
            dispatch,
            Dispatch::Down {
                button: ButtonId::KeySearch,
                binding: Some(Binding::Single(Action::NextTab)),
                chorded: false,
            }
        ),
        other => panic!("expected a dispatch, got {other:?}"),
    }
}

#[test]
fn the_watcher_holds_a_chord_until_the_crown_comes_up() {
    let mut w = Watcher::new();
    let s = spec(&[(ButtonId::CrownPress, chord_map())]);
    let id = start(&mut w, &s);
    let turn = CapturedInput::Gesture(ButtonId::CrownPress, GestureDirection::Up);
    w.input(&id, CapturedInput::ButtonDown(ButtonId::CrownPress), false, Some(&s), None);
    w.hold_chord(Some(PressToken(5)));
    assert!(matches!(
        w.input(&id, turn, false, Some(&s), None),
        Hearing::Run(Dispatch::WhilePressed { press: PressToken(5), action: Action::NextTab })
    ));
    w.input(&id, CapturedInput::ButtonUp(ButtonId::CrownPress), false, Some(&s), None);
    assert!(matches!(
        w.input(&id, turn, false, Some(&s), None),
        Hearing::Run(Dispatch::Nothing)
    ));
}

#[test]
fn a_target_ignores_bindings() {
    let s = spec(&[]);
    let rebound = spec(&[(ButtonId::KeyMute, Binding::Single(Action::PlayPause))]);
    let target = KeyboardTarget::for_spec(&s);
    assert!(target.matches(&rebound));
    let copy = rebound.clone();
    assert!(target.matches(&copy));
    assert_eq!(
        copy.bindings.get(ButtonId::KeyMute),
        Some(Binding::Single(Action::PlayPause))
    );
    let mut other = spec(&[]);
    other.config_key = "mx".into();
    assert!(!target.matches(&other));
    assert!(wanted_session(true, Some(&s)).is_none());
    assert!(wanted_session(false, None).is_none());
    assert_eq!(
        wanted_session(false, Some(&s)).map(|t| t.route.device_index()),
        Some(1)
    );
}
