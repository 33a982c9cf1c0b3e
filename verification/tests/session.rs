//! A capture session from the first connection to the last hand-back.

use std::collections::BTreeMap;

use crown::binding::ButtonId;
use crown::control_table::KeyboardCaptureTargets;
use crown::crown_state::{RatchetMode, ReportingMode, SetCrownMode};
use crown::session::{CaptureSession, ControlInfo, GestureError, Reply, SessionAction};
use crown::translator::{ActivityState, ButtonState, CapturedInput, CrownGesture, CrownUpdate};

fn targets(keys: &[(u16, ButtonId)], crown: bool) -> KeyboardCaptureTargets {
    KeyboardCaptureTargets { keys: keys.iter().copied().collect::<BTreeMap<_, _>>(), crown }
}

fn divert(reporting: ReportingMode) -> SessionAction {
    SessionAction::SetMode(SetCrownMode {
        diverting: reporting,
        ratchet_mode: RatchetMode::NoChange,
        rotation_timeout: 0,
        short_long_timeout: 0,
        double_tap_speed: 0,
    })
}

fn set(control: u16, diverted: bool) -> SessionAction {
    SessionAction::SetReporting { control, diverted }
}

/// Answer the session's action, after checking that it is the expected one.
fn expect(session: &mut CaptureSession, action: SessionAction, reply: Reply) {
    assert_eq!(session.action(), action);
    assert!(session.step(reply).is_empty());
}

fn listed(controls: &[(u16, bool)]) -> Reply {
    Reply::Controls(
        controls
            .iter()
            .map(|&(control, divertable)| ControlInfo { control, divertable })
            .collect(),
    )
}

fn turn(slots: i8) -> CrownUpdate {
    CrownUpdate {
        relative_slot_rotation: slots,
        relative_ratchet_rotation: 0,
        proximity: ActivityState::Inactive,
        touch: ActivityState::Inactive,
        gesture: CrownGesture::NoGesture,
        button: ButtonState::Inactive,
    }
}

/// A session with two armed keys and a crown, serving.
fn serving() -> CaptureSession {
    let wanted = targets(
        &[
            (0x0103, ButtonId::KeyDictation),
            (0x00d4, ButtonId::KeySearch),
            (0x0108, ButtonId::KeyEmoji),
        ],
        true,
    );
    let mut s = CaptureSession::new(2, &wanted);
    expect(&mut s, SessionAction::Connect, Reply::Done);
    expect(&mut s, SessionAction::OpenDevice(2), Reply::Done);
    expect(&mut s, SessionAction::FindFeature(0x1b04), Reply::Done);
    // The dictation key is exposed and cannot be diverted.
    expect(
        &mut s,
        SessionAction::EnumerateControls,
        listed(&[(0x0108, true), (0x0103, false), (0x00d4, true), (0x00e9, true)]),
    );
    expect(&mut s, set(0x00d4, true), Reply::Done);
    expect(&mut s, set(0x0108, true), Reply::Done);
    expect(&mut s, SessionAction::FindFeature(0x4600), Reply::Done);
    expect(
        &mut s,
        SessionAction::ReadCrownInfo,
        Reply::Geometry { slots: 96, ratchets: 24 },
    );
    expect(&mut s, divert(ReportingMode::Diverted), Reply::Done);
    expect(&mut s, SessionAction::FindFeature(0x1d4b), Reply::Done);
    expect(&mut s, SessionAction::PublishChannel, Reply::Done);
    assert_eq!(s.action(), SessionAction::Await);
    s
}

#[test]
fn arming_diverts_only_bound_controls_that_can_be() {
    let s = serving();
    assert_eq!(
        s.armed_controls(),
        &vec![(0x00d4, ButtonId::KeySearch), (0x0108, ButtonId::KeyEmoji)]
    );
    assert!(s.crown_armed());
    assert!(s.error().is_none());
}

#[test]
fn a_served_crown_report_is_translated_with_its_geometry() {
    let mut s = serving();
    assert!(s.step(Reply::Crown(turn(3))).is_empty());
    assert_eq!(
        s.step(Reply::Crown(turn(1))),
        vec![CapturedInput::ButtonPulse(ButtonId::CrownRotateUp)],
        "four slots make one detent"
    );
    assert_eq!(s.action(), SessionAction::Await);
}

#[test]
fn snapshots_count_from_arming_to_shutdown() {
    let wanted = targets(&[(0x00d4, ButtonId::KeySearch)], false);
    let mut s = CaptureSession::new(1, &wanted);
    assert!(s.snapshot(&[0x00d4]).is_empty(), "nothing is armed yet");

    let mut s = serving();
    assert_eq!(
        s.snapshot(&[0x00d4, 0x0103]),
        vec![CapturedInput::ButtonDown(ButtonId::KeySearch)],
        "the key that was left native makes no edge"
    );
    assert!(s.snapshot(&[0x00d4]).is_empty());
    assert_eq!(
        s.snapshot(&[]),
        vec![CapturedInput::ButtonUp(ButtonId::KeySearch)]
    );
    s.step(Reply::Shutdown);
    assert!(s.snapshot(&[0x00d4]).is_empty());
}

#[test]
fn a_reconnect_diverts_everything_again_whatever_the_writes_say() {
    let mut s = serving();
    expect(&mut s, SessionAction::Await, Reply::Reconnected);
    expect(&mut s, SessionAction::Settle(200), Reply::Done);
    expect(&mut s, set(0x00d4, true), Reply::Refused("busy".into()));
    expect(&mut s, set(0x0108, true), Reply::Done);
    expect(&mut s, divert(ReportingMode::Diverted), Reply::Refused("busy".into()));
    assert_eq!(s.action(), SessionAction::Await);
}

#[test]
fn a_shutdown_hands_everything_back() {
    let mut s = serving();
    expect(&mut s, SessionAction::Await, Reply::Shutdown);
    expect(&mut s, SessionAction::ClearChannel, Reply::Done);
    expect(&mut s, set(0x00d4, false), Reply::Refused("gone".into()));
    expect(&mut s, set(0x0108, false), Reply::Done);
    expect(&mut s, divert(ReportingMode::Hid), Reply::Done);
    assert_eq!(s.action(), SessionAction::Finish);
    assert!(s.error().is_none());
}

#[test]
fn when_every_source_ends_only_the_shutdown_remains() {
    let mut s = serving();
    expect(&mut s, SessionAction::Await, Reply::SourcesEnded);
    assert_eq!(s.action(), SessionAction::AwaitShutdown);
    // Anything else it is not waiting for changes nothing.
    assert!(s.step(Reply::Reconnected).is_empty());
    assert_eq!(s.action(), SessionAction::AwaitShutdown);
    expect(&mut s, SessionAction::AwaitShutdown, Reply::Shutdown);
    assert_eq!(s.action(), SessionAction::ClearChannel);
}

#[test]
fn a_crown_only_session_needs_no_divertable_controls() {
    let mut s = CaptureSession::new(1, &targets(&[], true));
    expect(&mut s, SessionAction::Connect, Reply::Done);
    expect(&mut s, SessionAction::OpenDevice(1), Reply::Done);
    expect(&mut s, SessionAction::FindFeature(0x4600), Reply::Done);
    // Without a geometry the detent is a fallback of eight slots.
    expect(&mut s, SessionAction::ReadCrownInfo, Reply::Refused("no info".into()));
    expect(&mut s, divert(ReportingMode::Diverted), Reply::Done);
    expect(&mut s, SessionAction::FindFeature(0x1d4b), Reply::Missing);
    expect(&mut s, SessionAction::PublishChannel, Reply::Done);
    assert!(s.step(Reply::Crown(turn(7))).is_empty());
    assert_eq!(
        s.step(Reply::Crown(turn(1))),
        vec![CapturedInput::ButtonPulse(ButtonId::CrownRotateUp)]
    );
    // With no keys there is nothing to settle for.
    expect(&mut s, SessionAction::Await, Reply::Reconnected);
    expect(&mut s, divert(ReportingMode::Diverted), Reply::Done);
    assert_eq!(s.action(), SessionAction::Await);
}

#[test]
fn a_keyboard_without_a_crown_still_captures_its_keys() {
    let mut s = CaptureSession::new(1, &targets(&[(0x00e7, ButtonId::KeyMute)], true));
    s.step(Reply::Done);
    s.step(Reply::Done);
    s.step(Reply::Done);
    expect(&mut s, SessionAction::EnumerateControls, listed(&[(0x00e7, true)]));
    expect(&mut s, set(0x00e7, true), Reply::Done);
    expect(&mut s, SessionAction::FindFeature(0x4600), Reply::Missing);
    expect(&mut s, SessionAction::FindFeature(0x1d4b), Reply::Refused("no".into()));
    expect(&mut s, SessionAction::PublishChannel, Reply::Done);
    assert!(!s.crown_armed());
    expect(&mut s, SessionAction::Await, Reply::Shutdown);
    expect(&mut s, SessionAction::ClearChannel, Reply::Done);
    expect(&mut s, set(0x00e7, false), Reply::Done);
    assert_eq!(s.action(), SessionAction::Finish);
}

#[test]
fn every_failure_says_what_failed() {
    let wanted = targets(&[(0x00e7, ButtonId::KeyMute)], true);

    let mut s = CaptureSession::new(3, &wanted);
    s.step(Reply::Missing);
    assert_eq!(s.error(), Some(&GestureError::DeviceNotFound));
    assert_eq!(s.action(), SessionAction::Fail);

    let mut s = CaptureSession::new(3, &wanted);
    s.step(Reply::Failed(GestureError::Hidpp("open".into())));
    assert_eq!(s.error(), Some(&GestureError::Hidpp("open".into())));

    let mut s = CaptureSession::new(3, &wanted);
    s.step(Reply::Done);
    s.step(Reply::Refused("timeout".into()));
    assert_eq!(s.error(), Some(&GestureError::DeviceUnreachable(3)));
    assert_eq!(s.into_error(), Some(GestureError::DeviceUnreachable(3)));

    let mut s = CaptureSession::new(3, &wanted);
    s.step(Reply::Done);
    s.step(Reply::Done);
    s.step(Reply::Missing);
    assert_eq!(
        s.error(),
        Some(&GestureError::Hidpp("keyboard exposes no 0x1b04 reprog controls".into()))
    );

    let mut s = CaptureSession::new(3, &wanted);
    s.step(Reply::Done);
    s.step(Reply::Done);
    s.step(Reply::Done);
    s.step(listed(&[(0x00e7, true)]));
    s.step(Reply::Refused("write".into()));
    assert_eq!(s.error(), Some(&GestureError::Hidpp("write".into())));

    let mut s = CaptureSession::new(3, &wanted);
    s.step(Reply::Done);
    s.step(Reply::Done);
    s.step(Reply::Refused("no answer".into()));
    assert_eq!(s.error(), Some(&GestureError::Hidpp("no answer".into())));

    let mut s = CaptureSession::new(3, &wanted);
    s.step(Reply::Done);
    s.step(Reply::Done);
    s.step(Reply::Done);
    s.step(Reply::Failed(GestureError::Hidpp("list".into())));
    assert_eq!(s.error(), Some(&GestureError::Hidpp("list".into())));

    let mut s = CaptureSession::new(3, &targets(&[], true));
    s.step(Reply::Done);
    s.step(Reply::Done);
    s.step(Reply::Refused("crown".into()));
    assert_eq!(s.error(), Some(&GestureError::Hidpp("crown".into())));

    let mut s = CaptureSession::new(3, &targets(&[], true));
    s.step(Reply::Done);
    s.step(Reply::Done);
    s.step(Reply::Done);
    s.step(Reply::Geometry { slots: 8, ratchets: 8 });
    s.step(Reply::Refused("Busy".into()));
    assert_eq!(
        s.error(),
        Some(&GestureError::Hidpp("crown divert failed: Busy".into()))
    );
    assert!(!s.crown_armed());
}
