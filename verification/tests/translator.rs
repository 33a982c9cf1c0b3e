//! The dial's packets, one by one.

use crown::binding::ButtonId;
use crown::translator::{
    slots_per_detent, ActivityState, ButtonState, CapturedInput, CrownGesture, CrownSample,
    CrownTranslator, CrownUpdate, TouchPhase, FALLBACK_SLOTS_PER_DETENT, MAX_STEPS_PER_EVENT,
};

/// An idle packet: no rotation, no press, no gesture, no contact.
fn idle() -> CrownSample {
    CrownSample {
        ratchets: 0,
        slots: 0,
        button: ButtonState::Inactive,
        tap: false,
        touch: TouchPhase::Idle,
    }
}

/// One deliberate tap as the Craft reports it: the finger lands, the
/// firmware calls it a tap, the finger leaves.
fn tap_contact(t: &mut CrownTranslator) -> Vec<CapturedInput> {
    let mut out = t.sample(CrownSample {
        touch: TouchPhase::Start,
        ..idle()
    });
    out.extend(t.sample(CrownSample {
        touch: TouchPhase::Active,
        tap: true,
        ..idle()
    }));
    out.extend(t.sample(CrownSample {
        touch: TouchPhase::Stop,
        ..idle()
    }));
    out
}

#[test]
fn ratchet_reports_map_one_detent_to_one_step() {
    let mut t = CrownTranslator::new(8);
    assert_eq!(
        t.sample(CrownSample {
            ratchets: 1,
            ..idle()
        }),
        vec![CapturedInput::ButtonPulse(ButtonId::CrownRotateUp)]
    );
    assert_eq!(
        t.sample(CrownSample {
            ratchets: -2,
            ..idle()
        }),
        vec![
            CapturedInput::ButtonPulse(ButtonId::CrownRotateDown),
            CapturedInput::ButtonPulse(ButtonId::CrownRotateDown),
        ]
    );
}

#[test]
fn slow_free_spin_accumulates_across_events_instead_of_rounding_away() {
    let mut t = CrownTranslator::new(4);
    let one_slot = CrownSample { slots: 1, ..idle() };

    // Three slots of a four-slot detent: no step yet, but nothing lost.
    for _ in 0..3 {
        assert!(t.sample(one_slot).is_empty());
    }
    assert_eq!(
        t.sample(one_slot),
        vec![CapturedInput::ButtonPulse(ButtonId::CrownRotateUp)],
        "the fourth slot completes the detent"
    );
    assert!(
        t.sample(one_slot).is_empty(),
        "the residue resets after a step, so the next detent needs four more slots"
    );
}

#[test]
fn reversing_direction_does_not_bank_a_step_from_opposite_travel() {
    let mut t = CrownTranslator::new(4);
    assert!(t.sample(CrownSample { slots: 3, ..idle() }).is_empty());
    // Turning back cancels the banked travel rather than completing a
    // detent in the new direction.
    assert!(
        t.sample(CrownSample {
            slots: -3,
            ..idle()
        })
        .is_empty()
    );
}

#[test]
fn a_ratchet_report_discards_stale_sub_detent_travel() {
    let mut t = CrownTranslator::new(4);
    assert!(t.sample(CrownSample { slots: 3, ..idle() }).is_empty());
    // The firmware's own detent count is authoritative; the banked slots
    // must not add a phantom extra step on top of it.
    assert_eq!(
        t.sample(CrownSample {
            ratchets: 1,
            slots: 1,
            ..idle()
        }),
        vec![CapturedInput::ButtonPulse(ButtonId::CrownRotateUp)]
    );
}

#[test]
fn a_fast_flick_is_capped_rather_than_firing_an_unbounded_burst() {
    let mut t = CrownTranslator::new(1);
    assert_eq!(
        t.sample(CrownSample {
            slots: 127,
            ..idle()
        })
        .len(),
        usize::try_from(MAX_STEPS_PER_EVENT).expect("the cap is positive"),
        "one packet must not fire an unbounded action burst"
    );
}

#[test]
fn press_emits_one_balanced_edge_pair_despite_repeated_active_states() {
    let mut t = CrownTranslator::new(8);

    assert_eq!(
        t.sample(CrownSample {
            button: ButtonState::Press,
            ..idle()
        }),
        vec![CapturedInput::ButtonDown(ButtonId::CrownPress)]
    );
    // The firmware repeats "still held" — no second down edge.
    for held in [ButtonState::ShortPressActive, ButtonState::LongPressActive] {
        assert!(
            t.sample(CrownSample {
                button: held,
                ..idle()
            })
            .is_empty(),
            "{held:?} must not re-fire a down edge"
        );
    }

    assert_eq!(
        t.sample(CrownSample {
            button: ButtonState::Release,
            ..idle()
        }),
        vec![CapturedInput::ButtonUp(ButtonId::CrownPress)]
    );
    // And no second up edge once released.
    assert!(t.sample(idle()).is_empty());
}

#[test]
fn a_press_that_is_only_ever_reported_as_long_still_balances() {
    // A packet can arrive with the press already promoted to `LongPress`
    // (the `Press` edge lost to a dropped report). It must still open and
    // close exactly one hold, or the runtime keeps a key held forever.
    let mut t = CrownTranslator::new(8);
    assert_eq!(
        t.sample(CrownSample {
            button: ButtonState::LongPress,
            ..idle()
        }),
        vec![CapturedInput::ButtonDown(ButtonId::CrownPress)]
    );
    assert_eq!(
        t.sample(CrownSample {
            button: ButtonState::Release,
            ..idle()
        }),
        vec![CapturedInput::ButtonUp(ButtonId::CrownPress)]
    );
}

#[test]
fn rotating_while_held_does_not_disturb_the_hold() {
    let mut t = CrownTranslator::new(8);
    let _ = t.sample(CrownSample {
        button: ButtonState::Press,
        ..idle()
    });
    assert_eq!(
        t.sample(CrownSample {
            ratchets: 1,
            button: ButtonState::ShortPressActive,
            ..idle()
        }),
        vec![CapturedInput::ButtonPulse(ButtonId::CrownRotateUp)],
        "press-and-turn rotates without re-firing the press"
    );
}

#[test]
fn touch_and_proximity_alone_dispatch_nothing() {
    // Proximity/touch phases are not part of `CrownSample` at all, so a
    // packet carrying only those is idle by construction — this pins the
    // decision that a hand resting on the dial is not an input.
    let mut t = CrownTranslator::new(8);
    assert!(t.sample(idle()).is_empty());
}

#[test]
fn a_tap_pulses_and_a_double_tap_does_not_double_fire() {
    let mut t = CrownTranslator::new(8);
    assert_eq!(
        t.sample(CrownSample {
            tap: true,
            ..idle()
        }),
        vec![CapturedInput::ButtonPulse(ButtonId::CrownTap)]
    );
    // `CrownGesture::DoubleTap` converts to `tap: false` — the firmware
    // reports it alongside the tap that began it.
    assert!(t.sample(idle()).is_empty());
}

/// The grammar the whole contact rule exists for: a brief touch with
/// nothing else in it is a tap.
#[test]
fn a_bare_contact_the_firmware_calls_a_tap_pulses_once() {
    let mut t = CrownTranslator::new(8);
    assert_eq!(
        tap_contact(&mut t),
        vec![CapturedInput::ButtonPulse(ButtonId::CrownTap)]
    );
}

/// Turning while touching is a turn, not a tap — even though the firmware
/// reports its tap gesture during the same contact.
#[test]
fn a_contact_that_rotates_is_not_a_tap() {
    let mut t = CrownTranslator::new(8);
    t.sample(CrownSample {
        touch: TouchPhase::Start,
        ..idle()
    });
    let turned = t.sample(CrownSample {
        touch: TouchPhase::Active,
        ratchets: 1,
        tap: true,
        ..idle()
    });
    assert_eq!(
        turned,
        vec![CapturedInput::ButtonPulse(ButtonId::CrownRotateUp)],
        "the rotation dispatches, the tap does not"
    );
    assert!(
        t.sample(CrownSample {
            touch: TouchPhase::Stop,
            ..idle()
        })
        .is_empty(),
        "lifting off after a turn must not fire the tap"
    );
}

/// Pushing while touching is a press, not a tap.
#[test]
fn a_contact_that_presses_is_not_a_tap() {
    let mut t = CrownTranslator::new(8);
    t.sample(CrownSample {
        touch: TouchPhase::Start,
        ..idle()
    });
    t.sample(CrownSample {
        touch: TouchPhase::Active,
        button: ButtonState::Press,
        tap: true,
        ..idle()
    });
    let released = t.sample(CrownSample {
        touch: TouchPhase::Active,
        button: ButtonState::Release,
        ..idle()
    });
    assert_eq!(
        released,
        vec![CapturedInput::ButtonUp(ButtonId::CrownPress)]
    );
    assert!(
        t.sample(CrownSample {
            touch: TouchPhase::Stop,
            ..idle()
        })
        .is_empty(),
        "the press already happened; lifting off is not also a tap"
    );
}

/// The case the per-packet rule could not catch: the gesture arriving
/// after the button has gone idle, while the finger is still down.
#[test]
fn a_tap_reported_after_a_press_within_one_contact_is_still_suppressed() {
    let mut t = CrownTranslator::new(8);
    t.sample(CrownSample {
        touch: TouchPhase::Start,
        button: ButtonState::Press,
        ..idle()
    });
    t.sample(CrownSample {
        touch: TouchPhase::Active,
        button: ButtonState::Release,
        ..idle()
    });
    // Button idle now, but the finger has not left.
    t.sample(CrownSample {
        touch: TouchPhase::Active,
        tap: true,
        ..idle()
    });
    assert!(
        t.sample(CrownSample {
            touch: TouchPhase::Stop,
            ..idle()
        })
        .is_empty(),
        "one contact, one verdict — the press disqualified it"
    );
}

/// A finger resting on the dial is not a tap, however long it rests.
#[test]
fn a_contact_the_firmware_never_calls_a_tap_pulses_nothing() {
    let mut t = CrownTranslator::new(8);
    t.sample(CrownSample {
        touch: TouchPhase::Start,
        ..idle()
    });
    for _ in 0..20 {
        assert!(
            t.sample(CrownSample {
                touch: TouchPhase::Active,
                ..idle()
            })
            .is_empty()
        );
    }
    assert!(
        t.sample(CrownSample {
            touch: TouchPhase::Stop,
            ..idle()
        })
        .is_empty()
    );
}

/// Consecutive taps each stand alone: a disqualified contact must not
/// poison the next one.
#[test]
fn a_disqualified_contact_does_not_poison_the_next_tap() {
    let mut t = CrownTranslator::new(8);
    t.sample(CrownSample {
        touch: TouchPhase::Start,
        ..idle()
    });
    t.sample(CrownSample {
        touch: TouchPhase::Active,
        ratchets: 1,
        tap: true,
        ..idle()
    });
    t.sample(CrownSample {
        touch: TouchPhase::Stop,
        ..idle()
    });
    assert_eq!(
        tap_contact(&mut t),
        vec![CapturedInput::ButtonPulse(ButtonId::CrownTap)],
        "the next clean contact taps"
    );
}

/// A crown with no touch sensor reports no phases; the tap must still
/// work rather than being lost with the contact that never opens.
#[test]
fn a_crown_without_touch_phases_falls_back_to_the_packet_rule() {
    let mut t = CrownTranslator::new(8);
    assert_eq!(
        t.sample(CrownSample {
            tap: true,
            ..idle()
        }),
        vec![CapturedInput::ButtonPulse(ButtonId::CrownTap)]
    );
}

/// Pressing the crown touches its capacitive sensor, so the firmware
/// reports a tap in the same packet. Dispatching both made one press run
/// the press action *and* the tap action — which, with the tap bound to
/// the mode cycle, meant clicking the dial changed mode.
#[test]
fn a_press_that_also_reports_a_tap_does_not_pulse_the_tap() {
    let mut t = CrownTranslator::new(8);
    assert_eq!(
        t.sample(CrownSample {
            button: ButtonState::Press,
            tap: true,
            ..idle()
        }),
        vec![CapturedInput::ButtonDown(ButtonId::CrownPress)],
        "the press is the event; the tap is its finger"
    );
}

/// The tap can also arrive while the press is still being held, or as the
/// finger lifts off.
#[test]
fn a_tap_while_held_or_releasing_is_suppressed() {
    let mut t = CrownTranslator::new(8);
    t.sample(CrownSample {
        button: ButtonState::Press,
        ..idle()
    });
    assert!(
        t.sample(CrownSample {
            button: ButtonState::LongPressActive,
            tap: true,
            ..idle()
        })
        .is_empty(),
        "a tap mid-hold is the held finger"
    );
    assert_eq!(
        t.sample(CrownSample {
            button: ButtonState::Release,
            tap: true,
            ..idle()
        }),
        vec![CapturedInput::ButtonUp(ButtonId::CrownPress)],
        "a tap on release is the finger leaving"
    );
}

/// The whole point of the suppression is that it is narrow: a touch tap
/// with no button activity is still a tap.
#[test]
fn a_tap_after_the_button_goes_idle_still_pulses() {
    let mut t = CrownTranslator::new(8);
    t.sample(CrownSample {
        button: ButtonState::Press,
        ..idle()
    });
    t.sample(CrownSample {
        button: ButtonState::Release,
        ..idle()
    });
    assert_eq!(
        t.sample(CrownSample {
            tap: true,
            ..idle()
        }),
        vec![CapturedInput::ButtonPulse(ButtonId::CrownTap)]
    );
}

#[test]
fn rotation_and_press_in_one_packet_both_dispatch() {
    let mut t = CrownTranslator::new(8);
    assert_eq!(
        t.sample(CrownSample {
            ratchets: 1,
            button: ButtonState::Press,
            ..idle()
        }),
        vec![
            CapturedInput::ButtonPulse(ButtonId::CrownRotateUp),
            CapturedInput::ButtonDown(ButtonId::CrownPress),
        ]
    );
}

#[test]
fn degenerate_geometry_falls_back_instead_of_dividing_by_zero() {
    assert_eq!(slots_per_detent(0, 0), FALLBACK_SLOTS_PER_DETENT);
    assert_eq!(slots_per_detent(24, 0), FALLBACK_SLOTS_PER_DETENT);
    assert_eq!(
        slots_per_detent(8, 24),
        FALLBACK_SLOTS_PER_DETENT,
        "more ratchets than slots is not a geometry we can divide"
    );
    assert_eq!(slots_per_detent(24, 24), 1);
    assert_eq!(slots_per_detent(96, 24), 4);
}

fn packet() -> CrownUpdate {
    CrownUpdate {
        relative_slot_rotation: 0,
        relative_ratchet_rotation: 0,
        proximity: ActivityState::Inactive,
        touch: ActivityState::Inactive,
        gesture: CrownGesture::NoGesture,
        button: ButtonState::Inactive,
    }
}

#[test]
fn a_hand_near_the_dial_and_a_double_tap_dispatch_nothing() {
    let mut t = CrownTranslator::new(8);
    assert!(t
        .update(&CrownUpdate { proximity: ActivityState::Active, ..packet() })
        .is_empty());
    assert!(t
        .update(&CrownUpdate { gesture: CrownGesture::DoubleTap, ..packet() })
        .is_empty());
    assert_eq!(
        t.update(&CrownUpdate { gesture: CrownGesture::Tap, ..packet() }),
        vec![CapturedInput::ButtonPulse(ButtonId::CrownTap)]
    );
}

#[test]
fn an_undefined_touch_byte_is_no_contact() {
    assert_eq!(TouchPhase::from(ActivityState::Other(9)), TouchPhase::Idle);
    assert_eq!(TouchPhase::from(ActivityState::Start), TouchPhase::Start);
    assert_eq!(TouchPhase::from(ActivityState::Stop), TouchPhase::Stop);
    assert_eq!(TouchPhase::default(), TouchPhase::Idle);
    let sample = CrownSample::from(&CrownUpdate {
        relative_slot_rotation: -5,
        relative_ratchet_rotation: 2,
        touch: ActivityState::Active,
        gesture: CrownGesture::Tap,
        button: ButtonState::Press,
        ..packet()
    });
    assert_eq!(
        sample,
        CrownSample {
            ratchets: 2,
            slots: -5,
            button: ButtonState::Press,
            tap: true,
            touch: TouchPhase::Active,
        }
    );
}

#[test]
fn downward_free_spin_accumulates_like_upward() {
    let mut t = CrownTranslator::new(4);
    assert!(t.sample(CrownSample { slots: -3, ..idle() }).is_empty());
    assert_eq!(
        t.sample(CrownSample { slots: -6, ..idle() }),
        vec![
            CapturedInput::ButtonPulse(ButtonId::CrownRotateDown),
            CapturedInput::ButtonPulse(ButtonId::CrownRotateDown),
        ]
    );
    assert!(t.sample(CrownSample { slots: -2, ..idle() }).is_empty());
    assert_eq!(
        t.sample(CrownSample { slots: -1, ..idle() }),
        vec![CapturedInput::ButtonPulse(ButtonId::CrownRotateDown)]
    );
}

#[test]
fn a_fast_ratchet_flick_is_capped_both_ways() {
    let mut t = CrownTranslator::new(8);
    assert_eq!(
        t.sample(CrownSample { ratchets: 100, ..idle() }),
        vec![CapturedInput::ButtonPulse(ButtonId::CrownRotateUp); 8]
    );
    assert_eq!(
        t.sample(CrownSample { ratchets: -128, ..idle() }),
        vec![CapturedInput::ButtonPulse(ButtonId::CrownRotateDown); 8]
    );
}

#[test]
fn rotation_steps_lose_and_invent_no_travel() {
    let mut t = CrownTranslator::new(4);
    let one = CrownSample { slots: 1, ..idle() };
    assert_eq!(t.rotation_steps(one), 0);
    assert_eq!(t.rotation_steps(one), 0);
    assert_eq!(t.rotation_steps(one), 0);
    assert_eq!(t.rotation_steps(one), 1);
    assert_eq!(t.rotation_steps(CrownSample { slots: 3, ..idle() }), 0);
    assert_eq!(t.rotation_steps(CrownSample { slots: -3, ..idle() }), 0);

    let mut t = CrownTranslator::new(7);
    let (mut turned, mut steps) = (0i32, 0i32);
    for slots in [5i8, 20, -13, 40, -1, -48, 7, -30] {
        turned += i32::from(slots);
        let taken = t.rotation_steps(CrownSample { slots, ..idle() });
        assert!((-8..=8).contains(&taken));
        steps += taken;
        assert!((turned - 7 * steps).abs() < 7);
    }
    assert_eq!(
        CrownTranslator::new(-1).rotation_steps(CrownSample { slots: -128, ..idle() }),
        8
    );
}
