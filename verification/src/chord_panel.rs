//! Press-and-rotate: the crown press as a chord holder, as the panel shows it.
//!
//! Holding the dial and turning it runs a direction; releasing without turning
//! runs the click. The map lives in the device's own bindings, since an app
//! profile holds one action per control and no directions, so the way in is
//! hidden inside an app profile.

use vstd::prelude::*;

use crate::binding::{Action, GestureDirection, GestureMap};
use crate::panel::{Caption, CrownPanel, Target};
use crate::text::owned;

verus! {

/// The chord's three slots, in the order the card lists them. A dial has one
/// axis, so the sideways directions are absent: no rotation could reach them.
pub const CHORD_SLOTS: [GestureDirection; 3] = [
    GestureDirection::Up,
    GestureDirection::Down,
    GestureDirection::Click,
];

/// What a slot means for a dial.
pub open spec fn slot_words(direction: GestureDirection) -> Seq<char> {
    match direction {
        GestureDirection::Up => "Turn up while held"@,
        GestureDirection::Down => "Turn down while held"@,
        GestureDirection::Click => "Press without turning"@,
        _ => "Off"@,
    }
}

/// What a slot means for a dial, which is not what it means for a mouse.
pub fn slot_label(direction: GestureDirection) -> (r: &'static str)
    ensures
        r@ == slot_words(direction),
{
    match direction {
        GestureDirection::Up => "Turn up while held",
        GestureDirection::Down => "Turn down while held",
        GestureDirection::Click => "Press without turning",
        GestureDirection::Left | GestureDirection::Right => "Off",
    }
}

/// A slot's name, for a picker's caption.
pub fn slot_caption(direction: GestureDirection) -> (r: String)
    ensures
        r@ == slot_words(direction),
{
    owned(slot_label(direction))
}

/// One chord slot's row.
#[derive(Debug, Clone, Copy, PartialEq, Eq, Structural)]
pub struct SlotRow {
    /// The slot.
    pub direction: GestureDirection,
    /// Whether its picker is open.
    pub selected: bool,
    /// The action whose icon shows.
    pub icon: Action,
    /// Whether the row is emphasised, as one with a real action.
    pub bound: bool,
    /// What it says of the action.
    pub caption: Caption,
}

/// Whether a slot runs anything. One that is unset and one that is set to do
/// nothing both read as off: there is no ordinary binding to fall through to.
pub open spec fn slot_bound(action: Option<Action>) -> bool {
    action is Some && action->0 != Action::NoAction
}

/// The row of one slot.
pub open spec fn slot_row_of(
    direction: GestureDirection,
    action: Option<Action>,
    selected: bool,
) -> SlotRow {
    SlotRow {
        direction,
        selected,
        icon: match action {
            Some(action) => action,
            None => Action::NoAction,
        },
        bound: slot_bound(action),
        caption: if slot_bound(action) {
            Caption::Named(action->0)
        } else {
            Caption::Off
        },
    }
}

/// One chord slot: what it is, and the action it runs.
pub fn slot_row(
    direction: GestureDirection,
    action: Option<Action>,
    selected: bool,
) -> (r: SlotRow)
    ensures
        r == slot_row_of(direction, action, selected),
{
    let (icon, bound, caption) = match action {
        Some(action) => if action != Action::NoAction {
            (action, true, Caption::Named(action))
        } else {
            (action, false, Caption::Off)
        },
        None => (Action::NoAction, false, Caption::Off),
    };
    SlotRow { direction, selected, icon, bound, caption }
}

/// The press-and-rotate card's rows, one per slot.
pub fn chord_card(map: &GestureMap, panel: &CrownPanel) -> (r: Vec<SlotRow>)
    ensures
        r@.len() == CHORD_SLOTS@.len(),
        forall|i: int|
            0 <= i < r@.len() ==> (#[trigger] r@[i]) == slot_row_of(
                CHORD_SLOTS@[i],
                map.at(CHORD_SLOTS@[i]),
                panel.selected == Some(Target::Chord(CHORD_SLOTS@[i])),
            ),
{
    let offered: [GestureDirection; 3] = CHORD_SLOTS;
    let mut rows: Vec<SlotRow> = Vec::new();
    let mut i: usize = 0;
    while i < 3
        invariant
            i <= 3,
            offered == CHORD_SLOTS,
            rows@.len() == i,
            forall|k: int|
                0 <= k < i ==> (#[trigger] rows@[k]) == slot_row_of(
                    CHORD_SLOTS@[k],
                    map.at(CHORD_SLOTS@[k]),
                    panel.selected == Some(Target::Chord(CHORD_SLOTS@[k])),
                ),
        decreases 3 - i,
    {
        let direction: GestureDirection = offered[i];
        rows.push(
            slot_row(
                direction,
                map.get(direction),
                panel.selected == Some(Target::Chord(direction)),
            ),
        );
        i += 1;
    }
    rows
}

/// The way into press-and-rotate, at the foot of the crown press's picker.
#[derive(Debug, Clone, Copy, PartialEq, Eq, Structural)]
pub enum EnableRow {
    /// A note that it is set per device.
    PerDeviceNote,
    /// A button that turns it on.
    TurnOn,
}

/// The way into press-and-rotate. Inside an app profile there is only a note:
/// a button there would silently change every application instead of the one
/// on screen.
pub fn enable_row(in_app_profile: bool) -> (r: EnableRow)
    ensures
        r == if in_app_profile {
            EnableRow::PerDeviceNote
        } else {
            EnableRow::TurnOn
        },
{
    if in_app_profile {
        EnableRow::PerDeviceNote
    } else {
        EnableRow::TurnOn
    }
}

/// The card offers a slot exactly for what a dial can do: turn either way, or
/// be pressed without turning.
pub proof fn law_the_card_offers_what_a_dial_can_reach(direction: GestureDirection)
    ensures
        CHORD_SLOTS@.contains(direction) <==> crate::watcher::rotation_of(direction) is Some
            || direction == GestureDirection::Click,
{
    assert(CHORD_SLOTS@[0] == GestureDirection::Up);
    assert(CHORD_SLOTS@[1] == GestureDirection::Down);
    assert(CHORD_SLOTS@[2] == GestureDirection::Click);
}

/// Every offered slot has a name of its own.
pub proof fn law_every_offered_slot_has_its_own_name(a: GestureDirection, b: GestureDirection)
    requires
        CHORD_SLOTS@.contains(a),
        CHORD_SLOTS@.contains(b),
    ensures
        slot_words(a) != "Off"@,
        a != b ==> slot_words(a) != slot_words(b),
{
    reveal_strlit("Turn up while held");
    reveal_strlit("Turn down while held");
    reveal_strlit("Press without turning");
    reveal_strlit("Off");
    assert(slot_words(GestureDirection::Up)[5] == 'u');
    assert(slot_words(GestureDirection::Down)[5] == 'd');
    assert(slot_words(GestureDirection::Click)[0] == 'P');
    assert(slot_words(GestureDirection::Up)[0] == 'T');
    assert(slot_words(GestureDirection::Down)[0] == 'T');
    law_the_card_offers_what_a_dial_can_reach(a);
    law_the_card_offers_what_a_dial_can_reach(b);
}

/// A slot's row shows its own direction and action: by name where it does
/// something; one that is unset and one that does nothing both read as off.
pub proof fn law_a_slot_row_shows_what_it_runs(
    direction: GestureDirection,
    action: Option<Action>,
    selected: bool,
)
    ensures
        ({
            let row = slot_row_of(direction, action, selected);
            &&& row.direction == direction
            &&& row.selected == selected
            &&& action matches Some(set) ==> row.icon == set
            &&& action is None ==> row.icon == Action::NoAction
            &&& action is None || action->0 == Action::NoAction ==> !row.bound && row.caption
                == Caption::Off
            &&& action is Some && action->0 != Action::NoAction ==> row.bound && row.caption
                == Caption::Named(action->0)
        }),
{
}

/// Each slot is named for what it does, and the sideways directions for
/// nothing.
pub proof fn law_each_slot_is_named_for_what_it_does(direction: GestureDirection)
    ensures
        direction is Up ==> slot_words(direction) == "Turn up while held"@,
        direction is Down ==> slot_words(direction) == "Turn down while held"@,
        direction is Click ==> slot_words(direction) == "Press without turning"@,
        direction is Left || direction is Right ==> slot_words(direction) == "Off"@,
        CHORD_SLOTS@.contains(direction) <==> direction is Up || direction is Down || direction
            is Click,
        CHORD_SLOTS@.len() == 3,
{
    assert(CHORD_SLOTS@[0] == GestureDirection::Up);
    assert(CHORD_SLOTS@[1] == GestureDirection::Down);
    assert(CHORD_SLOTS@[2] == GestureDirection::Click);
}

} // verus!
