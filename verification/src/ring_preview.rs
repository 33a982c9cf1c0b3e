//! A representative Actions Ring, for looking at the ring without a bound
//! control and a physical press.

use vstd::prelude::*;

use crate::text::owned;

verus! {

/// A place on the ring.
#[derive(Debug, Clone, Copy, PartialEq, Eq, Structural)]
pub enum ActionRingSlot {
    /// Twelve o'clock.
    Top,
    /// Half past one.
    TopRight,
    /// Three o'clock.
    Right,
    /// Half past four.
    BottomRight,
    /// Six o'clock.
    Bottom,
    /// Half past seven.
    BottomLeft,
    /// Nine o'clock.
    Left,
    /// Half past ten.
    TopLeft,
}

/// A glyph on the ring.
#[derive(Debug, Clone, Copy, PartialEq, Eq, Structural)]
pub enum ActionRingIcon {
    /// Scissors.
    Cut,
    /// Two sheets.
    Copy,
    /// A clipboard.
    Paste,
    /// A magnifier.
    Search,
    /// A set of tiles.
    Applications,
    /// A keyboard.
    Keyboard,
    /// A disk.
    Save,
    /// A grid.
    Grid,
}

/// What one place on the ring shows.
#[derive(Debug, PartialEq, Eq)]
pub struct ActionRingPresentation {
    /// Its name.
    pub label: String,
    /// Whether the name shows as it is, without translation.
    pub literal: bool,
    /// Its glyph.
    pub icon: ActionRingIcon,
}

/// One ring to show.
#[derive(Debug, PartialEq, Eq)]
pub struct ActionRingInvocation {
    /// The session that asked for it.
    pub session_id: u64,
    /// What each place shows: at most one entry per place.
    pub slots: Vec<(ActionRingSlot, ActionRingPresentation)>,
    /// The language to show it in; none for the system's.
    pub language: Option<String>,
}

/// One glyph per place, chosen to show the glyph set at its usual variety
/// rather than eight copies of one shape.
pub const SLOTS: [(ActionRingSlot, ActionRingIcon, &'static str); 8] = [
    (ActionRingSlot::Top, ActionRingIcon::Cut, "Cut"),
    (ActionRingSlot::TopRight, ActionRingIcon::Copy, "Copy"),
    (ActionRingSlot::Right, ActionRingIcon::Paste, "Paste"),
    (ActionRingSlot::BottomRight, ActionRingIcon::Search, "Search"),
    (ActionRingSlot::Bottom, ActionRingIcon::Applications, "Applications"),
    (ActionRingSlot::BottomLeft, ActionRingIcon::Keyboard, "Keyboard"),
    (ActionRingSlot::Left, ActionRingIcon::Save, "Save"),
    (ActionRingSlot::TopLeft, ActionRingIcon::Grid, "Grid"),
];

/// The ring to preview: the whole table, under no session's name and in the
/// system's language.
pub fn invocation() -> (r: ActionRingInvocation)
    ensures
        r.session_id == 0,
        r.language is None,
        r.slots@.len() == SLOTS@.len(),
        forall|i: int|
            0 <= i < r.slots@.len() ==> {
                &&& (#[trigger] r.slots@[i]).0 == SLOTS@[i].0
                &&& r.slots@[i].1.icon == SLOTS@[i].1
                &&& r.slots@[i].1.label@ == SLOTS@[i].2@
                &&& r.slots@[i].1.literal
            },
{
    let table: [(ActionRingSlot, ActionRingIcon, &'static str); 8] = SLOTS;
    let mut slots: Vec<(ActionRingSlot, ActionRingPresentation)> = Vec::new();
    let mut i: usize = 0;
    while i < 8
        invariant
            i <= 8,
            table == SLOTS,
            slots@.len() == i,
            forall|k: int|
                0 <= k < i ==> {
                    &&& (#[trigger] slots@[k]).0 == SLOTS@[k].0
                    &&& slots@[k].1.icon == SLOTS@[k].1
                    &&& slots@[k].1.label@ == SLOTS@[k].2@
                    &&& slots@[k].1.literal
                },
        decreases 8 - i,
    {
        let (slot, icon, label) = table[i];
        slots.push((slot, ActionRingPresentation { label: owned(label), literal: true, icon }));
        i += 1;
    }
    ActionRingInvocation { session_id: 0, slots, language: None }
}

/// The previewed ring fills every place once, and no two with the same glyph.
pub proof fn law_the_preview_fills_every_place_once(slot: ActionRingSlot)
    ensures
        exists|i: int| 0 <= i < SLOTS@.len() && (#[trigger] SLOTS@[i]).0 == slot,
        forall|i: int, j: int|
            0 <= i < j < SLOTS@.len() ==> (#[trigger] SLOTS@[i]).0 != (#[trigger] SLOTS@[j]).0
                && SLOTS@[i].1 != SLOTS@[j].1,
{
    assert(SLOTS@[0].0 == ActionRingSlot::Top && SLOTS@[0].1 == ActionRingIcon::Cut);
    assert(SLOTS@[1].0 == ActionRingSlot::TopRight && SLOTS@[1].1 == ActionRingIcon::Copy);
    assert(SLOTS@[2].0 == ActionRingSlot::Right && SLOTS@[2].1 == ActionRingIcon::Paste);
    assert(SLOTS@[3].0 == ActionRingSlot::BottomRight && SLOTS@[3].1 == ActionRingIcon::Search);
    assert(SLOTS@[4].0 == ActionRingSlot::Bottom && SLOTS@[4].1 == ActionRingIcon::Applications);
    assert(SLOTS@[5].0 == ActionRingSlot::BottomLeft && SLOTS@[5].1 == ActionRingIcon::Keyboard);
    assert(SLOTS@[6].0 == ActionRingSlot::Left && SLOTS@[6].1 == ActionRingIcon::Save);
    assert(SLOTS@[7].0 == ActionRingSlot::TopLeft && SLOTS@[7].1 == ActionRingIcon::Grid);
}

} // verus!
