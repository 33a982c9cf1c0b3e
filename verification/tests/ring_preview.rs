//! The previewed ring.

use crown::ring_preview::{invocation, ActionRingIcon, ActionRingSlot};

#[test]
fn the_preview_shows_the_whole_table() {
    let ring = invocation();
    assert_eq!(ring.session_id, 0);
    assert_eq!(ring.language, None);
    assert_eq!(ring.slots.len(), 8);
    let (slot, shown) = &ring.slots[4];
    assert_eq!(*slot, ActionRingSlot::Bottom);
    assert_eq!(shown.icon, ActionRingIcon::Applications);
    assert_eq!(shown.label, "Applications");
    assert!(ring.slots.iter().all(|(_, shown)| shown.literal));
    for (i, (slot, _)) in ring.slots.iter().enumerate() {
        assert!(ring.slots.iter().skip(i + 1).all(|(other, _)| other != slot));
    }
}
