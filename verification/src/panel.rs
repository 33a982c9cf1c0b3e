//! The crown-dial binding panel: its four controls, which of them is open, and
//! what each row and the open picker show.
//!
//! An unbound control keeps the dial's firmware behaviour, so a row's "Off" is
//! a live state and not just an empty slot.

use vstd::prelude::*;

use crate::binding::{Action, ButtonId, GestureDirection};
use crate::text::{owned, text_eq};

verus! {

/// Which catalog row to tick for an action: none for one that does nothing.
pub open spec fn ticked(action: Action) -> Option<Action> {
    if action != Action::NoAction {
        Some(action)
    } else {
        None
    }
}

/// Which catalog row to tick for a control's current action.
///
/// An inert control does nothing by default and not by choice, so nothing is
/// ticked; otherwise the catalog's own "None" row would read back as a decision
/// the user had made.
pub fn catalog_selection(action: &Action) -> (r: Option<&Action>)
    ensures
        match r {
            Some(row) => ticked(*action) == Some(*row),
            None => ticked(*action) is None,
        },
{
    if *action != Action::NoAction {
        Some(action)
    } else {
        None
    }
}

/// What the application's state announces.
#[derive(Debug, PartialEq, Eq)]
pub enum StateEvent {
    /// The devices on hand changed.
    InventoryChanged,
    /// Another device was selected.
    DeviceSelected(String),
    /// A device's bindings changed, by its key.
    BindingsChanged(String),
    /// Something else.
    Other,
}

/// Whether an announcement changes what the panel of the device `current`
/// shows.
pub open spec fn concerns(event: StateEvent, current: Option<Seq<char>>) -> bool {
    match event {
        StateEvent::InventoryChanged => true,
        StateEvent::DeviceSelected(_) => true,
        StateEvent::BindingsChanged(key) => current == Some(key@),
        StateEvent::Other => false,
    }
}

/// A key that may be absent.
pub open spec fn key_of(current: Option<&str>) -> Option<Seq<char>> {
    match current {
        Some(key) => Some(key@),
        None => None,
    }
}

/// Whether an announcement is a reason to show the panel anew.
pub fn is_relevant(event: &StateEvent, current: Option<&str>) -> (r: bool)
    ensures
        r == concerns(*event, key_of(current)),
{
    match event {
        StateEvent::InventoryChanged => true,
        StateEvent::DeviceSelected(_) => true,
        StateEvent::BindingsChanged(key) => match current {
            Some(current) => text_eq(current, key.as_str()),
            None => false,
        },
        StateEvent::Other => false,
    }
}

/// What a picker can be open for.
#[derive(Debug, Clone, Copy, PartialEq, Eq, Structural)]
pub enum Target {
    /// One of the crown's controls, by its position.
    Control(usize),
    /// One slot of press-and-rotate.
    Chord(GestureDirection),
    /// One control inside the mode at this position.
    ModeControl(usize, ButtonId),
}

/// What is open once `target` was clicked: clicking the open one closes it.
pub open spec fn toggled(open: Option<Target>, target: Target) -> Option<Target> {
    if open == Some(target) {
        None
    } else {
        Some(target)
    }
}

/// The crown-dial binding panel.
#[derive(Debug, Clone, Copy, PartialEq, Eq, Structural)]
pub struct CrownPanel {
    /// What the picker is open for, if it is.
    pub selected: Option<Target>,
}

impl CrownPanel {
    /// The panel with its picker closed.
    pub fn new() -> (r: Self)
        ensures
            r == (CrownPanel { selected: None }),
    {
        CrownPanel { selected: None }
    }

    /// Open the picker for `target`, or close it if it is open for just that.
    pub fn select(&mut self, target: Target)
        ensures
            *final(self) == (CrownPanel { selected: toggled(old(self).selected, target) }),
    {
        if self.selected == Some(target) {
            self.selected = None;
        } else {
            self.selected = Some(target);
        }
    }

    /// Toggle the picker for one control: clicking the open one closes it.
    pub fn click_control(&mut self, idx: usize)
        ensures
            *final(self) == (CrownPanel {
                selected: toggled(old(self).selected, Target::Control(idx)),
            }),
    {
        self.select(Target::Control(idx))
    }

    /// The slot whose picker is open.
    pub fn open_slot(&self, slots: &Vec<CrownSlot>) -> (r: Option<CrownSlot>)
        ensures
            r == match self.selected {
                Some(Target::Control(idx)) => if idx < slots@.len() {
                    Some(slots@[idx as int])
                } else {
                    None
                },
                _ => None,
            },
    {
        match self.selected {
            Some(Target::Control(idx)) => {
                if idx < slots.len() {
                    Some(slots[idx])
                } else {
                    None
                }
            },
            _ => None,
        }
    }
}

/// One crown control resolved for display.
#[derive(Debug, Clone, Copy, PartialEq, Eq, Structural)]
pub struct CrownSlot {
    /// The control.
    pub button: ButtonId,
    /// The action in force.
    pub action: Action,
}

/// The action bound to `button`; nothing for a control that is not bound.
pub open spec fn bound_action(bindings: Seq<(ButtonId, Action)>, button: ButtonId) -> Action
    decreases bindings.len(),
{
    if bindings.len() == 0 {
        Action::NoAction
    } else if bindings[0].0 == button {
        bindings[0].1
    } else {
        bound_action(bindings.drop_first(), button)
    }
}

fn find_action(bindings: &Vec<(ButtonId, Action)>, button: ButtonId) -> (r: Action)
    ensures
        r == bound_action(bindings@, button),
{
    let mut i: usize = 0;
    assert(bindings@.skip(0) =~= bindings@);
    while i < bindings.len()
        invariant
            i <= bindings@.len(),
            bound_action(bindings@, button) == bound_action(bindings@.skip(i as int), button),
        decreases bindings@.len() - i,
    {
        assert(bindings@.skip(i as int)[0] == bindings@[i as int]);
        assert(bindings@.skip(i as int).drop_first() =~= bindings@.skip(i + 1));
        if bindings[i].0 == button {
            return bindings[i].1;
        }
        i += 1;
    }
    Action::NoAction
}

/// The four crown controls with the actions in force, from the device's
/// bindings; a control that is not among them does nothing.
pub fn crown_slots(bindings: &Vec<(ButtonId, Action)>) -> (r: Vec<CrownSlot>)
    ensures
        r@.len() == ButtonId::CROWN_CONTROLS@.len(),
        forall|i: int|
            0 <= i < r@.len() ==> (#[trigger] r@[i]) == (CrownSlot {
                button: ButtonId::CROWN_CONTROLS@[i],
                action: bound_action(bindings@, ButtonId::CROWN_CONTROLS@[i]),
            }),
{
    let controls: [ButtonId; 4] = ButtonId::CROWN_CONTROLS;
    let mut slots: Vec<CrownSlot> = Vec::new();
    let mut i: usize = 0;
    while i < 4
        invariant
            i <= 4,
            controls == ButtonId::CROWN_CONTROLS,
            slots@.len() == i,
            forall|k: int|
                0 <= k < i ==> (#[trigger] slots@[k]) == (CrownSlot {
                    button: ButtonId::CROWN_CONTROLS@[k],
                    action: bound_action(bindings@, ButtonId::CROWN_CONTROLS@[k]),
                }),
        decreases 4 - i,
    {
        let button: ButtonId = controls[i];
        slots.push(CrownSlot { button, action: find_action(bindings, button) });
        i += 1;
    }
    slots
}

/// What a row says of a control's action.
#[derive(Debug, Clone, Copy, PartialEq, Eq, Structural)]
pub enum Caption {
    /// This action's own name.
    Named(Action),
    /// "Off".
    Off,
    /// "Falls through".
    FallsThrough,
}

/// What a control's row is identified by: the control itself and not the row's
/// position, so that the list can be reordered without moving the focus.
pub open spec fn control_number(button: ButtonId) -> int {
    match button {
        ButtonId::CrownRotateUp => 0,
        ButtonId::CrownRotateDown => 1,
        ButtonId::CrownPress => 2,
        ButtonId::CrownTap => 3,
        _ => 4,
    }
}

/// What a control's row is identified by.
pub fn control_id(button: ButtonId) -> (r: usize)
    ensures
        r == control_number(button),
{
    match button {
        ButtonId::CrownRotateUp => 0,
        ButtonId::CrownRotateDown => 1,
        ButtonId::CrownPress => 2,
        ButtonId::CrownTap => 3,
        _ => 4,
    }
}

/// One selectable control row.
#[derive(Debug, Clone, Copy, PartialEq, Eq, Structural)]
pub struct ControlRow {
    /// What the row is identified by.
    pub id: usize,
    /// What a click on it opens or closes.
    pub idx: usize,
    /// Whether its picker is open.
    pub selected: bool,
    /// The control.
    pub button: ButtonId,
    /// The action whose icon shows.
    pub icon: Action,
    /// Whether the row is emphasised, as one with a real action.
    pub bound: bool,
    /// What it says of the action.
    pub caption: Caption,
}

/// The row for one control.
pub open spec fn row_of(idx: usize, slot: CrownSlot, selected: bool) -> ControlRow {
    ControlRow {
        id: control_number(slot.button) as usize,
        idx,
        selected,
        button: slot.button,
        icon: slot.action,
        bound: slot.action != Action::NoAction,
        caption: if slot.action != Action::NoAction {
            Caption::Named(slot.action)
        } else {
            Caption::Off
        },
    }
}

/// One selectable control row: the control, and the action it runs.
pub fn control_row(idx: usize, slot: &CrownSlot, selected: bool) -> (r: ControlRow)
    ensures
        r == row_of(idx, *slot, selected),
{
    let bound: bool = slot.action != Action::NoAction;
    ControlRow {
        id: control_id(slot.button),
        idx,
        selected,
        button: slot.button,
        icon: slot.action,
        bound,
        caption: if bound {
            Caption::Named(slot.action)
        } else {
            Caption::Off
        },
    }
}

/// The rows of the crown's controls, each showing the action in force.
pub fn control_list(slots: &Vec<CrownSlot>, panel: &CrownPanel) -> (r: Vec<ControlRow>)
    ensures
        r@.len() == slots@.len(),
        forall|i: int|
            0 <= i < r@.len() ==> (#[trigger] r@[i]) == row_of(
                i as usize,
                slots@[i],
                panel.selected == Some(Target::Control(i as usize)),
            ),
{
    let mut rows: Vec<ControlRow> = Vec::new();
    let mut i: usize = 0;
    while i < slots.len()
        invariant
            i <= slots@.len(),
            rows@.len() == i,
            forall|k: int|
                0 <= k < i ==> (#[trigger] rows@[k]) == row_of(
                    k as usize,
                    slots@[k],
                    panel.selected == Some(Target::Control(k as usize)),
                ),
        decreases slots@.len() - i,
    {
        rows.push(control_row(i, &slots[i], panel.selected == Some(Target::Control(i))));
        i += 1;
    }
    rows
}

/// The action picker for one control.
#[derive(Debug, PartialEq, Eq)]
pub struct PickerPanel {
    /// The control it binds.
    pub button: ButtonId,
    /// Its caption.
    pub title: String,
    /// The catalog row that is ticked.
    pub ticked: Option<Action>,
    /// Whether it offers the default profile: only for a control that the open
    /// app profile overrides, for otherwise there is nothing to revert to.
    pub offers_default: bool,
}

/// The action picker for one control. `overrides` are the controls that the
/// open app profile overrides; none is open without them.
pub fn picker_panel(slot: &CrownSlot, overrides: Option<&Vec<ButtonId>>) -> (r: PickerPanel)
    ensures
        r.button == slot.button,
        r.title@ == "Bind "@ + slot.button.name(),
        r.ticked == ticked(slot.action),
        r.offers_default == (overrides matches Some(list) && list@.contains(slot.button)),
{
    let mut title = owned("Bind ");
    title.append(slot.button.label());
    let ticked: Option<Action> = if slot.action != Action::NoAction {
        Some(slot.action)
    } else {
        None
    };
    let offers_default: bool = match overrides {
        Some(list) => holds_button(list, slot.button),
        None => false,
    };
    PickerPanel { button: slot.button, title, ticked, offers_default }
}

fn holds_button(list: &Vec<ButtonId>, button: ButtonId) -> (r: bool)
    ensures
        r == list@.contains(button),
{
    let mut i: usize = 0;
    while i < list.len()
        invariant
            i <= list@.len(),
            forall|k: int| 0 <= k < i ==> list@[k] != button,
        decreases list@.len() - i,
    {
        if list[i] == button {
            assert(list@[i as int] == button);
            return true;
        }
        i += 1;
    }
    false
}

/// Clicking what is open closes it, and clicking it again opens it again; at
/// most one picker is open at a time.
pub proof fn law_a_second_click_closes_the_picker(
    open: Option<Target>,
    target: Target,
    other: Target,
)
    ensures
        toggled(Some(target), target) is None,
        toggled(toggled(Some(target), target), target) == Some(target),
        open != Some(target) ==> toggled(open, target) == Some(target),
        other != target ==> toggled(Some(other), target) == Some(target),
{
}

/// Rows of different crown controls never share an identity, wherever in the
/// list they stand.
pub proof fn law_every_control_row_has_its_own_id(a: ButtonId, b: ButtonId)
    requires
        a.is_crown_control(),
        control_number(a) == control_number(b),
    ensures
        a == b,
{
}

/// A catalog row is ticked exactly for an action that does something, and then
/// it is that action's own.
pub proof fn law_only_a_real_action_is_ticked(action: Action)
    ensures
        action == Action::NoAction ==> ticked(action) is None,
        action != Action::NoAction ==> ticked(action) == Some(action),
{
}

/// A change of bindings concerns the panel exactly when it is of the device on
/// show; a change of the devices or of the selection always does, and nothing
/// else ever.
pub proof fn law_what_concerns_the_panel(event: StateEvent, current: Option<Seq<char>>)
    ensures
        event is InventoryChanged || event is DeviceSelected ==> concerns(event, current),
        event is Other ==> !concerns(event, current),
        event matches StateEvent::BindingsChanged(key) ==> (concerns(event, current)
            <==> current is Some && current->0 == key@),
{
}

/// The action bound to a control is that of its first binding; one that is not
/// bound does nothing.
pub proof fn law_the_first_binding_of_a_control_counts(
    bindings: Seq<(ButtonId, Action)>,
    button: ButtonId,
    i: int,
)
    requires
        0 <= i <= bindings.len(),
        forall|j: int| 0 <= j < i ==> (#[trigger] bindings[j]).0 != button,
        i < bindings.len() ==> bindings[i].0 == button,
    ensures
        bound_action(bindings, button) == if i < bindings.len() {
            bindings[i].1
        } else {
            Action::NoAction
        },
    decreases i,
{
    if i > 0 {
        let rest = bindings.drop_first();
        assert(bindings[0].0 != button);
        assert forall|j: int| 0 <= j < i - 1 implies (#[trigger] rest[j]).0 != button by {
            assert(rest[j] == bindings[j + 1]);
        }
        law_the_first_binding_of_a_control_counts(rest, button, i - 1);
    }
}

/// A row shows its own control and its own action: by name where it does
/// something, and as off where it does not, and only then.
pub proof fn law_a_row_shows_the_action_in_force(idx: usize, slot: CrownSlot, selected: bool)
    ensures
        ({
            let row = row_of(idx, slot, selected);
            &&& row.idx == idx
            &&& row.selected == selected
            &&& row.button == slot.button
            &&& row.icon == slot.action
            &&& row.bound <==> slot.action != Action::NoAction
            &&& row.bound ==> row.caption == Caption::Named(slot.action)
            &&& !row.bound ==> row.caption == Caption::Off
        }),
{
}

/// A row's identity is its control's, whatever its action, place and state.
pub proof fn law_a_row_is_known_by_its_control(
    a: CrownSlot,
    b: CrownSlot,
    idx: usize,
    other: usize,
    selected: bool,
    open: bool,
)
    ensures
        a.button == b.button ==> row_of(idx, a, selected).id == row_of(other, b, open).id,
        a.button.is_crown_control() && b.button.is_crown_control() && a.button != b.button
            ==> row_of(idx, a, selected).id != row_of(other, b, open).id,
        a.button.is_crown_control() && !b.button.is_crown_control() ==> row_of(
            idx,
            a,
            selected,
        ).id != row_of(other, b, open).id,
{
}

/// A key is known where there is one.
pub proof fn law_a_key_is_itself(key: &str)
    ensures
        key_of(Some(key)) == Some(key@),
        key_of(None) is None,
{
}

} // verus!
