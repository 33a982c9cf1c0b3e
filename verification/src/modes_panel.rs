//! The crown-mode list, as the panel shows it: one card per mode, each with
//! the three controls a mode may own, and the dialog that names a mode.
//!
//! The tap is not among those controls: it is what cycles modes, so a mode that
//! could rebind it would strand the user inside itself.

use vstd::prelude::*;

use crate::app_state::{AppState, Edit};
use crate::binding::{Action, ButtonId};
use crate::crown_mode::{CrownMode, ModeView};
use crate::panel::{Caption, CrownPanel, Target};
use crate::text::trim;

verus! {

/// The controls a mode may own, in the order the cards list them.
pub const MODE_CONTROLS: [ButtonId; 3] = [
    ButtonId::CrownRotateUp,
    ButtonId::CrownRotateDown,
    ButtonId::CrownPress,
];

/// A control's own number among those a mode may own, or how many there are of
/// them for one that no mode may own.
pub open spec fn slot_of(control: ButtonId) -> int {
    match control {
        ButtonId::CrownRotateUp => 0,
        ButtonId::CrownRotateDown => 1,
        ButtonId::CrownPress => 2,
        _ => 3,
    }
}

/// A control's own number among [`MODE_CONTROLS`], or how many there are of
/// them for one that is not among them. It goes with the control and not with
/// its place in the list.
pub fn control_slot(control: ButtonId) -> (r: usize)
    ensures
        r == slot_of(control),
        r < MODE_CONTROLS@.len() <==> MODE_CONTROLS@.contains(control),
{
    assert(MODE_CONTROLS@[0] == ButtonId::CrownRotateUp);
    assert(MODE_CONTROLS@[1] == ButtonId::CrownRotateDown);
    assert(MODE_CONTROLS@[2] == ButtonId::CrownPress);
    match control {
        ButtonId::CrownRotateUp => 0,
        ButtonId::CrownRotateDown => 1,
        ButtonId::CrownPress => 2,
        _ => 3,
    }
}

/// One control's row inside a mode.
#[derive(Debug, Clone, Copy, PartialEq, Eq, Structural)]
pub struct ModeControlRow {
    /// What the row is identified by, across changes of the list.
    pub id: usize,
    /// Whether its picker is open.
    pub selected: bool,
    /// The control.
    pub control: ButtonId,
    /// The action whose icon shows.
    pub icon: Action,
    /// Whether the row is emphasised, as one that the mode assigns.
    pub assigned: bool,
    /// What it says of the action. One that is unset falls through: the mode
    /// leaves that control on its ordinary binding rather than disabling it.
    pub caption: Caption,
}

/// What a mode's row is identified by: the mode and the control, so that
/// another mode does not move the focus between rows.
pub open spec fn row_id(index: int, control: ButtonId) -> int {
    index * 3 + slot_of(control)
}

/// The row of one control inside the mode at `index`.
pub open spec fn mode_row_of(
    index: int,
    control: ButtonId,
    action: Option<Action>,
    selected: bool,
) -> ModeControlRow {
    ModeControlRow {
        id: row_id(index, control) as usize,
        selected,
        control,
        icon: match action {
            Some(action) => action,
            None => Action::NoAction,
        },
        assigned: action is Some,
        caption: match action {
            Some(action) => Caption::Named(action),
            None => Caption::FallsThrough,
        },
    }
}

/// One control inside the mode at `index`.
pub fn mode_control_row(
    index: usize,
    control: ButtonId,
    action: Option<&Action>,
    selected: bool,
) -> (r: ModeControlRow)
    requires
        row_id(index as int, control) <= usize::MAX,
    ensures
        r == mode_row_of(
            index as int,
            control,
            match action {
                Some(action) => Some(*action),
                None => None,
            },
            selected,
        ),
{
    let id: usize = index * 3 + control_slot(control);
    match action {
        Some(action) => ModeControlRow {
            id,
            selected,
            control,
            icon: *action,
            assigned: true,
            caption: Caption::Named(*action),
        },
        None => ModeControlRow {
            id,
            selected,
            control,
            icon: Action::NoAction,
            assigned: false,
            caption: Caption::FallsThrough,
        },
    }
}

/// One mode's card.
#[derive(Debug, PartialEq, Eq)]
pub struct ModeCard {
    /// The mode's position.
    pub index: usize,
    /// The mode's name.
    pub name: String,
    /// Whether it is marked as empty: a mode that assigns nothing is skipped by
    /// the cycle, so it must not look like a working position.
    pub empty: bool,
    /// Its controls' rows.
    pub rows: Vec<ModeControlRow>,
}

/// Whether `card` is the card of `mode` at `index`.
pub open spec fn is_card(card: ModeCard, index: int, mode: ModeView, panel: CrownPanel) -> bool {
    &&& card.index == index
    &&& card.name@ == mode.name
    &&& card.empty == mode.inert()
    &&& card.rows@.len() == MODE_CONTROLS@.len()
    &&& forall|k: int|
        0 <= k < card.rows@.len() ==> (#[trigger] card.rows@[k]) == mode_row_of(
            index,
            MODE_CONTROLS@[k],
            mode.assigns(MODE_CONTROLS@[k]),
            panel.selected == Some(Target::ModeControl(index as usize, MODE_CONTROLS@[k])),
        )
}

/// One mode: its name, whether it is empty, and its three controls.
pub fn mode_card(index: usize, mode: &CrownMode, panel: &CrownPanel) -> (r: ModeCard)
    requires
        index * 3 + 3 <= usize::MAX,
    ensures
        is_card(r, index as int, mode@, *panel),
{
    let controls: [ButtonId; 3] = MODE_CONTROLS;
    let mut rows: Vec<ModeControlRow> = Vec::new();
    let mut i: usize = 0;
    while i < 3
        invariant
            i <= 3,
            index * 3 + 3 <= usize::MAX,
            controls == MODE_CONTROLS,
            rows@.len() == i,
            forall|k: int|
                0 <= k < i ==> (#[trigger] rows@[k]) == mode_row_of(
                    index as int,
                    MODE_CONTROLS@[k],
                    mode@.assigns(MODE_CONTROLS@[k]),
                    panel.selected == Some(Target::ModeControl(index, MODE_CONTROLS@[k])),
                ),
        decreases 3 - i,
    {
        let control: ButtonId = controls[i];
        rows.push(
            mode_control_row(
                index,
                control,
                mode.action_for(control),
                panel.selected == Some(Target::ModeControl(index, control)),
            ),
        );
        i += 1;
    }
    ModeCard { index, name: mode.name.clone(), empty: mode.is_inert(), rows }
}

impl ModeCard {
    /// The dialog that the card's rename button opens.
    pub fn rename_dialog(&self) -> (r: NameDialog)
        ensures
            r matches NameDialog::Rename { index, current } && index == self.index && current@
                == self.name@,
    {
        NameDialog::Rename { index: self.index, current: self.name.clone() }
    }
}

/// Whether the heading warns: there are modes, and no control reaches them.
pub open spec fn unreachable_modes(count: nat, cycles_modes: bool) -> bool {
    count > 0 && !cycles_modes
}

/// The words under the heading.
pub open spec fn heading_words(count: nat, cycles_modes: bool) -> Seq<char> {
    if unreachable_modes(count, cycles_modes) {
        "Bind a control to Cycle Crown Mode to reach these."@
    } else {
        "Cycled by whichever control runs Cycle Crown Mode."@
    }
}

/// The modes section.
#[derive(Debug, PartialEq, Eq)]
pub struct ModesSection {
    /// Whether the heading warns of modes that nobody can reach.
    pub unreachable: bool,
    /// The words under the heading.
    pub caption: &'static str,
    /// One card per mode.
    pub cards: Vec<ModeCard>,
    /// Whether to say that there are no modes yet.
    pub says_none: bool,
    /// Whether to offer the default profile's modes.
    pub offers_default: bool,
}

/// The words under the heading: a warning where no control cycles the modes,
/// for the fix is a binding one panel above.
pub fn heading(modes: &Vec<CrownMode>, cycles_modes: bool) -> (r: (bool, &'static str))
    ensures
        r.0 == unreachable_modes(modes@.len(), cycles_modes),
        r.1@ == heading_words(modes@.len(), cycles_modes),
{
    if modes.len() > 0 && !cycles_modes {
        (true, "Bind a control to Cycle Crown Mode to reach these.")
    } else {
        (false, "Cycled by whichever control runs Cycle Crown Mode.")
    }
}

/// The whole modes section: its heading, one card per mode, and what stands
/// below them.
pub fn modes_section(
    modes: &Vec<CrownMode>,
    cycles_modes: bool,
    overridden: bool,
    panel: &CrownPanel,
) -> (r: ModesSection)
    requires
        modes@.len() * 3 <= usize::MAX,
    ensures
        r.unreachable == unreachable_modes(modes@.len(), cycles_modes),
        r.caption@ == heading_words(modes@.len(), cycles_modes),
        r.cards@.len() == modes@.len(),
        forall|i: int|
            0 <= i < modes@.len() ==> is_card(#[trigger] r.cards@[i], i, modes@[i]@, *panel),
        r.says_none == (modes@.len() == 0),
        r.offers_default == overridden,
{
    let (unreachable, caption) = heading(modes, cycles_modes);
    let mut cards: Vec<ModeCard> = Vec::new();
    let mut i: usize = 0;
    while i < modes.len()
        invariant
            i <= modes@.len(),
            modes@.len() * 3 <= usize::MAX,
            cards@.len() == i,
            forall|k: int|
                0 <= k < i ==> is_card(#[trigger] cards@[k], k, modes@[k]@, *panel),
        decreases modes@.len() - i,
    {
        cards.push(mode_card(i, &modes[i], panel));
        i += 1;
    }
    ModesSection {
        unreachable,
        caption,
        cards,
        says_none: modes.len() == 0,
        offers_default: overridden,
    }
}

/// The dialog that names a mode.
#[derive(Debug, PartialEq, Eq)]
pub enum NameDialog {
    /// Append a new mode under the entered name.
    Add,
    /// Rename the mode at this position, opening on its current name.
    Rename {
        /// The mode's position.
        index: usize,
        /// Its current name.
        current: String,
    },
}

impl NameDialog {
    /// The dialog's title.
    pub open spec fn title_words(self) -> Seq<char> {
        match self {
            NameDialog::Add => "Add mode"@,
            NameDialog::Rename { .. } => "Rename mode"@,
        }
    }

    /// The dialog's title.
    pub fn title(&self) -> (r: &'static str)
        ensures
            r@ == self.title_words(),
    {
        match self {
            NameDialog::Add => "Add mode",
            NameDialog::Rename { .. } => "Rename mode",
        }
    }

    /// The name the dialog opens on.
    pub fn initial(&self) -> (r: String)
        ensures
            r@ == match *self {
                NameDialog::Add => Seq::<char>::empty(),
                NameDialog::Rename { index, current } => current@,
            },
    {
        match self {
            NameDialog::Add => String::new(),
            NameDialog::Rename { current, .. } => current.clone(),
        }
    }

    /// Do what the dialog is for, under the entered name. A blank name is
    /// refused, since the name is all the mode indicator can show.
    pub fn commit(&self, state: &mut AppState, name: String) -> (r: Option<Edit>)
        ensures
            crate::text::trimmed(name@).len() == 0 ==> r is None && final(state)@ == old(state)@,
            crate::text::trimmed(name@).len() > 0 ==> match *self {
                NameDialog::Add => {
                    &&& final(state)@ == old(state)@.committed(
                        old(state)@.current().push(crate::app_state::unassigned(name@)),
                    )
                    &&& r == if old(state)@.key is Some {
                        Some(Edit::Mode)
                    } else {
                        None
                    }
                },
                NameDialog::Rename { index, .. } => if old(state)@.renames(index as int, name@) {
                    &&& final(state)@ == old(state)@.committed(
                        old(state)@.current().update(
                            index as int,
                            ModeView {
                                name: crate::text::trimmed(name@),
                                ..old(state)@.current()[index as int]
                            },
                        ),
                    )
                    &&& r == Some(Edit::ModeName)
                } else {
                    r is None && final(state)@ == old(state)@
                },
            },
    {
        if trim(name.as_str()).is_empty() {
            return None;
        }
        match self {
            NameDialog::Add => state.add_crown_mode(name),
            NameDialog::Rename { index, .. } => state.rename_crown_mode(*index, name.as_str()),
        }
    }
}

/// No two rows share an identity, whatever modes and controls they are of.
pub proof fn law_every_mode_row_has_its_own_id(
    index: int,
    control: ButtonId,
    other_index: int,
    other_control: ButtonId,
)
    requires
        0 <= index,
        0 <= other_index,
        MODE_CONTROLS@.contains(control),
        MODE_CONTROLS@.contains(other_control),
        row_id(index, control) == row_id(other_index, other_control),
    ensures
        index == other_index,
        control == other_control,
{
    assert(MODE_CONTROLS@[0] == ButtonId::CrownRotateUp);
    assert(MODE_CONTROLS@[1] == ButtonId::CrownRotateDown);
    assert(MODE_CONTROLS@[2] == ButtonId::CrownPress);
}

/// A mode may own exactly the controls the cards list, which are the crown's
/// but for the tap.
pub proof fn law_the_cards_list_what_a_mode_may_own(control: ButtonId)
    ensures
        MODE_CONTROLS@.contains(control) <==> crate::app_state::ownable(control),
        MODE_CONTROLS@.contains(control) <==> control.is_crown_control() && control
            != ButtonId::CrownTap,
{
    assert(MODE_CONTROLS@[0] == ButtonId::CrownRotateUp);
    assert(MODE_CONTROLS@[1] == ButtonId::CrownRotateDown);
    assert(MODE_CONTROLS@[2] == ButtonId::CrownPress);
}

/// A mode's row shows its own control and what the mode assigns to it: that
/// action by name, or that it falls through, and only then. An action that does
/// nothing is still the mode's own.
pub proof fn law_a_mode_row_shows_what_is_assigned(
    index: int,
    control: ButtonId,
    action: Option<Action>,
    selected: bool,
)
    ensures
        ({
            let row = mode_row_of(index, control, action, selected);
            &&& row.control == control
            &&& row.selected == selected
            &&& row.assigned <==> action is Some
            &&& action matches Some(named) ==> row.icon == named && row.caption == Caption::Named(
                named,
            )
            &&& action is None ==> row.icon == Action::NoAction && row.caption
                == Caption::FallsThrough
        }),
{
}

/// Rows are numbered mode by mode, three to a mode, in the order the cards list
/// their controls.
pub proof fn law_rows_are_numbered_mode_by_mode(index: int, k: int)
    requires
        0 <= index,
        0 <= k < 3,
    ensures
        row_id(index, MODE_CONTROLS@[k]) == index * 3 + k,
        MODE_CONTROLS@[0] == ButtonId::CrownRotateUp,
        MODE_CONTROLS@[1] == ButtonId::CrownRotateDown,
        MODE_CONTROLS@[2] == ButtonId::CrownPress,
{
    assert(MODE_CONTROLS@[0] == ButtonId::CrownRotateUp);
    assert(MODE_CONTROLS@[1] == ButtonId::CrownRotateDown);
    assert(MODE_CONTROLS@[2] == ButtonId::CrownPress);
}

/// The heading warns exactly when there are modes that no control reaches, and
/// says then how to reach them.
pub proof fn law_the_heading_warns_of_unreachable_modes(count: nat, cycles_modes: bool)
    ensures
        unreachable_modes(count, cycles_modes) <==> count > 0 && !cycles_modes,
        count > 0 && !cycles_modes ==> heading_words(count, cycles_modes)
            == "Bind a control to Cycle Crown Mode to reach these."@,
        count == 0 || cycles_modes ==> heading_words(count, cycles_modes)
            == "Cycled by whichever control runs Cycle Crown Mode."@,
{
}

/// A card is marked as empty exactly when each of its rows falls through.
pub proof fn law_an_empty_card_has_nothing_assigned(
    card: ModeCard,
    index: int,
    mode: ModeView,
    panel: CrownPanel,
)
    requires
        is_card(card, index, mode, panel),
    ensures
        card.rows@.len() == 3,
        card.name@ == mode.name,
        card.index == index,
        card.empty <==> forall|k: int|
            0 <= k < 3 ==> (#[trigger] card.rows@[k]).caption == Caption::FallsThrough,
        card.rows@[0].control == ButtonId::CrownRotateUp,
        card.rows@[1].control == ButtonId::CrownRotateDown,
        card.rows@[2].control == ButtonId::CrownPress,
        card.rows@[0].assigned == (mode.rotate_up is Some),
        card.rows@[1].assigned == (mode.rotate_down is Some),
        card.rows@[2].assigned == (mode.press is Some),
{
    assert(MODE_CONTROLS@[0] == ButtonId::CrownRotateUp);
    assert(MODE_CONTROLS@[1] == ButtonId::CrownRotateDown);
    assert(MODE_CONTROLS@[2] == ButtonId::CrownPress);
    assert(card.rows@[0].caption == Caption::FallsThrough <==> mode.rotate_up is None);
    assert(card.rows@[1].caption == Caption::FallsThrough <==> mode.rotate_down is None);
    assert(card.rows@[2].caption == Caption::FallsThrough <==> mode.press is None);
}

/// The dialog says which of its two jobs it does.
pub proof fn law_the_dialog_says_what_it_is_for(dialog: NameDialog)
    ensures
        dialog is Add ==> dialog.title_words() == "Add mode"@,
        dialog is Rename ==> dialog.title_words() == "Rename mode"@,
{
}

} // verus!
