//! The controls a device offers, the actions they can run, and the bindings
//! between the two.

use vstd::prelude::*;

verus! {

/// An action a control can run.
#[derive(Debug, Clone, Copy, PartialEq, Eq, Structural)]
pub enum Action {
    /// Do nothing.
    NoAction,
    /// One step louder.
    VolumeUp,
    /// One step quieter.
    VolumeDown,
    /// Play or pause.
    PlayPause,
    /// Scroll up by one notch.
    ScrollUp,
    /// Move to the next tab.
    NextTab,
    /// Advance the crown to its next mode.
    CycleCrownMode,
    /// Any other action of the catalog, by its number there.
    Other(u32),
}

/// A bindable control.
#[derive(Debug, Clone, Copy, PartialEq, Eq, Structural)]
pub enum ButtonId {
    /// The mouse wheel's click.
    MiddleClick,
    /// The search key.
    KeySearch,
    /// The dictation key.
    KeyDictation,
    /// The emoji key.
    KeyEmoji,
    /// The screen-capture key.
    KeyScreenCapture,
    /// The microphone-mute key.
    KeyMicMute,
    /// The play/pause key.
    KeyPlayPause,
    /// The mute key.
    KeyMute,
    /// The volume-down key.
    KeyVolumeDown,
    /// The volume-up key.
    KeyVolumeUp,
    /// One detent of upward crown rotation.
    CrownRotateUp,
    /// One detent of downward crown rotation.
    CrownRotateDown,
    /// A press of the crown.
    CrownPress,
    /// A touch tap on the crown.
    CrownTap,
}

impl ButtonId {
    /// The crown's four bindable controls: the two rotation directions, the press,
    /// and the touch tap.
    pub const CROWN_CONTROLS: [ButtonId; 4] = [
        ButtonId::CrownRotateUp,
        ButtonId::CrownRotateDown,
        ButtonId::CrownPress,
        ButtonId::CrownTap,
    ];

    /// Whether this is one of the crown's four controls.
    pub open spec fn is_crown_control(self) -> bool {
        ||| self == ButtonId::CrownRotateUp
        ||| self == ButtonId::CrownRotateDown
        ||| self == ButtonId::CrownPress
        ||| self == ButtonId::CrownTap
    }

    /// The control's name as a panel shows it.
    pub open spec fn name(self) -> Seq<char> {
        match self {
            ButtonId::MiddleClick => "Middle Click"@,
            ButtonId::KeySearch => "Search"@,
            ButtonId::KeyDictation => "Dictation"@,
            ButtonId::KeyEmoji => "Emoji"@,
            ButtonId::KeyScreenCapture => "Screen Capture"@,
            ButtonId::KeyMicMute => "Mute Microphone"@,
            ButtonId::KeyPlayPause => "Play/Pause"@,
            ButtonId::KeyMute => "Mute"@,
            ButtonId::KeyVolumeDown => "Volume Down"@,
            ButtonId::KeyVolumeUp => "Volume Up"@,
            ButtonId::CrownRotateUp => "Crown Rotate Up"@,
            ButtonId::CrownRotateDown => "Crown Rotate Down"@,
            ButtonId::CrownPress => "Crown Press"@,
            ButtonId::CrownTap => "Crown Tap"@,
        }
    }

    /// The control's name as a panel shows it. Never empty.
    pub fn label(self) -> (r: &'static str)
        ensures
            r@ == self.name(),
            r@.len() > 0,
    {
        proof {
            reveal_strlit("Middle Click");
            reveal_strlit("Search");
            reveal_strlit("Dictation");
            reveal_strlit("Emoji");
            reveal_strlit("Screen Capture");
            reveal_strlit("Mute Microphone");
            reveal_strlit("Play/Pause");
            reveal_strlit("Mute");
            reveal_strlit("Volume Down");
            reveal_strlit("Volume Up");
            reveal_strlit("Crown Rotate Up");
            reveal_strlit("Crown Rotate Down");
            reveal_strlit("Crown Press");
            reveal_strlit("Crown Tap");
        }
        match self {
            ButtonId::MiddleClick => "Middle Click",
            ButtonId::KeySearch => "Search",
            ButtonId::KeyDictation => "Dictation",
            ButtonId::KeyEmoji => "Emoji",
            ButtonId::KeyScreenCapture => "Screen Capture",
            ButtonId::KeyMicMute => "Mute Microphone",
            ButtonId::KeyPlayPause => "Play/Pause",
            ButtonId::KeyMute => "Mute",
            ButtonId::KeyVolumeDown => "Volume Down",
            ButtonId::KeyVolumeUp => "Volume Up",
            ButtonId::CrownRotateUp => "Crown Rotate Up",
            ButtonId::CrownRotateDown => "Crown Rotate Down",
            ButtonId::CrownPress => "Crown Press",
            ButtonId::CrownTap => "Crown Tap",
        }
    }
}

/// A direction of a gesture button, or its click.
#[derive(Debug, Clone, Copy, PartialEq, Eq, Structural)]
pub enum GestureDirection {
    /// Up.
    Up,
    /// Down.
    Down,
    /// Left.
    Left,
    /// Right.
    Right,
    /// Pressed and released without moving.
    Click,
}

/// The actions of a gesture button, one optional action per direction.
#[derive(Debug, Clone, Copy, PartialEq, Eq, Structural)]
pub struct GestureMap {
    /// Action for [`GestureDirection::Up`].
    pub up: Option<Action>,
    /// Action for [`GestureDirection::Down`].
    pub down: Option<Action>,
    /// Action for [`GestureDirection::Left`].
    pub left: Option<Action>,
    /// Action for [`GestureDirection::Right`].
    pub right: Option<Action>,
    /// Action for [`GestureDirection::Click`].
    pub click: Option<Action>,
}

impl GestureMap {
    /// The action set for `direction`.
    pub open spec fn at(self, direction: GestureDirection) -> Option<Action> {
        match direction {
            GestureDirection::Up => self.up,
            GestureDirection::Down => self.down,
            GestureDirection::Left => self.left,
            GestureDirection::Right => self.right,
            GestureDirection::Click => self.click,
        }
    }

    /// The action set for `direction`, if any.
    pub fn get(&self, direction: GestureDirection) -> (r: Option<Action>)
        ensures
            r == self.at(direction),
    {
        match direction {
            GestureDirection::Up => self.up,
            GestureDirection::Down => self.down,
            GestureDirection::Left => self.left,
            GestureDirection::Right => self.right,
            GestureDirection::Click => self.click,
        }
    }
}

/// What a control does.
#[derive(Debug, Clone, Copy, PartialEq, Eq, Structural)]
pub enum Binding {
    /// One action, on the press.
    Single(Action),
    /// One action for a short press and another once the press is long.
    LongPress {
        /// Action for a short press.
        short: Action,
        /// Action for a long press.
        long: Action,
    },
    /// One action per direction.
    Gesture(GestureMap),
}

/// The bindings of one device: at most one per control.
#[derive(Debug)]
pub struct BindingMap {
    entries: Vec<(ButtonId, Binding)>,
}

impl BindingMap {
    /// The binding of each bound control.
    pub closed spec fn view(&self) -> Map<ButtonId, Binding> {
        Map::new(
            |button: ButtonId| exists|i: int| self.holds(i, button),
            |button: ButtonId| self.entries@[choose|i: int| self.holds(i, button)].1,
        )
    }

    spec fn holds(&self, i: int, button: ButtonId) -> bool {
        0 <= i < self.entries@.len() && self.entries@[i].0 == button
    }

    #[verifier::type_invariant]
    spec fn one_entry_per_control(&self) -> bool {
        forall|i: int, j: int|
            0 <= i < j < self.entries@.len() ==> #[trigger] self.entries@[i].0
                != #[trigger] self.entries@[j].0
    }

    /// No bindings.
    pub fn new() -> (r: Self)
        ensures
            r@ == Map::<ButtonId, Binding>::empty(),
    {
        let r = BindingMap { entries: Vec::new() };
        assert(r@ =~= Map::<ButtonId, Binding>::empty());
        r
    }

    fn find(&self, button: ButtonId) -> (r: Option<usize>)
        ensures
            match r {
                Some(i) => self.holds(i as int, button),
                None => forall|i: int| !self.holds(i, button),
            },
    {
        let mut i: usize = 0;
        while i < self.entries.len()
            invariant
                i <= self.entries@.len(),
                forall|k: int| 0 <= k < i ==> self.entries@[k].0 != button,
            decreases self.entries@.len() - i,
        {
            if self.entries[i].0 == button {
                return Some(i);
            }
            i += 1;
        }
        None
    }

    /// The binding of `button`, if it has one.
    pub fn get(&self, button: ButtonId) -> (r: Option<Binding>)
        ensures
            r == (if self@.contains_key(button) { Some(self@[button]) } else { None }),
    {
        proof {
            use_type_invariant(self);
        }
        match self.find(button) {
            Some(i) => {
                proof {
                    let k = choose|k: int| self.holds(k, button);
                    assert(self.holds(k, button));
                    assert(k == i);
                }
                Some(self.entries[i].1)
            },
            None => None,
        }
    }

    /// Bind `button`, replacing whatever it was bound to.
    pub fn insert(&mut self, button: ButtonId, binding: Binding)
        ensures
            final(self)@ == old(self)@.insert(button, binding),
    {
        proof {
            use_type_invariant(&*self);
        }
        let ghost before = *self;
        let at = self.find(button);
        let mut entries: Vec<(ButtonId, Binding)> = Vec::new();
        std::mem::swap(&mut entries, &mut self.entries);
        match at {
            Some(i) => {
                entries.set(i, (button, binding));
            },
            None => {
                assert forall|k: int| 0 <= k < entries@.len() implies entries@[k].0
                    != button by {
                    assert(!before.holds(k, button));
                }
                entries.push((button, binding));
            },
        }
        self.entries = entries;
        proof {
            use_type_invariant(&*self);
            let after = *self;
            assert forall|b: ButtonId| after@.contains_key(b) == before@.insert(
                button,
                binding,
            ).contains_key(b) by {
                if b == button {
                    match at {
                        Some(i) => assert(after.holds(i as int, b)),
                        None => assert(after.holds(before.entries@.len() as int, b)),
                    }
                } else if before@.contains_key(b) {
                    let k = choose|k: int| before.holds(k, b);
                    assert(after.holds(k, b));
                } else if after@.contains_key(b) {
                    let k = choose|k: int| after.holds(k, b);
                    assert(before.holds(k, b));
                }
            }
            assert forall|b: ButtonId| after@.contains_key(b) implies after@[b] == before@.insert(
                button,
                binding,
            )[b] by {
                let k = choose|k: int| after.holds(k, b);
                assert(after.holds(k, b));
                if b == button {
                    let m = match at {
                        Some(i) => i as int,
                        None => before.entries@.len() as int,
                    };
                    assert(after.holds(m, b));
                    assert(m == k);
                } else {
                    assert(before.holds(k, b));
                    let m = choose|m: int| before.holds(m, b);
                    assert(before.holds(m, b));
                    assert(m == k);
                }
            }
            assert(after@ =~= before@.insert(button, binding));
        }
    }
}

impl Clone for BindingMap {
    fn clone(&self) -> (r: Self)
        ensures
            r@ == self@,
    {
        proof {
            use_type_invariant(self);
        }
        let mut entries: Vec<(ButtonId, Binding)> = Vec::new();
        let mut i: usize = 0;
        while i < self.entries.len()
            invariant
                i <= self.entries@.len(),
                entries@ =~= self.entries@.take(i as int),
            decreases self.entries@.len() - i,
        {
            entries.push(self.entries[i]);
            i += 1;
        }
        assert(entries@ =~= self.entries@);
        let r = BindingMap { entries };
        assert forall|b: ButtonId, k: int| r.holds(k, b) == self.holds(k, b) by {}
        assert(r@ =~= self@);
        r
    }
}

/// A gesture map answers for each direction with that direction's own action.
pub proof fn law_each_direction_has_its_own_action(map: GestureMap)
    ensures
        map.at(GestureDirection::Up) == map.up,
        map.at(GestureDirection::Down) == map.down,
        map.at(GestureDirection::Left) == map.left,
        map.at(GestureDirection::Right) == map.right,
        map.at(GestureDirection::Click) == map.click,
{
}

/// The crown has four controls, each listed once, and no key is one of them.
pub proof fn law_the_crown_has_four_controls(button: ButtonId)
    ensures
        ButtonId::CROWN_CONTROLS@.contains(button) <==> button.is_crown_control(),
        button.is_crown_control() <==> button is CrownRotateUp || button is CrownRotateDown
            || button is CrownPress || button is CrownTap,
        forall|i: int, j: int|
            0 <= i < j < ButtonId::CROWN_CONTROLS@.len() ==> #[trigger] ButtonId::CROWN_CONTROLS@[i]
                != #[trigger] ButtonId::CROWN_CONTROLS@[j],
        ButtonId::CROWN_CONTROLS@.len() == 4,
{
    let t = ButtonId::CROWN_CONTROLS@;
    assert(t[0] == ButtonId::CrownRotateUp);
    assert(t[1] == ButtonId::CrownRotateDown);
    assert(t[2] == ButtonId::CrownPress);
    assert(t[3] == ButtonId::CrownTap);
}

/// No two controls go by one name, and the crown's go by what they are.
pub proof fn law_every_control_has_its_own_name(a: ButtonId, b: ButtonId)
    ensures
        a.name() == b.name() ==> a == b,
        ButtonId::CrownRotateUp.name() == "Crown Rotate Up"@,
        ButtonId::CrownRotateDown.name() == "Crown Rotate Down"@,
        ButtonId::CrownPress.name() == "Crown Press"@,
        ButtonId::CrownTap.name() == "Crown Tap"@,
{
    reveal_strlit("Middle Click");
    reveal_strlit("Search");
    reveal_strlit("Dictation");
    reveal_strlit("Emoji");
    reveal_strlit("Screen Capture");
    reveal_strlit("Mute Microphone");
    reveal_strlit("Play/Pause");
    reveal_strlit("Mute");
    reveal_strlit("Volume Down");
    reveal_strlit("Volume Up");
    reveal_strlit("Crown Rotate Up");
    reveal_strlit("Crown Rotate Down");
    reveal_strlit("Crown Press");
    reveal_strlit("Crown Tap");
    assert(ButtonId::MiddleClick.name().len() == 12 && ButtonId::MiddleClick.name()[0] == 'M');
    assert(ButtonId::KeySearch.name().len() == 6 && ButtonId::KeySearch.name()[0] == 'S');
    assert(ButtonId::KeyDictation.name().len() == 9 && ButtonId::KeyDictation.name()[0] == 'D');
    assert(ButtonId::KeyEmoji.name().len() == 5 && ButtonId::KeyEmoji.name()[0] == 'E');
    assert(ButtonId::KeyScreenCapture.name().len() == 14 && ButtonId::KeyScreenCapture.name()[0] == 'S');
    assert(ButtonId::KeyMicMute.name().len() == 15 && ButtonId::KeyMicMute.name()[0] == 'M');
    assert(ButtonId::KeyPlayPause.name().len() == 10 && ButtonId::KeyPlayPause.name()[0] == 'P');
    assert(ButtonId::KeyMute.name().len() == 4 && ButtonId::KeyMute.name()[0] == 'M');
    assert(ButtonId::KeyVolumeDown.name().len() == 11 && ButtonId::KeyVolumeDown.name()[0] == 'V');
    assert(ButtonId::KeyVolumeUp.name().len() == 9 && ButtonId::KeyVolumeUp.name()[0] == 'V');
    assert(ButtonId::CrownRotateUp.name().len() == 15 && ButtonId::CrownRotateUp.name()[0] == 'C');
    assert(ButtonId::CrownRotateDown.name().len() == 17 && ButtonId::CrownRotateDown.name()[0] == 'C');
    assert(ButtonId::CrownPress.name().len() == 11 && ButtonId::CrownPress.name()[0] == 'C');
    assert(ButtonId::CrownTap.name().len() == 9 && ButtonId::CrownTap.name()[0] == 'C');
}

} // verus!
