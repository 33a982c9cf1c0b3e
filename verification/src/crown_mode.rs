//! Crown modes: an ordered list of what the dial does, cycled by a tap, and
//! which of them each device is currently in.
//!
//! A crown has one physical rotation axis but many plausible jobs: volume,
//! scroll, zoom, tab switching. A mode bundles the actions for one of those
//! jobs; [`crate::binding::Action::CycleCrownMode`] advances to the next. The
//! list is configuration. The active position is runtime state and is not
//! persisted: every device starts on its first mode.

use vstd::prelude::*;

use crate::binding::{Action, ButtonId};
use crate::string_map::StringMap;

verus! {

/// One entry in a device's crown-mode list.
///
/// Every control is optional and an unset one falls through to that control's
/// ordinary binding, so a mode can redefine rotation while leaving the press
/// alone. The tap is deliberately absent: it is what cycles modes, and a mode
/// that could rebind it could strand the user inside itself.
#[derive(Debug, PartialEq, Eq)]
pub struct CrownMode {
    /// Name shown by the mode indicator and the panel. Free text.
    pub name: String,
    /// Action for one detent of upward rotation.
    pub rotate_up: Option<Action>,
    /// Action for one detent of downward rotation.
    pub rotate_down: Option<Action>,
    /// Action for a press of the crown.
    pub press: Option<Action>,
}

/// What a crown mode is: its name and the actions it assigns.
pub struct ModeView {
    /// The name.
    pub name: Seq<char>,
    /// Action for one detent of upward rotation.
    pub rotate_up: Option<Action>,
    /// Action for one detent of downward rotation.
    pub rotate_down: Option<Action>,
    /// Action for a press of the crown.
    pub press: Option<Action>,
}

impl ModeView {
    /// The action this mode assigns to `control`. A control no mode can own,
    /// the tap above all, is assigned nothing.
    pub open spec fn assigns(self, control: ButtonId) -> Option<Action> {
        match control {
            ButtonId::CrownRotateUp => self.rotate_up,
            ButtonId::CrownRotateDown => self.rotate_down,
            ButtonId::CrownPress => self.press,
            _ => None,
        }
    }

    /// Whether this mode assigns nothing at all.
    pub open spec fn inert(self) -> bool {
        self.rotate_up is None && self.rotate_down is None && self.press is None
    }
}

impl View for CrownMode {
    type V = ModeView;

    open spec fn view(&self) -> ModeView {
        ModeView {
            name: self.name@,
            rotate_up: self.rotate_up,
            rotate_down: self.rotate_down,
            press: self.press,
        }
    }
}

impl Clone for CrownMode {
    fn clone(&self) -> (r: Self)
        ensures
            r == *self,
    {
        CrownMode {
            name: self.name.clone(),
            rotate_up: self.rotate_up,
            rotate_down: self.rotate_down,
            press: self.press,
        }
    }
}

impl Default for CrownMode {
    fn default() -> (r: Self)
        ensures
            r@ == (ModeView {
                name: Seq::<char>::empty(),
                rotate_up: None,
                rotate_down: None,
                press: None,
            }),
    {
        CrownMode { name: String::new(), rotate_up: None, rotate_down: None, press: None }
    }
}

impl CrownMode {
    /// The action this mode assigns to `control`, or `None` when the mode
    /// leaves it to the control's ordinary binding.
    ///
    /// `None` for any control a mode cannot own, the tap above all, so cycling
    /// always works no matter which mode is active.
    pub fn action_for(&self, control: ButtonId) -> (r: Option<&Action>)
        ensures
            match r {
                Some(action) => self@.assigns(control) == Some(*action),
                None => self@.assigns(control) is None,
            },
    {
        match control {
            ButtonId::CrownRotateUp => self.rotate_up.as_ref(),
            ButtonId::CrownRotateDown => self.rotate_down.as_ref(),
            ButtonId::CrownPress => self.press.as_ref(),
            _ => None,
        }
    }

    /// Whether this mode assigns nothing at all. An empty mode is legal but
    /// inert: every control falls through, so callers can skip it rather than
    /// cycle into a mode that does nothing.
    pub fn is_inert(&self) -> (r: bool)
        ensures
            r == self@.inert(),
    {
        self.rotate_up.is_none() && self.rotate_down.is_none() && self.press.is_none()
    }

    fn same(&self, other: &CrownMode) -> (r: bool)
        ensures
            r == (self@ == other@),
    {
        self.name == other.name && self.rotate_up == other.rotate_up && self.rotate_down
            == other.rotate_down && self.press == other.press
    }
}

/// What a list of modes is.
pub open spec fn mode_views(modes: Seq<CrownMode>) -> Seq<ModeView> {
    modes.map_values(|mode: CrownMode| mode@)
}

/// Whether two lists hold the same modes in the same order.
pub fn same_modes(a: &Vec<CrownMode>, b: &Vec<CrownMode>) -> (r: bool)
    ensures
        r == (mode_views(a@) == mode_views(b@)),
{
    if a.len() != b.len() {
        assert(mode_views(a@).len() != mode_views(b@).len());
        return false;
    }
    let mut i: usize = 0;
    while i < a.len()
        invariant
            a@.len() == b@.len(),
            i <= a@.len(),
            forall|k: int| 0 <= k < i ==> (#[trigger] a@[k])@ == b@[k]@,
        decreases a@.len() - i,
    {
        if !a[i].same(&b[i]) {
            assert(mode_views(a@)[i as int] != mode_views(b@)[i as int]);
            return false;
        }
        i += 1;
    }
    assert(mode_views(a@) =~= mode_views(b@));
    true
}

/// A copy of a list of modes.
pub fn copy_modes(modes: &Vec<CrownMode>) -> (r: Vec<CrownMode>)
    ensures
        r@ == modes@,
{
    let r = modes.clone();
    assert forall|i: int| 0 <= i < modes@.len() implies modes@[i] == r@[i] by {
        assert(cloned(modes@[i], r@[i]));
    }
    assert(r@ =~= modes@);
    r
}

/// What an on-screen indicator needs to draw the mode list: every mode's name
/// in cycle order, and which one is active.
#[derive(Debug, Clone, PartialEq, Eq)]
pub struct CrownModeIndicator {
    /// Mode names in cycle order.
    pub names: Vec<String>,
    /// Index into [`Self::names`] of the active mode.
    pub selected: usize,
}

/// One device's mode list and where in it the dial sits.
pub struct Position {
    /// The modes, in cycle order.
    pub modes: Seq<ModeView>,
    /// The active mode's position.
    pub index: int,
}

impl Position {
    /// Whether no mode in the list assigns anything.
    pub open spec fn all_inert(self) -> bool {
        forall|i: int| 0 <= i < self.modes.len() ==> (#[trigger] self.modes[i]).inert()
    }

    /// The mode `k` places on, wrapping last to first.
    pub open spec fn ahead(self, k: int) -> int {
        (self.index + k) % (self.modes.len() as int)
    }

    /// Whether the mode `k` places on is the next usable one: within one lap,
    /// it assigns something and every mode before it is inert.
    pub open spec fn next_usable(self, k: int) -> bool {
        &&& 1 <= k <= self.modes.len()
        &&& !self.modes[self.ahead(k)].inert()
        &&& forall|j: int| 1 <= j < k ==> self.modes[#[trigger] self.ahead(j)].inert()
    }

    /// Where one cycle moves the dial: to the next usable mode, or nowhere
    /// when no mode is usable.
    pub open spec fn cycled(self) -> Position {
        if self.all_inert() {
            self
        } else {
            Position { index: self.ahead(choose|k: int| self.next_usable(k)), ..self }
        }
    }

    /// The active mode, if the list is non-empty.
    pub open spec fn active(self) -> Option<ModeView> {
        if self.modes.len() == 0 {
            None
        } else {
            Some(self.modes[self.index])
        }
    }

    /// The action of `control` in the active mode.
    pub open spec fn assigns(self, control: ButtonId) -> Option<Action> {
        match self.active() {
            Some(mode) => mode.assigns(control),
            None => None,
        }
    }

    /// The dial sits on a mode of its list, or at the start of an empty one.
    pub open spec fn well_formed(self) -> bool {
        if self.modes.len() == 0 {
            self.index == 0
        } else {
            0 <= self.index < self.modes.len()
        }
    }
}

/// One device's mode list plus where in it the dial currently sits.
#[derive(Debug)]
pub struct CrownModeState {
    modes: Vec<CrownMode>,
    index: usize,
}

impl View for CrownModeState {
    type V = Position;

    closed spec fn view(&self) -> Position {
        Position { modes: mode_views(self.modes@), index: self.index as int }
    }
}

impl Default for CrownModeState {
    fn default() -> (r: Self)
        ensures
            r@ == (Position { modes: Seq::<ModeView>::empty(), index: 0 }),
    {
        let r = CrownModeState::new(Vec::new());
        assert(mode_views(Seq::<CrownMode>::empty()) =~= Seq::<ModeView>::empty());
        r
    }
}

impl Clone for CrownModeState {
    fn clone(&self) -> (r: Self)
        ensures
            r@ == self@,
    {
        proof {
            use_type_invariant(self);
        }
        CrownModeState { modes: copy_modes(&self.modes), index: self.index }
    }
}

impl CrownModeState {
    #[verifier::type_invariant]
    spec fn inv(&self) -> bool {
        self@.well_formed()
    }

    /// Build a state positioned at the first mode.
    pub fn new(modes: Vec<CrownMode>) -> (r: Self)
        ensures
            r@ == (Position { modes: mode_views(modes@), index: 0 }),
    {
        CrownModeState { modes, index: 0 }
    }

    fn at(modes: Vec<CrownMode>, index: usize) -> (r: Self)
        requires
            (Position { modes: mode_views(modes@), index: index as int }).well_formed(),
        ensures
            r@ == (Position { modes: mode_views(modes@), index: index as int }),
    {
        CrownModeState { modes, index }
    }

    /// Advance to the next mode (wrapping last to first) and return it.
    ///
    /// Inert modes are skipped: cycling into a mode that assigns nothing would
    /// look like the tap had failed. `None` when no mode is usable at all,
    /// which keeps the action a no-op rather than a silent index change.
    pub fn cycle(&mut self) -> (r: Option<&CrownMode>)
        ensures
            final(self)@ == old(self)@.cycled(),
            final(self)@.well_formed(),
            old(self)@.all_inert() <==> r is None,
            match r {
                Some(mode) => Some(mode@) == final(self)@.active() && !mode@.inert(),
                None => true,
            },
    {
        proof {
            use_type_invariant(&*self);
        }
        let ghost start = self@;
        let count: usize = self.modes.len();
        let mut inert: bool = true;
        let mut i: usize = 0;
        while i < count
            invariant
                count == self.modes@.len(),
                start == self@,
                i <= count,
                inert == forall|k: int| 0 <= k < i ==> (#[trigger] start.modes[k]).inert(),
            decreases count - i,
        {
            inert = inert && self.modes[i].is_inert();
            assert(start.modes[i as int] == self.modes@[i as int]@);
            i += 1;
        }
        if inert {
            return None;
        }
        // Bounded by one full lap; the guard above proves it finds a usable
        // mode before the lap runs out.
        let mut at: usize = self.index;
        let mut gone: usize = 0;
        proof {
            lemma_step(start, 0);
        }
        loop
            invariant_except_break
                at == start.ahead(gone as int),
            invariant
                count == self.modes@.len(),
                start == self@,
                start.well_formed(),
                !start.all_inert(),
                gone < count,
                at < count,
                forall|j: int| 1 <= j <= gone ==> start.modes[#[trigger] start.ahead(j)].inert(),
            ensures
                start.next_usable(gone + 1),
                at == start.ahead(gone + 1),
                at < count,
            decreases count - gone,
        {
            proof {
                lemma_step(start, gone as int);
            }
            at = if at == count - 1 {
                0
            } else {
                at + 1
            };
            assert(start.modes[at as int] == self.modes@[at as int]@);
            if !self.modes[at].is_inert() {
                assert(start.next_usable(gone + 1));
                break;
            }
            proof {
                if gone + 1 == count {
                    lemma_full_lap(start);
                }
            }
            gone += 1;
        }
        proof {
            lemma_next_usable_is_unique(start, gone + 1);
        }
        self.index = at;
        assert(self@.modes[at as int] == self.modes@[at as int]@);
        Some(&self.modes[at])
    }

    /// The mode the dial is in, if the list is non-empty.
    pub fn active(&self) -> (r: Option<&CrownMode>)
        ensures
            self@.well_formed(),
            match r {
                Some(mode) => self@.active() == Some(mode@),
                None => self@.active() is None,
            },
    {
        proof {
            use_type_invariant(self);
        }
        if self.index < self.modes.len() {
            assert(self@.modes[self.index as int] == self.modes@[self.index as int]@);
            Some(&self.modes[self.index])
        } else {
            None
        }
    }

    /// The active mode's action for `control`, or `None` to fall through.
    pub fn action_for(&self, control: ButtonId) -> (r: Option<&Action>)
        ensures
            match r {
                Some(action) => self@.assigns(control) == Some(*action),
                None => self@.assigns(control) is None,
            },
    {
        match self.active() {
            Some(mode) => mode.action_for(control),
            None => None,
        }
    }

    /// Snapshot for an on-screen indicator. `None` when there is nothing worth
    /// showing, so a presenter never has to decide that for itself.
    pub fn indicator(&self) -> (r: Option<CrownModeIndicator>)
        ensures
            match r {
                Some(hud) => {
                    &&& self@.modes.len() > 0
                    &&& hud.selected == self@.index
                    &&& hud.selected < hud.names@.len()
                    &&& hud.names@.len() == self@.modes.len()
                    &&& forall|i: int|
                        0 <= i < hud.names@.len() ==> (#[trigger] hud.names@[i])@
                            == self@.modes[i].name
                },
                None => self@.modes.len() == 0,
            },
    {
        proof {
            use_type_invariant(self);
        }
        if self.modes.is_empty() {
            return None;
        }
        let mut names: Vec<String> = Vec::new();
        let mut i: usize = 0;
        while i < self.modes.len()
            invariant
                i <= self.modes@.len(),
                names@.len() == i,
                forall|k: int| 0 <= k < i ==> (#[trigger] names@[k])@ == self@.modes[k].name,
            decreases self.modes@.len() - i,
        {
            names.push(self.modes[i].name.clone());
            i += 1;
        }
        Some(CrownModeIndicator { names, selected: self.index })
    }
}

/// One place further on.
proof fn lemma_step(p: Position, k: int)
    requires
        p.well_formed(),
        p.modes.len() > 0,
        k >= 0,
    ensures
        0 <= p.ahead(k) < p.modes.len(),
        p.ahead(k + 1) == if p.ahead(k) == p.modes.len() - 1 {
            0
        } else {
            p.ahead(k) + 1
        },
        p.ahead(0) == p.index,
{
    let n = p.modes.len() as int;
    let x = p.index + k;
    let y = x % n;
    assert(0 <= y < n && (x + 1) % n == if y == n - 1 {
        0
    } else {
        y + 1
    }) by (nonlinear_arith)
        requires
            n > 0,
            x >= 0,
            y == x % n,
    ;
    assert(p.index % n == p.index) by (nonlinear_arith)
        requires
            0 <= p.index < n,
    ;
}

/// One lap passes every mode.
proof fn lemma_lap_reaches(p: Position, i: int) -> (k: int)
    requires
        p.well_formed(),
        0 <= i < p.modes.len(),
    ensures
        1 <= k <= p.modes.len(),
        p.ahead(k) == i,
{
    let n = p.modes.len() as int;
    if i > p.index {
        let k = i - p.index;
        assert((p.index + k) % n == i) by (nonlinear_arith)
            requires
                p.index + k == i,
                0 <= i < n,
        ;
        k
    } else {
        let k = i + n - p.index;
        assert((p.index + k) % n == i) by (nonlinear_arith)
            requires
                p.index + k == i + n,
                0 <= i < n,
        ;
        k
    }
}

/// A lap that passes only inert modes has an all-inert list.
proof fn lemma_full_lap(p: Position)
    requires
        p.well_formed(),
        forall|j: int| 1 <= j <= p.modes.len() ==> p.modes[#[trigger] p.ahead(j)].inert(),
    ensures
        p.all_inert(),
{
    assert forall|i: int| 0 <= i < p.modes.len() implies (#[trigger] p.modes[i]).inert() by {
        let k = lemma_lap_reaches(p, i);
        assert(p.modes[p.ahead(k)].inert());
    }
}

/// There is one next usable mode.
proof fn lemma_next_usable_is_unique(p: Position, k: int)
    requires
        p.next_usable(k),
    ensures
        forall|other: int| #[trigger] p.next_usable(other) ==> other == k,
        (choose|other: int| p.next_usable(other)) == k,
{
    assert forall|other: int| #[trigger] p.next_usable(other) implies other == k by {
        if other < k {
            assert(p.modes[p.ahead(other)].inert());
        } else if k < other {
            assert(p.modes[p.ahead(k)].inert());
        }
    }
}

/// Where `n` cycles move the dial.
pub open spec fn cycled_times(p: Position, n: nat) -> Position
    decreases n,
{
    if n == 0 {
        p
    } else {
        cycled_times(p.cycled(), (n - 1) as nat)
    }
}

/// A list with a usable mode has a next usable one within a lap.
proof fn lemma_some_next_usable(p: Position, k: int) -> (first: int)
    requires
        p.well_formed(),
        1 <= k <= p.modes.len(),
        !p.modes[p.ahead(k)].inert(),
    ensures
        1 <= first <= k,
        p.next_usable(first),
        !p.all_inert(),
        p.cycled().index == p.ahead(first),
        p.cycled().well_formed(),
    decreases k,
{
    lemma_step(p, k);
    if forall|j: int| 1 <= j < k ==> p.modes[#[trigger] p.ahead(j)].inert() {
        lemma_next_usable_is_unique(p, k);
        k
    } else {
        let j = choose|j: int| 1 <= j < k && !p.modes[#[trigger] p.ahead(j)].inert();
        lemma_some_next_usable(p, j)
    }
}

/// Cycling never lands on a mode that assigns nothing, and stands still only
/// when no mode assigns anything.
pub proof fn law_cycling_lands_on_a_usable_mode(p: Position)
    requires
        p.well_formed(),
    ensures
        p.cycled().modes == p.modes,
        p.cycled().well_formed(),
        p.all_inert() ==> p.cycled() == p,
        !p.all_inert() ==> !p.modes[p.cycled().index].inert(),
{
    if !p.all_inert() {
        let i = choose|i: int| 0 <= i < p.modes.len() && !(#[trigger] p.modes[i]).inert();
        let k = lemma_lap_reaches(p, i);
        let first = lemma_some_next_usable(p, k);
        lemma_step(p, first);
    }
}

/// How many modes of a list assign something.
pub open spec fn usable_count(modes: Seq<ModeView>) -> nat
    decreases modes.len(),
{
    if modes.len() == 0 {
        0
    } else if modes.last().inert() {
        usable_count(modes.drop_last())
    } else {
        usable_count(modes.drop_last()) + 1
    }
}

/// How many of the next `k` places hold a usable mode.
spec fn usable_ahead(p: Position, k: nat) -> nat
    decreases k,
{
    if k == 0 {
        0
    } else if p.modes[p.ahead(k as int)].inert() {
        usable_ahead(p, (k - 1) as nat)
    } else {
        usable_ahead(p, (k - 1) as nat) + 1
    }
}

/// Every usable mode is reached by cycling: from anywhere in the list, at most
/// one tap per mode gets there. The mode the dial is in is one of them, so
/// cycling wraps.
pub proof fn law_cycling_reaches_every_usable_mode(p: Position, i: int)
    requires
        p.well_formed(),
        0 <= i < p.modes.len(),
        !p.modes[i].inert(),
    ensures
        exists|n: nat|
            1 <= n <= p.modes.len() && (#[trigger] cycled_times(p, n)).index == i,
{
    let k = lemma_lap_reaches(p, i);
    lemma_reached_after(p, k as nat);
    lemma_usable_ahead_grows(p, 0, k as nat);
    assert(cycled_times(p, usable_ahead(p, k as nat)).index == i);
}

/// One round of cycling, a tap for each usable mode, visits each usable mode
/// exactly once.
pub proof fn law_a_round_of_cycling_visits_every_usable_mode_once(p: Position, i: int)
    requires
        p.well_formed(),
        0 <= i < p.modes.len(),
        !p.modes[i].inert(),
    ensures
        exists|n: nat|
            {
                &&& 1 <= n <= usable_count(p.modes)
                &&& (#[trigger] cycled_times(p, n)).index == i
                &&& forall|m: nat|
                    1 <= m <= usable_count(p.modes) && (#[trigger] cycled_times(p, m)).index == i
                        ==> m == n
            },
{
    let len = p.modes.len();
    let k = lemma_lap_reaches(p, i) as nat;
    let n = usable_ahead(p, k);
    lemma_reached_after(p, k);
    lemma_usable_ahead_grows(p, 0, k);
    lemma_usable_ahead_grows(p, k, len);
    lemma_lap_counts_the_list(p);
    assert(cycled_times(p, n).index == i);
    assert forall|m: nat|
        1 <= m <= usable_count(p.modes) && (#[trigger] cycled_times(p, m)).index == i implies m
        == n by {
        let other = lemma_tap_has_a_place(p, m, len);
        lemma_reached_after(p, other);
        lemma_lap_is_injective(p, k as int, other as int);
    }
}

/// One round of cycling from a usable mode comes back to it.
pub proof fn law_a_round_of_cycling_comes_back(p: Position)
    requires
        p.well_formed(),
        p.active() matches Some(mode) && !mode.inert(),
    ensures
        cycled_times(p, usable_count(p.modes)) == p,
{
    let len = p.modes.len();
    lemma_lap_counts_the_list(p);
    assert(p.ahead(len as int) == p.index) by (nonlinear_arith)
        requires
            0 <= p.index < len,
            p.ahead(len as int) == (p.index + len) % (len as int),
    ;
    lemma_reached_after(p, len);
    lemma_cycling_keeps_the_list(p, usable_count(p.modes));
}

proof fn lemma_cycling_keeps_the_list(p: Position, n: nat)
    ensures
        cycled_times(p, n).modes == p.modes,
    decreases n,
{
    if n > 0 {
        lemma_cycling_keeps_the_list(p.cycled(), (n - 1) as nat);
    }
}

/// A usable mode `k` places on is reached by a tap for each usable mode up to
/// and including it.
proof fn lemma_reached_after(p: Position, k: nat)
    requires
        p.well_formed(),
        1 <= k <= p.modes.len(),
        !p.modes[p.ahead(k as int)].inert(),
    ensures
        1 <= usable_ahead(p, k) <= k,
        cycled_times(p, usable_ahead(p, k)).index == p.ahead(k as int),
    decreases k,
{
    let first = lemma_some_next_usable(p, k as int);
    let next = p.cycled();
    let rest = (k - first) as nat;
    lemma_usable_ahead_of_the_next(p, first, rest);
    lemma_usable_ahead_grows(p, 0, k);
    if first == k {
        reveal_with_fuel(cycled_times, 2);
        assert(cycled_times(p, 1) == cycled_times(next, 0));
    } else {
        lemma_ahead_of_the_next(p, first, rest as int);
        lemma_reached_after(next, rest);
        assert(cycled_times(p, usable_ahead(p, k)) == cycled_times(next, usable_ahead(next, rest)));
    }
}

/// Places counted from the next usable mode.
proof fn lemma_ahead_of_the_next(p: Position, first: int, rest: int)
    requires
        p.modes.len() > 0,
        p.cycled().modes == p.modes,
        p.cycled().index == p.ahead(first),
    ensures
        p.cycled().ahead(rest) == p.ahead(first + rest),
{
    let len = p.modes.len() as int;
    vstd::arithmetic::div_mod::lemma_add_mod_noop_right(rest, p.index + first, len);
    assert(rest + (p.index + first) == p.index + (first + rest));
}

/// Usable modes counted from the next usable one, which is one itself.
proof fn lemma_usable_ahead_of_the_next(p: Position, first: int, rest: nat)
    requires
        p.modes.len() > 0,
        p.next_usable(first),
        p.cycled().modes == p.modes,
        p.cycled().index == p.ahead(first),
    ensures
        usable_ahead(p, (first + rest) as nat) == 1 + usable_ahead(p.cycled(), rest),
    decreases rest,
{
    if rest == 0 {
        lemma_none_usable_before(p, first, (first - 1) as nat);
    } else {
        lemma_usable_ahead_of_the_next(p, first, (rest - 1) as nat);
        lemma_ahead_of_the_next(p, first, rest as int);
    }
}

proof fn lemma_none_usable_before(p: Position, first: int, k: nat)
    requires
        p.next_usable(first),
        k < first,
    ensures
        usable_ahead(p, k) == 0,
    decreases k,
{
    if k > 0 {
        lemma_none_usable_before(p, first, (k - 1) as nat);
        assert(p.modes[p.ahead(k as int)].inert());
    }
}

proof fn lemma_usable_ahead_grows(p: Position, j: nat, k: nat)
    requires
        j <= k,
    ensures
        usable_ahead(p, j) <= usable_ahead(p, k) <= usable_ahead(p, j) + (k - j),
    decreases k,
{
    if j < k {
        lemma_usable_ahead_grows(p, j, (k - 1) as nat);
    }
}

/// The place of the `m`-th usable mode among the next `k`.
proof fn lemma_tap_has_a_place(p: Position, m: nat, k: nat) -> (place: nat)
    requires
        1 <= m <= usable_ahead(p, k),
    ensures
        1 <= place <= k,
        usable_ahead(p, place) == m,
        !p.modes[p.ahead(place as int)].inert(),
    decreases k,
{
    if m <= usable_ahead(p, (k - 1) as nat) {
        lemma_tap_has_a_place(p, m, (k - 1) as nat)
    } else {
        k
    }
}

/// Two places of one lap hold two modes.
proof fn lemma_lap_is_injective(p: Position, j: int, k: int)
    requires
        p.well_formed(),
        1 <= j <= p.modes.len(),
        1 <= k <= p.modes.len(),
        p.ahead(j) == p.ahead(k),
    ensures
        j == k,
{
    lemma_place(p, j);
    lemma_place(p, k);
}

/// A place of the first lap, without the wrap.
proof fn lemma_place(p: Position, k: int)
    requires
        p.well_formed(),
        1 <= k <= p.modes.len(),
    ensures
        p.ahead(k) == if p.index + k < p.modes.len() {
            p.index + k
        } else {
            p.index + k - p.modes.len()
        },
{
    let n = p.modes.len() as int;
    let x = p.index + k;
    if x < n {
        vstd::arithmetic::div_mod::lemma_small_mod(x as nat, n as nat);
    } else {
        vstd::arithmetic::div_mod::lemma_small_mod((x - n) as nat, n as nat);
        vstd::arithmetic::div_mod::lemma_mod_add_multiples_vanish(x - n, n);
    }
}

/// A lap passes as many usable modes as the list holds.
proof fn lemma_lap_counts_the_list(p: Position)
    requires
        p.well_formed(),
        p.modes.len() > 0,
    ensures
        usable_ahead(p, p.modes.len()) == usable_count(p.modes),
{
    lemma_part_of_a_lap(p, p.modes.len());
    assert(p.modes.take(p.modes.len() as int) =~= p.modes);
}

proof fn lemma_part_of_a_lap(p: Position, k: nat)
    requires
        p.well_formed(),
        p.modes.len() > 0,
        k <= p.modes.len(),
    ensures
        usable_ahead(p, k) + usable_count(p.modes.take(p.index + 1)) == if p.index + k
            < p.modes.len() {
            usable_count(p.modes.take(p.index + k + 1))
        } else {
            usable_count(p.modes.take(p.modes.len() as int)) + usable_count(
                p.modes.take(p.index + k + 1 - p.modes.len()),
            )
        },
    decreases k,
{
    if k > 0 {
        lemma_part_of_a_lap(p, (k - 1) as nat);
        lemma_place(p, k as int);
        let at = p.ahead(k as int);
        assert(p.modes.take(at + 1).drop_last() =~= p.modes.take(at));
        assert(p.modes.take(at + 1).last() == p.modes[at]);
        assert(usable_count(p.modes.take(0)) == 0);
    }
}

/// Mode lists by device: what a sequence of entries holds when a later entry
/// for a device replaces an earlier one.
pub open spec fn lists_by_key(lists: Seq<(String, Vec<CrownMode>)>) -> Map<
    Seq<char>,
    Seq<ModeView>,
>
    decreases lists.len(),
{
    if lists.len() == 0 {
        Map::empty()
    } else {
        lists_by_key(lists.drop_last()).insert(lists.last().0@, mode_views(lists.last().1@))
    }
}

/// The position a device has after its list is published again: kept where the
/// list it was cycling through is unchanged, the first mode otherwise.
pub open spec fn republished_position(
    before: Map<Seq<char>, Position>,
    key: Seq<char>,
    modes: Seq<ModeView>,
) -> Position {
    Position {
        modes,
        index: if before.contains_key(key) && before[key].modes == modes {
            before[key].index
        } else {
            0
        },
    }
}

/// Every device's position after all lists are published again. A device that
/// is not listed has none.
pub open spec fn republished(
    before: Map<Seq<char>, Position>,
    lists: Map<Seq<char>, Seq<ModeView>>,
) -> Map<Seq<char>, Position> {
    Map::new(
        |key: Seq<char>| lists.contains_key(key),
        |key: Seq<char>| republished_position(before, key, lists[key]),
    )
}

/// Per-device crown-mode positions.
#[derive(Debug)]
pub struct CrownModes {
    by_key: StringMap<CrownModeState>,
}

impl View for CrownModes {
    type V = Map<Seq<char>, Position>;

    closed spec fn view(&self) -> Map<Seq<char>, Position> {
        positions(self.by_key@)
    }
}

spec fn positions(states: Map<Seq<char>, CrownModeState>) -> Map<Seq<char>, Position> {
    states.map_values(|state: CrownModeState| state@)
}

impl Default for CrownModes {
    fn default() -> (r: Self)
        ensures
            r@ == Map::<Seq<char>, Position>::empty(),
    {
        let r = CrownModes { by_key: StringMap::new() };
        assert(r@ =~= Map::<Seq<char>, Position>::empty());
        r
    }
}

impl Clone for CrownModes {
    fn clone(&self) -> (r: Self)
        ensures
            r@ == self@,
    {
        let r = CrownModes { by_key: self.by_key.clone() };
        assert forall|key: Seq<char>| #[trigger] r.by_key@.contains_key(key) implies r.by_key@[key]@
            == self.by_key@[key]@ by {
            assert(cloned(self.by_key@[key], r.by_key@[key]));
        }
        assert(r@ =~= self@);
        r
    }
}

impl CrownModes {
    /// Replace every device's mode list, preserving each one's position where
    /// the list it was cycling through is unchanged.
    ///
    /// A config reload rebuilds this wholesale, and resetting to the first
    /// mode on every unrelated config edit would yank the dial out from under
    /// the user. A device whose list actually changed does reset: its old
    /// index no longer means anything.
    pub fn republish(&mut self, lists: Vec<(String, Vec<CrownMode>)>)
        ensures
            final(self)@ == republished(old(self)@, lists_by_key(lists@)),
    {
        let ghost before = self@;
        let ghost all = lists@;
        let mut next: StringMap<CrownModeState> = StringMap::new();
        assert(all.take(0) =~= Seq::<(String, Vec<CrownMode>)>::empty());
        for entry in it: lists
            invariant
                before == self@,
                it.seq() == all,
                positions(next@) =~= republished(
                    before,
                    lists_by_key(all.take(it.index() as int)),
                ),
        {
            let ghost n = it.index() as int;
            let (key, modes) = entry;
            let kept: Option<usize> = match self.by_key.get(key.as_str()) {
                Some(state) => {
                    proof {
                        use_type_invariant(state);
                        assert(before[key@] == state@);
                    }
                    if same_modes(&state.modes, &modes) {
                        Some(state.index)
                    } else {
                        None
                    }
                },
                None => None,
            };
            let index: usize = match kept {
                Some(index) => index,
                None => 0,
            };
            let ghost position = republished_position(before, key@, mode_views(modes@));
            let ghost earlier = positions(next@);
            let ghost name = key@;
            assert(position.index == index);
            next.insert(key, CrownModeState::at(modes, index));
            proof {
                assert(all.take(n + 1).drop_last() =~= all.take(n));
                assert(all.take(n + 1).last() == all[n]);
                assert(positions(next@) =~= earlier.insert(
                    name,
                    position,
                ));
            }
        }
        assert(all.take(all.len() as int) =~= all);
        self.by_key = next;
    }

    /// The state for `key`, or `None` when that device has no modes: it is not
    /// listed, or its list is empty.
    pub fn state_for(&mut self, key: Option<&str>) -> (r: Option<&mut CrownModeState>)
        ensures
            match (key, r) {
                (Some(k), Some(state)) => {
                    &&& old(self)@.contains_key(k@)
                    &&& old(self)@[k@].modes.len() > 0
                    &&& state@ == old(self)@[k@]
                    &&& final(self)@ == old(self)@.insert(k@, final(state)@)
                },
                (Some(k), None) => {
                    &&& !old(self)@.contains_key(k@) || old(self)@[k@].modes.len() == 0
                    &&& final(self)@ == old(self)@
                },
                (None, Some(_)) => false,
                (None, None) => final(self)@ == old(self)@,
            },
    {
        match key {
            Some(k) => {
                let usable: bool = match self.by_key.get(k) {
                    Some(state) => !state.modes.is_empty(),
                    None => false,
                };
                if !usable {
                    return None;
                }
                proof {
                    let before = self.by_key@;
                    assert forall|x: CrownModeState, m: Map<Seq<char>, CrownModeState>|
                        m == before.insert(k@, x) implies #[trigger] positions(m) == positions(
                        before,
                    ).insert(k@, #[trigger] x.view()) by {
                        assert(positions(m) =~= positions(before).insert(k@, x@));
                    }
                }
                self.by_key.get_mut(k)
            },
            None => None,
        }
    }

    /// The action `control` should run on `key` right now, or `None` to fall
    /// through to the control's ordinary binding.
    pub fn action_for(&self, key: Option<&str>, control: ButtonId) -> (r: Option<&Action>)
        ensures
            match r {
                Some(action) => {
                    &&& key matches Some(k)
                    &&& self@.contains_key(k@)
                    &&& self@[k@].assigns(control) == Some(*action)
                },
                None => key matches Some(k) ==> self@.contains_key(k@) ==> self@[k@].assigns(
                    control,
                ) is None,
            },
    {
        match key {
            Some(k) => match self.by_key.get(k) {
                Some(state) => state.action_for(control),
                None => None,
            },
            None => None,
        }
    }

    /// The active mode's name on `key`, for logging and the indicator.
    pub fn active_name(&self, key: Option<&str>) -> (r: Option<&str>)
        ensures
            match r {
                Some(name) => {
                    &&& key matches Some(k)
                    &&& self@.contains_key(k@)
                    &&& self@[k@].active() matches Some(mode)
                    &&& name@ == mode.name
                },
                None => key matches Some(k) ==> self@.contains_key(k@)
                    ==> self@[k@].active() is None,
            },
    {
        match key {
            Some(k) => match self.by_key.get(k) {
                Some(state) => match state.active() {
                    Some(mode) => Some(mode.name.as_str()),
                    None => None,
                },
                None => None,
            },
            None => None,
        }
    }
}

/// Publishing a device's unchanged list again leaves its position alone, so an
/// unrelated config edit never yanks the dial back to mode one.
pub proof fn law_republishing_an_unchanged_list_keeps_the_position(
    before: Map<Seq<char>, Position>,
    lists: Map<Seq<char>, Seq<ModeView>>,
    key: Seq<char>,
)
    requires
        before.contains_key(key),
        lists.contains_key(key),
        lists[key] == before[key].modes,
    ensures
        republished(before, lists).contains_key(key),
        republished(before, lists)[key] == before[key],
{
}

/// A device whose list changed starts over on the first mode of the new list.
pub proof fn law_republishing_a_changed_list_resets_the_position(
    before: Map<Seq<char>, Position>,
    lists: Map<Seq<char>, Seq<ModeView>>,
    key: Seq<char>,
)
    requires
        lists.contains_key(key),
        !before.contains_key(key) || before[key].modes != lists[key],
    ensures
        republished(before, lists)[key] == (Position { modes: lists[key], index: 0 }),
{
}

/// A device that is no longer listed has no modes.
pub proof fn law_republishing_drops_an_unlisted_device(
    before: Map<Seq<char>, Position>,
    lists: Map<Seq<char>, Seq<ModeView>>,
    key: Seq<char>,
)
    requires
        !lists.contains_key(key),
    ensures
        !republished(before, lists).contains_key(key),
{
}

/// No mode owns the tap: in every mode it falls through to its ordinary
/// binding, so whatever cycles modes works in each of them.
pub proof fn law_no_mode_owns_the_tap(mode: ModeView, p: Position)
    ensures
        mode.assigns(ButtonId::CrownTap) is None,
        p.assigns(ButtonId::CrownTap) is None,
{
}

/// A mode assigns each control it may own its own action, and nothing to any
/// other; it is inert exactly when it assigns nothing to any control.
pub proof fn law_a_mode_assigns_each_control_its_own(mode: ModeView, control: ButtonId)
    ensures
        mode.assigns(ButtonId::CrownRotateUp) == mode.rotate_up,
        mode.assigns(ButtonId::CrownRotateDown) == mode.rotate_down,
        mode.assigns(ButtonId::CrownPress) == mode.press,
        control != ButtonId::CrownRotateUp && control != ButtonId::CrownRotateDown && control
            != ButtonId::CrownPress ==> mode.assigns(control) is None,
        mode.inert() <==> forall|c: ButtonId| (#[trigger] mode.assigns(c)) is None,
{
    if forall|c: ButtonId| (#[trigger] mode.assigns(c)) is None {
        assert(mode.assigns(ButtonId::CrownRotateUp) is None);
        assert(mode.assigns(ButtonId::CrownRotateDown) is None);
        assert(mode.assigns(ButtonId::CrownPress) is None);
    }
}

/// What the dial does is what the mode it sits on assigns.
pub proof fn law_the_dial_does_what_its_mode_assigns(p: Position, control: ButtonId)
    ensures
        p.modes.len() == 0 ==> p.active() is None && p.assigns(control) is None,
        p.well_formed() && p.modes.len() > 0 ==> {
            &&& p.active() == Some(p.modes[p.index])
            &&& p.assigns(control) == p.modes[p.index].assigns(control)
        },
{
}

/// A tap goes forward to the nearest usable mode: every mode that it passes
/// over, to the end of the list and on from its start if need be, is inert.
pub proof fn law_cycling_passes_over_inert_modes_alone(p: Position, i: int)
    requires
        p.well_formed(),
        !p.all_inert(),
        0 <= i < p.modes.len(),
    ensures
        ({
            let to = p.cycled().index;
            &&& p.index < i < to ==> p.modes[i].inert()
            &&& to <= p.index && (i > p.index || i < to) ==> p.modes[i].inert()
        }),
{
    let u = choose|u: int| 0 <= u < p.modes.len() && !(#[trigger] p.modes[u]).inert();
    let k = lemma_lap_reaches(p, u);
    let first = lemma_some_next_usable(p, k);
    lemma_place(p, first);
    let at = lemma_lap_reaches(p, i);
    lemma_place(p, at);
    if at < first {
        assert(p.modes[p.ahead(at)].inert());
    }
}

/// A device is listed with the modes of the last entry that names it.
pub proof fn law_the_last_entry_for_a_device_counts(
    lists: Seq<(String, Vec<CrownMode>)>,
    i: int,
)
    requires
        0 <= i < lists.len(),
        forall|j: int| i < j < lists.len() ==> (#[trigger] lists[j]).0@ != lists[i].0@,
    ensures
        lists_by_key(lists).contains_key(lists[i].0@),
        lists_by_key(lists)[lists[i].0@] == mode_views(lists[i].1@),
    decreases lists.len(),
{
    if i < lists.len() - 1 {
        let sooner = lists.drop_last();
        assert(lists[lists.len() - 1].0@ != lists[i].0@);
        assert forall|j: int| i < j < sooner.len() implies (#[trigger] sooner[j]).0@
            != sooner[i].0@ by {
            assert(sooner[j] == lists[j]);
        }
        law_the_last_entry_for_a_device_counts(sooner, i);
    }
}

/// A device that no entry names is not listed.
pub proof fn law_an_unnamed_device_is_not_listed(
    lists: Seq<(String, Vec<CrownMode>)>,
    key: Seq<char>,
)
    requires
        forall|i: int| 0 <= i < lists.len() ==> (#[trigger] lists[i]).0@ != key,
    ensures
        !lists_by_key(lists).contains_key(key),
    decreases lists.len(),
{
    if lists.len() > 0 {
        let sooner = lists.drop_last();
        assert forall|i: int| 0 <= i < sooner.len() implies (#[trigger] sooner[i]).0@ != key by {
            assert(sooner[i] == lists[i]);
        }
        assert(lists[lists.len() - 1].0@ != key);
        law_an_unnamed_device_is_not_listed(sooner, key);
    }
}

/// After a publication exactly the listed devices have modes, each its own
/// list, and sits on a mode of it if it did before.
pub proof fn law_a_publication_leaves_just_the_listed_devices(
    before: Map<Seq<char>, Position>,
    lists: Map<Seq<char>, Seq<ModeView>>,
    key: Seq<char>,
)
    ensures
        republished(before, lists).contains_key(key) <==> lists.contains_key(key),
        lists.contains_key(key) ==> republished(before, lists)[key].modes == lists[key],
        lists.contains_key(key) && (before.contains_key(key) ==> before[key].well_formed())
            ==> republished(before, lists)[key].well_formed(),
{
}

} // verus!
