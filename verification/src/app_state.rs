//! Crown-mode list editing for the selected device.
//!
//! The mode list is what a crown tap cycles through, and it is per device and
//! per application: every edit lands in whichever profile is open. A per-app
//! override replaces the whole list rather than one entry, so the first edit
//! made inside an app profile forks the device's list into that app, which is
//! what is on show at the time, so nothing appears to move.

use vstd::prelude::*;

use crate::binding::{Action, ButtonId};
use crate::crown_mode::{copy_modes, CrownMode, ModeView};
use crate::string_map::StringMap;
use crate::text::{owned, text_eq, trim};

verus! {

/// The stored mode lists.
#[verifier::ext_equal]
pub struct ConfigView {
    /// Each device's own list, by its config key.
    pub lists: Map<Seq<char>, Seq<ModeView>>,
    /// Each application's list on a device, by config key and application.
    pub overrides: Map<(Seq<char>, Seq<char>), Seq<ModeView>>,
}

impl ConfigView {
    /// A device's own list; empty when it has none.
    pub open spec fn list(self, key: Seq<char>) -> Seq<ModeView> {
        if self.lists.contains_key(key) {
            self.lists[key]
        } else {
            Seq::empty()
        }
    }
}

/// The stored mode lists of every device and application.
#[derive(Debug)]
pub struct Config {
    lists: StringMap<Vec<CrownMode>>,
    overrides: StringMap<StringMap<Vec<CrownMode>>>,
}

spec fn lists_view(lists: Map<Seq<char>, Vec<CrownMode>>) -> Map<Seq<char>, Seq<ModeView>> {
    lists.map_values(|modes: Vec<CrownMode>| crate::crown_mode::mode_views(modes@))
}

spec fn has_override(
    overrides: Map<Seq<char>, StringMap<Vec<CrownMode>>>,
    at: (Seq<char>, Seq<char>),
) -> bool {
    overrides.contains_key(at.0) && overrides[at.0]@.contains_key(at.1)
}

spec fn overrides_view(
    overrides: Map<Seq<char>, StringMap<Vec<CrownMode>>>,
) -> Map<(Seq<char>, Seq<char>), Seq<ModeView>> {
    Map::new(
        |at: (Seq<char>, Seq<char>)| has_override(overrides, at),
        |at: (Seq<char>, Seq<char>)| crate::crown_mode::mode_views(overrides[at.0]@[at.1]@),
    )
}

impl View for Config {
    type V = ConfigView;

    closed spec fn view(&self) -> ConfigView {
        ConfigView {
            lists: lists_view(self.lists@),
            overrides: overrides_view(self.overrides@),
        }
    }
}

impl Config {
    /// No lists.
    pub fn new() -> (r: Self)
        ensures
            r@ == (ConfigView { lists: Map::empty(), overrides: Map::empty() }),
    {
        let r = Config { lists: StringMap::new(), overrides: StringMap::new() };
        assert(r@ =~= ConfigView { lists: Map::empty(), overrides: Map::empty() });
        r
    }

    /// A device's own list, in cycle order; empty when it has none.
    pub fn crown_modes(&self, key: &str) -> (r: Vec<CrownMode>)
        ensures
            crate::crown_mode::mode_views(r@) == self@.list(key@),
    {
        match self.lists.get(key) {
            Some(modes) => copy_modes(modes),
            None => {
                let r: Vec<CrownMode> = Vec::new();
                assert(crate::crown_mode::mode_views(r@) =~= Seq::empty());
                r
            },
        }
    }

    /// An application's own list on a device, if it has one.
    pub fn per_app_crown_modes(&self, key: &str, app: &str) -> (r: Option<&Vec<CrownMode>>)
        ensures
            match r {
                Some(modes) => {
                    &&& self@.overrides.contains_key((key@, app@))
                    &&& crate::crown_mode::mode_views(modes@) == self@.overrides[(key@, app@)]
                },
                None => !self@.overrides.contains_key((key@, app@)),
            },
    {
        match self.overrides.get(key) {
            Some(apps) => apps.get(app),
            None => None,
        }
    }

    /// Replace a device's own list.
    pub fn set_crown_modes(&mut self, key: &str, modes: Vec<CrownMode>)
        ensures
            final(self)@ == (ConfigView {
                lists: old(self)@.lists.insert(key@, crate::crown_mode::mode_views(modes@)),
                ..old(self)@
            }),
    {
        let ghost was = self@;
        let ghost views = crate::crown_mode::mode_views(modes@);
        self.lists.insert(owned(key), modes);
        assert(self@.lists =~= was.lists.insert(key@, views));
    }

    /// Replace an application's list on a device. An empty list drops the
    /// override, so that the application inherits the device's list: an empty
    /// override would be indistinguishable from inheriting, which is the
    /// reading that loses no user intent.
    pub fn set_per_app_crown_modes(&mut self, key: &str, app: &str, modes: Vec<CrownMode>)
        ensures
            final(self)@ == (ConfigView {
                overrides: if modes@.len() == 0 {
                    old(self)@.overrides.remove((key@, app@))
                } else {
                    old(self)@.overrides.insert(
                        (key@, app@),
                        crate::crown_mode::mode_views(modes@),
                    )
                },
                ..old(self)@
            }),
    {
        let ghost was = *self;
        let ghost views = crate::crown_mode::mode_views(modes@);
        let drop: bool = modes.len() == 0;
        if drop {
            if let Some(apps) = self.overrides.get_mut(key) {
                apps.remove(app);
            }
            assert(self@.overrides =~= was@.overrides.remove((key@, app@)));
        } else {
            if !self.overrides.contains_key(key) {
                let apps: StringMap<Vec<CrownMode>> = StringMap::new();
                self.overrides.insert(owned(key), apps);
            }
            if let Some(apps) = self.overrides.get_mut(key) {
                apps.insert(owned(app), modes);
            }
            assert(self@.overrides =~= was@.overrides.insert((key@, app@), views));
        }
    }
}

/// What an edit changed, for whoever stores it.
#[derive(Debug, Clone, Copy, PartialEq, Eq, Structural)]
pub enum Edit {
    /// The list of modes.
    Mode,
    /// A mode's name.
    ModeName,
    /// A mode's action.
    ModeAction,
    /// An application's override.
    ModeOverride,
}

impl Edit {
    /// What was edited, in words.
    pub open spec fn words(self) -> Seq<char> {
        match self {
            Edit::Mode => "crown mode"@,
            Edit::ModeName => "crown mode name"@,
            Edit::ModeAction => "crown mode action"@,
            Edit::ModeOverride => "crown mode override"@,
        }
    }

    /// What was edited, in words.
    pub fn label(self) -> (r: &'static str)
        ensures
            r@ == self.words(),
    {
        match self {
            Edit::Mode => "crown mode",
            Edit::ModeName => "crown mode name",
            Edit::ModeAction => "crown mode action",
            Edit::ModeOverride => "crown mode override",
        }
    }
}

/// The state that crown-mode editing reads and writes.
#[verifier::ext_equal]
pub struct StateView {
    /// The selected device's config key, if a device with one is selected.
    pub key: Option<Seq<char>>,
    /// The application whose profile is open; none for the device's own.
    pub app: Option<Seq<char>>,
    /// The stored lists.
    pub config: ConfigView,
}

/// A mode that assigns nothing.
pub open spec fn unassigned(name: Seq<char>) -> ModeView {
    ModeView { name, rotate_up: None, rotate_down: None, press: None }
}

/// Whether a mode can own `control`.
pub open spec fn ownable(control: ButtonId) -> bool {
    ||| control == ButtonId::CrownRotateUp
    ||| control == ButtonId::CrownRotateDown
    ||| control == ButtonId::CrownPress
}

/// `mode` with `control` assigned `action`.
pub open spec fn assigned(mode: ModeView, control: ButtonId, action: Option<Action>) -> ModeView {
    match control {
        ButtonId::CrownRotateUp => ModeView { rotate_up: action, ..mode },
        ButtonId::CrownRotateDown => ModeView { rotate_down: action, ..mode },
        ButtonId::CrownPress => ModeView { press: action, ..mode },
        _ => mode,
    }
}

impl StateView {
    /// Whether the open app profile carries a list of its own.
    pub open spec fn overridden(self) -> bool {
        self.key is Some && self.app is Some && self.config.overrides.contains_key(
            (self.key->0, self.app->0),
        )
    }

    /// The list the open profile edits: an app profile's own, or else the
    /// device's.
    pub open spec fn current(self) -> Seq<ModeView> {
        if self.key is None {
            Seq::empty()
        } else if self.overridden() {
            self.config.overrides[(self.key->0, self.app->0)]
        } else {
            self.config.list(self.key->0)
        }
    }

    /// The state once `modes` was written into the open profile. An empty list
    /// drops an app profile's override.
    pub open spec fn committed(self, modes: Seq<ModeView>) -> StateView {
        match (self.key, self.app) {
            (None, _) => self,
            (Some(key), None) => StateView {
                config: ConfigView {
                    lists: self.config.lists.insert(key, modes),
                    ..self.config
                },
                ..self
            },
            (Some(key), Some(app)) => StateView {
                config: ConfigView {
                    overrides: if modes.len() == 0 {
                        self.config.overrides.remove((key, app))
                    } else {
                        self.config.overrides.insert((key, app), modes)
                    },
                    ..self.config
                },
                ..self
            },
        }
    }

    /// Whether renaming the mode at `index` to `name` changes anything.
    pub open spec fn renames(self, index: int, name: Seq<char>) -> bool {
        &&& crate::text::trimmed(name).len() > 0
        &&& index < self.current().len()
        &&& self.current()[index].name != crate::text::trimmed(name)
    }

    /// Whether assigning `action` to `control` in the mode at `index` changes
    /// anything.
    pub open spec fn reassigns(
        self,
        index: int,
        control: ButtonId,
        action: Option<Action>,
    ) -> bool {
        &&& index < self.current().len()
        &&& ownable(control)
        &&& self.current()[index].assigns(control) != action
    }
}

/// The application state, as far as crown-mode editing reaches.
///
/// A function that changes the stored lists returns what was edited, which is
/// then to be stored and reloaded; `None` means that nothing changed.
#[derive(Debug)]
pub struct AppState {
    key: Option<String>,
    app: Option<String>,
    config: Config,
}

impl View for AppState {
    type V = StateView;

    closed spec fn view(&self) -> StateView {
        StateView {
            key: crate::text::optional_text(self.key),
            app: crate::text::optional_text(self.app),
            config: self.config@,
        }
    }
}

impl AppState {
    /// The state for these stored lists, with no device selected.
    pub fn new(config: Config) -> (r: Self)
        ensures
            r@ == (StateView { key: None, app: None, config: config@ }),
    {
        AppState { key: None, app: None, config }
    }

    /// Select a device by its config key; none for no device, or for one that
    /// has no lasting key.
    pub fn select_device(&mut self, key: Option<String>)
        ensures
            final(self)@ == (StateView { key: crate::text::optional_text(key), ..old(self)@ }),
    {
        let ghost was = self@;
        self.key = key;
        assert(self@ =~= StateView { key: crate::text::optional_text(key), ..was });
    }

    /// Open an application's profile, or the device's own.
    pub fn edit_app(&mut self, app: Option<String>)
        ensures
            final(self)@ == (StateView { app: crate::text::optional_text(app), ..old(self)@ }),
    {
        let ghost was = self@;
        self.app = app;
        assert(self@ =~= StateView { app: crate::text::optional_text(app), ..was });
    }

    /// The stored lists.
    pub fn config(&self) -> (r: &Config)
        ensures
            r@ == self@.config,
    {
        &self.config
    }

    /// The application whose profile is open.
    pub fn editing_app(&self) -> (r: Option<&str>)
        ensures
            match r {
                Some(app) => self@.app == Some(app@),
                None => self@.app is None,
            },
    {
        match &self.app {
            Some(app) => Some(app.as_str()),
            None => None,
        }
    }

    /// The crown-mode list the open profile edits, in cycle order.
    ///
    /// Inside an app profile with no list of its own this is the device's
    /// list, inherited and not owned, so that what shows is what the app
    /// actually cycles. [`Self::crown_modes_are_overridden`] tells the two
    /// apart.
    pub fn current_crown_modes(&self) -> (r: Vec<CrownMode>)
        ensures
            crate::crown_mode::mode_views(r@) == self@.current(),
    {
        let key = match &self.key {
            Some(key) => key,
            None => {
                let r: Vec<CrownMode> = Vec::new();
                assert(crate::crown_mode::mode_views(r@) =~= Seq::empty());
                return r;
            },
        };
        match &self.app {
            Some(app) => match self.config.per_app_crown_modes(key.as_str(), app.as_str()) {
                Some(modes) => copy_modes(modes),
                None => self.config.crown_modes(key.as_str()),
            },
            None => self.config.crown_modes(key.as_str()),
        }
    }

    /// Whether the open app profile carries its own mode list rather than
    /// inheriting the device's. Always `false` in the device's own profile,
    /// which has nothing to inherit from.
    pub fn crown_modes_are_overridden(&self) -> (r: bool)
        ensures
            r == self@.overridden(),
    {
        match (&self.key, &self.app) {
            (Some(key), Some(app)) => self.config.per_app_crown_modes(
                key.as_str(),
                app.as_str(),
            ).is_some(),
            _ => false,
        }
    }

    /// Write `modes` into whichever profile is open.
    fn commit_crown_modes(&mut self, modes: Vec<CrownMode>, what: Edit) -> (r: Option<Edit>)
        ensures
            final(self)@ == old(self)@.committed(crate::crown_mode::mode_views(modes@)),
            r == if old(self)@.key is Some {
                Some(what)
            } else {
                None
            },
    {
        let ghost was = self@;
        let ghost views = crate::crown_mode::mode_views(modes@);
        let key = match &self.key {
            Some(key) => key.clone(),
            None => {
                return None;
            },
        };
        match &self.app {
            Some(app) => {
                let app = app.clone();
                self.config.set_per_app_crown_modes(key.as_str(), app.as_str(), modes);
            },
            None => {
                self.config.set_crown_modes(key.as_str(), modes);
            },
        }
        assert(self@ =~= was.committed(views));
        Some(what)
    }

    /// Append a mode named `name` to the open profile's list.
    pub fn add_crown_mode(&mut self, name: String) -> (r: Option<Edit>)
        ensures
            final(self)@ == old(self)@.committed(old(self)@.current().push(unassigned(name@))),
            r == if old(self)@.key is Some {
                Some(Edit::Mode)
            } else {
                None
            },
            old(self)@.key is Some ==> {
                &&& final(self)@.current().len() == old(self)@.current().len() + 1
                &&& final(self)@.current().drop_last() == old(self)@.current()
                &&& final(self)@.current().last().name == name@
                &&& final(self)@.current().last().inert()
            },
    {
        let ghost was = self@;
        let mut modes = self.current_crown_modes();
        let ghost before = modes@;
        modes.push(CrownMode { name, rotate_up: None, rotate_down: None, press: None });
        assert(crate::crown_mode::mode_views(modes@) =~= crate::crown_mode::mode_views(
            before,
        ).push(unassigned(name@)));
        proof {
            let more = was.current().push(unassigned(name@));
            if was.key is Some {
                law_an_edit_is_read_back(was, more);
                assert(more.drop_last() =~= was.current());
            }
        }
        self.commit_crown_modes(modes, Edit::Mode)
    }

    /// Drop the mode at `index`, if there is one.
    ///
    /// Removing the last one inside an app profile drops the override, so that
    /// the app inherits the device's list again.
    pub fn remove_crown_mode(&mut self, index: usize) -> (r: Option<Edit>)
        ensures
            index < old(self)@.current().len() ==> {
                &&& final(self)@ == old(self)@.committed(
                    old(self)@.current().remove(index as int),
                )
                &&& r == Some(Edit::Mode)
            },
            index >= old(self)@.current().len() ==> r is None && final(self)@ == old(self)@,
            index < old(self)@.current().len() && (old(self)@.app is None
                || old(self)@.current().len() > 1) ==> {
                &&& final(self)@.current().len() == old(self)@.current().len() - 1
                &&& forall|i: int|
                    0 <= i < final(self)@.current().len() ==> #[trigger] final(self)@.current()[i]
                        == old(self)@.current()[if i < index {
                        i
                    } else {
                        i + 1
                    }]
            },
    {
        let ghost was = self@;
        let mut modes = self.current_crown_modes();
        let ghost before = modes@;
        if index >= modes.len() {
            return None;
        }
        modes.remove(index);
        assert(crate::crown_mode::mode_views(modes@) =~= crate::crown_mode::mode_views(
            before,
        ).remove(index as int));
        proof {
            law_an_edit_is_read_back(was, was.current().remove(index as int));
        }
        self.commit_crown_modes(modes, Edit::Mode)
    }

    /// Rename the mode at `index`. A blank name is refused: the name is the
    /// only thing the on-screen indicator can show for a mode.
    pub fn rename_crown_mode(&mut self, index: usize, name: &str) -> (r: Option<Edit>)
        ensures
            old(self)@.renames(index as int, name@) ==> {
                &&& final(self)@ == old(self)@.committed(
                    old(self)@.current().update(
                        index as int,
                        ModeView {
                            name: crate::text::trimmed(name@),
                            ..old(self)@.current()[index as int]
                        },
                    ),
                )
                &&& r == Some(Edit::ModeName)
            },
            !old(self)@.renames(index as int, name@) ==> r is None && final(self)@ == old(self)@,
            old(self)@.renames(index as int, name@) ==> {
                &&& final(self)@.current().len() == old(self)@.current().len()
                &&& final(self)@.current()[index as int].name == crate::text::trimmed(name@)
                &&& forall|i: int|
                    0 <= i < old(self)@.current().len() && i != index ==> #[trigger] final(self)@.current()[i] == old(self)@.current()[i]
            },
    {
        let ghost was = self@;
        let trimmed = trim(name);
        if trimmed.is_empty() {
            return None;
        }
        let mut modes = self.current_crown_modes();
        let ghost before = modes@;
        if index >= modes.len() {
            return None;
        }
        assert(crate::crown_mode::mode_views(before)[index as int] == before[index as int]@);
        if text_eq(modes[index].name.as_str(), trimmed) {
            return None;
        }
        let renamed = CrownMode {
            name: owned(trimmed),
            rotate_up: modes[index].rotate_up,
            rotate_down: modes[index].rotate_down,
            press: modes[index].press,
        };
        modes.set(index, renamed);
        assert(crate::crown_mode::mode_views(modes@) =~= crate::crown_mode::mode_views(
            before,
        ).update(index as int, renamed@));
        proof {
            law_an_edit_is_read_back(was, was.current().update(index as int, renamed@));
        }
        self.commit_crown_modes(modes, Edit::ModeName)
    }

    /// Set one control inside the mode at `index`, or clear it with `None` so
    /// that the control falls back to its ordinary binding while the mode is
    /// active.
    ///
    /// A control that no mode can own, the tap above all, is ignored rather
    /// than stored.
    pub fn commit_crown_mode_action(
        &mut self,
        index: usize,
        control: ButtonId,
        action: Option<Action>,
    ) -> (r: Option<Edit>)
        ensures
            old(self)@.reassigns(index as int, control, action) ==> {
                &&& final(self)@ == old(self)@.committed(
                    old(self)@.current().update(
                        index as int,
                        assigned(old(self)@.current()[index as int], control, action),
                    ),
                )
                &&& r == Some(Edit::ModeAction)
            },
            !old(self)@.reassigns(index as int, control, action) ==> r is None && final(self)@
                == old(self)@,
            old(self)@.reassigns(index as int, control, action) ==> {
                let before = old(self)@.current();
                let after = final(self)@.current();
                &&& after.len() == before.len()
                &&& after[index as int].assigns(control) == action
                &&& after[index as int].name == before[index as int].name
                &&& forall|other: ButtonId|
                    other != control ==> #[trigger] after[index as int].assigns(other)
                        == before[index as int].assigns(other)
                &&& forall|i: int|
                    0 <= i < before.len() && i != index ==> #[trigger] after[i] == before[i]
            },
    {
        let ghost was = self@;
        let mut modes = self.current_crown_modes();
        let ghost before = modes@;
        if index >= modes.len() {
            return None;
        }
        assert(crate::crown_mode::mode_views(before)[index as int] == before[index as int]@);
        let mut mode: CrownMode = modes[index].clone();
        match control {
            ButtonId::CrownRotateUp => {
                if mode.rotate_up == action {
                    return None;
                }
                mode.rotate_up = action;
            },
            ButtonId::CrownRotateDown => {
                if mode.rotate_down == action {
                    return None;
                }
                mode.rotate_down = action;
            },
            ButtonId::CrownPress => {
                if mode.press == action {
                    return None;
                }
                mode.press = action;
            },
            _ => {
                return None;
            },
        }
        let ghost edited = mode@;
        modes.set(index, mode);
        assert(crate::crown_mode::mode_views(modes@) =~= crate::crown_mode::mode_views(
            before,
        ).update(index as int, edited));
        proof {
            law_an_edit_is_read_back(was, was.current().update(index as int, edited));
        }
        self.commit_crown_modes(modes, Edit::ModeAction)
    }

    /// Drop the open app profile's mode list, so that the app cycles the
    /// device's again. A no-op in the device's own profile.
    pub fn clear_app_crown_modes(&mut self) -> (r: Option<Edit>)
        ensures
            old(self)@.app is Some ==> {
                &&& final(self)@ == old(self)@.committed(Seq::empty())
                &&& r == if old(self)@.key is Some {
                    Some(Edit::ModeOverride)
                } else {
                    None
                }
            },
            old(self)@.app is None ==> r is None && final(self)@ == old(self)@,
            old(self)@.app is Some && old(self)@.key is Some ==> {
                &&& !final(self)@.overridden()
                &&& final(self)@.current() == old(self)@.config.list(old(self)@.key->0)
            },
    {
        proof {
            if self@.app is Some && self@.key is Some {
                law_clearing_an_override_inherits_again(self@);
            }
        }
        if self.app.is_none() {
            return None;
        }
        let none: Vec<CrownMode> = Vec::new();
        assert(crate::crown_mode::mode_views(none@) =~= Seq::empty());
        self.commit_crown_modes(none, Edit::ModeOverride)
    }
}

impl ConfigView {
    /// What the stored lists keep: no application's list is empty, for an
    /// application without modes of its own inherits the device's.
    pub open spec fn well_formed(self) -> bool {
        forall|at: (Seq<char>, Seq<char>)| #[trigger]
            self.overrides.contains_key(at) ==> self.overrides[at].len() > 0
    }
}

/// Every edit keeps the stored lists well formed.
pub proof fn law_no_override_is_ever_empty(state: StateView, modes: Seq<ModeView>)
    requires
        state.config.well_formed(),
    ensures
        state.committed(modes).config.well_formed(),
{
}

/// What is written into the open profile is what that profile then shows; an
/// app profile written an empty list shows the device's.
pub proof fn law_an_edit_is_read_back(state: StateView, modes: Seq<ModeView>)
    requires
        state.key is Some,
    ensures
        state.committed(modes).current() == if state.app is Some && modes.len() == 0 {
            state.config.list(state.key->0)
        } else {
            modes
        },
        state.committed(modes).overridden() == (state.app is Some && modes.len() > 0),
{
}

/// An edit touches the open profile alone: inside an app profile neither the
/// device's list nor any other override changes, and in the device's profile
/// no override and no other device's list does.
pub proof fn law_an_edit_touches_only_the_open_profile(
    state: StateView,
    modes: Seq<ModeView>,
    key: Seq<char>,
    app: Seq<char>,
)
    ensures
        state.app is Some || state.key != Some(key) ==> state.committed(modes).config.list(key)
            == state.config.list(key),
        (state.key, state.app) != (Some(key), Some(app)) ==> {
            &&& state.committed(modes).config.overrides.contains_key((key, app))
                == state.config.overrides.contains_key((key, app))
            &&& state.config.overrides.contains_key((key, app)) ==> state.committed(
                modes,
            ).config.overrides[(key, app)] == state.config.overrides[(key, app)]
        },
{
}

/// The first edit inside an app profile forks the device's list: what shows is
/// what showed before with the edit on top, and the device's list stays.
pub proof fn law_the_first_app_edit_forks_the_device_list(state: StateView, added: ModeView)
    requires
        state.key is Some,
        state.app is Some,
        !state.overridden(),
    ensures
        state.committed(state.current().push(added)).current() == state.config.list(
            state.key->0,
        ).push(added),
        state.committed(state.current().push(added)).config.list(state.key->0)
            == state.config.list(state.key->0),
        state.committed(state.current().push(added)).overridden(),
{
    law_an_edit_is_read_back(state, state.current().push(added));
}

/// Removing a mode that was just added shows the list from before.
pub proof fn law_removing_an_added_mode_restores_the_list(state: StateView, added: ModeView)
    requires
        state.config.well_formed(),
        state.key is Some,
    ensures
        ({
            let more = state.committed(state.current().push(added));
            let back = more.committed(more.current().remove(state.current().len() as int));
            back.current() == state.current()
        }),
{
    let more = state.committed(state.current().push(added));
    law_an_edit_is_read_back(state, state.current().push(added));
    let left = more.current().remove(state.current().len() as int);
    assert(left =~= state.current());
    law_an_edit_is_read_back(more, left);
    if state.app is Some && left.len() == 0 {
        assert(!state.overridden());
        law_an_edit_touches_only_the_open_profile(
            state,
            state.current().push(added),
            state.key->0,
            state.app->0,
        );
    }
}

/// Clearing an app profile's list leaves it with the device's.
pub proof fn law_clearing_an_override_inherits_again(state: StateView)
    requires
        state.key is Some,
        state.app is Some,
    ensures
        !state.committed(Seq::empty()).overridden(),
        state.committed(Seq::empty()).current() == state.config.list(state.key->0),
{
    law_an_edit_is_read_back(state, Seq::empty());
}

/// No edit stores an action for the tap: it is what cycles modes.
pub proof fn law_the_tap_is_never_stored(
    state: StateView,
    index: int,
    action: Option<Action>,
    mode: ModeView,
)
    ensures
        !state.reassigns(index, ButtonId::CrownTap, action),
        assigned(mode, ButtonId::CrownTap, action) == mode,
{
}

/// Assigning an action gives just that control just that action: what the
/// mode assigns to every other control, and its name, stay.
pub proof fn law_an_assignment_is_for_its_own_control(
    mode: ModeView,
    control: ButtonId,
    action: Option<Action>,
    other: ButtonId,
)
    ensures
        control == ButtonId::CrownRotateUp || control == ButtonId::CrownRotateDown || control
            == ButtonId::CrownPress ==> assigned(mode, control, action).assigns(control) == action,
        other != control ==> assigned(mode, control, action).assigns(other) == mode.assigns(other),
        assigned(mode, control, action).name == mode.name,
{
}

/// Two assignments to different controls can be made in either order, and of
/// two to one control the later counts.
pub proof fn law_assignments_do_not_interfere(
    mode: ModeView,
    a: ButtonId,
    first: Option<Action>,
    b: ButtonId,
    second: Option<Action>,
)
    ensures
        a != b ==> assigned(assigned(mode, a, first), b, second) == assigned(
            assigned(mode, b, second),
            a,
            first,
        ),
        assigned(assigned(mode, a, first), a, second) == assigned(mode, a, second),
{
}

/// A new mode bears its name and assigns nothing.
pub proof fn law_a_new_mode_assigns_nothing(name: Seq<char>, control: ButtonId)
    ensures
        unassigned(name).name == name,
        unassigned(name).assigns(control) is None,
        unassigned(name).inert(),
{
}

/// What an open profile shows: nothing without a device, an application's own
/// list where it has one, and else the device's. Only an application's own
/// list counts as an override.
pub proof fn law_what_a_profile_shows(state: StateView)
    ensures
        state.key is None ==> state.current().len() == 0 && !state.overridden(),
        state.app is None ==> !state.overridden(),
        state.key matches Some(key) ==> {
            let own = if state.config.lists.contains_key(key) {
                state.config.lists[key]
            } else {
                Seq::<ModeView>::empty()
            };
            match state.app {
                None => state.current() == own,
                Some(app) => {
                    &&& state.overridden() == state.config.overrides.contains_key((key, app))
                    &&& state.config.overrides.contains_key((key, app)) ==> state.current()
                        == state.config.overrides[(key, app)]
                    &&& !state.config.overrides.contains_key((key, app)) ==> state.current() == own
                },
            }
        },
{
}

/// An edit changes neither which device nor which profile is open, and without
/// a device it changes nothing.
pub proof fn law_an_edit_stays_where_it_is(state: StateView, modes: Seq<ModeView>)
    ensures
        state.committed(modes).key == state.key,
        state.committed(modes).app == state.app,
        state.key is None ==> state.committed(modes) == state,
{
}

/// An action is stored just where it changes something: for a mode there is,
/// for a control a mode may own, and if it is another action than before.
pub proof fn law_when_an_action_is_stored(
    state: StateView,
    index: int,
    control: ButtonId,
    action: Option<Action>,
)
    requires
        0 <= index,
    ensures
        state.reassigns(index, control, action) <==> {
            &&& index < state.current().len()
            &&& {
                ||| control == ButtonId::CrownRotateUp && state.current()[index].rotate_up
                    != action
                ||| control == ButtonId::CrownRotateDown && state.current()[index].rotate_down
                    != action
                ||| control == ButtonId::CrownPress && state.current()[index].press != action
            }
        },
{
}

/// A stored action is read back: the profile then shows the same modes in the
/// same order, of which just that one assigns just that control another action.
pub proof fn law_a_stored_action_is_read_back(
    state: StateView,
    index: int,
    control: ButtonId,
    action: Option<Action>,
    i: int,
    other: ButtonId,
)
    requires
        state.key is Some,
        0 <= index,
        state.reassigns(index, control, action),
        0 <= i < state.current().len(),
    ensures
        ({
            let before = state.current();
            let after = state.committed(
                before.update(index, assigned(before[index], control, action)),
            ).current();
            &&& after.len() == before.len()
            &&& after[index].assigns(control) == action
            &&& after[i].name == before[i].name
            &&& i != index || other != control ==> after[i].assigns(other) == before[i].assigns(
                other,
            )
        }),
{
    let before = state.current();
    law_an_edit_is_read_back(
        state,
        before.update(index, assigned(before[index], control, action)),
    );
}

/// A mode is renamed just where that changes something: for a mode there is,
/// to a name that is not blank, and if it is another name than before.
pub proof fn law_when_a_mode_is_renamed(state: StateView, index: int, name: Seq<char>)
    requires
        0 <= index,
    ensures
        state.renames(index, name) <==> {
            &&& index < state.current().len()
            &&& exists|k: int|
                0 <= k < name.len() && !crate::text::is_white_space(#[trigger] name[k])
            &&& state.current()[index].name != crate::text::trimmed(name)
        },
{
    crate::text::law_only_a_blank_text_trims_to_nothing(name);
}

/// A new name is read back: the profile then shows the same modes in the same
/// order, of which just that one bears just another name.
pub proof fn law_a_new_name_is_read_back(state: StateView, index: int, name: Seq<char>, i: int)
    requires
        state.key is Some,
        0 <= index,
        state.renames(index, name),
        0 <= i < state.current().len(),
    ensures
        ({
            let before = state.current();
            let renamed = ModeView { name: crate::text::trimmed(name), ..before[index] };
            let after = state.committed(before.update(index, renamed)).current();
            &&& after.len() == before.len()
            &&& after[index].name == crate::text::trimmed(name)
            &&& i != index ==> after[i] == before[i]
            &&& forall|c: ButtonId| #[trigger] after[i].assigns(c) == before[i].assigns(c)
        }),
{
    let before = state.current();
    let renamed = ModeView { name: crate::text::trimmed(name), ..before[index] };
    law_an_edit_is_read_back(state, before.update(index, renamed));
}

/// An added mode is read back at the end of the list, behind the modes there
/// were; a removed one is gone, and the others close up in order. The last of
/// an application's modes gone, the device's show.
pub proof fn law_an_added_or_removed_mode_is_read_back(
    state: StateView,
    name: Seq<char>,
    index: int,
    i: int,
)
    requires
        state.key is Some,
        0 <= i < state.current().len(),
    ensures
        ({
            let before = state.current();
            let more = state.committed(before.push(unassigned(name))).current();
            &&& more.len() == before.len() + 1
            &&& more.last().name == name
            &&& more.last().inert()
            &&& more[i] == before[i]
        }),
        0 <= index < state.current().len() && (state.app is None || state.current().len() > 1) ==> {
            let before = state.current();
            let less = state.committed(before.remove(index)).current();
            &&& less.len() == before.len() - 1
            &&& i < index ==> less[i] == before[i]
            &&& i > index ==> less[i - 1] == before[i]
        },
        state.app is Some && state.current().len() == 1 ==> !state.committed(
            state.current().remove(0),
        ).overridden(),
{
    let before = state.current();
    law_an_edit_is_read_back(state, before.push(unassigned(name)));
    if 0 <= index < before.len() {
        law_an_edit_is_read_back(state, before.remove(index));
    }
    if before.len() == 1 {
        law_an_edit_is_read_back(state, before.remove(0));
    }
}

} // verus!
