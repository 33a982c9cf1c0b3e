//! Installed applications, as the profile picker offers them: which identity
//! an application is keyed on, which applications are on offer and in what
//! order, and which of their icons are known.

use vstd::prelude::*;

use crate::string_map::StringMap;
use crate::text::{comes_before, contains_text, text_eq, to_lowercase};

verus! {

/// The namespace of an application identity.
#[derive(Debug, Clone, Copy, PartialEq, Eq, Structural)]
pub enum IdentityKind {
    /// A macOS application bundle identifier.
    MacBundleIdentifier,
    /// A freedesktop desktop-file ID.
    LinuxDesktopId,
    /// An X11 `WM_CLASS` class value.
    LinuxStartupWmClass,
    /// A Wayland application ID.
    LinuxWaylandAppId,
    /// A lower-cased absolute Windows executable path.
    WindowsExecutablePath,
    /// A lower-cased Windows executable file name.
    WindowsExecutableName,
    /// Any other namespace.
    Other,
}

/// One application identity in its namespace.
#[derive(Debug, PartialEq, Eq)]
pub struct ApplicationIdentity {
    kind: IdentityKind,
    value: String,
}

/// One application identity in its namespace.
pub struct IdentityView {
    /// The namespace.
    pub kind: IdentityKind,
    /// The identity.
    pub value: Seq<char>,
}

impl View for ApplicationIdentity {
    type V = IdentityView;

    closed spec fn view(&self) -> IdentityView {
        IdentityView { kind: self.kind, value: self.value@ }
    }
}

impl ApplicationIdentity {
    /// An identity in its namespace.
    pub fn new(kind: IdentityKind, value: &str) -> (r: Self)
        ensures
            r@ == (IdentityView { kind, value: value@ }),
    {
        ApplicationIdentity { kind, value: value.to_owned() }
    }

    /// The identity's namespace.
    pub fn kind(&self) -> (r: IdentityKind)
        ensures
            r == self@.kind,
    {
        self.kind
    }

    /// The identity itself.
    pub fn value(&self) -> (r: &str)
        ensures
            r@ == self@.value,
    {
        self.value.as_str()
    }
}

/// The namespace an application was observed in: that of its first identity.
pub fn runtime_kind(identities: &Vec<ApplicationIdentity>) -> (r: Option<IdentityKind>)
    ensures
        r == if identities@.len() > 0 {
            Some(identities@[0]@.kind)
        } else {
            None
        },
{
    if identities.len() > 0 {
        Some(identities[0].kind())
    } else {
        None
    }
}

/// One installed application.
#[derive(Debug, PartialEq, Eq)]
pub struct Application {
    /// Its display name.
    pub name: String,
    /// The identities that may match it while it runs, best first.
    pub identities: Vec<ApplicationIdentity>,
}

/// One installed application.
pub struct AppView {
    /// Its display name.
    pub name: Seq<char>,
    /// Its identities, best first.
    pub identities: Seq<IdentityView>,
}

impl View for Application {
    type V = AppView;

    open spec fn view(&self) -> AppView {
        AppView {
            name: self.name@,
            identities: self.identities@.map_values(|identity: ApplicationIdentity| identity@),
        }
    }
}

/// The platform an application is installed on.
#[derive(Debug, Clone, Copy, PartialEq, Eq, Structural)]
pub enum Platform {
    /// macOS.
    MacOs,
    /// Windows.
    Windows,
    /// Linux.
    Linux,
}

/// The texts in a list.
pub open spec fn text_set(texts: Seq<String>) -> Set<Seq<char>> {
    Set::new(
        |text: Seq<char>|
            exists|i: int| 0 <= i < texts.len() && (#[trigger] texts[i])@ == text,
    )
}

/// Whether a list holds a text.
pub fn holds_text(texts: &Vec<String>, text: &str) -> (r: bool)
    ensures
        r == text_set(texts@).contains(text@),
{
    let mut i: usize = 0;
    while i < texts.len()
        invariant
            i <= texts@.len(),
            forall|k: int| 0 <= k < i ==> (#[trigger] texts@[k])@ != text@,
        decreases texts@.len() - i,
    {
        if text_eq(texts[i].as_str(), text) {
            assert(texts@[i as int]@ == text@);
            return true;
        }
        i += 1;
    }
    false
}

/// The first identity that has been observed running.
pub open spec fn first_observed(
    identities: Seq<IdentityView>,
    observed: Set<Seq<char>>,
) -> Option<Seq<char>>
    decreases identities.len(),
{
    if identities.len() == 0 {
        None
    } else if observed.contains(identities[0].value) {
        Some(identities[0].value)
    } else {
        first_observed(identities.drop_first(), observed)
    }
}

/// The first identity of a namespace.
pub open spec fn first_of_kind(identities: Seq<IdentityView>, kind: IdentityKind) -> Option<
    Seq<char>,
>
    decreases identities.len(),
{
    if identities.len() == 0 {
        None
    } else if identities[0].kind == kind {
        Some(identities[0].value)
    } else {
        first_of_kind(identities.drop_first(), kind)
    }
}

/// The identity an application that has not been observed is keyed on.
pub open spec fn unobserved_key(
    identities: Seq<IdentityView>,
    preferred: IdentityKind,
    platform: Platform,
) -> Option<Seq<char>> {
    let executable = first_of_kind(identities, IdentityKind::WindowsExecutableName);
    let exact = first_of_kind(identities, preferred);
    if platform == Platform::Windows && executable is Some {
        Some("exe:"@ + executable->0)
    } else if exact is None && preferred == IdentityKind::LinuxStartupWmClass {
        first_of_kind(identities, IdentityKind::LinuxDesktopId)
    } else {
        exact
    }
}

/// The identity an application is keyed on: one it was observed running under
/// before all others.
pub open spec fn profile_key(
    application: AppView,
    observed: Set<Seq<char>>,
    preferred: IdentityKind,
    platform: Platform,
) -> Option<Seq<char>> {
    match first_observed(application.identities, observed) {
        Some(value) => Some(value),
        None => unobserved_key(application.identities, preferred, platform),
    }
}

spec fn views(identities: Seq<ApplicationIdentity>) -> Seq<IdentityView> {
    identities.map_values(|identity: ApplicationIdentity| identity@)
}

fn find_observed(identities: &Vec<ApplicationIdentity>, observed: &Vec<String>) -> (r: Option<
    String,
>)
    ensures
        crate::text::optional_text(r) == first_observed(
            views(identities@),
            text_set(observed@),
        ),
{
    let ghost all = views(identities@);
    let ghost seen = text_set(observed@);
    let mut i: usize = 0;
    assert(all.skip(0) =~= all);
    while i < identities.len()
        invariant
            all == views(identities@),
            seen == text_set(observed@),
            i <= identities@.len(),
            first_observed(all, seen) == first_observed(all.skip(i as int), seen),
        decreases identities@.len() - i,
    {
        assert(all.skip(i as int)[0] == identities@[i as int]@);
        assert(all.skip(i as int).drop_first() =~= all.skip(i + 1));
        if holds_text(observed, identities[i].value()) {
            return Some(identities[i].value().to_owned());
        }
        i += 1;
    }
    None
}

fn find_kind(identities: &Vec<ApplicationIdentity>, kind: IdentityKind) -> (r: Option<&str>)
    ensures
        match r {
            Some(value) => first_of_kind(views(identities@), kind) == Some(value@),
            None => first_of_kind(views(identities@), kind) is None,
        },
{
    let ghost all = views(identities@);
    let mut i: usize = 0;
    assert(all.skip(0) =~= all);
    while i < identities.len()
        invariant
            all == views(identities@),
            i <= identities@.len(),
            first_of_kind(all, kind) == first_of_kind(all.skip(i as int), kind),
        decreases identities@.len() - i,
    {
        assert(all.skip(i as int)[0] == identities@[i as int]@);
        assert(all.skip(i as int).drop_first() =~= all.skip(i + 1));
        if identities[i].kind() == kind {
            return Some(identities[i].value());
        }
        i += 1;
    }
    None
}

/// The identity a profile for `application` is keyed on, if it has any that
/// can be.
///
/// An application that has been observed keeps its exact runtime identity. On
/// Windows one that has not is keyed on `exe:` and its file name, for a
/// catalog path comes from a shortcut and need not be the path the process
/// runs under. An X11 class is optional in desktop files, so there the desktop
/// ID stands in for it.
pub fn identity_for_application(
    application: &Application,
    observed: &Vec<String>,
    preferred: IdentityKind,
    platform: Platform,
) -> (r: Option<String>)
    ensures
        crate::text::optional_text(r) == profile_key(
            application@,
            text_set(observed@),
            preferred,
            platform,
        ),
{
    if let Some(value) = find_observed(&application.identities, observed) {
        return Some(value);
    }
    if platform == Platform::Windows {
        if let Some(name) = find_kind(
            &application.identities,
            IdentityKind::WindowsExecutableName,
        ) {
            let mut key = "exe:".to_owned();
            key.append(name);
            return Some(key);
        }
    }
    match find_kind(&application.identities, preferred) {
        Some(value) => Some(value.to_owned()),
        None => {
            if preferred == IdentityKind::LinuxStartupWmClass {
                match find_kind(&application.identities, IdentityKind::LinuxDesktopId) {
                    Some(value) => Some(value.to_owned()),
                    None => None,
                }
            } else {
                None
            }
        },
    }
}

/// What a Linux session says about itself.
#[derive(Debug)]
pub struct LinuxSession {
    /// The desktop's name; empty when it is not given.
    pub desktop: String,
    /// The session's type, if it is given.
    pub session_type: Option<String>,
    /// Whether a Wayland display is named.
    pub wayland_display: bool,
}

/// Whether a session is an X11 one.
pub open spec fn is_x11(session: LinuxSession) -> bool {
    crate::text::optional_text(session.session_type) == Some("x11"@)
        || !session.wayland_display
}

/// The namespace a Linux desktop reports its running applications in, from the
/// desktop's lower-cased name.
pub open spec fn linux_kind(
    runtime: Option<IdentityKind>,
    desktop: Seq<char>,
    x11: bool,
) -> IdentityKind {
    if runtime == Some(IdentityKind::LinuxStartupWmClass) || runtime == Some(
        IdentityKind::LinuxWaylandAppId,
    ) {
        runtime->0
    } else if x11 || crate::text::occurs(desktop, "gnome"@) {
        IdentityKind::LinuxStartupWmClass
    } else {
        IdentityKind::LinuxWaylandAppId
    }
}

/// The namespace a platform reports its running applications in.
pub open spec fn platform_kind(
    platform: Platform,
    runtime: Option<IdentityKind>,
    desktop: Seq<char>,
    x11: bool,
) -> IdentityKind {
    match platform {
        Platform::MacOs => IdentityKind::MacBundleIdentifier,
        Platform::Windows => IdentityKind::WindowsExecutablePath,
        Platform::Linux => linux_kind(runtime, desktop, x11),
    }
}

/// The namespace a Linux desktop reports its running applications in: the one
/// an observation came in, if there was one, and else what the session is
/// known for.
pub fn linux_identity_kind(runtime: Option<IdentityKind>, desktop: &str, x11: bool) -> (r:
    IdentityKind)
    ensures
        r == linux_kind(runtime, desktop@, x11),
{
    match runtime {
        Some(IdentityKind::LinuxStartupWmClass) => IdentityKind::LinuxStartupWmClass,
        Some(IdentityKind::LinuxWaylandAppId) => IdentityKind::LinuxWaylandAppId,
        _ => {
            if x11 || contains_text(desktop, "gnome") {
                IdentityKind::LinuxStartupWmClass
            } else {
                IdentityKind::LinuxWaylandAppId
            }
        },
    }
}

/// The namespace in which an application that has not been observed is best
/// keyed.
pub fn preferred_identity_kind(
    platform: Platform,
    runtime: Option<IdentityKind>,
    session: &LinuxSession,
) -> (r: IdentityKind)
    ensures
        r == platform_kind(
            platform,
            runtime,
            crate::text::lowercase(session.desktop@),
            is_x11(*session),
        ),
{
    match platform {
        Platform::MacOs => IdentityKind::MacBundleIdentifier,
        Platform::Windows => IdentityKind::WindowsExecutablePath,
        Platform::Linux => {
            let x11: bool = match &session.session_type {
                Some(kind) => text_eq(kind.as_str(), "x11") || !session.wayland_display,
                None => !session.wayland_display,
            };
            let desktop = to_lowercase(session.desktop.as_str());
            linux_identity_kind(runtime, desktop.as_str(), x11)
        },
    }
}

/// One application the picker offers a profile for.
#[derive(Debug, PartialEq, Eq)]
pub struct ProfileChoice {
    /// The identity the profile is keyed on.
    pub app: String,
    /// The application's name.
    pub name: String,
    /// How many overrides the profile holds.
    pub override_count: usize,
    /// Whether the profile is stored.
    pub persisted: bool,
}

/// One application the picker offers a profile for.
pub struct ChoiceView {
    /// The identity the profile is keyed on.
    pub app: Seq<char>,
    /// The application's name.
    pub name: Seq<char>,
    /// How many overrides the profile holds.
    pub override_count: usize,
    /// Whether the profile is stored.
    pub persisted: bool,
}

impl View for ProfileChoice {
    type V = ChoiceView;

    open spec fn view(&self) -> ChoiceView {
        ChoiceView {
            app: self.app@,
            name: self.name@,
            override_count: self.override_count,
            persisted: self.persisted,
        }
    }
}

/// A choice with the key it is sorted by.
#[derive(Debug)]
pub struct KeyedChoice {
    /// The key.
    pub key: String,
    /// The choice.
    pub choice: ProfileChoice,
}

/// A choice with the key it is sorted by.
pub struct KeyedView {
    /// The key.
    pub key: Seq<char>,
    /// The choice.
    pub choice: ChoiceView,
}

impl View for KeyedChoice {
    type V = KeyedView;

    open spec fn view(&self) -> KeyedView {
        KeyedView { key: self.key@, choice: self.choice@ }
    }
}

impl KeyedView {
    /// Whether this choice goes before another: by key, and by application
    /// among equal keys.
    pub open spec fn before(self, other: KeyedView) -> bool {
        ||| crate::text::text_before(self.key, other.key)
        ||| self.key == other.key && crate::text::text_before(self.choice.app, other.choice.app)
    }
}

/// What a list of keyed choices is.
pub open spec fn keyed_views(entries: Seq<KeyedChoice>) -> Seq<KeyedView> {
    entries.map_values(|entry: KeyedChoice| entry@)
}

/// What a list of choices is.
pub open spec fn choice_views(choices: Seq<ProfileChoice>) -> Seq<ChoiceView> {
    choices.map_values(|choice: ProfileChoice| choice@)
}

/// Whether no choice stands after one it goes before.
pub open spec fn in_order(entries: Seq<KeyedView>) -> bool {
    forall|i: int, j: int|
        0 <= i < j < entries.len() ==> !(#[trigger] entries[j]).before(#[trigger] entries[i])
}

proof fn lemma_before_is_transitive(a: KeyedView, b: KeyedView, c: KeyedView)
    requires
        !b.before(a),
        !c.before(b),
    ensures
        !c.before(a),
{
    if c.before(a) {
        crate::text::text_order_is_total(a.key, b.key);
        crate::text::text_order_is_total(b.key, c.key);
        crate::text::text_order_is_strict(a.key, c.key);
        crate::text::text_order_is_strict(a.key, b.key);
        crate::text::text_order_is_strict(b.key, c.key);
        if a.key == b.key && b.key == c.key {
            crate::text::text_order_is_total(a.choice.app, b.choice.app);
            crate::text::text_order_is_total(b.choice.app, c.choice.app);
            crate::text::text_order_is_strict(a.choice.app, c.choice.app);
            if a.choice.app != b.choice.app && b.choice.app != c.choice.app {
                crate::text::text_order_is_transitive(
                    a.choice.app,
                    b.choice.app,
                    c.choice.app,
                );
            }
        } else if a.key != b.key && b.key != c.key {
            crate::text::text_order_is_transitive(a.key, b.key, c.key);
        }
    }
}

proof fn lemma_before_is_strict(a: KeyedView, b: KeyedView)
    ensures
        !(a.before(b) && b.before(a)),
{
    crate::text::text_order_is_strict(a.key, b.key);
    crate::text::text_order_is_strict(a.choice.app, b.choice.app);
}

fn goes_before(a: &KeyedChoice, b: &KeyedChoice) -> (r: bool)
    ensures
        r == a@.before(b@),
{
    comes_before(a.key.as_str(), b.key.as_str()) || (text_eq(a.key.as_str(), b.key.as_str())
        && comes_before(a.choice.app.as_str(), b.choice.app.as_str()))
}

fn insert_in_order(sorted: &mut Vec<KeyedChoice>, entry: KeyedChoice)
    requires
        in_order(keyed_views(old(sorted)@)),
    ensures
        in_order(keyed_views(final(sorted)@)),
        keyed_views(final(sorted)@).to_multiset() == keyed_views(
            old(sorted)@,
        ).to_multiset().insert(entry@),
{
    let ghost before = keyed_views(sorted@);
    let mut at: usize = sorted.len();
    while at > 0 && goes_before(&entry, &sorted[at - 1])
        invariant
            at <= sorted@.len(),
            before == keyed_views(sorted@),
            forall|k: int| at <= k < before.len() ==> entry@.before(#[trigger] before[k]),
        decreases at,
    {
        at -= 1;
    }
    sorted.insert(at, entry);
    proof {
        let after = keyed_views(sorted@);
        assert(after =~= before.insert(at as int, entry@));
        vstd::seq_lib::to_multiset_insert(before, at as int, entry@);
        assert forall|i: int, j: int| 0 <= i < j < after.len() implies !(
        #[trigger] after[j]).before(#[trigger] after[i]) by {
            if i < at && j == at {
                if i < at - 1 {
                    assert(!before[at - 1].before(before[i]));
                    lemma_before_is_transitive(before[i], before[at - 1], entry@);
                }
            } else if i == at {
                assert(after[j] == before[j - 1]);
                lemma_before_is_strict(entry@, before[j - 1]);
            } else if i < at && j > at {
                assert(after[j] == before[j - 1]);
            } else if i > at {
                assert(after[j] == before[j - 1] && after[i] == before[i - 1]);
            }
        }
    }
}

/// Sort choices by key, and by application among equal keys.
pub fn sort_choices(entries: Vec<KeyedChoice>) -> (r: Vec<KeyedChoice>)
    ensures
        in_order(keyed_views(r@)),
        keyed_views(r@).to_multiset() == keyed_views(entries@).to_multiset(),
{
    let ghost all = entries@;
    let mut sorted: Vec<KeyedChoice> = Vec::new();
    assert(keyed_views(sorted@) =~= keyed_views(all.take(0)));
    for entry in it: entries
        invariant
            it.seq() == all,
            in_order(keyed_views(sorted@)),
            keyed_views(sorted@).to_multiset() == keyed_views(
                all.take(it.index() as int),
            ).to_multiset(),
    {
        let ghost n = it.index() as int;
        insert_in_order(&mut sorted, entry);
        proof {
            assert(keyed_views(all.take(n + 1)) =~= keyed_views(all.take(n)).push(entry@));
            vstd::seq_lib::to_multiset_build(keyed_views(all.take(n)), entry@);
        }
    }
    assert(all.take(all.len() as int) =~= all);
    sorted
}

/// Whether one of the choices is keyed on `app`.
pub open spec fn offers(choices: Seq<ChoiceView>, app: Seq<char>) -> bool {
    exists|i: int| 0 <= i < choices.len() && (#[trigger] choices[i]).app == app
}

/// The choices that a list of applications makes, in the catalog's order: one
/// per application that can be keyed, is not taken, and is not offered yet.
pub open spec fn offered(
    applications: Seq<AppView>,
    observed: Set<Seq<char>>,
    unavailable: Set<Seq<char>>,
    preferred: IdentityKind,
    platform: Platform,
) -> Seq<ChoiceView>
    decreases applications.len(),
{
    if applications.len() == 0 {
        Seq::empty()
    } else {
        let sooner = offered(
            applications.drop_last(),
            observed,
            unavailable,
            preferred,
            platform,
        );
        let last = applications.last();
        match profile_key(last, observed, preferred, platform) {
            Some(app) => if unavailable.contains(app) || offers(sooner, app) {
                sooner
            } else {
                sooner.push(
                    ChoiceView { app, name: last.name, override_count: 0, persisted: false },
                )
            },
            None => sooner,
        }
    }
}

/// No two choices are keyed on the same application.
proof fn lemma_offered_apps_differ(
    applications: Seq<AppView>,
    observed: Set<Seq<char>>,
    unavailable: Set<Seq<char>>,
    preferred: IdentityKind,
    platform: Platform,
)
    ensures
        ({
            let choices = offered(applications, observed, unavailable, preferred, platform);
            forall|i: int, j: int|
                0 <= i < j < choices.len() ==> (#[trigger] choices[i]).app != (
                #[trigger] choices[j]).app
        }),
    decreases applications.len(),
{
    if applications.len() > 0 {
        lemma_offered_apps_differ(
            applications.drop_last(),
            observed,
            unavailable,
            preferred,
            platform,
        );
        let sooner = offered(
            applications.drop_last(),
            observed,
            unavailable,
            preferred,
            platform,
        );
        let choices = offered(applications, observed, unavailable, preferred, platform);
        assert forall|i: int, j: int| 0 <= i < j < choices.len() implies (
        #[trigger] choices[i]).app != (#[trigger] choices[j]).app by {
            assert(choices[i] == sooner[i]);
            if j == sooner.len() {
                assert(!offers(sooner, choices[j].app));
            } else {
                assert(choices[j] == sooner[j]);
            }
        }
    }
}

fn is_offered(entries: &Vec<KeyedChoice>, app: &str) -> (r: bool)
    ensures
        r == exists|i: int| 0 <= i < entries@.len() && (#[trigger] entries@[i]).choice.app@ == app@,
{
    let mut i: usize = 0;
    while i < entries.len()
        invariant
            i <= entries@.len(),
            forall|k: int| 0 <= k < i ==> (#[trigger] entries@[k]).choice.app@ != app@,
        decreases entries@.len() - i,
    {
        if text_eq(entries[i].choice.app.as_str(), app) {
            assert(entries@[i as int].choice.app@ == app@);
            return true;
        }
        i += 1;
    }
    false
}

/// A choice with its lower-cased name as key.
pub open spec fn keyed(choice: ChoiceView) -> KeyedView {
    KeyedView { key: crate::text::lowercase(choice.name), choice }
}

/// What a list of applications is.
pub open spec fn app_views(applications: Seq<Application>) -> Seq<AppView> {
    applications.map_values(|application: Application| application@)
}

/// The choices on offer, in the catalog's order, each with its lower-cased
/// name as key.
fn collect_choices(
    applications: &Vec<Application>,
    observed: &Vec<String>,
    unavailable: &Vec<String>,
    preferred: IdentityKind,
    platform: Platform,
) -> (r: Vec<KeyedChoice>)
    ensures
        keyed_views(r@) == offered(
            app_views(applications@),
            text_set(observed@),
            text_set(unavailable@),
            preferred,
            platform,
        ).map_values(|choice: ChoiceView| keyed(choice)),
{
    let ghost all = app_views(applications@);
    let ghost seen = text_set(observed@);
    let ghost taken = text_set(unavailable@);
    let mut entries: Vec<KeyedChoice> = Vec::new();
    let mut i: usize = 0;
    proof {
        assert(all.take(0) =~= Seq::empty());
        assert(keyed_views(entries@) =~= offered(
            all.take(0),
            seen,
            taken,
            preferred,
            platform,
        ).map_values(|choice: ChoiceView| keyed(choice)));
    }
    while i < applications.len()
        invariant
            all == app_views(applications@),
            seen == text_set(observed@),
            taken == text_set(unavailable@),
            i <= applications@.len(),
            keyed_views(entries@) == offered(
                all.take(i as int),
                seen,
                taken,
                preferred,
                platform,
            ).map_values(|choice: ChoiceView| keyed(choice)),
        decreases applications@.len() - i,
    {
        let application = &applications[i];
        let ghost sooner = offered(all.take(i as int), seen, taken, preferred, platform);
        let ghost before = entries@;
        proof {
            assert(all.take(i + 1).drop_last() =~= all.take(i as int));
            assert(all.take(i + 1).last() == application@);
            assert(keyed_views(before).len() == sooner.len());
            assert forall|k: int| 0 <= k < before.len() implies (
            #[trigger] before[k]).choice@ == sooner[k] by {
                assert(keyed_views(before)[k] == keyed(sooner[k]));
            }
        }
        match identity_for_application(application, observed, preferred, platform) {
            Some(app) => {
                let repeated: bool = is_offered(&entries, app.as_str());
                proof {
                    assert(repeated == offers(sooner, app@)) by {
                        if repeated {
                            let k = choose|k: int|
                                0 <= k < before.len() && (#[trigger] before[k]).choice.app@ == app@;
                            assert(sooner[k].app == app@);
                        }
                        if offers(sooner, app@) {
                            let k = choose|k: int|
                                0 <= k < sooner.len() && (#[trigger] sooner[k]).app == app@;
                            assert(before[k].choice@ == sooner[k]);
                        }
                    }
                }
                if !holds_text(unavailable, app.as_str()) && !repeated {
                    let key = to_lowercase(application.name.as_str());
                    let choice = ProfileChoice {
                        app,
                        name: application.name.clone(),
                        override_count: 0,
                        persisted: false,
                    };
                    let ghost added = choice@;
                    entries.push(KeyedChoice { key, choice });
                    proof {
                        let want = sooner.push(added).map_values(
                            |choice: ChoiceView| keyed(choice),
                        );
                        assert forall|k: int| 0 <= k < want.len() implies want[k] == keyed_views(
                            entries@,
                        )[k] by {
                            if k < sooner.len() {
                                assert(keyed_views(before)[k] == keyed(sooner[k]));
                            }
                        }
                        assert(keyed_views(entries@) =~= want);
                    }
                }
            },
            None => {},
        }
        i += 1;
    }
    assert(all.take(all.len() as int) =~= all);
    entries
}

/// The catalog as it is to be presented.
#[derive(Debug, PartialEq, Eq)]
pub enum CatalogPresentation {
    /// Still being discovered.
    Loading,
    /// The choices on offer, sorted.
    Ready(Vec<ProfileChoice>),
    /// It could not be discovered.
    Failed,
}

/// Whether `shown` is what `choices` look like sorted: the same choices, each
/// going before all that follow it.
pub open spec fn sorted_form(shown: Seq<ChoiceView>, choices: Seq<ChoiceView>) -> bool {
    &&& shown.len() == choices.len()
    &&& forall|choice: ChoiceView| shown.contains(choice) <==> choices.contains(choice)
    &&& forall|i: int, j: int|
        0 <= i < j < shown.len() ==> keyed(#[trigger] shown[i]).before(keyed(#[trigger] shown[j]))
}

/// The icons looked up so far. It only ever holds finished lookups, so a miss
/// shows a stand-in until the icon lands. Icons do not change while the program
/// runs, so one picker's store is handed on to the next:
/// [`AppCatalogPicker::into_icons`].
#[derive(Debug)]
pub struct ProfileIconCache<I> {
    icons: StringMap<Option<I>>,
}

impl<I> View for ProfileIconCache<I> {
    type V = Map<Seq<char>, Option<I>>;

    closed spec fn view(&self) -> Map<Seq<char>, Option<I>> {
        self.icons@
    }
}

impl<I> Default for ProfileIconCache<I> {
    fn default() -> (r: Self)
        ensures
            r@ == Map::<Seq<char>, Option<I>>::empty(),
    {
        ProfileIconCache::new()
    }
}

/// One application's icon as it stands right now. The two states without an
/// icon differ, so that a lookup in flight does not look like an icon that is
/// missing for good.
#[derive(Debug, PartialEq, Eq)]
pub enum AppIconState<'a, I> {
    /// The icon.
    Ready(&'a I),
    /// Not looked up yet.
    Loading,
    /// Looked up, and there is none.
    Missing,
}

/// One application's icon as it stands.
pub enum IconState<I> {
    /// The icon.
    Ready(I),
    /// Not looked up yet.
    Loading,
    /// Looked up, and there is none.
    Missing,
}

/// An application's icon, from the lookups that have finished.
pub open spec fn icon_of<I>(icons: Map<Seq<char>, Option<I>>, app: Seq<char>) -> IconState<I> {
    if !icons.contains_key(app) {
        IconState::Loading
    } else {
        match icons[app] {
            Some(icon) => IconState::Ready(icon),
            None => IconState::Missing,
        }
    }
}

impl<'a, I> AppIconState<'a, I> {
    /// The state with the icon itself.
    pub open spec fn state(self) -> IconState<I> {
        match self {
            AppIconState::Ready(icon) => IconState::Ready(*icon),
            AppIconState::Loading => IconState::Loading,
            AppIconState::Missing => IconState::Missing,
        }
    }
}

impl<I> ProfileIconCache<I> {
    /// No icons.
    pub fn new() -> (r: Self)
        ensures
            r@ == Map::<Seq<char>, Option<I>>::empty(),
    {
        ProfileIconCache { icons: StringMap::new() }
    }

    /// An application's icon as it stands.
    pub fn state(&self, app: &str) -> (r: AppIconState<'_, I>)
        ensures
            r.state() == icon_of(self@, app@),
    {
        match self.icons.get(app) {
            Some(Some(icon)) => AppIconState::Ready(icon),
            Some(None) => AppIconState::Missing,
            None => AppIconState::Loading,
        }
    }
}

#[derive(Debug)]
enum CatalogLoad {
    Loading,
    Ready(Vec<Application>),
    Failed,
}

/// How far discovery has come.
pub enum LoadView {
    /// Still under way.
    Loading,
    /// Done, with these applications.
    Ready(Seq<AppView>),
    /// Failed.
    Failed,
}

/// The picker's state.
#[verifier::ext_equal]
pub struct PickerView<I> {
    /// The platform the applications are installed on.
    pub platform: Platform,
    /// Whether the list is unfolded.
    pub expanded: bool,
    /// How far discovery has come.
    pub load: LoadView,
    /// The namespace an application that was not observed is best keyed in.
    pub preferred: IdentityKind,
    /// The finished icon lookups.
    pub icons: Map<Seq<char>, Option<I>>,
    /// The applications whose icon is being looked up.
    pub in_flight: Set<Seq<char>>,
}

/// Expansion, discovery and icon state of the picker that adds an application.
#[derive(Debug)]
pub struct AppCatalogPicker<I> {
    platform: Platform,
    expanded: bool,
    load: CatalogLoad,
    preferred: IdentityKind,
    icons: ProfileIconCache<I>,
    in_flight: StringMap<bool>,
}

impl<I> View for AppCatalogPicker<I> {
    type V = PickerView<I>;

    closed spec fn view(&self) -> PickerView<I> {
        PickerView {
            platform: self.platform,
            expanded: self.expanded,
            load: match self.load {
                CatalogLoad::Loading => LoadView::Loading,
                CatalogLoad::Ready(applications) => LoadView::Ready(app_views(applications@)),
                CatalogLoad::Failed => LoadView::Failed,
            },
            preferred: self.preferred,
            icons: self.icons@,
            in_flight: self.in_flight@.dom(),
        }
    }
}

impl<I> PickerView<I> {
    /// A folded picker whose catalog is still to be discovered and which has
    /// asked for no icon yet.
    pub open spec fn opened(
        platform: Platform,
        preferred: IdentityKind,
        icons: Map<Seq<char>, Option<I>>,
    ) -> PickerView<I> {
        PickerView {
            platform,
            expanded: false,
            load: LoadView::Loading,
            preferred,
            icons,
            in_flight: Set::<Seq<char>>::empty(),
        }
    }

    /// Whether an application's icon has yet to be asked for.
    pub open spec fn lacks_icon(self, app: Seq<char>) -> bool {
        !self.icons.contains_key(app) && !self.in_flight.contains(app)
    }

    /// The picker once an application's icon was asked for.
    pub open spec fn asking(self, app: Seq<char>) -> PickerView<I> {
        PickerView { in_flight: self.in_flight.insert(app), ..self }
    }

    /// The picker once an application's icon was looked up.
    pub open spec fn answered(self, app: Seq<char>, icon: Option<I>) -> PickerView<I> {
        PickerView {
            icons: self.icons.insert(app, icon),
            in_flight: self.in_flight.remove(app),
            ..self
        }
    }
}

impl<I> AppCatalogPicker<I> {
    /// A folded picker whose catalog is still to be discovered.
    pub fn new(
        platform: Platform,
        session: &LinuxSession,
        icons: ProfileIconCache<I>,
    ) -> (r: Self)
        ensures
            r@ == PickerView::opened(
                platform,
                platform_kind(
                    platform,
                    None,
                    crate::text::lowercase(session.desktop@),
                    is_x11(*session),
                ),
                icons@,
            ),
    {
        let r = AppCatalogPicker {
            platform,
            expanded: false,
            load: CatalogLoad::Loading,
            preferred: preferred_identity_kind(platform, None, session),
            icons,
            in_flight: StringMap::new(),
        };
        assert(r@.in_flight =~= Set::<Seq<char>>::empty());
        r
    }

    /// Close the picker and hand its finished icon lookups on. What was still
    /// being looked up is dropped with the picker.
    pub fn into_icons(self) -> (r: ProfileIconCache<I>)
        ensures
            r@ == self@.icons,
    {
        self.icons
    }

    /// Take what discovery found: the applications, and the namespace the
    /// foreground application was observed in, if one was.
    pub fn discovered(
        &mut self,
        applications: Vec<Application>,
        runtime: Option<IdentityKind>,
        session: &LinuxSession,
    )
        ensures
            final(self)@ == (PickerView {
                load: LoadView::Ready(app_views(applications@)),
                preferred: platform_kind(
                    old(self)@.platform,
                    runtime,
                    crate::text::lowercase(session.desktop@),
                    is_x11(*session),
                ),
                ..old(self)@
            }),
    {
        self.preferred = preferred_identity_kind(self.platform, runtime, session);
        self.load = CatalogLoad::Ready(applications);
    }

    /// Take note that discovery failed.
    pub fn discovery_failed(&mut self)
        ensures
            final(self)@ == (PickerView { load: LoadView::Failed, ..old(self)@ }),
    {
        self.load = CatalogLoad::Failed;
    }

    /// Whether the list is unfolded.
    pub fn expanded(&self) -> (r: bool)
        ensures
            r == self@.expanded,
    {
        self.expanded
    }

    /// Fold the list, or unfold it.
    pub fn toggle_expanded(&mut self)
        ensures
            final(self)@ == (PickerView { expanded: !old(self)@.expanded, ..old(self)@ }),
    {
        self.expanded = !self.expanded;
    }

    /// Whether to look up `app`'s icon now: only if that has neither been done
    /// nor is under way.
    pub fn ensure_icon(&mut self, app: &str) -> (start: bool)
        ensures
            start == old(self)@.lacks_icon(app@),
            final(self)@ == if start {
                old(self)@.asking(app@)
            } else {
                old(self)@
            },
    {
        let ghost was = self@;
        if self.icons.icons.contains_key(app) || self.in_flight.contains_key(app) {
            return false;
        }
        self.in_flight.insert(app.to_owned(), true);
        assert(self@ =~= was.asking(app@));
        true
    }

    /// Take the icon that a lookup found, or that it found none.
    pub fn icon_landed(&mut self, app: &str, icon: Option<I>)
        ensures
            final(self)@ == old(self)@.answered(app@, icon),
    {
        let ghost was = self@;
        self.icons.icons.insert(app.to_owned(), icon);
        self.in_flight.remove(app);
        assert(self@ =~= was.answered(app@, icon));
    }

    /// An application's icon as it stands.
    pub fn icon_state(&self, app: &str) -> (r: AppIconState<'_, I>)
        ensures
            r.state() == icon_of(self@.icons, app@),
    {
        self.icons.state(app)
    }

    /// The catalog as it is to be presented: every application that can be
    /// keyed and is not taken, once, by name without regard to case.
    pub fn available_profiles(
        &self,
        observed: &Vec<String>,
        unavailable: &Vec<String>,
    ) -> (r: CatalogPresentation)
        ensures
            match (self@.load, r) {
                (LoadView::Loading, CatalogPresentation::Loading) => true,
                (LoadView::Failed, CatalogPresentation::Failed) => true,
                (LoadView::Ready(applications), CatalogPresentation::Ready(shown)) => sorted_form(
                    choice_views(shown@),
                    offered(
                        applications,
                        text_set(observed@),
                        text_set(unavailable@),
                        self@.preferred,
                        self@.platform,
                    ),
                ),
                _ => false,
            },
    {
        match &self.load {
            CatalogLoad::Loading => CatalogPresentation::Loading,
            CatalogLoad::Failed => CatalogPresentation::Failed,
            CatalogLoad::Ready(applications) => {
                let entries = collect_choices(
                    applications,
                    observed,
                    unavailable,
                    self.preferred,
                    self.platform,
                );
                let ghost choices = offered(
                    app_views(applications@),
                    text_set(observed@),
                    text_set(unavailable@),
                    self.preferred,
                    self.platform,
                );
                let ghost collected = keyed_views(entries@);
                let sorted = sort_choices(entries);
                let ghost ordered = keyed_views(sorted@);
                let shown = strip_keys(sorted);
                proof {
                    lemma_offered_apps_differ(
                        app_views(applications@),
                        text_set(observed@),
                        text_set(unavailable@),
                        self.preferred,
                        self.platform,
                    );
                    lemma_sorted_form(choice_views(shown@), ordered, collected, choices);
                }
                CatalogPresentation::Ready(shown)
            },
        }
    }
}

fn strip_keys(entries: Vec<KeyedChoice>) -> (r: Vec<ProfileChoice>)
    ensures
        r@.len() == entries@.len(),
        forall|i: int| 0 <= i < r@.len() ==> (#[trigger] r@[i]) == entries@[i].choice,
{
    let ghost all = entries@;
    let mut choices: Vec<ProfileChoice> = Vec::new();
    for entry in it: entries
        invariant
            it.seq() == all,
            choices@.len() == it.index(),
            forall|i: int| 0 <= i < choices@.len() ==> (#[trigger] choices@[i]) == all[i].choice,
    {
        choices.push(entry.choice);
    }
    choices
}

/// Choices with distinct applications, keyed and sorted, are in sorted form.
proof fn lemma_sorted_form(
    shown: Seq<ChoiceView>,
    ordered: Seq<KeyedView>,
    collected: Seq<KeyedView>,
    choices: Seq<ChoiceView>,
)
    requires
        shown.len() == ordered.len(),
        forall|i: int| 0 <= i < shown.len() ==> (#[trigger] shown[i]) == ordered[i].choice,
        in_order(ordered),
        ordered.to_multiset() == collected.to_multiset(),
        collected == choices.map_values(|choice: ChoiceView| keyed(choice)),
        forall|i: int, j: int|
            0 <= i < j < choices.len() ==> (#[trigger] choices[i]).app != (
            #[trigger] choices[j]).app,
    ensures
        sorted_form(shown, choices),
{
    vstd::seq_lib::to_multiset_len(ordered);
    vstd::seq_lib::to_multiset_len(collected);
    assert forall|entry: KeyedView| ordered.contains(entry) == collected.contains(entry) by {
        vstd::seq_lib::to_multiset_contains(ordered, entry);
        vstd::seq_lib::to_multiset_contains(collected, entry);
    }
    assert forall|i: int| 0 <= i < ordered.len() implies #[trigger] ordered[i] == keyed(
        ordered[i].choice,
    ) && choices.contains(ordered[i].choice) by {
        assert(ordered.contains(ordered[i]));
        let k = choose|k: int| 0 <= k < collected.len() && collected[k] == ordered[i];
        assert(collected[k] == keyed(choices[k]));
        assert(choices[k] == ordered[i].choice);
    }
    assert forall|choice: ChoiceView| shown.contains(choice) == choices.contains(choice) by {
        if shown.contains(choice) {
            let i = choose|i: int| 0 <= i < shown.len() && shown[i] == choice;
            assert(choices.contains(ordered[i].choice));
        }
        if choices.contains(choice) {
            let k = choose|k: int| 0 <= k < choices.len() && choices[k] == choice;
            assert(collected[k] == keyed(choice));
            assert(collected.contains(keyed(choice)));
            let i = choose|i: int| 0 <= i < ordered.len() && ordered[i] == keyed(choice);
            assert(shown[i] == choice);
        }
    }
    assert(collected.no_duplicates()) by {
        assert forall|i: int, j: int| 0 <= i < collected.len() && 0 <= j < collected.len() && i
            != j implies collected[i] != collected[j] by {
            assert(collected[i] == keyed(choices[i]));
            assert(collected[j] == keyed(choices[j]));
            if i < j {
                assert(choices[i].app != choices[j].app);
            } else {
                assert(choices[j].app != choices[i].app);
            }
        }
    }
    collected.lemma_multiset_has_no_duplicates();
    ordered.lemma_multiset_has_no_duplicates_conv();
    assert forall|i: int, j: int| 0 <= i < j < shown.len() implies keyed(
        #[trigger] shown[i],
    ).before(keyed(#[trigger] shown[j])) by {
        let a = ordered[i];
        let b = ordered[j];
        assert(!b.before(a));
        assert(a != b);
        assert(choices.contains(a.choice) && choices.contains(b.choice));
        let p = choose|p: int| 0 <= p < choices.len() && choices[p] == a.choice;
        let q = choose|q: int| 0 <= q < choices.len() && choices[q] == b.choice;
        if p < q {
            assert(choices[p].app != choices[q].app);
        } else if q < p {
            assert(choices[q].app != choices[p].app);
        }
        crate::text::text_order_is_total(a.key, b.key);
        crate::text::text_order_is_total(a.choice.app, b.choice.app);
    }
}

/// What is presented does not depend on how it was sorted: choices have one
/// sorted form.
pub proof fn law_the_catalog_has_one_order(
    a: Seq<ChoiceView>,
    b: Seq<ChoiceView>,
    choices: Seq<ChoiceView>,
)
    requires
        sorted_form(a, choices),
        sorted_form(b, choices),
    ensures
        a == b,
{
    lemma_same_prefix(a, b, choices, a.len() as int);
    assert(a =~= b);
}

proof fn lemma_same_prefix(
    a: Seq<ChoiceView>,
    b: Seq<ChoiceView>,
    choices: Seq<ChoiceView>,
    n: int,
)
    requires
        sorted_form(a, choices),
        sorted_form(b, choices),
        0 <= n <= a.len(),
    ensures
        forall|i: int| 0 <= i < n ==> a[i] == b[i],
    decreases n,
{
    if n > 0 {
        lemma_same_prefix(a, b, choices, n - 1);
        let i = n - 1;
        if a[i] != b[i] {
            assert(a.contains(a[i]) && b.contains(b[i]));
            let j = choose|j: int| 0 <= j < b.len() && b[j] == a[i];
            let k = choose|k: int| 0 <= k < a.len() && a[k] == b[i];
            if j < i {
                assert(a[j] == a[i]);
                assert(keyed(a[j]).before(keyed(a[i])));
                lemma_before_is_strict(keyed(a[i]), keyed(a[i]));
            } else if k < i {
                assert(b[k] == b[i]);
                assert(keyed(b[k]).before(keyed(b[i])));
                lemma_before_is_strict(keyed(b[i]), keyed(b[i]));
            } else {
                assert(keyed(b[i]).before(keyed(b[j])));
                assert(keyed(a[i]).before(keyed(a[k])));
                lemma_before_is_strict(keyed(a[i]), keyed(b[i]));
            }
        }
    }
}

/// Every application that can be keyed is offered under its key unless that is
/// taken; nothing taken is offered, and nothing is offered twice.
pub proof fn law_every_free_application_is_offered_once(
    applications: Seq<AppView>,
    observed: Set<Seq<char>>,
    unavailable: Set<Seq<char>>,
    preferred: IdentityKind,
    platform: Platform,
    app: Seq<char>,
)
    ensures
        ({
            let choices = offered(applications, observed, unavailable, preferred, platform);
            &&& offers(choices, app) <==> !unavailable.contains(app) && exists|i: int|
                0 <= i < applications.len() && profile_key(
                    #[trigger] applications[i],
                    observed,
                    preferred,
                    platform,
                ) == Some(app)
            &&& forall|i: int, j: int|
                0 <= i < j < choices.len() ==> (#[trigger] choices[i]).app != (
                #[trigger] choices[j]).app
        }),
    decreases applications.len(),
{
    lemma_offered_apps_differ(applications, observed, unavailable, preferred, platform);
    let choices = offered(applications, observed, unavailable, preferred, platform);
    if applications.len() > 0 {
        let fewer = applications.drop_last();
        let sooner = offered(fewer, observed, unavailable, preferred, platform);
        law_every_free_application_is_offered_once(
            fewer,
            observed,
            unavailable,
            preferred,
            platform,
            app,
        );
        let last = applications.last();
        assert(applications[applications.len() - 1] == last);
        if offers(choices, app) {
            let i = choose|i: int| 0 <= i < choices.len() && (#[trigger] choices[i]).app == app;
            if i < sooner.len() {
                assert(sooner[i].app == app);
                let k = choose|k: int|
                    0 <= k < fewer.len() && profile_key(
                        #[trigger] fewer[k],
                        observed,
                        preferred,
                        platform,
                    ) == Some(app);
                assert(applications[k] == fewer[k]);
            }
        }
        if !unavailable.contains(app) && exists|i: int|
            0 <= i < applications.len() && profile_key(
                #[trigger] applications[i],
                observed,
                preferred,
                platform,
            ) == Some(app) {
            let i = choose|i: int|
                0 <= i < applications.len() && profile_key(
                    #[trigger] applications[i],
                    observed,
                    preferred,
                    platform,
                ) == Some(app);
            if i < fewer.len() {
                assert(fewer[i] == applications[i]);
                let k = choose|k: int| 0 <= k < sooner.len() && (#[trigger] sooner[k]).app == app;
                assert(choices[k].app == app);
            } else if offers(sooner, app) {
                let k = choose|k: int| 0 <= k < sooner.len() && (#[trigger] sooner[k]).app == app;
                assert(choices[k].app == app);
            } else {
                assert(choices[sooner.len() as int].app == app);
            }
        }
    }
}

/// An application that was observed running is keyed on the identity it was
/// observed under, on every platform and whatever is preferred.
pub proof fn law_an_observed_identity_wins(
    application: AppView,
    observed: Set<Seq<char>>,
    preferred: IdentityKind,
    platform: Platform,
    i: int,
)
    requires
        0 <= i < application.identities.len(),
        observed.contains(application.identities[i].value),
    ensures
        profile_key(application, observed, preferred, platform) matches Some(key)
            && observed.contains(key),
{
    lemma_first_observed(application.identities, observed, i);
}

proof fn lemma_first_observed(identities: Seq<IdentityView>, observed: Set<Seq<char>>, i: int)
    requires
        0 <= i < identities.len(),
        observed.contains(identities[i].value),
    ensures
        first_observed(identities, observed) matches Some(value) && observed.contains(value),
    decreases identities.len(),
{
    if !observed.contains(identities[0].value) {
        assert(identities.drop_first()[i - 1] == identities[i]);
        lemma_first_observed(identities.drop_first(), observed, i - 1);
    }
}

/// An icon is looked up once: while that is under way and after it is done,
/// whatever it found, it is not asked for again, and once it is done the icon
/// no longer counts as loading.
pub proof fn law_an_icon_is_looked_up_once<I>(
    picker: PickerView<I>,
    app: Seq<char>,
    icon: Option<I>,
)
    ensures
        !picker.asking(app).lacks_icon(app),
        !picker.asking(app).answered(app, icon).lacks_icon(app),
        icon_of(picker.answered(app, icon).icons, app) !is Loading,
{
}

/// An icon that has landed outlives its picker: a picker that the icons are
/// handed on to does not ask for it again and shows it as it was found. A
/// lookup that had not landed is made anew.
pub proof fn law_a_landed_icon_outlives_its_picker<I>(
    picker: PickerView<I>,
    platform: Platform,
    preferred: IdentityKind,
    app: Seq<char>,
)
    ensures
        ({
            let next = PickerView::opened(platform, preferred, picker.icons);
            &&& next.lacks_icon(app) <==> !picker.icons.contains_key(app)
            &&& icon_of(next.icons, app) == icon_of(picker.icons, app)
        }),
{
}

/// Icons are looked up independently: asking for one application's icon, or
/// its landing, changes nothing for any other application.
pub proof fn law_icons_are_looked_up_independently<I>(
    picker: PickerView<I>,
    app: Seq<char>,
    other: Seq<char>,
    found: Option<I>,
)
    requires
        app != other,
    ensures
        picker.asking(other).lacks_icon(app) == picker.lacks_icon(app),
        picker.answered(other, found).lacks_icon(app) == picker.lacks_icon(app),
        icon_of(picker.asking(other).icons, app) == icon_of(picker.icons, app),
        icon_of(picker.answered(other, found).icons, app) == icon_of(picker.icons, app),
{
}

/// The first observed identity is the key: if the identity at `i` was observed
/// and none before it was, the profile is keyed on it, on every platform and
/// whatever is preferred.
pub proof fn law_the_first_observed_identity_is_the_key(
    application: AppView,
    observed: Set<Seq<char>>,
    preferred: IdentityKind,
    platform: Platform,
    i: int,
)
    requires
        0 <= i < application.identities.len(),
        observed.contains(application.identities[i].value),
        forall|j: int|
            0 <= j < i ==> !observed.contains((#[trigger] application.identities[j]).value),
    ensures
        profile_key(application, observed, preferred, platform) == Some(
            application.identities[i].value,
        ),
{
    lemma_first_observed_at(application.identities, observed, i);
}

proof fn lemma_first_observed_at(identities: Seq<IdentityView>, observed: Set<Seq<char>>, i: int)
    requires
        0 <= i < identities.len(),
        observed.contains(identities[i].value),
        forall|j: int| 0 <= j < i ==> !observed.contains((#[trigger] identities[j]).value),
    ensures
        first_observed(identities, observed) == Some(identities[i].value),
    decreases identities.len(),
{
    if i > 0 {
        let rest = identities.drop_first();
        assert(!observed.contains(identities[0].value));
        assert forall|j: int| 0 <= j < i - 1 implies !observed.contains(
            (#[trigger] rest[j]).value,
        ) by {
            assert(rest[j] == identities[j + 1]);
        }
        lemma_first_observed_at(rest, observed, i - 1);
    }
}

proof fn lemma_none_observed(identities: Seq<IdentityView>, observed: Set<Seq<char>>)
    requires
        forall|j: int|
            0 <= j < identities.len() ==> !observed.contains((#[trigger] identities[j]).value),
    ensures
        first_observed(identities, observed) is None,
    decreases identities.len(),
{
    if identities.len() > 0 {
        let rest = identities.drop_first();
        assert forall|j: int| 0 <= j < rest.len() implies !observed.contains(
            (#[trigger] rest[j]).value,
        ) by {
            assert(rest[j] == identities[j + 1]);
        }
        assert(!observed.contains(identities[0].value));
        lemma_none_observed(rest, observed);
    }
}

/// The first identity of a namespace is the one at `i`, if that is of it and
/// none before it is.
proof fn lemma_first_of_kind_at(identities: Seq<IdentityView>, kind: IdentityKind, i: int)
    requires
        0 <= i < identities.len(),
        identities[i].kind == kind,
        forall|j: int| 0 <= j < i ==> (#[trigger] identities[j]).kind != kind,
    ensures
        first_of_kind(identities, kind) == Some(identities[i].value),
    decreases identities.len(),
{
    if i > 0 {
        let rest = identities.drop_first();
        assert(identities[0].kind != kind);
        assert forall|j: int| 0 <= j < i - 1 implies (#[trigger] rest[j]).kind != kind by {
            assert(rest[j] == identities[j + 1]);
        }
        lemma_first_of_kind_at(rest, kind, i - 1);
    }
}

proof fn lemma_none_of_kind(identities: Seq<IdentityView>, kind: IdentityKind)
    requires
        forall|j: int| 0 <= j < identities.len() ==> (#[trigger] identities[j]).kind != kind,
    ensures
        first_of_kind(identities, kind) is None,
    decreases identities.len(),
{
    if identities.len() > 0 {
        let rest = identities.drop_first();
        assert forall|j: int| 0 <= j < rest.len() implies (#[trigger] rest[j]).kind != kind by {
            assert(rest[j] == identities[j + 1]);
        }
        assert(identities[0].kind != kind);
        lemma_none_of_kind(rest, kind);
    }
}

/// Whether none of an application's identities was observed.
pub open spec fn unobserved(application: AppView, observed: Set<Seq<char>>) -> bool {
    forall|j: int|
        0 <= j < application.identities.len() ==> !observed.contains(
            (#[trigger] application.identities[j]).value,
        )
}

/// Whether an application has no identity of a namespace.
pub open spec fn lacks_kind(application: AppView, kind: IdentityKind) -> bool {
    forall|j: int|
        0 <= j < application.identities.len() ==> (#[trigger] application.identities[j]).kind
            != kind
}

/// An application that was not observed is keyed on its first identity of the
/// preferred namespace, whatever other identities it has; on Windows that
/// holds of one without an executable's name.
pub proof fn law_an_unobserved_application_is_keyed_as_preferred(
    application: AppView,
    observed: Set<Seq<char>>,
    preferred: IdentityKind,
    platform: Platform,
    i: int,
)
    requires
        unobserved(application, observed),
        platform == Platform::Windows ==> lacks_kind(
            application,
            IdentityKind::WindowsExecutableName,
        ),
        0 <= i < application.identities.len(),
        application.identities[i].kind == preferred,
        forall|j: int|
            0 <= j < i ==> (#[trigger] application.identities[j]).kind != preferred,
    ensures
        profile_key(application, observed, preferred, platform) == Some(
            application.identities[i].value,
        ),
{
    lemma_none_observed(application.identities, observed);
    lemma_first_of_kind_at(application.identities, preferred, i);
    if platform == Platform::Windows {
        lemma_none_of_kind(application.identities, IdentityKind::WindowsExecutableName);
    }
}

/// On Windows an application that was not observed is keyed on its first
/// executable's name, marked as such, whatever is preferred.
pub proof fn law_on_windows_the_executable_is_the_key(
    application: AppView,
    observed: Set<Seq<char>>,
    preferred: IdentityKind,
    i: int,
)
    requires
        unobserved(application, observed),
        0 <= i < application.identities.len(),
        application.identities[i].kind == IdentityKind::WindowsExecutableName,
        forall|j: int|
            0 <= j < i ==> (#[trigger] application.identities[j]).kind
                != IdentityKind::WindowsExecutableName,
    ensures
        profile_key(application, observed, preferred, Platform::Windows) == Some(
            "exe:"@ + application.identities[i].value,
        ),
{
    lemma_none_observed(application.identities, observed);
    lemma_first_of_kind_at(application.identities, IdentityKind::WindowsExecutableName, i);
}

/// The desktop ID stands in for a class that an application lacks, and for
/// nothing else.
pub proof fn law_the_desktop_id_stands_in_for_a_class(
    application: AppView,
    observed: Set<Seq<char>>,
    platform: Platform,
    i: int,
)
    requires
        unobserved(application, observed),
        platform == Platform::Windows ==> lacks_kind(
            application,
            IdentityKind::WindowsExecutableName,
        ),
        lacks_kind(application, IdentityKind::LinuxStartupWmClass),
        0 <= i < application.identities.len(),
        application.identities[i].kind == IdentityKind::LinuxDesktopId,
        forall|j: int|
            0 <= j < i ==> (#[trigger] application.identities[j]).kind
                != IdentityKind::LinuxDesktopId,
    ensures
        profile_key(application, observed, IdentityKind::LinuxStartupWmClass, platform) == Some(
            application.identities[i].value,
        ),
{
    lemma_none_observed(application.identities, observed);
    lemma_none_of_kind(application.identities, IdentityKind::LinuxStartupWmClass);
    lemma_first_of_kind_at(application.identities, IdentityKind::LinuxDesktopId, i);
    if platform == Platform::Windows {
        lemma_none_of_kind(application.identities, IdentityKind::WindowsExecutableName);
    }
}

/// An application that was not observed and has no identity that could key it
/// is not offered at all.
pub proof fn law_an_application_without_a_usable_identity_has_no_key(
    application: AppView,
    observed: Set<Seq<char>>,
    preferred: IdentityKind,
    platform: Platform,
)
    requires
        unobserved(application, observed),
        platform == Platform::Windows ==> lacks_kind(
            application,
            IdentityKind::WindowsExecutableName,
        ),
        lacks_kind(application, preferred),
        preferred == IdentityKind::LinuxStartupWmClass ==> lacks_kind(
            application,
            IdentityKind::LinuxDesktopId,
        ),
    ensures
        profile_key(application, observed, preferred, platform) is None,
{
    lemma_none_observed(application.identities, observed);
    lemma_none_of_kind(application.identities, preferred);
    if platform == Platform::Windows {
        lemma_none_of_kind(application.identities, IdentityKind::WindowsExecutableName);
    }
    if preferred == IdentityKind::LinuxStartupWmClass {
        lemma_none_of_kind(application.identities, IdentityKind::LinuxDesktopId);
    }
}

/// The namespace is the platform's own. On Linux an observation in one of the
/// two that a running window reports decides it; without one, the class where
/// the session is X11 or the desktop is GNOME, and the Wayland ID elsewhere.
pub proof fn law_the_namespace_is_what_the_session_reports(
    runtime: Option<IdentityKind>,
    desktop: Seq<char>,
    x11: bool,
    session: LinuxSession,
)
    ensures
        platform_kind(Platform::MacOs, runtime, desktop, x11) == IdentityKind::MacBundleIdentifier,
        platform_kind(Platform::Windows, runtime, desktop, x11)
            == IdentityKind::WindowsExecutablePath,
        ({
            let kind = platform_kind(Platform::Linux, runtime, desktop, x11);
            &&& kind == IdentityKind::LinuxStartupWmClass || kind
                == IdentityKind::LinuxWaylandAppId
            &&& runtime == Some(IdentityKind::LinuxStartupWmClass) ==> kind
                == IdentityKind::LinuxStartupWmClass
            &&& runtime == Some(IdentityKind::LinuxWaylandAppId) ==> kind
                == IdentityKind::LinuxWaylandAppId
            &&& runtime != Some(IdentityKind::LinuxStartupWmClass) && runtime != Some(
                IdentityKind::LinuxWaylandAppId,
            ) ==> (kind == IdentityKind::LinuxStartupWmClass <==> x11 || crate::text::occurs(
                desktop,
                "gnome"@,
            ))
        }),
        !session.wayland_display ==> is_x11(session),
        session.wayland_display ==> (is_x11(session) <==> session.session_type is Some
            && session.session_type->0@ == "x11"@),
{
}

/// Choices are ordered by name without regard to case, and by the identity
/// they are keyed on only where the names agree.
pub proof fn law_choices_go_by_name_first(a: ChoiceView, b: ChoiceView)
    ensures
        crate::text::text_before(
            crate::text::lowercase(a.name),
            crate::text::lowercase(b.name),
        ) ==> keyed(a).before(keyed(b)) && !keyed(b).before(keyed(a)),
        crate::text::lowercase(a.name) == crate::text::lowercase(b.name) ==> (keyed(a).before(
            keyed(b),
        ) <==> crate::text::text_before(a.app, b.app)),
        keyed(a).choice == a,
{
    crate::text::text_order_is_strict(
        crate::text::lowercase(a.name),
        crate::text::lowercase(b.name),
    );
}

/// Each choice is an application's: it is keyed on what that application is,
/// bears its name, and it is the first in the catalog so keyed. It stands for
/// a profile that holds nothing and is not stored yet.
pub proof fn law_each_choice_is_the_first_of_its_key(
    applications: Seq<AppView>,
    observed: Set<Seq<char>>,
    unavailable: Set<Seq<char>>,
    preferred: IdentityKind,
    platform: Platform,
    k: int,
) -> (i: int)
    requires
        0 <= k < offered(applications, observed, unavailable, preferred, platform).len(),
    ensures
        ({
            let choice = offered(applications, observed, unavailable, preferred, platform)[k];
            &&& 0 <= i < applications.len()
            &&& profile_key(applications[i], observed, preferred, platform) == Some(choice.app)
            &&& choice.name == applications[i].name
            &&& choice.override_count == 0
            &&& !choice.persisted
            &&& !unavailable.contains(choice.app)
            &&& forall|j: int|
                0 <= j < i ==> profile_key(
                    #[trigger] applications[j],
                    observed,
                    preferred,
                    platform,
                ) != Some(choice.app)
        }),
    decreases applications.len(),
{
    let fewer = applications.drop_last();
    let sooner = offered(fewer, observed, unavailable, preferred, platform);
    let choice = offered(applications, observed, unavailable, preferred, platform)[k];
    if k < sooner.len() {
        let i = law_each_choice_is_the_first_of_its_key(
            fewer,
            observed,
            unavailable,
            preferred,
            platform,
            k,
        );
        assert(fewer[i] == applications[i]);
        assert forall|j: int| 0 <= j < i implies profile_key(
            #[trigger] applications[j],
            observed,
            preferred,
            platform,
        ) != Some(choice.app) by {
            assert(fewer[j] == applications[j]);
        }
        i
    } else {
        law_every_free_application_is_offered_once(
            fewer,
            observed,
            unavailable,
            preferred,
            platform,
            choice.app,
        );
        assert forall|j: int| 0 <= j < fewer.len() implies profile_key(
            #[trigger] applications[j],
            observed,
            preferred,
            platform,
        ) != Some(choice.app) by {
            assert(fewer[j] == applications[j]);
        }
        applications.len() - 1
    }
}

/// An icon shows as what its lookup found: loading until it lands, then the
/// icon itself, or missing where there is none. Asking shows nothing yet.
pub proof fn law_an_icon_shows_as_it_was_found<I>(
    picker: PickerView<I>,
    app: Seq<char>,
    icon: I,
)
    ensures
        icon_of(picker.answered(app, Some(icon)).icons, app) == IconState::Ready(icon),
        icon_of(picker.answered(app, None).icons, app) == IconState::<I>::Missing,
        !picker.icons.contains_key(app) ==> icon_of(picker.icons, app) == IconState::<I>::Loading
            && icon_of(picker.asking(app).icons, app) == IconState::<I>::Loading,
        picker.lacks_icon(app) <==> !picker.icons.contains_key(app) && !picker.in_flight.contains(
            app,
        ),
{
}

/// Looking up an icon leaves the rest of the picker alone, and a new picker is
/// folded, has yet to be told its applications, and looks nothing up.
pub proof fn law_looking_up_an_icon_leaves_the_rest<I>(
    picker: PickerView<I>,
    app: Seq<char>,
    icon: Option<I>,
    platform: Platform,
    preferred: IdentityKind,
)
    ensures
        picker.asking(app) == (PickerView { in_flight: picker.asking(app).in_flight, ..picker }),
        ({
            let next = picker.answered(app, icon);
            &&& next.platform == picker.platform
            &&& next.expanded == picker.expanded
            &&& next.load == picker.load
            &&& next.preferred == picker.preferred
        }),
        ({
            let new = PickerView::opened(platform, preferred, picker.icons);
            &&& !new.expanded
            &&& new.load is Loading
            &&& new.platform == platform
            &&& new.preferred == preferred
            &&& new.icons == picker.icons
            &&& !new.in_flight.contains(app)
        }),
{
}

/// What is presented in sorted form is in order of name without regard to case
/// and then of identity, and is just the choices there are.
pub proof fn law_sorted_choices_ascend(
    shown: Seq<ChoiceView>,
    choices: Seq<ChoiceView>,
    i: int,
    j: int,
    choice: ChoiceView,
)
    requires
        sorted_form(shown, choices),
        0 <= i < j < shown.len(),
    ensures
        ({
            let a = crate::text::lowercase(shown[i].name);
            let b = crate::text::lowercase(shown[j].name);
            ||| crate::text::text_before(a, b)
            ||| a == b && crate::text::text_before(shown[i].app, shown[j].app)
        }),
        shown.len() == choices.len(),
        shown.contains(choice) <==> choices.contains(choice),
{
    assert(keyed(shown[i]).before(keyed(shown[j])));
}

/// In sorted entries no key stands after one that it goes before, nor an
/// identity after one that it goes before under the same key.
pub proof fn law_sorted_entries_ascend(entries: Seq<KeyedView>, i: int, j: int)
    requires
        in_order(entries),
        0 <= i < j < entries.len(),
    ensures
        !crate::text::text_before(entries[j].key, entries[i].key),
        entries[i].key == entries[j].key ==> !crate::text::text_before(
            entries[j].choice.app,
            entries[i].choice.app,
        ),
{
    assert(!entries[j].before(entries[i]));
}

/// A list holds the texts that stand in it and no others.
pub proof fn law_a_list_holds_its_own_texts(texts: Seq<String>, text: Seq<char>)
    ensures
        text_set(texts).contains(text) <==> exists|i: int|
            0 <= i < texts.len() && (#[trigger] texts[i])@ == text,
{
}

/// An icon that can be shown is shown as the very icon.
pub proof fn law_a_shown_icon_is_the_icon<I>(icon: &I)
    ensures
        AppIconState::Ready(icon).state() == IconState::Ready(*icon),
        AppIconState::<I>::Loading.state() == IconState::<I>::Loading,
        AppIconState::<I>::Missing.state() == IconState::<I>::Missing,
{
}

} // verus!
