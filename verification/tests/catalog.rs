//! Which applications the picker offers, and under which identity.

use crown::catalog::{
    identity_for_application, linux_identity_kind, preferred_identity_kind, runtime_kind,
    sort_choices, AppCatalogPicker, AppIconState, Application, ApplicationIdentity, CatalogPresentation,
    IdentityKind, KeyedChoice, LinuxSession, Platform, ProfileChoice, ProfileIconCache,
};

fn application_with_identities(identities: Vec<ApplicationIdentity>) -> Application {
    Application { name: "Editor".into(), identities }
}

#[test]
fn observed_identity_wins_over_the_platform_default() {
    let application = application_with_identities(vec![
        ApplicationIdentity::new(IdentityKind::LinuxWaylandAppId, "org.example.Editor"),
        ApplicationIdentity::new(IdentityKind::LinuxStartupWmClass, "Editor"),
    ]);
    let observed = vec!["Editor".to_string()];

    assert_eq!(
        identity_for_application(
            &application,
            &observed,
            IdentityKind::LinuxWaylandAppId,
            Platform::Linux,
        )
        .as_deref(),
        Some("Editor")
    );
}

#[test]
fn unobserved_application_uses_the_active_identity_namespace() {
    let application = application_with_identities(vec![
        ApplicationIdentity::new(IdentityKind::LinuxWaylandAppId, "org.example.Editor"),
        ApplicationIdentity::new(IdentityKind::LinuxStartupWmClass, "Editor"),
    ]);

    assert_eq!(
        identity_for_application(
            &application,
            &Vec::new(),
            IdentityKind::LinuxWaylandAppId,
            Platform::Linux,
        )
        .as_deref(),
        Some("org.example.Editor")
    );
}

#[test]
fn linux_desktop_id_keeps_apps_without_startup_class_available() {
    let application = application_with_identities(vec![ApplicationIdentity::new(
        IdentityKind::LinuxDesktopId,
        "org.example.Editor",
    )]);

    assert_eq!(
        identity_for_application(
            &application,
            &Vec::new(),
            IdentityKind::LinuxStartupWmClass,
            Platform::Linux,
        )
        .as_deref(),
        Some("org.example.Editor")
    );
}

/// A Start Menu shortcut whose target canonicalizes to a UNC location
/// leaves the catalog holding `unc\host\share\…`, which no Windows
/// foreground identifier (a `c:\…` image path) can ever equal.
#[test]
fn an_unobserved_windows_app_is_keyed_on_its_executable_name() {
    let application = application_with_identities(vec![
        ApplicationIdentity::new(
            IdentityKind::WindowsExecutablePath,
            r"unc\desktop-1\users\me\appdata\local\programs\rider\bin\rider64.exe",
        ),
        ApplicationIdentity::new(IdentityKind::WindowsExecutableName, "rider64.exe"),
    ]);

    assert_eq!(
        identity_for_application(
            &application,
            &Vec::new(),
            IdentityKind::WindowsExecutablePath,
            Platform::Windows,
        )
        .as_deref(),
        Some("exe:rider64.exe"),
        "an unrunning app must be keyed on the matcher's stable fallback"
    );
}

/// Precision is still preferred when the agent has actually seen the app:
/// an exact path distinguishes two builds of the same executable name.
#[test]
fn an_observed_windows_app_keeps_its_exact_runtime_path() {
    let path = r"c:\users\me\appdata\local\programs\rider\bin\rider64.exe";
    let application = application_with_identities(vec![
        ApplicationIdentity::new(IdentityKind::WindowsExecutablePath, path),
        ApplicationIdentity::new(IdentityKind::WindowsExecutableName, "rider64.exe"),
    ]);
    let observed = vec![path.to_string()];

    assert_eq!(
        identity_for_application(
            &application,
            &observed,
            IdentityKind::WindowsExecutablePath,
            Platform::Windows,
        )
        .as_deref(),
        Some(path)
    );
}

#[test]
fn an_application_without_a_usable_identity_has_no_key() {
    let application = application_with_identities(vec![ApplicationIdentity::new(
        IdentityKind::LinuxDesktopId,
        "org.example.Editor",
    )]);
    assert_eq!(
        identity_for_application(
            &application,
            &Vec::new(),
            IdentityKind::LinuxWaylandAppId,
            Platform::Linux,
        ),
        None
    );
    let exe = application_with_identities(vec![ApplicationIdentity::new(
        IdentityKind::WindowsExecutableName,
        "a.exe",
    )]);
    assert_eq!(
        identity_for_application(
            &exe,
            &Vec::new(),
            IdentityKind::LinuxWaylandAppId,
            Platform::Linux,
        ),
        None,
        "the file name stands in on Windows alone"
    );
}

fn session(desktop: &str, session_type: Option<&str>, wayland_display: bool) -> LinuxSession {
    LinuxSession {
        desktop: desktop.into(),
        session_type: session_type.map(str::to_string),
        wayland_display,
    }
}

#[test]
fn the_preferred_namespace_follows_the_platform_and_the_session() {
    let kind = |platform, runtime, s: &LinuxSession| preferred_identity_kind(platform, runtime, s);
    let kde = session("KDE", Some("wayland"), true);
    let gnome = session("ubuntu:GNOME", Some("wayland"), true);
    let x11 = session("KDE", Some("x11"), true);
    let bare = session("", None, false);
    assert_eq!(kind(Platform::MacOs, None, &kde), IdentityKind::MacBundleIdentifier);
    assert_eq!(kind(Platform::Windows, None, &kde), IdentityKind::WindowsExecutablePath);
    assert_eq!(kind(Platform::Linux, None, &kde), IdentityKind::LinuxWaylandAppId);
    assert_eq!(kind(Platform::Linux, None, &gnome), IdentityKind::LinuxStartupWmClass);
    assert_eq!(kind(Platform::Linux, None, &x11), IdentityKind::LinuxStartupWmClass);
    assert_eq!(kind(Platform::Linux, None, &bare), IdentityKind::LinuxStartupWmClass);
    assert_eq!(
        kind(Platform::Linux, Some(IdentityKind::LinuxWaylandAppId), &x11),
        IdentityKind::LinuxWaylandAppId,
        "an observation outweighs the session"
    );
    assert_eq!(
        kind(Platform::Linux, Some(IdentityKind::LinuxDesktopId), &kde),
        IdentityKind::LinuxWaylandAppId
    );
    assert_eq!(
        linux_identity_kind(None, "gnome-classic", false),
        IdentityKind::LinuxStartupWmClass
    );
    assert_eq!(
        linux_identity_kind(None, "GNOME", false),
        IdentityKind::LinuxWaylandAppId,
        "the name is taken as lower case"
    );
}

fn app(name: &str, id: &str) -> Application {
    Application {
        name: name.into(),
        identities: vec![ApplicationIdentity::new(IdentityKind::LinuxWaylandAppId, id)],
    }
}

fn picker() -> AppCatalogPicker<u32> {
    AppCatalogPicker::new(
        Platform::Linux,
        &session("KDE", Some("wayland"), true),
        ProfileIconCache::new(),
    )
}

#[test]
fn profiles_are_offered_once_and_by_name() {
    let mut p = picker();
    let kde = session("KDE", Some("wayland"), true);
    assert_eq!(p.available_profiles(&Vec::new(), &Vec::new()), CatalogPresentation::Loading);
    p.discovered(
        vec![
            app("zebra", "z"),
            app("Apple", "b"),
            app("apple", "a"),
            app("Mango", "m"),
            app("Again", "z"),
            app("Taken", "t"),
        ],
        None,
        &kde,
    );
    let shown = match p.available_profiles(&Vec::new(), &vec!["t".to_string()]) {
        CatalogPresentation::Ready(shown) => shown,
        other => panic!("expected choices, got {other:?}"),
    };
    let listed: Vec<(&str, &str)> =
        shown.iter().map(|c| (c.name.as_str(), c.app.as_str())).collect();
    assert_eq!(listed, [("apple", "a"), ("Apple", "b"), ("Mango", "m"), ("zebra", "z")]);
    assert!(shown.iter().all(|c| c.override_count == 0 && !c.persisted));
    p.discovery_failed();
    assert_eq!(p.available_profiles(&Vec::new(), &Vec::new()), CatalogPresentation::Failed);
}

#[test]
fn a_discovery_sets_the_namespace_it_observed() {
    let mut p = picker();
    let kde = session("KDE", Some("wayland"), true);
    let both = Application {
        name: "Editor".into(),
        identities: vec![
            ApplicationIdentity::new(IdentityKind::LinuxWaylandAppId, "wayland"),
            ApplicationIdentity::new(IdentityKind::LinuxStartupWmClass, "x11"),
        ],
    };
    p.discovered(vec![both], Some(IdentityKind::LinuxStartupWmClass), &kde);
    match p.available_profiles(&Vec::new(), &Vec::new()) {
        CatalogPresentation::Ready(shown) => assert_eq!(shown[0].app, "x11"),
        other => panic!("expected choices, got {other:?}"),
    }
}

#[test]
fn choices_sort_by_key_then_application() {
    let entry = |key: &str, app: &str| KeyedChoice {
        key: key.into(),
        choice: ProfileChoice {
            app: app.into(),
            name: key.into(),
            override_count: 0,
            persisted: false,
        },
    };
    let sorted = sort_choices(vec![
        entry("b", "2"),
        entry("a", "9"),
        entry("b", "1"),
        entry("", "x"),
        entry("ab", "0"),
    ]);
    let order: Vec<(&str, &str)> = sorted
        .iter()
        .map(|e| (e.key.as_str(), e.choice.app.as_str()))
        .collect();
    assert_eq!(order, [("", "x"), ("a", "9"), ("ab", "0"), ("b", "1"), ("b", "2")]);
}

#[test]
fn an_icon_is_asked_for_once() {
    let mut p = picker();
    assert_eq!(p.icon_state("a"), AppIconState::Loading);
    assert!(p.ensure_icon("a"));
    assert!(!p.ensure_icon("a"), "in flight");
    assert_eq!(p.icon_state("a"), AppIconState::Loading);
    p.icon_landed("a", Some(7));
    assert_eq!(p.icon_state("a"), AppIconState::Ready(&7));
    assert!(!p.ensure_icon("a"), "done");
    assert!(p.ensure_icon("b"));
    p.icon_landed("b", None);
    assert_eq!(p.icon_state("b"), AppIconState::Missing);
    assert!(!p.ensure_icon("b"));
}

#[test]
fn a_landed_icon_is_handed_on_to_the_next_picker() {
    let mut first = picker();
    assert!(first.ensure_icon("a"));
    assert!(first.ensure_icon("b"));
    assert!(first.ensure_icon("c"));
    first.icon_landed("a", Some(7));
    first.icon_landed("b", None);
    assert_eq!(first.icon_state("c"), AppIconState::Loading, "others leave it alone");

    let icons = first.into_icons();
    assert_eq!(icons.state("a"), AppIconState::Ready(&7));

    let mut next = AppCatalogPicker::new(
        Platform::Linux,
        &session("KDE", Some("wayland"), true),
        icons,
    );
    assert!(!next.ensure_icon("a"), "found before");
    assert!(!next.ensure_icon("b"), "missing before");
    assert!(next.ensure_icon("c"), "had not landed");
    assert_eq!(next.icon_state("a"), AppIconState::Ready(&7));
    assert_eq!(next.icon_state("b"), AppIconState::Missing);
}

#[test]
fn a_default_store_has_no_icons() {
    let icons: ProfileIconCache<u8> = ProfileIconCache::default();
    assert_eq!(icons.state("a"), AppIconState::Loading);
}

#[test]
fn the_first_identity_decides_the_runtime_namespace() {
    assert_eq!(runtime_kind(&Vec::new()), None);
    assert_eq!(
        runtime_kind(&vec![
            ApplicationIdentity::new(IdentityKind::LinuxStartupWmClass, "Editor"),
            ApplicationIdentity::new(IdentityKind::LinuxWaylandAppId, "org.example.Editor"),
        ]),
        Some(IdentityKind::LinuxStartupWmClass)
    );
}

#[test]
fn the_list_folds_and_unfolds() {
    let mut p = picker();
    assert!(!p.expanded());
    p.toggle_expanded();
    assert!(p.expanded());
    p.toggle_expanded();
    assert!(!p.expanded());
}
