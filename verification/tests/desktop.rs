use rbshell::desktop_entry::{DesktopEntryCache, DesktopEntryMeta, EntryInfo};
use rbshell::icons::{default_icon_path, start_menu_icon, IconTheme};

fn meta(appid: &str) -> DesktopEntryMeta {
    DesktopEntryMeta {
        appid: appid.to_string(),
        name: Some(appid.to_string()),
        name_default: Some(appid.to_string()),
        startup_wm_class: None,
        exec_string: Some(appid.to_string()),
        icon: None,
        no_display: false,
        terminal: false,
    }
}

#[test]
fn entries_without_name_or_command_are_invisible() {
    let theme = IconTheme::NoTheme;
    let visible = EntryInfo::new(meta("a"), &theme);
    assert!(!visible.invisible);

    let mut no_name = meta("b");
    no_name.name = None;
    assert!(EntryInfo::new(no_name, &theme).invisible);

    let mut no_exec = meta("c");
    no_exec.exec_string = None;
    assert!(EntryInfo::new(no_exec, &theme).invisible);

    let mut terminal = meta("d");
    terminal.terminal = true;
    assert!(EntryInfo::new(terminal, &theme).invisible);

    let mut hidden = meta("e");
    hidden.no_display = true;
    assert!(EntryInfo::new(hidden, &theme).invisible);
}

#[test]
fn invisible_or_iconless_entries_get_no_icon_path() {
    let theme = IconTheme::NoTheme;
    // no icon name: no path
    assert!(EntryInfo::new(meta("a"), &theme).icon_path.is_none());
    // hidden entry, even with an icon name: no path
    let mut hidden = meta("b");
    hidden.icon = Some("firefox".to_string());
    hidden.no_display = true;
    assert!(EntryInfo::new(hidden, &theme).icon_path.is_none());
}

#[test]
fn fuzzy_match_prefers_appid_then_wm_class_then_name() {
    let mut by_class = meta("org.kde.konsole");
    by_class.startup_wm_class = Some("konsole".to_string());
    let mut by_name = meta("org.gnome.Epiphany");
    by_name.name_default = Some("Web".to_string());
    let cache = DesktopEntryCache::build(
        vec![meta("firefox"), by_class, by_name],
        &IconTheme::NoTheme,
    );

    let hit = cache.fuzzy_match("firefox").expect("appid match");
    assert_eq!(hit.desktop_entry.appid, "firefox");

    let hit = cache.fuzzy_match("konsole").expect("wm-class match");
    assert_eq!(hit.desktop_entry.appid, "org.kde.konsole");

    let hit = cache.fuzzy_match("Web").expect("name match");
    assert_eq!(hit.desktop_entry.appid, "org.gnome.Epiphany");

    assert!(cache.fuzzy_match("nothing-here").is_none());
}

#[test]
fn cache_files_the_last_entry_of_a_duplicated_appid() {
    let mut first = meta("term");
    first.name_default = Some("First".to_string());
    let mut second = meta("term");
    second.name_default = Some("Second".to_string());
    let cache = DesktopEntryCache::build(vec![first, second], &IconTheme::NoTheme);
    assert_eq!(cache.entries.len(), 1);
    let hit = cache.fuzzy_match("term").expect("appid match");
    assert_eq!(hit.desktop_entry.name_default.as_deref(), Some("Second"));
}

#[test]
fn theme_names_and_desktop_inference() {
    assert_eq!(IconTheme::from_desktop(Some("kde")), IconTheme::Breeze);
    assert_eq!(IconTheme::from_desktop(Some("cosmic")), IconTheme::Cosmic);
    assert_eq!(IconTheme::from_desktop(Some("gnome")), IconTheme::NoTheme);
    assert_eq!(IconTheme::from_desktop(None), IconTheme::NoTheme);

    assert_eq!(IconTheme::Breeze.to_string(), "breeze");
    assert_eq!(IconTheme::Cosmic.to_string(), "Cosmic");
    assert_eq!(IconTheme::NoTheme.to_string(), "hicolor");
}

#[test]
fn themeless_panel_has_no_fixed_icons() {
    assert!(default_icon_path(&IconTheme::NoTheme).is_none());
    assert!(start_menu_icon(&IconTheme::NoTheme).is_none());
    // with a theme, the lookup runs against this machine's icon
    // installation; whatever it yields, it must not panic
    let _ = default_icon_path(&IconTheme::Breeze);
    let _ = start_menu_icon(&IconTheme::Cosmic);
}

#[test]
fn visible_entry_with_icon_resolves_against_the_machine() {
    // Runs the real icon lookup: whatever is installed, the call returns
    // without panicking, and a hidden entry still gets nothing.
    let mut with_icon = meta("a");
    with_icon.icon = Some("utilities-terminal".to_string());
    let _ = EntryInfo::new(with_icon, &IconTheme::NoTheme);
}
