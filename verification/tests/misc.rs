use gpotlight::autostart::desktop_entry;
use gpotlight::config::{AppConfig, ConfigStore, PluginConfig};
use gpotlight::desktop_entry::{desktop_entry_content, shell_escape, APP_ID};
use gpotlight::i18n::{catalog_for_locale, Catalog, I18n};
use gpotlight::ipc::{parse_command, toggle_command, IpcCommand};
use gpotlight::plugin::{PluginAction, SearchResult};
use gpotlight::shortcut::GlobalShortcutManager;
use gpotlight::spotlight::{
    offset_for_selection, refresh_query, replace_refreshed, result_text_max_width_chars,
    shown_subtitle, step_selection, visible_result_count, visible_row, RefreshTickets,
};
use gpotlight::theme::SystemTheme;

#[test]
fn bundled_catalogs_are_loaded_by_locale() {
    assert_eq!(I18n::load("en-US").t("settings"), "Settings");
    assert_eq!(I18n::load("zh-CN").t("quit"), "退出");
    assert_eq!(I18n::load("fr-FR").t("settings"), "设置");
    assert_eq!(I18n::load("en-US").t("no_such_key"), "no_such_key");
}

#[test]
fn unreadable_catalogs_are_empty() {
    assert_eq!(I18n::from_catalog("greeting = \"hi\"").t("greeting"), "hi");
    assert_eq!(I18n::from_catalog("greeting = [").t("greeting"), "greeting");
    assert_eq!(I18n::from_catalog("greeting = 1").t("greeting"), "greeting");
}

#[test]
fn translations_fall_back_to_the_key() {
    let i18n = I18n::from_entries(vec![
        ("app_name".to_string(), "Gpotlight".to_string()),
        ("quit".to_string(), "退出".to_string()),
    ]);
    assert_eq!(i18n.t("quit"), "退出");
    assert_eq!(i18n.t("app_name"), "Gpotlight");
    assert_eq!(i18n.t("missing_key"), "missing_key");
    assert_eq!(catalog_for_locale("en-US"), Catalog::EnUs);
    assert_eq!(catalog_for_locale("zh-CN"), Catalog::ZhCn);
    assert_eq!(catalog_for_locale("fr-FR"), Catalog::ZhCn);
}

#[test]
fn shell_escape_quotes_paths() {
    assert_eq!(shell_escape("/usr/bin/gpotlight"), "'/usr/bin/gpotlight'");
    assert_eq!(shell_escape("/tmp/it's"), "'/tmp/it'\\''s'");
}

#[test]
fn desktop_entry_runs_the_executable() {
    let content = desktop_entry_content("/opt/my app/gpotlight");
    assert_eq!(
        content,
        "[Desktop Entry]\nType=Application\nName=Gpotlight\nComment=Spotlight-style launcher for GNOME\nExec='/opt/my app/gpotlight'\nIcon=system-search\nCategories=Utility;\nStartupNotify=false\nDBusActivatable=false\n"
    );
    assert_eq!(APP_ID, "io.github.gpotlight.Gpotlight");
}

#[test]
fn autostart_entry_text() {
    let entry = desktop_entry();
    assert!(entry.starts_with("[Desktop Entry]\nType=Application\n"));
    assert!(entry.contains("Exec=sh -c 'setsid gpotlight >/dev/null 2>&1 &'\n"));
    assert!(entry.ends_with("X-GNOME-Autostart-enabled=true\n"));
}

#[test]
fn ipc_toggle_command_round_trips() {
    assert_eq!(toggle_command(), b"toggle\n".to_vec());
    assert_eq!(parse_command(&toggle_command()), Some(IpcCommand::Toggle));
    assert_eq!(parse_command(b"toggle\nextra"), Some(IpcCommand::Toggle));
    assert_eq!(parse_command(b"toggle"), None);
    assert_eq!(parse_command(b"quit\n"), None);
}

#[test]
fn theme_classes() {
    assert_eq!(SystemTheme::from_dark(true), SystemTheme::Dark);
    assert_eq!(SystemTheme::from_dark(false).css_class(), "system-light");
    assert_eq!(SystemTheme::Dark.css_class(), "system-dark");
}

#[test]
fn shortcut_manager_registers_nothing() {
    let config = ConfigStore::from_config(AppConfig::default());
    let manager = GlobalShortcutManager::spawn(&config, || {});
    manager.set_enabled(true, "LOGO+space".to_string());
}

#[test]
fn empty_subtitle_shows_a_space() {
    assert_eq!(shown_subtitle(""), " ");
    assert_eq!(shown_subtitle("details"), "details");
}

#[test]
fn button_counts_wrap_as_i32() {
    assert_eq!(result_text_max_width_chars(720, (1usize << 32) + 2), 67);
}

#[test]
fn result_widths_and_counts() {
    assert_eq!(result_text_max_width_chars(720, 0), 75);
    assert_eq!(result_text_max_width_chars(720, 2), 67);
    assert_eq!(result_text_max_width_chars(720, 9), 55);
    assert_eq!(result_text_max_width_chars(100, 0), 8);
    assert_eq!(result_text_max_width_chars(2000, 0), 96);
    assert_eq!(result_text_max_width_chars(-1000, 1), 8);
    assert_eq!(visible_result_count(3, 6), 3);
    assert_eq!(visible_result_count(30, 6), 6);
    assert_eq!(visible_result_count(30, 0), 1);
    assert_eq!(visible_result_count(30, 50), 20);
}

#[test]
fn selection_scrolls_the_window() {
    assert_eq!(step_selection(0, 10, true), 1);
    assert_eq!(step_selection(9, 10, true), 9);
    assert_eq!(step_selection(0, 10, false), 0);
    assert_eq!(step_selection(4, 10, false), 3);
    assert_eq!(offset_for_selection(0, 6, 6), 1);
    assert_eq!(offset_for_selection(3, 2, 6), 2);
    assert_eq!(offset_for_selection(2, 5, 6), 2);
    assert_eq!(visible_row(7, 2, 6), Some(5));
    assert_eq!(visible_row(8, 2, 6), None);
    assert_eq!(visible_row(1, 2, 6), None);
}

fn refreshing(title: &str, plugin: Option<&str>, key: Option<&str>) -> SearchResult {
    SearchResult {
        title: title.to_string(),
        subtitle: String::new(),
        icon: None,
        pinned: false,
        action: PluginAction::Noop,
        buttons: Vec::new(),
        refresh_key: key.map(str::to_string),
        refresh_interval_ms: Some(1000),
        source_plugin_id: plugin.map(str::to_string),
    }
}

#[test]
fn only_the_latest_refresh_ticket_refreshes() {
    let mut tickets = RefreshTickets::new();
    let r = refreshing("clock", Some("p"), Some("time"));
    assert_eq!(tickets.schedule(&refreshing("x", None, Some("k")), true), None);
    let (key, first) = tickets.schedule(&r, false).unwrap();
    assert_eq!(key, "p:time");
    assert_eq!(first, 1);
    assert_eq!(tickets.schedule(&r, false), None);
    let (_, second) = tickets.schedule(&r, true).unwrap();
    assert_eq!(second, 2);
    assert!(!tickets.fire(&key, first, true));
    assert_eq!(tickets.get(&key), Some(2));
    assert!(tickets.fire(&key, second, true));
    assert_eq!(tickets.get(&key), None);
    let (_, third) = tickets.schedule(&r, false).unwrap();
    assert_eq!(third, 1);
    assert!(!tickets.fire(&key, third, false));
    assert_eq!(tickets.get(&key), None);
    tickets.schedule(&r, false);
    tickets.clear();
    assert_eq!(tickets.get(&key), None);
}

#[test]
fn refreshed_result_replaces_its_row() {
    let mut results = vec![
        refreshing("a", Some("p"), Some("other")),
        refreshing("b", Some("q"), Some("k")),
        refreshing("c", Some("p"), Some("k")),
    ];
    let replacements = vec![refreshing("x", None, Some("nope")), refreshing("new", None, Some("k"))];
    assert_eq!(replace_refreshed(&mut results, "p", "k", replacements), Some(2));
    assert_eq!(results[2].title, "new");
    assert_eq!(results[0].title, "a");
    assert_eq!(replace_refreshed(&mut results, "p", "k", vec![]), None);
    assert_eq!(replace_refreshed(&mut results, "z", "k", vec![refreshing("y", None, Some("k"))]), None);
    assert_eq!(results[2].title, "new");
}

#[test]
fn refresh_query_follows_plugin_routing() {
    let mut store = ConfigStore::from_config(AppConfig::default());
    assert_eq!(refresh_query(&store, "p", "abc"), Some("abc".to_string()));
    let mut off = PluginConfig::default();
    off.enabled = false;
    store.current_mut().plugins.insert("p".to_string(), off);
    assert_eq!(refresh_query(&store, "p", "abc"), None);
    assert_eq!(refresh_query(&store, "p", "  "), Some(String::new()));
}
