use gpotlight::config::{
    default_max_visible_results, default_pinyin_search_enabled, default_plugin_enabled,
    default_plugin_show_in_global_search, default_shortcuts_enabled, default_tray_enabled,
    default_usage_ranking_enabled, AppConfig, ConfigStore, ConfigValue, PluginConfig,
};

#[test]
fn default_config_matches_first_start() {
    let config = AppConfig::default();
    assert_eq!(config.locale, "zh-CN");
    assert_eq!(config.shortcut, "LOGO+space");
    assert!(config.shortcuts_enabled);
    assert!(config.tray_enabled);
    assert!(config.usage_ranking_enabled);
    assert!(config.pinyin_search_enabled);
    assert_eq!(config.window.host_width, 960);
    assert_eq!(config.window.host_height, 620);
    assert_eq!(config.window.panel_width, 720);
    assert_eq!(config.window.panel_offset_y, 92);
    assert_eq!(config.window.max_visible_results, 6);
    assert!(config.plugins.is_empty());
    assert!(config.usage.is_empty());
}

#[test]
fn default_values_of_optional_settings() {
    assert_eq!(default_max_visible_results(), 6);
    assert!(default_shortcuts_enabled());
    assert!(default_tray_enabled());
    assert!(default_usage_ranking_enabled());
    assert!(default_pinyin_search_enabled());
    assert!(default_plugin_enabled());
    assert!(default_plugin_show_in_global_search());
}

#[test]
fn unknown_plugin_gets_default_settings() {
    let store = ConfigStore::from_config(AppConfig::default());
    let plugin = store.plugin_config("nobody");
    assert!(plugin.enabled);
    assert!(plugin.show_in_global_search);
    assert_eq!(plugin.trigger_prefix, "");
    assert!(plugin.custom.is_empty());
}

#[test]
fn stored_plugin_settings_are_returned() {
    let mut store = ConfigStore::from_config(AppConfig::default());
    let mut plugin = PluginConfig::default();
    plugin.trigger_prefix = "=".to_string();
    plugin
        .custom
        .insert("search_engine".to_string(), ConfigValue::Text("bing".to_string()));
    store.current_mut().plugins.insert("web".to_string(), plugin);
    let got = store.plugin_config("web");
    assert_eq!(got.trigger_prefix, "=");
    assert_eq!(
        got.custom.get("search_engine").and_then(|v| v.as_str()),
        Some("bing")
    );
}

fn store_with(id: &str, enabled: bool, global: bool, prefix: &str) -> ConfigStore {
    let mut store = ConfigStore::from_config(AppConfig::default());
    let mut plugin = PluginConfig::default();
    plugin.enabled = enabled;
    plugin.show_in_global_search = global;
    plugin.trigger_prefix = prefix.to_string();
    store.current_mut().plugins.insert(id.to_string(), plugin);
    store
}

#[test]
fn plugin_query_routes_by_settings() {
    let store = store_with("p", false, true, "");
    assert_eq!(store.plugin_query("p", "abc"), None);

    let store = store_with("p", true, true, "x");
    assert_eq!(store.plugin_query("p", " abc "), Some(" abc "));

    let store = store_with("p", true, false, "  ");
    assert_eq!(store.plugin_query("p", "abc"), None);

    let store = store_with("p", true, false, " gh ");
    assert_eq!(store.plugin_query("p", "gh  repo"), Some("repo"));
    assert_eq!(store.plugin_query("p", "repo"), None);
    assert_eq!(store.plugin_query("p", "gh"), Some(""));
}

#[test]
fn usage_counts_start_at_zero_and_grow() {
    let mut store = ConfigStore::from_config(AppConfig::default());
    assert_eq!(store.usage_count("uri:a"), 0);
    store.record_usage("uri:a");
    store.record_usage("uri:a");
    store.record_usage("uri:b");
    assert_eq!(store.usage_count("uri:a"), 2);
    assert_eq!(store.usage_count("uri:b"), 1);
    assert_eq!(store.usage_count("uri:c"), 0);
    assert_eq!(store.current().usage.len(), 2);
}

#[test]
fn usage_count_saturates() {
    let mut store = ConfigStore::from_config(AppConfig::default());
    store.current_mut().usage.insert("k".to_string(), u32::MAX);
    store.record_usage("k");
    assert_eq!(store.usage_count("k"), u32::MAX);
}

#[test]
fn config_values_expose_booleans_and_text() {
    assert_eq!(ConfigValue::Boolean(true).as_bool(), Some(true));
    assert_eq!(ConfigValue::Text("t".into()).as_bool(), None);
    assert_eq!(ConfigValue::Text("t".into()).as_str(), Some("t"));
    assert_eq!(ConfigValue::Integer(3).as_str(), None);
}
