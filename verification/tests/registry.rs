use gpotlight::config::{AppConfig, ConfigStore, PluginConfig};
use gpotlight::plugin::builtin::system_actions::SystemActionsPlugin;
use gpotlight::plugin::rank::rank_results;
use gpotlight::plugin::{mark_source, SearchResultButton};
use gpotlight::plugin::{PluginAction, PluginRegistry, SearchPlugin, SearchResult};

struct StaticPlugin {
    id: &'static str,
    pinned: bool,
}

impl SearchPlugin for StaticPlugin {
    fn id(&self) -> &str {
        self.id
    }

    fn name(&self) -> &str {
        self.id
    }

    fn description(&self) -> &str {
        self.id
    }

    fn query(&self, query: &str) -> Vec<SearchResult> {
        vec![SearchResult {
            title: format!("{}:{query}", self.id),
            subtitle: String::new(),
            icon: None,
            pinned: self.pinned,
            action: PluginAction::Noop,
            buttons: Vec::new(),
            refresh_key: None,
            refresh_interval_ms: None,
            source_plugin_id: None,
        }]
    }
}

#[test]
fn empty_search_only_keeps_pinned_results() {
    let mut registry = PluginRegistry::default();
    registry.register(StaticPlugin {
        id: "normal",
        pinned: false,
    });
    registry.register(StaticPlugin {
        id: "pinned",
        pinned: true,
    });
    let config = ConfigStore::from_config(AppConfig::default());

    let results = registry.search(&config, "");

    assert_eq!(results.len(), 1);
    assert_eq!(results[0].title, "pinned:");
}

struct FixedPlugin {
    id: &'static str,
    results: Vec<(&'static str, bool, PluginAction)>,
}

fn result(title: &str, pinned: bool, action: PluginAction) -> SearchResult {
    SearchResult {
        title: title.to_string(),
        subtitle: String::new(),
        icon: None,
        pinned,
        action,
        buttons: Vec::new(),
        refresh_key: None,
        refresh_interval_ms: None,
        source_plugin_id: None,
    }
}

impl SearchPlugin for FixedPlugin {
    fn id(&self) -> &str {
        self.id
    }

    fn name(&self) -> &str {
        "Fixed"
    }

    fn description(&self) -> &str {
        "Returns fixed results"
    }

    fn query(&self, _query: &str) -> Vec<SearchResult> {
        self.results
            .iter()
            .map(|(title, pinned, action)| result(title, *pinned, action.clone()))
            .collect()
    }
}

fn titles(results: &[SearchResult]) -> Vec<String> {
    results.iter().map(|r| r.title.clone()).collect()
}

#[test]
fn search_puts_pinned_results_first_and_keeps_plugin_order() {
    let mut registry = PluginRegistry::default();
    registry.register(FixedPlugin {
        id: "a",
        results: vec![
            ("a1", false, PluginAction::OpenUri("x".into())),
            ("a2", true, PluginAction::OpenUri("y".into())),
        ],
    });
    registry.register(FixedPlugin {
        id: "b",
        results: vec![
            ("b1", false, PluginAction::OpenUri("z".into())),
            ("b2", true, PluginAction::OpenUri("w".into())),
        ],
    });
    let config = ConfigStore::from_config(AppConfig::default());
    let results = registry.search(&config, "query");
    assert_eq!(titles(&results), vec!["a2", "b2", "a1", "b1"]);
    assert_eq!(results[0].source_plugin_id.as_deref(), Some("a"));
    assert_eq!(results[1].source_plugin_id.as_deref(), Some("b"));
}

#[test]
fn search_ranks_more_used_results_first() {
    let mut registry = PluginRegistry::default();
    registry.register(FixedPlugin {
        id: "apps",
        results: vec![
            ("Files", false, PluginAction::LaunchDesktopFile("files.desktop".into())),
            ("Terminal", false, PluginAction::LaunchDesktopFile("term.desktop".into())),
        ],
    });
    let mut config = ConfigStore::from_config(AppConfig::default());
    config.record_usage("desktop:term.desktop");
    let results = registry.search(&config, "e");
    assert_eq!(titles(&results), vec!["Terminal", "Files"]);

    config.current_mut().usage_ranking_enabled = false;
    let results = registry.search(&config, "e");
    assert_eq!(titles(&results), vec!["Files", "Terminal"]);
}

#[test]
fn search_returns_at_most_one_hundred_results() {
    let mut registry = PluginRegistry::default();
    let many: Vec<(&'static str, bool, PluginAction)> =
        (0..150).map(|_| ("r", false, PluginAction::Noop)).collect();
    registry.register(FixedPlugin { id: "many", results: many });
    let config = ConfigStore::from_config(AppConfig::default());
    assert_eq!(registry.search(&config, "r").len(), 100);
}

#[test]
fn search_skips_disabled_plugins_and_routes_prefixes() {
    let mut registry = PluginRegistry::default();
    registry.register(StaticPlugin { id: "off", pinned: false });
    registry.register(StaticPlugin { id: "prefixed", pinned: false });
    let mut config = ConfigStore::from_config(AppConfig::default());
    let mut off = PluginConfig::default();
    off.enabled = false;
    config.current_mut().plugins.insert("off".to_string(), off);
    let mut prefixed = PluginConfig::default();
    prefixed.show_in_global_search = false;
    prefixed.trigger_prefix = " g ".to_string();
    config.current_mut().plugins.insert("prefixed".to_string(), prefixed);

    assert!(registry.search(&config, "hello").is_empty());
    let results = registry.search(&config, "g   hello");
    assert_eq!(titles(&results), vec!["prefixed:hello"]);
}

#[test]
fn search_plugin_queries_one_plugin() {
    let mut registry = PluginRegistry::default();
    registry.register(StaticPlugin { id: "one", pinned: false });
    registry.register(StaticPlugin { id: "two", pinned: true });
    let mut config = ConfigStore::from_config(AppConfig::default());
    let results = registry.search_plugin(&config, "two", "q");
    assert_eq!(titles(&results), vec!["two:q"]);
    assert_eq!(results[0].source_plugin_id.as_deref(), Some("two"));
    assert!(registry.search_plugin(&config, "three", "q").is_empty());
    let mut off = PluginConfig::default();
    off.enabled = false;
    config.current_mut().plugins.insert("two".to_string(), off);
    assert!(registry.search_plugin(&config, "two", "q").is_empty());
}

#[test]
fn plugin_metadata_lists_plugins_in_order() {
    let mut registry = PluginRegistry::default();
    registry.register(StaticPlugin { id: "first", pinned: false });
    registry.register(StaticPlugin { id: "second", pinned: false });
    let metadata = registry.plugin_metadata();
    assert_eq!(metadata.len(), 2);
    assert_eq!(metadata[0].id, "first");
    assert_eq!(metadata[1].name, "second");
    assert!(metadata[1].config_items.is_empty());
}

#[test]
fn boxed_plugins_share_one_registry() {
    let mut registry: PluginRegistry = PluginRegistry::default();
    registry.register(Box::new(SystemActionsPlugin));
    registry.register(Box::new(StaticPlugin { id: "static", pinned: false }));
    let config = ConfigStore::from_config(AppConfig::default());
    let results = registry.search(&config, "quit");
    assert_eq!(titles(&results), vec!["Quit Gpotlight", "static:quit"]);
    assert_eq!(results[0].source_plugin_id.as_deref(), Some("builtin.system-actions"));
}

#[test]
fn usage_keys_name_the_action() {
    let noop = result("Title", false, PluginAction::Noop);
    assert_eq!(noop.usage_key(), "noop:Title:");
    let command = result(
        "Run",
        false,
        PluginAction::LaunchCommand { command: "ls".into(), args: vec!["-l".into(), "/tmp".into()] },
    );
    assert_eq!(command.usage_key(), "command:ls:-l\u{1f}/tmp");
    assert_eq!(result("x", false, PluginAction::CopyText("4".into())).usage_key(), "copy:4");
    assert_eq!(result("x", false, PluginAction::AppAction("quit".into())).usage_key(), "app-action:quit");
    let button = SearchResultButton {
        title: "Open".into(),
        icon: None,
        action: PluginAction::OpenUri("https://e.org".into()),
        close_on_activate: true,
        refresh_after_ms: None,
    };
    let launch = result("App", false, PluginAction::LaunchDesktopFile("a.desktop".into()));
    assert_eq!(button.usage_key(&launch), "button:desktop:a.desktop:Open:uri:https://e.org");
}

#[test]
fn rank_results_filters_and_orders() {
    let config = ConfigStore::from_config(AppConfig::default());
    let gathered = vec![
        result("plain", false, PluginAction::Noop),
        result("pinned", true, PluginAction::Noop),
    ];
    let blank = rank_results(&config, "  ", gathered.clone());
    assert_eq!(titles(&blank), vec!["pinned"]);
    let typed = rank_results(&config, "p", gathered);
    assert_eq!(titles(&typed), vec!["pinned", "plain"]);
}

#[test]
fn mark_source_sets_the_plugin_id() {
    let marked = mark_source(vec![result("a", false, PluginAction::Noop)], "plugin.id");
    assert_eq!(marked[0].source_plugin_id.as_deref(), Some("plugin.id"));
    assert_eq!(marked[0].title, "a");
}
