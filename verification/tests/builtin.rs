use gpotlight::config::{AppConfig, ConfigValue, PluginConfig};
use gpotlight::plugin::builtin::app_launcher::{
    icon_from_desktop_entry, pinyin_search_text, AppLauncherPlugin, DesktopApp,
};
use gpotlight::plugin::builtin::calculator::{
    calculator_query, calculator_result, has_operator, parse_arithmetic, Expr,
};
use gpotlight::plugin::builtin::system_actions::SystemActionsPlugin;
use gpotlight::plugin::builtin::web_search::{encode_query, WebSearchEngine, WebSearchPlugin};
use gpotlight::plugin::{PluginAction, PluginConfigKind, SearchPlugin};

fn eval(e: &Expr) -> f64 {
    match e {
        Expr::Number(text) => std::str::from_utf8(text).unwrap().parse().unwrap(),
        Expr::Add(a, b) => eval(a) + eval(b),
        Expr::Sub(a, b) => eval(a) - eval(b),
        Expr::Mul(a, b) => eval(a) * eval(b),
        Expr::Div(a, b) => eval(a) / eval(b),
    }
}

fn eval_arithmetic(input: &str) -> Option<f64> {
    parse_arithmetic(input).map(|e| eval(&e))
}

#[test]
fn calculator_arithmetic_parser_handles_basic_expressions() {
    assert_eq!(eval_arithmetic("1+3"), Some(4.0));
    assert_eq!(eval_arithmetic("2 * (3 + 4)"), Some(14.0));
    assert_eq!(eval_arithmetic("10 / 2 - 1"), Some(4.0));
}

#[test]
fn builtin_arithmetic_parser_handles_basic_expressions() {
    assert_eq!(eval_arithmetic("1+3"), Some(4.0));
    assert_eq!(eval_arithmetic("2 * (3 + 4)"), Some(14.0));
    assert_eq!(eval_arithmetic("10 / 2 - 1"), Some(4.0));
}

fn format_number(value: f64) -> String {
    let text = format!("{value:.12}");
    text.trim_end_matches('0').trim_end_matches('.').to_string()
}

fn calculate(query: &str) -> Vec<gpotlight::plugin::SearchResult> {
    match calculator_query(query) {
        Some(tree) => vec![calculator_result(query, &format_number(eval(&tree)))],
        None => Vec::new(),
    }
}

#[test]
fn calculator_calculator_plugin_copies_result_text() {
    let results = calculate("1+3");
    assert_eq!(results.len(), 1);
    assert_eq!(results[0].title, "4");
    assert!(results[0].pinned);
    assert!(matches!(results[0].action, PluginAction::CopyText(ref text) if text == "4"));
}

#[test]
fn calculator_needs_an_operator_and_a_whole_expression() {
    assert!(calculator_query("   ").is_none());
    assert!(calculator_query("42").is_none());
    assert!(calculator_query("1+").is_none());
    let results = calculate("  2 * (3 + 4) ");
    assert_eq!(results.len(), 1);
    assert_eq!(results[0].title, "14");
    assert_eq!(results[0].subtitle, "2 * (3 + 4)");
    assert_eq!(results[0].icon.as_deref(), Some("accessories-calculator-symbolic"));
    assert_eq!(calculate("1/3")[0].title, "0.333333333333");
}

#[test]
fn parser_builds_left_associative_trees() {
    match parse_arithmetic("10 / 2 - 1") {
        Some(Expr::Sub(left, right)) => {
            assert!(matches!(*left, Expr::Div(_, _)));
            assert!(matches!(*right, Expr::Number(ref t) if t == b"1"));
        }
        other => panic!("unexpected tree {other:?}"),
    }
    match parse_arithmetic("1-2-3") {
        Some(Expr::Sub(left, right)) => {
            assert!(matches!(*left, Expr::Sub(_, _)));
            assert!(matches!(*right, Expr::Number(ref t) if t == b"3"));
        }
        other => panic!("unexpected tree {other:?}"),
    }
}

#[test]
fn parser_reads_signed_and_decimal_literals() {
    assert_eq!(eval_arithmetic("2*-3"), Some(-6.0));
    assert_eq!(eval_arithmetic(".5+5."), Some(5.5));
    assert_eq!(eval_arithmetic("\t( 1 )\t"), Some(1.0));
}

#[test]
fn parser_rejects_malformed_input() {
    assert!(parse_arithmetic("").is_none());
    assert!(parse_arithmetic("1+").is_none());
    assert!(parse_arithmetic("(1+2").is_none());
    assert!(parse_arithmetic("1..2+1").is_none());
    assert!(parse_arithmetic(".+1").is_none());
    assert!(parse_arithmetic("1 2").is_none());
    assert!(parse_arithmetic("- 3").is_none());
    assert!(parse_arithmetic("a+1").is_none());
}

#[test]
fn operator_check() {
    assert!(has_operator("1+1"));
    assert!(has_operator("8/2"));
    assert!(!has_operator("42"));
    assert!(!has_operator(""));
}

#[test]
fn system_actions_match_title_or_subtitle() {
    let plugin = SystemActionsPlugin;
    assert_eq!(plugin.id(), "builtin.system-actions");
    assert!(plugin.query("   ").is_empty());
    let results = plugin.query("GPOTLIGHT");
    assert_eq!(results.len(), 2);
    assert_eq!(results[0].title, "Open Gpotlight Settings");
    assert!(matches!(results[0].action, PluginAction::AppAction(ref a) if a == "settings"));
    assert_eq!(results[1].title, "Quit Gpotlight");
    assert_eq!(results[1].icon.as_deref(), Some("application-exit-symbolic"));
    let results = plugin.query("window");
    assert_eq!(results.len(), 1);
    assert_eq!(results[0].subtitle, "Show the settings window");
    assert!(plugin.query("nothing here").is_empty());
}

#[test]
fn encode_query_percent_encodes_bytes() {
    assert_eq!(encode_query("a b-c_d.e~f"), "a+b-c_d.e~f");
    assert_eq!(encode_query("C++ & Rust?"), "C%2B%2B+%26+Rust%3F");
    assert_eq!(encode_query("微"), "%E5%BE%AE");
}

#[test]
fn encoded_query_length_and_characters() {
    let encoded = encode_query("a b/é");
    assert_eq!(encoded, "a+b%2F%C3%A9");
    assert_eq!(encoded.len(), 1 + 1 + 1 + 3 + 3 + 3);
    assert!(encoded
        .chars()
        .all(|c| c.is_ascii_alphanumeric() || "-_.~+%".contains(c)));
}

#[test]
fn engines_by_name() {
    assert_eq!(WebSearchEngine::from_config("bing"), WebSearchEngine::Bing);
    assert_eq!(WebSearchEngine::from_config("baidu"), WebSearchEngine::Baidu);
    assert_eq!(WebSearchEngine::from_config("duckduckgo"), WebSearchEngine::DuckDuckGo);
    assert_eq!(WebSearchEngine::from_config("other"), WebSearchEngine::Google);
    assert_eq!(WebSearchEngine::DuckDuckGo.label(), "DuckDuckGo");
    assert_eq!(WebSearchEngine::Baidu.search_url("q"), "https://www.baidu.com/s?wd=q");
}

#[test]
fn web_search_builds_one_result() {
    let plugin = WebSearchPlugin;
    assert!(plugin.query(" a ").is_empty());
    let results = plugin.query(" rust lang ");
    assert_eq!(results.len(), 1);
    assert_eq!(results[0].title, "Search Google for \"rust lang\"");
    assert_eq!(results[0].subtitle, "Google");
    assert!(!results[0].pinned);
    assert!(matches!(results[0].action,
        PluginAction::OpenUri(ref u) if u == "https://www.google.com/search?q=rust+lang"));
    assert_eq!(plugin.query("微").len(), 1);

    let mut config = PluginConfig::default();
    config
        .custom
        .insert("search_engine".to_string(), ConfigValue::Text("duckduckgo".to_string()));
    let results = plugin.query_with_config("ab", &config, &AppConfig::default());
    assert!(matches!(results[0].action,
        PluginAction::OpenUri(ref u) if u == "https://duckduckgo.com/?q=ab"));
}

#[test]
fn web_search_offers_engine_choice() {
    let items = WebSearchPlugin.config_items();
    assert_eq!(items.len(), 1);
    assert_eq!(items[0].key, "search_engine");
    match &items[0].kind {
        PluginConfigKind::Choice { options } => {
            let values: Vec<&str> = options.iter().map(|o| o.value.as_str()).collect();
            assert_eq!(values, vec!["google", "bing", "baidu", "duckduckgo"]);
        }
        other => panic!("unexpected kind {other:?}"),
    }
    assert!(matches!(items[0].default_value, ConfigValue::Text(ref d) if d == "google"));
}

#[test]
fn pinyin_text_of_names() {
    assert_eq!(pinyin_search_text("微信"), "weixin wx");
    assert_eq!(pinyin_search_text("Firefox"), " ");
}

fn app(id: &str, name: &str, comment: &str, icon: Option<&str>) -> DesktopApp {
    DesktopApp::new(
        id.to_string(),
        name.to_string(),
        comment.to_string(),
        icon.map(str::to_string),
    )
}

#[test]
fn app_launcher_matches_name_comment_and_pinyin() {
    let plugin = AppLauncherPlugin::from_apps(vec![
        app("firefox.desktop", "Firefox", "Web Browser", Some("firefox")),
        app("wechat.desktop", "微信", "Chat", None),
        app("files.desktop", "Files", "Browse files", Some("/usr/share/icons/files.png")),
    ]);
    assert!(plugin.query("  ").is_empty());
    let results = plugin.query("BROWSE");
    let titles: Vec<&str> = results.iter().map(|r| r.title.as_str()).collect();
    assert_eq!(titles, vec!["Firefox", "Files"]);
    assert!(matches!(results[0].action, PluginAction::LaunchDesktopFile(ref id) if id == "firefox.desktop"));
    assert_eq!(results[0].icon.as_deref(), Some("firefox"));

    let results = plugin.query("wx");
    assert_eq!(results.len(), 1);
    assert_eq!(results[0].icon.as_deref(), Some("application-x-executable-symbolic"));

    let mut app_config = AppConfig::default();
    app_config.pinyin_search_enabled = false;
    assert!(plugin.query_with_config("wx", &PluginConfig::default(), &app_config).is_empty());

    let mut config = PluginConfig::default();
    config.custom.insert("use_unified_icon".to_string(), ConfigValue::Boolean(true));
    let results = plugin.query_with_config("files", &config, &AppConfig::default());
    assert_eq!(results[0].icon.as_deref(), Some("applications-system-symbolic"));
}

#[test]
fn app_launcher_offers_unified_icon_setting() {
    let plugin = AppLauncherPlugin::from_apps(Vec::new());
    let items = plugin.config_items();
    assert_eq!(items[0].key, "use_unified_icon");
    assert!(matches!(items[0].kind, PluginConfigKind::Bool));
    assert!(matches!(items[0].default_value, ConfigValue::Boolean(false)));
    assert_eq!(plugin.name(), "Applications");
}

#[test]
fn desktop_entry_icon_is_read() {
    assert_eq!(
        icon_from_desktop_entry("[Desktop Entry]\nName=X\nIcon= org.x.Y \nIcon=other\n"),
        Some("org.x.Y".to_string())
    );
    assert_eq!(icon_from_desktop_entry("[Desktop Entry]\nIcon=  \nIcon=later"), None);
    assert_eq!(icon_from_desktop_entry("Name=X"), None);
}
