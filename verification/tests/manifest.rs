use gpotlight::config::ConfigValue;
use gpotlight::plugin::manifest::{
    command_query, json_setting, result_from_output, results_from_output, ExternalCommandPlugin,
    JsonSetting, PluginManifest,
    PluginManifestConfigChoice, PluginManifestConfigItem, PluginManifestConfigKind, PluginResult,
    PluginResultAction,
};
use gpotlight::plugin::{PluginAction, PluginConfigKind};

fn manifest(args: Option<Vec<&str>>, config: Option<Vec<PluginManifestConfigItem>>) -> PluginManifest {
    PluginManifest {
        id: "example.web".to_string(),
        name: "Example Web Plugin".to_string(),
        description: "Searches a custom service".to_string(),
        command: "my-gpotlight-plugin".to_string(),
        args: args.map(|a| a.into_iter().map(str::to_string).collect()),
        config,
    }
}

#[test]
fn arguments_carry_the_query() {
    let plugin = ExternalCommandPlugin::from_manifest(manifest(Some(vec!["--query", "{query}", "x{query}{query}"]), None));
    assert_eq!(plugin.args_for_query("cats"), vec!["--query", "cats", "xcatscats"]);
    let plugin = ExternalCommandPlugin::from_manifest(manifest(None, None));
    assert_eq!(plugin.args_for_query("dogs"), vec!["dogs"]);
    assert_eq!(plugin.id(), "example.web");
    assert_eq!(plugin.name(), "Example Web Plugin");
    assert_eq!(plugin.description(), "Searches a custom service");
    assert_eq!(plugin.manifest().command, "my-gpotlight-plugin");
}

#[test]
fn declared_settings_become_config_items() {
    let items = vec![
        PluginManifestConfigItem {
            key: "safe".into(),
            title: "Safe search".into(),
            description: None,
            kind: PluginManifestConfigKind::Bool { default: None },
        },
        PluginManifestConfigItem {
            key: "region".into(),
            title: "Region".into(),
            description: Some("Where".into()),
            kind: PluginManifestConfigKind::Choice {
                default: Some("eu".into()),
                options: vec![PluginManifestConfigChoice { value: "eu".into(), label: "Europe".into() }],
            },
        },
        PluginManifestConfigItem {
            key: "limit".into(),
            title: "Limit".into(),
            description: None,
            kind: PluginManifestConfigKind::Integer { default: None, min: Some(1), max: None, step: None },
        },
        PluginManifestConfigItem {
            key: "token".into(),
            title: "Token".into(),
            description: None,
            kind: PluginManifestConfigKind::Text { default: None },
        },
    ];
    let plugin = ExternalCommandPlugin::from_manifest(manifest(None, Some(items)));
    let out = plugin.config_items();
    assert_eq!(out.len(), 4);
    assert_eq!(out[0].description, "");
    assert!(matches!(out[0].kind, PluginConfigKind::Bool));
    assert!(matches!(out[0].default_value, ConfigValue::Boolean(false)));
    assert_eq!(out[1].description, "Where");
    match &out[1].kind {
        PluginConfigKind::Choice { options } => {
            assert_eq!(options.len(), 1);
            assert_eq!(options[0].label, "Europe");
        }
        other => panic!("unexpected kind {other:?}"),
    }
    assert!(matches!(out[1].default_value, ConfigValue::Text(ref t) if t == "eu"));
    assert!(matches!(out[2].kind, PluginConfigKind::Integer { min: 1, max: 100, step: 1 }));
    assert!(matches!(out[2].default_value, ConfigValue::Integer(0)));
    assert!(matches!(out[3].default_value, ConfigValue::Text(ref t) if t.is_empty()));
    assert!(ExternalCommandPlugin::from_manifest(manifest(None, None)).config_items().is_empty());
}

#[test]
fn command_runs_only_for_text() {
    assert_eq!(command_query("  cats "), Some("cats"));
    assert_eq!(command_query(" \t"), None);
}

#[test]
fn printed_results_become_search_results() {
    let out = result_from_output(PluginResult {
        title: "Result".into(),
        subtitle: Some("Details".into()),
        icon: Some("system-search-symbolic".into()),
        pinned: None,
        action: Some(PluginResultAction::OpenUri { uri: "https://example.com".into() }),
    });
    assert_eq!(out.title, "Result");
    assert_eq!(out.subtitle, "Details");
    assert_eq!(out.icon.as_deref(), Some("system-search-symbolic"));
    assert!(!out.pinned);
    assert!(matches!(out.action, PluginAction::OpenUri(ref u) if u == "https://example.com"));

    let all = results_from_output(vec![
        PluginResult { title: "a".into(), subtitle: None, icon: None, pinned: Some(true), action: None },
        PluginResult {
            title: "b".into(),
            subtitle: None,
            icon: None,
            pinned: None,
            action: Some(PluginResultAction::CopyText { text: "t".into() }),
        },
    ]);
    assert_eq!(all.len(), 2);
    assert!(all[0].pinned);
    assert_eq!(all[0].subtitle, "");
    assert!(matches!(all[0].action, PluginAction::Noop));
    assert!(matches!(all[1].action, PluginAction::CopyText(ref t) if t == "t"));
}

#[test]
fn settings_are_handed_over_as_json_values() {
    assert!(matches!(
        json_setting(&ConfigValue::Text("bing".to_string())),
        JsonSetting::Text(ref t) if t == "bing"
    ));
    assert!(matches!(json_setting(&ConfigValue::Integer(-3)), JsonSetting::Integer(-3)));
    assert!(matches!(json_setting(&ConfigValue::Boolean(true)), JsonSetting::Boolean(true)));
    assert!(matches!(
        json_setting(&ConfigValue::FloatBits(1.5f64.to_bits())),
        JsonSetting::FloatBits(b) if b == 1.5f64.to_bits()
    ));
    assert!(matches!(
        json_setting(&ConfigValue::Other("[1, 2]".to_string())),
        JsonSetting::Null
    ));
}
