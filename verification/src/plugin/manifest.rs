//! Plugins described by a manifest: an outside command that receives the
//! query as arguments and prints one JSON result per line.
use super::{PluginAction, PluginConfigChoice, PluginConfigItem, PluginConfigKind, SearchResult};
use crate::config::ConfigValue;
use crate::text::{owned, replace, replace_seq, trim, trim_seq};
use vstd::prelude::*;

verus! {

/// A plugin manifest.
#[derive(Debug)]
pub struct PluginManifest {
    pub id: String,
    pub name: String,
    pub description: String,
    pub command: String,
    pub args: Option<Vec<String>>,
    pub config: Option<Vec<PluginManifestConfigItem>>,
}

/// A setting declared in a manifest.
#[derive(Debug)]
pub struct PluginManifestConfigItem {
    pub key: String,
    pub title: String,
    pub description: Option<String>,
    pub kind: PluginManifestConfigKind,
}

/// The kind of a declared setting, with its optional default and bounds.
#[derive(Debug)]
pub enum PluginManifestConfigKind {
    Bool { default: Option<bool> },
    Text { default: Option<String> },
    Choice { default: Option<String>, options: Vec<PluginManifestConfigChoice> },
    Integer { default: Option<i64>, min: Option<i64>, max: Option<i64>, step: Option<i64> },
}

/// One choice of a declared choice setting.
#[derive(Debug)]
pub struct PluginManifestConfigChoice {
    pub value: String,
    pub label: String,
}

/// One result line printed by a plugin command.
#[derive(Debug)]
pub struct PluginResult {
    pub title: String,
    pub subtitle: Option<String>,
    pub icon: Option<String>,
    pub pinned: Option<bool>,
    pub action: Option<PluginResultAction>,
}

/// The action of a result line.
#[derive(Debug)]
pub enum PluginResultAction {
    OpenUri { uri: String },
    CopyText { text: String },
    Noop,
}

/// A plugin that runs the command of its manifest.
pub struct ExternalCommandPlugin {
    manifest: PluginManifest,
}

/// The text of an optional string, or nothing.
pub open spec fn text_or_empty(s: Option<String>) -> Seq<char> {
    match s {
        Some(t) => t@,
        None => Seq::empty(),
    }
}

/// The arguments a manifest's command receives for `query`: each declared
/// argument with `{query}` replaced by the query (a lone `{query}` when
/// none are declared).
pub open spec fn command_args(args: Option<Vec<String>>, query: Seq<char>) -> Seq<Seq<char>> {
    let declared = match args {
        Some(v) => v@.map_values(|a: String| a@),
        None => seq!["{query}"@],
    };
    declared.map_values(|a: Seq<char>| replace_seq(a, "{query}"@, query))
}

/// Whether `out` is the setting that the declared `item` describes.
pub open spec fn setting_from(item: PluginManifestConfigItem, out: PluginConfigItem) -> bool {
    &&& out.key@ == item.key@
    &&& out.title@ == item.title@
    &&& out.description@ == text_or_empty(item.description)
    &&& match item.kind {
        PluginManifestConfigKind::Bool { default } => {
            &&& out.kind matches PluginConfigKind::Bool
            &&& out.default_value == ConfigValue::Boolean(
                match default {
                    Some(b) => b,
                    None => false,
                },
            )
        },
        PluginManifestConfigKind::Text { default } => {
            &&& out.kind matches PluginConfigKind::Text
            &&& out.default_value matches ConfigValue::Text(t) && t@ == text_or_empty(default)
        },
        PluginManifestConfigKind::Choice { default, options } => {
            &&& out.kind matches PluginConfigKind::Choice { options: chosen } && {
                &&& chosen@.len() == options@.len()
                &&& forall|k: int|
                    0 <= k < options@.len() ==> (#[trigger] chosen@[k]).value@ == options@[k].value@
                        && chosen@[k].label@ == options@[k].label@
            }
            &&& out.default_value matches ConfigValue::Text(t) && t@ == text_or_empty(default)
        },
        PluginManifestConfigKind::Integer { default, min, max, step } => {
            &&& out.kind == PluginConfigKind::Integer {
                min: match min {
                    Some(v) => v,
                    None => 0,
                },
                max: match max {
                    Some(v) => v,
                    None => 100,
                },
                step: match step {
                    Some(v) => v,
                    None => 1,
                },
            }
            &&& out.default_value == ConfigValue::Integer(
                match default {
                    Some(v) => v,
                    None => 0,
                },
            )
        },
    }
}

/// Whether `out` is the search result a printed result line describes.
pub open spec fn result_from(item: PluginResult, out: SearchResult) -> bool {
    &&& out.title == item.title
    &&& out.subtitle@ == text_or_empty(item.subtitle)
    &&& out.icon == item.icon
    &&& out.pinned == (match item.pinned {
        Some(b) => b,
        None => false,
    })
    &&& match item.action {
        Some(PluginResultAction::OpenUri { uri }) => out.action == PluginAction::OpenUri(uri),
        Some(PluginResultAction::CopyText { text }) => out.action == PluginAction::CopyText(text),
        _ => out.action == PluginAction::Noop,
    }
    &&& out.buttons@.len() == 0
    &&& out.refresh_key is None
    &&& out.refresh_interval_ms is None
    &&& out.source_plugin_id is None
}

fn copy_text(s: &Option<String>) -> (r: String)
    ensures
        r@ == text_or_empty(*s),
{
    match s {
        Some(t) => t.clone(),
        None => String::new(),
    }
}

fn setting_of(item: &PluginManifestConfigItem) -> (out: PluginConfigItem)
    ensures
        setting_from(*item, out),
{
    let (kind, default_value) = match &item.kind {
        PluginManifestConfigKind::Bool { default } => (
            PluginConfigKind::Bool,
            ConfigValue::Boolean(
                match default {
                    Some(b) => *b,
                    None => false,
                },
            ),
        ),
        PluginManifestConfigKind::Text { default } => (
            PluginConfigKind::Text,
            ConfigValue::Text(copy_text(default)),
        ),
        PluginManifestConfigKind::Choice { default, options } => {
            let mut chosen: Vec<PluginConfigChoice> = Vec::new();
            let mut k: usize = 0;
            while k < options.len()
                invariant
                    k <= options.len(),
                    chosen.len() == k,
                    forall|m: int|
                        0 <= m < k ==> (#[trigger] chosen@[m]).value@ == options@[m].value@
                            && chosen@[m].label@ == options@[m].label@,
                decreases options.len() - k,
            {
                chosen.push(
                    PluginConfigChoice {
                        value: options[k].value.clone(),
                        label: options[k].label.clone(),
                    },
                );
                k = k + 1;
            }
            (PluginConfigKind::Choice { options: chosen }, ConfigValue::Text(copy_text(default)))
        },
        PluginManifestConfigKind::Integer { default, min, max, step } => (
            PluginConfigKind::Integer {
                min: match min {
                    Some(v) => *v,
                    None => 0,
                },
                max: match max {
                    Some(v) => *v,
                    None => 100,
                },
                step: match step {
                    Some(v) => *v,
                    None => 1,
                },
            },
            ConfigValue::Integer(
                match default {
                    Some(v) => *v,
                    None => 0,
                },
            ),
        ),
    };
    PluginConfigItem {
        key: item.key.clone(),
        title: item.title.clone(),
        description: copy_text(&item.description),
        kind,
        default_value,
    }
}

impl ExternalCommandPlugin {
    /// The manifest the plugin runs.
    pub closed spec fn spec_manifest(&self) -> PluginManifest {
        self.manifest
    }

    /// A plugin running the command of `manifest`.
    pub fn from_manifest(manifest: PluginManifest) -> (r: Self)
        ensures
            r.spec_manifest() == manifest,
    {
        ExternalCommandPlugin { manifest }
    }

    /// The manifest the plugin runs.
    pub fn manifest(&self) -> (r: &PluginManifest)
        ensures
            *r == self.spec_manifest(),
    {
        &self.manifest
    }

    /// The plugin id declared in the manifest.
    pub fn id(&self) -> (r: &str)
        ensures
            r@ == self.spec_manifest().id@,
    {
        self.manifest.id.as_str()
    }

    /// The name declared in the manifest.
    pub fn name(&self) -> (r: &str)
        ensures
            r@ == self.spec_manifest().name@,
    {
        self.manifest.name.as_str()
    }

    /// The description declared in the manifest.
    pub fn description(&self) -> (r: &str)
        ensures
            r@ == self.spec_manifest().description@,
    {
        self.manifest.description.as_str()
    }

    /// The arguments the command receives for `query`.
    pub fn args_for_query(&self, query: &str) -> (r: Vec<String>)
        ensures
            r@.map_values(|a: String| a@) == command_args(self.spec_manifest().args, query@),
    {
        let pattern = "{query}";
        proof {
            reveal_strlit("{query}");
        }
        let mut out: Vec<String> = Vec::new();
        match &self.manifest.args {
            Some(args) => {
                let ghost declared = args@.map_values(|a: String| a@);
                let mut i: usize = 0;
                while i < args.len()
                    invariant
                        pattern@ == "{query}"@,
                        declared == args@.map_values(|a: String| a@),
                        i <= args.len(),
                        out.len() == i,
                        forall|k: int|
                            0 <= k < i ==> (#[trigger] out@[k])@ == replace_seq(
                                args@[k]@,
                                "{query}"@,
                                query@,
                            ),
                    decreases args.len() - i,
                {
                    proof {
                        reveal_strlit("{query}");
                    }
                    out.push(replace(args[i].as_str(), pattern, query));
                    i = i + 1;
                }
                assert(out@.map_values(|a: String| a@) =~= command_args(
                    self.manifest.args,
                    query@,
                ));
            },
            None => {
                out.push(replace(pattern, pattern, query));
                assert(out@.map_values(|a: String| a@) =~= command_args(
                    self.manifest.args,
                    query@,
                ));
            },
        }
        out
    }

    /// The settings declared in the manifest, in order.
    pub fn config_items(&self) -> (r: Vec<PluginConfigItem>)
        ensures
            match self.spec_manifest().config {
                Some(items) => r.len() == items.len() && forall|k: int|
                    0 <= k < r.len() ==> setting_from(items@[k], #[trigger] r@[k]),
                None => r.len() == 0,
            },
    {
        let mut out: Vec<PluginConfigItem> = Vec::new();
        match &self.manifest.config {
            Some(items) => {
                let mut i: usize = 0;
                while i < items.len()
                    invariant
                        i <= items.len(),
                        out.len() == i,
                        forall|k: int| 0 <= k < i ==> setting_from(items@[k], #[trigger] out@[k]),
                    decreases items.len() - i,
                {
                    out.push(setting_of(&items[i]));
                    i = i + 1;
                }
            },
            None => {},
        }
        out
    }
}

/// A plugin setting as it is handed to a plugin command in JSON: text,
/// integers and booleans as themselves, a float by its bit pattern (turned
/// into a JSON number by the program around the library), anything else
/// as null.
#[derive(Debug)]
pub enum JsonSetting {
    Text(String),
    Integer(i64),
    FloatBits(u64),
    Boolean(bool),
    Null,
}

/// The JSON form of a plugin setting.
pub fn json_setting(v: &ConfigValue) -> (r: JsonSetting)
    ensures
        match *v {
            ConfigValue::Text(s) => r matches JsonSetting::Text(t) && t@ == s@,
            ConfigValue::Integer(i) => r matches JsonSetting::Integer(j) && j == i,
            ConfigValue::FloatBits(b) => r matches JsonSetting::FloatBits(c) && c == b,
            ConfigValue::Boolean(b) => r matches JsonSetting::Boolean(c) && c == b,
            ConfigValue::Other(_) => r is Null,
        },
{
    match v {
        ConfigValue::Text(s) => JsonSetting::Text(s.clone()),
        ConfigValue::Integer(i) => JsonSetting::Integer(*i),
        ConfigValue::FloatBits(b) => JsonSetting::FloatBits(*b),
        ConfigValue::Boolean(b) => JsonSetting::Boolean(*b),
        ConfigValue::Other(_) => JsonSetting::Null,
    }
}

/// The query text a plugin command receives: the trimmed query, or
/// nothing (and no command run) when it is empty.
pub fn command_query(query: &str) -> (r: Option<&str>)
    ensures
        r is Some == (trim_seq(query@).len() > 0),
        r matches Some(q) ==> q@ == trim_seq(query@),
{
    let q = trim(query);
    if q.unicode_len() == 0 {
        None
    } else {
        Some(q)
    }
}

/// The search result a printed result line describes.
pub fn result_from_output(item: PluginResult) -> (r: SearchResult)
    ensures
        result_from(item, r),
{
    let subtitle = copy_text(&item.subtitle);
    let pinned = match item.pinned {
        Some(b) => b,
        None => false,
    };
    let action = match item.action {
        Some(PluginResultAction::OpenUri { uri }) => PluginAction::OpenUri(uri),
        Some(PluginResultAction::CopyText { text }) => PluginAction::CopyText(text),
        _ => PluginAction::Noop,
    };
    SearchResult {
        title: item.title,
        subtitle,
        icon: item.icon,
        pinned,
        action,
        buttons: Vec::new(),
        refresh_key: None,
        refresh_interval_ms: None,
        source_plugin_id: None,
    }
}

/// The search results the printed result lines describe, in order.
pub fn results_from_output(items: Vec<PluginResult>) -> (r: Vec<SearchResult>)
    ensures
        r.len() == items.len(),
        forall|k: int| 0 <= k < r.len() ==> result_from(items@[k], #[trigger] r@[k]),
{
    let ghost input = items@;
    let mut out: Vec<SearchResult> = Vec::new();
    for item in it: items
        invariant
            it.seq() == input,
            out.len() == it.index(),
            forall|k: int| 0 <= k < out.len() ==> result_from(input[k], #[trigger] out@[k]),
    {
        out.push(result_from_output(item));
    }
    out
}

} // verus!
