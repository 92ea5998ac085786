//! The launcher's configuration: window geometry, per-plugin settings and
//! usage counters, with the queries the search path makes of them.
use crate::text::{starts_with_seq, strip_prefix, trim, trim_seq, trim_start, trim_start_seq};
use indexmap::IndexMap;
use vstd::prelude::*;

verus! {

#[verifier::external_type_specification]
#[verifier::external_body]
#[verifier::reject_recursive_types(K)]
#[verifier::reject_recursive_types(V)]
#[verifier::reject_recursive_types(S)]
pub struct ExIndexMap<K, V, S>(IndexMap<K, V, S>);

/// A plugin setting value. Floats are carried as their IEEE-754 bit
/// pattern; dates, arrays and tables as their TOML text.
#[derive(Debug, Clone)]
pub enum ConfigValue {
    Boolean(bool),
    Text(String),
    Integer(i64),
    FloatBits(u64),
    Other(String),
}

impl ConfigValue {
    pub open spec fn bool_value(self) -> Option<bool> {
        match self {
            ConfigValue::Boolean(b) => Some(b),
            _ => None,
        }
    }

    pub open spec fn text_value(self) -> Option<Seq<char>> {
        match self {
            ConfigValue::Text(s) => Some(s@),
            _ => None,
        }
    }

    /// The boolean held, if this is a boolean.
    pub fn as_bool(&self) -> (r: Option<bool>)
        ensures
            r == self.bool_value(),
    {
        match self {
            ConfigValue::Boolean(b) => Some(*b),
            _ => None,
        }
    }

    /// The text held, if this is a string.
    pub fn as_str(&self) -> (r: Option<&str>)
        ensures
            r is Some == self.text_value() is Some,
            r matches Some(s) ==> self.text_value() == Some(s@),
    {
        match self {
            ConfigValue::Text(s) => Some(s.as_str()),
            _ => None,
        }
    }
}

/// Geometry of the launcher window.
#[derive(Debug, Clone, Copy)]
pub struct WindowConfig {
    pub host_width: i32,
    pub host_height: i32,
    pub panel_width: i32,
    pub panel_offset_y: i32,
    pub max_visible_results: i32,
}

/// Settings of one plugin.
#[derive(Debug)]
pub struct PluginConfig {
    pub enabled: bool,
    pub show_in_global_search: bool,
    pub trigger_prefix: String,
    pub custom: IndexMap<String, ConfigValue>,
}

/// Everything the launcher stores in its configuration file.
#[derive(Debug)]
pub struct AppConfig {
    pub locale: String,
    pub shortcut: String,
    pub shortcuts_enabled: bool,
    pub tray_enabled: bool,
    pub usage_ranking_enabled: bool,
    pub pinyin_search_enabled: bool,
    pub window: WindowConfig,
    pub plugins: IndexMap<String, PluginConfig>,
    pub usage: IndexMap<String, u32>,
}

/// The entries of a usage-counter map, by key.
pub uninterp spec fn usage_entries(m: IndexMap<String, u32>) -> Map<Seq<char>, u32>;

/// The entries of a plugin-settings map, by plugin id.
pub uninterp spec fn plugin_entries(m: IndexMap<String, PluginConfig>) -> Map<
    Seq<char>,
    PluginConfig,
>;

/// The entries of a custom-settings map, by key.
pub uninterp spec fn custom_entries(m: IndexMap<String, ConfigValue>) -> Map<
    Seq<char>,
    ConfigValue,
>;

/// The keys of a custom-settings map, in the map's order.
pub uninterp spec fn custom_order(m: IndexMap<String, ConfigValue>) -> Seq<Seq<char>>;

/// Calls `IndexMap::new` for usage counters: an empty map.
#[verifier::external_body]
fn usage_map_new() -> (m: IndexMap<String, u32>)
    ensures
        usage_entries(m).dom() == Set::<Seq<char>>::empty(),
{
    IndexMap::new()
}

/// Calls `IndexMap::get` on usage counters: the value stored under `key`.
#[verifier::external_body]
fn usage_map_get(m: &IndexMap<String, u32>, key: &str) -> (r: Option<u32>)
    ensures
        r == (if usage_entries(*m).contains_key(key@) {
            Some(usage_entries(*m)[key@])
        } else {
            None
        }),
{
    m.get(key).copied()
}

/// Calls `IndexMap::insert` on usage counters: `key` now maps to `value`,
/// every other entry is kept.
#[verifier::external_body]
fn usage_map_insert(m: &mut IndexMap<String, u32>, key: String, value: u32)
    ensures
        usage_entries(*final(m)) == usage_entries(*old(m)).insert(key@, value),
{
    m.insert(key, value);
}

/// Calls `IndexMap::new` for plugin settings: an empty map.
#[verifier::external_body]
fn plugin_map_new() -> (m: IndexMap<String, PluginConfig>)
    ensures
        plugin_entries(m).dom() == Set::<Seq<char>>::empty(),
{
    IndexMap::new()
}

/// Calls `IndexMap::get` on plugin settings: the entry stored under `id`.
#[verifier::external_body]
fn plugin_map_get<'a>(m: &'a IndexMap<String, PluginConfig>, id: &str) -> (r: Option<
    &'a PluginConfig,
>)
    ensures
        r is Some == plugin_entries(*m).contains_key(id@),
        r matches Some(p) ==> *p == plugin_entries(*m)[id@],
{
    m.get(id)
}

/// Calls `IndexMap::new` for custom settings: an empty map.
#[verifier::external_body]
fn custom_map_new() -> (m: IndexMap<String, ConfigValue>)
    ensures
        custom_entries(m).dom() == Set::<Seq<char>>::empty(),
        custom_order(m).len() == 0,
{
    IndexMap::new()
}

/// Calls `IndexMap::get` on custom settings: the value stored under `key`.
#[verifier::external_body]
pub(crate) fn custom_map_get<'a>(m: &'a IndexMap<String, ConfigValue>, key: &str) -> (r: Option<
    &'a ConfigValue,
>)
    ensures
        r is Some == custom_entries(*m).contains_key(key@),
        r matches Some(v) ==> *v == custom_entries(*m)[key@],
{
    m.get(key)
}

/// Calls `IndexMap::clone` on custom settings: the copy holds the same
/// entries in the same order.
#[verifier::external_body]
fn custom_map_clone(m: &IndexMap<String, ConfigValue>) -> (r: IndexMap<String, ConfigValue>)
    ensures
        custom_entries(r) == custom_entries(*m),
        custom_order(r) == custom_order(*m),
{
    m.clone()
}

/// A plugin's settings as plain values.
pub ghost struct PluginSettings {
    pub enabled: bool,
    pub show_in_global_search: bool,
    pub trigger_prefix: Seq<char>,
    pub custom: Map<Seq<char>, ConfigValue>,
}

impl View for PluginConfig {
    type V = PluginSettings;

    open spec fn view(&self) -> PluginSettings {
        PluginSettings {
            enabled: self.enabled,
            show_in_global_search: self.show_in_global_search,
            trigger_prefix: self.trigger_prefix@,
            custom: custom_entries(self.custom),
        }
    }
}

/// Settings of a plugin that the configuration does not mention.
pub open spec fn default_plugin_settings() -> PluginSettings {
    PluginSettings {
        enabled: true,
        show_in_global_search: true,
        trigger_prefix: Seq::empty(),
        custom: Map::empty(),
    }
}

/// The settings in force for plugin `id` under `cfg`.
pub open spec fn settings_for(cfg: AppConfig, id: Seq<char>) -> PluginSettings {
    if plugin_entries(cfg.plugins).contains_key(id) {
        plugin_entries(cfg.plugins)[id]@
    } else {
        default_plugin_settings()
    }
}

/// The query a plugin receives for the typed `query`: none when disabled,
/// the query itself when it takes part in global search, and otherwise the
/// rest of the query after its trigger prefix.
pub open spec fn routed_query(p: PluginSettings, query: Seq<char>) -> Option<Seq<char>> {
    if !p.enabled {
        None
    } else if p.show_in_global_search {
        Some(query)
    } else {
        let prefix = trim_seq(p.trigger_prefix);
        if prefix.len() == 0 || !starts_with_seq(query, prefix) {
            None
        } else {
            Some(trim_start_seq(query.skip(prefix.len() as int)))
        }
    }
}

/// How many times the entry `key` was used.
pub open spec fn usage_of(cfg: AppConfig, key: Seq<char>) -> u32 {
    if usage_entries(cfg.usage).contains_key(key) {
        usage_entries(cfg.usage)[key]
    } else {
        0
    }
}

/// `n + 1`, or `n` at the top of the range.
pub open spec fn bumped(n: u32) -> u32 {
    if n == u32::MAX {
        n
    } else {
        (n + 1) as u32
    }
}

/// How many results the launcher shows at once unless configured.
pub fn default_max_visible_results() -> (r: i32)
    ensures
        r == 6,
{
    6
}

/// Whether the global shortcut is on unless configured.
pub fn default_shortcuts_enabled() -> (r: bool)
    ensures
        r,
{
    true
}

/// Whether the tray icon is on unless configured.
pub fn default_tray_enabled() -> (r: bool)
    ensures
        r,
{
    true
}

/// Whether results are ranked by usage unless configured.
pub fn default_usage_ranking_enabled() -> (r: bool)
    ensures
        r,
{
    true
}

/// Whether pinyin matching is on unless configured.
pub fn default_pinyin_search_enabled() -> (r: bool)
    ensures
        r,
{
    true
}

/// Whether a plugin is on unless configured.
pub fn default_plugin_enabled() -> (r: bool)
    ensures
        r,
{
    true
}

/// Whether a plugin answers global searches unless configured.
pub fn default_plugin_show_in_global_search() -> (r: bool)
    ensures
        r,
{
    true
}

impl Default for PluginConfig {
    fn default() -> (r: Self)
        ensures
            r@ == default_plugin_settings(),
            custom_order(r.custom).len() == 0,
    {
        let r = PluginConfig {
            enabled: default_plugin_enabled(),
            show_in_global_search: default_plugin_show_in_global_search(),
            trigger_prefix: String::new(),
            custom: custom_map_new(),
        };
        assert(r@.custom =~= default_plugin_settings().custom);
        r
    }
}

impl AppConfig {
    /// The values of the configuration that a first start writes.
    pub open spec fn is_initial(self) -> bool {
        &&& self.locale@ == "zh-CN"@
        &&& self.shortcut@ == "LOGO+space"@
        &&& self.shortcuts_enabled
        &&& self.tray_enabled
        &&& self.usage_ranking_enabled
        &&& self.pinyin_search_enabled
        &&& self.window.host_width == 960
        &&& self.window.host_height == 620
        &&& self.window.panel_width == 720
        &&& self.window.panel_offset_y == 92
        &&& self.window.max_visible_results == 6
        &&& plugin_entries(self.plugins).dom() == Set::<Seq<char>>::empty()
        &&& usage_entries(self.usage).dom() == Set::<Seq<char>>::empty()
    }
}

impl Default for AppConfig {
    fn default() -> (r: Self)
        ensures
            r.is_initial(),
    {
        AppConfig {
            locale: String::from_str("zh-CN"),
            shortcut: String::from_str("LOGO+space"),
            shortcuts_enabled: default_shortcuts_enabled(),
            tray_enabled: default_tray_enabled(),
            usage_ranking_enabled: default_usage_ranking_enabled(),
            pinyin_search_enabled: default_pinyin_search_enabled(),
            window: WindowConfig {
                host_width: 960,
                host_height: 620,
                panel_width: 720,
                panel_offset_y: 92,
                max_visible_results: default_max_visible_results(),
            },
            plugins: plugin_map_new(),
            usage: usage_map_new(),
        }
    }
}

/// The configuration in memory; the program around the library reads and
/// writes the file behind it.
pub struct ConfigStore {
    config: AppConfig,
}

impl ConfigStore {
    /// The configuration held.
    pub closed spec fn cfg(&self) -> AppConfig {
        self.config
    }

    /// A store holding `config`.
    pub fn from_config(config: AppConfig) -> (r: Self)
        ensures
            r.cfg() == config,
    {
        ConfigStore { config }
    }

    /// The configuration held.
    pub fn current(&self) -> (r: &AppConfig)
        ensures
            *r == self.cfg(),
    {
        &self.config
    }

    /// The configuration held, for changing it in place.
    pub fn current_mut(&mut self) -> (r: &mut AppConfig)
        ensures
            *r == old(self).cfg(),
            final(self).cfg() == *final(r),
    {
        &mut self.config
    }

    /// The settings in force for plugin `id`: its entry, or the defaults.
    pub fn plugin_config(&self, id: &str) -> (r: PluginConfig)
        ensures
            r@ == settings_for(self.cfg(), id@),
            plugin_entries(self.cfg().plugins).contains_key(id@) ==> custom_order(r.custom)
                == custom_order(plugin_entries(self.cfg().plugins)[id@].custom),
            !plugin_entries(self.cfg().plugins).contains_key(id@) ==> custom_order(r.custom).len()
                == 0,
    {
        match plugin_map_get(&self.config.plugins, id) {
            Some(p) => PluginConfig {
                enabled: p.enabled,
                show_in_global_search: p.show_in_global_search,
                trigger_prefix: p.trigger_prefix.clone(),
                custom: custom_map_clone(&p.custom),
            },
            None => PluginConfig::default(),
        }
    }

    /// The query that plugin `id` receives for the typed `query`, if any.
    pub fn plugin_query<'a>(&self, id: &str, query: &'a str) -> (r: Option<&'a str>)
        ensures
            r is Some == routed_query(settings_for(self.cfg(), id@), query@) is Some,
            r matches Some(q) ==> routed_query(settings_for(self.cfg(), id@), query@) == Some(
                q@,
            ),
    {
        let plugin = self.plugin_config(id);
        if !plugin.enabled {
            return None;
        }
        if plugin.show_in_global_search {
            return Some(query);
        }
        let prefix = trim(plugin.trigger_prefix.as_str());
        if prefix.unicode_len() == 0 {
            return None;
        }
        match strip_prefix(query, prefix) {
            Some(rest) => Some(trim_start(rest)),
            None => None,
        }
    }

    /// How many times the entry `key` was used.
    pub fn usage_count(&self, key: &str) -> (r: u32)
        ensures
            r == usage_of(self.cfg(), key@),
    {
        match usage_map_get(&self.config.usage, key) {
            Some(n) => n,
            None => 0,
        }
    }

    /// Counts one more use of the entry `key` (saturating); the rest of
    /// the configuration is kept.
    pub fn record_usage(&mut self, key: &str)
        ensures
            usage_entries(final(self).cfg().usage) == usage_entries(old(self).cfg().usage).insert(
                key@,
                bumped(usage_of(old(self).cfg(), key@)),
            ),
            final(self).cfg().locale == old(self).cfg().locale,
            final(self).cfg().shortcut == old(self).cfg().shortcut,
            final(self).cfg().shortcuts_enabled == old(self).cfg().shortcuts_enabled,
            final(self).cfg().tray_enabled == old(self).cfg().tray_enabled,
            final(self).cfg().usage_ranking_enabled == old(self).cfg().usage_ranking_enabled,
            final(self).cfg().pinyin_search_enabled == old(self).cfg().pinyin_search_enabled,
            final(self).cfg().window == old(self).cfg().window,
            final(self).cfg().plugins == old(self).cfg().plugins,
    {
        let count = self.usage_count(key);
        let next = count.saturating_add(1);
        usage_map_insert(&mut self.config.usage, String::from_str(key), next);
    }
}

/// Reading a counter after recording a use gives the old count plus one
/// (saturating), and leaves every other counter as it was.
pub proof fn lemma_record_then_count(before: AppConfig, after: AppConfig, key: Seq<char>, other: Seq<char>)
    requires
        usage_entries(after.usage) == usage_entries(before.usage).insert(
            key,
            bumped(usage_of(before, key)),
        ),
    ensures
        usage_of(after, key) == bumped(usage_of(before, key)),
        other != key ==> usage_of(after, other) == usage_of(before, other),
{
}

} // verus!
