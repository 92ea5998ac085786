//! Translated user-interface strings, looked up by key.
use std::collections::BTreeMap;
use vstd::prelude::*;

verus! {

/// The bundled English message catalog, in TOML.
pub const EN_US: &'static str = "app_name = \"Gpotlight\"\n\
placeholder = \"Search apps, actions and the web\"\n\
settings = \"Settings\"\n\
shortcut = \"Shortcut\"\n\
enable_shortcut = \"Enable global shortcut\"\n\
configure_shortcut = \"Configure shortcut\"\n\
configure = \"Configure\"\n\
enable_tray = \"Show tray icon\"\n\
window_position = \"Window\"\n\
max_visible_results = \"Visible results\"\n\
plugins = \"Plugins\"\n\
open_settings = \"Open settings\"\n\
quit = \"Quit\"\n";

/// The bundled Chinese message catalog, in TOML.
pub const ZH_CN: &'static str = "app_name = \"Gpotlight\"\n\
placeholder = \"搜索应用、操作和网页\"\n\
settings = \"设置\"\n\
shortcut = \"快捷键\"\n\
enable_shortcut = \"启用全局快捷键\"\n\
configure_shortcut = \"配置快捷键\"\n\
configure = \"配置\"\n\
enable_tray = \"显示托盘图标\"\n\
window_position = \"窗口\"\n\
max_visible_results = \"可见结果数\"\n\
plugins = \"插件\"\n\
open_settings = \"打开设置\"\n\
quit = \"退出\"\n";

/// The string table that a TOML catalog text holds, or nothing where the
/// text is not a TOML table of strings.
pub uninterp spec fn catalog_table(raw: Seq<char>) -> Option<Map<Seq<char>, Seq<char>>>;

/// Calls `toml::from_str` to read a catalog text as a table of strings;
/// the entries come out once each, ordered by key.
#[verifier::external_body]
fn parse_catalog(raw: &str) -> (r: Option<Vec<(String, String)>>)
    ensures
        r is Some == catalog_table(raw@) is Some,
        r matches Some(v) ==> forall|k: Seq<char>| #[trigger] lookup(v@, k) == table_entry(
            catalog_table(raw@),
            k,
        ),
{
    match toml::from_str::<BTreeMap<String, String>>(raw) {
        Ok(table) => Some(table.into_iter().collect()),
        Err(_) => None,
    }
}

/// The text stored for `key` in a table read from a catalog; nothing where
/// the catalog could not be read.
pub open spec fn table_entry(table: Option<Map<Seq<char>, Seq<char>>>, key: Seq<char>) -> Option<
    Seq<char>,
> {
    match table {
        Some(m) => if m.contains_key(key) {
            Some(m[key])
        } else {
            None
        },
        None => None,
    }
}

/// The bundled catalog text of a catalog.
pub open spec fn catalog_text(c: Catalog) -> Seq<char> {
    match c {
        Catalog::EnUs => EN_US@,
        Catalog::ZhCn => ZH_CN@,
    }
}

/// The catalog a locale uses: English for `en-US`, Chinese otherwise.
pub open spec fn catalog_of(locale: Seq<char>) -> Catalog {
    if locale == "en-US"@ {
        Catalog::EnUs
    } else {
        Catalog::ZhCn
    }
}

/// The first translation stored for `key`, if any.
pub open spec fn lookup(entries: Seq<(String, String)>, key: Seq<char>) -> Option<Seq<char>>
    decreases entries.len(),
{
    if entries.len() == 0 {
        None
    } else if entries[0].0@ == key {
        Some(entries[0].1@)
    } else {
        lookup(entries.drop_first(), key)
    }
}

/// Which bundled message catalog a locale uses.
#[derive(Debug, Clone, Copy, PartialEq, Eq, Structural)]
pub enum Catalog {
    EnUs,
    ZhCn,
}

/// The catalog for `locale`: English for `en-US`, Chinese otherwise.
pub fn catalog_for_locale(locale: &str) -> (c: Catalog)
    ensures
        c == catalog_of(locale@),
{
    let en = "en-US";
    proof {
        reveal_strlit("en-US");
    }
    if crate::text::same_text(locale, en) {
        Catalog::EnUs
    } else {
        Catalog::ZhCn
    }
}

/// A message catalog.
pub struct I18n {
    messages: Vec<(String, String)>,
}

impl I18n {
    /// The translation stored for `key`, if any.
    pub closed spec fn translation(&self, key: Seq<char>) -> Option<Seq<char>> {
        lookup(self.messages@, key)
    }

    /// A catalog of the given (key, text) pairs.
    pub fn from_entries(messages: Vec<(String, String)>) -> (r: Self)
        ensures
            forall|k: Seq<char>| #[trigger] r.translation(k) == lookup(messages@, k),
    {
        I18n { messages }
    }

    /// The catalog a TOML text holds; an empty catalog where the text is
    /// not a table of strings.
    pub fn from_catalog(raw: &str) -> (r: Self)
        ensures
            forall|k: Seq<char>| #[trigger] r.translation(k) == table_entry(catalog_table(raw@), k),
    {
        match parse_catalog(raw) {
            Some(entries) => I18n::from_entries(entries),
            None => I18n::from_entries(Vec::new()),
        }
    }

    /// The bundled catalog for `locale`: English for `en-US`, Chinese
    /// otherwise; empty where the bundled text cannot be read.
    pub fn load(locale: &str) -> (r: Self)
        ensures
            forall|k: Seq<char>| #[trigger] r.translation(k) == table_entry(
                catalog_table(catalog_text(catalog_of(locale@))),
                k,
            ),
    {
        let raw = match catalog_for_locale(locale) {
            Catalog::EnUs => EN_US,
            Catalog::ZhCn => ZH_CN,
        };
        I18n::from_catalog(raw)
    }

    /// The text for `key`, or `key` itself where the catalog has none.
    pub fn t(&self, key: &str) -> (r: String)
        ensures
            r@ == (match self.translation(key@) {
                Some(text) => text,
                None => key@,
            }),
    {
        let mut i: usize = 0;
        proof {
            assert(self.messages@.skip(0) =~= self.messages@);
        }
        while i < self.messages.len()
            invariant
                i <= self.messages.len(),
                lookup(self.messages@.skip(i as int), key@) == lookup(self.messages@, key@),
            decreases self.messages.len() - i,
        {
            proof {
                assert(self.messages@.skip(i as int)[0] == self.messages@[i as int]);
                assert(self.messages@.skip(i as int).drop_first() =~= self.messages@.skip(i + 1));
            }
            if crate::text::same_text(self.messages[i].0.as_str(), key) {
                return self.messages[i].1.clone();
            }
            i = i + 1;
        }
        String::from_str(key)
    }
}

} // verus!
