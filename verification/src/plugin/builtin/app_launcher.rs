//! Results for the installed desktop applications, matched by name,
//! description or pinyin spelling.
use crate::config::{custom_entries, custom_map_get, AppConfig, ConfigValue, PluginConfig};
use crate::plugin::{PluginAction, PluginConfigItem, PluginConfigKind, SearchPlugin, SearchResult};
use crate::text::{
    chars_of, contains, contains_seq, lines, lines_seq, lowercase_of, owned, push_char,
    starts_with_seq, strip_prefix, texts_of, to_lowercase, trim, trim_seq,
};
use pinyin::ToPinyin;
use vstd::prelude::*;

verus! {

/// The plain (toneless) pinyin spelling of a Chinese character, where the
/// pinyin tables have one.
pub uninterp spec fn pinyin_plain_of(c: char) -> Option<Seq<char>>;

/// Calls `pinyin::ToPinyin::to_pinyin` on one character and reads the
/// plain spelling of the result; the contract names it.
#[verifier::external_body]
fn char_pinyin(c: char) -> (r: Option<String>)
    ensures
        r is Some == pinyin_plain_of(c) is Some,
        r matches Some(p) ==> p@ == pinyin_plain_of(c).unwrap(),
{
    match c.to_pinyin() {
        Some(p) => Some(p.plain().to_string()),
        None => None,
    }
}

/// The first character of `s`, or nothing.
pub open spec fn first_char(s: Seq<char>) -> Seq<char> {
    if s.len() > 0 {
        seq![s[0]]
    } else {
        Seq::empty()
    }
}

/// The concatenated plain spellings and the concatenated initials of the
/// characters of `text` that have a pinyin spelling.
pub open spec fn pinyin_parts(text: Seq<char>) -> (Seq<char>, Seq<char>)
    decreases text.len(),
{
    if text.len() == 0 {
        (Seq::empty(), Seq::empty())
    } else {
        let (plain, initials) = pinyin_parts(text.drop_last());
        match pinyin_plain_of(text.last()) {
            Some(p) => (plain + p, initials + first_char(p)),
            None => (plain, initials),
        }
    }
}

/// The text an application name is also matched against: its pinyin
/// spelling and its initials, both lowercased, separated by a space.
pub open spec fn pinyin_text(text: Seq<char>) -> Seq<char> {
    lowercase_of(pinyin_parts(text).0) + seq![' '] + lowercase_of(pinyin_parts(text).1)
}

/// The pinyin search text of `text`.
pub fn pinyin_search_text(text: &str) -> (r: String)
    ensures
        r@ == pinyin_text(text@),
{
    let v = chars_of(text);
    let mut plain = String::new();
    let mut initials = String::new();
    let mut i: usize = 0;
    while i < v.len()
        invariant
            v@ == text@,
            i <= v.len(),
            (plain@, initials@) == pinyin_parts(text@.take(i as int)),
        decreases v.len() - i,
    {
        proof {
            assert(text@.take(i + 1).drop_last() =~= text@.take(i as int));
        }
        match char_pinyin(v[i]) {
            Some(p) => {
                plain.append(p.as_str());
                let pc = chars_of(p.as_str());
                if pc.len() > 0 {
                    push_char(&mut initials, pc[0]);
                } else {
                    assert(initials@ + first_char(p@) =~= initials@);
                }
            },
            None => {},
        }
        i = i + 1;
    }
    assert(text@.take(v.len() as int) =~= text@);
    let mut r = to_lowercase(plain.as_str());
    push_char(&mut r, ' ');
    let tail = to_lowercase(initials.as_str());
    r.append(tail.as_str());
    r
}

/// An installed application.
pub struct DesktopApp {
    pub id: String,
    pub name: String,
    pub comment: String,
    pub icon: Option<String>,
    pub pinyin: String,
}

/// Whether `app` matches the lowercased `needle`: by name, description,
/// or (when enabled) pinyin spelling.
pub open spec fn app_matches(app: DesktopApp, needle: Seq<char>, pinyin_enabled: bool) -> bool {
    ||| contains_seq(lowercase_of(app.name@), needle)
    ||| contains_seq(lowercase_of(app.comment@), needle)
    ||| (pinyin_enabled && contains_seq(app.pinyin@, needle))
}

impl DesktopApp {
    /// An application with its pinyin search text computed from its name.
    pub fn new(id: String, name: String, comment: String, icon: Option<String>) -> (r: Self)
        ensures
            r.id == id,
            r.name == name,
            r.comment == comment,
            r.icon == icon,
            r.pinyin@ == pinyin_text(name@),
    {
        let pinyin = pinyin_search_text(name.as_str());
        DesktopApp { id, name, comment, icon, pinyin }
    }

    /// Whether this application matches the lowercased `needle`.
    pub fn matches(&self, needle: &str, pinyin_enabled: bool) -> (b: bool)
        ensures
            b == app_matches(*self, needle@, pinyin_enabled),
    {
        let name = to_lowercase(self.name.as_str());
        if contains(name.as_str(), needle) {
            return true;
        }
        let comment = to_lowercase(self.comment.as_str());
        if contains(comment.as_str(), needle) {
            return true;
        }
        pinyin_enabled && contains(self.pinyin.as_str(), needle)
    }
}

/// The applications among `apps` that match `needle`, in order.
pub open spec fn matching_apps(apps: Seq<DesktopApp>, needle: Seq<char>, pinyin_enabled: bool) -> Seq<
    DesktopApp,
>
    decreases apps.len(),
{
    if apps.len() == 0 {
        apps
    } else if app_matches(apps.last(), needle, pinyin_enabled) {
        matching_apps(apps.drop_last(), needle, pinyin_enabled).push(apps.last())
    } else {
        matching_apps(apps.drop_last(), needle, pinyin_enabled)
    }
}

proof fn lemma_matching_apps(apps: Seq<DesktopApp>, needle: Seq<char>, pinyin_enabled: bool)
    ensures
        forall|x: DesktopApp| #[trigger]
            matching_apps(apps, needle, pinyin_enabled).contains(x) <==> (apps.contains(x)
                && app_matches(x, needle, pinyin_enabled)),
    decreases apps.len(),
{
    if apps.len() > 0 {
        let init = apps.drop_last();
        lemma_matching_apps(init, needle, pinyin_enabled);
        let m = matching_apps(apps, needle, pinyin_enabled);
        let mi = matching_apps(init, needle, pinyin_enabled);
        if app_matches(apps.last(), needle, pinyin_enabled) {
            assert(m == mi.push(apps.last()));
        } else {
            assert(m == mi);
        }
        assert forall|x: DesktopApp| #[trigger] m.contains(x) <==> (apps.contains(x) && app_matches(
            x,
            needle,
            pinyin_enabled,
        )) by {
            if m.contains(x) {
                let k = choose|k: int| 0 <= k < m.len() && m[k] == x;
                if k < mi.len() {
                    assert(mi[k] == x);
                    assert(mi.contains(x));
                    let j = choose|j: int| 0 <= j < init.len() && init[j] == x;
                    assert(apps[j] == x);
                } else {
                    assert(app_matches(apps.last(), needle, pinyin_enabled));
                    assert(x == apps.last());
                    assert(apps[apps.len() - 1] == x);
                }
            }
            if apps.contains(x) && app_matches(x, needle, pinyin_enabled) {
                let j = choose|j: int| 0 <= j < apps.len() && apps[j] == x;
                if j < apps.len() - 1 {
                    assert(init[j] == x);
                    assert(init.contains(x));
                    assert(mi.contains(x));
                    let k = choose|k: int| 0 <= k < mi.len() && mi[k] == x;
                    assert(m[k] == x);
                } else {
                    assert(x == apps.last());
                    assert(m[m.len() - 1] == x);
                }
            }
        }
    }
}

/// Application search ignores case: an application is among the results
/// for `query` exactly when the lowercased, trimmed query occurs in the
/// lowercase of its name or of its description, or (when pinyin matching
/// is on) in its pinyin text. So "Firefox" is found by "firefox",
/// "FireFox" and "FIREFOX" alike.
pub proof fn app_search_ignores_case(
    apps: Seq<DesktopApp>,
    query: Seq<char>,
    pinyin_enabled: bool,
    k: int,
)
    requires
        0 <= k < apps.len(),
    ensures
        ({
            let needle = lowercase_of(trim_seq(query));
            matching_apps(apps, needle, pinyin_enabled).contains(apps[k]) <==> (contains_seq(
                lowercase_of(apps[k].name@),
                needle,
            ) || contains_seq(lowercase_of(apps[k].comment@), needle) || (pinyin_enabled
                && contains_seq(apps[k].pinyin@, needle)))
        }),
{
    let needle = lowercase_of(trim_seq(query));
    lemma_matching_apps(apps, needle, pinyin_enabled);
    assert(apps.contains(apps[k]));
}

/// Whether `r` is the result that launches `app`, with the shared icon when
/// `unified`, else the application's own or a generic one.
pub open spec fn is_app_result(r: SearchResult, app: DesktopApp, unified: bool) -> bool {
    &&& r.title@ == app.name@
    &&& r.subtitle@ == app.comment@
    &&& r.icon matches Some(i) && i@ == (if unified {
        "applications-system-symbolic"@
    } else {
        match app.icon {
            Some(own) => own@,
            None => "application-x-executable-symbolic"@,
        }
    })
    &&& !r.pinned
    &&& r.action matches PluginAction::LaunchDesktopFile(id) && id@ == app.id@
    &&& r.buttons@.len() == 0
    &&& r.refresh_key is None
    &&& r.refresh_interval_ms is None
    &&& r.source_plugin_id is None
}

/// Whether the settings ask for one icon for every application.
pub open spec fn unified_icon(config: PluginConfig) -> bool {
    let custom = custom_entries(config.custom);
    custom.contains_key("use_unified_icon"@) && custom["use_unified_icon"@].bool_value()
        == Some(true)
}

/// The plugin offering installed applications.
pub struct AppLauncherPlugin {
    apps: Vec<DesktopApp>,
}

impl AppLauncherPlugin {
    /// The applications offered.
    pub closed spec fn apps(&self) -> Seq<DesktopApp> {
        self.apps@
    }

    /// A plugin offering `apps`.
    pub fn from_apps(apps: Vec<DesktopApp>) -> (r: Self)
        ensures
            r.apps() == apps@,
    {
        AppLauncherPlugin { apps }
    }
}

fn app_result(app: &DesktopApp, unified: bool) -> (r: SearchResult)
    ensures
        is_app_result(r, *app, unified),
{
    let icon = if unified {
        owned("applications-system-symbolic")
    } else {
        match &app.icon {
            Some(own) => own.clone(),
            None => owned("application-x-executable-symbolic"),
        }
    };
    SearchResult {
        title: app.name.clone(),
        subtitle: app.comment.clone(),
        icon: Some(icon),
        pinned: false,
        action: PluginAction::LaunchDesktopFile(app.id.clone()),
        buttons: Vec::new(),
        refresh_key: None,
        refresh_interval_ms: None,
        source_plugin_id: None,
    }
}

fn unified_of(config: &PluginConfig) -> (b: bool)
    ensures
        b == unified_icon(*config),
{
    match custom_map_get(&config.custom, "use_unified_icon") {
        Some(v) => match v.as_bool() {
            Some(b) => b,
            None => false,
        },
        None => false,
    }
}

impl SearchPlugin for AppLauncherPlugin {
    fn id(&self) -> (r: &str)
        ensures
            r@ == "builtin.app-launcher"@,
    {
        "builtin.app-launcher"
    }

    fn name(&self) -> (r: &str)
        ensures
            r@ == "Applications"@,
    {
        "Applications"
    }

    fn description(&self) -> (r: &str)
        ensures
            r@ == "Search installed desktop applications"@,
    {
        "Search installed desktop applications"
    }

    /// The unified-icon setting.
    fn config_items(&self) -> (r: Vec<PluginConfigItem>)
        ensures
            r.len() == 1,
            r@[0].key@ == "use_unified_icon"@,
            r@[0].title@ == "Use unified icon"@,
            r@[0].description@ == "Show the same icon for all application results"@,
            r@[0].kind matches PluginConfigKind::Bool,
            r@[0].default_value == ConfigValue::Boolean(false),
    {
        let mut r: Vec<PluginConfigItem> = Vec::new();
        r.push(
            PluginConfigItem {
                key: owned("use_unified_icon"),
                title: owned("Use unified icon"),
                description: owned("Show the same icon for all application results"),
                kind: PluginConfigKind::Bool,
                default_value: ConfigValue::Boolean(false),
            },
        );
        r
    }

    /// The matching applications under the default settings.
    fn query(&self, query: &str) -> (r: Vec<SearchResult>)
        ensures
            lowercase_of(trim_seq(query@)).len() == 0 ==> r.len() == 0,
            lowercase_of(trim_seq(query@)).len() > 0 ==> {
                let m = matching_apps(self.apps(), lowercase_of(trim_seq(query@)), true);
                &&& r.len() == m.len()
                &&& forall|k: int| 0 <= k < r.len() ==> is_app_result(#[trigger] r@[k], m[k], false)
            },
    {
        let config = PluginConfig::default();
        let app_config = AppConfig::default();
        self.query_with_config(query, &config, &app_config)
    }

    /// A result for each application matching the trimmed, lowercased
    /// query, in order; none for a blank query.
    fn query_with_config(
        &self,
        query: &str,
        config: &PluginConfig,
        app_config: &AppConfig,
    ) -> (r: Vec<SearchResult>)
        ensures
            lowercase_of(trim_seq(query@)).len() == 0 ==> r.len() == 0,
            lowercase_of(trim_seq(query@)).len() > 0 ==> {
                let m = matching_apps(
                    self.apps(),
                    lowercase_of(trim_seq(query@)),
                    app_config.pinyin_search_enabled,
                );
                &&& r.len() == m.len()
                &&& forall|k: int|
                    0 <= k < r.len() ==> is_app_result(#[trigger] r@[k], m[k], unified_icon(*config))
            },
    {
        let needle = to_lowercase(trim(query));
        let mut out: Vec<SearchResult> = Vec::new();
        if needle.unicode_len() == 0 {
            return out;
        }
        let unified = unified_of(config);
        let pinyin_enabled = app_config.pinyin_search_enabled;
        let mut i: usize = 0;
        while i < self.apps.len()
            invariant
                i <= self.apps.len(),
                out.len() == matching_apps(self.apps@.take(i as int), needle@, pinyin_enabled).len(),
                forall|k: int|
                    0 <= k < out.len() ==> is_app_result(
                        #[trigger] out@[k],
                        matching_apps(self.apps@.take(i as int), needle@, pinyin_enabled)[k],
                        unified,
                    ),
            decreases self.apps.len() - i,
        {
            proof {
                assert(self.apps@.take(i + 1).drop_last() =~= self.apps@.take(i as int));
            }
            let app = &self.apps[i];
            if app.matches(needle.as_str(), pinyin_enabled) {
                out.push(app_result(app, unified));
            }
            i = i + 1;
        }
        assert(self.apps@.take(self.apps.len() as int) =~= self.apps@);
        out
    }
}

/// The icon named by the first `Icon=` line of a desktop entry, trimmed,
/// if that line names one.
pub open spec fn icon_line(ls: Seq<Seq<char>>) -> Option<Seq<char>>
    decreases ls.len(),
{
    if ls.len() == 0 {
        None
    } else if starts_with_seq(ls[0], "Icon="@) {
        Some(trim_seq(ls[0].skip(5)))
    } else {
        icon_line(ls.drop_first())
    }
}

/// The icon a desktop entry names, if any.
pub open spec fn entry_icon(raw: Seq<char>) -> Option<Seq<char>> {
    match icon_line(lines_seq(raw)) {
        Some(v) => if v.len() > 0 {
            Some(v)
        } else {
            None
        },
        None => None,
    }
}

/// The icon named in the text of a desktop entry.
pub fn icon_from_desktop_entry(raw: &str) -> (r: Option<String>)
    ensures
        r is Some == entry_icon(raw@) is Some,
        r matches Some(icon) ==> entry_icon(raw@) == Some(icon@),
{
    let ls = lines(raw);
    let ghost views = texts_of(ls@);
    let prefix = "Icon=";
    proof {
        reveal_strlit("Icon=");
        assert(views.skip(0) =~= views);
    }
    let mut i: usize = 0;
    while i < ls.len()
        invariant
            views == texts_of(ls@),
            views == lines_seq(raw@),
            prefix@ == "Icon="@,
            i <= ls.len(),
            icon_line(views.skip(i as int)) == icon_line(views),
        decreases ls.len() - i,
    {
        proof {
            assert(views.skip(i as int)[0] == ls@[i as int]@);
            assert(views.skip(i as int).drop_first() =~= views.skip(i + 1));
        }
        proof {
            reveal_strlit("Icon=");
        }
        assert(prefix@.len() == 5);
        match strip_prefix(ls[i].as_str(), prefix) {
            Some(rest) => {
                assert(starts_with_seq(views[i as int], "Icon="@));
                assert(icon_line(views.skip(i as int)) == Some(trim_seq(views[i as int].skip(5))));
                let value = trim(rest);
                if value.unicode_len() == 0 {
                    return None;
                }
                return Some(owned(value));
            },
            None => {
                assert(!starts_with_seq(views[i as int], "Icon="@));
            },
        }
        i = i + 1;
    }
    None
}

} // verus!
