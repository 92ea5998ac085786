//! Results that open the settings window or quit the launcher.
use crate::plugin::{PluginAction, SearchPlugin, SearchResult};
use crate::text::{contains, contains_seq, lowercase_of, owned, to_lowercase, trim, trim_seq};
use vstd::prelude::*;

verus! {

/// The plugin offering the launcher's own actions.
pub struct SystemActionsPlugin;

/// Whether `r` is the plain result with the given texts that triggers the
/// application action `action`.
pub open spec fn is_app_action_result(
    r: SearchResult,
    title: Seq<char>,
    subtitle: Seq<char>,
    icon: Seq<char>,
    action: Seq<char>,
) -> bool {
    &&& r.title@ == title
    &&& r.subtitle@ == subtitle
    &&& r.icon matches Some(i) && i@ == icon
    &&& !r.pinned
    &&& r.action matches PluginAction::AppAction(a) && a@ == action
    &&& r.buttons@.len() == 0
    &&& r.refresh_key is None
    &&& r.refresh_interval_ms is None
    &&& r.source_plugin_id is None
}

/// Whether the action with this title and subtitle matches the lowercased
/// `needle`.
pub open spec fn action_matches(title: Seq<char>, subtitle: Seq<char>, needle: Seq<char>) -> bool {
    contains_seq(lowercase_of(title), needle) || contains_seq(lowercase_of(subtitle), needle)
}

/// The needle a query searches for.
pub open spec fn needle_of(query: Seq<char>) -> Seq<char> {
    lowercase_of(trim_seq(query))
}

pub open spec fn settings_matches(query: Seq<char>) -> bool {
    action_matches("Open Gpotlight Settings"@, "Show the settings window"@, needle_of(query))
}

pub open spec fn quit_matches(query: Seq<char>) -> bool {
    action_matches("Quit Gpotlight"@, "Exit the running Gpotlight process"@, needle_of(query))
}

/// The launcher's own actions are matched ignoring case on both of their
/// texts: the settings action is offered for `query` exactly when the
/// lowercased, trimmed query occurs in the lowercase of "Open Gpotlight
/// Settings" or of "Show the settings window", and the quit action exactly
/// when it occurs in the lowercase of "Quit Gpotlight" or of "Exit the
/// running Gpotlight process" (so "exit", "Exit" and "EXIT" all find it).
pub proof fn system_actions_ignore_case(query: Seq<char>)
    ensures
        settings_matches(query) <==> (contains_seq(
            lowercase_of("Open Gpotlight Settings"@),
            lowercase_of(trim_seq(query)),
        ) || contains_seq(lowercase_of("Show the settings window"@), lowercase_of(trim_seq(query)))),
        quit_matches(query) <==> (contains_seq(
            lowercase_of("Quit Gpotlight"@),
            lowercase_of(trim_seq(query)),
        ) || contains_seq(
            lowercase_of("Exit the running Gpotlight process"@),
            lowercase_of(trim_seq(query)),
        )),
{
}

/// Whether `r` is the settings result.
pub open spec fn is_settings_result(r: SearchResult) -> bool {
    is_app_action_result(
        r,
        "Open Gpotlight Settings"@,
        "Show the settings window"@,
        "emblem-system-symbolic"@,
        "settings"@,
    )
}

/// Whether `r` is the quit result.
pub open spec fn is_quit_result(r: SearchResult) -> bool {
    is_app_action_result(
        r,
        "Quit Gpotlight"@,
        "Exit the running Gpotlight process"@,
        "application-exit-symbolic"@,
        "quit"@,
    )
}

/// The result that triggers an application action.
fn app_action_result(title: &str, subtitle: &str, icon: &str, action: &str) -> (r: SearchResult)
    ensures
        is_app_action_result(r, title@, subtitle@, icon@, action@),
{
    SearchResult {
        title: owned(title),
        subtitle: owned(subtitle),
        icon: Some(owned(icon)),
        pinned: false,
        action: PluginAction::AppAction(owned(action)),
        buttons: Vec::new(),
        refresh_key: None,
        refresh_interval_ms: None,
        source_plugin_id: None,
    }
}

/// Whether the action with these texts matches `needle`.
fn matches_needle(title: &str, subtitle: &str, needle: &str) -> (b: bool)
    ensures
        b == action_matches(title@, subtitle@, needle@),
{
    let t = to_lowercase(title);
    if contains(t.as_str(), needle) {
        return true;
    }
    let s = to_lowercase(subtitle);
    contains(s.as_str(), needle)
}

impl SearchPlugin for SystemActionsPlugin {
    fn id(&self) -> (r: &str)
        ensures
            r@ == "builtin.system-actions"@,
    {
        "builtin.system-actions"
    }

    fn name(&self) -> (r: &str)
        ensures
            r@ == "System Actions"@,
    {
        "System Actions"
    }

    fn description(&self) -> (r: &str)
        ensures
            r@ == "Open Gpotlight settings or quit the app"@,
    {
        "Open Gpotlight settings or quit the app"
    }

    /// The settings and quit results whose title or subtitle contains the
    /// trimmed, lowercased query; none for a blank query.
    fn query(&self, query: &str) -> (r: Vec<SearchResult>)
        ensures
            needle_of(query@).len() == 0 ==> r.len() == 0,
            needle_of(query@).len() > 0 ==> {
                &&& r.len() == (if settings_matches(query@) {
                    1int
                } else {
                    0
                }) + (if quit_matches(query@) {
                    1int
                } else {
                    0
                })
                &&& settings_matches(query@) ==> is_settings_result(r@[0])
                &&& quit_matches(query@) ==> is_quit_result(r@[r.len() - 1])
            },
    {
        let needle = to_lowercase(trim(query));
        let mut out: Vec<SearchResult> = Vec::new();
        if needle.unicode_len() == 0 {
            return out;
        }
        let settings_title = "Open Gpotlight Settings";
        let settings_subtitle = "Show the settings window";
        let quit_title = "Quit Gpotlight";
        let quit_subtitle = "Exit the running Gpotlight process";
        if matches_needle(settings_title, settings_subtitle, needle.as_str()) {
            out.push(
                app_action_result(
                    settings_title,
                    settings_subtitle,
                    "emblem-system-symbolic",
                    "settings",
                ),
            );
        }
        if matches_needle(quit_title, quit_subtitle, needle.as_str()) {
            out.push(
                app_action_result(quit_title, quit_subtitle, "application-exit-symbolic", "quit"),
            );
        }
        out
    }
}

} // verus!
