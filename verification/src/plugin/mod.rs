//! Search plugins, their results, and the registry that asks them and ranks
//! what they return.
pub mod builtin;
pub mod manifest;
pub mod rank;

use crate::config::{
    usage_of, routed_query, settings_for, AppConfig, ConfigStore, ConfigValue, PluginConfig, PluginSettings,
};
use crate::text::{is_blank, join, join_seq, owned};
use rank::{is_ordered, rank_results, ranked, ranked_is_ordered, ranked_keeps, ranked_puts_pinned_first};
use vstd::prelude::*;

verus! {

/// What activating a result does.
#[derive(Debug, Clone)]
pub enum PluginAction {
    LaunchDesktopFile(String),
    OpenUri(String),
    CopyText(String),
    AppAction(String),
    LaunchCommand { command: String, args: Vec<String> },
    Noop,
}

/// An extra button shown beside a result.
#[derive(Debug, Clone)]
pub struct SearchResultButton {
    pub title: String,
    pub icon: Option<String>,
    pub action: PluginAction,
    pub close_on_activate: bool,
    pub refresh_after_ms: Option<u64>,
}

/// One entry of the result list.
#[derive(Debug, Clone)]
pub struct SearchResult {
    pub title: String,
    pub subtitle: String,
    pub icon: Option<String>,
    pub pinned: bool,
    pub action: PluginAction,
    pub buttons: Vec<SearchResultButton>,
    pub refresh_key: Option<String>,
    pub refresh_interval_ms: Option<u64>,
    pub source_plugin_id: Option<String>,
}

/// One choice of a choice setting.
#[derive(Debug, Clone)]
pub struct PluginConfigChoice {
    pub value: String,
    pub label: String,
}

/// The kind of value a plugin setting takes.
#[derive(Debug, Clone)]
pub enum PluginConfigKind {
    Bool,
    Text,
    Choice { options: Vec<PluginConfigChoice> },
    Integer { min: i64, max: i64, step: i64 },
}

/// A setting that a plugin offers in the settings window.
#[derive(Debug, Clone)]
pub struct PluginConfigItem {
    pub key: String,
    pub title: String,
    pub description: String,
    pub kind: PluginConfigKind,
    pub default_value: ConfigValue,
}

/// What the settings window shows of a plugin.
#[derive(Debug, Clone)]
pub struct PluginMetadata {
    pub id: String,
    pub name: String,
    pub description: String,
    pub config_items: Vec<PluginConfigItem>,
}

/// A source of search results. Implementations decide what they return;
/// the registry routes queries to them and ranks the answers.
pub trait SearchPlugin {
    fn id(&self) -> &str;

    fn name(&self) -> &str;

    fn description(&self) -> &str;

    fn query(&self, query: &str) -> Vec<SearchResult>;

    /// Unless a plugin overrides it, the answer of `query`, whatever the
    /// settings.
    fn query_with_config(
        &self,
        query: &str,
        config: &PluginConfig,
        app_config: &AppConfig,
    ) -> (r: Vec<SearchResult>)
        default_ensures
            call_ensures(Self::query, (self, query), r),
    {
        let _ = config;
        let _ = app_config;
        self.query(query)
    }

    /// Unless a plugin overrides it, no settings.
    fn config_items(&self) -> (r: Vec<PluginConfigItem>)
        default_ensures
            r@.len() == 0,
    {
        Vec::new()
    }
}

impl SearchPlugin for Box<dyn SearchPlugin> {
    fn id(&self) -> &str {
        (**self).id()
    }

    fn name(&self) -> &str {
        (**self).name()
    }

    fn description(&self) -> &str {
        (**self).description()
    }

    fn query(&self, query: &str) -> Vec<SearchResult> {
        (**self).query(query)
    }

    fn query_with_config(
        &self,
        query: &str,
        config: &PluginConfig,
        app_config: &AppConfig,
    ) -> Vec<SearchResult> {
        (**self).query_with_config(query, config, app_config)
    }

    fn config_items(&self) -> Vec<PluginConfigItem> {
        (**self).config_items()
    }
}

/// The text of a list of strings.
pub open spec fn texts(v: Seq<String>) -> Seq<Seq<char>> {
    v.map_values(|s: String| s@)
}

/// The usage key of an action.
pub open spec fn action_key(a: PluginAction) -> Seq<char> {
    match a {
        PluginAction::LaunchDesktopFile(id) => "desktop:"@ + id@,
        PluginAction::OpenUri(uri) => "uri:"@ + uri@,
        PluginAction::CopyText(text) => "copy:"@ + text@,
        PluginAction::AppAction(action) => "app-action:"@ + action@,
        PluginAction::LaunchCommand { command, args } => "command:"@ + command@ + ":"@ + join_seq(
            texts(args@),
            seq!['\u{1f}'],
        ),
        PluginAction::Noop => "noop"@,
    }
}

/// The key under which uses of a result are counted.
pub open spec fn result_key(r: SearchResult) -> Seq<char> {
    match r.action {
        PluginAction::Noop => "noop:"@ + r.title@ + ":"@ + r.subtitle@,
        _ => action_key(r.action),
    }
}

/// The key under which uses of a result's button are counted.
pub open spec fn button_key(b: SearchResultButton, r: SearchResult) -> Seq<char> {
    "button:"@ + result_key(r) + ":"@ + b.title@ + ":"@ + action_key(b.action)
}

impl PluginAction {
    /// The usage key of this action.
    pub fn usage_key_fragment(&self) -> (k: String)
        ensures
            k@ == action_key(*self),
    {
        match self {
            PluginAction::LaunchDesktopFile(desktop_id) => {
                let mut k = owned("desktop:");
                k.append(desktop_id.as_str());
                k
            },
            PluginAction::OpenUri(uri) => {
                let mut k = owned("uri:");
                k.append(uri.as_str());
                k
            },
            PluginAction::CopyText(text) => {
                let mut k = owned("copy:");
                k.append(text.as_str());
                k
            },
            PluginAction::AppAction(action) => {
                let mut k = owned("app-action:");
                k.append(action.as_str());
                k
            },
            PluginAction::LaunchCommand { command, args } => {
                let sep = "\u{1f}";
                proof {
                    reveal_strlit("\u{1f}");
                    assert(sep@ =~= seq!['\u{1f}']);
                }
                let mut k = owned("command:");
                k.append(command.as_str());
                k.append(":");
                let joined = join(args, sep);
                k.append(joined.as_str());
                k
            },
            PluginAction::Noop => owned("noop"),
        }
    }
}

impl SearchResult {
    /// The key under which uses of this result are counted.
    pub fn usage_key(&self) -> (k: String)
        ensures
            k@ == result_key(*self),
    {
        match &self.action {
            PluginAction::Noop => {
                let mut k = owned("noop:");
                k.append(self.title.as_str());
                k.append(":");
                k.append(self.subtitle.as_str());
                k
            },
            _ => self.action.usage_key_fragment(),
        }
    }
}

impl SearchResultButton {
    /// The key under which uses of this button of `result` are counted.
    pub fn usage_key(&self, result: &SearchResult) -> (k: String)
        ensures
            k@ == button_key(*self, *result),
    {
        let mut k = owned("button:");
        let inner = result.usage_key();
        k.append(inner.as_str());
        k.append(":");
        k.append(self.title.as_str());
        k.append(":");
        let fragment = self.action.usage_key_fragment();
        k.append(fragment.as_str());
        k
    }
}

/// The query a plugin with id `id` receives in a global search for `query`.
pub open spec fn search_query_for(cfg: AppConfig, id: Seq<char>, query: Seq<char>) -> Option<
    Seq<char>,
> {
    routed_query(settings_for(cfg, id), query)
}

/// Whether `r` came from the plugin with id `id`.
pub open spec fn from_plugin(r: SearchResult, id: Seq<char>) -> bool {
    r.source_plugin_id matches Some(s) && s@ == id
}

/// `r` marked as coming from the plugin with id `id`; every other field kept.
pub open spec fn stamped(before: SearchResult, after: SearchResult, id: Seq<char>) -> bool {
    &&& from_plugin(after, id)
    &&& after == SearchResult { source_plugin_id: after.source_plugin_id, ..before }
}

/// The batches laid end to end.
pub open spec fn concat_all(batches: Seq<Seq<SearchResult>>) -> Seq<SearchResult>
    decreases batches.len(),
{
    if batches.len() == 0 {
        Seq::empty()
    } else {
        concat_all(batches.drop_last()) + batches.last()
    }
}

/// The query that the plugin with id `id` receives in a global search.
pub fn plugin_search_query<'a>(config: &ConfigStore, id: &str, query: &'a str) -> (r: Option<
    &'a str,
>)
    ensures
        r is Some == search_query_for(config.cfg(), id@, query@) is Some,
        r matches Some(q) ==> search_query_for(config.cfg(), id@, query@) == Some(q@),
{
    match config.plugin_query(id, query) {
        Some(q) => Some(q),
        None => {
            let plugin_config = config.plugin_config(id);
            if crate::text::blank(query) && plugin_config.enabled
                && plugin_config.show_in_global_search {
                Some("")
            } else {
                None
            }
        },
    }
}

/// The results marked as coming from the plugin with id `id`.
pub fn mark_source(results: Vec<SearchResult>, id: &str) -> (r: Vec<SearchResult>)
    ensures
        r.len() == results.len(),
        forall|k: int| 0 <= k < r.len() ==> stamped(results@[k], #[trigger] r@[k], id@),
{
    let mut out: Vec<SearchResult> = Vec::new();
    let ghost input = results@;
    for item in it: results
        invariant
            it.seq() == input,
            out.len() == it.index(),
            forall|k: int| 0 <= k < out.len() ==> stamped(input[k], #[trigger] out@[k], id@),
    {
        let mut item = item;
        item.source_plugin_id = Some(owned(id));
        out.push(item);
    }
    out
}

/// `id` is an id that plugin `p` can answer `id()` with.
pub open spec fn gives_id<P: SearchPlugin>(p: P, id: Seq<char>) -> bool {
    exists|s: &str| #[trigger] call_ensures(P::id, (&p,), s) && s@ == id
}

/// `name` is a name that plugin `p` can answer `name()` with.
pub open spec fn gives_name<P: SearchPlugin>(p: P, name: Seq<char>) -> bool {
    exists|s: &str| #[trigger] call_ensures(P::name, (&p,), s) && s@ == name
}

/// `description` is a description that plugin `p` can answer
/// `description()` with.
pub open spec fn gives_description<P: SearchPlugin>(p: P, description: Seq<char>) -> bool {
    exists|s: &str| #[trigger] call_ensures(P::description, (&p,), s) && s@ == description
}

/// `m` describes plugin `p`: what it answers for its id, name,
/// description and settings.
pub open spec fn describes<P: SearchPlugin>(p: P, m: PluginMetadata) -> bool {
    &&& gives_id(p, m.id@)
    &&& gives_name(p, m.name@)
    &&& gives_description(p, m.description@)
    &&& call_ensures(P::config_items, (&p,), m.config_items)
}

/// Plugin `p` can answer `id()` with an id other than `id`.
pub open spec fn passes_over<P: SearchPlugin>(p: P, id: Seq<char>) -> bool {
    exists|s: &str| #[trigger] call_ensures(P::id, (&p,), s) && s@ != id
}

/// `out` is an answer that plugin `p` can give when asked by
/// `query_with_config` for `query`, with settings `settings` and the
/// configuration `cfg`.
pub open spec fn answers<P: SearchPlugin>(
    p: P,
    query: Seq<char>,
    settings: PluginSettings,
    cfg: AppConfig,
    out: Vec<SearchResult>,
) -> bool {
    exists|q: &str, pc: PluginConfig|
        #[trigger] call_ensures(P::query_with_config, (&p, q, &pc, &cfg), out) && q@ == query
            && pc@ == settings
}

/// `marked` is `out` with each result marked as coming from `id`.
pub open spec fn marked(out: Seq<SearchResult>, marked: Seq<SearchResult>, id: Seq<char>) -> bool {
    &&& marked.len() == out.len()
    &&& forall|k: int| 0 <= k < out.len() ==> stamped(out[k], #[trigger] marked[k], id)
}

/// `r` is what the plugin at position `i` of `plugins` gives when asked
/// alone for `query`, as the plugin with id `id`: nothing when disabled,
/// else its answer to the unchanged query under its settings, marked.
pub open spec fn picked<P: SearchPlugin>(
    plugins: Seq<P>,
    i: int,
    cfg: AppConfig,
    id: Seq<char>,
    query: Seq<char>,
    r: Seq<SearchResult>,
) -> bool {
    &&& 0 <= i < plugins.len()
    &&& forall|j: int| 0 <= j < i ==> passes_over(#[trigger] plugins[j], id)
    &&& gives_id(plugins[i], id)
    &&& if !settings_for(cfg, id).enabled {
        r.len() == 0
    } else {
        exists|out: Vec<SearchResult>|
            #[trigger] answers(plugins[i], query, settings_for(cfg, id), cfg, out) && marked(
                out@,
                r,
                id,
            )
    }
}

/// `batch` is what plugin `p`, answering to `id`, adds to a global search
/// for `query`: nothing when the query does not reach it, else its answer
/// to the query routed to it, under its settings, marked with `id`.
pub open spec fn batch_of<P: SearchPlugin>(
    p: P,
    cfg: AppConfig,
    id: Seq<char>,
    query: Seq<char>,
    batch: Seq<SearchResult>,
) -> bool {
    &&& gives_id(p, id)
    &&& search_query_for(cfg, id, query) is None ==> batch.len() == 0
    &&& search_query_for(cfg, id, query) is Some ==> exists|out: Vec<SearchResult>|
        #[trigger] routed_answer(p, cfg, id, query, out) && marked(out@, batch, id)
}

/// `out` is an answer that plugin `p`, answering to `id`, can give to the
/// query routed to it in a global search for `query`, under its settings.
pub open spec fn routed_answer<P: SearchPlugin>(
    p: P,
    cfg: AppConfig,
    id: Seq<char>,
    query: Seq<char>,
    out: Vec<SearchResult>,
) -> bool {
    answers(p, search_query_for(cfg, id, query).unwrap(), settings_for(cfg, id), cfg, out)
}

/// `collected` is what a global search over `plugins` gathers: one batch
/// per plugin, in registration order, each the plugin's answer to its
/// routed query marked with its id.
pub open spec fn gathered<P: SearchPlugin>(
    plugins: Seq<P>,
    cfg: AppConfig,
    query: Seq<char>,
    collected: Seq<SearchResult>,
) -> bool {
    exists|batches: Seq<Seq<SearchResult>>, ids: Seq<Seq<char>>|
        {
            &&& batches.len() == plugins.len()
            &&& ids.len() == plugins.len()
            &&& collected == concat_all(batches)
            &&& forall|i: int|
                0 <= i < plugins.len() ==> batch_of(
                    plugins[i],
                    cfg,
                    ids[i],
                    query,
                    #[trigger] batches[i],
                )
        }
}

/// The plugins, in the order they were registered.
pub struct PluginRegistry<P = Box<dyn SearchPlugin>> {
    plugins: Vec<P>,
}

impl<P: SearchPlugin> Default for PluginRegistry<P> {
    fn default() -> (r: Self)
        ensures
            r.plugins() == Seq::<P>::empty(),
    {
        PluginRegistry { plugins: Vec::new() }
    }
}

impl<P: SearchPlugin> PluginRegistry<P> {
    /// The plugins registered, in order.
    pub closed spec fn plugins(&self) -> Seq<P> {
        self.plugins@
    }

    /// Adds a plugin after those already registered.
    pub fn register(&mut self, plugin: P)
        ensures
            final(self).plugins() == old(self).plugins().push(plugin),
    {
        self.plugins.push(plugin);
    }

    /// Id, name, description and settings of each plugin, in order.
    pub fn plugin_metadata(&self) -> (r: Vec<PluginMetadata>)
        ensures
            r.len() == self.plugins().len(),
            forall|i: int| 0 <= i < r.len() ==> describes(self.plugins()[i], #[trigger] r@[i]),
    {
        let mut out: Vec<PluginMetadata> = Vec::new();
        let mut i: usize = 0;
        while i < self.plugins.len()
            invariant
                i <= self.plugins.len(),
                out.len() == i,
                forall|k: int| 0 <= k < i ==> describes(self.plugins@[k], #[trigger] out@[k]),
            decreases self.plugins.len() - i,
        {
            let plugin = &self.plugins[i];
            let id = plugin.id();
            let name = plugin.name();
            let description = plugin.description();
            let config_items = plugin.config_items();
            let m = PluginMetadata {
                id: owned(id),
                name: owned(name),
                description: owned(description),
                config_items,
            };
            assert(describes(self.plugins@[i as int], m));
            out.push(m);
            i = i + 1;
        }
        out
    }

    /// The results of a global search for `query`: each plugin that the
    /// query reaches is asked, its results are marked with its id, then
    /// ranked (see `rank::ranked`).
    pub fn search(&self, config: &ConfigStore, query: &str) -> (r: Vec<SearchResult>)
        ensures
            exists|collected: Seq<SearchResult>|
                #![trigger gathered(self.plugins(), config.cfg(), query@, collected)]
                gathered(self.plugins(), config.cfg(), query@, collected) && r@ == ranked(
                    config.cfg(),
                    query@,
                    collected,
                ),
            r.len() <= 100,
            is_blank(query@) ==> forall|k: int| 0 <= k < r.len() ==> (#[trigger] r@[k]).pinned,
            is_ordered(config.cfg(), r@),
            forall|i: int, j: int|
                0 <= i < j < r.len() && (#[trigger] r@[j]).pinned ==> (#[trigger] r@[i]).pinned,
            config.cfg().usage_ranking_enabled ==> forall|i: int, j: int|
                0 <= i < j < r.len() && (#[trigger] r@[i]).pinned == (#[trigger] r@[j]).pinned
                    ==> usage_of(config.cfg(), result_key(r@[i])) >= usage_of(
                    config.cfg(),
                    result_key(r@[j]),
                ),
    {
        let app_config = config.current();
        let mut collected: Vec<SearchResult> = Vec::new();
        let ghost mut batches: Seq<Seq<SearchResult>> = Seq::empty();
        let ghost mut ids: Seq<Seq<char>> = Seq::empty();
        let mut i: usize = 0;
        while i < self.plugins.len()
            invariant
                i <= self.plugins.len(),
                *app_config == config.cfg(),
                batches.len() == i,
                ids.len() == i,
                collected@ == concat_all(batches),
                forall|k: int|
                    0 <= k < i ==> batch_of(
                        self.plugins@[k],
                        config.cfg(),
                        ids[k],
                        query@,
                        #[trigger] batches[k],
                    ),
            decreases self.plugins.len() - i,
        {
            let plugin = &self.plugins[i];
            let id = plugin.id();
            assert(gives_id(self.plugins@[i as int], id@));
            let batch = match plugin_search_query(config, id, query) {
                Some(q) => {
                    let plugin_config = config.plugin_config(id);
                    let found = plugin.query_with_config(q, &plugin_config, app_config);
                    let marked_found = mark_source(found, id);
                    assert(routed_answer(self.plugins@[i as int], config.cfg(), id@, query@, found));
                    assert(batch_of(self.plugins@[i as int], config.cfg(), id@, query@, marked_found@));
                    marked_found
                },
                None => {
                    let empty: Vec<SearchResult> = Vec::new();
                    assert(batch_of(self.plugins@[i as int], config.cfg(), id@, query@, empty@));
                    empty
                },
            };
            let ghost b = batch@;
            let mut batch = batch;
            collected.append(&mut batch);
            proof {
                let nb = batches.push(b);
                assert(nb.drop_last() =~= batches);
                batches = nb;
                ids = ids.push(id@);
                assert forall|k: int| 0 <= k < i + 1 implies batch_of(
                    self.plugins@[k],
                    config.cfg(),
                    ids[k],
                    query@,
                    #[trigger] batches[k],
                ) by {}
            }
            i = i + 1;
        }
        let r = rank_results(config, query, collected);
        proof {
            ranked_keeps(config.cfg(), query@, collected@);
            ranked_is_ordered(config.cfg(), query@, collected@);
            ranked_puts_pinned_first(config.cfg(), query@, collected@);
            assert(gathered(self.plugins(), config.cfg(), query@, collected@));
        }
        r
    }

    /// The results of the plugin with id `plugin_id` alone, for `query`:
    /// the first registered plugin with that id is asked with the query
    /// unchanged, its settings and the configuration, and its answer is
    /// returned marked with the id; nothing where it is disabled or where
    /// no plugin has that id.
    pub fn search_plugin(&self, config: &ConfigStore, plugin_id: &str, query: &str) -> (r: Vec<
        SearchResult,
    >)
        ensures
            (forall|j: int| 0 <= j < self.plugins().len() ==> passes_over(
                #[trigger] self.plugins()[j],
                plugin_id@,
            )) && r.len() == 0 || exists|i: int|
                picked(self.plugins(), i, config.cfg(), plugin_id@, query@, r@),
    {
        let mut i: usize = 0;
        while i < self.plugins.len()
            invariant
                i <= self.plugins.len(),
                forall|j: int| 0 <= j < i ==> passes_over(#[trigger] self.plugins@[j], plugin_id@),
            decreases self.plugins.len() - i,
        {
            let plugin = &self.plugins[i];
            let id = plugin.id();
            if crate::text::same_text(id, plugin_id) {
                assert(gives_id(self.plugins@[i as int], plugin_id@));
                let plugin_config = config.plugin_config(id);
                if !plugin_config.enabled {
                    assert(picked(self.plugins(), i as int, config.cfg(), plugin_id@, query@, Seq::empty()));
                    return Vec::new();
                }
                let app_config = config.current();
                let found = plugin.query_with_config(query, &plugin_config, app_config);
                assert(answers(self.plugins@[i as int], query@, settings_for(config.cfg(), plugin_id@), config.cfg(), found));
                let r = mark_source(found, id);
                assert(marked(found@, r@, plugin_id@));
                assert(picked(self.plugins(), i as int, config.cfg(), plugin_id@, query@, r@));
                return r;
            }
            assert(passes_over(self.plugins@[i as int], plugin_id@));
            i = i + 1;
        }
        Vec::new()
    }
}

} // verus!
