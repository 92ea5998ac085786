//! A result that opens a browser search for the query.
use crate::config::{custom_map_get, custom_entries, AppConfig, PluginConfig};
use crate::plugin::{
    PluginAction, PluginConfigChoice, PluginConfigItem, PluginConfigKind, SearchPlugin,
    SearchResult,
};
use crate::config::ConfigValue;
use crate::text::{contains_seq, owned, push_char, same_text, trim, trim_seq};
use vstd::prelude::*;
use vstd::utf8::encode_utf8;
use vstd::string::StringSliceAdditionalSpecFns;

verus! {

/// The plugin offering a web search.
pub struct WebSearchPlugin;

/// The search engines a user can choose.
#[derive(Debug, Clone, Copy, PartialEq, Eq, Structural)]
pub enum WebSearchEngine {
    Google,
    Bing,
    Baidu,
    DuckDuckGo,
}

/// The engine a configured name selects; Google for any other name.
pub open spec fn engine_named(value: Seq<char>) -> WebSearchEngine {
    if value == "bing"@ {
        WebSearchEngine::Bing
    } else if value == "baidu"@ {
        WebSearchEngine::Baidu
    } else if value == "duckduckgo"@ {
        WebSearchEngine::DuckDuckGo
    } else {
        WebSearchEngine::Google
    }
}

/// The name shown for an engine.
pub open spec fn engine_label(e: WebSearchEngine) -> Seq<char> {
    match e {
        WebSearchEngine::Google => "Google"@,
        WebSearchEngine::Bing => "Bing"@,
        WebSearchEngine::Baidu => "Baidu"@,
        WebSearchEngine::DuckDuckGo => "DuckDuckGo"@,
    }
}

/// The address that searches `encoded` with an engine.
pub open spec fn engine_url(e: WebSearchEngine, encoded: Seq<char>) -> Seq<char> {
    match e {
        WebSearchEngine::Google => "https://www.google.com/search?q="@ + encoded,
        WebSearchEngine::Bing => "https://www.bing.com/search?q="@ + encoded,
        WebSearchEngine::Baidu => "https://www.baidu.com/s?wd="@ + encoded,
        WebSearchEngine::DuckDuckGo => "https://duckduckgo.com/?q="@ + encoded,
    }
}

/// `c` with an ASCII capital made small.
pub open spec fn ascii_lower_char(c: char) -> char {
    if 'A' <= c && c <= 'Z' {
        ((c as u32) + 32) as char
    } else {
        c
    }
}

/// `s` with its ASCII capitals made small.
pub open spec fn ascii_lower(s: Seq<char>) -> Seq<char> {
    s.map_values(|c: char| ascii_lower_char(c))
}

/// `url` is an `https` address on host `host` whose path and query
/// `rest` ends with `query`.
pub open spec fn https_on_host(url: Seq<char>, host: Seq<char>, rest: Seq<char>, query: Seq<char>) -> bool {
    &&& url == "https://"@ + host + rest
    &&& !host.contains('/')
    &&& rest.len() >= query.len() + 1
    &&& rest[0] == '/'
    &&& rest.subrange(rest.len() - query.len(), rest.len() as int) == query
}

proof fn lemma_engine_host(e: WebSearchEngine, encoded: Seq<char>) -> (hr: (Seq<char>, Seq<char>))
    ensures
        https_on_host(engine_url(e, encoded), hr.0, hr.1, encoded),
        contains_seq(hr.0, ascii_lower(engine_label(e))),
{
    reveal_strlit("https://");
    reveal_strlit("https://www.google.com/search?q=");
    reveal_strlit("https://www.bing.com/search?q=");
    reveal_strlit("https://www.baidu.com/s?wd=");
    reveal_strlit("https://duckduckgo.com/?q=");
    reveal_strlit("Google");
    reveal_strlit("Bing");
    reveal_strlit("Baidu");
    reveal_strlit("DuckDuckGo");
    let (host, path, at): (Seq<char>, Seq<char>, int) = match e {
        WebSearchEngine::Google => (
            seq!['w', 'w', 'w', '.', 'g', 'o', 'o', 'g', 'l', 'e', '.', 'c', 'o', 'm'],
            seq!['/', 's', 'e', 'a', 'r', 'c', 'h', '?', 'q', '='],
            4,
        ),
        WebSearchEngine::Bing => (
            seq!['w', 'w', 'w', '.', 'b', 'i', 'n', 'g', '.', 'c', 'o', 'm'],
            seq!['/', 's', 'e', 'a', 'r', 'c', 'h', '?', 'q', '='],
            4,
        ),
        WebSearchEngine::Baidu => (
            seq!['w', 'w', 'w', '.', 'b', 'a', 'i', 'd', 'u', '.', 'c', 'o', 'm'],
            seq!['/', 's', '?', 'w', 'd', '='],
            4,
        ),
        WebSearchEngine::DuckDuckGo => (
            seq!['d', 'u', 'c', 'k', 'd', 'u', 'c', 'k', 'g', 'o', '.', 'c', 'o', 'm'],
            seq!['/', '?', 'q', '='],
            0,
        ),
    };
    let rest = path + encoded;
    let label = ascii_lower(engine_label(e));
    assert(engine_url(e, encoded) =~= "https://"@ + host + rest);
    assert(rest.subrange(rest.len() - encoded.len(), rest.len() as int) =~= encoded);
    assert(host.subrange(at, at + label.len()) =~= label);
    assert(!host.contains('/')) by {
        if host.contains('/') {
            let k = choose|k: int| 0 <= k < host.len() && host[k] == '/';
        }
    }
    (host, rest)
}

/// Each engine's search address is an `https` address on that engine's
/// own host, the host spelling the engine's name as shown in the result's
/// title (in small letters), with the encoded query at its end.
pub proof fn search_url_is_on_engine_host(e: WebSearchEngine, encoded: Seq<char>)
    ensures
        exists|host: Seq<char>, rest: Seq<char>|
            #[trigger] https_on_host(engine_url(e, encoded), host, rest, encoded) && contains_seq(
                host,
                ascii_lower(engine_label(e)),
            ),
{
    let (host, rest) = lemma_engine_host(e, encoded);
}

/// Different engines give different addresses, whatever the queries.
pub proof fn search_urls_differ_by_engine(
    e1: WebSearchEngine,
    e2: WebSearchEngine,
    q1: Seq<char>,
    q2: Seq<char>,
)
    requires
        e1 != e2,
    ensures
        engine_url(e1, q1) != engine_url(e2, q2),
{
    reveal_strlit("https://www.google.com/search?q=");
    reveal_strlit("https://www.bing.com/search?q=");
    reveal_strlit("https://www.baidu.com/s?wd=");
    reveal_strlit("https://duckduckgo.com/?q=");
    let u1 = engine_url(e1, q1);
    let u2 = engine_url(e2, q2);
    if u1 == u2 {
        assert(u1[8] == u2[8]);
        assert(u1[12] == u2[12]);
        assert(u1[13] == u2[13]);
    }
}

impl WebSearchEngine {
    /// The engine a configured name selects.
    pub fn from_config(value: &str) -> (e: Self)
        ensures
            e == engine_named(value@),
    {
        proof {
            reveal_strlit("bing");
            reveal_strlit("baidu");
            reveal_strlit("duckduckgo");
        }
        if same_text(value, "bing") {
            WebSearchEngine::Bing
        } else if same_text(value, "baidu") {
            WebSearchEngine::Baidu
        } else if same_text(value, "duckduckgo") {
            WebSearchEngine::DuckDuckGo
        } else {
            WebSearchEngine::Google
        }
    }

    /// The name shown for this engine.
    pub fn label(&self) -> (r: &'static str)
        ensures
            r@ == engine_label(*self),
    {
        match self {
            WebSearchEngine::Google => "Google",
            WebSearchEngine::Bing => "Bing",
            WebSearchEngine::Baidu => "Baidu",
            WebSearchEngine::DuckDuckGo => "DuckDuckGo",
        }
    }

    /// The address that searches `encoded_query` with this engine.
    pub fn search_url(&self, encoded_query: &str) -> (r: String)
        ensures
            r@ == engine_url(*self, encoded_query@),
    {
        let mut r = match self {
            WebSearchEngine::Google => owned("https://www.google.com/search?q="),
            WebSearchEngine::Bing => owned("https://www.bing.com/search?q="),
            WebSearchEngine::Baidu => owned("https://www.baidu.com/s?wd="),
            WebSearchEngine::DuckDuckGo => owned("https://duckduckgo.com/?q="),
        };
        r.append(encoded_query);
        r
    }
}

/// Bytes written as themselves in a query string.
pub open spec fn is_unreserved(b: u8) -> bool {
    (65 <= b && b <= 90) || (97 <= b && b <= 122) || (48 <= b && b <= 57) || b == 45 || b == 95
        || b == 46 || b == 126
}

/// The upper-case hexadecimal digit for `d` below 16.
pub open spec fn hex_digit(d: u8) -> char {
    if d < 10 {
        (48 + d) as char
    } else {
        (55 + d) as char
    }
}

/// One byte of a query string: unreserved bytes as themselves, a space as
/// `+`, anything else as `%` and two upper-case hex digits.
pub open spec fn encode_byte(b: u8) -> Seq<char> {
    if is_unreserved(b) {
        seq![b as char]
    } else if b == 32 {
        seq!['+']
    } else {
        seq!['%', hex_digit(b / 16), hex_digit(b % 16)]
    }
}

/// The bytes encoded for a query string.
pub open spec fn encode_bytes(bytes: Seq<u8>) -> Seq<char>
    decreases bytes.len(),
{
    if bytes.len() == 0 {
        Seq::empty()
    } else {
        encode_bytes(bytes.drop_last()) + encode_byte(bytes.last())
    }
}

fn hex(d: u8) -> (c: char)
    requires
        d < 16,
    ensures
        c == hex_digit(d),
{
    if d < 10 {
        (48 + d) as char
    } else {
        (55 + d) as char
    }
}

/// How many characters the bytes take once encoded: one for an
/// unreserved byte or a space, three for any other byte.
pub open spec fn encoded_len(bytes: Seq<u8>) -> nat
    decreases bytes.len(),
{
    if bytes.len() == 0 {
        0
    } else {
        encoded_len(bytes.drop_last()) + if is_unreserved(bytes.last()) || bytes.last() == 32 {
            1nat
        } else {
            3nat
        }
    }
}

/// A character that can stand in an encoded query: a letter, a digit,
/// `-`, `_`, `.`, `~`, `+` or `%`.
pub open spec fn is_query_char(c: char) -> bool {
    ('A' <= c && c <= 'Z') || ('a' <= c && c <= 'z') || ('0' <= c && c <= '9') || c == '-' || c
        == '_' || c == '.' || c == '~' || c == '+' || c == '%'
}

/// An upper-case hexadecimal digit.
pub open spec fn is_upper_hex(c: char) -> bool {
    ('0' <= c && c <= '9') || ('A' <= c && c <= 'F')
}

/// The shape of an encoded query: made of query characters only, each `%`
/// followed by two upper-case hexadecimal digits.
pub open spec fn is_encoded_shape(e: Seq<char>) -> bool {
    &&& forall|k: int| 0 <= k < e.len() ==> is_query_char(#[trigger] e[k])
    &&& forall|k: int|
        0 <= k < e.len() && #[trigger] e[k] == '%' ==> k + 2 < e.len() && is_upper_hex(e[k + 1])
            && is_upper_hex(e[k + 2])
}

/// An encoded query holds only letters, digits, `-_.~+%`, with every `%`
/// followed by two upper-case hexadecimal digits, and its length counts one
/// character per unreserved byte or space and three per other byte.
pub proof fn encoded_query_shape(bytes: Seq<u8>)
    ensures
        encode_bytes(bytes).len() == encoded_len(bytes),
        is_encoded_shape(encode_bytes(bytes)),
    decreases bytes.len(),
{
    if bytes.len() > 0 {
        let init = bytes.drop_last();
        let b = bytes.last();
        encoded_query_shape(init);
        let a = encode_bytes(init);
        let t = encode_byte(b);
        let e = encode_bytes(bytes);
        assert(e == a + t);
        if !is_unreserved(b) && b != 32 {
            assert(b / 16 < 16);
            assert(is_upper_hex(hex_digit(b / 16)));
            assert(is_upper_hex(hex_digit(b % 16)));
        }
        assert forall|k: int| 0 <= k < e.len() implies is_query_char(#[trigger] e[k]) by {
            if k >= a.len() {
                assert(e[k] == t[k - a.len()]);
                if is_unreserved(b) {
                    assert(t[0] == b as char);
                }
            } else {
                assert(e[k] == a[k]);
            }
        }
        assert forall|k: int|
            0 <= k < e.len() && #[trigger] e[k] == '%' implies k + 2 < e.len() && is_upper_hex(
                e[k + 1],
            ) && is_upper_hex(e[k + 2]) by {
            if k >= a.len() {
                assert(e[k] == t[k - a.len()]);
                if is_unreserved(b) {
                    assert(t[0] == b as char);
                }
                assert(k == a.len());
                assert(e[k + 1] == t[1]);
                assert(e[k + 2] == t[2]);
            } else {
                assert(e[k] == a[k]);
                assert(e[k + 1] == a[k + 1]);
                assert(e[k + 2] == a[k + 2]);
            }
        }
    }
}

/// The UTF-8 bytes of `query` encoded for a query string.
pub fn encode_query(query: &str) -> (r: String)
    ensures
        r@ == encode_bytes(encode_utf8(query@)),
        r@.len() == encoded_len(encode_utf8(query@)),
        is_encoded_shape(r@),
{
    let bytes = query.as_bytes();
    let mut out = String::new();
    let mut i: usize = 0;
    while i < bytes.len()
        invariant
            bytes@ == encode_utf8(query@),
            i <= bytes.len(),
            out@ == encode_bytes(bytes@.take(i as int)),
        decreases bytes.len() - i,
    {
        let b = bytes[i];
        proof {
            assert(bytes@.take(i + 1).drop_last() =~= bytes@.take(i as int));
        }
        if (65 <= b && b <= 90) || (97 <= b && b <= 122) || (48 <= b && b <= 57) || b == 45 || b
            == 95 || b == 46 || b == 126 {
            push_char(&mut out, b as char);
        } else if b == 32 {
            push_char(&mut out, '+');
        } else {
            push_char(&mut out, '%');
            push_char(&mut out, hex(b / 16));
            push_char(&mut out, hex(b % 16));
        }
        i = i + 1;
    }
    assert(bytes@.take(bytes@.len() as int) =~= bytes@);
    proof {
        encoded_query_shape(bytes@);
    }
    out
}

/// The value of an upper-case hexadecimal digit.
pub open spec fn hex_value(c: char) -> int {
    if '0' <= c && c <= '9' {
        c as int - 48
    } else {
        c as int - 55
    }
}

/// How a query string is read back into bytes: `%` and two hex digits is
/// one byte, `+` a space, any other character its own code.
pub open spec fn url_decode(s: Seq<char>) -> Seq<u8>
    decreases s.len(),
{
    if s.len() == 0 {
        Seq::empty()
    } else if s[0] == '%' && s.len() >= 3 {
        seq![(16 * hex_value(s[1]) + hex_value(s[2])) as u8] + url_decode(s.skip(3))
    } else if s[0] == '+' {
        seq![32u8] + url_decode(s.drop_first())
    } else {
        seq![s[0] as u8] + url_decode(s.drop_first())
    }
}

proof fn lemma_encode_front(b: Seq<u8>)
    requires
        b.len() > 0,
    ensures
        encode_bytes(b) == encode_byte(b[0]) + encode_bytes(b.drop_first()),
    decreases b.len(),
{
    if b.len() == 1 {
        assert(b.drop_last() =~= Seq::<u8>::empty());
        assert(b.drop_first() =~= Seq::<u8>::empty());
        assert(encode_bytes(b.drop_last()) =~= Seq::<char>::empty());
        assert(b.last() == b[0]);
        assert(encode_bytes(b) =~= encode_byte(b[0]));
        assert(encode_byte(b[0]) + encode_bytes(b.drop_first()) =~= encode_byte(b[0]));
    } else {
        lemma_encode_front(b.drop_last());
        assert(b.drop_first().drop_last() =~= b.drop_last().drop_first());
        assert(b.drop_first().last() == b.last());
        assert(b.drop_last()[0] == b[0]);
        assert(encode_bytes(b) =~= encode_byte(b[0]) + encode_bytes(b.drop_first()));
    }
}

proof fn lemma_decode_byte(c: u8, rest: Seq<char>)
    ensures
        url_decode(encode_byte(c) + rest) == seq![c] + url_decode(rest),
{
    let s = encode_byte(c) + rest;
    if is_unreserved(c) {
        assert(s[0] == c as char);
        assert((c as char) as u8 == c);
        assert(s.drop_first() =~= rest);
    } else if c == 32 {
        assert(s[0] == '+');
        assert(s.drop_first() =~= rest);
    } else {
        let hi = c / 16;
        let lo = c % 16;
        assert(s[0] == '%');
        assert(s[1] == hex_digit(hi));
        assert(s[2] == hex_digit(lo));
        assert(hex_value(hex_digit(hi)) == hi as int);
        assert(hex_value(hex_digit(lo)) == lo as int);
        assert(s.skip(3) =~= rest);
        assert((16 * (hi as int) + lo as int) as u8 == c);
    }
}

/// Reading an encoded query string back gives the query's bytes.
pub proof fn encode_query_round_trip(bytes: Seq<u8>)
    ensures
        url_decode(encode_bytes(bytes)) == bytes,
    decreases bytes.len(),
{
    if bytes.len() == 0 {
        assert(encode_bytes(bytes) =~= Seq::<char>::empty());
    } else {
        lemma_encode_front(bytes);
        encode_query_round_trip(bytes.drop_first());
        lemma_decode_byte(bytes[0], encode_bytes(bytes.drop_first()));
        assert(bytes =~= seq![bytes[0]] + bytes.drop_first());
    }
}

/// The engine chosen in a plugin's settings.
pub open spec fn chosen_engine(config: PluginConfig) -> WebSearchEngine {
    let custom = custom_entries(config.custom);
    if custom.contains_key("search_engine"@) && custom["search_engine"@].text_value() is Some {
        engine_named(custom["search_engine"@].text_value().unwrap())
    } else {
        WebSearchEngine::Google
    }
}

/// Whether `r` is the search result for the trimmed query `q` with `engine`.
pub open spec fn is_web_result(r: SearchResult, q: Seq<char>, bytes: Seq<u8>, engine: WebSearchEngine) -> bool {
    &&& r.title@ == "Search "@ + engine_label(engine) + " for \""@ + q + "\""@
    &&& r.subtitle@ == engine_label(engine)
    &&& r.icon matches Some(i) && i@ == "web-browser-symbolic"@
    &&& !r.pinned
    &&& r.action matches PluginAction::OpenUri(u) && u@ == engine_url(engine, encode_bytes(bytes))
    &&& r.buttons@.len() == 0
    &&& r.refresh_key is None
    &&& r.refresh_interval_ms is None
    &&& r.source_plugin_id is None
}

/// Whether `item` is the engine setting with the four engines.
pub open spec fn is_engine_setting(item: PluginConfigItem) -> bool {
    &&& item.key@ == "search_engine"@
    &&& item.title@ == "Search engine"@
    &&& item.description@ == "Choose the search engine used for web results"@
    &&& item.kind matches PluginConfigKind::Choice { options } && {
        &&& options@.len() == 4
        &&& options@[0].value@ == "google"@ && options@[0].label@ == "Google"@
        &&& options@[1].value@ == "bing"@ && options@[1].label@ == "Bing"@
        &&& options@[2].value@ == "baidu"@ && options@[2].label@ == "Baidu"@
        &&& options@[3].value@ == "duckduckgo"@ && options@[3].label@ == "DuckDuckGo"@
    }
    &&& item.default_value matches ConfigValue::Text(d) && d@ == "google"@
}

fn choice(value: &str, label: &str) -> (c: PluginConfigChoice)
    ensures
        c.value@ == value@,
        c.label@ == label@,
{
    PluginConfigChoice { value: owned(value), label: owned(label) }
}

/// The engine chosen in `config`.
fn engine_of(config: &PluginConfig) -> (e: WebSearchEngine)
    ensures
        e == chosen_engine(*config),
{
    match custom_map_get(&config.custom, "search_engine") {
        Some(v) => match v.as_str() {
            Some(name) => WebSearchEngine::from_config(name),
            None => WebSearchEngine::Google,
        },
        None => WebSearchEngine::Google,
    }
}

/// The UTF-8 bytes of the trimmed query.
pub open spec fn trimmed_bytes(query: Seq<char>) -> Seq<u8> {
    encode_utf8(trim_seq(query))
}

impl SearchPlugin for WebSearchPlugin {
    fn id(&self) -> (r: &str)
        ensures
            r@ == "builtin.web-search"@,
    {
        "builtin.web-search"
    }

    fn name(&self) -> (r: &str)
        ensures
            r@ == "Web Search"@,
    {
        "Web Search"
    }

    fn description(&self) -> (r: &str)
        ensures
            r@ == "Open a browser search"@,
    {
        "Open a browser search"
    }

    /// The engine setting.
    fn config_items(&self) -> (r: Vec<PluginConfigItem>)
        ensures
            r.len() == 1,
            is_engine_setting(r@[0]),
    {
        let mut options: Vec<PluginConfigChoice> = Vec::new();
        options.push(choice("google", "Google"));
        options.push(choice("bing", "Bing"));
        options.push(choice("baidu", "Baidu"));
        options.push(choice("duckduckgo", "DuckDuckGo"));
        let mut r: Vec<PluginConfigItem> = Vec::new();
        r.push(
            PluginConfigItem {
                key: owned("search_engine"),
                title: owned("Search engine"),
                description: owned("Choose the search engine used for web results"),
                kind: PluginConfigKind::Choice { options },
                default_value: ConfigValue::Text(owned("google")),
            },
        );
        r
    }

    /// The search with the default engine.
    fn query(&self, query: &str) -> (r: Vec<SearchResult>)
        ensures
            trimmed_bytes(query@).len() < 2 ==> r.len() == 0,
            trimmed_bytes(query@).len() >= 2 ==> r.len() == 1 && is_web_result(
                r@[0],
                trim_seq(query@),
                trimmed_bytes(query@),
                WebSearchEngine::Google,
            ),
    {
        let config = PluginConfig::default();
        let app_config = AppConfig::default();
        self.query_with_config(query, &config, &app_config)
    }

    /// The web-search result for a query with the engine chosen in
    /// `config`: none when the trimmed query is shorter than two bytes.
    fn query_with_config(
        &self,
        query: &str,
        config: &PluginConfig,
        app_config: &AppConfig,
    ) -> (r: Vec<SearchResult>)
        ensures
            trimmed_bytes(query@).len() < 2 ==> r.len() == 0,
            trimmed_bytes(query@).len() >= 2 ==> r.len() == 1 && is_web_result(
                r@[0],
                trim_seq(query@),
                trimmed_bytes(query@),
                chosen_engine(*config),
            ),
    {
        let _ = app_config;
        let q = trim(query);
        assert(q.spec_bytes() == trimmed_bytes(query@));
        if q.as_bytes().len() < 2 {
            return Vec::new();
        }
        let engine = engine_of(config);
        let encoded = encode_query(q);
        let mut title = owned("Search ");
        title.append(engine.label());
        title.append(" for \"");
        title.append(q);
        title.append("\"");
        let mut out: Vec<SearchResult> = Vec::new();
        out.push(
            SearchResult {
                title,
                subtitle: owned(engine.label()),
                icon: Some(owned("web-browser-symbolic")),
                pinned: false,
                action: PluginAction::OpenUri(engine.search_url(encoded.as_str())),
                buttons: Vec::new(),
                refresh_key: None,
                refresh_interval_ms: None,
                source_plugin_id: None,
            },
        );
        out
    }
}

} // verus!
