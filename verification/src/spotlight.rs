//! The state behind the launcher window: which slice of the results is on
//! screen, which row is selected, and which pending refreshes of single
//! results are still current.
use crate::config::{routed_query, settings_for, ConfigStore};
use crate::plugin::SearchResult;
use crate::text::{blank, is_blank, owned, same_text};
use vstd::prelude::*;

verus! {

/// `x` limited to `lo..=hi`.
pub open spec fn clamped(x: int, lo: int, hi: int) -> int {
    if x < lo {
        lo
    } else if x > hi {
        hi
    } else {
        x
    }
}

/// `x / 8` rounded toward zero.
pub open spec fn div8_toward_zero(x: int) -> int {
    if x >= 0 {
        x / 8
    } else {
        -((-x) / 8)
    }
}

/// The width the buttons beside a result take, for `buttons` buttons: 32
/// each, at most 160.
pub open spec fn buttons_width(buttons: int) -> int {
    if buttons * 32 < 160 {
        buttons * 32
    } else {
        160
    }
}

/// How many characters a result's title and subtitle may take, given the
/// panel width and the number of buttons beside the result.
pub open spec fn text_width_chars(panel_width: int, buttons: int) -> int {
    clamped(div8_toward_zero(panel_width - 120 - buttons_width(buttons)), 8, 96)
}

/// The widest a result's labels may be, in characters. The button count
/// is taken as an `i32` (wrapping, as a cast does); where the arithmetic
/// on it would overflow an `i32` the function is not defined.
pub fn result_text_max_width_chars(panel_width: i32, button_count: usize) -> (r: i32)
    requires
        -0x400_0000 <= button_count as i32 <= 0x3ff_ffff,
        panel_width - 120 >= i32::MIN,
        i32::MIN <= panel_width - 120 - buttons_width(button_count as i32 as int) <= i32::MAX,
    ensures
        r as int == text_width_chars(panel_width as int, button_count as i32 as int),
{
    let c = button_count as i32;
    let b = c * 32;
    let button_width = if b < 160 {
        b
    } else {
        160
    };
    let w = panel_width - 120 - button_width;
    let q: i32 = w / 8;
    if q < 8 {
        8
    } else if q > 96 {
        96
    } else {
        q
    }
}

/// The text shown under a result's title: its subtitle, or one space where
/// it has none, so that every row keeps the same height.
pub fn shown_subtitle<'a>(subtitle: &'a str) -> (r: &'a str)
    ensures
        r@ == (if subtitle@.len() == 0 {
            " "@
        } else {
            subtitle@
        }),
{
    if subtitle.unicode_len() == 0 {
        " "
    } else {
        subtitle
    }
}

/// How many results are on screen at once.
pub open spec fn visible_count(result_count: int, max_visible_results: int) -> int {
    let cap = clamped(max_visible_results, 1, 20);
    if result_count < cap {
        result_count
    } else {
        cap
    }
}

/// How many of `result_count` results the window shows at once.
pub fn visible_result_count(result_count: usize, max_visible_results: i32) -> (r: usize)
    ensures
        r as int == visible_count(result_count as int, max_visible_results as int),
{
    let cap: usize = if max_visible_results < 1 {
        1
    } else if max_visible_results > 20 {
        20
    } else {
        max_visible_results as usize
    };
    if result_count < cap {
        result_count
    } else {
        cap
    }
}

/// The first result on screen once `selected` is selected: kept where the
/// selection is already on screen, moved just enough otherwise.
pub open spec fn offset_after(current_offset: int, selected: int, visible: int) -> int {
    if selected < current_offset {
        selected
    } else if selected >= current_offset + visible {
        selected + 1 - visible
    } else {
        current_offset
    }
}

/// The offset that shows the selected result.
pub fn offset_for_selection(current_offset: usize, selected_index: usize, visible_count: usize) -> (r: usize)
    requires
        current_offset + visible_count <= usize::MAX,
        selected_index < usize::MAX,
    ensures
        r as int == offset_after(current_offset as int, selected_index as int, visible_count as int),
        visible_count > 0 ==> r <= selected_index < r + visible_count,
{
    if selected_index < current_offset {
        selected_index
    } else if selected_index >= current_offset + visible_count {
        selected_index + 1 - visible_count
    } else {
        current_offset
    }
}

/// The selection after an arrow key: one down (stopping at the last
/// result) or one up (stopping at the first).
pub open spec fn selection_after(current: int, len: int, down: bool) -> int {
    if down {
        if current + 1 < len - 1 {
            current + 1
        } else {
            len - 1
        }
    } else if current > 0 {
        current - 1
    } else {
        0
    }
}

/// The selected index after moving one row down or up among `len` results.
pub fn step_selection(current: usize, len: usize, down: bool) -> (r: usize)
    requires
        len > 0,
        current < usize::MAX,
    ensures
        r as int == selection_after(current as int, len as int, down),
{
    if down {
        let next = current + 1;
        if next < len - 1 {
            next
        } else {
            len - 1
        }
    } else if current > 0 {
        current - 1
    } else {
        0
    }
}

/// After an arrow key among `len >= 1` results, with at most
/// `max_visible_results` on screen: Down selects the next result (staying
/// on the last), Up the previous one (staying on the first); the new
/// selection is a result, and the offset that `offset_for_selection` then
/// gives keeps it on screen.
pub proof fn arrow_keeps_selection_visible(
    offset: int,
    current: int,
    len: int,
    max_visible_results: int,
    down: bool,
)
    requires
        0 <= offset,
        0 <= current < len,
    ensures
        ({
            let next = selection_after(current, len, down);
            let visible = visible_count(len, max_visible_results);
            let new_offset = offset_after(offset, next, visible);
            &&& down ==> next == (if current + 1 <= len - 1 {
                current + 1
            } else {
                len - 1
            })
            &&& !down ==> next == (if current >= 1 {
                current - 1
            } else {
                0
            })
            &&& 0 <= next < len
            &&& 1 <= visible
            &&& 0 <= new_offset <= next < new_offset + visible
        }),
{
}

/// The row on screen that shows result `index`, if it is on screen.
pub fn visible_row(index: usize, offset: usize, visible_count: usize) -> (r: Option<usize>)
    requires
        offset + visible_count <= usize::MAX,
    ensures
        r == (if index < offset || index >= offset + visible_count {
            None
        } else {
            Some((index - offset) as usize)
        }),
{
    if index < offset || index >= offset + visible_count {
        None
    } else {
        Some(index - offset)
    }
}

/// The query a single-result refresh sends to plugin `id`: the query the
/// plugin would receive in a search, or an empty one when the typed query
/// is blank.
pub open spec fn refresh_query_for(cfg: crate::config::AppConfig, id: Seq<char>, query: Seq<char>) -> Option<
    Seq<char>,
> {
    match routed_query(settings_for(cfg, id), query) {
        Some(q) => Some(q),
        None => if is_blank(query) {
            Some(Seq::empty())
        } else {
            None
        },
    }
}

/// The query to refresh a result of plugin `id` with.
pub fn refresh_query(config: &ConfigStore, id: &str, query: &str) -> (r: Option<String>)
    ensures
        r is Some == refresh_query_for(config.cfg(), id@, query@) is Some,
        r matches Some(q) ==> refresh_query_for(config.cfg(), id@, query@) == Some(q@),
{
    match config.plugin_query(id, query) {
        Some(q) => Some(owned(q)),
        None => if blank(query) {
            Some(String::new())
        } else {
            None
        },
    }
}

/// Whether `r` carries the refresh key `key`.
pub open spec fn has_refresh_key(r: SearchResult, key: Seq<char>) -> bool {
    r.refresh_key matches Some(k) && k@ == key
}

/// Whether `r` is the result of plugin `id` with refresh key `key`.
pub open spec fn is_refreshable(r: SearchResult, id: Seq<char>, key: Seq<char>) -> bool {
    has_refresh_key(r, key) && (r.source_plugin_id matches Some(s) && s@ == id)
}

/// The first position of `s` whose result carries `key`.
pub open spec fn first_keyed(s: Seq<SearchResult>, key: Seq<char>) -> Option<int> {
    if exists|i: int| 0 <= i < s.len() && has_refresh_key(#[trigger] s[i], key) {
        Some(
            choose|i: int|
                0 <= i < s.len() && has_refresh_key(#[trigger] s[i], key) && forall|j: int|
                    0 <= j < i ==> !has_refresh_key(#[trigger] s[j], key),
        )
    } else {
        None
    }
}

/// The first position of `s` holding plugin `id`'s result with `key`.
pub open spec fn first_refreshable(s: Seq<SearchResult>, id: Seq<char>, key: Seq<char>) -> Option<int> {
    if exists|i: int| 0 <= i < s.len() && is_refreshable(#[trigger] s[i], id, key) {
        Some(
            choose|i: int|
                0 <= i < s.len() && is_refreshable(#[trigger] s[i], id, key) && forall|j: int|
                    0 <= j < i ==> !is_refreshable(#[trigger] s[j], id, key),
        )
    } else {
        None
    }
}

fn keyed(r: &SearchResult, key: &str) -> (b: bool)
    ensures
        b == has_refresh_key(*r, key@),
{
    match &r.refresh_key {
        Some(k) => same_text(k.as_str(), key),
        None => false,
    }
}

fn refreshable(r: &SearchResult, id: &str, key: &str) -> (b: bool)
    ensures
        b == is_refreshable(*r, id@, key@),
{
    if !keyed(r, key) {
        return false;
    }
    match &r.source_plugin_id {
        Some(s) => same_text(s.as_str(), id),
        None => false,
    }
}

/// Puts the fresh copy of a refreshed result in its place: the first of
/// `replacements` with refresh key `key` replaces the first result of
/// plugin `id` with that key. Returns the position replaced; where either
/// is missing nothing changes.
pub fn replace_refreshed(
    results: &mut Vec<SearchResult>,
    id: &str,
    key: &str,
    replacements: Vec<SearchResult>,
) -> (r: Option<usize>)
    ensures
        match (first_keyed(replacements@, key@), first_refreshable(old(results)@, id@, key@)) {
            (Some(j), Some(i)) => r == Some(i as usize) && final(results)@ == old(results)@.update(
                i,
                replacements@[j],
            ),
            _ => r is None && final(results)@ == old(results)@,
        },
{
    let mut replacements = replacements;
    let mut j: usize = 0;
    while j < replacements.len() && !keyed(&replacements[j], key)
        invariant
            j <= replacements.len(),
            forall|m: int| 0 <= m < j ==> !has_refresh_key(#[trigger] replacements@[m], key@),
        decreases replacements.len() - j,
    {
        j = j + 1;
    }
    if j == replacements.len() {
        return None;
    }
    proof {
        let fj = choose|i: int|
            0 <= i < replacements@.len() && has_refresh_key(#[trigger] replacements@[i], key@)
                && forall|m: int| 0 <= m < i ==> !has_refresh_key(#[trigger] replacements@[m], key@);
        assert(has_refresh_key(replacements@[j as int], key@));
        if fj < j {
        } else if fj > j {
        }
        assert(first_keyed(replacements@, key@) == Some(j as int));
    }
    let mut i: usize = 0;
    while i < results.len() && !refreshable(&results[i], id, key)
        invariant
            i <= results.len(),
            forall|m: int| 0 <= m < i ==> !is_refreshable(#[trigger] results@[m], id@, key@),
        decreases results.len() - i,
    {
        i = i + 1;
    }
    if i == results.len() {
        return None;
    }
    proof {
        let fi = choose|k: int|
            0 <= k < results@.len() && is_refreshable(#[trigger] results@[k], id@, key@) && forall|
                m: int,
            | 0 <= m < k ==> !is_refreshable(#[trigger] results@[m], id@, key@);
        assert(is_refreshable(results@[i as int], id@, key@));
        if fi < i {
        } else if fi > i {
        }
        assert(first_refreshable(results@, id@, key@) == Some(i as int));
    }
    let fresh = replacements.remove(j);
    results.set(i, fresh);
    Some(i)
}

/// The key under which refreshes of plugin `id`'s result `key` are
/// counted.
pub open spec fn ticket_key(id: Seq<char>, key: Seq<char>) -> Seq<char> {
    id + seq![':'] + key
}

/// The ticket stored for `key`, if any.
pub open spec fn ticket_of(entries: Seq<(String, u64)>, key: Seq<char>) -> Option<u64>
    decreases entries.len(),
{
    if entries.len() == 0 {
        None
    } else if entries[0].0@ == key {
        Some(entries[0].1)
    } else {
        ticket_of(entries.drop_first(), key)
    }
}

/// `t + 1`, or `t` at the top of the range.
pub open spec fn next_ticket(t: u64) -> u64 {
    if t == u64::MAX {
        t
    } else {
        (t + 1) as u64
    }
}

proof fn lemma_ticket_of_push(entries: Seq<(String, u64)>, e: (String, u64), key: Seq<char>)
    requires
        ticket_of(entries, key) is None ==> true,
    ensures
        ticket_of(entries.push(e), key) == (match ticket_of(entries, key) {
            Some(t) => Some(t),
            None => if e.0@ == key {
                Some(e.1)
            } else {
                None
            },
        }),
    decreases entries.len(),
{
    if entries.len() > 0 {
        assert(entries.push(e)[0] == entries[0]);
        assert(entries.push(e).drop_first() =~= entries.drop_first().push(e));
        lemma_ticket_of_push(entries.drop_first(), e, key);
    } else {
        let one = entries.push(e);
        assert(one[0] == e);
        assert(one.drop_first() =~= Seq::<(String, u64)>::empty());
        assert(ticket_of(one.drop_first(), key) is None);
    }
}

proof fn lemma_ticket_of_update(entries: Seq<(String, u64)>, i: int, e: (String, u64), key: Seq<char>)
    requires
        0 <= i < entries.len(),
        e.0@ == entries[i].0@,
        forall|m: int| 0 <= m < i ==> (#[trigger] entries[m]).0@ != e.0@,
    ensures
        ticket_of(entries.update(i, e), key) == (if key == e.0@ {
            Some(e.1)
        } else {
            ticket_of(entries, key)
        }),
    decreases i,
{
    let u = entries.update(i, e);
    if i == 0 {
        assert(u[0] == e);
        assert(u.drop_first() =~= entries.drop_first());
    }
    if i > 0 {
        assert(u[0] == entries[0]);
        assert(entries.update(i, e).drop_first() =~= entries.drop_first().update(i - 1, e));
        assert forall|m: int| 0 <= m < i - 1 implies (#[trigger] entries.drop_first()[m]).0@
            != e.0@ by {
            assert(entries.drop_first()[m] == entries[m + 1]);
        }
        lemma_ticket_of_update(entries.drop_first(), i - 1, e, key);
    }
}

/// The entries without those stored under `key`.
pub open spec fn without_key(entries: Seq<(String, u64)>, key: Seq<char>) -> Seq<(String, u64)>
    decreases entries.len(),
{
    if entries.len() == 0 {
        entries
    } else if entries.last().0@ == key {
        without_key(entries.drop_last(), key)
    } else {
        without_key(entries.drop_last(), key).push(entries.last())
    }
}

proof fn lemma_without_key(entries: Seq<(String, u64)>, key: Seq<char>, other: Seq<char>)
    ensures
        ticket_of(without_key(entries, key), other) == (if other == key {
            None
        } else {
            ticket_of(entries, other)
        }),
    decreases entries.len(),
{
    if entries.len() > 0 {
        let init = entries.drop_last();
        let e = entries.last();
        lemma_without_key(init, key, other);
        lemma_ticket_of_push(init, e, other);
        assert(init.push(e) =~= entries);
        if e.0@ != key {
            lemma_ticket_of_push(without_key(init, key), e, other);
        }
    }
}

/// Pending single-result refreshes: the latest ticket issued per result.
pub struct RefreshTickets {
    entries: Vec<(String, u64)>,
}

impl RefreshTickets {
    /// The latest ticket issued for each pending refresh.
    pub closed spec fn ticket(&self, key: Seq<char>) -> Option<u64> {
        ticket_of(self.entries@, key)
    }

    /// No refresh pending.
    pub fn new() -> (r: Self)
        ensures
            forall|k: Seq<char>| #[trigger] r.ticket(k) is None,
    {
        RefreshTickets { entries: Vec::new() }
    }

    /// Forgets every pending refresh.
    pub fn clear(&mut self)
        ensures
            forall|k: Seq<char>| #[trigger] final(self).ticket(k) is None,
    {
        self.entries = Vec::new();
    }

    /// The latest ticket issued for `key`.
    pub fn get(&self, key: &str) -> (r: Option<u64>)
        ensures
            r == self.ticket(key@),
    {
        let mut i: usize = 0;
        proof {
            assert(self.entries@.skip(0) =~= self.entries@);
        }
        while i < self.entries.len()
            invariant
                i <= self.entries.len(),
                ticket_of(self.entries@.skip(i as int), key@) == ticket_of(self.entries@, key@),
            decreases self.entries.len() - i,
        {
            proof {
                assert(self.entries@.skip(i as int)[0] == self.entries@[i as int]);
                assert(self.entries@.skip(i as int).drop_first() =~= self.entries@.skip(i + 1));
            }
            if same_text(self.entries[i].0.as_str(), key) {
                return Some(self.entries[i].1);
            }
            i = i + 1;
        }
        None
    }

    fn set(&mut self, key: &str, ticket: u64)
        ensures
            forall|k: Seq<char>| #[trigger] final(self).ticket(k) == (if k == key@ {
                Some(ticket)
            } else {
                old(self).ticket(k)
            }),
    {
        let mut i: usize = 0;
        while i < self.entries.len() && !same_text(self.entries[i].0.as_str(), key)
            invariant
                i <= self.entries.len(),
                forall|m: int| 0 <= m < i ==> (#[trigger] self.entries@[m]).0@ != key@,
            decreases self.entries.len() - i,
        {
            i = i + 1;
        }
        let ghost before = self.entries@;
        let e = (owned(key), ticket);
        if i < self.entries.len() {
            self.entries.set(i, e);
            proof {
                assert forall|k: Seq<char>| #[trigger] ticket_of(self.entries@, k) == (if k == key@ {
                    Some(ticket)
                } else {
                    ticket_of(before, k)
                }) by {
                    lemma_ticket_of_update(before, i as int, e, k);
                }
            }
        } else {
            self.entries.push(e);
            proof {
                assert forall|k: Seq<char>| #[trigger] ticket_of(self.entries@, k) == (if k == key@ {
                    Some(ticket)
                } else {
                    ticket_of(before, k)
                }) by {
                    lemma_ticket_of_push(before, e, k);
                    if k == key@ {
                        lemma_no_ticket(before, k);
                    }
                }
            }
        }
    }

    fn remove(&mut self, key: &str)
        ensures
            forall|k: Seq<char>| #[trigger] final(self).ticket(k) == (if k == key@ {
                None
            } else {
                old(self).ticket(k)
            }),
    {
        let ghost before = self.entries@;
        let mut kept: Vec<(String, u64)> = Vec::new();
        let mut i: usize = 0;
        while i < self.entries.len()
            invariant
                before == self.entries@,
                i <= self.entries.len(),
                kept@ == without_key(before.take(i as int), key@),
            decreases self.entries.len() - i,
        {
            proof {
                assert(before.take(i + 1).drop_last() =~= before.take(i as int));
            }
            if !same_text(self.entries[i].0.as_str(), key) {
                let e = (self.entries[i].0.clone(), self.entries[i].1);
                kept.push(e);
            }
            i = i + 1;
        }
        proof {
            assert(before.take(before.len() as int) =~= before);
            assert forall|k: Seq<char>| #[trigger] ticket_of(kept@, k) == (if k == key@ {
                None
            } else {
                ticket_of(before, k)
            }) by {
                lemma_without_key(before, key@, k);
            }
        }
        self.entries = kept;
    }

    /// Issues a ticket for refreshing `result` after a delay: none where the
    /// result has no plugin id or refresh key, or where a refresh is already
    /// pending and `replace_pending` is off. The ticket is one more than the
    /// last issued for the same result. Returns the key and the ticket.
    pub fn schedule(&mut self, result: &SearchResult, replace_pending: bool) -> (r: Option<(String, u64)>)
        ensures
            match (result.source_plugin_id, result.refresh_key) {
                (Some(id), Some(key)) => {
                    let k = ticket_key(id@, key@);
                    if !replace_pending && old(self).ticket(k) is Some {
                        r is None && forall|x: Seq<char>| #[trigger] final(self).ticket(x) == old(
                            self,
                        ).ticket(x)
                    } else {
                        let t = next_ticket(
                            match old(self).ticket(k) {
                                Some(n) => n,
                                None => 0,
                            },
                        );
                        &&& r matches Some((rk, rt)) && rk@ == k && rt == t
                        &&& forall|x: Seq<char>| #[trigger] final(self).ticket(x) == (if x == k {
                            Some(t)
                        } else {
                            old(self).ticket(x)
                        })
                    }
                },
                _ => r is None && forall|x: Seq<char>| #[trigger] final(self).ticket(x) == old(
                    self,
                ).ticket(x),
            },
    {
        let id = match &result.source_plugin_id {
            Some(id) => id,
            None => return None,
        };
        let key = match &result.refresh_key {
            Some(k) => k,
            None => return None,
        };
        let mut tk = id.clone();
        tk.append(":");
        tk.append(key.as_str());
        proof {
            reveal_strlit(":");
            assert(tk@ =~= ticket_key(id@, key@));
        }
        let current = self.get(tk.as_str());
        if !replace_pending && current.is_some() {
            return None;
        }
        let last = match current {
            Some(n) => n,
            None => 0,
        };
        let t = last.saturating_add(1);
        self.set(tk.as_str(), t);
        Some((tk, t))
    }

    /// A refresh timer went off for `key` with `ticket`: whether to refresh
    /// the result now. Only the latest ticket refreshes, and only while the
    /// window is visible; the latest ticket is used up either way, and stale
    /// tickets change nothing.
    pub fn fire(&mut self, key: &str, ticket: u64, window_visible: bool) -> (refresh: bool)
        ensures
            refresh == (window_visible && old(self).ticket(key@) == Some(ticket)),
            forall|x: Seq<char>| #[trigger] final(self).ticket(x) == (if x == key@ && old(
                self,
            ).ticket(key@) == Some(ticket) {
                None
            } else {
                old(self).ticket(x)
            }),
    {
        let current = self.get(key);
        let is_latest = match current {
            Some(n) => n == ticket,
            None => false,
        };
        if is_latest {
            self.remove(key);
        }
        is_latest && window_visible
    }
}

proof fn lemma_no_ticket(entries: Seq<(String, u64)>, key: Seq<char>)
    requires
        forall|m: int| 0 <= m < entries.len() ==> (#[trigger] entries[m]).0@ != key,
    ensures
        ticket_of(entries, key) is None,
    decreases entries.len(),
{
    if entries.len() > 0 {
        assert forall|m: int| 0 <= m < entries.drop_first().len() implies (
        #[trigger] entries.drop_first()[m]).0@ != key by {
            assert(entries.drop_first()[m] == entries[m + 1]);
        }
        lemma_no_ticket(entries.drop_first(), key);
    }
}

/// Scheduling a pending refresh again supersedes it: where `before` holds
/// ticket `pending` for `key` and `after` holds the ticket that `schedule`
/// issues next, the timer carrying `pending` no longer matches and `fire`
/// answers it with no refresh. Holds while tickets stay below the largest
/// `u64`, where the count saturates.
pub proof fn superseded_timer_does_not_refresh(
    before: RefreshTickets,
    after: RefreshTickets,
    key: Seq<char>,
    pending: u64,
    visible: bool,
)
    requires
        before.ticket(key) == Some(pending),
        pending < u64::MAX,
        after.ticket(key) == Some(next_ticket(pending)),
    ensures
        after.ticket(key) != Some(pending),
        !(visible && after.ticket(key) == Some(pending)),
{
}

} // verus!
