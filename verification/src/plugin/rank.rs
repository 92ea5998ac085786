//! Ranking of gathered search results: which are shown, in what order, and
//! how many.
use super::{result_key, SearchResult};
use crate::config::{usage_of, AppConfig, ConfigStore};
use crate::text::{blank, is_blank};
use vstd::prelude::*;

verus! {

/// How many results a search returns at most.
pub const MAX_RESULTS: usize = 100;

/// The sort key of a result: pinned results first, then (when usage
/// ranking is on) the more used first.
pub open spec fn rank_key(cfg: AppConfig, r: SearchResult) -> int {
    let pin: int = if r.pinned {
        1
    } else {
        0
    };
    if cfg.usage_ranking_enabled {
        pin * 0x1_0000_0000 + usage_of(cfg, result_key(r)) as int
    } else {
        pin
    }
}

/// The results that are shown: all of them for a query with text, only the
/// pinned ones for a blank query.
pub open spec fn shown(s: Seq<SearchResult>, blank_query: bool) -> Seq<SearchResult>
    decreases s.len(),
{
    if s.len() == 0 {
        s
    } else if !blank_query || s.last().pinned {
        shown(s.drop_last(), blank_query).push(s.last())
    } else {
        shown(s.drop_last(), blank_query)
    }
}

/// The first position in `s` whose key is below `k` (or the length).
pub open spec fn first_below(cfg: AppConfig, s: Seq<SearchResult>, k: int) -> nat
    decreases s.len(),
{
    if s.len() == 0 {
        0
    } else if rank_key(cfg, s[0]) < k {
        0
    } else {
        1 + first_below(cfg, s.drop_first(), k)
    }
}

/// `x` inserted into `sorted` after every element whose key is at least
/// its own.
pub open spec fn insert_ranked(cfg: AppConfig, sorted: Seq<SearchResult>, x: SearchResult) -> Seq<
    SearchResult,
> {
    let p = first_below(cfg, sorted, rank_key(cfg, x)) as int;
    sorted.take(p).push(x) + sorted.skip(p)
}

/// `s` stably sorted by descending key.
pub open spec fn ranked_order(cfg: AppConfig, s: Seq<SearchResult>) -> Seq<SearchResult>
    decreases s.len(),
{
    if s.len() == 0 {
        s
    } else {
        insert_ranked(cfg, ranked_order(cfg, s.drop_last()), s.last())
    }
}

/// At most the first `MAX_RESULTS` elements of `s`.
pub open spec fn capped(s: Seq<SearchResult>) -> Seq<SearchResult> {
    if s.len() > MAX_RESULTS {
        s.take(MAX_RESULTS as int)
    } else {
        s
    }
}

/// The result list for `query` made of the gathered results `collected`.
pub open spec fn ranked(cfg: AppConfig, query: Seq<char>, collected: Seq<SearchResult>) -> Seq<
    SearchResult,
> {
    capped(ranked_order(cfg, shown(collected, is_blank(query))))
}

/// Whether keys do not rise along `s`.
pub open spec fn is_ordered(cfg: AppConfig, s: Seq<SearchResult>) -> bool {
    forall|i: int, j: int|
        0 <= i < j < s.len() ==> rank_key(cfg, #[trigger] s[i]) >= rank_key(cfg, #[trigger] s[j])
}

proof fn lemma_shown(s: Seq<SearchResult>, blank_query: bool)
    ensures
        shown(s, blank_query).len() <= s.len(),
        forall|x: SearchResult| #[trigger] shown(s, blank_query).contains(x) ==> s.contains(x),
        blank_query ==> forall|k: int|
            0 <= k < shown(s, blank_query).len() ==> (#[trigger] shown(s, blank_query)[k]).pinned,
    decreases s.len(),
{
    if s.len() > 0 {
        lemma_shown(s.drop_last(), blank_query);
        let t = shown(s.drop_last(), blank_query);
        assert forall|x: SearchResult| #[trigger] shown(s, blank_query).contains(x) implies s.contains(
            x,
        ) by {
            let k = choose|k: int| 0 <= k < shown(s, blank_query).len() && shown(s, blank_query)[k] == x;
            if k < t.len() {
                assert(t[k] == x);
                assert(t.contains(x));
                let m = choose|m: int| 0 <= m < s.drop_last().len() && s.drop_last()[m] == x;
                assert(s[m] == x);
            } else {
                assert(s[s.len() - 1] == x);
            }
        }
    }
}

proof fn lemma_first_below_bounds(cfg: AppConfig, s: Seq<SearchResult>, k: int)
    ensures
        first_below(cfg, s, k) <= s.len(),
        forall|q: int| 0 <= q < first_below(cfg, s, k) ==> rank_key(cfg, #[trigger] s[q]) >= k,
        first_below(cfg, s, k) < s.len() ==> rank_key(cfg, s[first_below(cfg, s, k) as int]) < k,
    decreases s.len(),
{
    if s.len() > 0 && rank_key(cfg, s[0]) >= k {
        lemma_first_below_bounds(cfg, s.drop_first(), k);
        assert forall|q: int| 0 <= q < first_below(cfg, s, k) implies rank_key(
            cfg,
            #[trigger] s[q],
        ) >= k by {
            if q > 0 {
                assert(s[q] == s.drop_first()[q - 1]);
            }
        }
        if first_below(cfg, s, k) < s.len() {
            assert(s[first_below(cfg, s, k) as int] == s.drop_first()[first_below(
                cfg,
                s.drop_first(),
                k,
            ) as int]);
        }
    }
}

proof fn lemma_first_below_is(cfg: AppConfig, s: Seq<SearchResult>, k: int, p: int)
    requires
        0 <= p <= s.len(),
        forall|q: int| 0 <= q < p ==> rank_key(cfg, #[trigger] s[q]) >= k,
        p < s.len() ==> rank_key(cfg, s[p]) < k,
    ensures
        first_below(cfg, s, k) == p,
    decreases p,
{
    if p > 0 {
        assert(rank_key(cfg, s[0]) >= k);
        assert forall|q: int| 0 <= q < p - 1 implies rank_key(
            cfg,
            #[trigger] s.drop_first()[q],
        ) >= k by {
            assert(s.drop_first()[q] == s[q + 1]);
        }
        if p - 1 < s.drop_first().len() {
            assert(s.drop_first()[p - 1] == s[p]);
        }
        lemma_first_below_is(cfg, s.drop_first(), k, p - 1);
    }
}

proof fn lemma_insert_ranked(cfg: AppConfig, t: Seq<SearchResult>, x: SearchResult)
    requires
        is_ordered(cfg, t),
    ensures
        insert_ranked(cfg, t, x).len() == t.len() + 1,
        is_ordered(cfg, insert_ranked(cfg, t, x)),
        forall|y: SearchResult| #[trigger] insert_ranked(cfg, t, x).contains(y) ==> t.contains(y) || y
            == x,
{
    let kx = rank_key(cfg, x);
    lemma_first_below_bounds(cfg, t, kx);
    let p = first_below(cfg, t, kx) as int;
    let u = insert_ranked(cfg, t, x);
    assert(u.len() == t.len() + 1);
    assert forall|q: int| 0 <= q < u.len() implies #[trigger] u[q] == (if q < p {
        t[q]
    } else if q == p {
        x
    } else {
        t[q - 1]
    }) by {}
    assert forall|i: int, j: int| 0 <= i < j < u.len() implies rank_key(cfg, #[trigger] u[i])
        >= rank_key(cfg, #[trigger] u[j]) by {
        assert(u[i] == (if i < p {
            t[i]
        } else if i == p {
            x
        } else {
            t[i - 1]
        }));
        assert(u[j] == (if j < p {
            t[j]
        } else if j == p {
            x
        } else {
            t[j - 1]
        }));
        if i == p {
            // everything after the insertion point ranks below x
            assert(rank_key(cfg, t[p]) < kx);
            if j - 1 > p {
                assert(rank_key(cfg, t[p]) >= rank_key(cfg, t[j - 1]));
            }
        }
    }
    assert forall|y: SearchResult| #[trigger] u.contains(y) implies t.contains(y) || y == x by {
        let q = choose|q: int| 0 <= q < u.len() && u[q] == y;
        if q < p {
            assert(t[q] == y);
        } else if q > p {
            assert(t[q - 1] == y);
        }
    }
}

proof fn lemma_ranked_order(cfg: AppConfig, s: Seq<SearchResult>)
    ensures
        ranked_order(cfg, s).len() == s.len(),
        is_ordered(cfg, ranked_order(cfg, s)),
        forall|y: SearchResult| #[trigger] ranked_order(cfg, s).contains(y) ==> s.contains(y),
    decreases s.len(),
{
    if s.len() > 0 {
        lemma_ranked_order(cfg, s.drop_last());
        let t = ranked_order(cfg, s.drop_last());
        lemma_insert_ranked(cfg, t, s.last());
        assert forall|y: SearchResult| #[trigger] ranked_order(cfg, s).contains(y) implies s.contains(
            y,
        ) by {
            if t.contains(y) {
                let m = choose|m: int| 0 <= m < s.drop_last().len() && s.drop_last()[m] == y;
                assert(s[m] == y);
            } else {
                assert(s[s.len() - 1] == y);
            }
        }
    }
}

/// The elements of `s` whose key is `k`, in order.
pub open spec fn with_key(cfg: AppConfig, s: Seq<SearchResult>, k: int) -> Seq<SearchResult>
    decreases s.len(),
{
    if s.len() == 0 {
        s
    } else if rank_key(cfg, s.last()) == k {
        with_key(cfg, s.drop_last(), k).push(s.last())
    } else {
        with_key(cfg, s.drop_last(), k)
    }
}

proof fn lemma_with_key_concat(cfg: AppConfig, a: Seq<SearchResult>, b: Seq<SearchResult>, k: int)
    ensures
        with_key(cfg, a + b, k) == with_key(cfg, a, k) + with_key(cfg, b, k),
    decreases b.len(),
{
    if b.len() == 0 {
        assert(a + b =~= a);
        assert(with_key(cfg, a, k) + with_key(cfg, b, k) =~= with_key(cfg, a, k));
    } else {
        lemma_with_key_concat(cfg, a, b.drop_last(), k);
        assert((a + b).drop_last() =~= a + b.drop_last());
        assert((a + b).last() == b.last());
        if rank_key(cfg, b.last()) == k {
            assert(with_key(cfg, a, k) + with_key(cfg, b, k) =~= (with_key(cfg, a, k) + with_key(
                cfg,
                b.drop_last(),
                k,
            )).push(b.last()));
        }
    }
}

proof fn lemma_with_key_none(cfg: AppConfig, s: Seq<SearchResult>, k: int)
    requires
        forall|q: int| 0 <= q < s.len() ==> rank_key(cfg, #[trigger] s[q]) != k,
    ensures
        with_key(cfg, s, k) == Seq::<SearchResult>::empty(),
    decreases s.len(),
{
    if s.len() > 0 {
        assert(rank_key(cfg, s[s.len() - 1]) != k);
        lemma_with_key_none(cfg, s.drop_last(), k);
    }
}

/// Ranking keeps the gathered order among results of equal rank: for each
/// key, the results with that key come out in the order they went in.
pub proof fn ranked_order_is_stable(cfg: AppConfig, s: Seq<SearchResult>, k: int)
    ensures
        with_key(cfg, ranked_order(cfg, s), k) == with_key(cfg, s, k),
    decreases s.len(),
{
    if s.len() > 0 {
        ranked_order_is_stable(cfg, s.drop_last(), k);
        lemma_ranked_order(cfg, s.drop_last());
        let t = ranked_order(cfg, s.drop_last());
        let x = s.last();
        let kx = rank_key(cfg, x);
        lemma_first_below_bounds(cfg, t, kx);
        let p = first_below(cfg, t, kx) as int;
        let front = t.take(p);
        let back = t.skip(p);
        assert(t =~= front + back);
        assert(insert_ranked(cfg, t, x) =~= (front + seq![x]) + back);
        assert forall|q: int| 0 <= q < back.len() implies rank_key(cfg, #[trigger] back[q]) < kx by {
            assert(back[q] == t[p + q]);
            if q > 0 {
                assert(rank_key(cfg, t[p]) >= rank_key(cfg, t[p + q]));
            }
        }
        lemma_with_key_concat(cfg, front + seq![x], back, k);
        lemma_with_key_concat(cfg, front, seq![x], k);
        lemma_with_key_concat(cfg, front, back, k);
        assert(seq![x].drop_last() =~= Seq::<SearchResult>::empty());
        assert(seq![x].last() == x);
        assert(with_key(cfg, seq![x].drop_last(), k) =~= Seq::<SearchResult>::empty());
        if k == kx {
            lemma_with_key_none(cfg, back, k);
            assert(with_key(cfg, seq![x], k) =~= seq![x]);
            assert(with_key(cfg, t, k) =~= with_key(cfg, front, k));
        } else {
            assert(with_key(cfg, seq![x], k) =~= Seq::<SearchResult>::empty());
        }
    }
}

/// A result list holds at most `MAX_RESULTS` results, each one gathered;
/// for a blank query every one of them is pinned.
pub proof fn ranked_keeps(cfg: AppConfig, query: Seq<char>, collected: Seq<SearchResult>)
    ensures
        ranked(cfg, query, collected).len() <= MAX_RESULTS,
        forall|y: SearchResult| #[trigger] ranked(cfg, query, collected).contains(y) ==> collected.contains(y),
        is_blank(query) ==> forall|k: int|
            0 <= k < ranked(cfg, query, collected).len() ==> (#[trigger] ranked(
                cfg,
                query,
                collected,
            )[k]).pinned,
{
    let b = is_blank(query);
    let s = shown(collected, b);
    lemma_shown(collected, b);
    lemma_ranked_order(cfg, s);
    let o = ranked_order(cfg, s);
    let r = ranked(cfg, query, collected);
    assert forall|y: SearchResult| #[trigger] r.contains(y) implies collected.contains(y) by {
        let k = choose|k: int| 0 <= k < r.len() && r[k] == y;
        assert(o[k] == y);
        assert(o.contains(y));
        assert(s.contains(y));
    }
    if b {
        assert forall|k: int| 0 <= k < r.len() implies (#[trigger] r[k]).pinned by {
            assert(o[k] == r[k]);
            assert(o.contains(r[k]));
            assert(s.contains(r[k]));
            let m = choose|m: int| 0 <= m < s.len() && s[m] == r[k];
            assert(s[m].pinned);
        }
    }
}

/// A result list is ordered by key: pinned results before the others and,
/// with usage ranking on, more used results before less used ones.
pub proof fn ranked_is_ordered(cfg: AppConfig, query: Seq<char>, collected: Seq<SearchResult>)
    ensures
        is_ordered(cfg, ranked(cfg, query, collected)),
{
    let s = shown(collected, is_blank(query));
    lemma_ranked_order(cfg, s);
    let o = ranked_order(cfg, s);
    let r = ranked(cfg, query, collected);
    assert forall|i: int, j: int| 0 <= i < j < r.len() implies rank_key(cfg, #[trigger] r[i])
        >= rank_key(cfg, #[trigger] r[j]) by {
        assert(r[i] == o[i]);
        assert(r[j] == o[j]);
    }
}

/// Pinned results come first: in a result list every pinned result stands
/// before every result that is not pinned, however often each was used;
/// and with usage ranking on, among results that are both pinned or both
/// not, the more used stands first.
pub proof fn ranked_puts_pinned_first(cfg: AppConfig, query: Seq<char>, collected: Seq<SearchResult>)
    ensures
        forall|i: int, j: int|
            0 <= i < j < ranked(cfg, query, collected).len() && (#[trigger] ranked(
                cfg,
                query,
                collected,
            )[j]).pinned ==> (#[trigger] ranked(cfg, query, collected)[i]).pinned,
        cfg.usage_ranking_enabled ==> forall|i: int, j: int|
            0 <= i < j < ranked(cfg, query, collected).len() && (#[trigger] ranked(
                cfg,
                query,
                collected,
            )[i]).pinned == (#[trigger] ranked(cfg, query, collected)[j]).pinned ==> usage_of(
                cfg,
                result_key(ranked(cfg, query, collected)[i]),
            ) >= usage_of(cfg, result_key(ranked(cfg, query, collected)[j])),
{
    ranked_is_ordered(cfg, query, collected);
    let r = ranked(cfg, query, collected);
    assert forall|i: int, j: int| 0 <= i < j < r.len() && (#[trigger] r[j]).pinned implies (
    #[trigger] r[i]).pinned by {
        assert(rank_key(cfg, r[i]) >= rank_key(cfg, r[j]));
    }
    if cfg.usage_ranking_enabled {
        assert forall|i: int, j: int| 0 <= i < j < r.len() && (#[trigger] r[i]).pinned == (
        #[trigger] r[j]).pinned implies usage_of(cfg, result_key(r[i])) >= usage_of(
            cfg,
            result_key(r[j]),
        ) by {
            assert(rank_key(cfg, r[i]) >= rank_key(cfg, r[j]));
        }
    }
}

/// The sort key of `r` under the configuration in `config`.
fn key_of(config: &ConfigStore, r: &SearchResult) -> (k: u64)
    ensures
        k as int == rank_key(config.cfg(), *r),
{
    let pin: u64 = if r.pinned {
        1
    } else {
        0
    };
    if config.current().usage_ranking_enabled {
        let used = config.usage_count(r.usage_key().as_str());
        pin * 0x1_0000_0000 + used as u64
    } else {
        pin
    }
}

/// The result list for `query` made of the gathered `results`.
pub fn rank_results(config: &ConfigStore, query: &str, results: Vec<SearchResult>) -> (r: Vec<
    SearchResult,
>)
    ensures
        r@ == ranked(config.cfg(), query@, results@),
{
    let ghost cfg = config.cfg();
    let blank_query = blank(query);
    let ghost input = results@;
    let ghost wanted = shown(input, blank_query);
    let mut out: Vec<SearchResult> = Vec::new();
    let mut keys: Vec<u64> = Vec::new();
    for item in it: results
        invariant
            it.seq() == input,
            cfg == config.cfg(),
            wanted == shown(input, blank_query),
            out@ == ranked_order(cfg, shown(input.take(it.index() as int), blank_query)),
            keys.len() == out.len(),
            forall|q: int| 0 <= q < out.len() ==> keys@[q] as int == rank_key(cfg, #[trigger] out@[q]),
    {
        let ghost before = input.take(it.index() as int);
        let ghost after = input.take(it.index() + 1);
        proof {
            assert(after.drop_last() =~= before);
            assert(after.last() == item);
        }
        if !blank_query || item.pinned {
            let k = key_of(config, &item);
            let mut p: usize = 0;
            while p < keys.len() && keys[p] >= k
                invariant
                    keys.len() == out.len(),
                    p <= keys.len(),
                    forall|q: int| 0 <= q < p ==> keys@[q] >= k,
                decreases keys.len() - p,
            {
                p = p + 1;
            }
            proof {
                assert forall|q: int| 0 <= q < p implies rank_key(cfg, #[trigger] out@[q]) >= k by {
                    assert(keys@[q] as int == rank_key(cfg, out@[q]));
                }
                if p < out.len() {
                    assert(keys@[p as int] as int == rank_key(cfg, out@[p as int]));
                }
                lemma_first_below_is(cfg, out@, k as int, p as int);
                assert(shown(after, blank_query) == shown(before, blank_query).push(item));
                assert(shown(after, blank_query).drop_last() =~= shown(before, blank_query));
            }
            let ghost old_out = out@;
            let ghost old_keys = keys@;
            out.insert(p, item);
            keys.insert(p, k);
            proof {
                assert(out@ =~= old_out.take(p as int).push(item) + old_out.skip(p as int));
                assert forall|q: int| 0 <= q < out.len() implies keys@[q] as int == rank_key(
                    cfg,
                    #[trigger] out@[q],
                ) by {
                    if q < p {
                        assert(out@[q] == old_out[q]);
                        assert(keys@[q] == old_keys[q]);
                    } else if q > p {
                        assert(out@[q] == old_out[q - 1]);
                        assert(keys@[q] == old_keys[q - 1]);
                    }
                }
            }
        } else {
            proof {
                assert(shown(after, blank_query) == shown(before, blank_query));
            }
        }
    }
    proof {
        assert(input.take(input.len() as int) =~= input);
    }
    if out.len() > MAX_RESULTS {
        out.truncate(MAX_RESULTS);
    }
    out
}

} // verus!
