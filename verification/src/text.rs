//! Text helpers shared by the launcher: whitespace trimming, prefix
//! stripping, substring search, replacement and joining, all specified over
//! the `Seq<char>` view of strings.
use vstd::prelude::*;

verus! {

broadcast use vstd::string::group_string_axioms;

/// Unicode `White_Space` code points (the set `char::is_whitespace` tests).
pub open spec fn is_space(c: char) -> bool {
    let u = c as u32;
    ||| (0x9 <= u && u <= 0xD)
    ||| u == 0x20
    ||| u == 0x85
    ||| u == 0xA0
    ||| u == 0x1680
    ||| (0x2000 <= u && u <= 0x200A)
    ||| u == 0x2028
    ||| u == 0x2029
    ||| u == 0x202F
    ||| u == 0x205F
    ||| u == 0x3000
}

/// `s` with its leading whitespace removed.
pub open spec fn trim_start_seq(s: Seq<char>) -> Seq<char>
    decreases s.len(),
{
    if s.len() > 0 && is_space(s[0]) {
        trim_start_seq(s.drop_first())
    } else {
        s
    }
}

/// `s` with its trailing whitespace removed.
pub open spec fn trim_end_seq(s: Seq<char>) -> Seq<char>
    decreases s.len(),
{
    if s.len() > 0 && is_space(s.last()) {
        trim_end_seq(s.drop_last())
    } else {
        s
    }
}

/// `s` with whitespace removed at both ends.
pub open spec fn trim_seq(s: Seq<char>) -> Seq<char> {
    trim_end_seq(trim_start_seq(s))
}

/// Whether `s` is empty or only whitespace.
pub open spec fn is_blank(s: Seq<char>) -> bool {
    trim_seq(s).len() == 0
}

/// Whether `needle` occurs as a contiguous run inside `hay`.
pub open spec fn contains_seq(hay: Seq<char>, needle: Seq<char>) -> bool {
    exists|i: int|
        0 <= i && i + needle.len() <= hay.len() && #[trigger] hay.subrange(i, i + needle.len())
            == needle
}

/// Whether `s` starts with `p`.
pub open spec fn starts_with_seq(s: Seq<char>, p: Seq<char>) -> bool {
    p.len() <= s.len() && s.subrange(0, p.len() as int) == p
}

/// Every non-overlapping occurrence of `from`, scanning left to right,
/// replaced by `to` (for a non-empty pattern).
pub open spec fn replace_seq(s: Seq<char>, from: Seq<char>, to: Seq<char>) -> Seq<char>
    decreases s.len(),
{
    if from.len() == 0 || s.len() == 0 {
        s
    } else if starts_with_seq(s, from) {
        to + replace_seq(s.skip(from.len() as int), from, to)
    } else {
        seq![s[0]] + replace_seq(s.drop_first(), from, to)
    }
}

/// The parts joined with `sep` between neighbours.
pub open spec fn join_seq(parts: Seq<Seq<char>>, sep: Seq<char>) -> Seq<char>
    decreases parts.len(),
{
    if parts.len() == 0 {
        Seq::empty()
    } else if parts.len() == 1 {
        parts[0]
    } else {
        join_seq(parts.drop_last(), sep) + sep + parts.last()
    }
}

/// The Unicode lowercase mapping of a string, as `str::to_lowercase`
/// computes it.
pub uninterp spec fn lowercase_of(s: Seq<char>) -> Seq<char>;

/// Calls `str::to_lowercase`; the contract names its result.
#[verifier::external_body]
pub(crate) fn to_lowercase(s: &str) -> (r: String)
    ensures
        r@ == lowercase_of(s@),
{
    s.to_lowercase()
}

/// Calls `String::push`: appends one character.
#[verifier::external_body]
pub(crate) fn push_char(s: &mut String, c: char)
    ensures
        final(s)@ == old(s)@.push(c),
{
    s.push(c)
}

/// Whether `c` is whitespace.
pub fn is_whitespace(c: char) -> (b: bool)
    ensures
        b == is_space(c),
{
    let u = c as u32;
    (0x9 <= u && u <= 0xD) || u == 0x20 || u == 0x85 || u == 0xA0 || u == 0x1680 || (0x2000 <= u
        && u <= 0x200A) || u == 0x2028 || u == 0x2029 || u == 0x202F || u == 0x205F || u == 0x3000
}

/// The characters of `s`.
pub fn chars_of(s: &str) -> (v: Vec<char>)
    ensures
        v@ == s@,
{
    let mut v: Vec<char> = Vec::new();
    for c in it: s.chars()
        invariant
            it.seq() == s@,
            v@ == it.seq().take(it.index() as int),
    {
        v.push(c);
    }
    v
}

/// An owned copy of `s`.
pub fn owned(s: &str) -> (r: String)
    ensures
        r@ == s@,
{
    String::from_str(s)
}

/// Whether two strings hold the same characters.
pub fn same_text(a: &str, b: &str) -> (r: bool)
    ensures
        r == (a@ == b@),
{
    let x = chars_of(a);
    let y = chars_of(b);
    if x.len() != y.len() {
        return false;
    }
    let mut i: usize = 0;
    while i < x.len()
        invariant
            x@ == a@,
            y@ == b@,
            x.len() == y.len(),
            i <= x.len(),
            forall|k: int| 0 <= k < i ==> x@[k] == y@[k],
        decreases x.len() - i,
    {
        if x[i] != y[i] {
            return false;
        }
        i = i + 1;
    }
    assert(x@ =~= y@);
    true
}

proof fn lemma_trim_start_prefix(s: Seq<char>, i: int)
    requires
        0 <= i <= s.len(),
        forall|k: int| 0 <= k < i ==> is_space(#[trigger] s[k]),
    ensures
        trim_start_seq(s) == trim_start_seq(s.subrange(i, s.len() as int)),
    decreases i,
{
    if i > 0 {
        assert(s.drop_first().subrange(i - 1, s.drop_first().len() as int) =~= s.subrange(
            i,
            s.len() as int,
        ));
        lemma_trim_start_prefix(s.drop_first(), i - 1);
    } else {
        assert(s.subrange(0, s.len() as int) =~= s);
    }
}

proof fn lemma_trim_end_suffix(s: Seq<char>, j: int)
    requires
        0 <= j <= s.len(),
        forall|k: int| j <= k < s.len() ==> is_space(#[trigger] s[k]),
    ensures
        trim_end_seq(s) == trim_end_seq(s.subrange(0, j)),
    decreases s.len() - j,
{
    if j < s.len() {
        assert(s.drop_last().subrange(0, j) =~= s.subrange(0, j));
        lemma_trim_end_suffix(s.drop_last(), j);
    } else {
        assert(s.subrange(0, j) =~= s);
    }
}

/// First index at or after `from` whose character is not whitespace.
fn skip_spaces(v: &Vec<char>, from: usize) -> (i: usize)
    requires
        from <= v.len(),
    ensures
        from <= i <= v.len(),
        forall|k: int| from <= k < i ==> is_space(#[trigger] v@[k]),
        i < v.len() ==> !is_space(v@[i as int]),
{
    let mut i = from;
    while i < v.len() && is_whitespace(v[i])
        invariant
            from <= i <= v.len(),
            forall|k: int| from <= k < i ==> is_space(#[trigger] v@[k]),
        decreases v.len() - i,
    {
        i = i + 1;
    }
    i
}

/// Index just past the last non-whitespace character before `to`, not
/// below `lo`.
fn back_over_spaces(v: &Vec<char>, lo: usize, to: usize) -> (j: usize)
    requires
        lo <= to <= v.len(),
    ensures
        lo <= j <= to,
        forall|k: int| j <= k < to ==> is_space(#[trigger] v@[k]),
        j > lo ==> !is_space(v@[j - 1]),
{
    let mut j = to;
    while j > lo && is_whitespace(v[j - 1])
        invariant
            lo <= j <= to <= v.len(),
            forall|k: int| j <= k < to ==> is_space(#[trigger] v@[k]),
        decreases j,
    {
        j = j - 1;
    }
    j
}

/// `s` without leading whitespace (as `str::trim_start`).
pub fn trim_start(s: &str) -> (r: &str)
    ensures
        r@ == trim_start_seq(s@),
{
    let v = chars_of(s);
    let i = skip_spaces(&v, 0);
    proof {
        lemma_trim_start_prefix(s@, i as int);
        let rest = s@.subrange(i as int, s@.len() as int);
        if rest.len() > 0 {
            assert(rest[0] == s@[i as int]);
        }
    }
    s.substring_char(i, v.len())
}

/// `s` without whitespace at either end (as `str::trim`).
pub fn trim(s: &str) -> (r: &str)
    ensures
        r@ == trim_seq(s@),
{
    let v = chars_of(s);
    let i = skip_spaces(&v, 0);
    let j = back_over_spaces(&v, i, v.len());
    proof {
        lemma_trim_start_prefix(s@, i as int);
        let rest = s@.subrange(i as int, s@.len() as int);
        if rest.len() > 0 {
            assert(rest[0] == s@[i as int]);
        }
        assert forall|k: int| j - i <= k < rest.len() implies is_space(#[trigger] rest[k]) by {
            assert(rest[k] == v@[i + k]);
        }
        lemma_trim_end_suffix(rest, j - i);
        let mid = rest.subrange(0, j - i);
        assert(mid =~= s@.subrange(i as int, j as int));
        if mid.len() > 0 {
            assert(mid.last() == v@[j - 1]);
        }
    }
    s.substring_char(i, j)
}

/// Whether `s` is empty or whitespace only.
pub fn blank(s: &str) -> (b: bool)
    ensures
        b == is_blank(s@),
{
    let t = trim(s);
    t.unicode_len() == 0
}

/// Whether `hay` starts with `p` at character position `at`.
fn matches_at(hay: &Vec<char>, p: &Vec<char>, at: usize) -> (b: bool)
    requires
        at + p.len() <= hay.len(),
    ensures
        b == (hay@.subrange(at as int, at + p.len()) == p@),
{
    let mut k: usize = 0;
    while k < p.len()
        invariant
            at + p.len() <= hay.len(),
            k <= p.len(),
            forall|m: int| 0 <= m < k ==> hay@[at + m] == p@[m],
        decreases p.len() - k,
    {
        if hay[at + k] != p[k] {
            assert(hay@.subrange(at as int, at + p.len())[k as int] != p@[k as int]);
            return false;
        }
        k = k + 1;
    }
    assert(hay@.subrange(at as int, at + p.len()) =~= p@);
    true
}

/// Whether `needle` occurs in `hay` (as `str::contains` with a string
/// pattern).
pub fn contains(hay: &str, needle: &str) -> (b: bool)
    ensures
        b == contains_seq(hay@, needle@),
{
    let h = chars_of(hay);
    let n = chars_of(needle);
    if n.len() > h.len() {
        return false;
    }
    let last = h.len() - n.len();
    let mut i: usize = 0;
    loop
        invariant
            h@ == hay@,
            n@ == needle@,
            last == h.len() - n.len(),
            n.len() <= h.len(),
            i <= last,
            forall|k: int| 0 <= k < i ==> #[trigger] h@.subrange(k, k + n.len()) != n@,
        decreases last - i,
    {
        if matches_at(&h, &n, i) {
            return true;
        }
        if i == last {
            return false;
        }
        i = i + 1;
    }
}

/// `s` without the prefix `p`, or `None` where `s` does not start with it
/// (as `str::strip_prefix`).
pub fn strip_prefix<'a>(s: &'a str, p: &str) -> (r: Option<&'a str>)
    ensures
        r is Some <==> starts_with_seq(s@, p@),
        r matches Some(rest) ==> rest@ == s@.skip(p@.len() as int),
{
    let v = chars_of(s);
    let w = chars_of(p);
    if w.len() > v.len() {
        return None;
    }
    if matches_at(&v, &w, 0) {
        Some(s.substring_char(w.len(), v.len()))
    } else {
        None
    }
}

/// Appends the characters of `v` from `lo` up to `hi` to `out`.
fn append_range(out: &mut String, v: &Vec<char>, lo: usize, hi: usize)
    requires
        lo <= hi <= v.len(),
    ensures
        final(out)@ == old(out)@ + v@.subrange(lo as int, hi as int),
{
    let mut k = lo;
    while k < hi
        invariant
            lo <= k <= hi <= v.len(),
            out@ == old(out)@ + v@.subrange(lo as int, k as int),
        decreases hi - k,
    {
        push_char(out, v[k]);
        k = k + 1;
        assert(v@.subrange(lo as int, k as int) =~= v@.subrange(lo as int, k - 1).push(
            v@[k - 1],
        ));
    }
}

proof fn lemma_replace_step_match(s: Seq<char>, from: Seq<char>, to: Seq<char>, i: int)
    requires
        from.len() > 0,
        0 <= i,
        i + from.len() <= s.len(),
        s.subrange(i, i + from.len()) == from,
    ensures
        replace_seq(s.skip(i), from, to) == to + replace_seq(s.skip(i + from.len()), from, to),
{
    let t = s.skip(i);
    assert(t.subrange(0, from.len() as int) =~= s.subrange(i, i + from.len()));
    assert(t.skip(from.len() as int) =~= s.skip(i + from.len()));
}

proof fn lemma_replace_step_plain(s: Seq<char>, from: Seq<char>, to: Seq<char>, i: int)
    requires
        from.len() > 0,
        0 <= i < s.len(),
        !(i + from.len() <= s.len() && s.subrange(i, i + from.len()) == from),
    ensures
        replace_seq(s.skip(i), from, to) == seq![s[i]] + replace_seq(s.skip(i + 1), from, to),
{
    let t = s.skip(i);
    if from.len() <= t.len() {
        assert(t.subrange(0, from.len() as int) =~= s.subrange(i, i + from.len()));
    }
    assert(t.drop_first() =~= s.skip(i + 1));
}

/// `s` with every occurrence of the non-empty pattern `from` replaced by
/// `to` (as `str::replace`).
pub fn replace(s: &str, from: &str, to: &str) -> (r: String)
    requires
        from@.len() > 0,
    ensures
        r@ == replace_seq(s@, from@, to@),
{
    let v = chars_of(s);
    let f = chars_of(from);
    let mut out = String::new();
    let mut i: usize = 0;
    proof {
        assert(s@.skip(0) =~= s@);
    }
    while i < v.len()
        invariant
            v@ == s@,
            f@ == from@,
            f.len() > 0,
            i <= v.len(),
            out@ + replace_seq(s@.skip(i as int), from@, to@) == replace_seq(s@, from@, to@),
        decreases v.len() - i,
    {
        if f.len() <= v.len() - i && matches_at(&v, &f, i) {
            proof {
                lemma_replace_step_match(s@, from@, to@, i as int);
            }
            let ghost before = out@;
            out.append(to);
            assert(out@ + replace_seq(s@.skip(i + f.len()), from@, to@) =~= before + (to@
                + replace_seq(s@.skip(i + f.len()), from@, to@)));
            i = i + f.len();
        } else {
            proof {
                lemma_replace_step_plain(s@, from@, to@, i as int);
            }
            let ghost before = out@;
            push_char(&mut out, v[i]);
            assert(out@ + replace_seq(s@.skip(i + 1), from@, to@) =~= before + (seq![v@[i as int]]
                + replace_seq(s@.skip(i + 1), from@, to@)));
            i = i + 1;
        }
    }
    proof {
        assert(s@.skip(i as int).len() == 0);
        assert(out@ + replace_seq(s@.skip(i as int), from@, to@) =~= out@);
    }
    out
}

/// The strings of `parts` joined with `sep` (as `[String]::join`).
pub fn join(parts: &Vec<String>, sep: &str) -> (r: String)
    ensures
        r@ == join_seq(parts@.map_values(|p: String| p@), sep@),
{
    let ghost views = parts@.map_values(|p: String| p@);
    let mut out = String::new();
    let mut i: usize = 0;
    while i < parts.len()
        invariant
            views == parts@.map_values(|p: String| p@),
            i <= parts.len(),
            out@ == join_seq(views.take(i as int), sep@),
        decreases parts.len() - i,
    {
        if i > 0 {
            out.append(sep);
        }
        out.append(parts[i].as_str());
        proof {
            let t = views.take(i + 1);
            assert(t.drop_last() =~= views.take(i as int));
            if i == 0 {
                assert(t.len() == 1);
            }
        }
        i = i + 1;
    }
    assert(views.take(parts.len() as int) =~= views);
    out
}

/// A line without a carriage return that ended it.
pub open spec fn without_cr(line: Seq<char>) -> Seq<char> {
    if line.len() > 0 && line.last() == '\r' {
        line.drop_last()
    } else {
        line
    }
}

/// The lines of `s` after the partial line `cur`: split at `\n`, a `\r`
/// before the `\n` dropped, and no empty line after a final `\n` (as
/// `str::lines`).
pub open spec fn lines_from(s: Seq<char>, cur: Seq<char>) -> Seq<Seq<char>>
    decreases s.len(),
{
    if s.len() == 0 {
        if cur.len() == 0 {
            Seq::empty()
        } else {
            seq![cur]
        }
    } else if s[0] == '\n' {
        seq![without_cr(cur)] + lines_from(s.drop_first(), Seq::empty())
    } else {
        lines_from(s.drop_first(), cur.push(s[0]))
    }
}

/// The lines of `s`.
pub open spec fn lines_seq(s: Seq<char>) -> Seq<Seq<char>> {
    lines_from(s, Seq::empty())
}

/// The lines of `s` (as `str::lines`).
pub fn lines(s: &str) -> (r: Vec<String>)
    ensures
        texts_of(r@) == lines_seq(s@),
{
    let v = chars_of(s);
    let mut out: Vec<String> = Vec::new();
    let mut cur = String::new();
    let mut i: usize = 0;
    proof {
        assert(s@.skip(0) =~= s@);
        assert(texts_of(out@) =~= Seq::<Seq<char>>::empty());
    }
    while i < v.len()
        invariant
            v@ == s@,
            i <= v.len(),
            texts_of(out@) + lines_from(s@.skip(i as int), cur@) == lines_seq(s@),
        decreases v.len() - i,
    {
        let ghost rest = s@.skip(i as int);
        proof {
            assert(rest[0] == v@[i as int]);
            assert(rest.drop_first() =~= s@.skip(i + 1));
        }
        if v[i] == '\n' {
            let line = strip_cr(&cur);
            let ghost before = texts_of(out@);
            out.push(line);
            proof {
                assert(texts_of(out@) =~= before.push(without_cr(cur@)));
                assert(before + (seq![without_cr(cur@)] + lines_from(s@.skip(i + 1), Seq::empty()))
                    =~= before.push(without_cr(cur@)) + lines_from(s@.skip(i + 1), Seq::empty()));
            }
            cur = String::new();
        } else {
            push_char(&mut cur, v[i]);
        }
        i = i + 1;
    }
    proof {
        assert(s@.skip(i as int) =~= Seq::<char>::empty());
    }
    if cur.unicode_len() > 0 {
        let ghost before = texts_of(out@);
        out.push(cur);
        proof {
            assert(texts_of(out@) =~= before + seq![cur@]);
        }
    } else {
        proof {
            assert(texts_of(out@) + Seq::<Seq<char>>::empty() =~= texts_of(out@));
        }
    }
    out
}

/// The texts of a list of strings.
pub open spec fn texts_of(v: Seq<String>) -> Seq<Seq<char>> {
    v.map_values(|x: String| x@)
}

/// `line` without a final carriage return.
fn strip_cr(line: &String) -> (r: String)
    ensures
        r@ == without_cr(line@),
{
    let v = chars_of(line.as_str());
    let n = v.len();
    if n > 0 && v[n - 1] == '\r' {
        let mut out = String::new();
        append_range(&mut out, &v, 0, n - 1);
        assert(v@.subrange(0, n - 1) =~= line@.drop_last());
        out
    } else {
        line.clone()
    }
}

} // verus!
