//! The desktop entry that registers the launcher under its application id.
use crate::text::{replace, replace_seq};
use vstd::prelude::*;

verus! {

/// The application id.
pub const APP_ID: &'static str = "io.github.gpotlight.Gpotlight";

/// `raw` as one single-quoted shell word.
pub open spec fn shell_escape_seq(raw: Seq<char>) -> Seq<char> {
    seq!['\''] + replace_seq(raw, seq!['\''], seq!['\'', '\\', '\'', '\'']) + seq!['\'']
}

/// The desktop entry whose `Exec` line runs `exec`.
pub open spec fn desktop_entry_seq(exec: Seq<char>) -> Seq<char> {
    "[Desktop Entry]\nType=Application\nName=Gpotlight\nComment=Spotlight-style launcher for GNOME\nExec="@
        + shell_escape_seq(exec)
        + "\nIcon=system-search\nCategories=Utility;\nStartupNotify=false\nDBusActivatable=false\n"@
}

/// Quotes a path for a shell: wraps it in single quotes and writes each
/// single quote inside as `'\''`.
pub fn shell_escape(raw: &str) -> (r: String)
    ensures
        r@ == shell_escape_seq(raw@),
{
    let quote = "'";
    let escaped_quote = "'\\''";
    proof {
        reveal_strlit("'");
        reveal_strlit("'\\''");
        assert(quote@ =~= seq!['\'']);
        assert(escaped_quote@ =~= seq!['\'', '\\', '\'', '\'']);
    }
    let mut out = String::from_str(quote);
    let inner = replace(raw, quote, escaped_quote);
    out.append(inner.as_str());
    out.append(quote);
    out
}

/// The desktop entry for the executable at `exec`.
pub fn desktop_entry_content(exec: &str) -> (r: String)
    ensures
        r@ == desktop_entry_seq(exec@),
{
    let head =
        "[Desktop Entry]\nType=Application\nName=Gpotlight\nComment=Spotlight-style launcher for GNOME\nExec=";
    let tail = "\nIcon=system-search\nCategories=Utility;\nStartupNotify=false\nDBusActivatable=false\n";
    let mut out = String::from_str(head);
    let escaped = shell_escape(exec);
    out.append(escaped.as_str());
    out.append(tail);
    out
}

/// How a POSIX shell reads a word: single quotes start and end literal
/// text, a backslash outside quotes takes the next character literally.
pub open spec fn shell_read(s: Seq<char>, quoted: bool) -> Seq<char>
    decreases s.len(),
{
    if s.len() == 0 {
        s
    } else if quoted {
        if s[0] == '\'' {
            shell_read(s.drop_first(), false)
        } else {
            seq![s[0]] + shell_read(s.drop_first(), true)
        }
    } else if s[0] == '\'' {
        shell_read(s.drop_first(), true)
    } else if s[0] == '\\' && s.len() >= 2 {
        seq![s[1]] + shell_read(s.skip(2), false)
    } else {
        seq![s[0]] + shell_read(s.drop_first(), false)
    }
}

proof fn lemma_read_escaped(raw: Seq<char>)
    ensures
        shell_read(
            replace_seq(raw, seq!['\''], seq!['\'', '\\', '\'', '\'']) + seq!['\''],
            true,
        ) == raw,
    decreases raw.len(),
{
    let q = seq!['\''];
    let e = seq!['\'', '\\', '\'', '\''];
    if raw.len() == 0 {
        let s = replace_seq(raw, q, e) + q;
        assert(s =~= q);
        assert(s[0] == '\'');
        assert(s.drop_first() =~= Seq::<char>::empty());
        assert(shell_read(s, true) == shell_read(s.drop_first(), false));
    } else {
        let rest = raw.drop_first();
        lemma_read_escaped(rest);
        let tail = replace_seq(rest, q, e) + q;
        assert(shell_read(tail, true) == rest);
        let s = replace_seq(raw, q, e) + q;
        if raw[0] == '\'' {
            assert(raw.subrange(0, 1) =~= q);
            assert(raw.skip(1) =~= rest);
            assert(s =~= e + tail);
            assert(s[0] == '\'');
            let s1 = s.drop_first();
            assert(s1 =~= seq!['\\', '\'', '\''] + tail);
            assert(shell_read(s, true) == shell_read(s1, false));
            assert(s1[0] == '\\' && s1[1] == '\'');
            let s2 = s1.skip(2);
            assert(s2 =~= seq!['\''] + tail);
            assert(shell_read(s1, false) == seq!['\''] + shell_read(s2, false));
            assert(s2[0] == '\'');
            assert(s2.drop_first() =~= tail);
            assert(shell_read(s2, false) == shell_read(s2.drop_first(), true));
            assert(raw =~= seq!['\''] + rest);
        } else {
            assert(raw.subrange(0, 1) != q) by {
                assert(raw.subrange(0, 1)[0] == raw[0]);
            }
            assert(s =~= seq![raw[0]] + tail);
            assert(s[0] == raw[0]);
            assert(s.drop_first() =~= tail);
            assert(shell_read(s, true) == seq![raw[0]] + shell_read(s.drop_first(), true));
            assert(raw =~= seq![raw[0]] + rest);
        }
    }
}

/// A shell reading the quoted word gets back the path it quotes.
pub proof fn shell_escape_round_trip(raw: Seq<char>)
    ensures
        shell_read(shell_escape_seq(raw), false) == raw,
{
    let q = seq!['\''];
    let inner = replace_seq(raw, q, seq!['\'', '\\', '\'', '\'']);
    lemma_read_escaped(raw);
    let s = shell_escape_seq(raw);
    assert(s =~= q + (inner + q));
    assert(s.drop_first() =~= inner + q);
}

} // verus!
