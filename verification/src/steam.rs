//! Steam library discovery.

use vstd::prelude::*;

use crate::launch::views;
use crate::text::{chars_eq_ignore_case, chars_of, eq_ignore_case, string_of};

verus! {

/// Steam app id of Guild Wars 2.
pub const GW2_APP_ID: u32 = 1_284_210;

/// Install directory of Guild Wars 2 relative to a Steam library folder.
pub const GW2_INSTALL_DIR: &'static str = "steamapps\\common\\Guild Wars 2";

/// The rest of a quoted string that starts at `i` (just after its opening `"`): its text with
/// `\x` escapes resolved to `x`, and the position after its closing `"` (the end of `s` if it is
/// never closed, or if the text ends in a lone `\`).
pub open spec fn quoted_body(s: Seq<char>, i: int) -> (Seq<char>, int)
    decreases s.len() - i,
{
    if i < 0 || i >= s.len() {
        (Seq::empty(), s.len() as int)
    } else if s[i] == '"' {
        (Seq::empty(), i + 1)
    } else if s[i] == '\\' {
        if i + 1 < s.len() {
            let rest = quoted_body(s, i + 2);
            (seq![s[i + 1]] + rest.0, rest.1)
        } else {
            (Seq::empty(), s.len() as int)
        }
    } else {
        let rest = quoted_body(s, i + 1);
        (seq![s[i]] + rest.0, rest.1)
    }
}

/// Where a quoted string that starts at `i` ends lies after `i` and within the text.
pub proof fn lemma_quoted_body_end(s: Seq<char>, i: int)
    requires
        0 <= i <= s.len(),
    ensures
        i <= quoted_body(s, i).1 <= s.len(),
    decreases s.len() - i,
{
    if i < s.len() && s[i] != '"' {
        if s[i] == '\\' {
            if i + 1 < s.len() {
                lemma_quoted_body_end(s, i + 2);
            }
        } else {
            lemma_quoted_body_end(s, i + 1);
        }
    }
}

/// All double-quoted strings of `s` from position `i` on, with `\\` and `\"` escapes resolved.
pub open spec fn quoted_from(s: Seq<char>, i: int) -> Seq<Seq<char>>
    decreases s.len() - i,
{
    if i < 0 || i >= s.len() {
        Seq::empty()
    } else if s[i] != '"' {
        quoted_from(s, i + 1)
    } else {
        let body = quoted_body(s, i + 1);
        proof {
            lemma_quoted_body_end(s, i + 1);
        }
        seq![body.0] + quoted_from(s, body.1)
    }
}

/// Returns all double-quoted strings in `text`, with `\\` and `\"` escapes resolved.
pub fn quoted_tokens(text: &[char]) -> (r: Vec<String>)
    ensures
        views(r@) == quoted_from(text@, 0),
{
    let n = text.len();
    let mut tokens: Vec<String> = Vec::new();
    let mut i: usize = 0;
    while i < n
        invariant
            n == text@.len(),
            i <= n,
            views(tokens@) + quoted_from(text@, i as int) == quoted_from(text@, 0),
        decreases n - i,
    {
        if text[i] != '"' {
            i = i + 1;
        } else {
            let ghost start = i + 1;
            let mut token: Vec<char> = Vec::new();
            let mut j = i + 1;
            let mut closed = false;
            proof {
                lemma_quoted_body_end(text@, start as int);
            }
            while j < n && !closed
                invariant
                    n == text@.len(),
                    start <= j <= n,
                    !closed ==> token@ + quoted_body(text@, j as int).0 == quoted_body(
                        text@,
                        start as int,
                    ).0,
                    !closed ==> quoted_body(text@, j as int).1 == quoted_body(
                        text@,
                        start as int,
                    ).1,
                    closed ==> token@ == quoted_body(text@, start as int).0 && j == quoted_body(
                        text@,
                        start as int,
                    ).1,
                decreases n - j + (if closed { 0int } else { 1int }),
            {
                let c = text[j];
                if c == '"' {
                    closed = true;
                    j = j + 1;
                    assert(token@ + Seq::<char>::empty() =~= token@);
                } else if c == '\\' {
                    if j + 1 < n {
                        let ghost before = token@;
                        token.push(text[j + 1]);
                        assert(token@ + quoted_body(text@, j + 2).0 =~= before + quoted_body(
                            text@,
                            j as int,
                        ).0);
                        j = j + 2;
                    } else {
                        assert(token@ + Seq::<char>::empty() =~= token@);
                        closed = true;
                        j = n;
                    }
                } else {
                    let ghost before = token@;
                    token.push(c);
                    assert(token@ + quoted_body(text@, j + 1).0 =~= before + quoted_body(
                        text@,
                        j as int,
                    ).0);
                    j = j + 1;
                }
            }
            proof {
                if !closed {
                    assert(token@ + Seq::<char>::empty() =~= token@);
                }
            }
            let ghost before = tokens@;
            let t = string_of(token.as_slice());
            tokens.push(t);
            assert(views(tokens@) =~= views(before).push(t@));
            assert(views(tokens@) + quoted_from(text@, j as int) =~= views(before) + quoted_from(
                text@,
                i as int,
            ));
            i = j;
        }
    }
    assert(views(tokens@) + quoted_from(text@, n as int) =~= views(tokens@));
    tokens
}

/// The value after every `"path"` key (in any case) among `tokens`.
pub open spec fn path_values(tokens: Seq<Seq<char>>) -> Seq<Seq<char>>
    decreases tokens.len(),
{
    if tokens.len() < 2 {
        Seq::empty()
    } else {
        (if eq_ignore_case(tokens[0], "path"@) {
            seq![tokens[1]]
        } else {
            Seq::empty()
        }) + path_values(tokens.drop_first())
    }
}

/// Extracts all library folder paths from the contents of `steamapps\libraryfolders.vdf`.
///
/// Only the `"path"` entries are of interest, so instead of a full VDF parser this scans the
/// quoted tokens and returns every value that follows a `"path"` key.
pub fn library_folders(vdf: &str) -> (r: Vec<String>)
    ensures
        views(r@) == path_values(quoted_from(vdf@, 0)),
{
    let text = chars_of(vdf);
    let tokens = quoted_tokens(text.as_slice());
    let key = chars_of("path");
    let ghost all = views(tokens@);
    let mut out: Vec<String> = Vec::new();
    let mut i: usize = 0;
    let n = tokens.len();
    assert(all.subrange(0, all.len() as int) =~= all);
    while n > 1 && i < n - 1
        invariant
            n == tokens@.len(),
            all == views(tokens@),
            key@ == "path"@,
            i <= tokens@.len(),
            views(out@) + path_values(all.subrange(i as int, all.len() as int)) == path_values(
                all,
            ),
        decreases tokens@.len() - i,
    {
        let ghost rest = all.subrange(i as int, all.len() as int);
        assert(rest.drop_first() =~= all.subrange(i + 1, all.len() as int));
        let name = chars_of(tokens[i].as_str());
        let ghost before = out@;
        if chars_eq_ignore_case(name.as_slice(), key.as_slice()) {
            let value = chars_of(tokens[i + 1].as_str());
            let v = string_of(value.as_slice());
            out.push(v);
            assert(views(out@) =~= views(before).push(v@));
        }
        assert(views(out@) + path_values(all.subrange(i + 1, all.len() as int)) =~= views(before)
            + path_values(rest));
        i = i + 1;
    }
    assert(path_values(all.subrange(i as int, all.len() as int)) =~= Seq::<Seq<char>>::empty());
    out
}

} // verus!
