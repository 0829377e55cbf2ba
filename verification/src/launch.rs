//! Building the game's command line.

use vstd::prelude::*;

use crate::account::{Account, Provider, mumble_name};
use crate::text::{chars_of, is_space, is_whitespace, owned, string_of};

verus! {

/// Per-launch switches that depend on runtime state rather than on the account itself.
#[derive(Debug, Clone, Copy, PartialEq, Eq)]
pub struct LaunchOptions {
    /// Open `Gw2.dat` read-only so several clients can share it.
    pub share_archive: bool,
    /// Log in automatically with the credentials remembered in `Local.dat`.
    pub autologin: bool,
}

impl Default for LaunchOptions {
    fn default() -> (r: Self)
        ensures
            r.share_archive,
            r.autologin,
    {
        Self { share_archive: true, autologin: true }
    }
}

/// The views of a list of strings.
pub open spec fn views(v: Seq<String>) -> Seq<Seq<char>> {
    v.map_values(|t: String| t@)
}

/// The first position at or after `i` that holds a `"`, or the end of `s`.
pub open spec fn next_quote(s: Seq<char>, i: int) -> int
    decreases s.len() - i,
{
    if i < 0 || i >= s.len() {
        s.len() as int
    } else if s[i] == '"' {
        i
    } else {
        next_quote(s, i + 1)
    }
}

/// The first position at or after `i` that holds whitespace, or the end of `s`.
pub open spec fn next_space(s: Seq<char>, i: int) -> int
    decreases s.len() - i,
{
    if i < 0 || i >= s.len() {
        s.len() as int
    } else if is_space(s[i]) {
        i
    } else {
        next_space(s, i + 1)
    }
}

/// `next_quote` lies between its start and the end of the text.
pub proof fn lemma_next_quote_bounds(s: Seq<char>, i: int)
    requires
        0 <= i,
    ensures
        i <= next_quote(s, i) <= s.len() || (i > s.len() && next_quote(s, i) == s.len()),
        next_quote(s, i) < s.len() ==> s[next_quote(s, i)] == '"',
        forall|k: int| i <= k < next_quote(s, i) ==> s[k] != '"',
    decreases s.len() - i,
{
    if i < s.len() && s[i] != '"' {
        lemma_next_quote_bounds(s, i + 1);
    }
}

/// `next_space` lies between its start and the end of the text.
pub proof fn lemma_next_space_bounds(s: Seq<char>, i: int)
    requires
        0 <= i,
    ensures
        i <= next_space(s, i) <= s.len() || (i > s.len() && next_space(s, i) == s.len()),
        next_space(s, i) < s.len() ==> is_space(s[next_space(s, i)]),
        forall|k: int| i <= k < next_space(s, i) ==> !is_space(s[k]),
    decreases s.len() - i,
{
    if i < s.len() && !is_space(s[i]) {
        lemma_next_space_bounds(s, i + 1);
    }
}

/// The tokens of `s` from position `i` on: whitespace separates tokens, a token that starts with
/// `"` runs to the next `"` (or the end) without the quotes, any other token runs to the next
/// whitespace. There is no escape character.
pub open spec fn tokens_from(s: Seq<char>, i: int) -> Seq<Seq<char>>
    decreases s.len() - i,
{
    if i < 0 || i >= s.len() {
        Seq::empty()
    } else if is_space(s[i]) {
        tokens_from(s, i + 1)
    } else if s[i] == '"' {
        let j = next_quote(s, i + 1);
        proof {
            lemma_next_quote_bounds(s, i + 1);
        }
        if j < s.len() {
            seq![s.subrange(i + 1, j)] + tokens_from(s, j + 1)
        } else {
            seq![s.subrange(i + 1, j)]
        }
    } else {
        let j = next_space(s, i + 1);
        proof {
            lemma_next_space_bounds(s, i + 1);
        }
        seq![s.subrange(i, j)] + tokens_from(s, j)
    }
}

/// The argument tokens of the free-form text `s`.
pub open spec fn split_spec(s: Seq<char>) -> Seq<Seq<char>> {
    tokens_from(s, 0)
}

/// Splits a free-form argument string into individual tokens, similar to a shell's word
/// splitting: whitespace separates tokens, and `"..."` groups a token that contains whitespace.
/// There is no escape character; a quote cannot be embedded in a quoted token.
pub fn split_args(text: &str) -> (r: Vec<String>)
    ensures
        views(r@) == split_spec(text@),
{
    let s = chars_of(text);
    let n = s.len();
    let mut tokens: Vec<String> = Vec::new();
    let mut i: usize = 0;
    while i < n
        invariant
            n == s@.len(),
            s@ == text@,
            i <= n,
            views(tokens@) + tokens_from(s@, i as int) == split_spec(s@),
        decreases n - i,
    {
        let c = s[i];
        if is_whitespace(c) {
            i = i + 1;
        } else if c == '"' {
            let ghost i_before = i;
            let mut j = i + 1;
            proof {
                lemma_next_quote_bounds(s@, i + 1);
            }
            while j < n && s[j] != '"'
                invariant
                    i < j <= n == s@.len(),
                    next_quote(s@, i + 1) == next_quote(s@, j as int),
                decreases n - j,
            {
                j = j + 1;
            }
            let token = string_of(crate::text::slice_chars(s.as_slice(), i + 1, j).as_slice());
            let ghost before = tokens@;
            tokens.push(token);
            assert(views(tokens@) == views(before).push(s@.subrange(i + 1, j as int)));
            i = if j < n {
                j + 1
            } else {
                n
            };
            assert(views(tokens@) + tokens_from(s@, i as int) =~= views(before) + tokens_from(
                s@,
                i_before as int,
            ));
        } else {
            let mut j = i + 1;
            while j < n && !is_whitespace(s[j])
                invariant
                    i < j <= n == s@.len(),
                    next_space(s@, i + 1) == next_space(s@, j as int),
                decreases n - j,
            {
                j = j + 1;
            }
            let token = string_of(crate::text::slice_chars(s.as_slice(), i, j).as_slice());
            let ghost before = tokens@;
            tokens.push(token);
            assert(views(tokens@) == views(before).push(s@.subrange(i as int, j as int)));
            assert(views(tokens@) + tokens_from(s@, j as int) =~= views(before) + tokens_from(
                s@,
                i as int,
            ));
            i = j;
        }
    }
    assert(views(tokens@) + tokens_from(s@, n as int) =~= views(tokens@));
    tokens
}

/// `next_quote` read in a suffix of the text.
proof fn lemma_next_quote_skip(s: Seq<char>, d: int, i: int)
    requires
        0 <= d <= i,
        d <= s.len(),
    ensures
        next_quote(s, i) == next_quote(s.skip(d), i - d) + d,
    decreases s.len() - i,
{
    if i < s.len() && s[i] != '"' {
        lemma_next_quote_skip(s, d, i + 1);
    }
}

/// `next_space` read in a suffix of the text.
proof fn lemma_next_space_skip(s: Seq<char>, d: int, i: int)
    requires
        0 <= d <= i,
        d <= s.len(),
    ensures
        next_space(s, i) == next_space(s.skip(d), i - d) + d,
    decreases s.len() - i,
{
    if i < s.len() && !is_space(s[i]) {
        lemma_next_space_skip(s, d, i + 1);
    }
}

/// The tokens from position `i` on are those of the text with its first `d` characters dropped.
proof fn lemma_tokens_skip(s: Seq<char>, d: int, i: int)
    requires
        0 <= d <= i,
        d <= s.len(),
    ensures
        tokens_from(s, i) == tokens_from(s.skip(d), i - d),
    decreases s.len() - i,
{
    let t = s.skip(d);
    if i >= s.len() {
    } else if is_space(s[i]) {
        lemma_tokens_skip(s, d, i + 1);
    } else if s[i] == '"' {
        let j = next_quote(s, i + 1);
        lemma_next_quote_bounds(s, i + 1);
        lemma_next_quote_skip(s, d, i + 1);
        assert(s.subrange(i + 1, j) =~= t.subrange(i + 1 - d, j - d));
        if j < s.len() {
            lemma_tokens_skip(s, d, j + 1);
        }
    } else {
        let j = next_space(s, i + 1);
        lemma_next_space_bounds(s, i + 1);
        lemma_next_space_skip(s, d, i + 1);
        assert(s.subrange(i, j) =~= t.subrange(i - d, j - d));
        lemma_tokens_skip(s, d, j);
    }
}

/// The words of `s`, as `str::split_whitespace` gives them: the runs of characters that are not
/// whitespace, each as long as it goes, in order.
pub open spec fn words(s: Seq<char>) -> Seq<Seq<char>>
    decreases s.len(),
{
    if s.len() == 0 {
        Seq::empty()
    } else if is_space(s[0]) {
        words(s.drop_first())
    } else {
        let k = next_space(s, 1);
        proof {
            lemma_next_space_bounds(s, 1);
        }
        seq![s.take(k)] + words(s.skip(k))
    }
}

/// Text without `"` splits into its words: `split_args` then works as `str::split_whitespace`.
pub proof fn lemma_unquoted_splits_on_whitespace(s: Seq<char>)
    requires
        !s.contains('"'),
    ensures
        split_spec(s) == words(s),
    decreases s.len(),
{
    if s.len() == 0 {
    } else if is_space(s[0]) {
        lemma_tokens_skip(s, 1, 1);
        assert(s.skip(1) =~= s.drop_first());
        assert(!s.drop_first().contains('"')) by {
            if s.drop_first().contains('"') {
                let k = choose|k: int| 0 <= k < s.drop_first().len() && s.drop_first()[k] == '"';
                assert(s[k + 1] == '"');
            }
        }
        lemma_unquoted_splits_on_whitespace(s.drop_first());
    } else {
        assert(s[0] != '"');
        let k = next_space(s, 1);
        lemma_next_space_bounds(s, 1);
        lemma_tokens_skip(s, k, k);
        assert(s.subrange(0, k) =~= s.take(k));
        assert(!s.skip(k).contains('"')) by {
            if s.skip(k).contains('"') {
                let m = choose|m: int| 0 <= m < s.skip(k).len() && s.skip(k)[m] == '"';
                assert(s[m + k] == '"');
            }
        }
        lemma_unquoted_splits_on_whitespace(s.skip(k));
    }
}

/// `t` in quotes.
pub open spec fn quoted(t: Seq<char>) -> Seq<char> {
    seq!['"'] + t + seq!['"']
}

/// The tokens `ts`, each in quotes, joined with single spaces.
pub open spec fn quoted_join(ts: Seq<Seq<char>>) -> Seq<char>
    decreases ts.len(),
{
    if ts.len() == 0 {
        Seq::empty()
    } else if ts.len() == 1 {
        quoted(ts[0])
    } else {
        quoted(ts[0]) + seq![' '] + quoted_join(ts.drop_first())
    }
}

/// Tokens without `"`, each put in quotes and joined with spaces, split back into themselves,
/// whatever whitespace they hold and though some are empty.
pub proof fn lemma_quoted_round_trip(ts: Seq<Seq<char>>)
    requires
        forall|i: int| 0 <= i < ts.len() ==> !(#[trigger] ts[i]).contains('"'),
    ensures
        split_spec(quoted_join(ts)) == ts,
    decreases ts.len(),
{
    if ts.len() == 0 {
        assert(split_spec(quoted_join(ts)) =~= ts);
    } else {
        let t = ts[0];
        let s = quoted_join(ts);
        let n = t.len() as int;
        assert(s[0] == '"');
        assert forall|k: int| 1 <= k < n + 1 implies s[k] != '"' by {
            assert(s[k] == t[k - 1]);
        }
        assert(s[n + 1] == '"');
        lemma_quote_at(s, 1, n + 1);
        assert(s.subrange(1, n + 1) =~= t);
        if ts.len() == 1 {
            assert(s.len() == n + 2);
            assert(tokens_from(s, 0) =~= seq![t]);
            assert(ts =~= seq![t]);
        } else {
            let rest = quoted_join(ts.drop_first());
            assert(s[n + 2] == ' ');
            assert(is_space(s[n + 2]));
            lemma_tokens_skip(s, n + 3, n + 3);
            assert(s.skip(n + 3) =~= rest);
            assert forall|i: int| 0 <= i < ts.drop_first().len() implies !(
            #[trigger] ts.drop_first()[i]).contains('"') by {
                assert(ts.drop_first()[i] == ts[i + 1]);
            }
            lemma_quoted_round_trip(ts.drop_first());
            assert(tokens_from(s, 0) == seq![t] + tokens_from(s, n + 2));
            assert(ts =~= seq![t] + ts.drop_first());
        }
    }
}

/// `next_quote` from `i` finds the quote at `q` when none comes before it.
proof fn lemma_quote_at(s: Seq<char>, i: int, q: int)
    requires
        0 <= i <= q < s.len(),
        s[q] == '"',
        forall|k: int| i <= k < q ==> s[k] != '"',
    ensures
        next_quote(s, i) == q,
    decreases q - i,
{
    if i < q {
        lemma_quote_at(s, i + 1, q);
    }
}

/// The command line of `account`'s client under `options`: `-shareArchive` when the archive is
/// shared, `-autologin` for an `ArenaNet` account that logs in automatically, `-provider Steam`
/// for a Steam account, then its `MumbleLink` name and its own extra arguments.
pub open spec fn game_args_spec(account: Account, options: LaunchOptions) -> Seq<Seq<char>> {
    let share: Seq<Seq<char>> = if options.share_archive {
        seq!["-shareArchive"@]
    } else {
        Seq::empty()
    };
    let auto: Seq<Seq<char>> = if options.autologin && account.provider == Provider::ArenaNet {
        seq!["-autologin"@]
    } else {
        Seq::empty()
    };
    let steam: Seq<Seq<char>> = if account.provider == Provider::Steam {
        seq!["-provider"@, "Steam"@]
    } else {
        Seq::empty()
    };
    share + auto + steam + seq!["-mumble"@, mumble_name(account.id.0)] + split_spec(
        account.extra_args@,
    )
}

/// Builds the individual command line arguments for launching `account`.
///
/// Each element is a single argv entry (no manual quoting): pass them to a process API that
/// quotes as needed.
pub fn game_args(account: &Account, options: LaunchOptions) -> (r: Vec<String>)
    ensures
        views(r@) == game_args_spec(*account, options),
{
    let mut args: Vec<String> = Vec::new();
    if options.share_archive {
        args.push(owned("-shareArchive"));
    }
    if options.autologin && account.provider == Provider::ArenaNet {
        args.push(owned("-autologin"));
    }
    if account.provider == Provider::Steam {
        args.push(owned("-provider"));
        args.push(owned("Steam"));
    }
    args.push(owned("-mumble"));
    args.push(account.mumble_link_name());
    let ghost fixed = args@;
    let mut extra = split_args(account.extra_args.as_str());
    args.append(&mut extra);
    assert(views(args@) =~= views(fixed) + split_spec(account.extra_args@));
    assert(views(fixed) =~= game_args_spec(*account, options).take(views(fixed).len() as int));
    assert(views(args@) =~= game_args_spec(*account, options));
    args
}

} // verus!
