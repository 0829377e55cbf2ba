//! Companion apps started together with a game client (e.g. Blish HUD).

use vstd::prelude::*;

use crate::launch::{split_args, split_spec, views};
use crate::text::{chars_of, decimal, decimal_string, owned, string_of};

verus! {

/// Stable identifier of a companion app.
#[derive(Debug, Clone, Copy, PartialEq, Eq, Structural, Hash, PartialOrd, Ord)]
pub struct CompanionId(pub u32);

/// How many instances of a companion app run.
#[derive(Debug, Clone, Copy, PartialEq, Eq, Structural)]
pub enum Scope {
    /// One instance per game client, bound to that client's lifetime.
    PerClient,
    /// A single instance shared by all clients, closed after the last client exits.
    Shared,
}

impl Default for Scope {
    fn default() -> (r: Self)
        ensures
            r == Scope::PerClient,
    {
        Scope::PerClient
    }
}

/// When a companion app is started.
#[derive(Debug, Clone, Copy, PartialEq, Eq, Structural)]
pub enum Trigger {
    /// Right after the game process has been created.
    ProcessStarted,
    /// As soon as the game window is shown.
    WindowShown,
}

impl Default for Trigger {
    fn default() -> (r: Self)
        ensures
            r == Trigger::WindowShown,
    {
        Trigger::WindowShown
    }
}

/// A program launched alongside the game.
#[derive(Debug, Clone, PartialEq, Eq)]
pub struct CompanionApp {
    pub id: CompanionId,
    pub name: String,
    /// Path of the program.
    pub exe: String,
    /// Argument template. Supported placeholders: `{pid}`, `{mumble}`, `{account}`.
    pub args: String,
    pub scope: Scope,
    pub start_when: Trigger,
    pub close_with_game: bool,
}

/// Values substituted into a companion app's argument template.
#[derive(Debug, Clone, Copy)]
pub struct ArgContext<'a> {
    pub pid: u32,
    pub mumble: &'a str,
    pub account: &'a str,
}

/// Display name of the Blish HUD preset.
pub const BLISH_HUD: &'static str = "Blish HUD";

/// Whether `pat` occurs in `s` at position `i`.
pub open spec fn matches_at(s: Seq<char>, pat: Seq<char>, i: int) -> bool {
    0 <= i && i + pat.len() <= s.len() && s.subrange(i, i + pat.len()) == pat
}

/// `s` from position `i` on, with every occurrence of `pat` replaced by `with`, matched left to
/// right without overlap, as `str::replace` does for a non-empty pattern.
pub open spec fn replace_from(s: Seq<char>, pat: Seq<char>, with: Seq<char>, i: int) -> Seq<
    char,
>
    decreases s.len() - i,
{
    if i < 0 || i >= s.len() || pat.len() == 0 {
        Seq::empty()
    } else if matches_at(s, pat, i) {
        with + replace_from(s, pat, with, i + pat.len())
    } else {
        seq![s[i]] + replace_from(s, pat, with, i + 1)
    }
}

/// `s` with every occurrence of `pat` replaced by `with`.
pub open spec fn replace_all(s: Seq<char>, pat: Seq<char>, with: Seq<char>) -> Seq<char> {
    replace_from(s, pat, with, 0)
}

/// An occurrence at `i` is one at `i - k` once the first `k` characters are dropped.
proof fn lemma_matches_skip(s: Seq<char>, pat: Seq<char>, k: int, i: int)
    requires
        0 <= k <= i,
        k <= s.len(),
    ensures
        matches_at(s, pat, i) == matches_at(s.skip(k), pat, i - k),
{
    if i + pat.len() <= s.len() {
        assert(s.subrange(i, i + pat.len()) =~= s.skip(k).subrange(i - k, i - k + pat.len()));
    }
}

/// Replacing from position `i` is replacing in what is left once the first `k` characters are
/// dropped.
proof fn lemma_replace_skip(s: Seq<char>, pat: Seq<char>, with: Seq<char>, k: int, i: int)
    requires
        0 <= k <= i,
        k <= s.len(),
    ensures
        replace_from(s, pat, with, i) == replace_from(s.skip(k), pat, with, i - k),
    decreases s.len() - i,
{
    if i < s.len() && pat.len() > 0 {
        lemma_matches_skip(s, pat, k, i);
        if matches_at(s, pat, i) {
            lemma_replace_skip(s, pat, with, k, i + pat.len());
        } else {
            lemma_replace_skip(s, pat, with, k, i + 1);
        }
    }
}

/// An occurrence of `pat` at the start is replaced by `with`, and the rest is replaced on its own.
pub proof fn lemma_replace_at_start(pat: Seq<char>, b: Seq<char>, with: Seq<char>)
    requires
        pat.len() > 0,
    ensures
        replace_all(pat + b, pat, with) == with + replace_all(b, pat, with),
{
    let s = pat + b;
    assert(s.subrange(0, pat.len() as int) =~= pat);
    lemma_replace_skip(s, pat, with, pat.len() as int, pat.len() as int);
    assert(s.skip(pat.len() as int) =~= b);
}

/// A first character that does not start an occurrence of `pat` is kept as it is, and the rest is
/// replaced on its own.
pub proof fn lemma_replace_keeps_first(s: Seq<char>, pat: Seq<char>, with: Seq<char>)
    requires
        pat.len() > 0,
        s.len() > 0,
        !matches_at(s, pat, 0),
    ensures
        replace_all(s, pat, with) == seq![s[0]] + replace_all(s.drop_first(), pat, with),
{
    lemma_replace_skip(s, pat, with, 1, 1);
    assert(s.skip(1) =~= s.drop_first());
}

/// Text in which `pat` does not occur is left as it is.
pub proof fn lemma_replace_absent(s: Seq<char>, pat: Seq<char>, with: Seq<char>)
    requires
        pat.len() > 0,
        forall|i: int| !matches_at(s, pat, i),
    ensures
        replace_all(s, pat, with) == s,
    decreases s.len(),
{
    if s.len() > 0 {
        lemma_replace_keeps_first(s, pat, with);
        assert forall|i: int| !matches_at(s.drop_first(), pat, i) by {
            if 0 <= i {
                lemma_matches_skip(s, pat, 1, i + 1);
                assert(s.skip(1) =~= s.drop_first());
            }
        }
        lemma_replace_absent(s.drop_first(), pat, with);
        assert(seq![s[0]] + s.drop_first() =~= s);
    }
}

/// Text around an occurrence of `pat` is replaced on each side on its own: `a`, then `with`, then
/// `b`, when no occurrence starts in `a` and runs into the `pat` that follows it.
pub proof fn lemma_replace_around(a: Seq<char>, pat: Seq<char>, b: Seq<char>, with: Seq<char>)
    requires
        pat.len() > 0,
        forall|i: int|
            0 <= i < a.len() && i + pat.len() > a.len() ==> !matches_at(a + pat + b, pat, i),
    ensures
        replace_all(a + pat + b, pat, with) == replace_all(a, pat, with) + with + replace_all(
            b,
            pat,
            with,
        ),
    decreases a.len(),
{
    let s = a + pat + b;
    let p = pat.len() as int;
    if a.len() == 0 {
        assert(s =~= pat + b);
        lemma_replace_at_start(pat, b, with);
        assert(replace_all(a, pat, with) =~= Seq::<char>::empty());
    } else if matches_at(s, pat, 0) {
        // The occurrence lies inside `a`, which is at least as long as `pat`.
        assert(a.len() >= p);
        let rest = a.skip(p);
        assert(a.subrange(0, p) =~= s.subrange(0, p));
        assert(a =~= pat + rest);
        assert(s =~= pat + (rest + pat + b));
        lemma_replace_at_start(pat, rest + pat + b, with);
        lemma_replace_at_start(pat, rest, with);
        assert forall|i: int|
            0 <= i < rest.len() && i + p > rest.len() implies !matches_at(rest + pat + b, pat, i) by {
            lemma_matches_skip(s, pat, p, i + p);
            assert(s.skip(p) =~= rest + pat + b);
        }
        lemma_replace_around(rest, pat, b, with);
    } else {
        let rest = a.drop_first();
        lemma_replace_keeps_first(s, pat, with);
        assert(s.drop_first() =~= rest + pat + b);
        if a.len() >= p {
            assert(a.subrange(0, p) =~= s.subrange(0, p));
        }
        lemma_replace_keeps_first(a, pat, with);
        assert forall|i: int|
            0 <= i < rest.len() && i + p > rest.len() implies !matches_at(rest + pat + b, pat, i) by {
            lemma_matches_skip(s, pat, 1, i + 1);
            assert(s.skip(1) =~= rest + pat + b);
        }
        lemma_replace_around(rest, pat, b, with);
        assert(s[0] == a[0]);
    }
}

/// Whether `pat` occurs in `s` at position `i` (exec).
fn matches_here(s: &[char], pat: &[char], i: usize) -> (r: bool)
    requires
        i <= s@.len(),
    ensures
        r == matches_at(s@, pat@, i as int),
{
    if pat.len() > s.len() - i {
        return false;
    }
    let mut k: usize = 0;
    while k < pat.len()
        invariant
            i <= s@.len(),
            s@.len() == s.len(),
            i + pat@.len() <= s@.len(),
            k <= pat@.len(),
            forall|m: int| 0 <= m < k ==> s@[i + m] == pat@[m],
        decreases pat@.len() - k,
    {
        assert(i + k < s@.len());
        let at = i + k;
        if s[at] != pat[k] {
            assert(s@.subrange(i as int, i + pat@.len())[k as int] != pat@[k as int]);
            return false;
        }
        k = k + 1;
    }
    assert(s@.subrange(i as int, i + pat@.len()) =~= pat@);
    true
}

/// `s` with every occurrence of the non-empty `pat` replaced by `with`.
pub fn replace(s: &[char], pat: &[char], with: &[char]) -> (r: Vec<char>)
    requires
        pat@.len() > 0,
    ensures
        r@ == replace_all(s@, pat@, with@),
{
    let mut out: Vec<char> = Vec::new();
    let mut i: usize = 0;
    let n = s.len();
    while i < n
        invariant
            n == s@.len(),
            i <= n,
            pat@.len() > 0,
            out@ + replace_from(s@, pat@, with@, i as int) == replace_all(s@, pat@, with@),
        decreases n - i,
    {
        if matches_here(s, pat, i) {
            let ghost before = out@;
            let mut k: usize = 0;
            while k < with.len()
                invariant
                    k <= with@.len(),
                    out@ == before + with@.take(k as int),
                decreases with@.len() - k,
            {
                out.push(with[k]);
                assert(with@.take(k + 1) == with@.take(k as int).push(with@[k as int]));
                k = k + 1;
            }
            assert(with@.take(with@.len() as int) == with@);
            let ghost from = i;
            i = i + pat.len();
            assert(out@ + replace_from(s@, pat@, with@, i as int) =~= before + replace_from(
                s@,
                pat@,
                with@,
                from as int,
            ));
        } else {
            let ghost before = out@;
            out.push(s[i]);
            assert(out@ + replace_from(s@, pat@, with@, i + 1) =~= before + replace_from(
                s@,
                pat@,
                with@,
                i as int,
            ));
            i = i + 1;
        }
    }
    assert(out@ + replace_from(s@, pat@, with@, n as int) =~= out@);
    out
}

/// One token of an argument template with the values of a client filled in.
pub open spec fn fill_in(token: Seq<char>, pid: u32, mumble: Seq<char>, account: Seq<char>) -> Seq<
    char,
> {
    replace_all(
        replace_all(replace_all(token, "{pid}"@, decimal(pid as nat)), "{mumble}"@, mumble),
        "{account}"@,
        account,
    )
}

/// The argument template `template` expanded for a client: split into tokens first, then the
/// placeholders of every token filled in.
pub open spec fn expanded(template: Seq<char>, pid: u32, mumble: Seq<char>, account: Seq<char>) -> Seq<
    Seq<char>,
> {
    split_spec(template).map_values(|t: Seq<char>| fill_in(t, pid, mumble, account))
}

impl CompanionApp {
    /// Preset for Blish HUD: one instance per client, attached via PID and `MumbleLink` name.
    ///
    /// Blish HUD's single-instance mutex includes the `MumbleLink` name, so one instance per
    /// client works as long as every client has its own name (see
    /// [`crate::account::Account::mumble_link_name`]). It waits for the game window itself, but
    /// starting it only once that window is shown keeps it from starting for a client that
    /// never gets past the launcher.
    pub fn blish_hud(id: CompanionId, exe: &str) -> (r: Self)
        ensures
            r.id == id,
            r.name@ == BLISH_HUD@,
            r.exe@ == exe@,
            r.args@ == "--pid {pid} --mumble {mumble}"@,
            r.scope == Scope::PerClient,
            r.start_when == Trigger::WindowShown,
            r.close_with_game,
    {
        Self {
            id,
            name: owned(BLISH_HUD),
            exe: owned(exe),
            args: owned("--pid {pid} --mumble {mumble}"),
            scope: Scope::PerClient,
            start_when: Trigger::WindowShown,
            close_with_game: true,
        }
    }

    /// Expands the argument template for a concrete client into individual argv entries.
    ///
    /// The template is split first, so a substituted value containing spaces (such as an
    /// account name) stays a single argument.
    pub fn expand_args(&self, ctx: &ArgContext<'_>) -> (r: Vec<String>)
        ensures
            views(r@) == expanded(self.args@, ctx.pid, ctx.mumble@, ctx.account@),
            r@.len() == split_spec(self.args@).len(),
    {
        let pid = decimal_string(ctx.pid as u64);
        let pid_chars = chars_of(pid.as_str());
        let mumble = chars_of(ctx.mumble);
        let account = chars_of(ctx.account);
        let pid_pat = chars_of("{pid}");
        let mumble_pat = chars_of("{mumble}");
        let account_pat = chars_of("{account}");
        proof {
            reveal_strlit("{pid}");
            reveal_strlit("{mumble}");
            reveal_strlit("{account}");
        }
        let tokens = split_args(self.args.as_str());
        let ghost spec_tokens = split_spec(self.args@);
        let mut out: Vec<String> = Vec::new();
        for i in 0..tokens.len()
            invariant
                views(tokens@) == spec_tokens,
                spec_tokens == split_spec(self.args@),
                pid_chars@ == decimal(ctx.pid as nat),
                mumble@ == ctx.mumble@,
                account@ == ctx.account@,
                pid_pat@ == "{pid}"@,
                mumble_pat@ == "{mumble}"@,
                account_pat@ == "{account}"@,
                pid_pat@.len() > 0,
                mumble_pat@.len() > 0,
                account_pat@.len() > 0,
                views(out@) == spec_tokens.take(i as int).map_values(
                    |t: Seq<char>| fill_in(t, ctx.pid, ctx.mumble@, ctx.account@),
                ),
        {
            let token = chars_of(tokens[i].as_str());
            assert(token@ == spec_tokens[i as int]);
            let a = replace(token.as_slice(), pid_pat.as_slice(), pid_chars.as_slice());
            let b = replace(a.as_slice(), mumble_pat.as_slice(), mumble.as_slice());
            let c = replace(b.as_slice(), account_pat.as_slice(), account.as_slice());
            assert(c@ == fill_in(spec_tokens[i as int], ctx.pid, ctx.mumble@, ctx.account@));
            let ghost before = out@;
            let filled = string_of(c.as_slice());
            out.push(filled);
            assert(views(out@) =~= views(before).push(filled@));
            assert(views(out@) =~= spec_tokens.take(i + 1).map_values(
                |t: Seq<char>| fill_in(t, ctx.pid, ctx.mumble@, ctx.account@),
            ));
        }
        assert(spec_tokens.take(tokens@.len() as int) =~= spec_tokens);
        out
    }
}

} // verus!
