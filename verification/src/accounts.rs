//! Adding, editing, moving and deleting accounts: new ids, list positions, the companion apps an
//! account starts, and the file name of its desktop shortcut.

use vstd::prelude::*;

use crate::account::{Account, AccountId, Provider};
use crate::companion::{BLISH_HUD, CompanionApp, CompanionId, Scope, Trigger};
use crate::text::{chars_of, owned, str_eq, string_of};

verus! {

/// Whether Windows forbids `c` in file names.
pub open spec fn forbidden(c: char) -> bool {
    c == '<' || c == '>' || c == ':' || c == '"' || c == '/' || c == '\\' || c == '|' || c == '?'
        || c == '*'
}

/// Whether `c` is a control character (general category `Cc`), as `char::is_control` decides.
pub open spec fn control(c: char) -> bool {
    (c as u32) <= 0x1f || (0x7f <= (c as u32) && (c as u32) <= 0x9f)
}

/// `c`, or `_` in its place where it can't stand in a file name.
pub open spec fn safe_char(c: char) -> char {
    if forbidden(c) || control(c) {
        '_'
    } else {
        c
    }
}

/// `s` without the dots and spaces at its end.
pub open spec fn drop_trailing_dots(s: Seq<char>) -> Seq<char>
    decreases s.len(),
{
    if s.len() > 0 && (s.last() == '.' || s.last() == ' ') {
        drop_trailing_dots(s.drop_last())
    } else {
        s
    }
}

/// What `file_name_safe` makes of `name`.
pub open spec fn file_name_safe_spec(name: Seq<char>) -> Seq<char> {
    drop_trailing_dots(name.map_values(|c: char| safe_char(c)))
}

/// Replaces characters Windows doesn't allow in file names, and drops the dots and spaces at the
/// end, which Windows drops from file names.
pub fn file_name_safe(name: &str) -> (r: String)
    ensures
        r@ == file_name_safe_spec(name@),
{
    let chars = chars_of(name);
    let mut mapped: Vec<char> = Vec::new();
    for i in 0..chars.len()
        invariant
            chars@ == name@,
            mapped@ == chars@.take(i as int).map_values(|c: char| safe_char(c)),
    {
        let c = chars[i];
        let code = c as u32;
        let bad = c == '<' || c == '>' || c == ':' || c == '"' || c == '/' || c == '\\' || c == '|'
            || c == '?' || c == '*' || code <= 0x1f || (0x7f <= code && code <= 0x9f);
        mapped.push(
            if bad {
                '_'
            } else {
                c
            },
        );
        assert(chars@.take(i + 1).map_values(|c: char| safe_char(c)) =~= chars@.take(
            i as int,
        ).map_values(|c: char| safe_char(c)).push(safe_char(c)));
    }
    assert(chars@.take(chars@.len() as int) =~= chars@);
    let mut end = mapped.len();
    assert(mapped@.subrange(0, end as int) =~= mapped@);
    while end > 0 && (mapped[end - 1] == '.' || mapped[end - 1] == ' ')
        invariant
            end <= mapped@.len(),
            drop_trailing_dots(mapped@.subrange(0, end as int)) == drop_trailing_dots(mapped@),
        decreases end,
    {
        assert(mapped@.subrange(0, end as int).drop_last() =~= mapped@.subrange(0, end - 1));
        end = end - 1;
    }
    let kept = crate::text::slice_chars(mapped.as_slice(), 0, end);
    string_of(kept.as_slice())
}

proof fn lemma_drop_trailing_dots(s: Seq<char>)
    ensures
        drop_trailing_dots(s).len() <= s.len(),
        drop_trailing_dots(s) == s.subrange(0, drop_trailing_dots(s).len() as int),
        drop_trailing_dots(s).len() > 0 ==> drop_trailing_dots(s).last() != '.'
            && drop_trailing_dots(s).last() != ' ',
    decreases s.len(),
{
    if s.len() > 0 && (s.last() == '.' || s.last() == ' ') {
        lemma_drop_trailing_dots(s.drop_last());
        let d = drop_trailing_dots(s.drop_last());
        assert(s.drop_last().subrange(0, d.len() as int) =~= s.subrange(0, d.len() as int));
    } else {
        assert(s.subrange(0, s.len() as int) =~= s);
    }
}

/// A shortcut's file name never holds a character Windows forbids in file names, nor a control
/// character, and never ends in a dot or a space.
pub proof fn lemma_file_name_safe(name: Seq<char>)
    ensures
        forall|i: int|
            0 <= i < file_name_safe_spec(name).len() ==> !forbidden(
                #[trigger] file_name_safe_spec(name)[i],
            ) && !control(file_name_safe_spec(name)[i]),
        file_name_safe_spec(name).len() > 0 ==> file_name_safe_spec(name).last() != '.'
            && file_name_safe_spec(name).last() != ' ',
{
    let mapped = name.map_values(|c: char| safe_char(c));
    lemma_drop_trailing_dots(mapped);
    let r = file_name_safe_spec(name);
    assert forall|i: int| 0 <= i < r.len() implies !forbidden(#[trigger] r[i]) && !control(r[i]) by {
        assert(r[i] == mapped[i]);
        assert(mapped[i] == safe_char(name[i]));
    }
}

/// The highest id among `accounts`, 0 if there are none.
pub open spec fn max_id(accounts: Seq<Account>) -> nat
    decreases accounts.len(),
{
    if accounts.len() == 0 {
        0
    } else {
        let rest = max_id(accounts.drop_last());
        let id = accounts.last().id.0 as nat;
        if id > rest {
            id
        } else {
            rest
        }
    }
}

proof fn lemma_max_id(accounts: Seq<Account>)
    ensures
        forall|i: int| 0 <= i < accounts.len() ==> #[trigger] accounts[i].id.0 <= max_id(accounts),
        accounts.len() > 0 ==> exists|i: int|
            0 <= i < accounts.len() && #[trigger] accounts[i].id.0 == max_id(accounts),
        max_id(accounts) <= u32::MAX,
    decreases accounts.len(),
{
    if accounts.len() > 0 {
        lemma_max_id(accounts.drop_last());
        let rest = accounts.drop_last();
        assert forall|i: int| 0 <= i < accounts.len() implies #[trigger] accounts[i].id.0 <= max_id(
            accounts,
        ) by {
            if i < rest.len() {
                assert(accounts[i] == rest[i]);
            }
        }
        if accounts.last().id.0 as nat > max_id(rest) {
            assert(accounts[accounts.len() - 1].id.0 == max_id(accounts));
        } else if rest.len() > 0 {
            let i = choose|i: int| 0 <= i < rest.len() && #[trigger] rest[i].id.0 == max_id(rest);
            assert(accounts[i] == rest[i]);
        } else {
            assert(accounts[0].id.0 == 0);
        }
    }
}

/// The id for a new account: one more than the highest id so far, so ids are never reused while
/// the account that had one is still there.
pub fn next_account_id(accounts: &[Account]) -> (r: AccountId)
    requires
        max_id(accounts@) < u32::MAX,
    ensures
        r.0 == max_id(accounts@) + 1,
{
    let mut max: u32 = 0;
    for i in 0..accounts.len()
        invariant
            max == max_id(accounts@.take(i as int)),
            max_id(accounts@) < u32::MAX,
    {
        assert(accounts@.take(i + 1).drop_last() =~= accounts@.take(i as int));
        assert(accounts@.take(i + 1).last() == accounts@[i as int]);
        if accounts[i].id.0 > max {
            max = accounts[i].id.0;
        }
    }
    assert(accounts@.take(accounts@.len() as int) =~= accounts@);
    AccountId(max + 1)
}

/// A new account's id differs from every id in use.
pub proof fn lemma_next_id_is_new(accounts: Seq<Account>)
    requires
        max_id(accounts) < u32::MAX,
    ensures
        forall|i: int| 0 <= i < accounts.len() ==> #[trigger] accounts[i].id.0 != max_id(accounts) + 1,
{
    lemma_max_id(accounts);
}

/// The position of account `id` in `accounts`, the first if there are several.
pub fn account_index(accounts: &[Account], id: AccountId) -> (r: Option<usize>)
    ensures
        match r {
            Some(p) => p < accounts@.len() && accounts@[p as int].id == id && forall|j: int|
                0 <= j < p ==> #[trigger] accounts@[j].id != id,
            None => forall|j: int| 0 <= j < accounts@.len() ==> #[trigger] accounts@[j].id != id,
        },
{
    for i in 0..accounts.len()
        invariant
            forall|j: int| 0 <= j < i ==> #[trigger] accounts@[j].id != id,
    {
        if accounts[i].id == id {
            return Some(i);
        }
    }
    None
}

/// The position of the Blish HUD preset among the companion apps, if its path has been set.
pub fn blish_hud_index(companions: &[CompanionApp]) -> (r: Option<usize>)
    ensures
        match r {
            Some(p) => p < companions@.len() && companions@[p as int].name@ == BLISH_HUD@
                && forall|j: int| 0 <= j < p ==> #[trigger] companions@[j].name@ != BLISH_HUD@,
            None => forall|j: int|
                0 <= j < companions@.len() ==> #[trigger] companions@[j].name@ != BLISH_HUD@,
        },
{
    for i in 0..companions.len()
        invariant
            forall|j: int| 0 <= j < i ==> #[trigger] companions@[j].name@ != BLISH_HUD@,
    {
        if str_eq(companions[i].name.as_str(), BLISH_HUD) {
            return Some(i);
        }
    }
    None
}

/// The position where a new account goes: `index` (the end if `None`), at most the end.
pub fn insert_position(index: Option<usize>, len: usize) -> (r: usize)
    ensures
        r == match index {
            Some(i) => if i < len {
                i
            } else {
                len
            },
            None => len,
        },
{
    match index {
        Some(i) => if i < len {
            i
        } else {
            len
        },
        None => len,
    }
}

/// `s` without the first occurrence of `x`.
pub open spec fn remove_first(s: Seq<CompanionId>, x: CompanionId) -> Seq<CompanionId>
    decreases s.len(),
{
    if s.len() == 0 {
        s
    } else if s[0] == x {
        s.drop_first()
    } else {
        seq![s[0]] + remove_first(s.drop_first(), x)
    }
}

/// The companion list after `id` was switched: removed (its first occurrence) if it was there,
/// added at the end otherwise.
pub open spec fn toggled(ids: Seq<CompanionId>, id: CompanionId) -> Seq<CompanionId> {
    if ids.contains(id) {
        remove_first(ids, id)
    } else {
        ids.push(id)
    }
}

/// Taking out the first occurrence of `x`, found at `i`, is taking out position `i`.
proof fn lemma_remove_first_at(s: Seq<CompanionId>, x: CompanionId, i: int)
    requires
        0 <= i < s.len(),
        s[i] == x,
        forall|j: int| 0 <= j < i ==> #[trigger] s[j] != x,
    ensures
        remove_first(s, x) == s.remove(i),
    decreases i,
{
    if i == 0 {
        assert(s.drop_first() =~= s.remove(0));
    } else {
        let t = s.drop_first();
        assert forall|j: int| 0 <= j < i - 1 implies #[trigger] t[j] != x by {
            assert(t[j] == s[j + 1]);
        }
        lemma_remove_first_at(t, x, i - 1);
        assert(seq![s[0]] + t.remove(i - 1) =~= s.remove(i));
    }
}

/// A sequence that holds `x` has a first occurrence of it.
proof fn lemma_first_occurrence(s: Seq<CompanionId>, x: CompanionId)
    requires
        s.contains(x),
    ensures
        exists|i: int|
            0 <= i < s.len() && s[i] == x && forall|j: int| 0 <= j < i ==> #[trigger] s[j] != x,
    decreases s.len(),
{
    if s[0] == x {
        assert(0 <= 0 < s.len() && s[0] == x && forall|j: int| 0 <= j < 0 ==> #[trigger] s[j] != x);
    } else {
        let t = s.drop_first();
        let k = choose|k: int| 0 <= k < s.len() && s[k] == x;
        assert(t[k - 1] == x);
        lemma_first_occurrence(t, x);
        let i = choose|i: int|
            0 <= i < t.len() && t[i] == x && forall|j: int| 0 <= j < i ==> #[trigger] t[j] != x;
        assert forall|j: int| 0 <= j < i + 1 implies #[trigger] s[j] != x by {
            if j > 0 {
                assert(s[j] == t[j - 1]);
            }
        }
        assert(s[i + 1] == x);
    }
}

/// Switches companion `id` on or off in an account's companion list; returns whether it is on
/// now.
pub fn toggle_companion(ids: &mut Vec<CompanionId>, id: CompanionId) -> (r: bool)
    ensures
        final(ids)@ == toggled(old(ids)@, id),
        r == !old(ids)@.contains(id),
{
    let n = ids.len();
    let mut i: usize = 0;
    while i < n
        invariant
            n == ids@.len(),
            ids@ == old(ids)@,
            i <= n,
            forall|j: int| 0 <= j < i ==> #[trigger] ids@[j] != id,
        decreases n - i,
    {
        if ids[i] == id {
            proof {
                lemma_remove_first_at(ids@, id, i as int);
                assert(ids@.contains(id));
            }
            ids.remove(i);
            return false;
        }
        i = i + 1;
    }
    proof {
        if ids@.contains(id) {
            let k = choose|k: int| 0 <= k < ids@.len() && ids@[k] == id;
            assert(ids@[k] != id);
        }
    }
    ids.push(id);
    true
}

/// Switching a companion app on and off again (or off and on again) leaves the same apps
/// switched on, as long as it was not listed twice.
pub proof fn lemma_toggle_twice(ids: Seq<CompanionId>, id: CompanionId)
    requires
        ids.to_multiset().count(id) <= 1,
    ensures
        toggled(toggled(ids, id), id).to_multiset() == ids.to_multiset(),
{
    broadcast use vstd::seq_lib::group_to_multiset_ensures;
    broadcast use vstd::multiset::group_multiset_axioms;

    if ids.contains(id) {
        lemma_first_occurrence(ids, id);
        let k = choose|i: int|
            0 <= i < ids.len() && ids[i] == id && forall|j: int| 0 <= j < i ==> #[trigger] ids[j] != id;
        lemma_remove_first_at(ids, id, k);
        let once = ids.remove(k);
        assert(once.to_multiset() == ids.to_multiset().remove(id));
        assert(once.to_multiset().count(id) == 0);
        assert(!once.contains(id));
        assert(toggled(once, id) == once.push(id));
        assert(once.push(id) =~= once.insert(once.len() as int, id));
        assert(ids.to_multiset().remove(id).insert(id) =~= ids.to_multiset());
    } else {
        let once = ids.push(id);
        assert(once =~= ids.insert(ids.len() as int, id));
        assert(once[ids.len() as int] == id);
        assert(once.contains(id));
        assert forall|j: int| 0 <= j < ids.len() as int implies #[trigger] once[j] != id by {
            assert(once[j] == ids[j]);
        }
        lemma_remove_first_at(once, id, ids.len() as int);
        assert(once.remove(ids.len() as int) =~= ids);
    }
}

/// Whether `p` is the first position of account `id` in `accounts`.
pub open spec fn first_account(accounts: Seq<Account>, id: AccountId, p: int) -> bool {
    &&& 0 <= p < accounts.len()
    &&& accounts[p].id == id
    &&& forall|j: int| 0 <= j < p ==> #[trigger] accounts[j].id != id
}

/// The list position `index` asks for, clamped to a list of `len` entries.
pub open spec fn clamp_index(index: i32, len: int) -> int {
    if index <= 0 {
        0
    } else if index as int >= len - 1 {
        len - 1
    } else {
        index as int
    }
}

/// Moves account `id` to list position `index` (clamped to the list), shifting the accounts in
/// between. Returns the position it was moved to, or `None` if there is no such account or it is
/// already there.
pub fn move_account(accounts: &mut Vec<Account>, id: AccountId, index: i32) -> (r: Option<usize>)
    ensures
        (forall|j: int| 0 <= j < old(accounts)@.len() ==> #[trigger] old(accounts)@[j].id != id)
            ==> r is None && final(accounts)@ == old(accounts)@,
        forall|p: int|
            #[trigger] first_account(old(accounts)@, id, p) ==> {
                let to = clamp_index(index, old(accounts)@.len() as int);
                if p == to {
                    r is None && final(accounts)@ == old(accounts)@
                } else {
                    r == Some(to as usize) && final(accounts)@ == old(accounts)@.remove(p).insert(
                        to,
                        old(accounts)@[p],
                    )
                }
            },
{
    let from = match account_index(accounts.as_slice(), id) {
        Some(p) => p,
        None => {
            return None;
        },
    };
    let last = accounts.len() - 1;
    let to: usize = if index <= 0 {
        0
    } else if index as usize >= last {
        last
    } else {
        index as usize
    };
    if from == to {
        return None;
    }
    let account = accounts.remove(from);
    accounts.insert(to, account);
    Some(to)
}

/// Whether the editor shows an account's login: Steam accounts need none, an account with its
/// own `Local.dat` has one, and any other (a new account too) has to set it up.
#[derive(Debug, Clone, Copy, PartialEq, Eq, Structural)]
pub enum LoginState {
    Steam,
    SetUp,
    Missing,
}

/// The editor's login line for an account (`exists`: it is being edited rather than added).
pub fn login_state(exists: bool, steam: bool, set_up: bool) -> (r: LoginState)
    ensures
        r == (if exists && steam {
            LoginState::Steam
        } else if exists && set_up {
            LoginState::SetUp
        } else {
            LoginState::Missing
        }),
{
    if exists && steam {
        LoginState::Steam
    } else if exists && set_up {
        LoginState::SetUp
    } else {
        LoginState::Missing
    }
}

/// One companion app's switch in the editor.
#[derive(Debug, Clone, PartialEq, Eq)]
pub struct CompanionToggle {
    pub id: i32,
    pub name: String,
    /// One instance per client.
    pub per_client: bool,
    /// Starts once the game window shows.
    pub after_game_start: bool,
    /// It starts with the account.
    pub enabled: bool,
}

/// The editor's switch for `app` while the account starts `enabled` apps.
pub open spec fn toggle_spec(app: CompanionApp, enabled: Seq<CompanionId>) -> (i32, Seq<char>, bool, bool, bool) {
    (
        app.id.0 as i32,
        app.name@,
        app.scope == Scope::PerClient,
        app.start_when == Trigger::WindowShown,
        enabled.contains(app.id),
    )
}

/// A switch as its values.
pub open spec fn toggle_view(t: CompanionToggle) -> (i32, Seq<char>, bool, bool, bool) {
    (t.id, t.name@, t.per_client, t.after_game_start, t.enabled)
}

fn holds_id(ids: &[CompanionId], id: CompanionId) -> (r: bool)
    ensures
        r == ids@.contains(id),
{
    for i in 0..ids.len()
        invariant
            forall|j: int| 0 <= j < i ==> ids@[j] != id,
    {
        if ids[i] == id {
            return true;
        }
    }
    false
}

/// The editor's switches: one per companion app, on for those among `enabled`.
pub fn companion_toggles(companions: &[CompanionApp], enabled: &[CompanionId]) -> (r: Vec<CompanionToggle>)
    ensures
        r@.len() == companions@.len(),
        forall|i: int|
            0 <= i < r@.len() ==> toggle_view(#[trigger] r@[i]) == toggle_spec(companions@[i], enabled@),
{
    let mut out: Vec<CompanionToggle> = Vec::new();
    for i in 0..companions.len()
        invariant
            out@.len() == i,
            forall|k: int|
                0 <= k < i ==> toggle_view(#[trigger] out@[k]) == toggle_spec(companions@[k], enabled@),
    {
        let app = &companions[i];
        out.push(
            CompanionToggle {
                id: app.id.0 as i32,
                name: owned(app.name.as_str()),
                per_client: app.scope == Scope::PerClient,
                after_game_start: app.start_when == Trigger::WindowShown,
                enabled: holds_id(enabled, app.id),
            },
        );
    }
    out
}


/// The account a shortcut or the command line names: the first whose name equals `name` up to
/// ASCII case.
pub fn resolve(accounts: &[Account], name: &str) -> (r: Option<usize>)
    ensures
        match r {
            Some(p) => p < accounts@.len() && crate::text::eq_ignore_case(accounts@[p as int].name@, name@)
                && forall|j: int|
                0 <= j < p ==> !crate::text::eq_ignore_case(#[trigger] accounts@[j].name@, name@),
            None => forall|j: int|
                0 <= j < accounts@.len() ==> !crate::text::eq_ignore_case(
                    #[trigger] accounts@[j].name@,
                    name@,
                ),
        },
{
    let wanted = chars_of(name);
    for i in 0..accounts.len()
        invariant
            wanted@ == name@,
            forall|j: int|
                0 <= j < i ==> !crate::text::eq_ignore_case(#[trigger] accounts@[j].name@, name@),
    {
        let have = chars_of(accounts[i].name.as_str());
        if crate::text::chars_eq_ignore_case(have.as_slice(), wanted.as_slice()) {
            return Some(i);
        }
    }
    None
}


/// The position of the first app named `name`.
pub open spec fn first_named(apps: Seq<CompanionApp>, name: Seq<char>) -> Option<int> {
    if exists|j: int| 0 <= j < apps.len() && #[trigger] apps[j].name@ == name {
        Some(
            choose|j: int|
                0 <= j < apps.len() && #[trigger] apps[j].name@ == name && forall|k: int|
                    0 <= k < j ==> #[trigger] apps[k].name@ != name,
        )
    } else {
        None
    }
}

/// [`first_named`] is the first position holding the name.
pub proof fn lemma_first_named(apps: Seq<CompanionApp>, name: Seq<char>, p: int)
    requires
        0 <= p < apps.len(),
        apps[p].name@ == name,
        forall|k: int| 0 <= k < p ==> #[trigger] apps[k].name@ != name,
    ensures
        first_named(apps, name) == Some(p),
{
    let q = choose|j: int|
        0 <= j < apps.len() && #[trigger] apps[j].name@ == name && forall|k: int|
            0 <= k < j ==> #[trigger] apps[k].name@ != name;
    assert(0 <= p < apps.len() && apps[p].name@ == name && forall|k: int|
        0 <= k < p ==> #[trigger] apps[k].name@ != name);
    if q < p {
        assert(apps[q].name@ != name);
    } else if q > p {
        assert(apps[p].name@ != name);
    }
}


/// The account the editor saves: the edited one (`editing`) with its name, provider, extra
/// arguments and companions replaced, or a new one with id `new_id` for a new account. Nothing is
/// saved without a name.
pub fn editor_account(
    editing: Option<&Account>,
    new_id: AccountId,
    name: &str,
    steam: bool,
    args: &str,
    companions: &[CompanionId],
) -> (r: Option<Account>)
    ensures
        name@.len() == 0 ==> r is None,
        name@.len() > 0 ==> r is Some && r->0.name@ == name@ && r->0.provider == (if steam {
            Provider::Steam
        } else {
            Provider::ArenaNet
        }) && r->0.extra_args@ == args@ && r->0.companions@ == companions@ && r->0.id == match editing {
            Some(a) => a.id,
            None => new_id,
        },
{
    if chars_of(name).len() == 0 {
        return None;
    }
    let id = match editing {
        Some(a) => a.id,
        None => new_id,
    };
    let mut ids: Vec<CompanionId> = Vec::new();
    for i in 0..companions.len()
        invariant
            ids@ == companions@.take(i as int),
    {
        ids.push(companions[i]);
        assert(companions@.take(i + 1) =~= companions@.take(i as int).push(companions@[i as int]));
    }
    assert(companions@.take(companions@.len() as int) =~= companions@);
    Some(Account {
        id,
        name: owned(name),
        provider: if steam {
            Provider::Steam
        } else {
            Provider::ArenaNet
        },
        extra_args: owned(args),
        companions: ids,
    })
}

/// A copy of `source`'s settings (not its login) as a new account with id `id` and name `name`.
pub fn duplicate_account(source: &Account, id: AccountId, name: &str) -> (r: Account)
    ensures
        r.id == id,
        r.name@ == name@,
        r.provider == source.provider,
        r.extra_args@ == source.extra_args@,
        r.companions@ == source.companions@,
{
    let mut ids: Vec<CompanionId> = Vec::new();
    for i in 0..source.companions.len()
        invariant
            ids@ == source.companions@.take(i as int),
    {
        ids.push(source.companions[i]);
        assert(source.companions@.take(i + 1) =~= source.companions@.take(i as int).push(
            source.companions@[i as int],
        ));
    }
    assert(source.companions@.take(source.companions@.len() as int) =~= source.companions@);
    Account {
        id,
        name: owned(name),
        provider: source.provider,
        extra_args: owned(source.extra_args.as_str()),
        companions: ids,
    }
}

} // verus!
