//! The account list as the window shows it: one row per account with its state, the Steam lock,
//! the header counters, the selection, and the toasts at the bottom of the window.
//!
//! The rows live in the window; the application hands them to these functions and shows what
//! they leave behind.

use vstd::prelude::*;

use crate::account::{Account, AccountId, Provider};
use crate::companion::CompanionApp;
use crate::text::{owned, str_eq};

verus! {

/// State of an account's row.
#[derive(Debug, Clone, Copy, PartialEq, Eq, Structural)]
pub enum AccountState {
    /// Ready to start.
    Idle,
    /// Has to set up its login (or refresh it after a game update) first.
    NeedsLogin,
    /// Its client is being started.
    Starting,
    /// Its client runs.
    Running,
    /// Its client is being stopped.
    Stopping,
    /// The last start failed, or the client crashed.
    Error,
    /// Another Steam account runs, so this Steam account can't start.
    Locked,
}

impl Default for AccountState {
    fn default() -> (r: Self)
        ensures
            r == AccountState::Idle,
    {
        AccountState::Idle
    }
}

/// Whether an account in `state` can be started.
pub open spec fn startable(state: AccountState) -> bool {
    state == AccountState::Idle || state == AccountState::NeedsLogin || state == AccountState::Error
}

/// Whether the account's client is starting, running or being stopped.
pub open spec fn active(state: AccountState) -> bool {
    state == AccountState::Starting || state == AccountState::Running || state
        == AccountState::Stopping
}

/// Whether an account in `state` can be started.
pub fn is_startable(state: AccountState) -> (r: bool)
    ensures
        r == startable(state),
{
    match state {
        AccountState::Idle | AccountState::NeedsLogin | AccountState::Error => true,
        _ => false,
    }
}

/// Whether the account's client is starting, running or being stopped.
pub fn is_active(state: AccountState) -> (r: bool)
    ensures
        r == active(state),
{
    match state {
        AccountState::Starting | AccountState::Running | AccountState::Stopping => true,
        _ => false,
    }
}

/// An account that can be started has no client on the way, and one with a client on the way
/// cannot be started again.
pub proof fn lemma_startable_never_active(state: AccountState)
    ensures
        !(startable(state) && active(state)),
{
}

/// State of an account that isn't running: ArenaNet accounts without their own `Local.dat`
/// (`set_up` false) have to set up their login first. Steam accounts need no login; their first
/// start just creates it.
pub fn idle_state(steam: bool, set_up: bool) -> (r: AccountState)
    ensures
        r == (if steam || set_up {
            AccountState::Idle
        } else {
            AccountState::NeedsLogin
        }),
{
    if steam || set_up {
        AccountState::Idle
    } else {
        AccountState::NeedsLogin
    }
}

/// One row of the account list.
#[derive(Debug, Clone, PartialEq, Eq)]
pub struct AccountRow {
    /// The account's id.
    pub id: i32,
    pub name: String,
    /// The provider's display name.
    pub provider: String,
    /// It is a Steam account.
    pub steam: bool,
    pub state: AccountState,
    /// Selected for "Launch all".
    pub selected: bool,
    /// Companion apps start with it.
    pub has_companions: bool,
    /// Its companion apps run.
    pub addon_active: bool,
    /// When its client started, `HH:MM`.
    pub since: String,
    /// Handle of its running client, 0 if none.
    pub handle: i32,
    /// What went wrong, shown under the name.
    pub detail: String,
}

/// Whether two rows hold the same values.
pub open spec fn same_row(a: AccountRow, b: AccountRow) -> bool {
    &&& a.id == b.id
    &&& a.name@ == b.name@
    &&& a.provider@ == b.provider@
    &&& a.steam == b.steam
    &&& a.state == b.state
    &&& a.selected == b.selected
    &&& a.has_companions == b.has_companions
    &&& a.addon_active == b.addon_active
    &&& a.since@ == b.since@
    &&& a.handle == b.handle
    &&& a.detail@ == b.detail@
}

/// Whether `b` is `a` with only its state (possibly) changed, to `s`.
pub open spec fn with_state(a: AccountRow, b: AccountRow, s: AccountState) -> bool {
    &&& b.state == s
    &&& a.id == b.id
    &&& a.name@ == b.name@
    &&& a.provider@ == b.provider@
    &&& a.steam == b.steam
    &&& a.selected == b.selected
    &&& a.has_companions == b.has_companions
    &&& a.addon_active == b.addon_active
    &&& a.since@ == b.since@
    &&& a.handle == b.handle
    &&& a.detail@ == b.detail@
}

/// Whether `b` is `a` with only its selection (possibly) changed, to `selected`.
pub open spec fn with_selected(a: AccountRow, b: AccountRow, selected: bool) -> bool {
    &&& b.selected == selected
    &&& a.id == b.id
    &&& a.name@ == b.name@
    &&& a.provider@ == b.provider@
    &&& a.steam == b.steam
    &&& a.state == b.state
    &&& a.has_companions == b.has_companions
    &&& a.addon_active == b.addon_active
    &&& a.since@ == b.since@
    &&& a.handle == b.handle
    &&& a.detail@ == b.detail@
}

impl Default for AccountRow {
    fn default() -> (r: Self)
        ensures
            r.id == 0,
            r.name@ == Seq::<char>::empty(),
            r.provider@ == Seq::<char>::empty(),
            !r.steam,
            r.state == AccountState::Idle,
            !r.selected,
            !r.has_companions,
            !r.addon_active,
            r.since@ == Seq::<char>::empty(),
            r.handle == 0,
            r.detail@ == Seq::<char>::empty(),
    {
        AccountRow {
            id: 0,
            name: String::new(),
            provider: String::new(),
            steam: false,
            state: AccountState::Idle,
            selected: false,
            has_companions: false,
            addon_active: false,
            since: String::new(),
            handle: 0,
            detail: String::new(),
        }
    }
}

/// A copy of `row`.
pub fn copy_row(row: &AccountRow) -> (r: AccountRow)
    ensures
        same_row(r, *row),
{
    AccountRow {
        id: row.id,
        name: owned(row.name.as_str()),
        provider: owned(row.provider.as_str()),
        steam: row.steam,
        state: row.state,
        selected: row.selected,
        has_companions: row.has_companions,
        addon_active: row.addon_active,
        since: owned(row.since.as_str()),
        handle: row.handle,
        detail: owned(row.detail.as_str()),
    }
}

/// Whether two rows hold the same values.
pub fn rows_equal(a: &AccountRow, b: &AccountRow) -> (r: bool)
    ensures
        r == same_row(*a, *b),
{
    a.id == b.id && str_eq(a.name.as_str(), b.name.as_str()) && str_eq(
        a.provider.as_str(),
        b.provider.as_str(),
    ) && a.steam == b.steam && a.state == b.state && a.selected == b.selected && a.has_companions
        == b.has_companions && a.addon_active == b.addon_active && str_eq(
        a.since.as_str(),
        b.since.as_str(),
    ) && a.handle == b.handle && str_eq(a.detail.as_str(), b.detail.as_str())
}

/// Whether one of `companions` is among the account's companion apps.
pub open spec fn has_companions_spec(account: Account, companions: Seq<CompanionApp>) -> bool {
    exists|i: int| 0 <= i < companions.len() && account.companions@.contains(#[trigger] companions[i].id)
}

fn lists_companion(account: &Account, id: crate::companion::CompanionId) -> (r: bool)
    ensures
        r == account.companions@.contains(id),
{
    for i in 0..account.companions.len()
        invariant
            forall|j: int| 0 <= j < i ==> account.companions@[j] != id,
    {
        if account.companions[i] == id {
            return true;
        }
    }
    false
}

/// Copies what the row shows of the account's settings into `row`: its name, its provider,
/// whether it is a Steam account and whether any of `companions` starts with it.
pub fn apply_account(row: &mut AccountRow, account: &Account, companions: &[CompanionApp])
    ensures
        final(row).name@ == account.name@,
        final(row).provider@ == (match account.provider {
            Provider::ArenaNet => "ArenaNet"@,
            Provider::Steam => "Steam"@,
        }),
        final(row).steam == (account.provider == Provider::Steam),
        final(row).has_companions == has_companions_spec(*account, companions@),
        final(row).id == old(row).id,
        final(row).state == old(row).state,
        final(row).selected == old(row).selected,
        final(row).addon_active == old(row).addon_active,
        final(row).since@ == old(row).since@,
        final(row).handle == old(row).handle,
        final(row).detail@ == old(row).detail@,
{
    row.name = owned(account.name.as_str());
    row.provider = owned(account.provider.display_name());
    row.steam = account.provider == Provider::Steam;
    let mut any = false;
    for i in 0..companions.len()
        invariant
            any == exists|j: int| 0 <= j < i && account.companions@.contains(
                #[trigger] companions@[j].id,
            ),
    {
        if lists_companion(account, companions[i].id) {
            any = true;
        }
    }
    row.has_companions = any;
}

/// The row of an account that isn't running, given whether its profile has a `Local.dat`.
pub fn account_row(account: &Account, companions: &[CompanionApp], set_up: bool) -> (r: AccountRow)
    ensures
        r.id == account.id.0 as i32,
        r.name@ == account.name@,
        r.provider@ == (match account.provider {
            Provider::ArenaNet => "ArenaNet"@,
            Provider::Steam => "Steam"@,
        }),
        r.steam == (account.provider == Provider::Steam),
        r.has_companions == has_companions_spec(*account, companions@),
        r.state == (if account.provider == Provider::Steam || set_up {
            AccountState::Idle
        } else {
            AccountState::NeedsLogin
        }),
        !r.selected,
        !r.addon_active,
        r.since@ == Seq::<char>::empty(),
        r.handle == 0,
        r.detail@ == Seq::<char>::empty(),
{
    let mut row = AccountRow::default();
    row.id = account.id.0 as i32;
    apply_account(&mut row, account, companions);
    row.state = idle_state(row.steam, set_up);
    row
}

/// Whether `p` is the first position in `rows` of the row with id `id`.
pub open spec fn first_index(rows: Seq<AccountRow>, id: i32, p: int) -> bool {
    &&& 0 <= p < rows.len()
    &&& rows[p].id == id
    &&& forall|j: int| 0 <= j < p ==> #[trigger] rows[j].id != id
}

/// Whether `rows` holds a row with id `id`.
pub open spec fn has_row(rows: Seq<AccountRow>, id: i32) -> bool {
    exists|j: int| 0 <= j < rows.len() && #[trigger] rows[j].id == id
}

/// The position of the row of account `id`, the first if there are several.
pub fn position_of(rows: &[AccountRow], id: AccountId) -> (r: Option<usize>)
    ensures
        match r {
            Some(p) => first_index(rows@, id.0 as i32, p as int),
            None => !has_row(rows@, id.0 as i32),
        },
{
    let key = id.0 as i32;
    for i in 0..rows.len()
        invariant
            key == id.0 as i32,
            forall|j: int| 0 <= j < i ==> #[trigger] rows@[j].id != key,
    {
        if rows[i].id == key {
            return Some(i);
        }
    }
    None
}

/// Changes the row of account `id` to what `change` makes of it. Returns whether the row was
/// found and `change` changed it; nothing is touched otherwise.
pub fn update_in<F: FnOnce(&AccountRow) -> AccountRow>(rows: &mut Vec<AccountRow>, id: AccountId, change: F) -> (r:
    bool)
    requires
        forall|row: &AccountRow| #[trigger] change.requires((row,)),
    ensures
        !has_row(old(rows)@, id.0 as i32) ==> !r && final(rows)@ == old(rows)@,
        forall|p: int|
            #[trigger] first_index(old(rows)@, id.0 as i32, p) ==> exists|new: AccountRow|
                #[trigger] change.ensures((&old(rows)@[p],), new) && r == !same_row(
                    new,
                    old(rows)@[p],
                ) && final(rows)@ == (if r {
                    old(rows)@.update(p, new)
                } else {
                    old(rows)@
                }),
{
    let index = match position_of(rows.as_slice(), id) {
        Some(p) => p,
        None => {
            return false;
        },
    };
    let new = change(&rows[index]);
    if rows_equal(&new, &rows[index]) {
        return false;
    }
    rows.set(index, new);
    true
}

/// `rows` with the row at `from` taken out and put in at `to`: the rows in between shift by one.
pub open spec fn moved(rows: Seq<AccountRow>, from: int, to: int) -> Seq<AccountRow> {
    rows.remove(from).insert(to, rows[from])
}

/// Puts the row of account `id` at position `to` (clamped to the list) by shifting the rows in
/// between. Nothing happens if there is no such row.
pub fn move_in(rows: &mut Vec<AccountRow>, id: AccountId, to: usize)
    ensures
        !has_row(old(rows)@, id.0 as i32) ==> final(rows)@ == old(rows)@,
        forall|p: int|
            #[trigger] first_index(old(rows)@, id.0 as i32, p) ==> final(rows)@ == moved(
                old(rows)@,
                p,
                if to < old(rows)@.len() {
                    to as int
                } else {
                    old(rows)@.len() - 1
                },
            ),
{
    let from = match position_of(rows.as_slice(), id) {
        Some(p) => p,
        None => {
            return;
        },
    };
    let last = rows.len() - 1;
    let to = if to < last {
        to
    } else {
        last
    };
    if from == to {
        proof {
            assert(moved(old(rows)@, from as int, to as int) =~= old(rows)@);
        }
        return;
    }
    let row = rows.remove(from);
    rows.insert(to, row);
}

/// Moving a row keeps every row: the list after the move is a permutation of the one before,
/// with the moved row at its new place.
pub proof fn lemma_move_keeps_rows(rows: Seq<AccountRow>, from: int, to: int)
    requires
        0 <= from < rows.len(),
        0 <= to < rows.len(),
    ensures
        moved(rows, from, to).len() == rows.len(),
        moved(rows, from, to)[to] == rows[from],
        moved(rows, from, to).to_multiset() == rows.to_multiset(),
{
    broadcast use vstd::seq_lib::group_to_multiset_ensures;
    broadcast use vstd::multiset::group_multiset_axioms;

    let r = rows.remove(from);
    assert(r.len() == rows.len() - 1);
    assert(r.to_multiset() == rows.to_multiset().remove(rows[from]));
    assert(moved(rows, from, to).to_multiset() == r.to_multiset().insert(rows[from]));
    assert(rows.contains(rows[from]));
    assert(rows.to_multiset().count(rows[from]) > 0);
    assert(rows.to_multiset().remove(rows[from]).insert(rows[from]) =~= rows.to_multiset());
}

/// The numbers the header shows.
#[derive(Debug, Clone, Copy, PartialEq, Eq, Structural)]
pub struct Counts {
    /// Clients running or being stopped.
    pub running: i32,
    /// Clients being started.
    pub starting: i32,
    /// Selected rows.
    pub selected: i32,
}

/// How many of `rows` are in `state`.
pub open spec fn count_state(rows: Seq<AccountRow>, state: AccountState) -> int
    decreases rows.len(),
{
    if rows.len() == 0 {
        0
    } else {
        count_state(rows.drop_last(), state) + if rows.last().state == state {
            1int
        } else {
            0int
        }
    }
}

/// How many of `rows` are selected.
pub open spec fn count_selected(rows: Seq<AccountRow>) -> int
    decreases rows.len(),
{
    if rows.len() == 0 {
        0
    } else {
        count_selected(rows.drop_last()) + if rows.last().selected {
            1int
        } else {
            0int
        }
    }
}

proof fn lemma_counts_bounded(rows: Seq<AccountRow>, state: AccountState)
    ensures
        0 <= count_state(rows, state) <= rows.len(),
        0 <= count_selected(rows) <= rows.len(),
    decreases rows.len(),
{
    if rows.len() > 0 {
        lemma_counts_bounded(rows.drop_last(), state);
    }
}

/// The id of the first Steam row whose client is on the way, if any.
pub open spec fn active_steam(rows: Seq<AccountRow>) -> Option<i32>
    decreases rows.len(),
{
    if rows.len() == 0 {
        None
    } else if rows[0].steam && active(rows[0].state) {
        Some(rows[0].id)
    } else {
        active_steam(rows.drop_first())
    }
}

/// The id of the first Steam row whose client is on the way, if any.
fn find_active_steam(rows: &[AccountRow]) -> (r: Option<i32>)
    ensures
        r == active_steam(rows@),
{
    let n = rows.len();
    let mut k: usize = 0;
    assert(rows@.subrange(0, n as int) =~= rows@);
    while k < n
        invariant
            n == rows@.len(),
            k <= n,
            active_steam(rows@.subrange(k as int, n as int)) == active_steam(rows@),
        decreases n - k,
    {
        let ghost rest = rows@.subrange(k as int, n as int);
        assert(rest[0] == rows@[k as int]);
        if rows[k].steam && is_active(rows[k].state) {
            return Some(rows[k].id);
        }
        assert(rest.drop_first() =~= rows@.subrange(k + 1, n as int));
        k = k + 1;
    }
    None
}

/// The header counters of `rows` (as 32-bit numbers, as the window takes them).
fn counts_of(rows: &[AccountRow]) -> (r: Counts)
    ensures
        r.running == (count_state(rows@, AccountState::Running) + count_state(
            rows@,
            AccountState::Stopping,
        )) as i32,
        r.starting == count_state(rows@, AccountState::Starting) as i32,
        r.selected == count_selected(rows@) as i32,
{
    let mut running: usize = 0;
    let mut starting: usize = 0;
    let mut selected: usize = 0;
    let n = rows.len();
    for i in 0..n
        invariant
            n == rows@.len(),
            running == count_state(rows@.take(i as int), AccountState::Running) + count_state(
                rows@.take(i as int),
                AccountState::Stopping,
            ),
            starting == count_state(rows@.take(i as int), AccountState::Starting),
            selected == count_selected(rows@.take(i as int)),
    {
        proof {
            assert(rows@.take(i + 1).drop_last() =~= rows@.take(i as int));
            assert(rows@.take(i + 1).last() == rows@[i as int]);
            lemma_counts_bounded(rows@.take(i as int), AccountState::Running);
            lemma_counts_bounded(rows@.take(i as int), AccountState::Stopping);
            lemma_counts_bounded(rows@.take(i as int), AccountState::Starting);
            lemma_running_bounded(rows@.take(i as int));
        }
        let state = rows[i].state;
        if state == AccountState::Running || state == AccountState::Stopping {
            running = running + 1;
        }
        if state == AccountState::Starting {
            starting = starting + 1;
        }
        if rows[i].selected {
            selected = selected + 1;
        }
    }
    assert(rows@.take(n as int) =~= rows@);
    Counts { running: running as i32, starting: starting as i32, selected: selected as i32 }
}

proof fn lemma_running_bounded(rows: Seq<AccountRow>)
    ensures
        count_state(rows, AccountState::Running) + count_state(rows, AccountState::Stopping)
            <= rows.len(),
    decreases rows.len(),
{
    if rows.len() > 0 {
        lemma_running_bounded(rows.drop_last());
    }
}

/// The state of a Steam row while the Steam account `lock` says is running elsewhere: a row that
/// could start is locked, and a locked row is released once no other Steam account runs.
pub open spec fn steam_state(state: AccountState, lock: bool) -> AccountState {
    if lock && (state == AccountState::Idle || state == AccountState::NeedsLogin) {
        AccountState::Locked
    } else if !lock && state == AccountState::Locked {
        AccountState::Idle
    } else {
        state
    }
}

/// The state `refresh_in` gives row `row` when `active` is the running Steam account.
pub open spec fn refreshed_state(row: AccountRow, active: Option<i32>) -> AccountState {
    if row.steam {
        steam_state(
            row.state,
            match active {
                Some(a) => a != row.id,
                None => false,
            },
        )
    } else {
        row.state
    }
}

/// Applies the Steam lock (only one Steam account can run, so the others can't start) to the rows
/// that need it and counts the rows by state.
pub fn refresh_in(rows: &mut Vec<AccountRow>) -> (r: Counts)
    ensures
        final(rows)@.len() == old(rows)@.len(),
        forall|i: int|
            0 <= i < old(rows)@.len() ==> with_state(
                #[trigger] old(rows)@[i],
                final(rows)@[i],
                refreshed_state(old(rows)@[i], active_steam(old(rows)@)),
            ),
        r.running == (count_state(old(rows)@, AccountState::Running) + count_state(
            old(rows)@,
            AccountState::Stopping,
        )) as i32,
        r.starting == count_state(old(rows)@, AccountState::Starting) as i32,
        r.selected == count_selected(old(rows)@) as i32,
{
    let counts = counts_of(rows.as_slice());
    let active_id = find_active_steam(rows.as_slice());
    let ghost before = rows@;
    let n = rows.len();
    for i in 0..n
        invariant
            n == before.len() == rows@.len(),
            active_id == active_steam(before),
            forall|j: int|
                0 <= j < i ==> with_state(
                    #[trigger] before[j],
                    rows@[j],
                    refreshed_state(before[j], active_id),
                ),
            forall|j: int| i <= j < n ==> #[trigger] rows@[j] == before[j],
    {
        if rows[i].steam {
            let state = rows[i].state;
            let lock = match active_id {
                Some(a) => a != rows[i].id,
                None => false,
            };
            let next = if lock && (state == AccountState::Idle || state == AccountState::NeedsLogin) {
                AccountState::Locked
            } else if !lock && state == AccountState::Locked {
                idle_state(true, false)
            } else {
                state
            };
            if next != state {
                let mut row = copy_row(&rows[i]);
                row.state = next;
                rows.set(i, row);
            }
        }
    }
    counts
}

/// After the lock is applied, no Steam account other than the running one can be started from an
/// idle state: while a Steam account is on the way, every other Steam row that was ready is locked.
pub proof fn lemma_one_steam_account(rows: Seq<AccountRow>, i: int)
    requires
        0 <= i < rows.len(),
        rows[i].steam,
        active_steam(rows) is Some,
        active_steam(rows)->0 != rows[i].id,
    ensures
        refreshed_state(rows[i], active_steam(rows)) != AccountState::Idle,
        refreshed_state(rows[i], active_steam(rows)) != AccountState::NeedsLogin,
{
}

/// Whether a client is on its way in `state`: starting, running or being stopped.
pub open spec fn on_its_way(state: AccountState) -> bool {
    state == AccountState::Starting || state == AccountState::Running || state == AccountState::Stopping
}

/// When some Steam row's client is on its way, the account found is one of those rows.
proof fn lemma_active_steam_found(rows: Seq<AccountRow>)
    ensures
        (exists|j: int| 0 <= j < rows.len() && rows[j].steam && on_its_way(#[trigger] rows[j].state))
            ==> (active_steam(rows) matches Some(id) && exists|k: int|
            0 <= k < rows.len() && rows[k].steam && on_its_way(#[trigger] rows[k].state) && rows[k].id
                == id),
        active_steam(rows) is None ==> forall|j: int|
            0 <= j < rows.len() && #[trigger] rows[j].steam ==> !on_its_way(rows[j].state),
    decreases rows.len(),
{
    if rows.len() > 0 {
        let rest = rows.drop_first();
        lemma_active_steam_found(rest);
        if !(rows[0].steam && active(rows[0].state)) {
            if exists|j: int| 0 <= j < rows.len() && rows[j].steam && on_its_way(#[trigger] rows[j].state) {
                let j = choose|j: int| 0 <= j < rows.len() && rows[j].steam && on_its_way(#[trigger] rows[j].state);
                assert(j > 0);
                assert(rest[j - 1] == rows[j]);
                let id = active_steam(rest)->0;
                let k = choose|k: int|
                    0 <= k < rest.len() && rest[k].steam && on_its_way(#[trigger] rest[k].state) && rest[k].id == id;
                assert(rows[k + 1] == rest[k]);
            }
            if active_steam(rows) is None {
                assert forall|j: int| 0 <= j < rows.len() && #[trigger] rows[j].steam implies !on_its_way(
                    rows[j].state,
                ) by {
                    if j > 0 {
                        assert(rest[j - 1] == rows[j]);
                    }
                }
            }
        }
    }
}

/// Only one Steam account runs at a time: while any other Steam account's client is starting,
/// running or being stopped, a Steam account cannot be started after the refresh (it is neither
/// idle nor waiting for its login), whatever its position in the list; and while no Steam
/// account's client is on its way, no Steam row is locked after the refresh.
pub proof fn lemma_steam_lock(rows: Seq<AccountRow>, i: int, j: int)
    requires
        0 <= i < rows.len(),
        0 <= j < rows.len(),
        forall|a: int, b: int| 0 <= a < b < rows.len() ==> rows[a].id != rows[b].id,
    ensures
        i != j && rows[i].steam && rows[j].steam && on_its_way(rows[j].state) ==> {
            let s = refreshed_state(rows[i], active_steam(rows));
            s != AccountState::Idle && s != AccountState::NeedsLogin
        },
        rows[i].steam && (forall|k: int|
            0 <= k < rows.len() && #[trigger] rows[k].steam ==> !on_its_way(rows[k].state))
            ==> refreshed_state(rows[i], active_steam(rows)) != AccountState::Locked,
{
    lemma_active_steam_found(rows);
    if i != j && rows[i].steam && rows[j].steam && on_its_way(rows[j].state) {
        assert(on_its_way(rows[j].state));
        let id = active_steam(rows)->0;
        let k = choose|k: int|
            0 <= k < rows.len() && rows[k].steam && on_its_way(#[trigger] rows[k].state) && rows[k].id == id;
        if rows[i].state == AccountState::Idle || rows[i].state == AccountState::NeedsLogin {
            assert(k != i);
        }
    }
    if forall|k: int| 0 <= k < rows.len() && #[trigger] rows[k].steam ==> !on_its_way(rows[k].state) {
        if active_steam(rows) is Some {
            assert(exists|k: int| 0 <= k < rows.len() && rows[k].steam && active(#[trigger] rows[k].state)) by {
                lemma_active_steam_is_on_its_way(rows);
            }
        }
    }
}

/// The account found is a Steam row whose client is on its way.
proof fn lemma_active_steam_is_on_its_way(rows: Seq<AccountRow>)
    requires
        active_steam(rows) is Some,
    ensures
        exists|k: int| 0 <= k < rows.len() && rows[k].steam && active(#[trigger] rows[k].state),
    decreases rows.len(),
{
    if !(rows[0].steam && active(rows[0].state)) {
        let rest = rows.drop_first();
        lemma_active_steam_is_on_its_way(rest);
        let k = choose|k: int| 0 <= k < rest.len() && rest[k].steam && active(#[trigger] rest[k].state);
        assert(rows[k + 1] == rest[k]);
    }
}

/// Unselects every selected row; nothing else changes.
pub fn clear_selection(rows: &mut Vec<AccountRow>)
    ensures
        final(rows)@.len() == old(rows)@.len(),
        forall|i: int|
            0 <= i < old(rows)@.len() ==> with_selected(#[trigger] old(rows)@[i], final(rows)@[i], false),
{
    let ghost before = rows@;
    let n = rows.len();
    for i in 0..n
        invariant
            n == before.len() == rows@.len(),
            forall|j: int| 0 <= j < i ==> with_selected(#[trigger] before[j], rows@[j], false),
            forall|j: int| i <= j < n ==> #[trigger] rows@[j] == before[j],
    {
        if rows[i].selected {
            let mut row = copy_row(&rows[i]);
            row.selected = false;
            rows.set(i, row);
        }
    }
}

/// The positions of the rows "Launch all" starts: the selected rows that can start, or every row
/// that can start if none is selected.
pub open spec fn launch_all_spec(rows: Seq<AccountRow>, any_selected: bool) -> Seq<usize>
    decreases rows.len(),
{
    if rows.len() == 0 {
        Seq::empty()
    } else {
        let rest = launch_all_spec(rows.drop_last(), any_selected);
        let row = rows.last();
        if startable(row.state) && (row.selected || !any_selected) {
            rest.push((rows.len() - 1) as usize)
        } else {
            rest
        }
    }
}

/// The positions of the rows to start with "Launch all": the selected ones that can start, or
/// every one that can start if nothing is selected.
pub fn launch_all_targets(rows: &[AccountRow]) -> (r: Vec<usize>)
    ensures
        r@ == launch_all_spec(rows@, exists|j: int| 0 <= j < rows@.len() && #[trigger] rows@[j].selected),
{
    let mut any = false;
    for i in 0..rows.len()
        invariant
            any == exists|j: int| 0 <= j < i && #[trigger] rows@[j].selected,
    {
        if rows[i].selected {
            any = true;
        }
    }
    let mut out: Vec<usize> = Vec::new();
    for i in 0..rows.len()
        invariant
            any == exists|j: int| 0 <= j < rows@.len() && #[trigger] rows@[j].selected,
            out@ == launch_all_spec(rows@.take(i as int), any),
    {
        assert(rows@.take(i + 1).drop_last() =~= rows@.take(i as int));
        assert(rows@.take(i + 1).last() == rows@[i as int]);
        if is_startable(rows[i].state) && (rows[i].selected || !any) {
            out.push(i);
        }
    }
    assert(rows@.take(rows@.len() as int) =~= rows@);
    out
}

/// Whether an account in `state` can be started: it is idle, needs its login set up, or its last
/// start failed.
pub open spec fn can_start(state: AccountState) -> bool {
    state == AccountState::Idle || state == AccountState::NeedsLogin || state == AccountState::Error
}

/// Whether `s` holds positions in increasing order.
pub open spec fn increasing(s: Seq<usize>) -> bool {
    forall|a: int, b: int| 0 <= a < b < s.len() ==> s[a] < s[b]
}

proof fn lemma_launch_all_positions(rows: Seq<AccountRow>, any_selected: bool)
    requires
        rows.len() <= usize::MAX,
    ensures
        increasing(launch_all_spec(rows, any_selected)),
        forall|k: int|
            0 <= k < launch_all_spec(rows, any_selected).len() ==> launch_all_spec(rows, any_selected)[k]
                < rows.len(),
        forall|i: int|
            0 <= i < rows.len() ==> (launch_all_spec(rows, any_selected).contains(i as usize) <==> (
            can_start(#[trigger] rows[i].state) && (rows[i].selected || !any_selected))),
    decreases rows.len(),
{
    if rows.len() > 0 {
        let prev = rows.drop_last();
        lemma_launch_all_positions(prev, any_selected);
        let rest = launch_all_spec(prev, any_selected);
        let r = launch_all_spec(rows, any_selected);
        let n = rows.len() - 1;
        let pushed = can_start(rows[n].state) && (rows[n].selected || !any_selected);
        assert(rows.last() == rows[n]);
        if pushed {
            assert(r == rest.push(n as usize));
        } else {
            assert(r == rest);
        }
        assert forall|i: int| 0 <= i < rows.len() implies (r.contains(i as usize) <==> (can_start(
            #[trigger] rows[i].state,
        ) && (rows[i].selected || !any_selected))) by {
            if i < n {
                assert(rows[i] == prev[i]);
                if r.contains(i as usize) {
                    let k = choose|k: int| 0 <= k < r.len() && r[k] == i as usize;
                    if k == rest.len() {
                        assert(r[k] == n as usize);
                    } else {
                        assert(rest[k] == i as usize);
                    }
                }
                if rest.contains(i as usize) {
                    let k = choose|k: int| 0 <= k < rest.len() && rest[k] == i as usize;
                    assert(r[k] == i as usize);
                }
            } else {
                if r.contains(i as usize) && !pushed {
                    let k = choose|k: int| 0 <= k < r.len() && r[k] == i as usize;
                    assert(rest[k] < prev.len());
                }
                if pushed {
                    assert(r[rest.len() as int] == i as usize);
                }
            }
        }
    }
}

/// "Launch all" starts, in list order, every account that can be started (idle, needing its
/// login, or after a failed start) when no row is selected, and exactly the selected ones of
/// those when some row is.
pub proof fn lemma_launch_all_targets(rows: Seq<AccountRow>)
    requires
        rows.len() <= usize::MAX,
    ensures
        ({
            let any = exists|j: int| 0 <= j < rows.len() && #[trigger] rows[j].selected;
            let r = launch_all_spec(rows, any);
            &&& increasing(r)
            &&& forall|k: int| 0 <= k < r.len() ==> r[k] < rows.len()
            &&& !any ==> forall|i: int|
                0 <= i < rows.len() ==> (r.contains(i as usize) <==> can_start(#[trigger] rows[i].state))
            &&& any ==> forall|i: int|
                0 <= i < rows.len() ==> (r.contains(i as usize) <==> (rows[i].selected && can_start(
                    #[trigger] rows[i].state,
                )))
        }),
{
    let any = exists|j: int| 0 <= j < rows.len() && #[trigger] rows[j].selected;
    lemma_launch_all_positions(rows, any);
}

/// What clicking an account's start button does.
#[derive(Debug, Clone, Copy, PartialEq, Eq, Structural)]
pub enum Toggle {
    /// Its running client is stopped.
    Stop,
    /// It is started.
    Start,
    /// Nothing: a client is on its way up or down.
    Nothing,
}

/// What clicking the start button of `row` does: a running client with a handle is stopped, an
/// account that can start is started. A client that is still starting can't be stopped or started
/// again until its launch finishes.
pub fn toggle_action(row: &AccountRow) -> (r: Toggle)
    ensures
        r == (if row.state == AccountState::Running && row.handle != 0 {
            Toggle::Stop
        } else if startable(row.state) {
            Toggle::Start
        } else {
            Toggle::Nothing
        }),
{
    if row.state == AccountState::Running && row.handle != 0 {
        Toggle::Stop
    } else if is_startable(row.state) {
        Toggle::Start
    } else {
        Toggle::Nothing
    }
}

/// Whether the row's client can be stopped: it runs and its handle is known.
pub fn can_stop(row: &AccountRow) -> (r: bool)
    ensures
        r == (row.state == AccountState::Running && row.handle != 0),
{
    row.state == AccountState::Running && row.handle != 0
}

/// The Steam account already on its way that keeps Steam account `id` from starting: Steam signs
/// the game in with whichever Steam user is signed in, so a second Steam account can't run next
/// to the first one. The position of its row, the first if there are several.
pub fn steam_busy(rows: &[AccountRow], id: AccountId) -> (r: Option<usize>)
    ensures
        match r {
            Some(p) => p < rows@.len() && rows@[p as int].steam && active(rows@[p as int].state)
                && rows@[p as int].id != id.0 as i32 && forall|j: int|
                0 <= j < p ==> !(#[trigger] rows@[j].steam && active(rows@[j].state) && rows@[j].id
                    != id.0 as i32),
            None => forall|j: int|
                0 <= j < rows@.len() ==> !(#[trigger] rows@[j].steam && active(rows@[j].state)
                    && rows@[j].id != id.0 as i32),
        },
{
    let key = id.0 as i32;
    for i in 0..rows.len()
        invariant
            key == id.0 as i32,
            forall|j: int|
                0 <= j < i ==> !(#[trigger] rows@[j].steam && active(rows@[j].state) && rows@[j].id
                    != key),
    {
        if rows[i].steam && is_active(rows[i].state) && rows[i].id != key {
            return Some(i);
        }
    }
    None
}

/// How a client that exited is reported: `None` if it ended normally (or was stopped from the
/// list), otherwise the exit code to show (`?` if there is none) or the error of waiting for it.
pub enum ExitResult {
    /// The process ended with this exit code (`None`: no code, such as a termination).
    Exited(Option<i32>),
    /// Waiting for the process failed with this message.
    WaitFailed(String),
}

/// The failure to report for a client that exited with `result`: none if it was being stopped or
/// ended with code 0, otherwise the code (`?` without one) or the error of waiting for it.
pub fn exit_failure(stopped: bool, result: &ExitResult) -> (r: Option<String>)
    ensures
        stopped ==> r is None,
        !stopped ==> match result {
            ExitResult::Exited(Some(0)) => r is None,
            ExitResult::Exited(Some(code)) => r is Some && r->0@ == crate::text::int_text(code as int),
            ExitResult::Exited(None) => r is Some && r->0@ == "?"@,
            ExitResult::WaitFailed(message) => r is Some && r->0@ == message@,
        },
{
    if stopped {
        return None;
    }
    match result {
        ExitResult::Exited(Some(code)) => {
            if *code == 0 {
                None
            } else {
                Some(crate::text::i32_string(*code))
            }
        },
        ExitResult::Exited(None) => Some(owned("?")),
        ExitResult::WaitFailed(message) => Some(owned(message.as_str())),
    }
}

/// Puts the row of a client that exited back to rest: no handle, no start time, no companions;
/// idle (or needing its login, see [`idle_state`]) if it ended normally, in error with `detail`
/// if it did not (`failure`).
pub fn rest_after_exit(row: &mut AccountRow, failed: bool, set_up: bool, detail: &str)
    ensures
        final(row).handle == 0,
        final(row).since@ == Seq::<char>::empty(),
        !final(row).addon_active,
        !failed ==> final(row).state == (if old(row).steam || set_up {
            AccountState::Idle
        } else {
            AccountState::NeedsLogin
        }) && final(row).detail@ == Seq::<char>::empty(),
        failed ==> final(row).state == AccountState::Error && final(row).detail@ == detail@,
        final(row).id == old(row).id,
        final(row).name@ == old(row).name@,
        final(row).provider@ == old(row).provider@,
        final(row).steam == old(row).steam,
        final(row).selected == old(row).selected,
        final(row).has_companions == old(row).has_companions,
{
    row.handle = 0;
    row.since = String::new();
    row.addon_active = false;
    if failed {
        row.state = AccountState::Error;
        row.detail = owned(detail);
    } else {
        row.state = idle_state(row.steam, set_up);
        row.detail = String::new();
    }
}

/// Kind of a toast, which decides its color and icon.
#[derive(Debug, Clone, Copy, PartialEq, Eq, Structural)]
pub enum ToastKind {
    Success,
    Warning,
    Error,
}

/// A message at the bottom of the window.
#[derive(Debug, Clone, PartialEq, Eq)]
pub struct ToastData {
    pub id: i32,
    pub kind: ToastKind,
    pub title: String,
    pub message: String,
}

/// At most this many toasts are shown at once; older ones make room.
pub const MAX_TOASTS: usize = 3;

/// A copy of `t`.
pub fn copy_toast(t: &ToastData) -> (r: ToastData)
    ensures
        r.id == t.id,
        r.kind == t.kind,
        r.title@ == t.title@,
        r.message@ == t.message@,
{
    ToastData {
        id: t.id,
        kind: t.kind,
        title: owned(t.title.as_str()),
        message: owned(t.message.as_str()),
    }
}

/// A toast as its values.
pub open spec fn toast_view(t: ToastData) -> (i32, ToastKind, Seq<char>, Seq<char>) {
    (t.id, t.kind, t.title@, t.message@)
}

/// The views of a list of toasts.
pub open spec fn toast_views(ts: Seq<ToastData>) -> Seq<(i32, ToastKind, Seq<char>, Seq<char>)> {
    ts.map_values(|t: ToastData| toast_view(t))
}

/// Of `toasts`, those whose text differs from `title` and `message`.
pub open spec fn other_texts(toasts: Seq<(i32, ToastKind, Seq<char>, Seq<char>)>, title: Seq<char>, message: Seq<char>) -> Seq<
    (i32, ToastKind, Seq<char>, Seq<char>),
>
    decreases toasts.len(),
{
    if toasts.len() == 0 {
        Seq::empty()
    } else {
        let rest = other_texts(toasts.drop_last(), title, message);
        let t = toasts.last();
        if t.2 != title || t.3 != message {
            rest.push(t)
        } else {
            rest
        }
    }
}

/// The toasts after `toast` was added to `toasts`: the same text shows only once (the new one),
/// and only the newest [`MAX_TOASTS`] remain.
pub open spec fn pushed(toasts: Seq<(i32, ToastKind, Seq<char>, Seq<char>)>, toast: (i32, ToastKind, Seq<char>, Seq<char>)) -> Seq<
    (i32, ToastKind, Seq<char>, Seq<char>),
> {
    let all = other_texts(toasts, toast.2, toast.3).push(toast);
    if all.len() > MAX_TOASTS {
        all.subrange(all.len() - MAX_TOASTS, all.len() as int)
    } else {
        all
    }
}

/// Shows `toast` below the others: the same text again (such as "Launch all" hitting the same
/// problem twice) shows once, and the oldest toasts make room beyond [`MAX_TOASTS`].
pub fn push_toast(toasts: &mut Vec<ToastData>, toast: ToastData)
    ensures
        toast_views(final(toasts)@) == pushed(toast_views(old(toasts)@), toast_view(toast)),
{
    let ghost before = toast_views(toasts@);
    let mut kept: Vec<ToastData> = Vec::new();
    for i in 0..toasts.len()
        invariant
            before == toast_views(toasts@),
            toast_views(kept@) == other_texts(before.take(i as int), toast.title@, toast.message@),
    {
        assert(before.take(i + 1).drop_last() =~= before.take(i as int));
        assert(before.take(i + 1).last() == toast_view(toasts@[i as int]));
        let ghost k = kept@;
        if !str_eq(toasts[i].title.as_str(), toast.title.as_str()) || !str_eq(
            toasts[i].message.as_str(),
            toast.message.as_str(),
        ) {
            let c = copy_toast(&toasts[i]);
            kept.push(c);
            assert(toast_views(kept@) =~= toast_views(k).push(toast_view(c)));
        }
    }
    assert(before.take(before.len() as int) =~= before);
    let ghost k = kept@;
    kept.push(toast);
    assert(toast_views(kept@) =~= toast_views(k).push(toast_view(toast)));
    let n = kept.len();
    let skip = if n > MAX_TOASTS {
        n - MAX_TOASTS
    } else {
        0
    };
    let ghost all = toast_views(kept@);
    let mut out: Vec<ToastData> = Vec::new();
    for i in skip..n
        invariant
            n == kept@.len(),
            all == toast_views(kept@),
            skip <= n,
            toast_views(out@) == all.subrange(skip as int, i as int),
    {
        let c = copy_toast(&kept[i]);
        let ghost o = out@;
        out.push(c);
        assert(toast_views(out@) =~= toast_views(o).push(toast_view(c)));
        assert(all.subrange(skip as int, i + 1) =~= all.subrange(skip as int, i as int).push(all[i as int]));
    }
    proof {
        if n <= MAX_TOASTS {
            assert(all.subrange(0, n as int) =~= all);
        }
    }
    *toasts = out;
}

/// Of `toasts`, those whose id is not `id`.
pub open spec fn without_id(toasts: Seq<(i32, ToastKind, Seq<char>, Seq<char>)>, id: i32) -> Seq<
    (i32, ToastKind, Seq<char>, Seq<char>),
>
    decreases toasts.len(),
{
    if toasts.len() == 0 {
        Seq::empty()
    } else {
        let rest = without_id(toasts.drop_last(), id);
        if toasts.last().0 != id {
            rest.push(toasts.last())
        } else {
            rest
        }
    }
}

/// Removes toast `id`.
pub fn dismiss_toast(toasts: &mut Vec<ToastData>, id: i32)
    ensures
        toast_views(final(toasts)@) == without_id(toast_views(old(toasts)@), id),
{
    let ghost before = toast_views(toasts@);
    let mut kept: Vec<ToastData> = Vec::new();
    for i in 0..toasts.len()
        invariant
            before == toast_views(toasts@),
            toast_views(kept@) == without_id(before.take(i as int), id),
    {
        assert(before.take(i + 1).drop_last() =~= before.take(i as int));
        assert(before.take(i + 1).last() == toast_view(toasts@[i as int]));
        if toasts[i].id != id {
            let ghost k = kept@;
            let c = copy_toast(&toasts[i]);
            kept.push(c);
            assert(toast_views(kept@) =~= toast_views(k).push(toast_view(c)));
        }
    }
    assert(before.take(before.len() as int) =~= before);
    *toasts = kept;
}

proof fn lemma_other_texts(toasts: Seq<(i32, ToastKind, Seq<char>, Seq<char>)>, title: Seq<char>, message: Seq<char>)
    ensures
        forall|i: int|
            0 <= i < other_texts(toasts, title, message).len() ==> (#[trigger] other_texts(
                toasts,
                title,
                message,
            )[i].2 != title || other_texts(toasts, title, message)[i].3 != message),
    decreases toasts.len(),
{
    if toasts.len() > 0 {
        lemma_other_texts(toasts.drop_last(), title, message);
        let o = other_texts(toasts, title, message);
        let r = other_texts(toasts.drop_last(), title, message);
        assert forall|i: int| 0 <= i < o.len() implies (#[trigger] o[i].2 != title || o[i].3
            != message) by {
            if i < r.len() {
                assert(o[i] == r[i]);
            }
        }
    }
}

/// A new toast is always shown, last; never more than [`MAX_TOASTS`] are shown; and no other
/// shown toast has the same text as the new one.
pub proof fn lemma_pushed_toasts(toasts: Seq<(i32, ToastKind, Seq<char>, Seq<char>)>, toast: (i32, ToastKind, Seq<char>, Seq<char>))
    ensures
        pushed(toasts, toast).len() <= MAX_TOASTS,
        pushed(toasts, toast).len() > 0,
        pushed(toasts, toast).last() == toast,
        forall|i: int|
            0 <= i < pushed(toasts, toast).len() - 1 ==> (#[trigger] pushed(toasts, toast)[i].2
                != toast.2 || pushed(toasts, toast)[i].3 != toast.3),
{
    lemma_other_texts(toasts, toast.2, toast.3);
    let kept = other_texts(toasts, toast.2, toast.3);
    let all = kept.push(toast);
    let p = pushed(toasts, toast);
    assert forall|i: int| 0 <= i < p.len() - 1 implies (#[trigger] p[i].2 != toast.2 || p[i].3
        != toast.3) by {
        if all.len() > MAX_TOASTS {
            assert(p[i] == all[i + all.len() - MAX_TOASTS]);
            assert(all[i + all.len() - MAX_TOASTS] == kept[i + all.len() - MAX_TOASTS]);
        } else {
            assert(p[i] == kept[i]);
        }
    }
}


/// The state a row at rest is put in by the login check: an account whose login is older than
/// the game (`outdated`), or an ArenaNet account without its own `Local.dat`, needs its login;
/// any other is ready. Rows whose client is on the way, or in error, are left as they are.
pub fn login_check_state(state: AccountState, outdated: bool, steam: bool, set_up: bool) -> (r:
    AccountState)
    ensures
        r == (if state == AccountState::Idle || state == AccountState::NeedsLogin {
            if outdated || (!steam && !set_up) {
                AccountState::NeedsLogin
            } else {
                AccountState::Idle
            }
        } else {
            state
        }),
{
    if state == AccountState::Idle || state == AccountState::NeedsLogin {
        if outdated || (!steam && !set_up) {
            AccountState::NeedsLogin
        } else {
            AccountState::Idle
        }
    } else {
        state
    }
}

/// Whether a login setup saved anything: the client writes `Local.dat` when it is closed
/// normally, so a file (its size and modification time) that is there and differs from before
/// the start means it did. That can't show whether the password was stored.
pub fn login_saved(before: Option<(u64, u64)>, after: Option<(u64, u64)>) -> (r: bool)
    ensures
        r == (after is Some && after != before),
{
    match after {
        None => false,
        Some(a) => match before {
            None => true,
            Some(b) => a.0 != b.0 || a.1 != b.1,
        },
    }
}

/// Whether a client that exited finished a login setup: it was a setup start, it was not
/// stopped from the list, and it ended normally.
pub fn setup_finished(setup: bool, stopped: bool, failed: bool) -> (r: bool)
    ensures
        r == (setup && !stopped && !failed),
{
    setup && !stopped && !failed
}

/// `names` joined with `, ` in between.
pub open spec fn joined_names(names: Seq<Seq<char>>) -> Seq<char>
    decreases names.len(),
{
    if names.len() == 0 {
        Seq::empty()
    } else if names.len() == 1 {
        names[0]
    } else {
        joined_names(names.drop_last()) + ", "@ + names.last()
    }
}

/// The names of the accounts that have to refresh their login, as the window lists them.
pub fn refresh_names(names: &Vec<String>) -> (r: String)
    ensures
        r@ == joined_names(crate::launch::views(names@)),
{
    let ghost all = crate::launch::views(names@);
    let mut out = String::new();
    for i in 0..names.len()
        invariant
            all == crate::launch::views(names@),
            out@ == joined_names(all.take(i as int)),
    {
        assert(all.take(i + 1).drop_last() =~= all.take(i as int));
        assert(all.take(i + 1).last() == names@[i as int]@);
        if i > 0 {
            crate::text::push_str(&mut out, ", ");
        } else {
            assert(all.take(1) =~= seq![names@[0]@]);
        }
        crate::text::push_str(&mut out, names[i].as_str());
    }
    assert(all.take(all.len() as int) =~= all);
    out
}


/// One entry of the tray icon's menu.
#[derive(Debug, Clone, Copy, PartialEq, Eq, Structural)]
pub enum TrayEntry {
    /// "Launch all" with the number of accounts it would start; disabled if that is none.
    LaunchAll { count: usize, enabled: bool },
    Separator,
    /// The account of row `index`, which starts or stops it; disabled while it is locked.
    Account { index: usize, enabled: bool },
    /// Shows the window.
    OpenWindow,
    /// Ends Breakbar.
    Quit,
}

/// How many of `rows` can be started.
pub open spec fn count_startable(rows: Seq<AccountRow>) -> nat
    decreases rows.len(),
{
    if rows.len() == 0 {
        0
    } else {
        count_startable(rows.drop_last()) + if startable(rows.last().state) {
            1nat
        } else {
            0nat
        }
    }
}

proof fn lemma_count_startable(rows: Seq<AccountRow>)
    ensures
        count_startable(rows) <= rows.len(),
    decreases rows.len(),
{
    if rows.len() > 0 {
        lemma_count_startable(rows.drop_last());
    }
}

/// The tray menu for `rows`: "Launch all" with its count, then (if there are accounts) a line and
/// one entry per account in list order, then a line, "Open window" and "Quit".
pub open spec fn tray_spec(rows: Seq<AccountRow>) -> Seq<TrayEntry> {
    let count = count_startable(rows) as usize;
    let head = seq![TrayEntry::LaunchAll { count, enabled: count > 0 }];
    let accounts = if rows.len() == 0 {
        Seq::empty()
    } else {
        seq![TrayEntry::Separator] + Seq::new(
            rows.len(),
            |i: int| TrayEntry::Account { index: i as usize, enabled: rows[i].state != AccountState::Locked },
        )
    };
    head + accounts + seq![TrayEntry::Separator, TrayEntry::OpenWindow, TrayEntry::Quit]
}

/// The tray icon's menu, built fresh on every open so it reflects the current rows.
pub fn tray_entries(rows: &[AccountRow]) -> (r: Vec<TrayEntry>)
    ensures
        r@ == tray_spec(rows@),
{
    let mut count: usize = 0;
    for i in 0..rows.len()
        invariant
            count == count_startable(rows@.take(i as int)),
    {
        proof {
            assert(rows@.take(i + 1).drop_last() =~= rows@.take(i as int));
            assert(rows@.take(i + 1).last() == rows@[i as int]);
            lemma_count_startable(rows@.take(i as int));
        }
        if is_startable(rows[i].state) {
            count = count + 1;
        }
    }
    assert(rows@.take(rows@.len() as int) =~= rows@);
    let mut out: Vec<TrayEntry> = Vec::new();
    out.push(TrayEntry::LaunchAll { count, enabled: count > 0 });
    let ghost head = out@;
    if rows.len() > 0 {
        out.push(TrayEntry::Separator);
        for i in 0..rows.len()
            invariant
                out@ == head + seq![TrayEntry::Separator] + Seq::new(
                    i as nat,
                    |k: int| TrayEntry::Account { index: k as usize, enabled: rows@[k].state != AccountState::Locked },
                ),
        {
            out.push(TrayEntry::Account { index: i, enabled: rows[i].state != AccountState::Locked });
            assert(Seq::new(
                (i + 1) as nat,
                |k: int| TrayEntry::Account { index: k as usize, enabled: rows@[k].state != AccountState::Locked },
            ) =~= Seq::new(
                i as nat,
                |k: int| TrayEntry::Account { index: k as usize, enabled: rows@[k].state != AccountState::Locked },
            ).push(TrayEntry::Account { index: i, enabled: rows@[i as int].state != AccountState::Locked }));
        }
    }
    out.push(TrayEntry::Separator);
    out.push(TrayEntry::OpenWindow);
    out.push(TrayEntry::Quit);
    assert(out@ =~= tray_spec(rows@));
    out
}

} // verus!
