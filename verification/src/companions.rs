//! Which companion apps to start and stop alongside game clients.
//!
//! Every client starts its account's companions once their trigger is reached and closes them
//! again after the client exits. Apps with [`Scope::Shared`](crate::companion::Scope) run once
//! for all clients; [`SharedUsers`] counts the clients that use each such instance, so that it is
//! closed only when the last of them exits. The processes themselves are the application's.

use std::collections::HashMap;
use vstd::prelude::*;

use crate::account::Account;
use crate::companion::{CompanionApp, CompanionId, Trigger};
use crate::text::{owned, push_str};

verus! {

broadcast use vstd::std_specs::hash::group_hash_axioms;

/// The number of clients that use each running shared companion instance, by companion id.
#[derive(Debug)]
pub struct SharedUsers {
    users: HashMap<u32, usize>,
}

/// The counts after one more client joined the instance of `id`: a new instance takes over the
/// clients still counted on a closed one.
pub open spec fn join_spec(m: Map<u32, usize>, id: u32) -> Map<u32, usize> {
    let before = if m.contains_key(id) {
        m[id] as int
    } else {
        0
    };
    m.insert(id, (before + 1) as usize)
}

/// The counts after a client left the instance of `id`, and whether the instance is to be closed
/// now: it is when no client uses it anymore and the leaving client's account wants it closed
/// with the game (`close`). An instance nobody counted on is left alone.
pub open spec fn leave_spec(m: Map<u32, usize>, id: u32, close: bool) -> (Map<u32, usize>, bool) {
    if !m.contains_key(id) {
        (m, false)
    } else {
        let left = if m[id] == 0 {
            0usize
        } else {
            (m[id] - 1) as usize
        };
        if left == 0 && close {
            (m.remove(id), true)
        } else {
            (m.insert(id, left), false)
        }
    }
}

impl View for SharedUsers {
    type V = Map<u32, usize>;

    closed spec fn view(&self) -> Map<u32, usize> {
        self.users@
    }
}

impl SharedUsers {
    /// No shared instance runs.
    pub fn new() -> (r: Self)
        ensures
            r@ == Map::<u32, usize>::empty(),
    {
        SharedUsers { users: HashMap::new() }
    }

    /// How many clients use the instance of `id`, if one is counted.
    pub fn users_of(&self, id: CompanionId) -> (r: Option<usize>)
        ensures
            r == (if self@.contains_key(id.0) {
                Some(self@[id.0])
            } else {
                None
            }),
    {
        match self.users.get(&id.0) {
            Some(n) => Some(*n),
            None => None,
        }
    }

    /// Whether a client that wants the shared app `id` must start a new instance: unless one is
    /// counted and still runs (`running`). An instance the user closed meanwhile is replaced.
    pub fn needs_spawn(&self, id: CompanionId, running: bool) -> (r: bool)
        ensures
            r == !(self@.contains_key(id.0) && running),
    {
        !(self.users.contains_key(&id.0) && running)
    }

    /// Counts one more client on the instance of `id`.
    pub fn join(&mut self, id: CompanionId)
        requires
            old(self)@.contains_key(id.0) ==> old(self)@[id.0] < usize::MAX,
        ensures
            final(self)@ == join_spec(old(self)@, id.0),
    {
        let before: usize = match self.users.get(&id.0) {
            Some(n) => *n,
            None => 0,
        };
        self.users.insert(id.0, before + 1);
    }

    /// A client that used the instance of `id` has exited; returns whether the instance is to be
    /// closed now.
    pub fn leave(&mut self, id: CompanionId, close: bool) -> (r: bool)
        ensures
            (final(self)@, r) == leave_spec(old(self)@, id.0, close),
    {
        let current: usize = match self.users.get(&id.0) {
            Some(n) => *n,
            None => {
                return false;
            },
        };
        let left = if current == 0 {
            0
        } else {
            current - 1
        };
        if left == 0 && close {
            self.users.remove(&id.0);
            true
        } else {
            self.users.insert(id.0, left);
            false
        }
    }
}

/// A client that joins an instance and then leaves it again leaves the counts as they were: the
/// instance of an app no one else used is closed with it, one that others use keeps running.
pub proof fn lemma_join_then_leave(m: Map<u32, usize>, id: u32)
    requires
        m.contains_key(id) ==> 1 <= m[id] < usize::MAX,
    ensures
        leave_spec(join_spec(m, id), id, true).0 == m,
        leave_spec(join_spec(m, id), id, true).1 == !m.contains_key(id),
{
    let j = join_spec(m, id);
    assert(j.contains_key(id));
    if m.contains_key(id) {
        assert(j.insert(id, m[id]) =~= m);
    } else {
        assert(j.remove(id) =~= m);
    }
}

/// A shared instance is only ever closed by the last client that used it, and only if that
/// client's account wants it closed with the game.
pub proof fn lemma_closed_by_last_user(m: Map<u32, usize>, id: u32, close: bool)
    ensures
        leave_spec(m, id, close).1 ==> m.contains_key(id) && m[id] <= 1 && close,
        leave_spec(m, id, close).1 ==> !leave_spec(m, id, close).0.contains_key(id),
        !leave_spec(m, id, close).1 && m.contains_key(id) ==> leave_spec(m, id, close).0.contains_key(id),
{
}

/// How many sessions are open after `events`: `true` is a client joining the instance, `false` one
/// leaving it.
pub open spec fn sessions_open(events: Seq<bool>) -> int
    decreases events.len(),
{
    if events.len() == 0 {
        0
    } else {
        sessions_open(events.drop_last()) + if events.last() {
            1int
        } else {
            -1int
        }
    }
}

/// Every leave in `events` belongs to a session that joined before it.
pub open spec fn every_leave_joined(events: Seq<bool>) -> bool {
    forall|k: int| 0 <= k <= events.len() ==> sessions_open(#[trigger] events.take(k)) >= 0
}

/// The counts after `events` for the instance of `id`, from `m` on, and whether the last event
/// closed the instance; `close` is whether the app is closed with the game.
pub open spec fn run_sessions(m: Map<u32, usize>, id: u32, events: Seq<bool>, close: bool) -> (
    Map<u32, usize>,
    bool,
)
    decreases events.len(),
{
    if events.len() == 0 {
        (m, false)
    } else {
        let m1 = run_sessions(m, id, events.drop_last(), close).0;
        if events.last() {
            (join_spec(m1, id), false)
        } else {
            leave_spec(m1, id, close)
        }
    }
}

proof fn lemma_sessions_bounded(events: Seq<bool>)
    ensures
        sessions_open(events) <= events.len(),
    decreases events.len(),
{
    if events.len() > 0 {
        lemma_sessions_bounded(events.drop_last());
    }
}

/// Over any sequence of sessions of an app that is closed with the game, its instance counts
/// exactly the sessions that joined and have not left; it is closed exactly when the last of
/// them leaves, and the counts of other apps are not touched.
pub proof fn lemma_users_are_open_sessions(m: Map<u32, usize>, id: u32, events: Seq<bool>)
    requires
        !m.contains_key(id),
        every_leave_joined(events),
        events.len() < usize::MAX,
    ensures
        run_sessions(m, id, events, true).0.contains_key(id) == (sessions_open(events) > 0),
        sessions_open(events) > 0 ==> run_sessions(m, id, events, true).0[id] == sessions_open(
            events,
        ),
        run_sessions(m, id, events, true).0.remove(id) == m,
        events.len() > 0 && !events.last() ==> run_sessions(m, id, events, true).1 == (
        sessions_open(events) == 0),
    decreases events.len(),
{
    assert(events.take(events.len() as int) =~= events);
    if events.len() > 0 {
        let prev = events.drop_last();
        assert forall|k: int| 0 <= k <= prev.len() implies sessions_open(
            #[trigger] prev.take(k),
        ) >= 0 by {
            assert(prev.take(k) =~= events.take(k));
        }
        lemma_users_are_open_sessions(m, id, prev);
        lemma_sessions_bounded(prev);
        let m1 = run_sessions(m, id, prev, true).0;
        if events.last() {
            assert(join_spec(m1, id).remove(id) =~= m1.remove(id));
        } else {
            assert(sessions_open(events) >= 0);
            assert(m1.insert(id, (m1[id] - 1) as usize).remove(id) =~= m1.remove(id));
            assert(m1.remove(id).remove(id) =~= m1.remove(id));
        }
    } else {
        assert(m.remove(id) =~= m);
    }
}

/// The positions in `apps` of the apps that start on `trigger`.
pub open spec fn apps_for_spec(apps: Seq<CompanionApp>, trigger: Trigger) -> Seq<usize>
    decreases apps.len(),
{
    if apps.len() == 0 {
        Seq::empty()
    } else {
        let rest = apps_for_spec(apps.drop_last(), trigger);
        if apps.last().start_when == trigger {
            rest.push((apps.len() - 1) as usize)
        } else {
            rest
        }
    }
}

/// Whether any of `apps` waits for `trigger`.
pub fn waits_for(apps: &[CompanionApp], trigger: Trigger) -> (r: bool)
    ensures
        r == exists|i: int| 0 <= i < apps@.len() && #[trigger] apps@[i].start_when == trigger,
{
    for i in 0..apps.len()
        invariant
            forall|j: int| 0 <= j < i ==> #[trigger] apps@[j].start_when != trigger,
    {
        if apps[i].start_when == trigger {
            return true;
        }
    }
    false
}

/// The positions in `apps` of the apps to start on `trigger`, in order.
pub fn apps_for(apps: &[CompanionApp], trigger: Trigger) -> (r: Vec<usize>)
    ensures
        r@ == apps_for_spec(apps@, trigger),
{
    let mut out: Vec<usize> = Vec::new();
    for i in 0..apps.len()
        invariant
            out@ == apps_for_spec(apps@.take(i as int), trigger),
    {
        assert(apps@.take(i + 1).drop_last() =~= apps@.take(i as int));
        assert(apps@.take(i + 1).last() == apps@[i as int]);
        if apps[i].start_when == trigger {
            out.push(i);
        }
    }
    assert(apps@.take(apps@.len() as int) =~= apps@);
    out
}

/// The positions in `companions` of the apps that start with `account`.
pub open spec fn companions_of_spec(account: Account, companions: Seq<CompanionApp>) -> Seq<usize>
    decreases companions.len(),
{
    if companions.len() == 0 {
        Seq::empty()
    } else {
        let rest = companions_of_spec(account, companions.drop_last());
        if account.companions@.contains(companions.last().id) {
            rest.push((companions.len() - 1) as usize)
        } else {
            rest
        }
    }
}

fn has_companion(account: &Account, id: CompanionId) -> (r: bool)
    ensures
        r == account.companions@.contains(id),
{
    for i in 0..account.companions.len()
        invariant
            forall|j: int| 0 <= j < i ==> account.companions@[j] != id,
    {
        if account.companions[i] == id {
            return true;
        }
    }
    false
}

/// The positions in `companions` of the apps to start with `account`, in order.
pub fn companions_of(account: &Account, companions: &[CompanionApp]) -> (r: Vec<usize>)
    ensures
        r@ == companions_of_spec(*account, companions@),
{
    let mut out: Vec<usize> = Vec::new();
    for i in 0..companions.len()
        invariant
            out@ == companions_of_spec(*account, companions@.take(i as int)),
    {
        assert(companions@.take(i + 1).drop_last() =~= companions@.take(i as int));
        assert(companions@.take(i + 1).last() == companions@[i as int]);
        if has_companion(account, companions[i].id) {
            out.push(i);
        }
    }
    assert(companions@.take(companions@.len() as int) =~= companions@);
    out
}

/// The apps started with an account are exactly those of its companions, each once, in the order
/// of `companions`: position `i` is chosen exactly when the account lists the id of the app there.
pub proof fn lemma_companions_of(account: Account, companions: Seq<CompanionApp>)
    requires
        companions.len() <= usize::MAX,
    ensures
        crate::list::increasing(companions_of_spec(account, companions)),
        forall|k: int|
            0 <= k < companions_of_spec(account, companions).len() ==> companions_of_spec(
                account,
                companions,
            )[k] < companions.len(),
        forall|i: int|
            0 <= i < companions.len() ==> (companions_of_spec(account, companions).contains(
                i as usize,
            ) <==> account.companions@.contains(#[trigger] companions[i].id)),
    decreases companions.len(),
{
    if companions.len() > 0 {
        let prev = companions.drop_last();
        lemma_companions_of(account, prev);
        let rest = companions_of_spec(account, prev);
        let r = companions_of_spec(account, companions);
        let n = companions.len() - 1;
        let pushed = account.companions@.contains(companions[n].id);
        assert(companions.last() == companions[n]);
        if pushed {
            assert(r == rest.push(n as usize));
        } else {
            assert(r == rest);
        }
        assert forall|i: int| 0 <= i < companions.len() implies (r.contains(i as usize)
            <==> account.companions@.contains(#[trigger] companions[i].id)) by {
            if i < n {
                assert(companions[i] == prev[i]);
                if r.contains(i as usize) {
                    let k = choose|k: int| 0 <= k < r.len() && r[k] == i as usize;
                    if k == rest.len() {
                        assert(r[k] == n as usize);
                    } else {
                        assert(rest[k] == i as usize);
                    }
                }
                if rest.contains(i as usize) {
                    let k = choose|k: int| 0 <= k < rest.len() && rest[k] == i as usize;
                    assert(r[k] == i as usize);
                }
            } else {
                if r.contains(i as usize) && !pushed {
                    let k = choose|k: int| 0 <= k < r.len() && r[k] == i as usize;
                    assert(rest[k] < prev.len());
                }
                if pushed {
                    assert(r[rest.len() as int] == i as usize);
                }
            }
        }
    }
}

/// The message shown for a companion app that could not be started.
pub fn start_failure(app_name: &str, error: &str) -> (r: String)
    ensures
        r@ == app_name@ + " could not be started: "@ + error@,
{
    let mut s = owned(app_name);
    push_str(&mut s, " could not be started: ");
    push_str(&mut s, error);
    s
}

} // verus!
