//! The instance-switcher overlay: a small always-on-top bar with one numbered chip per account
//! (up to [`MAX_CHIPS`]), for jumping between running clients.
//!
//! The window itself is the application's; this module decides what the bar shows, whether it is
//! shown at all, and when its dragged-to position is worth saving.

use vstd::prelude::*;

use crate::config::{OverlayPosition, OverlaySettings};
use crate::list::{AccountRow, AccountState, active, is_active};
use crate::text::owned;

verus! {

/// The bar shows at most this many accounts (the first ones in the launcher's order).
pub const MAX_CHIPS: usize = 4;

/// How often the overlay re-reads the account rows and the foreground window, in milliseconds.
pub const POLL_INTERVAL_MS: u64 = 500;

/// Decides when the dragged-to position is worth saving: once it has stayed the same for two
/// updates in a row (the drag is over) and differs from the saved one. Saving on every change
/// would rewrite the config twice a second for as long as the bar is being dragged.
#[derive(Debug, Clone, Copy, PartialEq, Eq, Structural)]
pub struct PositionSaver {
    /// The position last saved.
    pub saved: Option<OverlayPosition>,
    /// A position seen once, waiting to be seen again.
    pub pending: Option<OverlayPosition>,
}

/// What one observation does: the saver afterwards, and the position to save now.
pub open spec fn observe_spec(saver: PositionSaver, current: Option<OverlayPosition>) -> (
    PositionSaver,
    Option<OverlayPosition>,
) {
    match current {
        None => (PositionSaver { saved: saver.saved, pending: None }, None),
        Some(c) => if saver.saved == Some(c) {
            (PositionSaver { saved: saver.saved, pending: None }, None)
        } else if saver.pending == Some(c) {
            (PositionSaver { saved: Some(c), pending: None }, Some(c))
        } else {
            (PositionSaver { saved: saver.saved, pending: Some(c) }, None)
        },
    }
}

impl PositionSaver {
    /// A saver for a bar last saved at `saved`.
    pub fn new(saved: Option<OverlayPosition>) -> (r: Self)
        ensures
            r.saved == saved,
            r.pending is None,
    {
        PositionSaver { saved, pending: None }
    }

    /// Looks at where the window is (`None`: not to be saved, such as while it is hidden or off
    /// every monitor) and returns the position to save now, if any.
    pub fn observe(&mut self, current: Option<OverlayPosition>) -> (r: Option<OverlayPosition>)
        ensures
            (*final(self), r) == observe_spec(*old(self), current),
    {
        let c = match current {
            None => {
                self.pending = None;
                return None;
            },
            Some(c) => c,
        };
        if self.saved == Some(c) {
            self.pending = None;
            return None;
        }
        if self.pending == Some(c) {
            self.pending = None;
            self.saved = Some(c);
            return Some(c);
        }
        self.pending = Some(c);
        None
    }
}

/// A position is saved only once it has been seen twice in a row and differs from the saved one;
/// what is saved becomes the saved position; and a gap (a hidden window) starts the wait anew.
pub proof fn lemma_saves_settled_positions(saver: PositionSaver, current: Option<OverlayPosition>)
    ensures
        observe_spec(saver, current).1 is Some ==> current is Some && saver.pending == current
            && saver.saved != current,
        observe_spec(saver, current).1 is Some ==> observe_spec(saver, current).0.saved
            == current,
        observe_spec(saver, current).1 is None ==> observe_spec(saver, current).0.saved
            == saver.saved,
        current is None ==> observe_spec(saver, current).0.pending is None,
{
}

/// The saver after observing `obs` in order, from `saver` on.
pub open spec fn saver_after(saver: PositionSaver, obs: Seq<Option<OverlayPosition>>) -> PositionSaver
    decreases obs.len(),
{
    if obs.len() == 0 {
        saver
    } else {
        observe_spec(saver_after(saver, obs.drop_last()), obs.last()).0
    }
}

/// What each of the observations `obs` returned, in order, from `saver` on.
pub open spec fn saves_of(saver: PositionSaver, obs: Seq<Option<OverlayPosition>>) -> Seq<
    Option<OverlayPosition>,
>
    decreases obs.len(),
{
    if obs.len() == 0 {
        Seq::empty()
    } else {
        saves_of(saver, obs.drop_last()).push(
            observe_spec(saver_after(saver, obs.drop_last()), obs.last()).1,
        )
    }
}

/// The last position returned among `saves`, or `saved` if none was.
pub open spec fn last_saved(saved: Option<OverlayPosition>, saves: Seq<Option<OverlayPosition>>) -> Option<
    OverlayPosition,
>
    decreases saves.len(),
{
    if saves.len() == 0 {
        saved
    } else {
        match saves.last() {
            Some(p) => Some(p),
            None => last_saved(saved, saves.drop_last()),
        }
    }
}

/// After the observations `obs`, the saver holds the last saved position, and waits for the
/// newest observation exactly when that is a position other than the saved one.
proof fn lemma_saver_after(saved: Option<OverlayPosition>, obs: Seq<Option<OverlayPosition>>)
    ensures
        ({
            let s = saver_after(PositionSaver { saved, pending: None }, obs);
            &&& s.saved == last_saved(saved, saves_of(PositionSaver { saved, pending: None }, obs))
            &&& s.pending == (if obs.len() > 0 && obs.last() is Some && obs.last() != s.saved {
                obs.last()
            } else {
                None
            })
        }),
    decreases obs.len(),
{
    if obs.len() > 0 {
        let start = PositionSaver { saved, pending: None };
        lemma_saver_after(saved, obs.drop_last());
        let prev = saves_of(start, obs.drop_last());
        let saves = saves_of(start, obs);
        assert(saves.drop_last() =~= prev);
        let s1 = saver_after(start, obs.drop_last());
        assert(saves.last() == observe_spec(s1, obs.last()).1);
    }
}

/// Over any history of a saver made by `new(saved)`: the observation at step `k` returns a
/// position exactly when that position was observed at this step and the step before, and is not
/// the last saved one (the one given to `new`, or the last one returned). A `None` observation
/// never returns one.
pub proof fn lemma_saver_history(saved: Option<OverlayPosition>, obs: Seq<Option<OverlayPosition>>, k: int)
    requires
        0 <= k < obs.len(),
    ensures
        ({
            let start = PositionSaver { saved, pending: None };
            let s = saver_after(start, obs.take(k));
            &&& s.saved == last_saved(saved, saves_of(start, obs.take(k)))
            &&& observe_spec(s, obs[k]).1 == (if obs[k] is Some && k > 0 && obs[k - 1] == obs[k]
                && obs[k] != s.saved {
                obs[k]
            } else {
                None
            })
        }),
{
    lemma_saver_after(saved, obs.take(k));
    if k > 0 {
        assert(obs.take(k).last() == obs[k - 1]);
    }
}

/// Whether a window at `(x, y)` is at least partly on the virtual screen at `left`, `top` of
/// size `width` by `height`.
pub open spec fn on_screen_spec(x: int, y: int, left: int, top: int, width: int, height: int) -> bool {
    x + 20 >= left && x <= left + width - 20 && y + 10 >= top && y <= top + height - 20
}

/// Whether a window at `(x, y)` is at least partly on the monitors, which span `width` by
/// `height` pixels from `(left, top)`.
pub fn on_screen(x: i32, y: i32, left: i32, top: i32, width: i32, height: i32) -> (r: bool)
    ensures
        r == on_screen_spec(x as int, y as int, left as int, top as int, width as int, height as int),
{
    let (x, y, left, top, width, height) = (
        x as i64,
        y as i64,
        left as i64,
        top as i64,
        width as i64,
        height as i64,
    );
    x + 20 >= left && x <= left + width - 20 && y + 10 >= top && y <= top + height - 20
}

/// One chip of the bar.
#[derive(Debug, Clone, PartialEq, Eq)]
pub struct SwitcherEntry {
    pub id: i32,
    pub name: String,
    /// Its client is on the way.
    pub running: bool,
    /// Its client was the last one in the foreground.
    pub active: bool,
    /// Its client is being started.
    pub starting: bool,
}

/// Whether any row's client is on the way.
pub open spec fn any_active(rows: Seq<AccountRow>) -> bool {
    exists|j: int| 0 <= j < rows.len() && active(#[trigger] rows[j].state)
}

/// The client last in the foreground after a poll: the one in the foreground now (`focused`), or
/// the one before as long as its client is still on the way. It only moves when another client
/// takes focus, not when focus goes elsewhere (this overlay included).
pub open spec fn last_active_spec(rows: Seq<AccountRow>, focused: Option<i32>, last: Option<i32>) -> Option<
    i32,
> {
    match focused {
        Some(id) => Some(id),
        None => if exists|j: int|
            0 <= j < rows.len() && Some(#[trigger] rows[j].id) == last && active(rows[j].state) {
            last
        } else {
            None
        },
    }
}

/// The client last in the foreground, given the one in the foreground now (`focused`: the id of
/// the first row with a client on the way whose window has the focus) and the one before.
pub fn next_last_active(rows: &[AccountRow], focused: Option<i32>, last: Option<i32>) -> (r: Option<i32>)
    ensures
        r == last_active_spec(rows@, focused, last),
{
    if focused.is_some() {
        return focused;
    }
    for i in 0..rows.len()
        invariant
            focused is None,
            forall|j: int|
                0 <= j < i ==> !(Some(#[trigger] rows@[j].id) == last && active(rows@[j].state)),
    {
        if Some(rows[i].id) == last && is_active(rows[i].state) {
            return last;
        }
    }
    None
}

/// The chip of `row`, with `last` the client last in the foreground.
pub open spec fn entry_spec(row: AccountRow, last: Option<i32>) -> (i32, Seq<char>, bool, bool, bool) {
    (
        row.id,
        row.name@,
        active(row.state),
        Some(row.id) == last && active(row.state),
        row.state == AccountState::Starting,
    )
}

/// A chip as its values.
pub open spec fn entry_view(e: SwitcherEntry) -> (i32, Seq<char>, bool, bool, bool) {
    (e.id, e.name@, e.running, e.active, e.starting)
}

/// The chips of the bar: one for each of the first [`MAX_CHIPS`] rows.
pub fn switcher_entries(rows: &[AccountRow], last: Option<i32>) -> (r: Vec<SwitcherEntry>)
    ensures
        r@.len() == if rows@.len() < MAX_CHIPS {
            rows@.len()
        } else {
            MAX_CHIPS as nat
        },
        forall|i: int| 0 <= i < r@.len() ==> entry_view(#[trigger] r@[i]) == entry_spec(rows@[i], last),
{
    let n = if rows.len() < MAX_CHIPS {
        rows.len()
    } else {
        MAX_CHIPS
    };
    let mut out: Vec<SwitcherEntry> = Vec::new();
    for i in 0..n
        invariant
            n <= rows@.len(),
            out@.len() == i,
            forall|k: int| 0 <= k < i ==> entry_view(#[trigger] out@[k]) == entry_spec(rows@[k], last),
    {
        let row = &rows[i];
        let running = is_active(row.state);
        out.push(
            SwitcherEntry {
                id: row.id,
                name: owned(row.name.as_str()),
                running,
                active: Some(row.id) == last && running,
                starting: row.state == AccountState::Starting,
            },
        );
    }
    out
}

/// Whether any of `rows` has a client on the way.
pub fn any_client_active(rows: &[AccountRow]) -> (r: bool)
    ensures
        r == any_active(rows@),
{
    for i in 0..rows.len()
        invariant
            forall|j: int| 0 <= j < i ==> !active(#[trigger] rows@[j].state),
    {
        if is_active(rows[i].state) {
            return true;
        }
    }
    false
}

/// Whether the bar is shown: when it is enabled and there is something to switch between; by
/// default only while a client runs, since an all-idle bar would just be clutter over the desktop.
pub fn overlay_wanted(settings: OverlaySettings, has_entries: bool, any_active: bool) -> (r: bool)
    ensures
        r == (settings.enabled && has_entries && (any_active || !settings.only_when_running)),
{
    settings.enabled && has_entries && (any_active || !settings.only_when_running)
}


/// What a click on a chip does.
#[derive(Debug, Clone, Copy, PartialEq, Eq, Structural)]
pub enum ChipAction {
    /// Brings the client's game window to the front.
    Activate,
    /// Offers "Stop" in a menu headed by the account's name.
    OfferStop,
    /// Offers "Start" (disabled while the account is locked) in a menu headed by its name.
    OfferStart { enabled: bool },
    /// Nothing: its client is on its way up or down.
    Nothing,
}

/// What a left or right click (`right_click`) on the chip of an account in `state` does: a running
/// client is switched to on a left click, and a right click offers to stop it; an account without
/// a client offers to start it either way.
pub fn chip_action(state: AccountState, right_click: bool) -> (r: ChipAction)
    ensures
        r == (if state == AccountState::Running {
            if right_click {
                ChipAction::OfferStop
            } else {
                ChipAction::Activate
            }
        } else if state == AccountState::Starting || state == AccountState::Stopping {
            ChipAction::Nothing
        } else {
            ChipAction::OfferStart { enabled: state != AccountState::Locked }
        }),
{
    match state {
        AccountState::Running => {
            if right_click {
                ChipAction::OfferStop
            } else {
                ChipAction::Activate
            }
        },
        AccountState::Starting | AccountState::Stopping => ChipAction::Nothing,
        _ => ChipAction::OfferStart { enabled: state != AccountState::Locked },
    }
}

} // verus!
