//! The decisions around starting a game client: which executable, whether the start sets up the
//! login, what environment it gets, when the client has taken its `Local.dat`, and which process
//! took over from a client that restarted itself.
//!
//! The application spawns the processes, looks at the files and sleeps between the polls; it
//! hands what it saw to these functions and does what they return.

use vstd::prelude::*;

use crate::account::{Account, Provider};
use crate::game::GW2_EXE;
use crate::launch::LaunchOptions;
use crate::paths::{file_name, file_name_spec, parent, parent_spec, with_file_name, with_file_name_spec};
use crate::profile::StoreError;
use crate::profile_link::ProfileLinkError;
use crate::steam::GW2_APP_ID;
use crate::text::{decimal, decimal_string, owned, push_str};

verus! {

/// How often to check whether a starting client has taken its `Local.dat`, in milliseconds.
pub const POLL_INTERVAL_MS: u64 = 100;

/// How long `Local.dat` must stay locked before the client is considered to own it for good, in
/// milliseconds, guarding against the client briefly opening and re-opening it during startup.
pub const LOCK_STABLE_FOR_MS: u64 = 3000;

/// Upper bound for startup in milliseconds; generous because a client may check for updates
/// first.
pub const STARTUP_TIMEOUT_MS: u64 = 120_000;

/// How long a client that exited successfully during startup gets to show up again as a new
/// process, in milliseconds.
pub const RESTART_GRACE_MS: u64 = 15_000;

/// Named mutex serializing launches across Breakbar processes (the window and shortcut starts),
/// because each launch points `%APPDATA%\Guild Wars 2` at its account for a few seconds.
pub const LAUNCH_LOCK: &'static str = "Breakbar-Launch";

/// `ERROR_SHARING_VIOLATION`.
pub const ERROR_SHARING_VIOLATION: i32 = 32;

/// Window class of the game window with the DirectX 11 renderer. The launcher and patcher window
/// uses the class `ArenaNet` instead.
pub const GAME_WINDOW_CLASS_DX11: &'static str = "ArenaNet_Gr_Window_Class";

/// Window class of the game window with the DirectX 9 renderer.
pub const GAME_WINDOW_CLASS_DX9: &'static str = "ArenaNet_Dx_Window_Class";

/// The environment variable that tells the client's Steam API which app it is.
pub const STEAM_APP_ID_VAR: &'static str = "SteamAppId";

/// How to start a client.
#[derive(Debug, Clone, Copy, PartialEq, Eq, Structural)]
pub enum LaunchMode {
    /// Normal multi-launch start with `-shareArchive` (falls back to [`LaunchMode::SetUpLogin`]
    /// if the account has no `Local.dat` yet).
    Play,
    /// Start without `-shareArchive` so the client can write its `Local.dat`, the only way to
    /// save a remembered login. Requires that no other client runs.
    SetUpLogin,
}

/// A problem that doesn't stop the client from running.
#[derive(Debug, Clone, PartialEq, Eq)]
pub enum LaunchWarning {
    /// The client took unusually long to take its `Local.dat`; it may have picked up another
    /// account's login if the profile was switched meanwhile.
    SlowStart,
    /// `%APPDATA%\Guild Wars 2` could not be pointed back at the shared profile.
    ProfileNotRestored(ProfileLinkError),
}

/// Why a client was not started.
#[derive(Debug, Clone, PartialEq, Eq)]
pub enum LaunchError {
    /// Guild Wars 2 is not configured yet.
    NoGamePath,
    /// The named Steam account needs Steam running and signed in with its Steam user.
    SteamNotRunning(String),
    /// The named Steam account needs a Guild Wars 2 installation with Steam support.
    SteamInstallMissing(String),
    /// Setting up the login of the named account needs all other clients to be closed first.
    SetupNeedsExclusive(String),
    /// An account is being set up; its client has to be closed before another one starts.
    SetupClientRunning,
    /// The named account's client already runs.
    AlreadyRunning(String),
    /// The account's profile folder could not be prepared.
    Profile(StoreError),
    /// The game's data folder could not be switched to the account's profile.
    ProfileLink(ProfileLinkError),
    /// The client could not be started; the reason as the system gave it.
    Spawn(String),
    /// The client closed during startup with this exit code.
    ExitedDuringStartup(u32),
}

/// How Windows writes a process's exit code: in decimal, or in hexadecimal (as `0x...`) when
/// its high bit is set, as such codes are exceptions rather than counts.
pub open spec fn exit_status_text(code: u32) -> Seq<char> {
    if code >= 0x8000_0000 {
        "exit code: 0x"@ + crate::text::hex(code as nat)
    } else {
        "exit code: "@ + decimal(code as nat)
    }
}

/// The text of a [`LaunchError`].
pub open spec fn launch_error_text(e: LaunchError) -> Seq<char> {
    match e {
        LaunchError::NoGamePath => "Guild Wars 2 is not configured yet."@,
        LaunchError::SteamNotRunning(n) => n@
            + " is a Steam account: start Steam and sign in with the Steam user it is linked to first."@,
        LaunchError::SteamInstallMissing(n) => n@
            + " is a Steam account, but no Guild Wars 2 installation with Steam support was found. Install Guild Wars 2 through Steam; that installation can be used for all accounts."@,
        LaunchError::SetupNeedsExclusive(n) => "Setting up the login of "@ + n@
            + " needs all other Guild Wars 2 clients to be closed first."@,
        LaunchError::SetupClientRunning => "An account is currently being set up. Close that client before starting another one."@,
        LaunchError::AlreadyRunning(n) => n@ + " is already running."@,
        LaunchError::Profile(inner) => "could not prepare the account's profile folder: "@
            + crate::profile::store_error_text(inner),
        LaunchError::ProfileLink(inner) => "could not switch Guild Wars 2 to this account's profile: "@
            + crate::profile_link::link_error_text(inner),
        LaunchError::Spawn(m) => "failed to start Guild Wars 2: "@ + m@,
        LaunchError::ExitedDuringStartup(code) => "Guild Wars 2 closed during startup ("@
            + exit_status_text(code) + ")."@,
    }
}

/// How Windows writes the exit code `code`.
pub fn exit_status(code: u32) -> (r: String)
    ensures
        r@ == exit_status_text(code),
{
    if code >= 0x8000_0000 {
        let mut s = owned("exit code: 0x");
        crate::text::push_hex(&mut s, code as u64);
        s
    } else {
        let mut s = owned("exit code: ");
        crate::text::push_decimal(&mut s, code as u64);
        s
    }
}

impl LaunchError {
    /// The text shown for the error.
    pub fn message(&self) -> (r: String)
        ensures
            r@ == launch_error_text(*self),
    {
        match self {
            LaunchError::NoGamePath => owned("Guild Wars 2 is not configured yet."),
            LaunchError::SteamNotRunning(n) => {
                let mut s = owned(n.as_str());
                push_str(
                    &mut s,
                    " is a Steam account: start Steam and sign in with the Steam user it is linked to first.",
                );
                s
            },
            LaunchError::SteamInstallMissing(n) => {
                let mut s = owned(n.as_str());
                push_str(
                    &mut s,
                    " is a Steam account, but no Guild Wars 2 installation with Steam support was found. Install Guild Wars 2 through Steam; that installation can be used for all accounts.",
                );
                s
            },
            LaunchError::SetupNeedsExclusive(n) => {
                let mut s = owned("Setting up the login of ");
                push_str(&mut s, n.as_str());
                push_str(&mut s, " needs all other Guild Wars 2 clients to be closed first.");
                s
            },
            LaunchError::SetupClientRunning => owned(
                "An account is currently being set up. Close that client before starting another one.",
            ),
            LaunchError::AlreadyRunning(n) => {
                let mut s = owned(n.as_str());
                push_str(&mut s, " is already running.");
                s
            },
            LaunchError::Profile(inner) => {
                let mut s = owned("could not prepare the account's profile folder: ");
                let m = inner.message();
                push_str(&mut s, m.as_str());
                s
            },
            LaunchError::ProfileLink(inner) => {
                let mut s = owned("could not switch Guild Wars 2 to this account's profile: ");
                let m = inner.message();
                push_str(&mut s, m.as_str());
                s
            },
            LaunchError::Spawn(m) => {
                let mut s = owned("failed to start Guild Wars 2: ");
                push_str(&mut s, m.as_str());
                s
            },
            LaunchError::ExitedDuringStartup(code) => {
                let mut s = owned("Guild Wars 2 closed during startup (");
                let t = exit_status(*code);
                push_str(&mut s, t.as_str());
                push_str(&mut s, ").");
                s
            },
        }
    }
}

/// The client `launch` starts for `account`, or why there is none: the configured client must
/// exist; a Steam account needs a client that Steam installed (`steam_client`, `None` if none
/// was found) and Steam running.
pub open spec fn client_for_spec(
    game_exists: bool,
    provider: Provider,
    name: Seq<char>,
    gw2_path: Seq<char>,
    steam_client: Option<Seq<char>>,
    steam_running: bool,
) -> Result<Seq<char>, LaunchErrorKind> {
    if !game_exists {
        Err(LaunchErrorKind::NoGamePath)
    } else {
        match provider {
            Provider::ArenaNet => Ok(gw2_path),
            Provider::Steam => match steam_client {
                None => Err(LaunchErrorKind::SteamInstallMissing(name)),
                Some(exe) => if !steam_running {
                    Err(LaunchErrorKind::SteamNotRunning(name))
                } else {
                    Ok(exe)
                },
            },
        }
    }
}

/// The variants of [`LaunchError`] that the decisions here produce, with names as sequences.
pub enum LaunchErrorKind {
    NoGamePath,
    SteamNotRunning(Seq<char>),
    SteamInstallMissing(Seq<char>),
    SetupNeedsExclusive(Seq<char>),
    SetupClientRunning,
    AlreadyRunning(Seq<char>),
}

impl LaunchError {
    /// The error as a [`LaunchErrorKind`], for the variants that have one.
    pub open spec fn kind(self) -> Option<LaunchErrorKind> {
        match self {
            LaunchError::NoGamePath => Some(LaunchErrorKind::NoGamePath),
            LaunchError::SteamNotRunning(n) => Some(LaunchErrorKind::SteamNotRunning(n@)),
            LaunchError::SteamInstallMissing(n) => Some(LaunchErrorKind::SteamInstallMissing(n@)),
            LaunchError::SetupNeedsExclusive(n) => Some(LaunchErrorKind::SetupNeedsExclusive(n@)),
            LaunchError::SetupClientRunning => Some(LaunchErrorKind::SetupClientRunning),
            LaunchError::AlreadyRunning(n) => Some(LaunchErrorKind::AlreadyRunning(n@)),
            _ => None,
        }
    }
}

/// The executable to start for `account`: the configured client `gw2_path` (`game_exists`: it
/// is a file) for an ArenaNet account; for a Steam account the client Steam installed
/// (`steam_client`), which needs Steam running.
pub fn client_for(
    game_exists: bool,
    account: &Account,
    gw2_path: &str,
    steam_client: Option<&str>,
    steam_running: bool,
) -> (r: Result<String, LaunchError>)
    ensures
        match client_for_spec(
            game_exists,
            account.provider,
            account.name@,
            gw2_path@,
            match steam_client {
                Some(s) => Some(s@),
                None => None,
            },
            steam_running,
        ) {
            Ok(exe) => r is Ok && r->Ok_0@ == exe,
            Err(kind) => r is Err && r->Err_0.kind() == Some(kind),
        },
{
    if !game_exists {
        return Err(LaunchError::NoGamePath);
    }
    match account.provider {
        Provider::ArenaNet => Ok(owned(gw2_path)),
        Provider::Steam => match steam_client {
            None => Err(LaunchError::SteamInstallMissing(owned(account.name.as_str()))),
            Some(exe) => {
                if !steam_running {
                    Err(LaunchError::SteamNotRunning(owned(account.name.as_str())))
                } else {
                    Ok(owned(exe))
                }
            },
        },
    }
}

/// Whether a start in `mode` sets up the login (starts without `-shareArchive`), or why the
/// start is refused: a client of the account already runs (it holds the account's `Local.dat`); a
/// setup start needs all other clients closed; a normal start is impossible while a setup client
/// holds `Gw2.dat` exclusively. An account without `Local.dat` (`set_up` false) is always set up.
pub open spec fn setup_for_spec(
    name: Seq<char>,
    mode: LaunchMode,
    already_running: bool,
    set_up: bool,
    others_running: bool,
    archive_held: bool,
) -> Result<bool, LaunchErrorKind> {
    let setup = mode == LaunchMode::SetUpLogin || !set_up;
    if already_running {
        Err(LaunchErrorKind::AlreadyRunning(name))
    } else if setup && others_running {
        Err(LaunchErrorKind::SetupNeedsExclusive(name))
    } else if !setup && archive_held {
        Err(LaunchErrorKind::SetupClientRunning)
    } else {
        Ok(setup)
    }
}

/// Whether starting `account` in `mode` sets up its login, from what was observed: a client of
/// the account already runs, its profile has a `Local.dat`, other clients run, and a setup client
/// holds `Gw2.dat`.
pub fn setup_for(
    account: &Account,
    mode: LaunchMode,
    already_running: bool,
    set_up: bool,
    others_running: bool,
    archive_held: bool,
) -> (r: Result<bool, LaunchError>)
    ensures
        match setup_for_spec(
            account.name@,
            mode,
            already_running,
            set_up,
            others_running,
            archive_held,
        ) {
            Ok(setup) => r == Ok::<bool, LaunchError>(setup),
            Err(kind) => r is Err && r->Err_0.kind() == Some(kind),
        },
{
    if already_running {
        return Err(LaunchError::AlreadyRunning(owned(account.name.as_str())));
    }
    let setup = mode == LaunchMode::SetUpLogin || !set_up;
    if setup && others_running {
        return Err(LaunchError::SetupNeedsExclusive(owned(account.name.as_str())));
    }
    if !setup && archive_held {
        return Err(LaunchError::SetupClientRunning);
    }
    Ok(setup)
}

/// The switches of a start: a setup start neither shares the archive nor logs in automatically.
pub fn options_for(setup: bool) -> (r: LaunchOptions)
    ensures
        r.share_archive == !setup,
        r.autologin == !setup,
{
    LaunchOptions { share_archive: !setup, autologin: !setup }
}

/// Extra environment for the client, depending on how the account authenticates.
///
/// A Steam account is started directly (not through `steam.exe -applaunch`, which asks for
/// confirmation of custom arguments and only allows one instance). `SteamAppId` tells the
/// client's Steam API which app it is, so it attaches to the running Steam client, which then
/// signs the game in with its currently signed-in Steam user.
pub fn provider_env(account: &Account) -> (r: Vec<(&'static str, String)>)
    ensures
        account.provider == Provider::ArenaNet ==> r@.len() == 0,
        account.provider == Provider::Steam ==> r@.len() == 1 && r@[0].0@ == STEAM_APP_ID_VAR@
            && r@[0].1@ == decimal(GW2_APP_ID as nat),
{
    match account.provider {
        Provider::ArenaNet => Vec::new(),
        Provider::Steam => {
            let mut env: Vec<(&'static str, String)> = Vec::new();
            env.push((STEAM_APP_ID_VAR, decimal_string(GW2_APP_ID as u64)));
            env
        },
    }
}

/// The name the client's processes run under: the file name of `client`, or the usual one.
pub fn exe_name(client: &str) -> (r: String)
    ensures
        r@ == match file_name_spec(client@) {
            Some(n) => n,
            None => GW2_EXE@,
        },
{
    match file_name(client) {
        Some(n) => n,
        None => owned(GW2_EXE),
    }
}

/// The folder the client is started in: the one it lies in.
pub fn working_dir(client: &str) -> (r: String)
    ensures
        r@ == match parent_spec(client@) {
            Some(d) => d,
            None => client@,
        },
{
    match parent(client) {
        Some(d) => d,
        None => owned(client),
    }
}

/// The game's archive next to the client.
pub fn archive_path(client: &str) -> (r: String)
    ensures
        r@ == with_file_name_spec(client@, "Gw2.dat"@),
{
    with_file_name(client, "Gw2.dat")
}

/// Waiting for a starting client to take its `Local.dat` for good. Times are milliseconds on a
/// clock that does not go back.
#[derive(Debug, Clone, Copy, PartialEq, Eq, Structural)]
pub struct LockWatch {
    /// When the wait began.
    pub started: u64,
    /// Since when `Local.dat` has been locked without interruption, if it is.
    pub locked_since: Option<u64>,
}

/// `now - since`, or 0 if the clock reads earlier.
pub open spec fn elapsed(now: u64, since: u64) -> int {
    if now >= since {
        now - since
    } else {
        0
    }
}

/// What a poll tells: the client owns its `Local.dat` (`Some(true)`), the wait timed out
/// (`Some(false)`), or the wait goes on (`None`).
pub open spec fn lock_poll_spec(watch: LockWatch, now: u64, locked: bool) -> (LockWatch, Option<bool>) {
    let since = if locked {
        match watch.locked_since {
            Some(s) => Some(s),
            None => Some(now),
        }
    } else {
        None
    };
    let next = LockWatch { started: watch.started, locked_since: since };
    if locked && elapsed(now, since->0) >= LOCK_STABLE_FOR_MS {
        (next, Some(true))
    } else if elapsed(now, watch.started) >= STARTUP_TIMEOUT_MS {
        (next, Some(false))
    } else {
        (next, None)
    }
}

impl LockWatch {
    /// A wait that begins at `now`.
    pub fn new(now: u64) -> (r: Self)
        ensures
            r.started == now,
            r.locked_since.is_none(),
    {
        LockWatch { started: now, locked_since: None }
    }

    /// Takes in whether `Local.dat` is locked at `now`; returns whether the wait is over, and
    /// how: the client owns the file once it has been locked for [`LOCK_STABLE_FOR_MS`] without
    /// a break, and the wait gives up after [`STARTUP_TIMEOUT_MS`].
    pub fn poll(&mut self, now: u64, locked: bool) -> (r: Option<bool>)
        ensures
            (*final(self), r) == lock_poll_spec(*old(self), now, locked),
    {
        if locked {
            let since = match self.locked_since {
                Some(s) => s,
                None => now,
            };
            self.locked_since = Some(since);
            if now >= since && now - since >= LOCK_STABLE_FOR_MS {
                return Some(true);
            }
        } else {
            self.locked_since = None;
        }
        if now >= self.started && now - self.started >= STARTUP_TIMEOUT_MS {
            Some(false)
        } else {
            None
        }
    }

    /// The client was replaced by the process that took over from it: the lock is watched anew.
    pub fn restart(&mut self)
        ensures
            final(self).started == old(self).started,
            final(self).locked_since.is_none(),
    {
        self.locked_since = None;
    }
}

/// Whether `v` holds `x`.
fn holds(v: &[u32], x: u32) -> (r: bool)
    ensures
        r == v@.contains(x),
{
    for i in 0..v.len()
        invariant
            forall|j: int| 0 <= j < i ==> v@[j] != x,
    {
        if v[i] == x {
            return true;
        }
    }
    false
}

/// Of `others`, those that are neither `pid` nor in `before`, in the same order.
pub open spec fn new_processes(others: Seq<u32>, pid: u32, before: Seq<u32>) -> Seq<u32>
    decreases others.len(),
{
    if others.len() == 0 {
        Seq::empty()
    } else {
        let rest = new_processes(others.drop_last(), pid, before);
        let o = others.last();
        if o != pid && !before.contains(o) {
            rest.push(o)
        } else {
            rest
        }
    }
}

/// Where to look for the client that took over from `pid`, in order: its child processes, then
/// every other process of the same executable that did not run before the launch (the client may
/// start its successor through a helper process).
pub fn successor_candidates(pid: u32, children: &[u32], same_name: &[u32], before: &[u32]) -> (r: Vec<
    u32,
>)
    ensures
        r@ == children@ + new_processes(same_name@, pid, before@),
{
    let mut out: Vec<u32> = Vec::new();
    for i in 0..children.len()
        invariant
            out@ == children@.take(i as int),
    {
        out.push(children[i]);
        assert(children@.take(i + 1) =~= children@.take(i as int).push(children@[i as int]));
    }
    assert(children@.take(children@.len() as int) =~= children@);
    for i in 0..same_name.len()
        invariant
            out@ == children@ + new_processes(same_name@.take(i as int), pid, before@),
    {
        assert(same_name@.take(i + 1).drop_last() =~= same_name@.take(i as int));
        assert(same_name@.take(i + 1).last() == same_name@[i as int]);
        let o = same_name[i];
        if o != pid && !holds(before, o) {
            out.push(o);
        }
    }
    assert(same_name@.take(same_name@.len() as int) =~= same_name@);
    out
}

/// A client that exits during startup: a successful exit (code 0) may be a restart into an
/// updated executable, whose successor is looked for during [`RESTART_GRACE_MS`]; any other exit
/// is an error.
pub fn exit_during_startup(code: u32) -> (r: Result<(), LaunchError>)
    ensures
        code == 0 ==> r is Ok,
        code != 0 ==> r == Err::<(), LaunchError>(LaunchError::ExitedDuringStartup(code)),
{
    if code != 0 {
        Err(LaunchError::ExitedDuringStartup(code))
    } else {
        Ok(())
    }
}

/// A lock that has just been seen to hold for the stable time ends the wait successfully at
/// once, and a wait that already timed out never reports success without the lock.
pub proof fn lemma_lock_poll(watch: LockWatch, now: u64, locked: bool)
    ensures
        !locked ==> lock_poll_spec(watch, now, locked).0.locked_since is None,
        !locked ==> lock_poll_spec(watch, now, locked).1 != Some(true),
        lock_poll_spec(watch, now, locked).0.started == watch.started,
        locked && watch.locked_since is Some && elapsed(now, watch.locked_since->0)
            >= LOCK_STABLE_FOR_MS ==> lock_poll_spec(watch, now, locked).1 == Some(true),
{
}


/// Which message the window shows for a failed start.
#[derive(Debug, Clone, Copy, PartialEq, Eq, Structural)]
pub enum LaunchFailure {
    NoGamePath,
    SteamNotRunning,
    SteamInstallMissing,
    SetupNeedsExclusive,
    SetupClientRunning,
    AlreadyRunning,
    Profile,
    ProfileLink,
    Spawn,
    ExitedDuringStartup,
}

/// The message for a launch error and the technical detail filled into it: the text of the
/// underlying error, or the exit code (as a signed number, as `ExitStatus::code` gives it).
pub fn launch_failure(error: &LaunchError) -> (r: (LaunchFailure, String))
    ensures
        match error {
            LaunchError::NoGamePath => r.0 == LaunchFailure::NoGamePath && r.1@.len() == 0,
            LaunchError::SteamNotRunning(_) => r.0 == LaunchFailure::SteamNotRunning && r.1@.len() == 0,
            LaunchError::SteamInstallMissing(_) => r.0 == LaunchFailure::SteamInstallMissing
                && r.1@.len() == 0,
            LaunchError::SetupNeedsExclusive(_) => r.0 == LaunchFailure::SetupNeedsExclusive
                && r.1@.len() == 0,
            LaunchError::SetupClientRunning => r.0 == LaunchFailure::SetupClientRunning && r.1@.len()
                == 0,
            LaunchError::AlreadyRunning(_) => r.0 == LaunchFailure::AlreadyRunning && r.1@.len() == 0,
            LaunchError::Profile(inner) => r.0 == LaunchFailure::Profile && r.1@
                == crate::profile::store_error_text(*inner),
            LaunchError::ProfileLink(inner) => r.0 == LaunchFailure::ProfileLink && r.1@
                == crate::profile_link::link_error_text(*inner),
            LaunchError::Spawn(m) => r.0 == LaunchFailure::Spawn && r.1@ == m@,
            LaunchError::ExitedDuringStartup(code) => r.0 == LaunchFailure::ExitedDuringStartup
                && r.1@ == crate::text::int_text((*code as i32) as int),
        },
{
    match error {
        LaunchError::NoGamePath => (LaunchFailure::NoGamePath, String::new()),
        LaunchError::SteamNotRunning(_) => (LaunchFailure::SteamNotRunning, String::new()),
        LaunchError::SteamInstallMissing(_) => (LaunchFailure::SteamInstallMissing, String::new()),
        LaunchError::SetupNeedsExclusive(_) => (LaunchFailure::SetupNeedsExclusive, String::new()),
        LaunchError::SetupClientRunning => (LaunchFailure::SetupClientRunning, String::new()),
        LaunchError::AlreadyRunning(_) => (LaunchFailure::AlreadyRunning, String::new()),
        LaunchError::Profile(inner) => (LaunchFailure::Profile, inner.message()),
        LaunchError::ProfileLink(inner) => (LaunchFailure::ProfileLink, inner.message()),
        LaunchError::Spawn(m) => (LaunchFailure::Spawn, owned(m.as_str())),
        LaunchError::ExitedDuringStartup(code) => (
            LaunchFailure::ExitedDuringStartup,
            crate::text::i32_string(*code as i32),
        ),
    }
}

} // verus!
