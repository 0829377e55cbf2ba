//! Breakbar's persisted configuration.
//!
//! The config never contains credentials; logins live exclusively in per-account `Local.dat`
//! files. Reading and writing the file is the application's business; this module holds the data
//! and its defaults.

use vstd::prelude::*;

use crate::account::Account;
use crate::companion::{BLISH_HUD, CompanionApp, CompanionId, Scope, Trigger};
use crate::text::owned;

verus! {

/// Format version written into new config files.
pub const CURRENT_VERSION: u32 = 1;

/// What happens to the main window right after starting an account (not on setup or a manual
/// stop).
#[derive(Debug, Clone, Copy, PartialEq, Eq, Structural)]
pub enum AfterStart {
    /// Leaves the window as it is.
    KeepOpen,
    /// Hides it to the tray icon, like the close button does.
    MinimizeToTray,
    /// Exits Breakbar entirely.
    Close,
}

impl Default for AfterStart {
    fn default() -> (r: Self)
        ensures
            r == AfterStart::MinimizeToTray,
    {
        AfterStart::MinimizeToTray
    }
}

/// Language of the UI.
#[derive(Debug, Clone, Copy, PartialEq, Eq, Structural)]
pub enum LanguageChoice {
    /// Follows the Windows display language (German if it is German, English otherwise).
    System,
    English,
    German,
}

impl Default for LanguageChoice {
    fn default() -> (r: Self)
        ensures
            r == LanguageChoice::System,
    {
        LanguageChoice::System
    }
}

/// Which color theme the UI uses.
#[derive(Debug, Clone, Copy, PartialEq, Eq, Structural)]
pub enum ThemeChoice {
    /// Follows the Windows app theme.
    System,
    Light,
    Dark,
}

impl Default for ThemeChoice {
    fn default() -> (r: Self)
        ensures
            r == ThemeChoice::System,
    {
        ThemeChoice::System
    }
}

/// Frame rate limit passed to the game as `-fps:N`. The game only applies it during loading
/// screens; it is independent of the in-game Frame Limiter.
#[derive(Debug, Clone, Copy, PartialEq, Eq, Structural)]
pub enum FpsLimit {
    Fps60,
    Fps30,
    Unlimited,
}

impl Default for FpsLimit {
    fn default() -> (r: Self)
        ensures
            r == FpsLimit::Fps60,
    {
        FpsLimit::Fps60
    }
}

impl FpsLimit {
    /// The frame rate to pass to the game, `None` for no limit.
    pub fn frames_per_second(self) -> (r: Option<u32>)
        ensures
            r == (match self {
                FpsLimit::Fps60 => Some(60u32),
                FpsLimit::Fps30 => Some(30u32),
                FpsLimit::Unlimited => None,
            }),
    {
        match self {
            FpsLimit::Fps60 => Some(60),
            FpsLimit::Fps30 => Some(30),
            FpsLimit::Unlimited => None,
        }
    }
}

/// How the instance-switcher overlay behaves.
#[derive(Debug, Clone, Copy, PartialEq, Eq, Structural)]
pub struct OverlaySettings {
    /// The overlay may be shown at all.
    pub enabled: bool,
    /// It is only shown while a client runs (otherwise whenever Breakbar runs).
    pub only_when_running: bool,
    /// The overlay cannot be dragged.
    pub lock_position: bool,
    /// Opacity in percent while the pointer is not on it (30 to 100); it is fully opaque under the
    /// pointer.
    pub idle_opacity: u8,
}

/// `v` limited to `lo..=hi`.
pub open spec fn clamped(v: int, lo: int, hi: int) -> int {
    if v < lo {
        lo
    } else if v > hi {
        hi
    } else {
        v
    }
}

impl OverlaySettings {
    /// The lowest idle opacity, in percent.
    pub const MIN_OPACITY: u8 = 30;

    /// The highest idle opacity, in percent.
    pub const MAX_OPACITY: u8 = 100;

    /// `idle_opacity` limited to the allowed range (a hand-edited config may hold anything).
    pub fn opacity_percent(self) -> (r: u8)
        ensures
            r == clamped(self.idle_opacity as int, Self::MIN_OPACITY as int, Self::MAX_OPACITY as int),
    {
        if self.idle_opacity < Self::MIN_OPACITY {
            Self::MIN_OPACITY
        } else if self.idle_opacity > Self::MAX_OPACITY {
            Self::MAX_OPACITY
        } else {
            self.idle_opacity
        }
    }
}

impl Default for OverlaySettings {
    fn default() -> (r: Self)
        ensures
            r.enabled,
            r.only_when_running,
            !r.lock_position,
            r.idle_opacity == 58,
    {
        Self { enabled: true, only_when_running: true, lock_position: false, idle_opacity: 58 }
    }
}

/// A saved screen position, in physical pixels.
#[derive(Debug, Clone, Copy, PartialEq, Eq, Structural)]
pub struct OverlayPosition {
    pub x: i32,
    pub y: i32,
}

/// The persisted application configuration.
#[derive(Debug, Clone, PartialEq, Eq)]
pub struct Config {
    pub version: u32,
    /// Path to `Gw2-64.exe`.
    pub gw2_path: Option<String>,
    pub accounts: Vec<Account>,
    pub companions: Vec<CompanionApp>,
    pub after_start: AfterStart,
    pub fps_limit: FpsLimit,
    pub theme: ThemeChoice,
    pub language: LanguageChoice,
    pub overlay: OverlaySettings,
    /// Last dragged-to position of the instance-switcher overlay. `None` before it's ever been
    /// moved, so it starts at a fixed default position.
    pub overlay_position: Option<OverlayPosition>,
}

impl Default for Config {
    fn default() -> (r: Self)
        ensures
            r.version == CURRENT_VERSION,
            r.gw2_path.is_none(),
            r.accounts@.len() == 0,
            r.companions@.len() == 0,
            r.after_start == AfterStart::MinimizeToTray,
            r.fps_limit == FpsLimit::Fps60,
            r.theme == ThemeChoice::System,
            r.language == LanguageChoice::System,
            r.overlay == (OverlaySettings {
                enabled: true,
                only_when_running: true,
                lock_position: false,
                idle_opacity: 58,
            }),
            r.overlay_position.is_none(),
    {
        Self {
            version: CURRENT_VERSION,
            gw2_path: None,
            accounts: Vec::new(),
            companions: Vec::new(),
            after_start: AfterStart::default(),
            fps_limit: FpsLimit::default(),
            theme: ThemeChoice::default(),
            language: LanguageChoice::default(),
            overlay: OverlaySettings::default(),
            overlay_position: None,
        }
    }
}

/// The opacity the overlay is shown with always lies in the allowed range, and a value inside it
/// is kept as it is.
pub proof fn lemma_opacity_in_range(settings: OverlaySettings)
    ensures
        OverlaySettings::MIN_OPACITY <= clamped(settings.idle_opacity as int, OverlaySettings::MIN_OPACITY as int, OverlaySettings::MAX_OPACITY as int)
            <= OverlaySettings::MAX_OPACITY,
        OverlaySettings::MIN_OPACITY <= settings.idle_opacity <= OverlaySettings::MAX_OPACITY ==> clamped(
            settings.idle_opacity as int,
            OverlaySettings::MIN_OPACITY as int,
            OverlaySettings::MAX_OPACITY as int,
        ) == settings.idle_opacity,
{
}


/// The highest companion id among `apps`, 0 if there are none.
pub open spec fn max_companion_id(apps: Seq<CompanionApp>) -> nat
    decreases apps.len(),
{
    if apps.len() == 0 {
        0
    } else {
        let rest = max_companion_id(apps.drop_last());
        let id = apps.last().id.0 as nat;
        if id > rest {
            id
        } else {
            rest
        }
    }
}

/// Sets the path of the Blish HUD preset: the first app named Blish HUD gets the new `exe`; if
/// there is none, the preset is added with the next free id.
pub fn set_blish_path(apps: &mut Vec<CompanionApp>, exe: &str)
    requires
        max_companion_id(old(apps)@) < u32::MAX,
    ensures
        match crate::accounts::first_named(old(apps)@, BLISH_HUD@) {
            Some(p) => final(apps)@.len() == old(apps)@.len() && final(apps)@[p].exe@ == exe@
                && final(apps)@[p].id == old(apps)@[p].id && final(apps)@[p].name@ == old(apps)@[p].name@
                && final(apps)@[p].args@ == old(apps)@[p].args@ && final(apps)@[p].scope == old(apps)@[p].scope
                && final(apps)@[p].start_when == old(apps)@[p].start_when
                && final(apps)@[p].close_with_game == old(apps)@[p].close_with_game
                && forall|j: int| 0 <= j < old(apps)@.len() && j != p ==> #[trigger] final(apps)@[j] == old(apps)@[j],
            None => final(apps)@.len() == old(apps)@.len() + 1 && final(apps)@.drop_last() == old(apps)@
                && final(apps)@.last().id.0 == max_companion_id(old(apps)@) + 1
                && final(apps)@.last().name@ == BLISH_HUD@ && final(apps)@.last().exe@ == exe@
                && final(apps)@.last().args@ == "--pid {pid} --mumble {mumble}"@
                && final(apps)@.last().scope == Scope::PerClient
                && final(apps)@.last().start_when == Trigger::WindowShown
                && final(apps)@.last().close_with_game,
        },
{
    match crate::accounts::blish_hud_index(apps.as_slice()) {
        Some(p) => {
            let old_app = &apps[p];
            let updated = CompanionApp {
                id: old_app.id,
                name: owned(old_app.name.as_str()),
                exe: owned(exe),
                args: owned(old_app.args.as_str()),
                scope: old_app.scope,
                start_when: old_app.start_when,
                close_with_game: old_app.close_with_game,
            };
            apps.set(p, updated);
        },
        None => {
            let mut max: u32 = 0;
            for i in 0..apps.len()
                invariant
                    max == max_companion_id(apps@.take(i as int)),
                    max_companion_id(apps@) < u32::MAX,
            {
                assert(apps@.take(i + 1).drop_last() =~= apps@.take(i as int));
                assert(apps@.take(i + 1).last() == apps@[i as int]);
                if apps[i].id.0 > max {
                    max = apps[i].id.0;
                }
            }
            assert(apps@.take(apps@.len() as int) =~= apps@);
            let ghost before = apps@;
            apps.push(CompanionApp::blish_hud(CompanionId(max + 1), exe));
            assert(apps@.drop_last() =~= before);
        },
    }
}

/// The idle opacity set with the slider, limited to the allowed range.
pub fn opacity_from_slider(percent: i32) -> (r: u8)
    ensures
        r == clamped(percent as int, OverlaySettings::MIN_OPACITY as int, OverlaySettings::MAX_OPACITY as int),
{
    if percent < OverlaySettings::MIN_OPACITY as i32 {
        OverlaySettings::MIN_OPACITY
    } else if percent > OverlaySettings::MAX_OPACITY as i32 {
        OverlaySettings::MAX_OPACITY
    } else {
        percent as u8
    }
}

/// What the window does about the client path when Breakbar starts.
#[derive(Debug, Clone, Copy, PartialEq, Eq, Structural)]
pub enum Startup {
    /// First start: the setup asks where Guild Wars 2 is, suggesting what detection finds.
    Setup,
    /// The configured path is checked, and a problem with it is shown.
    CheckPath,
    /// No path yet: one is detected and saved.
    Detect,
}

/// What the window does about the client path when Breakbar starts, given whether a path is
/// configured and whether there was no config file yet.
pub fn startup(has_path: bool, first_start: bool) -> (r: Startup)
    ensures
        r == (if has_path {
            Startup::CheckPath
        } else if first_start {
            Startup::Setup
        } else {
            Startup::Detect
        }),
{
    if has_path {
        Startup::CheckPath
    } else if first_start {
        Startup::Setup
    } else {
        Startup::Detect
    }
}

} // verus!
