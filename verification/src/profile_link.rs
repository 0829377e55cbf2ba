//! Pointing the real `%APPDATA%\Guild Wars 2` at an account's own profile during a launch.
//!
//! Guild Wars 2 only ever reads and writes `%APPDATA%\Guild Wars 2`. That real folder is therefore
//! turned into an NTFS junction which normally points at a shared default profile, and is pointed
//! at an account's own profile only for the few seconds it takes that account's client to start
//! and take its `Local.dat`. Retargeting the junction while other clients run is safe: it changes
//! the folder's reparse point, not the files those clients hold open.
//!
//! This module decides what has to be done to the folders, as a list of [`LinkStep`]s, from what
//! the application observed of them; the application carries the steps out in order.

use vstd::prelude::*;

use crate::account::AccountId;
use crate::paths::{join, join_spec};
use crate::profile::{StoreError, profile_dir, profile_dir_spec, shared_profile_dir};
use crate::text::{owned, push_str};

verus! {

/// The name of the game's data folder, in `%APPDATA%` and in every profile.
pub const GW2_FOLDER: &'static str = "Guild Wars 2";

/// What went wrong while pointing the game's data folder somewhere.
#[derive(Debug, Clone, PartialEq, Eq)]
pub enum ProfileLinkError {
    /// The `APPDATA` environment variable is not set.
    NoAppData,
    /// The profile folder could not be determined.
    Profile(StoreError),
    /// A folder could not be prepared.
    Io { path: String, message: String },
    /// Both the real folder and the shared profile exist as ordinary folders; one of them has to
    /// be moved away so that neither is overwritten.
    Conflict { real_dir: String, shared: String },
    /// The junction could not be created.
    Link(String),
}

/// The text of a [`ProfileLinkError`].
pub open spec fn link_error_text(e: ProfileLinkError) -> Seq<char> {
    match e {
        ProfileLinkError::NoAppData => "the APPDATA environment variable is not set"@,
        ProfileLinkError::Profile(inner) => "could not determine the profile folder: "@
            + crate::profile::store_error_text(inner),
        ProfileLinkError::Io { path, message } => "could not prepare "@ + path@ + ": "@ + message@,
        ProfileLinkError::Conflict { real_dir, shared } => "both "@ + real_dir@ + " and "@ + shared@
            + " exist as ordinary folders; move one of them away so Breakbar doesn't overwrite either"@,
        ProfileLinkError::Link(m) => "could not link Guild Wars 2's data folder: "@ + m@,
    }
}

impl ProfileLinkError {
    /// The text shown for the error.
    pub fn message(&self) -> (r: String)
        ensures
            r@ == link_error_text(*self),
    {
        match self {
            ProfileLinkError::NoAppData => owned("the APPDATA environment variable is not set"),
            ProfileLinkError::Profile(inner) => {
                let mut s = owned("could not determine the profile folder: ");
                let m = inner.message();
                push_str(&mut s, m.as_str());
                s
            },
            ProfileLinkError::Io { path, message } => {
                let mut s = owned("could not prepare ");
                push_str(&mut s, path.as_str());
                push_str(&mut s, ": ");
                push_str(&mut s, message.as_str());
                s
            },
            ProfileLinkError::Conflict { real_dir, shared } => {
                let mut s = owned("both ");
                push_str(&mut s, real_dir.as_str());
                push_str(&mut s, " and ");
                push_str(&mut s, shared.as_str());
                push_str(
                    &mut s,
                    " exist as ordinary folders; move one of them away so Breakbar doesn't overwrite either",
                );
                s
            },
            ProfileLinkError::Link(m) => {
                let mut s = owned("could not link Guild Wars 2's data folder: ");
                push_str(&mut s, m.as_str());
                s
            },
        }
    }
}

/// The folder the account's client reads and writes as `%APPDATA%\Guild Wars 2`, for the value of
/// `%LOCALAPPDATA%` (`None`: not set).
pub fn account_gw2_dir(local_app_data: Option<&str>, account_id: AccountId) -> (r: Result<
    String,
    ProfileLinkError,
>)
    ensures
        match local_app_data {
            None => r == Err::<String, ProfileLinkError>(
                ProfileLinkError::Profile(StoreError::NoLocalAppData),
            ),
            Some(local) => r is Ok && r->Ok_0@ == join_spec(
                profile_dir_spec(local@, account_id),
                GW2_FOLDER@,
            ),
        },
{
    match profile_dir(local_app_data, account_id) {
        Ok(dir) => Ok(join(dir.as_str(), GW2_FOLDER)),
        Err(e) => Err(ProfileLinkError::Profile(e)),
    }
}

/// The real `%APPDATA%\Guild Wars 2`, for the value of `%APPDATA%` (`None`: not set).
pub fn real_gw2_dir(app_data: Option<&str>) -> (r: Result<String, ProfileLinkError>)
    ensures
        match app_data {
            None => r == Err::<String, ProfileLinkError>(ProfileLinkError::NoAppData),
            Some(a) => r is Ok && r->Ok_0@ == join_spec(a@, GW2_FOLDER@),
        },
{
    match app_data {
        None => Err(ProfileLinkError::NoAppData),
        Some(a) => Ok(join(a, GW2_FOLDER)),
    }
}

/// The game's data folder inside the shared profile, for the value of `%LOCALAPPDATA%`.
pub fn shared_gw2_dir(local_app_data: Option<&str>) -> (r: Result<String, ProfileLinkError>)
    ensures
        match local_app_data {
            None => r == Err::<String, ProfileLinkError>(
                ProfileLinkError::Profile(StoreError::NoLocalAppData),
            ),
            Some(local) => r is Ok && r->Ok_0@ == join_spec(
                join_spec(crate::profile::profiles_root_spec(local@), crate::profile::SHARED_PROFILE@),
                GW2_FOLDER@,
            ),
        },
{
    match shared_profile_dir(local_app_data) {
        Ok(dir) => Ok(join(dir.as_str(), GW2_FOLDER)),
        Err(e) => Err(ProfileLinkError::Profile(e)),
    }
}

/// One thing to do to the folders.
#[derive(Debug, Clone, PartialEq, Eq)]
pub enum LinkStep {
    /// Create the folder (and its parents) if it does not exist.
    CreateDir(String),
    /// Rename the folder `from` to `to`.
    Move { from: String, to: String },
    /// Set a junction on the (empty) folder `link` that points at `target`.
    Junction { link: String, target: String },
}

/// What the application observed of the real folder and the shared profile.
#[derive(Debug, Clone, Copy, PartialEq, Eq, Structural)]
pub struct LinkState {
    /// The real folder has a reparse point (a junction) on it.
    pub real_is_junction: bool,
    /// The real folder exists as a folder (a junction counts too).
    pub real_is_dir: bool,
    /// The shared profile's data folder exists.
    pub shared_exists: bool,
    /// The real folder already resolves to the target of the call.
    pub real_resolves_to_target: bool,
}

/// The steps that make `real_dir` a junction, in order. The first time Breakbar runs, `real_dir` is still
/// an ordinary folder holding the existing installation's data: that folder is moved (never
/// deleted or overwritten) to become the shared profile, so clients started outside Breakbar keep
/// working exactly as before.
pub open spec fn ensure_linked_spec(real_dir: Seq<char>, shared: Seq<char>, shared_parent: Option<
    Seq<char>,
>, state: LinkState) -> Result<Seq<LinkStepView>, ()> {
    if state.real_is_junction {
        Ok(seq![LinkStepView::CreateDir(shared)])
    } else if state.real_is_dir {
        if state.shared_exists {
            Err(())
        } else {
            let prefix = match shared_parent {
                Some(p) => seq![LinkStepView::CreateDir(p)],
                None => Seq::empty(),
            };
            Ok(prefix + seq![
                LinkStepView::Move { from: real_dir, to: shared },
                LinkStepView::CreateDir(real_dir),
                LinkStepView::Junction { link: real_dir, target: shared },
            ])
        }
    } else {
        Ok(seq![
            LinkStepView::CreateDir(shared),
            LinkStepView::CreateDir(real_dir),
            LinkStepView::Junction { link: real_dir, target: shared },
        ])
    }
}

/// A [`LinkStep`] with its paths as character sequences.
pub enum LinkStepView {
    CreateDir(Seq<char>),
    Move { from: Seq<char>, to: Seq<char> },
    Junction { link: Seq<char>, target: Seq<char> },
}

impl LinkStep {
    /// The step with its paths as character sequences.
    pub open spec fn view_of(self) -> LinkStepView {
        match self {
            LinkStep::CreateDir(p) => LinkStepView::CreateDir(p@),
            LinkStep::Move { from, to } => LinkStepView::Move { from: from@, to: to@ },
            LinkStep::Junction { link, target } => LinkStepView::Junction {
                link: link@,
                target: target@,
            },
        }
    }
}

/// The views of a list of steps.
pub open spec fn step_views(steps: Seq<LinkStep>) -> Seq<LinkStepView> {
    steps.map_values(|s: LinkStep| s.view_of())
}

/// The steps that point `real_dir` at `target`: first those that make it a junction at all, then,
/// unless it already resolves to `target` afterwards, creating `target` and retargeting the
/// junction. After a first link the junction points at `shared`.
pub open spec fn point_to_spec(
    real_dir: Seq<char>,
    shared: Seq<char>,
    shared_parent: Option<Seq<char>>,
    target: Seq<char>,
    state: LinkState,
) -> Result<Seq<LinkStepView>, ()> {
    match ensure_linked_spec(real_dir, shared, shared_parent, state) {
        Err(()) => Err(()),
        Ok(prep) => {
            let resolves = if state.real_is_junction {
                state.real_resolves_to_target
            } else {
                target == shared
            };
            if resolves {
                Ok(prep)
            } else {
                Ok(prep + seq![
                    LinkStepView::CreateDir(target),
                    LinkStepView::Junction { link: real_dir, target: target },
                ])
            }
        },
    }
}

/// The steps that point the real folder `real_dir` at `target` (an account's data folder or the
/// shared one), given the shared profile's data folder `shared` and the folder that holds it, and
/// what was observed of the folders. Fails with [`ProfileLinkError::Conflict`] if both `real_dir` and
/// `shared` exist as ordinary folders.
pub fn point_to(real_dir: &str, shared: &str, shared_parent: Option<&str>, target: &str, state: LinkState) -> (r:
    Result<Vec<LinkStep>, ProfileLinkError>)
    ensures
        match point_to_spec(
            real_dir@,
            shared@,
            match shared_parent {
                Some(p) => Some(p@),
                None => None,
            },
            target@,
            state,
        ) {
            Ok(steps) => r is Ok && step_views(r->Ok_0@) == steps,
            Err(()) => r is Err && (match r->Err_0 {
                ProfileLinkError::Conflict { real_dir: a, shared: b } => a@ == real_dir@ && b@ == shared@,
                _ => false,
            }),
        },
{
    let mut steps: Vec<LinkStep> = Vec::new();
    if state.real_is_junction {
        steps.push(LinkStep::CreateDir(owned(shared)));
    } else if state.real_is_dir {
        if state.shared_exists {
            return Err(ProfileLinkError::Conflict { real_dir: owned(real_dir), shared: owned(shared) });
        }
        match shared_parent {
            Some(p) => steps.push(LinkStep::CreateDir(owned(p))),
            None => {},
        }
        steps.push(LinkStep::Move { from: owned(real_dir), to: owned(shared) });
        steps.push(LinkStep::CreateDir(owned(real_dir)));
        steps.push(LinkStep::Junction { link: owned(real_dir), target: owned(shared) });
    } else {
        steps.push(LinkStep::CreateDir(owned(shared)));
        steps.push(LinkStep::CreateDir(owned(real_dir)));
        steps.push(LinkStep::Junction { link: owned(real_dir), target: owned(shared) });
    }
    let resolves = if state.real_is_junction {
        state.real_resolves_to_target
    } else {
        crate::text::str_eq(target, shared)
    };
    if !resolves {
        steps.push(LinkStep::CreateDir(owned(target)));
        steps.push(LinkStep::Junction { link: owned(real_dir), target: owned(target) });
    }
    Ok(steps)
}

/// Whether the real folder must be pointed back at the shared profile when no launch is in
/// progress: only if it is a junction that points somewhere else, which is what a launch that
/// never finished (a crash, the process killed) leaves behind. An ordinary folder is left alone,
/// so recovering never migrates an installation on its own.
pub fn is_stranded(real_is_junction: bool, real_resolves_to_shared: bool) -> (r: bool)
    ensures
        r == (real_is_junction && !real_resolves_to_shared),
{
    real_is_junction && !real_resolves_to_shared
}


/// The real `%APPDATA%\Guild Wars 2` for the value `a` of `%APPDATA%`.
pub open spec fn real_dir_spec(a: Seq<char>) -> Seq<char> {
    join_spec(a, GW2_FOLDER@)
}

/// The game's data folder in the shared profile, for the value `local` of `%LOCALAPPDATA%`.
pub open spec fn shared_dir_spec(local: Seq<char>) -> Seq<char> {
    join_spec(
        join_spec(crate::profile::profiles_root_spec(local), crate::profile::SHARED_PROFILE@),
        GW2_FOLDER@,
    )
}

/// The steps that point the real folder at `target`, with the folders derived from the values of
/// `%APPDATA%` (`a`) and `%LOCALAPPDATA%` (`local`).
pub open spec fn point_at_spec(a: Seq<char>, local: Seq<char>, target: Seq<char>, state: LinkState) -> Result<
    Seq<LinkStepView>,
    (),
> {
    point_to_spec(
        real_dir_spec(a),
        shared_dir_spec(local),
        crate::paths::parent_spec(shared_dir_spec(local)),
        target,
        state,
    )
}

/// The steps to take, or the error, for pointing the real folder at `target`.
fn point_at(app_data: Option<&str>, local_app_data: Option<&str>, target: &str, state: LinkState) -> (r:
    Result<Vec<LinkStep>, ProfileLinkError>)
    ensures
        app_data is None ==> r == Err::<Vec<LinkStep>, ProfileLinkError>(ProfileLinkError::NoAppData),
        app_data is Some && local_app_data is None ==> r == Err::<Vec<LinkStep>, ProfileLinkError>(
            ProfileLinkError::Profile(StoreError::NoLocalAppData),
        ),
        app_data is Some && local_app_data is Some ==> match point_at_spec(
            app_data->0@,
            local_app_data->0@,
            target@,
            state,
        ) {
            Ok(steps) => r is Ok && step_views(r->Ok_0@) == steps,
            Err(()) => r matches Err(ProfileLinkError::Conflict { real_dir: x, shared: y }) && x@
                == real_dir_spec(app_data->0@) && y@ == shared_dir_spec(local_app_data->0@),
        },
{
    let real_dir = real_gw2_dir(app_data)?;
    let shared = shared_gw2_dir(local_app_data)?;
    let shared_parent = crate::paths::parent(shared.as_str());
    match shared_parent {
        Some(p) => point_to(real_dir.as_str(), shared.as_str(), Some(p.as_str()), target, state),
        None => point_to(real_dir.as_str(), shared.as_str(), None, target, state),
    }
}

/// The steps that point the real `%APPDATA%\Guild Wars 2` at the account's own profile, so the
/// client about to start finds that account's `Local.dat`; for the values of `%APPDATA%` and
/// `%LOCALAPPDATA%` (`None`: not set) and what was observed of the folders.
pub fn point_to_account(
    app_data: Option<&str>,
    local_app_data: Option<&str>,
    account_id: AccountId,
    state: LinkState,
) -> (r: Result<Vec<LinkStep>, ProfileLinkError>)
    ensures
        local_app_data is None ==> r == Err::<Vec<LinkStep>, ProfileLinkError>(
            ProfileLinkError::Profile(StoreError::NoLocalAppData),
        ),
        local_app_data is Some && app_data is None ==> r == Err::<Vec<LinkStep>, ProfileLinkError>(
            ProfileLinkError::NoAppData,
        ),
        app_data is Some && local_app_data is Some ==> match point_at_spec(
            app_data->0@,
            local_app_data->0@,
            join_spec(profile_dir_spec(local_app_data->0@, account_id), GW2_FOLDER@),
            state,
        ) {
            Ok(steps) => r is Ok && step_views(r->Ok_0@) == steps,
            Err(()) => r matches Err(ProfileLinkError::Conflict { real_dir: x, shared: y }) && x@
                == real_dir_spec(app_data->0@) && y@ == shared_dir_spec(local_app_data->0@),
        },
{
    let target = account_gw2_dir(local_app_data, account_id)?;
    point_at(app_data, local_app_data, target.as_str(), state)
}

/// The steps that point the real `%APPDATA%\Guild Wars 2` back at the shared default profile.
pub fn point_to_shared(app_data: Option<&str>, local_app_data: Option<&str>, state: LinkState) -> (r:
    Result<Vec<LinkStep>, ProfileLinkError>)
    ensures
        local_app_data is None ==> r == Err::<Vec<LinkStep>, ProfileLinkError>(
            ProfileLinkError::Profile(StoreError::NoLocalAppData),
        ),
        local_app_data is Some && app_data is None ==> r == Err::<Vec<LinkStep>, ProfileLinkError>(
            ProfileLinkError::NoAppData,
        ),
        app_data is Some && local_app_data is Some ==> match point_at_spec(
            app_data->0@,
            local_app_data->0@,
            shared_dir_spec(local_app_data->0@),
            state,
        ) {
            Ok(steps) => r is Ok && step_views(r->Ok_0@) == steps,
            Err(()) => r matches Err(ProfileLinkError::Conflict { real_dir: x, shared: y }) && x@
                == real_dir_spec(app_data->0@) && y@ == shared_dir_spec(local_app_data->0@),
        },
{
    let shared = shared_gw2_dir(local_app_data)?;
    point_at(app_data, local_app_data, shared.as_str(), state)
}

/// What recovering from a launch that never finished does: nothing (`None`) unless the real folder
/// is a junction that does not point at the shared profile (`state.real_resolves_to_target`, the
/// target being the shared profile), in which case the steps that point it back.
pub fn restore_shared_if_stranded(app_data: Option<&str>, local_app_data: Option<&str>, state: LinkState) -> (r:
    Result<Option<Vec<LinkStep>>, ProfileLinkError>)
    ensures
        app_data is None ==> r == Err::<Option<Vec<LinkStep>>, ProfileLinkError>(
            ProfileLinkError::NoAppData,
        ),
        app_data is Some && !state.real_is_junction ==> r == Ok::<
            Option<Vec<LinkStep>>,
            ProfileLinkError,
        >(None),
        app_data is Some && state.real_is_junction && local_app_data is None ==> r == Err::<
            Option<Vec<LinkStep>>,
            ProfileLinkError,
        >(ProfileLinkError::Profile(StoreError::NoLocalAppData)),
        app_data is Some && local_app_data is Some && state.real_is_junction
            && state.real_resolves_to_target ==> r == Ok::<
            Option<Vec<LinkStep>>,
            ProfileLinkError,
        >(None),
        app_data is Some && local_app_data is Some && state.real_is_junction
            && !state.real_resolves_to_target ==> match point_at_spec(
            app_data->0@,
            local_app_data->0@,
            shared_dir_spec(local_app_data->0@),
            state,
        ) {
            Ok(steps) => r is Ok && r->Ok_0 is Some && step_views(r->Ok_0->0@) == steps,
            Err(()) => r matches Err(ProfileLinkError::Conflict { real_dir: x, shared: y }) && x@
                == real_dir_spec(app_data->0@) && y@ == shared_dir_spec(local_app_data->0@),
        },
{
    let real_dir = real_gw2_dir(app_data)?;
    if !state.real_is_junction {
        return Ok(None);
    }
    let shared = shared_gw2_dir(local_app_data)?;
    if !is_stranded(state.real_is_junction, state.real_resolves_to_target) {
        return Ok(None);
    }
    let steps = point_at(app_data, local_app_data, shared.as_str(), state)?;
    Ok(Some(steps))
}


/// Whether `steps` move a folder.
pub open spec fn moves_a_folder(steps: Seq<LinkStepView>) -> bool {
    exists|i: int| 0 <= i < steps.len() && #[trigger] steps[i] is Move
}

/// Linking never overwrites data: a folder is only ever moved when the real folder is an ordinary
/// folder and the shared profile does not exist yet (it becomes the shared profile), and when both
/// exist as ordinary folders nothing is done at all.
pub proof fn lemma_never_overwrites(
    real_dir: Seq<char>,
    shared: Seq<char>,
    shared_parent: Option<Seq<char>>,
    target: Seq<char>,
    state: LinkState,
)
    ensures
        (match point_to_spec(real_dir, shared, shared_parent, target, state) {
            Ok(steps) => moves_a_folder(steps) ==> !state.real_is_junction && state.real_is_dir
                && !state.shared_exists,
            Err(()) => true,
        }),
        !state.real_is_junction && state.real_is_dir && state.shared_exists ==> point_to_spec(
            real_dir,
            shared,
            shared_parent,
            target,
            state,
        ) is Err,
{
    match point_to_spec(real_dir, shared, shared_parent, target, state) {
        Ok(steps) => {
            if moves_a_folder(steps) {
                let i = choose|i: int| 0 <= i < steps.len() && #[trigger] steps[i] is Move;
                if state.real_is_junction || !state.real_is_dir {
                    let prep = ensure_linked_spec(real_dir, shared, shared_parent, state)->Ok_0;
                    assert(forall|j: int| 0 <= j < prep.len() ==> !(#[trigger] prep[j] is Move));
                    if i >= prep.len() {
                        assert(steps[i] is CreateDir || steps[i] is Junction);
                    }
                }
            }
        },
        Err(()) => {},
    }
}

} // verus!
