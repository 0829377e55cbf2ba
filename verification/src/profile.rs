//! Per-account profile locations.
//!
//! Every account gets its own folder under `%LOCALAPPDATA%\Breakbar\profiles\<id>\`, holding its
//! `Local.dat`, its temp folder and the record of the game build it was set up for. The game only
//! ever reads `%APPDATA%\Guild Wars 2`, so that real folder is a junction which points at an
//! account's profile only while that account's client starts (see `profile_link`). The `shared`
//! profile is what it points at the rest of the time.
//!
//! The value of `%LOCALAPPDATA%` is handed in by the caller (`None` if it is not set); the folders
//! themselves are created, renamed and removed by the application.

use vstd::prelude::*;

use crate::account::AccountId;
use crate::companion::matches_at;
use crate::launch::views;
use crate::paths::{join, join_spec};
use crate::text::{
    all_digits, chars_of, decimal, decimal_string, is_digit, lemma_decimal_digits,
    lemma_decimal_injective, lemma_decimal_parses, owned, parse_u64, parse_u64_chars, push_decimal,
    push_str, trim, trimmed,
};

verus! {

/// What went wrong while locating, reading or writing Breakbar's files.
#[derive(Debug, Clone, PartialEq, Eq)]
pub enum StoreError {
    /// The `APPDATA` environment variable is not set.
    NoAppData,
    /// The `LOCALAPPDATA` environment variable is not set.
    NoLocalAppData,
    /// An I/O error on `path`.
    Io { path: String, message: String },
    /// The config file at `path` could not be parsed.
    Parse { path: String, message: String },
    /// The config could not be turned into text.
    Serialize(String),
}

/// The text of a [`StoreError`].
pub open spec fn store_error_text(e: StoreError) -> Seq<char> {
    match e {
        StoreError::NoAppData => "the APPDATA environment variable is not set"@,
        StoreError::NoLocalAppData => "the LOCALAPPDATA environment variable is not set"@,
        StoreError::Io { path, message } => "I/O error on "@ + path@ + ": "@ + message@,
        StoreError::Parse { path, message } => "invalid config file "@ + path@ + ": "@ + message@,
        StoreError::Serialize(m) => "failed to serialize config: "@ + m@,
    }
}

impl StoreError {
    /// The text shown for the error.
    pub fn message(&self) -> (r: String)
        ensures
            r@ == store_error_text(*self),
    {
        match self {
            StoreError::NoAppData => owned("the APPDATA environment variable is not set"),
            StoreError::NoLocalAppData => owned("the LOCALAPPDATA environment variable is not set"),
            StoreError::Io { path, message } => {
                let mut s = owned("I/O error on ");
                push_str(&mut s, path.as_str());
                push_str(&mut s, ": ");
                push_str(&mut s, message.as_str());
                s
            },
            StoreError::Parse { path, message } => {
                let mut s = owned("invalid config file ");
                push_str(&mut s, path.as_str());
                push_str(&mut s, ": ");
                push_str(&mut s, message.as_str());
                s
            },
            StoreError::Serialize(m) => {
                let mut s = owned("failed to serialize config: ");
                push_str(&mut s, m.as_str());
                s
            },
        }
    }
}

/// Part of the name of a profile folder that is being deleted (`<id>.deleting-<n>`). Account ids
/// are numbers, so it never collides with a live profile.
pub const TRASH_MARKER: &'static str = ".deleting-";

/// The name of the shared profile folder.
pub const SHARED_PROFILE: &'static str = "shared";

/// `%LOCALAPPDATA%\Breakbar\profiles` for the value `local` of `%LOCALAPPDATA%`.
pub open spec fn profiles_root_spec(local: Seq<char>) -> Seq<char> {
    join_spec(join_spec(local, "Breakbar"@), "profiles"@)
}

/// The profile folder of account `id` under the profiles folder `root`.
pub open spec fn profile_dir_spec(local: Seq<char>, id: AccountId) -> Seq<char> {
    join_spec(profiles_root_spec(local), decimal(id.0 as nat))
}

/// Where the account's `Local.dat` lies in its profile.
pub open spec fn local_dat_spec(local: Seq<char>, id: AccountId) -> Seq<char> {
    join_spec(join_spec(profile_dir_spec(local, id), "Guild Wars 2"@), "Local.dat"@)
}

/// Where the config file lies, for the value `a` of `%APPDATA%`.
pub open spec fn config_path_spec(a: Seq<char>) -> Seq<char> {
    join_spec(join_spec(a, "Breakbar"@), "config.toml"@)
}

/// The default location of the config file, `%APPDATA%\Breakbar\config.toml`, for the values of
/// `%APPDATA%` and `%LOCALAPPDATA%` (`None`: not set). Fails when either is not set: the
/// program keeps its config in one and its profiles in the other.
pub fn default_config_path(app_data: Option<&str>, local_app_data: Option<&str>) -> (r: Result<
    String,
    StoreError,
>)
    ensures
        app_data is None ==> r == Err::<String, StoreError>(StoreError::NoAppData),
        app_data is Some && local_app_data is None ==> r == Err::<String, StoreError>(
            StoreError::NoLocalAppData,
        ),
        app_data is Some && local_app_data is Some ==> r is Ok && r->Ok_0@ == config_path_spec(
            app_data->0@,
        ),
{
    match app_data {
        None => Err(StoreError::NoAppData),
        Some(a) => match local_app_data {
            None => Err(StoreError::NoLocalAppData),
            Some(_) => {
                let breakbar = join(a, "Breakbar");
                Ok(join(breakbar.as_str(), "config.toml"))
            },
        },
    }
}

/// The profiles folder, for the value of `%LOCALAPPDATA%` (`None`: not set).
pub fn profiles_root(local_app_data: Option<&str>) -> (r: Result<String, StoreError>)
    ensures
        match local_app_data {
            None => r == Err::<String, StoreError>(StoreError::NoLocalAppData),
            Some(local) => r is Ok && r->Ok_0@ == profiles_root_spec(local@),
        },
{
    match local_app_data {
        None => Err(StoreError::NoLocalAppData),
        Some(local) => {
            let breakbar = join(local, "Breakbar");
            Ok(join(breakbar.as_str(), "profiles"))
        },
    }
}

/// The account's isolated profile folder. Does not create it.
pub fn profile_dir(local_app_data: Option<&str>, account_id: AccountId) -> (r: Result<
    String,
    StoreError,
>)
    ensures
        match local_app_data {
            None => r == Err::<String, StoreError>(StoreError::NoLocalAppData),
            Some(local) => r is Ok && r->Ok_0@ == profile_dir_spec(local@, account_id),
        },
{
    let root = profiles_root(local_app_data)?;
    let name = decimal_string(account_id.0 as u64);
    Ok(join(root.as_str(), name.as_str()))
}

/// The shared default profile: what `%APPDATA%\Guild Wars 2` points at whenever no launch is in
/// progress, so clients started outside Breakbar and settings written by running clients (such
/// as graphics settings) land here. Account ids are numeric, so this name never collides.
pub fn shared_profile_dir(local_app_data: Option<&str>) -> (r: Result<String, StoreError>)
    ensures
        match local_app_data {
            None => r == Err::<String, StoreError>(StoreError::NoLocalAppData),
            Some(local) => r is Ok && r->Ok_0@ == join_spec(
                profiles_root_spec(local@),
                SHARED_PROFILE@,
            ),
        },
{
    let root = profiles_root(local_app_data)?;
    Ok(join(root.as_str(), SHARED_PROFILE))
}

/// Path to the account's `Local.dat`, inside its profile, once GW2 has created it.
pub fn local_dat_path(local_app_data: Option<&str>, account_id: AccountId) -> (r: Result<
    String,
    StoreError,
>)
    ensures
        match local_app_data {
            None => r == Err::<String, StoreError>(StoreError::NoLocalAppData),
            Some(local) => r is Ok && r->Ok_0@ == local_dat_spec(local@, account_id),
        },
{
    let dir = profile_dir(local_app_data, account_id)?;
    let gw2 = join(dir.as_str(), "Guild Wars 2");
    Ok(join(gw2.as_str(), "Local.dat"))
}

/// The file that records the game build a setup launch of this account last finished against.
pub fn verified_build_path(local_app_data: Option<&str>, account_id: AccountId) -> (r: Result<
    String,
    StoreError,
>)
    ensures
        match local_app_data {
            None => r == Err::<String, StoreError>(StoreError::NoLocalAppData),
            Some(local) => r is Ok && r->Ok_0@ == join_spec(
                profile_dir_spec(local@, account_id),
                "build-verified.txt"@,
            ),
        },
{
    let dir = profile_dir(local_app_data, account_id)?;
    Ok(join(dir.as_str(), "build-verified.txt"))
}

/// The text recorded for game build `build`.
pub fn build_record(build: u64) -> (r: String)
    ensures
        r@ == decimal(build as nat),
{
    decimal_string(build)
}

/// The build a record holds: the number it contains, surrounding whitespace aside; `None` if it
/// holds anything else.
pub fn parse_build_record(text: &str) -> (r: Option<u64>)
    ensures
        r == parse_u64(trim(text@)),
{
    let chars = chars_of(text);
    let body = trimmed(chars.as_slice());
    parse_u64_chars(body.as_slice())
}

/// Whether `pat` occurs anywhere in `s`.
pub open spec fn contains(s: Seq<char>, pat: Seq<char>) -> bool {
    exists|i: int| 0 <= i && i + pat.len() <= s.len() && #[trigger] matches_at(s, pat, i)
}

/// Whether `pat` occurs in `s`.
pub fn contains_chars(s: &[char], pat: &[char]) -> (r: bool)
    ensures
        r == contains(s@, pat@),
{
    let n = s.len();
    let m = pat.len();
    if m > n {
        return false;
    }
    let mut i: usize = 0;
    while i <= n - m
        invariant
            m <= n,
            n == s@.len(),
            m == pat@.len(),
            i <= n - m + 1,
            forall|j: int| 0 <= j < i ==> !#[trigger] matches_at(s@, pat@, j),
        decreases n - m + 1 - i,
    {
        let mut k: usize = 0;
        let mut same = true;
        while k < m
            invariant
                i + m <= n,
                n == s@.len(),
                m == pat@.len(),
                k <= m,
                same == (forall|t: int| 0 <= t < k ==> s@[i + t] == pat@[t]),
            decreases m - k,
        {
            if s[i + k] != pat[k] {
                same = false;
            }
            k = k + 1;
        }
        if same {
            assert(s@.subrange(i as int, i + m) =~= pat@);
            assert(matches_at(s@, pat@, i as int));
            return true;
        }
        assert(!matches_at(s@, pat@, i as int)) by {
            if matches_at(s@, pat@, i as int) {
                assert forall|t: int| 0 <= t < m implies s@[i + t] == pat@[t] by {
                    assert(s@.subrange(i as int, i + m)[t] == s@[i + t]);
                }
            }
        }
        i = i + 1;
    }
    false
}

/// Whether a folder of that name is left over from a deletion.
pub fn is_leftover(name: &str) -> (r: bool)
    ensures
        r == contains(name@, TRASH_MARKER@),
{
    let s = chars_of(name);
    let marker = chars_of(TRASH_MARKER);
    contains_chars(s.as_slice(), marker.as_slice())
}

/// The name a profile folder `name` is renamed to while it is being deleted: the name, the
/// trash marker, then the id of the process and a counter, separated by `-`.
pub open spec fn trash_name_spec(name: Seq<char>, pid: u32, counter: u32) -> Seq<char> {
    name + TRASH_MARKER@ + decimal(pid as nat) + "-"@ + decimal(counter as nat)
}

/// The name the profile folder `name` gets while it is being deleted.
pub fn trash_name(name: &str, pid: u32, counter: u32) -> (r: String)
    ensures
        r@ == trash_name_spec(name@, pid, counter),
{
    let mut out = owned(name);
    push_str(&mut out, TRASH_MARKER);
    push_decimal(&mut out, pid as u64);
    push_str(&mut out, "-");
    push_decimal(&mut out, counter as u64);
    out
}

/// Of `names`, those that contain the trash marker, in the same order.
pub open spec fn leftovers_spec(names: Seq<Seq<char>>) -> Seq<Seq<char>>
    decreases names.len(),
{
    if names.len() == 0 {
        Seq::empty()
    } else if contains(names.last(), TRASH_MARKER@) {
        leftovers_spec(names.drop_last()).push(names.last())
    } else {
        leftovers_spec(names.drop_last())
    }
}

/// Of the folder names in the profiles folder, those left over from a deletion that did not
/// finish, in the same order.
pub fn sweep_targets(names: &Vec<String>) -> (r: Vec<String>)
    ensures
        views(r@) == leftovers_spec(views(names@)),
{
    let mut out: Vec<String> = Vec::new();
    let ghost all = views(names@);
    for i in 0..names.len()
        invariant
            all == views(names@),
            views(out@) == leftovers_spec(all.take(i as int)),
    {
        let ghost before = out@;
        assert(all.take(i + 1).drop_last() =~= all.take(i as int));
        assert(all.take(i + 1).last() == names@[i as int]@);
        if is_leftover(names[i].as_str()) {
            let copy = owned(names[i].as_str());
            out.push(copy);
            assert(views(out@) =~= views(before).push(copy@));
        } else {
            assert(views(out@) =~= views(before));
        }
    }
    assert(all.take(names@.len() as int) =~= all);
    out
}

/// Of the `(name, modified)` pairs, the names of those modified before `cutoff`, in the same
/// order.
pub open spec fn stale_spec(entries: Seq<(String, u64)>, cutoff: int) -> Seq<Seq<char>>
    decreases entries.len(),
{
    if entries.len() == 0 {
        Seq::empty()
    } else if (entries.last().1 as int) < cutoff {
        stale_spec(entries.drop_last(), cutoff).push(entries.last().0@)
    } else {
        stale_spec(entries.drop_last(), cutoff)
    }
}

/// The entries of an account's temp folder to remove: of the `(name, modified)` pairs, those
/// modified before `now - older_than`, in the same order. Nothing is old enough if `older_than`
/// reaches back before the start of the clock.
pub fn prune_targets(entries: &Vec<(String, u64)>, now: u64, older_than: u64) -> (r: Vec<String>)
    ensures
        now < older_than ==> r@.len() == 0,
        now >= older_than ==> views(r@) == stale_spec(entries@, now - older_than),
{
    let mut out: Vec<String> = Vec::new();
    if now < older_than {
        return out;
    }
    let cutoff = now - older_than;
    for i in 0..entries.len()
        invariant
            cutoff == now - older_than,
            views(out@) == stale_spec(entries@.take(i as int), cutoff as int),
    {
        let ghost before = out@;
        assert(entries@.take(i + 1).drop_last() =~= entries@.take(i as int));
        assert(entries@.take(i + 1).last() == entries@[i as int]);
        if entries[i].1 < cutoff {
            let copy = owned(entries[i].0.as_str());
            out.push(copy);
            assert(views(out@) =~= views(before).push(copy@));
        } else {
            assert(views(out@) =~= views(before));
        }
    }
    assert(entries@.take(entries@.len() as int) =~= entries@);
    out
}

/// A trimmed decimal number reads back as itself.
proof fn lemma_trim_digits(s: Seq<char>)
    requires
        s.len() > 0,
        all_digits(s),
    ensures
        trim(s) == s,
{
    assert(is_digit(s[0]));
    assert(is_digit(s.last()));
    assert(crate::text::trim_start(s) == s);
    assert(crate::text::trim_end(s) == s);
}

/// What is recorded for a build reads back as that build.
pub proof fn lemma_build_record_round_trip(build: u64)
    ensures
        parse_u64(trim(decimal(build as nat))) == Some(build),
{
    lemma_decimal_digits(build as nat);
    lemma_trim_digits(decimal(build as nat));
    lemma_decimal_parses(build);
}

/// A text of digits never contains the trash marker, which has a `.` in it.
proof fn lemma_digits_never_trash(s: Seq<char>)
    requires
        all_digits(s),
    ensures
        !contains(s, TRASH_MARKER@),
{
    reveal_strlit(".deleting-");
    if contains(s, TRASH_MARKER@) {
        let i = choose|i: int|
            0 <= i && i + TRASH_MARKER@.len() <= s.len() && #[trigger] matches_at(
                s,
                TRASH_MARKER@,
                i,
            );
        assert(s.subrange(i, i + TRASH_MARKER@.len())[0] == '.');
        assert(is_digit(s[i]));
    }
}

/// A folder renamed for deletion is always recognized as a leftover, while the folder of an
/// account (named by its number) and the shared profile never are: sweeping the leftovers never
/// removes a live profile.
pub proof fn lemma_sweep_spares_profiles(name: Seq<char>, pid: u32, counter: u32, id: AccountId)
    ensures
        contains(trash_name_spec(name, pid, counter), TRASH_MARKER@),
        !contains(decimal(id.0 as nat), TRASH_MARKER@),
        !contains(SHARED_PROFILE@, TRASH_MARKER@),
{
    reveal_strlit(".deleting-");
    reveal_strlit("shared");
    let t = trash_name_spec(name, pid, counter);
    assert(t.subrange(name.len() as int, (name.len() + TRASH_MARKER@.len()) as int) =~= TRASH_MARKER@);
    assert(matches_at(t, TRASH_MARKER@, name.len() as int));
    lemma_decimal_digits(id.0 as nat);
    lemma_digits_never_trash(decimal(id.0 as nat));
    assert(SHARED_PROFILE@.len() < TRASH_MARKER@.len());
}

/// Two accounts never share a profile folder, and no account's folder is the shared profile.
pub proof fn lemma_profiles_distinct(local: Seq<char>, a: AccountId, b: AccountId)
    ensures
        a != b ==> profile_dir_spec(local, a) != profile_dir_spec(local, b),
        profile_dir_spec(local, a) != join_spec(profiles_root_spec(local), SHARED_PROFILE@),
{
    reveal_strlit("shared");
    reveal_strlit("Breakbar");
    reveal_strlit("profiles");
    let root = profiles_root_spec(local);
    assert(root.len() > 0);
    assert(root.last() == 's');
    let sep_root = root + seq!['\\'];
    lemma_decimal_digits(a.0 as nat);
    lemma_decimal_digits(b.0 as nat);
    let pa = profile_dir_spec(local, a);
    assert(pa == sep_root + decimal(a.0 as nat));
    assert(pa.subrange(sep_root.len() as int, pa.len() as int) =~= decimal(a.0 as nat));
    if a != b {
        let pb = profile_dir_spec(local, b);
        assert(pb.subrange(sep_root.len() as int, pb.len() as int) =~= decimal(b.0 as nat));
        if pa == pb {
            lemma_decimal_injective(a.0 as nat, b.0 as nat);
        }
    }
    let shared = join_spec(root, SHARED_PROFILE@);
    assert(shared.subrange(sep_root.len() as int, shared.len() as int) =~= SHARED_PROFILE@);
    if pa == shared {
        assert(is_digit(decimal(a.0 as nat)[0]));
        assert(SHARED_PROFILE@[0] == 's');
    }
}


/// A profile folder to take out of the way: renaming `from` to `to` takes no time however much
/// it holds.
#[derive(Debug, Clone, PartialEq, Eq)]
pub struct TrashMove {
    pub from: String,
    pub to: String,
}

/// Takes the account's profile folder out of the way at once, for the caller to remove in the
/// background: the folder (which exists if `exists`) is to be renamed to its name with the trash
/// marker, the id of the process `pid` and a counter. `None` if the account has no profile. If
/// the rename fails (something inside is still open), the folder itself is to be removed.
pub fn trash_profile(
    local_app_data: Option<&str>,
    account_id: AccountId,
    exists: bool,
    pid: u32,
    counter: u32,
) -> (r: Result<Option<TrashMove>, StoreError>)
    ensures
        local_app_data is None ==> r == Err::<Option<TrashMove>, StoreError>(
            StoreError::NoLocalAppData,
        ),
        local_app_data is Some && !exists ==> r == Ok::<Option<TrashMove>, StoreError>(None),
        local_app_data is Some && exists ==> {
            let dir = profile_dir_spec(local_app_data->0@, account_id);
            match crate::paths::file_name_spec(dir) {
                None => r == Ok::<Option<TrashMove>, StoreError>(None),
                Some(name) => r is Ok && r->Ok_0 is Some && r->Ok_0->0.from@ == dir
                    && r->Ok_0->0.to@ == crate::paths::with_file_name_spec(
                    dir,
                    trash_name_spec(name, pid, counter),
                ),
            }
        },
{
    let dir = profile_dir(local_app_data, account_id)?;
    if !exists {
        return Ok(None);
    }
    let name = match crate::paths::file_name(dir.as_str()) {
        Some(n) => n,
        None => {
            return Ok(None);
        },
    };
    let trash = trash_name(name.as_str(), pid, counter);
    let to = crate::paths::with_file_name(dir.as_str(), trash.as_str());
    Ok(Some(TrashMove { from: dir, to }))
}

/// The paths `join(dir, name)` of each of `names`.
pub open spec fn joined_all(dir: Seq<char>, names: Seq<Seq<char>>) -> Seq<Seq<char>> {
    names.map_values(|n: Seq<char>| join_spec(dir, n))
}

fn join_each(dir: &str, names: &Vec<String>) -> (r: Vec<String>)
    ensures
        views(r@) == joined_all(dir@, views(names@)),
{
    let mut out: Vec<String> = Vec::new();
    for i in 0..names.len()
        invariant
            views(out@) == joined_all(dir@, views(names@).take(i as int)),
    {
        let p = join(dir, names[i].as_str());
        let ghost before = out@;
        out.push(p);
        assert(views(out@) =~= views(before).push(p@));
        assert(views(names@).take(i + 1) =~= views(names@).take(i as int).push(names@[i as int]@));
        assert(joined_all(dir@, views(names@).take(i + 1)) =~= joined_all(
            dir@,
            views(names@).take(i as int),
        ).push(join_spec(dir@, names@[i as int]@)));
    }
    assert(views(names@).take(names@.len() as int) =~= views(names@));
    out
}

/// The profile folders left behind by a deletion that didn't finish, to be removed: of the
/// `names` in the profiles folder, those with the trash marker, as paths. Nothing if
/// `%LOCALAPPDATA%` is not set.
pub fn sweep_leftovers(local_app_data: Option<&str>, names: &Vec<String>) -> (r: Vec<String>)
    ensures
        local_app_data is None ==> r@.len() == 0,
        local_app_data is Some ==> views(r@) == joined_all(
            profiles_root_spec(local_app_data->0@),
            leftovers_spec(views(names@)),
        ),
{
    match profiles_root(local_app_data) {
        Err(_) => Vec::new(),
        Ok(root) => {
            let targets = sweep_targets(names);
            join_each(root.as_str(), &targets)
        },
    }
}

/// The entries of the account's temp folder (the temp folder of its client) to remove: of the
/// `(name, modified)` pairs read from it, those modified before `now - older_than`, as paths.
/// Nothing if `%LOCALAPPDATA%` is not set or `older_than` reaches back before the clock's start.
pub fn prune_temp(
    local_app_data: Option<&str>,
    account_id: AccountId,
    entries: &Vec<(String, u64)>,
    now: u64,
    older_than: u64,
) -> (r: Vec<String>)
    ensures
        local_app_data is None || now < older_than ==> r@.len() == 0,
        local_app_data is Some && now >= older_than ==> views(r@) == joined_all(
            join_spec(profile_dir_spec(local_app_data->0@, account_id), "Temp"@),
            stale_spec(entries@, now - older_than),
        ),
{
    match profile_dir(local_app_data, account_id) {
        Err(_) => Vec::new(),
        Ok(dir) => {
            let temp = join(dir.as_str(), "Temp");
            let targets = prune_targets(entries, now, older_than);
            let r = join_each(temp.as_str(), &targets);
            proof {
                if now < older_than {
                    assert(views(targets@) =~= Seq::<Seq<char>>::empty());
                    assert(views(r@).len() == 0);
                    assert(r@.len() == views(r@).len());
                }
            }
            r
        },
    }
}

} // verus!
