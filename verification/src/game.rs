//! Locating and validating the Guild Wars 2 client.
//!
//! The application reads the registry, the environment and the files; this module decides what
//! the values it found mean: where the client may be installed, whether a file is the 64-bit
//! client, and which installations Steam manages.

use vstd::prelude::*;

use crate::launch::views;
use crate::paths::{file_name, join, join_spec, with_file_name, with_file_name_spec};
use crate::pe::{MACHINE_AMD64, machine, pe_machine};
use crate::steam::{GW2_INSTALL_DIR, library_folders, path_values, quoted_from};
use crate::text::{
    chars_eq_ignore_case, chars_of, eq_ignore_case, is_i32_chars, is_i32_text, owned, slice_chars,
    str_eq, string_of, trim, trimmed,
};

verus! {

/// File name of the 64-bit game client.
pub const GW2_EXE: &'static str = "Gw2-64.exe";

/// `ProductName` in the client's version resource.
pub const PRODUCT_NAME: &'static str = "Guild Wars 2";

/// The registry key of the game's uninstall entry (under `HKLM` and `HKCU`).
pub const UNINSTALL_KEY: &'static str =
    "SOFTWARE\\Microsoft\\Windows\\CurrentVersion\\Uninstall\\Guild Wars 2";

/// The registry key the ArenaNet installer writes its `Path` value to.
pub const INSTALLER_KEY: &'static str = "SOFTWARE\\ArenaNet\\Guild Wars 2";

/// The same key as seen by a 32-bit installer.
pub const INSTALLER_KEY_WOW64: &'static str = "SOFTWARE\\WOW6432Node\\ArenaNet\\Guild Wars 2";

/// Marker file the Steam client writes into the game folder when it installs Guild Wars 2 (its
/// uninstall hook, which itself runs `Gw2-64.exe -provider Steam`).
pub const STEAM_INSTALL_SCRIPT: &'static str = "install_script.vdf";

/// Why a file was not accepted as the game client.
#[derive(Debug, Clone, PartialEq, Eq)]
pub enum Gw2PathError {
    /// The selected file does not exist.
    NotFound,
    /// The selected file could not be read; the reason as the system gave it.
    Unreadable(String),
    /// The selected file is not a Windows program.
    NotExecutable,
    /// Only the 64-bit client is supported.
    Not64Bit,
    /// The selected file is not the Guild Wars 2 client.
    NotGw2,
}

impl Gw2PathError {
    /// The text shown for the error.
    pub fn message(&self) -> (r: String)
        ensures
            r@ == match self {
                Gw2PathError::NotFound => "The selected file does not exist."@,
                Gw2PathError::Unreadable(m) => "The selected file could not be read: "@ + m@,
                Gw2PathError::NotExecutable => "The selected file is not a Windows program."@,
                Gw2PathError::Not64Bit => "Only the 64-bit client ("@ + GW2_EXE@ + ") is supported."@,
                Gw2PathError::NotGw2 => "The selected file is not the Guild Wars 2 client."@,
            },
    {
        match self {
            Gw2PathError::NotFound => owned("The selected file does not exist."),
            Gw2PathError::Unreadable(m) => {
                let mut s = owned("The selected file could not be read: ");
                crate::text::push_str(&mut s, m.as_str());
                s
            },
            Gw2PathError::NotExecutable => owned("The selected file is not a Windows program."),
            Gw2PathError::Not64Bit => {
                let mut s = owned("Only the 64-bit client (");
                crate::text::push_str(&mut s, GW2_EXE);
                crate::text::push_str(&mut s, ") is supported.");
                s
            },
            Gw2PathError::NotGw2 => owned("The selected file is not the Guild Wars 2 client."),
        }
    }
}

/// Whether the file at `path` with version resource product name `product` (`None`: it has
/// none) is the game client: by its product name, or failing that by its file name.
pub open spec fn is_gw2_spec(product: Option<Seq<char>>, path: Seq<char>) -> bool {
    match product {
        Some(p) => p == PRODUCT_NAME@,
        None => match crate::paths::file_name_spec(path) {
            Some(name) => eq_ignore_case(name, GW2_EXE@),
            None => false,
        },
    }
}

/// The verdict on an existing, readable file at `path` whose first bytes are `header`.
pub open spec fn check_client_spec(header: Seq<u8>, product: Option<Seq<char>>, path: Seq<char>) -> Result<
    (),
    Gw2PathError,
> {
    match pe_machine(header) {
        None => Err(Gw2PathError::NotExecutable),
        Some(m) => if m != MACHINE_AMD64 {
            Err(Gw2PathError::Not64Bit)
        } else if is_gw2_spec(product, path) {
            Ok(())
        } else {
            Err(Gw2PathError::NotGw2)
        },
    }
}

/// Checks an existing, readable file at `path` for being the 64-bit Guild Wars 2 client, from its
/// first bytes `header` (at most `HEADER_PROBE_LEN` of them) and the product name of its version
/// resource.
pub fn check_client(header: &[u8], product: Option<&str>, path: &str) -> (r: Result<(), Gw2PathError>)
    ensures
        r == check_client_spec(
            header@,
            match product {
                Some(p) => Some(p@),
                None => None,
            },
            path@,
        ),
{
    match machine(header) {
        None => return Err(Gw2PathError::NotExecutable),
        Some(m) => {
            if m != MACHINE_AMD64 {
                return Err(Gw2PathError::Not64Bit);
            }
        },
    }
    let is_gw2 = match product {
        Some(p) => str_eq(p, PRODUCT_NAME),
        None => match file_name(path) {
            Some(name) => {
                let a = chars_of(name.as_str());
                let b = chars_of(GW2_EXE);
                chars_eq_ignore_case(a.as_slice(), b.as_slice())
            },
            None => false,
        },
    };
    if is_gw2 {
        Ok(())
    } else {
        Err(Gw2PathError::NotGw2)
    }
}

/// The position of the last `c` in `s` before position `end`, or -1 if there is none.
pub open spec fn last_index_before(s: Seq<char>, c: char, end: int) -> int
    decreases end,
{
    if end <= 0 {
        -1
    } else if s[end - 1] == c {
        end - 1
    } else {
        last_index_before(s, c, end - 1)
    }
}

/// `s` without the `c` characters at its end.
pub open spec fn drop_trailing(s: Seq<char>, c: char) -> Seq<char>
    decreases s.len(),
{
    if s.len() > 0 && s.last() == c {
        drop_trailing(s.drop_last(), c)
    } else {
        s
    }
}

/// `s` without the `c` characters at its start.
pub open spec fn drop_leading(s: Seq<char>, c: char) -> Seq<char>
    decreases s.len(),
{
    if s.len() > 0 && s[0] == c {
        drop_leading(s.drop_first(), c)
    } else {
        s
    }
}

/// What `strip_icon_index` makes of an icon reference: trimmed, without a trailing `,<index>`
/// (an index being what `i32::from_str` accepts, whitespace around it aside), trimmed again and
/// without the quotes around it.
pub open spec fn strip_icon_spec(icon: Seq<char>) -> Seq<char> {
    let t = trim(icon);
    let k = last_index_before(t, ',', t.len() as int);
    let body = if k >= 0 && is_i32_text(trim(t.subrange(k + 1, t.len() as int))) {
        t.subrange(0, k)
    } else {
        t
    };
    drop_leading(drop_trailing(trim(body), '"'), '"')
}

proof fn lemma_last_index_before(s: Seq<char>, c: char, end: int)
    requires
        0 <= end <= s.len(),
    ensures
        -1 <= last_index_before(s, c, end) < end,
    decreases end,
{
    if end > 0 && s[end - 1] != c {
        lemma_last_index_before(s, c, end - 1);
    }
}

/// `v` without the `c` characters at either end.
fn strip_char(v: &[char], c: char) -> (r: Vec<char>)
    ensures
        r@ == drop_leading(drop_trailing(v@, c), c),
{
    let mut hi = v.len();
    assert(v@.subrange(0, hi as int) =~= v@);
    while hi > 0 && v[hi - 1] == c
        invariant
            hi <= v@.len(),
            drop_trailing(v@.subrange(0, hi as int), c) == drop_trailing(v@, c),
        decreases hi,
    {
        assert(v@.subrange(0, hi as int).drop_last() =~= v@.subrange(0, hi - 1));
        hi = hi - 1;
    }
    assert(drop_trailing(v@.subrange(0, hi as int), c) == v@.subrange(0, hi as int));
    let mut lo: usize = 0;
    while lo < hi && v[lo] == c
        invariant
            lo <= hi <= v@.len(),
            drop_leading(v@.subrange(lo as int, hi as int), c) == drop_leading(
                drop_trailing(v@, c),
                c,
            ),
        decreases hi - lo,
    {
        assert(v@.subrange(lo as int, hi as int).drop_first() =~= v@.subrange(lo + 1, hi as int));
        lo = lo + 1;
    }
    slice_chars(v, lo, hi)
}

/// Turns an icon reference like `"C:\Games\Gw2-64.exe",0` into a plain path.
pub fn strip_icon_index(icon: &str) -> (r: String)
    ensures
        r@ == strip_icon_spec(icon@),
{
    let all = chars_of(icon);
    let t = trimmed(all.as_slice());
    let n = t.len();
    let mut k = n;
    while k > 0 && t[k - 1] != ','
        invariant
            k <= n == t@.len(),
            last_index_before(t@, ',', k as int) == last_index_before(t@, ',', n as int),
        decreases k,
    {
        k = k - 1;
    }
    proof {
        lemma_last_index_before(t@, ',', n as int);
    }
    let body = if k > 0 {
        let index = slice_chars(t.as_slice(), k, n);
        let index_t = trimmed(index.as_slice());
        if is_i32_chars(index_t.as_slice()) {
            slice_chars(t.as_slice(), 0, k - 1)
        } else {
            slice_chars(t.as_slice(), 0, n)
        }
    } else {
        slice_chars(t.as_slice(), 0, n)
    };
    proof {
        assert(t@.subrange(0, n as int) =~= t@);
    }
    let body_t = trimmed(body.as_slice());
    let out = strip_char(body_t.as_slice(), '"');
    string_of(out.as_slice())
}

/// Where a Steam library keeps the game client.
pub open spec fn steam_client_in(library: Seq<char>) -> Seq<char> {
    join_spec(join_spec(library, GW2_INSTALL_DIR@), GW2_EXE@)
}

/// The libraries named by the library list `vdf` (`None`: it could not be read), or Steam's own
/// folder if it names none.
pub open spec fn steam_libraries_spec(steam_dir: Seq<char>, vdf: Option<Seq<char>>) -> Seq<
    Seq<char>,
> {
    let listed = match vdf {
        Some(text) => path_values(quoted_from(text, 0)),
        None => Seq::empty(),
    };
    if listed.len() == 0 {
        seq![steam_dir]
    } else {
        listed
    }
}

/// The library list inside Steam's folder.
pub fn library_list_file(steam_dir: &str) -> (r: String)
    ensures
        r@ == join_spec(steam_dir@, "steamapps\\libraryfolders.vdf"@),
{
    join(steam_dir, "steamapps\\libraryfolders.vdf")
}

/// Where the client would be in each Steam library, given Steam's folder and the contents of its
/// library list (`None`: it could not be read).
pub fn steam_candidates_in(steam_dir: &str, vdf: Option<&str>) -> (r: Vec<String>)
    ensures
        views(r@) == steam_libraries_spec(
            steam_dir@,
            match vdf {
                Some(t) => Some(t@),
                None => None,
            },
        ).map_values(|l: Seq<char>| steam_client_in(l)),
{
    let mut libraries = match vdf {
        Some(text) => library_folders(text),
        None => Vec::new(),
    };
    if libraries.len() == 0 {
        libraries.push(owned(steam_dir));
        assert(views(libraries@) =~= seq![steam_dir@]);
    }
    let ghost libs = views(libraries@);
    let mut out: Vec<String> = Vec::new();
    for i in 0..libraries.len()
        invariant
            libs == views(libraries@),
            views(out@) == libs.take(i as int).map_values(|l: Seq<char>| steam_client_in(l)),
    {
        let dir = join(libraries[i].as_str(), GW2_INSTALL_DIR);
        let exe = join(dir.as_str(), GW2_EXE);
        let ghost before = out@;
        out.push(exe);
        assert(views(out@) =~= views(before).push(exe@));
        assert(libs.take(i + 1).map_values(|l: Seq<char>| steam_client_in(l)) =~= libs.take(
            i as int,
        ).map_values(|l: Seq<char>| steam_client_in(l)).push(steam_client_in(libs[i as int])));
    }
    assert(libs.take(libs.len() as int) =~= libs);
    out
}

/// The client in a `Program Files` folder `dir`.
pub fn program_files_candidate(dir: &str) -> (r: String)
    ensures
        r@ == join_spec(join_spec(dir@, "Guild Wars 2"@), GW2_EXE@),
{
    let folder = join(dir, "Guild Wars 2");
    join(folder.as_str(), GW2_EXE)
}

/// A registry entry may point to the install folder or to the executable itself: the client for
/// `path`, given whether `path` is a folder.
pub fn exe_path(path: &str, is_dir: bool) -> (r: String)
    ensures
        r@ == (if is_dir {
            join_spec(path@, GW2_EXE@)
        } else {
            path@
        }),
{
    if is_dir {
        join(path, GW2_EXE)
    } else {
        owned(path)
    }
}

/// The file whose presence next to the client tells that Steam installed it (and so can sign it
/// in): Steam does not ship `steam_api64.dll` with the game, but it leaves its
/// `install_script.vdf` in every folder it installed the game into.
pub fn steam_install_script(gw2_exe: &str) -> (r: String)
    ensures
        r@ == with_file_name_spec(gw2_exe@, STEAM_INSTALL_SCRIPT@),
{
    with_file_name(gw2_exe, STEAM_INSTALL_SCRIPT)
}

/// The first of `candidates` that is a valid client (`valid[i]` tells for candidate `i`).
pub open spec fn first_valid(candidates: Seq<Seq<char>>, valid: Seq<bool>) -> Option<Seq<char>>
    decreases candidates.len(),
{
    if candidates.len() == 0 || valid.len() == 0 {
        None
    } else if valid[0] {
        Some(candidates[0])
    } else {
        first_valid(candidates.drop_first(), valid.drop_first())
    }
}

/// Picks the client from the usual install locations, searched in order (ArenaNet installer
/// registry entry, uninstall entry, Steam libraries, Program Files): the first candidate that
/// passed the check (`valid[i]` for `candidates[i]`).
pub fn detect(candidates: &[String], valid: &[bool]) -> (r: Option<String>)
    ensures
        match first_valid(views(candidates@), valid@) {
            Some(c) => r is Some && r->0@ == c,
            None => r is None,
        },
{
    let n = if candidates.len() < valid.len() {
        candidates.len()
    } else {
        valid.len()
    };
    let mut i: usize = 0;
    assert(views(candidates@).subrange(0, candidates@.len() as int) =~= views(candidates@));
    assert(valid@.subrange(0, valid@.len() as int) =~= valid@);
    while i < n
        invariant
            n <= candidates@.len(),
            n <= valid@.len(),
            n == candidates@.len() || n == valid@.len(),
            i <= n,
            first_valid(views(candidates@).subrange(i as int, candidates@.len() as int), valid@.subrange(i as int, valid@.len() as int))
                == first_valid(views(candidates@), valid@),
        decreases n - i,
    {
        let ghost c = views(candidates@).subrange(i as int, candidates@.len() as int);
        let ghost v = valid@.subrange(i as int, valid@.len() as int);
        assert(c[0] == candidates@[i as int]@);
        assert(v[0] == valid@[i as int]);
        if valid[i] {
            return Some(owned(candidates[i].as_str()));
        }
        assert(c.drop_first() =~= views(candidates@).subrange(i + 1, candidates@.len() as int));
        assert(v.drop_first() =~= valid@.subrange(i + 1, valid@.len() as int));
        i = i + 1;
    }
    None
}

/// The first of `candidates` that Steam installed and that is a valid client.
pub open spec fn first_steam_capable(candidates: Seq<Seq<char>>, supports: Seq<bool>, valid: Seq<bool>) -> Option<
    Seq<char>,
>
    decreases candidates.len(),
{
    if candidates.len() == 0 || supports.len() == 0 || valid.len() == 0 {
        None
    } else if supports[0] && valid[0] {
        Some(candidates[0])
    } else {
        first_steam_capable(candidates.drop_first(), supports.drop_first(), valid.drop_first())
    }
}

/// The client to start a Steam account with: `preferred` if Steam installed it
/// (`preferred_supports_steam`), otherwise the first of the clients in the Steam libraries
/// (`candidates`) that Steam installed (`supports[i]`) and that passed the check (`valid[i]`).
pub fn steam_client(
    preferred: &str,
    preferred_supports_steam: bool,
    candidates: &[String],
    supports: &[bool],
    valid: &[bool],
) -> (r: Option<String>)
    ensures
        preferred_supports_steam ==> r is Some && r->0@ == preferred@,
        !preferred_supports_steam ==> match first_steam_capable(
            views(candidates@),
            supports@,
            valid@,
        ) {
            Some(c) => r is Some && r->0@ == c,
            None => r is None,
        },
{
    if preferred_supports_steam {
        return Some(owned(preferred));
    }
    let mut n = candidates.len();
    if supports.len() < n {
        n = supports.len();
    }
    if valid.len() < n {
        n = valid.len();
    }
    let mut i: usize = 0;
    assert(views(candidates@).subrange(0, candidates@.len() as int) =~= views(candidates@));
    assert(supports@.subrange(0, supports@.len() as int) =~= supports@);
    assert(valid@.subrange(0, valid@.len() as int) =~= valid@);
    while i < n
        invariant
            !preferred_supports_steam,
            n <= candidates@.len(),
            n <= supports@.len(),
            n <= valid@.len(),
            n == candidates@.len() || n == supports@.len() || n == valid@.len(),
            i <= n,
            first_steam_capable(
                views(candidates@).subrange(i as int, candidates@.len() as int),
                supports@.subrange(i as int, supports@.len() as int),
                valid@.subrange(i as int, valid@.len() as int),
            ) == first_steam_capable(views(candidates@), supports@, valid@),
        decreases n - i,
    {
        let ghost c = views(candidates@).subrange(i as int, candidates@.len() as int);
        let ghost s = supports@.subrange(i as int, supports@.len() as int);
        let ghost v = valid@.subrange(i as int, valid@.len() as int);
        assert(c[0] == candidates@[i as int]@);
        assert(s[0] == supports@[i as int]);
        assert(v[0] == valid@[i as int]);
        if supports[i] && valid[i] {
            return Some(owned(candidates[i].as_str()));
        }
        assert(c.drop_first() =~= views(candidates@).subrange(i + 1, candidates@.len() as int));
        assert(s.drop_first() =~= supports@.subrange(i + 1, supports@.len() as int));
        assert(v.drop_first() =~= valid@.subrange(i + 1, valid@.len() as int));
        i = i + 1;
    }
    None
}


/// Which message the window shows for a client path that can't be used.
#[derive(Debug, Clone, Copy, PartialEq, Eq, Structural)]
pub enum PathProblem {
    NotFound,
    Unreadable,
    NotExecutable,
    Not64Bit,
    NotGw2,
}

/// The message for a path error and the detail filled into it (the reason a file could not be
/// read).
pub fn path_problem(error: &Gw2PathError) -> (r: (PathProblem, String))
    ensures
        match error {
            Gw2PathError::NotFound => r.0 == PathProblem::NotFound && r.1@.len() == 0,
            Gw2PathError::Unreadable(m) => r.0 == PathProblem::Unreadable && r.1@ == m@,
            Gw2PathError::NotExecutable => r.0 == PathProblem::NotExecutable && r.1@.len() == 0,
            Gw2PathError::Not64Bit => r.0 == PathProblem::Not64Bit && r.1@.len() == 0,
            Gw2PathError::NotGw2 => r.0 == PathProblem::NotGw2 && r.1@.len() == 0,
        },
{
    match error {
        Gw2PathError::NotFound => (PathProblem::NotFound, String::new()),
        Gw2PathError::Unreadable(m) => (PathProblem::Unreadable, owned(m.as_str())),
        Gw2PathError::NotExecutable => (PathProblem::NotExecutable, String::new()),
        Gw2PathError::Not64Bit => (PathProblem::Not64Bit, String::new()),
        Gw2PathError::NotGw2 => (PathProblem::NotGw2, String::new()),
    }
}

} // verus!
