//! Windows paths as text: joining a name onto a folder, and taking a path apart into its folder
//! and its file name.
//!
//! The paths Breakbar builds and keeps are absolute Windows paths such as
//! `C:\Games\Guild Wars 2\Gw2-64.exe`. On those, these functions agree with `std::path` on
//! Windows: both `\` and `/` separate components, and joining puts a `\` in between unless the
//! folder already ends in a separator (or is empty, or a bare drive such as `C:`).

use vstd::prelude::*;

use crate::text::{chars_of, string_of};

verus! {

/// Whether `c` separates path components on Windows.
pub open spec fn is_separator(c: char) -> bool {
    c == '\\' || c == '/'
}

/// Whether `p` is a bare drive such as `C:`.
pub open spec fn is_drive(p: Seq<char>) -> bool {
    p.len() == 2 && p[1] == ':' && (('a' <= p[0] && p[0] <= 'z') || ('A' <= p[0] && p[0] <= 'Z'))
}

/// `base` with the relative path `name` appended, as `Path::join` builds it.
pub open spec fn join_spec(base: Seq<char>, name: Seq<char>) -> Seq<char> {
    if base.len() == 0 || is_separator(base.last()) || is_drive(base) {
        base + name
    } else {
        base + seq!['\\'] + name
    }
}

/// The position of the last separator in `p` before position `end`, or -1 if there is none.
pub open spec fn last_separator_before(p: Seq<char>, end: int) -> int
    decreases end,
{
    if end <= 0 {
        -1
    } else if is_separator(p[end - 1]) {
        end - 1
    } else {
        last_separator_before(p, end - 1)
    }
}

/// The position of the last separator in `p`, or -1 if there is none.
pub open spec fn last_separator(p: Seq<char>) -> int {
    last_separator_before(p, p.len() as int)
}

/// The final component of `p`, if it names a file or folder: `None` if `p` ends in a separator,
/// is empty, or ends in `.` or `..`.
pub open spec fn file_name_spec(p: Seq<char>) -> Option<Seq<char>> {
    let f = p.subrange(last_separator(p) + 1, p.len() as int);
    if f.len() == 0 || f == "."@ || f == ".."@ {
        None
    } else {
        Some(f)
    }
}

/// The folder that holds the final component of `p`: the text before the last separator (which
/// is kept where it is the root, as in `C:\` or `\`), the empty path for a bare name, and `None`
/// where `p` has no final name.
pub open spec fn parent_spec(p: Seq<char>) -> Option<Seq<char>> {
    let k = last_separator(p);
    if file_name_spec(p) is None {
        None
    } else if k < 0 {
        Some(Seq::empty())
    } else if k == 0 || is_drive(p.subrange(0, k)) {
        Some(p.subrange(0, k + 1))
    } else {
        Some(p.subrange(0, k))
    }
}

/// `p` with its final name replaced by `name`, as `Path::with_file_name` builds it.
pub open spec fn with_file_name_spec(p: Seq<char>, name: Seq<char>) -> Seq<char> {
    match parent_spec(p) {
        Some(dir) => join_spec(dir, name),
        None => join_spec(p, name),
    }
}

proof fn lemma_last_separator_before(p: Seq<char>, end: int)
    requires
        0 <= end <= p.len(),
    ensures
        -1 <= last_separator_before(p, end) < end,
        last_separator_before(p, end) >= 0 ==> is_separator(p[last_separator_before(p, end)]),
        forall|j: int|
            last_separator_before(p, end) < j < end ==> !is_separator(#[trigger] p[j]),
    decreases end,
{
    if end > 0 && !is_separator(p[end - 1]) {
        lemma_last_separator_before(p, end - 1);
    }
}

/// The position of the last separator in `v`, if any.
fn find_last_separator(v: &[char]) -> (r: Option<usize>)
    ensures
        match r {
            Some(k) => k == last_separator(v@),
            None => last_separator(v@) == -1,
        },
        match r {
            Some(k) => k < v@.len(),
            None => true,
        },
{
    let mut end = v.len();
    proof {
        lemma_last_separator_before(v@, end as int);
    }
    while end > 0
        invariant
            end <= v@.len(),
            last_separator_before(v@, end as int) == last_separator(v@),
        decreases end,
    {
        let c = v[end - 1];
        if c == '\\' || c == '/' {
            return Some(end - 1);
        }
        end = end - 1;
    }
    None
}

fn is_drive_chars(v: &[char]) -> (r: bool)
    ensures
        r == is_drive(v@),
{
    v.len() == 2 && v[1] == ':' && (('a' <= v[0] && v[0] <= 'z') || ('A' <= v[0] && v[0] <= 'Z'))
}

/// `base` with the relative path `name` appended.
pub fn join(base: &str, name: &str) -> (r: String)
    ensures
        r@ == join_spec(base@, name@),
{
    let b = chars_of(base);
    let n = b.len();
    let mut out = string_of(b.as_slice());
    if !(n == 0 || b[n - 1] == '\\' || b[n - 1] == '/' || is_drive_chars(b.as_slice())) {
        crate::text::push_char(&mut out, '\\');
    }
    crate::text::push_str(&mut out, name);
    proof {
        if n > 0 {
            assert(b@.last() == b@[n - 1]);
        }
    }
    out
}

/// The final component of `p`, if it names a file or folder.
pub fn file_name(p: &str) -> (r: Option<String>)
    ensures
        match r {
            Some(s) => file_name_spec(p@) == Some(s@),
            None => file_name_spec(p@) is None,
        },
{
    let v = chars_of(p);
    let n = v.len();
    let start = match find_last_separator(v.as_slice()) {
        Some(k) => k + 1,
        None => 0,
    };
    let f = crate::text::slice_chars(v.as_slice(), start, n);
    let dot = chars_of(".");
    let dots = chars_of("..");
    proof {
        reveal_strlit(".");
        reveal_strlit("..");
    }
    if f.len() == 0 || crate::text::chars_eq(f.as_slice(), dot.as_slice()) || crate::text::chars_eq(
        f.as_slice(),
        dots.as_slice(),
    ) {
        None
    } else {
        Some(string_of(f.as_slice()))
    }
}

/// The folder that holds the final component of `p`, if it has one.
pub fn parent(p: &str) -> (r: Option<String>)
    ensures
        match r {
            Some(s) => parent_spec(p@) == Some(s@),
            None => parent_spec(p@) is None,
        },
{
    if file_name(p).is_none() {
        return None;
    }
    let v = chars_of(p);
    match find_last_separator(v.as_slice()) {
        None => Some(String::new()),
        Some(k) => {
            let head = crate::text::slice_chars(v.as_slice(), 0, k);
            if k == 0 || is_drive_chars(head.as_slice()) {
                let with_root = crate::text::slice_chars(v.as_slice(), 0, k + 1);
                Some(string_of(with_root.as_slice()))
            } else {
                Some(string_of(head.as_slice()))
            }
        },
    }
}

/// `p` with its final name replaced by `name`.
pub fn with_file_name(p: &str, name: &str) -> (r: String)
    ensures
        r@ == with_file_name_spec(p@, name@),
{
    match parent(p) {
        Some(dir) => join(dir.as_str(), name),
        None => join(p, name),
    }
}


proof fn lemma_last_separator_at(p: Seq<char>, k: int, end: int)
    requires
        0 <= k < end <= p.len(),
        is_separator(p[k]),
        forall|j: int| k < j < end ==> !is_separator(#[trigger] p[j]),
    ensures
        last_separator_before(p, end) == k,
    decreases end,
{
    if end - 1 > k {
        lemma_last_separator_at(p, k, end - 1);
    }
}

/// Joining a plain name (no separators, not `.` or `..`) onto a folder path that does not end in
/// a separator gives a path whose file name is that name and whose folder is that folder: what
/// `join` builds, `file_name` and `parent` take apart again.
pub proof fn lemma_join_then_split(dir: Seq<char>, name: Seq<char>)
    requires
        dir.len() > 0,
        !is_separator(dir.last()),
        !is_drive(dir),
        name.len() > 0,
        name != "."@,
        name != ".."@,
        forall|i: int| 0 <= i < name.len() ==> !is_separator(#[trigger] name[i]),
    ensures
        file_name_spec(join_spec(dir, name)) == Some(name),
        parent_spec(join_spec(dir, name)) == Some(dir),
{
    let p = join_spec(dir, name);
    assert(p == dir + seq!['\\'] + name);
    let k = dir.len() as int;
    assert(p[k] == '\\');
    assert forall|j: int| k < j < p.len() implies !is_separator(#[trigger] p[j]) by {
        assert(p[j] == name[j - k - 1]);
    }
    lemma_last_separator_at(p, k, p.len() as int);
    assert(p.subrange(k + 1, p.len() as int) =~= name);
    assert(p.subrange(0, k) =~= dir);
}

} // verus!
