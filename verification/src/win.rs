//! The parts of Breakbar's Windows integration that are plain data: frame colors, the autostart
//! command, the junction's reparse buffer, window lists, shortcuts and clock texts. The system
//! calls that use them are the application's.

use vstd::prelude::*;

use crate::text::{owned, padded, push_char, push_padded, push_str};

verus! {

/// Colors of a window's frame, as `0xRRGGBB`.
#[derive(Debug, Clone, Copy, PartialEq, Eq, Structural)]
pub struct FrameColors {
    pub caption: u32,
    pub text: u32,
    pub border: u32,
}

/// The native frame colors of the dark theme: caption = `title-bar`, text = `text-muted`, border =
/// `line-2`.
pub fn dark_frame() -> (r: FrameColors)
    ensures
        r == (FrameColors { caption: 0x0d0f12, text: 0x98a0ab, border: 0x2a3038 }),
{
    FrameColors { caption: 0x0d0f12, text: 0x98a0ab, border: 0x2a3038 }
}

/// The native frame colors of the light theme.
pub fn light_frame() -> (r: FrameColors)
    ensures
        r == (FrameColors { caption: 0xece2cc, text: 0x554c3c, border: 0xcbbb9a }),
{
    FrameColors { caption: 0xece2cc, text: 0x554c3c, border: 0xcbbb9a }
}

/// The `COLORREF` (`0x00BBGGRR`) of the color `0xRRGGBB`: red and blue swap places.
pub open spec fn colorref_spec(rgb: u32) -> int {
    let r = (rgb / 0x10000) % 0x100;
    let g = (rgb / 0x100) % 0x100;
    let b = rgb % 0x100;
    b * 0x10000 + g * 0x100 + r
}

/// The `COLORREF` of the color `0xRRGGBB`.
pub fn colorref(rgb: u32) -> (r: u32)
    ensures
        r == colorref_spec(rgb),
{
    let red = (rgb / 0x10000) % 0x100;
    let green = (rgb / 0x100) % 0x100;
    let blue = rgb % 0x100;
    blue * 0x10000 + green * 0x100 + red
}

/// Registry hive to read from.
#[derive(Debug, Clone, Copy, PartialEq, Eq, Structural)]
pub enum Root {
    CurrentUser,
    LocalMachine,
}

/// The registry key whose values start programs when the user signs in.
pub const RUN_KEY: &'static str = "Software\\Microsoft\\Windows\\CurrentVersion\\Run";

/// The `Run` entry that starts `exe`: the path in quotes, so a path containing spaces still runs
/// correctly.
pub fn run_command(exe: &str) -> (r: String)
    ensures
        r@ == seq!['"'] + exe@ + seq!['"'],
{
    let mut s = String::new();
    push_char(&mut s, '"');
    push_str(&mut s, exe);
    push_char(&mut s, '"');
    s
}

/// A top-level window and what is needed to tell windows apart.
#[derive(Debug, Clone, PartialEq, Eq)]
pub struct WindowInfo {
    pub hwnd: isize,
    pub class_name: String,
    pub visible: bool,
}

/// Whether one of `windows` is visible and of one of the window classes `classes`.
pub fn shows_window(windows: &[WindowInfo], classes: &[&str]) -> (r: bool)
    ensures
        r == exists|i: int, k: int|
            0 <= i < windows@.len() && 0 <= k < classes@.len() && #[trigger] windows@[i].visible
                && windows@[i].class_name@ == #[trigger] classes@[k]@,
{
    for i in 0..windows.len()
        invariant
            forall|j: int, k: int|
                0 <= j < i && 0 <= k < classes@.len() ==> !(#[trigger] windows@[j].visible
                    && windows@[j].class_name@ == #[trigger] classes@[k]@),
    {
        if windows[i].visible {
            for k in 0..classes.len()
                invariant
                    i < windows@.len(),
                    windows@[i as int].visible,
                    forall|j: int, k2: int|
                        0 <= j < i && 0 <= k2 < classes@.len() ==> !(#[trigger] windows@[j].visible
                            && windows@[j].class_name@ == #[trigger] classes@[k2]@),
                    forall|k2: int|
                        0 <= k2 < k ==> windows@[i as int].class_name@ != #[trigger] classes@[k2]@,
            {
                if crate::text::str_eq(windows[i].class_name.as_str(), classes[k]) {
                    return true;
                }
            }
        }
    }
    false
}

/// What a shortcut starts.
#[derive(Debug, Clone)]
pub struct Shortcut<'a> {
    pub target: &'a str,
    pub arguments: &'a str,
    pub working_dir: &'a str,
    /// Shown as the tooltip.
    pub description: &'a str,
    /// File whose first icon the shortcut shows.
    pub icon: &'a str,
}

/// `IO_REPARSE_TAG_MOUNT_POINT`.
pub const IO_REPARSE_TAG_MOUNT_POINT: u32 = 0xA000_0003;

/// NT-namespace prefix required for a mount point's substitute name.
pub const NT_PATH_PREFIX: &'static str = "\\??\\";

/// The UTF-16 code units of `c`.
pub open spec fn utf16_of(c: char) -> Seq<u16> {
    let v = (c as u32) as int;
    if v < 0x10000 {
        seq![v as u16]
    } else {
        let w = v - 0x10000;
        seq![(0xD800 + w / 0x400) as u16, (0xDC00 + w % 0x400) as u16]
    }
}

/// The UTF-16 encoding of `s`, as `str::encode_utf16` produces it.
pub open spec fn utf16(s: Seq<char>) -> Seq<u16>
    decreases s.len(),
{
    if s.len() == 0 {
        Seq::empty()
    } else {
        utf16(s.drop_last()) + utf16_of(s.last())
    }
}

/// The two bytes of `v`, least significant first.
pub open spec fn le16(v: int) -> Seq<u8> {
    seq![(v % 0x100) as u8, ((v / 0x100) % 0x100) as u8]
}

/// The bytes of the UTF-16 code units `units`, each least significant byte first.
pub open spec fn units_le(units: Seq<u16>) -> Seq<u8>
    decreases units.len(),
{
    if units.len() == 0 {
        Seq::empty()
    } else {
        units_le(units.drop_last()) + le16(units.last() as int)
    }
}

/// A Mount Point Reparse Buffer (`[MS-FSCC] 2.1.2.4`) with the substitute name `name` (already
/// encoded) and no print name: the tag, the data length, a reserved field, the substitute name's
/// offset and length, the print name's offset and length, the name, and two zero code units (the
/// name's terminator and the empty print name). Lengths are in bytes, 16 bits wide.
pub open spec fn reparse_buffer(name: Seq<u16>) -> Seq<u8> {
    let n: int = 2 * (name.len() as int);
    seq![0x03u8, 0x00u8, 0x00u8, 0xA0u8] + le16((n + 12) % 0x10000) + seq![0u8, 0u8, 0u8, 0u8]
        + le16(n % 0x10000) + le16((n + 2) % 0x10000) + seq![0u8, 0u8] + units_le(name) + seq![
        0u8,
        0u8,
        0u8,
        0u8,
    ]
}

/// The substitute name of a junction to `target`: the NT prefix, the path and a closing `\`.
pub open spec fn substitute_name(target: Seq<char>) -> Seq<char> {
    NT_PATH_PREFIX@ + target + seq!['\\']
}

fn push_le16(out: &mut Vec<u8>, v: usize)
    ensures
        final(out)@ == old(out)@ + le16((v % 0x10000) as int),
{
    let w = v % 0x10000;
    out.push((w % 0x100) as u8);
    out.push(((w / 0x100) % 0x100) as u8);
    assert(((v % 0x10000) as int) % 0x100 == w % 0x100);
}

/// Builds the reparse buffer that makes a folder a junction to `target`.
pub fn mount_point_buffer(target: &str) -> (r: Vec<u8>)
    requires
        3 * target@.len() + 5 <= usize::MAX / 4,
    ensures
        r@ == reparse_buffer(utf16(substitute_name(target@))),
{
    let mut name_chars = crate::text::chars_of(NT_PATH_PREFIX);
    let t = crate::text::chars_of(target);
    for i in 0..t.len()
        invariant
            name_chars@ == NT_PATH_PREFIX@ + t@.take(i as int),
    {
        name_chars.push(t[i]);
        assert(t@.take(i + 1) =~= t@.take(i as int).push(t@[i as int]));
    }
    assert(t@.take(t@.len() as int) =~= t@);
    name_chars.push('\\');
    proof {
        reveal_strlit("\\??\\");
        assert(name_chars@ =~= substitute_name(target@));
    }
    let mut units: Vec<u16> = Vec::new();
    for i in 0..name_chars.len()
        invariant
            name_chars@.len() == target@.len() + 5,
            3 * target@.len() + 5 <= usize::MAX / 4,
            units@ == utf16(name_chars@.take(i as int)),
            units@.len() <= 2 * i,
    {
        assert(name_chars@.take(i + 1).drop_last() =~= name_chars@.take(i as int));
        assert(name_chars@.take(i + 1).last() == name_chars@[i as int]);
        let c = name_chars[i];
        let v = c as u32;
        let ghost before = units@;
        if v < 0x10000 {
            units.push(v as u16);
            assert(units@ =~= before + utf16_of(c));
        } else {
            let w = v - 0x10000;
            assert(w < 0x100000) by {
                vstd::utf8::char_is_scalar(c);
            }
            let hi = (0xD800 + w / 0x400) as u16;
            let lo = (0xDC00 + w % 0x400) as u16;
            units.push(hi);
            units.push(lo);
            assert(units@ =~= before + utf16_of(c));
        }
    }
    assert(name_chars@.take(name_chars@.len() as int) =~= name_chars@);
    let name_bytes = units.len() * 2;
    let mut out: Vec<u8> = Vec::new();
    out.push(0x03);
    out.push(0x00);
    out.push(0x00);
    out.push(0xA0);
    push_le16(&mut out, name_bytes + 12);
    out.push(0);
    out.push(0);
    out.push(0);
    out.push(0);
    push_le16(&mut out, name_bytes);
    push_le16(&mut out, name_bytes + 2);
    out.push(0);
    out.push(0);
    let ghost head = out@;
    for i in 0..units.len()
        invariant
            out@ == head + units_le(units@.take(i as int)),
    {
        assert(units@.take(i + 1).drop_last() =~= units@.take(i as int));
        assert(units@.take(i + 1).last() == units@[i as int]);
        let u = units[i];
        out.push((u % 0x100) as u8);
        out.push((u / 0x100) as u8);
        assert(out@ =~= head + units_le(units@.take(i + 1)));
    }
    assert(units@.take(units@.len() as int) =~= units@);
    out.push(0);
    out.push(0);
    out.push(0);
    out.push(0);
    proof {
        let n = units@.len();
        assert(out@ =~= reparse_buffer(units@));
    }
    out
}

/// A time of day as `HH:MM`, as the list shows when a client started.
pub fn clock_text(hour: u16, minute: u16) -> (r: String)
    ensures
        r@ == padded(hour as nat, 2) + seq![':'] + padded(minute as nat, 2),
{
    let mut s = String::new();
    push_padded(&mut s, hour as u64, 2);
    push_char(&mut s, ':');
    push_padded(&mut s, minute as u64, 2);
    s
}

/// A date and time as `YYYY-MM-DD HH:MM:SS`.
pub fn timestamp_text(year: u16, month: u16, day: u16, hour: u16, minute: u16, second: u16) -> (r:
    String)
    ensures
        r@ == padded(year as nat, 4) + seq!['-'] + padded(month as nat, 2) + seq!['-'] + padded(
            day as nat,
            2,
        ) + seq![' '] + padded(hour as nat, 2) + seq![':'] + padded(minute as nat, 2) + seq![':']
            + padded(second as nat, 2),
{
    let mut s = String::new();
    push_padded(&mut s, year as u64, 4);
    push_char(&mut s, '-');
    push_padded(&mut s, month as u64, 2);
    push_char(&mut s, '-');
    push_padded(&mut s, day as u64, 2);
    push_char(&mut s, ' ');
    push_padded(&mut s, hour as u64, 2);
    push_char(&mut s, ':');
    push_padded(&mut s, minute as u64, 2);
    push_char(&mut s, ':');
    push_padded(&mut s, second as u64, 2);
    s
}


/// The log is moved aside (replacing an older one) once it grows past this many bytes.
pub const MAX_LOG_BYTES: u64 = 256 * 1024;

/// A line of the log: the time, the process id in brackets, the message.
pub fn log_line(timestamp: &str, pid: u32, message: &str) -> (r: String)
    ensures
        r@ == timestamp@ + " ["@ + crate::text::decimal(pid as nat) + "] "@ + message@ + seq!['\n'],
{
    let mut s = owned(timestamp);
    push_str(&mut s, " [");
    crate::text::push_decimal(&mut s, pid as u64);
    push_str(&mut s, "] ");
    push_str(&mut s, message);
    push_char(&mut s, '\n');
    s
}

/// Whether a log of `len` bytes is moved aside before the next line is written.
pub fn needs_rotation(len: u64, max_bytes: u64) -> (r: bool)
    ensures
        r == (len > max_bytes),
{
    len > max_bytes
}


/// The last `\`-separated component of an object's full name (such as
/// `\Sessions\1\BaseNamedObjects\AN-Mutex-Window-Guild Wars 2`), the whole name if it has none.
pub open spec fn last_component_spec(name: Seq<char>) -> Seq<char> {
    name.subrange(crate::game::last_index_before(name, '\\', name.len() as int) + 1, name.len() as int)
}

/// Whether the object with the full name `full_name` is the named object `object_name`.
pub fn names_object(full_name: &str, object_name: &str) -> (r: bool)
    ensures
        r == (last_component_spec(full_name@) == object_name@),
{
    let v = crate::text::chars_of(full_name);
    let n = v.len();
    let mut k = n;
    while k > 0 && v[k - 1] != '\\'
        invariant
            k <= n == v@.len(),
            crate::game::last_index_before(v@, '\\', k as int) == crate::game::last_index_before(
                v@,
                '\\',
                n as int,
            ),
        decreases k,
    {
        k = k - 1;
    }
    let last = crate::text::slice_chars(v.as_slice(), k, n);
    let wanted = crate::text::chars_of(object_name);
    crate::text::chars_eq(last.as_slice(), wanted.as_slice())
}

} // verus!
