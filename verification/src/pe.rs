//! Minimal PE (Portable Executable) header inspection.

use vstd::prelude::*;

verus! {

/// Number of bytes from the start of a file that [`machine`] needs in the common case.
pub const HEADER_PROBE_LEN: usize = 4096;

/// `IMAGE_FILE_MACHINE_AMD64`.
pub const MACHINE_AMD64: u16 = 0x8664;

/// The little-endian `u32` stored at `at..at + 4` of `h`.
pub open spec fn le32(h: Seq<u8>, at: int) -> int {
    h[at] + 256 * h[at + 1] + 65536 * h[at + 2] + 16777216 * h[at + 3]
}

/// The target machine a PE image declares in its header, `None` for anything else: the image
/// starts with `MZ`, the `u32` at `0x3C` is the offset of the `PE\0\0` signature, and the
/// machine field follows the signature as a little-endian `u16`.
pub open spec fn pe_machine(h: Seq<u8>) -> Option<u16> {
    if h.len() < 2 || h[0] != 0x4D || h[1] != 0x5A {
        None
    } else if h.len() < 0x40 {
        None
    } else {
        let off = le32(h, 0x3C);
        if off + 4 > h.len() || h[off] != 0x50 || h[off + 1] != 0x45 || h[off + 2] != 0 || h[off
            + 3] != 0 {
            None
        } else if off + 6 > h.len() {
            None
        } else {
            Some((h[off + 4] + 256 * h[off + 5]) as u16)
        }
    }
}

/// Returns the target machine of a PE image, read from the start of the file.
///
/// Returns `None` if `header` is not a PE image or is too short to contain the PE header.
pub fn machine(header: &[u8]) -> (r: Option<u16>)
    ensures
        r == pe_machine(header@),
{
    let len = header.len() as u64;
    if len < 2 || header[0] != 0x4D || header[1] != 0x5A {
        return None;
    }
    if len < 0x40 {
        return None;
    }
    let off: u64 = header[0x3C] as u64 + 256 * (header[0x3D] as u64) + 65536 * (
    header[0x3E] as u64) + 16777216 * (header[0x3F] as u64);
    assert(off == le32(header@, 0x3C));
    if off + 4 > len {
        return None;
    }
    let at = off as usize;
    if header[at] != 0x50 || header[at + 1] != 0x45 || header[at + 2] != 0 || header[at + 3] != 0 {
        return None;
    }
    if off + 6 > len {
        return None;
    }
    let lo = header[at + 4] as u16;
    let hi = header[at + 5] as u16;
    Some(lo + 256 * hi)
}

} // verus!
