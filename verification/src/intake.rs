//! The intake before the demuxer probe: which bytes are handed to it at all.
//!
//! The probe and the format readers behind it are written for well-formed
//! files, and on some malformed ones they do not return: they run into an
//! assertion or an arm marked unreachable. So a clip reaches the probe only
//! in a shape for which the reader's way through it is known. After a
//! leading ID3v2 tag, which is skipped here and never parsed, that is
//! either an MPEG audio frame header, or a RIFF/WAVE container whose chunks
//! up to the sample data have been walked here, as the reader will walk
//! them, and state a format that the reader takes without more ado.
//!
//! Every other clip is refused without a call. That includes every Ogg
//! container: its reader unpacks the Vorbis setup header at once, and the
//! assertions on that way depend on a floating-point root that no test on
//! the bytes can vouch for. A caller who will go without the promise that
//! the call returns can ask [`is_ogg`], make the calls for such a clip
//! itself, and hand their outcomes to `decode::advance`.

use vstd::prelude::*;

verus! {

/// Chunk lengths, and the length that the RIFF header states, must stay
/// below this for a container to be walked.
pub const CHUNK_LIMIT: u32 = 0x8000_0000;

/// Whether the four bytes at `at` are `a`, `b`, `c`, `d`.
pub open spec fn four_at(bytes: Seq<u8>, at: int, a: u8, b: u8, c: u8, d: u8) -> bool {
    &&& 0 <= at
    &&& at + 4 <= bytes.len()
    &&& bytes[at] == a
    &&& bytes[at + 1] == b
    &&& bytes[at + 2] == c
    &&& bytes[at + 3] == d
}

/// The little-endian 16-bit number at `at`.
pub open spec fn u16_at(bytes: Seq<u8>, at: int) -> int {
    bytes[at] + 0x100 * bytes[at + 1]
}

/// The little-endian 32-bit number at `at`.
pub open spec fn u32_at(bytes: Seq<u8>, at: int) -> int {
    bytes[at] + 0x100 * bytes[at + 1] + 0x1_0000 * bytes[at + 2] + 0x100_0000 * bytes[at + 3]
}

/// The length of the ID3v2 tag that `bytes` begin with, header and footer
/// included: 0 if they begin with none.
pub open spec fn tag_len(bytes: Seq<u8>) -> int {
    if bytes.len() >= 10 && bytes[0] == 0x49 && bytes[1] == 0x44 && bytes[2] == 0x33 && bytes[6]
        < 0x80 && bytes[7] < 0x80 && bytes[8] < 0x80 && bytes[9] < 0x80 {
        let size = 0x20_0000 * bytes[6] + 0x4000 * bytes[7] + 0x80 * bytes[8] + bytes[9];
        let footer: int = if bytes[3] == 4 && bytes[5] / 0x10 % 2 == 1 {
            10
        } else {
            0
        };
        10 + size + footer
    } else {
        0
    }
}

/// Whether `bytes` begin with the header of an MPEG audio frame: eleven
/// set bits, then a version and a layer that exist.
pub open spec fn starts_mpeg(bytes: Seq<u8>) -> bool {
    &&& bytes.len() >= 2
    &&& bytes[0] == 0xff
    &&& (0xe2 <= bytes[1] <= 0xe7 || 0xf2 <= bytes[1] <= 0xf7 || 0xfa <= bytes[1])
}

/// Whether the format chunk of `len` bytes at `body` is one that is let
/// through. Its sample rate is not zero, and it is one of these: plain PCM
/// or IEEE samples in a chunk of a plain length; A-law or mu-law samples in
/// a chunk of 18 bytes that announces no more; or the extensible form at
/// its one length, with at least 8 bits to a coded sample, from 1 to 31
/// channels, and no channel in the topmost place of its channel mask.
pub open spec fn format_passes(bytes: Seq<u8>, body: int, len: int) -> bool {
    let format = u16_at(bytes, body);
    &&& u32_at(bytes, body + 4) >= 1
    &&& if format == 1 || format == 3 {
        len == 16 || len == 18 || len == 40
    } else if format == 6 || format == 7 {
        len == 18 && u16_at(bytes, body + 16) == 0
    } else {
        &&& format == 0xfffe
        &&& len == 40
        &&& u16_at(bytes, body + 14) >= 8
        &&& 1 <= u16_at(bytes, body + 2) < 32
        &&& u32_at(bytes, body + 20) < 0x8000_0000
    }
}

/// Whether `bytes` begin as an Ogg container does, with the capture
/// pattern of a page.
pub open spec fn starts_ogg(bytes: Seq<u8>) -> bool {
    four_at(bytes, 0, 0x4f, 0x67, 0x67, 0x53)
}

/// Whether the chunks from `at` on lead to the sample data, each of them
/// whole and let through. `consumed` counts the bytes of the container that
/// lie before `at`, and `stated` is the length that the RIFF header states.
pub open spec fn chunks_pass(bytes: Seq<u8>, stated: int, at: int, consumed: int) -> bool
    decreases bytes.len() - at,
{
    let pad: int = if consumed % 2 == 1 {
        1
    } else {
        0
    };
    let head = at + pad;
    let body = head + 8;
    let used = consumed + pad + 8;
    if at < 0 || body > bytes.len() || used > stated {
        false
    } else {
        let len = u32_at(bytes, head + 4);
        if len >= CHUNK_LIMIT || stated - used < len {
            false
        } else if four_at(bytes, head, 0x64, 0x61, 0x74, 0x61) {
            true
        } else if body + len > bytes.len() {
            false
        } else if four_at(bytes, head, 0x66, 0x6d, 0x74, 0x20) {
            format_passes(bytes, body, len) && chunks_pass(bytes, stated, body + len, used + len)
        } else if four_at(bytes, head, 0x66, 0x61, 0x63, 0x74) {
            len == 4 && chunks_pass(bytes, stated, body + len, used + len)
        } else if four_at(bytes, head, 0x4c, 0x49, 0x53, 0x54) {
            len >= 4 && len % 2 == 0 && chunks_pass(bytes, stated, body + len, used + len)
        } else {
            chunks_pass(bytes, stated, body + len, used + len)
        }
    }
}

/// Whether `bytes` are a RIFF/WAVE container that is let through.
pub open spec fn wave_passes(bytes: Seq<u8>) -> bool {
    &&& four_at(bytes, 0, 0x52, 0x49, 0x46, 0x46)
    &&& four_at(bytes, 8, 0x57, 0x41, 0x56, 0x45)
    &&& u32_at(bytes, 4) < CHUNK_LIMIT
    &&& chunks_pass(bytes, u32_at(bytes, 4), 12, 0)
}

/// Whether `bytes` may be handed to the probe.
pub open spec fn passes(bytes: Seq<u8>) -> bool {
    starts_mpeg(bytes) || wave_passes(bytes)
}

/// Whether a clip is let through: what follows its leading tag exists and
/// may be handed to the probe.
pub open spec fn admitted(bytes: Seq<u8>) -> bool {
    tag_len(bytes) <= bytes.len() && passes(payload(bytes))
}

/// What of a clip is handed to the probe: the bytes after its leading tag.
pub open spec fn payload(bytes: Seq<u8>) -> Seq<u8> {
    bytes.skip(tag_len(bytes))
}

fn is_four(bytes: &[u8], at: usize, a: u8, b: u8, c: u8, d: u8) -> (r: bool)
    requires
        at + 4 <= bytes@.len(),
    ensures
        r == four_at(bytes@, at as int, a, b, c, d),
{
    bytes[at] == a && bytes[at + 1] == b && bytes[at + 2] == c && bytes[at + 3] == d
}

fn read_u16(bytes: &[u8], at: usize) -> (r: u32)
    requires
        at + 2 <= bytes@.len(),
    ensures
        r == u16_at(bytes@, at as int),
{
    (bytes[at] as u32) + 0x100 * (bytes[at + 1] as u32)
}

fn read_u32(bytes: &[u8], at: usize) -> (r: u32)
    requires
        at + 4 <= bytes@.len(),
    ensures
        r == u32_at(bytes@, at as int),
{
    (bytes[at] as u32) + 0x100 * (bytes[at + 1] as u32) + 0x1_0000 * (bytes[at + 2] as u32)
        + 0x100_0000 * (bytes[at + 3] as u32)
}

fn format_is_passed(bytes: &[u8], body: usize, len: u32) -> (r: bool)
    requires
        body + len <= bytes@.len(),
    ensures
        r == format_passes(bytes@, body as int, len as int),
{
    let n: usize = bytes.len();
    if !(len == 16 || len == 18 || len == 40) {
        return false;
    }
    assert(body + 16 <= n);
    let format: u32 = read_u16(bytes, body);
    if read_u32(bytes, body + 4) < 1 {
        return false;
    }
    if format == 1 || format == 3 {
        return true;
    }
    if format == 6 || format == 7 {
        return len == 18 && read_u16(bytes, body + 16) == 0;
    }
    let channels: u32 = read_u16(bytes, body + 2);
    format == 0xfffe && len == 40 && read_u16(bytes, body + 14) >= 8 && 1 <= channels && channels
        < 32 && read_u32(bytes, body + 20) < 0x8000_0000
}

/// The length of the ID3v2 tag that the bytes begin with, or 0.
pub fn leading_tag_len(bytes: &[u8]) -> (len: u64)
    ensures
        len == tag_len(bytes@),
{
    if bytes.len() >= 10 && bytes[0] == 0x49 && bytes[1] == 0x44 && bytes[2] == 0x33 && bytes[6]
        < 0x80 && bytes[7] < 0x80 && bytes[8] < 0x80 && bytes[9] < 0x80 {
        let high: u64 = 0x20_0000 * (bytes[6] as u64) + 0x4000 * (bytes[7] as u64);
        let size: u64 = high + 0x80 * (bytes[8] as u64) + (bytes[9] as u64);
        let footer: u64 = if bytes[3] == 4 && bytes[5] / 0x10 % 2 == 1 {
            10
        } else {
            0
        };
        10 + size + footer
    } else {
        0
    }
}

fn wave_is_passed(bytes: &[u8]) -> (r: bool)
    ensures
        r == wave_passes(bytes@),
{
    let n: usize = bytes.len();
    if n < 12 {
        return false;
    }
    if !is_four(bytes, 0, 0x52, 0x49, 0x46, 0x46) || !is_four(bytes, 8, 0x57, 0x41, 0x56, 0x45) {
        return false;
    }
    let stated: u32 = read_u32(bytes, 4);
    if stated >= CHUNK_LIMIT {
        return false;
    }
    let mut at: usize = 12;
    let mut consumed: u32 = 0;
    loop
        invariant
            n == bytes@.len(),
            stated < CHUNK_LIMIT,
            at <= n,
            consumed <= stated,
            wave_passes(bytes@) == chunks_pass(bytes@, stated as int, at as int, consumed as int),
        decreases n - at,
    {
        let pad: usize = if consumed % 2 == 1 {
            1
        } else {
            0
        };
        if n - at < pad + 8 || stated - consumed < (pad as u32) + 8 {
            return false;
        }
        let head: usize = at + pad;
        let body: usize = head + 8;
        let used: u32 = consumed + (pad as u32) + 8;
        let len: u32 = read_u32(bytes, head + 4);
        if len >= CHUNK_LIMIT || stated - used < len {
            return false;
        }
        if is_four(bytes, head, 0x64, 0x61, 0x74, 0x61) {
            return true;
        }
        if n - body < len as usize {
            return false;
        }
        if is_four(bytes, head, 0x66, 0x6d, 0x74, 0x20) {
            if !format_is_passed(bytes, body, len) {
                return false;
            }
        } else if is_four(bytes, head, 0x66, 0x61, 0x63, 0x74) {
            if len != 4 {
                return false;
            }
        } else if is_four(bytes, head, 0x4c, 0x49, 0x53, 0x54) {
            if len < 4 || len % 2 == 1 {
                return false;
            }
        }
        at = body + len as usize;
        consumed = used + len;
    }
}

/// Whether the bytes begin as an Ogg container does.
pub fn is_ogg(bytes: &[u8]) -> (r: bool)
    ensures
        r == starts_ogg(bytes@),
{
    bytes.len() >= 4 && is_four(bytes, 0, 0x4f, 0x67, 0x67, 0x53)
}

/// Whether the bytes may be handed to the probe.
pub fn is_passed(bytes: &[u8]) -> (r: bool)
    ensures
        r == passes(bytes@),
{
    if bytes.len() >= 2 && bytes[0] == 0xff && (0xe2 <= bytes[1] && bytes[1] <= 0xe7 || 0xf2
        <= bytes[1] && bytes[1] <= 0xf7 || 0xfa <= bytes[1]) {
        return true;
    }
    wave_is_passed(bytes)
}

} // verus!
