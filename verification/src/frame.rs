//! A zstd frame that decompresses to a run of zero bytes.
//!
//! The frame follows the layout of RFC 8878, section 3.1.1: the magic number,
//! a frame header (descriptor, window descriptor, frame content size; a
//! single-segment frame, used under 256 bytes, has no window descriptor) and
//! a sequence of RLE blocks, each a 3-byte block header followed by the
//! single byte `0x00` that the block repeats.

use vstd::prelude::*;
use vstd::arithmetic::power2::pow2;
use crate::bytes_le::{
    le_bytes, le_value, lemma_le_bytes_extend, lemma_le_bytes_len, lemma_le_roundtrip,
    lemma_pow256_values, push_le,
};

verus! {

/// `Content-Encoding` header value of a response carrying a frame.
pub const CONTENT_ENCODING: &'static str = "zstd";

/// Largest block size a zstd frame may use, 128 KiB.
pub const BLOCK_MAX_SIZE: u64 = 131072;

/// Largest window exponent the encoder uses: windows are capped at 16 MiB.
pub const MAX_WINDOW_EXPONENT: u8 = 14;

/// The zstd magic number, `0xFD2FB528` in little-endian order.
pub open spec fn frame_magic() -> Seq<u8> {
    seq![0x28u8, 0xB5u8, 0x2Fu8, 0xFDu8]
}

/// The Frame_Content_Size_flag the encoder picks for `t` bytes of content.
pub open spec fn spec_fcs_flag(t: nat) -> nat {
    if t <= 255 {
        0
    } else if t <= 65791 {
        1
    } else if t <= 0xffff_ffff {
        2
    } else {
        3
    }
}

/// The Frame_Content_Size field the encoder writes for `t` bytes of content:
/// one byte, two bytes holding `t - 256`, four bytes or eight bytes.
pub open spec fn spec_fcs_field(t: nat) -> Seq<u8> {
    let flag = spec_fcs_flag(t);
    if flag == 0 {
        le_bytes(t, 1)
    } else if flag == 1 {
        le_bytes((t - 256) as nat, 2)
    } else if flag == 2 {
        le_bytes(t, 4)
    } else {
        le_bytes(t, 8)
    }
}

/// The window size that a window descriptor with exponent `e` and mantissa 0 denotes.
pub open spec fn spec_window_size(e: nat) -> nat {
    pow2(10 + e)
}

/// The largest exponent `e` in `1..=top` whose window is smaller than `t`, or 0.
pub open spec fn exponent_below(t: nat, top: nat) -> nat
    decreases top,
{
    if top == 0 {
        0
    } else if t > spec_window_size(top) {
        top
    } else {
        exponent_below(t, (top - 1) as nat)
    }
}

/// The window exponent the encoder picks for `t` bytes of content.
pub open spec fn spec_window_exponent(t: nat) -> nat {
    exponent_below(t, MAX_WINDOW_EXPONENT as nat)
}

/// The size of each block but the last. A single-segment frame (under 256
/// bytes) holds one block of the whole content; otherwise blocks fill the
/// window, capped at 128 KiB.
pub open spec fn spec_block_limit(t: nat) -> nat {
    if t <= 255 {
        t
    } else {
        let w = spec_window_size(spec_window_exponent(t));
        if w < BLOCK_MAX_SIZE { w } else { BLOCK_MAX_SIZE as nat }
    }
}

/// The 3-byte header of an RLE block of `size` bytes.
pub open spec fn rle_block_header(size: nat, last: bool) -> Seq<u8> {
    le_bytes((if last { 1nat } else { 0nat }) + 2 + 8 * size, 3)
}

/// RLE blocks that together repeat `0x00` `r` times, each block holding at
/// most `limit` bytes; only the final block carries the Last_Block flag.
pub open spec fn rle_blocks(r: nat, limit: nat) -> Seq<u8>
    decreases r,
{
    if r == 0 || limit == 0 {
        Seq::empty()
    } else {
        let size = if r < limit { r } else { limit };
        rle_block_header(size, size == r) + seq![0u8] + rle_blocks((r - size) as nat, limit)
    }
}

/// The frame header. Under 256 bytes: the magic number, a descriptor with
/// only the Single_Segment flag set (so no window descriptor and a one-byte
/// content size) and the size. From 256 bytes: the magic number, a
/// descriptor holding the content size flag (single segment, checksum and
/// dictionary flags clear), the window descriptor and the content size field.
pub open spec fn spec_frame_header(t: nat) -> Seq<u8> {
    if t <= 255 {
        frame_magic() + seq![0x20u8] + le_bytes(t, 1)
    } else {
        frame_magic() + seq![(spec_fcs_flag(t) * 64) as u8, (spec_window_exponent(t) * 8) as u8]
            + spec_fcs_field(t)
    }
}

/// The length of the frame header for `t` bytes of content.
pub open spec fn frame_header_len(t: nat) -> nat {
    if t <= 255 {
        6
    } else if t <= 65791 {
        8
    } else if t <= 0xffff_ffff {
        10
    } else {
        14
    }
}

/// The frame the encoder produces for `t` zero bytes.
pub open spec fn spec_zeros(t: nat) -> Seq<u8> {
    spec_frame_header(t) + rle_blocks(t, spec_block_limit(t))
}

/// Windows range from 1 KiB (exponent 0) to 16 MiB (exponent 14).
pub proof fn lemma_window_size_bounds(e: nat)
    requires
        e <= MAX_WINDOW_EXPONENT,
    ensures
        1024 <= spec_window_size(e) <= 16777216,
{
    vstd::arithmetic::power2::lemma2_to64();
    if e > 0 {
        vstd::arithmetic::power2::lemma_pow2_strictly_increases(10, 10 + e);
    }
    if e < 14 {
        vstd::arithmetic::power2::lemma_pow2_strictly_increases(10 + e, 24);
    }
}


/// Size of the Frame_Content_Size field for a flag value (RFC 8878, 3.1.1.1.1).
pub open spec fn fcs_field_size(flag: nat, single_segment: bool) -> nat {
    if flag == 0 {
        if single_segment { 1 } else { 0 }
    } else if flag == 1 {
        2
    } else if flag == 2 {
        4
    } else {
        8
    }
}

/// The window size a Window_Descriptor byte denotes (RFC 8878, 3.1.1.1.2).
pub open spec fn window_from_descriptor(wd: u8) -> nat {
    let exponent = wd as nat / 8;
    let mantissa = wd as nat % 8;
    let base = pow2(10 + exponent);
    base + (base / 8) * mantissa
}

/// What a sequence of blocks decompresses to (RFC 8878, 3.1.1.2), for Raw
/// and RLE blocks of at most `limit` bytes; the bytes must end with the block
/// that carries the Last_Block flag. `None` when the blocks are malformed or
/// hold a Compressed block, which this model does not cover.
pub open spec fn decode_blocks(b: Seq<u8>, limit: nat) -> Option<Seq<u8>>
    decreases b.len(),
{
    if b.len() < 3 {
        None
    } else {
        let h = le_value(b.take(3));
        let last = h % 2 == 1;
        let block_type = (h / 2) % 4;
        let size = h / 8;
        if size > limit || block_type >= 2 {
            None
        } else {
            let content_len: nat = if block_type == 0 { size } else { 1 };
            if b.len() < 3 + content_len {
                None
            } else {
                let data = if block_type == 0 {
                    b.subrange(3, 3 + content_len as int)
                } else {
                    Seq::new(size, |i: int| b[3])
                };
                if last {
                    if b.len() == 3 + content_len { Some(data) } else { None }
                } else {
                    match decode_blocks(b.skip(3 + content_len as int), limit) {
                        Some(rest) => Some(data + rest),
                        None => None,
                    }
                }
            }
        }
    }
}

/// What a byte string holding exactly one zstd frame decompresses to
/// (RFC 8878, 3.1.1). The model covers frames without dictionary and without
/// content checksum whose blocks are Raw or RLE; it yields `None` for any
/// other byte string. When the header declares a content size, the
/// decompressed length must equal it.
pub open spec fn decode_frame(b: Seq<u8>) -> Option<Seq<u8>> {
    if b.len() < 5 || b.take(4) != frame_magic() {
        None
    } else {
        let fhd = b[4] as nat;
        let flag = fhd / 64;
        let single_segment = (fhd / 32) % 2 == 1;
        if (fhd / 8) % 2 != 0 || (fhd / 4) % 2 != 0 || fhd % 4 != 0 {
            None
        } else {
            let descriptor_len: nat = if single_segment { 0 } else { 1 };
            let fcs_len = fcs_field_size(flag, single_segment);
            let start = 5 + descriptor_len;
            let header_len = start + fcs_len;
            if b.len() < header_len {
                None
            } else {
                let raw = le_value(b.subrange(start as int, header_len as int));
                let content_size = if fcs_len == 2 { raw + 256 } else { raw };
                let window = if single_segment { content_size } else { window_from_descriptor(b[5]) };
                let limit = if window < BLOCK_MAX_SIZE { window } else { BLOCK_MAX_SIZE as nat };
                match decode_blocks(b.skip(header_len as int), limit) {
                    None => None,
                    Some(out) => if fcs_len > 0 && out.len() != content_size {
                        None
                    } else {
                        Some(out)
                    },
                }
            }
        }
    }
}

/// `n` zero bytes.
pub open spec fn zero_run(n: nat) -> Seq<u8> {
    Seq::new(n, |i: int| 0u8)
}

/// The RLE blocks the encoder writes decompress to `r` zero bytes.
pub proof fn lemma_decode_rle_blocks(r: nat, limit: nat)
    requires
        r > 0,
        1 <= limit <= BLOCK_MAX_SIZE,
    ensures
        decode_blocks(rle_blocks(r, limit), limit) == Some(zero_run(r)),
    decreases r,
{
    let size = if r < limit { r } else { limit };
    let last = size == r;
    let h: nat = (if last { 1nat } else { 0nat }) + 2 + 8 * size;
    let rest = rle_blocks((r - size) as nat, limit);
    let b = rle_blocks(r, limit);
    assert(b == rle_block_header(size, last) + seq![0u8] + rest);
    lemma_pow256_values();
    lemma_le_roundtrip(h, 3);
    assert(b.take(3) =~= le_bytes(h, 3));
    assert(h % 2 == (if last { 1nat } else { 0nat }));
    assert((h / 2) % 4 == 1);
    assert(h / 8 == size);
    assert(b[3] == 0);
    assert(b.skip(4) =~= rest);
    let data = Seq::new(size, |i: int| b[3]);
    if last {
        assert(rest =~= Seq::<u8>::empty());
        assert(data =~= zero_run(r));
    } else {
        lemma_decode_rle_blocks((r - size) as nat, limit);
        assert(data + zero_run((r - size) as nat) =~= zero_run(r));
    }
}

/// The frame the encoder writes for `t` zero bytes is a zstd frame that
/// decompresses to exactly `t` zero bytes.
pub proof fn lemma_zeros_decode(t: nat)
    requires
        1 <= t <= u64::MAX,
    ensures
        decode_frame(spec_zeros(t)) == Some(zero_run(t)),
{
    let b = spec_zeros(t);
    let limit = spec_block_limit(t);
    lemma_pow256_values();
    if t <= 255 {
        lemma_le_roundtrip(t, 1);
        assert(b.take(4) =~= frame_magic());
        assert(b[4] == 0x20u8);
        let fhd = b[4] as nat;
        assert(fhd / 64 == 0 && (fhd / 32) % 2 == 1);
        assert((fhd / 8) % 2 == 0 && (fhd / 4) % 2 == 0 && fhd % 4 == 0);
        assert(b.subrange(5, 6) =~= le_bytes(t, 1));
        assert(b.skip(6) =~= rle_blocks(t, limit));
        lemma_decode_rle_blocks(t, limit);
    } else {
        let flag = spec_fcs_flag(t);
        let e = spec_window_exponent(t);
        let fcs = spec_fcs_field(t);
        lemma_exponent_below_bound(t, MAX_WINDOW_EXPONENT as nat);
        lemma_window_size_bounds(e);
        if flag == 1 {
            lemma_le_roundtrip((t - 256) as nat, 2);
        } else if flag == 2 {
            lemma_le_roundtrip(t, 4);
        } else {
            lemma_le_roundtrip(t, 8);
        }
        let fcs_len = fcs.len();
        assert(fcs_len == fcs_field_size(flag, false));
        assert(b.take(4) =~= frame_magic());
        assert(b[4] == (flag * 64) as u8);
        assert(b[5] == (e * 8) as u8);
        let fhd = b[4] as nat;
        assert(fhd / 64 == flag);
        assert((fhd / 32) % 2 == 0);
        assert((fhd / 8) % 2 == 0 && (fhd / 4) % 2 == 0 && fhd % 4 == 0);
        assert(b.subrange(6, 6 + fcs_len as int) =~= fcs);
        let wd = b[5];
        assert(wd as nat / 8 == e && wd as nat % 8 == 0);
        assert(window_from_descriptor(wd) == spec_window_size(e));
        assert(b.skip(6 + fcs_len as int) =~= rle_blocks(t, limit));
        lemma_decode_rle_blocks(t, limit);
    }
}

/// A block header value fits in 21 bits, so its 4-byte little-endian
/// encoding is the 3-byte header followed by the RLE byte `0x00`.
pub proof fn lemma_block_header_high_byte_zero(size: nat, last: bool)
    requires
        size <= BLOCK_MAX_SIZE,
    ensures
        le_bytes((if last { 1nat } else { 0nat }) + 2 + 8 * size, 4) == rle_block_header(size, last)
            + seq![0u8],
{
    let h: nat = (if last { 1nat } else { 0nat }) + 2 + 8 * size;
    lemma_pow256_values();
    lemma_le_bytes_extend(h, 3);
    assert(h / 16777216 == 0);
}

/// How many blocks of at most `limit` bytes hold `r` bytes: `r / limit`
/// rounded up.
pub open spec fn block_count(r: nat, limit: nat) -> int {
    (r + limit - 1) / (limit as int)
}

/// `r` zero bytes take one 4-byte RLE block per started `limit` bytes.
pub proof fn lemma_rle_blocks_len(r: nat, limit: nat)
    requires
        limit >= 1,
    ensures
        rle_blocks(r, limit).len() == 4 * block_count(r, limit),
    decreases r,
{
    lemma_pow256_values();
    if r == 0 {
        assert((limit - 1) / (limit as int) == 0) by (nonlinear_arith)
            requires
                limit >= 1,
        ;
    } else {
        let size = if r < limit { r } else { limit };
        let last = size == r;
        lemma_le_bytes_len((if last { 1nat } else { 0nat }) + 2 + 8 * size, 3);
        lemma_rle_blocks_len((r - size) as nat, limit);
        if r <= limit {
            assert((r + limit - 1) / (limit as int) == 1) by (nonlinear_arith)
                requires
                    1 <= r <= limit,
            ;
            assert((limit - 1) / (limit as int) == 0) by (nonlinear_arith)
                requires
                    limit >= 1,
            ;
        } else {
            let x: int = r - 1;
            assert((x + limit) / (limit as int) == x / (limit as int) + 1) by (nonlinear_arith)
                requires
                    limit >= 1,
            ;
        }
    }
}

/// The frame for `t` bytes: its header, then one 4-byte RLE block per
/// started block of `spec_block_limit(t)` bytes.
pub proof fn lemma_zeros_len(t: nat)
    requires
        1 <= t <= u64::MAX,
    ensures
        spec_zeros(t).len() == frame_header_len(t) + 4 * block_count(t, spec_block_limit(t)),
{
    lemma_pow256_values();
    lemma_exponent_below_bound(t, MAX_WINDOW_EXPONENT as nat);
    lemma_window_size_bounds(spec_window_exponent(t));
    let flag = spec_fcs_flag(t);
    if t <= 255 {
        lemma_le_bytes_len(t, 1);
    } else if flag == 1 {
        lemma_le_bytes_len((t - 256) as nat, 2);
    } else if flag == 2 {
        lemma_le_bytes_len(t, 4);
    } else {
        lemma_le_bytes_len(t, 8);
    }
    lemma_rle_blocks_len(t, spec_block_limit(t));
}

/// The chosen window exponent never exceeds the search bound.
pub proof fn lemma_exponent_below_bound(t: nat, top: nat)
    ensures
        exponent_below(t, top) <= top,
    decreases top,
{
    if top > 0 {
        lemma_exponent_below_bound(t, (top - 1) as nat);
    }
}

/// A chosen exponent above 0 has a window smaller than the content.
pub proof fn lemma_exponent_below_window(t: nat, top: nat)
    ensures
        exponent_below(t, top) > 0 ==> t > spec_window_size(exponent_below(t, top)),
    decreases top,
{
    if top > 0 && !(t > spec_window_size(top)) {
        lemma_exponent_below_window(t, (top - 1) as nat);
    }
}

/// Every exponent above the chosen one, up to the bound, has a window at
/// least as large as the content.
pub proof fn lemma_exponent_below_max(t: nat, top: nat, e: nat)
    requires
        exponent_below(t, top) < e <= top,
    ensures
        t <= spec_window_size(e),
    decreases top,
{
    if top > 0 && !(t > spec_window_size(top)) && e < top {
        lemma_exponent_below_max(t, (top - 1) as nat, e);
    }
}

/// The number of blocks in the frame for `t` bytes: one up to 1 KiB, two up
/// to 256 KiB, then one per started 128 KiB.
pub open spec fn spec_frame_blocks(t: nat) -> int {
    if t <= 1024 {
        1
    } else if t <= 262144 {
        2
    } else {
        block_count(t, BLOCK_MAX_SIZE as nat)
    }
}

/// The block count of the frame for `t` bytes, piece by piece.
pub proof fn lemma_block_count_values(t: nat)
    requires
        1 <= t <= u64::MAX,
    ensures
        block_count(t, spec_block_limit(t)) == spec_frame_blocks(t),
{
    vstd::arithmetic::power2::lemma2_to64();
    let e = spec_window_exponent(t);
    let top = MAX_WINDOW_EXPONENT as nat;
    lemma_exponent_below_bound(t, top);
    lemma_exponent_below_window(t, top);
    if t <= 255 {
        assert((t + t - 1) / (t as int) == 1) by (nonlinear_arith)
            requires
                t >= 1,
        ;
    } else if t <= 1024 {
        if e > 0 {
            vstd::arithmetic::power2::lemma_pow2_strictly_increases(10, 10 + e);
        }
        assert((t + 1024 - 1) / 1024 == 1);
    } else if t <= 262144 {
        if e >= 8 {
            if e > 8 {
                vstd::arithmetic::power2::lemma_pow2_strictly_increases(18, 10 + e);
            }
            assert(false);
        }
        lemma_exponent_below_max(t, top, e + 1);
        vstd::arithmetic::power2::lemma_pow2_unfold(11 + e);
        if e < 7 {
            vstd::arithmetic::power2::lemma_pow2_strictly_increases(10 + e, 17);
        }
        let w = spec_window_size(e);
        assert(spec_window_size(e + 1) == 2 * w);
        assert(w < t) by {
            if e == 0 {
                assert(w == 1024);
            }
        }
        assert(spec_block_limit(t) == w);
        assert((t + w - 1) / (w as int) == 2) by (nonlinear_arith)
            requires
                w >= 1,
                w < t,
                t <= 2 * w,
        ;
    } else {
        if e < 8 {
            lemma_exponent_below_max(t, top, 8);
            assert(false);
        }
        if e > 8 {
            vstd::arithmetic::power2::lemma_pow2_strictly_increases(18, 10 + e);
        }
        assert(spec_block_limit(t) == BLOCK_MAX_SIZE);
    }
}

/// A larger target never gives a shorter frame.
pub proof fn lemma_zeros_len_monotone(a: nat, b: nat)
    requires
        1 <= a <= b <= u64::MAX,
    ensures
        spec_zeros(a).len() <= spec_zeros(b).len(),
{
    lemma_zeros_len(a);
    lemma_zeros_len(b);
    lemma_block_count_values(a);
    lemma_block_count_values(b);
    let l = BLOCK_MAX_SIZE as int;
    if b > 262144 {
        vstd::arithmetic::div_mod::lemma_div_is_ordered(393216, b + l - 1, l);
        assert(393216int / l == 3);
        if a > 262144 {
            vstd::arithmetic::div_mod::lemma_div_is_ordered(a + l - 1, b + l - 1, l);
        }
    }
}

/// The window size for exponent `e`.
fn window_size(e: u8) -> (w: u64)
    requires
        e <= MAX_WINDOW_EXPONENT,
    ensures
        w == spec_window_size(e as nat),
        1024 <= w <= 16777216,
{
    proof {
        lemma_window_size_bounds(e as nat);
        vstd::bits::lemma_u64_shl_is_mul(1, (10 + e) as u64);
    }
    1u64 << (10 + e) as u64
}

/// The window exponent for `target` bytes of content.
fn window_exponent(target: u64) -> (e: u8)
    ensures
        e == spec_window_exponent(target as nat),
        e <= MAX_WINDOW_EXPONENT,
{
    let mut e: u8 = MAX_WINDOW_EXPONENT;
    while e > 0
        invariant
            e <= MAX_WINDOW_EXPONENT,
            exponent_below(target as nat, e as nat) == spec_window_exponent(target as nat),
        decreases e,
    {
        if target > window_size(e) {
            return e;
        }
        e = e - 1;
    }
    0
}

/// Generate a minimal `zstd` compressed bytes array that decompresses to
/// `target` bytes of zeros.
pub fn zeros(target: u64) -> (out: Vec<u8>)
    requires
        target > 0,
    ensures
        out@ == spec_zeros(target as nat),
        decode_frame(out@) == Some(zero_run(target as nat)),
        out@.len() == frame_header_len(target as nat) + 4 * block_count(
            target as nat,
            spec_block_limit(target as nat),
        ),
{
    let mut output: Vec<u8> = Vec::with_capacity(4096);
    output.push(0x28);
    output.push(0xB5);
    output.push(0x2F);
    output.push(0xFD);

    let limit: u64 = if target <= 255 {
        // Single segment: a Frame Header Descriptor with only bit 5 set, no
        // Window Descriptor, a one-byte Frame Content Size, and one block.
        output.push(0x20);
        push_le(&mut output, target, 1);
        assert(output@ =~= spec_frame_header(target as nat));
        target
    } else {
        // Frame Header Descriptor: bits 7-6 hold the Frame_Content_Size_flag.
        let fcs_flag: u8 = if target <= 65791 {
            1
        } else if target <= 0xffff_ffff {
            2
        } else {
            3
        };
        output.push(fcs_flag * 64);

        // Window Descriptor: bits 7-3 hold the exponent, the mantissa is 0.
        let window_exponent = window_exponent(target);
        output.push(window_exponent * 8);
        let window_size = window_size(window_exponent);

        // Frame Content Size.
        if fcs_flag == 1 {
            push_le(&mut output, target - 256, 2);
        } else if fcs_flag == 2 {
            push_le(&mut output, target, 4);
        } else {
            push_le(&mut output, target, 8);
        }
        assert(output@ =~= spec_frame_header(target as nat));
        if window_size < BLOCK_MAX_SIZE {
            window_size
        } else {
            BLOCK_MAX_SIZE
        }
    };
    let ghost lim = limit as nat;
    assert(lim == spec_block_limit(target as nat));

    let mut remaining: u64 = target;
    while remaining > 0
        invariant
            1 <= lim <= BLOCK_MAX_SIZE,
            lim == limit,
            lim == spec_block_limit(target as nat),
            output@ + rle_blocks(remaining as nat, lim) == spec_zeros(target as nat),
        decreases remaining,
    {
        let block_size: u64 = if remaining < limit { remaining } else { limit };
        let ghost before = output@;
        let ghost rest = rle_blocks((remaining - block_size) as nat, lim);
        remaining = remaining - block_size;
        let last_block: u64 = if remaining == 0 { 1 } else { 0 };

        // Block header: bit 0 is Last_Block, bits 1-2 the block type (1 = RLE),
        // bits 3-23 the block size, followed by the RLE byte. Written as four
        // little-endian bytes, the fourth is that RLE byte, 0x00: a block of
        // at most 128 KiB needs no more than 21 bits of header.
        let header: u64 = last_block + 2 + 8 * block_size;
        proof {
            lemma_block_header_high_byte_zero(block_size as nat, remaining == 0);
        }
        push_le(&mut output, header, 4);
        assert(output@ + rest =~= before + (rle_block_header(block_size as nat, remaining == 0)
            + seq![0u8] + rest));
    }
    assert(output@ + rle_blocks(0, lim) =~= output@);
    proof {
        lemma_zeros_decode(target as nat);
        lemma_zeros_len(target as nat);
    }
    output
}

} // verus!
