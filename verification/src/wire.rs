//! Byte-buffer helpers shared by the record formats of the protocol:
//! null-padded fixed-capacity fields, in-place range writes and reads, and
//! little-endian integer fields at byte offsets.

use vstd::prelude::*;

use vstd::bytes::{
    spec_u32_from_le_bytes, spec_u32_to_le_bytes, spec_u64_from_le_bytes, spec_u64_to_le_bytes,
    u32_from_le_bytes, u32_to_le_bytes, u64_from_le_bytes, u64_to_le_bytes,
};
use vstd::slice::slice_subrange;

verus! {

/// The contents of a fixed-capacity, null-padded field of capacity `cap`
/// holding `s`: the first `min(s.len(), cap - 1)` bytes of `s`, then zeros.
/// The final byte is always zero, so the field stays null-terminated even
/// when `s` overflows it and is truncated.
pub open spec fn packed(s: Seq<u8>, cap: nat) -> Seq<u8> {
    Seq::new(
        cap,
        |i: int|
            if i < s.len() && i < cap - 1 {
                s[i]
            } else {
                0u8
            },
    )
}

/// `base` with the start of `s` copied over its start, truncated to leave
/// the final byte of `base` untouched; bytes past the copied prefix keep
/// their old values.
pub open spec fn overlay_trunc(base: Seq<u8>, s: Seq<u8>) -> Seq<u8> {
    Seq::new(
        base.len(),
        |i: int|
            if i < s.len() && i < base.len() - 1 {
                s[i]
            } else {
                base[i]
            },
    )
}

/// `base` with `data` written over it starting at `off`.
pub open spec fn overlay(base: Seq<u8>, off: int, data: Seq<u8>) -> Seq<u8> {
    Seq::new(
        base.len(),
        |i: int|
            if off <= i < off + data.len() {
                data[i - off]
            } else {
                base[i]
            },
    )
}

/// Length of the prefix of `s` before its first null byte (all of `s` when
/// no byte is null).
pub open spec fn null_prefix_len(s: Seq<u8>) -> nat
    decreases s.len(),
{
    if s.len() == 0 {
        0
    } else if s[0] == 0 {
        0
    } else {
        1 + null_prefix_len(s.skip(1))
    }
}

proof fn lemma_null_prefix_len_of(s: Seq<u8>, i: int)
    requires
        0 <= i <= s.len(),
        forall|j: int| 0 <= j < i ==> s[j] != 0,
        i == s.len() || s[i] == 0,
    ensures
        null_prefix_len(s) == i,
    decreases i,
{
    if i == 0 {
    } else {
        assert(s[0] != 0);
        lemma_null_prefix_len_of(s.skip(1), i - 1);
    }
}

/// Copy `src` into a fresh null-padded field of capacity `cap`, truncating
/// safely on overflow: at most `cap - 1` bytes are copied and the rest is
/// zero, so the result is always null-terminated.
pub fn pack_fixed(src: &Vec<u8>, cap: usize) -> (r: Vec<u8>)
    requires
        cap >= 1,
    ensures
        r@ == packed(src@, cap as nat),
{
    let n = if src.len() < cap - 1 {
        src.len()
    } else {
        cap - 1
    };
    let mut r: Vec<u8> = Vec::new();
    let mut i: usize = 0;
    while i < cap
        invariant
            i <= cap,
            cap >= 1,
            n == if src@.len() < cap - 1 {
                src@.len() as int
            } else {
                cap - 1
            },
            r@.len() == i,
            forall|j: int| 0 <= j < i ==> r@[j] == packed(src@, cap as nat)[j],
        decreases cap - i,
    {
        if i < n {
            r.push(src[i]);
        } else {
            r.push(0u8);
        }
        i = i + 1;
    }
    proof {
        assert(r@ =~= packed(src@, cap as nat));
    }
    r
}

/// Write `data` into `buf` in place, starting at `off`; bytes outside the
/// written range are unchanged.
pub fn write_into(buf: &mut Vec<u8>, off: usize, data: &Vec<u8>)
    requires
        off + data@.len() <= old(buf)@.len(),
    ensures
        final(buf)@ == overlay(old(buf)@, off as int, data@),
{
    let mut i: usize = 0;
    while i < data.len()
        invariant
            i <= data@.len(),
            off + data@.len() <= buf.len(),
            buf@.len() == old(buf)@.len(),
            forall|j: int|
                0 <= j < buf@.len() ==> buf@[j] == (if off <= j < off + i {
                    data@[j - off]
                } else {
                    old(buf)@[j]
                }),
        decreases data@.len() - i,
    {
        buf[off + i] = data[i];
        i = i + 1;
    }
    proof {
        assert(buf@ =~= overlay(old(buf)@, off as int, data@));
    }
}

/// Copy the start of `src` over the start of `buf` in place, copying at
/// most `buf.len() - 1` bytes so the field stays null-terminated when it
/// was.
pub fn write_trunc(buf: &mut Vec<u8>, src: &Vec<u8>)
    requires
        old(buf)@.len() >= 1,
    ensures
        final(buf)@ == overlay_trunc(old(buf)@, src@),
{
    let cap = buf.len();
    let n = if src.len() < cap - 1 {
        src.len()
    } else {
        cap - 1
    };
    let mut i: usize = 0;
    while i < n
        invariant
            i <= n,
            n <= src@.len(),
            n < cap,
            cap == buf@.len(),
            buf@.len() == old(buf)@.len(),
            n == if src@.len() < cap - 1 {
                src@.len() as int
            } else {
                cap - 1
            },
            forall|j: int|
                0 <= j < buf@.len() ==> buf@[j] == (if j < i {
                    src@[j]
                } else {
                    old(buf)@[j]
                }),
        decreases n - i,
    {
        buf[i] = src[i];
        i = i + 1;
    }
    proof {
        assert(buf@ =~= overlay_trunc(old(buf)@, src@));
    }
}

/// Read `len` bytes of `buf` starting at `off` into a fresh vector.
pub fn read_range(buf: &Vec<u8>, off: usize, len: usize) -> (r: Vec<u8>)
    requires
        off + len <= buf@.len(),
    ensures
        r@ == buf@.subrange(off as int, off as int + len as int),
{
    let mut r: Vec<u8> = Vec::new();
    let mut i: usize = 0;
    while i < len
        invariant
            i <= len,
            off + len <= buf.len(),
            r@ == buf@.subrange(off as int, off as int + i as int),
        decreases len - i,
    {
        r.push(buf[off + i]);
        proof {
            assert(r@ =~= buf@.subrange(off as int, off as int + i as int + 1));
        }
        i = i + 1;
    }
    r
}

/// Append all bytes of `src` to `dst`.
pub fn append_bytes(dst: &mut Vec<u8>, src: &Vec<u8>)
    ensures
        final(dst)@ == old(dst)@ + src@,
{
    let mut i: usize = 0;
    proof {
        assert(old(dst)@ + src@.take(0) =~= old(dst)@);
    }
    while i < src.len()
        invariant
            i <= src@.len(),
            dst@ == old(dst)@ + src@.take(i as int),
        decreases src@.len() - i,
    {
        dst.push(src[i]);
        proof {
            assert(dst@ =~= old(dst)@ + src@.take(i as int + 1));
        }
        i = i + 1;
    }
    proof {
        assert(src@.take(src@.len() as int) =~= src@);
    }
}

/// Whether two byte vectors hold the same bytes.
pub fn bytes_eq(a: &Vec<u8>, b: &Vec<u8>) -> (r: bool)
    ensures
        r <==> a@ == b@,
{
    if a.len() != b.len() {
        return false;
    }
    let mut i: usize = 0;
    while i < a.len()
        invariant
            i <= a@.len(),
            a@.len() == b@.len(),
            forall|j: int| 0 <= j < i ==> a@[j] == b@[j],
        decreases a@.len() - i,
    {
        if a[i] != b[i] {
            return false;
        }
        i = i + 1;
    }
    proof {
        assert(a@ =~= b@);
    }
    true
}

/// Decode a slab name handle: the bytes of `buf` before its first null.
/// Handles are null-terminated within their fixed-capacity field, so
/// decoding stops at the first null byte.
pub fn decode_handle(buf: &Vec<u8>) -> (r: Vec<u8>)
    ensures
        r@ == buf@.take(null_prefix_len(buf@) as int),
{
    let mut i: usize = 0;
    while i < buf.len() && buf[i] != 0
        invariant
            i <= buf@.len(),
            forall|j: int| 0 <= j < i ==> buf@[j] != 0,
        decreases buf@.len() - i,
    {
        i = i + 1;
    }
    proof {
        lemma_null_prefix_len_of(buf@, i as int);
    }
    let r = read_range(buf, 0, i);
    proof {
        assert(buf@.subrange(0, i as int) =~= buf@.take(i as int));
    }
    r
}

/// Write `v` at `off` as four little-endian bytes.
pub fn write_u32_le(buf: &mut Vec<u8>, off: usize, v: u32)
    requires
        off + 4 <= old(buf)@.len(),
    ensures
        final(buf)@ == overlay(old(buf)@, off as int, spec_u32_to_le_bytes(v)),
{
    let bytes = u32_to_le_bytes(v);
    write_into(buf, off, &bytes);
}

/// Write `v` at `off` as eight little-endian bytes.
pub fn write_u64_le(buf: &mut Vec<u8>, off: usize, v: u64)
    requires
        off + 8 <= old(buf)@.len(),
    ensures
        final(buf)@ == overlay(old(buf)@, off as int, spec_u64_to_le_bytes(v)),
{
    let bytes = u64_to_le_bytes(v);
    write_into(buf, off, &bytes);
}

/// Read the little-endian `u32` stored at `off`.
pub fn read_u32_le(buf: &Vec<u8>, off: usize) -> (r: u32)
    requires
        off + 4 <= buf@.len(),
    ensures
        r == spec_u32_from_le_bytes(buf@.subrange(off as int, off as int + 4)),
{
    let n = buf.len();
    assert(off + 4 <= n);
    u32_from_le_bytes(slice_subrange(buf.as_slice(), off, off + 4))
}

/// Read the little-endian `u64` stored at `off`.
pub fn read_u64_le(buf: &Vec<u8>, off: usize) -> (r: u64)
    requires
        off + 8 <= buf@.len(),
    ensures
        r == spec_u64_from_le_bytes(buf@.subrange(off as int, off as int + 8)),
{
    let n = buf.len();
    assert(off + 8 <= n);
    u64_from_le_bytes(slice_subrange(buf.as_slice(), off, off + 8))
}

/// A vector of `len` zero bytes.
pub fn zero_bytes(len: usize) -> (r: Vec<u8>)
    ensures
        r@.len() == len,
        forall|j: int| 0 <= j < len ==> r@[j] == 0u8,
{
    let mut r: Vec<u8> = Vec::new();
    let mut i: usize = 0;
    while i < len
        invariant
            i <= len,
            r@.len() == i,
            forall|j: int| 0 <= j < i ==> r@[j] == 0u8,
        decreases len - i,
    {
        r.push(0u8);
        i = i + 1;
    }
    r
}

} // verus!
