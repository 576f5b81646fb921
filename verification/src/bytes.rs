//! Payload bytes: zeroed memory, copies between payloads, and handles as they
//! are stored inside an object.

use crate::gc::GcPtr;
use crate::layout::HANDLE_SIZE;
use vstd::bytes::*;
use vstd::prelude::*;

verus! {

/// `n` zero bytes.
pub open spec fn zeros(n: nat) -> Seq<u8> {
    Seq::new(n, |i: int| 0u8)
}

/// `dst` with `data` written over it from place `at` on.
pub open spec fn overlay(dst: Seq<u8>, at: int, data: Seq<u8>) -> Seq<u8> {
    Seq::new(
        dst.len(),
        |i: int|
            if at <= i < at + data.len() {
                data[i - at]
            } else {
                dst[i]
            },
    )
}

/// The eight bytes that store a handle: its number, least significant byte
/// first.
pub open spec fn handle_bytes(h: GcPtr) -> Seq<u8> {
    spec_u64_to_le_bytes(h.spec_raw())
}

/// The handle stored in the eight bytes of `payload` from place `at` on.
pub open spec fn handle_at(payload: Seq<u8>, at: int) -> GcPtr {
    GcPtr::at(spec_u64_from_le_bytes(payload.subrange(at, at + 8)) as int)
}

/// A handle that was stored is read back, and eight zero bytes hold the handle
/// that denotes no object.
pub proof fn lemma_handle_round_trip(dst: Seq<u8>, at: int, h: GcPtr)
    requires
        0 <= at,
        at + 8 <= dst.len(),
    ensures
        handle_at(overlay(dst, at, handle_bytes(h)), at) == h,
{
    lemma_auto_spec_u64_to_from_le_bytes();
    GcPtr::lemma_raw_injective(h, h);
    let written = overlay(dst, at, handle_bytes(h));
    assert(written.subrange(at, at + 8) =~= handle_bytes(h));
}

/// A vector of `n` zero bytes.
pub fn zeroed(n: usize) -> (v: Vec<u8>)
    ensures
        v@ == zeros(n as nat),
{
    let mut v: Vec<u8> = Vec::new();
    let mut i: usize = 0;
    while i < n
        invariant
            0 <= i <= n,
            v@.len() == i,
            forall|k: int| 0 <= k < i ==> v@[k] == 0u8,
        decreases n - i,
    {
        v.push(0u8);
        i += 1;
    }
    assert(v@ =~= zeros(n as nat));
    v
}

/// Copies `n` bytes of `src` from place `from` on over `dst` from place `at`
/// on.
pub fn copy_bytes(dst: &mut Vec<u8>, at: usize, src: &Vec<u8>, from: usize, n: usize)
    requires
        at + n <= old(dst)@.len(),
        from + n <= src@.len(),
    ensures
        final(dst)@ == overlay(old(dst)@, at as int, src@.subrange(from as int, from + n)),
{
    let dst_len = dst.len();
    let src_len = src.len();
    let mut i: usize = 0;
    while i < n
        invariant
            0 <= i <= n,
            dst@.len() == dst_len,
            src@.len() == src_len,
            at + n <= dst_len,
            from + n <= src_len,
            dst@ == overlay(old(dst)@, at as int, src@.subrange(from as int, from + i)),
        decreases n - i,
    {
        let b = src[from + i];
        dst[at + i] = b;
        i += 1;
        assert(dst@ =~= overlay(old(dst)@, at as int, src@.subrange(from as int, from + i)));
    }
}

/// Stores a handle in the eight bytes of `dst` from place `at` on.
pub fn write_handle(dst: &mut Vec<u8>, at: usize, h: GcPtr)
    requires
        at + HANDLE_SIZE <= old(dst)@.len(),
    ensures
        final(dst)@ == overlay(old(dst)@, at as int, handle_bytes(h)),
{
    let bytes = u64_to_le_bytes(h.raw());
    copy_bytes(dst, at, &bytes, 0, HANDLE_SIZE);
    assert(bytes@.subrange(0, 8) =~= bytes@);
}

/// Reads the handle stored in the eight bytes of `payload` from place `at` on.
pub fn read_handle(payload: &Vec<u8>, at: usize) -> (h: GcPtr)
    requires
        at + HANDLE_SIZE <= payload@.len(),
    ensures
        h == handle_at(payload@, at as int),
{
    let mut bytes = zeroed(HANDLE_SIZE);
    copy_bytes(&mut bytes, 0, payload, at, HANDLE_SIZE);
    assert(bytes@ =~= payload@.subrange(at as int, at + 8));
    let raw = u64_from_le_bytes(bytes.as_slice());
    let h = GcPtr::from_raw(raw);
    proof {
        GcPtr::lemma_raw_injective(h, h);
    }
    h
}

} // verus!
