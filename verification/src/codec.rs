//! Explicit byte encoding of a sample record.
//!
//! Both privilege domains must agree on the exact layout of a record without
//! schema negotiation, so the wire format is fixed: every field sits at a
//! fixed offset, multi-byte integers are little-endian, and the two signed
//! sizes travel as their 64-bit two's-complement bit patterns. Decoding is
//! bounds-checked; an undersized buffer is rejected, never reinterpreted.

use vstd::prelude::*;
use vstd::bytes::*;
use vstd::slice::{slice_subrange, slice_to_vec};

use crate::event::{EventModel, StackTraceEvent, MAX_STACK_DEPTH, TASK_COMM_LEN};
use crate::event::copy_bytes;

verus! {

/// Total size in bytes of one encoded record: pid (4), cpu_id (4),
/// comm (16), kstack_sz (8), ustack_sz (8), kstack (1024), ustack (1024).
pub const EVENT_BYTES: usize = 2088;

/// The 64-bit two's-complement bit pattern of a signed size.
pub open spec fn spec_i64_to_bits(x: i64) -> u64 {
    if x >= 0 {
        x as u64
    } else {
        (x + 0x1_0000_0000_0000_0000) as u64
    }
}

/// The signed size whose 64-bit two's-complement bit pattern is `u`.
pub open spec fn spec_i64_from_bits(u: u64) -> i64 {
    if u <= 0x7fff_ffff_ffff_ffff {
        u as i64
    } else {
        (u - 0x1_0000_0000_0000_0000) as i64
    }
}

/// Bit-pattern conversion of a signed size is lossless.
pub proof fn lemma_i64_bits_round_trip(x: i64)
    ensures
        spec_i64_from_bits(spec_i64_to_bits(x)) == x,
{
}

/// Exec counterpart of [`spec_i64_to_bits`], written with plain arithmetic.
pub fn i64_to_bits(x: i64) -> (r: u64)
    ensures
        r == spec_i64_to_bits(x),
{
    if x >= 0 {
        x as u64
    } else {
        let m: u64 = (-(x + 1)) as u64;
        0xffff_ffff_ffff_ffffu64 - m
    }
}

/// Exec counterpart of [`spec_i64_from_bits`], written with plain arithmetic.
pub fn i64_from_bits(u: u64) -> (r: i64)
    ensures
        r == spec_i64_from_bits(u),
{
    if u <= 0x7fff_ffff_ffff_ffffu64 {
        u as i64
    } else {
        let m: u64 = 0xffff_ffff_ffff_ffffu64 - u;
        (-(m as i64)) - 1
    }
}

/// A word buffer laid out as consecutive little-endian 64-bit values.
pub open spec fn spec_words_le(s: Seq<u64>) -> Seq<u8>
    decreases s.len(),
{
    if s.len() == 0 {
        Seq::empty()
    } else {
        spec_u64_to_le_bytes(s[0]) + spec_words_le(s.drop_first())
    }
}

pub proof fn lemma_words_le_len(s: Seq<u64>)
    ensures
        spec_words_le(s).len() == 8 * s.len(),
    decreases s.len(),
{
    lemma_auto_spec_u64_to_from_le_bytes();
    if s.len() > 0 {
        lemma_words_le_len(s.drop_first());
    }
}

pub proof fn lemma_words_le_push(s: Seq<u64>, x: u64)
    ensures
        spec_words_le(s.push(x)) == spec_words_le(s) + spec_u64_to_le_bytes(x),
    decreases s.len(),
{
    if s.len() == 0 {
        assert(s.push(x)[0] == x);
        assert(s.push(x).drop_first() =~= Seq::<u64>::empty());
        assert(spec_words_le(Seq::<u64>::empty()) == Seq::<u8>::empty());
        assert(spec_words_le(s.push(x)) == spec_u64_to_le_bytes(x) + Seq::<u8>::empty());
        assert(spec_words_le(s) == Seq::<u8>::empty());
        assert(spec_words_le(s.push(x)) =~= spec_words_le(s) + spec_u64_to_le_bytes(x));
    } else {
        lemma_words_le_push(s.drop_first(), x);
        assert(s.push(x)[0] == s[0]);
        assert(s.push(x).drop_first() =~= s.drop_first().push(x));
        assert(spec_words_le(s.push(x)) =~= spec_words_le(s) + spec_u64_to_le_bytes(x));
    }
}

/// The bytes of the `k`-th word stand at offset `8 * k` of the laid-out buffer.
pub proof fn lemma_words_le_index(s: Seq<u64>, k: int)
    requires
        0 <= k < s.len(),
    ensures
        spec_words_le(s).subrange(8 * k, 8 * k + 8) == spec_u64_to_le_bytes(s[k]),
    decreases k,
{
    lemma_auto_spec_u64_to_from_le_bytes();
    lemma_words_le_len(s);
    lemma_words_le_len(s.drop_first());
    if k == 0 {
        assert(spec_words_le(s).subrange(0, 8) =~= spec_u64_to_le_bytes(s[0]));
    } else {
        lemma_words_le_index(s.drop_first(), k - 1);
        assert(s.drop_first()[k - 1] == s[k]);
        assert(spec_words_le(s).subrange(8 * k, 8 * k + 8) =~= spec_words_le(s.drop_first())
            .subrange(8 * (k - 1), 8 * (k - 1) + 8));
    }
}

/// The full wire image of a record: every field at its fixed offset.
pub open spec fn spec_encode(m: EventModel) -> Seq<u8> {
    spec_u32_to_le_bytes(m.pid) + spec_u32_to_le_bytes(m.cpu_id) + m.comm
        + spec_u64_to_le_bytes(spec_i64_to_bits(m.kstack_sz)) + spec_u64_to_le_bytes(
        spec_i64_to_bits(m.ustack_sz),
    ) + spec_words_le(m.kstack) + spec_words_le(m.ustack)
}

/// The record read back from a wire image, field by field from the fixed
/// offsets. Only the first `EVENT_BYTES` bytes are consulted.
pub open spec fn spec_decode(b: Seq<u8>) -> EventModel {
    EventModel {
        pid: spec_u32_from_le_bytes(b.subrange(0, 4)),
        cpu_id: spec_u32_from_le_bytes(b.subrange(4, 8)),
        comm: b.subrange(8, 24),
        kstack_sz: spec_i64_from_bits(spec_u64_from_le_bytes(b.subrange(24, 32))),
        ustack_sz: spec_i64_from_bits(spec_u64_from_le_bytes(b.subrange(32, 40))),
        kstack: Seq::new(
            MAX_STACK_DEPTH as nat,
            |k: int| spec_u64_from_le_bytes(b.subrange(40 + 8 * k, 48 + 8 * k)),
        ),
        ustack: Seq::new(
            MAX_STACK_DEPTH as nat,
            |k: int| spec_u64_from_le_bytes(b.subrange(1064 + 8 * k, 1072 + 8 * k)),
        ),
    }
}

fn append_words(out: &mut Vec<u8>, words: &Vec<u64>)
    ensures
        final(out)@ == old(out)@ + spec_words_le(words@),
{
    let mut i: usize = 0;
    proof {
        assert(words@.take(0) =~= Seq::<u64>::empty());
        assert(out@ =~= out@ + spec_words_le(words@.take(0)));
    }
    while i < words.len()
        invariant
            i <= words@.len(),
            out@ == old(out)@ + spec_words_le(words@.take(i as int)),
        decreases words@.len() - i,
    {
        let mut b = u64_to_le_bytes(words[i]);
        out.append(&mut b);
        proof {
            lemma_words_le_push(words@.take(i as int), words@[i as int]);
            assert(words@.take(i as int + 1) =~= words@.take(i as int).push(words@[i as int]));
        }
        i = i + 1;
    }
    proof {
        assert(words@.take(words@.len() as int) =~= words@);
    }
}

/// Encode a record into its fixed-size wire image.
pub fn encode_event(ev: &StackTraceEvent) -> (r: Vec<u8>)
    requires
        ev.wf(),
    ensures
        r@ == spec_encode(ev@),
        r@.len() == EVENT_BYTES,
{
    let mut out = u32_to_le_bytes(ev.pid);
    let mut cpu = u32_to_le_bytes(ev.cpu_id);
    out.append(&mut cpu);
    let mut comm = copy_bytes(&ev.comm);
    out.append(&mut comm);
    let mut ksz = u64_to_le_bytes(i64_to_bits(ev.kstack_sz));
    out.append(&mut ksz);
    let mut usz = u64_to_le_bytes(i64_to_bits(ev.ustack_sz));
    out.append(&mut usz);
    append_words(&mut out, &ev.kstack);
    append_words(&mut out, &ev.ustack);
    proof {
        lemma_encode_len(ev@);
    }
    out
}

fn read_words(buf: &Vec<u8>, off: usize, n: usize) -> (r: Vec<u64>)
    requires
        off + 8 * n <= buf@.len(),
    ensures
        r@.len() == n,
        forall|k: int|
            0 <= k < n ==> r@[k] == spec_u64_from_le_bytes(
                buf@.subrange(off + 8 * k, off + 8 * k + 8),
            ),
{
    let mut r: Vec<u64> = Vec::new();
    let blen: usize = buf.len();
    let mut i: usize = 0;
    while i < n
        invariant
            i <= n,
            blen == buf@.len(),
            off + 8 * n <= blen,
            r@.len() == i,
            forall|k: int|
                0 <= k < i ==> r@[k] == spec_u64_from_le_bytes(
                    buf@.subrange(off + 8 * k, off + 8 * k + 8),
                ),
        decreases n - i,
    {
        let s = slice_subrange(buf.as_slice(), off + 8 * i, off + 8 * i + 8);
        r.push(u64_from_le_bytes(s));
        i = i + 1;
    }
    r
}

/// Decode one record from a raw buffer. An undersized buffer yields `None`;
/// nothing past the fixed record size is read.
pub fn decode_event(buf: &Vec<u8>) -> (r: Option<StackTraceEvent>)
    ensures
        buf@.len() < EVENT_BYTES ==> r is None,
        buf@.len() >= EVENT_BYTES ==> (r matches Some(ev) && ev@ == spec_decode(buf@)
            && ev.wf()),
{
    if buf.len() < EVENT_BYTES {
        return None;
    }
    let pid = u32_from_le_bytes(slice_subrange(buf.as_slice(), 0, 4));
    let cpu_id = u32_from_le_bytes(slice_subrange(buf.as_slice(), 4, 8));
    let comm = slice_to_vec(slice_subrange(buf.as_slice(), 8, 24));
    let kstack_sz = i64_from_bits(u64_from_le_bytes(slice_subrange(buf.as_slice(), 24, 32)));
    let ustack_sz = i64_from_bits(u64_from_le_bytes(slice_subrange(buf.as_slice(), 32, 40)));
    let kstack = read_words(buf, 40, MAX_STACK_DEPTH);
    let ustack = read_words(buf, 1064, MAX_STACK_DEPTH);
    let ev = StackTraceEvent { pid, cpu_id, comm, kstack_sz, ustack_sz, kstack, ustack };
    proof {
        assert(ev@.kstack =~= spec_decode(buf@).kstack);
        assert(ev@.ustack =~= spec_decode(buf@).ustack);
        assert(ev@.comm =~= spec_decode(buf@).comm);
        assert(ev@ =~= spec_decode(buf@));
    }
    Some(ev)
}

/// The wire image of a well-formed record has the fixed record size.
pub proof fn lemma_encode_len(m: EventModel)
    requires
        m.wf(),
    ensures
        spec_encode(m).len() == EVENT_BYTES,
{
    lemma_auto_spec_u32_to_from_le_bytes();
    lemma_auto_spec_u64_to_from_le_bytes();
    lemma_words_le_len(m.kstack);
    lemma_words_le_len(m.ustack);
}

/// Layout round trip: reading a well-formed record's wire image back yields
/// the record, field for field — for every field combination the model
/// allows, negative sizes and full-depth stacks included.
pub proof fn lemma_layout_round_trip(m: EventModel)
    requires
        m.wf(),
    ensures
        spec_decode(spec_encode(m)) == m,
{
    lemma_auto_spec_u32_to_from_le_bytes();
    lemma_auto_spec_u64_to_from_le_bytes();
    lemma_words_le_len(m.kstack);
    lemma_words_le_len(m.ustack);
    let b = spec_encode(m);
    assert(b.subrange(0, 4) =~= spec_u32_to_le_bytes(m.pid));
    assert(b.subrange(4, 8) =~= spec_u32_to_le_bytes(m.cpu_id));
    assert(b.subrange(8, 24) =~= m.comm);
    assert(b.subrange(24, 32) =~= spec_u64_to_le_bytes(spec_i64_to_bits(m.kstack_sz)));
    assert(b.subrange(32, 40) =~= spec_u64_to_le_bytes(spec_i64_to_bits(m.ustack_sz)));
    lemma_i64_bits_round_trip(m.kstack_sz);
    lemma_i64_bits_round_trip(m.ustack_sz);
    assert forall|k: int| 0 <= k < MAX_STACK_DEPTH implies spec_decode(b).kstack[k]
        == m.kstack[k] by {
        lemma_words_le_index(m.kstack, k);
        assert(b.subrange(40 + 8 * k, 48 + 8 * k) =~= spec_words_le(m.kstack).subrange(
            8 * k,
            8 * k + 8,
        ));
    }
    assert forall|k: int| 0 <= k < MAX_STACK_DEPTH implies spec_decode(b).ustack[k]
        == m.ustack[k] by {
        lemma_words_le_index(m.ustack, k);
        assert(b.subrange(1064 + 8 * k, 1072 + 8 * k) =~= spec_words_le(m.ustack).subrange(
            8 * k,
            8 * k + 8,
        ));
    }
    assert(spec_decode(b).kstack =~= m.kstack);
    assert(spec_decode(b).ustack =~= m.ustack);
    assert(spec_decode(spec_encode(m)) =~= m);
}

} // verus!
