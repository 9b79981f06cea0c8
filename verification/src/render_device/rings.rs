//! Uniform rings: each draw of a frame gets its own slot of one uniform
//! buffer. The bind group exposes a struct-sized window at offset 0; the
//! dynamic offset slides it to the draw's slot.
//!
//! A ring starts over with each frame phase. All writes of a phase land in the
//! same submission, distinct per slot.

use vstd::arithmetic::power::pow;
use vstd::arithmetic::power2::{is_pow2, is_pow2_equiv, is_pow2_exists, pow2};
use vstd::bits::{lemma_u64_low_bits_mask_is_mod, low_bits_mask};
use vstd::prelude::*;

verus! {

/// `n` rounded up to a multiple of 4.
pub open spec fn round4(n: int) -> int {
    (n + 3) / 4 * 4
}

/// `n` rounded up to a multiple of 4.
pub fn round_up_to_4(n: u64) -> (r: u64)
    requires
        n <= u64::MAX - 3,
    ensures
        r == round4(n as int),
{
    let m: u64 = n + 3;
    assert(m & !3 == m / 4 * 4) by (bit_vector);
    m & !3
}

/// `n + align - 1` without the bits of `align - 1`.
pub open spec fn aligned(n: u64, align: u64) -> u64 {
    ((n + align - 1) as u64) & !((align - 1) as u64)
}

/// `n` rounded up to a multiple of `align`, where `align` is a power of two.
/// With another `align` the result is still at least `n`.
pub fn align_up_u64(n: u64, align: u64) -> (r: u64)
    requires
        1 <= align,
        n + align - 1 <= u64::MAX,
    ensures
        r == aligned(n, align),
        n <= r < n + align,
        is_pow2(align as int) ==> r % align == 0,
{
    let m: u64 = n + (align - 1);
    let low: u64 = align - 1;
    let r: u64 = m & !low;
    assert((m & !low) <= m && m - (m & !low) <= low) by (bit_vector);
    proof {
        if is_pow2(align as int) {
            lemma_clear_low_bits(m, align);
        }
    }
    r
}

proof fn lemma_clear_low_bits(m: u64, align: u64)
    requires
        1 <= align,
        is_pow2(align as int),
    ensures
        (m & !((align - 1) as u64)) % align == 0,
{
    let low = (align - 1) as u64;
    let r = m & !low;
    is_pow2_equiv(align as int);
    assert(is_pow2_exists(align as int));
    let e: nat = choose|i: nat| pow(2, i) == align as int;
    assert(pow2(e) == align as nat);
    assert(e < 64) by {
        if e >= 64 {
            vstd::arithmetic::power2::lemma2_to64();
            vstd::arithmetic::power2::lemma2_to64_rest();
            if e > 64 {
                vstd::arithmetic::power2::lemma_pow2_strictly_increases(64, e);
            }
        }
    }
    assert(low as nat == low_bits_mask(e));
    lemma_u64_low_bits_mask_is_mod(r, e);
    assert((m & !low) & low == 0) by (bit_vector);
}

/// `bytes` cut or filled with zeros to `size` bytes.
pub open spec fn padded(bytes: Seq<u8>, size: nat) -> Seq<u8> {
    Seq::new(
        size,
        |i: int|
            if i < bytes.len() {
                bytes[i]
            } else {
                0
            },
    )
}

/// `bytes` cut or filled with zeros to `size` bytes.
pub(crate) fn pad(bytes: &Vec<u8>, size: u64) -> (r: Vec<u8>)
    requires
        size <= usize::MAX,
    ensures
        r@ == padded(bytes@, size as nat),
{
    let mut r: Vec<u8> = Vec::new();
    let n: usize = size as usize;
    let mut i: usize = 0;
    while i < n
        invariant
            i <= n,
            n == size,
            r@ == padded(bytes@, i as nat),
        decreases n - i,
    {
        if i < bytes.len() {
            r.push(bytes[i]);
        } else {
            r.push(0);
        }
        i = i + 1;
        assert(r@ =~= padded(bytes@, i as nat));
    }
    r
}

/// One upload into a ring: where, and what.
pub struct UniformWrite {
    /// Dynamic offset of the slot.
    pub offset: u32,
    /// Contents of the slot.
    pub bytes: Vec<u8>,
}

/// A ring of equal slots in one uniform buffer.
pub struct UniformRing {
    /// Bytes the shader reads from each slot.
    pub struct_size: u64,
    /// Distance between slot starts.
    pub slot_stride: u64,
    /// Number of slots.
    pub slot_capacity: u32,
    /// Next free slot.
    pub next_slot: u32,
}

/// Byte offset of a slot.
pub open spec fn slot_offset(stride: u64, slot: int) -> int {
    slot * stride
}

impl UniformRing {
    /// A slot holds its struct, and the slots fit a buffer.
    pub open spec fn wf(&self) -> bool {
        &&& self.struct_size <= self.slot_stride
        &&& self.struct_size <= usize::MAX
        &&& self.next_slot <= self.slot_capacity
        &&& slot_offset(self.slot_stride, self.slot_capacity as int) <= u64::MAX
    }

    /// Whether there is another slot, and a 32-bit offset reaches it.
    pub open spec fn has_room(&self) -> bool {
        &&& self.next_slot < self.slot_capacity
        &&& slot_offset(self.slot_stride, self.next_slot as int) <= u32::MAX
    }

    /// Whether there is another slot, and a 32-bit offset reaches it.
    pub fn room(&self) -> (r: bool)
        requires
            self.wf(),
        ensures
            r == self.has_room(),
    {
        assert(self.next_slot * self.slot_stride <= self.slot_capacity * self.slot_stride)
            by (nonlinear_arith)
            requires
                self.next_slot <= self.slot_capacity,
        ;
        self.next_slot < self.slot_capacity && (self.next_slot as u64) * self.slot_stride
            <= u32::MAX as u64
    }

    /// A ring of `slot_capacity` slots that each hold `struct_size` bytes, a
    /// multiple of 4, and start at multiples of `alignment`.
    pub fn new(struct_size: u64, slot_capacity: u32, alignment: u64) -> (r: UniformRing)
        requires
            struct_size % 4 == 0,
            struct_size <= usize::MAX,
            1 <= alignment,
            struct_size + alignment - 1 <= u64::MAX,
            slot_offset(aligned(struct_size, alignment), slot_capacity as int) <= u64::MAX,
        ensures
            r.wf(),
            r.struct_size == struct_size,
            r.slot_stride == aligned(struct_size, alignment),
            r.slot_capacity == slot_capacity,
            r.next_slot == 0,
            struct_size <= r.slot_stride < struct_size + alignment,
            is_pow2(alignment as int) ==> r.slot_stride % alignment == 0,
    {
        let slot_stride: u64 = align_up_u64(struct_size, alignment);
        UniformRing { struct_size, slot_stride, slot_capacity, next_slot: 0 }
    }

    /// Bytes of the buffer behind the ring.
    pub fn buffer_size(&self) -> (r: u64)
        requires
            self.wf(),
        ensures
            r == slot_offset(self.slot_stride, self.slot_capacity as int),
    {
        assert(self.slot_capacity * self.slot_stride == self.slot_stride * self.slot_capacity)
            by (nonlinear_arith);
        self.slot_stride * (self.slot_capacity as u64)
    }

    /// Starts over at the first slot.
    pub fn reset(&mut self)
        requires
            old(self).wf(),
        ensures
            final(self).wf(),
            *final(self) == (UniformRing { next_slot: 0, ..*old(self) }),
    {
        self.next_slot = 0;
    }

    /// Claims the next slot for `bytes`, cut or zero-filled to the slot's
    /// struct. The ring must not be exhausted.
    pub fn write(&mut self, bytes: &Vec<u8>) -> (w: UniformWrite)
        requires
            old(self).wf(),
            old(self).has_room(),
        ensures
            final(self).wf(),
            *final(self) == (UniformRing {
                next_slot: (old(self).next_slot + 1) as u32,
                ..*old(self)
            }),
            w.offset == slot_offset(old(self).slot_stride, old(self).next_slot as int),
            w.bytes@ == padded(bytes@, old(self).struct_size as nat),
    {
        let slot: u32 = self.next_slot;
        let offset: u64 = (slot as u64) * self.slot_stride;
        self.next_slot = slot + 1;
        let data = pad(bytes, self.struct_size);
        UniformWrite { offset: offset as u32, bytes: data }
    }
}

/// Slots never overlap, lie inside the buffer and start at multiples of the
/// alignment that the stride was made for.
pub proof fn law_slots_are_disjoint(ring: UniformRing, a: u32, b: u32, alignment: u64)
    requires
        ring.wf(),
        a < b < ring.slot_capacity,
        1 <= alignment,
        ring.slot_stride % alignment == 0,
    ensures
        slot_offset(ring.slot_stride, a as int) + ring.struct_size <= slot_offset(
            ring.slot_stride,
            b as int,
        ),
        slot_offset(ring.slot_stride, b as int) + ring.struct_size <= slot_offset(
            ring.slot_stride,
            ring.slot_capacity as int,
        ),
        slot_offset(ring.slot_stride, b as int) % (alignment as int) == 0,
{
    let s = ring.slot_stride as int;
    let n = ring.slot_capacity as int;
    assert((a + 1) * s <= b * s) by (nonlinear_arith)
        requires
            a + 1 <= b,
            0 <= s,
    ;
    assert((b + 1) * s <= n * s) by (nonlinear_arith)
        requires
            b + 1 <= n,
            0 <= s,
    ;
    assert((a + 1) * s == a * s + s) by (nonlinear_arith);
    assert((b + 1) * s == b * s + s) by (nonlinear_arith);
    vstd::arithmetic::div_mod::lemma_mul_mod_noop_right(b as int, s, alignment as int);
    assert((b as int) * 0 == 0) by (nonlinear_arith);
}

/// Rounding up to a multiple of 4 gives the least multiple that is not below.
pub proof fn law_round4_is_the_least(n: int, multiple: int)
    requires
        0 <= n <= 4 * multiple,
    ensures
        round4(n) % 4 == 0,
        n <= round4(n) < n + 4,
        round4(n) <= 4 * multiple,
{
}

/// A slot that is written holds the bytes from its start, and zeros behind them.
pub proof fn law_slot_contents(bytes: Seq<u8>, size: nat, i: int)
    requires
        0 <= i < size,
    ensures
        padded(bytes, size).len() == size,
        i < bytes.len() ==> padded(bytes, size)[i] == bytes[i],
        i >= bytes.len() ==> padded(bytes, size)[i] == 0,
{
}

/// The first slot starts at the buffer's start and each one a stride behind the
/// one before. There is room as long as a slot is free and its start fits an
/// offset.
pub proof fn law_slots_follow_each_other(ring: UniformRing, slot: int)
    ensures
        slot_offset(ring.slot_stride, 0) == 0,
        slot_offset(ring.slot_stride, slot + 1) == slot_offset(ring.slot_stride, slot)
            + ring.slot_stride,
        ring.has_room() <==> ring.next_slot < ring.slot_capacity && ring.next_slot
            * ring.slot_stride <= 0xffff_ffff,
{
    assert((slot + 1) * ring.slot_stride == slot * ring.slot_stride + ring.slot_stride)
        by (nonlinear_arith);
}

} // verus!
