//! Geometry streams: a growable GPU buffer plus CPU staging for vertices or
//! indices.
//!
//! A phase's geometry arrives through repeated map/unmap cycles; each unmap
//! appends at a running cursor, so a draw recorded earlier in the phase still
//! reads its own segment once the phase is submitted.

use vstd::prelude::*;

use crate::render_device::rings::{round4, round_up_to_4};

verus! {

/// Bookkeeping of one stream.
#[derive(Clone, Copy, PartialEq, Eq, Debug, Structural)]
pub struct GeometryStream {
    /// Bytes of the GPU buffer.
    pub capacity: u64,
    /// Bytes of the staging memory.
    pub staging_len: u64,
    /// Bytes claimed by the map in flight.
    pub mapped: Option<u32>,
    /// Where the next unmap writes.
    pub cursor: u64,
    /// Where the most recent unmap wrote; draws are relative to it.
    pub segment_base: u64,
}

/// What an unmap asks of the GPU.
#[derive(Clone, Copy, PartialEq, Eq, Debug, Structural)]
pub struct Upload {
    /// Size of a new buffer to replace the old one with, where it is too
    /// small. Draws recorded earlier keep the old one; its bytes are not
    /// copied.
    pub grow: Option<u64>,
    /// Where to write.
    pub offset: u64,
    /// How many bytes of the staging memory to write.
    pub len: u64,
}

/// The stream with `bytes` claimed for writing. The staging memory is grown
/// where it does not cover the claim as it will be uploaded.
pub open spec fn mapped_stream(s: GeometryStream, bytes: u32) -> GeometryStream {
    GeometryStream {
        staging_len: if round4(bytes as int) > s.staging_len {
            round4(bytes as int) as u64
        } else {
            s.staging_len
        },
        mapped: Some(bytes),
        ..s
    }
}

/// Capacity after `len` more bytes: doubled, or more where that is too little.
pub open spec fn grown(s: GeometryStream, len: int) -> int {
    if s.cursor + len > s.capacity {
        if s.cursor + len > 2 * s.capacity {
            s.cursor + len
        } else {
            2 * s.capacity
        }
    } else {
        s.capacity as int
    }
}

/// The stream with the claimed bytes appended.
pub open spec fn unmapped_stream(s: GeometryStream) -> GeometryStream {
    let len = round4(s.mapped->0 as int);
    GeometryStream {
        capacity: grown(s, len) as u64,
        mapped: None,
        cursor: (s.cursor + len) as u64,
        segment_base: s.cursor,
        ..s
    }
}

/// Whether the claimed bytes can be appended: some are claimed, and the sizes
/// fit.
pub open spec fn can_unmap(s: GeometryStream) -> bool {
    &&& s.mapped is Some
    &&& s.cursor + round4(s.mapped->0 as int) <= u64::MAX
    &&& s.cursor + round4(s.mapped->0 as int) > s.capacity ==> 2 * s.capacity <= u64::MAX
}

impl GeometryStream {
    /// What was written lies inside the buffer, and the staging memory covers
    /// what is claimed.
    pub open spec fn wf(&self) -> bool {
        &&& self.cursor <= self.capacity
        &&& self.segment_base <= self.capacity
        &&& self.mapped matches Some(bytes) ==> round4(bytes as int) <= self.staging_len
    }

    /// A stream over a buffer and staging memory of `size` bytes.
    pub fn new(size: u32) -> (s: GeometryStream)
        ensures
            s.wf(),
            s == (GeometryStream {
                capacity: size as u64,
                staging_len: size as u64,
                mapped: None,
                cursor: 0,
                segment_base: 0,
            }),
    {
        GeometryStream {
            capacity: size as u64,
            staging_len: size as u64,
            mapped: None,
            cursor: 0,
            segment_base: 0,
        }
    }

    /// Starts appending at the front again.
    pub fn reset(&mut self)
        requires
            old(self).wf(),
        ensures
            final(self).wf(),
            *final(self) == (GeometryStream { cursor: 0, ..*old(self) }),
    {
        self.cursor = 0;
    }

    /// Claims `bytes` bytes of staging memory; no claim may be open. The
    /// staging memory must be grown to the returned length.
    pub fn map(&mut self, bytes: u32) -> (staging: u64)
        requires
            old(self).wf(),
            old(self).mapped is None,
        ensures
            final(self).wf(),
            *final(self) == mapped_stream(*old(self), bytes),
            staging == final(self).staging_len,
            bytes <= staging,
    {
        let len: u64 = round_up_to_4(bytes as u64);
        if len > self.staging_len {
            self.staging_len = len;
        }
        self.mapped = Some(bytes);
        self.staging_len
    }

    /// Whether the claimed bytes can be appended.
    pub fn unmappable(&self) -> (r: bool)
        ensures
            r == can_unmap(*self),
    {
        match self.mapped {
            None => false,
            Some(bytes) => {
                let len: u64 = round_up_to_4(bytes as u64);
                self.cursor <= u64::MAX - len && (self.cursor + len <= self.capacity
                    || self.capacity <= u64::MAX / 2)
            },
        }
    }

    /// Appends the claimed bytes, rounded up to a multiple of 4. The staging
    /// memory covers them.
    pub fn unmap(&mut self) -> (u: Upload)
        requires
            old(self).wf(),
            can_unmap(*old(self)),
        ensures
            final(self).wf(),
            *final(self) == unmapped_stream(*old(self)),
            u.offset == old(self).cursor,
            u.len == round4(old(self).mapped->0 as int),
            u.len <= old(self).staging_len,
            u.grow == if final(self).capacity == old(self).capacity {
                None
            } else {
                Some(final(self).capacity)
            },
    {
        let bytes: u32 = match self.mapped {
            Some(b) => b,
            None => 0,
        };
        let len: u64 = round_up_to_4(bytes as u64);
        self.mapped = None;
        let end: u64 = self.cursor + len;
        let mut grow: Option<u64> = None;
        if end > self.capacity {
            let twice: u64 = self.capacity * 2;
            let size: u64 = if end > twice {
                end
            } else {
                twice
            };
            self.capacity = size;
            grow = Some(size);
        }
        let offset: u64 = self.cursor;
        self.segment_base = offset;
        self.cursor = end;
        Upload { grow, offset, len }
    }
}

/// A claim of any size can be appended, as long as the buffer can be doubled.
pub proof fn law_every_claim_fits(s: GeometryStream, bytes: u32)
    requires
        s.wf(),
        2 * s.capacity <= u64::MAX,
    ensures
        can_unmap(mapped_stream(s, bytes)),
        mapped_stream(s, bytes).wf(),
        bytes <= round4(bytes as int) <= mapped_stream(s, bytes).staging_len,
{
}

/// The stream after claims that were each written and appended in turn.
pub open spec fn appended(s: GeometryStream, claims: Seq<u32>) -> GeometryStream
    decreases claims.len(),
{
    if claims.len() == 0 {
        s
    } else {
        unmapped_stream(mapped_stream(appended(s, claims.drop_last()), claims.last()))
    }
}

/// What the claims take up together.
pub open spec fn padded_sum(claims: Seq<u32>) -> int
    decreases claims.len(),
{
    if claims.len() == 0 {
        0
    } else {
        padded_sum(claims.drop_last()) + round4(claims.last() as int)
    }
}

/// More than any buffer holds, and small enough to be doubled twice.
pub open spec fn stream_limit() -> int {
    0x2000_0000_0000_0000
}

/// In a phase every claim can be appended, whatever its size, and its segment
/// starts where those before it end: at the sum of the claims before it, each
/// rounded up to a multiple of 4.
pub proof fn law_segments_add_up(s: GeometryStream, claims: Seq<u32>, last: u32)
    requires
        s.wf(),
        s.mapped is None,
        s.cursor == 0,
        s.capacity <= 2 * stream_limit(),
        padded_sum(claims) + round4(last as int) <= stream_limit(),
    ensures
        ({
            let open = mapped_stream(appended(s, claims), last);
            let done = unmapped_stream(open);
            &&& appended(s, claims).mapped is None
            &&& appended(s, claims).cursor == padded_sum(claims)
            &&& can_unmap(open)
            &&& open.wf() && done.wf()
            &&& done.segment_base == padded_sum(claims)
            &&& done.segment_base % 4 == 0
            &&& done.cursor == padded_sum(claims) + round4(last as int)
            &&& done.capacity <= 2 * stream_limit()
        }),
    decreases claims.len(),
{
    if claims.len() > 0 {
        law_segments_add_up(s, claims.drop_last(), claims.last());
    }
}

/// The segments of a phase never overlap: a segment starts where the one
/// before it ends, and lies inside the buffer. Whatever was drawn from an
/// earlier segment is not written over.
pub proof fn law_segments_are_disjoint(s: GeometryStream, first: u32, second: u32)
    requires
        s.wf(),
        s.mapped is None,
        can_unmap(mapped_stream(s, first)),
        can_unmap(mapped_stream(unmapped_stream(mapped_stream(s, first)), second)),
    ensures
        ({
            let a = unmapped_stream(mapped_stream(s, first));
            let b = unmapped_stream(mapped_stream(a, second));
            &&& a.segment_base == s.cursor
            &&& a.segment_base + first <= b.segment_base
            &&& b.segment_base + second <= b.cursor <= b.capacity
            &&& s.capacity <= a.capacity <= b.capacity
        }),
{
}

/// Memory is grown only where it is too small: a buffer that holds what is
/// appended stays, another is replaced by one that is at least twice as large
/// and no larger than that or the need asks for. Staging memory never shrinks
/// and covers the claim.
pub proof fn law_memory_grows_where_it_is_short(s: GeometryStream, bytes: u32)
    requires
        s.wf(),
        can_unmap(mapped_stream(s, bytes)),
    ensures
        ({
            let open = mapped_stream(s, bytes);
            let done = unmapped_stream(open);
            let end = done.cursor as int;
            &&& open.mapped == Some(bytes)
            &&& open.cursor == s.cursor && open.capacity == s.capacity
            &&& open.segment_base == s.segment_base
            &&& s.cursor + bytes <= end < s.cursor + bytes + 4
            &&& end <= s.capacity ==> done.capacity == s.capacity
            &&& end > s.capacity ==> done.capacity >= 2 * s.capacity && done.capacity >= end && (
            done.capacity == 2 * s.capacity || done.capacity == end)
            &&& open.staging_len >= s.staging_len
            &&& bytes <= open.staging_len
            &&& open.staging_len == s.staging_len || open.staging_len < bytes + 4
            &&& done.staging_len == open.staging_len
            &&& done.mapped is None
        }),
{
}

} // verus!
