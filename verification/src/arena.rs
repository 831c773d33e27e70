//! The per-invocation memory arena: a bump allocator over one fixed
//! buffer, reset at the start of every call or deploy.
//!
//! Allocation only moves an offset forward; nothing is freed until the
//! next reset.  Exhaustion surfaces as an empty result — fatal for the
//! current invocation, with no graceful degradation.

use vstd::arithmetic::div_mod::{lemma_fundamental_div_mod, lemma_mod_multiples_basic};
use vstd::prelude::*;

verus! {

/// The arena's fixed capacity in bytes.
pub const BUFFER_SIZE: usize = 32768;

/// A bump allocator handing out offsets into one per-invocation buffer.
#[derive(Clone, Copy, Debug)]
pub struct PvmAllocator {
    pub capacity: usize,
    pub offset: usize,
}

/// The allocator's offset never passes its capacity.
pub open spec fn wf(a: PvmAllocator) -> bool {
    a.offset <= a.capacity
}

/// The next offset at or after `offset` that `align` divides.
pub open spec fn spec_aligned(offset: nat, align: nat) -> nat {
    if offset % align == 0 {
        offset
    } else {
        (offset + (align - offset % align)) as nat
    }
}

impl PvmAllocator {
    /// A fresh arena over the fixed buffer, fully free.
    pub fn new() -> (a: PvmAllocator)
        ensures
            wf(a),
            a.capacity == BUFFER_SIZE,
            a.offset == 0,
    {
        PvmAllocator { capacity: BUFFER_SIZE, offset: 0 }
    }
}

/// Allocate `size` bytes with no alignment demand.  Returns the start
/// offset of the allocation, or nothing when the arena cannot hold it.
pub fn allocate(arena: &mut PvmAllocator, size: usize) -> (r: Option<usize>)
    requires
        wf(*old(arena)),
    ensures
        wf(*final(arena)),
        final(arena).capacity == old(arena).capacity,
        match r {
            Option::Some(start) => {
                &&& start == old(arena).offset
                &&& final(arena).offset == start + size
                &&& final(arena).offset <= final(arena).capacity
            },
            Option::None => {
                &&& *final(arena) == *old(arena)
                &&& old(arena).offset + size > old(arena).capacity
            },
        },
{
    alloc_aligned(arena, size, 1)
}

/// Allocate `size` bytes whose start offset `align` divides.  Returns the
/// start offset, or nothing when the aligned allocation would pass the
/// arena's capacity.
pub fn alloc_aligned(arena: &mut PvmAllocator, size: usize, align: usize) -> (r: Option<usize>)
    requires
        wf(*old(arena)),
        align >= 1,
    ensures
        wf(*final(arena)),
        final(arena).capacity == old(arena).capacity,
        match r {
            Option::Some(start) => {
                &&& start == spec_aligned(old(arena).offset as nat, align as nat)
                &&& start % align == 0
                &&& old(arena).offset <= start < old(arena).offset + align
                &&& final(arena).offset == start + size
                &&& final(arena).offset <= final(arena).capacity
            },
            Option::None => {
                &&& *final(arena) == *old(arena)
                &&& spec_aligned(old(arena).offset as nat, align as nat) + size > old(
                    arena,
                ).capacity
            },
        },
{
    let offset = arena.offset;
    let rem = offset % align;
    let pad = if rem == 0 {
        0
    } else {
        align - rem
    };
    let aligned = match offset.checked_add(pad) {
        Option::Some(a) => a,
        Option::None => {
            proof {
                assert(spec_aligned(offset as nat, align as nat) > usize::MAX);
            }
            return None;
        },
    };
    proof {
        assert(aligned as nat == spec_aligned(offset as nat, align as nat));
        lemma_fundamental_div_mod(offset as int, align as int);
        if rem != 0 {
            assert(aligned as int == align as int * (offset as int / align as int) + align as int);
            assert(aligned as int == align as int * (offset as int / align as int + 1))
                by (nonlinear_arith)
                requires
                    aligned as int == align as int * (offset as int / align as int) + align as int,
            ;
            lemma_mod_multiples_basic(offset as int / align as int + 1, align as int);
        } else {
            lemma_mod_multiples_basic(offset as int / align as int, align as int);
        }
        assert(aligned as int % align as int == 0);
    }
    let end = match aligned.checked_add(size) {
        Option::Some(e) => e,
        Option::None => {
            return None;
        },
    };
    if end > arena.capacity {
        return None;
    }
    arena.offset = end;
    Some(aligned)
}

/// Reset the arena: every allocation is released at once, at the start of
/// the next invocation.
pub fn reset(arena: &mut PvmAllocator)
    ensures
        wf(*final(arena)),
        final(arena).capacity == old(arena).capacity,
        final(arena).offset == 0,
{
    arena.offset = 0;
}

} // verus!
