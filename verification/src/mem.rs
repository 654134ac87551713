//! Guest memory accessor: bounds-checked read and write over the guest's
//! linear memory, viewed as a byte vector.
//!
//! Every capability-bridge touch of guest memory goes through this module.
//! A region given by `offset` and `len` is valid only when `offset + len`
//! (computed without wrapping) stays within the current memory size; an
//! out-of-range or overflowing region is rejected, never truncated.

use vstd::prelude::*;

verus! {

/// True when the region `[offset, offset + len)` lies inside a memory of
/// size `mem_size`. The sum is formed over unbounded integers, so an
/// offset/length pair that would overflow the address width is invalid.
pub open spec fn region_ok(mem_size: nat, offset: u32, len: u32) -> bool {
    offset as nat + len as nat <= mem_size
}

/// Bounds check for a guest memory region, the single chokepoint used by
/// every read and write.
pub fn check_region(mem: &Vec<u8>, offset: u32, len: u32) -> (r: bool)
    ensures
        r == region_ok(mem@.len(), offset, len),
{
    let end: u64 = offset as u64 + len as u64;
    end <= mem.len() as u64
}

/// Bounds-checked read: returns the bytes of the region, or `None` when the
/// region is out of range.
pub fn read_region(mem: &Vec<u8>, offset: u32, len: u32) -> (r: Option<Vec<u8>>)
    ensures
        r is Some <==> region_ok(mem@.len(), offset, len),
        r matches Some(v) ==> v@ == mem@.subrange(offset as int, offset as int + len as int),
{
    if !check_region(mem, offset, len) {
        return None;
    }
    let mut out: Vec<u8> = Vec::new();
    let mut i: usize = 0;
    while i < len as usize
        invariant
            region_ok(mem@.len(), offset, len),
            i <= len as usize,
            out@ == mem@.subrange(offset as int, offset as int + i as int),
        decreases len as int - i as int,
    {
        proof {
            assert(mem.len() == mem@.len());
            assert((offset as int + i as int) < mem@.len());
        }
        out.push(mem[offset as usize + i]);
        i += 1;
        proof {
            assert(out@ =~= mem@.subrange(offset as int, offset as int + i as int));
        }
    }
    Some(out)
}

/// Bounds-checked write: replaces the region starting at `offset` with
/// `data`, or fails leaving the memory untouched when the destination is out
/// of range. The memory never grows or shrinks.
pub fn write_region(mem: &mut Vec<u8>, offset: u32, data: &Vec<u8>) -> (r: bool)
    requires
        data@.len() <= u32::MAX,
    ensures
        r == region_ok(old(mem)@.len(), offset, data@.len() as u32),
        final(mem)@.len() == old(mem)@.len(),
        !r ==> final(mem)@ == old(mem)@,
        r ==> final(mem)@ == old(mem)@.subrange(0, offset as int) + data@ + old(mem)@.subrange(
            offset as int + data@.len() as int,
            old(mem)@.len() as int,
        ),
        r ==> forall|i: int|
            0 <= i < final(mem)@.len() && !(offset as int <= i < offset as int + data@.len())
                ==> final(mem)@[i] == old(mem)@[i],
        r ==> forall|i: int|
            0 <= i < data@.len() ==> final(mem)@[offset as int + i] == data@[i],
{
    let len: u32 = data.len() as u32;
    if !check_region(mem, offset, len) {
        return false;
    }
    let mut i: usize = 0;
    while i < data.len()
        invariant
            region_ok(old(mem)@.len(), offset, data@.len() as u32),
            data@.len() <= u32::MAX,
            i <= data@.len(),
            mem@.len() == old(mem)@.len(),
            forall|j: int|
                0 <= j < mem@.len() && !(offset as int <= j < offset as int + i as int)
                    ==> mem@[j] == old(mem)@[j],
            forall|j: int| 0 <= j < i as int ==> mem@[offset as int + j] == data@[j],
        decreases data@.len() - i as int,
    {
        proof {
            assert(mem.len() == mem@.len());
            assert((offset as int + i as int) < mem@.len());
        }
        mem.set(offset as usize + i, data[i]);
        i += 1;
    }
    proof {
        assert(mem@ =~= old(mem)@.subrange(0, offset as int) + data@ + old(mem)@.subrange(
            offset as int + data@.len() as int,
            old(mem)@.len() as int,
        ));
    }
    true
}

} // verus!
