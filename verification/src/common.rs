//! Shared helpers for walking untrusted buffers.
use vstd::prelude::*;

verus! {

/// An offset is safe to read next when it still lies inside the available
/// data and, if an earlier offset was already processed, strictly advances
/// past it (so that enumeration loops cannot revisit or stall).
pub open spec fn spec_offset_safe(available_data: nat, offset: nat, last_offset: Option<nat>) -> bool {
    &&& offset < available_data
    &&& match last_offset {
        Some(last) => offset > last,
        None => true,
    }
}

/// Bounds-and-progress guard used by enumeration loops over untrusted data.
pub fn is_offset_safe(available_data: usize, offset: usize, last_offset: Option<usize>) -> (safe: bool)
    ensures
        safe == spec_offset_safe(
            available_data as nat,
            offset as nat,
            match last_offset {
                Some(last) => Some(last as nat),
                None => None,
            },
        ),
{
    if offset >= available_data {
        return false;
    }
    match last_offset {
        Some(last) => offset > last,
        None => true,
    }
}

} // verus!
