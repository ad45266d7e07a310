//! Store backends: what each records as a session's creation time, and how
//! it names what it stores.
use crate::utils::{decimal, is_canonical_decimal, decimal_value, parse_decimal, push_decimal};
use vstd::prelude::*;

pub mod fs;
pub mod redis;

verus! {

/// The bytes that record a session's creation time: its decimal text.
pub fn marker_bytes(created: u64) -> (r: Vec<u8>)
    ensures
        r@ == decimal(created as nat),
{
    let mut out: Vec<u8> = Vec::new();
    push_decimal(&mut out, created);
    assert(out@ =~= decimal(created as nat));
    out
}

/// Reads a session's creation time back from its recorded bytes: canonical
/// decimal text of a `u64`, nothing else.
pub fn parse_marker(data: &[u8]) -> (r: Option<u64>)
    ensures
        r == (if is_canonical_decimal(data@) && decimal_value(data@) <= u64::MAX {
            Some(decimal_value(data@) as u64)
        } else {
            None
        }),
{
    parse_decimal(data)
}

} // verus!
