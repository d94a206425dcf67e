//! Outline levels keyed by row or column number.

use std::collections::BTreeMap;
use vstd::prelude::*;

verus! {

/// Records the outline level of a column.
pub fn set_col_level(m: &mut BTreeMap<u16, u8>, col: u16, level: u8)
    ensures
        final(m)@ == old(m)@.insert(col, level),
{
    broadcast use vstd::laws_cmp::group_laws_cmp;

    m.insert(col, level);
}

/// Records the outline level of a row.
pub fn set_row_level(m: &mut BTreeMap<u32, u8>, row: u32, level: u8)
    ensures
        final(m)@ == old(m)@.insert(row, level),
{
    broadcast use vstd::laws_cmp::group_laws_cmp;

    m.insert(row, level);
}

} // verus!
