//! Small integer helpers with saturating behaviour.

use vstd::prelude::*;

verus! {

/// `a + d`, held between zero and the largest index.
pub open spec fn add_signed(a: int, d: int) -> int {
    if a + d < 0 {
        0
    } else if a + d > usize::MAX {
        usize::MAX as int
    } else {
        a + d
    }
}

pub open spec fn min(a: int, b: int) -> int {
    if a <= b {
        a
    } else {
        b
    }
}

pub open spec fn max(a: int, b: int) -> int {
    if a >= b {
        a
    } else {
        b
    }
}

/// `a + d`, held between zero and the largest index.
pub fn saturating_add_signed(a: usize, d: isize) -> (r: usize)
    ensures
        r == add_signed(a as int, d as int),
{
    if d >= 0 {
        a.saturating_add(d as usize)
    } else {
        let down: usize = (-(d + 1)) as usize;
        if a <= down {
            0
        } else {
            a - down - 1
        }
    }
}

pub fn min_usize(a: usize, b: usize) -> (r: usize)
    ensures
        r == min(a as int, b as int),
{
    if a <= b {
        a
    } else {
        b
    }
}

pub fn max_usize(a: usize, b: usize) -> (r: usize)
    ensures
        r == max(a as int, b as int),
{
    if a >= b {
        a
    } else {
        b
    }
}

pub fn min_u16(a: u16, b: u16) -> (r: u16)
    ensures
        r == min(a as int, b as int),
{
    if a <= b {
        a
    } else {
        b
    }
}

pub fn max_u16(a: u16, b: u16) -> (r: u16)
    ensures
        r == max(a as int, b as int),
{
    if a >= b {
        a
    } else {
        b
    }
}

} // verus!
