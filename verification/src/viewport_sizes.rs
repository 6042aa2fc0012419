//! Named viewport dimensions, as (width, height) in character cells.

use vstd::prelude::*;

verus! {

pub const TINY: (u16, u16) = (25, 10);

pub const SMALL: (u16, u16) = (50, 20);

pub const NORMAL: (u16, u16) = (75, 30);

pub const BIG: (u16, u16) = (100, 40);

pub const HUGE: (u16, u16) = (150, 60);

} // verus!
