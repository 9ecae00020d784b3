//! Functions that hand back a value.

use vstd::prelude::*;

verus! {

/// The number five.
pub fn five() -> (value: i32)
    ensures
        value == 5,
{
    5
}

/// The successor of `x`. The largest `i32` has none.
pub fn plus_one(x: i32) -> (value: i32)
    requires
        x < i32::MAX,
    ensures
        value == x + 1,
{
    x + 1
}

/// The value of a block is the value of its last expression: here three
/// plus one.
pub fn curly_function() -> (y: i32)
    ensures
        y == 4,
{
    let y: i32 = {
        let x: i32 = 3;
        x + 1
    };
    y
}

} // verus!
