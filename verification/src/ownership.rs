//! Values and their owners: a value lives as long as the scope of the
//! variable that owns it, a copy leaves the first owner in place, and a move
//! hands the value on.

use vstd::prelude::*;
use vstd::string::StringExecFns;

verus! {

/// Binds a string literal inside a block; outside the block the name is gone.
pub fn _scope() {
    {
        let _s: &str = "hello";
        assert(_s@ == "hello"@);
    }
}

/// Makes owned strings out of literals; the second binding takes the place
/// of the first.
pub fn _string_literal() {
    let _s: String = String::from_str("hello");
    assert(_s@ == "hello"@);

    let mut _s: String = String::from_str("hello, world");
    assert(_s@ == "hello, world"@);
}

/// Makes an owned string inside a block; its memory goes back when the block
/// ends.
pub fn _memory_one() {
    {
        let _s: String = String::from_str("hello");
        assert(_s@ == "hello"@);
    }
}

/// Copies an integer, after which both variables hold it, and moves a
/// string, after which the second variable alone holds it.
pub fn _interact_integer() {
    let _x: i32 = 5;
    let _y: i32 = _x;
    assert(_x == 5 && _y == 5);

    let _s1: String = String::from_str("hello");
    let _s2: String = _s1;
    assert(_s2@ == "hello"@);
}

} // verus!
