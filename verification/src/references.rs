//! Borrowing: reading a string through a shared reference, and changing it
//! through a mutable one.

use vstd::prelude::*;
use vstd::string::StringExecFns;
use vstd::utf8::encode_utf8;

verus! {

/// The length of `s` in bytes, which is the length of its UTF-8 encoding.
/// The string stays with its owner.
pub fn calculate_length(s: &String) -> (length: usize)
    ensures
        length == encode_utf8(s@).len(),
{
    s.as_str().as_bytes().len()
}

/// Makes a string and has it extended through a mutable reference.
pub fn _mutable_ref() {
    let mut s: String = String::from_str("hello");

    _change(&mut s);
    assert(s@ == "hello"@ + ", world"@);
}

/// Appends `", world"` to the string behind the reference.
pub fn _change(some_string: &mut String)
    ensures
        final(some_string)@ == old(some_string)@ + ", world"@,
{
    some_string.append(", world");
}

/// Takes one mutable reference to a string; there can be no second one
/// while the first is in use.
pub fn _dup_ref() {
    let mut _s: String = String::from_str("hello");

    let _r1: &mut String = &mut _s;
}

/// Takes two mutable references to a string, one after the other: the first
/// ends with its block.
pub fn _mut_ref_dup() {
    let mut _s: String = String::from_str("hello");

    {
        let _r1: &mut String = &mut _s;
    }

    let _r2: &mut String = &mut _s;
}

/// Reads a string through two shared references and, once these are no
/// longer used, takes a mutable one; returns what that one reads.
pub fn _let_go() -> (text: String)
    ensures
        text@ == "hello"@,
{
    let mut _s: String = String::from_str("hello");

    let _r1: &String = &_s;
    let _r2: &String = &_s;

    let _r3: &mut String = &mut _s;
    _r3.clone()
}

} // verus!
