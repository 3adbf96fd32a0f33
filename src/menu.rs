use vstd::prelude::*;

verus! {

/// The most options a menu can offer: one per letter.
pub const MAX_OPTIONS: usize = 26;

/// The option a key picks in a menu of `n` options lettered from `a`: a
/// letter in either case picks its place in the alphabet, if there is such
/// an option; any other key picks nothing.
pub open spec fn picked(c: char, n: nat) -> Option<nat> {
    let i: int = if 'a' <= c <= 'z' {
        c as int - 'a' as int
    } else if 'A' <= c <= 'Z' {
        c as int - 'A' as int
    } else {
        -1
    };
    if 0 <= i < n {
        Some(i as nat)
    } else {
        None
    }
}

/// The option that the key `c` picks among `n`.
pub fn menu_choice(c: char, n: usize) -> (r: Option<usize>)
    requires
        n <= MAX_OPTIONS,
    ensures
        r == match picked(c, n as nat) {
            Some(i) => Some(i as usize),
            None => None::<usize>,
        },
{
    let i: u32 = if 'a' <= c && c <= 'z' {
        (c as u32) - ('a' as u32)
    } else if 'A' <= c && c <= 'Z' {
        (c as u32) - ('A' as u32)
    } else {
        return None;
    };
    if (i as usize) < n {
        Some(i as usize)
    } else {
        None
    }
}

} // verus!
