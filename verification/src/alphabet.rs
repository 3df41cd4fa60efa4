//! The symbol set that targets are drawn from: the 26 lowercase letters.

use vstd::prelude::*;

verus! {

/// Number of letters in the generation alphabet.
pub const LETTER_COUNT: usize = 26;

/// A character counts as a letter of the generation alphabet exactly when it
/// lies between 'a' and 'z'.
pub open spec fn is_lowercase_letter(c: char) -> bool {
    'a' <= c && c <= 'z'
}

/// The letter of the alphabet at a given position, 'a' first.
pub open spec fn spec_letter(i: int) -> char {
    if i == 0 { 'a' }
    else if i == 1 { 'b' }
    else if i == 2 { 'c' }
    else if i == 3 { 'd' }
    else if i == 4 { 'e' }
    else if i == 5 { 'f' }
    else if i == 6 { 'g' }
    else if i == 7 { 'h' }
    else if i == 8 { 'i' }
    else if i == 9 { 'j' }
    else if i == 10 { 'k' }
    else if i == 11 { 'l' }
    else if i == 12 { 'm' }
    else if i == 13 { 'n' }
    else if i == 14 { 'o' }
    else if i == 15 { 'p' }
    else if i == 16 { 'q' }
    else if i == 17 { 'r' }
    else if i == 18 { 's' }
    else if i == 19 { 't' }
    else if i == 20 { 'u' }
    else if i == 21 { 'v' }
    else if i == 22 { 'w' }
    else if i == 23 { 'x' }
    else if i == 24 { 'y' }
    else { 'z' }
}

/// The letter at position `i`, as a one-character string slice.
pub fn letter_at(i: usize) -> (r: &'static str)
    requires
        i < LETTER_COUNT,
    ensures
        r@ == seq![spec_letter(i as int)],
        is_lowercase_letter(spec_letter(i as int)),
{
    proof {
        reveal_strlit("a");
        reveal_strlit("b");
        reveal_strlit("c");
        reveal_strlit("d");
        reveal_strlit("e");
        reveal_strlit("f");
        reveal_strlit("g");
        reveal_strlit("h");
        reveal_strlit("i");
        reveal_strlit("j");
        reveal_strlit("k");
        reveal_strlit("l");
        reveal_strlit("m");
        reveal_strlit("n");
        reveal_strlit("o");
        reveal_strlit("p");
        reveal_strlit("q");
        reveal_strlit("r");
        reveal_strlit("s");
        reveal_strlit("t");
        reveal_strlit("u");
        reveal_strlit("v");
        reveal_strlit("w");
        reveal_strlit("x");
        reveal_strlit("y");
        reveal_strlit("z");
    }
    let r: &'static str = match i {
        0 => "a",
        1 => "b",
        2 => "c",
        3 => "d",
        4 => "e",
        5 => "f",
        6 => "g",
        7 => "h",
        8 => "i",
        9 => "j",
        10 => "k",
        11 => "l",
        12 => "m",
        13 => "n",
        14 => "o",
        15 => "p",
        16 => "q",
        17 => "r",
        18 => "s",
        19 => "t",
        20 => "u",
        21 => "v",
        22 => "w",
        23 => "x",
        24 => "y",
        _ => "z",
    };
    proof {
        assert(r@ =~= seq![spec_letter(i as int)]);
    }
    r
}

} // verus!
