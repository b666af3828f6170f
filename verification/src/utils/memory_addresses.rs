use vstd::prelude::*;
use vstd::string::StringExecFns;

use crate::utils::chars::push_char;

verus! {

/// Relies on rand::random_range over `0..bound`: a draw from that range,
/// which panics only on an empty range; the precondition rules that out.
/// Nothing is promised about which value comes back.
#[verifier::external_body]
fn random_below(bound: u64) -> (r: u64)
    requires
        1 <= bound,
    ensures
        r < bound,
{
    rand::random_range(0..bound)
}

pub open spec fn is_hex_digit(c: char) -> bool {
    (48 <= c as u32 && c as u32 <= 57) || (97 <= c as u32 && c as u32 <= 102)
}

/// The lower-case hexadecimal digit for `d`.
pub open spec fn hex_digit_of(d: int) -> char {
    if d == 0 {
        '0'
    } else if d == 1 {
        '1'
    } else if d == 2 {
        '2'
    } else if d == 3 {
        '3'
    } else if d == 4 {
        '4'
    } else if d == 5 {
        '5'
    } else if d == 6 {
        '6'
    } else if d == 7 {
        '7'
    } else if d == 8 {
        '8'
    } else if d == 9 {
        '9'
    } else if d == 10 {
        'a'
    } else if d == 11 {
        'b'
    } else if d == 12 {
        'c'
    } else if d == 13 {
        'd'
    } else if d == 14 {
        'e'
    } else {
        'f'
    }
}

fn hex_digit(d: u64) -> (r: char)
    requires
        d < 16,
    ensures
        r == hex_digit_of(d as int),
        is_hex_digit(r),
{
    match d {
        0 => '0',
        1 => '1',
        2 => '2',
        3 => '3',
        4 => '4',
        5 => '5',
        6 => '6',
        7 => '7',
        8 => '8',
        9 => '9',
        10 => 'a',
        11 => 'b',
        12 => 'c',
        13 => 'd',
        14 => 'e',
        _ => 'f',
    }
}

/// A fresh memory-address text: `0x` followed by eight random lower-case
/// hexadecimal digits.
#[verifier::loop_isolation(false)]
pub fn generate_memory_address() -> (r: String)
    ensures
        r@.len() == 10,
        r@[0] == '0',
        r@[1] == 'x',
        forall|i: int| 2 <= i < 10 ==> is_hex_digit(#[trigger] r@[i]),
{
    let mut s = String::from_str("0x");
    proof {
        reveal_strlit("0x");
    }
    let mut i: u64 = 0;
    while i < 8
        invariant
            i <= 8,
            s@.len() == 2 + i,
            s@[0] == '0',
            s@[1] == 'x',
            forall|j: int| 2 <= j < s@.len() ==> is_hex_digit(#[trigger] s@[j]),
        decreases 8 - i,
    {
        let d = random_below(16);
        push_char(&mut s, hex_digit(d));
        i = i + 1;
    }
    s
}

} // verus!
