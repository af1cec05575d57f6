//! Rendering plain values as text: decimal numbers and hyphenated job
//! ids, as they appear in replies and reports.

use vstd::prelude::*;
use vstd::string::StrSliceExecFns;
use vstd::string::StringExecFns;

verus! {

/// The decimal digit character for one digit value.
pub open spec fn dec_digit(d: int) -> char {
    if d == 0 {
        '0'
    } else if d == 1 {
        '1'
    } else if d == 2 {
        '2'
    } else if d == 3 {
        '3'
    } else if d == 4 {
        '4'
    } else if d == 5 {
        '5'
    } else if d == 6 {
        '6'
    } else if d == 7 {
        '7'
    } else if d == 8 {
        '8'
    } else {
        '9'
    }
}

/// The usual decimal rendering of a number, most significant digit
/// first, no leading zeroes (a single `0` for zero).
pub open spec fn dec_seq(n: nat) -> Seq<char>
    decreases n,
{
    if n < 10 {
        seq![dec_digit(n as int)]
    } else {
        dec_seq(n / 10).push(dec_digit((n % 10) as int))
    }
}

/// One decimal digit as a string slice.
fn digit_str(d: u64) -> (r: &'static str)
    requires
        d < 10,
    ensures
        r@ == seq![dec_digit(d as int)],
{
    proof {
        reveal_strlit("0");
        reveal_strlit("1");
        reveal_strlit("2");
        reveal_strlit("3");
        reveal_strlit("4");
        reveal_strlit("5");
        reveal_strlit("6");
        reveal_strlit("7");
        reveal_strlit("8");
        reveal_strlit("9");
    }
    let r = match d {
        0 => "0",
        1 => "1",
        2 => "2",
        3 => "3",
        4 => "4",
        5 => "5",
        6 => "6",
        7 => "7",
        8 => "8",
        _ => "9",
    };
    proof {
        assert(r@ =~= seq![dec_digit(d as int)]);
    }
    r
}

/// Renders a number in decimal.
pub fn dec_u64(n: u64) -> (r: String)
    ensures
        r@ == dec_seq(n as nat),
    decreases n,
{
    if n < 10 {
        String::from_str(digit_str(n))
    } else {
        let mut s = dec_u64(n / 10);
        s.append(digit_str(n % 10));
        s
    }
}

/// The lowercase hex digit character for one nibble value.
pub open spec fn hex_digit(d: int) -> char {
    if d < 10 {
        dec_digit(d)
    } else if d == 10 {
        'a'
    } else if d == 11 {
        'b'
    } else if d == 12 {
        'c'
    } else if d == 13 {
        'd'
    } else if d == 14 {
        'e'
    } else {
        'f'
    }
}

/// Nibble `i` of a 128-bit id, counting from the most significant.
pub open spec fn id_nibble(id: u128, i: int) -> int {
    ((id >> (((31 - i) * 4) as u128)) & 0xf) as int
}

/// The 32 lowercase hex digits of a 128-bit id, most significant first.
pub open spec fn id_hex(id: u128) -> Seq<char> {
    Seq::new(32, |i: int| hex_digit(id_nibble(id, i)))
}

/// The hyphenated rendering of a 128-bit job id: five lowercase hex
/// groups of 8, 4, 4, 4 and 12 digits.
pub open spec fn uuid_hyphenated(id: u128) -> Seq<char> {
    id_hex(id).subrange(0, 8) + seq!['-'] + id_hex(id).subrange(8, 12) + seq!['-'] + id_hex(
        id,
    ).subrange(12, 16) + seq!['-'] + id_hex(id).subrange(16, 20) + seq!['-'] + id_hex(id).subrange(
        20,
        32,
    )
}

/// Relies on `uuid::Uuid::from_u128` (big-endian bytes of the value)
/// and the `Display` impl of `uuid::Uuid`, which renders those bytes as
/// lowercase hyphenated hex in 8-4-4-4-12 groups.
#[verifier::external_body]
pub(crate) fn uuid_string(id: u128) -> (r: String)
    ensures
        r@ == uuid_hyphenated(id),
{
    uuid::Uuid::from_u128(id).to_string()
}

} // verus!
