//! Building the textual pieces of a request: fixed-width lowercase
//! hexadecimal numbers and decimal numbers, character by character.
use vstd::prelude::*;

verus! {

/// The lowercase hexadecimal digit character for a value below sixteen
/// (also the decimal digit character for a value below ten).
pub open spec fn nibble_char(d: int) -> char {
    if d < 10 {
        ((d + 48) as u8) as char
    } else {
        ((d + 87) as u8) as char
    }
}

/// The fixed-width lowercase hexadecimal rendering of `v`: exactly `width`
/// digits, most significant first, with leading zeros kept.
pub open spec fn hex_digits(v: int, width: nat) -> Seq<char>
    recommends
        v >= 0,
    decreases width,
{
    if width == 0 {
        Seq::<char>::empty()
    } else {
        hex_digits(v / 16, (width - 1) as nat) + seq![nibble_char(v % 16)]
    }
}

/// The decimal rendering of `v` without leading zeros (a single `0` for zero).
pub open spec fn dec_digits(v: int) -> Seq<char>
    recommends
        v >= 0,
    decreases v,
    when v >= 0
{
    if v < 10 {
        seq![nibble_char(v)]
    } else {
        dec_digits(v / 10) + seq![nibble_char(v % 10)]
    }
}

/// The one-character string for a single hexadecimal digit.
fn nibble_str(d: u8) -> (r: &'static str)
    requires
        d < 16,
    ensures
        r@ == seq![nibble_char(d as int)],
{
    proof {
        reveal_strlit("0");
        reveal_strlit("1");
        reveal_strlit("2");
        reveal_strlit("3");
        reveal_strlit("4");
        reveal_strlit("5");
        reveal_strlit("6");
        reveal_strlit("7");
        reveal_strlit("8");
        reveal_strlit("9");
        reveal_strlit("a");
        reveal_strlit("b");
        reveal_strlit("c");
        reveal_strlit("d");
        reveal_strlit("e");
        reveal_strlit("f");
        assert("0"@ =~= seq![nibble_char(0)]);
        assert("1"@ =~= seq![nibble_char(1)]);
        assert("2"@ =~= seq![nibble_char(2)]);
        assert("3"@ =~= seq![nibble_char(3)]);
        assert("4"@ =~= seq![nibble_char(4)]);
        assert("5"@ =~= seq![nibble_char(5)]);
        assert("6"@ =~= seq![nibble_char(6)]);
        assert("7"@ =~= seq![nibble_char(7)]);
        assert("8"@ =~= seq![nibble_char(8)]);
        assert("9"@ =~= seq![nibble_char(9)]);
        assert("a"@ =~= seq![nibble_char(10)]);
        assert("b"@ =~= seq![nibble_char(11)]);
        assert("c"@ =~= seq![nibble_char(12)]);
        assert("d"@ =~= seq![nibble_char(13)]);
        assert("e"@ =~= seq![nibble_char(14)]);
        assert("f"@ =~= seq![nibble_char(15)]);
    }
    match d {
        0 => "0",
        1 => "1",
        2 => "2",
        3 => "3",
        4 => "4",
        5 => "5",
        6 => "6",
        7 => "7",
        8 => "8",
        9 => "9",
        10 => "a",
        11 => "b",
        12 => "c",
        13 => "d",
        14 => "e",
        _ => "f",
    }
}

/// Renders `v` as exactly `width` lowercase hexadecimal digits,
/// most significant first.
pub fn hex_string(v: u128, width: usize) -> (r: String)
    ensures
        r@ == hex_digits(v as int, width as nat),
    decreases width,
{
    if width == 0 {
        let r = String::new();
        proof {
            assert(r@ =~= hex_digits(v as int, 0));
        }
        r
    } else {
        let rest = hex_string(v / 16, width - 1);
        let d: u8 = (v % 16) as u8;
        let r = rest.concat(nibble_str(d));
        proof {
            assert(d as int == v as int % 16);
            assert((v / 16) as int == v as int / 16);
            assert(r@ =~= hex_digits(v as int, width as nat));
        }
        r
    }
}

/// Renders `v` in decimal, without leading zeros.
pub fn decimal_string(v: u16) -> (r: String)
    ensures
        r@ == dec_digits(v as int),
    decreases v,
{
    if v < 10 {
        let r = nibble_str(v as u8).to_owned();
        proof {
            assert(r@ =~= dec_digits(v as int));
        }
        r
    } else {
        let rest = decimal_string(v / 10);
        let r = rest.concat(nibble_str((v % 10) as u8));
        proof {
            assert(r@ =~= dec_digits(v as int));
        }
        r
    }
}

} // verus!
