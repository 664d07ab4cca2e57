//! Hexadecimal dumps of byte strings, for diagnostics about bytes that are
//! not text.

use vstd::prelude::*;

verus! {

/// The lower-case hexadecimal digit for a value below sixteen.
pub open spec fn hex_digit(n: int) -> char {
    if n == 0 {
        '0'
    } else if n == 1 {
        '1'
    } else if n == 2 {
        '2'
    } else if n == 3 {
        '3'
    } else if n == 4 {
        '4'
    } else if n == 5 {
        '5'
    } else if n == 6 {
        '6'
    } else if n == 7 {
        '7'
    } else if n == 8 {
        '8'
    } else if n == 9 {
        '9'
    } else if n == 10 {
        'a'
    } else if n == 11 {
        'b'
    } else if n == 12 {
        'c'
    } else if n == 13 {
        'd'
    } else if n == 14 {
        'e'
    } else {
        'f'
    }
}

/// One byte as `0x` and two digits, the high half first.
pub open spec fn hex_byte(b: u8) -> Seq<char> {
    seq!['0', 'x', hex_digit(b as int / 16), hex_digit(b as int % 16)]
}

/// The bytes in order, each as `hex_byte` gives it, with a comma and a
/// space between neighbours.
pub open spec fn hex_list(bytes: Seq<u8>) -> Seq<char>
    decreases bytes.len(),
{
    if bytes.len() == 0 {
        Seq::empty()
    } else if bytes.len() == 1 {
        hex_byte(bytes[0])
    } else {
        hex_list(bytes.drop_last()) + seq![',', ' '] + hex_byte(bytes.last())
    }
}

/// The dump of a byte string: `hex_list` between square brackets.
pub open spec fn hex_dump(bytes: Seq<u8>) -> Seq<char> {
    seq!['['] + hex_list(bytes) + seq![']']
}

fn digit(n: u8) -> (s: &'static str)
    requires
        n < 16,
    ensures
        s@ == seq![hex_digit(n as int)],
{
    proof {
        reveal_strlit("0");
        reveal_strlit("1");
        reveal_strlit("2");
        reveal_strlit("3");
        reveal_strlit("4");
        reveal_strlit("5");
        reveal_strlit("6");
        reveal_strlit("7");
        reveal_strlit("8");
        reveal_strlit("9");
        reveal_strlit("a");
        reveal_strlit("b");
        reveal_strlit("c");
        reveal_strlit("d");
        reveal_strlit("e");
        reveal_strlit("f");
    }
    let s = match n {
        0 => "0",
        1 => "1",
        2 => "2",
        3 => "3",
        4 => "4",
        5 => "5",
        6 => "6",
        7 => "7",
        8 => "8",
        9 => "9",
        10 => "a",
        11 => "b",
        12 => "c",
        13 => "d",
        14 => "e",
        _ => "f",
    };
    assert(s@ =~= seq![hex_digit(n as int)]);
    s
}

/// Writes a byte string as a bracketed, comma-separated list of its bytes in
/// hexadecimal, such as `[0x63, 0xff]`; the empty string gives `[]`.
pub fn to_hex_str(bytes: &[u8]) -> (acc: String)
    ensures
        acc@ == hex_dump(bytes@),
{
    proof {
        reveal_strlit("[");
        reveal_strlit("]");
        reveal_strlit("0x");
        reveal_strlit(", ");
    }
    let mut acc = String::new();
    acc.append("[");
    let mut i: usize = 0;
    while i < bytes.len()
        invariant
            i <= bytes.len(),
            acc@ == seq!['['] + hex_list(bytes@.take(i as int)),
            "0x"@ == seq!['0', 'x'],
            ", "@ == seq![',', ' '],
        decreases bytes.len() - i,
    {
        let b: u8 = bytes[i];
        let ghost before = bytes@.take(i as int);
        let ghost after = bytes@.take(i as int + 1);
        if i > 0 {
            acc.append(", ");
        }
        acc.append("0x");
        acc.append(digit(b / 16));
        acc.append(digit(b % 16));
        proof {
            assert(after.drop_last() =~= before);
            assert(after.last() == b);
            assert(acc@ =~= seq!['['] + hex_list(after));
        }
        i += 1;
    }
    assert(bytes@.take(i as int) =~= bytes@);
    acc.append("]");
    acc
}

} // verus!
