//! Lower-case hexadecimal encoding of byte sequences.
//!
//! Checksums are reported as hex strings; two checksums are equal
//! exactly when their hex strings are equal, which
//! `lemma_hex_of_injective` reduces to equality of the raw digests.

use vstd::prelude::*;
use vstd::string::StringExecFns;

verus! {

/// The lower-case hexadecimal digit for a nibble value.
pub open spec fn hex_digit(n: int) -> char {
    if n == 0 {
        '0'
    } else if n == 1 {
        '1'
    } else if n == 2 {
        '2'
    } else if n == 3 {
        '3'
    } else if n == 4 {
        '4'
    } else if n == 5 {
        '5'
    } else if n == 6 {
        '6'
    } else if n == 7 {
        '7'
    } else if n == 8 {
        '8'
    } else if n == 9 {
        '9'
    } else if n == 10 {
        'a'
    } else if n == 11 {
        'b'
    } else if n == 12 {
        'c'
    } else if n == 13 {
        'd'
    } else if n == 14 {
        'e'
    } else {
        'f'
    }
}

/// Lower-case hex encoding of a byte sequence: two digits per byte,
/// high nibble first.
pub open spec fn hex_of(bytes: Seq<u8>) -> Seq<char> {
    Seq::new(
        bytes.len() * 2,
        |i: int|
            if i % 2 == 0 {
                hex_digit(bytes[i / 2] as int / 16)
            } else {
                hex_digit(bytes[i / 2] as int % 16)
            },
    )
}

/// Distinct nibble values encode to distinct digits.
proof fn lemma_hex_digit_injective(x: int, y: int)
    requires
        0 <= x < 16,
        0 <= y < 16,
        hex_digit(x) == hex_digit(y),
    ensures
        x == y,
{
}

/// Equal hex encodings come only from equal byte sequences (and
/// conversely), so comparing hex strings and comparing raw digests
/// agree.
pub proof fn lemma_hex_of_injective(a: Seq<u8>, b: Seq<u8>)
    ensures
        hex_of(a) == hex_of(b) <==> a == b,
{
    if hex_of(a) == hex_of(b) {
        assert(hex_of(a).len() == 2 * a.len());
        assert(hex_of(b).len() == 2 * b.len());
        assert(a.len() == b.len());
        assert forall|i: int| 0 <= i < a.len() implies a[i] == b[i] by {
            assert(hex_of(a)[2 * i] == hex_of(b)[2 * i]);
            assert(hex_of(a)[2 * i + 1] == hex_of(b)[2 * i + 1]);
            assert((2 * i) % 2 == 0 && (2 * i) / 2 == i);
            assert((2 * i + 1) % 2 == 1 && (2 * i + 1) / 2 == i);
            lemma_hex_digit_injective(a[i] as int / 16, b[i] as int / 16);
            lemma_hex_digit_injective(a[i] as int % 16, b[i] as int % 16);
            assert(a[i] == (a[i] as int / 16) * 16 + (a[i] as int % 16));
        }
        assert(a =~= b);
    }
}

/// One-character string slice for a nibble value.
fn hex_digit_str(n: u8) -> (r: &'static str)
    requires
        n < 16,
    ensures
        r@ == seq![hex_digit(n as int)],
{
    proof {
        reveal_strlit("0");
        reveal_strlit("1");
        reveal_strlit("2");
        reveal_strlit("3");
        reveal_strlit("4");
        reveal_strlit("5");
        reveal_strlit("6");
        reveal_strlit("7");
        reveal_strlit("8");
        reveal_strlit("9");
        reveal_strlit("a");
        reveal_strlit("b");
        reveal_strlit("c");
        reveal_strlit("d");
        reveal_strlit("e");
        reveal_strlit("f");
    }
    let r: &'static str = if n == 0 {
        "0"
    } else if n == 1 {
        "1"
    } else if n == 2 {
        "2"
    } else if n == 3 {
        "3"
    } else if n == 4 {
        "4"
    } else if n == 5 {
        "5"
    } else if n == 6 {
        "6"
    } else if n == 7 {
        "7"
    } else if n == 8 {
        "8"
    } else if n == 9 {
        "9"
    } else if n == 10 {
        "a"
    } else if n == 11 {
        "b"
    } else if n == 12 {
        "c"
    } else if n == 13 {
        "d"
    } else if n == 14 {
        "e"
    } else {
        "f"
    };
    proof {
        assert(r@ =~= seq![hex_digit(n as int)]);
    }
    r
}

/// Encode a byte slice as its lower-case hex string.
pub fn to_hex(bytes: &[u8]) -> (r: String)
    ensures
        r@ == hex_of(bytes@),
{
    let mut s = String::new();
    let mut i: usize = 0;
    while i < bytes.len()
        invariant
            i <= bytes@.len(),
            s@ == hex_of(bytes@.take(i as int)),
        decreases bytes@.len() - i,
    {
        let b = bytes[i];
        let hi = hex_digit_str(b / 16);
        let lo = hex_digit_str(b % 16);
        s.append(hi);
        s.append(lo);
        i = i + 1;
        proof {
            assert(s@ =~= hex_of(bytes@.take(i as int)));
        }
    }
    proof {
        assert(bytes@.take(bytes@.len() as int) =~= bytes@);
    }
    s
}

} // verus!
