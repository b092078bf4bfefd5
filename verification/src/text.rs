//! Numbers and hashes written out for messages.

use vstd::prelude::*;
use vstd::string::StrSliceExecFns;
use vstd::string::StringExecFns;

verus! {

/// The sixteen hexadecimal digits, lower case.
pub open spec fn hex_alphabet() -> Seq<char> {
    seq!['0', '1', '2', '3', '4', '5', '6', '7', '8', '9', 'a', 'b', 'c', 'd', 'e', 'f']
}

/// The two hexadecimal digits of each byte, in order.
pub open spec fn hex_digits(bytes: Seq<u8>) -> Seq<char> {
    Seq::new(
        2 * bytes.len(),
        |i: int|
            if i % 2 == 0 {
                hex_alphabet()[(bytes[i / 2] / 16) as int]
            } else {
                hex_alphabet()[(bytes[i / 2] % 16) as int]
            },
    )
}

/// A hash as it is written in messages: `0x` and its hexadecimal digits.
pub open spec fn hex_text(bytes: Seq<u8>) -> Seq<char> {
    seq!['0', 'x'] + hex_digits(bytes)
}

/// The decimal digits of a number, without leading zeros.
pub open spec fn decimal_text(n: nat) -> Seq<char>
    decreases n,
{
    if n < 10 {
        seq![hex_alphabet()[n as int]]
    } else {
        decimal_text(n / 10).push(hex_alphabet()[(n % 10) as int])
    }
}

/// One digit, below sixteen, as a string.
fn digit(d: u8) -> (s: &'static str)
    requires
        d < 16,
    ensures
        s@ == seq![hex_alphabet()[d as int]],
{
    let alphabet = "0123456789abcdef";
    proof {
        reveal_strlit("0123456789abcdef");
        assert(alphabet@ =~= hex_alphabet());
    }
    let s = alphabet.substring_ascii(d as usize, d as usize + 1);
    assert(s@ =~= seq![hex_alphabet()[d as int]]);
    s
}

/// `0x` and the hexadecimal digits of the bytes.
pub fn hex_string<const N: usize>(bytes: &[u8; N]) -> (text: String)
    ensures
        text@ == hex_text(bytes@),
{
    let mut text = String::from_str("0x");
    proof {
        reveal_strlit("0x");
    }
    let mut i: usize = 0;
    while i < N
        invariant
            i <= N,
            text@ == seq!['0', 'x'] + hex_digits(bytes@.subrange(0, i as int)),
        decreases N - i,
    {
        let byte = bytes[i];
        let ghost before = text@;
        text.append(digit(byte / 16));
        text.append(digit(byte % 16));
        i += 1;
        assert(text@ =~= seq!['0', 'x'] + hex_digits(bytes@.subrange(0, i as int))) by {
            let shorter = bytes@.subrange(0, i - 1);
            let longer = bytes@.subrange(0, i as int);
            assert(text@ == before + seq![hex_alphabet()[(byte / 16) as int]] + seq![
                hex_alphabet()[(byte % 16) as int],
            ]);
            assert forall|j: int| 0 <= j < 2 * (i - 1) implies hex_digits(shorter)[j]
                == hex_digits(longer)[j] by {
                assert(shorter[j / 2] == longer[j / 2]);
            }
        }
    }
    assert(bytes@.subrange(0, N as int) =~= bytes@);
    text
}

/// The decimal digits of a number.
pub fn decimal_string(n: u64) -> (text: String)
    ensures
        text@ == decimal_text(n as nat),
    decreases n,
{
    if n < 10 {
        String::from_str(digit(n as u8))
    } else {
        let mut text = decimal_string(n / 10);
        text.append(digit((n % 10) as u8));
        assert(text@ =~= decimal_text(n as nat));
        text
    }
}

/// Whether two strings hold the same characters.
pub fn same_text(a: &str, b: &str) -> (same: bool)
    ensures
        same == (a@ == b@),
{
    let left = String::from_str(a);
    let right = String::from_str(b);
    left == right
}

/// Two strings, one after the other.
pub fn joined(head: &str, tail: &str) -> (text: String)
    ensures
        text@ == head@ + tail@,
{
    let mut text = String::from_str(head);
    text.append(tail);
    text
}

} // verus!
