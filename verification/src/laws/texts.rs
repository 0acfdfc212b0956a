//! Laws of texts and bytes: what is written can be read back.

use vstd::prelude::*;

use crate::bitmap::frames;
use crate::deletion_vector::hex_text;
use crate::text::{decimal, digit_char, digits};

verus! {

/// The number that decimal digits stand for.
pub open spec fn digits_value(text: Seq<char>) -> int
    decreases text.len(),
{
    if text.len() == 0 {
        0
    } else {
        digits_value(text.drop_last()) * 10 + (text.last() as int - '0' as int)
    }
}

/// Decimal digits read back as the number that was written, and start with a zero only where
/// that is the number.
pub proof fn law_digits_read_back(n: nat)
    ensures
        digits_value(digits(n)) == n,
        digits(n).len() > 0,
        forall|i: int| 0 <= i < digits(n).len() ==> '0' <= #[trigger] digits(n)[i] <= '9',
        n > 0 ==> digits(n)[0] != '0',
    decreases n,
{
    reveal_with_fuel(digits_value, 3);
    if n < 10 {
        let text = seq![digit_char(n)];
        assert(text.drop_last() =~= Seq::<char>::empty());
        assert(digits_value(text.drop_last()) == 0);
    } else {
        law_digits_read_back(n / 10);
        let head = digits(n / 10);
        assert(digits(n).drop_last() =~= head);
        assert(digits(n)[0] == head[0]);
    }
}

/// A number below zero is written as its size with a minus in front, any other number as its
/// digits.
pub proof fn law_negative_numbers_have_a_sign(n: int)
    ensures
        n >= 0 ==> digits_value(decimal(n)) == n,
        n < 0 ==> decimal(n)[0] == '-' && digits_value(decimal(n).skip(1)) == -n,
{
    if n < 0 {
        law_digits_read_back((-n) as nat);
        assert(decimal(n).skip(1) =~= digits((-n) as nat));
    } else {
        law_digits_read_back(n as nat);
    }
}

/// The number that a hexadecimal digit stands for.
pub open spec fn hex_value(digit: char) -> int {
    if '0' <= digit <= '9' {
        digit as int - '0' as int
    } else {
        digit as int - 'a' as int + 10
    }
}

/// Each byte is written as two hexadecimal digits in lower case, in the order of the bytes, and
/// reads back.
pub proof fn law_hexadecimal_reads_back(bytes: Seq<u8>, from: int, to: int, i: int)
    requires
        0 <= from <= i < to <= bytes.len(),
    ensures
        ({
            let text = hex_text(bytes, from, to);
            let high = text[2 * (i - from)];
            let low = text[2 * (i - from) + 1];
            &&& text.len() == 2 * (to - from)
            &&& hex_value(high) * 16 + hex_value(low) == bytes[i]
            &&& '0' <= high <= '9' || 'a' <= high <= 'f'
            &&& '0' <= low <= '9' || 'a' <= low <= 'f'
        }),
    decreases to - from,
{
    if i < to - 1 {
        law_hexadecimal_reads_back(bytes, from, to - 1, i);
    } else {
        if from < to - 1 {
            law_hexadecimal_reads_back(bytes, from, to - 1, from);
        } else {
            assert(hex_text(bytes, from, to - 1) =~= Seq::<char>::empty());
        }
        let byte = bytes[i] as int;
        assert(0 <= byte / 16 < 16 && 0 <= byte % 16 < 16);
        assert(byte / 16 * 16 + byte % 16 == byte);
    }
}

/// A framed bitmap starts with the magic number of the portable format, most significant byte
/// first.
pub proof fn law_frames_start_with_the_magic_number(frame: Seq<u8>, set: Set<u64>)
    requires
        frames(frame, set),
    ensures
        frame[0] == 0x64,
        frame[1] == 0x39,
        frame[2] == 0xD3,
        frame[3] == 0xD1,
{
    let start = frame.take(4);
    assert(frame[0] == start[0] && frame[1] == start[1] && frame[2] == start[2] && frame[3]
        == start[3]);
}

} // verus!
