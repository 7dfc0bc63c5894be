//! Bytes written in hexadecimal, separated by single spaces, as one types
//! them at a prompt: `"01 0A ff"`.

use vstd::prelude::*;
use crate::text::chars_of;

verus! {

/// The text is no list of bytes: the piece with this number, counted from
/// zero, is no byte in hexadecimal.
#[derive(Clone, Copy, Debug, PartialEq, Eq, Structural)]
pub struct HexError {
    pub piece: usize,
}

/// What a hexadecimal digit is worth, in either case.
pub open spec fn hex_digit_value(c: char) -> Option<int> {
    if '0' <= c && c <= '9' {
        Some(c as u32 - '0' as u32)
    } else if 'a' <= c && c <= 'f' {
        Some(c as u32 - 'a' as u32 + 10)
    } else if 'A' <= c && c <= 'F' {
        Some(c as u32 - 'A' as u32 + 10)
    } else {
        None
    }
}

/// The number that a sequence of hexadecimal digits denotes.
pub open spec fn hex_value(digits: Seq<char>) -> nat
    decreases digits.len(),
{
    if digits.len() == 0 {
        0
    } else {
        (hex_value(digits.drop_last()) * 16 + hex_digit_value(digits.last()).unwrap_or(0)) as nat
    }
}

/// The digits of a piece: what follows its `+` sign, if it has one.
pub open spec fn hex_digits(piece: Seq<char>) -> Seq<char> {
    if piece.len() > 0 && piece[0] == '+' {
        piece.subrange(1, piece.len() as int)
    } else {
        piece
    }
}

/// The byte that a piece denotes: an optional `+`, then one hexadecimal
/// digit or more, worth 255 at most. Zeros in front do not count.
pub open spec fn hex_byte(piece: Seq<char>) -> Option<u8> {
    let digits = hex_digits(piece);
    if digits.len() > 0 && (forall|i: int|
        0 <= i < digits.len() ==> hex_digit_value(#[trigger] digits[i]) is Some) && hex_value(
        digits,
    ) <= u8::MAX {
        Some(hex_value(digits) as u8)
    } else {
        None
    }
}

/// Where the piece that starts at `pos` ends: at the next space, or at the
/// end of the text.
pub open spec fn piece_end(s: Seq<char>, pos: int) -> int
    decreases s.len() - pos,
{
    if 0 <= pos < s.len() && s[pos] != ' ' {
        piece_end(s, pos + 1)
    } else {
        pos
    }
}

/// The bytes that the pieces from `pos` on denote, where `count` pieces
/// stand before `pos`; or the number of the first piece that is no byte.
/// Every space ends a piece, so two spaces in a row hold an empty piece
/// between them, which is no byte.
pub open spec fn hex_bytes_from(s: Seq<char>, pos: int, count: nat) -> Result<Seq<u8>, nat>
    decreases s.len() - pos,
{
    let end = piece_end(s, pos);
    match hex_byte(s.subrange(pos, end)) {
        None => Err(count),
        Some(byte) => if pos <= end < s.len() {
            match hex_bytes_from(s, end + 1, count + 1) {
                Ok(rest) => Ok(seq![byte] + rest),
                Err(piece) => Err(piece),
            }
        } else {
            Ok(seq![byte])
        },
    }
}

/// The bytes that a text denotes, or the number of its first piece that is
/// no byte.
pub open spec fn hex_bytes(s: Seq<char>) -> Result<Seq<u8>, nat> {
    hex_bytes_from(s, 0, 0)
}

/// What `parse_hex` returned, as a mathematical value.
pub open spec fn hex_result_view(result: Result<Vec<u8>, HexError>) -> Result<Seq<u8>, nat> {
    match result {
        Ok(bytes) => Ok(bytes@),
        Err(error) => Err(error.piece as nat),
    }
}

/// A number does not shrink when a digit is appended.
proof fn lemma_hex_value_grows(s: Seq<char>, start: int, mid: int, end: int)
    requires
        0 <= start <= mid <= end <= s.len(),
    ensures
        hex_value(s.subrange(start, mid)) <= hex_value(s.subrange(start, end)),
    decreases end - mid,
{
    if mid < end {
        lemma_hex_value_grows(s, start, mid, end - 1);
        assert(s.subrange(start, end).drop_last() =~= s.subrange(start, end - 1));
    }
}

/// What a hexadecimal digit is worth.
fn digit_value(c: char) -> (value: Option<u32>)
    ensures
        value is Some <==> hex_digit_value(c) is Some,
        value is Some ==> value.unwrap() == hex_digit_value(c).unwrap() && value.unwrap() < 16,
{
    if '0' <= c && c <= '9' {
        Some(c as u32 - '0' as u32)
    } else if 'a' <= c && c <= 'f' {
        Some(c as u32 - 'a' as u32 + 10)
    } else if 'A' <= c && c <= 'F' {
        Some(c as u32 - 'A' as u32 + 10)
    } else {
        None
    }
}

/// Finds the end of the piece that starts at `pos`.
fn scan_piece(chars: &[char], pos: usize) -> (end: usize)
    requires
        pos <= chars.len(),
    ensures
        end == piece_end(chars@, pos as int),
        pos <= end <= chars.len(),
        end < chars.len() ==> chars@[end as int] == ' ',
{
    let mut end = pos;
    while end < chars.len() && chars[end] != ' '
        invariant
            pos <= end <= chars.len(),
            piece_end(chars@, pos as int) == piece_end(chars@, end as int),
        decreases chars.len() - end,
    {
        end += 1;
    }
    end
}

/// Reads the piece from `start` to `end` as a byte.
fn scan_hex_byte(chars: &[char], start: usize, end: usize) -> (byte: Option<u8>)
    requires
        start <= end <= chars.len(),
    ensures
        byte == hex_byte(chars@.subrange(start as int, end as int)),
{
    let ghost piece = chars@.subrange(start as int, end as int);
    let first = if start < end && chars[start] == '+' { start + 1 } else { start };
    let ghost digits = hex_digits(piece);
    assert(digits =~= chars@.subrange(first as int, end as int));
    if first == end {
        return None;
    }
    let mut total: u32 = 0;
    let mut i = first;
    assert(chars@.subrange(first as int, first as int) =~= Seq::<char>::empty());
    while i < end
        invariant
            first <= i <= end <= chars.len(),
            digits == chars@.subrange(first as int, end as int),
            digits == hex_digits(chars@.subrange(start as int, end as int)),
            forall|j: int| first <= j < i ==> hex_digit_value(#[trigger] chars@[j]) is Some,
            total == hex_value(chars@.subrange(first as int, i as int)),
            total <= 255,
        decreases end - i,
    {
        let value = match digit_value(chars[i]) {
            Some(value) => value,
            None => {
                assert(hex_digit_value(digits[i - first]) is None);
                return None;
            },
        };
        proof {
            assert(chars@.subrange(first as int, i + 1).drop_last() =~= chars@.subrange(
                first as int,
                i as int,
            ));
        }
        let next = total * 16 + value;
        if next > 255 {
            // The number is too large whatever follows.
            proof {
                lemma_hex_value_grows(chars@, first as int, i + 1, end as int);
                assert(next == hex_value(chars@.subrange(first as int, i + 1)));
            }
            return None;
        }
        total = next;
        i += 1;
    }
    assert(chars@.subrange(first as int, i as int) =~= digits);
    assert forall|j: int| 0 <= j < digits.len() implies hex_digit_value(
        #[trigger] digits[j],
    ) is Some by {
        assert(digits[j] == chars@[first + j]);
    }
    Some(total as u8)
}

/// Reads a list of bytes in hexadecimal, separated by single spaces.
///
/// Returns the number of the first piece that is no byte, if there is one.
/// The empty text holds one piece, which is empty and so no byte.
pub fn parse_hex(i: &str) -> (result: Result<Vec<u8>, HexError>)
    ensures
        hex_result_view(result) == hex_bytes(i@),
{
    let chars = chars_of(i);
    let chars = chars.as_slice();
    let mut results: Vec<u8> = Vec::new();
    let mut pos: usize = 0;
    let mut count: usize = 0;
    loop
        invariant
            pos <= chars.len(),
            count <= pos,
            chars@ == i@,
            hex_bytes(i@) == match hex_bytes_from(chars@, pos as int, count as nat) {
                Ok(rest) => Ok::<Seq<u8>, nat>(results@ + rest),
                Err(piece) => Err(piece),
            },
        decreases chars.len() - pos,
    {
        let end = scan_piece(chars, pos);
        match scan_hex_byte(chars, pos, end) {
            Some(byte) => {
                let ghost before = results@;
                results.push(byte);
                if end < chars.len() {
                    proof {
                        let rest = hex_bytes_from(chars@, end + 1, (count + 1) as nat);
                        if rest is Ok {
                            assert(before + (seq![byte] + rest->Ok_0) =~= results@ + rest->Ok_0);
                        }
                    }
                    pos = end + 1;
                    count += 1;
                } else {
                    assert(before + seq![byte] =~= results@);
                    return Ok(results);
                }
            },
            None => {
                return Err(HexError { piece: count });
            },
        }
    }
}

} // verus!
