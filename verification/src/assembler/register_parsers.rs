//! Registers: `$` and a number.

use vstd::prelude::*;
use crate::assembler::characters::{
    char_at,
    decimal_value,
    has_char_at,
    lemma_run_end,
    run_end,
    scan_decimal,
    scan_run,
    CharClass,
};
use crate::assembler::{agrees_with, scanned, token_and_rest, NoMatch, Token, TokenView};
use crate::text::chars_of;

verus! {

/// A register at `pos`: `$`, then digits that denote a number up to 255.
pub open spec fn register_at(s: Seq<char>, pos: int) -> Option<(TokenView, int)> {
    let end = run_end(s, pos + 1, CharClass::Digit);
    if has_char_at(s, pos, '$') && pos + 1 < end && decimal_value(s.subrange(pos + 1, end))
        <= u8::MAX {
        Some((TokenView::Register { reg_num: decimal_value(s.subrange(pos + 1, end)) as u8 }, end))
    } else {
        None
    }
}

/// Scans a register from `pos`.
pub(crate) fn scan_register(chars: &[char], pos: usize) -> (found: Option<(Token, usize)>)
    requires
        pos <= chars.len(),
    ensures
        scanned(found) == register_at(chars@, pos as int),
        found is Some ==> pos < found.unwrap().1 <= chars.len(),
{
    if !char_at(chars, pos, '$') {
        return None;
    }
    let end = scan_run(chars, pos + 1, CharClass::Digit);
    if pos + 1 >= end {
        return None;
    }
    proof {
        lemma_run_end(chars@, pos + 1, CharClass::Digit);
    }
    match scan_decimal(chars, pos + 1, end, 255) {
        Some(number) => Some((Token::Register { reg_num: number as u8 }, end)),
        None => None,
    }
}

/// Reads a register from the start of `input`.
pub fn register(input: &str) -> (result: Result<(&str, Token), NoMatch>)
    ensures
        agrees_with(result, input@, register_at(input@, 0)),
{
    let chars = chars_of(input);
    token_and_rest(input, chars.len(), scan_register(chars.as_slice(), 0))
}

} // verus!
