//! Operands: an integer, a register, a label usage or a quoted string.

use vstd::prelude::*;
use crate::assembler::characters::{
    char_at,
    cut_text,
    decimal_value,
    has_char_at,
    lemma_run_end,
    run_end,
    scan_decimal,
    scan_run,
    skip_spaces,
    CharClass,
};
use crate::assembler::label_parsers::{label_usage_at, scan_label_usage};
use crate::assembler::register_parsers::{register_at, scan_register};
use crate::assembler::{agrees_with, scanned, token_and_rest, NoMatch, Token, TokenView};
use crate::text::chars_of;

verus! {

/// An integer at `pos`: `#`, then digits that denote a number that a signed
/// 32-bit integer can hold.
pub open spec fn integer_operand_at(s: Seq<char>, pos: int) -> Option<(TokenView, int)> {
    let end = run_end(s, pos + 1, CharClass::Digit);
    if has_char_at(s, pos, '#') && pos + 1 < end && decimal_value(s.subrange(pos + 1, end))
        <= i32::MAX {
        Some(
            (
                TokenView::IntegerOperand { value: decimal_value(s.subrange(pos + 1, end)) as i32 },
                end,
            ),
        )
    } else {
        None
    }
}

/// A string at `pos`: a single or a double quote, letters and digits, and
/// the same quote again.
pub open spec fn string_at(s: Seq<char>, pos: int) -> Option<(TokenView, int)> {
    let end = run_end(s, pos + 1, CharClass::Alphanumeric);
    if (has_char_at(s, pos, '\'') || has_char_at(s, pos, '"')) && has_char_at(s, end, s[pos]) {
        Some((TokenView::SyString { name: s.subrange(pos + 1, end) }, end + 1))
    } else {
        None
    }
}

/// An operand at `pos`: the first of integer, register, label usage and
/// string that is found there.
pub open spec fn operand_at(s: Seq<char>, pos: int) -> Option<(TokenView, int)> {
    if integer_operand_at(s, pos) is Some {
        integer_operand_at(s, pos)
    } else if register_at(s, pos) is Some {
        register_at(s, pos)
    } else if label_usage_at(s, pos) is Some {
        label_usage_at(s, pos)
    } else {
        string_at(s, pos)
    }
}

/// Scans an integer from `pos`.
pub(crate) fn scan_integer_operand(chars: &[char], pos: usize) -> (found: Option<(Token, usize)>)
    requires
        pos <= chars.len(),
    ensures
        scanned(found) == integer_operand_at(chars@, pos as int),
        found is Some ==> pos < found.unwrap().1 <= chars.len(),
{
    if !char_at(chars, pos, '#') {
        return None;
    }
    let end = scan_run(chars, pos + 1, CharClass::Digit);
    if pos + 1 >= end {
        return None;
    }
    proof {
        lemma_run_end(chars@, pos + 1, CharClass::Digit);
    }
    match scan_decimal(chars, pos + 1, end, 0x7fff_ffff) {
        Some(number) => Some((Token::IntegerOperand { value: number as i32 }, end)),
        None => None,
    }
}

/// Scans a string from `pos`.
pub(crate) fn scan_string(chars: &[char], pos: usize) -> (found: Option<(Token, usize)>)
    requires
        pos <= chars.len(),
    ensures
        scanned(found) == string_at(chars@, pos as int),
        found is Some ==> pos < found.unwrap().1 <= chars.len(),
{
    if !(char_at(chars, pos, '\'') || char_at(chars, pos, '"')) {
        return None;
    }
    let quote = chars[pos];
    let end = scan_run(chars, pos + 1, CharClass::Alphanumeric);
    if char_at(chars, end, quote) {
        let name = cut_text(chars, pos + 1, end);
        Some((Token::SyString { name }, end + 1))
    } else {
        None
    }
}

/// Scans an operand from `pos`.
pub(crate) fn scan_operand(chars: &[char], pos: usize) -> (found: Option<(Token, usize)>)
    requires
        pos <= chars.len(),
    ensures
        scanned(found) == operand_at(chars@, pos as int),
        found is Some ==> pos < found.unwrap().1 <= chars.len(),
{
    let integer = scan_integer_operand(chars, pos);
    if integer.is_some() {
        return integer;
    }
    let register = scan_register(chars, pos);
    if register.is_some() {
        return register;
    }
    let usage = scan_label_usage(chars, pos);
    if usage.is_some() {
        return usage;
    }
    scan_string(chars, pos)
}

/// Reads an integer from the start of `input`.
pub fn integer_operand(input: &str) -> (result: Result<(&str, Token), NoMatch>)
    ensures
        agrees_with(result, input@, integer_operand_at(input@, 0)),
{
    let chars = chars_of(input);
    token_and_rest(input, chars.len(), scan_integer_operand(chars.as_slice(), 0))
}

/// Reads a quoted string from the start of `input`.
pub fn systring(input: &str) -> (result: Result<(&str, Token), NoMatch>)
    ensures
        agrees_with(result, input@, string_at(input@, 0)),
{
    let chars = chars_of(input);
    token_and_rest(input, chars.len(), scan_string(chars.as_slice(), 0))
}

/// Reads an operand from the start of `input`.
pub fn operand(input: &str) -> (result: Result<(&str, Token), NoMatch>)
    ensures
        agrees_with(result, input@, operand_at(input@, 0)),
{
    let chars = chars_of(input);
    token_and_rest(input, chars.len(), scan_operand(chars.as_slice(), 0))
}

/// An operand that is found takes at least one character and ends inside
/// the text.
pub proof fn lemma_operand_bounds(s: Seq<char>, pos: int)
    requires
        0 <= pos <= s.len(),
        operand_at(s, pos) is Some,
    ensures
        pos < operand_at(s, pos).unwrap().1 <= s.len(),
{
    if pos < s.len() {
        lemma_run_end(s, pos + 1, CharClass::Digit);
        lemma_run_end(s, pos + 1, CharClass::Alphanumeric);
    }
    lemma_run_end(s, pos, CharClass::Space);
    let at = skip_spaces(s, pos);
    if at < s.len() {
        lemma_run_end(s, at + 1, CharClass::Alphanumeric);
    }
}

} // verus!
