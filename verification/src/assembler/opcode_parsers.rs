//! Mnemonics.

use vstd::prelude::*;
use crate::assembler::characters::{cut_text, run_end, scan_run, CharClass};
use crate::assembler::{agrees_with, scanned, token_and_rest, NoMatch, Token, TokenView};
use crate::instruction::{opcode_of_mnemonic, Opcode};
use crate::text::chars_of;

verus! {

/// A mnemonic at `pos`: a word of letters. A word that names no operation
/// reads as `IGL`.
pub open spec fn opcode_at(s: Seq<char>, pos: int) -> Option<(TokenView, int)> {
    let end = run_end(s, pos, CharClass::Alpha);
    if pos < end {
        Some((TokenView::Op { code: opcode_of_mnemonic(s.subrange(pos, end)) }, end))
    } else {
        None
    }
}

/// Scans a mnemonic from `pos`.
pub(crate) fn scan_opcode(chars: &[char], pos: usize) -> (found: Option<(Token, usize)>)
    requires
        pos <= chars.len(),
    ensures
        scanned(found) == opcode_at(chars@, pos as int),
        found is Some ==> pos < found.unwrap().1 <= chars.len(),
{
    let end = scan_run(chars, pos, CharClass::Alpha);
    if pos < end {
        let word = cut_text(chars, pos, end);
        Some((Token::Op { code: Opcode::from(word.as_str()) }, end))
    } else {
        None
    }
}

/// Reads a mnemonic from the start of `input`.
pub fn opcode(input: &str) -> (result: Result<(&str, Token), NoMatch>)
    ensures
        agrees_with(result, input@, opcode_at(input@, 0)),
{
    let chars = chars_of(input);
    token_and_rest(input, chars.len(), scan_opcode(chars.as_slice(), 0))
}

} // verus!
