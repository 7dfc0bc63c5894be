//! Directives: `.name`, with a label before it and operands behind it.

use vstd::prelude::*;
use crate::assembler::characters::{
    char_at,
    cut_text,
    has_char_at,
    lemma_run_end,
    run_end,
    scan_run,
    skip_spaces,
    CharClass,
};
use crate::assembler::instruction_parsers::{
    instruction_agrees_with,
    instruction_and_rest,
    lemma_operands_bounds,
    operands_at,
    optional,
    scan_operands,
    scan_optional_label,
    scanned_instruction,
    AssemblerInstruction,
    InstructionView,
};
use crate::assembler::label_parsers::{label_declaration_at, lemma_label_declaration_bounds};
use crate::assembler::{scanned, NoMatch, Token, TokenView};
use crate::text::chars_of;

verus! {

/// The name of a directive at `pos`: `.`, then a word of letters.
pub open spec fn directive_declaration_at(s: Seq<char>, pos: int) -> Option<(TokenView, int)> {
    let end = run_end(s, pos + 1, CharClass::Alpha);
    if has_char_at(s, pos, '.') && pos + 1 < end {
        Some((TokenView::Directive { name: s.subrange(pos + 1, end) }, end))
    } else {
        None
    }
}

/// The directive form of an instruction at `pos`: a label declaration if
/// there is one, the name of the directive, and up to three operands.
pub open spec fn directive_at(s: Seq<char>, pos: int) -> Option<(InstructionView, int)> {
    let (label, after_label) = optional(label_declaration_at(s, pos), pos);
    match directive_declaration_at(s, skip_spaces(s, after_label)) {
        Some((directive, after_name)) => {
            let operands = operands_at(s, after_name);
            Some(
                (
                    InstructionView {
                        opcode: None,
                        label,
                        directive: Some(directive),
                        operand1: operands.operand1,
                        operand2: operands.operand2,
                        operand3: operands.operand3,
                    },
                    operands.end,
                ),
            )
        },
        None => None,
    }
}

/// Scans the name of a directive from `pos`.
fn directive_declaration(chars: &[char], pos: usize) -> (found: Option<(Token, usize)>)
    requires
        pos <= chars.len(),
    ensures
        scanned(found) == directive_declaration_at(chars@, pos as int),
        found is Some ==> pos < found.unwrap().1 <= chars.len(),
{
    if !char_at(chars, pos, '.') {
        return None;
    }
    let end = scan_run(chars, pos + 1, CharClass::Alpha);
    if pos + 1 < end {
        let name = cut_text(chars, pos + 1, end);
        Some((Token::Directive { name }, end))
    } else {
        None
    }
}

/// Scans the directive form of an instruction from `pos`.
pub(crate) fn scan_directive(chars: &[char], pos: usize) -> (found: Option<
    (AssemblerInstruction, usize),
>)
    requires
        pos <= chars.len(),
    ensures
        scanned_instruction(found) == directive_at(chars@, pos as int),
        found is Some ==> pos < found.unwrap().1 <= chars.len(),
{
    let (label, after_label) = scan_optional_label(chars, pos);
    let start = scan_run(chars, after_label, CharClass::Space);
    match directive_declaration(chars, start) {
        Some((name, after_name)) => {
            let (operand1, operand2, operand3, end) = scan_operands(chars, after_name);
            Some(
                (
                    AssemblerInstruction {
                        opcode: None,
                        label,
                        directive: Some(name),
                        operand1,
                        operand2,
                        operand3,
                    },
                    end,
                ),
            )
        },
        None => None,
    }
}

/// Reads the directive form of an instruction from the start of `input`.
pub fn directive_combined(input: &str) -> (result: Result<(&str, AssemblerInstruction), NoMatch>)
    ensures
        instruction_agrees_with(result, input@, directive_at(input@, 0)),
{
    let chars = chars_of(input);
    instruction_and_rest(input, chars.len(), scan_directive(chars.as_slice(), 0))
}

/// Reads the directive form of an instruction from the start of `input`.
pub fn directive(input: &str) -> (result: Result<(&str, AssemblerInstruction), NoMatch>)
    ensures
        instruction_agrees_with(result, input@, directive_at(input@, 0)),
{
    directive_combined(input)
}

/// A directive that is found takes at least one character and ends inside
/// the text.
pub proof fn lemma_directive_bounds(s: Seq<char>, pos: int)
    requires
        0 <= pos <= s.len(),
        directive_at(s, pos) is Some,
    ensures
        pos < directive_at(s, pos).unwrap().1 <= s.len(),
{
    let (label, after_label) = optional(label_declaration_at(s, pos), pos);
    if label_declaration_at(s, pos) is Some {
        lemma_label_declaration_bounds(s, pos);
    }
    lemma_run_end(s, after_label, CharClass::Space);
    let start = skip_spaces(s, after_label);
    lemma_run_end(s, start + 1, CharClass::Alpha);
    let after_name = directive_declaration_at(s, start).unwrap().1;
    lemma_operands_bounds(s, after_name);
}

} // verus!
