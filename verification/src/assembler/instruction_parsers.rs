//! Instructions: what one line of a program says, how it is read from the
//! text, and the four bytes it is written as.

use vstd::prelude::*;
use crate::assembler::characters::{
    lemma_run_end,
    lemma_run_end_is_final,
    scan_run,
    skip_spaces,
    CharClass,
};
use crate::assembler::directive_parsers::{
    directive_at,
    directive_declaration_at,
    lemma_directive_bounds,
    scan_directive,
};
use crate::assembler::label_parsers::{
    label_declaration_at,
    lemma_label_declaration_bounds,
    scan_label_declaration,
};
use crate::assembler::opcode_parsers::{opcode_at, scan_opcode};
use crate::assembler::operand_parsers::{lemma_operand_bounds, operand_at, scan_operand};
use crate::assembler::symbols::{offset_of_name, SymbolTable, SymbolView};
use crate::assembler::{slot_view, NoMatch, Token, TokenView};
use crate::instruction::code_of_opcode;
use crate::text::chars_of;

verus! {

/// One instruction of a program: an operation or a directive, with its label
/// and its operands.
#[derive(Debug, PartialEq)]
pub struct AssemblerInstruction {
    pub opcode: Option<Token>,
    pub label: Option<Token>,
    pub directive: Option<Token>,
    pub operand1: Option<Token>,
    pub operand2: Option<Token>,
    pub operand3: Option<Token>,
}

/// An instruction as a mathematical value.
pub struct InstructionView {
    pub opcode: Option<TokenView>,
    pub label: Option<TokenView>,
    pub directive: Option<TokenView>,
    pub operand1: Option<TokenView>,
    pub operand2: Option<TokenView>,
    pub operand3: Option<TokenView>,
}

impl View for AssemblerInstruction {
    type V = InstructionView;

    open spec fn view(&self) -> InstructionView {
        InstructionView {
            opcode: slot_view(self.opcode),
            label: slot_view(self.label),
            directive: slot_view(self.directive),
            operand1: slot_view(self.operand1),
            operand2: slot_view(self.operand2),
            operand3: slot_view(self.operand3),
        }
    }
}

/// The two bytes of the low 16 bits of `n`, high byte first.
pub open spec fn big_endian_16(n: int) -> Seq<u8> {
    seq![((n % 0x1_0000) / 0x100) as u8, (n % 0x100) as u8]
}

/// The byte that the opcode slot is written as: none unless the slot holds
/// an operation.
pub open spec fn opcode_bytes(slot: Option<TokenView>) -> Seq<u8> {
    match slot {
        Some(TokenView::Op { code }) => seq![code_of_opcode(code)],
        _ => Seq::empty(),
    }
}

/// The bytes that an operand slot is written as. A register is one byte. An
/// integer is the two bytes of its low 16 bits. A label is the two bytes of
/// the low 16 bits of its offset, or two zero bytes while it has none. Any
/// other token, and an empty slot, is written as nothing.
pub open spec fn operand_bytes(slot: Option<TokenView>, symbols: Seq<SymbolView>) -> Seq<u8> {
    match slot {
        Some(TokenView::Register { reg_num }) => seq![reg_num],
        Some(TokenView::IntegerOperand { value }) => big_endian_16(value as int),
        Some(TokenView::LabelUsage { name }) => match offset_of_name(symbols, name) {
            Some(offset) => big_endian_16(offset as int),
            None => seq![0u8, 0u8],
        },
        _ => Seq::empty(),
    }
}

/// The first four bytes of `bytes`, with zeros where it has fewer.
pub open spec fn first_four(bytes: Seq<u8>) -> Seq<u8> {
    (bytes + seq![0u8, 0u8, 0u8, 0u8]).subrange(0, 4)
}

/// The four bytes that an instruction is written as: the opcode, then the
/// operands in the order of their slots.
pub open spec fn encoding(instruction: InstructionView, symbols: Seq<SymbolView>) -> Seq<u8> {
    first_four(
        opcode_bytes(instruction.opcode) + operand_bytes(instruction.operand1, symbols)
            + operand_bytes(instruction.operand2, symbols) + operand_bytes(
            instruction.operand3,
            symbols,
        ),
    )
}

/// Appends the two bytes of the low 16 bits of `n`, high byte first.
fn push_big_endian_16(results: &mut Vec<u8>, n: u32)
    ensures
        final(results)@ == old(results)@ + big_endian_16(n as int),
{
    let low: u32 = n % 0x1_0000;
    results.push((low / 0x100) as u8);
    results.push((low % 0x100) as u8);
    assert(results@ =~= old(results)@ + big_endian_16(n as int));
}

impl AssemblerInstruction {
    /// The four bytes that the instruction is written as.
    pub fn to_bytes(&self, symbols: &SymbolTable) -> (bytes: Vec<u8>)
        ensures
            bytes@ == encoding(self@, symbols@),
            bytes@.len() == 4,
    {
        let mut results: Vec<u8> = Vec::new();
        match &self.opcode {
            Some(Token::Op { code }) => {
                results.push(code.code());
            },
            _ => {},
        }
        assert(results@ =~= opcode_bytes(self@.opcode));
        AssemblerInstruction::extract_operand(&self.operand1, &mut results, symbols);
        AssemblerInstruction::extract_operand(&self.operand2, &mut results, symbols);
        AssemblerInstruction::extract_operand(&self.operand3, &mut results, symbols);
        let ghost written = results@;
        while results.len() < 4
            invariant
                written.is_prefix_of(results@),
                forall|i: int| written.len() <= i < results@.len() ==> results@[i] == 0,
                results@.len() <= written.len() || results@.len() <= 4,
            decreases 4 - results.len(),
        {
            results.push(0);
        }
        results.truncate(4);
        assert(results@ =~= first_four(written));
        results
    }

    /// Whether the instruction carries a label.
    pub fn is_label(&self) -> (b: bool)
        ensures
            b == self@.label is Some,
    {
        self.label.is_some()
    }

    /// Whether the instruction carries an operation.
    pub fn is_opcode(&self) -> (b: bool)
        ensures
            b == self@.opcode is Some,
    {
        self.opcode.is_some()
    }

    /// Whether the instruction carries a directive.
    pub fn is_directive(&self) -> (b: bool)
        ensures
            b == self@.directive is Some,
    {
        self.directive.is_some()
    }

    /// The name that the instruction declares as its label.
    pub fn get_label_name(&self) -> (name: Option<String>)
        ensures
            name is Some <==> self@.label matches Some(TokenView::LabelDeclaration { .. }),
            name is Some ==> self@.label == Some(
                TokenView::LabelDeclaration { name: name.unwrap()@ },
            ),
    {
        match &self.label {
            Some(Token::LabelDeclaration { name }) => Some(name.clone()),
            _ => None,
        }
    }

    /// The name of the directive that the instruction carries.
    pub fn get_directive_name(&self) -> (name: Option<String>)
        ensures
            name is Some <==> self@.directive matches Some(TokenView::Directive { .. }),
            name is Some ==> self@.directive == Some(TokenView::Directive { name: name.unwrap()@ }),
    {
        match &self.directive {
            Some(Token::Directive { name }) => Some(name.clone()),
            _ => None,
        }
    }

    /// Whether any operand slot is filled.
    pub fn has_operands(&self) -> (b: bool)
        ensures
            b == (self@.operand1 is Some || self@.operand2 is Some || self@.operand3 is Some),
    {
        self.operand1.is_some() || self.operand2.is_some() || self.operand3.is_some()
    }

    /// The string that the first operand slot holds.
    pub fn get_string_constant(&self) -> (text: Option<String>)
        ensures
            text is Some <==> self@.operand1 matches Some(TokenView::SyString { .. }),
            text is Some ==> self@.operand1 == Some(TokenView::SyString { name: text.unwrap()@ }),
    {
        match &self.operand1 {
            Some(Token::SyString { name }) => Some(name.clone()),
            _ => None,
        }
    }

    /// Appends the bytes that an operand slot is written as.
    fn extract_operand(slot: &Option<Token>, results: &mut Vec<u8>, symbols: &SymbolTable)
        ensures
            final(results)@ == old(results)@ + operand_bytes(slot_view(*slot), symbols@),
    {
        match slot {
            Some(Token::Register { reg_num }) => {
                results.push(*reg_num);
                assert(results@ =~= old(results)@ + seq![*reg_num]);
            },
            Some(Token::IntegerOperand { value }) => {
                match value.checked_rem_euclid(0x1_0000) {
                    Some(low) => {
                        results.push((low / 0x100) as u8);
                        results.push((low % 0x100) as u8);
                    },
                    None => {},
                }
                assert(results@ =~= old(results)@ + big_endian_16(*value as int));
            },
            Some(Token::LabelUsage { name }) => match symbols.symbol_value(name.as_str()) {
                Some(offset) => {
                    push_big_endian_16(results, offset);
                },
                None => {
                    results.push(0);
                    results.push(0);
                    assert(results@ =~= old(results)@ + seq![0u8, 0u8]);
                },
            },
            _ => {
                assert(results@ =~= old(results)@ + Seq::<u8>::empty());
            },
        }
    }
}

/// What stands in an optional place of the grammar, and the position behind
/// it: nothing, and the position before it, where the place is empty.
pub open spec fn optional(found: Option<(TokenView, int)>, pos: int) -> (Option<TokenView>, int) {
    match found {
        Some((token, end)) => (Some(token), end),
        None => (None, pos),
    }
}

/// The operands of an instruction as a mathematical value, with the position
/// behind them.
pub struct OperandsView {
    pub operand1: Option<TokenView>,
    pub operand2: Option<TokenView>,
    pub operand3: Option<TokenView>,
    pub end: int,
}

/// Up to three operands from `pos`, each after any white space. White space
/// before a missing operand is consumed all the same.
pub open spec fn operands_at(s: Seq<char>, pos: int) -> OperandsView {
    let start1 = skip_spaces(s, pos);
    let (operand1, end1) = optional(operand_at(s, start1), start1);
    let start2 = skip_spaces(s, end1);
    let (operand2, end2) = optional(operand_at(s, start2), start2);
    let start3 = skip_spaces(s, end2);
    let (operand3, end3) = optional(operand_at(s, start3), start3);
    OperandsView { operand1, operand2, operand3, end: end3 }
}

/// The code form of an instruction at `pos`: a label declaration if there
/// is one, a mnemonic, up to three operands, and the white space behind
/// them, line feeds included.
pub open spec fn code_form_at(s: Seq<char>, pos: int) -> Option<(InstructionView, int)> {
    let (label, after_label) = optional(label_declaration_at(s, pos), pos);
    match opcode_at(s, skip_spaces(s, after_label)) {
        Some((opcode, after_opcode)) => {
            let operands = operands_at(s, after_opcode);
            Some(
                (
                    InstructionView {
                        opcode: Some(opcode),
                        label,
                        directive: None,
                        operand1: operands.operand1,
                        operand2: operands.operand2,
                        operand3: operands.operand3,
                    },
                    skip_spaces(s, operands.end),
                ),
            )
        },
        None => None,
    }
}

/// An instruction at `pos`: the code form, or else the directive form.
pub open spec fn instruction_at(s: Seq<char>, pos: int) -> Option<(InstructionView, int)> {
    if code_form_at(s, pos) is Some {
        code_form_at(s, pos)
    } else {
        directive_at(s, pos)
    }
}

/// What a scan found: the instruction, and the position behind it.
pub open spec fn scanned_instruction(found: Option<(AssemblerInstruction, usize)>) -> Option<
    (InstructionView, int),
> {
    match found {
        Some((instruction, end)) => Some((instruction@, end as int)),
        None => None,
    }
}

/// Whether `result` says of the text `input` what the grammar says: the
/// instruction, with the text that is left behind it, or no match.
pub open spec fn instruction_agrees_with(
    result: Result<(&str, AssemblerInstruction), NoMatch>,
    input: Seq<char>,
    grammar: Option<(InstructionView, int)>,
) -> bool {
    match result {
        Ok((rest, instruction)) => grammar == Some((instruction@, input.len() - rest@.len()))
            && rest@ == input.subrange(input.len() - rest@.len(), input.len() as int),
        Err(_) => grammar is None,
    }
}

/// Hands out what a scan from the start of `input` found, with the rest of
/// the text in place of the position.
pub(crate) fn instruction_and_rest<'a>(
    input: &'a str,
    length: usize,
    found: Option<(AssemblerInstruction, usize)>,
) -> (result: Result<(&'a str, AssemblerInstruction), NoMatch>)
    requires
        length == input@.len(),
        found is Some ==> found.unwrap().1 <= length,
    ensures
        instruction_agrees_with(result, input@, scanned_instruction(found)),
{
    match found {
        Some((instruction, end)) => Ok((input.substring_char(end, length), instruction)),
        None => Err(NoMatch),
    }
}

/// Scans white space and then an operand, if one is there.
fn scan_optional_operand(chars: &[char], pos: usize) -> (found: (Option<Token>, usize))
    requires
        pos <= chars.len(),
    ensures
        (slot_view(found.0), found.1 as int) == optional(
            operand_at(chars@, skip_spaces(chars@, pos as int)),
            skip_spaces(chars@, pos as int),
        ),
        pos <= found.1 <= chars.len(),
{
    let start = scan_run(chars, pos, CharClass::Space);
    match scan_operand(chars, start) {
        Some((token, end)) => (Some(token), end),
        None => (None, start),
    }
}

/// Scans up to three operands from `pos`.
pub(crate) fn scan_operands(chars: &[char], pos: usize) -> (found: (
    Option<Token>,
    Option<Token>,
    Option<Token>,
    usize,
))
    requires
        pos <= chars.len(),
    ensures
        operands_at(chars@, pos as int) == (OperandsView {
            operand1: slot_view(found.0),
            operand2: slot_view(found.1),
            operand3: slot_view(found.2),
            end: found.3 as int,
        }),
        pos <= found.3 <= chars.len(),
{
    let (operand1, end1) = scan_optional_operand(chars, pos);
    let (operand2, end2) = scan_optional_operand(chars, end1);
    let (operand3, end3) = scan_optional_operand(chars, end2);
    (operand1, operand2, operand3, end3)
}

/// Scans a label declaration from `pos`, if one is there.
pub(crate) fn scan_optional_label(chars: &[char], pos: usize) -> (found: (Option<Token>, usize))
    requires
        pos <= chars.len(),
    ensures
        (slot_view(found.0), found.1 as int) == optional(
            label_declaration_at(chars@, pos as int),
            pos as int,
        ),
        pos <= found.1 <= chars.len(),
{
    match scan_label_declaration(chars, pos) {
        Some((token, end)) => (Some(token), end),
        None => (None, pos),
    }
}

/// Scans the code form of an instruction from `pos`.
pub(crate) fn scan_code_form(chars: &[char], pos: usize) -> (found: Option<
    (AssemblerInstruction, usize),
>)
    requires
        pos <= chars.len(),
    ensures
        scanned_instruction(found) == code_form_at(chars@, pos as int),
        found is Some ==> pos < found.unwrap().1 <= chars.len(),
{
    let (label, after_label) = scan_optional_label(chars, pos);
    let start = scan_run(chars, after_label, CharClass::Space);
    match scan_opcode(chars, start) {
        Some((opcode, after_opcode)) => {
            let (operand1, operand2, operand3, after_operands) = scan_operands(
                chars,
                after_opcode,
            );
            let end = scan_run(chars, after_operands, CharClass::Space);
            Some(
                (
                    AssemblerInstruction {
                        opcode: Some(opcode),
                        label,
                        directive: None,
                        operand1,
                        operand2,
                        operand3,
                    },
                    end,
                ),
            )
        },
        None => None,
    }
}

/// Scans an instruction from `pos`.
pub(crate) fn scan_instruction(chars: &[char], pos: usize) -> (found: Option<
    (AssemblerInstruction, usize),
>)
    requires
        pos <= chars.len(),
    ensures
        scanned_instruction(found) == instruction_at(chars@, pos as int),
        found is Some ==> pos < found.unwrap().1 <= chars.len(),
{
    let code_form = scan_code_form(chars, pos);
    if code_form.is_some() {
        return code_form;
    }
    scan_directive(chars, pos)
}

/// Reads the code form of an instruction from the start of `input`.
pub fn instruction_combined(input: &str) -> (result: Result<(&str, AssemblerInstruction), NoMatch>)
    ensures
        instruction_agrees_with(result, input@, code_form_at(input@, 0)),
{
    let chars = chars_of(input);
    instruction_and_rest(input, chars.len(), scan_code_form(chars.as_slice(), 0))
}

/// Reads an instruction from the start of `input`.
pub fn instruction(input: &str) -> (result: Result<(&str, AssemblerInstruction), NoMatch>)
    ensures
        instruction_agrees_with(result, input@, instruction_at(input@, 0)),
{
    let chars = chars_of(input);
    instruction_and_rest(input, chars.len(), scan_instruction(chars.as_slice(), 0))
}

/// The operands end inside the text, at or behind the place where they
/// start.
pub proof fn lemma_operands_bounds(s: Seq<char>, pos: int)
    requires
        0 <= pos <= s.len(),
    ensures
        pos <= operands_at(s, pos).end <= s.len(),
{
    lemma_run_end(s, pos, CharClass::Space);
    let start1 = skip_spaces(s, pos);
    let (operand1, end1) = optional(operand_at(s, start1), start1);
    if operand_at(s, start1) is Some {
        lemma_operand_bounds(s, start1);
    }
    lemma_run_end(s, end1, CharClass::Space);
    let start2 = skip_spaces(s, end1);
    let (operand2, end2) = optional(operand_at(s, start2), start2);
    if operand_at(s, start2) is Some {
        lemma_operand_bounds(s, start2);
    }
    lemma_run_end(s, end2, CharClass::Space);
    let start3 = skip_spaces(s, end2);
    if operand_at(s, start3) is Some {
        lemma_operand_bounds(s, start3);
    }
}

/// An instruction that is found takes at least one character and ends
/// inside the text. So a program is read in finitely many steps, each of
/// which moves on.
pub proof fn lemma_instruction_bounds(s: Seq<char>, pos: int)
    requires
        0 <= pos <= s.len(),
        instruction_at(s, pos) is Some,
    ensures
        pos < instruction_at(s, pos).unwrap().1 <= s.len(),
{
    let (label, after_label) = optional(label_declaration_at(s, pos), pos);
    if label_declaration_at(s, pos) is Some {
        lemma_label_declaration_bounds(s, pos);
    }
    lemma_run_end(s, after_label, CharClass::Space);
    let start = skip_spaces(s, after_label);
    if code_form_at(s, pos) is Some {
        lemma_run_end(s, start, CharClass::Alpha);
        let after_opcode = opcode_at(s, start).unwrap().1;
        lemma_operands_bounds(s, after_opcode);
        lemma_run_end(s, operands_at(s, after_opcode).end, CharClass::Space);
    } else {
        lemma_directive_bounds(s, pos);
    }
}

/// Whether the slots of an instruction are filled as the grammar fills
/// them: an operation or a directive but not both, and the operands from the
/// left with no gap.
pub open spec fn is_well_shaped(instruction: InstructionView) -> bool {
    &&& instruction.opcode is Some <==> instruction.directive is None
    &&& instruction.opcode is Some ==> instruction.opcode->Some_0 is Op
    &&& instruction.directive is Some ==> instruction.directive->Some_0 is Directive
    &&& instruction.label is Some ==> instruction.label->Some_0 is LabelDeclaration
    &&& instruction.operand2 is Some ==> instruction.operand1 is Some
    &&& instruction.operand3 is Some ==> instruction.operand2 is Some
}

/// Where one operand is missing, those behind it are missing too.
pub proof fn lemma_operands_fill_from_the_left(s: Seq<char>, pos: int)
    requires
        0 <= pos <= s.len(),
    ensures
        operands_at(s, pos).operand2 is Some ==> operands_at(s, pos).operand1 is Some,
        operands_at(s, pos).operand3 is Some ==> operands_at(s, pos).operand2 is Some,
{
    lemma_run_end(s, pos, CharClass::Space);
    lemma_run_end_is_final(s, pos, CharClass::Space);
    let start1 = skip_spaces(s, pos);
    let (operand1, end1) = optional(operand_at(s, start1), start1);
    if operand_at(s, start1) is Some {
        lemma_operand_bounds(s, start1);
    }
    lemma_run_end(s, end1, CharClass::Space);
    lemma_run_end_is_final(s, end1, CharClass::Space);
}

/// Every instruction that is read from a text is well shaped.
pub proof fn lemma_instruction_is_well_shaped(s: Seq<char>, pos: int)
    requires
        0 <= pos <= s.len(),
        instruction_at(s, pos) is Some,
    ensures
        is_well_shaped(instruction_at(s, pos).unwrap().0),
{
    let (label, after_label) = optional(label_declaration_at(s, pos), pos);
    if label_declaration_at(s, pos) is Some {
        lemma_label_declaration_bounds(s, pos);
    }
    lemma_run_end(s, after_label, CharClass::Space);
    let start = skip_spaces(s, after_label);
    if code_form_at(s, pos) is Some {
        lemma_run_end(s, start, CharClass::Alpha);
        lemma_operands_fill_from_the_left(s, opcode_at(s, start).unwrap().1);
    } else {
        lemma_run_end(s, start + 1, CharClass::Alpha);
        lemma_operands_fill_from_the_left(s, directive_declaration_at(s, start).unwrap().1);
    }
}

} // verus!
