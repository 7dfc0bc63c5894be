//! The assembler: source text in, image out, in two passes.
//!
//! The first pass finds the labels, lays out the read-only data and checks
//! the sections. The second pass writes four bytes for every instruction.
//! The read-only data is not part of the image: it is handed to the machine
//! beside it.

pub mod assembler_errors;
pub mod characters;
pub mod directive_parsers;
pub mod instruction_parsers;
pub mod label_parsers;
pub mod opcode_parsers;
pub mod program_parsers;
pub mod operand_parsers;
pub mod register_parsers;
pub mod symbols;

use vstd::prelude::*;
use vstd::utf8::encode_utf8;
use crate::assembler::assembler_errors::{errors_view, AssemblerError, AssemblerErrorView};
use crate::assembler::instruction_parsers::{encoding, AssemblerInstruction, InstructionView};
use crate::assembler::program_parsers::{program, program_at, Program};
use crate::assembler::symbols::{
    has_name,
    with_offset,
    Symbol,
    SymbolTable,
    SymbolType,
    SymbolView,
};
use crate::instruction::Opcode;
use crate::text::str_eq;

verus! {

/// The four bytes that open every image.
pub const PIE_HEADER_PREFIX: [u8; 4] = [45, 50, 49, 45];

/// The length of the header: the prefix, then zeros.
pub const PIE_HEADER_LENGTH: usize = 64;

/// Where the first instruction of an image lies: one reserved zero byte
/// follows the header.
pub const PIE_CODE_START: usize = 65;

/// The smallest piece of source text that means something.
#[derive(Debug, PartialEq)]
pub enum Token {
    Op { code: Opcode },
    Register { reg_num: u8 },
    IntegerOperand { value: i32 },
    LabelDeclaration { name: String },
    LabelUsage { name: String },
    Directive { name: String },
    SyString { name: String },
}

/// A token as a mathematical value.
pub enum TokenView {
    Op { code: Opcode },
    Register { reg_num: u8 },
    IntegerOperand { value: i32 },
    LabelDeclaration { name: Seq<char> },
    LabelUsage { name: Seq<char> },
    Directive { name: Seq<char> },
    SyString { name: Seq<char> },
}

impl View for Token {
    type V = TokenView;

    open spec fn view(&self) -> TokenView {
        match self {
            Token::Op { code } => TokenView::Op { code: *code },
            Token::Register { reg_num } => TokenView::Register { reg_num: *reg_num },
            Token::IntegerOperand { value } => TokenView::IntegerOperand { value: *value },
            Token::LabelDeclaration { name } => TokenView::LabelDeclaration { name: name@ },
            Token::LabelUsage { name } => TokenView::LabelUsage { name: name@ },
            Token::Directive { name } => TokenView::Directive { name: name@ },
            Token::SyString { name } => TokenView::SyString { name: name@ },
        }
    }
}

/// The token in a slot of an instruction, as a mathematical value.
pub open spec fn slot_view(slot: Option<Token>) -> Option<TokenView> {
    match slot {
        Some(token) => Some(token@),
        None => None,
    }
}

/// The text does not start with what the parser looks for.
#[derive(Clone, Copy, Debug, PartialEq, Eq, Structural)]
pub struct NoMatch;

/// What a scan of the characters from some position found: the token, and
/// the position behind it.
pub open spec fn scanned(found: Option<(Token, usize)>) -> Option<(TokenView, int)> {
    match found {
        Some((token, end)) => Some((token@, end as int)),
        None => None,
    }
}

/// Whether `result` says of the text `input` what the grammar says: the
/// token, with the text that is left behind it, or no match.
pub open spec fn agrees_with(
    result: Result<(&str, Token), NoMatch>,
    input: Seq<char>,
    grammar: Option<(TokenView, int)>,
) -> bool {
    match result {
        Ok((rest, token)) => grammar == Some((token@, input.len() - rest@.len()))
            && rest@ == input.subrange(input.len() - rest@.len(), input.len() as int),
        Err(_) => grammar is None,
    }
}

/// Hands out what a scan from the start of `input` found, with the rest of
/// the text in place of the position.
pub(crate) fn token_and_rest<'a>(
    input: &'a str,
    length: usize,
    found: Option<(Token, usize)>,
) -> (result: Result<(&'a str, Token), NoMatch>)
    requires
        length == input@.len(),
        found is Some ==> found.unwrap().1 <= length,
    ensures
        agrees_with(result, input@, scanned(found)),
{
    match found {
        Some((token, end)) => Ok((input.substring_char(end, length), token)),
        None => Err(NoMatch),
    }
}

/// Which pass the assembler is in.
#[derive(Debug, PartialEq, Eq, Clone, Copy, Structural)]
pub enum AssemblerPhase {
    First,
    Second,
}

impl Default for AssemblerPhase {
    fn default() -> (phase: AssemblerPhase)
        ensures
            phase == AssemblerPhase::First,
    {
        AssemblerPhase::First
    }
}

/// A section of a program.
#[derive(Debug, PartialEq, Eq, Clone, Copy, Structural)]
pub enum AssemblerSection {
    Data { starting_instruction: Option<u32> },
    Code { starting_instruction: Option<u32> },
    Unknown,
}

impl Default for AssemblerSection {
    fn default() -> (section: AssemblerSection)
        ensures
            section == AssemblerSection::Unknown,
    {
        AssemblerSection::Unknown
    }
}

/// The section that the name of a section header opens.
pub open spec fn section_of_name(name: Seq<char>) -> AssemblerSection {
    if name == "data"@ {
        AssemblerSection::Data { starting_instruction: None }
    } else if name == "code"@ {
        AssemblerSection::Code { starting_instruction: None }
    } else {
        AssemblerSection::Unknown
    }
}

impl<'a> From<&'a str> for AssemblerSection {
    fn from(name: &'a str) -> (section: AssemblerSection) {
        if str_eq(name, "data") {
            AssemblerSection::Data { starting_instruction: None }
        } else if str_eq(name, "code") {
            AssemblerSection::Code { starting_instruction: None }
        } else {
            AssemblerSection::Unknown
        }
    }
}

impl<'a> vstd::std_specs::convert::FromSpecImpl<&'a str> for AssemblerSection {
    open spec fn obeys_from_spec() -> bool {
        true
    }

    open spec fn from_spec(name: &'a str) -> AssemblerSection {
        section_of_name(name@)
    }
}

/// The state of the assembler as a mathematical value.
pub struct AssemblerView {
    pub phase: AssemblerPhase,
    pub symbols: Seq<SymbolView>,
    pub ro: Seq<u8>,
    pub sections: Seq<AssemblerSection>,
    pub current_section: Option<AssemblerSection>,
    pub current_instruction: u32,
    pub errors: Seq<AssemblerErrorView>,
}

impl AssemblerView {
    /// The same state with one more error.
    pub open spec fn with_error(self, error: AssemblerErrorView) -> AssemblerView {
        AssemblerView { errors: self.errors.push(error), ..self }
    }
}

/// The state in which every program is assembled: the first pass, no
/// symbols, no data, no sections, no errors.
pub open spec fn fresh_state() -> AssemblerView {
    AssemblerView {
        phase: AssemblerPhase::First,
        symbols: Seq::empty(),
        ro: Seq::empty(),
        sections: Seq::empty(),
        current_section: None,
        current_instruction: 0,
        errors: Seq::empty(),
    }
}

/// A length as an offset of 32 bits: the largest one stands for all that
/// are larger.
pub open spec fn offset_of_length(length: nat) -> u32 {
    if length > u32::MAX {
        u32::MAX
    } else {
        length as u32
    }
}

/// The count of instructions after one more: it stays at the largest number
/// that 32 bits hold.
pub open spec fn next_count(count: u32) -> u32 {
    if count == u32::MAX {
        count
    } else {
        (count + 1) as u32
    }
}

/// Whether any operand slot of the instruction is filled.
pub open spec fn has_operands(instruction: InstructionView) -> bool {
    instruction.operand1 is Some || instruction.operand2 is Some || instruction.operand3 is Some
}

/// The label of an instruction joins the table, without an offset. A label
/// that the table already has is an error and leaves the table as it was.
/// So does an instruction whose label slot holds no label declaration.
pub open spec fn declare_in_section(
    st: AssemblerView,
    instruction: InstructionView,
) -> AssemblerView {
    match instruction.label {
        Some(TokenView::LabelDeclaration { name }) => if has_name(st.symbols, name) {
            st.with_error(AssemblerErrorView::SymbolAlreadyDeclared)
        } else {
            AssemblerView {
                symbols: st.symbols.push(
                    SymbolView { name, offset: None, symbol_type: SymbolType::Label },
                ),
                ..st
            }
        },
        _ => st.with_error(
            AssemblerErrorView::StringConstantDeclaredWithoutLabel {
                instruction: st.current_instruction,
            },
        ),
    }
}

/// The first pass on the label of an instruction. A label before the first
/// section is an error; once a section is open the label is declared.
pub open spec fn declare_label(st: AssemblerView, instruction: InstructionView) -> AssemblerView {
    if instruction.label is None {
        st
    } else if st.sections.len() == 0 {
        st.with_error(
            AssemblerErrorView::NoSegmentDeclarationFound { instruction: st.current_instruction },
        )
    } else {
        declare_in_section(st, instruction)
    }
}

/// A section header. A known section becomes the current one, and in the
/// first pass it joins the list of sections. An unknown name changes
/// nothing.
pub open spec fn open_section(st: AssemblerView, name: Seq<char>) -> AssemblerView {
    let section = section_of_name(name);
    if section == AssemblerSection::Unknown {
        st
    } else if st.phase == AssemblerPhase::First {
        AssemblerView {
            sections: st.sections.push(section),
            current_section: Some(section),
            ..st
        }
    } else {
        AssemblerView { current_section: Some(section), ..st }
    }
}

/// `.asciiz`. It counts in the first pass only; in the second it changes
/// nothing. The label of the instruction resolves to the end of the
/// read-only data, and the bytes of the string, closed by a zero byte, are
/// appended there. A string without a label is an error and is not stored.
/// An instruction whose first operand is no string changes nothing.
pub open spec fn store_string(st: AssemblerView, instruction: InstructionView) -> AssemblerView {
    if st.phase != AssemblerPhase::First {
        st
    } else {
        match instruction.operand1 {
            Some(TokenView::SyString { name: text }) => match instruction.label {
                Some(TokenView::LabelDeclaration { name }) => AssemblerView {
                    symbols: with_offset(st.symbols, name, offset_of_length(st.ro.len())),
                    ro: st.ro + encode_utf8(text) + seq![0u8],
                    ..st
                },
                _ => st.with_error(
                    AssemblerErrorView::StringConstantDeclaredWithoutLabel {
                        instruction: st.current_instruction,
                    },
                ),
            },
            _ => st,
        }
    }
}

/// The directive of an instruction. Without operands it is a section
/// header. With operands it counts in the first pass only: `asciiz` stores
/// a string, and any other name is an error.
pub open spec fn apply_directive(st: AssemblerView, instruction: InstructionView) -> AssemblerView {
    match instruction.directive {
        Some(TokenView::Directive { name }) => if !has_operands(instruction) {
            open_section(st, name)
        } else if name == "asciiz"@ {
            store_string(st, instruction)
        } else if st.phase == AssemblerPhase::First {
            st.with_error(AssemblerErrorView::UnknownDirectiveFound { directive: name })
        } else {
            st
        },
        _ => st,
    }
}

/// The first pass on one instruction: its label, its directive, and the
/// count of instructions.
pub open spec fn first_pass_step(st: AssemblerView, instruction: InstructionView) -> AssemblerView {
    let after = apply_directive(declare_label(st, instruction), instruction);
    AssemblerView { current_instruction: next_count(after.current_instruction), ..after }
}

/// The first pass on the instructions of a program, in order.
pub open spec fn first_pass(st: AssemblerView, instructions: Seq<InstructionView>) -> AssemblerView
    decreases instructions.len(),
{
    if instructions.len() == 0 {
        st
    } else {
        first_pass_step(first_pass(st, instructions.drop_last()), instructions.last())
    }
}

/// The first phase: the first pass, after which the second phase begins.
pub open spec fn first_phase(
    st: AssemblerView,
    instructions: Seq<InstructionView>,
) -> AssemblerView {
    AssemblerView { phase: AssemblerPhase::Second, ..first_pass(st, instructions) }
}

/// The second pass on the instructions of a program, in order: the state,
/// and the code written so far. An instruction with an operation is written
/// as its four bytes; a directive is applied.
pub open spec fn second_pass(st: AssemblerView, instructions: Seq<InstructionView>) -> (
    AssemblerView,
    Seq<u8>,
)
    decreases instructions.len(),
{
    if instructions.len() == 0 {
        (st, Seq::empty())
    } else {
        let (before, code) = second_pass(st, instructions.drop_last());
        let instruction = instructions.last();
        (
            apply_directive(before, instruction),
            if instruction.opcode is Some {
                code + encoding(instruction, before.symbols)
            } else {
                code
            },
        )
    }
}

/// The second phase: the count of instructions starts again, then the
/// second pass.
pub open spec fn second_phase(st: AssemblerView, instructions: Seq<InstructionView>) -> (
    AssemblerView,
    Seq<u8>,
) {
    second_pass(AssemblerView { current_instruction: 0, ..st }, instructions)
}

/// What opens every image: the prefix, then zeros up to the first
/// instruction.
pub open spec fn image_header() -> Seq<u8> {
    Seq::new(
        PIE_CODE_START as nat,
        |i: int|
            if i < 4 {
                PIE_HEADER_PREFIX[i]
            } else {
                0u8
            },
    )
}

/// What is said of a text that is no program.
pub open spec fn parse_diagnostic() -> Seq<char> {
    "no instruction at the start of the text"@
}

/// What assembling the program that `raw` starts with leaves behind and
/// returns.
///
/// A text that does not start with an instruction is a parse error. Else
/// the first phase runs, from a fresh state; fewer than two sections are one
/// more error; and any error ends the call with all of them. Else the image
/// is the header and then the code of the second phase.
pub open spec fn assembled(raw: Seq<char>) -> (
    AssemblerView,
    Result<Seq<u8>, Seq<AssemblerErrorView>>,
) {
    match program_at(raw, 0) {
        None => (
            fresh_state(),
            Err(seq![AssemblerErrorView::ParseError { error: parse_diagnostic() }]),
        ),
        Some((instructions, _)) => {
            let found = first_phase(fresh_state(), instructions);
            let checked = if found.sections.len() < 2 {
                found.with_error(AssemblerErrorView::InsufficientSections)
            } else {
                found
            };
            if checked.errors.len() > 0 {
                (AssemblerView { errors: Seq::empty(), ..checked }, Err(checked.errors))
            } else {
                let (done, code) = second_phase(checked, instructions);
                (done, Ok(image_header() + code))
            }
        },
    }
}

/// What `assemble` returned, as a mathematical value.
pub open spec fn result_view(result: Result<Vec<u8>, Vec<AssemblerError>>) -> Result<
    Seq<u8>,
    Seq<AssemblerErrorView>,
> {
    match result {
        Ok(image) => Ok(image@),
        Err(errors) => Err(errors_view(errors@)),
    }
}

/// The assembler.
#[derive(Debug)]
pub struct Assembler {
    /// The pass that the assembler is in.
    pub phase: AssemblerPhase,
    /// The labels of the program.
    pub symbols: SymbolTable,
    /// The read-only data of the program, for the machine to load beside
    /// the image.
    pub ro: Vec<u8>,
    /// The sections declared so far, in order.
    pub sections: Vec<AssemblerSection>,
    /// The section that the assembler is in.
    pub current_section: Option<AssemblerSection>,
    /// The number of instructions seen in the pass.
    pub current_instruction: u32,
    /// The errors collected so far.
    pub errors: Vec<AssemblerError>,
}

impl Default for Assembler {
    fn default() -> (assembler: Assembler)
        ensures
            assembler@ == fresh_state(),
    {
        Assembler::new()
    }
}

impl View for Assembler {
    type V = AssemblerView;

    open spec fn view(&self) -> AssemblerView {
        AssemblerView {
            phase: self.phase,
            symbols: self.symbols@,
            ro: self.ro@,
            sections: self.sections@,
            current_section: self.current_section,
            current_instruction: self.current_instruction,
            errors: errors_view(self.errors@),
        }
    }
}

impl Assembler {
    /// An assembler in the fresh state.
    pub fn new() -> (assembler: Assembler)
        ensures
            assembler@ == fresh_state(),
    {
        let assembler = Assembler {
            phase: AssemblerPhase::First,
            symbols: SymbolTable::new(),
            ro: Vec::new(),
            sections: Vec::new(),
            current_section: None,
            errors: Vec::new(),
            current_instruction: 0,
        };
        assert(errors_view(assembler.errors@) =~= Seq::empty());
        assembler
    }

    /// Adds one error to those collected.
    fn report(&mut self, error: AssemblerError)
        ensures
            final(self)@ == old(self)@.with_error(error@),
    {
        assert(errors_view(self.errors@.push(error)) =~= errors_view(self.errors@).push(error@));
        self.errors.push(error);
    }

    /// Declares the label of an instruction. A name that the table already
    /// has is reported as `SymbolAlreadyDeclared` and the table stays as it
    /// was. Whether a section is open is for the caller to see to.
    pub fn process_label_declarations(&mut self, i: &AssemblerInstruction)
        ensures
            final(self)@ == declare_in_section(old(self)@, i@),
    {
        let name = match i.get_label_name() {
            Some(name) => name,
            None => {
                self.report(
                    AssemblerError::StringConstantDeclaredWithoutLabel {
                        instruction: self.current_instruction,
                    },
                );
                return ;
            },
        };
        if self.symbols.has_symbol(name.as_str()) {
            self.report(AssemblerError::SymbolAlreadyDeclared);
            return ;
        }
        let symbol = Symbol::new(name, SymbolType::Label);
        self.symbols.add_symbol(symbol);
    }

    /// A section header.
    fn process_section_header(&mut self, header_name: &str)
        ensures
            final(self)@ == open_section(old(self)@, header_name@),
    {
        let new_section = AssemblerSection::from(header_name);
        if new_section == AssemblerSection::Unknown {
            return ;
        }
        if self.phase == AssemblerPhase::First {
            self.sections.push(new_section);
        }
        self.current_section = Some(new_section);
    }

    /// `.asciiz`: stores the string in the first pass, and does nothing in
    /// the second.
    fn handle_asciiz(&mut self, i: &AssemblerInstruction)
        ensures
            final(self)@ == store_string(old(self)@, i@),
    {
        if self.phase != AssemblerPhase::First {
            return ;
        }
        match i.get_string_constant() {
            Some(text) => {
                match i.get_label_name() {
                    Some(name) => {
                        let offset: u32 = if self.ro.len() > 0xffff_ffff {
                            0xffff_ffff
                        } else {
                            self.ro.len() as u32
                        };
                        self.symbols.set_symbol_offset(name.as_str(), offset);
                    },
                    None => {
                        self.report(
                            AssemblerError::StringConstantDeclaredWithoutLabel {
                                instruction: self.current_instruction,
                            },
                        );
                        return ;
                    },
                };
                self.ro.extend_from_slice(text.as_str().as_bytes());
                self.ro.push(0);
                assert(self.ro@ =~= old(self).ro@ + encode_utf8(text@) + seq![0u8]);
            },
            None => {},
        }
    }

    /// The directive of an instruction.
    fn process_directive(&mut self, i: &AssemblerInstruction)
        ensures
            final(self)@ == apply_directive(old(self)@, i@),
    {
        let directive_name = match i.get_directive_name() {
            Some(name) => name,
            None => {
                return ;
            },
        };
        if !i.has_operands() {
            self.process_section_header(directive_name.as_str());
        } else if str_eq(directive_name.as_str(), "asciiz") {
            self.handle_asciiz(i);
        } else if self.phase == AssemblerPhase::First {
            self.report(AssemblerError::UnknownDirectiveFound { directive: directive_name });
        }
    }

    /// The first phase: finds the labels, stores the strings and lists the
    /// sections.
    fn process_first_phase(&mut self, p: &Program)
        ensures
            final(self)@ == first_phase(old(self)@, p@),
    {
        let mut n: usize = 0;
        assert(p@.take(0) =~= Seq::<InstructionView>::empty());
        while n < p.instructions.len()
            invariant
                n <= p.instructions.len(),
                p@.len() == p.instructions.len(),
                self@ == first_pass(old(self)@, p@.take(n as int)),
            decreases p.instructions.len() - n,
        {
            let i = &p.instructions[n];
            let ghost before = self@;
            if i.is_label() {
                if !self.sections.is_empty() {
                    self.process_label_declarations(i);
                } else {
                    self.report(
                        AssemblerError::NoSegmentDeclarationFound {
                            instruction: self.current_instruction,
                        },
                    );
                }
            }
            if i.is_directive() {
                self.process_directive(i);
            }
            if self.current_instruction < 0xffff_ffff {
                self.current_instruction += 1;
            }
            proof {
                assert(p@.take(n + 1).drop_last() =~= p@.take(n as int));
                assert(p@.take(n + 1).last() == i@);
                assert(self@ == first_pass_step(before, i@));
            }
            n += 1;
        }
        assert(p@.take(n as int) =~= p@);
        self.phase = AssemblerPhase::Second;
    }

    /// The second phase: writes the code.
    fn process_second_phase(&mut self, p: &Program) -> (code: Vec<u8>)
        ensures
            (final(self)@, code@) == second_phase(old(self)@, p@),
    {
        self.current_instruction = 0;
        let ghost start = self@;
        let mut program: Vec<u8> = Vec::new();
        let mut n: usize = 0;
        assert(p@.take(0) =~= Seq::<InstructionView>::empty());
        while n < p.instructions.len()
            invariant
                n <= p.instructions.len(),
                p@.len() == p.instructions.len(),
                (self@, program@) == second_pass(start, p@.take(n as int)),
            decreases p.instructions.len() - n,
        {
            let i = &p.instructions[n];
            if i.is_opcode() {
                let mut bytes = i.to_bytes(&self.symbols);
                program.append(&mut bytes);
            }
            if i.is_directive() {
                self.process_directive(i);
            }
            proof {
                assert(p@.take(n + 1).drop_last() =~= p@.take(n as int));
                assert(p@.take(n + 1).last() == i@);
            }
            n += 1;
        }
        assert(p@.take(n as int) =~= p@);
        program
    }

    /// What opens every image.
    fn write_pie_header(&self) -> (header: Vec<u8>)
        ensures
            header@ == image_header(),
    {
        let mut header: Vec<u8> = Vec::new();
        header.push(PIE_HEADER_PREFIX[0]);
        header.push(PIE_HEADER_PREFIX[1]);
        header.push(PIE_HEADER_PREFIX[2]);
        header.push(PIE_HEADER_PREFIX[3]);
        while header.len() <= PIE_HEADER_LENGTH
            invariant
                4 <= header.len() <= PIE_CODE_START,
                forall|i: int| 0 <= i < 4 ==> header@[i] == PIE_HEADER_PREFIX[i],
                forall|i: int| 4 <= i < header.len() ==> header@[i] == 0,
            decreases PIE_CODE_START - header.len(),
        {
            header.push(0);
        }
        assert(header@ =~= image_header());
        header
    }

    /// Assembles the program that `raw` starts with into an image.
    ///
    /// Every call starts from the fresh state, whatever the assembler held
    /// before. On success the symbols and the read-only data of the program
    /// are left in the assembler. On failure all the errors that were found
    /// are returned together.
    pub fn assemble(&mut self, raw: &str) -> (result: Result<Vec<u8>, Vec<AssemblerError>>)
        ensures
            (final(self)@, result_view(result)) == assembled(raw@),
    {
        *self = Assembler::new();
        match program(raw) {
            Ok((_, program)) => {
                let mut assembled_program = self.write_pie_header();
                self.process_first_phase(&program);
                if self.sections.len() < 2 {
                    self.report(AssemblerError::InsufficientSections);
                }
                if !self.errors.is_empty() {
                    let mut errors: Vec<AssemblerError> = Vec::new();
                    core::mem::swap(&mut self.errors, &mut errors);
                    assert(errors_view(self.errors@) =~= Seq::empty());
                    return Err(errors);
                }
                let mut body = self.process_second_phase(&program);
                assembled_program.append(&mut body);
                Ok(assembled_program)
            },
            Err(_) => {
                let mut errors: Vec<AssemblerError> = Vec::new();
                errors.push(
                    AssemblerError::ParseError {
                        error: "no instruction at the start of the text".to_owned(),
                    },
                );
                assert(errors_view(errors@) =~= seq![
                    AssemblerErrorView::ParseError { error: parse_diagnostic() },
                ]);
                Err(errors)
            },
        }
    }
}

} // verus!
