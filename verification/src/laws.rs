//! What holds of the assembler and the machine together.

use vstd::prelude::*;
use crate::assembler::assembler_errors::AssemblerErrorView;
use crate::assembler::instruction_parsers::{
    encoding,
    opcode_bytes,
    operand_bytes,
    InstructionView,
};
use crate::assembler::program_parsers::{program_at, program_encoding};
use crate::assembler::symbols::{
    has_name,
    holds_name_at,
    names_are_distinct,
    with_offset,
    with_symbol,
    SymbolType,
    SymbolView,
};
use crate::assembler::{
    assembled,
    declare_in_section,
    declare_label,
    first_pass,
    first_phase,
    fresh_state,
    image_header,
    offset_of_length,
    second_pass,
    AssemblerPhase,
    AssemblerView,
    TokenView,
    PIE_CODE_START,
    PIE_HEADER_PREFIX,
};
use crate::instruction::Opcode;
use crate::vm::{header_is_correct, step, Outcome, VmState};

verus! {

/// Every instruction is written as exactly four bytes, whatever its slots
/// hold.
pub proof fn lemma_encoding_is_four_bytes(instruction: InstructionView, symbols: Seq<SymbolView>)
    ensures
        encoding(instruction, symbols).len() == 4,
{
}

/// A program is written as four bytes for each of its instructions.
pub proof fn lemma_program_encoding_length(
    instructions: Seq<InstructionView>,
    symbols: Seq<SymbolView>,
)
    ensures
        program_encoding(instructions, symbols).len() == 4 * instructions.len(),
    decreases instructions.len(),
{
    if instructions.len() > 0 {
        lemma_program_encoding_length(instructions.drop_last(), symbols);
    }
}

/// Adding a symbol a second time changes nothing, and a table without
/// repeated names stays one.
pub proof fn lemma_symbol_is_added_once(table: Seq<SymbolView>, symbol: SymbolView)
    requires
        names_are_distinct(table),
    ensures
        with_symbol(with_symbol(table, symbol), symbol) == with_symbol(table, symbol),
        names_are_distinct(with_symbol(table, symbol)),
        has_name(with_symbol(table, symbol), symbol.name),
{
    let once = with_symbol(table, symbol);
    if has_name(table, symbol.name) {
    } else {
        assert(holds_name_at(once, symbol.name, table.len() as int));
        assert forall|i: int, j: int| 0 <= i < j < once.len() implies once[i].name
            != once[j].name by {
            if j == table.len() {
                assert(!holds_name_at(table, symbol.name, i));
            }
        }
    }
}

/// Setting an offset keeps the names of the table, so a table without
/// repeated names stays one.
pub proof fn lemma_offset_keeps_names(table: Seq<SymbolView>, name: Seq<char>, offset: u32)
    requires
        names_are_distinct(table),
    ensures
        with_offset(table, name, offset).len() == table.len(),
        forall|i: int|
            0 <= i < table.len() ==> (#[trigger] with_offset(table, name, offset)[i]).name
                == table[i].name,
        names_are_distinct(with_offset(table, name, offset)),
{
}

/// Declaring the same label twice reports `SymbolAlreadyDeclared` exactly
/// once for the second declaration, and the table then holds exactly one
/// symbol of that name. A label that the table already has is refused with
/// that one error, and every symbol stays as it was.
pub proof fn lemma_label_is_declared_once(
    st: AssemblerView,
    instruction: InstructionView,
    name: Seq<char>,
)
    requires
        instruction.label == Some(TokenView::LabelDeclaration { name }),
        names_are_distinct(st.symbols),
    ensures
        declare_in_section(declare_in_section(st, instruction), instruction).errors
            == declare_in_section(st, instruction).errors.push(
            AssemblerErrorView::SymbolAlreadyDeclared,
        ),
        declare_in_section(declare_in_section(st, instruction), instruction).symbols
            == declare_in_section(st, instruction).symbols,
        has_name(st.symbols, name) ==> declare_in_section(st, instruction) == st.with_error(
            AssemblerErrorView::SymbolAlreadyDeclared,
        ),
        !has_name(st.symbols, name) ==> declare_in_section(st, instruction).errors == st.errors,
        has_name(declare_in_section(st, instruction).symbols, name),
        names_are_distinct(declare_in_section(st, instruction).symbols),
        forall|i: int, j: int|
            holds_name_at(declare_in_section(st, instruction).symbols, name, i) && holds_name_at(
                declare_in_section(st, instruction).symbols,
                name,
                j,
            ) ==> i == j,
{
    let once = declare_in_section(st, instruction);
    lemma_symbol_is_added_once(
        st.symbols,
        SymbolView { name, offset: None, symbol_type: SymbolType::Label },
    );
    assert(has_name(once.symbols, name));
    assert forall|i: int, j: int|
        holds_name_at(once.symbols, name, i) && holds_name_at(once.symbols, name, j) implies i
        == j by {
        if i < j {
            assert(once.symbols[i].name != once.symbols[j].name);
        }
        if j < i {
            assert(once.symbols[j].name != once.symbols[i].name);
        }
    }
}

/// In the first pass, once a section is open, a label is declared as
/// `lemma_label_is_declared_once` says; before the first section it is
/// refused and the table stays as it was.
pub proof fn lemma_label_in_the_first_pass(st: AssemblerView, instruction: InstructionView)
    requires
        instruction.label is Some,
    ensures
        st.sections.len() > 0 ==> declare_label(st, instruction) == declare_in_section(
            st,
            instruction,
        ),
        st.sections.len() == 0 ==> declare_label(st, instruction) == st.with_error(
            AssemblerErrorView::NoSegmentDeclarationFound { instruction: st.current_instruction },
        ),
{
}

/// The second pass writes four bytes for each instruction that carries an
/// operation, and nothing else.
pub proof fn lemma_second_pass_length(st: AssemblerView, instructions: Seq<InstructionView>)
    ensures
        second_pass(st, instructions).1.len() % 4 == 0,
        second_pass(st, instructions).1.len() <= 4 * instructions.len(),
    decreases instructions.len(),
{
    if instructions.len() > 0 {
        lemma_second_pass_length(st, instructions.drop_last());
    }
}

/// The first pass never gives one name to two symbols.
pub proof fn lemma_first_pass_keeps_names_distinct(
    st: AssemblerView,
    instructions: Seq<InstructionView>,
)
    requires
        names_are_distinct(st.symbols),
    ensures
        names_are_distinct(first_pass(st, instructions).symbols),
    decreases instructions.len(),
{
    if instructions.len() > 0 {
        lemma_first_pass_keeps_names_distinct(st, instructions.drop_last());
        let before = first_pass(st, instructions.drop_last());
        let instruction = instructions.last();
        let declared = declare_label(before, instruction);
        if let Some(TokenView::LabelDeclaration { name }) = instruction.label {
            lemma_symbol_is_added_once(
                before.symbols,
                SymbolView { name, offset: None, symbol_type: SymbolType::Label },
            );
            lemma_offset_keeps_names(
                declared.symbols,
                name,
                offset_of_length(declared.ro.len()),
            );
        }
    }
}

/// The instructions of a program that carry an operation, in order.
pub open spec fn operations(instructions: Seq<InstructionView>) -> Seq<InstructionView> {
    instructions.filter(|i: InstructionView| i.opcode is Some)
}

/// The second pass leaves the symbols, the read-only data, the sections and
/// the errors as the first phase left them, so offsets are never
/// overwritten once the first phase is over. Its code is that of the
/// instructions that carry an operation, under those symbols.
pub proof fn lemma_second_pass_keeps_symbols(st: AssemblerView, instructions: Seq<InstructionView>)
    requires
        st.phase == AssemblerPhase::Second,
    ensures
        second_pass(st, instructions).0.phase == AssemblerPhase::Second,
        second_pass(st, instructions).0.symbols == st.symbols,
        second_pass(st, instructions).0.ro == st.ro,
        second_pass(st, instructions).0.sections == st.sections,
        second_pass(st, instructions).0.errors == st.errors,
        second_pass(st, instructions).1 == program_encoding(operations(instructions), st.symbols),
    decreases instructions.len(),
{
    reveal(Seq::filter);
    if instructions.len() > 0 {
        lemma_second_pass_keeps_symbols(st, instructions.drop_last());
        let chosen = operations(instructions);
        if instructions.last().opcode is Some {
            assert(chosen.drop_last() =~= operations(instructions.drop_last()));
        }
    }
}

/// An image is the header and four bytes for every instruction of the
/// program that carries an operation, and the assembler is left with the
/// symbols and the read-only data that the first phase found.
pub proof fn lemma_image_is_header_and_code(raw: Seq<char>)
    requires
        assembled(raw).1 is Ok,
    ensures
        program_at(raw, 0) is Some,
        assembled(raw).0.symbols == first_phase(
            fresh_state(),
            program_at(raw, 0).unwrap().0,
        ).symbols,
        assembled(raw).0.ro == first_phase(fresh_state(), program_at(raw, 0).unwrap().0).ro,
        assembled(raw).1 == Ok::<Seq<u8>, Seq<AssemblerErrorView>>(
            image_header() + program_encoding(
                operations(program_at(raw, 0).unwrap().0),
                assembled(raw).0.symbols,
            ),
        ),
        assembled(raw).1->Ok_0.len() == PIE_CODE_START + 4 * operations(
            program_at(raw, 0).unwrap().0,
        ).len(),
{
    let instructions = program_at(raw, 0).unwrap().0;
    let found = first_phase(fresh_state(), instructions);
    lemma_second_pass_keeps_symbols(
        AssemblerView { current_instruction: 0, ..found },
        instructions,
    );
    lemma_program_encoding_length(operations(instructions), found.symbols);
}

/// Every image that the assembler returns opens with the header prefix, and
/// the machine accepts its header. Its code starts behind the header and
/// is a whole number of instructions.
pub proof fn lemma_image_opens_with_prefix(raw: Seq<char>)
    ensures
        assembled(raw).1 matches Ok(image) ==> {
            &&& image.len() >= PIE_CODE_START
            &&& image.subrange(0, 4) == seq![0x2Du8, 0x32u8, 0x31u8, 0x2Du8]
            &&& image.subrange(0, 4) == PIE_HEADER_PREFIX@
            &&& header_is_correct(image)
            &&& (image.len() - PIE_CODE_START) % 4 == 0
        },
{
    match assembled(raw).1 {
        Ok(image) => {
            let code = image.subrange(PIE_CODE_START as int, image.len() as int);
            assert(image.len() >= 65);
            assert(image.subrange(0, 4) =~= PIE_HEADER_PREFIX@);
            assert(image.subrange(0, 4) =~= seq![0x2Du8, 0x32u8, 0x31u8, 0x2Du8]);
            assert forall|st: AssemblerView, instructions: Seq<InstructionView>|
                (#[trigger] second_pass(st, instructions)).1.len() % 4 == 0 by {
                lemma_second_pass_length(st, instructions);
            }
        },
        Err(_) => {},
    }
}

/// The instruction `load $r #v`.
pub open spec fn load_instruction(r: u8, v: i32) -> InstructionView {
    InstructionView {
        opcode: Some(TokenView::Op { code: Opcode::LOAD }),
        label: None,
        directive: None,
        operand1: Some(TokenView::Register { reg_num: r }),
        operand2: Some(TokenView::IntegerOperand { value: v }),
        operand3: None,
    }
}

/// A machine that executes the bytes written for `load $r #v` then holds
/// `v` in register `r`, for every register and every `v` from 0 to 65535.
pub proof fn lemma_load_roundtrip(s: VmState, r: u8, v: i32, symbols: Seq<SymbolView>)
    requires
        r < 32,
        0 <= v <= 65535,
        s.registers.len() == 32,
        0 <= s.pc,
        s.pc + 4 <= s.program.len(),
        s.program.subrange(s.pc, s.pc + 4) == encoding(load_instruction(r, v), symbols),
    ensures
        step(s).1 == Outcome::Continue,
        step(s).0.registers[r as int] == v,
        step(s).0.pc == s.pc + 4,
{
    let bytes = encoding(load_instruction(r, v), symbols);
    let written = opcode_bytes(load_instruction(r, v).opcode) + operand_bytes(
        load_instruction(r, v).operand1,
        symbols,
    ) + operand_bytes(load_instruction(r, v).operand2, symbols) + operand_bytes(
        load_instruction(r, v).operand3,
        symbols,
    );
    assert(written =~= seq![
        0u8,
        r,
        ((v as int % 0x1_0000) / 0x100) as u8,
        (v as int % 0x100) as u8,
    ]);
    assert(bytes =~= written);
    let window = s.program.subrange(s.pc, s.pc + 4);
    assert(window[0] == s.program[s.pc] && window[1] == s.program[s.pc + 1] && window[2]
        == s.program[s.pc + 2] && window[3] == s.program[s.pc + 3]);
    assert(s.program[s.pc] == 0u8);
    assert(s.program[s.pc + 1] == r);
    assert(s.program[s.pc + 2] == v / 256);
    assert(s.program[s.pc + 3] == v % 256);
}

} // verus!
