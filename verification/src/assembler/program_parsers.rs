//! Programs: one instruction after another.

use vstd::prelude::*;
use crate::assembler::instruction_parsers::{
    encoding,
    instruction_at,
    scan_instruction,
    AssemblerInstruction,
    InstructionView,
};
use crate::assembler::symbols::{SymbolTable, SymbolView};
use crate::assembler::NoMatch;
use crate::text::chars_of;

verus! {

/// A program: its instructions in the order of the text.
#[derive(Debug, PartialEq)]
pub struct Program {
    pub instructions: Vec<AssemblerInstruction>,
}

impl View for Program {
    type V = Seq<InstructionView>;

    open spec fn view(&self) -> Seq<InstructionView> {
        self.instructions@.map_values(|i: AssemblerInstruction| i@)
    }
}

/// The bytes that a sequence of instructions is written as: four for each,
/// in order.
pub open spec fn program_encoding(
    instructions: Seq<InstructionView>,
    symbols: Seq<SymbolView>,
) -> Seq<u8>
    decreases instructions.len(),
{
    if instructions.len() == 0 {
        Seq::empty()
    } else {
        program_encoding(instructions.drop_last(), symbols) + encoding(
            instructions.last(),
            symbols,
        )
    }
}

/// The instructions that follow one another from `pos`, up to the first
/// place where no instruction is found, and that place.
pub open spec fn instructions_from(s: Seq<char>, pos: int) -> (Seq<InstructionView>, int)
    decreases s.len() - pos,
{
    match instruction_at(s, pos) {
        Some((instruction, end)) => if pos < end <= s.len() {
            let rest = instructions_from(s, end);
            (seq![instruction] + rest.0, rest.1)
        } else {
            (Seq::empty(), pos)
        },
        None => (Seq::empty(), pos),
    }
}

/// A program at `pos`: one instruction or more. What follows the last
/// instruction is left unread.
pub open spec fn program_at(s: Seq<char>, pos: int) -> Option<(Seq<InstructionView>, int)> {
    if instructions_from(s, pos).0.len() > 0 {
        Some(instructions_from(s, pos))
    } else {
        None
    }
}

/// Whether `result` says of the text `input` what the grammar says: the
/// program, with the text that is left behind it, or no match.
pub open spec fn program_agrees_with(
    result: Result<(&str, Program), NoMatch>,
    input: Seq<char>,
    grammar: Option<(Seq<InstructionView>, int)>,
) -> bool {
    match result {
        Ok((rest, program)) => grammar == Some((program@, input.len() - rest@.len())) && rest@
            == input.subrange(input.len() - rest@.len(), input.len() as int),
        Err(_) => grammar is None,
    }
}

impl Program {
    /// The bytes that the program is written as: four for each instruction.
    pub fn to_bytes(&self, symbols: &SymbolTable) -> (bytes: Vec<u8>)
        ensures
            bytes@ == program_encoding(self@, symbols@),
    {
        let mut program: Vec<u8> = Vec::new();
        let mut i: usize = 0;
        assert(self@.take(0) =~= Seq::<InstructionView>::empty());
        while i < self.instructions.len()
            invariant
                i <= self.instructions.len(),
                self@.len() == self.instructions.len(),
                program@ == program_encoding(self@.take(i as int), symbols@),
            decreases self.instructions.len() - i,
        {
            let mut bytes = self.instructions[i].to_bytes(symbols);
            program.append(&mut bytes);
            proof {
                assert(self@.take(i + 1).drop_last() =~= self@.take(i as int));
                assert(self@.take(i + 1).last() == self.instructions[i as int]@);
            }
            i += 1;
        }
        assert(self@.take(i as int) =~= self@);
        program
    }
}

/// Scans a program from `pos`: instructions, as long as one is found.
pub(crate) fn scan_program(chars: &[char], pos: usize) -> (found: (Program, usize))
    requires
        pos <= chars.len(),
    ensures
        (found.0@, found.1 as int) == instructions_from(chars@, pos as int),
        pos <= found.1 <= chars.len(),
{
    let mut instructions: Vec<AssemblerInstruction> = Vec::new();
    let mut at = pos;
    let ghost total = instructions_from(chars@, pos as int);
    loop
        invariant
            pos <= at <= chars.len(),
            total == instructions_from(chars@, pos as int),
            total.0 == instructions@.map_values(|i: AssemblerInstruction| i@) + instructions_from(
                chars@,
                at as int,
            ).0,
            total.1 == instructions_from(chars@, at as int).1,
        ensures
            total.0 == instructions@.map_values(|i: AssemblerInstruction| i@),
            total.1 == at,
            pos <= at <= chars.len(),
        decreases chars.len() - at,
    {
        match scan_instruction(chars, at) {
            Some((instruction, end)) => {
                proof {
                    let before = instructions@.map_values(|i: AssemblerInstruction| i@);
                    let rest = instructions_from(chars@, end as int).0;
                    assert(instructions@.push(instruction).map_values(
                        |i: AssemblerInstruction| i@,
                    ) =~= before.push(instruction@));
                    assert(before + (seq![instruction@] + rest) =~= before.push(instruction@)
                        + rest);
                }
                instructions.push(instruction);
                at = end;
            },
            None => {
                assert(instructions@.map_values(|i: AssemblerInstruction| i@) + Seq::<
                    InstructionView,
                >::empty() =~= instructions@.map_values(|i: AssemblerInstruction| i@));
                break ;
            },
        }
    }
    (Program { instructions }, at)
}

/// Reads a program from the start of `input`: one instruction or more.
pub fn program(input: &str) -> (result: Result<(&str, Program), NoMatch>)
    ensures
        program_agrees_with(result, input@, program_at(input@, 0)),
{
    let chars = chars_of(input);
    let (program, end) = scan_program(chars.as_slice(), 0);
    if program.instructions.len() > 0 {
        Ok((input.substring_char(end, chars.len()), program))
    } else {
        Err(NoMatch)
    }
}

} // verus!
