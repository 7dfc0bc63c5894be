//! The virtual machine: thirty-two registers, a program counter, a heap, a
//! window of read-only data, and the loop that fetches, decodes and executes.
//!
//! What one instruction does is defined by the spec function [`step`] on the
//! mathematical state [`VmState`]; the executable machine is proved to follow
//! it. The machine never panics: an instruction that cannot be carried out
//! (a missing operand byte, a register number above 31, a division by zero)
//! leaves the state as it was and is reported as a [`Fault`].

use vstd::prelude::*;
use vstd::utf8::valid_utf8;
use crate::assembler::{PIE_CODE_START, PIE_HEADER_PREFIX};
use crate::instruction::{opcode_of_code, Opcode};

verus! {

/// The number of registers.
pub const REGISTER_COUNT: usize = 32;

/// Why an instruction could not be carried out.
#[derive(Clone, Copy, Debug, PartialEq, Eq, Structural)]
pub enum Fault {
    /// The image does not open with the header prefix.
    IncorrectHeader,
    /// The program ends before the operand bytes that the instruction reads.
    TruncatedInstruction,
    /// An operand names a register above 31.
    InvalidRegister,
    /// `DIV` with a divisor of zero.
    DivisionByZero,
    /// `JMPF` or `JMPB` to an address below zero or above what the machine
    /// can hold.
    InvalidJump,
    /// `PRTS` from an offset after which the read-only data holds no zero byte.
    UnterminatedString,
    /// `ALOC` beyond the largest heap that fits in memory.
    HeapOverflow,
}

/// How one step, or a run, ended.
#[derive(Clone, Copy, Debug, PartialEq, Eq, Structural)]
pub enum Outcome {
    /// An instruction was executed and the machine can go on.
    Continue,
    /// The program counter is at or past the end of the program.
    EndOfProgram,
    /// `HLT` was executed.
    Halted,
    /// An illegal opcode was met.
    Illegal,
    /// The instruction could not be carried out; the state is unchanged.
    Fault(Fault),
}

/// The state of the machine as a mathematical value.
pub struct VmState {
    pub registers: Seq<i32>,
    pub pc: int,
    pub program: Seq<u8>,
    pub heap: Seq<u8>,
    pub remainder: i32,
    pub equal_flag: bool,
    pub ro_data: Seq<u8>,
    pub output: Seq<u8>,
    pub undecodable: Seq<u16>,
}

/// The value in `[-2^31, 2^31)` that differs from `x` by a multiple of 2^32.
pub open spec fn wrap32(x: int) -> i32 {
    let r = x % 0x1_0000_0000;
    if r > i32::MAX {
        (r - 0x1_0000_0000) as i32
    } else {
        r as i32
    }
}

/// The quotient of `x` by `d`, rounded towards zero. `d` is not zero.
pub open spec fn quotient(x: int, d: int) -> int {
    if x >= 0 && d > 0 {
        x / d
    } else if x >= 0 {
        -(x / (-d))
    } else if d > 0 {
        -((-x) / d)
    } else {
        (-x) / (-d)
    }
}

/// What the division leaves over: it has the sign of `x`.
pub open spec fn remainder(x: int, d: int) -> int {
    x - d * quotient(x, d)
}

/// The 16-bit number whose high byte is `hi` and whose low byte is `lo`.
pub open spec fn be16(hi: u8, lo: u8) -> int {
    hi * 256 + lo
}

/// The index of the first zero byte of `data` at or after `start`, or the
/// length of `data` if there is none.
pub open spec fn terminator(data: Seq<u8>, start: int) -> int
    decreases data.len() - start,
{
    if start < 0 || start >= data.len() {
        data.len() as int
    } else if data[start] == 0 {
        start
    } else {
        terminator(data, start + 1)
    }
}

impl VmState {
    /// The operand byte `k` places after the opcode.
    pub open spec fn operand(self, k: int) -> u8 {
        self.program[self.pc + k]
    }

    /// Whether the program holds `n` operand bytes after the opcode.
    pub open spec fn has_operands(self, n: int) -> bool {
        self.pc + n < self.program.len()
    }

    /// The same state with the program counter at `pc`.
    pub open spec fn at(self, pc: int) -> VmState {
        VmState { pc, ..self }
    }

    /// The same state with `value` in register `r`.
    pub open spec fn with_register(self, r: int, value: i32) -> VmState {
        VmState { registers: self.registers.update(r, value), ..self }
    }
}

/// The instruction went through: the machine goes on from `s`.
pub open spec fn goes_on(s: VmState) -> (VmState, Outcome) {
    (s, Outcome::Continue)
}

/// The instruction is refused: the state stays as it was.
pub open spec fn refused(s: VmState, fault: Fault) -> (VmState, Outcome) {
    (s, Outcome::Fault(fault))
}

/// `LOAD`: register `a` takes the 16-bit immediate, which is never negative.
pub open spec fn step_load(s: VmState) -> (VmState, Outcome) {
    if !s.has_operands(3) {
        refused(s, Fault::TruncatedInstruction)
    } else if s.operand(1) >= REGISTER_COUNT {
        refused(s, Fault::InvalidRegister)
    } else {
        goes_on(
            s.with_register(s.operand(1) as int, be16(s.operand(2), s.operand(3)) as i32).at(
                s.pc + 4,
            ),
        )
    }
}

/// What `ADD`, `SUB`, `MUL` and `DIV` put into the target register.
pub open spec fn arithmetic_result(op: Opcode, x: i32, y: i32) -> i32 {
    match op {
        Opcode::ADD => wrap32(x + y),
        Opcode::SUB => wrap32(x - y),
        Opcode::MUL => wrap32(x * y),
        _ => wrap32(quotient(x as int, y as int)),
    }
}

/// `ADD`, `SUB`, `MUL`, `DIV`: register `c` takes the result of the operation
/// on registers `a` and `b`, wrapped to 32 bits. `DIV` also sets the
/// remainder.
pub open spec fn step_arithmetic(s: VmState, op: Opcode) -> (VmState, Outcome) {
    if !s.has_operands(3) {
        refused(s, Fault::TruncatedInstruction)
    } else if s.operand(1) >= REGISTER_COUNT || s.operand(2) >= REGISTER_COUNT || s.operand(3)
        >= REGISTER_COUNT {
        refused(s, Fault::InvalidRegister)
    } else {
        let x = s.registers[s.operand(1) as int];
        let y = s.registers[s.operand(2) as int];
        if op == Opcode::DIV && y == 0 {
            refused(s, Fault::DivisionByZero)
        } else {
            let t = s.with_register(s.operand(3) as int, arithmetic_result(op, x, y)).at(s.pc + 4);
            if op == Opcode::DIV {
                goes_on(VmState { remainder: remainder(x as int, y as int) as i32, ..t })
            } else {
                goes_on(t)
            }
        }
    }
}

/// What a comparison puts into the equal flag.
pub open spec fn comparison_result(op: Opcode, x: i32, y: i32) -> bool {
    match op {
        Opcode::EQ => x == y,
        Opcode::NEQ => x != y,
        Opcode::GT => x > y,
        Opcode::LT => x < y,
        Opcode::GTE => x >= y,
        _ => x <= y,
    }
}

/// `EQ`, `NEQ`, `GT`, `LT`, `GTE`, `LTE`: the equal flag takes the result of
/// comparing registers `a` and `b`. The third operand byte is read and
/// ignored.
pub open spec fn step_comparison(s: VmState, op: Opcode) -> (VmState, Outcome) {
    if !s.has_operands(3) {
        refused(s, Fault::TruncatedInstruction)
    } else if s.operand(1) >= REGISTER_COUNT || s.operand(2) >= REGISTER_COUNT {
        refused(s, Fault::InvalidRegister)
    } else {
        let x = s.registers[s.operand(1) as int];
        let y = s.registers[s.operand(2) as int];
        goes_on(VmState { equal_flag: comparison_result(op, x, y), pc: s.pc + 4, ..s })
    }
}

/// The address that a register names: its value, widened to the width of
/// the program counter as a cast does it. A negative value names an address
/// at the far end, which lies past every program.
pub open spec fn address_of(value: i32) -> int {
    if value < 0 {
        value + usize::MAX + 1
    } else {
        value as int
    }
}

/// Where a jump that is taken leads. `JMPF` and `JMPB` go from behind the
/// register operand, by the value of the register; the other jumps go to the
/// address that the register names.
pub open spec fn jump_target(op: Opcode, pc: int, value: i32) -> int {
    match op {
        Opcode::JMPF => pc + 2 + value,
        Opcode::JMPB => pc + 2 - value,
        _ => address_of(value),
    }
}

/// Whether a jump is taken: `JEQ` and `JNEQ` go by the equal flag.
pub open spec fn jump_taken(op: Opcode, equal_flag: bool) -> bool {
    match op {
        Opcode::JEQ => equal_flag,
        Opcode::JNEQ => !equal_flag,
        _ => true,
    }
}

/// `JMP`, `JMPF`, `JMPB`, `JEQ`, `JNEQ`: the program counter moves to the
/// target, or past the register operand if the jump is not taken. Only
/// `JMPF` and `JMPB` can miss the addresses that the machine can hold.
pub open spec fn step_jump(s: VmState, op: Opcode) -> (VmState, Outcome) {
    if !s.has_operands(1) {
        refused(s, Fault::TruncatedInstruction)
    } else if s.operand(1) >= REGISTER_COUNT {
        refused(s, Fault::InvalidRegister)
    } else if !jump_taken(op, s.equal_flag) {
        goes_on(s.at(s.pc + 2))
    } else {
        let target = jump_target(op, s.pc, s.registers[s.operand(1) as int]);
        if 0 <= target <= usize::MAX {
            goes_on(s.at(target))
        } else {
            refused(s, Fault::InvalidJump)
        }
    }
}

/// `DJMPE`: with the equal flag set the program counter moves to the 8-bit
/// immediate; otherwise one more byte is consumed.
pub open spec fn step_direct_jump(s: VmState) -> (VmState, Outcome) {
    if !s.has_operands(1) {
        refused(s, Fault::TruncatedInstruction)
    } else if s.equal_flag {
        goes_on(s.at(s.operand(1) as int))
    } else if !s.has_operands(2) {
        refused(s, Fault::TruncatedInstruction)
    } else {
        goes_on(s.at(s.pc + 3))
    }
}

/// By how many bytes `ALOC` grows the heap: a negative request grows it by
/// nothing.
pub open spec fn heap_growth(value: i32) -> int {
    if value < 0 {
        0
    } else {
        value as int
    }
}

/// `ALOC`: the heap grows by the value of register `a`, with zero bytes. No
/// heap grows beyond `isize::MAX` bytes.
pub open spec fn step_allocate(s: VmState) -> (VmState, Outcome) {
    if !s.has_operands(3) {
        refused(s, Fault::TruncatedInstruction)
    } else if s.operand(1) >= REGISTER_COUNT {
        refused(s, Fault::InvalidRegister)
    } else {
        let growth = heap_growth(s.registers[s.operand(1) as int]);
        if s.heap.len() + growth > isize::MAX {
            refused(s, Fault::HeapOverflow)
        } else {
            goes_on(
                VmState {
                    heap: s.heap + Seq::new(growth as nat, |i: int| 0u8),
                    pc: s.pc + 4,
                    ..s
                },
            )
        }
    }
}

/// `INC` and `DEC`: register `a` moves by one, wrapped to 32 bits.
pub open spec fn step_count(s: VmState, op: Opcode) -> (VmState, Outcome) {
    if !s.has_operands(3) {
        refused(s, Fault::TruncatedInstruction)
    } else if s.operand(1) >= REGISTER_COUNT {
        refused(s, Fault::InvalidRegister)
    } else {
        let r = s.operand(1) as int;
        let value = if op == Opcode::INC {
            wrap32(s.registers[r] + 1)
        } else {
            wrap32(s.registers[r] - 1)
        };
        goes_on(s.with_register(r, value).at(s.pc + 4))
    }
}

/// `NOP`: three operand bytes are consumed.
pub open spec fn step_nop(s: VmState) -> (VmState, Outcome) {
    if !s.has_operands(3) {
        refused(s, Fault::TruncatedInstruction)
    } else {
        goes_on(s.at(s.pc + 4))
    }
}

/// `PRTS`: the bytes of the read-only data from the 16-bit immediate up to
/// the next zero byte are written to the output, if they are well-formed
/// UTF-8; if they are not, nothing is written, the immediate is noted among
/// the strings that could not be decoded, and the machine goes on.
pub open spec fn step_print(s: VmState) -> (VmState, Outcome) {
    if !s.has_operands(2) {
        refused(s, Fault::TruncatedInstruction)
    } else {
        let start = be16(s.operand(1), s.operand(2));
        let end = terminator(s.ro_data, start);
        if end >= s.ro_data.len() {
            refused(s, Fault::UnterminatedString)
        } else {
            let text = s.ro_data.subrange(start, end);
            if valid_utf8(text) {
                goes_on(VmState { output: s.output + text, pc: s.pc + 3, ..s })
            } else {
                goes_on(
                    VmState { undecodable: s.undecodable.push(start as u16), pc: s.pc + 3, ..s },
                )
            }
        }
    }
}

/// One turn of the fetch-decode-execute loop: the state after it, and how it
/// ended.
pub open spec fn step(s: VmState) -> (VmState, Outcome) {
    if s.pc < 0 || s.pc >= s.program.len() {
        (s, Outcome::EndOfProgram)
    } else {
        let op = opcode_of_code(s.program[s.pc]);
        match op {
            Opcode::HLT => (s.at(s.pc + 1), Outcome::Halted),
            Opcode::IGL => (s.at(s.pc + 1), Outcome::Illegal),
            Opcode::LOAD => step_load(s),
            Opcode::ADD | Opcode::SUB | Opcode::MUL | Opcode::DIV => step_arithmetic(s, op),
            Opcode::EQ | Opcode::NEQ | Opcode::GT | Opcode::LT | Opcode::GTE | Opcode::LTE => {
                step_comparison(s, op)
            },
            Opcode::JMP | Opcode::JMPF | Opcode::JMPB | Opcode::JEQ | Opcode::JNEQ => {
                step_jump(s, op)
            },
            Opcode::DJMPE => step_direct_jump(s),
            Opcode::ALOC => step_allocate(s),
            Opcode::INC | Opcode::DEC => step_count(s, op),
            Opcode::NOP => step_nop(s),
            Opcode::PRTS => step_print(s),
        }
    }
}

/// The machine.
pub struct VM {
    /// The register file.
    pub registers: [i32; 32],
    /// The offset in `program` of the next byte to read.
    pub pc: usize,
    /// The loaded image.
    pub program: Vec<u8>,
    /// The heap, which `ALOC` grows.
    pub heap: Vec<u8>,
    /// What the last `DIV` left over.
    pub remainder: i32,
    /// The result of the last comparison.
    pub equal_flag: bool,
    /// The read-only data that `PRTS` reads, handed over beside the image.
    pub ro_data: Vec<u8>,
    /// What the program has written so far.
    pub output: Vec<u8>,
    /// Where in the read-only data the strings start that `PRTS` did not
    /// write because they are no well-formed UTF-8, for the caller to log.
    pub undecodable: Vec<u16>,
}

impl View for VM {
    type V = VmState;

    open spec fn view(&self) -> VmState {
        VmState {
            registers: self.registers@,
            pc: self.pc as int,
            program: self.program@,
            heap: self.heap@,
            remainder: self.remainder,
            equal_flag: self.equal_flag,
            ro_data: self.ro_data@,
            output: self.output@,
            undecodable: self.undecodable@,
        }
    }
}

/// The state of a machine that has just been made: every register zero,
/// nothing loaded, nothing written.
pub open spec fn initial_state() -> VmState {
    VmState {
        registers: Seq::new(32, |i: int| 0i32),
        pc: 0,
        program: Seq::empty(),
        heap: Seq::empty(),
        remainder: 0,
        equal_flag: false,
        ro_data: Seq::empty(),
        output: Seq::empty(),
        undecodable: Seq::empty(),
    }
}

/// Whether an image opens with the header prefix.
pub open spec fn header_is_correct(program: Seq<u8>) -> bool {
    program.len() >= 4 && program.subrange(0, 4) == PIE_HEADER_PREFIX@
}

/// `core::str::from_utf8`: tells whether the bytes are well-formed UTF-8,
/// which is all that the standard library's function decides.
#[verifier::external_body]
fn is_utf8(bytes: &[u8]) -> (ok: bool)
    ensures
        ok == valid_utf8(bytes@),
{
    match core::str::from_utf8(bytes) {
        Ok(_) => true,
        Err(_) => false,
    }
}

impl VM {
    /// A machine with every register zero and no program.
    pub fn new() -> (vm: VM)
        ensures
            vm@ == initial_state(),
    {
        let vm = VM {
            registers: [0; 32],
            pc: 0,
            program: Vec::new(),
            heap: Vec::new(),
            remainder: 0,
            equal_flag: false,
            ro_data: Vec::new(),
            output: Vec::new(),
            undecodable: Vec::new(),
        };
        assert(vm.registers@ =~= Seq::new(32, |i: int| 0i32));
        vm
    }

    /// Appends one byte to the program.
    pub fn add_byte(&mut self, b: u8)
        ensures
            final(self)@ == (VmState { program: old(self)@.program.push(b), ..old(self)@ }),
    {
        self.program.push(b);
    }

    /// Appends bytes to the program.
    pub fn add_bytes(&mut self, b: Vec<u8>)
        ensures
            final(self)@ == (VmState { program: old(self)@.program + b@, ..old(self)@ }),
    {
        let mut b = b;
        self.program.append(&mut b);
    }

    /// Whether the program opens with the header prefix.
    pub fn verify_header(&self) -> (ok: bool)
        ensures
            ok == header_is_correct(self@.program),
    {
        if self.program.len() < 4 {
            return false;
        }
        let ok = self.program[0] == PIE_HEADER_PREFIX[0] && self.program[1] == PIE_HEADER_PREFIX[1]
            && self.program[2] == PIE_HEADER_PREFIX[2] && self.program[3] == PIE_HEADER_PREFIX[3];
        proof {
            let head = self.program@.subrange(0, 4);
            if ok {
                assert(head =~= PIE_HEADER_PREFIX@);
            } else {
                assert(head[0] == self.program@[0] && head[1] == self.program@[1] && head[2]
                    == self.program@[2] && head[3] == self.program@[3]);
            }
        }
        ok
    }
}

/// A value that fits in 32 bits is left alone by wrapping.
pub proof fn lemma_wrap32_in_range(x: int)
    requires
        i32::MIN <= x <= i32::MAX,
    ensures
        wrap32(x) == x,
{
}

/// Wrapping a sum or a difference of two registers takes at most one
/// correction by 2^32.
proof fn lemma_wrap32_near(x: int)
    requires
        -0x1_0000_0000 <= x < 0x1_0000_0000,
    ensures
        x > i32::MAX ==> wrap32(x) == x - 0x1_0000_0000,
        x < i32::MIN ==> wrap32(x) == x + 0x1_0000_0000,
{
}

/// The absolute value.
pub open spec fn magnitude(x: int) -> int {
    if x < 0 {
        -x
    } else {
        x
    }
}

/// The quotient and the remainder, from those of the absolute values.
proof fn lemma_division_by_sizes(x: int, d: int)
    requires
        d != 0,
    ensures
        0 <= magnitude(x) / magnitude(d) <= magnitude(x),
        0 <= magnitude(x) % magnitude(d) < magnitude(d),
        quotient(x, d) == if (x < 0) != (d < 0) {
            -(magnitude(x) / magnitude(d))
        } else {
            magnitude(x) / magnitude(d)
        },
        remainder(x, d) == if x < 0 {
            -(magnitude(x) % magnitude(d))
        } else {
            magnitude(x) % magnitude(d)
        },
{
    let sx = magnitude(x);
    let sd = magnitude(d);
    let q = sx / sd;
    let m = sx % sd;
    vstd::arithmetic::div_mod::lemma_fundamental_div_mod(sx, sd);
    vstd::arithmetic::div_mod::lemma_div_pos_is_pos(sx, sd);
    vstd::arithmetic::div_mod::lemma_div_is_ordered_by_denominator(sx, 1, sd);
    vstd::arithmetic::div_mod::lemma_div_basics(sx);
    vstd::arithmetic::div_mod::lemma_mod_pos_bound(sx, sd);
    assert(sx == sd * q + m);
    let sq = if (x < 0) != (d < 0) { -q } else { q };
    assert(sq == quotient(x, d));
    let sm = if x < 0 { -m } else { m };
    assert(sm == x - d * sq) by (nonlinear_arith)
        requires
            sx == sd * q + m,
            sx == magnitude(x),
            sd == magnitude(d),
            sq == if (x < 0) != (d < 0) { -q } else { q },
            sm == if x < 0 { -m } else { m },
    ;
}

/// The quotient and the remainder of two registers.
fn divide(x: i32, y: i32) -> (r: (i32, i32))
    requires
        y != 0,
    ensures
        r.0 == wrap32(quotient(x as int, y as int)),
        r.1 == remainder(x as int, y as int),
{
    let wide_x: i64 = x as i64;
    let wide_y: i64 = y as i64;
    let size_x: i64 = if wide_x < 0 { -wide_x } else { wide_x };
    let size_y: i64 = if wide_y < 0 { -wide_y } else { wide_y };
    let q: i64 = size_x / size_y;
    let m: i64 = size_x % size_y;
    proof {
        lemma_division_by_sizes(x as int, y as int);
    }
    let signed_q: i64 = if (wide_x < 0) != (wide_y < 0) { -q } else { q };
    let signed_m: i64 = if wide_x < 0 { -m } else { m };
    let value: i32 = if signed_q > 0x7fff_ffff { i32::MIN } else { signed_q as i32 };
    (value, signed_m as i32)
}

impl VM {
    /// Whether the program holds `n` more bytes after the one at the program
    /// counter.
    fn has_operands(&self, n: usize) -> (b: bool)
        requires
            n <= 3,
            self.pc < self.program.len(),
        ensures
            b == self@.has_operands(n as int),
    {
        self.program.len() - self.pc > n
    }

    /// Reads the opcode at the program counter and moves past it.
    fn decode_opcode(&mut self) -> (op: Opcode)
        requires
            old(self).pc < old(self).program.len(),
        ensures
            op == opcode_of_code(old(self).program[old(self).pc as int]),
            final(self)@ == old(self)@.at(old(self).pc + 1),
    {
        let op = Opcode::from(self.program[self.pc]);
        self.pc += 1;
        op
    }

    /// Reads the byte at the program counter and moves past it.
    fn next_8_bits(&mut self) -> (b: u8)
        requires
            old(self).pc < old(self).program.len(),
        ensures
            b == old(self).program[old(self).pc as int],
            final(self)@ == old(self)@.at(old(self).pc + 1),
    {
        let result = self.program[self.pc];
        self.pc += 1;
        result
    }

    /// Reads the two bytes at the program counter as one number, high byte
    /// first, and moves past them.
    fn next_16_bits(&mut self) -> (n: u16)
        requires
            old(self).pc + 1 < old(self).program.len(),
        ensures
            n == be16(old(self).program[old(self).pc as int], old(self).program[old(self).pc + 1]),
            final(self)@ == old(self)@.at(old(self).pc + 2),
    {
        let hi: u16 = self.program[self.pc] as u16;
        let lo: u16 = self.program[self.pc + 1] as u16;
        self.pc += 2;
        hi * 256 + lo
    }
}

impl VM {
    /// `LOAD`, after the opcode has been read.
    fn run_load(&mut self) -> (outcome: Outcome)
        requires
            0 < old(self).pc <= old(self).program.len(),
        ensures
            (final(self)@, outcome) == step_load(old(self)@.at(old(self).pc - 1)),
    {
        let start = self.pc - 1;
        if self.program.len() - start <= 3 {
            self.pc = start;
            return Outcome::Fault(Fault::TruncatedInstruction);
        }
        let register = self.next_8_bits() as usize;
        let number = self.next_16_bits();
        if register >= REGISTER_COUNT {
            self.pc = start;
            return Outcome::Fault(Fault::InvalidRegister);
        }
        self.registers[register] = number as i32;
        assert(self@ =~= step_load(old(self)@.at(start as int)).0);
        Outcome::Continue
    }

    /// `ADD`, `SUB`, `MUL`, `DIV`, after the opcode has been read.
    fn run_arithmetic(&mut self, op: Opcode) -> (outcome: Outcome)
        requires
            0 < old(self).pc <= old(self).program.len(),
            op == Opcode::ADD || op == Opcode::SUB || op == Opcode::MUL || op == Opcode::DIV,
        ensures
            (final(self)@, outcome) == step_arithmetic(old(self)@.at(old(self).pc - 1), op),
    {
        let start = self.pc - 1;
        if self.program.len() - start <= 3 {
            self.pc = start;
            return Outcome::Fault(Fault::TruncatedInstruction);
        }
        let a = self.next_8_bits() as usize;
        let b = self.next_8_bits() as usize;
        let c = self.next_8_bits() as usize;
        if a >= REGISTER_COUNT || b >= REGISTER_COUNT || c >= REGISTER_COUNT {
            self.pc = start;
            return Outcome::Fault(Fault::InvalidRegister);
        }
        let x = self.registers[a];
        let y = self.registers[b];
        match op {
            Opcode::ADD => {
                proof {
                    lemma_wrap32_near(x + y);
                }
                self.registers[c] = x.wrapping_add(y);
            },
            Opcode::SUB => {
                proof {
                    lemma_wrap32_near(x - y);
                }
                self.registers[c] = x.wrapping_sub(y);
            },
            Opcode::MUL => {
                self.registers[c] = x.wrapping_mul(y);
            },
            _ => {
                if y == 0 {
                    self.pc = start;
                    return Outcome::Fault(Fault::DivisionByZero);
                }
                let (q, m) = divide(x, y);
                self.registers[c] = q;
                self.remainder = m;
            },
        }
        assert(self@ =~= step_arithmetic(old(self)@.at(start as int), op).0);
        Outcome::Continue
    }

    /// The comparisons, after the opcode has been read.
    fn run_comparison(&mut self, op: Opcode) -> (outcome: Outcome)
        requires
            0 < old(self).pc <= old(self).program.len(),
        ensures
            (final(self)@, outcome) == step_comparison(old(self)@.at(old(self).pc - 1), op),
    {
        let start = self.pc - 1;
        if self.program.len() - start <= 3 {
            self.pc = start;
            return Outcome::Fault(Fault::TruncatedInstruction);
        }
        let a = self.next_8_bits() as usize;
        let b = self.next_8_bits() as usize;
        if a >= REGISTER_COUNT || b >= REGISTER_COUNT {
            self.pc = start;
            return Outcome::Fault(Fault::InvalidRegister);
        }
        let x = self.registers[a];
        let y = self.registers[b];
        self.equal_flag = match op {
            Opcode::EQ => x == y,
            Opcode::NEQ => x != y,
            Opcode::GT => x > y,
            Opcode::LT => x < y,
            Opcode::GTE => x >= y,
            _ => x <= y,
        };
        self.next_8_bits();
        Outcome::Continue
    }

    /// The jumps through a register, after the opcode has been read.
    fn run_jump(&mut self, op: Opcode) -> (outcome: Outcome)
        requires
            0 < old(self).pc <= old(self).program.len(),
        ensures
            (final(self)@, outcome) == step_jump(old(self)@.at(old(self).pc - 1), op),
    {
        let start = self.pc - 1;
        if self.program.len() - start <= 1 {
            self.pc = start;
            return Outcome::Fault(Fault::TruncatedInstruction);
        }
        let r = self.next_8_bits() as usize;
        if r >= REGISTER_COUNT {
            self.pc = start;
            return Outcome::Fault(Fault::InvalidRegister);
        }
        let value = self.registers[r];
        let taken = match op {
            Opcode::JEQ => self.equal_flag,
            Opcode::JNEQ => !self.equal_flag,
            _ => true,
        };
        if !taken {
            return Outcome::Continue;
        }
        let target: Option<usize> = match op {
            Opcode::JMPF => if value >= 0 {
                self.pc.checked_add(value as usize)
            } else {
                self.pc.checked_sub((-(value as i64)) as usize)
            },
            Opcode::JMPB => if value >= 0 {
                self.pc.checked_sub(value as usize)
            } else {
                self.pc.checked_add((-(value as i64)) as usize)
            },
            _ => if value >= 0 {
                Some(value as usize)
            } else {
                Some(usize::MAX - ((-(value as i64)) as usize - 1))
            },
        };
        match target {
            Some(pc) => {
                self.pc = pc;
                Outcome::Continue
            },
            None => {
                self.pc = start;
                Outcome::Fault(Fault::InvalidJump)
            },
        }
    }

    /// `DJMPE`, after the opcode has been read.
    fn run_direct_jump(&mut self) -> (outcome: Outcome)
        requires
            0 < old(self).pc <= old(self).program.len(),
        ensures
            (final(self)@, outcome) == step_direct_jump(old(self)@.at(old(self).pc - 1)),
    {
        let start = self.pc - 1;
        if self.program.len() - start <= 1 {
            self.pc = start;
            return Outcome::Fault(Fault::TruncatedInstruction);
        }
        let destination = self.next_8_bits();
        if self.equal_flag {
            self.pc = destination as usize;
        } else if self.pc < self.program.len() {
            self.next_8_bits();
        } else {
            self.pc = start;
            return Outcome::Fault(Fault::TruncatedInstruction);
        }
        Outcome::Continue
    }

    /// `ALOC`, after the opcode has been read.
    fn run_allocate(&mut self) -> (outcome: Outcome)
        requires
            0 < old(self).pc <= old(self).program.len(),
        ensures
            (final(self)@, outcome) == step_allocate(old(self)@.at(old(self).pc - 1)),
    {
        let start = self.pc - 1;
        if self.program.len() - start <= 3 {
            self.pc = start;
            return Outcome::Fault(Fault::TruncatedInstruction);
        }
        let r = self.next_8_bits() as usize;
        if r >= REGISTER_COUNT {
            self.pc = start;
            return Outcome::Fault(Fault::InvalidRegister);
        }
        let bytes = self.registers[r];
        let growth: usize = if bytes < 0 { 0 } else { bytes as usize };
        let new_end: Option<usize> = match self.heap.len().checked_add(growth) {
            Some(end) => if end > isize::MAX as usize {
                None
            } else {
                Some(end)
            },
            None => None,
        };
        match new_end {
            Some(new_end) => {
                self.heap.resize(new_end, 0);
                self.next_8_bits();
                self.next_8_bits();
                assert(self.heap@ =~= old(self).heap@ + Seq::new(growth as nat, |i: int| 0u8));
                Outcome::Continue
            },
            None => {
                self.pc = start;
                Outcome::Fault(Fault::HeapOverflow)
            },
        }
    }

    /// `INC` and `DEC`, after the opcode has been read.
    fn run_count(&mut self, op: Opcode) -> (outcome: Outcome)
        requires
            0 < old(self).pc <= old(self).program.len(),
        ensures
            (final(self)@, outcome) == step_count(old(self)@.at(old(self).pc - 1), op),
    {
        let start = self.pc - 1;
        if self.program.len() - start <= 3 {
            self.pc = start;
            return Outcome::Fault(Fault::TruncatedInstruction);
        }
        let r = self.next_8_bits() as usize;
        if r >= REGISTER_COUNT {
            self.pc = start;
            return Outcome::Fault(Fault::InvalidRegister);
        }
        let value = self.registers[r];
        proof {
            lemma_wrap32_near(value + 1);
            lemma_wrap32_near(value - 1);
        }
        self.registers[r] = match op {
            Opcode::INC => value.wrapping_add(1),
            _ => value.wrapping_sub(1),
        };
        self.next_8_bits();
        self.next_8_bits();
        assert(self@ =~= step_count(old(self)@.at(start as int), op).0);
        Outcome::Continue
    }

    /// `NOP`, after the opcode has been read.
    fn run_nop(&mut self) -> (outcome: Outcome)
        requires
            0 < old(self).pc <= old(self).program.len(),
        ensures
            (final(self)@, outcome) == step_nop(old(self)@.at(old(self).pc - 1)),
    {
        let start = self.pc - 1;
        if self.program.len() - start <= 3 {
            self.pc = start;
            return Outcome::Fault(Fault::TruncatedInstruction);
        }
        self.next_8_bits();
        self.next_8_bits();
        self.next_8_bits();
        Outcome::Continue
    }

    /// `PRTS`, after the opcode has been read.
    fn run_print(&mut self) -> (outcome: Outcome)
        requires
            0 < old(self).pc <= old(self).program.len(),
        ensures
            (final(self)@, outcome) == step_print(old(self)@.at(old(self).pc - 1)),
    {
        let start = self.pc - 1;
        if self.program.len() - start <= 2 {
            self.pc = start;
            return Outcome::Fault(Fault::TruncatedInstruction);
        }
        let immediate = self.next_16_bits();
        let starting_point = immediate as usize;
        let mut ending_offset = starting_point;
        while ending_offset < self.ro_data.len() && self.ro_data[ending_offset] != 0
            invariant
                starting_point <= ending_offset,
                terminator(self.ro_data@, starting_point as int) == terminator(
                    self.ro_data@,
                    ending_offset as int,
                ),
            decreases self.ro_data.len() - ending_offset,
        {
            ending_offset += 1;
        }
        if ending_offset >= self.ro_data.len() {
            self.pc = start;
            return Outcome::Fault(Fault::UnterminatedString);
        }
        let text = vstd::slice::slice_subrange(
            self.ro_data.as_slice(),
            starting_point,
            ending_offset,
        );
        if is_utf8(text) {
            self.output.extend_from_slice(text);
            assert(self.output@ =~= old(self).output@ + text@);
        } else {
            self.undecodable.push(immediate);
        }
        Outcome::Continue
    }

    /// Executes the instruction at the program counter and says how that
    /// ended. At or past the end of the program nothing is executed.
    pub fn step(&mut self) -> (outcome: Outcome)
        ensures
            (final(self)@, outcome) == step(old(self)@),
    {
        if self.pc >= self.program.len() {
            return Outcome::EndOfProgram;
        }
        let op = self.decode_opcode();
        match op {
            Opcode::HLT => Outcome::Halted,
            Opcode::IGL => Outcome::Illegal,
            Opcode::LOAD => self.run_load(),
            Opcode::ADD | Opcode::SUB | Opcode::MUL | Opcode::DIV => self.run_arithmetic(op),
            Opcode::EQ | Opcode::NEQ | Opcode::GT | Opcode::LT | Opcode::GTE | Opcode::LTE => {
                self.run_comparison(op)
            },
            Opcode::JMP | Opcode::JMPF | Opcode::JMPB | Opcode::JEQ | Opcode::JNEQ => {
                self.run_jump(op)
            },
            Opcode::DJMPE => self.run_direct_jump(),
            Opcode::ALOC => self.run_allocate(),
            Opcode::INC | Opcode::DEC => self.run_count(op),
            Opcode::NOP => self.run_nop(),
            Opcode::PRTS => self.run_print(),
        }
    }

    /// Executes one instruction. Returns `true` when the machine is done:
    /// at the end of the program, after `HLT`, on an illegal opcode and on a
    /// fault.
    pub fn execute_instructions(&mut self) -> (done: bool)
        ensures
            final(self)@ == step(old(self)@).0,
            done == (step(old(self)@).1 != Outcome::Continue),
    {
        match self.step() {
            Outcome::Continue => false,
            _ => true,
        }
    }

    /// Executes one instruction.
    pub fn run_once(&mut self)
        ensures
            final(self)@ == step(old(self)@).0,
    {
        self.step();
    }

    /// Checks the header, moves to the first instruction and executes until
    /// the machine is done or `max_steps` instructions have been executed.
    /// `Outcome::Continue` says that the budget ran out first.
    pub fn run(&mut self, max_steps: usize) -> (outcome: Outcome)
        ensures
            (final(self)@, outcome) == run(old(self)@, max_steps as nat),
    {
        if !self.verify_header() {
            return Outcome::Fault(Fault::IncorrectHeader);
        }
        self.pc = PIE_CODE_START;
        self.resume(max_steps)
    }

    /// Executes from where the machine stands until it is done or
    /// `max_steps` instructions have been executed. `Outcome::Continue` says
    /// that the budget ran out first; the next call goes on from there.
    pub fn resume(&mut self, max_steps: usize) -> (outcome: Outcome)
        ensures
            (final(self)@, outcome) == run_from(old(self)@, max_steps as nat),
    {
        let mut left = max_steps;
        while left > 0
            invariant
                run_from(self@, left as nat) == run_from(old(self)@, max_steps as nat),
            decreases left,
        {
            let outcome = self.step();
            if outcome != Outcome::Continue {
                return outcome;
            }
            left -= 1;
        }
        Outcome::Continue
    }
}

/// The machine after at most `fuel` steps from `s`, and how the last of them
/// ended.
pub open spec fn run_from(s: VmState, fuel: nat) -> (VmState, Outcome)
    decreases fuel,
{
    if fuel == 0 {
        (s, Outcome::Continue)
    } else if step(s).1 != Outcome::Continue {
        step(s)
    } else {
        run_from(step(s).0, (fuel - 1) as nat)
    }
}

/// A run of at most `fuel` steps: refused if the header is not correct, else
/// started at the first instruction.
pub open spec fn run(s: VmState, fuel: nat) -> (VmState, Outcome) {
    if header_is_correct(s.program) {
        run_from(s.at(PIE_CODE_START as int), fuel)
    } else {
        (s, Outcome::Fault(Fault::IncorrectHeader))
    }
}

/// The opcodes that neither jump nor stop nor print.
pub open spec fn is_straight_line(op: Opcode) -> bool {
    match op {
        Opcode::LOAD
        | Opcode::ADD
        | Opcode::SUB
        | Opcode::MUL
        | Opcode::DIV
        | Opcode::EQ
        | Opcode::NEQ
        | Opcode::GT
        | Opcode::LT
        | Opcode::GTE
        | Opcode::LTE
        | Opcode::ALOC
        | Opcode::INC
        | Opcode::DEC
        | Opcode::NOP => true,
        _ => false,
    }
}

/// An instruction that neither jumps nor stops nor prints either goes
/// through, and then the program counter has advanced by exactly four, or it
/// is refused with a fault.
pub proof fn lemma_straight_line_advances_by_four(s: VmState)
    requires
        0 <= s.pc < s.program.len(),
        is_straight_line(opcode_of_code(s.program[s.pc])),
    ensures
        step(s).1 == Outcome::Continue || step(s).1 is Fault,
        step(s).1 == Outcome::Continue ==> step(s).0.pc == s.pc + 4,
{
}

/// A step that ends in a fault, or that finds the program counter at the end
/// of the program, changes nothing.
pub proof fn lemma_refused_step_changes_nothing(s: VmState)
    requires
        step(s).1 is Fault || step(s).1 == Outcome::EndOfProgram,
    ensures
        step(s).0 == s,
{
}

/// A step never touches the program or the read-only data; what has been
/// written stays written, the heap never shrinks, and the registers stay as
/// many as they were.
pub proof fn lemma_step_keeps_program(s: VmState)
    requires
        s.registers.len() == REGISTER_COUNT,
    ensures
        step(s).0.program == s.program,
        step(s).0.ro_data == s.ro_data,
        s.output.is_prefix_of(step(s).0.output),
        s.undecodable.is_prefix_of(step(s).0.undecodable),
        s.heap.is_prefix_of(step(s).0.heap),
        step(s).0.registers.len() == s.registers.len(),
{
}

/// A step ends at the end of the program exactly where the program counter
/// is at or past it, in `Halted` exactly on `HLT`, and in `Illegal` exactly
/// on a byte that names no operation. So a step that meets no fault is the
/// last one exactly in these three cases.
pub proof fn lemma_what_ends_a_run(s: VmState)
    requires
        0 <= s.pc,
    ensures
        step(s).1 == Outcome::EndOfProgram <==> s.pc >= s.program.len(),
        step(s).1 == Outcome::Halted <==> s.pc < s.program.len() && opcode_of_code(
            s.program[s.pc],
        ) == Opcode::HLT,
        step(s).1 == Outcome::Illegal <==> s.pc < s.program.len() && opcode_of_code(
            s.program[s.pc],
        ) == Opcode::IGL,
        !(step(s).1 is Fault) ==> (step(s).1 != Outcome::Continue <==> s.pc >= s.program.len()
            || opcode_of_code(s.program[s.pc]) == Opcode::HLT || opcode_of_code(s.program[s.pc])
            == Opcode::IGL),
{
}

/// A jump to the address that a register names never faults: `JMP`, and
/// `JEQ` and `JNEQ` when taken, go on with the program counter at that
/// address, whatever the sign of the register.
pub proof fn lemma_jump_to_register_goes_on(s: VmState)
    requires
        0 <= s.pc,
        s.pc + 1 < s.program.len(),
        s.registers.len() == REGISTER_COUNT,
        s.program[s.pc + 1] < REGISTER_COUNT,
        ({
            let op = opcode_of_code(s.program[s.pc]);
            op == Opcode::JMP || (op == Opcode::JEQ && s.equal_flag) || (op == Opcode::JNEQ
                && !s.equal_flag)
        }),
    ensures
        step(s).1 == Outcome::Continue,
        step(s).0 == s.at(address_of(s.registers[s.program[s.pc + 1] as int])),
{
}

} // verus!
