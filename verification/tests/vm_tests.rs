use synthia::assembler::{PIE_HEADER_LENGTH, PIE_HEADER_PREFIX};
use synthia::vm::{Fault, Outcome, VM};

fn get_test_vm() -> VM {
    let mut test_vm = VM::new();
    test_vm.registers[0] = 5;
    test_vm.registers[1] = 10;
    test_vm.pc = 64;
    test_vm
}

fn prepend_header(mut b: Vec<u8>) -> Vec<u8> {
    let mut prepension = vec![];
    for byte in PIE_HEADER_PREFIX.into_iter() {
        prepension.push(byte.clone());
    }
    while prepension.len() < PIE_HEADER_LENGTH {
        prepension.push(0);
    }
    prepension.append(&mut b);
    prepension
}

#[test]
fn test_create_vm() {
    let test_vm = VM::new();
    assert_eq!(test_vm.registers[0], 0)
}

#[test]
fn test_opcode_hlt() {
    let mut test_vm = VM::new();
    let test_bytes = vec![5, 0, 0, 0];
    test_vm.program = test_bytes;
    test_vm.run_once();
    assert_eq!(test_vm.pc, 1);
}

#[test]
fn test_opcode_igl() {
    let mut test_vm = VM::new();
    let test_bytes = vec![200, 0, 0, 0];
    test_vm.program = test_bytes;
    test_vm.run_once();
    assert_eq!(test_vm.pc, 1);
}

#[test]
fn test_load_opcode() {
    let mut test_vm = get_test_vm();
    test_vm.program = vec![0, 0, 1, 244];
    test_vm.program = prepend_header(test_vm.program);
    test_vm.run_once();
    assert_eq!(test_vm.registers[0], 500);
}

#[test]
fn test_add_opcode() {
    let mut test_vm = get_test_vm();
    test_vm.program = vec![1, 0, 1, 2];
    test_vm.program = prepend_header(test_vm.program);
    println!("{:?}", &test_vm.program);
    test_vm.run_once();
    assert_eq!(test_vm.registers[2], 15);
}

#[test]
fn test_sub_opcode() {
    let mut test_vm = get_test_vm();
    test_vm.program = vec![2, 1, 0, 2];
    test_vm.program = prepend_header(test_vm.program);
    test_vm.run_once();
    assert_eq!(test_vm.registers[2], 5);
}

#[test]
fn test_mul_opcode() {
    let mut test_vm = get_test_vm();
    test_vm.program = vec![3, 0, 1, 2];
    test_vm.program = prepend_header(test_vm.program);
    test_vm.run_once();
    assert_eq!(test_vm.registers[2], 50);
}

#[test]
fn test_div_opcode() {
    let mut test_vm = get_test_vm();
    test_vm.program = vec![4, 1, 0, 2];
    test_vm.program = prepend_header(test_vm.program);
    test_vm.run_once();
    assert_eq!(test_vm.registers[2], 2);
}

#[test]
fn test_jmp_opcode() {
    let mut test_vm = get_test_vm();
    test_vm.registers[0] = 4;
    test_vm.program = vec![6, 0, 0, 0];
    test_vm.program = prepend_header(test_vm.program);
    test_vm.run_once();
    assert_eq!(test_vm.pc, 4);
}

#[test]
fn test_jmpf_opcode() {
    let mut test_vm = get_test_vm();
    test_vm.registers[0] = 2;
    test_vm.program = vec![7, 0, 0, 0, 6, 0, 0, 0];
    test_vm.program = prepend_header(test_vm.program);
    test_vm.run_once();
    assert_eq!(test_vm.pc, 4 + 64);
}

#[test]
fn test_jmpb_opcode() {
    let mut test_vm = get_test_vm();
    test_vm.registers[1] = 6;
    test_vm.program = vec![0, 0, 0, 10, 9, 1, 0, 0];
    test_vm.program = prepend_header(test_vm.program);
    test_vm.run_once();
    assert_eq!(test_vm.pc, 0 + 68);
}

#[test]
fn test_eq_opcode() {
    let mut test_vm = get_test_vm();
    test_vm.registers[0] = 10;
    test_vm.registers[1] = 10;
    test_vm.program = vec![10, 0, 1, 0, 10, 0, 1, 0];
    test_vm.program = prepend_header(test_vm.program);
    test_vm.run_once();
    assert_eq!(test_vm.equal_flag, true);
    test_vm.registers[1] = 20;
    test_vm.run_once();
    assert_eq!(test_vm.equal_flag, false);
}

#[test]
fn test_neq_opcode() {
    let mut test_vm = get_test_vm();
    test_vm.registers[0] = 10;
    test_vm.registers[1] = 11;
    test_vm.program = vec![11, 0, 1, 0, 11, 0, 1, 0];
    test_vm.program = prepend_header(test_vm.program);
    test_vm.run_once();
    assert_eq!(test_vm.equal_flag, true);
    test_vm.registers[1] = 10;
    test_vm.run_once();
    assert_eq!(test_vm.equal_flag, false);
}

#[test]
fn test_gt_opcode() {
    let mut test_vm = get_test_vm();
    test_vm.registers[0] = 20;
    test_vm.registers[1] = 10;
    test_vm.program = vec![12, 0, 1, 0, 12, 0, 1, 0, 12, 0, 1, 0];
    test_vm.program = prepend_header(test_vm.program);
    test_vm.run_once();
    assert_eq!(test_vm.equal_flag, true);
    test_vm.registers[0] = 10;
    test_vm.run_once();
    assert_eq!(test_vm.equal_flag, false);
    test_vm.registers[0] = 5;
    test_vm.run_once();
    assert_eq!(test_vm.equal_flag, false);
}

#[test]
fn test_lt_opcode() {
    let mut test_vm = get_test_vm();
    test_vm.registers[0] = 10;
    test_vm.registers[1] = 9;
    test_vm.program = vec![13, 0, 1, 0, 13, 0, 1, 0];
    test_vm.program = prepend_header(test_vm.program);
    test_vm.run_once();
    assert_eq!(test_vm.equal_flag, false);
    test_vm.registers[1] = 10;
    test_vm.run_once();
    assert_eq!(test_vm.equal_flag, false);
}

#[test]
fn test_gtq_opcode() {
    let mut test_vm = get_test_vm();
    test_vm.registers[0] = 10;
    test_vm.registers[1] = 20;
    test_vm.program = vec![14, 0, 1, 0, 14, 0, 1, 0, 14, 0, 1, 0];
    test_vm.program = prepend_header(test_vm.program);
    test_vm.run_once();
    assert_eq!(test_vm.equal_flag, false);
    test_vm.registers[1] = 10;
    test_vm.run_once();
    assert_eq!(test_vm.equal_flag, true);
    test_vm.registers[1] = 5;
    test_vm.run_once();
    assert_eq!(test_vm.equal_flag, true);
}

#[test]
fn test_ltq_opcode() {
    let mut test_vm = get_test_vm();
    test_vm.registers[0] = 20;
    test_vm.registers[1] = 10;
    test_vm.program = vec![15, 0, 1, 0, 15, 0, 1, 0, 15, 0, 1, 0];
    test_vm.program = prepend_header(test_vm.program);
    test_vm.run_once();
    assert_eq!(test_vm.equal_flag, false);
    test_vm.registers[0] = 5;
    test_vm.run_once();
    assert_eq!(test_vm.equal_flag, true);
    test_vm.registers[0] = 10;
    test_vm.run_once();
    assert_eq!(test_vm.equal_flag, true);
}

#[test]
fn test_jeq_opcode() {
    let mut test_vm = get_test_vm();
    test_vm.registers[0] = 7;
    test_vm.equal_flag = true;
    test_vm.program = vec![16, 0, 0, 0, 6, 0, 0, 0];
    test_vm.program = prepend_header(test_vm.program);
    test_vm.run_once();
    assert_eq!(test_vm.pc, 7);
}

#[test]
fn test_jneq_opcode() {
    let mut test_vm = get_test_vm();
    test_vm.registers[0] = 7;
    test_vm.equal_flag = false;
    test_vm.program = vec![17, 0, 0, 0, 6, 0, 0, 0];
    test_vm.program = prepend_header(test_vm.program);
    test_vm.run_once();
    assert_eq!(test_vm.pc, 7);
}

#[test]
fn test_aloc_opcode() {
    let mut test_vm = get_test_vm();
    test_vm.registers[0] = 1024;
    test_vm.program = vec![18, 0, 0, 0];
    test_vm.program = prepend_header(test_vm.program);
    test_vm.run_once();
    assert_eq!(test_vm.heap.len(), 1024);
}

// The instruction stands at offset 5 of the program, where the program
// counter points; what it prints is collected in `output`.
#[test]
fn test_prts_opcode() {
    let mut test_vm = get_test_vm();
    test_vm.pc = 5;
    test_vm.ro_data.append(&mut vec![72, 101, 108, 108, 111, 0]);
    test_vm.program = vec![0, 0, 0, 0, 0, 23, 0, 0, 0];
    test_vm.run_once();
    let output_str = std::str::from_utf8(&test_vm.output).expect("Invalid output buffer");
    println!("{:?} test", &test_vm.output);
    assert_eq!(output_str, "Hello");
}

#[test]
fn jmpb_goes_back_from_behind_its_operand() {
    let mut test_vm = get_test_vm();
    test_vm.registers[1] = 6;
    test_vm.program = prepend_header(vec![0, 0, 0, 10, 9, 1, 0, 0]);
    assert_eq!(test_vm.step(), Outcome::Continue);
    assert_eq!(test_vm.pc, 68);
    assert_eq!(test_vm.step(), Outcome::Continue);
    assert_eq!(test_vm.pc, 70 - 6);
}

#[test]
fn step_reports_how_it_ended() {
    let mut vm = VM::new();
    assert_eq!(vm.step(), Outcome::EndOfProgram);
    vm.program = vec![22, 0, 0, 0, 5, 0, 0, 0, 8];
    assert_eq!(vm.step(), Outcome::Continue);
    assert_eq!(vm.pc, 4);
    assert_eq!(vm.step(), Outcome::Halted);
    assert_eq!(vm.pc, 5);
    vm.pc = 8;
    assert_eq!(vm.step(), Outcome::Illegal);
    assert_eq!(vm.pc, 9);
    assert_eq!(vm.step(), Outcome::EndOfProgram);
    assert_eq!(vm.pc, 9);
}

#[test]
fn execute_instructions_says_when_done() {
    let mut vm = VM::new();
    vm.program = vec![19, 3, 0, 0, 5, 0, 0, 0];
    assert_eq!(vm.execute_instructions(), false);
    assert_eq!(vm.registers[3], 1);
    assert_eq!(vm.execute_instructions(), true);
    assert_eq!(vm.execute_instructions(), true);
}

#[test]
fn straight_line_opcodes_advance_by_four() {
    for code in [0u8, 1, 2, 3, 4, 10, 11, 12, 13, 14, 15, 18, 19, 20, 22] {
        let mut vm = VM::new();
        vm.registers[1] = 3;
        vm.registers[2] = 7;
        vm.program = vec![0, 0, code, 1, 2, 3, 0, 0];
        vm.pc = 2;
        assert_eq!(vm.step(), Outcome::Continue, "opcode {}", code);
        assert_eq!(vm.pc, 6, "opcode {}", code);
    }
}

#[test]
fn arithmetic_wraps() {
    let mut vm = VM::new();
    vm.registers[0] = i32::MAX;
    vm.registers[1] = 1;
    vm.program = vec![1, 0, 1, 2, 2, 2, 1, 3, 3, 0, 0, 4, 19, 0, 0, 0, 20, 2, 0, 0];
    assert_eq!(vm.step(), Outcome::Continue);
    assert_eq!(vm.registers[2], i32::MIN);
    assert_eq!(vm.step(), Outcome::Continue);
    assert_eq!(vm.registers[3], i32::MAX);
    assert_eq!(vm.step(), Outcome::Continue);
    assert_eq!(vm.registers[4], 1);
    assert_eq!(vm.step(), Outcome::Continue);
    assert_eq!(vm.registers[0], i32::MIN);
    assert_eq!(vm.step(), Outcome::Continue);
    assert_eq!(vm.registers[2], i32::MAX);
}

#[test]
fn division_rounds_towards_zero() {
    let cases: [(i32, i32, i32, i32); 6] = [
        (7, 2, 3, 1),
        (-7, 2, -3, -1),
        (7, -2, -3, 1),
        (-7, -2, 3, -1),
        (0, 5, 0, 0),
        (i32::MIN, -1, i32::MIN, 0),
    ];
    for (x, y, q, r) in cases {
        let mut vm = VM::new();
        vm.registers[0] = x;
        vm.registers[1] = y;
        vm.program = vec![4, 0, 1, 2];
        assert_eq!(vm.step(), Outcome::Continue);
        assert_eq!(vm.registers[2], q);
        assert_eq!(vm.remainder, r);
        assert_eq!(vm.pc, 4);
    }
}

#[test]
fn faults_leave_the_machine_as_it_was() {
    let mut vm = VM::new();
    vm.registers[0] = 9;
    vm.program = vec![4, 0, 1, 2];
    assert_eq!(vm.step(), Outcome::Fault(Fault::DivisionByZero));
    assert_eq!(vm.pc, 0);
    assert_eq!(vm.registers[2], 0);

    vm.program = vec![1, 0, 32, 2];
    assert_eq!(vm.step(), Outcome::Fault(Fault::InvalidRegister));
    assert_eq!(vm.pc, 0);

    vm.program = vec![0, 0, 1];
    assert_eq!(vm.step(), Outcome::Fault(Fault::TruncatedInstruction));
    assert_eq!(vm.pc, 0);
    assert_eq!(vm.registers[0], 9);

    vm.registers[0] = -3;
    vm.program = vec![7, 0, 0, 0];
    assert_eq!(vm.step(), Outcome::Fault(Fault::InvalidJump));
    assert_eq!(vm.pc, 0);

    vm.registers[0] = 3;
    vm.program = vec![9, 0, 0, 0];
    assert_eq!(vm.step(), Outcome::Fault(Fault::InvalidJump));
    assert_eq!(vm.pc, 0);

    vm.ro_data = vec![65, 66];
    vm.program = vec![23, 0, 0, 0];
    assert_eq!(vm.step(), Outcome::Fault(Fault::UnterminatedString));
    assert_eq!(vm.pc, 0);
    assert!(vm.output.is_empty());
    assert!(vm.execute_instructions());
}

#[test]
fn jumps_to_the_address_that_a_register_names() {
    for (code, flag) in [(6u8, false), (6, true), (16, true), (17, false)] {
        let mut vm = VM::new();
        vm.registers[3] = -1;
        vm.registers[4] = i32::MIN;
        vm.equal_flag = flag;
        vm.program = vec![code, 3, 0, 0, code, 4, 0, 0];
        assert_eq!(vm.execute_instructions(), false);
        assert_eq!(vm.pc, -1i32 as usize);
        assert_eq!(vm.pc, usize::MAX);
        assert_eq!(vm.step(), Outcome::EndOfProgram);
        assert_eq!(vm.pc, usize::MAX);
        vm.pc = 4;
        assert_eq!(vm.step(), Outcome::Continue);
        assert_eq!(vm.pc, i32::MIN as usize);
        assert_eq!(vm.execute_instructions(), true);
        vm.registers[4] = i32::MAX;
        vm.pc = 4;
        assert_eq!(vm.step(), Outcome::Continue);
        assert_eq!(vm.pc, i32::MAX as usize);
    }
}

#[test]
fn jumps_by_signed_registers() {
    let mut vm = VM::new();
    vm.registers[0] = -2;
    vm.program = vec![7, 0, 0, 0];
    assert_eq!(vm.step(), Outcome::Continue);
    assert_eq!(vm.pc, 0);
    vm.program = vec![9, 0, 0, 0];
    assert_eq!(vm.step(), Outcome::Continue);
    assert_eq!(vm.pc, 4);
}

#[test]
fn conditional_jumps_not_taken_pass_the_register() {
    let mut vm = VM::new();
    vm.registers[0] = 40;
    vm.equal_flag = false;
    vm.program = vec![16, 0, 0, 0];
    assert_eq!(vm.step(), Outcome::Continue);
    assert_eq!(vm.pc, 2);
    vm.pc = 0;
    vm.equal_flag = true;
    vm.program = vec![17, 0, 0, 0];
    assert_eq!(vm.step(), Outcome::Continue);
    assert_eq!(vm.pc, 2);
}

#[test]
fn djmpe_jumps_to_its_immediate_or_consumes_a_byte() {
    let mut vm = VM::new();
    vm.equal_flag = true;
    vm.program = vec![21, 200, 0, 0];
    assert_eq!(vm.step(), Outcome::Continue);
    assert_eq!(vm.pc, 200);
    vm.pc = 0;
    vm.equal_flag = false;
    assert_eq!(vm.step(), Outcome::Continue);
    assert_eq!(vm.pc, 3);
    vm.pc = 0;
    vm.program = vec![21, 200];
    assert_eq!(vm.step(), Outcome::Fault(Fault::TruncatedInstruction));
    assert_eq!(vm.pc, 0);
}

#[test]
fn aloc_never_shrinks_the_heap() {
    let mut vm = VM::new();
    vm.registers[0] = 3;
    vm.registers[1] = -2;
    vm.program = vec![18, 0, 0, 0, 18, 1, 0, 0, 18, 0, 0, 0];
    assert_eq!(vm.step(), Outcome::Continue);
    assert_eq!(vm.heap, vec![0, 0, 0]);
    assert_eq!(vm.step(), Outcome::Continue);
    assert_eq!(vm.heap, vec![0, 0, 0]);
    assert_eq!(vm.step(), Outcome::Continue);
    assert_eq!(vm.heap.len(), 6);
    assert_eq!(vm.pc, 12);
}

#[test]
fn prts_writes_only_well_formed_text() {
    let mut vm = VM::new();
    vm.ro_data = vec![0xff, 0xfe, 0, 104, 105, 0, 0];
    vm.program = vec![23, 0, 0, 23, 0, 3, 23, 0, 6, 23, 0, 3];
    assert_eq!(vm.step(), Outcome::Continue);
    assert_eq!(vm.pc, 3);
    assert!(vm.output.is_empty());
    assert_eq!(vm.undecodable, vec![0]);
    assert_eq!(vm.step(), Outcome::Continue);
    assert_eq!(vm.output, b"hi".to_vec());
    assert_eq!(vm.undecodable, vec![0]);
    assert_eq!(vm.step(), Outcome::Continue);
    assert_eq!(vm.output, b"hi".to_vec());
    assert_eq!(vm.step(), Outcome::Continue);
    assert_eq!(vm.output, b"hihi".to_vec());
    assert_eq!(vm.pc, 12);
}

#[test]
fn add_byte_and_add_bytes_append() {
    let mut vm = VM::new();
    vm.add_byte(5);
    vm.add_bytes(vec![1, 2]);
    vm.add_byte(9);
    assert_eq!(vm.program, vec![5, 1, 2, 9]);
    assert_eq!(vm.pc, 0);
}

#[test]
fn verify_header_wants_the_prefix() {
    let mut vm = VM::new();
    assert!(!vm.verify_header());
    vm.program = vec![45, 50, 49];
    assert!(!vm.verify_header());
    vm.program = vec![45, 50, 49, 45];
    assert!(vm.verify_header());
    vm.program = vec![45, 50, 49, 46, 0];
    assert!(!vm.verify_header());
}

#[test]
fn run_checks_the_header_and_starts_behind_it() {
    let mut vm = VM::new();
    vm.program = vec![5, 0, 0, 0];
    assert_eq!(vm.run(10), Outcome::Fault(Fault::IncorrectHeader));
    assert_eq!(vm.pc, 0);

    let mut image = prepend_header(vec![0]);
    image.extend_from_slice(&[0, 4, 1, 44, 19, 4, 0, 0, 5, 0, 0, 0]);
    let mut vm = VM::new();
    vm.add_bytes(image.clone());
    assert_eq!(vm.run(100), Outcome::Halted);
    assert_eq!(vm.registers[4], 301);
    assert_eq!(vm.pc, 65 + 9);

    let mut vm = VM::new();
    vm.add_bytes(image.clone());
    assert_eq!(vm.run(1), Outcome::Continue);
    assert_eq!(vm.registers[4], 300);
    assert_eq!(vm.pc, 69);

    let mut vm = VM::new();
    vm.add_bytes(image[..73].to_vec());
    assert_eq!(vm.run(100), Outcome::EndOfProgram);
    assert_eq!(vm.pc, 73);
}

#[test]
fn resume_goes_on_from_where_the_machine_stands() {
    let mut image = prepend_header(vec![0]);
    image.extend_from_slice(&[0, 4, 1, 44, 19, 4, 0, 0, 19, 4, 0, 0, 5, 0, 0, 0]);
    let mut vm = VM::new();
    vm.add_bytes(image);
    assert_eq!(vm.run(0), Outcome::Continue);
    assert_eq!(vm.pc, 65);
    assert_eq!(vm.registers[4], 0);
    assert_eq!(vm.resume(0), Outcome::Continue);
    assert_eq!(vm.pc, 65);
    assert_eq!(vm.resume(2), Outcome::Continue);
    assert_eq!(vm.pc, 73);
    assert_eq!(vm.registers[4], 301);
    assert_eq!(vm.resume(5), Outcome::Halted);
    assert_eq!(vm.pc, 78);
    assert_eq!(vm.registers[4], 302);
    assert_eq!(vm.resume(5), Outcome::Fault(Fault::TruncatedInstruction));
    assert_eq!(vm.pc, 78);
    vm.pc = 81;
    assert_eq!(vm.resume(5), Outcome::EndOfProgram);
    assert_eq!(vm.pc, 81);

    let mut vm = VM::new();
    vm.program = vec![22, 0, 0, 0, 200];
    assert_eq!(vm.resume(9), Outcome::Illegal);
    assert_eq!(vm.pc, 5);
}
