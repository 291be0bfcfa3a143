use iridium::assembler::Assembler;
use iridium::vm::{divide, Fault, Signal, VM};

fn machine(source: &str) -> VM {
    let mut assembler = Assembler::new();
    assembler.assemble(source).unwrap();
    let mut vm = VM::new();
    vm.load(&assembler.bytecode);
    vm
}

#[test]
fn new_machine_is_empty() {
    let vm = VM::new();
    assert_eq!(vm.registers, [0; 32]);
    assert_eq!(vm.pc(), 0);
    assert_eq!(vm.program_len(), 0);
    assert!(vm.heap().is_empty());
    assert_eq!(vm.remainder(), 0);
    assert!(!vm.equal_flag());
    assert_eq!(vm.register(31), Some(0));
    assert_eq!(vm.register(32), None);
}

#[test]
fn division_leaves_quotient_and_remainder() {
    let mut vm = machine("load $0 #10\nload $1 #3\ndiv $0 $1 $2");
    assert_eq!(vm.run(100), Signal::Halted);
    assert_eq!(vm.register(2), Some(3));
    assert_eq!(vm.remainder(), 1);
    assert_eq!(vm.pc(), 12);
}

#[test]
fn jump_to_a_halt_halts_and_keeps_the_registers() {
    let mut vm = machine("load $0 #12\nload $5 #77\njmp $0\nhlt");
    assert_eq!(vm.step(), Signal::Continue);
    assert_eq!(vm.step(), Signal::Continue);
    let before = vm.registers;
    assert_eq!(vm.step(), Signal::Continue);
    assert_eq!(vm.pc(), 12);
    assert_eq!(vm.step(), Signal::Halted);
    assert_eq!(vm.registers, before);
    assert_eq!(vm.register(0), Some(12));
    assert_eq!(vm.register(5), Some(77));

    let mut vm = machine("load $0 #12\nload $5 #77\njmp $0\nhlt");
    assert_eq!(vm.run(1000), Signal::Halted);
    assert_eq!(vm.registers, before);
}

#[test]
fn unmapped_opcode_faults_and_stops() {
    let mut vm = VM::new();
    vm.load(&[0, 1, 0, 5, 200, 0, 0, 0, 0, 2, 0, 9]);
    assert_eq!(vm.run(100), Signal::Faulted(Fault::IllegalInstruction));
    assert_eq!(vm.pc(), 5);
    assert_eq!(vm.register(1), Some(5));
    assert_eq!(vm.register(2), Some(0));
    // The machine does not get past the byte.
    let mut vm = VM::new();
    vm.load(&[9, 0, 0, 0]);
    assert_eq!(vm.step(), Signal::Faulted(Fault::IllegalInstruction));
    assert_eq!(vm.pc(), 1);
}

#[test]
fn load_is_zero_extended() {
    let mut vm = VM::new();
    vm.load(&[0, 3, 255, 255]);
    assert_eq!(vm.step(), Signal::Continue);
    assert_eq!(vm.register(3), Some(65535));
    assert_eq!(vm.pc(), 4);
    assert_eq!(vm.step(), Signal::Halted);
    assert_eq!(vm.pc(), 4);
}

#[test]
fn arithmetic_wraps() {
    let mut vm = VM::new();
    vm.registers[0] = i32::MAX;
    vm.registers[1] = 1;
    vm.registers[2] = i32::MIN;
    vm.registers[3] = 65536;
    vm.load(&[1, 0, 1, 10, 2, 2, 1, 11, 3, 3, 3, 12, 17, 0, 0, 0, 18, 2, 0, 0, 3, 1, 1, 13]);
    assert_eq!(vm.run(6), Signal::Continue);
    assert_eq!(vm.run(1), Signal::Halted);
    assert_eq!(vm.register(10), Some(i32::MIN));
    assert_eq!(vm.register(11), Some(i32::MAX));
    assert_eq!(vm.register(12), Some(0));
    assert_eq!(vm.register(0), Some(i32::MIN));
    assert_eq!(vm.register(2), Some(i32::MAX));
    assert_eq!(vm.register(13), Some(1));
}

#[test]
fn add_sub_mul_on_small_numbers() {
    let mut vm = machine("load $0 #7\nload $1 #5\nadd $0 $1 $2\nsub $0 $1 $3\nmul $0 $1 $4\nsub $1 $0 $5\nhlt");
    assert_eq!(vm.run(100), Signal::Halted);
    assert_eq!(vm.register(2), Some(12));
    assert_eq!(vm.register(3), Some(2));
    assert_eq!(vm.register(4), Some(35));
    assert_eq!(vm.register(5), Some(-2));
}

#[test]
fn division_rounds_towards_zero() {
    assert_eq!(divide(10, 3), (3, 1));
    assert_eq!(divide(-7, 2), (-3, u32::MAX));
    assert_eq!(divide(7, -2), (-3, 1));
    assert_eq!(divide(-7, -2), (3, u32::MAX));
    assert_eq!(divide(0, 5), (0, 0));
    assert_eq!(divide(i32::MIN, -1), (i32::MIN, 0));
    assert_eq!(divide(i32::MIN, 1), (i32::MIN, 0));
    assert_eq!(divide(i32::MIN, i32::MIN), (1, 0));
    assert_eq!(divide(i32::MAX, i32::MIN), (0, i32::MAX as u32));
    assert_eq!(divide(-9, 4), (-9 / 4, (-9 % 4) as u32));
}

#[test]
fn division_by_zero_faults() {
    let mut vm = machine("load $0 #10\ndiv $0 $1 $2\nhlt");
    assert_eq!(vm.run(100), Signal::Faulted(Fault::DivisionByZero));
    assert_eq!(vm.register(2), Some(0));
    assert_eq!(vm.remainder(), 0);
    assert_eq!(vm.pc(), 5);
}

#[test]
fn comparisons_set_the_flag() {
    let cases: [(&str, i32, i32, bool); 12] = [
        ("eq", 1, 1, true),
        ("eq", 1, 2, false),
        ("neq", 1, 2, true),
        ("neq", 2, 2, false),
        ("gt", 3, 2, true),
        ("gt", 2, 2, false),
        ("lt", -1, 0, true),
        ("lt", 0, 0, false),
        ("gte", 2, 2, true),
        ("gte", 1, 2, false),
        ("lte", 2, 2, true),
        ("lte", 3, 2, false),
    ];
    for (word, a, b, expected) in cases {
        let mut vm = machine(&format!("{} $0 $1", word));
        vm.registers[0] = a;
        vm.registers[1] = b;
        assert_eq!(vm.step(), Signal::Continue);
        assert_eq!(vm.equal_flag(), expected, "{} {} {}", word, a, b);
        assert_eq!(vm.pc(), 4);
    }
}

#[test]
fn conditional_jump_follows_the_flag() {
    let mut vm = machine("load $0 #16\neq $1 $2\njmpe $0\nhlt\nload $3 #1\nhlt");
    assert_eq!(vm.run(100), Signal::Halted);
    assert_eq!(vm.register(3), Some(1));
    assert_eq!(vm.pc(), 21);

    let mut vm = machine("load $0 #16\nneq $1 $2\njmpe $0\nhlt\nload $3 #1\nhlt");
    assert_eq!(vm.run(100), Signal::Halted);
    assert_eq!(vm.register(3), Some(0));
    assert_eq!(vm.pc(), 13);
}

#[test]
fn relative_jumps_count_from_the_next_slot() {
    // Forward over one instruction.
    let mut vm = machine("load $0 #4\njmpf $0\nload $1 #1\nload $2 #1\nhlt");
    assert_eq!(vm.run(100), Signal::Halted);
    assert_eq!(vm.register(1), Some(0));
    assert_eq!(vm.register(2), Some(1));

    // Back to the increment, until the budget is spent.
    let mut vm = machine("load $0 #8\ninc $1\njmpb $0\nhlt");
    assert_eq!(vm.run(7), Signal::Continue);
    assert_eq!(vm.register(1), Some(3));
    assert_eq!(vm.run(2), Signal::Continue);
    assert_eq!(vm.register(1), Some(4));
}

#[test]
fn jump_out_of_the_code_faults() {
    let mut vm = machine("load $0 #12\njmp $0\nhlt");
    assert_eq!(vm.run(100), Signal::Faulted(Fault::JumpOutOfRange));
    assert_eq!(vm.pc(), 5);

    let mut vm = machine("load $0 #100\njmpb $0\nhlt");
    assert_eq!(vm.run(100), Signal::Faulted(Fault::JumpOutOfRange));

    let mut vm = machine("load $0 #4\njmpf $0\nhlt");
    assert_eq!(vm.run(100), Signal::Faulted(Fault::JumpOutOfRange));

    let mut vm = machine("jmp $0\nhlt");
    vm.registers[0] = -1;
    assert_eq!(vm.run(100), Signal::Faulted(Fault::JumpOutOfRange));
}

#[test]
fn looping_program_counts_to_its_bound() {
    let mut vm = machine(
        ".code\nload $0 #0\nload $2 #5\nload $3 #12\ntest: inc $0\nneq $0 $2\njmpe $3\nhlt",
    );
    assert_eq!(vm.run(1000), Signal::Halted);
    assert_eq!(vm.register(0), Some(5));
}

#[test]
fn aloc_grows_the_heap_with_zeros() {
    let mut vm = machine("load $0 #1024\naloc $0\naloc $0\nhlt");
    assert_eq!(vm.run(100), Signal::Halted);
    assert_eq!(vm.heap().len(), 2048);
    assert!(vm.heap().iter().all(|b| *b == 0));

    let mut vm = machine("aloc $0\nhlt");
    vm.registers[0] = -1;
    assert_eq!(vm.run(100), Signal::Faulted(Fault::IllegalInstruction));
    assert!(vm.heap().is_empty());
}

#[test]
fn register_that_is_not_there_faults() {
    let mut vm = VM::new();
    vm.load(&[0, 32, 0, 1]);
    assert_eq!(vm.step(), Signal::Faulted(Fault::IllegalInstruction));
    assert_eq!(vm.registers, [0; 32]);
    let mut vm = VM::new();
    vm.load(&[1, 0, 0, 40]);
    assert_eq!(vm.step(), Signal::Faulted(Fault::IllegalInstruction));
}

#[test]
fn slot_cut_off_by_the_end_faults() {
    let mut vm = VM::new();
    vm.load(&[0, 1, 0]);
    assert_eq!(vm.step(), Signal::Faulted(Fault::IllegalInstruction));
    assert_eq!(vm.pc(), 1);
    // A halt needs no operands.
    let mut vm = VM::new();
    vm.load(&[5]);
    assert_eq!(vm.step(), Signal::Halted);
    assert_eq!(vm.pc(), 1);
}

#[test]
fn run_without_budget_does_nothing() {
    let mut vm = machine("load $0 #1\nhlt");
    assert_eq!(vm.run(0), Signal::Continue);
    assert_eq!(vm.pc(), 0);
    assert_eq!(vm.run(1), Signal::Continue);
    assert_eq!(vm.pc(), 4);
    assert_eq!(vm.run(1), Signal::Halted);
    assert_eq!(vm.pc(), 5);
}

#[test]
fn load_extends_the_code_and_clear_forgets_it() {
    let mut vm = VM::new();
    vm.load(&[0, 0, 0, 1]);
    vm.load(&[5, 0, 0, 0]);
    assert_eq!(vm.program, vec![0, 0, 0, 1, 5, 0, 0, 0]);
    assert_eq!(vm.run(10), Signal::Halted);
    vm.clear_program();
    assert_eq!(vm.program_len(), 0);
    assert_eq!(vm.pc(), 0);
    assert_eq!(vm.register(0), Some(1));
}

#[test]
fn run_in_two_turns_is_one_run() {
    let source = "load $0 #8\nload $2 #300\ninc $1\neq $1 $2\njmpb $0\nhlt";
    let mut whole = machine(source);
    let mut parts = machine(source);
    let end = whole.run(500);
    assert_eq!(parts.run(123), Signal::Continue);
    assert_eq!(parts.run(377), end);
    assert_eq!(whole.registers, parts.registers);
    assert_eq!(whole.pc(), parts.pc());
    assert_eq!(whole.equal_flag(), parts.equal_flag());
}
