use intvm::ExecError;
use intvm::StepEvent;
use intvm::mode::Mode;
use intvm::mode::ModeList;
use intvm::mode::position;
use intvm::opcode::Instruction;
use intvm::opcode::bool_to_int;
use intvm::opcode::int_to_bool;
use intvm::program::Program;

#[test]
fn test_lookup_arities() {
    // one entry per opcode number, with the arity of the table
    let arities: Vec<usize> = vec![0, 3, 3, 1, 1, 2, 2, 3, 3, 1];
    for (opcode, arity) in arities.iter().enumerate() {
        let instruction = Instruction::new(opcode as i64).unwrap();
        assert_eq!(instruction.num_of_params, *arity);
        // the mode digits above the opcode do not change the entry
        let instruction = Instruction::new(opcode as i64 + 1100).unwrap();
        assert_eq!(instruction.num_of_params, *arity);
    }
}

#[test]
fn test_lookup_invalid_opcodes() {
    assert_eq!(Instruction::new(10), Err(ExecError::InvalidOpcode));
    assert_eq!(Instruction::new(42), Err(ExecError::InvalidOpcode));
    assert_eq!(Instruction::new(98), Err(ExecError::InvalidOpcode));
    // the halt word is handled by the engine and has no table entry
    assert_eq!(Instruction::new(99), Err(ExecError::InvalidOpcode));
    assert_eq!(Instruction::new(-1), Err(ExecError::InvalidOpcode));
}

#[test]
fn test_resolution_is_pure() {
    let mut program = Program {
        code: vec![7, 3],
        ip: 0,
        move_ip: true,
        rel_base: 5,
        param_indices: vec![],
        finish: false,
    };
    // resolving the same slot twice yields the same index and changes nothing
    let first = position(&mut program, 1).unwrap();
    let second = position(&mut program, 1).unwrap();
    assert_eq!(first, second);
    assert_eq!(program.code, vec![7, 3]);
    assert_eq!(program.rel_base, 5);
    assert_eq!(program.ip, 0);
}

#[test]
fn test_mode_list_decoding() {
    // 1002 strips to 10: digit 0 then digit 1, a missing digit is 0
    let modes = ModeList::new(1002, 3).unwrap();
    assert_eq!(modes.0, vec![Mode::Position, Mode::Immediate, Mode::Position]);
    let modes = ModeList::new(21002, 3).unwrap();
    assert_eq!(modes.0, vec![Mode::Position, Mode::Immediate, Mode::RelativeBase]);
    // a digit above 2 encodes no mode
    assert_eq!(ModeList::new(301, 1).unwrap_err(), ExecError::InvalidMode);
}

#[test]
fn test_growth_preserves_values() {
    let mut program = Program {
        code: vec![7, 8, 9],
        ip: 0,
        move_ip: true,
        rel_base: 0,
        param_indices: vec![3],
        finish: false,
    };
    program.grow_code_if_necessary();
    assert_eq!(program.code.len(), 3 + 42);
    assert_eq!(program.code[0], 7);
    assert_eq!(program.code[1], 8);
    assert_eq!(program.code[2], 9);
    for k in 3..program.code.len() {
        assert_eq!(program.code[k], 0);
    }
}

#[test]
fn test_growth_boundary() {
    // an index just below the length must not grow the tape
    let mut program = Program {
        code: vec![7, 8, 9],
        ip: 0,
        move_ip: true,
        rel_base: 0,
        param_indices: vec![2],
        finish: false,
    };
    program.grow_code_if_necessary();
    assert_eq!(program.code, vec![7, 8, 9]);

    // an index exactly at the length must grow the tape to cover it
    program.param_indices = vec![3];
    program.grow_code_if_necessary();
    assert!(program.code.len() >= 4);
}

#[test]
fn test_run_add_round_trip() {
    let mut program = Program::new(vec![1, 0, 0, 0, 99]);
    let outputs = program.run(&vec![], 1000).unwrap();
    assert!(outputs.is_empty());
    assert!(program.finish);
    assert_eq!(program.code[0], 2);
}

#[test]
fn test_run_immediate_add_round_trip() {
    let mut program = Program::new(vec![1101, 100, -1, 4, 0]);
    let outputs = program.run(&vec![], 1000).unwrap();
    assert!(outputs.is_empty());
    assert!(program.finish);
    assert_eq!(program.code[4], 99);
}

#[test]
fn test_run_relative_base_output() {
    // set the base to 2000, then emit the cell at 1 + 2000
    let mut code = vec![109, 2000, 204, 1, 99];
    code.resize(2002, 0);
    code[2001] = 42;
    let mut program = Program::new(code);
    let outputs = program.run(&vec![], 1000).unwrap();
    assert_eq!(outputs, vec![42]);

    // without a value planted there, the grown cell reads as zero
    let mut program = Program::new(vec![109, 2000, 204, 1, 99]);
    let outputs = program.run(&vec![], 1000).unwrap();
    assert_eq!(outputs, vec![0]);
}

#[test]
fn test_run_echo_input() {
    let mut program = Program::new(vec![3, 0, 4, 0, 99]);
    let outputs = program.run(&vec![77], 1000).unwrap();
    assert_eq!(outputs, vec![77]);
    assert_eq!(program.code[0], 77);
}

#[test]
fn test_run_less_than_and_equal() {
    let mut program = Program::new(vec![1107, 1, 2, 0, 99]);
    program.run(&vec![], 1000).unwrap();
    assert_eq!(program.code[0], 1);

    let mut program = Program::new(vec![1107, 2, 2, 0, 99]);
    program.run(&vec![], 1000).unwrap();
    assert_eq!(program.code[0], 0);

    let mut program = Program::new(vec![1108, 5, 5, 0, 99]);
    program.run(&vec![], 1000).unwrap();
    assert_eq!(program.code[0], 1);

    let mut program = Program::new(vec![1108, 5, 6, 0, 99]);
    program.run(&vec![], 1000).unwrap();
    assert_eq!(program.code[0], 0);
}

#[test]
fn test_run_jump_skips_instruction() {
    // jump over the multiply to the halt word when the operand is non-zero
    let mut program = Program::new(vec![1105, 1, 7, 1102, 3, 3, 0, 99]);
    program.run(&vec![], 1000).unwrap();
    assert!(program.finish);
    assert_eq!(program.code[0], 1105);

    // with a zero operand the jump falls through and the multiply runs
    let mut program = Program::new(vec![1105, 0, 7, 1102, 3, 3, 0, 99]);
    program.run(&vec![], 1000).unwrap();
    assert!(program.finish);
    assert_eq!(program.code[0], 9);
}

#[test]
fn test_step_events_for_input() {
    let mut program = Program::new(vec![3, 0, 99]);
    assert_eq!(program.step(None).unwrap(), StepEvent::NeedInput);
    assert_eq!(program.ip, 0);
    assert_eq!(program.step(Some(5)).unwrap(), StepEvent::InputStored);
    assert_eq!(program.code[0], 5);
    assert_eq!(program.step(None).unwrap(), StepEvent::Halted);
    assert!(program.finish);
}

#[test]
fn test_error_invalid_opcode() {
    let mut program = Program::new(vec![42]);
    assert_eq!(program.run(&vec![], 1000).unwrap_err(), ExecError::InvalidOpcode);
}

#[test]
fn test_error_invalid_mode() {
    let mut program = Program::new(vec![301, 0, 0, 0, 99]);
    assert_eq!(program.run(&vec![], 1000).unwrap_err(), ExecError::InvalidMode);
}

#[test]
fn test_error_negative_address() {
    let mut program = Program::new(vec![1, -1, 0, 0, 99]);
    assert_eq!(program.run(&vec![], 1000).unwrap_err(), ExecError::NegativeAddress);
}

#[test]
fn test_error_address_overflow() {
    // the base and the operand together name an index no tape can reach
    let mut program = Program::new(vec![109, i64::MAX, 204, i64::MAX, 99]);
    assert_eq!(program.run(&vec![], 1000).unwrap_err(), ExecError::AddressOverflow);
}

#[test]
fn test_error_ip_out_of_range() {
    let mut program = Program::new(vec![]);
    assert_eq!(program.run(&vec![], 1000).unwrap_err(), ExecError::IpOutOfRange);

    // the advance past the last instruction runs off the tape
    let mut program = Program::new(vec![1101, 1, 1, 0]);
    assert_eq!(program.run(&vec![], 1000).unwrap_err(), ExecError::IpOutOfRange);
}

#[test]
fn test_error_input_exhausted() {
    let mut program = Program::new(vec![3, 0, 99]);
    assert_eq!(program.run(&vec![], 1000).unwrap_err(), ExecError::InputExhausted);
}

#[test]
fn test_error_overflow() {
    let mut program = Program::new(vec![1101, i64::MAX, 1, 0, 99]);
    assert_eq!(program.run(&vec![], 1000).unwrap_err(), ExecError::Overflow);

    let mut program = Program::new(vec![1102, i64::MAX, 2, 0, 99]);
    assert_eq!(program.run(&vec![], 1000).unwrap_err(), ExecError::Overflow);

    let mut program = Program::new(vec![109, i64::MAX, 109, 1, 99]);
    assert_eq!(program.run(&vec![], 1000).unwrap_err(), ExecError::Overflow);
}

#[test]
fn test_error_step_limit_reached() {
    let mut program = Program::new(vec![1105, 1, 0]);
    assert_eq!(program.run(&vec![], 10).unwrap_err(), ExecError::StepLimitReached);
}

#[test]
fn test_negative_multiple_of_hundred_is_no_op() {
    // a negative word whose low two digits are zero still selects the no-op
    let mut program = Program::new(vec![-100, 99]);
    program.run(&vec![], 10).unwrap();
    assert!(program.finish);
}

#[test]
fn test_resolution_after_growth_is_stable() {
    // growth is the only side effect of resolution: resolving the same
    // instruction again yields the same indices and grows nothing further
    let mut program = Program {
        code: vec![42, 50, 0, 0],
        ip: 0,
        move_ip: true,
        rel_base: 1,
        param_indices: vec![],
        finish: false,
    };
    let modes = ModeList(vec![Mode::Position, Mode::Immediate, Mode::RelativeBase]);
    program.get_param_indices(modes).unwrap();
    let first = program.param_indices.clone();
    let grown_len = program.code.len();
    assert_eq!(first, vec![50, 2, 1]);
    assert!(grown_len > 50);

    let modes = ModeList(vec![Mode::Position, Mode::Immediate, Mode::RelativeBase]);
    program.get_param_indices(modes).unwrap();
    assert_eq!(program.param_indices, first);
    assert_eq!(program.code.len(), grown_len);
}

#[test]
fn test_step_after_halt_stays_halted() {
    let mut program = Program::new(vec![99]);
    assert_eq!(program.step(None).unwrap(), StepEvent::Halted);
    assert!(program.finish);
    assert_eq!(program.step(None).unwrap(), StepEvent::Halted);
    assert!(program.finish);
}

#[test]
fn test_bool_int_conversions() {
    assert_eq!(bool_to_int(true), 1);
    assert_eq!(bool_to_int(false), 0);
    assert!(int_to_bool(1));
    assert!(int_to_bool(-7));
    assert!(!int_to_bool(0));
}
