use intvm::opcode::jump_non_zero;
use intvm::opcode::jump_zero;
use intvm::opcode::multiply;
use intvm::program::Program;

#[test]
fn test_add() {
    let mut program = Program {
        code: vec![1, 2, 0],
        ip: 0,
        move_ip: true,
        rel_base: 0,
        param_indices: vec![0, 1, 2],
        finish: false,
    };
    // Positive add
    intvm::opcode::add(&mut program);
    assert_eq!(program.code, vec![1, 2, 3]);

    // Partial negative add
    program.code = vec![-3, 2, 0];
    intvm::opcode::add(&mut program);
    assert_eq!(program.code, vec![-3, 2, -1]);

    // Negative add
    program.code = vec![-3, -2, 0];
    intvm::opcode::add(&mut program);
    assert_eq!(program.code, vec![-3, -2, -5]);
}

#[test]
fn test_multiply() {
    let mut program = Program {
        code: vec![4, 2, 0],
        ip: 0,
        move_ip: true,
        rel_base: 0,
        param_indices: vec![0, 1, 2],
        finish: false,
    };
    // Positive multiply
    multiply(&mut program);
    assert_eq!(program.code, vec![4, 2, 8]);

    // Negative multiply
    program.code = vec![-3, 2, 0];
    multiply(&mut program);
    assert_eq!(program.code, vec![-3, 2, -6]);

    // Negative * Negative = Positive
    program.code = vec![-3, -2, 0];
    multiply(&mut program);
    assert_eq!(program.code, vec![-3, -2, 6]);
}

#[test]
fn test_jump_non_zero() {
    let mut program = Program {
        code: vec![1, 0, 42],
        ip: 0,
        move_ip: true,
        rel_base: 0,
        param_indices: vec![1, 2],
        finish: false,
    };
    // Don't jump
    jump_non_zero(&mut program);
    assert_eq!(program.ip, 0);
    assert_eq!(program.move_ip, true);

    // Jump
    program.code[1] = 3;
    jump_non_zero(&mut program);
    assert_eq!(program.ip, 42);
    assert_eq!(program.move_ip, false);
}

#[test]
fn test_jump_zero() {
    let mut program = Program {
        code: vec![1, 3, 42],
        ip: 0,
        move_ip: true,
        rel_base: 0,
        param_indices: vec![1, 2],
        finish: false,
    };
    // Don't jump
    jump_zero(&mut program);
    assert_eq!(program.ip, 0);
    assert_eq!(program.move_ip, true);

    // Jump
    program.code[1] = 0;
    jump_zero(&mut program);
    assert_eq!(program.ip, 42);
    assert_eq!(program.move_ip, false);
}

#[test]
fn test_add_relative_base() {
    let mut program = Program {
        code: vec![42],
        ip: 0,
        move_ip: true,
        rel_base: 0,
        param_indices: vec![0],
        finish: false,
    };
    // Positive add to relative base
    intvm::opcode::add_relative_base(&mut program);
    assert_eq!(program.rel_base, 42);

    // Negative add to relative base
    program.code = vec![-100];
    intvm::opcode::add_relative_base(&mut program);
    assert_eq!(program.rel_base, -58);
}
