use intvm::mode::Mode;
use intvm::mode::ModeList;
use intvm::program::Program;

#[test]
fn test_grow_code_if_necessary() {
    let mut program = Program {
        code: vec![1, 2, 3],
        ip: 0,
        move_ip: true,
        rel_base: 0,
        param_indices: vec![0, 42, 6],
        finish: false,
    };
    // Try to access index 42, so grow vec to length >= 42+1
    program.grow_code_if_necessary();
    assert!(program.code.len() >= 42 + 1);
}

#[test]
fn test_get_param_indices() {
    let mut program = Program {
        code: vec![42, 2, 0, 0],
        ip: 0,
        move_ip: true,
        rel_base: 1,
        param_indices: vec![],
        finish: false,
    };
    // Starting with ip = 1, because ip points to the opcode
    // Value 2 in position mode should result in index 2
    // Value 0 in immediate mode should result in index 2
    // Value 0 in relative base mode should result in index 1
    let modes = ModeList(vec![Mode::Position, Mode::Immediate, Mode::RelativeBase]);
    program.get_param_indices(modes).unwrap();
    assert!(program.param_indices >= vec![2, 2, 1]);
}
