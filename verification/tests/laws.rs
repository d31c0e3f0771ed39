use aiscript_engine::common::path::NamePath;
use aiscript_engine::common::string::Utf16Str;
use aiscript_engine::ir::ir::{Instruction, Ir, UserFn};
use aiscript_engine::vm::vm::{Vm, VmState};

fn utf16(s: &str) -> Utf16Str {
    let units: Vec<u16> = s.encode_utf16().collect();
    Utf16Str::new(&units)
}

fn one_function(register_length: usize, instructions: Vec<Instruction>) -> Ir {
    Ir { data: Vec::new(), native_functions: Vec::new(), user_functions: vec![UserFn { register_length, instructions }], entry_point: 0 }
}

#[test]
fn segment_count_of_segments() {
    assert_eq!(NamePath::from_segments(&[]).segment_count(), 0);
    assert_eq!(NamePath::from_segments(&[utf16("a")]).segment_count(), 1);
    assert_eq!(NamePath::from_segments(&[utf16("Ns"), utf16("Sub"), utf16("id")]).segment_count(), 3);
    assert_eq!(NamePath::from_segments(&[utf16(""), utf16("")]).segment_count(), 2);
    // A single empty segment gives the empty path.
    assert_eq!(NamePath::from_segments(&[utf16("")]).segment_count(), 0);
}

#[test]
fn failed_step_changes_nothing_and_runs_again() {
    let ir = one_function(2, vec![Instruction::Num(0, 1.0f64.to_bits()), Instruction::If(0, vec![], vec![])]);
    let mut vm = Vm::new(&ir);
    assert!(matches!(vm.step(), Ok(VmState::Continue)));
    let before = format!("{:?}", vm.registers());
    let first = vm.step().unwrap_err();
    assert_eq!(format!("{:?}", vm.registers()), before);
    let second = vm.step().unwrap_err();
    assert_eq!(first.message, "Expect bool, but got num.");
    assert_eq!(second.message, first.message);
    assert_eq!(format!("{:?}", vm.registers()), before);
}

#[test]
fn continuing_step_writes_one_register() {
    let ir = one_function(
        3,
        vec![Instruction::Num(0, 1.0f64.to_bits()), Instruction::Bool(2, true), Instruction::Move(1, 0), Instruction::Nop],
    );
    let mut vm = Vm::new(&ir);
    for _ in 0..2 {
        assert!(matches!(vm.step(), Ok(VmState::Continue)));
    }
    let before: Vec<String> = vm.registers().iter().map(|v| format!("{:?}", v)).collect();
    assert!(matches!(vm.step(), Ok(VmState::Continue)));
    let after: Vec<String> = vm.registers().iter().map(|v| format!("{:?}", v)).collect();
    assert_eq!(after[0], before[0]);
    assert_eq!(after[2], before[2]);
    assert_eq!(after[1], after[0]);
    assert_ne!(after[1], before[1]);
    assert!(matches!(vm.step(), Ok(VmState::Continue)));
    let last: Vec<String> = vm.registers().iter().map(|v| format!("{:?}", v)).collect();
    assert_eq!(last, after);
}
