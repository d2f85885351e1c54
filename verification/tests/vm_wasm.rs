use the_block_node::vm::debugger::Debugger;
use the_block_node::vm::gas::GasMeter;
use the_block_node::vm::opcodes::OpCode;
use the_block_node::vm::runtime::{Vm, VmType};
use the_block_node::vm::wasm::opcodes;
use the_block_node::vm::wasm::{analyze, disassemble, execute, Instruction, MAGIC, VERSION_V1};

fn module_with_ops(ops: &[u8]) -> Vec<u8> {
    let mut module = Vec::new();
    module.extend_from_slice(&MAGIC);
    module.push(VERSION_V1);
    module.extend_from_slice(ops);
    module
}

fn push_i64(value: i64) -> Vec<u8> {
    let mut buf = vec![opcodes::PUSH_I64];
    buf.extend_from_slice(&value.to_le_bytes());
    buf
}

#[test]
fn parses_and_executes_simple_program() {
    let mut ops = Vec::new();
    ops.extend_from_slice(&push_i64(2));
    ops.extend_from_slice(&push_i64(3));
    ops.push(opcodes::ADD_I64);
    ops.extend_from_slice(&[opcodes::RETURN, 1]);
    let module = module_with_ops(&ops);
    let mut meter = GasMeter::new(10);
    let output = execute(&module, &[], &mut meter).expect("executes");
    assert_eq!(output, 5i64.to_le_bytes());
    assert!(meter.used() >= 4);
}

#[test]
fn uses_inputs() {
    let ops = [opcodes::PUSH_INPUT, 1, opcodes::PUSH_INPUT, 0, opcodes::SUB_I64, opcodes::RETURN, 1];
    let module = module_with_ops(&ops);
    let mut meter = GasMeter::new(10);
    let mut input = Vec::new();
    input.extend_from_slice(&4i64.to_le_bytes());
    input.extend_from_slice(&10i64.to_le_bytes());
    let out = execute(&module, &input, &mut meter).expect("executes");
    assert_eq!(out, 6i64.to_le_bytes());
}

#[test]
fn metadata_reports_inputs_and_returns() {
    let ops = [opcodes::PUSH_INPUT, 0, opcodes::PUSH_INPUT, 1, opcodes::ADD_I64, opcodes::RETURN, 1];
    let module = module_with_ops(&ops);
    let meta = analyze(&module).expect("analyze");
    assert_eq!(meta.version, VERSION_V1);
    assert_eq!(meta.instruction_count, 4);
    assert_eq!(meta.required_inputs, 2);
    assert_eq!(meta.return_values, Some(1));
}

#[test]
fn disassemble_roundtrip() {
    let ops = [opcodes::PUSH_I64, 1, 0, 0, 0, 0, 0, 0, 0, opcodes::EQ_I64, opcodes::RETURN, 1];
    let module = module_with_ops(&ops);
    let dis = disassemble(&module).expect("disassemble");
    assert!(matches!(dis[0], Instruction::PushConst(1)));
    assert!(matches!(dis[1], Instruction::Eq));
}

fn sample_wasm_module() -> Vec<u8> {
    let mut buf = Vec::new();
    buf.extend_from_slice(&MAGIC);
    buf.push(VERSION_V1);
    buf.extend_from_slice(&[
        opcodes::PUSH_I64,
        5,
        0,
        0,
        0,
        0,
        0,
        0,
        0,
        opcodes::PUSH_I64,
        7,
        0,
        0,
        0,
        0,
        0,
        0,
        0,
        opcodes::ADD_I64,
        opcodes::RETURN,
        1,
    ]);
    buf
}

#[test]
fn execution_produces_expected_bytes() {
    let module = sample_wasm_module();
    let mut meter = GasMeter::new(32);
    let out = execute(&module, &[], &mut meter).expect("executes");
    assert_eq!(out, 12i64.to_le_bytes());
}

fn sample_module() -> Vec<u8> {
    let mut buf = Vec::new();
    buf.extend_from_slice(&MAGIC);
    buf.push(VERSION_V1);
    buf.extend_from_slice(&[
        opcodes::PUSH_I64,
        3,
        0,
        0,
        0,
        0,
        0,
        0,
        0,
        opcodes::PUSH_INPUT,
        0,
        opcodes::MUL_I64,
        opcodes::RETURN,
        1,
    ]);
    buf
}

#[test]
fn wasm_runs_deterministically() {
    let mut vm = Vm::new(VmType::Wasm);
    let module = sample_module();
    let id = vm.deploy_wasm(module, vec![]);
    let mut balance = 1_000_000;
    let input = 5i64.to_le_bytes().to_vec();
    let first = vm.execute(id, &input, 1_000_000, 1, &mut balance).expect("executes");
    let mut vm_again = Vm::new(VmType::Wasm);
    let id_again = vm_again.deploy_wasm(sample_module(), vec![]);
    let mut balance_again = 1_000_000;
    let second = vm_again.execute(id_again, &input, 1_000_000, 1, &mut balance_again).expect("executes");
    assert_eq!(first.0, second.0);
    assert_eq!(first.0, 15i64.to_le_bytes().to_vec());
}

#[test]
fn trace_deterministic() {
    let code = vec![
        OpCode::Push as u8,
        1,
        0,
        0,
        0,
        0,
        0,
        0,
        0,
        OpCode::Push as u8,
        2,
        0,
        0,
        0,
        0,
        0,
        0,
        0,
        OpCode::Add as u8,
        OpCode::Halt as u8,
    ];
    let mut d1 = Debugger::new(code.clone());
    let mut d2 = Debugger::new(code);
    let t1 = d1.run().to_vec();
    let t2 = d2.run().to_vec();
    assert_eq!(t1, t2);
}

#[test]
fn bad_magic_is_rejected() {
    let module = vec![0, 0, 0, 0, VERSION_V1, opcodes::RETURN, 0];
    let mut meter = GasMeter::new(10);
    assert!(execute(&module, &[], &mut meter).is_err());
}
