use the_block_node::vm::bytecode::execute;
use the_block_node::vm::gas;
use the_block_node::vm::gas::GasMeter;
use the_block_node::vm::opcodes::OpCode;

fn push(v: u8) -> Vec<u8> {
    vec![OpCode::Push as u8, v, 0, 0, 0, 0, 0, 0, 0]
}

#[test]
fn simple_add() {
    let code: Vec<u8> = vec![
        OpCode::Push as u8,
        2,
        0,
        0,
        0,
        0,
        0,
        0,
        0,
        OpCode::Push as u8,
        3,
        0,
        0,
        0,
        0,
        0,
        0,
        0,
        OpCode::Add as u8,
        OpCode::Halt as u8,
    ];
    let mut meter = GasMeter::new(10);
    let stack = execute(&code, &mut meter).unwrap();
    assert_eq!(stack, vec![5]);
    assert_eq!(meter.used(), 5);
}

#[test]
fn bitwise_ops() {
    let mut code = push(0b1100);
    code.extend(push(0b1010));
    code.push(OpCode::And as u8);
    code.extend(push(0b0011));
    code.push(OpCode::Or as u8);
    code.push(OpCode::Halt as u8);
    let mut meter = GasMeter::new(20);
    let stack = execute(&code, &mut meter).unwrap();
    assert_eq!(stack, vec![(0b1100 & 0b1010) | 0b0011]);
    assert_eq!(meter.used(), 8);
}

#[test]
fn modulo_and_xor() {
    let mut code = push(10);
    code.extend(push(3));
    code.push(OpCode::Mod as u8);
    code.extend(push(0b1010));
    code.push(OpCode::Xor as u8);
    code.push(OpCode::Halt as u8);
    let mut meter = GasMeter::new(100);
    let stack = execute(&code, &mut meter).unwrap();
    assert_eq!(stack, vec![1 ^ 0b1010]);
    assert_eq!(meter.used(), 10);
}

#[test]
fn storage_roundtrip() {
    let mut code = push(42);
    code.push(OpCode::Store as u8);
    code.push(OpCode::Load as u8);
    code.push(OpCode::Halt as u8);
    let mut meter = GasMeter::new(200);
    let stack = execute(&code, &mut meter).unwrap();
    assert_eq!(stack, vec![42]);
    assert_eq!(meter.used(), 62);
}

#[test]
fn load_before_store_reads_zero() {
    let code: Vec<u8> = vec![OpCode::Load as u8, OpCode::Halt as u8];
    let mut meter = GasMeter::new(50);
    let stack = execute(&code, &mut meter).unwrap();
    assert_eq!(stack, vec![0]);
    assert_eq!(meter.used(), gas::GAS_STORAGE_READ * 2);
}

#[test]
fn hash_opcode() {
    let mut code = push(7);
    code.push(OpCode::Hash as u8);
    code.push(OpCode::Halt as u8);
    let mut meter = GasMeter::new(200);
    let stack = execute(&code, &mut meter).unwrap();
    let expected = {
        let hash = blake3::hash(&7u64.to_le_bytes());
        let mut out = [0u8; 8];
        out.copy_from_slice(&hash.as_bytes()[..8]);
        u64::from_le_bytes(out)
    };
    assert_eq!(stack, vec![expected]);
    assert_eq!(meter.used(), 102);
}

#[test]
fn mod_by_zero_errors() {
    let code: Vec<u8> = vec![
        OpCode::Push as u8,
        5,
        0,
        0,
        0,
        0,
        0,
        0,
        0,
        OpCode::Push as u8,
        0,
        0,
        0,
        0,
        0,
        0,
        0,
        0,
        OpCode::Mod as u8,
        OpCode::Halt as u8,
    ];
    let mut meter = GasMeter::new(50);
    let err = execute(&code, &mut meter).unwrap_err();
    assert_eq!(err, "mod by zero");
}

#[test]
fn short_immediate_swallows_the_next_opcode() {
    // A push with seven immediate bytes takes the following opcode byte as
    // its eighth, so the program halts with that value on the stack.
    let code: Vec<u8> = vec![
        OpCode::Push as u8,
        5,
        0,
        0,
        0,
        0,
        0,
        0,
        0,
        OpCode::Push as u8,
        0,
        0,
        0,
        0,
        0,
        0,
        0,
        OpCode::Mod as u8,
        OpCode::Halt as u8,
    ];
    let mut meter = GasMeter::new(50);
    assert_eq!(execute(&code, &mut meter), Ok(vec![5, 8u64 << 56]));
}

#[test]
fn out_of_gas_is_an_error() {
    let mut code = push(1);
    code.extend(push(2));
    code.push(OpCode::Add as u8);
    code.push(OpCode::Halt as u8);
    let mut meter = GasMeter::new(4);
    assert_eq!(execute(&code, &mut meter), Err("out of gas"));
}

#[test]
fn opcode_bytes_roundtrip() {
    for op in OpCode::all() {
        assert_eq!(OpCode::from_byte(op.to_byte()), Some(op));
    }
    assert_eq!(OpCode::from_byte(0xff), None);
}
