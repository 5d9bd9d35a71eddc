use diana_dcl::compile::{compile_to_binary, CompileInfo};
use diana_dcl::emulation::InteractiveState;

fn load(source: &str) -> (InteractiveState, CompileInfo) {
    let info = compile_to_binary(source, 0);
    assert_eq!(info.diagnostics.len(), 0);
    let mut state = InteractiveState::new();
    state.memory.store_array(0, &info.binary);
    (state, info)
}

fn address(state: &InteractiveState) -> u16 {
    let (hi, lo) = state.pc();
    hi as u16 * 64 + lo as u16
}

#[test]
fn jump_not_taken_when_a_is_zero() {
    let (mut state, info) = load("LIH [A == 1] TEST\nHLT\nLAB TEST\nHLT");
    assert!(state.consume_until_halt());
    assert_eq!(Some(address(&state) + 1), info.symbol_table.get("TEST"));
}

#[test]
fn jump_taken_when_a_is_one() {
    let (mut state, info) = load("LIH [A == 1] TEST\nHLT\nLAB TEST\nHLT");
    state.a = 1;
    assert!(state.consume_until_halt());
    assert_eq!(Some(address(&state)), info.symbol_table.get("TEST"));
}

#[test]
fn jump_not_taken_when_b_is_zero() {
    let (mut state, info) = load("LIH [B == 1] TEST\nHLT\nLAB TEST\nHLT");
    assert!(state.consume_until_halt());
    assert_eq!(Some(address(&state) + 1), info.symbol_table.get("TEST"));
}

#[test]
fn jump_taken_when_b_is_one() {
    let (mut state, info) = load("LIH [B == 1] TEST\nHLT\nLAB TEST\nHLT");
    state.b = 1;
    assert!(state.consume_until_halt());
    assert_eq!(Some(address(&state)), info.symbol_table.get("TEST"));
}

#[test]
fn jump_not_taken_when_c_is_zero() {
    let (mut state, info) = load("LIH [C == 1] TEST\nHLT\nLAB TEST\nHLT");
    assert!(state.consume_until_halt());
    assert_eq!(Some(address(&state) + 1), info.symbol_table.get("TEST"));
}

#[test]
fn jump_taken_when_c_is_one() {
    let (mut state, info) = load("LIH [C == 1] TEST\nHLT\nLAB TEST\nHLT");
    state.c = 1;
    assert!(state.consume_until_halt());
    assert_eq!(Some(address(&state)), info.symbol_table.get("TEST"));
}

#[test]
fn jump_if_eq() {
    let (mut state, info) = load("LIH [A == 0] TEST\nHLT\nLAB TEST\nHLT");
    state.consume_until_halt();
    assert_eq!(Some(address(&state)), info.symbol_table.get("TEST"));
    let (mut state, _) = load("LIH [A == 0] TEST\nHLT\nLAB TEST\nHLT");
    state.a = 1;
    state.consume_until_halt();
    assert_eq!(Some(address(&state) + 1), info.symbol_table.get("TEST"));
}

#[test]
fn jump_if_not_eq() {
    let (mut state, info) = load("LIH [A != 0] TEST\nHLT\nLAB TEST\nHLT");
    state.consume_until_halt();
    assert_eq!(Some(address(&state) + 1), info.symbol_table.get("TEST"));
    let (mut state, _) = load("LIH [A != 0] TEST\nHLT\nLAB TEST\nHLT");
    state.a = 1;
    state.consume_until_halt();
    assert_eq!(Some(address(&state)), info.symbol_table.get("TEST"));
}

#[test]
fn multiple_jumps() {
    let source = "LIH [A == 0] TEST1\nLIH [A != 0] TEST2\nHLT\nLAB TEST1\nHLT\nLAB TEST2\nHLT";
    let (mut state, info) = load(source);
    state.consume_until_halt();
    assert_eq!(Some(address(&state)), info.symbol_table.get("TEST1"));
    let (mut state, _) = load(source);
    state.a = 1;
    state.consume_until_halt();
    assert_eq!(Some(address(&state)), info.symbol_table.get("TEST2"));
}

#[test]
fn nor_registers() {
    let (mut state, _) = load("NOR A B\nHLT");
    state.a = 0b101010;
    state.b = 0b110011;
    state.consume_until_halt();
    assert_eq!((state.a, state.b, state.c), (0b000100, 0b110011, 0));
}

#[test]
fn nor_immediate() {
    let (mut state, _) = load("NOR A 0b010111\nHLT\nNOR A 0b100101\nHLT");
    state.consume_until_halt();
    assert_eq!((state.a, state.b, state.c), (0b101000, 0, 0));
    state.consume_instruction();
    state.consume_until_halt();
    assert_eq!((state.a, state.b, state.c), (0b010010, 0, 0));
}

#[test]
fn or_registers() {
    let (mut state, _) = load("OR A B\nHLT");
    state.a = 0b101010;
    state.b = 0b110011;
    state.consume_until_halt();
    assert_eq!((state.a, state.b, state.c), (0b111011, 0b110011, 0));
}

#[test]
fn or_immediate() {
    let (mut state, _) = load("OR A 0b010111\nHLT\nOR A 0b100101\nHLT");
    state.consume_until_halt();
    assert_eq!((state.a, state.b, state.c), (0b010111, 0, 0));
    state.consume_instruction();
    state.consume_until_halt();
    assert_eq!((state.a, state.b, state.c), (0b110111, 0, 0));
}

#[test]
fn nxor_registers() {
    let (mut state, _) = load("NXOR A B\nHLT");
    state.a = 0b101010;
    state.b = 0b110011;
    state.consume_until_halt();
    assert_eq!((state.a, state.b), (0b100110, 0b110011));
}

#[test]
fn nxor_immediate() {
    let (mut state, _) = load("NXOR A 0b010111\nHLT\nNXOR A 0b100101\nHLT");
    state.consume_until_halt();
    assert_eq!((state.a, state.b), (0b101000, 0));
    state.consume_instruction();
    state.consume_until_halt();
    assert_eq!((state.a, state.b), (0b110010, 0));
}

#[test]
fn xor_registers() {
    let (mut state, _) = load("XOR A B\nHLT");
    state.a = 0b101010;
    state.b = 0b110011;
    state.consume_until_halt();
    assert_eq!((state.a, state.b), (0b011001, 0b110011));
}

#[test]
fn xor_immediate() {
    let (mut state, _) = load("XOR A 0b010111\nHLT\nXOR A 0b100101\nHLT");
    state.consume_until_halt();
    assert_eq!((state.a, state.b), (0b010111, 0));
    state.consume_instruction();
    state.consume_until_halt();
    assert_eq!((state.a, state.b), (0b110010, 0));
}

#[test]
fn scenario_not_a() {
    let (mut state, _) = load("NOT A");
    state.a = 0b101101;
    state.consume_instruction();
    assert_eq!((state.a, state.b, state.c), (0b010010, 0, 0));
}

#[test]
fn scenario_and_a_b() {
    let (mut state, _) = load("AND A B\nHLT");
    state.a = 0b101101;
    state.b = 0b110011;
    assert!(state.consume_until_halt());
    assert_eq!((state.a, state.b, state.c), (0b100001, 0b001100, 0));
}

#[test]
fn scenario_rol_a() {
    let (mut state, _) = load("ROL A\nHLT");
    state.a = 0b101101;
    assert!(state.consume_until_halt());
    assert_eq!(state.c, 0b011011);
}

#[test]
fn scenario_label_resolution() {
    let (mut state, info) = load("PC TEST\nNOP\nLAB TEST");
    state.consume_instruction();
    assert_eq!(Some(address(&state)), info.symbol_table.get("TEST"));
    assert_eq!(info.symbol_table.get("TEST"), Some(4));
}

#[test]
fn scenario_lih_equal() {
    let (mut state, info) = load("LIH [A == 1] TEST\nHLT\nLAB TEST\nHLT");
    state.a = 1;
    assert!(state.consume_until_halt());
    assert_eq!(Some(address(&state)), info.symbol_table.get("TEST"));
    let (mut state, _) = load("LIH [A == 1] TEST\nHLT\nLAB TEST\nHLT");
    state.a = 0;
    assert!(state.consume_until_halt());
    assert_eq!(Some(address(&state) + 1), info.symbol_table.get("TEST"));
}

#[test]
fn scenario_add_immediate() {
    let (mut state, _) = load("ADD A 5\nHLT");
    state.a = 3;
    assert!(state.consume_until_halt());
    assert_eq!(state.a, 8);
}

#[test]
fn add_into_carry_register() {
    let (mut state, _) = load("ADD C 5\nHLT");
    state.c = 3;
    assert!(state.consume_until_halt());
    assert_eq!(state.c, 8);
    let (mut state, _) = load("ADD C B\nHLT");
    state.c = 10;
    state.b = 20;
    assert!(state.consume_until_halt());
    assert_eq!(state.c, 30);
}

#[test]
fn sub_immediate() {
    let (mut state, _) = load("SUB A 3\nHLT");
    state.a = 8;
    assert!(state.consume_until_halt());
    assert_eq!(state.a, 5);
}

#[test]
fn not_twice_restores() {
    let (mut state, _) = load("NOT B\nNOT B\nHLT");
    state.b = 0b100110;
    assert!(state.consume_until_halt());
    assert_eq!(state.b, 0b100110);
}

#[test]
fn rotation_ports() {
    let state = InteractiveState::new();
    assert_eq!(state.memory.read((0b111110, 0b100001)), 0b000011);
    assert_eq!(state.memory.read((0b111111, 0b100001)), 0b110000);
    assert_eq!(state.memory.read((0b111101, 0b111110)), 0);
    assert_eq!(state.memory.read((0b111100, 0b111111)), 0);
}

#[test]
fn halt_leaves_pc_on_halt_word() {
    let (mut state, _) = load("NOP\nNOP\nHLT");
    assert!(state.consume_until_halt());
    assert_eq!(state.pc(), (0, 2));
    assert!(state.consume_until_halt());
    assert_eq!(state.pc(), (0, 2));
    state.consume_instruction();
    assert_eq!(state.pc(), (0, 3));
}

#[test]
fn shifts() {
    let (mut state, _) = load("SHL A\nHLT");
    state.a = 0b100011;
    state.consume_until_halt();
    assert_eq!(state.c, 0b000110);
    let (mut state, _) = load("SHR A\nHLT");
    state.a = 0b100011;
    state.consume_until_halt();
    assert_eq!(state.c, 0b010001);
}

#[test]
fn mov_and_set() {
    let (mut state, info) = load("MOV B 0x2A\nSET 'Z'\nHLT");
    state.consume_until_halt();
    assert_eq!(state.b, 0x2A);
    assert_eq!(info.binary[info.binary.len() - 2], 0x29);
}

#[test]
fn store_and_load() {
    let (mut state, _) = load("MOV C 7\nSTO 0b000001 0b000000\nMOV C 0\nLOD 0b000001 0b000000\nHLT");
    state.consume_until_halt();
    assert_eq!(state.c, 7);
    assert_eq!(state.memory.read((1, 0)), 7);
}

#[test]
fn run_to_next_halt() {
    let (mut state, _) = load("HLT\nNOT A\nHLT");
    assert!(state.consume_until_next_halt());
    assert_eq!(state.pc(), (0, 2));
    assert_eq!(state.a, 63);
}

#[test]
fn reserved_words_are_not_executed() {
    let mut state = InteractiveState::new();
    state.memory.store_array(0, &vec![0x0C, 0x0D, 0x0F]);
    assert!(state.consume_instruction());
    assert!(!state.consume_instruction());
    assert_eq!(state.pc(), (0, 1));
    assert!(state.is_reserved());
    assert!(!state.consume_until_halt());
    assert_eq!(state.pc(), (0, 1));
}
