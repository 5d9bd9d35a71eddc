use diana_dcl::codec::{decode_character, encode_character};
use diana_dcl::compile::compile_to_binary;
use diana_dcl::diagnostic::{select_diagnostics, DiagKind, DiagLevel, Diagnostic, IntError};
use diana_dcl::emulation::{InteractiveState, Memory};
use diana_dcl::generator::free_register;
use diana_dcl::instruction::{Instruction, Operation, Register};
use diana_dcl::ir::IrRegister;
use diana_dcl::numeric::u6_from_str_radix;
use diana_dcl::span::Span;
use diana_dcl::symbols::SymbolTable;

#[test]
fn codec_round_trip() {
    for v in 0u8..64 {
        assert_eq!(encode_character(decode_character(v)), Some(v));
    }
    assert_eq!(decode_character(0x10), 'A');
    assert_eq!(decode_character(0x2A), ' ');
    assert_eq!(decode_character(0x3F), '\\');
    assert_eq!(encode_character('a'), None);
}

#[test]
fn numbers_in_each_base() {
    let chars: Vec<char> = "0b1_01 0x3F 63 64 0x".chars().collect();
    assert_eq!(u6_from_str_radix(&chars, 2, 6, 2), Ok(5));
    assert_eq!(u6_from_str_radix(&chars, 9, 11, 16), Ok(63));
    assert_eq!(u6_from_str_radix(&chars, 12, 14, 10), Ok(63));
    assert_eq!(u6_from_str_radix(&chars, 15, 17, 10), Err(IntError::PosOverflow));
    assert_eq!(u6_from_str_radix(&chars, 20, 20, 16), Err(IntError::Empty));
    assert_eq!(u6_from_str_radix(&chars, 0, 3, 10), Err(IntError::InvalidDigit));
}

#[test]
fn free_register_order() {
    assert_eq!(free_register(IrRegister::A, IrRegister::B), IrRegister::C);
    assert_eq!(free_register(IrRegister::C, IrRegister::C), IrRegister::B);
    assert_eq!(free_register(IrRegister::C, IrRegister::B), IrRegister::A);
}

#[test]
fn instruction_fields() {
    let i = Instruction::compose(Operation::Load, Register::Immediate, Register::B);
    assert_eq!(i.raw_value(), 0b101101);
    assert_eq!(i.operation(), Operation::Load);
    assert_eq!(i.one(), Register::Immediate);
    assert_eq!(i.two(), Register::B);
    assert_eq!(Instruction::new_with_raw_value(0b1001111).raw_value(), 0b001111);
}

#[test]
fn line_information() {
    let raw: Vec<char> = "NOP\nHLT\n  BAD".chars().collect();
    let d = Diagnostic::fatal(Span::new(10, 13), DiagKind::UndefinedLabel);
    assert_eq!(d.get_line_info(&raw), (3, 8));
    let first = Diagnostic::fatal(Span::new(1, 2), DiagKind::UndefinedLabel);
    assert_eq!(first.get_line_info(&raw), (1, 0));
}

#[test]
fn diagnostic_selection() {
    let list = vec![
        Diagnostic { level: DiagLevel::Warning, span: Span::new(0, 1), kind: DiagKind::UndefinedLabel },
        Diagnostic::fatal(Span::new(2, 3), DiagKind::DuplicateLabel),
    ];
    assert_eq!(select_diagnostics(&list, DiagLevel::Fatal).len(), 1);
    assert_eq!(select_diagnostics(&list, DiagLevel::Warning).len(), 2);
    assert!(DiagLevel::Fatal.within(DiagLevel::Warning));
    assert!(!DiagLevel::Warning.within(DiagLevel::Fatal));
}

#[test]
fn span_merge() {
    let m = Span::new(4, 6).merge(Span::new(2, 5));
    assert_eq!(m, Span::new(2, 6));
    assert_eq!(m.len(), 4);
}

#[test]
fn symbol_table_lookup() {
    let mut t = SymbolTable::new();
    assert_eq!(t.get("X"), None);
    t.insert("X".to_string(), 7);
    t.insert("Y".to_string(), 9);
    assert_eq!(t.get("X"), Some(7));
    assert_eq!(t.get("Y"), Some(9));
    assert_eq!(t.len(), 2);
}

#[test]
fn memory_ports_and_writes() {
    let mut m = Memory::new();
    m.set_pc((3, 4));
    assert_eq!(m.read((0b111100, 0b111110)), 3);
    assert_eq!(m.read((0b111100, 0b111111)), 4);
    m.write((0, 5), 42);
    assert_eq!(m.read((0, 5)), 42);
    m.write((0b111111, 5), 42);
    assert_eq!(m.read((0b111111, 5)), 0b100010);
    m.store_array(10, &vec![1, 2, 3]);
    assert_eq!(m.read((0, 11)), 2);
}

fn halts_at_label(source: &str, a: u8, label: &str) -> bool {
    let info = compile_to_binary(source, 0);
    assert_eq!(info.diagnostics.len(), 0);
    let mut state = InteractiveState::new();
    state.memory.store_array(0, &info.binary);
    state.a = a;
    assert!(state.consume_until_halt());
    let (hi, lo) = state.pc();
    Some(hi as u16 * 64 + lo as u16) == info.symbol_table.get(label)
}

#[test]
fn lih_not_equal_register_operands() {
    let source = "LIH [A != B] T\nHLT\nLAB T\nHLT";
    assert!(!halts_at_label(source, 0, "T"));
    assert!(halts_at_label(source, 5, "T"));
}

#[test]
fn compile_at_offset() {
    let info = compile_to_binary("NOP\nLAB HERE\nPC HERE", 100);
    assert_eq!(info.symbol_table.get("HERE"), Some(101));
    assert_eq!(info.binary, vec![0x0C, 0b010000 | 0b1111, 1, 37]);
}

fn jump_taken(op: &str, a: u8, b: u8) -> bool {
    let source = format!("LIH [A {op} B] T\nHLT\nLAB T\nHLT");
    let info = compile_to_binary(&source, 0);
    assert_eq!(info.diagnostics.len(), 0);
    let mut state = InteractiveState::new();
    state.memory.store_array(0, &info.binary);
    state.a = a;
    state.b = b;
    assert!(state.consume_until_halt());
    let (hi, lo) = state.pc();
    Some(hi as u16 * 64 + lo as u16) == info.symbol_table.get("T")
}

#[test]
fn lih_orderings() {
    for (a, b) in [(1u8, 2u8), (2, 1), (3, 3), (0, 63), (63, 0)] {
        assert_eq!(jump_taken("<", a, b), a < b);
        assert_eq!(jump_taken("<=", a, b), a <= b);
        assert_eq!(jump_taken(">", a, b), a > b);
        assert_eq!(jump_taken(">=", a, b), a >= b);
        assert_eq!(jump_taken("==", a, b), a == b);
    }
}
