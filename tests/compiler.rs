use diana_dcl::compile::compile_to_binary;
use diana_dcl::diagnostic::{DiagKind, DiagLevel, IntError};
use diana_dcl::generator::IrGenerator;
use diana_dcl::ir::{Either, Immediate, IrRegister};
use diana_dcl::labels::unique_label;
use diana_dcl::span::Span;
use diana_dcl::tokens::TokenKind;

#[test]
fn duplicate_label_reported_once() {
    let info = compile_to_binary("LAB X\nNOP\nLAB X\nHLT", 0);
    assert_eq!(info.diagnostics.len(), 1);
    assert_eq!(info.diagnostics[0].kind, DiagKind::DuplicateLabel);
    assert_eq!(info.diagnostics[0].level, DiagLevel::Fatal);
    assert_eq!(info.diagnostics[0].span, Span::new(14, 15));
    assert_eq!(info.symbol_table.get("X"), Some(0));
}

#[test]
fn undefined_label_reported() {
    let info = compile_to_binary("PC NOWHERE\nHLT", 0);
    assert_eq!(info.diagnostics.len(), 1);
    assert_eq!(info.diagnostics[0].kind, DiagKind::UndefinedLabel);
}

#[test]
fn unexpected_token_and_recovery() {
    let info = compile_to_binary("NOT 5\nHLT", 0);
    assert_eq!(info.diagnostics.len(), 1);
    assert!(matches!(info.diagnostics[0].kind, DiagKind::UnexpectedToken { found: TokenKind::Numeric { .. }, .. }));
    assert_eq!(info.binary, vec![0x0F]);
}

#[test]
fn immediate_errors() {
    let info = compile_to_binary("SET 64", 0);
    assert_eq!(info.diagnostics[0].kind, DiagKind::ParseImmediate(IntError::PosOverflow));
    let info = compile_to_binary("SET 0x", 0);
    assert_eq!(info.diagnostics[0].kind, DiagKind::ParseImmediate(IntError::Empty));
    let info = compile_to_binary("SET 'A", 0);
    assert_eq!(info.diagnostics[0].kind, DiagKind::IncompleteCharacter);
    let info = compile_to_binary("SET '~'", 0);
    assert_eq!(info.diagnostics[0].kind, DiagKind::UnsupportedCharacter('~'));
}

#[test]
fn immediate_expressions() {
    let info = compile_to_binary("SET (5 + 61)\nSET (3 - 5)\nSET (7 * 10)\nSET (9 / 2)\nSET !1\nSET (0b100001 << 1)\nSET (0b100001 >> 1)\nSET (6 & 3)\nSET (6 | 3)\nSET 1_0", 0);
    assert_eq!(info.diagnostics.len(), 0);
    assert_eq!(info.binary, vec![2, 62, 6, 4, 62, 3, 48, 2, 7, 10]);
}

#[test]
fn label_halves() {
    let info = compile_to_binary("LAB START\nSET START:0\nSET START:1", 0x123);
    assert_eq!(info.diagnostics.len(), 0);
    assert_eq!(info.binary, vec![(0x123u16 >> 6) as u8, (0x123u16 & 63) as u8]);
}

#[test]
fn primitive_word_layout() {
    let info = compile_to_binary("NOR A B\nNOR C 5\nPC A 3\nNOP\nHLT", 0);
    assert_eq!(info.binary, vec![0b000001, 0b001011, 5, 0b010011, 3, 0x0C, 0x0F]);
}

#[test]
fn mov_to_itself_emits_nothing() {
    let mut g = IrGenerator::new(0);
    g.mov(IrRegister::A, Either::Register(IrRegister::A));
    assert_eq!(g.next_address(), 0);
    g.mov(IrRegister::A, Either::Immediate(Immediate::Constant(1)));
    assert_eq!(g.next_address(), 5);
}

#[test]
fn addresses_follow_lengths() {
    let info = compile_to_binary("NOT A\nLAB ONE\nNOR A 1\nLAB TWO\nPC ONE\nLAB THREE", 10);
    assert_eq!(info.symbol_table.get("ONE"), Some(11));
    assert_eq!(info.symbol_table.get("TWO"), Some(13));
    assert_eq!(info.symbol_table.get("THREE"), Some(16));
}

#[test]
fn generated_label_names() {
    assert_eq!(unique_label(0), "#0");
    assert_eq!(unique_label(1234), "#1234");
}

#[test]
fn comments_and_blank_lines() {
    let info = compile_to_binary("# header\n\nNOP # trailing\nHLT\n", 0);
    assert_eq!(info.diagnostics.len(), 0);
    assert_eq!(info.binary, vec![0x0C, 0x0F]);
}
