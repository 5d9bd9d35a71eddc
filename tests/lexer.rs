use diana_dcl::lexer::Cursor;
use diana_dcl::tokens::{Base, Keyword, Register, TokenKind};

fn kinds(input: &str) -> Vec<TokenKind> {
    Cursor::new(input).tokenize().into_iter().map(|t| t.kind).collect()
}

#[test]
fn test_tokenize_basic() {
    assert_eq!(
        kinds("A = 42"),
        vec![
            TokenKind::Register(Register::A),
            TokenKind::Eq,
            TokenKind::Numeric { base: Base::Decimal, prefix_len: 0 },
        ]
    );
}

#[test]
fn test_tokenize_keywords_and_identifiers() {
    assert_eq!(
        kinds("LOAD foo BAR"),
        vec![TokenKind::Identifier, TokenKind::Identifier, TokenKind::Identifier]
    );
    assert_eq!(
        kinds("LOD foo BAR"),
        vec![TokenKind::Keyword(Keyword::Lod), TokenKind::Identifier, TokenKind::Identifier]
    );
}

#[test]
fn test_tokenize_numbers() {
    assert_eq!(
        kinds("10 0xFF 0b1010"),
        vec![
            TokenKind::Numeric { base: Base::Decimal, prefix_len: 0 },
            TokenKind::Numeric { base: Base::Hex, prefix_len: 2 },
            TokenKind::Numeric { base: Base::Binary, prefix_len: 2 },
        ]
    );
}

#[test]
fn test_tokenize_symbols_and_comments() {
    assert_eq!(
        kinds("A > B # Comment\n:"),
        vec![
            TokenKind::Register(Register::A),
            TokenKind::Greater,
            TokenKind::Register(Register::B),
            TokenKind::LineComment,
            TokenKind::NewLine,
            TokenKind::Colon,
        ]
    );
}

#[test]
fn test_tokenize_character_literals() {
    assert_eq!(
        kinds("'a' '\n' 'x"),
        vec![
            TokenKind::Character { terminated: true },
            TokenKind::Character { terminated: true },
            TokenKind::Character { terminated: false },
        ]
    );
}

#[test]
fn test_cursor_creation() {
    let input = "test input";
    let cursor = Cursor::new(input);
    assert_eq!(cursor.token_len(), 0);
    assert_eq!(cursor.as_str(), input);
}

#[test]
fn test_is_eof() {
    let mut cursor = Cursor::new("a");
    assert!(!cursor.is_eof());
    cursor.bump();
    assert!(cursor.is_eof());
}

#[test]
fn test_first() {
    let cursor = Cursor::new("abc");
    assert_eq!(cursor.first(), 'a');
}

#[test]
fn test_bump() {
    let mut cursor = Cursor::new("abc");
    assert_eq!(cursor.bump(), Some('a'));
    assert_eq!(cursor.bump(), Some('b'));
    assert_eq!(cursor.bump(), Some('c'));
    assert_eq!(cursor.bump(), None);
}

#[test]
fn test_bump_while() {
    let mut cursor = Cursor::new("aaabbb");
    cursor.bump_while(|c| c == 'a');
    assert_eq!(cursor.as_str(), "bbb");
}

#[test]
fn test_advance_token_identifier() {
    let mut cursor = Cursor::new("A_bc123");
    let token = cursor.advance_token();
    assert_eq!(token.kind, TokenKind::Identifier);
    assert_eq!(token.len(), 7);
}

#[test]
fn test_advance_token_numeric() {
    let mut cursor = Cursor::new("12_3abc");
    let token = cursor.advance_token();
    assert!(matches!(token.kind, TokenKind::Numeric { base: Base::Decimal, prefix_len: 0 }));
    assert_eq!(token.len(), 4);
}

#[test]
fn test_advance_token_hex() {
    let mut cursor = Cursor::new("0xFF_abc");
    let token = cursor.advance_token();
    assert!(matches!(token.kind, TokenKind::Numeric { base: Base::Hex, prefix_len: 2 }));
    assert_eq!(token.len(), 8);
}

#[test]
fn test_advance_token_binary() {
    let mut cursor = Cursor::new("0b10_1010abc");
    let token = cursor.advance_token();
    assert!(matches!(token.kind, TokenKind::Numeric { base: Base::Binary, prefix_len: 2 }));
    assert_eq!(token.len(), 9);
}

#[test]
fn test_advance_token_character() {
    let mut cursor = Cursor::new("'a'bc");
    let token = cursor.advance_token();
    assert!(matches!(token.kind, TokenKind::Character { terminated: true }));
    assert_eq!(token.len(), 3);
}

#[test]
fn test_advance_token_unterminated_character() {
    let mut cursor = Cursor::new("'abc");
    let token = cursor.advance_token();
    assert!(matches!(token.kind, TokenKind::Character { terminated: false }));
    assert_eq!(token.len(), 2);
}

#[test]
fn test_advance_token_line_comment() {
    let mut cursor = Cursor::new("# This is a comment\nabc");
    let token = cursor.advance_token();
    assert_eq!(token.kind, TokenKind::LineComment);
    assert_eq!(token.len(), 19);
}

#[test]
fn test_advance_token_symbols() {
    let input = ":=|!><()[]";
    let expected = vec![
        TokenKind::Colon,
        TokenKind::Eq,
        TokenKind::Or,
        TokenKind::Bang,
        TokenKind::Greater,
        TokenKind::Less,
        TokenKind::OpenParen,
        TokenKind::CloseParen,
        TokenKind::OpenBracket,
        TokenKind::CloseBracket,
    ];
    let mut cursor = Cursor::new(input);
    for expected_kind in expected {
        let token = cursor.advance_token();
        assert_eq!(token.kind, expected_kind);
        assert_eq!(token.len(), 1);
    }
}

#[test]
fn test_advance_token_whitespace() {
    let mut cursor = Cursor::new(" \t\n");
    let token = cursor.advance_token();
    assert_eq!(token.kind, TokenKind::NewLine);
    assert_eq!(token.len(), 1);
    assert_eq!(token.span.start, 2);
}

#[test]
fn test_advance_token_unknown() {
    let mut cursor = Cursor::new("@abc");
    let token = cursor.advance_token();
    assert_eq!(token.kind, TokenKind::Unknown);
    assert_eq!(token.len(), 1);
}

#[test]
fn test_advance_token_eof() {
    let mut cursor = Cursor::new("");
    let token = cursor.advance_token();
    assert_eq!(token.kind, TokenKind::Eof);
    assert_eq!(token.len(), 0);
}

#[test]
fn operator_tokens() {
    assert_eq!(
        kinds("&+-*/"),
        vec![TokenKind::Ampersand, TokenKind::Plus, TokenKind::Minus, TokenKind::Star, TokenKind::Slash]
    );
}

#[test]
fn token_spans_are_exact() {
    let tokens = Cursor::new("NOT  A # x\nHLT").tokenize();
    let spans: Vec<(usize, usize)> = tokens.iter().map(|t| (t.span.start, t.span.end)).collect();
    assert_eq!(spans, vec![(0, 3), (5, 6), (7, 10), (10, 11), (11, 14)]);
    assert_eq!(tokens[0].kind, TokenKind::Keyword(Keyword::Not));
    assert_eq!(tokens[4].kind, TokenKind::Keyword(Keyword::Hlt));
}

#[test]
fn all_keywords_are_recognised() {
    let words = [
        ("NOT", Keyword::Not), ("AND", Keyword::And), ("NAND", Keyword::Nand), ("OR", Keyword::Or),
        ("NOR", Keyword::Nor), ("XOR", Keyword::Xor), ("NXOR", Keyword::Nxor), ("ROL", Keyword::Rol),
        ("ROR", Keyword::Ror), ("SHL", Keyword::Shl), ("SHR", Keyword::Shr), ("ADD", Keyword::Add),
        ("SUB", Keyword::Sub), ("SET", Keyword::SetWord), ("MOV", Keyword::Mov), ("LOD", Keyword::Lod),
        ("STO", Keyword::Sto), ("PC", Keyword::Pc), ("LAB", Keyword::Lab), ("LIH", Keyword::Lih),
        ("NOP", Keyword::Nop), ("HLT", Keyword::Hlt),
    ];
    for (w, k) in words {
        assert_eq!(kinds(w), vec![TokenKind::Keyword(k)]);
    }
    assert_eq!(kinds("not"), vec![TokenKind::Identifier]);
}

#[test]
fn free_tokenize_matches_cursor() {
    let tokens = diana_dcl::lexer::tokenize("PC X\nHLT");
    let kinds: Vec<TokenKind> = tokens.iter().map(|t| t.kind).collect();
    assert_eq!(
        kinds,
        vec![TokenKind::Keyword(Keyword::Pc), TokenKind::Identifier, TokenKind::NewLine, TokenKind::Keyword(Keyword::Hlt)]
    );
}

#[test]
fn identifier_characters() {
    assert!(diana_dcl::lexer::is_ident('a'));
    assert!(diana_dcl::lexer::is_ident('7'));
    assert!(diana_dcl::lexer::is_ident('_'));
    assert!(!diana_dcl::lexer::is_ident('#'));
    assert!(!diana_dcl::lexer::is_ident(' '));
}

#[test]
fn token_start_follows_progress() {
    let mut cursor = Cursor::new("abc");
    cursor.bump();
    cursor.bump();
    assert_eq!(cursor.token_len(), 2);
    assert_eq!(cursor.token_span().end, 2);
    cursor.set_remaining();
    assert_eq!(cursor.token_len(), 0);
    cursor.bump();
    cursor.set_progress();
    assert_eq!(cursor.token_span().start, 3);
}
