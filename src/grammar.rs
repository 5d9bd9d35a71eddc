//! The operand grammar as spec functions over the text: what each operand parser
//! returns and where it stops. Label names are the characters of the text.
use vstd::prelude::*;
use crate::codec::code_of;
use crate::diagnostic::{fatal, DiagKind, Diagnostic, IntError};
use crate::ir::{AddressTuple, Conditional, ConditionalKind, Either, Immediate, IrRegister};
use crate::lexer::token_at;
use crate::numeric::read_digits;
use crate::span::Span;
use crate::tokens::{Base, Register, TokenKind};

verus! {

/// An immediate with label names as character sequences.
pub enum ImmText {
    Constant(u8),
    LabelHi(Seq<char>, Span),
    LabelLo(Seq<char>, Span),
    Not(Box<ImmText>),
    And(Box<ImmText>, Box<ImmText>),
    Or(Box<ImmText>, Box<ImmText>),
    Add(Box<ImmText>, Box<ImmText>),
    Sub(Box<ImmText>, Box<ImmText>),
    Mul(Box<ImmText>, Box<ImmText>),
    Div(Box<ImmText>, Box<ImmText>),
    Rol(Box<ImmText>, Box<ImmText>),
    Ror(Box<ImmText>, Box<ImmText>),
}

pub enum EitherText {
    Register(IrRegister),
    Immediate(ImmText),
}

pub struct ConditionalText {
    pub left: EitherText,
    pub kind: ConditionalKind,
    pub right: EitherText,
}

pub open spec fn imm_view(i: Immediate) -> ImmText
    decreases i,
{
    match i {
        Immediate::Constant(v) => ImmText::Constant(v),
        Immediate::LabelHi(n, s) => ImmText::LabelHi(n@, s),
        Immediate::LabelLo(n, s) => ImmText::LabelLo(n@, s),
        Immediate::Not(x) => ImmText::Not(Box::new(imm_view(*x))),
        Immediate::And(x, y) => ImmText::And(Box::new(imm_view(*x)), Box::new(imm_view(*y))),
        Immediate::Or(x, y) => ImmText::Or(Box::new(imm_view(*x)), Box::new(imm_view(*y))),
        Immediate::Add(x, y) => ImmText::Add(Box::new(imm_view(*x)), Box::new(imm_view(*y))),
        Immediate::Sub(x, y) => ImmText::Sub(Box::new(imm_view(*x)), Box::new(imm_view(*y))),
        Immediate::Mul(x, y) => ImmText::Mul(Box::new(imm_view(*x)), Box::new(imm_view(*y))),
        Immediate::Div(x, y) => ImmText::Div(Box::new(imm_view(*x)), Box::new(imm_view(*y))),
        Immediate::Rol(x, y) => ImmText::Rol(Box::new(imm_view(*x)), Box::new(imm_view(*y))),
        Immediate::Ror(x, y) => ImmText::Ror(Box::new(imm_view(*x)), Box::new(imm_view(*y))),
    }
}

pub open spec fn either_view(e: Either) -> EitherText {
    match e {
        Either::Register(r) => EitherText::Register(r),
        Either::Immediate(i) => EitherText::Immediate(imm_view(i)),
    }
}

pub open spec fn address_view(a: AddressTuple) -> (EitherText, EitherText) {
    (either_view(a.0), either_view(a.1))
}

pub open spec fn conditional_view(c: Conditional) -> ConditionalText {
    ConditionalText { left: either_view(c.left), kind: c.kind, right: either_view(c.right) }
}

pub open spec fn span_of(t: (TokenKind, int, int)) -> Span {
    Span { start: t.1 as usize, end: t.2 as usize }
}

/// The diagnostic for an unexpected token.
pub open spec fn unexpected(t: (TokenKind, int, int), expected: &'static str) -> Diagnostic {
    fatal(span_of(t), DiagKind::UnexpectedToken { found: t.0, expected })
}

pub open spec fn ir_register(r: Register) -> IrRegister {
    match r {
        Register::A => IrRegister::A,
        Register::B => IrRegister::B,
        Register::C => IrRegister::C,
    }
}

pub open spec fn radix_of(b: Base) -> u32 {
    match b {
        Base::Binary => 2,
        Base::Decimal => 10,
        Base::Hex => 16,
    }
}

/// The constant of a numeric token `t`.
pub open spec fn numeric_at(text: Seq<char>, t: (TokenKind, int, int), base: Base, prefix_len: usize) -> Result<ImmText, Diagnostic> {
    if t.1 + prefix_len > t.2 {
        Err(fatal(span_of(t), DiagKind::ParseImmediate(IntError::Empty)))
    } else {
        match read_digits(text.subrange(t.1 + prefix_len, t.2), radix_of(base)) {
            Ok(v) => Ok(ImmText::Constant(v)),
            Err(e) => Err(fatal(span_of(t), DiagKind::ParseImmediate(e))),
        }
    }
}

/// The constant of a character token `t`.
pub open spec fn character_at(text: Seq<char>, t: (TokenKind, int, int), terminated: bool) -> Result<ImmText, Diagnostic> {
    if !terminated || t.2 - t.1 < 2 {
        Err(fatal(span_of(t), DiagKind::IncompleteCharacter))
    } else {
        match code_of(text[t.1 + 1]) {
            Some(v) => Ok(ImmText::Constant(v)),
            None => Err(fatal(span_of(t), DiagKind::UnsupportedCharacter(text[t.1 + 1]))),
        }
    }
}

/// `name:0` or `name:1`, where `t` is the name's token.
pub open spec fn label_at(text: Seq<char>, t: (TokenKind, int, int)) -> Result<(ImmText, int), Diagnostic> {
    let c = token_at(text, t.2);
    let n = token_at(text, c.2);
    let name = text.subrange(t.1, t.2);
    let span = Span {
        start: (if t.1 <= n.1 { t.1 } else { n.1 }) as usize,
        end: (if t.2 >= n.2 { t.2 } else { n.2 }) as usize,
    };
    if c.0 != TokenKind::Colon {
        Err(unexpected(c, "Colon"))
    } else if n.0 is Numeric && n.2 == n.1 + 1 && text[n.1] == '0' {
        Ok((ImmText::LabelHi(name, span), n.2))
    } else if n.0 is Numeric && n.2 == n.1 + 1 && text[n.1] == '1' {
        Ok((ImmText::LabelLo(name, span), n.2))
    } else {
        Err(unexpected(n, "Numeric(Decimal(`0` | `1`))"))
    }
}

/// The operator of a chain that starts at `t` (with `u` after it): 0 to 7 for
/// `& | + - * / << >>`, 8 for none.
pub open spec fn operator_code(t: TokenKind, u: TokenKind) -> u8 {
    match t {
        TokenKind::Ampersand => 0,
        TokenKind::Or => 1,
        TokenKind::Plus => 2,
        TokenKind::Minus => 3,
        TokenKind::Star => 4,
        TokenKind::Slash => 5,
        TokenKind::Less => if u == TokenKind::Less { 6 } else { 8 },
        TokenKind::Greater => if u == TokenKind::Greater { 7 } else { 8 },
        _ => 8,
    }
}

pub open spec fn combine(code: u8, a: ImmText, b: ImmText) -> ImmText {
    if code == 0 {
        ImmText::And(Box::new(a), Box::new(b))
    } else if code == 1 {
        ImmText::Or(Box::new(a), Box::new(b))
    } else if code == 2 {
        ImmText::Add(Box::new(a), Box::new(b))
    } else if code == 3 {
        ImmText::Sub(Box::new(a), Box::new(b))
    } else if code == 4 {
        ImmText::Mul(Box::new(a), Box::new(b))
    } else if code == 5 {
        ImmText::Div(Box::new(a), Box::new(b))
    } else if code == 6 {
        ImmText::Rol(Box::new(a), Box::new(b))
    } else {
        ImmText::Ror(Box::new(a), Box::new(b))
    }
}

/// The immediate that starts at `pos` and the position after it.
pub open spec fn imm_at(text: Seq<char>, pos: int) -> Result<(ImmText, int), Diagnostic>
    decreases text.len() - pos, 1int,
{
    let t = token_at(text, pos);
    if t.0 == TokenKind::Eof || t.2 <= pos || t.2 > text.len() || pos < 0 {
        Err(unexpected(t, "OpenParen | Bang | Numeric | Label | Character"))
    } else {
        match t.0 {
            TokenKind::OpenParen => match imm_at(text, t.2) {
                Err(d) => Err(d),
                Ok((first, e1)) => if e1 <= pos || e1 > text.len() {
                    Ok((first, e1))
                } else {
                    match chain_at(text, e1, first) {
                        Err(d) => Err(d),
                        Ok((v, e2)) => {
                            let c = token_at(text, e2);
                            if c.0 == TokenKind::CloseParen {
                                Ok((v, c.2))
                            } else {
                                Err(unexpected(c, "CloseParen"))
                            }
                        },
                    }
                },
            },
            TokenKind::Bang => match imm_at(text, t.2) {
                Err(d) => Err(d),
                Ok((v, e)) => Ok((ImmText::Not(Box::new(v)), e)),
            },
            TokenKind::Identifier => label_at(text, t),
            TokenKind::Numeric { base, prefix_len } => match numeric_at(text, t, base, prefix_len) {
                Ok(v) => Ok((v, t.2)),
                Err(d) => Err(d),
            },
            TokenKind::Character { terminated } => match character_at(text, t, terminated) {
                Ok(v) => Ok((v, t.2)),
                Err(d) => Err(d),
            },
            _ => Err(unexpected(t, "OpenParen | Bang | Numeric | Label | Character")),
        }
    }
}

/// Operators and operands from `pos` on, combined from the left onto `acc`.
pub open spec fn chain_at(text: Seq<char>, pos: int, acc: ImmText) -> Result<(ImmText, int), Diagnostic>
    decreases text.len() - pos, 0int,
{
    let t = token_at(text, pos);
    let u = token_at(text, t.2);
    let code = operator_code(t.0, u.0);
    let q = if code >= 6 { u.2 } else { t.2 };
    if code == 8 || q <= pos || q > text.len() || pos < 0 {
        Ok((acc, pos))
    } else {
        match imm_at(text, q) {
            Err(d) => Err(d),
            Ok((next, e)) => if e <= pos || e > text.len() {
                Ok((acc, pos))
            } else {
                chain_at(text, e, combine(code, acc, next))
            },
        }
    }
}

/// A register or an immediate at `pos`.
pub open spec fn either_at(text: Seq<char>, pos: int) -> Result<(EitherText, int), Diagnostic> {
    let t = token_at(text, pos);
    match t.0 {
        TokenKind::Register(x) => Ok((EitherText::Register(ir_register(x)), t.2)),
        _ => match imm_at(text, pos) {
            Ok((i, e)) => Ok((EitherText::Immediate(i), e)),
            Err(d) => Err(d),
        },
    }
}

/// An address at `pos`: a bare label name, or two operands.
pub open spec fn address_at(text: Seq<char>, pos: int) -> Result<((EitherText, EitherText), int), Diagnostic> {
    let t = token_at(text, pos);
    let u = token_at(text, t.2);
    if t.0 == TokenKind::Identifier && u.0 != TokenKind::Colon {
        let name = text.subrange(t.1, t.2);
        Ok(((EitherText::Immediate(ImmText::LabelHi(name, span_of(t))),
            EitherText::Immediate(ImmText::LabelLo(name, span_of(t)))), t.2))
    } else {
        match either_at(text, pos) {
            Err(d) => Err(d),
            Ok((hi, e1)) => match either_at(text, e1) {
                Err(d) => Err(d),
                Ok((lo, e2)) => Ok(((hi, lo), e2)),
            },
        }
    }
}

/// The comparison that starts at `pos` and the position after it.
pub open spec fn comparison_at(text: Seq<char>, pos: int) -> Result<(ConditionalKind, int), Diagnostic> {
    let t = token_at(text, pos);
    let u = token_at(text, t.2);
    if t.0 == TokenKind::Eq || t.0 == TokenKind::Bang {
        if u.0 == TokenKind::Eq {
            Ok((if t.0 == TokenKind::Eq { ConditionalKind::Eq } else { ConditionalKind::NotEq }, u.2))
        } else {
            Err(unexpected(u, "Eq"))
        }
    } else if t.0 == TokenKind::Greater {
        if u.0 == TokenKind::Eq { Ok((ConditionalKind::GreaterEq, u.2)) } else { Ok((ConditionalKind::Greater, t.2)) }
    } else if t.0 == TokenKind::Less {
        if u.0 == TokenKind::Eq { Ok((ConditionalKind::LessEq, u.2)) } else { Ok((ConditionalKind::Less, t.2)) }
    } else {
        Err(unexpected(t, "Eq | Bang | Greater | Less"))
    }
}

/// `[ operand comparison operand ]` at `pos`.
pub open spec fn conditional_at(text: Seq<char>, pos: int) -> Result<(ConditionalText, int), Diagnostic> {
    let o = token_at(text, pos);
    if o.0 != TokenKind::OpenBracket {
        Err(unexpected(o, "OpenBracket"))
    } else {
        match either_at(text, o.2) {
            Err(d) => Err(d),
            Ok((left, e1)) => match comparison_at(text, e1) {
                Err(d) => Err(d),
                Ok((kind, e2)) => match either_at(text, e2) {
                    Err(d) => Err(d),
                    Ok((right, e3)) => {
                        let c = token_at(text, e3);
                        if c.0 == TokenKind::CloseBracket {
                            Ok((ConditionalText { left, kind, right }, c.2))
                        } else {
                            Err(unexpected(c, "CloseBracket"))
                        }
                    },
                },
            },
        }
    }
}

} // verus!
