//! The intermediate representation: primitives, operands and immediate expressions.
use vstd::prelude::*;
use crate::diagnostic::{fatal, DiagKind, Diagnostic};
use crate::span::Span;
use crate::symbols::SymbolTable;
use crate::word::{hi6, lo6, not6, rotl6, rotr6, lemma_mask6, not_w6, rotl_w6, rotr_w6};

verus! {

#[derive(Clone, Copy, Debug, PartialEq, Eq, Structural)]
pub enum IrRegister {
    A,
    B,
    C,
}

/// A 6-bit value computed when the program is assembled.
#[derive(Debug, PartialEq)]
pub enum Immediate {
    Constant(u8),
    /// High six bits of a label's address.
    LabelHi(String, Span),
    /// Low six bits of a label's address.
    LabelLo(String, Span),
    Not(Box<Immediate>),
    And(Box<Immediate>, Box<Immediate>),
    Or(Box<Immediate>, Box<Immediate>),
    Add(Box<Immediate>, Box<Immediate>),
    Sub(Box<Immediate>, Box<Immediate>),
    Mul(Box<Immediate>, Box<Immediate>),
    Div(Box<Immediate>, Box<Immediate>),
    Rol(Box<Immediate>, Box<Immediate>),
    Ror(Box<Immediate>, Box<Immediate>),
}

/// An operand: a register or an immediate that follows the instruction word.
#[derive(Debug, PartialEq)]
pub enum Either {
    Register(IrRegister),
    Immediate(Immediate),
}

/// A 12-bit address given as its high and low halves.
#[derive(Debug, PartialEq)]
pub struct AddressTuple(pub Either, pub Either);

#[derive(Clone, Copy, Debug, PartialEq, Eq, Structural)]
pub enum ConditionalKind {
    Eq,
    NotEq,
    Greater,
    GreaterEq,
    Less,
    LessEq,
}

#[derive(Debug, PartialEq)]
pub struct Conditional {
    pub left: Either,
    pub kind: ConditionalKind,
    pub right: Either,
}

#[derive(Debug, PartialEq)]
pub enum Ir {
    Nor(IrRegister, Either),
    Pc(AddressTuple),
    Lod(AddressTuple),
    Sto(AddressTuple),
    /// A raw word.
    SetWord(Immediate),
    Nop,
    Hlt,
}

pub open spec fn either_len(e: Either) -> nat {
    match e {
        Either::Register(_) => 0,
        Either::Immediate(_) => 1,
    }
}

/// Number of machine words a node assembles to.
pub open spec fn ir_len(ir: Ir) -> nat {
    match ir {
        Ir::Nor(_, e) => 1 + either_len(e),
        Ir::Pc(a) => 1 + either_len(a.0) + either_len(a.1),
        Ir::Lod(a) => 1 + either_len(a.0) + either_len(a.1),
        Ir::Sto(a) => 1 + either_len(a.0) + either_len(a.1),
        Ir::SetWord(_) => 1,
        Ir::Nop => 1,
        Ir::Hlt => 1,
    }
}

/// Number of machine words a sequence of nodes assembles to.
pub open spec fn total_len(s: Seq<Ir>) -> nat
    decreases s.len(),
{
    if s.len() == 0 {
        0
    } else {
        total_len(s.drop_last()) + ir_len(s.last())
    }
}

pub proof fn lemma_total_len_push(s: Seq<Ir>, x: Ir)
    ensures
        total_len(s.push(x)) == total_len(s) + ir_len(x),
{
    assert(s.push(x).drop_last() =~= s);
}

pub proof fn lemma_total_len_append(s: Seq<Ir>, t: Seq<Ir>)
    ensures
        total_len(s + t) == total_len(s) + total_len(t),
    decreases t.len(),
{
    if t.len() > 0 {
        assert((s + t).drop_last() =~= s + t.drop_last());
        lemma_total_len_append(s, t.drop_last());
    } else {
        assert(s + t =~= s);
    }
}

impl Either {
    pub fn len(&self) -> (r: u16)
        ensures
            r == either_len(*self),
    {
        match self {
            Either::Register(_) => 0,
            Either::Immediate(_) => 1,
        }
    }

    /// An equal copy.
    pub fn duplicate(&self) -> (r: Either)
        ensures
            r == *self,
    {
        match self {
            Either::Register(reg) => Either::Register(*reg),
            Either::Immediate(imm) => Either::Immediate(imm.duplicate()),
        }
    }
}

impl AddressTuple {
    pub fn len(&self) -> (r: u16)
        ensures
            r == either_len(self.0) + either_len(self.1),
    {
        self.0.len() + self.1.len()
    }

    pub fn duplicate(&self) -> (r: AddressTuple)
        ensures
            r == *self,
    {
        AddressTuple(self.0.duplicate(), self.1.duplicate())
    }
}

impl Ir {
    pub fn len(&self) -> (r: u16)
        ensures
            r == ir_len(*self),
    {
        match self {
            Ir::Nor(_, either) => 1 + either.len(),
            Ir::Pc(address) | Ir::Lod(address) | Ir::Sto(address) => 1 + address.len(),
            Ir::SetWord(_) => 1,
            Ir::Nop => 1,
            Ir::Hlt => 1,
        }
    }
}

/// Combines two evaluated operands; the left one's failure comes first.
pub open spec fn both(l: Result<u8, Span>, r: Result<u8, Span>, f: spec_fn(u8, u8) -> u8) -> Result<u8, Span> {
    match l {
        Err(e) => Err(e),
        Ok(a) => match r {
            Err(e) => Err(e),
            Ok(b) => Ok(f(a, b)),
        },
    }
}

pub open spec fn add6(a: u8, b: u8) -> u8 {
    ((a as int + b as int) % 64) as u8
}

pub open spec fn sub6(a: u8, b: u8) -> u8 {
    ((a as int - b as int + 64) % 64) as u8
}

pub open spec fn mul6(a: u8, b: u8) -> u8 {
    ((a as int * b as int) % 64) as u8
}

/// Division; a zero divisor gives all ones.
pub open spec fn div6(a: u8, b: u8) -> u8 {
    if b == 0 { 63 } else { a / b }
}

/// The value of an immediate against a symbol table, or the span of the first label
/// (left to right) that the table lacks.
pub open spec fn eval(imm: Immediate, table: SymbolTable) -> Result<u8, Span>
    decreases imm,
{
    match imm {
        Immediate::Constant(v) => Ok(v & 63u8),
        Immediate::LabelHi(name, span) => match table.get_spec(name@) {
            Some(a) => Ok(hi6(a)),
            None => Err(span),
        },
        Immediate::LabelLo(name, span) => match table.get_spec(name@) {
            Some(a) => Ok(lo6(a)),
            None => Err(span),
        },
        Immediate::Not(x) => match eval(*x, table) {
            Ok(v) => Ok(not6(v)),
            Err(e) => Err(e),
        },
        Immediate::And(x, y) => both(eval(*x, table), eval(*y, table), |a: u8, b: u8| a & b),
        Immediate::Or(x, y) => both(eval(*x, table), eval(*y, table), |a: u8, b: u8| a | b),
        Immediate::Add(x, y) => both(eval(*x, table), eval(*y, table), |a: u8, b: u8| add6(a, b)),
        Immediate::Sub(x, y) => both(eval(*x, table), eval(*y, table), |a: u8, b: u8| sub6(a, b)),
        Immediate::Mul(x, y) => both(eval(*x, table), eval(*y, table), |a: u8, b: u8| mul6(a, b)),
        Immediate::Div(x, y) => both(eval(*x, table), eval(*y, table), |a: u8, b: u8| div6(a, b)),
        Immediate::Rol(x, y) => both(eval(*x, table), eval(*y, table), |a: u8, b: u8| rotl6(a, b % 6)),
        Immediate::Ror(x, y) => both(eval(*x, table), eval(*y, table), |a: u8, b: u8| rotr6(a, b % 6)),
    }
}

/// What `flatten` returns for an evaluation result.
pub open spec fn flatten_result(e: Result<u8, Span>) -> Result<u8, Diagnostic> {
    match e {
        Ok(v) => Ok(v),
        Err(span) => Err(fatal(span, DiagKind::UndefinedLabel)),
    }
}

proof fn lemma_bits(a: u8, b: u8)
    requires
        a < 64,
        b < 64,
    ensures
        a & b < 64,
        a | b < 64,
{
    assert(a & b < 64 && a | b < 64) by (bit_vector)
        requires a < 64u8 && b < 64u8;
}

fn and_w6(a: u8, b: u8) -> (r: u8)
    requires
        a < 64,
        b < 64,
    ensures
        r == a & b,
        r < 64,
{
    proof { lemma_bits(a, b); }
    a & b
}

fn or_w6(a: u8, b: u8) -> (r: u8)
    requires
        a < 64,
        b < 64,
    ensures
        r == a | b,
        r < 64,
{
    proof { lemma_bits(a, b); }
    a | b
}

fn add_w6(a: u8, b: u8) -> (r: u8)
    requires
        a < 64,
        b < 64,
    ensures
        r == add6(a, b),
        r < 64,
{
    (a + b) % 64
}

fn sub_w6(a: u8, b: u8) -> (r: u8)
    requires
        a < 64,
        b < 64,
    ensures
        r == sub6(a, b),
        r < 64,
{
    (a + 64 - b) % 64
}

fn mul_w6(a: u8, b: u8) -> (r: u8)
    requires
        a < 64,
        b < 64,
    ensures
        r == mul6(a, b),
        r < 64,
{
    assert((a as u16) * (b as u16) < 4096) by (nonlinear_arith)
        requires a < 64, b < 64;
    let wide: u16 = (a as u16) * (b as u16);
    (wide % 64) as u8
}

fn div_w6(a: u8, b: u8) -> (r: u8)
    requires
        a < 64,
        b < 64,
    ensures
        r == div6(a, b),
        r < 64,
{
    if b == 0 {
        63
    } else {
        a / b
    }
}

impl Immediate {
    /// An equal copy.
    pub fn duplicate(&self) -> (r: Immediate)
        ensures
            r == *self,
        decreases self,
    {
        match self {
            Immediate::Constant(v) => Immediate::Constant(*v),
            Immediate::LabelHi(n, s) => Immediate::LabelHi(n.clone(), *s),
            Immediate::LabelLo(n, s) => Immediate::LabelLo(n.clone(), *s),
            Immediate::Not(x) => Immediate::Not(Box::new((**x).duplicate())),
            Immediate::And(x, y) => Immediate::And(Box::new((**x).duplicate()), Box::new((**y).duplicate())),
            Immediate::Or(x, y) => Immediate::Or(Box::new((**x).duplicate()), Box::new((**y).duplicate())),
            Immediate::Add(x, y) => Immediate::Add(Box::new((**x).duplicate()), Box::new((**y).duplicate())),
            Immediate::Sub(x, y) => Immediate::Sub(Box::new((**x).duplicate()), Box::new((**y).duplicate())),
            Immediate::Mul(x, y) => Immediate::Mul(Box::new((**x).duplicate()), Box::new((**y).duplicate())),
            Immediate::Div(x, y) => Immediate::Div(Box::new((**x).duplicate()), Box::new((**y).duplicate())),
            Immediate::Rol(x, y) => Immediate::Rol(Box::new((**x).duplicate()), Box::new((**y).duplicate())),
            Immediate::Ror(x, y) => Immediate::Ror(Box::new((**x).duplicate()), Box::new((**y).duplicate())),
        }
    }

    /// Evaluates the expression modulo 64 against the symbol table.
    #[verifier::rlimit(60)]
    #[verifier::spinoff_prover]
    pub fn flatten(&self, table: &SymbolTable) -> (r: Result<u8, Diagnostic>)
        requires
            table.wf(),
        ensures
            r == flatten_result(eval(*self, *table)),
            r matches Ok(v) ==> v < 64,
        decreases self,
    {
        match self {
            Immediate::Constant(v) => {
                proof { lemma_mask6(*v); }
                Ok(*v & 63)
            },
            Immediate::LabelHi(name, span) => match table.lookup(name) {
                Some(a) => Ok(((a / 64) % 64) as u8),
                None => Err(Diagnostic::fatal(*span, DiagKind::UndefinedLabel)),
            },
            Immediate::LabelLo(name, span) => match table.lookup(name) {
                Some(a) => Ok((a % 64) as u8),
                None => Err(Diagnostic::fatal(*span, DiagKind::UndefinedLabel)),
            },
            Immediate::Not(x) => {
                let v = (**x).flatten(table)?;
                Ok(not_w6(v))
            },
            Immediate::And(x, y) => {
                let a = (**x).flatten(table)?;
                let b = (**y).flatten(table)?;
                Ok(and_w6(a, b))
            },
            Immediate::Or(x, y) => {
                let a = (**x).flatten(table)?;
                let b = (**y).flatten(table)?;
                Ok(or_w6(a, b))
            },
            Immediate::Add(x, y) => {
                let a = (**x).flatten(table)?;
                let b = (**y).flatten(table)?;
                Ok(add_w6(a, b))
            },
            Immediate::Sub(x, y) => {
                let a = (**x).flatten(table)?;
                let b = (**y).flatten(table)?;
                Ok(sub_w6(a, b))
            },
            Immediate::Mul(x, y) => {
                let a = (**x).flatten(table)?;
                let b = (**y).flatten(table)?;
                Ok(mul_w6(a, b))
            },
            Immediate::Div(x, y) => {
                let a = (**x).flatten(table)?;
                let b = (**y).flatten(table)?;
                Ok(div_w6(a, b))
            },
            Immediate::Rol(x, y) => {
                let a = (**x).flatten(table)?;
                let b = (**y).flatten(table)?;
                Ok(rotl_w6(a, b % 6))
            },
            Immediate::Ror(x, y) => {
                let a = (**x).flatten(table)?;
                let b = (**y).flatten(table)?;
                Ok(rotr_w6(a, b % 6))
            },
        }
    }
}

} // verus!
