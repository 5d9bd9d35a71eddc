//! The 6-bit instruction word: operation in bits 5..4, first operand in 3..2,
//! second operand in 1..0.
use vstd::prelude::*;

verus! {

#[derive(Clone, Copy, Debug, PartialEq, Eq, Structural)]
pub enum Operation {
    Nor,
    Pc,
    Load,
    Store,
}

/// An operand field: a register, or an immediate in the next word.
#[derive(Clone, Copy, Debug, PartialEq, Eq, Structural)]
pub enum Register {
    A,
    B,
    C,
    Immediate,
}

pub open spec fn op_code(op: Operation) -> u8 {
    match op {
        Operation::Nor => 0,
        Operation::Pc => 1,
        Operation::Load => 2,
        Operation::Store => 3,
    }
}

pub open spec fn reg_code(r: Register) -> u8 {
    match r {
        Register::A => 0,
        Register::B => 1,
        Register::C => 2,
        Register::Immediate => 3,
    }
}

pub open spec fn op_from(c: u8) -> Operation {
    if c == 0 { Operation::Nor } else if c == 1 { Operation::Pc } else if c == 2 { Operation::Load } else { Operation::Store }
}

pub open spec fn reg_from(c: u8) -> Register {
    if c == 0 { Register::A } else if c == 1 { Register::B } else if c == 2 { Register::C } else { Register::Immediate }
}

/// The word of an instruction.
pub open spec fn encode(op: Operation, one: Register, two: Register) -> u8 {
    (op_code(op) * 16 + reg_code(one) * 4 + reg_code(two)) as u8
}

pub open spec fn decode_op(w: u8) -> Operation {
    op_from(((w / 16) % 4) as u8)
}

pub open spec fn decode_one(w: u8) -> Register {
    reg_from(((w / 4) % 4) as u8)
}

pub open spec fn decode_two(w: u8) -> Register {
    reg_from((w % 4) as u8)
}

/// One 6-bit word of machine code.
#[derive(Clone, Copy, Debug, PartialEq, Eq, Structural)]
pub struct Instruction {
    raw: u8,
}

impl Instruction {
    pub closed spec fn word(&self) -> u8 {
        self.raw
    }

    pub open spec fn wf(&self) -> bool {
        self.word() < 64
    }

    /// A word holding the low six bits of `value`.
    pub fn new_with_raw_value(value: u8) -> (r: Instruction)
        ensures
            r.word() == value % 64,
            r.wf(),
    {
        Instruction { raw: value % 64 }
    }

    pub fn raw_value(&self) -> (r: u8)
        ensures
            r == self.word(),
    {
        self.raw
    }

    /// The instruction word for an operation and its two operand fields.
    pub fn compose(operation: Operation, one: Register, two: Register) -> (r: Instruction)
        ensures
            r.word() == encode(operation, one, two),
            r.wf(),
    {
        let o: u8 = match operation {
            Operation::Nor => 0,
            Operation::Pc => 1,
            Operation::Load => 2,
            Operation::Store => 3,
        };
        Instruction { raw: o * 16 + register_code(one) * 4 + register_code(two) }
    }

    pub fn operation(&self) -> (r: Operation)
        ensures
            r == decode_op(self.word()),
    {
        let c = (self.raw / 16) % 4;
        if c == 0 { Operation::Nor } else if c == 1 { Operation::Pc } else if c == 2 { Operation::Load } else { Operation::Store }
    }

    pub fn one(&self) -> (r: Register)
        ensures
            r == decode_one(self.word()),
    {
        register_from((self.raw / 4) % 4)
    }

    pub fn two(&self) -> (r: Register)
        ensures
            r == decode_two(self.word()),
    {
        register_from(self.raw % 4)
    }
}

fn register_code(r: Register) -> (c: u8)
    ensures
        c == reg_code(r),
{
    match r {
        Register::A => 0,
        Register::B => 1,
        Register::C => 2,
        Register::Immediate => 3,
    }
}

fn register_from(c: u8) -> (r: Register)
    ensures
        r == reg_from(c),
{
    if c == 0 { Register::A } else if c == 1 { Register::B } else if c == 2 { Register::C } else { Register::Immediate }
}

/// An instruction word decodes back to its operation and operand fields.
pub proof fn lemma_decode_encode(op: Operation, one: Register, two: Register)
    ensures
        encode(op, one, two) < 64,
        decode_op(encode(op, one, two)) == op,
        decode_one(encode(op, one, two)) == one,
        decode_two(encode(op, one, two)) == two,
{
}

} // verus!
