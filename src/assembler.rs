//! Lowers IR nodes to machine words with a resolved symbol table.
use vstd::prelude::*;
use crate::diagnostic::{fatal, DiagKind, Diagnostic};
use crate::instruction::{encode, Instruction, Operation, Register};
use crate::ir::{eval, ir_len, AddressTuple, Either, Immediate, Ir, IrRegister};
use crate::symbols::SymbolTable;

verus! {

/// The word of the reserved `NOP` opcode.
pub const NOP_WORD: u8 = 0b001100;

/// The word of the reserved `HLT` opcode.
pub const HLT_WORD: u8 = 0b001111;

pub open spec fn field_of(r: IrRegister) -> Register {
    match r {
        IrRegister::A => Register::A,
        IrRegister::B => Register::B,
        IrRegister::C => Register::C,
    }
}

/// The value of an immediate, or the diagnostic for its first undefined label.
pub open spec fn value_of(i: Immediate, t: SymbolTable) -> Result<u8, Diagnostic> {
    match eval(i, t) {
        Ok(v) => Ok(v),
        Err(span) => Err(fatal(span, DiagKind::UndefinedLabel)),
    }
}

/// The operand field of an operand and the payload words that follow the instruction.
pub open spec fn operand(e: Either, t: SymbolTable) -> Result<(Register, Seq<u8>), Diagnostic> {
    match e {
        Either::Register(r) => Ok((field_of(r), Seq::empty())),
        Either::Immediate(i) => match value_of(i, t) {
            Ok(v) => Ok((Register::Immediate, seq![v])),
            Err(d) => Err(d),
        },
    }
}

pub open spec fn addressed(op: Operation, a: AddressTuple, t: SymbolTable) -> Result<Seq<u8>, Diagnostic> {
    match operand(a.0, t) {
        Err(d) => Err(d),
        Ok((f1, pay1)) => match operand(a.1, t) {
            Err(d) => Err(d),
            Ok((f2, pay2)) => Ok(seq![encode(op, f1, f2)] + pay1 + pay2),
        },
    }
}

/// The words of one node.
pub open spec fn words_of(ir: Ir, t: SymbolTable) -> Result<Seq<u8>, Diagnostic> {
    match ir {
        Ir::Nor(r, e) => match operand(e, t) {
            Err(d) => Err(d),
            Ok((f, p)) => Ok(seq![encode(Operation::Nor, field_of(r), f)] + p),
        },
        Ir::Pc(a) => addressed(Operation::Pc, a, t),
        Ir::Lod(a) => addressed(Operation::Load, a, t),
        Ir::Sto(a) => addressed(Operation::Store, a, t),
        Ir::SetWord(i) => match value_of(i, t) {
            Ok(v) => Ok(seq![v]),
            Err(d) => Err(d),
        },
        Ir::Nop => Ok(seq![NOP_WORD]),
        Ir::Hlt => Ok(seq![HLT_WORD]),
    }
}

/// The words of a sequence of nodes and the diagnostics of the nodes that failed,
/// both in order.
pub open spec fn assembled(irs: Seq<Ir>, t: SymbolTable) -> (Seq<u8>, Seq<Diagnostic>)
    decreases irs.len(),
{
    if irs.len() == 0 {
        (Seq::empty(), Seq::empty())
    } else {
        let (w, d) = assembled(irs.drop_last(), t);
        match words_of(irs.last(), t) {
            Ok(x) => (w + x, d),
            Err(e) => (w, d.push(e)),
        }
    }
}

pub open spec fn all_wf(v: Seq<Instruction>) -> bool {
    forall|k: int| 0 <= k < v.len() ==> (#[trigger] v[k]).wf()
}

pub open spec fn raws(v: Seq<Instruction>) -> Seq<u8> {
    v.map_values(|i: Instruction| i.word())
}

/// A node that assembles takes as many words as its length says.
pub proof fn lemma_words_len(ir: Ir, t: SymbolTable)
    ensures
        words_of(ir, t) matches Ok(w) ==> w.len() == ir_len(ir),
{
}

fn ir_into_register(register: IrRegister) -> (r: Register)
    ensures
        r == field_of(register),
{
    match register {
        IrRegister::A => Register::A,
        IrRegister::B => Register::B,
        IrRegister::C => Register::C,
    }
}

fn get_register_or_immediate(either: &Either, table: &SymbolTable) -> (r: Result<(Register, Option<u8>), Diagnostic>)
    requires
        table.wf(),
    ensures
        match operand(*either, *table) {
            Err(d) => r == Err::<(Register, Option<u8>), Diagnostic>(d),
            Ok((f, p)) => r is Ok && r->Ok_0.0 == f
                && (p.len() == 0 <==> r->Ok_0.1 is None)
                && (p.len() == 1 ==> r->Ok_0.1 == Some(p[0]))
                && p.len() <= 1,
        },
        r matches Ok((_, Some(v))) ==> v < 64,
{
    match either {
        Either::Register(register) => Ok((ir_into_register(*register), None)),
        Either::Immediate(immediate) => {
            let v = immediate.flatten(table)?;
            Ok((Register::Immediate, Some(v)))
        },
    }
}

fn push_payload(out: &mut Vec<Instruction>, value: Option<u8>)
    requires
        value matches Some(v) ==> v < 64,
    ensures
        all_wf(old(out)@) ==> all_wf(final(out)@),
        raws(final(out)@) == raws(old(out)@) + (match value {
            Some(v) => seq![v],
            None => Seq::empty(),
        }),
{
    if let Some(v) = value {
        out.push(Instruction::new_with_raw_value(v));
        assert(raws(out@) =~= raws(old(out)@) + seq![v]);
    } else {
        assert(raws(out@) =~= raws(old(out)@) + Seq::<u8>::empty());
    }
}

fn handle_addressable(operation: Operation, address: &AddressTuple, table: &SymbolTable) -> (r: Result<Vec<Instruction>, Diagnostic>)
    requires
        table.wf(),
    ensures
        match addressed(operation, *address, *table) {
            Ok(w) => r is Ok && raws(r->Ok_0@) == w,
            Err(d) => r == Err::<Vec<Instruction>, Diagnostic>(d),
        },
        r matches Ok(v) ==> all_wf(v@),
{
    let (first, first_value) = get_register_or_immediate(&address.0, table)?;
    let (second, second_value) = get_register_or_immediate(&address.1, table)?;
    let mut out: Vec<Instruction> = Vec::new();
    out.push(Instruction::compose(operation, first, second));
    assert(raws(out@) =~= seq![encode(operation, first, second)]);
    push_payload(&mut out, first_value);
    push_payload(&mut out, second_value);
    proof {
        let (f1, pay1) = operand(address.0, *table)->Ok_0;
        let (f2, pay2) = operand(address.1, *table)->Ok_0;
        if pay1.len() == 0 { assert(pay1 =~= Seq::<u8>::empty()); } else { assert(pay1 =~= seq![pay1[0]]); }
        if pay2.len() == 0 { assert(pay2 =~= Seq::<u8>::empty()); } else { assert(pay2 =~= seq![pay2[0]]); }
        assert(raws(out@) =~= seq![encode(operation, f1, f2)] + pay1 + pay2);
    }
    Ok(out)
}

fn handle_nor(register: IrRegister, either: &Either, table: &SymbolTable) -> (r: Result<Vec<Instruction>, Diagnostic>)
    requires
        table.wf(),
    ensures
        match words_of(Ir::Nor(register, *either), *table) {
            Ok(w) => r is Ok && raws(r->Ok_0@) == w,
            Err(d) => r == Err::<Vec<Instruction>, Diagnostic>(d),
        },
        r matches Ok(v) ==> all_wf(v@),
{
    let (second, value) = get_register_or_immediate(either, table)?;
    let mut out: Vec<Instruction> = Vec::new();
    out.push(Instruction::compose(Operation::Nor, ir_into_register(register), second));
    assert(raws(out@) =~= seq![encode(Operation::Nor, field_of(register), second)]);
    push_payload(&mut out, value);
    proof {
        let (f, p) = operand(*either, *table)->Ok_0;
        if p.len() == 0 { assert(p =~= Seq::<u8>::empty()); } else { assert(p =~= seq![p[0]]); }
        assert(raws(out@) =~= seq![encode(Operation::Nor, field_of(register), f)] + p);
    }
    Ok(out)
}

fn single(word: u8) -> (r: Vec<Instruction>)
    requires
        word < 64,
    ensures
        raws(r@) == seq![word],
        all_wf(r@),
{
    let mut out: Vec<Instruction> = Vec::new();
    out.push(Instruction::new_with_raw_value(word));
    assert(raws(out@) =~= seq![word]);
    out
}

fn assemble_ir(ir: &Ir, table: &SymbolTable) -> (r: Result<Vec<Instruction>, Diagnostic>)
    requires
        table.wf(),
    ensures
        match words_of(*ir, *table) {
            Ok(w) => r is Ok && raws(r->Ok_0@) == w,
            Err(d) => r == Err::<Vec<Instruction>, Diagnostic>(d),
        },
        r matches Ok(v) ==> all_wf(v@),
{
    match ir {
        Ir::Nor(register, either) => handle_nor(*register, either, table),
        Ir::Pc(address) => handle_addressable(Operation::Pc, address, table),
        Ir::Lod(address) => handle_addressable(Operation::Load, address, table),
        Ir::Sto(address) => handle_addressable(Operation::Store, address, table),
        Ir::SetWord(immediate) => {
            let v = immediate.flatten(table)?;
            Ok(single(v))
        },
        Ir::Nop => Ok(single(NOP_WORD)),
        Ir::Hlt => Ok(single(HLT_WORD)),
    }
}

/// Assembles every node; a node with an undefined label adds a diagnostic instead of words.
pub fn assemble(ir: &Vec<Ir>, table: &SymbolTable) -> (r: (Vec<Instruction>, Vec<Diagnostic>))
    requires
        table.wf(),
    ensures
        raws(r.0@) == assembled(ir@, *table).0,
        r.1@ == assembled(ir@, *table).1,
        forall|k: int| 0 <= k < r.0@.len() ==> (#[trigger] r.0@[k]).wf(),
{
    let mut instructions: Vec<Instruction> = Vec::new();
    let mut diagnostics: Vec<Diagnostic> = Vec::new();
    let mut i: usize = 0;
    while i < ir.len()
        invariant
            i <= ir@.len(),
            table.wf(),
            raws(instructions@) == assembled(ir@.subrange(0, i as int), *table).0,
            diagnostics@ == assembled(ir@.subrange(0, i as int), *table).1,
            forall|k: int| 0 <= k < instructions@.len() ==> (#[trigger] instructions@[k]).wf(),
        decreases ir@.len() - i,
    {
        assert(ir@.subrange(0, i + 1).drop_last() =~= ir@.subrange(0, i as int));
        assert(ir@.subrange(0, i + 1).last() == ir@[i as int]);
        match assemble_ir(&ir[i], table) {
            Ok(words) => {
                let ghost before = instructions@;
                let mut words = words;
                let ghost w = words@;
                instructions.append(&mut words);
                assert(instructions@ == before + w);
                assert(raws(instructions@) =~= raws(before) + raws(w));
                proof {
                    assert forall|k: int| 0 <= k < instructions@.len() implies (#[trigger] instructions@[k]).wf() by {
                        if k >= before.len() {
                            assert(instructions@[k] == w[k - before.len()]);
                        }
                    }
                }
            },
            Err(d) => {
                diagnostics.push(d);
            },
        }
        i = i + 1;
    }
    assert(ir@.subrange(0, ir@.len() as int) =~= ir@);
    (instructions, diagnostics)
}

} // verus!
