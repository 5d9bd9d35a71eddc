//! Properties that relate several parts of the toolchain.
use vstd::prelude::*;
use crate::assembler::{assembled, field_of, words_of};
use crate::emulation::{fetch, read_spec, reg_value, step, MachineView};
use crate::generator::{address_after, mov_ir, reg, IrGenerator};
use crate::instruction::{decode_one, decode_op, decode_two, encode, lemma_decode_encode, Operation};
use crate::ir::{total_len, Either, Ir, IrRegister};
use crate::lexer::token_at;
use crate::parser::instruction_effect;
use crate::symbols::SymbolTable;
use crate::tokens::Keyword;
use crate::word::{nor6, rotl6, rotr6};

verus! {

/// A label's address is the generator's origin plus the length of the nodes emitted
/// before the label was declared.
pub proof fn lemma_label_address(g: IrGenerator, name: Seq<char>)
    requires
        g.wf(),
        g.table().get_spec(name) is Some,
    ensures
        g.declared().contains_key(name),
        g.declared()[name] <= g.ir_seq().len(),
        g.table().get_spec(name)->Some_0 as int
            == address_after(g.origin(), g.ir_seq().take(g.declared()[name] as int)),
{
}

/// When nothing fails to assemble, the words are exactly as many as the lengths of
/// the nodes say, so each label's address is its position in the binary.
pub proof fn lemma_assembled_len(irs: Seq<Ir>, t: SymbolTable)
    requires
        assembled(irs, t).1.len() == 0,
    ensures
        assembled(irs, t).0.len() == total_len(irs),
    decreases irs.len(),
{
    if irs.len() > 0 {
        let (w, d) = assembled(irs.drop_last(), t);
        match words_of(irs.last(), t) {
            Ok(x) => {
                lemma_assembled_len(irs.drop_last(), t);
                crate::assembler::lemma_words_len(irs.last(), t);
            },
            Err(e) => {
                assert(d.push(e).len() > 0);
            },
        }
    }
}

/// `Nor(r, Register r2)` assembles to one word that decodes back to `Nor`, `r`, `r2`.
pub proof fn lemma_nor_round_trip(r: IrRegister, r2: IrRegister, t: SymbolTable)
    ensures
        words_of(Ir::Nor(r, Either::Register(r2)), t) matches Ok(w) && w.len() == 1
            && decode_op(w[0]) == Operation::Nor
            && decode_one(w[0]) == field_of(r)
            && decode_two(w[0]) == field_of(r2),
{
    lemma_decode_encode(Operation::Nor, field_of(r), field_of(r2));
    let w = words_of(Ir::Nor(r, Either::Register(r2)), t)->Ok_0;
    assert(w =~= seq![encode(Operation::Nor, field_of(r), field_of(r2))]);
}

/// Moving a register into itself emits nothing.
pub proof fn lemma_mov_same_register(r: IrRegister)
    ensures
        mov_ir(r, reg(r)) == Seq::<Ir>::empty(),
{
}

pub open spec fn register_of(m: MachineView, r: IrRegister) -> u8 {
    reg_value(m, field_of(r))
}

/// Two `NOT r` in a row give `r` back.
pub proof fn lemma_not_involution(m: MachineView, r: IrRegister)
    requires
        m.a < 64 && m.b < 64 && m.c < 64,
        fetch(m) == encode(Operation::Nor, field_of(r), field_of(r)),
        fetch(step(m)) == encode(Operation::Nor, field_of(r), field_of(r)),
    ensures
        register_of(step(step(m)), r) == register_of(m, r),
{
    lemma_decode_encode(Operation::Nor, field_of(r), field_of(r));
    let v = register_of(m, r);
    let once = nor6(v, v);
    assert(nor6(once, once) == v) by (bit_vector)
        requires v < 64u8, once == (!(v | v)) & 63u8;
}

/// Reading `(0b111110, v)` rotates `v` left by one; reading `(0b111111, v)` rotates
/// it right by one.
pub proof fn lemma_rotation_map(ram: Seq<u8>, pc: (u8, u8), v: u8)
    requires
        v < 64,
    ensures
        read_spec(ram, pc, 0b111110, v) == rotl6(v, 1),
        read_spec(ram, pc, 0b111111, v) == rotr6(v, 1),
{
}

/// A `LAB` that succeeded leaves its name in the table, so a later `LAB` of the same
/// name is the one rejected with `DuplicateLabel` (see `Parser::advance_ir`), and the
/// name keeps the address of its first declaration.
pub proof fn lemma_second_declaration_found(before: IrGenerator, after: IrGenerator, text: Seq<char>, pos: int)
    requires
        instruction_effect(Keyword::Lab, before, after, text, pos),
    ensures
        after.table().get_spec(text.subrange(token_at(text, pos).1, token_at(text, pos).2)) == Some(before.next()),
{
}

} // verus!
