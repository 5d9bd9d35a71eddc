//! The IR generator: lowers pseudo-instructions to primitives while it keeps the
//! address of the next word and the symbol table.
use vstd::prelude::*;
use crate::diagnostic::{fatal, DiagKind, Diagnostic};
use crate::ir::{
    ir_len, lemma_total_len_append, lemma_total_len_push, total_len, AddressTuple, Conditional, ConditionalKind, Either,
    Immediate, Ir, IrRegister,
};
use crate::labels::{internal_name, lemma_internal_name_injective, unique_label};
use crate::span::Span;
use vstd::arithmetic::div_mod::{lemma_add_mod_noop, lemma_mod_mod};
use crate::symbols::SymbolTable;

verus! {

/// The register through which memory-mapped rotations and carries pass.
pub const MEM_REGISTER: IrRegister = IrRegister::C;

/// The first of `C`, `B`, `A` that is neither `x` nor `y`.
pub open spec fn free2(x: IrRegister, y: IrRegister) -> IrRegister {
    if x != IrRegister::C && y != IrRegister::C {
        IrRegister::C
    } else if x != IrRegister::B && y != IrRegister::B {
        IrRegister::B
    } else {
        IrRegister::A
    }
}

pub fn free_register(x: IrRegister, y: IrRegister) -> (r: IrRegister)
    ensures
        r == free2(x, y),
        r != x,
        r != y,
{
    if x != IrRegister::C && y != IrRegister::C {
        IrRegister::C
    } else if x != IrRegister::B && y != IrRegister::B {
        IrRegister::B
    } else {
        IrRegister::A
    }
}

pub open spec fn reg(r: IrRegister) -> Either {
    Either::Register(r)
}

pub open spec fn konst(v: u8) -> Either {
    Either::Immediate(Immediate::Constant(v))
}

pub open spec fn not_ir(r: IrRegister) -> Seq<Ir> {
    seq![Ir::Nor(r, reg(r))]
}

pub open spec fn zero_ir(r: IrRegister) -> Seq<Ir> {
    seq![Ir::Nor(r, konst(63))]
}

pub open spec fn mov_ir(r: IrRegister, e: Either) -> Seq<Ir> {
    if e == reg(r) {
        Seq::empty()
    } else {
        seq![Ir::Nor(r, konst(63)), Ir::Nor(r, e)] + not_ir(r)
    }
}

pub open spec fn and_ir(r: IrRegister, e: Either) -> Seq<Ir> {
    match e {
        Either::Register(x) => not_ir(x) + not_ir(r) + seq![Ir::Nor(r, reg(x))],
        Either::Immediate(i) => not_ir(r) + seq![Ir::Nor(r, Either::Immediate(Immediate::Not(Box::new(i))))],
    }
}

pub open spec fn nand_ir(r: IrRegister, e: Either) -> Seq<Ir> {
    and_ir(r, e) + not_ir(r)
}

pub open spec fn or_ir(r: IrRegister, e: Either) -> Seq<Ir> {
    seq![Ir::Nor(r, e)] + not_ir(r)
}

/// The scratch register of `nxor`.
pub open spec fn nxor_scratch(r: IrRegister, e: Either) -> IrRegister {
    match e {
        Either::Register(o) => free2(r, o),
        Either::Immediate(_) => free2(r, r),
    }
}

pub open spec fn nxor_ir(r: IrRegister, e: Either) -> Seq<Ir> {
    let t = nxor_scratch(r, e);
    mov_ir(t, reg(r)) + seq![Ir::Nor(t, e), Ir::Nor(r, reg(t)), Ir::Nor(t, e), Ir::Nor(r, reg(t))]
}

pub open spec fn xor_ir(r: IrRegister, e: Either) -> Seq<Ir> {
    nxor_ir(r, e) + not_ir(r)
}

pub open spec fn rol_ir(r: IrRegister) -> Seq<Ir> {
    seq![Ir::Lod(AddressTuple(konst(62), reg(r)))]
}

pub open spec fn ror_ir(r: IrRegister) -> Seq<Ir> {
    seq![Ir::Lod(AddressTuple(konst(63), reg(r)))]
}

pub open spec fn shl_ir(r: IrRegister) -> Seq<Ir> {
    rol_ir(r) + and_ir(IrRegister::C, konst(62))
}

pub open spec fn shr_ir(r: IrRegister) -> Seq<Ir> {
    ror_ir(r) + and_ir(IrRegister::C, konst(31))
}

/// The registers that hold the running value and the operand of `add` and `sub`.
pub open spec fn arith_regs(dest: IrRegister, src: Either) -> (IrRegister, IrRegister) {
    if dest == IrRegister::C {
        let secondary = match src {
            Either::Register(v) => if v == IrRegister::C { free2(IrRegister::C, IrRegister::C) } else { v },
            Either::Immediate(_) => free2(IrRegister::C, IrRegister::C),
        };
        (free2(secondary, IrRegister::C), secondary)
    } else {
        (dest, free2(dest, IrRegister::C))
    }
}

pub open spec fn add_round(i: nat, aug: IrRegister, addend: IrRegister) -> Seq<Ir> {
    (if i > 0 {
        rol_ir(IrRegister::C) + mov_ir(addend, reg(aug)) + mov_ir(aug, reg(IrRegister::C))
    } else {
        Seq::empty()
    }) + and_ir(IrRegister::C, reg(addend)) + not_ir(addend)
        + seq![Ir::Nor(aug, reg(addend)), Ir::Nor(aug, reg(IrRegister::C))]
}

pub open spec fn add_rounds(n: nat, aug: IrRegister, addend: IrRegister) -> Seq<Ir>
    decreases n,
{
    if n == 0 {
        Seq::empty()
    } else {
        add_rounds((n - 1) as nat, aug, addend) + add_round((n - 1) as nat, aug, addend)
    }
}

/// `add r, x`: a six-round ripple through the carry register `C`.
pub open spec fn add_ir(r: IrRegister, e: Either) -> Seq<Ir> {
    let (aug, addend) = arith_regs(r, e);
    mov_ir(addend, e) + mov_ir(aug, reg(r)) + mov_ir(IrRegister::C, reg(r))
        + add_rounds(6, aug, addend) + mov_ir(r, reg(aug))
}

pub open spec fn sub_round(i: nat, minuend: IrRegister, subtrahend: IrRegister) -> Seq<Ir> {
    (if i > 0 {
        rol_ir(IrRegister::C) + mov_ir(subtrahend, reg(IrRegister::C))
    } else {
        Seq::empty()
    }) + seq![
        Ir::Nor(IrRegister::C, konst(63)),
        Ir::Nor(IrRegister::C, reg(subtrahend)),
        Ir::Nor(IrRegister::C, reg(minuend)),
    ] + not_ir(minuend) + seq![Ir::Nor(minuend, reg(subtrahend))] + or_ir(minuend, reg(IrRegister::C))
}

pub open spec fn sub_rounds(n: nat, minuend: IrRegister, subtrahend: IrRegister) -> Seq<Ir>
    decreases n,
{
    if n == 0 {
        Seq::empty()
    } else {
        sub_rounds((n - 1) as nat, minuend, subtrahend) + sub_round((n - 1) as nat, minuend, subtrahend)
    }
}

/// `sub r, x`: six rounds that form the borrow through a NOR network.
pub open spec fn sub_ir(r: IrRegister, e: Either) -> Seq<Ir> {
    let (minuend, subtrahend) = arith_regs(r, e);
    mov_ir(subtrahend, e) + mov_ir(minuend, reg(r)) + sub_rounds(6, minuend, subtrahend)
        + mov_ir(r, reg(minuend))
}

proof fn lemma_pad_step(a: int, k: nat)
    requires
        0 <= a < 4096,
        k < pad_count(a),
    ensures
        ((a + k) % 4096 + 1) % 4096 == (a + k + 1) % 4096,
        (((a + k + 1) % 4096) % 64 > 60) == (k + 1 < pad_count(a)),
{
    lemma_add_mod_noop((a + k) as int, 1, 4096);
    lemma_mod_mod(a + k + 1, 64, 64);
    lemma_add_mod_noop(a, (k + 1) as int, 64);
    assert(a % 64 > 60);
    assert((k + 1) % 64 == k + 1);
}

fn mask_of_round(i: u8) -> (r: u8)
    requires
        i < 6,
    ensures
        r == round_mask(i as nat),
{
    if i == 0 { 62 }
    else if i == 1 { 61 }
    else if i == 2 { 59 }
    else if i == 3 { 55 }
    else if i == 4 { 47 }
    else { 31 }
}

fn arith_registers(dest: IrRegister, src: &Either) -> (r: (IrRegister, IrRegister))
    ensures
        r == arith_regs(dest, *src),
{
    if dest == IrRegister::C {
        let secondary = match src {
            Either::Register(v) => if *v == IrRegister::C { free_register(IrRegister::C, IrRegister::C) } else { *v },
            Either::Immediate(_) => free_register(IrRegister::C, IrRegister::C),
        };
        (free_register(secondary, IrRegister::C), secondary)
    } else {
        (dest, free_register(dest, IrRegister::C))
    }
}

/// Operands of an ordering test, arranged so that it reads `left <= right`.
pub open spec fn ordered(c: Conditional) -> (Either, Either) {
    if c.kind == ConditionalKind::LessEq || c.kind == ConditionalKind::Greater {
        (c.right, c.left)
    } else {
        (c.left, c.right)
    }
}

/// Whether an operand is a register other than `C`.
pub open spec fn plain_register(e: Either) -> bool {
    e is Register && e->Register_0 != IrRegister::C
}

/// The register that holds the left side of an ordering test.
pub open spec fn order_helper(l: Either, r: Either) -> IrRegister {
    if plain_register(l) {
        l->Register_0
    } else if r is Register {
        free2(r->Register_0, IrRegister::C)
    } else {
        free2(IrRegister::C, IrRegister::C)
    }
}

/// `!(1 << i)` within six bits.
pub open spec fn round_mask(i: nat) -> u8 {
    if i == 0 { 62 }
    else if i == 1 { 61 }
    else if i == 2 { 59 }
    else if i == 3 { 55 }
    else if i == 4 { 47 }
    else { 31 }
}

pub open spec fn le_round(i: nat, h: IrRegister, o: IrRegister) -> Seq<Ir> {
    mov_ir(o, reg(IrRegister::C)) + seq![
        Ir::Nor(IrRegister::C, reg(h)),
        Ir::Nor(IrRegister::C, reg(h)),
        Ir::Nor(h, reg(o)),
        Ir::Nor(h, reg(o)),
    ] + rol_ir(IrRegister::C) + and_ir(h, konst(round_mask(i)))
}

pub open spec fn le_rounds(n: nat, h: IrRegister, o: IrRegister) -> Seq<Ir>
    decreases n,
{
    if n == 0 {
        Seq::empty()
    } else {
        le_rounds((n - 1) as nat, h, o) + le_round((n - 1) as nat, h, o)
    }
}

/// Leaves zero in `C` when the comparison it computes holds: equality for `Eq` and
/// `NotEq`, `helper <= C` for the orderings; the negated kinds are flipped afterwards.
pub open spec fn test_ir(c: Conditional) -> Seq<Ir> {
    if c.kind == ConditionalKind::Eq || c.kind == ConditionalKind::NotEq {
        if c.left == reg(IrRegister::C) {
            xor_ir(IrRegister::C, c.right)
        } else {
            mov_ir(IrRegister::C, c.right) + xor_ir(IrRegister::C, c.left)
        }
    } else {
        let (l, r) = ordered(c);
        let h = order_helper(l, r);
        (if plain_register(l) {
            mov_ir(IrRegister::C, r)
        } else {
            mov_ir(h, l) + mov_ir(IrRegister::C, r)
        }) + le_rounds(6, h, free2(h, IrRegister::C))
    }
}

pub open spec fn spread_rounds(n: nat) -> Seq<Ir>
    decreases n,
{
    if n == 0 {
        Seq::empty()
    } else {
        spread_rounds((n - 1) as nat) + or_ir(IrRegister::B, reg(IrRegister::C)) + ror_ir(IrRegister::C)
    }
}

pub open spec fn negated(kind: ConditionalKind) -> bool {
    kind == ConditionalKind::NotEq || kind == ConditionalKind::Less || kind == ConditionalKind::Greater
}

/// Turns the zero test in `C` into 0 or 3 in `B`.
pub open spec fn flag_ir(kind: ConditionalKind) -> Seq<Ir> {
    zero_ir(IrRegister::B) + spread_rounds(6) + (if negated(kind) { not_ir(IrRegister::B) } else { Seq::empty() })
        + and_ir(IrRegister::B, konst(3))
}

pub open spec fn no_span() -> Span {
    Span { start: 0, end: 0 }
}

/// Jumps to `label + B`.
pub open spec fn hop_ir(label: String) -> Seq<Ir> {
    add_ir(IrRegister::B, Either::Immediate(Immediate::LabelLo(label, no_span()))) + seq![
        Ir::Pc(AddressTuple(Either::Immediate(Immediate::LabelHi(label, no_span())), reg(IrRegister::B))),
    ]
}

/// Number of `nop`s after which adding three to the low half of `a` does not carry.
pub open spec fn pad_count(a: int) -> nat {
    if a % 64 > 60 { (64 - a % 64) as nat } else { 0 }
}

pub open spec fn nops(n: nat) -> Seq<Ir> {
    Seq::new(n, |i: int| Ir::Nop)
}

/// What precedes the padding of `lih`.
pub open spec fn lih_head(c: Conditional, label: String) -> Seq<Ir> {
    test_ir(c) + flag_ir(c.kind) + hop_ir(label)
}

/// The address of the fresh label of a `lih` that starts at `start`.
pub open spec fn lih_target(c: Conditional, label: String, start: int) -> u16 {
    let a = (start + total_len(lih_head(c, label))) % 4096;
    ((a + pad_count(a)) % 4096) as u16
}

/// `lih c, address` at address `start`, with `label` as its fresh label.
pub open spec fn lih_ir(c: Conditional, address: AddressTuple, label: String, start: int) -> Seq<Ir> {
    let head = lih_head(c, label);
    head + nops(pad_count((start + total_len(head)) % 4096)) + seq![Ir::Pc(address)]
}

/// The generator's state. `origin` is the address of the first node, and
/// `declared` the number of nodes that preceded each label's declaration.
pub struct IrGenerator {
    ir: Vec<Ir>,
    next_address: u16,
    symbol_table: SymbolTable,
    label_counter: usize,
    origin: Ghost<nat>,
    declared: Ghost<Map<Seq<char>, nat>>,
}

/// The 12-bit address of the word after `s`, when the first one sits at `origin`.
pub open spec fn address_after(origin: nat, s: Seq<Ir>) -> int {
    ((origin + total_len(s)) % 4096) as int
}

/// Every label's address is the origin plus the length of the nodes that precede
/// its declaration.
#[verifier::opaque]
pub open spec fn labels_accounted(table: SymbolTable, ir: Seq<Ir>, origin: nat) -> bool {
    forall|n: Seq<char>| #[trigger] table.get_spec(n) matches Some(a) ==> exists|k: int|
        0 <= k <= ir.len() && a as int == address_after(origin, #[trigger] ir.take(k))
}

impl IrGenerator {
    pub closed spec fn ir_seq(&self) -> Seq<Ir> {
        self.ir@
    }

    pub closed spec fn next(&self) -> u16 {
        self.next_address
    }

    pub closed spec fn table(&self) -> SymbolTable {
        self.symbol_table
    }

    pub closed spec fn counter(&self) -> usize {
        self.label_counter
    }

    pub closed spec fn origin(&self) -> nat {
        self.origin@
    }

    pub closed spec fn declared(&self) -> Map<Seq<char>, nat> {
        self.declared@
    }

    /// The running address is the origin plus the length of what was pushed, and
    /// every label holds the address at which it was declared.
    pub open spec fn wf(&self) -> bool {
        &&& self.origin() < 4096
        &&& self.next() as int == address_after(self.origin(), self.ir_seq())
        &&& self.table().wf()
        &&& forall|n: Seq<char>| #[trigger] self.table().get_spec(n) matches Some(a) ==> {
            &&& self.declared().contains_key(n)
            &&& self.declared()[n] <= self.ir_seq().len()
            &&& a as int == address_after(self.origin(), self.ir_seq().take(self.declared()[n] as int))
        }
        &&& forall|k: nat| k >= self.counter() ==> (#[trigger] self.table().get_spec(internal_name(k))) is None
        &&& self.counter() <= self.ir_seq().len()
    }

    /// Everything but the nodes is as in `other`.
    pub open spec fn keeps(&self, other: &IrGenerator) -> bool {
        &&& self.table() == other.table()
        &&& self.counter() == other.counter()
        &&& self.origin() == other.origin()
        &&& self.declared() == other.declared()
    }

    pub fn new(offset: u16) -> (r: IrGenerator)
        requires
            offset < 4096,
        ensures
            r.wf(),
            r.ir_seq() == Seq::<Ir>::empty(),
            r.next() == offset,
            r.origin() == offset,
            forall|n: Seq<char>| #[trigger] r.table().get_spec(n) is None,
    {
        let g = IrGenerator {
            ir: Vec::new(),
            next_address: offset,
            symbol_table: SymbolTable::new(),
            label_counter: 0,
            origin: Ghost(offset as nat),
            declared: Ghost(Map::empty()),
        };
        assert(total_len(g.ir@) == 0);
        g
    }

    /// The address of the next word.
    pub fn next_address(&self) -> (r: u16)
        ensures
            r == self.next(),
    {
        self.next_address
    }

    pub fn push(&mut self, value: Ir)
        requires
            old(self).wf(),
        ensures
            final(self).wf(),
            final(self).ir_seq() == old(self).ir_seq().push(value),
            final(self).keeps(old(self)),
            final(self).next() as int == (old(self).next() + ir_len(value)) % 4096,
    {
        let len = value.len();
        proof {
            lemma_total_len_push(self.ir@, value);
            assert forall|n: Seq<char>| #[trigger] self.table().get_spec(n) matches Some(a)
                implies self.ir@.push(value).take(self.declared()[n] as int) == self.ir@.take(self.declared()[n] as int) by {
                assert(self.ir@.push(value).take(self.declared()[n] as int) =~= self.ir@.take(self.declared()[n] as int));
            }
        }
        self.next_address = (self.next_address + len) % 4096;
        self.ir.push(value);
    }

    /// The nodes and the symbol table.
    pub fn finalize(self) -> (r: (Vec<Ir>, SymbolTable))
        ensures
            r.0@ == self.ir_seq(),
            r.1 == self.table(),
    {
        (self.ir, self.symbol_table)
    }

    pub fn not(&mut self, register: IrRegister)
        requires
            old(self).wf(),
        ensures
            final(self).wf(),
            final(self).ir_seq() == old(self).ir_seq() + not_ir(register),
            final(self).keeps(old(self)),
    {
        self.push(Ir::Nor(register, Either::Register(register)));
        assert(self.ir_seq() =~= old(self).ir_seq() + not_ir(register));
    }

    pub fn nor(&mut self, register: IrRegister, either: Either)
        requires
            old(self).wf(),
        ensures
            final(self).wf(),
            final(self).ir_seq() == old(self).ir_seq() + seq![Ir::Nor(register, either)],
            final(self).keeps(old(self)),
    {
        let ghost e = either;
        self.push(Ir::Nor(register, either));
        assert(self.ir_seq() =~= old(self).ir_seq() + seq![Ir::Nor(register, e)]);
    }

    pub fn and(&mut self, register: IrRegister, either: Either)
        requires
            old(self).wf(),
        ensures
            final(self).wf(),
            final(self).ir_seq() == old(self).ir_seq() + and_ir(register, either),
            final(self).keeps(old(self)),
    {
        let ghost e = either;
        let negated = match either {
            Either::Register(other) => {
                self.not(other);
                Either::Register(other)
            },
            Either::Immediate(immediate) => Either::Immediate(Immediate::Not(Box::new(immediate))),
        };
        self.not(register);
        self.nor(register, negated);
        assert(self.ir_seq() =~= old(self).ir_seq() + and_ir(register, e));
    }

    pub fn nand(&mut self, register: IrRegister, either: Either)
        requires
            old(self).wf(),
        ensures
            final(self).wf(),
            final(self).ir_seq() == old(self).ir_seq() + nand_ir(register, either),
            final(self).keeps(old(self)),
    {
        let ghost e = either;
        self.and(register, either);
        self.not(register);
        assert(self.ir_seq() =~= old(self).ir_seq() + nand_ir(register, e));
    }

    pub fn or(&mut self, register: IrRegister, either: Either)
        requires
            old(self).wf(),
        ensures
            final(self).wf(),
            final(self).ir_seq() == old(self).ir_seq() + or_ir(register, either),
            final(self).keeps(old(self)),
    {
        let ghost e = either;
        self.nor(register, either);
        self.not(register);
        assert(self.ir_seq() =~= old(self).ir_seq() + or_ir(register, e));
    }

    pub fn xor(&mut self, register: IrRegister, either: Either)
        requires
            old(self).wf(),
        ensures
            final(self).wf(),
            final(self).ir_seq() == old(self).ir_seq() + xor_ir(register, either),
            final(self).keeps(old(self)),
    {
        let ghost e = either;
        self.nxor(register, either);
        self.not(register);
        assert(self.ir_seq() =~= old(self).ir_seq() + xor_ir(register, e));
    }

    pub fn nxor(&mut self, register: IrRegister, either: Either)
        requires
            old(self).wf(),
        ensures
            final(self).wf(),
            final(self).ir_seq() == old(self).ir_seq() + nxor_ir(register, either),
            final(self).keeps(old(self)),
    {
        let ghost e = either;
        let scratch = match &either {
            Either::Register(other) => free_register(register, *other),
            Either::Immediate(_) => free_register(register, register),
        };
        let copy = either.duplicate();
        self.mov(scratch, Either::Register(register));
        self.nor(scratch, copy);
        self.nor(register, Either::Register(scratch));
        self.nor(scratch, either);
        self.nor(register, Either::Register(scratch));
        assert(self.ir_seq() =~= old(self).ir_seq() + nxor_ir(register, e));
    }

    pub fn rol(&mut self, register: IrRegister)
        requires
            old(self).wf(),
        ensures
            final(self).wf(),
            final(self).ir_seq() == old(self).ir_seq() + rol_ir(register),
            final(self).keeps(old(self)),
    {
        self.lod(AddressTuple(Either::Immediate(Immediate::Constant(62)), Either::Register(register)));
        assert(self.ir_seq() =~= old(self).ir_seq() + rol_ir(register));
    }

    pub fn ror(&mut self, register: IrRegister)
        requires
            old(self).wf(),
        ensures
            final(self).wf(),
            final(self).ir_seq() == old(self).ir_seq() + ror_ir(register),
            final(self).keeps(old(self)),
    {
        self.lod(AddressTuple(Either::Immediate(Immediate::Constant(63)), Either::Register(register)));
        assert(self.ir_seq() =~= old(self).ir_seq() + ror_ir(register));
    }

    pub fn shl(&mut self, register: IrRegister)
        requires
            old(self).wf(),
        ensures
            final(self).wf(),
            final(self).ir_seq() == old(self).ir_seq() + shl_ir(register),
            final(self).keeps(old(self)),
    {
        self.rol(register);
        self.and(MEM_REGISTER, Either::Immediate(Immediate::Constant(62)));
        assert(self.ir_seq() =~= old(self).ir_seq() + shl_ir(register));
    }

    pub fn shr(&mut self, register: IrRegister)
        requires
            old(self).wf(),
        ensures
            final(self).wf(),
            final(self).ir_seq() == old(self).ir_seq() + shr_ir(register),
            final(self).keeps(old(self)),
    {
        self.ror(register);
        self.and(MEM_REGISTER, Either::Immediate(Immediate::Constant(31)));
        assert(self.ir_seq() =~= old(self).ir_seq() + shr_ir(register));
    }

    /// A raw word.
    pub fn set_word(&mut self, immediate: Immediate)
        requires
            old(self).wf(),
        ensures
            final(self).wf(),
            final(self).ir_seq() == old(self).ir_seq() + seq![Ir::SetWord(immediate)],
            final(self).keeps(old(self)),
    {
        let ghost i = immediate;
        self.push(Ir::SetWord(immediate));
        assert(self.ir_seq() =~= old(self).ir_seq() + seq![Ir::SetWord(i)]);
    }

    pub fn zero(&mut self, register: IrRegister)
        requires
            old(self).wf(),
        ensures
            final(self).wf(),
            final(self).ir_seq() == old(self).ir_seq() + zero_ir(register),
            final(self).keeps(old(self)),
    {
        self.nor(register, Either::Immediate(Immediate::Constant(63)));
    }

    /// Copies an operand into a register; nothing is emitted when it is that register.
    pub fn mov(&mut self, register: IrRegister, either: Either)
        requires
            old(self).wf(),
        ensures
            final(self).wf(),
            final(self).ir_seq() == old(self).ir_seq() + mov_ir(register, either),
            final(self).keeps(old(self)),
    {
        let ghost e = either;
        if let Either::Register(value) = &either {
            if *value == register {
                assert(old(self).ir_seq() + mov_ir(register, e) =~= old(self).ir_seq());
                return;
            }
        }
        self.nor(register, Either::Immediate(Immediate::Constant(63)));
        self.nor(register, either);
        self.not(register);
        assert(self.ir_seq() =~= old(self).ir_seq() + mov_ir(register, e));
    }

    pub fn lod(&mut self, address: AddressTuple)
        requires
            old(self).wf(),
        ensures
            final(self).wf(),
            final(self).ir_seq() == old(self).ir_seq() + seq![Ir::Lod(address)],
            final(self).keeps(old(self)),
    {
        let ghost a = address;
        self.push(Ir::Lod(address));
        assert(self.ir_seq() =~= old(self).ir_seq() + seq![Ir::Lod(a)]);
    }

    pub fn sto(&mut self, address: AddressTuple)
        requires
            old(self).wf(),
        ensures
            final(self).wf(),
            final(self).ir_seq() == old(self).ir_seq() + seq![Ir::Sto(address)],
            final(self).keeps(old(self)),
    {
        let ghost a = address;
        self.push(Ir::Sto(address));
        assert(self.ir_seq() =~= old(self).ir_seq() + seq![Ir::Sto(a)]);
    }

    pub fn pc(&mut self, address: AddressTuple)
        requires
            old(self).wf(),
        ensures
            final(self).wf(),
            final(self).ir_seq() == old(self).ir_seq() + seq![Ir::Pc(address)],
            final(self).keeps(old(self)),
    {
        let ghost a = address;
        self.push(Ir::Pc(address));
        assert(self.ir_seq() =~= old(self).ir_seq() + seq![Ir::Pc(a)]);
    }

    pub fn nop(&mut self)
        requires
            old(self).wf(),
        ensures
            final(self).wf(),
            final(self).ir_seq() == old(self).ir_seq() + seq![Ir::Nop],
            final(self).keeps(old(self)),
            final(self).next() as int == (old(self).next() + 1) % 4096,
    {
        self.push(Ir::Nop);
        assert(self.ir_seq() =~= old(self).ir_seq() + seq![Ir::Nop]);
    }

    pub fn hlt(&mut self)
        requires
            old(self).wf(),
        ensures
            final(self).wf(),
            final(self).ir_seq() == old(self).ir_seq() + seq![Ir::Hlt],
            final(self).keeps(old(self)),
    {
        self.push(Ir::Hlt);
        assert(self.ir_seq() =~= old(self).ir_seq() + seq![Ir::Hlt]);
    }
    /// Records `label` at the running address; `next_counter` is the new label counter.
    #[verifier::rlimit(80)]
    #[verifier::spinoff_prover]
    fn declare(&mut self, label: String, next_counter: usize)
        requires
            old(self).wf(),
            old(self).table().get_spec(label@) is None,
            old(self).counter() <= next_counter <= old(self).ir_seq().len(),
            forall|k: nat| k >= next_counter ==> internal_name(k) != label@,
        ensures
            final(self).wf(),
            final(self).ir_seq() == old(self).ir_seq(),
            final(self).origin() == old(self).origin(),
            final(self).counter() == next_counter,
            forall|n: Seq<char>| #[trigger] final(self).table().get_spec(n)
                == (if n == label@ { Some(old(self).next()) } else { old(self).table().get_spec(n) }),
    {
        let ghost name = label@;
        let ghost len = self.ir@.len();
        let address = self.next_address;
        self.symbol_table.insert(label, address);
        self.declared = Ghost(self.declared@.insert(name, len));
        self.label_counter = next_counter;
        proof {
            assert(self.ir@.take(len as int) =~= self.ir@);
            assert forall|n: Seq<char>| #[trigger] self.table().get_spec(n) is Some implies {
                &&& self.declared().contains_key(n)
                &&& self.declared()[n] <= self.ir_seq().len()
                &&& self.table().get_spec(n)->Some_0 as int == address_after(self.origin(), self.ir_seq().take(self.declared()[n] as int))
            } by {
                if n != name {
                    assert(old(self).table().get_spec(n) == self.table().get_spec(n));
                }
            }
            assert forall|k: nat| k >= self.counter() implies (#[trigger] self.table().get_spec(internal_name(k))) is None by {
                assert(internal_name(k) != name);
            }
        }
    }

    /// Declares a label at the running address; a name that is already there is an error.
    /// Names that start with `#` belong to the labels the generator makes for itself.
    pub fn lab(&mut self, label: String, span: Span) -> (r: Result<(), Diagnostic>)
        requires
            old(self).wf(),
            label@.len() == 0 || label@[0] != '#',
        ensures
            final(self).wf(),
            final(self).ir_seq() == old(self).ir_seq(),
            final(self).origin() == old(self).origin(),
            final(self).counter() == old(self).counter(),
            old(self).table().get_spec(label@) is Some ==> r == Err::<(), Diagnostic>(fatal(span, DiagKind::DuplicateLabel))
                && *final(self) == *old(self),
            old(self).table().get_spec(label@) is None ==> r is Ok
                && forall|n: Seq<char>| #[trigger] final(self).table().get_spec(n)
                    == (if n == label@ { Some(old(self).next()) } else { old(self).table().get_spec(n) }),
    {
        match self.symbol_table.lookup(&label) {
            Some(_) => Err(Diagnostic::fatal(span, DiagKind::DuplicateLabel)),
            None => {
                proof {
                    assert forall|k: nat| k >= self.counter() implies internal_name(k) != label@ by {
                        assert(internal_name(k)[0] == '#');
                    }
                }
                let next = self.label_counter;
                self.declare(label, next);
                Ok(())
            },
        }
    }

    fn add_step(&mut self, i: u8, augend: IrRegister, addend: IrRegister)
        requires
            old(self).wf(),
        ensures
            final(self).wf(),
            final(self).ir_seq() == old(self).ir_seq() + add_round(i as nat, augend, addend),
            final(self).keeps(old(self)),
    {
        if i != 0 {
            self.rol(MEM_REGISTER);
            self.mov(addend, Either::Register(augend));
            self.mov(augend, Either::Register(MEM_REGISTER));
        }
        self.and(MEM_REGISTER, Either::Register(addend));
        self.not(addend);
        self.nor(augend, Either::Register(addend));
        self.nor(augend, Either::Register(MEM_REGISTER));
        assert(self.ir_seq() =~= old(self).ir_seq() + add_round(i as nat, augend, addend));
    }

    fn sub_step(&mut self, i: u8, minuend: IrRegister, subtrahend: IrRegister)
        requires
            old(self).wf(),
        ensures
            final(self).wf(),
            final(self).ir_seq() == old(self).ir_seq() + sub_round(i as nat, minuend, subtrahend),
            final(self).keeps(old(self)),
    {
        if i != 0 {
            self.rol(MEM_REGISTER);
            self.mov(subtrahend, Either::Register(MEM_REGISTER));
        }
        self.nor(MEM_REGISTER, Either::Immediate(Immediate::Constant(63)));
        self.nor(MEM_REGISTER, Either::Register(subtrahend));
        self.nor(MEM_REGISTER, Either::Register(minuend));
        self.not(minuend);
        self.nor(minuend, Either::Register(subtrahend));
        self.or(minuend, Either::Register(MEM_REGISTER));
        assert(self.ir_seq() =~= old(self).ir_seq() + sub_round(i as nat, minuend, subtrahend));
    }

    #[verifier::rlimit(80)]
    #[verifier::spinoff_prover]
    pub fn add(&mut self, register: IrRegister, either: Either)
        requires
            old(self).wf(),
        ensures
            final(self).wf(),
            final(self).ir_seq() == old(self).ir_seq() + add_ir(register, either),
            final(self).keeps(old(self)),
    {
        let ghost e = either;
        let (augend, addend) = arith_registers(register, &either);
        self.mov(addend, either);
        self.mov(augend, Either::Register(register));
        self.mov(MEM_REGISTER, Either::Register(register));
        let ghost prefix = self.ir_seq();
        let mut i: u8 = 0;
        while i < 6
            invariant
                i <= 6,
                self.wf(),
                self.keeps(old(self)),
                self.ir_seq() == prefix + add_rounds(i as nat, augend, addend),
            decreases 6 - i,
        {
            self.add_step(i, augend, addend);
            assert(add_rounds((i + 1) as nat, augend, addend)
                == add_rounds(i as nat, augend, addend) + add_round(i as nat, augend, addend));
            assert(self.ir_seq() =~= prefix + add_rounds((i + 1) as nat, augend, addend));
            i = i + 1;
        }
        self.mov(register, Either::Register(augend));
        assert(self.ir_seq() =~= old(self).ir_seq() + add_ir(register, e));
    }

    #[verifier::rlimit(80)]
    #[verifier::spinoff_prover]
    pub fn sub(&mut self, register: IrRegister, either: Either)
        requires
            old(self).wf(),
        ensures
            final(self).wf(),
            final(self).ir_seq() == old(self).ir_seq() + sub_ir(register, either),
            final(self).keeps(old(self)),
    {
        let ghost e = either;
        let (minuend, subtrahend) = arith_registers(register, &either);
        self.mov(subtrahend, either);
        self.mov(minuend, Either::Register(register));
        let ghost prefix = self.ir_seq();
        let mut i: u8 = 0;
        while i < 6
            invariant
                i <= 6,
                self.wf(),
                self.keeps(old(self)),
                self.ir_seq() == prefix + sub_rounds(i as nat, minuend, subtrahend),
            decreases 6 - i,
        {
            self.sub_step(i, minuend, subtrahend);
            assert(sub_rounds((i + 1) as nat, minuend, subtrahend)
                == sub_rounds(i as nat, minuend, subtrahend) + sub_round(i as nat, minuend, subtrahend));
            assert(self.ir_seq() =~= prefix + sub_rounds((i + 1) as nat, minuend, subtrahend));
            i = i + 1;
        }
        self.mov(register, Either::Register(minuend));
        assert(self.ir_seq() =~= old(self).ir_seq() + sub_ir(register, e));
    }
    fn le_step(&mut self, i: u8, helper: IrRegister, other: IrRegister)
        requires
            old(self).wf(),
            i < 6,
        ensures
            final(self).wf(),
            final(self).ir_seq() == old(self).ir_seq() + le_round(i as nat, helper, other),
            final(self).keeps(old(self)),
    {
        self.mov(other, Either::Register(MEM_REGISTER));
        self.nor(MEM_REGISTER, Either::Register(helper));
        self.nor(MEM_REGISTER, Either::Register(helper));
        self.nor(helper, Either::Register(other));
        self.nor(helper, Either::Register(other));
        self.rol(MEM_REGISTER);
        let mask = mask_of_round(i);
        self.and(helper, Either::Immediate(Immediate::Constant(mask)));
        assert(self.ir_seq() =~= old(self).ir_seq() + le_round(i as nat, helper, other));
    }

    fn spread_step(&mut self)
        requires
            old(self).wf(),
        ensures
            final(self).wf(),
            final(self).ir_seq() == old(self).ir_seq() + or_ir(IrRegister::B, reg(IrRegister::C)) + ror_ir(IrRegister::C),
            final(self).keeps(old(self)),
    {
        self.or(IrRegister::B, Either::Register(MEM_REGISTER));
        self.ror(MEM_REGISTER);
        assert(self.ir_seq() =~= old(self).ir_seq() + or_ir(IrRegister::B, reg(IrRegister::C)) + ror_ir(IrRegister::C));
    }

    #[verifier::rlimit(80)]
    #[verifier::spinoff_prover]
    fn ordering_test(&mut self, condition: Conditional)
        requires
            old(self).wf(),
            condition.kind != ConditionalKind::Eq,
            condition.kind != ConditionalKind::NotEq,
        ensures
            final(self).wf(),
            final(self).ir_seq() == old(self).ir_seq() + test_ir(condition),
            final(self).keeps(old(self)),
    {
        let ghost c = condition;
        let Conditional { left, kind, right } = condition;
        let (l, r) = if kind == ConditionalKind::LessEq || kind == ConditionalKind::Greater {
            (right, left)
        } else {
            (left, right)
        };
        let ghost (gl, gr) = (l, r);
        let plain = match &l {
            Either::Register(x) => *x != IrRegister::C,
            Either::Immediate(_) => false,
        };
        let helper = if plain {
            let x = match &l {
                Either::Register(x) => *x,
                Either::Immediate(_) => IrRegister::C,
            };
            self.mov(MEM_REGISTER, r);
            x
        } else {
            let f = match &r {
                Either::Register(y) => free_register(*y, IrRegister::C),
                Either::Immediate(_) => free_register(IrRegister::C, IrRegister::C),
            };
            self.mov(f, l);
            self.mov(MEM_REGISTER, r);
            f
        };
        let other = free_register(helper, MEM_REGISTER);
        let ghost prefix = self.ir_seq();
        let mut i: u8 = 0;
        while i < 6
            invariant
                i <= 6,
                self.wf(),
                self.keeps(old(self)),
                self.ir_seq() == prefix + le_rounds(i as nat, helper, other),
            decreases 6 - i,
        {
            let ghost before = self.ir_seq();
            self.le_step(i, helper, other);
            assert(le_rounds((i + 1) as nat, helper, other)
                == le_rounds(i as nat, helper, other) + le_round(i as nat, helper, other));
            assert(self.ir_seq() =~= prefix + le_rounds((i + 1) as nat, helper, other));
            i = i + 1;
        }
        assert(self.ir_seq() =~= old(self).ir_seq() + test_ir(c));
    }

    fn zero_test(&mut self, condition: Conditional)
        requires
            old(self).wf(),
        ensures
            final(self).wf(),
            final(self).ir_seq() == old(self).ir_seq() + test_ir(condition),
            final(self).keeps(old(self)),
    {
        let ghost c = condition;
        if condition.kind == ConditionalKind::Eq || condition.kind == ConditionalKind::NotEq {
            let Conditional { left, kind, right } = condition;
            let left_is_c = match &left {
                Either::Register(x) => *x == IrRegister::C,
                Either::Immediate(_) => false,
            };
            if left_is_c {
                self.xor(MEM_REGISTER, right);
            } else {
                self.mov(MEM_REGISTER, right);
                self.xor(MEM_REGISTER, left);
            }
            assert(self.ir_seq() =~= old(self).ir_seq() + test_ir(c));
        } else {
            self.ordering_test(condition);
        }
    }

    #[verifier::rlimit(80)]
    #[verifier::spinoff_prover]
    fn flag(&mut self, kind: ConditionalKind)
        requires
            old(self).wf(),
        ensures
            final(self).wf(),
            final(self).ir_seq() == old(self).ir_seq() + flag_ir(kind),
            final(self).keeps(old(self)),
    {
        let helper = free_register(MEM_REGISTER, MEM_REGISTER);
        self.zero(helper);
        let ghost prefix = self.ir_seq();
        let mut i: u8 = 0;
        while i < 6
            invariant
                i <= 6,
                helper == IrRegister::B,
                self.wf(),
                self.keeps(old(self)),
                self.ir_seq() == prefix + spread_rounds(i as nat),
            decreases 6 - i,
        {
            let ghost before = self.ir_seq();
            self.spread_step();
            assert(spread_rounds((i + 1) as nat) == spread_rounds(i as nat) + or_ir(IrRegister::B, reg(IrRegister::C)) + ror_ir(IrRegister::C));
            assert(self.ir_seq() =~= prefix + spread_rounds((i + 1) as nat));
            i = i + 1;
        }
        if kind == ConditionalKind::NotEq || kind == ConditionalKind::Less || kind == ConditionalKind::Greater {
            self.not(helper);
        }
        self.and(helper, Either::Immediate(Immediate::Constant(3)));
        assert(self.ir_seq() =~= old(self).ir_seq() + flag_ir(kind));
    }

    /// Emits `nop`s until adding three to the low half of the running address does not carry.
    #[verifier::rlimit(80)]
    #[verifier::spinoff_prover]
    fn pad(&mut self)
        requires
            old(self).wf(),
        ensures
            final(self).wf(),
            final(self).ir_seq() == old(self).ir_seq() + nops(pad_count(old(self).next() as int)),
            final(self).keeps(old(self)),
            final(self).next() % 64 <= 60,
            final(self).next() as int == (old(self).next() + pad_count(old(self).next() as int)) % 4096,
    {
        let ghost a = self.next() as int;
        let ghost k: nat = 0;
        assert(self.ir_seq() =~= old(self).ir_seq() + nops(0));
        assert(a % 4096 == a);
        while self.next_address % 64 > 60
            invariant
                self.wf(),
                self.keeps(old(self)),
                a == old(self).next(),
                0 <= a < 4096,
                k <= pad_count(a),
                self.ir_seq() == old(self).ir_seq() + nops(k),
                self.next() as int == (a + k) % 4096,
                (self.next() % 64 > 60) == (k < pad_count(a)),
            decreases pad_count(a) - k,
        {
            self.nop();
            proof {
                lemma_pad_step(a, k);
                assert(self.ir_seq() =~= old(self).ir_seq() + nops(k + 1));
                k = k + 1;
            }
        }
    }

    /// Jumps to `address` when the condition holds. The test leaves 0 in `B` when it
    /// holds and 3 otherwise; that is added to a fresh label, which the jump to `address`
    /// follows, so 3 skips that jump when it is three words long.
    #[verifier::rlimit(100)]
    #[verifier::spinoff_prover]
    pub fn lih(&mut self, condition: Conditional, address: AddressTuple)
        requires
            old(self).wf(),
        ensures
            final(self).wf(),
            final(self).origin() == old(self).origin(),
            final(self).counter() == old(self).counter() + 1,
            exists|label: String| label@ == internal_name(old(self).counter() as nat)
                && final(self).ir_seq() == old(self).ir_seq() + #[trigger] lih_ir(condition, address, label, old(self).next() as int)
                && final(self).table().get_spec(label@) == Some(lih_target(condition, label, old(self).next() as int)),
            forall|n: Seq<char>| n != internal_name(old(self).counter() as nat)
                ==> #[trigger] final(self).table().get_spec(n) == old(self).table().get_spec(n),
    {
        let ghost c = condition;
        let ghost a = address;
        let kind = condition.kind;
        self.zero_test(condition);
        self.flag(kind);
        let n = self.label_counter;
        let label = unique_label(n as u64);
        let copy = label.clone();
        self.add(IrRegister::B, Either::Immediate(Immediate::LabelLo(label, Span::new(0, 0))));
        self.pc(AddressTuple(Either::Immediate(Immediate::LabelHi(copy, Span::new(0, 0))), Either::Register(IrRegister::B)));
        let ghost before_pad = self.ir_seq();
        let ghost next_before_pad = self.next();
        self.pad();
        let target = unique_label(n as u64);
        let len = self.ir.len();
        proof {
            assert(target@ == copy@);
            assert forall|k: nat| k >= n + 1 implies internal_name(k) != target@ by {
                if internal_name(k) == target@ {
                    lemma_internal_name_injective(k, n as nat);
                }
            }
        }
        let ghost mid_ir = self.ir_seq();
        self.declare(target, n + 1);
        self.pc(address);
        proof {
            let head = lih_head(c, copy);
            let start = old(self).next() as int;
            assert(before_pad =~= old(self).ir_seq() + head);
            lemma_total_len_append(old(self).ir_seq(), head);
            lemma_add_mod_noop((old(self).origin() + total_len(old(self).ir_seq())) as int, total_len(head) as int, 4096);
            assert(next_before_pad as int == (start + total_len(head)) % 4096);
            assert(mid_ir =~= old(self).ir_seq() + head + nops(pad_count((start + total_len(head)) % 4096)));
            assert(self.ir_seq() =~= old(self).ir_seq() + lih_ir(c, a, copy, start));
        }
    }
}

} // verus!
