//! The emulator: program counter, memory with its mapped ports, and the CPU.
use vstd::prelude::*;
use crate::assembler::HLT_WORD;
use crate::instruction::{decode_one, decode_op, decode_two, Instruction, Operation, Register};
use crate::word::{join12, nor6, nor_w6, rotl6, rotl_w6, rotr6, rotr_w6};

verus! {

/// Number of ordinary RAM words, `0x000..=0xF3D`.
pub const RAM_SIZE: usize = 3902;

/// The next address after `(hi, lo)`: the low half wraps into the high half.
pub open spec fn inc(p: (u8, u8)) -> (u8, u8) {
    if p.1 < 63 {
        (p.0, (p.1 + 1) as u8)
    } else {
        (((p.0 + 1) % 64) as u8, 0u8)
    }
}

/// A 12-bit address split into two 6-bit halves.
#[derive(Clone, Copy, Debug, PartialEq, Eq, Structural)]
pub struct ProgramCounter {
    hi: u8,
    lo: u8,
}

impl ProgramCounter {
    pub closed spec fn pair(&self) -> (u8, u8) {
        (self.hi, self.lo)
    }

    pub open spec fn wf(&self) -> bool {
        self.pair().0 < 64 && self.pair().1 < 64
    }

    pub fn new() -> (r: ProgramCounter)
        ensures
            r.pair() == (0u8, 0u8),
            r.wf(),
    {
        ProgramCounter { hi: 0, lo: 0 }
    }

    pub fn set(&mut self, value: (u8, u8))
        requires
            value.0 < 64,
            value.1 < 64,
        ensures
            final(self).pair() == value,
            final(self).wf(),
    {
        self.hi = value.0;
        self.lo = value.1;
    }

    pub fn increment(&mut self)
        requires
            old(self).wf(),
        ensures
            final(self).pair() == inc(old(self).pair()),
            final(self).wf(),
    {
        if self.lo < 63 {
            self.lo = self.lo + 1;
        } else {
            self.lo = 0;
            self.hi = (self.hi + 1) % 64;
        }
    }

    pub fn as_tuple(&self) -> (r: (u8, u8))
        ensures
            r == self.pair(),
    {
        (self.hi, self.lo)
    }

    /// The address as one 12-bit number.
    pub fn as_u12(&self) -> (r: u16)
        requires
            self.wf(),
        ensures
            r == join12(self.pair().0, self.pair().1),
    {
        (self.hi as u16) * 64 + (self.lo as u16)
    }
}

/// What reading `(hi, lo)` gives, with `ram` as the RAM and `pc` as the program counter;
/// addresses that nothing is mapped to (`0xF40..=0xF7F`) read as zero.
pub open spec fn read_spec(ram: Seq<u8>, pc: (u8, u8), hi: u8, lo: u8) -> u8 {
    let a = join12(hi, lo);
    if a <= 0xF3D {
        ram[a]
    } else if a == 0xF3E {
        pc.0
    } else if a == 0xF3F {
        pc.1
    } else if 0xF80 <= a <= 0xFBF {
        rotl6(lo, 1)
    } else if 0xFC0 <= a {
        rotr6(lo, 1)
    } else {
        0
    }
}

/// RAM after writing `(hi, lo)`; writes outside RAM change nothing.
pub open spec fn write_spec(ram: Seq<u8>, hi: u8, lo: u8, value: u8) -> Seq<u8> {
    let a = join12(hi, lo);
    if a <= 0xF3D {
        ram.update(a, value)
    } else {
        ram
    }
}

/// RAM and the program counter it reports through its mapped ports.
pub struct Memory {
    ram: Vec<u8>,
    program_counter: ProgramCounter,
}

impl Memory {
    pub closed spec fn ram(&self) -> Seq<u8> {
        self.ram@
    }

    pub closed spec fn pc(&self) -> ProgramCounter {
        self.program_counter
    }

    pub open spec fn wf(&self) -> bool {
        &&& self.ram().len() == RAM_SIZE
        &&& forall|i: int| 0 <= i < self.ram().len() ==> #[trigger] self.ram()[i] < 64
        &&& self.pc().wf()
    }

    pub fn new() -> (r: Memory)
        ensures
            r.wf(),
            r.ram() == Seq::new(RAM_SIZE as nat, |i: int| 0u8),
            r.pc().pair() == (0u8, 0u8),
    {
        let mut ram: Vec<u8> = Vec::new();
        let mut i: usize = 0;
        while i < RAM_SIZE
            invariant
                i <= RAM_SIZE,
                ram@ == Seq::new(i as nat, |k: int| 0u8),
            decreases RAM_SIZE - i,
        {
            ram.push(0);
            i = i + 1;
            assert(ram@ =~= Seq::new(i as nat, |k: int| 0u8));
        }
        Memory { ram, program_counter: ProgramCounter::new() }
    }

    /// Copies machine code into RAM from `offset` on.
    pub fn store_array(&mut self, offset: usize, machine_code: &Vec<u8>)
        requires
            old(self).wf(),
            offset + machine_code@.len() <= RAM_SIZE,
            forall|i: int| 0 <= i < machine_code@.len() ==> #[trigger] machine_code@[i] < 64,
        ensures
            final(self).wf(),
            final(self).pc() == old(self).pc(),
            final(self).ram() == old(self).ram().subrange(0, offset as int) + machine_code@
                + old(self).ram().subrange(offset + machine_code@.len(), RAM_SIZE as int),
    {
        let mut i: usize = 0;
        assert(self.ram() =~= old(self).ram().subrange(0, offset as int) + machine_code@.subrange(0, 0)
            + old(self).ram().subrange(offset as int, RAM_SIZE as int));
        while i < machine_code.len()
            invariant
                i <= machine_code@.len(),
                offset + machine_code@.len() <= RAM_SIZE,
                self.wf(),
                self.pc() == old(self).pc(),
                forall|k: int| 0 <= k < machine_code@.len() ==> #[trigger] machine_code@[k] < 64,
                old(self).wf(),
                self.ram() == old(self).ram().subrange(0, offset as int) + machine_code@.subrange(0, i as int)
                    + old(self).ram().subrange(offset + i, RAM_SIZE as int),
            decreases machine_code@.len() - i,
        {
            self.ram.set(offset + i, machine_code[i]);
            i = i + 1;
            assert(self.ram() =~= old(self).ram().subrange(0, offset as int) + machine_code@.subrange(0, i as int)
                + old(self).ram().subrange(offset + i, RAM_SIZE as int));
        }
        assert(machine_code@.subrange(0, i as int) =~= machine_code@);
    }

    /// The program counter.
    pub fn program_counter(&self) -> (r: ProgramCounter)
        ensures
            r == self.pc(),
    {
        self.program_counter
    }

    pub fn set_pc(&mut self, value: (u8, u8))
        requires
            old(self).wf(),
            value.0 < 64,
            value.1 < 64,
        ensures
            final(self).wf(),
            final(self).ram() == old(self).ram(),
            final(self).pc().pair() == value,
    {
        self.program_counter.set(value);
    }

    pub fn increment_pc(&mut self)
        requires
            old(self).wf(),
        ensures
            final(self).wf(),
            final(self).ram() == old(self).ram(),
            final(self).pc().pair() == inc(old(self).pc().pair()),
    {
        self.program_counter.increment();
    }

    pub fn read(&self, address: (u8, u8)) -> (r: u8)
        requires
            self.wf(),
            address.0 < 64,
            address.1 < 64,
        ensures
            r == read_spec(self.ram(), self.pc().pair(), address.0, address.1),
            r < 64,
    {
        let a: usize = (address.0 as usize) * 64 + (address.1 as usize);
        if a <= 0xF3D {
            self.ram[a]
        } else if a == 0xF3E {
            self.program_counter.as_tuple().0
        } else if a == 0xF3F {
            self.program_counter.as_tuple().1
        } else if 0xF80 <= a && a <= 0xFBF {
            rotl_w6(address.1, 1)
        } else if 0xFC0 <= a {
            rotr_w6(address.1, 1)
        } else {
            0
        }
    }

    pub fn write(&mut self, address: (u8, u8), value: u8)
        requires
            old(self).wf(),
            address.0 < 64,
            address.1 < 64,
            value < 64,
        ensures
            final(self).wf(),
            final(self).pc() == old(self).pc(),
            final(self).ram() == write_spec(old(self).ram(), address.0, address.1, value),
    {
        let a: usize = (address.0 as usize) * 64 + (address.1 as usize);
        if a <= 0xF3D {
            self.ram.set(a, value);
        }
    }
}

/// The state of the machine as the contracts see it.
pub struct MachineView {
    pub a: u8,
    pub b: u8,
    pub c: u8,
    pub pc: (u8, u8),
    pub ram: Seq<u8>,
}

/// The word at the program counter.
pub open spec fn fetch(m: MachineView) -> u8 {
    read_spec(m.ram, m.pc, m.pc.0, m.pc.1)
}

pub open spec fn reg_value(m: MachineView, r: Register) -> u8 {
    match r {
        Register::A => m.a,
        Register::B => m.b,
        Register::C => m.c,
        Register::Immediate => 0,
    }
}

/// The value of an operand field and the program counter after reading it; an
/// immediate is the word after the counter, which moves onto it.
pub open spec fn fetch_operand(m: MachineView, r: Register, pc: (u8, u8)) -> (u8, (u8, u8)) {
    if r == Register::Immediate {
        let p = inc(pc);
        (read_spec(m.ram, p, p.0, p.1), p)
    } else {
        (reg_value(m, r), pc)
    }
}

pub open spec fn with_pc(m: MachineView, pc: (u8, u8)) -> MachineView {
    MachineView { a: m.a, b: m.b, c: m.c, pc, ram: m.ram }
}

/// Whether the word is `NOP` or `HLT`, which only move the counter on.
pub open spec fn single_word(w: u8) -> bool {
    w == 12 || w == 15
}

/// Whether the word is one of the reserved opcodes `001101` and `001110`, whose
/// meaning is not defined: the machine does not execute them.
pub open spec fn reserved(w: u8) -> bool {
    w == 13 || w == 14
}

/// One fetch-decode-execute step; a reserved word leaves the machine as it is.
pub open spec fn step(m: MachineView) -> MachineView {
    let w = fetch(m);
    if reserved(w) {
        m
    } else if single_word(w) {
        with_pc(m, inc(m.pc))
    } else {
        let (v1, pc1) = fetch_operand(m, decode_one(w), m.pc);
        let (v2, pc2) = fetch_operand(m, decode_two(w), pc1);
        let pc3 = inc(pc2);
        match decode_op(w) {
            Operation::Nor => {
                let v = nor6(v1, v2);
                match decode_one(w) {
                    Register::A => MachineView { a: v, b: m.b, c: m.c, pc: pc3, ram: m.ram },
                    Register::B => MachineView { a: m.a, b: v, c: m.c, pc: pc3, ram: m.ram },
                    Register::C => MachineView { a: m.a, b: m.b, c: v, pc: pc3, ram: m.ram },
                    Register::Immediate => with_pc(m, pc3),
                }
            },
            Operation::Pc => with_pc(m, (v1, v2)),
            Operation::Load => MachineView { a: m.a, b: m.b, c: read_spec(m.ram, pc3, v1, v2), pc: pc3, ram: m.ram },
            Operation::Store => MachineView { a: m.a, b: m.b, c: m.c, pc: pc3, ram: write_spec(m.ram, v1, v2, m.c) },
        }
    }
}

/// The state after `n` steps.
pub open spec fn run(m: MachineView, n: nat) -> MachineView
    decreases n,
{
    if n == 0 {
        m
    } else {
        step(run(m, (n - 1) as nat))
    }
}

/// Registers, memory and program counter of the emulated machine.
pub struct InteractiveState {
    pub a: u8,
    pub b: u8,
    pub c: u8,
    pub memory: Memory,
}

impl InteractiveState {
    pub open spec fn wf(&self) -> bool {
        self.a < 64 && self.b < 64 && self.c < 64 && self.memory.wf()
    }

    pub open spec fn view(&self) -> MachineView {
        MachineView { a: self.a, b: self.b, c: self.c, pc: self.memory.pc().pair(), ram: self.memory.ram() }
    }

    pub fn new() -> (r: InteractiveState)
        ensures
            r.wf(),
            r.a == 0 && r.b == 0 && r.c == 0,
            r.view().pc == (0u8, 0u8),
            r.view().ram == Seq::new(RAM_SIZE as nat, |i: int| 0u8),
    {
        InteractiveState { a: 0, b: 0, c: 0, memory: Memory::new() }
    }

    /// The program counter as `(high, low)`.
    pub fn pc(&self) -> (r: (u8, u8))
        ensures
            r == self.view().pc,
    {
        self.memory.program_counter().as_tuple()
    }

    /// Whether the word at the program counter is `HLT`.
    pub fn is_halt(&self) -> (r: bool)
        requires
            self.wf(),
        ensures
            r == (fetch(self.view()) == HLT_WORD),
    {
        let pc = self.memory.program_counter().as_tuple();
        self.memory.read(pc) == HLT_WORD
    }

    /// Whether the word at the program counter is a reserved opcode.
    pub fn is_reserved(&self) -> (r: bool)
        requires
            self.wf(),
        ensures
            r == reserved(fetch(self.view())),
    {
        let pc = self.memory.program_counter().as_tuple();
        let w = self.memory.read(pc);
        w == 13 || w == 14
    }

    fn consume_operand(&mut self, operand: Register) -> (r: u8)
        requires
            old(self).wf(),
        ensures
            final(self).wf(),
            (r, final(self).view().pc) == fetch_operand(old(self).view(), operand, old(self).view().pc),
            final(self).view().ram == old(self).view().ram,
            final(self).a == old(self).a && final(self).b == old(self).b && final(self).c == old(self).c,
            r < 64,
    {
        match operand {
            Register::A => self.a,
            Register::B => self.b,
            Register::C => self.c,
            Register::Immediate => {
                self.memory.increment_pc();
                let pc = self.memory.program_counter().as_tuple();
                self.memory.read(pc)
            },
        }
    }

    /// Executes the instruction at the program counter.
    #[verifier::rlimit(80)]
    #[verifier::spinoff_prover]
    pub fn consume_instruction(&mut self) -> (executed: bool)
        requires
            old(self).wf(),
        ensures
            final(self).wf(),
            final(self).view() == step(old(self).view()),
            executed == !reserved(fetch(old(self).view())),
    {
        let pc = self.memory.program_counter().as_tuple();
        let raw = self.memory.read(pc);
        if raw == 13 || raw == 14 {
            return false;
        }
        if raw == 12 || raw == 15 {
            self.memory.increment_pc();
            return true;
        }
        let instruction = Instruction::new_with_raw_value(raw);
        let one = instruction.one();
        let two = instruction.two();
        let operand_one = self.consume_operand(one);
        let operand_two = self.consume_operand(two);
        self.memory.increment_pc();
        match instruction.operation() {
            Operation::Nor => {
                let value = nor_w6(operand_one, operand_two);
                match one {
                    Register::A => self.a = value,
                    Register::B => self.b = value,
                    Register::C => self.c = value,
                    Register::Immediate => {},
                }
            },
            Operation::Pc => self.memory.set_pc((operand_one, operand_two)),
            Operation::Load => self.c = self.memory.read((operand_one, operand_two)),
            Operation::Store => self.memory.write((operand_one, operand_two), self.c),
        }
        true
    }

    /// Steps until the word at the program counter is `HLT`, which is left unexecuted;
    /// returns whether that happened within `u64::MAX` steps.
    pub fn consume_until_halt(&mut self) -> (halted: bool)
        requires
            old(self).wf(),
        ensures
            final(self).wf(),
            exists|n: nat| final(self).view() == #[trigger] run(old(self).view(), n)
                && (forall|j: nat| j < n ==> fetch(#[trigger] run(old(self).view(), j)) != HLT_WORD
                    && !reserved(fetch(run(old(self).view(), j))))
                && (!halted ==> n == u64::MAX || reserved(fetch(final(self).view()))),
            halted == (fetch(final(self).view()) == HLT_WORD),
            fetch(old(self).view()) == HLT_WORD ==> final(self).view() == old(self).view(),
    {
        let mut fuel: u64 = u64::MAX;
        let ghost k: nat = 0;
        assert(run(old(self).view(), 0) == old(self).view());
        while !self.is_halt()
            invariant
                self.wf(),
                self.view() == run(old(self).view(), k),
                k > 0 ==> fetch(old(self).view()) != HLT_WORD,
                k + fuel == u64::MAX,
                forall|j: nat| j < k ==> fetch(#[trigger] run(old(self).view(), j)) != HLT_WORD
                    && !reserved(fetch(run(old(self).view(), j))),
            decreases fuel,
        {
            if self.is_reserved() {
                assert(run(old(self).view(), k) == self.view());
                return false;
            }
            if fuel == 0 {
                assert(run(old(self).view(), k) == self.view());
                return false;
            }
            let ghost before = self.view();
            self.consume_instruction();
            fuel = fuel - 1;
            proof {
                assert(fetch(before) != HLT_WORD && !reserved(fetch(before)));
                assert(run(old(self).view(), k + 1) == step(run(old(self).view(), k)));
                k = k + 1;
            }
        }
        assert(run(old(self).view(), k) == self.view());
        assert(run(old(self).view(), 0) == old(self).view());
        true
    }

    /// Executes one instruction and then runs until the next `HLT`.
    pub fn consume_until_next_halt(&mut self) -> (halted: bool)
        requires
            old(self).wf(),
        ensures
            final(self).wf(),
            exists|n: nat| n >= 1 && final(self).view() == #[trigger] run(old(self).view(), n)
                && (forall|j: nat| 1 <= j < n ==> fetch(#[trigger] run(old(self).view(), j)) != HLT_WORD
                    && !reserved(fetch(run(old(self).view(), j))))
                && (!halted ==> n == u64::MAX + 1 || reserved(fetch(final(self).view()))),
            halted == (fetch(final(self).view()) == HLT_WORD),
    {
        self.consume_instruction();
        let ghost mid = self.view();
        let halted = self.consume_until_halt();
        proof {
            let n = choose|n: nat| self.view() == #[trigger] run(mid, n)
                && (forall|j: nat| j < n ==> fetch(#[trigger] run(mid, j)) != HLT_WORD
                    && !reserved(fetch(run(mid, j))))
                && (!halted ==> n == u64::MAX || reserved(fetch(self.view())));
            lemma_run_split(old(self).view(), 1, n);
            assert(run(old(self).view(), 0) == old(self).view());
            assert(run(old(self).view(), 1) == mid);
            assert(self.view() == run(old(self).view(), 1 + n));
            assert forall|j: nat| 1 <= j < 1 + n implies fetch(#[trigger] run(old(self).view(), j)) != HLT_WORD
                && !reserved(fetch(run(old(self).view(), j))) by {
                lemma_run_split(old(self).view(), 1, (j - 1) as nat);
                assert(fetch(run(mid, (j - 1) as nat)) != HLT_WORD && !reserved(fetch(run(mid, (j - 1) as nat))));
            }
            assert(self.view() == run(old(self).view(), 1 + n));
        }
        halted
    }
}

/// Running `a` steps and then `b` steps is running `a + b` steps.
pub proof fn lemma_run_split(m: MachineView, a: nat, b: nat)
    ensures
        run(run(m, a), b) == run(m, a + b),
    decreases b,
{
    if b > 0 {
        lemma_run_split(m, a, (b - 1) as nat);
        assert(run(m, a + b) == step(run(m, (a + b - 1) as nat)));
    }
}

} // verus!
