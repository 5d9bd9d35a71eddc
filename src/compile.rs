//! The whole pipeline: source text to tokens, IR, symbol table and machine words.
use vstd::prelude::*;
use crate::assembler::{assemble, assembled, raws};
use crate::diagnostic::Diagnostic;
use crate::generator::labels_accounted;
use crate::instruction::Instruction;
use crate::ir::Ir;
use crate::lexer::{token_views, tokens_from, Cursor};
use crate::parser::{errors_of, parse_run, Parser};
use crate::symbols::SymbolTable;
use crate::tokens::Token;

verus! {

pub struct CompileInfo {
    pub symbol_table: SymbolTable,
    pub binary: Vec<u8>,
    pub instructions: Vec<Instruction>,
    pub ir: Vec<Ir>,
    pub tokens: Vec<Token>,
    pub diagnostics: Vec<Diagnostic>,
}

/// The words of the instructions.
pub fn raw_words(instructions: &Vec<Instruction>) -> (r: Vec<u8>)
    requires
        forall|k: int| 0 <= k < instructions@.len() ==> (#[trigger] instructions@[k]).wf(),
    ensures
        r@ == raws(instructions@),
        forall|k: int| 0 <= k < r@.len() ==> #[trigger] r@[k] < 64,
{
    let mut binary: Vec<u8> = Vec::new();
    let mut i: usize = 0;
    while i < instructions.len()
        invariant
            i <= instructions@.len(),
            binary@ == raws(instructions@).subrange(0, i as int),
            forall|k: int| 0 <= k < instructions@.len() ==> (#[trigger] instructions@[k]).wf(),
        decreases instructions@.len() - i,
    {
        binary.push(instructions[i].raw_value());
        i = i + 1;
        assert(binary@ =~= raws(instructions@).subrange(0, i as int));
    }
    assert(binary@ =~= raws(instructions@));
    binary
}

/// Compiles `source` for loading at `offset`. The binary holds the words of every
/// node that assembled; the diagnostics are the parser's followed by the assembler's.
#[verifier::rlimit(100)]
#[verifier::spinoff_prover]
pub fn compile_to_binary(source: &str, offset: u16) -> (r: CompileInfo)
    requires
        offset < 4096,
    ensures
        token_views(r.tokens@) == tokens_from(source@, 0),
        r.symbol_table.wf(),
        labels_accounted(r.symbol_table, r.ir@, offset as nat),
        raws(r.instructions@) == assembled(r.ir@, r.symbol_table).0,
        r.binary@ == raws(r.instructions@),
        exists|heads: Seq<Parser>, mids: Seq<Parser>, outs: Seq<Result<(), Diagnostic>>|
            #[trigger] parse_run(heads, mids, outs)
            && heads[0].text() == source@
            && heads[0].pos() == 0
            && heads[0].generator().ir_seq() == Seq::<Ir>::empty()
            && heads[0].generator().origin() == offset
            && (forall|n: Seq<char>| #[trigger] heads[0].generator().table().get_spec(n) is None)
            && heads.last().pos() == source@.len()
            && r.ir@ == heads.last().generator().ir_seq()
            && r.symbol_table == heads.last().generator().table()
            && r.diagnostics@ == errors_of(outs) + assembled(r.ir@, r.symbol_table).1,
        forall|k: int| 0 <= k < r.binary@.len() ==> #[trigger] r.binary@[k] < 64,
{
    let tokens = Cursor::new(source).tokenize();
    let parser = Parser::new(source, offset);
    let ghost start = parser;
    let parsed = parser.parse();
    let ir = parsed.ir;
    let symbol_table = parsed.symbol_table;
    let mut diagnostics = parsed.diagnostics;
    let ghost from_parser = diagnostics@;
    let (instructions, mut more) = assemble(&ir, &symbol_table);
    diagnostics.append(&mut more);
    let binary = raw_words(&instructions);
    assert(diagnostics@ == from_parser + assembled(ir@, symbol_table).1);
    CompileInfo { symbol_table, binary, instructions, ir, tokens, diagnostics }
}

} // verus!
