//! The parser: reads tokens line by line and drives the IR generator.
use vstd::prelude::*;
use crate::codec::encode_character;
use crate::diagnostic::{fatal, DiagKind, DiagLevel, Diagnostic, IntError};
use crate::generator::{
    add_ir, address_after, and_ir, labels_accounted, lih_ir, lih_target, mov_ir, nand_ir, not_ir, nxor_ir, or_ir, rol_ir, ror_ir,
    shl_ir, shr_ir, sub_ir, xor_ir, IrGenerator,
};
use crate::labels::internal_name;
use crate::ir::{AddressTuple, Conditional, ConditionalKind, Either, Immediate, Ir, IrRegister};
use crate::grammar::{
    address_at, address_view, chain_at, character_at, combine, comparison_at, conditional_at, conditional_view,
    either_at, either_view, imm_at, imm_view, ir_register, label_at, numeric_at, operator_code, unexpected,
};
use crate::lexer::{lemma_identifier_start, lemma_token_at, token_at, token_view, Cursor};
use crate::numeric::u6_from_str_radix;
use crate::span::Span;
use crate::symbols::SymbolTable;
use crate::tokens::{Base, Keyword, Register, Token, TokenKind};

verus! {

/// `d` reports the token `t` as unexpected.
pub open spec fn rejects(d: Diagnostic, t: (TokenKind, int, int)) -> bool {
    &&& d.level == DiagLevel::Fatal
    &&& d.span.start == t.1
    &&& d.span.end == t.2
    &&& d.kind matches DiagKind::UnexpectedToken { found, .. } && found == t.0
}

pub open spec fn set_word_ir(i: Immediate) -> Seq<Ir> {
    seq![Ir::SetWord(i)]
}

pub open spec fn lod_ir(a: AddressTuple) -> Seq<Ir> {
    seq![Ir::Lod(a)]
}

pub open spec fn sto_ir(a: AddressTuple) -> Seq<Ir> {
    seq![Ir::Sto(a)]
}

pub open spec fn pc_ir(a: AddressTuple) -> Seq<Ir> {
    seq![Ir::Pc(a)]
}

/// What the single-register instructions emit.
pub open spec fn register_only_ir(k: Keyword, r: IrRegister) -> Seq<Ir> {
    match k {
        Keyword::Not => not_ir(r),
        Keyword::Rol => rol_ir(r),
        Keyword::Ror => ror_ir(r),
        Keyword::Shl => shl_ir(r),
        _ => shr_ir(r),
    }
}

pub open spec fn is_register_only(k: Keyword) -> bool {
    k == Keyword::Not || k == Keyword::Rol || k == Keyword::Ror || k == Keyword::Shl || k == Keyword::Shr
}

pub open spec fn is_register_operand(k: Keyword) -> bool {
    k == Keyword::And || k == Keyword::Nand || k == Keyword::Or || k == Keyword::Nor || k == Keyword::Xor
        || k == Keyword::Nxor || k == Keyword::Add || k == Keyword::Sub || k == Keyword::Mov
}

/// What the instructions with a register and an operand emit.
pub open spec fn register_operand_ir(k: Keyword, r: IrRegister, e: Either) -> Seq<Ir> {
    match k {
        Keyword::And => and_ir(r, e),
        Keyword::Nand => nand_ir(r, e),
        Keyword::Or => or_ir(r, e),
        Keyword::Nor => seq![Ir::Nor(r, e)],
        Keyword::Xor => xor_ir(r, e),
        Keyword::Nxor => nxor_ir(r, e),
        Keyword::Add => add_ir(r, e),
        Keyword::Sub => sub_ir(r, e),
        _ => mov_ir(r, e),
    }
}

/// What an instruction whose operands start at position `pos` of `text` does to the
/// generator, when its operands parse.
pub open spec fn instruction_effect(k: Keyword, before: IrGenerator, after: IrGenerator, text: Seq<char>, pos: int) -> bool {
    let t = token_at(text, pos);
    if is_register_only(k) {
        &&& t.0 is Register
        &&& after.ir_seq() == before.ir_seq() + register_only_ir(k, ir_register(t.0->Register_0))
        &&& after.keeps(&before)
    } else if is_register_operand(k) {
        &&& t.0 is Register
        &&& exists|e: Either| either_view(e) == either_at(text, t.2)->Ok_0.0
            && after.ir_seq() == before.ir_seq() + #[trigger] register_operand_ir(k, ir_register(t.0->Register_0), e)
        &&& after.keeps(&before)
    } else if k == Keyword::SetWord {
        &&& exists|i: Immediate| imm_view(i) == imm_at(text, pos)->Ok_0.0
            && after.ir_seq() == before.ir_seq() + #[trigger] set_word_ir(i)
        &&& after.keeps(&before)
    } else if k == Keyword::Lod {
        &&& exists|a: AddressTuple| address_view(a) == address_at(text, pos)->Ok_0.0
            && after.ir_seq() == before.ir_seq() + #[trigger] lod_ir(a)
        &&& after.keeps(&before)
    } else if k == Keyword::Sto {
        &&& exists|a: AddressTuple| address_view(a) == address_at(text, pos)->Ok_0.0
            && after.ir_seq() == before.ir_seq() + #[trigger] sto_ir(a)
        &&& after.keeps(&before)
    } else if k == Keyword::Pc {
        &&& exists|a: AddressTuple| address_view(a) == address_at(text, pos)->Ok_0.0
            && after.ir_seq() == before.ir_seq() + #[trigger] pc_ir(a)
        &&& after.keeps(&before)
    } else if k == Keyword::Lab {
        &&& t.0 == TokenKind::Identifier
        &&& after.ir_seq() == before.ir_seq()
        &&& forall|n: Seq<char>| #[trigger] after.table().get_spec(n)
            == (if n == text.subrange(t.1, t.2) { Some(before.next()) } else { before.table().get_spec(n) })
    } else if k == Keyword::Lih {
        &&& exists|c: Conditional, a: AddressTuple, label: String|
            label@ == internal_name(before.counter() as nat)
            && conditional_view(c) == conditional_at(text, pos)->Ok_0.0
            && address_view(a) == address_at(text, conditional_at(text, pos)->Ok_0.1)->Ok_0.0
            && after.ir_seq() == before.ir_seq() + #[trigger] lih_ir(c, a, label, before.next() as int)
    } else if k == Keyword::Nop {
        &&& after.ir_seq() == before.ir_seq() + seq![Ir::Nop]
        &&& after.keeps(&before)
    } else {
        &&& after.ir_seq() == before.ir_seq() + seq![Ir::Hlt]
        &&& after.keeps(&before)
    }
}

/// Where the operands of an instruction that start at `pos` end, or why they do not parse.
pub open spec fn operands_end(k: Keyword, text: Seq<char>, pos: int) -> Result<int, Diagnostic> {
    let t = token_at(text, pos);
    if is_register_only(k) {
        if t.0 is Register { Ok(t.2) } else { Err(unexpected(t, "Register")) }
    } else if is_register_operand(k) {
        if t.0 is Register {
            match either_at(text, t.2) {
                Ok((_, e)) => Ok(e),
                Err(d) => Err(d),
            }
        } else {
            Err(unexpected(t, "Register"))
        }
    } else if k == Keyword::SetWord {
        match imm_at(text, pos) {
            Ok((_, e)) => Ok(e),
            Err(d) => Err(d),
        }
    } else if k == Keyword::Lod || k == Keyword::Sto || k == Keyword::Pc {
        match address_at(text, pos) {
            Ok((_, e)) => Ok(e),
            Err(d) => Err(d),
        }
    } else if k == Keyword::Lab {
        if t.0 == TokenKind::Identifier { Ok(t.2) } else { Err(unexpected(t, "Identifier")) }
    } else if k == Keyword::Lih {
        match conditional_at(text, pos) {
            Err(d) => Err(d),
            Ok((_, e1)) => match address_at(text, e1) {
                Ok((_, e2)) => Ok(e2),
                Err(d) => Err(d),
            },
        }
    } else {
        Ok(pos)
    }
}

/// Whether a `LAB` at `pos` names a label that `g` already holds.
pub open spec fn redeclares(k: Keyword, g: IrGenerator, text: Seq<char>, pos: int) -> bool {
    let t = token_at(text, pos);
    k == Keyword::Lab && t.0 == TokenKind::Identifier && g.table().get_spec(text.subrange(t.1, t.2)) is Some
}

/// The end of a line at `pos`: a newline or the end of the text, after an optional comment.
pub open spec fn end_of_line(text: Seq<char>, pos: int, allow_trailing_comment: bool) -> Result<(), Diagnostic> {
    let a = token_at(text, pos);
    let b = token_at(text, a.2);
    if a.0 == TokenKind::NewLine || a.0 == TokenKind::Eof {
        Ok(())
    } else if a.0 == TokenKind::LineComment && allow_trailing_comment {
        if b.0 == TokenKind::NewLine || b.0 == TokenKind::Eof { Ok(()) } else { Err(unexpected(b, "NewLine | Eof")) }
    } else {
        Err(unexpected(a, if allow_trailing_comment { "NewLine | Eof | Comment" } else { "NewLine | Eof" }))
    }
}

/// What parsing the operands of `k` does, from `before` to `after` with result `r`.
pub open spec fn keyword_outcome(k: Keyword, before: Parser, after: Parser, r: Result<(), Diagnostic>) -> bool {
    match operands_end(k, before.text(), before.pos()) {
        Err(d) => r == Err::<(), Diagnostic>(d) && after.generator() == before.generator(),
        Ok(e) => after.pos() == e && if redeclares(k, before.generator(), before.text(), before.pos()) {
            r is Err && after.generator() == before.generator()
        } else {
            r is Ok
        },
    }
}

/// What parsing one line does, from `before` to `after` with result `r`.
pub open spec fn line_result(before: Parser, after: Parser, r: Result<(), Diagnostic>) -> bool {
    &&& (after.advanced(&before))
    &&& (before.pos() < before.text().len() ==> before.pos() < after.pos())
    &&& (after.generator().origin() == before.generator().origin())
    &&& (before.generator().ir_seq().is_prefix_of(after.generator().ir_seq()))
    &&& (r matches Err(d) ==> d.level == DiagLevel::Fatal)
    &&& (before.next_token().0 == TokenKind::NewLine || before.next_token().0 == TokenKind::Eof
                ==> r is Ok && after.generator() == before.generator())
    &&& (before.next_token().0 == TokenKind::LineComment ==> after.generator() == before.generator())
    &&& (({
                let t = before.next_token();
                let u = token_at(before.text(), t.2);
                t.0 == TokenKind::Keyword(Keyword::Lab) && u.0 == TokenKind::Identifier
                    && before.generator().table().get_spec(before.text().subrange(u.1, u.2)) is Some
                    ==> r == Err::<(), Diagnostic>(fatal(Span { start: u.1 as usize, end: u.2 as usize }, DiagKind::DuplicateLabel))
            }))
    &&& (before.next_token().0 is Keyword && r is Ok
                ==> instruction_effect(before.next_token().0->Keyword_0, before.generator(), after.generator(), before.text(), before.next_token().2))
    &&& (before.next_token().0 is Keyword ==> ({
                let t = before.next_token();
                let k = t.0->Keyword_0;
                match operands_end(k, before.text(), t.2) {
                    Err(d) => r == Err::<(), Diagnostic>(d) && after.generator() == before.generator(),
                    Ok(e) => if redeclares(k, before.generator(), before.text(), t.2) {
                        r is Err && after.generator() == before.generator()
                    } else {
                        instruction_effect(k, before.generator(), after.generator(), before.text(), t.2)
                            && r == end_of_line(before.text(), e, true)
                    },
                }
            }))
    &&& (before.next_token().0 == TokenKind::LineComment ==> r == end_of_line(before.text(), before.next_token().2, false))
    &&& (!(before.next_token().0 is Keyword) && before.next_token().0 != TokenKind::NewLine
                && before.next_token().0 != TokenKind::Eof && before.next_token().0 != TokenKind::LineComment
                ==> r == Err::<(), Diagnostic>(unexpected(before.next_token(), "Keyword | Comment | NewLine"))
                && after.generator() == before.generator())
}

/// The position just after the newline that ends the line at `pos`, or the end of the text.
pub open spec fn skip_line(text: Seq<char>, pos: int) -> int
    decreases text.len() - pos,
{
    let t = token_at(text, pos);
    if pos < 0 || pos >= text.len() {
        pos
    } else if t.0 == TokenKind::NewLine || t.0 == TokenKind::Eof {
        t.2
    } else if t.2 <= pos || t.2 > text.len() {
        pos
    } else {
        skip_line(text, t.2)
    }
}

/// Where parsing goes on after a line failed with `d` at `pos`: unless the error was
/// already at the end of the line, the rest of the line is skipped.
pub open spec fn resume_at(text: Seq<char>, pos: int, d: Diagnostic) -> int {
    match d.kind {
        DiagKind::UnexpectedToken { found, .. } => if found == TokenKind::NewLine || found == TokenKind::Eof {
            pos
        } else {
            skip_line(text, pos)
        },
        _ => skip_line(text, pos),
    }
}

/// The diagnostics of the lines that failed, in order.
pub open spec fn errors_of(outs: Seq<Result<(), Diagnostic>>) -> Seq<Diagnostic>
    decreases outs.len(),
{
    if outs.len() == 0 {
        Seq::empty()
    } else {
        match outs.last() {
            Err(d) => errors_of(outs.drop_last()).push(d),
            Ok(_) => errors_of(outs.drop_last()),
        }
    }
}

/// A run of the parser over its text: `heads[i]` is the state before line `i`,
/// `mids[i]` the state after parsing it with result `outs[i]`, and `heads[i + 1]` the
/// state after recovering from an error.
pub open spec fn parse_run(heads: Seq<Parser>, mids: Seq<Parser>, outs: Seq<Result<(), Diagnostic>>) -> bool {
    &&& heads.len() == outs.len() + 1
    &&& mids.len() == outs.len()
    &&& forall|i: int| 0 <= i < outs.len() ==> #[trigger] run_step(heads, mids, outs, i)
}

/// Line `i` of a run: parsed from `heads[i]` to `mids[i]`, then recovered to `heads[i + 1]`.
pub open spec fn run_step(heads: Seq<Parser>, mids: Seq<Parser>, outs: Seq<Result<(), Diagnostic>>, i: int) -> bool {
    &&& line_result(heads[i], mids[i], outs[i])
    &&& heads[i].pos() < heads[i].text().len()
    &&& heads[i + 1].text() == mids[i].text()
    &&& heads[i + 1].generator() == mids[i].generator()
    &&& heads[i + 1].pos() == match outs[i] {
        Ok(_) => mids[i].pos(),
        Err(d) => resume_at(mids[i].text(), mids[i].pos(), d),
    }
}

/// One more line keeps a run a run.
pub proof fn lemma_parse_run_push(
    heads: Seq<Parser>,
    mids: Seq<Parser>,
    outs: Seq<Result<(), Diagnostic>>,
    mid: Parser,
    next: Parser,
    out: Result<(), Diagnostic>,
)
    requires
        parse_run(heads, mids, outs),
        line_result(heads.last(), mid, out),
        heads.last().pos() < heads.last().text().len(),
        next.text() == mid.text(),
        next.generator() == mid.generator(),
        next.pos() == match out {
            Ok(_) => mid.pos(),
            Err(d) => resume_at(mid.text(), mid.pos(), d),
        },
    ensures
        parse_run(heads.push(next), mids.push(mid), outs.push(out)),
        errors_of(outs.push(out)) == match out {
            Ok(_) => errors_of(outs),
            Err(d) => errors_of(outs).push(d),
        },
{
    let h2 = heads.push(next);
    let m2 = mids.push(mid);
    let o2 = outs.push(out);
    assert(o2.drop_last() =~= outs);
    assert forall|i: int| 0 <= i < o2.len() implies #[trigger] run_step(h2, m2, o2, i) by {
        if i < outs.len() {
            assert(h2[i] == heads[i]);
            assert(h2[i + 1] == heads[i + 1]);
            assert(m2[i] == mids[i]);
            assert(o2[i] == outs[i]);
            assert(run_step(heads, mids, outs, i));
        } else {
            assert(h2[i] == heads.last());
            assert(h2[i + 1] == next);
            assert(m2[i] == mid);
            assert(o2[i] == out);
        }
    }
    assert(parse_run(h2, m2, o2));
}

pub fn unexpected_token_error(found: Token, expected: &'static str) -> (r: Diagnostic)
    ensures
        rejects(r, token_view(found)),
        r == unexpected(token_view(found), expected),
{
    Diagnostic::fatal(found.span, DiagKind::UnexpectedToken { found: found.kind, expected })
}

/// The nodes, the symbol table and the diagnostics of one source text.
pub struct ParseResult {
    pub ir: Vec<Ir>,
    pub symbol_table: SymbolTable,
    pub diagnostics: Vec<Diagnostic>,
}

pub struct Parser {
    cursor: Cursor,
    ir: IrGenerator,
}

impl Parser {
    pub closed spec fn cur(&self) -> Cursor {
        self.cursor
    }

    pub closed spec fn generator(&self) -> IrGenerator {
        self.ir
    }

    pub open spec fn text(&self) -> Seq<char> {
        self.cur().text()
    }

    pub open spec fn pos(&self) -> int {
        self.cur().pos()
    }

    /// The next token of the text.
    pub open spec fn next_token(&self) -> (TokenKind, int, int) {
        token_at(self.text(), self.pos())
    }

    pub open spec fn wf(&self) -> bool {
        self.cur().wf() && self.generator().wf()
    }

    /// Same text, not moved backwards, still well formed.
    pub open spec fn advanced(&self, before: &Parser) -> bool {
        &&& self.wf()
        &&& self.text() == before.text()
        &&& before.pos() <= self.pos()
    }

    /// The generator is untouched.
    pub open spec fn reads_only(&self, before: &Parser) -> bool {
        self.advanced(before) && self.generator() == before.generator()
    }

    pub fn new(source: &str, offset: u16) -> (r: Parser)
        requires
            offset < 4096,
        ensures
            r.wf(),
            r.text() == source@,
            r.pos() == 0,
            r.generator().origin() == offset,
            r.generator().ir_seq() == Seq::<Ir>::empty(),
            forall|n: Seq<char>| #[trigger] r.generator().table().get_spec(n) is None,
    {
        Parser { cursor: Cursor::new(source), ir: IrGenerator::new(offset) }
    }

    fn advance_token(&mut self) -> (r: Token)
        requires
            old(self).wf(),
        ensures
            final(self).reads_only(old(self)),
            token_view(r) == old(self).next_token(),
            final(self).pos() == r.span.end,
            old(self).pos() < old(self).text().len() ==> old(self).pos() < final(self).pos(),
            r.kind != TokenKind::Eof ==> old(self).pos() < final(self).pos(),
    {
        proof {
            lemma_token_at(self.text(), self.pos());
        }
        self.cursor.advance_token()
    }

    fn peek_token(&mut self) -> (r: Token)
        requires
            old(self).wf(),
        ensures
            final(self).reads_only(old(self)),
            final(self).pos() == old(self).pos(),
            token_view(r) == old(self).next_token(),
    {
        self.cursor.peek_token()
    }

    /// Parses the whole text; a line with an error adds a diagnostic and is skipped.
    pub fn parse(self) -> (r: ParseResult)
        requires
            self.wf(),
        ensures
            r.symbol_table.wf(),
            self.generator().ir_seq().is_prefix_of(r.ir@),
            forall|k: int| 0 <= k < r.diagnostics@.len() ==> (#[trigger] r.diagnostics@[k]).level == DiagLevel::Fatal,
            labels_accounted(r.symbol_table, r.ir@, self.generator().origin()),
            exists|heads: Seq<Parser>, mids: Seq<Parser>, outs: Seq<Result<(), Diagnostic>>|
                #[trigger] parse_run(heads, mids, outs)
                && heads[0] == self
                && heads.last().pos() == self.text().len()
                && r.ir@ == heads.last().generator().ir_seq()
                && r.symbol_table == heads.last().generator().table()
                && r.diagnostics@ == errors_of(outs),
    {
        let mut parser = self;
        let mut diagnostics: Vec<Diagnostic> = Vec::new();
        let ghost mut heads: Seq<Parser> = seq![self];
        let ghost mut mids: Seq<Parser> = Seq::empty();
        let ghost mut outs: Seq<Result<(), Diagnostic>> = Seq::empty();
        while !parser.cursor.is_eof()
            invariant
                parser.wf(),
                parser.text() == self.text(),
                parser.generator().origin() == self.generator().origin(),
                self.generator().ir_seq().is_prefix_of(parser.generator().ir_seq()),
                forall|k: int| 0 <= k < diagnostics@.len() ==> (#[trigger] diagnostics@[k]).level == DiagLevel::Fatal,
                parse_run(heads, mids, outs),
                heads[0] == self,
                heads.last() == parser,
                diagnostics@ == errors_of(outs),
            decreases parser.text().len() - parser.pos(),
        {
            let ghost head = parser;
            let result = parser.advance_ir();
            let ghost mid = parser;
            match result {
                Ok(()) => {},
                Err(e) => {
                    parser.recover(&e);
                    diagnostics.push(e);
                },
            }
            proof {
                lemma_parse_run_push(heads, mids, outs, mid, parser, result);
                outs = outs.push(result);
                mids = mids.push(mid);
                heads = heads.push(parser);
            }
        }
        let ghost g = parser.generator();
        let (ir, symbol_table) = parser.ir.finalize();
        proof {
            reveal(labels_accounted);
            assert forall|n: Seq<char>| #[trigger] symbol_table.get_spec(n) is Some implies exists|k: int|
                0 <= k <= ir@.len() && symbol_table.get_spec(n)->Some_0 as int == address_after(self.generator().origin(), #[trigger] ir@.take(k)) by {
                let k = g.declared()[n] as int;
                assert(symbol_table.get_spec(n)->Some_0 as int == address_after(g.origin(), ir@.take(k)));
            }
        }
        ParseResult { ir, symbol_table, diagnostics }
    }

    /// After an error, skips the rest of the line unless the error was at its end.
    fn recover(&mut self, error: &Diagnostic)
        requires
            old(self).wf(),
        ensures
            final(self).advanced(old(self)),
            final(self).generator() == old(self).generator(),
            final(self).pos() == resume_at(old(self).text(), old(self).pos(), *error),
    {
        let at_end = match &error.kind {
            DiagKind::UnexpectedToken { found, .. } => matches!(found, TokenKind::NewLine) || matches!(found, TokenKind::Eof),
            _ => false,
        };
        if at_end {
            return;
        }
        assert(resume_at(old(self).text(), old(self).pos(), *error) == skip_line(old(self).text(), old(self).pos()));
        loop
            invariant
                self.wf(),
                self.text() == old(self).text(),
                old(self).pos() <= self.pos(),
                self.generator() == old(self).generator(),
                skip_line(self.text(), self.pos()) == skip_line(old(self).text(), old(self).pos()),
                resume_at(old(self).text(), old(self).pos(), *error) == skip_line(old(self).text(), old(self).pos()),
            decreases self.text().len() - self.pos(),
        {
            let before = self.cursor.is_eof();
            if before {
                assert(skip_line(self.text(), self.pos()) == self.pos());
                return;
            }
            proof {
                lemma_token_at(self.text(), self.pos());
            }
            let ghost start = self.pos();
            let token = self.advance_token();
            if matches!(token.kind, TokenKind::NewLine) || matches!(token.kind, TokenKind::Eof) {
                assert(skip_line(self.text(), start) == self.pos());
                return;
            }
            assert(skip_line(self.text(), start) == skip_line(self.text(), self.pos()));
        }
    }

    /// Parses one line: nothing, a comment, or an instruction with its operands.
    pub fn advance_ir(&mut self) -> (r: Result<(), Diagnostic>)
        requires
            old(self).wf(),
        ensures
            line_result(*old(self), *final(self), r),
    {
        proof {
            lemma_token_at(self.text(), self.pos());
        }
        let token = self.advance_token();
        match token.kind {
            TokenKind::NewLine => Ok(()),
            TokenKind::Eof => Ok(()),
            TokenKind::LineComment => self.parse_end_of_line(false),
            TokenKind::Keyword(keyword) => {
                self.handle_keyword(keyword)?;
                self.parse_end_of_line(true)
            },
            _ => Err(unexpected_token_error(token, "Keyword | Comment | NewLine")),
        }
    }

    fn handle_keyword(&mut self, keyword: Keyword) -> (r: Result<(), Diagnostic>)
        requires
            old(self).wf(),
        ensures
            final(self).advanced(old(self)),
            final(self).generator().origin() == old(self).generator().origin(),
            old(self).generator().ir_seq().is_prefix_of(final(self).generator().ir_seq()),
            r matches Err(d) ==> d.level == DiagLevel::Fatal,
            r is Ok ==> instruction_effect(keyword, old(self).generator(), final(self).generator(), old(self).text(), old(self).pos()),
            keyword == Keyword::Lab && old(self).next_token().0 == TokenKind::Identifier
                && old(self).generator().table().get_spec(old(self).text().subrange(old(self).next_token().1, old(self).next_token().2)) is Some
                ==> r == Err::<(), Diagnostic>(fatal(Span { start: old(self).next_token().1 as usize, end: old(self).next_token().2 as usize }, DiagKind::DuplicateLabel)),
            keyword_outcome(keyword, *old(self), *final(self), r),
    {
        if keyword == Keyword::Not || keyword == Keyword::Rol || keyword == Keyword::Ror
            || keyword == Keyword::Shl || keyword == Keyword::Shr {
            self.register_only(keyword)
        } else if keyword == Keyword::And || keyword == Keyword::Nand || keyword == Keyword::Or
            || keyword == Keyword::Nor || keyword == Keyword::Xor || keyword == Keyword::Nxor
            || keyword == Keyword::Add || keyword == Keyword::Sub || keyword == Keyword::Mov {
            self.register_operand(keyword)
        } else if keyword == Keyword::SetWord {
            self.set_word_line(keyword)
        } else if keyword == Keyword::Lod || keyword == Keyword::Sto || keyword == Keyword::Pc {
            self.address_line(keyword)
        } else if keyword == Keyword::Lab {
            self.label_line(keyword)
        } else if keyword == Keyword::Lih {
            self.lih_line(keyword)
        } else {
            self.bare_line(keyword)
        }
    }

    /// `SET immediate`.
    #[verifier::rlimit(60)]
    fn set_word_line(&mut self, keyword: Keyword) -> (r: Result<(), Diagnostic>)
        requires
            old(self).wf(),
            keyword == Keyword::SetWord,
        ensures
            final(self).advanced(old(self)),
            final(self).generator().origin() == old(self).generator().origin(),
            old(self).generator().ir_seq().is_prefix_of(final(self).generator().ir_seq()),
            r matches Err(d) ==> d.level == DiagLevel::Fatal,
            r is Ok ==> instruction_effect(keyword, old(self).generator(), final(self).generator(), old(self).text(), old(self).pos()),
            keyword == Keyword::Lab && old(self).next_token().0 == TokenKind::Identifier
                && old(self).generator().table().get_spec(old(self).text().subrange(old(self).next_token().1, old(self).next_token().2)) is Some
                ==> r == Err::<(), Diagnostic>(fatal(Span { start: old(self).next_token().1 as usize, end: old(self).next_token().2 as usize }, DiagKind::DuplicateLabel)),
            keyword_outcome(keyword, *old(self), *final(self), r),
    {
        let immediate = self.parse_immediate()?;
        let ghost i = immediate;
        self.ir.set_word(immediate);
        assert(self.generator().ir_seq() == old(self).generator().ir_seq() + set_word_ir(i));
        Ok(())
    }

    /// `LOD`, `STO` or `PC` with an address.
    #[verifier::rlimit(60)]
    fn address_line(&mut self, keyword: Keyword) -> (r: Result<(), Diagnostic>)
        requires
            old(self).wf(),
            keyword == Keyword::Lod || keyword == Keyword::Sto || keyword == Keyword::Pc,
        ensures
            final(self).advanced(old(self)),
            final(self).generator().origin() == old(self).generator().origin(),
            old(self).generator().ir_seq().is_prefix_of(final(self).generator().ir_seq()),
            r matches Err(d) ==> d.level == DiagLevel::Fatal,
            r is Ok ==> instruction_effect(keyword, old(self).generator(), final(self).generator(), old(self).text(), old(self).pos()),
            keyword == Keyword::Lab && old(self).next_token().0 == TokenKind::Identifier
                && old(self).generator().table().get_spec(old(self).text().subrange(old(self).next_token().1, old(self).next_token().2)) is Some
                ==> r == Err::<(), Diagnostic>(fatal(Span { start: old(self).next_token().1 as usize, end: old(self).next_token().2 as usize }, DiagKind::DuplicateLabel)),
            keyword_outcome(keyword, *old(self), *final(self), r),
    {
        let address = self.parse_address_tuple()?;
        let ghost a = address;
        match keyword {
            Keyword::Lod => {
                self.ir.lod(address);
                assert(self.generator().ir_seq() == old(self).generator().ir_seq() + lod_ir(a));
            },
            Keyword::Sto => {
                self.ir.sto(address);
                assert(self.generator().ir_seq() == old(self).generator().ir_seq() + sto_ir(a));
            },
            _ => {
                self.ir.pc(address);
                assert(self.generator().ir_seq() == old(self).generator().ir_seq() + pc_ir(a));
            },
        }
        Ok(())
    }

    /// `LAB name`.
    #[verifier::rlimit(60)]
    fn label_line(&mut self, keyword: Keyword) -> (r: Result<(), Diagnostic>)
        requires
            old(self).wf(),
            keyword == Keyword::Lab,
        ensures
            final(self).advanced(old(self)),
            final(self).generator().origin() == old(self).generator().origin(),
            old(self).generator().ir_seq().is_prefix_of(final(self).generator().ir_seq()),
            r matches Err(d) ==> d.level == DiagLevel::Fatal,
            r is Ok ==> instruction_effect(keyword, old(self).generator(), final(self).generator(), old(self).text(), old(self).pos()),
            keyword == Keyword::Lab && old(self).next_token().0 == TokenKind::Identifier
                && old(self).generator().table().get_spec(old(self).text().subrange(old(self).next_token().1, old(self).next_token().2)) is Some
                ==> r == Err::<(), Diagnostic>(fatal(Span { start: old(self).next_token().1 as usize, end: old(self).next_token().2 as usize }, DiagKind::DuplicateLabel)),
            keyword_outcome(keyword, *old(self), *final(self), r),
    {
        proof {
            lemma_token_at(self.text(), self.pos());
        }
        let (label, span) = self.parse_identifier()?;
        self.ir.lab(label, span)?;
        Ok(())
    }

    /// `LIH [condition] address`.
    #[verifier::rlimit(60)]
    fn lih_line(&mut self, keyword: Keyword) -> (r: Result<(), Diagnostic>)
        requires
            old(self).wf(),
            keyword == Keyword::Lih,
        ensures
            final(self).advanced(old(self)),
            final(self).generator().origin() == old(self).generator().origin(),
            old(self).generator().ir_seq().is_prefix_of(final(self).generator().ir_seq()),
            r matches Err(d) ==> d.level == DiagLevel::Fatal,
            r is Ok ==> instruction_effect(keyword, old(self).generator(), final(self).generator(), old(self).text(), old(self).pos()),
            keyword == Keyword::Lab && old(self).next_token().0 == TokenKind::Identifier
                && old(self).generator().table().get_spec(old(self).text().subrange(old(self).next_token().1, old(self).next_token().2)) is Some
                ==> r == Err::<(), Diagnostic>(fatal(Span { start: old(self).next_token().1 as usize, end: old(self).next_token().2 as usize }, DiagKind::DuplicateLabel)),
            keyword_outcome(keyword, *old(self), *final(self), r),
    {
        let conditional = self.parse_conditional()?;
        let address = self.parse_address_tuple()?;
        let ghost c = conditional;
        let ghost a = address;
        let ghost before = self.generator();
        self.ir.lih(conditional, address);
        proof {
            let label = choose|label: String| label@ == internal_name(before.counter() as nat)
                && self.generator().ir_seq() == before.ir_seq() + #[trigger] lih_ir(c, a, label, before.next() as int)
                && self.generator().table().get_spec(label@) == Some(lih_target(c, label, before.next() as int));
            assert(self.generator().ir_seq() == old(self).generator().ir_seq() + lih_ir(c, a, label, old(self).generator().next() as int));
        }
        Ok(())
    }

    /// `NOP` or `HLT`.
    #[verifier::rlimit(60)]
    fn bare_line(&mut self, keyword: Keyword) -> (r: Result<(), Diagnostic>)
        requires
            old(self).wf(),
            keyword == Keyword::Nop || keyword == Keyword::Hlt,
        ensures
            final(self).advanced(old(self)),
            final(self).generator().origin() == old(self).generator().origin(),
            old(self).generator().ir_seq().is_prefix_of(final(self).generator().ir_seq()),
            r matches Err(d) ==> d.level == DiagLevel::Fatal,
            r is Ok ==> instruction_effect(keyword, old(self).generator(), final(self).generator(), old(self).text(), old(self).pos()),
            keyword == Keyword::Lab && old(self).next_token().0 == TokenKind::Identifier
                && old(self).generator().table().get_spec(old(self).text().subrange(old(self).next_token().1, old(self).next_token().2)) is Some
                ==> r == Err::<(), Diagnostic>(fatal(Span { start: old(self).next_token().1 as usize, end: old(self).next_token().2 as usize }, DiagKind::DuplicateLabel)),
            keyword_outcome(keyword, *old(self), *final(self), r),
    {
        if keyword == Keyword::Nop {
            self.ir.nop();
        } else {
            self.ir.hlt();
        }
        Ok(())
    }

    fn register_only(&mut self, keyword: Keyword) -> (r: Result<(), Diagnostic>)
        requires
            old(self).wf(),
            is_register_only(keyword),
        ensures
            final(self).advanced(old(self)),
            final(self).generator().origin() == old(self).generator().origin(),
            old(self).generator().ir_seq().is_prefix_of(final(self).generator().ir_seq()),
            r matches Err(d) ==> d.level == DiagLevel::Fatal,
            r is Ok ==> instruction_effect(keyword, old(self).generator(), final(self).generator(), old(self).text(), old(self).pos()),
            keyword_outcome(keyword, *old(self), *final(self), r),
    {
        let register = self.parse_register()?;
        match keyword {
            Keyword::Not => self.ir.not(register),
            Keyword::Rol => self.ir.rol(register),
            Keyword::Ror => self.ir.ror(register),
            Keyword::Shl => self.ir.shl(register),
            _ => self.ir.shr(register),
        }
        Ok(())
    }

    fn register_operand(&mut self, keyword: Keyword) -> (r: Result<(), Diagnostic>)
        requires
            old(self).wf(),
            is_register_operand(keyword),
        ensures
            final(self).advanced(old(self)),
            final(self).generator().origin() == old(self).generator().origin(),
            old(self).generator().ir_seq().is_prefix_of(final(self).generator().ir_seq()),
            r matches Err(d) ==> d.level == DiagLevel::Fatal,
            r is Ok ==> instruction_effect(keyword, old(self).generator(), final(self).generator(), old(self).text(), old(self).pos()),
            keyword_outcome(keyword, *old(self), *final(self), r),
    {
        let register = self.parse_register()?;
        let either = self.parse_either()?;
        let ghost e = either;
        match keyword {
            Keyword::And => self.ir.and(register, either),
            Keyword::Nand => self.ir.nand(register, either),
            Keyword::Or => self.ir.or(register, either),
            Keyword::Nor => self.ir.nor(register, either),
            Keyword::Xor => self.ir.xor(register, either),
            Keyword::Nxor => self.ir.nxor(register, either),
            Keyword::Add => self.ir.add(register, either),
            Keyword::Sub => self.ir.sub(register, either),
            _ => self.ir.mov(register, either),
        }
        assert(self.generator().ir_seq() == old(self).generator().ir_seq() + register_operand_ir(keyword, register, e));
        Ok(())
    }

    /// A label name; it never starts with `#`.
    pub fn parse_identifier(&mut self) -> (r: Result<(String, Span), Diagnostic>)
        requires
            old(self).wf(),
        ensures
            final(self).reads_only(old(self)),
            final(self).pos() == old(self).next_token().2,
            old(self).next_token().0 == TokenKind::Identifier ==> (r matches Ok((name, span))
                && span.start == old(self).next_token().1 && span.end == old(self).next_token().2
                && name@ == old(self).text().subrange(span.start as int, span.end as int)
                && name@.len() > 0 && name@[0] != '#'),
            old(self).next_token().0 != TokenKind::Identifier ==> r == Err::<(String, Span), Diagnostic>(unexpected(old(self).next_token(), "Identifier")),
    {
        let ghost s = self.text();
        let ghost p = self.pos();
        let token = self.advance_token();
        match token.kind {
            TokenKind::Identifier => {
                proof {
                    lemma_identifier_start(s, p);
                }
                let name = self.cursor.text_between(token.span.start, token.span.end);
                assert(name@[0] == s[token.span.start as int]);
                Ok((name, token.span))
            },
            _ => Err(unexpected_token_error(token, "Identifier")),
        }
    }

    /// An address: a bare label name stands for both halves of its address.
    pub fn parse_address_tuple(&mut self) -> (r: Result<AddressTuple, Diagnostic>)
        requires
            old(self).wf(),
        ensures
            final(self).reads_only(old(self)),
            match address_at(old(self).text(), old(self).pos()) {
                Ok((v, e)) => r is Ok && address_view(r->Ok_0) == v && final(self).pos() == e,
                Err(d) => r == Err::<AddressTuple, Diagnostic>(d),
            },
            r matches Err(d) ==> d.level == DiagLevel::Fatal,
    {
        let first = self.cursor.peek_token();
        let second = self.cursor.peek_second();
        if matches!(first.kind, TokenKind::Identifier) && !matches!(second.kind, TokenKind::Colon) {
            let (label, span) = self.parse_identifier()?;
            let copy = label.clone();
            Ok(AddressTuple(
                Either::Immediate(Immediate::LabelHi(label, span)),
                Either::Immediate(Immediate::LabelLo(copy, span)),
            ))
        } else {
            let hi = self.parse_either()?;
            let lo = self.parse_either()?;
            Ok(AddressTuple(hi, lo))
        }
    }

    /// A register or an immediate.
    pub fn parse_either(&mut self) -> (r: Result<Either, Diagnostic>)
        requires
            old(self).wf(),
        ensures
            final(self).reads_only(old(self)),
            match either_at(old(self).text(), old(self).pos()) {
                Ok((v, e)) => r is Ok && either_view(r->Ok_0) == v && final(self).pos() == e,
                Err(d) => r == Err::<Either, Diagnostic>(d),
            },
            r is Ok ==> old(self).pos() < final(self).pos(),
            r matches Err(d) ==> d.level == DiagLevel::Fatal,
    {
        proof {
            lemma_token_at(self.text(), self.pos());
        }
        let next = self.peek_token();
        if let TokenKind::Register(_) = next.kind {
            let register = self.parse_register()?;
            Ok(Either::Register(register))
        } else {
            let immediate = self.parse_immediate()?;
            Ok(Either::Immediate(immediate))
        }
    }

    pub fn parse_register(&mut self) -> (r: Result<IrRegister, Diagnostic>)
        requires
            old(self).wf(),
        ensures
            final(self).reads_only(old(self)),
            final(self).pos() == old(self).next_token().2,
            old(self).next_token().0 matches TokenKind::Register(x) ==> r == Ok::<IrRegister, Diagnostic>(ir_register(x)),
            !(old(self).next_token().0 is Register) ==> r == Err::<IrRegister, Diagnostic>(unexpected(old(self).next_token(), "Register")),
    {
        let token = self.advance_token();
        match token.kind {
            TokenKind::Register(Register::A) => Ok(IrRegister::A),
            TokenKind::Register(Register::B) => Ok(IrRegister::B),
            TokenKind::Register(Register::C) => Ok(IrRegister::C),
            _ => Err(unexpected_token_error(token, "Register")),
        }
    }

    fn expect(&mut self, kind: TokenKind, expected: &'static str) -> (r: Result<(), Diagnostic>)
        requires
            old(self).wf(),
        ensures
            final(self).reads_only(old(self)),
            final(self).pos() == old(self).next_token().2,
            r is Ok <==> old(self).next_token().0 == kind,
            r matches Err(d) ==> d == unexpected(old(self).next_token(), expected) && rejects(d, old(self).next_token()),
    {
        let token = self.advance_token();
        if token.kind == kind {
            Ok(())
        } else {
            Err(unexpected_token_error(token, expected))
        }
    }

    /// `==`, `!=`, `<`, `<=`, `>` or `>=`.
    pub fn parse_comparison(&mut self) -> (r: Result<ConditionalKind, Diagnostic>)
        requires
            old(self).wf(),
        ensures
            final(self).reads_only(old(self)),
            match comparison_at(old(self).text(), old(self).pos()) {
                Ok((kind, end)) => r == Ok::<ConditionalKind, Diagnostic>(kind) && final(self).pos() == end,
                Err(d) => r == Err::<ConditionalKind, Diagnostic>(d),
            },
    {
        proof {
            lemma_token_at(self.text(), self.pos());
        }
        let token = self.advance_token();
        proof {
            lemma_token_at(self.text(), self.pos());
        }
        match token.kind {
            TokenKind::Eq => {
                self.expect(TokenKind::Eq, "Eq")?;
                Ok(ConditionalKind::Eq)
            },
            TokenKind::Bang => {
                self.expect(TokenKind::Eq, "Eq")?;
                Ok(ConditionalKind::NotEq)
            },
            TokenKind::Greater => {
                let next = self.peek_token();
                if matches!(next.kind, TokenKind::Eq) {
                    self.advance_token();
                    Ok(ConditionalKind::GreaterEq)
                } else {
                    Ok(ConditionalKind::Greater)
                }
            },
            TokenKind::Less => {
                let next = self.peek_token();
                if matches!(next.kind, TokenKind::Eq) {
                    self.advance_token();
                    Ok(ConditionalKind::LessEq)
                } else {
                    Ok(ConditionalKind::Less)
                }
            },
            _ => Err(unexpected_token_error(token, "Eq | Bang | Greater | Less")),
        }
    }

    /// `[ operand comparison operand ]`.
    pub fn parse_conditional(&mut self) -> (r: Result<Conditional, Diagnostic>)
        requires
            old(self).wf(),
        ensures
            final(self).reads_only(old(self)),
            match conditional_at(old(self).text(), old(self).pos()) {
                Ok((v, e)) => r is Ok && conditional_view(r->Ok_0) == v && final(self).pos() == e,
                Err(d) => r == Err::<Conditional, Diagnostic>(d),
            },
            r matches Err(d) ==> d.level == DiagLevel::Fatal,
    {
        self.expect(TokenKind::OpenBracket, "OpenBracket")?;
        let left = self.parse_either()?;
        let kind = self.parse_comparison()?;
        let right = self.parse_either()?;
        self.expect(TokenKind::CloseBracket, "CloseBracket")?;
        Ok(Conditional { left, kind, right })
    }

    /// An immediate: `( chain )`, `! immediate`, `label:0`, `label:1`, a number or a character.
    pub fn parse_immediate(&mut self) -> (r: Result<Immediate, Diagnostic>)
        requires
            old(self).wf(),
        ensures
            final(self).reads_only(old(self)),
            match imm_at(old(self).text(), old(self).pos()) {
                Ok((v, e)) => r is Ok && imm_view(r->Ok_0) == v && final(self).pos() == e,
                Err(d) => r == Err::<Immediate, Diagnostic>(d),
            },
            r is Ok ==> old(self).pos() < final(self).pos(),
            r matches Err(d) ==> d.level == DiagLevel::Fatal,
        decreases old(self).text().len() - old(self).pos(), 1int,
    {
        proof {
            lemma_token_at(self.text(), self.pos());
        }
        let token = self.advance_token();
        match token.kind {
            TokenKind::OpenParen => {
                let first = self.parse_immediate()?;
                let chain = self.parse_chain(first)?;
                proof {
                    lemma_token_at(self.text(), self.pos());
                }
                self.expect(TokenKind::CloseParen, "CloseParen")?;
                Ok(chain)
            },
            TokenKind::Bang => {
                let inner = self.parse_immediate()?;
                Ok(Immediate::Not(Box::new(inner)))
            },
            TokenKind::Identifier => self.parse_label(token),
            TokenKind::Numeric { base, prefix_len } => self.parse_numeric(token.span, base, prefix_len),
            TokenKind::Character { terminated } => self.parse_character(token.span, terminated),
            _ => Err(unexpected_token_error(token, "OpenParen | Bang | Numeric | Label | Character")),
        }
    }

    /// Operators and operands after the first operand inside parentheses, combined
    /// from the left onto `acc`.
    fn parse_chain(&mut self, acc: Immediate) -> (r: Result<Immediate, Diagnostic>)
        requires
            old(self).wf(),
        ensures
            final(self).reads_only(old(self)),
            match chain_at(old(self).text(), old(self).pos(), imm_view(acc)) {
                Ok((v, e)) => r is Ok && imm_view(r->Ok_0) == v && final(self).pos() == e,
                Err(d) => r == Err::<Immediate, Diagnostic>(d),
            },
            r matches Err(d) ==> d.level == DiagLevel::Fatal,
        decreases old(self).text().len() - old(self).pos(), 0int,
    {
        proof {
            lemma_token_at(self.text(), self.pos());
            lemma_token_at(self.text(), self.next_token().2);
        }
        let op = self.peek_token();
        let second = self.cursor.peek_second();
        let code: u8 = match op.kind {
            TokenKind::Ampersand => 0,
            TokenKind::Or => 1,
            TokenKind::Plus => 2,
            TokenKind::Minus => 3,
            TokenKind::Star => 4,
            TokenKind::Slash => 5,
            TokenKind::Less => if matches!(second.kind, TokenKind::Less) { 6 } else { 8 },
            TokenKind::Greater => if matches!(second.kind, TokenKind::Greater) { 7 } else { 8 },
            _ => 8,
        };
        assert(code == operator_code(op.kind, second.kind));
        if code == 8 {
            return Ok(acc);
        }
        self.advance_token();
        if code >= 6 {
            proof {
                lemma_token_at(self.text(), self.pos());
            }
            self.advance_token();
        }
        let next = self.parse_immediate()?;
        let ghost before = imm_view(acc);
        let left = Box::new(acc);
        let right = Box::new(next);
        let combined = if code == 0 {
            Immediate::And(left, right)
        } else if code == 1 {
            Immediate::Or(left, right)
        } else if code == 2 {
            Immediate::Add(left, right)
        } else if code == 3 {
            Immediate::Sub(left, right)
        } else if code == 4 {
            Immediate::Mul(left, right)
        } else if code == 5 {
            Immediate::Div(left, right)
        } else if code == 6 {
            Immediate::Rol(left, right)
        } else {
            Immediate::Ror(left, right)
        };
        assert(imm_view(combined) == combine(code, before, imm_view(next)));
        self.parse_chain(combined)
    }

    /// The digits of a numeric token as a constant.
    fn parse_numeric(&self, span: Span, base: Base, prefix_len: usize) -> (r: Result<Immediate, Diagnostic>)
        requires
            self.wf(),
            span.start <= span.end <= self.text().len(),
        ensures
            match numeric_at(self.text(), (TokenKind::Numeric { base, prefix_len }, span.start as int, span.end as int), base, prefix_len) {
                Ok(v) => r is Ok && imm_view(r->Ok_0) == v,
                Err(d) => r == Err::<Immediate, Diagnostic>(d),
            },
            r matches Err(d) ==> d.level == DiagLevel::Fatal,
    {
        let radix: u32 = match base {
            Base::Binary => 2,
            Base::Decimal => 10,
            Base::Hex => 16,
        };
        if prefix_len > span.end - span.start {
            return Err(Diagnostic::fatal(span, DiagKind::ParseImmediate(IntError::Empty)));
        }
        match u6_from_str_radix(self.cursor.chars(), span.start + prefix_len, span.end, radix) {
            Ok(v) => Ok(Immediate::Constant(v)),
            Err(e) => Err(Diagnostic::fatal(span, DiagKind::ParseImmediate(e))),
        }
    }

    /// `name:0` or `name:1` after the name `first`.
    fn parse_label(&mut self, first: Token) -> (r: Result<Immediate, Diagnostic>)
        requires
            old(self).wf(),
            first.span.start <= first.span.end == old(self).pos(),
        ensures
            final(self).reads_only(old(self)),
            match label_at(old(self).text(), token_view(first)) {
                Ok((v, e)) => r is Ok && imm_view(r->Ok_0) == v && final(self).pos() == e,
                Err(d) => r == Err::<Immediate, Diagnostic>(d),
            },
            r is Ok ==> old(self).pos() < final(self).pos(),
            r matches Err(d) ==> d.level == DiagLevel::Fatal,
    {
        proof {
            lemma_token_at(self.text(), self.pos());
        }
        self.expect(TokenKind::Colon, "Colon")?;
        proof {
            lemma_token_at(self.text(), self.pos());
        }
        let num = self.advance_token();
        let name = self.cursor.text_between(first.span.start, first.span.end);
        let span = first.span.merge(num.span);
        let is_digit = matches!(num.kind, TokenKind::Numeric { .. }) && num.span.end == num.span.start + 1;
        if is_digit && self.cursor.char_at(num.span.start) == '0' {
            Ok(Immediate::LabelHi(name, span))
        } else if is_digit && self.cursor.char_at(num.span.start) == '1' {
            Ok(Immediate::LabelLo(name, span))
        } else {
            Err(unexpected_token_error(num, "Numeric(Decimal(`0` | `1`))"))
        }
    }

    /// A character literal as the constant of its code.
    pub fn parse_character(&self, span: Span, terminated: bool) -> (r: Result<Immediate, Diagnostic>)
        requires
            self.wf(),
            span.start <= span.end <= self.text().len(),
        ensures
            match character_at(self.text(), (TokenKind::Character { terminated }, span.start as int, span.end as int), terminated) {
                Ok(v) => r is Ok && imm_view(r->Ok_0) == v,
                Err(d) => r == Err::<Immediate, Diagnostic>(d),
            },
            r matches Err(d) ==> d.level == DiagLevel::Fatal,
    {
        if !terminated || span.end - span.start < 2 {
            return Err(Diagnostic::fatal(span, DiagKind::IncompleteCharacter));
        }
        let character = self.cursor.char_at(span.start + 1);
        match encode_character(character) {
            Some(v) => Ok(Immediate::Constant(v)),
            None => Err(Diagnostic::fatal(span, DiagKind::UnsupportedCharacter(character))),
        }
    }

    /// The end of a line: a newline or the end of the text, after an optional comment.
    pub fn parse_end_of_line(&mut self, allow_trailing_comment: bool) -> (r: Result<(), Diagnostic>)
        requires
            old(self).wf(),
        ensures
            final(self).reads_only(old(self)),
            old(self).pos() < old(self).text().len() ==> old(self).pos() < final(self).pos(),
            r == end_of_line(old(self).text(), old(self).pos(), allow_trailing_comment),
            (old(self).next_token().0 == TokenKind::NewLine || old(self).next_token().0 == TokenKind::Eof) ==> r is Ok,
            old(self).next_token().0 == TokenKind::LineComment && allow_trailing_comment ==> ({
                let after = token_at(old(self).text(), old(self).next_token().2);
                if after.0 == TokenKind::NewLine || after.0 == TokenKind::Eof {
                    r is Ok
                } else {
                    r matches Err(d) && rejects(d, after)
                }
            }),
            old(self).next_token().0 == TokenKind::LineComment && !allow_trailing_comment
                ==> (r matches Err(d) && rejects(d, old(self).next_token())),
            old(self).next_token().0 != TokenKind::LineComment && old(self).next_token().0 != TokenKind::NewLine
                && old(self).next_token().0 != TokenKind::Eof ==> (r matches Err(d) && rejects(d, old(self).next_token())),
            r matches Err(d) ==> d.level == DiagLevel::Fatal,
        decreases (if allow_trailing_comment { 1int } else { 0int }),
    {
        proof {
            lemma_token_at(self.text(), self.pos());
        }
        let token = self.advance_token();
        match token.kind {
            TokenKind::NewLine | TokenKind::Eof => Ok(()),
            TokenKind::LineComment => {
                if allow_trailing_comment {
                    self.parse_end_of_line(false)
                } else {
                    Err(unexpected_token_error(token, "NewLine | Eof"))
                }
            },
            _ => Err(unexpected_token_error(
                token,
                if allow_trailing_comment { "NewLine | Eof | Comment" } else { "NewLine | Eof" },
            )),
        }
    }
}

} // verus!
