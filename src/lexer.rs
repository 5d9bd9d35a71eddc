//! The lexer: a cursor over the characters of the source that hands out tokens.
use vstd::prelude::*;
use crate::span::Span;
use crate::tokens::{Base, Keyword, Register, Token, TokenKind};

verus! {

/// What `first` reports once the text is used up.
pub const EOF_CHAR: char = '\0';

/// Whether `char::is_alphabetic` holds of the character.
pub uninterp spec fn alphabetic(c: char) -> bool;

/// Whether `char::is_alphanumeric` holds of the character.
pub uninterp spec fn alphanumeric(c: char) -> bool;

/// Whether `char::is_whitespace` holds of the character.
pub uninterp spec fn whitespace(c: char) -> bool;

/// Relies on `char::is_alphabetic`: Unicode's Alphabetic property, which among ASCII
/// characters holds of the letters only.
#[verifier::external_body]
fn char_is_alphabetic(c: char) -> (r: bool)
    ensures
        r == alphabetic(c),
        (c as u32) < 128 ==> (r <==> ('a' <= c && c <= 'z') || ('A' <= c && c <= 'Z')),
{
    c.is_alphabetic()
}

/// Relies on `char::is_alphanumeric`: Unicode's Alphabetic or Numeric property, which
/// among ASCII characters holds of the letters and digits only.
#[verifier::external_body]
fn char_is_alphanumeric(c: char) -> (r: bool)
    ensures
        r == alphanumeric(c),
        (c as u32) < 128 ==> (r <==> ('a' <= c && c <= 'z') || ('A' <= c && c <= 'Z') || ('0' <= c && c <= '9')),
{
    c.is_alphanumeric()
}

/// Relies on `char::is_whitespace`: Unicode's White_Space property, which among ASCII
/// characters holds of the space and of U+0009 to U+000D only.
#[verifier::external_body]
fn char_is_whitespace(c: char) -> (r: bool)
    ensures
        r == whitespace(c),
        (c as u32) < 128 ==> (r <==> c == ' ' || ('\t' <= c && c <= '\r')),
{
    c.is_whitespace()
}

/// Relies on `str::chars`, collected into a vector: the characters of the text in order.
#[verifier::external_body]
pub(crate) fn chars_of(s: &str) -> (r: Vec<char>)
    ensures
        r@ == s@,
{
    s.chars().collect()
}

/// Relies on `String`'s `FromIterator<&char>`: a string of exactly the characters of `[start, end)`.
#[verifier::external_body]
pub(crate) fn string_between(cs: &Vec<char>, start: usize, end: usize) -> (r: String)
    requires
        start <= end <= cs@.len(),
    ensures
        r@ == cs@.subrange(start as int, end as int),
{
    cs[start..end].iter().collect()
}

/// The characters from `from` on, as a string.
pub(crate) fn string_from(cs: &Vec<char>, from: usize) -> (r: String)
    requires
        from <= cs@.len(),
    ensures
        r@ == cs@.subrange(from as int, cs@.len() as int),
{
    string_between(cs, from, cs.len())
}

pub open spec fn ident_start(c: char) -> bool {
    alphabetic(c) || c == '_'
}

pub open spec fn ident_char(c: char) -> bool {
    alphanumeric(c) || c == '_'
}

/// Whether `c` is a digit of base `radix` (2, 16, and otherwise 10).
pub open spec fn digit_of(c: char, radix: u32) -> bool {
    if radix == 2 {
        c == '0' || c == '1'
    } else if radix == 16 {
        ('0' <= c && c <= '9') || ('a' <= c && c <= 'f') || ('A' <= c && c <= 'F')
    } else {
        '0' <= c && c <= '9'
    }
}

/// The kinds of character runs that make up the body of a token.
#[derive(Clone, Copy, Debug, PartialEq, Eq, Structural)]
pub enum Run {
    Ident,
    Digits(u32),
    Comment,
}

pub open spec fn in_run(c: char, run: Run) -> bool {
    match run {
        Run::Ident => ident_char(c),
        Run::Digits(radix) => digit_of(c, radix) || c == '_',
        Run::Comment => c != '\n',
    }
}

/// First position at or after `i` whose character does not belong to the run.
pub open spec fn run_end(s: Seq<char>, i: int, run: Run) -> int
    decreases s.len() - i,
{
    if 0 <= i < s.len() && in_run(s[i], run) {
        run_end(s, i + 1, run)
    } else {
        i
    }
}

/// First position at or after `i` that is not whitespace other than a newline.
pub open spec fn skip_blank(s: Seq<char>, i: int) -> int
    decreases s.len() - i,
{
    if 0 <= i < s.len() && whitespace(s[i]) && s[i] != '\n' {
        skip_blank(s, i + 1)
    } else {
        i
    }
}

pub open spec fn keyword_of(w: Seq<char>) -> Option<Keyword> {
    if w == seq!['N', 'O', 'T'] {
        Some(Keyword::Not)
    } else if w == seq!['A', 'N', 'D'] {
        Some(Keyword::And)
    } else if w == seq!['N', 'A', 'N', 'D'] {
        Some(Keyword::Nand)
    } else if w == seq!['O', 'R'] {
        Some(Keyword::Or)
    } else if w == seq!['N', 'O', 'R'] {
        Some(Keyword::Nor)
    } else if w == seq!['X', 'O', 'R'] {
        Some(Keyword::Xor)
    } else if w == seq!['N', 'X', 'O', 'R'] {
        Some(Keyword::Nxor)
    } else if w == seq!['R', 'O', 'L'] {
        Some(Keyword::Rol)
    } else if w == seq!['R', 'O', 'R'] {
        Some(Keyword::Ror)
    } else if w == seq!['S', 'H', 'L'] {
        Some(Keyword::Shl)
    } else if w == seq!['S', 'H', 'R'] {
        Some(Keyword::Shr)
    } else if w == seq!['A', 'D', 'D'] {
        Some(Keyword::Add)
    } else if w == seq!['S', 'U', 'B'] {
        Some(Keyword::Sub)
    } else if w == seq!['S', 'E', 'T'] {
        Some(Keyword::SetWord)
    } else if w == seq!['M', 'O', 'V'] {
        Some(Keyword::Mov)
    } else if w == seq!['L', 'O', 'D'] {
        Some(Keyword::Lod)
    } else if w == seq!['S', 'T', 'O'] {
        Some(Keyword::Sto)
    } else if w == seq!['P', 'C'] {
        Some(Keyword::Pc)
    } else if w == seq!['L', 'A', 'B'] {
        Some(Keyword::Lab)
    } else if w == seq!['L', 'I', 'H'] {
        Some(Keyword::Lih)
    } else if w == seq!['N', 'O', 'P'] {
        Some(Keyword::Nop)
    } else if w == seq!['H', 'L', 'T'] {
        Some(Keyword::Hlt)
    } else {
        None
    }
}

/// The kind of a scanned word: a register, a keyword or an identifier.
pub open spec fn word_kind(w: Seq<char>) -> TokenKind {
    if w == seq!['A'] {
        TokenKind::Register(Register::A)
    } else if w == seq!['B'] {
        TokenKind::Register(Register::B)
    } else if w == seq!['C'] {
        TokenKind::Register(Register::C)
    } else {
        match keyword_of(w) {
            Some(k) => TokenKind::Keyword(k),
            None => TokenKind::Identifier,
        }
    }
}

/// The kind of a token made of one punctuation character.
pub open spec fn punct_kind(c: char) -> TokenKind {
    if c == '\n' {
        TokenKind::NewLine
    } else if c == ':' {
        TokenKind::Colon
    } else if c == '=' {
        TokenKind::Eq
    } else if c == '|' {
        TokenKind::Or
    } else if c == '!' {
        TokenKind::Bang
    } else if c == '>' {
        TokenKind::Greater
    } else if c == '<' {
        TokenKind::Less
    } else if c == '(' {
        TokenKind::OpenParen
    } else if c == ')' {
        TokenKind::CloseParen
    } else if c == '[' {
        TokenKind::OpenBracket
    } else if c == ']' {
        TokenKind::CloseBracket
    } else if c == '&' {
        TokenKind::Ampersand
    } else if c == '+' {
        TokenKind::Plus
    } else if c == '-' {
        TokenKind::Minus
    } else if c == '*' {
        TokenKind::Star
    } else if c == '/' {
        TokenKind::Slash
    } else {
        TokenKind::Unknown
    }
}

/// The token that starts at or after position `i`: its kind, start and end.
pub open spec fn token_at(s: Seq<char>, i: int) -> (TokenKind, int, int) {
    let st = skip_blank(s, i);
    if st >= s.len() {
        (TokenKind::Eof, st, st)
    } else {
        let c = s[st];
        if c == '#' {
            (TokenKind::LineComment, st, run_end(s, st + 1, Run::Comment))
        } else if ident_start(c) {
            let e = run_end(s, st + 1, Run::Ident);
            (word_kind(s.subrange(st, e)), st, e)
        } else if '0' <= c && c <= '9' {
            if c == '0' && st + 1 < s.len() && (s[st + 1] == 'b' || s[st + 1] == 'B') {
                (TokenKind::Numeric { base: Base::Binary, prefix_len: 2 }, st, run_end(s, st + 2, Run::Digits(2)))
            } else if c == '0' && st + 1 < s.len() && (s[st + 1] == 'x' || s[st + 1] == 'X') {
                (TokenKind::Numeric { base: Base::Hex, prefix_len: 2 }, st, run_end(s, st + 2, Run::Digits(16)))
            } else {
                (TokenKind::Numeric { base: Base::Decimal, prefix_len: 0 }, st, run_end(s, st + 1, Run::Digits(10)))
            }
        } else if c == '\'' {
            let p = if st + 1 < s.len() { st + 2 } else { st + 1 };
            if p < s.len() && s[p] == '\'' {
                (TokenKind::Character { terminated: true }, st, p + 1)
            } else {
                (TokenKind::Character { terminated: false }, st, p)
            }
        } else {
            (punct_kind(c), st, st + 1)
        }
    }
}

/// The tokens from position `i` to the end of the text, the end marker left out.
pub open spec fn tokens_from(s: Seq<char>, i: int) -> Seq<(TokenKind, int, int)>
    decreases s.len() - i,
{
    let t = token_at(s, i);
    if t.0 == TokenKind::Eof || t.2 <= i || s.len() < t.2 {
        Seq::empty()
    } else {
        seq![t] + tokens_from(s, t.2)
    }
}

pub open spec fn token_view(t: Token) -> (TokenKind, int, int) {
    (t.kind, t.span.start as int, t.span.end as int)
}

pub open spec fn token_views(ts: Seq<Token>) -> Seq<(TokenKind, int, int)> {
    ts.map_values(|t: Token| token_view(t))
}

pub proof fn lemma_run_end(s: Seq<char>, i: int, run: Run)
    requires
        0 <= i <= s.len(),
    ensures
        i <= run_end(s, i, run) <= s.len(),
        forall|k: int| i <= k < run_end(s, i, run) ==> in_run(#[trigger] s[k], run),
        run_end(s, i, run) < s.len() ==> !in_run(s[run_end(s, i, run)], run),
    decreases s.len() - i,
{
    if i < s.len() && in_run(s[i], run) {
        lemma_run_end(s, i + 1, run);
    }
}

pub proof fn lemma_skip_blank(s: Seq<char>, i: int)
    requires
        0 <= i <= s.len(),
    ensures
        i <= skip_blank(s, i) <= s.len(),
    decreases s.len() - i,
{
    if i < s.len() && whitespace(s[i]) && s[i] != '\n' {
        lemma_skip_blank(s, i + 1);
    }
}

/// An identifier does not start with `#`, which begins a comment.
pub proof fn lemma_identifier_start(s: Seq<char>, i: int)
    requires
        0 <= i <= s.len(),
        token_at(s, i).0 == TokenKind::Identifier,
    ensures
        token_at(s, i).1 < token_at(s, i).2 <= s.len(),
        s[token_at(s, i).1] != '#',
{
    lemma_token_at(s, i);
    let st = skip_blank(s, i);
    if st < s.len() && s[st] != '#' && !ident_start(s[st]) {
        assert(punct_kind(s[st]) != TokenKind::Identifier);
    }
}

/// Every token but the end marker covers at least one character and stays within the text.
pub proof fn lemma_token_at(s: Seq<char>, i: int)
    requires
        0 <= i <= s.len(),
    ensures
        i <= token_at(s, i).1 <= token_at(s, i).2 <= s.len(),
        token_at(s, i).0 != TokenKind::Eof ==> token_at(s, i).1 < token_at(s, i).2,
        token_at(s, i).0 == TokenKind::Eof ==> token_at(s, i).2 == s.len(),
{
    lemma_skip_blank(s, i);
    let st = skip_blank(s, i);
    if st < s.len() {
        lemma_run_end(s, st + 1, Run::Ident);
        lemma_run_end(s, st + 1, Run::Digits(10));
        lemma_run_end(s, st + 1, Run::Comment);
        if st + 2 <= s.len() {
            lemma_run_end(s, st + 2, Run::Digits(2));
            lemma_run_end(s, st + 2, Run::Digits(16));
        }
    }
}

fn word_is(chars: &Vec<char>, start: usize, end: usize, w: &[char]) -> (r: bool)
    requires
        start <= end <= chars@.len(),
    ensures
        r == (chars@.subrange(start as int, end as int) == w@),
{
    if end - start != w.len() {
        return false;
    }
    let mut k: usize = 0;
    while k < w.len()
        invariant
            k <= w@.len(),
            end - start == w@.len(),
            start <= end <= chars@.len(),
            forall|j: int| 0 <= j < k ==> chars@[start + j] == w@[j],
        decreases w@.len() - k,
    {
        if chars[start + k] != w[k] {
            assert(chars@.subrange(start as int, end as int)[k as int] != w@[k as int]);
            return false;
        }
        k = k + 1;
    }
    assert(chars@.subrange(start as int, end as int) =~= w@);
    true
}

fn is_digit_of(c: char, radix: u32) -> (r: bool)
    ensures
        r == digit_of(c, radix),
{
    if radix == 2 {
        c == '0' || c == '1'
    } else if radix == 16 {
        ('0' <= c && c <= '9') || ('a' <= c && c <= 'f') || ('A' <= c && c <= 'F')
    } else {
        '0' <= c && c <= '9'
    }
}

fn is_in_run(c: char, run: Run) -> (r: bool)
    ensures
        r == in_run(c, run),
{
    match run {
        Run::Ident => char_is_alphanumeric(c) || c == '_',
        Run::Digits(radix) => is_digit_of(c, radix) || c == '_',
        Run::Comment => c != '\n',
    }
}

/// Whether the character may continue an identifier.
pub fn is_ident(c: char) -> (r: bool)
    ensures
        r == ident_char(c),
{
    char_is_alphanumeric(c) || c == '_'
}

/// The kind of one punctuation character.
fn punctuation(c: char) -> (r: TokenKind)
    ensures
        r == punct_kind(c),
{
    match c {
        '\n' => TokenKind::NewLine,
        ':' => TokenKind::Colon,
        '=' => TokenKind::Eq,
        '|' => TokenKind::Or,
        '!' => TokenKind::Bang,
        '>' => TokenKind::Greater,
        '<' => TokenKind::Less,
        '(' => TokenKind::OpenParen,
        ')' => TokenKind::CloseParen,
        '[' => TokenKind::OpenBracket,
        ']' => TokenKind::CloseBracket,
        '&' => TokenKind::Ampersand,
        '+' => TokenKind::Plus,
        '-' => TokenKind::Minus,
        '*' => TokenKind::Star,
        '/' => TokenKind::Slash,
        _ => TokenKind::Unknown,
    }
}

/// All the tokens of a text; the end marker is not included.
pub fn tokenize(input: &str) -> (r: Vec<Token>)
    ensures
        token_views(r@) == tokens_from(input@, 0),
{
    Cursor::new(input).tokenize()
}

/// A position in a source text, with the start of the token being scanned.
#[derive(Clone, Debug)]
pub struct Cursor {
    chars: Vec<char>,
    position: usize,
    progress: usize,
}

impl Cursor {
    /// The whole text.
    pub closed spec fn text(&self) -> Seq<char> {
        self.chars@
    }

    /// How many characters have been consumed.
    pub closed spec fn pos(&self) -> int {
        self.position as int
    }

    /// Where the token being scanned starts.
    pub closed spec fn start(&self) -> int {
        self.progress as int
    }

    pub open spec fn wf(&self) -> bool {
        0 <= self.start() <= self.pos() <= self.text().len()
    }

    pub fn new(source: &str) -> (r: Cursor)
        ensures
            r.wf(),
            r.text() == source@,
            r.pos() == 0,
            r.start() == 0,
    {
        Cursor { chars: chars_of(source), position: 0, progress: 0 }
    }

    /// All the tokens from the current position on; the end marker is not included.
    pub fn tokenize(self) -> (r: Vec<Token>)
        requires
            self.wf(),
        ensures
            token_views(r@) == tokens_from(self.text(), self.pos()),
    {
        let ghost s = self.text();
        let ghost first_pos = self.pos();
        let mut cursor = self;
        let mut out: Vec<Token> = Vec::new();
        loop
            invariant
                cursor.wf(),
                cursor.text() == s,
                s == self.text(),
                first_pos == self.pos(),
                token_views(out@) + tokens_from(s, cursor.pos())
                    == tokens_from(s, first_pos),
            decreases s.len() - cursor.pos(),
        {
            let ghost before = cursor.pos();
            let token = cursor.advance_token();
            proof {
                lemma_token_at(s, before);
            }
            if matches!(token.kind, TokenKind::Eof) {
                assert(tokens_from(s, before) == Seq::<(TokenKind, int, int)>::empty());
                assert(token_views(out@) + Seq::<(TokenKind, int, int)>::empty()
                    =~= token_views(out@));
                assert(token_views(out@) == tokens_from(s, first_pos));

                return out;
            }
            let ghost old_out = out@;
            out.push(token);
            proof {
                assert(tokens_from(s, before) == seq![token_view(token)] + tokens_from(s, cursor.pos()));
                assert(token_views(out@)
                    =~= token_views(old_out) + seq![token_view(token)]);
                assert(token_views(out@) + tokens_from(s, cursor.pos())
                    =~= token_views(old_out) + tokens_from(s, before));
            }
        }
    }

    /// The text that is left.
    pub fn as_str(&self) -> (r: String)
        requires
            self.wf(),
        ensures
            r@ == self.text().subrange(self.pos(), self.text().len() as int),
    {
        string_from(&self.chars, self.position)
    }

    pub fn is_eof(&self) -> (r: bool)
        requires
            self.wf(),
        ensures
            r == (self.pos() == self.text().len()),
    {
        self.position == self.chars.len()
    }

    /// The span from the start of the current token to the current position.
    pub fn token_span(&self) -> (r: Span)
        ensures
            r.start == self.start(),
            r.end == self.pos(),
    {
        Span::new(self.progress, self.position)
    }

    /// Length of the current token so far.
    pub fn token_len(&self) -> (r: usize)
        requires
            self.wf(),
        ensures
            r == self.pos() - self.start(),
    {
        self.position - self.progress
    }

    /// Starts a new token at the current position.
    pub fn set_progress(&mut self)
        ensures
            final(self).text() == old(self).text(),
            final(self).pos() == old(self).pos(),
            final(self).start() == old(self).pos(),
    {
        self.progress = self.position;
    }

    /// Starts a new token at the current position.
    pub fn set_remaining(&mut self)
        ensures
            final(self).text() == old(self).text(),
            final(self).pos() == old(self).pos(),
            final(self).start() == old(self).pos(),
    {
        self.set_progress();
    }

    /// The next character, or `EOF_CHAR` at the end.
    pub fn first(&self) -> (r: char)
        requires
            self.wf(),
        ensures
            r == (if self.pos() < self.text().len() { self.text()[self.pos()] } else { EOF_CHAR }),
    {
        if self.position < self.chars.len() {
            self.chars[self.position]
        } else {
            EOF_CHAR
        }
    }

    /// Consumes one character.
    pub fn bump(&mut self) -> (r: Option<char>)
        requires
            old(self).wf(),
        ensures
            final(self).wf(),
            final(self).text() == old(self).text(),
            final(self).start() == old(self).start(),
            old(self).pos() < old(self).text().len() ==> r == Some(old(self).text()[old(self).pos()])
                && final(self).pos() == old(self).pos() + 1,
            old(self).pos() == old(self).text().len() ==> r is None && final(self).pos() == old(self).pos(),
    {
        if self.position < self.chars.len() {
            let c = self.chars[self.position];
            self.position = self.position + 1;
            Some(c)
        } else {
            None
        }
    }

    /// Consumes characters as long as the predicate holds of them.
    pub fn bump_while<F: Fn(char) -> bool>(&mut self, predicate: F)
        requires
            old(self).wf(),
            forall|c: char| predicate.requires((c,)),
        ensures
            final(self).wf(),
            final(self).text() == old(self).text(),
            final(self).start() == old(self).start(),
            old(self).pos() <= final(self).pos(),
            forall|k: int| old(self).pos() <= k < final(self).pos()
                ==> predicate.ensures((old(self).text()[k],), true),
            final(self).pos() < final(self).text().len()
                ==> predicate.ensures((final(self).text()[final(self).pos()],), false),
    {
        let ghost first_pos = self.pos();
        while self.position < self.chars.len()
            invariant
                self.wf(),
                self.text() == old(self).text(),
                self.start() == old(self).start(),
                first_pos == old(self).pos(),
                first_pos <= self.pos(),
                forall|c: char| predicate.requires((c,)),
                forall|k: int| first_pos <= k < self.pos() ==> predicate.ensures((self.text()[k],), true),
            decreases self.text().len() - self.pos(),
        {
            let c = self.chars[self.position];
            if !predicate(c) {
                return;
            }
            self.position = self.position + 1;
        }
    }

    /// Consumes the longest run of characters of the given kind.
    fn consume_run(&mut self, run: Run)
        requires
            old(self).wf(),
        ensures
            final(self).wf(),
            final(self).text() == old(self).text(),
            final(self).start() == old(self).start(),
            final(self).pos() == run_end(old(self).text(), old(self).pos(), run),
    {
        let ghost s = self.text();
        while self.position < self.chars.len() && is_in_run(self.chars[self.position], run)
            invariant
                self.wf(),
                self.text() == s,
                self.start() == old(self).start(),
                run_end(s, self.pos(), run) == run_end(s, old(self).pos(), run),
            decreases self.text().len() - self.pos(),
        {
            self.position = self.position + 1;
        }
    }

    /// Skips whitespace other than newlines.
    fn skip_blank(&mut self)
        requires
            old(self).wf(),
        ensures
            final(self).text() == old(self).text(),
            final(self).pos() == skip_blank(old(self).text(), old(self).pos()),
            final(self).pos() <= final(self).text().len(),
            old(self).pos() <= final(self).pos(),
    {
        let ghost s = self.text();
        proof {
            lemma_skip_blank(s, self.pos());
        }
        while self.position < self.chars.len() && char_is_whitespace(self.chars[self.position])
            && self.chars[self.position] != '\n'
            invariant
                self.text() == s,
                old(self).pos() <= self.pos() <= s.len(),
                skip_blank(s, self.pos()) == skip_blank(s, old(self).pos()),
            decreases s.len() - self.pos(),
        {
            self.position = self.position + 1;
        }
    }

    fn keyword_between(&self, start: usize, end: usize) -> (r: Option<Keyword>)
        requires
            start <= end <= self.text().len(),
        ensures
            r == keyword_of(self.text().subrange(start as int, end as int)),
    {
        if word_is(&self.chars, start, end, &['N', 'O', 'T']) {
            Some(Keyword::Not)
        } else if word_is(&self.chars, start, end, &['A', 'N', 'D']) {
            Some(Keyword::And)
        } else if word_is(&self.chars, start, end, &['N', 'A', 'N', 'D']) {
            Some(Keyword::Nand)
        } else if word_is(&self.chars, start, end, &['O', 'R']) {
            Some(Keyword::Or)
        } else if word_is(&self.chars, start, end, &['N', 'O', 'R']) {
            Some(Keyword::Nor)
        } else if word_is(&self.chars, start, end, &['X', 'O', 'R']) {
            Some(Keyword::Xor)
        } else if word_is(&self.chars, start, end, &['N', 'X', 'O', 'R']) {
            Some(Keyword::Nxor)
        } else if word_is(&self.chars, start, end, &['R', 'O', 'L']) {
            Some(Keyword::Rol)
        } else if word_is(&self.chars, start, end, &['R', 'O', 'R']) {
            Some(Keyword::Ror)
        } else if word_is(&self.chars, start, end, &['S', 'H', 'L']) {
            Some(Keyword::Shl)
        } else if word_is(&self.chars, start, end, &['S', 'H', 'R']) {
            Some(Keyword::Shr)
        } else if word_is(&self.chars, start, end, &['A', 'D', 'D']) {
            Some(Keyword::Add)
        } else if word_is(&self.chars, start, end, &['S', 'U', 'B']) {
            Some(Keyword::Sub)
        } else if word_is(&self.chars, start, end, &['S', 'E', 'T']) {
            Some(Keyword::SetWord)
        } else if word_is(&self.chars, start, end, &['M', 'O', 'V']) {
            Some(Keyword::Mov)
        } else if word_is(&self.chars, start, end, &['L', 'O', 'D']) {
            Some(Keyword::Lod)
        } else if word_is(&self.chars, start, end, &['S', 'T', 'O']) {
            Some(Keyword::Sto)
        } else if word_is(&self.chars, start, end, &['P', 'C']) {
            Some(Keyword::Pc)
        } else if word_is(&self.chars, start, end, &['L', 'A', 'B']) {
            Some(Keyword::Lab)
        } else if word_is(&self.chars, start, end, &['L', 'I', 'H']) {
            Some(Keyword::Lih)
        } else if word_is(&self.chars, start, end, &['N', 'O', 'P']) {
            Some(Keyword::Nop)
        } else if word_is(&self.chars, start, end, &['H', 'L', 'T']) {
            Some(Keyword::Hlt)
        } else {
            None
        }
    }

    fn single_is(&self, start: usize, end: usize, c: char) -> (r: bool)
        requires
            start <= end <= self.text().len(),
        ensures
            r == (self.text().subrange(start as int, end as int) == seq![c]),
    {
        if end - start == 1 && self.chars[start] == c {
            assert(self.text().subrange(start as int, end as int) =~= seq![c]);
            true
        } else {
            assert(end - start != 1 ==> self.text().subrange(start as int, end as int).len() != seq![c].len());
            assert(end - start == 1 ==> self.text().subrange(start as int, end as int)[0] != seq![c][0]);
            false
        }
    }

    fn word_between(&self, start: usize, end: usize) -> (r: TokenKind)
        requires
            start <= end <= self.text().len(),
        ensures
            r == word_kind(self.text().subrange(start as int, end as int)),
    {
        if self.single_is(start, end, 'A') {
            TokenKind::Register(Register::A)
        } else if self.single_is(start, end, 'B') {
            TokenKind::Register(Register::B)
        } else if self.single_is(start, end, 'C') {
            TokenKind::Register(Register::C)
        } else {
            match self.keyword_between(start, end) {
                Some(k) => TokenKind::Keyword(k),
                None => TokenKind::Identifier,
            }
        }
    }

    /// The next token, left unconsumed.
    pub fn peek_token(&mut self) -> (r: Token)
        requires
            old(self).wf(),
        ensures
            final(self).text() == old(self).text(),
            final(self).pos() == old(self).pos(),
            final(self).start() == old(self).start(),
            token_view(r) == token_at(old(self).text(), old(self).pos()),
    {
        let position = self.position;
        let progress = self.progress;
        let t = self.advance_token();
        self.position = position;
        self.progress = progress;
        t
    }

    /// The token after the next one, both left unconsumed.
    pub fn peek_second(&mut self) -> (r: Token)
        requires
            old(self).wf(),
        ensures
            final(self).text() == old(self).text(),
            final(self).pos() == old(self).pos(),
            final(self).start() == old(self).start(),
            token_view(r) == token_at(old(self).text(), token_at(old(self).text(), old(self).pos()).2),
    {
        let position = self.position;
        let progress = self.progress;
        let _ = self.advance_token();
        let t = self.advance_token();
        self.position = position;
        self.progress = progress;
        t
    }

    /// The text of `[start, end)`.
    pub fn text_between(&self, start: usize, end: usize) -> (r: String)
        requires
            start <= end <= self.text().len(),
        ensures
            r@ == self.text().subrange(start as int, end as int),
    {
        string_between(&self.chars, start, end)
    }

    /// The character at a position.
    pub fn char_at(&self, i: usize) -> (r: char)
        requires
            i < self.text().len(),
        ensures
            r == self.text()[i as int],
    {
        self.chars[i]
    }

    /// The whole text as characters.
    pub fn chars(&self) -> (r: &Vec<char>)
        ensures
            r@ == self.text(),
    {
        &self.chars
    }

    /// Scans the next token; whitespace other than newlines is skipped first.
    pub fn advance_token(&mut self) -> (r: Token)
        requires
            old(self).wf(),
        ensures
            final(self).wf(),
            final(self).text() == old(self).text(),
            token_view(r) == token_at(old(self).text(), old(self).pos()),
            final(self).pos() == r.span.end,
            final(self).start() == final(self).pos(),
    {
        let ghost s = self.text();
        proof {
            lemma_token_at(s, self.pos());
        }
        self.skip_blank();
        self.set_progress();
        let st = self.position;
        if st >= self.chars.len() {
            return Token::new(Span::new(st, st), TokenKind::Eof);
        }
        let c = self.chars[st];
        self.position = st + 1;
        let kind = if c == '#' {
            self.consume_run(Run::Comment);
            TokenKind::LineComment
        } else if char_is_alphabetic(c) || c == '_' {
            self.consume_run(Run::Ident);
            let end = self.position;
            self.word_between(st, end)
        } else if '0' <= c && c <= '9' {
            if c == '0' && st + 1 < self.chars.len() && (self.chars[st + 1] == 'b' || self.chars[st + 1] == 'B') {
                self.position = st + 2;
                self.consume_run(Run::Digits(2));
                TokenKind::Numeric { base: Base::Binary, prefix_len: 2 }
            } else if c == '0' && st + 1 < self.chars.len() && (self.chars[st + 1] == 'x' || self.chars[st + 1] == 'X') {
                self.position = st + 2;
                self.consume_run(Run::Digits(16));
                TokenKind::Numeric { base: Base::Hex, prefix_len: 2 }
            } else {
                self.consume_run(Run::Digits(10));
                TokenKind::Numeric { base: Base::Decimal, prefix_len: 0 }
            }
        } else if c == '\'' {
            self.bump();
            let terminated = self.position < self.chars.len() && self.chars[self.position] == '\'';
            if terminated {
                self.bump();
            }
            TokenKind::Character { terminated }
        } else {
            punctuation(c)
        };
        let span = self.token_span();
        self.set_progress();
        Token::new(span, kind)
    }
}

} // verus!
