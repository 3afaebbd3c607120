//! The scanner: owns the input bytes and a cursor, and produces one token
//! per call to `next_token`, advancing the cursor past the consumed bytes.

use crate::token::keyword_type;
use crate::token::KeywordMatch;
use crate::token::Token;
use crate::token::TokenType;
use vstd::prelude::*;

verus! {

/// A byte that may start or continue an identifier run: an ASCII letter or
/// an underscore.
pub open spec fn is_letter_spec(ch: u8) -> bool {
    (('A' as u8) <= ch && ch <= ('Z' as u8)) || (('a' as u8) <= ch && ch <= ('z' as u8)) || ch == ('_' as u8)
}

/// Whether `ch` may start or continue an identifier run.
#[verifier::when_used_as_spec(is_letter_spec)]
pub fn is_letter(ch: u8) -> (r: bool)
    ensures
        r == is_letter_spec(ch),
{
    (('A' as u8) <= ch && ch <= ('Z' as u8)) || (('a' as u8) <= ch && ch <= ('z' as u8)) || ch == ('_' as u8)
}

/// A decimal digit byte.
pub open spec fn is_digit_spec(ch: u8) -> bool {
    ('0' as u8) <= ch && ch <= ('9' as u8)
}

/// Whether `ch` is a decimal digit byte.
#[verifier::when_used_as_spec(is_digit_spec)]
pub fn is_digit(ch: u8) -> (r: bool)
    ensures
        r == is_digit_spec(ch),
{
    ('0' as u8) <= ch && ch <= ('9' as u8)
}

/// A whitespace byte skipped between tokens: space, tab, newline or
/// carriage return.
pub open spec fn is_whitespace_spec(ch: u8) -> bool {
    ch == (' ' as u8) || ch == ('\t' as u8) || ch == ('\n' as u8) || ch == ('\r' as u8)
}

/// Whether `ch` is a whitespace byte skipped between tokens.
#[verifier::when_used_as_spec(is_whitespace_spec)]
pub fn is_whitespace(ch: u8) -> (r: bool)
    ensures
        r == is_whitespace_spec(ch),
{
    ch == (' ' as u8) || ch == ('\t' as u8) || ch == ('\n' as u8) || ch == ('\r' as u8)
}

/// The byte of `s` at `i`, or the sentinel 0 when `i` lies outside `s`.
/// A literal 0 byte in the input is thereby read as end of input.
pub open spec fn char_at(s: Seq<u8>, i: int) -> u8 {
    if 0 <= i < s.len() {
        s[i]
    } else {
        0
    }
}

/// The first position at or after `pos` that does not hold whitespace.
pub open spec fn skip_ws(s: Seq<u8>, pos: int) -> int
    decreases s.len() - pos when 0 <= pos <= s.len()
{
    if pos < s.len() && is_whitespace_spec(s[pos]) {
        skip_ws(s, pos + 1)
    } else {
        pos
    }
}

/// The end of the maximal letter run starting at `pos`: the first position
/// at or after `pos` that does not hold a letter byte.
pub open spec fn letter_run_end(s: Seq<u8>, pos: int) -> int
    decreases s.len() - pos when 0 <= pos <= s.len()
{
    if pos < s.len() && is_letter_spec(s[pos]) {
        letter_run_end(s, pos + 1)
    } else {
        pos
    }
}

/// The end of the maximal digit run starting at `pos`: the first position
/// at or after `pos` that does not hold a digit byte.
pub open spec fn digit_run_end(s: Seq<u8>, pos: int) -> int
    decreases s.len() - pos when 0 <= pos <= s.len()
{
    if pos < s.len() && is_digit_spec(s[pos]) {
        digit_run_end(s, pos + 1)
    } else {
        pos
    }
}

/// `skip_ws` stays within the input, never moves backwards, and stops on a
/// byte that is not whitespace.
pub proof fn lemma_skip_ws_bounds(s: Seq<u8>, pos: int)
    requires
        0 <= pos <= s.len(),
    ensures
        pos <= skip_ws(s, pos) <= s.len(),
        !is_whitespace_spec(char_at(s, skip_ws(s, pos))),
    decreases s.len() - pos,
{
    if pos < s.len() && is_whitespace_spec(s[pos]) {
        lemma_skip_ws_bounds(s, pos + 1);
    }
}

/// The letter run starting at `pos` stays within the input, holds letters
/// only, and ends on a byte that is not a letter.
pub proof fn lemma_letter_run_bounds(s: Seq<u8>, pos: int)
    requires
        0 <= pos <= s.len(),
    ensures
        pos <= letter_run_end(s, pos) <= s.len(),
        !is_letter_spec(char_at(s, letter_run_end(s, pos))),
        forall|i: int| pos <= i < letter_run_end(s, pos) ==> is_letter_spec(s[i]),
    decreases s.len() - pos,
{
    if pos < s.len() && is_letter_spec(s[pos]) {
        lemma_letter_run_bounds(s, pos + 1);
    }
}

/// The digit run starting at `pos` stays within the input, holds digits
/// only, and ends on a byte that is not a digit.
pub proof fn lemma_digit_run_bounds(s: Seq<u8>, pos: int)
    requires
        0 <= pos <= s.len(),
    ensures
        pos <= digit_run_end(s, pos) <= s.len(),
        !is_digit_spec(char_at(s, digit_run_end(s, pos))),
        forall|i: int| pos <= i < digit_run_end(s, pos) ==> is_digit_spec(s[i]),
    decreases s.len() - pos,
{
    if pos < s.len() && is_digit_spec(s[pos]) {
        lemma_digit_run_bounds(s, pos + 1);
    }
}

/// The token scanned from `s` at position `pos`: its category, its literal
/// bytes, and the cursor position after it. Whitespace before the token is
/// skipped; the sentinel 0 (past the end, or a literal null byte) yields the
/// end-of-input token without moving the cursor further.
pub open spec fn token_at(s: Seq<u8>, pos: int) -> (TokenType, Seq<u8>, int) {
    let p = skip_ws(s, pos);
    let c = char_at(s, p);
    if c == 0 {
        (TokenType::Eof, Seq::<u8>::empty(), p)
    } else if c == ('=' as u8) {
        if char_at(s, p + 1) == ('=' as u8) {
            (TokenType::Eq, seq![('=' as u8), ('=' as u8)], p + 2)
        } else {
            (TokenType::Assign, seq![c], p + 1)
        }
    } else if c == ('!' as u8) {
        if char_at(s, p + 1) == ('=' as u8) {
            (TokenType::NotEq, seq![('!' as u8), ('=' as u8)], p + 2)
        } else {
            (TokenType::Bang, seq![c], p + 1)
        }
    } else if c == ('+' as u8) {
        (TokenType::Plus, seq![c], p + 1)
    } else if c == ('-' as u8) {
        (TokenType::Minus, seq![c], p + 1)
    } else if c == ('*' as u8) {
        (TokenType::Asterisk, seq![c], p + 1)
    } else if c == ('/' as u8) {
        (TokenType::Slash, seq![c], p + 1)
    } else if c == ('<' as u8) {
        (TokenType::Lt, seq![c], p + 1)
    } else if c == ('>' as u8) {
        (TokenType::Gt, seq![c], p + 1)
    } else if c == (',' as u8) {
        (TokenType::Comma, seq![c], p + 1)
    } else if c == (';' as u8) {
        (TokenType::Semicolon, seq![c], p + 1)
    } else if c == ('(' as u8) {
        (TokenType::Lparen, seq![c], p + 1)
    } else if c == (')' as u8) {
        (TokenType::Rparen, seq![c], p + 1)
    } else if c == ('{' as u8) {
        (TokenType::Lbrace, seq![c], p + 1)
    } else if c == ('}' as u8) {
        (TokenType::Rbrace, seq![c], p + 1)
    } else if is_letter_spec(c) {
        let e = letter_run_end(s, p);
        (keyword_type(s.subrange(p, e)), s.subrange(p, e), e)
    } else if is_digit_spec(c) {
        let e = digit_run_end(s, p);
        (TokenType::Int, s.subrange(p, e), e)
    } else {
        (TokenType::Illegal, seq![c], p + 1)
    }
}

/// A byte that starts an operator or delimiter token.
pub open spec fn is_operator_byte(b: u8) -> bool {
    ||| b == ('=' as u8)
    ||| b == ('!' as u8)
    ||| b == ('+' as u8)
    ||| b == ('-' as u8)
    ||| b == ('*' as u8)
    ||| b == ('/' as u8)
    ||| b == ('<' as u8)
    ||| b == ('>' as u8)
    ||| b == (',' as u8)
    ||| b == (';' as u8)
    ||| b == ('(' as u8)
    ||| b == (')' as u8)
    ||| b == ('{' as u8)
    ||| b == ('}' as u8)
}

/// The cursor never moves backwards and never leaves the input: the position
/// after a token lies between the position before it and the end of the
/// input, and it strictly advances for every token but end-of-input.
pub proof fn lemma_token_at_bounds(s: Seq<u8>, pos: int)
    requires
        0 <= pos <= s.len(),
    ensures
        pos <= token_at(s, pos).2 <= s.len(),
        token_at(s, pos).0 != TokenType::Eof ==> pos < token_at(s, pos).2,
        token_at(s, pos).0 == TokenType::Eof ==> token_at(s, pos).1 == Seq::<u8>::empty(),
{
    lemma_skip_ws_bounds(s, pos);
    let p = skip_ws(s, pos);
    let c = char_at(s, p);
    if c != 0 {
        assert(p < s.len());
        if is_letter_spec(c) {
            lemma_letter_run_bounds(s, p + 1);
            assert(letter_run_end(s, p) == letter_run_end(s, p + 1));
        } else if is_digit_spec(c) {
            lemma_digit_run_bounds(s, p + 1);
            assert(digit_run_end(s, p) == digit_run_end(s, p + 1));
        }
    }
}

/// The tokens scanned from `s` from position `pos` to the end of the input:
/// each token's category and literal, in order, closed by the end-of-input
/// token.
pub open spec fn scan_from(s: Seq<u8>, pos: int) -> Seq<(TokenType, Seq<u8>)>
    decreases s.len() - pos when 0 <= pos <= s.len() via scan_from_decreases
{
    let (token_type, literal, end) = token_at(s, pos);
    if token_type == TokenType::Eof {
        seq![(token_type, literal)]
    } else {
        seq![(token_type, literal)] + scan_from(s, end)
    }
}

#[via_fn]
proof fn scan_from_decreases(s: Seq<u8>, pos: int) {
    lemma_token_at_bounds(s, pos);
}

/// The token stream of `s`: what a driver observes by calling `next_token`
/// on a fresh scanner until end-of-input.
pub open spec fn scan(s: Seq<u8>) -> Seq<(TokenType, Seq<u8>)> {
    scan_from(s, 0)
}

/// The categories and literals of a sequence of tokens, for comparison with
/// the scan model.
pub open spec fn token_views(tokens: Seq<Token>) -> Seq<(TokenType, Seq<u8>)> {
    tokens.map_values(|t: Token| (t.token_type, t.literal@))
}

/// Appending a token appends its category and literal to the views.
pub proof fn lemma_token_views_push(tokens: Seq<Token>, t: Token)
    ensures
        token_views(tokens.push(t)) == token_views(tokens).push((t.token_type, t.literal@)),
{
    assert(token_views(tokens.push(t)) =~= token_views(tokens).push((t.token_type, t.literal@)));
}

/// Scanning a finite input terminates in finitely many calls, bounded by the
/// input length: the token stream always closes with the end-of-input token
/// and its empty literal, and holds at most one token per input byte besides
/// it. Together with totality this is why no input makes the scanner fail.
pub proof fn lemma_scan_terminates(s: Seq<u8>, pos: int)
    requires
        0 <= pos <= s.len(),
    ensures
        1 <= scan_from(s, pos).len() <= s.len() - pos + 1,
        scan_from(s, pos).last() == (TokenType::Eof, Seq::<u8>::empty()),
    decreases s.len() - pos,
{
    lemma_token_at_bounds(s, pos);
    let (token_type, literal, end) = token_at(s, pos);
    if token_type != TokenType::Eof {
        lemma_scan_terminates(s, end);
        assert(scan_from(s, pos).last() == scan_from(s, end).last());
    }
}

/// Totality: every single byte value is classified into exactly one
/// category. Whitespace and the null sentinel end the input; a letter makes
/// an identifier (a single letter is never a reserved word); a digit makes
/// an integer literal; an operator byte makes its operator token; every
/// other byte makes an illegal token. No byte fails to produce a token.
pub proof fn lemma_classification_total(b: u8)
    ensures
        ({
            let (token_type, literal, end) = token_at(seq![b], 0);
            &&& 0 <= end <= 1
            &&& (token_type == TokenType::Eof <==> (b == 0 || is_whitespace_spec(b)))
            &&& (token_type != TokenType::Eof ==> literal == seq![b] && end == 1)
            &&& (token_type == TokenType::Ident <==> is_letter_spec(b))
            &&& (token_type == TokenType::Int <==> is_digit_spec(b))
            &&& (token_type == TokenType::Illegal <==> (b != 0 && !is_whitespace_spec(b)
                && !is_letter_spec(b) && !is_digit_spec(b) && !is_operator_byte(b)))
        }),
{
    let s = seq![b];
    if is_whitespace_spec(b) {
        assert(skip_ws(s, 1) == 1);
        assert(skip_ws(s, 0) == 1);
        assert(char_at(s, 1) == 0);
    } else {
        assert(skip_ws(s, 0) == 0);
        if b != 0 {
            if is_letter_spec(b) {
                assert(letter_run_end(s, 1) == 1);
                assert(letter_run_end(s, 0) == 1);
                assert(s.subrange(0, 1) =~= seq![b]);
            } else if is_digit_spec(b) {
                assert(digit_run_end(s, 1) == 1);
                assert(digit_run_end(s, 0) == 1);
                assert(s.subrange(0, 1) =~= seq![b]);
            }
        }
    }
}

/// Idempotent end: once a scan state yields end-of-input, the state it
/// leaves behind yields end-of-input again, with the empty literal and no
/// further movement — so every later call does too.
pub proof fn lemma_end_idempotent(s: Seq<u8>, pos: int)
    requires
        0 <= pos <= s.len(),
        token_at(s, pos).0 == TokenType::Eof,
    ensures
        token_at(s, pos).1 == Seq::<u8>::empty(),
        token_at(s, token_at(s, pos).2) == token_at(s, pos),
{
    lemma_skip_ws_bounds(s, pos);
    let p = skip_ws(s, pos);
    assert(char_at(s, p) == 0);
    assert(skip_ws(s, p) == p);
}

/// A token's literal is exactly the source text it consumed: the bytes from
/// the first non-whitespace position up to the cursor position after the
/// token. In particular a two-character operator carries both bytes in one
/// literal, never one byte twice.
pub proof fn lemma_literal_is_consumed_text(s: Seq<u8>, pos: int)
    requires
        0 <= pos <= s.len(),
    ensures
        token_at(s, pos).0 != TokenType::Eof ==> token_at(s, pos).1 == s.subrange(
            skip_ws(s, pos),
            token_at(s, pos).2,
        ),
{
    lemma_skip_ws_bounds(s, pos);
    let p = skip_ws(s, pos);
    let c = char_at(s, p);
    if c != 0 {
        assert(p < s.len());
        if is_letter_spec(c) || is_digit_spec(c) {
        } else if char_at(s, p + 1) == ('=' as u8) && (c == ('=' as u8) || c == ('!' as u8)) {
            assert(s.subrange(p, p + 2) =~= seq![c, char_at(s, p + 1)]);
        } else {
            assert(s.subrange(p, p + 1) =~= seq![c]);
        }
    }
}

/// Determinism: two scanners over the same input text and at the same cursor
/// position yield the same next token and the same token stream from there
/// on; scanning carries no hidden state.
pub proof fn lemma_scan_deterministic(a: Lexer, b: Lexer)
    requires
        a.input@ == b.input@,
        a.position == b.position,
    ensures
        token_at(a.input@, a.position as int) == token_at(b.input@, b.position as int),
        scan_from(a.input@, a.position as int) == scan_from(b.input@, b.position as int),
{
}

/// Maximal munch: when a letter starts a token, the token takes the whole
/// maximal letter run — every byte up to the run's end is a letter, the byte
/// after it is not, and the cursor lands exactly there. The digit case holds
/// alike for integer literals.
pub proof fn lemma_maximal_munch(s: Seq<u8>, pos: int)
    requires
        0 <= pos <= s.len(),
    ensures
        is_letter_spec(char_at(s, skip_ws(s, pos))) ==> ({
            let p = skip_ws(s, pos);
            let e = letter_run_end(s, p);
            &&& token_at(s, pos).1 == s.subrange(p, e)
            &&& token_at(s, pos).2 == e
            &&& p < e
            &&& forall|i: int| p <= i < e ==> is_letter_spec(s[i])
            &&& !is_letter_spec(char_at(s, e))
        }),
        is_digit_spec(char_at(s, skip_ws(s, pos))) ==> ({
            let p = skip_ws(s, pos);
            let e = digit_run_end(s, p);
            &&& token_at(s, pos).1 == s.subrange(p, e)
            &&& token_at(s, pos).2 == e
            &&& p < e
            &&& forall|i: int| p <= i < e ==> is_digit_spec(s[i])
            &&& !is_digit_spec(char_at(s, e))
        }),
{
    lemma_skip_ws_bounds(s, pos);
    let p = skip_ws(s, pos);
    lemma_letter_run_bounds(s, p);
    lemma_digit_run_bounds(s, p);
}

/// The scanner. It owns the input bytes, which stay unchanged for its whole
/// lifetime, and a cursor; `next_token` classifies the byte under the cursor
/// and advances past the consumed bytes.
pub struct Lexer {
    /// The full input text, immutable for the scanner's lifetime.
    pub input: Vec<u8>,
    /// The index of the current byte.
    pub position: usize,
    /// The index of the next byte: always `position + 1`.
    pub read_position: usize,
    /// The byte at `position`, or the sentinel 0 at or past end of input.
    pub ch: u8,
    /// The keyword table, built once at construction.
    pub keywords: KeywordMatch,
}

impl Lexer {
    /// The scanner's invariant: the cursor sits inside the input or one
    /// place past its end, `read_position` trails `position` by exactly one,
    /// and `ch` mirrors the byte under the cursor.
    pub open spec fn wf(self) -> bool {
        &&& self.input@.len() < usize::MAX
        &&& self.read_position == self.position + 1
        &&& self.position <= self.input@.len()
        &&& self.ch == char_at(self.input@, self.position as int)
        &&& self.keywords.wf()
    }

    /// Builds a scanner over `input` with the cursor on the first byte.
    pub fn new(input: Vec<u8>) -> (r: Lexer)
        requires
            input@.len() < usize::MAX,
        ensures
            r.wf(),
            r.input@ == input@,
            r.position == 0,
    {
        let mut lexer = Lexer {
            input,
            position: 0,
            read_position: 0,
            ch: 0,
            keywords: KeywordMatch::new(),
        };
        lexer.read_char();
        lexer
    }

    /// Moves the cursor forward by one byte, loading the sentinel 0 once the
    /// cursor passes the end of the input.
    pub fn read_char(&mut self)
        requires
            old(self).read_position <= old(self).input@.len(),
            old(self).input@.len() < usize::MAX,
        ensures
            final(self).input == old(self).input,
            final(self).keywords == old(self).keywords,
            final(self).position == old(self).read_position,
            final(self).read_position == old(self).read_position + 1,
            final(self).ch == char_at(final(self).input@, final(self).position as int),
    {
        if self.read_position >= self.input.len() {
            self.ch = 0;
        } else {
            self.ch = self.input[self.read_position];
        }
        self.position = self.read_position;
        self.read_position = self.read_position + 1;
    }

    /// Returns the byte one place ahead of the cursor without moving it, or
    /// the sentinel 0 when no such byte exists.
    pub fn peek_char(&mut self) -> (r: u8)
        ensures
            *final(self) == *old(self),
            r == char_at(old(self).input@, old(self).read_position as int),
    {
        if self.read_position >= self.input.len() {
            0
        } else {
            self.input[self.read_position]
        }
    }

    /// Advances past the maximal whitespace run under the cursor; a no-op
    /// when the current byte is not whitespace.
    pub fn skip_whitespace(&mut self)
        requires
            old(self).wf(),
        ensures
            final(self).wf(),
            final(self).input == old(self).input,
            final(self).keywords == old(self).keywords,
            final(self).position == skip_ws(old(self).input@, old(self).position as int),
            old(self).position <= final(self).position,
    {
        while is_whitespace(self.ch)
            invariant
                self.wf(),
                self.input == old(self).input,
                self.keywords == old(self).keywords,
                old(self).position <= self.position,
                skip_ws(self.input@, self.position as int) == skip_ws(
                    old(self).input@,
                    old(self).position as int,
                ),
            decreases self.input@.len() - self.position,
        {
            self.read_char();
        }
    }

    /// Consumes the maximal letter run under the cursor and returns a copy
    /// of the consumed bytes. The cursor ends on the first byte after the
    /// run.
    pub fn read_identifier(&mut self) -> (r: Vec<u8>)
        requires
            old(self).wf(),
            is_letter_spec(old(self).ch),
        ensures
            final(self).wf(),
            final(self).input == old(self).input,
            final(self).keywords == old(self).keywords,
            final(self).position == letter_run_end(old(self).input@, old(self).position as int),
            r@ == old(self).input@.subrange(
                old(self).position as int,
                final(self).position as int,
            ),
    {
        let start = self.position;
        while is_letter(self.ch)
            invariant
                self.wf(),
                self.input == old(self).input,
                self.keywords == old(self).keywords,
                start <= self.position,
                letter_run_end(self.input@, self.position as int) == letter_run_end(
                    old(self).input@,
                    old(self).position as int,
                ),
                start == old(self).position,
            decreases self.input@.len() - self.position,
        {
            self.read_char();
        }
        vstd::slice::slice_to_vec(
            vstd::slice::slice_subrange(self.input.as_slice(), start, self.position),
        )
    }

    /// Consumes the maximal digit run under the cursor and returns a copy of
    /// the consumed bytes. The cursor ends on the first byte after the run.
    pub fn read_number(&mut self) -> (r: Vec<u8>)
        requires
            old(self).wf(),
            is_digit_spec(old(self).ch),
        ensures
            final(self).wf(),
            final(self).input == old(self).input,
            final(self).keywords == old(self).keywords,
            final(self).position == digit_run_end(old(self).input@, old(self).position as int),
            r@ == old(self).input@.subrange(
                old(self).position as int,
                final(self).position as int,
            ),
    {
        let start = self.position;
        while is_digit(self.ch)
            invariant
                self.wf(),
                self.input == old(self).input,
                self.keywords == old(self).keywords,
                start <= self.position,
                digit_run_end(self.input@, self.position as int) == digit_run_end(
                    old(self).input@,
                    old(self).position as int,
                ),
                start == old(self).position,
            decreases self.input@.len() - self.position,
        {
            self.read_char();
        }
        vstd::slice::slice_to_vec(
            vstd::slice::slice_subrange(self.input.as_slice(), start, self.position),
        )
    }

    /// Consumes the single byte under the cursor and wraps it as a token of
    /// the given category.
    fn advance_with(&mut self, token_type: TokenType) -> (tok: Token)
        requires
            old(self).wf(),
            old(self).ch != 0,
        ensures
            final(self).wf(),
            final(self).input == old(self).input,
            final(self).keywords == old(self).keywords,
            final(self).position == old(self).position + 1,
            tok.token_type == token_type,
            tok.literal@ == seq![old(self).ch],
    {
        let mut literal: Vec<u8> = Vec::new();
        literal.push(self.ch);
        self.read_char();
        proof {
            assert(literal@ =~= seq![old(self).ch]);
        }
        Token { token_type, literal }
    }

    /// Consumes the byte under the cursor together with the byte after it
    /// and wraps the pair as a token of the given category.
    fn advance_two(&mut self, token_type: TokenType) -> (tok: Token)
        requires
            old(self).wf(),
            old(self).ch != 0,
            char_at(old(self).input@, old(self).position as int + 1) != 0,
        ensures
            final(self).wf(),
            final(self).input == old(self).input,
            final(self).keywords == old(self).keywords,
            final(self).position == old(self).position + 2,
            tok.token_type == token_type,
            tok.literal@ == seq![
                old(self).ch,
                char_at(old(self).input@, old(self).position as int + 1),
            ],
    {
        let mut literal: Vec<u8> = Vec::new();
        literal.push(self.ch);
        let next = self.peek_char();
        literal.push(next);
        self.read_char();
        self.read_char();
        proof {
            assert(literal@ =~= seq![
                old(self).ch,
                char_at(old(self).input@, old(self).position as int + 1),
            ]);
        }
        Token { token_type, literal }
    }

    /// Scans and returns the next token: skips whitespace, classifies the
    /// byte under the cursor, and advances past the consumed bytes. At end
    /// of input it returns the end-of-input token and stays in place, so
    /// repeated calls keep returning end-of-input.
    pub fn next_token(&mut self) -> (tok: Token)
        requires
            old(self).wf(),
        ensures
            final(self).wf(),
            final(self).input == old(self).input,
            final(self).keywords == old(self).keywords,
            tok.token_type == token_at(old(self).input@, old(self).position as int).0,
            tok.literal@ == token_at(old(self).input@, old(self).position as int).1,
            final(self).position as int == token_at(old(self).input@, old(self).position as int).2,
            old(self).position <= final(self).position,
    {
        self.skip_whitespace();
        if self.ch == 0 {
            Token { token_type: TokenType::Eof, literal: Vec::new() }
        } else if self.ch == '=' as u8 {
            if self.peek_char() == '=' as u8 {
                self.advance_two(TokenType::Eq)
            } else {
                self.advance_with(TokenType::Assign)
            }
        } else if self.ch == '!' as u8 {
            if self.peek_char() == '=' as u8 {
                self.advance_two(TokenType::NotEq)
            } else {
                self.advance_with(TokenType::Bang)
            }
        } else if self.ch == '+' as u8 {
            self.advance_with(TokenType::Plus)
        } else if self.ch == '-' as u8 {
            self.advance_with(TokenType::Minus)
        } else if self.ch == '*' as u8 {
            self.advance_with(TokenType::Asterisk)
        } else if self.ch == '/' as u8 {
            self.advance_with(TokenType::Slash)
        } else if self.ch == '<' as u8 {
            self.advance_with(TokenType::Lt)
        } else if self.ch == '>' as u8 {
            self.advance_with(TokenType::Gt)
        } else if self.ch == ',' as u8 {
            self.advance_with(TokenType::Comma)
        } else if self.ch == ';' as u8 {
            self.advance_with(TokenType::Semicolon)
        } else if self.ch == '(' as u8 {
            self.advance_with(TokenType::Lparen)
        } else if self.ch == ')' as u8 {
            self.advance_with(TokenType::Rparen)
        } else if self.ch == '{' as u8 {
            self.advance_with(TokenType::Lbrace)
        } else if self.ch == '}' as u8 {
            self.advance_with(TokenType::Rbrace)
        } else if is_letter(self.ch) {
            proof {
                lemma_letter_run_bounds(self.input@, self.position as int);
            }
            let literal = self.read_identifier();
            let token_type = self.keywords.lookup_ident(&literal);
            Token { token_type, literal }
        } else if is_digit(self.ch) {
            proof {
                lemma_digit_run_bounds(self.input@, self.position as int);
            }
            let literal = self.read_number();
            Token { token_type: TokenType::Int, literal }
        } else {
            self.advance_with(TokenType::Illegal)
        }
    }
}

/// Scans `input` from the start to exhaustion: every token the scanner
/// produces, in order, up to and including the first end-of-input token —
/// exactly the token stream of the scan model.
pub fn tokenize(input: Vec<u8>) -> (tokens: Vec<Token>)
    requires
        input@.len() < usize::MAX,
    ensures
        token_views(tokens@) == scan(input@),
{
    let ghost s = input@;
    let mut lexer = Lexer::new(input);
    let mut tokens: Vec<Token> = Vec::new();
    proof {
        assert(token_views(tokens@) + scan_from(s, 0) =~= scan(s));
    }
    loop
        invariant_except_break
            lexer.wf(),
            lexer.input@ == s,
            token_views(tokens@) + scan_from(s, lexer.position as int) == scan(s),
        ensures
            token_views(tokens@) == scan(s),
        decreases s.len() - lexer.position,
    {
        let ghost pos0 = lexer.position as int;
        let ghost before = tokens@;
        let tok = lexer.next_token();
        let is_end = tok.token_type == TokenType::Eof;
        tokens.push(tok);
        proof {
            lemma_token_at_bounds(s, pos0);
            lemma_token_views_push(before, tok);
            if is_end {
                assert(scan_from(s, pos0) =~= seq![(tok.token_type, tok.literal@)]);
                assert(token_views(tokens@) =~= scan(s));
            } else {
                assert(token_views(tokens@) + scan_from(s, lexer.position as int) =~= scan(s));
            }
        }
        if is_end {
            break;
        }
    }
    tokens
}

} // verus!
