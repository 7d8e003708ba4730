//! Lexical scanner: a single forward pass over the source characters that
//! produces the token sequence, terminated by an end-of-input token.
//!
//! The whole scan is specified by the spec function [`scan_from`], a
//! character-level model of maximal-munch scanning; `Scanner::scanTokens`
//! returns exactly the token sequence that model describes.

use vstd::prelude::*;
use vstd::string::StrSliceExecFns;
use crate::token::{Literal, LiteralModel, Token, TokenModel, TokenType};

verus! {

/// A fatal lexical error: an unrecognized character, with the 1-based line
/// it was found on.
#[derive(Clone, Debug)]
pub struct LexError {
    pub line: usize,
    pub ch: char,
}

/// Mathematical model of a `LexError`.
pub struct LexErrorModel {
    pub line: int,
    pub ch: char,
}

impl View for LexError {
    type V = LexErrorModel;

    open spec fn view(&self) -> LexErrorModel {
        LexErrorModel { line: self.line as int, ch: self.ch }
    }
}

pub open spec fn is_digit_char(c: char) -> bool {
    48 <= c as u32 && c as u32 <= 57
}

pub open spec fn is_alpha_char(c: char) -> bool {
    (97 <= c as u32 && c as u32 <= 122) || (65 <= c as u32 && c as u32 <= 90) || c as u32 == 95
}

pub open spec fn is_alnum_char(c: char) -> bool {
    is_alpha_char(c) || is_digit_char(c)
}

/// End of the maximal digit run starting at `i`.
pub open spec fn digit_run_end(s: Seq<char>, i: nat) -> nat
    decreases s.len() - i,
{
    if i < s.len() && is_digit_char(s[i as int]) {
        digit_run_end(s, (i + 1) as nat)
    } else {
        i
    }
}

/// End of the maximal identifier run starting at `i`.
pub open spec fn ident_run_end(s: Seq<char>, i: nat) -> nat
    decreases s.len() - i,
{
    if i < s.len() && is_alnum_char(s[i as int]) {
        ident_run_end(s, (i + 1) as nat)
    } else {
        i
    }
}

/// First position at or after `i` holding a newline, or the end of input.
pub open spec fn line_comment_end(s: Seq<char>, i: nat) -> nat
    decreases s.len() - i,
{
    if i < s.len() && s[i as int] != '\n' {
        line_comment_end(s, (i + 1) as nat)
    } else {
        i
    }
}

/// First position at or after `i` holding a double quote, or the end of input.
pub open spec fn close_quote(s: Seq<char>, i: nat) -> nat
    decreases s.len() - i,
{
    if i < s.len() && s[i as int] != '"' {
        close_quote(s, (i + 1) as nat)
    } else {
        i
    }
}

/// Number of newline characters in `s`.
pub open spec fn count_newlines(s: Seq<char>) -> int
    decreases s.len(),
{
    if s.len() == 0 {
        0
    } else {
        count_newlines(s.drop_last()) + if s.last() == '\n' {
            1int
        } else {
            0int
        }
    }
}

/// The fixed keyword table: the kind a maximal identifier run resolves to.
pub open spec fn keyword_or_ident(w: Seq<char>) -> TokenType {
    if w == "and"@ {
        TokenType::KwAnd
    } else if w == "class"@ {
        TokenType::KwClass
    } else if w == "else"@ {
        TokenType::KwElse
    } else if w == "false"@ {
        TokenType::KwFalse
    } else if w == "for"@ {
        TokenType::KwFor
    } else if w == "fun"@ {
        TokenType::KwFun
    } else if w == "if"@ {
        TokenType::KwIf
    } else if w == "nil"@ {
        TokenType::KwNil
    } else if w == "or"@ {
        TokenType::KwOr
    } else if w == "print"@ {
        TokenType::KwPrint
    } else if w == "return"@ {
        TokenType::KwReturn
    } else if w == "super"@ {
        TokenType::KwSuper
    } else if w == "this"@ {
        TokenType::KwThis
    } else if w == "true"@ {
        TokenType::KwTrue
    } else if w == "float"@ {
        TokenType::KwFloat
    } else if w == "string"@ {
        TokenType::KwString
    } else if w == "bool"@ {
        TokenType::KwBool
    } else if w == "while"@ {
        TokenType::KwWhile
    } else if w == "break"@ {
        TokenType::KwBreak
    } else if w == "continue"@ {
        TokenType::KwContinue
    } else {
        TokenType::Identifier
    }
}

pub open spec fn simple_tok(k: TokenType, s: Seq<char>, i: nat, width: nat, line: int) -> TokenModel {
    TokenModel {
        token_type: k,
        lexeme: s.subrange(i as int, (i + width) as int),
        literal: Option::None,
        line,
    }
}

pub open spec fn eof_model(line: int) -> TokenModel {
    TokenModel {
        token_type: TokenType::Eof,
        lexeme: Seq::<char>::empty(),
        literal: Option::None,
        line,
    }
}

pub open spec fn cons_tok(t: TokenModel, r: Result<Seq<TokenModel>, LexErrorModel>) -> Result<
    Seq<TokenModel>,
    LexErrorModel,
> {
    match r {
        Result::Ok(ts) => Result::Ok(seq![t] + ts),
        Result::Err(e) => Result::Err(e),
    }
}

pub open spec fn prepend_toks(ts: Seq<TokenModel>, r: Result<Seq<TokenModel>, LexErrorModel>) -> Result<
    Seq<TokenModel>,
    LexErrorModel,
> {
    match r {
        Result::Ok(rest) => Result::Ok(ts + rest),
        Result::Err(e) => Result::Err(e),
    }
}

/// The scanner model: the tokens produced by scanning `s` from position `i`
/// with the line counter at `line`, or the first fatal lexical error.
///
/// Mirrors one classification step per character: operators with one-character
/// lookahead, `//` comments, whitespace, string literals (tracking embedded
/// newlines, and ending the scan silently when the closing quote is missing),
/// maximal digit runs with an optional fraction, and maximal identifier runs
/// resolved through the keyword table.
pub open spec fn scan_from(s: Seq<char>, i: nat, line: int) -> Result<Seq<TokenModel>, LexErrorModel>
    decreases s.len() - i,
        via scan_from_dec
{
    if i >= s.len() {
        Result::Ok(seq![eof_model(line)])
    } else {
        let c = s[i as int];
        if c == '%' {
            cons_tok(simple_tok(TokenType::Modulus, s, i, 1, line), scan_from(s, (i + 1) as nat, line))
        } else if c == '(' {
            cons_tok(simple_tok(TokenType::LeftParen, s, i, 1, line), scan_from(s, (i + 1) as nat, line))
        } else if c == ')' {
            cons_tok(simple_tok(TokenType::RightParen, s, i, 1, line), scan_from(s, (i + 1) as nat, line))
        } else if c == '{' {
            cons_tok(simple_tok(TokenType::LeftBrace, s, i, 1, line), scan_from(s, (i + 1) as nat, line))
        } else if c == '}' {
            cons_tok(simple_tok(TokenType::RightBrace, s, i, 1, line), scan_from(s, (i + 1) as nat, line))
        } else if c == ',' {
            cons_tok(simple_tok(TokenType::Comma, s, i, 1, line), scan_from(s, (i + 1) as nat, line))
        } else if c == '.' {
            cons_tok(simple_tok(TokenType::Dot, s, i, 1, line), scan_from(s, (i + 1) as nat, line))
        } else if c == '-' {
            cons_tok(simple_tok(TokenType::Minus, s, i, 1, line), scan_from(s, (i + 1) as nat, line))
        } else if c == '+' {
            cons_tok(simple_tok(TokenType::Plus, s, i, 1, line), scan_from(s, (i + 1) as nat, line))
        } else if c == ';' {
            cons_tok(simple_tok(TokenType::Semicolon, s, i, 1, line), scan_from(s, (i + 1) as nat, line))
        } else if c == '*' {
            cons_tok(simple_tok(TokenType::Star, s, i, 1, line), scan_from(s, (i + 1) as nat, line))
        } else if c == '!' {
            if i + 1 < s.len() && s[i + 1 as int] == '=' {
                cons_tok(simple_tok(TokenType::BangEqual, s, i, 2, line), scan_from(s, (i + 2) as nat, line))
            } else {
                cons_tok(simple_tok(TokenType::Bang, s, i, 1, line), scan_from(s, (i + 1) as nat, line))
            }
        } else if c == '=' {
            if i + 1 < s.len() && s[i + 1 as int] == '=' {
                cons_tok(simple_tok(TokenType::EqualEqual, s, i, 2, line), scan_from(s, (i + 2) as nat, line))
            } else {
                cons_tok(simple_tok(TokenType::Equal, s, i, 1, line), scan_from(s, (i + 1) as nat, line))
            }
        } else if c == '>' {
            if i + 1 < s.len() && s[i + 1 as int] == '=' {
                cons_tok(simple_tok(TokenType::GreaterEqual, s, i, 2, line), scan_from(s, (i + 2) as nat, line))
            } else {
                cons_tok(simple_tok(TokenType::Greater, s, i, 1, line), scan_from(s, (i + 1) as nat, line))
            }
        } else if c == '<' {
            if i + 1 < s.len() && s[i + 1 as int] == '=' {
                cons_tok(simple_tok(TokenType::LessEqual, s, i, 2, line), scan_from(s, (i + 2) as nat, line))
            } else {
                cons_tok(simple_tok(TokenType::Less, s, i, 1, line), scan_from(s, (i + 1) as nat, line))
            }
        } else if c == '/' {
            if i + 1 < s.len() && s[i + 1 as int] == '/' {
                scan_from(s, line_comment_end(s, (i + 2) as nat), line)
            } else {
                cons_tok(simple_tok(TokenType::Slash, s, i, 1, line), scan_from(s, (i + 1) as nat, line))
            }
        } else if c == ' ' || c == '\r' || c == '\t' {
            scan_from(s, (i + 1) as nat, line)
        } else if c == '\n' {
            scan_from(s, (i + 1) as nat, line + 1)
        } else if c == '"' {
            let j = close_quote(s, (i + 1) as nat);
            if j >= s.len() {
                Result::Ok(seq![eof_model(line + count_newlines(s.subrange(i + 1 as int, s.len() as int)))])
            } else {
                let nl = line + count_newlines(s.subrange(i + 1 as int, j as int));
                cons_tok(
                    TokenModel {
                        token_type: TokenType::StringLit,
                        lexeme: s.subrange(i as int, j + 1 as int),
                        literal: Option::Some(LiteralModel::StringLiteral(s.subrange(i + 1 as int, j as int))),
                        line: nl,
                    },
                    scan_from(s, (j + 1) as nat, nl),
                )
            }
        } else if is_digit_char(c) {
            let j = digit_run_end(s, (i + 1) as nat);
            let k = if j < s.len() && s[j as int] == '.' && j + 1 < s.len() && is_digit_char(
                s[j + 1 as int],
            ) {
                digit_run_end(s, (j + 2) as nat)
            } else {
                j
            };
            cons_tok(
                TokenModel {
                    token_type: TokenType::Number,
                    lexeme: s.subrange(i as int, k as int),
                    literal: Option::Some(LiteralModel::FLiteral(s.subrange(i as int, k as int))),
                    line,
                },
                scan_from(s, k, line),
            )
        } else if is_alpha_char(c) {
            let j = ident_run_end(s, (i + 1) as nat);
            cons_tok(
                TokenModel {
                    token_type: keyword_or_ident(s.subrange(i as int, j as int)),
                    lexeme: s.subrange(i as int, j as int),
                    literal: Option::None,
                    line,
                },
                scan_from(s, j, line),
            )
        } else {
            Result::Err(LexErrorModel { line, ch: c })
        }
    }
}

/// Bounds of the run-end helpers: they never move backwards, and never past
/// the end of input (when started inside it).
pub proof fn lemma_run_end_bounds(s: Seq<char>, i: nat)
    requires
        i <= s.len(),
    ensures
        i <= digit_run_end(s, i) <= s.len(),
        i <= ident_run_end(s, i) <= s.len(),
        i <= line_comment_end(s, i) <= s.len(),
        i <= close_quote(s, i) <= s.len(),
    decreases s.len() - i,
{
    if i < s.len() {
        lemma_run_end_bounds(s, (i + 1) as nat);
    }
}

#[via_fn]
proof fn scan_from_dec(s: Seq<char>, i: nat, line: int) {
    if i < s.len() {
        if i + 1 <= s.len() {
            lemma_run_end_bounds(s, (i + 1) as nat);
        }
        if i + 2 <= s.len() {
            lemma_run_end_bounds(s, (i + 2) as nat);
        }
        let j = digit_run_end(s, (i + 1) as nat);
        if j + 2 <= s.len() {
            lemma_run_end_bounds(s, (j + 2) as nat);
        }
    }
}

proof fn lemma_prepend_push(ts: Seq<TokenModel>, t: TokenModel, r: Result<Seq<TokenModel>, LexErrorModel>)
    ensures
        prepend_toks(ts, cons_tok(t, r)) == prepend_toks(ts.push(t), r),
{
    match r {
        Result::Ok(rest) => {
            assert(ts + (seq![t] + rest) =~= ts.push(t) + rest);
        },
        Result::Err(_) => {},
    }
}

proof fn lemma_map_push(ts: Seq<Token>, t: Token)
    ensures
        ts.push(t).map_values(|x: Token| x@) == ts.map_values(|x: Token| x@).push(t@),
{
    assert(ts.push(t).map_values(|x: Token| x@) =~= ts.map_values(|x: Token| x@).push(t@));
}

proof fn lemma_count_newlines_extend(s: Seq<char>, a: int, b: int)
    requires
        0 <= a <= b < s.len(),
    ensures
        count_newlines(s.subrange(a, b + 1)) == count_newlines(s.subrange(a, b)) + if s[b] == '\n' {
            1int
        } else {
            0int
        },
{
    let x = s.subrange(a, b + 1);
    assert(x.drop_last() =~= s.subrange(a, b));
    assert(x.last() == s[b]);
}

/// The scanner: source text, the tokens collected so far, the `start` and
/// `current` cursors (character positions) and the 1-based line counter.
pub struct Scanner {
    source: String,
    n: usize,
    tokens: Vec<Token>,
    start: usize,
    current: usize,
    line: usize,
}

impl Scanner {
    /// Scanner state invariant: the cursor is inside the source, the line
    /// counter cannot overflow, and the tokens collected so far are exactly
    /// the ones the model produces before the cursor.
    pub closed spec fn inv(self) -> bool {
        &&& self.n == self.source@.len()
        &&& self.n < usize::MAX
        &&& self.current <= self.n
        &&& 1 <= self.line
        &&& self.line as int <= 1 + self.current as int
        &&& scan_from(self.source@, 0, 1) == prepend_toks(
            self.tokens@.map_values(|x: Token| x@),
            scan_from(self.source@, self.current as nat, self.line as int),
        )
    }

    pub closed spec fn source_view(self) -> Seq<char> {
        self.source@
    }

    pub fn new(source: String) -> (s: Scanner)
        requires
            source@.len() < usize::MAX,
        ensures
            s.inv(),
            s.source_view() == source@,
    {
        let n = source.as_str().unicode_len();
        let s = Scanner { source, n, tokens: Vec::new(), start: 0, current: 0, line: 1 };
        proof {
            assert(s.tokens@.map_values(|x: Token| x@) =~= Seq::<TokenModel>::empty());
            assert(prepend_toks(
                Seq::<TokenModel>::empty(),
                scan_from(s.source@, 0, 1),
            ) == scan_from(s.source@, 0, 1)) by {
                match scan_from(s.source@, 0, 1) {
                    Result::Ok(rest) => {
                        assert(Seq::<TokenModel>::empty() + rest =~= rest);
                    },
                    Result::Err(_) => {},
                }
            }
        }
        s
    }

    fn is_at_end(&self) -> (b: bool)
        ensures
            b == (self.current >= self.n),
    {
        self.current >= self.n
    }

    fn peek(&self) -> (c: char)
        requires
            self.n == self.source@.len(),
            self.current <= self.n,
        ensures
            c == if (self.current as int) < self.source@.len() {
                self.source@[self.current as int]
            } else {
                '\0'
            },
    {
        if self.current >= self.n {
            '\0'
        } else {
            self.source.as_str().get_char(self.current)
        }
    }

    fn peek_next(&self) -> (c: char)
        requires
            self.n == self.source@.len(),
            self.current <= self.n,
        ensures
            c == if self.current as int + 1 < self.source@.len() {
                self.source@[self.current as int + 1]
            } else {
                '\0'
            },
    {
        if self.n - self.current < 2 {
            '\0'
        } else {
            self.source.as_str().get_char(self.current + 1)
        }
    }

    fn advance(&mut self) -> (c: char)
        requires
            old(self).n == old(self).source@.len(),
            old(self).current < old(self).n,
        ensures
            *final(self) == (Scanner { current: (old(self).current + 1) as usize, ..*old(self) }),
            c == old(self).source@[old(self).current as int],
    {
        let c = self.source.as_str().get_char(self.current);
        self.current = self.current + 1;
        c
    }

    fn match_token(&mut self, expected: char) -> (b: bool)
        requires
            old(self).n == old(self).source@.len(),
            old(self).current <= old(self).n,
        ensures
            b == ((old(self).current as int) < old(self).source@.len() && old(self).source@[old(
                self,
            ).current as int] == expected),
            b ==> *final(self) == (Scanner {
                current: (old(self).current + 1) as usize,
                ..*old(self)
            }),
            !b ==> *final(self) == *old(self),
    {
        if self.is_at_end() {
            return false;
        }
        let c = self.source.as_str().get_char(self.current);
        if c != expected {
            return false;
        }
        self.current = self.current + 1;
        true
    }

    fn add_token(&mut self, t: TokenType, lit: Option<Literal>)
        requires
            old(self).n == old(self).source@.len(),
            old(self).start <= old(self).current <= old(self).n,
        ensures
            final(self).source == old(self).source,
            final(self).n == old(self).n,
            final(self).start == old(self).start,
            final(self).current == old(self).current,
            final(self).line == old(self).line,
            final(self).tokens@.len() == old(self).tokens@.len() + 1,
            final(self).tokens@.drop_last() == old(self).tokens@,
            final(self).tokens@.last().token_type == t,
            final(self).tokens@.last().literal == lit,
            final(self).tokens@.last().line == old(self).line,
            final(self).tokens@.last().lexeme@ == old(self).source@.subrange(
                old(self).start as int,
                old(self).current as int,
            ),
    {
        let text = self.source.as_str().substring_char(self.start, self.current).to_owned();
        self.tokens.push(Token::new(t, text, lit, self.line));
    }

    /// Scan the whole source: the token sequence the model describes, ended
    /// by the end-of-input token, or the model's fatal lexical error.
    #[allow(non_snake_case)]
    pub fn scanTokens(self) -> (r: Result<Vec<Token>, LexError>)
        requires
            self.inv(),
        ensures
            match r {
                Result::Ok(toks) => scan_from(self.source_view(), 0, 1) == Result::Ok::<
                    Seq<TokenModel>,
                    LexErrorModel,
                >(toks@.map_values(|x: Token| x@)),
                Result::Err(e) => scan_from(self.source_view(), 0, 1) == Result::Err::<
                    Seq<TokenModel>,
                    LexErrorModel,
                >(e@),
            },
    {
        let ghost orig = self;
        let mut this = self;
        while this.current < this.n
            invariant
                this.inv(),
                this.source == orig.source,
                orig == self,
            decreases this.n - this.current,
        {
            this.start = this.current;
            match this.scan_token() {
                Result::Ok(()) => {},
                Result::Err(e) => {
                    return Result::Err(e);
                },
            }
        }
        let ghost prets = this.tokens@.map_values(|x: Token| x@);
        let eof_lexeme: String = "".to_owned();
        proof {
            reveal_strlit("");
            assert(eof_lexeme@ =~= Seq::<char>::empty());
        }
        let t = Token::new(TokenType::Eof, eof_lexeme, Option::None, this.line);
        this.tokens.push(t);
        proof {
            assert(scan_from(this.source@, this.current as nat, this.line as int) == Result::Ok::<
                Seq<TokenModel>,
                LexErrorModel,
            >(seq![eof_model(this.line as int)]));
            lemma_map_push(this.tokens@.drop_last(), t);
            assert(this.tokens@.drop_last().push(t) =~= this.tokens@);
            assert(t@ == eof_model(this.line as int));
            assert(prets + seq![eof_model(this.line as int)] =~= this.tokens@.map_values(
                |x: Token| x@,
            ));
        }
        Result::Ok(this.tokens)
    }

    fn scan_token(&mut self) -> (r: Result<(), LexError>)
        requires
            old(self).inv(),
            old(self).current < old(self).n,
            old(self).start == old(self).current,
        ensures
            final(self).source == old(self).source,
            old(self).current < final(self).current,
            match r {
                Result::Ok(()) => final(self).inv(),
                Result::Err(e) => scan_from(old(self).source@, 0, 1) == Result::Err::<
                    Seq<TokenModel>,
                    LexErrorModel,
                >(e@),
            },
    {
        let ghost src = self.source@;
        let ghost i = self.current as nat;
        let ghost line0 = self.line as int;
        let ghost ts0 = self.tokens@.map_values(|x: Token| x@);
        let c = self.advance();
        if c == '%' {
            self.emit_simple(TokenType::Modulus, Ghost(i), Ghost(line0), Ghost(ts0));
            Result::Ok(())
        } else if c == '(' {
            self.emit_simple(TokenType::LeftParen, Ghost(i), Ghost(line0), Ghost(ts0));
            Result::Ok(())
        } else if c == ')' {
            self.emit_simple(TokenType::RightParen, Ghost(i), Ghost(line0), Ghost(ts0));
            Result::Ok(())
        } else if c == '{' {
            self.emit_simple(TokenType::LeftBrace, Ghost(i), Ghost(line0), Ghost(ts0));
            Result::Ok(())
        } else if c == '}' {
            self.emit_simple(TokenType::RightBrace, Ghost(i), Ghost(line0), Ghost(ts0));
            Result::Ok(())
        } else if c == ',' {
            self.emit_simple(TokenType::Comma, Ghost(i), Ghost(line0), Ghost(ts0));
            Result::Ok(())
        } else if c == '.' {
            self.emit_simple(TokenType::Dot, Ghost(i), Ghost(line0), Ghost(ts0));
            Result::Ok(())
        } else if c == '-' {
            self.emit_simple(TokenType::Minus, Ghost(i), Ghost(line0), Ghost(ts0));
            Result::Ok(())
        } else if c == '+' {
            self.emit_simple(TokenType::Plus, Ghost(i), Ghost(line0), Ghost(ts0));
            Result::Ok(())
        } else if c == ';' {
            self.emit_simple(TokenType::Semicolon, Ghost(i), Ghost(line0), Ghost(ts0));
            Result::Ok(())
        } else if c == '*' {
            self.emit_simple(TokenType::Star, Ghost(i), Ghost(line0), Ghost(ts0));
            Result::Ok(())
        } else if c == '!' {
            let two = self.match_token('=');
            let k = if two {
                TokenType::BangEqual
            } else {
                TokenType::Bang
            };
            self.emit_simple(k, Ghost(i), Ghost(line0), Ghost(ts0));
            Result::Ok(())
        } else if c == '=' {
            let two = self.match_token('=');
            let k = if two {
                TokenType::EqualEqual
            } else {
                TokenType::Equal
            };
            self.emit_simple(k, Ghost(i), Ghost(line0), Ghost(ts0));
            Result::Ok(())
        } else if c == '>' {
            let two = self.match_token('=');
            let k = if two {
                TokenType::GreaterEqual
            } else {
                TokenType::Greater
            };
            self.emit_simple(k, Ghost(i), Ghost(line0), Ghost(ts0));
            Result::Ok(())
        } else if c == '<' {
            let two = self.match_token('=');
            let k = if two {
                TokenType::LessEqual
            } else {
                TokenType::Less
            };
            self.emit_simple(k, Ghost(i), Ghost(line0), Ghost(ts0));
            Result::Ok(())
        } else if c == '/' {
            let two = self.match_token('/');
            if two {
                let ghost c0 = self.current as nat;
                while self.peek() != '\n' && !self.is_at_end()
                    invariant
                        self.n == self.source@.len(),
                        src == self.source@,
                        self.current <= self.n,
                        *self == (Scanner { current: self.current, ..*old(self) }),
                        c0 <= self.current as nat,
                        line_comment_end(src, c0) == line_comment_end(src, self.current as nat),
                    decreases self.n - self.current,
                {
                    self.current = self.current + 1;
                }
                proof {
                    assert(self.current as nat == line_comment_end(src, c0));
                }
                Result::Ok(())
            } else {
                self.emit_simple(TokenType::Slash, Ghost(i), Ghost(line0), Ghost(ts0));
                Result::Ok(())
            }
        } else if c == ' ' || c == '\r' || c == '\t' {
            Result::Ok(())
        } else if c == '\n' {
            self.line = self.line + 1;
            Result::Ok(())
        } else if c == '"' {
            self.scan_string(Ghost(i), Ghost(line0), Ghost(ts0));
            Result::Ok(())
        } else {
            let u = c as u32;
            if 48 <= u && u <= 57 {
                self.scan_number(Ghost(i), Ghost(line0), Ghost(ts0));
                Result::Ok(())
            } else if (97 <= u && u <= 122) || (65 <= u && u <= 90) || u == 95 {
                self.scan_identifier(Ghost(i), Ghost(line0), Ghost(ts0));
                Result::Ok(())
            } else {
                let e = LexError { line: self.line, ch: c };
                proof {
                    assert(scan_from(src, i, line0) == Result::Err::<Seq<TokenModel>, LexErrorModel>(
                        e@,
                    ));
                }
                Result::Err(e)
            }
        }
    }

    /// Append a token with no literal payload covering `start..current`,
    /// re-establishing the scanner invariant.
    fn emit_simple(&mut self, k: TokenType, Ghost(i): Ghost<nat>, Ghost(line0): Ghost<int>, Ghost(ts0): Ghost<Seq<TokenModel>>)
        requires
            old(self).n == old(self).source@.len(),
            old(self).n < usize::MAX,
            old(self).start == i,
            i < old(self).current <= old(self).n,
            old(self).line as int == line0,
            1 <= line0 <= 1 + i,
            ts0 == old(self).tokens@.map_values(|x: Token| x@),
            scan_from(old(self).source@, 0, 1) == prepend_toks(
                ts0,
                cons_tok(
                    simple_tok(k, old(self).source@, i, (old(self).current - i) as nat, line0),
                    scan_from(old(self).source@, old(self).current as nat, line0),
                ),
            ),
        ensures
            final(self).inv(),
            final(self).source == old(self).source,
            final(self).current == old(self).current,
    {
        let ghost src = self.source@;
        let ghost w = (self.current - self.start) as nat;
        self.add_token(k, Option::None);
        proof {
            let t = self.tokens@.last();
            let tm = simple_tok(k, src, i, w, line0);
            assert(t@.lexeme == tm.lexeme);
            assert(t@ == tm);
            lemma_map_push(old(self).tokens@, t);
            assert(old(self).tokens@.push(t) =~= self.tokens@);
            lemma_prepend_push(ts0, tm, scan_from(src, self.current as nat, line0));
        }
    }

    fn scan_number(&mut self, Ghost(i): Ghost<nat>, Ghost(line0): Ghost<int>, Ghost(ts0): Ghost<Seq<TokenModel>>)
        requires
            old(self).inv2(i, line0, ts0),
            old(self).current == i + 1,
            i < old(self).source@.len(),
            is_digit_char(old(self).source@[i as int]),
        ensures
            final(self).inv(),
            final(self).source == old(self).source,
            old(self).current <= final(self).current,
    {
        let ghost src = self.source@;
        while is_digit_exec(self.peek())
            invariant
                self.n == self.source@.len(),
                src == self.source@,
                self.current <= self.n,
                *self == (Scanner { current: self.current, ..*old(self) }),
                i + 1 <= self.current,
                digit_run_end(src, (i + 1) as nat) == digit_run_end(src, self.current as nat),
            decreases self.n - self.current,
        {
            self.current = self.current + 1;
        }
        let ghost j = self.current as nat;
        proof {
            assert(j == digit_run_end(src, (i + 1) as nat));
        }
        let p = self.peek();
        let pn = self.peek_next();
        if p == '.' && is_digit_exec(pn) {
            self.current = self.current + 1;
            while is_digit_exec(self.peek())
                invariant
                    self.n == self.source@.len(),
                    src == self.source@,
                    self.current <= self.n,
                    *self == (Scanner { current: self.current, ..*old(self) }),
                    j + 1 <= self.current,
                    digit_run_end(src, (j + 1) as nat) == digit_run_end(src, self.current as nat),
                decreases self.n - self.current,
            {
                self.current = self.current + 1;
            }
            proof {
                assert(digit_run_end(src, (j + 1) as nat) == digit_run_end(src, (j + 2) as nat));
                assert(self.current as nat == digit_run_end(src, (j + 2) as nat));
            }
        }
        let ghost k = self.current as nat;
        let text = self.source.as_str().substring_char(self.start, self.current).to_owned();
        self.add_token(TokenType::Number, Option::Some(Literal::FLiteral(text)));
        proof {
            let t = self.tokens@.last();
            let tm = TokenModel {
                token_type: TokenType::Number,
                lexeme: src.subrange(i as int, k as int),
                literal: Option::Some(LiteralModel::FLiteral(src.subrange(i as int, k as int))),
                line: line0,
            };
            assert(t@ == tm);
            lemma_map_push(old(self).tokens@, t);
            assert(old(self).tokens@.push(t) =~= self.tokens@);
            assert(scan_from(src, i, line0) == cons_tok(tm, scan_from(src, k, line0)));
            lemma_prepend_push(ts0, tm, scan_from(src, k, line0));
        }
    }

    fn scan_identifier(&mut self, Ghost(i): Ghost<nat>, Ghost(line0): Ghost<int>, Ghost(ts0): Ghost<Seq<TokenModel>>)
        requires
            old(self).inv2(i, line0, ts0),
            old(self).current == i + 1,
            i < old(self).source@.len(),
            is_alpha_char(old(self).source@[i as int]),
        ensures
            final(self).inv(),
            final(self).source == old(self).source,
            old(self).current <= final(self).current,
    {
        let ghost src = self.source@;
        while is_alnum_exec(self.peek())
            invariant
                self.n == self.source@.len(),
                src == self.source@,
                self.current <= self.n,
                *self == (Scanner { current: self.current, ..*old(self) }),
                i + 1 <= self.current,
                ident_run_end(src, (i + 1) as nat) == ident_run_end(src, self.current as nat),
            decreases self.n - self.current,
        {
            self.current = self.current + 1;
        }
        let ghost j = self.current as nat;
        proof {
            assert(j == ident_run_end(src, (i + 1) as nat));
        }
        let text = self.source.as_str().substring_char(self.start, self.current).to_owned();
        let k = keyword_kind(&text);
        self.add_token(k, Option::None);
        proof {
            let t = self.tokens@.last();
            let tm = TokenModel {
                token_type: keyword_or_ident(src.subrange(i as int, j as int)),
                lexeme: src.subrange(i as int, j as int),
                literal: Option::None,
                line: line0,
            };
            assert(t@ == tm);
            lemma_map_push(old(self).tokens@, t);
            assert(old(self).tokens@.push(t) =~= self.tokens@);
            assert(scan_from(src, i, line0) == cons_tok(tm, scan_from(src, j, line0)));
            lemma_prepend_push(ts0, tm, scan_from(src, j, line0));
        }
    }

    fn scan_string(&mut self, Ghost(i): Ghost<nat>, Ghost(line0): Ghost<int>, Ghost(ts0): Ghost<Seq<TokenModel>>)
        requires
            old(self).inv2(i, line0, ts0),
            old(self).current == i + 1,
            i < old(self).source@.len(),
            old(self).source@[i as int] == '"',
        ensures
            final(self).inv(),
            final(self).source == old(self).source,
            old(self).current <= final(self).current,
    {
        let ghost src = self.source@;
        while self.in_string_body()
            invariant
                self.n == self.source@.len(),
                src == self.source@,
                self.n < usize::MAX,
                i + 1 <= self.current <= self.n,
                *self == (Scanner { current: self.current, line: self.line, ..*old(self) }),
                close_quote(src, (i + 1) as nat) == close_quote(src, self.current as nat),
                self.line as int == line0 + count_newlines(
                    src.subrange(i + 1 as int, self.current as int),
                ),
                self.line as int - line0 <= self.current as int - (i + 1),
                1 <= self.line,
                1 <= line0 <= 1 + i,
            decreases self.n - self.current,
        {
            let p = self.peek();
            proof {
                lemma_count_newlines_extend(src, i + 1 as int, self.current as int);
            }
            if p == '\n' {
                self.line = self.line + 1;
            }
            self.current = self.current + 1;
        }
        if self.is_at_end() {
            proof {
                assert(close_quote(src, (i + 1) as nat) == self.n as nat);
                assert(src.subrange(i + 1 as int, self.current as int) =~= src.subrange(
                    i + 1 as int,
                    src.len() as int,
                ));
                assert(scan_from(src, i, line0) == Result::Ok::<Seq<TokenModel>, LexErrorModel>(
                    seq![eof_model(self.line as int)],
                ));
            }
            return;
        }
        let ghost j = self.current as nat;
        proof {
            assert(j == close_quote(src, (i + 1) as nat));
        }
        let _ = self.advance();
        let text = self.source.as_str().substring_char(self.start + 1, self.current - 1).to_owned();
        self.add_token(TokenType::StringLit, Option::Some(Literal::StringLiteral(text)));
        proof {
            let nl = line0 + count_newlines(src.subrange(i + 1 as int, j as int));
            let t = self.tokens@.last();
            let tm = TokenModel {
                token_type: TokenType::StringLit,
                lexeme: src.subrange(i as int, j + 1 as int),
                literal: Option::Some(LiteralModel::StringLiteral(src.subrange(i + 1 as int, j as int))),
                line: nl,
            };
            assert(t@ == tm);
            lemma_map_push(old(self).tokens@, t);
            assert(old(self).tokens@.push(t) =~= self.tokens@);
            assert(scan_from(src, i, line0) == cons_tok(tm, scan_from(src, (j + 1) as nat, nl)));
            lemma_prepend_push(ts0, tm, scan_from(src, (j + 1) as nat, nl));
        }
    }

    /// Whether the cursor still sits inside an unclosed string literal body.
    fn in_string_body(&self) -> (b: bool)
        requires
            self.n == self.source@.len(),
            self.current <= self.n,
        ensures
            b == ((self.current as int) < self.source@.len() && self.source@[self.current as int]
                != '"'),
    {
        if self.current >= self.n {
            false
        } else {
            self.source.as_str().get_char(self.current) != '"'
        }
    }

    /// Invariant of a scan step in progress: the step began at `i` on line
    /// `line0` with tokens `ts0`, and the first character is consumed.
    spec fn inv2(self, i: nat, line0: int, ts0: Seq<TokenModel>) -> bool {
        &&& self.n == self.source@.len()
        &&& self.n < usize::MAX
        &&& self.start == i
        &&& self.current <= self.n
        &&& self.line as int == line0
        &&& 1 <= line0 <= 1 + i
        &&& ts0 == self.tokens@.map_values(|x: Token| x@)
        &&& scan_from(self.source@, 0, 1) == prepend_toks(
            ts0,
            scan_from(self.source@, i, line0),
        )
    }
}

fn is_digit_exec(c: char) -> (b: bool)
    ensures
        b == is_digit_char(c),
{
    let u = c as u32;
    48 <= u && u <= 57
}

fn is_alnum_exec(c: char) -> (b: bool)
    ensures
        b == is_alnum_char(c),
{
    let u = c as u32;
    (97 <= u && u <= 122) || (65 <= u && u <= 90) || u == 95 || (48 <= u && u <= 57)
}

fn keyword_kind(text: &String) -> (k: TokenType)
    ensures
        k == keyword_or_ident(text@),
{
    if *text == "and".to_owned() {
        TokenType::KwAnd
    } else if *text == "class".to_owned() {
        TokenType::KwClass
    } else if *text == "else".to_owned() {
        TokenType::KwElse
    } else if *text == "false".to_owned() {
        TokenType::KwFalse
    } else if *text == "for".to_owned() {
        TokenType::KwFor
    } else if *text == "fun".to_owned() {
        TokenType::KwFun
    } else if *text == "if".to_owned() {
        TokenType::KwIf
    } else if *text == "nil".to_owned() {
        TokenType::KwNil
    } else if *text == "or".to_owned() {
        TokenType::KwOr
    } else if *text == "print".to_owned() {
        TokenType::KwPrint
    } else if *text == "return".to_owned() {
        TokenType::KwReturn
    } else if *text == "super".to_owned() {
        TokenType::KwSuper
    } else if *text == "this".to_owned() {
        TokenType::KwThis
    } else if *text == "true".to_owned() {
        TokenType::KwTrue
    } else if *text == "float".to_owned() {
        TokenType::KwFloat
    } else if *text == "string".to_owned() {
        TokenType::KwString
    } else if *text == "bool".to_owned() {
        TokenType::KwBool
    } else if *text == "while".to_owned() {
        TokenType::KwWhile
    } else if *text == "break".to_owned() {
        TokenType::KwBreak
    } else if *text == "continue".to_owned() {
        TokenType::KwContinue
    } else {
        TokenType::Identifier
    }
}

/// Scanning is unchanged by skipping leading newlines, except that the line
/// counter advances by one per newline.
proof fn lemma_scan_skips_newlines(s: Seq<char>, i: nat, line: int, k: nat)
    requires
        i + k <= s.len(),
        forall|j: int| i <= j < i + k ==> s[j] == '\n',
    ensures
        scan_from(s, i, line) == scan_from(s, (i + k) as nat, line + k),
    decreases k,
{
    if k > 0 {
        assert(s[i as int] == '\n');
        lemma_scan_skips_newlines(s, (i + 1) as nat, line + 1, (k - 1) as nat);
    }
}

/// A lexeme preceded by `n` newline characters is reported on line `n + 1`:
/// if the whole scan succeeds, its first token carries that line.
pub proof fn lemma_line_after_newlines(s: Seq<char>, n: nat)
    requires
        n < s.len(),
        forall|j: int| 0 <= j < n ==> s[j] == '\n',
        s[n as int] != ' ',
        s[n as int] != '\r',
        s[n as int] != '\t',
        s[n as int] != '\n',
        s[n as int] != '"',
        s[n as int] != '/',
    ensures
        scan_from(s, 0, 1) is Ok ==> ({
            let toks = scan_from(s, 0, 1)->Ok_0;
            toks.len() > 0 && toks[0].line == n + 1
        }),
{
    lemma_scan_skips_newlines(s, 0, 1, n);
}

proof fn lemma_close_quote_absent(s: Seq<char>, i: nat)
    requires
        i <= s.len(),
        forall|j: int| i <= j < s.len() ==> s[j] != '"',
    ensures
        close_quote(s, i) == s.len(),
    decreases s.len() - i,
{
    if i < s.len() {
        lemma_close_quote_absent(s, (i + 1) as nat);
    }
}

/// An unterminated string literal does not abort the scan and yields no
/// string token: scanning from its opening quote produces only the
/// end-of-input token.
pub proof fn lemma_unterminated_string(s: Seq<char>, i: nat, line: int)
    requires
        i < s.len(),
        s[i as int] == '"',
        forall|j: int| i < j < s.len() ==> s[j] != '"',
    ensures
        scan_from(s, i, line) is Ok,
        scan_from(s, i, line)->Ok_0.len() == 1,
        scan_from(s, i, line)->Ok_0[0].token_type == TokenType::Eof,
{
    lemma_close_quote_absent(s, (i + 1) as nat);
}

} // verus!
