use vstd::prelude::*;
use vstd::std_specs::iter::IteratorSpec;

use crate::error::{error, Diagnostic};
use crate::token::{Token, TokenType};

verus! {

broadcast use vstd::string::group_string_axioms;

/// Lexer state: the source as characters, the tokens and diagnostics
/// collected so far, the start of the lexeme being scanned, the cursor,
/// and the current line number.
pub struct Scanner {
    pub source: Vec<char>,
    pub tokens: Vec<Token>,
    pub diagnostics: Vec<Diagnostic>,
    pub start: usize,
    pub current: usize,
    pub line: i32,
}

/// Collects the characters of a string, in order.
fn str_chars(s: &str) -> (r: Vec<char>)
    ensures
        r@ == s@,
{
    let mut chars = s.chars();
    let mut out: Vec<char> = Vec::new();
    loop
        invariant
            chars.decrease() is Some,
            out@ + chars.remaining() == s@,
        ensures
            out@ + chars.remaining() == s@,
            chars.remaining().len() == 0,
        decreases chars.decrease()->0,
    {
        match chars.next() {
            Some(c) => {
                out.push(c);
            },
            None => {
                break;
            },
        }
    }
    proof {
        assert(out@ =~= s@);
    }
    out
}

/// Relies on `String`'s `FromIterator` over characters: collecting a range
/// of characters yields the string holding exactly those characters.
#[verifier::external_body]
fn chars_to_string(v: &Vec<char>, from: usize, to: usize) -> (r: String)
    requires
        from <= to <= v@.len(),
    ensures
        r@ == v@.subrange(from as int, to as int),
{
    v[from..to].iter().collect()
}

/// Relies on `==` on string slices: character-for-character equality.
#[verifier::external_body]
pub(crate) fn str_eq(a: &str, b: &str) -> (r: bool)
    ensures
        r == (a@ == b@),
{
    a == b
}

pub open spec fn is_digit_char(c: char) -> bool {
    48 <= c as u32 <= 57
}

pub open spec fn is_alpha_char(c: char) -> bool {
    (65 <= c as u32 <= 90) || (97 <= c as u32 <= 122) || c == '_'
}

pub open spec fn is_alphanumeric_char(c: char) -> bool {
    is_alpha_char(c) || is_digit_char(c)
}

/// Line counter update for one newline; the counter pins at `i32::MAX`
/// rather than wrapping.
pub open spec fn bumped_line(line: i32) -> i32 {
    if line < i32::MAX {
        (line + 1) as i32
    } else {
        line
    }
}

/// Line counter after walking the characters of `src` in `[from, to)`.
pub open spec fn line_after(line: i32, src: Seq<char>, from: int, to: int) -> i32
    decreases to - from,
{
    if from >= to {
        line
    } else {
        let prev = line_after(line, src, from, to - 1);
        if src[to - 1] == '\n' {
            bumped_line(prev)
        } else {
            prev
        }
    }
}

/// Position of the first `c` in `src` at or after `from`; the length of
/// `src` when there is none.
pub open spec fn scan_find(src: Seq<char>, from: int, c: char) -> int
    decreases src.len() - from,
{
    if from < 0 || from >= src.len() {
        src.len() as int
    } else if src[from] == c {
        from
    } else {
        scan_find(src, from + 1, c)
    }
}

/// Position of the first non-digit in `src` at or after `from`.
pub open spec fn skip_digits(src: Seq<char>, from: int) -> int
    decreases src.len() - from,
{
    if from < 0 || from >= src.len() {
        src.len() as int
    } else if !is_digit_char(src[from]) {
        from
    } else {
        skip_digits(src, from + 1)
    }
}

/// Position of the first character at or after `from` that can not sit in
/// an identifier.
pub open spec fn skip_alnum(src: Seq<char>, from: int) -> int
    decreases src.len() - from,
{
    if from < 0 || from >= src.len() {
        src.len() as int
    } else if !is_alphanumeric_char(src[from]) {
        from
    } else {
        skip_alnum(src, from + 1)
    }
}

/// The token kind of a character that always scans alone.
pub open spec fn single_char_type(c: char) -> Option<TokenType> {
    if c == '(' {
        Some(TokenType::LeftParen)
    } else if c == ')' {
        Some(TokenType::RightParen)
    } else if c == '{' {
        Some(TokenType::LeftBrace)
    } else if c == '}' {
        Some(TokenType::RightBrace)
    } else if c == ',' {
        Some(TokenType::Comma)
    } else if c == '.' {
        Some(TokenType::Dot)
    } else if c == '-' {
        Some(TokenType::Minus)
    } else if c == '+' {
        Some(TokenType::Plus)
    } else if c == ';' {
        Some(TokenType::Semicolon)
    } else if c == '*' {
        Some(TokenType::Star)
    } else {
        None
    }
}

/// The kinds of the four operators that grow when an `=` follows.
pub open spec fn two_char_types(c: char) -> Option<(TokenType, TokenType)> {
    if c == '!' {
        Some((TokenType::Bang, TokenType::BangEqual))
    } else if c == '=' {
        Some((TokenType::Equal, TokenType::EqualEqual))
    } else if c == '<' {
        Some((TokenType::Less, TokenType::LessEqual))
    } else if c == '>' {
        Some((TokenType::Greater, TokenType::GreaterEqual))
    } else {
        None
    }
}

/// The keyword kind for an identifier lexeme, or `Identifier` when the
/// lexeme is no keyword.
pub open spec fn spec_keyword_type(s: Seq<char>) -> TokenType {
    if s == "and"@ {
        TokenType::And
    } else if s == "class"@ {
        TokenType::Class
    } else if s == "else"@ {
        TokenType::Else
    } else if s == "false"@ {
        TokenType::False
    } else if s == "fun"@ {
        TokenType::Fun
    } else if s == "for"@ {
        TokenType::For
    } else if s == "if"@ {
        TokenType::If
    } else if s == "nil"@ {
        TokenType::Nil
    } else if s == "or"@ {
        TokenType::Or
    } else if s == "print"@ {
        TokenType::Print
    } else if s == "return"@ {
        TokenType::Return
    } else if s == "super"@ {
        TokenType::Super
    } else if s == "this"@ {
        TokenType::This
    } else if s == "true"@ {
        TokenType::True
    } else if s == "var"@ {
        TokenType::Var
    } else if s == "while"@ {
        TokenType::While
    } else {
        TokenType::Identifier
    }
}

/// A token with the given kind, source text, string payload and line.
pub open spec fn token_is(
    t: Token,
    tt: TokenType,
    lexeme: Seq<char>,
    literal: Option<Seq<char>>,
    line: i32,
) -> bool {
    &&& t.token_type == tt
    &&& t.lexeme@ == lexeme
    &&& match literal {
        Some(l) => t.literal matches Some(s) && s@ == l,
        None => t.literal is None,
    }
    &&& t.line == line
}

/// `post` is `pre` with exactly one token appended.
pub open spec fn pushed_token(
    pre: Seq<Token>,
    post: Seq<Token>,
    tt: TokenType,
    lexeme: Seq<char>,
    literal: Option<Seq<char>>,
    line: i32,
) -> bool {
    &&& post.len() == pre.len() + 1
    &&& post.subrange(0, pre.len() as int) == pre
    &&& token_is(post[pre.len() as int], tt, lexeme, literal, line)
}

/// `post` is `pre` with exactly one diagnostic appended, with the given
/// line and message and an empty place.
pub open spec fn pushed_diag(
    pre: Seq<Diagnostic>,
    post: Seq<Diagnostic>,
    line: i32,
    message: Seq<char>,
) -> bool {
    &&& post.len() == pre.len() + 1
    &&& post.subrange(0, pre.len() as int) == pre
    &&& post[pre.len() as int].line == line
    &&& post[pre.len() as int].place@ == Seq::<char>::empty()
    &&& post[pre.len() as int].message@ == message
}

/// The spec-level image of one token.
pub struct TokenModel {
    pub token_type: TokenType,
    pub lexeme: Seq<char>,
    pub literal: Option<Seq<char>>,
    pub line: i32,
}

/// The spec-level image of one scan diagnostic: its line and message.
pub struct DiagModel {
    pub line: i32,
    pub message: Seq<char>,
}

pub open spec fn model_of(t: Token) -> TokenModel {
    TokenModel {
        token_type: t.token_type,
        lexeme: t.lexeme@,
        literal: match t.literal {
            Some(s) => Some(s@),
            None => None,
        },
        line: t.line,
    }
}

pub open spec fn models_of(tokens: Seq<Token>) -> Seq<TokenModel> {
    tokens.map_values(|t: Token| model_of(t))
}

pub open spec fn diag_model_of(d: Diagnostic) -> DiagModel {
    DiagModel { line: d.line, message: d.message@ }
}

pub open spec fn diag_models(diags: Seq<Diagnostic>) -> Seq<DiagModel> {
    diags.map_values(|d: Diagnostic| diag_model_of(d))
}

/// What one scan step starting at `i` yields: where the cursor lands,
/// the line counter after the step, and at most one token or diagnostic.
pub struct StepModel {
    pub next: int,
    pub line: i32,
    pub token: Option<TokenModel>,
    pub diag: Option<DiagModel>,
}

/// The functional form of `scan_step`: what scanning one lexeme starting
/// at `i` produces, by the character found there.
pub open spec fn step_model(src: Seq<char>, i: int, line: i32) -> StepModel {
    let c = src[i];
    if single_char_type(c) is Some {
        StepModel {
            next: i + 1,
            line,
            token: Some(
                TokenModel {
                    token_type: single_char_type(c)->0,
                    lexeme: src.subrange(i, i + 1),
                    literal: None,
                    line,
                },
            ),
            diag: None,
        }
    } else if two_char_types(c) is Some {
        let pair = two_char_types(c)->0;
        let grown = i + 1 < src.len() && src[i + 1] == '=';
        let next = if grown {
            i + 2
        } else {
            i + 1
        };
        StepModel {
            next,
            line,
            token: Some(
                TokenModel {
                    token_type: if grown {
                        pair.1
                    } else {
                        pair.0
                    },
                    lexeme: src.subrange(i, next),
                    literal: None,
                    line,
                },
            ),
            diag: None,
        }
    } else if c == '/' && i + 1 < src.len() && src[i + 1] == '/' {
        StepModel { next: scan_find(src, i + 2, '\n'), line, token: None, diag: None }
    } else if c == '/' {
        StepModel {
            next: i + 1,
            line,
            token: Some(
                TokenModel {
                    token_type: TokenType::Slash,
                    lexeme: src.subrange(i, i + 1),
                    literal: None,
                    line,
                },
            ),
            diag: None,
        }
    } else if c == ' ' || c == '\r' || c == '\t' {
        StepModel { next: i + 1, line, token: None, diag: None }
    } else if c == '\n' {
        StepModel { next: i + 1, line: bumped_line(line), token: None, diag: None }
    } else if c == '"' {
        let q = scan_find(src, i + 1, '"');
        if q < src.len() {
            let end_line = line_after(line, src, i + 1, q);
            StepModel {
                next: q + 1,
                line: end_line,
                token: Some(
                    TokenModel {
                        token_type: TokenType::Str,
                        lexeme: src.subrange(i, q + 1),
                        literal: Some(src.subrange(i + 1, q)),
                        line: end_line,
                    },
                ),
                diag: None,
            }
        } else {
            let end_line = line_after(line, src, i + 1, src.len() as int);
            StepModel {
                next: src.len() as int,
                line: end_line,
                token: None,
                diag: Some(DiagModel { line: end_line, message: "Unterminated string."@ }),
            }
        }
    } else if is_digit_char(c) {
        let a = skip_digits(src, i);
        let fraction = a + 1 < src.len() && src[a] == '.' && is_digit_char(src[a + 1]);
        let next = if fraction {
            skip_digits(src, a + 1)
        } else {
            a
        };
        StepModel {
            next,
            line,
            token: Some(
                TokenModel {
                    token_type: TokenType::Number,
                    lexeme: src.subrange(i, next),
                    literal: None,
                    line,
                },
            ),
            diag: None,
        }
    } else if is_alpha_char(c) {
        let next = skip_alnum(src, i);
        StepModel {
            next,
            line,
            token: Some(
                TokenModel {
                    token_type: spec_keyword_type(src.subrange(i, next)),
                    lexeme: src.subrange(i, next),
                    literal: None,
                    line,
                },
            ),
            diag: None,
        }
    } else {
        StepModel {
            next: i + 1,
            line,
            token: None,
            diag: Some(DiagModel { line, message: "Unexpected character: "@ + seq![c] }),
        }
    }
}

/// Everything a whole scan of `src` from `i` onward yields, in order;
/// the end-of-input token is the caller's to add.
pub struct ScanModel {
    pub tokens: Seq<TokenModel>,
    pub diags: Seq<DiagModel>,
    pub line: i32,
}

pub open spec fn scan_model(src: Seq<char>, i: int, line: i32) -> ScanModel
    decreases src.len() - i,
{
    if i < 0 || i >= src.len() {
        ScanModel { tokens: Seq::empty(), diags: Seq::empty(), line }
    } else {
        let m = step_model(src, i, line);
        if m.next <= i || m.next > src.len() {
            ScanModel { tokens: Seq::empty(), diags: Seq::empty(), line: m.line }
        } else {
            let rest = scan_model(src, m.next, m.line);
            ScanModel {
                tokens: (match m.token {
                    Some(t) => seq![t],
                    None => Seq::empty(),
                }) + rest.tokens,
                diags: (match m.diag {
                    Some(d) => seq![d],
                    None => Seq::empty(),
                }) + rest.diags,
                line: rest.line,
            }
        }
    }
}

/// One scan step always moves the cursor forward and never past the end.
proof fn lemma_step_model_in_range(src: Seq<char>, i: int, line: i32)
    requires
        0 <= i < src.len(),
    ensures
        i < step_model(src, i, line).next <= src.len(),
{
    lemma_scan_find_bounds(src, i + 1, '"');
    lemma_scan_find_bounds(src, i + 2, '\n');
    if is_digit_char(src[i]) {
        lemma_skip_digits_bounds(src, i + 1);
        let a = skip_digits(src, i);
        lemma_skip_digits_bounds(src, a + 1);
    }
    if is_alpha_char(src[i]) {
        lemma_skip_alnum_bounds(src, i + 1);
    }
}

/// The step relation realizes the step model: a scanner state reached by
/// one `scan_token` holds exactly the model's token and diagnostic.
proof fn lemma_step_realizes_model(pre: Scanner, post: Scanner)
    requires
        pre.wf(),
        pre.current < pre.source@.len(),
        pre.start == pre.current,
        Scanner::scan_step(pre, post),
    ensures
        ({
            let m = step_model(pre.source@, pre.current as int, pre.line);
            &&& post.current == m.next
            &&& post.line == m.line
            &&& (match m.token {
                Some(tm) => models_of(post.tokens@) == models_of(pre.tokens@).push(tm),
                None => post.tokens@ == pre.tokens@,
            })
            &&& (match m.diag {
                Some(dm) => diag_models(post.diagnostics@) == diag_models(
                    pre.diagnostics@,
                ).push(dm),
                None => post.diagnostics@ == pre.diagnostics@,
            })
        }),
{
    let m = step_model(pre.source@, pre.current as int, pre.line);
    match m.token {
        Some(tm) => {
            assert(models_of(post.tokens@) =~= models_of(pre.tokens@).push(tm));
        },
        None => {},
    }
    match m.diag {
        Some(dm) => {
            assert(diag_models(post.diagnostics@) =~= diag_models(pre.diagnostics@).push(dm));
        },
        None => {},
    }
}

impl Scanner {
    pub open spec fn wf(&self) -> bool {
        self.start <= self.current <= self.source@.len() <= usize::MAX
    }

    /// What one call of `scan_token` does, as a relation between the
    /// scanner before and after, split by the character under the cursor.
    pub open spec fn scan_step(pre: Scanner, post: Scanner) -> bool {
        let src = pre.source@;
        let i = pre.current as int;
        let c = src[i];
        &&& post.source@ == src
        &&& post.start == pre.start
        &&& i < post.current <= src.len()
        // a character that always scans alone
        &&& (single_char_type(c) matches Some(tt) ==> {
            &&& post.current == i + 1
            &&& post.line == pre.line
            &&& post.diagnostics@ == pre.diagnostics@
            &&& pushed_token(
                pre.tokens@,
                post.tokens@,
                tt,
                src.subrange(i, i + 1),
                None,
                pre.line,
            )
        })
        // an operator that grows when `=` follows
        &&& (two_char_types(c) matches Some(pair) ==> {
            let grown = i + 1 < src.len() && src[i + 1] == '=';
            &&& post.current == if grown {
                i + 2
            } else {
                i + 1
            }
            &&& post.line == pre.line
            &&& post.diagnostics@ == pre.diagnostics@
            &&& pushed_token(
                pre.tokens@,
                post.tokens@,
                if grown {
                    pair.1
                } else {
                    pair.0
                },
                src.subrange(i, post.current as int),
                None,
                pre.line,
            )
        })
        // a comment runs to the end of the line and yields nothing
        &&& (c == '/' && i + 1 < src.len() && src[i + 1] == '/' ==> {
            &&& post.current == scan_find(src, i + 2, '\n')
            &&& post.line == pre.line
            &&& post.tokens@ == pre.tokens@
            &&& post.diagnostics@ == pre.diagnostics@
        })
        // a lone slash is division
        &&& (c == '/' && !(i + 1 < src.len() && src[i + 1] == '/') ==> {
            &&& post.current == i + 1
            &&& post.line == pre.line
            &&& post.diagnostics@ == pre.diagnostics@
            &&& pushed_token(
                pre.tokens@,
                post.tokens@,
                TokenType::Slash,
                src.subrange(i, i + 1),
                None,
                pre.line,
            )
        })
        // blanks are skipped
        &&& (c == ' ' || c == '\r' || c == '\t' ==> {
            &&& post.current == i + 1
            &&& post.line == pre.line
            &&& post.tokens@ == pre.tokens@
            &&& post.diagnostics@ == pre.diagnostics@
        })
        // a newline only moves the line counter
        &&& (c == '\n' ==> {
            &&& post.current == i + 1
            &&& post.line == bumped_line(pre.line)
            &&& post.tokens@ == pre.tokens@
            &&& post.diagnostics@ == pre.diagnostics@
        })
        // a string literal runs to the closing quote
        &&& (c == '"' ==> {
            let q = scan_find(src, i + 1, '"');
            if q < src.len() {
                &&& post.current == q + 1
                &&& post.line == line_after(pre.line, src, i + 1, q)
                &&& post.diagnostics@ == pre.diagnostics@
                &&& pushed_token(
                    pre.tokens@,
                    post.tokens@,
                    TokenType::Str,
                    src.subrange(i, q + 1),
                    Some(src.subrange(i + 1, q)),
                    post.line,
                )
            } else {
                &&& post.current == src.len()
                &&& post.line == line_after(pre.line, src, i + 1, src.len() as int)
                &&& post.tokens@ == pre.tokens@
                &&& pushed_diag(
                    pre.diagnostics@,
                    post.diagnostics@,
                    post.line,
                    "Unterminated string."@,
                )
            }
        })
        // a number literal: digits, then optionally a point followed by
        // at least one digit, then more digits
        &&& (is_digit_char(c) ==> {
            let a = skip_digits(src, i);
            let fraction = a < src.len() && src[a] == '.' && a + 1 < src.len() && is_digit_char(
                src[a + 1],
            );
            &&& post.current == if fraction {
                skip_digits(src, a + 1)
            } else {
                a
            }
            &&& post.line == pre.line
            &&& post.diagnostics@ == pre.diagnostics@
            &&& pushed_token(
                pre.tokens@,
                post.tokens@,
                TokenType::Number,
                src.subrange(i, post.current as int),
                None,
                pre.line,
            )
        })
        // an identifier or keyword
        &&& (is_alpha_char(c) ==> {
            &&& post.current == skip_alnum(src, i)
            &&& post.line == pre.line
            &&& post.diagnostics@ == pre.diagnostics@
            &&& pushed_token(
                pre.tokens@,
                post.tokens@,
                spec_keyword_type(src.subrange(i, post.current as int)),
                src.subrange(i, post.current as int),
                None,
                pre.line,
            )
        })
        // anything else is reported and skipped
        &&& (single_char_type(c) is None && two_char_types(c) is None && c != '/' && c != ' '
            && c != '\r' && c != '\t' && c != '\n' && c != '"' && !is_digit_char(c)
            && !is_alpha_char(c) ==> {
            &&& post.current == i + 1
            &&& post.line == pre.line
            &&& post.tokens@ == pre.tokens@
            &&& pushed_diag(
                pre.diagnostics@,
                post.diagnostics@,
                pre.line,
                "Unexpected character: "@ + seq![c],
            )
        })
    }

    pub fn new(source: &str) -> (r: Self)
        ensures
            r.wf(),
            r.source@ == source@,
            r.tokens@ == Seq::<Token>::empty(),
            r.diagnostics@ == Seq::<Diagnostic>::empty(),
            r.current == 0,
            r.line == 1,
    {
        let source_chars = str_chars(source);
        proof {
            vstd::std_specs::vec::axiom_spec_len(&source_chars);
        }
        Self {
            source: source_chars,
            tokens: Vec::new(),
            diagnostics: Vec::new(),
            start: 0,
            current: 0,
            line: 1,
        }
    }

    fn is_at_end(&self) -> (r: bool)
        ensures
            r == (self.current >= self.source@.len()),
    {
        self.current >= self.source.len()
    }

    fn advance(&mut self) -> (c: char)
        requires
            old(self).current < old(self).source@.len(),
        ensures
            c == old(self).source@[old(self).current as int],
            *final(self) == (Scanner { current: (old(self).current + 1) as usize, ..*old(self) }),
    {
        let _bound = self.source.len();
        let c = self.source[self.current];
        self.current = self.current + 1;
        c
    }

    fn current_lexeme(&self) -> (r: String)
        requires
            self.wf(),
        ensures
            r@ == self.source@.subrange(self.start as int, self.current as int),
    {
        chars_to_string(&self.source, self.start, self.current)
    }

    fn add_token(&mut self, token_type: TokenType)
        requires
            old(self).wf(),
        ensures
            final(self).wf(),
            *final(self) == (Scanner { tokens: final(self).tokens, ..*old(self) }),
            pushed_token(
                old(self).tokens@,
                final(self).tokens@,
                token_type,
                old(self).source@.subrange(old(self).start as int, old(self).current as int),
                None,
                old(self).line,
            ),
    {
        let lexeme = self.current_lexeme();
        let token = Token::new(token_type, lexeme, self.line);
        self.tokens.push(token);
        proof {
            assert(self.tokens@.subrange(0, old(self).tokens@.len() as int) =~= old(
                self,
            ).tokens@);
        }
    }

    fn peek(&self, offset: usize) -> (c: char)
        ensures
            c == if self.current + offset < self.source@.len() {
                self.source@[self.current + offset]
            } else {
                '\0'
            },
    {
        if offset < self.source.len() && self.current < self.source.len() - offset {
            self.source[self.current + offset]
        } else {
            '\0'
        }
    }

    fn match_(&mut self, expected: char) -> (r: bool)
        ensures
            r == (old(self).current < old(self).source@.len() && old(self).source@[old(
                self,
            ).current as int] == expected),
            *final(self) == (Scanner {
                current: if r {
                    (old(self).current + 1) as usize
                } else {
                    old(self).current
                },
                ..*old(self)
            }),
    {
        if self.is_at_end() {
            return false;
        }
        if self.peek(0) != expected {
            return false;
        }
        let _bound = self.source.len();
        self.current = self.current + 1;
        true
    }

    fn bump_line(&mut self)
        ensures
            *final(self) == (Scanner { line: bumped_line(old(self).line), ..*old(self) }),
    {
        if self.line < i32::MAX {
            self.line = self.line + 1;
        }
    }

    fn add_token_literal(&mut self, token_type: TokenType, literal: String)
        requires
            old(self).wf(),
        ensures
            final(self).wf(),
            *final(self) == (Scanner { tokens: final(self).tokens, ..*old(self) }),
            pushed_token(
                old(self).tokens@,
                final(self).tokens@,
                token_type,
                old(self).source@.subrange(old(self).start as int, old(self).current as int),
                Some(literal@),
                old(self).line,
            ),
    {
        let lexeme = self.current_lexeme();
        let token = Token {
            token_type,
            lexeme,
            literal: Some(literal),
            line: self.line,
        };
        self.tokens.push(token);
        proof {
            assert(self.tokens@.subrange(0, old(self).tokens@.len() as int) =~= old(
                self,
            ).tokens@);
        }
    }

    fn parse_string(&mut self)
        requires
            old(self).wf(),
            old(self).current == old(self).start + 1,
        ensures
            final(self).wf(),
            final(self).source@ == old(self).source@,
            final(self).start == old(self).start,
            ({
                let src = old(self).source@;
                let j = old(self).current as int;
                let q = scan_find(src, j, '"');
                if q < src.len() {
                    &&& final(self).current == q + 1
                    &&& final(self).line == line_after(old(self).line, src, j, q)
                    &&& final(self).diagnostics@ == old(self).diagnostics@
                    &&& pushed_token(
                        old(self).tokens@,
                        final(self).tokens@,
                        TokenType::Str,
                        src.subrange(old(self).start as int, q + 1),
                        Some(src.subrange(old(self).start as int + 1, q)),
                        final(self).line,
                    )
                } else {
                    &&& final(self).current == src.len()
                    &&& final(self).line == line_after(old(self).line, src, j, src.len() as int)
                    &&& final(self).tokens@ == old(self).tokens@
                    &&& pushed_diag(
                        old(self).diagnostics@,
                        final(self).diagnostics@,
                        final(self).line,
                        "Unterminated string."@,
                    )
                }
            }),
    {
        while self.peek(0) != '"' && !self.is_at_end()
            invariant
                self.wf(),
                self.source@ == old(self).source@,
                self.start == old(self).start,
                self.tokens@ == old(self).tokens@,
                self.diagnostics@ == old(self).diagnostics@,
                old(self).current <= self.current,
                scan_find(self.source@, old(self).current as int, '"') == scan_find(
                    self.source@,
                    self.current as int,
                    '"',
                ),
                self.line == line_after(
                    old(self).line,
                    self.source@,
                    old(self).current as int,
                    self.current as int,
                ),
            decreases self.source@.len() - self.current,
        {
            if self.peek(0) == '\n' {
                self.bump_line();
            }
            self.advance();
        }
        if self.is_at_end() {
            let d = error(self.line, String::from_str("Unterminated string."));
            self.diagnostics.push(d);
            proof {
                assert(self.diagnostics@.subrange(0, old(self).diagnostics@.len() as int) =~= old(
                    self,
                ).diagnostics@);
            }
        } else {
            self.advance();
            let literal = chars_to_string(&self.source, self.start + 1, self.current - 1);
            self.add_token_literal(TokenType::Str, literal);
        }
    }

    fn parse_number(&mut self)
        requires
            old(self).wf(),
            old(self).current == old(self).start + 1,
        ensures
            final(self).wf(),
            *final(self) == (Scanner {
                tokens: final(self).tokens,
                current: final(self).current,
                ..*old(self)
            }),
            ({
                let src = old(self).source@;
                let a = skip_digits(src, old(self).current as int);
                let fraction = a + 1 < src.len() && src[a] == '.' && is_digit_char(src[a + 1]);
                &&& final(self).current == if fraction {
                    skip_digits(src, a + 1)
                } else {
                    a
                }
                &&& pushed_token(
                    old(self).tokens@,
                    final(self).tokens@,
                    TokenType::Number,
                    src.subrange(old(self).start as int, final(self).current as int),
                    None,
                    old(self).line,
                )
            }),
    {
        while is_digit(self.peek(0))
            invariant
                self.wf(),
                *self == (Scanner { current: self.current, ..*old(self) }),
                old(self).current <= self.current,
                skip_digits(self.source@, old(self).current as int) == skip_digits(
                    self.source@,
                    self.current as int,
                ),
            decreases self.source@.len() - self.current,
        {
            self.advance();
        }
        if self.peek(0) == '.' && is_digit(self.peek(1)) {
            let ghost a = self.current as int;
            self.advance();
            while is_digit(self.peek(0))
                invariant
                    self.wf(),
                    *self == (Scanner { current: self.current, ..*old(self) }),
                    a + 1 <= self.current,
                    skip_digits(self.source@, a + 1) == skip_digits(
                        self.source@,
                        self.current as int,
                    ),
                decreases self.source@.len() - self.current,
            {
                self.advance();
            }
        }
        self.add_token(TokenType::Number);
    }

    fn parse_identifier(&mut self)
        requires
            old(self).wf(),
            old(self).current == old(self).start + 1,
        ensures
            final(self).wf(),
            *final(self) == (Scanner {
                tokens: final(self).tokens,
                current: final(self).current,
                ..*old(self)
            }),
            ({
                let src = old(self).source@;
                &&& final(self).current == skip_alnum(src, old(self).current as int)
                &&& pushed_token(
                    old(self).tokens@,
                    final(self).tokens@,
                    spec_keyword_type(
                        src.subrange(old(self).start as int, final(self).current as int),
                    ),
                    src.subrange(old(self).start as int, final(self).current as int),
                    None,
                    old(self).line,
                )
            }),
    {
        while is_alphanumeric(self.peek(0))
            invariant
                self.wf(),
                *self == (Scanner { current: self.current, ..*old(self) }),
                old(self).current <= self.current,
                skip_alnum(self.source@, old(self).current as int) == skip_alnum(
                    self.source@,
                    self.current as int,
                ),
            decreases self.source@.len() - self.current,
        {
            self.advance();
        }
        let lexeme = self.current_lexeme();
        let token_type = keyword_type(&lexeme);
        self.add_token(token_type);
    }

    fn scan_token(&mut self)
        requires
            old(self).wf(),
            old(self).current < old(self).source@.len(),
            old(self).start == old(self).current,
        ensures
            final(self).wf(),
            Scanner::scan_step(*old(self), *final(self)),
    {
        let c = self.advance();
        match c {
            '(' => self.add_token(TokenType::LeftParen),
            ')' => self.add_token(TokenType::RightParen),
            '{' => self.add_token(TokenType::LeftBrace),
            '}' => self.add_token(TokenType::RightBrace),
            ',' => self.add_token(TokenType::Comma),
            '.' => self.add_token(TokenType::Dot),
            '-' => self.add_token(TokenType::Minus),
            '+' => self.add_token(TokenType::Plus),
            ';' => self.add_token(TokenType::Semicolon),
            '*' => self.add_token(TokenType::Star),
            '!' => {
                let tt = if self.match_('=') {
                    TokenType::BangEqual
                } else {
                    TokenType::Bang
                };
                self.add_token(tt);
            },
            '=' => {
                let tt = if self.match_('=') {
                    TokenType::EqualEqual
                } else {
                    TokenType::Equal
                };
                self.add_token(tt);
            },
            '<' => {
                let tt = if self.match_('=') {
                    TokenType::LessEqual
                } else {
                    TokenType::Less
                };
                self.add_token(tt);
            },
            '>' => {
                let tt = if self.match_('=') {
                    TokenType::GreaterEqual
                } else {
                    TokenType::Greater
                };
                self.add_token(tt);
            },
            '/' => {
                if self.match_('/') {
                    let ghost j = self.current as int;
                    while self.peek(0) != '\n' && !self.is_at_end()
                        invariant
                            self.wf(),
                            *self == (Scanner { current: self.current, ..*old(self) }),
                            j <= self.current,
                            scan_find(self.source@, j, '\n') == scan_find(
                                self.source@,
                                self.current as int,
                                '\n',
                            ),
                        decreases self.source@.len() - self.current,
                    {
                        self.advance();
                    }
                } else {
                    self.add_token(TokenType::Slash);
                }
            },
            ' ' | '\r' | '\t' => {},
            '\n' => self.bump_line(),
            '"' => self.parse_string(),
            _ => {
                if is_digit(c) {
                    self.parse_number();
                } else if is_alpha(c) {
                    self.parse_identifier();
                } else {
                    let mut message = String::from_str("Unexpected character: ");
                    let mut one: Vec<char> = Vec::new();
                    one.push(c);
                    message.append(chars_to_string(&one, 0, 1).as_str());
                    let d = error(self.line, message);
                    self.diagnostics.push(d);
                    proof {
                        assert(self.diagnostics@.subrange(0, old(self).diagnostics@.len() as int)
                            =~= old(self).diagnostics@);
                        assert(one@.subrange(0, 1) =~= seq![c]);
                    }
                }
            },
        }
        proof {
            let src = old(self).source@;
            let i = old(self).current as int;
            lemma_scan_find_bounds(src, i + 1, '"');
            lemma_scan_find_bounds(src, i + 2, '\n');
            if is_digit_char(src[i]) {
                lemma_skip_digits_bounds(src, i + 1);
                let a = skip_digits(src, i);
                lemma_skip_digits_bounds(src, a + 1);
            }
            if is_alpha_char(src[i]) {
                lemma_skip_alnum_bounds(src, i + 1);
            }
        }
    }

    pub fn scan_tokens(&mut self) -> (r: Result<Vec<Token>, Vec<Diagnostic>>)
        requires
            old(self).wf(),
            old(self).current == 0,
            old(self).line == 1,
            old(self).tokens@.len() == 0,
            old(self).diagnostics@.len() == 0,
        ensures
            ({
                let m = scan_model(old(self).source@, 0, 1);
                match r {
                    Ok(tokens) => {
                        &&& m.diags.len() == 0
                        &&& models_of(tokens@) == m.tokens.push(
                            TokenModel {
                                token_type: TokenType::Eof,
                                lexeme: Seq::empty(),
                                literal: None,
                                line: m.line,
                            },
                        )
                        &&& tokens@.len() >= 1
                        &&& tokens@[tokens@.len() - 1].token_type == TokenType::Eof
                        &&& tokens@[tokens@.len() - 1].lexeme@ == Seq::<char>::empty()
                        &&& forall|k: int|
                            0 <= k < tokens@.len() - 1 ==> (#[trigger] tokens@[k].token_type)
                                != TokenType::Eof
                    },
                    Err(diags) => {
                        &&& diag_models(diags@) == m.diags
                        &&& diags@.len() >= 1
                    },
                }
            }),
    {
        proof {
            assert(models_of(self.tokens@) =~= Seq::<TokenModel>::empty());
            assert(diag_models(self.diagnostics@) =~= Seq::<DiagModel>::empty());
        }
        while !self.is_at_end()
            invariant
                self.wf(),
                self.source@ == old(self).source@,
                forall|k: int|
                    0 <= k < self.tokens@.len() ==> (#[trigger] self.tokens@[k].token_type)
                        != TokenType::Eof,
                scan_model(old(self).source@, 0, 1).tokens == models_of(self.tokens@)
                    + scan_model(self.source@, self.current as int, self.line).tokens,
                scan_model(old(self).source@, 0, 1).diags == diag_models(self.diagnostics@)
                    + scan_model(self.source@, self.current as int, self.line).diags,
                scan_model(old(self).source@, 0, 1).line == scan_model(
                    self.source@,
                    self.current as int,
                    self.line,
                ).line,
            decreases self.source@.len() - self.current,
        {
            self.start = self.current;
            let ghost pre = *self;
            self.scan_token();
            proof {
                lemma_step_tokens(pre, *self);
                lemma_step_model_in_range(pre.source@, pre.current as int, pre.line);
                lemma_step_realizes_model(pre, *self);
                let m = step_model(pre.source@, pre.current as int, pre.line);
                match m.token {
                    Some(tm) => {
                        assert(models_of(pre.tokens@).push(tm) =~= models_of(pre.tokens@)
                            + seq![tm]);
                    },
                    None => {
                        assert(scan_model(pre.source@, pre.current as int, pre.line).tokens
                            =~= scan_model(self.source@, self.current as int, self.line).tokens);
                    },
                }
                match m.diag {
                    Some(dm) => {
                        assert(diag_models(pre.diagnostics@).push(dm) =~= diag_models(
                            pre.diagnostics@,
                        ) + seq![dm]);
                    },
                    None => {
                        assert(scan_model(pre.source@, pre.current as int, pre.line).diags
                            =~= scan_model(self.source@, self.current as int, self.line).diags);
                    },
                }
                assert forall|k: int| 0 <= k < self.tokens@.len() implies (
                #[trigger] self.tokens@[k].token_type) != TokenType::Eof by {
                    if k < pre.tokens@.len() {
                        assert(self.tokens@.subrange(0, pre.tokens@.len() as int)[k]
                            == self.tokens@[k]);
                    }
                }
            }
        }
        proof {
            assert(scan_model(self.source@, self.current as int, self.line).tokens
                =~= Seq::<TokenModel>::empty());
            assert(scan_model(self.source@, self.current as int, self.line).diags
                =~= Seq::<DiagModel>::empty());
            assert(models_of(self.tokens@) + Seq::<TokenModel>::empty() =~= models_of(
                self.tokens@,
            ));
            assert(diag_models(self.diagnostics@) + Seq::<DiagModel>::empty() =~= diag_models(
                self.diagnostics@,
            ));
        }
        let ghost scanned = *self;
        let eof = Token::new(TokenType::Eof, String::new(), self.line);
        self.tokens.push(eof);
        proof {
            assert(models_of(self.tokens@) =~= models_of(scanned.tokens@).push(
                TokenModel {
                    token_type: TokenType::Eof,
                    lexeme: Seq::empty(),
                    literal: None,
                    line: scanned.line,
                },
            ));
        }
        if self.diagnostics.len() > 0 {
            let mut diags: Vec<Diagnostic> = Vec::new();
            core::mem::swap(&mut diags, &mut self.diagnostics);
            Err(diags)
        } else {
            let mut tokens: Vec<Token> = Vec::new();
            core::mem::swap(&mut tokens, &mut self.tokens);
            Ok(tokens)
        }
    }
}

proof fn lemma_scan_find_bounds(src: Seq<char>, from: int, c: char)
    requires
        0 <= from,
    ensures
        scan_find(src, from, c) <= src.len(),
        from <= src.len() ==> from <= scan_find(src, from, c),
    decreases src.len() - from,
{
    if from < src.len() && src[from] != c {
        lemma_scan_find_bounds(src, from + 1, c);
    }
}

proof fn lemma_skip_digits_bounds(src: Seq<char>, from: int)
    requires
        0 <= from,
    ensures
        skip_digits(src, from) <= src.len(),
        from <= src.len() ==> from <= skip_digits(src, from),
    decreases src.len() - from,
{
    if from < src.len() && is_digit_char(src[from]) {
        lemma_skip_digits_bounds(src, from + 1);
    }
}

proof fn lemma_skip_alnum_bounds(src: Seq<char>, from: int)
    requires
        0 <= from,
    ensures
        skip_alnum(src, from) <= src.len(),
        from <= src.len() ==> from <= skip_alnum(src, from),
    decreases src.len() - from,
{
    if from < src.len() && is_alphanumeric_char(src[from]) {
        lemma_skip_alnum_bounds(src, from + 1);
    }
}

proof fn lemma_step_tokens(pre: Scanner, post: Scanner)
    requires
        pre.wf(),
        pre.current < pre.source@.len(),
        Scanner::scan_step(pre, post),
    ensures
        post.tokens@.len() >= pre.tokens@.len(),
        post.tokens@.subrange(0, pre.tokens@.len() as int) == pre.tokens@,
        forall|k: int|
            pre.tokens@.len() <= k < post.tokens@.len() ==> (#[trigger] post.tokens@[k].token_type)
                != TokenType::Eof,
{
    if post.tokens@ == pre.tokens@ {
        assert(post.tokens@.subrange(0, pre.tokens@.len() as int) =~= pre.tokens@);
    }
}

fn is_digit(c: char) -> (r: bool)
    ensures
        r == is_digit_char(c),
{
    let u = c as u32;
    48 <= u && u <= 57
}

fn is_alpha(c: char) -> (r: bool)
    ensures
        r == is_alpha_char(c),
{
    let u = c as u32;
    (65 <= u && u <= 90) || (97 <= u && u <= 122) || c == '_'
}

fn is_alphanumeric(c: char) -> (r: bool)
    ensures
        r == is_alphanumeric_char(c),
{
    is_alpha(c) || is_digit(c)
}

fn keyword_type(lexeme: &String) -> (r: TokenType)
    ensures
        r == spec_keyword_type(lexeme@),
{
    let s = lexeme.as_str();
    if str_eq(s, "and") {
        TokenType::And
    } else if str_eq(s, "class") {
        TokenType::Class
    } else if str_eq(s, "else") {
        TokenType::Else
    } else if str_eq(s, "false") {
        TokenType::False
    } else if str_eq(s, "fun") {
        TokenType::Fun
    } else if str_eq(s, "for") {
        TokenType::For
    } else if str_eq(s, "if") {
        TokenType::If
    } else if str_eq(s, "nil") {
        TokenType::Nil
    } else if str_eq(s, "or") {
        TokenType::Or
    } else if str_eq(s, "print") {
        TokenType::Print
    } else if str_eq(s, "return") {
        TokenType::Return
    } else if str_eq(s, "super") {
        TokenType::Super
    } else if str_eq(s, "this") {
        TokenType::This
    } else if str_eq(s, "true") {
        TokenType::True
    } else if str_eq(s, "var") {
        TokenType::Var
    } else if str_eq(s, "while") {
        TokenType::While
    } else {
        TokenType::Identifier
    }
}

} // verus!
