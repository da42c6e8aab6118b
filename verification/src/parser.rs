use vstd::prelude::*;

use crate::error::{parser_error, Diagnostic, ParseError};
use crate::expression::{Expr, Literal};
use crate::statement::Stmt;
use crate::token::{Token, TokenType};

verus! {

broadcast use vstd::std_specs::vec::group_vec_axioms;

/// Recursive-descent parser state: the token list (ending in `Eof`), the
/// cursor, and the syntax problems reported so far.
pub struct Parser {
    pub tokens: Vec<Token>,
    pub current: usize,
    pub diagnostics: Vec<Diagnostic>,
}

impl Parser {
    pub open spec fn wf(&self) -> bool {
        &&& 1 <= self.tokens@.len() <= usize::MAX
        &&& self.tokens@.last().token_type == TokenType::Eof
        &&& self.current < self.tokens@.len()
    }

    /// What every parsing step preserves: the tokens themselves, forward
    /// motion of the cursor, and the diagnostics already reported.
    pub open spec fn frame(pre: Parser, post: Parser) -> bool {
        &&& post.tokens@ == pre.tokens@
        &&& post.current >= pre.current
        &&& post.diagnostics@.len() >= pre.diagnostics@.len()
    }

    pub fn new(tokens: &Vec<Token>) -> (r: Self)
        requires
            tokens@.len() >= 1,
            tokens@.last().token_type == TokenType::Eof,
        ensures
            r.wf(),
            r.tokens@ == tokens@,
            r.current == 0,
            r.diagnostics@ == Seq::<Diagnostic>::empty(),
    {
        let mut copied: Vec<Token> = Vec::new();
        let mut i: usize = 0;
        while i < tokens.len()
            invariant
                i <= tokens@.len(),
                copied@.len() == i,
                forall|k: int| 0 <= k < i ==> copied@[k] == tokens@[k],
            decreases tokens@.len() - i,
        {
            copied.push(tokens[i].clone());
            i = i + 1;
        }
        proof {
            assert(copied@ =~= tokens@);
        }
        Parser { tokens: copied, current: 0, diagnostics: Vec::new() }
    }

    fn peek(&self) -> (t: &Token)
        requires
            self.wf(),
        ensures
            *t == self.tokens@[self.current as int],
    {
        &self.tokens[self.current]
    }

    fn previous(&self) -> (t: Token)
        requires
            self.wf(),
            self.current >= 1,
        ensures
            t == self.tokens@[self.current - 1],
    {
        self.tokens[self.current - 1].clone()
    }

    fn is_at_end(&self) -> (r: bool)
        requires
            self.wf(),
        ensures
            r == (self.tokens@[self.current as int].token_type == TokenType::Eof),
    {
        self.peek().token_type == TokenType::Eof
    }

    fn advance(&mut self) -> (t: Token)
        requires
            old(self).wf(),
            old(self).current >= 1 || old(self).tokens@[old(self).current as int].token_type
                != TokenType::Eof,
        ensures
            final(self).wf(),
            final(self).tokens@ == old(self).tokens@,
            final(self).diagnostics@ == old(self).diagnostics@,
            ({
                let c = old(self).current as int;
                if old(self).tokens@[c].token_type != TokenType::Eof {
                    final(self).current == c + 1 && t == old(self).tokens@[c]
                } else {
                    final(self).current == c && t == old(self).tokens@[c - 1]
                }
            }),
    {
        if !self.is_at_end() {
            let _bound = self.tokens.len();
            self.current = self.current + 1;
        }
        self.previous()
    }

    fn check(&self, token_type: TokenType) -> (r: bool)
        requires
            self.wf(),
        ensures
            r == (self.tokens@[self.current as int].token_type != TokenType::Eof
                && self.tokens@[self.current as int].token_type == token_type),
    {
        if self.is_at_end() {
            false
        } else {
            self.peek().token_type == token_type
        }
    }

    fn match_(&mut self, types: &[TokenType]) -> (r: bool)
        requires
            old(self).wf(),
        ensures
            final(self).wf(),
            final(self).tokens@ == old(self).tokens@,
            final(self).diagnostics@ == old(self).diagnostics@,
            r ==> {
                &&& old(self).tokens@[old(self).current as int].token_type != TokenType::Eof
                &&& types@.contains(old(self).tokens@[old(self).current as int].token_type)
                &&& final(self).current == old(self).current + 1
            },
            !r ==> *final(self) == *old(self) && (old(self).tokens@[old(
                self,
            ).current as int].token_type == TokenType::Eof || !types@.contains(
                old(self).tokens@[old(self).current as int].token_type,
            )),
    {
        let mut i: usize = 0;
        while i < types.len()
            invariant
                self.wf(),
                *self == *old(self),
                i <= types@.len(),
                forall|k: int|
                    0 <= k < i ==> !(self.tokens@[self.current as int].token_type
                        != TokenType::Eof && (#[trigger] types@[k])
                        == self.tokens@[self.current as int].token_type),
            decreases types@.len() - i,
        {
            if self.check(types[i]) {
                let _bound = self.tokens.len();
                self.current = self.current + 1;
                return true;
            }
            i = i + 1;
        }
        false
    }

    /// Reports a syntax problem at a token and hands back the matching
    /// parse error; parsing goes on so that one run collects them all.
    fn error(&mut self, token: &Token, message: &str) -> (r: ParseError)
        requires
            old(self).wf(),
        ensures
            final(self).wf(),
            final(self).tokens@ == old(self).tokens@,
            final(self).current == old(self).current,
            final(self).diagnostics@.len() == old(self).diagnostics@.len() + 1,
            final(self).diagnostics@.subrange(0, old(self).diagnostics@.len() as int) == old(
                self,
            ).diagnostics@,
            r.token == *token,
            r.message@ == message@,
    {
        let d = parser_error(token, String::from_str(message));
        self.diagnostics.push(d);
        proof {
            assert(self.diagnostics@.subrange(0, old(self).diagnostics@.len() as int) =~= old(
                self,
            ).diagnostics@);
        }
        ParseError { token: token.clone(), message: String::from_str(message) }
    }

    fn consume(&mut self, token_type: TokenType, message: &str) -> (r: Result<Token, ParseError>)
        requires
            old(self).wf(),
        ensures
            final(self).wf(),
            final(self).tokens@ == old(self).tokens@,
            match r {
                Ok(t) => {
                    &&& old(self).tokens@[old(self).current as int].token_type != TokenType::Eof
                    &&& old(self).tokens@[old(self).current as int].token_type == token_type
                    &&& t == old(self).tokens@[old(self).current as int]
                    &&& final(self).current == old(self).current + 1
                    &&& final(self).diagnostics@ == old(self).diagnostics@
                },
                Err(e) => {
                    &&& old(self).tokens@[old(self).current as int].token_type == TokenType::Eof
                        || old(self).tokens@[old(self).current as int].token_type != token_type
                    &&& final(self).current == old(self).current
                    &&& final(self).diagnostics@.len() == old(self).diagnostics@.len() + 1
                    &&& e.token == old(self).tokens@[old(self).current as int]
                    &&& e.message@ == message@
                },
            },
    {
        if !self.check(token_type) {
            let t = self.peek().clone();
            return Err(self.error(&t, message));
        }
        Ok(self.advance())
    }

    /// What every sub-parser promises: the frame is kept, the parser stays
    /// well formed, success consumes at least one token, and failure
    /// reports at least one fresh diagnostic.
    pub open spec fn parsed(pre: Parser, post: Parser, ok: bool) -> bool {
        &&& Parser::frame(pre, post)
        &&& post.wf()
        &&& (ok ==> post.current > pre.current)
        &&& (!ok ==> post.diagnostics@.len() > pre.diagnostics@.len())
    }

    fn expression(&mut self) -> (r: Result<Expr, ParseError>)
        requires
            old(self).wf(),
        ensures
            Parser::parsed(*old(self), *final(self), r is Ok),
        decreases self.tokens@.len() - self.current, 11int,
    {
        self.assignment()
    }

    /// Assignment is right-associative and only a bare variable reference
    /// is a valid target; any other target is reported, and the parsed
    /// expression still comes back so parsing can continue.
    fn assignment(&mut self) -> (r: Result<Expr, ParseError>)
        requires
            old(self).wf(),
        ensures
            Parser::parsed(*old(self), *final(self), r is Ok),
        decreases self.tokens@.len() - self.current, 10int,
    {
        let expr = self.or()?;
        if self.match_(&[TokenType::Equal]) {
            let equals = self.previous();
            let value = self.assignment()?;
            match expr {
                Expr::Variable { name } => {
                    return Ok(Expr::Assign { name, value: Box::new(value) });
                },
                _ => {
                    let _discarded = self.error(&equals, "Invalid assignment target.");
                    return Ok(expr);
                },
            }
        }
        Ok(expr)
    }

    fn or(&mut self) -> (r: Result<Expr, ParseError>)
        requires
            old(self).wf(),
        ensures
            Parser::parsed(*old(self), *final(self), r is Ok),
        decreases self.tokens@.len() - self.current, 9int,
    {
        let mut expr = self.and()?;
        loop
            invariant
                self.wf(),
                Parser::frame(*old(self), *self),
                self.current > old(self).current,
            ensures
                self.wf(),
                Parser::frame(*old(self), *self),
                self.current > old(self).current,
            decreases self.tokens@.len() - self.current,
        {
            if !self.match_(&[TokenType::Or]) {
                break;
            }
            let operator = self.previous();
            let right = self.and()?;
            expr = Expr::Logical { left: Box::new(expr), operator, right: Box::new(right) };
        }
        Ok(expr)
    }

    fn and(&mut self) -> (r: Result<Expr, ParseError>)
        requires
            old(self).wf(),
        ensures
            Parser::parsed(*old(self), *final(self), r is Ok),
        decreases self.tokens@.len() - self.current, 8int,
    {
        let mut expr = self.equality()?;
        loop
            invariant
                self.wf(),
                Parser::frame(*old(self), *self),
                self.current > old(self).current,
            ensures
                self.wf(),
                Parser::frame(*old(self), *self),
                self.current > old(self).current,
            decreases self.tokens@.len() - self.current,
        {
            if !self.match_(&[TokenType::And]) {
                break;
            }
            let operator = self.previous();
            let right = self.equality()?;
            expr = Expr::Logical { left: Box::new(expr), operator, right: Box::new(right) };
        }
        Ok(expr)
    }

    fn equality(&mut self) -> (r: Result<Expr, ParseError>)
        requires
            old(self).wf(),
        ensures
            Parser::parsed(*old(self), *final(self), r is Ok),
        decreases self.tokens@.len() - self.current, 7int,
    {
        let mut expr = self.comparison()?;
        loop
            invariant
                self.wf(),
                Parser::frame(*old(self), *self),
                self.current > old(self).current,
            ensures
                self.wf(),
                Parser::frame(*old(self), *self),
                self.current > old(self).current,
            decreases self.tokens@.len() - self.current,
        {
            if !self.match_(&[TokenType::BangEqual, TokenType::EqualEqual]) {
                break;
            }
            let operator = self.previous();
            let right = self.comparison()?;
            expr = Expr::Binary { left: Box::new(expr), operator, right: Box::new(right) };
        }
        Ok(expr)
    }

    fn comparison(&mut self) -> (r: Result<Expr, ParseError>)
        requires
            old(self).wf(),
        ensures
            Parser::parsed(*old(self), *final(self), r is Ok),
        decreases self.tokens@.len() - self.current, 6int,
    {
        let mut expr = self.term()?;
        loop
            invariant
                self.wf(),
                Parser::frame(*old(self), *self),
                self.current > old(self).current,
            ensures
                self.wf(),
                Parser::frame(*old(self), *self),
                self.current > old(self).current,
            decreases self.tokens@.len() - self.current,
        {
            if !self.match_(
                &[
                    TokenType::Greater,
                    TokenType::GreaterEqual,
                    TokenType::Less,
                    TokenType::LessEqual,
                ],
            ) {
                break;
            }
            let operator = self.previous();
            let right = self.term()?;
            expr = Expr::Binary { left: Box::new(expr), operator, right: Box::new(right) };
        }
        Ok(expr)
    }

    fn term(&mut self) -> (r: Result<Expr, ParseError>)
        requires
            old(self).wf(),
        ensures
            Parser::parsed(*old(self), *final(self), r is Ok),
        decreases self.tokens@.len() - self.current, 5int,
    {
        let mut expr = self.factor()?;
        loop
            invariant
                self.wf(),
                Parser::frame(*old(self), *self),
                self.current > old(self).current,
            ensures
                self.wf(),
                Parser::frame(*old(self), *self),
                self.current > old(self).current,
            decreases self.tokens@.len() - self.current,
        {
            if !self.match_(&[TokenType::Minus, TokenType::Plus]) {
                break;
            }
            let operator = self.previous();
            let right = self.factor()?;
            expr = Expr::Binary { left: Box::new(expr), operator, right: Box::new(right) };
        }
        Ok(expr)
    }

    fn factor(&mut self) -> (r: Result<Expr, ParseError>)
        requires
            old(self).wf(),
        ensures
            Parser::parsed(*old(self), *final(self), r is Ok),
        decreases self.tokens@.len() - self.current, 4int,
    {
        let mut expr = self.unary()?;
        loop
            invariant
                self.wf(),
                Parser::frame(*old(self), *self),
                self.current > old(self).current,
            ensures
                self.wf(),
                Parser::frame(*old(self), *self),
                self.current > old(self).current,
            decreases self.tokens@.len() - self.current,
        {
            if !self.match_(&[TokenType::Slash, TokenType::Star]) {
                break;
            }
            let operator = self.previous();
            let right = self.unary()?;
            expr = Expr::Binary { left: Box::new(expr), operator, right: Box::new(right) };
        }
        Ok(expr)
    }

    fn unary(&mut self) -> (r: Result<Expr, ParseError>)
        requires
            old(self).wf(),
        ensures
            Parser::parsed(*old(self), *final(self), r is Ok),
        decreases self.tokens@.len() - self.current, 3int,
    {
        if self.match_(&[TokenType::Bang, TokenType::Minus]) {
            let operator = self.previous();
            let right = self.unary()?;
            Ok(Expr::Unary { operator, right: Box::new(right) })
        } else {
            self.call()
        }
    }

    fn call(&mut self) -> (r: Result<Expr, ParseError>)
        requires
            old(self).wf(),
        ensures
            Parser::parsed(*old(self), *final(self), r is Ok),
        decreases self.tokens@.len() - self.current, 2int,
    {
        let mut expr = self.primary()?;
        loop
            invariant
                self.wf(),
                Parser::frame(*old(self), *self),
                self.current > old(self).current,
            ensures
                self.wf(),
                Parser::frame(*old(self), *self),
                self.current > old(self).current,
            decreases self.tokens@.len() - self.current,
        {
            if !self.match_(&[TokenType::LeftParen]) {
                break;
            }
            expr = self.finish_call(expr)?;
        }
        Ok(expr)
    }

    /// Parses the comma-separated arguments and closing parenthesis of a
    /// call whose callee and opening parenthesis are already consumed:
    /// the node built is a call of exactly that callee, whose paren field
    /// is the consumed closing parenthesis (kept for error locations). A
    /// list beyond 255 arguments is reported but not rejected.
    fn finish_call(&mut self, callee: Expr) -> (r: Result<Expr, ParseError>)
        requires
            old(self).wf(),
        ensures
            Parser::frame(*old(self), *final(self)),
            final(self).wf(),
            r is Err ==> final(self).diagnostics@.len() > old(self).diagnostics@.len(),
            r matches Ok(e) ==> (e matches Expr::Call { callee: c, paren, .. } && *c == callee
                && paren.token_type == TokenType::RightParen && final(self).current >= 1 && paren
                == final(self).tokens@[final(self).current - 1]),
        decreases self.tokens@.len() - self.current, 12int,
    {
        let mut arguments: Vec<Expr> = Vec::new();
        if !self.check(TokenType::RightParen) {
            let first = self.expression()?;
            arguments.push(first);
            loop
                invariant
                    self.wf(),
                    Parser::frame(*old(self), *self),
                    self.current > old(self).current,
                ensures
                    self.wf(),
                    Parser::frame(*old(self), *self),
                    self.current > old(self).current,
                decreases self.tokens@.len() - self.current,
            {
                if !self.match_(&[TokenType::Comma]) {
                    break;
                }
                if arguments.len() >= 255 {
                    let t = self.peek().clone();
                    let _discarded = self.error(&t, "Can't have more than 255 arguments.");
                }
                let next = self.expression()?;
                arguments.push(next);
            }
        }
        let paren = self.consume(TokenType::RightParen, "Expect ')' after arguments.")?;
        Ok(Expr::Call { callee: Box::new(callee), paren, arguments })
    }

    /// The leaves of the grammar: the token under the cursor decides the
    /// node, exactly — `false`/`true`/`nil` become their literals, a
    /// number literal carries the token's digits, a string literal its
    /// payload, an identifier a variable reference to its own token, `(`
    /// opens a grouping (consumed before the inner expression is parsed),
    /// and any other token is the `Expect expression.` report.
    fn primary(&mut self) -> (r: Result<Expr, ParseError>)
        requires
            old(self).wf(),
        ensures
            Parser::parsed(*old(self), *final(self), r is Ok),
            ({
                let t = old(self).tokens@[old(self).current as int];
                &&& (t.token_type == TokenType::False ==> r == Ok::<Expr, ParseError>(
                    Expr::Literal { value: Literal::False },
                ) && final(self).current == old(self).current + 1)
                &&& (t.token_type == TokenType::True ==> r == Ok::<Expr, ParseError>(
                    Expr::Literal { value: Literal::True },
                ) && final(self).current == old(self).current + 1)
                &&& (t.token_type == TokenType::Nil ==> r == Ok::<Expr, ParseError>(
                    Expr::Literal { value: Literal::Nil },
                ) && final(self).current == old(self).current + 1)
                &&& (t.token_type == TokenType::Number ==> (r matches Ok(Expr::Literal {
                    value: Literal::Number { text },
                }) && text@ == t.lexeme@ && final(self).current == old(self).current + 1))
                &&& (t.token_type == TokenType::Str ==> (r matches Ok(Expr::Literal {
                    value: Literal::Str { value: payload },
                }) && (t.literal matches Some(p) ==> payload@ == p@) && final(self).current
                    == old(self).current + 1))
                &&& (t.token_type == TokenType::Identifier ==> (r matches Ok(Expr::Variable {
                    name,
                }) && name == t && final(self).current == old(self).current + 1))
                &&& (t.token_type == TokenType::LeftParen ==> (r matches Ok(e) ==> e is Grouping))
                &&& (!(t.token_type == TokenType::False || t.token_type == TokenType::True
                    || t.token_type == TokenType::Nil || t.token_type == TokenType::Number
                    || t.token_type == TokenType::Str || t.token_type == TokenType::Identifier
                    || t.token_type == TokenType::LeftParen) ==> (r matches Err(e) && e.token == t
                    && e.message@ == "Expect expression."@ && final(self).current == old(
                    self,
                ).current && final(self).diagnostics@.len() == old(self).diagnostics@.len() + 1))
            }),
        decreases self.tokens@.len() - self.current, 1int,
    {
        let current_token = self.peek().clone();
        let expr = match current_token.token_type {
            TokenType::False => Expr::Literal { value: Literal::False },
            TokenType::True => Expr::Literal { value: Literal::True },
            TokenType::Nil => Expr::Literal { value: Literal::Nil },
            TokenType::Number => Expr::Literal {
                value: Literal::Number { text: current_token.lexeme.clone() },
            },
            TokenType::Str => Expr::Literal {
                value: Literal::Str {
                    value: match &current_token.literal {
                        Some(s) => s.clone(),
                        None => String::new(),
                    },
                },
            },
            TokenType::Identifier => Expr::Variable { name: current_token.clone() },
            TokenType::LeftParen => {
                self.advance();
                let inner = self.expression()?;
                self.consume(TokenType::RightParen, "Expect ')' after expression.")?;
                return Ok(Expr::Grouping { expression: Box::new(inner) });
            },
            _ => {
                return Err(self.error(&current_token, "Expect expression."));
            },
        };
        self.advance();
        Ok(expr)
    }

    /// Parses one declaration; a declaration that fails to parse is
    /// dropped after synchronizing, so one bad statement costs about one
    /// diagnostic and parsing resumes at the next statement boundary.
    fn declaration(&mut self) -> (r: Option<Stmt>)
        requires
            old(self).wf(),
            old(self).current >= 1 || old(self).tokens@[old(self).current as int].token_type
                != TokenType::Eof,
        ensures
            final(self).wf(),
            Parser::frame(*old(self), *final(self)),
            (old(self).tokens@[old(self).current as int].token_type != TokenType::Eof
                ==> final(self).current > old(self).current),
            r is None ==> final(self).diagnostics@.len() > old(self).diagnostics@.len(),
        decreases self.tokens@.len() - self.current, 15int,
    {
        let stmt = if self.match_(&[TokenType::Fun]) {
            self.function("function")
        } else if self.match_(&[TokenType::Var]) {
            self.var_declaration()
        } else {
            self.statement()
        };
        match stmt {
            Err(_discarded) => {
                self.synchronize();
                None
            },
            Ok(stmt) => Some(stmt),
        }
    }

    fn statement(&mut self) -> (r: Result<Stmt, ParseError>)
        requires
            old(self).wf(),
        ensures
            Parser::parsed(*old(self), *final(self), r is Ok),
        decreases self.tokens@.len() - self.current, 14int,
    {
        if self.match_(&[TokenType::For]) {
            self.for_statement()
        } else if self.match_(&[TokenType::If]) {
            self.if_statement()
        } else if self.match_(&[TokenType::Print]) {
            self.print_statement()
        } else if self.match_(&[TokenType::Return]) {
            self.return_statement()
        } else if self.match_(&[TokenType::While]) {
            self.while_statement()
        } else if self.match_(&[TokenType::LeftBrace]) {
            let statements = self.block()?;
            Ok(Stmt::Block { statements })
        } else {
            self.expression_statement()
        }
    }

    /// A `for` loop is parsed and at once rewritten into simpler forms:
    /// whatever it returns has the desugared shape — a `while` over the
    /// parsed pieces, block-wrapped as `desugar_for` lays down — so no
    /// `for` form ever reaches the evaluator.
    fn for_statement(&mut self) -> (r: Result<Stmt, ParseError>)
        requires
            old(self).wf(),
        ensures
            Parser::frame(*old(self), *final(self)),
            final(self).wf(),
            r is Err ==> final(self).diagnostics@.len() > old(self).diagnostics@.len(),
            r matches Ok(rewritten) ==> exists|
                initializer: Option<Stmt>,
                condition: Option<Expr>,
                increment: Option<Expr>,
                body: Stmt,
            | is_for_desugaring(initializer, condition, increment, body, rewritten),
        decreases self.tokens@.len() - self.current, 14int,
    {
        self.consume(TokenType::LeftParen, "Expect '(' after 'for'.")?;
        let initializer = if self.match_(&[TokenType::Semicolon]) {
            None
        } else if self.match_(&[TokenType::Var]) {
            Some(self.var_declaration()?)
        } else {
            Some(self.expression_statement()?)
        };
        let condition = if self.check(TokenType::Semicolon) {
            None
        } else {
            Some(self.expression()?)
        };
        self.consume(TokenType::Semicolon, "Expect ';' after loop condition.")?;
        let increment = if self.check(TokenType::RightParen) {
            None
        } else {
            Some(self.expression()?)
        };
        self.consume(TokenType::RightParen, "Expect ')' after for clauses.")?;
        let body = self.statement()?;
        Ok(desugar_for(initializer, condition, increment, body))
    }

    /// An `else` binds to the nearest unmatched `if`: it is taken by the
    /// innermost call that sees it next.
    fn if_statement(&mut self) -> (r: Result<Stmt, ParseError>)
        requires
            old(self).wf(),
        ensures
            Parser::frame(*old(self), *final(self)),
            final(self).wf(),
            r is Err ==> final(self).diagnostics@.len() > old(self).diagnostics@.len(),
        decreases self.tokens@.len() - self.current, 14int,
    {
        self.consume(TokenType::LeftParen, "Expect '(' after 'if'.")?;
        let condition = self.expression()?;
        self.consume(TokenType::RightParen, "Expect ')' after 'if'.")?;
        let then_branch = self.statement()?;
        let mut else_branch: Option<Box<Stmt>> = None;
        if self.match_(&[TokenType::Else]) {
            else_branch = Some(Box::new(self.statement()?));
        }
        Ok(Stmt::If { condition, then_branch: Box::new(then_branch), else_branch })
    }

    fn print_statement(&mut self) -> (r: Result<Stmt, ParseError>)
        requires
            old(self).wf(),
        ensures
            Parser::frame(*old(self), *final(self)),
            final(self).wf(),
            r is Err ==> final(self).diagnostics@.len() > old(self).diagnostics@.len(),
        decreases self.tokens@.len() - self.current, 14int,
    {
        let value = self.expression()?;
        self.consume(TokenType::Semicolon, "Expect ';' after value.")?;
        Ok(Stmt::Print { value })
    }

    fn return_statement(&mut self) -> (r: Result<Stmt, ParseError>)
        requires
            old(self).wf(),
            old(self).current >= 1,
        ensures
            Parser::frame(*old(self), *final(self)),
            final(self).wf(),
            r is Err ==> final(self).diagnostics@.len() > old(self).diagnostics@.len(),
        decreases self.tokens@.len() - self.current, 14int,
    {
        let keyword = self.previous();
        let value = if self.check(TokenType::Semicolon) {
            None
        } else {
            Some(self.expression()?)
        };
        self.consume(TokenType::Semicolon, "Expect ';' after return value.")?;
        Ok(Stmt::Return { keyword, value })
    }

    fn var_declaration(&mut self) -> (r: Result<Stmt, ParseError>)
        requires
            old(self).wf(),
        ensures
            Parser::frame(*old(self), *final(self)),
            final(self).wf(),
            r is Err ==> final(self).diagnostics@.len() > old(self).diagnostics@.len(),
        decreases self.tokens@.len() - self.current, 14int,
    {
        let name = self.consume(TokenType::Identifier, "Expect variable name.")?;
        let initializer = if self.match_(&[TokenType::Equal]) {
            Some(self.expression()?)
        } else {
            None
        };
        self.consume(TokenType::Semicolon, "Expect ';' after variable declaration.")?;
        Ok(Stmt::Var { name, initializer })
    }

    fn while_statement(&mut self) -> (r: Result<Stmt, ParseError>)
        requires
            old(self).wf(),
        ensures
            Parser::frame(*old(self), *final(self)),
            final(self).wf(),
            r is Err ==> final(self).diagnostics@.len() > old(self).diagnostics@.len(),
        decreases self.tokens@.len() - self.current, 14int,
    {
        self.consume(TokenType::LeftParen, "Expect '(' after 'while'.")?;
        let condition = self.expression()?;
        self.consume(TokenType::RightParen, "Expect ')' after condition.")?;
        let body = self.statement()?;
        Ok(Stmt::While { condition, body: Box::new(body) })
    }

    fn expression_statement(&mut self) -> (r: Result<Stmt, ParseError>)
        requires
            old(self).wf(),
        ensures
            Parser::parsed(*old(self), *final(self), r is Ok),
        decreases self.tokens@.len() - self.current, 13int,
    {
        let value = self.expression()?;
        self.consume(TokenType::Semicolon, "Expect ';' after value.")?;
        Ok(Stmt::Expression { value })
    }

    /// Parses a function declaration after its `fun` keyword: name,
    /// parenthesized parameters (a list beyond 255 is reported but not
    /// rejected) and a block body.
    fn function(&mut self, kind: &str) -> (r: Result<Stmt, ParseError>)
        requires
            old(self).wf(),
        ensures
            Parser::frame(*old(self), *final(self)),
            final(self).wf(),
            r is Err ==> final(self).diagnostics@.len() > old(self).diagnostics@.len(),
        decreases self.tokens@.len() - self.current, 14int,
    {
        let mut name_message = String::from_str("Expect ");
        name_message.append(kind);
        name_message.append(" name.");
        let name = self.consume(TokenType::Identifier, name_message.as_str())?;
        let mut paren_message = String::from_str("Expect '(' after ");
        paren_message.append(kind);
        paren_message.append(" name.");
        self.consume(TokenType::LeftParen, paren_message.as_str())?;
        let mut params: Vec<Token> = Vec::new();
        if !self.check(TokenType::RightParen) {
            let first = self.consume(TokenType::Identifier, "Expect parameter name.")?;
            params.push(first);
            loop
                invariant
                    self.wf(),
                    Parser::frame(*old(self), *self),
                    self.current > old(self).current,
                ensures
                    self.wf(),
                    Parser::frame(*old(self), *self),
                    self.current > old(self).current,
                decreases self.tokens@.len() - self.current,
            {
                if !self.match_(&[TokenType::Comma]) {
                    break;
                }
                if params.len() > 255 {
                    let t = self.peek().clone();
                    let _discarded = self.error(&t, "Can't have more than 255 parameters.");
                }
                let next = self.consume(TokenType::Identifier, "Expect parameter name.")?;
                params.push(next);
            }
        }
        self.consume(TokenType::RightParen, "Expect ')' after parameters.")?;
        let mut body_message = String::from_str("Expect '{' after ");
        body_message.append(kind);
        body_message.append(" body.");
        self.consume(TokenType::LeftBrace, body_message.as_str())?;
        let body = self.block()?;
        Ok(Stmt::Function { name, params, body })
    }

    fn block(&mut self) -> (r: Result<Vec<Stmt>, ParseError>)
        requires
            old(self).wf(),
        ensures
            Parser::frame(*old(self), *final(self)),
            final(self).wf(),
            r is Err ==> final(self).diagnostics@.len() > old(self).diagnostics@.len(),
        decreases self.tokens@.len() - self.current, 16int,
    {
        let mut statements: Vec<Stmt> = Vec::new();
        loop
            invariant
                self.wf(),
                Parser::frame(*old(self), *self),
            ensures
                self.wf(),
                Parser::frame(*old(self), *self),
            decreases self.tokens@.len() - self.current,
        {
            if self.check(TokenType::RightBrace) {
                break;
            }
            if self.is_at_end() {
                break;
            }
            if let Some(decl) = self.declaration() {
                statements.push(decl);
            }
        }
        self.consume(TokenType::RightBrace, "Expect '}' after block.")?;
        Ok(statements)
    }

    /// After a syntax error, discards tokens up to the nearest statement
    /// boundary — just past a semicolon, at a keyword that starts a
    /// statement, or at the end of input — and not a token further: no
    /// position strictly between the discarded token and the stop is a
    /// boundary.
    fn synchronize(&mut self)
        requires
            old(self).wf(),
            old(self).current >= 1 || old(self).tokens@[old(self).current as int].token_type
                != TokenType::Eof,
        ensures
            final(self).wf(),
            Parser::frame(*old(self), *final(self)),
            final(self).diagnostics@ == old(self).diagnostics@,
            (old(self).tokens@[old(self).current as int].token_type != TokenType::Eof
                ==> final(self).current > old(self).current),
            at_statement_boundary(final(self).tokens@, final(self).current as int),
            forall|p: int|
                old(self).current + 1 <= p < final(self).current ==> !at_statement_boundary(
                    final(self).tokens@,
                    p,
                ),
    {
        self.advance();
        loop
            invariant
                self.wf(),
                Parser::frame(*old(self), *self),
                self.current >= 1,
                self.tokens@ == old(self).tokens@,
                self.diagnostics@ == old(self).diagnostics@,
                old(self).tokens@[old(self).current as int].token_type != TokenType::Eof
                    ==> self.current > old(self).current,
                forall|p: int|
                    old(self).current + 1 <= p < self.current ==> !at_statement_boundary(
                        self.tokens@,
                        p,
                    ),
            ensures
                self.wf(),
                Parser::frame(*old(self), *self),
                self.diagnostics@ == old(self).diagnostics@,
                old(self).tokens@[old(self).current as int].token_type != TokenType::Eof
                    ==> self.current > old(self).current,
                at_statement_boundary(self.tokens@, self.current as int),
                forall|p: int|
                    old(self).current + 1 <= p < self.current ==> !at_statement_boundary(
                        self.tokens@,
                        p,
                    ),
            decreases self.tokens@.len() - self.current,
        {
            if self.is_at_end() {
                break;
            }
            if self.previous().token_type == TokenType::Semicolon {
                return;
            }
            match self.peek().token_type {
                TokenType::Class => {
                    return;
                },
                TokenType::Fun => {
                    return;
                },
                TokenType::Var => {
                    return;
                },
                TokenType::For => {
                    return;
                },
                TokenType::If => {
                    return;
                },
                TokenType::While => {
                    return;
                },
                TokenType::Print => {
                    return;
                },
                TokenType::Return => {
                    return;
                },
                _ => {
                    self.advance();
                },
            }
        }
    }

    /// Parses the whole token list into top-level declarations, and hands
    /// back the statements beside every syntax problem met on the way.
    /// Parsing never gives up: the cursor ends on the end marker, and a
    /// run over anything but bare end-of-input yields a statement or
    /// reports a fresh diagnostic — silently dropping the whole input is
    /// ruled out.
    pub fn parse(&mut self) -> (r: (Vec<Stmt>, Vec<Diagnostic>))
        requires
            old(self).wf(),
        ensures
            final(self).wf(),
            final(self).tokens@ == old(self).tokens@,
            final(self).tokens@[final(self).current as int].token_type == TokenType::Eof,
            final(self).diagnostics@.len() == 0,
            r.1@.len() >= old(self).diagnostics@.len(),
            old(self).tokens@[old(self).current as int].token_type != TokenType::Eof ==> (
            r.0@.len() >= 1 || r.1@.len() > old(self).diagnostics@.len()),
    {
        let mut statements: Vec<Stmt> = Vec::new();
        loop
            invariant
                self.wf(),
                Parser::frame(*old(self), *self),
                self.current > old(self).current ==> (statements@.len() >= 1
                    || self.diagnostics@.len() > old(self).diagnostics@.len()),
            ensures
                self.wf(),
                Parser::frame(*old(self), *self),
                self.tokens@[self.current as int].token_type == TokenType::Eof,
                self.current > old(self).current ==> (statements@.len() >= 1
                    || self.diagnostics@.len() > old(self).diagnostics@.len()),
                old(self).tokens@[old(self).current as int].token_type != TokenType::Eof
                    ==> self.current > old(self).current,
            decreases self.tokens@.len() - self.current,
        {
            if self.is_at_end() {
                break;
            }
            if let Some(decl) = self.declaration() {
                statements.push(decl);
            }
        }
        let mut diagnostics: Vec<Diagnostic> = Vec::new();
        core::mem::swap(&mut diagnostics, &mut self.diagnostics);
        (statements, diagnostics)
    }
}

/// A statement boundary for error recovery: the end of input, the token
/// just after a semicolon, or a keyword that opens a statement.
pub open spec fn at_statement_boundary(tokens: Seq<Token>, c: int) -> bool {
    ||| tokens[c].token_type == TokenType::Eof
    ||| (c >= 1 && tokens[c - 1].token_type == TokenType::Semicolon)
    ||| tokens[c].token_type == TokenType::Class
    ||| tokens[c].token_type == TokenType::Fun
    ||| tokens[c].token_type == TokenType::Var
    ||| tokens[c].token_type == TokenType::For
    ||| tokens[c].token_type == TokenType::If
    ||| tokens[c].token_type == TokenType::While
    ||| tokens[c].token_type == TokenType::Print
    ||| tokens[c].token_type == TokenType::Return
}

/// The `while` statement a `for` loop's condition, increment and body
/// rewrite to: a missing condition becomes the literal `true`, and an
/// increment runs after the body inside a fresh block.
pub open spec fn is_while_shape(
    condition: Option<Expr>,
    increment: Option<Expr>,
    body: Stmt,
    w: Stmt,
) -> bool {
    &&& w matches Stmt::While { condition: c, body: b }
    &&& (match condition {
        Some(e) => c == e,
        None => c == (Expr::Literal { value: Literal::True }),
    })
    &&& (match increment {
        Some(inc) => *b matches Stmt::Block { statements: s } && s@.len() == 2 && s@[0] == body
            && s@[1] == (Stmt::Expression { value: inc }),
        None => *b == body,
    })
}

/// The full rewrite of a `for` loop: the `while` shape above, wrapped in
/// one more block when the loop declared an initializer.
pub open spec fn is_for_desugaring(
    initializer: Option<Stmt>,
    condition: Option<Expr>,
    increment: Option<Expr>,
    body: Stmt,
    r: Stmt,
) -> bool {
    match initializer {
        Some(init) => r matches Stmt::Block { statements: s } && s@.len() == 2 && s@[0] == init
            && is_while_shape(condition, increment, body, s@[1]),
        None => is_while_shape(condition, increment, body, r),
    }
}

/// Rewrites a parsed `for` head and body into the equivalent `while`
/// form; `for` is sugar, and the evaluator never sees it.
pub fn desugar_for(
    initializer: Option<Stmt>,
    condition: Option<Expr>,
    increment: Option<Expr>,
    body: Stmt,
) -> (r: Stmt)
    ensures
        is_for_desugaring(initializer, condition, increment, body, r),
{
    let ghost orig_body = body;
    let mut rewritten = body;
    if let Some(inc) = increment {
        let mut statements: Vec<Stmt> = Vec::new();
        statements.push(rewritten);
        statements.push(Stmt::Expression { value: inc });
        rewritten = Stmt::Block { statements };
    }
    let cond = match condition {
        Some(c) => c,
        None => Expr::Literal { value: Literal::True },
    };
    rewritten = Stmt::While { condition: cond, body: Box::new(rewritten) };
    if let Some(init) = initializer {
        let mut statements: Vec<Stmt> = Vec::new();
        statements.push(init);
        statements.push(rewritten);
        rewritten = Stmt::Block { statements };
    }
    rewritten
}

} // verus!
