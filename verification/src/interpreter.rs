use vstd::prelude::*;

use crate::environment::{
    lemma_lookup_membership, lemma_resolve_in_range, lemma_scope_get_persists, scope_get,
    Environment,
};
use crate::error::{push_decimal, spec_dec_digits, RuntimeError};
use crate::expression::{Expr, Literal};
use crate::function::{clone_stmt_vec, clone_token_vec, spec_arity, Function, NativeKind};
use crate::host::LoxHost;
use crate::object::{
    lemma_same_object_valid, obj_valid, same_object, spec_eq_non_number, spec_truthy, Object,
};
use crate::statement::Stmt;
use crate::token::{Token, TokenType};

verus! {

broadcast use vstd::std_specs::vec::group_vec_axioms;

/// How many evaluation steps one `interpret` call may take. Each visited
/// node, call and loop iteration costs one; the budget only exists so
/// that the evaluator provably terminates, and a run that exhausts it
/// reports a runtime error instead of running on.
pub const EVAL_BUDGET: u64 = 0xFFFF_FFFF_FFFF_FFFF;

/// How one statement finished: it ran to completion, or a `return`
/// unwound with a value. Failing is the `Err` of the surrounding
/// `Result`, so the three outcomes stay statically apart.
pub enum Control {
    Normal,
    Return(Object),
}

/// The tree-walking evaluator: the host's primitives, the scope arena
/// with the indices of the global and the current scope, and the lines
/// printed so far.
pub struct Interpreter<H: LoxHost> {
    pub host: H,
    pub environment: Environment,
    pub globals: usize,
    pub scope: usize,
    pub output: Vec<String>,
}

/// The arena only ever grows: no scope is removed, the enclosing link of
/// an existing scope never changes, and bindings already made stay where
/// they are (a rebinding appends a shadowing pair). This is what keeps
/// every captured closure index meaningful, and every binding a caller
/// saw still present, for the rest of the run.
pub open spec fn env_extends(pre: Environment, post: Environment) -> bool {
    &&& post.scopes@.len() >= pre.scopes@.len()
    &&& forall|i: int|
        0 <= i < pre.scopes@.len() ==> (#[trigger] post.scopes@[i]).enclosing
            == pre.scopes@[i].enclosing
    &&& forall|i: int|
        0 <= i < pre.scopes@.len() ==> (#[trigger] post.scopes@[i]).values@.len()
            >= pre.scopes@[i].values@.len()
    &&& forall|i: int, j: int|
        0 <= i < pre.scopes@.len() && 0 <= j < pre.scopes@[i].values@.len() ==> (
        #[trigger] post.scopes@[i].values@[j]) == pre.scopes@[i].values@[j]
}

/// Every value stored anywhere in the arena fits the arena: no stored
/// closure points at a scope the arena never issued.
pub open spec fn env_values_valid(env: Environment) -> bool {
    forall|i: int, j: int|
        0 <= i < env.scopes@.len() && 0 <= j < env.scopes@[i].values@.len() ==> obj_valid(
            (#[trigger] env.scopes@[i].values@[j]).1,
            env.scopes@.len() as int,
        )
}

/// Appending one fitting entry to one scope keeps the arena's values
/// fitting, and is an extension: nothing already stored moves.
proof fn lemma_push_entry_keeps_valid(pre: Environment, post: Environment, s: int)
    requires
        env_values_valid(pre),
        0 <= s < pre.scopes@.len(),
        post.scopes@.len() == pre.scopes@.len(),
        forall|i: int| 0 <= i < pre.scopes@.len() && i != s ==> post.scopes@[i] == pre.scopes@[i],
        post.scopes@[s].values@.drop_last() == pre.scopes@[s].values@,
        post.scopes@[s].values@.len() == pre.scopes@[s].values@.len() + 1,
        post.scopes@[s].enclosing == pre.scopes@[s].enclosing,
        obj_valid(post.scopes@[s].values@.last().1, pre.scopes@.len() as int),
    ensures
        env_values_valid(post),
        env_extends(pre, post),
{
    assert forall|i: int, j: int|
        0 <= i < post.scopes@.len() && 0 <= j < post.scopes@[i].values@.len() implies obj_valid(
        (#[trigger] post.scopes@[i].values@[j]).1,
        post.scopes@.len() as int,
    ) by {
        if i == s {
            if j < post.scopes@[s].values@.len() - 1 {
                assert(post.scopes@[s].values@.drop_last()[j] == post.scopes@[s].values@[j]);
            }
        } else {
            assert(post.scopes@[i] == pre.scopes@[i]);
        }
    }
    assert forall|i: int, j: int|
        0 <= i < pre.scopes@.len() && 0 <= j < pre.scopes@[i].values@.len() implies (
    #[trigger] post.scopes@[i].values@[j]) == pre.scopes@[i].values@[j] by {
        if i == s {
            assert(post.scopes@[s].values@.drop_last()[j] == post.scopes@[s].values@[j]);
        } else {
            assert(post.scopes@[i] == pre.scopes@[i]);
        }
    }
}

/// Opening a fresh, empty scope keeps the arena's values fitting, and
/// is an extension: every existing scope is untouched.
proof fn lemma_grow_keeps_valid(pre: Environment, post: Environment)
    requires
        env_values_valid(pre),
        post.scopes@.len() == pre.scopes@.len() + 1,
        post.scopes@.subrange(0, pre.scopes@.len() as int) == pre.scopes@,
        post.scopes@.last().values@.len() == 0,
    ensures
        env_values_valid(post),
        env_extends(pre, post),
{
    assert forall|i: int, j: int|
        0 <= i < post.scopes@.len() && 0 <= j < post.scopes@[i].values@.len() implies obj_valid(
        (#[trigger] post.scopes@[i].values@[j]).1,
        post.scopes@.len() as int,
    ) by {
        if i < pre.scopes@.len() {
            assert(post.scopes@.subrange(0, pre.scopes@.len() as int)[i] == post.scopes@[i]);
        }
    }
    assert forall|i: int| 0 <= i < pre.scopes@.len() implies (#[trigger] post.scopes@[i])
        == pre.scopes@[i] by {
        assert(post.scopes@.subrange(0, pre.scopes@.len() as int)[i] == post.scopes@[i]);
    }
}

/// Whatever a lookup hands out fits the arena.
proof fn lemma_lookup_valid(env: Environment, s: int, name: Seq<char>)
    requires
        env.wf(),
        0 <= s < env.scopes@.len(),
        env_values_valid(env),
    ensures
        env.lookup(s, name) matches Some(v) ==> obj_valid(v, env.scopes@.len() as int),
{
    lemma_lookup_membership(env, s, name);
    if env.lookup(s, name) is Some {
        let v = env.lookup(s, name)->0;
        let (i, j) = choose|i: int, j: int|
            0 <= i < env.scopes@.len() && 0 <= j < env.scopes@[i].values@.len() && (
            #[trigger] env.scopes@[i].values@[j]).1 == v;
        assert(obj_valid(env.scopes@[i].values@[j].1, env.scopes@.len() as int));
    }
}

/// An error result blamed on the given token with the given message.
pub open spec fn err_with(r: Result<Object, RuntimeError>, t: Token, msg: Seq<char>) -> bool {
    r matches Err(e) && e.token == t && e.message@ == msg
}

/// The budget error; it has no source position to point at.
fn budget_error() -> (r: RuntimeError)
    ensures
        r.message@ == "Evaluation budget exhausted."@,
{
    RuntimeError {
        token: Token::new(TokenType::Eof, String::new(), 0),
        message: String::from_str("Evaluation budget exhausted."),
    }
}

/// The error for the object-model placeholders the parser can build but
/// this core deliberately does not evaluate.
fn unsupported_expression(token: &Token) -> (r: RuntimeError)
    ensures
        r.token == *token,
        r.message@ == "Unsupported expression."@,
{
    RuntimeError { token: token.clone(), message: String::from_str("Unsupported expression.") }
}

fn not_callable_error(paren: &Token) -> (r: RuntimeError)
    ensures
        r.token == *paren,
        r.message@ == "Can only call functions and classes."@,
{
    RuntimeError {
        token: paren.clone(),
        message: String::from_str("Can only call functions and classes."),
    }
}

/// The arity error text names the declared and the supplied counts.
fn arity_error(paren: &Token, expected: usize, got: usize) -> (r: RuntimeError)
    ensures
        r.token == *paren,
        r.message@ == "Expected "@ + spec_dec_digits(expected as int) + " arguments but got "@
            + spec_dec_digits(got as int) + "."@,
{
    let mut message = String::from_str("Expected ");
    push_decimal(&mut message, expected as u64);
    message.append(" arguments but got ");
    push_decimal(&mut message, got as u64);
    message.append(".");
    RuntimeError { token: paren.clone(), message }
}

fn operand_error(operator: &Token) -> (r: RuntimeError)
    ensures
        r.token == *operator,
        r.message@ == "Operand must be a number."@,
{
    RuntimeError { token: operator.clone(), message: String::from_str("Operand must be a number.") }
}

/// Reads the double bits out of a numeric operand; anything else is the
/// `Operand must be a number.` error at the operator.
fn operand_into_number(operator: &Token, operand: &Object) -> (r: Result<u64, RuntimeError>)
    ensures
        match r {
            Ok(bits) => *operand == Object::Number(bits),
            Err(e) => !(*operand is Number) && e.token == *operator && e.message@
                == "Operand must be a number."@,
        },
{
    match operand {
        Object::Number(bits) => Ok(*bits),
        _ => Err(operand_error(operator)),
    }
}

impl<H: LoxHost> Interpreter<H> {
    pub open spec fn wf(&self) -> bool {
        &&& self.environment.wf()
        &&& self.globals == 0
        &&& self.scope < self.environment.scopes@.len()
        &&& env_values_valid(self.environment)
    }

    /// What every evaluation step preserves: the global scope, the scope
    /// arena's skeleton, and the output already printed.
    pub open spec fn state_ok(pre: Self, post: Self) -> bool {
        &&& post.host == pre.host
        &&& post.globals == pre.globals
        &&& env_extends(pre.environment, post.environment)
        &&& post.output@.len() >= pre.output@.len()
        &&& post.output@.subrange(0, pre.output@.len() as int) =~= pre.output@
    }

    /// A fresh interpreter: one global scope holding exactly one binding,
    /// the native `clock`.
    pub fn new(host: H) -> (r: Self)
        ensures
            r.wf(),
            r.scope == 0,
            r.output@ == Seq::<String>::empty(),
            r.environment.scopes@.len() == 1,
            r.environment.scopes@[0].values@.len() == 1,
            r.environment.scopes@[0].values@[0].0@ == "clock"@,
            r.environment.lookup(0, "clock"@) == Some(
                Object::Callable(Function::Native { arity: 0 as usize, native: NativeKind::Clock }),
            ),
    {
        let mut environment = Environment::new();
        let ghost fresh = environment;
        environment.define(0, "clock", Object::Callable(Function::new_native_fn_clock()));
        proof {
            lemma_push_entry_keeps_valid(fresh, environment, 0);
        }
        Interpreter { host, environment, globals: 0, scope: 0, output: Vec::new() }
    }

    /// The text `print` shows for a value. Numbers are rendered by the
    /// host; everything else is pinned here.
    fn stringify(&self, value: &Object) -> (r: String)
        ensures
            match *value {
                Object::Null => r@ == "nil"@,
                Object::Boolean(b) => r@ == (if b {
                    "true"@
                } else {
                    "false"@
                }),
                Object::Number(_) => true,
                Object::Str(s) => r@ == s@,
                Object::Callable(f) => match f {
                    Function::Native { .. } => r@ == "<native fn>"@,
                    Function::User { name, .. } => r@ == "<fn "@ + name.lexeme@ + ">"@,
                },
            },
    {
        match value {
            Object::Null => String::from_str("nil"),
            Object::Boolean(b) => {
                if *b {
                    String::from_str("true")
                } else {
                    String::from_str("false")
                }
            },
            Object::Number(bits) => self.host.num_to_text(*bits),
            Object::Str(s) => s.clone(),
            Object::Callable(f) => match f {
                Function::Native { .. } => String::from_str("<native fn>"),
                Function::User { name, .. } => {
                    let mut text = String::from_str("<fn ");
                    text.append(name.lexeme.as_str());
                    text.append(">");
                    text
                },
            },
        }
    }

    /// Language-level equality. Two numbers are compared as doubles by
    /// the host; every other pair follows `spec_eq_non_number`, under
    /// which values of different kinds are never equal.
    fn object_equals(&self, a: &Object, b: &Object) -> (r: bool)
        ensures
            !(*a is Number && *b is Number) ==> r == spec_eq_non_number(*a, *b),
    {
        match (a, b) {
            (Object::Number(x), Object::Number(y)) => self.host.num_eq(*x, *y),
            (Object::Null, Object::Null) => true,
            (Object::Boolean(x), Object::Boolean(y)) => *x == *y,
            (Object::Str(x), Object::Str(y)) => crate::scanner::str_eq(x.as_str(), y.as_str()),
            _ => false,
        }
    }

    /// `+` adds two numbers or concatenates two strings; every other
    /// pairing is the two-numbers-or-two-strings error at the operator.
    fn operands_add(&self, left: &Object, right: &Object, operator: &Token) -> (r: Result<
        Object,
        RuntimeError,
    >)
        ensures
            *left is Number && *right is Number ==> r matches Ok(Object::Number(_)),
            *left matches Object::Str(a) ==> *right matches Object::Str(b) ==> (r matches Ok(
                Object::Str(s),
            ) && s@ == a@ + b@),
            !(*left is Number && *right is Number) && !(*left is Str && *right is Str) ==> err_with(
                r,
                *operator,
                "Operands must be two numbers or two strings."@,
            ),
            r matches Ok(v) ==> !(v is Callable),
    {
        match (left, right) {
            (Object::Number(a), Object::Number(b)) => Ok(
                Object::Number(self.host.num_add(*a, *b)),
            ),
            (Object::Str(a), Object::Str(b)) => {
                let mut joined = a.clone();
                joined.append(b.as_str());
                Ok(Object::Str(joined))
            },
            _ => Err(
                RuntimeError {
                    token: operator.clone(),
                    message: String::from_str("Operands must be two numbers or two strings."),
                },
            ),
        }
    }

    /// The arithmetic operators beside `+`: both operands must be
    /// numbers, and the host's double arithmetic decides the bits.
    fn operands_arith(&self, left: &Object, right: &Object, operator: &Token) -> (r: Result<
        Object,
        RuntimeError,
    >)
        ensures
            *left is Number && *right is Number ==> r matches Ok(Object::Number(_)),
            !(*left is Number && *right is Number) ==> err_with(
                r,
                *operator,
                "Operand must be a number."@,
            ),
            r matches Ok(v) ==> !(v is Callable),
    {
        let a = operand_into_number(operator, left)?;
        let b = operand_into_number(operator, right)?;
        match operator.token_type {
            TokenType::Minus => Ok(Object::Number(self.host.num_sub(a, b))),
            TokenType::Slash => Ok(Object::Number(self.host.num_div(a, b))),
            _ => Ok(Object::Number(self.host.num_mul(a, b))),
        }
    }

    /// The ordering operators: both operands must be numbers, and the
    /// host's double comparison decides the truth value.
    fn operands_compare(&self, left: &Object, right: &Object, operator: &Token) -> (r: Result<
        Object,
        RuntimeError,
    >)
        ensures
            *left is Number && *right is Number ==> r matches Ok(Object::Boolean(_)),
            !(*left is Number && *right is Number) ==> err_with(
                r,
                *operator,
                "Operand must be a number."@,
            ),
            r matches Ok(v) ==> !(v is Callable),
    {
        let a = operand_into_number(operator, left)?;
        let b = operand_into_number(operator, right)?;
        match operator.token_type {
            TokenType::Greater => Ok(Object::Boolean(self.host.num_gt(a, b))),
            TokenType::GreaterEqual => Ok(Object::Boolean(self.host.num_ge(a, b))),
            TokenType::Less => Ok(Object::Boolean(self.host.num_lt(a, b))),
            _ => Ok(Object::Boolean(self.host.num_le(a, b))),
        }
    }

    /// Dispatches one binary operator over two already-evaluated
    /// operands. `==` and `!=` never fail; the rest demand numbers, and
    /// `+` also takes two strings.
    fn binary_op(&self, left: &Object, right: &Object, operator: &Token) -> (r: Result<
        Object,
        RuntimeError,
    >)
        ensures
            operator.token_type == TokenType::EqualEqual ==> (r matches Ok(Object::Boolean(b)) && (
            !(*left is Number && *right is Number) ==> b == spec_eq_non_number(*left, *right))),
            operator.token_type == TokenType::BangEqual ==> (r matches Ok(Object::Boolean(b)) && (
            !(*left is Number && *right is Number) ==> b == !spec_eq_non_number(*left, *right))),
            operator.token_type == TokenType::Plus ==> {
                &&& (*left is Number && *right is Number ==> r matches Ok(Object::Number(_)))
                &&& (*left matches Object::Str(a) ==> *right matches Object::Str(b) ==> (
                r matches Ok(Object::Str(s)) && s@ == a@ + b@))
                &&& (!(*left is Number && *right is Number) && !(*left is Str && *right is Str)
                    ==> err_with(r, *operator, "Operands must be two numbers or two strings."@))
            },
            (operator.token_type == TokenType::Minus || operator.token_type == TokenType::Slash
                || operator.token_type == TokenType::Star) ==> {
                &&& (*left is Number && *right is Number ==> r matches Ok(Object::Number(_)))
                &&& (!(*left is Number && *right is Number) ==> err_with(
                    r,
                    *operator,
                    "Operand must be a number."@,
                ))
            },
            (operator.token_type == TokenType::Greater || operator.token_type
                == TokenType::GreaterEqual || operator.token_type == TokenType::Less
                || operator.token_type == TokenType::LessEqual) ==> {
                &&& (*left is Number && *right is Number ==> r matches Ok(Object::Boolean(_)))
                &&& (!(*left is Number && *right is Number) ==> err_with(
                    r,
                    *operator,
                    "Operand must be a number."@,
                ))
            },
            r matches Ok(v) ==> !(v is Callable),
    {
        match operator.token_type {
            TokenType::Minus => self.operands_arith(left, right, operator),
            TokenType::Slash => self.operands_arith(left, right, operator),
            TokenType::Star => self.operands_arith(left, right, operator),
            TokenType::Plus => self.operands_add(left, right, operator),
            TokenType::Greater => self.operands_compare(left, right, operator),
            TokenType::GreaterEqual => self.operands_compare(left, right, operator),
            TokenType::Less => self.operands_compare(left, right, operator),
            TokenType::LessEqual => self.operands_compare(left, right, operator),
            TokenType::BangEqual => Ok(Object::Boolean(!self.object_equals(left, right))),
            TokenType::EqualEqual => Ok(Object::Boolean(self.object_equals(left, right))),
            _ => Err(
                RuntimeError {
                    token: operator.clone(),
                    message: String::from_str("Unsupported operator."),
                },
            ),
        }
    }

    /// The value of a literal node. A number literal's text is handed to
    /// the host; text the host cannot read as a number is a runtime
    /// error, which scanner-produced literals never trigger.
    fn literal_object(&self, value: &Literal) -> (r: Result<Object, RuntimeError>)
        ensures
            *value is Nil ==> r == Ok::<Object, RuntimeError>(Object::Null),
            *value is True ==> r == Ok::<Object, RuntimeError>(Object::Boolean(true)),
            *value is False ==> r == Ok::<Object, RuntimeError>(Object::Boolean(false)),
            *value matches Literal::Str { value: s } ==> (r matches Ok(Object::Str(out)) && out@
                == s@),
            (*value is Number) ==> (r matches Ok(o) ==> o is Number),
            r matches Ok(v) ==> !(v is Callable),
    {
        match value {
            Literal::Nil => Ok(Object::Null),
            Literal::True => Ok(Object::Boolean(true)),
            Literal::False => Ok(Object::Boolean(false)),
            Literal::Str { value: s } => Ok(Object::Str(s.clone())),
            Literal::Number { text } => match self.host.num_parse(text.as_str()) {
                Some(bits) => Ok(Object::Number(bits)),
                None => Err(
                    RuntimeError {
                        token: Token::new(TokenType::Number, text.clone(), 0),
                        message: String::from_str("Invalid number literal."),
                    },
                ),
            },
        }
    }

    /// One unary operator over an already-evaluated operand. `!` never
    /// fails and yields exactly the negated truthiness; `-` demands a
    /// number and negates it through the host.
    fn unary_op(&self, operator: &Token, operand: &Object) -> (r: Result<Object, RuntimeError>)
        ensures
            operator.token_type == TokenType::Bang ==> r == Ok::<Object, RuntimeError>(
                Object::Boolean(!spec_truthy(*operand)),
            ),
            operator.token_type == TokenType::Minus ==> {
                &&& (*operand is Number ==> r matches Ok(Object::Number(_)))
                &&& (!(*operand is Number) ==> err_with(
                    r,
                    *operator,
                    "Operand must be a number."@,
                ))
            },
            !(operator.token_type == TokenType::Bang || operator.token_type == TokenType::Minus)
                ==> err_with(r, *operator, "Unsupported operator."@),
            r matches Ok(v) ==> !(v is Callable),
    {
        match operator.token_type {
            TokenType::Bang => Ok(Object::Boolean(!operand.is_truthy())),
            TokenType::Minus => {
                let bits = operand_into_number(operator, operand)?;
                Ok(Object::Number(self.host.num_neg(bits)))
            },
            _ => Err(
                RuntimeError {
                    token: operator.clone(),
                    message: String::from_str("Unsupported operator."),
                },
            ),
        }
    }

    /// Whether a logical operator is decided by its left operand alone:
    /// `or` stops on a truthy left, `and` on a falsy one. When it is
    /// decided, the left operand itself is the result, uncoerced.
    fn short_circuits(operator: &Token, left: &Object) -> (r: bool)
        ensures
            r == (if operator.token_type == TokenType::Or {
                spec_truthy(*left)
            } else {
                !spec_truthy(*left)
            }),
    {
        if operator.token_type == TokenType::Or {
            left.is_truthy()
        } else {
            !left.is_truthy()
        }
    }

    fn evaluate(&mut self, expr: &Expr, fuel: u64) -> (r: Result<Object, RuntimeError>)
        requires
            old(self).wf(),
        ensures
            final(self).wf(),
            final(self).scope == old(self).scope,
            Self::state_ok(*old(self), *final(self)),
            r matches Ok(v) ==> obj_valid(v, final(self).environment.scopes@.len() as int),
            expr matches Expr::Literal { value } ==> fuel >= 1 ==> {
                &&& (value is Nil ==> r == Ok::<Object, RuntimeError>(Object::Null))
                &&& (value is True ==> r == Ok::<Object, RuntimeError>(Object::Boolean(true)))
                &&& (value is False ==> r == Ok::<Object, RuntimeError>(Object::Boolean(false)))
                &&& (value matches Literal::Str { value: s } ==> (r matches Ok(Object::Str(out))
                    && out@ == s@))
                &&& (value is Number ==> (r matches Ok(o) ==> o is Number))
                &&& *final(self) == *old(self)
            },
            expr matches Expr::Variable { name } ==> fuel >= 1 ==> {
                &&& *final(self) == *old(self)
                &&& match old(self).environment.lookup(old(self).scope as int, name.lexeme@) {
                    Some(w) => r matches Ok(v) && same_object(v, w),
                    None => r matches Err(e) && e.token == name && e.message@
                        == "Undefined variable '"@ + name.lexeme@ + "'."@,
                }
            },
            expr matches Expr::Assign { name, .. } ==> r matches Ok(v)
                ==> (final(self).environment.lookup(old(self).scope as int, name.lexeme@)
                matches Some(w) && same_object(w, v)),
            expr matches Expr::Assign { name, value } ==> fuel >= 2 ==> ((**value)
                matches Expr::Literal { value: Literal::Str { value: text } } ==> (match old(self).environment.resolve(
                old(self).scope as int,
                name.lexeme@,
            ) {
                Some(_) => r matches Ok(Object::Str(s)) && s@ == text@,
                None => r matches Err(e) && e.token == name && e.message@
                    == "Undefined variable '"@ + name.lexeme@ + "'."@,
            })),
            expr matches Expr::Binary { left, operator, right } ==> fuel >= 2 ==> {
                &&& (operator.token_type == TokenType::Plus ==> ((**left) matches Expr::Literal {
                    value: Literal::Str { value: a },
                } ==> ((**right) matches Expr::Literal { value: Literal::Str { value: b } } ==> (
                r matches Ok(Object::Str(s)) && s@ == a@ + b@))))
                &&& (operator.token_type == TokenType::EqualEqual ==> ((**left)
                    matches Expr::Literal { value: Literal::Nil } ==> ((**right)
                    matches Expr::Literal { value: Literal::Nil } ==> r == Ok::<
                    Object,
                    RuntimeError,
                >(Object::Boolean(true)))))
            },
            expr matches Expr::Logical { left, operator, .. } ==> fuel >= 2 ==> {
                &&& ((**left) matches Expr::Literal { value: Literal::Str { value: text } } ==> (
                operator.token_type == TokenType::Or ==> (r matches Ok(Object::Str(s)) && s@
                    == text@ && *final(self) == *old(self))))
                &&& ((**left) matches Expr::Literal { value: Literal::False } ==> (
                operator.token_type != TokenType::Or ==> (r == Ok::<Object, RuntimeError>(
                    Object::Boolean(false),
                ) && *final(self) == *old(self))))
            },
            expr matches Expr::Call { callee, paren, .. } ==> fuel >= 2 ==> ((**callee)
                matches Expr::Literal { value: lv } ==> ((lv is Nil || lv is True || lv is False
                || lv is Str) ==> (err_with(r, *paren, "Can only call functions and classes."@)
                && *final(self) == *old(self)))),
            expr matches Expr::Get { name, .. } ==> fuel >= 1 ==> (err_with(
                r,
                *name,
                "Unsupported expression."@,
            ) && *final(self) == *old(self)),
            expr matches Expr::SetProp { token, .. } ==> fuel >= 1 ==> (err_with(
                r,
                *token,
                "Unsupported expression."@,
            ) && *final(self) == *old(self)),
            expr matches Expr::Super { keyword, .. } ==> fuel >= 1 ==> (err_with(
                r,
                *keyword,
                "Unsupported expression."@,
            ) && *final(self) == *old(self)),
            expr matches Expr::This { keyword } ==> fuel >= 1 ==> (err_with(
                r,
                *keyword,
                "Unsupported expression."@,
            ) && *final(self) == *old(self)),
        decreases fuel,
    {
        if fuel == 0 {
            return Err(budget_error());
        }
        match expr {
            Expr::Literal { value } => self.literal_object(value),
            Expr::Grouping { expression } => self.evaluate(expression, fuel - 1),
            Expr::Unary { operator, right } => {
                let right_value = self.evaluate(right, fuel - 1)?;
                self.unary_op(operator, &right_value)
            },
            Expr::Binary { left, operator, right } => {
                let left_value = self.evaluate(left, fuel - 1)?;
                let right_value = self.evaluate(right, fuel - 1)?;
                self.binary_op(&left_value, &right_value, operator)
            },
            Expr::Logical { left, operator, right } => {
                let left_value = self.evaluate(left, fuel - 1)?;
                if Self::short_circuits(operator, &left_value) {
                    return Ok(left_value);
                }
                self.evaluate(right, fuel - 1)
            },
            Expr::Variable { name } => {
                let result = self.environment.get(self.scope, name);
                proof {
                    lemma_lookup_valid(self.environment, self.scope as int, name.lexeme@);
                    if result is Ok {
                        let w = choose|w: Object|
                            self.environment.lookup(self.scope as int, name.lexeme@) == Some(w);
                        lemma_same_object_valid(
                            result->Ok_0,
                            w,
                            self.environment.scopes@.len() as int,
                        );
                    }
                }
                result
            },
            Expr::Assign { name, value } => {
                let v = self.evaluate(value, fuel - 1)?;
                let ghost pre = self.environment;
                let ghost pre_scope = self.scope;
                match self.environment.assign(self.scope, name, &v) {
                    Ok(()) => {
                        proof {
                            lemma_resolve_in_range(pre, pre_scope as int, name.lexeme@);
                            let t = choose|t: int|
                                pre.resolve(pre_scope as int, name.lexeme@) == Some(t);
                            lemma_same_object_valid(
                                self.environment.scopes@[t].values@.last().1,
                                v,
                                pre.scopes@.len() as int,
                            );
                            lemma_push_entry_keeps_valid(pre, self.environment, t);
                            crate::environment::lemma_assignment_updates_lookup(
                                pre,
                                self.environment,
                                pre_scope as int,
                                t,
                                name.lexeme@,
                                self.environment.scopes@[t].values@.last().1,
                            );
                        }
                        Ok(v)
                    },
                    Err(e) => Err(e),
                }
            },
            Expr::Call { callee, paren, arguments } => {
                let callee_value = self.evaluate(callee, fuel - 1)?;
                // the callee must be callable before any argument runs
                let function = match callee_value {
                    Object::Callable(f) => f,
                    _ => {
                        return Err(not_callable_error(paren));
                    },
                };
                let mut args: Vec<Object> = Vec::new();
                let mut i: usize = 0;
                #[verifier::loop_isolation(false)]
                while i < arguments.len()
                    invariant
                        self.wf(),
                        self.scope == old(self).scope,
                        Self::state_ok(*old(self), *self),
                        i <= arguments@.len(),
                        obj_valid(
                            Object::Callable(function),
                            self.environment.scopes@.len() as int,
                        ),
                        forall|k: int|
                            0 <= k < args@.len() ==> obj_valid(
                                #[trigger] args@[k],
                                self.environment.scopes@.len() as int,
                            ),
                    decreases arguments@.len() - i,
                {
                    let a = self.evaluate(&arguments[i], fuel - 1)?;
                    args.push(a);
                    i = i + 1;
                }
                self.call_function(function, args, paren, fuel - 1)
            },
            Expr::Get { name, .. } => Err(unsupported_expression(name)),
            Expr::SetProp { token, .. } => Err(unsupported_expression(token)),
            Expr::Super { keyword, .. } => Err(unsupported_expression(keyword)),
            Expr::This { keyword } => Err(unsupported_expression(keyword)),
        }
    }

    /// Calls an already-callable value on already-evaluated arguments.
    /// The argument count must match the declared arity exactly, and a
    /// mismatch leaves the interpreter untouched: the body never runs. A
    /// native call asks the host and touches nothing else. A user call
    /// opens a fresh scope whose enclosing link is the function's closure
    /// — not the caller's scope — binds each parameter to its argument
    /// there in order, runs the body under it, and yields the returned
    /// value, or `nil` when the body runs to completion.
    fn call_function(
        &mut self,
        function: Function,
        arguments: Vec<Object>,
        paren: &Token,
        fuel: u64,
    ) -> (r: Result<Object, RuntimeError>)
        requires
            old(self).wf(),
            obj_valid(Object::Callable(function), old(self).environment.scopes@.len() as int),
            forall|k: int|
                0 <= k < arguments@.len() ==> obj_valid(
                    #[trigger] arguments@[k],
                    old(self).environment.scopes@.len() as int,
                ),
        ensures
            final(self).wf(),
            final(self).scope == old(self).scope,
            Self::state_ok(*old(self), *final(self)),
            r matches Ok(v) ==> obj_valid(v, final(self).environment.scopes@.len() as int),
            arguments@.len() != spec_arity(function) ==> (r matches Err(e) && e.token == *paren
                && e.message@ == "Expected "@ + spec_dec_digits(spec_arity(function) as int)
                + " arguments but got "@ + spec_dec_digits(arguments@.len() as int) + "."@)
                && *final(self) == *old(self),
            (function is Native && arguments@.len() == spec_arity(function)) ==> (r matches Ok(
                Object::Number(_),
            ) && *final(self) == *old(self)),
            function matches Function::User { params, body, .. } ==> arguments@.len()
                == params@.len() ==> fuel >= 2 ==> (body@.len() == 0 ==> r == Ok::<
                Object,
                RuntimeError,
            >(Object::Null)),
            function matches Function::User { params, body, .. } ==> arguments@.len()
                == params@.len() ==> fuel >= 4 ==> (body@.len() >= 1 ==> (body@[0]
                matches Stmt::Return {
                value: Some(Expr::Literal { value: Literal::Str { value: text } }),
                ..
            } ==> (r matches Ok(Object::Str(s)) && s@ == text@))),
            function matches Function::User { params, closure, .. }
                ==> arguments@.len() == params@.len() ==> fuel >= 1 ==> ({
                let s = old(self).environment.scopes@.len() as int;
                &&& final(self).environment.scopes@.len() > s
                &&& final(self).environment.scopes@[s].enclosing == Some(closure)
                &&& final(self).environment.scopes@[s].values@.len() >= params@.len()
                &&& forall|k: int|
                    0 <= k < params@.len()
                        ==> ((#[trigger] final(self).environment.scopes@[s].values@[k]).0@
                        == params@[k].lexeme@ && same_object(
                        final(self).environment.scopes@[s].values@[k].1,
                        arguments@[k],
                    ))
            }),
        decreases fuel,
    {
        let arity = function.arity();
        if arguments.len() != arity {
            return Err(arity_error(paren, arity, arguments.len()));
        }
        match function {
            Function::Native { .. } => Ok(Object::Number(self.host.clock())),
            Function::User { params, body, closure, .. } => {
                if fuel == 0 {
                    return Err(budget_error());
                }
                let ghost before_scope = self.environment;
                let call_scope = self.environment.new_scope(closure);
                proof {
                    lemma_grow_keeps_valid(before_scope, self.environment);
                }
                let mut i: usize = 0;
                while i < params.len()
                    invariant
                        self.wf(),
                        self.scope == old(self).scope,
                        Self::state_ok(*old(self), *self),
                        call_scope == old(self).environment.scopes@.len(),
                        call_scope < self.environment.scopes@.len(),
                        self.environment.scopes@[call_scope as int].enclosing == Some(closure),
                        self.environment.scopes@[call_scope as int].values@.len() == i,
                        i <= params@.len(),
                        arguments@.len() == params@.len(),
                        forall|k: int|
                            0 <= k < i
                                ==> ((#[trigger] self.environment.scopes@[call_scope as int].values@[k]).0@
                                == params@[k].lexeme@ && same_object(
                                self.environment.scopes@[call_scope as int].values@[k].1,
                                arguments@[k],
                            )),
                        forall|k: int|
                            0 <= k < arguments@.len() ==> obj_valid(
                                #[trigger] arguments@[k],
                                self.environment.scopes@.len() as int,
                            ),
                    decreases params@.len() - i,
                {
                    let argument = arguments[i].clone();
                    let ghost before_bind = self.environment;
                    proof {
                        lemma_same_object_valid(
                            argument,
                            arguments@[i as int],
                            self.environment.scopes@.len() as int,
                        );
                    }
                    self.environment.define(call_scope, params[i].lexeme.as_str(), argument);
                    proof {
                        lemma_push_entry_keeps_valid(
                            before_bind,
                            self.environment,
                            call_scope as int,
                        );
                    }
                    i = i + 1;
                }
                let control = self.execute_block(&body, call_scope, fuel - 1)?;
                match control {
                    Control::Normal => Ok(Object::Null),
                    Control::Return(v) => Ok(v),
                }
            },
        }
    }

    /// Runs a statement list under the given scope, and puts the previous
    /// scope back whatever happens — on completion, on `return`, and on a
    /// runtime error alike. An empty list completes at once, and a list
    /// opening with `return` of a string literal yields exactly that
    /// string as the returned value.
    fn execute_block(&mut self, statements: &Vec<Stmt>, block_scope: usize, fuel: u64) -> (r:
        Result<Control, RuntimeError>)
        requires
            old(self).wf(),
            block_scope < old(self).environment.scopes@.len(),
        ensures
            final(self).wf(),
            final(self).scope == old(self).scope,
            Self::state_ok(*old(self), *final(self)),
            r matches Ok(Control::Return(v)) ==> obj_valid(
                v,
                final(self).environment.scopes@.len() as int,
            ),
            (statements@.len() == 0 && fuel >= 1) ==> r == Ok::<Control, RuntimeError>(
                Control::Normal,
            ),
            statements@.len() >= 1 ==> (statements@[0] matches Stmt::Return {
                value: Some(Expr::Literal { value: Literal::Str { value: text } }),
                ..
            } ==> fuel >= 3 ==> (r matches Ok(Control::Return(Object::Str(s))) && s@ == text@)),
        decreases fuel,
    {
        if fuel == 0 {
            return Err(budget_error());
        }
        let previous = self.scope;
        self.scope = block_scope;
        let mut i: usize = 0;
        while i < statements.len()
            invariant
                self.wf(),
                self.scope == block_scope,
                block_scope < self.environment.scopes@.len(),
                Self::state_ok(*old(self), *self),
                previous == old(self).scope,
                previous < self.environment.scopes@.len(),
                i <= statements@.len(),
                fuel >= 1,
                (i >= 1 && fuel >= 3) ==> !(statements@[0] matches Stmt::Return {
                    value: Some(Expr::Literal { value: Literal::Str { .. } }),
                    ..
                }),
            decreases statements@.len() - i,
        {
            match self.execute(&statements[i], fuel - 1) {
                Ok(Control::Normal) => {
                    i = i + 1;
                },
                Ok(Control::Return(v)) => {
                    self.scope = previous;
                    return Ok(Control::Return(v));
                },
                Err(e) => {
                    self.scope = previous;
                    return Err(e);
                },
            }
        }
        self.scope = previous;
        Ok(Control::Normal)
    }

    /// One iteration of a `while`: nothing bounds how often it runs but
    /// the evaluation budget, and a `return` from the body passes
    /// through untouched.
    fn execute_while(&mut self, condition: &Expr, body: &Stmt, fuel: u64) -> (r: Result<
        Control,
        RuntimeError,
    >)
        requires
            old(self).wf(),
        ensures
            final(self).wf(),
            final(self).scope == old(self).scope,
            Self::state_ok(*old(self), *final(self)),
            r matches Ok(Control::Return(v)) ==> obj_valid(
                v,
                final(self).environment.scopes@.len() as int,
            ),
        decreases fuel,
    {
        if fuel == 0 {
            return Err(budget_error());
        }
        let condition_value = self.evaluate(condition, fuel - 1)?;
        if !condition_value.is_truthy() {
            return Ok(Control::Normal);
        }
        let control = self.execute(body, fuel - 1)?;
        match control {
            Control::Return(v) => Ok(Control::Return(v)),
            Control::Normal => self.execute_while(condition, body, fuel - 1),
        }
    }

    fn execute(&mut self, stmt: &Stmt, fuel: u64) -> (r: Result<Control, RuntimeError>)
        requires
            old(self).wf(),
        ensures
            final(self).wf(),
            final(self).scope == old(self).scope,
            Self::state_ok(*old(self), *final(self)),
            (stmt is Print && r is Ok) ==> final(self).output@.len() >= old(self).output@.len()
                + 1,
            stmt matches Stmt::Print {
                value: Expr::Literal { value: Literal::Str { value: text } },
            } ==> fuel >= 2 ==> (r == Ok::<Control, RuntimeError>(Control::Normal)
                && final(self).output@.len() == old(self).output@.len() + 1
                && final(self).output@.last()@ == text@),
            (stmt is Return && r is Ok) ==> r matches Ok(Control::Return(_)),
            stmt matches Stmt::Return { value: None, .. } ==> fuel >= 1 ==> r == Ok::<
                Control,
                RuntimeError,
            >(Control::Return(Object::Null)),
            stmt matches Stmt::Return {
                value: Some(Expr::Literal { value: Literal::Str { value: text } }),
                ..
            } ==> fuel >= 2 ==> (r matches Ok(Control::Return(Object::Str(s))) && s@ == text@),
            stmt matches Stmt::If { condition, else_branch, .. } ==> fuel >= 2 ==> (((*condition)
                matches Expr::Literal { value: Literal::False }) ==> else_branch is None ==> (r
                == Ok::<Control, RuntimeError>(Control::Normal) && *final(self) == *old(self))),
            stmt matches Stmt::Var { name, .. } ==> r is Ok ==> scope_get(
                final(self).environment.scopes@[old(self).scope as int].values@,
                name.lexeme@,
            ) is Some,
            stmt matches Stmt::Var { name, initializer: None } ==> fuel >= 1 ==> (r == Ok::<
                Control,
                RuntimeError,
            >(Control::Normal) && scope_get(
                final(self).environment.scopes@[old(self).scope as int].values@,
                name.lexeme@,
            ) == Some(Object::Null)),
            stmt matches Stmt::Function { name, params, .. } ==> fuel >= 1 ==> ({
                &&& r == Ok::<Control, RuntimeError>(Control::Normal)
                &&& scope_get(
                    final(self).environment.scopes@[old(self).scope as int].values@,
                    name.lexeme@,
                ) matches Some(Object::Callable(f))
                &&& f matches Function::User { name: fname, params: fparams, closure, .. }
                &&& fname == name
                &&& fparams@ == params@
                &&& closure == old(self).scope
            }),
            r matches Ok(Control::Return(v)) ==> obj_valid(
                v,
                final(self).environment.scopes@.len() as int,
            ),
        decreases fuel,
    {
        if fuel == 0 {
            return Err(budget_error());
        }
        match stmt {
            Stmt::Block { statements } => {
                let ghost before_scope = self.environment;
                let block_scope = self.environment.new_scope(self.scope);
                proof {
                    lemma_grow_keeps_valid(before_scope, self.environment);
                }
                self.execute_block(statements, block_scope, fuel - 1)
            },
            Stmt::Expression { value } => {
                let _evaluated = self.evaluate(value, fuel - 1)?;
                Ok(Control::Normal)
            },
            Stmt::Function { name, params, body } => {
                let function = Function::User {
                    name: name.clone(),
                    params: clone_token_vec(params),
                    body: clone_stmt_vec(body),
                    closure: self.scope,
                };
                let ghost before_bind = self.environment;
                self.environment.define(
                    self.scope,
                    name.lexeme.as_str(),
                    Object::Callable(function),
                );
                proof {
                    lemma_push_entry_keeps_valid(before_bind, self.environment, self.scope as int);
                }
                Ok(Control::Normal)
            },
            Stmt::If { condition, then_branch, else_branch } => {
                let condition_value = self.evaluate(condition, fuel - 1)?;
                if condition_value.is_truthy() {
                    let _control = self.execute(then_branch, fuel - 1)?;
                    Ok(_control)
                } else {
                    match else_branch {
                        Some(branch) => self.execute(branch, fuel - 1),
                        None => Ok(Control::Normal),
                    }
                }
            },
            Stmt::Print { value } => {
                let evaluated = self.evaluate(value, fuel - 1)?;
                let text = self.stringify(&evaluated);
                self.output.push(text);
                Ok(Control::Normal)
            },
            Stmt::Return { value, .. } => {
                let result = match value {
                    Some(expr) => self.evaluate(expr, fuel - 1)?,
                    None => Object::Null,
                };
                Ok(Control::Return(result))
            },
            Stmt::Var { name, initializer } => {
                let value = match initializer {
                    Some(expr) => self.evaluate(expr, fuel - 1)?,
                    None => Object::Null,
                };
                let ghost before_bind = self.environment;
                self.environment.define(self.scope, name.lexeme.as_str(), value);
                proof {
                    lemma_push_entry_keeps_valid(before_bind, self.environment, self.scope as int);
                }
                Ok(Control::Normal)
            },
            Stmt::While { condition, body } => self.execute_while(condition, body, fuel - 1),
        }
    }

    /// Runs a statement list at the top level. Evaluation stops at the
    /// first runtime error; a top-level `return` stops it too and is
    /// reported as the `Return` outcome for the driver to judge.
    pub fn interpret(&mut self, statements: &Vec<Stmt>) -> (r: Result<Control, RuntimeError>)
        requires
            old(self).wf(),
        ensures
            final(self).wf(),
            final(self).scope == old(self).scope,
            Self::state_ok(*old(self), *final(self)),
            statements@.len() == 0 ==> r matches Ok(Control::Normal),
            statements@.len() >= 1 ==> (statements@[0] matches Stmt::Return {
                value: None,
                ..
            } ==> r == Ok::<Control, RuntimeError>(Control::Return(Object::Null))),
            statements@.len() >= 1 ==> (statements@[0] matches Stmt::Var {
                name,
                initializer: None,
            } ==> scope_get(
                final(self).environment.scopes@[old(self).scope as int].values@,
                name.lexeme@,
            ) is Some),
            old(self).output@.len() == 0 && statements@.len() >= 1 ==> (statements@[0]
                matches Stmt::Print {
                value: Expr::Literal { value: Literal::Str { value: text } },
            } ==> (final(self).output@.len() >= 1 && final(self).output@[0]@ == text@)),
    {
        let mut i: usize = 0;
        #[verifier::loop_isolation(false)]
        while i < statements.len()
            invariant
                self.wf(),
                self.scope == old(self).scope,
                Self::state_ok(*old(self), *self),
                i <= statements@.len(),
                i >= 1 ==> !(statements@[0] matches Stmt::Return { value: None, .. }),
                i >= 1 ==> (statements@[0] matches Stmt::Var { name, initializer: None }
                    ==> scope_get(
                    self.environment.scopes@[old(self).scope as int].values@,
                    name.lexeme@,
                ) is Some),
                i == 0 ==> self.output@ == old(self).output@,
                (old(self).output@.len() == 0 && i >= 1) ==> (statements@[0] matches Stmt::Print {
                    value: Expr::Literal { value: Literal::Str { value: text } },
                } ==> (self.output@.len() >= 1 && self.output@[0]@ == text@)),
            decreases statements@.len() - i,
        {
            let ghost pre_step = *self;
            let step = self.execute(&statements[i], EVAL_BUDGET);
            proof {
                if pre_step.output@.len() >= 1 {
                    assert(self.output@.subrange(0, pre_step.output@.len() as int)[0]
                        == self.output@[0]);
                }
                if i >= 1 {
                    match statements@[0] {
                        Stmt::Var { name, initializer: None } => {
                            lemma_scope_get_persists(
                                pre_step.environment.scopes@[old(self).scope as int].values@,
                                self.environment.scopes@[old(self).scope as int].values@,
                                name.lexeme@,
                            );
                        },
                        _ => {},
                    }
                }
            }
            match step {
                Ok(Control::Normal) => {
                    i = i + 1;
                },
                Ok(Control::Return(v)) => {
                    return Ok(Control::Return(v));
                },
                Err(e) => {
                    return Err(e);
                },
            }
        }
        Ok(Control::Normal)
    }

    /// Hands over the lines printed so far and clears the buffer.
    pub fn take_output(&mut self) -> (r: Vec<String>)
        ensures
            r@ == old(self).output@,
            final(self).output@ == Seq::<String>::empty(),
            final(self).host == old(self).host,
            final(self).environment == old(self).environment,
            final(self).globals == old(self).globals,
            final(self).scope == old(self).scope,
    {
        let mut taken: Vec<String> = Vec::new();
        core::mem::swap(&mut taken, &mut self.output);
        taken
    }
}

} // verus!
