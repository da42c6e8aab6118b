use vstd::prelude::*;

use crate::statement::{same_stmt, Stmt};
use crate::token::Token;

verus! {

broadcast use vstd::std_specs::vec::group_vec_axioms;

/// The built-in native functions the interpreter knows.
pub enum NativeKind {
    /// Seconds since the epoch, asked of the host.
    Clock,
}

/// A callable value: a host-backed native with a fixed arity, or a
/// user-declared function. A user function keeps the scope it was
/// declared in as an index into the interpreter's scope arena; that scope
/// chain is its closure.
pub enum Function {
    Native { arity: usize, native: NativeKind },
    User { name: Token, params: Vec<Token>, body: Vec<Stmt>, closure: usize },
}

/// Structural equality on callables: the statement list of a user
/// function is compared element by element, everything else by plain
/// value equality.
pub open spec fn same_fun(a: Function, b: Function) -> bool {
    match (a, b) {
        (
            Function::Native { arity: a1, native: n1 },
            Function::Native { arity: a2, native: n2 },
        ) => a1 == a2 && n1 == n2,
        (
            Function::User { name: n1, params: p1, body: b1, closure: c1 },
            Function::User { name: n2, params: p2, body: b2, closure: c2 },
        ) => n1 == n2 && p1@ == p2@ && c1 == c2 && b1@.len() == b2@.len() && (forall|k: int|
            0 <= k < b1@.len() ==> same_stmt(#[trigger] b1@[k], b2@[k])),
        _ => false,
    }
}

pub open spec fn spec_arity(f: Function) -> nat {
    match f {
        Function::Native { arity, .. } => arity as nat,
        Function::User { params, .. } => params@.len(),
    }
}

impl Function {
    /// How many arguments a call of this function must supply.
    pub fn arity(&self) -> (r: usize)
        ensures
            r == spec_arity(*self),
    {
        match self {
            Function::Native { arity, .. } => *arity,
            Function::User { params, .. } => params.len(),
        }
    }

    /// The native `clock` binding: no parameters, host-supplied seconds.
    pub fn new_native_fn_clock() -> (r: Self)
        ensures
            r == (Function::Native { arity: 0 as usize, native: NativeKind::Clock }),
    {
        Function::Native { arity: 0, native: NativeKind::Clock }
    }
}

pub(crate) fn clone_stmt_vec(v: &Vec<Stmt>) -> (r: Vec<Stmt>)
    ensures
        r@.len() == v@.len(),
        forall|k: int| 0 <= k < v@.len() ==> same_stmt(#[trigger] r@[k], v@[k]),
{
    let mut out: Vec<Stmt> = Vec::new();
    let mut i: usize = 0;
    while i < v.len()
        invariant
            i <= v@.len(),
            out@.len() == i,
            forall|k: int| 0 <= k < i ==> same_stmt(#[trigger] out@[k], v@[k]),
        decreases v@.len() - i,
    {
        out.push(v[i].clone());
        i = i + 1;
    }
    out
}

pub(crate) fn clone_token_vec(v: &Vec<Token>) -> (r: Vec<Token>)
    ensures
        r@ == v@,
{
    let mut out: Vec<Token> = Vec::new();
    let mut i: usize = 0;
    while i < v.len()
        invariant
            i <= v@.len(),
            out@.len() == i,
            forall|k: int| 0 <= k < i ==> out@[k] == v@[k],
        decreases v@.len() - i,
    {
        out.push(v[i].clone());
        i = i + 1;
    }
    proof {
        assert(out@ =~= v@);
    }
    out
}

impl Clone for Function {
    fn clone(&self) -> (r: Self)
        ensures
            same_fun(r, *self),
    {
        match self {
            Function::Native { arity, native } => Function::Native {
                arity: *arity,
                native: match native {
                    NativeKind::Clock => NativeKind::Clock,
                },
            },
            Function::User { name, params, body, closure } => Function::User {
                name: name.clone(),
                params: clone_token_vec(params),
                body: clone_stmt_vec(body),
                closure: *closure,
            },
        }
    }
}

} // verus!
