use vstd::prelude::*;

use crate::expression::{same_expr, Expr};
use crate::token::Token;

verus! {

broadcast use vstd::std_specs::vec::group_vec_axioms;

/// A statement node, owning its children.
pub enum Stmt {
    Block { statements: Vec<Stmt> },
    Expression { value: Expr },
    Function { name: Token, params: Vec<Token>, body: Vec<Stmt> },
    If { condition: Expr, then_branch: Box<Stmt>, else_branch: Option<Box<Stmt>> },
    Print { value: Expr },
    Return { keyword: Token, value: Option<Expr> },
    Var { name: Token, initializer: Option<Expr> },
    While { condition: Expr, body: Box<Stmt> },
}

/// Structural equality on statements: statement lists behind a `Vec` are
/// compared element by element, expressions by `same_expr`, everything
/// else by plain value equality.
pub open spec fn same_stmt(a: Stmt, b: Stmt) -> bool
    decreases a,
{
    match (a, b) {
        (Stmt::Block { statements: s1 }, Stmt::Block { statements: s2 }) => s1@.len() == s2@.len()
            && (forall|k: int| 0 <= k < s1@.len() ==> same_stmt(#[trigger] s1@[k], s2@[k])),
        (Stmt::Expression { value: v1 }, Stmt::Expression { value: v2 }) => same_expr(v1, v2),
        (
            Stmt::Function { name: n1, params: p1, body: b1 },
            Stmt::Function { name: n2, params: p2, body: b2 },
        ) => n1 == n2 && p1@ == p2@ && b1@.len() == b2@.len() && (forall|k: int|
            0 <= k < b1@.len() ==> same_stmt(#[trigger] b1@[k], b2@[k])),
        (
            Stmt::If { condition: c1, then_branch: t1, else_branch: e1 },
            Stmt::If { condition: c2, then_branch: t2, else_branch: e2 },
        ) => same_expr(c1, c2) && same_stmt(*t1, *t2) && (match (e1, e2) {
            (Some(x), Some(y)) => same_stmt(*x, *y),
            (None, None) => true,
            _ => false,
        }),
        (Stmt::Print { value: v1 }, Stmt::Print { value: v2 }) => same_expr(v1, v2),
        (
            Stmt::Return { keyword: k1, value: v1 },
            Stmt::Return { keyword: k2, value: v2 },
        ) => k1 == k2 && (match (v1, v2) {
            (Some(x), Some(y)) => same_expr(x, y),
            (None, None) => true,
            _ => false,
        }),
        (
            Stmt::Var { name: n1, initializer: i1 },
            Stmt::Var { name: n2, initializer: i2 },
        ) => n1 == n2 && (match (i1, i2) {
            (Some(x), Some(y)) => same_expr(x, y),
            (None, None) => true,
            _ => false,
        }),
        (
            Stmt::While { condition: c1, body: b1 },
            Stmt::While { condition: c2, body: b2 },
        ) => same_expr(c1, c2) && same_stmt(*b1, *b2),
        _ => false,
    }
}

fn clone_token_vec(v: &Vec<Token>) -> (r: Vec<Token>)
    ensures
        r@ == v@,
{
    let mut out: Vec<Token> = Vec::new();
    let mut i: usize = 0;
    while i < v.len()
        invariant
            i <= v@.len(),
            out@.len() == i,
            forall|k: int| 0 <= k < i ==> out@[k] == v@[k],
        decreases v@.len() - i,
    {
        out.push(v[i].clone());
        i = i + 1;
    }
    proof {
        assert(out@ =~= v@);
    }
    out
}

impl Clone for Stmt {
    fn clone(&self) -> (r: Self)
        ensures
            same_stmt(r, *self),
        decreases self,
    {
        match self {
            Stmt::Block { statements } => {
                let mut out: Vec<Stmt> = Vec::new();
                let mut i: usize = 0;
                #[verifier::loop_isolation(false)]
                while i < statements.len()
                    invariant
                        i <= statements@.len(),
                        out@.len() == i,
                        forall|k: int|
                            0 <= k < i ==> same_stmt(#[trigger] out@[k], statements@[k]),
                    decreases statements@.len() - i,
                {
                    out.push(statements[i].clone());
                    i = i + 1;
                }
                Stmt::Block { statements: out }
            },
            Stmt::Expression { value } => Stmt::Expression { value: value.clone() },
            Stmt::Function { name, params, body } => {
                let mut out: Vec<Stmt> = Vec::new();
                let mut i: usize = 0;
                #[verifier::loop_isolation(false)]
                while i < body.len()
                    invariant
                        i <= body@.len(),
                        out@.len() == i,
                        forall|k: int| 0 <= k < i ==> same_stmt(#[trigger] out@[k], body@[k]),
                    decreases body@.len() - i,
                {
                    out.push(body[i].clone());
                    i = i + 1;
                }
                Stmt::Function { name: name.clone(), params: clone_token_vec(params), body: out }
            },
            Stmt::If { condition, then_branch, else_branch } => Stmt::If {
                condition: condition.clone(),
                then_branch: Box::new((**then_branch).clone()),
                else_branch: match else_branch {
                    Some(stmt) => Some(Box::new((**stmt).clone())),
                    None => None,
                },
            },
            Stmt::Print { value } => Stmt::Print { value: value.clone() },
            Stmt::Return { keyword, value } => Stmt::Return {
                keyword: keyword.clone(),
                value: match value {
                    Some(expr) => Some(expr.clone()),
                    None => None,
                },
            },
            Stmt::Var { name, initializer } => Stmt::Var {
                name: name.clone(),
                initializer: match initializer {
                    Some(expr) => Some(expr.clone()),
                    None => None,
                },
            },
            Stmt::While { condition, body } => Stmt::While {
                condition: condition.clone(),
                body: Box::new((**body).clone()),
            },
        }
    }
}

} // verus!
