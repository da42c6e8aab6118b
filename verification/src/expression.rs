use vstd::prelude::*;

use crate::token::Token;

verus! {

broadcast use vstd::std_specs::vec::group_vec_axioms;

/// A literal as it sits in the syntax tree. A number keeps the digits of
/// its lexeme; what double those digits denote is the host's business.
pub enum Literal {
    Nil,
    True,
    False,
    Number { text: String },
    Str { value: String },
}

/// An expression node. `Get`, `SetProp`, `Super` and `This` parse but
/// belong to an object model this core deliberately leaves unevaluated.
pub enum Expr {
    Assign { name: Token, value: Box<Expr> },
    Binary { left: Box<Expr>, operator: Token, right: Box<Expr> },
    Call { callee: Box<Expr>, paren: Token, arguments: Vec<Expr> },
    Get { object: Box<Expr>, name: Token },
    Grouping { expression: Box<Expr> },
    Literal { value: Literal },
    Logical { left: Box<Expr>, operator: Token, right: Box<Expr> },
    SetProp { object: Box<Expr>, token: Token, value: Box<Expr> },
    Super { keyword: Token, method: Token },
    This { keyword: Token },
    Unary { operator: Token, right: Box<Expr> },
    Variable { name: Token },
}

/// Structural equality on expressions. Children behind a `Vec` are
/// compared element by element, so two trees built separately can be
/// recognised as the same expression; on everything else it is plain
/// value equality.
pub open spec fn same_expr(a: Expr, b: Expr) -> bool
    decreases a,
{
    match (a, b) {
        (Expr::Assign { name: n1, value: v1 }, Expr::Assign { name: n2, value: v2 }) => n1 == n2
            && same_expr(*v1, *v2),
        (
            Expr::Binary { left: l1, operator: o1, right: r1 },
            Expr::Binary { left: l2, operator: o2, right: r2 },
        ) => o1 == o2 && same_expr(*l1, *l2) && same_expr(*r1, *r2),
        (
            Expr::Call { callee: c1, paren: p1, arguments: a1 },
            Expr::Call { callee: c2, paren: p2, arguments: a2 },
        ) => p1 == p2 && same_expr(*c1, *c2) && a1@.len() == a2@.len() && (forall|k: int|
            0 <= k < a1@.len() ==> same_expr(#[trigger] a1@[k], a2@[k])),
        (Expr::Get { object: o1, name: n1 }, Expr::Get { object: o2, name: n2 }) => n1 == n2
            && same_expr(*o1, *o2),
        (Expr::Grouping { expression: e1 }, Expr::Grouping { expression: e2 }) => same_expr(
            *e1,
            *e2,
        ),
        (Expr::Literal { value: v1 }, Expr::Literal { value: v2 }) => v1 == v2,
        (
            Expr::Logical { left: l1, operator: o1, right: r1 },
            Expr::Logical { left: l2, operator: o2, right: r2 },
        ) => o1 == o2 && same_expr(*l1, *l2) && same_expr(*r1, *r2),
        (
            Expr::SetProp { object: o1, token: t1, value: v1 },
            Expr::SetProp { object: o2, token: t2, value: v2 },
        ) => t1 == t2 && same_expr(*o1, *o2) && same_expr(*v1, *v2),
        (
            Expr::Super { keyword: k1, method: m1 },
            Expr::Super { keyword: k2, method: m2 },
        ) => k1 == k2 && m1 == m2,
        (Expr::This { keyword: k1 }, Expr::This { keyword: k2 }) => k1 == k2,
        (
            Expr::Unary { operator: o1, right: r1 },
            Expr::Unary { operator: o2, right: r2 },
        ) => o1 == o2 && same_expr(*r1, *r2),
        (Expr::Variable { name: n1 }, Expr::Variable { name: n2 }) => n1 == n2,
        _ => false,
    }
}

impl Clone for Literal {
    fn clone(&self) -> (r: Self)
        ensures
            r == *self,
    {
        match self {
            Literal::Nil => Literal::Nil,
            Literal::True => Literal::True,
            Literal::False => Literal::False,
            Literal::Number { text } => Literal::Number { text: text.clone() },
            Literal::Str { value } => Literal::Str { value: value.clone() },
        }
    }
}

impl Clone for Expr {
    fn clone(&self) -> (r: Self)
        ensures
            same_expr(r, *self),
        decreases self,
    {
        match self {
            Expr::Assign { name, value } => Expr::Assign {
                name: name.clone(),
                value: Box::new((**value).clone()),
            },
            Expr::Binary { left, operator, right } => Expr::Binary {
                left: Box::new((**left).clone()),
                operator: operator.clone(),
                right: Box::new((**right).clone()),
            },
            Expr::Call { callee, paren, arguments } => {
                let mut args: Vec<Expr> = Vec::new();
                let mut i: usize = 0;
                #[verifier::loop_isolation(false)]
                while i < arguments.len()
                    invariant
                        i <= arguments@.len(),
                        args@.len() == i,
                        forall|k: int| 0 <= k < i ==> same_expr(#[trigger] args@[k], arguments@[k]),
                    decreases arguments@.len() - i,
                {
                    args.push(arguments[i].clone());
                    i = i + 1;
                }
                Expr::Call {
                    callee: Box::new((**callee).clone()),
                    paren: paren.clone(),
                    arguments: args,
                }
            },
            Expr::Get { object, name } => Expr::Get {
                object: Box::new((**object).clone()),
                name: name.clone(),
            },
            Expr::Grouping { expression } => Expr::Grouping {
                expression: Box::new((**expression).clone()),
            },
            Expr::Literal { value } => Expr::Literal { value: value.clone() },
            Expr::Logical { left, operator, right } => Expr::Logical {
                left: Box::new((**left).clone()),
                operator: operator.clone(),
                right: Box::new((**right).clone()),
            },
            Expr::SetProp { object, token, value } => Expr::SetProp {
                object: Box::new((**object).clone()),
                token: token.clone(),
                value: Box::new((**value).clone()),
            },
            Expr::Super { keyword, method } => Expr::Super {
                keyword: keyword.clone(),
                method: method.clone(),
            },
            Expr::This { keyword } => Expr::This { keyword: keyword.clone() },
            Expr::Unary { operator, right } => Expr::Unary {
                operator: operator.clone(),
                right: Box::new((**right).clone()),
            },
            Expr::Variable { name } => Expr::Variable { name: name.clone() },
        }
    }
}

} // verus!
