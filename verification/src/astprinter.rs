use vstd::prelude::*;

use crate::expression::{Expr, Literal};

verus! {

broadcast use vstd::std_specs::vec::group_vec_axioms;

/// Renders expressions in fully parenthesized prefix form, e.g.
/// `(* (- 123) (group 45.67))`; a sanity check for the parser and the
/// shape of its trees.
pub struct AstPrinter {}

/// The number text shown for a literal: the digits as written, with a
/// whole-valued `.0` suffix dropped, so `123.0` shows as `123`. The text
/// is otherwise not normalized — `45.670` prints as written, where a
/// renderer of the double value itself would drop the final zero.
pub open spec fn spec_number_text(text: Seq<char>) -> Seq<char> {
    if text.len() >= 2 && text[text.len() - 2] == '.' && text[text.len() - 1] == '0' {
        text.take(text.len() - 2)
    } else {
        text
    }
}

pub open spec fn spec_literal_text(value: Literal) -> Seq<char> {
    match value {
        Literal::Nil => "nil"@,
        Literal::True => "true"@,
        Literal::False => "false"@,
        Literal::Number { text } => spec_number_text(text@),
        Literal::Str { value } => value@,
    }
}

/// The printable fragment: literals, groupings, unary and binary
/// operators. The remaining shapes have no rendering here.
pub open spec fn printable(e: Expr) -> bool
    decreases e,
{
    match e {
        Expr::Literal { .. } => true,
        Expr::Grouping { expression } => printable(*expression),
        Expr::Unary { right, .. } => printable(*right),
        Expr::Binary { left, right, .. } => printable(*left) && printable(*right),
        _ => false,
    }
}

pub open spec fn spec_print_expr(e: Expr) -> Seq<char>
    decreases e,
{
    match e {
        Expr::Literal { value } => spec_literal_text(value),
        Expr::Grouping { expression } => "(group "@ + spec_print_expr(*expression) + ")"@,
        Expr::Unary { operator, right } => "("@ + operator.lexeme@ + " "@ + spec_print_expr(
            *right,
        ) + ")"@,
        Expr::Binary { left, operator, right } => "("@ + operator.lexeme@ + " "@ + spec_print_expr(
            *left,
        ) + " "@ + spec_print_expr(*right) + ")"@,
        _ => Seq::<char>::empty(),
    }
}

fn push_literal(out: &mut String, value: &Literal)
    ensures
        final(out)@ == old(out)@ + spec_literal_text(*value),
{
    match value {
        Literal::Nil => out.append("nil"),
        Literal::True => out.append("true"),
        Literal::False => out.append("false"),
        Literal::Number { text } => {
            let n = text.as_str().unicode_len();
            if n >= 2 {
                let dot = text.as_str().get_char(n - 2);
                let zero = text.as_str().get_char(n - 1);
                if dot == '.' && zero == '0' {
                    out.append(text.as_str().substring_char(0, n - 2));
                } else {
                    out.append(text.as_str());
                }
            } else {
                out.append(text.as_str());
            }
        },
        Literal::Str { value } => out.append(value.as_str()),
    }
}

fn push_expr(out: &mut String, e: &Expr)
    requires
        printable(*e),
    ensures
        final(out)@ == old(out)@ + spec_print_expr(*e),
    decreases *e,
{
    match e {
        Expr::Literal { value } => push_literal(out, value),
        Expr::Grouping { expression } => {
            out.append("(group ");
            push_expr(out, expression);
            out.append(")");
        },
        Expr::Unary { operator, right } => {
            out.append("(");
            out.append(operator.lexeme.as_str());
            out.append(" ");
            push_expr(out, right);
            out.append(")");
        },
        Expr::Binary { left, operator, right } => {
            out.append("(");
            out.append(operator.lexeme.as_str());
            out.append(" ");
            push_expr(out, left);
            out.append(" ");
            push_expr(out, right);
            out.append(")");
        },
        _ => {
            proof {
                assert(false);
            }
        },
    }
}

impl AstPrinter {
    /// Renders one printable expression.
    pub fn print(&mut self, expr: Expr) -> (r: String)
        requires
            printable(expr),
        ensures
            r@ == spec_print_expr(expr),
    {
        let mut out = String::new();
        push_expr(&mut out, &expr);
        out
    }
}

} // verus!
