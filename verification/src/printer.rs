//! The text of an expression, fully parenthesised, for inspection.

use vstd::prelude::*;
use vstd::string::StringExecFns;
use crate::expr::{
    binop_symbol, size, uniop_symbol, Expr, ExprView, Literal, LiteralView, Numeral, NumeralView,
};
use crate::text::{ascii_text, decimal, push_bytes, push_decimal};

verus! {

/// A numeral as it was written.
pub open spec fn numeral_text(n: NumeralView) -> Seq<char> {
    match n {
        NumeralView::Integer(n) => decimal(n as nat),
        NumeralView::Decimal(d) => ascii_text(d.whole) + "."@ + ascii_text(d.fraction),
    }
}

/// A literal as it prints: a numeral as written, a string without quotes,
/// and `true`, `false` or `null`.
pub open spec fn literal_text(l: LiteralView) -> Seq<char> {
    match l {
        LiteralView::Number(n) => numeral_text(n),
        LiteralView::String(s) => s,
        LiteralView::True => "true"@,
        LiteralView::False => "false"@,
        LiteralView::Null => "null"@,
    }
}

/// An expression with every operation in parentheses: `(group e)`,
/// `(op e)`, `(l op r)` and `(name = e)`.
pub open spec fn format_spec(e: ExprView) -> Seq<char>
    decreases e,
{
    match e {
        ExprView::Grouping(inner) => "("@ + "group"@ + " "@ + format_spec(*inner) + ")"@,
        ExprView::Unary(op, operand) => "("@ + uniop_symbol(op.u_type) + " "@ + format_spec(
            *operand,
        ) + ")"@,
        ExprView::Binary(left, op, right) => "("@ + format_spec(*left) + " "@ + binop_symbol(
            op.b_type,
        ) + " "@ + format_spec(*right) + ")"@,
        ExprView::Literal(value) => literal_text(value),
        ExprView::Variable(name) => name.name,
        ExprView::Assignment(name, value) => "("@ + name.name + " = "@ + format_spec(*value)
            + ")"@,
    }
}

impl Literal {
    /// The literal as it prints.
    pub fn text(&self) -> (text: String)
        ensures
            text@ == literal_text(self@),
    {
        match self {
            Literal::Number(Numeral::Integer(n)) => {
                let mut text = String::new();
                push_decimal(&mut text, *n);
                assert(text@ =~= decimal(*n as nat));
                text
            },
            Literal::Number(Numeral::Decimal(d)) => {
                let mut text = String::new();
                push_bytes(&mut text, d.whole.as_slice());
                text.append(".");
                push_bytes(&mut text, d.fraction.as_slice());
                assert(text@ =~= ascii_text(d.whole@) + "."@ + ascii_text(d.fraction@));
                text
            },
            Literal::String(s) => s.clone(),
            Literal::True => String::from_str("true"),
            Literal::False => String::from_str("false"),
            Literal::Null => String::from_str("null"),
        }
    }
}

/// The text of an expression, fully parenthesised.
pub fn format(expr: &Expr) -> (text: String)
    ensures
        text@ == format_spec(expr@),
    decreases size(expr@), 0int,
{
    match expr {
        Expr::Grouping(expr) => parenthesize("group", expr),
        Expr::Unary(op, expr) => parenthesize(op.u_type.symbol(), expr),
        Expr::Binary(left, op, right) => parenthesize_bin(op.b_type.symbol(), left, right),
        Expr::Literal(value) => value.text(),
        Expr::Variable(name) => name.name.clone(),
        Expr::Assignment(name, value) => {
            let mut text = String::from_str("(");
            text.append(name.name.as_str());
            text.append(" = ");
            text.append(format(value).as_str());
            text.append(")");
            text
        },
    }
}

fn parenthesize_bin(name: &str, left: &Expr, right: &Expr) -> (text: String)
    ensures
        text@ == "("@ + format_spec(left@) + " "@ + name@ + " "@ + format_spec(right@) + ")"@,
    decreases size(left@) + size(right@), 1int,
{
    let mut text = String::from_str("(");
    text.append(format(left).as_str());
    text.append(" ");
    text.append(name);
    text.append(" ");
    text.append(format(right).as_str());
    text.append(")");
    text
}

fn parenthesize(name: &str, expr: &Expr) -> (text: String)
    ensures
        text@ == "("@ + name@ + " "@ + format_spec(expr@) + ")"@,
    decreases size(expr@), 1int,
{
    let mut text = String::from_str("(");
    text.append(name);
    text.append(" ");
    text.append(format(expr).as_str());
    text.append(")");
    text
}

} // verus!
