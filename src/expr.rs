use vstd::prelude::*;
use crate::token::{Token, TokenView};

verus! {

/// The value of a literal expression.
#[derive(Debug)]
pub enum LiteralValue {
    Boolean(bool),
    /// A number, in its decimal text.
    Number(String),
    Str(String),
    Nil,
}

#[derive(Debug)]
pub struct Literal {
    pub value: LiteralValue,
}

#[derive(Debug)]
pub struct Binary {
    pub left: Box<ExprEnum>,
    pub op: Token,
    pub right: Box<ExprEnum>,
}

#[derive(Debug)]
pub struct Grouping {
    pub expression: Box<ExprEnum>,
}

#[derive(Debug)]
pub struct Unary {
    pub op: Token,
    pub right: Box<ExprEnum>,
}

/// A reference to a name.
#[derive(Debug)]
pub struct Variable {
    pub name: Token,
}

/// An expression tree. Each node owns its children.
#[derive(Debug)]
pub enum ExprEnum {
    Binary(Binary),
    Grouping(Grouping),
    Literal(Literal),
    Unary(Unary),
    Variable(Variable),
}

/// The mathematical value of a literal.
pub enum LiteralView {
    Boolean(bool),
    Number(Seq<char>),
    Str(Seq<char>),
    Nil,
}

/// The mathematical value of an expression tree.
pub enum ExprView {
    Binary(Box<ExprView>, TokenView, Box<ExprView>),
    Grouping(Box<ExprView>),
    Literal(LiteralView),
    Unary(TokenView, Box<ExprView>),
    Variable(TokenView),
}

impl View for LiteralValue {
    type V = LiteralView;

    open spec fn view(&self) -> LiteralView {
        match self {
            LiteralValue::Boolean(b) => LiteralView::Boolean(*b),
            LiteralValue::Number(t) => LiteralView::Number(t@),
            LiteralValue::Str(t) => LiteralView::Str(t@),
            LiteralValue::Nil => LiteralView::Nil,
        }
    }
}

pub open spec fn expr_view(e: &ExprEnum) -> ExprView
    decreases e,
{
    match e {
        ExprEnum::Binary(b) => ExprView::Binary(
            Box::new(expr_view(&*b.left)),
            b.op@,
            Box::new(expr_view(&*b.right)),
        ),
        ExprEnum::Grouping(g) => ExprView::Grouping(Box::new(expr_view(&*g.expression))),
        ExprEnum::Literal(l) => ExprView::Literal(l.value@),
        ExprEnum::Unary(u) => ExprView::Unary(u.op@, Box::new(expr_view(&*u.right))),
        ExprEnum::Variable(v) => ExprView::Variable(v.name@),
    }
}

impl View for ExprEnum {
    type V = ExprView;

    open spec fn view(&self) -> ExprView {
        expr_view(self)
    }
}

/// A computation over expression trees, one operation per kind of node. Each
/// operation receives the node and the results already computed for its
/// children, and `produces` states which result belongs to which tree.
pub trait Visitor<T> {
    spec fn produces(&self, e: ExprView, r: T) -> bool;

    fn visit_binary(&self, expr: &Binary, left: T, right: T) -> (r: T)
        requires
            self.produces(expr.left@, left),
            self.produces(expr.right@, right),
        ensures
            self.produces(ExprView::Binary(Box::new(expr.left@), expr.op@, Box::new(expr.right@)), r),
    ;

    fn visit_grouping(&self, expr: &Grouping, inner: T) -> (r: T)
        requires
            self.produces(expr.expression@, inner),
        ensures
            self.produces(ExprView::Grouping(Box::new(expr.expression@)), r),
    ;

    fn visit_literal(&self, expr: &Literal) -> (r: T)
        ensures
            self.produces(ExprView::Literal(expr.value@), r),
    ;

    fn visit_unary(&self, expr: &Unary, right: T) -> (r: T)
        requires
            self.produces(expr.right@, right),
        ensures
            self.produces(ExprView::Unary(expr.op@, Box::new(expr.right@)), r),
    ;

    fn visit_variable(&self, expr: &Variable) -> (r: T)
        ensures
            self.produces(ExprView::Variable(expr.name@), r),
    ;
}

impl ExprEnum {
    /// Runs `visitor` over this tree: children first, then the one operation
    /// that matches this node, whose result is returned unchanged.
    pub fn accept<T, V: Visitor<T>>(&self, visitor: &V) -> (r: T)
        ensures
            visitor.produces(self@, r),
        decreases self,
    {
        match self {
            ExprEnum::Binary(b) => {
                let left = b.left.accept(visitor);
                let right = b.right.accept(visitor);
                visitor.visit_binary(b, left, right)
            },
            ExprEnum::Grouping(g) => {
                let inner = g.expression.accept(visitor);
                visitor.visit_grouping(g, inner)
            },
            ExprEnum::Literal(l) => visitor.visit_literal(l),
            ExprEnum::Unary(u) => {
                let right = u.right.accept(visitor);
                visitor.visit_unary(u, right)
            },
            ExprEnum::Variable(v) => visitor.visit_variable(v),
        }
    }
}

/// The text of a literal: `true`, `false`, `nil`, or the text it holds.
pub open spec fn literal_text(v: LiteralView) -> Seq<char> {
    match v {
        LiteralView::Boolean(b) => if b {
            "true"@
        } else {
            "false"@
        },
        LiteralView::Number(t) => t,
        LiteralView::Str(t) => t,
        LiteralView::Nil => "nil"@,
    }
}

/// The parenthesized prefix form of a tree.
pub open spec fn print_spec(e: ExprView) -> Seq<char>
    decreases e,
{
    match e {
        ExprView::Binary(l, op, r) => "("@ + op.lexeme + " "@ + print_spec(*l) + " "@ + print_spec(*r)
            + ")"@,
        ExprView::Grouping(inner) => "(group "@ + print_spec(*inner) + ")"@,
        ExprView::Literal(v) => literal_text(v),
        ExprView::Unary(op, r) => "("@ + op.lexeme + " "@ + print_spec(*r) + ")"@,
        ExprView::Variable(name) => name.lexeme,
    }
}

/// Writes a tree in parenthesized prefix form.
pub struct AstPrinter;

impl Visitor<String> for AstPrinter {
    open spec fn produces(&self, e: ExprView, r: String) -> bool {
        r@ == print_spec(e)
    }

    fn visit_binary(&self, expr: &Binary, left: String, right: String) -> (r: String) {
        let mut r = String::from_str("(");
        r.append(expr.op.lexeme.as_str());
        r.append(" ");
        r.append(left.as_str());
        r.append(" ");
        r.append(right.as_str());
        r.append(")");
        r
    }

    fn visit_grouping(&self, expr: &Grouping, inner: String) -> (r: String) {
        let mut r = String::from_str("(group ");
        r.append(inner.as_str());
        r.append(")");
        r
    }

    fn visit_literal(&self, expr: &Literal) -> (r: String) {
        match &expr.value {
            LiteralValue::Boolean(b) => if *b {
                String::from_str("true")
            } else {
                String::from_str("false")
            },
            LiteralValue::Number(t) => t.clone(),
            LiteralValue::Str(t) => t.clone(),
            LiteralValue::Nil => String::from_str("nil"),
        }
    }

    fn visit_unary(&self, expr: &Unary, right: String) -> (r: String) {
        let mut r = String::from_str("(");
        r.append(expr.op.lexeme.as_str());
        r.append(" ");
        r.append(right.as_str());
        r.append(")");
        r
    }

    fn visit_variable(&self, expr: &Variable) -> (r: String) {
        expr.name.lexeme.clone()
    }
}

impl AstPrinter {
    /// The parenthesized prefix form of `e`.
    pub fn print(&self, e: &ExprEnum) -> (r: String)
        ensures
            r@ == print_spec(e@),
    {
        e.accept(self)
    }
}

} // verus!
