//! Map expressions: a variable bound to a field's value and a side-effect-free
//! expression over it.
use crate::value::Value;
use vstd::prelude::*;
use vstd::utf8::encode_utf8;

verus! {

/// An expression over one bound variable.
#[derive(Debug)]
pub enum Expr {
    /// The variable of this name.
    Var(String),
    /// Whether a text is empty.
    IsEmpty(Box<Expr>),
    /// The length of a text in bytes.
    Len(Box<Expr>),
    /// The negation of a truth value.
    Not(Box<Expr>),
}

/// A binding `var => expr`: the field's value is bound to `var`, and `expr`
/// gives the value that is written in its place.
#[derive(Debug)]
pub struct MapExpr {
    pub var: String,
    pub expr: Expr,
}

impl Expr {
    /// Every variable of the expression is `var`.
    pub open spec fn closed_over(&self, var: Seq<char>) -> bool
        decreases self,
    {
        match self {
            Expr::Var(name) => name@ == var,
            Expr::IsEmpty(e) => e.closed_over(var),
            Expr::Len(e) => e.closed_over(var),
            Expr::Not(e) => e.closed_over(var),
        }
    }

    /// The value of the expression with its variable bound to `v`; `None`
    /// where an operation meets a value of the wrong kind.
    pub open spec fn eval(&self, v: Value) -> Option<Value>
        decreases self,
    {
        match self {
            Expr::Var(_) => Some(v),
            Expr::IsEmpty(e) => match e.eval(v) {
                Some(Value::Str(s)) => Some(Value::Bool(s@.len() == 0)),
                _ => None,
            },
            Expr::Len(e) => match e.eval(v) {
                Some(Value::Str(s)) => Some(Value::Int(encode_utf8(s@).len() as usize as i128)),
                _ => None,
            },
            Expr::Not(e) => match e.eval(v) {
                Some(Value::Bool(b)) => Some(Value::Bool(!b)),
                _ => None,
            },
        }
    }

    /// Says whether every variable of the expression is `var`.
    pub fn is_closed_over(&self, var: &String) -> (ok: bool)
        ensures
            ok == self.closed_over(var@),
        decreases self,
    {
        match self {
            Expr::Var(name) => *name == *var,
            Expr::IsEmpty(e) => e.is_closed_over(var),
            Expr::Len(e) => e.is_closed_over(var),
            Expr::Not(e) => e.is_closed_over(var),
        }
    }

    /// Evaluates the expression with its variable bound to `v`.
    pub fn evaluate(&self, v: &Value) -> (out: Option<Value>)
        ensures
            out == self.eval(*v),
        decreases self,
    {
        match self {
            Expr::Var(_) => Some(v.duplicate()),
            Expr::IsEmpty(e) => match e.evaluate(v) {
                Some(Value::Str(s)) => Some(Value::Bool(s.as_str().is_empty())),
                _ => None,
            },
            Expr::Len(e) => match e.evaluate(v) {
                Some(Value::Str(s)) => Some(Value::Int(s.as_str().len() as i128)),
                _ => None,
            },
            Expr::Not(e) => match e.evaluate(v) {
                Some(Value::Bool(b)) => Some(Value::Bool(!b)),
                _ => None,
            },
        }
    }
}

impl MapExpr {
    /// The expression uses no variable but the one that is bound.
    pub open spec fn wf(&self) -> bool {
        self.expr.closed_over(self.var@)
    }

    /// The value written for `v`.
    pub open spec fn apply(&self, v: Value) -> Option<Value> {
        self.expr.eval(v)
    }
}

} // verus!
