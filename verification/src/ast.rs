//! The abstract syntax tree of the language, and expression evaluation.
//!
//! Expressions are immutable trees.  Evaluating one coerces it on demand
//! into one of three value domains — numeric, string, boolean — against the
//! current turtle state and variable environment; a coercion that no domain
//! can satisfy, an unbound variable, a division by zero or an arithmetic
//! overflow is reported as an explicit [`RuntimeError`] rather than a
//! panic.

use vstd::prelude::*;
use crate::num::{fx_add, fx_sub, fx_mul, fx_div, add_fx, sub_fx, mul_fx, div_fx};
use crate::turtle::{Turtle, TurtleV};
use crate::uncertain_bool::is_option_eq;
use vstd::std_specs::cmp::PartialEqSpec;

verus! {

/// A fault during evaluation.  Every fault halts the run, except that a
/// drawing failure raised by a statement inside an `IF` or `WHILE` block is
/// contained by that block and execution continues with the next statement.
#[derive(Debug, Clone, Copy, PartialEq, Eq, Structural)]
pub enum RuntimeError {
    /// A variable was referenced before any `MAKE` bound it.
    UndefinedVariable,
    /// A value was requested in a domain it cannot satisfy.
    CoercionFailure,
    /// A division by zero.
    DivisionByZero,
    /// A pen color index outside the fixed 16-color palette.
    PaletteOutOfRange,
    /// The first argument of `MAKE` or `ADDASSIGN` was not a name.
    MalformedBinding,
    /// A fixed-point value left the representable range.
    Overflow,
    /// A chain of variable bindings deeper than the evaluation limit.
    RecursionLimit,
    /// The drawing collaborator failed to draw a segment.
    DrawFailed,
}

/// How many variable indirections one evaluation may follow.
pub const VAR_DEPTH: u64 = 64;

/// A read of current turtle state, usable as an expression value.
#[derive(Debug, Clone, Copy, PartialEq, Eq, Structural)]
pub enum Query {
    /// The turtle's x-coordinate.
    XCOR,
    /// The turtle's y-coordinate.
    YCOR,
    /// The turtle's heading, in degrees.
    HEADING,
    /// The turtle's pen color, as a palette index.
    COLOR,
}

/// A value-producing node.  Numbers are fixed-point with three decimal
/// digits of fraction (see [`crate::num`]).
#[derive(Debug)]
pub enum Expression {
    /// A numeric literal, in fixed-point representation.
    Float(i64),
    /// A read of turtle state.
    Query(Query),
    /// A variable reference, by name.
    Variable(Vec<u8>),
    /// A string literal.
    Str(Vec<u8>),
    /// A prefix arithmetic operation over two sub-expressions.
    Math(Box<Math>),
    /// A boolean condition used as a value.
    Bool(Box<Condition>),
}

/// A prefix arithmetic operation with fixed arity two.
#[derive(Debug)]
pub enum Math {
    /// Addition.
    Add(Expression, Expression),
    /// Subtraction.
    Sub(Expression, Expression),
    /// Multiplication.
    Mul(Expression, Expression),
    /// Division; dividing by zero is a fault, never an infinite value.
    Div(Expression, Expression),
}

/// A boolean-valued node.
#[derive(Debug)]
pub enum Condition {
    /// Polymorphic equality: true if any shared domain finds both sides equal.
    Equal(Expression, Expression),
    /// Polymorphic inequality: true if some domain admits both operands
    /// and every such domain finds them unequal.
    NotEqual(Expression, Expression),
    /// Numeric less-than; both sides must coerce to numbers.
    LessThan(Expression, Expression),
    /// Numeric greater-than; both sides must coerce to numbers.
    GreaterThan(Expression, Expression),
    /// Logical AND; both sides are always evaluated.
    And(Box<Condition>, Box<Condition>),
    /// Logical OR; both sides are always evaluated.
    Or(Box<Condition>, Box<Condition>),
}

/// A single built-in executable action.
#[derive(Debug)]
pub enum Procedure {
    /// Lift the pen: motion stops drawing.
    PenUp,
    /// Lower the pen: motion draws line segments.
    PenDown,
    /// Move forward by the operand's numeric value.
    Forward(Expression),
    /// Move backward.
    Back(Expression),
    /// Move left, at right angles to the heading.
    Left(Expression),
    /// Move right, at right angles to the heading.
    Right(Expression),
    /// Select a palette color by index.
    SetPenColor(Expression),
    /// Add to the heading, without wrapping.
    Turn(Expression),
    /// Set the heading.
    SetHeading(Expression),
    /// Set the x-coordinate.
    SetX(Expression),
    /// Set the y-coordinate.
    SetY(Expression),
    /// Bind a variable to a value expression.
    Make(Expression, Expression),
    /// Add a numeric delta to an already-bound variable.
    AddAssign(Expression, Expression),
}

/// A guarded block: `IF` runs it at most once, `WHILE` repeats it while
/// the guard holds.
#[derive(Debug)]
pub enum ControlFlow {
    /// Run the block once if the guard is true.
    If { condition: Expression, block: Vec<ASTNode> },
    /// Re-evaluate the guard before every pass over the block.
    While { condition: Expression, block: Vec<ASTNode> },
}

/// One statement of a program: a procedure or a control-flow block.
#[derive(Debug)]
pub enum ASTNode {
    /// A single built-in action.
    Procedure(Procedure),
    /// A guarded block.
    ControlFlow(ControlFlow),
}

/// The mathematical shape of an expression: names as byte sequences,
/// numbers as unbounded integers in fixed-point representation.
pub enum ExprV {
    Num(int),
    Query(Query),
    Var(Seq<u8>),
    Str(Seq<u8>),
    MathE(Box<MathV>),
    BoolE(Box<CondV>),
}

/// The mathematical shape of an arithmetic node.
pub enum MathV {
    Add(ExprV, ExprV),
    Sub(ExprV, ExprV),
    Mul(ExprV, ExprV),
    Div(ExprV, ExprV),
}

/// The mathematical shape of a condition.
pub enum CondV {
    Equal(ExprV, ExprV),
    NotEqual(ExprV, ExprV),
    LessThan(ExprV, ExprV),
    GreaterThan(ExprV, ExprV),
    And(Box<CondV>, Box<CondV>),
    Or(Box<CondV>, Box<CondV>),
}

/// The mathematical value of an expression.
pub open spec fn expr_view(e: &Expression) -> ExprV
    decreases e,
{
    match e {
        Expression::Float(v) => ExprV::Num(*v as int),
        Expression::Query(q) => ExprV::Query(*q),
        Expression::Variable(n) => ExprV::Var(n@),
        Expression::Str(s) => ExprV::Str(s@),
        Expression::Math(m) => ExprV::MathE(Box::new(math_view(m))),
        Expression::Bool(c) => ExprV::BoolE(Box::new(cond_view(c))),
    }
}

/// The mathematical value of an arithmetic node.
pub open spec fn math_view(m: &Math) -> MathV
    decreases m,
{
    match m {
        Math::Add(a, b) => MathV::Add(expr_view(a), expr_view(b)),
        Math::Sub(a, b) => MathV::Sub(expr_view(a), expr_view(b)),
        Math::Mul(a, b) => MathV::Mul(expr_view(a), expr_view(b)),
        Math::Div(a, b) => MathV::Div(expr_view(a), expr_view(b)),
    }
}

/// The mathematical value of a condition.
pub open spec fn cond_view(c: &Condition) -> CondV
    decreases c,
{
    match c {
        Condition::Equal(a, b) => CondV::Equal(expr_view(a), expr_view(b)),
        Condition::NotEqual(a, b) => CondV::NotEqual(expr_view(a), expr_view(b)),
        Condition::LessThan(a, b) => CondV::LessThan(expr_view(a), expr_view(b)),
        Condition::GreaterThan(a, b) => CondV::GreaterThan(expr_view(a), expr_view(b)),
        Condition::And(a, b) => CondV::And(Box::new(cond_view(a)), Box::new(cond_view(b))),
        Condition::Or(a, b) => CondV::Or(Box::new(cond_view(a)), Box::new(cond_view(b))),
    }
}

/// Is one option pair equal in its domain: both present with equal values?
pub open spec fn opt_eq_true<T>(a: Option<T>, b: Option<T>) -> bool {
    a is Some && b is Some && a->0 == b->0
}

/// Does one domain count against equality: both values present and
/// different?
pub open spec fn opt_ne<T>(a: Option<T>, b: Option<T>) -> bool {
    a is Some && b is Some && a->0 != b->0
}

/// Numeric coercion: `Ok(Some(v))` is the value, `Ok(None)` means the
/// expression has no numeric reading, `Err` is a fault.
pub open spec fn sv_num(e: ExprV, t: TurtleV, fuel: nat) -> Result<Option<int>, RuntimeError>
    decreases fuel, e, 1int,
{
    match e {
        ExprV::Num(v) => Ok(Some(v)),
        ExprV::Var(n) => {
            if !t.vars.contains_key(n) {
                Err(RuntimeError::UndefinedVariable)
            } else if fuel == 0 {
                Err(RuntimeError::RecursionLimit)
            } else {
                sv_num(t.vars[n], t, (fuel - 1) as nat)
            }
        },
        ExprV::MathE(_) => match sv_math(e, t, fuel) {
            Ok(v) => Ok(Some(v)),
            Err(er) => Err(er),
        },
        ExprV::Query(q) => Ok(
            Some(
                match q {
                    Query::XCOR => t.x,
                    Query::YCOR => t.y,
                    Query::COLOR => t.pen_color * 1000,
                    Query::HEADING => t.heading,
                },
            ),
        ),
        ExprV::Str(_) => Ok(None),
        ExprV::BoolE(_) => Ok(None),
    }
}

/// Full arithmetic reduction of an expression to a number; any expression
/// without a numeric reading is a coercion fault here.
pub open spec fn sv_math(e: ExprV, t: TurtleV, fuel: nat) -> Result<int, RuntimeError>
    decreases fuel, e, 0int,
{
    match e {
        ExprV::MathE(m) => {
            let (l, r) = match *m {
                MathV::Add(l, r) => (l, r),
                MathV::Sub(l, r) => (l, r),
                MathV::Mul(l, r) => (l, r),
                MathV::Div(l, r) => (l, r),
            };
            match sv_math(l, t, fuel) {
                Err(er) => Err(er),
                Ok(lv) => match sv_math(r, t, fuel) {
                    Err(er) => Err(er),
                    Ok(rv) => match *m {
                        MathV::Add(_, _) => match fx_add(lv, rv) {
                            Some(v) => Ok(v),
                            None => Err(RuntimeError::Overflow),
                        },
                        MathV::Sub(_, _) => match fx_sub(lv, rv) {
                            Some(v) => Ok(v),
                            None => Err(RuntimeError::Overflow),
                        },
                        MathV::Mul(_, _) => match fx_mul(lv, rv) {
                            Some(v) => Ok(v),
                            None => Err(RuntimeError::Overflow),
                        },
                        MathV::Div(_, _) => {
                            if rv == 0 {
                                Err(RuntimeError::DivisionByZero)
                            } else {
                                match fx_div(lv, rv) {
                                    Some(v) => Ok(v),
                                    None => Err(RuntimeError::Overflow),
                                }
                            }
                        },
                    },
                },
            }
        },
        ExprV::Num(v) => Ok(v),
        ExprV::Var(n) => {
            if !t.vars.contains_key(n) {
                Err(RuntimeError::UndefinedVariable)
            } else if fuel == 0 {
                Err(RuntimeError::RecursionLimit)
            } else {
                match sv_num(t.vars[n], t, (fuel - 1) as nat) {
                    Err(er) => Err(er),
                    Ok(Some(v)) => Ok(v),
                    Ok(None) => Err(RuntimeError::CoercionFailure),
                }
            }
        },
        ExprV::Query(q) => Ok(
            match q {
                Query::XCOR => t.x,
                Query::YCOR => t.y,
                Query::COLOR => t.pen_color * 1000,
                Query::HEADING => t.heading,
            },
        ),
        ExprV::Str(_) => Err(RuntimeError::CoercionFailure),
        ExprV::BoolE(_) => Err(RuntimeError::CoercionFailure),
    }
}

/// String coercion: only string literals and variables bound to them read
/// as strings.
pub open spec fn sv_str(e: ExprV, t: TurtleV, fuel: nat) -> Result<Option<Seq<u8>>, RuntimeError>
    decreases fuel, e, 1int,
{
    match e {
        ExprV::Str(s) => Ok(Some(s)),
        ExprV::Var(n) => {
            if !t.vars.contains_key(n) {
                Err(RuntimeError::UndefinedVariable)
            } else if fuel == 0 {
                Err(RuntimeError::RecursionLimit)
            } else {
                sv_str(t.vars[n], t, (fuel - 1) as nat)
            }
        },
        _ => Ok(None),
    }
}

/// Boolean coercion: conditions and variables bound to them read as
/// booleans.
pub open spec fn sv_bool(e: ExprV, t: TurtleV, fuel: nat) -> Result<Option<bool>, RuntimeError>
    decreases fuel, e, 1int,
{
    match e {
        ExprV::BoolE(c) => match sv_cond(*c, t, fuel) {
            Ok(b) => Ok(Some(b)),
            Err(er) => Err(er),
        },
        ExprV::Var(n) => {
            if !t.vars.contains_key(n) {
                Err(RuntimeError::UndefinedVariable)
            } else if fuel == 0 {
                Err(RuntimeError::RecursionLimit)
            } else {
                sv_bool(t.vars[n], t, (fuel - 1) as nat)
            }
        },
        _ => Ok(None),
    }
}

/// Condition evaluation.  Equality and inequality try the numeric, boolean
/// and string domains in turn; a domain counts only when both operands
/// coerce in it.  Equality holds if some counting domain finds the values
/// equal; inequality holds if at least one domain counts and every
/// counting domain finds them unequal — so operands with no shared domain
/// satisfy neither.  Less-than and greater-than demand numeric readings.
/// AND and OR evaluate both sides unconditionally.
pub open spec fn sv_cond(c: CondV, t: TurtleV, fuel: nat) -> Result<bool, RuntimeError>
    decreases fuel, c, 0int,
{
    match c {
        CondV::Equal(e1, e2) | CondV::NotEqual(e1, e2) => match (
            sv_num(e1, t, fuel),
            sv_num(e2, t, fuel),
        ) {
            (Err(er), _) => Err(er),
            (Ok(_), Err(er)) => Err(er),
            (Ok(f1), Ok(f2)) => match (sv_bool(e1, t, fuel), sv_bool(e2, t, fuel)) {
                (Err(er), _) => Err(er),
                (Ok(_), Err(er)) => Err(er),
                (Ok(b1), Ok(b2)) => match (sv_str(e1, t, fuel), sv_str(e2, t, fuel)) {
                    (Err(er), _) => Err(er),
                    (Ok(_), Err(er)) => Err(er),
                    (Ok(s1), Ok(s2)) => {
                        if c is Equal {
                            Ok(opt_eq_true(f1, f2) || opt_eq_true(b1, b2) || opt_eq_true(s1, s2))
                        } else {
                            Ok(
                                (opt_ne(f1, f2) || opt_ne(b1, b2) || opt_ne(s1, s2))
                                    && !opt_eq_true(f1, f2) && !opt_eq_true(b1, b2) && !opt_eq_true(
                                    s1,
                                    s2,
                                ),
                            )
                        }
                    },
                },
            },
        },
        CondV::LessThan(e1, e2) => match (sv_num(e1, t, fuel), sv_num(e2, t, fuel)) {
            (Err(er), _) => Err(er),
            (Ok(None), _) => Err(RuntimeError::CoercionFailure),
            (Ok(Some(_)), Err(er)) => Err(er),
            (Ok(Some(_)), Ok(None)) => Err(RuntimeError::CoercionFailure),
            (Ok(Some(v1)), Ok(Some(v2))) => Ok(v1 < v2),
        },
        CondV::GreaterThan(e1, e2) => match (sv_num(e1, t, fuel), sv_num(e2, t, fuel)) {
            (Err(er), _) => Err(er),
            (Ok(None), _) => Err(RuntimeError::CoercionFailure),
            (Ok(Some(_)), Err(er)) => Err(er),
            (Ok(Some(_)), Ok(None)) => Err(RuntimeError::CoercionFailure),
            (Ok(Some(v1)), Ok(Some(v2))) => Ok(v1 > v2),
        },
        CondV::And(c1, c2) => match (sv_cond(*c1, t, fuel), sv_cond(*c2, t, fuel)) {
            (Err(er), _) => Err(er),
            (Ok(_), Err(er)) => Err(er),
            (Ok(b1), Ok(b2)) => Ok(b1 && b2),
        },
        CondV::Or(c1, c2) => match (sv_cond(*c1, t, fuel), sv_cond(*c2, t, fuel)) {
            (Err(er), _) => Err(er),
            (Ok(_), Err(er)) => Err(er),
            (Ok(b1), Ok(b2)) => Ok(b1 || b2),
        },
    }
}

/// View of a numeric coercion result.
pub open spec fn num_res_view(r: Result<Option<i64>, RuntimeError>) -> Result<
    Option<int>,
    RuntimeError,
> {
    match r {
        Ok(Some(v)) => Ok(Some(v as int)),
        Ok(None) => Ok(None),
        Err(e) => Err(e),
    }
}

/// View of a string coercion result.
pub open spec fn str_res_view(r: Result<Option<Vec<u8>>, RuntimeError>) -> Result<
    Option<Seq<u8>>,
    RuntimeError,
> {
    match r {
        Ok(Some(v)) => Ok(Some(v@)),
        Ok(None) => Ok(None),
        Err(e) => Err(e),
    }
}

/// View of an arithmetic reduction result.
pub open spec fn math_res_view(r: Result<i64, RuntimeError>) -> Result<int, RuntimeError> {
    match r {
        Ok(v) => Ok(v as int),
        Err(e) => Err(e),
    }
}

/// Copy a byte vector.
pub fn copy_bytes(v: &Vec<u8>) -> (r: Vec<u8>)
    ensures
        r@ == v@,
{
    let mut r: Vec<u8> = Vec::new();
    let mut k: usize = 0;
    while k < v.len()
        invariant
            k <= v@.len(),
            r@ =~= v@.subrange(0, k as int),
        decreases v@.len() - k,
    {
        r.push(v[k]);
        proof {
            assert(r@ =~= v@.subrange(0, k + 1));
        }
        k = k + 1;
    }
    proof {
        assert(r@ =~= v@);
    }
    r
}

impl Expression {
    /// A deep copy with the same mathematical value.
    pub fn duplicate(&self) -> (r: Expression)
        ensures
            expr_view(&r) == expr_view(self),
        decreases self,
    {
        match self {
            Expression::Float(v) => Expression::Float(*v),
            Expression::Query(q) => Expression::Query(*q),
            Expression::Variable(n) => Expression::Variable(copy_bytes(n)),
            Expression::Str(s) => Expression::Str(copy_bytes(s)),
            Expression::Math(m) => Expression::Math(Box::new(m.duplicate())),
            Expression::Bool(c) => Expression::Bool(Box::new(c.duplicate())),
        }
    }
}

impl Math {
    /// A deep copy with the same mathematical value.
    pub fn duplicate(&self) -> (r: Math)
        ensures
            math_view(&r) == math_view(self),
        decreases self,
    {
        match self {
            Math::Add(a, b) => Math::Add(a.duplicate(), b.duplicate()),
            Math::Sub(a, b) => Math::Sub(a.duplicate(), b.duplicate()),
            Math::Mul(a, b) => Math::Mul(a.duplicate(), b.duplicate()),
            Math::Div(a, b) => Math::Div(a.duplicate(), b.duplicate()),
        }
    }
}

impl Condition {
    /// A deep copy with the same mathematical value.
    pub fn duplicate(&self) -> (r: Condition)
        ensures
            cond_view(&r) == cond_view(self),
        decreases self,
    {
        match self {
            Condition::Equal(a, b) => Condition::Equal(a.duplicate(), b.duplicate()),
            Condition::NotEqual(a, b) => Condition::NotEqual(a.duplicate(), b.duplicate()),
            Condition::LessThan(a, b) => Condition::LessThan(a.duplicate(), b.duplicate()),
            Condition::GreaterThan(a, b) => Condition::GreaterThan(a.duplicate(), b.duplicate()),
            Condition::And(a, b) => Condition::And(Box::new(a.duplicate()), Box::new(b.duplicate())),
            Condition::Or(a, b) => Condition::Or(Box::new(a.duplicate()), Box::new(b.duplicate())),
        }
    }
}

impl Expression {
    /// Numeric coercion against the given turtle state, following at most
    /// `fuel` variable indirections.
    pub fn to_float_fuel(&self, turtle: &Turtle, fuel: u64) -> (r: Result<
        Option<i64>,
        RuntimeError,
    >)
        requires
            turtle.wf(),
        ensures
            num_res_view(r) == sv_num(expr_view(self), turtle@, fuel as nat),
        decreases fuel, self, 1int,
    {
        match self {
            Expression::Float(v) => Ok(Some(*v)),
            Expression::Variable(n) => match turtle.get_variable(n) {
                None => Err(RuntimeError::UndefinedVariable),
                Some(bound) => {
                    if fuel == 0 {
                        Err(RuntimeError::RecursionLimit)
                    } else {
                        bound.to_float_fuel(turtle, fuel - 1)
                    }
                },
            },
            Expression::Math(_) => match self.eval_math_fuel(turtle, fuel) {
                Ok(v) => Ok(Some(v)),
                Err(er) => Err(er),
            },
            Expression::Query(q) => Ok(
                Some(
                    match q {
                        Query::XCOR => turtle.get_x(),
                        Query::YCOR => turtle.get_y(),
                        Query::COLOR => turtle.get_pen_color(),
                        Query::HEADING => turtle.get_heading(),
                    },
                ),
            ),
            Expression::Str(_) => Ok(None),
            Expression::Bool(_) => Ok(None),
        }
    }

    /// Numeric coercion with the default indirection limit.
    pub fn to_float(&self, turtle: &Turtle) -> (r: Result<Option<i64>, RuntimeError>)
        requires
            turtle.wf(),
        ensures
            num_res_view(r) == sv_num(expr_view(self), turtle@, VAR_DEPTH as nat),
    {
        self.to_float_fuel(turtle, VAR_DEPTH)
    }

    /// String coercion, following at most `fuel` variable indirections.
    pub fn to_string_fuel(&self, turtle: &Turtle, fuel: u64) -> (r: Result<
        Option<Vec<u8>>,
        RuntimeError,
    >)
        requires
            turtle.wf(),
        ensures
            str_res_view(r) == sv_str(expr_view(self), turtle@, fuel as nat),
        decreases fuel, self, 1int,
    {
        match self {
            Expression::Str(s) => Ok(Some(copy_bytes(s))),
            Expression::Variable(n) => match turtle.get_variable(n) {
                None => Err(RuntimeError::UndefinedVariable),
                Some(bound) => {
                    if fuel == 0 {
                        Err(RuntimeError::RecursionLimit)
                    } else {
                        bound.to_string_fuel(turtle, fuel - 1)
                    }
                },
            },
            _ => Ok(None),
        }
    }

    /// String coercion with the default indirection limit.
    pub fn to_string(&self, turtle: &Turtle) -> (r: Result<Option<Vec<u8>>, RuntimeError>)
        requires
            turtle.wf(),
        ensures
            str_res_view(r) == sv_str(expr_view(self), turtle@, VAR_DEPTH as nat),
    {
        self.to_string_fuel(turtle, VAR_DEPTH)
    }

    /// Boolean coercion, following at most `fuel` variable indirections.
    pub fn to_bool_fuel(&self, turtle: &Turtle, fuel: u64) -> (r: Result<
        Option<bool>,
        RuntimeError,
    >)
        requires
            turtle.wf(),
        ensures
            r == sv_bool(expr_view(self), turtle@, fuel as nat),
        decreases fuel, self, 1int,
    {
        match self {
            Expression::Bool(c) => match c.eval_fuel(turtle, fuel) {
                Ok(b) => Ok(Some(b)),
                Err(er) => Err(er),
            },
            Expression::Variable(n) => match turtle.get_variable(n) {
                None => Err(RuntimeError::UndefinedVariable),
                Some(bound) => {
                    if fuel == 0 {
                        Err(RuntimeError::RecursionLimit)
                    } else {
                        bound.to_bool_fuel(turtle, fuel - 1)
                    }
                },
            },
            _ => Ok(None),
        }
    }

    /// Boolean coercion with the default indirection limit.
    pub fn to_bool(&self, turtle: &Turtle) -> (r: Result<Option<bool>, RuntimeError>)
        requires
            turtle.wf(),
        ensures
            r == sv_bool(expr_view(self), turtle@, VAR_DEPTH as nat),
    {
        self.to_bool_fuel(turtle, VAR_DEPTH)
    }

    /// Full arithmetic reduction to a number, following at most `fuel`
    /// variable indirections.
    pub fn eval_math_fuel(&self, turtle: &Turtle, fuel: u64) -> (r: Result<i64, RuntimeError>)
        requires
            turtle.wf(),
        ensures
            math_res_view(r) == sv_math(expr_view(self), turtle@, fuel as nat),
        decreases fuel, self, 0int,
    {
        match self {
            Expression::Math(m) => {
                let (l, rr) = match &**m {
                    Math::Add(l, rr) => (l, rr),
                    Math::Sub(l, rr) => (l, rr),
                    Math::Mul(l, rr) => (l, rr),
                    Math::Div(l, rr) => (l, rr),
                };
                let lv = match l.eval_math_fuel(turtle, fuel) {
                    Ok(v) => v,
                    Err(er) => {
                        return Err(er);
                    },
                };
                let rv = match rr.eval_math_fuel(turtle, fuel) {
                    Ok(v) => v,
                    Err(er) => {
                        return Err(er);
                    },
                };
                match &**m {
                    Math::Add(_, _) => match add_fx(lv, rv) {
                        Some(v) => Ok(v),
                        None => Err(RuntimeError::Overflow),
                    },
                    Math::Sub(_, _) => match sub_fx(lv, rv) {
                        Some(v) => Ok(v),
                        None => Err(RuntimeError::Overflow),
                    },
                    Math::Mul(_, _) => match mul_fx(lv, rv) {
                        Some(v) => Ok(v),
                        None => Err(RuntimeError::Overflow),
                    },
                    Math::Div(_, _) => {
                        if rv == 0 {
                            Err(RuntimeError::DivisionByZero)
                        } else {
                            match div_fx(lv, rv) {
                                Some(v) => Ok(v),
                                None => Err(RuntimeError::Overflow),
                            }
                        }
                    },
                }
            },
            Expression::Float(v) => Ok(*v),
            Expression::Variable(n) => match turtle.get_variable(n) {
                None => Err(RuntimeError::UndefinedVariable),
                Some(bound) => {
                    if fuel == 0 {
                        Err(RuntimeError::RecursionLimit)
                    } else {
                        match bound.to_float_fuel(turtle, fuel - 1) {
                            Err(er) => Err(er),
                            Ok(Some(v)) => Ok(v),
                            Ok(None) => Err(RuntimeError::CoercionFailure),
                        }
                    }
                },
            },
            Expression::Query(q) => Ok(
                match q {
                    Query::XCOR => turtle.get_x(),
                    Query::YCOR => turtle.get_y(),
                    Query::COLOR => turtle.get_pen_color(),
                    Query::HEADING => turtle.get_heading(),
                },
            ),
            Expression::Str(_) => Err(RuntimeError::CoercionFailure),
            Expression::Bool(_) => Err(RuntimeError::CoercionFailure),
        }
    }

    /// Full arithmetic reduction with the default indirection limit.
    pub fn eval_math(&self, turtle: &Turtle) -> (r: Result<i64, RuntimeError>)
        requires
            turtle.wf(),
        ensures
            math_res_view(r) == sv_math(expr_view(self), turtle@, VAR_DEPTH as nat),
    {
        self.eval_math_fuel(turtle, VAR_DEPTH)
    }
}

impl Condition {
    /// Evaluate the condition, following at most `fuel` variable
    /// indirections.
    pub fn eval_fuel(&self, turtle: &Turtle, fuel: u64) -> (r: Result<bool, RuntimeError>)
        requires
            turtle.wf(),
        ensures
            r == sv_cond(cond_view(self), turtle@, fuel as nat),
        decreases fuel, self, 0int,
    {
        match self {
            Condition::Equal(e1, e2) | Condition::NotEqual(e1, e2) => {
                let f1 = match e1.to_float_fuel(turtle, fuel) {
                    Ok(v) => v,
                    Err(er) => {
                        return Err(er);
                    },
                };
                let f2 = match e2.to_float_fuel(turtle, fuel) {
                    Ok(v) => v,
                    Err(er) => {
                        return Err(er);
                    },
                };
                let b1 = match e1.to_bool_fuel(turtle, fuel) {
                    Ok(v) => v,
                    Err(er) => {
                        return Err(er);
                    },
                };
                let b2 = match e2.to_bool_fuel(turtle, fuel) {
                    Ok(v) => v,
                    Err(er) => {
                        return Err(er);
                    },
                };
                let s1 = match e1.to_string_fuel(turtle, fuel) {
                    Ok(v) => v,
                    Err(er) => {
                        return Err(er);
                    },
                };
                let s2 = match e2.to_string_fuel(turtle, fuel) {
                    Ok(v) => v,
                    Err(er) => {
                        return Err(er);
                    },
                };
                proof {
                    match (&s1, &s2) {
                        (Some(v1), Some(v2)) => {
                            assert(v1.eq_spec(v2) == (v1@ == v2@)) by {
                                if v1.eq_spec(v2) {
                                    assert(v1@ =~= v2@);
                                }
                                if v1@ == v2@ {
                                    assert(v1.eq_spec(v2));
                                }
                            }
                        },
                        _ => {},
                    }
                }
                if matches!(self, Condition::Equal(_, _)) {
                    let float = is_option_eq(f1, f2);
                    let boolean = is_option_eq(b1, b2);
                    let string = is_option_eq(s1, s2);
                    Ok(float.is_true() || boolean.is_true() || string.is_true())
                } else {
                    // some domain must admit both operands, and every domain
                    // admitting both must find them unequal
                    let mut counting: bool = false;
                    let mut all_differ: bool = true;
                    match (&f1, &f2) {
                        (Some(a), Some(b)) => {
                            counting = true;
                            if a == b {
                                all_differ = false;
                            }
                        },
                        _ => {},
                    }
                    match (&b1, &b2) {
                        (Some(a), Some(b)) => {
                            counting = true;
                            if a == b {
                                all_differ = false;
                            }
                        },
                        _ => {},
                    }
                    match (&s1, &s2) {
                        (Some(a), Some(b)) => {
                            counting = true;
                            if crate::turtle::bytes_eq(a, b) {
                                all_differ = false;
                            }
                        },
                        _ => {},
                    }
                    Ok(counting && all_differ)
                }
            },
            Condition::LessThan(e1, e2) | Condition::GreaterThan(e1, e2) => {
                let v1 = match e1.to_float_fuel(turtle, fuel) {
                    Ok(Some(v)) => v,
                    Ok(None) => {
                        return Err(RuntimeError::CoercionFailure);
                    },
                    Err(er) => {
                        return Err(er);
                    },
                };
                let v2 = match e2.to_float_fuel(turtle, fuel) {
                    Ok(Some(v)) => v,
                    Ok(None) => {
                        return Err(RuntimeError::CoercionFailure);
                    },
                    Err(er) => {
                        return Err(er);
                    },
                };
                if matches!(self, Condition::LessThan(_, _)) {
                    Ok(v1 < v2)
                } else {
                    Ok(v1 > v2)
                }
            },
            Condition::And(c1, c2) | Condition::Or(c1, c2) => {
                let b1 = match c1.eval_fuel(turtle, fuel) {
                    Ok(v) => v,
                    Err(er) => {
                        return Err(er);
                    },
                };
                let b2 = match c2.eval_fuel(turtle, fuel) {
                    Ok(v) => v,
                    Err(er) => {
                        return Err(er);
                    },
                };
                if matches!(self, Condition::And(_, _)) {
                    Ok(b1 && b2)
                } else {
                    Ok(b1 || b2)
                }
            },
        }
    }

    /// Evaluate the condition with the default indirection limit.
    pub fn eval(&self, turtle: &Turtle) -> (r: Result<bool, RuntimeError>)
        requires
            turtle.wf(),
        ensures
            r == sv_cond(cond_view(self), turtle@, VAR_DEPTH as nat),
    {
        self.eval_fuel(turtle, VAR_DEPTH)
    }
}

/// `EQ` and `NE` between operands that are coercible only in different
/// domains both evaluate false: no domain admits both operands, so no
/// domain can find them equal, and the domain that admits neither leaves
/// their inequality unsettled.
pub proof fn lemma_eq_disjoint_domains(e1: ExprV, e2: ExprV, t: TurtleV, fuel: nat)
    requires
        sv_num(e1, t, fuel) is Ok,
        sv_num(e2, t, fuel) is Ok,
        sv_bool(e1, t, fuel) is Ok,
        sv_bool(e2, t, fuel) is Ok,
        sv_str(e1, t, fuel) is Ok,
        sv_str(e2, t, fuel) is Ok,
        !(sv_num(e1, t, fuel)->Ok_0 is Some && sv_num(e2, t, fuel)->Ok_0 is Some),
        !(sv_bool(e1, t, fuel)->Ok_0 is Some && sv_bool(e2, t, fuel)->Ok_0 is Some),
        !(sv_str(e1, t, fuel)->Ok_0 is Some && sv_str(e2, t, fuel)->Ok_0 is Some),
        ({
            ||| (sv_num(e1, t, fuel)->Ok_0 is None && sv_num(e2, t, fuel)->Ok_0 is None)
            ||| (sv_bool(e1, t, fuel)->Ok_0 is None && sv_bool(e2, t, fuel)->Ok_0 is None)
            ||| (sv_str(e1, t, fuel)->Ok_0 is None && sv_str(e2, t, fuel)->Ok_0 is None)
        }),
    ensures
        sv_cond(CondV::Equal(e1, e2), t, fuel) == Ok::<bool, RuntimeError>(false),
        sv_cond(CondV::NotEqual(e1, e2), t, fuel) == Ok::<bool, RuntimeError>(false),
{
}

} // verus!
