//! The tree-walking interpreter, as a resumable machine.
//!
//! An [`Interp`] holds a program, a cursor stack into its nested blocks,
//! and the turtle.  Each call of [`Interp::step`] carries out exactly one
//! unit of work — one procedure, one guard evaluation, or one block
//! transition — so a driver loops over `step` until it reports `Done` or
//! `Halted`.  A script whose `WHILE` never ends simply never reports
//! `Done`; the machine itself imposes no limit.
//!
//! What one step may do is pinned by [`step_rel`], a relation over the
//! machine's mathematical state that quantifies only over the end points
//! the drawing collaborator may report.
//!
//! Error policy, as pinned by the tests: every fault halts the run, except
//! that a drawing failure raised by a statement inside an `IF` or `WHILE`
//! block is contained there and execution continues with the next
//! statement.

use vstd::prelude::*;
use crate::ast::{
    ASTNode, ControlFlow, Expression, Procedure, RuntimeError, ExprV, expr_view, sv_num, sv_math,
    sv_bool, VAR_DEPTH, copy_bytes,
};
use crate::num::{fits_i64, trunc_div};
use crate::turtle::{Turtle, TurtleV, moved_state};

verus! {

/// The outcome of running one procedure: a finished state, or a fault
/// with the state at the moment of the fault.
pub enum NodeOut {
    Done(TurtleV),
    Failed(RuntimeError, TurtleV),
}

/// Guard evaluation: the guard must coerce to a boolean.
pub open spec fn guard_eval(c: ExprV, t: TurtleV) -> Result<bool, RuntimeError> {
    match sv_bool(c, t, VAR_DEPTH as nat) {
        Ok(Some(b)) => Ok(b),
        Ok(None) => Err(RuntimeError::CoercionFailure),
        Err(e) => Err(e),
    }
}

/// Numeric evaluation of a procedure operand.
pub open spec fn arg_num(e: &Expression, t: TurtleV) -> Result<int, RuntimeError> {
    match sv_num(expr_view(e), t, VAR_DEPTH as nat) {
        Ok(Some(v)) => Ok(v),
        Ok(None) => Err(RuntimeError::CoercionFailure),
        Err(e) => Err(e),
    }
}

/// The value `MAKE` stores: an arithmetic node is reduced to a number,
/// anything else is bound unevaluated.
pub open spec fn make_value(e: &Expression, t: TurtleV) -> Result<ExprV, RuntimeError> {
    match e {
        Expression::Math(_) => match sv_math(expr_view(e), t, VAR_DEPTH as nat) {
            Ok(v) => Ok(ExprV::Num(v)),
            Err(er) => Err(er),
        },
        _ => Ok(expr_view(e)),
    }
}

/// A move's possible outcomes: it ends at some point the collaborator
/// reports, or — with the pen down — the collaborator refuses and the
/// state is unchanged.
pub open spec fn move_out(s: TurtleV, dir_fx: int, dist: int, out: NodeOut) -> bool {
    (exists|ex: int, ey: int| out == NodeOut::Done(moved_state(s, dir_fx, dist, ex, ey))) || (
    s.pen_down && out == NodeOut::Failed(RuntimeError::DrawFailed, s))
}

/// What one procedure does to the turtle state.
pub open spec fn proc_steps(p: &Procedure, s: TurtleV, out: NodeOut) -> bool {
    match p {
        Procedure::PenUp => out == NodeOut::Done(TurtleV { pen_down: false, ..s }),
        Procedure::PenDown => out == NodeOut::Done(TurtleV { pen_down: true, ..s }),
        Procedure::Forward(e) => match arg_num(e, s) {
            Err(er) => out == NodeOut::Failed(er, s),
            Ok(d) => move_out(s, s.heading, d, out),
        },
        Procedure::Back(e) => match arg_num(e, s) {
            Err(er) => out == NodeOut::Failed(er, s),
            Ok(d) => {
                if !fits_i64(-d) {
                    out == NodeOut::Failed(RuntimeError::Overflow, s)
                } else {
                    move_out(s, s.heading, -d, out)
                }
            },
        },
        Procedure::Left(e) => match arg_num(e, s) {
            Err(er) => out == NodeOut::Failed(er, s),
            Ok(d) => {
                if !fits_i64(s.heading - 90000) {
                    out == NodeOut::Failed(RuntimeError::Overflow, s)
                } else {
                    move_out(s, s.heading - 90000, d, out)
                }
            },
        },
        Procedure::Right(e) => match arg_num(e, s) {
            Err(er) => out == NodeOut::Failed(er, s),
            Ok(d) => {
                if !fits_i64(-d) || !fits_i64(s.heading - 90000) {
                    out == NodeOut::Failed(RuntimeError::Overflow, s)
                } else {
                    move_out(s, s.heading - 90000, -d, out)
                }
            },
        },
        Procedure::Turn(e) => match arg_num(e, s) {
            Err(er) => out == NodeOut::Failed(er, s),
            Ok(d) => {
                if fits_i64(s.heading + d) {
                    out == NodeOut::Done(TurtleV { heading: s.heading + d, ..s })
                } else {
                    out == NodeOut::Failed(RuntimeError::Overflow, s)
                }
            },
        },
        Procedure::SetHeading(e) => match arg_num(e, s) {
            Err(er) => out == NodeOut::Failed(er, s),
            Ok(d) => out == NodeOut::Done(TurtleV { heading: d, ..s }),
        },
        Procedure::SetX(e) => match arg_num(e, s) {
            Err(er) => out == NodeOut::Failed(er, s),
            Ok(d) => out == NodeOut::Done(TurtleV { x: d, ..s }),
        },
        Procedure::SetY(e) => match arg_num(e, s) {
            Err(er) => out == NodeOut::Failed(er, s),
            Ok(d) => out == NodeOut::Done(TurtleV { y: d, ..s }),
        },
        Procedure::SetPenColor(e) => match arg_num(e, s) {
            Err(er) => out == NodeOut::Failed(er, s),
            Ok(d) => {
                let idx = trunc_div(d, 1000);
                if 0 <= idx < 16 {
                    out == NodeOut::Done(TurtleV { pen_color: idx, ..s })
                } else {
                    out == NodeOut::Failed(RuntimeError::PaletteOutOfRange, s)
                }
            },
        },
        Procedure::Make(name, value) => match name {
            Expression::Variable(n) => match make_value(value, s) {
                Err(er) => out == NodeOut::Failed(er, s),
                Ok(v) => out == NodeOut::Done(TurtleV { vars: s.vars.insert(n@, v), ..s }),
            },
            _ => out == NodeOut::Failed(RuntimeError::MalformedBinding, s),
        },
        Procedure::AddAssign(name, value) => match name {
            Expression::Variable(n) => {
                if !s.vars.contains_key(n@) {
                    out == NodeOut::Failed(RuntimeError::UndefinedVariable, s)
                } else {
                    let cur = match sv_num(s.vars[n@], s, VAR_DEPTH as nat) {
                        Ok(Some(v)) => Ok(v),
                        Ok(None) => Err(RuntimeError::CoercionFailure),
                        Err(er) => Err(er),
                    };
                    match cur {
                        Err(er) => out == NodeOut::Failed(er, s),
                        Ok(c) => match arg_num(value, s) {
                            Err(er) => out == NodeOut::Failed(er, s),
                            Ok(d) => {
                                if fits_i64(c + d) {
                                    out == NodeOut::Done(
                                        TurtleV { vars: s.vars.insert(n@, ExprV::Num(c + d)), ..s },
                                    )
                                } else {
                                    out == NodeOut::Failed(RuntimeError::Overflow, s)
                                }
                            },
                        },
                    }
                }
            },
            _ => out == NodeOut::Failed(RuntimeError::MalformedBinding, s),
        },
    }
}

/// One cursor of the machine: which statement of the parent block this
/// block was entered from, and the next statement to run within it.
#[derive(Debug, Clone, Copy, PartialEq, Eq, Structural)]
pub struct Frame {
    pub entered_at: usize,
    pub idx: usize,
}

/// What one step reported.
#[derive(Debug, Clone, Copy, PartialEq, Eq, Structural)]
pub enum StepResult {
    /// One unit of work was done; call `step` again.
    Progress,
    /// The program ran to its end.
    Done,
    /// The run halted on a fault.
    Halted(RuntimeError),
}

/// The block a statement node carries, if any.
pub open spec fn block_of_node(n: ASTNode) -> Seq<ASTNode> {
    match n {
        ASTNode::ControlFlow(ControlFlow::If { block, .. }) => block@,
        ASTNode::ControlFlow(ControlFlow::While { block, .. }) => block@,
        ASTNode::Procedure(_) => Seq::empty(),
    }
}

/// The block that cursor `k` of the stack walks: the program itself for
/// the bottom cursor, else the block of the control-flow statement the
/// cursor was entered from.
pub open spec fn block_at(p: Seq<ASTNode>, fr: Seq<Frame>, k: int) -> Seq<ASTNode>
    decreases k,
{
    if k <= 0 {
        p
    } else {
        let parent = block_at(p, fr, k - 1);
        if fr[k].entered_at < parent.len() {
            block_of_node(parent[fr[k].entered_at as int])
        } else {
            Seq::empty()
        }
    }
}

/// Well-formedness of one cursor.
pub open spec fn frame_ok(p: Seq<ASTNode>, fr: Seq<Frame>, k: int) -> bool {
    &&& fr[k].idx <= block_at(p, fr, k).len()
    &&& (k >= 1 ==> fr[k].entered_at < block_at(p, fr, k - 1).len() && block_at(p, fr, k - 1)[fr[k].entered_at as int] is ControlFlow)
}

/// Well-formedness of the cursor stack.
pub open spec fn frames_ok(p: Seq<ASTNode>, fr: Seq<Frame>) -> bool {
    forall|k: int| 0 <= k < fr.len() ==> #[trigger] frame_ok(p, fr, k)
}

/// `block_at` reads only the `entered_at` fields of the cursors below it.
proof fn lemma_block_at_agree(p: Seq<ASTNode>, f1: Seq<Frame>, f2: Seq<Frame>, k: int)
    requires
        forall|j: int| 1 <= j <= k ==> f1[j].entered_at == f2[j].entered_at,
    ensures
        block_at(p, f1, k) == block_at(p, f2, k),
    decreases k,
{
    if k > 0 {
        lemma_block_at_agree(p, f1, f2, k - 1);
    }
}

/// The mathematical state of the machine.
#[verifier::ext_equal]
pub struct MachV {
    pub program: Seq<ASTNode>,
    pub frames: Seq<Frame>,
    pub turtle: TurtleV,
    pub fault: Option<RuntimeError>,
}

/// What one step may do.  Quantification appears only where the drawing
/// collaborator's reported end point enters the state.
pub open spec fn step_rel(pre: MachV, post: MachV, r: StepResult) -> bool {
    if pre.fault is Some {
        post == pre && r == StepResult::Halted(pre.fault->0)
    } else if pre.frames.len() == 0 {
        post == pre && r == StepResult::Done
    } else {
        let k = pre.frames.len() - 1;
        let blk = block_at(pre.program, pre.frames, k);
        let cur = pre.frames[k];
        if cur.idx >= blk.len() {
            if k == 0 {
                post == (MachV { frames: pre.frames.drop_last(), ..pre }) && r == StepResult::Done
            } else {
                let parent = block_at(pre.program, pre.frames, k - 1);
                match parent[cur.entered_at as int] {
                    ASTNode::ControlFlow(ControlFlow::While { condition, .. }) => match guard_eval(
                        expr_view(&condition),
                        pre.turtle,
                    ) {
                        Err(e) => post == (MachV { fault: Some(e), ..pre }) && r
                            == StepResult::Halted(e),
                        Ok(false) => post == (MachV { frames: pre.frames.drop_last(), ..pre }) && r
                            == StepResult::Progress,
                        Ok(true) => post == (MachV {
                            frames: pre.frames.update(
                                k,
                                Frame { entered_at: cur.entered_at, idx: 0 },
                            ),
                            ..pre
                        }) && r == StepResult::Progress,
                    },
                    _ => post == (MachV { frames: pre.frames.drop_last(), ..pre }) && r
                        == StepResult::Progress,
                }
            }
        } else {
            let stmt = blk[cur.idx as int];
            let advanced = pre.frames.update(
                k,
                Frame { entered_at: cur.entered_at, idx: (cur.idx + 1) as usize },
            );
            match stmt {
                ASTNode::Procedure(p) => exists|out: NodeOut|
                    #[trigger] proc_steps(&p, pre.turtle, out) && match out {
                        NodeOut::Done(t1) => post == (MachV {
                            frames: advanced,
                            turtle: t1,
                            ..pre
                        }) && r == StepResult::Progress,
                        NodeOut::Failed(RuntimeError::DrawFailed, t1) => {
                            if k > 0 {
                                post == (MachV { frames: advanced, turtle: t1, ..pre }) && r
                                    == StepResult::Progress
                            } else {
                                post == (MachV {
                                    frames: advanced,
                                    turtle: t1,
                                    fault: Some(RuntimeError::DrawFailed),
                                    ..pre
                                }) && r == StepResult::Halted(RuntimeError::DrawFailed)
                            }
                        },
                        NodeOut::Failed(e, t1) => post == (MachV {
                            frames: advanced,
                            turtle: t1,
                            fault: Some(e),
                            ..pre
                        }) && r == StepResult::Halted(e),
                    },
                ASTNode::ControlFlow(ControlFlow::If { condition, .. }) => match guard_eval(
                    expr_view(&condition),
                    pre.turtle,
                ) {
                    Err(e) => post == (MachV { frames: advanced, fault: Some(e), ..pre }) && r
                        == StepResult::Halted(e),
                    Ok(false) => post == (MachV { frames: advanced, ..pre }) && r
                        == StepResult::Progress,
                    Ok(true) => post == (MachV {
                        frames: advanced.push(Frame { entered_at: cur.idx, idx: 0 }),
                        ..pre
                    }) && r == StepResult::Progress,
                },
                ASTNode::ControlFlow(ControlFlow::While { condition, .. }) => match guard_eval(
                    expr_view(&condition),
                    pre.turtle,
                ) {
                    Err(e) => post == (MachV { frames: advanced, fault: Some(e), ..pre }) && r
                        == StepResult::Halted(e),
                    Ok(false) => post == (MachV { frames: advanced, ..pre }) && r
                        == StepResult::Progress,
                    Ok(true) => post == (MachV {
                        frames: advanced.push(Frame { entered_at: cur.idx, idx: 0 }),
                        ..pre
                    }) && r == StepResult::Progress,
                },
            }
        }
    }
}

/// A `WHILE` whose guard is false on first evaluation executes its block
/// zero times: the step that reaches it leaves the turtle untouched,
/// enters no block, and moves the cursor past the statement.
pub proof fn lemma_while_false_guard(pre: MachV, post: MachV, r: StepResult)
    requires
        step_rel(pre, post, r),
        pre.fault is None,
        pre.frames.len() > 0,
        ({
            let k = pre.frames.len() - 1;
            let blk = block_at(pre.program, pre.frames, k);
            let cur = pre.frames[k];
            &&& cur.idx < blk.len()
            &&& blk[cur.idx as int] matches ASTNode::ControlFlow(ControlFlow::While {
                condition,
                ..
            }) && guard_eval(expr_view(&condition), pre.turtle) == Ok::<bool, RuntimeError>(false)
        }),
    ensures
        post.turtle == pre.turtle,
        post.fault is None,
        r == StepResult::Progress,
        post.frames.len() == pre.frames.len(),
        post.frames == pre.frames.update(
            pre.frames.len() - 1,
            Frame {
                entered_at: pre.frames[pre.frames.len() - 1].entered_at,
                idx: (pre.frames[pre.frames.len() - 1].idx + 1) as usize,
            },
        ),
{
}


/// Pins the containment boundary for drawing failures: when the
/// collaborator refuses a segment, a statement inside a block
/// (`pre.frames.len() > 1`) continues at the next statement with no fault
/// recorded, while a top-level statement halts the run with `DrawFailed`.
/// No script input can drive unsvg to refuse a draw, so the contained
/// side of the policy is pinned here rather than by a test.
pub proof fn lemma_draw_failure_contained(pre: MachV, t1: TurtleV)
    requires
        pre.fault is None,
        pre.frames.len() > 0,
        ({
            let k = pre.frames.len() - 1;
            let blk = block_at(pre.program, pre.frames, k);
            let cur = pre.frames[k];
            &&& cur.idx < blk.len()
            &&& blk[cur.idx as int] matches ASTNode::Procedure(p) && proc_steps(
                &p,
                pre.turtle,
                NodeOut::Failed(RuntimeError::DrawFailed, t1),
            )
        }),
    ensures
        ({
            let k = pre.frames.len() - 1;
            let cur = pre.frames[k];
            let advanced = pre.frames.update(
                k,
                Frame { entered_at: cur.entered_at, idx: (cur.idx + 1) as usize },
            );
            &&& pre.frames.len() > 1 ==> step_rel(
                pre,
                MachV { frames: advanced, turtle: t1, ..pre },
                StepResult::Progress,
            )
            &&& pre.frames.len() == 1 ==> step_rel(
                pre,
                MachV {
                    frames: advanced,
                    turtle: t1,
                    fault: Some(RuntimeError::DrawFailed),
                    ..pre
                },
                StepResult::Halted(RuntimeError::DrawFailed),
            )
        }),
{
    let k = pre.frames.len() - 1;
    let blk = block_at(pre.program, pre.frames, k);
    let cur = pre.frames[k];
    match blk[cur.idx as int] {
        ASTNode::Procedure(p) => {
            let out = NodeOut::Failed(RuntimeError::DrawFailed, t1);
            assert(proc_steps(&p, pre.turtle, out));
        },
        ASTNode::ControlFlow(_) => {},
    }
}

/// Evaluate a numeric operand; the executable counterpart of [`arg_num`].
fn eval_arg(e: &Expression, turtle: &Turtle) -> (r: Result<i64, RuntimeError>)
    requires
        turtle.wf(),
    ensures
        match r {
            Ok(v) => arg_num(e, turtle@) == Ok::<int, RuntimeError>(v as int),
            Err(er) => arg_num(e, turtle@) == Err::<int, RuntimeError>(er),
        },
{
    match e.to_float(turtle) {
        Ok(Some(v)) => Ok(v),
        Ok(None) => Err(RuntimeError::CoercionFailure),
        Err(er) => Err(er),
    }
}

/// Run one procedure against the turtle.
#[verifier::rlimit(100)]
fn exec_proc(p: &Procedure, turtle: &mut Turtle) -> (r: Result<(), RuntimeError>)
    requires
        old(turtle).wf(),
    ensures
        final(turtle).wf(),
        ({
            let out = match r {
                Ok(()) => NodeOut::Done(final(turtle)@),
                Err(e) => NodeOut::Failed(e, final(turtle)@),
            };
            proc_steps(p, old(turtle)@, out)
        }),
{
    match p {
        Procedure::PenUp => {
            turtle.pen_up();
            Ok(())
        },
        Procedure::PenDown => {
            turtle.pen_down();
            Ok(())
        },
        Procedure::Forward(e) => match eval_arg(e, turtle) {
            Err(er) => Err(er),
            Ok(d) => turtle.forward(d),
        },
        Procedure::Back(e) => match eval_arg(e, turtle) {
            Err(er) => Err(er),
            Ok(d) => turtle.back(d),
        },
        Procedure::Left(e) => match eval_arg(e, turtle) {
            Err(er) => Err(er),
            Ok(d) => turtle.left(d),
        },
        Procedure::Right(e) => match eval_arg(e, turtle) {
            Err(er) => Err(er),
            Ok(d) => turtle.right(d),
        },
        Procedure::Turn(e) => match eval_arg(e, turtle) {
            Err(er) => Err(er),
            Ok(d) => turtle.turn(d),
        },
        Procedure::SetHeading(e) => match eval_arg(e, turtle) {
            Err(er) => Err(er),
            Ok(d) => {
                turtle.set_heading(d);
                Ok(())
            },
        },
        Procedure::SetX(e) => match eval_arg(e, turtle) {
            Err(er) => Err(er),
            Ok(d) => {
                turtle.set_x(d);
                Ok(())
            },
        },
        Procedure::SetY(e) => match eval_arg(e, turtle) {
            Err(er) => Err(er),
            Ok(d) => {
                turtle.set_y(d);
                Ok(())
            },
        },
        Procedure::SetPenColor(e) => match eval_arg(e, turtle) {
            Err(er) => Err(er),
            Ok(d) => turtle.set_pen_color(d),
        },
        Procedure::Make(name, value) => match name {
            Expression::Variable(n) => {
                let stored = match value {
                    Expression::Math(_) => match value.eval_math(turtle) {
                        Ok(v) => Expression::Float(v),
                        Err(er) => {
                            return Err(er);
                        },
                    },
                    _ => value.duplicate(),
                };
                let key = copy_bytes(n);
                turtle.add_variable(key, stored);
                Ok(())
            },
            _ => Err(RuntimeError::MalformedBinding),
        },
        Procedure::AddAssign(name, value) => match name {
            Expression::Variable(n) => {
                let cur = match turtle.get_variable(n) {
                    None => {
                        return Err(RuntimeError::UndefinedVariable);
                    },
                    Some(bound) => match bound.to_float(turtle) {
                        Ok(Some(v)) => v,
                        Ok(None) => {
                            return Err(RuntimeError::CoercionFailure);
                        },
                        Err(er) => {
                            return Err(er);
                        },
                    },
                };
                let d = match eval_arg(value, turtle) {
                    Ok(v) => v,
                    Err(er) => {
                        return Err(er);
                    },
                };
                match crate::num::add_fx(cur, d) {
                    Some(sum) => {
                        let key = copy_bytes(n);
                        turtle.add_variable(key, Expression::Float(sum));
                        Ok(())
                    },
                    None => Err(RuntimeError::Overflow),
                }
            },
            _ => Err(RuntimeError::MalformedBinding),
        },
    }
}

/// Walk the cursor stack down to cursor `upto` and return the block it
/// runs.
fn nav<'a>(program: &'a Vec<ASTNode>, frames: &Vec<Frame>, upto: usize) -> (blk: &'a Vec<ASTNode>)
    requires
        frames_ok(program@, frames@),
        upto < frames@.len(),
    ensures
        blk@ == block_at(program@, frames@, upto as int),
{
    let mut blk: &Vec<ASTNode> = program;
    let mut j: usize = 0;
    while j < upto
        invariant
            j <= upto < frames@.len(),
            frames_ok(program@, frames@),
            blk@ == block_at(program@, frames@, j as int),
        decreases upto - j,
    {
        proof {
            assert(frame_ok(program@, frames@, j + 1));
        }
        let ea = frames[j + 1].entered_at;
        blk = match &blk[ea] {
            ASTNode::ControlFlow(ControlFlow::If { block, .. }) => block,
            ASTNode::ControlFlow(ControlFlow::While { block, .. }) => block,
            ASTNode::Procedure(_) => {
                proof {
                    assert(false);
                }
                blk
            },
        };
        j = j + 1;
    }
    blk
}

/// The interpreter: a program, a cursor stack, and the turtle.
pub struct Interp {
    program: Vec<ASTNode>,
    frames: Vec<Frame>,
    turtle: Turtle,
    fault: Option<RuntimeError>,
}

impl Interp {
    /// The machine's mathematical state.
    pub closed spec fn m(&self) -> MachV {
        MachV {
            program: self.program@,
            frames: self.frames@,
            turtle: self.turtle@,
            fault: self.fault,
        }
    }

    /// The machine invariant: a palette-valid turtle and a well-formed
    /// cursor stack.
    pub closed spec fn inv(&self) -> bool {
        &&& self.turtle.wf()
        &&& frames_ok(self.program@, self.frames@)
    }

    /// A machine about to run `program` from its first statement, with the
    /// given turtle.
    pub fn new(program: Vec<ASTNode>, turtle: Turtle) -> (m: Interp)
        requires
            turtle.wf(),
        ensures
            m.inv(),
            m.m().program == program@,
            m.m().frames =~= seq![Frame { entered_at: 0, idx: 0 }],
            m.m().turtle == turtle@,
            m.m().fault is None,
    {
        let mut frames: Vec<Frame> = Vec::new();
        frames.push(Frame { entered_at: 0, idx: 0 });
        let m = Interp { program, frames, turtle, fault: None };
        proof {
            assert(m.frames@ =~= seq![Frame { entered_at: 0, idx: 0 }]);
            assert(block_at(m.program@, m.frames@, 0) == m.program@);
            assert forall|k: int| 0 <= k < m.frames@.len() implies #[trigger] frame_ok(
                m.program@,
                m.frames@,
                k,
            ) by {}
        }
        m
    }

    /// Has the program run to its end without a fault?
    pub fn finished(&self) -> (r: bool)
        ensures
            r == (self.m().frames.len() == 0 && self.m().fault is None),
    {
        self.frames.len() == 0 && self.fault.is_none()
    }

    /// The fault the run halted on, if any.
    pub fn fault(&self) -> (r: Option<RuntimeError>)
        ensures
            r == self.m().fault,
    {
        self.fault
    }

    /// Read the turtle.
    pub fn turtle(&self) -> (r: &Turtle)
        requires
            self.inv(),
        ensures
            r@ == self.m().turtle,
            r.wf(),
    {
        &self.turtle
    }

    /// Take the turtle out of a machine that is done with it.
    pub fn into_turtle(self) -> (r: Turtle)
        requires
            self.inv(),
        ensures
            r@ == self.m().turtle,
            r.wf(),
    {
        self.turtle
    }

    /// Carry out one unit of work: one procedure, one guard evaluation, or
    /// one block transition, as [`step_rel`] describes.
    pub fn step(&mut self) -> (r: StepResult)
        requires
            old(self).inv(),
        ensures
            final(self).inv(),
            step_rel(old(self).m(), final(self).m(), r),
    {
        if let Some(e) = self.fault {
            return StepResult::Halted(e);
        }
        if self.frames.len() == 0 {
            return StepResult::Done;
        }
        let k = self.frames.len() - 1;
        let blk = nav(&self.program, &self.frames, k);
        let cur = self.frames[k];
        let ghost pre = self.m();
        if cur.idx >= blk.len() {
            if k == 0 {
                self.frames.pop();
                proof {
                    assert(self.frames@ =~= pre.frames.drop_last());
                    assert(self.m() =~~= (MachV { frames: pre.frames.drop_last(), ..pre }));
                    assert(frames_ok(self.program@, self.frames@)) by {
                        assert forall|j: int| 0 <= j < self.frames@.len() implies #[trigger] frame_ok(
                            self.program@,
                            self.frames@,
                            j,
                        ) by {}
                    }
                }
                return StepResult::Done;
            }
            let parent = nav(&self.program, &self.frames, k - 1);
            proof {
                assert(frame_ok(self.program@, self.frames@, k as int));
            }
            let guard_true: bool = match &parent[cur.entered_at] {
                ASTNode::ControlFlow(ControlFlow::While { condition, .. }) => {
                    match condition.to_bool(&self.turtle) {
                        Ok(Some(b)) => b,
                        Ok(None) => {
                            self.fault = Some(RuntimeError::CoercionFailure);
                            proof {
                                assert(self.m() =~~= (MachV {
                                    fault: Some(RuntimeError::CoercionFailure),
                                    ..pre
                                }));
                            }
                            return StepResult::Halted(RuntimeError::CoercionFailure);
                        },
                        Err(e) => {
                            self.fault = Some(e);
                            proof {
                                assert(self.m() =~~= (MachV { fault: Some(e), ..pre }));
                            }
                            return StepResult::Halted(e);
                        },
                    }
                },
                _ => false,
            };
            if guard_true {
                self.frames[k] = Frame { entered_at: cur.entered_at, idx: 0 };
                proof {
                    lemma_step_frames_update(pre.program, pre.frames, self.frames@, k as int);
                    assert(self.m() =~~= (MachV {
                        frames: pre.frames.update(
                            k as int,
                            Frame { entered_at: cur.entered_at, idx: 0 },
                        ),
                        ..pre
                    }));
                }
            } else {
                self.frames.pop();
                proof {
                    assert(self.frames@ =~= pre.frames.drop_last());
                    assert forall|j: int| 0 <= j < self.frames@.len() implies #[trigger] frame_ok(
                        self.program@,
                        self.frames@,
                        j,
                    ) by {
                        lemma_block_at_agree(pre.program, pre.frames, self.frames@, j);
                        if j >= 1 {
                            lemma_block_at_agree(pre.program, pre.frames, self.frames@, j - 1);
                        }
                        assert(frame_ok(pre.program, pre.frames, j));
                    }
                    assert(self.m() =~~= (MachV { frames: pre.frames.drop_last(), ..pre }));
                }
            }
            return StepResult::Progress;
        }
        // run the statement at the cursor, then advance the cursor
        let ghost stmt_g = blk@[cur.idx as int];
        let mut is_proc: bool = false;
        let mut enter: bool = false;
        let outcome: Result<(), RuntimeError> = match &blk[cur.idx] {
            ASTNode::Procedure(p) => {
                is_proc = true;
                exec_proc(p, &mut self.turtle)
            },
            ASTNode::ControlFlow(ControlFlow::If { condition, .. })
            | ASTNode::ControlFlow(ControlFlow::While { condition, .. }) => {
                match condition.to_bool(&self.turtle) {
                    Ok(Some(b)) => {
                        enter = b;
                        Ok(())
                    },
                    Ok(None) => Err(RuntimeError::CoercionFailure),
                    Err(e) => Err(e),
                }
            },
        };
        let ghost tmid = self.turtle@;
        self.frames[k] = Frame { entered_at: cur.entered_at, idx: cur.idx + 1 };
        proof {
            assert(self.frames@ == pre.frames.update(
                k as int,
                Frame { entered_at: cur.entered_at, idx: (cur.idx + 1) as usize },
            ));
            lemma_step_frames_update(pre.program, pre.frames, self.frames@, k as int);
        }
        let ghost advanced = self.frames@;
        match outcome {
            Ok(()) => {
                if enter {
                    self.frames.push(Frame { entered_at: cur.idx, idx: 0 });
                    proof {
                        assert(self.frames@ =~= advanced.push(Frame { entered_at: cur.idx, idx: 0 }));
                        let frn = self.frames@;
                        let last = frn.len() - 1;
                        assert forall|j: int| 0 <= j < frn.len() implies #[trigger] frame_ok(
                            self.program@,
                            frn,
                            j,
                        ) by {
                            if j < last {
                                lemma_block_at_agree(pre.program, frn, advanced, j);
                                if j >= 1 {
                                    lemma_block_at_agree(pre.program, frn, advanced, j - 1);
                                }
                                assert(frame_ok(pre.program, advanced, j));
                            } else {
                                lemma_block_at_agree(pre.program, frn, advanced, j - 1);
                                lemma_block_at_agree(pre.program, frn, pre.frames, j - 1);
                                assert(block_at(pre.program, frn, j - 1) == blk@);
                                assert(block_at(pre.program, frn, j) == block_of_node(stmt_g));
                            }
                        }
                    }
                }
                proof {
                    match stmt_g {
                        ASTNode::Procedure(pg) => {
                            let out = NodeOut::Done(tmid);
                            assert(proc_steps(&pg, pre.turtle, out));
                            assert(self.m() =~~= (MachV { frames: advanced, turtle: tmid, ..pre }));
                        },
                        ASTNode::ControlFlow(_) => {
                            if enter {
                                assert(self.m() =~~= (MachV {
                                    frames: advanced.push(Frame { entered_at: cur.idx, idx: 0 }),
                                    ..pre
                                }));
                            } else {
                                assert(self.m() =~~= (MachV { frames: advanced, ..pre }));
                            }
                        },
                    }
                }
                StepResult::Progress
            },
            Err(e) => {
                if is_proc && k > 0 && matches!(e, RuntimeError::DrawFailed) {
                    proof {
                        match stmt_g {
                            ASTNode::Procedure(pg) => {
                                let out = NodeOut::Failed(RuntimeError::DrawFailed, tmid);
                                assert(proc_steps(&pg, pre.turtle, out));
                                assert(self.m() =~~= (MachV {
                                    frames: advanced,
                                    turtle: tmid,
                                    ..pre
                                }));
                            },
                            ASTNode::ControlFlow(_) => {},
                        }
                    }
                    StepResult::Progress
                } else {
                    self.fault = Some(e);
                    proof {
                        match stmt_g {
                            ASTNode::Procedure(pg) => {
                                let out = NodeOut::Failed(e, tmid);
                                assert(proc_steps(&pg, pre.turtle, out));
                                assert(self.m() =~~= (MachV {
                                    frames: advanced,
                                    turtle: tmid,
                                    fault: Some(e),
                                    ..pre
                                }));
                            },
                            ASTNode::ControlFlow(_) => {
                                assert(self.m() =~~= (MachV {
                                    frames: advanced,
                                    fault: Some(e),
                                    ..pre
                                }));
                            },
                        }
                    }
                    StepResult::Halted(e)
                }
            },
        }
    }
}

/// Updating the top cursor's `idx` keeps every block and the stack's
/// well-formedness, provided the new `idx` is in range.
proof fn lemma_step_frames_update(p: Seq<ASTNode>, fr: Seq<Frame>, fr2: Seq<Frame>, k: int)
    requires
        frames_ok(p, fr),
        0 <= k < fr.len(),
        fr2 == fr.update(k, Frame { entered_at: fr[k].entered_at, idx: fr2[k].idx }),
        fr2[k].idx <= block_at(p, fr, k).len(),
    ensures
        frames_ok(p, fr2),
        forall|j: int| 0 <= j < fr2.len() ==> block_at(p, fr2, j) == block_at(p, fr, j),
{
    assert forall|j: int| 0 <= j < fr2.len() implies block_at(p, fr2, j) == block_at(p, fr, j) by {
        lemma_block_at_agree(p, fr2, fr, j);
    }
    assert forall|j: int| 0 <= j < fr2.len() implies #[trigger] frame_ok(p, fr2, j) by {
        assert(frame_ok(p, fr, j));
        lemma_block_at_agree(p, fr2, fr, j);
        if j >= 1 {
            lemma_block_at_agree(p, fr2, fr, j - 1);
        }
    }
}

/// A move that completed with the pen down recorded exactly one line
/// segment — the pre-move position, direction, distance and color — and a
/// move with the pen up recorded none.
pub proof fn lemma_move_draws_one_segment(s: TurtleV, dir_fx: int, dist: int, t1: TurtleV)
    requires
        move_out(s, dir_fx, dist, NodeOut::Done(t1)),
    ensures
        s.pen_down ==> t1.lines == s.lines.push(crate::turtle::move_seg(s, dir_fx, dist)),
        !s.pen_down ==> t1.lines == s.lines,
{
    let (ex, ey) = choose|ex: int, ey: int|
        NodeOut::Done(t1) == NodeOut::Done(moved_state(s, dir_fx, dist, ex, ey));
    assert(t1 == moved_state(s, dir_fx, dist, ex, ey));
}

} // verus!
