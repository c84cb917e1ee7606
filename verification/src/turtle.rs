//! The turtle: position, heading, pen state, pen color, the variable
//! environment, and the canvas being drawn on.
//!
//! Coordinates, the heading and all script values are fixed-point numbers
//! (see [`crate::num`]).  A move hands the drawing collaborator whole
//! coordinates and takes back the end point it reports; with the pen down
//! the move also records one line segment on the canvas.

use vstd::prelude::*;
use unsvg::Image;
use crate::ast::{Expression, ExprV, expr_view, RuntimeError};
use crate::canvas::{image_dims, image_lines, dimensions, draw_line, end_coordinates, COORD_BOUND};
use crate::num::{abs_i, trunc_div, fits_i64};

verus! {

/// The mathematical state of a turtle: coordinates in fixed point, the
/// variable environment as a map, and the canvas as its dimensions plus
/// the segments drawn so far.
#[verifier::ext_equal]
pub struct TurtleV {
    pub x: int,
    pub y: int,
    pub heading: int,
    pub pen_down: bool,
    pub pen_color: int,
    pub vars: Map<Seq<u8>, ExprV>,
    pub lines: Seq<(int, int, int, int, int)>,
    pub width: int,
    pub height: int,
}

/// The environment as a map; a later binding of a name shadows an earlier
/// one.
pub open spec fn env_map(entries: Seq<(Vec<u8>, Expression)>) -> Map<Seq<u8>, ExprV>
    decreases entries.len(),
{
    if entries.len() == 0 {
        Map::empty()
    } else {
        env_map(entries.drop_last()).insert(entries.last().0@, expr_view(&entries.last().1))
    }
}

/// The turtle state.
pub struct Turtle {
    image: Image,
    variables: Vec<(Vec<u8>, Expression)>,
    x: i64,
    y: i64,
    heading: i64,
    pen_down: bool,
    pen_color: i64,
}

impl View for Turtle {
    type V = TurtleV;

    closed spec fn view(&self) -> TurtleV {
        TurtleV {
            x: self.x as int,
            y: self.y as int,
            heading: self.heading as int,
            pen_down: self.pen_down,
            pen_color: self.pen_color as int,
            vars: env_map(self.variables@),
            lines: image_lines(self.image),
            width: image_dims(self.image).0,
            height: image_dims(self.image).1,
        }
    }
}

/// A fixed-point coordinate or length as handed to the drawing
/// collaborator: whole units, truncated toward zero and clamped to the
/// collaborator's safe range.
pub open spec fn coord_of(v: int) -> int {
    let q = trunc_div(v, 1000);
    if q < -(COORD_BOUND as int) {
        -(COORD_BOUND as int)
    } else if q > COORD_BOUND as int {
        COORD_BOUND as int
    } else {
        q
    }
}

/// A fixed-point heading as handed to the drawing collaborator: whole
/// degrees, truncated toward zero and clamped to the `i32` range.
pub open spec fn dir_of(v: int) -> int {
    let q = trunc_div(v, 1000);
    if q < i32::MIN as int {
        i32::MIN as int
    } else if q > i32::MAX as int {
        i32::MAX as int
    } else {
        q
    }
}

/// The segment a move draws: start point, direction, length, color.
pub open spec fn move_seg(t: TurtleV, dir_fx: int, dist: int) -> (int, int, int, int, int) {
    (coord_of(t.x), coord_of(t.y), dir_of(dir_fx), coord_of(dist), t.pen_color)
}

/// The state after a move along `dir_fx` by `dist` that ended at the
/// reported point `(ex, ey)`: the position is the reported point, and with
/// the pen down one segment is recorded.
pub open spec fn moved_state(t: TurtleV, dir_fx: int, dist: int, ex: int, ey: int) -> TurtleV {
    TurtleV {
        x: ex * 1000,
        y: ey * 1000,
        lines: if t.pen_down {
            t.lines.push(move_seg(t, dir_fx, dist))
        } else {
            t.lines
        },
        ..t
    }
}

/// Did a move along `dir_fx` by `dist` take the turtle from `pre` to
/// `post` with outcome `r`?  With the pen up the move always succeeds;
/// with the pen down the collaborator may refuse, leaving the state
/// unchanged.
pub open spec fn move_rel(
    pre: TurtleV,
    dir_fx: int,
    dist: int,
    post: TurtleV,
    r: Result<(), RuntimeError>,
) -> bool {
    match r {
        Ok(()) => exists|ex: int, ey: int| post =~~= moved_state(pre, dir_fx, dist, ex, ey),
        Err(e) => e == RuntimeError::DrawFailed && pre.pen_down && post =~~= pre,
    }
}

/// Truncate a fixed-point value toward zero and clamp it into `[-bound,
/// bound]`.
fn fx_clamped(v: i64, bound: i32) -> (r: i32)
    requires
        bound > 0,
    ensures
        r as int == ({
            let q = trunc_div(v as int, 1000);
            if q < -(bound as int) {
                -(bound as int)
            } else if q > bound as int {
                bound as int
            } else {
                q
            }
        }),
{
    let mag: u64 = if v >= 0 {
        (v as u64) / 1000
    } else {
        ((-(v as i128)) as u64) / 1000
    };
    proof {
        assert(mag == abs_i(v as int) / 1000);
    }
    if v >= 0 {
        if mag > bound as u64 {
            bound
        } else {
            mag as i32
        }
    } else {
        if mag > bound as u64 {
            -bound
        } else {
            -(mag as i32)
        }
    }
}

/// The pixel coordinate handed to the collaborator for a fixed-point
/// value.
fn to_coord(v: i64) -> (r: i32)
    ensures
        r as int == coord_of(v as int),
{
    fx_clamped(v, COORD_BOUND)
}

/// The whole-degree direction handed to the collaborator.
fn to_dir(v: i64) -> (r: i32)
    ensures
        r as int == dir_of(v as int),
{
    let mag: u64 = if v >= 0 {
        (v as u64) / 1000
    } else {
        ((-(v as i128)) as u64) / 1000
    };
    proof {
        assert(mag == abs_i(v as int) / 1000);
    }
    if v >= 0 {
        if mag > i32::MAX as u64 {
            i32::MAX
        } else {
            mag as i32
        }
    } else {
        if mag > 0x8000_0000u64 {
            i32::MIN
        } else if mag == 0x8000_0000u64 {
            i32::MIN
        } else {
            -(mag as i32)
        }
    }
}

impl Turtle {
    /// The palette index invariant: the pen color always names one of the
    /// 16 palette entries.
    pub open spec fn wf(&self) -> bool {
        0 <= self@.pen_color < 16
    }

    /// A fresh turtle on the given canvas: at the canvas center, heading
    /// up, pen up, with the default palette color.
    pub fn new(image: Image) -> (t: Turtle)
        ensures
            t.wf(),
            t@ =~~= (TurtleV {
                x: image_dims(image).0 * 500,
                y: image_dims(image).1 * 500,
                heading: 0,
                pen_down: false,
                pen_color: 7,
                vars: Map::empty(),
                lines: image_lines(image),
                width: image_dims(image).0,
                height: image_dims(image).1,
            }),
    {
        let (w, h) = dimensions(&image);
        Turtle {
            image,
            variables: Vec::new(),
            x: (w as i64) * 500,
            y: (h as i64) * 500,
            heading: 0,
            pen_down: false,
            pen_color: 7,
        }
    }

    /// Hand the finished canvas back.
    pub fn into_image(self) -> (img: Image)
        ensures
            image_lines(img) == self@.lines,
            image_dims(img).0 == self@.width,
            image_dims(img).1 == self@.height,
    {
        self.image
    }

    /// Lift the pen: motion stops drawing.
    pub fn pen_up(&mut self)
        ensures
            final(self)@ =~~= (TurtleV { pen_down: false, ..old(self)@ }),
            final(self).wf() == old(self).wf(),
    {
        self.pen_down = false;
    }

    /// Lower the pen: motion draws line segments.
    pub fn pen_down(&mut self)
        ensures
            final(self)@ =~~= (TurtleV { pen_down: true, ..old(self)@ }),
            final(self).wf() == old(self).wf(),
    {
        self.pen_down = true;
    }

    /// Add to the heading, without wrapping.
    pub fn turn(&mut self, delta: i64) -> (r: Result<(), RuntimeError>)
        ensures
            match r {
                Ok(()) => fits_i64(old(self)@.heading + delta) && final(self)@ =~~= (TurtleV {
                    heading: old(self)@.heading + delta,
                    ..old(self)@
                }),
                Err(e) => e == RuntimeError::Overflow && !fits_i64(old(self)@.heading + delta)
                    && final(self)@ =~~= old(self)@,
            },
            final(self).wf() == old(self).wf(),
    {
        match crate::num::add_fx(self.heading, delta) {
            Some(h) => {
                self.heading = h;
                Ok(())
            },
            None => Err(RuntimeError::Overflow),
        }
    }

    /// Set the heading.
    pub fn set_heading(&mut self, v: i64)
        ensures
            final(self)@ =~~= (TurtleV { heading: v as int, ..old(self)@ }),
            final(self).wf() == old(self).wf(),
    {
        self.heading = v;
    }

    /// Set the x-coordinate.
    pub fn set_x(&mut self, v: i64)
        ensures
            final(self)@ =~~= (TurtleV { x: v as int, ..old(self)@ }),
            final(self).wf() == old(self).wf(),
    {
        self.x = v;
    }

    /// Set the y-coordinate.
    pub fn set_y(&mut self, v: i64)
        ensures
            final(self)@ =~~= (TurtleV { y: v as int, ..old(self)@ }),
            final(self).wf() == old(self).wf(),
    {
        self.y = v;
    }

    /// Select a palette color: the operand truncated to a whole index,
    /// which must name one of the 16 palette entries.
    pub fn set_pen_color(&mut self, v: i64) -> (r: Result<(), RuntimeError>)
        ensures
            ({
                let idx = trunc_div(v as int, 1000);
                match r {
                    Ok(()) => 0 <= idx < 16 && final(self)@ =~~= (TurtleV {
                        pen_color: idx,
                        ..old(self)@
                    }) && final(self).wf(),
                    Err(e) => e == RuntimeError::PaletteOutOfRange && !(0 <= idx < 16)
                        && final(self)@ =~~= old(self)@ && final(self).wf() == old(self).wf(),
                }
            }),
    {
        if v < 0 {
            let mag: u64 = ((-(v as i128)) as u64) / 1000;
            proof {
                assert(mag == abs_i(v as int) / 1000);
            }
            if mag == 0 {
                self.pen_color = 0;
                Ok(())
            } else {
                Err(RuntimeError::PaletteOutOfRange)
            }
        } else {
            let idx = (v as u64) / 1000;
            proof {
                assert(idx == abs_i(v as int) / 1000);
            }
            if idx < 16 {
                self.pen_color = idx as i64;
                Ok(())
            } else {
                Err(RuntimeError::PaletteOutOfRange)
            }
        }
    }

    /// Move along `dir_fx` by `dist`: with the pen down, draw one segment
    /// and take the end point the collaborator reports; with the pen up,
    /// just take the end point.
    fn do_move(&mut self, dir_fx: i64, dist: i64) -> (r: Result<(), RuntimeError>)
        requires
            old(self).wf(),
        ensures
            final(self).wf(),
            move_rel(old(self)@, dir_fx as int, dist as int, final(self)@, r),
    {
        let px = to_coord(self.x);
        let py = to_coord(self.y);
        let dir = to_dir(dir_fx);
        let len = to_coord(dist);
        if self.pen_down {
            let color = self.pen_color as usize;
            match draw_line(&mut self.image, px, py, dir, len, color) {
                Ok((ex, ey)) => {
                    self.x = (ex as i64) * 1000;
                    self.y = (ey as i64) * 1000;
                    proof {
                        assert(self@ =~~= moved_state(
                            old(self)@,
                            dir_fx as int,
                            dist as int,
                            ex as int,
                            ey as int,
                        ));
                    }
                    Ok(())
                },
                Err(_) => {
                    proof {
                        assert(self@ =~~= old(self)@);
                    }
                    Err(RuntimeError::DrawFailed)
                },
            }
        } else {
            let (ex, ey) = end_coordinates(px, py, dir, len);
            self.x = (ex as i64) * 1000;
            self.y = (ey as i64) * 1000;
            proof {
                assert(self@ =~~= moved_state(
                    old(self)@,
                    dir_fx as int,
                    dist as int,
                    ex as int,
                    ey as int,
                ));
            }
            Ok(())
        }
    }

    /// Move forward by `dist` units along the heading.
    pub fn forward(&mut self, dist: i64) -> (r: Result<(), RuntimeError>)
        requires
            old(self).wf(),
        ensures
            final(self).wf(),
            move_rel(old(self)@, old(self)@.heading, dist as int, final(self)@, r),
    {
        let h = self.heading;
        self.do_move(h, dist)
    }

    /// Move backward: forward with the distance negated.
    pub fn back(&mut self, dist: i64) -> (r: Result<(), RuntimeError>)
        requires
            old(self).wf(),
        ensures
            final(self).wf(),
            match r {
                Err(RuntimeError::Overflow) => !fits_i64(-(dist as int))
                    && final(self)@ =~~= old(self)@,
                _ => fits_i64(-(dist as int)) && move_rel(
                    old(self)@,
                    old(self)@.heading,
                    -(dist as int),
                    final(self)@,
                    r,
                ),
            },
    {
        if dist == i64::MIN {
            return Err(RuntimeError::Overflow);
        }
        let h = self.heading;
        self.do_move(h, -dist)
    }

    /// Move left: a move at the heading rotated a quarter turn
    /// counterclockwise; the heading itself does not change.
    pub fn left(&mut self, dist: i64) -> (r: Result<(), RuntimeError>)
        requires
            old(self).wf(),
        ensures
            final(self).wf(),
            match r {
                Err(RuntimeError::Overflow) => !fits_i64(old(self)@.heading - 90000)
                    && final(self)@ =~~= old(self)@,
                _ => fits_i64(old(self)@.heading - 90000) && move_rel(
                    old(self)@,
                    old(self)@.heading - 90000,
                    dist as int,
                    final(self)@,
                    r,
                ),
            },
    {
        match crate::num::sub_fx(self.heading, 90000) {
            Some(h) => self.do_move(h, dist),
            None => Err(RuntimeError::Overflow),
        }
    }

    /// Move right: a left move with the distance negated.
    pub fn right(&mut self, dist: i64) -> (r: Result<(), RuntimeError>)
        requires
            old(self).wf(),
        ensures
            final(self).wf(),
            match r {
                Err(RuntimeError::Overflow) => (!fits_i64(-(dist as int))
                    || !fits_i64(old(self)@.heading - 90000)) && final(self)@ =~~= old(self)@,
                _ => fits_i64(-(dist as int)) && fits_i64(old(self)@.heading - 90000) && move_rel(
                    old(self)@,
                    old(self)@.heading - 90000,
                    -(dist as int),
                    final(self)@,
                    r,
                ),
            },
    {
        if dist == i64::MIN {
            return Err(RuntimeError::Overflow);
        }
        self.left(-dist)
    }

    /// Bind a variable, shadowing any earlier binding of the name.
    pub fn add_variable(&mut self, name: Vec<u8>, value: Expression)
        ensures
            final(self)@ =~~= (TurtleV {
                vars: old(self)@.vars.insert(name@, expr_view(&value)),
                ..old(self)@
            }),
            final(self).wf() == old(self).wf(),
    {
        self.variables.push((name, value));
        proof {
            assert(self.variables@.drop_last() =~= old(self).variables@);
        }
    }

    /// Look a variable up; the latest binding of the name wins.
    pub fn get_variable(&self, name: &Vec<u8>) -> (r: Option<&Expression>)
        ensures
            match r {
                Some(e) => self@.vars.contains_key(name@) && expr_view(e) == self@.vars[name@],
                None => !self@.vars.contains_key(name@),
            },
    {
        let n = self.variables.len();
        let mut i: usize = n;
        proof {
            assert(self.variables@.take(n as int) =~= self.variables@);
        }
        while i > 0
            invariant
                i <= n,
                n == self.variables@.len(),
                env_map(self.variables@).contains_key(name@) == env_map(
                    self.variables@.take(i as int),
                ).contains_key(name@),
                env_map(self.variables@).contains_key(name@) ==> env_map(self.variables@)[name@]
                    == env_map(self.variables@.take(i as int))[name@],
            decreases i,
        {
            proof {
                assert(self.variables@.take(i as int).drop_last() =~= self.variables@.take(
                    i - 1,
                ));
                assert(self.variables@.take(i as int).last() == self.variables@[i - 1]);
            }
            if bytes_eq(&self.variables[i - 1].0, name) {
                return Some(&self.variables[i - 1].1);
            }
            i = i - 1;
        }
        proof {
            assert(self.variables@.take(0) =~= Seq::<(Vec<u8>, Expression)>::empty());
        }
        None
    }

    /// The x-coordinate, as a fixed-point value.
    pub fn get_x(&self) -> (r: i64)
        ensures
            r as int == self@.x,
    {
        self.x
    }

    /// The y-coordinate, as a fixed-point value.
    pub fn get_y(&self) -> (r: i64)
        ensures
            r as int == self@.y,
    {
        self.y
    }

    /// The pen color index, as a fixed-point value.
    pub fn get_pen_color(&self) -> (r: i64)
        requires
            self.wf(),
        ensures
            r as int == self@.pen_color * 1000,
    {
        self.pen_color * 1000
    }

    /// Is the pen down?
    pub fn is_pen_down(&self) -> (r: bool)
        ensures
            r == self@.pen_down,
    {
        self.pen_down
    }

    /// The heading, as a fixed-point value.
    pub fn get_heading(&self) -> (r: i64)
        ensures
            r as int == self@.heading,
    {
        self.heading
    }
}

/// Byte-for-byte equality of two byte vectors.
pub fn bytes_eq(a: &Vec<u8>, b: &Vec<u8>) -> (r: bool)
    ensures
        r == (a@ == b@),
{
    if a.len() != b.len() {
        proof {
            assert(a@ != b@);
        }
        return false;
    }
    let mut k: usize = 0;
    while k < a.len()
        invariant
            k <= a@.len(),
            a@.len() == b@.len(),
            forall|j: int| 0 <= j < k ==> a@[j] == b@[j],
        decreases a@.len() - k,
    {
        if a[k] != b[k] {
            proof {
                assert(a@[k as int] != b@[k as int]);
            }
            return false;
        }
        k = k + 1;
    }
    proof {
        assert(a@ =~= b@);
    }
    true
}

} // verus!
