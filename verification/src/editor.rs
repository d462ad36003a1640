//! An editing session: a curve, a drawing surface and the pointer gestures
//! that place and drag control points.
use rand::Rng;
use vstd::prelude::*;
use crate::bezier_curve::{
    first_within, lemma_first_within_exists, BezierCurve, CurveError, HIT_THRESHOLD,
};
use crate::fixed::{saturate, Fixed, SCALE};
use crate::vec::Vector;

verus! {

/// What the user did.
#[derive(Clone, Copy, Debug, PartialEq, Eq)]
pub enum Event {
    /// The primary button went down at a position.
    PointerDown(Vector),
    /// The primary button was released.
    PointerUp,
    /// The pointer moved to a position.
    PointerMove(Vector),
    /// A new control point was asked for at a position.
    AddPoint(Vector),
    /// A first coordinate was typed in for the control point at an index.
    ChangeX(usize, Fixed),
    /// A second coordinate was typed in for the control point at an index.
    ChangeY(usize, Fixed),
}

/// What a session holds, as plain values.
pub struct EditorState {
    /// The control points of the curve.
    pub points: Seq<Vector>,
    /// The index of the control point that is being dragged, if any.
    pub dragging: Option<usize>,
    /// The width of the drawing surface, in whole units.
    pub width: u16,
    /// The height of the drawing surface, in whole units.
    pub height: u16,
}

impl EditorState {
    /// The point that is being dragged, if any, is one of the control points.
    pub open spec fn well_formed(self) -> bool {
        self.dragging matches Some(i) ==> i < self.points.len()
    }
}

/// A typed-in coordinate is accepted when it lies on the drawing surface:
/// from zero to `limit`, both included.
pub open spec fn coordinate_allowed(v: Fixed, limit: u16) -> bool {
    0 <= v@ <= saturate(limit * SCALE)
}

/// The state after an event, and what the session answers: whether the
/// drawing has to be renewed, or why the event was refused.
///
/// A press grabs the first control point within the hit threshold of the
/// pointer, or else places a new point there. While a point is grabbed, a
/// move puts it under the pointer. A release lets go of it. A typed-in
/// coordinate off the drawing surface is passed over; one for an index that
/// names no point is refused.
pub open spec fn step(s: EditorState, event: Event) -> (EditorState, Result<bool, CurveError>) {
    match event {
        Event::PointerDown(p) => match first_within(s.points, p, Fixed { raw: HIT_THRESHOLD }) {
            Some(i) => (EditorState { dragging: Some(i), ..s }, Ok(true)),
            None => (EditorState { points: s.points.push(p), ..s }, Ok(true)),
        },
        Event::PointerUp => (EditorState { dragging: None, ..s }, Ok(true)),
        Event::PointerMove(p) => match s.dragging {
            Some(i) => if i < s.points.len() {
                (EditorState { points: s.points.update(i as int, p), ..s }, Ok(true))
            } else {
                (s, Err(CurveError::IndexOutOfRange))
            },
            None => (s, Ok(true)),
        },
        Event::AddPoint(p) => (EditorState { points: s.points.push(p), ..s }, Ok(true)),
        Event::ChangeX(index, x) => if !coordinate_allowed(x, s.width) {
            (s, Ok(false))
        } else if index >= s.points.len() {
            (s, Err(CurveError::IndexOutOfRange))
        } else {
            let moved = Vector { x, y: s.points[index as int].y };
            (EditorState { points: s.points.update(index as int, moved), ..s }, Ok(true))
        },
        Event::ChangeY(index, y) => if !coordinate_allowed(y, s.height) {
            (s, Ok(false))
        } else if index >= s.points.len() {
            (s, Err(CurveError::IndexOutOfRange))
        } else {
            let moved = Vector { x: s.points[index as int].x, y };
            (EditorState { points: s.points.update(index as int, moved), ..s }, Ok(true))
        },
    }
}

/// Every event takes a well-formed state to a well-formed state.
pub proof fn lemma_step_keeps_well_formed(s: EditorState, event: Event)
    requires
        s.well_formed(),
        s.points.len() <= usize::MAX,
    ensures
        step(s, event).0.well_formed(),
{
    if let Event::PointerDown(p) = event {
        let threshold = Fixed { raw: HIT_THRESHOLD };
        lemma_first_within_exists(s.points, p, threshold);
    }
}

/// No event removes or reorders control points, and none changes the drawing
/// surface: after an event the points are as before, or one point was
/// appended, or one point was replaced in place.
pub proof fn lemma_step_appends_or_replaces(s: EditorState, event: Event)
    ensures
        step(s, event).0.width == s.width,
        step(s, event).0.height == s.height,
        ({
            let after = step(s, event).0.points;
            ||| after == s.points
            ||| after.len() == s.points.len() + 1 && after.drop_last() == s.points
            ||| after.len() == s.points.len() && exists|i: int|
                0 <= i < s.points.len() && after == s.points.update(i, #[trigger] after[i])
        }),
{
    let after = step(s, event).0.points;
    match event {
        Event::PointerDown(p) => {
            if first_within(s.points, p, Fixed { raw: HIT_THRESHOLD }) is None {
                assert(s.points.push(p).drop_last() =~= s.points);
            }
        },
        Event::PointerUp => {},
        Event::PointerMove(p) => {
            if let Some(i) = s.dragging {
                if i < s.points.len() {
                    assert(after == s.points.update(i as int, after[i as int]));
                }
            }
        },
        Event::AddPoint(p) => {
            assert(s.points.push(p).drop_last() =~= s.points);
        },
        Event::ChangeX(index, x) => {
            if coordinate_allowed(x, s.width) && index < s.points.len() {
                assert(after == s.points.update(index as int, after[index as int]));
            }
        },
        Event::ChangeY(index, y) => {
            if coordinate_allowed(y, s.height) && index < s.points.len() {
                assert(after == s.points.update(index as int, after[index as int]));
            }
        },
    }
}

/// In a well-formed state a press, a move, a release and a new point are
/// never refused, and each asks for the drawing to be renewed.
pub proof fn lemma_gestures_succeed(s: EditorState, event: Event)
    requires
        s.well_formed(),
        !(event is ChangeX),
        !(event is ChangeY),
    ensures
        step(s, event).1 == Ok::<bool, CurveError>(true),
{
}

/// An event that is refused or passed over leaves the state as it was.
pub proof fn lemma_refused_event_changes_nothing(s: EditorState, event: Event)
    ensures
        step(s, event).1 != Ok::<bool, CurveError>(true) ==> step(s, event).0 == s,
{
}

/// A curve under edit on a drawing surface.
pub struct Editor {
    curve: BezierCurve,
    dragging_point: Option<usize>,
    width: u16,
    height: u16,
}

impl View for Editor {
    type V = EditorState;

    closed spec fn view(&self) -> EditorState {
        EditorState {
            points: self.curve@,
            dragging: self.dragging_point,
            width: self.width,
            height: self.height,
        }
    }
}

/// A uniformly drawn whole number from zero to `limit`, both included, from
/// `rand::Rng::gen_range` on the generator that `rand::thread_rng` hands out.
/// The contract claims only that the number lies in the range asked for.
/// The range is never empty, so `gen_range` does not refuse it; the
/// generator itself stops the program when the system gives it no seed,
/// whatever `limit` is.
#[verifier::external_body]
fn random_up_to(limit: u16) -> (r: u16)
    ensures
        r <= limit,
{
    rand::thread_rng().gen_range(0..=limit)
}

/// Whether a typed-in coordinate lies on the drawing surface.
fn is_allowed(v: Fixed, limit: u16) -> (r: bool)
    ensures
        r == coordinate_allowed(v, limit),
{
    let top = Fixed::from_int(limit as i32);
    0 <= v.raw && v.raw <= top.raw
}

impl Editor {
    /// A session with an empty curve on a drawing surface of the given size.
    pub fn new(width: u16, height: u16) -> (r: Editor)
        ensures
            r@ == (EditorState { points: Seq::empty(), dragging: None, width, height }),
            r@.well_formed(),
    {
        Editor { curve: BezierCurve::new(), dragging_point: None, width, height }
    }

    /// The curve.
    pub fn curve(&self) -> (r: &BezierCurve)
        ensures
            r@ == self@.points,
    {
        &self.curve
    }

    /// The index of the control point that is being dragged, if any.
    pub fn dragging_point(&self) -> (r: Option<usize>)
        ensures
            r == self@.dragging,
    {
        self.dragging_point
    }

    /// The width of the drawing surface.
    pub fn width(&self) -> (r: u16)
        ensures
            r == self@.width,
    {
        self.width
    }

    /// The height of the drawing surface.
    pub fn height(&self) -> (r: u16)
        ensures
            r == self@.height,
    {
        self.height
    }

    /// Places a new control point at a position drawn at random from the
    /// whole-numbered positions of the drawing surface, and asks for the
    /// drawing to be renewed.
    pub fn add_random_point(&mut self) -> (r: bool)
        ensures
            r,
            final(self)@.points.len() == old(self)@.points.len() + 1,
            final(self)@ == step(old(self)@, Event::AddPoint(final(self)@.points.last())).0,
            coordinate_allowed(final(self)@.points.last().x, old(self)@.width),
            coordinate_allowed(final(self)@.points.last().y, old(self)@.height),
            old(self)@.well_formed() ==> final(self)@.well_formed(),
    {
        let x = random_up_to(self.width);
        let y = random_up_to(self.height);
        let point = Vector::new_with_data(Fixed::from_int(x as i32), Fixed::from_int(y as i32));
        let _ = self.update(Event::AddPoint(point));
        true
    }

    /// Takes one event.
    pub fn update(&mut self, event: Event) -> (r: Result<bool, CurveError>)
        ensures
            (final(self)@, r) == step(old(self)@, event),
            old(self)@.well_formed() ==> final(self)@.well_formed(),
    {
        proof {
            self.curve.lemma_len_fits();
            if self@.well_formed() {
                lemma_step_keeps_well_formed(self@, event);
            }
        }
        match event {
            Event::PointerDown(p) => {
                match self.curve.intersect_with_control_point(p) {
                    Some(index) => {
                        self.dragging_point = Some(index);
                    },
                    None => {
                        self.curve.add_point(p);
                    },
                }
                Ok(true)
            },
            Event::PointerUp => {
                self.dragging_point = None;
                Ok(true)
            },
            Event::PointerMove(p) => {
                match self.dragging_point {
                    Some(index) => match self.curve.set_point(index, p) {
                        Ok(()) => Ok(true),
                        Err(e) => Err(e),
                    },
                    None => Ok(true),
                }
            },
            Event::AddPoint(p) => {
                self.curve.add_point(p);
                Ok(true)
            },
            Event::ChangeX(index, x) => {
                if !is_allowed(x, self.width) {
                    return Ok(false);
                }
                if index >= self.curve.points().len() {
                    return Err(CurveError::IndexOutOfRange);
                }
                let mut point = self.curve.points()[index];
                point.set_x(x);
                let _ = self.curve.set_point(index, point);
                Ok(true)
            },
            Event::ChangeY(index, y) => {
                if !is_allowed(y, self.height) {
                    return Ok(false);
                }
                if index >= self.curve.points().len() {
                    return Err(CurveError::IndexOutOfRange);
                }
                let mut point = self.curve.points()[index];
                point.set_y(y);
                let _ = self.curve.set_point(index, point);
                Ok(true)
            },
        }
    }
}

} // verus!
