//! The gestures that can be drawn, and the samples a user records for them.
//!
//! Stroke coordinates are single-precision floats; the library holds each as
//! its IEEE-754 bit pattern (see `fbits`) and reads only what it can decide
//! from the bits. Matching a stroke against templates is float arithmetic
//! and stays with the application.

use vstd::prelude::*;
use crate::fbits::{F32Bits, f32_is_finite, f32_finite};

verus! {

/// The number of points a recorded gesture sample holds.
pub const SAMPLE_COUNT: usize = 64;

/// A gesture shape.
#[derive(Debug, Clone, Copy, PartialEq, Eq, Structural)]
pub enum GestureId {
    Up,
    LetterL,
    LetterS,
    LetterC,
    LetterV,
    Left,
    Right,
    Seven,
    Circle,
}

/// The gestures in the order the settings list them.
pub open spec fn gesture_order() -> Seq<GestureId> {
    seq![
        GestureId::Up,
        GestureId::LetterL,
        GestureId::LetterS,
        GestureId::LetterC,
        GestureId::LetterV,
        GestureId::Left,
        GestureId::Right,
        GestureId::Seven,
        GestureId::Circle,
    ]
}

/// The short label of a gesture, with its symbol.
pub open spec fn gesture_short_label(g: GestureId) -> Seq<char> {
    match g {
        GestureId::Up => "↑ 上划"@,
        GestureId::LetterL => "L 字形"@,
        GestureId::LetterS => "S 字形"@,
        GestureId::LetterC => "C 字形"@,
        GestureId::LetterV => "V 字形"@,
        GestureId::Left => "← 左划"@,
        GestureId::Right => "→ 右划"@,
        GestureId::Seven => "7 字形"@,
        GestureId::Circle => "○ 圆形"@,
    }
}

/// The plain label of a gesture.
pub open spec fn gesture_label(g: GestureId) -> Seq<char> {
    match g {
        GestureId::Up => "上划"@,
        GestureId::LetterL => "L 字形"@,
        GestureId::LetterS => "S 字形"@,
        GestureId::LetterC => "C 字形"@,
        GestureId::LetterV => "V 字形"@,
        GestureId::Left => "左划"@,
        GestureId::Right => "右划"@,
        GestureId::Seven => "7 字形"@,
        GestureId::Circle => "圆形"@,
    }
}

impl GestureId {
    /// Every gesture, in the order the settings list them.
    pub const ALL: [GestureId; 9] = [
        GestureId::Up,
        GestureId::LetterL,
        GestureId::LetterS,
        GestureId::LetterC,
        GestureId::LetterV,
        GestureId::Left,
        GestureId::Right,
        GestureId::Seven,
        GestureId::Circle,
    ];

    /// Every gesture, in the order the settings list them.
    pub fn all() -> (r: Vec<GestureId>)
        ensures
            r@ == gesture_order(),
    {
        let r = vec![
            GestureId::Up,
            GestureId::LetterL,
            GestureId::LetterS,
            GestureId::LetterC,
            GestureId::LetterV,
            GestureId::Left,
            GestureId::Right,
            GestureId::Seven,
            GestureId::Circle,
        ];
        assert(r@ =~= gesture_order());
        r
    }

    /// The short label of the gesture, with its symbol.
    pub fn short_label(self) -> (r: &'static str)
        ensures
            r@ == gesture_short_label(self),
    {
        match self {
            GestureId::Up => "↑ 上划",
            GestureId::LetterL => "L 字形",
            GestureId::LetterS => "S 字形",
            GestureId::LetterC => "C 字形",
            GestureId::LetterV => "V 字形",
            GestureId::Left => "← 左划",
            GestureId::Right => "→ 右划",
            GestureId::Seven => "7 字形",
            GestureId::Circle => "○ 圆形",
        }
    }

    /// The plain label of the gesture.
    pub fn label(self) -> (r: &'static str)
        ensures
            r@ == gesture_label(self),
    {
        match self {
            GestureId::Up => "上划",
            GestureId::LetterL => "L 字形",
            GestureId::LetterS => "S 字形",
            GestureId::LetterC => "C 字形",
            GestureId::LetterV => "V 字形",
            GestureId::Left => "左划",
            GestureId::Right => "右划",
            GestureId::Seven => "7 字形",
            GestureId::Circle => "圆形",
        }
    }
}

/// Every gesture stands in the settings order, once.
pub proof fn lemma_gesture_order_complete(g: GestureId)
    ensures
        gesture_order().len() == 9,
        exists|i: int| 0 <= i < 9 && gesture_order()[i] == g,
        forall|i: int, j: int|
            0 <= i < j < 9 ==> gesture_order()[i] != gesture_order()[j],
{
    let s = gesture_order();
    match g {
        GestureId::Up => assert(s[0] == g),
        GestureId::LetterL => assert(s[1] == g),
        GestureId::LetterS => assert(s[2] == g),
        GestureId::LetterC => assert(s[3] == g),
        GestureId::LetterV => assert(s[4] == g),
        GestureId::Left => assert(s[5] == g),
        GestureId::Right => assert(s[6] == g),
        GestureId::Seven => assert(s[7] == g),
        GestureId::Circle => assert(s[8] == g),
    }
}

/// A stroke point, each coordinate held as the bits of an `f32`.
#[derive(Debug, Clone, Copy, PartialEq, Eq, Structural)]
pub struct Point {
    pub x: F32Bits,
    pub y: F32Bits,
}

impl Point {
    /// The point with the given coordinate bits.
    pub fn new(x: F32Bits, y: F32Bits) -> (r: Point)
        ensures
            r.x == x,
            r.y == y,
    {
        Point { x, y }
    }
}

/// A sample that a user recorded for a gesture.
#[derive(Debug, Clone, PartialEq, Eq)]
pub struct UserGestureTemplate {
    pub gesture: GestureId,
    pub points: Vec<Point>,
}

/// Both coordinates of the point are finite.
pub open spec fn point_is_finite(p: Point) -> bool {
    f32_is_finite(p.x) && f32_is_finite(p.y)
}

/// A sample has the stored number of points and every coordinate is finite.
pub open spec fn well_shaped(points: Seq<Point>) -> bool {
    &&& points.len() == SAMPLE_COUNT
    &&& forall|i: int| 0 <= i < points.len() ==> point_is_finite(#[trigger] points[i])
}

impl UserGestureTemplate {
    /// Whether the sample has exactly the stored number of points, all finite.
    pub fn is_well_shaped(&self) -> (r: bool)
        ensures
            r == well_shaped(self.points@),
    {
        if self.points.len() != SAMPLE_COUNT {
            return false;
        }
        let mut i: usize = 0;
        while i < self.points.len()
            invariant
                0 <= i <= self.points@.len(),
                forall|k: int| 0 <= k < i ==> point_is_finite(#[trigger] self.points@[k]),
            decreases self.points.len() - i,
        {
            let p = self.points[i];
            if !f32_finite(p.x) || !f32_finite(p.y) {
                return false;
            }
            i = i + 1;
        }
        true
    }

    /// Whether the sample can serve as a template: it is well shaped and,
    /// as `normalizable` tells, its stroke normalises to a direction vector
    /// (which takes float arithmetic).
    pub fn is_valid(&self, normalizable: bool) -> (r: bool)
        ensures
            r == (well_shaped(self.points@) && normalizable),
    {
        self.is_well_shaped() && normalizable
    }
}

} // verus!
