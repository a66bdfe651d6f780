//! Distances between points on an integer grid, and times as texts.
//!
//! Coordinates are whole numbers of one fixed unit of length, which the
//! caller chooses. A distance is the true distance rounded down to that unit.

use crate::text::decimal;
use crate::text::decimal_string;
use crate::text::filled_left;
use crate::text::push_filled_left;
use vstd::prelude::*;

verus! {

/// A point in space.
#[derive(Clone, Copy, Debug, PartialEq, Eq, Structural)]
pub struct Position {
    pub x: i32,
    pub y: i32,
    pub z: i32,
}

impl Position {
    /// The origin.
    pub fn new() -> (p: Position)
        ensures
            p == (Position { x: 0, y: 0, z: 0 }),
    {
        Position { x: 0, y: 0, z: 0 }
    }
}

/// The square of a difference of coordinates.
pub open spec fn squared(d: int) -> int {
    d * d
}

/// The square of the distance between two points.
pub open spec fn distance_squared_3d(a: Position, b: Position) -> int {
    squared(a.x - b.x) + squared(a.y - b.y) + squared(a.z - b.z)
}

/// The square of the distance between two points as seen from above, height
/// (`y`) left out.
pub open spec fn distance_squared_2d(a: Position, b: Position) -> int {
    squared(a.x - b.x) + squared(a.z - b.z)
}

/// Whether `root` is the square root of `n`, rounded down.
pub open spec fn is_floor_sqrt(root: int, n: int) -> bool {
    0 <= root && root * root <= n < (root + 1) * (root + 1)
}

/// The square root of `n`, rounded down.
pub open spec fn floor_sqrt(n: int) -> int {
    choose|root: int| is_floor_sqrt(root, n)
}

/// A number has at most one rounded-down square root.
pub proof fn lemma_floor_sqrt_unique(a: int, b: int, n: int)
    requires
        is_floor_sqrt(a, n),
        is_floor_sqrt(b, n),
    ensures
        a == b,
{
    if a < b {
        assert((a + 1) * (a + 1) <= b * b) by (nonlinear_arith)
            requires
                0 <= a + 1 <= b,
        ;
    }
    if b < a {
        assert((b + 1) * (b + 1) <= a * a) by (nonlinear_arith)
            requires
                0 <= b + 1 <= a,
        ;
    }
}

/// A rounded-down square root is below a bound exactly when the number is
/// below the bound's square.
pub proof fn lemma_floor_sqrt_below(root: int, n: int, bound: int)
    requires
        is_floor_sqrt(root, n),
        0 <= bound,
    ensures
        root < bound <==> n < bound * bound,
{
    if root < bound {
        assert((root + 1) * (root + 1) <= bound * bound) by (nonlinear_arith)
            requires
                0 <= root + 1 <= bound,
        ;
    } else {
        assert(bound * bound <= root * root) by (nonlinear_arith)
            requires
                0 <= bound <= root,
        ;
    }
}

/// Computes the square root of `n`, rounded down.
pub fn integer_sqrt(n: u128) -> (root: u64)
    ensures
        is_floor_sqrt(root as int, n as int),
        root == floor_sqrt(n as int),
{
    let mut low: u128 = 0;
    let mut high: u128 = 0x1_0000_0000_0000_0000;
    assert(high * high > n) by (nonlinear_arith)
        requires
            high == 0x1_0000_0000_0000_0000,
            n <= u128::MAX,
    ;
    while high - low > 1
        invariant
            low < high <= 0x1_0000_0000_0000_0000,
            low * low <= n < high * high,
        decreases high - low,
    {
        let mid: u128 = low + (high - low) / 2;
        assert(mid * mid <= 0xffff_ffff_ffff_ffff * 0xffff_ffff_ffff_ffff) by (nonlinear_arith)
            requires
                0 <= mid <= 0xffff_ffff_ffff_ffff,
        ;
        if mid * mid <= n {
            low = mid;
        } else {
            high = mid;
        }
    }
    proof {
        assert(is_floor_sqrt(low as int, n as int));
        lemma_floor_sqrt_unique(low as int, floor_sqrt(n as int), n as int);
    }
    low as u64
}

/// The square of the difference of two coordinates.
fn squared_difference(a: i32, b: i32) -> (sq: u128)
    ensures
        sq == squared(a - b),
        sq <= 0xffff_ffff * 0xffff_ffff,
{
    let d: i128 = a as i128 - b as i128;
    assert(0 <= d * d <= 0xffff_ffff * 0xffff_ffff) by (nonlinear_arith)
        requires
            -0xffff_ffff <= d <= 0xffff_ffff,
    ;
    (d * d) as u128
}

/// The distance between two points, rounded down.
pub fn euclidian_distance_3d(a: &Position, b: &Position) -> (distance: u64)
    ensures
        distance == floor_sqrt(distance_squared_3d(*a, *b)),
        is_floor_sqrt(distance as int, distance_squared_3d(*a, *b)),
{
    integer_sqrt(
        squared_difference(a.x, b.x) + squared_difference(a.y, b.y) + squared_difference(a.z, b.z),
    )
}

/// The distance between two points as seen from above, rounded down.
pub fn euclidian_distance_2d(a: &Position, b: &Position) -> (distance: u64)
    ensures
        distance == floor_sqrt(distance_squared_2d(*a, *b)),
        is_floor_sqrt(distance as int, distance_squared_2d(*a, *b)),
{
    integer_sqrt(squared_difference(a.x, b.x) + squared_difference(a.z, b.z))
}

/// A time of so many milliseconds as minutes, seconds and milliseconds:
/// `mm:ss:mmm`, each part with leading zeros up to its width, the minutes
/// longer where there are a hundred or more.
pub open spec fn timestamp_text(millis: u64) -> Seq<char> {
    filled_left(decimal((millis / 1000 / 60) as nat), 2, '0') + seq![':'] + filled_left(
        decimal((millis / 1000 % 60) as nat),
        2,
        '0',
    ) + seq![':'] + filled_left(decimal((millis % 1000) as nat), 3, '0')
}

/// Times that can be written as `mm:ss:mmm`.
pub trait Timestamp {
    /// The time as a text.
    fn timestamp(&self) -> String;
}

/// A time in milliseconds.
impl Timestamp for u64 {
    fn timestamp(&self) -> (text: String)
        ensures
            text@ == timestamp_text(*self),
    {
        let seconds: u64 = *self / 1000;
        let mut text = String::new();
        push_filled_left(&mut text, decimal_string(seconds / 60).as_str(), 2, '0');
        text.push(':');
        push_filled_left(&mut text, decimal_string(seconds % 60).as_str(), 2, '0');
        text.push(':');
        push_filled_left(&mut text, decimal_string(*self % 1000).as_str(), 3, '0');
        assert(text@ =~= timestamp_text(*self));
        text
    }
}

} // verus!
