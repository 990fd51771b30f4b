//! Comparing single precision numbers by their bit patterns.
//!
//! The sign is the highest bit; without it, patterns of larger numbers are larger. Beyond
//! the pattern of infinity lie the patterns that are no number.
use vstd::prelude::*;

verus! {

/// The pattern without the sign.
pub open spec fn magnitude(bits: u32) -> int {
    if bits >= 0x8000_0000 {
        bits - 0x8000_0000
    } else {
        bits as int
    }
}

/// Whether the pattern is a number, infinities included.
pub open spec fn is_number(bits: u32) -> bool {
    magnitude(bits) <= 0x7F80_0000
}

/// A place on the number line: ordered as the numbers are, with one place for both zeros.
pub open spec fn place(bits: u32) -> int {
    if bits >= 0x8000_0000 {
        -magnitude(bits)
    } else {
        magnitude(bits)
    }
}

/// Whether `a <= b`, as numbers compare.
pub open spec fn at_most(a: u32, b: u32) -> bool {
    is_number(a) && is_number(b) && place(a) <= place(b)
}

/// Whether `a < b`, as numbers compare.
pub open spec fn below(a: u32, b: u32) -> bool {
    is_number(a) && is_number(b) && place(a) < place(b)
}

/// A place in the total order of all patterns, in which the negative zero comes before the
/// positive one and patterns that are no number come last, or first with a sign.
pub open spec fn total_place(bits: u32) -> int {
    if bits >= 0x8000_0000 {
        -magnitude(bits) - 1
    } else {
        magnitude(bits)
    }
}

fn signed_place(bits: u32) -> (res: i64)
    ensures
        res == place(bits),
{
    if bits >= 0x8000_0000 {
        -((bits - 0x8000_0000) as i64)
    } else {
        bits as i64
    }
}

fn number(bits: u32) -> (res: bool)
    ensures
        res == is_number(bits),
{
    let size: u32 = if bits >= 0x8000_0000 {
        bits - 0x8000_0000
    } else {
        bits
    };
    size <= 0x7F80_0000
}

/// Whether `a <= b`.
pub fn number_at_most(a: u32, b: u32) -> (res: bool)
    ensures
        res == at_most(a, b),
{
    number(a) && number(b) && signed_place(a) <= signed_place(b)
}

/// Whether `a < b`.
pub fn number_below(a: u32, b: u32) -> (res: bool)
    ensures
        res == below(a, b),
{
    number(a) && number(b) && signed_place(a) < signed_place(b)
}

/// Whether `a` comes before `b` in the total order.
pub fn totally_before(a: u32, b: u32) -> (res: bool)
    ensures
        res == (total_place(a) < total_place(b)),
{
    let x: i64 = if a >= 0x8000_0000 {
        -((a - 0x8000_0000) as i64) - 1
    } else {
        a as i64
    };
    let y: i64 = if b >= 0x8000_0000 {
        -((b - 0x8000_0000) as i64) - 1
    } else {
        b as i64
    };
    x < y
}

/// A rectangle, by the patterns of its edges.
#[derive(Clone, Copy, Debug, PartialEq, Eq, Structural)]
pub struct RectBits {
    pub left: u32,
    pub top: u32,
    pub right: u32,
    pub bottom: u32,
}

impl RectBits {
    /// Whether two rectangles meet; touching counts.
    pub open spec fn meets(self, other: RectBits) -> bool {
        &&& at_most(self.left, other.right)
        &&& at_most(other.left, self.right)
        &&& at_most(self.top, other.bottom)
        &&& at_most(other.top, self.bottom)
    }

    /// Whether a point lies in the rectangle or on its edge.
    pub open spec fn holds(self, x: u32, y: u32) -> bool {
        &&& at_most(self.left, x)
        &&& at_most(x, self.right)
        &&& at_most(self.top, y)
        &&& at_most(y, self.bottom)
    }

    pub fn intersects(&self, other: &RectBits) -> (res: bool)
        ensures
            res == self.meets(*other),
    {
        number_at_most(self.left, other.right) && number_at_most(other.left, self.right)
            && number_at_most(self.top, other.bottom) && number_at_most(other.top, self.bottom)
    }

    pub fn contains(&self, x: u32, y: u32) -> (res: bool)
        ensures
            res == self.holds(x, y),
    {
        number_at_most(self.left, x) && number_at_most(x, self.right) && number_at_most(
            self.top,
            y,
        ) && number_at_most(y, self.bottom)
    }
}

/// Rectangles meet each other or do not.
pub proof fn meeting_is_symmetric(a: RectBits, b: RectBits)
    ensures
        a.meets(b) == b.meets(a),
{
}

/// The index of the first smallest pattern in the total order.
pub fn first_smallest(patterns: &Vec<u32>) -> (res: Option<usize>)
    ensures
        match res {
            None => patterns@.len() == 0,
            Some(index) => {
                &&& index < patterns@.len()
                &&& forall|i: int|
                    0 <= i < patterns@.len() ==> total_place(patterns@[index as int])
                        <= total_place(#[trigger] patterns@[i])
                &&& forall|i: int|
                    0 <= i < index ==> total_place(patterns@[index as int]) < total_place(
                        #[trigger] patterns@[i],
                    )
            },
        },
{
    if patterns.len() == 0 {
        return None;
    }
    let mut best: usize = 0;
    let mut i: usize = 1;
    while i < patterns.len()
        invariant
            best < i <= patterns.len(),
            forall|k: int|
                0 <= k < i ==> total_place(patterns@[best as int]) <= total_place(
                    #[trigger] patterns@[k],
                ),
            forall|k: int|
                0 <= k < best ==> total_place(patterns@[best as int]) < total_place(
                    #[trigger] patterns@[k],
                ),
        decreases patterns.len() - i,
    {
        if totally_before(patterns[i], patterns[best]) {
            best = i;
        }
        i += 1;
    }
    Some(best)
}

} // verus!
