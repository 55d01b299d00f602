//! Small helpers: a pixel position moved by an offset, and the characters
//! that the faces of a cube are drawn with.

use vstd::prelude::*;

verus! {

/// Where a signed offset from an unsigned coordinate lands: the sum itself
/// where it is not negative, and the sum taken modulo the word size where it
/// is, which is beyond every buffer.
pub open spec fn offset_coordinate(x: usize, dx: isize) -> int {
    if x + dx >= 0 {
        x + dx
    } else {
        x + dx + usize::MAX + 1
    }
}

fn offset_one(x: usize, dx: isize) -> (r: usize)
    requires
        x <= isize::MAX,
        x + dx <= isize::MAX,
    ensures
        r == offset_coordinate(x, dx),
{
    let sum: isize = x as isize + dx;
    if sum >= 0 {
        sum as usize
    } else {
        usize::MAX - ((-(sum + 1)) as usize)
    }
}

/// Moves the pixel position `(x, y)` by the signed offset `(dx, dy)`. A
/// position that leaves the grid on the low side wraps to the far end of
/// the `usize` range, where no bounds test accepts it.
pub fn idx_usize_isize(x: usize, y: usize, dx: isize, dy: isize) -> (r: (usize, usize))
    requires
        x <= isize::MAX,
        y <= isize::MAX,
        x + dx <= isize::MAX,
        y + dy <= isize::MAX,
    ensures
        r.0 == offset_coordinate(x, dx),
        r.1 == offset_coordinate(y, dy),
{
    (offset_one(x, dx), offset_one(y, dy))
}

/// The character that a face of the cube is drawn with: one for each of
/// the numbers 1 to 6, and a blank for every other number.
pub fn intchr(number: u8) -> (c: char)
    ensures
        c == face_char(number),
{
    match number {
        0 => ' ',
        1 => '$',
        2 => ',',
        3 => '!',
        4 => '~',
        5 => '>',
        6 => '|',
        _ => ' ',
    }
}

/// The character of each face.
pub open spec fn face_char(number: u8) -> char {
    if number == 1 {
        '$'
    } else if number == 2 {
        ','
    } else if number == 3 {
        '!'
    } else if number == 4 {
        '~'
    } else if number == 5 {
        '>'
    } else if number == 6 {
        '|'
    } else {
        ' '
    }
}

/// Takes a value and lets it go.
#[inline]
pub fn dump<Any>(_thing: Any) {
}

} // verus!
