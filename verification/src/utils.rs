//! Coordinates, directions, tiles and the two counters the game steps.

use vstd::prelude::*;

verus! {

/// A direction of travel on the grid. `Up` is toward row 0.
#[derive(Debug, PartialEq, Eq, Clone, Copy, Structural)]
pub enum Dir {
    Up,
    Down,
    Left,
    Right,
}

/// What one cell of the occupancy grid holds. `Invader` and `Missile` carry
/// the index of the entity in its collection at the time the cell was stamped.
#[derive(Debug, PartialEq, Eq, Clone, Copy, Structural)]
pub enum Tile {
    Invader(usize),
    Player,
    Missile(usize),
    Explosion,
    Empty,
}

impl Tile {
    /// The character that stands for the tile where the grid is drawn.
    pub open spec fn icon_view(self) -> char {
        match self {
            Tile::Explosion => '*',
            Tile::Invader(_) => '@',
            Tile::Missile(_) => '!',
            Tile::Player => '^',
            Tile::Empty => ' ',
        }
    }

    pub fn icon(&self) -> (c: char)
        ensures
            c == self.icon_view(),
    {
        match self {
            Tile::Explosion => '*',
            Tile::Invader(_) => '@',
            Tile::Missile(_) => '!',
            Tile::Player => '^',
            Tile::Empty => ' ',
        }
    }
}

/// A column `self.0` and a row `self.1`; also used for a width and a height.
#[derive(Debug, PartialEq, Eq, Copy, Clone, Structural)]
pub struct Coord(pub usize, pub usize);

impl Coord {
    /// The number of cells of a grid this wide and this high.
    pub fn area(&self) -> (a: usize)
        requires
            self.0 * self.1 <= usize::MAX,
        ensures
            a == self.0 * self.1,
    {
        self.0 * self.1
    }
}

/// Where the playing field sits on the terminal, and how large it is.
#[derive(Clone, Copy)]
pub struct Screen {
    margins: Coord,
    size: Coord,
}

impl Screen {
    /// The offset of the field's top-left corner.
    pub closed spec fn margins_view(&self) -> Coord {
        self.margins
    }

    /// The field's width and height.
    pub closed spec fn size_view(&self) -> Coord {
        self.size
    }

    pub fn new(margins: Coord, size: Coord) -> (s: Self)
        ensures
            s.margins_view() == margins,
            s.size_view() == size,
    {
        Self { margins, size }
    }

    pub fn margins(&self) -> (m: &Coord)
        ensures
            *m == self.margins_view(),
    {
        &self.margins
    }

    pub fn size(&self) -> (s: &Coord)
        ensures
            *s == self.size_view(),
    {
        &self.size
    }
}

/// The counter after `n` in a cycle that skips the two largest values:
/// `n + 1` reduced modulo `u8::MAX - 1`.
pub open spec fn looped_succ(n: u8) -> u8 {
    ((n + 1) % (u8::MAX - 1)) as u8
}

/// The counter after `n` when it stops one short of the largest value.
pub open spec fn capped_succ(n: u8) -> u8 {
    if n + 1 <= u8::MAX - 1 {
        (n + 1) as u8
    } else {
        (u8::MAX - 1) as u8
    }
}

/// Calls `num::One::one` for `u8`. Not proved here, but taken from the
/// crate: the call returns the number 1.
#[verifier::external_body]
fn unit() -> (r: u8)
    ensures
        r == 1,
{
    <u8 as num::One>::one()
}

/// Calls `num::Bounded::max_value` for `u8`. Not proved here, but taken from
/// the crate: the call returns the largest `u8`.
#[verifier::external_body]
fn upper_bound() -> (r: u8)
    ensures
        r == u8::MAX,
{
    <u8 as num::Bounded>::max_value()
}

/// Steps `num` to the next value of the cycle `0, 1, .., u8::MAX - 2, 0, ..`.
pub fn looped_inc(num: &mut u8)
    ensures
        *final(num) == looped_succ(*old(num)),
{
    let one = unit();
    let modulus = upper_bound() - one;
    *num = (*num % modulus + one) % modulus;
}

/// Adds one to `num` unless that would pass `u8::MAX - 1`.
pub fn capped_inc(num: &mut u8)
    ensures
        *final(num) == capped_succ(*old(num)),
{
    let one = unit();
    let cap = upper_bound() - one;
    if *num >= cap {
        *num = cap;
    } else {
        *num = *num + one;
    }
}

} // verus!
