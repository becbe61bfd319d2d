//! The three kinds of entity and the rule by which a missile and an invader
//! move.

use vstd::prelude::*;
use crate::utils::Coord;
use crate::utils::Dir;

verus! {

/// A shot is accepted only when more than this many frames have passed since
/// the last one.
pub const FIRE_COOLDOWN_TICKS: u8 = 5;

/// Invaders move on every frame whose number is a multiple of this.
pub const INVADER_STEP_INTERVAL: u8 = 5;

/// The health a new player starts with.
pub const INITIAL_HEALTH: u8 = 3;

/// What every entity can be asked: where it is and how it is drawn.
pub trait Entity {
    /// The cell the entity occupies.
    spec fn position_view(&self) -> Coord;

    /// The character that stands for the entity.
    spec fn icon_view(&self) -> char;

    fn position(&self) -> (p: &Coord)
        ensures
            *p == self.position_view(),
    ;

    fn icon(&self) -> (c: char)
        ensures
            c == self.icon_view(),
    ;
}

/// The unit the user steers. `health` is carried along and no rule changes
/// it. `missile_timer` counts the frames since the last accepted shot.
#[derive(Debug, PartialEq, Eq, Clone, Copy, Structural)]
pub struct Player {
    pub position: Coord,
    pub health: u8,
    pub missile_timer: u8,
}

/// An enemy unit. Its direction is never `Dir::Up`.
#[derive(Debug, PartialEq, Eq, Clone, Copy, Structural)]
pub struct Invader {
    pub direction: Dir,
    pub position: Coord,
}

/// A projectile in flight.
#[derive(Debug, PartialEq, Eq, Clone, Copy, Structural)]
pub struct Missile {
    pub position: Coord,
    pub direction: Dir,
}

impl Player {
    /// A player at `position` with full health, whose first shot is accepted
    /// on the very first frame.
    pub fn new(position: Coord) -> (p: Self)
        ensures
            p == (Player {
                position,
                health: INITIAL_HEALTH,
                missile_timer: (FIRE_COOLDOWN_TICKS + 1) as u8,
            }),
    {
        Self { position, health: INITIAL_HEALTH, missile_timer: FIRE_COOLDOWN_TICKS + 1 }
    }

    /// Whether the player stands on a cell of a `size.0` by `size.1` grid.
    pub open spec fn within(self, size: Coord) -> bool {
        self.position.0 < size.0 && self.position.1 < size.1
    }
}

impl Entity for Player {
    open spec fn position_view(&self) -> Coord {
        self.position
    }

    open spec fn icon_view(&self) -> char {
        '^'
    }

    fn position(&self) -> (p: &Coord) {
        &self.position
    }

    fn icon(&self) -> (c: char) {
        '^'
    }
}

impl Invader {
    /// An invader at `position` that sweeps in `direction`, which is not
    /// `Dir::Up`.
    pub fn new(position: Coord, direction: Dir) -> (i: Self)
        requires
            direction != Dir::Up,
        ensures
            i == (Invader { direction, position }),
    {
        Invader { position, direction }
    }

    /// Whether the invader stands on a cell of a `size.0` by `size.1` grid.
    pub open spec fn within(self, size: Coord) -> bool {
        self.position.0 < size.0 && self.position.1 < size.1
    }

    /// The invader after one move across a grid `width` wide. Moving left or
    /// right it walks one cell, and on the edge column it turns down and
    /// drops one row instead. Moving down it picks its next sweep by the edge
    /// it is nearer to, right when that is the left edge and left otherwise,
    /// and takes one step that way at once.
    pub open spec fn stepped(self, width: usize) -> Invader {
        let Coord(x, y) = self.position;
        match self.direction {
            Dir::Down => if x < width - x {
                Invader { direction: Dir::Right, position: Coord((x + 1) as usize, y) }
            } else {
                Invader { direction: Dir::Left, position: Coord((x - 1) as usize, y) }
            },
            Dir::Left => if x == 0 {
                Invader { direction: Dir::Down, position: Coord(x, (y + 1) as usize) }
            } else {
                Invader { direction: Dir::Left, position: Coord((x - 1) as usize, y) }
            },
            Dir::Right => if x == width - 1 {
                Invader { direction: Dir::Down, position: Coord(x, (y + 1) as usize) }
            } else {
                Invader { direction: Dir::Right, position: Coord((x + 1) as usize, y) }
            },
            Dir::Up => self,
        }
    }

    /// Whether the move of `stepped` can be made: the direction is not
    /// `Dir::Up` and no coordinate or width computed on the way leaves the
    /// range of `usize`.
    pub open spec fn can_step(self, width: usize) -> bool {
        let Coord(x, y) = self.position;
        match self.direction {
            Dir::Down => x <= width && (x < width - x || x >= 1),
            Dir::Left => x == 0 ==> y < usize::MAX,
            Dir::Right => width >= 1 && if x == width - 1 {
                y < usize::MAX
            } else {
                x < usize::MAX
            },
            Dir::Up => false,
        }
    }

    /// Makes the move of `stepped`.
    pub fn step(&mut self, width: usize)
        requires
            old(self).can_step(width),
        ensures
            *final(self) == old(self).stepped(width),
    {
        match self.direction {
            Dir::Down => {
                if self.position.0 < width - self.position.0 {
                    self.direction = Dir::Right;
                    self.position.0 += 1;
                } else {
                    self.direction = Dir::Left;
                    self.position.0 -= 1;
                }
            },
            Dir::Left => {
                if self.position.0 == 0 {
                    self.direction = Dir::Down;
                    self.position.1 += 1;
                } else {
                    self.position.0 -= 1;
                }
            },
            Dir::Right => {
                if self.position.0 == width - 1 {
                    self.direction = Dir::Down;
                    self.position.1 += 1;
                } else {
                    self.position.0 += 1;
                }
            },
            Dir::Up => {
                vstd::pervasive::unreached::<()>();
            },
        }
    }
}

impl Entity for Invader {
    open spec fn position_view(&self) -> Coord {
        self.position
    }

    open spec fn icon_view(&self) -> char {
        '@'
    }

    fn position(&self) -> (p: &Coord) {
        &self.position
    }

    fn icon(&self) -> (c: char) {
        '@'
    }
}

impl Missile {
    pub fn new(position: Coord, direction: Dir) -> (m: Self)
        ensures
            m == (Missile { position, direction }),
    {
        Missile { position, direction }
    }

    /// Whether the missile is on a cell of a `size.0` by `size.1` grid.
    pub open spec fn within(self, size: Coord) -> bool {
        self.position.0 < size.0 && self.position.1 < size.1
    }

    /// The missile one frame later in a grid `height` high, or `None` when
    /// the frame removes it. Going up it is removed exactly when it is in row
    /// 0; going down it is removed exactly when its row is no longer below
    /// `height`; going left or right it is never removed.
    pub open spec fn advanced(self, height: usize) -> Option<Missile> {
        let Coord(x, y) = self.position;
        match self.direction {
            Dir::Up => if y > 0 {
                Some(Missile { position: Coord(x, (y - 1) as usize), direction: Dir::Up })
            } else {
                None
            },
            Dir::Down => if y < height {
                Some(Missile { position: Coord(x, (y + 1) as usize), direction: Dir::Down })
            } else {
                None
            },
            Dir::Left => Some(
                Missile { position: Coord((x - 1) as usize, y), direction: Dir::Left },
            ),
            Dir::Right => Some(
                Missile { position: Coord((x + 1) as usize, y), direction: Dir::Right },
            ),
        }
    }

    /// Whether the move of `advanced` stays in the range of `usize`: a
    /// missile going left is not in column 0, and one going right is not in
    /// the last column a `usize` can name.
    pub open spec fn can_advance(self) -> bool {
        match self.direction {
            Dir::Left => self.position.0 > 0,
            Dir::Right => self.position.0 < usize::MAX,
            _ => true,
        }
    }

    /// Makes the move of `advanced`.
    pub fn advance(self, height: usize) -> (next: Option<Missile>)
        requires
            self.can_advance(),
        ensures
            next == self.advanced(height),
    {
        let mut missile = self;
        match missile.direction {
            Dir::Up => {
                if missile.position.1 > 0 {
                    missile.position.1 -= 1;
                    Some(missile)
                } else {
                    None
                }
            },
            Dir::Down => {
                if missile.position.1 < height {
                    missile.position.1 += 1;
                    Some(missile)
                } else {
                    None
                }
            },
            Dir::Left => {
                missile.position.0 -= 1;
                Some(missile)
            },
            Dir::Right => {
                missile.position.0 += 1;
                Some(missile)
            },
        }
    }
}

/// A missile going up is removed by a frame exactly when it is in row 0,
/// where its row would go below 0. Anywhere else the frame moves it up one
/// row in its column.
pub proof fn lemma_up_missile_leaves_at_top(missile: Missile, height: usize)
    requires
        missile.direction == Dir::Up,
    ensures
        missile.advanced(height) is None <==> missile.position.1 == 0,
        missile.position.1 > 0 ==> missile.advanced(height) == Some(
            Missile {
                position: Coord(missile.position.0, (missile.position.1 - 1) as usize),
                direction: Dir::Up,
            },
        ),
{
}

impl Entity for Missile {
    open spec fn position_view(&self) -> Coord {
        self.position
    }

    open spec fn icon_view(&self) -> char {
        match self.direction {
            Dir::Up => '!',
            Dir::Down => ';',
            _ => '=',
        }
    }

    fn position(&self) -> (p: &Coord) {
        &self.position
    }

    fn icon(&self) -> (c: char) {
        match self.direction {
            Dir::Up => '!',
            Dir::Down => ';',
            _ => '=',
        }
    }
}

} // verus!
