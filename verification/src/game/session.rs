//! The state of one play session as a mathematical value, and what a frame
//! makes of it.

use vstd::prelude::*;
use crate::entities::{Invader, Missile, Player};
use crate::game::collision::{
    apart,
    lemma_survivors_apart,
    lemma_survivors_stay,
    occupancy,
    surviving_invaders,
    surviving_missiles,
};
use crate::game::game_loop::{
    advanced_missiles,
    game_events,
    invaders_move_on,
    lemma_player_turn,
    player_turn,
    quit_pressed,
    swept_invaders,
    CtrlEvent,
};
use crate::game::{GameAction, Key};
use crate::utils::{looped_succ, Coord, Dir, Screen, Tile};

verus! {

/// How a session stands.
#[derive(Debug, PartialEq, Eq, Clone, Copy, Structural)]
pub enum Outcome {
    /// Invaders are left, none has come down to the player, and the user has
    /// not quit.
    InProgress,
    /// No invader is left.
    Won,
    /// Invaders are left, and one of them, or a missile going down, is on
    /// the player's row or below it.
    Lost,
    /// The user quit a session that was neither won nor lost.
    Abandoned,
}

/// A play session: one player, the invaders and the missiles in the order of
/// their collections, the screen, the number of the next frame, and whether
/// the user has not yet quit.
pub struct Session {
    pub running: bool,
    pub screen: Screen,
    pub frame: u8,
    pub player: Player,
    pub invaders: Seq<Invader>,
    pub missiles: Seq<Missile>,
}

/// Whether `invader` can be part of a session on a grid of the given size:
/// it is on the grid, it does not point up, and the grid is wide enough to
/// sweep in.
pub open spec fn invader_fits(invader: Invader, size: Coord) -> bool {
    invader.within(size) && invader.direction != Dir::Up && size.0 >= 2
}

/// Whether `missile` can move once more without leaving the grid sideways.
pub open spec fn missile_has_room(missile: Missile, size: Coord) -> bool {
    match missile.direction {
        Dir::Left => missile.position.0 >= 1,
        Dir::Right => missile.position.0 + 1 < size.0,
        _ => true,
    }
}

impl Session {
    /// The width and height of the playing field.
    pub open spec fn size(self) -> Coord {
        self.screen.size_view()
    }

    /// Every entity is on the grid, whose cells can be counted in a `usize`,
    /// and every invader fits it.
    pub open spec fn wf(self) -> bool {
        &&& self.size().0 * self.size().1 <= usize::MAX
        &&& self.player.within(self.size())
        &&& forall|i: int|
            0 <= i < self.invaders.len() ==> invader_fits(#[trigger] self.invaders[i], self.size())
        &&& forall|i: int|
            0 <= i < self.missiles.len() ==> (#[trigger] self.missiles[i]).within(self.size())
    }

    /// Whether an invader, or a missile going down, has reached the
    /// player's row.
    pub open spec fn breached(self) -> bool {
        ||| exists|i: int|
            0 <= i < self.invaders.len() && (#[trigger] self.invaders[i]).position.1
                >= self.player.position.1
        ||| exists|i: int|
            0 <= i < self.missiles.len() && (#[trigger] self.missiles[i]).direction == Dir::Down
                && self.missiles[i].position.1 >= self.player.position.1
    }

    /// How the session stands. It is read off the state alone, so a session
    /// without invaders is won before any frame has run.
    pub open spec fn outcome(self) -> Outcome {
        if self.invaders.len() == 0 {
            Outcome::Won
        } else if self.breached() {
            Outcome::Lost
        } else if !self.running {
            Outcome::Abandoned
        } else {
            Outcome::InProgress
        }
    }

    /// Whether every missile that goes left or right can move once more
    /// inside the grid.
    pub open spec fn missiles_have_room(self) -> bool {
        forall|i: int|
            0 <= i < self.missiles.len() ==> missile_has_room(
                #[trigger] self.missiles[i],
                self.size(),
            )
    }

    /// Whether a frame can be asked of the session: it is well formed, and
    /// while it is in progress its missiles have room.
    pub open spec fn ready(self) -> bool {
        self.wf() && (self.outcome() == Outcome::InProgress ==> self.missiles_have_room())
    }

    /// Whether the entities can make the moves of one frame numbered `frame`
    /// with the given events on a grid of the given size, each within the
    /// range of `usize`.
    pub open spec fn can_move(self, events: Seq<CtrlEvent>, size: Coord, frame: u8) -> bool {
        &&& forall|i: int|
            0 <= i < self.missiles.len() ==> (#[trigger] self.missiles[i]).can_advance()
        &&& invaders_move_on(frame) ==> forall|i: int|
            0 <= i < self.invaders.len() ==> (#[trigger] self.invaders[i]).can_step(size.0)
        &&& size.0 >= 1
        &&& player_turn(self.player, events, size.0).shot is Some ==> self.player.position.1 > 0
    }

    /// The session after every entity has made its move of the frame: the
    /// missiles first, then the invaders, then the player, whose shot joins
    /// the missiles last.
    pub open spec fn moved(self, events: Seq<CtrlEvent>, size: Coord, frame: u8) -> Session {
        let turn = player_turn(self.player, events, size.0);
        Session {
            player: turn.player,
            invaders: swept_invaders(self.invaders, frame, size.0),
            missiles: advanced_missiles(self.missiles, size.1) + match turn.shot {
                Some(missile) => seq![missile],
                None => Seq::empty(),
            },
            ..self
        }
    }

    /// What the occupancy grid of this state shows on cell `c`.
    pub open spec fn picture(self, c: Coord) -> Tile {
        occupancy(self.missiles, self.invaders, self.player.position, c)
    }

    /// The session after the collision pass: the missiles and invaders that
    /// survive, in their order.
    pub open spec fn resolved(self) -> Session {
        Session {
            missiles: surviving_missiles(self.missiles, self.invaders, self.missiles.len() as int),
            invaders: surviving_invaders(self.missiles, self.invaders, self.invaders.len() as int),
            ..self
        }
    }

    /// The session after the keys of a frame were read: a quit key ends it.
    pub open spec fn heard(self, keys: Seq<Key>) -> Session {
        Session { running: self.running && !quit_pressed(keys), ..self }
    }

    /// Whether `frame` changes the session: it does while the session is in
    /// progress, and not once it is over.
    pub open spec fn ticks(self) -> bool {
        self.outcome() == Outcome::InProgress
    }

    /// The session as it is when the frame's entities have moved and the
    /// collision pass has not yet run. This is the state the frame's grid
    /// shows.
    pub open spec fn in_frame(self, keys: Seq<Key>) -> Session {
        if self.ticks() {
            self.heard(keys).moved(game_events(keys), self.size(), self.frame)
        } else {
            self
        }
    }

    /// The session after one frame with the given keys. A session that is
    /// over stays as it is. One in progress hears the keys, moves its
    /// entities, resolves their collisions and counts the frame.
    pub open spec fn next(self, keys: Seq<Key>) -> Session {
        if self.ticks() {
            Session { frame: looped_succ(self.frame), ..self.in_frame(keys).resolved() }
        } else {
            self
        }
    }

    /// What the loop asks of the state machine after a frame with the given
    /// keys: to go on while the session is in progress, and for the menu once
    /// it is not.
    pub open spec fn asks(self, keys: Seq<Key>) -> GameAction {
        if self.next(keys).outcome() == Outcome::InProgress {
            GameAction::Continue
        } else {
            GameAction::Menu
        }
    }

    /// Whether every missile goes up, as every missile does that the player
    /// fired.
    pub open spec fn upward(self) -> bool {
        forall|i: int|
            0 <= i < self.missiles.len() ==> (#[trigger] self.missiles[i]).direction == Dir::Up
    }

    /// Whether no two of the missiles and invaders are on one cell.
    pub open spec fn apart(self) -> bool {
        apart(self.missiles, self.invaders)
    }
}

/// A session that is ready and in progress can make the moves of its next
/// frame, whatever keys were pressed, and is well formed when it has made
/// them.
pub proof fn lemma_in_progress_moves(s: Session, keys: Seq<Key>)
    requires
        s.ready(),
        s.ticks(),
    ensures
        s.heard(keys).can_move(game_events(keys), s.size(), s.frame),
        s.in_frame(keys).wf(),
{
    let size = s.size();
    let events = game_events(keys);
    let row = s.player.position.1;
    assert(s.invaders[0].position.1 < row);
    assert forall|i: int| 0 <= i < s.missiles.len() implies (
    #[trigger] s.missiles[i]).can_advance() by {
        assert(missile_has_room(s.missiles[i], size));
        assert(s.missiles[i].within(size));
    }
    assert forall|i: int| 0 <= i < s.invaders.len() implies (#[trigger] s.invaders[i]).can_step(
        size.0,
    ) by {
        assert(invader_fits(s.invaders[i], size));
    }
    let after = s.in_frame(keys);
    let turn = player_turn(s.player, events, size.0);
    lemma_player_turn(s.player, events, size.0);
    assert forall|i: int| 0 <= i < after.invaders.len() implies invader_fits(
        #[trigger] after.invaders[i],
        size,
    ) by {
        assert(invader_fits(s.invaders[i], size));
        assert(s.invaders[i].position.1 < row);
    }
    let moved = advanced_missiles(s.missiles, size.1);
    assert forall|i: int| 0 <= i < after.missiles.len() implies (
    #[trigger] after.missiles[i]).within(size) by {
        if i < moved.len() {
            let rule = |m: Missile| m.advanced(size.1);
            assert(moved.contains(moved[i]));
            s.missiles.lemma_filter_map_contains(rule, moved[i]);
            let from = choose|t: Missile| #[trigger]
                s.missiles.contains(t) && rule(t) == Some(moved[i]);
            let k = choose|k: int| 0 <= k < s.missiles.len() && s.missiles[k] == from;
            assert(s.missiles[k].within(size));
            assert(missile_has_room(s.missiles[k], size));
            if from.direction == Dir::Down {
                assert(s.missiles[k].position.1 < row);
            }
        }
    }
}

/// A frame keeps a ready session well formed.
pub proof fn lemma_next_wf(s: Session, keys: Seq<Key>)
    requires
        s.ready(),
    ensures
        s.next(keys).wf(),
{
    if s.ticks() {
        lemma_in_progress_moves(s, keys);
        let moved = s.in_frame(keys);
        let kept = moved.resolved();
        lemma_survivors_stay(moved.missiles, moved.invaders);
        assert forall|i: int| 0 <= i < kept.invaders.len() implies invader_fits(
            #[trigger] kept.invaders[i],
            s.size(),
        ) by {
            let k = choose|k: int|
                0 <= k < moved.invaders.len() && moved.invaders[k] == kept.invaders[i];
            assert(invader_fits(moved.invaders[k], s.size()));
        }
        assert forall|i: int| 0 <= i < kept.missiles.len() implies (
        #[trigger] kept.missiles[i]).within(s.size()) by {
            let k = choose|k: int|
                0 <= k < moved.missiles.len() && moved.missiles[k] == kept.missiles[i];
            assert(moved.missiles[k].within(s.size()));
        }
    }
}

/// A well-formed session whose missiles all go up is ready, and a frame
/// leaves it well formed with all its missiles going up: such a session can
/// be run frame after frame.
pub proof fn lemma_next_upward(s: Session, keys: Seq<Key>)
    requires
        s.wf(),
        s.upward(),
    ensures
        s.ready(),
        s.next(keys).wf(),
        s.next(keys).upward(),
{
    assert forall|i: int| 0 <= i < s.missiles.len() implies missile_has_room(
        #[trigger] s.missiles[i],
        s.size(),
    ) by {
        assert(s.missiles[i].direction == Dir::Up);
    }
    lemma_next_wf(s, keys);
    if s.ticks() {
        let size = s.size();
        let moved = s.in_frame(keys);
        let kept = moved.resolved();
        let rule = |m: Missile| m.advanced(size.1);
        let flown = advanced_missiles(s.missiles, size.1);
        lemma_player_turn(s.player, game_events(keys), size.0);
        assert forall|i: int| 0 <= i < moved.missiles.len() implies (
        #[trigger] moved.missiles[i]).direction == Dir::Up by {
            if i < flown.len() {
                assert(flown.contains(flown[i]));
                s.missiles.lemma_filter_map_contains(rule, flown[i]);
                let from = choose|t: Missile| #[trigger]
                    s.missiles.contains(t) && rule(t) == Some(flown[i]);
                let k = choose|k: int| 0 <= k < s.missiles.len() && s.missiles[k] == from;
                assert(s.missiles[k].direction == Dir::Up);
            }
        }
        lemma_survivors_stay(moved.missiles, moved.invaders);
        assert forall|i: int| 0 <= i < kept.missiles.len() implies (
        #[trigger] kept.missiles[i]).direction == Dir::Up by {
            let k = choose|k: int|
                0 <= k < moved.missiles.len() && moved.missiles[k] == kept.missiles[i];
            assert(moved.missiles[k].direction == Dir::Up);
        }
    }
}

/// After a frame that moved the entities of a session, every cell has at
/// most one owner: no two of the missiles and invaders are on one cell.
pub proof fn lemma_next_apart(s: Session, keys: Seq<Key>)
    requires
        s.ticks(),
    ensures
        s.next(keys).apart(),
{
    let moved = s.in_frame(keys);
    lemma_survivors_apart(moved.missiles, moved.invaders);
}

/// A session without invaders is won as it stands. No frame has to run for
/// that, and a frame asked of it changes nothing and asks for the menu.
pub proof fn lemma_no_invaders_is_won(s: Session, keys: Seq<Key>)
    requires
        s.invaders.len() == 0,
    ensures
        s.outcome() == Outcome::Won,
        s.next(keys) == s,
        s.asks(keys) == GameAction::Menu,
{
}

} // verus!
