//! One play session: the entities, the rules that move them each frame and
//! the collision pass.

use vstd::prelude::*;
use crate::entities::{
    Invader,
    Missile,
    Player,
    FIRE_COOLDOWN_TICKS,
    INITIAL_HEALTH,
    INVADER_STEP_INTERVAL,
};
use crate::game::collision::{
    lemma_survivor_holds_own_tag,
    lemma_survivors_apart,
    lemma_survivors_stay,
    stamp,
    stamp_grid,
    surviving_invaders,
    surviving_missiles,
};
use crate::game::session::{
    invader_fits,
    lemma_in_progress_moves,
    missile_has_room,
    Outcome,
    Session,
};
use crate::game::{GameAction, Key, Loop};
use crate::grid::Grid;
use crate::utils::{capped_inc, capped_succ, looped_inc, looped_succ, Coord, Dir, Screen, Tile};

verus! {

/// What the user asked of the player during one frame.
#[derive(Debug, PartialEq, Eq, Clone, Copy, Structural)]
pub enum CtrlEvent {
    Left,
    Right,
    Shoot,
}

/// What the rules of one frame read: the frame's events in arrival order,
/// the screen and the frame's number.
pub struct FrameState {
    pub events: Vec<CtrlEvent>,
    pub screen: Screen,
    pub frame: u8,
}

impl FrameState {
    /// The state of frame 0 on `screen`, with no event yet.
    pub fn new(screen: Screen) -> (s: Self)
        ensures
            s.events@ == Seq::<CtrlEvent>::empty(),
            s.screen == screen,
            s.frame == 0,
    {
        Self { events: Vec::new(), screen, frame: 0 }
    }
}

/// Whether invaders move on the frame numbered `frame`.
pub open spec fn invaders_move_on(frame: u8) -> bool {
    frame % INVADER_STEP_INTERVAL == 0
}

/// The invaders after the frame numbered `frame` on a grid `width` wide:
/// each one moved once on a frame on which invaders move, all of them as
/// they were on any other.
pub open spec fn swept_invaders(invaders: Seq<Invader>, frame: u8, width: usize) -> Seq<Invader> {
    if invaders_move_on(frame) {
        invaders.map_values(|i: Invader| i.stepped(width))
    } else {
        invaders
    }
}

/// Moves every invader once if invaders move on this frame. Invaders fire no
/// missiles, so the missiles handed back are none.
pub fn update_invaders(
    invaders: &mut Vec<Invader>,
    frame_state: &FrameState,
) -> (fired: Vec<Missile>)
    requires
        invaders_move_on(frame_state.frame) ==> forall|i: int|
            0 <= i < old(invaders)@.len() ==> (#[trigger] old(invaders)@[i]).can_step(
                frame_state.screen.size_view().0,
            ),
    ensures
        fired@ == Seq::<Missile>::empty(),
        final(invaders)@ == swept_invaders(
            old(invaders)@,
            frame_state.frame,
            frame_state.screen.size_view().0,
        ),
{
    let fired = Vec::with_capacity(0);
    if frame_state.frame % INVADER_STEP_INTERVAL == 0 {
        let width = frame_state.screen.size().0;
        let mut i: usize = 0;
        while i < invaders.len()
            invariant
                i <= invaders@.len(),
                invaders@.len() == old(invaders)@.len(),
                width == frame_state.screen.size_view().0,
                forall|k: int|
                    0 <= k < i ==> invaders@[k] == (#[trigger] old(invaders)@[k]).stepped(width),
                forall|k: int| i <= k < invaders@.len() ==> invaders@[k] == old(invaders)@[k],
                forall|k: int|
                    0 <= k < old(invaders)@.len() ==> (#[trigger] old(invaders)@[k]).can_step(
                        width,
                    ),
            decreases invaders@.len() - i,
        {
            let mut invader = invaders[i];
            invader.step(width);
            invaders[i] = invader;
            i = i + 1;
        }
        assert(invaders@ =~= old(invaders)@.map_values(|i: Invader| i.stepped(width)));
    }
    fired
}

/// The missiles after one frame in a grid `height` high: each one moved, in
/// the order they were in, without those the frame removes.
pub open spec fn advanced_missiles(missiles: Seq<Missile>, height: usize) -> Seq<Missile> {
    missiles.filter_map(|m: Missile| m.advanced(height))
}

/// Moves every missile one cell and drops those that leave the grid
/// vertically.
pub fn update_missiles(missiles: &mut Vec<Missile>, frame_state: &FrameState)
    requires
        forall|i: int|
            0 <= i < old(missiles)@.len() ==> (#[trigger] old(missiles)@[i]).can_advance(),
    ensures
        final(missiles)@ == advanced_missiles(old(missiles)@, frame_state.screen.size_view().1),
{
    let height = frame_state.screen.size().1;
    let ghost rule = |m: Missile| m.advanced(height);
    let mut kept: Vec<Missile> = Vec::new();
    let mut i: usize = 0;
    while i < missiles.len()
        invariant
            i <= missiles@.len(),
            missiles@ == old(missiles)@,
            height == frame_state.screen.size_view().1,
            rule == (|m: Missile| m.advanced(height)),
            kept@ == missiles@.take(i as int).filter_map(rule),
            forall|k: int| 0 <= k < missiles@.len() ==> (#[trigger] missiles@[k]).can_advance(),
        decreases missiles@.len() - i,
    {
        let next = missiles[i].advance(height);
        proof {
            missiles@.lemma_filter_map_take_succ(rule, i as int);
        }
        if let Some(moved) = next {
            kept.push(moved);
        }
        i = i + 1;
    }
    assert(missiles@.take(missiles@.len() as int) =~= missiles@);
    *missiles = kept;
}

/// The player and the shot of this frame, while the frame's events are
/// applied one by one.
pub struct PlayerTurn {
    pub player: Player,
    pub shot: Option<Missile>,
}

impl PlayerTurn {
    /// The turn after one more event, on a grid `width` wide. `Left` and
    /// `Right` move the player one column unless it stands on the edge.
    /// `Shoot` is accepted only when the timer is past the cooldown: it then
    /// resets the timer and makes the shot a missile going up from the cell
    /// above the player.
    pub open spec fn after(self, event: CtrlEvent, width: usize) -> PlayerTurn {
        let Coord(x, y) = self.player.position;
        match event {
            CtrlEvent::Left => if x > 0 {
                PlayerTurn {
                    player: Player { position: Coord((x - 1) as usize, y), ..self.player },
                    ..self
                }
            } else {
                self
            },
            CtrlEvent::Right => if x < width - 1 {
                PlayerTurn {
                    player: Player { position: Coord((x + 1) as usize, y), ..self.player },
                    ..self
                }
            } else {
                self
            },
            CtrlEvent::Shoot => if self.player.missile_timer > FIRE_COOLDOWN_TICKS {
                PlayerTurn {
                    player: Player { missile_timer: 0, ..self.player },
                    shot: Some(
                        Missile { position: Coord(x, (y - 1) as usize), direction: Dir::Up },
                    ),
                }
            } else {
                self
            },
        }
    }

    /// The turn after all of `events`, first to last.
    pub open spec fn after_all(self, events: Seq<CtrlEvent>, width: usize) -> PlayerTurn
        decreases events.len(),
    {
        if events.len() == 0 {
            self
        } else {
            self.after_all(events.drop_last(), width).after(events.last(), width)
        }
    }
}

/// The player's whole frame: the timer counts one frame more, stopping at
/// its cap, and then the events are applied in arrival order.
pub open spec fn player_turn(player: Player, events: Seq<CtrlEvent>, width: usize) -> PlayerTurn {
    (PlayerTurn {
        player: Player { missile_timer: capped_succ(player.missile_timer), ..player },
        shot: None,
    }).after_all(events, width)
}

/// Whether a shot is accepted at some point while `events` are applied to
/// `turn`.
pub open spec fn fires(turn: PlayerTurn, events: Seq<CtrlEvent>) -> bool {
    turn.player.missile_timer > FIRE_COOLDOWN_TICKS && events.contains(CtrlEvent::Shoot)
}

/// What the events of a frame can and cannot do to a turn.
///
/// They leave the player's row and health alone and keep the player on a
/// grid it was on. A shot is accepted exactly when the timer is past the
/// cooldown and a `Shoot` is among the events. The accepted shot goes up
/// from the row above the player, from a column of the grid, and leaves the
/// timer at zero. Without one the timer and the earlier shot stay as they
/// were.
pub proof fn lemma_turn(turn: PlayerTurn, events: Seq<CtrlEvent>, width: usize)
    ensures
        ({
            let end = turn.after_all(events, width);
            &&& end.player.position.1 == turn.player.position.1
            &&& end.player.health == turn.player.health
            &&& turn.player.position.0 < width ==> end.player.position.0 < width
            &&& end.player.missile_timer == if fires(turn, events) {
                0
            } else {
                turn.player.missile_timer
            }
            &&& !fires(turn, events) ==> end.shot == turn.shot
            &&& fires(turn, events) ==> (end.shot matches Some(m) && m.direction == Dir::Up
                && m.position.1 == (turn.player.position.1 - 1) as usize && (
            turn.player.position.0 < width ==> m.position.0 < width))
        }),
    decreases events.len(),
{
    if events.len() > 0 {
        let front = events.drop_last();
        lemma_turn(turn, front, width);
        assert(events[events.len() - 1] == events.last());
        if front.contains(CtrlEvent::Shoot) {
            let k = choose|k: int| 0 <= k < front.len() && front[k] == CtrlEvent::Shoot;
            assert(events[k] == CtrlEvent::Shoot);
        }
        if events.contains(CtrlEvent::Shoot) && events.last() != CtrlEvent::Shoot {
            let k = choose|k: int| 0 <= k < events.len() && events[k] == CtrlEvent::Shoot;
            assert(front[k] == CtrlEvent::Shoot);
        }
    }
}

/// What one frame can and cannot do to the player.
///
/// The player keeps its row and health and stays on a grid it was on. It
/// fires exactly when the timer, having counted this frame, is past the
/// cooldown and a `Shoot` is among the events. The missile then goes up from
/// the row above the player, and the timer is back at zero. Without a shot
/// the timer has counted one frame more.
pub proof fn lemma_player_turn(player: Player, events: Seq<CtrlEvent>, width: usize)
    ensures
        ({
            let end = player_turn(player, events, width);
            let fired = capped_succ(player.missile_timer) > FIRE_COOLDOWN_TICKS && events.contains(
                CtrlEvent::Shoot,
            );
            &&& end.player.position.1 == player.position.1
            &&& end.player.health == player.health
            &&& player.position.0 < width ==> end.player.position.0 < width
            &&& end.shot is Some <==> fired
            &&& end.player.missile_timer == if fired {
                0
            } else {
                capped_succ(player.missile_timer)
            }
            &&& end.shot matches Some(m) ==> (m.direction == Dir::Up && m.position.1 == (
            player.position.1 - 1) as usize && (player.position.0 < width ==> m.position.0
                < width))
        }),
{
    lemma_turn(
        PlayerTurn {
            player: Player { missile_timer: capped_succ(player.missile_timer), ..player },
            shot: None,
        },
        events,
        width,
    );
}

/// A move against the edge is no move: `Left` in column 0 and `Right` in the
/// last column leave the turn as it was.
pub proof fn lemma_edge_moves_are_noops(turn: PlayerTurn, width: usize)
    ensures
        turn.player.position.0 == 0 ==> turn.after(CtrlEvent::Left, width) == turn,
        turn.player.position.0 == width - 1 ==> turn.after(CtrlEvent::Right, width) == turn,
{
}

/// The player after the frames whose events are `frames`, first to last.
pub open spec fn player_after(player: Player, frames: Seq<Seq<CtrlEvent>>, width: usize) -> Player
    decreases frames.len(),
{
    if frames.len() == 0 {
        player
    } else {
        player_turn(player_after(player, frames.drop_last(), width), frames.last(), width).player
    }
}

/// The shot of frame `i` of `frames`, if the player fires in it.
pub open spec fn shot_in_frame(
    player: Player,
    frames: Seq<Seq<CtrlEvent>>,
    width: usize,
    i: int,
) -> Option<Missile> {
    player_turn(player_after(player, frames.take(i), width), frames[i], width).shot
}

/// When the player fires in frame `i`, the timer stands at `k - i - 1` before
/// frame `k`, for each of the `FIRE_COOLDOWN_TICKS + 1` frames that follow.
proof fn lemma_timer_after_shot(
    player: Player,
    frames: Seq<Seq<CtrlEvent>>,
    width: usize,
    i: int,
    k: int,
)
    requires
        0 <= i < k <= frames.len(),
        k - i <= FIRE_COOLDOWN_TICKS + 1,
        shot_in_frame(player, frames, width, i) is Some,
    ensures
        player_after(player, frames.take(k), width).missile_timer == k - i - 1,
    decreases k,
{
    assert(frames.take(k).drop_last() =~= frames.take(k - 1));
    assert(frames.take(k).last() == frames[k - 1]);
    let before = player_after(player, frames.take(k - 1), width);
    lemma_player_turn(before, frames[k - 1], width);
    if k > i + 1 {
        lemma_timer_after_shot(player, frames, width, i, k - 1);
    }
}

/// The fire cooldown. After a frame in which the player fires, the player
/// fires in none of the next `FIRE_COOLDOWN_TICKS` frames, whatever their
/// events: any `FIRE_COOLDOWN_TICKS + 1` frames in a row see at most one
/// shot. In the frame after those the player fires again if asked to.
pub proof fn lemma_cooldown(
    player: Player,
    frames: Seq<Seq<CtrlEvent>>,
    width: usize,
    i: int,
    j: int,
)
    requires
        0 <= i < j < frames.len(),
        j - i <= FIRE_COOLDOWN_TICKS + 1,
        shot_in_frame(player, frames, width, i) is Some,
    ensures
        j - i <= FIRE_COOLDOWN_TICKS ==> shot_in_frame(player, frames, width, j) is None,
        j - i == FIRE_COOLDOWN_TICKS + 1 ==> (shot_in_frame(player, frames, width, j) is Some
            <==> frames[j].contains(CtrlEvent::Shoot)),
{
    lemma_timer_after_shot(player, frames, width, i, j);
    lemma_player_turn(player_after(player, frames.take(j), width), frames[j], width);
}

/// Counts the frame on the player's timer and applies the frame's events in
/// arrival order. Hands back the missile of the accepted shot, if there was
/// one.
pub fn update_player(player: &mut Player, frame_state: &FrameState) -> (shot: Option<Missile>)
    requires
        frame_state.screen.size_view().0 >= 1,
        player_turn(*old(player), frame_state.events@, frame_state.screen.size_view().0).shot
            is Some ==> old(player).position.1 > 0,
    ensures
        *final(player) == player_turn(
            *old(player),
            frame_state.events@,
            frame_state.screen.size_view().0,
        ).player,
        shot == player_turn(
            *old(player),
            frame_state.events@,
            frame_state.screen.size_view().0,
        ).shot,
        old(player).position.0 < frame_state.screen.size_view().0 ==> final(player).position.0
            < frame_state.screen.size_view().0,
{
    let width = frame_state.screen.size().0;
    capped_inc(&mut player.missile_timer);
    let ghost start = PlayerTurn { player: *player, shot: None };
    let ghost events = frame_state.events@;
    let mut request: Option<Missile> = None;
    let mut i: usize = 0;
    while i < frame_state.events.len()
        invariant
            i <= events.len(),
            events == frame_state.events@,
            width == frame_state.screen.size_view().0,
            width >= 1,
            start.player.position.1 == old(player).position.1,
            start.after_all(events, width).shot is Some ==> old(player).position.1 > 0,
            (PlayerTurn { player: *player, shot: request }) == start.after_all(
                events.take(i as int),
                width,
            ),
            old(player).position.0 < width ==> player.position.0 < width,
        decreases events.len() - i,
    {
        proof {
            assert(events.take(i + 1).drop_last() =~= events.take(i as int));
            lemma_turn(start, events, width);
            lemma_turn(start, events.take(i as int), width);
            assert(events[i as int] == frame_state.events@[i as int]);
        }
        match frame_state.events[i] {
            CtrlEvent::Left => {
                if player.position.0 > 0 {
                    player.position.0 -= 1;
                }
            },
            CtrlEvent::Right => {
                if player.position.0 < width - 1 {
                    player.position.0 += 1;
                }
            },
            CtrlEvent::Shoot => {
                if player.missile_timer > FIRE_COOLDOWN_TICKS {
                    player.missile_timer = 0;
                    let mut pos = player.position;
                    pos.1 -= 1;
                    request = Some(Missile::new(pos, Dir::Up));
                }
            },
        }
        i = i + 1;
    }
    assert(events.take(events.len() as int) =~= events);
    request
}

/// The event that `key` stands for during play: the arrows steer and the
/// space bar shoots.
pub open spec fn game_event(key: Key) -> Option<CtrlEvent> {
    match key {
        Key::Left => Some(CtrlEvent::Left),
        Key::Right => Some(CtrlEvent::Right),
        Key::Char(c) => if c == ' ' {
            Some(CtrlEvent::Shoot)
        } else {
            None
        },
        _ => None,
    }
}

/// Whether `key` ends the session during play: `q` or control-C.
pub open spec fn is_quit(key: Key) -> bool {
    key == Key::Char('q') || key == Key::Ctrl('c')
}

/// The events that `keys` stand for, in the order of the keys.
pub open spec fn game_events(keys: Seq<Key>) -> Seq<CtrlEvent> {
    keys.filter_map(|k: Key| game_event(k))
}

/// Whether one of `keys` ends the session.
pub open spec fn quit_pressed(keys: Seq<Key>) -> bool {
    exists|i: int| 0 <= i < keys.len() && is_quit(#[trigger] keys[i])
}

/// The column of the `i`-th invader of the opening formation: four groups
/// of four, one empty column between groups, the first in column 2.
pub open spec fn formation_column(i: int) -> int {
    2 + i + i / 4
}

/// The row of the opening formation.
pub const FORMATION_ROW: usize = 2;

/// The number of invaders in the opening formation.
pub const FORMATION_COUNT: usize = 16;

/// Whether a grid of the given size holds the opening formation, and its
/// cells can be counted in a `usize`.
pub open spec fn holds_formation(size: Coord) -> bool {
    &&& size.0 > formation_column(FORMATION_COUNT - 1)
    &&& size.1 > FORMATION_ROW
    &&& size.0 * size.1 <= usize::MAX
}

/// The session that `GameLoop::init` starts on `screen`: the player in the
/// middle of the bottom row, the formation sweeping right, no missile.
pub open spec fn opening(screen: Screen) -> Session {
    let size = screen.size_view();
    Session {
        running: true,
        screen,
        frame: 0,
        player: Player {
            position: Coord(size.0 / 2, (size.1 - 1) as usize),
            health: INITIAL_HEALTH,
            missile_timer: (FIRE_COOLDOWN_TICKS + 1) as u8,
        },
        invaders: Seq::new(
            FORMATION_COUNT as nat,
            |i: int|
                Invader {
                    direction: Dir::Right,
                    position: Coord(formation_column(i) as usize, FORMATION_ROW),
                },
        ),
        missiles: Seq::empty(),
    }
}

/// One play session, stepped a frame at a time.
pub struct GameLoop {
    is_running: bool,
    screen: Screen,
    frame: u8,
    player: Player,
    invaders: Vec<Invader>,
    missiles: Vec<Missile>,
}

impl View for GameLoop {
    type V = Session;

    closed spec fn view(&self) -> Session {
        Session {
            running: self.is_running,
            screen: self.screen,
            frame: self.frame,
            player: self.player,
            invaders: self.invaders@,
            missiles: self.missiles@,
        }
    }
}

impl GameLoop {
    /// Builds a session of the given entities on `screen`, at frame 0. There
    /// is one exactly when the session is well formed.
    pub fn with_entities(
        screen: Screen,
        player: Player,
        invaders: Vec<Invader>,
        missiles: Vec<Missile>,
    ) -> (built: Option<Self>)
        ensures
            built is Some <==> (Session {
                running: true,
                screen,
                frame: 0,
                player,
                invaders: invaders@,
                missiles: missiles@,
            }).wf(),
            built matches Some(s) ==> s@ == (Session {
                running: true,
                screen,
                frame: 0,
                player,
                invaders: invaders@,
                missiles: missiles@,
            }),
    {
        let session = Self { screen, invaders, frame: 0, is_running: true, player, missiles };
        if session.is_well_formed() {
            Some(session)
        } else {
            None
        }
    }

    /// Whether the session this loop holds is well formed.
    #[verifier::loop_isolation(false)]
    pub fn is_well_formed(&self) -> (r: bool)
        ensures
            r == self.wf(),
    {
        let size = *self.screen.size();
        if size.0.checked_mul(size.1).is_none() {
            return false;
        }
        if !(self.player.position.0 < size.0 && self.player.position.1 < size.1) {
            return false;
        }
        let mut i: usize = 0;
        while i < self.invaders.len()
            invariant
                i <= self.invaders@.len(),
                forall|k: int| 0 <= k < i ==> invader_fits(#[trigger] self.invaders@[k], size),
            decreases self.invaders@.len() - i,
        {
            let invader = self.invaders[i];
            let fits = invader.position.0 < size.0 && invader.position.1 < size.1 && size.0 >= 2
                && match invader.direction {
                Dir::Up => false,
                _ => true,
            };
            if !fits {
                assert(!invader_fits(self@.invaders[i as int], size));
                return false;
            }
            i = i + 1;
        }
        let mut j: usize = 0;
        while j < self.missiles.len()
            invariant
                j <= self.missiles@.len(),
                forall|k: int| 0 <= k < j ==> (#[trigger] self.missiles@[k]).within(size),
            decreases self.missiles@.len() - j,
        {
            let missile = self.missiles[j];
            if !(missile.position.0 < size.0 && missile.position.1 < size.1) {
                assert(!self@.missiles[j as int].within(size));
                return false;
            }
            j = j + 1;
        }
        true
    }

    /// The well-formedness of the session this loop holds.
    pub open spec fn wf(&self) -> bool {
        self@.wf()
    }

    pub fn screen(&self) -> (s: &Screen)
        ensures
            *s == self@.screen,
    {
        &self.screen
    }

    /// The number of the next frame.
    pub fn frame_number(&self) -> (n: u8)
        ensures
            n == self@.frame,
    {
        self.frame
    }

    /// Whether no quit key has been read yet.
    pub fn is_running(&self) -> (r: bool)
        ensures
            r == self@.running,
    {
        self.is_running
    }

    pub fn player(&self) -> (p: &Player)
        ensures
            *p == self@.player,
    {
        &self.player
    }

    pub fn invaders(&self) -> (v: &Vec<Invader>)
        ensures
            v@ == self@.invaders,
    {
        &self.invaders
    }

    pub fn missiles(&self) -> (v: &Vec<Missile>)
        ensures
            v@ == self@.missiles,
    {
        &self.missiles
    }

    /// How the session stands, read off its state.
    #[verifier::loop_isolation(false)]
    pub fn outcome(&self) -> (o: Outcome)
        ensures
            o == self@.outcome(),
    {
        if self.invaders.len() == 0 {
            return Outcome::Won;
        }
        let row = self.player.position.1;
        let mut i: usize = 0;
        while i < self.invaders.len()
            invariant
                i <= self.invaders@.len(),
                row == self.player.position.1,
                forall|k: int| 0 <= k < i ==> (#[trigger] self.invaders@[k]).position.1 < row,
            decreases self.invaders@.len() - i,
        {
            if self.invaders[i].position.1 >= row {
                assert(self@.invaders[i as int].position.1 >= self@.player.position.1);
                return Outcome::Lost;
            }
            i = i + 1;
        }
        let mut j: usize = 0;
        while j < self.missiles.len()
            invariant
                j <= self.missiles@.len(),
                row == self.player.position.1,
                forall|k: int|
                    0 <= k < j ==> !((#[trigger] self.missiles@[k]).direction == Dir::Down
                        && self.missiles@[k].position.1 >= row),
            decreases self.missiles@.len() - j,
        {
            let missile = self.missiles[j];
            let down = match missile.direction {
                Dir::Down => true,
                _ => false,
            };
            if down && missile.position.1 >= row {
                assert(self@.missiles[j as int].direction == Dir::Down);
                return Outcome::Lost;
            }
            j = j + 1;
        }
        if self.is_running {
            Outcome::InProgress
        } else {
            Outcome::Abandoned
        }
    }

    /// Whether a frame can be asked of this loop.
    #[verifier::loop_isolation(false)]
    pub fn is_ready(&self) -> (r: bool)
        ensures
            r == self@.ready(),
    {
        if !self.is_well_formed() {
            return false;
        }
        match self.outcome() {
            Outcome::InProgress => {},
            _ => {
                return true;
            },
        }
        let width = self.screen.size().0;
        let mut j: usize = 0;
        while j < self.missiles.len()
            invariant
                j <= self.missiles@.len(),
                forall|k: int|
                    0 <= k < j ==> missile_has_room(#[trigger] self.missiles@[k], self@.size()),
            decreases self.missiles@.len() - j,
        {
            let missile = self.missiles[j];
            let room = match missile.direction {
                Dir::Left => missile.position.0 >= 1,
                Dir::Right => missile.position.0 + 1 < width,
                _ => true,
            };
            if !room {
                assert(!missile_has_room(self@.missiles[j as int], self@.size()));
                return false;
            }
            j = j + 1;
        }
        true
    }

    /// Reads the keys of a frame: appends to `events` what they ask of the
    /// player, in their order, and ends the session on a quit key.
    pub fn handle_input(&mut self, keys: &Vec<Key>, events: &mut Vec<CtrlEvent>)
        ensures
            final(self)@ == old(self)@.heard(keys@),
            final(events)@ == old(events)@ + game_events(keys@),
    {
        let ghost decode = |k: Key| game_event(k);
        let mut i: usize = 0;
        while i < keys.len()
            invariant
                i <= keys@.len(),
                decode == (|k: Key| game_event(k)),
                events@ == old(events)@ + keys@.take(i as int).filter_map(decode),
                self@ == old(self)@.heard(keys@.take(i as int)),
            decreases keys@.len() - i,
        {
            proof {
                keys@.lemma_filter_map_take_succ(decode, i as int);
                let seen = keys@.take(i as int);
                let more = keys@.take(i + 1);
                assert(more[i as int] == keys@[i as int]);
                if quit_pressed(seen) {
                    let k = choose|k: int| 0 <= k < seen.len() && is_quit(#[trigger] seen[k]);
                    assert(is_quit(more[k]));
                }
                if quit_pressed(more) && !is_quit(keys@[i as int]) {
                    let k = choose|k: int| 0 <= k < more.len() && is_quit(#[trigger] more[k]);
                    assert(is_quit(seen[k]));
                }
            }
            match keys[i] {
                Key::Char(c) => {
                    if c == 'q' {
                        self.is_running = false;
                    } else if c == ' ' {
                        events.push(CtrlEvent::Shoot);
                    }
                },
                Key::Ctrl(c) => {
                    if c == 'c' {
                        self.is_running = false;
                    }
                },
                Key::Left => {
                    events.push(CtrlEvent::Left);
                },
                Key::Right => {
                    events.push(CtrlEvent::Right);
                },
                _ => {},
            }
            i = i + 1;
        }
        assert(keys@.take(keys@.len() as int) =~= keys@);
    }

    /// Moves every entity by the rules of one frame: the missiles, then the
    /// invaders, then the player, whose shot joins the missiles last.
    pub fn process_entities(&mut self, frame_state: &FrameState)
        requires
            old(self)@.can_move(
                frame_state.events@,
                frame_state.screen.size_view(),
                frame_state.frame,
            ),
        ensures
            final(self)@ == old(self)@.moved(
                frame_state.events@,
                frame_state.screen.size_view(),
                frame_state.frame,
            ),
    {
        assert(self@.missiles == self.missiles@ && self@.invaders == self.invaders@);
        update_missiles(&mut self.missiles, frame_state);
        let mut missiles = update_invaders(&mut self.invaders, frame_state);
        let missile = update_player(&mut self.player, frame_state);
        if let Some(missile) = missile {
            missiles.push(missile);
        }
        self.missiles.append(&mut missiles);
        proof {
            assert(self@.missiles =~= old(self)@.moved(
                frame_state.events@,
                frame_state.screen.size_view(),
                frame_state.frame,
            ).missiles);
        }
    }

    /// The occupancy grid of the session as it stands. Nothing is removed.
    pub fn snapshot(&self) -> (map: Grid<Tile>)
        requires
            self.wf(),
        ensures
            map.wf(),
            map.dimensions == self@.size(),
            forall|x: int, y: int|
                map.in_bounds(x, y) ==> #[trigger] map.cell(x, y) == self@.picture(
                    Coord(x as usize, y as usize),
                ),
    {
        let mut map = stamp_grid(*self.screen.size(), &self.missiles, &self.invaders);
        map.set_at(&self.player.position, Tile::Player);
        map
    }

    /// Runs the collision pass: builds the frame's occupancy grid and
    /// removes every missile and every invader whose cell does not hold its
    /// own tag. The player is stamped last and is never removed.
    pub fn handle_collisions(&mut self) -> (map: Grid<Tile>)
        requires
            old(self).wf(),
        ensures
            final(self)@ == old(self)@.resolved(),
            final(self).wf(),
            final(self)@.apart(),
            map.wf(),
            map.dimensions == old(self)@.size(),
            forall|x: int, y: int|
                map.in_bounds(x, y) ==> #[trigger] map.cell(x, y) == old(self)@.picture(
                    Coord(x as usize, y as usize),
                ),
    {
        let size = *self.screen.size();
        let mut map = stamp_grid(size, &self.missiles, &self.invaders);
        let ghost missiles = self.missiles@;
        let ghost invaders = self.invaders@;
        assert(missiles.len() == self.missiles.len() && invaders.len() == self.invaders.len());

        let mut kept_missiles: Vec<Missile> = Vec::new();
        let mut i: usize = 0;
        while i < self.missiles.len()
            invariant
                i <= missiles.len(),
                self.missiles@ == missiles,
                missiles.len() <= usize::MAX,
                invaders.len() <= usize::MAX,
                map.wf(),
                map.dimensions == size,
                forall|k: int| 0 <= k < missiles.len() ==> (#[trigger] missiles[k]).within(size),
                forall|x: int, y: int|
                    map.in_bounds(x, y) ==> #[trigger] map.cell(x, y) == stamp(
                        missiles,
                        invaders,
                        Coord(x as usize, y as usize),
                    ),
                kept_missiles@ == surviving_missiles(missiles, invaders, i as int),
            decreases missiles.len() - i,
        {
            let missile = self.missiles[i];
            let keep = match map.get_at(&missile.position) {
                Tile::Missile(owner) => owner == i,
                _ => false,
            };
            proof {
                lemma_survivor_holds_own_tag(missiles, invaders, i as int);
            }
            if keep {
                kept_missiles.push(missile);
            }
            i = i + 1;
        }

        let mut kept_invaders: Vec<Invader> = Vec::new();
        let mut j: usize = 0;
        while j < self.invaders.len()
            invariant
                j <= invaders.len(),
                self.invaders@ == invaders,
                missiles.len() <= usize::MAX,
                invaders.len() <= usize::MAX,
                map.wf(),
                map.dimensions == size,
                forall|k: int| 0 <= k < invaders.len() ==> (#[trigger] invaders[k]).within(size),
                forall|x: int, y: int|
                    map.in_bounds(x, y) ==> #[trigger] map.cell(x, y) == stamp(
                        missiles,
                        invaders,
                        Coord(x as usize, y as usize),
                    ),
                kept_invaders@ == surviving_invaders(missiles, invaders, j as int),
            decreases invaders.len() - j,
        {
            let invader = self.invaders[j];
            let keep = match map.get_at(&invader.position) {
                Tile::Invader(owner) => owner == j,
                _ => false,
            };
            proof {
                lemma_survivor_holds_own_tag(missiles, invaders, j as int);
            }
            if keep {
                kept_invaders.push(invader);
            }
            j = j + 1;
        }

        proof {
            lemma_survivors_stay(missiles, invaders);
            lemma_survivors_apart(missiles, invaders);
        }
        self.missiles = kept_missiles;
        self.invaders = kept_invaders;
        map.set_at(&self.player.position, Tile::Player);
        map
    }
}

impl Loop for GameLoop {
    type Shown = Grid<Tile>;

    /// A session can be started on a screen with at least one row.
    open spec fn can_init(screen: Screen) -> bool {
        screen.size_view().1 >= 1
    }

    /// A frame can be asked of a session that is ready.
    open spec fn can_frame(&self) -> bool {
        self@.ready()
    }

    /// Starts the session `opening(screen)`. It is well formed on a screen
    /// that holds the formation, and then ready for its first frame.
    fn init(screen: Screen) -> (s: Self)
        ensures
            s@ == opening(screen),
            holds_formation(screen.size_view()) ==> s@.ready() && s@.upward(),
    {
        let map_size = *screen.size();
        let player_pos = Coord(map_size.0 / 2, map_size.1 - 1);
        let mut invaders: Vec<Invader> = Vec::new();
        let mut i: usize = 0;
        while i < FORMATION_COUNT
            invariant
                i <= FORMATION_COUNT,
                invaders@.len() == i,
                forall|k: int|
                    0 <= k < i ==> invaders@[k] == (Invader {
                        direction: Dir::Right,
                        position: Coord(formation_column(k) as usize, FORMATION_ROW),
                    }),
            decreases FORMATION_COUNT - i,
        {
            invaders.push(Invader::new(Coord(2 + i + i / 4, FORMATION_ROW), Dir::Right));
            i = i + 1;
        }
        let s = Self {
            screen,
            invaders,
            frame: 0,
            is_running: true,
            player: Player::new(player_pos),
            missiles: Vec::new(),
        };
        proof {
            assert(s@.invaders =~= opening(screen).invaders);
            assert(s@.missiles =~= opening(screen).missiles);
        }
        s
    }

    /// Runs one frame with the keys read since the last one. A session that
    /// is over is left as it is. One in progress hears the keys, moves its
    /// entities, resolves their collisions and counts the frame. Hands back
    /// the frame's occupancy grid, and `GameAction::Continue` while the
    /// session is still in progress afterwards, `GameAction::Menu` once it is
    /// not.
    fn frame(&mut self, keys: &Vec<Key>) -> (shown: (Grid<Tile>, GameAction))
        ensures
            final(self)@ == old(self)@.next(keys@),
            final(self).wf(),
            shown.0.wf(),
            shown.0.dimensions == old(self)@.size(),
            forall|x: int, y: int|
                shown.0.in_bounds(x, y) ==> #[trigger] shown.0.cell(x, y) == old(self)@.in_frame(
                    keys@,
                ).picture(Coord(x as usize, y as usize)),
            shown.1 == old(self)@.asks(keys@),
            old(self)@.ticks() ==> final(self)@.apart(),
    {
        match self.outcome() {
            Outcome::InProgress => {},
            _ => {
                return (self.snapshot(), GameAction::Menu);
            },
        }
        let mut frame_state = FrameState::new(self.screen);
        frame_state.frame = self.frame;
        frame_state.events.clear();
        self.handle_input(keys, &mut frame_state.events);
        proof {
            assert(frame_state.events@ =~= game_events(keys@));
            lemma_in_progress_moves(old(self)@, keys@);
        }
        self.process_entities(&frame_state);
        let map = self.handle_collisions();
        let ghost resolved = self@;
        looped_inc(&mut self.frame);
        assert(self@ == Session { frame: looped_succ(resolved.frame), ..resolved });
        let action = match self.outcome() {
            Outcome::InProgress => GameAction::Continue,
            _ => GameAction::Menu,
        };
        (map, action)
    }
}

} // verus!
