//! The play loop, the menu loop and the state machine that runs one of them
//! per frame.

use vstd::prelude::*;
use crate::game::game_loop::{holds_formation, opening, GameLoop};
use crate::game::menu_loop::{menu_events, menu_turn, MenuItem, MenuLoop};
use crate::game::session::{lemma_next_upward, Session};
use crate::grid::Grid;
use crate::utils::{Coord, Screen, Tile};

pub mod collision;
pub mod game_loop;
pub mod menu_loop;
pub mod session;

verus! {

/// A key press, as far as the two loops tell keys apart.
#[derive(Debug, PartialEq, Eq, Clone, Copy, Structural)]
pub enum Key {
    Char(char),
    Ctrl(char),
    Left,
    Right,
    Up,
    Down,
    Other,
}

/// Which loop the state machine drives.
#[derive(Debug, PartialEq, Eq, Clone, Copy, Structural)]
pub enum GameState {
    Menu,
    Running,
    Done,
}

/// What a loop asks of the state machine at the end of a frame.
#[derive(Debug, PartialEq, Eq, Clone, Copy, Structural)]
pub enum GameAction {
    NewGame,
    EndGame,
    Continue,
    Menu,
    Quit,
}

/// A loop that the state machine can drive: it is started on a screen and
/// then run one frame at a time on the keys read since the last frame.
pub trait Loop: Sized {
    /// What a frame hands to whoever draws it.
    type Shown;

    /// Whether the loop can be started on `screen`.
    spec fn can_init(screen: Screen) -> bool;

    /// Whether a frame can be asked of the loop.
    spec fn can_frame(&self) -> bool;

    /// Starts the loop on `screen`.
    fn init(screen: Screen) -> (s: Self)
        requires
            Self::can_init(screen),
    ;

    /// Runs one frame on the keys read since the last one. Hands back what
    /// to draw for the frame and what the loop asks of the state machine.
    fn frame(&mut self, keys: &Vec<Key>) -> (shown: (Self::Shown, GameAction))
        requires
            old(self).can_frame(),
    ;
}

/// The width of the playing field.
pub const FIELD_WIDTH: usize = 45;

/// The height of the playing field.
pub const FIELD_HEIGHT: usize = 15;

/// The time one frame is meant to take, in milliseconds.
pub const FRAME_DURATION_MS: u64 = 30;

/// How long to sleep at the end of a frame that is meant to take
/// `target_ms` and has taken `elapsed_ms` so far: the rest of the time, and
/// nothing when the frame has already taken too long.
pub fn remaining_sleep(target_ms: u64, elapsed_ms: u64) -> (rest: u64)
    ensures
        rest == if elapsed_ms >= target_ms {
            0
        } else {
            target_ms - elapsed_ms
        },
{
    if elapsed_ms >= target_ms {
        0
    } else {
        target_ms - elapsed_ms
    }
}

/// The state `action` leads to from `state`. `Continue` and `NewGame` lead
/// to play, `EndGame` and `Menu` to the menu, and `Quit` nowhere.
pub open spec fn next_state(state: GameState, action: GameAction) -> GameState {
    match action {
        GameAction::Continue | GameAction::NewGame => GameState::Running,
        GameAction::EndGame | GameAction::Menu => GameState::Menu,
        GameAction::Quit => state,
    }
}

/// Whether `action` discards the session and starts a fresh one.
pub open spec fn restarts(action: GameAction) -> bool {
    action == GameAction::NewGame || action == GameAction::EndGame
}

/// What one step of the state machine hands to whoever draws it.
#[derive(Debug, PartialEq, Eq)]
pub enum Scene {
    /// The menu, with the item to draw as selected.
    Menu(MenuItem),
    /// The playing field of the frame.
    Field(Grid<Tile>),
}

/// The state machine as a mathematical value: its state, the screen, the
/// one session it owns and the item selected in the menu.
pub struct GameView {
    pub state: GameState,
    pub screen: Screen,
    pub session: Session,
    pub selected: MenuItem,
}

impl GameView {
    /// Whether the step drives the play loop. It drives the menu loop
    /// otherwise, and never both.
    pub open spec fn plays(self) -> bool {
        self.state == GameState::Running
    }

    /// The action that the driven loop asks for in a step with the given
    /// keys.
    pub open spec fn action(self, keys: Seq<Key>) -> GameAction {
        if self.plays() {
            self.session.asks(keys)
        } else {
            menu_turn(self.selected, menu_events(keys)).action
        }
    }

    /// The state machine after a step with the given keys. The driven loop
    /// runs one frame and the other is left alone. The action then picks the
    /// next state, and a restart puts a fresh session in place of the old.
    pub open spec fn stepped(self, keys: Seq<Key>) -> GameView {
        let action = self.action(keys);
        GameView {
            state: next_state(self.state, action),
            screen: self.screen,
            session: if restarts(action) {
                opening(self.screen)
            } else if self.plays() {
                self.session.next(keys)
            } else {
                self.session
            },
            selected: if self.plays() {
                self.selected
            } else {
                menu_turn(self.selected, menu_events(keys)).selected
            },
        }
    }

    /// The session is on the machine's screen, well formed, and all its
    /// missiles go up; the screen holds the opening formation.
    pub open spec fn wf(self) -> bool {
        &&& holds_formation(self.screen.size_view())
        &&& self.session.screen == self.screen
        &&& self.session.wf()
        &&& self.session.upward()
    }
}

/// The state machine that owns the session and the menu and drives one of
/// them per step.
pub struct Game {
    screen: Screen,
    game_loop: GameLoop,
    menu_loop: MenuLoop,
    state: GameState,
}

impl View for Game {
    type V = GameView;

    closed spec fn view(&self) -> GameView {
        GameView {
            state: self.state,
            screen: self.screen,
            session: self.game_loop@,
            selected: self.menu_loop.selected_view(),
        }
    }
}

impl Game {
    /// The well-formedness of the machine. It holds of every machine at all
    /// times.
    pub open spec fn wf(&self) -> bool {
        self@.wf()
    }

    #[verifier::type_invariant]
    spec fn well_formed(&self) -> bool {
        self@.wf()
    }

    /// A machine in the menu with a fresh session on a field of
    /// `FIELD_WIDTH` by `FIELD_HEIGHT` cells. Given the terminal's width and
    /// height, the field is centred by the terminal's width and by its
    /// height, each less `FIELD_WIDTH`; without them it sits in the corner.
    pub fn new(term_size: Option<(u16, u16)>) -> (g: Self)
        requires
            term_size matches Some((w, h)) ==> w >= FIELD_WIDTH && h >= FIELD_WIDTH,
        ensures
            g.wf(),
            g@.state == GameState::Menu,
            g@.selected == MenuItem::NewGame,
            g@.session == opening(g@.screen),
            g@.screen.size_view() == Coord(FIELD_WIDTH, FIELD_HEIGHT),
            g@.screen.margins_view() == match term_size {
                Some((w, h)) => Coord(
                    ((w - FIELD_WIDTH) / 2) as usize,
                    ((h - FIELD_WIDTH) / 2) as usize,
                ),
                None => Coord(0, 0),
            },
    {
        let screen_size = Coord(FIELD_WIDTH, FIELD_HEIGHT);
        let margins = if let Some((w, h)) = term_size {
            let x = (w as usize - screen_size.0) / 2;
            let y = (h as usize - screen_size.0) / 2;
            Coord(x, y)
        } else {
            Coord(0, 0)
        };
        let screen = Screen::new(margins, screen_size);
        let game_loop = GameLoop::init(screen);
        let menu_loop = MenuLoop::init(screen);
        Self { game_loop, menu_loop, state: GameState::Menu, screen }
    }

    pub fn state(&self) -> (s: GameState)
        ensures
            s == self@.state,
    {
        self.state
    }

    pub fn screen(&self) -> (s: &Screen)
        ensures
            *s == self@.screen,
    {
        &self.screen
    }

    /// The session the machine owns.
    pub fn game_loop(&self) -> (l: &GameLoop)
        ensures
            l@ == self@.session,
    {
        &self.game_loop
    }

    /// The menu the machine owns.
    pub fn menu_loop(&self) -> (l: &MenuLoop)
        ensures
            l.selected_view() == self@.selected,
    {
        &self.menu_loop
    }

    /// Runs one step on the keys read since the last one: a frame of the
    /// play loop while the state is `Running`, a frame of the menu loop
    /// otherwise, and then the transition that the frame's action asks for.
    /// Hands back the machine after the step, what to draw, and whether to
    /// go on: `false` once the action was `Quit`.
    pub fn step(self, keys: &Vec<Key>) -> (next: (Game, Scene, bool))
        ensures
            self.wf(),
            next.0.wf(),
            next.0@ == self@.stepped(keys@),
            next.2 == (self@.action(keys@) != GameAction::Quit),
            match next.1 {
                Scene::Menu(item) => !self@.plays() && item == self@.selected,
                Scene::Field(map) => self@.plays() && map.wf() && map.dimensions
                    == self@.screen.size_view() && forall|x: int, y: int|
                    map.in_bounds(x, y) ==> #[trigger] map.cell(x, y) == self@.session.in_frame(
                        keys@,
                    ).picture(Coord(x as usize, y as usize)),
            },
    {
        proof {
            use_type_invariant(&self);
            lemma_next_upward(self.game_loop@, keys@);
        }
        let Game { screen, mut game_loop, mut menu_loop, mut state } = self;
        let (scene, action) = match state {
            GameState::Running => {
                let (map, action) = game_loop.frame(keys);
                (Scene::Field(map), action)
            },
            _ => {
                let (item, action) = menu_loop.frame(keys);
                (Scene::Menu(item), action)
            },
        };
        let mut keep_going = true;
        match action {
            GameAction::Continue => {
                state = GameState::Running;
            },
            GameAction::NewGame => {
                game_loop = GameLoop::init(screen);
                state = GameState::Running;
            },
            GameAction::EndGame => {
                game_loop = GameLoop::init(screen);
                state = GameState::Menu;
            },
            GameAction::Menu => {
                state = GameState::Menu;
            },
            GameAction::Quit => {
                keep_going = false;
            },
        }
        (Game { screen, game_loop, menu_loop, state }, scene, keep_going)
    }
}

} // verus!
