//! The menu: three items in a ring, one of them selected.

use vstd::prelude::*;
use crate::game::{GameAction, Key, Loop};
use crate::utils::Screen;

verus! {

/// What the user asked of the menu during one frame.
#[derive(Debug, PartialEq, Eq, Clone, Copy, Structural)]
pub enum CtrlEvent {
    Up,
    Down,
    Select,
    Quit,
}

/// An item of the menu.
#[derive(Debug, PartialEq, Eq, Clone, Copy, Structural)]
pub enum MenuItem {
    NewGame,
    Continue,
    Quit,
}

impl MenuItem {
    /// The item below this one, the first item coming after the last.
    pub open spec fn below(self) -> MenuItem {
        match self {
            MenuItem::Continue => MenuItem::NewGame,
            MenuItem::NewGame => MenuItem::Quit,
            MenuItem::Quit => MenuItem::Continue,
        }
    }

    /// The item above this one, the last item coming before the first.
    pub open spec fn above(self) -> MenuItem {
        match self {
            MenuItem::Continue => MenuItem::Quit,
            MenuItem::NewGame => MenuItem::Continue,
            MenuItem::Quit => MenuItem::NewGame,
        }
    }

    /// What selecting this item asks of the state machine.
    pub open spec fn action(self) -> GameAction {
        match self {
            MenuItem::Continue => GameAction::Continue,
            MenuItem::NewGame => GameAction::NewGame,
            MenuItem::Quit => GameAction::Quit,
        }
    }

    pub fn next(&self) -> (item: Self)
        ensures
            item == self.below(),
    {
        match self {
            MenuItem::Continue => Self::NewGame,
            MenuItem::NewGame => Self::Quit,
            MenuItem::Quit => Self::Continue,
        }
    }

    pub fn previous(&self) -> (item: Self)
        ensures
            item == self.above(),
    {
        match self {
            MenuItem::Continue => Self::Quit,
            MenuItem::NewGame => Self::Continue,
            MenuItem::Quit => Self::NewGame,
        }
    }
}

/// The items form a ring of three: going down and up again, or up and down
/// again, comes back to the same item, and so does going down three times.
pub proof fn lemma_menu_ring(item: MenuItem)
    ensures
        item.below().above() == item,
        item.above().below() == item,
        item.below().below().below() == item,
        item.below() != item,
{
}

/// The event that `key` stands for in the menu: `q` and control-C quit, up
/// and left go up, down and right go down, space and return select.
pub open spec fn menu_event(key: Key) -> Option<CtrlEvent> {
    match key {
        Key::Char(c) => if c == 'q' {
            Some(CtrlEvent::Quit)
        } else if c == ' ' || c == '\n' {
            Some(CtrlEvent::Select)
        } else {
            None
        },
        Key::Ctrl(c) => if c == 'c' {
            Some(CtrlEvent::Quit)
        } else {
            None
        },
        Key::Up | Key::Left => Some(CtrlEvent::Up),
        Key::Down | Key::Right => Some(CtrlEvent::Down),
        Key::Other => None,
    }
}

/// The events that `keys` stand for in the menu, in the order of the keys.
pub open spec fn menu_events(keys: Seq<Key>) -> Seq<CtrlEvent> {
    keys.filter_map(|k: Key| menu_event(k))
}

/// The selected item and the action asked for so far, while the events of
/// one frame are applied one by one.
pub struct MenuTurn {
    pub selected: MenuItem,
    pub action: GameAction,
}

impl MenuTurn {
    /// The turn after one more event. `Up` and `Down` move the selection,
    /// `Select` asks for what the selected item stands for, `Quit` asks to
    /// quit.
    pub open spec fn after(self, event: CtrlEvent) -> MenuTurn {
        match event {
            CtrlEvent::Down => MenuTurn { selected: self.selected.below(), ..self },
            CtrlEvent::Up => MenuTurn { selected: self.selected.above(), ..self },
            CtrlEvent::Select => MenuTurn { action: self.selected.action(), ..self },
            CtrlEvent::Quit => MenuTurn { action: GameAction::Quit, ..self },
        }
    }

    /// The turn after all of `events`, first to last.
    pub open spec fn after_all(self, events: Seq<CtrlEvent>) -> MenuTurn
        decreases events.len(),
    {
        if events.len() == 0 {
            self
        } else {
            self.after_all(events.drop_last()).after(events.last())
        }
    }
}

/// The menu's whole frame from the item `selected`: asking to stay in the
/// menu unless an event of the frame asks otherwise.
pub open spec fn menu_turn(selected: MenuItem, events: Seq<CtrlEvent>) -> MenuTurn {
    (MenuTurn { selected, action: GameAction::Menu }).after_all(events)
}

/// The menu, stepped a frame at a time.
pub struct MenuLoop {
    screen: Screen,
    selected: MenuItem,
}

impl MenuLoop {
    /// The selected item.
    pub closed spec fn selected_view(&self) -> MenuItem {
        self.selected
    }

    /// The screen the menu is drawn on.
    pub closed spec fn screen_view(&self) -> Screen {
        self.screen
    }

    pub fn selected(&self) -> (item: MenuItem)
        ensures
            item == self.selected_view(),
    {
        self.selected
    }

    pub fn screen(&self) -> (s: &Screen)
        ensures
            *s == self.screen_view(),
    {
        &self.screen
    }

    /// Reads the keys of a frame: appends to `events` what they ask of the
    /// menu, in their order.
    pub fn handle_input(&mut self, keys: &Vec<Key>, events: &mut Vec<CtrlEvent>)
        ensures
            *final(self) == *old(self),
            final(events)@ == old(events)@ + menu_events(keys@),
    {
        let ghost decode = |k: Key| menu_event(k);
        let mut i: usize = 0;
        while i < keys.len()
            invariant
                i <= keys@.len(),
                decode == (|k: Key| menu_event(k)),
                events@ == old(events)@ + keys@.take(i as int).filter_map(decode),
            decreases keys@.len() - i,
        {
            proof {
                keys@.lemma_filter_map_take_succ(decode, i as int);
            }
            match keys[i] {
                Key::Char(c) => {
                    if c == 'q' {
                        events.push(CtrlEvent::Quit);
                    } else if c == ' ' || c == '\n' {
                        events.push(CtrlEvent::Select);
                    }
                },
                Key::Ctrl(c) => {
                    if c == 'c' {
                        events.push(CtrlEvent::Quit);
                    }
                },
                Key::Up | Key::Left => {
                    events.push(CtrlEvent::Up);
                },
                Key::Down | Key::Right => {
                    events.push(CtrlEvent::Down);
                },
                Key::Other => {},
            }
            i = i + 1;
        }
        assert(keys@.take(keys@.len() as int) =~= keys@);
    }
}

impl Loop for MenuLoop {
    type Shown = MenuItem;

    open spec fn can_init(screen: Screen) -> bool {
        true
    }

    open spec fn can_frame(&self) -> bool {
        true
    }

    /// The menu on `screen`, with `MenuItem::NewGame` selected.
    fn init(screen: Screen) -> (s: Self)
        ensures
            s.selected_view() == MenuItem::NewGame,
            s.screen_view() == screen,
    {
        Self { screen, selected: MenuItem::NewGame }
    }

    /// Runs one frame of the menu with the keys read since the last one.
    /// Hands back the item that was selected when the frame began, which is
    /// the one to draw for it, and the action the frame's events ask for.
    fn frame(&mut self, keys: &Vec<Key>) -> (shown: (MenuItem, GameAction))
        ensures
            shown.0 == old(self).selected_view(),
            shown.1 == menu_turn(old(self).selected_view(), menu_events(keys@)).action,
            final(self).selected_view() == menu_turn(
                old(self).selected_view(),
                menu_events(keys@),
            ).selected,
            final(self).screen_view() == old(self).screen_view(),
    {
        let drawn = self.selected;
        let mut events: Vec<CtrlEvent> = Vec::new();
        self.handle_input(keys, &mut events);
        assert(events@ =~= menu_events(keys@));
        let mut action = GameAction::Menu;
        let ghost start = MenuTurn { selected: self.selected, action };
        let mut i: usize = 0;
        while i < events.len()
            invariant
                i <= events@.len(),
                (MenuTurn { selected: self.selected, action }) == start.after_all(
                    events@.take(i as int),
                ),
                self.screen == old(self).screen,
            decreases events@.len() - i,
        {
            proof {
                assert(events@.take(i + 1).drop_last() =~= events@.take(i as int));
            }
            match events[i] {
                CtrlEvent::Down => {
                    self.selected = self.selected.next();
                },
                CtrlEvent::Up => {
                    self.selected = self.selected.previous();
                },
                CtrlEvent::Select => {
                    match self.selected {
                        MenuItem::Continue => {
                            action = GameAction::Continue;
                        },
                        MenuItem::NewGame => {
                            action = GameAction::NewGame;
                        },
                        MenuItem::Quit => {
                            action = GameAction::Quit;
                        },
                    }
                },
                CtrlEvent::Quit => {
                    action = GameAction::Quit;
                },
            }
            i = i + 1;
        }
        assert(events@.take(events@.len() as int) =~= events@);
        (drawn, action)
    }
}

} // verus!
