use invaders::game::menu_loop::{CtrlEvent, MenuItem, MenuLoop};
use invaders::game::session::Outcome;
use invaders::game::{remaining_sleep, Game, GameAction, GameState, Key, Loop, Scene};
use invaders::utils::{Coord, Screen, Tile};

fn menu() -> MenuLoop {
    MenuLoop::init(Screen::new(Coord(0, 0), Coord(45, 15)))
}

#[test]
fn menu_items_form_a_ring() {
    assert_eq!(MenuItem::Continue.next(), MenuItem::NewGame);
    assert_eq!(MenuItem::NewGame.next(), MenuItem::Quit);
    assert_eq!(MenuItem::Quit.next(), MenuItem::Continue);
    assert_eq!(MenuItem::Continue.previous(), MenuItem::Quit);
    assert_eq!(MenuItem::NewGame.previous(), MenuItem::Continue);
    assert_eq!(MenuItem::Quit.previous(), MenuItem::NewGame);
    for item in [MenuItem::Continue, MenuItem::NewGame, MenuItem::Quit] {
        assert_eq!(item.next().previous(), item);
        assert_eq!(item.previous().next(), item);
        assert_eq!(item.next().next().next(), item);
    }
}

#[test]
fn menu_starts_on_new_game() {
    let menu = menu();
    assert_eq!(menu.selected(), MenuItem::NewGame);
    assert_eq!(*menu.screen().size(), Coord(45, 15));
}

#[test]
fn menu_decodes_keys_in_order() {
    let mut menu = menu();
    let mut events = Vec::new();
    let keys = vec![
        Key::Up,
        Key::Left,
        Key::Down,
        Key::Right,
        Key::Char(' '),
        Key::Char('\n'),
        Key::Char('q'),
        Key::Ctrl('c'),
        Key::Char('c'),
        Key::Ctrl('q'),
        Key::Other,
    ];
    menu.handle_input(&keys, &mut events);
    assert_eq!(
        events,
        vec![
            CtrlEvent::Up,
            CtrlEvent::Up,
            CtrlEvent::Down,
            CtrlEvent::Down,
            CtrlEvent::Select,
            CtrlEvent::Select,
            CtrlEvent::Quit,
            CtrlEvent::Quit
        ]
    );
    assert_eq!(menu.selected(), MenuItem::NewGame);
}

#[test]
fn menu_frame_without_keys_stays_in_the_menu() {
    let mut menu = menu();
    assert_eq!(menu.frame(&vec![]), (MenuItem::NewGame, GameAction::Menu));
    assert_eq!(menu.selected(), MenuItem::NewGame);
}

#[test]
fn menu_frame_moves_the_selection_and_selects() {
    let mut menu = menu();
    assert_eq!(menu.frame(&vec![Key::Down]), (MenuItem::NewGame, GameAction::Menu));
    assert_eq!(menu.selected(), MenuItem::Quit);
    assert_eq!(menu.frame(&vec![Key::Char('\n')]), (MenuItem::Quit, GameAction::Quit));

    let mut menu = self::menu();
    assert_eq!(menu.frame(&vec![Key::Up, Key::Char(' ')]).1, GameAction::Continue);
    assert_eq!(menu.selected(), MenuItem::Continue);

    let mut menu = self::menu();
    assert_eq!(menu.frame(&vec![Key::Char(' ')]).1, GameAction::NewGame);
}

#[test]
fn menu_frame_keeps_the_last_action_asked_for() {
    let mut menu = menu();
    // Select NewGame, move to Continue, select it: the later action stands.
    let keys = vec![Key::Char(' '), Key::Up, Key::Char(' ')];
    assert_eq!(menu.frame(&keys).1, GameAction::Continue);
    let mut menu = self::menu();
    let keys = vec![Key::Char('q'), Key::Char(' ')];
    assert_eq!(menu.frame(&keys).1, GameAction::NewGame);
    let mut menu = self::menu();
    let keys = vec![Key::Char(' '), Key::Ctrl('c'), Key::Down];
    assert_eq!(menu.frame(&keys).1, GameAction::Quit);
    assert_eq!(menu.selected(), MenuItem::Quit);
}

#[test]
fn remaining_sleep_is_never_negative() {
    assert_eq!(remaining_sleep(30, 0), 30);
    assert_eq!(remaining_sleep(30, 12), 18);
    assert_eq!(remaining_sleep(30, 30), 0);
    assert_eq!(remaining_sleep(30, 31), 0);
    assert_eq!(remaining_sleep(30, u64::MAX), 0);
    assert_eq!(remaining_sleep(0, 0), 0);
}

#[test]
fn machine_starts_in_the_menu_with_a_fresh_session() {
    let game = Game::new(None);
    assert_eq!(game.state(), GameState::Menu);
    assert_eq!(*game.screen().size(), Coord(45, 15));
    assert_eq!(*game.screen().margins(), Coord(0, 0));
    assert_eq!(game.menu_loop().selected(), MenuItem::NewGame);
    assert_eq!(game.game_loop().invaders().len(), 16);
    assert_eq!(game.game_loop().outcome(), Outcome::InProgress);
}

#[test]
fn machine_centres_the_field_by_the_terminal_size() {
    let game = Game::new(Some((145, 55)));
    assert_eq!(*game.screen().margins(), Coord(50, 5));
    let game = Game::new(Some((45, 45)));
    assert_eq!(*game.screen().margins(), Coord(0, 0));
    let game = Game::new(Some((46, 48)));
    assert_eq!(*game.screen().margins(), Coord(0, 1));
}

#[test]
fn machine_drives_the_menu_until_a_game_is_asked_for() {
    let game = Game::new(None);
    let (game, scene, go_on) = game.step(&vec![Key::Down, Key::Up]);
    assert_eq!(scene, Scene::Menu(MenuItem::NewGame));
    assert!(go_on);
    assert_eq!(game.state(), GameState::Menu);
    // The session does not move while the menu is driven.
    assert_eq!(game.game_loop().frame_number(), 0);

    let (game, scene, go_on) = game.step(&vec![Key::Char('\n')]);
    assert_eq!(scene, Scene::Menu(MenuItem::NewGame));
    assert!(go_on);
    assert_eq!(game.state(), GameState::Running);
}

#[test]
fn machine_drives_the_session_while_running() {
    let game = Game::new(None);
    let (game, _, _) = game.step(&vec![Key::Char(' ')]);
    assert_eq!(game.state(), GameState::Running);
    let (game, scene, go_on) = game.step(&vec![Key::Left]);
    assert!(go_on);
    assert_eq!(game.state(), GameState::Running);
    match scene {
        Scene::Field(map) => {
            assert_eq!(map.width(), 45);
            assert_eq!(map.height(), 15);
            assert_eq!(map.get(21, 14), Tile::Player);
            assert_eq!(map.get(3, 2), Tile::Invader(0));
            assert_eq!(map.get(21, 2), Tile::Invader(15));
            assert_eq!(map.get(2, 2), Tile::Empty);
        }
        Scene::Menu(_) => panic!("the session was not driven"),
    }
    assert_eq!(game.game_loop().frame_number(), 1);
    // The menu does not move while the session is driven.
    let (game, _, _) = game.step(&vec![Key::Down]);
    assert_eq!(game.menu_loop().selected(), MenuItem::NewGame);
}

#[test]
fn machine_returns_to_the_menu_when_the_session_ends() {
    let game = Game::new(None);
    let (game, _, _) = game.step(&vec![Key::Char(' ')]);
    let (game, _, _) = game.step(&vec![]);
    let (game, _, go_on) = game.step(&vec![Key::Char('q')]);
    assert!(go_on);
    assert_eq!(game.state(), GameState::Menu);
    assert_eq!(game.game_loop().outcome(), Outcome::Abandoned);
    let frames = game.game_loop().frame_number();

    // Continue reuses the session, which is over and hands back at once.
    let (game, _, _) = game.step(&vec![Key::Up, Key::Char(' ')]);
    assert_eq!(game.state(), GameState::Running);
    let (game, _, _) = game.step(&vec![]);
    assert_eq!(game.state(), GameState::Menu);
    assert_eq!(game.game_loop().frame_number(), frames);

    // New game discards it.
    let (game, _, _) = game.step(&vec![Key::Down, Key::Char(' ')]);
    assert_eq!(game.state(), GameState::Running);
    assert_eq!(game.game_loop().outcome(), Outcome::InProgress);
    assert_eq!(game.game_loop().frame_number(), 0);
    assert_eq!(game.game_loop().player().position, Coord(22, 14));
}

#[test]
fn machine_stops_on_quit() {
    let game = Game::new(None);
    let (game, scene, go_on) = game.step(&vec![Key::Char('q')]);
    assert_eq!(scene, Scene::Menu(MenuItem::NewGame));
    assert!(!go_on);
    assert_eq!(game.state(), GameState::Menu);

    let game = Game::new(None);
    let (_, _, go_on) = game.step(&vec![Key::Down, Key::Char('\n')]);
    assert!(!go_on);
}

#[test]
fn continue_leads_to_play_from_the_menu_and_from_play() {
    let game = Game::new(None);
    let (game, scene, _) = game.step(&vec![Key::Up, Key::Char(' ')]);
    assert_eq!(scene, Scene::Menu(MenuItem::NewGame));
    assert_eq!(game.menu_loop().selected(), MenuItem::Continue);
    assert_eq!(game.state(), GameState::Running);
    // The session goes on and asks to continue: the state stays.
    let (game, scene, go_on) = game.step(&vec![]);
    assert!(matches!(scene, Scene::Field(_)));
    assert!(go_on);
    assert_eq!(game.state(), GameState::Running);
    assert_eq!(game.game_loop().frame_number(), 1);
}
