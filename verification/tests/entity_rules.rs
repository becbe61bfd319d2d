use invaders::entities::{Entity, Invader, Missile, Player};
use invaders::game::game_loop::{
    update_invaders, update_missiles, update_player, CtrlEvent, FrameState,
};
use invaders::utils::{Coord, Dir, Screen};

fn frame_state(width: usize, height: usize, frame: u8, events: Vec<CtrlEvent>) -> FrameState {
    let mut state = FrameState::new(Screen::new(Coord(0, 0), Coord(width, height)));
    state.frame = frame;
    state.events = events;
    state
}

#[test]
fn new_frame_state_is_frame_zero_without_events() {
    let state = FrameState::new(Screen::new(Coord(1, 2), Coord(45, 15)));
    assert!(state.events.is_empty());
    assert_eq!(state.frame, 0);
    assert_eq!(*state.screen.size(), Coord(45, 15));
    assert_eq!(*state.screen.margins(), Coord(1, 2));
}

#[test]
fn entities_report_position_and_icon() {
    let player = Player::new(Coord(22, 14));
    assert_eq!(*player.position(), Coord(22, 14));
    assert_eq!(player.icon(), '^');
    let invader = Invader::new(Coord(2, 2), Dir::Right);
    assert_eq!(*invader.position(), Coord(2, 2));
    assert_eq!(invader.icon(), '@');
    assert_eq!(invader.direction, Dir::Right);
    assert_eq!(Missile::new(Coord(1, 1), Dir::Up).icon(), '!');
    assert_eq!(Missile::new(Coord(1, 1), Dir::Down).icon(), ';');
    assert_eq!(Missile::new(Coord(1, 1), Dir::Left).icon(), '=');
    assert_eq!(Missile::new(Coord(1, 1), Dir::Right).icon(), '=');
    assert_eq!(*Missile::new(Coord(3, 9), Dir::Up).position(), Coord(3, 9));
}

#[test]
fn new_player_can_fire_at_once_and_has_health() {
    let player = Player::new(Coord(22, 14));
    assert_eq!(player.missile_timer, 6);
    assert_eq!(player.health, 3);
}

#[test]
fn player_moving_left_from_column_zero_stays() {
    let mut player = Player::new(Coord(0, 14));
    let shot = update_player(&mut player, &frame_state(45, 15, 0, vec![CtrlEvent::Left]));
    assert_eq!(player.position, Coord(0, 14));
    assert_eq!(shot, None);
}

#[test]
fn player_moving_right_from_last_column_stays() {
    let mut player = Player::new(Coord(44, 14));
    update_player(&mut player, &frame_state(45, 15, 0, vec![CtrlEvent::Right, CtrlEvent::Right]));
    assert_eq!(player.position, Coord(44, 14));
}

#[test]
fn player_moves_one_column_per_event_in_arrival_order() {
    let mut player = Player::new(Coord(1, 14));
    let events = vec![
        CtrlEvent::Left,
        CtrlEvent::Left,
        CtrlEvent::Right,
        CtrlEvent::Right,
        CtrlEvent::Right,
    ];
    update_player(&mut player, &frame_state(45, 15, 0, events));
    // 1 -> 0 -> 0 -> 1 -> 2 -> 3
    assert_eq!(player.position, Coord(3, 14));
    assert_eq!(player.health, 3);
}

#[test]
fn player_stays_on_the_grid_whatever_the_events() {
    let mut player = Player::new(Coord(2, 4));
    for round in 0..20u8 {
        let event = if round % 3 == 0 { CtrlEvent::Left } else { CtrlEvent::Right };
        update_player(&mut player, &frame_state(5, 5, round, vec![event, event, event]));
        assert!(player.position.0 < 5);
        assert_eq!(player.position.1, 4);
    }
}

#[test]
fn shot_starts_in_the_row_above_the_player_where_it_stood_then() {
    let mut player = Player::new(Coord(10, 14));
    let events = vec![CtrlEvent::Right, CtrlEvent::Shoot, CtrlEvent::Right];
    let shot = update_player(&mut player, &frame_state(45, 15, 0, events));
    assert_eq!(shot, Some(Missile::new(Coord(11, 13), Dir::Up)));
    assert_eq!(player.position, Coord(12, 14));
    assert_eq!(player.missile_timer, 0);
}

#[test]
fn second_shoot_of_a_frame_is_dropped() {
    let mut player = Player::new(Coord(10, 14));
    let events = vec![CtrlEvent::Shoot, CtrlEvent::Left, CtrlEvent::Shoot];
    let shot = update_player(&mut player, &frame_state(45, 15, 0, events));
    assert_eq!(shot, Some(Missile::new(Coord(10, 13), Dir::Up)));
    assert_eq!(player.position, Coord(9, 14));
}

#[test]
fn shoot_during_cooldown_is_dropped() {
    let mut player = Player::new(Coord(10, 14));
    player.missile_timer = 4;
    let shot = update_player(&mut player, &frame_state(45, 15, 0, vec![CtrlEvent::Shoot]));
    // The timer counts this frame and stands at 5, which is not past the cooldown.
    assert_eq!(shot, None);
    assert_eq!(player.missile_timer, 5);
    let shot = update_player(&mut player, &frame_state(45, 15, 1, vec![CtrlEvent::Shoot]));
    assert_eq!(shot, Some(Missile::new(Coord(10, 13), Dir::Up)));
    assert_eq!(player.missile_timer, 0);
}

#[test]
fn fire_cooldown_allows_one_shot_in_six_frames() {
    let mut player = Player::new(Coord(10, 14));
    let mut fired_on = Vec::new();
    for tick in 0..19u8 {
        let shot = update_player(&mut player, &frame_state(45, 15, tick, vec![CtrlEvent::Shoot]));
        if shot.is_some() {
            fired_on.push(tick);
        }
    }
    assert_eq!(fired_on, vec![0, 6, 12, 18]);
}

#[test]
fn idle_timer_stops_at_254() {
    let mut player = Player::new(Coord(10, 14));
    for tick in 0..255u8 {
        update_player(&mut player, &frame_state(45, 15, tick, vec![]));
    }
    assert_eq!(player.missile_timer, 254);
    update_player(&mut player, &frame_state(45, 15, 0, vec![]));
    assert_eq!(player.missile_timer, 254);
}

#[test]
fn missile_going_up_from_row_14_survives_to_row_13() {
    let mut missiles = vec![Missile::new(Coord(7, 14), Dir::Up)];
    update_missiles(&mut missiles, &frame_state(45, 15, 0, vec![]));
    assert_eq!(missiles, vec![Missile::new(Coord(7, 13), Dir::Up)]);
}

#[test]
fn missile_going_up_is_removed_in_row_zero_only() {
    let mut missiles = vec![
        Missile::new(Coord(1, 1), Dir::Up),
        Missile::new(Coord(2, 0), Dir::Up),
        Missile::new(Coord(3, 2), Dir::Up),
    ];
    let state = frame_state(45, 15, 0, vec![]);
    update_missiles(&mut missiles, &state);
    assert_eq!(
        missiles,
        vec![Missile::new(Coord(1, 0), Dir::Up), Missile::new(Coord(3, 1), Dir::Up)]
    );
    update_missiles(&mut missiles, &state);
    assert_eq!(missiles, vec![Missile::new(Coord(3, 0), Dir::Up)]);
    update_missiles(&mut missiles, &state);
    assert!(missiles.is_empty());
}

#[test]
fn missile_going_down_moves_until_its_row_is_the_height() {
    let mut missiles = vec![Missile::new(Coord(4, 13), Dir::Down)];
    let state = frame_state(45, 15, 0, vec![]);
    update_missiles(&mut missiles, &state);
    assert_eq!(missiles, vec![Missile::new(Coord(4, 14), Dir::Down)]);
    update_missiles(&mut missiles, &state);
    assert_eq!(missiles, vec![Missile::new(Coord(4, 15), Dir::Down)]);
    update_missiles(&mut missiles, &state);
    assert!(missiles.is_empty());
}

#[test]
fn missiles_going_sideways_move_one_column() {
    let mut missiles = vec![
        Missile::new(Coord(4, 3), Dir::Left),
        Missile::new(Coord(4, 3), Dir::Right),
    ];
    update_missiles(&mut missiles, &frame_state(45, 15, 0, vec![]));
    assert_eq!(
        missiles,
        vec![Missile::new(Coord(3, 3), Dir::Left), Missile::new(Coord(5, 3), Dir::Right)]
    );
}

#[test]
fn single_missile_advance_matches_the_rule() {
    assert_eq!(
        Missile::new(Coord(7, 14), Dir::Up).advance(15),
        Some(Missile::new(Coord(7, 13), Dir::Up))
    );
    assert_eq!(Missile::new(Coord(7, 0), Dir::Up).advance(15), None);
    assert_eq!(Missile::new(Coord(7, 15), Dir::Down).advance(15), None);
}

#[test]
fn invader_sweep_steps_right_then_turns_down_at_the_edge() {
    let mut invaders = vec![Invader::new(Coord(2, 2), Dir::Right)];
    let fired = update_invaders(&mut invaders, &frame_state(45, 15, 0, vec![]));
    assert!(fired.is_empty());
    assert_eq!(invaders[0].position, Coord(3, 2));
    assert_eq!(invaders[0].direction, Dir::Right);

    let mut invaders = vec![Invader::new(Coord(44, 2), Dir::Right)];
    update_invaders(&mut invaders, &frame_state(45, 15, 5, vec![]));
    assert_eq!(invaders[0].position, Coord(44, 3));
    assert_eq!(invaders[0].direction, Dir::Down);
}

#[test]
fn invader_sweep_reaches_the_right_edge_after_42_moves() {
    let mut invader = Invader::new(Coord(2, 2), Dir::Right);
    for _ in 0..42 {
        invader.step(45);
    }
    assert_eq!(invader, Invader::new(Coord(44, 2), Dir::Right));
    invader.step(45);
    assert_eq!(invader, Invader::new(Coord(44, 3), Dir::Down));
    invader.step(45);
    assert_eq!(invader, Invader::new(Coord(43, 3), Dir::Left));
}

#[test]
fn invaders_stand_still_between_gated_frames() {
    for frame in [1u8, 2, 3, 4, 6, 7, 251, 253] {
        let mut invaders = vec![
            Invader::new(Coord(2, 2), Dir::Right),
            Invader::new(Coord(0, 5), Dir::Left),
        ];
        update_invaders(&mut invaders, &frame_state(45, 15, frame, vec![]));
        assert_eq!(invaders[0], Invader::new(Coord(2, 2), Dir::Right));
        assert_eq!(invaders[1], Invader::new(Coord(0, 5), Dir::Left));
    }
}

#[test]
fn invader_moving_left_turns_down_in_column_zero() {
    let mut invaders = vec![
        Invader::new(Coord(1, 2), Dir::Left),
        Invader::new(Coord(0, 2), Dir::Left),
    ];
    update_invaders(&mut invaders, &frame_state(45, 15, 10, vec![]));
    assert_eq!(invaders[0], Invader::new(Coord(0, 2), Dir::Left));
    assert_eq!(invaders[1], Invader::new(Coord(0, 3), Dir::Down));
}

#[test]
fn invader_moving_down_picks_the_sweep_away_from_the_nearer_edge() {
    let mut invaders = vec![
        Invader::new(Coord(0, 3), Dir::Down),
        Invader::new(Coord(44, 3), Dir::Down),
        Invader::new(Coord(22, 3), Dir::Down),
        Invader::new(Coord(23, 3), Dir::Down),
    ];
    update_invaders(&mut invaders, &frame_state(45, 15, 0, vec![]));
    assert_eq!(invaders[0], Invader::new(Coord(1, 3), Dir::Right));
    assert_eq!(invaders[1], Invader::new(Coord(43, 3), Dir::Left));
    // 22 < 45 - 22, so column 22 counts as nearer the left edge.
    assert_eq!(invaders[2], Invader::new(Coord(23, 3), Dir::Right));
    assert_eq!(invaders[3], Invader::new(Coord(22, 3), Dir::Left));
}
