use snake_engine::game::App;
use snake_engine::utils::collectables::{AnyCollectable, CollectableType};
use snake_engine::utils::enums::{Action, CurrentScreen, Direction, Event, Key};
use snake_engine::utils::geometry::Position;
use snake_engine::utils::scores::Score;

fn snake_of(cells: &[(i64, i64)]) -> Vec<Position> {
    cells.iter().map(|(x, y)| Position::new(*x, *y)).collect()
}

fn playing(cells: &[(i64, i64)], direction: Direction) -> App {
    let mut app = App::new(Vec::new());
    app.current_screen = CurrentScreen::Main;
    app.menu_cursor = None;
    app.snake = snake_of(cells);
    app.direction = direction;
    app.blocked = false;
    app
}

fn apples(app: &App) -> usize {
    app.collectables.iter().filter(|c| matches!(c, AnyCollectable::Apple(_))).count()
}

#[test]
fn program_starts_in_the_menu() {
    let app = App::new(vec![
        Score { player_name: String::from("a"), score: 1 },
        Score { player_name: String::from("b"), score: 4 },
    ]);
    assert!(!app.exit);
    assert_eq!(app.current_screen, CurrentScreen::Menu);
    assert_eq!(app.menu_cursor, Some(0));
    assert_eq!(app.direction, Direction::Up);
    assert_eq!(app.snake, snake_of(&[(42, 40), (44, 40), (40, 40)]));
    assert!(app.blocked);
    assert_eq!(app.field_size, (50, 25));
    assert!(!app.tick);
    assert!(app.collectables.is_empty());
    assert_eq!(app.game_speed, 0);
    assert_eq!(app.round_time, 0);
    assert_eq!(app.random_item_timer, 50);
    assert_eq!(app.blink_countdown, 3);
    assert!(!app.growth_granted);
    let names: Vec<&str> = app.get_highscores().iter().map(|s| s.player_name.as_str()).collect();
    assert_eq!(names, vec!["b", "a"]);
    assert_eq!(app.get_score(), -2);
}

#[test]
fn menu_cursor_stops_at_both_ends() {
    let mut app = App::new(Vec::new());
    app.handle_input_events(Key::Up);
    assert_eq!(app.menu_cursor, Some(0));
    app.handle_input_events(Key::Down);
    assert_eq!(app.menu_cursor, Some(1));
    app.handle_input_events(Key::Down);
    assert_eq!(app.menu_cursor, Some(1));
    app.handle_input_events(Key::Up);
    assert_eq!(app.menu_cursor, Some(0));
    assert_eq!(app.current_screen, CurrentScreen::Menu);
    assert!(!app.exit);
}

#[test]
fn menu_cursor_that_was_lost_goes_to_the_first_entry() {
    let mut app = App::new(Vec::new());
    app.menu_cursor = None;
    app.handle_menu_input(&Key::Down);
    assert_eq!(app.menu_cursor, Some(0));
    app.menu_cursor = None;
    app.handle_menu_input(&Key::Up);
    assert_eq!(app.menu_cursor, Some(0));
    app.menu_cursor = None;
    app.handle_menu_input(&Key::Enter);
    assert_eq!(app.menu_cursor, None);
    assert_eq!(app.current_screen, CurrentScreen::Menu);
    assert!(!app.exit);
}

#[test]
fn menu_ignores_other_keys() {
    let mut app = App::new(Vec::new());
    for key in [Key::Left, Key::Right, Key::Other] {
        app.handle_input_events(key);
        assert_eq!(app.menu_cursor, Some(0));
        assert_eq!(app.current_screen, CurrentScreen::Menu);
        assert!(!app.exit);
    }
}

#[test]
fn menu_quit_entry_ends_the_program() {
    let mut app = App::new(Vec::new());
    app.handle_input_events(Key::Down);
    app.handle_input_events(Key::Enter);
    assert!(app.exit);
    assert_eq!(app.current_screen, CurrentScreen::Menu);
}

#[test]
fn menu_start_entry_starts_a_round() {
    let mut app = App::new(Vec::new());
    app.game_speed = 7;
    app.round_time = 1234;
    app.growth_granted = true;
    app.collectables.push(AnyCollectable::new(4, 4, CollectableType::Reverse));
    app.handle_input_events(Key::Enter);
    assert_eq!(app.current_screen, CurrentScreen::Main);
    assert_eq!(app.snake, snake_of(&[(46, 40), (44, 40), (42, 40), (40, 40), (38, 40)]));
    assert_eq!(app.direction, Direction::Right);
    assert_eq!(app.menu_cursor, None);
    assert_eq!(app.game_speed, 0);
    assert_eq!(app.round_time, 0);
    assert!(!app.growth_granted);
    assert!(!app.exit);
    assert_eq!(app.get_score(), 0);
    assert_eq!(app.collectables.len(), 1);
    assert_eq!(apples(&app), 1);
    assert!(!app.snake.contains(&app.collectables[0].get_position()));
    assert!(app.is_tickable());
}

#[test]
fn exit_key_ends_the_program_on_every_screen() {
    for screen in [CurrentScreen::Menu, CurrentScreen::Main, CurrentScreen::Lost] {
        let mut app = App::new(Vec::new());
        app.current_screen = screen;
        app.blocked = false;
        app.handle_input_events(Key::Esc);
        assert!(app.exit);
        assert_eq!(app.current_screen, screen);
        assert_eq!(app.direction, Direction::Up);
        assert!(!app.blocked);
    }
}

#[test]
fn lost_round_is_acknowledged_with_the_confirm_key() {
    let mut app = App::new(Vec::new());
    app.current_screen = CurrentScreen::Lost;
    app.menu_cursor = None;
    for key in [Key::Up, Key::Down, Key::Left, Key::Right, Key::Other] {
        app.handle_input_events(key);
        assert_eq!(app.current_screen, CurrentScreen::Lost);
        assert_eq!(app.menu_cursor, None);
    }
    app.handle_input_events(Key::Enter);
    assert_eq!(app.current_screen, CurrentScreen::Menu);
    assert_eq!(app.menu_cursor, Some(0));
    assert!(!app.exit);
}

#[test]
fn turn_is_taken_once_between_two_updates() {
    let mut app = playing(&[(10, 10), (8, 10), (6, 10)], Direction::Right);
    app.handle_input_events(Key::Up);
    assert_eq!(app.direction, Direction::Up);
    assert!(app.blocked);
    app.handle_input_events(Key::Left);
    assert_eq!(app.direction, Direction::Up);
    app.handle_input_events(Key::Down);
    assert_eq!(app.direction, Direction::Up);
    // the game update opens the window again
    app.game_update();
    assert!(!app.blocked);
    app.handle_input_events(Key::Left);
    assert_eq!(app.direction, Direction::Left);
}

#[test]
fn turn_back_is_ignored_however_often_it_is_asked_for() {
    for (heading, back) in [
        (Direction::Up, Key::Down),
        (Direction::Down, Key::Up),
        (Direction::Left, Key::Right),
        (Direction::Right, Key::Left),
    ] {
        let mut app = playing(&[(10, 10), (8, 10), (6, 10)], heading);
        for _ in 0..25 {
            app.handle_movement_input(&back);
            assert_eq!(app.direction, heading);
            assert!(!app.blocked);
        }
        // and the window for a turn is still open
        let side = if heading == Direction::Up || heading == Direction::Down {
            Key::Left
        } else {
            Key::Up
        };
        app.handle_movement_input(&side);
        assert_eq!(Some(app.direction), side.heading());
    }
}

#[test]
fn key_for_the_heading_itself_closes_the_window() {
    let mut app = playing(&[(10, 10), (8, 10), (6, 10)], Direction::Right);
    app.handle_movement_input(&Key::Right);
    assert_eq!(app.direction, Direction::Right);
    assert!(app.blocked);
    app.handle_movement_input(&Key::Up);
    assert_eq!(app.direction, Direction::Right);
}

#[test]
fn keys_without_a_heading_do_not_steer() {
    let mut app = playing(&[(10, 10), (8, 10), (6, 10)], Direction::Right);
    for key in [Key::Enter, Key::Other, Key::Esc] {
        app.handle_movement_input(&key);
        assert_eq!(app.direction, Direction::Right);
        assert!(!app.blocked);
        assert!(!app.exit);
    }
    app.handle_input_events(Key::Enter);
    assert_eq!(app.current_screen, CurrentScreen::Main);
}

#[test]
fn closed_window_lets_no_turn_through() {
    let mut app = playing(&[(10, 10), (8, 10), (6, 10)], Direction::Right);
    app.blocked = true;
    app.handle_movement_input(&Key::Up);
    assert_eq!(app.direction, Direction::Right);
    assert!(app.blocked);
}

#[test]
fn move_drops_the_tail_unless_growth_was_granted() {
    let mut app = playing(&[(10, 10), (8, 10), (6, 10)], Direction::Up);
    app.blocked = true;
    app.update_snake_position();
    assert_eq!(app.snake, snake_of(&[(10, 11), (10, 10), (8, 10)]));
    assert!(!app.blocked);
    app.increase_lenght();
    assert!(app.growth_granted);
    app.direction = Direction::Left;
    app.update_snake_position();
    assert_eq!(app.snake, snake_of(&[(8, 11), (10, 11), (10, 10), (8, 10)]));
    assert!(!app.growth_granted);
    app.direction = Direction::Down;
    app.update_snake_position();
    assert_eq!(app.snake, snake_of(&[(8, 10), (8, 11), (10, 11), (10, 10)]));
}

#[test]
fn single_segment_moves_on() {
    let mut app = playing(&[(10, 10)], Direction::Right);
    app.update_snake_position();
    assert_eq!(app.snake, snake_of(&[(12, 10)]));
}

#[test]
fn collision_is_self_contact_or_leaving_the_field() {
    let mut app = playing(&[(10, 10), (8, 10), (6, 10)], Direction::Right);
    app.field_size = (10, 10);
    assert!(!app.has_snake_collision());
    app.snake = snake_of(&[(10, 10), (8, 10), (10, 10)]);
    assert!(app.has_snake_collision());
    app.snake = snake_of(&[(0, 0), (2, 0)]);
    assert!(!app.has_snake_collision());
    app.snake = snake_of(&[(19, 19), (17, 19)]);
    assert!(!app.has_snake_collision());
    app.snake = snake_of(&[(20, 10), (18, 10)]);
    assert!(app.has_snake_collision());
    app.snake = snake_of(&[(10, 20), (10, 19)]);
    assert!(app.has_snake_collision());
    app.snake = snake_of(&[(-2, 10), (0, 10)]);
    assert!(app.has_snake_collision());
    app.snake = snake_of(&[(10, -1), (10, 0)]);
    assert!(app.has_snake_collision());
    // only the head counts: segments behind it may lie outside
    app.snake = snake_of(&[(10, 10), (40, 40), (40, 40)]);
    assert!(!app.has_snake_collision());
}

#[test]
fn score_counts_the_segments_gained() {
    let mut app = playing(&[(10, 10)], Direction::Right);
    assert_eq!(app.get_score(), -4);
    app.snake = snake_of(&[(10, 10), (8, 10), (6, 10), (4, 10), (2, 10)]);
    assert_eq!(app.get_score(), 0);
    app.snake.push(Position::new(0, 10));
    app.snake.push(Position::new(0, 9));
    assert_eq!(app.get_score(), 2);
}

#[test]
fn snake_is_found_on_its_spots_only() {
    let app = playing(&[(10, 10), (8, 10), (6, 10)], Direction::Right);
    assert!(app.snake_contains(Position::new(10, 10)));
    assert!(app.snake_contains(Position::new(6, 10)));
    assert!(!app.snake_contains(Position::new(12, 10)));
    assert!(!app.snake_contains(Position::new(10, 11)));
}

#[test]
fn snake_turned_around_is_in_opposite_order() {
    let mut app = playing(&[(10, 10), (8, 10), (6, 10), (6, 9)], Direction::Right);
    app.reverse_snake();
    assert_eq!(app.snake, snake_of(&[(6, 9), (6, 10), (8, 10), (10, 10)]));
    assert_eq!(app.direction, Direction::Right);
    app.snake = Vec::new();
    app.reverse_snake();
    assert!(app.snake.is_empty());
}

#[test]
fn tick_events_run_the_counter_and_the_round_time() {
    let mut app = playing(&[(10, 10), (8, 10), (6, 10)], Direction::Right);
    let mut counter = 3;
    assert_eq!(app.handle_event(Event::GameTick, &mut counter), Action::Idle);
    assert_eq!(counter, 2);
    // no game update was due: the round time stands still
    assert_eq!(app.round_time, 0);
    assert_eq!(app.snake[0], Position::new(10, 10));
    app.handle_event(Event::GameTick, &mut counter);
    assert_eq!(counter, 1);
    assert_eq!(app.round_time, 0);
    assert_eq!(app.snake[0], Position::new(10, 10));
    // the counter comes down to zero: the game update is made, and the round time grows
    app.handle_event(Event::GameTick, &mut counter);
    assert_eq!(counter, 3);
    assert_eq!(app.round_time, 50);
    assert_eq!(app.snake, snake_of(&[(12, 10), (10, 10), (8, 10)]));
    for _ in 0..3 {
        app.handle_event(Event::GameTick, &mut counter);
    }
    assert_eq!(counter, 3);
    assert_eq!(app.round_time, 100);
    assert_eq!(app.snake[0], Position::new(14, 10));
}

#[test]
fn highlight_blinks_every_third_tick_on_every_screen() {
    for screen in [CurrentScreen::Menu, CurrentScreen::Main, CurrentScreen::Lost] {
        for level in [0, 1, 2] {
            let mut app = playing(&[(10, 10), (8, 10), (6, 10)], Direction::Right);
            app.current_screen = screen;
            app.game_speed = level;
            for _ in 0..level {
                app.collectables.push(AnyCollectable::Speed(
                    snake_engine::utils::collectables::SpeedCollectable {
                        position: Position::new(2, 2),
                        remaining_time: Some(50),
                    },
                ));
            }
            let mut counter = 3;
            let mut phases = Vec::new();
            for _ in 0..10 {
                app.handle_event(Event::GameTick, &mut counter);
                phases.push(app.tick);
            }
            assert_eq!(
                phases,
                vec![false, false, true, true, true, false, false, false, true, true]
            );
            assert_eq!(app.blink_countdown, 2);
        }
    }
}

#[test]
fn blink_cadence_that_has_run_down_starts_again() {
    let mut app = App::new(Vec::new());
    let mut counter = 3;
    for start in [0, 1] {
        app.blink_countdown = start;
        app.tick = false;
        app.handle_event(Event::GameTick, &mut counter);
        assert!(app.tick);
        assert_eq!(app.blink_countdown, 3);
    }
    app.blink_countdown = 7;
    app.handle_event(Event::GameTick, &mut counter);
    assert!(app.tick);
    assert_eq!(app.blink_countdown, 6);
    // a key is no tick
    app.handle_event(Event::Input(Key::Other), &mut counter);
    assert_eq!(app.blink_countdown, 6);
}

#[test]
fn higher_level_makes_the_update_come_sooner() {
    let mut app = playing(&[(10, 10), (8, 10), (6, 10)], Direction::Right);
    app.game_speed = 2;
    app.collectables.push(AnyCollectable::Speed(
        snake_engine::utils::collectables::SpeedCollectable {
            position: Position::new(2, 2),
            remaining_time: Some(50),
        },
    ));
    app.collectables.push(AnyCollectable::Speed(
        snake_engine::utils::collectables::SpeedCollectable {
            position: Position::new(2, 2),
            remaining_time: Some(50),
        },
    ));
    let mut counter = 3;
    app.handle_event(Event::GameTick, &mut counter);
    assert_eq!(counter, 3);
    assert_eq!(app.snake[0], Position::new(12, 10));
    app.handle_event(Event::GameTick, &mut counter);
    assert_eq!(counter, 3);
    assert_eq!(app.snake[0], Position::new(14, 10));
    assert_eq!(app.round_time, 100);
}

#[test]
fn tick_outside_a_round_only_blinks() {
    for screen in [CurrentScreen::Menu, CurrentScreen::Lost] {
        let mut app = App::new(Vec::new());
        app.current_screen = screen;
        let before = app.snake.clone();
        let mut counter = 3;
        let mut blinks = Vec::new();
        for _ in 0..7 {
            assert_eq!(app.handle_event(Event::GameTick, &mut counter), Action::Idle);
            blinks.push((counter, app.tick));
        }
        assert_eq!(
            blinks,
            vec![(2, false), (1, false), (3, true), (2, true), (1, true), (3, false), (2, false)]
        );
        assert_eq!(app.round_time, 0);
        assert_eq!(app.snake, before);
        assert_eq!(app.current_screen, screen);
    }
}

#[test]
fn on_tick_takes_the_counter_as_it_is() {
    let mut app = playing(&[(10, 10), (8, 10), (6, 10)], Direction::Right);
    let before = app.snake.clone();
    let mut counter = 2;
    app.on_tick(&mut counter);
    assert_eq!(counter, 2);
    assert_eq!(app.round_time, 0);
    assert_eq!(app.snake, before);
    assert_eq!(app.direction, Direction::Right);
    assert!(app.collectables.is_empty());
    assert_eq!(app.random_item_timer, 50);
    let mut counter = 0;
    app.on_tick(&mut counter);
    assert_eq!(counter, 3);
    assert_eq!(app.round_time, 50);
    assert_eq!(app.snake[0], Position::new(12, 10));
    assert_eq!(app.random_item_timer, 49);
    // the counter has come down to the level
    app.game_speed = 2;
    app.collectables.push(AnyCollectable::Speed(
        snake_engine::utils::collectables::SpeedCollectable {
            position: Position::new(2, 2),
            remaining_time: Some(50),
        },
    ));
    app.collectables.push(AnyCollectable::Speed(
        snake_engine::utils::collectables::SpeedCollectable {
            position: Position::new(2, 2),
            remaining_time: Some(50),
        },
    ));
    let mut counter = 2;
    app.on_tick(&mut counter);
    assert_eq!(counter, 3);
    assert_eq!(app.round_time, 100);
    assert_eq!(app.snake[0], Position::new(14, 10));
    let mut counter = 1;
    app.on_tick(&mut counter);
    assert_eq!(counter, 1);
    assert_eq!(app.round_time, 100);
    assert_eq!(app.snake[0], Position::new(14, 10));
    app.current_screen = CurrentScreen::Menu;
    let mut counter = 0;
    app.on_tick(&mut counter);
    assert_eq!(counter, 0);
    assert_eq!(app.round_time, 100);
    assert!(!app.tick);
}

#[test]
fn key_events_leave_the_counter_alone() {
    let mut app = playing(&[(10, 10), (8, 10), (6, 10)], Direction::Right);
    let mut counter = 2;
    assert_eq!(app.handle_event(Event::Input(Key::Up), &mut counter), Action::Idle);
    assert_eq!(counter, 2);
    assert_eq!(app.direction, Direction::Up);
    assert_eq!(app.round_time, 0);
}

#[test]
fn lost_round_asks_for_the_ranking_to_be_stored() {
    let mut app = playing(&[(19, 10), (17, 10), (15, 10)], Direction::Right);
    app.field_size = (10, 10);
    let mut counter = 1;
    assert_eq!(app.handle_event(Event::GameTick, &mut counter), Action::SaveScores);
    assert_eq!(app.current_screen, CurrentScreen::Lost);
    assert_eq!(counter, 3);
    // once lost, nothing is left to store
    assert_eq!(app.handle_event(Event::GameTick, &mut counter), Action::Idle);
    assert_eq!(app.handle_event(Event::Input(Key::Enter), &mut counter), Action::Idle);
    assert_eq!(app.current_screen, CurrentScreen::Menu);
    assert_eq!(app.get_highscores().len(), 1);
}

#[test]
fn tick_needs_an_update_only_when_one_is_due() {
    let mut app = playing(&[(10, 10), (8, 10), (6, 10)], Direction::Right);
    app.snake.clear();
    assert!(!app.is_updatable());
    // with the level at zero the update is due when the counter is
    assert!(app.is_tickable_at(2));
    assert!(app.is_tickable_at(1));
    assert!(!app.is_tickable_at(0));
    let mut counter = 3;
    assert_eq!(app.handle_event(Event::GameTick, &mut counter), Action::Idle);
    assert_eq!((counter, app.round_time), (2, 0));
    app.game_speed = 2;
    assert!(!app.is_tickable_at(2));
    assert!(app.is_tickable_at(1));
    // the round time needs room only where it grows
    app.snake = snake_of(&[(10, 10), (8, 10)]);
    app.game_speed = 0;
    app.round_time = u64::MAX - 49;
    assert!(app.is_tickable_at(1));
    assert!(!app.is_tickable_at(0));
    app.round_time = u64::MAX - 50;
    assert!(app.is_tickable_at(0));
    app.round_time = u64::MAX;
    app.current_screen = CurrentScreen::Lost;
    assert!(app.is_tickable_at(0));
    assert!(app.is_tickable_at(2));
}

#[test]
fn states_that_cannot_be_updated_are_told_apart() {
    let mut app = playing(&[(10, 10), (8, 10), (6, 10)], Direction::Right);
    assert!(app.is_updatable());
    assert!(app.is_tickable());
    app.round_time = u64::MAX - 49;
    assert!(app.is_passable());
    assert!(!app.is_updatable());
    assert!(!app.is_tickable());
    app.round_time = u64::MAX - 50;
    assert!(app.is_updatable());
    assert!(app.is_tickable());
    app.game_update();
    assert_eq!(app.round_time, u64::MAX);
    app.round_time = 0;
    app.snake = Vec::new();
    assert!(!app.is_updatable());
    assert!(!app.is_tickable());
    app.current_screen = CurrentScreen::Menu;
    assert!(app.is_tickable());
    app.current_screen = CurrentScreen::Main;
    app.snake = snake_of(&[(10, 10), (i64::MAX, 10)]);
    assert!(!app.is_updatable());
    app.snake = snake_of(&[(10, 10), (8, 10)]);
    // a boost that runs without being counted in the level
    app.collectables.push(AnyCollectable::Speed(
        snake_engine::utils::collectables::SpeedCollectable {
            position: Position::new(2, 2),
            remaining_time: Some(5),
        },
    ));
    assert!(!app.is_updatable());
    app.game_speed = 1;
    assert!(app.is_updatable());
    // a boost on the field that the level has no room for
    app.collectables.push(AnyCollectable::new(4, 4, CollectableType::Speed));
    app.game_speed = u32::MAX;
    assert!(!app.is_updatable());
    app.game_speed = u32::MAX - 1;
    assert!(app.is_updatable());
}
