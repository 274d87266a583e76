use snake_engine::game::{App, SPAWN_ROLLS};
use snake_engine::model::{SPECIAL_END, SPECIAL_MIN};
use snake_engine::utils::collectables::{
    AnyCollectable, CollectableType, SpeedCollectable, BOOST_END, BOOST_MIN,
};
use snake_engine::utils::enums::{CurrentScreen, Direction, Key};
use snake_engine::utils::geometry::Position;

fn snake_of(cells: &[(i64, i64)]) -> Vec<Position> {
    cells.iter().map(|(x, y)| Position::new(*x, *y)).collect()
}

fn playing(cells: &[(i64, i64)], direction: Direction) -> App {
    let mut app = App::new(Vec::new());
    app.current_screen = CurrentScreen::Main;
    app.menu_cursor = None;
    app.snake = snake_of(cells);
    app.direction = direction;
    app.blocked = false;
    app
}

fn apples(app: &App) -> usize {
    app.collectables.iter().filter(|c| matches!(c, AnyCollectable::Apple(_))).count()
}

fn specials(app: &App) -> usize {
    app.collectables.len() - apples(app)
}

fn on_free_spot(app: &App, item: &AnyCollectable) -> bool {
    let p = item.get_position();
    p.x % 2 == 0
        && p.y % 2 == 0
        && 2 <= p.x
        && p.x < 2 * (app.field_size.0 as i64 - 1)
        && 2 <= p.y
        && p.y < 2 * (app.field_size.1 as i64 - 1)
        && !app.snake.contains(&p)
}

#[test]
fn update_moves_the_snake_one_step() {
    let mut app = playing(&[(10, 10), (8, 10), (6, 10)], Direction::Up);
    app.blocked = true;
    app.game_update();
    assert_eq!(app.snake, snake_of(&[(10, 11), (10, 10), (8, 10)]));
    assert_eq!(app.direction, Direction::Up);
    assert_eq!(app.current_screen, CurrentScreen::Main);
    assert!(!app.blocked);
    assert_eq!(app.random_item_timer, 49);
    assert!(app.collectables.is_empty());
    assert!(app.get_highscores().is_empty());
    // the round has lasted one tick interval longer
    assert_eq!(app.round_time, 50);
    app.game_update();
    assert_eq!(app.round_time, 100);
}

#[test]
fn bounds_scenario() {
    // field of 10 by 10 cells, head at (9.5, 5) heading right
    let mut app = playing(&[(19, 10), (17, 10), (15, 10)], Direction::Right);
    app.field_size = (10, 10);
    app.game_update();
    assert_eq!(app.snake[0], Position::new(21, 10));
    assert_eq!(app.current_screen, CurrentScreen::Lost);
    assert_eq!(app.get_highscores().len(), 1);
    assert_eq!(app.get_highscores()[0].player_name, "you");
    assert_eq!(app.get_highscores()[0].score, -2);
}

#[test]
fn head_on_the_last_cell_is_still_inside() {
    let mut app = playing(&[(16, 10), (14, 10), (12, 10)], Direction::Right);
    app.field_size = (10, 10);
    app.game_update();
    assert_eq!(app.snake[0], Position::new(18, 10));
    assert_eq!(app.current_screen, CurrentScreen::Main);
    app.game_update();
    assert_eq!(app.snake[0], Position::new(20, 10));
    assert_eq!(app.current_screen, CurrentScreen::Lost);
}

#[test]
fn every_border_ends_the_round() {
    for (cells, heading) in [
        ([(0, 10), (2, 10)], Direction::Left),
        ([(10, 0), (10, 1)], Direction::Down),
        ([(10, 19), (10, 18)], Direction::Up),
        ([(18, 10), (16, 10)], Direction::Right),
    ] {
        let mut app = playing(&cells, heading);
        app.field_size = (10, 10);
        assert!(!app.has_snake_collision());
        app.game_update();
        assert_eq!(app.current_screen, CurrentScreen::Lost);
    }
}

#[test]
fn self_collision_scenario() {
    // a snake of four segments that runs into the segment behind its head
    let mut app = playing(&[(10, 10), (12, 10), (14, 10), (16, 10)], Direction::Right);
    app.game_update();
    assert_eq!(app.snake, snake_of(&[(12, 10), (10, 10), (12, 10), (14, 10)]));
    assert_eq!(app.current_screen, CurrentScreen::Lost);
    assert_eq!(app.get_highscores().len(), 1);
    assert_eq!(app.get_highscores()[0].player_name, "you");
    assert_eq!(app.get_highscores()[0].score, 4 - 5);
}

#[test]
fn lost_round_is_ranked_among_the_stored_scores() {
    let mut app = App::new(vec![
        snake_engine::utils::scores::Score { player_name: String::from("a"), score: 7 },
        snake_engine::utils::scores::Score { player_name: String::from("b"), score: 2 },
        snake_engine::utils::scores::Score { player_name: String::from("c"), score: -9 },
    ]);
    app.current_screen = CurrentScreen::Main;
    app.field_size = (10, 10);
    app.snake = snake_of(&[(18, 4), (16, 4), (14, 4), (12, 4), (10, 4), (8, 4), (6, 4)]);
    app.direction = Direction::Right;
    app.game_update();
    assert_eq!(app.current_screen, CurrentScreen::Lost);
    let ranking: Vec<(&str, i32)> =
        app.get_highscores().iter().map(|s| (s.player_name.as_str(), s.score)).collect();
    assert_eq!(ranking, vec![("a", 7), ("b", 2), ("you", 2), ("c", -9)]);
}

#[test]
fn growth_law() {
    let mut app = playing(&[(10, 10), (8, 10), (6, 10)], Direction::Right);
    app.collectables.push(AnyCollectable::new(10, 10, CollectableType::Apple));
    app.game_update();
    assert_eq!(app.snake, snake_of(&[(12, 10), (10, 10), (8, 10), (6, 10)]));
    assert_eq!(app.direction, Direction::Right);
    assert!(!app.growth_granted);
    assert_eq!(app.current_screen, CurrentScreen::Main);
    // the apple was replaced by a new one that is not under the snake as it was
    assert_eq!(app.collectables.len(), 1);
    assert_eq!(apples(&app), 1);
    let spot = app.collectables[0].get_position();
    assert!(!snake_of(&[(10, 10), (8, 10), (6, 10)]).contains(&spot));
    // the next update keeps the length
    app.collectables.clear();
    app.game_update();
    assert_eq!(app.snake, snake_of(&[(14, 10), (12, 10), (10, 10), (8, 10)]));
}

#[test]
fn apple_away_from_the_head_stays() {
    let mut app = playing(&[(10, 10), (8, 10), (6, 10)], Direction::Right);
    let apple = AnyCollectable::new(8, 10, CollectableType::Apple);
    app.collectables.push(apple);
    app.collectables.push(AnyCollectable::new(12, 10, CollectableType::Apple));
    app.game_update();
    assert_eq!(app.snake.len(), 3);
    assert_eq!(
        app.collectables,
        vec![apple, AnyCollectable::new(12, 10, CollectableType::Apple)]
    );
    // now the head is on the second apple
    app.game_update();
    assert_eq!(app.snake.len(), 4);
    assert_eq!(app.collectables.len(), 2);
    assert_eq!(app.collectables[0], apple);
    assert_ne!(app.collectables[1].get_position(), Position::new(12, 10));
}

#[test]
fn reverse_scenario() {
    // snake [(5,5),(4,5),(3,5)] heading right takes a reverse item
    let mut app = playing(&[(10, 10), (8, 10), (6, 10)], Direction::Right);
    app.collectables.push(AnyCollectable::new(10, 10, CollectableType::Reverse));
    app.check_collectable_collision();
    assert_eq!(app.snake, snake_of(&[(6, 10), (8, 10), (10, 10)]));
    assert_eq!(app.direction, Direction::Left);
    assert!(app.collectables.is_empty());
}

#[test]
fn reverse_in_a_game_update_moves_the_new_head() {
    let mut app = playing(&[(10, 10), (8, 10), (6, 10)], Direction::Right);
    app.collectables.push(AnyCollectable::new(10, 10, CollectableType::Reverse));
    app.game_update();
    assert_eq!(app.snake, snake_of(&[(4, 10), (6, 10), (8, 10)]));
    assert_eq!(app.direction, Direction::Left);
    assert_eq!(app.current_screen, CurrentScreen::Main);
    assert!(app.collectables.is_empty());
}

#[test]
fn items_behind_a_reverse_item_meet_the_new_head() {
    let mut app = playing(&[(10, 10), (8, 10), (6, 10)], Direction::Right);
    // the first apple lies under the head as it is, the second under the tail
    app.collectables.push(AnyCollectable::new(6, 10, CollectableType::Apple));
    app.collectables.push(AnyCollectable::new(10, 10, CollectableType::Reverse));
    app.collectables.push(AnyCollectable::new(10, 10, CollectableType::Apple));
    app.collectables.push(AnyCollectable::new(6, 10, CollectableType::Apple));
    app.check_collectable_collision();
    assert_eq!(app.snake, snake_of(&[(6, 10), (8, 10), (10, 10)]));
    assert!(app.growth_granted);
    // the apples that were not under the head of their moment stay, the one taken is replaced
    assert_eq!(app.collectables.len(), 3);
    assert_eq!(app.collectables[0], AnyCollectable::new(6, 10, CollectableType::Apple));
    assert_eq!(app.collectables[1], AnyCollectable::new(10, 10, CollectableType::Apple));
    assert!(on_free_spot(&app, &app.collectables[2]));
}

#[test]
fn speed_boost_expiry() {
    let mut app = playing(&[(10, 10), (8, 10), (6, 10)], Direction::Right);
    app.random_item_timer = 1000;
    app.collectables.push(AnyCollectable::new(10, 10, CollectableType::Speed));
    app.game_update();
    assert_eq!(app.game_speed, 1);
    assert_eq!(app.collectables.len(), 1);
    let left = match app.collectables[0] {
        AnyCollectable::Speed(boost) => {
            assert_eq!(boost.position, Position::new(10, 10));
            boost.remaining_time.expect("the boost runs")
        }
        _ => panic!("the boost stays in the collection"),
    };
    // one step of the time drawn is gone already
    assert!(BOOST_MIN - 1 <= left && left < BOOST_END - 1);
    assert!(!app.collectables[0].is_visible());
    for step in 1..left {
        app.game_update();
        assert_eq!(app.game_speed, 1);
        assert_eq!(
            app.collectables,
            vec![AnyCollectable::Speed(SpeedCollectable {
                position: Position::new(10, 10),
                remaining_time: Some(left - step),
            })]
        );
    }
    app.game_update();
    assert_eq!(app.game_speed, 0);
    assert!(app.collectables.is_empty());
    assert_eq!(app.current_screen, CurrentScreen::Main);
}

#[test]
fn running_boost_is_not_taken_again() {
    let mut app = playing(&[(10, 10), (8, 10), (6, 10)], Direction::Right);
    app.game_speed = 1;
    app.collectables.push(AnyCollectable::Speed(SpeedCollectable {
        position: Position::new(10, 10),
        remaining_time: Some(6),
    }));
    app.game_update();
    assert_eq!(app.game_speed, 1);
    assert_eq!(
        app.collectables,
        vec![AnyCollectable::Speed(SpeedCollectable {
            position: Position::new(10, 10),
            remaining_time: Some(5),
        })]
    );
}

#[test]
fn boost_away_from_the_head_waits() {
    let mut app = playing(&[(10, 10), (8, 10), (6, 10)], Direction::Right);
    let boost = AnyCollectable::new(20, 20, CollectableType::Speed);
    app.collectables.push(boost);
    for _ in 0..3 {
        app.game_update();
    }
    assert_eq!(app.game_speed, 0);
    assert_eq!(app.collectables, vec![boost]);
}

#[test]
fn two_boosts_end_one_after_the_other() {
    let mut app = playing(&[(10, 10), (8, 10), (6, 10)], Direction::Right);
    app.game_speed = 2;
    app.random_item_timer = 1000;
    app.collectables.push(AnyCollectable::Speed(SpeedCollectable {
        position: Position::new(2, 2),
        remaining_time: Some(1),
    }));
    app.collectables.push(AnyCollectable::new(4, 4, CollectableType::Apple));
    app.collectables.push(AnyCollectable::Speed(SpeedCollectable {
        position: Position::new(2, 2),
        remaining_time: Some(2),
    }));
    app.game_update();
    assert_eq!(app.game_speed, 1);
    assert_eq!(
        app.collectables,
        vec![
            AnyCollectable::new(4, 4, CollectableType::Apple),
            AnyCollectable::Speed(SpeedCollectable {
                position: Position::new(2, 2),
                remaining_time: Some(1),
            }),
        ]
    );
    app.game_update();
    assert_eq!(app.game_speed, 0);
    assert_eq!(app.collectables, vec![AnyCollectable::new(4, 4, CollectableType::Apple)]);
}

#[test]
fn special_item_comes_when_its_countdown_has_run_out() {
    let mut kinds = [0, 0];
    for _ in 0..200 {
        let mut app = playing(&[(10, 10), (8, 10), (6, 10)], Direction::Right);
        app.random_item_timer = 1;
        app.collectables.push(AnyCollectable::new(30, 30, CollectableType::Apple));
        app.game_update();
        assert_eq!(app.random_item_timer, 0);
        assert_eq!(app.collectables.len(), 1);
        app.game_update();
        assert!(SPECIAL_MIN <= app.random_item_timer && app.random_item_timer < SPECIAL_END);
        assert_eq!(app.collectables.len(), 2);
        assert_eq!(app.collectables[0], AnyCollectable::new(30, 30, CollectableType::Apple));
        let item = app.collectables[1];
        assert!(on_free_spot(&app, &item));
        assert!(item.is_visible());
        match item {
            AnyCollectable::Apple(_) => panic!("an apple is no special item"),
            AnyCollectable::Speed(_) => kinds[0] += 1,
            AnyCollectable::Reverse(_) => kinds[1] += 1,
        }
    }
    assert!(kinds[0] > 0 && kinds[1] > 0);
}

#[test]
fn special_item_does_not_come_while_there_is_one() {
    for waiting in [
        AnyCollectable::new(30, 30, CollectableType::Reverse),
        AnyCollectable::new(30, 30, CollectableType::Speed),
        AnyCollectable::Speed(SpeedCollectable {
            position: Position::new(30, 30),
            remaining_time: Some(9),
        }),
    ] {
        let mut app = playing(&[(10, 10), (8, 10), (6, 10)], Direction::Right);
        app.game_speed = 1;
        app.random_item_timer = 0;
        app.collectables.push(waiting);
        app.spawn_special_if_due();
        assert!(SPECIAL_MIN <= app.random_item_timer && app.random_item_timer < SPECIAL_END);
        assert_eq!(app.collectables, vec![waiting]);
        assert!(app.has_special_item());
    }
}

#[test]
fn countdown_for_special_items_is_drawn_anew() {
    let mut seen = std::collections::BTreeSet::new();
    for _ in 0..100 {
        let mut app = playing(&[(10, 10), (8, 10), (6, 10)], Direction::Right);
        app.random_item_timer = 0;
        app.spawn_special_if_due();
        seen.insert(app.random_item_timer);
        assert_eq!(specials(&app), 1);
    }
    assert!(seen.len() >= 2);
    let mut app = playing(&[(10, 10), (8, 10), (6, 10)], Direction::Right);
    app.random_item_timer = 17;
    app.spawn_special_if_due();
    assert_eq!(app.random_item_timer, 16);
    assert!(!app.has_special_item());
}

#[test]
fn items_are_put_on_free_spots_all_over_the_field() {
    let mut app = playing(&[(10, 10), (8, 10), (6, 10), (4, 10), (2, 10)], Direction::Right);
    let mut spots = std::collections::BTreeSet::new();
    for round in 0..300 {
        app.spawn_item(CollectableType::Apple);
        assert_eq!(app.collectables.len(), round + 1);
        let item = app.collectables[round];
        assert_eq!(item, AnyCollectable::new(item.get_position().x, item.get_position().y, CollectableType::Apple));
        assert!(on_free_spot(&app, &item));
        spots.insert((item.get_position().x, item.get_position().y));
    }
    assert!(spots.len() >= 2);
    assert_eq!(app.snake.len(), 5);
}

#[test]
fn item_goes_to_the_one_spot_that_is_free() {
    // a field of 4 by 3 cells has two cells inside its border: (1, 1) and (2, 1)
    for _ in 0..50 {
        let mut app = playing(&[(2, 2), (0, 2)], Direction::Right);
        app.field_size = (4, 3);
        app.spawn_item(CollectableType::Speed);
        assert_eq!(app.collectables, vec![AnyCollectable::new(4, 2, CollectableType::Speed)]);
    }
    assert!(SPAWN_ROLLS >= 1);
}

#[test]
fn no_item_is_put_where_no_spot_is_free() {
    let mut app = playing(&[(2, 2), (0, 2)], Direction::Right);
    app.field_size = (3, 3);
    app.spawn_item(CollectableType::Apple);
    assert!(app.collectables.is_empty());
    assert_eq!(app.first_free_spot(), None);
    for field in [(2, 2), (2, 50), (50, 2), (0, 0), (1, 10)] {
        let mut app = playing(&[(10, 10)], Direction::Right);
        app.field_size = field;
        app.spawn_item(CollectableType::Reverse);
        assert!(app.collectables.is_empty());
        assert_eq!(app.first_free_spot(), None);
    }
}

#[test]
fn first_free_spot_goes_column_by_column() {
    let mut app = playing(&[(10, 10)], Direction::Right);
    app.field_size = (5, 5);
    assert_eq!(app.first_free_spot(), Some(Position::new(2, 2)));
    app.snake = snake_of(&[(2, 2), (2, 4), (2, 3), (4, 2)]);
    assert_eq!(app.first_free_spot(), Some(Position::new(2, 6)));
    app.snake = snake_of(&[(2, 2), (2, 4), (2, 6)]);
    assert_eq!(app.first_free_spot(), Some(Position::new(4, 2)));
    app.snake = snake_of(&[
        (2, 2), (2, 4), (2, 6), (4, 2), (4, 4), (4, 6), (6, 2), (6, 4),
    ]);
    assert_eq!(app.first_free_spot(), Some(Position::new(6, 6)));
    app.snake.push(Position::new(6, 6));
    assert_eq!(app.first_free_spot(), None);
}

#[test]
fn eaten_apple_is_not_replaced_on_a_full_field() {
    let mut app = playing(&[(2, 2), (0, 2)], Direction::Right);
    app.field_size = (3, 3);
    app.collectables.push(AnyCollectable::new(2, 2, CollectableType::Apple));
    app.check_collectable_collision();
    assert!(app.growth_granted);
    assert!(app.collectables.is_empty());
}

#[test]
fn one_apple_lies_on_the_field_throughout_a_round() {
    let mut app = App::new(Vec::new());
    app.handle_input_events(Key::Enter);
    assert_eq!(apples(&app), 1);
    // steer in a square well inside the field, and put the apple in the way now and then
    let turns = [Key::Up, Key::Left, Key::Down, Key::Right];
    let mut eaten = 0;
    for update in 0..400 {
        if update % 6 == 5 {
            app.handle_input_events(turns[(update / 6) % 4]);
        }
        if update % 9 == 0 {
            let head = app.snake[0];
            for item in app.collectables.iter_mut() {
                if let AnyCollectable::Apple(apple) = item {
                    apple.position = head;
                }
            }
            eaten += 1;
        }
        let before = app.snake.len();
        assert!(app.is_updatable());
        app.game_update();
        assert!(app.snake.len() >= 1);
        assert!(app.snake.len() == before || app.snake.len() == before + 1);
        if app.current_screen != CurrentScreen::Main {
            break;
        }
        assert_eq!(apples(&app), 1);
        assert!(specials(&app) <= 1);
        assert!(app.game_speed <= 1);
    }
    assert!(eaten > 0);
    assert!(app.snake.len() > 5);
    assert_eq!(apples(&app), 1);
}
