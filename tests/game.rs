use snake::game::{App, Config, ConfigError, Input, Phase};
use snake::grid::{Cell, Heading};

fn c(x: u16, y: u16) -> Cell {
    Cell { x, y }
}

fn cells(app: &App) -> Vec<Cell> {
    app.snake().iter().copied().collect()
}

fn parts(snake: &[Cell], heading: Heading, food: Cell, desired: usize) -> App {
    App::from_parts(10, 10, 150, &snake.to_vec(), heading, food, desired).unwrap()
}

#[test]
fn eating_food_grows_the_snake() {
    let mut app = parts(&[c(5, 5), c(5, 6), c(5, 7)], Heading::Up, c(5, 4), 3);
    app.tick_with(0);
    assert_eq!(cells(&app), vec![c(5, 4), c(5, 5), c(5, 6), c(5, 7)]);
    assert_eq!(app.score(), 1);
    assert_eq!(app.desired_length(), 4);
    assert_eq!(app.phase(), Phase::Running);
    assert!(!cells(&app).contains(&app.food()));
    // the first free cell, row by row
    assert_eq!(app.food(), c(0, 0));
}

#[test]
fn new_game_matches_eating_scenario() {
    let config = Config { width: 10, height: 10, tick_interval_ms: 150, initial_length: 3 };
    let mut app = App::new(config, 45).unwrap();
    assert_eq!(cells(&app), vec![c(5, 5), c(5, 6), c(5, 7)]);
    assert_eq!(app.heading(), Heading::Up);
    assert_eq!(app.food(), c(5, 4));
    assert_eq!(app.desired_length(), 3);
    assert_eq!(app.score(), 0);
    app.tick_with(7);
    assert_eq!(cells(&app), vec![c(5, 4), c(5, 5), c(5, 6), c(5, 7)]);
    assert_eq!(app.score(), 1);
    assert_eq!(app.desired_length(), 4);
    assert_eq!(app.food(), c(7, 0));
}

#[test]
fn growing_snake_dies_on_its_tail() {
    let snake = [c(2, 1), c(1, 1), c(1, 2), c(2, 2)];
    let mut app = parts(&snake, Heading::Down, c(8, 8), 5);
    app.tick_with(0);
    assert_eq!(app.phase(), Phase::Lost);
    assert_eq!(cells(&app), snake.to_vec());
}

#[test]
fn snake_may_follow_its_vacating_tail() {
    let snake = [c(2, 1), c(1, 1), c(1, 2), c(2, 2)];
    let mut app = parts(&snake, Heading::Down, c(8, 8), 4);
    app.tick_with(0);
    assert_eq!(app.phase(), Phase::Running);
    assert_eq!(cells(&app), vec![c(2, 2), c(2, 1), c(1, 1), c(1, 2)]);
}

#[test]
fn filling_the_grid_wins() {
    let snake = vec![c(0, 0), c(1, 0), c(2, 0), c(2, 1)];
    let mut app = App::from_parts(3, 2, 150, &snake, Heading::Down, c(0, 1), 4).unwrap();
    app.tick_with(0);
    assert_eq!(app.phase(), Phase::Won);
    assert_eq!(app.desired_length(), 5);
    assert_eq!(app.score(), 1);
    assert_eq!(cells(&app), vec![c(0, 1), c(0, 0), c(1, 0), c(2, 0), c(2, 1)]);
    assert_eq!(app.food(), c(1, 1));
}

#[test]
fn wall_ends_the_game() {
    let mut app = parts(&[c(3, 0), c(3, 1)], Heading::Up, c(8, 8), 2);
    app.tick_with(0);
    assert_eq!(app.phase(), Phase::Lost);
    let mut app = parts(&[c(9, 4), c(8, 4)], Heading::Right, c(0, 0), 2);
    app.tick_with(0);
    assert_eq!(app.phase(), Phase::Lost);
}

#[test]
fn ended_game_ignores_ticks() {
    let mut app = parts(&[c(3, 0), c(3, 1)], Heading::Up, c(8, 8), 2);
    app.tick_with(0);
    assert_eq!(app.phase(), Phase::Lost);
    for draw in 0..5u64 {
        app.tick_with(draw);
        app.tick();
        assert_eq!(app.phase(), Phase::Lost);
        assert_eq!(cells(&app), vec![c(3, 0), c(3, 1)]);
        assert_eq!(app.food(), c(8, 8));
    }
    let snake = vec![c(0, 0), c(1, 0), c(2, 0), c(2, 1)];
    let mut won = App::from_parts(3, 2, 150, &snake, Heading::Down, c(0, 1), 4).unwrap();
    won.tick_with(0);
    won.set_heading(Heading::Right);
    won.tick_with(3);
    assert_eq!(won.phase(), Phase::Won);
    assert_eq!(cells(&won).len(), 5);
    assert_eq!(won.score(), 1);
}

#[test]
fn reversal_is_ignored() {
    let mut app = parts(&[c(5, 5), c(5, 6)], Heading::Up, c(0, 0), 2);
    app.set_heading(Heading::Down);
    assert_eq!(app.heading(), Heading::Up);
    app.set_heading(Heading::Up);
    assert_eq!(app.heading(), Heading::Up);
    app.move_left();
    assert_eq!(app.heading(), Heading::Left);
    app.move_right();
    assert_eq!(app.heading(), Heading::Left);
    app.move_down();
    assert_eq!(app.heading(), Heading::Down);
    app.move_up();
    assert_eq!(app.heading(), Heading::Down);
    assert_eq!(Heading::Right.turn(Heading::Left), Heading::Right);
    assert_eq!(Heading::Right.turn(Heading::Up), Heading::Up);
}

#[test]
fn length_settles_at_desired_length() {
    let config = Config { width: 6, height: 6, tick_interval_ms: 10, initial_length: 3 };
    let mut app = App::new(config, 0).unwrap();
    let moves = [Heading::Left, Heading::Up, Heading::Right, Heading::Right, Heading::Down];
    for (k, h) in moves.iter().enumerate() {
        app.set_heading(*h);
        app.tick_with(k as u64);
        if app.phase() != Phase::Running {
            break;
        }
        assert_eq!(cells(&app).len(), app.desired_length());
        assert!(!cells(&app).contains(&app.food()));
    }
}

#[test]
fn food_never_under_snake() {
    for draw in 0..40u64 {
        let config = Config { width: 5, height: 5, tick_interval_ms: 10, initial_length: 2 };
        let mut app = App::new(config, draw).unwrap();
        let moves = [Heading::Up, Heading::Left, Heading::Down, Heading::Down, Heading::Right];
        for h in moves.iter() {
            app.set_heading(*h);
            app.tick_with(draw * 3 + 1);
            assert!(!cells(&app).contains(&app.food()));
            let f = app.food();
            assert!(f.x < 5 && f.y < 5);
        }
    }
}

#[test]
fn same_inputs_same_games() {
    let config = Config { width: 8, height: 8, tick_interval_ms: 10, initial_length: 3 };
    let mut a = App::new(config, 11).unwrap();
    let mut b = App::new(config, 11).unwrap();
    let inputs = [Input::Left, Input::Up, Input::Right, Input::Up, Input::Right, Input::Down];
    for (k, i) in inputs.iter().enumerate() {
        a.handle_key_event(*i);
        b.handle_key_event(*i);
        a.tick_with(k as u64 * 5);
        b.tick_with(k as u64 * 5);
        assert_eq!(cells(&a), cells(&b));
        assert_eq!(a.food(), b.food());
        assert_eq!(a.score(), b.score());
        assert_eq!(a.phase(), b.phase());
    }
}

#[test]
fn config_errors() {
    let ok = Config { width: 10, height: 10, tick_interval_ms: 150, initial_length: 3 };
    assert_eq!(ok.validate(), None);
    let e = |c: Config| App::new(c, 0).err();
    assert_eq!(e(Config { width: 0, ..ok }), Some(ConfigError::EmptyGrid));
    assert_eq!(e(Config { height: 0, ..ok }), Some(ConfigError::EmptyGrid));
    assert_eq!(e(Config { tick_interval_ms: 0, ..ok }), Some(ConfigError::ZeroTickInterval));
    assert_eq!(e(Config { initial_length: 0, ..ok }), Some(ConfigError::ZeroInitialLength));
    assert_eq!(e(Config { initial_length: 6, ..ok }), Some(ConfigError::SnakeDoesNotFit));
    assert_eq!(e(Config { initial_length: 5, ..ok }), None);
    let tiny = Config { width: 1, height: 3, tick_interval_ms: 1, initial_length: 2 };
    assert_eq!(App::start(tiny).err(), Some(ConfigError::SnakeDoesNotFit));
}

#[test]
fn from_parts_rejects_bad_states() {
    let f = |s: Vec<Cell>, food: Cell, d: usize| {
        App::from_parts(4, 4, 150, &s, Heading::Up, food, d).is_some()
    };
    assert!(f(vec![c(1, 1), c(1, 2)], c(0, 0), 2));
    assert!(!f(vec![], c(0, 0), 2));
    assert!(!f(vec![c(1, 1), c(1, 1)], c(0, 0), 2));
    assert!(!f(vec![c(1, 1), c(1, 2)], c(1, 2), 2));
    assert!(!f(vec![c(1, 1), c(4, 1)], c(0, 0), 2));
    assert!(!f(vec![c(1, 1), c(1, 2)], c(0, 4), 2));
    assert!(!f(vec![c(1, 1), c(1, 2)], c(0, 0), 1));
    assert!(!f(vec![c(1, 1), c(1, 2)], c(0, 0), 15));
    assert!(f(vec![c(1, 1), c(1, 2)], c(0, 0), 14));
    assert!(App::from_parts(4, 4, 0, &vec![c(1, 1)], Heading::Up, c(0, 0), 1).is_none());
}

#[test]
fn clock_ticks_once_per_interval() {
    let config = Config { width: 10, height: 10, tick_interval_ms: 150, initial_length: 3 };
    let mut app = App::new(config, 0).unwrap();
    app.update(149);
    assert_eq!(cells(&app)[0], c(5, 5));
    assert_eq!(app.last_update_ms(), 0);
    app.update(150);
    assert_eq!(cells(&app)[0], c(5, 4));
    assert_eq!(app.last_update_ms(), 150);
    app.update(299);
    assert_eq!(cells(&app)[0], c(5, 4));
    app.update(400);
    assert_eq!(cells(&app)[0], c(5, 3));
    assert_eq!(app.last_update_ms(), 400);
}

#[test]
fn quitting_and_acknowledging_a_loss() {
    let mut app = parts(&[c(5, 5), c(5, 6)], Heading::Up, c(0, 0), 2);
    app.handle_key_event(Input::Left);
    assert!(!app.exiting());
    app.handle_key_event(Input::Quit);
    assert!(app.exiting());
    let mut lost = parts(&[c(3, 0), c(3, 1)], Heading::Up, c(8, 8), 2);
    lost.tick();
    assert_eq!(lost.phase(), Phase::Lost);
    lost.handle_key_event(Input::Other);
    assert!(lost.exiting());
    let mut running = parts(&[c(5, 5), c(5, 6)], Heading::Up, c(0, 0), 2);
    running.handle_key_event(Input::Other);
    assert!(!running.exiting());
    assert_eq!(running.heading(), Heading::Up);
    let mut other = parts(&[c(5, 5), c(5, 6)], Heading::Up, c(0, 0), 2);
    other.exit();
    assert!(other.exiting());
}

#[test]
fn random_food_uses_every_free_cell() {
    let config = Config { width: 1, height: 4, tick_interval_ms: 10, initial_length: 2 };
    let mut seen = [false; 2];
    for _ in 0..64 {
        let app = App::start(config).unwrap();
        assert_eq!(cells(&app), vec![c(0, 2), c(0, 3)]);
        let f = app.food();
        assert!(f == c(0, 0) || f == c(0, 1));
        seen[f.y as usize] = true;
    }
    assert!(seen[0] && seen[1]);
}

#[test]
fn random_tick_places_food_on_free_cell() {
    let mut app = parts(&[c(5, 5), c(5, 6), c(5, 7)], Heading::Up, c(5, 4), 3);
    app.tick();
    assert_eq!(app.score(), 1);
    let f = app.food();
    assert!(f.x < 10 && f.y < 10);
    assert!(!cells(&app).contains(&f));
}

#[test]
fn move_dot_eats_food() {
    let mut app = parts(&[c(5, 5), c(5, 6), c(5, 7)], Heading::Up, c(5, 4), 3);
    app.move_dot(0);
    assert_eq!(cells(&app), vec![c(5, 4), c(5, 5), c(5, 6), c(5, 7)]);
    assert_eq!(app.score(), 1);
    assert_eq!(app.desired_length(), 4);
    assert_eq!(app.food(), c(0, 0));
    let mut plain = parts(&[c(5, 5), c(5, 6), c(5, 7)], Heading::Left, c(5, 4), 3);
    plain.move_dot(0);
    assert_eq!(cells(&plain), vec![c(4, 5), c(5, 5), c(5, 6), c(5, 7)]);
    assert_eq!(plain.score(), 0);
    assert_eq!(plain.desired_length(), 3);
}

#[test]
fn move_dot_into_wall_loses() {
    let mut app = parts(&[c(0, 4), c(1, 4)], Heading::Left, c(8, 8), 2);
    app.move_dot(0);
    assert_eq!(app.phase(), Phase::Lost);
    assert_eq!(cells(&app), vec![c(0, 4), c(1, 4)]);
    assert_eq!(app.score(), 0);
}
