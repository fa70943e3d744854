use snake_engine::{
    direction_from_keys, place_food, random_cell, spawn_tick, Cell, Direction, FrameState, Game,
    MoveOutcome, Piece,
    FOOD_CAP, SPAWN_X, SPAWN_Y,
};

fn c(x: i32, y: i32) -> Cell {
    Cell { x, y }
}

fn game(w: i32, h: i32, body: Vec<Cell>, heading: Direction) -> Game {
    Game::with_snake(w, h, body, heading).expect("valid session")
}

const ALL: [Direction; 4] = [Direction::Up, Direction::Down, Direction::Left, Direction::Right];

#[test]
fn reversal_request_is_ignored() {
    for cur in ALL {
        let mut g = game(10, 10, vec![c(5, 5), c(5, 4)], cur);
        g.request_direction(Some(cur.opposite()));
        assert_eq!(g.heading(), cur);
    }
}

#[test]
fn other_requests_are_taken() {
    for cur in ALL {
        for req in ALL {
            if req == cur.opposite() {
                continue;
            }
            let mut g = game(10, 10, vec![c(5, 5), c(5, 4)], cur);
            g.request_direction(Some(req));
            assert_eq!(g.heading(), req);
        }
    }
}

#[test]
fn no_request_keeps_heading() {
    let mut g = game(10, 10, vec![c(5, 5), c(5, 4)], Direction::Left);
    g.request_direction(None);
    assert_eq!(g.heading(), Direction::Left);
}

#[test]
fn opposite_pairs() {
    assert_eq!(Direction::Up.opposite(), Direction::Down);
    assert_eq!(Direction::Down.opposite(), Direction::Up);
    assert_eq!(Direction::Left.opposite(), Direction::Right);
    assert_eq!(Direction::Right.opposite(), Direction::Left);
}

#[test]
fn one_tick_up_on_ten_by_ten() {
    let mut g = game(10, 10, vec![c(5, 5), c(5, 4)], Direction::Up);
    let f = g.tick_with(None, c(0, 0));
    assert!(!f.just_reset);
    assert_eq!(f.snake, vec![c(5, 6), c(5, 5)]);
    assert_eq!(g.last_tail(), Some(c(5, 4)));
}

#[test]
fn advance_up_continues() {
    let mut g = game(10, 10, vec![c(5, 5), c(5, 4)], Direction::Up);
    assert_eq!(g.advance(), MoveOutcome::Continue);
    assert_eq!(g.head(), c(5, 6));
    assert_eq!(g.snake(), vec![c(5, 6), c(5, 5)]);
}

#[test]
fn wall_collision_on_the_right() {
    let mut g = game(10, 10, vec![c(9, 5), c(8, 5)], Direction::Right);
    assert_eq!(g.advance(), MoveOutcome::Collided);
    assert_eq!(g.snake(), vec![c(9, 5), c(8, 5)]);
}

#[test]
fn wall_collision_at_zero() {
    let mut g = game(10, 10, vec![c(0, 5), c(1, 5)], Direction::Left);
    assert_eq!(g.advance(), MoveOutcome::Collided);
    let mut g = game(10, 10, vec![c(4, 0), c(4, 1)], Direction::Down);
    assert_eq!(g.advance(), MoveOutcome::Collided);
}

#[test]
fn self_collision_of_length_four() {
    // Head at (5,5) moving down into (5,4), which the body holds.
    let mut g = game(10, 10, vec![c(5, 5), c(6, 5), c(6, 4), c(5, 4)], Direction::Down);
    assert_eq!(g.advance(), MoveOutcome::Collided);
}

#[test]
fn self_collision_turning_back_onto_the_neck() {
    let mut g = game(10, 10, vec![c(5, 5), c(5, 4), c(5, 3), c(5, 2)], Direction::Down);
    assert_eq!(g.advance(), MoveOutcome::Collided);
    let f = g.tick_with(None, c(0, 0));
    assert!(f.just_reset);
}

#[test]
fn moving_into_the_tail_cell_collides() {
    // A square loop: the head would enter the cell the tail still holds.
    let mut g = game(10, 10, vec![c(5, 5), c(6, 5), c(6, 4), c(5, 4)], Direction::Down);
    let f = g.tick_with(None, c(0, 0));
    assert!(f.just_reset);
}

#[test]
fn chain_follows_the_leader() {
    let body = vec![c(4, 4), c(4, 3), c(5, 3), c(6, 3), c(6, 2)];
    let mut g = game(10, 10, body.clone(), Direction::Left);
    let f = g.tick_with(None, c(0, 9));
    assert!(!f.just_reset);
    assert_eq!(f.snake[0], c(3, 4));
    for i in 1..body.len() {
        assert_eq!(f.snake[i], body[i - 1]);
    }
    assert_eq!(f.snake.len(), body.len());
}

#[test]
fn eating_grows_by_one_on_the_vacated_tail() {
    let mut g = game(10, 10, vec![c(5, 5), c(5, 4)], Direction::Up);
    assert!(g.spawn_food_at(c(5, 6)));
    let f = g.tick_with(None, c(5, 6));
    assert!(!f.just_reset);
    assert_eq!(f.snake, vec![c(5, 6), c(5, 5), c(5, 4)]);
    assert!(!g.growth_pending());
    // The candidate lies on the snake now, so nothing was spawned.
    assert!(f.food.is_empty());
}

#[test]
fn length_kept_without_growth() {
    let mut g = game(10, 10, vec![c(2, 2), c(2, 1), c(2, 0)], Direction::Right);
    let f = g.tick_with(Some(Direction::Right), c(9, 9));
    assert_eq!(f.snake.len(), 3);
    assert_eq!(f.food, vec![c(9, 9)]);
}

#[test]
fn eat_removes_food_under_head_only() {
    let mut g = game(10, 10, vec![c(5, 5), c(5, 4)], Direction::Up);
    assert!(g.spawn_food_at(c(1, 1)));
    assert!(g.spawn_food_at(c(2, 2)));
    assert!(!g.eat());
    assert_eq!(g.food(), vec![c(1, 1), c(2, 2)]);
    let mut g = game(10, 10, vec![c(1, 1), c(1, 0)], Direction::Up);
    assert!(g.spawn_food_at(c(3, 3)));
    let mut g2 = game(10, 10, vec![c(3, 4), c(3, 5)], Direction::Down);
    assert!(g2.spawn_food_at(c(3, 3)));
    assert!(g2.spawn_food_at(c(7, 7)));
    g2.advance();
    assert!(g2.eat());
    assert_eq!(g2.food(), vec![c(7, 7)]);
    assert!(g2.growth_pending());
    g2.grow();
    assert_eq!(g2.snake(), vec![c(3, 3), c(3, 4), c(3, 5)]);
    assert!(!g.growth_pending());
}

#[test]
fn grow_without_pending_does_nothing() {
    let mut g = game(10, 10, vec![c(5, 5), c(5, 4)], Direction::Up);
    g.grow();
    assert_eq!(g.snake().len(), 2);
}

#[test]
fn food_cap_is_respected() {
    let mut g = game(20, 20, vec![c(0, 1), c(0, 0)], Direction::Up);
    for i in 0..FOOD_CAP as i32 {
        assert!(g.spawn_food_at(c(10, i)));
    }
    assert!(!g.spawn_food_at(c(11, 11)));
    assert_eq!(g.food().len(), FOOD_CAP);
}

#[test]
fn placement_rules() {
    let snake = vec![c(3, 3), c(3, 2)];
    assert_eq!(place_food(&snake, 0, 10, 10, c(4, 4)), Some(c(4, 4)));
    assert_eq!(place_food(&snake, 0, 10, 10, c(3, 2)), None);
    assert_eq!(place_food(&snake, 10, 10, 10, c(4, 4)), None);
    assert_eq!(place_food(&snake, 9, 10, 10, c(4, 4)), Some(c(4, 4)));
    assert_eq!(place_food(&snake, 0, 10, 10, c(10, 4)), None);
    assert_eq!(place_food(&snake, 0, 10, 10, c(-1, 4)), None);
}

#[test]
fn random_spawns_never_hit_the_snake() {
    let snake = vec![c(0, 0), c(0, 1), c(1, 1), c(1, 0)];
    let mut placed = 0;
    for _ in 0..2000 {
        if let Some(f) = spawn_tick(&snake, 0, 2, 3) {
            assert!(!snake.contains(&f));
            assert!(f.x >= 0 && f.x < 2 && f.y >= 0 && f.y < 3);
            placed += 1;
        }
    }
    assert!(placed > 0);
}

#[test]
fn spawn_tick_at_cap_or_empty_grid_gives_nothing() {
    let snake = vec![c(0, 0), c(0, 1)];
    for _ in 0..50 {
        assert_eq!(spawn_tick(&snake, FOOD_CAP, 10, 10), None);
        assert_eq!(spawn_tick(&snake, 0, 0, 10), None);
    }
}

#[test]
fn random_cell_stays_on_grid() {
    for _ in 0..1000 {
        let r = random_cell(1, 1);
        assert_eq!(r, c(0, 0));
        let r = random_cell(7, 3);
        assert!(r.x >= 0 && r.x < 7 && r.y >= 0 && r.y < 3);
    }
}

#[test]
fn reset_after_collision() {
    let mut g = game(10, 10, vec![c(9, 5), c(8, 5), c(7, 5)], Direction::Right);
    assert!(g.spawn_food_at(c(1, 1)));
    assert!(g.spawn_food_at(c(2, 1)));
    let f = g.tick_with(None, c(4, 4));
    assert!(f.just_reset);
    assert_eq!(f.snake.len(), 2);
    assert_eq!(f.snake[0], c(SPAWN_X, SPAWN_Y));
    assert_eq!(f.snake, vec![c(3, 3), c(3, 2)]);
    assert!(f.food.is_empty());
    assert_eq!(g.heading(), Direction::Up);
    assert_eq!(g.last_tail(), None);
}

#[test]
fn reset_from_any_state() {
    let mut g = game(12, 12, vec![c(1, 1), c(2, 1), c(3, 1), c(4, 1)], Direction::Left);
    g.reset();
    assert_eq!(g.snake(), vec![c(3, 3), c(3, 2)]);
    assert_eq!(g.heading(), Direction::Up);
    assert!(g.food().is_empty());
}

#[test]
fn new_session_and_bad_grids() {
    let g = Game::new(20, 20).expect("fits");
    assert_eq!(g.snake(), vec![c(3, 3), c(3, 2)]);
    assert_eq!(g.heading(), Direction::Up);
    assert!(g.food().is_empty());
    assert!(g.is_well_formed());
    assert_eq!((g.width(), g.height()), (20, 20));
    assert!(Game::new(3, 20).is_none());
    assert!(Game::new(20, 3).is_none());
    assert!(Game::new(4, 4).is_some());
    assert!(Game::with_snake(10, 10, vec![c(1, 1)], Direction::Up).is_none());
    assert!(Game::with_snake(10, 10, vec![c(1, 1), c(1, 10)], Direction::Up).is_none());
    assert!(Game::with_snake(10, 10, vec![c(1, 1), c(-1, 1)], Direction::Up).is_none());
}

#[test]
fn random_tick_keeps_invariant() {
    let mut g = Game::new(6, 6).expect("fits");
    let inputs = [None, Some(Direction::Right), Some(Direction::Down), Some(Direction::Left)];
    for k in 0..400 {
        let f = g.tick(inputs[k % 4]);
        assert!(g.is_well_formed());
        assert!(f.snake.len() >= 2);
        for food in &f.food {
            assert!(!f.snake.contains(food));
        }
        for i in 0..f.snake.len() {
            assert!(!f.snake[i + 1..].contains(&f.snake[i]));
        }
    }
}

#[test]
fn key_precedence() {
    assert_eq!(direction_from_keys(true, true, true, true), Some(Direction::Up));
    assert_eq!(direction_from_keys(false, true, true, true), Some(Direction::Down));
    assert_eq!(direction_from_keys(false, false, true, true), Some(Direction::Right));
    assert_eq!(direction_from_keys(false, false, false, true), Some(Direction::Left));
    assert_eq!(direction_from_keys(false, false, false, false), None);
}

#[test]
fn pieces_in_drawing_order() {
    let frame = FrameState { snake: vec![c(3, 3), c(3, 2), c(3, 1)], food: vec![c(7, 7)], just_reset: false };
    assert_eq!(
        frame.pieces(),
        vec![(c(3, 3), Piece::Head), (c(3, 2), Piece::Body), (c(3, 1), Piece::Body), (c(7, 7), Piece::Food)]
    );
    let empty = FrameState { snake: vec![], food: vec![c(1, 1)], just_reset: true };
    assert_eq!(empty.pieces(), vec![(c(1, 1), Piece::Food)]);
}

#[test]
fn spawn_tick_always_places_when_nothing_blocks() {
    let snake: Vec<Cell> = vec![];
    for _ in 0..200 {
        let f = spawn_tick(&snake, 3, 4, 5).expect("no draw can fail");
        assert!(f.x >= 0 && f.x < 4 && f.y >= 0 && f.y < 5);
    }
    let far = vec![c(50, 50), c(50, 51)];
    for _ in 0..200 {
        assert!(spawn_tick(&far, FOOD_CAP - 1, 3, 3).is_some());
    }
}
