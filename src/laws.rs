use vstd::prelude::*;

use crate::game::{
    advanced, all_in_bounds, collides, disjoint, eaten, eats, grown, initial, occupied, placement,
    reset_of, settled, spawned, steered, steered_view, target_x, target_y, ticked, without, wf,
    GameView, SPAWN_X, SPAWN_Y,
};
use crate::grid::{cell_in_bounds, opposite_of, Cell, Direction};

verus! {

/// A request for the reverse of the current heading leaves the heading as it
/// is; any other request becomes the heading.
pub proof fn heading_arbitration(current: Direction, requested: Direction)
    ensures
        steered(current, Some(opposite_of(current))) == current,
        requested != opposite_of(current) ==> steered(current, Some(requested)) == requested,
{
}

/// A tick without collision keeps the snake's length, but for one segment
/// more where a growth is pending at the growth step (scheduled earlier, or
/// by eating in this tick).
pub proof fn tick_length(v: GameView, input: Option<Direction>, candidate: Cell)
    requires
        wf(v),
        !collides(steered_view(v, input)),
    ensures
        ticked(v, input, candidate).snake.len() == v.snake.len() + if v.growth_pending || eats(
            advanced(steered_view(v, input)),
        ) {
            1int
        } else {
            0int
        },
{
}

/// After a tick without collision the head stands one cell along the heading,
/// and each segment behind it on the cell its predecessor held before.
pub proof fn tick_chain(v: GameView, input: Option<Direction>, candidate: Cell)
    requires
        wf(v),
        !collides(steered_view(v, input)),
    ensures
        ticked(v, input, candidate).snake[0].x == target_x(steered_view(v, input)),
        ticked(v, input, candidate).snake[0].y == target_y(steered_view(v, input)),
        forall|i: int|
            1 <= i < v.snake.len() ==> #[trigger] ticked(v, input, candidate).snake[i]
                == v.snake[i - 1],
{
    let s = steered_view(v, input);
    let a = advanced(s);
    assert forall|i: int| 1 <= i < v.snake.len() implies #[trigger] ticked(
        v,
        input,
        candidate,
    ).snake[i] == v.snake[i - 1] by {
        assert(a.snake[i] == v.snake[i - 1]);
    }
}

/// Food is never placed on a cell of the snake, nor off the grid.
pub proof fn placement_avoids_snake(
    snake: Seq<Cell>,
    food_count: int,
    width: int,
    height: int,
    candidate: Cell,
)
    ensures
        placement(snake, food_count, width, height, candidate) matches Some(c) ==> {
            &&& !occupied(snake, c.x as int, c.y as int)
            &&& cell_in_bounds(c, width, height)
        },
{
}

/// A spawn attempt on a session adds at most one food item, and never on the
/// snake.
pub proof fn spawn_avoids_snake(v: GameView, candidate: Cell)
    ensures
        spawned(v, candidate).snake == v.snake,
        spawned(v, candidate).food.len() == v.food.len() ==> spawned(v, candidate).food
            == v.food,
        spawned(v, candidate).food.len() != v.food.len() ==> {
            &&& spawned(v, candidate).food == v.food.push(candidate)
            &&& !occupied(v.snake, candidate.x as int, candidate.y as int)
        },
{
}

/// Whatever the state, a reset leaves a snake of two cells with its head on
/// the spawn cell, heading up, and no food; a colliding tick ends in it.
pub proof fn reset_restores_spawn(v: GameView, input: Option<Direction>, candidate: Cell)
    ensures
        reset_of(v).snake.len() == 2,
        reset_of(v).snake[0] == (Cell { x: SPAWN_X, y: SPAWN_Y }),
        reset_of(v).heading == Direction::Up,
        reset_of(v).food.len() == 0,
        collides(steered_view(v, input)) ==> ticked(v, input, candidate) == reset_of(v),
{
}

/// What is left after taking the items on `c` out of `food` was in `food`,
/// and is not `c`.
proof fn lemma_without_members(food: Seq<Cell>, c: Cell)
    ensures
        without(food, c).len() <= food.len(),
        forall|x: Cell| #[trigger]
            without(food, c).contains(x) ==> food.contains(x) && x != c,
    decreases food.len(),
{
    if food.len() > 0 {
        let rest = without(food.drop_last(), c);
        lemma_without_members(food.drop_last(), c);
        assert forall|x: Cell| #[trigger] without(food, c).contains(x) implies food.contains(x)
            && x != c by {
            if rest.contains(x) {
                let k = choose|k: int| 0 <= k < food.drop_last().len() && food.drop_last()[k] == x;
                assert(food[k] == x);
            } else {
                assert(food.last() != c && x == food.last());
                assert(food[food.len() - 1] == x);
            }
        }
    }
}

/// A fresh session is settled.
pub proof fn initial_settled(width: int, height: int)
    requires
        SPAWN_X < width <= i32::MAX,
        SPAWN_Y < height <= i32::MAX,
    ensures
        settled(initial(width, height)),
{
    let v = initial(width, height);
    assert(v.snake[0] != v.snake[1]);
    assert(cell_in_bounds(v.snake[0], width, height));
    assert(cell_in_bounds(v.snake[1], width, height));
}

/// Every tick keeps a settled session settled: the body never holds a cell
/// twice, and no food lies on it.
pub proof fn tick_keeps_settled(v: GameView, input: Option<Direction>, candidate: Cell)
    requires
        settled(v),
    ensures
        settled(ticked(v, input, candidate)),
{
    let s = steered_view(v, input);
    if collides(s) {
        initial_settled(v.width, v.height);
    } else {
        let a = advanced(s);
        let nh = a.snake[0];
        let n = v.snake.len();
        assert(!v.snake.contains(nh)) by {
            if v.snake.contains(nh) {
                let k = choose|k: int| 0 <= k < n && v.snake[k] == nh;
                assert(occupied(v.snake, target_x(s), target_y(s)));
            }
        }
        assert(a.snake.no_duplicates()) by {
            assert forall|i: int, j: int|
                0 <= i < a.snake.len() && 0 <= j < a.snake.len() && i != j implies a.snake[i]
                != a.snake[j] by {
                if i > 0 && j > 0 {
                    assert(a.snake[i] == v.snake[i - 1]);
                    assert(a.snake[j] == v.snake[j - 1]);
                } else if i == 0 {
                    assert(a.snake[j] == v.snake[j - 1]);
                } else {
                    assert(a.snake[i] == v.snake[i - 1]);
                }
            }
        }
        let e = eaten(a);
        lemma_without_members(a.food, nh);
        assert(disjoint(e.snake, e.food)) by {
            assert forall|x: Cell| #[trigger] e.snake.contains(x) implies !e.food.contains(x) by {
                if e.food.contains(x) {
                    let k = choose|k: int| 0 <= k < e.snake.len() && e.snake[k] == x;
                    if k > 0 {
                        assert(v.snake[k - 1] == x);
                        assert(v.snake.contains(x));
                    }
                }
            }
        }
        assert(all_in_bounds(e.food, e.width, e.height)) by {
            assert forall|i: int| 0 <= i < e.food.len() implies #[trigger] cell_in_bounds(
                e.food[i],
                e.width,
                e.height,
            ) by {
                assert(e.food.contains(e.food[i]));
                let k = choose|k: int| 0 <= k < a.food.len() && a.food[k] == e.food[i];
                assert(cell_in_bounds(a.food[k], a.width, a.height));
            }
        }
        let g = grown(e);
        let t = v.snake[n - 1];
        assert(g.snake.no_duplicates() && disjoint(g.snake, g.food)) by {
            if e.growth_pending {
                assert(e.last_tail == Some(t));
                assert(g.snake == e.snake.push(t));
                assert(!e.snake.contains(t)) by {
                    if e.snake.contains(t) {
                        let k = choose|k: int| 0 <= k < e.snake.len() && e.snake[k] == t;
                        if k > 0 {
                            assert(v.snake[k - 1] == t);
                        } else {
                            assert(v.snake.contains(t));
                        }
                    }
                }
                assert forall|i: int, j: int|
                    0 <= i < g.snake.len() && 0 <= j < g.snake.len() && i != j implies g.snake[i]
                    != g.snake[j] by {
                    if i < e.snake.len() && j < e.snake.len() {
                        assert(g.snake[i] == e.snake[i]);
                        assert(g.snake[j] == e.snake[j]);
                    } else if i < e.snake.len() {
                        assert(g.snake[i] == e.snake[i]);
                    } else {
                        assert(g.snake[j] == e.snake[j]);
                    }
                }
                assert forall|x: Cell| #[trigger] g.snake.contains(x) implies !g.food.contains(x) by {
                    let k = choose|k: int| 0 <= k < g.snake.len() && g.snake[k] == x;
                    if k < e.snake.len() {
                        assert(e.snake[k] == x);
                        assert(e.snake.contains(x));
                    } else {
                        assert(x == t);
                        assert(v.snake.contains(t));
                        if e.food.contains(t) {
                            assert(a.food.contains(t));
                        }
                    }
                }
            }
        }
        let r = spawned(g, candidate);
        assert(disjoint(r.snake, r.food)) by {
            if r.food != g.food {
                assert forall|x: Cell| #[trigger] r.snake.contains(x) implies !r.food.contains(x) by {
                    if r.food.contains(x) {
                        let k = choose|k: int| 0 <= k < r.food.len() && r.food[k] == x;
                        if k < g.food.len() {
                            assert(g.food[k] == x);
                            assert(g.food.contains(x));
                        } else {
                            assert(x == candidate);
                            let m = choose|m: int| 0 <= m < r.snake.len() && r.snake[m] == x;
                            assert(occupied(g.snake, candidate.x as int, candidate.y as int));
                        }
                    }
                }
            }
        }
    }
}

} // verus!
