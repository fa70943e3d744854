use vstd::prelude::*;

use crate::grid::{cell_in_bounds, dx, dy, in_bounds, opposite_of, Cell, Direction};
use crate::laws::{initial_settled, tick_keeps_settled};
use crate::random::random_below;

verus! {

/// Most food items that may lie on the board at once.
pub const FOOD_CAP: usize = 10;

/// Column of the head's spawn cell.
pub const SPAWN_X: i32 = 3;

/// Row of the head's spawn cell; the first body segment lies one row below.
pub const SPAWN_Y: i32 = 3;

/// What one movement step of the snake came to.
#[derive(Clone, Copy, Debug, PartialEq, Eq, Structural)]
pub enum MoveOutcome {
    Continue,
    Collided,
}

/// The whole simulation state, as mathematical values.
pub struct GameView {
    pub width: int,
    pub height: int,
    /// Body cells, head first, tail last.
    pub snake: Seq<Cell>,
    pub heading: Direction,
    pub food: Seq<Cell>,
    /// The cell the tail left on the most recent move.
    pub last_tail: Option<Cell>,
    /// A growth that the next growth step applies.
    pub growth_pending: bool,
}

/// What one tick leaves for the presentation layer.
pub struct FrameState {
    /// Body cells, head first.
    pub snake: Vec<Cell>,
    pub food: Vec<Cell>,
    /// Whether the tick ended in a collision and the game was reset.
    pub just_reset: bool,
}

/// The size category of an occupied cell, for the presentation layer.
#[derive(Clone, Copy, Debug, PartialEq, Eq, Structural)]
pub enum Piece {
    Head,
    Body,
    Food,
}

/// Every occupied cell with its category: the snake head first, its body in
/// order, then the food.
pub open spec fn pieces_of(snake: Seq<Cell>, food: Seq<Cell>) -> Seq<(Cell, Piece)> {
    Seq::new(
        (snake.len() + food.len()) as nat,
        |i: int|
            if i == 0 && snake.len() > 0 {
                (snake[0], Piece::Head)
            } else if i < snake.len() {
                (snake[i], Piece::Body)
            } else {
                (food[i - snake.len()], Piece::Food)
            },
    )
}

/// The authoritative state of one game session.
pub struct Game {
    width: i32,
    height: i32,
    snake: Vec<Cell>,
    heading: Direction,
    food: Vec<Cell>,
    last_tail: Option<Cell>,
    growth_pending: bool,
}

impl View for Game {
    type V = GameView;

    closed spec fn view(&self) -> GameView {
        GameView {
            width: self.width as int,
            height: self.height as int,
            snake: self.snake@,
            heading: self.heading,
            food: self.food@,
            last_tail: self.last_tail,
            growth_pending: self.growth_pending,
        }
    }
}

/// The body of a freshly spawned snake: the head on the spawn cell and one
/// segment right behind it.
pub open spec fn spawn_body() -> Seq<Cell> {
    seq![Cell { x: SPAWN_X, y: SPAWN_Y }, Cell { x: SPAWN_X, y: (SPAWN_Y - 1) as i32 }]
}

/// Whether the grid holds the spawn configuration.
pub open spec fn fits_spawn(width: int, height: int) -> bool {
    SPAWN_X < width <= i32::MAX && SPAWN_Y < height <= i32::MAX
}

/// Whether every cell of `cells` lies on the grid.
pub open spec fn all_in_bounds(cells: Seq<Cell>, width: int, height: int) -> bool {
    forall|i: int| 0 <= i < cells.len() ==> #[trigger] cell_in_bounds(cells[i], width, height)
}

/// The state invariant of a session.
pub open spec fn wf(v: GameView) -> bool {
    &&& fits_spawn(v.width, v.height)
    &&& v.snake.len() >= 2
    &&& all_in_bounds(v.snake, v.width, v.height)
    &&& all_in_bounds(v.food, v.width, v.height)
    &&& v.food.len() <= FOOD_CAP
    &&& (v.last_tail matches Some(t) ==> cell_in_bounds(t, v.width, v.height))
}

/// No cell of `a` is a cell of `b`.
pub open spec fn disjoint(a: Seq<Cell>, b: Seq<Cell>) -> bool {
    forall|x: Cell| #[trigger] a.contains(x) ==> !b.contains(x)
}

/// The invariant between ticks: well formed, no two segments on one cell,
/// and no food on the snake.
pub open spec fn settled(v: GameView) -> bool {
    &&& wf(v)
    &&& v.snake.no_duplicates()
    &&& disjoint(v.snake, v.food)
}

/// Whether some cell of `cells` is `(x, y)`.
pub open spec fn occupied(cells: Seq<Cell>, x: int, y: int) -> bool {
    exists|i: int| 0 <= i < cells.len() && cells[i].x == x && cells[i].y == y
}

/// The heading after a request: any request but the reverse of the current
/// heading is taken; no request keeps the heading.
pub open spec fn steered(heading: Direction, requested: Option<Direction>) -> Direction {
    match requested {
        Some(d) => if d != opposite_of(heading) {
            d
        } else {
            heading
        },
        None => heading,
    }
}

/// Column the head moves to.
pub open spec fn target_x(v: GameView) -> int {
    v.snake[0].x + dx(v.heading)
}

/// Row the head moves to.
pub open spec fn target_y(v: GameView) -> int {
    v.snake[0].y + dy(v.heading)
}

/// Whether the next move leaves the grid or runs into the body as it stands
/// before the move, old tail cell included.
pub open spec fn collides(v: GameView) -> bool {
    !in_bounds(target_x(v), target_y(v), v.width, v.height) || occupied(
        v.snake,
        target_x(v),
        target_y(v),
    )
}

/// The body after a move: the new head, then each segment on the cell its
/// predecessor held before the move.
pub open spec fn shifted(body: Seq<Cell>, head: Cell) -> Seq<Cell> {
    seq![head] + body.drop_last()
}

/// The state after one movement step; a colliding move changes nothing.
pub open spec fn advanced(v: GameView) -> GameView {
    if collides(v) {
        v
    } else {
        GameView {
            snake: shifted(v.snake, Cell { x: target_x(v) as i32, y: target_y(v) as i32 }),
            last_tail: Some(v.snake.last()),
            ..v
        }
    }
}

/// `food` with every item on `c` taken out, the rest in order.
pub open spec fn without(food: Seq<Cell>, c: Cell) -> Seq<Cell>
    decreases food.len(),
{
    if food.len() == 0 {
        food
    } else {
        let rest = without(food.drop_last(), c);
        if food.last() == c {
            rest
        } else {
            rest.push(food.last())
        }
    }
}

/// Whether the head lies on a food item.
pub open spec fn eats(v: GameView) -> bool {
    occupied(v.food, v.snake[0].x as int, v.snake[0].y as int)
}

/// The state after the eating check: food under the head is removed, and
/// eating schedules a growth.
pub open spec fn eaten(v: GameView) -> GameView {
    GameView { food: without(v.food, v.snake[0]), growth_pending: v.growth_pending || eats(v), ..v }
}

/// The state after the growth step: a pending growth appends a segment on
/// the cell the tail last left, and is consumed.
pub open spec fn grown(v: GameView) -> GameView {
    if v.growth_pending {
        GameView {
            snake: match v.last_tail {
                Some(t) => v.snake.push(t),
                None => v.snake,
            },
            growth_pending: false,
            ..v
        }
    } else {
        v
    }
}

/// The spawn configuration on a grid, with no food.
pub open spec fn initial(width: int, height: int) -> GameView {
    GameView {
        width,
        height,
        snake: spawn_body(),
        heading: Direction::Up,
        food: Seq::empty(),
        last_tail: None,
        growth_pending: false,
    }
}

/// The state after game over: snake back to the spawn configuration, all
/// food gone.
pub open spec fn reset_of(v: GameView) -> GameView {
    initial(v.width, v.height)
}

/// Where food is placed for a drawn `candidate`: nowhere once the cap is
/// reached, nor off the grid, nor on the snake.
pub open spec fn placement(
    snake: Seq<Cell>,
    food_count: int,
    width: int,
    height: int,
    candidate: Cell,
) -> Option<Cell> {
    if food_count < FOOD_CAP && cell_in_bounds(candidate, width, height) && !occupied(
        snake,
        candidate.x as int,
        candidate.y as int,
    ) {
        Some(candidate)
    } else {
        None
    }
}

/// The state after a spawn attempt with a drawn `candidate`.
pub open spec fn spawned(v: GameView, candidate: Cell) -> GameView {
    match placement(v.snake, v.food.len() as int, v.width, v.height, candidate) {
        Some(c) => GameView { food: v.food.push(c), ..v },
        None => v,
    }
}

/// The state with the heading request applied.
pub open spec fn steered_view(v: GameView, input: Option<Direction>) -> GameView {
    GameView { heading: steered(v.heading, input), ..v }
}

/// One tick: heading request, move, and then either reset on collision, or
/// eating, growth and a spawn attempt.
pub open spec fn ticked(v: GameView, input: Option<Direction>, candidate: Cell) -> GameView {
    let s = steered_view(v, input);
    if collides(s) {
        reset_of(s)
    } else {
        spawned(grown(eaten(advanced(s))), candidate)
    }
}

/// Copies a list of cells.
fn copy_cells(cells: &Vec<Cell>) -> (r: Vec<Cell>)
    ensures
        r@ == cells@,
{
    let mut r: Vec<Cell> = Vec::new();
    let mut i: usize = 0;
    while i < cells.len()
        invariant
            0 <= i <= cells@.len(),
            r@ == cells@.take(i as int),
        decreases cells@.len() - i,
    {
        r.push(cells[i]);
        i = i + 1;
        proof {
            assert(r@ =~= cells@.take(i as int));
        }
    }
    proof {
        assert(r@ =~= cells@);
    }
    r
}

/// Scans `cells` for `(x, y)`.
fn occupies(cells: &Vec<Cell>, x: i32, y: i32) -> (r: bool)
    ensures
        r == occupied(cells@, x as int, y as int),
{
    let mut i: usize = 0;
    while i < cells.len()
        invariant
            0 <= i <= cells@.len(),
            forall|j: int| 0 <= j < i ==> !(cells@[j].x == x && cells@[j].y == y),
        decreases cells@.len() - i,
    {
        if cells[i].x == x && cells[i].y == y {
            return true;
        }
        i = i + 1;
    }
    false
}

impl Game {
    /// Moves the snake one cell along its heading. Collision is checked
    /// against the body before the move; without one, every trailing segment
    /// takes the cell its predecessor held, and the cell the tail left is
    /// recorded for growth.
    pub fn advance(&mut self) -> (r: MoveOutcome)
        requires
            wf(old(self)@),
        ensures
            final(self)@ == advanced(old(self)@),
            wf(final(self)@),
            r == MoveOutcome::Collided <==> collides(old(self)@),
    {
        let head = self.snake[0];
        proof {
            assert(cell_in_bounds(self.snake@[0], self@.width, self@.height));
        }
        let (nx, ny): (i32, i32) = match self.heading {
            Direction::Left => (head.x - 1, head.y),
            Direction::Right => (head.x + 1, head.y),
            Direction::Up => (head.x, head.y + 1),
            Direction::Down => (head.x, head.y - 1),
        };
        if nx < 0 || ny < 0 || nx >= self.width || ny >= self.height || occupies(
            &self.snake,
            nx,
            ny,
        ) {
            return MoveOutcome::Collided;
        }
        let n = self.snake.len();
        let mut body: Vec<Cell> = Vec::new();
        body.push(Cell { x: nx, y: ny });
        let mut i: usize = 0;
        while i + 1 < n
            invariant
                n == self.snake@.len(),
                n >= 2,
                0 <= i < n,
                body@ == seq![Cell { x: nx, y: ny }] + self.snake@.take(i as int),
            decreases n - i,
        {
            body.push(self.snake[i]);
            i = i + 1;
            proof {
                assert(body@ =~= seq![Cell { x: nx, y: ny }] + self.snake@.take(i as int));
            }
        }
        let ghost pre = self@;
        self.last_tail = Some(self.snake[n - 1]);
        self.snake = body;
        proof {
            assert(self.snake@ =~= shifted(pre.snake, Cell { x: nx, y: ny }));
            assert(pre.snake.last() == pre.snake[n - 1]);
            assert forall|j: int| 0 <= j < self.snake@.len() implies #[trigger] cell_in_bounds(
                self.snake@[j],
                self@.width,
                self@.height,
            ) by {
                if j > 0 {
                    assert(self.snake@[j] == pre.snake[j - 1]);
                }
            }
            assert(cell_in_bounds(pre.snake[n - 1], pre.width, pre.height));
        }
        MoveOutcome::Continue
    }
}

/// Where food goes for a drawn `candidate`, given the snake and the number
/// of food items on the board.
pub fn place_food(
    snake: &Vec<Cell>,
    food_count: usize,
    width: i32,
    height: i32,
    candidate: Cell,
) -> (r: Option<Cell>)
    ensures
        r == placement(snake@, food_count as int, width as int, height as int, candidate),
{
    if food_count >= FOOD_CAP || candidate.x < 0 || candidate.y < 0 || candidate.x >= width
        || candidate.y >= height {
        return None;
    }
    if occupies(snake, candidate.x, candidate.y) {
        None
    } else {
        Some(candidate)
    }
}

impl Game {
    /// Applies a heading request: taken unless it reverses the current
    /// heading; `None` keeps the heading.
    pub fn request_direction(&mut self, requested: Option<Direction>)
        ensures
            final(self)@ == steered_view(old(self)@, requested),
    {
        if let Some(d) = requested {
            if d != self.heading.opposite() {
                self.heading = d;
            }
        }
    }

    /// Removes every food item under the head; eating schedules a growth.
    /// Returns whether anything was eaten.
    pub fn eat(&mut self) -> (r: bool)
        requires
            wf(old(self)@),
        ensures
            final(self)@ == eaten(old(self)@),
            wf(final(self)@),
            r == eats(old(self)@),
    {
        let head = self.snake[0];
        let mut kept: Vec<Cell> = Vec::new();
        let mut found = false;
        let mut i: usize = 0;
        while i < self.food.len()
            invariant
                0 <= i <= self.food@.len(),
                self.food@.len() <= FOOD_CAP,
                kept@ == without(self.food@.take(i as int), head),
                kept@.len() <= i,
                all_in_bounds(self.food@, self@.width, self@.height),
                all_in_bounds(kept@, self@.width, self@.height),
                found == occupied(self.food@.take(i as int), head.x as int, head.y as int),
            decreases self.food@.len() - i,
        {
            let f = self.food[i];
            proof {
                assert(self.food@.take(i + 1).drop_last() =~= self.food@.take(i as int));
                assert(self.food@.take(i + 1).last() == f);
                assert(cell_in_bounds(self.food@[i as int], self@.width, self@.height));
            }
            if f == head {
                found = true;
            } else {
                kept.push(f);
            }
            i = i + 1;
            proof {
                let t = self.food@.take(i as int);
                if found {
                    if f.x == head.x && f.y == head.y {
                        assert(t[i - 1] == f);
                    }
                } else {
                    assert forall|j: int| 0 <= j < t.len() implies !(t[j].x == head.x && t[j].y
                        == head.y) by {
                        if j < i - 1 {
                            assert(t[j] == self.food@.take(i - 1)[j]);
                        }
                    }
                }
                if found && !(f.x == head.x && f.y == head.y) {
                    let t0 = self.food@.take(i - 1);
                    let j0 = choose|j: int|
                        0 <= j < t0.len() && t0[j].x == head.x && t0[j].y == head.y;
                    assert(t[j0] == t0[j0]);
                }
            }
        }
        proof {
            assert(self.food@.take(i as int) =~= self.food@);
        }
        self.food = kept;
        if found {
            self.growth_pending = true;
        }
        found
    }

    /// Applies a pending growth: one segment appended on the cell the tail
    /// left on the last move.
    pub fn grow(&mut self)
        requires
            wf(old(self)@),
        ensures
            final(self)@ == grown(old(self)@),
            wf(final(self)@),
    {
        if self.growth_pending {
            if let Some(t) = self.last_tail {
                self.snake.push(t);
            }
            self.growth_pending = false;
        }
    }

    /// Game over: discards the snake and all food, and spawns the snake
    /// anew, heading up.
    pub fn reset(&mut self)
        requires
            wf(old(self)@),
        ensures
            final(self)@ == reset_of(old(self)@),
            wf(final(self)@),
    {
        self.snake = vec![Cell { x: SPAWN_X, y: SPAWN_Y }, Cell { x: SPAWN_X, y: SPAWN_Y - 1 }];
        self.heading = Direction::Up;
        self.food = Vec::new();
        self.last_tail = None;
        self.growth_pending = false;
        proof {
            assert(self.snake@ =~= spawn_body());
            assert(self.food@ =~= Seq::<Cell>::empty());
        }
    }

    /// Places food on `candidate` where the rules allow it. Returns whether
    /// food was placed.
    pub fn spawn_food_at(&mut self, candidate: Cell) -> (r: bool)
        requires
            wf(old(self)@),
        ensures
            final(self)@ == spawned(old(self)@, candidate),
            wf(final(self)@),
            r == placement(old(self)@.snake, old(self)@.food.len() as int, old(self)@.width,
                old(self)@.height, candidate) is Some,
    {
        match place_food(&self.snake, self.food.len(), self.width, self.height, candidate) {
            Some(c) => {
                self.food.push(c);
                true
            },
            None => false,
        }
    }
}

/// Draws a cell uniformly from a `width` by `height` grid.
pub fn random_cell(width: i32, height: i32) -> (r: Cell)
    requires
        width > 0,
        height > 0,
    ensures
        cell_in_bounds(r, width as int, height as int),
{
    let x = random_below(width);
    let y = random_below(height);
    Cell { x, y }
}

/// One spawn attempt: draws a random cell of the grid and returns it as the
/// place for new food unless the cap is reached or the cell lies on the
/// snake. An empty grid gives nothing.
pub fn spawn_tick(snake: &Vec<Cell>, food_count: usize, width: i32, height: i32) -> (r: Option<
    Cell,
>)
    ensures
        food_count >= FOOD_CAP || width <= 0 || height <= 0 ==> r is None,
        width > 0 && height > 0 ==> exists|c: Cell|
            cell_in_bounds(c, width as int, height as int) && r == #[trigger] placement(
                snake@,
                food_count as int,
                width as int,
                height as int,
                c,
            ),
        r matches Some(c) ==> {
            &&& cell_in_bounds(c, width as int, height as int)
            &&& !occupied(snake@, c.x as int, c.y as int)
            &&& r == placement(snake@, food_count as int, width as int, height as int, c)
        },
{
    if width <= 0 || height <= 0 {
        return None;
    }
    let candidate = random_cell(width, height);
    place_food(snake, food_count, width, height, candidate)
}

impl Game {
    /// A new session: the snake on its spawn cells heading up, no food.
    /// `None` where the grid cannot hold the spawn configuration.
    pub fn new(width: i32, height: i32) -> (r: Option<Game>)
        ensures
            r is Some <==> fits_spawn(width as int, height as int),
            r matches Some(g) ==> g@ == initial(width as int, height as int) && settled(g@),
    {
        if width <= SPAWN_X || height <= SPAWN_Y {
            return None;
        }
        let g = Game {
            width,
            height,
            snake: vec![Cell { x: SPAWN_X, y: SPAWN_Y }, Cell { x: SPAWN_X, y: SPAWN_Y - 1 }],
            heading: Direction::Up,
            food: Vec::new(),
            last_tail: None,
            growth_pending: false,
        };
        proof {
            assert(g@.snake =~= spawn_body());
            assert(g@.food =~= Seq::<Cell>::empty());
            initial_settled(width as int, height as int);
        }
        Some(g)
    }

    /// A session with a given body (head first) and heading, and no food.
    /// `None` where the grid cannot hold the spawn configuration, the body
    /// has fewer than two cells, or a cell lies off the grid.
    pub fn with_snake(width: i32, height: i32, snake: Vec<Cell>, heading: Direction) -> (r:
        Option<Game>)
        ensures
            r is Some <==> fits_spawn(width as int, height as int) && snake@.len() >= 2
                && all_in_bounds(snake@, width as int, height as int),
            r matches Some(g) ==> g@ == (GameView {
                width: width as int,
                height: height as int,
                snake: snake@,
                heading,
                food: Seq::empty(),
                last_tail: None,
                growth_pending: false,
            }) && wf(g@),
    {
        if width <= SPAWN_X || height <= SPAWN_Y || snake.len() < 2 {
            return None;
        }
        if !cells_in_bounds(&snake, width, height) {
            return None;
        }
        let g = Game {
            width,
            height,
            snake,
            heading,
            food: Vec::new(),
            last_tail: None,
            growth_pending: false,
        };
        proof {
            assert(g@.food =~= Seq::<Cell>::empty());
        }
        Some(g)
    }

    /// The state for the presentation layer.
    fn frame(&self, just_reset: bool) -> (r: FrameState)
        ensures
            r.snake@ == self@.snake,
            r.food@ == self@.food,
            r.just_reset == just_reset,
    {
        FrameState { snake: copy_cells(&self.snake), food: copy_cells(&self.food), just_reset }
    }

    /// One tick with a given spawn candidate: heading request, move, and then
    /// reset on collision, or else eating, growth and a spawn attempt on
    /// `candidate`.
    pub fn tick_with(&mut self, input: Option<Direction>, candidate: Cell) -> (r: FrameState)
        requires
            wf(old(self)@),
        ensures
            final(self)@ == ticked(old(self)@, input, candidate),
            wf(final(self)@),
            settled(old(self)@) ==> settled(final(self)@),
            r.just_reset == collides(steered_view(old(self)@, input)),
            r.snake@ == final(self)@.snake,
            r.food@ == final(self)@.food,
    {
        proof {
            if settled(self@) {
                tick_keeps_settled(self@, input, candidate);
            }
        }
        self.request_direction(input);
        match self.advance() {
            MoveOutcome::Collided => {
                self.reset();
                self.frame(true)
            },
            MoveOutcome::Continue => {
                self.eat();
                self.grow();
                self.spawn_food_at(candidate);
                self.frame(false)
            },
        }
    }

    /// One tick, with the spawn candidate drawn at random from the grid.
    pub fn tick(&mut self, input: Option<Direction>) -> (r: FrameState)
        requires
            wf(old(self)@),
        ensures
            exists|c: Cell|
                cell_in_bounds(c, old(self)@.width, old(self)@.height) && final(self)@
                    == #[trigger] ticked(old(self)@, input, c),
            wf(final(self)@),
            settled(old(self)@) ==> settled(final(self)@),
            r.just_reset == collides(steered_view(old(self)@, input)),
            r.snake@ == final(self)@.snake,
            r.food@ == final(self)@.food,
    {
        let candidate = random_cell(self.width, self.height);
        self.tick_with(input, candidate)
    }
}

impl Game {
    pub fn width(&self) -> (r: i32)
        ensures
            r as int == self@.width,
    {
        self.width
    }

    pub fn height(&self) -> (r: i32)
        ensures
            r as int == self@.height,
    {
        self.height
    }

    pub fn heading(&self) -> (r: Direction)
        ensures
            r == self@.heading,
    {
        self.heading
    }

    /// The head's cell.
    pub fn head(&self) -> (r: Cell)
        requires
            wf(self@),
        ensures
            r == self@.snake[0],
    {
        self.snake[0]
    }

    /// Body cells, head first.
    pub fn snake(&self) -> (r: Vec<Cell>)
        ensures
            r@ == self@.snake,
    {
        copy_cells(&self.snake)
    }

    pub fn food(&self) -> (r: Vec<Cell>)
        ensures
            r@ == self@.food,
    {
        copy_cells(&self.food)
    }

    pub fn last_tail(&self) -> (r: Option<Cell>)
        ensures
            r == self@.last_tail,
    {
        self.last_tail
    }

    pub fn growth_pending(&self) -> (r: bool)
        ensures
            r == self@.growth_pending,
    {
        self.growth_pending
    }

    /// Whether the invariant holds; true of every session this type hands out.
    pub fn is_well_formed(&self) -> (r: bool)
        ensures
            r == wf(self@),
    {
        if self.width <= SPAWN_X || self.height <= SPAWN_Y || self.snake.len() < 2
            || self.food.len() > FOOD_CAP {
            return false;
        }
        if !cells_in_bounds(&self.snake, self.width, self.height) || !cells_in_bounds(
            &self.food,
            self.width,
            self.height,
        ) {
            return false;
        }
        match self.last_tail {
            Some(t) => 0 <= t.x && t.x < self.width && 0 <= t.y && t.y < self.height,
            None => true,
        }
    }
}

/// Whether every cell of `cells` lies on the grid.
fn cells_in_bounds(cells: &Vec<Cell>, width: i32, height: i32) -> (r: bool)
    ensures
        r == all_in_bounds(cells@, width as int, height as int),
{
    let mut i: usize = 0;
    while i < cells.len()
        invariant
            0 <= i <= cells@.len(),
            forall|j: int|
                0 <= j < i ==> #[trigger] cell_in_bounds(cells@[j], width as int, height as int),
        decreases cells@.len() - i,
    {
        let c = cells[i];
        if c.x < 0 || c.y < 0 || c.x >= width || c.y >= height {
            proof {
                assert(!cell_in_bounds(cells@[i as int], width as int, height as int));
            }
            return false;
        }
        i = i + 1;
    }
    true
}

impl FrameState {
    /// Every occupied cell with its category, for drawing.
    pub fn pieces(&self) -> (r: Vec<(Cell, Piece)>)
        requires
            self.snake@.len() + self.food@.len() <= usize::MAX,
        ensures
            r@ == pieces_of(self.snake@, self.food@),
    {
        let mut r: Vec<(Cell, Piece)> = Vec::new();
        let mut i: usize = 0;
        while i < self.snake.len()
            invariant
                0 <= i <= self.snake@.len(),
                r@.len() == i,
                forall|j: int| 0 <= j < i ==> r@[j] == pieces_of(self.snake@, self.food@)[j],
            decreases self.snake@.len() - i,
        {
            let piece = if i == 0 {
                Piece::Head
            } else {
                Piece::Body
            };
            r.push((self.snake[i], piece));
            i = i + 1;
        }
        let mut k: usize = 0;
        while k < self.food.len()
            invariant
                0 <= k <= self.food@.len(),
                self.snake@.len() + self.food@.len() <= usize::MAX,
                r@.len() == self.snake@.len() + k,
                forall|j: int|
                    0 <= j < self.snake@.len() + k ==> r@[j] == pieces_of(self.snake@, self.food@)[j],
            decreases self.food@.len() - k,
        {
            r.push((self.food[k], Piece::Food));
            k = k + 1;
        }
        proof {
            assert(r@ =~= pieces_of(self.snake@, self.food@));
        }
        r
    }
}

} // verus!
