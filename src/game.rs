//! The game state of one session and the tick that advances it.

use vstd::prelude::*;
use std::collections::VecDeque;
use crate::grid::{Cell, Heading, cell_in_grid, in_grid, opposite_of, step, step_x, step_y, turned};
use crate::food::{
    contains_cell, food_for, lemma_free_cells_nonempty, lemma_free_upto, place_food, random_below,
};

verus! {

/// Whether the game goes on, or has ended in a win or a loss.
#[derive(Clone, Copy, Debug, PartialEq, Eq, Structural)]
pub enum Phase {
    Running,
    Won,
    Lost,
}

/// What the player asks for.
#[derive(Clone, Copy, Debug, PartialEq, Eq, Structural)]
pub enum Input {
    Up,
    Down,
    Left,
    Right,
    Quit,
    /// Any other key.
    Other,
}

/// What happens to a session: the player's input, or a tick whose food
/// placement (if food is eaten) uses the given draw.
#[derive(Clone, Copy, Debug, PartialEq, Eq, Structural)]
pub enum Event {
    Input(Input),
    Tick(u64),
}

/// The mathematical state of a session.
pub struct GameModel {
    pub width: nat,
    pub height: nat,
    /// The snake's cells, head first.
    pub snake: Seq<Cell>,
    pub heading: Heading,
    pub food: Cell,
    pub score: nat,
    /// The length that trimming keeps the snake at once it has grown to it.
    pub desired_length: nat,
    pub phase: Phase,
    pub tick_interval_ms: nat,
    pub last_update_ms: nat,
    pub exit: bool,
}

impl GameModel {
    /// The number of cells of the grid.
    pub open spec fn cells(self) -> nat {
        self.width * self.height
    }

    /// The invariant of every state: the snake lies on the grid without
    /// repeating a cell, is never longer than the desired length, and the food
    /// lies on a free cell; only a game with room left for growth runs.
    pub open spec fn wf(self) -> bool {
        &&& 0 < self.width <= u16::MAX
        &&& 0 < self.height <= u16::MAX
        &&& self.tick_interval_ms > 0
        &&& 1 <= self.snake.len() <= self.desired_length
        &&& self.desired_length + 1 <= self.cells()
        &&& self.phase == Phase::Running ==> self.desired_length + 2 <= self.cells()
        &&& self.score <= self.desired_length
        &&& forall|i: int|
            0 <= i < self.snake.len() ==> cell_in_grid(
                self.width as int,
                self.height as int,
                #[trigger] self.snake[i],
            )
        &&& self.snake.no_duplicates()
        &&& cell_in_grid(self.width as int, self.height as int, self.food)
        &&& !self.snake.contains(self.food)
    }

    /// Whether the step along the heading from the head stays on the grid.
    pub open spec fn next_in_grid(self) -> bool {
        in_grid(
            self.width as int,
            self.height as int,
            step_x(self.snake[0], self.heading),
            step_y(self.snake[0], self.heading),
        )
    }

    /// The cell that the head moves to.
    pub open spec fn next_cell(self) -> Cell {
        Cell {
            x: step_x(self.snake[0], self.heading) as u16,
            y: step_y(self.snake[0], self.heading) as u16,
        }
    }

    /// Whether this tick's move lands on the food.
    pub open spec fn eats(self) -> bool {
        self.next_in_grid() && self.next_cell() == self.food
    }

    /// Whether the tail stays where it is this tick: the snake grows, because
    /// it eats or has not reached its desired length yet.
    pub open spec fn tail_stays(self) -> bool {
        self.eats() || self.snake.len() < self.desired_length
    }

    /// The cells that the head may not move into: the whole snake, or all of
    /// it but the tail where the tail moves away this tick.
    pub open spec fn blocking(self) -> Seq<Cell> {
        if self.tail_stays() {
            self.snake
        } else {
            self.snake.drop_last()
        }
    }

    /// Whether this tick's move hits a wall or the snake.
    pub open spec fn collides(self) -> bool {
        !self.next_in_grid() || self.blocking().contains(self.next_cell())
    }

    /// The state after the head has moved to its next cell.
    pub open spec fn moved(self) -> GameModel {
        GameModel { snake: seq![self.next_cell()] + self.snake, ..self }
    }

    /// The state after the food at the head has been eaten: one more point,
    /// one more cell of desired length, new food, and a win once the snake is
    /// as long as the grid minus one cell.
    pub open spec fn fed(self, draw: u64) -> GameModel {
        let desired = self.desired_length + 1;
        GameModel {
            score: self.score + 1,
            desired_length: desired,
            food: food_for(self.snake, self.width, self.height, draw),
            phase: if desired + 1 == self.cells() {
                Phase::Won
            } else {
                self.phase
            },
            ..self
        }
    }

    /// The state after the snake has been cut back to its desired length.
    pub open spec fn trimmed(self) -> GameModel {
        if self.snake.len() > self.desired_length {
            GameModel { snake: self.snake.take(self.desired_length as int), ..self }
        } else {
            self
        }
    }

    /// The state after the player asks for heading `h`.
    pub open spec fn turned_to(self, h: Heading) -> GameModel {
        GameModel { heading: turned(self.heading, h), ..self }
    }

    /// The state after an input: once the game is lost any input ends the
    /// session; quitting ends it; a direction turns the snake.
    pub open spec fn on_input(self, input: Input) -> GameModel {
        let m = if self.phase == Phase::Lost {
            GameModel { exit: true, ..self }
        } else {
            self
        };
        match input {
            Input::Quit => GameModel { exit: true, ..m },
            Input::Up => m.turned_to(Heading::Up),
            Input::Down => m.turned_to(Heading::Down),
            Input::Left => m.turned_to(Heading::Left),
            Input::Right => m.turned_to(Heading::Right),
            Input::Other => m,
        }
    }

    /// The state after an event.
    pub open spec fn apply(self, e: Event) -> GameModel {
        match e {
            Event::Input(i) => self.on_input(i),
            Event::Tick(draw) => self.step(draw),
        }
    }

    /// The state after a sequence of events, in order.
    pub open spec fn run(self, events: Seq<Event>) -> GameModel
        decreases events.len(),
    {
        if events.len() == 0 {
            self
        } else {
            self.apply(events[0]).run(events.drop_first())
        }
    }

    /// The state after a sequence of ticks with the given draws.
    pub open spec fn ticks(self, draws: Seq<u64>) -> GameModel
        decreases draws.len(),
    {
        if draws.len() == 0 {
            self
        } else {
            self.step(draws[0]).ticks(draws.drop_first())
        }
    }

    /// Whether a tick is due at time `now_ms`.
    pub open spec fn tick_due(self, now_ms: nat) -> bool {
        now_ms >= self.last_update_ms + self.tick_interval_ms
    }

    /// One tick. A game that has ended stays as it is. A move into a wall or
    /// into the snake loses. Otherwise the head moves; if it lands on the food,
    /// the food is eaten and placed anew by `draw`; and the snake is cut back
    /// to its desired length.
    pub open spec fn step(self, draw: u64) -> GameModel {
        if self.phase != Phase::Running {
            self
        } else if self.collides() {
            GameModel { phase: Phase::Lost, ..self }
        } else if self.eats() {
            self.moved().fed(draw)
        } else {
            self.moved().trimmed()
        }
    }
}

/// A cell put in front of a sequence without it keeps the sequence free of repeats.
proof fn lemma_prepend_unique(c: Cell, s: Seq<Cell>)
    requires
        s.no_duplicates(),
        !s.contains(c),
    ensures
        (seq![c] + s).no_duplicates(),
{
    let t = seq![c] + s;
    assert forall|i: int, j: int| 0 <= i < t.len() && 0 <= j < t.len() && i != j implies t[i]
        != t[j] by {
        if i == 0 && j > 0 {
            assert(s[j - 1] == t[j]);
        } else if j == 0 && i > 0 {
            assert(s[i - 1] == t[i]);
        }
    }
}

/// A prefix of a sequence without repeats has none either.
proof fn lemma_take_unique(s: Seq<Cell>, n: int)
    requires
        s.no_duplicates(),
        0 <= n <= s.len(),
    ensures
        s.take(n).no_duplicates(),
        forall|c: Cell| s.take(n).contains(c) ==> s.contains(c),
{
    assert forall|c: Cell| s.take(n).contains(c) implies s.contains(c) by {
        let k = choose|k: int| 0 <= k < n && s.take(n)[k] == c;
        assert(s[k] == c);
    }
}

/// A tick keeps every state well formed.
pub proof fn lemma_step_wf(m: GameModel, draw: u64)
    requires
        m.wf(),
    ensures
        m.step(draw).wf(),
{
    if m.phase == Phase::Running && !m.collides() {
        let c = m.next_cell();
        let mv = m.moved();
        if m.eats() {
            lemma_prepend_unique(c, m.snake);
            lemma_free_cells_nonempty(mv.snake, m.width, m.height);
            lemma_free_upto(mv.snake, m.width, m.height, m.width * m.height);
            assert forall|i: int| 0 <= i < mv.snake.len() implies cell_in_grid(
                m.width as int,
                m.height as int,
                #[trigger] mv.snake[i],
            ) by {
                if i > 0 {
                    assert(mv.snake[i] == m.snake[i - 1]);
                }
            }
        } else if m.snake.len() < m.desired_length {
            assert(m.blocking() == m.snake);
            lemma_prepend_unique(c, m.snake);
            assert forall|i: int| 0 <= i < mv.snake.len() implies cell_in_grid(
                m.width as int,
                m.height as int,
                #[trigger] mv.snake[i],
            ) by {
                if i > 0 {
                    assert(mv.snake[i] == m.snake[i - 1]);
                }
            }
            assert(!mv.snake.contains(m.food)) by {
                if mv.snake.contains(m.food) {
                    let k = choose|k: int| 0 <= k < mv.snake.len() && mv.snake[k] == m.food;
                    if k > 0 {
                        assert(m.snake[k - 1] == m.food);
                    }
                }
            }
        } else {
            let rest = m.snake.drop_last();
            assert(m.blocking() == rest);
            lemma_take_unique(m.snake, rest.len() as int);
            assert(m.snake.take(rest.len() as int) =~= rest);
            lemma_prepend_unique(c, rest);
            let t = mv.trimmed();
            assert(t.snake =~= seq![c] + rest);
            assert forall|i: int| 0 <= i < t.snake.len() implies cell_in_grid(
                m.width as int,
                m.height as int,
                #[trigger] t.snake[i],
            ) by {
                if i > 0 {
                    assert(t.snake[i] == m.snake[i - 1]);
                }
            }
            assert(!t.snake.contains(m.food)) by {
                if t.snake.contains(m.food) {
                    let k = choose|k: int| 0 <= k < t.snake.len() && t.snake[k] == m.food;
                    if k > 0 {
                        assert(m.snake[k - 1] == m.food);
                    }
                }
            }
        }
    }
}

/// The state of one session: the grid, the snake, its heading, the food, the
/// score, the phase of the game, and the timing of its ticks.
pub struct App {
    width: u16,
    height: u16,
    snake: VecDeque<Cell>,
    heading: Heading,
    food: Cell,
    score: u64,
    desired_length: usize,
    phase: Phase,
    tick_interval_ms: u64,
    last_update_ms: u64,
    exit: bool,
}

impl View for App {
    type V = GameModel;

    closed spec fn view(&self) -> GameModel {
        GameModel {
            width: self.width as nat,
            height: self.height as nat,
            snake: self.snake@,
            heading: self.heading,
            food: self.food,
            score: self.score as nat,
            desired_length: self.desired_length as nat,
            phase: self.phase,
            tick_interval_ms: self.tick_interval_ms as nat,
            last_update_ms: self.last_update_ms as nat,
            exit: self.exit,
        }
    }
}

/// The number of cells of a `width` by `height` grid.
fn cell_count(width: u16, height: u16) -> (r: usize)
    ensures
        r == width * height,
{
    assert(width as int * height as int <= 0xffff * 0xffff) by (nonlinear_arith)
        requires width <= 0xffff, height <= 0xffff;
    width as usize * height as usize
}

impl GameModel {
    /// The shape of a state between the move and the food check of a tick: the
    /// head has just been put in front, so the snake may be one cell longer
    /// than its desired length, and only the head may lie on the food.
    pub open spec fn ready_to_feed(self) -> bool {
        &&& 0 < self.width <= u16::MAX
        &&& 0 < self.height <= u16::MAX
        &&& self.phase == Phase::Running
        &&& 1 <= self.snake.len() <= self.desired_length + 1
        &&& self.desired_length + 2 <= self.cells()
        &&& self.score <= self.desired_length
    }
}

impl App {
    /// Step one of a tick: whether the move along the heading hits a wall or
    /// the snake, where the tail counts only if it stays this tick. A hit ends
    /// the game as lost.
    pub fn handle_death(&mut self) -> (lost: bool)
        requires
            old(self)@.wf(),
            old(self)@.phase == Phase::Running,
        ensures
            lost == old(self)@.collides(),
            final(self)@ == (if lost {
                GameModel { phase: Phase::Lost, ..old(self)@ }
            } else {
                old(self)@
            }),
    {
        let head = self.snake[0];
        match step(head, self.heading, self.width, self.height) {
            None => {
                self.phase = Phase::Lost;
                true
            },
            Some(next) => {
                assert(next == self@.next_cell());
                let tail_stays = next == self.food || self.snake.len() < self.desired_length;
                let n = if tail_stays {
                    self.snake.len()
                } else {
                    self.snake.len() - 1
                };
                assert(self@.blocking() =~= self.snake@.subrange(0, n as int));
                let hit = contains_cell(&self.snake, n, next);
                if hit {
                    self.phase = Phase::Lost;
                }
                hit
            },
        }
    }

    /// Step two of a tick, for a move that does not run into the snake: a
    /// move off the grid loses the game and leaves the snake where it is;
    /// otherwise the head moves one cell along the heading and, where it lands
    /// on the food, eats it (see `handle_food`), with `draw` placing new food.
    pub fn move_dot(&mut self, draw: u64)
        requires
            old(self)@.wf(),
            old(self)@.phase == Phase::Running,
            !(old(self)@.next_in_grid() && old(self)@.blocking().contains(old(self)@.next_cell())),
        ensures
            final(self)@ == (if !old(self)@.next_in_grid() {
                GameModel { phase: Phase::Lost, ..old(self)@ }
            } else if old(self)@.eats() {
                old(self)@.moved().fed(draw)
            } else {
                old(self)@.moved()
            }),
            old(self)@.eats() ==> final(self)@.score == old(self)@.score + 1
                && final(self)@.desired_length == old(self)@.desired_length + 1,
            !old(self)@.eats() ==> final(self)@.score == old(self)@.score
                && final(self)@.desired_length == old(self)@.desired_length,
    {
        let head = self.snake[0];
        let next = step(head, self.heading, self.width, self.height);
        match next {
            Some(c) => {
                assert(c == self@.next_cell());
                self.snake.push_front(c);
                self.handle_food(draw);
            },
            None => {
                self.phase = Phase::Lost;
            },
        }
    }

    /// Step three of a tick: where the head lies on the food, the score and
    /// the desired length grow by one, new food is placed by `draw`, and the
    /// game is won once the desired length is the grid's size minus one.
    pub fn handle_food(&mut self, draw: u64)
        requires
            old(self)@.ready_to_feed(),
        ensures
            final(self)@ == (if old(self)@.snake[0] == old(self)@.food {
                old(self)@.fed(draw)
            } else {
                old(self)@
            }),
            old(self)@.snake[0] == old(self)@.food ==> final(self)@.phase != Phase::Lost && (
            final(self)@.phase == Phase::Won <==> final(self)@.desired_length + 1
                == final(self)@.cells()),
    {
        if self.snake[0] == self.food {
            let cells = cell_count(self.width, self.height);
            self.desired_length = self.desired_length + 1;
            self.score = self.score + 1;
            self.food = place_food(&self.snake, self.width, self.height, draw);
            if self.desired_length + 1 == cells {
                self.phase = Phase::Won;
            }
        }
    }

    /// Step four of a tick: cells leave the back of the snake until it is no
    /// longer than its desired length.
    pub fn handle_tail(&mut self)
        ensures
            final(self)@ == old(self)@.trimmed(),
    {
        while self.snake.len() > self.desired_length
            invariant
                self.desired_length == old(self).desired_length,
                self.snake@.len() <= old(self).snake@.len(),
                self.snake@.len() >= self.desired_length || self.snake@.len() == old(self).snake@.len(),
                self.snake@ == old(self).snake@.take(self.snake@.len() as int),
                self@ == (GameModel { snake: self.snake@, ..old(self)@ }),
            decreases self.snake@.len(),
        {
            self.snake.pop_back();
        }
        assert(old(self)@.snake.take(old(self)@.snake.len() as int) =~= old(self)@.snake);
    }

    /// Advances the game by one tick, with `draw` choosing the cell of new food
    /// among the free cells (see `food_for`). A game that has ended is left as
    /// it is.
    pub fn tick_with(&mut self, draw: u64)
        requires
            old(self)@.wf(),
        ensures
            final(self)@ == old(self)@.step(draw),
            final(self)@.wf(),
            old(self)@.snake.len() == old(self)@.desired_length ==> final(self)@.snake.len()
                == final(self)@.desired_length,
            !final(self)@.snake.contains(final(self)@.food),
    {
        proof {
            lemma_step_wf(self@, draw);
        }
        if self.phase != Phase::Running {
            return;
        }
        if self.handle_death() {
            return;
        }
        let ghost m = self@;
        self.move_dot(draw);
        if self.phase == Phase::Running {
            self.handle_tail();
        }
        assert(self@ == m.step(draw)) by {
            if m.eats() {
                assert(m.moved().fed(draw).trimmed() == m.moved().fed(draw));
            }
        }
    }
}

impl App {
    /// Asks for a new heading. The exact reversal of the current heading is
    /// ignored; any other heading, the current one included, is taken.
    pub fn set_heading(&mut self, requested: Heading)
        ensures
            final(self)@ == old(self)@.turned_to(requested),
            requested == opposite_of(old(self)@.heading) ==> final(self)@.heading == old(
                self,
            )@.heading,
            requested != opposite_of(old(self)@.heading) ==> final(self)@.heading == requested,
    {
        self.heading = self.heading.turn(requested);
    }

    /// Asks to move up.
    pub fn move_up(&mut self)
        ensures
            final(self)@ == old(self)@.turned_to(Heading::Up),
    {
        self.set_heading(Heading::Up);
    }

    /// Asks to move down.
    pub fn move_down(&mut self)
        ensures
            final(self)@ == old(self)@.turned_to(Heading::Down),
    {
        self.set_heading(Heading::Down);
    }

    /// Asks to move right.
    pub fn move_right(&mut self)
        ensures
            final(self)@ == old(self)@.turned_to(Heading::Right),
    {
        self.set_heading(Heading::Right);
    }

    /// Asks to move left.
    pub fn move_left(&mut self)
        ensures
            final(self)@ == old(self)@.turned_to(Heading::Left),
    {
        self.set_heading(Heading::Left);
    }

    /// Ends the session.
    pub fn exit(&mut self)
        ensures
            final(self)@ == (GameModel { exit: true, ..old(self)@ }),
    {
        self.exit = true;
    }

    /// Handles one input of the player.
    pub fn handle_key_event(&mut self, input: Input)
        ensures
            final(self)@ == old(self)@.on_input(input),
    {
        if self.phase == Phase::Lost {
            self.exit();
        }
        match input {
            Input::Quit => self.exit(),
            Input::Up => self.move_up(),
            Input::Down => self.move_down(),
            Input::Left => self.move_left(),
            Input::Right => self.move_right(),
            Input::Other => {},
        }
    }

    /// Advances the game by one tick, placing any new food by a uniform draw
    /// among the free cells.
    pub fn tick(&mut self)
        requires
            old(self)@.wf(),
        ensures
            exists|draw: u64| final(self)@ == old(self)@.step(draw),
            final(self)@.wf(),
    {
        if self.phase != Phase::Running {
            proof {
                assert(self@ == self@.step(0));
            }
            return;
        }
        let cells = cell_count(self.width, self.height);
        let free_after_move = (cells - self.snake.len() - 1) as u64;
        let draw = random_below(free_after_move);
        self.tick_with(draw);
    }

    /// Runs the game clock: at time `now_ms` (milliseconds since the session
    /// started), a tick is made once the tick interval has passed since the
    /// last one, and the time of that tick is kept.
    pub fn update(&mut self, now_ms: u64)
        requires
            old(self)@.wf(),
        ensures
            final(self)@.wf(),
            old(self)@.tick_due(now_ms as nat) ==> exists|draw: u64|
                final(self)@ == (GameModel {
                    last_update_ms: now_ms as nat,
                    ..#[trigger] old(self)@.step(draw)
                }),
            !old(self)@.tick_due(now_ms as nat) ==> final(self)@ == old(self)@,
    {
        if now_ms.saturating_sub(self.last_update_ms) >= self.tick_interval_ms {
            self.tick();
            self.last_update_ms = now_ms;
        }
    }
}

/// The settings of a session.
#[derive(Clone, Copy, Debug, PartialEq, Eq, Structural)]
pub struct Config {
    pub width: u16,
    pub height: u16,
    pub tick_interval_ms: u64,
    pub initial_length: u16,
}

/// Why a configuration or a given state cannot start a game.
#[derive(Clone, Copy, Debug, PartialEq, Eq, Structural)]
pub enum ConfigError {
    /// The grid has no column or no row.
    EmptyGrid,
    /// The tick interval is zero.
    ZeroTickInterval,
    /// The snake would start with no cell.
    ZeroInitialLength,
    /// The snake does not fit below its start cell, or leaves the grid with
    /// fewer than two free cells.
    SnakeDoesNotFit,
}

/// What is wrong with a configuration, if anything.
pub open spec fn config_error(c: Config) -> Option<ConfigError> {
    if c.width == 0 || c.height == 0 {
        Some(ConfigError::EmptyGrid)
    } else if c.tick_interval_ms == 0 {
        Some(ConfigError::ZeroTickInterval)
    } else if c.initial_length == 0 {
        Some(ConfigError::ZeroInitialLength)
    } else if c.height / 2 + c.initial_length > c.height || c.initial_length + 2 > c.width
        * c.height {
        Some(ConfigError::SnakeDoesNotFit)
    } else {
        None
    }
}

/// The snake at the start: its head in the middle of the grid, its body
/// straight below it.
pub open spec fn initial_snake(c: Config) -> Seq<Cell> {
    Seq::new(
        c.initial_length as nat,
        |i: int| Cell { x: (c.width / 2) as u16, y: (c.height / 2 + i) as u16 },
    )
}

/// The state at the start of a session, with food placed by `draw`.
pub open spec fn initial_model(c: Config, draw: u64) -> GameModel {
    GameModel {
        width: c.width as nat,
        height: c.height as nat,
        snake: initial_snake(c),
        heading: Heading::Up,
        food: food_for(initial_snake(c), c.width as nat, c.height as nat, draw),
        score: 0,
        desired_length: c.initial_length as nat,
        phase: Phase::Running,
        tick_interval_ms: c.tick_interval_ms as nat,
        last_update_ms: 0,
        exit: false,
    }
}

/// A running state with no score yet, made of the given parts.
pub open spec fn parts_model(
    width: u16,
    height: u16,
    tick_interval_ms: u64,
    snake: Seq<Cell>,
    heading: Heading,
    food: Cell,
    desired_length: usize,
) -> GameModel {
    GameModel {
        width: width as nat,
        height: height as nat,
        snake,
        heading,
        food,
        score: 0,
        desired_length: desired_length as nat,
        phase: Phase::Running,
        tick_interval_ms: tick_interval_ms as nat,
        last_update_ms: 0,
        exit: false,
    }
}

impl Config {
    /// What is wrong with this configuration, if anything.
    pub fn validate(&self) -> (r: Option<ConfigError>)
        ensures
            r == config_error(*self),
    {
        if self.width == 0 || self.height == 0 {
            Some(ConfigError::EmptyGrid)
        } else if self.tick_interval_ms == 0 {
            Some(ConfigError::ZeroTickInterval)
        } else if self.initial_length == 0 {
            Some(ConfigError::ZeroInitialLength)
        } else if self.height as u32 / 2 + self.initial_length as u32 > self.height as u32
            || self.initial_length as usize + 2 > cell_count(self.width, self.height) {
            Some(ConfigError::SnakeDoesNotFit)
        } else {
            None
        }
    }
}

impl App {
    /// Starts a session with the given settings: the snake of the initial
    /// length heads up from the middle of the grid, and `draw` places the
    /// first food (see `food_for`).
    pub fn new(config: Config, draw: u64) -> (r: Result<App, ConfigError>)
        ensures
            match r {
                Ok(app) => config_error(config).is_none() && app@ == initial_model(config, draw)
                    && app@.wf() && app@.snake.len() == app@.desired_length
                    && !app@.snake.contains(app@.food),
                Err(e) => config_error(config) == Some(e),
            },
    {
        if let Some(e) = config.validate() {
            return Err(e);
        }
        let x = config.width / 2;
        let y0 = config.height / 2;
        let mut snake: VecDeque<Cell> = VecDeque::new();
        let mut i: u16 = 0;
        while i < config.initial_length
            invariant
                config_error(config).is_none(),
                x == config.width / 2,
                y0 == config.height / 2,
                i <= config.initial_length,
                snake@ =~= initial_snake(config).take(i as int),
            decreases config.initial_length - i,
        {
            snake.push_back(Cell { x, y: y0 + i });
            i = i + 1;
        }
        assert(snake@ =~= initial_snake(config));
        let food = place_food(&snake, config.width, config.height, draw);
        let app = App {
            width: config.width,
            height: config.height,
            snake,
            heading: Heading::Up,
            food,
            score: 0,
            desired_length: config.initial_length as usize,
            phase: Phase::Running,
            tick_interval_ms: config.tick_interval_ms,
            last_update_ms: 0,
            exit: false,
        };
        assert(app@.snake.no_duplicates()) by {
            assert forall|a: int, b: int|
                0 <= a < app@.snake.len() && 0 <= b < app@.snake.len() && a != b implies
                app@.snake[a] != app@.snake[b] by {
                assert(app@.snake[a].y == y0 + a);
                assert(app@.snake[b].y == y0 + b);
            }
        }
        Ok(app)
    }

    /// Starts a session with the given settings, placing the first food by a
    /// uniform draw among the free cells.
    pub fn start(config: Config) -> (r: Result<App, ConfigError>)
        ensures
            match r {
                Ok(app) => config_error(config).is_none() && (exists|draw: u64|
                    app@ == #[trigger] initial_model(config, draw)) && app@.wf()
                    && app@.snake.len() == app@.desired_length,
                Err(e) => config_error(config) == Some(e),
            },
    {
        if let Some(e) = config.validate() {
            return Err(e);
        }
        let cells = cell_count(config.width, config.height);
        let draw = random_below((cells - config.initial_length as usize) as u64);
        App::new(config, draw)
    }

    /// A running game with no score yet, made of the given parts, where they
    /// form a valid state: the snake (head first) lies on the grid without
    /// repeating a cell and is no longer than `desired_length`, which leaves at
    /// least two cells of the grid; the food lies on a free cell of the grid.
    pub fn from_parts(
        width: u16,
        height: u16,
        tick_interval_ms: u64,
        snake: &Vec<Cell>,
        heading: Heading,
        food: Cell,
        desired_length: usize,
    ) -> (r: Option<App>)
        ensures
            r.is_some() <==> parts_model(
                width,
                height,
                tick_interval_ms,
                snake@,
                heading,
                food,
                desired_length,
            ).wf(),
            r matches Some(app) ==> app@ == parts_model(
                width,
                height,
                tick_interval_ms,
                snake@,
                heading,
                food,
                desired_length,
            ),
    {
        let ghost m = parts_model(
            width,
            height,
            tick_interval_ms,
            snake@,
            heading,
            food,
            desired_length,
        );
        if width == 0 || height == 0 || tick_interval_ms == 0 {
            return None;
        }
        let cells = cell_count(width, height);
        if snake.len() == 0 || snake.len() > desired_length || desired_length >= cells || cells
            - desired_length < 2 {
            return None;
        }
        if food.x >= width || food.y >= height {
            return None;
        }
        let mut body: VecDeque<Cell> = VecDeque::new();
        let mut i: usize = 0;
        while i < snake.len()
            invariant
                i <= snake@.len(),
                body@ =~= snake@.take(i as int),
                body@.no_duplicates(),
                !body@.contains(food),
                forall|j: int|
                    0 <= j < i ==> cell_in_grid(width as int, height as int, #[trigger] snake@[j]),
            decreases snake@.len() - i,
        {
            let c = snake[i];
            if c.x >= width || c.y >= height {
                return None;
            }
            if c == food {
                assert(snake@[i as int] == food);
                return None;
            }
            assert(body@.subrange(0, body@.len() as int) =~= body@);
            if contains_cell(&body, body.len(), c) {
                assert(!snake@.no_duplicates()) by {
                    let k = choose|k: int| 0 <= k < body@.len() && body@[k] == c;
                    assert(snake@[k] == snake@[i as int]);
                }
                return None;
            }
            proof {
                assert(body@.push(c) =~= snake@.take(i + 1));
                assert forall|a: int, b: int|
                    0 <= a < body@.len() + 1 && 0 <= b < body@.len() + 1 && a != b implies
                    body@.push(c)[a] != body@.push(c)[b] by {
                    if a == body@.len() {
                        assert(body@.contains(body@.push(c)[b]));
                    } else if b == body@.len() {
                        assert(body@.contains(body@.push(c)[a]));
                    }
                }
            }
            body.push_back(c);
            i = i + 1;
        }
        assert(body@ =~= snake@);
        Some(
            App {
                width,
                height,
                snake: body,
                heading,
                food,
                score: 0,
                desired_length,
                phase: Phase::Running,
                tick_interval_ms,
                last_update_ms: 0,
                exit: false,
            },
        )
    }
}

impl App {
    /// The number of columns of the grid.
    pub fn width(&self) -> (r: u16)
        ensures
            r == self@.width,
    {
        self.width
    }

    /// The number of rows of the grid.
    pub fn height(&self) -> (r: u16)
        ensures
            r == self@.height,
    {
        self.height
    }

    /// The snake's cells, head first.
    pub fn snake(&self) -> (r: &VecDeque<Cell>)
        ensures
            r@ == self@.snake,
    {
        &self.snake
    }

    /// The current heading.
    pub fn heading(&self) -> (r: Heading)
        ensures
            r == self@.heading,
    {
        self.heading
    }

    /// The cell of the food.
    pub fn food(&self) -> (r: Cell)
        ensures
            r == self@.food,
    {
        self.food
    }

    /// The number of foods eaten.
    pub fn score(&self) -> (r: u64)
        ensures
            r == self@.score,
    {
        self.score
    }

    /// The length that the snake grows to and is kept at.
    pub fn desired_length(&self) -> (r: usize)
        ensures
            r == self@.desired_length,
    {
        self.desired_length
    }

    /// Whether the game runs, or has been won or lost.
    pub fn phase(&self) -> (r: Phase)
        ensures
            r == self@.phase,
    {
        self.phase
    }

    /// Whether the session should end.
    pub fn exiting(&self) -> (r: bool)
        ensures
            r == self@.exit,
    {
        self.exit
    }

    /// The time of the last tick, in milliseconds since the session started.
    pub fn last_update_ms(&self) -> (r: u64)
        ensures
            r == self@.last_update_ms,
    {
        self.last_update_ms
    }
}

} // verus!
