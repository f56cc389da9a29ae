//! The board and the game on it: a grid of cells that is kept in step with
//! the snake and the apple from tick to tick.

use vstd::prelude::*;
use vstd::string::StringExecFns;
use crate::fps::{FpsCounter, FpsSample};
use crate::geometry::{
    add_u32_i32, flat_index, lemma_index_of_position, lemma_position_of_index, Cell,
    DirectionName, Position, UniverseTopology, GRID_CELLS, GRID_HEIGHT, GRID_WIDTH,
};
use crate::snake::{covers, Snake};
use crate::world::{
    law_step_valid, lemma_apple_grid, lemma_grid_of_occupants, lemma_step_grid, rendered,
    World, LINE_LEN,
};

verus! {

/// What is left for the driver to do after a tick.
#[derive(Clone, Copy, Debug, PartialEq, Eq)]
pub struct TickOutcome {
    /// The game goes on and the board has no apple: cells are to be offered
    /// to `place_apple` until one is accepted.
    pub needs_apple: bool,
    /// The sample to blend into the running frame rate, if the tick
    /// contributes one.
    pub sample: Option<FpsSample>,
}

/// A game of snake on a board of `GRID_WIDTH` by `GRID_HEIGHT` cells.
///
/// The universe owns the cells, the snake, the apple and the integer side of
/// the frame-rate estimator. Its view is the `World` that the laws speak of;
/// its cells are at all times the grid of that world.
pub struct Universe {
    width: u32,
    height: u32,
    cells: Vec<Cell>,
    snake: Snake,
    apple: Option<Position>,
    game_over: bool,
    topology: UniverseTopology,
    counter: FpsCounter,
}

impl View for Universe {
    type V = World;

    closed spec fn view(&self) -> World {
        World {
            body: self.snake.segments(),
            direction: self.snake.heading(),
            apple: self.apple,
            game_over: self.game_over,
            topology: self.topology,
            frames: self.counter.frames(),
            last_frame: self.counter.last_frame(),
        }
    }
}

/// Marks the cell of a new apple and records the apple, in one move.
fn occupy(cells: &mut Vec<Cell>, apple: &mut Option<Position>, index: usize, position: Position)
    requires
        index < old(cells).len(),
    ensures
        final(cells)@ == old(cells)@.update(index as int, Cell::Alive),
        *final(apple) == Some(position),
    no_unwind
{
    cells[index] = Cell::Alive;
    *apple = Some(position);
}

impl Universe {
    #[verifier::type_invariant]
    closed spec fn inv(self) -> bool {
        &&& self.width == GRID_WIDTH
        &&& self.height == GRID_HEIGHT
        &&& self@.valid()
        &&& self.cells@ == self@.grid()
    }

    fn get_index(&self, row: u32, column: u32) -> (index: usize)
        requires
            row < GRID_HEIGHT,
            column < GRID_WIDTH,
        ensures
            index == (Position { x: column, y: row }).index(),
            index < GRID_CELLS,
    {
        proof {
            use_type_invariant(self);
        }
        (row * self.width + column) as usize
    }

    /// A board of 64 by 64 cells around `snake`, toroidal, with no apple yet
    /// and an estimator made at time `now`.
    pub fn new(snake: Snake, now: u128) -> (universe: Universe)
        ensures
            universe@ == World::initial(snake.segments(), snake.heading(), now),
            universe@.valid(),
            universe.spec_cells() == universe@.grid(),
    {
        let width: u32 = GRID_WIDTH;
        let height: u32 = GRID_HEIGHT;
        let ghost body = snake.segments();
        let direction = snake.direction();
        proof {
            use_type_invariant(&snake);
        }
        let mut cells: Vec<Cell> = Vec::new();
        let mut i: u32 = 0;
        while i < width * height
            invariant
                width == GRID_WIDTH,
                height == GRID_HEIGHT,
                i <= GRID_CELLS,
                cells@.len() == i,
                body == snake.segments(),
                forall|k: int|
                    0 <= k < i ==> #[trigger] cells@[k] == if covers(body, k, GRID_WIDTH as int) {
                        Cell::Alive
                    } else {
                        Cell::Dead
                    },
            decreases GRID_CELLS - i,
        {
            let cell = if snake.has_index(i, width) {
                Cell::Alive
            } else {
                Cell::Dead
            };
            cells.push(cell);
            i = i + 1;
        }
        let counter = FpsCounter::new(now);
        proof {
            let world = World::initial(body, direction, now);
            assert forall|k: int| 0 <= k < GRID_CELLS implies cells@[k] == world.grid()[k] by {
                lemma_position_of_index(k);
                let position = Position::at(k);
                if covers(body, k, GRID_WIDTH as int) {
                    let j = choose|j: int|
                        0 <= j < body.len() && flat_index(
                            (#[trigger] body[j]).x as int,
                            body[j].y as int,
                            GRID_WIDTH as int,
                        ) == k;
                    lemma_index_of_position(body[j]);
                    assert(body[j] == position);
                }
                if body.contains(position) {
                    let j = choose|j: int| 0 <= j < body.len() && body[j] == position;
                    assert(flat_index(body[j].x as int, body[j].y as int, GRID_WIDTH as int) == k);
                }
            }
            assert(cells@ =~= world.grid());
        }
        Universe {
            width,
            height,
            cells,
            snake,
            apple: None,
            game_over: false,
            topology: UniverseTopology::Toroidal,
            counter,
        }
    }

    /// Advances the game by one step at time `now`.
    ///
    /// Nothing happens once the game is over. The game ends, with nothing
    /// else changed, where the step would leave a flat board or run into the
    /// snake. Otherwise the head moves on; the snake grows if it takes the
    /// apple, which then has to be placed anew, and gives up its tail if it
    /// does not. A positive `fps_measurements` advances the estimator.
    pub fn tick(&mut self, fps_measurements: u32, now: u128) -> (outcome: TickOutcome)
        ensures
            final(self)@ == old(self)@.step(fps_measurements, now),
            final(self)@.valid(),
            final(self).spec_cells() == final(self)@.grid(),
            outcome.sample == old(self)@.sample(fps_measurements, now),
            outcome.needs_apple == final(self)@.needs_apple(),
    {
        proof {
            use_type_invariant(&*self);
        }
        if self.game_over {
            return TickOutcome { needs_apple: false, sample: None };
        }
        let head = self.snake.head();
        let direction = self.snake.direction();
        let candidate = match self.topology {
            UniverseTopology::Flat => {
                let x: i64 = head.x as i64 + direction.vx as i64;
                let y: i64 = head.y as i64 + direction.vy as i64;
                if x < 0 || y < 0 || x >= self.width as i64 || y >= self.height as i64 {
                    proof {
                        lemma_grid_of_occupants(self@, World { game_over: true, ..self@ });
                    }
                    self.game_over = true;
                    return TickOutcome { needs_apple: false, sample: None };
                }
                Position { x: x as u32, y: y as u32 }
            },
            UniverseTopology::Toroidal => Position {
                x: add_u32_i32(head.x, direction.vx, self.width),
                y: add_u32_i32(head.y, direction.vy, self.height),
            },
        };
        if self.snake.contains(candidate) {
            proof {
                lemma_grid_of_occupants(self@, World { game_over: true, ..self@ });
            }
            self.game_over = true;
            return TickOutcome { needs_apple: false, sample: None };
        }
        let eats = match self.apple {
            Some(apple) => apple == candidate,
            None => false,
        };
        let mut next = self.cells.clone();
        if !eats {
            let tail = self.snake.tail();
            let vacated = self.get_index(tail.y, tail.x);
            next[vacated] = Cell::Dead;
        }
        let entered = self.get_index(candidate.y, candidate.x);
        next[entered] = Cell::Alive;
        let snake = self.snake.stepped(candidate, eats);
        let mut counter = self.counter;
        let sample = if fps_measurements > 0 {
            counter.tick(fps_measurements, now)
        } else {
            None
        };
        let apple = if eats {
            None
        } else {
            self.apple
        };
        proof {
            lemma_step_grid(old(self)@, fps_measurements, now);
            law_step_valid(old(self)@, fps_measurements, now);
            assert(next@ =~= old(self)@.step(fps_measurements, now).grid());
        }
        *self = Universe {
            width: self.width,
            height: self.height,
            cells: next,
            snake,
            apple,
            game_over: false,
            topology: self.topology,
            counter,
        };
        TickOutcome { needs_apple: apple.is_none(), sample }
    }

    /// Offers the cell in column `x`, row `y` to a board that needs an
    /// apple. A dead cell of the board is taken: it becomes the apple and
    /// comes alive. Any other offer is turned down and changes nothing.
    pub fn place_apple(&mut self, x: u32, y: u32) -> (placed: bool)
        ensures
            placed == old(self)@.accepts_apple(x, y),
            final(self)@ == if placed {
                old(self)@.with_apple(Position { x, y })
            } else {
                old(self)@
            },
            final(self)@.valid(),
            final(self).spec_cells() == final(self)@.grid(),
    {
        proof {
            use_type_invariant(&*self);
        }
        if self.game_over || self.apple.is_some() || x >= self.width || y >= self.height {
            return false;
        }
        let position = Position { x, y };
        let index = self.get_index(y, x);
        proof {
            lemma_index_of_position(position);
            lemma_apple_grid(self@, position);
        }
        match self.cells[index] {
            Cell::Alive => false,
            Cell::Dead => {
                occupy(&mut self.cells, &mut self.apple, index, position);
                true
            },
        }
    }

    /// Whether some cell is dead. A board that needs an apple takes one
    /// exactly as long as this holds; a driver that draws cells at random
    /// has to stop drawing when it does not.
    pub fn has_free_cell(&self) -> (free: bool)
        ensures
            free == self@.has_free_cell(),
    {
        proof {
            use_type_invariant(self);
        }
        let mut i: usize = 0;
        while i < self.cells.len()
            invariant
                i <= self.cells.len(),
                self.cells@ == self@.grid(),
                self.cells@.len() == GRID_CELLS,
                forall|k: int| 0 <= k < i ==> self.cells@[k] != Cell::Dead,
            decreases self.cells.len() - i,
        {
            match self.cells[i] {
                Cell::Dead => {
                    return true;
                },
                Cell::Alive => {},
            }
            i = i + 1;
        }
        false
    }

    /// Turns the snake towards `direction`. Nothing is checked: a turn back
    /// onto the own neck ends the game with the next tick.
    pub fn on_click(&mut self, direction: DirectionName)
        ensures
            final(self)@ == old(self)@.turned(direction),
            final(self)@.valid(),
            final(self).spec_cells() == final(self)@.grid(),
    {
        proof {
            use_type_invariant(&*self);
            lemma_grid_of_occupants(self@, self@.turned(direction));
        }
        self.snake.set_direction_name(direction);
    }

    /// Changes between walls and wrap-around, from the next tick on.
    pub fn toggle_topology(&mut self)
        ensures
            final(self)@ == old(self)@.toggled(),
            final(self)@.valid(),
            final(self).spec_cells() == final(self)@.grid(),
    {
        proof {
            use_type_invariant(&*self);
            lemma_grid_of_occupants(self@, self@.toggled());
        }
        self.topology = match self.topology {
            UniverseTopology::Flat => UniverseTopology::Toroidal,
            UniverseTopology::Toroidal => UniverseTopology::Flat,
        };
    }

    /// The cells that the board holds, row by row.
    pub closed spec fn spec_cells(&self) -> Seq<Cell> {
        self.cells@
    }

    /// Number of columns.
    pub fn width(&self) -> (width: u32)
        ensures
            width == GRID_WIDTH,
    {
        proof {
            use_type_invariant(self);
        }
        self.width
    }

    /// Number of rows.
    pub fn height(&self) -> (height: u32)
        ensures
            height == GRID_HEIGHT,
    {
        proof {
            use_type_invariant(self);
        }
        self.height
    }

    /// The cells, row by row: alive where the snake or the apple is, dead
    /// elsewhere.
    pub fn cells(&self) -> (cells: &[Cell])
        ensures
            cells@ == self.spec_cells(),
            cells@ == self@.grid(),
            cells@.len() == GRID_CELLS,
    {
        proof {
            use_type_invariant(self);
        }
        self.cells.as_slice()
    }

    /// The snake.
    pub fn snake(&self) -> (snake: &Snake)
        ensures
            snake.segments() == self@.body,
            snake.heading() == self@.direction,
    {
        &self.snake
    }

    /// The apple, if the board has one.
    pub fn apple(&self) -> (apple: Option<Position>)
        ensures
            apple == self@.apple,
    {
        self.apple
    }

    /// Whether the game goes on and the board has no apple.
    pub fn needs_apple(&self) -> (needed: bool)
        ensures
            needed == self@.needs_apple(),
    {
        !self.game_over && self.apple.is_none()
    }

    /// Whether the game has ended.
    pub fn is_game_over(&self) -> (over: bool)
        ensures
            over == self@.game_over,
    {
        self.game_over
    }

    /// How the board treats its edges.
    pub fn topology(&self) -> (topology: UniverseTopology)
        ensures
            topology == self@.topology,
    {
        self.topology
    }

    /// The integer side of the frame-rate estimator.
    pub fn counter(&self) -> (counter: FpsCounter)
        ensures
            counter.frames() == self@.frames,
            counter.last_frame() == self@.last_frame,
    {
        self.counter
    }

    /// The board as text: a line for each row, a glyph for each cell, a
    /// line break after each row.
    pub fn render(&self) -> (text: String)
        ensures
            text@ == rendered(self@.grid()),
    {
        proof {
            use_type_invariant(self);
        }
        let ghost whole = rendered(self@.grid());
        let mut text = String::new();
        let mut row: u32 = 0;
        while row < self.height
            invariant
                self.height == GRID_HEIGHT,
                self.width == GRID_WIDTH,
                self.cells@ == self@.grid(),
                whole == rendered(self@.grid()),
                row <= GRID_HEIGHT,
                text@ == whole.take(row * LINE_LEN),
            decreases GRID_HEIGHT - row,
        {
            let mut column: u32 = 0;
            while column < self.width
                invariant
                    self.height == GRID_HEIGHT,
                    self.width == GRID_WIDTH,
                    self.cells@ == self@.grid(),
                    whole == rendered(self@.grid()),
                    row < GRID_HEIGHT,
                    column <= GRID_WIDTH,
                    text@ == whole.take(row * LINE_LEN + column),
                decreases GRID_WIDTH - column,
            {
                let index = self.get_index(row, column);
                let ghost at = row * LINE_LEN + column;
                match self.cells[index] {
                    Cell::Dead => text.append("\u{25FB}"),
                    Cell::Alive => text.append("\u{25FC}"),
                }
                proof {
                    reveal_strlit("\u{25FB}");
                    reveal_strlit("\u{25FC}");
                    assert(at % (LINE_LEN as int) == column && at / (LINE_LEN as int) == row);
                    assert(text@ =~= whole.take(at + 1));
                }
                column = column + 1;
            }
            let ghost at = row * LINE_LEN + GRID_WIDTH;
            text.append("\n");
            proof {
                reveal_strlit("\n");
                assert(at % (LINE_LEN as int) == GRID_WIDTH as int);
                assert(text@ =~= whole.take((row + 1) * LINE_LEN));
            }
            row = row + 1;
        }
        assert(whole.take(GRID_HEIGHT * LINE_LEN) =~= whole);
        text
    }
}

} // verus!
