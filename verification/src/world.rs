//! The game as mathematics: the state of a world, the step it takes on a
//! tick, and what holds of every step.

use vstd::prelude::*;
use crate::fps::{counted, sample_at, FpsSample};
use crate::geometry::{
    lemma_index_of_position, lemma_position_of_index, wrapped, Cell, Direction, DirectionName,
    Position, UniverseTopology, GRID_CELLS, GRID_HEIGHT, GRID_WIDTH,
};
use crate::snake::{advanced, is_body, lemma_advanced_contains, lemma_advanced_is_body};

verus! {

/// The state of a game.
pub struct World {
    /// The snake's body, head first.
    pub body: Seq<Position>,
    /// The direction of the snake's next step.
    pub direction: Direction,
    /// The apple, once one has been placed.
    pub apple: Option<Position>,
    /// The game has ended; nothing moves any more.
    pub game_over: bool,
    /// How the board treats its edges.
    pub topology: UniverseTopology,
    /// Number of times the frame-rate estimator was advanced.
    pub frames: u32,
    /// When the frame-rate estimator was last advanced.
    pub last_frame: u128,
}

/// What can happen to a world.
pub enum Event {
    /// A tick at time `now`.
    Tick { fps_measurements: u32, now: u128 },
    /// The cell in column `x`, row `y` is offered for the apple.
    Apple { x: u32, y: u32 },
    /// The player chooses a direction.
    Click { direction: DirectionName },
    /// The topology is changed.
    ToggleTopology,
}

/// The glyph that a cell is drawn with.
pub open spec fn glyph(cell: Cell) -> char {
    match cell {
        Cell::Dead => '\u{25FB}',
        Cell::Alive => '\u{25FC}',
    }
}

/// Number of characters of a drawn row, its line break included.
pub const LINE_LEN: u32 = 65;

/// The board as text: one line per row, one glyph per cell, each line closed
/// by a line break.
pub open spec fn rendered(cells: Seq<Cell>) -> Seq<char> {
    Seq::new(
        (GRID_HEIGHT * LINE_LEN) as nat,
        |i: int|
            if i % (LINE_LEN as int) == GRID_WIDTH as int {
                '\n'
            } else {
                glyph(cells[(i / (LINE_LEN as int)) * GRID_WIDTH + i % (LINE_LEN as int)])
            },
    )
}

impl World {
    /// A world that has just been made around a snake.
    pub open spec fn initial(body: Seq<Position>, direction: Direction, now: u128) -> World {
        World {
            body,
            direction,
            apple: None,
            game_over: false,
            topology: UniverseTopology::Toroidal,
            frames: 0,
            last_frame: now,
        }
    }

    /// The snake is a snake, and the apple lies on a cell of the board that
    /// the snake does not cover.
    pub open spec fn valid(self) -> bool {
        &&& is_body(self.body)
        &&& self.direction.is_step()
        &&& self.apple matches Some(apple) ==> apple.on_board() && !self.body.contains(apple)
    }

    /// A segment of the snake or the apple lies on `position`.
    pub open spec fn occupied(self, position: Position) -> bool {
        self.body.contains(position) || self.apple == Some(position)
    }

    /// The cells of the board, row by row: alive where the snake or the
    /// apple is, dead elsewhere.
    pub open spec fn grid(self) -> Seq<Cell> {
        Seq::new(
            GRID_CELLS as nat,
            |i: int|
                if self.occupied(Position::at(i)) {
                    Cell::Alive
                } else {
                    Cell::Dead
                },
        )
    }

    /// Where the head would be after one step; nowhere if the step leaves a
    /// flat board.
    pub open spec fn candidate(self) -> Option<Position> {
        let head = self.body[0];
        match self.topology {
            UniverseTopology::Flat => {
                let x = head.x + self.direction.vx;
                let y = head.y + self.direction.vy;
                if 0 <= x < GRID_WIDTH && 0 <= y < GRID_HEIGHT {
                    Some(Position { x: x as u32, y: y as u32 })
                } else {
                    None
                }
            },
            UniverseTopology::Toroidal => Some(
                Position {
                    x: wrapped(head.x, self.direction.vx, GRID_WIDTH) as u32,
                    y: wrapped(head.y, self.direction.vy, GRID_HEIGHT) as u32,
                },
            ),
        }
    }

    /// The next step ends the game: it leaves the board or runs into the
    /// body, the tail included.
    pub open spec fn crashes(self) -> bool {
        match self.candidate() {
            Some(head) => self.body.contains(head),
            None => true,
        }
    }

    /// The next step takes the apple.
    pub open spec fn eats(self) -> bool {
        !self.crashes() && self.apple == self.candidate()
    }

    /// The game goes on and the board has no apple.
    pub open spec fn needs_apple(self) -> bool {
        !self.game_over && self.apple is None
    }

    /// The world after a tick at time `now`.
    ///
    /// A world whose game is over stays as it is. A step that crashes ends
    /// the game and changes nothing else. Otherwise the head moves onto the
    /// candidate cell; the snake takes the apple there and grows, or gives up
    /// its tail; and the estimator is advanced if `fps_measurements` is
    /// positive.
    pub open spec fn step(self, fps_measurements: u32, now: u128) -> World {
        if self.game_over {
            self
        } else if self.crashes() {
            World { game_over: true, ..self }
        } else {
            World {
                body: advanced(self.body, self.candidate().unwrap(), self.eats()),
                apple: if self.eats() {
                    None
                } else {
                    self.apple
                },
                frames: if fps_measurements > 0 {
                    counted(self.frames)
                } else {
                    self.frames
                },
                last_frame: if fps_measurements > 0 {
                    now
                } else {
                    self.last_frame
                },
                ..self
            }
        }
    }

    /// The sample that a tick at time `now` contributes to the running
    /// frame rate.
    pub open spec fn sample(self, fps_measurements: u32, now: u128) -> Option<FpsSample> {
        if !self.game_over && !self.crashes() && fps_measurements > 0 {
            sample_at(self.frames, self.last_frame, fps_measurements, now)
        } else {
            None
        }
    }

    /// An apple may be placed on column `x`, row `y`: one is needed, and the
    /// cell is a dead cell of the board.
    pub open spec fn accepts_apple(self, x: u32, y: u32) -> bool {
        &&& self.needs_apple()
        &&& (Position { x, y }).on_board()
        &&& !self.body.contains(Position { x, y })
    }

    /// The world with an apple on `position`.
    pub open spec fn with_apple(self, position: Position) -> World {
        World { apple: Some(position), ..self }
    }

    /// The world after the player chose a direction.
    pub open spec fn turned(self, direction: DirectionName) -> World {
        World { direction: direction.velocity(), ..self }
    }

    /// The world with the other topology.
    pub open spec fn toggled(self) -> World {
        World { topology: self.topology.flipped(), ..self }
    }

    /// The world after `event`. An apple that is not accepted changes nothing.
    pub open spec fn apply(self, event: Event) -> World {
        match event {
            Event::Tick { fps_measurements, now } => self.step(fps_measurements, now),
            Event::Apple { x, y } => if self.accepts_apple(x, y) {
                self.with_apple(Position { x, y })
            } else {
                self
            },
            Event::Click { direction } => self.turned(direction),
            Event::ToggleTopology => self.toggled(),
        }
    }

    /// The world after `events`, the first of them first.
    pub open spec fn run(self, events: Seq<Event>) -> World
        decreases events.len(),
    {
        if events.len() == 0 {
            self
        } else {
            self.run(events.drop_last()).apply(events.last())
        }
    }

    /// Some cell of the board is dead.
    pub open spec fn has_free_cell(self) -> bool {
        exists|i: int| 0 <= i < GRID_CELLS && #[trigger] self.grid()[i] == Cell::Dead
    }
}

/// A cell of the board is alive exactly where a segment of the snake or the
/// apple lies.
pub proof fn law_cell_alive_iff_occupied(world: World, position: Position)
    requires
        position.on_board(),
    ensures
        0 <= position.index() < world.grid().len(),
        world.grid()[position.index()] == Cell::Alive <==> world.body.contains(position)
            || world.apple == Some(position),
        world.grid()[position.index()] == Cell::Dead <==> !world.occupied(position),
{
    lemma_index_of_position(position);
}

/// The cells are told by the snake's body and the apple alone.
pub proof fn lemma_grid_of_occupants(a: World, b: World)
    requires
        a.body == b.body,
        a.apple == b.apple,
    ensures
        a.grid() == b.grid(),
{
    assert(a.grid() =~= b.grid());
}

/// A world made around a snake is valid and has no apple.
pub proof fn law_initial_valid(body: Seq<Position>, direction: Direction, now: u128)
    requires
        is_body(body),
        direction.is_step(),
    ensures
        World::initial(body, direction, now).valid(),
        World::initial(body, direction, now).needs_apple(),
{
}

/// Where a step goes, if it goes anywhere, is a cell of the board.
pub proof fn lemma_candidate_on_board(world: World)
    requires
        world.valid(),
    ensures
        world.candidate() matches Some(head) ==> head.on_board(),
{
}

/// Every tick leaves a valid world valid.
pub proof fn law_step_valid(world: World, fps_measurements: u32, now: u128)
    requires
        world.valid(),
    ensures
        world.step(fps_measurements, now).valid(),
{
    if !world.game_over && !world.crashes() {
        let head = world.candidate().unwrap();
        let next = world.step(fps_measurements, now);
        lemma_candidate_on_board(world);
        lemma_advanced_is_body(world.body, head, world.eats());
        if let Some(apple) = next.apple {
            lemma_advanced_contains(world.body, head, world.eats(), apple);
        }
    }
}

/// Whatever happens to a valid world leaves it valid.
pub proof fn law_apply_valid(world: World, event: Event)
    requires
        world.valid(),
    ensures
        world.apply(event).valid(),
{
    if let Event::Tick { fps_measurements, now } = event {
        law_step_valid(world, fps_measurements, now);
    }
}

/// Every world that a game can reach is valid: the snake is never empty,
/// lies on the board and covers no cell twice, and the apple lies on the
/// board and off the snake. With `law_cell_alive_iff_occupied`, each of its
/// cells is alive exactly where the snake or the apple is.
pub proof fn law_reachable_valid(
    body: Seq<Position>,
    direction: Direction,
    now: u128,
    events: Seq<Event>,
)
    requires
        is_body(body),
        direction.is_step(),
    ensures
        World::initial(body, direction, now).run(events).valid(),
    decreases events.len(),
{
    let start = World::initial(body, direction, now);
    if events.len() > 0 {
        law_reachable_valid(body, direction, now, events.drop_last());
        law_apply_valid(start.run(events.drop_last()), events.last());
    }
}

/// The cells after a step that does not crash: the cell of the new head is
/// alive, the cell of a tail that was given up is dead, and every other cell
/// is as it was.
pub proof fn lemma_step_grid(world: World, fps_measurements: u32, now: u128)
    requires
        world.valid(),
        !world.game_over,
        !world.crashes(),
    ensures
        world.eats() ==> world.step(fps_measurements, now).grid() == world.grid(),
        !world.eats() ==> world.step(fps_measurements, now).grid() == world.grid().update(
            world.body.last().index(),
            Cell::Dead,
        ).update(world.candidate().unwrap().index(), Cell::Alive),
{
    let head = world.candidate().unwrap();
    let tail = world.body.last();
    let next = world.step(fps_measurements, now);
    lemma_candidate_on_board(world);
    lemma_index_of_position(head);
    lemma_index_of_position(tail);
    let painted = if world.eats() {
        world.grid()
    } else {
        world.grid().update(tail.index(), Cell::Dead).update(head.index(), Cell::Alive)
    };
    assert forall|i: int| 0 <= i < GRID_CELLS implies next.grid()[i] == painted[i] by {
        let position = Position::at(i);
        lemma_position_of_index(i);
        lemma_advanced_contains(world.body, head, world.eats(), position);
    }
    assert(next.grid() =~= painted);
}

/// The cells after an apple was placed: its cell is alive, and every other
/// cell is as it was.
pub proof fn lemma_apple_grid(world: World, position: Position)
    requires
        position.on_board(),
        world.apple is None,
    ensures
        world.with_apple(position).grid() == world.grid().update(position.index(), Cell::Alive),
{
    let next = world.with_apple(position);
    let painted = world.grid().update(position.index(), Cell::Alive);
    lemma_index_of_position(position);
    assert forall|i: int| 0 <= i < GRID_CELLS implies next.grid()[i] == painted[i] by {
        lemma_position_of_index(i);
    }
    assert(next.grid() =~= painted);
}

/// On a toroidal board every step arrives on the board: one cell further
/// along its axis, or at the opposite edge where it leaves the board.
pub proof fn law_toroidal_wrap(world: World)
    requires
        world.valid(),
        world.topology == UniverseTopology::Toroidal,
    ensures
        world.candidate() is Some,
        world.candidate().unwrap().on_board(),
        world.direction == DirectionName::Right.velocity() ==> world.candidate().unwrap() == (
        Position {
            x: if world.body[0].x == GRID_WIDTH - 1 {
                0
            } else {
                (world.body[0].x + 1) as u32
            },
            y: world.body[0].y,
        }),
        world.direction == DirectionName::Left.velocity() ==> world.candidate().unwrap() == (
        Position {
            x: if world.body[0].x == 0 {
                (GRID_WIDTH - 1) as u32
            } else {
                (world.body[0].x - 1) as u32
            },
            y: world.body[0].y,
        }),
        world.direction == DirectionName::Down.velocity() ==> world.candidate().unwrap() == (
        Position {
            x: world.body[0].x,
            y: if world.body[0].y == GRID_HEIGHT - 1 {
                0
            } else {
                (world.body[0].y + 1) as u32
            },
        }),
        world.direction == DirectionName::Up.velocity() ==> world.candidate().unwrap() == (
        Position {
            x: world.body[0].x,
            y: if world.body[0].y == 0 {
                (GRID_HEIGHT - 1) as u32
            } else {
                (world.body[0].y - 1) as u32
            },
        }),
{
}

/// On a flat board a step off an edge ends the game: the game is over, and
/// the snake, the apple, the cells and the estimator are as they were.
pub proof fn law_flat_edge_ends_game(world: World, fps_measurements: u32, now: u128)
    requires
        world.valid(),
        !world.game_over,
        world.topology == UniverseTopology::Flat,
        ({
            let head = world.body[0];
            ||| head.x == GRID_WIDTH - 1 && world.direction == DirectionName::Right.velocity()
            ||| head.x == 0 && world.direction == DirectionName::Left.velocity()
            ||| head.y == GRID_HEIGHT - 1 && world.direction == DirectionName::Down.velocity()
            ||| head.y == 0 && world.direction == DirectionName::Up.velocity()
        }),
    ensures
        world.candidate() is None,
        world.step(fps_measurements, now) == (World { game_over: true, ..world }),
        world.step(fps_measurements, now).grid() == world.grid(),
        world.sample(fps_measurements, now) is None,
{
    lemma_grid_of_occupants(world, world.step(fps_measurements, now));
}

/// A step onto the apple: the snake grows by its new head and keeps its
/// tail, no cell changes, and the board is left without an apple.
pub proof fn law_eating_grows(world: World, fps_measurements: u32, now: u128)
    requires
        world.valid(),
        !world.game_over,
        world.candidate() is Some,
        world.apple == world.candidate(),
    ensures
        world.eats(),
        world.step(fps_measurements, now).body == seq![world.apple.unwrap()] + world.body,
        world.step(fps_measurements, now).body.len() == world.body.len() + 1,
        world.step(fps_measurements, now).apple is None,
        world.step(fps_measurements, now).needs_apple(),
        world.step(fps_measurements, now).grid() == world.grid(),
{
    lemma_step_grid(world, fps_measurements, now);
}

/// An apple is accepted on a dead cell only, and only where the board has
/// none. Its cell comes alive, every other cell stays as it was, and no
/// further apple is accepted.
pub proof fn law_apple_on_dead_cell(world: World, x: u32, y: u32)
    requires
        world.valid(),
        world.accepts_apple(x, y),
    ensures
        world.apple is None,
        world.grid()[(Position { x, y }).index()] == Cell::Dead,
        world.with_apple(Position { x, y }).apple == Some(Position { x, y }),
        world.with_apple(Position { x, y }).grid() == world.grid().update(
            (Position { x, y }).index(),
            Cell::Alive,
        ),
        world.with_apple(Position { x, y }).valid(),
        forall|x2: u32, y2: u32| !#[trigger] world.with_apple(Position { x, y }).accepts_apple(x2, y2),
{
    let position = Position { x, y };
    lemma_index_of_position(position);
    lemma_apple_grid(world, position);
}

/// A board that needs an apple can take one exactly as long as it has a dead
/// cell. Once the snake fills the board, every offer is turned down.
pub proof fn law_free_cell_iff_apple_fits(world: World)
    requires
        world.valid(),
        world.needs_apple(),
    ensures
        world.has_free_cell() <==> exists|x: u32, y: u32| #[trigger] world.accepts_apple(x, y),
{
    if world.has_free_cell() {
        let i = choose|i: int| 0 <= i < GRID_CELLS && #[trigger] world.grid()[i] == Cell::Dead;
        lemma_position_of_index(i);
        let position = Position::at(i);
        assert(world.accepts_apple(position.x, position.y));
    }
    if exists|x: u32, y: u32| #[trigger] world.accepts_apple(x, y) {
        let (x, y) = choose|x: u32, y: u32| #[trigger] world.accepts_apple(x, y);
        let position = Position { x, y };
        lemma_index_of_position(position);
        assert(world.grid()[position.index()] == Cell::Dead);
    }
}

/// A step onto a cell without apple: the snake keeps its length, the cell
/// that the tail leaves is dead, the cell that the head enters is alive, and
/// the apple stays.
pub proof fn law_move_keeps_length(world: World, fps_measurements: u32, now: u128)
    requires
        world.valid(),
        !world.game_over,
        !world.crashes(),
        world.apple != world.candidate(),
    ensures
        !world.eats(),
        world.step(fps_measurements, now).body.len() == world.body.len(),
        world.step(fps_measurements, now).body[0] == world.candidate().unwrap(),
        world.step(fps_measurements, now).apple == world.apple,
        world.step(fps_measurements, now).grid()[world.body.last().index()] == Cell::Dead,
        world.step(fps_measurements, now).grid()[world.candidate().unwrap().index()]
            == Cell::Alive,
        forall|i: int|
            0 <= i < GRID_CELLS && i != world.body.last().index() && i
                != world.candidate().unwrap().index() ==> #[trigger] world.step(
                fps_measurements,
                now,
            ).grid()[i] == world.grid()[i],
{
    let head = world.candidate().unwrap();
    lemma_candidate_on_board(world);
    lemma_index_of_position(head);
    lemma_index_of_position(world.body.last());
    lemma_step_grid(world, fps_measurements, now);
}

/// A step onto the snake's own body ends the game: the game is over, and
/// the snake, the apple, the cells and the estimator are as they were.
pub proof fn law_collision_ends_game(world: World, fps_measurements: u32, now: u128)
    requires
        !world.game_over,
        world.candidate() is Some,
        world.body.contains(world.candidate().unwrap()),
    ensures
        world.step(fps_measurements, now) == (World { game_over: true, ..world }),
        world.step(fps_measurements, now).grid() == world.grid(),
        world.sample(fps_measurements, now) is None,
{
    lemma_grid_of_occupants(world, world.step(fps_measurements, now));
}

/// Once the game is over a tick changes nothing, however often it comes.
pub proof fn law_game_over_is_final(world: World, fps_measurements: u32, now: u128)
    requires
        world.game_over,
    ensures
        world.step(fps_measurements, now) == world,
        world.step(fps_measurements, now).game_over,
        world.sample(fps_measurements, now) is None,
        !world.step(fps_measurements, now).needs_apple(),
{
}

/// Once the game is over, no run of ticks and offered apples changes
/// anything: the snake, the apple, the cells and the estimator stay as they
/// are.
pub proof fn law_game_over_absorbs(world: World, events: Seq<Event>)
    requires
        world.game_over,
        forall|i: int|
            0 <= i < events.len() ==> (#[trigger] events[i] is Tick || events[i] is Apple),
    ensures
        world.run(events) == world,
        world.run(events).grid() == world.grid(),
    decreases events.len(),
{
    if events.len() > 0 {
        law_game_over_absorbs(world, events.drop_last());
    }
}

/// The text of a board has one line for each row. A line holds one glyph
/// for each cell of its row, in order, and ends in a line break.
pub proof fn law_render_shape(cells: Seq<Cell>, row: int, column: int)
    requires
        0 <= row < GRID_HEIGHT,
        0 <= column < GRID_WIDTH,
    ensures
        LINE_LEN == GRID_WIDTH + 1,
        rendered(cells).len() == GRID_HEIGHT * LINE_LEN,
        rendered(cells)[row * LINE_LEN + column] == glyph(cells[row * GRID_WIDTH + column]),
        rendered(cells)[row * LINE_LEN + GRID_WIDTH] == '\n',
        glyph(Cell::Dead) != glyph(Cell::Alive),
        glyph(Cell::Dead) != '\n',
        glyph(Cell::Alive) != '\n',
{
    let at = row * LINE_LEN + column;
    assert(at % (LINE_LEN as int) == column && at / (LINE_LEN as int) == row);
    let end = row * LINE_LEN + GRID_WIDTH;
    assert(end % (LINE_LEN as int) == GRID_WIDTH as int);
}

} // verus!
