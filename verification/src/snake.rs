//! The snake: its body, head first, and the direction it moves in.

use vstd::prelude::*;
use crate::geometry::{flat_index, Direction, DirectionName, Position};

verus! {

/// A body is never empty, lies on the board and visits no cell twice.
pub open spec fn is_body(segments: Seq<Position>) -> bool {
    &&& segments.len() >= 1
    &&& forall|i: int| 0 <= i < segments.len() ==> (#[trigger] segments[i]).on_board()
    &&& segments.no_duplicates()
}

/// Some segment has the row-major index `index` on a board `width` cells wide.
pub open spec fn covers(segments: Seq<Position>, index: int, width: int) -> bool {
    exists|i: int|
        0 <= i < segments.len() && flat_index(
            (#[trigger] segments[i]).x as int,
            segments[i].y as int,
            width,
        ) == index
}

/// The body after one step: the new head in front, and the tail given up
/// unless the snake grows.
pub open spec fn advanced(segments: Seq<Position>, head: Position, grow: bool) -> Seq<Position> {
    if grow {
        seq![head] + segments
    } else {
        seq![head] + segments.drop_last()
    }
}

/// A snake on the board. Its body is never empty, lies on the board and
/// covers no cell twice; its direction is one cell along one axis.
pub struct Snake {
    body: Vec<Position>,
    direction: Direction,
}

impl Snake {
    #[verifier::type_invariant]
    pub(crate) open spec fn inv(self) -> bool {
        is_body(self.segments()) && self.heading().is_step()
    }

    /// The body, head first.
    pub closed spec fn segments(&self) -> Seq<Position> {
        self.body@
    }

    /// The direction of the next step.
    pub closed spec fn heading(&self) -> Direction {
        self.direction
    }

    /// A snake of four segments in row 6, its head in column 5, moving right.
    pub fn new() -> (snake: Snake)
        ensures
            snake.segments() == seq![
                Position { x: 5, y: 6 },
                Position { x: 4, y: 6 },
                Position { x: 3, y: 6 },
                Position { x: 2, y: 6 },
            ],
            snake.heading() == (Direction { vx: 1, vy: 0 }),
            is_body(snake.segments()),
    {
        let mut body: Vec<Position> = Vec::new();
        body.push(Position { x: 5, y: 6 });
        body.push(Position { x: 4, y: 6 });
        body.push(Position { x: 3, y: 6 });
        body.push(Position { x: 2, y: 6 });
        assert(body@ =~= seq![
            Position { x: 5, y: 6 },
            Position { x: 4, y: 6 },
            Position { x: 3, y: 6 },
            Position { x: 2, y: 6 },
        ]);
        Snake { body, direction: Direction { vx: 1, vy: 0 } }
    }

    fn set_direction(&mut self, vx: i32, vy: i32)
        requires
            (Direction { vx, vy }).is_step(),
        ensures
            final(self).heading() == (Direction { vx, vy }),
            final(self).segments() == old(self).segments(),
        no_unwind
    {
        proof {
            use_type_invariant(&*self);
        }
        self.direction = Direction { vx, vy };
    }

    /// Turns the snake. A turn back onto the own neck is accepted here; the
    /// next step then runs into the body.
    pub fn set_direction_name(&mut self, direction: DirectionName)
        ensures
            final(self).heading() == direction.velocity(),
            final(self).segments() == old(self).segments(),
        no_unwind
    {
        match direction {
            DirectionName::Up => self.set_direction(0, -1),
            DirectionName::Down => self.set_direction(0, 1),
            DirectionName::Left => self.set_direction(-1, 0),
            DirectionName::Right => self.set_direction(1, 0),
        }
    }

    /// Whether a segment lies on the cell with row-major index `index` of a
    /// board `universe_width` cells wide.
    pub fn has_index(&self, index: u32, universe_width: u32) -> (found: bool)
        ensures
            found == covers(self.segments(), index as int, universe_width as int),
    {
        let mut i: usize = 0;
        while i < self.body.len()
            invariant
                i <= self.body.len(),
                forall|k: int|
                    0 <= k < i ==> flat_index(
                        (#[trigger] self.body@[k]).x as int,
                        self.body@[k].y as int,
                        universe_width as int,
                    ) != index,
            decreases self.body.len() - i,
        {
            let p = self.body[i];
            assert((p.y as u64) * (universe_width as u64) <= 0xffff_ffff * 0xffff_ffff)
                by (nonlinear_arith)
                requires
                    p.y <= 0xffff_ffff,
                    universe_width <= 0xffff_ffff,
            ;
            if (p.y as u64) * (universe_width as u64) + (p.x as u64) == index as u64 {
                return true;
            }
            i = i + 1;
        }
        false
    }

    /// The body, head first.
    pub fn body(&self) -> (body: &Vec<Position>)
        ensures
            body@ == self.segments(),
            is_body(body@),
    {
        proof {
            use_type_invariant(self);
        }
        &self.body
    }

    /// The direction of the next step.
    pub fn direction(&self) -> (direction: Direction)
        ensures
            direction == self.heading(),
            direction.is_step(),
    {
        proof {
            use_type_invariant(self);
        }
        self.direction
    }

    /// The first segment.
    pub fn head(&self) -> (head: Position)
        ensures
            head == self.segments()[0],
            head.on_board(),
    {
        proof {
            use_type_invariant(self);
        }
        self.body[0]
    }

    /// The last segment.
    pub fn tail(&self) -> (tail: Position)
        ensures
            tail == self.segments().last(),
            tail.on_board(),
    {
        proof {
            use_type_invariant(self);
        }
        self.body[self.body.len() - 1]
    }

    /// Number of segments.
    pub fn len(&self) -> (len: usize)
        ensures
            len == self.segments().len(),
            len >= 1,
    {
        proof {
            use_type_invariant(self);
        }
        self.body.len()
    }

    /// Whether a segment lies on `position`.
    pub fn contains(&self, position: Position) -> (found: bool)
        ensures
            found == self.segments().contains(position),
    {
        let mut i: usize = 0;
        while i < self.body.len()
            invariant
                i <= self.body.len(),
                forall|k: int| 0 <= k < i ==> self.body@[k] != position,
            decreases self.body.len() - i,
        {
            if self.body[i] == position {
                return true;
            }
            i = i + 1;
        }
        false
    }

    /// The snake after one step onto `head`.
    pub(crate) fn stepped(&self, head: Position, grow: bool) -> (next: Snake)
        requires
            head.on_board(),
            !self.segments().contains(head),
        ensures
            next.segments() == advanced(self.segments(), head, grow),
            next.heading() == self.heading(),
    {
        proof {
            use_type_invariant(self);
        }
        let kept: usize = if grow {
            self.body.len()
        } else {
            self.body.len() - 1
        };
        let mut body: Vec<Position> = Vec::new();
        body.push(head);
        let mut i: usize = 0;
        while i < kept
            invariant
                i <= kept <= self.body.len(),
                body@ == seq![head] + self.body@.take(i as int),
            decreases kept - i,
        {
            body.push(self.body[i]);
            i = i + 1;
        }
        proof {
            assert(self.body@.take(self.body.len() as int) == self.body@);
            assert(self.body@.take(self.body.len() - 1) == self.body@.drop_last());
            lemma_advanced_is_body(self.body@, head, grow);
        }
        Snake { body, direction: self.direction }
    }
}

/// A step onto a free cell of the board leaves a body a body.
pub proof fn lemma_advanced_is_body(segments: Seq<Position>, head: Position, grow: bool)
    requires
        is_body(segments),
        head.on_board(),
        !segments.contains(head),
    ensures
        is_body(advanced(segments, head, grow)),
        advanced(segments, head, grow).len() == if grow {
            segments.len() + 1
        } else {
            segments.len()
        },
        advanced(segments, head, grow)[0] == head,
{
    let next = advanced(segments, head, grow);
    let rest = if grow {
        segments
    } else {
        segments.drop_last()
    };
    assert(next == seq![head] + rest);
    assert forall|i: int, j: int| 0 <= i < next.len() && 0 <= j < next.len() && i != j implies next[i]
        != next[j] by {
        if i >= 1 {
            assert(next[i] == segments[i - 1]);
        }
        if j >= 1 {
            assert(next[j] == segments[j - 1]);
        }
    }
    assert forall|i: int| 0 <= i < next.len() implies (#[trigger] next[i]).on_board() by {
        if i >= 1 {
            assert(next[i] == segments[i - 1]);
        }
    }
}

/// What a body covers after a step: the new head, and what it covered before
/// but for the tail it gave up.
pub proof fn lemma_advanced_contains(
    segments: Seq<Position>,
    head: Position,
    grow: bool,
    position: Position,
)
    requires
        is_body(segments),
    ensures
        advanced(segments, head, grow).contains(position) <==> (position == head || (
        segments.contains(position) && (grow || position != segments.last()))),
{
    let next = advanced(segments, head, grow);
    let rest = if grow {
        segments
    } else {
        segments.drop_last()
    };
    assert(next == seq![head] + rest);
    if next.contains(position) {
        let k = choose|k: int| 0 <= k < next.len() && next[k] == position;
        if k >= 1 {
            assert(segments[k - 1] == position);
        }
    }
    if position == head {
        assert(next[0] == position);
    }
    if segments.contains(position) && (grow || position != segments.last()) {
        let j = choose|j: int| 0 <= j < segments.len() && segments[j] == position;
        assert(next[j + 1] == position);
    }
}

} // verus!
