//! The world: the snake, its direction, the staged head, the reward and the
//! game's status, with the operations that drive them.

use crate::grid::{
    lemma_neighbor_inverse, lemma_neighbor_stays_on_line, neighbor, neighbor_index, opposite,
    valid_board, Direction,
};
use vstd::prelude::*;

verus! {

/// Status of a game that has started.  A game that has not started yet has
/// no status (`None`).
#[derive(Clone, Copy, Debug, PartialEq, Eq, Structural)]
pub enum GameStatus {
    Won,
    Lost,
    Played,
}

/// One segment of the snake: the index of the cell it occupies.
#[derive(Clone, Copy, Debug, PartialEq, Eq, Structural)]
pub struct SnakeCell(pub usize);

/// Why a world cannot be built.
#[derive(Clone, Copy, Debug, PartialEq, Eq, Structural)]
pub enum WorldError {
    /// The board has side length zero.
    ZeroWidth,
    /// The board has more cells than a `usize` can index.
    BoardTooLarge,
    /// The spawn cell is off the board, or has fewer than two cells before it
    /// for the rest of the initial body.
    SpawnOutOfRange,
}

/// Length of the snake when a world is built.
pub const INITIAL_LENGTH: usize = 3;

struct Snake {
    body: Vec<SnakeCell>,
    direction: Direction,
}

/// Cell indices of a sequence of segments, in the same order.
pub open spec fn cell_indices(s: Seq<SnakeCell>) -> Seq<usize> {
    s.map_values(|c: SnakeCell| c.0)
}

/// Which status changes the game allows: none, the start of play, and the
/// end of play by a win or a loss.
pub open spec fn status_follows(before: Option<GameStatus>, after: Option<GameStatus>) -> bool {
    ||| before == after
    ||| before is None && after == Some(GameStatus::Played)
    ||| before == Some(GameStatus::Played) && (after == Some(GameStatus::Won) || after == Some(
        GameStatus::Lost,
    ))
}

/// Text shown to the player for a status.
pub open spec fn status_text(s: Option<GameStatus>) -> Seq<char> {
    match s {
        Some(GameStatus::Won) => "You have won!"@,
        Some(GameStatus::Lost) => "You have lost!"@,
        Some(GameStatus::Played) => "Playing"@,
        None => "No Status"@,
    }
}

impl Snake {
    spec fn cells(&self) -> Seq<usize> {
        cell_indices(self.body@)
    }

    /// A snake of `length` consecutive cells whose head is `spawn_index` and
    /// whose body trails to lower indices, heading right.
    fn new(spawn_index: usize, length: usize) -> (r: Snake)
        requires
            length <= spawn_index + 1,
        ensures
            r.cells().len() == length,
            forall|i: int| 0 <= i < length ==> #[trigger] r.cells()[i] == spawn_index - i,
            r.direction == Direction::Right,
    {
        let mut body: Vec<SnakeCell> = Vec::new();
        for i in 0..length
            invariant
                length <= spawn_index + 1,
                body@.len() == i,
                forall|j: int| 0 <= j < i ==> #[trigger] body@[j].0 == spawn_index - j,
        {
            body.push(SnakeCell(spawn_index - i));
        }
        Snake { body, direction: Direction::Right }
    }
}

/// The whole state of one game on a square board of side `width`.
pub struct World {
    width: usize,
    size: usize,
    snake: Snake,
    next_cell: Option<SnakeCell>,
    reward_cell: Option<usize>,
    status: Option<GameStatus>,
}

impl World {
    /// Side length of the board.
    pub closed spec fn board_width(&self) -> int {
        self.width as int
    }

    /// Number of cells on the board.
    pub closed spec fn board_size(&self) -> int {
        self.size as int
    }

    /// Cells of the snake, head first.
    pub closed spec fn cells(&self) -> Seq<usize> {
        self.snake.cells()
    }

    /// Direction the snake moves in on the next step.
    pub closed spec fn heading(&self) -> Direction {
        self.snake.direction
    }

    /// Head cell staged by the last accepted change of direction, if any.
    pub closed spec fn staged_head(&self) -> Option<usize> {
        match self.next_cell {
            Some(c) => Some(c.0),
            None => None,
        }
    }

    /// Cell of the reward, if one is on the board.
    pub closed spec fn reward(&self) -> Option<usize> {
        self.reward_cell
    }

    /// Status of the game.
    pub closed spec fn status(&self) -> Option<GameStatus> {
        self.status
    }

    /// Head cell of the snake.
    pub open spec fn head(&self) -> usize {
        self.cells()[0]
    }

    /// Cell the head moves to on the next step if nothing changes.
    pub open spec fn next_head(&self) -> int {
        neighbor(self.head() as int, self.board_width(), self.heading())
    }

    /// A turn towards `d` is refused: it would move the head onto the
    /// segment right behind it.
    pub open spec fn rejects_turn(&self, d: Direction) -> bool {
        self.cells().len() > 1 && neighbor(self.head() as int, self.board_width(), d)
            == self.cells()[1] as int
    }

    /// The reward is missing while the board still has room for one, so a
    /// new one must be placed.
    pub open spec fn reward_wanted(&self) -> bool {
        self.reward() is None && self.cells().len() < self.board_size()
    }

    /// Cells of the snake after it moves its head to `h`: every segment takes
    /// the place of the one ahead of it and the tail cell is left.
    pub open spec fn moved_cells(&self, h: usize) -> Seq<usize> {
        seq![h] + self.cells().take(self.cells().len() - 1)
    }

    /// What stays true of a world through all of its operations.
    pub open spec fn wf(&self) -> bool {
        &&& valid_board(self.board_width())
        &&& self.board_size() == self.board_width() * self.board_width()
        &&& 0 < self.cells().len() <= self.board_size()
        &&& forall|i: int|
            0 <= i < self.cells().len() ==> #[trigger] self.cells()[i] < self.board_size()
        &&& self.staged_head() matches Some(h) ==> h == self.next_head()
        &&& self.reward() matches Some(r) ==> {
            &&& r < self.board_size()
            &&& !self.cells().contains(r)
            &&& self.cells().len() < self.board_size()
        }
        &&& (self.cells().len() == self.board_size()) == (self.status() == Some(GameStatus::Won))
    }
}

impl World {
    /// A world on a board of side `width` with a snake of three cells whose
    /// head is `spawn_idx`, heading right, before the game starts.  No reward
    /// is on the board yet: one is placed through `offer_reward_cell`.
    pub fn new(width: usize, spawn_idx: usize) -> (r: Result<World, WorldError>)
        ensures
            width == 0 <==> r == Err::<World, WorldError>(WorldError::ZeroWidth),
            width > 0 && width * width > usize::MAX <==> r == Err::<World, WorldError>(
                WorldError::BoardTooLarge,
            ),
            valid_board(width as int) && (spawn_idx >= width * width || spawn_idx + 1
                < INITIAL_LENGTH) <==> r == Err::<World, WorldError>(WorldError::SpawnOutOfRange),
            r is Ok <==> valid_board(width as int) && INITIAL_LENGTH <= spawn_idx + 1 && spawn_idx
                < width * width,
            r matches Ok(w) ==> {
                &&& w.wf()
                &&& w.board_width() == width
                &&& w.cells() == seq![spawn_idx, (spawn_idx - 1) as usize, (spawn_idx - 2) as usize]
                &&& w.heading() == Direction::Right
                &&& w.staged_head() is None
                &&& w.reward() is None
                &&& w.status() is None
            },
    {
        if width == 0 {
            return Err(WorldError::ZeroWidth);
        }
        let size = match width.checked_mul(width) {
            Some(s) => s,
            None => {
                return Err(WorldError::BoardTooLarge);
            },
        };
        if spawn_idx >= size || spawn_idx < INITIAL_LENGTH - 1 {
            return Err(WorldError::SpawnOutOfRange);
        }
        let snake = Snake::new(spawn_idx, INITIAL_LENGTH);
        assert(size >= 4) by (nonlinear_arith)
            requires
                size == width * width,
                spawn_idx < size,
                spawn_idx >= 2,
        ;
        let w = World {
            width,
            size,
            snake,
            next_cell: None,
            reward_cell: None,
            status: None,
        };
        assert(w.cells() =~= seq![spawn_idx, (spawn_idx - 1) as usize, (spawn_idx - 2) as usize]);
        Ok(w)
    }

    /// Side length of the board.
    pub fn width(&self) -> (r: usize)
        requires
            self.wf(),
        ensures
            r == self.board_width(),
    {
        self.width
    }

    /// Number of cells on the board.
    pub fn size(&self) -> (r: usize)
        requires
            self.wf(),
        ensures
            r == self.board_size(),
    {
        self.size
    }

    /// Cell of the reward, or `None` while no reward is on the board.
    pub fn reward_cell(&self) -> (r: Option<usize>)
        requires
            self.wf(),
        ensures
            r == self.reward(),
    {
        self.reward_cell
    }

    /// Cell of the snake's head.
    pub fn snake_head_idx(&self) -> (r: usize)
        requires
            self.wf(),
        ensures
            r == self.head(),
    {
        self.snake.body[0].0
    }

    /// Starts a game that has not started; does nothing otherwise.
    pub fn start_game(&mut self)
        requires
            old(self).wf(),
        ensures
            final(self).wf(),
            status_follows(old(self).status(), final(self).status()),
            old(self).status() is None ==> final(self).status() == Some(GameStatus::Played),
            old(self).status() is Some ==> final(self).status() == old(self).status(),
            final(self).cells() == old(self).cells(),
            final(self).board_width() == old(self).board_width(),
            final(self).heading() == old(self).heading(),
            final(self).staged_head() == old(self).staged_head(),
            final(self).reward() == old(self).reward(),
    {
        if self.status.is_none() {
            self.status = Some(GameStatus::Played);
        }
    }

    /// Status of the game; `None` before it starts.
    pub fn game_status(&self) -> (r: Option<GameStatus>)
        requires
            self.wf(),
        ensures
            r == self.status(),
    {
        self.status
    }

    /// Text for the player that describes the status of the game.
    pub fn game_status_text(&self) -> (r: String)
        requires
            self.wf(),
        ensures
            r@ == status_text(self.status()),
    {
        match self.status {
            Some(GameStatus::Won) => "You have won!".to_owned(),
            Some(GameStatus::Lost) => "You have lost!".to_owned(),
            Some(GameStatus::Played) => "Playing".to_owned(),
            None => "No Status".to_owned(),
        }
    }

    /// Number of segments of the snake.
    pub fn snake_length(&self) -> (r: usize)
        requires
            self.wf(),
        ensures
            r == self.cells().len(),
    {
        self.snake.body.len()
    }

    /// The snake's segments, head first.
    pub fn snake_cells(&self) -> (r: &[SnakeCell])
        requires
            self.wf(),
        ensures
            cell_indices(r@) == self.cells(),
    {
        self.snake.body.as_slice()
    }
}

impl World {
    /// Cell next to the head in `direction`, wrapping at the board's edges.
    fn gen_next_snake_cell(&self, direction: Direction) -> (r: SnakeCell)
        requires
            self.wf(),
        ensures
            r.0 == neighbor(self.head() as int, self.board_width(), direction),
            r.0 < self.board_size(),
    {
        assert(self.cells()[0] < self.board_size());
        SnakeCell(neighbor_index(self.snake.body[0].0, self.width, direction))
    }

    /// Turns the snake towards `direction` for the next step, unless that
    /// would move the head onto the segment right behind it, in which case
    /// the request is ignored.
    pub fn change_snake_dir(&mut self, direction: Direction)
        requires
            old(self).wf(),
        ensures
            final(self).wf(),
            old(self).rejects_turn(direction) ==> *final(self) == *old(self),
            !old(self).rejects_turn(direction) ==> {
                &&& final(self).heading() == direction
                &&& final(self).staged_head() == Some(
                    neighbor(old(self).head() as int, old(self).board_width(), direction) as usize,
                )
            },
            final(self).cells() == old(self).cells(),
            final(self).board_width() == old(self).board_width(),
            final(self).reward() == old(self).reward(),
            final(self).status() == old(self).status(),
    {
        let next_cell = self.gen_next_snake_cell(direction);
        if self.snake.body.len() > 1 && self.snake.body[1].0 == next_cell.0 {
            return;
        }
        self.next_cell = Some(next_cell);
        self.snake.direction = direction;
    }

    /// Whether `idx` is a cell of the snake.
    fn body_contains(&self, idx: usize) -> (r: bool)
        requires
            self.wf(),
        ensures
            r == self.cells().contains(idx),
    {
        let n = self.snake.body.len();
        for i in 0..n
            invariant
                n == self.cells().len(),
                forall|j: int| 0 <= j < i ==> #[trigger] self.cells()[j] != idx,
        {
            if self.snake.body[i].0 == idx {
                assert(self.cells()[i as int] == idx);
                return true;
            }
        }
        false
    }

    /// Whether a reward has to be placed: none is on the board and a free
    /// cell is left for one.
    pub fn needs_reward(&self) -> (r: bool)
        requires
            self.wf(),
        ensures
            r == self.reward_wanted(),
    {
        self.reward_cell.is_none() && self.snake.body.len() < self.size
    }

    /// Offers `candidate`, drawn uniformly from the board's cells, as the cell
    /// of the next reward.  It is taken when a reward is wanted and the cell
    /// is on the board and free of the snake; otherwise nothing changes and
    /// the caller draws again.  Repeating this until it returns `true` places
    /// the reward by rejection sampling.
    pub fn offer_reward_cell(&mut self, candidate: usize) -> (r: bool)
        requires
            old(self).wf(),
        ensures
            final(self).wf(),
            r == (old(self).reward_wanted() && candidate < old(self).board_size()
                && !old(self).cells().contains(candidate)),
            r ==> final(self).reward() == Some(candidate),
            !r ==> final(self).reward() == old(self).reward(),
            final(self).cells() == old(self).cells(),
            final(self).board_width() == old(self).board_width(),
            final(self).heading() == old(self).heading(),
            final(self).staged_head() == old(self).staged_head(),
            final(self).status() == old(self).status(),
    {
        if !self.needs_reward() || candidate >= self.size || self.body_contains(candidate) {
            return false;
        }
        self.reward_cell = Some(candidate);
        true
    }
}

impl World {
    /// Advances a game in play by one tick; does nothing in any other status.
    ///
    /// The head moves to the staged cell, or else to the next cell in the
    /// current direction, and every other segment takes the place of the one
    /// ahead of it.  When the head reaches the reward, the snake grows by a
    /// segment inserted right behind the head at the head's previous cell,
    /// and the reward is used up; if the snake then fills the board, the game
    /// is won.
    pub fn step(&mut self)
        requires
            old(self).wf(),
        ensures
            final(self).wf(),
            status_follows(old(self).status(), final(self).status()),
            old(self).status() != Some(GameStatus::Played) ==> *final(self) == *old(self),
            old(self).status() == Some(GameStatus::Played) ==> {
                let h = old(self).next_head() as usize;
                let moved = old(self).moved_cells(h);
                &&& final(self).board_width() == old(self).board_width()
                &&& final(self).heading() == old(self).heading()
                &&& final(self).staged_head() is None
                &&& if old(self).reward() == Some(h) {
                    &&& final(self).cells() == moved.insert(1, old(self).head())
                    &&& final(self).reward() is None
                    &&& final(self).status() == if final(self).cells().len()
                        == old(self).board_size() {
                        Some(GameStatus::Won)
                    } else {
                        Some(GameStatus::Played)
                    }
                } else {
                    &&& final(self).cells() == moved
                    &&& final(self).reward() == old(self).reward()
                    &&& final(self).status() == old(self).status()
                }
            },
            old(self).status() == Some(GameStatus::Played) && final(self).cells().len() > 1
                ==> final(self).head() as int == neighbor(
                final(self).cells()[1] as int,
                final(self).board_width(),
                final(self).heading(),
            ),
            old(self).status() == Some(GameStatus::Played) && old(self).reward() == Some(
                old(self).next_head() as usize,
            ) ==> {
                &&& final(self).cells().len() == old(self).cells().len() + 1
                &&& final(self).cells()[1] == old(self).head()
            },
    {
        match self.status {
            Some(GameStatus::Played) => {
                let old_head = self.snake.body[0];
                proof {
                    assert(self.head() < self.size);
                    lemma_neighbor_stays_on_line(
                        self.head() as int,
                        self.width as int,
                        self.snake.direction,
                    );
                }
                let new_head = match self.next_cell {
                    Some(cell) => {
                        self.next_cell = None;
                        cell
                    },
                    None => self.gen_next_snake_cell(self.snake.direction),
                };
                let ghost before = self.cells();
                self.snake.body.insert(0, new_head);
                self.snake.body.pop();
                let ghost moved = seq![new_head.0] + before.take(before.len() - 1);
                assert(self.cells() =~= moved);
                assert forall|i: int| 0 <= i < moved.len() implies #[trigger] moved[i]
                    < self.size by {
                    if i > 0 {
                        assert(moved[i] == before[i - 1]);
                    }
                }
                let eaten = match self.reward_cell {
                    Some(r) => r == new_head.0,
                    None => false,
                };
                if eaten {
                    self.snake.body.insert(1, old_head);
                    assert(self.cells() =~= moved.insert(1, old_head.0));
                    assert forall|i: int| 0 <= i < self.cells().len() implies #[trigger] self.cells()[i]
                        < self.size by {
                        if i > 1 {
                            assert(self.cells()[i] == moved[i - 1]);
                        }
                    }
                    self.reward_cell = None;
                    if self.snake.body.len() >= self.size {
                        self.status = Some(GameStatus::Won);
                    }
                } else {
                    proof {
                        if let Some(r) = self.reward_cell {
                            assert forall|i: int| 0 <= i < moved.len() implies moved[i] != r by {
                                if i > 0 {
                                    assert(moved[i] == before[i - 1]);
                                }
                            }
                        }
                    }
                }
            },
            _ => {},
        }
    }
}

/// The reward never lies on the snake: every operation keeps `wf`, and `wf`
/// keeps the reward's cell free of the snake's cells.
pub proof fn lemma_reward_off_snake(w: &World)
    requires
        w.wf(),
    ensures
        w.reward() matches Some(r) ==> !w.cells().contains(r),
{
}

/// The game is won exactly when the snake fills the board.
pub proof fn lemma_full_board_is_won(w: &World)
    requires
        w.wf(),
    ensures
        w.cells().len() == w.board_size() <==> w.status() == Some(GameStatus::Won),
        w.cells().len() <= w.board_size(),
{
}

/// When the head has just moved in direction `d` from the segment behind
/// it, a turn to the opposite direction is refused, so it leaves the
/// direction and the staged head as they are.
pub proof fn lemma_reversal_rejected(w: &World, d: Direction)
    requires
        w.wf(),
        w.cells().len() > 1,
        w.head() as int == neighbor(w.cells()[1] as int, w.board_width(), d),
    ensures
        w.rejects_turn(opposite(d)),
{
    assert(w.cells()[1] < w.board_size());
    lemma_neighbor_inverse(w.cells()[1] as int, w.board_width(), d);
}

} // verus!
