//! The game as mathematics: a state made of plain values, and what each
//! move does to it. The executable game is specified against this model.

use crate::pos::{direction_left, Pos};
use vstd::arithmetic::div_mod::lemma_fundamental_div_mod_converse;
use vstd::prelude::*;

verus! {

/// On a grid of `width` columns and `height` rows that is numbered column
/// by column, the cell in column `x` and row `y` has the number
/// `x * height + y`, and the number gives the column and the row back.
pub proof fn lemma_grid_index(width: int, height: int, x: int, y: int)
    requires
        0 <= x < width,
        0 <= y < height,
    ensures
        0 <= x * height + y < width * height,
        (x * height + y) / height == x,
        (x * height + y) % height == y,
{
    assert(0 <= x * height && x * height + height <= width * height) by (nonlinear_arith)
        requires
            0 <= x < width,
            0 <= height,
    ;
    lemma_fundamental_div_mod_converse(x * height + y, height, x, y);
}

/// The state of a game as plain mathematical values.
pub struct GameView {
    /// Number of columns of the arena.
    pub width: nat,
    /// Number of rows of the arena.
    pub height: nat,
    /// Edge of one cell on screen, in pixels.
    pub tilesize: nat,
    /// Number of looks the food can take.
    pub food_variants: nat,
    /// The body, head first.
    pub snake: Seq<Pos>,
    /// Where the food lies.
    pub food: Pos,
    /// Which look the food has, if one was chosen.
    pub food_variant: Option<nat>,
    /// The cell to append to the body at the next tick, after a meal.
    pub pending_growth: Option<Pos>,
    /// The step the head takes at the next tick.
    pub direction: Pos,
    /// Whether the body moves at a tick.
    pub alive: bool,
}

impl GameView {
    /// The state made of the given parts: alive, with no growth pending and
    /// no look chosen for the food.
    pub open spec fn from_parts(
        width: nat,
        height: nat,
        tilesize: nat,
        food_variants: nat,
        snake: Seq<Pos>,
        direction: Pos,
        food: Pos,
    ) -> GameView {
        GameView {
            width,
            height,
            tilesize,
            food_variants,
            snake,
            food,
            food_variant: None,
            pending_growth: None,
            direction,
            alive: true,
        }
    }

    /// A game before its first snake and its first food are set out.
    pub open spec fn blank(width: nat, height: nat, tilesize: nat, food_variants: nat) -> GameView {
        GameView::from_parts(
            width,
            height,
            tilesize,
            food_variants,
            Seq::empty(),
            direction_left(),
            Pos(0, 0),
        )
    }

    /// Whether `p` is a cell of the arena.
    pub open spec fn in_arena(self, p: Pos) -> bool {
        0 <= p.0 < self.width && 0 <= p.1 < self.height
    }

    /// The arena has room for the starting cell and one more, its
    /// coordinates fit in an `i32`, and the food has at least one look.
    pub open spec fn valid_arena(self) -> bool {
        &&& 2 <= self.width <= i32::MAX
        &&& 1 <= self.height <= i32::MAX
        &&& 1 <= self.food_variants
    }

    /// The state between two moves: a valid arena, a body of at least one
    /// segment that lies inside it together with the food and the pending
    /// growth, a look among those on offer, and a unit step as direction.
    pub open spec fn wf(self) -> bool {
        &&& self.valid_arena()
        &&& self.snake.len() >= 1
        &&& forall|i: int| 0 <= i < self.snake.len() ==> self.in_arena(#[trigger] self.snake[i])
        &&& self.in_arena(self.food)
        &&& self.pending_growth matches Some(p) ==> self.in_arena(p)
        &&& self.food_variant matches Some(k) ==> k < self.food_variants
        &&& self.direction.is_direction()
    }

    /// What the moves keep true of a game, whenever it is looked at: a
    /// living snake occupies no cell twice, a pending growth is the last
    /// segment of the body, and the food does not lie on the tail.
    pub open spec fn coherent(self) -> bool {
        &&& self.alive ==> self.snake.no_duplicates()
        &&& self.pending_growth matches Some(p) ==> p == self.snake.last()
        &&& !self.tail().contains(self.food)
    }

    /// A coherent game whose food does not lie under the head either, so
    /// that the food is on no segment of the body. This is the state after
    /// the snake was given the chance to eat.
    pub open spec fn settled(self) -> bool {
        self.coherent() && self.head() != self.food
    }

    /// The first segment of the body.
    pub open spec fn head(self) -> Pos {
        self.snake[0]
    }

    /// The body without its head.
    pub open spec fn tail(self) -> Seq<Pos> {
        self.snake.skip(1)
    }

    /// The head left the arena or ran into the tail.
    pub open spec fn is_dead(self) -> bool {
        !self.in_arena(self.head()) || self.tail().contains(self.head())
    }

    /// Every cell of the arena, column by column, each column from the top.
    pub open spec fn cells(self) -> Seq<Pos> {
        Seq::new(
            self.width * self.height,
            |k: int| Pos((k / self.height as int) as i32, (k % self.height as int) as i32),
        )
    }

    /// The test for a cell that no segment of the body occupies.
    pub open spec fn off_snake(self) -> spec_fn(Pos) -> bool {
        |p: Pos| !self.snake.contains(p)
    }

    /// The cells of the arena that the body does not occupy, in the order
    /// of [`GameView::cells`].
    pub open spec fn free_cells(self) -> Seq<Pos> {
        self.cells().filter(self.off_snake())
    }

    /// The cell where a new snake starts.
    pub open spec fn start(self) -> Pos {
        Pos((self.width - 2) as i32, (self.height / 2) as i32)
    }

    /// How much longer the body gets at the next tick: one segment after a
    /// meal, none otherwise.
    pub open spec fn growth(self) -> nat {
        if self.pending_growth is Some {
            1
        } else {
            0
        }
    }

    /// The state after the body has moved and grown, before the check for a
    /// collision. A living snake gains a head one step ahead and loses its
    /// last segment; then the pending growth, if any, is appended.
    pub open spec fn advance(self) -> GameView {
        let moved = if self.alive {
            seq![self.head().plus(self.direction)] + self.snake.drop_last()
        } else {
            self.snake
        };
        let grown = match self.pending_growth {
            Some(p) => moved.push(p),
            None => moved,
        };
        GameView { snake: grown, pending_growth: None, ..self }
    }

    /// A new snake of one segment on the starting cell, alive and heading
    /// left, with no growth pending. The food is not yet placed anew.
    pub open spec fn reset(self) -> GameView {
        GameView {
            snake: seq![self.start()],
            direction: direction_left(),
            alive: true,
            pending_growth: None,
            ..self
        }
    }

    /// The state after a meal is noted: the last segment is to be appended
    /// at the next tick.
    pub open spec fn fed(self) -> GameView {
        GameView { pending_growth: Some(self.snake.last()), ..self }
    }

    /// The state after `direction` was asked for: it becomes the direction
    /// unless it is the exact reverse of the current one.
    pub open spec fn steer(self, direction: Pos) -> GameView {
        if direction.is_reverse_of(self.direction) {
            self
        } else {
            GameView { direction, ..self }
        }
    }

    /// The state with the food on the free cell of index `cell` and with
    /// the look `variant`.
    pub open spec fn with_food(self, cell: int, variant: nat) -> GameView {
        GameView { food: self.free_cells()[cell], food_variant: Some(variant), ..self }
    }

    /// Whether food can be placed: the coordinates of every cell fit in an
    /// `i32`, some cell is free, and there is a look to give.
    pub open spec fn has_room(self) -> bool {
        &&& self.width <= i32::MAX
        &&& self.height <= i32::MAX
        &&& self.free_cells().len() > 0
        &&& self.food_variants > 0
    }

    /// Whether this state is `before` with the food placed anew: on one of
    /// the free cells of `before`, with one of its looks, and nothing else
    /// changed.
    pub open spec fn has_fresh_food(self, before: GameView) -> bool {
        &&& self == GameView { food: self.food, food_variant: self.food_variant, ..before }
        &&& before.free_cells().contains(self.food)
        &&& self.food_variant matches Some(k) && k < before.food_variants
    }

    /// Moving keeps the length of the body, and a pending growth adds one
    /// segment to it.
    pub proof fn lemma_advance_length(self)
        requires
            self.snake.len() >= 1,
        ensures
            self.advance().snake.len() == self.snake.len() + self.growth(),
    {
    }

    /// The food of a settled game is on no segment of the body.
    pub proof fn lemma_settled_food_off_snake(self)
        requires
            self.snake.len() >= 1,
            self.settled(),
        ensures
            !self.snake.contains(self.food),
    {
        if self.snake.contains(self.food) {
            let i = self.snake.lemma_contains_to_index(self.food);
            assert(self.tail()[i - 1] == self.food);
        }
    }

    /// A game whose food is on no segment of the body is settled as soon
    /// as it is coherent but for the place of the food.
    pub proof fn lemma_food_off_snake_settles(self)
        requires
            self.snake.len() >= 1,
            self.alive ==> self.snake.no_duplicates(),
            self.pending_growth matches Some(p) ==> p == self.snake.last(),
            !self.snake.contains(self.food),
        ensures
            self.settled(),
    {
        if self.tail().contains(self.food) {
            let i = self.tail().lemma_contains_to_index(self.food);
            assert(self.snake[i + 1] == self.food);
        }
    }

    /// Moving and growing keeps a game coherent: if the game was settled
    /// and the snake survives the step, then the body still occupies no
    /// cell twice while alive, and the food is not on the new tail.
    pub proof fn lemma_advance_coherent(self)
        requires
            self.snake.len() >= 1,
            self.settled(),
            !self.advance().is_dead(),
        ensures
            self.advance().coherent(),
    {
        let next = self.advance();
        let body = next.snake;
        self.lemma_settled_food_off_snake();
        // Every segment of the new tail is a segment of the old body.
        assert forall|i: int| 1 <= i < body.len() implies self.snake.contains(
            #[trigger] body[i],
        ) by {
            if self.alive {
                if i < self.snake.len() {
                    assert(body[i] == self.snake[i - 1]);
                } else {
                    assert(body[i] == self.snake.last());
                }
            } else {
                if i < self.snake.len() {
                    assert(body[i] == self.snake[i]);
                } else {
                    assert(body[i] == self.snake.last());
                }
            }
        }
        if next.tail().contains(next.food) {
            let i = next.tail().lemma_contains_to_index(next.food);
            assert(body[i + 1] == next.food);
        }
        if self.alive {
            assert forall|i: int, j: int|
                0 <= i < body.len() && 0 <= j < body.len() && i != j implies body[i]
                != body[j] by {
                if i == 0 {
                    assert(next.tail()[j - 1] == body[j]);
                } else if j == 0 {
                    assert(next.tail()[i - 1] == body[i]);
                } else {
                    // Both lie in the old body, one place further back.
                    assert(body[i] == self.snake[i - 1]);
                    assert(body[j] == self.snake[j - 1]);
                }
            }
        }
    }

    /// After a reset some cell is free: the arena has at least two cells and
    /// the new snake occupies one.
    pub proof fn lemma_reset_has_room(self)
        requires
            self.valid_arena(),
        ensures
            self.reset().has_room(),
            self.reset().in_arena(self.start()),
    {
        let fresh = self.reset();
        let other = Pos((self.width - 1) as i32, (self.height / 2) as i32);
        fresh.lemma_free_cells();
        assert(fresh.free_cells().contains(other));
    }

    /// The cell `(x, y)` of the arena stands at index `x * height + y` of
    /// [`GameView::cells`].
    pub proof fn lemma_cell_index(self, x: int, y: int)
        requires
            0 <= x < self.width <= i32::MAX,
            0 <= y < self.height <= i32::MAX,
        ensures
            0 <= x * self.height + y < self.cells().len(),
            self.cells()[x * self.height + y] == Pos(x as i32, y as i32),
    {
        lemma_grid_index(self.width as int, self.height as int, x, y);
    }

    /// Every element of [`GameView::cells`] is a cell of the arena.
    pub proof fn lemma_cells_in_arena(self, k: int)
        requires
            self.width <= i32::MAX,
            self.height <= i32::MAX,
            0 <= k < self.cells().len(),
        ensures
            self.in_arena(self.cells()[k]),
    {
        let h = self.height as int;
        let w = self.width as int;
        assert(h > 0) by (nonlinear_arith)
            requires
                0 <= k < w * h,
                0 <= w,
                0 <= h,
        ;
        assert(0 <= k / h < w && 0 <= k % h < h) by (nonlinear_arith)
            requires
                0 <= k < w * h,
                0 < h,
        ;
    }

    /// The free cells are exactly the cells of the arena that the body
    /// does not occupy.
    pub proof fn lemma_free_cells(self)
        requires
            self.width <= i32::MAX,
            self.height <= i32::MAX,
        ensures
            forall|p: Pos|
                #[trigger] self.free_cells().contains(p) <==> self.in_arena(p)
                    && !self.snake.contains(p),
    {
        let cells = self.cells();
        let free = self.free_cells();
        let pred = self.off_snake();
        assert forall|p: Pos| #[trigger] free.contains(p) implies self.in_arena(p)
            && !self.snake.contains(p) by {
            let i = choose|i: int| 0 <= i < free.len() && free[i] == p;
            cells.lemma_filter_pred(pred, i);
            cells.lemma_filter_contains_rev(pred, p);
            let k = choose|k: int| 0 <= k < cells.len() && cells[k] == p;
            self.lemma_cells_in_arena(k);
        }
        assert forall|p: Pos| self.in_arena(p) && !self.snake.contains(p) implies #[trigger] free.contains(
            p,
        ) by {
            self.lemma_cell_index(p.0 as int, p.1 as int);
            let k = p.0 * self.height + p.1;
            cells.lemma_filter_contains(pred, k);
        }
    }
}

} // verus!
