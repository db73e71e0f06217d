//! The game itself: the state that a program holds and the moves it makes.

use crate::model::GameView;
use crate::pos::{direction_down, direction_left, direction_right, direction_up, pos, Pos};
use crate::rng::index_below;
use rand::thread_rng;
use vstd::prelude::*;

verus! {

/// A game of snake on a rectangular arena.
///
/// The body is a list of cells, head first. At each [`SnakeGame::tick`] the
/// head advances one cell in the current direction and the rest follows;
/// after a meal the body keeps the cell it would have left. A snake that
/// leaves the arena or bites itself is replaced by a new one.
#[derive(Debug)]
pub struct SnakeGame {
    pub(crate) width: usize,
    pub(crate) height: usize,
    pub(crate) snake: Vec<Pos>,
    pub(crate) food: Pos,
    pub(crate) tilesize: usize,
    pub(crate) add_next_tick: Option<Pos>,
    pub(crate) food_variants: usize,
    pub(crate) food_variant: Option<usize>,
    pub(crate) alive: bool,
    pub(crate) direction: Pos,
}

impl View for SnakeGame {
    type V = GameView;

    open(crate) spec fn view(&self) -> GameView {
        GameView {
            width: self.width as nat,
            height: self.height as nat,
            tilesize: self.tilesize as nat,
            food_variants: self.food_variants as nat,
            snake: self.snake@,
            food: self.food,
            food_variant: match self.food_variant {
                Some(k) => Some(k as nat),
                None => None,
            },
            pending_growth: self.add_next_tick,
            direction: self.direction,
            alive: self.alive,
        }
    }
}

/// Whether `p` is one of `cells`.
fn occupies(cells: &Vec<Pos>, p: Pos) -> (found: bool)
    ensures
        found == cells@.contains(p),
{
    let mut i: usize = 0;
    while i < cells.len()
        invariant
            i <= cells.len(),
            forall|j: int| 0 <= j < i ==> cells@[j] != p,
        decreases cells.len() - i,
    {
        if cells[i] == p {
            return true;
        }
        i += 1;
    }
    false
}

impl SnakeGame {
    /// Starts a game on an arena of `width` by `height` cells, drawn with
    /// cells of `tilesize` pixels and with `food_variants` looks for the
    /// food. The snake is one segment on the starting cell, heading left,
    /// and the food lies on a free cell picked at random.
    ///
    /// The arena must hold the starting cell and a cell for the food, so it
    /// is at least two cells wide and one high; its sides must fit in an
    /// `i32`; and the food needs at least one look.
    pub fn new(
        width: usize,
        height: usize,
        tilesize: usize,
        food_variants: usize,
    ) -> (game: SnakeGame)
        requires
            2 <= width <= i32::MAX,
            1 <= height <= i32::MAX,
            1 <= food_variants,
        ensures
            game@.has_fresh_food(
                GameView::blank(
                    width as nat,
                    height as nat,
                    tilesize as nat,
                    food_variants as nat,
                ).reset(),
            ),
            game@.wf(),
            game@.settled(),
    {
        let mut res = SnakeGame {
            width,
            height,
            snake: vec![pos((width - 2) as i32, (height / 2) as i32)],
            food: Pos(0, 0),
            direction: direction_left(),
            tilesize,
            alive: true,
            add_next_tick: None,
            food_variants,
            food_variant: None,
        };
        proof {
            let blank = GameView::blank(
                width as nat,
                height as nat,
                tilesize as nat,
                food_variants as nat,
            );
            assert(res@.snake =~= blank.reset().snake);
            blank.lemma_reset_has_room();
        }
        res.gen_food();
        res
    }

    /// Takes up a game from its parts: the arena, the body (head first),
    /// the direction and the food. The snake is alive, no growth is pending
    /// and the food has no look yet.
    ///
    /// The result is `None` unless the parts make a well-formed state: an
    /// arena as [`SnakeGame::new`] asks for, a body of at least one segment,
    /// every segment and the food inside the arena, and one of the four
    /// unit steps as direction.
    pub fn from_parts(
        width: usize,
        height: usize,
        tilesize: usize,
        food_variants: usize,
        snake: Vec<Pos>,
        direction: Pos,
        food: Pos,
    ) -> (game: Option<SnakeGame>)
        ensures
            game is Some <==> GameView::from_parts(
                width as nat,
                height as nat,
                tilesize as nat,
                food_variants as nat,
                snake@,
                direction,
                food,
            ).wf(),
            game matches Some(g) ==> g@ == GameView::from_parts(
                width as nat,
                height as nat,
                tilesize as nat,
                food_variants as nat,
                snake@,
                direction,
                food,
            ),
    {
        let game = SnakeGame {
            width,
            height,
            snake,
            food,
            direction,
            tilesize,
            alive: true,
            add_next_tick: None,
            food_variants,
            food_variant: None,
        };
        if width < 2 || width > i32::MAX as usize || height < 1 || height > i32::MAX as usize
            || food_variants < 1 {
            return None;
        }
        if game.snake.len() == 0 || !game.within(food) {
            return None;
        }
        if direction != direction_right() && direction != direction_left() && direction
            != direction_up() && direction != direction_down() {
            return None;
        }
        let mut i: usize = 0;
        while i < game.snake.len()
            invariant
                i <= game.snake.len(),
                game@ == GameView::from_parts(
                    width as nat,
                    height as nat,
                    tilesize as nat,
                    food_variants as nat,
                    snake@,
                    direction,
                    food,
                ),
                forall|j: int| 0 <= j < i ==> game@.in_arena(#[trigger] game@.snake[j]),
            decreases game.snake.len() - i,
        {
            if !game.within(game.snake[i]) {
                return None;
            }
            i += 1;
        }
        Some(game)
    }

    /// Whether `p` is a cell of the arena.
    fn within(&self, p: Pos) -> (inside: bool)
        ensures
            inside == self@.in_arena(p),
    {
        0 <= p.0 && (p.0 as usize) < self.width && 0 <= p.1 && (p.1 as usize) < self.height
    }

    /// Number of columns of the arena.
    pub fn width(&self) -> (width: usize)
        ensures
            width == self@.width,
    {
        self.width
    }

    /// Number of rows of the arena.
    pub fn height(&self) -> (height: usize)
        ensures
            height == self@.height,
    {
        self.height
    }

    /// Edge of one cell on screen, in pixels.
    pub fn tilesize(&self) -> (tilesize: usize)
        ensures
            tilesize == self@.tilesize,
    {
        self.tilesize
    }

    /// The body, head first.
    pub fn snake(&self) -> (snake: &Vec<Pos>)
        ensures
            snake@ == self@.snake,
    {
        &self.snake
    }

    /// Where the food lies.
    pub fn food(&self) -> (food: Pos)
        ensures
            food == self@.food,
    {
        self.food
    }

    /// The step the head takes at the next tick.
    pub fn direction(&self) -> (direction: Pos)
        ensures
            direction == self@.direction,
    {
        self.direction
    }

    /// Whether the body moves at a tick.
    pub fn alive(&self) -> (alive: bool)
        ensures
            alive == self@.alive,
    {
        self.alive
    }

    /// Which look the food has, if one was chosen.
    pub fn food_variant(&self) -> (variant: Option<usize>)
        ensures
            match variant {
                Some(k) => self@.food_variant == Some(k as nat),
                None => self@.food_variant is None,
            },
    {
        self.food_variant
    }

    /// The cell that the next tick appends to the body, after a meal.
    pub fn pending_growth(&self) -> (pending: Option<Pos>)
        ensures
            pending == self@.pending_growth,
    {
        self.add_next_tick
    }

    /// Stops the body, or lets it move again. A stopped body stays where it
    /// is at a tick, but still grows and still dies.
    pub fn set_alive(&mut self, alive: bool)
        ensures
            final(self)@ == (GameView { alive, ..old(self)@ }),
    {
        self.alive = alive;
    }

    /// The first segment of the body, which must not be empty.
    pub fn head(&self) -> (head: &Pos)
        requires
            self@.snake.len() > 0,
        ensures
            *head == self@.head(),
    {
        &self.snake[0]
    }

    /// The segments behind the head, in order. The body must not be empty.
    pub fn tail(&self) -> (tail: Vec<&Pos>)
        requires
            self@.snake.len() > 0,
        ensures
            tail@.len() == self@.tail().len(),
            forall|i: int| 0 <= i < tail@.len() ==> *tail@[i] == self@.tail()[i],
    {
        let mut tail: Vec<&Pos> = vec![];
        for i in 1..self.snake.len()
            invariant
                tail@.len() == i - 1,
                forall|j: int| 0 <= j < tail@.len() ==> *tail@[j] == self.snake@[j + 1],
        {
            tail.push(&self.snake[i]);
        }
        tail
    }

    /// Whether the snake has died: its head lies outside the arena or on a
    /// segment of its own tail. The body must not be empty.
    pub fn dead(&self) -> (dead: bool)
        requires
            self@.snake.len() > 0,
        ensures
            dead == self@.is_dead(),
    {
        let head = self.head();
        if head.0 < 0 || head.0 as usize >= self.width {
            return true;
        }
        if head.1 < 0 || head.1 as usize >= self.height {
            return true;
        }
        let tail = self.tail();
        let mut i: usize = 0;
        while i < tail.len()
            invariant
                i <= tail.len(),
                *head == self@.head(),
                tail@.len() == self@.tail().len(),
                forall|j: int| 0 <= j < tail@.len() ==> *tail@[j] == self@.tail()[j],
                forall|j: int| 0 <= j < i ==> self@.tail()[j] != *head,
            decreases tail.len() - i,
        {
            if *head == *tail[i] {
                return true;
            }
            i += 1;
        }
        false
    }

    /// Asks for a new direction, one of the four unit steps. A request to
    /// turn straight back, one that sums with the current direction to
    /// `(0, 0)`, is ignored.
    pub fn input(&mut self, direction: Pos)
        requires
            old(self)@.direction.is_direction(),
            direction.is_direction(),
        ensures
            final(self)@ == old(self)@.steer(direction),
            direction.is_reverse_of(old(self)@.direction) ==> final(self)@ == old(self)@,
            final(self)@.direction.is_direction(),
            !final(self)@.direction.is_reverse_of(old(self)@.direction),
            old(self)@.wf() ==> final(self)@.wf(),
            old(self)@.coherent() ==> final(self)@.coherent(),
            old(self)@.settled() ==> final(self)@.settled(),
    {
        if self.direction + direction == Pos(0, 0) {
            return;
        }
        self.direction = direction;
    }

    /// The cells of the arena that the body does not occupy, column by
    /// column, each column from the top. The sides of the arena must fit in
    /// an `i32`.
    pub fn empties(&self) -> (empties: Vec<Pos>)
        requires
            self@.width <= i32::MAX,
            self@.height <= i32::MAX,
        ensures
            empties@ == self@.free_cells(),
    {
        let mut empties: Vec<Pos> = vec![];
        let ghost cells = self@.cells();
        let ghost free = self@.off_snake();
        proof {
            assert(cells.take(0 * self.height) =~= Seq::<Pos>::empty());
        }
        for i in 0..self.width
            invariant
                self@.width <= i32::MAX,
                self@.height <= i32::MAX,
                cells == self@.cells(),
                free == self@.off_snake(),
                empties@ == cells.take(i * self.height).filter(free),
        {
            for c in 0..self.height
                invariant
                    i < self.width <= i32::MAX,
                    self@.height <= i32::MAX,
                    cells == self@.cells(),
                    free == self@.off_snake(),
                    empties@ == cells.take(i * self.height + c).filter(free),
            {
                let cell = Pos(i as i32, c as i32);
                proof {
                    let k = i * self.height + c;
                    self@.lemma_cell_index(i as int, c as int);
                    assert(cells.take(k + 1) =~= cells.take(k).push(cell));
                    cells.take(k).lemma_filter_push(cell, free);
                }
                if !occupies(&self.snake, cell) {
                    empties.push(cell);
                }
            }
            proof {
                assert(i * self.height + self.height == (i + 1) * self.height) by (nonlinear_arith);
            }
        }
        proof {
            assert(cells.take(self.width * self.height) =~= cells);
        }
        empties
    }

    /// Puts the food on the free cell of index `cell`, counted in the order
    /// of [`SnakeGame::empties`], and gives it the look `variant`. There
    /// must be such a cell and such a look.
    pub fn place_food(&mut self, cell: usize, variant: usize)
        requires
            old(self)@.width <= i32::MAX,
            old(self)@.height <= i32::MAX,
            cell < old(self)@.free_cells().len(),
            variant < old(self)@.food_variants,
        ensures
            final(self)@ == old(self)@.with_food(cell as int, variant as nat),
            final(self)@.has_fresh_food(old(self)@),
            old(self)@.wf() ==> final(self)@.wf(),
    {
        let empties = self.empties();
        self.food = empties[cell];
        self.food_variant = Some(variant);
        proof {
            old(self)@.lemma_free_cells();
        }
    }

    /// Puts the food on a free cell picked at random, with a look picked at
    /// random. The food never lands on the snake. Some cell must be free.
    pub fn gen_food(&mut self)
        requires
            old(self)@.has_room(),
        ensures
            final(self)@.has_fresh_food(old(self)@),
            final(self)@.in_arena(final(self)@.food),
            !final(self)@.snake.contains(final(self)@.food),
            old(self)@.wf() ==> final(self)@.wf(),
    {
        let mut rng = thread_rng();
        let free = self.empties().len();
        let cell = index_below(&mut rng, free);
        let variant = index_below(&mut rng, self.food_variants);
        self.place_food(cell, variant);
        proof {
            old(self)@.lemma_free_cells();
        }
    }

    /// Replaces the snake by a new one: a single segment on the starting
    /// cell `(width - 2, height / 2)`, alive, heading left, with no growth
    /// pending. The food is placed anew.
    pub fn respawn(&mut self)
        requires
            old(self)@.valid_arena(),
        ensures
            final(self)@.has_fresh_food(old(self)@.reset()),
            final(self)@.wf(),
            final(self)@.settled(),
            final(self)@.snake == seq![old(self)@.start()],
            final(self)@.direction == direction_left(),
            final(self)@.alive,
    {
        self.snake = vec![pos((self.width - 2) as i32, (self.height / 2) as i32)];
        proof {
            assert(self@.snake =~= old(self)@.reset().snake);
            old(self)@.lemma_reset_has_room();
        }
        self.gen_food();
        self.direction = direction_left();
        self.alive = true;
        self.add_next_tick = None;
        proof {
            self@.lemma_food_off_snake_settles();
        }
    }

    /// Advances the game by one step. A living snake moves one cell in its
    /// direction; a pending growth is appended; and a snake that is then
    /// dead is replaced as by [`SnakeGame::respawn`].
    ///
    /// Unless the snake is replaced, its length changes by the pending
    /// growth alone: one more segment after a meal, the same length
    /// otherwise. After a tick the snake is never dead, and a snake that
    /// was alive is alive.
    pub fn tick(&mut self)
        requires
            old(self)@.wf(),
        ensures
            final(self)@.wf(),
            old(self)@.advance().is_dead() ==> final(self)@.has_fresh_food(
                old(self)@.advance().reset(),
            ),
            !old(self)@.advance().is_dead() ==> final(self)@ == old(self)@.advance(),
            !old(self)@.advance().is_dead() || old(self)@.snake.len() + old(self)@.growth() == 1
                ==> final(self)@.snake.len() == old(self)@.snake.len() + old(self)@.growth(),
            old(self)@.advance().is_dead() ==> {
                &&& final(self)@.snake == seq![old(self)@.start()]
                &&& final(self)@.direction == direction_left()
                &&& final(self)@.alive
                &&& final(self)@.settled()
            },
            old(self)@.settled() ==> final(self)@.coherent(),
            !final(self)@.is_dead(),
            old(self)@.alive ==> final(self)@.alive,
    {
        if self.alive {
            let head = *self.head();
            let step = self.direction;
            self.snake.insert(0, Pos(head.0 + step.0, head.1 + step.1));
            self.snake.pop();
        }
        if let Some(to_add) = self.add_next_tick {
            self.snake.push(to_add);
            self.add_next_tick = None;
        }
        proof {
            assert(self@.snake =~= old(self)@.advance().snake);
            old(self)@.lemma_advance_length();
        }
        if self.dead() {
            self.respawn();
        } else {
            proof {
                if old(self)@.settled() {
                    old(self)@.lemma_advance_coherent();
                }
            }
        }
    }

    /// Lets the snake eat. If the head is on the food, the last segment of
    /// the body is noted for the next tick to append, and the food is
    /// placed anew; otherwise nothing changes.
    ///
    /// A meal needs a free cell for the next food: a snake that fills the
    /// arena must not be offered the food under its head.
    pub fn eat(&mut self)
        requires
            old(self)@.wf(),
            old(self)@.head() == old(self)@.food ==> old(self)@.free_cells().len() > 0,
        ensures
            final(self)@.wf(),
            old(self)@.head() == old(self)@.food ==> final(self)@.has_fresh_food(old(self)@.fed()),
            old(self)@.head() != old(self)@.food ==> final(self)@ == old(self)@,
            old(self)@.head() == old(self)@.food ==> !final(self)@.snake.contains(
                final(self)@.food,
            ),
            old(self)@.coherent() ==> final(self)@.settled(),
    {
        let head = self.head();
        if *head == self.food {
            self.add_next_tick = Some(self.snake[self.snake.len() - 1]);
            self.gen_food();
            proof {
                if old(self)@.coherent() {
                    self@.lemma_food_off_snake_settles();
                }
            }
        }
    }
}

} // verus!
