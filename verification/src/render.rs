//! What a frame shows, as a list of drawing commands in pixels. The
//! program that owns the window carries the commands out.

use crate::game::SnakeGame;
use crate::model::{lemma_grid_index, GameView};
use crate::pos::Pos;
use vstd::prelude::*;

verus! {

/// One step of drawing a frame. Positions are in pixels and name the top
/// left corner of a cell.
#[derive(Debug, PartialEq, Eq, Copy, Clone, Structural)]
pub enum DrawCommand {
    /// Fill the window with the background.
    Clear,
    /// Mark the cell at `(left, top)` with the dot of the grid.
    Dot { left: usize, top: usize },
    /// Draw the head of the snake on the cell at `(x, y)`.
    Head { x: i32, y: i32 },
    /// Draw a segment of the tail on the cell at `(x, y)`.
    Segment { x: i32, y: i32 },
    /// Draw the food, in its look `variant`, on the cell at `(x, y)`.
    Food { variant: usize, x: i32, y: i32 },
    /// Draw food that has no look as a plain square on the cell at `(x, y)`.
    FoodBlock { x: i32, y: i32 },
}

impl GameView {
    /// The corner of every cell can be computed in a `usize`.
    pub open spec fn dots_fit(self) -> bool {
        self.width > 0 && self.height > 0 ==> {
            &&& (self.width - 1) * self.tilesize <= usize::MAX
            &&& (self.height - 1) * self.tilesize <= usize::MAX
        }
    }

    /// The arena measured in pixels fits in an `i32`, either way.
    pub open spec fn fits_screen(self) -> bool {
        self.width * self.tilesize <= i32::MAX && self.height * self.tilesize <= i32::MAX
    }

    /// The dot of the cell of number `k`, the cells numbered as in
    /// [`GameView::cells`].
    pub open spec fn dot(self, k: int) -> DrawCommand {
        DrawCommand::Dot {
            left: ((k / self.height as int) * self.tilesize) as usize,
            top: ((k % self.height as int) * self.tilesize) as usize,
        }
    }

    /// The background: the window is cleared, then every cell gets its dot.
    pub open spec fn background(self) -> Seq<DrawCommand> {
        seq![DrawCommand::Clear] + Seq::new(self.width * self.height, |k: int| self.dot(k))
    }

    /// The picture of segment `i` of the body: a head for the first, a
    /// segment for the others.
    pub open spec fn body_sprite(self, i: int) -> DrawCommand {
        let x = (self.snake[i].0 * self.tilesize) as i32;
        let y = (self.snake[i].1 * self.tilesize) as i32;
        if i == 0 {
            DrawCommand::Head { x, y }
        } else {
            DrawCommand::Segment { x, y }
        }
    }

    /// The picture of the food: in its look, or a plain square without one.
    pub open spec fn food_sprite(self) -> DrawCommand {
        let x = (self.food.0 * self.tilesize) as i32;
        let y = (self.food.1 * self.tilesize) as i32;
        match self.food_variant {
            Some(k) => DrawCommand::Food { variant: k as usize, x, y },
            None => DrawCommand::FoodBlock { x, y },
        }
    }

    /// A whole frame: the background, the body from the head on, the food.
    pub open spec fn scene(self) -> Seq<DrawCommand> {
        self.background() + Seq::new(self.snake.len(), |i: int| self.body_sprite(i)) + seq![
            self.food_sprite(),
        ]
    }

    /// An arena whose pixels fit in an `i32` has cells of at most that
    /// size, and all its dots fit.
    pub proof fn lemma_fits_screen(self)
        requires
            self.width >= 1,
            self.height >= 1,
            self.fits_screen(),
        ensures
            self.tilesize <= i32::MAX,
            self.dots_fit(),
    {
        let w = self.width as int;
        let h = self.height as int;
        let t = self.tilesize as int;
        assert(t <= w * t && (w - 1) * t <= w * t) by (nonlinear_arith)
            requires
                w >= 1,
                t >= 0,
        ;
        assert(t <= h * t && (h - 1) * t <= h * t) by (nonlinear_arith)
            requires
                h >= 1,
                t >= 0,
        ;
    }

    /// On such an arena the corner of every cell fits in an `i32`.
    pub proof fn lemma_corner_fits(self, p: Pos)
        requires
            self.fits_screen(),
            self.in_arena(p),
        ensures
            0 <= p.0 * self.tilesize <= i32::MAX,
            0 <= p.1 * self.tilesize <= i32::MAX,
    {
        let t = self.tilesize as int;
        assert(0 <= p.0 * t <= self.width * t) by (nonlinear_arith)
            requires
                0 <= p.0 < self.width,
                t >= 0,
        ;
        assert(0 <= p.1 * t <= self.height * t) by (nonlinear_arith)
            requires
                0 <= p.1 < self.height,
                t >= 0,
        ;
    }
}

impl SnakeGame {
    /// The commands that draw the background: one to clear the window, then
    /// a dot for every cell, column by column. The corner of every cell
    /// must fit in a `usize`.
    pub fn draw_bg(&self) -> (commands: Vec<DrawCommand>)
        requires
            self@.dots_fit(),
        ensures
            commands@ == self@.background(),
    {
        let mut commands: Vec<DrawCommand> = vec![DrawCommand::Clear];
        let ghost dots = Seq::new(self@.width * self@.height, |k: int| self@.dot(k));
        proof {
            assert(commands@ =~= seq![DrawCommand::Clear] + dots.take(0 * self.height));
        }
        for i in 0..self.width
            invariant
                self@.dots_fit(),
                dots == Seq::new(self@.width * self@.height, |k: int| self@.dot(k)),
                commands@ == seq![DrawCommand::Clear] + dots.take(i * self.height),
        {
            for c in 0..self.height
                invariant
                    i < self.width,
                    self@.dots_fit(),
                    dots == Seq::new(self@.width * self@.height, |k: int| self@.dot(k)),
                    commands@ == seq![DrawCommand::Clear] + dots.take(i * self.height + c),
            {
                proof {
                    let t = self.tilesize as int;
                    assert(0 <= i * t <= (self.width - 1) * t) by (nonlinear_arith)
                        requires
                            0 <= i <= self.width - 1,
                            0 <= t,
                    ;
                    assert(0 <= c * t <= (self.height - 1) * t) by (nonlinear_arith)
                        requires
                            0 <= c <= self.height - 1,
                            0 <= t,
                    ;
                    lemma_grid_index(self.width as int, self.height as int, i as int, c as int);
                }
                let dot = DrawCommand::Dot { left: i * self.tilesize, top: c * self.tilesize };
                proof {
                    let k = i * self.height + c;
                    assert(dots.take(k + 1) =~= dots.take(k).push(dot));
                }
                commands.push(dot);
            }
            proof {
                assert(i * self.height + self.height == (i + 1) * self.height) by (nonlinear_arith);
            }
        }
        proof {
            assert(dots.take(self.width * self.height) =~= dots);
        }
        commands
    }

    /// The commands that draw a frame: the background, then the body from
    /// the head on, then the food. The arena measured in pixels must fit in
    /// an `i32`.
    pub fn draw(&self) -> (commands: Vec<DrawCommand>)
        requires
            self@.wf(),
            self@.fits_screen(),
        ensures
            commands@ == self@.scene(),
    {
        proof {
            self@.lemma_fits_screen();
        }
        let mut commands = self.draw_bg();
        let tile = self.tilesize as i32;
        let ghost body = Seq::new(self@.snake.len(), |i: int| self@.body_sprite(i));
        proof {
            assert(commands@ =~= self@.background() + body.take(0));
        }
        for idx in 0..self.snake.len()
            invariant
                self@.wf(),
                tile == self@.tilesize,
                body == Seq::new(self@.snake.len(), |i: int| self@.body_sprite(i)),
                self@.fits_screen(),
                commands@ == self@.background() + body.take(idx as int),
        {
            let segment = self.snake[idx];
            proof {
                self@.lemma_corner_fits(self@.snake[idx as int]);
            }
            let x = segment.0 * tile;
            let y = segment.1 * tile;
            let sprite = if idx == 0 {
                DrawCommand::Head { x, y }
            } else {
                DrawCommand::Segment { x, y }
            };
            proof {
                assert(body.take(idx + 1) =~= body.take(idx as int).push(sprite));
            }
            commands.push(sprite);
        }
        proof {
            assert(body.take(self.snake.len() as int) =~= body);
            self@.lemma_corner_fits(self@.food);
        }
        let x = self.food.0 * tile;
        let y = self.food.1 * tile;
        match self.food_variant {
            Some(variant) => commands.push(DrawCommand::Food { variant, x, y }),
            None => commands.push(DrawCommand::FoodBlock { x, y }),
        }
        commands
    }
}

} // verus!
