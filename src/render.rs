//! Incremental drawing of the game: each tick repaints only the cells that
//! changed.
use vstd::prelude::*;
use crate::game::{
    GameState, GameView, in_grid, step, CELL_COUNT, CELL_SIZE, FRUIT_BORDER, SNAKE_BORDER,
    TICK_MILLIS,
};
use crate::geometry::{wrap, wrap_add_2d};
use crate::paint::{draw_rect, paint, Color, Frame};

verus! {

pub open spec fn background_spec() -> Color {
    Color { r: 25, g: 25, b: 25 }
}

pub open spec fn snake_color_spec() -> Color {
    Color { r: 255, g: 255, b: 255 }
}

pub open spec fn fruit_color_spec() -> Color {
    Color { r: 255, g: 0, b: 0 }
}

/// The colour of empty cells.
pub fn background() -> (c: Color)
    ensures
        c == background_spec(),
{
    Color { r: 25, g: 25, b: 25 }
}

/// The colour of the snake.
pub fn snake_color() -> (c: Color)
    ensures
        c == snake_color_spec(),
{
    Color { r: 255, g: 255, b: 255 }
}

/// The colour of the fruit.
pub fn fruit_color() -> (c: Color)
    ensures
        c == fruit_color_spec(),
{
    Color { r: 255, g: 0, b: 0 }
}

/// Offset, within a cell, of the square that extends a segment towards the
/// side that heading `d` points to.
pub open spec fn protrusion(d: (isize, isize)) -> (int, int) {
    if d == (1isize, 0isize) {
        (2 * SNAKE_BORDER as int, SNAKE_BORDER as int)
    } else if d == (-1isize, 0isize) {
        (0, SNAKE_BORDER as int)
    } else if d == (0isize, 1isize) {
        (SNAKE_BORDER as int, 2 * SNAKE_BORDER as int)
    } else if d == (0isize, -1isize) {
        (SNAKE_BORDER as int, 0)
    } else {
        (0, 0)
    }
}

/// Side of the inset square of a snake segment.
pub open spec fn segment_side() -> int {
    CELL_SIZE - 2 * SNAKE_BORDER
}

/// `px` with the cell `c` filled with the background.
pub open spec fn erase_cell(px: Seq<Color>, width: int, c: (usize, usize)) -> Seq<Color> {
    paint(
        px,
        width,
        c.0 * CELL_SIZE,
        c.1 * CELL_SIZE,
        CELL_SIZE as int,
        CELL_SIZE as int,
        background_spec(),
    )
}

/// `px` with the oldest body cell of `v` erased.
pub open spec fn erase_last_spec(px: Seq<Color>, width: int, v: GameView) -> Seq<Color> {
    if v.body.len() > 0 {
        erase_cell(px, width, v.body[0])
    } else {
        px
    }
}

/// `px` with every cell of `cells` erased, first to last.
pub open spec fn erase_cells(px: Seq<Color>, width: int, cells: Seq<(usize, usize)>) -> Seq<Color>
    decreases cells.len(),
{
    if cells.len() == 0 {
        px
    } else {
        erase_cell(erase_cells(px, width, cells.drop_last()), width, cells.last())
    }
}

/// `px` with the fruit of `v`, if any, drawn as an inset square.
pub open spec fn draw_fruit_spec(px: Seq<Color>, width: int, v: GameView) -> Seq<Color> {
    if v.fruit_x >= 0 && v.fruit_y >= 0 {
        paint(
            px,
            width,
            v.fruit_x * CELL_SIZE + FRUIT_BORDER,
            v.fruit_y * CELL_SIZE + FRUIT_BORDER,
            CELL_SIZE - 2 * FRUIT_BORDER,
            CELL_SIZE - 2 * FRUIT_BORDER,
            fruit_color_spec(),
        )
    } else {
        px
    }
}

/// `px` with the head cell of `v` cleared, then drawn as an inset square
/// and a square shifted towards the heading, onto its leading edge.
pub open spec fn draw_head_spec(px: Seq<Color>, width: int, v: GameView) -> Seq<Color> {
    let x = v.head_x * CELL_SIZE;
    let y = v.head_y * CELL_SIZE;
    let p1 = paint(px, width, x, y, CELL_SIZE as int, CELL_SIZE as int, background_spec());
    let p2 = paint(
        p1,
        width,
        x + SNAKE_BORDER,
        y + SNAKE_BORDER,
        segment_side(),
        segment_side(),
        snake_color_spec(),
    );
    let o = protrusion(v.heading());
    paint(p2, width, x + o.0, y + o.1, segment_side(), segment_side(), snake_color_spec())
}

/// The cell just behind the head of `v`.
pub open spec fn neck(v: GameView) -> (int, int) {
    (
        wrap(v.head_x as int, -v.head_dx, CELL_COUNT as int),
        wrap(v.head_y as int, -v.head_dy, CELL_COUNT as int),
    )
}

/// `px` with the cell behind the head of `v` drawn as a square shifted
/// towards the head, so that the two segments join.
pub open spec fn extend_neck_spec(px: Seq<Color>, width: int, v: GameView) -> Seq<Color> {
    let o = protrusion(v.heading());
    paint(
        px,
        width,
        neck(v).0 * CELL_SIZE + o.0,
        neck(v).1 * CELL_SIZE + o.1,
        segment_side(),
        segment_side(),
        snake_color_spec(),
    )
}

/// The frame after one drawn tick, from the frame `px` and the state
/// `before` the tick to the state `after` it: a first clear when asked for,
/// the vacated tail cell, then the fruit, the head and the neck.
pub open spec fn render_tick(
    px: Seq<Color>,
    width: int,
    height: int,
    before: GameView,
    after: GameView,
) -> Seq<Color> {
    let p1 = if before.should_clear {
        paint(px, width, 0, 0, width, height, background_spec())
    } else {
        px
    };
    let p2 = if before.should_erase_last {
        erase_last_spec(p1, width, before)
    } else {
        p1
    };
    extend_neck_spec(draw_head_spec(draw_fruit_spec(p2, width, after), width, after), width, after)
}

/// `v` once the first full clear has been done.
pub open spec fn cleared(v: GameView) -> GameView {
    GameView { should_clear: false, ..v }
}

/// Offset within a cell of the square that extends a segment towards `(dx, dy)`.
fn protrusion_offset(dx: isize, dy: isize) -> (r: (usize, usize))
    ensures
        r.0 == protrusion((dx, dy)).0,
        r.1 == protrusion((dx, dy)).1,
{
    if dx == 1 && dy == 0 {
        (SNAKE_BORDER * 2, SNAKE_BORDER)
    } else if dx == -1 && dy == 0 {
        (0, SNAKE_BORDER)
    } else if dx == 0 && dy == 1 {
        (SNAKE_BORDER, SNAKE_BORDER * 2)
    } else if dx == 0 && dy == -1 {
        (SNAKE_BORDER, 0)
    } else {
        (0, 0)
    }
}


impl GameState {
    /// Runs one tick of the render driver on `frame`, `elapsed_millis` after
    /// the last drawn tick. Nothing happens before the tick interval has
    /// passed or once the game is over; otherwise the simulation advances and
    /// only the changed cells are repainted. Returns whether a tick was drawn.
    pub fn draw(&mut self, frame: &mut Frame, elapsed_millis: u128) -> (drawn: bool)
        requires
            old(self).wf(),
            old(frame).wf(),
        ensures
            final(self).wf(),
            final(frame).wf(),
            drawn == (elapsed_millis > TICK_MILLIS && !old(self).gameover),
            final(frame).width == old(frame).width,
            final(frame).height == old(frame).height,
            !drawn ==> final(self)@ == old(self)@ && final(frame).pixels@ == old(frame).pixels@,
            drawn ==> exists|rx: usize, ry: usize|
                final(self)@ == #[trigger] step(cleared(old(self)@), rx, ry),
            drawn ==> final(frame).pixels@ == render_tick(
                old(frame).pixels@,
                old(frame).width as int,
                old(frame).height as int,
                old(self)@,
                final(self)@,
            ),
    {
        if !self.should_draw_frame(elapsed_millis) || self.gameover {
            return false;
        }
        let ghost before = self@;
        if self.should_clear {
            let (w, h) = (frame.width, frame.height);
            draw_rect(frame, 0, 0, w, h, background());
            self.should_clear = false;
        }
        let ghost p1 = frame.pixels@;
        if self.should_erase_last {
            self.erase_last(frame);
        }
        assert(frame.pixels@ == (if before.should_erase_last {
            erase_last_spec(p1, frame.width as int, before)
        } else {
            p1
        }));
        assert(self@ == cleared(before));
        self.update();
        self.draw_fruit(frame);
        self.draw_head(frame);
        self.extend_neck(frame);
        true
    }

    /// Erases the oldest body cell, the one the coming tick vacates.
    pub fn erase_last(&self, frame: &mut Frame)
        requires
            self.wf(),
        ensures
            final(frame).width == old(frame).width,
            final(frame).height == old(frame).height,
            final(frame).pixels@ == erase_last_spec(old(frame).pixels@, old(frame).width as int, self@),
    {
        let (x, y) = self.body[0];
        assert(in_grid(self@.body[0]));
        draw_rect(frame, x * CELL_SIZE, y * CELL_SIZE, CELL_SIZE, CELL_SIZE, background());
    }

    /// Erases every body cell.
    pub fn _erase(&self, frame: &mut Frame)
        requires
            self.wf(),
        ensures
            final(frame).width == old(frame).width,
            final(frame).height == old(frame).height,
            final(frame).pixels@ == erase_cells(old(frame).pixels@, old(frame).width as int, self@.body),
    {
        let mut i: usize = 0;
        while i < self.body.len()
            invariant
                self.wf(),
                i <= self.body.len(),
                frame.width == old(frame).width,
                frame.height == old(frame).height,
                frame.pixels@ == erase_cells(
                    old(frame).pixels@,
                    old(frame).width as int,
                    self@.body.subrange(0, i as int),
                ),
            decreases self.body.len() - i,
        {
            let (px, py) = self.body[i];
            assert(in_grid(self@.body[i as int]));
            draw_rect(frame, px * CELL_SIZE, py * CELL_SIZE, CELL_SIZE, CELL_SIZE, background());
            assert(self@.body.subrange(0, i + 1).drop_last() =~= self@.body.subrange(0, i as int));
            i = i + 1;
        }
        assert(self@.body.subrange(0, i as int) =~= self@.body);
    }

    /// Draws the fruit, if any, as an inset square.
    pub fn draw_fruit(&self, frame: &mut Frame)
        requires
            self.wf(),
        ensures
            final(frame).width == old(frame).width,
            final(frame).height == old(frame).height,
            final(frame).pixels@ == draw_fruit_spec(old(frame).pixels@, old(frame).width as int, self@),
    {
        if self.fruit_x >= 0 && self.fruit_y >= 0 {
            let fx = self.fruit_x as usize;
            let fy = self.fruit_y as usize;
            draw_rect(
                frame,
                fx * CELL_SIZE + FRUIT_BORDER,
                fy * CELL_SIZE + FRUIT_BORDER,
                CELL_SIZE - FRUIT_BORDER * 2,
                CELL_SIZE - FRUIT_BORDER * 2,
                fruit_color(),
            );
        }
    }

    /// Clears the head cell, then draws the head as an inset square with a
    /// second square showing the heading.
    pub fn draw_head(&self, frame: &mut Frame)
        requires
            self.wf(),
        ensures
            final(frame).width == old(frame).width,
            final(frame).height == old(frame).height,
            final(frame).pixels@ == draw_head_spec(old(frame).pixels@, old(frame).width as int, self@),
    {
        let (hx, hy) = self.get_head();
        assert(in_grid(self@.body.last()));
        let (x, y) = (hx * CELL_SIZE, hy * CELL_SIZE);
        draw_rect(frame, x, y, CELL_SIZE, CELL_SIZE, background());
        let side = CELL_SIZE - SNAKE_BORDER * 2;
        draw_rect(frame, x + SNAKE_BORDER, y + SNAKE_BORDER, side, side, snake_color());
        let (ox, oy) = protrusion_offset(self.head_dx, self.head_dy);
        draw_rect(frame, x + ox, y + oy, side, side, snake_color());
    }

    /// Draws the cell behind the head as a square shifted towards the head.
    pub fn extend_neck(&self, frame: &mut Frame)
        requires
            self.wf(),
        ensures
            final(frame).width == old(frame).width,
            final(frame).height == old(frame).height,
            final(frame).pixels@ == extend_neck_spec(old(frame).pixels@, old(frame).width as int, self@),
    {
        let (hx, hy) = self.get_head();
        let (nx, ny) = wrap_add_2d((hx, hy), (-self.head_dx, -self.head_dy), (CELL_COUNT, CELL_COUNT));
        let (ox, oy) = protrusion_offset(self.head_dx, self.head_dy);
        let side = CELL_SIZE - SNAKE_BORDER * 2;
        draw_rect(frame, nx * CELL_SIZE + ox, ny * CELL_SIZE + oy, side, side, snake_color());
    }

    /// Whether the pixel `(x, y)` lies within a body cell, edges included.
    pub fn _point_in_snake(&self, x: usize, y: usize) -> (r: bool)
        requires
            self.wf(),
        ensures
            r == exists|i: int|
                0 <= i < self@.body.len() && #[trigger] in_cell(self@.body[i].0 as int, self@.body[i].1 as int, x as int, y as int),
    {
        let mut i: usize = 0;
        while i < self.body.len()
            invariant
                self.wf(),
                i <= self.body.len(),
                forall|k: int| 0 <= k < i ==> !#[trigger] in_cell(self@.body[k].0 as int, self@.body[k].1 as int, x as int, y as int),
            decreases self.body.len() - i,
        {
            let (px, py) = self.body[i];
            assert(in_grid(self@.body[i as int]));
            let sx = px * CELL_SIZE;
            let sy = py * CELL_SIZE;
            let ex = sx + CELL_SIZE;
            let ey = sy + CELL_SIZE;
            if sx <= x && x <= ex && sy <= y && y <= ey {
                assert(in_cell(self@.body[i as int].0 as int, self@.body[i as int].1 as int, x as int, y as int));
                return true;
            }
            i = i + 1;
        }
        false
    }

    /// Whether the pixel `(x, y)` lies within the fruit's cell, edges
    /// included; never when there is no fruit.
    pub fn _point_in_fruit(&self, x: usize, y: usize) -> (r: bool)
        requires
            self.wf(),
        ensures
            r == (self.fruit_x >= 0 && self.fruit_y >= 0 && in_cell(
                self.fruit_x as int,
                self.fruit_y as int,
                x as int,
                y as int,
            )),
    {
        if self.fruit_x >= 0 && self.fruit_y >= 0 {
            let fx = self.fruit_x as usize;
            let fy = self.fruit_y as usize;
            let sx = fx * CELL_SIZE;
            let sy = fy * CELL_SIZE;
            let ex = sx + CELL_SIZE;
            let ey = sy + CELL_SIZE;
            sx <= x && x <= ex && sy <= y && y <= ey
        } else {
            false
        }
    }
}

/// Whether pixel `(x, y)` lies within cell `(cx, cy)`, edges included.
pub open spec fn in_cell(cx: int, cy: int, x: int, y: int) -> bool {
    cx * CELL_SIZE <= x <= cx * CELL_SIZE + CELL_SIZE && cy * CELL_SIZE <= y <= cy * CELL_SIZE
        + CELL_SIZE
}

} // verus!
