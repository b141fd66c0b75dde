//! The game state and its one-tick simulation step.
use vstd::prelude::*;
use crate::geometry::{wrap, wrap_add_2d};

verus! {

/// Side of a grid cell, in pixels.
pub const CELL_SIZE: usize = 25;

/// Number of cells along each side of the square grid.
pub const CELL_COUNT: usize = 25;

/// Inset of a snake segment from the edges of its cell, in pixels.
pub const SNAKE_BORDER: usize = 4;

/// Inset of the fruit from the edges of its cell, in pixels.
pub const FRUIT_BORDER: usize = 2;

/// Milliseconds that must pass between two ticks.
pub const TICK_MILLIS: u128 = 100;

/// The whole state of one game.
pub struct GameState {
    /// Set once the head ran into the body; only a reset clears it.
    pub gameover: bool,
    pub head_x: usize,
    pub head_y: usize,
    /// Current heading, one of the four unit steps.
    pub head_dx: isize,
    pub head_dy: isize,
    /// Segments still owed to the snake; the tail is not trimmed while positive.
    pub to_grow: isize,
    /// Occupied cells, oldest first; the head is the last.
    pub body: Vec<(usize, usize)>,
    /// Fruit cell, or `(-1, -1)` when there is none.
    pub fruit_x: isize,
    pub fruit_y: isize,
    /// Pending heading changes, oldest first.
    pub move_queue: Vec<(isize, isize)>,
    /// Whether the next drawn frame must first clear the whole canvas.
    pub should_clear: bool,
    /// Whether the oldest body cell is to be dropped on the next tick.
    pub should_erase_last: bool,
}

/// The mathematical value of a [`GameState`]: its vectors seen as sequences.
pub struct GameView {
    pub gameover: bool,
    pub head_x: usize,
    pub head_y: usize,
    pub head_dx: isize,
    pub head_dy: isize,
    pub to_grow: isize,
    pub body: Seq<(usize, usize)>,
    pub fruit_x: isize,
    pub fruit_y: isize,
    pub move_queue: Seq<(isize, isize)>,
    pub should_clear: bool,
    pub should_erase_last: bool,
}

impl View for GameState {
    type V = GameView;

    open spec fn view(&self) -> GameView {
        GameView {
            gameover: self.gameover,
            head_x: self.head_x,
            head_y: self.head_y,
            head_dx: self.head_dx,
            head_dy: self.head_dy,
            to_grow: self.to_grow,
            body: self.body@,
            fruit_x: self.fruit_x,
            fruit_y: self.fruit_y,
            move_queue: self.move_queue@,
            should_clear: self.should_clear,
            should_erase_last: self.should_erase_last,
        }
    }
}

/// One of the four unit steps along an axis.
pub open spec fn is_unit(d: (isize, isize)) -> bool {
    d == (1isize, 0isize) || d == (-1isize, 0isize) || d == (0isize, 1isize) || d == (0isize, -1isize)
}

pub open spec fn abs(v: int) -> int {
    if v < 0 {
        -v
    } else {
        v
    }
}

/// Whether a queued heading `new` may replace `cur`: it must differ from
/// `cur` in magnitude on both axes, which rules out reversing and repeating.
pub open spec fn accepts(cur: (isize, isize), new: (isize, isize)) -> bool {
    abs(new.0 as int) != abs(cur.0 as int) && abs(new.1 as int) != abs(cur.1 as int)
}

pub open spec fn in_grid(c: (usize, usize)) -> bool {
    c.0 < CELL_COUNT && c.1 < CELL_COUNT
}

impl GameView {
    pub open spec fn head(self) -> (usize, usize) {
        (self.head_x, self.head_y)
    }

    pub open spec fn heading(self) -> (isize, isize) {
        (self.head_dx, self.head_dy)
    }

    pub open spec fn has_fruit(self) -> bool {
        !(self.fruit_x < 0 && self.fruit_y < 0)
    }

    /// The invariant of every reachable state.
    pub open spec fn wf(self) -> bool {
        &&& self.body.len() > 0
        &&& self.body.last() == self.head()
        &&& forall|i: int| 0 <= i < self.body.len() ==> #[trigger] in_grid(self.body[i])
        &&& is_unit(self.heading())
        &&& forall|i: int| 0 <= i < self.move_queue.len() ==> #[trigger] is_unit(self.move_queue[i])
        &&& (self.fruit_x == -1 && self.fruit_y == -1) || (0 <= self.fruit_x < CELL_COUNT && 0
            <= self.fruit_y < CELL_COUNT)
        &&& 0 <= self.to_grow < isize::MAX
    }
}

/// The state a game starts in, and is reset to.
pub open spec fn initial() -> GameView {
    GameView {
        gameover: false,
        head_x: 5,
        head_y: 5,
        head_dx: 1,
        head_dy: 0,
        to_grow: 3,
        body: seq![(4usize, 5usize), (5usize, 5usize)],
        fruit_x: -1isize,
        fruit_y: -1isize,
        move_queue: Seq::empty(),
        should_clear: true,
        should_erase_last: false,
    }
}

/// Takes the oldest queued heading, if any, and applies it when accepted.
pub open spec fn after_next_move(v: GameView) -> GameView {
    if v.move_queue.len() > 0 {
        let d = v.move_queue[0];
        let q = v.move_queue.remove(0);
        if accepts(v.heading(), d) {
            GameView { head_dx: d.0, head_dy: d.1, move_queue: q, ..v }
        } else {
            GameView { move_queue: q, ..v }
        }
    } else {
        v
    }
}

/// The cell one step ahead of the head.
pub open spec fn next_head(v: GameView) -> (usize, usize) {
    (
        wrap(v.head_x as int, v.head_dx as int, CELL_COUNT as int) as usize,
        wrap(v.head_y as int, v.head_dy as int, CELL_COUNT as int) as usize,
    )
}

pub open spec fn after_move_head(v: GameView) -> GameView {
    GameView { head_x: next_head(v).0, head_y: next_head(v).1, ..v }
}

/// Places a fruit from the random draws `rx`, `ry` when there is none;
/// otherwise eats the fruit if it lies under the head. A fruit just placed is
/// never eaten in the same tick.
pub open spec fn after_fruit(v: GameView, rx: usize, ry: usize) -> GameView {
    if !v.has_fruit() {
        GameView {
            fruit_x: (rx % CELL_COUNT) as isize,
            fruit_y: (ry % CELL_COUNT) as isize,
            ..v
        }
    } else if v.fruit_x == v.head_x && v.fruit_y == v.head_y {
        GameView { fruit_x: -1isize, fruit_y: -1isize, to_grow: (v.to_grow + 1) as isize, ..v }
    } else {
        v
    }
}

pub open spec fn after_collision(v: GameView) -> GameView {
    if v.body.contains(v.head()) {
        GameView { gameover: true, ..v }
    } else {
        v
    }
}

/// Appends the head, drops the oldest cell when flagged, and settles the
/// growth counter.
pub open spec fn after_body(v: GameView) -> GameView {
    let body1 = v.body.push(v.head());
    let t1 = v.to_grow - 1;
    let body2 = if v.should_erase_last {
        body1.remove(0)
    } else {
        body1
    };
    if t1 < 0 {
        GameView { body: body2, to_grow: (t1 + 1) as isize, should_erase_last: true, ..v }
    } else {
        GameView { body: body2, to_grow: t1 as isize, should_erase_last: false, ..v }
    }
}

/// One tick of the simulation, with `rx`, `ry` the random draws used if a
/// fruit has to be placed. A finished game does not move.
pub open spec fn step(v: GameView, rx: usize, ry: usize) -> GameView {
    if v.gameover {
        v
    } else {
        after_body(after_collision(after_fruit(after_move_head(after_next_move(v)), rx, ry)))
    }
}

/// Every tick keeps the invariant.
pub proof fn lemma_step_wf(v: GameView, rx: usize, ry: usize)
    requires
        v.wf(),
    ensures
        step(v, rx, ry).wf(),
{
    let v1 = after_next_move(v);
    if v.move_queue.len() > 0 {
        assert forall|i: int| 0 <= i < v1.move_queue.len() implies #[trigger] is_unit(
            v1.move_queue[i],
        ) by {
            assert(v1.move_queue[i] == v.move_queue[i + 1]);
        }
    }
    let v2 = after_move_head(v1);
    crate::geometry::lemma_wrap_in_range(v1.head_x as int, v1.head_dx as int, CELL_COUNT as int);
    crate::geometry::lemma_wrap_in_range(v1.head_y as int, v1.head_dy as int, CELL_COUNT as int);
    let v3 = after_fruit(v2, rx, ry);
    let v4 = after_collision(v3);
    let v5 = after_body(v4);
    let body1 = v4.body.push(v4.head());
    assert forall|i: int| 0 <= i < body1.len() implies #[trigger] in_grid(body1[i]) by {
        if i < v4.body.len() {
            assert(body1[i] == v4.body[i]);
        }
    }
    if v4.should_erase_last {
        assert forall|i: int| 0 <= i < v5.body.len() implies #[trigger] in_grid(v5.body[i]) by {
            assert(v5.body[i] == body1[i + 1]);
        }
        assert(v5.body.last() == body1.last());
    }
}


/// Relies on `rand::random::<usize>`: a number drawn from the thread-local
/// generator. Nothing is known of its value.
#[verifier::external_body]
fn random_usize() -> (r: usize) {
    rand::random::<usize>()
}

/// The magnitude of a heading component.
fn magnitude(v: isize) -> (r: isize)
    requires
        v > isize::MIN,
    ensures
        r == abs(v as int),
{
    if v < 0 {
        -v
    } else {
        v
    }
}

impl GameState {
    pub open spec fn wf(&self) -> bool {
        self@.wf()
    }

    /// A fresh game.
    pub fn new() -> (r: GameState)
        ensures
            r@ == initial(),
            r.wf(),
    {
        let mut body: Vec<(usize, usize)> = Vec::new();
        body.push((4, 5));
        body.push((5, 5));
        let r = GameState {
            gameover: false,
            head_x: 5,
            head_y: 5,
            head_dx: 1,
            head_dy: 0,
            to_grow: 3,
            body,
            fruit_x: -1,
            fruit_y: -1,
            move_queue: Vec::new(),
            should_clear: true,
            should_erase_last: false,
        };
        assert(r@.body =~= initial().body);
        assert(r@.move_queue =~= initial().move_queue);
        r
    }

    /// Advances the simulation one tick, drawing a random fruit cell if one
    /// is needed.
    pub fn update(&mut self)
        requires
            old(self).wf(),
        ensures
            final(self).wf(),
            old(self).gameover ==> final(self)@ == old(self)@,
            exists|rx: usize, ry: usize| final(self)@ == #[trigger] step(old(self)@, rx, ry),
    {
        if self.gameover {
            assert(self@ == step(self@, 0, 0));
            return;
        }
        let (rx, ry) = if self.should_make_fruit() {
            (random_usize(), random_usize())
        } else {
            (0, 0)
        };
        self.update_with(rx, ry);
    }

    /// Advances the simulation one tick; a fruit placed during the tick goes
    /// to `(rx % CELL_COUNT, ry % CELL_COUNT)`.
    pub fn update_with(&mut self, rx: usize, ry: usize)
        requires
            old(self).wf(),
        ensures
            final(self).wf(),
            old(self).gameover ==> final(self)@ == old(self)@,
            final(self)@ == step(old(self)@, rx, ry),
    {
        proof {
            lemma_step_wf(self@, rx, ry);
        }
        if self.gameover {
            return;
        }
        self.perform_next_move();
        self.move_head();
        self.fruit_update_with(rx, ry);
        if self.self_collision() {
            self.gameover = true;
        }
        self.update_body_segments();
    }

    /// Appends the head to the body, trims the oldest cell if the previous
    /// tick flagged it, and settles the growth counter.
    pub fn update_body_segments(&mut self)
        requires
            old(self).to_grow > isize::MIN,
        ensures
            final(self)@ == after_body(old(self)@),
    {
        self.body.push((self.head_x, self.head_y));
        self.to_grow = self.to_grow - 1;
        if self.should_erase_last {
            self.body.remove(0);
            self.should_erase_last = false;
        }
        if self.to_grow < 0 {
            self.to_grow = self.to_grow + 1;
            self.should_erase_last = true;
        }
    }

    /// Whether the head lies on a cell of the body.
    pub fn self_collision(&self) -> (r: bool)
        ensures
            r == self@.body.contains(self@.head()),
    {
        let mut i: usize = 0;
        while i < self.body.len()
            invariant
                i <= self.body.len(),
                forall|k: int| 0 <= k < i ==> self.body@[k] != self@.head(),
            decreases self.body.len() - i,
        {
            let (x, y) = self.body[i];
            if x == self.head_x && y == self.head_y {
                assert(self.body@[i as int] == self@.head());
                return true;
            }
            i = i + 1;
        }
        false
    }

    /// Pops the oldest queued heading, if any, and applies it when its
    /// magnitude differs from the current heading's on both axes.
    pub fn perform_next_move(&mut self)
        requires
            old(self).wf(),
        ensures
            final(self)@ == after_next_move(old(self)@),
    {
        if self.move_queue.len() > 0 {
            let (dx, dy) = self.move_queue[0];
            assert(self@.wf());
            assert(is_unit(self@.move_queue[0]));
            if magnitude(self.head_dx) != magnitude(dx) && magnitude(self.head_dy) != magnitude(dy) {
                self.head_dx = dx;
                self.head_dy = dy;
            }
            self.move_queue.remove(0);
        }
    }

    /// Moves the head one step along the heading, wrapping around the grid.
    pub fn move_head(&mut self)
        ensures
            final(self)@ == after_move_head(old(self)@),
    {
        let (x, y) = wrap_add_2d(
            (self.head_x, self.head_y),
            (self.head_dx, self.head_dy),
            (CELL_COUNT, CELL_COUNT),
        );
        self.head_x = x;
        self.head_y = y;
    }

    /// Places a random fruit when there is none; otherwise eats a fruit
    /// under the head.
    pub fn fruit_update(&mut self)
        requires
            old(self).to_grow < isize::MAX,
        ensures
            exists|rx: usize, ry: usize| final(self)@ == #[trigger] after_fruit(old(self)@, rx, ry),
    {
        let (rx, ry) = if self.should_make_fruit() {
            (random_usize(), random_usize())
        } else {
            (0, 0)
        };
        self.fruit_update_with(rx, ry);
    }

    /// Places the fruit at `(rx % CELL_COUNT, ry % CELL_COUNT)` when there is
    /// none; otherwise eats a fruit under the head: the fruit is cleared and
    /// one more segment is owed.
    pub fn fruit_update_with(&mut self, rx: usize, ry: usize)
        requires
            old(self).to_grow < isize::MAX,
        ensures
            final(self)@ == after_fruit(old(self)@, rx, ry),
            !old(self)@.has_fruit() ==> final(self).fruit_x == rx % CELL_COUNT && final(self).fruit_y
                == ry % CELL_COUNT && final(self).to_grow == old(self).to_grow,
    {
        if self.should_make_fruit() {
            self.fruit_x = (rx % CELL_COUNT) as isize;
            self.fruit_y = (ry % CELL_COUNT) as isize;
        } else if self.fruit_collision() {
            self.fruit_x = -1;
            self.fruit_y = -1;
            self.to_grow = self.to_grow + 1;
        }
    }

    /// Whether no fruit is on the grid.
    pub fn should_make_fruit(&self) -> (r: bool)
        ensures
            r == !self@.has_fruit(),
    {
        self.fruit_x < 0 && self.fruit_y < 0
    }

    /// Whether the fruit lies under the head.
    pub fn fruit_collision(&self) -> (r: bool)
        ensures
            r == (self.fruit_x == self.head_x && self.fruit_y == self.head_y),
    {
        if self.fruit_x < 0 || self.fruit_y < 0 {
            false
        } else {
            self.fruit_x as usize == self.head_x && self.fruit_y as usize == self.head_y
        }
    }

    /// Whether enough time has passed since the last tick for another one.
    pub fn should_draw_frame(&self, elapsed_millis: u128) -> (r: bool)
        ensures
            r == (elapsed_millis > TICK_MILLIS),
    {
        elapsed_millis > TICK_MILLIS
    }

    /// The cell of the head.
    pub fn get_head(&self) -> (r: (usize, usize))
        ensures
            r == self@.head(),
    {
        (self.head_x, self.head_y)
    }
}

} // verus!
