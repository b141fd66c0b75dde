//! Flat-colour rectangles on a linear pixel buffer.
use vstd::prelude::*;

verus! {

/// A colour of three 8-bit channels.
#[derive(Clone, Copy, Debug, PartialEq, Eq, Structural)]
pub struct Color {
    pub r: u8,
    pub g: u8,
    pub b: u8,
}

/// A pixel buffer of `width` by `height` pixels, stored row after row.
pub struct Frame {
    pub width: usize,
    pub height: usize,
    pub pixels: Vec<Color>,
}

impl Frame {
    /// The buffer holds exactly one pixel per position.
    pub open spec fn wf(&self) -> bool {
        self.pixels@.len() == self.width * self.height
    }

    /// A black frame of the given size.
    pub fn new(width: usize, height: usize) -> (f: Frame)
        requires
            width * height <= usize::MAX,
        ensures
            f.wf(),
            f.width == width,
            f.height == height,
            f.pixels@ == Seq::new((width * height) as nat, |k: int| Color { r: 0, g: 0, b: 0 }),
    {
        let n: usize = width * height;
        let mut pixels: Vec<Color> = Vec::new();
        while pixels.len() < n
            invariant
                pixels.len() <= n,
                forall|k: int| 0 <= k < pixels.len() ==> pixels@[k] == (Color { r: 0, g: 0, b: 0 }),
            decreases n - pixels.len(),
        {
            pixels.push(Color { r: 0, g: 0, b: 0 });
        }
        assert(pixels@ =~= Seq::new(n as nat, |k: int| Color { r: 0, g: 0, b: 0 }));
        Frame { width, height, pixels }
    }
}

/// Whether linear index `k` is `row * width + col` for some cell of the
/// rectangle with corner `(x, y)` and size `w` by `h`.
pub open spec fn covers(x: int, y: int, w: int, h: int, width: int, k: int) -> bool {
    exists|row: int, col: int|
        y <= row < y + h && x <= col < x + w && #[trigger] (row * width + col) == k
}

/// The buffer `px` after the rectangle has been filled with `color`; indices
/// past the end of the buffer are left out.
pub open spec fn paint(
    px: Seq<Color>,
    width: int,
    x: int,
    y: int,
    w: int,
    h: int,
    color: Color,
) -> Seq<Color> {
    Seq::new(px.len(), |k: int| if covers(x, y, w, h, width, k) { color } else { px[k] })
}

/// The part of the rectangle painted so far: the rows before `j` whole, and
/// row `j` up to column `i`.
spec fn covers_upto(x: int, y: int, w: int, width: int, j: int, i: int, k: int) -> bool {
    exists|row: int, col: int|
        ((y <= row < j && x <= col < x + w) || (row == j && x <= col < i)) && #[trigger] (row
            * width + col) == k
}

/// Fills the rectangle with corner `(x, y)` and size `w` by `h` of `frame`
/// with `color`, skipping every index that falls outside the buffer.
pub fn draw_rect(frame: &mut Frame, x: usize, y: usize, w: usize, h: usize, col: Color)
    requires
        x + w <= usize::MAX,
        y + h <= usize::MAX,
    ensures
        final(frame).width == old(frame).width,
        final(frame).height == old(frame).height,
        final(frame).pixels@ == paint(
            old(frame).pixels@,
            old(frame).width as int,
            x as int,
            y as int,
            w as int,
            h as int,
            col,
        ),
{
    let width = frame.width;
    let ghost start = frame.pixels@;
    let mut j: usize = y;
    while j < y + h
        invariant
            y <= j <= y + h,
            y + h <= usize::MAX,
            x + w <= usize::MAX,
            frame.width == width,
            frame.height == old(frame).height,
            frame.pixels@.len() == start.len(),
            start == old(frame).pixels@,
            forall|k: int|
                0 <= k < start.len() ==> #[trigger] frame.pixels@[k] == if covers_upto(
                    x as int,
                    y as int,
                    w as int,
                    width as int,
                    j as int,
                    x as int,
                    k,
                ) {
                    col
                } else {
                    start[k]
                },
        decreases y + h - j,
    {
        let mut i: usize = x;
        while i < x + w
            invariant
                y <= j < y + h,
                x <= i <= x + w,
                x + w <= usize::MAX,
                frame.width == width,
                frame.height == old(frame).height,
                frame.pixels@.len() == start.len(),
                forall|k: int|
                    0 <= k < start.len() ==> #[trigger] frame.pixels@[k] == if covers_upto(
                        x as int,
                        y as int,
                        w as int,
                        width as int,
                        j as int,
                        i as int,
                        k,
                    ) {
                        col
                    } else {
                        start[k]
                    },
            decreases x + w - i,
        {
            let ghost before = frame.pixels@;
            let len = frame.pixels.len();
            let product = j.checked_mul(width);
            if let Some(base) = product {
                let sum = base.checked_add(i);
                if let Some(index) = sum {
                    if index < len {
                        frame.pixels.set(index, col);
                    }
                }
            }
            proof {
                let idx = j * width + i;
                if idx < before.len() {
                    assert(j * width <= usize::MAX);
                    assert(frame.pixels@ == before.update(idx, col));
                } else {
                    assert(frame.pixels@ == before);
                }
            }
            assert forall|k: int| 0 <= k < start.len() implies #[trigger] frame.pixels@[k]
                == if covers_upto(
                x as int,
                y as int,
                w as int,
                width as int,
                j as int,
                i + 1,
                k,
            ) {
                col
            } else {
                start[k]
            } by {
                let idx = j * width + i;
                if k == idx {
                    assert(covers_upto(x as int, y as int, w as int, width as int, j as int, i + 1, k)) by {
                        assert(((j as int) * (width as int) + (i as int)) == k);
                    }
                } else {
                    if covers_upto(x as int, y as int, w as int, width as int, j as int, i + 1, k) {
                        let (row, c) = choose|row: int, col: int|
                            ((y <= row < j && x <= col < x + w) || (row == j && x <= col < i + 1))
                                && #[trigger] (row * width + col) == k;
                        assert(covers_upto(x as int, y as int, w as int, width as int, j as int, i as int, k));
                    }
                    if covers_upto(x as int, y as int, w as int, width as int, j as int, i as int, k) {
                        let (row, c) = choose|row: int, col: int|
                            ((y <= row < j && x <= col < x + w) || (row == j && x <= col < i))
                                && #[trigger] (row * width + col) == k;
                        assert(covers_upto(x as int, y as int, w as int, width as int, j as int, i + 1, k));
                    }
                }
            }
            i = i + 1;
        }
        assert forall|k: int| 0 <= k < start.len() implies #[trigger] covers_upto(
            x as int,
            y as int,
            w as int,
            width as int,
            j as int,
            (x + w) as int,
            k,
        ) == covers_upto(x as int, y as int, w as int, width as int, j + 1, x as int, k) by {
            if covers_upto(x as int, y as int, w as int, width as int, j as int, (x + w) as int, k) {
                let (row, c) = choose|row: int, col: int|
                    ((y <= row < j && x <= col < x + w) || (row == j && x <= col < x + w))
                        && #[trigger] (row * width + col) == k;
                assert(covers_upto(x as int, y as int, w as int, width as int, j + 1, x as int, k));
            }
            if covers_upto(x as int, y as int, w as int, width as int, j + 1, x as int, k) {
                let (row, c) = choose|row: int, col: int|
                    ((y <= row < j + 1 && x <= col < x + w) || (row == j + 1 && x <= col < x))
                        && #[trigger] (row * width + col) == k;
                assert(covers_upto(x as int, y as int, w as int, width as int, j as int, (x + w) as int, k));
            }
        }
        j = j + 1;
    }
    assert forall|k: int| 0 <= k < start.len() implies #[trigger] covers_upto(
        x as int,
        y as int,
        w as int,
        width as int,
        (y + h) as int,
        x as int,
        k,
    ) == covers(x as int, y as int, w as int, h as int, width as int, k) by {
        if covers_upto(x as int, y as int, w as int, width as int, (y + h) as int, x as int, k) {
            let (row, c) = choose|row: int, col: int|
                ((y <= row < y + h && x <= col < x + w) || (row == y + h && x <= col < x))
                    && #[trigger] (row * width + col) == k;
            assert(covers(x as int, y as int, w as int, h as int, width as int, k));
        }
        if covers(x as int, y as int, w as int, h as int, width as int, k) {
            let (row, c) = choose|row: int, col: int|
                y <= row < y + h && x <= col < x + w && #[trigger] (row * width + col) == k;
            assert(covers_upto(x as int, y as int, w as int, width as int, (y + h) as int, x as int, k));
        }
    }
    assert(frame.pixels@ =~= paint(start, width as int, x as int, y as int, w as int, h as int, col));
}

} // verus!
