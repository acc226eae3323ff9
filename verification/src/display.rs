//! Rendering a generation as a frame of terminal cells.
//!
//! A frame is `ysize` rows of `xsize` cells, each row ended by a newline.
//! The basic style paints live cells as blue blocks; the fancy style
//! distinguishes born (green), still alive (blue) and just died (red). The
//! exact character content of a frame is pinned down by [`frame_chars`];
//! printing it, and the cursor-control codes around it, stay with the
//! driver.

use crate::universe::{contains_point, Point, Universe, MAX_SIZE};
use vstd::prelude::*;
use vstd::string::StringExecFns;

verus! {

/// The cell as the basic style draws it: a blue block if alive, blank else.
pub open spec fn basic_cell(u: Universe, p: Point) -> Seq<char> {
    if u.alive@.contains(p) {
        "\x1b[0;;44m \x1b[0m"@
    } else {
        " "@
    }
}

/// The cell as the fancy style draws it: green if born this step, blue if
/// alive from before, red if it just died, blank else.
pub open spec fn fancy_cell(u: Universe, p: Point) -> Seq<char> {
    if u.born@.contains(p) {
        "\x1b[0;;42m \x1b[0m"@
    } else if u.alive@.contains(p) {
        "\x1b[0;;44m \x1b[0m"@
    } else if u.died@.contains(p) {
        "\x1b[0;;41m \x1b[0m"@
    } else {
        " "@
    }
}

/// The cell in the chosen style.
pub open spec fn cell_chars(u: Universe, fancy: bool, p: Point) -> Seq<char> {
    if fancy {
        fancy_cell(u, p)
    } else {
        basic_cell(u, p)
    }
}

/// The first `w` cells of row `y`.
pub open spec fn row_chars(u: Universe, fancy: bool, y: int, w: int) -> Seq<char>
    decreases w,
{
    if w <= 0 {
        Seq::empty()
    } else {
        row_chars(u, fancy, y, w - 1) + cell_chars(u, fancy, Point((w - 1) as i32, y as i32))
    }
}

/// The first `h` rows of a `w`-wide frame, each ended by a newline.
pub open spec fn frame_chars(u: Universe, fancy: bool, w: int, h: int) -> Seq<char>
    decreases h,
{
    if h <= 0 {
        Seq::empty()
    } else {
        frame_chars(u, fancy, w, h - 1) + row_chars(u, fancy, h - 1, w) + "\n"@
    }
}

/// A renderer: the extent of the frame it draws and the style it draws in.
pub struct Display {
    pub xsize: u32,
    pub ysize: u32,
    pub fancy: bool,
}

impl Display {
    /// A renderer in the basic style.
    pub fn basic(xsize: u32, ysize: u32) -> (d: Display)
        ensures
            d.xsize == xsize,
            d.ysize == ysize,
            !d.fancy,
    {
        Display { xsize, ysize, fancy: false }
    }

    /// A renderer in the fancy style.
    pub fn fancy(xsize: u32, ysize: u32) -> (d: Display)
        ensures
            d.xsize == xsize,
            d.ysize == ysize,
            d.fancy,
    {
        Display { xsize, ysize, fancy: true }
    }

    /// Draws the whole frame: exactly [`frame_chars`] of the generation, in
    /// this renderer's style and extent.
    pub fn frame(&self, u: &Universe) -> (r: String)
        requires
            self.xsize <= MAX_SIZE,
            self.ysize <= MAX_SIZE,
        ensures
            r@ == frame_chars(*u, self.fancy, self.xsize as int, self.ysize as int),
    {
        let mut buf = String::new();
        let mut y: u32 = 0;
        while y < self.ysize
            invariant
                y <= self.ysize,
                self.xsize <= MAX_SIZE,
                self.ysize <= MAX_SIZE,
                buf@ == frame_chars(*u, self.fancy, self.xsize as int, y as int),
            decreases self.ysize - y,
        {
            let ghost row_start = buf@;
            proof {
                assert(buf@ =~= row_start + row_chars(*u, self.fancy, y as int, 0));
            }
            let mut x: u32 = 0;
            while x < self.xsize
                invariant
                    x <= self.xsize,
                    y < self.ysize,
                    self.xsize <= MAX_SIZE,
                    self.ysize <= MAX_SIZE,
                    row_start == frame_chars(*u, self.fancy, self.xsize as int, y as int),
                    buf@ == row_start + row_chars(*u, self.fancy, y as int, x as int),
                decreases self.xsize - x,
            {
                let p = Point(x as i32, y as i32);
                let cell = if self.fancy {
                    Display::render_fancy(&p, u)
                } else {
                    Display::render_basic(&p, u)
                };
                buf.append(cell);
                proof {
                    assert(buf@ =~= row_start + row_chars(*u, self.fancy, y as int, x + 1));
                }
                x += 1;
            }
            buf.append("\n");
            proof {
                assert(buf@ =~= frame_chars(*u, self.fancy, self.xsize as int, y + 1));
            }
            y += 1;
        }
        buf
    }

    /// The basic style of one cell.
    fn render_basic(p: &Point, u: &Universe) -> (r: &'static str)
        ensures
            r@ == basic_cell(*u, *p),
    {
        if contains_point(&u.alive, p) {
            "\x1b[0;;44m \x1b[0m"
        } else {
            " "
        }
    }

    /// The fancy style of one cell.
    fn render_fancy(p: &Point, u: &Universe) -> (r: &'static str)
        ensures
            r@ == fancy_cell(*u, *p),
    {
        if contains_point(&u.born, p) {
            "\x1b[0;;42m \x1b[0m"
        } else if contains_point(&u.alive, p) {
            "\x1b[0;;44m \x1b[0m"
        } else if contains_point(&u.died, p) {
            "\x1b[0;;41m \x1b[0m"
        } else {
            " "
        }
    }
}

} // verus!
