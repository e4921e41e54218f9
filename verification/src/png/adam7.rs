//! Where the pixels of each pass lie: one pass for an image that is not
//! interlaced, seven for Adam7.

use vstd::prelude::*;
use crate::png::header::InterlaceMethod;

verus! {

/// The pixels of a pass: every `col_step`-th column from `start_col` on, in
/// every `row_step`-th row from `start_row` on.
#[derive(Debug, Clone, Copy, PartialEq, Eq, Structural)]
pub struct Pass {
    pub start_col: u32,
    pub start_row: u32,
    pub col_step: u32,
    pub row_step: u32,
}

/// A place in a pass: which pass, and the row and column within it.
pub struct Place {
    pub pass: int,
    pub row: int,
    pub column: int,
}

/// How many of the numbers `start`, `start + step`, `start + 2 * step`, ...
/// lie below `size`.
pub open spec fn reduced(size: int, start: int, step: int) -> int {
    if size <= start || step <= 0 {
        0
    } else {
        (size - start + step - 1) / step
    }
}

impl Pass {
    /// The number of columns the pass has in an image of the given width.
    pub open spec fn columns(self, width: int) -> int {
        reduced(width, self.start_col as int, self.col_step as int)
    }

    /// The number of rows the pass has in an image of the given height.
    pub open spec fn rows(self, height: int) -> int {
        reduced(height, self.start_row as int, self.row_step as int)
    }

    /// The column of the image in which column `j` of the pass lies.
    pub open spec fn column_of(self, j: int) -> int {
        self.start_col + j * self.col_step
    }

    /// The row of the image in which row `i` of the pass lies.
    pub open spec fn row_of(self, i: int) -> int {
        self.start_row + i * self.row_step
    }

    /// The number of columns the pass has in an image of the given width.
    pub fn column_count(&self, width: u32) -> (count: u32)
        ensures
            count == self.columns(width as int),
    {
        reduced_size(width, self.start_col, self.col_step)
    }

    /// The number of rows the pass has in an image of the given height.
    pub fn row_count(&self, height: u32) -> (count: u32)
        ensures
            count == self.rows(height as int),
    {
        reduced_size(height, self.start_row, self.row_step)
    }
}

/// The seven passes of Adam7, counted from zero.
pub open spec fn adam7_pass(p: int) -> Pass {
    if p == 0 {
        Pass { start_col: 0, start_row: 0, col_step: 8, row_step: 8 }
    } else if p == 1 {
        Pass { start_col: 4, start_row: 0, col_step: 8, row_step: 8 }
    } else if p == 2 {
        Pass { start_col: 0, start_row: 4, col_step: 4, row_step: 8 }
    } else if p == 3 {
        Pass { start_col: 2, start_row: 0, col_step: 4, row_step: 4 }
    } else if p == 4 {
        Pass { start_col: 0, start_row: 2, col_step: 2, row_step: 4 }
    } else if p == 5 {
        Pass { start_col: 1, start_row: 0, col_step: 2, row_step: 2 }
    } else {
        Pass { start_col: 0, start_row: 1, col_step: 1, row_step: 2 }
    }
}

/// The single pass of an image that is not interlaced: every pixel.
pub open spec fn whole_image() -> Pass {
    Pass { start_col: 0, start_row: 0, col_step: 1, row_step: 1 }
}

impl InterlaceMethod {
    /// The number of passes.
    pub open spec fn passes(self) -> int {
        match self {
            InterlaceMethod::NoInterlace => 1,
            InterlaceMethod::Adam7 => 7,
        }
    }

    /// The pass with the given number, counted from zero.
    pub open spec fn pass(self, p: int) -> Pass {
        match self {
            InterlaceMethod::NoInterlace => whole_image(),
            InterlaceMethod::Adam7 => adam7_pass(p),
        }
    }

    /// The number of the pass that holds the pixel in column `x` of row `y`.
    pub open spec fn pass_holding(self, x: int, y: int) -> int {
        match self {
            InterlaceMethod::NoInterlace => 0,
            InterlaceMethod::Adam7 => if y % 2 == 1 {
                6
            } else if x % 2 == 1 {
                5
            } else if y % 4 == 2 {
                4
            } else if x % 4 == 2 {
                3
            } else if y % 8 == 4 {
                2
            } else if x % 8 == 4 {
                1
            } else {
                0
            },
        }
    }

    /// The place in its pass of the pixel in column `x` of row `y`.
    pub open spec fn place_of(self, x: int, y: int) -> Place {
        let p = self.pass_holding(x, y);
        let pass = self.pass(p);
        Place {
            pass: p,
            row: (y - pass.start_row) / (pass.row_step as int),
            column: (x - pass.start_col) / (pass.col_step as int),
        }
    }

    /// Whether there is such a place in an image of the given size.
    pub open spec fn has_place(self, width: int, height: int, place: Place) -> bool {
        &&& 0 <= place.pass < self.passes()
        &&& 0 <= place.row < self.pass(place.pass).rows(height)
        &&& 0 <= place.column < self.pass(place.pass).columns(width)
    }

    /// The number of passes.
    pub fn pass_count(&self) -> (count: usize)
        ensures
            count == self.passes(),
    {
        match self {
            InterlaceMethod::NoInterlace => 1,
            InterlaceMethod::Adam7 => 7,
        }
    }

    /// The pass with the given number, counted from zero.
    pub fn pass_geometry(&self, p: usize) -> (pass: Pass)
        ensures
            pass == self.pass(p as int),
            pass.col_step >= 1,
            pass.row_step >= 1,
    {
        match self {
            InterlaceMethod::NoInterlace => Pass {
                start_col: 0,
                start_row: 0,
                col_step: 1,
                row_step: 1,
            },
            InterlaceMethod::Adam7 => {
                if p == 0 {
                    Pass { start_col: 0, start_row: 0, col_step: 8, row_step: 8 }
                } else if p == 1 {
                    Pass { start_col: 4, start_row: 0, col_step: 8, row_step: 8 }
                } else if p == 2 {
                    Pass { start_col: 0, start_row: 4, col_step: 4, row_step: 8 }
                } else if p == 3 {
                    Pass { start_col: 2, start_row: 0, col_step: 4, row_step: 4 }
                } else if p == 4 {
                    Pass { start_col: 0, start_row: 2, col_step: 2, row_step: 4 }
                } else if p == 5 {
                    Pass { start_col: 1, start_row: 0, col_step: 2, row_step: 2 }
                } else {
                    Pass { start_col: 0, start_row: 1, col_step: 1, row_step: 2 }
                }
            },
        }
    }

    /// The number of the pass that holds the pixel in column `x` of row `y`.
    pub fn pass_of_pixel(&self, x: u32, y: u32) -> (p: usize)
        ensures
            p == self.pass_holding(x as int, y as int),
            p < self.passes(),
    {
        match self {
            InterlaceMethod::NoInterlace => 0,
            InterlaceMethod::Adam7 => {
                if y % 2 == 1 {
                    6
                } else if x % 2 == 1 {
                    5
                } else if y % 4 == 2 {
                    4
                } else if x % 4 == 2 {
                    3
                } else if y % 8 == 4 {
                    2
                } else if x % 8 == 4 {
                    1
                } else {
                    0
                }
            },
        }
    }
}

/// How many of the numbers `start`, `start + step`, ... lie below `size`.
pub fn reduced_size(size: u32, start: u32, step: u32) -> (count: u32)
    ensures
        count == reduced(size as int, start as int, step as int),
{
    if size <= start || step == 0 {
        return 0;
    }
    let span: u32 = size - start;
    let count: u32 = (span - 1) / step + 1;
    assert((span - 1) / (step as int) + 1 == (span + step - 1) / (step as int)) by (nonlinear_arith)
        requires
            step >= 1,
            span >= 1,
    ;
    count
}

/// Column `j` of a pass lies in the image exactly if the pass has more than `j` columns.
pub proof fn lemma_reduced_counts(size: int, start: int, step: int, k: int)
    requires
        0 <= start,
        1 <= step,
        0 <= k,
    ensures
        k < reduced(size, start, step) <==> start + k * step < size,
{
    if size > start {
        assert(k < (size - start + step - 1) / step <==> start + k * step < size)
            by (nonlinear_arith)
            requires
                0 <= start < size,
                1 <= step,
                0 <= k,
        ;
    } else {
        assert(k * step >= 0) by (nonlinear_arith)
            requires
                0 <= k,
                1 <= step,
        ;
    }
}

/// Products and quotients by a step whose value is known.
proof fn lemma_known_step(step: int, known: int, v: int, k: int)
    by (nonlinear_arith)
    requires
        step == known,
    ensures
        k * step == k * known,
        v / step == v / known,
{
}

/// What the columns and rows of a pass are, once its four numbers are known.
proof fn lemma_pass_is(
    pass: Pass,
    start_col: int,
    start_row: int,
    col_step: int,
    row_step: int,
    x: int,
    y: int,
    j: int,
    i: int,
)
    requires
        pass.start_col == start_col,
        pass.start_row == start_row,
        pass.col_step == col_step,
        pass.row_step == row_step,
    ensures
        pass.column_of(j) == start_col + j * col_step,
        pass.row_of(i) == start_row + i * row_step,
        (x - pass.start_col) / (pass.col_step as int) == (x - start_col) / col_step,
        (y - pass.start_row) / (pass.row_step as int) == (y - start_row) / row_step,
{
    lemma_known_step(pass.col_step as int, col_step, x - start_col, j);
    lemma_known_step(pass.row_step as int, row_step, y - start_row, i);
}

/// The same for the pass `p` of the method, whichever it is.
proof fn lemma_pass_known(method: InterlaceMethod, p: int, x: int, y: int, j: int, i: int)
    requires
        0 <= p < method.passes(),
    ensures
        method == InterlaceMethod::NoInterlace ==> {
            &&& method.pass(p).column_of(j) == j
            &&& method.pass(p).row_of(i) == i
            &&& (x - method.pass(p).start_col) / (method.pass(p).col_step as int) == x
            &&& (y - method.pass(p).start_row) / (method.pass(p).row_step as int) == y
        },
        method == InterlaceMethod::Adam7 && p == 0 ==> {
            &&& method.pass(p).column_of(j) == 8 * j
            &&& method.pass(p).row_of(i) == 8 * i
            &&& (x - method.pass(p).start_col) / (method.pass(p).col_step as int) == x / 8
            &&& (y - method.pass(p).start_row) / (method.pass(p).row_step as int) == y / 8
        },
        method == InterlaceMethod::Adam7 && p == 1 ==> {
            &&& method.pass(p).column_of(j) == 4 + 8 * j
            &&& method.pass(p).row_of(i) == 8 * i
            &&& (x - method.pass(p).start_col) / (method.pass(p).col_step as int) == (x - 4) / 8
            &&& (y - method.pass(p).start_row) / (method.pass(p).row_step as int) == y / 8
        },
        method == InterlaceMethod::Adam7 && p == 2 ==> {
            &&& method.pass(p).column_of(j) == 4 * j
            &&& method.pass(p).row_of(i) == 4 + 8 * i
            &&& (x - method.pass(p).start_col) / (method.pass(p).col_step as int) == x / 4
            &&& (y - method.pass(p).start_row) / (method.pass(p).row_step as int) == (y - 4) / 8
        },
        method == InterlaceMethod::Adam7 && p == 3 ==> {
            &&& method.pass(p).column_of(j) == 2 + 4 * j
            &&& method.pass(p).row_of(i) == 4 * i
            &&& (x - method.pass(p).start_col) / (method.pass(p).col_step as int) == (x - 2) / 4
            &&& (y - method.pass(p).start_row) / (method.pass(p).row_step as int) == y / 4
        },
        method == InterlaceMethod::Adam7 && p == 4 ==> {
            &&& method.pass(p).column_of(j) == 2 * j
            &&& method.pass(p).row_of(i) == 2 + 4 * i
            &&& (x - method.pass(p).start_col) / (method.pass(p).col_step as int) == x / 2
            &&& (y - method.pass(p).start_row) / (method.pass(p).row_step as int) == (y - 2) / 4
        },
        method == InterlaceMethod::Adam7 && p == 5 ==> {
            &&& method.pass(p).column_of(j) == 1 + 2 * j
            &&& method.pass(p).row_of(i) == 2 * i
            &&& (x - method.pass(p).start_col) / (method.pass(p).col_step as int) == (x - 1) / 2
            &&& (y - method.pass(p).start_row) / (method.pass(p).row_step as int) == y / 2
        },
        method == InterlaceMethod::Adam7 && p == 6 ==> {
            &&& method.pass(p).column_of(j) == j
            &&& method.pass(p).row_of(i) == 1 + 2 * i
            &&& (x - method.pass(p).start_col) / (method.pass(p).col_step as int) == x
            &&& (y - method.pass(p).start_row) / (method.pass(p).row_step as int) == (y - 1) / 2
        },
{
    let pass = method.pass(p);
    match method {
        InterlaceMethod::NoInterlace => lemma_pass_is(pass, 0, 0, 1, 1, x, y, j, i),
        InterlaceMethod::Adam7 => {
            if p == 0 {
                lemma_pass_is(pass, 0, 0, 8, 8, x, y, j, i);
            } else if p == 1 {
                lemma_pass_is(pass, 4, 0, 8, 8, x, y, j, i);
            } else if p == 2 {
                lemma_pass_is(pass, 0, 4, 4, 8, x, y, j, i);
            } else if p == 3 {
                lemma_pass_is(pass, 2, 0, 4, 4, x, y, j, i);
            } else if p == 4 {
                lemma_pass_is(pass, 0, 2, 2, 4, x, y, j, i);
            } else if p == 5 {
                lemma_pass_is(pass, 1, 0, 2, 2, x, y, j, i);
            } else {
                lemma_pass_is(pass, 0, 1, 1, 2, x, y, j, i);
            }
        },
    }
}

/// In each of the seven passes, the pixel that the pass holds lies a whole
/// number of steps behind the start of the pass.
proof fn lemma_adam7_steps(x: int, y: int)
    requires
        0 <= x,
        0 <= y,
    ensures
        ({
            let p = InterlaceMethod::Adam7.pass_holding(x, y);
            &&& 0 <= p < 7
            &&& p == 0 ==> 8 * (x / 8) == x && 8 * (y / 8) == y
            &&& p == 1 ==> x >= 4 && 4 + 8 * ((x - 4) / 8) == x && 8 * (y / 8) == y
            &&& p == 2 ==> y >= 4 && 4 * (x / 4) == x && 4 + 8 * ((y - 4) / 8) == y
            &&& p == 3 ==> x >= 2 && 2 + 4 * ((x - 2) / 4) == x && 4 * (y / 4) == y
            &&& p == 4 ==> y >= 2 && 2 * (x / 2) == x && 2 + 4 * ((y - 2) / 4) == y
            &&& p == 5 ==> x >= 1 && 1 + 2 * ((x - 1) / 2) == x && 2 * (y / 2) == y
            &&& p == 6 ==> y >= 1 && 1 + 2 * ((y - 1) / 2) == y
        }),
{
}

/// Every pixel of the image has a place in a pass, and lies where that place is
/// scattered to.
pub proof fn lemma_pixel_has_place(
    method: InterlaceMethod,
    width: int,
    height: int,
    x: int,
    y: int,
)
    requires
        0 <= x < width,
        0 <= y < height,
    ensures
        method.has_place(width, height, method.place_of(x, y)),
        method.pass(method.place_of(x, y).pass).column_of(method.place_of(x, y).column) == x,
        method.pass(method.place_of(x, y).pass).row_of(method.place_of(x, y).row) == y,
        method.pass(method.place_of(x, y).pass).start_col <= x,
        method.pass(method.place_of(x, y).pass).start_row <= y,
{
    let place = method.place_of(x, y);
    let pass = method.pass(place.pass);
    let j = place.column;
    let i = place.row;
    lemma_pass_known(method, place.pass, x, y, j, i);
    if method == InterlaceMethod::Adam7 {
        lemma_adam7_steps(x, y);
    }
    assert(pass.column_of(j) == x);
    assert(pass.row_of(i) == y);
    assert(0 <= j && 0 <= i);
    assert(pass.start_col <= x && pass.start_row <= y);
    lemma_reduced_counts(width, pass.start_col as int, pass.col_step as int, j);
    lemma_reduced_counts(height, pass.start_row as int, pass.row_step as int, i);
}

/// Every place of a pass is scattered to a pixel of the image, and that pixel
/// has no other place.
pub proof fn lemma_place_is_pixel(method: InterlaceMethod, width: int, height: int, place: Place)
    requires
        method.has_place(width, height, place),
    ensures
        0 <= method.pass(place.pass).column_of(place.column) < width,
        0 <= method.pass(place.pass).row_of(place.row) < height,
        method.place_of(
            method.pass(place.pass).column_of(place.column),
            method.pass(place.pass).row_of(place.row),
        ) == place,
{
    let pass = method.pass(place.pass);
    let x = pass.column_of(place.column);
    let y = pass.row_of(place.row);
    let j = place.column;
    let i = place.row;
    lemma_reduced_counts(width, pass.start_col as int, pass.col_step as int, j);
    lemma_reduced_counts(height, pass.start_row as int, pass.row_step as int, i);
    lemma_pass_known(method, place.pass, x, y, j, i);
    let found = method.place_of(x, y);
    match method {
        InterlaceMethod::NoInterlace => {
            assert(x == j && y == i);
        },
        InterlaceMethod::Adam7 => {
            if place.pass == 0 {
                assert(x == 8 * j && y == 8 * i);
                assert(x % 8 == 0 && y % 8 == 0);
                assert(x / 8 == j && y / 8 == i);
            } else if place.pass == 1 {
                assert(x == 4 + 8 * j && y == 8 * i);
                assert(x % 8 == 4 && y % 8 == 0);
                assert((x - 4) / 8 == j && y / 8 == i);
            } else if place.pass == 2 {
                assert(x == 4 * j && y == 4 + 8 * i);
                assert(x % 4 == 0 && y % 8 == 4);
                assert(x / 4 == j && (y - 4) / 8 == i);
            } else if place.pass == 3 {
                assert(x == 2 + 4 * j && y == 4 * i);
                assert(x % 4 == 2 && y % 4 == 0);
                assert((x - 2) / 4 == j && y / 4 == i);
            } else if place.pass == 4 {
                assert(x == 2 * j && y == 2 + 4 * i);
                assert(x % 2 == 0 && y % 4 == 2);
                assert(x / 2 == j && (y - 2) / 4 == i);
            } else if place.pass == 5 {
                assert(x == 1 + 2 * j && y == 2 * i);
                assert(x % 2 == 1 && y % 2 == 0);
                assert((x - 1) / 2 == j && y / 2 == i);
            } else {
                assert(x == j && y == 1 + 2 * i);
                assert(y % 2 == 1);
                assert((y - 1) / 2 == i);
            }
        },
    }
    assert(method.pass_holding(x, y) == place.pass);
    assert(found.pass == place.pass);
    assert(found.row == place.row);
    assert(found.column == place.column);
}

/// The passes cover the image exactly once: each pixel is the target of one
/// place and of no second one.
pub proof fn lemma_passes_cover_exactly_once(
    method: InterlaceMethod,
    width: int,
    height: int,
    x: int,
    y: int,
)
    requires
        0 <= x < width,
        0 <= y < height,
    ensures
        exists|place: Place|
            #![trigger method.has_place(width, height, place)]
            method.has_place(width, height, place) && method.pass(place.pass).column_of(
                place.column,
            ) == x && method.pass(place.pass).row_of(place.row) == y,
        forall|a: Place, b: Place|
            #![trigger method.has_place(width, height, a), method.has_place(width, height, b)]
            method.has_place(width, height, a) && method.has_place(width, height, b)
                && method.pass(a.pass).column_of(a.column) == x && method.pass(a.pass).row_of(
                a.row,
            ) == y && method.pass(b.pass).column_of(b.column) == x && method.pass(b.pass).row_of(
                b.row,
            ) == y ==> a == b,
{
    lemma_pixel_has_place(method, width, height, x, y);
    assert forall|a: Place, b: Place|
        #![trigger method.has_place(width, height, a), method.has_place(width, height, b)]
        method.has_place(width, height, a) && method.has_place(width, height, b) && method.pass(
            a.pass,
        ).column_of(a.column) == x && method.pass(a.pass).row_of(a.row) == y && method.pass(
            b.pass,
        ).column_of(b.column) == x && method.pass(b.pass).row_of(b.row) == y implies a == b by {
        lemma_place_is_pixel(method, width, height, a);
        lemma_place_is_pixel(method, width, height, b);
    }
}

} // verus!
