use vstd::prelude::*;

use crate::border::Settings;

verus! {

/// The mathematical picture of a screen: its size, its cells in row-major
/// order, and the fill and stroke settings that later drawing reads.
pub struct ScreenView {
    pub width: nat,
    pub height: nat,
    pub cells: Seq<char>,
    pub fill: bool,
    pub fill_value: char,
    pub stroke: bool,
    pub stroke_value: char,
}

impl ScreenView {
    /// The cell count matches the size, and every flat index fits in a `u32`.
    pub open spec fn wf(self) -> bool {
        &&& self.cells.len() == self.width * self.height
        &&& self.width * self.height <= u32::MAX
    }

    /// Whether column `x` of row `y` is a cell of the screen.
    pub open spec fn in_bounds(self, x: int, y: int) -> bool {
        0 <= x < self.width && 0 <= y < self.height
    }

    /// The character at column `x` of row `y`.
    pub open spec fn at(self, x: int, y: int) -> char {
        self.cells[y * self.width + x]
    }

    /// A `width` by `height` screen with every cell `c`, fill and stroke off.
    pub open spec fn blank(width: nat, height: nat, c: char) -> ScreenView {
        ScreenView {
            width,
            height,
            cells: Seq::new(width * height, |k: int| c),
            fill: false,
            fill_value: ' ',
            stroke: false,
            stroke_value: ' ',
        }
    }

    /// `self` with the cell at column `x` of row `y` set to `value`.
    pub open spec fn set_cell(self, x: int, y: int, value: char) -> ScreenView {
        ScreenView { cells: self.cells.update(y * self.width + x, value), ..self }
    }

    /// The rows from top to bottom, each from left to right.
    pub open spec fn rows(self) -> Seq<Seq<char>> {
        Seq::new(self.height, |j: int| Seq::new(self.width, |i: int| self.at(i, j)))
    }

    /// `self` with every cell set to `value`.
    pub open spec fn with_all(self, value: char) -> ScreenView {
        ScreenView { cells: Seq::new(self.cells.len(), |k: int| value), ..self }
    }

    /// Same size and same settings; the cells may differ.
    pub open spec fn same_frame(self, other: ScreenView) -> bool {
        &&& self.width == other.width
        &&& self.height == other.height
        &&& self.cells.len() == other.cells.len()
        &&& self.fill == other.fill
        &&& self.fill_value == other.fill_value
        &&& self.stroke == other.stroke
        &&& self.stroke_value == other.stroke_value
    }

    /// `self` is `before` with every cell replaced by what `pic` gives for it.
    pub open spec fn drawn(self, before: ScreenView, pic: spec_fn(int, int) -> char) -> bool {
        &&& self.same_frame(before)
        &&& forall|i: int, j: int|
            self.in_bounds(i, j) ==> #[trigger] self.at(i, j) == pic(i, j)
    }
}


/// Whether `(i, j)` lies in the box with corners `(x0, y0)` and `(x1, y1)`,
/// both included.
pub open spec fn in_box(x0: int, y0: int, x1: int, y1: int, i: int, j: int) -> bool {
    x0 <= i <= x1 && y0 <= j <= y1
}

/// What a rectangle centred at `(x, y)` with size `w` by `h` leaves at `(i, j)`:
/// the stroke on its four edges when stroke is on, the fill on the rest of it
/// when fill is on, and the old cell elsewhere.
pub open spec fn rect_cell(s: ScreenView, x: int, y: int, w: int, h: int, i: int, j: int) -> char {
    let (x0, y0, x1, y1) = (x - w / 2, y - h / 2, x + w / 2, y + h / 2);
    if s.stroke && in_box(x0, y0, x1, y1, i, j) && (i == x0 || i == x1 || j == y0 || j == y1) {
        s.stroke_value
    } else if s.fill && in_box(x0, y0, x1, y1, i, j) {
        s.fill_value
    } else {
        s.at(i, j)
    }
}

/// What outlining with `b` leaves at `(i, j)`: the corner character on the
/// four corners, then the left and right characters on the first and last
/// columns, the top and bottom characters on the first and last rows.
pub open spec fn border_cell(s: ScreenView, b: Settings, i: int, j: int) -> char {
    let (r, l) = (s.width - 1, s.height - 1);
    if (i == 0 || i == r) && (j == 0 || j == l) {
        b.corners
    } else if i == r {
        b.right
    } else if i == 0 {
        b.left
    } else if j == l {
        b.bottom
    } else if j == 0 {
        b.top
    } else {
        s.at(i, j)
    }
}

/// What a solid outline with `value` leaves at `(i, j)`.
pub open spec fn solid_border_cell(s: ScreenView, value: char, i: int, j: int) -> char {
    if i == 0 || i == s.width - 1 || j == 0 || j == s.height - 1 {
        value
    } else {
        s.at(i, j)
    }
}


/// The row that a line from `(x1, y1)` to `(x2, y2)` takes at column `i`.
/// Going from the left end, the row moves by the slope at each column and is
/// rounded to the nearest integer, halves upward; the row is computed exactly,
/// as a fraction of integers. A vertical line has one point, its start.
pub open spec fn line_row(x1: int, y1: int, x2: int, y2: int, i: int) -> int {
    let (xa, ya, xb, yb) = if x1 <= x2 {
        (x1, y1, x2, y2)
    } else {
        (x2, y2, x1, y1)
    };
    if xa == xb {
        y1
    } else {
        let d = xb - xa;
        (2 * (ya * d + (i - xa) * (yb - ya)) + d) / (2 * d)
    }
}

/// What drawing a line from `(x1, y1)` to `(x2, y2)` leaves at `(i, j)`: the
/// stroke at one row of each column between the ends when stroke is on, and
/// the old cell elsewhere.
pub open spec fn line_cell(s: ScreenView, x1: int, y1: int, x2: int, y2: int, i: int, j: int) -> char {
    let (xa, xb) = if x1 <= x2 {
        (x1, x2)
    } else {
        (x2, x1)
    };
    if s.stroke && xa <= i <= xb && j == line_row(x1, y1, x2, y2, i) {
        s.stroke_value
    } else {
        s.at(i, j)
    }
}

/// The squared distance between `(i, j)` and `(x, y)`.
pub open spec fn dist2(x: int, y: int, i: int, j: int) -> int {
    (i - x) * (i - x) + (j - y) * (j - y)
}

/// What drawing a circle centred at `(x, y)` with radius `r` leaves at
/// `(i, j)`: inside its bounding box, the fill where the squared distance is
/// below `r * r` and fill is on, the stroke where it is `r * r` or `r * r + 1`
/// and stroke is on; the old cell elsewhere.
pub open spec fn circle_cell(s: ScreenView, x: int, y: int, r: int, i: int, j: int) -> char {
    let (d, r2) = (dist2(x, y, i, j), r * r);
    if in_box(x - r, y - r, x + r, y + r, i, j) && d < r2 && s.fill {
        s.fill_value
    } else if in_box(x - r, y - r, x + r, y + r, i, j) && (d == r2 || d == r2 + 1) && s.stroke {
        s.stroke_value
    } else {
        s.at(i, j)
    }
}

/// What writing `t` from column `x` of row `y` leaves at `(i, j)`: one
/// character per column up to the right edge, the rest of `t` dropped.
pub open spec fn text_cell(s: ScreenView, t: Seq<char>, x: int, y: int, i: int, j: int) -> char {
    if j == y && x <= i < s.width && i - x < t.len() {
        t[i - x]
    } else {
        s.at(i, j)
    }
}

/// What shifting left by `n` columns leaves at `(i, j)`: the cell `n` columns
/// to its right, or, in the last `n` columns, the cell as it was.
pub open spec fn shifted_cell(s: ScreenView, n: int, i: int, j: int) -> char {
    if i + n < s.width {
        s.at(i + n, j)
    } else {
        s.at(i, j)
    }
}

/// The flat index of an in-bounds cell lies inside the buffer.
pub(crate) proof fn lemma_index_bound(w: int, h: int, x: int, y: int)
    requires
        0 <= x < w,
        0 <= y < h,
    ensures
        0 <= y * w + x < w * h,
{
    assert(0 <= y * w) by (nonlinear_arith)
        requires
            0 <= y,
            0 <= w,
    ;
    assert(y * w + w <= h * w) by (nonlinear_arith)
        requires
            y < h,
            0 <= w,
    ;
}

/// Two in-bounds cells share a flat index only if they are the same cell.
pub(crate) proof fn lemma_index_unique(w: int, x1: int, y1: int, x2: int, y2: int)
    requires
        0 <= x1 < w,
        0 <= x2 < w,
        0 <= y1,
        0 <= y2,
        y1 * w + x1 == y2 * w + x2,
    ensures
        x1 == x2,
        y1 == y2,
{
    if y1 < y2 {
        assert(y1 * w + w <= y2 * w) by (nonlinear_arith)
            requires
                y1 < y2,
                0 <= w,
        ;
    } else if y2 < y1 {
        assert(y2 * w + w <= y1 * w) by (nonlinear_arith)
            requires
                y2 < y1,
                0 <= w,
        ;
    }
}


/// With `q > 0`, a value between `lo * q` and `(hi + 1) * q` divides to a
/// quotient between `lo` and `hi`.
proof fn lemma_div_between(a: int, q: int, lo: int, hi: int)
    requires
        q > 0,
        lo * q <= a < (hi + 1) * q,
    ensures
        lo <= a / q <= hi,
{
    vstd::arithmetic::div_mod::lemma_fundamental_div_mod(a, q);
    let t = a / q;
    let m = a % q;
    assert(0 <= m < q);
    assert(lo <= t) by (nonlinear_arith)
        requires
            q > 0,
            a == q * t + m,
            m < q,
            lo * q <= a,
    ;
    assert(t <= hi) by (nonlinear_arith)
        requires
            q > 0,
            a == q * t + m,
            0 <= m,
            a < (hi + 1) * q,
    ;
}

/// The row of a line at any column between its ends lies between the rows
/// of its ends.
pub(crate) proof fn lemma_line_row_between(ya: int, yb: int, d: int, k: int)
    requires
        d > 0,
        0 <= k <= d,
    ensures
        ya <= yb ==> ya <= (2 * (ya * d + k * (yb - ya)) + d) / (2 * d) <= yb,
        yb < ya ==> yb <= (2 * (ya * d + k * (yb - ya)) + d) / (2 * d) <= ya,
{
    let p = ya * d + k * (yb - ya);
    if ya <= yb {
        assert(ya * d <= p <= yb * d) by (nonlinear_arith)
            requires
                p == ya * d + k * (yb - ya),
                0 <= k <= d,
                ya <= yb,
        ;
        assert(ya * (2 * d) <= 2 * p + d < (yb + 1) * (2 * d)) by (nonlinear_arith)
            requires
                ya * d <= p <= yb * d,
                d > 0,
        ;
        lemma_div_between(2 * p + d, 2 * d, ya, yb);
    } else {
        assert(yb * d <= p <= ya * d) by (nonlinear_arith)
            requires
                p == ya * d + k * (yb - ya),
                0 <= k <= d,
                yb < ya,
        ;
        assert(yb * (2 * d) <= 2 * p + d < (ya + 1) * (2 * d)) by (nonlinear_arith)
            requires
                yb * d <= p <= ya * d,
                d > 0,
        ;
        lemma_div_between(2 * p + d, 2 * d, yb, ya);
    }
}


/// Writing a cell and reading it back gives the value written, and every
/// other cell reads as before: no two cells share storage.
pub proof fn lemma_set_then_get(s: ScreenView, x: int, y: int, value: char)
    requires
        s.wf(),
        s.in_bounds(x, y),
    ensures
        s.set_cell(x, y, value).wf(),
        s.set_cell(x, y, value).at(x, y) == value,
        forall|i: int, j: int|
            s.in_bounds(i, j) && !(i == x && j == y) ==> #[trigger] s.set_cell(x, y, value).at(i, j)
                == s.at(i, j),
{
    lemma_index_bound(s.width as int, s.height as int, x, y);
    assert forall|i: int, j: int|
        s.in_bounds(i, j) && !(i == x && j == y) implies #[trigger] s.set_cell(x, y, value).at(
        i,
        j,
    ) == s.at(i, j) by {
        lemma_index_bound(s.width as int, s.height as int, i, j);
        if j * s.width + i == y * s.width + x {
            lemma_index_unique(s.width as int, i, j, x, y);
        }
    }
}

/// A fresh screen renders as `height` rows of `width` copies of its fill
/// character.
pub proof fn lemma_blank_rows(width: nat, height: nat, c: char)
    requires
        width * height <= u32::MAX,
    ensures
        ScreenView::blank(width, height, c).wf(),
        ScreenView::blank(width, height, c).rows() == Seq::new(
            height,
            |j: int| Seq::new(width, |i: int| c),
        ),
{
    let s = ScreenView::blank(width, height, c);
    assert forall|j: int| 0 <= j < height implies #[trigger] s.rows()[j] == Seq::new(
        width,
        |i: int| c,
    ) by {
        assert forall|i: int| 0 <= i < width implies s.rows()[j][i] == c by {
            lemma_index_bound(width as int, height as int, i, j);
        }
        assert(s.rows()[j] =~= Seq::new(width, |i: int| c));
    }
    assert(s.rows() =~= Seq::new(height, |j: int| Seq::new(width, |i: int| c)));
}

/// Outlining with one solid character is outlining with settings whose five
/// characters are all that character.
pub proof fn lemma_solid_border_is_border(s: ScreenView, c: char)
    ensures
        forall|i: int, j: int|
            #[trigger] solid_border_cell(s, c, i, j) == border_cell(
                s,
                Settings { corners: c, top: c, left: c, bottom: c, right: c },
                i,
                j,
            ),
{
}

/// Setting every cell to one value a second time changes nothing.
pub proof fn lemma_background_idempotent(s: ScreenView, value: char)
    ensures
        s.with_all(value).with_all(value) == s.with_all(value),
{
    assert(s.with_all(value).with_all(value).cells =~= s.with_all(value).cells);
}

} // verus!
