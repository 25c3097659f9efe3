use vstd::prelude::*;
use vstd::string::StrSliceExecFns;

use crate::border::Settings;
use crate::model::{
    border_cell, circle_cell, dist2, in_box, lemma_index_bound, lemma_line_row_between,
    lemma_set_then_get, line_cell, line_row, rect_cell, shifted_cell, solid_border_cell, text_cell,
    ScreenView,
};

verus! {

/// Relies on `String::push`: appends one character at the end.
#[verifier::external_body]
fn push_char(s: &mut String, c: char)
    ensures
        final(s)@ == old(s)@.push(c),
{
    s.push(c);
}

/// Creates a `width` by `height` screen filled with spaces.
pub fn create(width: u32, height: u32) -> (r: Screen)
    requires
        width * height <= u32::MAX,
    ensures
        r.wf(),
        r@ == ScreenView::blank(width as nat, height as nat, ' '),
{
    Screen::new(width, height, ' ')
}

/// A grid of characters with the fill and stroke settings used by drawing.
pub struct Screen {
    /// the width of the screen
    pub width: u32,
    /// the height of the screen
    pub height: u32,
    buffer: Vec<char>,
    fill_value: char,
    fill: bool,
    stroke: bool,
    stroke_value: char,
}

impl View for Screen {
    type V = ScreenView;

    closed spec fn view(&self) -> ScreenView {
        ScreenView {
            width: self.width as nat,
            height: self.height as nat,
            cells: self.buffer@,
            fill: self.fill,
            fill_value: self.fill_value,
            stroke: self.stroke,
            stroke_value: self.stroke_value,
        }
    }
}

impl Screen {
    /// The buffer holds exactly one cell per column and row.
    pub open spec fn wf(&self) -> bool {
        self@.wf()
    }

    /// Creates a `width` by `height` screen with every cell set to `default`,
    /// fill and stroke off.
    pub fn new(width: u32, height: u32, default: char) -> (r: Screen)
        requires
            width * height <= u32::MAX,
        ensures
            r.wf(),
            r@ == ScreenView::blank(width as nat, height as nat, default),
    {
        let n: u32 = width * height;
        let mut buffer: Vec<char> = Vec::with_capacity(n as usize);
        let mut k: u32 = 0;
        while k < n
            invariant
                k <= n,
                buffer@ == Seq::new(k as nat, |i: int| default),
            decreases n - k,
        {
            buffer.push(default);
            k = k + 1;
        }
        assert(buffer@ =~= Seq::new(n as nat, |i: int| default));
        Screen {
            width,
            height,
            buffer,
            fill: false,
            fill_value: ' ',
            stroke: false,
            stroke_value: ' ',
        }
    }

    /// Where column `x` of row `y` lies in the row-major buffer.
    fn flat(&self, x: u32, y: u32) -> (r: usize)
        requires
            self.wf(),
            self@.in_bounds(x as int, y as int),
        ensures
            r == y * self@.width + x,
            r < self@.cells.len(),
    {
        proof {
            lemma_index_bound(self.width as int, self.height as int, x as int, y as int);
        }
        (y * self.width + x) as usize
    }

    /// The character at column `x` of row `y`.
    pub fn get(&self, x: u32, y: u32) -> (r: char)
        requires
            self.wf(),
            x < self@.width,
            y < self@.height,
        ensures
            r == self@.at(x as int, y as int),
    {
        let k = self.flat(x, y);
        self.buffer[k]
    }

    /// Writes `value` at column `x` of row `y`; no other cell changes.
    pub fn set(&mut self, x: u32, y: u32, value: char)
        requires
            old(self).wf(),
            x < old(self)@.width,
            y < old(self)@.height,
        ensures
            final(self).wf(),
            final(self)@ == old(self)@.set_cell(x as int, y as int, value),
            final(self)@.drawn(
                old(self)@,
                |i: int, j: int|
                    if i == x && j == y {
                        value
                    } else {
                        old(self)@.at(i, j)
                    },
            ),
    {
        let k = self.flat(x, y);
        self.buffer.set(k, value);
        proof {
            lemma_set_then_get(old(self)@, x as int, y as int, value);
        }
    }

    /// Writes `c` on every cell of the box with corners `(x0, y0)` and
    /// `(x1, y1)`, both included.
    fn paint_box(&mut self, x0: u32, y0: u32, x1: u32, y1: u32, c: char)
        requires
            old(self).wf(),
            x0 <= x1 < old(self)@.width,
            y0 <= y1 < old(self)@.height,
        ensures
            final(self).wf(),
            final(self)@.drawn(
                old(self)@,
                |i: int, j: int|
                    if in_box(x0 as int, y0 as int, x1 as int, y1 as int, i, j) {
                        c
                    } else {
                        old(self)@.at(i, j)
                    },
            ),
    {
        let ghost s0 = self@;
        let mut i: u32 = x0;
        while i <= x1
            invariant
                x0 <= i <= x1 + 1,
                x1 < s0.width,
                y0 <= y1 < s0.height,
                self.wf(),
                self@.same_frame(s0),
                forall|a: int, b: int|
                    self@.in_bounds(a, b) ==> #[trigger] self@.at(a, b) == if in_box(
                        x0 as int,
                        y0 as int,
                        i - 1,
                        y1 as int,
                        a,
                        b,
                    ) {
                        c
                    } else {
                        s0.at(a, b)
                    },
            decreases x1 + 1 - i,
        {
            let mut j: u32 = y0;
            while j <= y1
                invariant
                    x0 <= i <= x1,
                    x1 < s0.width,
                    y0 <= j <= y1 + 1,
                    y1 < s0.height,
                    self.wf(),
                    self@.same_frame(s0),
                    forall|a: int, b: int|
                        self@.in_bounds(a, b) ==> #[trigger] self@.at(a, b) == if in_box(
                            x0 as int,
                            y0 as int,
                            i - 1,
                            y1 as int,
                            a,
                            b,
                        ) || in_box(i as int, y0 as int, i as int, j - 1, a, b) {
                            c
                        } else {
                            s0.at(a, b)
                        },
                decreases y1 + 1 - j,
            {
                self.set(i, j, c);
                j = j + 1;
            }
            i = i + 1;
        }
    }

    /// Sets every cell to `value`.
    pub fn background(&mut self, value: char) -> (r: &mut Screen)
        requires
            old(self).wf(),
        ensures
            r.wf(),
            r@ == old(self)@.with_all(value),
            *final(self) == *final(r),
    {
        let n = self.buffer.len();
        let mut k: usize = 0;
        assert(old(self)@.cells =~= Seq::new(0, |i: int| value) + old(self)@.cells.subrange(0, n as int));
        while k < n
            invariant
                k <= n,
                n == old(self)@.cells.len(),
                self@ == (ScreenView {
                    cells: Seq::new(k as nat, |i: int| value) + old(self)@.cells.subrange(
                        k as int,
                        n as int,
                    ),
                    ..old(self)@
                }),
            decreases n - k,
        {
            self.buffer.set(k, value);
            k = k + 1;
            assert(self@.cells =~= Seq::new(k as nat, |i: int| value) + old(self)@.cells.subrange(
                k as int,
                n as int,
            ));
        }
        assert(self@.cells =~= Seq::new(n as nat, |i: int| value));
        self
    }

    /// Outlines the screen: its first and last rows and columns get `value`.
    pub fn soild_border(&mut self, value: char) -> (r: &mut Screen)
        requires
            old(self).wf(),
            old(self)@.width > 0 <==> old(self)@.height > 0,
        ensures
            r.wf(),
            r@.drawn(old(self)@, |i: int, j: int| solid_border_cell(old(self)@, value, i, j)),
            *final(self) == *final(r),
    {
        if self.width > 0 {
            let (r, l) = (self.width - 1, self.height - 1);
            self.paint_box(0, 0, r, 0, value);
            self.paint_box(0, l, r, l, value);
            self.paint_box(0, 0, 0, l, value);
            self.paint_box(r, 0, r, l, value);
        }
        self
    }

    /// Outlines the screen with `settings`: top and bottom rows, then left and
    /// right columns, then the four corners.
    pub fn border(&mut self, settings: Settings) -> (r: &mut Screen)
        requires
            old(self).wf(),
            old(self)@.width > 0,
            old(self)@.height > 0,
        ensures
            r.wf(),
            r@.drawn(old(self)@, |i: int, j: int| border_cell(old(self)@, settings, i, j)),
            *final(self) == *final(r),
    {
        let (r, l) = (self.width - 1, self.height - 1);
        self.paint_box(0, 0, r, 0, settings.top);
        self.paint_box(0, l, r, l, settings.bottom);
        self.paint_box(0, 0, 0, l, settings.left);
        self.paint_box(r, 0, r, l, settings.right);
        self.set(0, 0, settings.corners);
        self.set(0, l, settings.corners);
        self.set(r, 0, settings.corners);
        self.set(r, l, settings.corners);
        self
    }

    /// Draws a rectangle centred at `(x, y)` with size `width` by `height`:
    /// first the fill over all of it, when fill is on, then the stroke over its
    /// four edges, when stroke is on.
    pub fn rect(&mut self, x: u32, y: u32, width: u32, height: u32) -> (r: &mut Screen)
        requires
            old(self).wf(),
            old(self)@.fill || old(self)@.stroke ==> {
                &&& x >= width / 2
                &&& y >= height / 2
                &&& x + width / 2 < old(self)@.width
                &&& y + height / 2 < old(self)@.height
            },
        ensures
            r.wf(),
            r@.drawn(
                old(self)@,
                |i: int, j: int| rect_cell(old(self)@, x as int, y as int, width as int, height as int, i, j),
            ),
            *final(self) == *final(r),
    {
        let (half_w, half_h) = (width / 2, height / 2);
        if self.fill {
            self.paint_box(x - half_w, y - half_h, x + half_w, y + half_h, self.fill_value);
        }
        if self.stroke {
            let (x0, y0, x1, y1) = (x - half_w, y - half_h, x + half_w, y + half_h);
            self.paint_box(x0, y0, x1, y0, self.stroke_value);
            self.paint_box(x0, y1, x1, y1, self.stroke_value);
            self.paint_box(x0, y0, x0, y1, self.stroke_value);
            self.paint_box(x1, y0, x1, y1, self.stroke_value);
        }
        self
    }

    /// Writes `value` from column `x` of row `y`, one character per column,
    /// up to the right edge; what does not fit is dropped.
    pub fn text(&mut self, value: &str, x: u32, y: u32) -> (r: &mut Screen)
        requires
            old(self).wf(),
            x < old(self)@.width && value@.len() > 0 ==> y < old(self)@.height,
        ensures
            r.wf(),
            r@.drawn(
                old(self)@,
                |i: int, j: int| text_cell(old(self)@, value@, x as int, y as int, i, j),
            ),
            *final(self) == *final(r),
    {
        let ghost s0 = self@;
        let n = value.unicode_len();
        let mut i: u32 = x;
        while i < self.width && ((i - x) as usize) < n
            invariant
                self.wf(),
                self@.same_frame(s0),
                n == value@.len(),
                x <= i,
                i > x ==> y < s0.height && i <= s0.width,
                i - x <= n,
                x < s0.width && n > 0 ==> y < s0.height,
                forall|a: int, b: int|
                    self@.in_bounds(a, b) ==> #[trigger] self@.at(a, b) == if b == y && x <= a
                        < i {
                        value@[a - x]
                    } else {
                        s0.at(a, b)
                    },
            decreases s0.width - i,
        {
            let c = value.get_char((i - x) as usize);
            self.set(i, y, c);
            i = i + 1;
        }
        self
    }

    /// Draws a line from `(x1, y1)` to `(x2, y2)` with the stroke, when stroke
    /// is on: one cell in each column between the ends.
    pub fn line(&mut self, x1: u32, y1: u32, x2: u32, y2: u32) -> (r: &mut Screen)
        requires
            old(self).wf(),
            old(self)@.stroke ==> {
                &&& x1 < old(self)@.width
                &&& x2 < old(self)@.width
                &&& y1 < old(self)@.height
                &&& y2 < old(self)@.height
            },
        ensures
            r.wf(),
            r@.drawn(
                old(self)@,
                |i: int, j: int| line_cell(old(self)@, x1 as int, y1 as int, x2 as int, y2 as int, i, j),
            ),
            *final(self) == *final(r),
    {
        if self.stroke {
            let ghost s0 = self@;
            let (xa, ya, xb, yb) = if x1 <= x2 {
                (x1, y1, x2, y2)
            } else {
                (x2, y2, x1, y1)
            };
            if xa == xb {
                self.set(x1, y1, self.stroke_value);
            } else {
                let d: u128 = (xb - xa) as u128;
                let mut i: u32 = xa;
                while i <= xb
                    invariant
                        self.wf(),
                        self@.same_frame(s0),
                        s0.stroke,
                        xa <= i <= xb + 1,
                        xb < s0.width,
                        ya < s0.height,
                        yb < s0.height,
                        d == xb - xa,
                        d > 0,
                        xa == if x1 <= x2 { x1 } else { x2 },
                        xb == if x1 <= x2 { x2 } else { x1 },
                        ya == if x1 <= x2 { y1 } else { y2 },
                        yb == if x1 <= x2 { y2 } else { y1 },
                        forall|a: int, b: int|
                            self@.in_bounds(a, b) ==> #[trigger] self@.at(a, b) == if xa <= a < i
                                && b == line_row(x1 as int, y1 as int, x2 as int, y2 as int, a) {
                                s0.stroke_value
                            } else {
                                s0.at(a, b)
                            },
                    decreases xb + 1 - i,
                {
                    let k: u128 = (i - xa) as u128;
                    assert((ya as u128) * d < 0x1_0000_0000_0000_0000) by (nonlinear_arith)
                        requires
                            ya < 0x1_0000_0000,
                            d < 0x1_0000_0000,
                    ;
                    assert(k * d < 0x1_0000_0000_0000_0000) by (nonlinear_arith)
                        requires
                            k <= d,
                            d < 0x1_0000_0000,
                    ;
                    let gap: u128 = if yb >= ya {
                        (yb - ya) as u128
                    } else {
                        (ya - yb) as u128
                    };
                    assert(k * gap < 0x1_0000_0000_0000_0000) by (nonlinear_arith)
                        requires
                            k <= d,
                            d < 0x1_0000_0000,
                            gap < 0x1_0000_0000,
                    ;
                    let num: u128 = if yb >= ya {
                        (ya as u128) * d + k * gap
                    } else {
                        assert(k * gap <= (ya as u128) * d) by (nonlinear_arith)
                            requires
                                k <= d,
                                gap <= ya,
                        ;
                        (ya as u128) * d - k * gap
                    };
                    assert(num == ya * d + k * (yb - ya)) by (nonlinear_arith)
                        requires
                            yb >= ya ==> num == ya * d + k * gap && gap == yb - ya,
                            yb < ya ==> num == ya * d - k * gap && gap == ya - yb,
                    ;
                    let row: u128 = (2 * num + d) / (2 * d);
                    proof {
                        lemma_line_row_between(ya as int, yb as int, d as int, k as int);
                        assert(row == line_row(x1 as int, y1 as int, x2 as int, y2 as int, i as int));
                    }
                    self.set(i, row as u32, self.stroke_value);
                    i = i + 1;
                }
            }
        }
        self
    }

    /// Draws a circle centred at `(x, y)` with radius `radius`: the fill
    /// strictly inside it, when fill is on, and a ring of squared distance
    /// `radius * radius` or one more, when stroke is on.
    pub fn circle(&mut self, x: u32, y: u32, radius: u32) -> (r: &mut Screen)
        requires
            old(self).wf(),
            old(self)@.fill || old(self)@.stroke ==> {
                &&& x >= radius
                &&& y >= radius
                &&& x + radius < old(self)@.width
                &&& y + radius < old(self)@.height
            },
        ensures
            r.wf(),
            r@.drawn(
                old(self)@,
                |i: int, j: int| circle_cell(old(self)@, x as int, y as int, radius as int, i, j),
            ),
            *final(self) == *final(r),
    {
        if self.fill || self.stroke {
            let ghost s0 = self@;
            assert((radius as i128) * (radius as i128) < 0x1_0000_0000_0000_0000) by (nonlinear_arith)
                requires
                    radius < 0x1_0000_0000,
            ;
            let r2: i128 = radius as i128 * radius as i128;
            let mut i: u32 = x - radius;
            while i <= x + radius
                invariant
                    self.wf(),
                    self@.same_frame(s0),
                    x >= radius,
                    y >= radius,
                    x + radius < s0.width,
                    y + radius < s0.height,
                    x - radius <= i <= x + radius + 1,
                    r2 == radius * radius,
                    r2 < 0x1_0000_0000_0000_0000,
                    forall|a: int, b: int|
                        self@.in_bounds(a, b) ==> #[trigger] self@.at(a, b) == if in_box(
                            x - radius,
                            y - radius,
                            i - 1,
                            y + radius,
                            a,
                            b,
                        ) {
                            circle_cell(s0, x as int, y as int, radius as int, a, b)
                        } else {
                            s0.at(a, b)
                        },
                decreases x + radius + 1 - i,
            {
                let mut j: u32 = y - radius;
                while j <= y + radius
                    invariant
                        self.wf(),
                        self@.same_frame(s0),
                        x >= radius,
                        y >= radius,
                        x + radius < s0.width,
                        y + radius < s0.height,
                        x - radius <= i <= x + radius,
                        y - radius <= j <= y + radius + 1,
                        r2 == radius * radius,
                    r2 < 0x1_0000_0000_0000_0000,
                        forall|a: int, b: int|
                            self@.in_bounds(a, b) ==> #[trigger] self@.at(a, b) == if in_box(
                                x - radius,
                                y - radius,
                                i - 1,
                                y + radius,
                                a,
                                b,
                            ) || in_box(i as int, y - radius, i as int, j - 1, a, b) {
                                circle_cell(s0, x as int, y as int, radius as int, a, b)
                            } else {
                                s0.at(a, b)
                            },
                    decreases y + radius + 1 - j,
                {
                    let dx: i128 = i as i128 - x as i128;
                    let dy: i128 = j as i128 - y as i128;
                    assert(dx * dx < 0x1_0000_0000_0000_0000 && dy * dy < 0x1_0000_0000_0000_0000)
                        by (nonlinear_arith)
                        requires
                            -0x1_0000_0000 < dx < 0x1_0000_0000,
                            -0x1_0000_0000 < dy < 0x1_0000_0000,
                    ;
                    assert(0 <= dx * dx && 0 <= dy * dy) by (nonlinear_arith);
                    let dist: i128 = dx * dx + dy * dy;
                    assert(dist == dist2(x as int, y as int, i as int, j as int));
                    if dist < r2 && self.fill {
                        self.set(i, j, self.fill_value);
                    } else if (dist == r2 || dist == r2 + 1) && self.stroke {
                        self.set(i, j, self.stroke_value);
                    }
                    j = j + 1;
                }
                i = i + 1;
            }
        }
        self
    }

    /// Moves each row's cells `n` columns to the left. The last `n` columns
    /// keep what they held: nothing wraps around and nothing is cleared.
    pub fn shift_left(&mut self, n: u32) -> (r: &mut Screen)
        requires
            old(self).wf(),
            n <= old(self)@.width,
        ensures
            r.wf(),
            r@.drawn(old(self)@, |i: int, j: int| shifted_cell(old(self)@, n as int, i, j)),
            *final(self) == *final(r),
    {
        let ghost s0 = self@;
        let (w, h) = (self.width, self.height);
        let mut x: u32 = 0;
        while x < w - n
            invariant
                self.wf(),
                self@.same_frame(s0),
                w == s0.width,
                h == s0.height,
                n <= w,
                x <= w - n,
                forall|a: int, b: int|
                    self@.in_bounds(a, b) ==> #[trigger] self@.at(a, b) == if a < x {
                        s0.at(a + n, b)
                    } else {
                        s0.at(a, b)
                    },
            decreases w - n - x,
        {
            let mut y: u32 = 0;
            while y < h
                invariant
                    self.wf(),
                    self@.same_frame(s0),
                    w == s0.width,
                    h == s0.height,
                    n <= w,
                    x < w - n,
                    y <= h,
                    forall|a: int, b: int|
                        self@.in_bounds(a, b) ==> #[trigger] self@.at(a, b) == if a < x || (a
                            == x && b < y) {
                            s0.at(a + n, b)
                        } else {
                            s0.at(a, b)
                        },
                decreases h - y,
            {
                let c = self.get(x + n, y);
                self.set(x, y, c);
                y = y + 1;
            }
            x = x + 1;
        }
        self
    }

    /// Turns fill on with `value` for later drawing.
    pub fn fill(&mut self, value: char) -> (r: &mut Screen)
        ensures
            r@ == (ScreenView { fill: true, fill_value: value, ..old(self)@ }),
            *final(self) == *final(r),
    {
        self.fill_value = value;
        self.fill = true;
        self
    }

    /// Turns fill off; the fill character is kept for when it is turned on
    /// again.
    pub fn no_fill(&mut self) -> (r: &mut Screen)
        ensures
            r@ == (ScreenView { fill: false, ..old(self)@ }),
            *final(self) == *final(r),
    {
        self.fill = false;
        self
    }

    /// Turns stroke on with `value` for later drawing.
    pub fn stroke(&mut self, value: char) -> (r: &mut Screen)
        ensures
            r@ == (ScreenView { stroke: true, stroke_value: value, ..old(self)@ }),
            *final(self) == *final(r),
    {
        self.stroke_value = value;
        self.stroke = true;
        self
    }

    /// Turns stroke off; the stroke character is kept for when it is turned
    /// on again.
    pub fn no_stroke(&mut self) -> (r: &mut Screen)
        ensures
            r@ == (ScreenView { stroke: false, ..old(self)@ }),
            *final(self) == *final(r),
    {
        self.stroke = false;
        self
    }

    /// The cells in row-major order.
    pub fn cells(&self) -> (r: &Vec<char>)
        ensures
            r@ == self@.cells,
    {
        &self.buffer
    }

    /// The rows from top to bottom, each as a string of `width` characters.
    pub fn render(&self) -> (r: Vec<String>)
        requires
            self.wf(),
        ensures
            r@.len() == self@.height,
            forall|j: int| 0 <= j < self@.height ==> #[trigger] r@[j]@ == self@.rows()[j],
    {
        let mut rows: Vec<String> = Vec::new();
        let mut y: u32 = 0;
        while y < self.height
            invariant
                self.wf(),
                y <= self@.height,
                rows@.len() == y,
                forall|j: int| 0 <= j < y ==> #[trigger] rows@[j]@ == self@.rows()[j],
            decreases self@.height - y,
        {
            let mut line = String::new();
            let mut x: u32 = 0;
            while x < self.width
                invariant
                    self.wf(),
                    y < self@.height,
                    x <= self@.width,
                    line@ == Seq::new(x as nat, |i: int| self@.at(i, y as int)),
                decreases self@.width - x,
            {
                let c = self.get(x, y);
                push_char(&mut line, c);
                x = x + 1;
                assert(line@ =~= Seq::new(x as nat, |i: int| self@.at(i, y as int)));
            }
            assert(line@ =~= self@.rows()[y as int]);
            rows.push(line);
            y = y + 1;
        }
        rows
    }
}

} // verus!
