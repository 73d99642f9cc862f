//! Column layout of the cash flow statement: padding, borders between the
//! period columns, and the scaffold that extends the borders over rows that
//! hold no values.
use vstd::prelude::*;

use crate::text::{
    chars_to_string, concat, join, join_chars, push_all, push_repeat, repeat_char, slice_chars,
    split_on, split_on_char, to_chars,
};

verus! {

/// Character index of the first column in the statement template.
pub const START_INDEX: usize = 64;

pub const COL_PADDING_LEFT: usize = 5;

pub const COL_PADDING_RIGHT: usize = 2;

pub const COL_SEPARATOR_CHAR: char = '│';

pub const HR_CHAR: char = '─';

pub const HR_INTERSECTION_CHAR: char = '┼';

/// Number of columns and the width of each (without padding).
#[derive(Debug, Clone, Copy, PartialEq, Eq, Structural)]
pub struct ReportLayout {
    pub period_count: usize,
    pub column_width: usize,
}

/// Whether all widths and positions of the layout fit in a `usize`.
pub open spec fn layout_fits(l: ReportLayout) -> bool {
    l.period_count * (l.column_width + 8) + 8 <= usize::MAX
}

/// Position, relative to the first column, of the border after column `i`.
pub open spec fn border_pos(w: int, i: int) -> int {
    (i + 1) * (w + 5) + 3 * i + 2
}

pub open spec fn rendered_width(l: ReportLayout) -> int {
    if l.period_count == 0 {
        0
    } else {
        l.period_count * (l.column_width + 5) + 3 * (l.period_count - 1)
    }
}

pub open spec fn right_padding(l: ReportLayout, idx: int) -> int {
    if idx + 1 < l.period_count {
        2
    } else {
        0
    }
}

proof fn lemma_mul_bounds(n: int, w: int, i: int)
    requires
        0 <= i < n,
        0 <= w,
        n * (w + 8) + 8 <= usize::MAX,
    ensures
        (i + 1) * (w + 5) + 3 * i + 2 <= n * (w + 8),
        (i + 1) * (w + 5) == i * (w + 5) + w + 5,
        (i + 1) * (w + 8) == i * (w + 8) + w + 8,
        (i + 1) * (w + 8) <= n * (w + 8),
        i * (w + 5) >= 0,
        (i + 1) * (w + 5) + 3 * (i + 1) <= n * (w + 8),
        n * (w + 5) + 3 * n <= n * (w + 8),
{
    assert((i + 1) * (w + 5) + 3 * (i + 1) == (i + 1) * (w + 8)) by (nonlinear_arith);
    assert((i + 1) * (w + 8) <= n * (w + 8)) by (nonlinear_arith)
        requires
            i + 1 <= n,
            w + 8 >= 0,
    ;
    assert(n * (w + 5) + 3 * n == n * (w + 8)) by (nonlinear_arith);
    assert((i + 1) * (w + 5) == i * (w + 5) + w + 5) by (nonlinear_arith);
    assert((i + 1) * (w + 8) == i * (w + 8) + w + 8) by (nonlinear_arith);
    assert(i * (w + 5) >= 0) by (nonlinear_arith)
        requires
            i >= 0,
            w >= 0,
    ;
}

impl ReportLayout {
    pub fn column_left_padding(&self, column_idx: usize) -> (r: usize)
        ensures
            r == COL_PADDING_LEFT,
    {
        COL_PADDING_LEFT
    }

    /// Padding after a column: before a border, none after the last column.
    pub fn column_right_padding(&self, column_idx: usize) -> (r: usize)
        ensures
            r == right_padding(*self, column_idx as int),
    {
        if column_idx < self.period_count && self.period_count - column_idx > 1 {
            COL_PADDING_RIGHT
        } else {
            0
        }
    }

    /// Width of all columns with their padding and borders.
    pub fn rendered_columns_width(&self) -> (r: usize)
        requires
            layout_fits(*self),
        ensures
            r == rendered_width(*self),
    {
        let n = self.period_count;
        let w = self.column_width;
        if n == 0 {
            return 0;
        }
        let mut width: usize = 0;
        let mut column_idx: usize = 0;
        while column_idx < n
            invariant
                n == self.period_count,
                w == self.column_width,
                layout_fits(*self),
                0 < n,
                column_idx <= n,
                width == column_idx * (w + 5) + 3 * (if column_idx == 0 {
                    0
                } else if column_idx < n {
                    column_idx as int
                } else {
                    column_idx - 1
                }),
            decreases n - column_idx,
        {
            proof {
                lemma_mul_bounds(n as int, w as int, column_idx as int);
            }
            width = width + self.column_left_padding(column_idx) + w;
            if column_idx + 1 < n {
                width = width + self.column_right_padding(column_idx) + 1;
            }
            column_idx = column_idx + 1;
            proof {
                assert(column_idx * (w + 5) == (column_idx - 1) * (w + 5) + (w + 5)) by (
                nonlinear_arith);
            }
        }
        width
    }

    /// Positions of the borders between columns, relative to the first
    /// column.
    pub fn border_positions(&self) -> (r: Vec<usize>)
        requires
            layout_fits(*self),
        ensures
            self.period_count == 0 ==> r@.len() == 0,
            self.period_count > 0 ==> r@.len() == self.period_count - 1,
            forall|i: int|
                0 <= i < r@.len() ==> #[trigger] r@[i] == border_pos(self.column_width as int, i),
    {
        let n = self.period_count;
        let w = self.column_width;
        let mut positions: Vec<usize> = Vec::new();
        let mut cursor: usize = 0;
        let mut column_idx: usize = 0;
        while column_idx < n
            invariant
                n == self.period_count,
                w == self.column_width,
                layout_fits(*self),
                column_idx <= n,
                column_idx < n ==> cursor == column_idx * (w + 8),
                positions@.len() == (if column_idx == n && n > 0 {
                    n - 1
                } else {
                    column_idx as int
                }),
                forall|i: int|
                    0 <= i < positions@.len() ==> #[trigger] positions@[i] == border_pos(w as int, i),
            decreases n - column_idx,
        {
            proof {
                lemma_mul_bounds(n as int, w as int, column_idx as int);
            }
            cursor = cursor + self.column_left_padding(column_idx) + w;
            if column_idx + 1 < n {
                cursor = cursor + self.column_right_padding(column_idx);
                positions.push(cursor);
                cursor = cursor + 1;
            }
            proof {
                assert((column_idx + 1) * (w + 8) == column_idx * (w + 8) + (w + 8)) by (
                nonlinear_arith);
                assert(border_pos(w as int, column_idx as int) == column_idx * (w + 8) + w + 7) by (
                nonlinear_arith);
            }
            column_idx = column_idx + 1;
        }
        positions
    }

    /// One past the last border, or 0 when there is no border.
    pub fn scaffold_end(&self) -> (r: usize)
        requires
            layout_fits(*self),
        ensures
            self.period_count <= 1 ==> r == 0,
            self.period_count > 1 ==> r == border_pos(
                self.column_width as int,
                self.period_count - 2,
            ) + 1,
    {
        let p = self.border_positions();
        if p.len() > 0 {
            proof {
                lemma_mul_bounds(
                    self.period_count as int,
                    self.column_width as int,
                    self.period_count - 2,
                );
            }
        }
        if p.len() == 0 {
            0
        } else {
            p[p.len() - 1] + 1
        }
    }
}

/// Borders are spaced one column, its padding and a separator apart, and
/// the columns after the last border end where the rendered columns end.
pub proof fn lemma_border_spacing(l: ReportLayout)
    requires
        l.period_count > 1,
    ensures
        forall|i: int|
            0 <= i < l.period_count - 2 ==> border_pos(l.column_width as int, i + 1) == #[trigger] border_pos(
                l.column_width as int,
                i,
            ) + l.column_width + 8,
        border_pos(l.column_width as int, l.period_count - 2) + 1 + l.column_width + 5
            == rendered_width(l),
{
    let w = l.column_width as int;
    let n = l.period_count as int;
    assert forall|i: int| 0 <= i < n - 2 implies border_pos(w, i + 1) == #[trigger] border_pos(w, i) + w + 8 by {
        assert((i + 2) * (w + 5) == (i + 1) * (w + 5) + (w + 5)) by (nonlinear_arith);
    }
    assert((n - 1) * (w + 5) + (w + 5) == n * (w + 5)) by (nonlinear_arith);
}


/// `s` aligned right in a field of `w` characters.
pub open spec fn right_align(s: Seq<char>, w: nat) -> Seq<char> {
    repeat_char(' ', if s.len() < w { (w - s.len()) as nat } else { 0 }) + s
}

/// Column `idx` of `count`: left padding, the right-aligned value, and
/// before every column but the last, right padding and a border.
pub open spec fn cell_text(v: Seq<char>, idx: int, count: int, l: ReportLayout) -> Seq<char> {
    repeat_char(' ', 5) + right_align(v, l.column_width as nat) + if idx + 1 < count {
        repeat_char(' ', right_padding(l, idx) as nat) + seq![COL_SEPARATOR_CHAR]
    } else {
        Seq::empty()
    }
}

/// The values laid out as the columns of one row.
pub open spec fn columns_text(vals: Seq<Seq<char>>, l: ReportLayout) -> Seq<char> {
    concat(Seq::new(vals.len(), |i: int| cell_text(vals[i], i, vals.len() as int, l)))
}

/// The values laid out as the columns of one row.
pub fn format_columns(values: &[String], layout: &ReportLayout) -> (r: String)
    ensures
        r@ == columns_text(Seq::new(values@.len(), |k: int| values@[k]@), *layout),
{
    let ghost vals = Seq::new(values@.len(), |k: int| values@[k]@);
    let ghost cells = Seq::new(vals.len(), |i: int| cell_text(vals[i], i, vals.len() as int, *layout));
    let mut out: Vec<char> = Vec::new();
    let mut idx: usize = 0;
    while idx < values.len()
        invariant
            idx <= values@.len(),
            vals == Seq::new(values@.len(), |k: int| values@[k]@),
            cells == Seq::new(vals.len(), |i: int| cell_text(vals[i], i, vals.len() as int, *layout)),
            out@ == concat(cells.take(idx as int)),
        decreases values.len() - idx,
    {
        let ghost before = out@;
        push_repeat(&mut out, ' ', layout.column_left_padding(idx));
        let v = to_chars(values[idx].as_str());
        let pad: usize = if v.len() < layout.column_width {
            layout.column_width - v.len()
        } else {
            0
        };
        push_repeat(&mut out, ' ', pad);
        push_all(&mut out, &v);
        if idx + 1 < values.len() {
            push_repeat(&mut out, ' ', layout.column_right_padding(idx));
            out.push(COL_SEPARATOR_CHAR);
        }
        assert(cells.take(idx + 1).drop_last() == cells.take(idx as int));
        assert(out@ =~= before + cells[idx as int]);
        idx = idx + 1;
    }
    assert(cells.take(values@.len() as int) == cells);
    chars_to_string(&out)
}

/// Where the border after column `i` of a row falls, for columns of width
/// `w`.
pub open spec fn col_border(w: int, i: int) -> int {
    i * (w + 8) + w + 7
}

/// A column of a row: `w + 8` characters with its border `w + 7` in, or
/// `w + 5` for the last, without a border.
proof fn lemma_cell_text(v: Seq<char>, idx: int, count: int, l: ReportLayout)
    requires
        0 <= idx < count,
        count == l.period_count,
        v.len() <= l.column_width,
        forall|j: int| 0 <= j < v.len() ==> v[j] != COL_SEPARATOR_CHAR,
    ensures
        ({
            let c = cell_text(v, idx, count, l);
            let w = l.column_width as int;
            &&& c.len() == if idx + 1 < count { w + 8 } else { w + 5 }
            &&& forall|y: int|
                0 <= y < c.len() ==> (#[trigger] c[y] == COL_SEPARATOR_CHAR <==> (idx + 1 < count && y
                    == w + 7))
        }),
{
    let w = l.column_width as int;
    let ra = right_align(v, w as nat);
    let pad = (w - v.len()) as nat;
    assert(ra.len() == w);
    assert forall|y: int| 0 <= y < ra.len() implies ra[y] != COL_SEPARATOR_CHAR by {
        if y < pad {
            assert(ra[y] == ' ');
        } else {
            assert(ra[y] == v[y - pad]);
        }
    }
    let c = cell_text(v, idx, count, l);
    let head = repeat_char(' ', 5) + ra;
    assert forall|y: int| 0 <= y < head.len() implies head[y] != COL_SEPARATOR_CHAR by {
        if y >= 5 {
            assert(head[y] == ra[y - 5]);
        }
    }
    if idx + 1 < count {
        let tail = repeat_char(' ', 2) + seq![COL_SEPARATOR_CHAR];
        assert(right_padding(l, idx) == 2);
        assert(c =~= head + tail);
        assert forall|y: int| 0 <= y < c.len() implies (#[trigger] c[y] == COL_SEPARATOR_CHAR <==> (
        idx + 1 < count && y == w + 7)) by {
            if y < head.len() {
                assert(c[y] == head[y]);
            } else {
                assert(c[y] == tail[y - head.len()]);
            }
        }
    } else {
        assert(c =~= head);
    }
}

/// The first `j` columns of a row take `j` times `w + 8` characters (three
/// fewer when the last column is among them), and hold a border exactly at
/// the border positions among them.
proof fn lemma_columns_prefix(vals: Seq<Seq<char>>, l: ReportLayout, j: int)
    requires
        vals.len() == l.period_count,
        0 <= j <= vals.len(),
        forall|i: int| 0 <= i < vals.len() ==> #[trigger] vals[i].len() <= l.column_width,
        forall|i: int, k: int|
            0 <= i < vals.len() && 0 <= k < vals[i].len() ==> #[trigger] vals[i][k] != COL_SEPARATOR_CHAR,
    ensures
        ({
            let cells = Seq::new(vals.len(), |i: int| cell_text(vals[i], i, vals.len() as int, l));
            let t = concat(cells.take(j));
            let w = l.column_width as int;
            &&& t.len() == j * (w + 8) - if j == vals.len() && j > 0 { 3int } else { 0int }
            &&& forall|x: int|
                0 <= x < t.len() ==> (#[trigger] t[x] == COL_SEPARATOR_CHAR <==> exists|i: int|
                    0 <= i < j && i < vals.len() - 1 && x == #[trigger] col_border(w, i))
        }),
    decreases j,
{
    let n = vals.len() as int;
    let w = l.column_width as int;
    let cells = Seq::new(vals.len(), |i: int| cell_text(vals[i], i, n, l));
    let t = concat(cells.take(j));
    if j == 0 {
        assert(cells.take(0) =~= Seq::<Seq<char>>::empty());
    } else {
        lemma_columns_prefix(vals, l, j - 1);
        let prev = concat(cells.take(j - 1));
        assert(cells.take(j).drop_last() =~= cells.take(j - 1));
        assert(cells.take(j).last() == cells[j - 1]);
        let c = cells[j - 1];
        assert forall|k: int| 0 <= k < vals[j - 1].len() implies #[trigger] vals[j - 1][k] != COL_SEPARATOR_CHAR by {}
        lemma_cell_text(vals[j - 1], j - 1, n, l);
        assert(t =~= prev + c);
        assert(prev.len() == (j - 1) * (w + 8));
        assert(j * (w + 8) == (j - 1) * (w + 8) + w + 8) by (nonlinear_arith);
        assert forall|x: int| 0 <= x < t.len() implies (#[trigger] t[x] == COL_SEPARATOR_CHAR <==> exists|i: int|
            0 <= i < j && i < n - 1 && x == #[trigger] col_border(w, i)) by {
            if x < prev.len() {
                assert(t[x] == prev[x]);
                if prev[x] == COL_SEPARATOR_CHAR {
                    let i = choose|i: int| 0 <= i < j - 1 && i < n - 1 && x == #[trigger] col_border(w, i);
                    assert(0 <= i < j && i < n - 1 && x == col_border(w, i));
                } else {
                    assert forall|i: int| 0 <= i < j && i < n - 1 implies x != col_border(w, i) by {
                        if i == j - 1 {
                            assert(x < (j - 1) * (w + 8));
                        }
                    }
                }
            } else {
                let y = x - prev.len();
                assert(t[x] == c[y]);
                if c[y] == COL_SEPARATOR_CHAR {
                    assert(0 <= j - 1 < j && j - 1 < n - 1 && x == col_border(w, j - 1));
                } else {
                    assert forall|i: int| 0 <= i < j && i < n - 1 implies x != col_border(w, i) by {
                        if i < j - 1 {
                            assert(col_border(w, i) < (j - 1) * (w + 8)) by (nonlinear_arith)
                                requires
                                    i < j - 1,
                                    w >= 0,
                            ;
                        }
                    }
                }
            }
        }
    }
}

/// A row of columns is as wide as the rendered columns, and its border
/// characters stand exactly at the border positions: for values no wider
/// than a column that hold no border character themselves.
pub proof fn lemma_columns_borders(vals: Seq<Seq<char>>, l: ReportLayout)
    requires
        vals.len() == l.period_count,
        l.period_count >= 1,
        forall|i: int| 0 <= i < vals.len() ==> #[trigger] vals[i].len() <= l.column_width,
        forall|i: int, k: int|
            0 <= i < vals.len() && 0 <= k < vals[i].len() ==> #[trigger] vals[i][k] != COL_SEPARATOR_CHAR,
    ensures
        columns_text(vals, l).len() == rendered_width(l),
        forall|x: int|
            0 <= x < columns_text(vals, l).len() ==> (#[trigger] columns_text(vals, l)[x]
                == COL_SEPARATOR_CHAR <==> is_border(l, x)),
{
    let n = vals.len() as int;
    let w = l.column_width as int;
    let cells = Seq::new(vals.len(), |i: int| cell_text(vals[i], i, n, l));
    lemma_columns_prefix(vals, l, n);
    assert(cells.take(n) =~= cells);
    let t = columns_text(vals, l);
    assert(n * (w + 8) - 3 == n * (w + 5) + 3 * (n - 1)) by (nonlinear_arith);
    assert forall|i: int| #[trigger] border_pos(w, i) == col_border(w, i) by {
        assert((i + 1) * (w + 5) + 3 * i + 2 == i * (w + 8) + w + 7) by (nonlinear_arith);
        assert(col_border(w, i) == i * (w + 8) + w + 7);
    }
    assert forall|x: int| 0 <= x < t.len() implies (#[trigger] t[x] == COL_SEPARATOR_CHAR <==> is_border(l, x)) by {
        if t[x] == COL_SEPARATOR_CHAR {
            let i = choose|i: int| 0 <= i < n && i < n - 1 && x == #[trigger] col_border(w, i);
            assert(border_pos(w, i) == x);
        }
        if is_border(l, x) {
            let i = choose|i: int| 0 <= i < l.period_count - 1 && #[trigger] border_pos(w, i) == x;
            assert(0 <= i < n && i < n - 1 && x == col_border(w, i));
        }
    }
}

/// Whether the character `x` places after the first column is a border.
pub open spec fn is_border(l: ReportLayout, x: int) -> bool {
    exists|i: int| 0 <= i < l.period_count - 1 && #[trigger] border_pos(l.column_width as int, i) == x
}

/// The scaffold row: spaces up to one past the last border, with a border
/// character at each border position.
pub open spec fn scaffold(l: ReportLayout, end: int) -> Seq<char> {
    Seq::new(
        (START_INDEX + end) as nat,
        |j: int|
            if j >= START_INDEX && is_border(l, j - START_INDEX) {
                COL_SEPARATOR_CHAR
            } else {
                ' '
            },
    )
}

proof fn lemma_border_increasing(w: int, i: int, j: int)
    requires
        0 <= i < j,
        w >= 0,
    ensures
        border_pos(w, i) < border_pos(w, j),
    decreases j - i,
{
    assert(border_pos(w, j - 1) < border_pos(w, j)) by (nonlinear_arith)
        requires
            w >= 0,
            j >= 1,
    ;
    if i < j - 1 {
        lemma_border_increasing(w, i, j - 1);
    }
}

/// A row of spaces with a border character at each border position.
pub fn column_border_scaffold(layout: &ReportLayout) -> (r: Vec<char>)
    requires
        layout_fits(*layout),
        layout.period_count * (layout.column_width + 8) + 8 + START_INDEX <= usize::MAX,
    ensures
        r@ == scaffold(*layout, if layout.period_count <= 1 {
            0
        } else {
            border_pos(layout.column_width as int, layout.period_count - 2) + 1
        }),
{
    let end = layout.scaffold_end();
    proof {
        if layout.period_count > 1 {
            lemma_mul_bounds(
                layout.period_count as int,
                layout.column_width as int,
                layout.period_count - 2,
            );
        }
    }
    let target_len = START_INDEX + end;
    let mut sc: Vec<char> = Vec::new();
    push_repeat(&mut sc, ' ', target_len);
    let positions = layout.border_positions();
    let ghost w = layout.column_width as int;
    let ghost n = layout.period_count as int;
    let mut k: usize = 0;
    while k < positions.len()
        invariant
            k <= positions@.len(),
            n == layout.period_count,
            w == layout.column_width,
            n > 0 ==> positions@.len() == n - 1,
            n == 0 ==> positions@.len() == 0,
            forall|i: int| 0 <= i < positions@.len() ==> #[trigger] positions@[i] == border_pos(w, i),
            target_len == START_INDEX + end,
            n <= 1 ==> end == 0,
            n > 1 ==> end == border_pos(w, n - 2) + 1,
            sc@.len() == target_len,
            forall|j: int|
                0 <= j < target_len ==> #[trigger] sc@[j] == (if j >= START_INDEX && exists|i: int|
                    0 <= i < k && border_pos(w, i) == j - START_INDEX {
                    COL_SEPARATOR_CHAR
                } else {
                    ' '
                }),
        decreases positions.len() - k,
    {
        proof {
            if k < n - 2 {
                lemma_border_increasing(w, k as int, n - 2);
            }
        }
        let border_idx = START_INDEX + positions[k];
        if border_idx < sc.len() {
            sc.set(border_idx, COL_SEPARATOR_CHAR);
        }
        proof {
            assert forall|j: int| 0 <= j < target_len implies #[trigger] sc@[j] == (if j
                >= START_INDEX && exists|i: int| 0 <= i < k + 1 && border_pos(w, i) == j - START_INDEX {
                COL_SEPARATOR_CHAR
            } else {
                ' '
            }) by {
                if j == border_idx {
                    assert(border_pos(w, k as int) == j - START_INDEX);
                } else if j >= START_INDEX && exists|i: int|
                    0 <= i < k + 1 && border_pos(w, i) == j - START_INDEX {
                    let i = choose|i: int| 0 <= i < k + 1 && border_pos(w, i) == j - START_INDEX;
                    assert(i < k);
                }
            }
        }
        k = k + 1;
    }
    proof {
        assert forall|j: int| 0 <= j < target_len implies #[trigger] sc@[j] == scaffold(
            *layout,
            end as int,
        )[j] by {
            if j >= START_INDEX && is_border(*layout, j - START_INDEX) {
                let i = choose|i: int|
                    0 <= i < n - 1 && #[trigger] border_pos(w, i) == j - START_INDEX;
                assert(border_pos(w, i) == j - START_INDEX);
            }
        }
        assert(sc@ =~= scaffold(*layout, end as int));
    }
    sc
}


/// A row of the bordered section: extended with the scaffold up to the
/// scaffold's width, and with every horizontal rule crossing a border
/// turned into an intersection.
pub open spec fn extended_line(line: Seq<char>, sc: Seq<char>, l: ReportLayout) -> Seq<char> {
    let e = if line.len() < sc.len() {
        line + sc.skip(line.len() as int)
    } else {
        line
    };
    Seq::new(
        e.len(),
        |j: int|
            if j >= START_INDEX && is_border(l, j - START_INDEX) && e[j] == HR_CHAR {
                HR_INTERSECTION_CHAR
            } else {
                e[j]
            },
    )
}

/// The rows over which the borders are extended.
pub open spec fn in_scaffold_rows(i: int) -> bool {
    (0 <= i <= 50) || (53 <= i <= 60)
}

pub open spec fn extended_section(rendered: Seq<char>, l: ReportLayout, sc: Seq<char>) -> Seq<char> {
    let ls = split_on(rendered, '\n');
    join(
        Seq::new(
            ls.len(),
            |i: int|
                if in_scaffold_rows(i) {
                    extended_line(ls[i], sc, l)
                } else {
                    ls[i]
                },
        ),
        "\n"@,
    )
}

fn extend_line(
    line: &[char],
    sc: &[char],
    positions: &Vec<usize>,
    layout: &ReportLayout,
) -> (r: Vec<char>)
    requires
        layout_fits(*layout),
        layout.period_count > 0 ==> positions@.len() == layout.period_count - 1,
        layout.period_count == 0 ==> positions@.len() == 0,
        forall|i: int|
            0 <= i < positions@.len() ==> #[trigger] positions@[i] == border_pos(
                layout.column_width as int,
                i,
            ),
        forall|i: int| 0 <= i < positions@.len() ==> positions@[i] + START_INDEX <= usize::MAX,
    ensures
        r@ == extended_line(line@, sc@, *layout),
{
    let mut e = slice_chars(line, 0, line.len());
    if line.len() < sc.len() {
        let tail = slice_chars(sc, line.len(), sc.len());
        push_all(&mut e, &tail);
    }
    let ghost orig = e@;
    let ghost w = layout.column_width as int;
    let mut k: usize = 0;
    while k < positions.len()
        invariant
            k <= positions@.len(),
            w == layout.column_width,
            forall|i: int| 0 <= i < positions@.len() ==> #[trigger] positions@[i] == border_pos(w, i),
            forall|i: int| 0 <= i < positions@.len() ==> positions@[i] + START_INDEX <= usize::MAX,
            e@.len() == orig.len(),
            forall|j: int|
                0 <= j < orig.len() ==> #[trigger] e@[j] == (if orig[j] == HR_CHAR && exists|i: int|
                    0 <= i < k && START_INDEX + border_pos(w, i) == j {
                    HR_INTERSECTION_CHAR
                } else {
                    orig[j]
                }),
        decreases positions.len() - k,
    {
        let abs = START_INDEX + positions[k];
        if abs < e.len() && e[abs] == HR_CHAR {
            proof {
                if exists|i: int| 0 <= i < k && START_INDEX + border_pos(w, i) == abs {
                    let i = choose|i: int| 0 <= i < k && START_INDEX + border_pos(w, i) == abs;
                    lemma_border_increasing(w, i, k as int);
                }
            }
            e.set(abs, HR_INTERSECTION_CHAR);
        }
        proof {
            assert forall|j: int| 0 <= j < orig.len() implies #[trigger] e@[j] == (if orig[j]
                == HR_CHAR && exists|i: int| 0 <= i < k + 1 && START_INDEX + border_pos(w, i) == j {
                HR_INTERSECTION_CHAR
            } else {
                orig[j]
            }) by {
                if j == abs {
                    assert(START_INDEX + border_pos(w, k as int) == j);
                    if exists|i: int| 0 <= i < k && START_INDEX + border_pos(w, i) == j {
                        let i = choose|i: int| 0 <= i < k && START_INDEX + border_pos(w, i) == j;
                        lemma_border_increasing(w, i, k as int);
                    }
                } else if exists|i: int| 0 <= i < k + 1 && START_INDEX + border_pos(w, i) == j {
                    let i = choose|i: int| 0 <= i < k + 1 && START_INDEX + border_pos(w, i) == j;
                    assert(i < k);
                }
            }
        }
        k = k + 1;
    }
    proof {
        assert forall|j: int| 0 <= j < orig.len() implies #[trigger] e@[j] == extended_line(
            line@,
            sc@,
            *layout,
        )[j] by {
            if j >= START_INDEX && is_border(*layout, j - START_INDEX) {
                let i = choose|i: int|
                    0 <= i < layout.period_count - 1 && #[trigger] border_pos(w, i) == j - START_INDEX;
                assert(START_INDEX + border_pos(w, i) == j);
            }
            if exists|i: int| 0 <= i < positions@.len() && START_INDEX + border_pos(w, i) == j {
                let i = choose|i: int|
                    0 <= i < positions@.len() && START_INDEX + border_pos(w, i) == j;
                assert(border_pos(w, i) == j - START_INDEX);
            }
        }
        assert(orig =~= (if line@.len() < sc@.len() {
            line@ + sc@.skip(line@.len() as int)
        } else {
            line@
        }));
        assert(e@ =~= extended_line(line@, sc@, *layout));
    }
    e
}

/// The rendered statement with the column borders extended over the rows of
/// the bordered sections: each such row filled up with the scaffold, and
/// each horizontal rule that crosses a border given an intersection.
pub fn extend_column_separators_in_section(rendered: String, layout: &ReportLayout) -> (r: String)
    requires
        layout_fits(*layout),
        layout.period_count * (layout.column_width + 8) + 8 + START_INDEX <= usize::MAX,
    ensures
        r@ == extended_section(
            rendered@,
            *layout,
            scaffold(*layout, if layout.period_count <= 1 {
                0
            } else {
                border_pos(layout.column_width as int, layout.period_count - 2) + 1
            }),
        ),
{
    let ls = split_on_char(&to_chars(rendered.as_str()), '\n');
    let ghost lv = Seq::new(ls@.len(), |k: int| ls@[k]@);
    let sc = column_border_scaffold(layout);
    let positions = layout.border_positions();
    proof {
        assert forall|i: int| 0 <= i < positions@.len() implies positions@[i] + START_INDEX
            <= usize::MAX by {
            lemma_mul_bounds(layout.period_count as int, layout.column_width as int, i);
        }
    }
    let mut out: Vec<Vec<char>> = Vec::new();
    let mut i: usize = 0;
    while i < ls.len()
        invariant
            i <= ls@.len(),
            lv == Seq::new(ls@.len(), |k: int| ls@[k]@),
            layout_fits(*layout),
            layout.period_count > 0 ==> positions@.len() == layout.period_count - 1,
            layout.period_count == 0 ==> positions@.len() == 0,
            forall|q: int|
                0 <= q < positions@.len() ==> #[trigger] positions@[q] == border_pos(
                    layout.column_width as int,
                    q,
                ),
            forall|q: int| 0 <= q < positions@.len() ==> positions@[q] + START_INDEX <= usize::MAX,
            out@.len() == i,
            forall|k: int|
                0 <= k < i ==> #[trigger] out@[k]@ == (if in_scaffold_rows(k) {
                    extended_line(lv[k], sc@, *layout)
                } else {
                    lv[k]
                }),
        decreases ls.len() - i,
    {
        if i <= 50 || (53 <= i && i <= 60) {
            out.push(extend_line(&ls[i], &sc, &positions, layout));
        } else {
            out.push(slice_chars(&ls[i], 0, ls[i].len()));
        }
        i = i + 1;
    }
    let joined = join_chars(&out, &to_chars("\n"));
    assert(Seq::new(out@.len(), |k: int| out@[k]@) =~= Seq::new(
        lv.len(),
        |k: int|
            if in_scaffold_rows(k) {
                extended_line(lv[k], sc@, *layout)
            } else {
                lv[k]
            },
    ));
    chars_to_string(&joined)
}

} // verus!
