//! Plain-text tables: a header row and data rows, each column as wide as
//! its widest cell, columns three spaces apart.
use vstd::prelude::*;
use crate::text::{byte_len, byte_length, is_ascii_text, lemma_ascii_byte_len, join_strings, joined, pad_right, pad_to, repeat_char, repeated, str_views, views};

verus! {

/// A table under construction.
pub struct Table {
    headers: Vec<String>,
    rows: Vec<Vec<String>>,
}

/// The contents of a table: the header cells, and the cells of each row.
pub type TableView = (Seq<Seq<char>>, Seq<Seq<Seq<char>>>);

impl View for Table {
    type V = TableView;

    closed spec fn view(&self) -> TableView {
        (views(self.headers@), self.rows@.map_values(|r: Vec<String>| views(r@)))
    }
}

/// The width of column `i` over the header and the first `n` rows: the
/// greatest byte length of a cell in it (rows too short to reach the
/// column do not count).
pub open spec fn width_upto(t: TableView, i: int, n: int) -> nat
    decreases n,
{
    if n <= 0 {
        byte_len(t.0[i])
    } else {
        let prev = width_upto(t, i, n - 1);
        let row = t.1[n - 1];
        if i < row.len() && byte_len(row[i]) > prev {
            byte_len(row[i])
        } else {
            prev
        }
    }
}

/// The width of column `i`.
pub open spec fn col_width(t: TableView, i: int) -> nat {
    width_upto(t, i, t.1.len() as int)
}

/// The gap between columns.
pub open spec fn gap() -> Seq<char> {
    "   "@
}

/// The header cells, each padded to its column's width.
pub open spec fn padded_header(t: TableView) -> Seq<Seq<char>> {
    Seq::new(t.0.len(), |i: int| pad_right(t.0[i], col_width(t, i) as int))
}

/// The cells of row `r`, each padded to its column's width; a cell beyond
/// the last header column is padded to its own byte length.
pub open spec fn padded_cells(t: TableView, r: int) -> Seq<Seq<char>> {
    Seq::new(
        t.1[r].len(),
        |i: int|
            pad_right(
                t.1[r][i],
                if i < t.0.len() {
                    col_width(t, i) as int
                } else {
                    byte_len(t.1[r][i]) as int
                },
            ),
    )
}

/// The line of dashes under the header.
pub open spec fn separator(t: TableView) -> Seq<char> {
    joined(Seq::new(t.0.len(), |i: int| repeated('-', col_width(t, i))), gap())
}

/// All lines of the printed table: header, dashes, then one line per row.
pub open spec fn rendered(t: TableView) -> Seq<Seq<char>> {
    seq![joined(padded_header(t), gap()), separator(t)] + Seq::new(
        t.1.len(),
        |r: int| joined(padded_cells(t, r), gap()),
    )
}

impl Table {
    /// A table with the given column headers and no rows.
    pub fn new(headers: Vec<&str>) -> (t: Self)
        ensures
            t@.0 == str_views(headers@),
            t@.1.len() == 0,
    {
        let mut hs: Vec<String> = Vec::new();
        let mut i: usize = 0;
        while i < headers.len()
            invariant
                i <= headers@.len(),
                views(hs@) == str_views(headers@).take(i as int),
            decreases headers@.len() - i,
        {
            let ghost before = views(hs@);
            hs.push(String::from_str(headers[i]));
            assert(views(hs@) =~= before.push(headers@[i as int]@));
            i = i + 1;
            assert(views(hs@) =~= str_views(headers@).take(i as int));
        }
        assert(str_views(headers@).take(headers@.len() as int) =~= str_views(headers@));
        let t = Table { headers: hs, rows: Vec::new() };
        assert(t@.1 =~= Seq::<Seq<Seq<char>>>::empty());
        t
    }

    /// Appends a row.
    pub fn add_row(&mut self, row: Vec<String>)
        ensures
            final(self)@.0 == old(self)@.0,
            final(self)@.1 == old(self)@.1.push(views(row@)),
    {
        self.rows.push(row);
        assert(self@.1 =~= old(self)@.1.push(views(row@)));
    }

    /// Whether the table has no rows.
    pub fn is_empty(&self) -> (r: bool)
        ensures
            r == (self@.1.len() == 0),
    {
        self.rows.len() == 0
    }

    /// The width of each header column.
    pub fn col_widths(&self) -> (w: Vec<usize>)
        ensures
            w@.len() == self@.0.len(),
            forall|i: int| 0 <= i < w@.len() ==> w@[i] == col_width(self@, i),
    {
        let ghost t = self@;
        let mut w: Vec<usize> = Vec::new();
        let mut i: usize = 0;
        while i < self.headers.len()
            invariant
                t == self@,
                i <= self.headers@.len(),
                w@.len() == i,
                forall|j: int| 0 <= j < i ==> w@[j] == width_upto(t, j, 0),
            decreases self.headers@.len() - i,
        {
            assert(t.0[i as int] == self.headers@[i as int]@);
            w.push(byte_length(self.headers[i].as_str()));
            i = i + 1;
        }
        let mut k: usize = 0;
        while k < self.rows.len()
            invariant
                t == self@,
                k <= self.rows@.len(),
                w@.len() == t.0.len(),
                forall|j: int| 0 <= j < w@.len() ==> w@[j] == width_upto(t, j, k as int),
            decreases self.rows@.len() - k,
        {
            let row = &self.rows[k];
            assert(t.1[k as int] == views(row@));
            let mut c: usize = 0;
            while c < row.len()
                invariant
                    t == self@,
                    k < self.rows@.len(),
                    row == self.rows@[k as int],
                    t.1[k as int] == views(row@),
                    c <= row@.len(),
                    w@.len() == t.0.len(),
                    forall|j: int|
                        0 <= j < w@.len() ==> w@[j] == if j < c {
                            width_upto(t, j, k + 1)
                        } else {
                            width_upto(t, j, k as int)
                        },
                decreases row@.len() - c,
            {
                if c < w.len() {
                    let len = byte_length(row[c].as_str());
                    assert(t.1[k as int][c as int] == row@[c as int]@);
                    if len > w[c] {
                        w.set(c, len);
                    }
                }
                c = c + 1;
            }
            k = k + 1;
        }
        w
    }

    /// The header line.
    pub fn header_line(&self) -> (s: String)
        ensures
            s@ == joined(padded_header(self@), gap()),
    {
        let widths = self.col_widths();
        let mut cells: Vec<String> = Vec::new();
        let mut i: usize = 0;
        while i < self.headers.len()
            invariant
                i <= self.headers@.len(),
                widths@.len() == self@.0.len(),
                forall|j: int| 0 <= j < widths@.len() ==> widths@[j] == col_width(self@, j),
                views(cells@) == padded_header(self@).take(i as int),
            decreases self.headers@.len() - i,
        {
            let ghost before = views(cells@);
            let cell = pad_to(self.headers[i].as_str(), widths[i]);
            assert(self@.0[i as int] == self.headers@[i as int]@);
            cells.push(cell);
            assert(views(cells@) =~= before.push(cell@));
            i = i + 1;
            assert(views(cells@) =~= padded_header(self@).take(i as int));
        }
        assert(padded_header(self@).take(self.headers@.len() as int) =~= padded_header(self@));
        join_strings(&cells, "   ")
    }

    /// The line of dashes under the header.
    pub fn separator_line(&self) -> (s: String)
        ensures
            s@ == separator(self@),
    {
        let widths = self.col_widths();
        let ghost dashes = Seq::new(self@.0.len(), |i: int| repeated('-', col_width(self@, i)));
        let mut cells: Vec<String> = Vec::new();
        let mut i: usize = 0;
        while i < widths.len()
            invariant
                i <= widths@.len(),
                widths@.len() == self@.0.len(),
                forall|j: int| 0 <= j < widths@.len() ==> widths@[j] == col_width(self@, j),
                dashes == Seq::new(self@.0.len(), |i: int| repeated('-', col_width(self@, i))),
                views(cells@) == dashes.take(i as int),
            decreases widths@.len() - i,
        {
            let ghost before = views(cells@);
            let cell = repeat_char('-', widths[i]);
            cells.push(cell);
            assert(views(cells@) =~= before.push(cell@));
            i = i + 1;
            assert(views(cells@) =~= dashes.take(i as int));
        }
        assert(dashes.take(widths@.len() as int) =~= dashes);
        join_strings(&cells, "   ")
    }

    /// The cells of row `r`, padded to their columns' widths.
    pub fn padded_row(&self, r: usize) -> (cells: Vec<String>)
        requires
            r < self@.1.len(),
        ensures
            views(cells@) == padded_cells(self@, r as int),
    {
        let widths = self.col_widths();
        let row = &self.rows[r];
        assert(self@.1[r as int] == views(row@));
        let mut cells: Vec<String> = Vec::new();
        let mut i: usize = 0;
        while i < row.len()
            invariant
                row == self.rows@[r as int],
                r < self@.1.len(),
                self@.1[r as int] == views(row@),
                i <= row@.len(),
                widths@.len() == self@.0.len(),
                forall|j: int| 0 <= j < widths@.len() ==> widths@[j] == col_width(self@, j),
                views(cells@) == padded_cells(self@, r as int).take(i as int),
            decreases row@.len() - i,
        {
            let w = if i < widths.len() {
                widths[i]
            } else {
                byte_length(row[i].as_str())
            };
            let ghost before = views(cells@);
            let cell = pad_to(row[i].as_str(), w);
            assert(self@.1[r as int][i as int] == row@[i as int]@);
            cells.push(cell);
            assert(views(cells@) =~= before.push(cell@));
            i = i + 1;
            assert(views(cells@) =~= padded_cells(self@, r as int).take(i as int));
        }
        assert(padded_cells(self@, r as int).take(row@.len() as int) =~= padded_cells(
            self@,
            r as int,
        ));
        cells
    }

    /// Every line of the printed table.
    pub fn lines(&self) -> (out: Vec<String>)
        ensures
            views(out@) == rendered(self@),
    {
        let mut out: Vec<String> = Vec::new();
        out.push(self.header_line());
        out.push(self.separator_line());
        let mut r: usize = 0;
        while r < self.rows.len()
            invariant
                r <= self@.1.len(),
                views(out@) == rendered(self@).take(r + 2),
            decreases self@.1.len() - r,
        {
            let cells = self.padded_row(r);
            let line = join_strings(&cells, "   ");
            let ghost before = views(out@);
            out.push(line);
            assert(views(out@) =~= before.push(line@));
            assert(rendered(self@)[r + 2] == joined(padded_cells(self@, r as int), gap()));
            r = r + 1;
            assert(views(out@) =~= rendered(self@).take(r + 2));
        }
        assert(rendered(self@).take((self@.1.len() + 2) as int) =~= rendered(self@));
        out
    }
}

proof fn lemma_width_upto_bounds(t: TableView, i: int, n: int)
    requires
        0 <= n <= t.1.len(),
    ensures
        byte_len(t.0[i]) <= width_upto(t, i, n),
        forall|r: int|
            0 <= r < n && i < t.1[r].len() ==> byte_len(#[trigger] t.1[r][i]) <= width_upto(
                t,
                i,
                n,
            ),
        width_upto(t, i, n) == byte_len(t.0[i]) || exists|r: int|
            0 <= r < n && i < t.1[r].len() && width_upto(t, i, n) == byte_len(
                #[trigger] t.1[r][i],
            ),
    decreases n,
{
    if n > 0 {
        lemma_width_upto_bounds(t, i, n - 1);
    }
}

/// Each column is exactly as wide as its widest cell: no cell of the column
/// (header or row) is wider, and the header or some row's cell is that wide.
pub proof fn law_column_width_is_widest_cell(t: TableView, i: int)
    requires
        0 <= i < t.0.len(),
    ensures
        byte_len(t.0[i]) <= col_width(t, i),
        forall|r: int|
            0 <= r < t.1.len() && i < t.1[r].len() ==> byte_len(#[trigger] t.1[r][i])
                <= col_width(t, i),
        col_width(t, i) == byte_len(t.0[i]) || exists|r: int|
            0 <= r < t.1.len() && i < t.1[r].len() && col_width(t, i) == byte_len(
                #[trigger] t.1[r][i],
            ),
{
    lemma_width_upto_bounds(t, i, t.1.len() as int);
}

proof fn lemma_width_upto_prefix(t: TableView, u: TableView, i: int, n: int)
    requires
        0 <= n <= t.1.len(),
        n <= u.1.len(),
        t.0 == u.0,
        forall|r: int| 0 <= r < n ==> t.1[r] == u.1[r],
    ensures
        width_upto(t, i, n) == width_upto(u, i, n),
    decreases n,
{
    if n > 0 {
        lemma_width_upto_prefix(t, u, i, n - 1);
    }
}

/// Adding a row never narrows a column: the new width is the old one, or
/// the byte length of the new row's cell where that is wider.
pub proof fn law_add_row_widens(t: TableView, row: Seq<Seq<char>>, i: int)
    requires
        0 <= i < t.0.len(),
    ensures
        col_width((t.0, t.1.push(row)), i) == if i < row.len() && byte_len(row[i]) > col_width(
            t,
            i,
        ) {
            byte_len(row[i])
        } else {
            col_width(t, i)
        },
{
    let u = (t.0, t.1.push(row));
    lemma_width_upto_prefix(t, u, i, t.1.len() as int);
}

/// A table with at least one column, one cell per column in every row, and
/// only ASCII text.
pub open spec fn is_regular(t: TableView) -> bool {
    &&& t.0.len() >= 1
    &&& forall|j: int| 0 <= j < t.0.len() ==> is_ascii_text(#[trigger] t.0[j])
    &&& forall|r: int| 0 <= r < t.1.len() ==> (#[trigger] t.1[r]).len() == t.0.len()
    &&& forall|r: int, j: int|
        0 <= r < t.1.len() && 0 <= j < t.1[r].len() ==> is_ascii_text(#[trigger] t.1[r][j])
}

/// The width of each column.
pub open spec fn widths(t: TableView) -> Seq<int> {
    Seq::new(t.0.len(), |j: int| col_width(t, j) as int)
}

/// Where column `j` begins on a line whose columns have widths `ws`: after
/// the columns before it, each followed by the gap.
pub open spec fn column_start(ws: Seq<int>, j: int) -> int
    decreases j,
{
    if j <= 0 {
        0
    } else {
        column_start(ws, j - 1) + ws[j - 1] + 3
    }
}

/// The length of a line whose columns have widths `ws`.
pub open spec fn line_length(ws: Seq<int>) -> int {
    column_start(ws, ws.len() - 1) + ws[ws.len() - 1]
}

/// What column `j` shows on line `k`: the padded header, the dashes, or
/// the padded cell of row `k - 2`.
pub open spec fn line_cell(t: TableView, k: int, j: int) -> Seq<char> {
    if k == 0 {
        pad_right(t.0[j], col_width(t, j) as int)
    } else if k == 1 {
        repeated('-', col_width(t, j))
    } else {
        pad_right(t.1[k - 2][j], col_width(t, j) as int)
    }
}

proof fn lemma_column_start_prefix(ws: Seq<int>, vs: Seq<int>, j: int)
    requires
        0 <= j <= vs.len() <= ws.len(),
        forall|i: int| 0 <= i < vs.len() ==> vs[i] == ws[i],
    ensures
        column_start(vs, j) == column_start(ws, j),
    decreases j,
{
    if j > 0 {
        lemma_column_start_prefix(ws, vs, j - 1);
    }
}

/// Parts of widths `ws`, joined with the gap, lie side by side: each part
/// at its column start, a gap after each but the last.
proof fn lemma_joined_layout(parts: Seq<Seq<char>>, ws: Seq<int>)
    requires
        parts.len() == ws.len() >= 1,
        forall|j: int| 0 <= j < parts.len() ==> (#[trigger] parts[j]).len() == ws[j],
    ensures
        joined(parts, gap()).len() == line_length(ws),
        forall|j: int|
            0 <= j < parts.len() ==> joined(parts, gap()).subrange(
                column_start(ws, j),
                column_start(ws, j) + ws[j],
            ) == #[trigger] parts[j],
        forall|j: int|
            0 <= j < parts.len() - 1 ==> joined(parts, gap()).subrange(
                column_start(ws, j) + ws[j],
                #[trigger] column_start(ws, j + 1),
            ) == gap(),
    decreases parts.len(),
{
    let n = parts.len() as int;
    let all = joined(parts, gap());
    if n == 1 {
        assert(parts[0].len() == ws[0]);
        assert(all.subrange(0, ws[0]) =~= parts[0]);
    } else {
        let ps = parts.drop_last();
        let vs = ws.drop_last();
        assert forall|j: int| 0 <= j < ps.len() implies (#[trigger] ps[j]).len() == vs[j] by {
            assert(ps[j] == parts[j]);
        }
        assert forall|i: int| 0 <= i < vs.len() implies #[trigger] vs[i] >= 0 by {
            assert(vs[i] == ps[i].len());
        }
        lemma_joined_layout(ps, vs);
        let front = joined(ps, gap());
        assert(all == front + gap() + parts.last());
        assert(gap().len() == 3) by {
            reveal_strlit("   ");
        }
        lemma_column_start_prefix(ws, vs, n - 1);
        lemma_column_start_prefix(ws, vs, n - 2);
        assert(front.len() == column_start(ws, n - 2) + ws[n - 2]);
        assert(parts[n - 1] == parts.last());
        assert(parts[n - 1].len() == ws[n - 1]);
        assert(all.subrange(column_start(ws, n - 1), column_start(ws, n - 1) + ws[n - 1])
            =~= parts[n - 1]);
        assert(all.subrange(column_start(ws, n - 2) + ws[n - 2], column_start(ws, n - 1))
            =~= gap());
        assert forall|j: int| 0 <= j < n implies all.subrange(
            column_start(ws, j),
            column_start(ws, j) + ws[j],
        ) == #[trigger] parts[j] by {
            if j < n - 1 {
                lemma_column_start_prefix(ws, vs, j);
                lemma_column_start_prefix(ws, vs, j + 1);
                assert(ps[j] == parts[j]);
                assert(front.subrange(column_start(vs, j), column_start(vs, j) + vs[j]) == ps[j]);
                lemma_column_start_le(vs, j, n - 2);
                lemma_column_start_nonneg(vs, j);
                assert(vs[j] == ws[j]);
                assert(all.subrange(column_start(ws, j), column_start(ws, j) + ws[j])
                    =~= front.subrange(column_start(vs, j), column_start(vs, j) + vs[j]));
            }
        }
        assert forall|j: int| 0 <= j < n - 1 implies all.subrange(
            column_start(ws, j) + ws[j],
            #[trigger] column_start(ws, j + 1),
        ) == gap() by {
            if j < n - 2 {
                lemma_column_start_prefix(ws, vs, j);
                lemma_column_start_prefix(ws, vs, j + 1);
                assert(front.subrange(column_start(vs, j) + vs[j], column_start(vs, j + 1))
                    == gap());
                lemma_column_start_le(vs, j + 1, n - 2);
                lemma_column_start_nonneg(vs, j);
                assert(vs[j] == ws[j]);
                assert(all.subrange(column_start(ws, j) + ws[j], column_start(ws, j + 1))
                    =~= front.subrange(column_start(vs, j) + vs[j], column_start(vs, j + 1)));
            }
        }
    }
}

proof fn lemma_column_start_nonneg(ws: Seq<int>, i: int)
    requires
        0 <= i <= ws.len(),
        forall|k: int| 0 <= k < ws.len() ==> #[trigger] ws[k] >= 0,
    ensures
        column_start(ws, i) >= 0,
    decreases i,
{
    if i > 0 {
        lemma_column_start_nonneg(ws, i - 1);
    }
}

proof fn lemma_column_start_le(ws: Seq<int>, i: int, j: int)
    requires
        0 <= i <= j < ws.len(),
        forall|k: int| 0 <= k < ws.len() ==> #[trigger] ws[k] >= 0,
    ensures
        column_start(ws, i) + ws[i] <= column_start(ws, j) + ws[j],
    decreases j - i,
{
    if i < j {
        lemma_column_start_le(ws, i + 1, j);
    }
}

/// Columns line up: for a table with at least one column, one cell per
/// column in every row and only ASCII text, every printed line (header,
/// dashes, rows) has the same length, the widths of all columns plus three
/// spaces between each two; column `j` starts at the same place on every
/// line, after the widths of the columns before it and their gaps, and
/// holds that line's cell padded to the column's width.
pub proof fn law_columns_align(t: TableView, k: int, j: int)
    requires
        is_regular(t),
        0 <= k < rendered(t).len(),
        0 <= j < t.0.len(),
    ensures
        rendered(t)[k].len() == line_length(widths(t)),
        rendered(t)[k].subrange(
            column_start(widths(t), j),
            column_start(widths(t), j) + col_width(t, j),
        ) == line_cell(t, k, j),
        j + 1 < t.0.len() ==> rendered(t)[k].subrange(
            column_start(widths(t), j) + col_width(t, j),
            column_start(widths(t), j + 1),
        ) == gap(),
{
    let n = t.0.len() as int;
    let ws = widths(t);
    let parts = Seq::new(n as nat, |i: int| line_cell(t, k, i));
    assert forall|i: int| 0 <= i < n implies (#[trigger] parts[i]).len() == ws[i] by {
        law_column_width_is_widest_cell(t, i);
        if k == 0 {
            lemma_ascii_byte_len(t.0[i]);
        } else if k >= 2 {
            let r = k - 2;
            assert(t.1[r].len() == n);
            assert(is_ascii_text(t.1[r][i]));
            lemma_ascii_byte_len(t.1[r][i]);
        }
    }
    if k == 0 {
        assert(padded_header(t) =~= parts);
    } else if k == 1 {
        assert(Seq::new(t.0.len(), |i: int| repeated('-', col_width(t, i))) =~= parts);
    } else {
        let r = k - 2;
        assert(t.1[r].len() == n);
        assert(padded_cells(t, r) =~= parts);
        assert(rendered(t)[k] == joined(padded_cells(t, r), gap()));
    }
    assert(rendered(t)[k] == joined(parts, gap()));
    lemma_joined_layout(parts, ws);
    assert(parts[j] == line_cell(t, k, j));
}

} // verus!
