//! The fixed-column table renderer: five columns per row, per-column
//! alignment, widths tracked incrementally over the first four columns;
//! the last column is never padded. Cell widths are measured and padded in
//! characters, so multi-byte text aligns correctly.

use vstd::prelude::*;
use vstd::string::{StrSliceExecFns, StringExecFns};
use crate::text::push_char;

verus! {

/// Per-column alignment of a cell inside its padded width.
#[derive(Clone, Copy, PartialEq, Eq, Structural, Debug)]
pub enum Align {
    Left,
    Center,
    Right,
}

/// `n` space characters.
pub open spec fn spaces(n: nat) -> Seq<char> {
    Seq::new(n, |i: int| ' ')
}

/// `cell` padded with spaces to `width` characters under alignment `a`; a
/// cell at least `width` characters long is returned unchanged. Centering
/// favours the left: the extra space of an odd difference goes to the
/// right.
pub open spec fn pad_view(cell: Seq<char>, width: nat, a: Align) -> Seq<char> {
    if cell.len() >= width {
        cell
    } else {
        let n = (width - cell.len()) as nat;
        match a {
            Align::Left => cell + spaces(n),
            Align::Center => spaces(n / 2) + cell + spaces((n - n / 2) as nat),
            Align::Right => spaces(n) + cell,
        }
    }
}

fn append_spaces(s: &mut String, n: usize)
    ensures
        final(s)@ == old(s)@ + spaces(n as nat),
{
    let mut i: usize = 0;
    while i < n
        invariant
            i <= n,
            s@ == old(s)@ + spaces(i as nat),
        decreases n - i,
    {
        push_char(s, ' ');
        proof {
            assert((old(s)@ + spaces(i as nat)).push(' ') =~= old(s)@ + spaces((i + 1) as nat));
        }
        i = i + 1;
    }
}

/// `cell` padded with spaces to `width` characters under alignment `a`.
pub fn pad(cell: &String, width: usize, a: Align) -> (r: String)
    ensures
        r@ == pad_view(cell@, width as nat, a),
{
    let len: usize = cell.as_str().unicode_len();
    if len >= width {
        return cell.clone();
    }
    let n: usize = width - len;
    match a {
        Align::Left => {
            let mut s = cell.clone();
            append_spaces(&mut s, n);
            s
        },
        Align::Center => {
            let mut s = String::new();
            append_spaces(&mut s, n / 2);
            s.append(cell.as_str());
            append_spaces(&mut s, n - n / 2);
            proof {
                assert(s@ =~= spaces(n as nat / 2) + cell@ + spaces(
                    (n as nat - n as nat / 2) as nat,
                ));
            }
            s
        },
        Align::Right => {
            let mut s = String::new();
            append_spaces(&mut s, n);
            s.append(cell.as_str());
            proof {
                assert(s@ =~= spaces(n as nat) + cell@);
            }
            s
        },
    }
}

/// The greatest cell length of column `i` over `rows`; zero for no rows.
pub open spec fn col_width(rows: Seq<Seq<Seq<char>>>, i: int) -> nat
    decreases rows.len(),
{
    if rows.len() == 0 {
        0
    } else {
        let rest = col_width(rows.drop_last(), i);
        let lastlen = rows.last()[i].len();
        if lastlen > rest {
            lastlen
        } else {
            rest
        }
    }
}

/// The final widths of the four padded columns over `rows`: each the
/// greatest cell length of its column.
pub open spec fn table_widths(rows: Seq<Seq<Seq<char>>>) -> Seq<nat> {
    Seq::new(4, |i: int| col_width(rows, i))
}

/// One rendered line of a five-cell row: the first four cells padded to
/// `widths` under `aligns`, each followed by `" | "`, then the last cell
/// unpadded.
pub open spec fn line_view(row: Seq<Seq<char>>, widths: Seq<nat>, aligns: Seq<Align>) -> Seq<
    char,
> {
    pad_view(row[0], widths[0], aligns[0]) + " | "@ + pad_view(row[1], widths[1], aligns[1])
        + " | "@ + pad_view(row[2], widths[2], aligns[2]) + " | "@ + pad_view(
        row[3],
        widths[3],
        aligns[3],
    ) + " | "@ + row[4]
}

/// The table accumulator: alignment per column, tracked width per padded
/// column, and the pushed rows in insertion order.
pub struct Table {
    aligns: Vec<Align>,
    widths: Vec<usize>,
    rows: Vec<Vec<String>>,
}

impl Table {
    /// The pushed rows, as character sequences.
    pub closed spec fn rows_view(self) -> Seq<Seq<Seq<char>>> {
        self.rows.deep_view()
    }

    /// The per-column alignments.
    pub closed spec fn aligns_view(self) -> Seq<Align> {
        self.aligns@
    }

    /// The tracked widths of the four padded columns.
    pub closed spec fn widths_view(self) -> Seq<usize> {
        self.widths@
    }

    /// Well-formedness: five alignment slots, four tracked widths, every
    /// row of exactly five cells, and each tracked width equal to the
    /// greatest cell length of its column over the pushed rows.
    pub closed spec fn wf(self) -> bool {
        &&& self.aligns@.len() == 5
        &&& self.widths@.len() == 4
        &&& forall|r: int|
            0 <= r < self.rows_view().len() ==> #[trigger] self.rows_view()[r].len() == 5
        &&& forall|i: int|
            0 <= i < 4 ==> #[trigger] self.widths@[i] as nat == col_width(self.rows_view(), i)
    }

    /// An empty table: all columns left-aligned, widths zero, no rows.
    pub fn new() -> (t: Table)
        ensures
            t.wf(),
            t.rows_view() == Seq::<Seq<Seq<char>>>::empty(),
            t.aligns_view() == seq![Align::Left, Align::Left, Align::Left, Align::Left, Align::Left],
    {
        let mut aligns: Vec<Align> = Vec::new();
        let mut k: usize = 0;
        while k < 5
            invariant
                k <= 5,
                aligns@.len() == k,
                forall|i: int| 0 <= i < k ==> aligns@[i] == Align::Left,
            decreases 5 - k,
        {
            aligns.push(Align::Left);
            k = k + 1;
        }
        let mut widths: Vec<usize> = Vec::new();
        let mut k2: usize = 0;
        while k2 < 4
            invariant
                k2 <= 4,
                widths@.len() == k2,
                forall|i: int| 0 <= i < k2 ==> widths@[i] == 0usize,
            decreases 4 - k2,
        {
            widths.push(0);
            k2 = k2 + 1;
        }
        let t = Table { aligns, widths, rows: Vec::new() };
        proof {
            assert(t.rows_view() =~= Seq::<Seq<Seq<char>>>::empty());
            assert(t.aligns_view() =~= seq![
                Align::Left,
                Align::Left,
                Align::Left,
                Align::Left,
                Align::Left,
            ]);
        }
        t
    }

    /// The number of pushed rows.
    pub fn len(&self) -> (n: usize)
        ensures
            n == self.rows_view().len(),
    {
        self.rows.len()
    }

    /// The tracked width of column `i`.
    pub fn width(&self, i: usize) -> (w: usize)
        requires
            self.wf(),
            i < 4,
        ensures
            w as nat == col_width(self.rows_view(), i as int),
    {
        self.widths[i]
    }

    /// Sets the alignment of one column.
    pub fn set_align(&mut self, column: usize, a: Align)
        requires
            old(self).wf(),
            column < 5,
        ensures
            final(self).wf(),
            final(self).aligns_view() == old(self).aligns_view().update(column as int, a),
            final(self).rows_view() == old(self).rows_view(),
            final(self).widths_view() == old(self).widths_view(),
    {
        self.aligns.set(column, a);
        proof {
            assert(self.rows_view() == old(self).rows_view());
            assert(forall|i: int|
                0 <= i < 4 ==> #[trigger] self.widths@[i] as nat == col_width(
                    self.rows_view(),
                    i,
                ));
            assert(self.wf());
        }
    }

    /// Appends one row and folds its first four cell lengths into the
    /// tracked widths.
    pub fn push(&mut self, row: Vec<String>)
        requires
            old(self).wf(),
            row@.len() == 5,
        ensures
            final(self).wf(),
            final(self).rows_view() == old(self).rows_view().push(row.deep_view()),
            final(self).aligns_view() == old(self).aligns_view(),
    {
        let mut i: usize = 0;
        while i < 4
            invariant
                old(self).wf(),
                row@.len() == 5,
                row.deep_view().len() == 5,
                self.aligns == old(self).aligns,
                self.rows == old(self).rows,
                self.widths@.len() == 4,
                i <= 4,
                forall|k: int|
                    i <= k < 4 ==> #[trigger] self.widths@[k] == old(self).widths@[k],
                forall|k: int|
                    0 <= k < i ==> #[trigger] self.widths@[k] as nat == (if row.deep_view()[k].len()
                        > old(self).widths@[k] as nat {
                        row.deep_view()[k].len()
                    } else {
                        old(self).widths@[k] as nat
                    }),
            decreases 4 - i,
        {
            proof {
                assert(row.deep_view()[i as int] =~= row@[i as int]@);
            }
            let l: usize = row[i].as_str().unicode_len();
            if l > self.widths[i] {
                self.widths.set(i, l);
            }
            i = i + 1;
        }
        self.rows.push(row);
        proof {
            assert(self.rows_view() =~~= old(self).rows_view().push(row.deep_view()));
            assert(self.rows_view().drop_last() =~~= old(self).rows_view());
            assert forall|k: int| 0 <= k < 4 implies #[trigger] self.widths@[k] as nat
                == col_width(self.rows_view(), k) by {
                assert(self.rows_view().last() == row.deep_view());
                assert(old(self).widths@[k] as nat == col_width(old(self).rows_view(), k));
            }
        }
    }

    /// All rows rendered in insertion order, using the final widths.
    pub fn render_lines(&self) -> (lines: Vec<String>)
        requires
            self.wf(),
        ensures
            lines@.len() == self.rows_view().len(),
            forall|r: int|
                0 <= r < lines@.len() ==> #[trigger] lines@[r]@ == line_view(
                    self.rows_view()[r],
                    table_widths(self.rows_view()),
                    self.aligns_view(),
                ),
    {
        let mut lines: Vec<String> = Vec::new();
        let mut r: usize = 0;
        while r < self.rows.len()
            invariant
                self.wf(),
                r <= self.rows@.len(),
                self.rows_view().len() == self.rows@.len(),
                lines@.len() == r,
                forall|q: int|
                    0 <= q < r ==> #[trigger] lines@[q]@ == line_view(
                        self.rows_view()[q],
                        table_widths(self.rows_view()),
                        self.aligns_view(),
                    ),
            decreases self.rows@.len() - r,
        {
            proof {
                assert(self.rows_view()[r as int].len() == 5);
                assert forall|c: int| 0 <= c < 5 implies #[trigger] self.rows@[r as int]@[c]@
                    == self.rows_view()[r as int][c] by {
                    assert(self.rows_view()[r as int] =~= self.rows@[r as int].deep_view());
                }
            }
            let row: &Vec<String> = &self.rows[r];
            let mut line = pad(&row[0], self.widths[0], self.aligns[0]);
            line.append(" | ");
            let p1 = pad(&row[1], self.widths[1], self.aligns[1]);
            line.append(p1.as_str());
            line.append(" | ");
            let p2 = pad(&row[2], self.widths[2], self.aligns[2]);
            line.append(p2.as_str());
            line.append(" | ");
            let p3 = pad(&row[3], self.widths[3], self.aligns[3]);
            line.append(p3.as_str());
            line.append(" | ");
            line.append(row[4].as_str());
            proof {
                assert forall|c: int| 0 <= c < 4 implies table_widths(self.rows_view())[c]
                    == self.widths@[c] as nat by {}
                assert(line@ =~= line_view(
                    self.rows_view()[r as int],
                    table_widths(self.rows_view()),
                    self.aligns_view(),
                ));
            }
            lines.push(line);
            r = r + 1;
        }
        lines
    }
}


/// Width-invariant law: the tracked width of a column is the greatest
/// cell length over the rows — at least every cell's length, zero with no
/// rows, and attained by some row otherwise.
pub proof fn lemma_col_width_is_max(rows: Seq<Seq<Seq<char>>>, i: int)
    ensures
        forall|r: int| 0 <= r < rows.len() ==> #[trigger] rows[r][i].len() <= col_width(rows, i),
        rows.len() == 0 ==> col_width(rows, i) == 0,
        rows.len() > 0 ==> exists|r: int|
            0 <= r < rows.len() && #[trigger] rows[r][i].len() == col_width(rows, i),
    decreases rows.len(),
{
    if rows.len() > 0 {
        lemma_col_width_is_max(rows.drop_last(), i);
        assert forall|r: int| 0 <= r < rows.len() implies #[trigger] rows[r][i].len()
            <= col_width(rows, i) by {
            if r < rows.len() - 1 {
                assert(rows.drop_last()[r] == rows[r]);
            }
        }
        if rows.last()[i].len() >= col_width(rows.drop_last(), i) {
            assert(rows[rows.len() - 1][i].len() == col_width(rows, i));
        } else {
            let w = choose|r: int|
                0 <= r < rows.drop_last().len() && #[trigger] rows.drop_last()[r][i].len()
                    == col_width(rows.drop_last(), i);
            assert(rows[w][i].len() == col_width(rows, i));
        }
    }
}

/// Alignment law: a padded cell is exactly the column width where the
/// cell is no longer, and the padding spaces sit after the cell for left
/// alignment, before it for right alignment, and around it — extra space
/// to the right — for centering.
pub proof fn lemma_pad_alignment(cell: Seq<char>, width: nat, a: Align)
    ensures
        cell.len() <= width ==> pad_view(cell, width, a).len() == width,
        cell.len() > width ==> pad_view(cell, width, a) == cell,
        (cell.len() < width && a is Right) ==> pad_view(cell, width, a) == spaces(
            (width - cell.len()) as nat,
        ) + cell,
        (cell.len() < width && a is Left) ==> pad_view(cell, width, a) == cell + spaces(
            (width - cell.len()) as nat,
        ),
        (cell.len() < width && a is Center) ==> pad_view(cell, width, a) == spaces(
            ((width - cell.len()) as nat) / 2,
        ) + cell + spaces((width - cell.len() - ((width - cell.len()) as nat) / 2) as nat),
{
}

/// Columns line up: in a well-formed table, every padded cell of a
/// tracked column renders at exactly the column's final width, whatever
/// the row.
pub proof fn lemma_columns_line_up(t: Table, r: int, c: int)
    requires
        t.wf(),
        0 <= r < t.rows_view().len(),
        0 <= c < 4,
    ensures
        pad_view(
            t.rows_view()[r][c],
            table_widths(t.rows_view())[c],
            t.aligns_view()[c],
        ).len() == table_widths(t.rows_view())[c],
{
    lemma_col_width_is_max(t.rows_view(), c);
    lemma_pad_alignment(t.rows_view()[r][c], table_widths(t.rows_view())[c], t.aligns_view()[c]);
}

} // verus!
