//! What a command hands back for display.

use vstd::prelude::*;
use vstd::string::StringExecFns;

use crate::text::{chars_of, string_views};

verus! {

pub enum FormatResult {
    Plain(String),
    /// Rows of cells, shown as aligned columns.
    Table(Vec<Vec<String>>),
}

pub open spec fn row_views(rows: Seq<Vec<String>>) -> Seq<Seq<Seq<char>>> {
    rows.map_values(|r: Vec<String>| string_views(r@))
}

/// The widest cell of column `i` among the rows.
pub open spec fn col_width(rows: Seq<Seq<Seq<char>>>, i: int) -> nat
    decreases rows.len(),
{
    if rows.len() == 0 {
        0
    } else {
        let w = col_width(rows.drop_last(), i);
        let last = rows.last();
        if 0 <= i < last.len() && last[i].len() > w {
            last[i].len()
        } else {
            w
        }
    }
}

/// A cell padded with spaces on the right to `w` characters.
pub open spec fn pad(cell: Seq<char>, w: nat) -> Seq<char> {
    if cell.len() < w {
        cell + Seq::new((w - cell.len()) as nat, |_i: int| ' ')
    } else {
        cell
    }
}

/// The width that column `i` is padded to: that of the table's columns,
/// which the first row decides; cells beyond them are not padded.
pub open spec fn width_at(rows: Seq<Seq<Seq<char>>>, i: int) -> nat {
    if rows.len() > 0 && i < rows[0].len() {
        col_width(rows, i)
    } else {
        0
    }
}

/// One row: its cells padded and separated by two spaces.
pub open spec fn line_spec(rows: Seq<Seq<Seq<char>>>, row: Seq<Seq<char>>) -> Seq<char>
    decreases row.len(),
{
    if row.len() == 0 {
        seq![]
    } else {
        let init = line_spec(rows, row.drop_last());
        let sep = if row.len() > 1 {
            seq![' ', ' ']
        } else {
            seq![]
        };
        init + sep + pad(row.last(), width_at(rows, row.len() - 1))
    }
}

pub open spec fn table_spec(rows: Seq<Seq<Seq<char>>>, upto: int) -> Seq<char>
    decreases upto,
{
    if upto <= 0 {
        seq![]
    } else {
        table_spec(rows, upto - 1) + line_spec(rows, rows[upto - 1]) + seq!['\n']
    }
}

pub open spec fn render_spec(rows: Seq<Seq<Seq<char>>>) -> Seq<char> {
    table_spec(rows, rows.len() as int)
}

fn char_len(s: &String) -> (r: usize)
    ensures
        r == s@.len(),
{
    chars_of(s.as_str()).len()
}

fn with_char(s: String, c: char) -> (r: String)
    ensures
        r@ == s@.push(c),
{
    let mut v = crate::text::chars_of(s.as_str());
    v.push(c);
    crate::text::string_of(&v)
}

fn padded(cell: &String, w: usize) -> (r: String)
    ensures
        r@ == pad(cell@, w as nat),
{
    let n = char_len(cell);
    let mut out = cell.clone();
    if n < w {
        let mut k: usize = n;
        while k < w
            invariant
                n <= k <= w,
                n == cell@.len(),
                out@ == cell@ + Seq::new((k - n) as nat, |_i: int| ' '),
            decreases w - k,
        {
            out = with_char(out, ' ');
            assert(cell@ + Seq::new((k + 1 - n) as nat, |_i: int| ' ')
                == (cell@ + Seq::new((k - n) as nat, |_i: int| ' ')).push(' '));
            k += 1;
        }
    }
    out
}

impl FormatResult {
    /// The text shown: plain text as it is, or the table with each column
    /// padded to its widest cell.
    pub fn render(&self) -> (r: String)
        ensures
            self matches FormatResult::Plain(s) ==> r@ == s@,
            self matches FormatResult::Table(rows) ==> r@ == render_spec(row_views(rows@)),
    {
        match self {
            FormatResult::Plain(s) => s.clone(),
            FormatResult::Table(rows) => {
                let ghost rv = row_views(rows@);
                let cols: usize = if rows.len() > 0 {
                    rows[0].len()
                } else {
                    0
                };
                let mut widths: Vec<usize> = Vec::new();
                let mut c: usize = 0;
                while c < cols
                    invariant
                        rv == row_views(rows@),
                        c <= cols,
                        cols == if rows.len() > 0 { rows@[0]@.len() } else { 0 },
                        widths@.len() == c,
                        forall|j: int| 0 <= j < c ==> widths@[j] as nat == width_at(rv, j),
                    decreases cols - c,
                {
                    let mut w: usize = 0;
                    let mut r: usize = 0;
                    while r < rows.len()
                        invariant
                            rv == row_views(rows@),
                            r <= rows.len(),
                            c < cols,
                            w as nat == col_width(rv.subrange(0, r as int), c as int),
                        decreases rows.len() - r,
                    {
                        assert(rv.subrange(0, r + 1).drop_last() == rv.subrange(0, r as int));
                        assert(rv.subrange(0, r + 1).last() == string_views(rows@[r as int]@));
                        if c < rows[r].len() {
                            let n = char_len(&rows[r][c]);
                            if n > w {
                                w = n;
                            }
                        }
                        r += 1;
                    }
                    assert(rv.subrange(0, rows.len() as int) == rv);
                    assert(rv[0] == string_views(rows@[0]@));
                    widths.push(w);
                    c += 1;
                }
                let mut out = String::new();
                let mut r: usize = 0;
                while r < rows.len()
                    invariant
                        rv == row_views(rows@),
                        r <= rows.len(),
                        widths@.len() == cols,
                        cols == if rows.len() > 0 { rows@[0]@.len() } else { 0 },
                        forall|j: int| 0 <= j < cols ==> widths@[j] as nat == width_at(rv, j),
                        out@ == table_spec(rv, r as int),
                    decreases rows.len() - r,
                {
                    let row = &rows[r];
                    let ghost cells = string_views(row@);
                    assert(rv[r as int] == cells);
                    let mut line = String::new();
                    let mut i: usize = 0;
                    while i < row.len()
                        invariant
                            rv == row_views(rows@),
                            cells == string_views(row@),
                            r < rows.len(),
                            i <= row.len(),
                            widths@.len() == cols,
                            cols == if rows.len() > 0 { rows@[0]@.len() } else { 0 },
                            forall|j: int| 0 <= j < cols ==> widths@[j] as nat == width_at(rv, j),
                            line@ == line_spec(rv, cells.subrange(0, i as int)),
                        decreases row.len() - i,
                    {
                        assert(cells.subrange(0, i + 1).drop_last() == cells.subrange(0, i as int));
                        assert(cells.subrange(0, i + 1).last() == row@[i as int]@);
                        if i > 0 {
                            line = line.concat("  ");
                        }
                        let w: usize = if i < cols {
                            widths[i]
                        } else {
                            0
                        };
                        proof {
                            if i >= cols {
                                assert(width_at(rv, i as int) == 0) by {
                                    if rv.len() > 0 {
                                        assert(rv[0] == string_views(rows@[0]@));
                                    }
                                }
                            }
                        }
                        let p = padded(&row[i], w);
                        line = line.concat(p.as_str());
                        proof {
                            reveal_strlit("  ");
                        }
                        i += 1;
                    }
                    assert(cells.subrange(0, row.len() as int) == cells);
                    out = out.concat(line.as_str());
                    out = with_char(out, '\n');
                    r += 1;
                }
                out
            },
        }
    }
}

} // verus!

verus! {

/// What a command reports: its message, and the warnings of best-effort
/// steps that failed without failing the command.
#[derive(Debug, Clone, PartialEq, Eq)]
pub struct Outcome {
    pub message: String,
    pub warnings: Vec<String>,
}

} // verus!
