//! Rendering a result table as a human-readable string: fixed-width
//! columns, left-aligned, one header line and one line per row, each
//! line newline-terminated. A column is as wide as its widest entry
//! (header included); cells are padded with spaces and separated by a
//! single space.

use vstd::prelude::*;

use crate::table::Cell;
use crate::table::CellV;
use crate::table::FieldV;
use crate::table::Table;
use crate::table::TableV;
use crate::text::dec_rep_int;
use crate::text::i64_to_string;

verus! {

/// How one cell reads: nothing for null, decimal for a number, the text
/// itself otherwise.
pub open spec fn spec_cell_text(c: CellV) -> Seq<char> {
    match c {
        CellV::Null => Seq::empty(),
        CellV::Num(n) => dec_rep_int(n),
        CellV::Text(s) => s,
    }
}

fn cell_text(c: &Cell) -> (r: String)
    ensures
        r@ == spec_cell_text(c@),
{
    match c {
        Cell::Null => String::new(),
        Cell::Num(n) => i64_to_string(*n),
        Cell::Text(s) => s.clone(),
    }
}

/// `k` spaces.
pub open spec fn spec_spaces(k: nat) -> Seq<char>
    decreases k,
{
    if k == 0 {
        Seq::empty()
    } else {
        spec_spaces((k - 1) as nat).push(' ')
    }
}

/// `s` padded with spaces up to width `w` (unchanged when already wider).
pub open spec fn spec_pad(s: Seq<char>, w: int) -> Seq<char> {
    if s.len() >= w {
        s
    } else {
        s + spec_spaces((w - s.len()) as nat)
    }
}

/// The deep view of a list of strings.
pub open spec fn strings_view(ss: Seq<String>) -> Seq<Seq<char>> {
    ss.map_values(|s: String| s@)
}

/// Widths as mathematical integers.
pub open spec fn widths_view(ws: Seq<usize>) -> Seq<int> {
    ws.map_values(|w: usize| w as int)
}

/// One line: each text padded to its column's width, separated by a
/// single space.
pub open spec fn spec_line(texts: Seq<Seq<char>>, widths: Seq<int>) -> Seq<char>
    decreases texts.len(),
{
    if texts.len() == 0 {
        Seq::empty()
    } else if texts.len() == 1 {
        spec_pad(texts[0], widths[0])
    } else {
        spec_line(texts.drop_last(), widths.drop_last()) + seq![' '] + spec_pad(
            texts.last(),
            widths[texts.len() - 1],
        )
    }
}

/// The texts of one row's cells.
pub open spec fn spec_row_texts(row: Seq<CellV>) -> Seq<Seq<char>> {
    row.map_values(|c: CellV| spec_cell_text(c))
}

/// The texts of the header: the field names.
pub open spec fn spec_header_texts(fields: Seq<FieldV>) -> Seq<Seq<char>> {
    fields.map_values(|f: FieldV| f.name)
}

/// The widest cell text in column `j` over the given rows.
pub open spec fn spec_rows_width(rows: Seq<Seq<CellV>>, j: int) -> int
    decreases rows.len(),
{
    if rows.len() == 0 {
        0
    } else {
        let w = spec_rows_width(rows.drop_last(), j);
        let l = spec_cell_text(rows.last()[j]).len() as int;
        if l > w {
            l
        } else {
            w
        }
    }
}

/// Column `j`'s width: its widest entry, header included.
pub open spec fn spec_col_width(t: TableV, j: int) -> int {
    let h = t.fields[j].name.len() as int;
    let w = spec_rows_width(t.rows, j);
    if h > w {
        h
    } else {
        w
    }
}

/// All column widths of a table.
pub open spec fn spec_widths(t: TableV) -> Seq<int> {
    Seq::new(t.fields.len(), |j: int| spec_col_width(t, j))
}

/// The body: one line per row, each newline-terminated.
pub open spec fn spec_body_lines(rows: Seq<Seq<CellV>>, widths: Seq<int>) -> Seq<char>
    decreases rows.len(),
{
    if rows.len() == 0 {
        Seq::empty()
    } else {
        spec_body_lines(rows.drop_last(), widths) + spec_line(
            spec_row_texts(rows.last()),
            widths,
        ) + seq!['\n']
    }
}

/// The whole rendering: the header line, then the body.
pub open spec fn spec_render(t: TableV) -> Seq<char> {
    spec_line(spec_header_texts(t.fields), spec_widths(t)) + seq!['\n'] + spec_body_lines(
        t.rows,
        spec_widths(t),
    )
}

fn pad_append(out: &mut String, s: &str, w: usize)
    ensures
        final(out)@ == old(out)@ + spec_pad(s@, w as int),
{
    out.append(s);
    let mut l = s.unicode_len();
    proof {
        assert(out@ =~= old(out)@ + s@ + spec_spaces(0));
    }
    let ghost base = l;
    while l < w
        invariant
            base == s@.len(),
            base <= l,
            l <= w || l == base,
            out@ == old(out)@ + s@ + spec_spaces((l - base) as nat),
        decreases w - l,
    {
        out.append(" ");
        l = l + 1;
        proof {
            reveal_strlit(" ");
            assert(" "@ =~= seq![' ']);
            assert(spec_spaces((l - base) as nat) == spec_spaces((l - 1 - base) as nat).push(' '));
            assert(out@ =~= old(out)@ + s@ + spec_spaces((l - base) as nat));
        }
    }
    proof {
        if s@.len() >= w as int {
            assert(l == base);
            assert(out@ =~= old(out)@ + spec_pad(s@, w as int));
        } else {
            assert(l == w);
            assert(out@ =~= old(out)@ + spec_pad(s@, w as int));
        }
    }
}

fn append_line(out: &mut String, texts: &Vec<String>, widths: &Vec<usize>)
    requires
        texts@.len() == widths@.len(),
    ensures
        final(out)@ == old(out)@ + spec_line(strings_view(texts@), widths_view(widths@)),
{
    let ghost tv = strings_view(texts@);
    let ghost wv = widths_view(widths@);
    proof {
        assert(tv.take(0) =~= Seq::<Seq<char>>::empty());
        assert(wv.take(0) =~= Seq::<int>::empty());
    }
    let mut j: usize = 0;
    while j < texts.len()
        invariant
            j <= texts@.len(),
            texts@.len() == widths@.len(),
            tv == strings_view(texts@),
            wv == widths_view(widths@),
            out@ == old(out)@ + spec_line(tv.take(j as int), wv.take(j as int)),
        decreases texts@.len() - j,
    {
        if j > 0 {
            out.append(" ");
            proof {
                reveal_strlit(" ");
                assert(" "@ =~= seq![' ']);
            }
        }
        pad_append(out, texts[j].as_str(), widths[j]);
        j = j + 1;
        proof {
            let tj = tv.take(j as int);
            let wj = wv.take(j as int);
            assert(tj.len() == j);
            assert(tj.last() == tv[j - 1]);
            if j == 1 {
                assert(out@ =~= old(out)@ + spec_line(tj, wj));
            } else {
                assert(tj.drop_last() =~= tv.take(j - 1));
                assert(wj.drop_last() =~= wv.take(j - 1));
                assert(spec_line(tj, wj) == spec_line(tv.take(j - 1), wv.take(j - 1)) + seq![' ']
                    + spec_pad(tv[j - 1], wv[j - 1]));
                assert(out@ =~= old(out)@ + spec_line(tj, wj));
            }
        }
    }
    proof {
        assert(tv.take(texts@.len() as int) =~= tv);
        assert(wv.take(widths@.len() as int) =~= wv);
    }
}

/// Renders a table with aligned fixed-width columns: the header line,
/// then one line per row.
pub fn render_table(t: &Table) -> (r: String)
    requires
        t.wf(),
    ensures
        r@ == spec_render(t@),
{
    let k = t.fields.len();
    let nrows = t.rows.len();
    // Header texts: the field names.
    let mut header: Vec<String> = Vec::new();
    let mut j: usize = 0;
    while j < k
        invariant
            j <= k,
            k == t.fields@.len(),
            header@.len() == j,
            forall|x: int| 0 <= x < j ==> (#[trigger] header@[x])@ == t@.fields[x].name,
        decreases k - j,
    {
        header.push(t.fields[j].name.clone());
        j = j + 1;
    }
    proof {
        assert(strings_view(header@) =~= spec_header_texts(t@.fields));
    }
    // Cell texts, row by row.
    let mut texts: Vec<Vec<String>> = Vec::new();
    let mut r: usize = 0;
    while r < nrows
        invariant
            r <= nrows,
            nrows == t.rows@.len(),
            k == t.fields@.len(),
            t.wf(),
            texts@.len() == r,
            forall|x: int| 0 <= x < r ==> strings_view((#[trigger] texts@[x])@) =~= spec_row_texts(
                t@.rows[x],
            ),
        decreases nrows - r,
    {
        let row = &t.rows[r];
        proof {
            assert(t@.rows[r as int] == crate::table::row_view(row@));
            assert(t@.rows[r as int].len() == k);
        }
        let mut rowtexts: Vec<String> = Vec::new();
        let mut j2: usize = 0;
        while j2 < row.len()
            invariant
                j2 <= row@.len(),
                rowtexts@.len() == j2,
                forall|x: int| 0 <= x < j2 ==> (#[trigger] rowtexts@[x])@ == spec_cell_text(
                    row@[x]@,
                ),
            decreases row@.len() - j2,
        {
            rowtexts.push(cell_text(&row[j2]));
            j2 = j2 + 1;
        }
        proof {
            assert(strings_view(rowtexts@) =~= spec_row_texts(crate::table::row_view(row@)));
        }
        texts.push(rowtexts);
        r = r + 1;
    }
    // Column widths: the widest entry per column, header included.
    let mut widths: Vec<usize> = Vec::new();
    let mut j3: usize = 0;
    while j3 < k
        invariant
            j3 <= k,
            k == t.fields@.len(),
            nrows == t.rows@.len(),
            t.wf(),
            strings_view(header@) == spec_header_texts(t@.fields),
            header@.len() == k,
            texts@.len() == nrows,
            forall|x: int| 0 <= x < nrows ==> strings_view((#[trigger] texts@[x])@)
                =~= spec_row_texts(t@.rows[x]),
            widths@.len() == j3,
            forall|x: int| 0 <= x < j3 ==> #[trigger] widths@[x] as int == spec_col_width(t@, x),
        decreases k - j3,
    {
        let mut w = header[j3].unicode_len();
        proof {
            assert(strings_view(header@)[j3 as int] == t@.fields[j3 as int].name);
            assert(strings_view(header@)[j3 as int] == header@[j3 as int]@);
            assert(t@.rows.take(0) =~= Seq::<Seq<CellV>>::empty());
        }
        let ghost partial = TableV { fields: t@.fields, rows: t@.rows.take(0) };
        let mut r2: usize = 0;
        while r2 < nrows
            invariant
                r2 <= nrows,
                j3 < k,
                k == t.fields@.len(),
                nrows == t.rows@.len(),
                t.wf(),
                texts@.len() == nrows,
                forall|x: int| 0 <= x < nrows ==> strings_view((#[trigger] texts@[x])@)
                    =~= spec_row_texts(t@.rows[x]),
                w as int == spec_col_width(
                    TableV { fields: t@.fields, rows: t@.rows.take(r2 as int) },
                    j3 as int,
                ),
            decreases nrows - r2,
        {
            proof {
                assert(t@.rows[r2 as int].len() == k);
                assert(strings_view(texts@[r2 as int]@) =~= spec_row_texts(t@.rows[r2 as int]));
                assert(strings_view(texts@[r2 as int]@)[j3 as int] == texts@[r2 as int]@[j3
                    as int]@);
                assert(spec_row_texts(t@.rows[r2 as int])[j3 as int] == spec_cell_text(
                    t@.rows[r2 as int][j3 as int],
                ));
                assert(texts@[r2 as int]@[j3 as int]@ == spec_cell_text(
                    t@.rows[r2 as int][j3 as int],
                ));
                assert(t@.rows.take(r2 as int + 1).drop_last() =~= t@.rows.take(r2 as int));
                assert(t@.rows.take(r2 as int + 1).last() == t@.rows[r2 as int]);
            }
            let l = texts[r2][j3].unicode_len();
            if l > w {
                w = l;
            }
            r2 = r2 + 1;
        }
        proof {
            assert(t@.rows.take(nrows as int) =~= t@.rows);
        }
        widths.push(w);
        j3 = j3 + 1;
    }
    proof {
        assert(widths_view(widths@) =~= spec_widths(t@));
    }
    // The header line, then one line per row.
    let mut out = String::new();
    append_line(&mut out, &header, &widths);
    out.append("\n");
    proof {
        reveal_strlit("\n");
        assert("\n"@ =~= seq!['\n']);
        assert(t@.rows.take(0) =~= Seq::<Seq<CellV>>::empty());
        assert(out@ =~= spec_line(spec_header_texts(t@.fields), spec_widths(t@)) + seq!['\n']
            + spec_body_lines(t@.rows.take(0), spec_widths(t@)));
    }
    let ghost headpart = spec_line(spec_header_texts(t@.fields), spec_widths(t@)) + seq!['\n'];
    let mut r3: usize = 0;
    while r3 < nrows
        invariant
            r3 <= nrows,
            nrows == t.rows@.len(),
            k == t.fields@.len(),
            t.wf(),
            texts@.len() == nrows,
            forall|x: int| 0 <= x < nrows ==> strings_view((#[trigger] texts@[x])@)
                =~= spec_row_texts(t@.rows[x]),
            forall|x: int| 0 <= x < nrows ==> (#[trigger] texts@[x])@.len() == k,
            widths@.len() == k,
            widths_view(widths@) == spec_widths(t@),
            headpart == spec_line(spec_header_texts(t@.fields), spec_widths(t@)) + seq!['\n'],
            out@ == headpart + spec_body_lines(t@.rows.take(r3 as int), spec_widths(t@)),
        decreases nrows - r3,
    {
        append_line(&mut out, &texts[r3], &widths);
        out.append("\n");
        proof {
            reveal_strlit("\n");
            assert("\n"@ =~= seq!['\n']);
            assert(t@.rows.take(r3 as int + 1).drop_last() =~= t@.rows.take(r3 as int));
            assert(t@.rows.take(r3 as int + 1).last() == t@.rows[r3 as int]);
            assert(strings_view(texts@[r3 as int]@) == spec_row_texts(t@.rows[r3 as int]));
            assert(out@ =~= headpart + spec_body_lines(
                t@.rows.take(r3 as int + 1),
                spec_widths(t@),
            ));
        }
        r3 = r3 + 1;
    }
    proof {
        assert(t@.rows.take(nrows as int) =~= t@.rows);
        assert(out@ =~= spec_render(t@));
    }
    out
}

} // verus!
