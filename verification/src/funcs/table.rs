//! Tables written in a light notation, turned into HTML.
//!
//! Each line is a row of cells between `|` bars. A line starting with `*` is a header row; a
//! line starting with `-` continues the cells of the row above; a line with fewer than two cells
//! is left out.
use vstd::prelude::*;
use crate::err::{ea_str, Error};
use crate::eval::data_agrees;
use crate::grammar::skip_ws;
use crate::show::v_display;
use crate::strs::{chars_of, push_str, string_of, sub_chars};
use crate::tdata::{datas_v, lemma_datas_v_index, lemma_datas_v_len, TData, VData};
use crate::funcs::strings::{trim_chars, trim_text};

verus! {

/// One row as read: whether it is a header, whether it continues the row above, and its cells
/// (the text before the first bar and after the last bar included).
pub type RowV = (bool, bool, Seq<Seq<char>>);

/// The end of a row at `p`: spaces and tabs, then a new line (taken) or the end of the text.
pub open spec fn fin_at(s: Seq<char>, p: int) -> Option<int> {
    let q = skip_ws(s, p);
    if 0 <= q < s.len() && s[q] == '\n' {
        Some(q + 1)
    } else if q >= s.len() {
        Some(q)
    } else {
        None
    }
}

/// The end of the cell text at `p`: the next bar, new line, or the end of the text.
pub open spec fn cell_end(s: Seq<char>, p: int) -> int
    decreases s.len() - p,
{
    if 0 <= p < s.len() && s[p] != '\n' && s[p] != '|' {
        cell_end(s, p + 1)
    } else {
        p
    }
}

/// The cells from `p` on, each followed by a bar, up to the end of the row.
pub open spec fn cells_more(s: Seq<char>, p: int) -> (Seq<Seq<char>>, int)
    decreases s.len() - p,
{
    let a = cell_end(s, p);
    let cell = s.subrange(p, a);
    match fin_at(s, a) {
        Some(e) => (seq![cell], e),
        None => if 0 <= a < s.len() && a + 1 > p {
            let (rest, e) = cells_more(s, a + 1);
            (seq![cell] + rest, e)
        } else {
            (seq![cell], a)
        },
    }
}

/// The row that starts at `i`, and the position after it.
pub open spec fn row_s(s: Seq<char>, i: int) -> (RowV, int) {
    let hd = 0 <= i < s.len() && s[i] == '*';
    let j = if hd { i + 1 } else { i };
    let ct = 0 <= j < s.len() && s[j] == '-';
    let k = if ct { j + 1 } else { j };
    match fin_at(s, k) {
        Some(e) => ((hd, ct, seq![]), e),
        None => {
            let (cells, e) = cells_more(s, k);
            ((hd, ct, cells), e)
        },
    }
}

/// The rows from `i` to the end of the text (trailing spaces and tabs ignored).
pub open spec fn rows_s(s: Seq<char>, i: int) -> Seq<RowV>
    decreases s.len() - i,
{
    if i < 0 || skip_ws(s, i) >= s.len() {
        seq![]
    } else {
        let (r, j) = row_s(s, i);
        if j > i && j <= s.len() { seq![r] + rows_s(s, j) } else { seq![] }
    }
}

/// A row of HTML cells (`th` in a header row, `td` otherwise).
pub open spec fn html_row(cells: Seq<Seq<char>>, head: bool) -> Seq<char>
    decreases cells.len(),
{
    if cells.len() == 0 {
        "<tr>"@
    } else {
        let tag: Seq<char> = if head { "th"@ } else { "td"@ };
        html_row(cells.drop_last(), head) + "<"@ + tag + ">"@ + cells.last() + "</"@ + tag + ">"@
    }
}

/// Where building the table stands: the HTML so far, the row being gathered, and whether it is
/// a header.
pub struct TableState {
    pub html: Seq<char>,
    pub curr: Option<Seq<Seq<char>>>,
    pub head: bool,
}

/// The HTML so far with the gathered row written out.
pub open spec fn flush(st: TableState) -> Seq<char> {
    match st.curr {
        Some(c) => st.html + html_row(c, st.head) + "</tr>\n"@,
        None => st.html,
    }
}

/// The cells of `v` with the cells of a continuation line appended, each after a space; a
/// continuation with more cells than the row is an error.
pub open spec fn merge_cells(v: Seq<Seq<char>>, inner: Seq<Seq<char>>) -> Option<Seq<Seq<char>>> {
    if inner.len() > v.len() {
        None
    } else {
        Some(Seq::new(v.len(), |n: int| if n < inner.len() { v[n] + seq![' '] + inner[n] } else { v[n] }))
    }
}

/// Taking in one row: a row that does not continue writes out the gathered one; a header mark
/// makes the gathered row a header; a row with two or more cells between bars starts a row
/// (cells trimmed) or adds to the gathered one.
pub open spec fn table_step(st: TableState, row: RowV) -> Option<TableState> {
    let (hd, cont, cells) = row;
    let st1 = if !cont { TableState { html: flush(st), curr: None, head: false } } else { st };
    let st2 = TableState { head: st1.head || hd, ..st1 };
    if cells.len() <= 3 {
        Some(st2)
    } else {
        let inner = cells.subrange(1, cells.len() - 1);
        match st2.curr {
            Some(v) => match merge_cells(v, inner) {
                Some(m) => Some(TableState { curr: Some(m), ..st2 }),
                None => None,
            },
            None => Some(TableState { curr: Some(inner.map_values(|c: Seq<char>| trim_text(c))), ..st2 }),
        }
    }
}

/// Taking in the first `n` rows.
pub open spec fn table_run(rows: Seq<RowV>, n: int) -> Option<TableState>
    decreases n,
{
    if n <= 0 {
        Some(TableState { html: seq![], curr: None, head: false })
    } else {
        match table_run(rows, n - 1) {
            Some(st) => table_step(st, rows[n - 1]),
            None => None,
        }
    }
}

/// The HTML rows of a table text.
pub open spec fn table_body(s: Seq<char>) -> Option<Seq<char>> {
    let rows = rows_s(s, 0);
    match table_run(rows, rows.len() as int) {
        Some(st) => Some(flush(st)),
        None => None,
    }
}

/// `table`: an HTML table from the table text of the first argument, with the text of the
/// second argument as the table tag's attributes.
pub open spec fn table_s(a: Seq<VData>) -> Result<VData, ()> {
    if a.len() == 0 {
        Err(())
    } else {
        let data = if a.len() > 1 { v_display(a[1]) } else { seq![] };
        match table_body(v_display(a[0])) {
            Some(b) => Ok(VData::String("<table "@ + data + ">\n"@ + b + "</table>\n"@)),
            None => Err(()),
        }
    }
}

/// The model of a list of cells.
pub open spec fn cells_v(c: Seq<Vec<char>>) -> Seq<Seq<char>> {
    c.map_values(|v: Vec<char>| v@)
}

/// The model of a row.
pub open spec fn row_v(r: (bool, bool, Vec<Vec<char>>)) -> RowV {
    (r.0, r.1, cells_v(r.2@))
}

fn skip_ws_x(s: &Vec<char>, i: usize) -> (r: usize)
    requires
        i <= s.len(),
    ensures
        r == skip_ws(s@, i as int),
        i <= r <= s.len(),
{
    let mut j = i;
    while j < s.len() && (s[j] == ' ' || s[j] == '\t')
        invariant
            i <= j <= s.len(),
            skip_ws(s@, i as int) == skip_ws(s@, j as int),
        decreases s.len() - j,
    {
        j = j + 1;
    }
    j
}

fn fin_at_x(s: &Vec<char>, p: usize) -> (r: Option<usize>)
    requires
        p <= s.len(),
    ensures
        match fin_at(s@, p as int) {
            Some(e) => r matches Some(k) && k == e,
            None => r is None,
        },
        r matches Some(k) ==> p <= k <= s.len(),
{
    let q = skip_ws_x(s, p);
    if q < s.len() && s[q] == '\n' {
        Some(q + 1)
    } else if q >= s.len() {
        Some(q)
    } else {
        None
    }
}

fn cell_end_x(s: &Vec<char>, p: usize) -> (r: usize)
    requires
        p <= s.len(),
    ensures
        r == cell_end(s@, p as int),
        p <= r <= s.len(),
{
    let mut j = p;
    while j < s.len() && s[j] != '\n' && s[j] != '|'
        invariant
            p <= j <= s.len(),
            cell_end(s@, p as int) == cell_end(s@, j as int),
        decreases s.len() - j,
    {
        j = j + 1;
    }
    j
}

fn cells_more_x(s: &Vec<char>, p0: usize) -> (r: (Vec<Vec<char>>, usize))
    requires
        p0 <= s.len(),
    ensures
        cells_v(r.0@) == cells_more(s@, p0 as int).0,
        r.1 == cells_more(s@, p0 as int).1,
        p0 <= r.1 <= s.len(),
{
    let ghost tot = cells_more(s@, p0 as int);
    let mut out: Vec<Vec<char>> = Vec::new();
    let mut p = p0;
    assert(cells_v(out@) =~= Seq::<Seq<char>>::empty());
    loop
        invariant
            p0 <= p <= s.len(),
            tot == cells_more(s@, p0 as int),
            tot.0 == cells_v(out@) + cells_more(s@, p as int).0,
            tot.1 == cells_more(s@, p as int).1,
        decreases s.len() - p,
    {
        let a = cell_end_x(s, p);
        let cell = sub_chars(s, p, a);
        let ghost o0 = cells_v(out@);
        out.push(cell);
        assert(cells_v(out@) =~= o0.push(cell@));
        match fin_at_x(s, a) {
            Some(e) => {
                assert(tot.0 =~= cells_v(out@));
                return (out, e);
            },
            None => {
                if a < s.len() {
                    assert(o0 + (seq![cell@] + cells_more(s@, a + 1).0) =~= o0.push(cell@) + cells_more(s@, a + 1).0);
                    p = a + 1;
                } else {
                    assert(tot.0 =~= cells_v(out@));
                    return (out, a);
                }
            },
        }
    }
}

fn row_x(s: &Vec<char>, i: usize) -> (r: ((bool, bool, Vec<Vec<char>>), usize))
    requires
        i <= s.len(),
    ensures
        row_v(r.0) == row_s(s@, i as int).0,
        r.1 == row_s(s@, i as int).1,
        i <= r.1 <= s.len(),
{
    let hd = i < s.len() && s[i] == '*';
    let j = if hd { i + 1 } else { i };
    let ct = j < s.len() && s[j] == '-';
    let k = if ct { j + 1 } else { j };
    match fin_at_x(s, k) {
        Some(e) => {
            let v: Vec<Vec<char>> = Vec::new();
            assert(cells_v(v@) =~= Seq::<Seq<char>>::empty());
            ((hd, ct, v), e)
        },
        None => {
            let (cells, e) = cells_more_x(s, k);
            ((hd, ct, cells), e)
        },
    }
}

fn rows_x(s: &Vec<char>) -> (r: Vec<(bool, bool, Vec<Vec<char>>)>)
    ensures
        r@.map_values(|x: (bool, bool, Vec<Vec<char>>)| row_v(x)) == rows_s(s@, 0),
{
    let ghost tot = rows_s(s@, 0);
    let mut out: Vec<(bool, bool, Vec<Vec<char>>)> = Vec::new();
    let mut i: usize = 0;
    assert(out@.map_values(|x: (bool, bool, Vec<Vec<char>>)| row_v(x)) =~= Seq::<RowV>::empty());
    loop
        invariant
            i <= s.len(),
            tot == rows_s(s@, 0),
            tot == out@.map_values(|x: (bool, bool, Vec<Vec<char>>)| row_v(x)) + rows_s(s@, i as int),
        decreases s.len() - i,
    {
        if skip_ws_x(s, i) >= s.len() {
            assert(tot =~= out@.map_values(|x: (bool, bool, Vec<Vec<char>>)| row_v(x)));
            return out;
        }
        let (r, j) = row_x(s, i);
        if j <= i {
            assert(tot =~= out@.map_values(|x: (bool, bool, Vec<Vec<char>>)| row_v(x)));
            return out;
        }
        let ghost o0 = out@.map_values(|x: (bool, bool, Vec<Vec<char>>)| row_v(x));
        out.push(r);
        assert(out@.map_values(|x: (bool, bool, Vec<Vec<char>>)| row_v(x)) =~= o0.push(row_v(r)));
        assert(o0 + (seq![row_v(r)] + rows_s(s@, j as int)) =~= o0.push(row_v(r)) + rows_s(s@, j as int));
        i = j;
    }
}

fn push_chars(out: &mut Vec<char>, t: &Vec<char>)
    ensures
        final(out)@ == old(out)@ + t@,
{
    let mut c = crate::strs::clone_chars(t);
    out.append(&mut c);
}

fn push_lit(out: &mut Vec<char>, t: &str)
    ensures
        final(out)@ == old(out)@ + t@,
{
    let c = chars_of(t);
    push_chars(out, &c);
}

fn html_row_x(out: &mut Vec<char>, cells: &Vec<Vec<char>>, head: bool)
    ensures
        final(out)@ == old(out)@ + html_row(cells_v(cells@), head) + "</tr>\n"@,
{
    let ghost o0 = out@;
    push_lit(out, "<tr>");
    let mut i: usize = 0;
    while i < cells.len()
        invariant
            i <= cells.len(),
            out@ == o0 + html_row(cells_v(cells@.take(i as int)), head),
        decreases cells.len() - i,
    {
        let tag = if head { "th" } else { "td" };
        let ghost o1 = out@;
        push_lit(out, "<");
        push_lit(out, tag);
        push_lit(out, ">");
        push_chars(out, &cells[i]);
        push_lit(out, "</");
        push_lit(out, tag);
        push_lit(out, ">");
        proof {
            let cs = cells_v(cells@.take(i + 1));
            assert(cs.drop_last() =~= cells_v(cells@.take(i as int)));
            assert(cs.last() == cells@[i as int]@);
            assert(out@ =~= o1 + "<"@ + tag@ + ">"@ + cells@[i as int]@ + "</"@ + tag@ + ">"@);
        }
        i = i + 1;
    }
    assert(cells@.take(cells.len() as int) == cells@);
    push_lit(out, "</tr>\n");
    assert(out@ =~= o0 + html_row(cells_v(cells@), head) + "</tr>\n"@);
}

/// Writes a row of HTML cells (`th` in a header row, `td` otherwise) and a line break.
pub fn write_row(target: &mut String, row: &[String], head: bool)
    ensures
        final(target)@ == old(target)@ + html_row(row@.map_values(|c: String| c@), head) + "</tr>\n"@,
{
    let mut cells: Vec<Vec<char>> = Vec::new();
    let mut i: usize = 0;
    while i < row.len()
        invariant
            i <= row.len(),
            cells@.len() == i,
            forall|j: int| 0 <= j < i ==> #[trigger] cells@[j]@ == row@[j]@,
        decreases row.len() - i,
    {
        cells.push(chars_of(row[i].as_str()));
        i = i + 1;
    }
    assert(cells_v(cells@) =~= row@.map_values(|c: String| c@));
    let mut out = chars_of(target.as_str());
    html_row_x(&mut out, &cells, head);
    *target = crate::strs::string_of(&out);
}

fn flush_x(out: &mut Vec<char>, curr: &Option<Vec<Vec<char>>>, head: bool)
    ensures
        final(out)@ == flush(TableState {
            html: old(out)@,
            curr: match curr { Some(c) => Some(cells_v(c@)), None => None },
            head,
        }),
{
    match curr {
        Some(c) => html_row_x(out, c, head),
        None => {},
    }
}

proof fn lemma_table_none(rs: Seq<RowV>, k: int, n: int)
    requires
        0 <= k <= n,
        table_run(rs, k) is None,
    ensures
        table_run(rs, n) is None,
    decreases n - k,
{
    if k < n {
        lemma_table_none(rs, k + 1, n);
    }
}

/// The HTML rows for a table text, when continuation lines fit their rows.
fn table_body_x(s: &Vec<char>) -> (r: Option<Vec<char>>)
    ensures
        match table_body(s@) {
            Some(b) => r matches Some(x) && x@ == b,
            None => r is None,
        },
{
    let rows = rows_x(s);
    let ghost rs = rows_s(s@, 0);
    let mut html: Vec<char> = Vec::new();
    let mut curr: Option<Vec<Vec<char>>> = None;
    let mut head = false;
    let mut i: usize = 0;
    assert(rs.len() == rows@.len());
    while i < rows.len()
        invariant
            i <= rows.len(),
            rs == rows@.map_values(|x: (bool, bool, Vec<Vec<char>>)| row_v(x)),
            rs == rows_s(s@, 0),
            table_run(rs, i as int) == Some(TableState {
                html: html@,
                curr: match curr { Some(c) => Some(cells_v(c@)), None => None },
                head,
            }),
        decreases rows.len() - i,
    {
        let (hd, cont, cells) = (rows[i].0, rows[i].1, &rows[i].2);
        assert(rs[i as int] == row_v(rows@[i as int]));
        if !cont {
            flush_x(&mut html, &curr, head);
            curr = None;
            head = false;
        }
        head = head || hd;
        if cells.len() > 3 {
            let inner_len = cells.len() - 2;
            match curr {
                Some(v) => {
                    if inner_len > v.len() {
                        proof {
                            assert(table_run(rs, i + 1) is None);
                            lemma_table_none(rs, i + 1, rs.len() as int);
                        }
                        return None;
                    }
                    let mut m: Vec<Vec<char>> = Vec::new();
                    let mut n: usize = 0;
                    while n < v.len()
                        invariant
                            n <= v.len(),
                            inner_len <= v.len(),
                            inner_len == cells.len() - 2,
                            m@.len() == n,
                            forall|q: int| 0 <= q < n ==> (#[trigger] m@[q])@ == (if q < inner_len { v@[q]@ + seq![' '] + cells@[q + 1]@ } else { v@[q]@ }),
                        decreases v.len() - n,
                    {
                        if n < inner_len {
                            let mut piece = crate::strs::clone_chars(&v[n]);
                            piece.push(' ');
                            push_chars(&mut piece, &cells[n + 1]);
                            m.push(piece);
                        } else {
                            m.push(crate::strs::clone_chars(&v[n]));
                        }
                        n = n + 1;
                    }
                    proof {
                        let inner = cells_v(cells@).subrange(1, cells.len() - 1);
                        assert(cells_v(m@) =~= merge_cells(cells_v(v@), inner)->Some_0);
                    }
                    curr = Some(m);
                },
                None => {
                    let mut t: Vec<Vec<char>> = Vec::new();
                    let mut n: usize = 1;
                    while n < cells.len() - 1
                        invariant
                            1 <= n <= cells.len() - 1,
                            cells.len() > 3,
                            t@.len() == n - 1,
                            forall|q: int| 0 <= q < t@.len() ==> (#[trigger] t@[q])@ == trim_text(cells@[q + 1]@),
                        decreases cells.len() - 1 - n,
                    {
                        let c = &cells[n];
                        t.push(trim_chars(c, 0, c.len()));
                        assert(c@.subrange(0, c@.len() as int) == c@);
                        n = n + 1;
                    }
                    proof {
                        let inner = cells_v(cells@).subrange(1, cells.len() - 1);
                        assert(cells_v(t@) =~= inner.map_values(|c: Seq<char>| trim_text(c)));
                    }
                    curr = Some(t);
                },
            }
        }
        i = i + 1;
    }
    flush_x(&mut html, &curr, head);
    Some(html)
}

/// An HTML table from a table text, with `data` as the table tag's attributes.
pub fn table(s: &str, data: &str) -> (r: Result<String, Error>)
    ensures
        match table_body(s@) {
            Some(b) => r matches Ok(x) && x@ == "<table "@ + data@ + ">\n"@ + b + "</table>\n"@,
            None => r is Err,
        },
{
    let sv = chars_of(s);
    match table_body_x(&sv) {
        Some(b) => {
            let mut out = String::new();
            push_str(&mut out, "<table ");
            push_str(&mut out, data);
            push_str(&mut out, ">\n");
            let bs = string_of(&b);
            push_str(&mut out, bs.as_str());
            push_str(&mut out, "</table>\n");
            Ok(out)
        },
        None => Err(ea_str("A continuation line has more cells than its row")),
    }
}

/// An HTML table from the table text of the first argument, with the text of the second
/// argument as the table tag's attributes.
pub fn table_fn(l: &[TData]) -> (r: Result<TData, Error>)
    ensures
        data_agrees(r, table_s(datas_v(l@))),
{
    proof { lemma_datas_v_len(l@); }
    if l.len() == 0 {
        return Err(ea_str("Table requires 1 or two string entries."));
    }
    proof {
        lemma_datas_v_index(l@, 0);
        reveal_strlit("");
        assert(""@ =~= Seq::<char>::empty());
    }
    let data = if l.len() > 1 {
        proof { lemma_datas_v_index(l@, 1); }
        l[1].to_string()
    } else {
        String::new()
    };
    let t = l[0].to_string();
    match table(t.as_str(), data.as_str()) {
        Ok(s) => Ok(TData::String(s)),
        Err(e) => Err(e),
    }
}

} // verus!
