//! Structured HTML tables: cells with their logical column span.
//!
//! The HTML itself is parsed by the `scraper` crate; the library lays the
//! selected cells out on the grid, taking `colspan` and `rowspan` into
//! account.

use vstd::prelude::*;
use scraper::Selector;
use crate::entities::{parse_uint, parse_uint_exec};
use crate::normalize::join_with;
use crate::text::{
    append_chars, chars_of, is_ws, lemma_trim_end_take, lemma_trim_start_skip, seqs_of, string_of, trim,
    trim_chars, trim_end_by, trim_start_by, slice_chars,
};

verus! {

/// A parsed cell with its logical column span.
pub struct Cell {
    pub text: String,
    pub row: usize,
    pub col_start: usize,
    pub col_end: usize,
}

/// The mathematical content of a `Cell`.
pub struct CellView {
    pub text: Seq<char>,
    pub row: usize,
    pub col_start: usize,
    pub col_end: usize,
}

impl View for Cell {
    type V = CellView;

    open spec fn view(&self) -> CellView {
        CellView { text: self.text@, row: self.row, col_start: self.col_start, col_end: self.col_end }
    }
}

/// The views of a row of cells.
pub open spec fn row_view(row: Seq<Cell>) -> Seq<CellView> {
    row.map_values(|c: Cell| c@)
}

/// The views of a table of cells.
pub open spec fn table_view(rows: Seq<Vec<Cell>>) -> Seq<Seq<CellView>> {
    rows.map_values(|r: Vec<Cell>| row_view(r@))
}

/// The views of a list of tables.
pub open spec fn tables_view(tables: Seq<Vec<Vec<Cell>>>) -> Seq<Seq<Seq<CellView>>> {
    tables.map_values(|t: Vec<Vec<Cell>>| table_view(t@))
}

/// A table cell as selected from the document: its `colspan` and `rowspan`
/// attributes, if present, and its text nodes in document order.
pub type RawCell = (Option<String>, Option<String>, Vec<String>);

/// The view of a `RawCell`.
pub type RawCellView = (Option<Seq<char>>, Option<Seq<char>>, Seq<Seq<char>>);

/// Whether `scraper::Selector::parse` accepts the CSS selector.
pub uninterp spec fn css_selector_valid(selector: Seq<char>) -> bool;

/// The cells that `scraper` selects from the document `html`: for each element
/// matching `table_sel`, for each descendant matching `row_sel`, for each
/// descendant of that matching `cell_sel`, the two named attributes and the
/// text nodes.
pub uninterp spec fn html_selected_cells(
    html: Seq<char>,
    table_sel: Seq<char>,
    row_sel: Seq<char>,
    cell_sel: Seq<char>,
    colspan: Seq<char>,
    rowspan: Seq<char>,
) -> Seq<Seq<Seq<RawCellView>>>;

/// `scraper::Html::parse_document`, then `select` with the three selectors
/// nested, reading two attributes (`ElementRef::attr`) and the text nodes
/// (`ElementRef::text`) of each cell.  Claims: `Some` exactly when the three
/// selectors parse, holding the named result.
#[verifier::external_body]
fn select_table_cells(
    html: &str,
    table_sel: &str,
    row_sel: &str,
    cell_sel: &str,
    colspan: &str,
    rowspan: &str,
) -> (r: Option<Vec<Vec<Vec<RawCell>>>>)
    ensures
        r is Some <==> (css_selector_valid(table_sel@) && css_selector_valid(row_sel@)
            && css_selector_valid(cell_sel@)),
        r matches Some(v) ==> v.deep_view() == html_selected_cells(
            html@, table_sel@, row_sel@, cell_sel@, colspan@, rowspan@),
{
    let (t, r, c) = (Selector::parse(table_sel).ok()?, Selector::parse(row_sel).ok()?, Selector::parse(cell_sel).ok()?);
    Some(scraper::Html::parse_document(html).select(&t).map(|tb| tb.select(&r).map(|tr| tr.select(&c).map(|td| (
        td.attr(colspan).map(String::from), td.attr(rowspan).map(String::from), td.text().map(String::from).collect(),
    )).collect()).collect()).collect())
}

// ------------------------------------------------------------------
// Layout
// ------------------------------------------------------------------

/// A rectangle of grid positions covered by a cell:
/// rows `.0 .. .1` and columns `.2 .. .3` (end exclusive).
pub type Span = (usize, usize, usize, usize);

/// Whether grid position (`r`, `c`) is covered by one of the spans.
pub open spec fn occupied(occ: Seq<Span>, r: int, c: int) -> bool {
    exists|k: int| 0 <= k < occ.len() && #[trigger] occ[k].0 <= r < occ[k].1 && occ[k].2 <= c
        < occ[k].3
}

/// `c2` is the first column at or after `c` that is free in row `r`.
pub open spec fn is_first_free(occ: Seq<Span>, r: int, c: int, c2: int) -> bool {
    &&& c <= c2
    &&& !occupied(occ, r, c2)
    &&& forall|k: int| c <= k < c2 ==> occupied(occ, r, k)
}

/// The first column at or after `c` that is free in row `r`.
pub open spec fn first_free(occ: Seq<Span>, r: int, c: int) -> int {
    choose|c2: int| is_first_free(occ, r, c, c2)
}

proof fn lemma_first_free(occ: Seq<Span>, r: int, c: int, c2: int)
    requires
        is_first_free(occ, r, c, c2),
    ensures
        first_free(occ, r, c) == c2,
{
    let c3 = first_free(occ, r, c);
    assert(is_first_free(occ, r, c, c3));
    if c3 < c2 {
        assert(occupied(occ, r, c3));
    } else if c2 < c3 {
        assert(occupied(occ, r, c2));
    }
}

/// The span a `colspan`/`rowspan` attribute gives: its value as `usize`,
/// at least 1; 1 when absent or no number.
pub open spec fn span_of(attr: Option<Seq<char>>) -> nat {
    match attr {
        Some(a) => match parse_uint(a, 10, usize::MAX as nat) {
            Some(v) => if v < 1 {
                1
            } else {
                v
            },
            None => 1,
        },
        None => 1,
    }
}

/// The trimmed text nodes that are not empty.
pub open spec fn trimmed_fragments(frags: Seq<Seq<char>>) -> Seq<Seq<char>>
    decreases frags.len(),
{
    if frags.len() == 0 {
        Seq::empty()
    } else {
        let rest = trimmed_fragments(frags.drop_last());
        let t = trim(frags.last());
        if t.len() > 0 {
            rest.push(t)
        } else {
            rest
        }
    }
}

/// A cell's text: each text node trimmed, the empty ones dropped, the
/// rest joined with single spaces.
pub open spec fn cell_text(frags: Seq<Seq<char>>) -> Seq<char> {
    join_with(trimmed_fragments(frags), " "@)
}

/// Lays out the cells `k..` of row `row`, starting at column `col`, given the
/// spans placed so far and the cells of this row laid out so far.  `None`
/// when a position would exceed `usize::MAX`.
pub open spec fn layout_row(
    raw: Seq<RawCellView>,
    row: usize,
    k: int,
    col: int,
    occ: Seq<Span>,
    acc: Seq<CellView>,
) -> Option<(Seq<Span>, Seq<CellView>)>
    decreases raw.len() - k,
{
    if k < 0 || k >= raw.len() {
        Some((occ, acc))
    } else {
        let start = first_free(occ, row as int, col);
        let cs = span_of(raw[k].0);
        let rs = span_of(raw[k].1);
        if start + cs > usize::MAX || row + rs > usize::MAX {
            None
        } else {
            let cell = CellView {
                text: cell_text(raw[k].2),
                row: row,
                col_start: start as usize,
                col_end: (start + cs - 1) as usize,
            };
            layout_row(
                raw,
                row,
                k + 1,
                start + cs,
                occ.push((row, (row + rs) as usize, start as usize, (start + cs) as usize)),
                acc.push(cell),
            )
        }
    }
}

/// Lays out rows `i..` of a table; rows without cells are left out (they
/// still count for the row numbers).
pub open spec fn layout_rows(
    raw: Seq<Seq<RawCellView>>,
    i: int,
    occ: Seq<Span>,
    acc: Seq<Seq<CellView>>,
) -> Option<Seq<Seq<CellView>>>
    decreases raw.len() - i,
{
    if i < 0 || i >= raw.len() || i > usize::MAX {
        Some(acc)
    } else {
        match layout_row(raw[i], i as usize, 0, 0, occ, Seq::empty()) {
            None => None,
            Some((occ2, cells)) => layout_rows(
                raw,
                i + 1,
                occ2,
                if cells.len() > 0 {
                    acc.push(cells)
                } else {
                    acc
                },
            ),
        }
    }
}

/// Lays out tables `t..`; tables without rows are left out.
pub open spec fn layout_tables(
    raw: Seq<Seq<Seq<RawCellView>>>,
    t: int,
    acc: Seq<Seq<Seq<CellView>>>,
) -> Option<Seq<Seq<Seq<CellView>>>>
    decreases raw.len() - t,
{
    if t < 0 || t >= raw.len() {
        Some(acc)
    } else {
        match layout_rows(raw[t], 0, Seq::empty(), Seq::empty()) {
            None => None,
            Some(rows) => layout_tables(
                raw,
                t + 1,
                if rows.len() > 0 {
                    acc.push(rows)
                } else {
                    acc
                },
            ),
        }
    }
}

fn span_value(attr: &Option<String>) -> (r: usize)
    ensures
        r as nat == span_of(attr.deep_view()),
{
    match attr {
        Some(a) => {
            let av = chars_of(a.as_str());
            match parse_uint_exec(av.as_slice(), 10, usize::MAX as u64) {
                Some(v) => if v < 1 {
                    1
                } else {
                    v as usize
                },
                None => 1,
            }
        },
        None => 1,
    }
}

fn cell_text_exec(frags: &Vec<String>) -> (r: String)
    ensures
        r@ == cell_text(frags.deep_view()),
{
    let ghost fv = frags.deep_view();
    let mut parts: Vec<Vec<char>> = Vec::new();
    let mut i: usize = 0;
    assert(fv.take(0) =~= Seq::<Seq<char>>::empty());
    while i < frags.len()
        invariant
            i <= frags.len(),
            fv == frags.deep_view(),
            seqs_of(parts@) == trimmed_fragments(fv.take(i as int)),
        decreases frags.len() - i,
    {
        assert(fv.take(i + 1).drop_last() == fv.take(i as int));
        assert(fv.take(i + 1).last() == frags@[i as int]@);
        let fc = chars_of(frags[i].as_str());
        let t = trim_chars(fc.as_slice());
        if t.len() > 0 {
            let ghost before = parts@;
            parts.push(t);
            assert(seqs_of(parts@) =~= seqs_of(before).push(t@));
        }
        i += 1;
    }
    assert(fv.take(frags.len() as int) == fv);
    let joined = crate::normalize::join_chars(&parts, " ");
    string_of(joined.as_slice())
}

/// Whether (`r`, `c`) is covered by one of the spans.
fn occupied_exec(occ: &Vec<Span>, r: usize, c: usize) -> (b: bool)
    ensures
        b == occupied(occ@, r as int, c as int),
{
    let mut k: usize = 0;
    while k < occ.len()
        invariant
            k <= occ.len(),
            forall|m: int|
                0 <= m < k ==> !(#[trigger] occ@[m].0 <= r < occ@[m].1 && occ@[m].2 <= c
                    < occ@[m].3),
        decreases occ.len() - k,
    {
        let s = occ[k];
        if s.0 <= r && r < s.1 && s.2 <= c && c < s.3 {
            return true;
        }
        k += 1;
    }
    false
}

/// Lays out one row of raw cells.
fn layout_row_exec(
    raw: &Vec<RawCell>,
    row: usize,
    occ: &mut Vec<Span>,
    bound: &mut usize,
) -> (r: Option<Vec<Cell>>)
    requires
        forall|k: int| 0 <= k < old(occ)@.len() ==> #[trigger] old(occ)@[k].3 <= *old(bound),
    ensures
        forall|k: int| 0 <= k < final(occ)@.len() ==> #[trigger] final(occ)@[k].3 <= *final(bound),
        match r {
            Some(cells) => layout_row(raw.deep_view(), row, 0, 0, old(occ)@, Seq::empty()) == Some(
                (final(occ)@, row_view(cells@)),
            ),
            None => layout_row(raw.deep_view(), row, 0, 0, old(occ)@, Seq::empty()) is None,
        },
{
    let ghost rv = raw.deep_view();
    let ghost occ0 = occ@;
    let mut cells: Vec<Cell> = Vec::new();
    assert(row_view(cells@) =~= Seq::empty());
    let mut col: usize = 0;
    let mut k: usize = 0;
    while k < raw.len()
        invariant
            k <= raw.len(),
            rv == raw.deep_view(),
            occ0 == old(occ)@,
            forall|m: int| 0 <= m < occ@.len() ==> #[trigger] occ@[m].3 <= *bound,
            layout_row(rv, row, 0, 0, occ0, Seq::empty()) == layout_row(
                rv,
                row,
                k as int,
                col as int,
                occ@,
                row_view(cells@),
            ),
        decreases raw.len() - k,
    {
        assert(rv[k as int] == raw@[k as int].deep_view());
        // First free column at or after `col`.
        let mut start = col;
        while occupied_exec(occ, row, start)
            invariant
                col <= start,
                forall|m: int| 0 <= m < occ@.len() ==> #[trigger] occ@[m].3 <= *bound,
                forall|j: int| col <= j < start ==> occupied(occ@, row as int, j),
            decreases *bound - start,
        {
            assert(start < *bound);
            start += 1;
        }
        proof {
            lemma_first_free(occ@, row as int, col as int, start as int);
        }
        let cs = span_value(&raw[k].0);
        let rs = span_value(&raw[k].1);
        if cs > usize::MAX - start || rs > usize::MAX - row {
            assert(layout_row(rv, row, k as int, col as int, occ@, row_view(cells@)) is None);
            return None;
        }
        let text = cell_text_exec(&raw[k].2);
        let cell = Cell { text, row, col_start: start, col_end: start + cs - 1 };
        let ghost before = cells@;
        cells.push(cell);
        assert(row_view(cells@) =~= row_view(before).push(cell@));
        let end = start + cs;
        occ.push((row, row + rs, start, end));
        if end > *bound {
            *bound = end;
        }
        col = end;
        k += 1;
    }
    Some(cells)
}

/// Lays out the rows of one table.
fn layout_table_exec(raw: &Vec<Vec<RawCell>>) -> (r: Option<Vec<Vec<Cell>>>)
    ensures
        match r {
            Some(rows) => layout_rows(raw.deep_view(), 0, Seq::empty(), Seq::empty()) == Some(
                table_view(rows@),
            ),
            None => layout_rows(raw.deep_view(), 0, Seq::empty(), Seq::empty()) is None,
        },
{
    let ghost rv = raw.deep_view();
    let mut occ: Vec<Span> = Vec::new();
    let mut bound: usize = 0;
    let mut rows: Vec<Vec<Cell>> = Vec::new();
    assert(table_view(rows@) =~= Seq::empty());
    let mut i: usize = 0;
    while i < raw.len()
        invariant
            i <= raw.len(),
            rv == raw.deep_view(),
            forall|m: int| 0 <= m < occ@.len() ==> #[trigger] occ@[m].3 <= bound,
            layout_rows(rv, 0, Seq::empty(), Seq::empty()) == layout_rows(
                rv,
                i as int,
                occ@,
                table_view(rows@),
            ),
        decreases raw.len() - i,
    {
        assert(rv[i as int] == raw@[i as int].deep_view());
        match layout_row_exec(&raw[i], i, &mut occ, &mut bound) {
            None => {
                return None;
            },
            Some(cells) => {
                if cells.len() > 0 {
                    let ghost before = rows@;
                    rows.push(cells);
                    assert(table_view(rows@) =~= table_view(before).push(row_view(cells@)));
                }
            },
        }
        i += 1;
    }
    Some(rows)
}

/// Lays out every selected table.
pub fn layout_tables_exec(raw: &Vec<Vec<Vec<RawCell>>>) -> (r: Option<Vec<Vec<Vec<Cell>>>>)
    ensures
        match r {
            Some(tables) => layout_tables(raw.deep_view(), 0, Seq::empty()) == Some(
                tables_view(tables@),
            ),
            None => layout_tables(raw.deep_view(), 0, Seq::empty()) is None,
        },
{
    let ghost rv = raw.deep_view();
    let mut tables: Vec<Vec<Vec<Cell>>> = Vec::new();
    assert(tables_view(tables@) =~= Seq::empty());
    let mut t: usize = 0;
    while t < raw.len()
        invariant
            t <= raw.len(),
            rv == raw.deep_view(),
            layout_tables(rv, 0, Seq::empty()) == layout_tables(rv, t as int, tables_view(tables@)),
        decreases raw.len() - t,
    {
        assert(rv[t as int] == raw@[t as int].deep_view());
        match layout_table_exec(&raw[t]) {
            None => {
                return None;
            },
            Some(rows) => {
                if rows.len() > 0 {
                    let ghost before = tables@;
                    tables.push(rows);
                    assert(tables_view(tables@) =~= tables_view(before).push(table_view(rows@)));
                }
            },
        }
        t += 1;
    }
    Some(tables)
}

// ------------------------------------------------------------------
// Tables of a document
// ------------------------------------------------------------------

/// `c` is the ASCII letter `lower` in either case.
pub open spec fn ci(c: char, lower: char, upper: char) -> bool {
    c == lower || c == upper
}

/// The text `<table` starts at `i`, ignoring ASCII case.
pub open spec fn table_tag_at(s: Seq<char>, i: int) -> bool {
    &&& 0 <= i && i + 6 <= s.len()
    &&& s[i] == '<'
    &&& ci(s[i + 1], 't', 'T')
    &&& ci(s[i + 2], 'a', 'A')
    &&& ci(s[i + 3], 'b', 'B')
    &&& ci(s[i + 4], 'l', 'L')
    &&& ci(s[i + 5], 'e', 'E')
}

/// The lowercased text contains `<table`.  (Under `to_lowercase` only `T`,
/// `A`, `B`, `L`, `E` and the letters themselves become these letters, and no
/// character becomes `<`.)
pub open spec fn has_table_tag(s: Seq<char>) -> bool {
    exists|i: int| table_tag_at(s, i)
}

fn has_table_tag_exec(s: &[char]) -> (r: bool)
    ensures
        r == has_table_tag(s@),
{
    let mut i: usize = 0;
    while i < s.len() && s.len() - i >= 6
        invariant
            i <= s.len(),
            forall|k: int| 0 <= k < i ==> !table_tag_at(s@, k),
        decreases s.len() - i,
    {
        if s[i] == '<' && (s[i + 1] == 't' || s[i + 1] == 'T') && (s[i + 2] == 'a' || s[i + 2]
            == 'A') && (s[i + 3] == 'b' || s[i + 3] == 'B') && (s[i + 4] == 'l' || s[i + 4]
            == 'L') && (s[i + 5] == 'e' || s[i + 5] == 'E') {
            assert(table_tag_at(s@, i as int));
            return true;
        }
        i += 1;
    }
    assert forall|k: int| !table_tag_at(s@, k) by {
        if 0 <= k < i {
        }
    }
    false
}

/// The selectors and attribute names used for invoice tables.
pub open spec fn selected_cells(html: Seq<char>) -> Option<Seq<Seq<Seq<RawCellView>>>> {
    if css_selector_valid("table"@) && css_selector_valid("tr"@) && css_selector_valid(
        "td, th"@,
    ) {
        Some(html_selected_cells(html, "table"@, "tr"@, "td, th"@, "colspan"@, "rowspan"@))
    } else {
        None
    }
}

/// All tables of the document, each a list of rows of laid-out cells.  No
/// tables when the text holds no `<table` tag.  (Where a cell position would
/// pass `usize::MAX`, no tables are returned.)
pub open spec fn structured_tables(html: Seq<char>) -> Seq<Seq<Seq<CellView>>> {
    if html.len() == 0 || !has_table_tag(html) {
        Seq::empty()
    } else {
        match selected_cells(html) {
            Some(raw) => match layout_tables(raw, 0, Seq::empty()) {
                Some(t) => t,
                None => Seq::empty(),
            },
            None => Seq::empty(),
        }
    }
}

/// Parses all HTML tables in the input: a list of tables, each a list of
/// rows, each a list of cells.
pub fn parse_structured_tables(html: &str) -> (r: Vec<Vec<Vec<Cell>>>)
    ensures
        tables_view(r@) == structured_tables(html@),
{
    let hv = chars_of(html);
    let empty: Vec<Vec<Vec<Cell>>> = Vec::new();
    assert(tables_view(empty@) =~= Seq::empty());
    if hv.len() == 0 || !has_table_tag_exec(hv.as_slice()) {
        return empty;
    }
    match select_table_cells(html, "table", "tr", "td, th", "colspan", "rowspan") {
        Some(raw) => match layout_tables_exec(&raw) {
            Some(t) => t,
            None => empty,
        },
        None => empty,
    }
}

/// The texts of the rows of the first table.
pub open spec fn html_table_texts(html: Seq<char>) -> Seq<Seq<Seq<char>>> {
    let t = structured_tables(html);
    if t.len() > 0 {
        t[0].map_values(|row: Seq<CellView>| row.map_values(|c: CellView| c.text))
    } else {
        Seq::empty()
    }
}

/// Parses the tables and returns the cell texts of the first one.
pub fn parse_html_table(html: &str) -> (r: Vec<Vec<String>>)
    ensures
        r@.map_values(|row: Vec<String>| row.deep_view()) == html_table_texts(html@),
{
    let tables = parse_structured_tables(html);
    let mut out: Vec<Vec<String>> = Vec::new();
    if tables.len() == 0 {
        assert(out@.map_values(|row: Vec<String>| row.deep_view()) =~= Seq::empty());
        return out;
    }
    let first = &tables[0];
    let ghost fv = table_view(first@);
    assert(fv == tables_view(tables@)[0]);
    let mut i: usize = 0;
    while i < first.len()
        invariant
            i <= first.len(),
            fv == table_view(first@),
            out@.map_values(|row: Vec<String>| row.deep_view()) =~= fv.take(i as int).map_values(
                |row: Seq<CellView>| row.map_values(|c: CellView| c.text),
            ),
        decreases first.len() - i,
    {
        let row = &first[i];
        let mut texts: Vec<String> = Vec::new();
        let mut j: usize = 0;
        while j < row.len()
            invariant
                j <= row.len(),
                texts.deep_view() =~= row_view(row@).take(j as int).map_values(|c: CellView| c.text),
            decreases row.len() - j,
        {
            let ghost before = texts.deep_view();
            texts.push(row[j].text.clone());
            assert(texts.deep_view() =~= before.push(row@[j as int].text@));
            assert(row_view(row@).take(j + 1) =~= row_view(row@).take(j as int).push(
                row_view(row@)[j as int],
            ));
            j += 1;
        }
        assert(row_view(row@).take(row.len() as int) == row_view(row@));
        assert(fv[i as int] == row_view(row@));
        let ghost before_out = out@;
        out.push(texts);
        assert(out@.map_values(|row: Vec<String>| row.deep_view()) =~= before_out.map_values(
            |row: Vec<String>| row.deep_view(),
        ).push(texts.deep_view()));
        assert(fv.take(i + 1) == fv.take(i as int).push(fv[i as int]));
        i += 1;
    }
    assert(fv.take(first.len() as int) == fv);
    out
}


// ------------------------------------------------------------------
// The shape of laid-out tables
// ------------------------------------------------------------------

/// The largest column end of the spans.
pub open spec fn max_col_end(occ: Seq<Span>) -> int
    decreases occ.len(),
{
    if occ.len() == 0 {
        0
    } else {
        let m = max_col_end(occ.drop_last());
        if occ.last().3 as int > m {
            occ.last().3 as int
        } else {
            m
        }
    }
}

proof fn lemma_max_col_end(occ: Seq<Span>, k: int)
    requires
        0 <= k < occ.len(),
    ensures
        occ[k].3 <= max_col_end(occ),
    decreases occ.len(),
{
    if k < occ.len() - 1 {
        lemma_max_col_end(occ.drop_last(), k);
    }
}

proof fn lemma_free_from(occ: Seq<Span>, r: int, c: int, b: int)
    requires
        c <= b,
        b >= max_col_end(occ),
    ensures
        exists|c2: int| #[trigger] is_first_free(occ, r, c, c2),
    decreases b - c,
{
    if !occupied(occ, r, c) {
        assert(is_first_free(occ, r, c, c));
    } else {
        if c == b {
            let k = choose|k: int| 0 <= k < occ.len() && #[trigger] occ[k].0 <= r < occ[k].1 && occ[k].2 <= c
                < occ[k].3;
            lemma_max_col_end(occ, k);
            assert(false);
        } else {
            let c1 = c + 1;
            lemma_free_from(occ, r, c1, b);
            let c2 = choose|c2: int| #[trigger] is_first_free(occ, r, c1, c2);
            assert(is_first_free(occ, r, c, c2));
        }
    }
}

/// The first free column at or after `c` exists and is not before `c`.
proof fn lemma_first_free_at_least(occ: Seq<Span>, r: int, c: int)
    ensures
        first_free(occ, r, c) >= c,
{
    let b = if c > max_col_end(occ) {
        c
    } else {
        max_col_end(occ)
    };
    lemma_free_from(occ, r, c, b);
}

/// The cells of a laid-out row: all in row `row`, each spanning at least
/// one column, left to right without overlap.
pub open spec fn row_shape(cells: Seq<CellView>, row: usize) -> bool {
    &&& forall|j: int| 0 <= j < cells.len() ==> (#[trigger] cells[j]).row == row && cells[j].col_start
        <= cells[j].col_end
    &&& forall|j: int| 0 <= j < cells.len() - 1 ==> (#[trigger] cells[j]).col_end < cells[j + 1].col_start
}

/// The rows of a laid-out table: none empty, each of the `row_shape` of its
/// first cell's row, and the rows strictly increasing.
pub open spec fn table_shape(rows: Seq<Seq<CellView>>) -> bool {
    &&& forall|i: int| 0 <= i < rows.len() ==> (#[trigger] rows[i]).len() > 0 && row_shape(rows[i], rows[i][0].row)
    &&& forall|i: int| 0 <= i < rows.len() - 1 ==> (#[trigger] rows[i])[0].row < rows[i + 1][0].row
}

/// Laid-out tables: none empty, each of `table_shape`.
pub open spec fn tables_shape(tables: Seq<Seq<Seq<CellView>>>) -> bool {
    forall|t: int| 0 <= t < tables.len() ==> (#[trigger] tables[t]).len() > 0 && table_shape(tables[t])
}

proof fn lemma_layout_row_shape(
    raw: Seq<RawCellView>,
    row: usize,
    k: int,
    col: int,
    occ: Seq<Span>,
    acc: Seq<CellView>,
)
    requires
        row_shape(acc, row),
        acc.len() > 0 ==> acc.last().col_end < col,
        col >= 0,
    ensures
        layout_row(raw, row, k, col, occ, acc) matches Some((o, cells)) ==> row_shape(cells, row),
    decreases raw.len() - k,
{
    if !(k < 0 || k >= raw.len()) {
        let start = first_free(occ, row as int, col);
        lemma_first_free_at_least(occ, row as int, col);
        let cs = span_of(raw[k].0);
        let rs = span_of(raw[k].1);
        if !(start + cs > usize::MAX || row + rs > usize::MAX) {
            let cell = CellView {
                text: cell_text(raw[k].2),
                row: row,
                col_start: start as usize,
                col_end: (start + cs - 1) as usize,
            };
            let acc2 = acc.push(cell);
            assert(row_shape(acc2, row)) by {
                assert forall|j: int| 0 <= j < acc2.len() - 1 implies (#[trigger] acc2[j]).col_end < acc2[j
                    + 1].col_start by {
                    if j < acc.len() - 1 {
                        assert(acc2[j] == acc[j] && acc2[j + 1] == acc[j + 1]);
                    }
                }
            }
            lemma_layout_row_shape(
                raw,
                row,
                k + 1,
                start + cs,
                occ.push((row, (row + rs) as usize, start as usize, (start + cs) as usize)),
                acc2,
            );
        }
    }
}

proof fn lemma_layout_rows_shape(raw: Seq<Seq<RawCellView>>, i: int, occ: Seq<Span>, acc: Seq<Seq<CellView>>)
    requires
        table_shape(acc),
        acc.len() > 0 ==> acc.last()[0].row < i,
        i >= 0,
    ensures
        layout_rows(raw, i, occ, acc) matches Some(rows) ==> table_shape(rows),
    decreases raw.len() - i,
{
    if !(i < 0 || i >= raw.len() || i > usize::MAX) {
        lemma_layout_row_shape(raw[i], i as usize, 0, 0, occ, Seq::empty());
        match layout_row(raw[i], i as usize, 0, 0, occ, Seq::empty()) {
            None => {},
            Some((occ2, cells)) => {
                if cells.len() > 0 {
                    let acc2 = acc.push(cells);
                    assert(cells[0].row == i);
                    assert(table_shape(acc2)) by {
                        assert forall|j: int| 0 <= j < acc2.len() - 1 implies (#[trigger] acc2[j])[0].row
                            < acc2[j + 1][0].row by {
                            if j < acc.len() - 1 {
                                assert(acc2[j] == acc[j] && acc2[j + 1] == acc[j + 1]);
                            }
                        }
                        assert forall|j: int| 0 <= j < acc2.len() implies (#[trigger] acc2[j]).len() > 0
                            && row_shape(acc2[j], acc2[j][0].row) by {
                            if j < acc.len() {
                                assert(acc2[j] == acc[j]);
                            }
                        }
                    }
                    lemma_layout_rows_shape(raw, i + 1, occ2, acc2);
                } else {
                    lemma_layout_rows_shape(raw, i + 1, occ2, acc);
                }
            },
        }
    }
}

proof fn lemma_layout_tables_shape(raw: Seq<Seq<Seq<RawCellView>>>, t: int, acc: Seq<Seq<Seq<CellView>>>)
    requires
        tables_shape(acc),
    ensures
        layout_tables(raw, t, acc) matches Some(ts) ==> tables_shape(ts),
    decreases raw.len() - t,
{
    if !(t < 0 || t >= raw.len()) {
        assert(table_shape(Seq::<Seq<CellView>>::empty()));
        lemma_layout_rows_shape(raw[t], 0, Seq::empty(), Seq::empty());
        match layout_rows(raw[t], 0, Seq::empty(), Seq::empty()) {
            None => {},
            Some(rows) => {
                if rows.len() > 0 {
                    let acc2 = acc.push(rows);
                    assert(tables_shape(acc2)) by {
                        assert forall|j: int| 0 <= j < acc2.len() implies (#[trigger] acc2[j]).len() > 0
                            && table_shape(acc2[j]) by {
                            if j < acc.len() {
                                assert(acc2[j] == acc[j]);
                            }
                        }
                    }
                    lemma_layout_tables_shape(raw, t + 1, acc2);
                } else {
                    lemma_layout_tables_shape(raw, t + 1, acc);
                }
            },
        }
    }
}

/// The shape of parsed tables: no table and no row is empty; the cells of
/// a row share its row number, each spans at least one column, and they
/// run left to right without overlap; the rows of a table have strictly
/// increasing row numbers.
pub proof fn lemma_tables_shape(html: Seq<char>)
    ensures
        tables_shape(structured_tables(html)),
{
    assert(tables_shape(Seq::<Seq<Seq<CellView>>>::empty()));
    if !(html.len() == 0 || !has_table_tag(html)) {
        match selected_cells(html) {
            Some(raw) => lemma_layout_tables_shape(raw, 0, Seq::empty()),
            None => {},
        }
    }
}


// ------------------------------------------------------------------
// Cells against the selected cells
// ------------------------------------------------------------------

/// A text without whitespace at either end.
pub open spec fn tight(s: Seq<char>) -> bool {
    s.len() > 0 ==> !is_ws(s[0]) && !is_ws(s.last())
}

proof fn lemma_trim_start_tight(s: Seq<char>)
    ensures
        trim_start_by(s, |c: char| is_ws(c)).len() > 0 ==> !is_ws(trim_start_by(s, |c: char| is_ws(c))[0]),
        trim_start_by(s, |c: char| is_ws(c)).len() <= s.len(),
        trim_start_by(s, |c: char| is_ws(c)).len() > 0 ==> trim_start_by(s, |c: char| is_ws(c)).last() == s.last(),
    decreases s.len(),
{
    if s.len() > 0 && is_ws(s[0]) {
        lemma_trim_start_tight(s.drop_first());
    }
}

proof fn lemma_trim_end_tight(s: Seq<char>)
    ensures
        trim_end_by(s, |c: char| is_ws(c)).len() > 0 ==> !is_ws(trim_end_by(s, |c: char| is_ws(c)).last())
            && trim_end_by(s, |c: char| is_ws(c))[0] == s[0],
    decreases s.len(),
{
    if s.len() > 0 && is_ws(s.last()) {
        lemma_trim_end_tight(s.drop_last());
    }
}

/// A trimmed text has no whitespace at either end.
proof fn lemma_trim_tight(s: Seq<char>)
    ensures
        tight(trim(s)),
{
    let u = trim_start_by(s, |c: char| is_ws(c));
    lemma_trim_start_tight(s);
    lemma_trim_end_tight(u);
}

/// A text without whitespace at either end is its own trim.
proof fn lemma_tight_trim(s: Seq<char>)
    requires
        tight(s),
    ensures
        trim(s) == s,
{
    let p = |c: char| is_ws(c);
    lemma_trim_start_skip(s, p, 0);
    assert(s.skip(0) =~= s);
    lemma_trim_end_take(s, p, s.len() as int);
    assert(s.take(s.len() as int) =~= s);
}

proof fn lemma_fragments_tight(frags: Seq<Seq<char>>)
    ensures
        forall|i: int|
            0 <= i < trimmed_fragments(frags).len() ==> (#[trigger] trimmed_fragments(frags)[i]).len() > 0 && tight(
                trimmed_fragments(frags)[i],
            ),
    decreases frags.len(),
{
    if frags.len() > 0 {
        let rest = trimmed_fragments(frags.drop_last());
        let t = trim(frags.last());
        lemma_fragments_tight(frags.drop_last());
        lemma_trim_tight(frags.last());
        if t.len() > 0 {
            assert forall|i: int| 0 <= i < rest.push(t).len() implies (#[trigger] rest.push(t)[i]).len() > 0 && tight(
                rest.push(t)[i],
            ) by {
                if i < rest.len() {
                    assert(rest.push(t)[i] == rest[i]);
                }
            }
        }
    }
}

proof fn lemma_join_tight(parts: Seq<Seq<char>>)
    requires
        forall|i: int| 0 <= i < parts.len() ==> (#[trigger] parts[i]).len() > 0 && tight(parts[i]),
    ensures
        parts.len() > 0 ==> join_with(parts, " "@).len() > 0 && join_with(parts, " "@)[0] == parts[0][0]
            && join_with(parts, " "@).last() == parts.last().last(),
    decreases parts.len(),
{
    if parts.len() > 1 {
        let p = parts.drop_last();
        assert forall|i: int| 0 <= i < p.len() implies (#[trigger] p[i]).len() > 0 && tight(p[i]) by {
            assert(p[i] == parts[i]);
        }
        lemma_join_tight(p);
        assert(p[0] == parts[0]);
        assert(parts.last().len() > 0);
    }
}

/// A cell's text has no whitespace at either end.
pub proof fn lemma_cell_text_trimmed(frags: Seq<Seq<char>>)
    ensures
        trim(cell_text(frags)) == cell_text(frags),
{
    let parts = trimmed_fragments(frags);
    lemma_fragments_tight(frags);
    lemma_join_tight(parts);
    reveal_strlit(" ");
    if parts.len() > 0 {
        assert(!is_ws(parts[0][0]));
        assert(!is_ws(parts.last().last()));
    } else {
        assert(join_with(parts, " "@).len() == 0);
    }
    lemma_tight_trim(cell_text(frags));
}

/// The cells of a row are those of the selected cells `raw`, one each, in
/// order: each spans the columns its `colspan` gives and holds its text.
pub open spec fn cells_match(cells: Seq<CellView>, raw: Seq<RawCellView>) -> bool {
    &&& cells.len() == raw.len()
    &&& forall|j: int|
        0 <= j < cells.len() ==> (#[trigger] cells[j]).col_end + 1 - cells[j].col_start == span_of(raw[j].0)
            && cells[j].text == cell_text(raw[j].2)
}

/// The rows of a table come from the selected rows `raw`: each row from
/// the selected row its row number names.
pub open spec fn table_match(rows: Seq<Seq<CellView>>, raw: Seq<Seq<RawCellView>>) -> bool {
    forall|i: int|
        0 <= i < rows.len() ==> (#[trigger] rows[i]).len() > 0 && rows[i][0].row < raw.len() && cells_match(
            rows[i],
            raw[rows[i][0].row as int],
        )
}

proof fn lemma_layout_row_match(
    raw: Seq<RawCellView>,
    row: usize,
    k: int,
    col: int,
    occ: Seq<Span>,
    acc: Seq<CellView>,
)
    requires
        0 <= k <= raw.len(),
        acc.len() == k,
        forall|j: int|
            0 <= j < k ==> (#[trigger] acc[j]).col_end + 1 - acc[j].col_start == span_of(raw[j].0) && acc[j].text
                == cell_text(raw[j].2),
        col >= 0,
    ensures
        layout_row(raw, row, k, col, occ, acc) matches Some((o, cells)) ==> cells_match(cells, raw),
    decreases raw.len() - k,
{
    if k < raw.len() {
        let start = first_free(occ, row as int, col);
        lemma_first_free_at_least(occ, row as int, col);
        let cs = span_of(raw[k].0);
        let rs = span_of(raw[k].1);
        if !(start + cs > usize::MAX || row + rs > usize::MAX) {
            let cell = CellView {
                text: cell_text(raw[k].2),
                row: row,
                col_start: start as usize,
                col_end: (start + cs - 1) as usize,
            };
            let acc2 = acc.push(cell);
            assert forall|j: int| 0 <= j < k + 1 implies (#[trigger] acc2[j]).col_end + 1 - acc2[j].col_start
                == span_of(raw[j].0) && acc2[j].text == cell_text(raw[j].2) by {
                if j < k {
                    assert(acc2[j] == acc[j]);
                }
            }
            lemma_layout_row_match(
                raw,
                row,
                k + 1,
                start + cs,
                occ.push((row, (row + rs) as usize, start as usize, (start + cs) as usize)),
                acc2,
            );
        }
    }
}

proof fn lemma_layout_rows_match(raw: Seq<Seq<RawCellView>>, i: int, occ: Seq<Span>, acc: Seq<Seq<CellView>>)
    requires
        table_match(acc, raw),
        i >= 0,
    ensures
        layout_rows(raw, i, occ, acc) matches Some(rows) ==> table_match(rows, raw),
    decreases raw.len() - i,
{
    if !(i < 0 || i >= raw.len() || i > usize::MAX) {
        lemma_layout_row_match(raw[i], i as usize, 0, 0, occ, Seq::empty());
        lemma_layout_row_shape(raw[i], i as usize, 0, 0, occ, Seq::empty());
        match layout_row(raw[i], i as usize, 0, 0, occ, Seq::empty()) {
            None => {},
            Some((occ2, cells)) => {
                if cells.len() > 0 {
                    let acc2 = acc.push(cells);
                    assert(cells[0].row == i);
                    assert forall|q: int| 0 <= q < acc2.len() implies (#[trigger] acc2[q]).len() > 0 && acc2[q][0].row
                        < raw.len() && cells_match(acc2[q], raw[acc2[q][0].row as int]) by {
                        if q < acc.len() {
                            assert(acc2[q] == acc[q]);
                        }
                    }
                    lemma_layout_rows_match(raw, i + 1, occ2, acc2);
                } else {
                    lemma_layout_rows_match(raw, i + 1, occ2, acc);
                }
            },
        }
    }
}

/// Every table comes from one of the selected tables.
pub open spec fn tables_match(tables: Seq<Seq<Seq<CellView>>>, raw: Seq<Seq<Seq<RawCellView>>>) -> bool {
    forall|t: int|
        0 <= t < tables.len() ==> exists|tt: int| 0 <= tt < raw.len() && table_match(#[trigger] tables[t], raw[tt])
}

proof fn lemma_layout_tables_match(raw: Seq<Seq<Seq<RawCellView>>>, t: int, acc: Seq<Seq<Seq<CellView>>>)
    requires
        tables_match(acc, raw),
        t >= 0,
    ensures
        layout_tables(raw, t, acc) matches Some(ts) ==> tables_match(ts, raw),
    decreases raw.len() - t,
{
    if t < raw.len() {
        assert(table_match(Seq::<Seq<CellView>>::empty(), raw[t]));
        lemma_layout_rows_match(raw[t], 0, Seq::empty(), Seq::empty());
        match layout_rows(raw[t], 0, Seq::empty(), Seq::empty()) {
            None => {},
            Some(rows) => {
                if rows.len() > 0 {
                    let acc2 = acc.push(rows);
                    assert forall|q: int| 0 <= q < acc2.len() implies exists|tt: int|
                        0 <= tt < raw.len() && table_match(#[trigger] acc2[q], raw[tt]) by {
                        if q < acc.len() {
                            assert(acc2[q] == acc[q]);
                        } else {
                            assert(table_match(acc2[q], raw[t]));
                        }
                    }
                    lemma_layout_tables_match(raw, t + 1, acc2);
                } else {
                    lemma_layout_tables_match(raw, t + 1, acc);
                }
            },
        }
    }
}

/// The cells of parsed tables against the selected cells: when there are
/// tables, the cells were selected; every table comes from a selected
/// table and every row from the selected row its row number names, one
/// cell per selected cell in order; each cell spans as many columns as its
/// `colspan` gives (at least one) and holds its text, which has no
/// whitespace at either end.
pub proof fn lemma_tables_cells(html: Seq<char>)
    ensures
        structured_tables(html).len() > 0 ==> selected_cells(html) is Some,
        selected_cells(html) matches Some(raw) ==> tables_match(structured_tables(html), raw),
        forall|t: int, i: int, j: int|
            0 <= t < structured_tables(html).len() && 0 <= i < structured_tables(html)[t].len() && 0 <= j
                < structured_tables(html)[t][i].len() ==> trim(#[trigger] structured_tables(html)[t][i][j].text)
                == structured_tables(html)[t][i][j].text,
{
    let ts = structured_tables(html);
    if !(html.len() == 0 || !has_table_tag(html)) {
        match selected_cells(html) {
            Some(raw) => {
                assert(tables_match(Seq::<Seq<Seq<CellView>>>::empty(), raw));
                lemma_layout_tables_match(raw, 0, Seq::empty());
                assert forall|t: int, i: int, j: int|
                    0 <= t < ts.len() && 0 <= i < ts[t].len() && 0 <= j < ts[t][i].len() implies trim(
                    #[trigger] ts[t][i][j].text,
                ) == ts[t][i][j].text by {
                    let tt = choose|tt: int| 0 <= tt < raw.len() && table_match(ts[t], raw[tt]);
                    let rr = raw[tt][ts[t][i][0].row as int];
                    assert(cells_match(ts[t][i], rr));
                    lemma_cell_text_trimmed(rr[j].2);
                }
            },
            None => {},
        }
    }
}


// ------------------------------------------------------------------
// Cells spanning several rows
// ------------------------------------------------------------------

/// The spans cover the rows `x.row .. x.row + rs` of the cell's columns.
pub open spec fn covers(occ: Seq<Span>, x: CellView, rs: nat) -> bool {
    forall|r: int, c: int|
        x.row <= r < x.row + rs && x.col_start <= c <= x.col_end ==> #[trigger] occupied(occ, r, c)
}

/// Every position `a` covers, `b` covers too.
pub open spec fn grows(a: Seq<Span>, b: Seq<Span>) -> bool {
    forall|r: int, c: int| #[trigger] occupied(a, r, c) ==> occupied(b, r, c)
}

/// No cell starts in a column that a cell of an earlier row still covers:
/// for a cell `x` whose selected cell (in `raw`, at its row and position)
/// spans `n` rows, every cell `y` in a row after `x`'s and before `x.row +
/// n` starts outside `x`'s columns.
pub open spec fn rowspans_ok(rows: Seq<Seq<CellView>>, raw: Seq<Seq<RawCellView>>) -> bool {
    forall|q1: int, j1: int, q2: int, j2: int|
        #![trigger rows[q1][j1], rows[q2][j2]]
        0 <= q1 < rows.len() && 0 <= j1 < rows[q1].len() && 0 <= q2 < rows.len() && 0 <= j2 < rows[q2].len()
            && rows[q1][j1].row < raw.len() && j1 < raw[rows[q1][j1].row as int].len() && rows[q1][j1].row
            < rows[q2][j2].row && rows[q2][j2].row < rows[q1][j1].row + span_of(
            raw[rows[q1][j1].row as int][j1].1,
        ) ==> !(rows[q1][j1].col_start <= rows[q2][j2].col_start <= rows[q1][j1].col_end)
}

proof fn lemma_push_grows(occ: Seq<Span>, sp: Span)
    ensures
        grows(occ, occ.push(sp)),
{
    assert forall|r: int, c: int| #[trigger] occupied(occ, r, c) implies occupied(occ.push(sp), r, c) by {
        let k = choose|k: int| 0 <= k < occ.len() && #[trigger] occ[k].0 <= r < occ[k].1 && occ[k].2 <= c < occ[k].3;
        assert(occ.push(sp)[k] == occ[k]);
    }
}

proof fn lemma_first_free_found(occ: Seq<Span>, r: int, c: int)
    ensures
        is_first_free(occ, r, c, first_free(occ, r, c)),
{
    let b = if c > max_col_end(occ) {
        c
    } else {
        max_col_end(occ)
    };
    lemma_free_from(occ, r, c, b);
}

proof fn lemma_layout_row_spans(
    raw: Seq<RawCellView>,
    row: usize,
    k: int,
    col: int,
    occ0: Seq<Span>,
    occ: Seq<Span>,
    acc: Seq<CellView>,
)
    requires
        0 <= k <= raw.len(),
        acc.len() == k,
        col >= 0,
        grows(occ0, occ),
        forall|j: int|
            0 <= j < k ==> covers(occ, #[trigger] acc[j], span_of(raw[j].1)) && !occupied(
                occ0,
                row as int,
                acc[j].col_start as int,
            ),
    ensures
        layout_row(raw, row, k, col, occ, acc) matches Some((o2, cells)) ==> {
            &&& grows(occ0, o2)
            &&& cells.len() == raw.len()
            &&& forall|j: int|
                0 <= j < cells.len() ==> covers(o2, #[trigger] cells[j], span_of(raw[j].1)) && !occupied(
                    occ0,
                    row as int,
                    cells[j].col_start as int,
                )
        },
    decreases raw.len() - k,
{
    if k < raw.len() {
        let start = first_free(occ, row as int, col);
        lemma_first_free_found(occ, row as int, col);
        lemma_first_free_at_least(occ, row as int, col);
        let cs = span_of(raw[k].0);
        let rs = span_of(raw[k].1);
        if !(start + cs > usize::MAX || row + rs > usize::MAX) {
            let cell = CellView {
                text: cell_text(raw[k].2),
                row: row,
                col_start: start as usize,
                col_end: (start + cs - 1) as usize,
            };
            let sp: Span = (row, (row + rs) as usize, start as usize, (start + cs) as usize);
            let occ2 = occ.push(sp);
            let acc2 = acc.push(cell);
            lemma_push_grows(occ, sp);
            assert(grows(occ0, occ2)) by {
                assert forall|r: int, c: int| #[trigger] occupied(occ0, r, c) implies occupied(occ2, r, c) by {
                    assert(occupied(occ, r, c));
                }
            }
            assert(!occupied(occ0, row as int, start)) by {
                if occupied(occ0, row as int, start) {
                    assert(occupied(occ, row as int, start));
                }
            }
            assert forall|j: int| 0 <= j < k + 1 implies covers(occ2, #[trigger] acc2[j], span_of(raw[j].1))
                && !occupied(occ0, row as int, acc2[j].col_start as int) by {
                if j < k {
                    assert(acc2[j] == acc[j]);
                    assert forall|r: int, c: int|
                        acc[j].row <= r < acc[j].row + span_of(raw[j].1) && acc[j].col_start <= c
                            <= acc[j].col_end implies #[trigger] occupied(occ2, r, c) by {
                        assert(occupied(occ, r, c));
                    }
                } else {
                    assert(acc2[j] == cell);
                    assert forall|r: int, c: int|
                        cell.row <= r < cell.row + rs && cell.col_start <= c <= cell.col_end implies #[trigger] occupied(
                        occ2,
                        r,
                        c,
                    ) by {
                        let w = occ.len() as int;
                        assert(occ2[w] == sp);
                        assert(occ2[w].0 <= r < occ2[w].1 && occ2[w].2 <= c < occ2[w].3);
                    }
                }
            }
            lemma_layout_row_spans(raw, row, k + 1, start + cs, occ0, occ2, acc2);
        }
    }
}

#[verifier::rlimit(100)]
proof fn lemma_layout_rows_spans(raw: Seq<Seq<RawCellView>>, i: int, occ: Seq<Span>, acc: Seq<Seq<CellView>>)
    requires
        i >= 0,
        forall|q: int, j: int|
            #![trigger acc[q][j]]
            0 <= q < acc.len() && 0 <= j < acc[q].len() ==> acc[q][j].row < i && acc[q][j].row < raw.len()
                && j < raw[acc[q][j].row as int].len() && covers(
                occ,
                acc[q][j],
                span_of(raw[acc[q][j].row as int][j].1),
            ),
        rowspans_ok(acc, raw),
    ensures
        layout_rows(raw, i, occ, acc) matches Some(rows) ==> rowspans_ok(rows, raw),
    decreases raw.len() - i,
{
    if !(i < 0 || i >= raw.len() || i > usize::MAX) {
        lemma_layout_row_spans(raw[i], i as usize, 0, 0, occ, occ, Seq::empty());
        lemma_layout_row_shape(raw[i], i as usize, 0, 0, occ, Seq::empty());
        match layout_row(raw[i], i as usize, 0, 0, occ, Seq::empty()) {
            None => {},
            Some((occ2, cells)) => {
                if cells.len() > 0 {
                    let acc2 = acc.push(cells);
                    assert forall|q: int, j: int|
                        #![trigger acc2[q][j]]
                        0 <= q < acc2.len() && 0 <= j < acc2[q].len() implies acc2[q][j].row < i + 1
                            && acc2[q][j].row < raw.len() && j < raw[acc2[q][j].row as int].len() && covers(
                            occ2,
                            acc2[q][j],
                            span_of(raw[acc2[q][j].row as int][j].1),
                        ) by {
                        if q < acc.len() {
                            assert(acc2[q] == acc[q]);
                            let x = acc[q][j];
                            assert(covers(occ, x, span_of(raw[x.row as int][j].1)));
                            assert forall|r: int, c: int|
                                x.row <= r < x.row + span_of(raw[x.row as int][j].1) && x.col_start <= c
                                    <= x.col_end implies #[trigger] occupied(occ2, r, c) by {
                                assert(occupied(occ, r, c));
                            }
                        } else {
                            assert(acc2[q] == cells);
                            assert(cells[j].row == i);
                            assert(covers(occ2, cells[j], span_of(raw[i][j].1)));
                        }
                    }
                    assert forall|q1: int, j1: int, q2: int, j2: int|
                        #![trigger acc2[q1][j1], acc2[q2][j2]]
                        0 <= q1 < acc2.len() && 0 <= j1 < acc2[q1].len() && 0 <= q2 < acc2.len() && 0 <= j2
                            < acc2[q2].len() && acc2[q1][j1].row < raw.len() && j1 < raw[acc2[q1][j1].row as int].len()
                            && acc2[q1][j1].row < acc2[q2][j2].row && acc2[q2][j2].row < acc2[q1][j1].row + span_of(
                            raw[acc2[q1][j1].row as int][j1].1,
                        ) implies !(acc2[q1][j1].col_start <= acc2[q2][j2].col_start <= acc2[q1][j1].col_end) by {
                        if q1 < acc.len() && q2 < acc.len() {
                            assert(acc2[q1] == acc[q1]);
                            assert(acc2[q2] == acc[q2]);
                        } else if q1 < acc.len() {
                            assert(acc2[q1] == acc[q1]);
                            assert(acc2[q2] == cells);
                            let x = acc[q1][j1];
                            let y = cells[j2];
                            assert(y.row == i);
                            assert(!occupied(occ, i, y.col_start as int));
                            assert(covers(occ, x, span_of(raw[x.row as int][j1].1)));
                            if x.col_start <= y.col_start <= x.col_end {
                                assert(occupied(occ, i, y.col_start as int));
                            }
                        } else if q2 < acc.len() {
                            assert(acc2[q1] == cells);
                            assert(acc2[q2] == acc[q2]);
                            assert(cells[j1].row == i);
                            assert(acc[q2][j2].row < i);
                        } else {
                            assert(acc2[q1] == cells && acc2[q2] == cells);
                            assert(cells[j1].row == i && cells[j2].row == i);
                        }
                    }
                    lemma_layout_rows_spans(raw, i + 1, occ2, acc2);
                } else {
                    assert forall|q: int, j: int|
                        #![trigger acc[q][j]]
                        0 <= q < acc.len() && 0 <= j < acc[q].len() implies acc[q][j].row < i + 1
                            && acc[q][j].row < raw.len() && j < raw[acc[q][j].row as int].len() && covers(
                            occ2,
                            acc[q][j],
                            span_of(raw[acc[q][j].row as int][j].1),
                        ) by {
                        let x = acc[q][j];
                        assert forall|r: int, c: int|
                            x.row <= r < x.row + span_of(raw[x.row as int][j].1) && x.col_start <= c
                                <= x.col_end implies #[trigger] occupied(occ2, r, c) by {
                            assert(occupied(occ, r, c));
                        }
                    }
                    lemma_layout_rows_spans(raw, i + 1, occ2, acc);
                }
            },
        }
    }
}

/// Every table comes from one of the selected tables, and none of its
/// cells starts in a column that a cell above still spans.
pub open spec fn tables_spans(tables: Seq<Seq<Seq<CellView>>>, raw: Seq<Seq<Seq<RawCellView>>>) -> bool {
    forall|t: int|
        0 <= t < tables.len() ==> exists|tt: int|
            0 <= tt < raw.len() && table_match(#[trigger] tables[t], raw[tt]) && rowspans_ok(tables[t], raw[tt])
}

proof fn lemma_layout_tables_spans(raw: Seq<Seq<Seq<RawCellView>>>, t: int, acc: Seq<Seq<Seq<CellView>>>)
    requires
        tables_spans(acc, raw),
        t >= 0,
    ensures
        layout_tables(raw, t, acc) matches Some(ts) ==> tables_spans(ts, raw),
    decreases raw.len() - t,
{
    if t < raw.len() {
        assert(table_match(Seq::<Seq<CellView>>::empty(), raw[t]));
        assert(rowspans_ok(Seq::<Seq<CellView>>::empty(), raw[t]));
        lemma_layout_rows_match(raw[t], 0, Seq::empty(), Seq::empty());
        lemma_layout_rows_spans(raw[t], 0, Seq::empty(), Seq::empty());
        match layout_rows(raw[t], 0, Seq::empty(), Seq::empty()) {
            None => {},
            Some(rows) => {
                if rows.len() > 0 {
                    let acc2 = acc.push(rows);
                    assert forall|q: int| 0 <= q < acc2.len() implies exists|tt: int|
                        0 <= tt < raw.len() && table_match(#[trigger] acc2[q], raw[tt]) && rowspans_ok(
                            acc2[q],
                            raw[tt],
                        ) by {
                        if q < acc.len() {
                            assert(acc2[q] == acc[q]);
                        } else {
                            assert(table_match(acc2[q], raw[t]) && rowspans_ok(acc2[q], raw[t]));
                        }
                    }
                    lemma_layout_tables_spans(raw, t + 1, acc2);
                } else {
                    lemma_layout_tables_spans(raw, t + 1, acc);
                }
            },
        }
    }
}

/// Cells that span several rows keep their columns: every table comes
/// from a selected table (see `table_match`), and a cell whose selected
/// cell has `rowspan` n keeps its columns in the n - 1 rows below it — no
/// cell of those rows starts inside them.
pub proof fn lemma_rowspans(html: Seq<char>)
    ensures
        selected_cells(html) matches Some(raw) ==> tables_spans(structured_tables(html), raw),
{
    if !(html.len() == 0 || !has_table_tag(html)) {
        match selected_cells(html) {
            Some(raw) => {
                assert(tables_spans(Seq::<Seq<Seq<CellView>>>::empty(), raw));
                lemma_layout_tables_spans(raw, 0, Seq::empty());
            },
            None => {},
        }
    } else {
        match selected_cells(html) {
            Some(raw) => {
                assert(tables_spans(Seq::<Seq<Seq<CellView>>>::empty(), raw));
            },
            None => {},
        }
    }
}

} // verus!
