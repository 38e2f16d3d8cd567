//! Finding the commodity table and its header row.

use vstd::prelude::*;
use crate::column_map::ColumnMap;
use crate::html_table::{
    Cell, CellView, parse_structured_tables, row_view, structured_tables, table_view, tables_view,
};
use crate::normalize::{normalize_label, normalize_label_spec};
use crate::text::{chars_of, str_eq};

verus! {

/// The detail fields a header cell can name, in the order they are tried.
pub open spec fn detail_fields() -> Seq<Seq<char>> {
    seq![
        "name"@,
        "spec"@,
        "unit"@,
        "quantity"@,
        "price"@,
        "amount"@,
        "tax_rate"@,
        "tax"@,
    ]
}

/// Whether a normalized header label names the detail field `field`.
pub open spec fn header_alias(label: Seq<char>, field: Seq<char>) -> bool {
    if field == "name"@ {
        label == "项目名称"@ || label == "货物或应税劳务服务名称"@ || label == "货物或应税劳务名称"@
            || label == "货物或应税劳务、服务名称"@
    } else if field == "spec"@ {
        label == "规格型号"@
    } else if field == "unit"@ {
        label == "单位"@
    } else if field == "quantity"@ {
        label == "数量"@
    } else if field == "price"@ {
        label == "单价"@
    } else if field == "amount"@ {
        label == "金额"@
    } else if field == "tax_rate"@ {
        label == "税率"@ || label == "税率征收率"@ || label == "税率/征收率"@
    } else if field == "tax"@ {
        label == "税额"@
    } else {
        false
    }
}

/// Header label aliases of the detail fields.
pub struct HeaderAliases;

impl HeaderAliases {
    /// Whether the normalized `label` names the detail field `field`.
    pub fn matches(label: &str, field: &str) -> (r: bool)
        ensures
            r == header_alias(label@, field@),
    {
        if str_eq(field, "name") {
            str_eq(label, "项目名称") || str_eq(label, "货物或应税劳务服务名称") || str_eq(
                label,
                "货物或应税劳务名称",
            ) || str_eq(label, "货物或应税劳务、服务名称")
        } else if str_eq(field, "spec") {
            str_eq(label, "规格型号")
        } else if str_eq(field, "unit") {
            str_eq(label, "单位")
        } else if str_eq(field, "quantity") {
            str_eq(label, "数量")
        } else if str_eq(field, "price") {
            str_eq(label, "单价")
        } else if str_eq(field, "amount") {
            str_eq(label, "金额")
        } else if str_eq(field, "tax_rate") {
            str_eq(label, "税率") || str_eq(label, "税率征收率") || str_eq(label, "税率/征收率")
        } else if str_eq(field, "tax") {
            str_eq(label, "税额")
        } else {
            false
        }
    }
}

/// The first detail field (in `detail_fields` order) that `label` names.
pub open spec fn first_alias_from(label: Seq<char>, k: int) -> Option<Seq<char>>
    decreases 8 - k,
{
    if k < 0 || k >= 8 {
        None
    } else if header_alias(label, detail_fields()[k]) {
        Some(detail_fields()[k])
    } else {
        first_alias_from(label, k + 1)
    }
}

/// The detail field a header cell names, if any.
pub open spec fn cell_field(cell: CellView) -> Option<Seq<char>> {
    first_alias_from(normalize_label_spec(cell.text), 0)
}

/// The columns `lo..=hi`, all holding `f`.
pub open spec fn column_range(lo: int, hi: int, f: Seq<char>) -> Map<usize, Seq<char>> {
    Map::new(|c: usize| lo <= c <= hi, |c: usize| f)
}

/// The columns that the header cells name, later cells winning.
pub open spec fn header_columns(cells: Seq<CellView>) -> Map<usize, Seq<char>>
    decreases cells.len(),
{
    if cells.len() == 0 {
        Map::empty()
    } else {
        let m = header_columns(cells.drop_last());
        match cell_field(cells.last()) {
            Some(f) => m.union_prefer_right(
                column_range(cells.last().col_start as int, cells.last().col_end as int, f),
            ),
            None => m,
        }
    }
}

/// The detail fields the header cells name, each once, in order of first appearance.
pub open spec fn header_hits(cells: Seq<CellView>) -> Seq<Seq<char>>
    decreases cells.len(),
{
    if cells.len() == 0 {
        Seq::empty()
    } else {
        let h = header_hits(cells.drop_last());
        match cell_field(cells.last()) {
            Some(f) => if h.contains(f) {
                h
            } else {
                h.push(f)
            },
            None => h,
        }
    }
}

/// A header row names at least the name, amount and tax columns and four
/// fields in all; its mapping from columns to fields.
pub open spec fn header_mapping_spec(cells: Seq<CellView>) -> Option<Map<usize, Seq<char>>> {
    let hits = header_hits(cells);
    if hits.contains("name"@) && hits.contains("amount"@) && hits.contains("tax"@) && hits.len()
        >= 4 {
        Some(header_columns(cells))
    } else {
        None
    }
}

fn detail_field_name(k: usize) -> (r: &'static str)
    requires
        k < 8,
    ensures
        r@ == detail_fields()[k as int],
{
    if k == 0 {
        "name"
    } else if k == 1 {
        "spec"
    } else if k == 2 {
        "unit"
    } else if k == 3 {
        "quantity"
    } else if k == 4 {
        "price"
    } else if k == 5 {
        "amount"
    } else if k == 6 {
        "tax_rate"
    } else {
        "tax"
    }
}

fn cell_field_exec(cell: &Cell) -> (r: Option<&'static str>)
    ensures
        match r {
            Some(f) => cell_field(cell@) == Some(f@),
            None => cell_field(cell@) is None,
        },
{
    let label = normalize_label(cell.text.as_str());
    let mut k: usize = 0;
    while k < 8
        invariant
            k <= 8,
            label@ == normalize_label_spec(cell.text@),
            cell_field(cell@) == first_alias_from(label@, k as int),
        decreases 8 - k,
    {
        let f = detail_field_name(k);
        if HeaderAliases::matches(label.as_str(), f) {
            return Some(f);
        }
        k += 1;
    }
    None
}

fn seq_contains_str(v: &Vec<String>, s: &str) -> (r: bool)
    ensures
        r == v.deep_view().contains(s@),
{
    let mut i: usize = 0;
    while i < v.len()
        invariant
            i <= v.len(),
            forall|j: int| 0 <= j < i ==> v@[j]@ != s@,
        decreases v.len() - i,
    {
        if str_eq(v[i].as_str(), s) {
            assert(v.deep_view()[i as int] == s@);
            return true;
        }
        i += 1;
    }
    assert forall|j: int| 0 <= j < v.deep_view().len() implies v.deep_view()[j] != s@ by {
        assert(v.deep_view()[j] == v@[j]@);
    }
    false
}

/// Maps the header cells' columns to the fields they name, if the row is a
/// commodity header.
pub fn header_mapping(row: &[Cell]) -> (r: Option<ColumnMap>)
    ensures
        match r {
            Some(m) => header_mapping_spec(row_view(row@)) == Some(m@),
            None => header_mapping_spec(row_view(row@)) is None,
        },
{
    let ghost rv = row_view(row@);
    let mut mapping = ColumnMap::new();
    let mut hits: Vec<String> = Vec::new();
    let mut i: usize = 0;
    assert(rv.take(0) =~= Seq::<CellView>::empty());
    while i < row.len()
        invariant
            i <= row.len(),
            rv == row_view(row@),
            mapping@ == header_columns(rv.take(i as int)),
            hits.deep_view() == header_hits(rv.take(i as int)),
        decreases row.len() - i,
    {
        let ghost pre = rv.take(i as int);
        assert(rv.take(i + 1).drop_last() == pre);
        assert(rv.take(i + 1).last() == row@[i as int]@);
        let cell = &row[i];
        match cell_field_exec(cell) {
            Some(f) => {
                if !seq_contains_str(&hits, f) {
                    let ghost before = hits.deep_view();
                    hits.push(f.to_owned());
                    assert(hits.deep_view() =~= before.push(f@));
                }
                let ghost m0 = mapping@;
                let lo = cell.col_start;
                let hi = cell.col_end;
                if lo <= hi {
                    let mut c = lo;
                    assert(m0.union_prefer_right(column_range(lo as int, c - 1, f@)) =~= m0);
                    while c < hi
                        invariant
                            lo <= c <= hi,
                            mapping@ == m0.union_prefer_right(column_range(lo as int, c - 1, f@)),
                        decreases hi - c,
                    {
                        mapping.insert(c, f.to_owned());
                        assert(mapping@ =~= m0.union_prefer_right(column_range(lo as int, c as int, f@)));
                        c += 1;
                    }
                    mapping.insert(c, f.to_owned());
                    assert(mapping@ =~= m0.union_prefer_right(column_range(lo as int, hi as int, f@)));
                } else {
                    assert(m0.union_prefer_right(column_range(lo as int, hi as int, f@)) =~= m0);
                }
            },
            None => {},
        }
        i += 1;
    }
    assert(rv.take(row.len() as int) == rv);
    if seq_contains_str(&hits, "name") && seq_contains_str(&hits, "amount") && seq_contains_str(
        &hits,
        "tax",
    ) && hits.len() >= 4 {
        Some(mapping)
    } else {
        None
    }
}

// ------------------------------------------------------------------
// The table with the best header
// ------------------------------------------------------------------

/// A header mapping beats the best found so far when it maps more columns.
pub open spec fn beats(m: Map<usize, Seq<char>>, best: Option<(int, int, Map<usize, Seq<char>>)>) -> bool {
    match best {
        Some((_, _, e)) => m.dom().len() > e.dom().len(),
        None => true,
    }
}

/// The best header among rows `r..` of table `t`, given the best so far.
pub open spec fn best_in_rows(
    rows: Seq<Seq<CellView>>,
    t: int,
    r: int,
    best: Option<(int, int, Map<usize, Seq<char>>)>,
) -> Option<(int, int, Map<usize, Seq<char>>)>
    decreases rows.len() - r,
{
    if r < 0 || r >= rows.len() {
        best
    } else {
        let b2 = match header_mapping_spec(rows[r]) {
            Some(m) => if beats(m, best) {
                Some((t, r, m))
            } else {
                best
            },
            None => best,
        };
        best_in_rows(rows, t, r + 1, b2)
    }
}

/// The best header among tables `t..`, given the best so far.
pub open spec fn best_in_tables(
    tables: Seq<Seq<Seq<CellView>>>,
    t: int,
    best: Option<(int, int, Map<usize, Seq<char>>)>,
) -> Option<(int, int, Map<usize, Seq<char>>)>
    decreases tables.len() - t,
{
    if t < 0 || t >= tables.len() {
        best
    } else {
        best_in_tables(tables, t + 1, best_in_rows(tables[t], t, 0, best))
    }
}

/// The table whose header row maps the most columns (the first such), the
/// index of that header row, and its mapping.
pub open spec fn table_and_header(markdown: Seq<char>) -> Option<
    (Seq<Seq<CellView>>, int, Map<usize, Seq<char>>),
> {
    let tables = structured_tables(markdown);
    match best_in_tables(tables, 0, None) {
        Some((t, r, m)) => Some((tables[t], r, m)),
        None => None,
    }
}

proof fn lemma_best_bounds(tables: Seq<Seq<Seq<CellView>>>, t: int, best: Option<(int, int, Map<usize, Seq<char>>)>)
    requires
        best matches Some((bt, br, _)) ==> 0 <= bt < tables.len() && 0 <= br < tables[bt].len(),
    ensures
        best_in_tables(tables, t, best) matches Some((bt, br, _)) ==> 0 <= bt < tables.len() && 0
            <= br < tables[bt].len(),
    decreases tables.len() - t,
{
    if !(t < 0 || t >= tables.len()) {
        lemma_best_rows_bounds(tables, t, 0, best);
        lemma_best_bounds(tables, t + 1, best_in_rows(tables[t], t, 0, best));
    }
}

proof fn lemma_best_rows_bounds(
    tables: Seq<Seq<Seq<CellView>>>,
    t: int,
    r: int,
    best: Option<(int, int, Map<usize, Seq<char>>)>,
)
    requires
        0 <= t < tables.len(),
        best matches Some((bt, br, _)) ==> 0 <= bt < tables.len() && 0 <= br < tables[bt].len(),
    ensures
        best_in_rows(tables[t], t, r, best) matches Some((bt, br, _)) ==> 0 <= bt < tables.len() && 0
            <= br < tables[bt].len(),
    decreases tables[t].len() - r,
{
    if !(r < 0 || r >= tables[t].len()) {
        let b2 = match header_mapping_spec(tables[t][r]) {
            Some(m) => if beats(m, best) {
                Some((t, r, m))
            } else {
                best
            },
            None => best,
        };
        lemma_best_rows_bounds(tables, t, r + 1, b2);
    }
}

/// The view of the best header found so far.
pub open spec fn best_view(best: Option<(usize, usize, ColumnMap)>) -> Option<(int, int, Map<usize, Seq<char>>)> {
    match best {
        Some((bt, br, m)) => Some((bt as int, br as int, m@)),
        None => None,
    }
}

/// Finds the commodity table: its rows, the index of its header row and the
/// header's mapping from columns to detail fields.
pub fn find_table_and_header(markdown_text: &str) -> (r: Option<(Vec<Vec<Cell>>, usize, ColumnMap)>)
    ensures
        match r {
            Some((rows, h, m)) => table_and_header(markdown_text@) == Some(
                (table_view(rows@), h as int, m@),
            ) && h < rows@.len(),
            None => table_and_header(markdown_text@) is None,
        },
{
    let mut tables = parse_structured_tables(markdown_text);
    let ghost tv = tables_view(tables@);
    let mut best: Option<(usize, usize, ColumnMap)> = None;
    let mut t: usize = 0;
    while t < tables.len()
        invariant
            t <= tables.len(),
            tv == tables_view(tables@),
            best_in_tables(tv, 0, None) == best_in_tables(
                tv,
                t as int,
                match best {
                    Some((bt, br, m)) => Some((bt as int, br as int, m@)),
                    None => None,
                },
            ),
            best matches Some((bt, br, _)) ==> bt < tables.len() && br < tables@[bt as int]@.len(),
        decreases tables.len() - t,
    {
        let ghost best0 = best_view(best);
        let table = &tables[t];
        assert(tv[t as int] == table_view(table@));
        let mut r: usize = 0;
        while r < table.len()
            invariant
                r <= table.len(),
                t < tables.len(),
                table == tables@[t as int],
                tv == tables_view(tables@),
                tv[t as int] == table_view(table@),
                best_in_rows(tv[t as int], t as int, 0, best0) == best_in_rows(
                    tv[t as int],
                    t as int,
                    r as int,
                    best_view(best),
                ),
                best matches Some((bt, br, _)) ==> bt < tables.len() && br < tables@[bt as int]@.len(),
            decreases table.len() - r,
        {
            assert(table_view(table@)[r as int] == row_view(table@[r as int]@));
            match header_mapping(table[r].as_slice()) {
                Some(m) => {
                    let is_better = match &best {
                        Some((_, _, existing)) => m.len() > existing.len(),
                        None => true,
                    };
                    if is_better {
                        best = Some((t, r, m));
                    }
                },
                None => {},
            }
            r += 1;
        }
        t += 1;
    }
    match best {
        Some((bt, br, m)) => {
            let rows = tables.remove(bt);
            assert(table_view(rows@) == tv[bt as int]);
            Some((rows, br, m))
        },
        None => None,
    }
}

// ------------------------------------------------------------------
// Field text of a detail row
// ------------------------------------------------------------------

/// The columns that hold `field`.
pub open spec fn holds_field(m: Map<usize, Seq<char>>, field: Seq<char>, c: usize) -> bool {
    m.contains_key(c) && m[c] == field
}

/// The texts of the cells that overlap columns `lo..=hi`.
pub open spec fn overlapping_texts(cells: Seq<CellView>, lo: int, hi: int) -> Seq<Seq<char>>
    decreases cells.len(),
{
    if cells.len() == 0 {
        Seq::empty()
    } else {
        let rest = overlapping_texts(cells.drop_last(), lo, hi);
        if cells.last().col_end >= lo && cells.last().col_start <= hi {
            rest.push(cells.last().text)
        } else {
            rest
        }
    }
}

/// The text of `field` in a detail row: the joined texts of the cells that
/// overlap the columns from the first to the last column holding the field.
#[verifier::opaque]
pub open spec fn row_field_text_spec(cells: Seq<CellView>, m: Map<usize, Seq<char>>, field: Seq<char>) -> Seq<char> {
    if exists|c: usize| holds_field(m, field, c) {
        let lo = choose|c: usize| holds_field(m, field, c) && forall|d: usize| holds_field(m, field, d) ==> c <= d;
        let hi = choose|c: usize| holds_field(m, field, c) && forall|d: usize| holds_field(m, field, d) ==> d <= c;
        crate::normalize::join_text_spec(overlapping_texts(cells, lo as int, hi as int))
    } else {
        Seq::empty()
    }
}

/// The text of `field` in a detail row (see `row_field_text_spec`).
pub fn row_field_text(row: &[Cell], mapping: &ColumnMap, field: &str) -> (r: String)
    ensures
        r@ == row_field_text_spec(row_view(row@), mapping@, field@),
{
    let v = row_field_chars(row, mapping, field);
    crate::text::string_of(v.as_slice())
}

/// The characters of `field` in a detail row.
pub fn row_field_chars(row: &[Cell], mapping: &ColumnMap, field: &str) -> (r: Vec<char>)
    ensures
        r@ == row_field_text_spec(row_view(row@), mapping@, field@),
{
    reveal(row_field_text_spec);
    let keys = mapping.keys();
    let mut lo: usize = 0;
    let mut hi: usize = 0;
    let mut found = false;
    let mut i: usize = 0;
    let ghost m = mapping@;
    while i < keys.len()
        invariant
            i <= keys.len(),
            m == mapping@,
            forall|j: int| 0 <= j < keys@.len() ==> m.contains_key(#[trigger] keys@[j]),
            forall|k: usize| m.contains_key(k) ==> keys@.contains(k),
            found ==> holds_field(m, field@, lo) && holds_field(m, field@, hi),
            found <==> exists|j: int| 0 <= j < i && holds_field(m, field@, #[trigger] keys@[j]),
            forall|j: int| 0 <= j < i && holds_field(m, field@, #[trigger] keys@[j]) ==> lo <= keys@[j] <= hi,
        decreases keys.len() - i,
    {
        let c = keys[i];
        let v = mapping.get(c);
        let holds = match v {
            Some(f) => str_eq(f.as_str(), field),
            None => false,
        };
        if holds {
            if !found {
                lo = c;
                hi = c;
                found = true;
            } else {
                if c < lo {
                    lo = c;
                }
                if c > hi {
                    hi = c;
                }
            }
        }
        i += 1;
    }
    if !found {
        assert(!exists|c: usize| holds_field(m, field@, c)) by {
            if exists|c: usize| holds_field(m, field@, c) {
                let c = choose|c: usize| holds_field(m, field@, c);
                assert(keys@.contains(c));
                let j = choose|j: int| 0 <= j < keys@.len() && keys@[j] == c;
                assert(holds_field(m, field@, keys@[j]));
            }
        }
        return Vec::new();
    }
    proof {
        assert forall|d: usize| holds_field(m, field@, d) implies lo <= d <= hi by {
            assert(keys@.contains(d));
            let j = choose|j: int| 0 <= j < keys@.len() && keys@[j] == d;
            assert(holds_field(m, field@, keys@[j]));
        }
        let lo2 = choose|c: usize| holds_field(m, field@, c) && forall|d: usize| holds_field(m, field@, d) ==> c <= d;
        let hi2 = choose|c: usize| holds_field(m, field@, c) && forall|d: usize| holds_field(m, field@, d) ==> d <= c;
        assert(lo2 == lo);
        assert(hi2 == hi);
    }
    let ghost rv = row_view(row@);
    let mut texts: Vec<Vec<char>> = Vec::new();
    let mut k: usize = 0;
    assert(rv.take(0) =~= Seq::<CellView>::empty());
    while k < row.len()
        invariant
            k <= row.len(),
            rv == row_view(row@),
            crate::text::seqs_of(texts@) == overlapping_texts(rv.take(k as int), lo as int, hi as int),
        decreases row.len() - k,
    {
        assert(rv.take(k + 1).drop_last() == rv.take(k as int));
        assert(rv.take(k + 1).last() == row@[k as int]@);
        let cell = &row[k];
        if cell.col_end >= lo && cell.col_start <= hi {
            let ghost before = texts@;
            texts.push(chars_of(cell.text.as_str()));
            assert(crate::text::seqs_of(texts@) =~= crate::text::seqs_of(before).push(cell.text@));
        }
        k += 1;
    }
    assert(rv.take(row.len() as int) == rv);
    crate::normalize::join_text(&texts)
}


// ------------------------------------------------------------------
// What a header label names
// ------------------------------------------------------------------

proof fn lemma_first_alias_at(label: Seq<char>, i: int, k: int)
    requires
        0 <= i <= k < 8,
        forall|q: int| i <= q < k ==> !header_alias(label, #[trigger] detail_fields()[q]),
        header_alias(label, detail_fields()[k]),
    ensures
        first_alias_from(label, i) == Some(detail_fields()[k]),
    decreases k - i,
{
    if i < k {
        lemma_first_alias_at(label, i + 1, k);
    }
}

proof fn lemma_label_field(label: Seq<char>)
    ensures
        label == "项目名称"@ || label == "货物或应税劳务服务名称"@ || label == "货物或应税劳务名称"@
            || label == "货物或应税劳务、服务名称"@ ==> first_alias_from(label, 0) == Some("name"@),
        label == "规格型号"@ ==> first_alias_from(label, 0) == Some("spec"@),
        label == "单位"@ ==> first_alias_from(label, 0) == Some("unit"@),
        label == "数量"@ ==> first_alias_from(label, 0) == Some("quantity"@),
        label == "单价"@ ==> first_alias_from(label, 0) == Some("price"@),
        label == "金额"@ ==> first_alias_from(label, 0) == Some("amount"@),
        label == "税率"@ || label == "税率征收率"@ || label == "税率/征收率"@ ==> first_alias_from(label, 0)
            == Some("tax_rate"@),
        label == "税额"@ ==> first_alias_from(label, 0) == Some("tax"@),
{
    reveal_strlit("name");
    reveal_strlit("spec");
    reveal_strlit("unit");
    reveal_strlit("quantity");
    reveal_strlit("price");
    reveal_strlit("amount");
    reveal_strlit("tax_rate");
    reveal_strlit("tax");
    reveal_strlit("项目名称");
    reveal_strlit("货物或应税劳务服务名称");
    reveal_strlit("货物或应税劳务名称");
    reveal_strlit("货物或应税劳务、服务名称");
    reveal_strlit("规格型号");
    reveal_strlit("单位");
    reveal_strlit("数量");
    reveal_strlit("单价");
    reveal_strlit("金额");
    reveal_strlit("税率");
    reveal_strlit("税率征收率");
    reveal_strlit("税率/征收率");
    reveal_strlit("税额");
    assert(detail_fields()[0] == "name"@);
    assert(detail_fields()[1] == "spec"@);
    assert(detail_fields()[2] == "unit"@);
    assert(detail_fields()[3] == "quantity"@);
    assert(detail_fields()[4] == "price"@);
    assert(detail_fields()[5] == "amount"@);
    assert(detail_fields()[6] == "tax_rate"@);
    assert(detail_fields()[7] == "tax"@);
    reveal_with_fuel(first_alias_from, 9);
    assert("spec"@[0] != "name"@[0]);
    assert("unit"@[0] != "name"@[0]);
    assert("unit"@[0] != "spec"@[0]);
    assert("tax_rate"@[0] != "quantity"@[0]);
    assert("规格型号"@[0] != "项目名称"@[0]);
    assert("数量"@[0] != "单位"@[0]);
    assert("单价"@[1] != "单位"@[1]);
    assert("金额"@[0] != "单位"@[0]);
    assert("税额"@[0] != "单位"@[0]);
    assert("金额"@[0] != "数量"@[0]);
    assert("税额"@[0] != "数量"@[0]);
    assert("金额"@[0] != "单价"@[0]);
    assert("税额"@[0] != "单价"@[0]);
    assert("税额"@[0] != "金额"@[0]);
    assert("税率"@[1] != "税额"@[1]);
    assert("单价"@[0] != "数量"@[0]);
    assert("税率"@[0] != "单位"@[0]);
    assert("税率"@[0] != "数量"@[0]);
    assert("税率"@[0] != "单价"@[0]);
    assert("税率"@[0] != "金额"@[0]);
    assert(forall|q: int| 0 <= q < 8 ==> #[trigger] detail_fields()[q] == seq![
        "name"@,
        "spec"@,
        "unit"@,
        "quantity"@,
        "price"@,
        "amount"@,
        "tax_rate"@,
        "tax"@,
    ][q]);
    assert("金额"@.len() == 2);
    assert("amount"@.len() == 6);
    assert("price"@.len() == 5);
    assert("项目名称"@.len() == 4);
    assert("货物或应税劳务服务名称"@.len() == 11);
    assert("税率征收率"@.len() == 5);
    assert("税率/征收率"@.len() == 6);
    assert(header_alias("金额"@, "amount"@));
    assert("税额"@.len() == 2);
    assert("tax"@.len() == 3);
    assert("tax_rate"@.len() == 8);
    assert("货物或应税劳务名称"@.len() == 9);
    assert("货物或应税劳务、服务名称"@.len() == 12);
    assert("税率"@.len() == 2);
    if label == "税额"@ {
        assert(!header_alias(label, detail_fields()[0]));
        assert(!header_alias(label, detail_fields()[1]));
        assert(!header_alias(label, detail_fields()[2]));
        assert(!header_alias(label, detail_fields()[3]));
        assert(!header_alias(label, detail_fields()[4]));
        assert(!header_alias(label, detail_fields()[5]));
        assert(!header_alias(label, detail_fields()[6]));
        assert(header_alias(label, detail_fields()[7]));
        lemma_first_alias_at(label, 0, 7);
    }
    if label == "金额"@ {
        assert(!header_alias(label, detail_fields()[0]));
        assert(!header_alias(label, detail_fields()[1]));
        assert(!header_alias(label, detail_fields()[2]));
        assert(!header_alias(label, detail_fields()[3]));
        assert(!header_alias(label, detail_fields()[4]));
        lemma_first_alias_at(label, 0, 5);
    }
    if label == "税率"@ || label == "税率征收率"@ || label == "税率/征收率"@ {
        assert(!header_alias(label, detail_fields()[0]));
        assert(!header_alias(label, detail_fields()[1]));
        assert(!header_alias(label, detail_fields()[2]));
        assert(!header_alias(label, detail_fields()[3]));
        assert(!header_alias(label, detail_fields()[4]));
        assert(!header_alias(label, detail_fields()[5]));
        lemma_first_alias_at(label, 0, 6);
    }
}

proof fn lemma_header_columns_at(cells: Seq<CellView>, j: int, c: usize, f: Seq<char>)
    requires
        0 <= j < cells.len(),
        cells[j].col_start <= c <= cells[j].col_end,
        forall|k: int| j < k < cells.len() ==> !(#[trigger] cells[k].col_start <= c <= cells[k].col_end),
        cell_field(cells[j]) == Some(f),
    ensures
        header_columns(cells).contains_key(c),
        header_columns(cells)[c] == f,
    decreases cells.len(),
{
    let p = cells.drop_last();
    if j < cells.len() - 1 {
        assert forall|k: int| j < k < p.len() implies !(#[trigger] p[k].col_start <= c <= p[k].col_end) by {
            assert(p[k] == cells[k]);
        }
        assert(p[j] == cells[j]);
        lemma_header_columns_at(p, j, c, f);
        let last = cells.last();
        assert(!(last.col_start <= c <= last.col_end));
    }
}

/// The columns of a header cell hold the field its label names, unless a
/// later header cell covers them: 项目名称 (and the goods-or-service name
/// labels) the name, 规格型号 the specification, 单位 the unit, 数量 the
/// quantity, 单价 the price, 金额 the amount, 税率 (or 税率/征收率) the tax
/// rate, 税额 the tax.
pub proof fn lemma_header_labels(cells: Seq<CellView>, j: int, c: usize)
    requires
        0 <= j < cells.len(),
        cells[j].col_start <= c <= cells[j].col_end,
        forall|k: int| j < k < cells.len() ==> !(#[trigger] cells[k].col_start <= c <= cells[k].col_end),
    ensures
        header_mapping_spec(cells) matches Some(m) ==> ({
            let l = normalize_label_spec(cells[j].text);
            &&& l == "项目名称"@ || l == "货物或应税劳务服务名称"@ || l == "货物或应税劳务名称"@
                || l == "货物或应税劳务、服务名称"@ ==> m.contains_key(c) && m[c] == "name"@
            &&& l == "规格型号"@ ==> m.contains_key(c) && m[c] == "spec"@
            &&& l == "单位"@ ==> m.contains_key(c) && m[c] == "unit"@
            &&& l == "数量"@ ==> m.contains_key(c) && m[c] == "quantity"@
            &&& l == "单价"@ ==> m.contains_key(c) && m[c] == "price"@
            &&& l == "金额"@ ==> m.contains_key(c) && m[c] == "amount"@
            &&& l == "税率"@ || l == "税率征收率"@ || l == "税率/征收率"@ ==> m.contains_key(c) && m[c]
                == "tax_rate"@
            &&& l == "税额"@ ==> m.contains_key(c) && m[c] == "tax"@
        }),
{
    let l = normalize_label_spec(cells[j].text);
    lemma_label_field(l);
    match first_alias_from(l, 0) {
        Some(f) => {
            lemma_header_columns_at(cells, j, c, f);
        },
        None => {},
    }
}

} // verus!
