//! Commodity detail records: the rows under the header of the commodity
//! table, assembled into one record per commodity.

use vstd::prelude::*;
use crate::column_map::ColumnMap;
use crate::header::{row_field_chars, row_field_text_spec};
use crate::html_table::{Cell, CellView, row_view, table_view};
use crate::normalize::{join_two, join_text_spec, normalize_chars, normalize_label, normalize_label_spec, normalize_text_spec};
use crate::text::{chars_of, contains, contains_str, replace_chars, replace_lit, str_eq, string_of, strs_of, trim, trim_chars};

verus! {

// ------------------------------------------------------------------
// Row labels
// ------------------------------------------------------------------

/// A subtotal row: its label normalizes to `合计` or `小计`.
pub open spec fn is_summary_label_spec(text: Seq<char>) -> bool {
    normalize_label_spec(text) == "合计"@ || normalize_label_spec(text) == "小计"@
}

/// Whether `text` labels a subtotal row.
pub fn is_summary_label(text: &str) -> (r: bool)
    ensures
        r == is_summary_label_spec(text@),
{
    let label = normalize_label(text);
    str_eq(label.as_str(), "合计") || str_eq(label.as_str(), "小计")
}

/// A grand-total row: its normalized label contains `价税合计`.
pub open spec fn is_total_label_spec(text: Seq<char>) -> bool {
    contains(normalize_label_spec(text), "价税合计"@)
}

/// Whether `text` labels the grand-total row.
pub fn is_total_label(text: &str) -> (r: bool)
    ensures
        r == is_total_label_spec(text@),
{
    let label = normalize_label(text);
    let v = chars_of(label.as_str());
    contains_str(v.as_slice(), "价税合计")
}

// ------------------------------------------------------------------
// Detail records
// ------------------------------------------------------------------

/// The position of a detail field in a record: name, spec, unit, quantity,
/// price, amount, tax_rate, tax.
pub open spec fn field_index(field: Seq<char>) -> Option<int> {
    if field == "name"@ {
        Some(0)
    } else if field == "spec"@ {
        Some(1)
    } else if field == "unit"@ {
        Some(2)
    } else if field == "quantity"@ {
        Some(3)
    } else if field == "price"@ {
        Some(4)
    } else if field == "amount"@ {
        Some(5)
    } else if field == "tax_rate"@ {
        Some(6)
    } else if field == "tax"@ {
        Some(7)
    } else {
        None
    }
}

/// One commodity: the texts of its eight detail fields.
pub struct Detail {
    values: Vec<String>,
}

impl View for Detail {
    type V = Seq<Seq<char>>;

    closed spec fn view(&self) -> Seq<Seq<char>> {
        strs_of(self.values@)
    }
}

impl Detail {
    #[verifier::type_invariant]
    spec fn inv(self) -> bool {
        self.values@.len() == 8
    }

    /// The text of field `i`.
    pub(crate) fn value(&self, i: usize) -> (r: &String)
        requires
            i < 8,
        ensures
            r@ == self@[i as int],
    {
        proof {
            use_type_invariant(self);
        }
        &self.values[i]
    }

    /// The text of a detail field; `None` for a name that is not one.
    pub fn get(&self, field: &str) -> (r: Option<&String>)
        ensures
            match field_index(field@) {
                Some(i) => r matches Some(v) && v@ == self@[i],
                None => r is None,
            },
    {
        if str_eq(field, "name") {
            Some(self.value(0))
        } else if str_eq(field, "spec") {
            Some(self.value(1))
        } else if str_eq(field, "unit") {
            Some(self.value(2))
        } else if str_eq(field, "quantity") {
            Some(self.value(3))
        } else if str_eq(field, "price") {
            Some(self.value(4))
        } else if str_eq(field, "amount") {
            Some(self.value(5))
        } else if str_eq(field, "tax_rate") {
            Some(self.value(6))
        } else if str_eq(field, "tax") {
            Some(self.value(7))
        } else {
            None
        }
    }
}

/// Some field in `lo..hi` has a text.
pub open spec fn any_nonempty(v: Seq<Seq<char>>, lo: int, hi: int) -> bool {
    exists|i: int| lo <= i < hi && #[trigger] v[i].len() > 0
}

fn any_nonempty_exec(d: &Detail, lo: usize, hi: usize) -> (r: bool)
    requires
        lo <= hi <= 8,
    ensures
        r == any_nonempty(d@, lo as int, hi as int),
{
    let mut i = lo;
    while i < hi
        invariant
            lo <= i <= hi <= 8,
            forall|k: int| lo <= k < i ==> #[trigger] d@[k].len() == 0,
        decreases hi - i,
    {
        if !d.value(i).as_str().is_empty() {
            return true;
        }
        i += 1;
    }
    false
}

/// The view of an optional record.
pub open spec fn opt_view(d: Option<Detail>) -> Option<Seq<Seq<char>>> {
    match d {
        Some(x) => Some(x@),
        None => None,
    }
}

/// Whether the row values `v` start a new commodity rather than continue
/// the current one: they hold some text, and either there is no current
/// record, or they name a commodity while the current record already has a
/// numeric field, and the name starts with `*` or the row has a numeric
/// field itself.
pub open spec fn detail_is_new_spec(v: Seq<Seq<char>>, current: Option<Seq<Seq<char>>>) -> bool {
    if !any_nonempty(v, 0, 8) {
        false
    } else {
        match current {
            None => true,
            Some(c) => if v[0].len() == 0 {
                false
            } else if !any_nonempty(c, 3, 8) {
                false
            } else {
                v[0][0] == '*' || any_nonempty(v, 3, 8)
            },
        }
    }
}

/// Whether `values` start a new commodity (see `detail_is_new_spec`).
pub fn detail_is_new(values: &Detail, current: &Option<Detail>) -> (r: bool)
    ensures
        r == detail_is_new_spec(values@, opt_view(*current)),
{
    if !any_nonempty_exec(values, 0, 8) {
        return false;
    }
    match current {
        None => true,
        Some(cur) => {
            let name = values.value(0);
            if name.as_str().is_empty() {
                return false;
            }
            if !any_nonempty_exec(cur, 3, 8) {
                return false;
            }
            let nv = chars_of(name.as_str());
            nv[0] == '*' || any_nonempty_exec(values, 3, 8)
        },
    }
}

/// A text normalized to a single line.
pub open spec fn one_line(s: Seq<char>) -> Seq<char> {
    replace_lit(normalize_text_spec(s), "\n"@, " "@)
}

/// The text of a wrapped field: both parts normalized to single lines; an
/// empty or repeated continuation is dropped, otherwise they are joined.
pub open spec fn merge_text_spec(prev: Seq<char>, next: Seq<char>) -> Seq<char> {
    let o = one_line(prev);
    let n = one_line(next);
    if o.len() == 0 {
        n
    } else if n.len() == 0 || n == o {
        o
    } else {
        join_text_spec(seq![o, n])
    }
}

fn one_line_chars(s: &str) -> (r: Vec<char>)
    ensures
        r@ == one_line(s@),
{
    let v = chars_of(s);
    let n = normalize_chars(v.as_slice());
    replace_chars(n.as_slice(), "\n", " ")
}

/// Merges the text of a field wrapped over two rows (see `merge_text_spec`).
pub fn merge_detail_text(prev: &str, next: &str) -> (r: String)
    ensures
        r@ == merge_text_spec(prev@, next@),
{
    let o = one_line_chars(prev);
    let n = one_line_chars(next);
    if o.len() == 0 {
        return string_of(n.as_slice());
    }
    if n.len() == 0 || crate::text::chars_eq(n.as_slice(), o.as_slice()) {
        return string_of(o.as_slice());
    }
    let j = join_two(o.as_slice(), n.as_slice());
    string_of(j.as_slice())
}

/// Field `i` of a record after a continuation row: an empty continuation
/// changes nothing; name, spec and unit are merged as wrapped text; the
/// numeric fields keep their first non-empty value.
pub open spec fn merge_field(i: int, prev: Seq<char>, next: Seq<char>) -> Seq<char> {
    if next.len() == 0 {
        prev
    } else if i < 3 {
        merge_text_spec(prev, next)
    } else if prev.len() == 0 {
        next
    } else {
        prev
    }
}

/// A record after merging a continuation row into it.
pub open spec fn merge_spec(prev: Seq<Seq<char>>, next: Seq<Seq<char>>) -> Seq<Seq<char>> {
    Seq::new(8, |i: int| merge_field(i, prev[i], next[i]))
}

/// Merges the continuation row `incoming` into `record` (see `merge_spec`).
pub fn merge_detail_record(record: &mut Detail, incoming: &Detail)
    ensures
        final(record)@ == merge_spec(old(record)@, incoming@),
{
    let mut nv: Vec<String> = Vec::new();
    let mut i: usize = 0;
    while i < 8
        invariant
            i <= 8,
            nv@.len() == i,
            forall|k: int| 0 <= k < i ==> #[trigger] nv@[k]@ == merge_field(k, record@[k], incoming@[k]),
        decreases 8 - i,
    {
        let o = record.value(i);
        let n = incoming.value(i);
        let v = if n.as_str().is_empty() {
            o.clone()
        } else if i < 3 {
            merge_detail_text(o.as_str(), n.as_str())
        } else if o.as_str().is_empty() {
            n.clone()
        } else {
            o.clone()
        };
        nv.push(v);
        i += 1;
    }
    let ghost expected = merge_spec(record@, incoming@);
    *record = Detail { values: nv };
    assert(record@ =~= expected);
}

// ------------------------------------------------------------------
// Row values and record assembly
// ------------------------------------------------------------------

/// Name, spec and unit become single trimmed lines; the others stay as read.
pub open spec fn cleaned(text_field: bool, v: Seq<char>) -> Seq<char> {
    if text_field {
        trim(replace_lit(v, "\n"@, " "@))
    } else {
        v
    }
}

/// The detail values a row holds under the header mapping.
pub open spec fn row_values_spec(row: Seq<CellView>, m: Map<usize, Seq<char>>) -> Seq<Seq<char>> {
    seq![
        cleaned(true, row_field_text_spec(row, m, "name"@)),
        cleaned(true, row_field_text_spec(row, m, "spec"@)),
        cleaned(true, row_field_text_spec(row, m, "unit"@)),
        cleaned(false, row_field_text_spec(row, m, "quantity"@)),
        cleaned(false, row_field_text_spec(row, m, "price"@)),
        cleaned(false, row_field_text_spec(row, m, "amount"@)),
        cleaned(false, row_field_text_spec(row, m, "tax_rate"@)),
        cleaned(false, row_field_text_spec(row, m, "tax"@)),
    ]
}

fn cleaned_field(row: &[Cell], mapping: &ColumnMap, field: &str, text_field: bool) -> (r: String)
    ensures
        r@ == cleaned(text_field, row_field_text_spec(row_view(row@), mapping@, field@)),
{
    let v = row_field_chars(row, mapping, field);
    if text_field {
        let s = replace_chars(v.as_slice(), "\n", " ");
        let t = trim_chars(s.as_slice());
        string_of(t.as_slice())
    } else {
        string_of(v.as_slice())
    }
}

/// The detail values of one row.
fn row_values(row: &[Cell], mapping: &ColumnMap) -> (r: Detail)
    ensures
        r@ == row_values_spec(row_view(row@), mapping@),
{
    let mut values: Vec<String> = Vec::new();
    values.push(cleaned_field(row, mapping, "name", true));
    values.push(cleaned_field(row, mapping, "spec", true));
    values.push(cleaned_field(row, mapping, "unit", true));
    values.push(cleaned_field(row, mapping, "quantity", false));
    values.push(cleaned_field(row, mapping, "price", false));
    values.push(cleaned_field(row, mapping, "amount", false));
    values.push(cleaned_field(row, mapping, "tax_rate", false));
    values.push(cleaned_field(row, mapping, "tax", false));
    let d = Detail { values };
    assert(d@ =~= row_values_spec(row_view(row@), mapping@));
    d
}

/// The finished records and the record being assembled.
pub type DetailState = (Seq<Seq<Seq<char>>>, Option<Seq<Seq<char>>>);

/// One row processed: an empty row is skipped; a row that starts a new
/// commodity finishes the current record; any other row is merged into it.
pub open spec fn details_step(st: DetailState, v: Seq<Seq<char>>) -> DetailState {
    if !any_nonempty(v, 0, 8) {
        st
    } else if detail_is_new_spec(v, st.1) {
        (
            match st.1 {
                Some(c) => st.0.push(c),
                None => st.0,
            },
            Some(v),
        )
    } else {
        match st.1 {
            Some(c) => (st.0, Some(merge_spec(c, v))),
            None => (st.0, Some(v)),
        }
    }
}

/// The state after the rows `from..k`.
pub open spec fn details_upto(
    rows: Seq<Seq<CellView>>,
    m: Map<usize, Seq<char>>,
    from: int,
    k: int,
) -> DetailState
    decreases k - from,
{
    if k <= from {
        (Seq::empty(), None)
    } else {
        details_step(details_upto(rows, m, from, k - 1), row_values_spec(rows[k - 1], m))
    }
}

/// Where detail rows end: at the stop row if it is inside the table.
pub open spec fn detail_end(rows: Seq<Seq<CellView>>, stop: Option<usize>) -> int {
    match stop {
        Some(e) => if e < rows.len() {
            e as int
        } else {
            rows.len() as int
        },
        None => rows.len() as int,
    }
}

/// The commodity records of the rows after the header and before the stop
/// row (or the end of the table).
pub open spec fn details_spec(
    rows: Seq<Seq<CellView>>,
    header: int,
    m: Map<usize, Seq<char>>,
    stop: Option<usize>,
) -> Seq<Seq<Seq<char>>> {
    let st = details_upto(rows, m, header + 1, detail_end(rows, stop));
    match st.1 {
        Some(c) => st.0.push(c),
        None => st.0,
    }
}

/// The views of a list of records.
pub open spec fn details_view(d: Seq<Detail>) -> Seq<Seq<Seq<char>>> {
    d.map_values(|x: Detail| x@)
}

/// The commodity records of a table (see `details_spec`).
pub fn parse_details(
    rows: &[Vec<Cell>],
    header_index: usize,
    mapping: &ColumnMap,
    stop_index: Option<usize>,
) -> (r: Vec<Detail>)
    requires
        header_index < usize::MAX,
    ensures
        details_view(r@) == details_spec(table_view(rows@), header_index as int, mapping@, stop_index),
{
    let end: usize = match stop_index {
        Some(e) => if e < rows.len() {
            e
        } else {
            rows.len()
        },
        None => rows.len(),
    };
    let ghost tv = table_view(rows@);
    let ghost m = mapping@;
    let ghost from = header_index + 1;
    let mut records: Vec<Detail> = Vec::new();
    let mut current: Option<Detail> = None;
    let mut k: usize = header_index + 1;
    assert(details_view(records@) =~= Seq::<Seq<Seq<char>>>::empty());
    while k < end
        invariant
            from <= k,
            k <= end || k == from,
            end <= rows.len(),
            end == detail_end(tv, stop_index),
            tv == table_view(rows@),
            m == mapping@,
            (details_view(records@), opt_view(current)) == details_upto(tv, m, from, k as int),
        decreases end - k,
    {
        assert(tv[k as int] == row_view(rows@[k as int]@));
        let values = row_values(rows[k].as_slice(), mapping);
        let ghost st = details_upto(tv, m, from, k as int);
        let ghost before = records@;
        if any_nonempty_exec(&values, 0, 8) {
            if detail_is_new(&values, &current) {
                match current {
                    Some(c) => {
                        records.push(c);
                        assert(details_view(records@) =~= details_view(before).push(c@));
                    },
                    None => {},
                }
                current = Some(values);
            } else {
                match current {
                    Some(c) => {
                        let mut c = c;
                        merge_detail_record(&mut c, &values);
                        current = Some(c);
                    },
                    None => {
                        current = Some(values);
                    },
                }
            }
        }
        k += 1;
    }
    assert(details_upto(tv, m, from, k as int) == details_upto(tv, m, from, end as int));
    match current {
        Some(c) => {
            let ghost before = records@;
            records.push(c);
            assert(details_view(records@) =~= details_view(before).push(c@));
        },
        None => {},
    }
    records
}


/// The values of a detail row, field by field: the name, specification
/// and unit read as single trimmed lines from the columns the header names
/// `name`, `spec` and `unit`; the quantity, price, amount, tax rate and tax
/// as read from the columns of `quantity`, `price`, `amount`, `tax_rate`
/// and `tax`.
pub proof fn lemma_row_values_fields(row: Seq<CellView>, m: Map<usize, Seq<char>>)
    ensures
        ({
            let v = row_values_spec(row, m);
            &&& v.len() == 8
            &&& v[0] == trim(replace_lit(row_field_text_spec(row, m, "name"@), "\n"@, " "@))
            &&& v[1] == trim(replace_lit(row_field_text_spec(row, m, "spec"@), "\n"@, " "@))
            &&& v[2] == trim(replace_lit(row_field_text_spec(row, m, "unit"@), "\n"@, " "@))
            &&& v[3] == row_field_text_spec(row, m, "quantity"@)
            &&& v[4] == row_field_text_spec(row, m, "price"@)
            &&& v[5] == row_field_text_spec(row, m, "amount"@)
            &&& v[6] == row_field_text_spec(row, m, "tax_rate"@)
            &&& v[7] == row_field_text_spec(row, m, "tax"@)
        }),
{
}


/// Subtotal and grand-total labels: a row labelled 小计 or 合计 (spaces and
/// punctuation aside) is a subtotal row and nothing else is; a label that
/// contains 价税合计 marks the grand-total row, which is no subtotal row.
pub proof fn lemma_row_labels(text: Seq<char>)
    ensures
        normalize_label_spec(text) == "小计"@ ==> is_summary_label_spec(text),
        normalize_label_spec(text) == "合计"@ ==> is_summary_label_spec(text),
        normalize_label_spec(text) != "小计"@ && normalize_label_spec(text) != "合计"@ ==> !is_summary_label_spec(
            text,
        ),
        contains(normalize_label_spec(text), "价税合计"@) ==> is_total_label_spec(text) && !is_summary_label_spec(
            text,
        ),
{
    reveal_strlit("小计");
    reveal_strlit("合计");
    reveal_strlit("价税合计");
    let l = normalize_label_spec(text);
    if contains(l, "价税合计"@) {
        let i = choose|i: int| crate::text::occurs_at(l, "价税合计"@, i);
        assert(l.len() >= 4);
    }
}

} // verus!
