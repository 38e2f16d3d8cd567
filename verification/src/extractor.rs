//! The sparse invoice fields of one recognized page.

use vstd::prelude::*;
use crate::column_map::ColumnMap;
use crate::details::{
    Detail, details_spec, details_view, is_summary_label, is_summary_label_spec, is_total_label,
    is_total_label_spec, one_line, parse_details,
};
use crate::field_map::FieldMap;
use crate::header::{find_table_and_header, table_and_header};
use crate::html_table::{Cell, CellView, table_view};
use crate::metadata::{Block, blocks_view, extract_metadata, metadata_spec};
use crate::normalize::normalize_text;
use crate::parties::{extract_party_and_footer, party_rows};
use crate::row_list::{json_list, make_row_list, row_list_json, row_list_spec};
use crate::text::{replace_chars, string_of, strs_of, chars_of};
use crate::totals::{extract_summary, extract_total, summary_spec, total_spec};

verus! {

/// `base` with the entries of `extra` whose keys it lacks.
pub open spec fn absent_union(base: Map<Seq<char>, Seq<char>>, extra: Map<Seq<char>, Seq<char>>) -> Map<
    Seq<char>,
    Seq<char>,
> {
    extra.union_prefer_right(base)
}

/// Adds the entries of `src` whose keys `dst` lacks.
pub fn merge_absent(dst: &mut FieldMap, src: &FieldMap)
    ensures
        final(dst)@ == absent_union(old(dst)@, src@),
{
    let keys = src.keys();
    let ghost start = dst@;
    let ghost sm = src@;
    let mut i: usize = 0;
    while i < keys.len()
        invariant
            i <= keys.len(),
            sm == src@,
            forall|j: int| 0 <= j < keys@.len() ==> sm.contains_key(#[trigger] keys@[j]@),
            forall|k: Seq<char>| #[trigger] dst@.contains_key(k) <==> start.contains_key(k) || exists|j: int|
                0 <= j < i && keys@[j]@ == k,
            forall|k: Seq<char>| start.contains_key(k) ==> #[trigger] dst@[k] == start[k],
            forall|k: Seq<char>| !start.contains_key(k) && #[trigger] dst@.contains_key(k) ==> dst@[k] == sm[k],
        decreases keys.len() - i,
    {
        let k = &keys[i];
        match src.get(k.as_str()) {
            Some(v) => {
                dst.insert_if_absent(k.clone(), v.clone());
            },
            None => {},
        }
        proof {
            assert forall|q: Seq<char>| #[trigger] dst@.contains_key(q) <==> start.contains_key(q) || exists|j: int|
                0 <= j < i + 1 && keys@[j]@ == q by {
                if q == keys@[i as int]@ {
                    assert(keys@[i as int]@ == q);
                }
                if exists|j: int| 0 <= j < i + 1 && keys@[j]@ == q {
                    let j = choose|j: int| 0 <= j < i + 1 && keys@[j]@ == q;
                    if j < i {
                        assert(exists|j2: int| 0 <= j2 < i && keys@[j2]@ == q);
                    }
                }
            }
        }
        i += 1;
    }
    proof {
        assert(dst@ =~= absent_union(start, sm)) by {
            assert forall|k: Seq<char>| #[trigger] dst@.contains_key(k) <==> absent_union(start, sm).contains_key(k) by {
                if sm.contains_key(k) {
                    assert(crate::text::strs_of(keys@).contains(k));
                    let j = choose|j: int| 0 <= j < keys@.len() && crate::text::strs_of(keys@)[j] == k;
                    assert(keys@[j]@ == k);
                }
            }
        }
    }
}

/// The text of a row's first cell (empty for an empty row).
pub open spec fn first_text(row: Seq<CellView>) -> Seq<char> {
    if row.len() > 0 {
        row[0].text
    } else {
        Seq::empty()
    }
}

/// From row `k` on: the first subtotal row (unless one was found before)
/// and the first grand-total row, where the scan stops.
pub open spec fn scan_rows(rows: Seq<Seq<CellView>>, k: int, summary: Option<usize>) -> (Option<usize>, Option<usize>)
    decreases rows.len() - k,
{
    if k < 0 || k >= rows.len() {
        (summary, None)
    } else {
        let f = first_text(rows[k]);
        let s2 = if summary is None && is_summary_label_spec(f) {
            Some(k as usize)
        } else {
            summary
        };
        if is_total_label_spec(f) {
            (s2, Some(k as usize))
        } else {
            scan_rows(rows, k + 1, s2)
        }
    }
}

/// Field `i` of every record.
pub open spec fn field_column(details: Seq<Seq<Seq<char>>>, i: int) -> Seq<Seq<char>> {
    details.map_values(|d: Seq<Seq<char>>| d[i])
}

/// The names of every record, each on a single line.
pub open spec fn name_column(details: Seq<Seq<Seq<char>>>) -> Seq<Seq<char>> {
    details.map_values(|d: Seq<Seq<char>>| one_line(d[0]))
}

/// The JSON row list of some values.
pub open spec fn list_json(values: Seq<Seq<char>>) -> Seq<char> {
    json_list(row_list_spec(values))
}

/// `m` with the commodity list fields of the records (none when there are
/// no records).
pub open spec fn with_details(m: Map<Seq<char>, Seq<char>>, details: Seq<Seq<Seq<char>>>) -> Map<
    Seq<char>,
    Seq<char>,
> {
    if details.len() == 0 {
        m
    } else {
        m.insert("CommodityAmount"@, list_json(field_column(details, 5))).insert(
            "CommodityTax"@,
            list_json(field_column(details, 7)),
        ).insert("CommodityTaxRate"@, list_json(field_column(details, 6))).insert(
            "CommodityNum"@,
            list_json(field_column(details, 3)),
        ).insert("CommodityPrice"@, list_json(field_column(details, 4))).insert(
            "CommodityUnit"@,
            list_json(field_column(details, 2)),
        ).insert("CommodityType"@, list_json(field_column(details, 1))).insert(
            "CommodityName"@,
            list_json(name_column(details)),
        )
    }
}

/// The sparse fields of a page: its metadata; then, when it has a
/// commodity table, the party and footer fields it lacks, the commodity
/// lists (read up to the subtotal row, or else the grand-total row), and
/// the subtotal and grand-total amounts it lacks.
pub open spec fn parse_invoice_spec(markdown: Seq<char>, blocks: Seq<(Seq<char>, Seq<char>)>) -> Map<
    Seq<char>,
    Seq<char>,
> {
    let meta = metadata_spec(markdown, blocks);
    match table_and_header(markdown) {
        None => meta,
        Some((rows, h, m)) => {
            let r1 = absent_union(meta, party_rows(rows, rows.len() as int));
            let idx = scan_rows(rows, h + 1, None);
            let stop = match idx.0 {
                Some(s) => Some(s),
                None => idx.1,
            };
            let r2 = with_details(r1, details_spec(rows, h, m, stop));
            let r3 = absent_union(r2, summary_spec(rows, m, idx.0));
            absent_union(r3, total_spec(rows, idx.1))
        },
    }
}

fn column_json(details: &Vec<Detail>, i: usize) -> (r: String)
    requires
        i < 8,
    ensures
        r@ == list_json(field_column(details_view(details@), i as int)),
{
    let ghost dv = details_view(details@);
    let mut values: Vec<String> = Vec::new();
    let mut k: usize = 0;
    while k < details.len()
        invariant
            k <= details.len(),
            i < 8,
            dv == details_view(details@),
            values.deep_view() == field_column(dv, i as int).take(k as int),
        decreases details.len() - k,
    {
        let ghost before = values.deep_view();
        values.push(details[k].value(i).clone());
        assert(values.deep_view() =~= before.push(details@[k as int]@[i as int]));
        assert(field_column(dv, i as int).take(k + 1) =~= field_column(dv, i as int).take(k as int).push(
            dv[k as int][i as int],
        ));
        k += 1;
    }
    assert(field_column(dv, i as int).take(details.len() as int) =~= field_column(dv, i as int));
    let list = make_row_list(&values);
    row_list_json(&list)
}

fn name_json(details: &Vec<Detail>) -> (r: String)
    ensures
        r@ == list_json(name_column(details_view(details@))),
{
    let ghost dv = details_view(details@);
    let mut values: Vec<String> = Vec::new();
    let mut k: usize = 0;
    while k < details.len()
        invariant
            k <= details.len(),
            dv == details_view(details@),
            values.deep_view() == name_column(dv).take(k as int),
        decreases details.len() - k,
    {
        let n = normalize_text(details[k].value(0).as_str());
        let nv = chars_of(n.as_str());
        let line = replace_chars(nv.as_slice(), "\n", " ");
        let ghost before = values.deep_view();
        values.push(string_of(line.as_slice()));
        assert(values.deep_view() =~= before.push(one_line(dv[k as int][0])));
        assert(name_column(dv).take(k + 1) =~= name_column(dv).take(k as int).push(one_line(dv[k as int][0])));
        k += 1;
    }
    assert(name_column(dv).take(details.len() as int) =~= name_column(dv));
    let list = make_row_list(&values);
    row_list_json(&list)
}

/// The sparse invoice fields of one page (see `parse_invoice_spec`).
pub fn parse_invoice_from_markdown(markdown_text: &str, blocks: &[Block]) -> (r: FieldMap)
    ensures
        r@ == parse_invoice_spec(markdown_text@, blocks_view(blocks@)),
{
    let mut result = extract_metadata(markdown_text, blocks);
    match find_table_and_header(markdown_text) {
        None => result,
        Some((rows, header_index, mapping)) => {
            let ghost tv = table_view(rows@);
            let party = extract_party_and_footer(rows.as_slice());
            merge_absent(&mut result, &party);
            let mut summary_index: Option<usize> = None;
            let mut total_index: Option<usize> = None;
            assert(header_index < rows@.len());
            assert(header_index < rows.len());
            let mut idx: usize = header_index + 1;
            while idx < rows.len() && total_index.is_none()
                invariant
                    header_index < rows.len(),
                    header_index + 1 <= idx <= rows.len(),
                    tv == table_view(rows@),
                    summary_index matches Some(s) ==> s < rows.len(),
                    total_index matches Some(t) ==> t < rows.len(),
                    total_index is None ==> scan_rows(tv, header_index + 1, None) == scan_rows(
                        tv,
                        idx as int,
                        summary_index,
                    ),
                    total_index is Some ==> scan_rows(tv, header_index + 1, None) == (
                        summary_index,
                        total_index,
                    ),
                decreases rows.len() - idx + (if total_index is None { 1int } else { 0int }),
            {
                assert(tv[idx as int] == crate::html_table::row_view(rows@[idx as int]@));
                let first: &str = if rows[idx].len() > 0 {
                    assert(tv[idx as int][0] == rows@[idx as int]@[0]@);
                    rows[idx][0].text.as_str()
                } else {
                    ""
                };
                proof {
                    if rows@[idx as int]@.len() == 0 {
                        reveal_strlit("");
                    }
                }
                assert(first@ == first_text(tv[idx as int]));
                if summary_index.is_none() && is_summary_label(first) {
                    summary_index = Some(idx);
                }
                if is_total_label(first) {
                    total_index = Some(idx);
                } else {
                    idx += 1;
                }
            }
            let detail_stop = match summary_index {
                Some(s) => Some(s),
                None => total_index,
            };
            let details = parse_details(rows.as_slice(), header_index, &mapping, detail_stop);
            if details.len() > 0 {
                result.insert("CommodityAmount".to_owned(), column_json(&details, 5));
                result.insert("CommodityTax".to_owned(), column_json(&details, 7));
                result.insert("CommodityTaxRate".to_owned(), column_json(&details, 6));
                result.insert("CommodityNum".to_owned(), column_json(&details, 3));
                result.insert("CommodityPrice".to_owned(), column_json(&details, 4));
                result.insert("CommodityUnit".to_owned(), column_json(&details, 2));
                result.insert("CommodityType".to_owned(), column_json(&details, 1));
                result.insert("CommodityName".to_owned(), name_json(&details));
            }
            let summary = extract_summary(rows.as_slice(), &mapping, summary_index);
            merge_absent(&mut result, &summary);
            let total = extract_total(rows.as_slice(), total_index);
            merge_absent(&mut result, &total);
            result
        },
    }
}

} // verus!
