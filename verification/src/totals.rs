//! The subtotal row and the grand-total row of the commodity table.

use vstd::prelude::*;
use crate::column_map::ColumnMap;
use crate::field_map::FieldMap;
use crate::html_table::{Cell, CellView, row_view, table_view};
use crate::normalize::{join_chars, join_with, money_tokens, money_tokens_spec, normalize_chars, normalize_text_spec};
use crate::regex_ops::{re_replace_first, re_split_once, replace_first, split_once};
use crate::text::{chars_of, seqs_of, slice_chars, str_eq, string_of, trim, trim_str};

verus! {

// ------------------------------------------------------------------
// Subtotal
// ------------------------------------------------------------------

/// Some column spanned by the cell holds `f` in the header mapping.
pub open spec fn maps_field(m: Map<usize, Seq<char>>, c: CellView, f: Seq<char>) -> bool {
    exists|col: usize| c.col_start <= col <= c.col_end && #[trigger] m.contains_key(col) && m[col] == f
}

fn cell_maps_field(cell: &Cell, mapping: &ColumnMap, field: &str) -> (r: bool)
    ensures
        r == maps_field(mapping@, cell@, field@),
{
    let keys = mapping.keys();
    let ghost m = mapping@;
    let mut i: usize = 0;
    while i < keys.len()
        invariant
            i <= keys.len(),
            m == mapping@,
            forall|j: int| 0 <= j < keys@.len() ==> m.contains_key(#[trigger] keys@[j]),
            forall|k: usize| m.contains_key(k) ==> keys@.contains(k),
            forall|j: int|
                0 <= j < i ==> !(cell.col_start <= #[trigger] keys@[j] <= cell.col_end && m[keys@[j]]
                    == field@),
        decreases keys.len() - i,
    {
        let c = keys[i];
        if cell.col_start <= c && c <= cell.col_end {
            match mapping.get(c) {
                Some(f) => {
                    if str_eq(f.as_str(), field) {
                        return true;
                    }
                },
                None => {},
            }
        }
        i += 1;
    }
    assert(!maps_field(m, cell@, field@)) by {
        if maps_field(m, cell@, field@) {
            let col = choose|col: usize|
                cell.col_start <= col <= cell.col_end && #[trigger] m.contains_key(col) && m[col]
                    == field@;
            assert(keys@.contains(col));
            let j = choose|j: int| 0 <= j < keys@.len() && keys@[j] == col;
            assert(!(cell.col_start <= keys@[j] <= cell.col_end && m[keys@[j]] == field@));
        }
    }
    false
}

/// The amount values and tax values collected so far.
pub type Amounts = (Seq<Seq<char>>, Seq<Seq<char>>);

/// One subtotal cell read: its amounts go to the amount list when it lies
/// under the amount column only, to the tax list when under the tax column
/// only; otherwise its first amount fills an empty amount list and its
/// second an empty tax list.
pub open spec fn summary_step(st: Amounts, m: Map<usize, Seq<char>>, c: CellView) -> Amounts {
    let tokens = money_tokens_spec(c.text);
    if tokens.len() == 0 {
        st
    } else {
        let a = maps_field(m, c, "amount"@);
        let t = maps_field(m, c, "tax"@);
        if a && !t {
            (st.0 + tokens, st.1)
        } else if t && !a {
            (st.0, st.1 + tokens)
        } else {
            (
                if st.0.len() == 0 {
                    st.0.push(tokens[0])
                } else {
                    st.0
                },
                if tokens.len() > 1 && st.1.len() == 0 {
                    st.1.push(tokens[1])
                } else {
                    st.1
                },
            )
        }
    }
}

/// The amounts collected from the cells of a row.
pub open spec fn summary_fold(cells: Seq<CellView>, m: Map<usize, Seq<char>>) -> Amounts
    decreases cells.len(),
{
    if cells.len() == 0 {
        (Seq::empty(), Seq::empty())
    } else {
        summary_step(summary_fold(cells.drop_last(), m), m, cells.last())
    }
}

/// `TotalAmount` and `TotalTax` of the subtotal row: the first amount and
/// the first tax collected, when there are any.
pub open spec fn summary_spec(rows: Seq<Seq<CellView>>, m: Map<usize, Seq<char>>, idx: Option<usize>) -> Map<
    Seq<char>,
    Seq<char>,
> {
    match idx {
        None => Map::empty(),
        Some(i) => {
            let st = summary_fold(rows[i as int], m);
            let r1 = if st.0.len() > 0 {
                Map::empty().insert("TotalAmount"@, st.0[0])
            } else {
                Map::empty()
            };
            if st.1.len() > 0 {
                r1.insert("TotalTax"@, st.1[0])
            } else {
                r1
            }
        },
    }
}

fn copy_chars(v: &Vec<char>) -> (r: Vec<char>)
    ensures
        r@ == v@,
{
    let c = slice_chars(v.as_slice(), 0, v.len());
    assert(c@ =~= v@);
    c
}

fn extend_all(dst: &mut Vec<Vec<char>>, src: &Vec<Vec<char>>)
    ensures
        seqs_of(final(dst)@) == seqs_of(old(dst)@) + seqs_of(src@),
{
    let ghost start = seqs_of(dst@);
    let mut i: usize = 0;
    while i < src.len()
        invariant
            i <= src.len(),
            seqs_of(dst@) == start + seqs_of(src@).take(i as int),
        decreases src.len() - i,
    {
        let ghost before = dst@;
        dst.push(copy_chars(&src[i]));
        assert(seqs_of(dst@) =~= seqs_of(before).push(src@[i as int]@));
        assert(seqs_of(src@).take(i + 1) =~= seqs_of(src@).take(i as int).push(src@[i as int]@));
        i += 1;
    }
    assert(seqs_of(src@).take(src.len() as int) =~= seqs_of(src@));
}

/// The totals of the subtotal row (see `summary_spec`).
pub fn extract_summary(rows: &[Vec<Cell>], mapping: &ColumnMap, summary_index: Option<usize>) -> (r: FieldMap)
    requires
        summary_index matches Some(i) ==> i < rows@.len(),
    ensures
        r@ == summary_spec(table_view(rows@), mapping@, summary_index),
{
    let mut result = FieldMap::new();
    let idx = match summary_index {
        Some(i) => i,
        None => {
            return result;
        },
    };
    let row = &rows[idx];
    let ghost rv = row_view(row@);
    assert(table_view(rows@)[idx as int] == rv);
    let ghost m = mapping@;
    let mut amounts: Vec<Vec<char>> = Vec::new();
    let mut taxes: Vec<Vec<char>> = Vec::new();
    let mut k: usize = 0;
    assert(rv.take(0) =~= Seq::<CellView>::empty());
    assert(seqs_of(amounts@) =~= Seq::<Seq<char>>::empty());
    assert(seqs_of(taxes@) =~= Seq::<Seq<char>>::empty());
    while k < row.len()
        invariant
            k <= row.len(),
            rv == row_view(row@),
            m == mapping@,
            (seqs_of(amounts@), seqs_of(taxes@)) == summary_fold(rv.take(k as int), m),
        decreases row.len() - k,
    {
        assert(rv.take(k + 1).drop_last() == rv.take(k as int));
        assert(rv.take(k + 1).last() == row@[k as int]@);
        let cell = &row[k];
        let tv = chars_of(cell.text.as_str());
        let tokens = money_tokens(tv.as_slice());
        if tokens.len() > 0 {
            let a = cell_maps_field(cell, mapping, "amount");
            let t = cell_maps_field(cell, mapping, "tax");
            if a && !t {
                extend_all(&mut amounts, &tokens);
            } else if t && !a {
                extend_all(&mut taxes, &tokens);
            } else {
                if amounts.len() == 0 {
                    let ghost before = amounts@;
                    amounts.push(copy_chars(&tokens[0]));
                    assert(seqs_of(amounts@) =~= seqs_of(before).push(tokens@[0]@));
                }
                if tokens.len() > 1 && taxes.len() == 0 {
                    let ghost before = taxes@;
                    taxes.push(copy_chars(&tokens[1]));
                    assert(seqs_of(taxes@) =~= seqs_of(before).push(tokens@[1]@));
                }
            }
        }
        k += 1;
    }
    assert(rv.take(row.len() as int) == rv);
    if amounts.len() > 0 {
        result.insert("TotalAmount".to_owned(), string_of(amounts[0].as_slice()));
    }
    if taxes.len() > 0 {
        result.insert("TotalTax".to_owned(), string_of(taxes[0].as_slice()));
    }
    result
}

// ------------------------------------------------------------------
// Grand total
// ------------------------------------------------------------------

/// The `(小写)` marker between the amount in words and in figures.
pub open spec fn marker_pattern() -> Seq<char> {
    "[（(]\\s*小写\\s*[）)]"@
}

/// Decoration symbols before the amount in words.
pub open spec fn decor_pattern() -> Seq<char> {
    "^[⊗·•]+"@
}

/// The `价税合计(大写)` label inside the words.
pub open spec fn upper_label_pattern() -> Seq<char> {
    "价税合计[（(]大写[）)]"@
}

/// The texts of some cells.
pub open spec fn cell_texts(cells: Seq<CellView>) -> Seq<Seq<char>> {
    cells.map_values(|c: CellView| c.text)
}

/// The words part and the figures part of a grand-total row: split at the
/// `(小写)` marker of the normalized joined text; without a marker, the
/// words are the whole normalized text and the figures come from the cells
/// after the first (or from the whole text when there is only one).
pub open spec fn total_parts(texts: Seq<Seq<char>>) -> (Seq<char>, Seq<char>) {
    let combined = normalize_text_spec(join_with(texts, " "@));
    match re_split_once(marker_pattern(), combined) {
        Some(p) => p,
        None => (
            combined,
            if texts.len() > 1 {
                join_with(texts.skip(1), " "@)
            } else {
                combined
            },
        ),
    }
}

/// The amount in words: the words part without leading decoration and
/// without the `价税合计(大写)` label, trimmed.
pub open spec fn amount_words(part: Seq<char>) -> Seq<char> {
    trim(re_replace_first(upper_label_pattern(), trim(re_replace_first(decor_pattern(), part, ""@)), ""@))
}

/// `AmountInWords` and `AmountInFigures` of the grand-total row (whose
/// first cell is the label): the words when not empty, and the last amount
/// of the figures part.
pub open spec fn total_spec(rows: Seq<Seq<CellView>>, idx: Option<usize>) -> Map<Seq<char>, Seq<char>> {
    match idx {
        None => Map::empty(),
        Some(i) => {
            let row = rows[i as int];
            if row.len() < 2 {
                Map::empty()
            } else {
                let parts = total_parts(cell_texts(row.skip(1)));
                let words = amount_words(parts.0);
                let figures = money_tokens_spec(parts.1);
                let r1 = if words.len() > 0 {
                    Map::empty().insert("AmountInWords"@, words)
                } else {
                    Map::empty()
                };
                if figures.len() > 0 {
                    r1.insert("AmountInFigures"@, figures.last())
                } else {
                    r1
                }
            }
        },
    }
}

/// The amounts of the grand-total row (see `total_spec`).
pub fn extract_total(rows: &[Vec<Cell>], total_index: Option<usize>) -> (r: FieldMap)
    requires
        total_index matches Some(i) ==> i < rows@.len(),
    ensures
        r@ == total_spec(table_view(rows@), total_index),
{
    let mut result = FieldMap::new();
    let idx = match total_index {
        Some(i) => i,
        None => {
            return result;
        },
    };
    let row = &rows[idx];
    let ghost rv = row_view(row@);
    assert(table_view(rows@)[idx as int] == rv);
    if row.len() < 2 {
        return result;
    }
    let ghost texts = cell_texts(rv.skip(1));
    let mut parts: Vec<Vec<char>> = Vec::new();
    let mut k: usize = 1;
    while k < row.len()
        invariant
            1 <= k <= row.len(),
            rv == row_view(row@),
            texts == cell_texts(rv.skip(1)),
            seqs_of(parts@) == texts.take(k - 1),
        decreases row.len() - k,
    {
        let ghost before = parts@;
        parts.push(chars_of(row[k].text.as_str()));
        assert(seqs_of(parts@) =~= seqs_of(before).push(row@[k as int].text@));
        assert(texts.take(k as int) =~= texts.take(k - 1).push(row@[k as int].text@));
        k += 1;
    }
    assert(texts.take(row.len() - 1) =~= texts);
    let joined = join_chars(&parts, " ");
    let combined_v = normalize_chars(joined.as_slice());
    let combined = string_of(combined_v.as_slice());
    let (words_part, numeric_part) = match split_once("[（(]\\s*小写\\s*[）)]", combined.as_str()) {
        Some((a, b)) => (a, b),
        None => {
            if parts.len() > 1 {
                let mut rest: Vec<Vec<char>> = Vec::new();
                let mut j: usize = 1;
                while j < parts.len()
                    invariant
                        1 <= j <= parts.len(),
                        seqs_of(rest@) == seqs_of(parts@).skip(1).take(j - 1),
                    decreases parts.len() - j,
                {
                    let ghost before = rest@;
                    rest.push(copy_chars(&parts[j]));
                    assert(seqs_of(rest@) =~= seqs_of(before).push(parts@[j as int]@));
                    assert(seqs_of(parts@).skip(1).take(j as int) =~= seqs_of(parts@).skip(1).take(
                        j - 1,
                    ).push(parts@[j as int]@));
                    j += 1;
                }
                assert(seqs_of(parts@).skip(1).take(parts.len() - 1) =~= seqs_of(parts@).skip(1));
                let fallback = join_chars(&rest, " ");
                (combined.clone(), string_of(fallback.as_slice()))
            } else {
                (combined.clone(), combined.clone())
            }
        },
    };
    let w1 = replace_first("^[⊗·•]+", words_part.as_str(), "");
    let w2 = trim_str(w1.as_str());
    let w3 = replace_first("价税合计[（(]大写[）)]", w2.as_str(), "");
    let words = trim_str(w3.as_str());
    if !words.as_str().is_empty() {
        result.insert("AmountInWords".to_owned(), words);
    }
    let nv = chars_of(numeric_part.as_str());
    let figures = money_tokens(nv.as_slice());
    if figures.len() > 0 {
        let last = figures.len() - 1;
        result.insert("AmountInFigures".to_owned(), string_of(figures[last].as_slice()));
    }
    result
}


/// A subtotal row of a cell under the amount column and a cell under the
/// tax column (each under that one only) gives TotalAmount as the first
/// amount of the first cell and TotalTax as the first amount of the
/// second, when they hold any.
pub proof fn lemma_subtotal_columns(
    rows: Seq<Seq<CellView>>,
    m: Map<usize, Seq<char>>,
    i: usize,
    a: CellView,
    t: CellView,
)
    requires
        i < rows.len(),
        rows[i as int] == seq![a, t],
        maps_field(m, a, "amount"@) && !maps_field(m, a, "tax"@),
        maps_field(m, t, "tax"@) && !maps_field(m, t, "amount"@),
    ensures
        ({
            let r = summary_spec(rows, m, Some(i));
            let ta = money_tokens_spec(a.text);
            let tt = money_tokens_spec(t.text);
            &&& ta.len() > 0 ==> r.contains_key("TotalAmount"@) && r["TotalAmount"@] == ta[0]
            &&& ta.len() == 0 ==> !r.contains_key("TotalAmount"@)
            &&& tt.len() > 0 ==> r.contains_key("TotalTax"@) && r["TotalTax"@] == tt[0]
            &&& tt.len() == 0 ==> !r.contains_key("TotalTax"@)
        }),
{
    let row = seq![a, t];
    reveal_strlit("TotalAmount");
    reveal_strlit("TotalTax");
    assert("TotalAmount"@.len() == 11 && "TotalTax"@.len() == 8);
    assert(row.drop_last() =~= seq![a]);
    assert(seq![a].drop_last() =~= Seq::<CellView>::empty());
    let s0 = summary_fold(Seq::<CellView>::empty(), m);
    let s1 = summary_fold(seq![a], m);
    assert(s1 == summary_step(s0, m, a));
    assert(summary_fold(row, m) == summary_step(s1, m, t));
    let ta = money_tokens_spec(a.text);
    if ta.len() > 0 {
        assert((Seq::<Seq<char>>::empty() + ta) =~= ta);
    }
    let tt = money_tokens_spec(t.text);
    if tt.len() > 0 {
        assert((s1.1 + tt) =~= tt);
    }
}

} // verus!
