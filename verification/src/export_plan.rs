//! The layout of the Excel export: which text goes into which cell, with
//! which style, for each invoice block; the sheet names of the one-sheet-
//! per-invoice mode.

use vstd::prelude::*;
use crate::entities::parse_uint;
use crate::normalize::{is_watermark, join_with};
use crate::records::{InvoiceRecord, text_value, text_value_from};
use crate::row_list::{RowItem, items_view};
use crate::standard::{WordValue, WordView, words_view};
use crate::text::{
    chars_of, concat_str, decimal, decimal_string, lemma_trim_start_skip, slice_chars, str_eq, string_of,
    trim, trim_chars, trim_start_by,
};

verus! {

// ------------------------------------------------------------------
// Field values
// ------------------------------------------------------------------

/// A stored value without leading watermark symbols and surrounding
/// whitespace.
pub open spec fn clean_scalar_spec(v: Seq<char>) -> Seq<char> {
    trim(trim_start_by(v, |c: char| is_watermark(c)))
}

fn is_watermark_char(c: char) -> (r: bool)
    ensures
        r == is_watermark(c),
{
    c == 'ⓧ' || c == 'Ⓧ' || c == '✖' || c == '✕' || c == '❌' || c == '✘' || c == 'Ⓟ'
}

/// Cleans a stored value (see `clean_scalar_spec`).
pub fn clean_scalar(value: &str) -> (r: String)
    ensures
        r@ == clean_scalar_spec(value@),
{
    let v = chars_of(value);
    let mut i: usize = 0;
    while i < v.len() && is_watermark_char(v[i])
        invariant
            i <= v.len(),
            forall|k: int| 0 <= k < i ==> is_watermark(v@[k]),
        decreases v.len() - i,
    {
        i += 1;
    }
    proof {
        lemma_trim_start_skip(v@, |c: char| is_watermark(c), i as int);
    }
    let rest = slice_chars(v.as_slice(), i, v.len());
    assert(rest@ == v@.skip(i as int));
    let t = trim_chars(rest.as_slice());
    string_of(t.as_slice())
}

/// The cleaned text of field `key` (empty for a list or a missing field).
pub open spec fn scalar_spec(words: Seq<(Seq<char>, WordView)>, key: Seq<char>) -> Seq<char> {
    clean_scalar_spec(text_value(words, key))
}

fn text_of(words: &Vec<(String, WordValue)>, key: &str) -> (r: String)
    ensures
        r@ == text_value(words_view(words@), key@),
{
    let ghost w = words_view(words@);
    let mut i: usize = 0;
    while i < words.len()
        invariant
            i <= words@.len(),
            w == words_view(words@),
            text_value(w, key@) == text_value_from(w, key@, i as int),
        decreases words.len() - i,
    {
        let entry = &words[i];
        assert(w[i as int] == (entry.0@, entry.1@));
        if str_eq(entry.0.as_str(), key) {
            return match entry.1.as_text() {
                Some(s) => s.clone(),
                None => String::new(),
            };
        }
        i += 1;
    }
    String::new()
}

/// The cleaned text of a field (see `scalar_spec`).
pub fn scalar(words: &Vec<(String, WordValue)>, key: &str) -> (r: String)
    ensures
        r@ == scalar_spec(words_view(words@), key@),
{
    let t = text_of(words, key);
    clean_scalar(t.as_str())
}

/// The row list of the first entry named `key` from position `k` on
/// (none when it is missing or a text).
pub open spec fn rows_from(words: Seq<(Seq<char>, WordView)>, key: Seq<char>, k: int) -> Option<
    Seq<(Seq<char>, Seq<char>)>,
>
    decreases words.len() - k,
{
    if k < 0 || k >= words.len() {
        None
    } else if words[k].0 == key {
        match words[k].1 {
            WordView::Rows(items) => Some(items),
            WordView::Text(_) => None,
        }
    } else {
        rows_from(words, key, k + 1)
    }
}

/// The row list of field `key`, if it is one.
pub open spec fn rows_of(words: Seq<(Seq<char>, WordView)>, key: Seq<char>) -> Option<Seq<(Seq<char>, Seq<char>)>> {
    rows_from(words, key, 0)
}

fn rows_exec<'a>(words: &'a Vec<(String, WordValue)>, key: &str) -> (r: Option<&'a Vec<RowItem>>)
    ensures
        match r {
            Some(v) => rows_of(words_view(words@), key@) == Some(items_view(v@)),
            None => rows_of(words_view(words@), key@) is None,
        },
{
    let ghost w = words_view(words@);
    let mut i: usize = 0;
    while i < words.len()
        invariant
            i <= words@.len(),
            w == words_view(words@),
            rows_of(w, key@) == rows_from(w, key@, i as int),
        decreases words.len() - i,
    {
        let entry = &words[i];
        assert(w[i as int] == (entry.0@, entry.1@));
        if str_eq(entry.0.as_str(), key) {
            return entry.1.as_rows();
        }
        i += 1;
    }
    None
}

/// The word of the last of the first `n` items whose row number is `row`
/// (empty when none is).
pub open spec fn cell_from(items: Seq<(Seq<char>, Seq<char>)>, row: nat, n: int) -> Seq<char>
    decreases n,
{
    if n <= 0 {
        Seq::empty()
    } else if parse_uint(items[n - 1].1, 10, 0xffff_ffff_ffff_ffff) == Some(row) {
        items[n - 1].0
    } else {
        cell_from(items, row, n - 1)
    }
}

/// The text of detail row `row` (counted from 1) of list field `key`.
pub open spec fn list_cell_spec(words: Seq<(Seq<char>, WordView)>, key: Seq<char>, row: nat) -> Seq<char> {
    match rows_of(words, key) {
        Some(items) => if row > 0 {
            cell_from(items, row, items.len() as int)
        } else {
            Seq::empty()
        },
        None => Seq::empty(),
    }
}

/// The text of one detail row of a list field (see `list_cell_spec`).
pub fn list_cell(words: &Vec<(String, WordValue)>, key: &str, row: u64) -> (r: String)
    ensures
        r@ == list_cell_spec(words_view(words@), key@, row as nat),
{
    match rows_exec(words, key) {
        Some(items) => {
            if row == 0 {
                return String::new();
            }
            let ghost iv = items_view(items@);
            let mut k: usize = items.len();
            while k > 0
                invariant
                    k <= items@.len(),
                    iv == items_view(items@),
                    row > 0,
                    rows_of(words_view(words@), key@) == Some(iv),
                    cell_from(iv, row as nat, iv.len() as int) == cell_from(iv, row as nat, k as int),
                decreases k,
            {
                let it = &items[k - 1];
                assert(iv[k - 1] == it@);
                assert(it@.1 == it.row@ && it@.0 == it.word@);
                let rv = chars_of(it.row.as_str());
                match crate::entities::parse_uint_exec(rv.as_slice(), 10, 0xffff_ffff_ffff_ffff) {
                    Some(x) => {
                        if x == row {
                            assert(cell_from(iv, row as nat, k as int) == it.word@);
                            assert(rows_of(words_view(words@), key@) == Some(iv));
                            assert(list_cell_spec(words_view(words@), key@, row as nat) == cell_from(
                                iv,
                                row as nat,
                                iv.len() as int,
                            ));
                            let out = it.word.clone();
                            assert(out@ == it.word@);
                            return out;
                        }
                    },
                    None => {},
                }
                k -= 1;
            }
            String::new()
        },
        None => String::new(),
    }
}

// ------------------------------------------------------------------
// Field tables
// ------------------------------------------------------------------

/// The purchaser fields and their labels.
pub open spec fn buyer_fields() -> Seq<(Seq<char>, Seq<char>)> {
    seq![
        ("PurchaserName"@, "名称"@),
        ("PurchaserRegisterNum"@, "纳税人识别号"@),
        ("PurchaserAddress"@, "地址电话"@),
        ("PurchaserBank"@, "开户行及账号"@),
    ]
}

/// The seller fields and their labels.
pub open spec fn seller_fields() -> Seq<(Seq<char>, Seq<char>)> {
    seq![
        ("SellerName"@, "名称"@),
        ("SellerRegisterNum"@, "纳税人识别号"@),
        ("SellerAddress"@, "地址电话"@),
        ("SellerBank"@, "开户行及账号"@),
    ]
}

/// The basic fields and their labels.
pub open spec fn basic_fields() -> Seq<(Seq<char>, Seq<char>)> {
    seq![
        ("InvoiceNum"@, "发票号码"@),
        ("InvoiceNumConfirm"@, "发票号码(确认)"@),
        ("InvoiceNumDigit"@, "发票号码(数字)"@),
        ("InvoiceCode"@, "发票代码"@),
        ("InvoiceCodeConfirm"@, "发票代码(确认)"@),
        ("InvoiceDate"@, "开票日期"@),
        ("InvoiceType"@, "发票类型"@),
        ("Province"@, "省份"@),
        ("City"@, "城市"@),
        ("SheetNum"@, "联次"@),
        ("ServiceType"@, "服务类型"@),
        ("OnlinePay"@, "线上支付"@),
        ("Agent"@, "是否代理"@),
    ]
}

/// The signature fields and their labels.
pub open spec fn drawer_fields() -> Seq<(Seq<char>, Seq<char>)> {
    seq![("NoteDrawer"@, "开票人"@), ("Payee"@, "收款人"@), ("Checker"@, "复核人"@)]
}

/// The total fields and their labels.
pub open spec fn total_fields() -> Seq<(Seq<char>, Seq<char>)> {
    seq![
        ("TotalAmount"@, "合计金额"@),
        ("TotalTax"@, "合计税额"@),
        ("AmountInWords"@, "价税合计(大写)"@),
        ("AmountInFigures"@, "价税合计(小写)"@),
    ]
}

/// The remaining fields and their labels.
pub open spec fn other_fields() -> Seq<(Seq<char>, Seq<char>)> {
    seq![("Password"@, "密码区"@), ("Remarks"@, "备注"@)]
}

/// The commodity list fields and their column labels.
pub open spec fn export_list_fields() -> Seq<(Seq<char>, Seq<char>)> {
    seq![
        ("CommodityName"@, "商品名称"@),
        ("CommodityType"@, "规格型号"@),
        ("CommodityUnit"@, "单位"@),
        ("CommodityNum"@, "数量"@),
        ("CommodityPrice"@, "单价"@),
        ("CommodityAmount"@, "金额"@),
        ("CommodityTaxRate"@, "税率"@),
        ("CommodityTax"@, "税额"@),
        ("CommodityPlateNum"@, "车牌号"@),
        ("CommodityVehicleType"@, "车辆类型"@),
        ("CommodityStartDate"@, "开始日期"@),
        ("CommodityEndDate"@, "结束日期"@),
    ]
}

/// The views of some (key, label) pairs.
pub open spec fn pairs_view(p: Seq<(&str, &str)>) -> Seq<(Seq<char>, Seq<char>)> {
    p.map_values(|x: (&str, &str)| (x.0@, x.1@))
}

fn push_pair(v: &mut Vec<(&'static str, &'static str)>, k: &'static str, l: &'static str)
    ensures
        pairs_view(final(v)@) == pairs_view(old(v)@).push((k@, l@)),
{
    let ghost before = v@;
    v.push((k, l));
    assert(pairs_view(v@) =~= pairs_view(before).push((k@, l@)));
}

fn list_fields_exec() -> (r: Vec<(&'static str, &'static str)>)
    ensures
        pairs_view(r@) == export_list_fields(),
{
    let mut v: Vec<(&'static str, &'static str)> = Vec::new();
    assert(pairs_view(v@) =~= Seq::<(Seq<char>, Seq<char>)>::empty());
    push_pair(&mut v, "CommodityName", "商品名称");
    push_pair(&mut v, "CommodityType", "规格型号");
    push_pair(&mut v, "CommodityUnit", "单位");
    push_pair(&mut v, "CommodityNum", "数量");
    push_pair(&mut v, "CommodityPrice", "单价");
    push_pair(&mut v, "CommodityAmount", "金额");
    push_pair(&mut v, "CommodityTaxRate", "税率");
    push_pair(&mut v, "CommodityTax", "税额");
    push_pair(&mut v, "CommodityPlateNum", "车牌号");
    push_pair(&mut v, "CommodityVehicleType", "车辆类型");
    push_pair(&mut v, "CommodityStartDate", "开始日期");
    push_pair(&mut v, "CommodityEndDate", "结束日期");
    assert(pairs_view(v@) =~= export_list_fields());
    v
}

/// The list fields, from the first `n`, that hold a non-empty row list.
pub open spec fn active_upto(words: Seq<(Seq<char>, WordView)>, n: int) -> Seq<(Seq<char>, Seq<char>)>
    decreases n,
{
    if n <= 0 {
        Seq::empty()
    } else {
        let acc = active_upto(words, n - 1);
        let f = export_list_fields()[n - 1];
        match rows_of(words, f.0) {
            Some(items) => if items.len() > 0 {
                acc.push(f)
            } else {
                acc
            },
            None => acc,
        }
    }
}

proof fn lemma_active_len(words: Seq<(Seq<char>, WordView)>, n: int)
    ensures
        active_upto(words, n).len() <= if n < 0 {
            0
        } else {
            n
        },
    decreases n,
{
    if n > 0 {
        lemma_active_len(words, n - 1);
    }
}

/// The list fields that hold some rows, in column order.
pub open spec fn active_fields_spec(words: Seq<(Seq<char>, WordView)>) -> Seq<(Seq<char>, Seq<char>)> {
    active_upto(words, 12)
}

/// The list fields shown as detail columns (see `active_fields_spec`).
pub fn active_list_fields(words: &Vec<(String, WordValue)>) -> (r: Vec<(&'static str, &'static str)>)
    ensures
        pairs_view(r@) == active_fields_spec(words_view(words@)),
{
    let all = list_fields_exec();
    let mut r: Vec<(&'static str, &'static str)> = Vec::new();
    let mut i: usize = 0;
    assert(pairs_view(r@) =~= Seq::<(Seq<char>, Seq<char>)>::empty());
    while i < all.len()
        invariant
            i <= all@.len(),
            pairs_view(all@) == export_list_fields(),
            pairs_view(r@) == active_upto(words_view(words@), i as int),
        decreases all.len() - i,
    {
        let (k, l) = all[i];
        assert(export_list_fields()[i as int] == (k@, l@));
        match rows_exec(words, k) {
            Some(items) => {
                if items.len() > 0 {
                    push_pair(&mut r, k, l);
                }
            },
            None => {},
        }
        i += 1;
    }
    assert(pairs_view(all@).len() == 12);
    r
}

/// The number of rows of the longest of the first `n` list fields.
pub open spec fn max_rows_upto(words: Seq<(Seq<char>, WordView)>, n: int) -> nat
    decreases n,
{
    if n <= 0 {
        0
    } else {
        let m = max_rows_upto(words, n - 1);
        match rows_of(words, export_list_fields()[n - 1].0) {
            Some(items) => if items.len() > m {
                items.len()
            } else {
                m
            },
            None => m,
        }
    }
}

/// The number of detail rows of an invoice: the length of its longest list.
pub fn max_detail_rows(words: &Vec<(String, WordValue)>) -> (r: usize)
    ensures
        r as nat == max_rows_upto(words_view(words@), 12),
{
    let all = list_fields_exec();
    let mut m: usize = 0;
    let mut i: usize = 0;
    while i < all.len()
        invariant
            i <= all@.len(),
            pairs_view(all@) == export_list_fields(),
            m as nat == max_rows_upto(words_view(words@), i as int),
        decreases all.len() - i,
    {
        let (k, l) = all[i];
        assert(export_list_fields()[i as int] == (k@, l@));
        match rows_exec(words, k) {
            Some(items) => {
                if items.len() > m {
                    m = items.len();
                }
            },
            None => {},
        }
        i += 1;
    }
    assert(pairs_view(all@).len() == 12);
    m
}

// ------------------------------------------------------------------
// The invoice block
// ------------------------------------------------------------------

/// The cell styles of an invoice block.
#[derive(Clone, Copy, Debug, PartialEq, Eq, Structural)]
pub enum CellStyle {
    Title,
    Group,
    Label,
    Value,
    ValueWrap,
}

/// One write of the plan: a text into the cells `first_col..=last_col` of
/// a row (merged when they are more than one).
pub struct SheetWrite {
    pub row: u128,
    pub first_col: u16,
    pub last_col: u16,
    pub text: String,
    pub style: CellStyle,
}

/// The mathematical content of a write.
pub struct WriteView {
    pub row: int,
    pub first_col: int,
    pub last_col: int,
    pub text: Seq<char>,
    pub style: CellStyle,
}

impl View for SheetWrite {
    type V = WriteView;

    open spec fn view(&self) -> WriteView {
        WriteView {
            row: self.row as int,
            first_col: self.first_col as int,
            last_col: self.last_col as int,
            text: self.text@,
            style: self.style,
        }
    }
}

/// The views of a plan.
pub open spec fn plan_view(p: Seq<SheetWrite>) -> Seq<WriteView> {
    p.map_values(|w: SheetWrite| w@)
}

/// A write into one cell.
pub open spec fn put(row: int, col: int, text: Seq<char>, style: CellStyle) -> WriteView {
    WriteView { row, first_col: col, last_col: col, text, style }
}

/// A write into cells `c0..=c1` merged.
pub open spec fn merged(row: int, c0: int, c1: int, text: Seq<char>, style: CellStyle) -> WriteView {
    WriteView { row, first_col: c0, last_col: c1, text, style }
}

/// The attachment lines: `1. path`, `2. path`, … joined by line breaks.
pub open spec fn attachment_text(paths: Seq<Seq<char>>) -> Seq<char> {
    join_with(Seq::new(paths.len(), |i: int| decimal((i + 1) as nat) + ". "@ + paths[i]), "\n"@)
}

/// The meta rows: code, number, recognition time and attachments.
pub open spec fn meta_writes(row: int, code: Seq<char>, num: Seq<char>, created: Seq<char>, paths: Seq<Seq<char>>) -> Seq<
    WriteView,
> {
    seq![
        put(row, 0, "发票代码"@, CellStyle::Label),
        put(row, 1, code, CellStyle::ValueWrap),
        put(row + 1, 0, "发票号码"@, CellStyle::Label),
        put(row + 1, 1, num, CellStyle::ValueWrap),
        put(row + 2, 0, "识别时间"@, CellStyle::Label),
        put(row + 2, 1, created, CellStyle::ValueWrap),
        put(row + 3, 0, "附件 ("@ + decimal(paths.len()) + ")"@, CellStyle::Label),
        put(row + 3, 1, attachment_text(paths), CellStyle::ValueWrap),
    ]
}

/// Row `i` of the two parties: purchaser label and value, seller label
/// and value.
pub open spec fn party_row(row: int, words: Seq<(Seq<char>, WordView)>, i: int) -> Seq<WriteView> {
    seq![
        put(row, 0, buyer_fields()[i].1, CellStyle::Label),
        put(row, 1, scalar_spec(words, buyer_fields()[i].0), CellStyle::Value),
        put(row, 2, seller_fields()[i].1, CellStyle::Label),
        put(row, 3, scalar_spec(words, seller_fields()[i].0), CellStyle::Value),
    ]
}

/// The first `n` rows of the two parties from `row + 1` on.
pub open spec fn party_rows(row: int, words: Seq<(Seq<char>, WordView)>, n: int) -> Seq<WriteView>
    decreases n,
{
    if n <= 0 {
        Seq::empty()
    } else {
        party_rows(row, words, n - 1) + party_row(row + n, words, n - 1)
    }
}

/// Purchaser and seller side by side: their titles, then one row per
/// field pair.
pub open spec fn party_writes(row: int, words: Seq<(Seq<char>, WordView)>) -> Seq<WriteView> {
    seq![merged(row, 0, 1, "购买方"@, CellStyle::Group), merged(row, 2, 3, "销售方"@, CellStyle::Group)]
        + party_rows(row, words, 4)
}

/// The rows of the first `n` fields of a group from `row` on: a label and
/// a value for each field with a non-empty value.
pub open spec fn fields_writes(
    row: int,
    fields: Seq<(Seq<char>, Seq<char>)>,
    words: Seq<(Seq<char>, WordView)>,
    n: int,
) -> (Seq<WriteView>, int)
    decreases n,
{
    if n <= 0 {
        (Seq::empty(), row)
    } else {
        let (w, r) = fields_writes(row, fields, words, n - 1);
        let v = scalar_spec(words, fields[n - 1].0);
        if v.len() > 0 {
            (w + seq![put(r, 0, fields[n - 1].1, CellStyle::Label), put(r, 1, v, CellStyle::Value)], r + 1)
        } else {
            (w, r)
        }
    }
}

/// A group: its title row, then its non-empty fields.
pub open spec fn group_writes(
    row: int,
    title: Seq<char>,
    fields: Seq<(Seq<char>, Seq<char>)>,
    words: Seq<(Seq<char>, WordView)>,
) -> (Seq<WriteView>, int) {
    let (w, r) = fields_writes(row + 1, fields, words, fields.len() as int);
    (seq![put(row, 0, title, CellStyle::Group)] + w, r)
}

/// One detail row: the cells of the active list fields.
pub open spec fn detail_row_writes(
    row: int,
    act: Seq<(Seq<char>, Seq<char>)>,
    words: Seq<(Seq<char>, WordView)>,
    i: nat,
) -> Seq<WriteView> {
    Seq::new(act.len(), |j: int| put(row, j, list_cell_spec(words, act[j].0, i + 1), CellStyle::Value))
}

/// The first `n` detail rows from `row` on.
pub open spec fn detail_body(
    row: int,
    act: Seq<(Seq<char>, Seq<char>)>,
    words: Seq<(Seq<char>, WordView)>,
    n: nat,
) -> Seq<WriteView>
    decreases n,
{
    if n == 0 {
        Seq::empty()
    } else {
        detail_body(row, act, words, (n - 1) as nat) + detail_row_writes(row + n - 1, act, words, (n - 1) as nat)
    }
}

/// The commodity section: its title, then a note when no list field has
/// rows, else the header of the active fields and the detail rows.
pub open spec fn details_writes(row: int, words: Seq<(Seq<char>, WordView)>) -> (Seq<WriteView>, int) {
    let act = active_fields_spec(words);
    if act.len() == 0 {
        (seq![put(row, 0, "商品明细"@, CellStyle::Group), put(row + 1, 0, "（无商品明细）"@, CellStyle::Value)], row + 2)
    } else {
        let n = max_rows_upto(words, 12);
        (
            seq![put(row, 0, "商品明细"@, CellStyle::Group)] + Seq::new(
                act.len(),
                |j: int| put(row + 1, j, act[j].1, CellStyle::Group),
            ) + detail_body(row + 2, act, words, n),
            row + 2 + n,
        )
    }
}

/// The whole block of an invoice from `start` on: an optional title, the
/// meta rows, the two parties, the basic, signature, total and other
/// groups, and the commodity section; with the row after it.
pub open spec fn block_writes(
    start: int,
    code: Seq<char>,
    num: Seq<char>,
    created: Seq<char>,
    paths: Seq<Seq<char>>,
    words: Seq<(Seq<char>, WordView)>,
    title: Option<Seq<char>>,
) -> (Seq<WriteView>, int) {
    let (w1, r1) = match title {
        Some(t) => (seq![merged(start, 0, 1, t, CellStyle::Title)], start + 1),
        None => (Seq::empty(), start),
    };
    let w2 = meta_writes(r1, code, num, created, paths);
    let w3 = party_writes(r1 + 4, words);
    let (w4, r4) = group_writes(r1 + 9, "基础信息"@, basic_fields(), words);
    let (w5, r5) = group_writes(r4, "开票信息"@, drawer_fields(), words);
    let (w6, r6) = group_writes(r5, "合计"@, total_fields(), words);
    let (w7, r7) = group_writes(r6, "其他信息"@, other_fields(), words);
    let (w8, r8) = details_writes(r7, words);
    (w1 + w2 + w3 + w4 + w5 + w6 + w7 + w8, r8)
}

fn push_put(plan: &mut Vec<SheetWrite>, row: u128, col: u16, text: String, style: CellStyle)
    ensures
        plan_view(final(plan)@) == plan_view(old(plan)@).push(put(row as int, col as int, text@, style)),
{
    let ghost before = plan@;
    plan.push(SheetWrite { row, first_col: col, last_col: col, text, style });
    assert(plan_view(plan@) =~= plan_view(before).push(put(row as int, col as int, text@, style)));
}

fn push_merged(plan: &mut Vec<SheetWrite>, row: u128, c0: u16, c1: u16, text: String, style: CellStyle)
    ensures
        plan_view(final(plan)@) == plan_view(old(plan)@).push(merged(row as int, c0 as int, c1 as int, text@, style)),
{
    let ghost before = plan@;
    plan.push(SheetWrite { row, first_col: c0, last_col: c1, text, style });
    assert(plan_view(plan@) =~= plan_view(before).push(merged(row as int, c0 as int, c1 as int, text@, style)));
}

fn attachment_exec(paths: &Vec<String>) -> (r: String)
    ensures
        r@ == attachment_text(paths.deep_view()),
{
    let ghost pv = paths.deep_view();
    let ghost lines = Seq::new(pv.len(), |i: int| decimal((i + 1) as nat) + ". "@ + pv[i]);
    let mut parts: Vec<Vec<char>> = Vec::new();
    let mut i: usize = 0;
    while i < paths.len()
        invariant
            i <= paths.len(),
            pv == paths.deep_view(),
            lines == Seq::new(pv.len(), |i: int| decimal((i + 1) as nat) + ". "@ + pv[i]),
            crate::text::seqs_of(parts@) == lines.take(i as int),
        decreases paths.len() - i,
    {
        let num = decimal_string((i + 1) as u64);
        let a = concat_str(num.as_str(), ". ");
        let line = concat_str(a.as_str(), paths[i].as_str());
        proof {
            reveal_strlit(". ");
        }
        let ghost before = parts@;
        parts.push(chars_of(line.as_str()));
        assert(crate::text::seqs_of(parts@) =~= crate::text::seqs_of(before).push(line@));
        assert(lines.take(i + 1) =~= lines.take(i as int).push(lines[i as int]));
        i += 1;
    }
    assert(lines.take(paths.len() as int) =~= lines);
    let joined = crate::normalize::join_chars(&parts, "\n");
    string_of(joined.as_slice())
}

fn party_exec(plan: &mut Vec<SheetWrite>, row: u128, words: &Vec<(String, WordValue)>)
    requires
        row <= u64::MAX,
    ensures
        plan_view(final(plan)@) == plan_view(old(plan)@) + party_writes(row as int, words_view(words@)),
{
    let ghost start = plan_view(plan@);
    push_merged(plan, row, 0, 1, "购买方".to_owned(), CellStyle::Group);
    push_merged(plan, row, 2, 3, "销售方".to_owned(), CellStyle::Group);
    let ghost head = plan_view(plan@);
    assert(head =~= start + seq![
        merged(row as int, 0, 1, "购买方"@, CellStyle::Group),
        merged(row as int, 2, 3, "销售方"@, CellStyle::Group),
    ]);
    let buyer: [(&str, &str); 4] = [
        ("PurchaserName", "名称"),
        ("PurchaserRegisterNum", "纳税人识别号"),
        ("PurchaserAddress", "地址电话"),
        ("PurchaserBank", "开户行及账号"),
    ];
    let seller: [(&str, &str); 4] = [
        ("SellerName", "名称"),
        ("SellerRegisterNum", "纳税人识别号"),
        ("SellerAddress", "地址电话"),
        ("SellerBank", "开户行及账号"),
    ];
    assert(buyer@.map_values(|x: (&str, &str)| (x.0@, x.1@)) =~= buyer_fields());
    assert(seller@.map_values(|x: (&str, &str)| (x.0@, x.1@)) =~= seller_fields());
    let ghost w = words_view(words@);
    let mut i: usize = 0;
    while i < 4
        invariant
            i <= 4,
            row <= u64::MAX,
            w == words_view(words@),
            buyer@.map_values(|x: (&str, &str)| (x.0@, x.1@)) == buyer_fields(),
            seller@.map_values(|x: (&str, &str)| (x.0@, x.1@)) == seller_fields(),
            plan_view(plan@) == head + party_rows(row as int, w, i as int),
        decreases 4 - i,
    {
        let r = row + 1 + i as u128;
        let (bk, bl) = buyer[i];
        let (sk, sl) = seller[i];
        assert(buyer_fields()[i as int] == (bk@, bl@));
        assert(seller_fields()[i as int] == (sk@, sl@));
        let ghost before = plan_view(plan@);
        push_put(plan, r, 0, bl.to_owned(), CellStyle::Label);
        push_put(plan, r, 1, scalar(words, bk), CellStyle::Value);
        push_put(plan, r, 2, sl.to_owned(), CellStyle::Label);
        push_put(plan, r, 3, scalar(words, sk), CellStyle::Value);
        assert(plan_view(plan@) =~= before + party_row(row + i + 1, w, i as int));
        i += 1;
    }
}

fn group_exec(
    plan: &mut Vec<SheetWrite>,
    row: u128,
    title: &str,
    fields: &Vec<(&'static str, &'static str)>,
    words: &Vec<(String, WordValue)>,
) -> (r: u128)
    requires
        row <= u64::MAX,
    ensures
        plan_view(final(plan)@) == plan_view(old(plan)@) + group_writes(row as int, title@, pairs_view(fields@), words_view(words@)).0,
        r as int == group_writes(row as int, title@, pairs_view(fields@), words_view(words@)).1,
        r <= row + fields@.len() + 1,
{
    let ghost start = plan_view(plan@);
    let ghost fv = pairs_view(fields@);
    let ghost w = words_view(words@);
    push_put(plan, row, 0, title.to_owned(), CellStyle::Group);
    let mut r = row + 1;
    let mut i: usize = 0;
    while i < fields.len()
        invariant
            i <= fields@.len(),
            row <= u64::MAX,
            r <= row + 1 + i,
            fv == pairs_view(fields@),
            w == words_view(words@),
            plan_view(plan@) == start.push(put(row as int, 0, title@, CellStyle::Group)) + fields_writes(
                row + 1,
                fv,
                w,
                i as int,
            ).0,
            r as int == fields_writes(row + 1, fv, w, i as int).1,
        decreases fields.len() - i,
    {
        let (k, l) = fields[i];
        assert(fv[i as int] == (k@, l@));
        let v = scalar(words, k);
        if !v.as_str().is_empty() {
            push_put(plan, r, 0, l.to_owned(), CellStyle::Label);
            push_put(plan, r, 1, v, CellStyle::Value);
            r = r + 1;
        }
        i += 1;
    }
    assert(plan_view(plan@) =~= start + (seq![put(row as int, 0, title@, CellStyle::Group)] + fields_writes(
        row + 1,
        fv,
        w,
        fields@.len() as int,
    ).0));
    r
}

fn pairs_exec(which: u8) -> (r: Vec<(&'static str, &'static str)>)
    requires
        which < 4,
    ensures
        pairs_view(r@) == (if which == 0 {
            basic_fields()
        } else if which == 1 {
            drawer_fields()
        } else if which == 2 {
            total_fields()
        } else {
            other_fields()
        }),
{
    let mut v: Vec<(&'static str, &'static str)> = Vec::new();
    assert(pairs_view(v@) =~= Seq::<(Seq<char>, Seq<char>)>::empty());
    if which == 0 {
        push_pair(&mut v, "InvoiceNum", "发票号码");
        push_pair(&mut v, "InvoiceNumConfirm", "发票号码(确认)");
        push_pair(&mut v, "InvoiceNumDigit", "发票号码(数字)");
        push_pair(&mut v, "InvoiceCode", "发票代码");
        push_pair(&mut v, "InvoiceCodeConfirm", "发票代码(确认)");
        push_pair(&mut v, "InvoiceDate", "开票日期");
        push_pair(&mut v, "InvoiceType", "发票类型");
        push_pair(&mut v, "Province", "省份");
        push_pair(&mut v, "City", "城市");
        push_pair(&mut v, "SheetNum", "联次");
        push_pair(&mut v, "ServiceType", "服务类型");
        push_pair(&mut v, "OnlinePay", "线上支付");
        push_pair(&mut v, "Agent", "是否代理");
        assert(pairs_view(v@) =~= basic_fields());
    } else if which == 1 {
        push_pair(&mut v, "NoteDrawer", "开票人");
        push_pair(&mut v, "Payee", "收款人");
        push_pair(&mut v, "Checker", "复核人");
        assert(pairs_view(v@) =~= drawer_fields());
    } else if which == 2 {
        push_pair(&mut v, "TotalAmount", "合计金额");
        push_pair(&mut v, "TotalTax", "合计税额");
        push_pair(&mut v, "AmountInWords", "价税合计(大写)");
        push_pair(&mut v, "AmountInFigures", "价税合计(小写)");
        assert(pairs_view(v@) =~= total_fields());
    } else {
        push_pair(&mut v, "Password", "密码区");
        push_pair(&mut v, "Remarks", "备注");
        assert(pairs_view(v@) =~= other_fields());
    }
    v
}

fn details_exec(plan: &mut Vec<SheetWrite>, row: u128, words: &Vec<(String, WordValue)>) -> (r: u128)
    requires
        row <= u64::MAX,
    ensures
        plan_view(final(plan)@) == plan_view(old(plan)@) + details_writes(row as int, words_view(words@)).0,
        r as int == details_writes(row as int, words_view(words@)).1,
{
    let ghost start = plan_view(plan@);
    let ghost w = words_view(words@);
    let act = active_list_fields(words);
    let ghost av = pairs_view(act@);
    proof {
        lemma_active_len(w, 12);
    }
    push_put(plan, row, 0, "商品明细".to_owned(), CellStyle::Group);
    if act.len() == 0 {
        push_put(plan, row + 1, 0, "（无商品明细）".to_owned(), CellStyle::Value);
        assert(plan_view(plan@) =~= start + seq![
            put(row as int, 0, "商品明细"@, CellStyle::Group),
            put(row + 1, 0, "（无商品明细）"@, CellStyle::Value),
        ]);
        return row + 2;
    }
    let ghost header = Seq::new(av.len(), |j: int| put(row + 1, j, av[j].1, CellStyle::Group));
    let mut j: usize = 0;
    while j < act.len()
        invariant
            j <= act@.len(),
            act@.len() <= 12,
            row <= u64::MAX,
            av == pairs_view(act@),
            header == Seq::new(av.len(), |j: int| put(row + 1, j, av[j].1, CellStyle::Group)),
            plan_view(plan@) == start.push(put(row as int, 0, "商品明细"@, CellStyle::Group)) + header.take(j as int),
        decreases act.len() - j,
    {
        let (k, l) = act[j];
        push_put(plan, row + 1, j as u16, l.to_owned(), CellStyle::Group);
        assert(header.take(j + 1) =~= header.take(j as int).push(header[j as int]));
        j += 1;
    }
    assert(header.take(act.len() as int) =~= header);
    let n = max_detail_rows(words);
    let ghost mid = plan_view(plan@);
    let mut i: usize = 0;
    while i < n
        invariant
            i <= n,
            row <= u64::MAX,
            act@.len() <= 12,
            av == pairs_view(act@),
            w == words_view(words@),
            av == active_fields_spec(w),
            plan_view(plan@) == mid + detail_body(row + 2, av, w, i as nat),
        decreases n - i,
    {
        let r = row + 2 + i as u128;
        let ghost before = plan_view(plan@);
        let ghost target = detail_row_writes(row + 2 + i, av, w, i as nat);
        let mut c: usize = 0;
        while c < act.len()
            invariant
                c <= act@.len(),
                i < n,
                act@.len() <= 12,
                av == pairs_view(act@),
                w == words_view(words@),
                r as int == row + 2 + i,
                target == detail_row_writes(row + 2 + i, av, w, i as nat),
                plan_view(plan@) == before + target.take(c as int),
            decreases act.len() - c,
        {
            let (k, l) = act[c];
            assert(av[c as int] == (k@, l@));
            let v = list_cell(words, k, (i + 1) as u64);
            push_put(plan, r, c as u16, v, CellStyle::Value);
            assert(target.take(c + 1) =~= target.take(c as int).push(target[c as int]));
            c += 1;
        }
        assert(target.take(act.len() as int) =~= target);
        i += 1;
    }
    assert(plan_view(plan@) =~= start + (seq![put(row as int, 0, "商品明细"@, CellStyle::Group)] + header
        + detail_body(row + 2, av, w, n as nat)));
    row + 2 + n as u128
}

/// The cells of one invoice block from row `start` on (see
/// `block_writes`), and the row after the block.
pub fn invoice_block_plan(
    start: u32,
    record: &InvoiceRecord,
    files: &Vec<String>,
    words: &Vec<(String, WordValue)>,
    title: Option<String>,
) -> (r: (Vec<SheetWrite>, u128))
    ensures
        (plan_view(r.0@), r.1 as int) == block_writes(
            start as int,
            record.invoice_code@,
            record.invoice_num@,
            record.created_at@,
            files.deep_view(),
            words_view(words@),
            match title {
                Some(t) => Some(t@),
                None => None,
            },
        ),
{
    let mut plan: Vec<SheetWrite> = Vec::new();
    let ghost w = words_view(words@);
    let ghost tv = match &title {
        Some(t) => Some(t@),
        None => None::<Seq<char>>,
    };
    let mut row: u128 = start as u128;
    match title {
        Some(t) => {
            push_merged(&mut plan, row, 0, 1, t, CellStyle::Title);
            row = row + 1;
        },
        None => {},
    }
    let ghost w1 = plan_view(plan@);
    push_put(&mut plan, row, 0, "发票代码".to_owned(), CellStyle::Label);
    push_put(&mut plan, row, 1, record.invoice_code.clone(), CellStyle::ValueWrap);
    push_put(&mut plan, row + 1, 0, "发票号码".to_owned(), CellStyle::Label);
    push_put(&mut plan, row + 1, 1, record.invoice_num.clone(), CellStyle::ValueWrap);
    push_put(&mut plan, row + 2, 0, "识别时间".to_owned(), CellStyle::Label);
    push_put(&mut plan, row + 2, 1, record.created_at.clone(), CellStyle::ValueWrap);
    let count = decimal_string(files.len() as u64);
    let l1 = concat_str("附件 (", count.as_str());
    let label = concat_str(l1.as_str(), ")");
    push_put(&mut plan, row + 3, 0, label, CellStyle::Label);
    push_put(&mut plan, row + 3, 1, attachment_exec(files), CellStyle::ValueWrap);
    assert(plan_view(plan@) =~= w1 + meta_writes(
        row as int,
        record.invoice_code@,
        record.invoice_num@,
        record.created_at@,
        files.deep_view(),
    ));
    let ghost w2 = plan_view(plan@);
    party_exec(&mut plan, row + 4, words);
    let ghost w3 = plan_view(plan@);
    let basic = pairs_exec(0);
    let r4 = group_exec(&mut plan, row + 9, "基础信息", &basic, words);
    let ghost w4 = plan_view(plan@);
    let drawer = pairs_exec(1);
    let r5 = group_exec(&mut plan, r4, "开票信息", &drawer, words);
    let ghost w5 = plan_view(plan@);
    let totals = pairs_exec(2);
    let r6 = group_exec(&mut plan, r5, "合计", &totals, words);
    let ghost w6 = plan_view(plan@);
    let others = pairs_exec(3);
    let r7 = group_exec(&mut plan, r6, "其他信息", &others, words);
    let ghost w7 = plan_view(plan@);
    let r8 = details_exec(&mut plan, r7, words);
    proof {
        let t = tv;
        let b = block_writes(
            start as int,
            record.invoice_code@,
            record.invoice_num@,
            record.created_at@,
            files.deep_view(),
            w,
            t,
        );
        assert(w3 =~= w2 + party_writes(row + 4, w));
        let w8 = plan_view(plan@);
        assert(w8 =~= b.0);
    }
    (plan, r8)
}

// ------------------------------------------------------------------
// Sheets
// ------------------------------------------------------------------

/// The title of invoice `i` (from 0) in the one-sheet export.
pub open spec fn single_title_spec(i: nat, file_name: Seq<char>) -> Seq<char> {
    "发票 "@ + decimal(i + 1) + " - "@ + file_name
}

/// The title of invoice `i` in the one-sheet export (see `single_title_spec`).
pub fn single_sheet_title(i: usize, file_name: &str) -> (r: String)
    requires
        i < usize::MAX,
    ensures
        r@ == single_title_spec(i as nat, file_name@),
{
    let n = decimal_string((i + 1) as u64);
    let a = concat_str("发票 ", n.as_str());
    let b = concat_str(a.as_str(), " - ");
    concat_str(b.as_str(), file_name)
}

/// The base of a sheet name: the invoice number, or the file name when
/// there is none; at most 28 characters.
pub open spec fn sheet_base(num: Seq<char>, file_name: Seq<char>) -> Seq<char> {
    let b = if num.len() > 0 {
        num
    } else {
        file_name
    };
    if b.len() > 28 {
        b.take(28)
    } else {
        b
    }
}

/// How many of the first `n` bases equal `b`.
pub open spec fn base_count(bases: Seq<Seq<char>>, b: Seq<char>, n: int) -> nat
    decreases n,
{
    if n <= 0 {
        0
    } else {
        base_count(bases, b, n - 1) + if bases[n - 1] == b {
            1nat
        } else {
            0nat
        }
    }
}

/// The sheet name of the `i`-th base: the base itself the first time it
/// occurs, then the base followed by `-` and its occurrence number.
pub open spec fn sheet_name_spec(bases: Seq<Seq<char>>, i: int) -> Seq<char> {
    let c = base_count(bases, bases[i], i + 1);
    if c > 1 {
        bases[i] + "-"@ + decimal(c)
    } else {
        bases[i]
    }
}

/// The sheet names of the one-sheet-per-invoice export, one per record in
/// order (see `sheet_base` and `sheet_name_spec`).
pub fn sheet_names(records: &Vec<InvoiceRecord>) -> (r: Vec<String>)
    ensures
        r@.len() == records@.len(),
        forall|i: int|
            0 <= i < r@.len() ==> #[trigger] r@[i]@ == sheet_name_spec(
                records@.map_values(|x: InvoiceRecord| sheet_base(x.invoice_num@, x.file_name@)),
                i,
            ),
{
    let ghost bases = records@.map_values(|x: InvoiceRecord| sheet_base(x.invoice_num@, x.file_name@));
    let mut seen: Vec<Vec<char>> = Vec::new();
    let mut names: Vec<String> = Vec::new();
    let mut i: usize = 0;
    while i < records.len()
        invariant
            i <= records@.len(),
            bases == records@.map_values(|x: InvoiceRecord| sheet_base(x.invoice_num@, x.file_name@)),
            bases.len() == records@.len(),
            crate::text::seqs_of(seen@) == bases.take(i as int),
            names@.len() == i,
            forall|k: int| 0 <= k < i ==> #[trigger] names@[k]@ == sheet_name_spec(bases, k),
        decreases records.len() - i,
    {
        let rec = &records[i];
        let src = if !rec.invoice_num.as_str().is_empty() {
            chars_of(rec.invoice_num.as_str())
        } else {
            chars_of(rec.file_name.as_str())
        };
        let base = if src.len() > 28 {
            slice_chars(src.as_slice(), 0, 28)
        } else {
            src
        };
        assert(base@ == bases[i as int]);
        assert(crate::text::seqs_of(seen@).len() == seen@.len());
        assert(seen@.len() == i);
        let mut count: u64 = 1;
        let mut k: usize = 0;
        while k < seen.len()
            invariant
                k <= seen@.len(),
                seen@.len() == i,
                i < records.len(),
                bases.len() == records@.len(),
                crate::text::seqs_of(seen@) == bases.take(i as int),
                base@ == bases[i as int],
                count as int == base_count(bases, bases[i as int], k as int) + 1,
                count <= k + 1,
            decreases seen.len() - k,
        {
            assert(crate::text::seqs_of(seen@)[k as int] == seen@[k as int]@);
            assert(bases.take(i as int)[k as int] == bases[k as int]);
            assert(seen@[k as int]@ == bases[k as int]);
            if crate::text::chars_eq(seen[k].as_slice(), base.as_slice()) {
                count = count + 1;
            }
            k += 1;
        }
        assert(base_count(bases, bases[i as int], i + 1) == count);
        let name = if count > 1 {
            let b = string_of(base.as_slice());
            let a = concat_str(b.as_str(), "-");
            concat_str(a.as_str(), decimal_string(count).as_str())
        } else {
            string_of(base.as_slice())
        };
        let ghost before = seen@;
        seen.push(base);
        assert(crate::text::seqs_of(seen@) =~= bases.take(i + 1));
        names.push(name);
        i += 1;
    }
    names
}

} // verus!
