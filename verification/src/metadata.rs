//! Invoice metadata found in the text around the tables: numbers, date,
//! signatures, sheet, province and invoice type.

use vstd::prelude::*;
use crate::entities::{parse_uint, parse_uint_exec};
use crate::field_map::FieldMap;
use crate::normalize::{join_chars, join_with, normalize_chars, normalize_text, normalize_text_spec};
use crate::regex_ops::{group, match_texts, re_group, re_matches, re_replace_all, replace_all};
use crate::text::{
    chars_of, contains, contains_str, decimal, decimal_chars, occurs_at, seqs_of, slice_chars, str_eq,
    string_of, strs_of, trim, trim_str,
};

verus! {

// ------------------------------------------------------------------
// Layout blocks
// ------------------------------------------------------------------

/// A layout block of a recognized page: its label and its text.
pub struct Block {
    pub block_label: String,
    pub block_content: String,
}

impl View for Block {
    type V = (Seq<char>, Seq<char>);

    open spec fn view(&self) -> (Seq<char>, Seq<char>) {
        (self.block_label@, self.block_content@)
    }
}

impl Clone for Block {
    fn clone(&self) -> (r: Block)
        ensures
            r@ == self@,
    {
        Block { block_label: self.block_label.clone(), block_content: self.block_content.clone() }
    }
}

/// The views of some blocks.
pub open spec fn blocks_view(b: Seq<Block>) -> Seq<(Seq<char>, Seq<char>)> {
    b.map_values(|x: Block| x@)
}

/// The texts of the blocks that are not tables and not empty, in order.
pub open spec fn block_texts(b: Seq<(Seq<char>, Seq<char>)>) -> Seq<Seq<char>>
    decreases b.len(),
{
    if b.len() == 0 {
        Seq::empty()
    } else {
        let r = block_texts(b.drop_last());
        if b.last().0 != "table"@ && b.last().1.len() > 0 {
            r.push(b.last().1)
        } else {
            r
        }
    }
}

/// A whole `<table>` element, content included (any case, across lines).
pub open spec fn table_element_pattern() -> Seq<char> {
    "(?is)<table\\b.*?</table>"@
}

/// One markup tag.
pub open spec fn tag_pattern() -> Seq<char> {
    "<[^>]+>"@
}

/// The text outside the tables: the non-table blocks joined by line breaks
/// when there are any, otherwise the markdown with every table element and
/// then every remaining tag replaced by a space; normalized either way.
pub open spec fn non_table_text_spec(markdown: Seq<char>, blocks: Seq<(Seq<char>, Seq<char>)>) -> Seq<char> {
    let values = block_texts(blocks);
    if blocks.len() > 0 && values.len() > 0 {
        normalize_text_spec(join_with(values, "\n"@))
    } else {
        normalize_text_spec(
            re_replace_all(tag_pattern(), re_replace_all(table_element_pattern(), markdown, " "@), " "@),
        )
    }
}

/// The text outside the tables (see `non_table_text_spec`).
pub fn extract_non_table_text(markdown_text: &str, blocks: &[Block]) -> (r: String)
    ensures
        r@ == non_table_text_spec(markdown_text@, blocks_view(blocks@)),
{
    let ghost bv = blocks_view(blocks@);
    if blocks.len() > 0 {
        let mut values: Vec<Vec<char>> = Vec::new();
        let mut i: usize = 0;
        assert(bv.take(0) =~= Seq::<(Seq<char>, Seq<char>)>::empty());
        while i < blocks.len()
            invariant
                i <= blocks.len(),
                bv == blocks_view(blocks@),
                seqs_of(values@) == block_texts(bv.take(i as int)),
            decreases blocks.len() - i,
        {
            assert(bv.take(i + 1).drop_last() == bv.take(i as int));
            assert(bv.take(i + 1).last() == blocks@[i as int]@);
            let b = &blocks[i];
            if !str_eq(b.block_label.as_str(), "table") && !b.block_content.as_str().is_empty() {
                let ghost before = values@;
                values.push(chars_of(b.block_content.as_str()));
                assert(seqs_of(values@) =~= seqs_of(before).push(b.block_content@));
            }
            i += 1;
        }
        assert(bv.take(blocks.len() as int) == bv);
        if values.len() > 0 {
            let joined = join_chars(&values, "\n");
            let n = normalize_chars(joined.as_slice());
            return string_of(n.as_slice());
        }
    }
    let without_tables = replace_all("(?is)<table\\b.*?</table>", markdown_text, " ");
    let stripped = replace_all("<[^>]+>", without_tables.as_str(), " ");
    normalize_text(stripped.as_str())
}

// ------------------------------------------------------------------
// Invoice numbers
// ------------------------------------------------------------------

/// `发票号码数字` / `数电发票号码` followed by 4 to 32 digits.
pub open spec fn digit_number_pattern() -> Seq<char> {
    "(?:发票号码数字|数电发票号码)\\s*[：:]?\\s*(\\d{4,32})"@
}

/// `发票号码` followed by 6 to 24 digits.
pub open spec fn number_pattern() -> Seq<char> {
    "发票号码\\s*[：:]?\\s*(\\d{6,24})"@
}

/// `发票代码` followed by 10 to 12 digits.
pub open spec fn code_pattern() -> Seq<char> {
    "发票代码\\s*[：:]?\\s*(\\d{10,12})"@
}

/// `No` followed by the 18 digits of code and number together.
pub open spec fn combined_no_pattern() -> Seq<char> {
    "(?i)\\bNo\\s*[:：]?\\s*(\\d{18})\\b"@
}

/// A maximal run of digits.
pub open spec fn digit_run_pattern() -> Seq<char> {
    "\\d+"@
}

/// The first match of a pattern.
pub open spec fn first_match(pattern: Seq<char>, text: Seq<char>) -> Option<Seq<char>> {
    if re_matches(pattern, text).len() > 0 {
        Some(re_matches(pattern, text)[0])
    } else {
        None
    }
}

/// `m` with `k` set to the group, when there is one.
pub open spec fn put_group(m: Map<Seq<char>, Seq<char>>, k: Seq<char>, g: Option<Seq<char>>) -> Map<
    Seq<char>,
    Seq<char>,
> {
    match g {
        Some(v) => m.insert(k, v),
        None => m,
    }
}

/// `m` with `k` set to `v` unless `k` is already there.
pub open spec fn put_absent(m: Map<Seq<char>, Seq<char>>, k: Seq<char>, v: Seq<char>) -> Map<Seq<char>, Seq<char>> {
    if m.contains_key(k) {
        m
    } else {
        m.insert(k, v)
    }
}

/// The last run of exactly eight digits.
pub open spec fn last_eight_run(runs: Seq<Seq<char>>) -> Option<Seq<char>>
    decreases runs.len(),
{
    if runs.len() == 0 {
        None
    } else if runs.last().len() == 8 {
        Some(runs.last())
    } else {
        last_eight_run(runs.drop_last())
    }
}

/// The first run of ten to twelve digits, from position `k` on.
pub open spec fn first_code_run(runs: Seq<Seq<char>>, k: int) -> Option<Seq<char>>
    decreases runs.len() - k,
{
    if k < 0 || k >= runs.len() {
        None
    } else if 10 <= runs[k].len() <= 12 {
        Some(runs[k])
    } else {
        first_code_run(runs, k + 1)
    }
}

/// The invoice numbers, given what the patterns found in a text: the
/// digital-invoice number (`InvoiceNumDigit`), the labelled number and
/// code, an 18-digit `No` whose first eight digits fill a missing number
/// and the rest a missing code, then, still missing, the last run of
/// exactly eight digits as number and the first run of 10 to 12 digits as
/// code.
pub open spec fn invoice_numbers_from(
    digit: Option<Seq<char>>,
    num: Option<Seq<char>>,
    code: Option<Seq<char>>,
    combined: Option<Seq<char>>,
    runs: Seq<Seq<char>>,
) -> Map<Seq<char>, Seq<char>> {
    let m1 = put_group(Map::empty(), "InvoiceNumDigit"@, digit);
    let m2 = put_group(m1, "InvoiceNum"@, num);
    let m3 = put_group(m2, "InvoiceCode"@, code);
    let m4 = match combined {
        Some(d) => if d.len() >= 8 {
            put_absent(put_absent(m3, "InvoiceNum"@, d.take(8)), "InvoiceCode"@, d.skip(8))
        } else {
            m3
        },
        None => m3,
    };
    let m5 = if m4.contains_key("InvoiceNum"@) {
        m4
    } else {
        put_group(m4, "InvoiceNum"@, last_eight_run(runs))
    };
    if m5.contains_key("InvoiceCode"@) {
        m5
    } else {
        put_group(m5, "InvoiceCode"@, first_code_run(runs, 0))
    }
}

/// The invoice numbers of a text (see `invoice_numbers_from`).
pub open spec fn invoice_numbers_spec(text: Seq<char>) -> Map<Seq<char>, Seq<char>> {
    invoice_numbers_from(
        match first_match(digit_number_pattern(), text) {
            Some(mt) => re_group(digit_number_pattern(), mt, 1),
            None => None,
        },
        re_group(number_pattern(), text, 1),
        re_group(code_pattern(), text, 1),
        re_group(combined_no_pattern(), text, 1),
        re_matches(digit_run_pattern(), text),
    )
}

fn put_group_exec(m: &mut FieldMap, k: &str, g: Option<String>)
    ensures
        final(m)@ == put_group(old(m)@, k@, opt_view(g)),
{
    match g {
        Some(v) => {
            m.insert(k.to_owned(), v);
        },
        None => {},
    }
}

/// The view of an optional string.
pub open spec fn opt_view(o: Option<String>) -> Option<Seq<char>> {
    match o {
        Some(s) => Some(s@),
        None => None,
    }
}

proof fn lemma_opt_view(o: Option<String>)
    ensures
        opt_view(o) == o.deep_view(),
{
}

/// The invoice numbers, given what the patterns found (see
/// `invoice_numbers_from`).
pub fn invoice_numbers_from_matches(
    digit: Option<String>,
    num: Option<String>,
    code: Option<String>,
    combined: Option<String>,
    runs: &Vec<String>,
) -> (r: FieldMap)
    ensures
        r@ == invoice_numbers_from(opt_view(digit), opt_view(num), opt_view(code), opt_view(combined), runs.deep_view()),
{
    let mut result = FieldMap::new();
    put_group_exec(&mut result, "InvoiceNumDigit", digit);
    put_group_exec(&mut result, "InvoiceNum", num);
    put_group_exec(&mut result, "InvoiceCode", code);
    match combined {
        Some(d) => {
            let dv = chars_of(d.as_str());
            if dv.len() >= 8 {
                let num = slice_chars(dv.as_slice(), 0, 8);
                let code = slice_chars(dv.as_slice(), 8, dv.len());
                assert(num@ == d@.take(8));
                assert(code@ == d@.skip(8));
                result.insert_if_absent("InvoiceNum".to_owned(), string_of(num.as_slice()));
                result.insert_if_absent("InvoiceCode".to_owned(), string_of(code.as_slice()));
            }
        },
        None => {},
    }
    let ghost rv = runs.deep_view();
    if !result.contains_key("InvoiceNum") {
        let mut found: Option<String> = None;
        let mut i: usize = 0;
        assert(rv.take(0) =~= Seq::<Seq<char>>::empty());
        while i < runs.len()
            invariant
                i <= runs.len(),
                rv == runs.deep_view(),
                opt_view(found) == last_eight_run(rv.take(i as int)),
            decreases runs.len() - i,
        {
            assert(rv.take(i + 1).drop_last() == rv.take(i as int));
            assert(rv.take(i + 1).last() == runs@[i as int]@);
            let cv = chars_of(runs[i].as_str());
            if cv.len() == 8 {
                found = Some(runs[i].clone());
            }
            i += 1;
        }
        assert(rv.take(runs.len() as int) == rv);
        put_group_exec(&mut result, "InvoiceNum", found);
    }
    if !result.contains_key("InvoiceCode") {
        let mut found: Option<String> = None;
        let mut done = false;
        let mut i: usize = 0;
        while i < runs.len() && !done
            invariant
                i <= runs.len(),
                rv == runs.deep_view(),
                done ==> opt_view(found) == first_code_run(rv, 0),
                !done ==> found is None && first_code_run(rv, 0) == first_code_run(rv, i as int),
            decreases runs.len() - i + (if done { 0int } else { 1int }),
        {
            let cv = chars_of(runs[i].as_str());
            assert(cv@ == rv[i as int]);
            if cv.len() >= 10 && cv.len() <= 12 {
                found = Some(runs[i].clone());
                done = true;
            } else {
                i += 1;
            }
        }
        put_group_exec(&mut result, "InvoiceCode", found);
    }
    result
}

/// The invoice numbers of a text (see `invoice_numbers_spec`): the
/// patterns' matches, read by `invoice_numbers_from_matches`.
pub fn extract_invoice_numbers(text: &str) -> (r: FieldMap)
    ensures
        r@ == invoice_numbers_spec(text@),
{
    let digit_pat = "(?:发票号码数字|数电发票号码)\\s*[：:]?\\s*(\\d{4,32})";
    let firsts = match_texts(digit_pat, text);
    let digit = if firsts.len() > 0 {
        let ghost fv = firsts.deep_view();
        assert(fv[0] == firsts@[0]@);
        group(digit_pat, firsts[0].as_str(), 1)
    } else {
        None
    };
    let num = group("发票号码\\s*[：:]?\\s*(\\d{6,24})", text, 1);
    let code = group("发票代码\\s*[：:]?\\s*(\\d{10,12})", text, 1);
    let combined = group("(?i)\\bNo\\s*[:：]?\\s*(\\d{18})\\b", text, 1);
    let runs = match_texts("\\d+", text);
    proof {
        lemma_opt_view(digit);
        lemma_opt_view(num);
        lemma_opt_view(code);
        lemma_opt_view(combined);
    }
    invoice_numbers_from_matches(digit, num, code, combined, &runs)
}

// ------------------------------------------------------------------
// Date, signatures, sheet, province, type
// ------------------------------------------------------------------

/// A date: year, month and day separated by `年 . / -` and `月 . / -`.
pub open spec fn date_pattern() -> Seq<char> {
    "(\\d{4})\\s*[年./-]\\s*(\\d{1,2})\\s*[月./-]\\s*(\\d{1,2})\\s*日?"@
}

/// `str::parse::<u32>` with failure read as zero.
pub open spec fn parse_or_zero(s: Seq<char>) -> nat {
    match parse_uint(s, 10, 0xffff_ffff) {
        Some(v) => v,
        None => 0,
    }
}

/// A number written with at least two digits (`{:02}`).
pub open spec fn pad2(n: nat) -> Seq<char> {
    if n < 10 {
        seq!['0'] + decimal(n)
    } else {
        decimal(n)
    }
}

/// A date written `YYYY年MM月DD日`.
pub open spec fn date_text(y: Seq<char>, m: Seq<char>, d: Seq<char>) -> Seq<char> {
    y + "年"@ + pad2(parse_or_zero(m)) + "月"@ + pad2(parse_or_zero(d)) + "日"@
}

/// The groups 1 to 3 of the date pattern's first match.
pub open spec fn date_groups(text: Seq<char>) -> Option<(Seq<char>, Seq<char>, Seq<char>)> {
    match (re_group(date_pattern(), text, 1), re_group(date_pattern(), text, 2), re_group(date_pattern(), text, 3)) {
        (Some(y), Some(m), Some(d)) => Some((y, m, d)),
        _ => None,
    }
}

/// The signature after a label and a colon, up to the end of the line.
pub open spec fn signature_pattern(label: Seq<char>) -> Seq<char> {
    label + "\\s*[：:]\\s*([^\\n\\r]+)"@
}

/// The sheet: `第…联`.
pub open spec fn sheet_pattern() -> Seq<char> {
    "第[一二三四五六七八九十百0-9]+联"@
}

/// Two or three CJK characters before `省税务局` or `市税务局`.
pub open spec fn province_tax_pattern() -> Seq<char> {
    "([\\u{4e00}-\\u{9fa5}]{2,3})(?:省|市)税务局"@
}

/// Two or three CJK characters before `增值税` or `电子发票`.
pub open spec fn province_title_pattern() -> Seq<char> {
    "([\\u{4e00}-\\u{9fa5}]{2,3})(?:增值税|电子发票)"@
}

/// `m` with `k` set to the trimmed signature after `label`, when not empty.
pub open spec fn put_signature(m: Map<Seq<char>, Seq<char>>, text: Seq<char>, label: Seq<char>, k: Seq<char>) -> Map<
    Seq<char>,
    Seq<char>,
> {
    match re_group(signature_pattern(label), text, 1) {
        Some(v) => if trim(v).len() > 0 {
            m.insert(k, trim(v))
        } else {
            m
        },
        None => m,
    }
}

/// The invoice type a text announces.
pub open spec fn invoice_type_of(text: Seq<char>) -> Option<Seq<char>> {
    if contains(text, "电子发票"@) && contains(text, "专用"@) {
        Some("专用发票"@)
    } else if contains(text, "专用发票"@) {
        Some("专用发票"@)
    } else if contains(text, "普通发票"@) {
        Some("普通发票"@)
    } else {
        None
    }
}

/// The metadata of a recognized page: the invoice numbers, then date,
/// checker, payee, drawer, sheet, province and type of the text outside the
/// tables.
pub open spec fn metadata_spec(markdown: Seq<char>, blocks: Seq<(Seq<char>, Seq<char>)>) -> Map<
    Seq<char>,
    Seq<char>,
> {
    let text = non_table_text_spec(markdown, blocks);
    let m1 = invoice_numbers_spec(text);
    let m2 = match date_groups(text) {
        Some((y, mo, d)) => m1.insert("InvoiceDate"@, date_text(y, mo, d)),
        None => m1,
    };
    let m3 = put_signature(m2, text, "复核"@, "Checker"@);
    let m4 = put_signature(m3, text, "收款人"@, "Payee"@);
    let m5 = put_signature(m4, text, "开票人"@, "NoteDrawer"@);
    let m6 = put_group(m5, "SheetNum"@, first_match(sheet_pattern(), text));
    let m7 = match re_group(province_tax_pattern(), text, 1) {
        Some(p) => m6.insert("Province"@, p),
        None => put_group(m6, "Province"@, re_group(province_title_pattern(), text, 1)),
    };
    put_group(m7, "InvoiceType"@, invoice_type_of(text))
}

fn pad2_exec(s: &str) -> (r: Vec<char>)
    ensures
        r@ == pad2(parse_or_zero(s@)),
{
    let v = chars_of(s);
    let n: u64 = match parse_uint_exec(v.as_slice(), 10, 0xffff_ffff) {
        Some(x) => x,
        None => 0,
    };
    let d = decimal_chars(n);
    if n < 10 {
        let mut r: Vec<char> = Vec::new();
        r.push('0');
        crate::text::append_chars(&mut r, d.as_slice());
        assert(r@ =~= seq!['0'] + decimal(n as nat));
        r
    } else {
        d
    }
}

fn put_signature_exec(m: &mut FieldMap, text: &str, pattern: &str, key: &str)
    ensures
        forall|label: Seq<char>|
            pattern@ == signature_pattern(label) ==> final(m)@ == put_signature(old(m)@, text@, label, key@),
{
    match group(pattern, text, 1) {
        Some(v) => {
            let t = trim_str(v.as_str());
            if !t.as_str().is_empty() {
                m.insert(key.to_owned(), t);
            }
        },
        None => {},
    }
}

/// The metadata of a recognized page (see `metadata_spec`).
pub fn extract_metadata(markdown_text: &str, blocks: &[Block]) -> (r: FieldMap)
    ensures
        r@ == metadata_spec(markdown_text@, blocks_view(blocks@)),
{
    let text = extract_non_table_text(markdown_text, blocks);
    let t = text.as_str();
    let mut result = extract_invoice_numbers(t);
    let date_pat = "(\\d{4})\\s*[年./-]\\s*(\\d{1,2})\\s*[月./-]\\s*(\\d{1,2})\\s*日?";
    let y = group(date_pat, t, 1);
    let mo = group(date_pat, t, 2);
    let d = group(date_pat, t, 3);
    match (y, mo, d) {
        (Some(y), Some(mo), Some(d)) => {
            let mut date = chars_of(y.as_str());
            crate::text::append_chars(&mut date, chars_of("年").as_slice());
            crate::text::append_chars(&mut date, pad2_exec(mo.as_str()).as_slice());
            crate::text::append_chars(&mut date, chars_of("月").as_slice());
            crate::text::append_chars(&mut date, pad2_exec(d.as_str()).as_slice());
            crate::text::append_chars(&mut date, chars_of("日").as_slice());
            result.insert("InvoiceDate".to_owned(), string_of(date.as_slice()));
        },
        _ => {},
    }
    let ghost before = result@;
    put_signature_exec(&mut result, t, "复核\\s*[：:]\\s*([^\\n\\r]+)", "Checker");
    proof {
        reveal_strlit("复核\\s*[：:]\\s*([^\\n\\r]+)");
        reveal_strlit("复核");
        reveal_strlit("\\s*[：:]\\s*([^\\n\\r]+)");
        assert("复核\\s*[：:]\\s*([^\\n\\r]+)"@ == signature_pattern("复核"@));
    }
    put_signature_exec(&mut result, t, "收款人\\s*[：:]\\s*([^\\n\\r]+)", "Payee");
    proof {
        reveal_strlit("收款人\\s*[：:]\\s*([^\\n\\r]+)");
        reveal_strlit("收款人");
        assert("收款人\\s*[：:]\\s*([^\\n\\r]+)"@ == signature_pattern("收款人"@));
    }
    put_signature_exec(&mut result, t, "开票人\\s*[：:]\\s*([^\\n\\r]+)", "NoteDrawer");
    proof {
        reveal_strlit("开票人\\s*[：:]\\s*([^\\n\\r]+)");
        reveal_strlit("开票人");
        assert("开票人\\s*[：:]\\s*([^\\n\\r]+)"@ == signature_pattern("开票人"@));
    }
    let sheets = match_texts("第[一二三四五六七八九十百0-9]+联", t);
    if sheets.len() > 0 {
        let ghost sv = sheets.deep_view();
        assert(sv[0] == sheets@[0]@);
        result.insert("SheetNum".to_owned(), sheets[0].clone());
    }
    match group("([\\u{4e00}-\\u{9fa5}]{2,3})(?:省|市)税务局", t, 1) {
        Some(p) => {
            result.insert("Province".to_owned(), p);
        },
        None => {
            let g = group("([\\u{4e00}-\\u{9fa5}]{2,3})(?:增值税|电子发票)", t, 1);
            proof {
                lemma_opt_view(g);
            }
            put_group_exec(&mut result, "Province", g);
        },
    }
    let tv = chars_of(t);
    if contains_str(tv.as_slice(), "电子发票") && contains_str(tv.as_slice(), "专用") {
        result.insert("InvoiceType".to_owned(), "专用发票".to_owned());
    } else if contains_str(tv.as_slice(), "专用发票") {
        result.insert("InvoiceType".to_owned(), "专用发票".to_owned());
    } else if contains_str(tv.as_slice(), "普通发票") {
        result.insert("InvoiceType".to_owned(), "普通发票".to_owned());
    }
    result
}


// ------------------------------------------------------------------
// The invoice type
// ------------------------------------------------------------------

proof fn lemma_occurs_prefix(s: Seq<char>, i: int)
    requires
        occurs_at(s, "专用发票"@, i),
    ensures
        occurs_at(s, "专用"@, i),
{
    reveal_strlit("专用发票");
    reveal_strlit("专用");
    assert(s.subrange(i, i + 2) =~= s.subrange(i, i + 4).subrange(0, 2));
    assert("专用发票"@.subrange(0, 2) =~= "专用"@);
}

proof fn lemma_type_key_fresh(text: Seq<char>)
    ensures
        !invoice_numbers_spec(text).contains_key("InvoiceType"@),
{
    reveal_strlit("InvoiceType");
    reveal_strlit("InvoiceNumDigit");
    reveal_strlit("InvoiceNum");
    reveal_strlit("InvoiceCode");
    assert("InvoiceType"@.len() == 11 && "InvoiceCode"@.len() == 11 && "InvoiceNum"@.len() == 10);
    assert("InvoiceNumDigit"@.len() == 15);
    assert("InvoiceType"@[7] != "InvoiceCode"@[7]);
}

/// The invoice type of a page: when set it is 专用发票 or 普通发票; it is
/// 专用发票 only when the text outside the tables mentions 专用, and always
/// when it mentions 专用发票; a text that mentions 普通发票 but not 专用
/// gives 普通发票; a text that mentions neither gives no type.
pub proof fn lemma_invoice_type(markdown: Seq<char>, blocks: Seq<(Seq<char>, Seq<char>)>)
    ensures
        ({
            let m = metadata_spec(markdown, blocks);
            let t = non_table_text_spec(markdown, blocks);
            &&& m.contains_key("InvoiceType"@) ==> m["InvoiceType"@] == "专用发票"@ || m["InvoiceType"@] == "普通发票"@
            &&& m.contains_key("InvoiceType"@) && m["InvoiceType"@] == "专用发票"@ ==> contains(t, "专用"@)
            &&& contains(t, "专用发票"@) ==> m.contains_key("InvoiceType"@) && m["InvoiceType"@] == "专用发票"@
            &&& contains(t, "普通发票"@) && !contains(t, "专用"@) ==> m.contains_key("InvoiceType"@)
                && m["InvoiceType"@] == "普通发票"@
            &&& !contains(t, "普通发票"@) && !contains(t, "专用"@) ==> !m.contains_key("InvoiceType"@)
        }),
{
    let t = non_table_text_spec(markdown, blocks);
    reveal_strlit("专用发票");
    reveal_strlit("普通发票");
    reveal_strlit("专用");
    reveal_strlit("InvoiceType");
    reveal_strlit("InvoiceDate");
    reveal_strlit("Checker");
    reveal_strlit("Payee");
    reveal_strlit("NoteDrawer");
    reveal_strlit("SheetNum");
    reveal_strlit("Province");
    assert("专用发票"@[0] != "普通发票"@[0]);
    assert("InvoiceType"@.len() == 11 && "InvoiceDate"@.len() == 11);
    assert("InvoiceType"@[7] != "InvoiceDate"@[7]);
    assert("Checker"@.len() == 7 && "Payee"@.len() == 5 && "NoteDrawer"@.len() == 10);
    assert("SheetNum"@.len() == 8 && "Province"@.len() == 8);
    lemma_type_key_fresh(t);
    if contains(t, "专用发票"@) {
        let i = choose|i: int| occurs_at(t, "专用发票"@, i);
        lemma_occurs_prefix(t, i);
        assert(contains(t, "专用"@));
    }
    if contains(t, "电子发票"@) && contains(t, "专用"@) {
    }
}


/// The invoice numbers from what the patterns found: a labelled number or
/// code is taken as found; a missing number is the first eight digits of
/// an 18-digit `No` and a missing code the rest; still missing, the number
/// is the last run of exactly eight digits and the code the first run of
/// 10 to 12 digits; the digital-invoice number is taken as found.
pub proof fn lemma_invoice_numbers(
    digit: Option<Seq<char>>,
    num: Option<Seq<char>>,
    code: Option<Seq<char>>,
    combined: Option<Seq<char>>,
    runs: Seq<Seq<char>>,
)
    ensures
        ({
            let m = invoice_numbers_from(digit, num, code, combined, runs);
            let long = combined matches Some(d) && d.len() >= 8;
            &&& digit matches Some(d) ==> m.contains_key("InvoiceNumDigit"@) && m["InvoiceNumDigit"@] == d
            &&& num matches Some(n) ==> m.contains_key("InvoiceNum"@) && m["InvoiceNum"@] == n
            &&& code matches Some(c) ==> m.contains_key("InvoiceCode"@) && m["InvoiceCode"@] == c
            &&& num is None && long ==> m.contains_key("InvoiceNum"@) && m["InvoiceNum"@] == combined->0.take(8)
            &&& code is None && long ==> m.contains_key("InvoiceCode"@) && m["InvoiceCode"@] == combined->0.skip(
                8,
            )
            &&& num is None && !long ==> (match last_eight_run(runs) {
                Some(r) => m.contains_key("InvoiceNum"@) && m["InvoiceNum"@] == r && r.len() == 8,
                None => !m.contains_key("InvoiceNum"@),
            })
            &&& code is None && !long ==> (match first_code_run(runs, 0) {
                Some(r) => m.contains_key("InvoiceCode"@) && m["InvoiceCode"@] == r && 10 <= r.len() <= 12,
                None => !m.contains_key("InvoiceCode"@),
            })
        }),
{
    reveal_strlit("InvoiceNumDigit");
    reveal_strlit("InvoiceNum");
    reveal_strlit("InvoiceCode");
    assert("InvoiceNumDigit"@.len() == 15 && "InvoiceNum"@.len() == 10 && "InvoiceCode"@.len() == 11);
    lemma_last_eight(runs);
    lemma_first_code(runs, 0);
}

proof fn lemma_last_eight(runs: Seq<Seq<char>>)
    ensures
        last_eight_run(runs) matches Some(r) ==> r.len() == 8,
    decreases runs.len(),
{
    if runs.len() > 0 {
        lemma_last_eight(runs.drop_last());
    }
}

proof fn lemma_first_code(runs: Seq<Seq<char>>, k: int)
    ensures
        first_code_run(runs, k) matches Some(r) ==> 10 <= r.len() <= 12,
    decreases runs.len() - k,
{
    if 0 <= k < runs.len() {
        lemma_first_code(runs, k + 1);
    }
}


proof fn lemma_numbers_keys(text: Seq<char>, k: Seq<char>)
    requires
        k != "InvoiceNumDigit"@ && k != "InvoiceNum"@ && k != "InvoiceCode"@,
    ensures
        !invoice_numbers_spec(text).contains_key(k),
{
}

/// The signatures of a page: the checker is the trimmed text after the
/// 复核 label, the payee after 收款人 and the drawer after 开票人, each when
/// not empty and unset otherwise.
pub proof fn lemma_signatures(markdown: Seq<char>, blocks: Seq<(Seq<char>, Seq<char>)>)
    ensures
        ({
            let m = metadata_spec(markdown, blocks);
            let t = non_table_text_spec(markdown, blocks);
            &&& signed(m, "Checker"@, re_group(signature_pattern("复核"@), t, 1))
            &&& signed(m, "Payee"@, re_group(signature_pattern("收款人"@), t, 1))
            &&& signed(m, "NoteDrawer"@, re_group(signature_pattern("开票人"@), t, 1))
        }),
{
    let t = non_table_text_spec(markdown, blocks);
    reveal_strlit("InvoiceNumDigit");
    reveal_strlit("InvoiceNum");
    reveal_strlit("InvoiceCode");
    reveal_strlit("InvoiceDate");
    reveal_strlit("Checker");
    reveal_strlit("Payee");
    reveal_strlit("NoteDrawer");
    reveal_strlit("SheetNum");
    reveal_strlit("Province");
    reveal_strlit("InvoiceType");
    assert("InvoiceNumDigit"@.len() == 15 && "InvoiceNum"@.len() == 10 && "InvoiceCode"@.len() == 11);
    assert("InvoiceDate"@.len() == 11 && "Checker"@.len() == 7 && "Payee"@.len() == 5);
    assert("NoteDrawer"@.len() == 10 && "SheetNum"@.len() == 8 && "Province"@.len() == 8);
    assert("InvoiceType"@.len() == 11);
    assert("NoteDrawer"@[0] != "InvoiceNum"@[0]);
    lemma_numbers_keys(t, "Checker"@);
    lemma_numbers_keys(t, "Payee"@);
    lemma_numbers_keys(t, "NoteDrawer"@);
}

/// `m` holds the trimmed signature `g` under `k` when it is not empty, and
/// nothing under `k` otherwise.
pub open spec fn signed(m: Map<Seq<char>, Seq<char>>, k: Seq<char>, g: Option<Seq<char>>) -> bool {
    match g {
        Some(v) => if trim(v).len() > 0 {
            m.contains_key(k) && m[k] == trim(v)
        } else {
            !m.contains_key(k)
        },
        None => !m.contains_key(k),
    }
}

} // verus!
