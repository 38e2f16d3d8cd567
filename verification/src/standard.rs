//! The standard result (every field of the invoice schema, list fields as
//! row lists) and the merging of sparse results of several pages.

use vstd::prelude::*;
use crate::field_map::FieldMap;
use crate::parties::get_or_empty;
use crate::row_list::{RowItem, items_view, json_list, row_list_json};
use crate::json::{parse_row_list, read_list};
use crate::text::{chars_of, decimal, decimal_chars, str_eq, string_of, strs_of, trim, trim_str};

verus! {

// ------------------------------------------------------------------
// The schema
// ------------------------------------------------------------------

/// The fields of the standard result, in schema order.
pub open spec fn standard_fields() -> Seq<Seq<char>> {
    seq![
        "InvoiceNumDigit"@, "ServiceType"@, "InvoiceNum"@, "InvoiceNumConfirm"@,
        "SellerName"@, "CommodityTaxRate"@, "SellerBank"@, "Checker"@,
        "TotalAmount"@, "CommodityAmount"@, "InvoiceDate"@, "CommodityTax"@,
        "PurchaserName"@, "CommodityNum"@, "Province"@, "City"@, "SheetNum"@,
        "Agent"@, "PurchaserBank"@, "Remarks"@, "Password"@, "SellerAddress"@,
        "PurchaserAddress"@, "InvoiceCode"@, "InvoiceCodeConfirm"@,
        "CommodityUnit"@, "Payee"@, "PurchaserRegisterNum"@, "CommodityPrice"@,
        "NoteDrawer"@, "AmountInWords"@, "AmountInFigures"@, "TotalTax"@,
        "InvoiceType"@, "SellerRegisterNum"@, "CommodityName"@, "CommodityType"@,
        "CommodityPlateNum"@, "CommodityVehicleType"@, "CommodityStartDate"@,
        "CommodityEndDate"@, "OnlinePay"@,
    ]
}

/// The fields that hold one value per commodity (row lists).
pub open spec fn is_list_field(f: Seq<char>) -> bool {
    ||| f == "CommodityTaxRate"@
    ||| f == "CommodityAmount"@
    ||| f == "CommodityTax"@
    ||| f == "CommodityNum"@
    ||| f == "CommodityUnit"@
    ||| f == "CommodityPrice"@
    ||| f == "CommodityName"@
    ||| f == "CommodityType"@
    ||| f == "CommodityPlateNum"@
    ||| f == "CommodityVehicleType"@
    ||| f == "CommodityStartDate"@
    ||| f == "CommodityEndDate"@
}

/// Whether `f` is a list field.
pub fn is_list_field_exec(f: &str) -> (r: bool)
    ensures
        r == is_list_field(f@),
{
    str_eq(f, "CommodityTaxRate") || str_eq(f, "CommodityAmount") || str_eq(f, "CommodityTax")
        || str_eq(f, "CommodityNum") || str_eq(f, "CommodityUnit") || str_eq(f, "CommodityPrice")
        || str_eq(f, "CommodityName") || str_eq(f, "CommodityType") || str_eq(f, "CommodityPlateNum")
        || str_eq(f, "CommodityVehicleType") || str_eq(f, "CommodityStartDate") || str_eq(
        f,
        "CommodityEndDate",
    )
}

/// The row list a stored text holds: none for an empty text or a text
/// from which serde_json reads no row list.
pub open spec fn list_value(v: Seq<char>) -> Seq<(Seq<char>, Seq<char>)> {
    if v.len() == 0 {
        Seq::empty()
    } else {
        match read_list(v) {
            Some(items) => items,
            None => Seq::empty(),
        }
    }
}

fn list_value_exec(v: &str) -> (r: Vec<RowItem>)
    ensures
        items_view(r@) == list_value(v@),
{
    if v.is_empty() {
        let r: Vec<RowItem> = Vec::new();
        assert(items_view(r@) =~= Seq::<(Seq<char>, Seq<char>)>::empty());
        return r;
    }
    match parse_row_list(v) {
        Some(items) => items,
        None => {
            let r: Vec<RowItem> = Vec::new();
            assert(items_view(r@) =~= Seq::<(Seq<char>, Seq<char>)>::empty());
            r
        },
    }
}

// ------------------------------------------------------------------
// The standard result
// ------------------------------------------------------------------

/// A field value of the standard result: a text, or a row list.
pub enum WordValue {
    Text(String),
    Rows(Vec<RowItem>),
}

/// The mathematical content of a `WordValue`.
pub enum WordView {
    Text(Seq<char>),
    Rows(Seq<(Seq<char>, Seq<char>)>),
}

impl View for WordValue {
    type V = WordView;

    open spec fn view(&self) -> WordView {
        match self {
            WordValue::Text(s) => WordView::Text(s@),
            WordValue::Rows(v) => WordView::Rows(items_view(v@)),
        }
    }
}

impl WordValue {
    /// The text, for a text value.
    pub fn as_text(&self) -> (r: Option<&String>)
        ensures
            match self@ {
                WordView::Text(s) => r matches Some(x) && x@ == s,
                WordView::Rows(_) => r is None,
            },
    {
        match self {
            WordValue::Text(s) => Some(s),
            WordValue::Rows(_) => None,
        }
    }

    /// The row list, for a list value.
    pub fn as_rows(&self) -> (r: Option<&Vec<RowItem>>)
        ensures
            match self@ {
                WordView::Rows(items) => r matches Some(x) && items_view(x@) == items,
                WordView::Text(_) => r is None,
            },
    {
        match self {
            WordValue::Rows(v) => Some(v),
            WordValue::Text(_) => None,
        }
    }
}

/// The value of field `f` in the standard result of `sparse`: the confirm
/// fields repeat the invoice number and code, an empty service type reads
/// `其他` and an empty agent `否`; list fields hold the row list stored in
/// the sparse result, the others its text (empty when absent).
pub open spec fn standard_value(sparse: Map<Seq<char>, Seq<char>>, f: Seq<char>) -> WordView {
    if f == "InvoiceNumConfirm"@ {
        WordView::Text(get_or_empty(sparse, "InvoiceNum"@))
    } else if f == "InvoiceCodeConfirm"@ {
        WordView::Text(get_or_empty(sparse, "InvoiceCode"@))
    } else if f == "ServiceType"@ {
        WordView::Text(
            if get_or_empty(sparse, f).len() == 0 {
                "其他"@
            } else {
                get_or_empty(sparse, f)
            },
        )
    } else if f == "Agent"@ {
        WordView::Text(
            if get_or_empty(sparse, f).len() == 0 {
                "否"@
            } else {
                get_or_empty(sparse, f)
            },
        )
    } else if is_list_field(f) {
        WordView::Rows(list_value(get_or_empty(sparse, f)))
    } else {
        WordView::Text(get_or_empty(sparse, f))
    }
}

/// The entries of the standard result, in schema order.
pub open spec fn standard_words(sparse: Map<Seq<char>, Seq<char>>) -> Seq<(Seq<char>, WordView)> {
    standard_fields().map_values(|f: Seq<char>| (f, standard_value(sparse, f)))
}

/// How many recognized values an entry holds: the rows of a list, one for
/// a non-empty text.
pub open spec fn value_count(v: WordView) -> nat {
    match v {
        WordView::Rows(items) => items.len(),
        WordView::Text(s) => if s.len() > 0 {
            1
        } else {
            0
        },
    }
}

/// The number of recognized values of some entries.
pub open spec fn words_count(w: Seq<(Seq<char>, WordView)>) -> nat
    decreases w.len(),
{
    if w.len() == 0 {
        0
    } else {
        words_count(w.drop_last()) + value_count(w.last().1)
    }
}

/// A decimal integer with its sign.
pub open spec fn int_decimal(n: int) -> Seq<char> {
    if n < 0 {
        seq!['-'] + decimal((-n) as nat)
    } else {
        decimal(n as nat)
    }
}

/// The log id: the first 19 characters of the decimal time stamp in
/// nanoseconds (`0` when it is out of range).
pub open spec fn log_id_spec(now_nanos: Option<i64>) -> Seq<char> {
    let s = match now_nanos {
        Some(n) => int_decimal(n as int),
        None => seq!['0'],
    };
    if s.len() > 19 {
        s.take(19)
    } else {
        s
    }
}

/// The standard result of a recognized invoice.
pub struct StandardResult {
    pub log_id: String,
    pub words_result_num: u64,
    pub words_result: Vec<(String, WordValue)>,
}

/// The views of the entries of a standard result.
pub open spec fn words_view(w: Seq<(String, WordValue)>) -> Seq<(Seq<char>, WordView)> {
    w.map_values(|e: (String, WordValue)| (e.0@, e.1@))
}

impl StandardResult {
    /// The value of field `key`.
    pub fn get(&self, key: &str) -> (r: Option<&WordValue>)
        ensures
            match r {
                Some(v) => exists|i: int|
                    0 <= i < self.words_result@.len() && self.words_result@[i].0@ == key@
                        && self.words_result@[i].1 == *v && forall|j: int|
                        0 <= j < i ==> self.words_result@[j].0@ != key@,
                None => forall|i: int| 0 <= i < self.words_result@.len() ==> self.words_result@[i].0@ != key@,
            },
    {
        let mut i: usize = 0;
        while i < self.words_result.len()
            invariant
                i <= self.words_result@.len(),
                forall|j: int| 0 <= j < i ==> self.words_result@[j].0@ != key@,
            decreases self.words_result.len() - i,
        {
            if str_eq(self.words_result[i].0.as_str(), key) {
                return Some(&self.words_result[i].1);
            }
            i += 1;
        }
        None
    }
}

fn standard_value_exec(sparse: &FieldMap, f: &str) -> (r: WordValue)
    ensures
        r@ == standard_value(sparse@, f@),
{
    if str_eq(f, "InvoiceNumConfirm") {
        WordValue::Text(sparse.get_or_empty("InvoiceNum"))
    } else if str_eq(f, "InvoiceCodeConfirm") {
        WordValue::Text(sparse.get_or_empty("InvoiceCode"))
    } else if str_eq(f, "ServiceType") {
        let v = sparse.get_or_empty(f);
        if v.as_str().is_empty() {
            WordValue::Text("其他".to_owned())
        } else {
            WordValue::Text(v)
        }
    } else if str_eq(f, "Agent") {
        let v = sparse.get_or_empty(f);
        if v.as_str().is_empty() {
            WordValue::Text("否".to_owned())
        } else {
            WordValue::Text(v)
        }
    } else if is_list_field_exec(f) {
        let v = sparse.get_or_empty(f);
        WordValue::Rows(list_value_exec(v.as_str()))
    } else {
        WordValue::Text(sparse.get_or_empty(f))
    }
}

fn push_word(words: &mut Vec<(String, WordValue)>, sparse: &FieldMap, f: &str)
    ensures
        words_view(final(words)@) == words_view(old(words)@).push((f@, standard_value(sparse@, f@))),
{
    let v = standard_value_exec(sparse, f);
    let ghost before = words@;
    words.push((f.to_owned(), v));
    assert(words_view(words@) =~= words_view(before).push((f@, standard_value(sparse@, f@))));
}

fn count_words(words: &Vec<(String, WordValue)>) -> (r: u64)
    ensures
        r == (if words_count(words_view(words@)) > u64::MAX {
            u64::MAX as nat
        } else {
            words_count(words_view(words@))
        }),
{
    let ghost wv = words_view(words@);
    let mut count: u64 = 0;
    let mut i: usize = 0;
    while i < words.len()
        invariant
            i <= words.len(),
            wv == words_view(words@),
            count == (if words_count(wv.take(i as int)) > u64::MAX {
                u64::MAX as nat
            } else {
                words_count(wv.take(i as int))
            }),
        decreases words.len() - i,
    {
        assert(wv.take(i + 1).drop_last() == wv.take(i as int));
        assert(wv.take(i + 1).last() == wv[i as int]);
        let n: u64 = match &words[i].1 {
            WordValue::Rows(items) => {
                assert(items_view(items@).len() == items@.len());
                items.len() as u64
            },
            WordValue::Text(s) => if s.as_str().is_empty() {
                0
            } else {
                1
            },
        };
        count = count.saturating_add(n);
        i += 1;
    }
    assert(wv.take(words.len() as int) == wv);
    count
}

fn int_decimal_exec(n: i64) -> (r: Vec<char>)
    ensures
        r@ == int_decimal(n as int),
{
    if n < 0 {
        let mag: u64 = (0i128 - (n as i128)) as u64;
        let d = decimal_chars(mag);
        let mut r: Vec<char> = Vec::new();
        r.push('-');
        crate::text::append_chars(&mut r, d.as_slice());
        assert(r@ =~= seq!['-'] + decimal((-(n as int)) as nat));
        r
    } else {
        decimal_chars(n as u64)
    }
}

/// The log id of a time stamp (see `log_id_spec`).
fn log_id_of(now_nanos: Option<i64>) -> (r: String)
    ensures
        r@ == log_id_spec(now_nanos),
{
    let s: Vec<char> = match now_nanos {
        Some(n) => int_decimal_exec(n),
        None => {
            let mut z: Vec<char> = Vec::new();
            z.push('0');
            assert(z@ =~= seq!['0']);
            z
        },
    };
    if s.len() > 19 {
        let t = crate::text::slice_chars(s.as_slice(), 0, 19);
        assert(t@ =~= s@.take(19));
        string_of(t.as_slice())
    } else {
        string_of(s.as_slice())
    }
}

/// The standard result of `sparse` with the given time stamp: every schema
/// field once, in schema order, with its standard value; the count of
/// recognized values (saturating); and the log id of the time stamp.
pub fn make_standard_result_at(sparse: &FieldMap, now_nanos: Option<i64>) -> (r: StandardResult)
    ensures
        words_view(r.words_result@) == standard_words(sparse@),
        r.words_result_num == (if words_count(standard_words(sparse@)) > u64::MAX {
            u64::MAX as nat
        } else {
            words_count(standard_words(sparse@))
        }),
        r.log_id@ == log_id_spec(now_nanos),
{
    let mut words: Vec<(String, WordValue)> = Vec::new();
    push_word(&mut words, sparse, "InvoiceNumDigit");
    push_word(&mut words, sparse, "ServiceType");
    push_word(&mut words, sparse, "InvoiceNum");
    push_word(&mut words, sparse, "InvoiceNumConfirm");
    push_word(&mut words, sparse, "SellerName");
    push_word(&mut words, sparse, "CommodityTaxRate");
    push_word(&mut words, sparse, "SellerBank");
    push_word(&mut words, sparse, "Checker");
    push_word(&mut words, sparse, "TotalAmount");
    push_word(&mut words, sparse, "CommodityAmount");
    push_word(&mut words, sparse, "InvoiceDate");
    push_word(&mut words, sparse, "CommodityTax");
    push_word(&mut words, sparse, "PurchaserName");
    push_word(&mut words, sparse, "CommodityNum");
    push_word(&mut words, sparse, "Province");
    push_word(&mut words, sparse, "City");
    push_word(&mut words, sparse, "SheetNum");
    push_word(&mut words, sparse, "Agent");
    push_word(&mut words, sparse, "PurchaserBank");
    push_word(&mut words, sparse, "Remarks");
    push_word(&mut words, sparse, "Password");
    push_word(&mut words, sparse, "SellerAddress");
    push_word(&mut words, sparse, "PurchaserAddress");
    push_word(&mut words, sparse, "InvoiceCode");
    push_word(&mut words, sparse, "InvoiceCodeConfirm");
    push_word(&mut words, sparse, "CommodityUnit");
    push_word(&mut words, sparse, "Payee");
    push_word(&mut words, sparse, "PurchaserRegisterNum");
    push_word(&mut words, sparse, "CommodityPrice");
    push_word(&mut words, sparse, "NoteDrawer");
    push_word(&mut words, sparse, "AmountInWords");
    push_word(&mut words, sparse, "AmountInFigures");
    push_word(&mut words, sparse, "TotalTax");
    push_word(&mut words, sparse, "InvoiceType");
    push_word(&mut words, sparse, "SellerRegisterNum");
    push_word(&mut words, sparse, "CommodityName");
    push_word(&mut words, sparse, "CommodityType");
    push_word(&mut words, sparse, "CommodityPlateNum");
    push_word(&mut words, sparse, "CommodityVehicleType");
    push_word(&mut words, sparse, "CommodityStartDate");
    push_word(&mut words, sparse, "CommodityEndDate");
    push_word(&mut words, sparse, "OnlinePay");
    assert(words_view(words@) =~= standard_words(sparse@));
    let count = count_words(&words);
    StandardResult { log_id: log_id_of(now_nanos), words_result_num: count, words_result: words }
}

/// `std::time::UNIX_EPOCH.elapsed()` (`SystemTime::elapsed`): the time
/// since the epoch as whole seconds and the nanoseconds of the last,
/// partial second, which `Duration::subsec_nanos` documents as below one
/// billion; `None` when the clock reads before the epoch.  Nothing else is
/// claimed of the value: it is the clock's.
#[verifier::external_body]
fn time_since_epoch() -> (r: Option<(u64, u32)>)
    ensures
        r matches Some((_s, n)) ==> n < 1_000_000_000,
{
    match std::time::UNIX_EPOCH.elapsed() {
        Ok(d) => Some((d.as_secs(), d.subsec_nanos())),
        Err(_) => None,
    }
}

/// The time stamp in nanoseconds of a time `secs` seconds and `nanos`
/// nanoseconds after the epoch, when it fits an `i64`.
pub open spec fn epoch_nanos_spec(secs: u64, nanos: u32) -> Option<i64> {
    let t = secs * 1_000_000_000 + nanos;
    if t <= i64::MAX {
        Some(t as i64)
    } else {
        None
    }
}

/// The time stamp in nanoseconds (see `epoch_nanos_spec`).
pub fn epoch_nanos(secs: u64, nanos: u32) -> (r: Option<i64>)
    ensures
        r == epoch_nanos_spec(secs, nanos),
{
    let t: u128 = secs as u128 * 1_000_000_000u128 + nanos as u128;
    if t <= 0x7fff_ffff_ffff_ffffu128 {
        Some(t as i64)
    } else {
        None
    }
}

/// The standard result of `sparse` at the current time: as
/// `make_standard_result_at`, for some time stamp.
pub fn make_standard_result(sparse: &FieldMap) -> (r: StandardResult)
    ensures
        words_view(r.words_result@) == standard_words(sparse@),
        r.words_result_num == (if words_count(standard_words(sparse@)) > u64::MAX {
            u64::MAX as nat
        } else {
            words_count(standard_words(sparse@))
        }),
        exists|t: Option<i64>| (t matches Some(n) ==> n >= 0) && r.log_id@ == log_id_spec(t),
{
    let now = match time_since_epoch() {
        Some((secs, nanos)) => epoch_nanos(secs, nanos),
        None => None,
    };
    make_standard_result_at(sparse, now)
}

// ------------------------------------------------------------------
// Merging sparse results
// ------------------------------------------------------------------

/// A row item that repeats one of `list`: same row and same trimmed word.
pub open spec fn is_dup(list: Seq<(Seq<char>, Seq<char>)>, item: (Seq<char>, Seq<char>)) -> bool {
    exists|j: int|
        0 <= j < list.len() && #[trigger] list[j].1 == item.1 && trim(list[j].0) == trim(item.0)
}

/// `existing` followed by the items of `incoming` that repeat none before them.
pub open spec fn merge_items(
    existing: Seq<(Seq<char>, Seq<char>)>,
    incoming: Seq<(Seq<char>, Seq<char>)>,
) -> Seq<(Seq<char>, Seq<char>)>
    decreases incoming.len(),
{
    if incoming.len() == 0 {
        existing
    } else {
        let acc = merge_items(existing, incoming.drop_last());
        if is_dup(acc, incoming.last()) {
            acc
        } else {
            acc.push(incoming.last())
        }
    }
}

/// Whether `s` brings a value for `k`.
pub open spec fn brings(s: Map<Seq<char>, Seq<char>>, k: Seq<char>) -> bool {
    s.contains_key(k) && s[k].len() > 0
}

/// The value of `k` after merging: a list field gets the merged row list;
/// another field keeps a non-empty value and otherwise takes the new one.
pub open spec fn merged_value(t: Map<Seq<char>, Seq<char>>, s: Map<Seq<char>, Seq<char>>, k: Seq<char>) -> Seq<char> {
    if brings(s, k) {
        if is_list_field(k) {
            json_list(merge_items(list_value(get_or_empty(t, k)), list_value(s[k])))
        } else if !t.contains_key(k) || t[k].len() == 0 {
            s[k]
        } else {
            t[k]
        }
    } else {
        t[k]
    }
}

/// `t` after merging the sparse result `s` into it.
pub open spec fn merge_sparse_spec(t: Map<Seq<char>, Seq<char>>, s: Map<Seq<char>, Seq<char>>) -> Map<
    Seq<char>,
    Seq<char>,
> {
    Map::new(|k: Seq<char>| t.contains_key(k) || brings(s, k), |k: Seq<char>| merged_value(t, s, k))
}

fn same_trimmed(a: &String, b: &String) -> (r: bool)
    ensures
        r == (trim(a@) == trim(b@)),
{
    let ta = trim_str(a.as_str());
    let tb = trim_str(b.as_str());
    str_eq(ta.as_str(), tb.as_str())
}

fn merge_items_exec(existing: &mut Vec<RowItem>, incoming: &Vec<RowItem>)
    ensures
        items_view(final(existing)@) == merge_items(items_view(old(existing)@), items_view(incoming@)),
{
    let ghost start = items_view(existing@);
    let ghost iv = items_view(incoming@);
    let mut i: usize = 0;
    while i < incoming.len()
        invariant
            i <= incoming.len(),
            iv == items_view(incoming@),
            items_view(existing@) == merge_items(start, iv.take(i as int)),
        decreases incoming.len() - i,
    {
        assert(iv.take(i + 1).drop_last() == iv.take(i as int));
        assert(iv.take(i + 1).last() == incoming@[i as int]@);
        let item = &incoming[i];
        let ghost acc = items_view(existing@);
        let mut dup = false;
        {
            let mut j: usize = 0;
            while j < existing.len() && !dup
                invariant
                    j <= existing.len(),
                    acc == items_view(existing@),
                    dup ==> is_dup(acc, item@),
                    !dup ==> forall|q: int|
                        0 <= q < j ==> !(#[trigger] acc[q].1 == item.row@ && trim(acc[q].0) == trim(
                            item.word@,
                        )),
                decreases existing.len() - j + (if dup { 0int } else { 1int }),
            {
                let e = &existing[j];
                assert(acc[j as int] == e@);
                if str_eq(e.row.as_str(), item.row.as_str()) && same_trimmed(&e.word, &item.word) {
                    assert(acc[j as int].1 == item@.1 && trim(acc[j as int].0) == trim(item@.0));
                    dup = true;
                } else {
                    j += 1;
                }
            }
        }
        if !dup {
            let ghost before = existing@;
            existing.push(item.clone());
            assert(items_view(existing@) =~= items_view(before).push(item@));
        }
        i += 1;
    }
    assert(iv.take(incoming.len() as int) == iv);
}

fn merged_value_exec(target: &FieldMap, field: &String, value: &String) -> (r: Option<String>)
    requires
        value@.len() > 0,
    ensures
        match r {
            Some(v) => v@ == merged_value(target@, map![field@ => value@], field@) && (is_list_field(field@)
                || !target@.contains_key(field@) || target@[field@].len() == 0),
            None => !is_list_field(field@) && target@.contains_key(field@) && target@[field@].len() > 0,
        },
{
    let ghost s = map![field@ => value@];
    assert(brings(s, field@));
    if is_list_field_exec(field.as_str()) {
        let existing_text = target.get_or_empty(field.as_str());
        let mut existing = list_value_exec(existing_text.as_str());
        let incoming = list_value_exec(value.as_str());
        merge_items_exec(&mut existing, &incoming);
        Some(row_list_json(&existing))
    } else {
        match target.get(field.as_str()) {
            Some(v) => {
                if v.as_str().is_empty() {
                    Some(value.clone())
                } else {
                    None
                }
            },
            None => Some(value.clone()),
        }
    }
}

/// Some key among the first `i` has the view `q`.
pub open spec fn seen(keys: Seq<String>, i: int, q: Seq<char>) -> bool {
    exists|j: int| 0 <= j < i && #[trigger] keys[j]@ == q
}

/// `a` and `b` agree on `q`.
pub open spec fn agree(a: Map<Seq<char>, Seq<char>>, b: Map<Seq<char>, Seq<char>>, q: Seq<char>) -> bool {
    a.contains_key(q) == b.contains_key(q) && (a.contains_key(q) ==> a[q] == b[q])
}

/// Merges the sparse result of another page or file into `target`: list
/// fields get the new row items that repeat none already there (same row,
/// same trimmed word); other fields keep a non-empty value and
/// otherwise take the new one; empty new values are ignored.
pub fn merge_sparse_results(target: &mut FieldMap, source: FieldMap)
    ensures
        final(target)@ == merge_sparse_spec(old(target)@, source@),
{
    let keys = source.keys();
    let ghost t0 = target@;
    let ghost sm = source@;
    let ghost goal = merge_sparse_spec(t0, sm);
    let mut i: usize = 0;
    while i < keys.len()
        invariant
            i <= keys.len(),
            sm == source@,
            goal == merge_sparse_spec(t0, sm),
            forall|j: int| 0 <= j < keys@.len() ==> sm.contains_key(#[trigger] keys@[j]@),
            forall|j1: int, j2: int| 0 <= j1 < j2 < keys@.len() ==> keys@[j1]@ != keys@[j2]@,
            forall|q: Seq<char>|
                #![trigger seen(keys@, i as int, q)]
                (seen(keys@, i as int, q) ==> agree(target@, goal, q)) && (!seen(keys@, i as int, q)
                    ==> agree(target@, t0, q)),
        decreases keys.len() - i,
    {
        let field = &keys[i];
        let ghost k = field@;
        assert(sm.contains_key(k));
        assert(!seen(keys@, i as int, k)) by {
            if seen(keys@, i as int, k) {
                let j = choose|j: int| 0 <= j < i && #[trigger] keys@[j]@ == k;
                assert(keys@[j]@ != keys@[i as int]@);
            }
        }
        assert(agree(target@, t0, k));
        let value = source.get_or_empty(field.as_str());
        let ghost before = target@;
        if !value.as_str().is_empty() {
            let ghost s1 = map![k => value@];
            match merged_value_exec(target, field, &value) {
                Some(v) => {
                    target.insert(field.clone(), v);
                    assert(merged_value(before, s1, k) == merged_value(t0, sm, k));
                },
                None => {},
            }
        }
        assert(agree(target@, goal, k));
        proof {
            assert forall|q: Seq<char>|
                #![trigger seen(keys@, i + 1, q)]
                (seen(keys@, i + 1, q) ==> agree(target@, goal, q)) && (!seen(keys@, i + 1, q) ==> agree(
                    target@,
                    t0,
                    q,
                )) by {
                if q == k {
                    assert(keys@[i as int]@ == q);
                    assert(seen(keys@, i + 1, q));
                } else {
                    assert(agree(target@, before, q));
                    if seen(keys@, i + 1, q) {
                        let j = choose|j: int| 0 <= j < i + 1 && #[trigger] keys@[j]@ == q;
                        assert(j < i);
                        assert(seen(keys@, i as int, q));
                    } else {
                        if seen(keys@, i as int, q) {
                            let j = choose|j: int| 0 <= j < i && #[trigger] keys@[j]@ == q;
                            assert(0 <= j < i + 1 && keys@[j]@ == q);
                        }
                        assert(!seen(keys@, i as int, q));
                    }
                }
            }
        }
        i += 1;
    }
    proof {
        assert forall|q: Seq<char>| agree(target@, goal, q) by {
            if seen(keys@, keys@.len() as int, q) {
            } else {
                if sm.contains_key(q) {
                    assert(strs_of(keys@).contains(q));
                    let j = choose|j: int| 0 <= j < keys@.len() && strs_of(keys@)[j] == q;
                    assert(keys@[j]@ == q);
                    assert(seen(keys@, keys@.len() as int, q));
                }
            }
        }
        assert(target@ =~= goal) by {
            assert forall|q: Seq<char>| #[trigger] target@.contains_key(q) <==> goal.contains_key(q) by {
                assert(agree(target@, goal, q));
            }
            assert forall|q: Seq<char>| #[trigger] target@.contains_key(q) implies target@[q] == goal[q] by {
                assert(agree(target@, goal, q));
            }
        }
    }
}

// ------------------------------------------------------------------
// Back to sparse form
// ------------------------------------------------------------------

/// The sparse fields of the first `n` entries of a standard result: every
/// non-empty text, and every non-empty row list as its JSON text.
pub open spec fn to_sparse_upto(w: Seq<(Seq<char>, WordView)>, n: int) -> Map<Seq<char>, Seq<char>>
    decreases n,
{
    if n <= 0 {
        Map::empty()
    } else {
        let m = to_sparse_upto(w, n - 1);
        let e = w[n - 1];
        match e.1 {
            WordView::Text(s) => if s.len() > 0 {
                m.insert(e.0, s)
            } else {
                m
            },
            WordView::Rows(items) => if items.len() > 0 {
                m.insert(e.0, json_list(items))
            } else {
                m
            },
        }
    }
}

/// The sparse fields of a standard result, for merging it with others
/// (see `to_sparse_upto`).
pub fn standard_to_sparse(parsed: &StandardResult) -> (r: FieldMap)
    ensures
        r@ == to_sparse_upto(words_view(parsed.words_result@), parsed.words_result@.len() as int),
{
    let ghost w = words_view(parsed.words_result@);
    let mut sparse = FieldMap::new();
    let mut i: usize = 0;
    while i < parsed.words_result.len()
        invariant
            i <= parsed.words_result@.len(),
            w == words_view(parsed.words_result@),
            sparse@ == to_sparse_upto(w, i as int),
        decreases parsed.words_result.len() - i,
    {
        let entry = &parsed.words_result[i];
        assert(w[i as int] == (entry.0@, entry.1@));
        match &entry.1 {
            WordValue::Text(s) => {
                if !s.as_str().is_empty() {
                    sparse.insert(entry.0.clone(), s.clone());
                }
            },
            WordValue::Rows(items) => {
                if items.len() > 0 {
                    sparse.insert(entry.0.clone(), row_list_json(items));
                }
            },
        }
        i += 1;
    }
    sparse
}

} // verus!
