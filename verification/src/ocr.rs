//! The OCR services: provider settings, recognized pages, and the direct
//! mapping of SCNet responses to sparse invoice fields.

use vstd::prelude::*;
use crate::field_map::FieldMap;
pub use crate::json::JsonValue;
use crate::metadata::{Block, blocks_view};
use crate::parties::{split_lines, split_lines_exec};
use crate::json::{json_parse, json_value_parse, jview, JView};
use crate::row_list::{json_list, lemma_row_list_roundtrip, make_row_list, parse_list, row_list_json, row_list_spec};
use crate::text::{chars_of, contains, contains_str, decimal, seqs_of, slice_chars, str_eq, string_of, trim, trim_chars, trim_str};

verus! {

// ------------------------------------------------------------------
// Providers and settings
// ------------------------------------------------------------------

/// The OCR service in use.
#[derive(Clone, Copy, Debug, PartialEq, Eq, Structural)]
pub enum OcrProvider {
    Paddleocr,
    Scnet,
}

impl Default for OcrProvider {
    fn default() -> (r: OcrProvider)
        ensures
            r == OcrProvider::Paddleocr,
    {
        OcrProvider::Paddleocr
    }
}

impl OcrProvider {
    /// The name shown to the user.
    pub fn to_string(&self) -> (r: String)
        ensures
            r@ == (match self {
                OcrProvider::Paddleocr => "PaddleOCR VL"@,
                OcrProvider::Scnet => "SCNet OCR"@,
            }),
    {
        match self {
            OcrProvider::Paddleocr => "PaddleOCR VL".to_owned(),
            OcrProvider::Scnet => "SCNet OCR".to_owned(),
        }
    }
}

/// The job endpoint of PaddleOCR used when none is configured.
pub open spec fn default_paddleocr_url() -> Seq<char> {
    "https://paddleocr.aistudio-app.com/api/v2/ocr/jobs"@
}

/// The recognition endpoint of SCNet used when none is configured.
pub open spec fn default_scnet_url() -> Seq<char> {
    "https://api.scnet.cn/api/llm/v1/ocr/recognize"@
}

/// The SCNet recognition type used when none is configured.
pub open spec fn default_scnet_ocr_type() -> Seq<char> {
    "GENERAL"@
}

/// The OCR settings.
#[derive(Clone, Debug)]
pub struct OcrSettings {
    pub provider: OcrProvider,
    pub paddleocr_url: String,
    pub paddleocr_token: String,
    pub scnet_url: String,
    pub scnet_token: String,
    pub scnet_ocr_type: String,
}

impl Default for OcrSettings {
    fn default() -> (r: OcrSettings)
        ensures
            r.provider == OcrProvider::Paddleocr,
            r.paddleocr_url@.len() == 0,
            r.paddleocr_token@.len() == 0,
            r.scnet_url@.len() == 0,
            r.scnet_token@.len() == 0,
            r.scnet_ocr_type@.len() == 0,
    {
        OcrSettings {
            provider: OcrProvider::Paddleocr,
            paddleocr_url: String::new(),
            paddleocr_token: String::new(),
            scnet_url: String::new(),
            scnet_token: String::new(),
            scnet_ocr_type: String::new(),
        }
    }
}

/// The values a setting has in the settings table, in the environment and
/// in the configuration file, each when present.
pub struct SettingSources {
    pub db: Option<String>,
    pub env: Option<String>,
    pub file: Option<String>,
}

/// A present, non-empty value.
pub open spec fn non_empty(o: Option<String>) -> Option<Seq<char>> {
    match o {
        Some(s) => if s@.len() > 0 {
            Some(s@)
        } else {
            None
        },
        None => None,
    }
}

/// A setting: the first non-empty value of the table, the environment and
/// the file, else the default.
pub open spec fn resolve_spec(src: SettingSources, default: Seq<char>) -> Seq<char> {
    match non_empty(src.db) {
        Some(v) => v,
        None => match non_empty(src.env) {
            Some(v) => v,
            None => match non_empty(src.file) {
                Some(v) => v,
                None => default,
            },
        },
    }
}

/// The provider: the table's value when present (even empty), else a
/// non-empty environment value, else the file's; SCNet exactly when that
/// value is `scnet`.
pub open spec fn provider_spec(src: SettingSources) -> OcrProvider {
    let v = match src.db {
        Some(s) => s@,
        None => match non_empty(src.env) {
            Some(e) => e,
            None => match src.file {
                Some(f) => f@,
                None => Seq::empty(),
            },
        },
    };
    if v == "scnet"@ {
        OcrProvider::Scnet
    } else {
        OcrProvider::Paddleocr
    }
}

fn non_empty_exec(o: Option<String>) -> (r: Option<String>)
    ensures
        match r {
            Some(s) => non_empty(o) == Some(s@),
            None => non_empty(o) is None,
        },
{
    match o {
        Some(s) => if s.as_str().is_empty() {
            None
        } else {
            Some(s)
        },
        None => None,
    }
}

/// A setting's value (see `resolve_spec`).
pub fn resolve_setting(src: SettingSources, default: &str) -> (r: String)
    ensures
        r@ == resolve_spec(src, default@),
{
    let ghost s0 = src;
    let SettingSources { db, env, file } = src;
    match non_empty_exec(db) {
        Some(v) => v,
        None => match non_empty_exec(env) {
            Some(v) => v,
            None => match non_empty_exec(file) {
                Some(v) => v,
                None => default.to_owned(),
            },
        },
    }
}

/// The provider (see `provider_spec`).
pub fn resolve_provider(src: SettingSources) -> (r: OcrProvider)
    ensures
        r == provider_spec(src),
{
    let SettingSources { db, env, file } = src;
    let v: String = match db {
        Some(s) => s,
        None => match non_empty_exec(env) {
            Some(e) => e,
            None => match file {
                Some(f) => f,
                None => String::new(),
            },
        },
    };
    if str_eq(v.as_str(), "scnet") {
        OcrProvider::Scnet
    } else {
        OcrProvider::Paddleocr
    }
}

impl OcrSettings {
    /// The settings from the values found for each of them (see
    /// `provider_spec` and `resolve_spec`); the URLs and the SCNet type
    /// fall back to the public services.
    pub fn resolve(
        provider: SettingSources,
        paddleocr_url: SettingSources,
        paddleocr_token: SettingSources,
        scnet_url: SettingSources,
        scnet_token: SettingSources,
        scnet_ocr_type: SettingSources,
    ) -> (r: OcrSettings)
        ensures
            r.provider == provider_spec(provider),
            r.paddleocr_url@ == resolve_spec(paddleocr_url, default_paddleocr_url()),
            r.paddleocr_token@ == resolve_spec(paddleocr_token, Seq::empty()),
            r.scnet_url@ == resolve_spec(scnet_url, default_scnet_url()),
            r.scnet_token@ == resolve_spec(scnet_token, Seq::empty()),
            r.scnet_ocr_type@ == resolve_spec(scnet_ocr_type, default_scnet_ocr_type()),
    {
        proof {
            reveal_strlit("");
        }
        OcrSettings {
            provider: resolve_provider(provider),
            paddleocr_url: resolve_setting(paddleocr_url, "https://paddleocr.aistudio-app.com/api/v2/ocr/jobs"),
            paddleocr_token: resolve_setting(paddleocr_token, ""),
            scnet_url: resolve_setting(scnet_url, "https://api.scnet.cn/api/llm/v1/ocr/recognize"),
            scnet_token: resolve_setting(scnet_token, ""),
            scnet_ocr_type: resolve_setting(scnet_ocr_type, "GENERAL"),
        }
    }

    /// The complaint when the PaddleOCR token is missing.
    pub fn paddleocr_token_error(&self) -> (r: Option<String>)
        ensures
            r is Some <==> self.paddleocr_token@.len() == 0,
            r matches Some(m) ==> m@ == "未配置 PaddleOCR Token，请到「设置 → API 配置」填写"@,
    {
        if self.paddleocr_token.as_str().is_empty() {
            Some("未配置 PaddleOCR Token，请到「设置 → API 配置」填写".to_owned())
        } else {
            None
        }
    }

    /// The complaint when the SCNet token is missing.
    pub fn scnet_token_error(&self) -> (r: Option<String>)
        ensures
            r is Some <==> self.scnet_token@.len() == 0,
            r matches Some(m) ==> m@ == "未配置 SCNet OCR Token，请到「设置 → API 配置」填写"@,
    {
        if self.scnet_token.as_str().is_empty() {
            Some("未配置 SCNet OCR Token，请到「设置 → API 配置」填写".to_owned())
        } else {
            None
        }
    }
}

// ------------------------------------------------------------------
// JSON values of the responses
// ------------------------------------------------------------------

/// The value stored under `key` in the entries of an object, from `k` on.
pub open spec fn obj_get_from(obj: Seq<(String, JsonValue)>, key: Seq<char>, k: int) -> Option<JsonValue>
    decreases obj.len() - k,
{
    if k < 0 || k >= obj.len() {
        None
    } else if obj[k].0@ == key {
        Some(obj[k].1)
    } else {
        obj_get_from(obj, key, k + 1)
    }
}

/// The value stored under `key` in an object.
pub open spec fn obj_get(obj: Seq<(String, JsonValue)>, key: Seq<char>) -> Option<JsonValue> {
    obj_get_from(obj, key, 0)
}

fn obj_get_exec<'a>(obj: &'a Vec<(String, JsonValue)>, key: &str) -> (r: Option<&'a JsonValue>)
    ensures
        match r {
            Some(v) => obj_get(obj@, key@) == Some(*v),
            None => obj_get(obj@, key@) is None,
        },
{
    let mut i: usize = 0;
    while i < obj.len()
        invariant
            i <= obj@.len(),
            obj_get(obj@, key@) == obj_get_from(obj@, key@, i as int),
        decreases obj.len() - i,
    {
        if str_eq(obj[i].0.as_str(), key) {
            return Some(&obj[i].1);
        }
        i += 1;
    }
    None
}

/// `value[key]`: the member of an object, `Null` otherwise.
pub open spec fn member(v: JsonValue, key: Seq<char>) -> JsonValue {
    match v {
        JsonValue::Object(o) => match obj_get(o@, key) {
            Some(x) => x,
            None => JsonValue::Null,
        },
        _ => JsonValue::Null,
    }
}

fn member_exec<'a>(v: &'a JsonValue, key: &str) -> (r: Option<&'a JsonValue>)
    ensures
        match r {
            Some(x) => member(*v, key@) == *x,
            None => member(*v, key@) == JsonValue::Null,
        },
        r is Some <==> has_member(*v, key@),
{
    match v {
        JsonValue::Object(o) => obj_get_exec(o, key),
        _ => None,
    }
}

/// The text of a string or number read as a field value: strings trimmed,
/// numbers as written; `None` for anything else.
pub open spec fn scalar_text(v: JsonValue) -> Option<Seq<char>> {
    match v {
        JsonValue::Str(s) => Some(trim(s@)),
        JsonValue::Number { text, integer, unsigned } => Some(text@),
        _ => None,
    }
}

/// The first non-empty value under one of `keys`, tried in order from
/// position `k` on (empty when none).
pub open spec fn ev_from(obj: Seq<(String, JsonValue)>, keys: Seq<Seq<char>>, k: int) -> Seq<char>
    decreases keys.len() - k,
{
    if k < 0 || k >= keys.len() {
        Seq::empty()
    } else {
        match obj_get(obj, keys[k]) {
            Some(v) => match scalar_text(v) {
                Some(s) => if s.len() > 0 {
                    s
                } else {
                    ev_from(obj, keys, k + 1)
                },
                None => ev_from(obj, keys, k + 1),
            },
            None => ev_from(obj, keys, k + 1),
        }
    }
}

/// The value of an element under one of its keys (see `ev_from`).
pub open spec fn ev_spec(obj: Seq<(String, JsonValue)>, keys: Seq<Seq<char>>) -> Seq<char> {
    ev_from(obj, keys, 0)
}

fn scalar_text_exec(v: &JsonValue) -> (r: Option<String>)
    ensures
        match r {
            Some(s) => scalar_text(*v) == Some(s@),
            None => scalar_text(*v) is None,
        },
{
    match v {
        JsonValue::Str(s) => Some(trim_str(s.as_str())),
        JsonValue::Number { text, integer, unsigned } => Some(text.clone()),
        _ => None,
    }
}

/// The value of an element under one key.
fn ev1(obj: &Vec<(String, JsonValue)>, key: &str) -> (r: String)
    ensures
        r@ == ev_spec(obj@, seq![key@]),
{
    proof {
        reveal_with_fuel(ev_from, 3);
    }
    match obj_get_exec(obj, key) {
        Some(v) => match scalar_text_exec(v) {
            Some(s) => s,
            None => String::new(),
        },
        None => String::new(),
    }
}

/// The value of an element under the first of two keys that has one.
fn ev2(obj: &Vec<(String, JsonValue)>, k1: &str, k2: &str) -> (r: String)
    ensures
        r@ == ev_spec(obj@, seq![k1@, k2@]),
{
    proof {
        reveal_with_fuel(ev_from, 4);
    }
    let a = ev1(obj, k1);
    if !a.as_str().is_empty() {
        return a;
    }
    ev1(obj, k2)
}

// ------------------------------------------------------------------
// SCNet mapping
// ------------------------------------------------------------------

/// The ASCII digits of a text.
pub open spec fn ascii_digits(s: Seq<char>) -> Seq<char>
    decreases s.len(),
{
    if s.len() == 0 {
        Seq::empty()
    } else if '0' <= s.last() && s.last() <= '9' {
        ascii_digits(s.drop_last()).push(s.last())
    } else {
        ascii_digits(s.drop_last())
    }
}

/// An SCNet date such as `20250902` written `2025年09月02日`; any text
/// without exactly eight digits stays as it is.
pub open spec fn scnet_date_spec(raw: Seq<char>) -> Seq<char> {
    let d = ascii_digits(raw);
    if d.len() == 8 {
        d.take(4) + "年"@ + d.subrange(4, 6) + "月"@ + d.subrange(6, 8) + "日"@
    } else {
        raw
    }
}

/// Normalizes an SCNet date (see `scnet_date_spec`).
pub fn scnet_normalize_date(raw: &str) -> (r: String)
    ensures
        r@ == scnet_date_spec(raw@),
{
    let v = chars_of(raw);
    let mut d: Vec<char> = Vec::new();
    let mut i: usize = 0;
    assert(v@.take(0) =~= Seq::<char>::empty());
    while i < v.len()
        invariant
            i <= v.len(),
            d@ == ascii_digits(v@.take(i as int)),
        decreases v.len() - i,
    {
        assert(v@.take(i + 1).drop_last() == v@.take(i as int));
        if '0' <= v[i] && v[i] <= '9' {
            d.push(v[i]);
        }
        i += 1;
    }
    assert(v@.take(v.len() as int) == v@);
    if d.len() == 8 {
        let mut out = slice_chars(d.as_slice(), 0, 4);
        crate::text::append_chars(&mut out, chars_of("年").as_slice());
        crate::text::append_chars(&mut out, slice_chars(d.as_slice(), 4, 6).as_slice());
        crate::text::append_chars(&mut out, chars_of("月").as_slice());
        crate::text::append_chars(&mut out, slice_chars(d.as_slice(), 6, 8).as_slice());
        crate::text::append_chars(&mut out, chars_of("日").as_slice());
        assert(d@.subrange(0, 4) =~= d@.take(4));
        string_of(out.as_slice())
    } else {
        raw.to_owned()
    }
}

/// The invoice type an SCNet title announces: special or ordinary, else
/// the title itself.
pub open spec fn scnet_type_spec(title: Seq<char>) -> Seq<char> {
    if contains(title, "专用"@) {
        "专用发票"@
    } else if contains(title, "普通"@) {
        "普通发票"@
    } else {
        title
    }
}

/// The invoice type of an SCNet title (see `scnet_type_spec`).
pub fn scnet_invoice_type(title: &str) -> (r: String)
    ensures
        r@ == scnet_type_spec(title@),
{
    let v = chars_of(title);
    if contains_str(v.as_slice(), "专用") {
        "专用发票".to_owned()
    } else if contains_str(v.as_slice(), "普通") {
        "普通发票".to_owned()
    } else {
        title.to_owned()
    }
}

/// `m` with `k` set to `v` when `v` is not empty.
pub open spec fn put_if(m: Map<Seq<char>, Seq<char>>, k: Seq<char>, v: Seq<char>) -> Map<Seq<char>, Seq<char>> {
    if v.len() > 0 {
        m.insert(k, v)
    } else {
        m
    }
}

fn put_if_exec(m: &mut FieldMap, k: &str, v: String)
    ensures
        final(m)@ == put_if(old(m)@, k@, v@),
{
    if !v.as_str().is_empty() {
        m.insert(k.to_owned(), v);
    }
}

/// The scalar fields of an SCNet invoice element.
pub open spec fn scnet_scalars(o: Seq<(String, JsonValue)>) -> Map<Seq<char>, Seq<char>> {
    let m0 = Map::empty();
    let m1 = put_if(m0, "InvoiceNum"@, ev_spec(o, seq!["invoiceNo"@, "printedNo"@]));
    let m2 = put_if(m1, "InvoiceCode"@, ev_spec(o, seq!["invoiceCode"@, "printedCode"@]));
    let raw_date = ev_spec(o, seq!["invoiceDate"@]);
    let m3 = if raw_date.len() > 0 {
        put_if(m2, "InvoiceDate"@, scnet_date_spec(raw_date))
    } else {
        m2
    };
    let m4 = put_if(m3, "PurchaserName"@, ev_spec(o, seq!["buyerName"@]));
    let m5 = put_if(m4, "PurchaserRegisterNum"@, ev_spec(o, seq!["buyerCode"@]));
    let m6 = put_if(m5, "PurchaserAddress"@, ev_spec(o, seq!["buyerAddressAndPhone"@]));
    let m7 = put_if(m6, "PurchaserBank"@, ev_spec(o, seq!["buyerBankAndAccount"@]));
    let m8 = put_if(m7, "SellerName"@, ev_spec(o, seq!["sellerName"@]));
    let m9 = put_if(m8, "SellerRegisterNum"@, ev_spec(o, seq!["sellerCode"@]));
    let m10 = put_if(m9, "SellerAddress"@, ev_spec(o, seq!["sellerAddressAndPhone"@]));
    let m11 = put_if(m10, "SellerBank"@, ev_spec(o, seq!["sellerBankAndAccount"@]));
    let m12 = put_if(m11, "TotalAmount"@, ev_spec(o, seq!["preTaxTotalAmount"@]));
    let m13 = put_if(m12, "TotalTax"@, ev_spec(o, seq!["totalTaxAmount"@]));
    let m14 = put_if(m13, "AmountInFigures"@, ev_spec(o, seq!["totalAmountLower"@]));
    let m15 = put_if(m14, "AmountInWords"@, ev_spec(o, seq!["totalAmountUpper"@]));
    let m16 = put_if(m15, "NoteDrawer"@, ev_spec(o, seq!["drawer"@]));
    let m17 = put_if(m16, "Checker"@, ev_spec(o, seq!["checker"@]));
    let m18 = put_if(m17, "Payee"@, ev_spec(o, seq!["payee"@]));
    let m19 = put_if(m18, "Password"@, ev_spec(o, seq!["passwordArea"@]));
    let title = ev_spec(o, seq!["title"@]);
    if title.len() > 0 {
        put_if(m19, "InvoiceType"@, scnet_type_spec(title))
    } else {
        m19
    }
}

/// The entries of a goods item (none when it is not an object).
pub open spec fn as_object(v: JsonValue) -> Seq<(String, JsonValue)> {
    match v {
        JsonValue::Object(o) => o@,
        _ => Seq::empty(),
    }
}

/// The values of one goods key, item by item.
pub open spec fn goods_column(items: Seq<JsonValue>, key: Seq<char>) -> Seq<Seq<char>> {
    items.map_values(|g: JsonValue| ev_spec(as_object(g), seq![key]))
}

/// The JSON row list of one goods key.
pub open spec fn goods_list(items: Seq<JsonValue>, key: Seq<char>) -> Seq<char> {
    json_list(row_list_spec(goods_column(items, key)))
}

/// The commodity lists of the goods details, when there are any.
pub open spec fn scnet_goods(m: Map<Seq<char>, Seq<char>>, o: Seq<(String, JsonValue)>) -> Map<Seq<char>, Seq<char>> {
    match obj_get(o, "goodsDetails"@) {
        Some(JsonValue::Array(items)) => if items@.len() > 0 {
            let g = items@;
            m.insert("CommodityName"@, goods_list(g, "goodsName"@)).insert(
                "CommodityType"@,
                goods_list(g, "specification"@),
            ).insert("CommodityUnit"@, goods_list(g, "unit"@)).insert(
                "CommodityNum"@,
                goods_list(g, "quantity"@),
            ).insert("CommodityPrice"@, goods_list(g, "unitPrice"@)).insert(
                "CommodityAmount"@,
                goods_list(g, "itemAmount"@),
            ).insert("CommodityTaxRate"@, goods_list(g, "taxRate"@)).insert(
                "CommodityTax"@,
                goods_list(g, "taxAmount"@),
            )
        } else {
            m
        },
        _ => m,
    }
}

/// The sparse fields of an SCNet invoice element.
pub open spec fn scnet_invoice_spec(o: Seq<(String, JsonValue)>) -> Map<Seq<char>, Seq<char>> {
    scnet_goods(scnet_scalars(o), o)
}

fn goods_json(items: &Vec<JsonValue>, key: &str) -> (r: String)
    ensures
        r@ == goods_list(items@, key@),
{
    let mut values: Vec<String> = Vec::new();
    let mut i: usize = 0;
    while i < items.len()
        invariant
            i <= items.len(),
            values.deep_view() == goods_column(items@, key@).take(i as int),
        decreases items.len() - i,
    {
        let empty: Vec<(String, JsonValue)> = Vec::new();
        let v = match &items[i] {
            JsonValue::Object(o) => ev1(o, key),
            _ => ev1(&empty, key),
        };
        assert(v@ == goods_column(items@, key@)[i as int]);
        let ghost before = values.deep_view();
        values.push(v);
        assert(values.deep_view() =~= before.push(v@));
        assert(goods_column(items@, key@).take(i + 1) =~= goods_column(items@, key@).take(i as int).push(v@));
        i += 1;
    }
    assert(goods_column(items@, key@).take(items.len() as int) =~= goods_column(items@, key@));
    let list = make_row_list(&values);
    row_list_json(&list)
}

/// The sparse fields of an SCNet invoice element (see `scnet_invoice_spec`).
pub fn scnet_invoice_to_sparse(obj: &Vec<(String, JsonValue)>) -> (r: FieldMap)
    ensures
        r@ == scnet_invoice_spec(obj@),
{
    let mut s = FieldMap::new();
    put_if_exec(&mut s, "InvoiceNum", ev2(obj, "invoiceNo", "printedNo"));
    put_if_exec(&mut s, "InvoiceCode", ev2(obj, "invoiceCode", "printedCode"));
    let raw_date = ev1(obj, "invoiceDate");
    if !raw_date.as_str().is_empty() {
        put_if_exec(&mut s, "InvoiceDate", scnet_normalize_date(raw_date.as_str()));
    }
    put_if_exec(&mut s, "PurchaserName", ev1(obj, "buyerName"));
    put_if_exec(&mut s, "PurchaserRegisterNum", ev1(obj, "buyerCode"));
    put_if_exec(&mut s, "PurchaserAddress", ev1(obj, "buyerAddressAndPhone"));
    put_if_exec(&mut s, "PurchaserBank", ev1(obj, "buyerBankAndAccount"));
    put_if_exec(&mut s, "SellerName", ev1(obj, "sellerName"));
    put_if_exec(&mut s, "SellerRegisterNum", ev1(obj, "sellerCode"));
    put_if_exec(&mut s, "SellerAddress", ev1(obj, "sellerAddressAndPhone"));
    put_if_exec(&mut s, "SellerBank", ev1(obj, "sellerBankAndAccount"));
    put_if_exec(&mut s, "TotalAmount", ev1(obj, "preTaxTotalAmount"));
    put_if_exec(&mut s, "TotalTax", ev1(obj, "totalTaxAmount"));
    put_if_exec(&mut s, "AmountInFigures", ev1(obj, "totalAmountLower"));
    put_if_exec(&mut s, "AmountInWords", ev1(obj, "totalAmountUpper"));
    put_if_exec(&mut s, "NoteDrawer", ev1(obj, "drawer"));
    put_if_exec(&mut s, "Checker", ev1(obj, "checker"));
    put_if_exec(&mut s, "Payee", ev1(obj, "payee"));
    put_if_exec(&mut s, "Password", ev1(obj, "passwordArea"));
    let title = ev1(obj, "title");
    if !title.as_str().is_empty() {
        put_if_exec(&mut s, "InvoiceType", scnet_invoice_type(title.as_str()));
    }
    assert(s@ == scnet_scalars(obj@));
    match obj_get_exec(obj, "goodsDetails") {
        Some(JsonValue::Array(items)) => {
            if items.len() > 0 {
                s.insert("CommodityName".to_owned(), goods_json(items, "goodsName"));
                s.insert("CommodityType".to_owned(), goods_json(items, "specification"));
                s.insert("CommodityUnit".to_owned(), goods_json(items, "unit"));
                s.insert("CommodityNum".to_owned(), goods_json(items, "quantity"));
                s.insert("CommodityPrice".to_owned(), goods_json(items, "unitPrice"));
                s.insert("CommodityAmount".to_owned(), goods_json(items, "itemAmount"));
                s.insert("CommodityTaxRate".to_owned(), goods_json(items, "taxRate"));
                s.insert("CommodityTax".to_owned(), goods_json(items, "taxAmount"));
            }
        },
        _ => {},
    }
    s
}

/// The text of a value in a generic element: strings trimmed, numbers as
/// written, booleans `true`/`false`; `None` for anything else.
pub open spec fn generic_text(v: JsonValue) -> Option<Seq<char>> {
    match v {
        JsonValue::Str(s) => Some(trim(s@)),
        JsonValue::Number { text, integer, unsigned } => Some(text@),
        JsonValue::Bool(b) => Some(
            if b {
                "true"@
            } else {
                "false"@
            },
        ),
        _ => None,
    }
}

/// The fields of a generic element from its first `n` entries: every
/// non-empty text value except `confidence` and `stamps`.
pub open spec fn generic_upto(o: Seq<(String, JsonValue)>, n: int) -> Map<Seq<char>, Seq<char>>
    decreases n,
{
    if n <= 0 {
        Map::empty()
    } else {
        let m = generic_upto(o, n - 1);
        let e = o[n - 1];
        if e.0@ == "confidence"@ || e.0@ == "stamps"@ {
            m
        } else {
            match generic_text(e.1) {
                Some(t) => put_if(m, e.0@, t),
                None => m,
            }
        }
    }
}

/// The sparse fields of a structured element that is not an invoice.
pub fn scnet_generic_to_sparse(obj: &Vec<(String, JsonValue)>) -> (r: FieldMap)
    ensures
        r@ == generic_upto(obj@, obj@.len() as int),
{
    let mut s = FieldMap::new();
    let mut i: usize = 0;
    while i < obj.len()
        invariant
            i <= obj@.len(),
            s@ == generic_upto(obj@, i as int),
        decreases obj.len() - i,
    {
        let (key, value) = (&obj[i].0, &obj[i].1);
        if !(str_eq(key.as_str(), "confidence") || str_eq(key.as_str(), "stamps")) {
            let t: Option<String> = match value {
                JsonValue::Str(x) => Some(trim_str(x.as_str())),
                JsonValue::Number { text, integer, unsigned } => Some(text.clone()),
                JsonValue::Bool(b) => Some(
                    if *b {
                        "true".to_owned()
                    } else {
                        "false".to_owned()
                    },
                ),
                _ => None,
            };
            match t {
                Some(t) => put_if_exec(&mut s, key.as_str(), t),
                None => {},
            }
        }
        i += 1;
    }
    s
}

/// An element is an invoice when it has one of the invoice keys.
pub open spec fn is_invoice_element(o: Seq<(String, JsonValue)>) -> bool {
    obj_get(o, "invoiceNo"@) is Some || obj_get(o, "goodsDetails"@) is Some || obj_get(o, "totalAmountLower"@) is Some
        || obj_get(o, "buyerName"@) is Some
}

/// The sparse fields of the elements of one recognized item.
pub open spec fn elements_spec(v: JsonValue) -> Map<Seq<char>, Seq<char>> {
    match v {
        JsonValue::Object(o) => if is_invoice_element(o@) {
            scnet_invoice_spec(o@)
        } else {
            generic_upto(o@, o@.len() as int)
        },
        _ => Map::empty(),
    }
}

/// The sparse fields of the elements of one recognized item (see `elements_spec`).
pub fn scnet_elements_to_sparse(elements: &JsonValue) -> (r: FieldMap)
    ensures
        r@ == elements_spec(*elements),
{
    match elements {
        JsonValue::Object(o) => {
            let is_invoice = obj_get_exec(o, "invoiceNo").is_some() || obj_get_exec(o, "goodsDetails").is_some()
                || obj_get_exec(o, "totalAmountLower").is_some() || obj_get_exec(o, "buyerName").is_some();
            if is_invoice {
                scnet_invoice_to_sparse(o)
            } else {
                scnet_generic_to_sparse(o)
            }
        },
        _ => FieldMap::new(),
    }
}

/// A recognized item that counts: its status is the integer 200 and it
/// has elements.
pub open spec fn item_ok(item: JsonValue) -> bool {
    (match member(item, "status"@) {
        JsonValue::Number { text, integer, unsigned } => integer == Some(200i64),
        _ => false,
    }) && member(item, "elements"@) != JsonValue::Null
}

/// The sparse results of the items of the first `n` documents' results
/// (only the non-empty ones).
pub open spec fn items_sparse(items: Seq<JsonValue>, n: int) -> Seq<Map<Seq<char>, Seq<char>>>
    decreases n,
{
    if n <= 0 {
        Seq::empty()
    } else {
        let acc = items_sparse(items, n - 1);
        let it = items[n - 1];
        if item_ok(it) && elements_spec(member(it, "elements"@)).len() > 0 {
            acc.push(elements_spec(member(it, "elements"@)))
        } else {
            acc
        }
    }
}

/// The items of a document's `result` array (none when it is no array).
pub open spec fn result_items(doc: JsonValue) -> Seq<JsonValue> {
    match member(doc, "result"@) {
        JsonValue::Array(a) => a@,
        _ => Seq::empty(),
    }
}

/// The sparse results of the first `n` documents.
pub open spec fn docs_sparse(docs: Seq<JsonValue>, n: int) -> Seq<Map<Seq<char>, Seq<char>>>
    decreases n,
{
    if n <= 0 {
        Seq::empty()
    } else {
        docs_sparse(docs, n - 1) + items_sparse(result_items(docs[n - 1]), result_items(docs[n - 1]).len() as int)
    }
}

/// The views of some sparse results.
pub open spec fn sparse_list_view(v: Seq<FieldMap>) -> Seq<Map<Seq<char>, Seq<char>>> {
    v.map_values(|m: FieldMap| m@)
}

/// The sparse results of an SCNet response: one per recognized item whose
/// status is 200 and whose elements give some field; an error when the
/// response has no `data` array.
pub fn scnet_response_to_sparse(payload: &JsonValue) -> (r: Result<Vec<FieldMap>, String>)
    ensures
        match member(*payload, "data"@) {
            JsonValue::Array(docs) => r matches Ok(v) && sparse_list_view(v@) == docs_sparse(docs@, docs@.len() as int),
            _ => r matches Err(e) && e@ == "SCNet response missing data array"@,
        },
{
    let docs = match member_exec(payload, "data") {
        Some(JsonValue::Array(d)) => d,
        _ => {
            return Err("SCNet response missing data array".to_owned());
        },
    };
    let mut all: Vec<FieldMap> = Vec::new();
    let mut n: usize = 0;
    assert(sparse_list_view(all@) =~= Seq::<Map<Seq<char>, Seq<char>>>::empty());
    while n < docs.len()
        invariant
            n <= docs@.len(),
            sparse_list_view(all@) == docs_sparse(docs@, n as int),
        decreases docs.len() - n,
    {
        let ghost start = sparse_list_view(all@);
        let doc = &docs[n];
        let empty: Vec<JsonValue> = Vec::new();
        let items: &Vec<JsonValue> = match member_exec(doc, "result") {
            Some(JsonValue::Array(a)) => a,
            _ => &empty,
        };
        assert(items@ == result_items(docs@[n as int]));
        let mut k: usize = 0;
        while k < items.len()
            invariant
                k <= items@.len(),
                items@ == result_items(docs@[n as int]),
                sparse_list_view(all@) == start + items_sparse(items@, k as int),
            decreases items.len() - k,
        {
            let item = &items[k];
            let status_ok = match member_exec(item, "status") {
                Some(JsonValue::Number { text, integer, unsigned }) => match integer {
                    Some(x) => *x == 200,
                    None => false,
                },
                _ => false,
            };
            let elements = member_exec(item, "elements");
            let has_elements = match elements {
                Some(JsonValue::Null) => false,
                Some(_) => true,
                None => false,
            };
            if status_ok && has_elements {
                match elements {
                    Some(e) => {
                        let sparse = scnet_elements_to_sparse(e);
                        if sparse.len() > 0 {
                            let ghost before = all@;
                            all.push(sparse);
                            assert(sparse_list_view(all@) =~= sparse_list_view(before).push(
                                elements_spec(member(*item, "elements"@)),
                            ));
                        }
                    },
                    None => {},
                }
            }
            k += 1;
        }
        n += 1;
    }
    Ok(all)
}

// ------------------------------------------------------------------
// PaddleOCR pages
// ------------------------------------------------------------------

/// One recognized page: its markdown and its layout blocks.
pub struct PageData {
    pub markdown_text: String,
    pub blocks: Vec<Block>,
}

/// The view of a page.
pub open spec fn page_view(p: PageData) -> (Seq<char>, Seq<(Seq<char>, Seq<char>)>) {
    (p.markdown_text@, blocks_view(p.blocks@))
}

/// A string value's text, `None` for anything else.
pub open spec fn str_of(v: JsonValue) -> Option<Seq<char>> {
    match v {
        JsonValue::Str(s) => Some(s@),
        _ => None,
    }
}

/// The blocks of the first `n` parsed layout entries that have a string
/// label (a missing content reads empty).
pub open spec fn blocks_upto(list: Seq<JsonValue>, n: int) -> Seq<(Seq<char>, Seq<char>)>
    decreases n,
{
    if n <= 0 {
        Seq::empty()
    } else {
        let acc = blocks_upto(list, n - 1);
        let b = list[n - 1];
        match str_of(member(b, "block_label"@)) {
            Some(label) => acc.push(
                (
                    label,
                    match str_of(member(b, "block_content"@)) {
                        Some(c) => c,
                        None => Seq::empty(),
                    },
                ),
            ),
            None => acc,
        }
    }
}

/// Whether an object value has a member named `key`.
pub open spec fn has_member(v: JsonValue, key: Seq<char>) -> bool {
    match v {
        JsonValue::Object(o) => obj_get(o@, key) is Some,
        _ => false,
    }
}

/// The view of the page a layout result describes.
pub open spec fn page_of(page: JsonValue) -> (Seq<char>, Seq<(Seq<char>, Seq<char>)>) {
    let text = match str_of(member(member(page, "markdown"@), "text"@)) {
        Some(t) => t,
        None => Seq::empty(),
    };
    let blocks = if has_member(page, "prunedResult"@) {
        match member(member(page, "prunedResult"@), "parsing_res_list"@) {
            JsonValue::Array(l) => blocks_upto(l@, l@.len() as int),
            _ => Seq::empty(),
        }
    } else {
        Seq::empty()
    };
    (text, blocks)
}

/// The layout results of a document (under `result` when it has one).
pub open spec fn layout_results(doc: JsonValue) -> Seq<JsonValue> {
    let result = if has_member(doc, "result"@) {
        member(doc, "result"@)
    } else {
        doc
    };
    match member(result, "layoutParsingResults"@) {
        JsonValue::Array(a) => a@,
        _ => Seq::empty(),
    }
}

/// The pages of the first `n` documents, in order.
pub open spec fn pages_upto(docs: Seq<JsonValue>, n: int) -> Seq<(Seq<char>, Seq<(Seq<char>, Seq<char>)>)>
    decreases n,
{
    if n <= 0 {
        Seq::empty()
    } else {
        pages_upto(docs, n - 1) + layout_results(docs[n - 1]).map_values(|p: JsonValue| page_of(p))
    }
}

/// The views of some pages.
pub open spec fn pages_view(p: Seq<PageData>) -> Seq<(Seq<char>, Seq<(Seq<char>, Seq<char>)>)> {
    p.map_values(|x: PageData| page_view(x))
}

fn page_from(page: &JsonValue) -> (r: PageData)
    ensures
        page_view(r) == page_of(*page),
{
    let markdown_text = match member_exec(page, "markdown") {
        Some(m) => match member_exec(m, "text") {
            Some(JsonValue::Str(t)) => t.clone(),
            _ => String::new(),
        },
        None => String::new(),
    };
    let mut blocks: Vec<Block> = Vec::new();
    let has_pruned = match page {
        JsonValue::Object(o) => obj_get_exec(o, "prunedResult").is_some(),
        _ => false,
    };
    if has_pruned {
        match member_exec(page, "prunedResult") {
            Some(pruned) => match member_exec(pruned, "parsing_res_list") {
                Some(JsonValue::Array(list)) => {
                    let mut i: usize = 0;
                    assert(blocks_view(blocks@) =~= Seq::<(Seq<char>, Seq<char>)>::empty());
                    while i < list.len()
                        invariant
                            i <= list@.len(),
                            blocks_view(blocks@) == blocks_upto(list@, i as int),
                        decreases list.len() - i,
                    {
                        let b = &list[i];
                        match member_exec(b, "block_label") {
                            Some(JsonValue::Str(label)) => {
                                let content = match member_exec(b, "block_content") {
                                    Some(JsonValue::Str(c)) => c.clone(),
                                    _ => String::new(),
                                };
                                let ghost before = blocks@;
                                blocks.push(Block { block_label: label.clone(), block_content: content });
                                assert(blocks_view(blocks@) =~= blocks_view(before).push(blocks@.last()@));
                            },
                            _ => {},
                        }
                        i += 1;
                    }
                },
                _ => {},
            },
            None => {},
        }
    }
    PageData { markdown_text, blocks }
}

/// The pages of the parsed documents of a PaddleOCR result: the layout
/// results of each document (under `result` when it has one), each giving
/// its markdown text and the blocks with a string label.
pub fn pages_from_documents(docs: &Vec<JsonValue>) -> (r: Vec<PageData>)
    ensures
        pages_view(r@) == pages_upto(docs@, docs@.len() as int),
{
    let mut pages: Vec<PageData> = Vec::new();
    let mut n: usize = 0;
    assert(pages_view(pages@) =~= Seq::<(Seq<char>, Seq<(Seq<char>, Seq<char>)>)>::empty());
    while n < docs.len()
        invariant
            n <= docs@.len(),
            pages_view(pages@) == pages_upto(docs@, n as int),
        decreases docs.len() - n,
    {
        let doc = &docs[n];
        let has_result = match doc {
            JsonValue::Object(o) => obj_get_exec(o, "result").is_some(),
            _ => false,
        };
        let result: &JsonValue = if has_result {
            match member_exec(doc, "result") {
                Some(r) => r,
                None => doc,
            }
        } else {
            doc
        };
        let ghost start = pages_view(pages@);
        let ghost lr = layout_results(docs@[n as int]);
        match member_exec(result, "layoutParsingResults") {
            Some(JsonValue::Array(layout)) => {
                assert(layout@ == lr);
                let mut k: usize = 0;
                while k < layout.len()
                    invariant
                        k <= layout@.len(),
                        layout@ == lr,
                        pages_view(pages@) == start + lr.take(k as int).map_values(|p: JsonValue| page_of(p)),
                    decreases layout.len() - k,
                {
                    let p = page_from(&layout[k]);
                    let ghost before = pages@;
                    pages.push(p);
                    assert(pages_view(pages@) =~= pages_view(before).push(page_of(lr[k as int])));
                    assert(lr.take(k + 1).map_values(|p: JsonValue| page_of(p)) =~= lr.take(k as int).map_values(
                        |p: JsonValue| page_of(p),
                    ).push(page_of(lr[k as int])));
                    k += 1;
                }
                assert(lr.take(layout.len() as int) =~= lr);
            },
            _ => {
                assert(lr =~= Seq::<JsonValue>::empty());
                assert(pages_view(pages@) =~= start + lr.map_values(|p: JsonValue| page_of(p)));
            },
        }
        n += 1;
    }
    pages
}

/// The documents read from the lines `lines[..n]` of a result text: each
/// line that is not blank and that serde_json reads, in order.
pub open spec fn line_docs(lines: Seq<Seq<char>>, n: int) -> Seq<JView>
    decreases n,
{
    if n <= 0 || n > lines.len() {
        Seq::empty()
    } else if trim(lines[n - 1]).len() > 0 && json_parse(lines[n - 1]) is Some {
        line_docs(lines, n - 1).push(json_parse(lines[n - 1])->0)
    } else {
        line_docs(lines, n - 1)
    }
}

/// The documents of a PaddleOCR result text: none for a blank text; the
/// one value of the trimmed text when serde_json reads it whole; otherwise
/// the values of its non-blank lines that serde_json reads (a line keeps
/// a `\r` before its line break, which JSON reads as white space).
pub open spec fn jsonl_docs(raw: Seq<char>) -> Seq<JView> {
    let t = trim(raw);
    if t.len() == 0 {
        Seq::empty()
    } else {
        match json_parse(t) {
            Some(j) => seq![j],
            None => line_docs(split_lines(t), split_lines(t).len() as int),
        }
    }
}

/// The pages of a PaddleOCR result text: the documents of `jsonl_docs`,
/// read by `pages_from_documents`.
pub fn parse_jsonl_response(raw_text: &str) -> (r: Vec<PageData>)
    ensures
        exists|docs: Seq<JsonValue>|
            docs.map_values(|d: JsonValue| jview(d)) == jsonl_docs(raw_text@) && pages_view(r@) == pages_upto(
                docs,
                docs.len() as int,
            ),
{
    let t = trim_str(raw_text);
    let tc = chars_of(t.as_str());
    let mut docs: Vec<JsonValue> = Vec::new();
    if tc.len() > 0 {
        match json_value_parse(t.as_str()) {
            Some(v) => {
                docs.push(v);
                assert(docs@.map_values(|d: JsonValue| jview(d)) =~= jsonl_docs(raw_text@));
            },
            None => {
                let lines = split_lines_exec(tc.as_slice());
                let ghost lv = split_lines(t@);
                let mut i: usize = 0;
                assert(docs@.map_values(|d: JsonValue| jview(d)) =~= line_docs(lv, 0));
                while i < lines.len()
                    invariant
                        i <= lines@.len(),
                        lv == split_lines(t@),
                        seqs_of(lines@) == lv,
                        docs@.map_values(|d: JsonValue| jview(d)) == line_docs(lv, i as int),
                    decreases lines.len() - i,
                {
                    assert(lines@[i as int]@ == lv[i as int]);
                    let lt = trim_chars(lines[i].as_slice());
                    if lt.len() > 0 {
                        let ls = string_of(lines[i].as_slice());
                        match json_value_parse(ls.as_str()) {
                            Some(v) => {
                                let ghost before = docs@;
                                docs.push(v);
                                assert(docs@.map_values(|d: JsonValue| jview(d)) =~= before.map_values(
                                    |d: JsonValue| jview(d),
                                ).push(jview(v)));
                            },
                            None => {},
                        }
                    }
                    i += 1;
                }
            },
        }
    } else {
        assert(docs@.map_values(|d: JsonValue| jview(d)) =~= jsonl_docs(raw_text@));
    }
    let r = pages_from_documents(&docs);
    assert(docs@.map_values(|d: JsonValue| jview(d)) == jsonl_docs(raw_text@));
    r
}

// ------------------------------------------------------------------
// PaddleOCR job polling
// ------------------------------------------------------------------

/// What one poll of a PaddleOCR job tells: keep waiting with a progress
/// message, fetch the result, or give up with an error message.
pub enum PollOutcome {
    Progress(String),
    Done { message: String, json_url: String },
    Failed(String),
}

/// The view of a poll outcome: 0 progress, 1 done, 2 failed; message; url.
pub open spec fn poll_view(o: PollOutcome) -> (int, Seq<char>, Seq<char>) {
    match o {
        PollOutcome::Progress(m) => (0, m@, Seq::empty()),
        PollOutcome::Done { message, json_url } => (1, message@, json_url@),
        PollOutcome::Failed(m) => (2, m@, Seq::empty()),
    }
}

/// `as_u64` of a value, read as 0 when it is not an unsigned integer.
pub open spec fn u64_or_zero(v: JsonValue) -> nat {
    match v {
        JsonValue::Number { text, integer, unsigned } => match unsigned {
            Some(u) => u as nat,
            None => 0,
        },
        _ => 0,
    }
}

/// A string value's text, or the given default.
pub open spec fn str_or(v: JsonValue, d: Seq<char>) -> Seq<char> {
    match v {
        JsonValue::Str(s) => s@,
        _ => d,
    }
}

/// The outcome of a job status `data`: pending and running jobs report
/// progress (running ones their page counts), a finished job gives its
/// JSON result URL, a failed job its error message; any other state is an
/// error.
pub open spec fn poll_spec(data: JsonValue) -> (int, Seq<char>, Seq<char>) {
    let state = str_or(member(data, "state"@), Seq::empty());
    let progress = member(data, "extractProgress"@);
    if state == "pending"@ {
        (0, "任务排队中..."@, Seq::empty())
    } else if state == "running"@ {
        (
            0,
            "处理中, 总页数: "@ + decimal(u64_or_zero(member(progress, "totalPages"@))) + ", 已提取: "@ + decimal(
                u64_or_zero(member(progress, "extractedPages"@)),
            ),
            Seq::empty(),
        )
    } else if state == "done"@ {
        (
            1,
            "完成! 提取页数: "@ + decimal(u64_or_zero(member(progress, "extractedPages"@))),
            str_or(member(member(data, "resultUrl"@), "jsonUrl"@), Seq::empty()),
        )
    } else if state == "failed"@ {
        (2, "OCR failed: "@ + str_or(member(data, "errorMsg"@), "unknown"@), Seq::empty())
    } else {
        (2, "Unknown OCR state: "@ + state, Seq::empty())
    }
}

fn u64_or_zero_exec(v: Option<&JsonValue>) -> (r: u64)
    ensures
        r as nat == match v {
            Some(x) => u64_or_zero(*x),
            None => 0,
        },
{
    match v {
        Some(JsonValue::Number { text, integer, unsigned }) => match unsigned {
            Some(u) => *u,
            None => 0,
        },
        _ => 0,
    }
}

fn str_or_exec(v: Option<&JsonValue>, d: &str) -> (r: String)
    ensures
        r@ == match v {
            Some(x) => str_or(*x, d@),
            None => d@,
        },
{
    match v {
        Some(JsonValue::Str(s)) => s.clone(),
        _ => d.to_owned(),
    }
}

/// The decision after one poll of a PaddleOCR job (see `poll_spec`).
pub fn paddleocr_poll_step(data: &JsonValue) -> (r: PollOutcome)
    ensures
        poll_view(r) == poll_spec(*data),
{
    proof {
        reveal_strlit("");
    }
    let state = str_or_exec(member_exec(data, "state"), "");
    let progress = member_exec(data, "extractProgress");
    let ghost pv = match progress {
        Some(p) => *p,
        None => JsonValue::Null,
    };
    assert(pv == member(*data, "extractProgress"@));
    let total = match progress {
        Some(p) => u64_or_zero_exec(member_exec(p, "totalPages")),
        None => 0,
    };
    let extracted = match progress {
        Some(p) => u64_or_zero_exec(member_exec(p, "extractedPages")),
        None => 0,
    };
    assert(total as nat == u64_or_zero(member(pv, "totalPages"@)));
    assert(extracted as nat == u64_or_zero(member(pv, "extractedPages"@)));
    let s = state.as_str();
    assert(s@ == str_or(member(*data, "state"@), Seq::empty()));
    if str_eq(s, "pending") {
        PollOutcome::Progress("任务排队中...".to_owned())
    } else if str_eq(s, "running") {
        let a = crate::text::concat_str("处理中, 总页数: ", crate::text::decimal_string(total).as_str());
        let b = crate::text::concat_str(a.as_str(), ", 已提取: ");
        PollOutcome::Progress(crate::text::concat_str(b.as_str(), crate::text::decimal_string(extracted).as_str()))
    } else if str_eq(s, "done") {
        let message = crate::text::concat_str("完成! 提取页数: ", crate::text::decimal_string(extracted).as_str());
        let url = match member_exec(data, "resultUrl") {
            Some(ru) => str_or_exec(member_exec(ru, "jsonUrl"), ""),
            None => String::new(),
        };
        assert(url@ == str_or(member(member(*data, "resultUrl"@), "jsonUrl"@), Seq::empty()));
        assert(message@ == "完成! 提取页数: "@ + decimal(u64_or_zero(member(pv, "extractedPages"@))));
        PollOutcome::Done { message, json_url: url }
    } else if str_eq(s, "failed") {
        let msg = str_or_exec(member_exec(data, "errorMsg"), "unknown");
        PollOutcome::Failed(crate::text::concat_str("OCR failed: ", msg.as_str()))
    } else {
        PollOutcome::Failed(crate::text::concat_str("Unknown OCR state: ", s))
    }
}


// ------------------------------------------------------------------
// What an SCNet invoice element gives
// ------------------------------------------------------------------

/// The non-empty text of an element under `key`: a string trimmed, or a
/// number as written; `None` when missing, empty or of another kind.
pub open spec fn element_text(o: Seq<(String, JsonValue)>, key: Seq<char>) -> Option<Seq<char>> {
    match obj_get(o, key) {
        Some(JsonValue::Str(s)) => if trim(s@).len() > 0 {
            Some(trim(s@))
        } else {
            None
        },
        Some(JsonValue::Number { text, integer, unsigned }) => if text@.len() > 0 {
            Some(text@)
        } else {
            None
        },
        _ => None,
    }
}

/// `m` holds the text under `k` when there is one, and nothing under `k`
/// otherwise.
pub open spec fn holds_text(m: Map<Seq<char>, Seq<char>>, k: Seq<char>, v: Option<Seq<char>>) -> bool {
    match v {
        Some(t) => m.contains_key(k) && m[k] == t,
        None => !m.contains_key(k),
    }
}

proof fn lemma_element_text(o: Seq<(String, JsonValue)>, key: Seq<char>)
    ensures
        element_text(o, key) == (if ev_spec(o, seq![key]).len() > 0 {
            Some(ev_spec(o, seq![key]))
        } else {
            None::<Seq<char>>
        }),
{
    assert(seq![key][0] == key);
    assert(seq![key].len() == 1);
    assert(ev_from(o, seq![key], 1) == Seq::<char>::empty());
}

/// `put_if` leaves every other key as it was.
proof fn lemma_put_if_other(m: Map<Seq<char>, Seq<char>>, k: Seq<char>, v: Seq<char>, k2: Seq<char>)
    requires
        k != k2,
    ensures
        put_if(m, k, v).contains_key(k2) == m.contains_key(k2),
        m.contains_key(k2) ==> put_if(m, k, v)[k2] == m[k2],
{
}

/// The goods lists leave every key but the commodity lists as it was.
proof fn lemma_goods_other(m: Map<Seq<char>, Seq<char>>, o: Seq<(String, JsonValue)>, k: Seq<char>)
    requires
        k.len() > 0 && (k[0] != 'C' || k.len() < 12),
    ensures
        scnet_goods(m, o).contains_key(k) == m.contains_key(k),
        m.contains_key(k) ==> scnet_goods(m, o)[k] == m[k],
{
    reveal_strlit("CommodityName");
    assert("CommodityName"@[0] == 'C' && "CommodityName"@.len() >= 12);
    reveal_strlit("CommodityType");
    assert("CommodityType"@[0] == 'C' && "CommodityType"@.len() >= 12);
    reveal_strlit("CommodityUnit");
    assert("CommodityUnit"@[0] == 'C' && "CommodityUnit"@.len() >= 12);
    reveal_strlit("CommodityNum");
    assert("CommodityNum"@[0] == 'C' && "CommodityNum"@.len() >= 12);
    reveal_strlit("CommodityPrice");
    assert("CommodityPrice"@[0] == 'C' && "CommodityPrice"@.len() >= 12);
    reveal_strlit("CommodityAmount");
    assert("CommodityAmount"@[0] == 'C' && "CommodityAmount"@.len() >= 12);
    reveal_strlit("CommodityTaxRate");
    assert("CommodityTaxRate"@[0] == 'C' && "CommodityTaxRate"@.len() >= 12);
    reveal_strlit("CommodityTax");
    assert("CommodityTax"@[0] == 'C' && "CommodityTax"@.len() >= 12);
}

#[verifier::rlimit(50)]
proof fn lemma_scnet_totalamount(o: Seq<(String, JsonValue)>)
    ensures
        holds_text(scnet_invoice_spec(o), "TotalAmount"@, element_text(o, "preTaxTotalAmount"@)),
{
    lemma_element_text(o, "preTaxTotalAmount"@);
    reveal_strlit("InvoiceNum");
    reveal_strlit("InvoiceCode");
    reveal_strlit("InvoiceDate");
    reveal_strlit("PurchaserName");
    reveal_strlit("PurchaserRegisterNum");
    reveal_strlit("PurchaserAddress");
    reveal_strlit("PurchaserBank");
    reveal_strlit("SellerName");
    reveal_strlit("SellerRegisterNum");
    reveal_strlit("SellerAddress");
    reveal_strlit("SellerBank");
    reveal_strlit("TotalAmount");
    reveal_strlit("TotalTax");
    reveal_strlit("AmountInFigures");
    reveal_strlit("AmountInWords");
    reveal_strlit("NoteDrawer");
    reveal_strlit("Checker");
    reveal_strlit("Payee");
    reveal_strlit("Password");
    reveal_strlit("InvoiceType");
    assert("InvoiceNum"@.len() == 10);
    assert("InvoiceCode"@.len() == 11);
    assert("InvoiceDate"@.len() == 11);
    assert("PurchaserName"@.len() == 13);
    assert("PurchaserRegisterNum"@.len() == 20);
    assert("PurchaserAddress"@.len() == 16);
    assert("PurchaserBank"@.len() == 13);
    assert("SellerName"@.len() == 10);
    assert("SellerRegisterNum"@.len() == 17);
    assert("SellerAddress"@.len() == 13);
    assert("SellerBank"@.len() == 10);
    assert("TotalAmount"@.len() == 11);
    assert("TotalTax"@.len() == 8);
    assert("AmountInFigures"@.len() == 15);
    assert("AmountInWords"@.len() == 13);
    assert("NoteDrawer"@.len() == 10);
    assert("Checker"@.len() == 7);
    assert("Payee"@.len() == 5);
    assert("Password"@.len() == 8);
    assert("InvoiceType"@.len() == 11);
    assert("TotalAmount"@[0] != "InvoiceCode"@[0]);
    assert("TotalAmount"@[0] != "InvoiceDate"@[0]);
    assert("TotalAmount"@[0] != "InvoiceType"@[0]);
    assert("TotalAmount"@[0] != 'C' || "TotalAmount"@.len() < 12);
    let m0 = scnet_scalars(o);
    lemma_goods_other(m0, o, "TotalAmount"@);
    assert(scnet_invoice_spec(o) == scnet_goods(m0, o));
}

#[verifier::rlimit(50)]
proof fn lemma_scnet_totaltax(o: Seq<(String, JsonValue)>)
    ensures
        holds_text(scnet_invoice_spec(o), "TotalTax"@, element_text(o, "totalTaxAmount"@)),
{
    lemma_element_text(o, "totalTaxAmount"@);
    reveal_strlit("InvoiceNum");
    reveal_strlit("InvoiceCode");
    reveal_strlit("InvoiceDate");
    reveal_strlit("PurchaserName");
    reveal_strlit("PurchaserRegisterNum");
    reveal_strlit("PurchaserAddress");
    reveal_strlit("PurchaserBank");
    reveal_strlit("SellerName");
    reveal_strlit("SellerRegisterNum");
    reveal_strlit("SellerAddress");
    reveal_strlit("SellerBank");
    reveal_strlit("TotalAmount");
    reveal_strlit("TotalTax");
    reveal_strlit("AmountInFigures");
    reveal_strlit("AmountInWords");
    reveal_strlit("NoteDrawer");
    reveal_strlit("Checker");
    reveal_strlit("Payee");
    reveal_strlit("Password");
    reveal_strlit("InvoiceType");
    assert("InvoiceNum"@.len() == 10);
    assert("InvoiceCode"@.len() == 11);
    assert("InvoiceDate"@.len() == 11);
    assert("PurchaserName"@.len() == 13);
    assert("PurchaserRegisterNum"@.len() == 20);
    assert("PurchaserAddress"@.len() == 16);
    assert("PurchaserBank"@.len() == 13);
    assert("SellerName"@.len() == 10);
    assert("SellerRegisterNum"@.len() == 17);
    assert("SellerAddress"@.len() == 13);
    assert("SellerBank"@.len() == 10);
    assert("TotalAmount"@.len() == 11);
    assert("TotalTax"@.len() == 8);
    assert("AmountInFigures"@.len() == 15);
    assert("AmountInWords"@.len() == 13);
    assert("NoteDrawer"@.len() == 10);
    assert("Checker"@.len() == 7);
    assert("Payee"@.len() == 5);
    assert("Password"@.len() == 8);
    assert("InvoiceType"@.len() == 11);
    assert("TotalTax"@[0] != "Password"@[0]);
    assert("TotalTax"@[0] != 'C' || "TotalTax"@.len() < 12);
    let m0 = scnet_scalars(o);
    lemma_goods_other(m0, o, "TotalTax"@);
    assert(scnet_invoice_spec(o) == scnet_goods(m0, o));
}

#[verifier::rlimit(50)]
proof fn lemma_scnet_amountinfigures(o: Seq<(String, JsonValue)>)
    ensures
        holds_text(scnet_invoice_spec(o), "AmountInFigures"@, element_text(o, "totalAmountLower"@)),
{
    lemma_element_text(o, "totalAmountLower"@);
    reveal_strlit("InvoiceNum");
    reveal_strlit("InvoiceCode");
    reveal_strlit("InvoiceDate");
    reveal_strlit("PurchaserName");
    reveal_strlit("PurchaserRegisterNum");
    reveal_strlit("PurchaserAddress");
    reveal_strlit("PurchaserBank");
    reveal_strlit("SellerName");
    reveal_strlit("SellerRegisterNum");
    reveal_strlit("SellerAddress");
    reveal_strlit("SellerBank");
    reveal_strlit("TotalAmount");
    reveal_strlit("TotalTax");
    reveal_strlit("AmountInFigures");
    reveal_strlit("AmountInWords");
    reveal_strlit("NoteDrawer");
    reveal_strlit("Checker");
    reveal_strlit("Payee");
    reveal_strlit("Password");
    reveal_strlit("InvoiceType");
    assert("InvoiceNum"@.len() == 10);
    assert("InvoiceCode"@.len() == 11);
    assert("InvoiceDate"@.len() == 11);
    assert("PurchaserName"@.len() == 13);
    assert("PurchaserRegisterNum"@.len() == 20);
    assert("PurchaserAddress"@.len() == 16);
    assert("PurchaserBank"@.len() == 13);
    assert("SellerName"@.len() == 10);
    assert("SellerRegisterNum"@.len() == 17);
    assert("SellerAddress"@.len() == 13);
    assert("SellerBank"@.len() == 10);
    assert("TotalAmount"@.len() == 11);
    assert("TotalTax"@.len() == 8);
    assert("AmountInFigures"@.len() == 15);
    assert("AmountInWords"@.len() == 13);
    assert("NoteDrawer"@.len() == 10);
    assert("Checker"@.len() == 7);
    assert("Payee"@.len() == 5);
    assert("Password"@.len() == 8);
    assert("InvoiceType"@.len() == 11);
    assert("AmountInFigures"@[0] != 'C' || "AmountInFigures"@.len() < 12);
    let m0 = scnet_scalars(o);
    lemma_goods_other(m0, o, "AmountInFigures"@);
    assert(scnet_invoice_spec(o) == scnet_goods(m0, o));
}

#[verifier::rlimit(50)]
proof fn lemma_scnet_amountinwords(o: Seq<(String, JsonValue)>)
    ensures
        holds_text(scnet_invoice_spec(o), "AmountInWords"@, element_text(o, "totalAmountUpper"@)),
{
    lemma_element_text(o, "totalAmountUpper"@);
    reveal_strlit("InvoiceNum");
    reveal_strlit("InvoiceCode");
    reveal_strlit("InvoiceDate");
    reveal_strlit("PurchaserName");
    reveal_strlit("PurchaserRegisterNum");
    reveal_strlit("PurchaserAddress");
    reveal_strlit("PurchaserBank");
    reveal_strlit("SellerName");
    reveal_strlit("SellerRegisterNum");
    reveal_strlit("SellerAddress");
    reveal_strlit("SellerBank");
    reveal_strlit("TotalAmount");
    reveal_strlit("TotalTax");
    reveal_strlit("AmountInFigures");
    reveal_strlit("AmountInWords");
    reveal_strlit("NoteDrawer");
    reveal_strlit("Checker");
    reveal_strlit("Payee");
    reveal_strlit("Password");
    reveal_strlit("InvoiceType");
    assert("InvoiceNum"@.len() == 10);
    assert("InvoiceCode"@.len() == 11);
    assert("InvoiceDate"@.len() == 11);
    assert("PurchaserName"@.len() == 13);
    assert("PurchaserRegisterNum"@.len() == 20);
    assert("PurchaserAddress"@.len() == 16);
    assert("PurchaserBank"@.len() == 13);
    assert("SellerName"@.len() == 10);
    assert("SellerRegisterNum"@.len() == 17);
    assert("SellerAddress"@.len() == 13);
    assert("SellerBank"@.len() == 10);
    assert("TotalAmount"@.len() == 11);
    assert("TotalTax"@.len() == 8);
    assert("AmountInFigures"@.len() == 15);
    assert("AmountInWords"@.len() == 13);
    assert("NoteDrawer"@.len() == 10);
    assert("Checker"@.len() == 7);
    assert("Payee"@.len() == 5);
    assert("Password"@.len() == 8);
    assert("InvoiceType"@.len() == 11);
    assert("AmountInWords"@[0] != "PurchaserName"@[0]);
    assert("AmountInWords"@[0] != "PurchaserBank"@[0]);
    assert("AmountInWords"@[0] != "SellerAddress"@[0]);
    assert("AmountInWords"@[0] != 'C' || "AmountInWords"@.len() < 12);
    let m0 = scnet_scalars(o);
    lemma_goods_other(m0, o, "AmountInWords"@);
    assert(scnet_invoice_spec(o) == scnet_goods(m0, o));
}

#[verifier::rlimit(50)]
proof fn lemma_scnet_notedrawer(o: Seq<(String, JsonValue)>)
    ensures
        holds_text(scnet_invoice_spec(o), "NoteDrawer"@, element_text(o, "drawer"@)),
{
    lemma_element_text(o, "drawer"@);
    reveal_strlit("InvoiceNum");
    reveal_strlit("InvoiceCode");
    reveal_strlit("InvoiceDate");
    reveal_strlit("PurchaserName");
    reveal_strlit("PurchaserRegisterNum");
    reveal_strlit("PurchaserAddress");
    reveal_strlit("PurchaserBank");
    reveal_strlit("SellerName");
    reveal_strlit("SellerRegisterNum");
    reveal_strlit("SellerAddress");
    reveal_strlit("SellerBank");
    reveal_strlit("TotalAmount");
    reveal_strlit("TotalTax");
    reveal_strlit("AmountInFigures");
    reveal_strlit("AmountInWords");
    reveal_strlit("NoteDrawer");
    reveal_strlit("Checker");
    reveal_strlit("Payee");
    reveal_strlit("Password");
    reveal_strlit("InvoiceType");
    assert("InvoiceNum"@.len() == 10);
    assert("InvoiceCode"@.len() == 11);
    assert("InvoiceDate"@.len() == 11);
    assert("PurchaserName"@.len() == 13);
    assert("PurchaserRegisterNum"@.len() == 20);
    assert("PurchaserAddress"@.len() == 16);
    assert("PurchaserBank"@.len() == 13);
    assert("SellerName"@.len() == 10);
    assert("SellerRegisterNum"@.len() == 17);
    assert("SellerAddress"@.len() == 13);
    assert("SellerBank"@.len() == 10);
    assert("TotalAmount"@.len() == 11);
    assert("TotalTax"@.len() == 8);
    assert("AmountInFigures"@.len() == 15);
    assert("AmountInWords"@.len() == 13);
    assert("NoteDrawer"@.len() == 10);
    assert("Checker"@.len() == 7);
    assert("Payee"@.len() == 5);
    assert("Password"@.len() == 8);
    assert("InvoiceType"@.len() == 11);
    assert("NoteDrawer"@[0] != "InvoiceNum"@[0]);
    assert("NoteDrawer"@[0] != "SellerName"@[0]);
    assert("NoteDrawer"@[0] != "SellerBank"@[0]);
    assert("NoteDrawer"@[0] != 'C' || "NoteDrawer"@.len() < 12);
    let m0 = scnet_scalars(o);
    lemma_goods_other(m0, o, "NoteDrawer"@);
    assert(scnet_invoice_spec(o) == scnet_goods(m0, o));
}

#[verifier::rlimit(50)]
proof fn lemma_scnet_checker(o: Seq<(String, JsonValue)>)
    ensures
        holds_text(scnet_invoice_spec(o), "Checker"@, element_text(o, "checker"@)),
{
    lemma_element_text(o, "checker"@);
    reveal_strlit("InvoiceNum");
    reveal_strlit("InvoiceCode");
    reveal_strlit("InvoiceDate");
    reveal_strlit("PurchaserName");
    reveal_strlit("PurchaserRegisterNum");
    reveal_strlit("PurchaserAddress");
    reveal_strlit("PurchaserBank");
    reveal_strlit("SellerName");
    reveal_strlit("SellerRegisterNum");
    reveal_strlit("SellerAddress");
    reveal_strlit("SellerBank");
    reveal_strlit("TotalAmount");
    reveal_strlit("TotalTax");
    reveal_strlit("AmountInFigures");
    reveal_strlit("AmountInWords");
    reveal_strlit("NoteDrawer");
    reveal_strlit("Checker");
    reveal_strlit("Payee");
    reveal_strlit("Password");
    reveal_strlit("InvoiceType");
    assert("InvoiceNum"@.len() == 10);
    assert("InvoiceCode"@.len() == 11);
    assert("InvoiceDate"@.len() == 11);
    assert("PurchaserName"@.len() == 13);
    assert("PurchaserRegisterNum"@.len() == 20);
    assert("PurchaserAddress"@.len() == 16);
    assert("PurchaserBank"@.len() == 13);
    assert("SellerName"@.len() == 10);
    assert("SellerRegisterNum"@.len() == 17);
    assert("SellerAddress"@.len() == 13);
    assert("SellerBank"@.len() == 10);
    assert("TotalAmount"@.len() == 11);
    assert("TotalTax"@.len() == 8);
    assert("AmountInFigures"@.len() == 15);
    assert("AmountInWords"@.len() == 13);
    assert("NoteDrawer"@.len() == 10);
    assert("Checker"@.len() == 7);
    assert("Payee"@.len() == 5);
    assert("Password"@.len() == 8);
    assert("InvoiceType"@.len() == 11);
    assert("Checker"@[0] != 'C' || "Checker"@.len() < 12);
    let m0 = scnet_scalars(o);
    lemma_goods_other(m0, o, "Checker"@);
    assert(scnet_invoice_spec(o) == scnet_goods(m0, o));
}

#[verifier::rlimit(50)]
proof fn lemma_scnet_payee(o: Seq<(String, JsonValue)>)
    ensures
        holds_text(scnet_invoice_spec(o), "Payee"@, element_text(o, "payee"@)),
{
    lemma_element_text(o, "payee"@);
    reveal_strlit("InvoiceNum");
    reveal_strlit("InvoiceCode");
    reveal_strlit("InvoiceDate");
    reveal_strlit("PurchaserName");
    reveal_strlit("PurchaserRegisterNum");
    reveal_strlit("PurchaserAddress");
    reveal_strlit("PurchaserBank");
    reveal_strlit("SellerName");
    reveal_strlit("SellerRegisterNum");
    reveal_strlit("SellerAddress");
    reveal_strlit("SellerBank");
    reveal_strlit("TotalAmount");
    reveal_strlit("TotalTax");
    reveal_strlit("AmountInFigures");
    reveal_strlit("AmountInWords");
    reveal_strlit("NoteDrawer");
    reveal_strlit("Checker");
    reveal_strlit("Payee");
    reveal_strlit("Password");
    reveal_strlit("InvoiceType");
    assert("InvoiceNum"@.len() == 10);
    assert("InvoiceCode"@.len() == 11);
    assert("InvoiceDate"@.len() == 11);
    assert("PurchaserName"@.len() == 13);
    assert("PurchaserRegisterNum"@.len() == 20);
    assert("PurchaserAddress"@.len() == 16);
    assert("PurchaserBank"@.len() == 13);
    assert("SellerName"@.len() == 10);
    assert("SellerRegisterNum"@.len() == 17);
    assert("SellerAddress"@.len() == 13);
    assert("SellerBank"@.len() == 10);
    assert("TotalAmount"@.len() == 11);
    assert("TotalTax"@.len() == 8);
    assert("AmountInFigures"@.len() == 15);
    assert("AmountInWords"@.len() == 13);
    assert("NoteDrawer"@.len() == 10);
    assert("Checker"@.len() == 7);
    assert("Payee"@.len() == 5);
    assert("Password"@.len() == 8);
    assert("InvoiceType"@.len() == 11);
    assert("Payee"@[0] != 'C' || "Payee"@.len() < 12);
    let m0 = scnet_scalars(o);
    lemma_goods_other(m0, o, "Payee"@);
    assert(scnet_invoice_spec(o) == scnet_goods(m0, o));
}

/// The amounts and signatures of an SCNet invoice element: TotalAmount is
/// its pre-tax total (`preTaxTotalAmount`), TotalTax its tax total
/// (`totalTaxAmount`), AmountInFigures its total in figures
/// (`totalAmountLower`), AmountInWords its total in words
/// (`totalAmountUpper`), NoteDrawer, Checker and Payee its `drawer`,
/// `checker` and `payee`, each when non-empty and unset otherwise.
pub proof fn lemma_scnet_amounts(o: Seq<(String, JsonValue)>)
    ensures
        ({
            let r = scnet_invoice_spec(o);
            &&& holds_text(r, "TotalAmount"@, element_text(o, "preTaxTotalAmount"@))
            &&& holds_text(r, "TotalTax"@, element_text(o, "totalTaxAmount"@))
            &&& holds_text(r, "AmountInFigures"@, element_text(o, "totalAmountLower"@))
            &&& holds_text(r, "AmountInWords"@, element_text(o, "totalAmountUpper"@))
            &&& holds_text(r, "NoteDrawer"@, element_text(o, "drawer"@))
            &&& holds_text(r, "Checker"@, element_text(o, "checker"@))
            &&& holds_text(r, "Payee"@, element_text(o, "payee"@))
        }),
{
    lemma_scnet_totalamount(o);
    lemma_scnet_totaltax(o);
    lemma_scnet_amountinfigures(o);
    lemma_scnet_amountinwords(o);
    lemma_scnet_notedrawer(o);
    lemma_scnet_checker(o);
    lemma_scnet_payee(o);
}

#[verifier::rlimit(50)]
proof fn lemma_scnet_purchasername(o: Seq<(String, JsonValue)>)
    ensures
        holds_text(scnet_invoice_spec(o), "PurchaserName"@, element_text(o, "buyerName"@)),
{
    lemma_element_text(o, "buyerName"@);
    reveal_strlit("InvoiceNum");
    reveal_strlit("InvoiceCode");
    reveal_strlit("InvoiceDate");
    reveal_strlit("PurchaserName");
    reveal_strlit("PurchaserRegisterNum");
    reveal_strlit("PurchaserAddress");
    reveal_strlit("PurchaserBank");
    reveal_strlit("SellerName");
    reveal_strlit("SellerRegisterNum");
    reveal_strlit("SellerAddress");
    reveal_strlit("SellerBank");
    reveal_strlit("TotalAmount");
    reveal_strlit("TotalTax");
    reveal_strlit("AmountInFigures");
    reveal_strlit("AmountInWords");
    reveal_strlit("NoteDrawer");
    reveal_strlit("Checker");
    reveal_strlit("Payee");
    reveal_strlit("Password");
    reveal_strlit("InvoiceType");
    assert("InvoiceNum"@.len() == 10);
    assert("InvoiceCode"@.len() == 11);
    assert("InvoiceDate"@.len() == 11);
    assert("PurchaserName"@.len() == 13);
    assert("PurchaserRegisterNum"@.len() == 20);
    assert("PurchaserAddress"@.len() == 16);
    assert("PurchaserBank"@.len() == 13);
    assert("SellerName"@.len() == 10);
    assert("SellerRegisterNum"@.len() == 17);
    assert("SellerAddress"@.len() == 13);
    assert("SellerBank"@.len() == 10);
    assert("TotalAmount"@.len() == 11);
    assert("TotalTax"@.len() == 8);
    assert("AmountInFigures"@.len() == 15);
    assert("AmountInWords"@.len() == 13);
    assert("NoteDrawer"@.len() == 10);
    assert("Checker"@.len() == 7);
    assert("Payee"@.len() == 5);
    assert("Password"@.len() == 8);
    assert("InvoiceType"@.len() == 11);
    assert("PurchaserName"@[9] != "PurchaserBank"@[9]);
    assert("PurchaserName"@[0] != "SellerAddress"@[0]);
    assert("PurchaserName"@[0] != "AmountInWords"@[0]);
    assert("PurchaserName"@[0] != 'C' || "PurchaserName"@.len() < 12);
    let m0 = scnet_scalars(o);
    lemma_goods_other(m0, o, "PurchaserName"@);
    assert(scnet_invoice_spec(o) == scnet_goods(m0, o));
}

#[verifier::rlimit(50)]
proof fn lemma_scnet_purchaserregisternum(o: Seq<(String, JsonValue)>)
    ensures
        holds_text(scnet_invoice_spec(o), "PurchaserRegisterNum"@, element_text(o, "buyerCode"@)),
{
    lemma_element_text(o, "buyerCode"@);
    reveal_strlit("InvoiceNum");
    reveal_strlit("InvoiceCode");
    reveal_strlit("InvoiceDate");
    reveal_strlit("PurchaserName");
    reveal_strlit("PurchaserRegisterNum");
    reveal_strlit("PurchaserAddress");
    reveal_strlit("PurchaserBank");
    reveal_strlit("SellerName");
    reveal_strlit("SellerRegisterNum");
    reveal_strlit("SellerAddress");
    reveal_strlit("SellerBank");
    reveal_strlit("TotalAmount");
    reveal_strlit("TotalTax");
    reveal_strlit("AmountInFigures");
    reveal_strlit("AmountInWords");
    reveal_strlit("NoteDrawer");
    reveal_strlit("Checker");
    reveal_strlit("Payee");
    reveal_strlit("Password");
    reveal_strlit("InvoiceType");
    assert("InvoiceNum"@.len() == 10);
    assert("InvoiceCode"@.len() == 11);
    assert("InvoiceDate"@.len() == 11);
    assert("PurchaserName"@.len() == 13);
    assert("PurchaserRegisterNum"@.len() == 20);
    assert("PurchaserAddress"@.len() == 16);
    assert("PurchaserBank"@.len() == 13);
    assert("SellerName"@.len() == 10);
    assert("SellerRegisterNum"@.len() == 17);
    assert("SellerAddress"@.len() == 13);
    assert("SellerBank"@.len() == 10);
    assert("TotalAmount"@.len() == 11);
    assert("TotalTax"@.len() == 8);
    assert("AmountInFigures"@.len() == 15);
    assert("AmountInWords"@.len() == 13);
    assert("NoteDrawer"@.len() == 10);
    assert("Checker"@.len() == 7);
    assert("Payee"@.len() == 5);
    assert("Password"@.len() == 8);
    assert("InvoiceType"@.len() == 11);
    assert("PurchaserRegisterNum"@[0] != 'C' || "PurchaserRegisterNum"@.len() < 12);
    let m0 = scnet_scalars(o);
    lemma_goods_other(m0, o, "PurchaserRegisterNum"@);
    assert(scnet_invoice_spec(o) == scnet_goods(m0, o));
}

#[verifier::rlimit(50)]
proof fn lemma_scnet_purchaseraddress(o: Seq<(String, JsonValue)>)
    ensures
        holds_text(scnet_invoice_spec(o), "PurchaserAddress"@, element_text(o, "buyerAddressAndPhone"@)),
{
    lemma_element_text(o, "buyerAddressAndPhone"@);
    reveal_strlit("InvoiceNum");
    reveal_strlit("InvoiceCode");
    reveal_strlit("InvoiceDate");
    reveal_strlit("PurchaserName");
    reveal_strlit("PurchaserRegisterNum");
    reveal_strlit("PurchaserAddress");
    reveal_strlit("PurchaserBank");
    reveal_strlit("SellerName");
    reveal_strlit("SellerRegisterNum");
    reveal_strlit("SellerAddress");
    reveal_strlit("SellerBank");
    reveal_strlit("TotalAmount");
    reveal_strlit("TotalTax");
    reveal_strlit("AmountInFigures");
    reveal_strlit("AmountInWords");
    reveal_strlit("NoteDrawer");
    reveal_strlit("Checker");
    reveal_strlit("Payee");
    reveal_strlit("Password");
    reveal_strlit("InvoiceType");
    assert("InvoiceNum"@.len() == 10);
    assert("InvoiceCode"@.len() == 11);
    assert("InvoiceDate"@.len() == 11);
    assert("PurchaserName"@.len() == 13);
    assert("PurchaserRegisterNum"@.len() == 20);
    assert("PurchaserAddress"@.len() == 16);
    assert("PurchaserBank"@.len() == 13);
    assert("SellerName"@.len() == 10);
    assert("SellerRegisterNum"@.len() == 17);
    assert("SellerAddress"@.len() == 13);
    assert("SellerBank"@.len() == 10);
    assert("TotalAmount"@.len() == 11);
    assert("TotalTax"@.len() == 8);
    assert("AmountInFigures"@.len() == 15);
    assert("AmountInWords"@.len() == 13);
    assert("NoteDrawer"@.len() == 10);
    assert("Checker"@.len() == 7);
    assert("Payee"@.len() == 5);
    assert("Password"@.len() == 8);
    assert("InvoiceType"@.len() == 11);
    assert("PurchaserAddress"@[0] != 'C' || "PurchaserAddress"@.len() < 12);
    let m0 = scnet_scalars(o);
    lemma_goods_other(m0, o, "PurchaserAddress"@);
    assert(scnet_invoice_spec(o) == scnet_goods(m0, o));
}

#[verifier::rlimit(50)]
proof fn lemma_scnet_purchaserbank(o: Seq<(String, JsonValue)>)
    ensures
        holds_text(scnet_invoice_spec(o), "PurchaserBank"@, element_text(o, "buyerBankAndAccount"@)),
{
    lemma_element_text(o, "buyerBankAndAccount"@);
    reveal_strlit("InvoiceNum");
    reveal_strlit("InvoiceCode");
    reveal_strlit("InvoiceDate");
    reveal_strlit("PurchaserName");
    reveal_strlit("PurchaserRegisterNum");
    reveal_strlit("PurchaserAddress");
    reveal_strlit("PurchaserBank");
    reveal_strlit("SellerName");
    reveal_strlit("SellerRegisterNum");
    reveal_strlit("SellerAddress");
    reveal_strlit("SellerBank");
    reveal_strlit("TotalAmount");
    reveal_strlit("TotalTax");
    reveal_strlit("AmountInFigures");
    reveal_strlit("AmountInWords");
    reveal_strlit("NoteDrawer");
    reveal_strlit("Checker");
    reveal_strlit("Payee");
    reveal_strlit("Password");
    reveal_strlit("InvoiceType");
    assert("InvoiceNum"@.len() == 10);
    assert("InvoiceCode"@.len() == 11);
    assert("InvoiceDate"@.len() == 11);
    assert("PurchaserName"@.len() == 13);
    assert("PurchaserRegisterNum"@.len() == 20);
    assert("PurchaserAddress"@.len() == 16);
    assert("PurchaserBank"@.len() == 13);
    assert("SellerName"@.len() == 10);
    assert("SellerRegisterNum"@.len() == 17);
    assert("SellerAddress"@.len() == 13);
    assert("SellerBank"@.len() == 10);
    assert("TotalAmount"@.len() == 11);
    assert("TotalTax"@.len() == 8);
    assert("AmountInFigures"@.len() == 15);
    assert("AmountInWords"@.len() == 13);
    assert("NoteDrawer"@.len() == 10);
    assert("Checker"@.len() == 7);
    assert("Payee"@.len() == 5);
    assert("Password"@.len() == 8);
    assert("InvoiceType"@.len() == 11);
    assert("PurchaserBank"@[9] != "PurchaserName"@[9]);
    assert("PurchaserBank"@[0] != "SellerAddress"@[0]);
    assert("PurchaserBank"@[0] != "AmountInWords"@[0]);
    assert("PurchaserBank"@[0] != 'C' || "PurchaserBank"@.len() < 12);
    let m0 = scnet_scalars(o);
    lemma_goods_other(m0, o, "PurchaserBank"@);
    assert(scnet_invoice_spec(o) == scnet_goods(m0, o));
}

#[verifier::rlimit(50)]
proof fn lemma_scnet_sellername(o: Seq<(String, JsonValue)>)
    ensures
        holds_text(scnet_invoice_spec(o), "SellerName"@, element_text(o, "sellerName"@)),
{
    lemma_element_text(o, "sellerName"@);
    reveal_strlit("InvoiceNum");
    reveal_strlit("InvoiceCode");
    reveal_strlit("InvoiceDate");
    reveal_strlit("PurchaserName");
    reveal_strlit("PurchaserRegisterNum");
    reveal_strlit("PurchaserAddress");
    reveal_strlit("PurchaserBank");
    reveal_strlit("SellerName");
    reveal_strlit("SellerRegisterNum");
    reveal_strlit("SellerAddress");
    reveal_strlit("SellerBank");
    reveal_strlit("TotalAmount");
    reveal_strlit("TotalTax");
    reveal_strlit("AmountInFigures");
    reveal_strlit("AmountInWords");
    reveal_strlit("NoteDrawer");
    reveal_strlit("Checker");
    reveal_strlit("Payee");
    reveal_strlit("Password");
    reveal_strlit("InvoiceType");
    assert("InvoiceNum"@.len() == 10);
    assert("InvoiceCode"@.len() == 11);
    assert("InvoiceDate"@.len() == 11);
    assert("PurchaserName"@.len() == 13);
    assert("PurchaserRegisterNum"@.len() == 20);
    assert("PurchaserAddress"@.len() == 16);
    assert("PurchaserBank"@.len() == 13);
    assert("SellerName"@.len() == 10);
    assert("SellerRegisterNum"@.len() == 17);
    assert("SellerAddress"@.len() == 13);
    assert("SellerBank"@.len() == 10);
    assert("TotalAmount"@.len() == 11);
    assert("TotalTax"@.len() == 8);
    assert("AmountInFigures"@.len() == 15);
    assert("AmountInWords"@.len() == 13);
    assert("NoteDrawer"@.len() == 10);
    assert("Checker"@.len() == 7);
    assert("Payee"@.len() == 5);
    assert("Password"@.len() == 8);
    assert("InvoiceType"@.len() == 11);
    assert("SellerName"@[0] != "InvoiceNum"@[0]);
    assert("SellerName"@[6] != "SellerBank"@[6]);
    assert("SellerName"@[0] != "NoteDrawer"@[0]);
    assert("SellerName"@[0] != 'C' || "SellerName"@.len() < 12);
    let m0 = scnet_scalars(o);
    lemma_goods_other(m0, o, "SellerName"@);
    assert(scnet_invoice_spec(o) == scnet_goods(m0, o));
}

#[verifier::rlimit(50)]
proof fn lemma_scnet_sellerregisternum(o: Seq<(String, JsonValue)>)
    ensures
        holds_text(scnet_invoice_spec(o), "SellerRegisterNum"@, element_text(o, "sellerCode"@)),
{
    lemma_element_text(o, "sellerCode"@);
    reveal_strlit("InvoiceNum");
    reveal_strlit("InvoiceCode");
    reveal_strlit("InvoiceDate");
    reveal_strlit("PurchaserName");
    reveal_strlit("PurchaserRegisterNum");
    reveal_strlit("PurchaserAddress");
    reveal_strlit("PurchaserBank");
    reveal_strlit("SellerName");
    reveal_strlit("SellerRegisterNum");
    reveal_strlit("SellerAddress");
    reveal_strlit("SellerBank");
    reveal_strlit("TotalAmount");
    reveal_strlit("TotalTax");
    reveal_strlit("AmountInFigures");
    reveal_strlit("AmountInWords");
    reveal_strlit("NoteDrawer");
    reveal_strlit("Checker");
    reveal_strlit("Payee");
    reveal_strlit("Password");
    reveal_strlit("InvoiceType");
    assert("InvoiceNum"@.len() == 10);
    assert("InvoiceCode"@.len() == 11);
    assert("InvoiceDate"@.len() == 11);
    assert("PurchaserName"@.len() == 13);
    assert("PurchaserRegisterNum"@.len() == 20);
    assert("PurchaserAddress"@.len() == 16);
    assert("PurchaserBank"@.len() == 13);
    assert("SellerName"@.len() == 10);
    assert("SellerRegisterNum"@.len() == 17);
    assert("SellerAddress"@.len() == 13);
    assert("SellerBank"@.len() == 10);
    assert("TotalAmount"@.len() == 11);
    assert("TotalTax"@.len() == 8);
    assert("AmountInFigures"@.len() == 15);
    assert("AmountInWords"@.len() == 13);
    assert("NoteDrawer"@.len() == 10);
    assert("Checker"@.len() == 7);
    assert("Payee"@.len() == 5);
    assert("Password"@.len() == 8);
    assert("InvoiceType"@.len() == 11);
    assert("SellerRegisterNum"@[0] != 'C' || "SellerRegisterNum"@.len() < 12);
    let m0 = scnet_scalars(o);
    lemma_goods_other(m0, o, "SellerRegisterNum"@);
    assert(scnet_invoice_spec(o) == scnet_goods(m0, o));
}

#[verifier::rlimit(50)]
proof fn lemma_scnet_selleraddress(o: Seq<(String, JsonValue)>)
    ensures
        holds_text(scnet_invoice_spec(o), "SellerAddress"@, element_text(o, "sellerAddressAndPhone"@)),
{
    lemma_element_text(o, "sellerAddressAndPhone"@);
    reveal_strlit("InvoiceNum");
    reveal_strlit("InvoiceCode");
    reveal_strlit("InvoiceDate");
    reveal_strlit("PurchaserName");
    reveal_strlit("PurchaserRegisterNum");
    reveal_strlit("PurchaserAddress");
    reveal_strlit("PurchaserBank");
    reveal_strlit("SellerName");
    reveal_strlit("SellerRegisterNum");
    reveal_strlit("SellerAddress");
    reveal_strlit("SellerBank");
    reveal_strlit("TotalAmount");
    reveal_strlit("TotalTax");
    reveal_strlit("AmountInFigures");
    reveal_strlit("AmountInWords");
    reveal_strlit("NoteDrawer");
    reveal_strlit("Checker");
    reveal_strlit("Payee");
    reveal_strlit("Password");
    reveal_strlit("InvoiceType");
    assert("InvoiceNum"@.len() == 10);
    assert("InvoiceCode"@.len() == 11);
    assert("InvoiceDate"@.len() == 11);
    assert("PurchaserName"@.len() == 13);
    assert("PurchaserRegisterNum"@.len() == 20);
    assert("PurchaserAddress"@.len() == 16);
    assert("PurchaserBank"@.len() == 13);
    assert("SellerName"@.len() == 10);
    assert("SellerRegisterNum"@.len() == 17);
    assert("SellerAddress"@.len() == 13);
    assert("SellerBank"@.len() == 10);
    assert("TotalAmount"@.len() == 11);
    assert("TotalTax"@.len() == 8);
    assert("AmountInFigures"@.len() == 15);
    assert("AmountInWords"@.len() == 13);
    assert("NoteDrawer"@.len() == 10);
    assert("Checker"@.len() == 7);
    assert("Payee"@.len() == 5);
    assert("Password"@.len() == 8);
    assert("InvoiceType"@.len() == 11);
    assert("SellerAddress"@[0] != "PurchaserName"@[0]);
    assert("SellerAddress"@[0] != "PurchaserBank"@[0]);
    assert("SellerAddress"@[0] != "AmountInWords"@[0]);
    assert("SellerAddress"@[0] != 'C' || "SellerAddress"@.len() < 12);
    let m0 = scnet_scalars(o);
    lemma_goods_other(m0, o, "SellerAddress"@);
    assert(scnet_invoice_spec(o) == scnet_goods(m0, o));
}

#[verifier::rlimit(50)]
proof fn lemma_scnet_sellerbank(o: Seq<(String, JsonValue)>)
    ensures
        holds_text(scnet_invoice_spec(o), "SellerBank"@, element_text(o, "sellerBankAndAccount"@)),
{
    lemma_element_text(o, "sellerBankAndAccount"@);
    reveal_strlit("InvoiceNum");
    reveal_strlit("InvoiceCode");
    reveal_strlit("InvoiceDate");
    reveal_strlit("PurchaserName");
    reveal_strlit("PurchaserRegisterNum");
    reveal_strlit("PurchaserAddress");
    reveal_strlit("PurchaserBank");
    reveal_strlit("SellerName");
    reveal_strlit("SellerRegisterNum");
    reveal_strlit("SellerAddress");
    reveal_strlit("SellerBank");
    reveal_strlit("TotalAmount");
    reveal_strlit("TotalTax");
    reveal_strlit("AmountInFigures");
    reveal_strlit("AmountInWords");
    reveal_strlit("NoteDrawer");
    reveal_strlit("Checker");
    reveal_strlit("Payee");
    reveal_strlit("Password");
    reveal_strlit("InvoiceType");
    assert("InvoiceNum"@.len() == 10);
    assert("InvoiceCode"@.len() == 11);
    assert("InvoiceDate"@.len() == 11);
    assert("PurchaserName"@.len() == 13);
    assert("PurchaserRegisterNum"@.len() == 20);
    assert("PurchaserAddress"@.len() == 16);
    assert("PurchaserBank"@.len() == 13);
    assert("SellerName"@.len() == 10);
    assert("SellerRegisterNum"@.len() == 17);
    assert("SellerAddress"@.len() == 13);
    assert("SellerBank"@.len() == 10);
    assert("TotalAmount"@.len() == 11);
    assert("TotalTax"@.len() == 8);
    assert("AmountInFigures"@.len() == 15);
    assert("AmountInWords"@.len() == 13);
    assert("NoteDrawer"@.len() == 10);
    assert("Checker"@.len() == 7);
    assert("Payee"@.len() == 5);
    assert("Password"@.len() == 8);
    assert("InvoiceType"@.len() == 11);
    assert("SellerBank"@[0] != "InvoiceNum"@[0]);
    assert("SellerBank"@[6] != "SellerName"@[6]);
    assert("SellerBank"@[0] != "NoteDrawer"@[0]);
    assert("SellerBank"@[0] != 'C' || "SellerBank"@.len() < 12);
    let m0 = scnet_scalars(o);
    lemma_goods_other(m0, o, "SellerBank"@);
    assert(scnet_invoice_spec(o) == scnet_goods(m0, o));
}

#[verifier::rlimit(50)]
proof fn lemma_scnet_password(o: Seq<(String, JsonValue)>)
    ensures
        holds_text(scnet_invoice_spec(o), "Password"@, element_text(o, "passwordArea"@)),
{
    lemma_element_text(o, "passwordArea"@);
    reveal_strlit("InvoiceNum");
    reveal_strlit("InvoiceCode");
    reveal_strlit("InvoiceDate");
    reveal_strlit("PurchaserName");
    reveal_strlit("PurchaserRegisterNum");
    reveal_strlit("PurchaserAddress");
    reveal_strlit("PurchaserBank");
    reveal_strlit("SellerName");
    reveal_strlit("SellerRegisterNum");
    reveal_strlit("SellerAddress");
    reveal_strlit("SellerBank");
    reveal_strlit("TotalAmount");
    reveal_strlit("TotalTax");
    reveal_strlit("AmountInFigures");
    reveal_strlit("AmountInWords");
    reveal_strlit("NoteDrawer");
    reveal_strlit("Checker");
    reveal_strlit("Payee");
    reveal_strlit("Password");
    reveal_strlit("InvoiceType");
    assert("InvoiceNum"@.len() == 10);
    assert("InvoiceCode"@.len() == 11);
    assert("InvoiceDate"@.len() == 11);
    assert("PurchaserName"@.len() == 13);
    assert("PurchaserRegisterNum"@.len() == 20);
    assert("PurchaserAddress"@.len() == 16);
    assert("PurchaserBank"@.len() == 13);
    assert("SellerName"@.len() == 10);
    assert("SellerRegisterNum"@.len() == 17);
    assert("SellerAddress"@.len() == 13);
    assert("SellerBank"@.len() == 10);
    assert("TotalAmount"@.len() == 11);
    assert("TotalTax"@.len() == 8);
    assert("AmountInFigures"@.len() == 15);
    assert("AmountInWords"@.len() == 13);
    assert("NoteDrawer"@.len() == 10);
    assert("Checker"@.len() == 7);
    assert("Payee"@.len() == 5);
    assert("Password"@.len() == 8);
    assert("InvoiceType"@.len() == 11);
    assert("Password"@[0] != "TotalTax"@[0]);
    assert("Password"@[0] != 'C' || "Password"@.len() < 12);
    let m0 = scnet_scalars(o);
    lemma_goods_other(m0, o, "Password"@);
    assert(scnet_invoice_spec(o) == scnet_goods(m0, o));
}

/// The party fields and password area of an SCNet invoice element: the
/// purchaser's name, tax number, address and bank from `buyerName`,
/// `buyerCode`, `buyerAddressAndPhone` and `buyerBankAndAccount`, the
/// seller's from the `seller…` keys, and the password area from
/// `passwordArea`, each when non-empty and unset otherwise.
pub proof fn lemma_scnet_parties(o: Seq<(String, JsonValue)>)
    ensures
        ({
            let r = scnet_invoice_spec(o);
            &&& holds_text(r, "PurchaserName"@, element_text(o, "buyerName"@))
            &&& holds_text(r, "PurchaserRegisterNum"@, element_text(o, "buyerCode"@))
            &&& holds_text(r, "PurchaserAddress"@, element_text(o, "buyerAddressAndPhone"@))
            &&& holds_text(r, "PurchaserBank"@, element_text(o, "buyerBankAndAccount"@))
            &&& holds_text(r, "SellerName"@, element_text(o, "sellerName"@))
            &&& holds_text(r, "SellerRegisterNum"@, element_text(o, "sellerCode"@))
            &&& holds_text(r, "SellerAddress"@, element_text(o, "sellerAddressAndPhone"@))
            &&& holds_text(r, "SellerBank"@, element_text(o, "sellerBankAndAccount"@))
            &&& holds_text(r, "Password"@, element_text(o, "passwordArea"@))
        }),
{
    lemma_scnet_purchasername(o);
    lemma_scnet_purchaserregisternum(o);
    lemma_scnet_purchaseraddress(o);
    lemma_scnet_purchaserbank(o);
    lemma_scnet_sellername(o);
    lemma_scnet_sellerregisternum(o);
    lemma_scnet_selleraddress(o);
    lemma_scnet_sellerbank(o);
    lemma_scnet_password(o);
}


/// The goods items of an element: its `goodsDetails` array (none when it
/// has no such array).
pub open spec fn goods_items(o: Seq<(String, JsonValue)>) -> Seq<JsonValue> {
    match obj_get(o, "goodsDetails"@) {
        Some(JsonValue::Array(items)) => items@,
        _ => Seq::empty(),
    }
}

/// The text of goods item `g` under `key`, empty when it has none.
pub open spec fn goods_text(g: JsonValue, key: Seq<char>) -> Seq<char> {
    match element_text(as_object(g), key) {
        Some(t) => t,
        None => Seq::empty(),
    }
}

/// The rows of a goods column: item `i` gives row `i + 1` with its text
/// under `key`.
pub open spec fn goods_rows(items: Seq<JsonValue>, key: Seq<char>) -> Seq<(Seq<char>, Seq<char>)> {
    Seq::new(items.len(), |i: int| (goods_text(items[i], key), decimal((i + 1) as nat)))
}

proof fn lemma_goods_list(items: Seq<JsonValue>, key: Seq<char>)
    ensures
        parse_list(goods_list(items, key)) == Some(goods_rows(items, key)),
{
    assert forall|i: int| 0 <= i < items.len() implies goods_column(items, key)[i] == goods_text(items[i], key) by {
        lemma_element_text(as_object(items[i]), key);
    }
    assert(row_list_spec(goods_column(items, key)) =~= goods_rows(items, key));
    lemma_row_list_roundtrip(goods_rows(items, key));
}

/// The goods details of an SCNet invoice element become the commodity
/// lists, one row per item numbered from 1: the names from `goodsName`,
/// the specifications from `specification`, the units from `unit`, the
/// quantities from `quantity`, the prices from `unitPrice`, the amounts
/// from `itemAmount`, the tax rates from `taxRate` and the taxes from
/// `taxAmount`.
pub proof fn lemma_scnet_goods(o: Seq<(String, JsonValue)>)
    ensures
        goods_items(o).len() > 0 ==> {
            let r = scnet_invoice_spec(o);
            let g = goods_items(o);
            &&& r.contains_key("CommodityName"@) && parse_list(r["CommodityName"@]) == Some(goods_rows(g, "goodsName"@))
            &&& r.contains_key("CommodityType"@) && parse_list(r["CommodityType"@]) == Some(goods_rows(g, "specification"@))
            &&& r.contains_key("CommodityUnit"@) && parse_list(r["CommodityUnit"@]) == Some(goods_rows(g, "unit"@))
            &&& r.contains_key("CommodityNum"@) && parse_list(r["CommodityNum"@]) == Some(goods_rows(g, "quantity"@))
            &&& r.contains_key("CommodityPrice"@) && parse_list(r["CommodityPrice"@]) == Some(goods_rows(g, "unitPrice"@))
            &&& r.contains_key("CommodityAmount"@) && parse_list(r["CommodityAmount"@]) == Some(goods_rows(g, "itemAmount"@))
            &&& r.contains_key("CommodityTaxRate"@) && parse_list(r["CommodityTaxRate"@]) == Some(goods_rows(g, "taxRate"@))
            &&& r.contains_key("CommodityTax"@) && parse_list(r["CommodityTax"@]) == Some(goods_rows(g, "taxAmount"@))
        },
{
    match obj_get(o, "goodsDetails"@) {
        Some(JsonValue::Array(items)) => {
            if items@.len() > 0 {
                let g = items@;
                lemma_goods_list(g, "goodsName"@);
                lemma_goods_list(g, "specification"@);
                lemma_goods_list(g, "unit"@);
                lemma_goods_list(g, "quantity"@);
                lemma_goods_list(g, "unitPrice"@);
                lemma_goods_list(g, "itemAmount"@);
                lemma_goods_list(g, "taxRate"@);
                lemma_goods_list(g, "taxAmount"@);
                reveal_strlit("CommodityName");
                reveal_strlit("CommodityType");
                reveal_strlit("CommodityUnit");
                reveal_strlit("CommodityNum");
                reveal_strlit("CommodityPrice");
                reveal_strlit("CommodityAmount");
                reveal_strlit("CommodityTaxRate");
                reveal_strlit("CommodityTax");
                assert("CommodityName"@.len() == 13);
                assert("CommodityType"@.len() == 13);
                assert("CommodityUnit"@.len() == 13);
                assert("CommodityNum"@.len() == 12);
                assert("CommodityPrice"@.len() == 14);
                assert("CommodityAmount"@.len() == 15);
                assert("CommodityTaxRate"@.len() == 16);
                assert("CommodityTax"@.len() == 12);
                assert("CommodityName"@[9] != "CommodityType"@[9]);
                assert("CommodityName"@[9] != "CommodityUnit"@[9]);
                assert("CommodityType"@[9] != "CommodityUnit"@[9]);
                assert("CommodityNum"@[9] != "CommodityTax"@[9]);
            }
        },
        _ => {},
    }
}


/// The invoice type of an SCNet title: 专用发票 for a title that mentions
/// 专用; 普通发票 for one that mentions 普通 but not 专用; otherwise the
/// title itself.
pub proof fn lemma_scnet_type(title: Seq<char>)
    ensures
        contains(title, "专用"@) ==> scnet_type_spec(title) == "专用发票"@,
        contains(title, "普通"@) && !contains(title, "专用"@) ==> scnet_type_spec(title) == "普通发票"@,
        !contains(title, "普通"@) && !contains(title, "专用"@) ==> scnet_type_spec(title) == title,
{
}

/// An SCNet date with eight digits reads as year, month and day: the first
/// four digits, 年, the next two, 月, the last two, 日.
pub proof fn lemma_scnet_date(raw: Seq<char>)
    ensures
        ascii_digits(raw).len() == 8 ==> {
            let d = ascii_digits(raw);
            let r = scnet_date_spec(raw);
            &&& r.len() == 11
            &&& r[0] == d[0] && r[1] == d[1] && r[2] == d[2] && r[3] == d[3]
            &&& r[4] == '年'
            &&& r[5] == d[4] && r[6] == d[5]
            &&& r[7] == '月'
            &&& r[8] == d[6] && r[9] == d[7]
            &&& r[10] == '日'
        },
        ascii_digits(raw).len() != 8 ==> scnet_date_spec(raw) == raw,
{
    reveal_strlit("年");
    reveal_strlit("月");
    reveal_strlit("日");
}

} // verus!
