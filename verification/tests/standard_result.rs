use invoice_ocr_app::field_map::FieldMap;
use invoice_ocr_app::json::parse_row_list;
use invoice_ocr_app::row_list::{make_row_list, row_list_json, RowItem};
use invoice_ocr_app::standard::{
    make_standard_result, make_standard_result_at, merge_sparse_results, standard_to_sparse, StandardResult,
};

fn text(r: &StandardResult, key: &str) -> String {
    r.get(key).and_then(|v| v.as_text()).cloned().unwrap_or_default()
}

fn words(r: &StandardResult, key: &str) -> Vec<String> {
    r.get(key)
        .and_then(|v| v.as_rows())
        .map(|items| items.iter().map(|i| i.word.clone()).collect())
        .unwrap_or_default()
}

fn list(values: &[&str]) -> String {
    let v: Vec<String> = values.iter().map(|s| s.to_string()).collect();
    row_list_json(&make_row_list(&v))
}

fn map(entries: &[(&str, &str)]) -> FieldMap {
    let mut m = FieldMap::new();
    for (k, v) in entries {
        m.insert(k.to_string(), v.to_string());
    }
    m
}

#[test]
fn row_list_json_is_serde_text_and_reads_back() {
    let items = make_row_list(&vec!["a\"b".to_string(), "中\n".to_string()]);
    let text = row_list_json(&items);
    assert_eq!(text, "[{\"word\":\"a\\\"b\",\"row\":\"1\"},{\"word\":\"中\\n\",\"row\":\"2\"}]");
    let back = parse_row_list(&text).unwrap();
    assert_eq!(back.len(), 2);
    assert_eq!(back[0].word, "a\"b");
    assert_eq!(back[1].row, "2");
    assert_eq!(row_list_json(&Vec::<RowItem>::new()), "[]");
    let swapped = parse_row_list("[{\"row\":\"1\",\"word\":\"x\"}]").unwrap();
    assert_eq!(swapped[0].word, "x");
    assert!(parse_row_list("not json").is_none());
}

#[test]
fn standard_result_has_every_field_once() {
    let sparse = map(&[("InvoiceNum", "123"), ("InvoiceCode", "456"), ("CommodityName", &list(&["a", "b"]))]);
    let r = make_standard_result_at(&sparse, Some(1_700_000_000_123_456_789));
    assert_eq!(r.words_result.len(), 42);
    assert_eq!(text(&r, "InvoiceNumConfirm"), "123");
    assert_eq!(text(&r, "InvoiceCodeConfirm"), "456");
    assert_eq!(text(&r, "ServiceType"), "其他");
    assert_eq!(text(&r, "Agent"), "否");
    assert_eq!(words(&r, "CommodityName"), vec!["a", "b"]);
    assert!(words(&r, "CommodityTax").is_empty());
    // 123, 123, 456, 456, 其他, 否 and two rows.
    assert_eq!(r.words_result_num, 8);
    assert_eq!(r.log_id, "1700000000123456789");
    let neg = make_standard_result_at(&sparse, Some(-1_234_567_890_123_456_789));
    assert_eq!(neg.log_id, "-123456789012345678");
    assert_eq!(make_standard_result_at(&sparse, None).log_id, "0");
    let now = make_standard_result(&sparse);
    assert_eq!(now.words_result_num, 8);
    assert!(!now.log_id.is_empty());
}

#[test]
fn bad_list_text_reads_as_no_rows() {
    let sparse = map(&[("CommodityAmount", "oops"), ("ServiceType", "货物")]);
    let r = make_standard_result_at(&sparse, None);
    assert!(words(&r, "CommodityAmount").is_empty());
    assert_eq!(text(&r, "ServiceType"), "货物");
}

#[test]
fn merge_keeps_first_scalar_and_dedups_rows() {
    let mut target = map(&[("InvoiceNum", "1"), ("Remarks", ""), ("CommodityName", &list(&["a", "b"]))]);
    let source = map(&[
        ("InvoiceNum", "2"),
        ("Remarks", "r"),
        ("Payee", ""),
        ("CommodityName", &list(&[" a ", "c"])),
    ]);
    merge_sparse_results(&mut target, source);
    assert_eq!(target.get("InvoiceNum").unwrap(), "1");
    assert_eq!(target.get("Remarks").unwrap(), "r");
    assert!(!target.contains_key("Payee"));
    let merged = parse_row_list(target.get("CommodityName").unwrap()).unwrap();
    let ws: Vec<String> = merged.iter().map(|i| i.word.clone()).collect();
    assert_eq!(ws, vec!["a", "b", "c"]);
    assert_eq!(merged[2].row, "2");
}

#[test]
fn merging_the_same_page_twice_changes_nothing() {
    let page = map(&[("InvoiceNum", "9"), ("CommodityName", &list(&["x", "y"]))]);
    let mut once = FieldMap::new();
    merge_sparse_results(&mut once, map(&[("InvoiceNum", "9"), ("CommodityName", &list(&["x", "y"]))]));
    let mut twice = FieldMap::new();
    merge_sparse_results(&mut twice, map(&[("InvoiceNum", "9"), ("CommodityName", &list(&["x", "y"]))]));
    merge_sparse_results(&mut twice, page);
    assert_eq!(once.get("CommodityName"), twice.get("CommodityName"));
    assert_eq!(once.get("InvoiceNum"), twice.get("InvoiceNum"));
    assert_eq!(once.len(), twice.len());
}

#[test]
fn empty_words_are_deduplicated_by_row() {
    let mut t = map(&[("CommodityUnit", &list(&[""]))]);
    merge_sparse_results(&mut t, map(&[("CommodityUnit", &list(&["", ""]))]));
    let rows = parse_row_list(t.get("CommodityUnit").unwrap()).unwrap();
    assert_eq!(rows.len(), 2);
    assert_eq!(rows[1].row, "2");
}

#[test]
fn standard_result_back_to_sparse() {
    let sparse = map(&[("InvoiceNum", "5"), ("CommodityTax", &list(&["1.00"]))]);
    let r = make_standard_result_at(&sparse, None);
    let back = standard_to_sparse(&r);
    assert_eq!(back.get("InvoiceNum").unwrap(), "5");
    assert_eq!(back.get("InvoiceNumConfirm").unwrap(), "5");
    assert_eq!(back.get("ServiceType").unwrap(), "其他");
    assert_eq!(back.get("CommodityTax").unwrap(), &list(&["1.00"]));
    assert!(!back.contains_key("CommodityName"));
    assert!(!back.contains_key("Payee"));
}
