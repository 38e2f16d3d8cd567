use invoice_ocr_app::field_map::FieldMap;
use invoice_ocr_app::files::{is_pdf, is_pdf_extension, is_supported_extension, is_supported_ocr_file};
use invoice_ocr_app::json::{json_value_parse, parse_row_list, rows_from_json, JsonValue};
use invoice_ocr_app::metadata::invoice_numbers_from_matches;
use invoice_ocr_app::ocr::parse_jsonl_response;
use invoice_ocr_app::recognition::{merge_rerecognized, recognize_start, recognize_step, Phase, RecognizeAction, RecognizeEvent};
use invoice_ocr_app::standard::{epoch_nanos, make_standard_result, make_standard_result_at, merge_sparse_results};
use invoice_ocr_app::stored::stored_result;
use invoice_ocr_app::records::extract_invoice_keys;

fn pairs(items: &[invoice_ocr_app::row_list::RowItem]) -> Vec<(String, String)> {
    items.iter().map(|i| (i.word.clone(), i.row.clone())).collect()
}

fn p(w: &str, r: &str) -> (String, String) {
    (w.to_string(), r.to_string())
}

#[test]
fn row_list_reads_any_json_layout() {
    let spaced = "[ {\"row\": \"1\", \"word\": \"钢管\", \"note\": 3},\n  {\"word\": \"挤塑板\", \"row\": \"2\"} ]";
    let items = parse_row_list(spaced).unwrap();
    assert_eq!(pairs(&items), vec![p("钢管", "1"), p("挤塑板", "2")]);
    let seq_form = parse_row_list("[[\"a\", \"7\"]]").unwrap();
    assert_eq!(pairs(&seq_form), vec![p("a", "7")]);
    assert_eq!(parse_row_list("[]").unwrap().len(), 0);
    assert!(parse_row_list("[{\"word\": \"a\"}]").is_none());
    assert!(parse_row_list("[{\"word\": 1, \"row\": \"1\"}]").is_none());
    assert!(parse_row_list("[[\"a\", \"1\", \"x\"]]").is_none());
    assert!(parse_row_list("{\"word\": \"a\", \"row\": \"1\"}").is_none());
    assert!(parse_row_list("[{\"word\": \"a\", \"row\": \"1\"}").is_none());
}

#[test]
fn json_values_convert() {
    match json_value_parse(" {\"a\": [1, -2, \"x\", null, true]} ") {
        Some(JsonValue::Object(o)) => {
            assert_eq!(o.len(), 1);
            assert_eq!(o[0].0, "a");
            match &o[0].1 {
                JsonValue::Array(a) => {
                    assert_eq!(a.len(), 5);
                    assert!(matches!(&a[0], JsonValue::Number { integer: Some(1), unsigned: Some(1), .. }));
                    assert!(matches!(&a[1], JsonValue::Number { integer: Some(-2), unsigned: None, .. }));
                    assert!(matches!(&a[2], JsonValue::Str(s) if s == "x"));
                    assert!(matches!(&a[3], JsonValue::Null));
                    assert!(matches!(&a[4], JsonValue::Bool(true)));
                },
                _ => panic!("array expected"),
            }
        },
        _ => panic!("object expected"),
    }
    assert!(json_value_parse("{").is_none());
    assert!(rows_from_json(&JsonValue::Null).is_none());
}

#[test]
fn standard_result_keeps_spaced_lists() {
    let mut m = FieldMap::new();
    m.insert("CommodityName".to_string(), "[ { \"word\": \"工程款\", \"row\": \"1\" } ]".to_string());
    let r = make_standard_result(&m);
    let names = r.get("CommodityName").and_then(|v| v.as_rows()).unwrap();
    assert_eq!(pairs(names), vec![p("工程款", "1")]);
    assert_eq!(r.words_result_num, 3);
}

#[test]
fn merge_keeps_spaced_existing_list() {
    let mut t = FieldMap::new();
    t.insert("CommodityName".to_string(), "[ {\"word\": \"a\", \"row\": \"1\"} ]".to_string());
    let mut s = FieldMap::new();
    s.insert("CommodityName".to_string(), "[{\"word\":\"b\",\"row\":\"2\"},{\"word\":\" a \",\"row\":\"1\"}]".to_string());
    merge_sparse_results(&mut t, s);
    let merged = parse_row_list(t.get("CommodityName").unwrap()).unwrap();
    assert_eq!(pairs(&merged), vec![p("a", "1"), p("b", "2")]);
}

#[test]
fn extensions() {
    assert!(is_pdf("dir.v2/scan.pdf"));
    assert!(is_pdf("scan.pdf/"));
    assert!(!is_pdf("a.pdf/page"));
    assert!(is_supported_ocr_file("photos/IMG.JPEG"));
    assert!(!is_supported_ocr_file("photos.png/readme"));
    assert!(is_pdf_extension(&Some("PdF".to_string())));
    assert!(!is_pdf_extension(&Some("pdfx".to_string())));
    assert!(!is_pdf_extension(&None));
    assert!(is_supported_extension(&Some("bmp".to_string())));
    assert!(!is_supported_extension(&Some("tif".to_string())));
}

#[test]
fn jsonl_pages() {
    let one = "{\"result\": {\"layoutParsingResults\": [{\"markdown\": {\"text\": \"p1\"}}, {\"markdown\": {\"text\": \"p2\"}, \"prunedResult\": {\"parsing_res_list\": [{\"block_label\": \"text\", \"block_content\": \"c\"}]}}]}}";
    let pages = parse_jsonl_response(one);
    assert_eq!(pages.len(), 2);
    assert_eq!(pages[0].markdown_text, "p1");
    assert_eq!(pages[1].markdown_text, "p2");
    assert_eq!(pages[1].blocks.len(), 1);
    let lines = "{\"layoutParsingResults\": [{\"markdown\": {\"text\": \"a\"}}]}\r\n\nnot json\n{\"layoutParsingResults\": [{\"markdown\": {\"text\": \"b\"}}]}\n";
    let pages = parse_jsonl_response(lines);
    assert_eq!(pages.len(), 2);
    assert_eq!(pages[0].markdown_text, "a");
    assert_eq!(pages[1].markdown_text, "b");
    assert_eq!(parse_jsonl_response("   \n ").len(), 0);
}

fn recognized(code: &str, num: &str) -> RecognizeEvent {
    RecognizeEvent::Recognized { code: code.to_string(), num: num.to_string() }
}

#[test]
fn run_skips_cached_and_merges_by_number() {
    let (s, a) = recognize_start(3);
    assert!(matches!(a, RecognizeAction::CheckCache(0)));
    let (s, a) = recognize_step(s, RecognizeEvent::CacheHit { invoice_id: 9, success: true });
    assert!(matches!(a, RecognizeAction::CheckCache(1)));
    let (s, a) = recognize_step(s, RecognizeEvent::CacheHit { invoice_id: 4, success: false });
    assert!(matches!(a, RecognizeAction::DeleteAndRecognize { invoice_id: 4, path: 1 }));
    let (s, a) = recognize_step(s, recognized("c", "1"));
    assert!(matches!(a, RecognizeAction::CheckCache(2)));
    let (s, a) = recognize_step(s, RecognizeEvent::CacheMiss);
    assert!(matches!(a, RecognizeAction::Recognize(2)));
    let (s, a) = recognize_step(s, recognized("c", "1"));
    assert!(s.phase == Phase::Store);
    assert_eq!(s.kept, vec![1usize, 2]);
    assert_eq!(s.groups, vec![vec![0usize, 1]]);
    assert!(matches!(a, RecognizeAction::FindExisting(0)));
    let (s, a) = recognize_step(s, RecognizeEvent::Existing(Some(5)));
    assert!(matches!(a, RecognizeAction::MergeInto { invoice_id: 5, group: 0 }));
    let (s, a) = recognize_step(s, RecognizeEvent::Stored);
    assert!(matches!(a, RecognizeAction::Finish));
    assert_eq!(s.cached, vec![9i64]);
    let (_, a) = recognize_step(s, RecognizeEvent::Stored);
    assert!(matches!(a, RecognizeAction::Unexpected));
}

#[test]
fn run_stores_failures_and_goes_on() {
    let (s, _) = recognize_start(2);
    let (s, a) = recognize_step(s, RecognizeEvent::CacheMiss);
    assert!(matches!(a, RecognizeAction::Recognize(0)));
    let (s, a) = recognize_step(s, RecognizeEvent::OcrFailed);
    assert!(matches!(a, RecognizeAction::StoreFailure(0)));
    let (s, a) = recognize_step(s, RecognizeEvent::Stored);
    assert!(matches!(a, RecognizeAction::CheckCache(1)));
    let (s, a) = recognize_step(s, RecognizeEvent::CacheMiss);
    assert!(matches!(a, RecognizeAction::Recognize(1)));
    let (s, a) = recognize_step(s, recognized("", ""));
    assert!(matches!(a, RecognizeAction::CreateInvoice(0)));
    assert_eq!(s.failed, vec![0usize]);
    assert_eq!(s.kept, vec![1usize]);
    let (s, a) = recognize_step(s, RecognizeEvent::Stored);
    assert!(matches!(a, RecognizeAction::Finish));
    assert!(s.phase == Phase::Finished);
}

#[test]
fn run_separates_unnumbered_files() {
    let (s, _) = recognize_start(2);
    let (s, _) = recognize_step(s, RecognizeEvent::CacheMiss);
    let (s, _) = recognize_step(s, recognized("", ""));
    let (s, _) = recognize_step(s, RecognizeEvent::CacheMiss);
    let (s, a) = recognize_step(s, recognized("", ""));
    assert_eq!(s.groups, vec![vec![0usize], vec![1usize]]);
    assert!(matches!(a, RecognizeAction::CreateInvoice(0)));
    let (s, a) = recognize_step(s, RecognizeEvent::Stored);
    assert!(matches!(a, RecognizeAction::CreateInvoice(1)));
    let (_, a) = recognize_step(s, RecognizeEvent::Stored);
    assert!(matches!(a, RecognizeAction::Finish));
}

#[test]
fn run_outcomes_without_new_invoices() {
    let (s, a) = recognize_start(1);
    assert!(matches!(a, RecognizeAction::CheckCache(0)));
    let (_, a) = recognize_step(s, RecognizeEvent::CacheHit { invoice_id: 1, success: true });
    assert!(matches!(a, RecognizeAction::ReturnCached));
    let (s, _) = recognize_start(1);
    let (s, _) = recognize_step(s, RecognizeEvent::CacheMiss);
    let (s, a) = recognize_step(s, RecognizeEvent::OcrFailed);
    assert!(matches!(a, RecognizeAction::StoreFailure(0)));
    let (_, a) = recognize_step(s, RecognizeEvent::Stored);
    assert!(matches!(a, RecognizeAction::AllFailed));
    let (s, _) = recognize_start(1);
    let (_, a) = recognize_step(s, RecognizeEvent::Stored);
    assert!(matches!(a, RecognizeAction::Unexpected));
}

#[test]
fn stored_results_are_read_field_by_field() {
    let legacy = stored_result("{\"words_result\":{\"InvoiceNum\":\"999\",\"InvoiceCode\":\"c\"}}");
    assert_eq!(legacy.log_id, "");
    assert_eq!(legacy.words_result_num, 0);
    assert_eq!(extract_invoice_keys(&legacy), ("c".to_string(), "999".to_string()));
    let full = stored_result(
        "{\"log_id\":\"17\",\"words_result_num\":3,\"words_result\":{\"A\":\"x\",\"N\":5,\"L\":[{\"row\":\"1\",\"word\":\"w\"},{\"word\":7}]}}",
    );
    assert_eq!(full.log_id, "17");
    assert_eq!(full.words_result_num, 3);
    assert_eq!(full.words_result.len(), 2);
    let rows = full.get("L").and_then(|v| v.as_rows()).unwrap();
    assert_eq!(pairs(rows), vec![p("w", "1"), p("", "")]);
    assert!(full.get("N").is_none());
    assert_eq!(stored_result("not json").words_result.len(), 0);
}

#[test]
fn clock_readings_in_nanoseconds() {
    assert_eq!(epoch_nanos(1, 5), Some(1_000_000_005));
    assert_eq!(epoch_nanos(9_223_372_036, 854_775_807), Some(i64::MAX));
    assert_eq!(epoch_nanos(9_223_372_036, 854_775_808), None);
    assert_eq!(epoch_nanos(u64::MAX, 0), None);
}

#[test]
fn invoice_numbers_from_found_matches() {
    let m = invoice_numbers_from_matches(None, None, None, Some("123456789012345678".to_string()), &vec![]);
    assert_eq!(m.get("InvoiceNum").map(|s| s.as_str()), Some("12345678"));
    assert_eq!(m.get("InvoiceCode").map(|s| s.as_str()), Some("9012345678"));
    let runs: Vec<String> = vec!["1234567890123".to_string(), "12345678".to_string(), "1200213130".to_string()];
    let m = invoice_numbers_from_matches(Some("2512".to_string()), None, None, None, &runs);
    assert_eq!(m.get("InvoiceNumDigit").map(|s| s.as_str()), Some("2512"));
    assert_eq!(m.get("InvoiceNum").map(|s| s.as_str()), Some("12345678"));
    assert_eq!(m.get("InvoiceCode").map(|s| s.as_str()), Some("1200213130"));
    let m = invoice_numbers_from_matches(None, Some("87654321".to_string()), None, Some("123456789012345678".to_string()), &runs);
    assert_eq!(m.get("InvoiceNum").map(|s| s.as_str()), Some("87654321"));
    assert_eq!(m.get("InvoiceCode").map(|s| s.as_str()), Some("9012345678"));
}

#[test]
fn rerecognition_merges_successes_only() {
    assert!(merge_rerecognized(&vec![None, None]).is_none());
    let mut a = FieldMap::new();
    a.insert("InvoiceNum".to_string(), "111".to_string());
    let mut b = FieldMap::new();
    b.insert("InvoiceNum".to_string(), "222".to_string());
    b.insert("Payee".to_string(), "张三".to_string());
    let ra = make_standard_result_at(&a, Some(1));
    let rb = make_standard_result_at(&b, Some(2));
    let m = merge_rerecognized(&vec![None, Some(ra), None, Some(rb)]).unwrap();
    assert_eq!(m.get("InvoiceNum").map(|s| s.as_str()), Some("111"));
    assert_eq!(m.get("Payee").map(|s| s.as_str()), Some("张三"));
}
