use invoice_ocr_app::field_map::FieldMap;
use invoice_ocr_app::files::{is_pdf, is_supported_ocr_file, prepare_ocr_inputs, OcrInputs};
use invoice_ocr_app::records::{
    build_list_query, extract_invoice_keys, group_by_invoice, max_ocr_count, placeholders, InvoiceCounts,
};
use invoice_ocr_app::standard::make_standard_result_at;

fn keys(pairs: &[(&str, &str)]) -> Vec<(String, String)> {
    pairs.iter().map(|(c, n)| (c.to_string(), n.to_string())).collect()
}

#[test]
fn file_kinds() {
    assert!(is_pdf("/tmp/a.PDF"));
    assert!(is_pdf("scan.pdf"));
    assert!(!is_pdf("scan.pdf.png"));
    assert!(!is_pdf(".pdf"));
    assert!(!is_pdf("noext"));
    assert!(is_supported_ocr_file("a.JPG"));
    assert!(is_supported_ocr_file("a.webp"));
    assert!(is_supported_ocr_file("a.Pdf"));
    assert!(!is_supported_ocr_file("a.gif"));
    assert!(!is_supported_ocr_file("a"));
    match prepare_ocr_inputs("x.pdf") {
        OcrInputs::RenderPdf => {},
        OcrInputs::Images(_) => panic!("a pdf is rendered first"),
    }
    match prepare_ocr_inputs("x.png") {
        OcrInputs::Images(v) => assert_eq!(v, vec!["x.png".to_string()]),
        OcrInputs::RenderPdf => panic!("an image is sent as it is"),
    }
}

#[test]
fn files_with_one_number_form_one_invoice() {
    let k = keys(&[("c", "1"), ("", ""), ("c", "1"), ("d", "1"), ("", ""), ("c", "2")]);
    let groups = group_by_invoice(&k);
    assert_eq!(groups, vec![vec![0, 2], vec![1], vec![3], vec![4], vec![5]]);
    assert!(group_by_invoice(&Vec::new()).is_empty());
}

#[test]
fn invoice_keys_are_trimmed() {
    let mut sparse = FieldMap::new();
    sparse.insert("InvoiceNum".to_string(), " 999 ".to_string());
    sparse.insert("InvoiceCode".to_string(), "c".to_string());
    let r = make_standard_result_at(&sparse, None);
    assert_eq!(extract_invoice_keys(&r), ("c".to_string(), "999".to_string()));
    let empty = make_standard_result_at(&FieldMap::new(), None);
    assert_eq!(extract_invoice_keys(&empty), (String::new(), String::new()));
}

#[test]
fn legacy_counts() {
    assert_eq!(max_ocr_count(&vec![1, 3, 2]), 3);
    assert_eq!(max_ocr_count(&vec![]), 1);
    assert_eq!(max_ocr_count(&vec![-4]), -4);
}

#[test]
fn list_query_numbers_its_parameters() {
    let q = build_list_query(3, 20, Some("failed"), Some(""), Some("2025-01-31"));
    assert_eq!(q.count_sql, "SELECT COUNT(*) FROM invoices i WHERE i.status = ?1 AND date(i.created_at) <= ?2");
    assert!(q.list_sql.ends_with(
        " FROM invoices i WHERE i.status = ?1 AND date(i.created_at) <= ?2 ORDER BY i.id DESC LIMIT ?3 OFFSET ?4"
    ));
    assert!(q.list_sql.starts_with("SELECT i.id, i.invoice_code,"));
    assert_eq!(q.args, vec!["failed".to_string(), "2025-01-31".to_string()]);
    assert_eq!(q.limit, 20);
    assert_eq!(q.offset, 40);
    let all = build_list_query(0, 10, None, None, None);
    assert_eq!(all.count_sql, "SELECT COUNT(*) FROM invoices i ");
    assert!(all.list_sql.ends_with(" FROM invoices i  ORDER BY i.id DESC LIMIT ?1 OFFSET ?2"));
    assert_eq!(all.offset, 0);
    assert!(all.args.is_empty());
}

#[test]
fn id_placeholders() {
    assert_eq!(placeholders(0), "");
    assert_eq!(placeholders(1), "?");
    assert_eq!(placeholders(3), "?,?,?");
    let c = InvoiceCounts::default();
    assert_eq!((c.all, c.success, c.failed), (0, 0, 0));
}
