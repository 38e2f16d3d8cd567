use invoice_ocr_app::ocr::{
    pages_from_documents, resolve_provider, resolve_setting, scnet_elements_to_sparse, scnet_invoice_type,
    scnet_normalize_date, scnet_response_to_sparse, JsonValue, OcrProvider, OcrSettings, SettingSources,
};
use invoice_ocr_app::json::parse_row_list;

fn s(v: &str) -> JsonValue {
    JsonValue::Str(v.to_string())
}

fn num(n: i64) -> JsonValue {
    JsonValue::Number { text: n.to_string(), integer: Some(n), unsigned: if n >= 0 { Some(n as u64) } else { None } }
}

fn obj(entries: Vec<(&str, JsonValue)>) -> JsonValue {
    JsonValue::Object(entries.into_iter().map(|(k, v)| (k.to_string(), v)).collect())
}

fn src(db: Option<&str>, env: Option<&str>, file: Option<&str>) -> SettingSources {
    SettingSources { db: db.map(|x| x.to_string()), env: env.map(|x| x.to_string()), file: file.map(|x| x.to_string()) }
}

#[test]
fn scnet_dates_and_types() {
    assert_eq!(scnet_normalize_date("20250902"), "2025年09月02日");
    assert_eq!(scnet_normalize_date("2025-09-02"), "2025年09月02日");
    assert_eq!(scnet_normalize_date("2025年9月"), "2025年9月");
    assert_eq!(scnet_invoice_type("电子发票（增值税专用发票）"), "专用发票");
    assert_eq!(scnet_invoice_type("电子发票（普通发票）"), "普通发票");
    assert_eq!(scnet_invoice_type("火车票"), "火车票");
}

#[test]
fn scnet_invoice_elements() {
    let goods = JsonValue::Array(vec![
        obj(vec![("goodsName", s(" *货物*钢管 ")), ("quantity", num(110)), ("taxRate", s("13%"))]),
        obj(vec![("goodsName", s("*货物*阀门"))]),
    ]);
    let e = obj(vec![
        ("invoiceNo", s("")),
        ("printedNo", s("123")),
        ("invoiceDate", s("20251128")),
        ("buyerName", s(" 甲 ")),
        ("title", s("电子发票（增值税专用发票）")),
        ("goodsDetails", goods),
    ]);
    let m = scnet_elements_to_sparse(&e);
    assert_eq!(m.get("InvoiceNum").unwrap(), "123");
    assert_eq!(m.get("InvoiceDate").unwrap(), "2025年11月28日");
    assert_eq!(m.get("PurchaserName").unwrap(), "甲");
    assert_eq!(m.get("InvoiceType").unwrap(), "专用发票");
    assert!(!m.contains_key("InvoiceCode"));
    let names = parse_row_list(m.get("CommodityName").unwrap()).unwrap();
    assert_eq!(names.len(), 2);
    assert_eq!(names[0].word, "*货物*钢管");
    assert_eq!(names[1].row, "2");
    let nums = parse_row_list(m.get("CommodityNum").unwrap()).unwrap();
    assert_eq!(nums[0].word, "110");
    assert_eq!(nums[1].word, "");
}

#[test]
fn scnet_generic_elements() {
    let e = obj(vec![
        ("name", s(" 张三 ")),
        ("age", num(30)),
        ("valid", JsonValue::Bool(true)),
        ("confidence", s("0.9")),
        ("empty", s("  ")),
        ("nested", JsonValue::Array(vec![])),
    ]);
    let m = scnet_elements_to_sparse(&e);
    assert_eq!(m.get("name").unwrap(), "张三");
    assert_eq!(m.get("age").unwrap(), "30");
    assert_eq!(m.get("valid").unwrap(), "true");
    assert!(!m.contains_key("confidence"));
    assert!(!m.contains_key("empty"));
    assert_eq!(m.len(), 3);
    assert_eq!(scnet_elements_to_sparse(&JsonValue::Null).len(), 0);
}

#[test]
fn scnet_response_items() {
    let payload = obj(vec![(
        "data",
        JsonValue::Array(vec![obj(vec![(
            "result",
            JsonValue::Array(vec![
                obj(vec![("status", num(200)), ("elements", obj(vec![("buyerName", s("甲"))]))]),
                obj(vec![("status", num(500)), ("elements", obj(vec![("buyerName", s("乙"))]))]),
                obj(vec![("status", num(200)), ("elements", JsonValue::Null)]),
                obj(vec![("status", num(200)), ("elements", obj(vec![("buyerName", s(""))]))]),
            ]),
        )])]),
    )]);
    let r = scnet_response_to_sparse(&payload).unwrap();
    assert_eq!(r.len(), 1);
    assert_eq!(r[0].get("PurchaserName").unwrap(), "甲");
    match scnet_response_to_sparse(&obj(vec![("code", s("0"))])) {
        Err(e) => assert_eq!(e, "SCNet response missing data array"),
        Ok(_) => panic!("a response without data is refused"),
    }
}

#[test]
fn paddle_pages() {
    let page = obj(vec![
        ("markdown", obj(vec![("text", s("<table></table>"))])),
        (
            "prunedResult",
            obj(vec![(
                "parsing_res_list",
                JsonValue::Array(vec![
                    obj(vec![("block_label", s("text")), ("block_content", s("发票"))]),
                    obj(vec![("block_content", s("no label"))]),
                    obj(vec![("block_label", s("table"))]),
                ]),
            )]),
        ),
    ]);
    let docs = vec![
        obj(vec![("result", obj(vec![("layoutParsingResults", JsonValue::Array(vec![page]))]))]),
        obj(vec![("layoutParsingResults", JsonValue::Array(vec![obj(vec![])]))]),
        s("junk"),
    ];
    let pages = pages_from_documents(&docs);
    assert_eq!(pages.len(), 2);
    assert_eq!(pages[0].markdown_text, "<table></table>");
    assert_eq!(pages[0].blocks.len(), 2);
    assert_eq!(pages[0].blocks[0].block_content, "发票");
    assert_eq!(pages[0].blocks[1].block_label, "table");
    assert_eq!(pages[0].blocks[1].block_content, "");
    assert_eq!(pages[1].markdown_text, "");
    assert!(pages[1].blocks.is_empty());
}

#[test]
fn settings_resolution() {
    assert_eq!(resolve_setting(src(Some(""), Some("e"), Some("f")), "d"), "e");
    assert_eq!(resolve_setting(src(None, Some(""), Some("f")), "d"), "f");
    assert_eq!(resolve_setting(src(None, None, None), "d"), "d");
    assert!(resolve_provider(src(Some("scnet"), None, None)) == OcrProvider::Scnet);
    assert!(resolve_provider(src(Some(""), Some("scnet"), None)) == OcrProvider::Paddleocr);
    assert!(resolve_provider(src(None, Some(""), Some("scnet"))) == OcrProvider::Scnet);
    let settings = OcrSettings::resolve(
        src(None, None, None),
        src(None, None, None),
        src(Some("tok"), None, None),
        src(None, None, Some("http://x")),
        src(None, None, None),
        src(None, None, None),
    );
    assert!(settings.provider == OcrProvider::Paddleocr);
    assert_eq!(settings.paddleocr_url, "https://paddleocr.aistudio-app.com/api/v2/ocr/jobs");
    assert_eq!(settings.scnet_url, "http://x");
    assert_eq!(settings.scnet_ocr_type, "GENERAL");
    assert!(settings.paddleocr_token_error().is_none());
    assert!(settings.scnet_token_error().unwrap().contains("SCNet"));
    assert_eq!(OcrProvider::Scnet.to_string(), "SCNet OCR");
    assert!(OcrProvider::default() == OcrProvider::Paddleocr);
}
