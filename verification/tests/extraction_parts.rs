use invoice_ocr_app::column_map::ColumnMap;
use invoice_ocr_app::details::{detail_is_new, is_total_label, merge_detail_text};
use invoice_ocr_app::entities::{decode_entity, unescape_html_entities};
use invoice_ocr_app::header::{header_mapping, row_field_text, HeaderAliases};
use invoice_ocr_app::html_table::{parse_structured_tables, Cell};
use invoice_ocr_app::metadata::{extract_metadata, extract_non_table_text, Block};
use invoice_ocr_app::normalize::{clean_number, normalize_label};
use invoice_ocr_app::parties::{extract_party_and_footer, is_party_label, party_from_cell, split_labeled_lines};
use invoice_ocr_app::totals::{extract_summary, extract_total};

fn cell(text: &str, col_start: usize, col_end: usize) -> Cell {
    Cell { text: text.to_string(), row: 0, col_start, col_end }
}

#[test]
fn entities_decode_named_and_numeric() {
    assert_eq!(decode_entity("amp"), Some("&".to_string()));
    assert_eq!(decode_entity("#165"), Some("¥".to_string()));
    assert_eq!(decode_entity("#x4e2d"), Some("中".to_string()));
    assert_eq!(decode_entity("#xD800"), None);
    assert_eq!(decode_entity("bogus"), None);
    assert_eq!(unescape_html_entities("a&amp;b &lt;c&gt; & d"), "a&b <c> & d");
    assert_eq!(unescape_html_entities("x&#12345678901234;y"), "x&#12345678901234;y");
}

#[test]
fn labels_are_normalized() {
    assert_eq!(normalize_label(" 地 址、电 话： "), "地址电话");
    assert_eq!(clean_number(" ¥1,234.50 "), "1234.50");
    assert!(is_total_label("价税合计（大写）"));
    assert!(!is_total_label("合计"));
    assert_eq!(is_party_label("购 买 方"), Some("purchaser"));
    assert_eq!(is_party_label("备注"), Some("remarks"));
    assert_eq!(is_party_label("其他"), None);
    assert!(HeaderAliases::matches("税率/征收率", "tax_rate"));
    assert!(!HeaderAliases::matches("税率", "tax"));
}

#[test]
fn header_needs_name_amount_and_tax() {
    let row = vec![cell("项目名称", 0, 1), cell("金额", 2, 2), cell("税额", 3, 3), cell("数量", 4, 4)];
    let m = header_mapping(&row).unwrap();
    assert_eq!(m.len(), 5);
    assert_eq!(m.get(1).unwrap(), "name");
    let partial = vec![cell("项目名称", 0, 0), cell("金额", 1, 1), cell("单位", 2, 2)];
    assert!(header_mapping(&partial).is_none());
}

#[test]
fn field_text_joins_spanned_cells() {
    let mut m = ColumnMap::new();
    m.insert(1, "name".to_string());
    m.insert(2, "name".to_string());
    let row = vec![cell("a", 0, 0), cell(" 甲 ", 1, 1), cell("乙", 2, 3)];
    let text = row_field_text(&row, &m, "name");
    assert_eq!(text, "甲 乙");
    let none = row_field_text(&row, &m, "tax");
    assert_eq!(none, "");
}

#[test]
fn labeled_lines_and_party_cells() {
    let f = split_labeled_lines("名 称：天津公司，\\n纳税人识别号：9112 0113\\n地址电话：天津\\n市区\\n开户行及账号：银行 123");
    assert_eq!(f.get("name").map(|s| s.as_str()), Some("天津公司，"));
    assert_eq!(f.get("address").map(|s| s.as_str()), Some("天津 市区"));
    let p = party_from_cell("名 称：天津公司，\\n纳税人识别号：9112 0113\\n开户行及账号：银行 123");
    assert_eq!(p.get("name").map(|s| s.as_str()), Some("天津公司"));
    assert_eq!(p.get("reg").map(|s| s.as_str()), Some("91120113"));
    assert_eq!(p.get("bank").map(|s| s.as_str()), Some("银行123"));
}

#[test]
fn party_and_footer_cells() {
    let rows = vec![
        vec![cell("购买方", 0, 0), cell("名称：甲公司\\n纳税人识别号：123", 1, 1)],
        vec![cell("销售方", 0, 0), cell("名称：乙公司", 1, 1), cell("备注", 2, 2), cell("保单号 9", 3, 3)],
        vec![cell("密码区", 0, 0)],
    ];
    let r = extract_party_and_footer(&rows);
    assert_eq!(r.get("PurchaserName").map(|s| s.as_str()), Some("甲公司"));
    assert_eq!(r.get("PurchaserRegisterNum").map(|s| s.as_str()), Some("123"));
    assert_eq!(r.get("SellerName").map(|s| s.as_str()), Some("乙公司"));
    assert_eq!(r.get("Remarks").map(|s| s.as_str()), Some("保单号 9"));
    assert!(!r.contains_key("Password"));
}

#[test]
fn wrapped_detail_rows() {
    assert_eq!(merge_detail_text("", "b"), "b");
    assert_eq!(merge_detail_text("a", ""), "a");
    assert_eq!(merge_detail_text("a\nb", "a b"), "a b");
    assert_eq!(merge_detail_text("机动车交通事故", "故强制险"), "机动车交通事故 故强制险");
    let html = "<table><tr><td>项目名称</td><td>数量</td><td>金额</td><td>税额</td></tr>\
<tr><td>*保险*甲</td><td></td><td></td><td></td></tr>\
<tr><td>乙</td><td>1</td><td>9.00</td><td>0.54</td></tr>\
<tr><td>丙</td><td></td><td></td><td></td></tr>\
<tr><td>*运输*丁</td><td>1</td><td>5.00</td><td>0.30</td></tr></table>";
    let (rows, h, m) = invoice_ocr_app::header::find_table_and_header(html).unwrap();
    let d = invoice_ocr_app::details::parse_details(&rows, h, &m, None);
    assert_eq!(d.len(), 2);
    assert_eq!(d[0].get("name").unwrap(), "*保险*甲 乙 丙");
    assert_eq!(d[0].get("quantity").unwrap(), "1");
    assert_eq!(d[0].get("amount").unwrap(), "9.00");
    assert_eq!(d[1].get("name").unwrap(), "*运输*丁");
    assert!(d[1].get("bogus").is_none());
    assert!(detail_is_new(&d[0], &None));
}

#[test]
fn subtotal_and_total_rows() {
    let mut m = ColumnMap::new();
    m.insert(1, "amount".to_string());
    m.insert(2, "tax".to_string());
    let rows = vec![
        vec![cell("合计", 0, 0), cell("¥1,000.00", 1, 1), cell("¥30.00", 2, 2)],
        vec![cell("价税合计（大写）", 0, 0), cell("⊗壹仟零叁拾圆整 （小写）¥1030.00", 1, 2)],
        vec![cell("合计", 0, 0), cell("100.00 3.00", 3, 3)],
    ];
    let s = extract_summary(&rows, &m, Some(0));
    assert_eq!(s.get("TotalAmount").map(|x| x.as_str()), Some("1000.00"));
    assert_eq!(s.get("TotalTax").map(|x| x.as_str()), Some("30.00"));
    let s2 = extract_summary(&rows, &m, Some(2));
    assert_eq!(s2.get("TotalAmount").map(|x| x.as_str()), Some("100.00"));
    assert_eq!(s2.get("TotalTax").map(|x| x.as_str()), Some("3.00"));
    assert_eq!(extract_summary(&rows, &m, None).len(), 0);
    let t = extract_total(&rows, Some(1));
    assert_eq!(t.get("AmountInWords").map(|x| x.as_str()), Some("壹仟零叁拾圆整"));
    assert_eq!(t.get("AmountInFigures").map(|x| x.as_str()), Some("1030.00"));
    assert_eq!(extract_total(&rows, None).len(), 0);
}

#[test]
fn metadata_from_blocks() {
    let blocks = vec![
        Block { block_label: "text".to_string(), block_content: "发票号码：12345678".to_string() },
        Block { block_label: "table".to_string(), block_content: "88888888".to_string() },
        Block {
            block_label: "text".to_string(),
            block_content: "天津增值税专用发票 开票日期：2022年1月5日 第一联 收款人：胡静".to_string(),
        },
    ];
    let text = extract_non_table_text("ignored", &blocks);
    assert!(!text.contains("88888888"));
    let m = extract_metadata("ignored", &blocks);
    assert_eq!(m.get("InvoiceNum").map(|x| x.as_str()), Some("12345678"));
    assert_eq!(m.get("InvoiceDate").map(|x| x.as_str()), Some("2022年01月05日"));
    assert_eq!(m.get("SheetNum").map(|x| x.as_str()), Some("第一联"));
    assert_eq!(m.get("Payee").map(|x| x.as_str()), Some("胡静"));
    assert_eq!(m.get("Province").map(|x| x.as_str()), Some("天津"));
    assert_eq!(m.get("InvoiceType").map(|x| x.as_str()), Some("专用发票"));
}

#[test]
fn combined_number_fills_num_and_code() {
    let r = invoice_ocr_app::metadata::extract_invoice_numbers("No: 123456789012345678");
    assert_eq!(r.get("InvoiceNum").map(|x| x.as_str()), Some("12345678"));
    assert_eq!(r.get("InvoiceCode").map(|x| x.as_str()), Some("9012345678"));
    let r2 = invoice_ocr_app::metadata::extract_invoice_numbers("数电发票号码：25122000000088522395");
    assert_eq!(r2.get("InvoiceNumDigit").map(|x| x.as_str()), Some("25122000000088522395"));
    assert_eq!(r2.get("InvoiceNum").map(|x| x.as_str()), Some("25122000000088522395"));
}

#[test]
fn structured_tables_of_whole_document() {
    let tables = parse_structured_tables("<table><tr><td>a</td></tr></table><table><tr><td>b</td></tr></table>");
    assert_eq!(tables.len(), 2);
    assert_eq!(tables[1][0][0].text, "b");
}
