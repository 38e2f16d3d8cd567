use invoice_ocr_app::details::{is_summary_label, parse_details};
use invoice_ocr_app::extractor::parse_invoice_from_markdown;
use invoice_ocr_app::field_map::FieldMap;
use invoice_ocr_app::header::find_table_and_header;
use invoice_ocr_app::html_table::parse_structured_tables;
use invoice_ocr_app::metadata::extract_invoice_numbers;
use invoice_ocr_app::normalize::normalize_text;
use invoice_ocr_app::row_list::RowItem;
use invoice_ocr_app::standard::{make_standard_result, StandardResult};

fn scalar(result: &StandardResult, key: &str) -> String {
    match result.get(key) {
        Some(v) => match v.as_text() {
            Some(s) => s.clone(),
            None => String::new(),
        },
        None => String::new(),
    }
}

fn row_list(result: &StandardResult, key: &str) -> Vec<RowItem> {
    match result.get(key) {
        Some(v) => match v.as_rows() {
            Some(items) => items.clone(),
            None => Vec::new(),
        },
        None => Vec::new(),
    }
}

fn row_words(result: &StandardResult, key: &str) -> Vec<String> {
    row_list(result, key).into_iter().map(|item| item.word).collect()
}

fn sparse_get<'a>(sparse: &'a FieldMap, key: &str) -> Option<&'a str> {
    sparse.get(key).map(|s| s.as_str())
}

#[test]
fn test_normalize_text_cleans_ocr_formula_artifacts() {
    assert_eq!(normalize_text("$ ^{{*}} $金融服务 $ ^{{*}} $企业贷款"), "*金融服务 *企业贷款");
    assert_eq!(normalize_text("$^{*}$建筑服务$^{*}$工程款"), "*建筑服务*工程款");
    assert_eq!(normalize_text("$*$货物$*$劳务"), "*货物*劳务");
    assert_eq!(normalize_text("普通文本"), "普通文本");
    assert_eq!(normalize_text("*建筑服务*工程款"), "*建筑服务*工程款");
    assert_eq!(normalize_text("ⓧ 壹仟肆佰玖拾柒圆贰角伍分"), "壹仟肆佰玖拾柒圆贰角伍分");
    assert_eq!(normalize_text("✖ 壹佰元整"), "壹佰元整");
}

#[test]
fn test_summary_label_accepts_xiaoji() {
    assert!(is_summary_label("小计"));
    assert!(is_summary_label("小 计"));
    assert!(is_summary_label("合 计"));
    assert!(!is_summary_label("价税合计（大写）"));
}

#[test]
fn test_details_stop_at_xiaoji() {
    let html = r#"<table>
<tr><td>项目名称</td><td>规格型号</td><td>单位</td><td>数量</td><td>单价</td><td>金额</td><td>税率</td><td>税额</td></tr>
<tr><td>*建筑服务*工程款</td><td></td><td></td><td></td><td></td><td>100.00</td><td>3%</td><td>3.00</td></tr>
<tr><td>小计</td><td></td><td></td><td></td><td></td><td>100.00</td><td></td><td>3.00</td></tr>
<tr><td>*运输服务*运费</td><td></td><td></td><td></td><td></td><td>50.00</td><td>9%</td><td>4.50</td></tr>
</table>"#;
    let sparse = parse_invoice_from_markdown(html, &[]);
    let standard = make_standard_result(&sparse);
    assert_eq!(row_words(&standard, "CommodityName"), vec!["*建筑服务*工程款"]);
    assert_eq!(scalar(&standard, "TotalAmount"), "100.00");
    assert_eq!(scalar(&standard, "TotalTax"), "3.00");
}

#[test]
fn test_metadata_not_polluted_by_table_content_without_blocks() {
    let md = "<table><tr><td>项目名称</td><td>规格型号</td><td>单位</td><td>数量</td><td>单价</td><td>金额</td><td>税率</td><td>税额</td></tr>\
<tr><td>复核：表内文字</td><td></td><td></td><td></td><td></td><td>88888888</td><td>3%</td><td>1.00</td></tr></table>\n\n\
开票日期：2025年03月05日\n\n复核：外部复核人";
    let sparse = parse_invoice_from_markdown(md, &[]);
    assert_eq!(sparse_get(&sparse, "Checker"), Some("外部复核人"));
    assert!(!sparse.contains_key("InvoiceNum"));
    assert_eq!(sparse_get(&sparse, "InvoiceDate"), Some("2025年03月05日"));
}

#[test]
fn test_digit_run_fallbacks_match_python_lookarounds() {
    let result = extract_invoice_numbers("编号A12345678B");
    assert_eq!(sparse_get(&result, "InvoiceNum"), Some("12345678"));
    let result = extract_invoice_numbers("x1234567890123y");
    assert!(!result.contains_key("InvoiceCode"));
    let result = extract_invoice_numbers("1200213130 和 499952471171");
    assert_eq!(sparse_get(&result, "InvoiceCode"), Some("1200213130"));
}

#[test]
fn test_parse_commodity_details_from_real_ocr() {
    let html = r#"<table border=1 style='margin: auto; word-wrap: break-word;'>
<tr><td>购买方</td><td colspan="3">名称：测试公司\n纳税人识别号：123456</td><td>密码区</td><td colspan="3">密码内容</td></tr>
<tr><td>货物或应税劳务、服务名称</td><td>规格型号</td><td>单位</td><td>数量</td><td>单价</td><td>金额</td><td>税率</td><td>税额</td></tr>
<tr><td>*建筑服务*工程款</td><td></td><td></td><td></td><td></td><td>97087.38</td><td>3%</td><td>2912.62</td></tr>
<tr><td>合 计</td><td></td><td></td><td></td><td></td><td>97087.38</td><td></td><td>2912.62</td></tr>
<tr><td>价税合计（大写）</td><td colspan="7">壹拾万圆整 (小写) ¥100000.00</td></tr>
</table>"#;

    let tables = parse_structured_tables(html);
    assert!(!tables.is_empty(), "Should find at least one table");
    assert_eq!(tables[0].len(), 5, "Should have 5 rows");

    let table_info = find_table_and_header(html);
    assert!(table_info.is_some(), "Should find table and header");
    let (rows, header_index, mapping) = table_info.as_ref().unwrap();
    assert_eq!(*header_index, 1, "Header should be row 1");
    assert!(mapping.contains_key(&0), "Mapping should have col 0 (name)");
    assert!(mapping.contains_key(&5), "Mapping should have col 5 (amount)");
    assert!(mapping.contains_key(&7), "Mapping should have col 7 (tax)");

    let mut summary_index = None;
    for idx in (*header_index + 1)..rows.len() {
        let first = rows[idx].first().map(|c| c.text.as_str()).unwrap_or("");
        if is_summary_label(first) {
            summary_index = Some(idx);
            break;
        }
    }

    let details = parse_details(rows, *header_index, mapping, summary_index);
    assert_eq!(details.len(), 1, "Should have exactly 1 commodity detail");
    assert_eq!(details[0].get("name").unwrap(), "*建筑服务*工程款");
    assert_eq!(details[0].get("amount").unwrap(), "97087.38");
    assert_eq!(details[0].get("tax").unwrap(), "2912.62");
    assert_eq!(details[0].get("tax_rate").unwrap(), "3%");
    assert_eq!(details[0].get("quantity").unwrap(), "");
    assert_eq!(details[0].get("price").unwrap(), "");
    assert_eq!(details[0].get("unit").unwrap(), "");

    let sparse = parse_invoice_from_markdown(html, &[]);
    let wr = make_standard_result(&sparse);

    let name_list = row_list(&wr, "CommodityName");
    assert_eq!(name_list.len(), 1, "Should have 1 commodity name");
    assert!(name_list[0].word.contains("建筑服务"), "Name: {}", name_list[0].word);

    let amount_list = row_list(&wr, "CommodityAmount");
    assert_eq!(amount_list.len(), 1);
    assert!(amount_list[0].word.contains("97087.38"), "Amount: {}", amount_list[0].word);

    let tax_list = row_list(&wr, "CommodityTax");
    assert_eq!(tax_list.len(), 1);
    assert!(tax_list[0].word.contains("2912.62"), "Tax: {}", tax_list[0].word);

    let rate_list = row_list(&wr, "CommodityTaxRate");
    assert_eq!(rate_list.len(), 1);
    assert!(rate_list[0].word.contains("3%"), "Rate: {}", rate_list[0].word);

    let total_amount = scalar(&wr, "TotalAmount");
    assert!(total_amount.contains("97087.38"), "TotalAmount: {}", total_amount);
    let total_tax = scalar(&wr, "TotalTax");
    assert!(total_tax.contains("2912.62"), "TotalTax: {}", total_tax);
}
