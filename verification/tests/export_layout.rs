use invoice_ocr_app::export_plan::{
    active_list_fields, clean_scalar, invoice_block_plan, list_cell, max_detail_rows, scalar, sheet_names,
    single_sheet_title, CellStyle, SheetWrite,
};
use invoice_ocr_app::field_map::FieldMap;
use invoice_ocr_app::records::InvoiceRecord;
use invoice_ocr_app::row_list::{make_row_list, row_list_json};
use invoice_ocr_app::standard::make_standard_result_at;

fn record(num: &str, file_name: &str) -> InvoiceRecord {
    InvoiceRecord {
        id: 1,
        invoice_code: "c".to_string(),
        invoice_num: num.to_string(),
        file_name: file_name.to_string(),
        status: "success".to_string(),
        retry_count: 0,
        ocr_count: 1,
        parsed_result: String::new(),
        created_at: "2025-01-01 10:00:00".to_string(),
        updated_at: String::new(),
        attachment_count: 1,
    }
}

fn list(values: &[&str]) -> String {
    let v: Vec<String> = values.iter().map(|s| s.to_string()).collect();
    row_list_json(&make_row_list(&v))
}

fn at<'a>(plan: &'a [SheetWrite], row: u128, col: u16) -> Option<&'a SheetWrite> {
    plan.iter().find(|w| w.row == row && w.first_col == col)
}

#[test]
fn scalars_drop_watermarks() {
    assert_eq!(clean_scalar("ⓧ✖ 壹佰元整 "), "壹佰元整");
    assert_eq!(clean_scalar(" a ⓧ"), "a ⓧ");
}

#[test]
fn block_layout() {
    let mut sparse = FieldMap::new();
    sparse.insert("PurchaserName".to_string(), "ⓧ 甲".to_string());
    sparse.insert("TotalAmount".to_string(), "100".to_string());
    sparse.insert("CommodityName".to_string(), list(&["x", "y"]));
    sparse.insert("CommodityTax".to_string(), list(&["1"]));
    let words = make_standard_result_at(&sparse, None).words_result;
    assert_eq!(scalar(&words, "PurchaserName"), "甲");
    assert_eq!(list_cell(&words, "CommodityName", 2), "y");
    assert_eq!(list_cell(&words, "CommodityTax", 2), "");
    assert_eq!(list_cell(&words, "CommodityName", 0), "");
    let active = active_list_fields(&words);
    assert_eq!(active, vec![("CommodityName", "商品名称"), ("CommodityTax", "税额")]);
    assert_eq!(max_detail_rows(&words), 2);

    let files = vec!["/a.jpg".to_string(), "/b.jpg".to_string()];
    let (plan, next) = invoice_block_plan(5, &record("9", "a.jpg"), &files, &words, Some("发票 1 - a.jpg".to_string()));
    let title = at(&plan, 5, 0).unwrap();
    assert_eq!((title.last_col, title.style), (1, CellStyle::Title));
    assert_eq!(at(&plan, 6, 1).unwrap().text, "c");
    assert_eq!(at(&plan, 9, 0).unwrap().text, "附件 (2)");
    assert_eq!(at(&plan, 9, 1).unwrap().text, "1. /a.jpg\n2. /b.jpg");
    assert_eq!(at(&plan, 10, 2).unwrap().text, "销售方");
    assert_eq!(at(&plan, 11, 1).unwrap().text, "甲");
    assert_eq!(at(&plan, 11, 3).unwrap().text, "");
    // basic group title at row 15; ServiceType and Agent are its only values.
    assert_eq!(at(&plan, 15, 0).unwrap().text, "基础信息");
    assert_eq!(at(&plan, 16, 1).unwrap().text, "其他");
    assert_eq!(at(&plan, 17, 1).unwrap().text, "否");
    assert_eq!(at(&plan, 18, 0).unwrap().text, "开票信息");
    assert_eq!(at(&plan, 19, 0).unwrap().text, "合计");
    assert_eq!(at(&plan, 20, 1).unwrap().text, "100");
    assert_eq!(at(&plan, 21, 0).unwrap().text, "其他信息");
    assert_eq!(at(&plan, 22, 0).unwrap().text, "商品明细");
    assert_eq!(at(&plan, 23, 1).unwrap().text, "税额");
    assert_eq!(at(&plan, 25, 0).unwrap().text, "y");
    assert_eq!(at(&plan, 25, 1).unwrap().text, "");
    assert_eq!(next, 26);
}

#[test]
fn block_without_details() {
    let words = make_standard_result_at(&FieldMap::new(), None).words_result;
    let (plan, next) = invoice_block_plan(0, &record("", "f.png"), &Vec::new(), &words, None);
    assert_eq!(at(&plan, 0, 0).unwrap().text, "发票代码");
    assert_eq!(at(&plan, 3, 1).unwrap().text, "");
    assert_eq!(at(&plan, 15, 0).unwrap().text, "商品明细");
    assert_eq!(at(&plan, 16, 0).unwrap().text, "（无商品明细）");
    assert_eq!(next, 17);
}

#[test]
fn sheet_naming() {
    let records = vec![
        record("111", "a.jpg"),
        record("", "b.jpg"),
        record("111", "c.jpg"),
        record("", "一二三四五六七八九十一二三四五六七八九十一二三四五六七八九十.jpg"),
        record("111", "d.jpg"),
    ];
    let names = sheet_names(&records);
    assert_eq!(names[0], "111");
    assert_eq!(names[1], "b.jpg");
    assert_eq!(names[2], "111-2");
    assert_eq!(names[3].chars().count(), 28);
    assert_eq!(names[4], "111-3");
    assert_eq!(single_sheet_title(0, "a.jpg"), "发票 1 - a.jpg");
}
