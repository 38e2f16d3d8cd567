//! Invoice recognition: the fields of Chinese VAT invoices read from the
//! markdown and layout blocks that an OCR service returns, merged over the
//! pages and files of one invoice, and laid out for export.

pub mod text;
pub mod regex_ops;
pub mod entities;
pub mod normalize;
pub mod html_table;
pub mod field_map;
pub mod column_map;
pub mod row_list;
pub mod json;
pub mod stored;
pub mod header;
pub mod details;
pub mod parties;
pub mod totals;
pub mod metadata;
pub mod extractor;
pub mod standard;
pub mod records;
pub mod ocr;
pub mod files;
pub mod export_plan;
pub mod recognition;
pub mod laws;
