use invoice_ocr_app::html_table::{parse_html_table, parse_structured_tables};

#[test]
fn test_simple_table() {
    let html = r#"
        <table>
            <tr><td>A</td><td>B</td></tr>
            <tr><td>C</td><td>D</td></tr>
        </table>
        "#;
    let tables = parse_structured_tables(html);
    assert_eq!(tables.len(), 1);
    assert_eq!(tables[0].len(), 2);
    assert_eq!(tables[0][0][0].text, "A");
    assert_eq!(tables[0][0][1].text, "B");
    assert_eq!(tables[0][1][0].text, "C");
    assert_eq!(tables[0][1][1].text, "D");
}

#[test]
fn test_colspan() {
    let html = r#"
        <table>
            <tr><td>A</td><td colspan="2">B</td></tr>
            <tr><td>C</td><td>D</td><td>E</td></tr>
        </table>
        "#;
    let tables = parse_structured_tables(html);
    assert_eq!(tables[0][0][1].col_start, 1);
    assert_eq!(tables[0][0][1].col_end, 2);
}

#[test]
fn test_rowspan() {
    let html = r#"
        <table>
            <tr><td rowspan="2">A</td><td>B</td></tr>
            <tr><td>C</td></tr>
        </table>
        "#;
    let tables = parse_structured_tables(html);
    assert_eq!(tables[0][0][0].text, "A");
    assert_eq!(tables[0][1][0].text, "C");
}

#[test]
fn test_empty_table() {
    let html = "<p>No table here</p>";
    let tables = parse_structured_tables(html);
    assert!(tables.is_empty());
}

#[test]
fn rowspan_pushes_later_cells_right() {
    let html = r#"<table><tr><td rowspan="2">A</td><td>B</td></tr><tr><td>C</td></tr></table>"#;
    let tables = parse_structured_tables(html);
    assert_eq!(tables[0][1][0].col_start, 1);
    assert_eq!(tables[0][1][0].row, 1);
}

#[test]
fn text_fragments_are_trimmed_and_joined() {
    let html = "<TABLE><tr><td>  a <b> b </b>  </td><th colspan=\"x\">c</th></tr></TABLE>";
    let rows = parse_html_table(html);
    assert_eq!(rows, vec![vec!["a b".to_string(), "c".to_string()]]);
    let tables = parse_structured_tables(html);
    assert_eq!(tables[0][0][1].col_start, 1);
    assert_eq!(tables[0][0][1].col_end, 1);
}
