//! Whole-document round trips through the real byte-level XML layer.

use spreadsheet_ods::book::SCell;
use spreadsheet_ods::book::Sheet;
use spreadsheet_ods::book::WorkBook;
use spreadsheet_ods::datetime::DateTime;
use spreadsheet_ods::decimal::Decimal;
use spreadsheet_ods::duration::Duration;
use spreadsheet_ods::qxml::read_content_bytes;
use spreadsheet_ods::qxml::write_content_bytes;
use spreadsheet_ods::value::Value;

fn cell_of(value: Value) -> SCell {
    SCell { value: Some(value), style: None, formula: None }
}

fn find<'a>(book: &'a WorkBook, row: u32, col: u32) -> &'a SCell {
    book.sheets[0].cell(row, col).expect("cell is occupied")
}

#[test]
fn sparse_grid_round_trips_positions_and_values() {
    let mut book = WorkBook::new();
    let mut sheet = Sheet::new();
    sheet.set_name("grid".to_string());
    sheet.add_cell(0, 0, cell_of(Value::Number(Decimal::parse("42.5").unwrap())));
    sheet.add_cell(0, 7, cell_of(Value::Text("edge".to_string())));
    sheet.add_cell(3, 2, cell_of(Value::Boolean(true)));
    sheet.add_cell(900, 900, cell_of(Value::Number(Decimal::parse("-1").unwrap())));
    book.push_sheet(sheet);

    let bytes = write_content_bytes(&book).unwrap();
    let again = read_content_bytes(bytes).unwrap();

    assert_eq!(again.sheets.len(), 1);
    assert_eq!(again.sheets[0].name, "grid");
    assert_eq!(again.sheets[0].data.len(), 4);
    assert!(matches!(&find(&again, 0, 0).value, Some(Value::Number(d)) if d.to_text() == "42.5"));
    assert!(matches!(&find(&again, 0, 7).value, Some(Value::Text(t)) if t == "edge"));
    assert!(matches!(&find(&again, 3, 2).value, Some(Value::Boolean(true))));
    assert!(
        matches!(&find(&again, 900, 900).value, Some(Value::Number(d)) if d.to_text() == "-1")
    );
    assert!(again.sheets[0].cell(1, 1).is_none());
    assert!(again.sheets[0].cell(0, 3).is_none());
}

#[test]
fn every_value_kind_round_trips() {
    let mut book = WorkBook::new();
    let mut sheet = Sheet::new();
    sheet.set_name("kinds".to_string());
    sheet.add_cell(0, 0, cell_of(Value::Text("plain words".to_string())));
    sheet.add_cell(0, 1, cell_of(Value::Number(Decimal::parse("1234.50").unwrap())));
    sheet.add_cell(0, 2, cell_of(Value::Percentage(Decimal::parse("0.25").unwrap())));
    sheet.add_cell(
        0,
        3,
        cell_of(Value::Currency("EUR".to_string(), Decimal::parse("19.99").unwrap())),
    );
    sheet.add_cell(0, 4, cell_of(Value::Boolean(false)));
    sheet.add_cell(
        0,
        5,
        cell_of(Value::DateTime(DateTime::new(2023, 5, 1, 13, 45, 0, 500_000_000).unwrap())),
    );
    sheet.add_cell(
        0,
        6,
        cell_of(Value::TimeDuration(Duration { secs: 2 * 3600 + 15 * 60 + 30, nanos: 500_000_000 })),
    );
    book.push_sheet(sheet);

    let bytes = write_content_bytes(&book).unwrap();
    let again = read_content_bytes(bytes).unwrap();
    let s = &again.sheets[0];
    assert_eq!(s.data.len(), 7);
    assert!(matches!(&find(&again, 0, 0).value, Some(Value::Text(t)) if t == "plain words"));
    assert!(
        matches!(&find(&again, 0, 1).value, Some(Value::Number(d)) if d.to_text() == "1234.50")
    );
    assert!(
        matches!(&find(&again, 0, 2).value, Some(Value::Percentage(d)) if d.to_text() == "0.25")
    );
    match &find(&again, 0, 3).value {
        Some(Value::Currency(code, d)) => {
            assert_eq!(code, "EUR");
            assert_eq!(d.to_text(), "19.99");
        },
        other => panic!("expected a currency value, got {:?}", other),
    }
    assert!(matches!(&find(&again, 0, 4).value, Some(Value::Boolean(false))));
    match &find(&again, 0, 5).value {
        Some(Value::DateTime(dt)) => {
            assert_eq!(
                (dt.year, dt.month, dt.day, dt.hour, dt.minute, dt.second, dt.nanos),
                (2023, 5, 1, 13, 45, 0, 500_000_000)
            );
        },
        other => panic!("expected a timestamp, got {:?}", other),
    }
    match &find(&again, 0, 6).value {
        Some(Value::TimeDuration(du)) => {
            assert_eq!((du.secs, du.nanos), (2 * 3600 + 15 * 60 + 30, 500_000_000));
        },
        other => panic!("expected a duration, got {:?}", other),
    }
}

#[test]
fn text_with_markup_characters_survives_the_byte_layer() {
    let mut book = WorkBook::new();
    let mut sheet = Sheet::new();
    sheet.set_name("esc".to_string());
    sheet.add_cell(0, 0, cell_of(Value::Text("a < b & \"c\" > d".to_string())));
    book.push_sheet(sheet);
    let bytes = write_content_bytes(&book).unwrap();
    let again = read_content_bytes(bytes).unwrap();
    assert!(
        matches!(&find(&again, 0, 0).value, Some(Value::Text(t)) if t == "a < b & \"c\" > d")
    );
}

#[test]
fn blank_repeated_cells_are_never_materialized() {
    let xml = "<?xml version=\"1.0\" encoding=\"UTF-8\"?><office:document-content><office:body><office:spreadsheet><table:table table:name=\"empty\"><table:table-row><table:table-cell table:number-columns-repeated=\"5\"/></table:table-row></table:table></office:spreadsheet></office:body></office:document-content>";
    let book = read_content_bytes(xml.as_bytes().to_vec()).unwrap();
    assert_eq!(book.sheets.len(), 1);
    assert_eq!(book.sheets[0].data.len(), 0);
}

#[test]
fn repeated_valued_cells_expand_to_every_position() {
    let xml = "<?xml version=\"1.0\" encoding=\"UTF-8\"?><office:document-content><office:body><office:spreadsheet><table:table table:name=\"rep\"><table:table-row table:number-rows-repeated=\"2\"><table:table-cell office:value-type=\"float\" office:value=\"7\"><text:p>7</text:p></table:table-cell></table:table-row><table:table-row><table:table-cell table:number-columns-repeated=\"3\" office:value-type=\"string\"><text:p>x</text:p></table:table-cell></table:table-row></table:table></office:spreadsheet></office:body></office:document-content>";
    let book = read_content_bytes(xml.as_bytes().to_vec()).unwrap();
    let s = &book.sheets[0];
    // The valued cell of the doubly repeated row lands in its first row;
    // the cursor then skips the repeat.  The repeated cell expands in place.
    assert!(s.cell(0, 0).is_some());
    assert!(matches!(&s.cell(2, 0).unwrap().value, Some(Value::Text(t)) if t == "x"));
    assert!(matches!(&s.cell(2, 1).unwrap().value, Some(Value::Text(t)) if t == "x"));
    assert!(matches!(&s.cell(2, 2).unwrap().value, Some(Value::Text(t)) if t == "x"));
}

#[test]
fn escaped_attribute_and_text_content_unescape_on_read() {
    let xml = "<?xml version=\"1.0\" encoding=\"UTF-8\"?><office:document-content><office:body><office:spreadsheet><table:table table:name=\"a&amp;b\"><table:table-row><table:table-cell office:value-type=\"string\"><text:p>x &lt; y</text:p></table:table-cell></table:table-row></table:table></office:spreadsheet></office:body></office:document-content>";
    let book = read_content_bytes(xml.as_bytes().to_vec()).unwrap();
    assert_eq!(book.sheets[0].name, "a&b");
    assert!(
        matches!(&book.sheets[0].cell(0, 0).unwrap().value, Some(Value::Text(t)) if t == "x < y")
    );
}

#[test]
fn row_styles_cover_every_repeated_row() {
    let xml = "<?xml version=\"1.0\" encoding=\"UTF-8\"?><office:document-content><office:body><office:spreadsheet><table:table table:name=\"rows\"><table:table-row table:number-rows-repeated=\"3\" table:style-name=\"ro1\"><table:table-cell table:number-columns-repeated=\"4\"/></table:table-row></table:table></office:spreadsheet></office:body></office:document-content>";
    let book = read_content_bytes(xml.as_bytes().to_vec()).unwrap();
    let s = &book.sheets[0];
    assert_eq!(s.rows.len(), 3);
    assert_eq!(s.data.len(), 0);
}

#[test]
fn styles_and_formats_round_trip_by_name() {
    let xml = "<?xml version=\"1.0\" encoding=\"UTF-8\"?><office:document-content><office:automatic-styles><number:number-style style:name=\"N2\"><number:number number:decimal-places=\"2\" number:min-decimal-places=\"2\"/></number:number-style><style:style style:name=\"ce1\" style:family=\"table-cell\" style:data-style-name=\"N2\"/></office:automatic-styles><office:body><office:spreadsheet><table:table table:name=\"st\"><table:table-row><table:table-cell table:style-name=\"ce1\" office:value-type=\"float\" office:value=\"1.005\"><text:p>1.01</text:p></table:table-cell></table:table-row></table:table></office:spreadsheet></office:body></office:document-content>";
    let book = read_content_bytes(xml.as_bytes().to_vec()).unwrap();
    assert!(book.find_style("ce1").is_some());
    assert!(book.find_format("N2").is_some());
    let f = book.find_value_style("ce1").expect("style resolves to its format");
    assert_eq!(f.format_float(&Decimal::parse("1.005").unwrap()), "1.01");

    // Writing the same book again keeps the names resolvable.
    let bytes = write_content_bytes(&book).unwrap();
    let again = read_content_bytes(bytes).unwrap();
    assert!(again.find_value_style("ce1").is_some());
}

#[test]
fn serializer_output_grows_with_cells_not_gaps() {
    // Two grids with the same shape; one's gaps are vastly larger.  The
    // output may only differ by the width of the repeat counters.
    let mut small_gap = WorkBook::new();
    let mut s1 = Sheet::new();
    s1.set_name("gaps".to_string());
    s1.add_cell(0, 0, cell_of(Value::Boolean(true)));
    s1.add_cell(1_000, 1_000, cell_of(Value::Boolean(true)));
    small_gap.push_sheet(s1);

    let mut huge_gap = WorkBook::new();
    let mut s2 = Sheet::new();
    s2.set_name("gaps".to_string());
    s2.add_cell(0, 0, cell_of(Value::Boolean(true)));
    s2.add_cell(90_000_000, 90_000_000, cell_of(Value::Boolean(true)));
    huge_gap.push_sheet(s2);

    let small_bytes = write_content_bytes(&small_gap).unwrap();
    let huge_bytes = write_content_bytes(&huge_gap).unwrap();
    assert!(huge_bytes.len() <= small_bytes.len() + 40);

    let again = read_content_bytes(huge_bytes).unwrap();
    assert_eq!(again.sheets[0].data.len(), 2);
    assert!(again.sheets[0].cell(90_000_000, 90_000_000).is_some());
    assert!(again.sheets[0].cell(0, 0).is_some());
}
