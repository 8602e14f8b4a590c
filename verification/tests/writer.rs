//! The plain-text XML writer and the style surface.

use spreadsheet_ods::attrmap::AttrMap2;
use spreadsheet_ods::pagestyle::PageStyle;
use spreadsheet_ods::textstyle::TextStyle;
use spreadsheet_ods::units::Border;
use spreadsheet_ods::units::LineStyle;
use spreadsheet_ods::units::MasterPageUsage;
use spreadsheet_ods::units::TextAlign;
use spreadsheet_ods::units::WritingMode;
use spreadsheet_ods::xml::XmlWriter;

#[test]
fn writer_builds_nested_elements() {
    let mut w = XmlWriter::new();
    w.dtd("UTF-8");
    w.elem("a:root".to_string());
    w.attr("a:k", "v");
    w.elem("a:child".to_string());
    w.text("body");
    assert!(w.end_elem("a:child"));
    assert!(w.end_elem("a:root"));
    assert!(w.close());
    assert_eq!(
        w.take(),
        "<?xml version=\"1.0\" encoding=\"UTF-8\" ?>\n<a:root a:k=\"v\"><a:child>body</a:child></a:root>"
    );
}

#[test]
fn writer_escapes_text_and_attributes() {
    let mut w = XmlWriter::new();
    w.elem("t".to_string());
    w.attr_esc("k", "a\"b<c>");
    w.text_esc("x & y < z");
    assert!(w.end_elem("t"));
    assert_eq!(w.take(), "<t k=\"a&quot;b&lt;c&gt;\">x &amp; y &lt; z</t>");
}

#[test]
fn writer_elem_text_variants() {
    let mut w = XmlWriter::new();
    w.elem_text("m:a", "one");
    w.elem_text_esc("m:b", "two & three");
    w.empty("m:c");
    assert!(w.close());
    assert_eq!(w.take(), "<m:a>one</m:a><m:b>two &amp; three</m:b><m:c");
}

#[test]
fn writer_flags_mismatched_ends() {
    let mut w = XmlWriter::new();
    w.elem("outer".to_string());
    assert!(!w.end_elem("inner"));
}

#[test]
fn attr_map_replaces_and_keeps_order() {
    let mut m = AttrMap2::new();
    m.set("one".to_string(), "1".to_string());
    m.set("two".to_string(), "2".to_string());
    m.set("one".to_string(), "x".to_string());
    assert_eq!(m.len(), 2);
    assert_eq!(m.get("one").unwrap(), "x");
    assert_eq!(m.get("two").unwrap(), "2");
    assert!(m.get("three").is_none());
    let copy = m.duplicate();
    assert_eq!(copy.get("one").unwrap(), "x");
}

#[test]
fn unit_keywords_render() {
    assert_eq!(Border::Dashed.as_str(), "dashed");
    assert_eq!(Border::NoBorder.as_str(), "none");
    assert_eq!(WritingMode::LrTb.as_str(), "lr-tb");
    assert_eq!(TextAlign::Justify.as_str(), "justify");
    assert_eq!(LineStyle::DotDotDash.as_str(), "dot-dot-dash");
}

#[test]
fn page_style_round_trips_its_usage() {
    let mut p = PageStyle::new("pm1".to_string());
    assert_eq!(p.name(), "pm1");
    p.set_page_usage(Some(MasterPageUsage::Mirrored));
    assert_eq!(p.page_usage().unwrap(), Some(MasterPageUsage::Mirrored));
    p.set_page_usage(None);
    assert_eq!(p.page_usage().unwrap(), None);
    p.set_name("pm2".to_string());
    assert_eq!(p.style_ref().name, "pm2");
    p.headerstyle_mut().style_mut().set("fo:min-height".to_string(), "10mm".to_string());
    assert_eq!(p.headerstyle().style().get("fo:min-height").unwrap(), "10mm");
}

#[test]
fn text_style_holds_its_attribute_bags() {
    let mut t = TextStyle::new("bold".to_string());
    t.textstyle_mut().set("fo:font-weight".to_string(), "bold".to_string());
    t.attrmap_mut().set("style:parent-style-name".to_string(), "base".to_string());
    assert_eq!(t.textstyle().get("fo:font-weight").unwrap(), "bold");
    assert_eq!(t.attrmap().get("style:parent-style-name").unwrap(), "base");
    assert_eq!(t.name(), "bold");
    assert_eq!(t.style_ref().name, "bold");
}
