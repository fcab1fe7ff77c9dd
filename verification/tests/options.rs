//! Tests for option translation: margin parsing, paper-size lookup, and
//! the full translation into engine-native print parameters.

use html2pdf::options::{paper_size, parse_dimension, PdfOptions};

fn dim(s: &str) -> Option<u64> {
    parse_dimension(&Some(s.to_string()))
}

#[test]
fn margin_one_inch() {
    assert_eq!(dim("1in"), Some(1_000_000));
}

#[test]
fn margin_millimetres_exact() {
    assert_eq!(dim("25.4mm"), Some(1_000_000));
}

#[test]
fn margin_centimetres_exact() {
    assert_eq!(dim("2.54cm"), Some(1_000_000));
}

#[test]
fn margin_unitless_is_millimetres() {
    assert_eq!(dim("25.4"), Some(1_000_000));
}

#[test]
fn margin_fractional_inch() {
    assert_eq!(dim("0.5in"), Some(500_000));
    assert_eq!(dim(".5in"), Some(500_000));
}

#[test]
fn margin_trims_and_ignores_case() {
    assert_eq!(dim("  1IN  "), Some(1_000_000));
    assert_eq!(dim("\t25.4MM\n"), Some(1_000_000));
}

#[test]
fn margin_rounds_to_nearest_micro_inch() {
    // 1 mm = 1/25.4 in = 39370.07... micro-inches, rounded to 39370.
    assert_eq!(dim("1mm"), Some(39_370));
    // 2 mm = 78740.15... micro-inches.
    assert_eq!(dim("2"), Some(78_740));
}

#[test]
fn margin_rejects_malformed_values() {
    assert_eq!(dim(""), None);
    assert_eq!(dim("   "), None);
    assert_eq!(dim("abc"), None);
    assert_eq!(dim("1.2.3in"), None);
    assert_eq!(dim("1 in"), None);
    assert_eq!(dim("in"), None);
    assert_eq!(dim("."), None);
    assert_eq!(dim("-1in"), None);
    assert_eq!(dim("1e3"), None);
}

#[test]
fn margin_rejects_oversized_numerals() {
    assert_eq!(dim("12345678901234567890in"), None);
    assert_eq!(dim("1234567890123456"), None);
}

#[test]
fn margin_absent_is_none() {
    assert_eq!(parse_dimension(&None), None);
}

#[test]
fn paper_lookup_is_case_insensitive() {
    assert_eq!(paper_size(&Some("LeTtEr".to_string())), (8_500_000, 11_000_000));
    assert_eq!(paper_size(&Some("letter".to_string())), (8_500_000, 11_000_000));
    assert_eq!(paper_size(&Some("LEGAL".to_string())), (8_500_000, 14_000_000));
    assert_eq!(paper_size(&Some("Tabloid".to_string())), (11_000_000, 17_000_000));
    assert_eq!(paper_size(&Some("a3".to_string())), (11_700_000, 16_500_000));
    assert_eq!(paper_size(&Some("A5".to_string())), (5_800_000, 8_300_000));
}

#[test]
fn paper_lookup_defaults_to_a4() {
    assert_eq!(paper_size(&None), (8_270_000, 11_690_000));
    assert_eq!(paper_size(&Some("A4".to_string())), (8_270_000, 11_690_000));
    assert_eq!(paper_size(&Some("postcard".to_string())), (8_270_000, 11_690_000));
    assert_eq!(paper_size(&Some("".to_string())), (8_270_000, 11_690_000));
}

#[test]
fn default_options_enable_background() {
    let o = PdfOptions::new();
    assert!(o.print_background);
    assert!(o.page_size.is_none());
    assert!(o.page_orientation.is_none());
    assert!(o.margin_top.is_none());
    assert!(o.margin_right.is_none());
    assert!(o.margin_bottom.is_none());
    assert!(o.margin_left.is_none());
    assert!(o.header_html.is_none());
    assert!(o.footer_html.is_none());
    assert!(o.scale_milli.is_none());
    let d = PdfOptions::default();
    assert!(d.print_background);
}

#[test]
fn translation_fills_every_parameter() {
    let mut o = PdfOptions::new();
    o.page_size = Some("Letter".to_string());
    o.page_orientation = Some("LANDSCAPE".to_string());
    o.margin_top = Some("1in".to_string());
    o.margin_bottom = Some("25.4mm".to_string());
    o.margin_left = Some("2.54cm".to_string());
    o.margin_right = Some("junk".to_string());
    o.header_html = Some("<b>head</b>".to_string());
    o.scale_milli = Some(1_250);
    let p = o.to_chrome_options();
    assert!(p.landscape);
    assert!(p.display_header_footer);
    assert!(p.print_background);
    assert_eq!(p.scale_milli, Some(1_250));
    assert_eq!(p.paper_width_micro, 8_500_000);
    assert_eq!(p.paper_height_micro, 11_000_000);
    assert_eq!(p.margin_top_micro, Some(1_000_000));
    assert_eq!(p.margin_bottom_micro, Some(1_000_000));
    assert_eq!(p.margin_left_micro, Some(1_000_000));
    assert_eq!(p.margin_right_micro, None);
    assert_eq!(p.header_template.as_deref(), Some("<b>head</b>"));
    assert_eq!(p.footer_template, None);
}

#[test]
fn translation_defaults_to_portrait_a4() {
    let p = PdfOptions::new().to_chrome_options();
    assert!(!p.landscape);
    assert!(!p.display_header_footer);
    assert_eq!(p.paper_width_micro, 8_270_000);
    assert_eq!(p.paper_height_micro, 11_690_000);
    assert_eq!(p.margin_top_micro, None);
    assert_eq!(p.scale_milli, None);
}

#[test]
fn orientation_other_than_landscape_is_portrait() {
    let mut o = PdfOptions::new();
    o.page_orientation = Some("Portrait".to_string());
    assert!(!o.to_chrome_options().landscape);
    o.page_orientation = Some("sideways".to_string());
    assert!(!o.to_chrome_options().landscape);
    o.page_orientation = Some("Landscape".to_string());
    assert!(o.to_chrome_options().landscape);
}
