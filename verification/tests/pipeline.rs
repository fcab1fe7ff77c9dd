//! Tests for the conversion pipeline: input validation, the data-URL
//! document reference, stage-failure errors, and the reuse policy at the
//! end of a conversion.

use html2pdf::convert::{
    encode_data_url, finish_conversion, navigation_error, prepare_conversion, tab_retry_error,
    wait_error, HtmlToPdfConverter,
};
use html2pdf::engine::{AcquireStep, Engine};
use html2pdf::error::{PdfError, PdfGeneratorError};
use html2pdf::options::PdfOptions;

#[test]
fn empty_html_is_rejected() {
    let opts = PdfOptions::new();
    assert!(matches!(prepare_conversion("", &opts), Err(PdfError::EmptyHtml)));
    assert!(matches!(prepare_conversion("   ", &opts), Err(PdfError::EmptyHtml)));
    assert!(matches!(prepare_conversion("\t\r\n \u{a0}", &opts), Err(PdfError::EmptyHtml)));
}

#[test]
fn empty_html_is_rejected_for_any_options() {
    let mut opts = PdfOptions::new();
    opts.page_size = Some("Legal".to_string());
    opts.page_orientation = Some("Landscape".to_string());
    opts.margin_top = Some("3in".to_string());
    opts.scale_milli = Some(800);
    assert!(matches!(prepare_conversion("", &opts), Err(PdfError::EmptyHtml)));
    assert!(matches!(prepare_conversion("   ", &opts), Err(PdfError::EmptyHtml)));
}

#[test]
fn nonblank_html_is_accepted() {
    let opts = PdfOptions::new();
    assert!(prepare_conversion("<p>hi</p>", &opts).is_ok());
    assert!(prepare_conversion("x", &opts).is_ok());
}

#[test]
fn data_url_is_base64_of_the_document() {
    assert_eq!(encode_data_url("<html></html>"), "data:text/html;base64,PGh0bWw+PC9odG1sPg==");
    assert_eq!(encode_data_url("abc"), "data:text/html;base64,YWJj");
    assert_eq!(encode_data_url("ab"), "data:text/html;base64,YWI=");
    assert_eq!(encode_data_url("a"), "data:text/html;base64,YQ==");
}

#[test]
fn prepared_request_carries_url_and_params() {
    let mut opts = PdfOptions::new();
    opts.page_size = Some("Letter".to_string());
    let p = prepare_conversion("<p>hi</p>", &opts).unwrap();
    assert_eq!(p.url, "data:text/html;base64,PHA+aGk8L3A+");
    assert_eq!(p.params.paper_width_micro, 8_500_000);
    assert_eq!(p.params.paper_height_micro, 11_000_000);
}

#[test]
fn stage_errors_carry_their_prefix() {
    match navigation_error("timeout") {
        PdfError::BrowserError(m) => assert_eq!(m, "Navigation failed: timeout"),
        e => panic!("wrong error kind: {:?}", e),
    }
    match wait_error("no body") {
        PdfError::BrowserError(m) => assert_eq!(m, "Wait for body failed: no body"),
        e => panic!("wrong error kind: {:?}", e),
    }
    match tab_retry_error("engine gone") {
        PdfError::BrowserError(m) => {
            assert_eq!(m, "Failed to create new tab after restart: engine gone")
        }
        e => panic!("wrong error kind: {:?}", e),
    }
}

#[test]
fn successful_render_recycles_and_returns_bytes_unchanged() {
    let mut engine = Engine::new();
    let s = engine.note_session_started();
    let tab = engine.note_tab_created(s);
    let bytes = vec![0x25, 0x50, 0x44, 0x46, 0x2d]; // the PDF signature
    let r = finish_conversion(&mut engine, tab, Ok(bytes.clone()));
    assert_eq!(r.unwrap(), bytes);
    assert_eq!(engine.idle_tabs(), 1);
}

#[test]
fn failed_render_discards_the_tab() {
    let mut engine = Engine::new();
    let s = engine.note_session_started();
    let tab = engine.note_tab_created(s);
    let r = finish_conversion(&mut engine, tab, Err("render died".to_string()));
    match r {
        Err(PdfError::BrowserError(m)) => assert_eq!(m, "render died"),
        other => panic!("wrong outcome: {:?}", other),
    }
    assert_eq!(engine.idle_tabs(), 0, "a failed conversion never recycles");
    // The tab is gone for good: the next acquisition must create a new one.
    assert!(matches!(engine.get_pooled_tab(), AcquireStep::NeedTab(_)));
}

#[test]
fn converter_holds_and_replaces_options() {
    let mut opts = PdfOptions::new();
    opts.page_size = Some("A5".to_string());
    let mut c = HtmlToPdfConverter::new(Some(opts));
    assert_eq!(c.options().page_size.as_deref(), Some("A5"));

    let c2 = HtmlToPdfConverter::new(None);
    assert!(c2.options().page_size.is_none());
    assert!(c2.options().print_background);

    let mut replacement = PdfOptions::new();
    replacement.scale_milli = Some(900);
    c.set_options(replacement);
    assert_eq!(c.options().scale_milli, Some(900));

    assert!(matches!(c.prepare(""), Err(PdfError::EmptyHtml)));
    let p = c.prepare("<p>hi</p>").unwrap();
    assert_eq!(p.params.scale_milli, Some(900));
}

#[test]
fn error_kind_predicates() {
    assert!(PdfError::EmptyHtml.is_empty_html());
    assert!(!PdfError::EmptyHtml.is_browser_error());
    let b = PdfError::BrowserError("x".to_string());
    assert!(b.is_browser_error());
    assert!(!b.is_empty_html());
    assert!(!PdfError::InvalidOption("bad".to_string()).is_empty_html());
}

#[test]
fn generator_error_keeps_command_output() {
    let e = PdfGeneratorError::new("stderr text".to_string());
    assert_eq!(e.command_output, "stderr text");
}
