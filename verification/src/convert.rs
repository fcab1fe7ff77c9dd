//! The per-request conversion pipeline: validate the input, encode it as a
//! self-contained document reference, translate the options, and settle
//! each engine step's outcome — recycling the tab only after a fully
//! successful conversion.
//!
//! The blocking engine calls (navigate, wait for readiness, render) are
//! made by the surrounding application, which reports each outcome here.

use vstd::prelude::*;
use vstd::string::*;

use crate::engine::{spec_recycle, Engine, TabHandle};
use crate::error::PdfError;
use crate::options::{params_match, PdfOptions, PrintParams};
use crate::text::{is_blank, str_is_blank};

verus! {

/// Character `i` of the standard base64 alphabet (RFC 4648):
/// `A`..`Z`, `a`..`z`, `0`..`9`, `+`, `/`.
pub open spec fn b64_char(i: int) -> char
    recommends
        0 <= i < 64,
{
    if i < 26 {
        ((65 + i) as u8) as char
    } else if i < 52 {
        ((97 + (i - 26)) as u8) as char
    } else if i < 62 {
        ((48 + (i - 52)) as u8) as char
    } else if i == 62 {
        '+'
    } else {
        '/'
    }
}

/// The four output characters of one final group of one, two or three
/// input bytes, `=`-padded.
pub open spec fn b64_group(b: Seq<u8>) -> Seq<char>
    recommends
        1 <= b.len() <= 3,
{
    let b0 = b[0] as int;
    if b.len() == 1 {
        seq![b64_char(b0 / 4), b64_char((b0 % 4) * 16), '=', '=']
    } else if b.len() == 2 {
        let b1 = b[1] as int;
        seq![
            b64_char(b0 / 4),
            b64_char((b0 % 4) * 16 + b1 / 16),
            b64_char((b1 % 16) * 4),
            '=',
        ]
    } else {
        let b1 = b[1] as int;
        let b2 = b[2] as int;
        seq![
            b64_char(b0 / 4),
            b64_char((b0 % 4) * 16 + b1 / 16),
            b64_char((b1 % 16) * 4 + b2 / 64),
            b64_char(b2 % 64),
        ]
    }
}

/// Standard base64 with `=` padding (RFC 4648, section 4) of a byte
/// sequence: groups of three bytes become four alphabet characters, a
/// final short group is padded.
pub open spec fn spec_base64(b: Seq<u8>) -> Seq<char>
    decreases b.len(),
{
    if b.len() == 0 {
        Seq::empty()
    } else if b.len() <= 3 {
        b64_group(b)
    } else {
        b64_group(b.take(3)) + spec_base64(b.skip(3))
    }
}

/// Relies on the base64 crate's `STANDARD` engine (`Engine::encode`):
/// RFC 4648 standard-alphabet base64 of the input bytes, with `=`
/// padding. The length bound keeps the output-size computation inside the
/// call from overflowing.
#[verifier::external_body]
fn base64_encode(b: &[u8]) -> (r: String)
    requires
        b@.len() <= usize::MAX / 2,
    ensures
        r@ == spec_base64(b@),
{
    base64::Engine::encode(&base64::engine::general_purpose::STANDARD, b)
}

/// The self-contained document reference for a byte sequence: a
/// `data:` URL carrying the bytes in base64, so the engine needs neither
/// network nor filesystem access to fetch the document.
pub open spec fn spec_data_url(bytes: Seq<u8>) -> Seq<char> {
    "data:text/html;base64,"@ + spec_base64(bytes)
}

/// Encode a document as a navigable `data:` URL; see [`spec_data_url`].
pub fn encode_data_url(html: &str) -> (u: String)
    requires
        html.spec_bytes().len() <= usize::MAX / 2,
    ensures
        u@ == spec_data_url(html.spec_bytes()),
{
    let b64 = base64_encode(html.as_bytes());
    let u = String::from_str("data:text/html;base64,");
    u.concat(b64.as_str())
}

/// A validated conversion, ready to be driven against the engine: the
/// document reference to navigate to, and the translated print parameters.
pub struct PreparedRequest {
    /// The `data:` URL holding the document.
    pub url: String,
    /// Engine-native print parameters.
    pub params: PrintParams,
}

/// Validate and prepare one conversion. Blank input (empty or all
/// whitespace) is rejected with `EmptyHtml` before any shared resource is
/// touched; any other input yields the document's `data:` URL and the
/// translated print parameters.
pub fn prepare_conversion(html: &str, options: &PdfOptions) -> (r: Result<
    PreparedRequest,
    PdfError,
>)
    requires
        html.spec_bytes().len() <= usize::MAX / 2,
    ensures
        r is Err <==> is_blank(html@),
        r is Err ==> r == Err::<PreparedRequest, PdfError>(PdfError::EmptyHtml),
        r matches Ok(p) ==> p.url@ == spec_data_url(html.spec_bytes()) && params_match(
            p.params,
            *options,
        ),
{
    if str_is_blank(html) {
        return Err(PdfError::EmptyHtml);
    }
    let url = encode_data_url(html);
    let params = options.to_chrome_options();
    Ok(PreparedRequest { url, params })
}

/// Error surfaced when navigating to the document reference fails; the
/// engine's own message follows the prefix.
pub fn navigation_error(msg: &str) -> (e: PdfError)
    ensures
        e matches PdfError::BrowserError(m) && m@ == "Navigation failed: "@ + msg@,
{
    let s = String::from_str("Navigation failed: ");
    PdfError::BrowserError(s.concat(msg))
}

/// Error surfaced when the readiness wait (presence of the document body)
/// fails; the engine's own message follows the prefix.
pub fn wait_error(msg: &str) -> (e: PdfError)
    ensures
        e matches PdfError::BrowserError(m) && m@ == "Wait for body failed: "@ + msg@,
{
    let s = String::from_str("Wait for body failed: ");
    PdfError::BrowserError(s.concat(msg))
}

/// Error surfaced when tab creation fails even against the fresh session
/// installed by the one permitted restart.
pub fn tab_retry_error(msg: &str) -> (e: PdfError)
    ensures
        e matches PdfError::BrowserError(m) && m@ == "Failed to create new tab after restart: "@
            + msg@,
{
    let s = String::from_str("Failed to create new tab after restart: ");
    PdfError::BrowserError(s.concat(msg))
}

/// Settle one conversion after the render step, enforcing the
/// conservative reuse policy: on success the tab is recycled and the
/// rendered bytes are returned untouched; on failure the tab is discarded
/// — the engine is left alone, so the tab never re-enters the pool — and
/// the engine's message is surfaced as a `BrowserError`.
pub fn finish_conversion(engine: &mut Engine, tab: TabHandle, rendered: Result<Vec<u8>, String>) -> (r:
    Result<Vec<u8>, PdfError>)
    ensures
        rendered matches Ok(bytes) ==> final(engine)@ == spec_recycle(old(engine)@, tab) && r
            == Ok::<Vec<u8>, PdfError>(bytes),
        rendered matches Err(msg) ==> final(engine)@ == old(engine)@ && r == Err::<
            Vec<u8>,
            PdfError,
        >(PdfError::BrowserError(msg)),
{
    match rendered {
        Ok(bytes) => {
            engine.recycle_tab(tab);
            Ok(bytes)
        },
        Err(msg) => Err(PdfError::BrowserError(msg)),
    }
}

/// A converter configured once with a set of options and reused for many
/// documents.
pub struct HtmlToPdfConverter {
    /// The options applied to every conversion prepared by this converter.
    pub options: PdfOptions,
}

impl HtmlToPdfConverter {
    /// A converter with the given options, or the defaults when none are
    /// given.
    pub fn new(options: Option<PdfOptions>) -> (c: HtmlToPdfConverter)
        ensures
            match options {
                Some(o) => c.options == o,
                None => c.options == PdfOptions::spec_default(),
            },
    {
        match options {
            Some(o) => HtmlToPdfConverter { options: o },
            None => HtmlToPdfConverter { options: PdfOptions::new() },
        }
    }

    /// The configured options.
    pub fn options(&self) -> (r: &PdfOptions)
        ensures
            *r == self.options,
    {
        &self.options
    }

    /// Replace the configured options.
    pub fn set_options(&mut self, options: PdfOptions)
        ensures
            final(self).options == options,
    {
        self.options = options;
    }

    /// Prepare one conversion under the configured options; see
    /// [`prepare_conversion`].
    pub fn prepare(&self, html: &str) -> (r: Result<PreparedRequest, PdfError>)
        requires
            html.spec_bytes().len() <= usize::MAX / 2,
        ensures
            r is Err <==> is_blank(html@),
            r is Err ==> r == Err::<PreparedRequest, PdfError>(PdfError::EmptyHtml),
            r matches Ok(p) ==> p.url@ == spec_data_url(html.spec_bytes()) && params_match(
                p.params,
                self.options,
            ),
    {
        prepare_conversion(html, &self.options)
    }
}

} // verus!
