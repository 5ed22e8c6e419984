//! Which representation a listing is answered in, by the `Accept` header.
use vstd::prelude::*;

use crate::text::{contains, contains_spec};

verus! {

/// The representations a listing can be answered in.
#[derive(Debug, Clone, Copy, PartialEq, Eq, Structural)]
pub enum ResponseFormat {
    Html,
    Json,
    Csv,
}

/// The text of an optional header value.
pub open spec fn opt_text(s: Option<&str>) -> Option<Seq<char>> {
    match s {
        Some(v) => Some(v@),
        None => None,
    }
}

/// The `Accept` header is given and mentions `word` anywhere.
pub open spec fn accept_mentions(accept: Option<Seq<char>>, word: Seq<char>) -> bool {
    match accept {
        Some(a) => contains_spec(a, word),
        None => false,
    }
}

/// The representation for an `Accept` header: HTML when it mentions `html`
/// (even beside `json`), else JSON when it mentions `json`, else plain text.
pub open spec fn format_for(accept: Option<Seq<char>>) -> ResponseFormat {
    if accept_mentions(accept, "html"@) {
        ResponseFormat::Html
    } else if accept_mentions(accept, "json"@) {
        ResponseFormat::Json
    } else {
        ResponseFormat::Csv
    }
}

/// Whether the `Accept` header asks for HTML.
pub fn accepts_html(accept: Option<&str>) -> (r: bool)
    ensures
        r == accept_mentions(opt_text(accept), "html"@),
{
    match accept {
        Some(a) => contains(a, "html"),
        None => false,
    }
}

/// Whether the `Accept` header asks for JSON.
pub fn accepts_json(accept: Option<&str>) -> (r: bool)
    ensures
        r == accept_mentions(opt_text(accept), "json"@),
{
    match accept {
        Some(a) => contains(a, "json"),
        None => false,
    }
}

/// The representation a listing is answered in.
pub fn response_format(accept: Option<&str>) -> (f: ResponseFormat)
    ensures
        f == format_for(opt_text(accept)),
{
    if accepts_html(accept) {
        ResponseFormat::Html
    } else if accepts_json(accept) {
        ResponseFormat::Json
    } else {
        ResponseFormat::Csv
    }
}

/// The content type of an HTML answer.
pub fn html_content_type() -> (r: &'static str)
    ensures
        r@ == "text/html; charset=utf-8"@,
{
    "text/html; charset=utf-8"
}

/// The content type of a plain-text answer.
pub fn text_content_type() -> (r: &'static str)
    ensures
        r@ == "text/plain; charset=utf-8"@,
{
    "text/plain; charset=utf-8"
}

} // verus!
