//! The pages that the client makes from templates.

use crate::html::{escape_html, escaped, fill};
use crate::seqs::replaced;
use crate::text::{decimal_text, push_decimal};
use vstd::prelude::*;

verus! {

/// The page that tells what went wrong.
pub const ERROR_TEMPLATE: &'static str =
    "<!DOCTYPE html>\n<html lang=\"en\"><head>\n<meta charset=\"utf-8\">\n<meta name=\"viewport\" content=\"width=device-width,initial-scale=1\">\n<title>{{TITLE}}</title>\n<style>{{CSS}}</style>\n</head>\n<body><main>\n<h1>{{TITLE}}</h1>\n<p>{{MESSAGE}}</p>\n{{DETAIL}}\n</main></body></html>\n";

/// How that page looks.
pub const ERROR_CSS: &'static str =
    "body{font-family:system-ui,sans-serif;text-align:center;padding:40px}.detail{color:#999}";

/// A page that says one thing.
pub const STATUS_TEMPLATE: &'static str =
    "<!DOCTYPE html>\n<html lang=\"en\"><head>\n<meta charset=\"utf-8\">\n<meta name=\"viewport\" content=\"width=device-width,initial-scale=1\">\n<title>{{TITLE}}</title>\n<style>{{CSS}}</style>\n</head>\n<body><main><h1>{{TITLE}}</h1></main></body></html>\n";

/// How that page looks.
pub const STATUS_CSS: &'static str =
    "body{font-family:system-ui,sans-serif;text-align:center;padding:40px}";

/// The paragraph with the details, if there are any.
pub open spec fn detail_paragraph(detail: Option<Seq<char>>) -> Seq<char> {
    match detail {
        Some(detail) => "<p class=\"detail\">"@ + escaped(detail) + "</p>"@,
        None => Seq::empty(),
    }
}

/// The page that tells what went wrong.
pub open spec fn error_html(
    title: Seq<char>,
    message: Seq<char>,
    detail: Option<Seq<char>>,
) -> Seq<char> {
    let styled = replaced(ERROR_TEMPLATE@, "{{CSS}}"@, ERROR_CSS@);
    let titled = replaced(styled, "{{TITLE}}"@, escaped(title));
    let told = replaced(titled, "{{MESSAGE}}"@, escaped(message));
    replaced(told, "{{DETAIL}}"@, detail_paragraph(detail))
}

/// The page that says one thing.
pub fn status(title: &str) -> (html: String)
    ensures
        html@ == replaced(
            replaced(STATUS_TEMPLATE@, "{{CSS}}"@, STATUS_CSS@),
            "{{TITLE}}"@,
            escaped(title@),
        ),
{
    proof {
        reveal_strlit("{{CSS}}");
        reveal_strlit("{{TITLE}}");
    }
    let title = escape_html(title);
    let page = fill(STATUS_TEMPLATE, "{{CSS}}", STATUS_CSS);
    fill(page.as_str(), "{{TITLE}}", title.as_str())
}

/// The page for a local server that did not answer in time.
pub fn gateway_timeout(port: u16) -> (html: String)
    ensures
        html@ == error_html(
            "504 Gateway Timeout"@,
            "localhost:"@ + decimal_text(port as nat) + " did not respond within 30 seconds"@,
            None,
        ),
{
    let mut message = String::new();
    message.append("localhost:");
    push_decimal(&mut message, port as u64);
    message.append(" did not respond within 30 seconds");
    assert(message@ =~= "localhost:"@ + decimal_text(port as nat)
        + " did not respond within 30 seconds"@);
    error_page("504 Gateway Timeout", message.as_str(), None)
}

/// The page for a local server that could not be reached, with the reason.
pub fn bad_gateway(port: u16, error: &str) -> (html: String)
    ensures
        html@ == error_html(
            "502 Bad Gateway"@,
            "Could not connect to localhost:"@ + decimal_text(port as nat),
            Some(error@),
        ),
{
    let mut message = String::new();
    message.append("Could not connect to localhost:");
    push_decimal(&mut message, port as u64);
    assert(message@ =~= "Could not connect to localhost:"@ + decimal_text(port as nat));
    error_page("502 Bad Gateway", message.as_str(), Some(error))
}

/// The page that tells what went wrong, perhaps with details.
pub fn error_page(title: &str, message: &str, detail: Option<&str>) -> (html: String)
    ensures
        html@ == error_html(
            title@,
            message@,
            match detail {
                Some(detail) => Some(detail@),
                None => None,
            },
        ),
{
    proof {
        reveal_strlit("{{CSS}}");
        reveal_strlit("{{TITLE}}");
        reveal_strlit("{{MESSAGE}}");
        reveal_strlit("{{DETAIL}}");
    }
    let mut paragraph = String::new();
    if let Some(detail) = detail {
        paragraph.append("<p class=\"detail\">");
        paragraph.append(escape_html(detail).as_str());
        paragraph.append("</p>");
        assert(paragraph@ =~= detail_paragraph(Some(detail@)));
    }
    let page = fill(ERROR_TEMPLATE, "{{CSS}}", ERROR_CSS);
    let page = fill(page.as_str(), "{{TITLE}}", escape_html(title).as_str());
    let page = fill(page.as_str(), "{{MESSAGE}}", escape_html(message).as_str());
    fill(page.as_str(), "{{DETAIL}}", paragraph.as_str())
}

} // verus!
