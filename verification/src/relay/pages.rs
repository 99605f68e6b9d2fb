//! The pages that the relay makes from templates.

use crate::html::{escape_html, escaped, fill};
use crate::relay::http::{html_reply, html_response, Reply};
use crate::seqs::replaced;
use vstd::prelude::*;

verus! {

/// The page that asks a visitor for a password.
pub const PASSWORD_TEMPLATE: &'static str =
    "<!DOCTYPE html>\n<html lang=\"en\"><head>\n<meta charset=\"utf-8\">\n<meta name=\"viewport\" content=\"width=device-width,initial-scale=1\">\n<title>Password Required</title>\n<style>{{CSS}}</style>\n</head>\n<body><main>\n<h1>Password Required</h1>\n<p>This tunnel is protected</p>\n{{ERROR}}\n<form method=\"POST\" action=\"/__peek_auth\">\n<input type=\"password\" name=\"password\" placeholder=\"Enter password\" required autofocus>\n<button type=\"submit\">Continue</button>\n</form>\n</main></body></html>\n";

/// How that page looks.
pub const PASSWORD_CSS: &'static str =
    "body{font-family:system-ui,sans-serif;display:flex;justify-content:center;align-items:center;min-height:100vh;margin:0;background:#f5f5f5}main{background:white;padding:40px;border-radius:12px;max-width:360px;width:100%;text-align:center}.error{color:#e53e3e;margin-bottom:16px}input,button{width:100%;padding:12px;border-radius:8px;font-size:16px;box-sizing:border-box}";

/// A page that says one thing.
pub const STATUS_TEMPLATE: &'static str =
    "<!DOCTYPE html>\n<html lang=\"en\"><head>\n<meta charset=\"utf-8\">\n<meta name=\"viewport\" content=\"width=device-width,initial-scale=1\">\n<title>{{MESSAGE}}</title>\n<style>{{CSS}}</style>\n</head>\n<body><main><h1>{{MESSAGE}}</h1></main></body></html>\n";

/// How that page looks.
pub const STATUS_CSS: &'static str =
    "body{font-family:system-ui,sans-serif;display:flex;justify-content:center;align-items:center;min-height:100vh;margin:0;background:#f5f5f5}main{text-align:center}";

/// The paragraph that tells what went wrong, if anything did.
pub open spec fn error_paragraph(error: Option<Seq<char>>) -> Seq<char> {
    match error {
        Some(message) => "<p class=\"error\">"@ + escaped(message) + "</p>"@,
        None => Seq::empty(),
    }
}

/// The page that asks for a password, perhaps saying what was wrong before.
pub fn password(error: Option<&str>) -> (reply: Reply)
    ensures
        reply@ == html_response(
            200,
            replaced(
                replaced(PASSWORD_TEMPLATE@, "{{CSS}}"@, PASSWORD_CSS@),
                "{{ERROR}}"@,
                error_paragraph(
                    match error {
                        Some(message) => Some(message@),
                        None => None,
                    },
                ),
            ),
        ),
{
    proof {
        reveal_strlit("{{CSS}}");
        reveal_strlit("{{ERROR}}");
    }
    let mut paragraph = String::new();
    if let Some(message) = error {
        paragraph.append("<p class=\"error\">");
        paragraph.append(escape_html(message).as_str());
        paragraph.append("</p>");
        assert(paragraph@ =~= error_paragraph(Some(message@)));
    }
    let page = fill(PASSWORD_TEMPLATE, "{{CSS}}", PASSWORD_CSS);
    html_reply(200, fill(page.as_str(), "{{ERROR}}", paragraph.as_str()).as_str())
}

/// The page that says one thing.
pub fn status(message: &str) -> (reply: Reply)
    ensures
        reply@ == html_response(
            200,
            replaced(
                replaced(STATUS_TEMPLATE@, "{{CSS}}"@, STATUS_CSS@),
                "{{MESSAGE}}"@,
                escaped(message@),
            ),
        ),
{
    proof {
        reveal_strlit("{{CSS}}");
        reveal_strlit("{{MESSAGE}}");
    }
    let message = escape_html(message);
    let page = fill(STATUS_TEMPLATE, "{{CSS}}", STATUS_CSS);
    html_reply(200, fill(page.as_str(), "{{MESSAGE}}", message.as_str()).as_str())
}

} // verus!
