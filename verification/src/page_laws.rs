//! What the pages from templates tell.

use crate::client::pages::{detail_paragraph, error_html, ERROR_CSS, ERROR_TEMPLATE};
use crate::html::{escaped, escaped_is_inert};
use crate::relay::pages::error_paragraph;
use crate::seqs::replaced;
use vstd::prelude::*;

verus! {

/// What went wrong is told in a paragraph of its own, escaped; if nothing did,
/// there is none.
pub proof fn errors_are_told_escaped(message: Seq<char>)
    ensures
        error_paragraph(None).len() == 0,
        error_paragraph(Some(message)) == "<p class=\"error\">"@ + escaped(message) + "</p>"@,
        detail_paragraph(None).len() == 0,
        detail_paragraph(Some(message)) == "<p class=\"detail\">"@ + escaped(message) + "</p>"@,
        !escaped(message).contains('<'),
        !escaped(message).contains('>'),
{
    escaped_is_inert(message);
}

/// The page that tells what went wrong is the template with its style, and then the
/// title, the message and the details, all escaped, where their keys stand.
pub proof fn error_pages_are_filled_in(
    title: Seq<char>,
    message: Seq<char>,
    detail: Option<Seq<char>>,
)
    ensures
        error_html(title, message, detail) == replaced(
            replaced(
                replaced(
                    replaced(ERROR_TEMPLATE@, "{{CSS}}"@, ERROR_CSS@),
                    "{{TITLE}}"@,
                    escaped(title),
                ),
                "{{MESSAGE}}"@,
                escaped(message),
            ),
            "{{DETAIL}}"@,
            match detail {
                Some(detail) => "<p class=\"detail\">"@ + escaped(detail) + "</p>"@,
                None => Seq::empty(),
            },
        ),
{
}

} // verus!
