//! HTML: escaping text for it, and filling in page templates.

use crate::seqs;
use crate::seqs::replaced;
use crate::text::{chars_of, string_of};
use vstd::prelude::*;

verus! {

/// What stands for a character in HTML text.
pub open spec fn escaped_char(c: char) -> Seq<char> {
    if c == '&' {
        "&amp;"@
    } else if c == '<' {
        "&lt;"@
    } else if c == '>' {
        "&gt;"@
    } else if c == '"' {
        "&quot;"@
    } else if c == '\'' {
        "&#39;"@
    } else {
        seq![c]
    }
}

/// Text with the characters that HTML gives a meaning to escaped.
pub open spec fn escaped(s: Seq<char>) -> Seq<char>
    decreases s.len(),
{
    if s.len() == 0 {
        Seq::empty()
    } else {
        escaped(s.drop_last()) + escaped_char(s.last())
    }
}

/// Escaped text has nothing in it that could start or end a tag or an attribute
/// value.
pub proof fn escaped_is_inert(s: Seq<char>)
    ensures
        !escaped(s).contains('<'),
        !escaped(s).contains('>'),
        !escaped(s).contains('"'),
        !escaped(s).contains('\''),
    decreases s.len(),
{
    reveal_strlit("&amp;");
    reveal_strlit("&lt;");
    reveal_strlit("&gt;");
    reveal_strlit("&quot;");
    reveal_strlit("&#39;");
    if s.len() > 0 {
        let front = escaped(s.drop_last());
        let back = escaped_char(s.last());
        escaped_is_inert(s.drop_last());
        assert forall|i: int| 0 <= i < escaped(s).len() implies {
            let c = #[trigger] escaped(s)[i];
            c != '<' && c != '>' && c != '"' && c != '\''
        } by {
            if i < front.len() {
                assert(front.contains(front[i]));
            } else {
                assert(escaped(s)[i] == back[i - front.len()]);
            }
        }
    }
}

/// Escapes text for HTML.
pub fn escape_html(value: &str) -> (html: String)
    ensures
        html@ == escaped(value@),
{
    let chars = chars_of(value);
    let mut html = String::new();
    let mut i: usize = 0;
    while i < chars.len()
        invariant
            chars@ == value@,
            i <= chars@.len(),
            html@ == escaped(value@.take(i as int)),
        decreases chars@.len() - i,
    {
        let c = chars[i];
        if c == '&' {
            html.append("&amp;");
        } else if c == '<' {
            html.append("&lt;");
        } else if c == '>' {
            html.append("&gt;");
        } else if c == '"' {
            html.append("&quot;");
        } else if c == '\'' {
            html.append("&#39;");
        } else {
            html.push(c);
        }
        i = i + 1;
        assert(value@.take(i as int).drop_last() =~= value@.take(i - 1));
        assert(html@ =~= escaped(value@.take(i as int)));
    }
    assert(value@.take(i as int) =~= value@);
    html
}

/// Puts a value wherever a template has the key.
pub fn fill(template: &str, key: &str, value: &str) -> (page: String)
    requires
        key@.len() > 0,
    ensures
        page@ == replaced(template@, key@, value@),
{
    let template = chars_of(template);
    let key = chars_of(key);
    let value = chars_of(value);
    let page = seqs::replace(template.as_slice(), key.as_slice(), value.as_slice());
    string_of(page.as_slice())
}

} // verus!
