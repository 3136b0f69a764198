use vstd::prelude::*;

use crate::adapters::{convert_or_raw, markdown_or_raw};
use crate::text::{contains, contains_str, owned, push_str};

verus! {

/// The URL adapter: a public web page, converted to Markdown.
pub struct UrlAdapter;

/// The body kept of a fetched page: converted to Markdown when its
/// `Content-Type` mentions `text/html`, else the text as fetched.
pub open spec fn page_body(content_type: Seq<char>, text: Seq<char>) -> Seq<char> {
    if contains(content_type, "text/html"@) {
        markdown_or_raw(text)
    } else {
        text
    }
}

/// The Markdown written for a fetched page: its title as heading, the
/// source URL, a rule, then the body.
pub fn url_markdown(title: &str, url: &str, content_type: &str, text: &str) -> (r: String)
    ensures
        r@ == "# "@ + title@ + "\n\n_Source: "@ + url@ + "_\n\n---\n\n"@ + page_body(content_type@, text@),
{
    let body = if contains_str(content_type, "text/html") {
        convert_or_raw(text)
    } else {
        owned(text)
    };
    let mut md = owned("# ");
    push_str(&mut md, title);
    push_str(&mut md, "\n\n_Source: ");
    push_str(&mut md, url);
    push_str(&mut md, "_\n\n---\n\n");
    push_str(&mut md, body.as_str());
    md
}

} // verus!
