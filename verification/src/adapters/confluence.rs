use vstd::prelude::*;

use crate::adapters::{convert_or_raw, markdown_or_raw};
use crate::json::{json_field, json_str, Json};
use crate::pptx::archive::trim_end_matches;
use crate::text::{chars_of, decimal, owned, push_decimal, push_str, string_of, sub_chars};

verus! {

/// The Confluence adapter: one page read through the REST API.
pub struct ConfluenceAdapter;

/// The Confluence site used when neither the source nor the environment
/// names one.
pub const DEFAULT_BASE_URL: &'static str = "https://rossel-applications.atlassian.net";

/// Why a Confluence page could not be fetched.
pub enum ConfluenceError {
    /// Only an MCP token is configured, which is not supported.
    McpNotSupported,
    /// No credentials at all.
    NoCredentials,
    /// The answer lacks `body.export_view.value`.
    MissingBody,
}

impl ConfluenceError {
    pub fn message(&self) -> (r: String)
        ensures
            r@ == match self {
                ConfluenceError::McpNotSupported =>
                    "ATLASSIAN_MCP_TOKEN found but MCP is not yet supported in the Rust CLI.\nUse CONFLUENCE_USER + CONFLUENCE_TOKEN (REST API) instead."@,
                ConfluenceError::NoCredentials =>
                    "No Confluence credentials found in .env.\n  Option A: CONFLUENCE_USER + CONFLUENCE_TOKEN\n  Option B: ATLASSIAN_MCP_TOKEN (not yet supported)"@,
                ConfluenceError::MissingBody => "Missing body.export_view.value in Confluence response"@,
            },
    {
        match self {
            ConfluenceError::McpNotSupported => owned(
                "ATLASSIAN_MCP_TOKEN found but MCP is not yet supported in the Rust CLI.\nUse CONFLUENCE_USER + CONFLUENCE_TOKEN (REST API) instead.",
            ),
            ConfluenceError::NoCredentials => owned(
                "No Confluence credentials found in .env.\n  Option A: CONFLUENCE_USER + CONFLUENCE_TOKEN\n  Option B: ATLASSIAN_MCP_TOKEN (not yet supported)",
            ),
            ConfluenceError::MissingBody => owned("Missing body.export_view.value in Confluence response"),
        }
    }
}

/// Picks the credentials to use: user and token for the REST API when both
/// are set; an MCP token alone is refused, and so is nothing at all.
pub fn confluence_credentials(
    user: Option<String>,
    token: Option<String>,
    mcp_token: Option<String>,
) -> (r: Result<(String, String), ConfluenceError>)
    ensures
        match (user, token) {
            (Some(u), Some(t)) => r matches Ok((a, b)) && a@ == u@ && b@ == t@,
            _ => if mcp_token is Some {
                r matches Err(ConfluenceError::McpNotSupported)
            } else {
                r matches Err(ConfluenceError::NoCredentials)
            },
        },
{
    match (user, token, mcp_token) {
        (Some(u), Some(t), _) => Ok((u, t)),
        (_, _, Some(_)) => Err(ConfluenceError::McpNotSupported),
        _ => Err(ConfluenceError::NoCredentials),
    }
}

/// The site to read from: the source's `base_url`, else the environment's,
/// else the default; trailing slashes removed.
pub open spec fn spec_base_url(source_base: Option<Seq<char>>, env_base: Option<Seq<char>>) -> Seq<char> {
    trim_end_matches(
        match source_base {
            Some(b) => b,
            None => match env_base {
                Some(e) => e,
                None => DEFAULT_BASE_URL@,
            },
        },
        "/"@,
    )
}

fn trim_trailing_slashes(s: &str) -> (r: String)
    ensures
        r@ == trim_end_matches(s@, "/"@),
{
    proof {
        reveal_strlit("/");
    }
    let cs = chars_of(s);
    let mut j: usize = cs.len();
    assert(s@.take(j as int) =~= s@);
    while j > 0 && cs[j - 1] == '/'
        invariant
            cs@ == s@,
            j <= cs@.len(),
            trim_end_matches(s@, "/"@) == trim_end_matches(s@.take(j as int), "/"@),
        decreases j,
    {
        proof {
            reveal_strlit("/");
        }
        assert(s@.take(j as int).skip(j - 1).len() == 1);
        assert(s@.take(j as int).skip(j - 1)[0] == '/');
        assert(s@.take(j as int).skip(j - 1) =~= "/"@);
        assert(s@.take(j as int).take(j - 1) =~= s@.take(j - 1));
        j -= 1;
    }
    assert(!crate::text::has_suffix(s@.take(j as int), "/"@)) by {
        if j > 0 {
            assert(s@.take(j as int).skip(j - 1)[0] == s@[j - 1]);
        }
    }
    let kept = sub_chars(&cs, 0, j);
    assert(kept@ =~= s@.take(j as int));
    string_of(&kept)
}

/// The REST URL of a page: `<site>/wiki/rest/api/content/<page id>`.
pub fn confluence_api_url(page_id: &str, source_base: Option<&str>, env_base: Option<&str>) -> (r: String)
    ensures
        r@ == spec_base_url(
            match source_base {
                Some(b) => Some(b@),
                None => None,
            },
            match env_base {
                Some(e) => Some(e@),
                None => None,
            },
        ) + "/wiki/rest/api/content/"@ + page_id@,
{
    let base = match source_base {
        Some(b) => b,
        None => match env_base {
            Some(e) => e,
            None => DEFAULT_BASE_URL,
        },
    };
    let mut url = trim_trailing_slashes(base);
    push_str(&mut url, "/wiki/rest/api/content/");
    push_str(&mut url, page_id);
    url
}

/// `## Étape N — <label>` and `### <title>` before the body when the source
/// has both a step number and a step label; else the body alone.
pub open spec fn spec_md_with_step(
    title: Seq<char>,
    body: Seq<char>,
    step: Option<u32>,
    step_label: Option<Seq<char>>,
) -> Seq<char> {
    match (step, step_label) {
        (Some(n), Some(label)) => "## Étape "@ + decimal(n as nat) + " — "@ + label + "\n\n### "@
            + title + "\n\n"@ + body,
        _ => body,
    }
}

pub fn build_md_with_step(title: &str, body: &str, step: Option<u32>, step_label: Option<&str>) -> (r: String)
    ensures
        r@ == spec_md_with_step(
            title@,
            body@,
            step,
            match step_label {
                Some(l) => Some(l@),
                None => None,
            },
        ),
{
    match (step, step_label) {
        (Some(n), Some(label)) => {
            let mut out = owned("## Étape ");
            push_decimal(&mut out, n as u64);
            push_str(&mut out, " — ");
            push_str(&mut out, label);
            push_str(&mut out, "\n\n### ");
            push_str(&mut out, title);
            push_str(&mut out, "\n\n");
            push_str(&mut out, body);
            out
        },
        _ => owned(body),
    }
}

/// The HTML of a page answer: `body.export_view.value`.
pub open spec fn page_html(data: Json) -> Option<Seq<char>> {
    json_str(json_field(json_field(json_field(data, "body"@), "export_view"@), "value"@))
}

/// The Markdown written for a Confluence page: its HTML converted (or kept
/// when conversion fails); framed by the step headings when the source has
/// both a step number and a step label, else headed by the page's title
/// (else the configured one).
pub open spec fn spec_confluence_markdown(
    data: Json,
    title: Seq<char>,
    step: Option<u32>,
    step_label: Option<Seq<char>>,
) -> Option<Seq<char>> {
    match page_html(data) {
        Some(html) => {
            let raw = markdown_or_raw(html);
            let page_title = match json_str(json_field(data, "title"@)) {
                Some(t) => t,
                None => title,
            };
            let body = if step is Some && step_label is Some { raw } else { "# "@ + page_title + "\n\n"@ + raw };
            Some(spec_md_with_step(title, body, step, step_label))
        },
        None => None,
    }
}

fn field<'a>(j: &'a Json, key: &str) -> (r: &'a Json)
    ensures
        *r == json_field(*j, key@),
{
    match j.get(key) {
        Some(v) => v,
        None => &crate::notebooklm::client::NULL,
    }
}

/// Renders the REST answer for a page as Markdown.
pub fn confluence_markdown(data: &Json, title: &str, step: Option<u32>, step_label: Option<&str>) -> (r: Result<String, ConfluenceError>)
    ensures
        match spec_confluence_markdown(
            *data,
            title@,
            step,
            match step_label {
                Some(l) => Some(l@),
                None => None,
            },
        ) {
            Some(md) => r matches Ok(s) && s@ == md,
            None => r matches Err(ConfluenceError::MissingBody),
        },
{
    let html = match field(field(field(data, "body"), "export_view"), "value").as_str() {
        Some(h) => h,
        None => return Err(ConfluenceError::MissingBody),
    };
    let page_title = match field(data, "title").as_str() {
        Some(t) => t,
        None => title,
    };
    let raw = convert_or_raw(html);
    let body = if step.is_some() && step_label.is_some() {
        raw
    } else {
        let mut b = owned("# ");
        push_str(&mut b, page_title);
        push_str(&mut b, "\n\n");
        push_str(&mut b, raw.as_str());
        b
    };
    Ok(build_md_with_step(title, body.as_str(), step, step_label))
}

} // verus!
