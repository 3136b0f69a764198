use vstd::prelude::*;

use crate::json::{json_field, json_get, opt_flag, opt_str, str_eq, Json};
use crate::text::{owned, push_str, safe_filename, space_string, spaces, spec_safe_filename};

verus! {

/// Base of the Notion REST API.
pub const NOTION_API: &'static str = "https://api.notion.com/v1";

/// Value of the `Notion-Version` header sent with every request.
pub const NOTION_VERSION: &'static str = "2022-06-28";

/// The Notion adapter: one page and its block tree, rendered as Markdown.
pub struct NotionAdapter;

// ── Rich text ───────────────────────────────────────────────────────────────

/// An annotation flag of a rich-text item: `item.annotations.<key>`, `false`
/// when missing or not a boolean.
pub open spec fn annotation(item: Json, key: Seq<char>) -> bool {
    match json_get(item, "annotations"@) {
        Some(a) => opt_flag(json_get(a, key)),
        None => false,
    }
}

/// The link target of a rich-text item: a non-empty `href` string.
pub open spec fn rich_link(item: Json) -> Option<Seq<char>> {
    match opt_str(json_get(item, "href"@)) {
        Some(h) => if h.len() > 0 { Some(h) } else { None },
        None => None,
    }
}

/// The `plain_text` of a rich-text item, empty when missing.
pub open spec fn plain_text(item: Json) -> Seq<char> {
    match opt_str(json_get(item, "plain_text"@)) {
        Some(p) => p,
        None => Seq::empty(),
    }
}

pub open spec fn wrap_code(p: Seq<char>, on: bool) -> Seq<char> {
    if on { "`"@ + p + "`"@ } else { p }
}

pub open spec fn wrap_strike(p: Seq<char>, on: bool) -> Seq<char> {
    if on { "~~"@ + p + "~~"@ } else { p }
}

pub open spec fn wrap_italic(p: Seq<char>, on: bool) -> Seq<char> {
    if on { "*"@ + p + "*"@ } else { p }
}

pub open spec fn wrap_bold(p: Seq<char>, on: bool) -> Seq<char> {
    if on { "**"@ + p + "**"@ } else { p }
}

pub open spec fn wrap_link(p: Seq<char>, link: Option<Seq<char>>) -> Seq<char> {
    match link {
        Some(l) => "["@ + p + "]("@ + l + ")"@,
        None => p,
    }
}

/// One rich-text item as Markdown: code, then strikethrough, italic, bold
/// and finally the link wrap the plain text; an item without text gives nothing.
pub open spec fn rich_piece(item: Json) -> Seq<char> {
    let p = plain_text(item);
    if p.len() == 0 {
        Seq::empty()
    } else {
        wrap_link(
            wrap_bold(
                wrap_italic(
                    wrap_strike(wrap_code(p, annotation(item, "code"@)), annotation(item, "strikethrough"@)),
                    annotation(item, "italic"@),
                ),
                annotation(item, "bold"@),
            ),
            rich_link(item),
        )
    }
}

/// The Markdown of a sequence of rich-text items, in order.
pub open spec fn rich_pieces(items: Seq<Json>) -> Seq<char>
    decreases items.len(),
{
    if items.len() == 0 {
        Seq::empty()
    } else {
        rich_pieces(items.drop_last()) + rich_piece(items.last())
    }
}

/// A `rich_text` value as Markdown: empty unless it is an array.
pub open spec fn rich_text(value: Option<Json>) -> Seq<char> {
    match value {
        Some(Json::Array(v)) => rich_pieces(v@),
        _ => Seq::empty(),
    }
}

fn get_flag(item: &Json, outer: &str, key: &str) -> (r: bool)
    ensures
        r == (match json_get(*item, outer@) {
            Some(a) => opt_flag(json_get(a, key@)),
            None => false,
        }),
{
    match item.get(outer) {
        Some(a) => match a.get(key) {
            Some(b) => match b.as_bool() {
                Some(x) => x,
                None => false,
            },
            None => false,
        },
        None => false,
    }
}

fn get_str<'a>(item: &'a Json, key: &str) -> (r: Option<&'a str>)
    ensures
        r matches Some(s) ==> opt_str(json_get(*item, key@)) == Some(s@),
        r is None ==> opt_str(json_get(*item, key@)) is None,
{
    match item.get(key) {
        Some(v) => v.as_str(),
        None => None,
    }
}

fn surround(p: String, left: &str, right: &str) -> (r: String)
    ensures
        r@ == left@ + p@ + right@,
{
    let mut out = owned(left);
    push_str(&mut out, p.as_str());
    push_str(&mut out, right);
    out
}

/// Renders one rich-text item.
pub fn render_rich_piece(item: &Json) -> (r: String)
    ensures
        r@ == rich_piece(*item),
{
    let plain = match get_str(item, "plain_text") {
        Some(p) => p,
        None => "",
    };
    proof { reveal_strlit(""); }
    if plain.is_empty() {
        return String::new();
    }
    let code = get_flag(item, "annotations", "code");
    let strike = get_flag(item, "annotations", "strikethrough");
    let italic = get_flag(item, "annotations", "italic");
    let bold = get_flag(item, "annotations", "bold");
    let mut piece = owned(plain);
    if code {
        piece = surround(piece, "`", "`");
    }
    if strike {
        piece = surround(piece, "~~", "~~");
    }
    if italic {
        piece = surround(piece, "*", "*");
    }
    if bold {
        piece = surround(piece, "**", "**");
    }
    match get_str(item, "href") {
        Some(link) => {
            if !link.is_empty() {
                let mut out = owned("[");
                push_str(&mut out, piece.as_str());
                push_str(&mut out, "](");
                push_str(&mut out, link);
                push_str(&mut out, ")");
                piece = out;
            }
        },
        None => {},
    }
    piece
}

/// Renders a `rich_text` value (Notion's inline text) as Markdown with bold,
/// italic, code, strikethrough and link annotations.
pub fn render_rich_text(value: Option<&Json>) -> (r: String)
    ensures
        r@ == rich_text(match value {
            Some(v) => Some(*v),
            None => None,
        }),
{
    let mut out = String::new();
    match value {
        Some(Json::Array(items)) => {
            let mut i: usize = 0;
            while i < items.len()
                invariant
                    i <= items@.len(),
                    out@ == rich_pieces(items@.take(i as int)),
                decreases items.len() - i,
            {
                let piece = render_rich_piece(&items[i]);
                push_str(&mut out, piece.as_str());
                assert(items@.take(i + 1).drop_last() =~= items@.take(i as int));
                i += 1;
            }
            assert(items@.take(items@.len() as int) =~= items@);
        },
        _ => {},
    }
    out
}

/// Plain text of a sequence of rich-text items: every `plain_text` string, joined.
pub open spec fn plain_pieces(items: Seq<Json>) -> Seq<char>
    decreases items.len(),
{
    if items.len() == 0 {
        Seq::empty()
    } else {
        plain_pieces(items.drop_last()) + match opt_str(json_get(items.last(), "plain_text"@)) {
            Some(p) => p,
            None => Seq::empty(),
        }
    }
}

/// Collects an array of rich-text items as plain text only (no formatting);
/// used for page titles.
pub fn collect_rich_text_plain(items: &Vec<Json>) -> (r: String)
    ensures
        r@ == plain_pieces(items@),
{
    let mut out = String::new();
    let mut i: usize = 0;
    while i < items.len()
        invariant
            i <= items@.len(),
            out@ == plain_pieces(items@.take(i as int)),
        decreases items.len() - i,
    {
        match get_str(&items[i], "plain_text") {
            Some(p) => push_str(&mut out, p),
            None => {},
        }
        assert(items@.take(i + 1).drop_last() =~= items@.take(i as int));
        i += 1;
    }
    assert(items@.take(items@.len() as int) =~= items@);
    out
}

/// The URL of a file or image block: `file.url`, else `external.url`.
pub open spec fn file_url(data: Json) -> Option<Seq<char>> {
    match json_get(data, "file"@) {
        Some(f) => match opt_str(json_get(f, "url"@)) {
            Some(u) => Some(u),
            None => external_url(data),
        },
        None => external_url(data),
    }
}

pub open spec fn external_url(data: Json) -> Option<Seq<char>> {
    match json_get(data, "external"@) {
        Some(e) => opt_str(json_get(e, "url"@)),
        None => None,
    }
}

/// Resolves the URL of a Notion file or image block (hosted or external).
pub fn extract_file_url(data: &Json) -> (r: Option<String>)
    ensures
        r matches Some(s) ==> file_url(*data) == Some(s@),
        r is None ==> file_url(*data) is None,
{
    match data.get("file") {
        Some(f) => match get_str(f, "url") {
            Some(u) => return Some(owned(u)),
            None => {},
        },
        None => {},
    }
    match data.get("external") {
        Some(e) => match get_str(e, "url") {
            Some(u) => Some(owned(u)),
            None => None,
        },
        None => None,
    }
}

// ── Blocks ──────────────────────────────────────────────────────────────────

/// `text` followed by an empty line, behind `prefix`, when `text` is not empty.
pub open spec fn line_if_any(prefix: Seq<char>, text: Seq<char>) -> Seq<char> {
    if text.len() > 0 { prefix + text + "\n\n"@ } else { Seq::empty() }
}

/// A string member of a block's data, or `default` when it is missing.
pub open spec fn str_or(data: Json, key: Seq<char>, default: Seq<char>) -> Seq<char> {
    match opt_str(json_get(data, key)) {
        Some(s) => s,
        None => default,
    }
}

/// The Markdown of one block of the given type and data, at the given indent.
pub open spec fn kind_markdown(kind: Seq<char>, data: Json, prefix: Seq<char>) -> Seq<char> {
    let text = rich_text(json_get(data, "rich_text"@));
    if kind == "paragraph"@ {
        line_if_any(prefix, text)
    } else if kind == "heading_1"@ {
        prefix + "# "@ + text + "\n\n"@
    } else if kind == "heading_2"@ {
        prefix + "## "@ + text + "\n\n"@
    } else if kind == "heading_3"@ {
        prefix + "### "@ + text + "\n\n"@
    } else if kind == "bulleted_list_item"@ {
        prefix + "- "@ + text + "\n"@
    } else if kind == "numbered_list_item"@ {
        prefix + "1. "@ + text + "\n"@
    } else if kind == "to_do"@ {
        prefix + "- ["@ + (if opt_flag(json_get(data, "checked"@)) { "x"@ } else { " "@ }) + "] "@
            + text + "\n"@
    } else if kind == "toggle"@ {
        prefix + "**"@ + text + "**\n\n"@
    } else if kind == "quote"@ {
        prefix + "> "@ + text + "\n\n"@
    } else if kind == "callout"@ {
        prefix + "> "@ + text + "\n\n"@
    } else if kind == "code"@ {
        prefix + "```"@ + str_or(data, "language"@, Seq::empty()) + "\n"@ + text + "\n"@ + prefix
            + "```\n\n"@
    } else if kind == "divider"@ {
        prefix + "---\n\n"@
    } else if kind == "equation"@ {
        prefix + "$$\n"@ + str_or(data, "expression"@, Seq::empty()) + "\n$$\n\n"@
    } else if kind == "bookmark"@ {
        let url = str_or(data, "url"@, Seq::empty());
        if url.len() > 0 { prefix + "<"@ + url + ">\n\n"@ } else { Seq::empty() }
    } else if kind == "image"@ {
        let url = match file_url(data) {
            Some(u) => u,
            None => Seq::empty(),
        };
        if url.len() > 0 {
            prefix + "!["@ + rich_text(json_get(data, "caption"@)) + "]("@ + url + ")\n\n"@
        } else {
            Seq::empty()
        }
    } else if kind == "child_page"@ {
        prefix + "_[child page: "@ + str_or(data, "title"@, "untitled"@) + "]_\n\n"@
    } else if kind == "child_database"@ {
        prefix + "_[child database: "@ + str_or(data, "title"@, "untitled"@) + "]_\n\n"@
    } else if kind == "unsupported"@ {
        prefix + "_[unsupported Notion block skipped]_\n\n"@
    } else {
        line_if_any(prefix, text)
    }
}

/// The indent of a block's children: list items and to-dos indent two more
/// spaces, other blocks keep theirs.
pub open spec fn child_indent(kind: Seq<char>, indent: nat) -> nat {
    if kind == "bulleted_list_item"@ || kind == "numbered_list_item"@ || kind == "to_do"@ {
        indent + 2
    } else {
        indent
    }
}

/// The Markdown of one block (without its children); nothing for a block
/// without a `type`.
pub open spec fn block_markdown(block: Json, indent: nat) -> Seq<char> {
    match opt_str(json_get(block, "type"@)) {
        Some(kind) => kind_markdown(kind, json_field(block, kind), spaces(indent)),
        None => Seq::empty(),
    }
}

/// Where a block's children go: its id and their indent, when it has a
/// `type`, `has_children` is true and it has a string `id`.
pub open spec fn block_descent(block: Json, indent: nat) -> Option<(Seq<char>, nat)> {
    match opt_str(json_get(block, "type"@)) {
        Some(kind) => if opt_flag(json_get(block, "has_children"@)) {
            match opt_str(json_get(block, "id"@)) {
                Some(id) => Some((id, child_indent(kind, indent))),
                None => None,
            }
        } else {
            None
        },
        None => None,
    }
}

/// A block without a string `type` renders nothing and has no children
/// rendered, whatever else it holds.
pub proof fn law_untyped_block_renders_nothing(block: Json, indent: nat)
    requires
        opt_str(json_get(block, "type"@)) is None,
    ensures
        block_markdown(block, indent) == Seq::<char>::empty(),
        block_descent(block, indent) is None,
{
}

/// A block with children and a string id has them rendered: two spaces
/// deeper under a bulleted or numbered list item or a to-do, at its own
/// indent under any other block.
pub proof fn law_nested_children_indent(block: Json, indent: nat)
    requires
        opt_str(json_get(block, "type"@)) is Some,
        opt_flag(json_get(block, "has_children"@)),
        opt_str(json_get(block, "id"@)) is Some,
    ensures
        ({
            let kind = opt_str(json_get(block, "type"@))->0;
            let id = opt_str(json_get(block, "id"@))->0;
            &&& (kind == "bulleted_list_item"@ || kind == "numbered_list_item"@ || kind == "to_do"@)
                ==> block_descent(block, indent) == Some((id, indent + 2))
            &&& !(kind == "bulleted_list_item"@ || kind == "numbered_list_item"@ || kind == "to_do"@)
                ==> block_descent(block, indent) == Some((id, indent))
        }),
{
}

/// One block rendered: its own Markdown, and the block whose children are
/// to be rendered next, with the indent they take.
pub struct RenderedBlock {
    pub markdown: String,
    pub children_of: Option<String>,
    pub child_indent: usize,
}

fn str_member_or(data: &Json, key: &str, default: &str) -> (r: String)
    ensures
        r@ == str_or(*data, key@, default@),
{
    match get_str(data, key) {
        Some(s) => owned(s),
        None => owned(default),
    }
}

fn kind_is(kind: &str, name: &str) -> (r: bool)
    ensures
        r == (kind@ == name@),
{
    str_eq(kind, name)
}

/// Pushes each piece in turn.
fn join3(a: &str, b: &str, c: &str) -> (r: String)
    ensures
        r@ == a@ + b@ + c@,
{
    let mut out = owned(a);
    push_str(&mut out, b);
    push_str(&mut out, c);
    out
}

fn join4(a: &str, b: &str, c: &str, d: &str) -> (r: String)
    ensures
        r@ == a@ + b@ + c@ + d@,
{
    let mut out = join3(a, b, c);
    push_str(&mut out, d);
    out
}

/// Renders a block of the given type and data.
pub fn render_kind(kind: &str, data: &Json, prefix: &str) -> (r: String)
    ensures
        r@ == kind_markdown(kind@, *data, prefix@),
{
    proof {
        reveal_strlit("");
    }
    let text = render_rich_text(data.get("rich_text"));
    let t = text.as_str();
    if kind_is(kind, "paragraph") {
        if t.is_empty() { String::new() } else { join3(prefix, t, "\n\n") }
    } else if kind_is(kind, "heading_1") {
        join4(prefix, "# ", t, "\n\n")
    } else if kind_is(kind, "heading_2") {
        join4(prefix, "## ", t, "\n\n")
    } else if kind_is(kind, "heading_3") {
        join4(prefix, "### ", t, "\n\n")
    } else if kind_is(kind, "bulleted_list_item") {
        join4(prefix, "- ", t, "\n")
    } else if kind_is(kind, "numbered_list_item") {
        join4(prefix, "1. ", t, "\n")
    } else if kind_is(kind, "to_do") {
        let checked = match data.get("checked") {
            Some(c) => match c.as_bool() {
                Some(b) => b,
                None => false,
            },
            None => false,
        };
        let mark = if checked { "x" } else { " " };
        let mut out = join3(prefix, "- [", mark);
        push_str(&mut out, "] ");
        push_str(&mut out, t);
        push_str(&mut out, "\n");
        out
    } else if kind_is(kind, "toggle") {
        join4(prefix, "**", t, "**\n\n")
    } else if kind_is(kind, "quote") {
        join4(prefix, "> ", t, "\n\n")
    } else if kind_is(kind, "callout") {
        join4(prefix, "> ", t, "\n\n")
    } else if kind_is(kind, "code") {
        let lang = str_member_or(data, "language", "");
        let mut out = join4(prefix, "```", lang.as_str(), "\n");
        push_str(&mut out, t);
        push_str(&mut out, "\n");
        push_str(&mut out, prefix);
        push_str(&mut out, "```\n\n");
        out
    } else if kind_is(kind, "divider") {
        join3(prefix, "---\n\n", "")
    } else if kind_is(kind, "equation") {
        let expr = str_member_or(data, "expression", "");
        join4(prefix, "$$\n", expr.as_str(), "\n$$\n\n")
    } else if kind_is(kind, "bookmark") {
        let url = str_member_or(data, "url", "");
        if url.as_str().is_empty() {
            String::new()
        } else {
            join4(prefix, "<", url.as_str(), ">\n\n")
        }
    } else if kind_is(kind, "image") {
        let url = match extract_file_url(data) {
            Some(u) => u,
            None => String::new(),
        };
        let caption = render_rich_text(data.get("caption"));
        if url.as_str().is_empty() {
            String::new()
        } else {
            let mut out = join4(prefix, "![", caption.as_str(), "](");
            push_str(&mut out, url.as_str());
            push_str(&mut out, ")\n\n");
            out
        }
    } else if kind_is(kind, "child_page") {
        let title = str_member_or(data, "title", "untitled");
        join4(prefix, "_[child page: ", title.as_str(), "]_\n\n")
    } else if kind_is(kind, "child_database") {
        let title = str_member_or(data, "title", "untitled");
        join4(prefix, "_[child database: ", title.as_str(), "]_\n\n")
    } else if kind_is(kind, "unsupported") {
        join3(prefix, "_[unsupported Notion block skipped]_\n\n", "")
    } else {
        if t.is_empty() { String::new() } else { join3(prefix, t, "\n\n") }
    }
}

/// Renders a single block at the given indent and says whether, and where,
/// its children are to be rendered.
pub fn render_block(block: &Json, indent: usize) -> (r: RenderedBlock)
    requires
        indent + 2 <= usize::MAX,
    ensures
        r.markdown@ == block_markdown(*block, indent as nat),
        block_descent(*block, indent as nat) matches Some((id, ci)) ==> r.children_of matches Some(
            c,
        ) && c@ == id && r.child_indent == ci,
        block_descent(*block, indent as nat) is None ==> r.children_of is None,
{
    let kind = match get_str(block, "type") {
        Some(k) => k,
        None => {
            return RenderedBlock { markdown: String::new(), children_of: None, child_indent: indent };
        },
    };
    let null = Json::Null;
    let data: &Json = match block.get(kind) {
        Some(d) => d,
        None => &null,
    };
    let prefix = space_string(indent);
    let markdown = render_kind(kind, data, prefix.as_str());
    let has_children = get_flag_direct(block, "has_children");
    let next_indent = if kind_is(kind, "bulleted_list_item") || kind_is(kind, "numbered_list_item")
        || kind_is(kind, "to_do") {
        indent + 2
    } else {
        indent
    };
    let children_of = if has_children {
        match get_str(block, "id") {
            Some(id) => Some(owned(id)),
            None => None,
        }
    } else {
        None
    };
    RenderedBlock { markdown, children_of, child_indent: next_indent }
}

fn get_flag_direct(item: &Json, key: &str) -> (r: bool)
    ensures
        r == opt_flag(json_get(*item, key@)),
{
    match item.get(key) {
        Some(b) => match b.as_bool() {
            Some(x) => x,
            None => false,
        },
        None => false,
    }
}

// ── Pages, pagination, document ────────────────────────────────────────────

/// The plain title carried by a page property: its rich text when its `type`
/// is `"title"`, else nothing.
pub open spec fn property_title(prop: Json) -> Seq<char> {
    if opt_str(json_get(prop, "type"@)) == Some("title"@) {
        match json_get(prop, "title"@) {
            Some(Json::Array(items)) => plain_pieces(items@),
            _ => Seq::empty(),
        }
    } else {
        Seq::empty()
    }
}

/// The first non-empty property title, in property order.
pub open spec fn first_title(props: Seq<(String, Json)>) -> Option<Seq<char>>
    decreases props.len(),
{
    if props.len() == 0 {
        None
    } else if property_title(props[0].1).len() > 0 {
        Some(property_title(props[0].1))
    } else {
        first_title(props.drop_first())
    }
}

/// A page's human-readable title, read from its `properties` object.
pub open spec fn spec_page_title(page: Json) -> Option<Seq<char>> {
    match json_get(page, "properties"@) {
        Some(Json::Object(props)) => first_title(props@),
        _ => None,
    }
}

fn property_title_of(prop: &Json) -> (r: String)
    ensures
        r@ == property_title(*prop),
{
    proof {
        reveal_strlit("");
    }
    let is_title = match get_str(prop, "type") {
        Some(t) => str_eq(t, "title"),
        None => false,
    };
    if !is_title {
        return String::new();
    }
    match prop.get("title") {
        Some(Json::Array(items)) => collect_rich_text_plain(items),
        _ => String::new(),
    }
}

/// A page's title: the plain text of the first property whose type is
/// `"title"` and whose text is not empty.
pub fn page_title(page: &Json) -> (r: Option<String>)
    ensures
        r matches Some(t) ==> spec_page_title(*page) == Some(t@),
        r is None ==> spec_page_title(*page) is None,
{
    match page.get("properties") {
        Some(Json::Object(props)) => {
            let mut i: usize = 0;
            assert(props@.skip(0) =~= props@);
            while i < props.len()
                invariant
                    i <= props@.len(),
                    first_title(props@) == first_title(props@.skip(i as int)),
                    spec_page_title(*page) == first_title(props@),
                decreases props.len() - i,
            {
                assert(props@.skip(i as int).drop_first() =~= props@.skip(i + 1));
                assert(props@.skip(i as int)[0] == props@[i as int]);
                let t = property_title_of(&props[i].1);
                if !t.as_str().is_empty() {
                    return Some(t);
                }
                i += 1;
            }
            None
        },
        _ => None,
    }
}

/// `<api>/pages/<id>`.
pub fn page_url(page_id: &str) -> (r: String)
    ensures
        r@ == NOTION_API@ + "/pages/"@ + page_id@,
{
    join3(NOTION_API, "/pages/", page_id)
}

/// The URL of one page of a block's children, continuing at `cursor` if given.
pub open spec fn spec_children_url(block_id: Seq<char>, cursor: Option<Seq<char>>) -> Seq<char> {
    let base = NOTION_API@ + "/blocks/"@ + block_id + "/children?page_size=100"@;
    match cursor {
        Some(c) => base + "&start_cursor="@ + c,
        None => base,
    }
}

pub fn children_url(block_id: &str, cursor: Option<&str>) -> (r: String)
    ensures
        r@ == spec_children_url(block_id@, match cursor {
            Some(c) => Some(c@),
            None => None,
        }),
{
    let mut url = join4(NOTION_API, "/blocks/", block_id, "/children?page_size=100");
    match cursor {
        Some(c) => {
            push_str(&mut url, "&start_cursor=");
            push_str(&mut url, c);
        },
        None => {},
    }
    url
}

/// Where the next page of children starts: the `next_cursor` string when
/// `has_more` is true.
pub open spec fn spec_next_cursor(page: Json) -> Option<Seq<char>> {
    if opt_flag(json_get(page, "has_more"@)) {
        opt_str(json_get(page, "next_cursor"@))
    } else {
        None
    }
}

pub fn next_cursor(page: &Json) -> (r: Option<String>)
    ensures
        r matches Some(c) ==> spec_next_cursor(*page) == Some(c@),
        r is None ==> spec_next_cursor(*page) is None,
{
    if !get_flag_direct(page, "has_more") {
        return None;
    }
    match get_str(page, "next_cursor") {
        Some(c) => Some(owned(c)),
        None => None,
    }
}

/// The blocks of one page of children: its `results` array, when it has one.
pub fn page_results(page: &Json) -> (r: Option<&Vec<Json>>)
    ensures
        r matches Some(v) ==> json_get(*page, "results"@) == Some(Json::Array(*v)),
        r is None ==> !(json_get(*page, "results"@) matches Some(Json::Array(_))),
{
    match page.get("results") {
        Some(Json::Array(v)) => Some(v),
        _ => None,
    }
}

/// The Markdown document of a page: its title as heading, then its body.
pub fn notion_document(display_title: &str, body: &str) -> (r: String)
    ensures
        r@ == "# "@ + display_title@ + "\n\n"@ + body@,
{
    join4("# ", display_title, "\n\n", body)
}

/// The file a page is written to: its configured title, made safe, with `.md`.
pub fn notion_output_name(title: &str) -> (r: String)
    ensures
        r@ == spec_safe_filename(title@) + ".md"@,
{
    let mut name = safe_filename(title);
    push_str(&mut name, ".md");
    name
}

/// The title heading the document: the page's own title when it has one,
/// else the configured title.
pub fn display_title(page_title: Option<String>, configured: &str) -> (r: String)
    ensures
        r@ == match page_title {
            Some(t) => t@,
            None => configured@,
        },
{
    match page_title {
        Some(t) => t,
        None => owned(configured),
    }
}

} // verus!
