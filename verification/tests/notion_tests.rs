use nlm::adapters::notion::{
    children_url, collect_rich_text_plain, display_title, extract_file_url, next_cursor, notion_document,
    notion_output_name, page_results, page_title, page_url, render_block, render_kind, render_rich_piece,
    render_rich_text, NOTION_API,
};
use nlm::json::Json;

fn o(entries: Vec<(&str, Json)>) -> Json {
    Json::Object(entries.into_iter().map(|(k, v)| (k.to_string(), v)).collect())
}

fn t(s: &str) -> Json {
    Json::Str(s.to_string())
}

fn plain(s: &str) -> Json {
    o(vec![("plain_text", t(s))])
}

fn rich(items: Vec<Json>) -> Json {
    o(vec![("rich_text", Json::Array(items))])
}

#[test]
fn rich_text_annotations_wrap_in_order() {
    let item = o(vec![
        ("plain_text", t("x")),
        (
            "annotations",
            o(vec![
                ("bold", Json::Bool(true)),
                ("italic", Json::Bool(true)),
                ("strikethrough", Json::Bool(true)),
                ("code", Json::Bool(true)),
            ]),
        ),
        ("href", t("https://a.example")),
    ]);
    assert_eq!(render_rich_piece(&item), "[***~~`x`~~***](https://a.example)");
    let empty_link = o(vec![("plain_text", t("y")), ("href", t(""))]);
    assert_eq!(render_rich_piece(&empty_link), "y");
    assert_eq!(render_rich_piece(&o(vec![("plain_text", t(""))])), "");
    assert_eq!(render_rich_piece(&o(vec![])), "");
}

#[test]
fn rich_text_joins_items_and_ignores_non_arrays() {
    let arr = Json::Array(vec![plain("Hello "), plain(""), plain("world")]);
    assert_eq!(render_rich_text(Some(&arr)), "Hello world");
    assert_eq!(render_rich_text(Some(&t("not an array"))), "");
    assert_eq!(render_rich_text(None), "");
    let items = vec![plain("a"), o(vec![("annotations", o(vec![]))]), plain("b")];
    assert_eq!(collect_rich_text_plain(&items), "ab");
}

#[test]
fn file_urls_hosted_then_external() {
    let hosted = o(vec![("file", o(vec![("url", t("https://h"))])), ("external", o(vec![("url", t("https://e"))]))]);
    assert_eq!(extract_file_url(&hosted).as_deref(), Some("https://h"));
    let external = o(vec![("external", o(vec![("url", t("https://e"))]))]);
    assert_eq!(extract_file_url(&external).as_deref(), Some("https://e"));
    assert_eq!(extract_file_url(&o(vec![])), None);
}

#[test]
fn blocks_render_by_type() {
    let text = rich(vec![plain("Hi")]);
    assert_eq!(render_kind("paragraph", &text, "  "), "  Hi\n\n");
    assert_eq!(render_kind("paragraph", &rich(vec![]), "  "), "");
    assert_eq!(render_kind("heading_1", &text, ""), "# Hi\n\n");
    assert_eq!(render_kind("heading_2", &text, ""), "## Hi\n\n");
    assert_eq!(render_kind("heading_3", &text, ""), "### Hi\n\n");
    assert_eq!(render_kind("bulleted_list_item", &text, "  "), "  - Hi\n");
    assert_eq!(render_kind("numbered_list_item", &text, ""), "1. Hi\n");
    let todo = o(vec![("rich_text", Json::Array(vec![plain("Do")])), ("checked", Json::Bool(true))]);
    assert_eq!(render_kind("to_do", &todo, ""), "- [x] Do\n");
    assert_eq!(render_kind("to_do", &text, ""), "- [ ] Hi\n");
    assert_eq!(render_kind("toggle", &text, ""), "**Hi**\n\n");
    assert_eq!(render_kind("quote", &text, ""), "> Hi\n\n");
    assert_eq!(render_kind("callout", &text, ""), "> Hi\n\n");
    let code = o(vec![("rich_text", Json::Array(vec![plain("fn main() {}")])), ("language", t("rust"))]);
    assert_eq!(render_kind("code", &code, "  "), "  ```rust\nfn main() {}\n  ```\n\n");
    assert_eq!(render_kind("divider", &Json::Null, ""), "---\n\n");
    assert_eq!(render_kind("equation", &o(vec![("expression", t("e=mc^2"))]), ""), "$$\ne=mc^2\n$$\n\n");
    assert_eq!(render_kind("bookmark", &o(vec![("url", t("https://b"))]), ""), "<https://b>\n\n");
    assert_eq!(render_kind("bookmark", &o(vec![]), ""), "");
    let image = o(vec![
        ("external", o(vec![("url", t("https://img"))])),
        ("caption", Json::Array(vec![plain("cap")])),
    ]);
    assert_eq!(render_kind("image", &image, ""), "![cap](https://img)\n\n");
    assert_eq!(render_kind("image", &o(vec![]), ""), "");
    assert_eq!(render_kind("child_page", &o(vec![("title", t("Sub"))]), ""), "_[child page: Sub]_\n\n");
    assert_eq!(render_kind("child_database", &o(vec![]), ""), "_[child database: untitled]_\n\n");
    assert_eq!(render_kind("unsupported", &Json::Null, ""), "_[unsupported Notion block skipped]_\n\n");
    assert_eq!(render_kind("table", &text, ""), "Hi\n\n");
}

#[test]
fn block_children_indent_for_list_items_only() {
    let item = o(vec![
        ("type", t("bulleted_list_item")),
        ("bulleted_list_item", rich(vec![plain("One")])),
        ("has_children", Json::Bool(true)),
        ("id", t("blk-1")),
    ]);
    let r = render_block(&item, 2);
    assert_eq!(r.markdown, "  - One\n");
    assert_eq!(r.children_of.as_deref(), Some("blk-1"));
    assert_eq!(r.child_indent, 4);

    let toggle = o(vec![
        ("type", t("toggle")),
        ("toggle", rich(vec![plain("More")])),
        ("has_children", Json::Bool(true)),
        ("id", t("blk-2")),
    ]);
    let r2 = render_block(&toggle, 2);
    assert_eq!(r2.markdown, "  **More**\n\n");
    assert_eq!(r2.children_of.as_deref(), Some("blk-2"));
    assert_eq!(r2.child_indent, 2);

    let leaf = o(vec![("type", t("divider")), ("has_children", Json::Bool(false)), ("id", t("blk-3"))]);
    assert_eq!(render_block(&leaf, 0).children_of, None);
    let untyped = o(vec![("id", t("x")), ("has_children", Json::Bool(true))]);
    let r3 = render_block(&untyped, 0);
    assert_eq!(r3.markdown, "");
    assert_eq!(r3.children_of, None);
}

#[test]
fn page_title_from_title_property() {
    let page = o(vec![(
        "properties",
        o(vec![
            ("Status", o(vec![("type", t("select"))])),
            ("Empty", o(vec![("type", t("title")), ("title", Json::Array(vec![]))])),
            ("Name", o(vec![("type", t("title")), ("title", Json::Array(vec![plain("Road"), plain("map")]))])),
        ]),
    )]);
    assert_eq!(page_title(&page).as_deref(), Some("Roadmap"));
    assert_eq!(page_title(&o(vec![])), None);
    assert_eq!(display_title(page_title(&page), "Configured"), "Roadmap");
    assert_eq!(display_title(None, "Configured"), "Configured");
}

#[test]
fn notion_urls_and_pagination() {
    assert_eq!(page_url("abc"), format!("{NOTION_API}/pages/abc"));
    assert_eq!(children_url("abc", None), "https://api.notion.com/v1/blocks/abc/children?page_size=100");
    assert_eq!(
        children_url("abc", Some("cur")),
        "https://api.notion.com/v1/blocks/abc/children?page_size=100&start_cursor=cur"
    );
    let more = o(vec![("has_more", Json::Bool(true)), ("next_cursor", t("c2")), ("results", Json::Array(vec![]))]);
    assert_eq!(next_cursor(&more).as_deref(), Some("c2"));
    let done = o(vec![("has_more", Json::Bool(false)), ("next_cursor", t("c2"))]);
    assert_eq!(next_cursor(&done), None);
    let no_cursor = o(vec![("has_more", Json::Bool(true)), ("next_cursor", Json::Null)]);
    assert_eq!(next_cursor(&no_cursor), None);
    assert_eq!(page_results(&more).map(|v| v.len()), Some(0));
    assert!(page_results(&done).is_none());
}

#[test]
fn notion_document_and_file_name() {
    assert_eq!(notion_document("Roadmap", "body\n"), "# Roadmap\n\nbody\n");
    assert_eq!(notion_output_name("A/B: C"), "A-B- C.md");
}
