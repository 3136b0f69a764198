use nlm::adapters::confluence::{
    build_md_with_step, confluence_api_url, confluence_credentials, confluence_markdown, ConfluenceError,
    DEFAULT_BASE_URL,
};
use nlm::adapters::file::{
    extension, file_dest_name, file_source_path, is_relative_source, is_supported_extension, path_extension, stem,
};
use nlm::adapters::url::url_markdown;
use nlm::adapters::{
    adapter_for_source, charter_written, convert_or_raw, markdown_file_name, sync_label, sync_result, AdapterKind, ConfluenceAdapter,
    FileAdapter, NotionAdapter, PptxAdapter, SourceAdapter, SyncOutcome, UrlAdapter,
};
use nlm::config::Source;
use nlm::json::Json;

fn obj(entries: Vec<(&str, Json)>) -> Json {
    Json::Object(entries.into_iter().map(|(k, v)| (k.to_string(), v)).collect())
}

fn jstr(s: &str) -> Json {
    Json::Str(s.to_string())
}

fn url_source() -> Source {
    Source::Url { url: "https://example.com/report.html".to_string(), title: "Market Report".to_string() }
}

#[test]
fn url_page_html_is_converted_to_markdown() {
    let md = url_markdown(
        "Market Report",
        "https://example.com/report.html",
        "text/html; charset=utf-8",
        "<h1>Title</h1><p>Hello <strong>world</strong></p>",
    );
    assert!(md.starts_with("# Market Report\n\n_Source: https://example.com/report.html_\n\n---\n\n"));
    let body = &md["# Market Report\n\n_Source: https://example.com/report.html_\n\n---\n\n".len()..];
    assert!(!body.contains("<h1>"));
    assert!(!body.contains("<strong>"));
    assert!(body.contains("Title"));
    assert!(body.contains("**world**"));
}

#[test]
fn url_page_that_is_not_html_is_kept_as_fetched() {
    let md = url_markdown("Notes", "https://example.com/a.txt", "text/plain", "<b>raw</b>");
    assert_eq!(md, "# Notes\n\n_Source: https://example.com/a.txt_\n\n---\n\n<b>raw</b>");
}

#[test]
fn html_conversion_changes_markup() {
    let out = convert_or_raw("<p>one</p><p>two</p>");
    assert!(!out.contains("<p>"));
    assert!(out.contains("one") && out.contains("two"));
}

#[test]
fn markdown_file_names_are_safe() {
    assert_eq!(markdown_file_name("ADR: 1/2"), "ADR- 1-2.md");
}

#[test]
fn adapters_are_chosen_by_source_type() {
    assert_eq!(adapter_for_source(&url_source()), AdapterKind::Url);
    let file = Source::File { path: "a.md".to_string(), title: "A".to_string() };
    assert_eq!(adapter_for_source(&file), AdapterKind::File);
    let pptx = Source::Pptx { path: "t.pptx".to_string(), title: "T".to_string(), dry_run: Some(true) };
    assert_eq!(adapter_for_source(&pptx), AdapterKind::Pptx);
    assert!(PptxAdapter.accepts(&pptx));
    assert_eq!(PptxAdapter.kind(), AdapterKind::Pptx);
    assert!(!charter_written(Some(true)));
    assert!(charter_written(Some(false)));
    assert!(charter_written(None));
    assert!(UrlAdapter.accepts(&url_source()));
    assert!(!FileAdapter.accepts(&url_source()));
    assert!(FileAdapter.accepts(&file));
    assert_eq!(NotionAdapter.kind(), AdapterKind::Notion);
    assert_eq!(ConfluenceAdapter.kind(), AdapterKind::Confluence);
    assert!(!NotionAdapter.accepts(&pptx));
}

#[test]
fn sync_report_lines() {
    let label = sync_label(&url_source());
    assert_eq!(label, format!("  [url] {:<55}", "Market Report"));
    assert_eq!(label.chars().count(), "  [url] ".len() + 55);
    assert_eq!(sync_result(&SyncOutcome::Written(Some(0))), "✓  (1 KB)");
    assert_eq!(sync_result(&SyncOutcome::Written(Some(2048))), "✓  (3 KB)");
    assert_eq!(sync_result(&SyncOutcome::Written(None)), "✓  (0 KB)");
    assert_eq!(sync_result(&SyncOutcome::Skipped), "skipped");
    assert_eq!(sync_result(&SyncOutcome::Failed("boom".to_string())), "✗  boom");
}

#[test]
fn file_sources_resolve_against_home_and_cwd() {
    assert_eq!(file_source_path("~/notes/a.md", "/home/me", "/work"), "/home/me/notes/a.md");
    assert_eq!(file_source_path("/abs/a.md", "/home/me", "/work"), "/abs/a.md");
    assert_eq!(file_source_path("docs/local-notes.md", "/home/me", "/work/"), "/work/docs/local-notes.md");
    assert!(is_relative_source("docs/a.md"));
    assert!(is_relative_source("./a.md"));
    assert!(!is_relative_source("~/a.md"));
    assert!(!is_relative_source("/a.md"));
    assert!(is_supported_extension("md"));
    assert!(is_supported_extension("txt"));
    assert!(is_supported_extension("pdf"));
    assert!(!is_supported_extension("docx"));
    assert!(!is_supported_extension("MD"));
    assert_eq!(path_extension("/work/docs/local-notes.md"), "md");
    assert_eq!(path_extension("/work/v1.2/README"), "");
    assert_eq!(file_dest_name("Local Notes", "md"), "Local Notes.md");
    assert_eq!(file_dest_name("../notes", "md"), "..-notes.md");
    assert_eq!(file_dest_name("a/b:c", "pdf"), "a-b-c.pdf");
}

#[test]
fn extension_and_stem_follow_path_rules() {
    assert_eq!(extension("a.tar.gz").as_deref(), Some("gz"));
    assert_eq!(extension(".hidden"), None);
    assert_eq!(extension("noext"), None);
    assert_eq!(extension("trailing.").as_deref(), Some(""));
    assert_eq!(stem("a.tar.gz"), "a.tar");
    assert_eq!(stem(".hidden"), ".hidden");
    assert_eq!(stem("noext"), "noext");
}

#[test]
fn confluence_credentials_priority() {
    let ok = confluence_credentials(Some("u".to_string()), Some("t".to_string()), Some("m".to_string()));
    assert!(matches!(ok, Ok((ref u, ref t)) if u == "u" && t == "t"));
    let mcp = confluence_credentials(Some("u".to_string()), None, Some("m".to_string()));
    assert!(matches!(mcp, Err(ConfluenceError::McpNotSupported)));
    let none = confluence_credentials(None, Some("t".to_string()), None);
    assert!(matches!(none, Err(ConfluenceError::NoCredentials)));
    assert!(ConfluenceError::NoCredentials.message().starts_with("No Confluence credentials found in .env."));
    assert_eq!(
        ConfluenceError::MissingBody.message(),
        "Missing body.export_view.value in Confluence response"
    );
}

#[test]
fn confluence_api_url_prefers_source_then_env_then_default() {
    assert_eq!(
        confluence_api_url("123456", Some("https://yourcompany.atlassian.net//"), Some("https://env.example")),
        "https://yourcompany.atlassian.net/wiki/rest/api/content/123456"
    );
    assert_eq!(
        confluence_api_url("7", None, Some("https://env.example/")),
        "https://env.example/wiki/rest/api/content/7"
    );
    assert_eq!(confluence_api_url("7", None, None), format!("{DEFAULT_BASE_URL}/wiki/rest/api/content/7"));
}

#[test]
fn step_headings_need_number_and_label() {
    assert_eq!(
        build_md_with_step("ADR", "body", Some(2), Some("Design")),
        "## Étape 2 — Design\n\n### ADR\n\nbody"
    );
    assert_eq!(build_md_with_step("ADR", "body", Some(2), None), "body");
    assert_eq!(build_md_with_step("ADR", "body", None, Some("Design")), "body");
}

#[test]
fn confluence_page_markdown() {
    let data = obj(vec![
        ("title", jstr("Real Title")),
        ("body", obj(vec![("export_view", obj(vec![("value", jstr("<p>Hi</p>"))]))])),
    ]);
    let md = match confluence_markdown(&data, "Configured", None, None) {
        Ok(m) => m,
        Err(_) => panic!("expected markdown"),
    };
    assert!(md.starts_with("# Real Title\n\n"));
    assert!(md.contains("Hi") && !md.contains("<p>"));

    let stepped = match confluence_markdown(&data, "Configured", Some(3), Some("Run")) {
        Ok(m) => m,
        Err(_) => panic!("expected markdown"),
    };
    assert!(stepped.starts_with("## Étape 3 — Run\n\n### Configured\n\n"));
    assert!(!stepped.contains("# Real Title"));

    let step_only = match confluence_markdown(&data, "Configured", Some(3), None) {
        Ok(m) => m,
        Err(_) => panic!("expected markdown"),
    };
    assert!(step_only.starts_with("# Real Title\n\n"));

    let untitled = obj(vec![("body", obj(vec![("export_view", obj(vec![("value", jstr("x"))]))]))]);
    let md2 = match confluence_markdown(&untitled, "Configured", None, None) {
        Ok(m) => m,
        Err(_) => panic!("expected markdown"),
    };
    assert!(md2.starts_with("# Configured\n\n"));

    let missing = obj(vec![("title", jstr("T"))]);
    assert!(matches!(confluence_markdown(&missing, "T", None, None), Err(ConfluenceError::MissingBody)));
}
