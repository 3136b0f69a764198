use nlm::json::Json;
use nlm::notebooklm::auth::{extract_token, google_cookie_header, jar_cookies, session_tokens, AuthError};

fn cookie(name: &str, value: &str, domain: &str) -> Json {
    Json::Object(vec![
        ("name".to_string(), Json::Str(name.to_string())),
        ("value".to_string(), Json::Str(value.to_string())),
        ("domain".to_string(), Json::Str(domain.to_string())),
    ])
}

fn state(cookies: Vec<Json>) -> Json {
    Json::Object(vec![("cookies".to_string(), Json::Array(cookies))])
}

#[test]
fn cookie_header_keeps_google_cookies_in_order() {
    let st = state(vec![
        cookie("SID", "abc", ".google.com"),
        cookie("X", "1", "example.com"),
        cookie("HSID", "def", "accounts.google.com"),
        cookie("U", "2", ".googleusercontent.com"),
    ]);
    assert!(matches!(google_cookie_header(&st), Ok(ref h) if h == "SID=abc; HSID=def"));
}

#[test]
fn cookie_header_errors() {
    assert!(matches!(google_cookie_header(&Json::Object(vec![])), Err(AuthError::MissingCookies)));
    let none = state(vec![cookie("X", "1", "example.com")]);
    assert!(matches!(google_cookie_header(&none), Err(AuthError::NoGoogleCookies)));
}

#[test]
fn jar_cookies_cover_google_family_domains() {
    let st = state(vec![
        cookie("SID", "abc", ".google.com"),
        cookie("U", "2", ".googleusercontent.com"),
        cookie("E", "", ".google.com"),
        cookie("X", "1", "example.com"),
        cookie("A", "3", "storage.googleapis.com"),
    ]);
    let jar = jar_cookies(&st);
    let got: Vec<(&str, &str)> = jar.iter().map(|c| (c.set_cookie.as_str(), c.url.as_str())).collect();
    assert_eq!(
        got,
        vec![
            ("SID=abc; Domain=.google.com; Path=/", "https://google.com/"),
            ("U=2; Domain=.googleusercontent.com; Path=/", "https://googleusercontent.com/"),
            ("A=3; Domain=storage.googleapis.com; Path=/", "https://storage.googleapis.com/"),
        ]
    );
    assert!(jar_cookies(&Json::Null).is_empty());
}

#[test]
fn tokens_are_extracted_from_the_home_page() {
    let html = r#"<script>window.WIZ_global_data = {"SNlM0e":"csrf-123","FdrFJe":"-4567","x":""};</script>"#;
    assert_eq!(extract_token(html, "SNlM0e").as_deref(), Some("csrf-123"));
    assert_eq!(extract_token(html, "FdrFJe").as_deref(), Some("-4567"));
    assert_eq!(extract_token(html, "x"), None);
    assert_eq!(extract_token(html, "missing"), None);
    assert!(matches!(session_tokens(html), Ok((ref a, ref b)) if a == "csrf-123" && b == "-4567"));
}

#[test]
fn missing_tokens_are_reported() {
    assert!(matches!(session_tokens("<html></html>"), Err(AuthError::MissingCsrfToken)));
    assert!(matches!(session_tokens(r#"{"SNlM0e":"a"}"#), Err(AuthError::MissingSessionId)));
}
