use vstd::prelude::*;

use crate::json::{json_field, json_get, json_str, opt_str, Json};
use crate::text::{ends_with, has_suffix, join_with, occurs_at, owned, push_str, views};

verus! {

/// All session material needed for every RPC call.
pub struct AuthTokens {
    /// Raw cookies as a single `Cookie: k=v; k2=v2` header value.
    pub cookie_header: String,
    /// CSRF token, passed as `at=<snlm0e>` in every batchexecute call.
    pub snlm0e: String,
    /// Session id, passed as `f.sid=<fdrfje>` in URL parameters.
    pub fdrfje: String,
}

/// Why the saved session could not be used.
pub enum AuthError {
    /// The storage state has no `cookies` array.
    MissingCookies,
    /// No cookie of a Google domain was found.
    NoGoogleCookies,
    /// The page did not hold the CSRF token.
    MissingCsrfToken,
    /// The page did not hold the session id.
    MissingSessionId,
}

// ── Cookie header ───────────────────────────────────────────────────────────

/// Whether a cookie domain counts as Google's for the session header.
pub open spec fn is_google_domain(d: Seq<char>) -> bool {
    has_suffix(d, ".google.com"@) || has_suffix(d, "google.com"@)
}

/// `name=value` of a cookie entry sent in the header: its domain is a
/// Google domain and its name and value are strings.
pub open spec fn header_cookie(c: Json) -> Option<Seq<char>> {
    match opt_str(json_get(c, "domain"@)) {
        Some(d) => if is_google_domain(d) {
            match (json_str(json_field(c, "name"@)), json_str(json_field(c, "value"@))) {
                (Some(n), Some(v)) => Some(n + "="@ + v),
                _ => None,
            }
        } else {
            None
        },
        None => None,
    }
}

pub open spec fn header_cookies(cs: Seq<Json>) -> Seq<Seq<char>>
    decreases cs.len(),
{
    if cs.len() == 0 {
        Seq::empty()
    } else {
        match header_cookie(cs.last()) {
            Some(p) => header_cookies(cs.drop_last()).push(p),
            None => header_cookies(cs.drop_last()),
        }
    }
}

fn member_str<'a>(c: &'a Json, key: &str) -> (r: Option<&'a str>)
    ensures
        r matches Some(s) ==> opt_str(json_get(*c, key@)) == Some(s@),
        r is None ==> opt_str(json_get(*c, key@)) is None,
{
    match c.get(key) {
        Some(v) => v.as_str(),
        None => None,
    }
}

fn cookie_pair(c: &Json) -> (r: Option<String>)
    ensures
        r matches Some(p) ==> header_cookie(*c) == Some(p@),
        r is None ==> header_cookie(*c) is None,
{
    let d = match member_str(c, "domain") {
        Some(d) => d,
        None => return None,
    };
    if !(ends_with(d, ".google.com") || ends_with(d, "google.com")) {
        return None;
    }
    match (member_str(c, "name"), member_str(c, "value")) {
        (Some(n), Some(v)) => {
            let mut p = owned(n);
            push_str(&mut p, "=");
            push_str(&mut p, v);
            Some(p)
        },
        _ => None,
    }
}

/// The `Cookie` header built from a Playwright storage state
/// (`{"cookies": [{"name", "value", "domain", ...}]}`): `name=value` of each
/// Google-domain cookie, in order, joined with `; `. Errors when there is
/// no `cookies` array or no such cookie.
pub fn google_cookie_header(state: &Json) -> (r: Result<String, AuthError>)
    ensures
        match json_get(*state, "cookies"@) {
            Some(Json::Array(cs)) => if header_cookies(cs@).len() == 0 {
                r matches Err(AuthError::NoGoogleCookies)
            } else {
                r matches Ok(h) && h@ == join_with(header_cookies(cs@), "; "@)
            },
            _ => r matches Err(AuthError::MissingCookies),
        },
{
    let cookies = match state.get("cookies") {
        Some(Json::Array(cs)) => cs,
        _ => return Err(AuthError::MissingCookies),
    };
    let mut pairs: Vec<String> = Vec::new();
    let mut i: usize = 0;
    assert(views(pairs@) =~= Seq::empty());
    while i < cookies.len()
        invariant
            i <= cookies@.len(),
            views(pairs@) == header_cookies(cookies@.take(i as int)),
        decreases cookies.len() - i,
    {
        assert(cookies@.take(i + 1).drop_last() =~= cookies@.take(i as int));
        match cookie_pair(&cookies[i]) {
            Some(p) => {
                let ghost before = pairs@;
                pairs.push(p);
                assert(views(pairs@) =~= views(before).push(header_cookie(cookies@[i as int]).unwrap()));
            },
            None => {},
        }
        i += 1;
    }
    assert(cookies@.take(cookies@.len() as int) =~= cookies@);
    if pairs.len() == 0 {
        return Err(AuthError::NoGoogleCookies);
    }
    Ok(crate::text::join_strings(&pairs, "; "))
}

// ── Cookie jar for downloads ────────────────────────────────────────────────

/// A cookie to put in the download jar: the `Set-Cookie` text and the URL it
/// is set for.
pub struct JarCookie {
    pub set_cookie: String,
    pub url: String,
}

/// Google-family domains: `google.com`, `googleapis.com`, `googleusercontent.com`.
pub open spec fn is_google_family(d: Seq<char>) -> bool {
    has_suffix(d, ".google.com"@) || has_suffix(d, "google.com"@) || has_suffix(
        d,
        ".googleapis.com"@,
    ) || has_suffix(d, ".googleusercontent.com"@) || has_suffix(d, "googleusercontent.com"@)
}

/// A string member, empty when missing.
pub open spec fn str_or_empty(c: Json, key: Seq<char>) -> Seq<char> {
    match json_str(json_field(c, key)) {
        Some(s) => s,
        None => Seq::empty(),
    }
}

/// `s` without its leading dots.
pub open spec fn trim_dots(s: Seq<char>) -> Seq<char>
    decreases s.len(),
{
    if s.len() > 0 && s[0] == '.' {
        trim_dots(s.drop_first())
    } else {
        s
    }
}

/// The jar entry of one stored cookie: named, valued, of a Google-family
/// domain; set as `name=value; Domain=<domain>; Path=/` for
/// `https://<domain without leading dots>/`.
pub open spec fn jar_entry(c: Json) -> Option<(Seq<char>, Seq<char>)> {
    let domain = str_or_empty(c, "domain"@);
    let name = str_or_empty(c, "name"@);
    let value = str_or_empty(c, "value"@);
    if name.len() == 0 || value.len() == 0 || !is_google_family(domain) {
        None
    } else {
        Some(
            (
                name + "="@ + value + "; Domain="@ + domain + "; Path=/"@,
                "https://"@ + trim_dots(domain) + "/"@,
            ),
        )
    }
}

pub open spec fn jar_entries(cs: Seq<Json>) -> Seq<(Seq<char>, Seq<char>)>
    decreases cs.len(),
{
    if cs.len() == 0 {
        Seq::empty()
    } else {
        match jar_entry(cs.last()) {
            Some(e) => jar_entries(cs.drop_last()).push(e),
            None => jar_entries(cs.drop_last()),
        }
    }
}

pub open spec fn jar_views(v: Seq<JarCookie>) -> Seq<(Seq<char>, Seq<char>)> {
    v.map_values(|j: JarCookie| (j.set_cookie@, j.url@))
}

fn member_or_empty(c: &Json, key: &str) -> (r: String)
    ensures
        r@ == str_or_empty(*c, key@),
{
    match c.get(key) {
        Some(v) => match v.as_str() {
            Some(s) => owned(s),
            None => String::new(),
        },
        None => String::new(),
    }
}

fn trim_leading_dots(s: &str) -> (r: String)
    ensures
        r@ == trim_dots(s@),
{
    let cs = crate::text::chars_of(s);
    let mut i: usize = 0;
    assert(s@.skip(0) =~= s@);
    while i < cs.len() && cs[i] == '.'
        invariant
            cs@ == s@,
            i <= cs@.len(),
            trim_dots(s@) == trim_dots(s@.skip(i as int)),
        decreases cs.len() - i,
    {
        assert(s@.skip(i as int).drop_first() =~= s@.skip(i + 1));
        i += 1;
    }
    let rest = crate::text::sub_chars(&cs, i, cs.len());
    assert(rest@ =~= s@.skip(i as int));
    crate::text::string_of(&rest)
}

fn jar_cookie(c: &Json) -> (r: Option<JarCookie>)
    ensures
        r matches Some(j) ==> jar_entry(*c) == Some((j.set_cookie@, j.url@)),
        r is None ==> jar_entry(*c) is None,
{
    let domain = member_or_empty(c, "domain");
    let name = member_or_empty(c, "name");
    let value = member_or_empty(c, "value");
    let d = domain.as_str();
    let google = ends_with(d, ".google.com") || ends_with(d, "google.com") || ends_with(
        d,
        ".googleapis.com",
    ) || ends_with(d, ".googleusercontent.com") || ends_with(d, "googleusercontent.com");
    if name.as_str().is_empty() || value.as_str().is_empty() || !google {
        return None;
    }
    let mut set_cookie = owned(name.as_str());
    push_str(&mut set_cookie, "=");
    push_str(&mut set_cookie, value.as_str());
    push_str(&mut set_cookie, "; Domain=");
    push_str(&mut set_cookie, d);
    push_str(&mut set_cookie, "; Path=/");
    let host = trim_leading_dots(d);
    let mut url = owned("https://");
    push_str(&mut url, host.as_str());
    push_str(&mut url, "/");
    Some(JarCookie { set_cookie, url })
}

/// The cookies of a storage state to put in a download cookie jar, each set
/// for its own domain so that they follow redirects across Google domains.
/// A state without a `cookies` array gives none.
pub fn jar_cookies(state: &Json) -> (r: Vec<JarCookie>)
    ensures
        jar_views(r@) == match json_get(*state, "cookies"@) {
            Some(Json::Array(cs)) => jar_entries(cs@),
            _ => Seq::empty(),
        },
{
    let mut out: Vec<JarCookie> = Vec::new();
    assert(jar_views(out@) =~= Seq::empty());
    let cookies = match state.get("cookies") {
        Some(Json::Array(cs)) => cs,
        _ => return out,
    };
    let mut i: usize = 0;
    while i < cookies.len()
        invariant
            i <= cookies@.len(),
            jar_views(out@) == jar_entries(cookies@.take(i as int)),
        decreases cookies.len() - i,
    {
        assert(cookies@.take(i + 1).drop_last() =~= cookies@.take(i as int));
        match jar_cookie(&cookies[i]) {
            Some(j) => {
                let ghost before = out@;
                out.push(j);
                assert(jar_views(out@) =~= jar_views(before).push(jar_entry(cookies@[i as int]).unwrap()));
            },
            None => {},
        }
        i += 1;
    }
    assert(cookies@.take(cookies@.len() as int) =~= cookies@);
    out
}

// ── Tokens in the home page ─────────────────────────────────────────────────

/// Capture group 1 of the leftmost match of the regular expression
/// `pattern` in `haystack`, as the `regex` crate finds it; `None` when the
/// pattern does not compile, nothing matches or the group takes no part.
pub uninterp spec fn regex_group1(pattern: Seq<char>, haystack: Seq<char>) -> Option<Seq<char>>;

/// A key written as plain regex text: one to 64 ASCII letters or digits.
pub open spec fn plain_key(key: Seq<char>) -> bool {
    0 < key.len() <= 64 && forall|i: int|
        0 <= i < key.len() ==> ('a' <= #[trigger] key[i] <= 'z' || 'A' <= key[i] <= 'Z' || '0'
            <= key[i] <= '9')
}

/// The text that opens a JSON-embedded token: `"KEY":"`.
pub open spec fn token_opening(key: Seq<char>) -> Seq<char> {
    "\""@ + key + "\":\""@
}

/// Index of the first `"` in `s`.
pub open spec fn quote_index(s: Seq<char>) -> Option<nat>
    decreases s.len(),
{
    if s.len() == 0 {
        None
    } else if s[0] == '"' {
        Some(0)
    } else {
        match quote_index(s.drop_first()) {
            Some(i) => Some(i + 1),
            None => None,
        }
    }
}

/// The token value that starts at `i`: `"KEY":"` there, then one or more
/// characters other than `"` (the value), then a `"`.
pub open spec fn token_at(key: Seq<char>, h: Seq<char>, i: nat) -> Option<Seq<char>> {
    let open = token_opening(key);
    if i + open.len() <= h.len() && h.subrange(i as int, (i + open.len()) as int) == open {
        let rest = h.skip((i + open.len()) as int);
        match quote_index(rest) {
            Some(q) => if q > 0 { Some(rest.take(q as int)) } else { None },
            None => None,
        }
    } else {
        None
    }
}

/// The leftmost token value of `key` at or after position `i` of `h`.
pub open spec fn first_token_from(key: Seq<char>, h: Seq<char>, i: nat) -> Option<Seq<char>>
    decreases h.len() - i,
{
    if i >= h.len() {
        None
    } else {
        match token_at(key, h, i) {
            Some(v) => Some(v),
            None => first_token_from(key, h, i + 1),
        }
    }
}

/// The leftmost value `V` of `"KEY":"V"` in `h`, `V` being one or more
/// characters other than `"`.
pub open spec fn first_token(key: Seq<char>, h: Seq<char>) -> Option<Seq<char>> {
    first_token_from(key, h, 0)
}

proof fn lemma_quote_index(s: Seq<char>, j: int)
    requires
        0 <= j < s.len(),
        s[j] == '"',
        forall|t: int| 0 <= t < j ==> s[t] != '"',
    ensures
        quote_index(s) == Some(j as nat),
    decreases j,
{
    if j > 0 {
        lemma_quote_index(s.drop_first(), j - 1);
    }
}

proof fn lemma_first_token_skips(key: Seq<char>, h: Seq<char>, i: nat, m: nat)
    requires
        i <= m < h.len(),
        forall|t: nat| i <= t < m ==> token_at(key, h, t) is None,
    ensures
        first_token_from(key, h, i) == first_token_from(key, h, m),
    decreases m - i,
{
    if i < m {
        lemma_first_token_skips(key, h, i + 1, m);
    }
}

/// Where the first `"KEY":"` of a page is followed by a value of one or more
/// characters, none of them `"`, and then a `"`, that value is the token
/// found, whatever characters it holds.
pub proof fn law_first_token_found(key: Seq<char>, before: Seq<char>, v: Seq<char>, after: Seq<char>)
    requires
        v.len() > 0,
        forall|t: int| 0 <= t < v.len() ==> v[t] != '"',
        forall|t: int|
            0 <= t < before.len() ==> !#[trigger] occurs_at(
                before + token_opening(key) + v + "\""@ + after,
                t,
                token_opening(key),
            ),
    ensures
        first_token(key, before + token_opening(key) + v + "\""@ + after) == Some(v),
{
    reveal_strlit("\"");
    let open = token_opening(key);
    let h = before + open + v + "\""@ + after;
    let m = before.len();
    assert forall|t: nat| 0 <= t < m implies token_at(key, h, t) is None by {
        assert(!occurs_at(h, t as int, open));
    }
    assert(h.subrange(m as int, (m + open.len()) as int) =~= open);
    let rest = h.skip((m + open.len()) as int);
    assert(rest =~= v + "\""@ + after);
    assert(rest[v.len() as int] == '"');
    lemma_quote_index(rest, v.len() as int);
    assert(rest.take(v.len() as int) =~= v);
    assert(token_at(key, h, m) == Some(v));
    lemma_first_token_skips(key, h, 0, m);
}

/// The key of a pattern of the shape `"KEY":"([^"]+)"` with a plain key.
pub open spec fn token_regex_key(pattern: Seq<char>) -> Option<Seq<char>> {
    let close = "\":\"([^\"]+)\""@;
    if pattern.len() > close.len() + 1 && pattern[0] == '"' && pattern.skip(
        pattern.len() - close.len(),
    ) == close && plain_key(pattern.subrange(1, pattern.len() - close.len())) {
        Some(pattern.subrange(1, pattern.len() - close.len()))
    } else {
        None
    }
}

/// `regex::Regex::new(pattern)`, then `captures(haystack)` and group 1 of
/// the match. For a pattern `"KEY":"([^"]+)"` whose key is plain text, the
/// regex syntax fixes what that group is: the crate's leftmost-first match
/// starts at the first place where `"KEY":"` is followed by one or more
/// characters other than `"` and a `"`, and the group is those characters.
#[verifier::external_body]
pub(crate) fn regex_capture(pattern: &str, haystack: &str) -> (r: Option<String>)
    ensures
        r matches Some(s) ==> regex_group1(pattern@, haystack@) == Some(s@),
        r is None ==> regex_group1(pattern@, haystack@) is None,
        token_regex_key(pattern@) matches Some(key) ==> match first_token(key, haystack@) {
            Some(v) => r matches Some(s) && s@ == v,
            None => r is None,
        },
{
    regex::Regex::new(pattern).ok()?.captures(haystack)?.get(1).map(|m| m.as_str().to_string())
}

/// The pattern `"KEY":"([^"]+)"` that finds a JSON-embedded token.
pub open spec fn token_pattern(key: Seq<char>) -> Seq<char> {
    "\""@ + key + "\":\"([^\"]+)\""@
}

/// Extracts the value of a JSON-embedded token such as `"KEY":"VALUE"`
/// from an HTML page: for a plain key, the leftmost value of one or more
/// characters other than `"`.
pub fn extract_token(html: &str, key: &str) -> (r: Option<String>)
    ensures
        r matches Some(s) ==> regex_group1(token_pattern(key@), html@) == Some(s@),
        r is None ==> regex_group1(token_pattern(key@), html@) is None,
        plain_key(key@) ==> match first_token(key@, html@) {
            Some(v) => r matches Some(s) && s@ == v,
            None => r is None,
        },
{
    let mut pattern = owned("\"");
    push_str(&mut pattern, key);
    push_str(&mut pattern, "\":\"([^\"]+)\"");
    proof {
        reveal_strlit("\"");
        reveal_strlit("\":\"([^\"]+)\"");
        if plain_key(key@) {
            let close = "\":\"([^\"]+)\""@;
            let p = pattern@;
            assert(p == "\""@ + key@ + close);
            assert(p.skip(p.len() - close.len()) =~= close);
            assert(p.subrange(1, p.len() - close.len()) =~= key@);
            assert(token_regex_key(p) == Some(key@));
        }
    }
    regex_capture(pattern.as_str(), html)
}

/// The CSRF token (`SNlM0e`) and session id (`FdrFJe`) of the NotebookLM
/// home page.
pub fn session_tokens(html: &str) -> (r: Result<(String, String), AuthError>)
    ensures
        match regex_group1(token_pattern("SNlM0e"@), html@) {
            None => r matches Err(AuthError::MissingCsrfToken),
            Some(a) => match regex_group1(token_pattern("FdrFJe"@), html@) {
                None => r matches Err(AuthError::MissingSessionId),
                Some(b) => r matches Ok((x, y)) && x@ == a && y@ == b,
            },
        },
        match first_token("SNlM0e"@, html@) {
            None => r matches Err(AuthError::MissingCsrfToken),
            Some(a) => match first_token("FdrFJe"@, html@) {
                None => r matches Err(AuthError::MissingSessionId),
                Some(b) => r matches Ok((x, y)) && x@ == a && y@ == b,
            },
        },
{
    proof {
        reveal_strlit("SNlM0e");
        reveal_strlit("FdrFJe");
        let k1 = "SNlM0e"@;
        let k2 = "FdrFJe"@;
        assert(k1[0] == 'S' && k1[1] == 'N' && k1[2] == 'l' && k1[3] == 'M' && k1[4] == '0' && k1[5] == 'e');
        assert(k2[0] == 'F' && k2[1] == 'd' && k2[2] == 'r' && k2[3] == 'F' && k2[4] == 'J' && k2[5] == 'e');
        assert(plain_key(k1));
        assert(plain_key(k2));
    }
    let snlm0e = match extract_token(html, "SNlM0e") {
        Some(t) => t,
        None => return Err(AuthError::MissingCsrfToken),
    };
    let fdrfje = match extract_token(html, "FdrFJe") {
        Some(t) => t,
        None => return Err(AuthError::MissingSessionId),
    };
    Ok((snlm0e, fdrfje))
}

} // verus!
