use vstd::prelude::*;
use vstd::utf8::encode_utf8;

use crate::json::{json_at, json_str, str_eq, Json};
use crate::text::{
    chars_of, concat_map, has_prefix, owned, push_str, string_of, sub_chars, trim, trim_chars,
    views,
};
use crate::xml::first_index_of;

verus! {

// ── RPC method ids ──────────────────────────────────────────────────────────

pub const LIST_NOTEBOOKS: &'static str = "wXbhsf";
pub const CREATE_NOTEBOOK: &'static str = "CCqFvf";
pub const GET_NOTEBOOK: &'static str = "rLM1Ne";
pub const DELETE_NOTEBOOK: &'static str = "pXA4Ob";
pub const RENAME_NOTEBOOK: &'static str = "nFMHOc";
pub const ADD_SOURCE: &'static str = "izAoDd";
pub const DELETE_SOURCE: &'static str = "tGMBJ";
pub const LIST_SOURCES: &'static str = "Yl5oTb";
pub const CREATE_ARTIFACT: &'static str = "R7cb6c";
pub const LIST_ARTIFACTS: &'static str = "gArtLc";
/// Targeted single-slide revision.
pub const REVISE_SLIDE: &'static str = "KmcKPe";

// Artifact type codes.
pub const ARTIFACT_AUDIO: i64 = 1;
pub const ARTIFACT_REPORT: i64 = 2;
pub const ARTIFACT_SLIDE_DECK: i64 = 8;

// Artifact and source status: completed (ready) and failed.
pub const STATUS_COMPLETED: i64 = 3;
pub const STATUS_FAILED: i64 = 4;

/// The single batchexecute endpoint every operation is posted to.
pub const BATCHEXECUTE_URL: &'static str =
    "https://notebooklm.google.com/_/LabsTailwindUi/data/batchexecute";

// ── Percent-encoding ────────────────────────────────────────────────────────

/// The upper-case hex digit of `d` (below 16).
pub open spec fn hex_upper(d: nat) -> char {
    if d < 10 { ((d + 48) as u32) as char } else { ((d + 55) as u32) as char }
}

/// The lower-case hex digit of `d` (below 16).
pub open spec fn hex_lower(d: nat) -> char {
    if d < 10 { ((d + 48) as u32) as char } else { ((d + 87) as u32) as char }
}

/// ASCII letters, digits and `-` `.` `_` `~`: the bytes left as they are.
pub open spec fn is_unreserved(b: u8) -> bool {
    (48 <= b <= 57) || (65 <= b <= 90) || (97 <= b <= 122) || b == 45 || b == 46 || b == 95
        || b == 126
}

pub open spec fn encode_byte(b: u8) -> Seq<char> {
    if is_unreserved(b) {
        seq![b as char]
    } else {
        seq!['%', hex_upper((b / 16) as nat), hex_upper((b % 16) as nat)]
    }
}

/// Percent-encoding of the UTF-8 bytes of a string: every byte but the
/// unreserved ones becomes `%` and two upper-case hex digits.
pub open spec fn percent_encoded(s: Seq<char>) -> Seq<char> {
    encoded_bytes(encode_utf8(s))
}

/// The percent-encoding of each byte, concatenated.
pub open spec fn encoded_bytes(bytes: Seq<u8>) -> Seq<char> {
    concat_map(bytes, |b: u8| encode_byte(b))
}

/// `urlencoding::encode`: "Percent-encodes every byte except alphanumerics
/// and `-`, `_`, `.`, `~`. Assumes UTF-8 encoding." (upper-case hex digits).
#[verifier::external_body]
pub(crate) fn url_encode(s: &str) -> (r: String)
    ensures
        r@ == percent_encoded(s@),
{
    urlencoding::encode(s).into_owned()
}

/// A character a percent-encoded text may hold: an unreserved ASCII
/// character, `%`, or an upper-case hex digit.
pub open spec fn is_encoded_char(c: char) -> bool {
    ('0' <= c <= '9') || ('A' <= c <= 'Z') || ('a' <= c <= 'z') || c == '-' || c == '.' || c == '_'
        || c == '~' || c == '%'
}

pub proof fn lemma_encoded_chars(bytes: Seq<u8>)
    ensures
        forall|i: int| 0 <= i < encoded_bytes(bytes).len() ==> is_encoded_char(#[trigger] encoded_bytes(bytes)[i]),
    decreases bytes.len(),
{
    if bytes.len() > 0 {
        lemma_encoded_chars(bytes.drop_last());
        let prev = encoded_bytes(bytes.drop_last());
        let last = encode_byte(bytes.last());
        assert(encoded_bytes(bytes) == prev + last);
        let b = bytes.last();
        assert forall|j: int| 0 <= j < last.len() implies is_encoded_char(#[trigger] last[j]) by {
            if !is_unreserved(b) {
                assert((b / 16) < 16 && (b % 16) < 16);
            }
        }
        assert forall|i: int| 0 <= i < (prev + last).len() implies is_encoded_char(#[trigger] (prev + last)[i]) by {
            if i < prev.len() {
                assert((prev + last)[i] == prev[i]);
            } else {
                assert((prev + last)[i] == last[i - prev.len()]);
            }
        }
    }
}

/// The fields of a request body are percent-encoded, so they hold no `&`,
/// `=`, `+` or space that could be read as a separator: the body splits
/// back into exactly its `f.req` and `at` fields.
pub proof fn law_encoded_fields_hold_no_separators(s: Seq<char>)
    ensures
        forall|i: int|
            0 <= i < percent_encoded(s).len() ==> {
                let c = #[trigger] percent_encoded(s)[i];
                &&& is_encoded_char(c)
                &&& c != '&'
                &&& c != '='
                &&& c != '+'
                &&& c != ' '
            },
{
    lemma_encoded_chars(encode_utf8(s));
}

// ── JSON string literals ────────────────────────────────────────────────────

/// How one character is written inside a JSON string.
pub open spec fn json_escape(c: char) -> Seq<char> {
    let u = c as u32;
    if c == '"' {
        seq!['\\', '"']
    } else if c == '\\' {
        seq!['\\', '\\']
    } else if u == 8 {
        seq!['\\', 'b']
    } else if u == 9 {
        seq!['\\', 't']
    } else if u == 10 {
        seq!['\\', 'n']
    } else if u == 12 {
        seq!['\\', 'f']
    } else if u == 13 {
        seq!['\\', 'r']
    } else if u < 32 {
        seq!['\\', 'u', '0', '0', hex_lower((u / 16) as nat), hex_lower((u % 16) as nat)]
    } else {
        seq![c]
    }
}

/// A string as a JSON string literal.
pub open spec fn json_string_literal(s: Seq<char>) -> Seq<char> {
    seq!['"'] + concat_map(s, |c: char| json_escape(c)) + seq!['"']
}

/// `serde_json::to_string` of a string: the string quoted, with `"`, `\`
/// and control characters escaped (`\b \t \n \f \r`, else `\u00xx` with
/// lower-case hex); serialising a string cannot fail.
#[verifier::external_body]
pub(crate) fn json_quote(s: &str) -> (r: String)
    ensures
        r@ == json_string_literal(s@),
{
    serde_json::to_string(s).unwrap_or_default()
}

// ── Request encoding ────────────────────────────────────────────────────────

/// The POST URL of one call: `rpcids`, the percent-encoded `source-path`,
/// the session id `f.sid` and `rt=c`.
pub open spec fn spec_rpc_url(method_id: Seq<char>, session_id: Seq<char>, encoded_path: Seq<char>) -> Seq<char> {
    BATCHEXECUTE_URL@ + "?rpcids="@ + method_id + "&source-path="@ + encoded_path + "&f.sid="@
        + session_id + "&rt=c"@
}

/// Builds the full POST URL of one call. `source_path` is the page the call
/// is made from: `/` for the home page, `/notebook/<id>` inside a notebook.
pub fn rpc_url(method_id: &str, session_id: &str, source_path: &str) -> (r: String)
    ensures
        r@ == spec_rpc_url(method_id@, session_id@, percent_encoded(source_path@)),
{
    let encoded_path = url_encode(source_path);
    let mut url = owned(BATCHEXECUTE_URL);
    push_str(&mut url, "?rpcids=");
    push_str(&mut url, method_id);
    push_str(&mut url, "&source-path=");
    push_str(&mut url, encoded_path.as_str());
    push_str(&mut url, "&f.sid=");
    push_str(&mut url, session_id);
    push_str(&mut url, "&rt=c");
    url
}

/// The JSON text of the envelope `[[[method_id, params, null, "generic"]]]`,
/// where `params` is the serialised parameters carried as a string.
pub open spec fn spec_envelope(method_id: Seq<char>, params_json: Seq<char>) -> Seq<char> {
    "[[["@ + json_string_literal(method_id) + ","@ + json_string_literal(params_json)
        + ",null,\"generic\"]]]"@
}

/// The envelope of one call, as compact JSON text.
pub fn rpc_envelope(method_id: &str, params_json: &str) -> (r: String)
    ensures
        r@ == spec_envelope(method_id@, params_json@),
{
    let m = json_quote(method_id);
    let p = json_quote(params_json);
    let mut out = owned("[[[");
    push_str(&mut out, m.as_str());
    push_str(&mut out, ",");
    push_str(&mut out, p.as_str());
    push_str(&mut out, ",null,\"generic\"]]]");
    out
}

/// Builds the `application/x-www-form-urlencoded` request body
/// `f.req=<envelope>&at=<csrf>&`, both fields percent-encoded; the
/// parameters are given as their compact JSON text.
pub fn rpc_body(method_id: &str, params_json: &str, csrf: &str) -> (r: String)
    ensures
        r@ == "f.req="@ + percent_encoded(spec_envelope(method_id@, params_json@)) + "&at="@
            + percent_encoded(csrf@) + "&"@,
{
    let envelope = rpc_envelope(method_id, params_json);
    let f_req = url_encode(envelope.as_str());
    let at = url_encode(csrf);
    let mut out = owned("f.req=");
    push_str(&mut out, f_req.as_str());
    push_str(&mut out, "&at=");
    push_str(&mut out, at.as_str());
    push_str(&mut out, "&");
    out
}

// ── Response decoding ───────────────────────────────────────────────────────

/// The body without the anti-XSSI prefix `)]}'` and its newline.
pub open spec fn spec_strip_anti_xssi(body: Seq<char>) -> Seq<char> {
    if has_prefix(body, ")]}'\n"@) {
        body.skip(5)
    } else {
        body
    }
}

/// Strips the anti-XSSI prefix `)]}'` (and the newline after it) that is
/// prepended to every batchexecute response.
pub fn strip_anti_xssi(body: &str) -> (r: String)
    ensures
        r@ == spec_strip_anti_xssi(body@),
{
    proof {
        reveal_strlit(")]}'\n");
    }
    if crate::text::starts_with(body, ")]}'\n") {
        let cs = chars_of(body);
        let rest = sub_chars(&cs, 5, cs.len());
        string_of(&rest)
    } else {
        owned(body)
    }
}

/// A line without the `\r` of a `\r\n` ending.
pub open spec fn strip_cr(line: Seq<char>) -> Seq<char> {
    if line.len() > 0 && line.last() == '\r' {
        line.drop_last()
    } else {
        line
    }
}

/// `str::lines`: split at `\n` (and `\r\n`); a final line ending adds no
/// empty line.
pub open spec fn split_lines(s: Seq<char>) -> Seq<Seq<char>>
    decreases s.len(),
{
    if s.len() == 0 {
        Seq::empty()
    } else {
        proof {
            crate::xml::lemma_first_index_of_bounds(s, '\n');
        }
        match first_index_of(s, '\n') {
            Some(i) => seq![strip_cr(s.take(i))] + split_lines(s.skip(i + 1)),
            None => seq![s],
        }
    }
}

pub open spec fn all_ascii_digits(s: Seq<char>) -> bool {
    forall|i: int| 0 <= i < s.len() ==> '0' <= #[trigger] s[i] <= '9'
}

/// Whether a trimmed line may hold a JSON payload: it is neither empty nor a
/// byte count.
pub open spec fn is_payload(t: Seq<char>) -> bool {
    t.len() > 0 && !all_ascii_digits(t)
}

/// The trimmed payload lines among `lines`, in order.
pub open spec fn payloads_of(lines: Seq<Seq<char>>) -> Seq<Seq<char>>
    decreases lines.len(),
{
    if lines.len() == 0 {
        Seq::empty()
    } else if is_payload(trim(lines[0])) {
        seq![trim(lines[0])] + payloads_of(lines.drop_first())
    } else {
        payloads_of(lines.drop_first())
    }
}

/// The candidate JSON payloads of a chunked response: after the anti-XSSI
/// prefix, every line, trimmed, that is neither empty nor all decimal digits.
pub open spec fn spec_payload_lines(body: Seq<char>) -> Seq<Seq<char>> {
    payloads_of(split_lines(spec_strip_anti_xssi(body)))
}

fn all_digits_vec(t: &Vec<char>) -> (r: bool)
    ensures
        r == all_ascii_digits(t@),
{
    let mut i: usize = 0;
    while i < t.len()
        invariant
            i <= t@.len(),
            forall|k: int| 0 <= k < i ==> '0' <= #[trigger] t@[k] <= '9',
        decreases t.len() - i,
    {
        if !('0' <= t[i] && t[i] <= '9') {
            return false;
        }
        i += 1;
    }
    true
}

pub proof fn lemma_split_step(s: Seq<char>, start: int, i: int)
    requires
        0 <= start <= i < s.len(),
        s[i] == '\n',
        forall|k: int| start <= k < i ==> s[k] != '\n',
    ensures
        split_lines(s.skip(start)) == seq![strip_cr(s.subrange(start, i))] + split_lines(s.skip(i + 1)),
{
    let t = s.skip(start);
    crate::xml::lemma_first_index_of(t, '\n', i - start);
    assert(t.take(i - start) =~= s.subrange(start, i));
    assert(t.skip(i - start + 1) =~= s.skip(i + 1));
}

pub proof fn lemma_split_last(s: Seq<char>, start: int)
    requires
        0 <= start < s.len(),
        forall|k: int| start <= k < s.len() ==> s[k] != '\n',
    ensures
        split_lines(s.skip(start)) == seq![s.skip(start)],
{
    let t = s.skip(start);
    crate::xml::lemma_first_index_of(t, '\n', t.len() as int);
}

/// Splits a response body into its candidate JSON payload lines.
pub fn payload_lines(body: &str) -> (r: Vec<String>)
    ensures
        views(r@) == spec_payload_lines(body@),
{
    let stripped = strip_anti_xssi(body);
    let cs = chars_of(stripped.as_str());
    let ghost s = cs@;
    let mut out: Vec<String> = Vec::new();
    let mut start: usize = 0;
    assert(s.skip(0) =~= s);
    assert(views(out@) =~= Seq::empty());
    while start < cs.len()
        invariant
            cs@ == s,
            s == spec_strip_anti_xssi(body@),
            start <= s.len(),
            spec_payload_lines(body@) == views(out@) + payloads_of(split_lines(s.skip(start as int))),
        decreases cs.len() - start,
    {
        let mut i = start;
        while i < cs.len() && cs[i] != '\n'
            invariant
                cs@ == s,
                start <= i <= s.len(),
                forall|k: int| start <= k < i ==> s[k] != '\n',
            decreases cs.len() - i,
        {
            i += 1;
        }
        let next: usize;
        let line: Vec<char>;
        if i < cs.len() {
            proof {
                lemma_split_step(s, start as int, i as int);
            }
            let raw = sub_chars(&cs, start, i);
            line = if raw.len() > 0 && raw[raw.len() - 1] == '\r' {
                let l = sub_chars(&raw, 0, raw.len() - 1);
                assert(l@ =~= raw@.drop_last());
                l
            } else {
                raw
            };
            assert(line@ == strip_cr(s.subrange(start as int, i as int)));
            next = i + 1;
        } else {
            proof {
                lemma_split_last(s, start as int);
            }
            line = sub_chars(&cs, start, i);
            assert(line@ =~= s.skip(start as int));
            next = i;
            assert(s.skip(next as int) =~= Seq::<char>::empty());
        }
        assert(split_lines(s.skip(start as int)) == seq![line@] + split_lines(s.skip(next as int)));
        assert((seq![line@] + split_lines(s.skip(next as int))).drop_first() =~= split_lines(s.skip(next as int)));
        let t = trim_chars(&line);
        if t.len() > 0 && !all_digits_vec(&t) {
            let ghost before = out@;
            out.push(string_of(&t));
            assert(views(out@) =~= views(before).push(trim(line@)));
            assert(views(out@) + payloads_of(split_lines(s.skip(next as int))) =~= views(before) + (
            seq![trim(line@)] + payloads_of(split_lines(s.skip(next as int)))));
        }
        start = next;
    }
    assert(s.skip(start as int) =~= Seq::<char>::empty());
    assert(views(out@) + Seq::<Seq<char>>::empty() =~= views(out@));
    out
}

/// Where the result of a call sits in a response item (`item[2]`): a JSON
/// text still to be parsed, an already parsed value, or `null` (missing
/// too), in which case the whole raw item is kept so that it can be shown.
pub enum RpcPayload {
    Encoded(String),
    NullResult(Json),
    Value(Json),
}

/// The payload of the answering item `item`, read from `item[2]`.
pub open spec fn payload_of(p: RpcPayload, item: Json) -> bool {
    match json_at(item, 2) {
        Json::Str(s) => p matches RpcPayload::Encoded(t) && t@ == s@,
        Json::Null => p matches RpcPayload::NullResult(raw) && raw == item,
        j => p matches RpcPayload::Value(v) && v == j,
    }
}

/// Whether a response item is the answer to `method_id`:
/// `item[0] == "wrb.fr"` and `item[1] == method_id`.
pub open spec fn is_answer(item: Json, method_id: Seq<char>) -> bool {
    json_str(json_at(item, 0)) == Some("wrb.fr"@) && json_str(json_at(item, 1)) == Some(method_id)
}

/// Index of the first answer among the items.
pub open spec fn first_answer(items: Seq<Json>, method_id: Seq<char>) -> Option<int>
    decreases items.len(),
{
    if items.len() == 0 {
        None
    } else if is_answer(items[0], method_id) {
        Some(0)
    } else {
        match first_answer(items.drop_first(), method_id) {
            Some(k) => Some(k + 1),
            None => None,
        }
    }
}

/// The item of a chunk that answers `method_id`, if the chunk is an array
/// holding one.
pub open spec fn chunk_answer(chunk: Json, method_id: Seq<char>) -> Option<Json> {
    match chunk {
        Json::Array(items) => match first_answer(items@, method_id) {
            Some(k) => Some(items@[k]),
            None => None,
        },
        _ => None,
    }
}

fn answers(item: &Json, method_id: &str) -> (r: bool)
    ensures
        r == is_answer(*item, method_id@),
{
    let tag = match item.at(0) {
        Some(v) => match v.as_str() {
            Some(s) => str_eq(s, "wrb.fr"),
            None => false,
        },
        None => false,
    };
    let method = match item.at(1) {
        Some(v) => match v.as_str() {
            Some(s) => str_eq(s, method_id),
            None => false,
        },
        None => false,
    };
    tag && method
}

pub proof fn lemma_first_answer_skip(items: Seq<Json>, method_id: Seq<char>, i: int)
    requires
        0 <= i <= items.len(),
        forall|k: int| 0 <= k < i ==> !is_answer(#[trigger] items[k], method_id),
    ensures
        first_answer(items, method_id) == match first_answer(items.skip(i), method_id) {
            Some(k) => Some(k + i),
            None => None,
        },
    decreases i,
{
    if i > 0 {
        lemma_first_answer_skip(items.drop_first(), method_id, i - 1);
        assert(items.drop_first().skip(i - 1) =~= items.skip(i));
    } else {
        assert(items.skip(0) =~= items);
    }
}

/// The result of `method_id` held by one parsed chunk: the first item of the
/// chunk array answering the method, its `item[2]`.
pub fn find_rpc_payload(chunk: Json, method_id: &str) -> (r: Option<RpcPayload>)
    ensures
        match chunk_answer(chunk, method_id@) {
            Some(item) => r matches Some(p) && payload_of(p, item),
            None => r is None,
        },
{
    let ghost ans = chunk_answer(chunk, method_id@);
    match chunk {
        Json::Array(items) => {
            let mut items = items;
            let ghost all = items@;
            assert(ans == match first_answer(all, method_id@) {
                Some(k) => Some(all[k]),
                None => None,
            });
            let mut i: usize = 0;
            while i < items.len()
                invariant
                    items@ == all,
                    ans == chunk_answer(chunk, method_id@),
                    ans == match first_answer(all, method_id@) {
                        Some(k) => Some(all[k]),
                        None => None,
                    },
                    i <= all.len(),
                    forall|k: int| 0 <= k < i ==> !is_answer(#[trigger] all[k], method_id@),
                decreases items.len() - i,
            {
                if answers(&items[i], method_id) {
                    proof {
                        lemma_first_answer_skip(all, method_id@, i as int);
                    }
                    let item = items.swap_remove(i);
                    assert(item == all[i as int]);
                    let null_result = match item.at(2) {
                        Some(Json::Null) => true,
                        Some(_) => false,
                        None => true,
                    };
                    if null_result {
                        return Some(RpcPayload::NullResult(item));
                    }
                    let ghost whole = item;
                    return match item {
                        Json::Array(mut fields) => {
                            assert(fields@.len() > 2);
                            let third = fields.swap_remove(2);
                            assert(third == json_at(whole, 2));
                            match third {
                                Json::Str(s) => Some(RpcPayload::Encoded(s)),
                                other => Some(RpcPayload::Value(other)),
                            }
                        },
                        _ => Some(RpcPayload::NullResult(Json::Null)),
                    };
                }
                i += 1;
            }
            proof {
                lemma_first_answer_skip(all, method_id@, i as int);
            }
            None
        },
        _ => None,
    }
}

/// The result of `method_id` in a response whose payload lines have been
/// parsed (`None` where a line is not valid JSON): that of the first chunk
/// that holds one.
pub open spec fn first_payload_chunk(chunks: Seq<Option<Json>>, method_id: Seq<char>) -> Option<Json>
    decreases chunks.len(),
{
    if chunks.len() == 0 {
        None
    } else {
        match chunks[0] {
            Some(c) => match chunk_answer(c, method_id) {
                Some(item) => Some(item),
                None => first_payload_chunk(chunks.drop_first(), method_id),
            },
            None => first_payload_chunk(chunks.drop_first(), method_id),
        }
    }
}

/// Picks the result of `method_id` out of the parsed payload lines of a
/// response, in order.
pub fn decode_chunks(chunks: Vec<Option<Json>>, method_id: &str) -> (r: Option<RpcPayload>)
    ensures
        match first_payload_chunk(chunks@, method_id@) {
            Some(item) => r matches Some(p) && payload_of(p, item),
            None => r is None,
        },
{
    let ghost all = chunks@;
    let mut rest = chunks;
    while rest.len() > 0
        invariant
            first_payload_chunk(all, method_id@) == first_payload_chunk(rest@, method_id@),
            all == chunks@,
        decreases rest.len(),
    {
        let ghost before = rest@;
        let c = rest.remove(0);
        assert(rest@ =~= before.drop_first());
        match c {
            Some(chunk) => {
                let ghost cg = chunk;
                assert(before[0] == Some(cg));
                let found = find_rpc_payload(chunk, method_id);
                if found.is_some() {
                    assert(chunk_answer(cg, method_id@) is Some);
                    assert(first_payload_chunk(before, method_id@) == chunk_answer(cg, method_id@));
                    return found;
                }
            },
            None => {},
        }
    }
    None
}

} // verus!
