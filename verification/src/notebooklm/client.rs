use vstd::prelude::*;

use crate::json::{
    is_str, jarr1, json_at, json_int, json_len, json_str, jstr, push_nulls, str_eq, Json,
};
use crate::notebooklm::rpc::{ARTIFACT_SLIDE_DECK, STATUS_COMPLETED, STATUS_FAILED};
use crate::text::{owned, push_str};

verus! {

// ── Call parameters ─────────────────────────────────────────────────────────

/// `/notebook/<id>`: the page context of calls made inside a notebook.
pub fn notebook_source_path(notebook_id: &str) -> (r: String)
    ensures
        r@ == "/notebook/"@ + notebook_id@,
{
    let mut p = owned("/notebook/");
    push_str(&mut p, notebook_id);
    p
}

/// `[2]`
pub open spec fn is_two_list(j: Json) -> bool {
    json_len(j) == 1 && json_at(j, 0) == Json::Int(2)
}

fn two_list() -> (r: Json)
    ensures
        is_two_list(r),
{
    jarr1(Json::Int(2))
}

/// LIST_NOTEBOOKS parameters: `[null, 1, null, [2]]`.
pub fn list_notebooks_params() -> (r: Json)
    ensures
        json_len(r) == 4,
        json_at(r, 0) == Json::Null,
        json_at(r, 1) == Json::Int(1),
        json_at(r, 2) == Json::Null,
        is_two_list(json_at(r, 3)),
{
    let mut v: Vec<Json> = Vec::new();
    v.push(Json::Null);
    v.push(Json::Int(1));
    v.push(Json::Null);
    v.push(two_list());
    Json::Array(v)
}

/// CREATE_NOTEBOOK parameters: `[title, null, null, [2], [1]]`.
pub fn create_notebook_params(title: &str) -> (r: Json)
    ensures
        json_len(r) == 5,
        is_str(json_at(r, 0), title@),
        json_at(r, 1) == Json::Null,
        json_at(r, 2) == Json::Null,
        is_two_list(json_at(r, 3)),
        json_len(json_at(r, 4)) == 1 && json_at(json_at(r, 4), 0) == Json::Int(1),
{
    let mut v: Vec<Json> = Vec::new();
    v.push(jstr(title));
    v.push(Json::Null);
    v.push(Json::Null);
    v.push(two_list());
    v.push(jarr1(Json::Int(1)));
    Json::Array(v)
}

/// GET_NOTEBOOK parameters: `[notebook_id, null, [2], null, 0]`.
pub fn get_notebook_params(notebook_id: &str) -> (r: Json)
    ensures
        json_len(r) == 5,
        is_str(json_at(r, 0), notebook_id@),
        json_at(r, 1) == Json::Null,
        is_two_list(json_at(r, 2)),
        json_at(r, 3) == Json::Null,
        json_at(r, 4) == Json::Int(0),
{
    let mut v: Vec<Json> = Vec::new();
    v.push(jstr(notebook_id));
    v.push(Json::Null);
    v.push(two_list());
    v.push(Json::Null);
    v.push(Json::Int(0));
    Json::Array(v)
}

/// DELETE_SOURCE parameters: `[[[source_id]]]`.
pub fn delete_source_params(source_id: &str) -> (r: Json)
    ensures
        json_len(r) == 1,
        json_len(json_at(r, 0)) == 1,
        json_len(json_at(json_at(r, 0), 0)) == 1,
        is_str(json_at(json_at(json_at(r, 0), 0), 0), source_id@),
{
    jarr1(jarr1(jarr1(jstr(source_id))))
}

/// ADD_SOURCE parameters for a text source:
/// `[[[null, [title, content], null, null, null, null, null, null]], notebook_id, [2], null, null]`.
pub fn add_text_source_params(notebook_id: &str, title: &str, content: &str) -> (r: Json)
    ensures
        json_len(r) == 5,
        json_len(json_at(r, 0)) == 1,
        json_len(json_at(json_at(r, 0), 0)) == 8,
        json_at(json_at(json_at(r, 0), 0), 0) == Json::Null,
        json_len(json_at(json_at(json_at(r, 0), 0), 1)) == 2,
        is_str(json_at(json_at(json_at(json_at(r, 0), 0), 1), 0), title@),
        is_str(json_at(json_at(json_at(json_at(r, 0), 0), 1), 1), content@),
        forall|i: int| 2 <= i < 8 ==> json_at(json_at(json_at(r, 0), 0), i) == Json::Null,
        is_str(json_at(r, 1), notebook_id@),
        is_two_list(json_at(r, 2)),
        json_at(r, 3) == Json::Null,
        json_at(r, 4) == Json::Null,
{
    let mut pair: Vec<Json> = Vec::new();
    pair.push(jstr(title));
    pair.push(jstr(content));
    let mut entry: Vec<Json> = Vec::new();
    entry.push(Json::Null);
    entry.push(Json::Array(pair));
    push_nulls(&mut entry, 6);
    let mut v: Vec<Json> = Vec::new();
    v.push(jarr1(Json::Array(entry)));
    v.push(jstr(notebook_id));
    v.push(two_list());
    v.push(Json::Null);
    v.push(Json::Null);
    Json::Array(v)
}

/// `[[[sid]]]`
pub open spec fn is_source_triple(j: Json, sid: Seq<char>) -> bool {
    json_len(j) == 1 && json_len(json_at(j, 0)) == 1 && json_len(json_at(json_at(j, 0), 0)) == 1
        && is_str(json_at(json_at(json_at(j, 0), 0), 0), sid)
}

/// CREATE_ARTIFACT parameters for a slide deck:
/// `[[2], notebook_id, [null, null, 8, sources, null × 12, [[instructions, language, null, null]]]]`
/// where `sources` holds `[[[sid]]]` for each source id, in order, and
/// `instructions` is `null` when not given.
pub fn slide_deck_params(
    notebook_id: &str,
    source_ids: &Vec<String>,
    instructions: Option<&str>,
    language: &str,
) -> (r: Json)
    ensures
        json_len(r) == 3,
        is_two_list(json_at(r, 0)),
        is_str(json_at(r, 1), notebook_id@),
        json_len(json_at(r, 2)) == 17,
        json_at(json_at(r, 2), 0) == Json::Null,
        json_at(json_at(r, 2), 1) == Json::Null,
        json_at(json_at(r, 2), 2) == Json::Int(ARTIFACT_SLIDE_DECK),
        json_len(json_at(json_at(r, 2), 3)) == source_ids@.len(),
        forall|i: int| 0 <= i < source_ids@.len() ==> is_source_triple(
            #[trigger] json_at(json_at(json_at(r, 2), 3), i),
            source_ids@[i]@,
        ),
        forall|i: int| 4 <= i < 16 ==> json_at(json_at(r, 2), i) == Json::Null,
        json_len(json_at(json_at(r, 2), 16)) == 1,
        json_len(json_at(json_at(json_at(r, 2), 16), 0)) == 4,
        match instructions {
            Some(t) => is_str(json_at(json_at(json_at(json_at(r, 2), 16), 0), 0), t@),
            None => json_at(json_at(json_at(json_at(r, 2), 16), 0), 0) == Json::Null,
        },
        is_str(json_at(json_at(json_at(json_at(r, 2), 16), 0), 1), language@),
        json_at(json_at(json_at(json_at(r, 2), 16), 0), 2) == Json::Null,
        json_at(json_at(json_at(json_at(r, 2), 16), 0), 3) == Json::Null,
{
    let mut sources: Vec<Json> = Vec::new();
    let mut i: usize = 0;
    while i < source_ids.len()
        invariant
            i <= source_ids@.len(),
            sources@.len() == i,
            forall|k: int| 0 <= k < i ==> is_source_triple(#[trigger] sources@[k], source_ids@[k]@),
        decreases source_ids.len() - i,
    {
        sources.push(jarr1(jarr1(jarr1(jstr(source_ids[i].as_str())))));
        i += 1;
    }
    let mut opts: Vec<Json> = Vec::new();
    opts.push(match instructions {
        Some(t) => jstr(t),
        None => Json::Null,
    });
    opts.push(jstr(language));
    opts.push(Json::Null);
    opts.push(Json::Null);
    let mut spec: Vec<Json> = Vec::new();
    spec.push(Json::Null);
    spec.push(Json::Null);
    spec.push(Json::Int(ARTIFACT_SLIDE_DECK));
    spec.push(Json::Array(sources));
    push_nulls(&mut spec, 12);
    spec.push(jarr1(Json::Array(opts)));
    let mut v: Vec<Json> = Vec::new();
    v.push(two_list());
    v.push(jstr(notebook_id));
    v.push(Json::Array(spec));
    Json::Array(v)
}

/// REVISE_SLIDE parameters: `[[2], artifact_id, [[[slide_index, prompt]]]]`
/// with a zero-based slide index.
pub fn revise_slide_params(artifact_id: &str, slide_index: u32, prompt: &str) -> (r: Json)
    ensures
        json_len(r) == 3,
        is_two_list(json_at(r, 0)),
        is_str(json_at(r, 1), artifact_id@),
        json_len(json_at(r, 2)) == 1,
        json_len(json_at(json_at(r, 2), 0)) == 1,
        json_len(json_at(json_at(json_at(r, 2), 0), 0)) == 2,
        json_at(json_at(json_at(json_at(r, 2), 0), 0), 0) == Json::Int(slide_index as i64),
        is_str(json_at(json_at(json_at(json_at(r, 2), 0), 0), 1), prompt@),
{
    let mut pair: Vec<Json> = Vec::new();
    pair.push(Json::Int(slide_index as i64));
    pair.push(jstr(prompt));
    let mut v: Vec<Json> = Vec::new();
    v.push(two_list());
    v.push(jstr(artifact_id));
    v.push(jarr1(jarr1(Json::Array(pair))));
    Json::Array(v)
}

/// The filter that leaves suggested artifacts out of a listing.
pub const ARTIFACT_FILTER: &'static str = "NOT artifact.status = \"ARTIFACT_STATUS_SUGGESTED\"";

/// LIST_ARTIFACTS parameters: `[[2], notebook_id, <filter>]`.
pub fn list_artifacts_params(notebook_id: &str) -> (r: Json)
    ensures
        json_len(r) == 3,
        is_two_list(json_at(r, 0)),
        is_str(json_at(r, 1), notebook_id@),
        is_str(json_at(r, 2), ARTIFACT_FILTER@),
{
    let mut v: Vec<Json> = Vec::new();
    v.push(two_list());
    v.push(jstr(notebook_id));
    v.push(jstr(ARTIFACT_FILTER));
    Json::Array(v)
}

// ── Reading results ─────────────────────────────────────────────────────────

/// What an answer lacked.
pub enum ClientError {
    /// A notebook of the listing has a non-string id.
    NotebookIdNotString,
    /// CREATE_NOTEBOOK answered without an id.
    MissingNotebookId,
    /// ADD_SOURCE answered without an id.
    MissingSourceId,
    /// CREATE_ARTIFACT answered without an artifact id.
    MissingArtifactId,
    /// REVISE_SLIDE answered without an artifact id.
    MissingRevisedId,
    /// A completed slide deck has a non-string id.
    ArtifactIdNotString,
    /// A slide deck without its PDF URL.
    MissingPdfUrl,
}

impl ClientError {
    /// The message shown for the error.
    pub fn message(&self) -> (r: String)
        ensures
            r@ == match self {
                ClientError::NotebookIdNotString => "Notebook ID is not a string"@,
                ClientError::MissingNotebookId => "CREATE_NOTEBOOK: missing notebook ID in response"@,
                ClientError::MissingSourceId => "ADD_SOURCE: missing source ID in response"@,
                ClientError::MissingArtifactId => "CREATE_ARTIFACT: missing artifact ID at result[0][0]"@,
                ClientError::MissingRevisedId => "REVISE_SLIDE: missing artifact ID at result[0][0]"@,
                ClientError::ArtifactIdNotString => "Existing slide deck: artifact ID is not a string"@,
                ClientError::MissingPdfUrl => "artifact[16][3] (PDF URL) is missing — slide deck may not be ready"@,
            },
    {
        match self {
            ClientError::NotebookIdNotString => owned("Notebook ID is not a string"),
            ClientError::MissingNotebookId => owned("CREATE_NOTEBOOK: missing notebook ID in response"),
            ClientError::MissingSourceId => owned("ADD_SOURCE: missing source ID in response"),
            ClientError::MissingArtifactId => owned("CREATE_ARTIFACT: missing artifact ID at result[0][0]"),
            ClientError::MissingRevisedId => owned("REVISE_SLIDE: missing artifact ID at result[0][0]"),
            ClientError::ArtifactIdNotString => owned("Existing slide deck: artifact ID is not a string"),
            ClientError::MissingPdfUrl => owned("artifact[16][3] (PDF URL) is missing — slide deck may not be ready"),
        }
    }
}

/// The string at `j`, copied.
fn str_at(j: &Json) -> (r: Option<String>)
    ensures
        r matches Some(s) ==> json_str(*j) == Some(s@),
        r is None ==> json_str(*j) is None,
{
    match j.as_str() {
        Some(s) => Some(owned(s)),
        None => None,
    }
}

/// `value[i]`, `Null` when missing.
fn at_or_null(j: &Json, i: usize) -> (r: &Json)
    ensures
        *r == json_at(*j, i as int) || (*r == Json::Null && json_at(*j, i as int) == Json::Null),
{
    match j.at(i) {
        Some(v) => v,
        None => &NULL,
    }
}

/// The `null` value.
pub const NULL: Json = Json::Null;

/// The string at `j[i]`.
fn str_at_index(j: &Json, i: usize) -> (r: Option<String>)
    ensures
        r matches Some(s) ==> json_str(json_at(*j, i as int)) == Some(s@),
        r is None ==> json_str(json_at(*j, i as int)) is None,
{
    str_at(at_or_null(j, i))
}

/// The notebooks of a LIST_NOTEBOOKS answer: `result[0]`, the array of
/// notebooks; an empty array when there are none (a `null` result, or no
/// array at `result[0]`).
pub fn notebooks_of(result: Json) -> (r: Json)
    ensures
        json_at(result, 0) is Array ==> r == json_at(result, 0),
        !(json_at(result, 0) is Array) ==> json_len(r) == 0,
{
    match result {
        Json::Array(mut v) => {
            if v.len() > 0 && v[0].is_array() {
                v.swap_remove(0)
            } else {
                Json::Array(Vec::new())
            }
        },
        _ => Json::Array(Vec::new()),
    }
}

/// Index of the first notebook titled `name` (`nb[0]`).
pub open spec fn first_titled(nbs: Seq<Json>, name: Seq<char>) -> Option<int>
    decreases nbs.len(),
{
    if nbs.len() == 0 {
        None
    } else if json_str(json_at(nbs[0], 0)) == Some(name) {
        Some(0)
    } else {
        match first_titled(nbs.drop_first(), name) {
            Some(k) => Some(k + 1),
            None => None,
        }
    }
}

/// The notebook titled `name` in a listing, if any.
pub open spec fn titled(notebooks: Json, name: Seq<char>) -> Option<Json> {
    match notebooks {
        Json::Array(v) => match first_titled(v@, name) {
            Some(k) => Some(v@[k]),
            None => None,
        },
        _ => None,
    }
}

pub proof fn lemma_first_titled_skip(nbs: Seq<Json>, name: Seq<char>, i: int)
    requires
        0 <= i <= nbs.len(),
        forall|k: int| 0 <= k < i ==> json_str(json_at(#[trigger] nbs[k], 0)) != Some(name),
    ensures
        first_titled(nbs, name) == match first_titled(nbs.skip(i), name) {
            Some(k) => Some(k + i),
            None => None,
        },
    decreases i,
{
    if i > 0 {
        lemma_first_titled_skip(nbs.drop_first(), name, i - 1);
        assert(nbs.drop_first().skip(i - 1) =~= nbs.skip(i));
    } else {
        assert(nbs.skip(0) =~= nbs);
    }
}

/// Looks a notebook up by title (`nb[0]`) and gives its id (`nb[2]`):
/// `Ok(None)` when no notebook has that title, an error when the first one
/// that has it carries no string id.
pub fn find_notebook_id(notebooks: &Json, name: &str) -> (r: Result<Option<String>, ClientError>)
    ensures
        match titled(*notebooks, name@) {
            Some(nb) => match json_str(json_at(nb, 2)) {
                Some(id) => r matches Ok(Some(s)) && s@ == id,
                None => r matches Err(ClientError::NotebookIdNotString),
            },
            None => r matches Ok(None),
        },
{
    match notebooks {
        Json::Array(v) => {
            let mut i: usize = 0;
            while i < v.len()
                invariant
                    i <= v@.len(),
                    *notebooks == Json::Array(*v),
                    forall|k: int| 0 <= k < i ==> json_str(json_at(#[trigger] v@[k], 0)) != Some(name@),
                decreases v.len() - i,
            {
                let title = str_at_index(&v[i], 0);
                let matches = match &title {
                    Some(t) => str_eq(t.as_str(), name),
                    None => false,
                };
                if matches {
                    proof {
                        lemma_first_titled_skip(v@, name@, i as int);
                    }
                    return match str_at_index(&v[i], 2) {
                        Some(id) => Ok(Some(id)),
                        None => Err(ClientError::NotebookIdNotString),
                    };
                }
                i += 1;
            }
            proof {
                lemma_first_titled_skip(v@, name@, i as int);
            }
            Ok(None)
        },
        _ => Ok(None),
    }
}

/// The id of a new notebook: `result[0]`.
pub fn created_notebook_id(result: &Json) -> (r: Result<String, ClientError>)
    ensures
        match json_str(json_at(*result, 0)) {
            Some(id) => r matches Ok(s) && s@ == id,
            None => r matches Err(ClientError::MissingNotebookId),
        },
{
    match str_at_index(result, 0) {
        Some(id) => Ok(id),
        None => Err(ClientError::MissingNotebookId),
    }
}

/// The id of a new source: `result[0]`.
pub fn added_source_id(result: &Json) -> (r: Result<String, ClientError>)
    ensures
        match json_str(json_at(*result, 0)) {
            Some(id) => r matches Ok(s) && s@ == id,
            None => r matches Err(ClientError::MissingSourceId),
        },
{
    match str_at_index(result, 0) {
        Some(id) => Ok(id),
        None => Err(ClientError::MissingSourceId),
    }
}

/// The artifact id of a CREATE_ARTIFACT (or, with `revised`, REVISE_SLIDE)
/// answer: `result[0][0]`.
pub fn artifact_id_of(result: &Json, revised: bool) -> (r: Result<String, ClientError>)
    ensures
        match json_str(json_at(json_at(*result, 0), 0)) {
            Some(id) => r matches Ok(s) && s@ == id,
            None => if revised {
                r matches Err(ClientError::MissingRevisedId)
            } else {
                r matches Err(ClientError::MissingArtifactId)
            },
        },
{
    match str_at_index(at_or_null(result, 0), 0) {
        Some(id) => Ok(id),
        None => if revised {
            Err(ClientError::MissingRevisedId)
        } else {
            Err(ClientError::MissingArtifactId)
        },
    }
}

/// The sources of a GET_NOTEBOOK answer: `result[0][1]` when it is an array.
pub fn sources_of(result: Json) -> (r: Vec<Json>)
    ensures
        match json_at(json_at(result, 0), 1) {
            Json::Array(v) => r@ == v@,
            _ => r@.len() == 0,
        },
{
    match notebooks_of_first(result) {
        Json::Array(mut info) => {
            if info.len() > 1 {
                match info.swap_remove(1) {
                    Json::Array(v) => v,
                    _ => Vec::new(),
                }
            } else {
                Vec::new()
            }
        },
        _ => Vec::new(),
    }
}

/// `result[0]`, moved out.
fn notebooks_of_first(result: Json) -> (r: Json)
    ensures
        r == json_at(result, 0),
{
    match result {
        Json::Array(mut v) => {
            if v.len() > 0 {
                v.swap_remove(0)
            } else {
                Json::Null
            }
        },
        _ => Json::Null,
    }
}

/// The id of a source of a notebook, for deletion: `src[0][0]` when
/// `src[0]` is an array, else `src[0]`.
pub open spec fn spec_delete_id(src: Json) -> Option<Seq<char>> {
    if json_at(src, 0) is Array {
        json_str(json_at(json_at(src, 0), 0))
    } else {
        json_str(json_at(src, 0))
    }
}

pub fn source_id_for_delete(src: &Json) -> (r: Option<String>)
    ensures
        r matches Some(s) ==> spec_delete_id(*src) == Some(s@),
        r is None ==> spec_delete_id(*src) is None,
{
    let first = at_or_null(src, 0);
    if first.is_array() {
        str_at_index(first, 0)
    } else {
        str_at(first)
    }
}

/// The id of a ready source: `src[0]` when it is a string, else `src[0][0]`.
pub open spec fn spec_ready_id(src: Json) -> Option<Seq<char>> {
    match json_str(json_at(src, 0)) {
        Some(s) => Some(s),
        None => json_str(json_at(json_at(src, 0), 0)),
    }
}

/// Whether a source is ready: `src[3][1] == 3`.
pub open spec fn is_ready(src: Json) -> bool {
    json_int(json_at(json_at(src, 3), 1)) == Some(STATUS_COMPLETED)
}

/// The ids of the ready sources, in order.
pub open spec fn ready_ids(sources: Seq<Json>) -> Seq<Seq<char>>
    decreases sources.len(),
{
    if sources.len() == 0 {
        Seq::empty()
    } else {
        let prev = ready_ids(sources.drop_last());
        let s = sources.last();
        if is_ready(s) {
            match spec_ready_id(s) {
                Some(id) => prev.push(id),
                None => prev,
            }
        } else {
            prev
        }
    }
}

/// The code of a source's processing status: `src[3][1]`.
pub open spec fn source_status(src: Json) -> Option<i64> {
    json_int(json_at(json_at(src, 3), 1))
}

/// Only sources whose processing completed (status code 3) are listed as
/// ready, each by its id; a failed source (code 4), or one with any other
/// code, never is. Every completed source with an id is listed.
pub proof fn law_ready_ids_are_completed_sources(sources: Seq<Json>)
    ensures
        forall|i: int|
            0 <= i < ready_ids(sources).len() ==> exists|k: int|
                0 <= k < sources.len() && source_status(#[trigger] sources[k]) == Some(3i64)
                    && spec_ready_id(sources[k]) == Some(#[trigger] ready_ids(sources)[i]),
        forall|k: int|
            0 <= k < sources.len() && source_status(#[trigger] sources[k]) == Some(3i64)
                && spec_ready_id(sources[k]) is Some ==> ready_ids(sources).contains(
                spec_ready_id(sources[k])->0,
            ),
    decreases sources.len(),
{
    if sources.len() > 0 {
        let d = sources.drop_last();
        law_ready_ids_are_completed_sources(d);
        let prev = ready_ids(d);
        let r = ready_ids(sources);
        let n = sources.len() - 1;
        assert(forall|k: int| 0 <= k < d.len() ==> d[k] == sources[k]);
        assert(prev.is_prefix_of(r));
        assert forall|i: int| 0 <= i < r.len() implies exists|k: int|
            0 <= k < sources.len() && source_status(#[trigger] sources[k]) == Some(3i64)
                && spec_ready_id(sources[k]) == Some(#[trigger] r[i]) by {
            if i < prev.len() {
                let k = choose|k: int|
                    0 <= k < d.len() && source_status(#[trigger] d[k]) == Some(3i64)
                        && spec_ready_id(d[k]) == Some(prev[i]);
                assert(sources[k] == d[k]);
            } else {
                assert(source_status(sources[n]) == Some(3i64));
            }
        }
        assert forall|k: int|
            0 <= k < sources.len() && source_status(#[trigger] sources[k]) == Some(3i64)
                && spec_ready_id(sources[k]) is Some implies r.contains(spec_ready_id(sources[k])->0) by {
            if k < n {
                assert(d[k] == sources[k]);
                let j = choose|j: int| 0 <= j < prev.len() && prev[j] == spec_ready_id(d[k])->0;
                assert(r[j] == prev[j]);
            } else {
                assert(r[r.len() - 1] == spec_ready_id(sources[k])->0);
            }
        }
    }
}

/// The ids of the sources that are ready, in order (used when reusing a
/// notebook without uploading).
pub fn ready_source_ids(sources: &Vec<Json>) -> (r: Vec<String>)
    ensures
        crate::text::views(r@) == ready_ids(sources@),
{
    let mut out: Vec<String> = Vec::new();
    let mut i: usize = 0;
    assert(crate::text::views(out@) =~= Seq::empty());
    while i < sources.len()
        invariant
            i <= sources@.len(),
            crate::text::views(out@) == ready_ids(sources@.take(i as int)),
        decreases sources.len() - i,
    {
        assert(sources@.take(i + 1).drop_last() =~= sources@.take(i as int));
        let src = &sources[i];
        let ready = match at_or_null(at_or_null(src, 3), 1).as_i64() {
            Some(n) => n == STATUS_COMPLETED,
            None => false,
        };
        if ready {
            let id = match str_at_index(src, 0) {
                Some(s) => Some(s),
                None => str_at_index(at_or_null(src, 0), 0),
            };
            match id {
                Some(s) => {
                    let ghost before = out@;
                    out.push(s);
                    assert(crate::text::views(out@) =~= crate::text::views(before).push(
                        spec_ready_id(sources@[i as int]).unwrap(),
                    ));
                },
                None => {},
            }
        }
        i += 1;
    }
    assert(sources@.take(sources@.len() as int) =~= sources@);
    out
}

/// The artifacts of a LIST_ARTIFACTS answer: none for `null`; else
/// `result[0]` when that is an array, else `result` itself; as a list.
pub open spec fn spec_artifacts(result: Json) -> Seq<Json> {
    if result is Null {
        Seq::empty()
    } else {
        let arr = if json_at(result, 0) is Array { json_at(result, 0) } else { result };
        match arr {
            Json::Array(v) => v@,
            _ => Seq::empty(),
        }
    }
}

pub fn artifacts_of(result: Json) -> (r: Vec<Json>)
    ensures
        r@ == spec_artifacts(result),
{
    let first_is_array = match result.at(0) {
        Some(v) => v.is_array(),
        None => false,
    };
    let arr = if first_is_array { notebooks_of_first(result) } else { result };
    match arr {
        Json::Array(v) => v,
        _ => Vec::new(),
    }
}

/// Whether an artifact is a completed slide deck: `a[2] == 8`, `a[4] == 3`.
pub open spec fn is_completed_deck(a: Json) -> bool {
    json_int(json_at(a, 2)) == Some(ARTIFACT_SLIDE_DECK) && json_int(json_at(a, 4)) == Some(
        STATUS_COMPLETED,
    )
}

/// The most recent completed slide deck among the artifacts: the first one
/// listed.
pub fn find_completed_slide_deck(artifacts: &Vec<Json>) -> (r: Option<usize>)
    ensures
        r matches Some(i) ==> i < artifacts@.len() && is_completed_deck(artifacts@[i as int])
            && forall|k: int| 0 <= k < i ==> !is_completed_deck(#[trigger] artifacts@[k]),
        r is None ==> forall|k: int| 0 <= k < artifacts@.len() ==> !is_completed_deck(
            #[trigger] artifacts@[k],
        ),
{
    let mut i: usize = 0;
    while i < artifacts.len()
        invariant
            i <= artifacts@.len(),
            forall|k: int| 0 <= k < i ==> !is_completed_deck(#[trigger] artifacts@[k]),
        decreases artifacts.len() - i,
    {
        let a = &artifacts[i];
        let kind = at_or_null(a, 2).as_i64();
        let status = at_or_null(a, 4).as_i64();
        if kind == Some(ARTIFACT_SLIDE_DECK) && status == Some(STATUS_COMPLETED) {
            return Some(i);
        }
        i += 1;
    }
    None
}

/// The id of an existing artifact: `artifact[0]`.
pub fn existing_artifact_id(artifact: &Json) -> (r: Result<String, ClientError>)
    ensures
        match json_str(json_at(*artifact, 0)) {
            Some(id) => r matches Ok(s) && s@ == id,
            None => r matches Err(ClientError::ArtifactIdNotString),
        },
{
    match str_at_index(artifact, 0) {
        Some(id) => Ok(id),
        None => Err(ClientError::ArtifactIdNotString),
    }
}

/// The PDF URL of a completed slide deck: `artifact[16][3]`.
pub fn pdf_url(artifact: &Json) -> (r: Result<String, ClientError>)
    ensures
        match json_str(json_at(json_at(*artifact, 16), 3)) {
            Some(u) => r matches Ok(s) && s@ == u,
            None => r matches Err(ClientError::MissingPdfUrl),
        },
{
    match str_at_index(at_or_null(artifact, 16), 3) {
        Some(u) => Ok(u),
        None => Err(ClientError::MissingPdfUrl),
    }
}

/// One line of the notebook listing: id (`nb[2]`, `?` when missing) and
/// title (`nb[0]`, `(unnamed)` when missing).
pub fn notebook_row(nb: &Json) -> (r: (String, String))
    ensures
        r.0@ == match json_str(json_at(*nb, 2)) {
            Some(s) => s,
            None => "?"@,
        },
        r.1@ == match json_str(json_at(*nb, 0)) {
            Some(s) => s,
            None => "(unnamed)"@,
        },
{
    let id = match str_at_index(nb, 2) {
        Some(s) => s,
        None => owned("?"),
    };
    let name = match str_at_index(nb, 0) {
        Some(s) => s,
        None => owned("(unnamed)"),
    };
    (id, name)
}

// ── Waiting for an artifact ─────────────────────────────────────────────────

/// How many times the artifact list is polled before giving up.
pub const MAX_POLLS: u32 = 200;

/// What one listing says of the awaited artifact.
pub enum PollStatus {
    /// Completed: the artifact is at this index of the listing.
    Completed(usize),
    Failed,
    Pending,
}

/// The first listed artifact whose id (`art[0]`) is `artifact_id`.
pub open spec fn first_with_id(arts: Seq<Json>, artifact_id: Seq<char>) -> Option<int>
    decreases arts.len(),
{
    if arts.len() == 0 {
        None
    } else if json_str(json_at(arts[0], 0)) == Some(artifact_id) {
        Some(0)
    } else {
        match first_with_id(arts.drop_first(), artifact_id) {
            Some(k) => Some(k + 1),
            None => None,
        }
    }
}

/// The status code of an artifact: `art[4]`, 0 when missing.
pub open spec fn status_code(art: Json) -> i64 {
    match json_int(json_at(art, 4)) {
        Some(n) => n,
        None => 0,
    }
}

pub open spec fn spec_poll_status(arts: Seq<Json>, artifact_id: Seq<char>) -> PollStatus {
    match first_with_id(arts, artifact_id) {
        Some(k) => if status_code(arts[k]) == STATUS_COMPLETED {
            PollStatus::Completed(k as usize)
        } else if status_code(arts[k]) == STATUS_FAILED {
            PollStatus::Failed
        } else {
            PollStatus::Pending
        },
        None => PollStatus::Pending,
    }
}

pub proof fn lemma_first_with_id_skip(arts: Seq<Json>, artifact_id: Seq<char>, i: int)
    requires
        0 <= i <= arts.len(),
        forall|k: int| 0 <= k < i ==> json_str(json_at(#[trigger] arts[k], 0)) != Some(artifact_id),
    ensures
        first_with_id(arts, artifact_id) == match first_with_id(arts.skip(i), artifact_id) {
            Some(k) => Some(k + i),
            None => None,
        },
    decreases i,
{
    if i > 0 {
        lemma_first_with_id_skip(arts.drop_first(), artifact_id, i - 1);
        assert(arts.drop_first().skip(i - 1) =~= arts.skip(i));
    } else {
        assert(arts.skip(0) =~= arts);
    }
}

/// What a listing says of the awaited artifact: the first entry with its id
/// decides (completed, failed, or still running); no entry means still
/// running.
pub fn poll_status(artifacts: &Vec<Json>, artifact_id: &str) -> (r: PollStatus)
    ensures
        r == spec_poll_status(artifacts@, artifact_id@),
{
    let mut i: usize = 0;
    while i < artifacts.len()
        invariant
            i <= artifacts@.len(),
            forall|k: int| 0 <= k < i ==> json_str(json_at(#[trigger] artifacts@[k], 0)) != Some(artifact_id@),
        decreases artifacts.len() - i,
    {
        let id = str_at_index(&artifacts[i], 0);
        let same = match &id {
            Some(s) => str_eq(s.as_str(), artifact_id),
            None => false,
        };
        if same {
            proof {
                lemma_first_with_id_skip(artifacts@, artifact_id@, i as int);
            }
            let status = match at_or_null(&artifacts[i], 4).as_i64() {
                Some(n) => n,
                None => 0,
            };
            return if status == STATUS_COMPLETED {
                PollStatus::Completed(i)
            } else if status == STATUS_FAILED {
                PollStatus::Failed
            } else {
                PollStatus::Pending
            };
        }
        i += 1;
    }
    proof {
        lemma_first_with_id_skip(artifacts@, artifact_id@, i as int);
    }
    PollStatus::Pending
}

/// The pause after the `attempt`-th poll (counting from 0) found the
/// artifact still running: 3 s for the first ten, then 10 s.
pub open spec fn spec_poll_delay(attempt: nat) -> nat {
    if attempt < 10 { 3 } else { 10 }
}

/// What to do after a poll.
pub enum WaitAction {
    /// Done: the artifact is at this index of the listing.
    Done(usize),
    /// The artifact's generation failed.
    Failed,
    /// Sleep this many seconds, then poll again.
    Sleep(u64),
    /// Sleep this many seconds, then give up: the polls are used up.
    GiveUp(u64),
}

/// The waiting loop's state: how many polls have been made.
pub struct ArtifactWait {
    polls: u32,
}

impl ArtifactWait {
    pub closed spec fn polls(&self) -> nat {
        self.polls as nat
    }

    /// Before the first poll.
    pub fn new() -> (r: Self)
        ensures
            r.polls() == 0,
    {
        ArtifactWait { polls: 0 }
    }

    /// Decides, from one listing, whether the wait is over.
    pub fn on_listing(&mut self, artifacts: &Vec<Json>, artifact_id: &str) -> (r: WaitAction)
        requires
            old(self).polls() < MAX_POLLS,
        ensures
            final(self).polls() == old(self).polls() + 1,
            match spec_poll_status(artifacts@, artifact_id@) {
                PollStatus::Completed(i) => r == WaitAction::Done(i),
                PollStatus::Failed => r == WaitAction::Failed,
                PollStatus::Pending => if final(self).polls() < MAX_POLLS {
                    r == WaitAction::Sleep(spec_poll_delay(old(self).polls()) as u64)
                } else {
                    r == WaitAction::GiveUp(spec_poll_delay(old(self).polls()) as u64)
                },
            },
    {
        let attempt = self.polls;
        self.polls = self.polls + 1;
        match poll_status(artifacts, artifact_id) {
            PollStatus::Completed(i) => WaitAction::Done(i),
            PollStatus::Failed => WaitAction::Failed,
            PollStatus::Pending => {
                let delay: u64 = if attempt < 10 { 3 } else { 10 };
                if self.polls < MAX_POLLS {
                    WaitAction::Sleep(delay)
                } else {
                    WaitAction::GiveUp(delay)
                }
            },
        }
    }
}

} // verus!
