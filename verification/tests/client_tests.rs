use nlm::json::Json;
use nlm::notebooklm::client::{
    added_source_id, artifact_id_of, artifacts_of, create_notebook_params, created_notebook_id,
    delete_source_params, existing_artifact_id, find_completed_slide_deck, find_notebook_id,
    get_notebook_params, list_artifacts_params, list_notebooks_params, notebook_row, notebook_source_path,
    notebooks_of, pdf_url, poll_status, ready_source_ids, revise_slide_params, slide_deck_params, sources_of,
    source_id_for_delete, add_text_source_params, ArtifactWait, ClientError, PollStatus, WaitAction, MAX_POLLS,
};

fn text(j: &Json) -> String {
    match j {
        Json::Null => "null".to_string(),
        Json::Bool(b) => b.to_string(),
        Json::Int(n) => n.to_string(),
        Json::OtherNumber(s) => s.clone(),
        Json::Str(s) => format!("{s:?}"),
        Json::Array(v) => format!("[{}]", v.iter().map(text).collect::<Vec<_>>().join(",")),
        Json::Object(e) => {
            format!("{{{}}}", e.iter().map(|(k, v)| format!("{k:?}:{}", text(v))).collect::<Vec<_>>().join(","))
        }
    }
}

fn s(x: &str) -> Json {
    Json::Str(x.to_string())
}

fn a(v: Vec<Json>) -> Json {
    Json::Array(v)
}

fn artifact(id: &str, kind: i64, status: i64) -> Json {
    a(vec![s(id), Json::Null, Json::Int(kind), Json::Null, Json::Int(status)])
}

#[test]
fn call_parameters_have_the_documented_shapes() {
    assert_eq!(notebook_source_path("nb1"), "/notebook/nb1");
    assert_eq!(text(&list_notebooks_params()), "[null,1,null,[2]]");
    assert_eq!(text(&create_notebook_params("Q1")), "[\"Q1\",null,null,[2],[1]]");
    assert_eq!(text(&get_notebook_params("nb1")), "[\"nb1\",null,[2],null,0]");
    assert_eq!(text(&delete_source_params("src1")), "[[[\"src1\"]]]");
    assert_eq!(
        text(&add_text_source_params("nb1", "Title", "Body")),
        "[[[null,[\"Title\",\"Body\"],null,null,null,null,null,null]],\"nb1\",[2],null,null]"
    );
    assert_eq!(text(&revise_slide_params("art1", 2, "Fix")), "[[2],\"art1\",[[[2,\"Fix\"]]]]");
    assert_eq!(
        text(&list_artifacts_params("nb1")),
        "[[2],\"nb1\",\"NOT artifact.status = \\\"ARTIFACT_STATUS_SUGGESTED\\\"\"]"
    );
}

#[test]
fn slide_deck_parameters() {
    let ids = vec!["s1".to_string(), "s2".to_string()];
    assert_eq!(
        text(&slide_deck_params("nb1", &ids, Some("Be brief"), "fr")),
        "[[2],\"nb1\",[null,null,8,[[[[\"s1\"]]],[[[\"s2\"]]]],null,null,null,null,null,null,null,null,null,null,null,null,[[\"Be brief\",\"fr\",null,null]]]]"
    );
    assert_eq!(
        text(&slide_deck_params("nb1", &Vec::new(), None, "en")),
        "[[2],\"nb1\",[null,null,8,[],null,null,null,null,null,null,null,null,null,null,null,null,[[null,\"en\",null,null]]]]"
    );
}

#[test]
fn notebook_listing_and_lookup() {
    assert_eq!(text(&notebooks_of(Json::Null)), "[]");
    assert_eq!(text(&notebooks_of(a(vec![]))), "[]");
    assert_eq!(text(&notebooks_of(a(vec![s("x")]))), "[]");
    assert_eq!(text(&notebooks_of(a(vec![a(vec![])]))), "[]");
    let listing = a(vec![a(vec![a(vec![s("A"), Json::Null, s("id-a")]), a(vec![s("B"), Json::Null, Json::Int(5)])])]);
    let notebooks = notebooks_of(listing);
    assert!(matches!(find_notebook_id(&notebooks, "A"), Ok(Some(ref id)) if id == "id-a"));
    assert!(matches!(find_notebook_id(&notebooks, "B"), Err(ClientError::NotebookIdNotString)));
    assert!(matches!(find_notebook_id(&notebooks, "C"), Ok(None)));
    assert!(matches!(find_notebook_id(&Json::Null, "A"), Ok(None)));
    let (id, title) = notebook_row(&a(vec![s("A"), Json::Null, s("id-a")]));
    assert_eq!((id.as_str(), title.as_str()), ("id-a", "A"));
    let (id2, title2) = notebook_row(&a(vec![]));
    assert_eq!((id2.as_str(), title2.as_str()), ("?", "(unnamed)"));
}

#[test]
fn ids_read_from_answers() {
    assert!(matches!(created_notebook_id(&a(vec![s("nb-new")])), Ok(ref x) if x == "nb-new"));
    assert!(matches!(created_notebook_id(&Json::Null), Err(ClientError::MissingNotebookId)));
    assert!(matches!(added_source_id(&a(vec![s("src-9")])), Ok(ref x) if x == "src-9"));
    assert!(matches!(added_source_id(&a(vec![Json::Int(1)])), Err(ClientError::MissingSourceId)));
    assert!(matches!(artifact_id_of(&a(vec![a(vec![s("art-1")])]), false), Ok(ref x) if x == "art-1"));
    assert!(matches!(artifact_id_of(&a(vec![s("art-1")]), false), Err(ClientError::MissingArtifactId)));
    assert!(matches!(artifact_id_of(&Json::Null, true), Err(ClientError::MissingRevisedId)));
    assert_eq!(
        ClientError::MissingPdfUrl.message(),
        "artifact[16][3] (PDF URL) is missing — slide deck may not be ready"
    );
}

#[test]
fn sources_and_their_ids() {
    let src_a = a(vec![a(vec![s("id-a")]), Json::Null, Json::Null, a(vec![Json::Null, Json::Int(3)])]);
    let src_b = a(vec![s("id-b"), Json::Null, Json::Null, a(vec![Json::Null, Json::Int(2)])]);
    let src_c = a(vec![s("id-c"), Json::Null, Json::Null, a(vec![Json::Null, Json::Int(3)])]);
    let result = a(vec![a(vec![s("title"), a(vec![src_a, src_b, src_c])])]);
    let sources = sources_of(result);
    assert_eq!(sources.len(), 3);
    assert_eq!(source_id_for_delete(&sources[0]).as_deref(), Some("id-a"));
    assert_eq!(source_id_for_delete(&sources[1]).as_deref(), Some("id-b"));
    assert_eq!(source_id_for_delete(&Json::Null), None);
    assert_eq!(ready_source_ids(&sources), vec!["id-a", "id-c"]);
    assert_eq!(sources_of(Json::Null).len(), 0);
    assert_eq!(sources_of(a(vec![a(vec![s("t"), s("not a list")])])).len(), 0);
}

#[test]
fn artifacts_and_completed_decks() {
    assert!(artifacts_of(Json::Null).is_empty());
    let nested = a(vec![a(vec![artifact("x", 2, 3), artifact("y", 8, 1), artifact("z", 8, 3), artifact("w", 8, 3)])]);
    let arts = artifacts_of(nested);
    assert_eq!(arts.len(), 4);
    assert_eq!(find_completed_slide_deck(&arts), Some(2));
    assert!(matches!(existing_artifact_id(&arts[2]), Ok(ref x) if x == "z"));
    assert!(matches!(existing_artifact_id(&Json::Null), Err(ClientError::ArtifactIdNotString)));
    let flat = artifacts_of(a(vec![s("lone"), Json::Null]));
    assert_eq!(flat.len(), 2);
    assert_eq!(find_completed_slide_deck(&flat), None);
    let mut deck: Vec<Json> = (0..17).map(|_| s("d")).collect();
    deck[16] = a(vec![Json::Null, Json::Null, Json::Null, s("https://pdf")]);
    assert!(matches!(pdf_url(&a(deck)), Ok(ref u) if u == "https://pdf"));
    assert!(matches!(pdf_url(&artifact("d", 8, 3)), Err(ClientError::MissingPdfUrl)));
}

#[test]
fn poll_status_uses_the_first_matching_artifact() {
    let arts = vec![artifact("a", 8, 1), artifact("b", 8, 3), artifact("b", 8, 4)];
    assert!(matches!(poll_status(&arts, "b"), PollStatus::Completed(1)));
    assert!(matches!(poll_status(&arts, "a"), PollStatus::Pending));
    assert!(matches!(poll_status(&vec![artifact("c", 8, 4)], "c"), PollStatus::Failed));
    assert!(matches!(poll_status(&arts, "missing"), PollStatus::Pending));
    assert!(matches!(poll_status(&vec![a(vec![s("d")])], "d"), PollStatus::Pending));
}

#[test]
fn waiting_sleeps_three_then_ten_seconds_and_gives_up_at_the_limit() {
    let pending = vec![artifact("a", 8, 1)];
    let mut wait = ArtifactWait::new();
    let mut delays = Vec::new();
    let mut last = None;
    for _ in 0..MAX_POLLS {
        match wait.on_listing(&pending, "a") {
            WaitAction::Sleep(d) => delays.push(d),
            WaitAction::GiveUp(d) => {
                last = Some(d);
                break;
            }
            _ => panic!("unexpected end of wait"),
        }
    }
    assert_eq!(delays.len(), MAX_POLLS as usize - 1);
    assert!(delays[..10].iter().all(|d| *d == 3));
    assert!(delays[10..].iter().all(|d| *d == 10));
    assert_eq!(last, Some(10));
}

#[test]
fn waiting_ends_on_completion_or_failure() {
    let mut wait = ArtifactWait::new();
    assert!(matches!(wait.on_listing(&vec![artifact("a", 8, 1)], "a"), WaitAction::Sleep(3)));
    assert!(matches!(wait.on_listing(&vec![artifact("b", 8, 3), artifact("a", 8, 3)], "a"), WaitAction::Done(1)));
    let mut other = ArtifactWait::new();
    assert!(matches!(other.on_listing(&vec![artifact("a", 8, 4)], "a"), WaitAction::Failed));
}
