use nlm::cli::ArtifactType;
use nlm::commands::{
    artifact_file_name, lex_less, nb_dir_label, next_hint, project_file_name, project_names, project_template,
    report_request, run_plan, slide_index, Generation, NotebookChoice, BRIEFING_DOC_PROMPT, STUDY_GUIDE_PROMPT,
};
use nlm::config::{ArtifactInstructions, Config, GenerateConfig, NotebookConfig, Source};

#[test]
fn new_project_template_names_the_project() {
    let content = project_template("myproject");
    assert!(content.starts_with("# Project: myproject\n# Run: nlm run --project myproject\n"));
    assert!(content.contains("  name: \"myproject\"\n"));
    assert!(!content.contains("{name}"));
    assert!(content.contains("  default_artifact: slide-deck  # slide-deck | study-guide | briefing-doc | audio\n"));
    assert!(content.ends_with("sources:\n  # - type: url\n  #   url: \"https://docs.example.com/guide\"\n  #   title: \"User Guide\"\n"));
    assert_eq!(project_file_name("myproject"), "myproject.yaml");
}

#[test]
fn project_names_are_sorted_yaml_stems() {
    let files = vec![
        "zeta.yaml".to_string(),
        "notes.txt".to_string(),
        "alpha.yaml".to_string(),
        "Beta.yaml".to_string(),
        "archive.yaml.bak".to_string(),
        "alpha.v2.yaml".to_string(),
        "README".to_string(),
    ];
    assert_eq!(project_names(&files), vec!["Beta", "alpha", "alpha.v2", "zeta"]);
    assert_eq!(project_names(&Vec::new()), Vec::<String>::new());
}

#[test]
fn project_names_keep_duplicates() {
    let files = vec!["b.yaml".to_string(), "a.yaml".to_string(), "b.yaml".to_string()];
    assert_eq!(project_names(&files), vec!["a", "b", "b"]);
}

#[test]
fn lexicographic_order_of_names() {
    assert!(lex_less("a", "b"));
    assert!(lex_less("ab", "abc"));
    assert!(!lex_less("abc", "ab"));
    assert!(!lex_less("same", "same"));
    assert!(lex_less("Z", "a"));
    assert!(lex_less("", "a"));
    assert!(lex_less("e", "é"));
}

#[test]
fn report_requests_for_study_guide_and_briefing_doc() {
    let plain = report_request(ArtifactType::StudyGuide, None).unwrap();
    assert_eq!(plain.title, "Study Guide");
    assert_eq!(plain.description, "Short-answer quiz, essay questions, glossary");
    assert_eq!(plain.prompt, STUDY_GUIDE_PROMPT);
    assert!(STUDY_GUIDE_PROMPT.starts_with("Create a comprehensive study guide that includes key concepts, short-answer"));

    let extra = report_request(ArtifactType::BriefingDoc, Some("Keep it short.")).unwrap();
    assert_eq!(extra.title, "Briefing Doc");
    assert_eq!(extra.description, "Key insights and important quotes");
    assert_eq!(extra.prompt, format!("{BRIEFING_DOC_PROMPT}\n\nKeep it short."));

    let empty = report_request(ArtifactType::StudyGuide, Some("")).unwrap();
    assert_eq!(empty.prompt, STUDY_GUIDE_PROMPT);

    assert!(report_request(ArtifactType::SlideDeck, Some("x")).is_none());
    assert!(report_request(ArtifactType::Audio, None).is_none());
}

#[test]
fn slide_numbers_are_one_based() {
    assert_eq!(slide_index(1), 0);
    assert_eq!(slide_index(5), 4);
    assert_eq!(slide_index(0), 0);
    assert_eq!(slide_index(u32::MAX), u32::MAX - 1);
}

#[test]
fn output_names_and_hints() {
    assert_eq!(artifact_file_name(Some("myproject"), "nb-1", "pdf"), "myproject.pdf");
    assert_eq!(artifact_file_name(None, "nb-1", "md"), "nb-1.md");
    assert_eq!(nb_dir_label("output/markdown"), "output/markdown");
    assert_eq!(next_hint(Some("myproject")), "  Next   : nlm run --project myproject");
    assert_eq!(next_hint(None), "  Next   : nlm run");
}

fn plan_cfg(name: Option<&str>, default_artifact: Option<&str>, with_sources: bool) -> Config {
    Config {
        notebook: Some(NotebookConfig {
            name: name.map(|s| s.to_string()),
            language: Some("en".to_string()),
            default_artifact: default_artifact.map(|s| s.to_string()),
        }),
        generate: Some(GenerateConfig {
            timeout: None,
            slide_deck: Some(ArtifactInstructions { instructions: Some("Short".to_string()) }),
            audio: None,
            study_guide: Some(ArtifactInstructions { instructions: Some("Add a quiz.".to_string()) }),
            briefing_doc: None,
        }),
        sources: if with_sources {
            Some(vec![Source::Url { url: "https://e".to_string(), title: "E".to_string() }])
        } else {
            Some(vec![])
        },
    }
}

#[test]
fn run_plan_for_a_slide_deck() {
    let cfg = plan_cfg(Some("Q1"), None, true);
    let plan = run_plan(Some("q1"), None, None, None, false, &cfg);
    assert_eq!(plan.artifact_type, ArtifactType::SlideDeck);
    assert!(plan.sync);
    assert!(plan.upload_allowed);
    assert!(matches!(plan.notebook, NotebookChoice::Named(ref n) if n == "Q1"));
    assert_eq!(plan.language, "en");
    assert!(matches!(plan.generation, Generation::SlideDeck { instructions: Some(ref i) } if i == "Short"));
}

#[test]
fn run_plan_for_reports_audio_and_skipped_uploads() {
    let cfg = plan_cfg(None, Some("study-guide"), false);
    let plan = run_plan(Some("q1"), None, Some("de"), Some("nb-7"), true, &cfg);
    assert_eq!(plan.artifact_type, ArtifactType::StudyGuide);
    assert!(!plan.sync);
    assert!(plan.upload_allowed);
    assert!(matches!(plan.notebook, NotebookChoice::Id(ref i) if i == "nb-7"));
    assert_eq!(plan.language, "de");
    match plan.generation {
        Generation::Report(q) => {
            assert_eq!(q.title, "Study Guide");
            assert_eq!(q.prompt, format!("{STUDY_GUIDE_PROMPT}\n\nAdd a quiz."));
        }
        _ => panic!("expected a report"),
    }
    let no_name = run_plan(None, Some(ArtifactType::Audio), None, None, true, &plan_cfg(None, None, false));
    assert!(!no_name.upload_allowed);
    assert!(matches!(no_name.generation, Generation::Audio));
    assert!(matches!(no_name.notebook, NotebookChoice::Named(ref n) if n == "Default Notebook"));
    let by_project = run_plan(Some("roadmap"), None, None, None, false, &plan_cfg(None, None, false));
    assert!(matches!(by_project.notebook, NotebookChoice::Named(ref n) if n == "roadmap"));
    let brief = run_plan(None, Some(ArtifactType::BriefingDoc), None, None, false, &cfg);
    assert!(matches!(brief.generation, Generation::Report(ref q) if q.prompt == BRIEFING_DOC_PROMPT));
}
