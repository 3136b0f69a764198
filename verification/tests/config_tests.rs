use nlm::cli::ArtifactType;
use nlm::config::{
    artifact_instructions, notebook_name, resolve_artifact_type, resolve_language, skip_upload_allowed,
    source_title, source_type, ArtifactInstructions, Config, GenerateConfig, NotebookConfig, Source,
};

fn cfg_with(name: Option<&str>, language: Option<&str>, default_artifact: Option<&str>) -> Config {
    Config {
        notebook: Some(NotebookConfig {
            name: name.map(|s| s.to_string()),
            language: language.map(|s| s.to_string()),
            default_artifact: default_artifact.map(|s| s.to_string()),
        }),
        generate: None,
        sources: None,
    }
}

fn empty_cfg() -> Config {
    Config { notebook: None, generate: None, sources: None }
}

#[test]
fn artifact_type_parses_config_names() {
    assert_eq!(ArtifactType::from_config("slide-deck"), Some(ArtifactType::SlideDeck));
    assert_eq!(ArtifactType::from_config("study-guide"), Some(ArtifactType::StudyGuide));
    assert_eq!(ArtifactType::from_config("briefing-doc"), Some(ArtifactType::BriefingDoc));
    assert_eq!(ArtifactType::from_config("audio"), Some(ArtifactType::Audio));
    assert_eq!(ArtifactType::from_config("Audio"), None);
    assert_eq!(ArtifactType::from_config(""), None);
}

#[test]
fn artifact_type_name_round_trips() {
    for t in [ArtifactType::SlideDeck, ArtifactType::StudyGuide, ArtifactType::BriefingDoc, ArtifactType::Audio] {
        assert_eq!(ArtifactType::from_config(&t.to_string()), Some(t));
        assert_eq!(t.as_str(), t.to_string());
    }
    assert_eq!(ArtifactType::BriefingDoc.to_string(), "briefing-doc");
}

#[test]
fn language_prefers_command_line_then_config_then_fr() {
    let cfg = cfg_with(None, Some("en"), None);
    assert_eq!(resolve_language(Some("de"), &cfg), "de");
    assert_eq!(resolve_language(None, &cfg), "en");
    assert_eq!(resolve_language(None, &empty_cfg()), "fr");
    assert_eq!(resolve_language(None, &cfg_with(Some("x"), None, None)), "fr");
}

#[test]
fn artifact_type_prefers_command_line_then_config_then_slide_deck() {
    let cfg = cfg_with(None, None, Some("study-guide"));
    assert_eq!(resolve_artifact_type(Some(ArtifactType::Audio), &cfg), ArtifactType::Audio);
    assert_eq!(resolve_artifact_type(None, &cfg), ArtifactType::StudyGuide);
    assert_eq!(resolve_artifact_type(None, &cfg_with(None, None, Some("poster"))), ArtifactType::SlideDeck);
    assert_eq!(resolve_artifact_type(None, &empty_cfg()), ArtifactType::SlideDeck);
}

#[test]
fn instructions_are_read_per_artifact_type_and_empty_counts_as_none() {
    let cfg = Config {
        notebook: None,
        generate: Some(GenerateConfig {
            timeout: Some(120),
            slide_deck: Some(ArtifactInstructions { instructions: Some("Focus on executive summary slides.".to_string()) }),
            audio: Some(ArtifactInstructions { instructions: Some(String::new()) }),
            study_guide: None,
            briefing_doc: Some(ArtifactInstructions { instructions: None }),
        }),
        sources: None,
    };
    assert_eq!(
        artifact_instructions(&cfg, ArtifactType::SlideDeck).as_deref(),
        Some("Focus on executive summary slides.")
    );
    assert_eq!(artifact_instructions(&cfg, ArtifactType::Audio), None);
    assert_eq!(artifact_instructions(&cfg, ArtifactType::StudyGuide), None);
    assert_eq!(artifact_instructions(&cfg, ArtifactType::BriefingDoc), None);
    assert_eq!(artifact_instructions(&empty_cfg(), ArtifactType::SlideDeck), None);
}

#[test]
fn notebook_name_prefers_config_then_project() {
    assert_eq!(notebook_name(&cfg_with(Some("Q1 Engineering Review"), None, None), Some("q1")), "Q1 Engineering Review");
    assert_eq!(notebook_name(&cfg_with(None, Some("en"), None), Some("q1")), "q1");
    assert_eq!(notebook_name(&cfg_with(None, Some("en"), None), None), "Default Notebook");
    assert_eq!(notebook_name(&empty_cfg(), None), "Default Notebook");
}

#[test]
fn skip_upload_needs_an_id_or_a_name() {
    let named = cfg_with(Some("My Notebook"), None, None);
    assert!(skip_upload_allowed(false, false, &empty_cfg()));
    assert!(skip_upload_allowed(true, true, &empty_cfg()));
    assert!(skip_upload_allowed(true, false, &named));
    assert!(!skip_upload_allowed(true, false, &empty_cfg()));
}

#[test]
fn source_type_and_title() {
    let sources = vec![
        Source::Confluence {
            id: "123456".to_string(),
            title: "Architecture Decision Records".to_string(),
            step: None,
            step_label: None,
            base_url: Some("https://yourcompany.atlassian.net".to_string()),
        },
        Source::Notion { id: "abc123".to_string(), title: "Product Roadmap".to_string() },
        Source::Url { url: "https://example.com/report.html".to_string(), title: "Market Report".to_string() },
        Source::File { path: "docs/local-notes.md".to_string(), title: "Local Notes".to_string() },
        Source::Pptx { path: "templates/brand.pptx".to_string(), title: "Brand Charter".to_string(), dry_run: None },
    ];
    let types: Vec<&str> = sources.iter().map(source_type).collect();
    assert_eq!(types, vec!["confluence", "notion", "url", "file", "pptx"]);
    let titles: Vec<&str> = sources.iter().map(source_title).collect();
    assert_eq!(
        titles,
        vec!["Architecture Decision Records", "Product Roadmap", "Market Report", "Local Notes", "Brand Charter"]
    );
}
