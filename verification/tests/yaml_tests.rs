use nlm::yaml::{deep_merge, yaml_eq, Yaml};

fn s(x: &str) -> Yaml {
    Yaml::Str(x.to_string())
}

fn num(x: &str) -> Yaml {
    Yaml::Number(x.to_string())
}

fn map(entries: Vec<(&str, Yaml)>) -> Yaml {
    Yaml::Mapping(entries.into_iter().map(|(k, v)| (s(k), v)).collect())
}

#[test]
fn project_config_is_deep_merged_over_global() {
    // config/notebook.yaml
    let global = map(vec![
        ("notebook", map(vec![("name", s("My Notebook")), ("language", s("en")), ("default_artifact", s("slide-deck"))])),
        (
            "generate",
            map(vec![
                ("timeout", num("120")),
                ("slide_deck", map(vec![("instructions", s("Focus on executive summary slides."))])),
            ]),
        ),
    ]);
    // config/projects/<name>.yaml
    let project = map(vec![
        ("notebook", map(vec![("name", s("Q1 Engineering Review"))])),
        ("sources", Yaml::Sequence(vec![map(vec![("type", s("url")), ("url", s("https://example.com/report.html"))])])),
    ]);
    let merged = deep_merge(global, project);
    let expected = map(vec![
        (
            "notebook",
            map(vec![("name", s("Q1 Engineering Review")), ("language", s("en")), ("default_artifact", s("slide-deck"))]),
        ),
        (
            "generate",
            map(vec![
                ("timeout", num("120")),
                ("slide_deck", map(vec![("instructions", s("Focus on executive summary slides."))])),
            ]),
        ),
        ("sources", Yaml::Sequence(vec![map(vec![("type", s("url")), ("url", s("https://example.com/report.html"))])])),
    ]);
    assert!(yaml_eq(&merged, &expected));
}

#[test]
fn override_wins_when_not_both_mappings() {
    assert!(yaml_eq(&deep_merge(s("a"), s("b")), &s("b")));
    assert!(yaml_eq(&deep_merge(map(vec![("k", s("v"))]), num("3")), &num("3")));
    assert!(yaml_eq(&deep_merge(num("3"), map(vec![("k", s("v"))])), &map(vec![("k", s("v"))])));
    let seq_over = Yaml::Sequence(vec![s("x")]);
    assert!(yaml_eq(&deep_merge(Yaml::Sequence(vec![s("a"), s("b")]), seq_over), &Yaml::Sequence(vec![s("x")])));
    assert!(yaml_eq(&deep_merge(s("a"), Yaml::Null), &Yaml::Null));
}

#[test]
fn empty_override_keeps_global() {
    let global = map(vec![("a", num("1")), ("b", map(vec![("c", Yaml::Bool(true))]))]);
    let same = map(vec![("a", num("1")), ("b", map(vec![("c", Yaml::Bool(true))]))]);
    assert!(yaml_eq(&deep_merge(global, Yaml::Mapping(vec![])), &same));
}

#[test]
fn new_keys_are_appended_in_override_order() {
    let merged = deep_merge(map(vec![("a", num("1"))]), map(vec![("c", num("3")), ("b", num("2")), ("a", num("9"))]));
    assert!(yaml_eq(&merged, &map(vec![("a", num("9")), ("c", num("3")), ("b", num("2"))])));
    assert!(!yaml_eq(&merged, &map(vec![("a", num("9")), ("b", num("2")), ("c", num("3"))])));
}

#[test]
fn yaml_equality_is_structural() {
    assert!(yaml_eq(&Yaml::Tagged("!t".to_string(), Box::new(s("x"))), &Yaml::Tagged("!t".to_string(), Box::new(s("x")))));
    assert!(!yaml_eq(&Yaml::Tagged("!t".to_string(), Box::new(s("x"))), &Yaml::Tagged("!u".to_string(), Box::new(s("x")))));
    assert!(!yaml_eq(&s("1"), &num("1")));
    assert!(!yaml_eq(&Yaml::Sequence(vec![s("a")]), &Yaml::Sequence(vec![s("a"), s("b")])));
}

#[test]
fn merging_into_empty_mapping_gives_the_override() {
    let project = map(vec![("b", num("2")), ("a", map(vec![("x", s("y"))]))]);
    let same = map(vec![("b", num("2")), ("a", map(vec![("x", s("y"))]))]);
    assert!(yaml_eq(&deep_merge(Yaml::Mapping(vec![]), project), &same));
}

#[test]
fn merging_a_config_with_itself_gives_it_back() {
    let cfg = || map(vec![("a", num("1")), ("b", map(vec![("c", Yaml::Bool(true)), ("d", Yaml::Null)]))]);
    assert!(yaml_eq(&deep_merge(cfg(), cfg()), &cfg()));
    assert!(yaml_eq(&deep_merge(s("x"), s("x")), &s("x")));
}
