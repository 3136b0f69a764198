use vstd::prelude::*;

use crate::adapters::file::{extension, spec_extension, spec_stem, stem};
use crate::cli::ArtifactType;
use crate::config::{
    artifact_instructions, config_default_artifact, config_instructions, config_language, config_notebook_name,
    notebook_name, resolve_artifact_type, resolve_language, skip_upload_allowed, spec_notebook_name, Config,
};
use crate::json::str_eq;
use crate::text::{chars_of, owned, push_str, replace_all, replace_str, views};

verus! {

// ── New projects ────────────────────────────────────────────────────────────

/// The config written for a new project; `{name}` stands for its name.
pub const PROJECT_TEMPLATE: &'static str = "# Project: {name}
# Run: nlm run --project {name}
#
# This file overrides config/notebook.yaml for this specific project.

notebook:
  name: \"{name}\"
  language: fr                  # BCP-47 code: fr, en, de, nl, …
  default_artifact: slide-deck  # slide-deck | study-guide | briefing-doc | audio

generate:
  timeout: 900

  slide_deck:
    instructions: \"\"

  audio:
    instructions: \"\"

sources:
  # - type: url
  #   url: \"https://docs.example.com/guide\"
  #   title: \"User Guide\"
";

/// The config of a new project: the template with every `{name}` replaced
/// by the project's name.
pub fn project_template(name: &str) -> (r: String)
    ensures
        r@ == replace_all(PROJECT_TEMPLATE@, "{name}"@, name@),
{
    proof {
        reveal_strlit("{name}");
    }
    replace_str(PROJECT_TEMPLATE, "{name}", name)
}

/// `<name>.yaml`: the file of a project's config.
pub fn project_file_name(name: &str) -> (r: String)
    ensures
        r@ == name@ + ".yaml"@,
{
    let mut f = owned(name);
    push_str(&mut f, ".yaml");
    f
}

// ── Listing projects ────────────────────────────────────────────────────────

/// Strict lexicographic order of strings, character by character (the
/// order of `String`, whose UTF-8 bytes compare as the code points do).
pub open spec fn lex_lt(a: Seq<char>, b: Seq<char>) -> bool
    decreases a.len(),
{
    if a.len() == 0 {
        b.len() > 0
    } else if b.len() == 0 {
        false
    } else if a[0] != b[0] {
        (a[0] as u32) < (b[0] as u32)
    } else {
        lex_lt(a.drop_first(), b.drop_first())
    }
}

pub fn lex_less(a: &str, b: &str) -> (r: bool)
    ensures
        r == lex_lt(a@, b@),
{
    let x = chars_of(a);
    let y = chars_of(b);
    let mut i: usize = 0;
    assert(a@.skip(0) =~= a@);
    assert(b@.skip(0) =~= b@);
    while i < x.len() && i < y.len() && x[i] == y[i]
        invariant
            x@ == a@,
            y@ == b@,
            i <= x@.len(),
            i <= y@.len(),
            lex_lt(a@, b@) == lex_lt(a@.skip(i as int), b@.skip(i as int)),
        decreases x.len() - i,
    {
        assert(a@.skip(i as int).drop_first() =~= a@.skip(i + 1));
        assert(b@.skip(i as int).drop_first() =~= b@.skip(i + 1));
        i += 1;
    }
    if i == x.len() {
        i < y.len()
    } else if i == y.len() {
        false
    } else {
        assert(a@.skip(i as int)[0] == x@[i as int]);
        assert(b@.skip(i as int)[0] == y@[i as int]);
        (x[i] as u32) < (y[i] as u32)
    }
}

/// `x` placed after every element that is not larger.
pub open spec fn insert_sorted(s: Seq<Seq<char>>, x: Seq<char>) -> Seq<Seq<char>>
    decreases s.len(),
{
    if s.len() == 0 {
        seq![x]
    } else if !lex_lt(x, s.last()) {
        s.push(x)
    } else {
        insert_sorted(s.drop_last(), x).push(s.last())
    }
}

/// `sort()` of strings.
pub open spec fn sorted(s: Seq<Seq<char>>) -> Seq<Seq<char>>
    decreases s.len(),
{
    if s.len() == 0 {
        Seq::empty()
    } else {
        insert_sorted(sorted(s.drop_last()), s.last())
    }
}

pub proof fn lemma_insert_sorted_at(s: Seq<Seq<char>>, x: Seq<char>, p: int)
    requires
        0 <= p <= s.len(),
        forall|j: int| p <= j < s.len() ==> lex_lt(x, s[j]),
        p == 0 || !lex_lt(x, s[p - 1]),
    ensures
        insert_sorted(s, x) == s.insert(p, x),
    decreases s.len(),
{
    if s.len() == 0 {
        assert(s.insert(p, x) =~= seq![x]);
    } else if !lex_lt(x, s.last()) {
        assert(p == s.len());
        assert(s.insert(p, x) =~= s.push(x));
    } else {
        lemma_insert_sorted_at(s.drop_last(), x, p);
        assert(s.drop_last().insert(p, x).push(s.last()) =~= s.insert(p, x));
    }
}

/// Strings in ascending order (each one no larger than the next).
pub open spec fn lex_sorted(s: Seq<Seq<char>>) -> bool {
    forall|i: int, j: int| 0 <= i < j < s.len() ==> !lex_lt(#[trigger] s[j], #[trigger] s[i])
}

pub proof fn lemma_lex_irreflexive(a: Seq<char>)
    ensures
        !lex_lt(a, a),
    decreases a.len(),
{
    if a.len() > 0 {
        lemma_lex_irreflexive(a.drop_first());
    }
}

pub proof fn lemma_lex_transitive(a: Seq<char>, b: Seq<char>, c: Seq<char>)
    requires
        lex_lt(a, b),
        lex_lt(b, c),
    ensures
        lex_lt(a, c),
    decreases a.len(),
{
    if a.len() > 0 && b.len() > 0 && c.len() > 0 && a[0] == b[0] && b[0] == c[0] {
        lemma_lex_transitive(a.drop_first(), b.drop_first(), c.drop_first());
    }
}

pub proof fn lemma_lex_total(a: Seq<char>, b: Seq<char>)
    requires
        a != b,
    ensures
        lex_lt(a, b) || lex_lt(b, a),
    decreases a.len(),
{
    if a.len() > 0 && b.len() > 0 {
        if a[0] == b[0] {
            if a.drop_first() == b.drop_first() {
                assert(a.drop_first().len() == a.len() - 1);
                assert(b.drop_first().len() == b.len() - 1);
                assert(a =~= b) by {
                    assert forall|i: int| 0 <= i < a.len() implies a[i] == b[i] by {
                        if i > 0 {
                            assert(a[i] == a.drop_first()[i - 1]);
                            assert(b[i] == b.drop_first()[i - 1]);
                        }
                    }
                }
            }
            lemma_lex_total(a.drop_first(), b.drop_first());
        } else {
            vstd::utf8::char_u32_cast(a[0], a[0] as u32);
            vstd::utf8::char_u32_cast(b[0], b[0] as u32);
        }
    } else if a.len() == 0 && b.len() == 0 {
        assert(a =~= b);
    }
}

/// `b` is no smaller than `a` and `c` no smaller than `b`: `c` is no
/// smaller than `a`.
pub proof fn lemma_lex_le_transitive(a: Seq<char>, b: Seq<char>, c: Seq<char>)
    requires
        !lex_lt(b, a),
        !lex_lt(c, b),
    ensures
        !lex_lt(c, a),
{
    if lex_lt(c, a) {
        if a == b {
        } else {
            lemma_lex_total(a, b);
            lemma_lex_transitive(c, a, b);
        }
    }
}

/// Every element of `s` is no larger than `b`.
pub open spec fn all_at_most(s: Seq<Seq<char>>, b: Seq<char>) -> bool {
    forall|i: int| 0 <= i < s.len() ==> !lex_lt(b, #[trigger] s[i])
}

pub proof fn lemma_insert_sorted_bound(s: Seq<Seq<char>>, x: Seq<char>, b: Seq<char>)
    requires
        all_at_most(s, b),
        !lex_lt(b, x),
    ensures
        all_at_most(insert_sorted(s, x), b),
    decreases s.len(),
{
    if s.len() > 0 && lex_lt(x, s.last()) {
        lemma_insert_sorted_bound(s.drop_last(), x, b);
    }
}

pub proof fn lemma_insert_sorted_sorted(s: Seq<Seq<char>>, x: Seq<char>)
    requires
        lex_sorted(s),
    ensures
        lex_sorted(insert_sorted(s, x)),
        insert_sorted(s, x).to_multiset() =~= s.to_multiset().insert(x),
    decreases s.len(),
{
    broadcast use vstd::seq_lib::group_to_multiset_ensures;

    if s.len() == 0 {
        assert(seq![x] =~= Seq::<Seq<char>>::empty().push(x));
    } else if !lex_lt(x, s.last()) {
        assert forall|i: int| 0 <= i < s.len() implies !lex_lt(x, #[trigger] s[i]) by {
            if i < s.len() - 1 {
                lemma_lex_le_transitive(s[i], s.last(), x);
            }
        }
    } else {
        let d = s.drop_last();
        assert(d.push(s.last()) =~= s);
        lemma_insert_sorted_sorted(d, x);
        lemma_lex_irreflexive(x);
        assert(!lex_lt(s.last(), x)) by {
            if lex_lt(s.last(), x) {
                lemma_lex_transitive(x, s.last(), x);
            }
        }
        assert(all_at_most(d, s.last())) by {
            assert forall|i: int| 0 <= i < d.len() implies !lex_lt(s.last(), #[trigger] d[i]) by {
                assert(d[i] == s[i]);
            }
        }
        lemma_insert_sorted_bound(d, x, s.last());
    }
}

/// Sorting leaves the strings in ascending order and changes nothing but
/// their order.
pub proof fn lemma_sorted(s: Seq<Seq<char>>)
    ensures
        lex_sorted(sorted(s)),
        sorted(s).to_multiset() =~= s.to_multiset(),
    decreases s.len(),
{
    broadcast use vstd::seq_lib::group_to_multiset_ensures;

    if s.len() > 0 {
        lemma_sorted(s.drop_last());
        lemma_insert_sorted_sorted(sorted(s.drop_last()), s.last());
        assert(s.drop_last().push(s.last()) =~= s);
    }
}

/// The listed project names come in ascending order, and they are exactly
/// the stems of the `.yaml` files among the given file names, each as often
/// as it occurs.
pub proof fn law_project_names_sorted(file_names: Seq<String>)
    ensures
        lex_sorted(sorted(yaml_stems(file_names))),
        sorted(yaml_stems(file_names)).to_multiset() == yaml_stems(file_names).to_multiset(),
{
    lemma_sorted(yaml_stems(file_names));
}

/// The project names among file names: the stems of the `.yaml` files.
pub open spec fn yaml_stems(names: Seq<String>) -> Seq<Seq<char>>
    decreases names.len(),
{
    if names.len() == 0 {
        Seq::empty()
    } else if spec_extension(names.last()@) == Some("yaml"@) {
        yaml_stems(names.drop_last()).push(spec_stem(names.last()@))
    } else {
        yaml_stems(names.drop_last())
    }
}

/// The sorted names of the projects whose configs are the given files.
pub fn project_names(file_names: &Vec<String>) -> (r: Vec<String>)
    ensures
        views(r@) == sorted(yaml_stems(file_names@)),
{
    let mut out: Vec<String> = Vec::new();
    let mut i: usize = 0;
    assert(views(out@) =~= Seq::empty());
    while i < file_names.len()
        invariant
            i <= file_names@.len(),
            views(out@) == sorted(yaml_stems(file_names@.take(i as int))),
        decreases file_names.len() - i,
    {
        assert(file_names@.take(i + 1).drop_last() =~= file_names@.take(i as int));
        assert(file_names@.take(i + 1).last() == file_names@[i as int]);
        let is_yaml = match extension(file_names[i].as_str()) {
            Some(e) => str_eq(e.as_str(), "yaml"),
            None => false,
        };
        if is_yaml {
            let name = stem(file_names[i].as_str());
            let ghost before = views(out@);
            let ghost stems = yaml_stems(file_names@.take(i as int));
            assert(stems.push(name@).drop_last() =~= stems);
            let mut p = out.len();
            while p > 0 && lex_less(name.as_str(), out[p - 1].as_str())
                invariant
                    p <= out@.len(),
                    before == views(out@),
                    forall|j: int| p <= j < out@.len() ==> lex_lt(name@, #[trigger] out@[j]@),
                decreases p,
            {
                p -= 1;
            }
            proof {
                assert forall|j: int| p <= j < before.len() implies lex_lt(name@, before[j]) by {
                    assert(before[j] == out@[j]@);
                }
                if p > 0 {
                    assert(before[p - 1] == out@[p - 1]@);
                }
                lemma_insert_sorted_at(before, name@, p as int);
            }
            out.insert(p, name);
            assert(views(out@) =~= before.insert(p as int, name@));
        }
        i += 1;
    }
    assert(file_names@.take(file_names@.len() as int) =~= file_names@);
    out
}

// ── Generation ──────────────────────────────────────────────────────────────

/// A report to generate: its title, description and prompt.
pub struct ReportRequest {
    pub title: String,
    pub description: String,
    pub prompt: String,
}

pub const STUDY_GUIDE_PROMPT: &'static str = "Create a comprehensive study guide that includes key concepts, short-answer practice questions, essay prompts for deeper exploration, and a glossary of important terms.";

pub const BRIEFING_DOC_PROMPT: &'static str = "Create a comprehensive briefing document that includes an Executive Summary, detailed analysis of key themes, important quotes with context, and actionable insights.";

/// A base prompt followed, when there are extra instructions, by an empty
/// line and those instructions.
pub open spec fn prompt_with(base: Seq<char>, extra: Option<Seq<char>>) -> Seq<char> {
    match extra {
        Some(e) => if e.len() > 0 { base + "\n\n"@ + e } else { base },
        None => base,
    }
}

/// The report for a study guide or a briefing document, with the extra
/// configured instructions; `None` for the other artifact types.
pub fn report_request(kind: ArtifactType, extra: Option<&str>) -> (r: Option<ReportRequest>)
    ensures
        kind == ArtifactType::StudyGuide ==> (r matches Some(q) && q.title@ == "Study Guide"@
            && q.description@ == "Short-answer quiz, essay questions, glossary"@ && q.prompt@
            == prompt_with(STUDY_GUIDE_PROMPT@, match extra {
            Some(e) => Some(e@),
            None => None,
        })),
        kind == ArtifactType::BriefingDoc ==> (r matches Some(q) && q.title@ == "Briefing Doc"@
            && q.description@ == "Key insights and important quotes"@ && q.prompt@ == prompt_with(
            BRIEFING_DOC_PROMPT@,
            match extra {
                Some(e) => Some(e@),
                None => None,
            },
        )),
        kind == ArtifactType::SlideDeck || kind == ArtifactType::Audio ==> r is None,
{
    let (title, description, base) = match kind {
        ArtifactType::StudyGuide => (
            "Study Guide",
            "Short-answer quiz, essay questions, glossary",
            STUDY_GUIDE_PROMPT,
        ),
        ArtifactType::BriefingDoc => (
            "Briefing Doc",
            "Key insights and important quotes",
            BRIEFING_DOC_PROMPT,
        ),
        _ => return None,
    };
    let mut prompt = owned(base);
    match extra {
        Some(e) => {
            if !e.is_empty() {
                push_str(&mut prompt, "\n\n");
                push_str(&mut prompt, e);
            }
        },
        None => {},
    }
    Some(ReportRequest { title: owned(title), description: owned(description), prompt })
}

/// The zero-based index of a one-based slide number (slide 0 counts as 1).
pub fn slide_index(slide: u32) -> (r: u32)
    ensures
        r == if slide == 0 { 0 } else { slide - 1 },
{
    slide.saturating_sub(1)
}

/// `<project or notebook id>.<ext>`: the file a downloaded artifact is
/// saved as.
pub fn artifact_file_name(project: Option<&str>, notebook_id: &str, ext: &str) -> (r: String)
    ensures
        r@ == match project {
            Some(p) => p@,
            None => notebook_id@,
        } + "."@ + ext@,
{
    let mut f = match project {
        Some(p) => owned(p),
        None => owned(notebook_id),
    };
    push_str(&mut f, ".");
    push_str(&mut f, ext);
    f
}

/// The label of the markdown directory in the upload report.
pub fn nb_dir_label(md_dir: &str) -> (r: String)
    ensures
        r@ == md_dir@,
{
    owned(md_dir)
}

/// The hint printed after a sync: `  Next   : nlm run`, with the project.
pub fn next_hint(project: Option<&str>) -> (r: String)
    ensures
        r@ == "  Next   : nlm run"@ + match project {
            Some(p) => " --project "@ + p@,
            None => Seq::empty(),
        },
{
    proof {
        reveal_strlit("");
    }
    let mut out = owned("  Next   : nlm run");
    match project {
        Some(p) => {
            push_str(&mut out, " --project ");
            push_str(&mut out, p);
        },
        None => {
            push_str(&mut out, "");
        },
    }
    out
}

// ── The full pipeline ───────────────────────────────────────────────────────

/// The notebook a run works in: the id given on the command line, else the
/// one titled by the config's notebook name, the project's name, or
/// `Default Notebook`, in that order.
pub enum NotebookChoice {
    /// The id given on the command line.
    Id(String),
    /// The notebook with this title, found or created.
    Named(String),
}

/// How the artifact of a run is generated.
pub enum Generation {
    /// A slide deck, with the configured instructions if any.
    SlideDeck { instructions: Option<String> },
    /// A study guide or a briefing document.
    Report(ReportRequest),
    /// An audio overview, which cannot be generated yet.
    Audio,
}

/// What `run` does, decided from the command line and the config before
/// any work starts.
pub struct RunPlan {
    pub artifact_type: ArtifactType,
    /// Whether there are sources to sync first.
    pub sync: bool,
    /// Whether `--skip-upload` can be honoured; the run stops before the
    /// upload when it cannot.
    pub upload_allowed: bool,
    pub notebook: NotebookChoice,
    pub language: String,
    pub generation: Generation,
}

/// The artifact type a run generates (command line, else config, else a
/// slide deck).
pub open spec fn planned_type(cli: Option<ArtifactType>, cfg: Config) -> ArtifactType {
    match cli {
        Some(t) => t,
        None => match config_default_artifact(cfg) {
            Some(t) => t,
            None => ArtifactType::SlideDeck,
        },
    }
}

/// Plans a run: the artifact type, whether to sync, whether the upload may
/// be skipped, the notebook, the language and how to generate.
pub fn run_plan(
    project: Option<&str>,
    cli_type: Option<ArtifactType>,
    language: Option<&str>,
    notebook_id: Option<&str>,
    skip_upload: bool,
    cfg: &Config,
) -> (r: RunPlan)
    ensures
        r.artifact_type == planned_type(cli_type, *cfg),
        r.sync == (cfg.sources matches Some(v) && v@.len() > 0),
        r.upload_allowed == !(skip_upload && notebook_id is None && config_notebook_name(*cfg) is None),
        match notebook_id {
            Some(id) => r.notebook matches NotebookChoice::Id(i) && i@ == id@,
            None => r.notebook matches NotebookChoice::Named(n) && n@ == spec_notebook_name(
                *cfg,
                match project {
                    Some(p) => Some(p@),
                    None => None,
                },
            ),
        },
        r.language@ == match language {
            Some(l) => l@,
            None => match config_language(*cfg) {
                Some(l) => l,
                None => "fr"@,
            },
        },
        match planned_type(cli_type, *cfg) {
            ArtifactType::SlideDeck => r.generation matches Generation::SlideDeck { instructions } && match instructions {
                Some(i) => config_instructions(*cfg, ArtifactType::SlideDeck) == Some(i@),
                None => config_instructions(*cfg, ArtifactType::SlideDeck) is None,
            },
            ArtifactType::Audio => r.generation is Audio,
            t => r.generation matches Generation::Report(q) && q.prompt@ == prompt_with(
                if t == ArtifactType::StudyGuide { STUDY_GUIDE_PROMPT@ } else { BRIEFING_DOC_PROMPT@ },
                config_instructions(*cfg, t),
            ) && q.title@ == (if t == ArtifactType::StudyGuide { "Study Guide"@ } else { "Briefing Doc"@ })
                && q.description@ == (if t == ArtifactType::StudyGuide {
                "Short-answer quiz, essay questions, glossary"@
            } else {
                "Key insights and important quotes"@
            }),
        },
{
    let artifact_type = resolve_artifact_type(cli_type, cfg);
    let sync = match &cfg.sources {
        Some(v) => v.len() > 0,
        None => false,
    };
    let upload_allowed = skip_upload_allowed(skip_upload, notebook_id.is_some(), cfg);
    let notebook = match notebook_id {
        Some(id) => NotebookChoice::Id(owned(id)),
        None => NotebookChoice::Named(notebook_name(cfg, project)),
    };
    let language = resolve_language(language, cfg);
    let instructions = artifact_instructions(cfg, artifact_type);
    let generation = match artifact_type {
        ArtifactType::SlideDeck => Generation::SlideDeck { instructions },
        ArtifactType::Audio => Generation::Audio,
        _ => {
            let extra = match &instructions {
                Some(i) => Some(i.as_str()),
                None => None,
            };
            match report_request(artifact_type, extra) {
                Some(q) => Generation::Report(q),
                None => Generation::Audio,
            }
        },
    };
    RunPlan { artifact_type, sync, upload_allowed, notebook, language, generation }
}

} // verus!
