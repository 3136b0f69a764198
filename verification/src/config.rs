use vstd::prelude::*;

use crate::cli::{artifact_from_name, artifact_name, ArtifactType};
use crate::text::{owned, push_str};

verus! {

/// The merged configuration of a project; every part may be missing.
pub struct Config {
    pub notebook: Option<NotebookConfig>,
    pub generate: Option<GenerateConfig>,
    pub sources: Option<Vec<Source>>,
}

/// The `notebook:` section.
pub struct NotebookConfig {
    pub name: Option<String>,
    pub language: Option<String>,
    pub default_artifact: Option<String>,
}

/// The `generate:` section.
pub struct GenerateConfig {
    pub timeout: Option<u64>,
    pub slide_deck: Option<ArtifactInstructions>,
    pub audio: Option<ArtifactInstructions>,
    pub study_guide: Option<ArtifactInstructions>,
    pub briefing_doc: Option<ArtifactInstructions>,
}

/// Extra instructions for one artifact type.
pub struct ArtifactInstructions {
    pub instructions: Option<String>,
}

/// One source to sync, tagged by its `type`.
pub enum Source {
    Confluence {
        id: String,
        title: String,
        step: Option<u32>,
        step_label: Option<String>,
        base_url: Option<String>,
    },
    File { path: String, title: String },
    Notion { id: String, title: String },
    Url { url: String, title: String },
    Pptx { path: String, title: String, dry_run: Option<bool> },
}

/// The `type` tag of a source.
pub open spec fn spec_source_type(s: Source) -> Seq<char> {
    match s {
        Source::Url { .. } => "url"@,
        Source::File { .. } => "file"@,
        Source::Confluence { .. } => "confluence"@,
        Source::Notion { .. } => "notion"@,
        Source::Pptx { .. } => "pptx"@,
    }
}

/// The title every source carries.
pub open spec fn spec_source_title(s: Source) -> Seq<char> {
    match s {
        Source::Url { title, .. } => title@,
        Source::File { title, .. } => title@,
        Source::Confluence { title, .. } => title@,
        Source::Notion { title, .. } => title@,
        Source::Pptx { title, .. } => title@,
    }
}

/// The `type` tag of a source.
pub fn source_type(source: &Source) -> (r: &'static str)
    ensures
        r@ == spec_source_type(*source),
{
    match source {
        Source::Url { .. } => "url",
        Source::File { .. } => "file",
        Source::Confluence { .. } => "confluence",
        Source::Notion { .. } => "notion",
        Source::Pptx { .. } => "pptx",
    }
}

/// The title of a source.
pub fn source_title(source: &Source) -> (r: &str)
    ensures
        r@ == spec_source_title(*source),
{
    match source {
        Source::Url { title, .. } => title.as_str(),
        Source::File { title, .. } => title.as_str(),
        Source::Confluence { title, .. } => title.as_str(),
        Source::Notion { title, .. } => title.as_str(),
        Source::Pptx { title, .. } => title.as_str(),
    }
}

// ── Choices drawn from the config ───────────────────────────────────────────

/// The configured `notebook.language`.
pub open spec fn config_language(cfg: Config) -> Option<Seq<char>> {
    match cfg.notebook {
        Some(n) => match n.language {
            Some(l) => Some(l@),
            None => None,
        },
        None => None,
    }
}

/// The language to generate in: the command line's, else the config's,
/// else `fr`.
pub fn resolve_language(cli: Option<&str>, cfg: &Config) -> (r: String)
    ensures
        r@ == match cli {
            Some(l) => l@,
            None => match config_language(*cfg) {
                Some(l) => l,
                None => "fr"@,
            },
        },
{
    match cli {
        Some(l) => owned(l),
        None => match &cfg.notebook {
            Some(n) => match &n.language {
                Some(l) => owned(l.as_str()),
                None => owned("fr"),
            },
            None => owned("fr"),
        },
    }
}

/// The instructions of one artifact section, `None` when missing or empty.
pub open spec fn section_instructions(s: Option<ArtifactInstructions>) -> Option<Seq<char>> {
    match s {
        Some(a) => match a.instructions {
            Some(t) => if t@.len() > 0 { Some(t@) } else { None },
            None => None,
        },
        None => None,
    }
}

fn instructions_of(s: &Option<ArtifactInstructions>) -> (r: Option<String>)
    ensures
        r matches Some(t) ==> section_instructions(*s) == Some(t@),
        r is None ==> section_instructions(*s) is None,
{
    match s {
        Some(a) => match &a.instructions {
            Some(t) => if t.as_str().is_empty() { None } else { Some(owned(t.as_str())) },
            None => None,
        },
        None => None,
    }
}

/// `generate.<type>.instructions` of the config.
pub open spec fn config_instructions(cfg: Config, t: ArtifactType) -> Option<Seq<char>> {
    match cfg.generate {
        Some(g) => section_instructions(
            match t {
                ArtifactType::SlideDeck => g.slide_deck,
                ArtifactType::StudyGuide => g.study_guide,
                ArtifactType::BriefingDoc => g.briefing_doc,
                ArtifactType::Audio => g.audio,
            },
        ),
        None => None,
    }
}

/// The extra instructions configured for an artifact type; an empty string
/// counts as none.
pub fn artifact_instructions(cfg: &Config, t: ArtifactType) -> (r: Option<String>)
    ensures
        r matches Some(s) ==> config_instructions(*cfg, t) == Some(s@),
        r is None ==> config_instructions(*cfg, t) is None,
{
    match &cfg.generate {
        Some(g) => match t {
            ArtifactType::SlideDeck => instructions_of(&g.slide_deck),
            ArtifactType::StudyGuide => instructions_of(&g.study_guide),
            ArtifactType::BriefingDoc => instructions_of(&g.briefing_doc),
            ArtifactType::Audio => instructions_of(&g.audio),
        },
        None => None,
    }
}

/// The configured `notebook.default_artifact`, when it names a type.
pub open spec fn config_default_artifact(cfg: Config) -> Option<ArtifactType> {
    match cfg.notebook {
        Some(n) => match n.default_artifact {
            Some(d) => artifact_from_name(d@),
            None => None,
        },
        None => None,
    }
}

/// The artifact type to generate: the command line's, else the config's
/// `default_artifact` (when it names a type), else a slide deck.
pub fn resolve_artifact_type(cli: Option<ArtifactType>, cfg: &Config) -> (r: ArtifactType)
    ensures
        r == match cli {
            Some(t) => t,
            None => match config_default_artifact(*cfg) {
                Some(t) => t,
                None => ArtifactType::SlideDeck,
            },
        },
{
    match cli {
        Some(t) => t,
        None => {
            let from_cfg = match &cfg.notebook {
                Some(n) => match &n.default_artifact {
                    Some(d) => ArtifactType::from_config(d.as_str()),
                    None => None,
                },
                None => None,
            };
            match from_cfg {
                Some(t) => t,
                None => ArtifactType::SlideDeck,
            }
        },
    }
}

/// The configured `notebook.name`.
pub open spec fn config_notebook_name(cfg: Config) -> Option<Seq<char>> {
    match cfg.notebook {
        Some(n) => match n.name {
            Some(s) => Some(s@),
            None => None,
        },
        None => None,
    }
}

/// The title of the notebook to find or create: the config's
/// `notebook.name`, else the project's name, else `Default Notebook`.
pub open spec fn spec_notebook_name(cfg: Config, project: Option<Seq<char>>) -> Seq<char> {
    match config_notebook_name(cfg) {
        Some(n) => n,
        None => match project {
            Some(p) => p,
            None => "Default Notebook"@,
        },
    }
}

pub fn notebook_name(cfg: &Config, project: Option<&str>) -> (r: String)
    ensures
        r@ == spec_notebook_name(
            *cfg,
            match project {
                Some(p) => Some(p@),
                None => None,
            },
        ),
{
    let configured = match &cfg.notebook {
        Some(n) => match &n.name {
            Some(s) => Some(s.as_str()),
            None => None,
        },
        None => None,
    };
    match configured {
        Some(s) => owned(s),
        None => match project {
            Some(p) => owned(p),
            None => owned("Default Notebook"),
        },
    }
}

/// Whether `--skip-upload` can be honoured: it needs a notebook id on the
/// command line or a notebook name in the config.
pub fn skip_upload_allowed(skip_upload: bool, notebook_id_given: bool, cfg: &Config) -> (r: bool)
    ensures
        r == !(skip_upload && !notebook_id_given && config_notebook_name(*cfg) is None),
{
    let has_name = match &cfg.notebook {
        Some(n) => n.name.is_some(),
        None => false,
    };
    !(skip_upload && !notebook_id_given && !has_name)
}

} // verus!
