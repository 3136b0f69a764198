use vstd::prelude::*;

use crate::json::str_eq;
use crate::text::owned;

verus! {

/// The parsed command line.
pub struct Cli {
    pub command: Command,
}

/// Directories shared by several subcommands.
pub struct DirArgs {
    /// Working directory (default: `output`).
    pub output_dir: String,
    /// Config directory (default: `config`).
    pub config_dir: String,
}

/// The kinds of artifact that can be generated.
#[derive(Clone, Copy, PartialEq, Eq, Structural, Debug)]
pub enum ArtifactType {
    SlideDeck,
    StudyGuide,
    BriefingDoc,
    Audio,
}

/// The name of an artifact type in configs and on the command line.
pub open spec fn artifact_name(t: ArtifactType) -> Seq<char> {
    match t {
        ArtifactType::SlideDeck => "slide-deck"@,
        ArtifactType::StudyGuide => "study-guide"@,
        ArtifactType::BriefingDoc => "briefing-doc"@,
        ArtifactType::Audio => "audio"@,
    }
}

/// The artifact type a config string names, if any.
pub open spec fn artifact_from_name(s: Seq<char>) -> Option<ArtifactType> {
    if s == "slide-deck"@ {
        Some(ArtifactType::SlideDeck)
    } else if s == "study-guide"@ {
        Some(ArtifactType::StudyGuide)
    } else if s == "briefing-doc"@ {
        Some(ArtifactType::BriefingDoc)
    } else if s == "audio"@ {
        Some(ArtifactType::Audio)
    } else {
        None
    }
}

impl ArtifactType {
    /// Parses a config string (such as `"study-guide"`).
    pub fn from_config(s: &str) -> (r: Option<ArtifactType>)
        ensures
            r == artifact_from_name(s@),
    {
        if str_eq(s, "slide-deck") {
            Some(ArtifactType::SlideDeck)
        } else if str_eq(s, "study-guide") {
            Some(ArtifactType::StudyGuide)
        } else if str_eq(s, "briefing-doc") {
            Some(ArtifactType::BriefingDoc)
        } else if str_eq(s, "audio") {
            Some(ArtifactType::Audio)
        } else {
            None
        }
    }

    /// The name of the type, as the command line and configs write it.
    pub fn as_str(&self) -> (r: &'static str)
        ensures
            r@ == artifact_name(*self),
    {
        match self {
            ArtifactType::SlideDeck => "slide-deck",
            ArtifactType::StudyGuide => "study-guide",
            ArtifactType::BriefingDoc => "briefing-doc",
            ArtifactType::Audio => "audio",
        }
    }

    /// `to_string()`: the name of the type.
    pub fn to_string(&self) -> (r: String)
        ensures
            r@ == artifact_name(*self),
    {
        owned(self.as_str())
    }
}

/// One subcommand with its arguments.
pub enum Command {
    /// Pull sources into `output/markdown/`.
    Sync { project: Option<String>, sources: Option<String>, dirs: DirArgs },
    /// Extract the brand charter of a presentation template.
    Import { pptx: String, output: String, dry_run: bool },
    /// Drop and re-upload sources to a notebook.
    Upload { project: Option<String>, notebook_id: Option<String>, debug: bool, dirs: DirArgs },
    /// Generate an artifact from an existing notebook.
    Generate {
        project: Option<String>,
        artifact_type: Option<ArtifactType>,
        language: Option<String>,
        notebook_id: String,
        debug: bool,
        dirs: DirArgs,
    },
    /// Download the latest slide deck without regenerating it.
    Fetch { notebook_id: String, project: Option<String>, debug: bool, dirs: DirArgs },
    /// The whole pipeline: sync, upload, generate.
    Run {
        project: Option<String>,
        artifact_type: Option<ArtifactType>,
        language: Option<String>,
        notebook_id: Option<String>,
        skip_upload: bool,
        debug: bool,
        dirs: DirArgs,
    },
    /// Re-generate one slide of a deck with a correction.
    Correct {
        prompt: String,
        slide: u32,
        notebook_id: String,
        project: Option<String>,
        language: Option<String>,
        debug: bool,
        dirs: DirArgs,
    },
    /// List the notebooks of the account.
    List { debug: bool },
    /// Authenticate with Google.
    Login,
    /// List the project configs.
    Projects { config_dir: String },
    /// Scaffold a new project config.
    New { name: String, config_dir: String },
}

/// The name of an artifact type parses back to that type, and no other
/// string parses to it: names and types correspond one to one.
pub proof fn law_artifact_name_round_trip(t: ArtifactType, s: Seq<char>)
    ensures
        artifact_from_name(artifact_name(t)) == Some(t),
        artifact_from_name(s) == Some(t) ==> s == artifact_name(t),
{
    reveal_strlit("slide-deck");
    reveal_strlit("study-guide");
    reveal_strlit("briefing-doc");
    reveal_strlit("audio");
    assert("slide-deck"@[1] != "study-guide"@[1]);
    assert("slide-deck"@.len() != "briefing-doc"@.len());
    assert("slide-deck"@.len() != "audio"@.len());
    assert("study-guide"@.len() != "briefing-doc"@.len());
    assert("study-guide"@.len() != "audio"@.len());
    assert("briefing-doc"@.len() != "audio"@.len());
}

} // verus!
