use vstd::prelude::*;

pub mod confluence;
pub mod file;
pub mod notion;
pub mod url;

use crate::config::{source_title, source_type, spec_source_title, spec_source_type, Source};
use crate::text::{decimal, owned, pad_right, pad_right_str, push_decimal, push_str, spec_safe_filename};

verus! {

// ── Shared helpers ──────────────────────────────────────────────────────────

/// Sanitises a title for use as a file name: `:` and `/` become `-`.
pub fn safe_filename(title: &str) -> (r: String)
    ensures
        r@ == spec_safe_filename(title@),
{
    crate::text::safe_filename(title)
}

/// `htmd::convert`: the Markdown that `htmd` makes of an HTML document;
/// `None` when it fails.
pub uninterp spec fn htmd_markdown(html: Seq<char>) -> Option<Seq<char>>;

/// `htmd::convert(html)`, its error dropped.
#[verifier::external_body]
pub(crate) fn html_to_markdown(html: &str) -> (r: Option<String>)
    ensures
        r matches Some(s) ==> htmd_markdown(html@) == Some(s@),
        r is None ==> htmd_markdown(html@) is None,
{
    htmd::convert(html).ok()
}

/// The Markdown of an HTML document, or the document itself when the
/// conversion fails.
pub open spec fn markdown_or_raw(html: Seq<char>) -> Seq<char> {
    match htmd_markdown(html) {
        Some(m) => m,
        None => html,
    }
}

pub fn convert_or_raw(html: &str) -> (r: String)
    ensures
        r@ == markdown_or_raw(html@),
{
    match html_to_markdown(html) {
        Some(m) => m,
        None => owned(html),
    }
}

/// `<safe title>.md`: the file a fetched page is written to.
pub fn markdown_file_name(title: &str) -> (r: String)
    ensures
        r@ == spec_safe_filename(title@) + ".md"@,
{
    let mut name = safe_filename(title);
    push_str(&mut name, ".md");
    name
}

/// A file name that stays in the directory it is joined to: one path
/// component, neither `.` nor `..`.
pub open spec fn single_component(name: Seq<char>) -> bool {
    &&& forall|i: int| 0 <= i < name.len() ==> name[i] != '/'
    &&& name != "."@
    &&& name != ".."@
}

/// Every file a sync writes stays in the output directory: the Markdown of a
/// fetched page (`<safe title>.md`) and a copied local file (`<safe
/// title>.<md|txt|pdf>`) are named by a single path component, whatever the
/// title.
pub proof fn law_written_files_stay_in_output_dir(title: Seq<char>, ext: Seq<char>)
    requires
        crate::adapters::file::is_supported_ext(ext),
    ensures
        single_component(spec_safe_filename(title) + ".md"@),
        single_component(spec_safe_filename(title) + "."@ + ext),
{
    reveal_strlit(".md");
    reveal_strlit(".");
    reveal_strlit("..");
    reveal_strlit("md");
    reveal_strlit("txt");
    reveal_strlit("pdf");
    let t = spec_safe_filename(title);
    crate::text::law_safe_filename_clean(title);
    let a = t + ".md"@;
    assert forall|i: int| 0 <= i < a.len() implies a[i] != '/' by {
        if i < t.len() {
            assert(a[i] == t[i]);
        }
    }
    assert(a[a.len() - 1] == 'd');
    let b = t + "."@ + ext;
    assert forall|i: int| 0 <= i < b.len() implies b[i] != '/' by {
        if i < t.len() {
            assert(b[i] == t[i]);
        } else if i > t.len() {
            assert(b[i] == ext[i - t.len() - 1]);
        }
    }
    assert(b[b.len() - 1] == ext[ext.len() - 1]);
    assert(b[b.len() - 1] != '.');
}

// ── Adapters ────────────────────────────────────────────────────────────────

/// The adapters, one per kind of fetched source.
#[derive(Clone, Copy, PartialEq, Eq, Structural, Debug)]
pub enum AdapterKind {
    Url,
    File,
    Confluence,
    Notion,
    Pptx,
}

/// What fetches the sources of one `type`.
pub trait SourceAdapter {
    /// The kind of source the adapter fetches.
    spec fn handles(&self) -> AdapterKind;

    /// The kind of source the adapter fetches.
    fn kind(&self) -> (k: AdapterKind)
        ensures
            k == self.handles(),
    ;

    /// Whether the adapter fetches this source.
    fn accepts(&self, source: &Source) -> (r: bool)
        ensures
            r == (adapter_for(*source) == self.handles()),
    ;
}

/// The adapter that fetches a source, by its `type`.
pub open spec fn adapter_for(source: Source) -> AdapterKind {
    match source {
        Source::Url { .. } => AdapterKind::Url,
        Source::File { .. } => AdapterKind::File,
        Source::Confluence { .. } => AdapterKind::Confluence,
        Source::Notion { .. } => AdapterKind::Notion,
        Source::Pptx { .. } => AdapterKind::Pptx,
    }
}

/// The adapter that fetches a source.
pub fn adapter_for_source(source: &Source) -> (r: AdapterKind)
    ensures
        r == adapter_for(*source),
{
    match source {
        Source::Url { .. } => AdapterKind::Url,
        Source::File { .. } => AdapterKind::File,
        Source::Confluence { .. } => AdapterKind::Confluence,
        Source::Notion { .. } => AdapterKind::Notion,
        Source::Pptx { .. } => AdapterKind::Pptx,
    }
}

/// The presentation-template adapter: a `.pptx` file whose brand charter is
/// written as Markdown.
pub struct PptxAdapter;

/// Whether a presentation source writes its charter and media: not on a dry
/// run.
pub fn charter_written(dry_run: Option<bool>) -> (r: bool)
    ensures
        r == !(dry_run == Some(true)),
{
    match dry_run {
        Some(d) => !d,
        None => true,
    }
}

pub use crate::adapters::confluence::ConfluenceAdapter;
pub use crate::adapters::file::FileAdapter;
pub use crate::adapters::notion::NotionAdapter;
pub use crate::adapters::url::UrlAdapter;

impl SourceAdapter for UrlAdapter {
    open spec fn handles(&self) -> AdapterKind {
        AdapterKind::Url
    }

    fn kind(&self) -> (k: AdapterKind) {
        AdapterKind::Url
    }

    fn accepts(&self, source: &Source) -> (r: bool) {
        adapter_for_source(source) == AdapterKind::Url
    }
}

impl SourceAdapter for FileAdapter {
    open spec fn handles(&self) -> AdapterKind {
        AdapterKind::File
    }

    fn kind(&self) -> (k: AdapterKind) {
        AdapterKind::File
    }

    fn accepts(&self, source: &Source) -> (r: bool) {
        adapter_for_source(source) == AdapterKind::File
    }
}

impl SourceAdapter for ConfluenceAdapter {
    open spec fn handles(&self) -> AdapterKind {
        AdapterKind::Confluence
    }

    fn kind(&self) -> (k: AdapterKind) {
        AdapterKind::Confluence
    }

    fn accepts(&self, source: &Source) -> (r: bool) {
        adapter_for_source(source) == AdapterKind::Confluence
    }
}

impl SourceAdapter for NotionAdapter {
    open spec fn handles(&self) -> AdapterKind {
        AdapterKind::Notion
    }

    fn kind(&self) -> (k: AdapterKind) {
        AdapterKind::Notion
    }

    fn accepts(&self, source: &Source) -> (r: bool) {
        adapter_for_source(source) == AdapterKind::Notion
    }
}

impl SourceAdapter for PptxAdapter {
    open spec fn handles(&self) -> AdapterKind {
        AdapterKind::Pptx
    }

    fn kind(&self) -> (k: AdapterKind) {
        AdapterKind::Pptx
    }

    fn accepts(&self, source: &Source) -> (r: bool) {
        adapter_for_source(source) == AdapterKind::Pptx
    }
}

// ── Sync report lines ───────────────────────────────────────────────────────

/// `  [<type>] <title, padded to 55 characters>`: the start of a source's
/// line in the sync report.
pub fn sync_label(source: &Source) -> (r: String)
    ensures
        r@ == "  ["@ + spec_source_type(*source) + "] "@ + pad_right(spec_source_title(*source), 55),
{
    let mut out = owned("  [");
    push_str(&mut out, source_type(source));
    push_str(&mut out, "] ");
    let label = pad_right_str(source_title(source), 55);
    push_str(&mut out, label.as_str());
    out
}

/// How fetching one source ended.
pub enum SyncOutcome {
    /// Written; the file's size in bytes when it could be read.
    Written(Option<u64>),
    /// The adapter had nothing to write.
    Skipped,
    /// Failed with this message.
    Failed(String),
}

/// The size shown for a written file: whole kilobytes plus one, 0 when the
/// size is unknown.
pub open spec fn size_kb(size: Option<u64>) -> nat {
    match size {
        Some(n) => (n / 1024 + 1) as nat,
        None => 0,
    }
}

/// The end of a source's line in the sync report.
pub fn sync_result(outcome: &SyncOutcome) -> (r: String)
    ensures
        r@ == match outcome {
            SyncOutcome::Written(size) => "✓  ("@ + decimal(size_kb(*size)) + " KB)"@,
            SyncOutcome::Skipped => "skipped"@,
            SyncOutcome::Failed(e) => "✗  "@ + e@,
        },
{
    match outcome {
        SyncOutcome::Written(size) => {
            let kb: u64 = match size {
                Some(n) => *n / 1024 + 1,
                None => 0,
            };
            let mut out = owned("✓  (");
            push_decimal(&mut out, kb);
            push_str(&mut out, " KB)");
            out
        },
        SyncOutcome::Skipped => owned("skipped"),
        SyncOutcome::Failed(e) => {
            let mut out = owned("✗  ");
            push_str(&mut out, e.as_str());
            out
        },
    }
}

} // verus!
