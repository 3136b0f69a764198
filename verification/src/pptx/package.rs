use vstd::prelude::*;

use std::io::{Cursor, Read};
use zip::ZipArchive;

use vstd::utf8::encode_utf8;

use crate::pptx::archive::{
    layout_entries, layout_label, list_media, max_slide, media_of, planned_assets, slide_count, sorted_layouts,
    spec_join_path,
};
use crate::pptx::slides::{images_of, layout_name_of, read_slide, slide_matches, slide_text_run, unreadable_slide};
use crate::pptx::theme::{parse_theme, theme_matches, theme_run, ParsedTheme, ThemeModel};
use crate::pptx::{spec_file_basename, BrandCharter, SlideContent};
use crate::text::{decimal, owned, push_decimal, push_str, views};
use crate::xml::{document_events, events_from, XmlEvent};

verus! {

// ── The archive ─────────────────────────────────────────────────────────────

/// The number of entries `zip::ZipArchive::new` finds in the bytes; `None`
/// when they are not a zip archive.
pub uninterp spec fn zip_len(archive: Seq<u8>) -> Option<nat>;

/// The name of entry `i` of the archive (`by_index(i)`, then `name()`);
/// `None` when the archive, the entry or its name cannot be read.
pub uninterp spec fn zip_name(archive: Seq<u8>, i: nat) -> Option<Seq<char>>;

/// Entry `name` read as UTF-8 text (`by_name(name)`, then
/// `read_to_string`): `None` when the archive or the entry cannot be opened,
/// `Err` with the message of the error when reading fails.
pub uninterp spec fn zip_text(archive: Seq<u8>, name: Seq<char>) -> Option<Result<Seq<char>, Seq<char>>>;

/// The bytes of entry `name` (`by_name(name)`, then `read_to_end`): `None`
/// when the archive or the entry cannot be opened, `Err` with the message of
/// the error when reading fails.
pub uninterp spec fn zip_bytes(archive: Seq<u8>, name: Seq<char>) -> Option<Result<Seq<u8>, Seq<char>>>;

/// How reading one entry went.
pub enum EntryRead<T> {
    /// The archive or the entry could not be opened.
    Missing,
    /// Reading failed with this message.
    Failed(String),
    Read(T),
}

/// `ZipArchive::new` over the bytes, then `len()`.
#[verifier::external_body]
fn zip_entry_count(archive: &[u8]) -> (r: Option<usize>)
    ensures
        r matches Some(n) ==> zip_len(archive@) == Some(n as nat),
        r is None ==> zip_len(archive@) is None,
{
    match ZipArchive::new(Cursor::new(archive)) {
        Ok(z) => Some(z.len()),
        Err(_) => None,
    }
}

/// `ZipArchive::new` over the bytes, then `by_index(i)` and `name()`.
#[verifier::external_body]
fn zip_entry_name(archive: &[u8], i: usize) -> (r: Option<String>)
    ensures
        r matches Some(s) ==> zip_name(archive@, i as nat) == Some(s@),
        r is None ==> zip_name(archive@, i as nat) is None,
{
    let mut z = match ZipArchive::new(Cursor::new(archive)) {
        Ok(z) => z,
        Err(_) => return None,
    };
    let entry = match z.by_index(i) {
        Ok(e) => e,
        Err(_) => return None,
    };
    match entry.name() {
        Ok(n) => Some(n.into_owned()),
        Err(_) => None,
    }
}

/// `ZipArchive::new` over the bytes, then `by_name(name)` and
/// `read_to_string`.
#[verifier::external_body]
fn zip_entry_text(archive: &[u8], name: &str) -> (r: EntryRead<String>)
    ensures
        r is Missing ==> zip_text(archive@, name@) is None,
        r matches EntryRead::Failed(m) ==> zip_text(archive@, name@) == Some(Err::<Seq<char>, Seq<char>>(m@)),
        r matches EntryRead::Read(t) ==> zip_text(archive@, name@) == Some(Ok::<Seq<char>, Seq<char>>(t@)),
{
    let mut z = match ZipArchive::new(Cursor::new(archive)) {
        Ok(z) => z,
        Err(_) => return EntryRead::Missing,
    };
    let mut entry = match z.by_name(name) {
        Ok(e) => e,
        Err(_) => return EntryRead::Missing,
    };
    let mut buf = String::new();
    match entry.read_to_string(&mut buf) {
        Ok(_) => EntryRead::Read(buf),
        Err(e) => EntryRead::Failed(e.to_string()),
    }
}

/// `ZipArchive::new` over the bytes, then `by_name(name)` and
/// `read_to_end`.
#[verifier::external_body]
fn zip_entry_bytes(archive: &[u8], name: &str) -> (r: EntryRead<Vec<u8>>)
    ensures
        r is Missing ==> zip_bytes(archive@, name@) is None,
        r matches EntryRead::Failed(m) ==> zip_bytes(archive@, name@) == Some(Err::<Seq<u8>, Seq<char>>(m@)),
        r matches EntryRead::Read(b) ==> zip_bytes(archive@, name@) == Some(Ok::<Seq<u8>, Seq<char>>(b@)),
{
    let mut z = match ZipArchive::new(Cursor::new(archive)) {
        Ok(z) => z,
        Err(_) => return EntryRead::Missing,
    };
    let mut entry = match z.by_name(name) {
        Ok(e) => e,
        Err(_) => return EntryRead::Missing,
    };
    let mut buf = Vec::new();
    match entry.read_to_end(&mut buf) {
        Ok(_) => EntryRead::Read(buf),
        Err(e) => EntryRead::Failed(e.to_string()),
    }
}

/// The names of the first `n` entries that could be named, in archive order.
pub open spec fn names_upto(archive: Seq<u8>, n: nat) -> Seq<Seq<char>>
    decreases n,
{
    if n == 0 {
        Seq::empty()
    } else {
        let prev = names_upto(archive, (n - 1) as nat);
        match zip_name(archive, (n - 1) as nat) {
            Some(s) => prev.push(s),
            None => prev,
        }
    }
}

/// The entry names of the archive, in archive order; `None` when the bytes
/// are not a zip archive.
pub open spec fn archive_names(archive: Seq<u8>) -> Option<Seq<Seq<char>>> {
    match zip_len(archive) {
        Some(n) => Some(names_upto(archive, n)),
        None => None,
    }
}

/// The names of the entries of a zip archive held in memory; entries whose
/// name cannot be read are left out.
pub fn entry_names(archive: &[u8]) -> (r: Option<Vec<String>>)
    ensures
        match archive_names(archive@) {
            Some(ns) => r matches Some(v) && views(v@) == ns,
            None => r is None,
        },
{
    let count = match zip_entry_count(archive) {
        Some(n) => n,
        None => return None,
    };
    let mut out: Vec<String> = Vec::new();
    let mut i: usize = 0;
    assert(views(out@) =~= Seq::empty());
    while i < count
        invariant
            i <= count,
            zip_len(archive@) == Some(count as nat),
            views(out@) == names_upto(archive@, i as nat),
        decreases count - i,
    {
        match zip_entry_name(archive, i) {
            Some(n) => {
                let ghost before = out@;
                out.push(n);
                assert(views(out@) =~= views(before).push(n@));
            },
            None => {},
        }
        i += 1;
    }
    Some(out)
}

// ── Entry texts ─────────────────────────────────────────────────────────────

/// Whether the XML readers take a text of this size (its UTF-8 bytes and one
/// more fit a `usize`).
pub open spec fn fits(text: Seq<char>) -> bool {
    encode_utf8(text).len() + 1 <= usize::MAX
}

/// The events of a text, as [`document_events`] reads a `&str` holding it.
pub open spec fn text_events(text: Seq<char>, trim: bool) -> Seq<XmlEvent> {
    events_from(text, trim, 0, (encode_utf8(text).len() + 1) as nat)
}

/// Entry `name` as text the XML readers take: read, and small enough.
pub open spec fn readable_text(archive: Seq<u8>, name: Seq<char>) -> Option<Seq<char>> {
    match zip_text(archive, name) {
        Some(Ok(t)) => if fits(t) { Some(t) } else { None },
        _ => None,
    }
}

/// Whether a text fits the XML readers.
fn text_fits(t: &str) -> (r: bool)
    ensures
        r == fits(t@),
{
    t.as_bytes().len() < usize::MAX
}

fn readable_entry(archive: &[u8], name: &str) -> (r: Option<String>)
    ensures
        match readable_text(archive@, name@) {
            Some(t) => r matches Some(s) && s@ == t,
            None => r is None,
        },
{
    match zip_entry_text(archive, name) {
        EntryRead::Read(t) => if text_fits(t.as_str()) {
            Some(t)
        } else {
            None
        },
        _ => None,
    }
}

// ── Theme, layouts, slides, media ──────────────────────────────────────────

/// The entry holding the theme.
pub const THEME_ENTRY: &'static str = "ppt/theme/theme1.xml";

/// What the theme reader makes of the archive's theme, when it can be read.
pub open spec fn archive_theme(archive: Seq<u8>) -> Option<ThemeModel> {
    match readable_text(archive, THEME_ENTRY@) {
        Some(xml) => Some(theme_run(text_events(xml, true))),
        None => None,
    }
}

/// A theme with nothing in it.
pub open spec fn empty_theme(t: ParsedTheme) -> bool {
    t.theme_name is None && t.colors@.len() == 0 && t.major_font is None && t.minor_font is None
}

/// Whether a theme read from the archive is what the charter shows: what
/// was read, or nothing when the theme is missing, unreadable or malformed.
pub open spec fn charter_theme_read(t: ParsedTheme, archive: Seq<u8>) -> bool {
    match archive_theme(archive) {
        Some(m) => if m.error is None { theme_matches(t, m) } else { empty_theme(t) },
        None => empty_theme(t),
    }
}

/// Reads the theme of the archive; an archive without a readable theme, or
/// with a malformed one, gives an empty theme.
pub fn read_theme(archive: &[u8]) -> (r: ParsedTheme)
    ensures
        charter_theme_read(r, archive@),
{
    match readable_entry(archive, THEME_ENTRY) {
        Some(xml) => {
            let x = xml.as_str();
            assert(document_events(x, true) == text_events(xml@, true));
            match parse_theme(x) {
                Ok(t) => t,
                Err(_) => ParsedTheme { theme_name: None, colors: Vec::new(), major_font: None, minor_font: None },
            }
        },
        None => ParsedTheme { theme_name: None, colors: Vec::new(), major_font: None, minor_font: None },
    }
}

/// The label of one layout entry, when its XML can be read: the layout's
/// name, else the entry name.
pub open spec fn layout_of_entry(archive: Seq<u8>, entry: Seq<char>) -> Option<Seq<char>> {
    match readable_text(archive, entry) {
        Some(xml) => Some(
            match layout_name_of(text_events(xml, true)) {
                Some(n) => n,
                None => entry,
            },
        ),
        None => None,
    }
}

/// The labels of the readable layout entries, in order.
pub open spec fn layout_labels(archive: Seq<u8>, entries: Seq<Seq<char>>) -> Seq<Seq<char>>
    decreases entries.len(),
{
    if entries.len() == 0 {
        Seq::empty()
    } else {
        let prev = layout_labels(archive, entries.drop_last());
        match layout_of_entry(archive, entries.last()) {
            Some(l) => prev.push(l),
            None => prev,
        }
    }
}

/// The slide layouts of the archive, in layout order; layouts whose XML
/// cannot be read are left out.
pub fn read_layouts(archive: &[u8], names: &Vec<String>) -> (r: Vec<String>)
    ensures
        views(r@) == layout_labels(archive@, sorted_layouts(views(names@))),
{
    let entries = layout_entries(names);
    let ghost es = views(entries@);
    let mut out: Vec<String> = Vec::new();
    let mut i: usize = 0;
    assert(views(out@) =~= Seq::empty());
    while i < entries.len()
        invariant
            i <= entries@.len(),
            es == views(entries@),
            views(out@) == layout_labels(archive@, es.take(i as int)),
        decreases entries.len() - i,
    {
        assert(es.take(i + 1).drop_last() =~= es.take(i as int));
        assert(es.take(i + 1).last() == entries@[i as int]@);
        match readable_entry(archive, entries[i].as_str()) {
            Some(xml) => {
                let x = xml.as_str();
                assert(document_events(x, true) == text_events(xml@, true));
                let label = layout_label(x, entries[i].as_str());
                let ghost before = out@;
                out.push(label);
                assert(views(out@) =~= views(before).push(label@));
            },
            None => {},
        }
        i += 1;
    }
    assert(es.take(entries@.len() as int) =~= es);
    out
}

/// `ppt/slides/slide<N>.xml`
pub open spec fn slide_entry(n: nat) -> Seq<char> {
    "ppt/slides/slide"@ + decimal(n) + ".xml"@
}

/// `ppt/slides/_rels/slide<N>.xml.rels`
pub open spec fn rels_entry(n: nat) -> Seq<char> {
    "ppt/slides/_rels/slide"@ + decimal(n) + ".xml.rels"@
}

/// The slide recorded when slide `n` could not be read, with the error.
pub open spec fn unreadable_as(s: SlideContent, n: nat, error: Seq<char>) -> bool {
    &&& s.index == n
    &&& s.title@.len() == 0
    &&& s.body@ == "[unreadable: "@ + error + "]"@
    &&& s.images@.len() == 0
}

/// Slide `n` as read from the archive: its text frames and, when its
/// relationships can be read, its images; or the reason it could not be read.
pub open spec fn slide_read(archive: Seq<u8>, n: nat, s: SlideContent) -> bool {
    match zip_text(archive, slide_entry(n)) {
        Some(Ok(xml)) => if fits(xml) {
            slide_matches(
                s,
                n,
                slide_text_run(text_events(xml, false)).frames,
                match readable_text(archive, rels_entry(n)) {
                    Some(rels) => images_of(text_events(rels, true)),
                    None => Seq::empty(),
                },
            )
        } else {
            unreadable_as(s, n, slide_entry(n) + " is too large"@)
        },
        Some(Err(m)) => unreadable_as(s, n, m),
        None => unreadable_as(s, n, slide_entry(n) + " not found in archive"@),
    }
}

/// `<prefix><n><suffix>`
fn numbered(prefix: &str, n: usize, suffix: &str) -> (r: String)
    ensures
        r@ == prefix@ + decimal(n as nat) + suffix@,
{
    let mut out = owned(prefix);
    push_decimal(&mut out, n as u64);
    push_str(&mut out, suffix);
    out
}

/// Reads slide `n` of the archive.
pub fn read_slide_at(archive: &[u8], n: usize) -> (r: SlideContent)
    ensures
        slide_read(archive@, n as nat, r),
{
    let name = numbered("ppt/slides/slide", n, ".xml");
    match zip_entry_text(archive, name.as_str()) {
        EntryRead::Read(xml) => {
            if text_fits(xml.as_str()) {
                let rels_name = numbered("ppt/slides/_rels/slide", n, ".xml.rels");
                let rels = readable_entry(archive, rels_name.as_str());
                let x = xml.as_str();
                assert(document_events(x, false) == text_events(xml@, false));
                match rels {
                    Some(r) => {
                        let y = r.as_str();
                        assert(document_events(y, true) == text_events(r@, true));
                        read_slide(n, x, Some(y))
                    },
                    None => read_slide(n, x, None),
                }
            } else {
                let mut error = name;
                push_str(&mut error, " is too large");
                unreadable_slide(n, error.as_str())
            }
        },
        EntryRead::Failed(m) => unreadable_slide(n, m.as_str()),
        EntryRead::Missing => {
            let mut error = name;
            push_str(&mut error, " not found in archive");
            unreadable_slide(n, error.as_str())
        },
    }
}

/// Slides `1..=count` of the archive, in order.
pub fn read_slides(archive: &[u8], count: usize) -> (r: Vec<SlideContent>)
    ensures
        r@.len() == count,
        forall|k: int| 0 <= k < count ==> slide_read(archive@, (k + 1) as nat, #[trigger] r@[k]),
{
    let mut out: Vec<SlideContent> = Vec::new();
    let mut i: usize = 0;
    while i < count
        invariant
            i <= count,
            out@.len() == i,
            forall|k: int| 0 <= k < i ==> slide_read(archive@, (k + 1) as nat, #[trigger] out@[k]),
        decreases count - i,
    {
        let s = read_slide_at(archive, i + 1);
        out.push(s);
        i += 1;
    }
    out
}

/// The bytes of a media entry, or why they could not be read.
pub open spec fn media_result(archive: Seq<u8>, name: Seq<char>) -> Result<Seq<u8>, Seq<char>> {
    match zip_bytes(archive, name) {
        Some(Ok(b)) => Ok(b),
        Some(Err(m)) => Err(m),
        None => Err(name + " not found in archive"@),
    }
}

/// The bytes of one entry of the archive, or the message saying why they
/// could not be read.
pub fn media_content(archive: &[u8], name: &str) -> (r: Result<Vec<u8>, String>)
    ensures
        match media_result(archive@, name@) {
            Ok(b) => r matches Ok(v) && v@ == b,
            Err(m) => r matches Err(e) && e@ == m,
        },
{
    match zip_entry_bytes(archive, name) {
        EntryRead::Read(b) => Ok(b),
        EntryRead::Failed(m) => Err(m),
        EntryRead::Missing => {
            let mut error = owned(name);
            push_str(&mut error, " not found in archive");
            Err(error)
        },
    }
}

// ── The brand charter ───────────────────────────────────────────────────────

/// The theme fields of a charter.
pub open spec fn charter_theme(c: BrandCharter) -> ParsedTheme {
    ParsedTheme {
        theme_name: c.theme_name,
        colors: c.colors,
        major_font: c.major_font,
        minor_font: c.minor_font,
    }
}

/// The charter read from an archive whose entries are `names`: the theme,
/// the layouts in layout order, slides `1..=N` for the highest slide number
/// `N`, and each media entry with the file under `assets_dir` it is (or
/// would be) written to.
pub open spec fn charter_of(
    c: BrandCharter,
    archive: Seq<u8>,
    names: Seq<Seq<char>>,
    source_filename: Seq<char>,
    assets_dir: Seq<char>,
) -> bool {
    &&& c.source_filename@ == source_filename
    &&& charter_theme_read(charter_theme(c), archive)
    &&& views(c.layouts@) == layout_labels(archive, sorted_layouts(names))
    &&& c.slides@.len() == max_slide(names)
    &&& forall|k: int| 0 <= k < c.slides@.len() ==> slide_read(archive, (k + 1) as nat, #[trigger] c.slides@[k])
    &&& c.assets@.len() == media_of(names).len()
    &&& forall|k: int|
        0 <= k < c.assets@.len() ==> #[trigger] c.assets@[k].original_name@ == media_of(names)[k]
            && c.assets@[k].written_to@ == spec_join_path(assets_dir, spec_file_basename(media_of(names)[k]))
}

/// Reads the brand charter of a presentation template held in memory;
/// `None` when the bytes are not a zip archive. `assets_dir` is where the
/// media files go.
pub fn brand_charter(archive: &[u8], source_filename: &str, assets_dir: &str) -> (r: Option<BrandCharter>)
    ensures
        match archive_names(archive@) {
            Some(names) => r matches Some(c) && charter_of(c, archive@, names, source_filename@, assets_dir@),
            None => r is None,
        },
{
    let names = match entry_names(archive) {
        Some(n) => n,
        None => return None,
    };
    let theme = read_theme(archive);
    let layouts = read_layouts(archive, &names);
    let count = slide_count(&names);
    let slides = read_slides(archive, count);
    let media = list_media(&names);
    let assets = planned_assets(&media, assets_dir);
    let c = BrandCharter {
        source_filename: owned(source_filename),
        theme_name: theme.theme_name,
        colors: theme.colors,
        major_font: theme.major_font,
        minor_font: theme.minor_font,
        layouts,
        slides,
        assets,
    };
    assert(charter_theme(c) == theme);
    Some(c)
}

} // verus!
