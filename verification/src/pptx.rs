use vstd::prelude::*;

pub mod archive;
pub mod package;
pub mod slides;
pub mod theme;

use crate::text::{
    after_last, after_last_char, concat_map, decimal, has_suffix, in_order, is_blank, join_strings,
    lemma_concat_map_in_order, lemma_in_order_within,
    join_with, owned, push_decimal, push_str, replace_char, replace_char_str, trim, trim_str,
    views,
};

verus! {

// ── Charter types ───────────────────────────────────────────────────────────

/// Structured snapshot of everything extracted from a presentation template.
pub struct BrandCharter {
    pub source_filename: String,
    pub theme_name: Option<String>,
    pub colors: Vec<ThemeColor>,
    /// Heading font.
    pub major_font: Option<String>,
    /// Body font.
    pub minor_font: Option<String>,
    /// Slide-layout names (title, content, ...).
    pub layouts: Vec<String>,
    pub slides: Vec<SlideContent>,
    pub assets: Vec<ExtractedAsset>,
}

/// One color slot of the theme's color scheme.
pub struct ThemeColor {
    /// `accent1`, `dk1`, `lt1`, `hlink`, ...
    pub role: String,
    /// Hex digits, such as `5B9BD5`.
    pub hex: String,
}

/// The text and pictures of one slide.
pub struct SlideContent {
    /// 1-based slide number.
    pub index: usize,
    /// First text frame, best-effort.
    pub title: String,
    /// Remaining text frames, joined with newlines.
    pub body: String,
    /// Image file names referenced by the slide.
    pub images: Vec<String>,
}

/// A media file of the template and where it was (or would be) written.
pub struct ExtractedAsset {
    /// Archive entry name, such as `ppt/media/image1.png`.
    pub original_name: String,
    /// Destination path, as displayed.
    pub written_to: String,
}

// ── Small helpers ───────────────────────────────────────────────────────────

/// The last component of a `/`-separated path.
pub open spec fn spec_file_basename(path: Seq<char>) -> Seq<char> {
    after_last(path, '/')
}

/// The last component of a `/`-separated path (the whole path when it has no `/`).
pub fn file_basename(path: &str) -> (r: String)
    ensures
        r@ == spec_file_basename(path@),
{
    after_last_char(path, '/')
}

/// A file name without its `.pptx` (or `.PPTX`) extension.
pub open spec fn spec_strip_pptx_ext(name: Seq<char>) -> Seq<char> {
    if has_suffix(name, ".pptx"@) {
        name.take(name.len() - 5)
    } else if has_suffix(name, ".PPTX"@) {
        name.take(name.len() - 5)
    } else {
        name
    }
}

pub fn strip_pptx_ext(name: &str) -> (r: String)
    ensures
        r@ == spec_strip_pptx_ext(name@),
{
    proof {
        reveal_strlit(".pptx");
        reveal_strlit(".PPTX");
    }
    if crate::text::ends_with(name, ".pptx") || crate::text::ends_with(name, ".PPTX") {
        let cs = crate::text::chars_of(name);
        let kept = crate::text::sub_chars(&cs, 0, cs.len() - 5);
        crate::text::string_of(&kept)
    } else {
        owned(name)
    }
}

/// The heading of a slide: its title on one line, or `(no title)`.
pub open spec fn spec_slide_heading(s: SlideContent) -> Seq<char> {
    if trim(s.title@).len() == 0 {
        "(no title)"@
    } else {
        trim(replace_char(s.title@, '\n', ' '))
    }
}

pub fn slide_heading(s: &SlideContent) -> (r: String)
    ensures
        r@ == spec_slide_heading(*s),
{
    if is_blank(s.title.as_str()) {
        owned("(no title)")
    } else {
        let one_line = replace_char_str(s.title.as_str(), '\n', ' ');
        trim_str(one_line.as_str())
    }
}

// ── Markdown rendering ──────────────────────────────────────────────────────

pub open spec fn or_unspecified(v: Option<String>) -> Seq<char> {
    match v {
        Some(s) => s@,
        None => "(unspecified)"@,
    }
}

pub open spec fn color_row(c: ThemeColor) -> Seq<char> {
    "| "@ + c.role@ + " | `#"@ + c.hex@ + "` |\n"@
}

pub open spec fn layout_line(l: String) -> Seq<char> {
    "- "@ + l@ + "\n"@
}

pub open spec fn asset_line(a: ExtractedAsset) -> Seq<char> {
    "- `"@ + a.original_name@ + "` → `"@ + a.written_to@ + "`\n"@
}

pub open spec fn slide_section(s: SlideContent) -> Seq<char> {
    "### Slide "@ + decimal(s.index as nat) + " — "@ + spec_slide_heading(s) + "\n\n"@
        + (if trim(s.body@).len() == 0 { Seq::empty() } else { s.body@ + "\n\n"@ })
        + (if s.images@.len() == 0 {
        Seq::empty()
    } else {
        "**Images** : "@ + join_with(views(s.images@), ", "@) + "\n\n"@
    })
}

pub open spec fn theme_section(c: BrandCharter) -> Seq<char> {
    "## Theme\n\n"@ + "- **Theme name** : "@ + or_unspecified(c.theme_name) + "\n"@
        + "- **Heading font** : "@ + or_unspecified(c.major_font) + "\n"@ + "- **Body font** : "@
        + or_unspecified(c.minor_font) + "\n\n"@
}

pub open spec fn colors_section(c: BrandCharter) -> Seq<char> {
    "## Colors\n\n"@ + if c.colors@.len() == 0 {
        "_(no theme colors detected — template may use a default Office theme)_\n\n"@
    } else {
        "| Role | Hex |\n|---|---|\n"@ + concat_map(c.colors@, |x: ThemeColor| color_row(x)) + "\n"@
    }
}

pub open spec fn layouts_section(c: BrandCharter) -> Seq<char> {
    "## Slide layouts\n\n"@ + if c.layouts@.len() == 0 {
        "_(no layouts detected)_\n\n"@
    } else {
        concat_map(c.layouts@, |x: String| layout_line(x)) + "\n"@
    }
}

pub open spec fn assets_section(c: BrandCharter) -> Seq<char> {
    "## Assets extracted\n\n"@ + if c.assets@.len() == 0 {
        "_(no media)_\n\n"@
    } else {
        concat_map(c.assets@, |x: ExtractedAsset| asset_line(x)) + "\n"@
    }
}

pub open spec fn slides_section(c: BrandCharter) -> Seq<char> {
    "## Slides ("@ + decimal(c.slides@.len()) + ")\n\n"@ + concat_map(
        c.slides@,
        |x: SlideContent| slide_section(x),
    )
}

/// The brand-charter Markdown document.
pub open spec fn spec_render_markdown(c: BrandCharter) -> Seq<char> {
    "# Brand charter — "@ + spec_strip_pptx_ext(c.source_filename@) + "\n\n"@ + theme_section(c)
        + colors_section(c) + layouts_section(c) + assets_section(c) + slides_section(c)
}

/// The brand-charter Markdown lists the charter's colors, layouts and slides
/// in the charter's own order: of two entries, the earlier one's line comes
/// wholly before the later one's.
pub proof fn law_charter_in_order(c: BrandCharter, i: int, j: int)
    requires
        0 <= i < j,
    ensures
        j < c.colors@.len() ==> in_order(
            spec_render_markdown(c),
            color_row(c.colors@[i]),
            color_row(c.colors@[j]),
        ),
        j < c.layouts@.len() ==> in_order(
            spec_render_markdown(c),
            layout_line(c.layouts@[i]),
            layout_line(c.layouts@[j]),
        ),
        j < c.slides@.len() ==> in_order(
            spec_render_markdown(c),
            slide_section(c.slides@[i]),
            slide_section(c.slides@[j]),
        ),
{
    if j < c.colors@.len() {
        lemma_colors_in_order(c, i, j);
    }
    if j < c.layouts@.len() {
        lemma_layouts_in_order(c, i, j);
    }
    if j < c.slides@.len() {
        lemma_slides_in_order(c, i, j);
    }
}

spec fn charter_head(c: BrandCharter) -> Seq<char> {
    "# Brand charter — "@ + spec_strip_pptx_ext(c.source_filename@) + "\n\n"@
}

proof fn lemma_colors_in_order(c: BrandCharter, i: int, j: int)
    requires
        0 <= i < j < c.colors@.len(),
    ensures
        in_order(spec_render_markdown(c), color_row(c.colors@[i]), color_row(c.colors@[j])),
{
    let f = |x: ThemeColor| color_row(x);
    let body = concat_map(c.colors@, f);
    lemma_concat_map_in_order(c.colors@, f, i, j);
    let x = charter_head(c) + theme_section(c) + "## Colors\n\n"@ + "| Role | Hex |\n|---|---|\n"@;
    let y = "\n"@ + layouts_section(c) + assets_section(c) + slides_section(c);
    lemma_in_order_within(body, x, y, color_row(c.colors@[i]), color_row(c.colors@[j]));
    assert(colors_section(c) == "## Colors\n\n"@ + ("| Role | Hex |\n|---|---|\n"@ + body + "\n"@));
    assert(x + body + y =~= spec_render_markdown(c));
}

proof fn lemma_layouts_in_order(c: BrandCharter, i: int, j: int)
    requires
        0 <= i < j < c.layouts@.len(),
    ensures
        in_order(spec_render_markdown(c), layout_line(c.layouts@[i]), layout_line(c.layouts@[j])),
{
    let f = |x: String| layout_line(x);
    let body = concat_map(c.layouts@, f);
    lemma_concat_map_in_order(c.layouts@, f, i, j);
    let x = charter_head(c) + theme_section(c) + colors_section(c) + "## Slide layouts\n\n"@;
    let y = "\n"@ + assets_section(c) + slides_section(c);
    lemma_in_order_within(body, x, y, layout_line(c.layouts@[i]), layout_line(c.layouts@[j]));
    assert(layouts_section(c) == "## Slide layouts\n\n"@ + (body + "\n"@));
    assert(x + body + y =~= spec_render_markdown(c));
}

proof fn lemma_slides_in_order(c: BrandCharter, i: int, j: int)
    requires
        0 <= i < j < c.slides@.len(),
    ensures
        in_order(spec_render_markdown(c), slide_section(c.slides@[i]), slide_section(c.slides@[j])),
{
    let f = |x: SlideContent| slide_section(x);
    let body = concat_map(c.slides@, f);
    lemma_concat_map_in_order(c.slides@, f, i, j);
    let a = charter_head(c) + theme_section(c) + colors_section(c) + layouts_section(c)
        + assets_section(c);
    let p = "## Slides ("@ + decimal(c.slides@.len()) + ")\n\n"@;
    let y = Seq::<char>::empty();
    lemma_in_order_within(body, a + p, y, slide_section(c.slides@[i]), slide_section(c.slides@[j]));
    assert(slides_section(c) == p + body);
    assert(spec_render_markdown(c) == a + slides_section(c));
    assert(a + p + body + y =~= a + (p + body));
}

fn push_opt(out: &mut String, v: &Option<String>)
    ensures
        final(out)@ == old(out)@ + or_unspecified(*v),
{
    match v {
        Some(s) => push_str(out, s.as_str()),
        None => push_str(out, "(unspecified)"),
    }
}

fn render_theme(c: &BrandCharter) -> (r: String)
    ensures
        r@ == theme_section(*c),
{
    let mut out = owned("## Theme\n\n");
    push_str(&mut out, "- **Theme name** : ");
    push_opt(&mut out, &c.theme_name);
    push_str(&mut out, "\n");
    push_str(&mut out, "- **Heading font** : ");
    push_opt(&mut out, &c.major_font);
    push_str(&mut out, "\n");
    push_str(&mut out, "- **Body font** : ");
    push_opt(&mut out, &c.minor_font);
    push_str(&mut out, "\n\n");
    out
}

fn render_colors(c: &BrandCharter) -> (r: String)
    ensures
        r@ == colors_section(*c),
{
    let mut out = owned("## Colors\n\n");
    if c.colors.len() == 0 {
        push_str(&mut out, "_(no theme colors detected — template may use a default Office theme)_\n\n");
    } else {
        let ghost head = out@ + "| Role | Hex |\n|---|---|\n"@;
        push_str(&mut out, "| Role | Hex |\n|---|---|\n");
        let mut i: usize = 0;
        while i < c.colors.len()
            invariant
                i <= c.colors@.len(),
                out@ == head + concat_map(c.colors@.take(i as int), |x: ThemeColor| color_row(x)),
            decreases c.colors.len() - i,
        {
            assert(c.colors@.take(i + 1).drop_last() =~= c.colors@.take(i as int));
            push_str(&mut out, "| ");
            push_str(&mut out, c.colors[i].role.as_str());
            push_str(&mut out, " | `#");
            push_str(&mut out, c.colors[i].hex.as_str());
            push_str(&mut out, "` |\n");
            i += 1;
            assert(out@ =~= head + concat_map(c.colors@.take(i as int), |x: ThemeColor| color_row(x)));
        }
        assert(c.colors@.take(c.colors@.len() as int) =~= c.colors@);
        push_str(&mut out, "\n");
    }
    out
}

fn render_layouts(c: &BrandCharter) -> (r: String)
    ensures
        r@ == layouts_section(*c),
{
    let mut out = owned("## Slide layouts\n\n");
    if c.layouts.len() == 0 {
        push_str(&mut out, "_(no layouts detected)_\n\n");
    } else {
        let ghost head = out@;
        let mut i: usize = 0;
        while i < c.layouts.len()
            invariant
                i <= c.layouts@.len(),
                out@ == head + concat_map(c.layouts@.take(i as int), |x: String| layout_line(x)),
            decreases c.layouts.len() - i,
        {
            assert(c.layouts@.take(i + 1).drop_last() =~= c.layouts@.take(i as int));
            push_str(&mut out, "- ");
            push_str(&mut out, c.layouts[i].as_str());
            push_str(&mut out, "\n");
            i += 1;
            assert(out@ =~= head + concat_map(c.layouts@.take(i as int), |x: String| layout_line(x)));
        }
        assert(c.layouts@.take(c.layouts@.len() as int) =~= c.layouts@);
        push_str(&mut out, "\n");
    }
    out
}

fn render_assets(c: &BrandCharter) -> (r: String)
    ensures
        r@ == assets_section(*c),
{
    let mut out = owned("## Assets extracted\n\n");
    if c.assets.len() == 0 {
        push_str(&mut out, "_(no media)_\n\n");
    } else {
        let ghost head = out@;
        let mut i: usize = 0;
        while i < c.assets.len()
            invariant
                i <= c.assets@.len(),
                out@ == head + concat_map(c.assets@.take(i as int), |x: ExtractedAsset| asset_line(x)),
            decreases c.assets.len() - i,
        {
            assert(c.assets@.take(i + 1).drop_last() =~= c.assets@.take(i as int));
            push_str(&mut out, "- `");
            push_str(&mut out, c.assets[i].original_name.as_str());
            push_str(&mut out, "` → `");
            push_str(&mut out, c.assets[i].written_to.as_str());
            push_str(&mut out, "`\n");
            i += 1;
            assert(out@ =~= head + concat_map(c.assets@.take(i as int), |x: ExtractedAsset| asset_line(x)));
        }
        assert(c.assets@.take(c.assets@.len() as int) =~= c.assets@);
        push_str(&mut out, "\n");
    }
    out
}

fn render_slide(s: &SlideContent) -> (r: String)
    ensures
        r@ == slide_section(*s),
{
    let mut out = owned("### Slide ");
    push_decimal(&mut out, s.index as u64);
    push_str(&mut out, " — ");
    let heading = slide_heading(s);
    push_str(&mut out, heading.as_str());
    push_str(&mut out, "\n\n");
    let ghost after_heading = out@;
    if !is_blank(s.body.as_str()) {
        push_str(&mut out, s.body.as_str());
        push_str(&mut out, "\n\n");
    }
    let ghost after_body = out@;
    if s.images.len() != 0 {
        push_str(&mut out, "**Images** : ");
        let joined = join_strings(&s.images, ", ");
        push_str(&mut out, joined.as_str());
        push_str(&mut out, "\n\n");
    }
    proof {
        reveal_strlit("");
    }
    assert(out@ =~= slide_section(*s));
    out
}

fn render_slides(c: &BrandCharter) -> (r: String)
    ensures
        r@ == slides_section(*c),
{
    let mut out = owned("## Slides (");
    push_decimal(&mut out, c.slides.len() as u64);
    push_str(&mut out, ")\n\n");
    let ghost head = out@;
    let mut i: usize = 0;
    while i < c.slides.len()
        invariant
            i <= c.slides@.len(),
            out@ == head + concat_map(c.slides@.take(i as int), |x: SlideContent| slide_section(x)),
        decreases c.slides.len() - i,
    {
        assert(c.slides@.take(i + 1).drop_last() =~= c.slides@.take(i as int));
        let piece = render_slide(&c.slides[i]);
        push_str(&mut out, piece.as_str());
        i += 1;
        assert(out@ =~= head + concat_map(c.slides@.take(i as int), |x: SlideContent| slide_section(x)));
    }
    assert(c.slides@.take(c.slides@.len() as int) =~= c.slides@);
    out
}

/// Renders the brand charter as Markdown: theme, colors, layouts, assets and
/// one section per slide.
pub fn render_markdown(c: &BrandCharter) -> (r: String)
    ensures
        r@ == spec_render_markdown(*c),
{
    let mut out = owned("# Brand charter — ");
    let stem = strip_pptx_ext(c.source_filename.as_str());
    push_str(&mut out, stem.as_str());
    push_str(&mut out, "\n\n");
    let theme = render_theme(c);
    push_str(&mut out, theme.as_str());
    let colors = render_colors(c);
    push_str(&mut out, colors.as_str());
    let layouts = render_layouts(c);
    push_str(&mut out, layouts.as_str());
    let assets = render_assets(c);
    push_str(&mut out, assets.as_str());
    let slides = render_slides(c);
    push_str(&mut out, slides.as_str());
    out
}

} // verus!
