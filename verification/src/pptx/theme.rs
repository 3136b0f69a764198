use vstd::prelude::*;

use crate::json::str_eq;
use crate::pptx::ThemeColor;
use crate::text::{owned, push_str, views};
use crate::xml::{attr, document_events, local_name, read_events, spec_attr, spec_local_name, XmlEvent, XmlTag};
use vstd::string::StringSliceAdditionalSpecFns;

verus! {

// ── Theme ───────────────────────────────────────────────────────────────────

/// `str::to_uppercase`: the Unicode upper-case form of a string.
pub uninterp spec fn uppercase(s: Seq<char>) -> Seq<char>;

/// `str::to_uppercase`.
#[verifier::external_body]
pub(crate) fn to_uppercase(s: &str) -> (r: String)
    ensures
        r@ == uppercase(s@),
{
    s.to_uppercase()
}

/// The twelve color slots of a theme's color scheme.
pub open spec fn spec_is_color_role(local: Seq<char>) -> bool {
    local == "dk1"@ || local == "lt1"@ || local == "dk2"@ || local == "lt2"@ || local == "accent1"@
        || local == "accent2"@ || local == "accent3"@ || local == "accent4"@ || local == "accent5"@
        || local == "accent6"@ || local == "hlink"@ || local == "folHlink"@
}

/// Whether an element name is one of the theme's color slots.
pub fn is_color_role(local: &str) -> (r: bool)
    ensures
        r == spec_is_color_role(local@),
{
    str_eq(local, "dk1") || str_eq(local, "lt1") || str_eq(local, "dk2") || str_eq(local, "lt2")
        || str_eq(local, "accent1") || str_eq(local, "accent2") || str_eq(local, "accent3")
        || str_eq(local, "accent4") || str_eq(local, "accent5") || str_eq(local, "accent6")
        || str_eq(local, "hlink") || str_eq(local, "folHlink")
}

/// Whether `scheme` is one of the currently open elements.
pub open spec fn spec_in_scheme(path: Seq<Seq<char>>, scheme: Seq<char>) -> bool {
    exists|i: int| 0 <= i < path.len() && path[i] == scheme
}

/// Whether `scheme` is one of the currently open elements.
pub fn in_scheme(path: &Vec<String>, scheme: &str) -> (r: bool)
    ensures
        r == spec_in_scheme(views(path@), scheme@),
{
    let mut i: usize = 0;
    while i < path.len()
        invariant
            i <= path@.len(),
            forall|j: int| 0 <= j < i ==> path@[j]@ != scheme@,
        decreases path.len() - i,
    {
        if str_eq(path[i].as_str(), scheme) {
            assert(views(path@)[i as int] == scheme@);
            return true;
        }
        i += 1;
    }
    assert(forall|j: int| 0 <= j < views(path@).len() ==> views(path@)[j] != scheme@);
    false
}

/// Which font of the font scheme is open.
#[derive(Clone, Copy, PartialEq, Eq, Structural)]
pub enum FontRole {
    Major,
    Minor,
}

/// What the theme reader knows after some events.
pub struct ThemeModel {
    pub name: Option<Seq<char>>,
    pub colors: Seq<(Seq<char>, Seq<char>)>,
    pub major: Option<Seq<char>>,
    pub minor: Option<Seq<char>>,
    /// Local names of the open elements, outermost first.
    pub path: Seq<Seq<char>>,
    pub color_role: Option<Seq<char>>,
    pub font_role: Option<FontRole>,
    /// The message of the XML error met, if any.
    pub error: Option<Seq<char>>,
}

pub open spec fn initial_theme_model() -> ThemeModel {
    ThemeModel {
        name: None,
        colors: Seq::empty(),
        major: None,
        minor: None,
        path: Seq::empty(),
        color_role: None,
        font_role: None,
        error: None,
    }
}

/// The color value of a leaf element: `srgbClr/@val`, or `sysClr/@lastClr`
/// falling back to `sysClr/@val`.
pub open spec fn leaf_hex(local: Seq<char>, tag: XmlTag) -> Option<Seq<char>> {
    if local == "srgbClr"@ {
        spec_attr(tag, "val"@)
    } else if local == "sysClr"@ {
        match spec_attr(tag, "lastClr"@) {
            Some(h) => Some(h),
            None => spec_attr(tag, "val"@),
        }
    } else {
        None
    }
}

pub open spec fn theme_start(m: ThemeModel, tag: XmlTag) -> ThemeModel {
    let local = spec_local_name(tag.name@);
    ThemeModel {
        name: if local == "theme"@ { spec_attr(tag, "name"@) } else { m.name },
        color_role: if spec_is_color_role(local) && spec_in_scheme(m.path, "clrScheme"@) {
            Some(local)
        } else {
            m.color_role
        },
        font_role: if (local == "majorFont"@ || local == "minorFont"@) && spec_in_scheme(
            m.path,
            "fontScheme"@,
        ) {
            Some(if local == "majorFont"@ { FontRole::Major } else { FontRole::Minor })
        } else {
            m.font_role
        },
        path: m.path.push(local),
        ..m
    }
}

pub open spec fn theme_leaf(m: ThemeModel, tag: XmlTag) -> ThemeModel {
    let local = spec_local_name(tag.name@);
    let colors = match m.color_role {
        Some(role) => match leaf_hex(local, tag) {
            Some(h) => m.colors.push((role, uppercase(h))),
            None => m.colors,
        },
        None => m.colors,
    };
    let face = if local == "latin"@ { spec_attr(tag, "typeface"@) } else { None };
    ThemeModel {
        colors,
        major: if face is Some && m.font_role == Some(FontRole::Major) { face } else { m.major },
        minor: if face is Some && m.font_role == Some(FontRole::Minor) { face } else { m.minor },
        ..m
    }
}

pub open spec fn theme_end(m: ThemeModel) -> ThemeModel {
    if m.path.len() == 0 {
        m
    } else {
        let closed = m.path.last();
        ThemeModel {
            path: m.path.drop_last(),
            color_role: if m.color_role == Some(closed) { None } else { m.color_role },
            font_role: if (closed == "majorFont"@ && m.font_role == Some(FontRole::Major)) || (
            closed == "minorFont"@ && m.font_role == Some(FontRole::Minor)) {
                None
            } else {
                m.font_role
            },
            ..m
        }
    }
}

/// One event of `theme1.xml` applied to what is known.
pub open spec fn theme_step(m: ThemeModel, e: XmlEvent) -> ThemeModel {
    match e {
        XmlEvent::Start(tag) => theme_start(m, tag),
        XmlEvent::Empty(tag) => theme_leaf(m, tag),
        XmlEvent::End(_) => theme_end(m),
        XmlEvent::Error(msg) => ThemeModel { error: Some(msg@), ..m },
        _ => m,
    }
}

/// All events applied in order.
pub open spec fn theme_run(events: Seq<XmlEvent>) -> ThemeModel
    decreases events.len(),
{
    if events.len() == 0 {
        initial_theme_model()
    } else {
        theme_step(theme_run(events.drop_last()), events.last())
    }
}

/// The heading and body fonts come from `latin` leaves alone: such a leaf
/// inside `majorFont` (or `minorFont`) of the font scheme sets the heading
/// (or body) font to its typeface; no other event, an `ea`, `cs` or `font`
/// leaf among them, changes either font.
pub proof fn law_fonts_from_latin_leaves(m: ThemeModel, e: XmlEvent)
    ensures
        ({
            let n = theme_step(m, e);
            match e {
                XmlEvent::Empty(tag) => if spec_local_name(tag.name@) == "latin"@ {
                    let face = spec_attr(tag, "typeface"@);
                    &&& n.major == (if face is Some && m.font_role == Some(FontRole::Major) {
                        face
                    } else {
                        m.major
                    })
                    &&& n.minor == (if face is Some && m.font_role == Some(FontRole::Minor) {
                        face
                    } else {
                        m.minor
                    })
                } else {
                    n.major == m.major && n.minor == m.minor
                },
                _ => n.major == m.major && n.minor == m.minor,
            }
        }),
{
}

/// The typeface of an `<a:latin>` leaf; `None` for any other event.
pub open spec fn latin_face(e: XmlEvent) -> Option<Seq<char>> {
    match e {
        XmlEvent::Empty(tag) => if spec_local_name(tag.name@) == "latin"@ {
            spec_attr(tag, "typeface"@)
        } else {
            None
        },
        _ => None,
    }
}

/// Each font of a theme read is the typeface of one of its `latin` leaves.
pub proof fn law_fonts_are_latin_typefaces(events: Seq<XmlEvent>)
    ensures
        theme_run(events).major matches Some(f) ==> exists|i: int|
            0 <= i < events.len() && latin_face(#[trigger] events[i]) == Some(f),
        theme_run(events).minor matches Some(f) ==> exists|i: int|
            0 <= i < events.len() && latin_face(#[trigger] events[i]) == Some(f),
    decreases events.len(),
{
    if events.len() > 0 {
        let d = events.drop_last();
        law_fonts_are_latin_typefaces(d);
        law_fonts_from_latin_leaves(theme_run(d), events.last());
        assert(forall|i: int| 0 <= i < d.len() ==> d[i] == events[i]);
        let last = events.len() - 1;
        assert(events[last] == events.last());
    }
}

/// Theme name, colors, heading font and body font read from `theme1.xml`.
pub struct ParsedTheme {
    pub theme_name: Option<String>,
    pub colors: Vec<ThemeColor>,
    pub major_font: Option<String>,
    pub minor_font: Option<String>,
}

pub open spec fn opt_view(o: Option<String>) -> Option<Seq<char>> {
    match o {
        Some(s) => Some(s@),
        None => None,
    }
}

pub open spec fn color_views(v: Seq<ThemeColor>) -> Seq<(Seq<char>, Seq<char>)> {
    v.map_values(|c: ThemeColor| (c.role@, c.hex@))
}

/// What a theme holds once read.
pub open spec fn theme_matches(t: ParsedTheme, m: ThemeModel) -> bool {
    opt_view(t.theme_name) == m.name && color_views(t.colors@) == m.colors && opt_view(t.major_font)
        == m.major && opt_view(t.minor_font) == m.minor
}

/// The error reported for a malformed theme.
pub open spec fn theme_error(msg: Seq<char>) -> Seq<char> {
    "XML error in theme1.xml: "@ + msg
}

/// The outcome of reading a theme: the error of a malformed document, else
/// what was read.
pub open spec fn theme_result(r: Result<ParsedTheme, String>, m: ThemeModel) -> bool {
    match m.error {
        Some(msg) => r matches Err(e) && e@ == theme_error(msg),
        None => r matches Ok(t) && theme_matches(t, m),
    }
}

struct ThemeState {
    name: Option<String>,
    colors: Vec<ThemeColor>,
    major: Option<String>,
    minor: Option<String>,
    path: Vec<String>,
    color_role: Option<String>,
    font_role: Option<FontRole>,
    error: Option<String>,
}

impl ThemeState {
    spec fn model(&self) -> ThemeModel {
        ThemeModel {
            name: opt_view(self.name),
            colors: color_views(self.colors@),
            major: opt_view(self.major),
            minor: opt_view(self.minor),
            path: views(self.path@),
            color_role: opt_view(self.color_role),
            font_role: self.font_role,
            error: opt_view(self.error),
        }
    }

    fn start(&mut self, tag: &XmlTag)
        ensures
            final(self).model() == theme_start(old(self).model(), *tag),
    {
        let local = local_name(tag.name.as_str());
        if str_eq(local.as_str(), "theme") {
            self.name = attr(tag, "name");
        }
        if is_color_role(local.as_str()) && in_scheme(&self.path, "clrScheme") {
            self.color_role = Some(owned(local.as_str()));
        }
        let major = str_eq(local.as_str(), "majorFont");
        let minor = str_eq(local.as_str(), "minorFont");
        if (major || minor) && in_scheme(&self.path, "fontScheme") {
            self.font_role = Some(if major { FontRole::Major } else { FontRole::Minor });
        }
        self.path.push(local);
        assert(views(self.path@) =~= views(old(self).path@).push(spec_local_name(tag.name@)));
    }

    fn leaf(&mut self, tag: &XmlTag)
        ensures
            final(self).model() == theme_leaf(old(self).model(), *tag),
    {
        let local = local_name(tag.name.as_str());
        match &self.color_role {
            Some(role) => {
                let hex = if str_eq(local.as_str(), "srgbClr") {
                    attr(tag, "val")
                } else if str_eq(local.as_str(), "sysClr") {
                    match attr(tag, "lastClr") {
                        Some(h) => Some(h),
                        None => attr(tag, "val"),
                    }
                } else {
                    None
                };
                match hex {
                    Some(h) => {
                        let upper = to_uppercase(h.as_str());
                        let color = ThemeColor { role: owned(role.as_str()), hex: upper };
                        self.colors.push(color);
                        assert(color_views(self.colors@) =~= color_views(old(self).colors@).push(
                            (role@, uppercase(h@)),
                        ));
                    },
                    None => {},
                }
            },
            None => {},
        }
        if str_eq(local.as_str(), "latin") {
            match attr(tag, "typeface") {
                Some(face) => match self.font_role {
                    Some(FontRole::Major) => self.major = Some(face),
                    Some(FontRole::Minor) => self.minor = Some(face),
                    None => {},
                },
                None => {},
            }
        }
    }

    fn end(&mut self)
        ensures
            final(self).model() == theme_end(old(self).model()),
    {
        match self.path.pop() {
            Some(closed) => {
                assert(views(self.path@) =~= views(old(self).path@).drop_last());
                let same_color = match &self.color_role {
                    Some(role) => str_eq(role.as_str(), closed.as_str()),
                    None => false,
                };
                if same_color {
                    self.color_role = None;
                }
                let close_font = (str_eq(closed.as_str(), "majorFont") && self.font_role == Some(
                    FontRole::Major,
                )) || (str_eq(closed.as_str(), "minorFont") && self.font_role == Some(
                    FontRole::Minor,
                ));
                if close_font {
                    self.font_role = None;
                }
            },
            None => {},
        }
    }
}

/// Reads the color scheme, the font scheme and the theme name from the
/// events of `theme1.xml`. Colors come in document order, each with its slot
/// and upper-cased hex value; a malformed document yields its XML error.
pub fn theme_from_events(events: &Vec<XmlEvent>) -> (r: Result<ParsedTheme, String>)
    ensures
        theme_result(r, theme_run(events@)),
{
    let mut st = ThemeState {
        name: None,
        colors: Vec::new(),
        major: None,
        minor: None,
        path: Vec::new(),
        color_role: None,
        font_role: None,
        error: None,
    };
    assert(color_views(st.colors@) =~= Seq::empty());
    assert(views(st.path@) =~= Seq::empty());
    assert(st.model() == initial_theme_model());
    let mut i: usize = 0;
    while i < events.len()
        invariant
            i <= events@.len(),
            st.model() == theme_run(events@.take(i as int)),
        decreases events.len() - i,
    {
        assert(events@.take(i + 1).drop_last() =~= events@.take(i as int));
        match &events[i] {
            XmlEvent::Start(tag) => st.start(tag),
            XmlEvent::Empty(tag) => st.leaf(tag),
            XmlEvent::End(_) => st.end(),
            XmlEvent::Error(msg) => {
                st.error = Some(owned(msg.as_str()));
            },
            _ => {},
        }
        i += 1;
    }
    assert(events@.take(events@.len() as int) =~= events@);
    match st.error {
        Some(msg) => {
            let mut e = owned("XML error in theme1.xml: ");
            push_str(&mut e, msg.as_str());
            Err(e)
        },
        None => Ok(ParsedTheme { theme_name: st.name, colors: st.colors, major_font: st.major, minor_font: st.minor }),
    }
}

/// Pulls the color scheme, the font scheme and the scheme name out of
/// `theme1.xml` (read with text trimming on). A malformed document gives
/// the XML error, `XML error in theme1.xml: <message>`.
pub fn parse_theme(xml: &str) -> (r: Result<ParsedTheme, String>)
    requires
        xml.spec_bytes().len() + 1 <= usize::MAX,
    ensures
        theme_result(r, theme_run(document_events(xml, true))),
{
    let events = read_events(xml, true);
    theme_from_events(&events)
}

} // verus!
