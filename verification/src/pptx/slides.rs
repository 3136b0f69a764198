use vstd::prelude::*;
use vstd::string::StringSliceAdditionalSpecFns;

use crate::json::str_eq;
use crate::pptx::{spec_file_basename, file_basename, SlideContent};
use crate::text::{
    ends_with, has_suffix, in_order, is_blank, join_strings, join_with, lemma_join_in_order,
    lemma_join_len, lemma_join_occurs, occurs_in, owned, push_str, total_len, trim, views,
};
use crate::xml::{attr, document_events, local_name, read_events, spec_attr, spec_local_name, XmlEvent, XmlTag};

verus! {

// ── Slide text frames ───────────────────────────────────────────────────────

/// What the slide reader knows after some events: the finished text frames,
/// the paragraphs of the open `<p:txBody>`, the open paragraph, and whether
/// an `<a:t>` run is open.
pub struct SlideTextModel {
    pub frames: Seq<Seq<char>>,
    pub frame: Option<Seq<Seq<char>>>,
    pub para: Option<Seq<char>>,
    pub in_text: bool,
}

pub open spec fn slide_text_start(m: SlideTextModel, tag: XmlTag) -> SlideTextModel {
    let local = spec_local_name(tag.name@);
    if local == "txBody"@ {
        SlideTextModel { frame: Some(Seq::empty()), ..m }
    } else if local == "p"@ && m.frame is Some {
        SlideTextModel { para: Some(Seq::empty()), ..m }
    } else if local == "t"@ {
        SlideTextModel { in_text: true, ..m }
    } else {
        m
    }
}

pub open spec fn slide_text_end(m: SlideTextModel, name: Seq<char>) -> SlideTextModel {
    let local = spec_local_name(name);
    if local == "txBody"@ {
        match m.frame {
            Some(paras) => {
                let joined = join_with(paras, "\n"@);
                SlideTextModel {
                    frame: None,
                    frames: if trim(joined).len() > 0 { m.frames.push(joined) } else { m.frames },
                    ..m
                }
            },
            None => m,
        }
    } else if local == "p"@ {
        match m.para {
            Some(para) => SlideTextModel {
                para: None,
                frame: match m.frame {
                    Some(f) => Some(f.push(para)),
                    None => None,
                },
                ..m
            },
            None => m,
        }
    } else if local == "t"@ {
        SlideTextModel { in_text: false, ..m }
    } else {
        m
    }
}

pub open spec fn slide_text_step(m: SlideTextModel, e: XmlEvent) -> SlideTextModel {
    match e {
        XmlEvent::Start(tag) => slide_text_start(m, tag),
        XmlEvent::End(name) => slide_text_end(m, name@),
        XmlEvent::Text(t) => if m.in_text {
            match (m.para, t) {
                (Some(p), Some(s)) => SlideTextModel { para: Some(p + s@), ..m },
                _ => m,
            }
        } else {
            m
        },
        _ => m,
    }
}

pub open spec fn slide_text_run(events: Seq<XmlEvent>) -> SlideTextModel
    decreases events.len(),
{
    if events.len() == 0 {
        SlideTextModel { frames: Seq::empty(), frame: None, para: None, in_text: false }
    } else {
        slide_text_step(slide_text_run(events.drop_last()), events.last())
    }
}

struct SlideTextState {
    frames: Vec<String>,
    frame: Option<Vec<String>>,
    para: Option<String>,
    in_text: bool,
}

impl SlideTextState {
    spec fn model(&self) -> SlideTextModel {
        SlideTextModel {
            frames: views(self.frames@),
            frame: match self.frame {
                Some(f) => Some(views(f@)),
                None => None,
            },
            para: match self.para {
                Some(p) => Some(p@),
                None => None,
            },
            in_text: self.in_text,
        }
    }

    fn start(&mut self, tag: &XmlTag)
        ensures
            final(self).model() == slide_text_start(old(self).model(), *tag),
    {
        let local = local_name(tag.name.as_str());
        if str_eq(local.as_str(), "txBody") {
            let f: Vec<String> = Vec::new();
            assert(views(f@) =~= Seq::empty());
            self.frame = Some(f);
        } else if str_eq(local.as_str(), "p") && self.frame.is_some() {
            self.para = Some(String::new());
        } else if str_eq(local.as_str(), "t") {
            self.in_text = true;
        }
    }

    fn end(&mut self, name: &String)
        ensures
            final(self).model() == slide_text_end(old(self).model(), name@),
    {
        let local = local_name(name.as_str());
        if str_eq(local.as_str(), "txBody") {
            match self.frame.take() {
                Some(paras) => {
                    let joined = join_strings(&paras, "\n");
                    if !is_blank(joined.as_str()) {
                        self.frames.push(joined);
                        assert(views(self.frames@) =~= views(old(self).frames@).push(
                            join_with(views(paras@), "\n"@),
                        ));
                    }
                },
                None => {},
            }
        } else if str_eq(local.as_str(), "p") {
            match self.para.take() {
                Some(para) => {
                    match self.frame.take() {
                        Some(mut f) => {
                            let ghost before = f@;
                            f.push(para);
                            assert(views(f@) =~= views(before).push(old(self).para.unwrap()@));
                            self.frame = Some(f);
                        },
                        None => {},
                    }
                },
                None => {},
            }
        } else if str_eq(local.as_str(), "t") {
            self.in_text = false;
        }
    }

    fn text(&mut self, t: &Option<String>)
        ensures
            final(self).model() == slide_text_step(old(self).model(), XmlEvent::Text(*t)),
    {
        if self.in_text {
            match t {
                Some(s) => match self.para.take() {
                    Some(mut p) => {
                        push_str(&mut p, s.as_str());
                        self.para = Some(p);
                    },
                    None => {},
                },
                None => {},
            }
        }
    }
}

/// The text frames of a slide, from its events: each `<p:txBody>` becomes
/// one string, its `<a:p>` paragraphs joined with newlines and the `<a:t>`
/// runs of a paragraph concatenated; frames holding only white space are
/// dropped.
pub fn slide_texts_from_events(events: &Vec<XmlEvent>) -> (r: Vec<String>)
    ensures
        views(r@) == slide_text_run(events@).frames,
{
    let mut st = SlideTextState { frames: Vec::new(), frame: None, para: None, in_text: false };
    assert(views(st.frames@) =~= Seq::empty());
    let mut i: usize = 0;
    while i < events.len()
        invariant
            i <= events@.len(),
            st.model() == slide_text_run(events@.take(i as int)),
        decreases events.len() - i,
    {
        assert(events@.take(i + 1).drop_last() =~= events@.take(i as int));
        match &events[i] {
            XmlEvent::Start(tag) => st.start(tag),
            XmlEvent::End(name) => st.end(name),
            XmlEvent::Text(t) => st.text(t),
            _ => {},
        }
        i += 1;
    }
    assert(events@.take(events@.len() as int) =~= events@);
    st.frames
}

/// The text frames of a slide's XML (read without trimming).
pub fn extract_slide_texts(xml: &str) -> (r: Vec<String>)
    requires
        xml.spec_bytes().len() + 1 <= usize::MAX,
    ensures
        views(r@) == slide_text_run(document_events(xml, false)).frames,
{
    let events = read_events(xml, false);
    slide_texts_from_events(&events)
}

// ── Image relationships ─────────────────────────────────────────────────────

/// The image a relationship element points to, by file name: a
/// `Relationship` whose `Type` ends in `/image` and that has a `Target`.
pub open spec fn image_target(tag: XmlTag) -> Option<Seq<char>> {
    if spec_local_name(tag.name@) == "Relationship"@ {
        let ty = match spec_attr(tag, "Type"@) {
            Some(t) => t,
            None => Seq::empty(),
        };
        if has_suffix(ty, "/image"@) {
            match spec_attr(tag, "Target"@) {
                Some(t) => Some(spec_file_basename(t)),
                None => None,
            }
        } else {
            None
        }
    } else {
        None
    }
}

pub open spec fn event_image(e: XmlEvent) -> Option<Seq<char>> {
    match e {
        XmlEvent::Start(tag) => image_target(tag),
        XmlEvent::Empty(tag) => image_target(tag),
        _ => None,
    }
}

/// The image file names of a sequence of relationship events, in order.
pub open spec fn images_of(events: Seq<XmlEvent>) -> Seq<Seq<char>>
    decreases events.len(),
{
    if events.len() == 0 {
        Seq::empty()
    } else {
        match event_image(events.last()) {
            Some(n) => images_of(events.drop_last()).push(n),
            None => images_of(events.drop_last()),
        }
    }
}

fn image_of_tag(tag: &XmlTag) -> (r: Option<String>)
    ensures
        r matches Some(n) ==> image_target(*tag) == Some(n@),
        r is None ==> image_target(*tag) is None,
{
    proof {
        reveal_strlit("");
    }
    let local = local_name(tag.name.as_str());
    if !str_eq(local.as_str(), "Relationship") {
        return None;
    }
    let ty = match attr(tag, "Type") {
        Some(t) => t,
        None => String::new(),
    };
    if ends_with(ty.as_str(), "/image") {
        match attr(tag, "Target") {
            Some(t) => Some(file_basename(t.as_str())),
            None => None,
        }
    } else {
        None
    }
}

/// Image file names from the events of a slide's `.rels` file.
pub fn images_from_events(events: &Vec<XmlEvent>) -> (r: Vec<String>)
    ensures
        views(r@) == images_of(events@),
{
    let mut out: Vec<String> = Vec::new();
    let mut i: usize = 0;
    assert(views(out@) =~= Seq::empty());
    while i < events.len()
        invariant
            i <= events@.len(),
            views(out@) == images_of(events@.take(i as int)),
        decreases events.len() - i,
    {
        assert(events@.take(i + 1).drop_last() =~= events@.take(i as int));
        let found = match &events[i] {
            XmlEvent::Start(tag) => image_of_tag(tag),
            XmlEvent::Empty(tag) => image_of_tag(tag),
            _ => None,
        };
        match found {
            Some(n) => {
                let ghost before = out@;
                out.push(n);
                assert(views(out@) =~= views(before).push(n@));
            },
            None => {},
        }
        i += 1;
    }
    assert(events@.take(events@.len() as int) =~= events@);
    out
}

/// Image file names referenced by a slide's `.rels` file (read with trimming).
pub fn extract_image_targets(rels_xml: &str) -> (r: Vec<String>)
    requires
        rels_xml.spec_bytes().len() + 1 <= usize::MAX,
    ensures
        views(r@) == images_of(document_events(rels_xml, true)),
{
    let events = read_events(rels_xml, true);
    images_from_events(&events)
}

// ── Layout names ────────────────────────────────────────────────────────────

/// `(cSld name, sldLayout type)` as last seen in the events.
pub open spec fn layout_names(events: Seq<XmlEvent>) -> (Option<Seq<char>>, Option<Seq<char>>)
    decreases events.len(),
{
    if events.len() == 0 {
        (None, None)
    } else {
        let prev = layout_names(events.drop_last());
        match events.last() {
            XmlEvent::Start(tag) => layout_tag(prev, tag),
            XmlEvent::Empty(tag) => layout_tag(prev, tag),
            _ => prev,
        }
    }
}

pub open spec fn layout_tag(
    prev: (Option<Seq<char>>, Option<Seq<char>>),
    tag: XmlTag,
) -> (Option<Seq<char>>, Option<Seq<char>>) {
    let local = spec_local_name(tag.name@);
    (
        if local == "cSld"@ { spec_attr(tag, "name"@) } else { prev.0 },
        if local == "sldLayout"@ { spec_attr(tag, "type"@) } else { prev.1 },
    )
}

/// A layout's name: its `cSld` name, else its `sldLayout` type.
pub open spec fn layout_name_of(events: Seq<XmlEvent>) -> Option<Seq<char>> {
    let (name, user) = layout_names(events);
    match name {
        Some(n) => Some(n),
        None => user,
    }
}

pub fn layout_name_from_events(events: &Vec<XmlEvent>) -> (r: Option<String>)
    ensures
        r matches Some(n) ==> layout_name_of(events@) == Some(n@),
        r is None ==> layout_name_of(events@) is None,
{
    let mut name: Option<String> = None;
    let mut user: Option<String> = None;
    let mut i: usize = 0;
    while i < events.len()
        invariant
            i <= events@.len(),
            layout_names(events@.take(i as int)) == (
                match name {
                    Some(n) => Some(n@),
                    None => None,
                },
                match user {
                    Some(n) => Some(n@),
                    None => None,
                },
            ),
        decreases events.len() - i,
    {
        assert(events@.take(i + 1).drop_last() =~= events@.take(i as int));
        match &events[i] {
            XmlEvent::Start(tag) | XmlEvent::Empty(tag) => {
                let local = local_name(tag.name.as_str());
                if str_eq(local.as_str(), "cSld") {
                    name = attr(tag, "name");
                }
                if str_eq(local.as_str(), "sldLayout") {
                    user = attr(tag, "type");
                }
            },
            _ => {},
        }
        i += 1;
    }
    assert(events@.take(events@.len() as int) =~= events@);
    match name {
        Some(n) => Some(n),
        None => user,
    }
}

/// A slide layout's readable name, from its XML (read with trimming).
pub fn extract_layout_name(xml: &str) -> (r: Option<String>)
    requires
        xml.spec_bytes().len() + 1 <= usize::MAX,
    ensures
        r matches Some(n) ==> layout_name_of(document_events(xml, true)) == Some(n@),
        r is None ==> layout_name_of(document_events(xml, true)) is None,
{
    let events = read_events(xml, true);
    layout_name_from_events(&events)
}

// ── Slides ──────────────────────────────────────────────────────────────────

/// A slide built from its text frames and image names: the first frame is
/// the title, the others, joined with newlines, the body.
pub open spec fn slide_matches(s: SlideContent, n: nat, frames: Seq<Seq<char>>, images: Seq<Seq<char>>) -> bool {
    &&& s.index == n
    &&& s.title@ == (if frames.len() > 0 { frames[0] } else { Seq::empty() })
    &&& s.body@ == (if frames.len() > 0 { join_with(frames.drop_first(), "\n"@) } else { Seq::empty() })
    &&& views(s.images@) == images
}

/// No text frame of a slide is lost: the first is the title, every other
/// one stands in the body, each ended by a newline before the next, in the
/// order of the frames; a slide with at most one frame has an empty body.
pub proof fn law_slide_keeps_every_frame(
    s: SlideContent,
    n: nat,
    frames: Seq<Seq<char>>,
    images: Seq<Seq<char>>,
)
    requires
        slide_matches(s, n, frames, images),
    ensures
        s.index == n,
        frames.len() > 0 ==> s.title@ == frames[0],
        frames.len() <= 1 ==> s.body@.len() == 0,
        frames.len() >= 2 ==> s.body@.len() == total_len(frames.drop_first()) + frames.len() - 2,
        forall|k: int| 1 <= k < frames.len() ==> occurs_in(s.body@, #[trigger] frames[k]),
        forall|k: int, l: int|
            1 <= k < l < frames.len() ==> in_order(s.body@, #[trigger] frames[k] + "\n"@, #[trigger] frames[l]),
{
    let rest = frames.drop_first();
    reveal_strlit("\n");
    if frames.len() >= 2 {
        lemma_join_len(rest, "\n"@);
    }
    assert forall|k: int| 1 <= k < frames.len() implies occurs_in(s.body@, #[trigger] frames[k]) by {
        assert(rest[k - 1] == frames[k]);
        lemma_join_occurs(rest, "\n"@, k - 1);
    }
    assert forall|k: int, l: int| 1 <= k < l < frames.len() implies in_order(
        s.body@,
        #[trigger] frames[k] + "\n"@,
        #[trigger] frames[l],
    ) by {
        assert(rest[k - 1] == frames[k] && rest[l - 1] == frames[l]);
        lemma_join_in_order(rest, "\n"@, k - 1, l - 1);
    }
}

/// Assembles slide `n` from its text frames and image names.
pub fn slide_from_parts(n: usize, frames: Vec<String>, images: Vec<String>) -> (r: SlideContent)
    ensures
        slide_matches(r, n as nat, views(frames@), views(images@)),
{
    proof {
        reveal_strlit("");
    }
    if frames.len() == 0 {
        return SlideContent { index: n, title: String::new(), body: String::new(), images };
    }
    let mut frames = frames;
    let ghost all = frames@;
    let title = frames.remove(0);
    assert(views(frames@) =~= views(all).drop_first());
    let body = join_strings(&frames, "\n");
    SlideContent { index: n, title, body, images }
}

/// Reads slide `n` from its XML and, when present, its relationships file.
pub fn read_slide(n: usize, slide_xml: &str, rels_xml: Option<&str>) -> (r: SlideContent)
    requires
        slide_xml.spec_bytes().len() + 1 <= usize::MAX,
        rels_xml matches Some(x) ==> x.spec_bytes().len() + 1 <= usize::MAX,
    ensures
        slide_matches(
            r,
            n as nat,
            slide_text_run(document_events(slide_xml, false)).frames,
            match rels_xml {
                Some(x) => images_of(document_events(x, true)),
                None => Seq::empty(),
            },
        ),
{
    let images = match rels_xml {
        Some(x) => extract_image_targets(x),
        None => {
            let v: Vec<String> = Vec::new();
            assert(views(v@) =~= Seq::empty());
            v
        },
    };
    let texts = extract_slide_texts(slide_xml);
    slide_from_parts(n, texts, images)
}

/// The slide recorded when slide `n` could not be read.
pub fn unreadable_slide(n: usize, error: &str) -> (r: SlideContent)
    ensures
        r.index == n,
        r.title@.len() == 0,
        r.body@ == "[unreadable: "@ + error@ + "]"@,
        r.images@.len() == 0,
{
    let mut body = owned("[unreadable: ");
    push_str(&mut body, error);
    push_str(&mut body, "]");
    SlideContent { index: n, title: String::new(), body, images: Vec::new() }
}

} // verus!
