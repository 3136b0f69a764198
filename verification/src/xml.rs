use vstd::prelude::*;

use quick_xml::events::{BytesStart, Event};
use quick_xml::Reader;

use vstd::string::StringSliceAdditionalSpecFns;

use crate::json::str_eq;
use crate::text::{chars_of, string_of, sub_chars};

verus! {

/// A start or empty element tag: its qualified name and its attributes
/// (qualified key, raw value), in document order.
pub struct XmlTag {
    pub name: String,
    pub attrs: Vec<(String, String)>,
}

/// One event of the XML pull parser, with names and values as text.
pub enum XmlEvent {
    /// `<tag ...>`
    Start(XmlTag),
    /// `<tag ... />`
    Empty(XmlTag),
    /// `</tag>`, by qualified name.
    End(String),
    /// Character data, unescaped; `None` when unescaping failed.
    Text(Option<String>),
    /// End of the document.
    Eof,
    /// A syntax error, with the parser's message; the parser stops there.
    Error(String),
    /// Comments, CDATA, declarations, processing instructions, doctype.
    Other,
}

#[verifier::external_type_specification]
#[verifier::external_body]
#[verifier::reject_recursive_types(R)]
pub struct ExXmlReader<R>(Reader<R>);

#[verifier::external_type_specification]
#[verifier::external_body]
pub struct ExBytesStart<'a>(BytesStart<'a>);

/// The `index`-th event (counting from 0) that `quick_xml::Reader::read_event`
/// yields for the document `xml`, with text trimming on or off.
pub uninterp spec fn xml_event_at(xml: Seq<char>, trim: bool, index: nat) -> XmlEvent;

/// A pull parser over one document, with the position it has reached.
pub(crate) struct XmlReader<'a> {
    inner: Reader<&'a [u8]>,
    src: Ghost<Seq<char>>,
    trim: Ghost<bool>,
    pos: Ghost<nat>,
}

/// A start or empty tag as read, with the place of its event.
pub(crate) struct XmlStart<'a> {
    inner: BytesStart<'a>,
    place: Ghost<(Seq<char>, bool, nat)>,
}

/// One event as read: start and empty tags are decoded on demand.
pub(crate) enum RawEvent<'a> {
    Start(XmlStart<'a>),
    Empty(XmlStart<'a>),
    End(String),
    Text(Option<String>),
    Eof,
    Error(String),
    Other,
}

impl<'a> XmlStart<'a> {
    /// The event this tag was read as.
    pub(crate) closed spec fn event(&self) -> XmlEvent {
        xml_event_at(self.place@.0, self.place@.1, self.place@.2)
    }

    /// The name (`e.name()`) and attributes (`e.attributes()` without
    /// checks, failed ones left out) of the tag, decoded as UTF-8 with
    /// invalid sequences replaced.
    #[verifier::external_body]
    pub(crate) fn tag(&self) -> (r: XmlTag)
        ensures
            self.event() == XmlEvent::Start(r) || self.event() == XmlEvent::Empty(r),
    {
        XmlTag { name: String::from_utf8_lossy(self.inner.name().as_ref()).into_owned(), attrs: self.inner.attributes().with_checks(false).flatten().map(|a| (String::from_utf8_lossy(a.key.as_ref()).into_owned(), String::from_utf8_lossy(&a.value).into_owned())).collect() }
    }
}

/// Whether a read event is the event at a place; tags are told by kind.
pub(crate) open spec fn raw_matches(r: RawEvent, e: XmlEvent) -> bool {
    match r {
        RawEvent::Start(t) => e is Start && t.event() == e,
        RawEvent::Empty(t) => e is Empty && t.event() == e,
        RawEvent::End(n) => e == XmlEvent::End(n),
        RawEvent::Text(t) => e == XmlEvent::Text(t),
        RawEvent::Eof => e is Eof,
        RawEvent::Error(m) => e == XmlEvent::Error(m),
        RawEvent::Other => e is Other,
    }
}

impl<'a> XmlReader<'a> {
    pub(crate) closed spec fn source(&self) -> Seq<char> {
        self.src@
    }

    pub(crate) closed spec fn trimming(&self) -> bool {
        self.trim@
    }

    pub(crate) closed spec fn position(&self) -> nat {
        self.pos@
    }

    /// `quick_xml::Reader::from_str`: a reader at the start of `xml`, with its
    /// default configuration (no text trimming).
    #[verifier::external_body]
    pub(crate) fn new(xml: &'a str) -> (r: Self)
        ensures
            r.source() == xml@,
            !r.trimming(),
            r.position() == 0,
    {
        XmlReader { inner: Reader::from_str(xml), src: Ghost(xml@), trim: Ghost(false), pos: Ghost(0) }
    }

    /// `reader.config_mut().trim_text(trim)`: turns trimming of white space
    /// around text on or off, before the first event is read.
    #[verifier::external_body]
    pub(crate) fn set_trim(&mut self, trim: bool)
        requires
            old(self).position() == 0,
        ensures
            final(self).source() == old(self).source(),
            final(self).trimming() == trim,
            final(self).position() == 0,
    {
        self.inner.config_mut().trim_text(trim);
        self.trim = Ghost(trim);
    }

    /// `reader.read_event()`: the next event. End-tag names are decoded as
    /// UTF-8 (invalid sequences replaced), text is unescaped.
    #[verifier::external_body]
    pub(crate) fn read_raw(&mut self) -> (r: RawEvent<'a>)
        ensures
            raw_matches(r, xml_event_at(old(self).source(), old(self).trimming(), old(self).position())),
            final(self).source() == old(self).source(),
            final(self).trimming() == old(self).trimming(),
            final(self).position() == old(self).position() + 1,
    {
        let place = Ghost((self.src@, self.trim@, self.pos@));
        self.pos = Ghost(self.pos@ + 1);
        match self.inner.read_event() {
            Ok(Event::Start(e)) => RawEvent::Start(XmlStart { inner: e, place }),
            Ok(Event::Empty(e)) => RawEvent::Empty(XmlStart { inner: e, place }),
            Ok(Event::End(e)) => RawEvent::End(String::from_utf8_lossy(e.name().as_ref()).into_owned()),
            Ok(Event::Text(t)) => RawEvent::Text(t.unescape().ok().map(String::from)),
            Ok(Event::Eof) => RawEvent::Eof,
            Ok(_) => RawEvent::Other,
            Err(e) => RawEvent::Error(e.to_string()),
        }
    }

    /// The next event, decoded.
    pub(crate) fn next(&mut self) -> (e: XmlEvent)
        ensures
            e == xml_event_at(old(self).source(), old(self).trimming(), old(self).position()),
            final(self).source() == old(self).source(),
            final(self).trimming() == old(self).trimming(),
            final(self).position() == old(self).position() + 1,
    {
        match self.read_raw() {
            RawEvent::Start(t) => XmlEvent::Start(t.tag()),
            RawEvent::Empty(t) => XmlEvent::Empty(t.tag()),
            RawEvent::End(n) => XmlEvent::End(n),
            RawEvent::Text(t) => XmlEvent::Text(t),
            RawEvent::Eof => XmlEvent::Eof,
            RawEvent::Error(m) => XmlEvent::Error(m),
            RawEvent::Other => XmlEvent::Other,
        }
    }
}

/// Whether an event ends the reading: end of document or syntax error.
pub open spec fn is_final(e: XmlEvent) -> bool {
    e is Eof || e is Error
}

/// The events read from position `start` on, at most `budget` of them,
/// stopping after the first final one.
pub open spec fn events_from(xml: Seq<char>, trim: bool, start: nat, budget: nat) -> Seq<XmlEvent>
    decreases budget,
{
    if budget == 0 {
        Seq::empty()
    } else if is_final(xml_event_at(xml, trim, start)) {
        seq![xml_event_at(xml, trim, start)]
    } else {
        seq![xml_event_at(xml, trim, start)] + events_from(xml, trim, start + 1, (budget - 1) as nat)
    }
}

/// The events of a document: read until the end of the document or the
/// first error, and at most one more than the document has bytes (every
/// event but the last consumes at least one byte).
pub open spec fn document_events(xml: &str, trim: bool) -> Seq<XmlEvent> {
    events_from(xml@, trim, 0, (xml.spec_bytes().len() + 1) as nat)
}

pub proof fn lemma_events_from_step(xml: Seq<char>, trim: bool, start: nat, budget: nat)
    requires
        budget > 0,
        !is_final(xml_event_at(xml, trim, start)),
    ensures
        events_from(xml, trim, start, budget) == seq![xml_event_at(xml, trim, start)]
            + events_from(xml, trim, start + 1, (budget - 1) as nat),
{
}

/// Reads all events of a document (see [`document_events`]).
pub fn read_events(xml: &str, trim: bool) -> (r: Vec<XmlEvent>)
    requires
        xml.spec_bytes().len() + 1 <= usize::MAX,
    ensures
        r@ == document_events(xml, trim),
{
    let mut reader = XmlReader::new(xml);
    reader.set_trim(trim);
    let budget = xml.len() + 1;
    let mut out: Vec<XmlEvent> = Vec::new();
    let mut n: usize = 0;
    while n < budget
        invariant_except_break
            n <= budget,
            reader.source() == xml@,
            reader.trimming() == trim,
            reader.position() == n,
            budget == xml.spec_bytes().len() + 1,
            document_events(xml, trim) == out@ + events_from(xml@, trim, n as nat, (budget - n) as nat),
        ensures
            out@ == document_events(xml, trim),
        decreases budget - n,
    {
        let e = reader.next();
        let stop = match e {
            XmlEvent::Eof => true,
            XmlEvent::Error(_) => true,
            _ => false,
        };
        proof {
            if !stop {
                lemma_events_from_step(xml@, trim, n as nat, (budget - n) as nat);
            }
        }
        out.push(e);
        n += 1;
        if stop {
            assert(out@ =~= document_events(xml, trim));
            break;
        }
        assert(document_events(xml, trim) =~= out@ + events_from(xml@, trim, n as nat, (budget - n) as nat));
    }
    proof {
        if n >= budget {
            assert(out@ =~= document_events(xml, trim));
        }
    }
    out
}

// ── Names and attributes ────────────────────────────────────────────────────

/// Index of the first `c` in `s`.
pub open spec fn first_index_of(s: Seq<char>, c: char) -> Option<int>
    decreases s.len(),
{
    if s.len() == 0 {
        None
    } else if s[0] == c {
        Some(0)
    } else {
        match first_index_of(s.drop_first(), c) {
            Some(i) => Some(i + 1),
            None => None,
        }
    }
}

pub proof fn lemma_first_index_of_bounds(s: Seq<char>, c: char)
    ensures
        first_index_of(s, c) matches Some(i) ==> 0 <= i < s.len() && s[i] == c,
    decreases s.len(),
{
    if s.len() > 0 {
        lemma_first_index_of_bounds(s.drop_first(), c);
    }
}

/// The local part of a qualified name: what follows the first `:`, or the
/// whole name.
pub open spec fn spec_local_name(name: Seq<char>) -> Seq<char> {
    match first_index_of(name, ':') {
        Some(i) => name.skip(i + 1),
        None => name,
    }
}

pub proof fn lemma_first_index_of(s: Seq<char>, c: char, k: int)
    requires
        0 <= k <= s.len(),
        forall|j: int| 0 <= j < k ==> s[j] != c,
    ensures
        k < s.len() && s[k] == c ==> first_index_of(s, c) == Some(k),
        k == s.len() ==> first_index_of(s, c) is None,
    decreases k,
{
    if k > 0 {
        lemma_first_index_of(s.drop_first(), c, k - 1);
    }
}

/// The local part of a qualified name.
pub fn local_name(name: &str) -> (r: String)
    ensures
        r@ == spec_local_name(name@),
{
    let cs = chars_of(name);
    let mut i: usize = 0;
    while i < cs.len() && cs[i] != ':'
        invariant
            cs@ == name@,
            i <= cs@.len(),
            forall|j: int| 0 <= j < i ==> name@[j] != ':',
        decreases cs.len() - i,
    {
        i += 1;
    }
    proof {
        lemma_first_index_of(name@, ':', i as int);
    }
    if i < cs.len() {
        let rest = sub_chars(&cs, i + 1, cs.len());
        assert(rest@ =~= name@.skip(i + 1));
        string_of(&rest)
    } else {
        string_of(&cs)
    }
}

/// The value of the first attribute whose local key is `key`.
pub open spec fn attr_in(attrs: Seq<(String, String)>, key: Seq<char>) -> Option<Seq<char>>
    decreases attrs.len(),
{
    if attrs.len() == 0 {
        None
    } else if spec_local_name(attrs[0].0@) == key {
        Some(attrs[0].1@)
    } else {
        attr_in(attrs.drop_first(), key)
    }
}

pub open spec fn spec_attr(tag: XmlTag, key: Seq<char>) -> Option<Seq<char>> {
    attr_in(tag.attrs@, key)
}

/// The value of attribute `key` (compared by local name) of a tag.
pub fn attr(tag: &XmlTag, key: &str) -> (r: Option<String>)
    ensures
        r matches Some(v) ==> spec_attr(*tag, key@) == Some(v@),
        r is None ==> spec_attr(*tag, key@) is None,
{
    let mut i: usize = 0;
    assert(tag.attrs@.skip(0) =~= tag.attrs@);
    while i < tag.attrs.len()
        invariant
            i <= tag.attrs@.len(),
            spec_attr(*tag, key@) == attr_in(tag.attrs@.skip(i as int), key@),
        decreases tag.attrs.len() - i,
    {
        assert(tag.attrs@.skip(i as int).drop_first() =~= tag.attrs@.skip(i + 1));
        assert(tag.attrs@.skip(i as int)[0] == tag.attrs@[i as int]);
        let local = local_name(tag.attrs[i].0.as_str());
        if str_eq(local.as_str(), key) {
            let v = string_of(&chars_of(tag.attrs[i].1.as_str()));
            return Some(v);
        }
        i += 1;
    }
    None
}

} // verus!
