use vstd::prelude::*;

use quick_xml::events::attributes::{AttrError, Attribute, Attributes};
use quick_xml::events::{BytesStart, Event};
use quick_xml::Reader;

use self::XmlEvent::{Empty, End, Eof, Other, Start, Text};

verus! {

/// An error that quick_xml reported: while reading the document, while
/// splitting a tag's attributes, or while unescaping text; by its message.
#[derive(Debug, PartialEq, Eq)]
pub struct XmlError(pub String);

/// A start tag, or an empty-element tag, as read from a document.
#[derive(Debug)]
pub struct XmlTag {
    /// The tag's name with any namespace prefix removed.
    pub local_name: Vec<u8>,
    /// The tag itself, whose attributes are read on demand.
    pub start: BytesStart<'static>,
}

/// One event read from a document, with its text unescaped.
#[derive(Debug)]
pub enum XmlEvent {
    Start(XmlTag),
    Empty(XmlTag),
    /// An end tag, by its local name.
    End(Vec<u8>),
    /// Character data, still escaped.
    Text(Vec<u8>),
    Eof,
    /// A comment, a CDATA section, a declaration, a processing instruction or
    /// a document type definition.
    Other,
}

/// One attribute of a tag: its key and its raw, still escaped, value.
#[derive(Debug, PartialEq, Eq)]
pub struct XmlAttr {
    pub key: Vec<u8>,
    pub value: Vec<u8>,
}

/// Why reading what a manifest says failed.
#[derive(Debug, PartialEq, Eq)]
pub enum ManifestError {
    /// The manifest has no `<Id>` text.
    MissingId,
    /// The manifest has no `<Version>` text.
    MissingVersion,
    /// The manifest has no `<Host Name="...">`.
    MissingHost,
    /// quick_xml reported an error, with this message, before a `<Host>`
    /// name was found.
    Xml(String),
    /// The add-in is not hosted by Word: its host is the given name.
    NotWordHost(String),
}

/// A `ManifestError` with its strings taken by their characters.
pub enum ManifestErrorView {
    MissingId,
    MissingVersion,
    MissingHost,
    Xml(Seq<char>),
    NotWordHost(Seq<char>),
}

impl View for ManifestError {
    type V = ManifestErrorView;

    open spec fn view(&self) -> ManifestErrorView {
        match self {
            ManifestError::MissingId => ManifestErrorView::MissingId,
            ManifestError::MissingVersion => ManifestErrorView::MissingVersion,
            ManifestError::MissingHost => ManifestErrorView::MissingHost,
            ManifestError::Xml(m) => ManifestErrorView::Xml(m@),
            ManifestError::NotWordHost(h) => ManifestErrorView::NotWordHost(h@),
        }
    }
}

/// The message that tells a user what went wrong.
pub open spec fn error_text(e: ManifestErrorView) -> Seq<char> {
    match e {
        ManifestErrorView::MissingId => "manifest 中没有找到 <Id>"@,
        ManifestErrorView::MissingVersion => "manifest 中没有找到 <Version>"@,
        ManifestErrorView::MissingHost => "manifest 中没有找到 <Host Name=\"...\">"@,
        ManifestErrorView::Xml(m) => m,
        ManifestErrorView::NotWordHost(h) => "当前程序只支持 Word 加载项，manifest Host 是: "@ + h,
    }
}

impl ManifestError {
    /// The message that tells a user what went wrong: for an XML error,
    /// quick_xml's own message.
    pub fn message(&self) -> (r: String)
        ensures
            r@ == error_text(self@),
    {
        match self {
            ManifestError::MissingId => "manifest 中没有找到 <Id>".to_owned(),
            ManifestError::MissingVersion => "manifest 中没有找到 <Version>".to_owned(),
            ManifestError::MissingHost => "manifest 中没有找到 <Host Name=\"...\">".to_owned(),
            ManifestError::Xml(m) => m.clone(),
            ManifestError::NotWordHost(h) => {
                let mut text = "当前程序只支持 Word 加载项，manifest Host 是: ".to_owned();
                text.append(h.as_str());
                text
            },
        }
    }
}

#[verifier::external_type_specification]
#[verifier::external_body]
#[verifier::reject_recursive_types(R)]
pub struct ExReader<R>(Reader<R>);

#[verifier::external_type_specification]
#[verifier::external_body]
pub struct ExBytesStart<'a>(BytesStart<'a>);

#[verifier::external_type_specification]
#[verifier::external_body]
pub struct ExAttributes<'a>(Attributes<'a>);

#[verifier::external_type_specification]
#[verifier::external_body]
pub struct ExAttribute<'a>(Attribute<'a>);

#[verifier::external_type_specification]
#[verifier::external_body]
pub struct ExAttrError(AttrError);

/// The results that a quick_xml reader made by `Reader::from_str` on `xml`,
/// with `trim_text(true)`, returns from `read_event_into`, one per call, up
/// to and including the first `Eof` or error.
pub uninterp spec fn xml_events(xml: Seq<char>) -> Seq<Result<XmlEvent, XmlError>>;

/// The results that `reader` has still to return before it returns only
/// `Eof`.
pub uninterp spec fn reader_pending(reader: Reader<&[u8]>) -> Seq<Result<XmlEvent, XmlError>>;

/// The items that quick_xml's `attributes()` iterator yields for the tag
/// `start`, in order, before it yields `None`.
pub uninterp spec fn tag_attributes(start: BytesStart<'static>) -> Seq<Result<XmlAttr, XmlError>>;

/// The items that the attribute iterator `attrs` has still to yield.
pub uninterp spec fn attributes_pending(attrs: Attributes<'_>) -> Seq<Result<XmlAttr, XmlError>>;

/// The text that quick_xml gives for the escaped bytes `raw`, or the message
/// of the error it reports: `Attribute::unescape_value` on a value `raw`,
/// which decodes UTF-8 and unescapes, as `BytesText::unescape` does for text.
pub uninterp spec fn unescaped_value(raw: Seq<u8>) -> Result<Seq<char>, Seq<char>>;

/// A text result, by characters: the text, or the error's message.
pub open spec fn text_result(r: Result<String, XmlError>) -> Result<Seq<char>, Seq<char>> {
    match r {
        Ok(s) => Ok(s@),
        Err(e) => Err(e.0@),
    }
}

/// Calls `Reader::from_str` on `xml` and turns on `trim_text`; the reader
/// then reads the events that `xml_events` names.
#[verifier::external_body]
fn xml_reader(xml: &str) -> (r: Reader<&[u8]>)
    ensures
        reader_pending(r) == xml_events(xml@),
{
    let mut reader = Reader::from_str(xml);
    reader.trim_text(true);
    reader
}

/// Calls `Reader::read_event_into` once and turns the event into plain
/// values: start and empty tags by local name (keeping the tag for its
/// attributes), end tags by local name, and text by its escaped bytes. An
/// error comes back as its message. It returns the first result still pending, and
/// `Eof` once none is, as quick_xml's reader stays at its end after an `Eof`
/// or an error.
#[verifier::external_body]
fn read_event(reader: &mut Reader<&[u8]>, buf: &mut Vec<u8>) -> (r: Result<XmlEvent, XmlError>)
    ensures
        reader_pending(*old(reader)).len() == 0 ==> (r matches Ok(XmlEvent::Eof))
            && reader_pending(*final(reader)).len() == 0,
        reader_pending(*old(reader)).len() > 0 ==> r == reader_pending(*old(reader))[0]
            && reader_pending(*final(reader)) == reader_pending(*old(reader)).drop_first(),
{
    let event = match reader.read_event_into(buf) {
        Ok(event) => event,
        Err(e) => return Err(XmlError(e.to_string())),
    };
    Ok(match event {
        Event::Start(e) => Start(XmlTag { local_name: e.local_name().as_ref().to_vec(), start: e.into_owned() }),
        Event::Empty(e) => Empty(XmlTag { local_name: e.local_name().as_ref().to_vec(), start: e.into_owned() }),
        Event::End(e) => End(e.local_name().as_ref().to_vec()),
        Event::Text(e) => Text(e.into_inner().into_owned()),
        Event::Eof => Eof,
        _ => Other,
    })
}

/// Calls `BytesStart::attributes` on `start`.
#[verifier::external_body]
fn attributes_of<'a>(start: &'a BytesStart<'static>) -> (r: Attributes<'a>)
    ensures
        attributes_pending(r) == tag_attributes(*start),
{
    start.attributes()
}

/// Calls `Attributes::next` once, giving an attribute by its key and raw
/// value; the iterator yields `None` once nothing is pending.
#[verifier::external_body]
fn next_attribute(attrs: &mut Attributes<'_>) -> (r: Option<Result<XmlAttr, XmlError>>)
    ensures
        attributes_pending(*old(attrs)).len() == 0 ==> r is None && attributes_pending(*final(attrs)).len() == 0,
        attributes_pending(*old(attrs)).len() > 0 ==> r == Some(attributes_pending(*old(attrs))[0])
            && attributes_pending(*final(attrs)) == attributes_pending(*old(attrs)).drop_first(),
{
    match attrs.next() {
        Some(Ok(a)) => Some(Ok(XmlAttr { key: a.key.as_ref().to_vec(), value: a.value.into_owned() })),
        Some(Err(e)) => Some(Err(XmlError(e.to_string()))),
        None => None,
    }
}

/// Calls `Attribute::unescape_value` on an attribute whose raw value is
/// `raw`, and whose key, which the call does not read, is empty; an error
/// comes back as its message.
#[verifier::external_body]
fn unescape(raw: &[u8]) -> (r: Result<String, XmlError>)
    ensures
        text_result(r) == unescaped_value(raw@),
{
    match Attribute::from((&raw[..0], raw)).unescape_value() {
        Ok(v) => Ok(v.into_owned()),
        Err(e) => Err(XmlError(e.to_string())),
    }
}

/// The bytes of the tag name `Id`.
pub open spec fn id_tag() -> Seq<u8> {
    seq![73u8, 100u8]
}

/// The bytes of the tag name `Version`.
pub open spec fn version_tag() -> Seq<u8> {
    seq![86u8, 101u8, 114u8, 115u8, 105u8, 111u8, 110u8]
}

/// The bytes of the tag name `Host`.
pub open spec fn host_tag() -> Seq<u8> {
    seq![72u8, 111u8, 115u8, 116u8]
}

/// The bytes of the attribute key `Name`.
pub open spec fn name_key() -> Seq<u8> {
    seq![78u8, 97u8, 109u8, 101u8]
}

/// The text of the first text event read while inside a `tag` element,
/// reading `events` with `inside` telling whether reading starts inside one:
/// a start tag named `tag` enters it and an end tag named `tag` leaves it.
/// There is none when an error or the end of the document comes first, or
/// when that text could not be unescaped.
pub open spec fn first_text_in(
    events: Seq<Result<XmlEvent, XmlError>>,
    tag: Seq<u8>,
    inside: bool,
) -> Option<Seq<char>>
    decreases events.len(),
{
    if events.len() == 0 {
        None
    } else {
        let rest = events.drop_first();
        match events[0] {
            Err(_) => None,
            Ok(XmlEvent::Start(t)) => first_text_in(rest, tag, inside || t.local_name@ == tag),
            Ok(XmlEvent::Text(raw)) => if inside {
                match unescaped_value(raw@) {
                    Ok(s) => Some(s),
                    Err(_) => None,
                }
            } else {
                first_text_in(rest, tag, inside)
            },
            Ok(XmlEvent::End(name)) => first_text_in(rest, tag, inside && name@ != tag),
            Ok(XmlEvent::Eof) => None,
            Ok(_) => first_text_in(rest, tag, inside),
        }
    }
}

/// The first text inside a `tag` element of the document `xml`.
pub open spec fn first_text(xml: Seq<char>, tag: Seq<u8>) -> Option<Seq<char>> {
    first_text_in(xml_events(xml), tag, false)
}

/// The value of the first `Name` attribute among `attrs`, unescaped; an
/// error when an attribute before it is malformed or the value cannot be
/// unescaped; `None` when there is no such attribute.
pub open spec fn name_attribute(attrs: Seq<Result<XmlAttr, XmlError>>) -> Option<
    Result<Seq<char>, ManifestErrorView>,
>
    decreases attrs.len(),
{
    if attrs.len() == 0 {
        None
    } else {
        match attrs[0] {
            Err(e) => Some(Err(ManifestErrorView::Xml(e.0@))),
            Ok(a) => if a.key@ == name_key() {
                Some(
                    match unescaped_value(a.value@) {
                        Ok(text) => Ok(text),
                        Err(message) => Err(ManifestErrorView::Xml(message)),
                    },
                )
            } else {
                name_attribute(attrs.drop_first())
            },
        }
    }
}

/// What the tag `t` says of the host: when it is a `Host` tag with a
/// `Name` attribute, or with a malformed attribute before one, that.
pub open spec fn host_in_tag(t: XmlTag) -> Option<Result<Seq<char>, ManifestErrorView>> {
    if t.local_name@ == host_tag() {
        name_attribute(tag_attributes(t.start))
    } else {
        None
    }
}

/// The `Name` of a `Host` tag, read from `events`: the first `Host` start
/// or empty tag that has a `Name` attribute gives it.
pub open spec fn host_name_in(events: Seq<Result<XmlEvent, XmlError>>) -> Result<
    Seq<char>,
    ManifestErrorView,
>
    decreases events.len(),
{
    if events.len() == 0 {
        Err(ManifestErrorView::MissingHost)
    } else {
        let rest = events.drop_first();
        match events[0] {
            Err(e) => Err(ManifestErrorView::Xml(e.0@)),
            Ok(XmlEvent::Start(t)) => match host_in_tag(t) {
                Some(r) => r,
                None => host_name_in(rest),
            },
            Ok(XmlEvent::Empty(t)) => match host_in_tag(t) {
                Some(r) => r,
                None => host_name_in(rest),
            },
            Ok(XmlEvent::Eof) => Err(ManifestErrorView::MissingHost),
            Ok(_) => host_name_in(rest),
        }
    }
}

/// The host that the manifest `xml` names.
pub open spec fn host_name(xml: Seq<char>) -> Result<Seq<char>, ManifestErrorView> {
    host_name_in(xml_events(xml))
}

/// A string by its characters.
pub open spec fn text_of(s: Option<String>) -> Option<Seq<char>> {
    match s {
        Some(s) => Some(s@),
        None => None,
    }
}

/// A result by the characters of its string.
pub open spec fn result_text(r: Result<String, ManifestError>) -> Result<Seq<char>, ManifestErrorView> {
    match r {
        Ok(s) => Ok(s@),
        Err(e) => Err(e@),
    }
}

/// Whether two byte strings are equal.
pub fn bytes_equal(a: &[u8], b: &[u8]) -> (r: bool)
    ensures
        r == (a@ == b@),
{
    if a.len() != b.len() {
        return false;
    }
    let mut i: usize = 0;
    while i < a.len()
        invariant
            a@.len() == b@.len(),
            i <= a@.len(),
            forall|j: int| 0 <= j < i ==> a@[j] == b@[j],
        decreases a@.len() - i,
    {
        if a[i] != b[i] {
            return false;
        }
        i = i + 1;
    }
    assert(a@ =~= b@);
    true
}

/// Empty-element tags, and comments, CDATA sections, declarations,
/// processing instructions and document types, do not change what the
/// search for a tag's text finds: wherever such an event stands among the
/// events, taking it out leaves the outcome as it was.
pub proof fn lemma_first_text_passes_over(
    before: Seq<Result<XmlEvent, XmlError>>,
    event: Result<XmlEvent, XmlError>,
    after: Seq<Result<XmlEvent, XmlError>>,
    tag: Seq<u8>,
    inside: bool,
)
    requires
        event matches Ok(XmlEvent::Empty(_)) || event matches Ok(XmlEvent::Other),
    ensures
        first_text_in(before + seq![event] + after, tag, inside) == first_text_in(
            before + after,
            tag,
            inside,
        ),
    decreases before.len(),
{
    let with_event = before + seq![event] + after;
    let without = before + after;
    if before.len() == 0 {
        assert(with_event[0] == event);
        assert(with_event.drop_first() =~= after);
        assert(without =~= after);
    } else {
        assert(with_event[0] == before[0]);
        assert(without[0] == before[0]);
        assert(with_event.drop_first() =~= before.drop_first() + seq![event] + after);
        assert(without.drop_first() =~= before.drop_first() + after);
        let next = match before[0] {
            Ok(XmlEvent::Start(t)) => inside || t.local_name@ == tag,
            Ok(XmlEvent::End(name)) => inside && name@ != tag,
            _ => inside,
        };
        lemma_first_text_passes_over(before.drop_first(), event, after, tag, next);
    }
}

/// The search for the first text inside a `tag` element, fed the events of
/// a document one at a time.
pub struct TextSearch {
    tag: Vec<u8>,
    inside: bool,
}

impl TextSearch {
    /// The tag searched for.
    pub closed spec fn spec_tag(&self) -> Seq<u8> {
        self.tag@
    }

    /// Whether the events fed so far leave the search inside a `tag`
    /// element.
    pub closed spec fn is_inside(&self) -> bool {
        self.inside
    }

    /// A search for `tag` that starts outside any element.
    pub fn new(tag: &[u8]) -> (r: Self)
        ensures
            r.spec_tag() == tag@,
            !r.is_inside(),
    {
        TextSearch { tag: vstd::slice::slice_to_vec(tag), inside: false }
    }

    /// Feeds the next event: `Some` with the outcome when the event ends the
    /// search (the text found, or none), `None` when it goes on. Whatever
    /// events follow, the search comes to what `first_text_in` says of them
    /// after this one.
    pub fn feed(&mut self, event: Result<XmlEvent, XmlError>) -> (r: Option<Option<String>>)
        ensures
            final(self).spec_tag() == old(self).spec_tag(),
            (event is Err || event matches Ok(XmlEvent::Eof)) ==> r == Some(None::<String>),
            (event matches Ok(XmlEvent::Empty(_)) || event matches Ok(XmlEvent::Other)) ==> r is None
                && final(self).is_inside() == old(self).is_inside(),
            forall|rest: Seq<Result<XmlEvent, XmlError>>|
                #![trigger first_text_in(seq![event].add(rest), old(self).spec_tag(), old(self).is_inside())]
                first_text_in(seq![event].add(rest), old(self).spec_tag(), old(self).is_inside())
                    == match r {
                    Some(found) => text_of(found),
                    None => first_text_in(rest, final(self).spec_tag(), final(self).is_inside()),
                },
    {
        let ghost ev = event;
        let ghost old_inside = self.inside;
        let r = match event {
            Err(_) => Some(None),
            Ok(XmlEvent::Start(t)) => {
                if bytes_equal(t.local_name.as_slice(), self.tag.as_slice()) {
                    self.inside = true;
                }
                None
            },
            Ok(XmlEvent::Text(raw)) => {
                if self.inside {
                    Some(
                        match unescape(raw.as_slice()) {
                            Ok(s) => Some(s),
                            Err(_) => None,
                        },
                    )
                } else {
                    None
                }
            },
            Ok(XmlEvent::End(name)) => {
                if bytes_equal(name.as_slice(), self.tag.as_slice()) {
                    self.inside = false;
                }
                None
            },
            Ok(XmlEvent::Eof) => Some(None),
            Ok(_) => None,
        };
        assert forall|rest: Seq<Result<XmlEvent, XmlError>>|
            #![trigger first_text_in(seq![ev].add(rest), self.tag@, old_inside)]
            first_text_in(seq![ev].add(rest), self.tag@, old_inside) == match r {
                Some(found) => text_of(found),
                None => first_text_in(rest, self.tag@, self.inside),
            } by {
            assert(seq![ev].add(rest).drop_first() =~= rest);
            assert(seq![ev].add(rest)[0] == ev);
        }
        r
    }
}

/// The text of the first `tag` element of `xml`: the first text event read
/// after a start tag named `tag` and before the end tag that closes it.
pub fn parse_first_text(xml: &str, tag: &[u8]) -> (r: Option<String>)
    ensures
        text_of(r) == first_text(xml@, tag@),
{
    let mut reader = xml_reader(xml);
    let mut buf: Vec<u8> = Vec::new();
    let mut search = TextSearch::new(tag);
    loop
        invariant
            search.spec_tag() == tag@,
            first_text_in(reader_pending(reader), tag@, search.is_inside()) == first_text(xml@, tag@),
        decreases reader_pending(reader).len(),
    {
        let ghost pending = reader_pending(reader);
        let event = read_event(&mut reader, &mut buf);
        let ghost ev = event;
        let found = search.feed(event);
        proof {
            if pending.len() > 0 {
                assert(pending =~= seq![ev].add(reader_pending(reader)));
            } else {
                assert(first_text_in(seq![ev].add(pending), tag@, false) == None::<Seq<char>>);
            }
        }
        if let Some(found) = found {
            return found;
        }
        buf.clear();
    }
}

/// An optional result by the characters of its string.
pub open spec fn found_text(r: Option<Result<String, ManifestError>>) -> Option<
    Result<Seq<char>, ManifestErrorView>,
> {
    match r {
        Some(r) => Some(result_text(r)),
        None => None,
    }
}

/// What the next attribute of a tag says of its `Name`: `Some` with the
/// outcome when it ends the search (a malformed attribute, or the `Name`
/// attribute with its value unescaped, or the error that unescaping gave),
/// `None` when the search goes on. Whatever attributes follow, the search
/// comes to what `name_attribute` says of them after this one.
pub fn name_in_attribute(attr: Result<XmlAttr, XmlError>) -> (r: Option<Result<String, ManifestError>>)
    ensures
        attr is Err ==> found_text(r) == Some(
            Err::<Seq<char>, ManifestErrorView>(ManifestErrorView::Xml(attr->Err_0.0@)),
        ),
        forall|rest: Seq<Result<XmlAttr, XmlError>>|
            #![trigger name_attribute(seq![attr].add(rest))]
            name_attribute(seq![attr].add(rest)) == match r {
                Some(found) => Some(result_text(found)),
                None => name_attribute(rest),
            },
{
    let ghost item = attr;
    let name: [u8; 4] = [78u8, 97u8, 109u8, 101u8];
    assert(name@ == name_key());
    let r = match attr {
        Err(e) => Some(Err(ManifestError::Xml(e.0))),
        Ok(a) => {
            if bytes_equal(a.key.as_slice(), name.as_slice()) {
                Some(
                    match unescape(a.value.as_slice()) {
                        Ok(v) => Ok(v),
                        Err(e) => Err(ManifestError::Xml(e.0)),
                    },
                )
            } else {
                None
            }
        },
    };
    assert forall|rest: Seq<Result<XmlAttr, XmlError>>|
        #![trigger name_attribute(seq![item].add(rest))]
        name_attribute(seq![item].add(rest)) == match r {
            Some(found) => Some(result_text(found)),
            None => name_attribute(rest),
        } by {
        assert(seq![item].add(rest).drop_first() =~= rest);
        assert(seq![item].add(rest)[0] == item);
    }
    r
}

/// The unescaped value of the first `Name` attribute of the tag `start`;
/// an error when an attribute before it is malformed or the value cannot be
/// unescaped.
fn name_attribute_of(start: &BytesStart<'static>) -> (r: Option<Result<String, ManifestError>>)
    ensures
        found_text(r) == name_attribute(tag_attributes(*start)),
{
    let mut attrs = attributes_of(start);
    loop
        invariant
            name_attribute(attributes_pending(attrs)) == name_attribute(tag_attributes(*start)),
        decreases attributes_pending(attrs).len(),
    {
        let ghost pending = attributes_pending(attrs);
        match next_attribute(&mut attrs) {
            None => {
                return None;
            },
            Some(attr) => {
                let ghost item = attr;
                let found = name_in_attribute(attr);
                assert(pending =~= seq![item].add(attributes_pending(attrs)));
                if let Some(found) = found {
                    return Some(found);
                }
            },
        }
    }
}

/// What the tag `t` says of the host.
fn host_of_tag(t: &XmlTag) -> (r: Option<Result<String, ManifestError>>)
    ensures
        found_text(r) == host_in_tag(*t),
{
    let host: [u8; 4] = [72u8, 111u8, 115u8, 116u8];
    assert(host@ == host_tag());
    if bytes_equal(t.local_name.as_slice(), host.as_slice()) {
        name_attribute_of(&t.start)
    } else {
        None
    }
}

/// What the next event says of the host: `Some` with the outcome when it
/// ends the search (a name found, or an error, or the end of the document),
/// `None` when the search goes on. Whatever events follow, the search comes
/// to what `host_name_in` says of them after this one.
pub fn host_in_event(event: Result<XmlEvent, XmlError>) -> (r: Option<Result<String, ManifestError>>)
    ensures
        event is Err ==> found_text(r) == Some(
            Err::<Seq<char>, ManifestErrorView>(ManifestErrorView::Xml(event->Err_0.0@)),
        ),
        event matches Ok(XmlEvent::Eof) ==> found_text(r) == Some(
            Err::<Seq<char>, ManifestErrorView>(ManifestErrorView::MissingHost),
        ),
        forall|rest: Seq<Result<XmlEvent, XmlError>>|
            #![trigger host_name_in(seq![event].add(rest))]
            host_name_in(seq![event].add(rest)) == match r {
                Some(found) => result_text(found),
                None => host_name_in(rest),
            },
{
    let ghost ev = event;
    let r = match event {
        Ok(XmlEvent::Start(t)) => host_of_tag(&t),
        Ok(XmlEvent::Empty(t)) => host_of_tag(&t),
        Ok(XmlEvent::Eof) => Some(Err(ManifestError::MissingHost)),
        Ok(_) => None,
        Err(e) => Some(Err(ManifestError::Xml(e.0))),
    };
    assert forall|rest: Seq<Result<XmlEvent, XmlError>>|
        #![trigger host_name_in(seq![ev].add(rest))]
        host_name_in(seq![ev].add(rest)) == match r {
            Some(found) => result_text(found),
            None => host_name_in(rest),
        } by {
        assert(seq![ev].add(rest).drop_first() =~= rest);
        assert(seq![ev].add(rest)[0] == ev);
    }
    r
}

/// A `Host` tag names the host alike whether it is written as an
/// empty-element tag or as a start tag: wherever the tag stands among the
/// events, the host read is the same.
pub proof fn lemma_host_empty_or_start_tag(
    before: Seq<Result<XmlEvent, XmlError>>,
    t: XmlTag,
    after: Seq<Result<XmlEvent, XmlError>>,
)
    ensures
        host_name_in(before + seq![Ok(XmlEvent::Empty(t))] + after) == host_name_in(
            before + seq![Ok(XmlEvent::Start(t))] + after,
        ),
    decreases before.len(),
{
    let empty = before + seq![Ok(XmlEvent::Empty(t))] + after;
    let start = before + seq![Ok(XmlEvent::Start(t))] + after;
    if before.len() == 0 {
        assert(empty[0] == Ok::<XmlEvent, XmlError>(XmlEvent::Empty(t)));
        assert(start[0] == Ok::<XmlEvent, XmlError>(XmlEvent::Start(t)));
        assert(empty.drop_first() =~= after);
        assert(start.drop_first() =~= after);
    } else {
        assert(empty[0] == before[0]);
        assert(start[0] == before[0]);
        assert(empty.drop_first() =~= before.drop_first() + seq![Ok(XmlEvent::Empty(t))] + after);
        assert(start.drop_first() =~= before.drop_first() + seq![Ok(XmlEvent::Start(t))] + after);
        lemma_host_empty_or_start_tag(before.drop_first(), t, after);
    }
}

/// The unescaped `Name` attribute of the first `Host` tag of `xml` that
/// has one.
pub fn parse_host(xml: &str) -> (r: Result<String, ManifestError>)
    ensures
        result_text(r) == host_name(xml@),
{
    let mut reader = xml_reader(xml);
    let mut buf: Vec<u8> = Vec::new();
    loop
        invariant
            host_name_in(reader_pending(reader)) == host_name(xml@),
        decreases reader_pending(reader).len(),
    {
        let ghost pending = reader_pending(reader);
        let event = read_event(&mut reader, &mut buf);
        let ghost ev = event;
        let found = host_in_event(event);
        proof {
            if pending.len() > 0 {
                assert(pending =~= seq![ev].add(reader_pending(reader)));
            } else {
                assert(host_name_in(seq![ev].add(pending)) == Err::<Seq<char>, ManifestErrorView>(
                    ManifestErrorView::MissingHost,
                ));
            }
        }
        if let Some(found) = found {
            return found;
        }
        buf.clear();
    }
}

/// The add-in's `<Id>` text.
pub fn parse_manifest_id(xml: &str) -> (r: Result<String, ManifestError>)
    ensures
        result_text(r) == match first_text(xml@, id_tag()) {
            Some(id) => Ok(id),
            None => Err(ManifestErrorView::MissingId),
        },
{
    let tag: [u8; 2] = [73u8, 100u8];
    assert(tag@ == id_tag());
    match parse_first_text(xml, tag.as_slice()) {
        Some(id) => Ok(id),
        None => Err(ManifestError::MissingId),
    }
}

/// The add-in's `<Version>` text.
pub fn parse_manifest_version(xml: &str) -> (r: Result<String, ManifestError>)
    ensures
        result_text(r) == match first_text(xml@, version_tag()) {
            Some(v) => Ok(v),
            None => Err(ManifestErrorView::MissingVersion),
        },
{
    let tag: [u8; 7] = [86u8, 101u8, 114u8, 115u8, 105u8, 111u8, 110u8];
    assert(tag@ == version_tag());
    match parse_first_text(xml, tag.as_slice()) {
        Some(v) => Ok(v),
        None => Err(ManifestError::MissingVersion),
    }
}

/// The version used when a manifest gives none.
pub open spec fn default_version() -> Seq<char> {
    "1.0.0.0"@
}

/// The host name of a Word add-in.
pub open spec fn word_host() -> Seq<char> {
    "Document"@
}

/// What an installer needs from a manifest to register and sideload a
/// Word add-in.
#[derive(Debug, PartialEq, Eq)]
pub struct SideloadManifest {
    pub addin_id: String,
    pub version: String,
}

/// Whether the host named `host` is Word.
fn is_word_host(host: &String) -> (r: bool)
    ensures
        r == (host@ == word_host()),
{
    let word = "Document".to_owned();
    *host == word
}

/// Reads what a Word add-in's manifest says for sideloading: its id, its
/// version (`1.0.0.0` when it gives none) and its host, which must be Word.
/// Fails, in this order, when there is no id, when the host cannot be read,
/// or when the host is not Word.
pub fn sideload_manifest(xml: &str) -> (r: Result<SideloadManifest, ManifestError>)
    ensures
        match first_text(xml@, id_tag()) {
            None => r is Err && r->Err_0@ == ManifestErrorView::MissingId,
            Some(id) => match host_name(xml@) {
                Err(e) => r is Err && r->Err_0@ == e,
                Ok(host) => if host == word_host() {
                    &&& r is Ok
                    &&& r->Ok_0.addin_id@ == id
                    &&& r->Ok_0.version@ == match first_text(xml@, version_tag()) {
                        Some(v) => v,
                        None => default_version(),
                    }
                } else {
                    r is Err && r->Err_0@ == ManifestErrorView::NotWordHost(host)
                },
            },
        },
{
    let addin_id = parse_manifest_id(xml)?;
    let version = match parse_manifest_version(xml) {
        Ok(v) => v,
        Err(_) => "1.0.0.0".to_owned(),
    };
    let host = parse_host(xml)?;
    if !is_word_host(&host) {
        return Err(ManifestError::NotWordHost(host));
    }
    Ok(SideloadManifest { addin_id, version })
}

/// Reads what a Word add-in's manifest says for a shared-folder catalog:
/// its id, once its host is found to be Word. Fails, in this order, when
/// there is no id, when the host cannot be read, or when the host is not
/// Word.
pub fn catalog_manifest(xml: &str) -> (r: Result<String, ManifestError>)
    ensures
        match first_text(xml@, id_tag()) {
            None => r is Err && r->Err_0@ == ManifestErrorView::MissingId,
            Some(id) => match host_name(xml@) {
                Err(e) => r is Err && r->Err_0@ == e,
                Ok(host) => if host == word_host() {
                    r is Ok && r->Ok_0@ == id
                } else {
                    r is Err && r->Err_0@ == ManifestErrorView::NotWordHost(host)
                },
            },
        },
{
    let addin_id = parse_manifest_id(xml)?;
    let host = parse_host(xml)?;
    if !is_word_host(&host) {
        return Err(ManifestError::NotWordHost(host));
    }
    Ok(addin_id)
}

} // verus!