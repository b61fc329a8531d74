use async_exercises::manifest::{
    host_in_event, name_in_attribute, ManifestError, TextSearch, XmlAttr, XmlError, XmlEvent, XmlTag,
};
use quick_xml::events::BytesStart;

fn tag(name: &'static str, attrs: Vec<(&'static str, &'static str)>) -> XmlTag {
    XmlTag { local_name: name.as_bytes().to_vec(), start: BytesStart::new(name).with_attributes(attrs) }
}

fn err() -> XmlError {
    XmlError("boom".to_string())
}

fn text(s: &str) -> Result<XmlEvent, XmlError> {
    Ok(XmlEvent::Text(s.as_bytes().to_vec()))
}

fn start(name: &'static str) -> Result<XmlEvent, XmlError> {
    Ok(XmlEvent::Start(tag(name, vec![])))
}

fn start_with(name: &'static str, attrs: Vec<(&'static str, &'static str)>) -> Result<XmlEvent, XmlError> {
    Ok(XmlEvent::Start(tag(name, attrs)))
}

fn empty_with(name: &'static str, attrs: Vec<(&'static str, &'static str)>) -> Result<XmlEvent, XmlError> {
    Ok(XmlEvent::Empty(tag(name, attrs)))
}

fn found(s: &str) -> Option<Option<String>> {
    Some(Some(s.to_string()))
}

#[test]
fn text_search_enters_and_leaves_the_tag() {
    let mut search = TextSearch::new(b"Id");
    assert_eq!(search.feed(text("outside")), None);
    assert_eq!(search.feed(start("Other")), None);
    assert_eq!(search.feed(start("Id")), None);
    assert_eq!(search.feed(Ok(XmlEvent::End(b"Id".to_vec()))), None);
    assert_eq!(search.feed(text("after")), None);
    assert_eq!(search.feed(start("Id")), None);
    assert_eq!(search.feed(Ok(XmlEvent::Other)), None);
    assert_eq!(search.feed(text("found")), found("found"));
}

#[test]
fn text_search_ends_on_an_error_the_end_or_bad_text_inside() {
    let mut search = TextSearch::new(b"Id");
    assert_eq!(search.feed(Err(err())), Some(None));
    let mut search = TextSearch::new(b"Id");
    assert_eq!(search.feed(Ok(XmlEvent::Eof)), Some(None));
    let mut search = TextSearch::new(b"Id");
    assert_eq!(search.feed(text("&bogus;")), None);
    assert_eq!(search.feed(start("Id")), None);
    assert_eq!(search.feed(text("&bogus;")), Some(None));
}

#[test]
fn host_in_event_reads_the_name_of_a_host_tag() {
    assert_eq!(
        host_in_event(empty_with("Host", vec![("Kind", "x"), ("Name", "Document")])),
        Some(Ok("Document".to_string()))
    );
    assert_eq!(host_in_event(start_with("Host", vec![("Name", "a<b")])), Some(Ok("a<b".to_string())));
    assert_eq!(host_in_event(start_with("Host", vec![("Kind", "x")])), None);
    assert_eq!(host_in_event(empty_with("Hosts", vec![("Name", "x")])), None);
    assert_eq!(host_in_event(text("Host")), None);
    assert_eq!(host_in_event(Ok(XmlEvent::Eof)), Some(Err(ManifestError::MissingHost)));
    assert_eq!(host_in_event(Err(err())), Some(Err(ManifestError::Xml("boom".to_string()))));
}

#[test]
fn name_in_attribute_unescapes_the_name_only() {
    let attr = |k: &str, v: &str| Ok(XmlAttr { key: k.as_bytes().to_vec(), value: v.as_bytes().to_vec() });
    assert_eq!(name_in_attribute(attr("Name", "Document")), Some(Ok("Document".to_string())));
    assert_eq!(name_in_attribute(attr("Name", "x &amp; y")), Some(Ok("x & y".to_string())));
    assert!(matches!(name_in_attribute(attr("Name", "&unknown;")), Some(Err(ManifestError::Xml(m))) if !m.is_empty()));
    assert_eq!(name_in_attribute(attr("Other", "&unknown;")), None);
    assert_eq!(name_in_attribute(Err(err())), Some(Err(ManifestError::Xml("boom".to_string()))));
}

#[test]
fn text_search_unescapes_the_text_it_finds() {
    let mut search = TextSearch::new(b"Id");
    assert_eq!(search.feed(start("Id")), None);
    assert_eq!(search.feed(text("a &amp; b")), found("a & b"));
}
