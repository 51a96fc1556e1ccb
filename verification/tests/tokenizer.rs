use atom_syndication::tokenizer::tokenize;
use atom_syndication::{Attribute, XmlEvent};

fn start(name: &str, attributes: &[(&str, &str)]) -> XmlEvent {
    XmlEvent::Start {
        name: name.to_string(),
        attributes: attributes
            .iter()
            .map(|(n, v)| Attribute { name: n.to_string(), value: v.to_string() })
            .collect(),
    }
}

fn end(name: &str) -> XmlEvent {
    XmlEvent::End { name: name.to_string() }
}

fn text(text: &str) -> XmlEvent {
    XmlEvent::Text { text: text.to_string() }
}

#[test]
fn tokenize_yields_events_in_document_order() {
    let events = tokenize(b"<?xml version=\"1.0\"?><a x=\"1\" y='two'><!-- c --><b>hi</b></a>");
    assert_eq!(
        events,
        vec![
            XmlEvent::Other,
            start("a", &[("x", "1"), ("y", "two")]),
            XmlEvent::Other,
            start("b", &[]),
            text("hi"),
            end("b"),
            end("a"),
        ]
    );
}

#[test]
fn tokenize_expands_empty_elements() {
    let events = tokenize(b"<link href=\"http://example.com/\"/>");
    assert_eq!(events, vec![start("link", &[("href", "http://example.com/")]), end("link")]);
}

#[test]
fn tokenize_unescapes_text_and_attribute_values() {
    let events = tokenize(b"<a t=\"x &amp; y\">1 &lt; 2 &#x41;</a>");
    assert_eq!(events, vec![start("a", &[("t", "x & y")]), text("1 < 2 A"), end("a")]);
}

#[test]
fn tokenize_reads_cdata_as_text() {
    let events = tokenize(b"<a><![CDATA[<b>&amp;</b>]]></a>");
    assert_eq!(events, vec![start("a", &[]), text("<b>&amp;</b>"), end("a")]);
}

#[test]
fn tokenize_trims_text_and_drops_blank_text() {
    let events = tokenize(b"<a>\n  <b>  padded  </b>\n</a>");
    assert_eq!(events, vec![start("a", &[]), start("b", &[]), text("padded"), end("b"), end("a")]);
}

#[test]
fn tokenize_stops_at_mismatched_end_tag() {
    let events = tokenize(b"<a><b></a></b>");
    assert_eq!(events, vec![start("a", &[]), start("b", &[]), XmlEvent::Malformed]);
}

#[test]
fn tokenize_reports_bad_entity_as_malformed() {
    let events = tokenize(b"<a>&nosuch;</a><b/>");
    assert_eq!(events, vec![start("a", &[]), XmlEvent::Malformed]);
}

#[test]
fn tokenize_reports_invalid_utf8_as_malformed() {
    let events = tokenize(b"<a>\xff</a>");
    assert_eq!(events, vec![start("a", &[]), XmlEvent::Malformed]);
}

#[test]
fn tokenize_of_truncated_document_just_ends() {
    let events = tokenize(b"<a><b>hi");
    assert_eq!(events, vec![start("a", &[]), start("b", &[]), text("hi")]);
}

#[test]
fn tokenize_of_empty_input_is_empty() {
    assert_eq!(tokenize(b""), Vec::<XmlEvent>::new());
}
