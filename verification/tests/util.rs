use atom_syndication::util::{atom_text, find_attribute, same_text, skip_element};
use atom_syndication::{Attribute, Error, EventStream, XmlEvent};

fn start(name: &str) -> XmlEvent {
    XmlEvent::Start { name: name.to_string(), attributes: Vec::new() }
}

fn end(name: &str) -> XmlEvent {
    XmlEvent::End { name: name.to_string() }
}

fn text(text: &str) -> XmlEvent {
    XmlEvent::Text { text: text.to_string() }
}

fn attribute(name: &str, value: &str) -> Attribute {
    Attribute { name: name.to_string(), value: value.to_string() }
}

#[test]
fn same_text_compares_contents() {
    assert!(same_text("author", "author"));
    assert!(!same_text("author", "authors"));
    assert!(!same_text("author", "authoR"));
    assert!(same_text("", ""));
    assert!(same_text("caf\u{e9}", "caf\u{e9}"));
    assert!(!same_text("caf\u{e9}", "cafe"));
}

#[test]
fn stream_hands_events_out_in_order_and_then_eof() {
    let mut stream = EventStream::new(vec![start("a"), text("x"), end("a")]);
    assert_eq!(stream.len(), 3);
    assert_eq!(stream.next_event(), start("a"));
    assert_eq!(stream.next_event(), text("x"));
    assert_eq!(stream.len(), 1);
    assert_eq!(stream.next_event(), end("a"));
    assert_eq!(stream.next_event(), XmlEvent::Eof);
    assert_eq!(stream.next_event(), XmlEvent::Eof);
    assert_eq!(stream.len(), 0);
}

#[test]
fn skip_element_stops_at_the_matching_end_tag() {
    let mut stream = EventStream::new(vec![text("x"), XmlEvent::Other, end("a"), start("next")]);
    assert_eq!(skip_element(&mut stream, "a"), Ok(()));
    assert_eq!(stream.next_event(), start("next"));
}

#[test]
fn skip_element_tracks_same_named_nesting() {
    let mut stream = EventStream::new(vec![
        start("a"),
        start("b"),
        end("b"),
        start("a"),
        end("a"),
        end("a"),
        end("a"),
        start("next"),
    ]);
    assert_eq!(skip_element(&mut stream, "a"), Ok(()));
    assert_eq!(stream.next_event(), start("next"));
}

#[test]
fn skip_element_passes_over_other_names() {
    let mut stream = EventStream::new(vec![start("b"), end("c"), end("b"), end("a"), end("z")]);
    assert_eq!(skip_element(&mut stream, "a"), Ok(()));
    assert_eq!(stream.next_event(), end("z"));
}

#[test]
fn skip_element_fails_at_end_of_input() {
    let mut stream = EventStream::new(vec![start("a"), end("a")]);
    assert_eq!(skip_element(&mut stream, "a"), Err(Error::Eof));
    let mut empty = EventStream::new(Vec::new());
    assert_eq!(skip_element(&mut empty, "a"), Err(Error::Eof));
}

#[test]
fn skip_element_fails_at_explicit_eof_event() {
    let mut stream = EventStream::new(vec![XmlEvent::Eof, end("a")]);
    assert_eq!(skip_element(&mut stream, "a"), Err(Error::Eof));
}

#[test]
fn skip_element_passes_tokenizer_failure_on() {
    let mut stream = EventStream::new(vec![start("b"), XmlEvent::Malformed, end("a")]);
    assert_eq!(skip_element(&mut stream, "a"), Err(Error::MalformedMarkup));
}

#[test]
fn atom_text_joins_pieces_in_order() {
    let mut stream =
        EventStream::new(vec![text("a "), XmlEvent::Other, text("< b"), end("t"), start("next")]);
    assert_eq!(atom_text(&mut stream), Ok(Some("a < b".to_string())));
    assert_eq!(stream.next_event(), start("next"));
}

#[test]
fn atom_text_of_empty_element_is_none() {
    let mut stream = EventStream::new(vec![end("t"), start("next")]);
    assert_eq!(atom_text(&mut stream), Ok(None));
    assert_eq!(stream.next_event(), start("next"));
    let mut blank = EventStream::new(vec![text(""), end("t")]);
    assert_eq!(atom_text(&mut blank), Ok(None));
}

#[test]
fn atom_text_skips_child_elements() {
    let mut stream = EventStream::new(vec![
        text("a"),
        start("b"),
        text("hidden"),
        start("b"),
        end("b"),
        end("b"),
        text("c"),
        end("t"),
        end("outer"),
    ]);
    assert_eq!(atom_text(&mut stream), Ok(Some("ac".to_string())));
    assert_eq!(stream.next_event(), end("outer"));
}

#[test]
fn atom_text_fails_at_end_of_input() {
    let mut stream = EventStream::new(vec![text("a")]);
    assert_eq!(atom_text(&mut stream), Err(Error::Eof));
    let mut inside_child = EventStream::new(vec![text("a"), start("b"), end("t")]);
    assert_eq!(atom_text(&mut inside_child), Err(Error::Eof));
}

#[test]
fn atom_text_passes_tokenizer_failure_on() {
    let mut stream = EventStream::new(vec![text("a"), XmlEvent::Malformed, end("t")]);
    assert_eq!(atom_text(&mut stream), Err(Error::MalformedMarkup));
}

#[test]
fn find_attribute_takes_the_last_of_a_name() {
    let attributes = vec![attribute("a", "1"), attribute("b", "2"), attribute("a", "3")];
    assert_eq!(find_attribute(&attributes, "a"), Some("3".to_string()));
    assert_eq!(find_attribute(&attributes, "b"), Some("2".to_string()));
    assert_eq!(find_attribute(&attributes, "c"), None);
    assert_eq!(find_attribute(&Vec::new(), "a"), None);
}

#[test]
fn error_messages_differ() {
    assert_eq!(Error::Eof.message(), "reached end of input before the element was closed");
    assert_eq!(Error::MalformedMarkup.message(), "the input is not well-formed XML");
}
