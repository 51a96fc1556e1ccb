use atom_syndication::tokenizer::tokenize;
use atom_syndication::{
    Attribute, Category, Error, EventStream, FromXml, Link, Person, Source, XmlEvent,
};

fn open(document: &str) -> (EventStream, Vec<Attribute>) {
    let mut stream = EventStream::new(tokenize(document.as_bytes()));
    match stream.next_event() {
        XmlEvent::Start { attributes, .. } => (stream, attributes),
        other => panic!("expected a start tag, found {:?}", other),
    }
}

fn named(name: &str) -> Person {
    let mut person = Person::default();
    person.set_name(name.to_string());
    person
}

#[test]
fn source_default_is_empty() {
    let source = Source::default();
    assert_eq!(source.title(), "");
    assert_eq!(source.id(), "");
    assert_eq!(source.updated(), "");
    assert!(source.authors().is_empty());
    assert!(source.categories().is_empty());
    assert!(source.contributors().is_empty());
    assert!(source.links().is_empty());
    assert_eq!(source.rights(), None);
}

#[test]
fn source_setters_change_one_field_each() {
    let mut source = Source::default();
    source.set_title("t".to_string());
    source.set_id("i".to_string());
    source.set_updated("u".to_string());
    source.set_authors(vec![named("a")]);
    source.set_categories(vec![Category::default()]);
    source.set_contributors(vec![named("c"), named("d")]);
    source.set_links(vec![Link::default()]);
    source.set_rights(Some("r".to_string()));
    assert_eq!(source.title(), "t");
    assert_eq!(source.id(), "i");
    assert_eq!(source.updated(), "u");
    assert_eq!(source.authors(), &[named("a")][..]);
    assert_eq!(source.categories().len(), 1);
    assert_eq!(source.contributors(), &[named("c"), named("d")][..]);
    assert_eq!(source.links().len(), 1);
    assert_eq!(source.rights(), Some("r"));
    source.set_rights(None);
    assert_eq!(source.rights(), None);
    assert_eq!(source.title(), "t");
}

#[test]
fn source_decodes_its_children() {
    let (mut stream, attributes) = open(
        "<source><id>http://example.org/</id><title>Feed</title><updated>2003</updated>\
         <author><name>A1</name></author><author><name>A2</name></author>\
         <contributor><name>C</name></contributor><link href=\"l1\"/><link href=\"l2\"/>\
         <category term=\"t\"/><rights>R</rights><subtitle>ignored</subtitle></source><next/>",
    );
    let source = Source::from_xml(&mut stream, &attributes).unwrap();
    assert_eq!(source.id(), "http://example.org/");
    assert_eq!(source.title(), "Feed");
    assert_eq!(source.updated(), "2003");
    assert_eq!(source.authors(), &[named("A1"), named("A2")][..]);
    assert_eq!(source.contributors(), &[named("C")][..]);
    assert_eq!(source.links().iter().map(|l| l.href()).collect::<Vec<_>>(), vec!["l1", "l2"]);
    assert_eq!(source.categories().iter().map(|c| c.term()).collect::<Vec<_>>(), vec!["t"]);
    assert_eq!(source.rights(), Some("R"));
    assert!(matches!(stream.next_event(), XmlEvent::Start { .. }));
}

#[test]
fn source_without_children_is_empty() {
    let (mut stream, attributes) = open("<source/>");
    assert_eq!(Source::from_xml(&mut stream, &attributes), Ok(Source::default()));
}

#[test]
fn source_takes_the_last_title_and_rights() {
    let (mut stream, attributes) = open(
        "<source><title>one</title><rights>r1</rights><title>two</title><rights/></source>",
    );
    let source = Source::from_xml(&mut stream, &attributes).unwrap();
    assert_eq!(source.title(), "two");
    assert_eq!(source.rights(), None);
}

#[test]
fn source_truncated_is_eof() {
    let (mut stream, attributes) = open("<source><title>one</title>");
    assert_eq!(Source::from_xml(&mut stream, &attributes), Err(Error::Eof));
    let (mut stream, attributes) = open("<source><author><name>A</name>");
    assert_eq!(Source::from_xml(&mut stream, &attributes), Err(Error::Eof));
}

#[test]
fn source_malformed_is_reported() {
    let (mut stream, attributes) = open("<source><title>one</tilte></source>");
    assert_eq!(Source::from_xml(&mut stream, &attributes), Err(Error::MalformedMarkup));
}
