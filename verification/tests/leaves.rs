use atom_syndication::tokenizer::tokenize;
use atom_syndication::{
    Attribute, Category, Content, Error, EventStream, FromXml, Link, Person, XmlEvent,
};

/// The stream of a document, positioned behind the start tag of its root
/// element, and the attributes of that tag.
fn open(document: &str) -> (EventStream, Vec<Attribute>) {
    let mut stream = EventStream::new(tokenize(document.as_bytes()));
    match stream.next_event() {
        XmlEvent::Start { attributes, .. } => (stream, attributes),
        other => panic!("expected a start tag, found {:?}", other),
    }
}

fn person(name: &str, uri: Option<&str>, email: Option<&str>) -> Person {
    let mut person = Person::default();
    person.set_name(name.to_string());
    person.set_uri(uri.map(|s| s.to_string()));
    person.set_email(email.map(|s| s.to_string()));
    person
}

#[test]
fn person_default_is_empty() {
    let person = Person::default();
    assert_eq!(person.name(), "");
    assert_eq!(person.uri(), None);
    assert_eq!(person.email(), None);
}

#[test]
fn person_setters_change_one_field_each() {
    let mut person = Person::default();
    person.set_name("A".to_string());
    assert_eq!((person.name(), person.uri(), person.email()), ("A", None, None));
    person.set_uri(Some("http://a/".to_string()));
    assert_eq!((person.name(), person.uri(), person.email()), ("A", Some("http://a/"), None));
    person.set_email(Some("a@a".to_string()));
    assert_eq!((person.name(), person.uri(), person.email()), ("A", Some("http://a/"), Some("a@a")));
    person.set_uri(None);
    assert_eq!((person.name(), person.uri(), person.email()), ("A", None, Some("a@a")));
}

#[test]
fn person_decodes_its_three_children() {
    let (mut stream, attributes) = open(
        "<author><name>John Doe</name><uri>http://example.com/~john</uri>\
         <email>john@example.com</email></author><next/>",
    );
    assert_eq!(
        Person::from_xml(&mut stream, &attributes),
        Ok(person("John Doe", Some("http://example.com/~john"), Some("john@example.com")))
    );
    assert!(matches!(stream.next_event(), XmlEvent::Start { .. }));
}

#[test]
fn person_without_children_is_empty() {
    let (mut stream, attributes) = open("<author></author>");
    assert_eq!(Person::from_xml(&mut stream, &attributes), Ok(person("", None, None)));
    let (mut stream, attributes) = open("<author><name/><uri/></author>");
    assert_eq!(Person::from_xml(&mut stream, &attributes), Ok(person("", None, None)));
}

#[test]
fn person_skips_unknown_children_and_takes_the_last_name() {
    let (mut stream, attributes) = open(
        "<author><name>first</name><nick><name>inner</name></nick><!-- c -->\
         <name>second</name></author>",
    );
    assert_eq!(Person::from_xml(&mut stream, &attributes), Ok(person("second", None, None)));
}

#[test]
fn person_truncated_is_eof() {
    let (mut stream, attributes) = open("<author><name>John Doe</name>");
    assert_eq!(Person::from_xml(&mut stream, &attributes), Err(Error::Eof));
    let (mut stream, attributes) = open("<author><name>John Doe");
    assert_eq!(Person::from_xml(&mut stream, &attributes), Err(Error::Eof));
}

#[test]
fn person_malformed_is_reported() {
    let (mut stream, attributes) = open("<author><name>John</nom></author>");
    assert_eq!(Person::from_xml(&mut stream, &attributes), Err(Error::MalformedMarkup));
}

#[test]
fn category_default_is_empty() {
    let category = Category::default();
    assert_eq!((category.term(), category.scheme(), category.label()), ("", None, None));
}

#[test]
fn category_setters_change_one_field_each() {
    let mut category = Category::default();
    category.set_term("t".to_string());
    category.set_label(Some("l".to_string()));
    assert_eq!((category.term(), category.scheme(), category.label()), ("t", None, Some("l")));
    category.set_scheme(Some("s".to_string()));
    category.set_label(None);
    assert_eq!((category.term(), category.scheme(), category.label()), ("t", Some("s"), None));
}

#[test]
fn category_is_read_off_the_attributes() {
    let (mut stream, attributes) = open(
        "<category term=\"tech &amp; more\" scheme=\"http://example.com/scheme\" \
         label=\"Technology\" other=\"x\"/><next/>",
    );
    let category = Category::from_xml(&mut stream, &attributes).unwrap();
    assert_eq!(category.term(), "tech & more");
    assert_eq!(category.scheme(), Some("http://example.com/scheme"));
    assert_eq!(category.label(), Some("Technology"));
    assert!(matches!(stream.next_event(), XmlEvent::Start { .. }));
}

#[test]
fn category_without_attributes_is_empty_and_body_is_skipped() {
    let (mut stream, attributes) =
        open("<category>text<category term=\"inner\"/><x/></category><next/>");
    assert_eq!(Category::from_xml(&mut stream, &attributes), Ok(Category::default()));
    assert!(matches!(stream.next_event(), XmlEvent::Start { .. }));
}

#[test]
fn category_truncated_is_eof() {
    let (mut stream, attributes) = open("<category term=\"x\">");
    assert_eq!(Category::from_xml(&mut stream, &attributes), Err(Error::Eof));
}

#[test]
fn link_default_is_empty() {
    let link = Link::default();
    assert_eq!(link.href(), "");
    assert_eq!(link.rel(), None);
    assert_eq!(link.mime_type(), None);
    assert_eq!(link.hreflang(), None);
    assert_eq!(link.title(), None);
    assert_eq!(link.length(), None);
}

#[test]
fn link_setters_change_one_field_each() {
    let mut link = Link::default();
    link.set_href("h".to_string());
    link.set_rel(Some("r".to_string()));
    link.set_mime_type(Some("m".to_string()));
    link.set_hreflang(Some("l".to_string()));
    link.set_title(Some("t".to_string()));
    link.set_length(Some("1".to_string()));
    assert_eq!(link.href(), "h");
    assert_eq!(link.rel(), Some("r"));
    assert_eq!(link.mime_type(), Some("m"));
    assert_eq!(link.hreflang(), Some("l"));
    assert_eq!(link.title(), Some("t"));
    assert_eq!(link.length(), Some("1"));
    link.set_rel(None);
    assert_eq!(link.rel(), None);
    assert_eq!(link.mime_type(), Some("m"));
}

#[test]
fn link_is_read_off_the_attributes() {
    let (mut stream, attributes) = open(
        "<link href=\"http://example.com/a?x=1&amp;y=2\" rel=\"enclosure\" type=\"audio/mpeg\" \
         hreflang=\"en\" title=\"Episode\" length=\"1337\"/><next/>",
    );
    let link = Link::from_xml(&mut stream, &attributes).unwrap();
    assert_eq!(link.href(), "http://example.com/a?x=1&y=2");
    assert_eq!(link.rel(), Some("enclosure"));
    assert_eq!(link.mime_type(), Some("audio/mpeg"));
    assert_eq!(link.hreflang(), Some("en"));
    assert_eq!(link.title(), Some("Episode"));
    assert_eq!(link.length(), Some("1337"));
    assert!(matches!(stream.next_event(), XmlEvent::Start { .. }));
}

#[test]
fn link_keeps_length_as_written() {
    let (mut stream, attributes) = open("<link href=\"h\" length=\"007 bytes\"></link>");
    let link = Link::from_xml(&mut stream, &attributes).unwrap();
    assert_eq!(link.length(), Some("007 bytes"));
    assert_eq!(link.rel(), None);
}

#[test]
fn link_truncated_is_eof() {
    let (mut stream, attributes) = open("<link href=\"h\"><x>");
    assert_eq!(Link::from_xml(&mut stream, &attributes), Err(Error::Eof));
}

#[test]
fn content_default_is_empty_text() {
    assert_eq!(Content::default(), Content::Text { value: None });
}

#[test]
fn content_with_src_is_a_reference() {
    let (mut stream, attributes) =
        open("<content src=\"http://example.com/a\" type=\"text/html\"/><next/>");
    assert_eq!(
        Content::from_xml(&mut stream, &attributes),
        Ok(Content::Reference {
            src: "http://example.com/a".to_string(),
            media_type: Some("text/html".to_string()),
        })
    );
    assert!(matches!(stream.next_event(), XmlEvent::Start { .. }));
}

#[test]
fn content_with_src_ignores_its_body() {
    let (mut stream, attributes) =
        open("<content src=\"http://example.com/a\">ignored<content>x</content></content><next/>");
    assert_eq!(
        Content::from_xml(&mut stream, &attributes),
        Ok(Content::Reference { src: "http://example.com/a".to_string(), media_type: None })
    );
    assert!(matches!(stream.next_event(), XmlEvent::Start { .. }));
}

#[test]
fn content_without_type_is_plain_text() {
    let (mut stream, attributes) = open("<content>Hello &amp; goodbye</content>");
    assert_eq!(
        Content::from_xml(&mut stream, &attributes),
        Ok(Content::Text { value: Some("Hello & goodbye".to_string()) })
    );
    let (mut stream, attributes) = open("<content type=\"text\">Hello</content>");
    assert_eq!(
        Content::from_xml(&mut stream, &attributes),
        Ok(Content::Text { value: Some("Hello".to_string()) })
    );
    let (mut stream, attributes) = open("<content type=\"text\"/>");
    assert_eq!(Content::from_xml(&mut stream, &attributes), Ok(Content::Text { value: None }));
}

#[test]
fn content_with_other_type_is_markup() {
    let (mut stream, attributes) =
        open("<content type=\"html\">&lt;p&gt;Hello&lt;/p&gt;</content>");
    assert_eq!(
        Content::from_xml(&mut stream, &attributes),
        Ok(Content::Markup {
            media_type: "html".to_string(),
            value: Some("<p>Hello</p>".to_string()),
        })
    );
}

#[test]
fn content_truncated_is_eof() {
    let (mut stream, attributes) = open("<content type=\"html\">Hello");
    assert_eq!(Content::from_xml(&mut stream, &attributes), Err(Error::Eof));
    let (mut stream, attributes) = open("<content src=\"s\">");
    assert_eq!(Content::from_xml(&mut stream, &attributes), Err(Error::Eof));
}

#[test]
fn content_malformed_is_reported() {
    let (mut stream, attributes) = open("<content>a &bogus; b</content>");
    assert_eq!(Content::from_xml(&mut stream, &attributes), Err(Error::MalformedMarkup));
}
