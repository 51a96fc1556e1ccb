use atom_syndication::tokenizer::tokenize;
use atom_syndication::{
    Attribute, Category, Content, Entry, Error, EventStream, FromXml, Link, Person, Source,
    XmlEvent,
};

const SCENARIO: &str = "<title>T</title><id>U</id><updated>2024-01-01T00:00:00Z</updated>\
    <author><name>A</name></author><category term=\"x\"/><unknownTag><deep/></unknownTag>\
    <published>2023-12-31T00:00:00Z</published>";

const FULL: &str = "<?xml version=\"1.0\" encoding=\"utf-8\"?>\n\
    <entry xmlns=\"http://www.w3.org/2005/Atom\">\n\
      <title>Atom-Powered Robots Run Amok</title>\n\
      <link href=\"http://example.org/2003/12/13/atom03\"/>\n\
      <link rel=\"alternate\" type=\"text/html\" href=\"http://example.org/2003/12/13/atom03.html\"/>\n\
      <id>urn:uuid:1225c695-cfb8-4ebb-aaaa-80da344efa6a</id>\n\
      <updated>2003-12-13T18:30:02Z</updated>\n\
      <published>2003-12-13T08:29:29-04:00</published>\n\
      <author><name>John Doe</name><email>johndoe@example.com</email></author>\n\
      <author><name>Jane Roe</name></author>\n\
      <contributor><name>Sam Ruby</name></contributor>\n\
      <category term=\"robots\"/>\n\
      <category term=\"amok\" label=\"Amok\"/>\n\
      <source>\n\
        <id>http://example.org/</id>\n\
        <title>Fourty-Two</title>\n\
        <updated>2003-12-13T18:30:02Z</updated>\n\
        <author><name>Feed Author</name></author>\n\
        <link href=\"http://example.org/feed\"/>\n\
        <category term=\"feed\"/>\n\
        <contributor><name>Feed Helper</name></contributor>\n\
        <rights>Feed rights</rights>\n\
        <generator>Example Toolkit</generator>\n\
      </source>\n\
      <summary>Some text.</summary>\n\
      <rights>Copyright (c) 2003, Mark Pilgrim</rights>\n\
      <content type=\"html\">&lt;p&gt;Robots!&lt;/p&gt;</content>\n\
    </entry>\n";

fn wrap(body: &str) -> String {
    format!("<entry>{}</entry>", body)
}

fn read(document: &str) -> Result<Entry, Error> {
    Entry::read_from(document.as_bytes())
}

fn named(name: &str) -> Person {
    let mut person = Person::default();
    person.set_name(name.to_string());
    person
}

fn term(term: &str) -> Category {
    let mut category = Category::default();
    category.set_term(term.to_string());
    category
}

fn href(href: &str) -> Link {
    let mut link = Link::default();
    link.set_href(href.to_string());
    link
}

#[test]
fn entry_default_is_empty() {
    let entry = Entry::default();
    assert_eq!(entry.title(), "");
    assert_eq!(entry.id(), "");
    assert_eq!(entry.updated(), "");
    assert!(entry.authors().is_empty());
    assert!(entry.categories().is_empty());
    assert!(entry.contributors().is_empty());
    assert!(entry.links().is_empty());
    assert_eq!(entry.published(), None);
    assert_eq!(entry.source(), None);
    assert_eq!(entry.summary(), None);
    assert_eq!(entry.rights(), None);
    assert_eq!(entry.content(), None);
}

#[test]
fn entry_set_title() {
    let mut entry = Entry::default();
    entry.set_title("Entry Title".to_string());
    assert_eq!(entry.title(), "Entry Title");
    assert_eq!(entry.id(), "");
}

#[test]
fn entry_set_id() {
    let mut entry = Entry::default();
    entry.set_id("urn:uuid:60a76c80-d399-11d9-b91C-0003939e0af6".to_string());
    assert_eq!(entry.id(), "urn:uuid:60a76c80-d399-11d9-b91C-0003939e0af6");
    assert_eq!(entry.title(), "");
}

#[test]
fn entry_set_updated() {
    let mut entry = Entry::default();
    entry.set_updated("2017-06-03T15:15:44-05:00".to_string());
    assert_eq!(entry.updated(), "2017-06-03T15:15:44-05:00");
}

#[test]
fn entry_set_authors() {
    let mut entry = Entry::default();
    entry.set_authors(vec![Person::default()]);
    assert_eq!(entry.authors().len(), 1);
    assert!(entry.contributors().is_empty());
}

#[test]
fn entry_set_categories() {
    let mut entry = Entry::default();
    entry.set_categories(vec![Category::default()]);
    assert_eq!(entry.categories().len(), 1);
}

#[test]
fn entry_set_contributors() {
    let mut entry = Entry::default();
    entry.set_contributors(vec![Person::default()]);
    assert_eq!(entry.contributors().len(), 1);
    assert!(entry.authors().is_empty());
}

#[test]
fn entry_set_links() {
    let mut entry = Entry::default();
    entry.set_links(vec![Link::default()]);
    assert_eq!(entry.links().len(), 1);
}

#[test]
fn entry_set_published() {
    let mut entry = Entry::default();
    entry.set_published(Some("2017-06-01T15:15:44-05:00".to_string()));
    assert_eq!(entry.published(), Some("2017-06-01T15:15:44-05:00"));
    entry.set_published(None);
    assert_eq!(entry.published(), None);
}

#[test]
fn entry_set_source() {
    let mut entry = Entry::default();
    entry.set_source(Some(Source::default()));
    assert!(entry.source().is_some());
    assert_eq!(entry.source(), Some(&Source::default()));
}

#[test]
fn entry_set_summary() {
    let mut entry = Entry::default();
    entry.set_summary(Some("Entry summary.".to_string()));
    assert_eq!(entry.summary(), Some("Entry summary."));
    assert_eq!(entry.rights(), None);
}

#[test]
fn entry_set_rights() {
    let mut entry = Entry::default();
    entry.set_rights(Some("\u{a9} 2017 John Doe".to_string()));
    assert_eq!(entry.rights(), Some("\u{a9} 2017 John Doe"));
    assert_eq!(entry.summary(), None);
}

#[test]
fn entry_set_content() {
    let mut entry = Entry::default();
    entry.set_content(Some(Content::default()));
    assert!(entry.content().is_some());
    assert_eq!(entry.content(), Some(&Content::Text { value: None }));
}

#[test]
fn entry_scenario_with_unknown_tag() {
    let mut expected = Entry::default();
    expected.set_title("T".to_string());
    expected.set_id("U".to_string());
    expected.set_updated("2024-01-01T00:00:00Z".to_string());
    expected.set_authors(vec![named("A")]);
    expected.set_categories(vec![term("x")]);
    expected.set_published(Some("2023-12-31T00:00:00Z".to_string()));

    let entry = read(&wrap(SCENARIO)).unwrap();
    assert_eq!(entry, expected);
    assert_eq!(entry.title(), "T");
    assert_eq!(entry.id(), "U");
    assert_eq!(entry.updated(), "2024-01-01T00:00:00Z");
    assert_eq!(entry.authors(), &[named("A")][..]);
    assert_eq!(entry.categories(), &[term("x")][..]);
    assert_eq!(entry.published(), Some("2023-12-31T00:00:00Z"));
    assert!(entry.contributors().is_empty());
    assert!(entry.links().is_empty());
    assert_eq!(entry.source(), None);
    assert_eq!(entry.summary(), None);
    assert_eq!(entry.rights(), None);
    assert_eq!(entry.content(), None);
}

#[test]
fn entry_from_xml_reads_up_to_its_own_end_tag() {
    let document = format!("<feed><entry>{}</entry><entry><title>next</title></entry></feed>", SCENARIO);
    let mut stream = EventStream::new(tokenize(document.as_bytes()));
    assert!(matches!(stream.next_event(), XmlEvent::Start { .. }));
    let attributes: Vec<Attribute> = match stream.next_event() {
        XmlEvent::Start { attributes, .. } => attributes,
        other => panic!("expected a start tag, found {:?}", other),
    };
    let first = Entry::from_xml(&mut stream, &attributes).unwrap();
    assert_eq!(first.title(), "T");
    assert!(matches!(stream.next_event(), XmlEvent::Start { .. }));
    let second = Entry::from_xml(&mut stream, &attributes).unwrap();
    assert_eq!(second.title(), "next");
    assert_eq!(stream.next_event(), XmlEvent::End { name: "feed".to_string() });
    assert_eq!(stream.next_event(), XmlEvent::Eof);
}

#[test]
fn entry_decodes_every_field() {
    let entry = read(FULL).unwrap();
    assert_eq!(entry.title(), "Atom-Powered Robots Run Amok");
    assert_eq!(entry.id(), "urn:uuid:1225c695-cfb8-4ebb-aaaa-80da344efa6a");
    assert_eq!(entry.updated(), "2003-12-13T18:30:02Z");
    assert_eq!(entry.published(), Some("2003-12-13T08:29:29-04:00"));
    assert_eq!(entry.summary(), Some("Some text."));
    assert_eq!(entry.rights(), Some("Copyright (c) 2003, Mark Pilgrim"));

    let mut john = named("John Doe");
    john.set_email(Some("johndoe@example.com".to_string()));
    assert_eq!(entry.authors(), &[john, named("Jane Roe")][..]);
    assert_eq!(entry.contributors(), &[named("Sam Ruby")][..]);

    let mut amok = term("amok");
    amok.set_label(Some("Amok".to_string()));
    assert_eq!(entry.categories(), &[term("robots"), amok][..]);

    let mut alternate = href("http://example.org/2003/12/13/atom03.html");
    alternate.set_rel(Some("alternate".to_string()));
    alternate.set_mime_type(Some("text/html".to_string()));
    assert_eq!(entry.links(), &[href("http://example.org/2003/12/13/atom03"), alternate][..]);

    let mut source = Source::default();
    source.set_id("http://example.org/".to_string());
    source.set_title("Fourty-Two".to_string());
    source.set_updated("2003-12-13T18:30:02Z".to_string());
    source.set_authors(vec![named("Feed Author")]);
    source.set_links(vec![href("http://example.org/feed")]);
    source.set_categories(vec![term("feed")]);
    source.set_contributors(vec![named("Feed Helper")]);
    source.set_rights(Some("Feed rights".to_string()));
    assert_eq!(entry.source(), Some(&source));

    assert_eq!(
        entry.content(),
        Some(&Content::Markup {
            media_type: "html".to_string(),
            value: Some("<p>Robots!</p>".to_string()),
        })
    );
}

#[test]
fn entry_required_fields_default_to_empty() {
    let entry = read("<entry><title/><id></id></entry>").unwrap();
    assert_eq!(entry, Entry::default());
    let entry = read("<entry/>").unwrap();
    assert_eq!(entry, Entry::default());
}

#[test]
fn entry_empty_title_replaces_an_earlier_one() {
    let entry = read("<entry><title>first</title><title/></entry>").unwrap();
    assert_eq!(entry.title(), "");
    let entry = read("<entry><summary>first</summary><summary/></entry>").unwrap();
    assert_eq!(entry.summary(), None);
}

#[test]
fn entry_reading_twice_gives_equal_entries() {
    assert_eq!(read(FULL), read(FULL));
    assert_eq!(read(&wrap(SCENARIO)), read(&wrap(SCENARIO)));
    assert_eq!(read("<entry><title>T"), read("<entry><title>T"));
}

#[test]
fn entry_unknown_element_changes_nothing() {
    let children = [
        "<title>T</title>",
        "<author><name>A</name></author>",
        "<link href=\"h\"/>",
        "<source><title>S</title></source>",
        "<content>C</content>",
    ];
    let unknown = "<extra a=\"1\">text<extra><title>no</title><author/></extra><deep><id>x</id></deep></extra>";
    let reference = read(&wrap(&children.concat())).unwrap();
    for place in 0..=children.len() {
        let mut body = String::new();
        for (i, child) in children.iter().enumerate() {
            if i == place {
                body.push_str(unknown);
            }
            body.push_str(child);
        }
        if place == children.len() {
            body.push_str(unknown);
        }
        assert_eq!(read(&wrap(&body)), Ok(reference.clone()), "unknown element at {}", place);
    }
}

#[test]
fn entry_lists_follow_document_order() {
    let entry = read(
        "<entry><author><name>1</name></author><link href=\"a\"/><contributor><name>x</name>\
         </contributor><author><name>2</name></author><category term=\"c1\"/><link href=\"b\"/>\
         <author><name>1</name></author><category term=\"c2\"/><link href=\"c\"/></entry>",
    )
    .unwrap();
    assert_eq!(entry.authors(), &[named("1"), named("2"), named("1")][..]);
    assert_eq!(entry.contributors(), &[named("x")][..]);
    assert_eq!(entry.categories(), &[term("c1"), term("c2")][..]);
    assert_eq!(entry.links(), &[href("a"), href("b"), href("c")][..]);
}

#[test]
fn entry_last_occurrence_wins() {
    let entry = read(
        "<entry><published>first</published><summary>s1</summary><rights>r1</rights>\
         <content>c1</content><source><title>one</title></source><title>t1</title>\
         <published>second</published><summary>s2</summary><rights>r2</rights>\
         <content src=\"c2\"/><source><title>two</title></source><title>t2</title></entry>",
    )
    .unwrap();
    assert_eq!(entry.published(), Some("second"));
    assert_eq!(entry.summary(), Some("s2"));
    assert_eq!(entry.rights(), Some("r2"));
    assert_eq!(entry.title(), "t2");
    assert_eq!(
        entry.content(),
        Some(&Content::Reference { src: "c2".to_string(), media_type: None })
    );
    assert_eq!(entry.source().map(|s| s.title()), Some("two"));
}

#[test]
fn entry_truncated_before_any_end_tag_is_eof() {
    for document in [FULL.to_string(), wrap(SCENARIO)] {
        assert!(read(&document).is_ok());
        let mut cuts = 0;
        for (at, _) in document.match_indices("</") {
            assert_eq!(read(&document[..at]), Err(Error::Eof), "cut at {}", at);
            cuts += 1;
        }
        assert!(cuts > 5);
    }
}

#[test]
fn entry_truncated_events_are_eof() {
    let events = tokenize(FULL.as_bytes());
    let mut whole = EventStream::new(events.clone());
    assert!(Entry::from_document(&mut whole).is_ok());
    assert_eq!(whole.len(), 0);
    for cut in 0..events.len() {
        let mut stream = EventStream::new(events[..cut].to_vec());
        assert_eq!(Entry::from_document(&mut stream), Err(Error::Eof), "cut at {}", cut);
    }
}

#[test]
fn entry_without_entry_element_is_eof() {
    assert_eq!(read(""), Err(Error::Eof));
    assert_eq!(read("<?xml version=\"1.0\"?><!-- nothing -->"), Err(Error::Eof));
    assert_eq!(read("<feed><title>F</title></feed>"), Err(Error::Eof));
    assert_eq!(read("<feed><entry><title>T</title></entry></feed>"), Err(Error::Eof));
}

#[test]
fn entry_document_skips_elements_of_other_names() {
    let entry = read("<other><entry><title>no</title></entry></other><entry><title>yes</title></entry>");
    assert_eq!(entry.map(|e| e.title().to_string()), Ok("yes".to_string()));
    assert_eq!(read("<other><entry><title>no</title></entry>"), Err(Error::Eof));
}

#[test]
fn entry_malformed_markup_is_reported() {
    assert_eq!(read("<entry><title>T</titel></entry>"), Err(Error::MalformedMarkup));
    assert_eq!(read("<entry><title>T &unknown; </title></entry>"), Err(Error::MalformedMarkup));
    assert_eq!(read("<entry><unknown><a></b></unknown></entry>"), Err(Error::MalformedMarkup));
    assert_eq!(read("<!bogus><entry/>"), Err(Error::MalformedMarkup));
}

#[test]
fn entry_failure_in_nested_decoder_is_passed_on() {
    assert_eq!(read("<entry><author><name>A</name>"), Err(Error::Eof));
    assert_eq!(read("<entry><source><author><name>A"), Err(Error::Eof));
    assert_eq!(read("<entry><source><link href=\"h\"></lonk></source></entry>"), Err(Error::MalformedMarkup));
}

#[test]
fn entry_from_hand_written_events() {
    let mut stream = EventStream::new(vec![
        XmlEvent::Text { text: "stray".to_string() },
        XmlEvent::Start { name: "title".to_string(), attributes: Vec::new() },
        XmlEvent::Text { text: "T".to_string() },
        XmlEvent::End { name: "title".to_string() },
        XmlEvent::Other,
        XmlEvent::Start {
            name: "category".to_string(),
            attributes: vec![Attribute { name: "term".to_string(), value: "x".to_string() }],
        },
        XmlEvent::End { name: "category".to_string() },
        XmlEvent::End { name: "entry".to_string() },
        XmlEvent::Start { name: "after".to_string(), attributes: Vec::new() },
    ]);
    let entry = Entry::from_xml(&mut stream, &Vec::new()).unwrap();
    assert_eq!(entry.title(), "T");
    assert_eq!(entry.categories(), &[term("x")][..]);
    assert_eq!(stream.len(), 1);
}

#[test]
fn entry_from_document_passes_over_the_prolog() {
    let mut stream = EventStream::new(vec![
        XmlEvent::Other,
        XmlEvent::Text { text: "stray".to_string() },
        XmlEvent::End { name: "stray".to_string() },
        XmlEvent::Start { name: "entry".to_string(), attributes: Vec::new() },
        XmlEvent::Start { name: "id".to_string(), attributes: Vec::new() },
        XmlEvent::Text { text: "I".to_string() },
        XmlEvent::End { name: "id".to_string() },
        XmlEvent::End { name: "entry".to_string() },
        XmlEvent::Other,
    ]);
    let entry = Entry::from_document(&mut stream).unwrap();
    assert_eq!(entry.id(), "I");
    assert_eq!(stream.len(), 1);
}

#[test]
fn entry_from_document_reports_failure_in_the_prolog() {
    let mut stream = EventStream::new(vec![XmlEvent::Other, XmlEvent::Malformed]);
    assert_eq!(Entry::from_document(&mut stream), Err(Error::MalformedMarkup));
    let mut stream = EventStream::new(vec![XmlEvent::Other, XmlEvent::Eof]);
    assert_eq!(Entry::from_document(&mut stream), Err(Error::Eof));
}
