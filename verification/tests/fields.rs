use atom_syndication::entry::EntryField;
use atom_syndication::person::PersonField;
use atom_syndication::source::SourceField;

#[test]
fn entry_field_table() {
    let table = [
        ("id", EntryField::Id),
        ("title", EntryField::Title),
        ("updated", EntryField::Updated),
        ("author", EntryField::Author),
        ("category", EntryField::Category),
        ("contributor", EntryField::Contributor),
        ("link", EntryField::Link),
        ("published", EntryField::Published),
        ("source", EntryField::Source),
        ("summary", EntryField::Summary),
        ("rights", EntryField::Rights),
        ("content", EntryField::Content),
    ];
    for (name, field) in table {
        assert_eq!(EntryField::of_name(name), field);
    }
    for name in ["", "Title", "titles", "atom:title", "subtitle", "generator", "entry"] {
        assert_eq!(EntryField::of_name(name), EntryField::Unknown);
    }
}

#[test]
fn source_field_table() {
    let table = [
        ("id", SourceField::Id),
        ("title", SourceField::Title),
        ("updated", SourceField::Updated),
        ("author", SourceField::Author),
        ("category", SourceField::Category),
        ("contributor", SourceField::Contributor),
        ("link", SourceField::Link),
        ("rights", SourceField::Rights),
    ];
    for (name, field) in table {
        assert_eq!(SourceField::of_name(name), field);
    }
    for name in ["", "published", "summary", "content", "source", "subtitle", "icon"] {
        assert_eq!(SourceField::of_name(name), SourceField::Unknown);
    }
}

#[test]
fn person_field_table() {
    assert_eq!(PersonField::of_name("name"), PersonField::Name);
    assert_eq!(PersonField::of_name("uri"), PersonField::Uri);
    assert_eq!(PersonField::of_name("email"), PersonField::Email);
    for name in ["", "Name", "url", "e-mail", "title"] {
        assert_eq!(PersonField::of_name(name), PersonField::Unknown);
    }
}
