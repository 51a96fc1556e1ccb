//! The child elements of a composite element, as its decoder meets them.

use vstd::prelude::*;
use crate::category::{CategoryView, category_from};
use crate::content::{ContentView, content_from};
use crate::error::Error;
use crate::event::{AttributeView, XmlEventView};
use crate::link::{LinkView, link_from};
use crate::person::{PersonView, person_from};
use crate::source::{SourceView, source_from};
use crate::util::{Decoded, chars_or_empty, skip_from, text_from};

verus! {

/// Whether `inner` is all of an element called `name` that follows its
/// start tag: its content, however deeply nested, and its end tag.
pub open spec fn closes(inner: Seq<XmlEventView>, name: Seq<char>) -> bool {
    skip_from(inner, name, 0) == (Decoded { result: Ok::<(), Error>(()), rest: Seq::empty() })
}

/// A child element as a decoder meets it: the name and the attributes of
/// its start tag, and the events that follow that tag.
pub struct ChildView {
    pub name: Seq<char>,
    pub attributes: Seq<AttributeView>,
    pub body: Seq<XmlEventView>,
}

/// Those of `children` that are called `name`, in the same order.
pub open spec fn children_named(children: Seq<ChildView>, name: Seq<char>) -> Seq<ChildView> {
    children.filter(|child: ChildView| child.name == name)
}

/// What `make` gives for each of the `children` called `name`, in the same
/// order.
pub open spec fn gathered<T>(
    children: Seq<ChildView>,
    name: Seq<char>,
    make: spec_fn(ChildView) -> T,
) -> Seq<T> {
    children_named(children, name).map_values(make)
}

/// What `make` gives for the last of the `children` called `name`, and
/// `otherwise` where none is called so.
pub open spec fn latest<T>(
    children: Seq<ChildView>,
    name: Seq<char>,
    make: spec_fn(ChildView) -> T,
    otherwise: T,
) -> T {
    let named = children_named(children, name);
    if named.len() == 0 {
        otherwise
    } else {
        make(named.last())
    }
}

/// The text of a child element, where it has any.
pub open spec fn text_of() -> spec_fn(ChildView) -> Option<Seq<char>> {
    |child: ChildView| text_from(child.body, Seq::empty()).result->Ok_0
}

/// The text of a child element, empty where it has none.
pub open spec fn plain_text_of() -> spec_fn(ChildView) -> Seq<char> {
    |child: ChildView| chars_or_empty(text_from(child.body, Seq::empty()).result->Ok_0)
}

/// The person that a child element describes.
pub open spec fn person_of() -> spec_fn(ChildView) -> PersonView {
    |child: ChildView| person_from(child.body, PersonView::empty()).result->Ok_0
}

/// The category that a child element describes.
pub open spec fn category_of() -> spec_fn(ChildView) -> CategoryView {
    |child: ChildView| category_from(child.attributes, child.body).result->Ok_0
}

/// The link that a child element describes.
pub open spec fn link_of() -> spec_fn(ChildView) -> LinkView {
    |child: ChildView| link_from(child.attributes, child.body).result->Ok_0
}

/// The source that a child element describes.
pub open spec fn source_of() -> spec_fn(ChildView) -> Option<SourceView> {
    |child: ChildView| Some(source_from(child.body, SourceView::empty()).result->Ok_0)
}

/// The content that a child element describes.
pub open spec fn content_of() -> spec_fn(ChildView) -> Option<ContentView> {
    |child: ChildView| Some(content_from(child.attributes, child.body).result->Ok_0)
}

/// Of one child in front of others, those called `name` are the first one,
/// where it is called so, and then those of the others.
pub proof fn lemma_named_first(first: ChildView, others: Seq<ChildView>, name: Seq<char>)
    ensures
        children_named(seq![first] + others, name) == (if first.name == name {
            seq![first]
        } else {
            Seq::empty()
        }) + children_named(others, name),
{
    let wanted = |child: ChildView| child.name == name;
    Seq::filter_distributes_over_add(seq![first], others, wanted);
    reveal_with_fuel(Seq::filter, 2);
}

/// Putting one child in front of others puts what it gives in front of
/// what they give, where it has the name asked for.
pub proof fn lemma_gathered_first<T>(
    first: ChildView,
    others: Seq<ChildView>,
    name: Seq<char>,
    make: spec_fn(ChildView) -> T,
)
    ensures
        gathered(seq![first] + others, name, make) == (if first.name == name {
            seq![make(first)]
        } else {
            Seq::empty()
        }) + gathered(others, name, make),
{
    lemma_named_first(first, others, name);
}

/// Putting one child in front of others changes only what counts where
/// none of the others has the name asked for.
pub proof fn lemma_latest_first<T>(
    first: ChildView,
    others: Seq<ChildView>,
    name: Seq<char>,
    make: spec_fn(ChildView) -> T,
    otherwise: T,
)
    ensures
        latest(seq![first] + others, name, make, otherwise) == latest(
            others,
            name,
            make,
            if first.name == name {
                make(first)
            } else {
                otherwise
            },
        ),
{
    lemma_named_first(first, others, name);
}

} // verus!
