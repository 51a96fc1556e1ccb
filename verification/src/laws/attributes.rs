//! An attribute that is not asked for leaves no trace.

use vstd::prelude::*;
use crate::event::AttributeView;
use crate::util::attribute_value;

verus! {

/// Behind other attributes the last one called `name` still counts, where
/// there is one.
pub proof fn lemma_attribute_value_of_joined(
    before: Seq<AttributeView>,
    after: Seq<AttributeView>,
    name: Seq<char>,
)
    ensures
        attribute_value(before + after, name) == match attribute_value(after, name) {
            Some(value) => Some(value),
            None => attribute_value(before, name),
        },
    decreases after.len(),
{
    if after.len() > 0 {
        assert((before + after).drop_last() =~= before + after.drop_last());
        lemma_attribute_value_of_joined(before, after.drop_last(), name);
    }
}

/// An attribute of another name changes nothing.
///
/// Whatever the attributes of a start tag are, one more attribute put
/// anywhere among them does not change the value that is found for `name`,
/// unless it is called `name` itself.
pub proof fn law_other_attribute_is_inert(
    before: Seq<AttributeView>,
    extra: AttributeView,
    after: Seq<AttributeView>,
    name: Seq<char>,
)
    requires
        extra.name != name,
    ensures
        attribute_value(before + seq![extra] + after, name) == attribute_value(
            before + after,
            name,
        ),
{
    lemma_attribute_value_of_joined(before + seq![extra], after, name);
    lemma_attribute_value_of_joined(before, after, name);
    assert((before + seq![extra]).drop_last() =~= before);
}

} // verus!
