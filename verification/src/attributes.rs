//! Attribute sets, as `calyx_frontend` keeps them.
//!
//! The set itself and its keys stay values of the outside crate; the library
//! reads them through the three functions below and speaks of their contents
//! as a map from attribute to value.

use calyx_frontend::{Attribute, Attributes};
use vstd::prelude::*;

verus! {

#[verifier::external_type_specification]
#[verifier::external_body]
pub struct ExAttributes(calyx_frontend::Attributes);

#[verifier::external_type_specification]
#[verifier::external_body]
pub struct ExAttribute(calyx_frontend::Attribute);

/// The attributes that are set in `attrs`, each with its value.
pub uninterp spec fn attributes_map(attrs: Attributes) -> Map<Attribute, u64>;

/// `Attributes::has`: whether `key` is set. In the outside crate a boolean
/// attribute is looked up in the inline bit set and any other one in the heap
/// map; both are the contents that [`attributes_map`] names.
#[verifier::external_body]
pub(crate) fn has_attribute(attrs: &Attributes, key: Attribute) -> (r: bool)
    ensures
        r == attributes_map(*attrs).contains_key(key),
{
    attrs.has(key)
}

/// `Attributes::get`: the value stored under `key`, if it is set.
#[verifier::external_body]
pub(crate) fn attribute_value(attrs: &Attributes, key: Attribute) -> (r: Option<u64>)
    ensures
        r == if attributes_map(*attrs).contains_key(key) {
            Some(attributes_map(*attrs)[key])
        } else {
            None
        },
{
    attrs.get(key)
}

/// `Attributes::clone` (derived in the outside crate): the copy holds the same
/// attributes with the same values.
#[verifier::external_body]
pub(crate) fn clone_attributes(attrs: &Attributes) -> (r: Attributes)
    ensures
        attributes_map(r) == attributes_map(*attrs),
{
    attrs.clone()
}

} // verus!
