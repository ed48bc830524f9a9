use vstd::prelude::*;

verus! {

/// A typed record that the library stores: every resource type implements this.
pub trait Resource {
    /// The table that holds resources of this type.
    fn table() -> String;

    /// The partition key and sort key of this resource, derived from its fields.
    fn pk_sk(&self) -> (String, String);
}

} // verus!
