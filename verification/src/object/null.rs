//! The null value.

use vstd::prelude::*;
use vstd::string::StringExecFns;
use crate::object::{ObjectType, Objective};

verus! {

/// The absence of a value.
#[derive(Debug, Default, Copy, Clone, PartialEq, Eq, Structural)]
pub struct Null;

impl Null {
    pub fn new() -> (null: Null)
        ensures
            null == Null,
    {
        Null
    }

    /// The printed form: `null`.
    pub fn to_string(&self) -> (text: String)
        ensures
            text@ == self.printed(),
    {
        String::from_str("null")
    }
}

impl Objective for Null {
    open spec fn type_tag(&self) -> ObjectType {
        ObjectType::Null
    }

    open spec fn printed(&self) -> Seq<char> {
        "null"@
    }

    fn object_type(&self) -> (tag: ObjectType)
        ensures
            tag == self.type_tag(),
    {
        ObjectType::Null
    }

    fn inspect(&self) -> (text: String)
        ensures
            text@ == self.printed(),
    {
        self.to_string()
    }
}

} // verus!
