//! The boolean value.

use vstd::prelude::*;
use vstd::string::StringExecFns;
use crate::object::{ObjectType, Objective};

verus! {

/// A boolean.
#[derive(Debug, Copy, Clone, PartialEq, Eq, Structural)]
pub struct Boolean {
    pub value: bool,
}

impl Boolean {
    pub fn new(value: bool) -> (boolean: Boolean)
        ensures
            boolean.value == value,
    {
        Boolean { value }
    }

    /// The printed form: `true` or `false`.
    pub fn to_string(&self) -> (text: String)
        ensures
            text@ == self.printed(),
    {
        if self.value {
            String::from_str("true")
        } else {
            String::from_str("false")
        }
    }
}

impl Objective for Boolean {
    open spec fn type_tag(&self) -> ObjectType {
        ObjectType::Boolean
    }

    open spec fn printed(&self) -> Seq<char> {
        if self.value {
            "true"@
        } else {
            "false"@
        }
    }

    fn object_type(&self) -> (tag: ObjectType)
        ensures
            tag == self.type_tag(),
    {
        ObjectType::Boolean
    }

    fn inspect(&self) -> (text: String)
        ensures
            text@ == self.printed(),
    {
        self.to_string()
    }
}

} // verus!
