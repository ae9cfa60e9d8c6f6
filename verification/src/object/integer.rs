//! The integer value.

use vstd::prelude::*;
use crate::decimal::{decimal, i64_to_string};
use crate::object::{ObjectType, Objective};

verus! {

/// A signed 64-bit integer.
#[derive(Debug, Copy, Clone, PartialEq, Eq, Structural)]
pub struct Integer {
    pub value: i64,
}

impl Integer {
    pub fn new(value: i64) -> (integer: Integer)
        ensures
            integer.value == value,
    {
        Integer { value }
    }

    /// The printed form: the value in decimal notation.
    pub fn to_string(&self) -> (text: String)
        ensures
            text@ == self.printed(),
    {
        i64_to_string(self.value)
    }
}

impl Objective for Integer {
    open spec fn type_tag(&self) -> ObjectType {
        ObjectType::Integer
    }

    open spec fn printed(&self) -> Seq<char> {
        decimal(self.value as int)
    }

    fn object_type(&self) -> (tag: ObjectType)
        ensures
            tag == self.type_tag(),
    {
        ObjectType::Integer
    }

    fn inspect(&self) -> (text: String)
        ensures
            text@ == self.printed(),
    {
        self.to_string()
    }
}

} // verus!
