//! Runtime values.

pub mod boolean;
pub mod integer;
pub mod null;

use vstd::prelude::*;
use crate::object::boolean::Boolean;
use crate::object::integer::Integer;
use crate::object::null::Null;

verus! {

/// The type tag of a runtime value.
#[derive(Debug, Copy, Clone, PartialEq, Eq, Structural)]
pub enum ObjectType {
    Integer,
    Boolean,
    Null,
}

/// What every runtime value offers: its type tag and its printed form.
pub trait Objective {
    /// The type tag of the value.
    spec fn type_tag(&self) -> ObjectType;

    /// The printed form of the value.
    spec fn printed(&self) -> Seq<char>;

    /// The type tag of the value.
    fn object_type(&self) -> (tag: ObjectType)
        ensures
            tag == self.type_tag(),
    ;

    /// The printed form of the value.
    fn inspect(&self) -> (text: String)
        ensures
            text@ == self.printed(),
    ;
}

/// A runtime value.
#[derive(Debug, Copy, Clone, PartialEq, Eq, Structural)]
pub enum Object {
    Integer(Integer),
    Boolean(Boolean),
    Null(Null),
}

impl Object {
    /// The printed form of the value.
    pub fn to_string(&self) -> (text: String)
        ensures
            text@ == self.printed(),
    {
        match self {
            Object::Integer(integer) => integer.to_string(),
            Object::Boolean(boolean) => boolean.to_string(),
            Object::Null(null) => null.to_string(),
        }
    }
}

impl Objective for Object {
    open spec fn type_tag(&self) -> ObjectType {
        match self {
            Object::Integer(_) => ObjectType::Integer,
            Object::Boolean(_) => ObjectType::Boolean,
            Object::Null(_) => ObjectType::Null,
        }
    }

    open spec fn printed(&self) -> Seq<char> {
        match self {
            Object::Integer(integer) => integer.printed(),
            Object::Boolean(boolean) => boolean.printed(),
            Object::Null(null) => null.printed(),
        }
    }

    fn object_type(&self) -> (tag: ObjectType)
        ensures
            tag == self.type_tag(),
    {
        match self {
            Object::Integer(_) => ObjectType::Integer,
            Object::Boolean(_) => ObjectType::Boolean,
            Object::Null(_) => ObjectType::Null,
        }
    }

    fn inspect(&self) -> (text: String)
        ensures
            text@ == self.printed(),
    {
        self.to_string()
    }
}

} // verus!
