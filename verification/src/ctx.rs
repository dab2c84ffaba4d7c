//! Querying the context (struct or field) in which options are resolved.

use vstd::prelude::*;

use crate::schema::{FieldSchema, SchemaData, StructSchema};

verus! {

/// Trait that allows querying a resolution context in an item-generic way.
pub trait ContextQuery {
    /// Whether the context is a struct, as a specification value.
    spec fn spec_is_struct(&self) -> bool;

    /// Whether the context is a field, as a specification value.
    spec fn spec_is_field(&self) -> bool;

    /// Determines if the context is for a struct.
    fn is_struct(&self) -> (r: bool)
        ensures
            r == self.spec_is_struct(),
    ;

    /// Determines if the context is for a field.
    fn is_field(&self) -> (r: bool)
        ensures
            r == self.spec_is_field(),
    ;
}

/// Generic context that provides [`ContextQuery`] for the schema types.
pub struct Context<'a, T> {
    pub item: &'a T,
}

impl<'a, T> Context<'a, T> {
    /// A context wrapping the item whose options are being resolved.
    pub fn new(item: &'a T) -> (r: Self)
        ensures
            r.item == item,
    {
        Context { item }
    }
}

impl<'a> ContextQuery for Context<'a, StructSchema> {
    open spec fn spec_is_struct(&self) -> bool {
        self.item.data is Struct
    }

    open spec fn spec_is_field(&self) -> bool {
        false
    }

    fn is_struct(&self) -> (r: bool)
        ensures
            r == self.spec_is_struct(),
    {
        match &self.item.data {
            SchemaData::Struct(_) => true,
            _ => false,
        }
    }

    fn is_field(&self) -> (r: bool)
        ensures
            r == self.spec_is_field(),
    {
        false
    }
}

impl<'a> ContextQuery for Context<'a, FieldSchema> {
    open spec fn spec_is_struct(&self) -> bool {
        false
    }

    open spec fn spec_is_field(&self) -> bool {
        true
    }

    fn is_struct(&self) -> (r: bool)
        ensures
            r == self.spec_is_struct(),
    {
        false
    }

    fn is_field(&self) -> (r: bool)
        ensures
            r == self.spec_is_field(),
    {
        true
    }
}

} // verus!
