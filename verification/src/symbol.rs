//! The closed set of well-known names that the options grammar recognizes.

use vstd::prelude::*;

use crate::text::str_eq;

verus! {

/// A well-known name, comparable to identifier and path text.
///
/// The vocabulary is a closed, enumerated set, so an unsupported name is a
/// default match arm rather than a stringly-typed fallthrough.
#[derive(Clone, Copy, PartialEq, Eq, Structural)]
pub enum Symbol {
    /// The name of the `derive` attribute and of the struct-scope option
    /// that lists capability derivations for the generated struct.
    Derive,
    /// The trait name that the generated implementation targets.
    Partial,
    /// The attribute name that scopes all options of this crate.
    Partially,
    /// The option renaming the generated struct or field.
    Rename,
    /// The field-scope option excluding a field from generation.
    Omit,
    /// The field-scope option mirroring a field's type verbatim.
    Transparent,
    /// The field-scope option overriding a generated field's type.
    AsType,
    /// The struct-scope option adding a verbatim annotation.
    Attribute,
    /// The struct-scope option suppressing annotation forwarding.
    SkipAttributes,
    /// The struct-scope option overriding the supporting library path.
    Crate,
}

impl Symbol {
    /// The text of this name.
    pub open spec fn spec_text(self) -> Seq<char> {
        match self {
            Symbol::Derive => "derive"@,
            Symbol::Partial => "Partial"@,
            Symbol::Partially => "partially"@,
            Symbol::Rename => "rename"@,
            Symbol::Omit => "omit"@,
            Symbol::Transparent => "transparent"@,
            Symbol::AsType => "as_type"@,
            Symbol::Attribute => "attribute"@,
            Symbol::SkipAttributes => "skip_attributes"@,
            Symbol::Crate => "crate"@,
        }
    }

    /// The text of this name.
    pub fn text(self) -> (r: &'static str)
        ensures
            r@ == self.spec_text(),
    {
        match self {
            Symbol::Derive => "derive",
            Symbol::Partial => "Partial",
            Symbol::Partially => "partially",
            Symbol::Rename => "rename",
            Symbol::Omit => "omit",
            Symbol::Transparent => "transparent",
            Symbol::AsType => "as_type",
            Symbol::Attribute => "attribute",
            Symbol::SkipAttributes => "skip_attributes",
            Symbol::Crate => "crate",
        }
    }

    /// Whether the given identifier text is this name.
    pub fn matches(self, ident: &str) -> (r: bool)
        ensures
            r == (ident@ == self.spec_text()),
    {
        str_eq(ident, self.text())
    }
}

} // verus!
