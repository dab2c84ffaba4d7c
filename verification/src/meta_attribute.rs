//! An annotation given as the payload of an `attribute(...)` option.

use vstd::prelude::*;

use crate::annotation::{Annotation, AnnotationV, spec_render_annotation};
use crate::diag::{Diagnostic, DiagnosticV};
use crate::parse::{parse_meta_items, spec_parse_items};
use crate::token::{render_tokens, spec_join_space, tokens_view, Token, TokenV};

verus! {

/// An annotation parsed from the payload of an `attribute(...)` option.
///
/// Note: only a single annotation per payload is supported.
#[derive(Debug)]
pub struct MetaAttribute {
    pub attr: Annotation,
}

impl View for MetaAttribute {
    type V = AnnotationV;

    open spec fn view(&self) -> AnnotationV {
        self.attr@
    }
}

impl DeepView for MetaAttribute {
    type V = AnnotationV;

    open spec fn deep_view(&self) -> AnnotationV {
        self.attr@
    }
}

/// The annotation that an `attribute(...)` payload holds: its items parsed
/// by the options grammar, accepted only when there is exactly one.
pub open spec fn spec_meta_attribute(ts: Seq<TokenV>) -> Result<AnnotationV, DiagnosticV> {
    match spec_parse_items(ts) {
        Err(e) => Err(e),
        Ok(items) => if items.len() == 1 {
            Ok(items[0])
        } else {
            Err(DiagnosticV::SyntaxError(spec_join_space(ts)))
        },
    }
}

impl MetaAttribute {
    /// Parses the payload of one `attribute(...)` option.
    pub fn from_meta(ts: &Vec<Token>) -> (r: Result<MetaAttribute, Diagnostic>)
        ensures
            r matches Ok(m) ==> spec_meta_attribute(tokens_view(ts@)) == Ok::<
                AnnotationV,
                DiagnosticV,
            >(m@),
            r matches Err(e) ==> spec_meta_attribute(tokens_view(ts@)) == Err::<
                AnnotationV,
                DiagnosticV,
            >(e@),
    {
        let mut items = match parse_meta_items(ts) {
            Ok(items) => items,
            Err(e) => {
                return Err(e);
            },
        };
        if items.len() == 1 {
            let ghost items_view = items.deep_view();
            let item = items.remove(0);
            proof {
                assert(item.deep_view() == items_view[0]);
            }
            Ok(MetaAttribute { attr: item })
        } else {
            Err(Diagnostic::SyntaxError(render_tokens(ts)))
        }
    }

    /// Renders the held annotation in its canonical text.
    pub fn render(&self) -> (r: String)
        ensures
            r@ == spec_render_annotation(self@),
    {
        self.attr.render()
    }
}

} // verus!
