//! The whole transformation: from an annotated schema to the mirrored
//! struct and the merge specification, and their rendered text.

use vstd::prelude::*;

use crate::derive_receiver::{
    lemma_bind_fields_validated, spec_derive_receiver, spec_mirrored, spec_output_name,
    spec_render_mirrored, DeriveReceiver, MirroredStruct,
};
use crate::diag::{Diagnostic, DiagnosticV};
use crate::field_receiver::spec_validate;
use crate::impl_partial::{merge_entries, spec_merge_entries, spec_render_impl, ImplPartial,
    ImplPartialV};
use crate::schema::{StructSchema, StructSchemaV};

verus! {

/// The two output artifacts of one transformation: the mirrored struct and
/// the merge specification with its rendering context.
#[derive(Debug)]
pub struct Expansion {
    pub mirrored: MirroredStruct,
    pub merge: ImplPartial,
}

/// The pair of artifacts that a schema transforms to, or the diagnostics
/// of the first failing scope.
pub open spec fn spec_expand(s: StructSchemaV) -> Result<
    (crate::derive_receiver::MirroredStructV, ImplPartialV),
    Seq<DiagnosticV>,
> {
    match spec_derive_receiver(s) {
        Err(es) => Err(es),
        Ok(d) => Ok(
            (
                spec_mirrored(d),
                ImplPartialV {
                    krate: d.krate,
                    generics: d.generics,
                    from_ident: d.ident,
                    to_ident: spec_output_name(d.rename, d.ident),
                    fields: spec_merge_entries(d.data),
                },
            ),
        ),
    }
}

/// Transforms one annotated schema into its two output artifacts: the
/// mirrored struct and the merge specification. On any diagnostic, no
/// artifact is produced.
pub fn expand_derive_partial(schema: &StructSchema) -> (r: Result<Expansion, Vec<Diagnostic>>)
    ensures
        r matches Ok(ex) ==> spec_expand(schema@) == Ok::<_, Seq<DiagnosticV>>(
            (ex.mirrored@, ex.merge@),
        ),
        r matches Err(ds) ==> spec_expand(schema@) == Err::<
            (crate::derive_receiver::MirroredStructV, ImplPartialV),
            _,
        >(ds.deep_view()),
{
    let receiver = match DeriveReceiver::from_schema(schema) {
        Ok(d) => d,
        Err(ds) => {
            return Err(ds);
        },
    };
    proof {
        match schema@.data {
            crate::schema::SchemaDataV::Struct(fields) => {
                lemma_bind_fields_validated(fields);
                assert(forall|i: int| 0 <= i < receiver@.data.len() ==> spec_validate(
                    #[trigger] receiver@.data[i],
                ).len() == 0);
                assert(forall|i: int| 0 <= i < receiver@.data.len() ==> (
                #[trigger] receiver@.data[i].omit || receiver@.data[i].ident is Some));
            },
            _ => {
                assert(false);
            },
        }
    }
    let mirrored = receiver.mirrored();
    let entries = merge_entries(&receiver.data);
    let to_ident = mirrored.ident.clone();
    let DeriveReceiver { ident, generics, krate, .. } = receiver;
    let merge = ImplPartial { krate, generics, from_ident: ident, to_ident, fields: entries };
    Ok(Expansion { mirrored, merge })
}

impl Expansion {
    /// Renders both artifacts: the mirrored struct declaration followed by
    /// the generated implementation.
    pub fn render(&self) -> (r: String)
        ensures
            r@ == spec_render_mirrored(self.mirrored@) + " "@ + spec_render_impl(self.merge@),
    {
        let mut out = self.mirrored.render();
        out.append(" ");
        let imp = self.merge.render();
        out.append(imp.as_str());
        out
    }
}

} // verus!
