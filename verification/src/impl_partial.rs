//! The merge generator: the ordered merge specification, and the rendering
//! of the apply implementation.

use vstd::prelude::*;

use crate::field_receiver::{FieldReceiver, FieldReceiverV};
use crate::schema::{spec_impl_generics_text, spec_ty_generics_text, GenericsDecl, GenericsV};

verus! {

/// One merge instruction: the base field written to, and the partial field
/// read from.
#[derive(Debug)]
pub struct MergeEntry {
    pub base: String,
    pub partial: String,
}

/// Mathematical model of [`MergeEntry`].
pub struct MergeEntryV {
    pub base: Seq<char>,
    pub partial: Seq<char>,
}

impl View for MergeEntry {
    type V = MergeEntryV;

    open spec fn view(&self) -> MergeEntryV {
        MergeEntryV { base: self.base@, partial: self.partial@ }
    }
}

impl DeepView for MergeEntry {
    type V = MergeEntryV;

    open spec fn deep_view(&self) -> MergeEntryV {
        self.view()
    }
}

/// The merge instruction of one non-omitted field: it writes to the
/// field's own identifier and reads from the renamed identifier when a
/// rename was given, else from the field's own identifier.
pub open spec fn spec_merge_entry(f: FieldReceiverV) -> MergeEntryV {
    MergeEntryV {
        base: f.ident.unwrap(),
        partial: match f.rename {
            Some(n) => n,
            None => f.ident.unwrap(),
        },
    }
}

/// The merge specification: one entry per non-omitted field, in
/// declaration order; omitted fields produce no entry.
pub open spec fn spec_merge_entries(fs: Seq<FieldReceiverV>) -> Seq<MergeEntryV>
    decreases fs.len(),
{
    if fs.len() == 0 {
        Seq::empty()
    } else {
        let rest = spec_merge_entries(fs.drop_last());
        if fs.last().omit {
            rest
        } else {
            rest.push(spec_merge_entry(fs.last()))
        }
    }
}

/// Renaming: the merge entry of a renamed field reads from the renamed
/// partial field and writes to the field's own base identifier.
pub proof fn lemma_renaming_merge(f: FieldReceiverV, x: Seq<char>)
    requires
        f.rename == Some(x),
        !f.omit,
    ensures
        spec_merge_entry(f).partial == x,
        spec_merge_entry(f).base == f.ident.unwrap(),
{
}

/// Renaming, at the rendered level: for a field with its own identifier
/// and a rename target, the emitted applicator reads the renamed field on
/// the partial value and writes the field's own identifier on the base.
pub proof fn lemma_renaming_applicator(f: FieldReceiverV, orig: Seq<char>, x: Seq<char>)
    requires
        f.ident == Some(orig),
        f.rename == Some(x),
        !f.omit,
    ensures
        spec_render_applicator(spec_merge_entry(f)) == "if let Some ( "@ + x + " ) = partial . "@
            + x + " { self . "@ + orig + " = "@ + x + " . into ( ) ; applied = true ; }"@,
{
}

/// Omit exclusion: an omitted field contributes no merge entry.
pub proof fn lemma_omit_no_entry(fs: Seq<FieldReceiverV>, f: FieldReceiverV)
    requires
        f.omit,
    ensures
        spec_merge_entries(fs.push(f)) == spec_merge_entries(fs),
{
    assert(fs.push(f).drop_last() =~= fs);
}

/// Computes the merge specification of the bound fields.
pub fn merge_entries(fields: &Vec<FieldReceiver>) -> (r: Vec<MergeEntry>)
    requires
        forall|i: int| 0 <= i < fields.deep_view().len() ==> (#[trigger] fields.deep_view()[i].omit
            || fields.deep_view()[i].ident is Some),
    ensures
        r.deep_view() == spec_merge_entries(fields.deep_view()),
{
    let mut out: Vec<MergeEntry> = Vec::new();
    let mut i: usize = 0;
    proof {
        assert(fields.deep_view().subrange(0, 0) =~= Seq::<FieldReceiverV>::empty());
        assert(out.deep_view() =~= Seq::<MergeEntryV>::empty());
    }
    while i < fields.len()
        invariant
            i <= fields@.len(),
            fields.deep_view().len() == fields@.len(),
            forall|j: int| 0 <= j < fields@.len() ==> fields@[j].deep_view()
                == fields.deep_view()[j],
            forall|j: int| 0 <= j < fields.deep_view().len() ==> (
            #[trigger] fields.deep_view()[j].omit || fields.deep_view()[j].ident is Some),
            out.deep_view() == spec_merge_entries(fields.deep_view().subrange(0, i as int)),
        decreases fields@.len() - i,
    {
        let ghost prefix = fields.deep_view().subrange(0, i as int);
        let ghost fv = fields.deep_view()[i as int];
        proof {
            assert(fields.deep_view().subrange(0, i as int + 1) =~= prefix.push(fv));
            assert(prefix.push(fv).drop_last() =~= prefix);
        }
        let f = &fields[i];
        if !f.omit {
            proof {
                assert(fields.deep_view()[i as int].omit || fields.deep_view()[i as int].ident
                    is Some);
            }
            let base = match &f.ident {
                Some(s) => s.clone(),
                None => {
                    proof {
                        assert(false);
                    }
                    String::new()
                },
            };
            let partial = match &f.rename {
                Some(n) => n.clone(),
                None => base.clone(),
            };
            let ghost before = out.deep_view();
            out.push(MergeEntry { base, partial });
            proof {
                assert(out.deep_view() =~= before.push(spec_merge_entry(fv)));
            }
        }
        i += 1;
    }
    proof {
        assert(fields.deep_view().subrange(0, fields.deep_view().len() as int)
            =~= fields.deep_view());
    }
    out
}

/// The pieces that render the apply implementation.
#[derive(Debug)]
pub struct ImplPartial {
    /// The path of the supporting library, when overridden.
    pub krate: Option<String>,
    /// The generics of the base struct, copied verbatim.
    pub generics: GenericsDecl,
    /// The identifier of the base struct.
    pub from_ident: String,
    /// The identifier of the mirrored struct.
    pub to_ident: String,
    /// The merge specification, with omitted entries already removed.
    pub fields: Vec<MergeEntry>,
}

/// Mathematical model of [`ImplPartial`].
pub struct ImplPartialV {
    pub krate: Option<Seq<char>>,
    pub generics: GenericsV,
    pub from_ident: Seq<char>,
    pub to_ident: Seq<char>,
    pub fields: Seq<MergeEntryV>,
}

impl View for ImplPartial {
    type V = ImplPartialV;

    open spec fn view(&self) -> ImplPartialV {
        ImplPartialV {
            krate: self.krate.deep_view(),
            generics: self.generics@,
            from_ident: self.from_ident@,
            to_ident: self.to_ident@,
            fields: self.fields.deep_view(),
        }
    }
}

/// The library path referenced by the generated implementation: the
/// override when one was given, else the default.
pub open spec fn spec_krate_text(krate: Option<Seq<char>>) -> Seq<char> {
    match krate {
        Some(k) => k,
        None => "partially"@,
    }
}

/// The text applying one merge instruction: when the partial field holds a
/// present value, it is converted and assigned to the base field, and the
/// did-apply signal is set.
pub open spec fn spec_render_applicator(e: MergeEntryV) -> Seq<char> {
    "if let Some ( "@ + e.partial + " ) = partial . "@ + e.partial + " { self . "@ + e.base
        + " = "@ + e.partial + " . into ( ) ; applied = true ; }"@
}

/// The applicators of the merge specification in order, each preceded by a
/// space.
pub open spec fn spec_render_applicators(entries: Seq<MergeEntryV>) -> Seq<char>
    decreases entries.len(),
{
    if entries.len() == 0 {
        Seq::empty()
    } else {
        spec_render_applicators(entries.drop_last()) + " "@ + spec_render_applicator(
            entries.last(),
        )
    }
}

/// The text of the generated implementation: the apply operation takes the
/// partial value, applies each present field in order, and returns whether
/// any field was applied.
pub open spec fn spec_render_impl(p: ImplPartialV) -> Seq<char> {
    "impl"@ + (if p.generics.params.len() == 0 {
        Seq::<char>::empty()
    } else {
        " "@ + spec_impl_generics_text(p.generics)
    }) + " "@ + spec_krate_text(p.krate) + " :: Partial for "@ + p.from_ident
        + (if p.generics.params.len() == 0 {
        Seq::<char>::empty()
    } else {
        " "@ + spec_ty_generics_text(p.generics)
    }) + (if p.generics.where_clause.len() == 0 {
        Seq::<char>::empty()
    } else {
        " "@ + p.generics.where_clause
    }) + " { type Item = "@ + p.to_ident + (if p.generics.params.len() == 0 {
        Seq::<char>::empty()
    } else {
        " "@ + spec_ty_generics_text(p.generics)
    })
        + " ; fn apply_some ( & mut self , partial : Self :: Item ) -> bool { let mut applied = false ;"@
        + spec_render_applicators(p.fields) + " applied } }"@
}

impl ImplPartial {
    /// Renders the generated implementation.
    pub fn render(&self) -> (r: String)
        ensures
            r@ == spec_render_impl(self@),
    {
        let mut out = String::new();
        out.append("impl");
        if self.generics.params.len() > 0 {
            let ig = self.generics.impl_generics();
            out.append(" ");
            out.append(ig.as_str());
        }
        out.append(" ");
        match &self.krate {
            Some(k) => out.append(k.as_str()),
            None => out.append("partially"),
        }
        out.append(" :: Partial for ");
        out.append(self.from_ident.as_str());
        if self.generics.params.len() > 0 {
            let tg = self.generics.ty_generics();
            out.append(" ");
            out.append(tg.as_str());
        }
        if !self.generics.where_clause.as_str().is_empty() {
            out.append(" ");
            out.append(self.generics.where_clause.as_str());
        }
        out.append(" { type Item = ");
        out.append(self.to_ident.as_str());
        if self.generics.params.len() > 0 {
            let tg = self.generics.ty_generics();
            out.append(" ");
            out.append(tg.as_str());
        }
        out.append(
            " ; fn apply_some ( & mut self , partial : Self :: Item ) -> bool { let mut applied = false ;",
        );
        let ghost before_apps = out@;
        let mut i: usize = 0;
        proof {
            assert(self.fields.deep_view().subrange(0, 0) =~= Seq::<MergeEntryV>::empty());
            assert(out@ =~= before_apps + spec_render_applicators(
                self.fields.deep_view().subrange(0, 0),
            ));
        }
        while i < self.fields.len()
            invariant
                i <= self.fields@.len(),
                self.fields.deep_view().len() == self.fields@.len(),
                forall|j: int| 0 <= j < self.fields@.len() ==> self.fields@[j].deep_view()
                    == self.fields.deep_view()[j],
                out@ == before_apps + spec_render_applicators(
                    self.fields.deep_view().subrange(0, i as int),
                ),
            decreases self.fields@.len() - i,
        {
            let ghost prefix = self.fields.deep_view().subrange(0, i as int);
            let ghost e = self.fields.deep_view()[i as int];
            proof {
                assert(self.fields.deep_view().subrange(0, i as int + 1) =~= prefix.push(e));
                assert(prefix.push(e).drop_last() =~= prefix);
            }
            let entry = &self.fields[i];
            out.append(" ");
            out.append("if let Some ( ");
            out.append(entry.partial.as_str());
            out.append(" ) = partial . ");
            out.append(entry.partial.as_str());
            out.append(" { self . ");
            out.append(entry.base.as_str());
            out.append(" = ");
            out.append(entry.partial.as_str());
            out.append(" . into ( ) ; applied = true ; }");
            proof {
                assert(out@ =~= before_apps + spec_render_applicators(
                    self.fields.deep_view().subrange(0, i as int + 1),
                ));
            }
            i += 1;
        }
        proof {
            assert(self.fields.deep_view().subrange(0, self.fields.deep_view().len() as int)
                =~= self.fields.deep_view());
        }
        out.append(" applied } }");
        proof {
            assert(out@ =~= spec_render_impl(self@));
        }
        out
    }
}

} // verus!
