//! Struct-level option binding and the assembler of the mirrored struct.

use vstd::prelude::*;

use crate::annotation::{AnnArgs, AnnArgsV, Annotation, AnnotationV};
use crate::diag::{Diagnostic, DiagnosticV};
use crate::field_receiver::{
    spec_field_receiver, spec_forwarded_attrs, spec_out_field, spec_validate, FieldReceiver,
    FieldReceiverV, OutField, OutFieldV,
};
use crate::parse::{
    comma_len_from, lemma_comma_len_bound, parse_meta_items, spec_argument_of_item,
    spec_comma_len, spec_parse_items, Argument, ArgumentV,
};
use crate::meta_attribute::{spec_meta_attribute, MetaAttribute};
use crate::schema::{GenericsDecl, GenericsV, SchemaData, StructSchema, StructSchemaV};
use crate::symbol::Symbol;
use crate::token::{
    duplicate_range, lemma_tokens_view, lemma_tokens_view_subrange, render_tokens,
    spec_join_space, spec_render_token, tokens_view, Delim, Spacing, Token, TokenV,
};

verus! {

/// The options that a struct's annotations request.
pub struct StructOptionsV {
    pub rename: Option<Seq<char>>,
    pub derive: Option<Seq<Seq<char>>>,
    pub additional_attrs: Seq<AnnotationV>,
    pub skip_attrs: bool,
    pub krate: Option<Seq<char>>,
}

/// The struct options with nothing recorded.
pub open spec fn spec_empty_struct_options() -> StructOptionsV {
    StructOptionsV {
        rename: None,
        derive: None,
        additional_attrs: Seq::empty(),
        skip_attrs: false,
        krate: None,
    }
}

/// The capability paths of a `derive(...)` payload: the text of each run
/// of tokens between top-level commas.
pub open spec fn spec_path_list(ts: Seq<TokenV>) -> Result<Seq<Seq<char>>, DiagnosticV>
    decreases ts.len(),
    via spec_path_list_dec
{
    if ts.len() == 0 {
        Ok(Seq::empty())
    } else {
        let k = spec_comma_len(ts);
        if k == 0 {
            Err(DiagnosticV::SyntaxError(spec_render_token(ts[0])))
        } else {
            let path = spec_join_space(ts.subrange(0, k));
            if k == ts.len() {
                Ok(seq![path])
            } else {
                match spec_path_list(ts.subrange(k + 1, ts.len() as int)) {
                    Err(e) => Err(e),
                    Ok(rest) => Ok(seq![path] + rest),
                }
            }
        }
    }
}

#[via_fn]
proof fn spec_path_list_dec(ts: Seq<TokenV>) {
    lemma_comma_len_bound(ts);
}

fn path_list_from(ts: &Vec<Token>, start: usize) -> (r: Result<Vec<String>, Diagnostic>)
    requires
        start <= ts@.len(),
    ensures
        r matches Ok(paths) ==> spec_path_list(tokens_view(ts@.skip(start as int))) == Ok::<
            Seq<Seq<char>>,
            DiagnosticV,
        >(paths.deep_view()),
        r matches Err(e) ==> spec_path_list(tokens_view(ts@.skip(start as int))) == Err::<
            Seq<Seq<char>>,
            DiagnosticV,
        >(e@),
    decreases ts@.len() - start,
{
    let ghost rest = tokens_view(ts@.skip(start as int));
    proof {
        lemma_tokens_view(ts@.skip(start as int));
        lemma_comma_len_bound(rest);
    }
    if start == ts.len() {
        let empty: Vec<String> = Vec::new();
        proof {
            assert(empty.deep_view() =~= Seq::<Seq<char>>::empty());
        }
        return Ok(empty);
    }
    let k = comma_len_from(ts, start);
    if k == 0 {
        proof {
            assert(rest[0] == crate::token::token_view(ts@[start as int]));
        }
        return Err(Diagnostic::SyntaxError((&ts[start]).render()));
    }
    let chunk = duplicate_range(ts, start, start + k);
    let path = render_tokens(&chunk);
    proof {
        assert(ts@.subrange(start as int, start + k) =~= ts@.skip(start as int).subrange(
            0,
            k as int,
        ));
        lemma_tokens_view_subrange(ts@.skip(start as int), 0, k as int);
    }
    if start + k == ts.len() {
        let mut paths: Vec<String> = Vec::new();
        paths.push(path);
        proof {
            assert(paths.deep_view() =~= seq![path@]);
        }
        Ok(paths)
    } else {
        proof {
            assert(ts@.skip(start + k + 1) =~= ts@.skip(start as int).subrange(
                k + 1,
                ts@.len() - start,
            ));
            lemma_tokens_view_subrange(ts@.skip(start as int), k + 1, ts@.len() - start);
        }
        match path_list_from(ts, start + k + 1) {
            Ok(mut tail) => {
                let ghost tail_view = tail.deep_view();
                tail.insert(0, path);
                proof {
                    assert(tail.deep_view() =~= seq![path@] + tail_view);
                }
                Ok(tail)
            },
            Err(e) => Err(e),
        }
    }
}

/// One binding step for a struct option, dispatched on the item's name:
/// `rename` takes a literal; `crate` takes a path, written directly or as
/// a literal that parses as one; `derive` takes a list of capability
/// paths; `attribute` (repeatable) takes one verbatim annotation;
/// `skip_attributes` stands alone; everything else is an unsupported
/// argument.
pub open spec fn spec_apply_struct_item(acc: StructOptionsV, item: AnnotationV) -> Result<
    StructOptionsV,
    DiagnosticV,
> {
    if item.path == Symbol::Rename.spec_text() {
        match spec_argument_of_item(item) {
            Ok(ArgumentV::WithLiteral(_, v)) => Ok(StructOptionsV { rename: Some(v), ..acc }),
            Ok(_) => Err(DiagnosticV::UnsupportedArgument(item.path)),
            Err(e) => Err(e),
        }
    } else if item.path == Symbol::Crate.spec_text() {
        match spec_argument_of_item(item) {
            Ok(ArgumentV::WithLiteral(_, v)) => if crate::parse::parses_as_type(v) {
                Ok(StructOptionsV { krate: Some(v), ..acc })
            } else {
                Err(DiagnosticV::UnsupportedArgument(item.path))
            },
            Ok(ArgumentV::WithType(_, t)) => Ok(StructOptionsV { krate: Some(t), ..acc }),
            Ok(_) => Err(DiagnosticV::UnsupportedArgument(item.path)),
            Err(e) => Err(e),
        }
    } else if item.path == Symbol::Derive.spec_text() {
        match item.args {
            AnnArgsV::List(_, ts) => match spec_path_list(ts) {
                Ok(paths) => Ok(StructOptionsV { derive: Some(paths), ..acc }),
                Err(e) => Err(e),
            },
            _ => Err(DiagnosticV::UnsupportedArgument(item.path)),
        }
    } else if item.path == Symbol::Attribute.spec_text() {
        match item.args {
            AnnArgsV::List(_, ts) => match spec_meta_attribute(ts) {
                Ok(a) => Ok(
                    StructOptionsV { additional_attrs: acc.additional_attrs.push(a), ..acc },
                ),
                Err(e) => Err(e),
            },
            _ => Err(DiagnosticV::UnsupportedArgument(item.path)),
        }
    } else if item.path == Symbol::SkipAttributes.spec_text() {
        match item.args {
            AnnArgsV::Bare => Ok(StructOptionsV { skip_attrs: true, ..acc }),
            _ => Err(DiagnosticV::UnsupportedArgument(item.path)),
        }
    } else {
        Err(DiagnosticV::UnsupportedArgument(item.path))
    }
}

/// The items of one payload folded in order. A failing item adds its
/// diagnostic and leaves the options unchanged, and the fold goes on, so
/// the whole scope's violations are collected.
pub open spec fn spec_fold_struct_items(
    items: Seq<AnnotationV>,
    acc: StructOptionsV,
    diags: Seq<DiagnosticV>,
) -> (StructOptionsV, Seq<DiagnosticV>)
    decreases items.len(),
{
    if items.len() == 0 {
        (acc, diags)
    } else {
        match spec_apply_struct_item(acc, items[0]) {
            Ok(next) => spec_fold_struct_items(items.drop_first(), next, diags),
            Err(e) => spec_fold_struct_items(items.drop_first(), acc, diags.push(e)),
        }
    }
}

/// The struct's annotations folded in order, as in the generic resolver:
/// one not named `partially` is skipped, an empty payload is skipped, and
/// each non-empty payload is parsed into items that are bound in order, a
/// parse failure counting as one diagnostic of the scope.
pub open spec fn spec_fold_struct_annotations(
    anns: Seq<AnnotationV>,
    acc: StructOptionsV,
    diags: Seq<DiagnosticV>,
) -> (StructOptionsV, Seq<DiagnosticV>)
    decreases anns.len(),
{
    if anns.len() == 0 {
        (acc, diags)
    } else {
        let a = anns[0];
        if a.path != Symbol::Partially.spec_text() {
            spec_fold_struct_annotations(anns.drop_first(), acc, diags)
        } else {
            match a.args {
                AnnArgsV::List(_, ts) => if ts.len() == 0 {
                    spec_fold_struct_annotations(anns.drop_first(), acc, diags)
                } else {
                    match spec_parse_items(ts) {
                        Err(e) => spec_fold_struct_annotations(
                            anns.drop_first(),
                            acc,
                            diags.push(e),
                        ),
                        Ok(items) => {
                            let folded = spec_fold_struct_items(items, acc, diags);
                            spec_fold_struct_annotations(
                                anns.drop_first(),
                                folded.0,
                                folded.1,
                            )
                        },
                    }
                },
                _ => spec_fold_struct_annotations(
                    anns.drop_first(),
                    acc,
                    diags.push(DiagnosticV::SyntaxError(a.path)),
                ),
            }
        }
    }
}

/// The options that a struct's annotations request, or every diagnostic of
/// the scope, surfaced together.
pub open spec fn spec_struct_options(anns: Seq<AnnotationV>) -> Result<
    StructOptionsV,
    Seq<DiagnosticV>,
> {
    let folded = spec_fold_struct_annotations(
        anns,
        spec_empty_struct_options(),
        Seq::empty(),
    );
    if folded.1.len() == 0 {
        Ok(folded.0)
    } else {
        Err(folded.1)
    }
}

/// The fields bound in declaration order. A field whose binding fails, or
/// whose validation reports diagnostics, stops the fold with that field's
/// full diagnostic set.
pub open spec fn spec_bind_fields(fields: Seq<crate::schema::FieldSchemaV>) -> Result<
    Seq<FieldReceiverV>,
    Seq<DiagnosticV>,
>
    decreases fields.len(),
{
    if fields.len() == 0 {
        Ok(Seq::empty())
    } else {
        match spec_field_receiver(fields[0]) {
            Err(es) => Err(es),
            Ok(fv) => if spec_validate(fv).len() > 0 {
                Err(spec_validate(fv))
            } else {
                match spec_bind_fields(fields.drop_first()) {
                    Err(es) => Err(es),
                    Ok(rest) => Ok(seq![fv] + rest),
                }
            },
        }
    }
}

/// Every receiver of a successful binding passed validation.
pub proof fn lemma_bind_fields_validated(fields: Seq<crate::schema::FieldSchemaV>)
    ensures
        spec_bind_fields(fields) matches Ok(fvs) ==> forall|i: int|
            0 <= i < fvs.len() ==> spec_validate(#[trigger] fvs[i]).len() == 0,
    decreases fields.len(),
{
    if fields.len() > 0 {
        lemma_bind_fields_validated(fields.drop_first());
        match spec_field_receiver(fields[0]) {
            Err(_) => {},
            Ok(fv) => {
                if spec_validate(fv).len() == 0 {
                    match spec_bind_fields(fields.drop_first()) {
                        Err(_) => {},
                        Ok(rest) => {
                            assert(forall|i: int| 1 <= i < rest.len() + 1 ==> (seq![fv]
                                + rest)[i] == rest[i - 1]);
                        },
                    }
                }
            },
        }
    }
}

/// The whole receiver of the annotated struct: its schema parts, its bound
/// fields, and its bound struct options.
#[derive(Debug)]
pub struct DeriveReceiver {
    /// The struct ident.
    pub ident: String,
    /// The visibility of the struct.
    pub vis: String,
    /// The forwarded annotations of the struct.
    pub attrs: Vec<Annotation>,
    /// The struct's generics, copied verbatim.
    pub generics: GenericsDecl,
    /// The bound fields, in declaration order.
    pub data: Vec<FieldReceiver>,
    /// An optional identifier to use for the generated struct.
    pub rename: Option<String>,
    /// An optional list of capability paths for the generated struct to
    /// derive.
    pub derive: Option<Vec<String>>,
    /// Annotations to prepend verbatim to the generated struct.
    pub additional_attrs: Vec<MetaAttribute>,
    /// A flag suppressing the forwarding of the struct's own annotations.
    pub skip_attrs: bool,
    /// An optional path to the supporting library.
    pub krate: Option<String>,
}

/// Mathematical model of [`DeriveReceiver`].
pub struct DeriveReceiverV {
    pub ident: Seq<char>,
    pub vis: Seq<char>,
    pub attrs: Seq<AnnotationV>,
    pub generics: GenericsV,
    pub data: Seq<FieldReceiverV>,
    pub rename: Option<Seq<char>>,
    pub derive: Option<Seq<Seq<char>>>,
    pub additional_attrs: Seq<AnnotationV>,
    pub skip_attrs: bool,
    pub krate: Option<Seq<char>>,
}

impl View for DeriveReceiver {
    type V = DeriveReceiverV;

    open spec fn view(&self) -> DeriveReceiverV {
        DeriveReceiverV {
            ident: self.ident@,
            vis: self.vis@,
            attrs: self.attrs.deep_view(),
            generics: self.generics@,
            data: self.data.deep_view(),
            rename: self.rename.deep_view(),
            derive: self.derive.deep_view(),
            additional_attrs: self.additional_attrs.deep_view(),
            skip_attrs: self.skip_attrs,
            krate: self.krate.deep_view(),
        }
    }
}

/// The receiver that a schema binds to: nothing but a struct is supported;
/// the struct options and every field must bind and validate.
pub open spec fn spec_derive_receiver(s: StructSchemaV) -> Result<
    DeriveReceiverV,
    Seq<DiagnosticV>,
> {
    match s.data {
        crate::schema::SchemaDataV::Struct(fields) => match spec_struct_options(s.attrs) {
            Err(es) => Err(es),
            Ok(opts) => match spec_bind_fields(fields) {
                Err(es) => Err(es),
                Ok(fvs) => Ok(
                    DeriveReceiverV {
                        ident: s.ident,
                        vis: s.vis,
                        attrs: spec_forwarded_attrs(s.attrs),
                        generics: s.generics,
                        data: fvs,
                        rename: opts.rename,
                        derive: opts.derive,
                        additional_attrs: opts.additional_attrs,
                        skip_attrs: opts.skip_attrs,
                        krate: opts.krate,
                    },
                ),
            },
        },
        _ => Err(seq![DiagnosticV::UnsupportedShape]),
    }
}

fn one_diag(e: Diagnostic) -> (r: Vec<Diagnostic>)
    ensures
        r.deep_view() =~= seq![e@],
{
    let mut v: Vec<Diagnostic> = Vec::new();
    v.push(e);
    v
}

impl DeriveReceiver {
    /// Binds the struct options and every field of a schema. The
    /// `partially` annotations are consumed; the rest are forwarded.
    pub fn from_schema(schema: &StructSchema) -> (r: Result<DeriveReceiver, Vec<Diagnostic>>)
        ensures
            r matches Ok(d) ==> spec_derive_receiver(schema@) == Ok::<
                DeriveReceiverV,
                Seq<DiagnosticV>,
            >(d@),
            r matches Err(ds) ==> spec_derive_receiver(schema@) == Err::<
                DeriveReceiverV,
                Seq<DiagnosticV>,
            >(ds.deep_view()),
    {
        let fields = match &schema.data {
            SchemaData::Struct(fields) => fields,
            _ => {
                return Err(one_diag(Diagnostic::UnsupportedShape));
            },
        };
        let ghost anns = schema.attrs.deep_view();
        let mut rename: Option<String> = None;
        let mut derive: Option<Vec<String>> = None;
        let mut additional_attrs: Vec<MetaAttribute> = Vec::new();
        let mut skip_attrs: bool = false;
        let mut krate: Option<String> = None;
        let mut diags: Vec<Diagnostic> = Vec::new();
        let mut forwarded: Vec<Annotation> = Vec::new();
        let mut i: usize = 0;
        proof {
            assert(anns.skip(0) =~= anns);
            assert(anns.subrange(0, 0) =~= Seq::<AnnotationV>::empty());
            assert(forwarded.deep_view() =~= Seq::<AnnotationV>::empty());
            assert(additional_attrs.deep_view() =~= Seq::<AnnotationV>::empty());
            assert(diags.deep_view() =~= Seq::<DiagnosticV>::empty());
        }
        while i < schema.attrs.len()
            invariant
                i <= schema.attrs@.len(),
                schema@.data == crate::schema::SchemaDataV::Struct(fields.deep_view()),
                anns == schema.attrs.deep_view(),
                anns.len() == schema.attrs@.len(),
                forall|j: int| 0 <= j < schema.attrs@.len() ==> schema.attrs@[j].deep_view()
                    == anns[j],
                forwarded.deep_view() == spec_forwarded_attrs(anns.subrange(0, i as int)),
                spec_fold_struct_annotations(anns, spec_empty_struct_options(), Seq::empty())
                    == spec_fold_struct_annotations(
                    anns.skip(i as int),
                    StructOptionsV {
                        rename: rename.deep_view(),
                        derive: derive.deep_view(),
                        additional_attrs: additional_attrs.deep_view(),
                        skip_attrs: skip_attrs,
                        krate: krate.deep_view(),
                    },
                    diags.deep_view(),
                ),
            decreases schema.attrs@.len() - i,
        {
            let ghost suffix = anns.skip(i as int);
            let ghost prefix = anns.subrange(0, i as int);
            proof {
                assert(suffix[0] == anns[i as int]);
                assert(suffix.drop_first() =~= anns.skip(i as int + 1));
                assert(anns.subrange(0, i as int + 1) =~= prefix.push(anns[i as int]));
                assert(prefix.push(anns[i as int]).drop_last() =~= prefix);
            }
            let attr = &schema.attrs[i];
            if Symbol::Partially.matches(attr.path.as_str()) {
                match &attr.args {
                    AnnArgs::List(_, ts) => {
                        if ts.len() > 0 {
                            match parse_meta_items(ts) {
                                Ok(mut items) => {
                                    while items.len() > 0
                                        invariant
                                            anns == schema.attrs.deep_view(),
                                            schema@.data == crate::schema::SchemaDataV::Struct(
                                                fields.deep_view(),
                                            ),
                                            spec_fold_struct_annotations(
                                                anns,
                                                spec_empty_struct_options(),
                                                Seq::empty(),
                                            ) == ({
                                                let folded = spec_fold_struct_items(
                                                    items.deep_view(),
                                                    StructOptionsV {
                                                        rename: rename.deep_view(),
                                                        derive: derive.deep_view(),
                                                        additional_attrs:
                                                            additional_attrs.deep_view(),
                                                        skip_attrs: skip_attrs,
                                                        krate: krate.deep_view(),
                                                    },
                                                    diags.deep_view(),
                                                );
                                                spec_fold_struct_annotations(
                                                    anns.skip(i as int + 1),
                                                    folded.0,
                                                    folded.1,
                                                )
                                            }),
                                        decreases items@.len(),
                                    {
                                        let ghost items_view = items.deep_view();
                                        let item = items.remove(0);
                                        proof {
                                            assert(items.deep_view()
                                                =~= items_view.drop_first());
                                            assert(item.deep_view() == items_view[0]);
                                        }
                                        let ghost diags_before = diags.deep_view();
                                        if Symbol::Rename.matches(item.path.as_str()) {
                                            match Argument::parse(&item) {
                                                Ok(Argument::WithLiteral(_, v)) => {
                                                    rename = Some(v);
                                                },
                                                Ok(_) => {
                                                    let e = Diagnostic::UnsupportedArgument(
                                                        item.path,
                                                    );
                                                    let ghost ev = e@;
                                                    diags.push(e);
                                                    proof {
                                                        assert(diags.deep_view()
                                                            =~= diags_before.push(ev));
                                                    }
                                                },
                                                Err(e) => {
                                                    let ghost ev = e@;
                                                    diags.push(e);
                                                    proof {
                                                        assert(diags.deep_view()
                                                            =~= diags_before.push(ev));
                                                    }
                                                },
                                            }
                                        } else if Symbol::Crate.matches(item.path.as_str()) {
                                            match Argument::parse(&item) {
                                                Ok(Argument::WithLiteral(_, v)) => {
                                                    if crate::parse::is_type_text(v.as_str()) {
                                                        krate = Some(v);
                                                    } else {
                                                        let e =
                                                            Diagnostic::UnsupportedArgument(
                                                            item.path,
                                                        );
                                                        let ghost ev = e@;
                                                        diags.push(e);
                                                        proof {
                                                            assert(diags.deep_view()
                                                                =~= diags_before.push(ev));
                                                        }
                                                    }
                                                },
                                                Ok(Argument::WithType(_, t)) => {
                                                    krate = Some(t);
                                                },
                                                Ok(_) => {
                                                    let e = Diagnostic::UnsupportedArgument(
                                                        item.path,
                                                    );
                                                    let ghost ev = e@;
                                                    diags.push(e);
                                                    proof {
                                                        assert(diags.deep_view()
                                                            =~= diags_before.push(ev));
                                                    }
                                                },
                                                Err(e) => {
                                                    let ghost ev = e@;
                                                    diags.push(e);
                                                    proof {
                                                        assert(diags.deep_view()
                                                            =~= diags_before.push(ev));
                                                    }
                                                },
                                            }
                                        } else if Symbol::Derive.matches(item.path.as_str()) {
                                            match &item.args {
                                                AnnArgs::List(_, dts) => {
                                                    proof {
                                                        assert(dts@.skip(0) =~= dts@);
                                                    }
                                                    match path_list_from(dts, 0) {
                                                        Ok(paths) => {
                                                            derive = Some(paths);
                                                        },
                                                        Err(e) => {
                                                            let ghost ev = e@;
                                                            diags.push(e);
                                                            proof {
                                                                assert(diags.deep_view()
                                                                    =~= diags_before.push(
                                                                    ev,
                                                                ));
                                                            }
                                                        },
                                                    }
                                                },
                                                _ => {
                                                    let e = Diagnostic::UnsupportedArgument(
                                                        item.path,
                                                    );
                                                    let ghost ev = e@;
                                                    diags.push(e);
                                                    proof {
                                                        assert(diags.deep_view()
                                                            =~= diags_before.push(ev));
                                                    }
                                                },
                                            }
                                        } else if Symbol::Attribute.matches(
                                            item.path.as_str(),
                                        ) {
                                            match &item.args {
                                                AnnArgs::List(_, ats) => {
                                                    match MetaAttribute::from_meta(ats) {
                                                        Ok(m) => {
                                                            let ghost before =
                                                                additional_attrs.deep_view();
                                                            additional_attrs.push(m);
                                                            proof {
                                                                assert(additional_attrs
                                                                    .deep_view() =~= before.push(
                                                                    m@,
                                                                ));
                                                            }
                                                        },
                                                        Err(e) => {
                                                            let ghost ev = e@;
                                                            diags.push(e);
                                                            proof {
                                                                assert(diags.deep_view()
                                                                    =~= diags_before.push(
                                                                    ev,
                                                                ));
                                                            }
                                                        },
                                                    }
                                                },
                                                _ => {
                                                    let e = Diagnostic::UnsupportedArgument(
                                                        item.path,
                                                    );
                                                    let ghost ev = e@;
                                                    diags.push(e);
                                                    proof {
                                                        assert(diags.deep_view()
                                                            =~= diags_before.push(ev));
                                                    }
                                                },
                                            }
                                        } else if Symbol::SkipAttributes.matches(
                                            item.path.as_str(),
                                        ) {
                                            match &item.args {
                                                AnnArgs::Bare => {
                                                    skip_attrs = true;
                                                },
                                                _ => {
                                                    let e = Diagnostic::UnsupportedArgument(
                                                        item.path,
                                                    );
                                                    let ghost ev = e@;
                                                    diags.push(e);
                                                    proof {
                                                        assert(diags.deep_view()
                                                            =~= diags_before.push(ev));
                                                    }
                                                },
                                            }
                                        } else {
                                            let e = Diagnostic::UnsupportedArgument(item.path);
                                            let ghost ev = e@;
                                            diags.push(e);
                                            proof {
                                                assert(diags.deep_view()
                                                    =~= diags_before.push(ev));
                                            }
                                        }
                                    }
                                    proof {
                                        assert(items.deep_view()
                                            =~= Seq::<AnnotationV>::empty());
                                    }
                                },
                                Err(e) => {
                                    let ghost diags_before = diags.deep_view();
                                    let ghost ev = e@;
                                    diags.push(e);
                                    proof {
                                        assert(diags.deep_view() =~= diags_before.push(ev));
                                    }
                                },
                            }
                        }
                    },
                    _ => {
                        let ghost diags_before = diags.deep_view();
                        let e = Diagnostic::SyntaxError(attr.path.clone());
                        let ghost ev = e@;
                        diags.push(e);
                        proof {
                            assert(diags.deep_view() =~= diags_before.push(ev));
                        }
                    },
                }
            } else {
                let dup = attr.duplicate();
                forwarded.push(dup);
                proof {
                    assert(spec_forwarded_attrs(prefix.push(anns[i as int]))
                        =~= spec_forwarded_attrs(prefix).push(anns[i as int]));
                    assert(forwarded.deep_view() =~= spec_forwarded_attrs(
                        anns.subrange(0, i as int + 1),
                    ));
                }
            }
            i += 1;
        }
        proof {
            assert(anns.skip(anns.len() as int) =~= Seq::<AnnotationV>::empty());
            assert(anns.subrange(0, anns.len() as int) =~= anns);
        }
        if diags.len() > 0 {
            return Err(diags);
        }
        proof {
            assert(diags.deep_view() =~= Seq::<DiagnosticV>::empty());
        }
        // bind the fields in declaration order
        let ghost fields_view = fields.deep_view();
        let mut data: Vec<FieldReceiver> = Vec::new();
        let mut fi: usize = 0;
        proof {
            assert(fields_view.skip(0) =~= fields_view);
            assert(data.deep_view() =~= Seq::<FieldReceiverV>::empty());
        }
        while fi < fields.len()
            invariant
                fi <= fields@.len(),
                schema@.data == crate::schema::SchemaDataV::Struct(fields.deep_view()),
                anns == schema.attrs.deep_view(),
                forwarded.deep_view() == spec_forwarded_attrs(anns),
                spec_struct_options(anns) == Ok::<StructOptionsV, Seq<DiagnosticV>>(
                    StructOptionsV {
                        rename: rename.deep_view(),
                        derive: derive.deep_view(),
                        additional_attrs: additional_attrs.deep_view(),
                        skip_attrs: skip_attrs,
                        krate: krate.deep_view(),
                    },
                ),
                fields_view == fields.deep_view(),
                fields_view.len() == fields@.len(),
                forall|j: int| 0 <= j < fields@.len() ==> fields@[j].deep_view()
                    == fields_view[j],
                spec_bind_fields(fields_view) == match spec_bind_fields(
                    fields_view.skip(fi as int),
                ) {
                    Err(es) => Err::<Seq<FieldReceiverV>, Seq<DiagnosticV>>(es),
                    Ok(rest) => Ok::<Seq<FieldReceiverV>, Seq<DiagnosticV>>(
                        data.deep_view() + rest,
                    ),
                },
            decreases fields@.len() - fi,
        {
            let ghost fsuffix = fields_view.skip(fi as int);
            proof {
                assert(fsuffix[0] == fields_view[fi as int]);
                assert(fsuffix.drop_first() =~= fields_view.skip(fi as int + 1));
            }
            let fv = match FieldReceiver::from_field(&fields[fi]) {
                Ok(fv) => fv,
                Err(ds) => {
                    return Err(ds);
                },
            };
            match fv.validate() {
                Ok(_) => {},
                Err(ds) => {
                    return Err(ds);
                },
            }
            let ghost data_before = data.deep_view();
            data.push(fv);
            proof {
                assert(data.deep_view() =~= data_before.push(fv@));
                match spec_bind_fields(fields_view.skip(fi as int + 1)) {
                    Ok(rest) => {
                        assert(data_before + (seq![fv@] + rest) =~= data.deep_view() + rest);
                    },
                    Err(_) => {},
                }
            }
            fi += 1;
        }
        proof {
            assert(fields_view.skip(fields_view.len() as int)
                =~= Seq::<crate::schema::FieldSchemaV>::empty());
            assert(data.deep_view() + Seq::<FieldReceiverV>::empty() =~= data.deep_view());
        }
        Ok(
            DeriveReceiver {
                ident: schema.ident.clone(),
                vis: schema.vis.clone(),
                attrs: forwarded,
                generics: GenericsDecl {
                    params: duplicate_params(&schema.generics.params),
                    where_clause: schema.generics.where_clause.clone(),
                },
                data,
                rename,
                derive,
                additional_attrs,
                skip_attrs,
                krate,
            },
        )
    }
}

/// The mirrored struct: the assembled output type declaration.
#[derive(Debug)]
pub struct MirroredStruct {
    /// Its annotations: the derived-capabilities annotation first, then the
    /// forwarded annotations, then the explicitly added ones.
    pub anns: Vec<Annotation>,
    /// The visibility, copied verbatim from the base struct.
    pub vis: String,
    /// The resolved output identifier.
    pub ident: String,
    /// The generics, copied verbatim from the base struct.
    pub generics: GenericsDecl,
    /// The generated fields, omitted fields excluded, in declaration order.
    pub fields: Vec<OutField>,
}

/// Mathematical model of [`MirroredStruct`].
pub struct MirroredStructV {
    pub anns: Seq<AnnotationV>,
    pub vis: Seq<char>,
    pub ident: Seq<char>,
    pub generics: GenericsV,
    pub fields: Seq<OutFieldV>,
}

impl View for MirroredStruct {
    type V = MirroredStructV;

    open spec fn view(&self) -> MirroredStructV {
        MirroredStructV {
            anns: self.anns.deep_view(),
            vis: self.vis@,
            ident: self.ident@,
            generics: self.generics@,
            fields: self.fields.deep_view(),
        }
    }
}

/// The annotations rendered in order, each followed by one space.
pub open spec fn spec_render_annotations_spaced(anns: Seq<AnnotationV>) -> Seq<char>
    decreases anns.len(),
{
    if anns.len() == 0 {
        Seq::empty()
    } else {
        spec_render_annotations_spaced(anns.drop_last()) + crate::annotation::spec_render_annotation(
            anns.last(),
        ) + " "@
    }
}

/// A visibility prefix: the visibility text followed by one space, or
/// empty text for inherited visibility.
pub open spec fn spec_vis_part(vis: Seq<char>) -> Seq<char> {
    if vis.len() == 0 {
        Seq::empty()
    } else {
        vis + " "@
    }
}

/// The text of one generated field: its annotations, its visibility, and
/// `name : type`.
pub open spec fn spec_render_out_field(f: OutFieldV) -> Seq<char> {
    spec_render_annotations_spaced(f.attrs) + spec_vis_part(f.vis) + f.name + " : "@ + f.ty
}

/// The text of the mirrored struct declaration.
pub open spec fn spec_render_mirrored(m: MirroredStructV) -> Seq<char> {
    spec_render_annotations_spaced(m.anns) + spec_vis_part(m.vis) + "struct "@ + m.ident + (
    if m.generics.params.len() == 0 {
        Seq::<char>::empty()
    } else {
        " "@ + crate::schema::spec_ty_generics_text(m.generics)
    }) + (if m.generics.where_clause.len() == 0 {
        Seq::<char>::empty()
    } else {
        " "@ + m.generics.where_clause
    }) + (if m.fields.len() == 0 {
        " { }"@
    } else {
        " { "@ + crate::token_vec::spec_join_with(
            m.fields.map_values(|f: OutFieldV| spec_render_out_field(f)),
            " , "@,
        ) + " }"@
    })
}

fn render_annotations_spaced(anns: &Vec<Annotation>) -> (r: String)
    ensures
        r@ == spec_render_annotations_spaced(anns.deep_view()),
{
    let mut out = String::new();
    let mut i: usize = 0;
    proof {
        assert(anns.deep_view().subrange(0, 0) =~= Seq::<AnnotationV>::empty());
    }
    while i < anns.len()
        invariant
            i <= anns@.len(),
            anns.deep_view().len() == anns@.len(),
            forall|j: int| 0 <= j < anns@.len() ==> anns@[j].deep_view() == anns.deep_view()[j],
            out@ == spec_render_annotations_spaced(anns.deep_view().subrange(0, i as int)),
        decreases anns@.len() - i,
    {
        let ghost prefix = anns.deep_view().subrange(0, i as int);
        let ghost a = anns.deep_view()[i as int];
        proof {
            assert(anns.deep_view().subrange(0, i as int + 1) =~= prefix.push(a));
            assert(prefix.push(a).drop_last() =~= prefix);
        }
        let text = (&anns[i]).render();
        out.append(text.as_str());
        out.append(" ");
        proof {
            assert(out@ =~= spec_render_annotations_spaced(
                anns.deep_view().subrange(0, i as int + 1),
            ));
        }
        i += 1;
    }
    proof {
        assert(anns.deep_view().subrange(0, anns.deep_view().len() as int) =~= anns.deep_view());
    }
    out
}

impl OutField {
    /// Renders this generated field.
    pub fn render(&self) -> (r: String)
        ensures
            r@ == spec_render_out_field(self@),
    {
        let mut out = render_annotations_spaced(&self.attrs);
        if !self.vis.as_str().is_empty() {
            out.append(self.vis.as_str());
            out.append(" ");
        }
        out.append(self.name.as_str());
        out.append(" : ");
        out.append(self.ty.as_str());
        proof {
            assert(out@ =~= spec_render_out_field(self@));
        }
        out
    }
}

impl MirroredStruct {
    /// Renders the mirrored struct declaration.
    #[verifier::rlimit(50)]
    pub fn render(&self) -> (r: String)
        ensures
            r@ == spec_render_mirrored(self@),
    {
        let mut out = render_annotations_spaced(&self.anns);
        if !self.vis.as_str().is_empty() {
            out.append(self.vis.as_str());
            out.append(" ");
        }
        out.append("struct ");
        out.append(self.ident.as_str());
        if self.generics.params.len() > 0 {
            let tg = self.generics.ty_generics();
            out.append(" ");
            out.append(tg.as_str());
        }
        if !self.generics.where_clause.as_str().is_empty() {
            out.append(" ");
            out.append(self.generics.where_clause.as_str());
        }
        if self.fields.len() == 0 {
            out.append(" { }");
        } else {
            let mut pieces: Vec<String> = Vec::new();
            let mut i: usize = 0;
            proof {
                assert(pieces.deep_view() =~= self.fields.deep_view().map_values(
                    |f: OutFieldV| spec_render_out_field(f),
                ).subrange(0, 0));
            }
            while i < self.fields.len()
                invariant
                    i <= self.fields@.len(),
                    self.fields.deep_view().len() == self.fields@.len(),
                    forall|j: int| 0 <= j < self.fields@.len() ==> self.fields@[j].deep_view()
                        == self.fields.deep_view()[j],
                    pieces.deep_view() =~= self.fields.deep_view().map_values(
                        |f: OutFieldV| spec_render_out_field(f),
                    ).subrange(0, i as int),
                decreases self.fields@.len() - i,
            {
                let text = (&self.fields[i]).render();
                pieces.push(text);
                proof {
                    let texts = self.fields.deep_view().map_values(
                        |f: OutFieldV| spec_render_out_field(f),
                    );
                    assert(texts.subrange(0, i as int + 1) =~= texts.subrange(0, i as int).push(
                        texts[i as int],
                    ));
                    assert(pieces.deep_view() =~= texts.subrange(0, i as int + 1));
                }
                i += 1;
            }
            proof {
                let texts = self.fields.deep_view().map_values(
                    |f: OutFieldV| spec_render_out_field(f),
                );
                assert(texts.subrange(0, texts.len() as int) =~= texts);
            }
            let joined = crate::token_vec::TokenVec::new_with_vec_and_sep(
                pieces,
                crate::token_vec::Separator::CommaNewline,
            ).render();
            out.append(" { ");
            out.append(joined.as_str());
            out.append(" }");
        }
        proof {
            assert(out@ =~= spec_render_mirrored(self@));
        }
        out
    }
}

/// The default output identifier for a base identifier.
pub open spec fn spec_default_name(ident: Seq<char>) -> Seq<char> {
    "Partial"@ + ident
}

/// The output identifier: the struct-level rename when present, else the
/// default.
pub open spec fn spec_output_name(rename: Option<Seq<char>>, ident: Seq<char>) -> Seq<char> {
    match rename {
        Some(n) => n,
        None => spec_default_name(ident),
    }
}

/// The capability paths as tokens, comma-separated.
pub open spec fn spec_comma_tokens(paths: Seq<Seq<char>>) -> Seq<TokenV>
    decreases paths.len(),
{
    if paths.len() == 0 {
        Seq::empty()
    } else if paths.len() == 1 {
        seq![TokenV::Ident(paths[0])]
    } else {
        spec_comma_tokens(paths.drop_last()) + seq![
            TokenV::Punct(',', Spacing::Alone),
            TokenV::Ident(paths.last()),
        ]
    }
}

/// The derive annotation listing the given capability paths.
pub open spec fn spec_derive_annotation(paths: Seq<Seq<char>>) -> AnnotationV {
    AnnotationV { path: "derive"@, args: AnnArgsV::List(Delim::Paren, spec_comma_tokens(paths)) }
}

/// The annotations with every `derive` annotation left out, in order.
pub open spec fn spec_non_derive(anns: Seq<AnnotationV>) -> Seq<AnnotationV>
    decreases anns.len(),
{
    if anns.len() == 0 {
        Seq::empty()
    } else if anns.last().path != Symbol::Derive.spec_text() {
        spec_non_derive(anns.drop_last()).push(anns.last())
    } else {
        spec_non_derive(anns.drop_last())
    }
}

/// The annotations of the mirrored struct, in their fixed order: one
/// derive annotation when a derive list was given; then, unless
/// `skip_attributes` was given, the base struct's own annotations except
/// its derive annotations, verbatim and in original order; then the
/// explicitly added annotations, in declaration order, regardless of
/// `skip_attributes`.
pub open spec fn spec_output_annotations(d: DeriveReceiverV) -> Seq<AnnotationV> {
    (match d.derive {
        Some(paths) => seq![spec_derive_annotation(paths)],
        None => Seq::empty(),
    }) + (if d.skip_attrs {
        Seq::empty()
    } else {
        spec_non_derive(d.attrs)
    }) + d.additional_attrs
}

/// The generated fields of the bound fields, omitted fields excluded, in
/// declaration order.
pub open spec fn spec_out_fields(fs: Seq<FieldReceiverV>) -> Seq<OutFieldV>
    decreases fs.len(),
{
    if fs.len() == 0 {
        Seq::empty()
    } else {
        let rest = spec_out_fields(fs.drop_last());
        match spec_out_field(fs.last()) {
            Some(o) => rest.push(o),
            None => rest,
        }
    }
}

/// The mirrored struct that a receiver assembles to.
pub open spec fn spec_mirrored(d: DeriveReceiverV) -> MirroredStructV {
    MirroredStructV {
        anns: spec_output_annotations(d),
        vis: d.vis,
        ident: spec_output_name(d.rename, d.ident),
        generics: d.generics,
        fields: spec_out_fields(d.data),
    }
}

/// Naming default: absent a struct-level rename, the output identifier is
/// exactly `Partial` concatenated with the base identifier.
pub proof fn lemma_naming_default(d: DeriveReceiverV)
    requires
        d.rename is None,
    ensures
        spec_mirrored(d).ident == "Partial"@ + d.ident,
{
}

/// Attribute forwarding: when `skip_attributes` is absent, the output
/// annotations are exactly the derive annotation (when a derive list was
/// given), then every one of the base struct's forwarded annotations
/// except its derive annotations, verbatim and in original order, then the
/// explicitly added annotations in declaration order.
pub proof fn lemma_attribute_forwarding(d: DeriveReceiverV)
    requires
        !d.skip_attrs,
    ensures
        spec_mirrored(d).anns == (match d.derive {
            Some(paths) => seq![spec_derive_annotation(paths)],
            None => Seq::<AnnotationV>::empty(),
        }) + spec_non_derive(d.attrs) + d.additional_attrs,
{
}

fn comma_tokens(paths: &Vec<String>) -> (r: Vec<Token>)
    ensures
        tokens_view(r@) == spec_comma_tokens(paths.deep_view()),
{
    let mut out: Vec<Token> = Vec::new();
    let mut i: usize = 0;
    proof {
        assert(paths.deep_view().subrange(0, 0) =~= Seq::<Seq<char>>::empty());
        assert(tokens_view(out@) =~= Seq::<TokenV>::empty());
    }
    while i < paths.len()
        invariant
            i <= paths@.len(),
            paths.deep_view().len() == paths@.len(),
            forall|j: int| 0 <= j < paths@.len() ==> paths@[j]@ == paths.deep_view()[j],
            tokens_view(out@) == spec_comma_tokens(paths.deep_view().subrange(0, i as int)),
        decreases paths@.len() - i,
    {
        let ghost prefix = paths.deep_view().subrange(0, i as int);
        let ghost before = out@;
        if i > 0 {
            out.push(Token::Punct(',', Spacing::Alone));
            proof {
                crate::token::lemma_tokens_view_push(before, Token::Punct(',', Spacing::Alone));
            }
        }
        let ghost mid = out@;
        out.push(Token::Ident(paths[i].clone()));
        proof {
            crate::token::lemma_tokens_view_push(mid, Token::Ident(paths@[i as int]));
            let full = paths.deep_view().subrange(0, i as int + 1);
            assert(full.drop_last() =~= prefix);
            assert(full.last() == paths.deep_view()[i as int]);
            if i > 0 {
                assert(tokens_view(out@) =~= spec_comma_tokens(prefix) + seq![
                    TokenV::Punct(',', Spacing::Alone),
                    TokenV::Ident(paths.deep_view()[i as int]),
                ]);
            } else {
                assert(tokens_view(out@) =~= seq![TokenV::Ident(paths.deep_view()[0])]);
            }
        }
        i += 1;
    }
    proof {
        assert(paths.deep_view().subrange(0, paths.deep_view().len() as int)
            =~= paths.deep_view());
    }
    out
}

impl DeriveReceiver {
    /// Assembles the mirrored struct.
    pub fn mirrored(&self) -> (r: MirroredStruct)
        requires
            forall|i: int| 0 <= i < self@.data.len() ==> (#[trigger] self@.data[i].omit
                || self@.data[i].ident is Some),
        ensures
            r@ == spec_mirrored(self@),
    {
        let mut anns: Vec<Annotation> = Vec::new();
        let ghost derive_part: Seq<AnnotationV> = match self@.derive {
            Some(paths) => seq![spec_derive_annotation(paths)],
            None => Seq::empty(),
        };
        match &self.derive {
            Some(paths) => {
                let toks = comma_tokens(paths);
                anns.push(
                    Annotation {
                        path: "derive".to_owned(),
                        args: AnnArgs::List(Delim::Paren, toks),
                    },
                );
                proof {
                    assert(anns.deep_view() =~= derive_part);
                }
            },
            None => {
                proof {
                    assert(anns.deep_view() =~= derive_part);
                }
            },
        }
        if !self.skip_attrs {
            let mut i: usize = 0;
            proof {
                assert(self.attrs.deep_view().subrange(0, 0) =~= Seq::<AnnotationV>::empty());
                assert(anns.deep_view() =~= derive_part + spec_non_derive(
                    self.attrs.deep_view().subrange(0, 0),
                ));
            }
            while i < self.attrs.len()
                invariant
                    i <= self.attrs@.len(),
                    derive_part == (match self@.derive {
                        Some(paths) => seq![spec_derive_annotation(paths)],
                        None => Seq::<AnnotationV>::empty(),
                    }),
                    self.attrs.deep_view().len() == self.attrs@.len(),
                    forall|j: int| 0 <= j < self.attrs@.len() ==> self.attrs@[j].deep_view()
                        == self.attrs.deep_view()[j],
                    anns.deep_view() == derive_part + spec_non_derive(
                        self.attrs.deep_view().subrange(0, i as int),
                    ),
                decreases self.attrs@.len() - i,
            {
                let ghost prefix = self.attrs.deep_view().subrange(0, i as int);
                let ghost a = self.attrs.deep_view()[i as int];
                proof {
                    assert(self.attrs.deep_view().subrange(0, i as int + 1)
                        =~= prefix.push(a));
                    assert(prefix.push(a).drop_last() =~= prefix);
                }
                let attr = &self.attrs[i];
                if !Symbol::Derive.matches(attr.path.as_str()) {
                    let ghost before = anns.deep_view();
                    let dup = attr.duplicate();
                    anns.push(dup);
                    proof {
                        assert(anns.deep_view() =~= before.push(a));
                        assert(anns.deep_view() =~= derive_part + spec_non_derive(
                            self.attrs.deep_view().subrange(0, i as int + 1),
                        ));
                    }
                }
                i += 1;
            }
            proof {
                assert(self.attrs.deep_view().subrange(0, self.attrs.deep_view().len() as int)
                    =~= self.attrs.deep_view());
            }
        }
        let ghost head = anns.deep_view();
        let mut i: usize = 0;
        proof {
            assert(self.additional_attrs.deep_view().subrange(0, 0)
                =~= Seq::<AnnotationV>::empty());
            assert(anns.deep_view() =~= head + self.additional_attrs.deep_view().subrange(0, 0));
        }
        while i < self.additional_attrs.len()
            invariant
                i <= self.additional_attrs@.len(),
                head == derive_part + (if self@.skip_attrs {
                    Seq::<AnnotationV>::empty()
                } else {
                    spec_non_derive(self@.attrs)
                }),
                derive_part == (match self@.derive {
                    Some(paths) => seq![spec_derive_annotation(paths)],
                    None => Seq::<AnnotationV>::empty(),
                }),
                self.additional_attrs.deep_view().len() == self.additional_attrs@.len(),
                forall|j: int| 0 <= j < self.additional_attrs@.len()
                    ==> self.additional_attrs@[j].deep_view()
                    == self.additional_attrs.deep_view()[j],
                anns.deep_view() == head + self.additional_attrs.deep_view().subrange(
                    0,
                    i as int,
                ),
            decreases self.additional_attrs@.len() - i,
        {
            let ghost prefix = self.additional_attrs.deep_view().subrange(0, i as int);
            let ghost a = self.additional_attrs.deep_view()[i as int];
            let ghost before = anns.deep_view();
            let dup = (&self.additional_attrs[i].attr).duplicate();
            anns.push(dup);
            proof {
                assert(self.additional_attrs.deep_view().subrange(0, i as int + 1)
                    =~= prefix.push(a));
                assert(anns.deep_view() =~= before.push(a));
                assert(anns.deep_view() =~= head + self.additional_attrs.deep_view().subrange(
                    0,
                    i as int + 1,
                ));
            }
            i += 1;
        }
        proof {
            assert(self.additional_attrs.deep_view().subrange(
                0,
                self.additional_attrs.deep_view().len() as int,
            ) =~= self.additional_attrs.deep_view());
            assert(anns.deep_view() =~= spec_output_annotations(self@));
        }
        // the output identifier
        let ident = match &self.rename {
            Some(n) => n.clone(),
            None => {
                let mut s = String::new();
                s.append("Partial");
                s.append(self.ident.as_str());
                proof {
                    assert(s@ =~= spec_default_name(self@.ident));
                }
                s
            },
        };
        // the generated fields, omitted fields excluded
        let mut fields: Vec<OutField> = Vec::new();
        let mut i: usize = 0;
        proof {
            assert(self.data.deep_view().subrange(0, 0) =~= Seq::<FieldReceiverV>::empty());
            assert(fields.deep_view() =~= Seq::<OutFieldV>::empty());
        }
        while i < self.data.len()
            invariant
                i <= self.data@.len(),
                self.data.deep_view().len() == self.data@.len(),
                forall|j: int| 0 <= j < self.data@.len() ==> self.data@[j].deep_view()
                    == self.data.deep_view()[j],
                forall|j: int| 0 <= j < self@.data.len() ==> (#[trigger] self@.data[j].omit
                    || self@.data[j].ident is Some),
                self@.data == self.data.deep_view(),
                fields.deep_view() == spec_out_fields(self.data.deep_view().subrange(
                    0,
                    i as int,
                )),
            decreases self.data@.len() - i,
        {
            let ghost prefix = self.data.deep_view().subrange(0, i as int);
            let ghost fv = self.data.deep_view()[i as int];
            proof {
                assert(self.data.deep_view().subrange(0, i as int + 1) =~= prefix.push(fv));
                assert(prefix.push(fv).drop_last() =~= prefix);
            }
            match (&self.data[i]).out_field() {
                Some(of) => {
                    let ghost before = fields.deep_view();
                    fields.push(of);
                    proof {
                        assert(fields.deep_view() =~= before.push(of@));
                    }
                },
                None => {},
            }
            i += 1;
        }
        proof {
            assert(self.data.deep_view().subrange(0, self.data.deep_view().len() as int)
                =~= self.data.deep_view());
        }
        MirroredStruct {
            anns,
            vis: self.vis.clone(),
            ident,
            generics: GenericsDecl {
                params: duplicate_params(&self.generics.params),
                where_clause: self.generics.where_clause.clone(),
            },
            fields,
        }
    }
}

fn duplicate_params(params: &Vec<crate::schema::GenericParam>) -> (r: Vec<
    crate::schema::GenericParam,
>)
    ensures
        r.deep_view() == params.deep_view(),
{
    let mut out: Vec<crate::schema::GenericParam> = Vec::new();
    let mut i: usize = 0;
    while i < params.len()
        invariant
            i <= params@.len(),
            out@.len() == i,
            forall|j: int| 0 <= j < i ==> out@[j].deep_view() == params@[j].deep_view(),
        decreases params@.len() - i,
    {
        let p = &params[i];
        out.push(crate::schema::GenericParam { name: p.name.clone(), bounds: p.bounds.clone() });
        i += 1;
    }
    proof {
        assert(out.deep_view() =~= params.deep_view());
    }
    out
}

} // verus!
