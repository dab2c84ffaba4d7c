//! Per-field option binding, validation, and the field transformer that
//! computes the generated field.

use vstd::prelude::*;

use crate::annotation::{AnnArgs, AnnArgsV, Annotation, AnnotationV};
use crate::diag::{Diagnostic, DiagnosticV};
use crate::parse::{parse_arguments, spec_parse_arguments, Argument, ArgumentV};
use crate::schema::{FieldSchema, FieldSchemaV};
use crate::symbol::Symbol;

verus! {

/// The options that one field's annotations request.
pub struct FieldOptionsV {
    pub rename: Option<Seq<char>>,
    pub omit: bool,
    pub transparent: bool,
    pub as_type: Option<Seq<char>>,
}

/// The field options with nothing recorded.
pub open spec fn spec_empty_field_options() -> FieldOptionsV {
    FieldOptionsV { rename: None, omit: false, transparent: false, as_type: None }
}

/// One binding step for a field option: `rename` takes a literal, `omit`
/// and `transparent` stand alone, `as_type` takes a type expression or a
/// literal holding one; anything else is an unsupported argument.
pub open spec fn spec_apply_field_argument(acc: FieldOptionsV, arg: ArgumentV) -> Result<
    FieldOptionsV,
    DiagnosticV,
> {
    match arg {
        ArgumentV::Standalone(name) => if name == Symbol::Omit.spec_text() {
            Ok(FieldOptionsV { omit: true, ..acc })
        } else if name == Symbol::Transparent.spec_text() {
            Ok(FieldOptionsV { transparent: true, ..acc })
        } else {
            Err(DiagnosticV::UnsupportedArgument(name))
        },
        ArgumentV::WithLiteral(name, value) => if name == Symbol::Rename.spec_text() {
            Ok(FieldOptionsV { rename: Some(value), ..acc })
        } else if name == Symbol::AsType.spec_text() {
            if crate::parse::parses_as_type(value) {
                Ok(FieldOptionsV { as_type: Some(value), ..acc })
            } else {
                Err(DiagnosticV::UnsupportedArgument(name))
            }
        } else {
            Err(DiagnosticV::UnsupportedArgument(name))
        },
        ArgumentV::WithType(name, ty) => if name == Symbol::AsType.spec_text() {
            Ok(FieldOptionsV { as_type: Some(ty), ..acc })
        } else {
            Err(DiagnosticV::UnsupportedArgument(name))
        },
    }
}

/// The arguments folded in order over the accumulated options. A failing
/// argument adds its diagnostic and leaves the options unchanged, and the
/// fold goes on, so the whole scope's violations are collected.
pub open spec fn spec_fold_field_arguments(
    args: Seq<ArgumentV>,
    acc: FieldOptionsV,
    diags: Seq<DiagnosticV>,
) -> (FieldOptionsV, Seq<DiagnosticV>)
    decreases args.len(),
{
    if args.len() == 0 {
        (acc, diags)
    } else {
        match spec_apply_field_argument(acc, args[0]) {
            Ok(next) => spec_fold_field_arguments(args.drop_first(), next, diags),
            Err(e) => spec_fold_field_arguments(args.drop_first(), acc, diags.push(e)),
        }
    }
}

/// The field's annotations folded in order, as in the generic resolver:
/// one not named `partially` is skipped, an empty payload is skipped, and
/// each non-empty payload is parsed and bound, a parse failure counting as
/// one diagnostic of the scope.
pub open spec fn spec_fold_field_annotations(
    anns: Seq<AnnotationV>,
    acc: FieldOptionsV,
    diags: Seq<DiagnosticV>,
) -> (FieldOptionsV, Seq<DiagnosticV>)
    decreases anns.len(),
{
    if anns.len() == 0 {
        (acc, diags)
    } else {
        let a = anns[0];
        if a.path != Symbol::Partially.spec_text() {
            spec_fold_field_annotations(anns.drop_first(), acc, diags)
        } else {
            match a.args {
                AnnArgsV::List(_, ts) => if ts.len() == 0 {
                    spec_fold_field_annotations(anns.drop_first(), acc, diags)
                } else {
                    match spec_parse_arguments(ts) {
                        Err(e) => spec_fold_field_annotations(
                            anns.drop_first(),
                            acc,
                            diags.push(e),
                        ),
                        Ok(args) => {
                            let folded = spec_fold_field_arguments(args, acc, diags);
                            spec_fold_field_annotations(anns.drop_first(), folded.0, folded.1)
                        },
                    }
                },
                _ => spec_fold_field_annotations(
                    anns.drop_first(),
                    acc,
                    diags.push(DiagnosticV::SyntaxError(a.path)),
                ),
            }
        }
    }
}

/// The options that a field's annotations request, or every diagnostic of
/// the scope, surfaced together.
pub open spec fn spec_field_options(anns: Seq<AnnotationV>) -> Result<
    FieldOptionsV,
    Seq<DiagnosticV>,
> {
    let folded = spec_fold_field_annotations(
        anns,
        spec_empty_field_options(),
        Seq::empty(),
    );
    if folded.1.len() == 0 {
        Ok(folded.0)
    } else {
        Err(folded.1)
    }
}

/// The annotations forwarded to the generated field: all of the field's
/// own annotations except the `partially` ones, in order.
pub open spec fn spec_forwarded_attrs(anns: Seq<AnnotationV>) -> Seq<AnnotationV>
    decreases anns.len(),
{
    if anns.len() == 0 {
        Seq::empty()
    } else if anns.last().path != Symbol::Partially.spec_text() {
        spec_forwarded_attrs(anns.drop_last()).push(anns.last())
    } else {
        spec_forwarded_attrs(anns.drop_last())
    }
}

/// One field's schema together with its bound options.
#[derive(Debug)]
pub struct FieldReceiver {
    /// The ident of the field; for fields of tuple structs this is absent.
    pub ident: Option<String>,
    /// The visibility of the field.
    pub vis: String,
    /// The forwarded annotations of the field.
    pub attrs: Vec<Annotation>,
    /// The declared type of the field.
    pub ty: String,
    /// An optional identifier to use for the generated field.
    pub rename: Option<String>,
    /// A flag indicating that the field is omitted from generation.
    pub omit: bool,
    /// A flag indicating that the field's type is mirrored verbatim rather
    /// than wrapped in the possibly-absent container.
    pub transparent: bool,
    /// An optional type override used verbatim for the generated field.
    pub as_type: Option<String>,
}

/// Mathematical model of [`FieldReceiver`].
pub struct FieldReceiverV {
    pub ident: Option<Seq<char>>,
    pub vis: Seq<char>,
    pub attrs: Seq<AnnotationV>,
    pub ty: Seq<char>,
    pub rename: Option<Seq<char>>,
    pub omit: bool,
    pub transparent: bool,
    pub as_type: Option<Seq<char>>,
}

impl View for FieldReceiver {
    type V = FieldReceiverV;

    open spec fn view(&self) -> FieldReceiverV {
        FieldReceiverV {
            ident: self.ident.deep_view(),
            vis: self.vis@,
            attrs: self.attrs.deep_view(),
            ty: self.ty@,
            rename: self.rename.deep_view(),
            omit: self.omit,
            transparent: self.transparent,
            as_type: self.as_type.deep_view(),
        }
    }
}

impl DeepView for FieldReceiver {
    type V = FieldReceiverV;

    open spec fn deep_view(&self) -> FieldReceiverV {
        self.view()
    }
}

/// The receiver that a field's schema binds to, before validation.
pub open spec fn spec_field_receiver(field: FieldSchemaV) -> Result<
    FieldReceiverV,
    Seq<DiagnosticV>,
> {
    match spec_field_options(field.attrs) {
        Err(es) => Err(es),
        Ok(opts) => Ok(
            FieldReceiverV {
                ident: field.ident,
                vis: field.vis,
                attrs: spec_forwarded_attrs(field.attrs),
                ty: field.ty,
                rename: opts.rename,
                omit: opts.omit,
                transparent: opts.transparent,
                as_type: opts.as_type,
            },
        ),
    }
}

impl FieldReceiver {
    /// Binds one field's options from its schema, collecting every
    /// diagnostic of the scope before failing. The `partially` annotations
    /// are consumed; the rest are forwarded.
    pub fn from_field(field: &FieldSchema) -> (r: Result<FieldReceiver, Vec<Diagnostic>>)
        ensures
            r matches Ok(f) ==> spec_field_receiver(field@) == Ok::<
                FieldReceiverV,
                Seq<DiagnosticV>,
            >(f@),
            r matches Err(ds) ==> spec_field_receiver(field@) == Err::<
                FieldReceiverV,
                Seq<DiagnosticV>,
            >(ds.deep_view()),
    {
        let ghost anns = field.attrs.deep_view();
        let mut rename: Option<String> = None;
        let mut omit: bool = false;
        let mut transparent: bool = false;
        let mut as_type: Option<String> = None;
        let mut diags: Vec<Diagnostic> = Vec::new();
        let mut forwarded: Vec<Annotation> = Vec::new();
        let mut i: usize = 0;
        proof {
            assert(anns.skip(0) =~= anns);
            assert(anns.subrange(0, 0) =~= Seq::<AnnotationV>::empty());
            assert(forwarded.deep_view() =~= Seq::<AnnotationV>::empty());
            assert(diags.deep_view() =~= Seq::<DiagnosticV>::empty());
        }
        while i < field.attrs.len()
            invariant
                i <= field.attrs@.len(),
                anns == field.attrs.deep_view(),
                anns.len() == field.attrs@.len(),
                forall|j: int| 0 <= j < field.attrs@.len() ==> field.attrs@[j].deep_view()
                    == anns[j],
                forwarded.deep_view() == spec_forwarded_attrs(anns.subrange(0, i as int)),
                spec_fold_field_annotations(anns, spec_empty_field_options(), Seq::empty())
                    == spec_fold_field_annotations(
                    anns.skip(i as int),
                    FieldOptionsV {
                        rename: rename.deep_view(),
                        omit: omit,
                        transparent: transparent,
                        as_type: as_type.deep_view(),
                    },
                    diags.deep_view(),
                ),
            decreases field.attrs@.len() - i,
        {
            let ghost suffix = anns.skip(i as int);
            let ghost prefix = anns.subrange(0, i as int);
            proof {
                assert(suffix[0] == anns[i as int]);
                assert(suffix.drop_first() =~= anns.skip(i as int + 1));
                assert(anns.subrange(0, i as int + 1) =~= prefix.push(anns[i as int]));
                assert(prefix.push(anns[i as int]).drop_last() =~= prefix);
            }
            let attr = &field.attrs[i];
            if Symbol::Partially.matches(attr.path.as_str()) {
                proof {
                    assert(spec_forwarded_attrs(prefix.push(anns[i as int]))
                        =~= spec_forwarded_attrs(prefix));
                }
                match &attr.args {
                    AnnArgs::List(_, ts) => {
                        if ts.len() > 0 {
                            match parse_arguments(ts) {
                                Ok(mut rest) => {
                                    while rest.len() > 0
                                        invariant
                                            anns == field.attrs.deep_view(),
                                            spec_fold_field_annotations(
                                                anns,
                                                spec_empty_field_options(),
                                                Seq::empty(),
                                            ) == ({
                                                let folded = spec_fold_field_arguments(
                                                    rest.deep_view(),
                                                    FieldOptionsV {
                                                        rename: rename.deep_view(),
                                                        omit: omit,
                                                        transparent: transparent,
                                                        as_type: as_type.deep_view(),
                                                    },
                                                    diags.deep_view(),
                                                );
                                                spec_fold_field_annotations(
                                                    anns.skip(i as int + 1),
                                                    folded.0,
                                                    folded.1,
                                                )
                                            }),
                                        decreases rest@.len(),
                                    {
                                        let ghost rest_view = rest.deep_view();
                                        let arg = rest.remove(0);
                                        proof {
                                            assert(rest.deep_view()
                                                =~= rest_view.drop_first());
                                            assert(arg.deep_view() == rest_view[0]);
                                        }
                                        let ghost diags_before = diags.deep_view();
                                        match arg {
                                            Argument::Standalone(name) => {
                                                if Symbol::Omit.matches(name.as_str()) {
                                                    omit = true;
                                                } else if Symbol::Transparent.matches(
                                                    name.as_str(),
                                                ) {
                                                    transparent = true;
                                                } else {
                                                    let e = Diagnostic::UnsupportedArgument(
                                                        name,
                                                    );
                                                    let ghost ev = e@;
                                                    diags.push(e);
                                                    proof {
                                                        assert(diags.deep_view()
                                                            =~= diags_before.push(ev));
                                                    }
                                                }
                                            },
                                            Argument::WithLiteral(name, value) => {
                                                if Symbol::Rename.matches(name.as_str()) {
                                                    rename = Some(value);
                                                } else if Symbol::AsType.matches(name.as_str())
                                                    && crate::parse::is_type_text(
                                                    value.as_str(),
                                                ) {
                                                    as_type = Some(value);
                                                } else {
                                                    let e = Diagnostic::UnsupportedArgument(
                                                        name,
                                                    );
                                                    let ghost ev = e@;
                                                    diags.push(e);
                                                    proof {
                                                        assert(diags.deep_view()
                                                            =~= diags_before.push(ev));
                                                    }
                                                }
                                            },
                                            Argument::WithType(name, ty) => {
                                                if Symbol::AsType.matches(name.as_str()) {
                                                    as_type = Some(ty);
                                                } else {
                                                    let e = Diagnostic::UnsupportedArgument(
                                                        name,
                                                    );
                                                    let ghost ev = e@;
                                                    diags.push(e);
                                                    proof {
                                                        assert(diags.deep_view()
                                                            =~= diags_before.push(ev));
                                                    }
                                                }
                                            },
                                        }
                                    }
                                    proof {
                                        assert(rest.deep_view()
                                            =~= Seq::<ArgumentV>::empty());
                                    }
                                },
                                Err(e) => {
                                    let ghost diags_before = diags.deep_view();
                                    let ghost ev = e@;
                                    diags.push(e);
                                    proof {
                                        assert(diags.deep_view() =~= diags_before.push(ev));
                                    }
                                },
                            }
                        }
                    },
                    _ => {
                        let ghost diags_before = diags.deep_view();
                        let e = Diagnostic::SyntaxError(attr.path.clone());
                        let ghost ev = e@;
                        diags.push(e);
                        proof {
                            assert(diags.deep_view() =~= diags_before.push(ev));
                        }
                    },
                }
            } else {
                let dup = attr.duplicate();
                forwarded.push(dup);
                proof {
                    assert(spec_forwarded_attrs(prefix.push(anns[i as int]))
                        =~= spec_forwarded_attrs(prefix).push(anns[i as int]));
                    assert(forwarded.deep_view() =~= spec_forwarded_attrs(
                        anns.subrange(0, i as int + 1),
                    ));
                }
            }
            i += 1;
        }
        proof {
            assert(anns.skip(anns.len() as int) =~= Seq::<AnnotationV>::empty());
            assert(anns.subrange(0, anns.len() as int) =~= anns);
        }
        if diags.len() > 0 {
            return Err(diags);
        }
        proof {
            assert(diags.deep_view() =~= Seq::<DiagnosticV>::empty());
        }
        Ok(
            FieldReceiver {
                ident: match &field.ident {
                    Some(s) => Some(s.clone()),
                    None => None,
                },
                vis: field.vis.clone(),
                attrs: forwarded,
                ty: field.ty.clone(),
                rename,
                omit,
                transparent,
                as_type,
            },
        )
    }
}

/// The diagnostics that validation reports for one bound field, all
/// accumulated before failing: a field with no identifier is rejected;
/// `omit` excludes every other option; `transparent` excludes `as_type`.
pub open spec fn spec_validate(f: FieldReceiverV) -> Seq<DiagnosticV> {
    (if f.ident is None {
        seq![DiagnosticV::MissingIdentifier]
    } else {
        Seq::empty()
    }) + (if f.omit && (f.rename is Some || f.transparent || f.as_type is Some) {
        seq![DiagnosticV::ConflictingOptions("cannot use omit with any other options"@)]
    } else {
        Seq::empty()
    }) + (if f.transparent && f.as_type is Some {
        seq![DiagnosticV::ConflictingOptions("cannot use both transparent and as_type"@)]
    } else {
        Seq::empty()
    })
}

/// One generated field: forwarded annotations, visibility, name, and type.
#[derive(Debug)]
pub struct OutField {
    pub attrs: Vec<Annotation>,
    pub vis: String,
    pub name: String,
    pub ty: String,
}

/// Mathematical model of [`OutField`].
pub struct OutFieldV {
    pub attrs: Seq<AnnotationV>,
    pub vis: Seq<char>,
    pub name: Seq<char>,
    pub ty: Seq<char>,
}

impl View for OutField {
    type V = OutFieldV;

    open spec fn view(&self) -> OutFieldV {
        OutFieldV {
            attrs: self.attrs.deep_view(),
            vis: self.vis@,
            name: self.name@,
            ty: self.ty@,
        }
    }
}

impl DeepView for OutField {
    type V = OutFieldV;

    open spec fn deep_view(&self) -> OutFieldV {
        self.view()
    }
}

/// The default possibly-absent wrapping of a type's text.
pub open spec fn spec_wrap_option(ty: Seq<char>) -> Seq<char> {
    "Option < "@ + ty + " >"@
}

/// The generated field of a bound field. An omitted field yields nothing.
/// Otherwise the name is the rename target if present, else the field's
/// own identifier; the type is the declared type verbatim for a
/// transparent field, the override type verbatim when one is given, and
/// the default wrapping of the declared type otherwise; the field's
/// forwarded annotations and visibility are kept.
pub open spec fn spec_out_field(f: FieldReceiverV) -> Option<OutFieldV> {
    if f.omit {
        None
    } else {
        Some(
            OutFieldV {
                attrs: f.attrs,
                vis: f.vis,
                name: match f.rename {
                    Some(n) => n,
                    None => f.ident.unwrap(),
                },
                ty: if f.transparent {
                    f.ty
                } else {
                    match f.as_type {
                        Some(t) => t,
                        None => spec_wrap_option(f.ty),
                    }
                },
            },
        )
    }
}

impl FieldReceiver {
    /// Checks the mutual exclusion rules, reporting every violation for
    /// this field together.
    pub fn validate(&self) -> (r: Result<(), Vec<Diagnostic>>)
        ensures
            r is Ok <==> spec_validate(self@).len() == 0,
            r matches Err(ds) ==> ds.deep_view() == spec_validate(self@),
    {
        let mut acc: Vec<Diagnostic> = Vec::new();
        if self.ident.is_none() {
            acc.push(Diagnostic::MissingIdentifier);
        }
        if self.omit && (self.rename.is_some() || self.transparent || self.as_type.is_some()) {
            acc.push(
                Diagnostic::ConflictingOptions("cannot use omit with any other options".to_owned()),
            );
        }
        if self.transparent && self.as_type.is_some() {
            acc.push(
                Diagnostic::ConflictingOptions("cannot use both transparent and as_type".to_owned()),
            );
        }
        proof {
            assert(acc.deep_view() =~= spec_validate(self@));
        }
        if acc.len() == 0 {
            Ok(())
        } else {
            Err(acc)
        }
    }

    /// Computes the generated field, or nothing for an omitted field.
    pub fn out_field(&self) -> (r: Option<OutField>)
        requires
            !self@.omit ==> self@.ident is Some,
        ensures
            r.deep_view() == spec_out_field(self@),
    {
        if self.omit {
            return None;
        }
        let name = match &self.rename {
            Some(n) => n.clone(),
            None => {
                match &self.ident {
                    Some(i) => i.clone(),
                    None => {
                        proof {
                            assert(false);
                        }
                        String::new()
                    },
                }
            },
        };
        let ty = if self.transparent {
            self.ty.clone()
        } else {
            match &self.as_type {
                Some(t) => t.clone(),
                None => {
                    let mut s = String::new();
                    s.append("Option < ");
                    s.append(self.ty.as_str());
                    s.append(" >");
                    proof {
                        assert(s@ =~= spec_wrap_option(self@.ty));
                    }
                    s
                },
            }
        };
        let attrs = crate::annotation::duplicate_annotations(&self.attrs);
        Some(OutField { attrs, vis: self.vis.clone(), name, ty })
    }
}

/// Default wrapping: for a field with no options recorded, the generated
/// field keeps the field's name, visibility and forwarded annotations, and
/// its type is the default possibly-absent wrapping of the declared type.
pub proof fn lemma_default_wrapping(f: FieldReceiverV)
    requires
        f.rename is None,
        !f.omit,
        !f.transparent,
        f.as_type is None,
        f.ident is Some,
    ensures
        spec_out_field(f) == Some(
            OutFieldV {
                attrs: f.attrs,
                vis: f.vis,
                name: f.ident.unwrap(),
                ty: spec_wrap_option(f.ty),
            },
        ),
        spec_validate(f).len() == 0,
{
}

/// Omit exclusion: an omitted field yields no generated field, and
/// combining `omit` with `rename`, `transparent` or `as_type` fails
/// validation with a conflicting-options diagnostic.
pub proof fn lemma_omit_exclusion(f: FieldReceiverV)
    requires
        f.omit,
    ensures
        spec_out_field(f) is None,
        f.rename is Some || f.transparent || f.as_type is Some ==> spec_validate(f).contains(
            DiagnosticV::ConflictingOptions("cannot use omit with any other options"@),
        ),
{
    if f.rename is Some || f.transparent || f.as_type is Some {
        let i: int = if f.ident is None {
            1
        } else {
            0
        };
        assert(spec_validate(f)[i] == DiagnosticV::ConflictingOptions(
            "cannot use omit with any other options"@,
        ));
    }
}

/// Renaming: a rename target becomes the generated field's name, letter
/// for letter.
pub proof fn lemma_renaming(f: FieldReceiverV, x: Seq<char>)
    requires
        f.rename == Some(x),
        !f.omit,
    ensures
        spec_out_field(f) matches Some(o) && o.name == x,
{
}

} // verus!
