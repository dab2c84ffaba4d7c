//! The generic option resolver: folds a parsed argument list into an
//! [`OperationSet`], enforcing the mutual exclusion of `transparent` and
//! `as_type` against already-recorded state, so the first of the pair to
//! appear wins and the second is rejected. A failing argument is recorded
//! and resolution continues, so every violation of one scope is surfaced
//! together.

use vstd::prelude::*;

use crate::annotation::{AnnArgs, AnnArgsV, Annotation, AnnotationV};
use crate::ctx::ContextQuery;
use crate::diag::{Diagnostic, DiagnosticV};
use crate::parse::{parse_arguments, spec_parse_arguments, Argument, ArgumentV};
use crate::symbol::Symbol;

verus! {

/// The set of operations that the annotations of one scope request.
#[derive(Debug)]
pub struct OperationSet {
    rename: Option<String>,
    transparent: bool,
    as_type: Option<String>,
}

/// Mathematical model of [`OperationSet`].
pub struct OpSetV {
    pub rename: Option<Seq<char>>,
    pub transparent: bool,
    pub as_type: Option<Seq<char>>,
}

impl View for OperationSet {
    type V = OpSetV;

    closed spec fn view(&self) -> OpSetV {
        OpSetV {
            rename: self.rename.deep_view(),
            transparent: self.transparent,
            as_type: self.as_type.deep_view(),
        }
    }
}

/// The operation set with nothing recorded.
pub open spec fn spec_empty_ops() -> OpSetV {
    OpSetV { rename: None, transparent: false, as_type: None }
}

impl Default for OperationSet {
    fn default() -> (r: Self)
        ensures
            r@ == spec_empty_ops(),
    {
        OperationSet { rename: None, transparent: false, as_type: None }
    }
}

/// One resolution step: dispatches an argument on its name and shape.
/// `rename` is legal in both contexts; `transparent` and `as_type` are
/// legal only in field context and only while the other of the pair has
/// not been recorded; everything else is an unsupported argument.
pub open spec fn spec_apply_argument(is_field: bool, acc: OpSetV, arg: ArgumentV) -> Result<
    OpSetV,
    DiagnosticV,
> {
    match arg {
        ArgumentV::Standalone(name) => if name == Symbol::Transparent.spec_text() && is_field
            && acc.as_type is None {
            Ok(OpSetV { transparent: true, ..acc })
        } else {
            Err(DiagnosticV::UnsupportedArgument(name))
        },
        ArgumentV::WithLiteral(name, value) => if name == Symbol::Rename.spec_text() {
            Ok(OpSetV { rename: Some(value), ..acc })
        } else {
            Err(DiagnosticV::UnsupportedArgument(name))
        },
        ArgumentV::WithType(name, ty) => if name == Symbol::AsType.spec_text() && is_field
            && !acc.transparent {
            Ok(OpSetV { as_type: Some(ty), ..acc })
        } else {
            Err(DiagnosticV::UnsupportedArgument(name))
        },
    }
}

/// The arguments folded in order over the accumulated set. A failing
/// argument adds its diagnostic and leaves the set unchanged, and the fold
/// goes on, so the whole scope's violations are collected.
pub open spec fn spec_resolve_args(
    is_field: bool,
    args: Seq<ArgumentV>,
    acc: OpSetV,
    diags: Seq<DiagnosticV>,
) -> (OpSetV, Seq<DiagnosticV>)
    decreases args.len(),
{
    if args.len() == 0 {
        (acc, diags)
    } else {
        match spec_apply_argument(is_field, acc, args[0]) {
            Ok(next) => spec_resolve_args(is_field, args.drop_first(), next, diags),
            Err(e) => spec_resolve_args(is_field, args.drop_first(), acc, diags.push(e)),
        }
    }
}

/// The annotations folded in order: one not named `partially` is skipped;
/// a `partially` list with an empty payload is skipped; a `partially` list
/// is parsed and its arguments resolved, a parse failure counting as one
/// diagnostic of the scope; a `partially` annotation of any other shape is
/// a syntax error.
pub open spec fn spec_resolve_annotations(
    is_field: bool,
    anns: Seq<AnnotationV>,
    acc: OpSetV,
    diags: Seq<DiagnosticV>,
) -> (OpSetV, Seq<DiagnosticV>)
    decreases anns.len(),
{
    if anns.len() == 0 {
        (acc, diags)
    } else {
        let a = anns[0];
        if a.path != Symbol::Partially.spec_text() {
            spec_resolve_annotations(is_field, anns.drop_first(), acc, diags)
        } else {
            match a.args {
                AnnArgsV::List(_, ts) => if ts.len() == 0 {
                    spec_resolve_annotations(is_field, anns.drop_first(), acc, diags)
                } else {
                    match spec_parse_arguments(ts) {
                        Err(e) => spec_resolve_annotations(
                            is_field,
                            anns.drop_first(),
                            acc,
                            diags.push(e),
                        ),
                        Ok(args) => {
                            let folded = spec_resolve_args(is_field, args, acc, diags);
                            spec_resolve_annotations(
                                is_field,
                                anns.drop_first(),
                                folded.0,
                                folded.1,
                            )
                        },
                    }
                },
                _ => spec_resolve_annotations(
                    is_field,
                    anns.drop_first(),
                    acc,
                    diags.push(DiagnosticV::SyntaxError(a.path)),
                ),
            }
        }
    }
}

/// The operation set that a scope's annotations request, or every
/// diagnostic of the scope, surfaced together.
pub open spec fn spec_operation_set(is_field: bool, anns: Seq<AnnotationV>) -> Result<
    OpSetV,
    Seq<DiagnosticV>,
> {
    let folded = spec_resolve_annotations(is_field, anns, spec_empty_ops(), Seq::empty());
    if folded.1.len() == 0 {
        Ok(folded.0)
    } else {
        Err(folded.1)
    }
}

/// A `transparent` argument is accepted exactly in field context while no
/// override type has been recorded.
pub proof fn lemma_transparent_step(is_field: bool, acc: OpSetV)
    ensures
        spec_apply_argument(
            is_field,
            acc,
            ArgumentV::Standalone(Symbol::Transparent.spec_text()),
        ) is Ok <==> (is_field && acc.as_type is None),
        spec_apply_argument(
            is_field,
            acc,
            ArgumentV::Standalone(Symbol::Transparent.spec_text()),
        ) matches Ok(next) ==> next == (OpSetV { transparent: true, ..acc }),
{
}

/// An `as_type` argument is accepted exactly in field context while
/// `transparent` has not been recorded.
pub proof fn lemma_as_type_step(is_field: bool, acc: OpSetV, ty: Seq<char>)
    ensures
        spec_apply_argument(
            is_field,
            acc,
            ArgumentV::WithType(Symbol::AsType.spec_text(), ty),
        ) is Ok <==> (is_field && !acc.transparent),
        spec_apply_argument(
            is_field,
            acc,
            ArgumentV::WithType(Symbol::AsType.spec_text(), ty),
        ) matches Ok(next) ==> next == (OpSetV { as_type: Some(ty), ..acc }),
{
}

/// The argument fold never discards a collected diagnostic.
pub proof fn lemma_resolve_args_grows(
    is_field: bool,
    args: Seq<ArgumentV>,
    acc: OpSetV,
    diags: Seq<DiagnosticV>,
)
    ensures
        spec_resolve_args(is_field, args, acc, diags).1.len() >= diags.len(),
    decreases args.len(),
{
    if args.len() > 0 {
        match spec_apply_argument(is_field, acc, args[0]) {
            Ok(next) => {
                lemma_resolve_args_grows(is_field, args.drop_first(), next, diags);
            },
            Err(e) => {
                lemma_resolve_args_grows(is_field, args.drop_first(), acc, diags.push(e));
            },
        }
    }
}

/// The annotation fold never discards a collected diagnostic.
pub proof fn lemma_resolve_annotations_grows(
    is_field: bool,
    anns: Seq<AnnotationV>,
    acc: OpSetV,
    diags: Seq<DiagnosticV>,
)
    ensures
        spec_resolve_annotations(is_field, anns, acc, diags).1.len() >= diags.len(),
    decreases anns.len(),
{
    if anns.len() > 0 {
        let a = anns[0];
        if a.path != Symbol::Partially.spec_text() {
            lemma_resolve_annotations_grows(is_field, anns.drop_first(), acc, diags);
        } else {
            match a.args {
                AnnArgsV::List(_, ts) => if ts.len() == 0 {
                    lemma_resolve_annotations_grows(is_field, anns.drop_first(), acc, diags);
                } else {
                    match spec_parse_arguments(ts) {
                        Err(e) => {
                            lemma_resolve_annotations_grows(
                                is_field,
                                anns.drop_first(),
                                acc,
                                diags.push(e),
                            );
                        },
                        Ok(args) => {
                            let folded = spec_resolve_args(is_field, args, acc, diags);
                            lemma_resolve_args_grows(is_field, args, acc, diags);
                            lemma_resolve_annotations_grows(
                                is_field,
                                anns.drop_first(),
                                folded.0,
                                folded.1,
                            );
                        },
                    }
                },
                _ => {
                    lemma_resolve_annotations_grows(
                        is_field,
                        anns.drop_first(),
                        acc,
                        diags.push(DiagnosticV::SyntaxError(a.path)),
                    );
                },
            }
        }
    }
}

/// Once `transparent` is recorded, a later `as_type` argument is rejected,
/// so the fold collects at least one new diagnostic.
proof fn lemma_as_type_rejected_after(
    is_field: bool,
    args: Seq<ArgumentV>,
    acc: OpSetV,
    diags: Seq<DiagnosticV>,
    j: int,
)
    requires
        acc.transparent,
        0 <= j < args.len(),
        args[j] matches ArgumentV::WithType(n, _) && n == Symbol::AsType.spec_text(),
    ensures
        spec_resolve_args(is_field, args, acc, diags).1.len() > diags.len(),
    decreases j,
{
    match spec_apply_argument(is_field, acc, args[0]) {
        Err(e) => {
            lemma_resolve_args_grows(is_field, args.drop_first(), acc, diags.push(e));
        },
        Ok(next) => {
            assert(next.transparent);
            assert(args.drop_first()[j - 1] == args[j]);
            lemma_as_type_rejected_after(is_field, args.drop_first(), next, diags, j - 1);
        },
    }
}

/// Once an override type is recorded, a later `transparent` argument is
/// rejected, so the fold collects at least one new diagnostic.
proof fn lemma_transparent_rejected_after(
    is_field: bool,
    args: Seq<ArgumentV>,
    acc: OpSetV,
    diags: Seq<DiagnosticV>,
    j: int,
)
    requires
        acc.as_type is Some,
        0 <= j < args.len(),
        args[j] == ArgumentV::Standalone(Symbol::Transparent.spec_text()),
    ensures
        spec_resolve_args(is_field, args, acc, diags).1.len() > diags.len(),
    decreases j,
{
    match spec_apply_argument(is_field, acc, args[0]) {
        Err(e) => {
            lemma_resolve_args_grows(is_field, args.drop_first(), acc, diags.push(e));
        },
        Ok(next) => {
            assert(next.as_type is Some);
            assert(args.drop_first()[j - 1] == args[j]);
            lemma_transparent_rejected_after(is_field, args.drop_first(), next, diags, j - 1);
        },
    }
}

/// Mutual exclusion is order-sensitive: when one argument list declares
/// both `transparent` and `as_type`, in either order, at least one of the
/// pair is rejected and the fold collects a new diagnostic. The earlier of
/// the pair is checked against state recorded so far, so it is the one
/// accepted (see [`lemma_transparent_step`] and [`lemma_as_type_step`])
/// and the later one is rejected.
pub proof fn lemma_transparent_as_type_conflict(
    is_field: bool,
    args: Seq<ArgumentV>,
    acc: OpSetV,
    diags: Seq<DiagnosticV>,
    i: int,
    j: int,
)
    requires
        0 <= i < j < args.len(),
        (args[i] == ArgumentV::Standalone(Symbol::Transparent.spec_text()) && (args[j] matches
        ArgumentV::WithType(n, _) && n == Symbol::AsType.spec_text())) || ((args[i] matches
        ArgumentV::WithType(n, _) && n == Symbol::AsType.spec_text()) && args[j]
            == ArgumentV::Standalone(Symbol::Transparent.spec_text())),
    ensures
        spec_resolve_args(is_field, args, acc, diags).1.len() > diags.len(),
    decreases i,
{
    match spec_apply_argument(is_field, acc, args[0]) {
        Err(e) => {
            lemma_resolve_args_grows(is_field, args.drop_first(), acc, diags.push(e));
        },
        Ok(next) => {
            assert(args.drop_first()[j - 1] == args[j]);
            if i == 0 {
                if args[0] == ArgumentV::Standalone(Symbol::Transparent.spec_text()) {
                    assert(next.transparent);
                    lemma_as_type_rejected_after(
                        is_field,
                        args.drop_first(),
                        next,
                        diags,
                        j - 1,
                    );
                } else {
                    assert(next.as_type is Some);
                    lemma_transparent_rejected_after(
                        is_field,
                        args.drop_first(),
                        next,
                        diags,
                        j - 1,
                    );
                }
            } else {
                assert(args.drop_first()[i - 1] == args[i]);
                lemma_transparent_as_type_conflict(
                    is_field,
                    args.drop_first(),
                    next,
                    diags,
                    i - 1,
                    j - 1,
                );
            }
        },
    }
}

/// The conflict lifts to a whole scope: when some `partially` payload of
/// the scope parses to an argument list declaring both `transparent` and
/// `as_type`, in either order, resolving the scope collects a diagnostic
/// there, and the scope's resolution fails.
pub proof fn lemma_conflict_in_scope(
    is_field: bool,
    anns: Seq<AnnotationV>,
    acc: OpSetV,
    diags: Seq<DiagnosticV>,
    k: int,
    i: int,
    j: int,
)
    requires
        0 <= k < anns.len(),
        anns[k].path == Symbol::Partially.spec_text(),
        anns[k].args matches AnnArgsV::List(d, ts) && ts.len() > 0 && (spec_parse_arguments(ts)
        matches Ok(args) && 0 <= i < j < args.len() && ((args[i] == ArgumentV::Standalone(
            Symbol::Transparent.spec_text(),
        ) && (args[j] matches ArgumentV::WithType(n, _) && n == Symbol::AsType.spec_text())) || ((
        args[i] matches ArgumentV::WithType(n, _) && n == Symbol::AsType.spec_text())
            && args[j] == ArgumentV::Standalone(Symbol::Transparent.spec_text())))),
    ensures
        spec_resolve_annotations(is_field, anns, acc, diags).1.len() > diags.len(),
    decreases k,
{
    let a = anns[0];
    if k == 0 {
        match a.args {
            AnnArgsV::List(d, ts) => {
                match spec_parse_arguments(ts) {
                    Ok(args) => {
                        lemma_transparent_as_type_conflict(is_field, args, acc, diags, i, j);
                        let folded = spec_resolve_args(is_field, args, acc, diags);
                        lemma_resolve_annotations_grows(
                            is_field,
                            anns.drop_first(),
                            folded.0,
                            folded.1,
                        );
                    },
                    Err(_) => {
                        assert(false);
                    },
                }
            },
            _ => {
                assert(false);
            },
        }
    } else {
        assert(anns.drop_first()[k - 1] == anns[k]);
        if a.path != Symbol::Partially.spec_text() {
            lemma_conflict_in_scope(is_field, anns.drop_first(), acc, diags, k - 1, i, j);
        } else {
            match a.args {
                AnnArgsV::List(_, ts) => if ts.len() == 0 {
                    lemma_conflict_in_scope(is_field, anns.drop_first(), acc, diags, k - 1, i, j);
                } else {
                    match spec_parse_arguments(ts) {
                        Err(e) => {
                            lemma_conflict_in_scope(
                                is_field,
                                anns.drop_first(),
                                acc,
                                diags.push(e),
                                k - 1,
                                i,
                                j,
                            );
                        },
                        Ok(args) => {
                            let folded = spec_resolve_args(is_field, args, acc, diags);
                            lemma_resolve_args_grows(is_field, args, acc, diags);
                            lemma_conflict_in_scope(
                                is_field,
                                anns.drop_first(),
                                folded.0,
                                folded.1,
                                k - 1,
                                i,
                                j,
                            );
                        },
                    }
                },
                _ => {
                    lemma_conflict_in_scope(
                        is_field,
                        anns.drop_first(),
                        acc,
                        diags.push(DiagnosticV::SyntaxError(a.path)),
                        k - 1,
                        i,
                        j,
                    );
                },
            }
        }
    }
}

/// The conflict makes [`OperationSet::new`]'s whole resolution fail.
pub proof fn lemma_conflict_fails_resolution(
    is_field: bool,
    anns: Seq<AnnotationV>,
    k: int,
    i: int,
    j: int,
)
    requires
        0 <= k < anns.len(),
        anns[k].path == Symbol::Partially.spec_text(),
        anns[k].args matches AnnArgsV::List(d, ts) && ts.len() > 0 && (spec_parse_arguments(ts)
        matches Ok(args) && 0 <= i < j < args.len() && ((args[i] == ArgumentV::Standalone(
            Symbol::Transparent.spec_text(),
        ) && (args[j] matches ArgumentV::WithType(n, _) && n == Symbol::AsType.spec_text())) || ((
        args[i] matches ArgumentV::WithType(n, _) && n == Symbol::AsType.spec_text())
            && args[j] == ArgumentV::Standalone(Symbol::Transparent.spec_text())))),
    ensures
        spec_operation_set(is_field, anns) is Err,
{
    lemma_conflict_in_scope(is_field, anns, spec_empty_ops(), Seq::empty(), k, i, j);
}

impl OperationSet {
    /// Obtains the rename operation value, if any.
    pub fn rename(&self) -> (r: Option<String>)
        ensures
            r.deep_view() == self@.rename,
    {
        match &self.rename {
            Some(s) => Some(s.clone()),
            None => None,
        }
    }

    /// Obtains the transparent operation value.
    pub fn transparent(&self) -> (r: bool)
        ensures
            r == self@.transparent,
    {
        self.transparent
    }

    /// Obtains the as_type operation value, if any.
    pub fn as_type(&self) -> (r: Option<String>)
        ensures
            r.deep_view() == self@.as_type,
    {
        match &self.as_type {
            Some(s) => Some(s.clone()),
            None => None,
        }
    }

    /// Internal check to determine if a rename operation can be added.
    fn supports_rename(&self) -> (r: bool)
        ensures
            r,
    {
        // the caller can always rename
        true
    }

    /// Internal check to determine if a transparent operation can be added.
    fn supports_transparent(&self) -> (r: bool)
        ensures
            r == (self@.as_type is None),
    {
        // the caller can only mark as transparent when as_type isn't present
        self.as_type.is_none()
    }

    /// Internal check to determine if an as_type operation can be added.
    fn supports_as_type(&self) -> (r: bool)
        ensures
            r == !self@.transparent,
    {
        // the caller can only as_type when transparent isn't set
        !self.transparent
    }

    /// One resolution step on this set.
    fn apply_argument(&mut self, is_field: bool, arg: Argument) -> (r: Result<(), Diagnostic>)
        ensures
            r matches Ok(_) ==> spec_apply_argument(is_field, old(self)@, arg@) == Ok::<
                OpSetV,
                DiagnosticV,
            >(final(self)@),
            r matches Err(e) ==> spec_apply_argument(is_field, old(self)@, arg@) == Err::<
                OpSetV,
                DiagnosticV,
            >(e@) && final(self)@ == old(self)@,
    {
        match arg {
            Argument::Standalone(name) => {
                if Symbol::Transparent.matches(name.as_str()) && is_field
                    && self.supports_transparent() {
                    self.transparent = true;
                    Ok(())
                } else {
                    Err(Diagnostic::UnsupportedArgument(name))
                }
            },
            Argument::WithLiteral(name, value) => {
                if Symbol::Rename.matches(name.as_str()) && self.supports_rename() {
                    self.rename = Some(value);
                    Ok(())
                } else {
                    Err(Diagnostic::UnsupportedArgument(name))
                }
            },
            Argument::WithType(name, ty) => {
                if Symbol::AsType.matches(name.as_str()) && is_field && self.supports_as_type() {
                    self.as_type = Some(ty);
                    Ok(())
                } else {
                    Err(Diagnostic::UnsupportedArgument(name))
                }
            },
        }
    }

    /// Creates a new [`OperationSet`] by resolving a set of annotations
    /// within a context, collecting every diagnostic of the scope before
    /// failing.
    pub fn new<Q: ContextQuery>(ctx: &Q, attributes: &Vec<Annotation>) -> (r: Result<
        OperationSet,
        Vec<Diagnostic>,
    >)
        ensures
            r matches Ok(os) ==> spec_operation_set(
                ctx.spec_is_field(),
                attributes.deep_view(),
            ) == Ok::<OpSetV, Seq<DiagnosticV>>(os@),
            r matches Err(ds) ==> spec_operation_set(
                ctx.spec_is_field(),
                attributes.deep_view(),
            ) == Err::<OpSetV, Seq<DiagnosticV>>(ds.deep_view()),
    {
        let is_field = ctx.is_field();
        let ghost anns = attributes.deep_view();
        let mut known: OperationSet = Default::default();
        let mut diags: Vec<Diagnostic> = Vec::new();
        let mut i: usize = 0;
        proof {
            assert(anns.skip(0) =~= anns);
            assert(diags.deep_view() =~= Seq::<DiagnosticV>::empty());
        }
        while i < attributes.len()
            invariant
                i <= attributes@.len(),
                is_field == ctx.spec_is_field(),
                anns == attributes.deep_view(),
                anns.len() == attributes@.len(),
                forall|j: int| 0 <= j < attributes@.len() ==> attributes@[j].deep_view()
                    == anns[j],
                spec_resolve_annotations(is_field, anns, spec_empty_ops(), Seq::empty())
                    == spec_resolve_annotations(
                    is_field,
                    anns.skip(i as int),
                    known@,
                    diags.deep_view(),
                ),
            decreases attributes@.len() - i,
        {
            let ghost suffix = anns.skip(i as int);
            proof {
                assert(suffix[0] == anns[i as int]);
                assert(suffix.drop_first() =~= anns.skip(i as int + 1));
            }
            let attr = &attributes[i];
            if Symbol::Partially.matches(attr.path.as_str()) {
                match &attr.args {
                    AnnArgs::List(_, ts) => {
                        if ts.len() > 0 {
                            match parse_arguments(ts) {
                                Ok(mut rest) => {
                                    while rest.len() > 0
                                        invariant
                                            is_field == ctx.spec_is_field(),
                                            anns == attributes.deep_view(),
                                            spec_resolve_annotations(
                                                is_field,
                                                anns,
                                                spec_empty_ops(),
                                                Seq::empty(),
                                            ) == ({
                                                let folded = spec_resolve_args(
                                                    is_field,
                                                    rest.deep_view(),
                                                    known@,
                                                    diags.deep_view(),
                                                );
                                                spec_resolve_annotations(
                                                    is_field,
                                                    anns.skip(i as int + 1),
                                                    folded.0,
                                                    folded.1,
                                                )
                                            }),
                                        decreases rest@.len(),
                                    {
                                        let ghost rest_view = rest.deep_view();
                                        let arg = rest.remove(0);
                                        proof {
                                            assert(rest.deep_view()
                                                =~= rest_view.drop_first());
                                            assert(arg.deep_view() == rest_view[0]);
                                        }
                                        let ghost diags_before = diags.deep_view();
                                        match known.apply_argument(is_field, arg) {
                                            Ok(_) => {},
                                            Err(e) => {
                                                let ghost ev = e@;
                                                diags.push(e);
                                                proof {
                                                    assert(diags.deep_view()
                                                        =~= diags_before.push(ev));
                                                }
                                            },
                                        }
                                    }
                                    proof {
                                        assert(rest.deep_view()
                                            =~= Seq::<ArgumentV>::empty());
                                    }
                                },
                                Err(e) => {
                                    let ghost diags_before = diags.deep_view();
                                    let ghost ev = e@;
                                    diags.push(e);
                                    proof {
                                        assert(diags.deep_view() =~= diags_before.push(ev));
                                    }
                                },
                            }
                        }
                    },
                    _ => {
                        let ghost diags_before = diags.deep_view();
                        let e = Diagnostic::SyntaxError(attr.path.clone());
                        let ghost ev = e@;
                        diags.push(e);
                        proof {
                            assert(diags.deep_view() =~= diags_before.push(ev));
                        }
                    },
                }
            }
            i += 1;
        }
        proof {
            assert(anns.skip(anns.len() as int) =~= Seq::<AnnotationV>::empty());
        }
        if diags.len() == 0 {
            proof {
                assert(diags.deep_view() =~= Seq::<DiagnosticV>::empty());
            }
            Ok(known)
        } else {
            Err(diags)
        }
    }
}

} // verus!
