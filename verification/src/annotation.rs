//! The model of one metadata annotation attached to a struct or a field.

use vstd::prelude::*;

use crate::token::{
    spec_close_char, spec_join_space, spec_open_char, render_tokens, Delim, Token, TokenV,
    tokens_view,
};

verus! {

/// The argument shape of an annotation: bare (`name`), a delimited list
/// (`name(...)`), or a name-value pair (`name = ...`).
#[derive(Debug)]
pub enum AnnArgs {
    Bare,
    List(Delim, Vec<Token>),
    Value(Vec<Token>),
}

/// One metadata annotation: its path text and its arguments.
#[derive(Debug)]
pub struct Annotation {
    pub path: String,
    pub args: AnnArgs,
}

/// Mathematical model of [`AnnArgs`].
pub enum AnnArgsV {
    Bare,
    List(Delim, Seq<TokenV>),
    Value(Seq<TokenV>),
}

/// Mathematical model of [`Annotation`].
pub struct AnnotationV {
    pub path: Seq<char>,
    pub args: AnnArgsV,
}

impl View for AnnArgs {
    type V = AnnArgsV;

    open spec fn view(&self) -> AnnArgsV {
        match self {
            AnnArgs::Bare => AnnArgsV::Bare,
            AnnArgs::List(d, ts) => AnnArgsV::List(*d, tokens_view(ts@)),
            AnnArgs::Value(ts) => AnnArgsV::Value(tokens_view(ts@)),
        }
    }
}

impl View for Annotation {
    type V = AnnotationV;

    open spec fn view(&self) -> AnnotationV {
        AnnotationV { path: self.path@, args: self.args@ }
    }
}

impl DeepView for Annotation {
    type V = AnnotationV;

    open spec fn deep_view(&self) -> AnnotationV {
        self.view()
    }
}

impl Annotation {
    /// A copy of this annotation.
    pub fn duplicate(&self) -> (r: Annotation)
        ensures
            r@ == self@,
    {
        let args = match &self.args {
            AnnArgs::Bare => AnnArgs::Bare,
            AnnArgs::List(d, ts) => {
                let dup = crate::token::duplicate_range(ts, 0, ts.len());
                proof {
                    assert(ts@.subrange(0, ts@.len() as int) =~= ts@);
                }
                AnnArgs::List(*d, dup)
            },
            AnnArgs::Value(ts) => {
                let dup = crate::token::duplicate_range(ts, 0, ts.len());
                proof {
                    assert(ts@.subrange(0, ts@.len() as int) =~= ts@);
                }
                AnnArgs::Value(dup)
            },
        };
        Annotation { path: self.path.clone(), args }
    }
}

/// A copy of a list of annotations, in order.
pub fn duplicate_annotations(anns: &Vec<Annotation>) -> (r: Vec<Annotation>)
    ensures
        r.deep_view() == anns.deep_view(),
{
    let mut out: Vec<Annotation> = Vec::new();
    let mut i: usize = 0;
    while i < anns.len()
        invariant
            i <= anns@.len(),
            out@.len() == i,
            forall|j: int| 0 <= j < i ==> out@[j].deep_view() == anns@[j].deep_view(),
        decreases anns@.len() - i,
    {
        let dup = (&anns[i]).duplicate();
        out.push(dup);
        i += 1;
    }
    proof {
        assert(out.deep_view() =~= anns.deep_view());
    }
    out
}

/// The canonical text of one annotation, with the list delimiter kept.
pub open spec fn spec_render_annotation(a: AnnotationV) -> Seq<char> {
    match a.args {
        AnnArgsV::Bare => "#["@ + a.path + "]"@,
        AnnArgsV::List(d, ts) => "#["@ + a.path + seq![spec_open_char(d)] + spec_join_space(ts)
            + seq![spec_close_char(d)] + "]"@,
        AnnArgsV::Value(ts) => "#["@ + a.path + " = "@ + spec_join_space(ts) + "]"@,
    }
}

impl Annotation {
    /// Renders this annotation in its canonical text.
    pub fn render(&self) -> (r: String)
        ensures
            r@ == spec_render_annotation(self@),
    {
        let mut out = String::new();
        out.append("#[");
        out.append(self.path.as_str());
        match &self.args {
            AnnArgs::Bare => {
                out.append("]");
            },
            AnnArgs::List(d, ts) => {
                out.append(crate::token::open_str(*d));
                let joined = render_tokens(ts);
                out.append(joined.as_str());
                out.append(crate::token::close_str(*d));
                out.append("]");
            },
            AnnArgs::Value(ts) => {
                out.append(" = ");
                let joined = render_tokens(ts);
                out.append(joined.as_str());
                out.append("]");
            },
        }
        proof {
            assert(out@ =~= spec_render_annotation(self@));
        }
        out
    }
}

} // verus!
