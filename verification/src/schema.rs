//! The input data model: a structured description of an annotated struct.

use vstd::prelude::*;

use crate::annotation::{Annotation, AnnotationV};
use crate::token_vec::{spec_join_with, Separator, TokenVec};

verus! {

/// One generic parameter of the base struct: its name (a type, lifetime or
/// const parameter) and its declared bounds, both as verbatim text. The
/// bounds text is empty when the parameter has none.
#[derive(Debug)]
pub struct GenericParam {
    pub name: String,
    pub bounds: String,
}

/// Mathematical model of [`GenericParam`].
pub struct GenericParamV {
    pub name: Seq<char>,
    pub bounds: Seq<char>,
}

impl View for GenericParam {
    type V = GenericParamV;

    open spec fn view(&self) -> GenericParamV {
        GenericParamV { name: self.name@, bounds: self.bounds@ }
    }
}

impl DeepView for GenericParam {
    type V = GenericParamV;

    open spec fn deep_view(&self) -> GenericParamV {
        self.view()
    }
}

/// The generic parameter list and `where` clause of the base struct,
/// copied verbatim. The `where` clause text is empty when absent and
/// otherwise starts with the `where` keyword.
#[derive(Debug)]
pub struct GenericsDecl {
    pub params: Vec<GenericParam>,
    pub where_clause: String,
}

/// Mathematical model of [`GenericsDecl`].
pub struct GenericsV {
    pub params: Seq<GenericParamV>,
    pub where_clause: Seq<char>,
}

impl View for GenericsDecl {
    type V = GenericsV;

    open spec fn view(&self) -> GenericsV {
        GenericsV { params: self.params.deep_view(), where_clause: self.where_clause@ }
    }
}

/// The text of one parameter with its bounds, as it stands in a
/// declaration or an `impl` header.
pub open spec fn spec_param_decl_text(p: GenericParamV) -> Seq<char> {
    if p.bounds.len() == 0 {
        p.name
    } else {
        p.name + " : "@ + p.bounds
    }
}

/// The parameter names joined for a type position: `< T , U >`, or empty
/// text when there are no parameters.
pub open spec fn spec_ty_generics_text(g: GenericsV) -> Seq<char> {
    if g.params.len() == 0 {
        Seq::empty()
    } else {
        "< "@ + spec_join_with(g.params.map_values(|p: GenericParamV| p.name), " , "@) + " >"@
    }
}

/// The parameters with their bounds joined for an `impl` position:
/// `< T : Clone , U >`, or empty text when there are no parameters.
pub open spec fn spec_impl_generics_text(g: GenericsV) -> Seq<char> {
    if g.params.len() == 0 {
        Seq::empty()
    } else {
        "< "@ + spec_join_with(
            g.params.map_values(|p: GenericParamV| spec_param_decl_text(p)),
            " , "@,
        ) + " >"@
    }
}

impl GenericsDecl {
    /// The parameter names for a type position.
    pub fn ty_generics(&self) -> (r: String)
        ensures
            r@ == spec_ty_generics_text(self@),
    {
        let mut pieces: Vec<String> = Vec::new();
        let mut i: usize = 0;
        while i < self.params.len()
            invariant
                i <= self.params@.len(),
                pieces.deep_view() =~= self.params.deep_view().map_values(
                    |p: GenericParamV| p.name,
                ).subrange(0, i as int),
            decreases self.params@.len() - i,
        {
            pieces.push(self.params[i].name.clone());
            proof {
                let names = self.params.deep_view().map_values(|p: GenericParamV| p.name);
                assert(names.subrange(0, i as int + 1) =~= names.subrange(0, i as int).push(
                    names[i as int],
                ));
                assert(pieces.deep_view() =~= names.subrange(0, i as int + 1));
            }
            i += 1;
        }
        proof {
            let names = self.params.deep_view().map_values(|p: GenericParamV| p.name);
            assert(names.subrange(0, names.len() as int) =~= names);
        }
        if pieces.len() == 0 {
            String::new()
        } else {
            let joined = TokenVec::new_with_vec_and_sep(pieces, Separator::Comma).render();
            let mut out = String::new();
            out.append("< ");
            out.append(joined.as_str());
            out.append(" >");
            proof {
                assert(out@ =~= spec_ty_generics_text(self@));
            }
            out
        }
    }

    /// The parameters with their bounds for an `impl` position.
    pub fn impl_generics(&self) -> (r: String)
        ensures
            r@ == spec_impl_generics_text(self@),
    {
        let mut pieces: Vec<String> = Vec::new();
        let mut i: usize = 0;
        while i < self.params.len()
            invariant
                i <= self.params@.len(),
                pieces.deep_view() =~= self.params.deep_view().map_values(
                    |p: GenericParamV| spec_param_decl_text(p),
                ).subrange(0, i as int),
            decreases self.params@.len() - i,
        {
            let p = &self.params[i];
            let piece = if p.bounds.as_str().is_empty() {
                p.name.clone()
            } else {
                let mut s = String::new();
                s.append(p.name.as_str());
                s.append(" : ");
                s.append(p.bounds.as_str());
                proof {
                    assert(s@ =~= spec_param_decl_text(self.params@[i as int]@));
                }
                s
            };
            pieces.push(piece);
            proof {
                let texts = self.params.deep_view().map_values(
                    |p: GenericParamV| spec_param_decl_text(p),
                );
                assert(texts.subrange(0, i as int + 1) =~= texts.subrange(0, i as int).push(
                    texts[i as int],
                ));
                assert(pieces.deep_view() =~= texts.subrange(0, i as int + 1));
            }
            i += 1;
        }
        proof {
            let texts = self.params.deep_view().map_values(
                |p: GenericParamV| spec_param_decl_text(p),
            );
            assert(texts.subrange(0, texts.len() as int) =~= texts);
        }
        if pieces.len() == 0 {
            String::new()
        } else {
            let joined = TokenVec::new_with_vec_and_sep(pieces, Separator::Comma).render();
            let mut out = String::new();
            out.append("< ");
            out.append(joined.as_str());
            out.append(" >");
            proof {
                assert(out@ =~= spec_impl_generics_text(self@));
            }
            out
        }
    }
}

/// The schema of one declared field: its identifier (absent for
/// tuple-style fields), visibility, declared type, and attached metadata
/// annotations, in order.
#[derive(Debug)]
pub struct FieldSchema {
    pub ident: Option<String>,
    pub vis: String,
    pub ty: String,
    pub attrs: Vec<Annotation>,
}

/// Mathematical model of [`FieldSchema`].
pub struct FieldSchemaV {
    pub ident: Option<Seq<char>>,
    pub vis: Seq<char>,
    pub ty: Seq<char>,
    pub attrs: Seq<AnnotationV>,
}

impl View for FieldSchema {
    type V = FieldSchemaV;

    open spec fn view(&self) -> FieldSchemaV {
        FieldSchemaV {
            ident: self.ident.deep_view(),
            vis: self.vis@,
            ty: self.ty@,
            attrs: self.attrs.deep_view(),
        }
    }
}

impl DeepView for FieldSchema {
    type V = FieldSchemaV;

    open spec fn deep_view(&self) -> FieldSchemaV {
        self.view()
    }
}

/// The body of the annotated type: only a struct's fields are supported.
#[derive(Debug)]
pub enum SchemaData {
    Struct(Vec<FieldSchema>),
    Enum,
    Union,
}

/// Mathematical model of [`SchemaData`].
pub enum SchemaDataV {
    Struct(Seq<FieldSchemaV>),
    Enum,
    Union,
}

impl View for SchemaData {
    type V = SchemaDataV;

    open spec fn view(&self) -> SchemaDataV {
        match self {
            SchemaData::Struct(fields) => SchemaDataV::Struct(fields.deep_view()),
            SchemaData::Enum => SchemaDataV::Enum,
            SchemaData::Union => SchemaDataV::Union,
        }
    }
}

/// The schema of the annotated type: identifier, visibility, generics,
/// attached metadata annotations in order, and the declared body.
#[derive(Debug)]
pub struct StructSchema {
    pub ident: String,
    pub vis: String,
    pub generics: GenericsDecl,
    pub attrs: Vec<Annotation>,
    pub data: SchemaData,
}

/// Mathematical model of [`StructSchema`].
pub struct StructSchemaV {
    pub ident: Seq<char>,
    pub vis: Seq<char>,
    pub generics: GenericsV,
    pub attrs: Seq<AnnotationV>,
    pub data: SchemaDataV,
}

impl View for StructSchema {
    type V = StructSchemaV;

    open spec fn view(&self) -> StructSchemaV {
        StructSchemaV {
            ident: self.ident@,
            vis: self.vis@,
            generics: self.generics@,
            attrs: self.attrs.deep_view(),
            data: self.data@,
        }
    }
}

} // verus!
