//! The options grammar: an annotation payload is a comma-separated sequence
//! of items, each a path, a path with a delimited list, or a `path = value`
//! pair. A value is first read as a type expression — greedily, so a type
//! may span commas inside its own generics — and, failing that, as a
//! string-like literal.

use vstd::prelude::*;

use crate::annotation::{AnnArgs, AnnArgsV, Annotation, AnnotationV};
use crate::diag::{Diagnostic, DiagnosticV};
use crate::text::{char_to_string, utf8_to_string};
use crate::token::{
    duplicate_range, lemma_tokens_view, lemma_tokens_view_subrange, render_tokens,
    spec_join_space, spec_render_token, token_view, tokens_view, LitKind, LitKindV, LitTok, LitV,
    Token, TokenV,
};

verus! {

/// Whether `syn` accepts a piece of text as a Rust type expression. A
/// function of the text alone.
pub uninterp spec fn parses_as_type(s: Seq<char>) -> bool;

/// Relies on `syn::parse_str::<syn::Type>` (syn 2) to decide whether the
/// text is a Rust type expression; errors are returned, never thrown, and
/// acceptance depends on the text alone.
#[verifier::external_body]
pub(crate) fn is_type_text(s: &str) -> (r: bool)
    ensures
        r == parses_as_type(s@),
{
    syn::parse_str::<syn::Type>(s).is_ok()
}

/// An argument that may define some operation within an operation set.
#[derive(Debug)]
pub enum Argument {
    /// A bare name.
    Standalone(String),
    /// A name paired with a type expression, held as its verbatim text.
    WithType(String, String),
    /// A name paired with a string-like literal, held as its decoded text.
    WithLiteral(String, String),
}

/// Mathematical model of [`Argument`].
pub enum ArgumentV {
    Standalone(Seq<char>),
    WithType(Seq<char>, Seq<char>),
    WithLiteral(Seq<char>, Seq<char>),
}

impl View for Argument {
    type V = ArgumentV;

    open spec fn view(&self) -> ArgumentV {
        match self {
            Argument::Standalone(n) => ArgumentV::Standalone(n@),
            Argument::WithType(n, t) => ArgumentV::WithType(n@, t@),
            Argument::WithLiteral(n, l) => ArgumentV::WithLiteral(n@, l@),
        }
    }
}

impl DeepView for Argument {
    type V = ArgumentV;

    open spec fn deep_view(&self) -> ArgumentV {
        self.view()
    }
}

/// The text that a string-like literal decodes to, or nothing when its
/// bytes are not valid text.
pub open spec fn spec_lit_string(l: LitV) -> Option<Seq<char>> {
    match l.kind {
        LitKindV::Str(s) => Some(s),
        LitKindV::ByteStr(b) => if vstd::utf8::valid_utf8(b) {
            Some(vstd::utf8::decode_utf8(b))
        } else {
            None
        },
        LitKindV::Byte(b) => if vstd::utf8::valid_utf8(seq![b]) {
            Some(vstd::utf8::decode_utf8(seq![b]))
        } else {
            None
        },
        LitKindV::Char(c) => Some(seq![c]),
        LitKindV::Other => None,
    }
}

/// The argument formed from a name and a literal value: string-like
/// literals decode to text, any other literal is a syntax error.
pub open spec fn spec_lit_argument(name: Seq<char>, l: LitV) -> Result<ArgumentV, DiagnosticV> {
    if l.kind is Other {
        Err(DiagnosticV::SyntaxError(l.text))
    } else {
        match spec_lit_string(l) {
            Some(s) => Ok(ArgumentV::WithLiteral(name, s)),
            None => Err(DiagnosticV::MalformedLiteral(l.text)),
        }
    }
}

fn lit_argument(name: String, l: &LitTok) -> (r: Result<Argument, Diagnostic>)
    ensures
        r matches Ok(a) ==> spec_lit_argument(name@, crate::token::lit_view(*l)) == Ok::<
            ArgumentV,
            DiagnosticV,
        >(a@),
        r matches Err(e) ==> spec_lit_argument(name@, crate::token::lit_view(*l)) == Err::<
            ArgumentV,
            DiagnosticV,
        >(e@),
{
    match &l.kind {
        LitKind::Str(s) => Ok(Argument::WithLiteral(name, s.clone())),
        LitKind::ByteStr(b) => {
            let bytes = copy_bytes(b);
            match utf8_to_string(bytes) {
                Some(s) => Ok(Argument::WithLiteral(name, s)),
                None => Err(Diagnostic::MalformedLiteral(l.text.clone())),
            }
        },
        LitKind::Byte(b) => {
            let mut bytes: Vec<u8> = Vec::new();
            bytes.push(*b);
            proof {
                assert(bytes@ =~= seq![*b]);
            }
            match utf8_to_string(bytes) {
                Some(s) => Ok(Argument::WithLiteral(name, s)),
                None => Err(Diagnostic::MalformedLiteral(l.text.clone())),
            }
        },
        LitKind::Char(c) => Ok(Argument::WithLiteral(name, char_to_string(*c))),
        LitKind::Other => Err(Diagnostic::SyntaxError(l.text.clone())),
    }
}

fn copy_bytes(b: &Vec<u8>) -> (r: Vec<u8>)
    ensures
        r@ == b@,
{
    let mut out: Vec<u8> = Vec::new();
    let mut i: usize = 0;
    while i < b.len()
        invariant
            i <= b@.len(),
            out@ == b@.subrange(0, i as int),
        decreases b@.len() - i,
    {
        out.push(b[i]);
        proof {
            assert(b@.subrange(0, i as int + 1) =~= b@.subrange(0, i as int).push(b@[i as int]));
        }
        i += 1;
    }
    proof {
        assert(b@.subrange(0, b@.len() as int) =~= b@);
    }
    out
}

/// The argument formed from a name and the value tokens after `=`: the
/// value is first read as a type expression, kept as its verbatim token
/// text; failing that, as a string-like literal; failing both, it is a
/// syntax error.
pub open spec fn spec_value_argument(name: Seq<char>, run: Seq<TokenV>) -> Result<
    ArgumentV,
    DiagnosticV,
> {
    let text = spec_join_space(run);
    if parses_as_type(text) {
        Ok(ArgumentV::WithType(name, text))
    } else if run.len() == 1 {
        match run[0] {
            TokenV::Lit(l) => spec_lit_argument(name, l),
            _ => Err(DiagnosticV::SyntaxError(text)),
        }
    } else {
        Err(DiagnosticV::SyntaxError(text))
    }
}

fn value_argument(name: String, run: &Vec<Token>) -> (r: Result<Argument, Diagnostic>)
    ensures
        r matches Ok(a) ==> spec_value_argument(name@, tokens_view(run@)) == Ok::<
            ArgumentV,
            DiagnosticV,
        >(a@),
        r matches Err(e) ==> spec_value_argument(name@, tokens_view(run@)) == Err::<
            ArgumentV,
            DiagnosticV,
        >(e@),
{
    proof {
        lemma_tokens_view(run@);
    }
    let text = render_tokens(run);
    if is_type_text(text.as_str()) {
        Ok(Argument::WithType(name, text))
    } else {
        if run.len() == 1 {
            match &run[0] {
                Token::Lit(l) => lit_argument(name, l),
                _ => Err(Diagnostic::SyntaxError(text)),
            }
        } else {
            Err(Diagnostic::SyntaxError(text))
        }
    }
}

/// One parsed item of a payload, as [`Argument`]: a bare name stands
/// alone; a `name = value` pair becomes a type or literal argument; a
/// delimited list does not fit the argument grammar.
pub open spec fn spec_argument_of_item(item: AnnotationV) -> Result<ArgumentV, DiagnosticV> {
    match item.args {
        AnnArgsV::Bare => Ok(ArgumentV::Standalone(item.path)),
        AnnArgsV::Value(run) => spec_value_argument(item.path, run),
        AnnArgsV::List(_, _) => Err(DiagnosticV::SyntaxError(item.path)),
    }
}

impl Argument {
    /// Parses one payload item as an argument.
    pub fn parse(item: &Annotation) -> (r: Result<Argument, Diagnostic>)
        ensures
            r matches Ok(a) ==> spec_argument_of_item(item@) == Ok::<ArgumentV, DiagnosticV>(a@),
            r matches Err(e) ==> spec_argument_of_item(item@) == Err::<ArgumentV, DiagnosticV>(
                e@,
            ),
    {
        match &item.args {
            AnnArgs::Bare => Ok(Argument::Standalone(item.path.clone())),
            AnnArgs::Value(run) => value_argument(item.path.clone(), run),
            AnnArgs::List(_, _) => Err(Diagnostic::SyntaxError(item.path.clone())),
        }
    }
}

/// Whether a token is a top-level comma, whatever its spacing.
pub open spec fn spec_is_comma(t: TokenV) -> bool {
    t matches TokenV::Punct(',', _)
}

/// Whether a token can stand in an item's head path: an identifier or a
/// colon.
pub open spec fn spec_is_path_token(t: TokenV) -> bool {
    t matches TokenV::Ident(_) || t matches TokenV::Punct(':', _)
}

/// The number of tokens before the first top-level comma, or the length of
/// the sequence when it has none.
pub open spec fn spec_comma_len(ts: Seq<TokenV>) -> int
    decreases ts.len(),
{
    if ts.len() == 0 {
        0
    } else if spec_is_comma(ts[0]) {
        0
    } else {
        1 + spec_comma_len(ts.drop_first())
    }
}

pub proof fn lemma_comma_len_bound(ts: Seq<TokenV>)
    ensures
        0 <= spec_comma_len(ts) <= ts.len(),
    decreases ts.len(),
{
    if ts.len() > 0 && !spec_is_comma(ts[0]) {
        lemma_comma_len_bound(ts.drop_first());
    }
}

proof fn lemma_comma_len_at(ts: Seq<TokenV>, i: int)
    requires
        0 <= i <= ts.len(),
        forall|j: int| 0 <= j < i ==> !spec_is_comma(#[trigger] ts[j]),
        i < ts.len() ==> spec_is_comma(ts[i]),
    ensures
        spec_comma_len(ts) == i,
    decreases i,
{
    if ts.len() == 0 {
    } else if i == 0 {
    } else {
        lemma_comma_len_at(ts.drop_first(), i - 1);
    }
}

/// The length of the maximal head-path prefix: identifiers and colons.
pub open spec fn spec_head_len(ts: Seq<TokenV>) -> int
    decreases ts.len(),
{
    if ts.len() == 0 {
        0
    } else if spec_is_path_token(ts[0]) {
        1 + spec_head_len(ts.drop_first())
    } else {
        0
    }
}

pub proof fn lemma_head_len_bound(ts: Seq<TokenV>)
    ensures
        0 <= spec_head_len(ts) <= ts.len(),
    decreases ts.len(),
{
    if ts.len() > 0 && spec_is_path_token(ts[0]) {
        lemma_head_len_bound(ts.drop_first());
    }
}

proof fn lemma_head_len_at(ts: Seq<TokenV>, i: int)
    requires
        0 <= i <= ts.len(),
        forall|j: int| 0 <= j < i ==> spec_is_path_token(#[trigger] ts[j]),
        i < ts.len() ==> !spec_is_path_token(ts[i]),
    ensures
        spec_head_len(ts) == i,
    decreases i,
{
    if ts.len() == 0 {
    } else if i == 0 {
    } else {
        lemma_head_len_at(ts.drop_first(), i - 1);
    }
}

/// The index of the last top-level comma, or `-1` when there is none.
pub open spec fn spec_last_comma(ts: Seq<TokenV>) -> int
    decreases ts.len(),
{
    if ts.len() == 0 {
        -1
    } else if spec_is_comma(ts.last()) {
        ts.len() - 1
    } else {
        spec_last_comma(ts.drop_last())
    }
}

pub proof fn lemma_last_comma_bound(ts: Seq<TokenV>)
    ensures
        -1 <= spec_last_comma(ts) < ts.len(),
    decreases ts.len(),
{
    if ts.len() > 0 && !spec_is_comma(ts.last()) {
        lemma_last_comma_bound(ts.drop_last());
    }
}

proof fn lemma_last_comma_at(ts: Seq<TokenV>, i: int)
    requires
        -1 <= i < ts.len(),
        i >= 0 ==> spec_is_comma(ts[i]),
        forall|j: int| i < j < ts.len() ==> !spec_is_comma(#[trigger] ts[j]),
    ensures
        spec_last_comma(ts) == i,
    decreases ts.len(),
{
    if ts.len() > 0 {
        if i == ts.len() - 1 {
        } else {
            lemma_last_comma_at(ts.drop_last(), i);
        }
    }
}

/// The number of tokens that a value consumes as a type expression: the
/// longest prefix ending at the run's end or just before a top-level comma
/// whose text `syn` accepts as a type, or nothing when no such prefix
/// exists.
pub open spec fn spec_type_prefix_len(run: Seq<TokenV>) -> Option<int>
    decreases run.len(),
    via spec_type_prefix_len_dec
{
    if run.len() == 0 {
        None
    } else if parses_as_type(spec_join_space(run)) {
        Some(run.len() as int)
    } else {
        let c = spec_last_comma(run);
        if c <= 0 {
            None
        } else {
            spec_type_prefix_len(run.take(c))
        }
    }
}

#[via_fn]
proof fn spec_type_prefix_len_dec(run: Seq<TokenV>) {
    lemma_last_comma_bound(run);
}

pub proof fn lemma_type_prefix_bound(run: Seq<TokenV>)
    ensures
        spec_type_prefix_len(run) matches Some(k) ==> 1 <= k <= run.len(),
    decreases run.len(),
{
    if run.len() > 0 && !parses_as_type(spec_join_space(run)) {
        lemma_last_comma_bound(run);
        let c = spec_last_comma(run);
        if c > 0 {
            lemma_type_prefix_bound(run.take(c));
        }
    }
}

/// The number of tokens that a value starting the run consumes: the
/// longest type-expression prefix when one exists, else the tokens up to
/// the first top-level comma.
pub open spec fn spec_value_extent(run: Seq<TokenV>) -> int {
    match spec_type_prefix_len(run) {
        Some(k) => k,
        None => spec_comma_len(run),
    }
}

pub proof fn lemma_value_extent_bound(run: Seq<TokenV>)
    ensures
        0 <= spec_value_extent(run) <= run.len(),
{
    lemma_type_prefix_bound(run);
    lemma_comma_len_bound(run);
}

fn is_comma(t: &Token) -> (r: bool)
    ensures
        r == spec_is_comma(t@),
{
    match t {
        Token::Punct(c, _) => *c == ',',
        _ => false,
    }
}

fn is_path_token(t: &Token) -> (r: bool)
    ensures
        r == spec_is_path_token(t@),
{
    match t {
        Token::Ident(_) => true,
        Token::Punct(c, _) => *c == ':',
        _ => false,
    }
}

pub(crate) fn comma_len_from(ts: &Vec<Token>, start: usize) -> (k: usize)
    requires
        start <= ts@.len(),
    ensures
        start + k <= ts@.len(),
        k as int == spec_comma_len(tokens_view(ts@.skip(start as int))),
{
    let ghost rest = tokens_view(ts@.skip(start as int));
    proof {
        lemma_tokens_view(ts@.skip(start as int));
    }
    let mut i: usize = start;
    while i < ts.len() && !is_comma(&ts[i])
        invariant
            start <= i <= ts@.len(),
            rest == tokens_view(ts@.skip(start as int)),
            forall|j: int| start <= j < i ==> !spec_is_comma(#[trigger] token_view(ts@[j])),
        decreases ts@.len() - i,
    {
        i += 1;
    }
    proof {
        assert(forall|j: int| 0 <= j < rest.len() ==> rest[j] == token_view(
            #[trigger] ts@.skip(start as int)[j],
        ));
        assert(forall|j: int| 0 <= j < rest.len() ==> ts@.skip(start as int)[j] == ts@[start
            + j]);
        lemma_comma_len_at(rest, i - start);
    }
    i - start
}

fn head_len_from(ts: &Vec<Token>, start: usize) -> (h: usize)
    requires
        start <= ts@.len(),
    ensures
        start + h <= ts@.len(),
        h as int == spec_head_len(tokens_view(ts@.skip(start as int))),
{
    let ghost rest = tokens_view(ts@.skip(start as int));
    proof {
        lemma_tokens_view(ts@.skip(start as int));
    }
    let mut i: usize = start;
    while i < ts.len() && is_path_token(&ts[i])
        invariant
            start <= i <= ts@.len(),
            rest == tokens_view(ts@.skip(start as int)),
            forall|j: int| start <= j < i ==> spec_is_path_token(#[trigger] token_view(ts@[j])),
        decreases ts@.len() - i,
    {
        i += 1;
    }
    proof {
        assert(forall|j: int| 0 <= j < rest.len() ==> rest[j] == token_view(
            #[trigger] ts@.skip(start as int)[j],
        ));
        assert(forall|j: int| 0 <= j < rest.len() ==> ts@.skip(start as int)[j] == ts@[start
            + j]);
        lemma_head_len_at(rest, i - start);
    }
    i - start
}

fn last_comma_in(ts: &Vec<Token>, start: usize, end: usize) -> (r: Option<usize>)
    requires
        start <= end <= ts@.len(),
    ensures
        ({
            let run = tokens_view(ts@.subrange(start as int, end as int));
            &&& (r is None ==> spec_last_comma(run) == -1)
            &&& (r matches Some(ci) ==> start <= ci < end && spec_last_comma(run) == ci - start)
        }),
{
    let ghost run = tokens_view(ts@.subrange(start as int, end as int));
    proof {
        lemma_tokens_view(ts@.subrange(start as int, end as int));
        assert(forall|j: int| 0 <= j < run.len() ==> run[j] == token_view(
            #[trigger] ts@.subrange(start as int, end as int)[j],
        ));
    }
    let mut i: usize = end;
    while i > start
        invariant
            start <= i <= end <= ts@.len(),
            run == tokens_view(ts@.subrange(start as int, end as int)),
            run.len() == end - start,
            forall|j: int| 0 <= j < run.len() ==> run[j] == token_view(ts@[start + j]),
            forall|j: int| i - start <= j < run.len() ==> !spec_is_comma(#[trigger] run[j]),
        decreases i,
    {
        if is_comma(&ts[i - 1]) {
            proof {
                lemma_last_comma_at(run, i - 1 - start);
            }
            return Some(i - 1);
        }
        i -= 1;
    }
    proof {
        lemma_last_comma_at(run, -1);
    }
    None
}

/// The text of the tokens of `ts` with indices in `from..to`.
pub fn render_range(ts: &Vec<Token>, from: usize, to: usize) -> (r: String)
    requires
        from <= to <= ts@.len(),
    ensures
        r@ == spec_join_space(tokens_view(ts@.subrange(from as int, to as int))),
{
    let dup = duplicate_range(ts, from, to);
    render_tokens(&dup)
}

fn find_type_prefix(ts: &Vec<Token>, start: usize, end: usize) -> (r: Option<usize>)
    requires
        start <= end <= ts@.len(),
    ensures
        ({
            let run = tokens_view(ts@.subrange(start as int, end as int));
            &&& (r is None ==> spec_type_prefix_len(run) is None)
            &&& (r matches Some(k) ==> start < k <= end && spec_type_prefix_len(run) == Some(
                k - start,
            ))
        }),
    decreases end - start,
{
    let ghost run = tokens_view(ts@.subrange(start as int, end as int));
    proof {
        lemma_tokens_view(ts@.subrange(start as int, end as int));
    }
    if start == end {
        return None;
    }
    let text = render_range(ts, start, end);
    if is_type_text(text.as_str()) {
        return Some(end);
    }
    match last_comma_in(ts, start, end) {
        Some(ci) => {
            if ci == start {
                None
            } else {
                proof {
                    assert(ts@.subrange(start as int, ci as int) =~= ts@.subrange(
                        start as int,
                        end as int,
                    ).subrange(0, ci - start));
                    lemma_tokens_view_subrange(
                        ts@.subrange(start as int, end as int),
                        0,
                        ci - start,
                    );
                    assert(run.take(ci - start) =~= tokens_view(ts@.subrange(
                        start as int,
                        ci as int,
                    )));
                }
                find_type_prefix(ts, start, ci)
            }
        },
        None => None,
    }
}

/// The number of tokens that the value starting at `vstart` consumes.
fn value_extent_from(ts: &Vec<Token>, vstart: usize) -> (k: usize)
    requires
        vstart <= ts@.len(),
    ensures
        vstart + k <= ts@.len(),
        k as int == spec_value_extent(tokens_view(ts@.skip(vstart as int))),
{
    let ghost run = tokens_view(ts@.skip(vstart as int));
    proof {
        assert(ts@.subrange(vstart as int, ts@.len() as int) =~= ts@.skip(vstart as int));
        lemma_value_extent_bound(run);
        lemma_type_prefix_bound(run);
    }
    match find_type_prefix(ts, vstart, ts.len()) {
        Some(ka) => ka - vstart,
        None => comma_len_from(ts, vstart),
    }
}

/// A payload parsed as its ordered sequence of items, separated by
/// top-level commas: each item is a head path, optionally followed by one
/// delimited group or by `=` and a value; a value consumes the longest
/// type-expression prefix when one exists, else the tokens up to the next
/// comma. A trailing comma is allowed and an empty payload yields no
/// items.
pub open spec fn spec_parse_items(ts: Seq<TokenV>) -> Result<Seq<AnnotationV>, DiagnosticV>
    decreases ts.len(),
    via spec_parse_items_dec
{
    if ts.len() == 0 {
        Ok(Seq::empty())
    } else {
        let h = spec_head_len(ts);
        if h == 0 {
            Err(DiagnosticV::SyntaxError(spec_render_token(ts[0])))
        } else {
            let path = spec_join_space(ts.take(h));
            if h == ts.len() {
                Ok(seq![AnnotationV { path, args: AnnArgsV::Bare }])
            } else if spec_is_comma(ts[h]) {
                match spec_parse_items(ts.skip(h + 1)) {
                    Err(e) => Err(e),
                    Ok(rest) => Ok(seq![AnnotationV { path, args: AnnArgsV::Bare }] + rest),
                }
            } else {
                match ts[h] {
                    TokenV::Group(d, members) => {
                        let item = AnnotationV { path, args: AnnArgsV::List(d, members) };
                        if h + 1 == ts.len() {
                            Ok(seq![item])
                        } else if spec_is_comma(ts[h + 1]) {
                            match spec_parse_items(ts.skip(h + 2)) {
                                Err(e) => Err(e),
                                Ok(rest) => Ok(seq![item] + rest),
                            }
                        } else {
                            Err(DiagnosticV::SyntaxError(spec_render_token(ts[h + 1])))
                        }
                    },
                    TokenV::Punct(c, _) => if c == '=' {
                        let vs = ts.skip(h + 1);
                        if vs.len() == 0 {
                            Err(DiagnosticV::SyntaxError(spec_render_token(ts[h])))
                        } else {
                            let k = spec_value_extent(vs);
                            if k == 0 {
                                Err(DiagnosticV::SyntaxError(spec_render_token(vs[0])))
                            } else {
                                let item = AnnotationV {
                                    path,
                                    args: AnnArgsV::Value(vs.take(k)),
                                };
                                if k == vs.len() {
                                    Ok(seq![item])
                                } else if spec_is_comma(vs[k]) {
                                    match spec_parse_items(vs.skip(k + 1)) {
                                        Err(e) => Err(e),
                                        Ok(rest) => Ok(seq![item] + rest),
                                    }
                                } else {
                                    Err(DiagnosticV::SyntaxError(spec_render_token(vs[k])))
                                }
                            }
                        }
                    } else {
                        Err(DiagnosticV::SyntaxError(spec_render_token(ts[h])))
                    },
                    _ => Err(DiagnosticV::SyntaxError(spec_render_token(ts[h]))),
                }
            }
        }
    }
}

#[via_fn]
proof fn spec_parse_items_dec(ts: Seq<TokenV>) {
    lemma_head_len_bound(ts);
    let h = spec_head_len(ts);
    if 0 < h < ts.len() {
        lemma_value_extent_bound(ts.skip(h + 1));
    }
}

#[verifier::rlimit(100)]
fn parse_items_from(ts: &Vec<Token>, start: usize) -> (r: Result<Vec<Annotation>, Diagnostic>)
    requires
        start <= ts@.len(),
    ensures
        r matches Ok(items) ==> spec_parse_items(tokens_view(ts@.skip(start as int))) == Ok::<
            Seq<AnnotationV>,
            DiagnosticV,
        >(items.deep_view()),
        r matches Err(e) ==> spec_parse_items(tokens_view(ts@.skip(start as int))) == Err::<
            Seq<AnnotationV>,
            DiagnosticV,
        >(e@),
    decreases ts@.len() - start,
{
    let ghost rest = tokens_view(ts@.skip(start as int));
    proof {
        lemma_tokens_view(ts@.skip(start as int));
        assert(forall|j: int| 0 <= j < rest.len() ==> rest[j] == token_view(
            #[trigger] ts@.skip(start as int)[j],
        ));
        assert(forall|j: int| 0 <= j < rest.len() ==> ts@.skip(start as int)[j] == ts@[start
            + j]);
        lemma_head_len_bound(rest);
    }
    if start == ts.len() {
        let empty: Vec<Annotation> = Vec::new();
        proof {
            assert(empty.deep_view() =~= Seq::<AnnotationV>::empty());
        }
        return Ok(empty);
    }
    let h = head_len_from(ts, start);
    if h == 0 {
        return Err(Diagnostic::SyntaxError((&ts[start]).render()));
    }
    let path = render_range(ts, start, start + h);
    proof {
        assert(ts@.subrange(start as int, start + h) =~= ts@.skip(start as int).subrange(
            0,
            h as int,
        ));
        lemma_tokens_view_subrange(ts@.skip(start as int), 0, h as int);
        assert(rest.take(h as int) =~= rest.subrange(0, h as int));
    }
    let after = start + h;
    if after == ts.len() {
        let mut items: Vec<Annotation> = Vec::new();
        items.push(Annotation { path, args: AnnArgs::Bare });
        proof {
            assert(items.deep_view() =~= seq![
                AnnotationV { path: path@, args: AnnArgsV::Bare },
            ]);
        }
        return Ok(items);
    }
    if is_comma(&ts[after]) {
        proof {
            lemma_skip_of_skip(ts@, start as int, after + 1);
        }
        match parse_items_from(ts, after + 1) {
            Ok(mut tail) => {
                let ghost tail_view = tail.deep_view();
                tail.insert(0, Annotation { path, args: AnnArgs::Bare });
                proof {
                    assert(tail.deep_view() =~= seq![
                        AnnotationV { path: path@, args: AnnArgsV::Bare },
                    ] + tail_view);
                }
                return Ok(tail);
            },
            Err(e) => {
                return Err(e);
            },
        }
    }
    match &ts[after] {
        Token::Group(d, members) => {
            let dup = duplicate_range(members, 0, members.len());
            proof {
                assert(members@.subrange(0, members@.len() as int) =~= members@);
            }
            let item = Annotation { path, args: AnnArgs::List(*d, dup) };
            if after + 1 == ts.len() {
                let mut items: Vec<Annotation> = Vec::new();
                let ghost item_view = item@;
                items.push(item);
                proof {
                    assert(items.deep_view() =~= seq![item_view]);
                }
                Ok(items)
            } else if is_comma(&ts[after + 1]) {
                proof {
                    lemma_skip_of_skip(ts@, start as int, after + 2);
                }
                match parse_items_from(ts, after + 2) {
                    Ok(mut tail) => {
                        let ghost tail_view = tail.deep_view();
                        let ghost item_view = item@;
                        tail.insert(0, item);
                        proof {
                            assert(tail.deep_view() =~= seq![item_view] + tail_view);
                        }
                        Ok(tail)
                    },
                    Err(e) => Err(e),
                }
            } else {
                Err(Diagnostic::SyntaxError((&ts[after + 1]).render()))
            }
        },
        Token::Punct(c, _) => {
            if *c == '=' {
                let vstart = after + 1;
                let ghost vs = rest.skip(h as int + 1);
                proof {
                    lemma_skip_of_skip(ts@, start as int, vstart as int);
                    assert(vs =~= tokens_view(ts@.skip(vstart as int)));
                }
                if vstart == ts.len() {
                    return Err(Diagnostic::SyntaxError((&ts[after]).render()));
                }
                proof {
                    assert(ts@.subrange(vstart as int, ts@.len() as int) =~= ts@.skip(
                        vstart as int,
                    ));
                }
                let k = match find_type_prefix(ts, vstart, ts.len()) {
                    Some(ka) => ka - vstart,
                    None => comma_len_from(ts, vstart),
                };
                proof {
                    lemma_value_extent_bound(vs);
                    assert(k as int == spec_value_extent(vs));
                }
                if k == 0 {
                    proof {
                        assert(vs[0] == token_view(ts@[vstart as int]));
                    }
                    return Err(Diagnostic::SyntaxError((&ts[vstart]).render()));
                }
                let run = duplicate_range(ts, vstart, vstart + k);
                proof {
                    assert(ts@.subrange(vstart as int, vstart + k) =~= ts@.skip(
                        vstart as int,
                    ).subrange(0, k as int));
                    lemma_tokens_view_subrange(ts@.skip(vstart as int), 0, k as int);
                    assert(vs.take(k as int) =~= tokens_view(ts@.skip(vstart as int)).subrange(
                        0,
                        k as int,
                    ));
                }
                let item = Annotation { path, args: AnnArgs::Value(run) };
                if vstart + k == ts.len() {
                    let mut items: Vec<Annotation> = Vec::new();
                    let ghost item_view = item@;
                    items.push(item);
                    proof {
                        assert(items.deep_view() =~= seq![item_view]);
                    }
                    Ok(items)
                } else if is_comma(&ts[vstart + k]) {
                    proof {
                        assert(vs[k as int] == token_view(ts@[vstart + k]));
                        lemma_skip_of_skip(ts@, start as int, vstart + k + 1);
                        assert(vs.skip(k as int + 1) =~= tokens_view(ts@.skip(
                            vstart + k + 1,
                        )));
                    }
                    match parse_items_from(ts, vstart + k + 1) {
                        Ok(mut tail) => {
                            let ghost tail_view = tail.deep_view();
                            let ghost item_view = item@;
                            tail.insert(0, item);
                            proof {
                                assert(tail.deep_view() =~= seq![item_view] + tail_view);
                            }
                            Ok(tail)
                        },
                        Err(e) => Err(e),
                    }
                } else {
                    proof {
                        assert(vs[k as int] == token_view(ts@[vstart + k]));
                    }
                    Err(Diagnostic::SyntaxError((&ts[vstart + k]).render()))
                }
            } else {
                Err(Diagnostic::SyntaxError((&ts[after]).render()))
            }
        },
        _ => Err(Diagnostic::SyntaxError((&ts[after]).render())),
    }
}

/// The tail of a skipped sequence, reached in one step.
proof fn lemma_skip_of_skip(ts: Seq<Token>, start: int, to: int)
    requires
        0 <= start <= to <= ts.len(),
    ensures
        tokens_view(ts.skip(to)) == tokens_view(ts.skip(start)).skip(to - start),
{
    lemma_tokens_view(ts.skip(start));
    assert(ts.skip(to) =~= ts.skip(start).subrange(to - start, ts.len() - start));
    lemma_tokens_view_subrange(ts.skip(start), to - start, ts.len() - start);
    assert(tokens_view(ts.skip(start)).subrange(
        to - start,
        tokens_view(ts.skip(start)).len() as int,
    ) =~= tokens_view(ts.skip(start)).skip(to - start));
}

/// Parses an annotation payload into its ordered items.
pub fn parse_meta_items(ts: &Vec<Token>) -> (r: Result<Vec<Annotation>, Diagnostic>)
    ensures
        r matches Ok(items) ==> spec_parse_items(tokens_view(ts@)) == Ok::<
            Seq<AnnotationV>,
            DiagnosticV,
        >(items.deep_view()),
        r matches Err(e) ==> spec_parse_items(tokens_view(ts@)) == Err::<
            Seq<AnnotationV>,
            DiagnosticV,
        >(e@),
{
    proof {
        assert(ts@.skip(0) =~= ts@);
    }
    parse_items_from(ts, 0)
}

/// The items of a payload parsed as arguments, in order, stopping at the
/// first failing item.
pub open spec fn spec_arguments_of_items(items: Seq<AnnotationV>) -> Result<
    Seq<ArgumentV>,
    DiagnosticV,
>
    decreases items.len(),
{
    if items.len() == 0 {
        Ok(Seq::empty())
    } else {
        match spec_argument_of_item(items[0]) {
            Err(e) => Err(e),
            Ok(a) => match spec_arguments_of_items(items.drop_first()) {
                Err(e) => Err(e),
                Ok(rest) => Ok(seq![a] + rest),
            },
        }
    }
}

/// A whole payload parsed as an ordered argument list.
pub open spec fn spec_parse_arguments(ts: Seq<TokenV>) -> Result<Seq<ArgumentV>, DiagnosticV> {
    match spec_parse_items(ts) {
        Err(e) => Err(e),
        Ok(items) => spec_arguments_of_items(items),
    }
}

/// Parses an annotation payload into its ordered argument list. An empty
/// payload yields an empty list.
pub fn parse_arguments(ts: &Vec<Token>) -> (r: Result<Vec<Argument>, Diagnostic>)
    ensures
        r matches Ok(args) ==> spec_parse_arguments(tokens_view(ts@)) == Ok::<
            Seq<ArgumentV>,
            DiagnosticV,
        >(args.deep_view()),
        r matches Err(e) ==> spec_parse_arguments(tokens_view(ts@)) == Err::<
            Seq<ArgumentV>,
            DiagnosticV,
        >(e@),
{
    let items = match parse_meta_items(ts) {
        Ok(items) => items,
        Err(e) => {
            return Err(e);
        },
    };
    let ghost items_view = items.deep_view();
    let mut args: Vec<Argument> = Vec::new();
    let mut i: usize = 0;
    proof {
        assert(items_view.skip(0) =~= items_view);
        assert(args.deep_view() =~= Seq::<ArgumentV>::empty());
        match spec_arguments_of_items(items_view) {
            Ok(rest) => {
                assert(args.deep_view() + rest =~= rest);
            },
            Err(_) => {},
        }
    }
    while i < items.len()
        invariant
            i <= items@.len(),
            items_view == items.deep_view(),
            spec_parse_items(tokens_view(ts@)) == Ok::<Seq<AnnotationV>, DiagnosticV>(
                items_view,
            ),
            items_view.len() == items@.len(),
            forall|j: int| 0 <= j < items@.len() ==> items@[j].deep_view() == items_view[j],
            args.deep_view().len() == i,
            spec_arguments_of_items(items_view) == match spec_arguments_of_items(
                items_view.skip(i as int),
            ) {
                Err(e) => Err::<Seq<ArgumentV>, DiagnosticV>(e),
                Ok(rest) => Ok::<Seq<ArgumentV>, DiagnosticV>(args.deep_view() + rest),
            },
        decreases items@.len() - i,
    {
        let ghost pre_args = args.deep_view();
        let arg = match Argument::parse(&items[i]) {
            Ok(a) => a,
            Err(e) => {
                proof {
                    let suffix = items_view.skip(i as int);
                    assert(suffix.len() > 0);
                    assert(suffix[0] == items_view[i as int]);
                    assert(items@[i as int].deep_view() == items_view[i as int]);
                    assert(spec_argument_of_item(items_view[i as int]) == Err::<
                        ArgumentV,
                        DiagnosticV,
                    >(e@));
                    assert(spec_arguments_of_items(suffix) == Err::<
                        Seq<ArgumentV>,
                        DiagnosticV,
                    >(e@));
                    assert(spec_arguments_of_items(items_view) == Err::<
                        Seq<ArgumentV>,
                        DiagnosticV,
                    >(e@));
                }
                return Err(e);
            },
        };
        args.push(arg);
        proof {
            let suffix = items_view.skip(i as int);
            assert(suffix[0] == items_view[i as int]);
            assert(suffix.drop_first() =~= items_view.skip(i as int + 1));
            assert(args.deep_view() =~= pre_args.push(arg@));
            match spec_arguments_of_items(items_view.skip(i as int + 1)) {
                Ok(rest) => {
                    assert(pre_args + (seq![arg@] + rest) =~= args.deep_view() + rest);
                },
                Err(_) => {},
            }
        }
        i += 1;
    }
    proof {
        assert(items_view.skip(items_view.len() as int) =~= Seq::<AnnotationV>::empty());
        assert(args.deep_view() + Seq::<ArgumentV>::empty() =~= args.deep_view());
    }
    Ok(args)
}

} // verus!
