//! The token model of annotation payloads, and its rendering to text.
//!
//! An annotation payload is an ordered sequence of tokens: identifiers,
//! punctuation, literals, and delimited groups of nested tokens. A
//! punctuation token carries its spacing, so that multi-character operators
//! such as `::` survive the round trip through text. The renderer joins
//! tokens with single spaces, except after a joint punctuation token, which
//! is the canonical textual form used throughout this crate.

use vstd::prelude::*;

use crate::text::char_to_string;

verus! {

broadcast use
    vstd::seq::axiom_seq_index_decreases,
    vstd::seq::axiom_seq_subrange_decreases,
    vstd::std_specs::vec::axiom_vec_index_decreases,
    vstd::std_specs::vec::axiom_vec_decreases_to_view;

/// Whether a punctuation token is followed immediately by another
/// punctuation token of the same operator (as in the first colon of `::`),
/// or stands alone.
#[derive(Clone, Copy, PartialEq, Eq, Structural, Debug)]
pub enum Spacing {
    Alone,
    Joint,
}

/// The delimiter of a token group.
#[derive(Clone, Copy, PartialEq, Eq, Structural, Debug)]
pub enum Delim {
    Paren,
    Bracket,
    Brace,
}

/// The decoded payload of a literal token.
#[derive(Clone, Debug)]
pub enum LitKind {
    /// A string literal and its content.
    Str(String),
    /// A byte-string literal and its bytes.
    ByteStr(Vec<u8>),
    /// A byte literal.
    Byte(u8),
    /// A character literal.
    Char(char),
    /// Any other literal (numeric, and the like): never string-like.
    Other,
}

/// A literal token: its decoded payload and its verbatim source text.
#[derive(Clone, Debug)]
pub struct LitTok {
    pub kind: LitKind,
    /// The literal as written in the source, quotes and escapes included.
    pub text: String,
}

/// One token of an annotation payload.
#[derive(Debug)]
pub enum Token {
    Ident(String),
    Punct(char, Spacing),
    Lit(LitTok),
    Group(Delim, Vec<Token>),
}

/// Mathematical model of [`LitKind`].
pub enum LitKindV {
    Str(Seq<char>),
    ByteStr(Seq<u8>),
    Byte(u8),
    Char(char),
    Other,
}

/// Mathematical model of [`LitTok`].
pub struct LitV {
    pub kind: LitKindV,
    pub text: Seq<char>,
}

/// Mathematical model of [`Token`].
pub enum TokenV {
    Ident(Seq<char>),
    Punct(char, Spacing),
    Lit(LitV),
    Group(Delim, Seq<TokenV>),
}

pub open spec fn lit_kind_view(k: LitKind) -> LitKindV {
    match k {
        LitKind::Str(s) => LitKindV::Str(s@),
        LitKind::ByteStr(b) => LitKindV::ByteStr(b@),
        LitKind::Byte(b) => LitKindV::Byte(b),
        LitKind::Char(c) => LitKindV::Char(c),
        LitKind::Other => LitKindV::Other,
    }
}

pub open spec fn lit_view(l: LitTok) -> LitV {
    LitV { kind: lit_kind_view(l.kind), text: l.text@ }
}

pub open spec fn token_view(t: Token) -> TokenV
    decreases t,
{
    match t {
        Token::Ident(s) => TokenV::Ident(s@),
        Token::Punct(c, sp) => TokenV::Punct(c, sp),
        Token::Lit(l) => TokenV::Lit(lit_view(l)),
        Token::Group(d, ts) => TokenV::Group(d, tokens_view(ts@)),
    }
}

/// The element-wise model of a token sequence.
pub open spec fn tokens_view(ts: Seq<Token>) -> Seq<TokenV>
    decreases ts,
{
    if ts.len() == 0 {
        Seq::empty()
    } else {
        tokens_view(ts.drop_last()).push(token_view(ts.last()))
    }
}

pub proof fn lemma_tokens_view(ts: Seq<Token>)
    ensures
        tokens_view(ts).len() == ts.len(),
        forall|i: int| 0 <= i < ts.len() ==> tokens_view(ts)[i] == token_view(ts[i]),
    decreases ts.len(),
{
    if ts.len() > 0 {
        lemma_tokens_view(ts.drop_last());
    }
}

pub proof fn lemma_tokens_view_push(ts: Seq<Token>, t: Token)
    ensures
        tokens_view(ts.push(t)) == tokens_view(ts).push(token_view(t)),
{
    assert(ts.push(t).drop_last() =~= ts);
    assert(ts.push(t).last() == t);
}

impl View for Token {
    type V = TokenV;

    open spec fn view(&self) -> TokenV {
        token_view(*self)
    }
}

impl DeepView for Token {
    type V = TokenV;

    open spec fn deep_view(&self) -> TokenV {
        token_view(*self)
    }
}

pub open spec fn spec_open_char(d: Delim) -> char {
    match d {
        Delim::Paren => '(',
        Delim::Bracket => '[',
        Delim::Brace => '{',
    }
}

pub open spec fn spec_close_char(d: Delim) -> char {
    match d {
        Delim::Paren => ')',
        Delim::Bracket => ']',
        Delim::Brace => '}',
    }
}

/// Whether a token forbids the space that would otherwise follow it: a
/// joint punctuation token joins directly onto the next token.
pub open spec fn spec_is_joint(t: TokenV) -> bool {
    t matches TokenV::Punct(_, Spacing::Joint)
}

/// The canonical text of one token.
pub open spec fn spec_render_token(t: TokenV) -> Seq<char>
    decreases t,
{
    match t {
        TokenV::Ident(s) => s,
        TokenV::Punct(c, _) => seq![c],
        TokenV::Lit(l) => l.text,
        TokenV::Group(d, ts) => seq![spec_open_char(d)] + spec_join_space(ts)
            + seq![spec_close_char(d)],
    }
}

/// The canonical text of a token sequence: tokens joined by single spaces,
/// except that no space follows a joint punctuation token.
pub open spec fn spec_join_space(ts: Seq<TokenV>) -> Seq<char>
    decreases ts,
{
    if ts.len() == 0 {
        Seq::empty()
    } else if ts.len() == 1 {
        spec_render_token(ts[0])
    } else {
        spec_join_space(ts.drop_last()) + (if spec_is_joint(ts[ts.len() - 2]) {
            Seq::<char>::empty()
        } else {
            seq![' ']
        }) + spec_render_token(ts.last())
    }
}

pub proof fn lemma_join_space_push(ts: Seq<TokenV>, t: TokenV)
    ensures
        ts.len() == 0 ==> spec_join_space(ts.push(t)) == spec_render_token(t),
        ts.len() > 0 && spec_is_joint(ts.last()) ==> spec_join_space(ts.push(t))
            == spec_join_space(ts) + spec_render_token(t),
        ts.len() > 0 && !spec_is_joint(ts.last()) ==> spec_join_space(ts.push(t))
            == spec_join_space(ts) + seq![' '] + spec_render_token(t),
{
    assert(ts.push(t).drop_last() =~= ts);
    assert(ts.push(t).last() == t);
    if ts.len() == 0 {
        assert(ts.push(t)[0] == t);
    } else {
        assert(ts.push(t)[ts.push(t).len() - 2] == ts.last());
        if spec_is_joint(ts.last()) {
            assert(spec_join_space(ts) + Seq::<char>::empty() + spec_render_token(t)
                =~= spec_join_space(ts) + spec_render_token(t));
        }
    }
}

pub fn open_str(d: Delim) -> (r: &'static str)
    ensures
        r@ == seq![spec_open_char(d)],
{
    proof {
        reveal_strlit("(");
        reveal_strlit("[");
        reveal_strlit("{");
    }
    match d {
        Delim::Paren => "(",
        Delim::Bracket => "[",
        Delim::Brace => "{",
    }
}

pub fn close_str(d: Delim) -> (r: &'static str)
    ensures
        r@ == seq![spec_close_char(d)],
{
    proof {
        reveal_strlit(")");
        reveal_strlit("]");
        reveal_strlit("}");
    }
    match d {
        Delim::Paren => ")",
        Delim::Bracket => "]",
        Delim::Brace => "}",
    }
}

pub proof fn lemma_tokens_view_subrange(s: Seq<Token>, i: int, j: int)
    requires
        0 <= i <= j <= s.len(),
    ensures
        tokens_view(s.subrange(i, j)) == tokens_view(s).subrange(i, j),
{
    lemma_tokens_view(s);
    lemma_tokens_view(s.subrange(i, j));
    assert(tokens_view(s.subrange(i, j)) =~= tokens_view(s).subrange(i, j));
}

pub proof fn lemma_tokens_view_pointwise(a: Seq<Token>, b: Seq<Token>)
    requires
        a.len() == b.len(),
        forall|i: int| 0 <= i < a.len() ==> token_view(a[i]) == token_view(b[i]),
    ensures
        tokens_view(a) == tokens_view(b),
    decreases a.len(),
{
    if a.len() > 0 {
        lemma_tokens_view_pointwise(a.drop_last(), b.drop_last());
    }
}

fn dup_bytes(b: &Vec<u8>) -> (r: Vec<u8>)
    ensures
        r@ == b@,
{
    let mut out: Vec<u8> = Vec::new();
    let mut i: usize = 0;
    while i < b.len()
        invariant
            i <= b@.len(),
            out@ == b@.subrange(0, i as int),
        decreases b@.len() - i,
    {
        out.push(b[i]);
        proof {
            assert(b@.subrange(0, i as int + 1) =~= b@.subrange(0, i as int).push(b@[i as int]));
        }
        i += 1;
    }
    proof {
        assert(b@.subrange(0, b@.len() as int) =~= b@);
    }
    out
}

impl LitKind {
    /// A copy of this literal payload.
    pub fn duplicate(&self) -> (r: LitKind)
        ensures
            lit_kind_view(r) == lit_kind_view(*self),
    {
        match self {
            LitKind::Str(s) => LitKind::Str(s.clone()),
            LitKind::ByteStr(b) => LitKind::ByteStr(dup_bytes(b)),
            LitKind::Byte(b) => LitKind::Byte(*b),
            LitKind::Char(c) => LitKind::Char(*c),
            LitKind::Other => LitKind::Other,
        }
    }
}

impl LitTok {
    /// A copy of this literal token.
    pub fn duplicate(&self) -> (r: LitTok)
        ensures
            lit_view(r) == lit_view(*self),
    {
        LitTok { kind: self.kind.duplicate(), text: self.text.clone() }
    }
}

impl Token {
    /// A copy of this token.
    pub fn duplicate(&self) -> (r: Token)
        ensures
            r@ == self@,
        decreases *self, 1int,
    {
        match self {
            Token::Ident(s) => Token::Ident(s.clone()),
            Token::Punct(c, sp) => Token::Punct(*c, *sp),
            Token::Lit(l) => Token::Lit(l.duplicate()),
            Token::Group(d, ts) => {
                let inner = duplicate_range(ts, 0, ts.len());
                proof {
                    assert(ts@.subrange(0, ts@.len() as int) =~= ts@);
                }
                Token::Group(*d, inner)
            },
        }
    }
}

/// A copy of the tokens of `ts` with indices in `from..to`.
pub fn duplicate_range(ts: &Vec<Token>, from: usize, to: usize) -> (r: Vec<Token>)
    requires
        from <= to <= ts@.len(),
    ensures
        tokens_view(r@) == tokens_view(ts@.subrange(from as int, to as int)),
        r@.len() == to - from,
    decreases *ts, 0int,
{
    let mut out: Vec<Token> = Vec::new();
    let mut i: usize = from;
    while i < to
        invariant
            from <= i <= to <= ts@.len(),
            out@.len() == i - from,
            forall|j: int| 0 <= j < out@.len() ==> token_view(out@[j])
                == token_view(ts@[from + j]),
        decreases to - i,
    {
        let piece = (&ts[i]).duplicate();
        out.push(piece);
        i += 1;
    }
    proof {
        let sub = ts@.subrange(from as int, to as int);
        assert(forall|j: int| 0 <= j < out@.len() ==> token_view(out@[j]) == token_view(sub[j]));
        lemma_tokens_view_pointwise(out@, sub);
    }
    out
}

impl Token {
    /// The canonical text of this token.
    pub fn render(&self) -> (r: String)
        ensures
            r@ == spec_render_token(self@),
        decreases *self,
    {
        match self {
            Token::Ident(s) => s.clone(),
            Token::Punct(c, _) => char_to_string(*c),
            Token::Lit(l) => l.text.clone(),
            Token::Group(d, ts) => {
                let mut out = String::new();
                out.append(open_str(*d));
                let joined = render_tokens(ts);
                out.append(joined.as_str());
                out.append(close_str(*d));
                proof {
                    assert(out@ =~= seq![spec_open_char(*d)] + spec_join_space(tokens_view(ts@))
                        + seq![spec_close_char(*d)]);
                }
                out
            },
        }
    }
}

fn is_joint(t: &Token) -> (r: bool)
    ensures
        r == spec_is_joint(t@),
{
    match t {
        Token::Punct(_, Spacing::Joint) => true,
        _ => false,
    }
}

/// The canonical text of a token sequence: tokens joined by single spaces,
/// except that no space follows a joint punctuation token.
pub fn render_tokens(ts: &Vec<Token>) -> (r: String)
    ensures
        r@ == spec_join_space(tokens_view(ts@)),
    decreases *ts,
{
    let mut out = String::new();
    let mut i: usize = 0;
    proof {
        assert(ts@.subrange(0, 0) =~= Seq::<Token>::empty());
    }
    while i < ts.len()
        invariant
            i <= ts@.len(),
            out@ == spec_join_space(tokens_view(ts@.subrange(0, i as int))),
        decreases ts@.len() - i,
    {
        let mut spaced = false;
        if i > 0 {
            if !is_joint(&ts[i - 1]) {
                out.append(" ");
                spaced = true;
            }
        }
        let piece = (&ts[i]).render();
        out.append(piece.as_str());
        proof {
            reveal_strlit(" ");
            let prefix = ts@.subrange(0, i as int);
            assert(ts@.subrange(0, i as int + 1) =~= prefix.push(ts@[i as int]));
            lemma_tokens_view_push(prefix, ts@[i as int]);
            lemma_tokens_view(prefix);
            lemma_join_space_push(tokens_view(prefix), token_view(ts@[i as int]));
            if i > 0 {
                assert(tokens_view(prefix).last() == token_view(ts@[i as int - 1]));
                if spaced {
                    assert(out@ =~= spec_join_space(tokens_view(prefix)) + seq![' ']
                        + spec_render_token(token_view(ts@[i as int])));
                } else {
                    assert(out@ =~= spec_join_space(tokens_view(prefix))
                        + spec_render_token(token_view(ts@[i as int])));
                }
            }
        }
        i += 1;
    }
    proof {
        assert(ts@.subrange(0, ts@.len() as int) =~= ts@);
    }
    out
}

} // verus!
