//! Joining a sequence of rendered pieces with a separator.

use vstd::prelude::*;

verus! {

/// Separators for use with [`TokenVec`].
#[derive(Clone, Copy, PartialEq, Eq, Structural)]
pub enum Separator {
    /// Renders as ` `.
    Space,
    /// Renders as ` , `.
    Comma,
    /// Renders as ` ` (token text has no line structure).
    Newline,
    /// Renders as ` , `.
    CommaNewline,
    /// Renders as ` :: `.
    ColonColon,
}

impl Default for Separator {
    fn default() -> (r: Self)
        ensures
            r == Separator::Space,
    {
        Separator::Space
    }
}

impl Separator {
    /// The text placed between two consecutive pieces.
    pub open spec fn spec_text(self) -> Seq<char> {
        match self {
            Separator::Space => " "@,
            Separator::Comma => " , "@,
            Separator::Newline => " "@,
            Separator::CommaNewline => " , "@,
            Separator::ColonColon => " :: "@,
        }
    }

    /// The text placed between two consecutive pieces.
    pub fn text(self) -> (r: &'static str)
        ensures
            r@ == self.spec_text(),
    {
        match self {
            Separator::Space => " ",
            Separator::Comma => " , ",
            Separator::Newline => " ",
            Separator::CommaNewline => " , ",
            Separator::ColonColon => " :: ",
        }
    }
}

/// The given pieces joined by the separator; no separator follows the last
/// piece.
pub open spec fn spec_join_with(items: Seq<Seq<char>>, sep: Seq<char>) -> Seq<char>
    decreases items.len(),
{
    if items.len() == 0 {
        Seq::empty()
    } else if items.len() == 1 {
        items[0]
    } else {
        spec_join_with(items.drop_last(), sep) + sep + items.last()
    }
}

pub proof fn lemma_join_with_push(items: Seq<Seq<char>>, sep: Seq<char>, item: Seq<char>)
    ensures
        items.len() == 0 ==> spec_join_with(items.push(item), sep) == item,
        items.len() > 0 ==> spec_join_with(items.push(item), sep) == spec_join_with(items, sep)
            + sep + item,
{
    assert(items.push(item).drop_last() =~= items);
    assert(items.push(item).last() == item);
    if items.len() == 0 {
        assert(items.push(item)[0] == item);
    }
}

/// Storage for a set of rendered pieces and the separator joining them.
pub struct TokenVec {
    pub inner: Vec<String>,
    pub separator: Separator,
}

impl TokenVec {
    /// The joined text of the stored pieces.
    pub open spec fn spec_render(self) -> Seq<char> {
        spec_join_with(self.inner.deep_view(), self.separator.spec_text())
    }

    /// Creates a new [`TokenVec`] from a vector using the default
    /// [`Separator`].
    pub fn new_with_vec(inner: Vec<String>) -> (r: Self)
        ensures
            r.inner == inner,
            r.separator == Separator::Space,
    {
        Self::new_with_vec_and_sep(inner, Separator::Space)
    }

    /// Creates a new [`TokenVec`] from a vector using the given
    /// [`Separator`].
    pub fn new_with_vec_and_sep(inner: Vec<String>, separator: Separator) -> (r: Self)
        ensures
            r.inner == inner,
            r.separator == separator,
    {
        Self { inner, separator }
    }

    /// Renders the pieces joined by the separator, with no separator after
    /// the final piece.
    pub fn render(&self) -> (r: String)
        ensures
            r@ == self.spec_render(),
    {
        let mut out = String::new();
        let mut i: usize = 0;
        proof {
            assert(self.inner.deep_view().subrange(0, 0) =~= Seq::<Seq<char>>::empty());
        }
        while i < self.inner.len()
            invariant
                i <= self.inner@.len(),
                self.inner.deep_view().len() == self.inner@.len(),
                forall|j: int| 0 <= j < self.inner@.len() ==> self.inner.deep_view()[j]
                    == self.inner@[j]@,
                out@ == spec_join_with(
                    self.inner.deep_view().subrange(0, i as int),
                    self.separator.spec_text(),
                ),
            decreases self.inner@.len() - i,
        {
            if i > 0 {
                out.append(self.separator.text());
            }
            out.append(self.inner[i].as_str());
            proof {
                let views = self.inner.deep_view();
                let prefix = views.subrange(0, i as int);
                assert(views.subrange(0, i as int + 1) =~= prefix.push(views[i as int]));
                lemma_join_with_push(prefix, self.separator.spec_text(), views[i as int]);
                if i > 0 {
                    assert(out@ =~= spec_join_with(prefix, self.separator.spec_text())
                        + self.separator.spec_text() + views[i as int]);
                }
            }
            i += 1;
        }
        proof {
            assert(self.inner.deep_view().subrange(0, self.inner@.len() as int)
                =~= self.inner.deep_view());
        }
        out
    }
}

} // verus!
