//! The remarks of a cue sheet.

use vstd::prelude::*;
use vstd::string::*;
use crate::text::lines;
use crate::text::spec_lines;
use crate::utils::keyword;
use crate::utils::spec_keyword;
use crate::views::lemma_deep_view_push;

verus! {

/// The texts of the `REM` lines of a sheet, in the order of the sheet.
#[derive(Debug, Clone, PartialEq, Eq, Hash)]
pub struct Comment(pub Vec<String>);

/// The texts of those of the first `n` lines that begin with the keyword
/// `REM`, in any case, and a space: what follows that space, in the order of
/// the lines.
pub open spec fn spec_remarks(lines: Seq<Seq<char>>, n: int) -> Seq<Seq<char>>
    decreases n,
{
    if n <= 0 || n > lines.len() {
        Seq::empty()
    } else {
        match spec_keyword("REM"@, lines[n - 1]) {
            Some((text, _)) => spec_remarks(lines, n - 1).push(text),
            None => spec_remarks(lines, n - 1),
        }
    }
}

impl View for Comment {
    type V = Seq<Seq<char>>;

    open spec fn view(&self) -> Seq<Seq<char>> {
        self.0.deep_view()
    }
}

impl DeepView for Comment {
    type V = Seq<Seq<char>>;

    open spec fn deep_view(&self) -> Seq<Seq<char>> {
        self@
    }
}

impl Comment {
    /// Collects the remarks of a text: of each line that begins with `REM`
    /// and a space, what follows that space.
    pub fn new(s: &str) -> (r: Self)
        ensures
            r@ == spec_remarks(spec_lines(s@), spec_lines(s@).len() as int),
    {
        let all = lines(s);
        let mut r: Vec<String> = Vec::new();
        let mut i: usize = 0;
        while i < all.len()
            invariant
                i <= all@.len(),
                all.deep_view() == spec_lines(s@),
                r.deep_view() == spec_remarks(spec_lines(s@), i as int),
            decreases all@.len() - i,
        {
            match keyword("REM", all[i]) {
                Some((text, _)) => {
                    let ghost before = r;
                    let owned = text.to_owned();
                    r.push(owned);
                    proof {
                        lemma_deep_view_push(before, r, owned);
                    }
                },
                None => {},
            }
            i = i + 1;
        }
        Comment(r)
    }

    /// Appends a remark.
    pub fn push(&mut self, s: String)
        ensures
            final(self)@ == old(self)@.push(s@),
    {
        self.0.push(s);
        proof {
            lemma_deep_view_push(old(self).0, self.0, s);
        }
    }
}

impl Default for Comment {
    fn default() -> (r: Self)
        ensures
            r@ == Seq::<Seq<char>>::empty(),
    {
        let r = Comment(Vec::new());
        r
    }
}

impl IntoIterator for Comment {
    type Item = String;

    type IntoIter = std::vec::IntoIter<String>;

    fn into_iter(self) -> (r: std::vec::IntoIter<String>)
        ensures
            vstd::std_specs::iter::IteratorSpec::remaining(&r) == self.0@,
    {
        self.0.into_iter()
    }
}

} // verus!
