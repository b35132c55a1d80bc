//! Splitting a string at the matches of a delimiter.
//!
//! The delimiter is an abstraction: a single character, a whole pattern
//! string, or a predicate on characters. Each implementation carries its own
//! specification of what counts as a match, and the splitter's contract is
//! stated over those specifications. Positions and lengths are counted in
//! characters throughout.

use vstd::prelude::*;

verus! {

use vstd::string::StrSliceExecFns;

/// Something that can locate its next match inside a string.
pub trait Delimiter: Sized {
    /// The text holds one full match of this delimiter exactly at
    /// `start .. end`.
    spec fn found(&self, s: Seq<char>, start: int, end: int) -> bool;

    /// No match of this delimiter begins at position `i`.
    spec fn missed(&self, s: Seq<char>, i: int) -> bool;

    /// The delimiter may be asked about any character.
    spec fn wf(&self) -> bool;

    /// The first match in `s`: its start and its end, in characters. `None`
    /// when no position begins a match.
    fn find_next(&self, s: &str) -> (r: Option<(usize, usize)>)
        requires
            self.wf(),
        ensures
            r matches Some(p) ==> {
                &&& p.0 <= p.1 <= s@.len()
                &&& self.found(s@, p.0 as int, p.1 as int)
                &&& forall|j: int| 0 <= j < p.0 ==> self.missed(s@, j)
            },
            r is None ==> forall|j: int| 0 <= j < s@.len() ==> self.missed(s@, j),
    ;
}

/// A single character as a delimiter: a match is one occurrence of it.
impl Delimiter for char {
    open spec fn found(&self, s: Seq<char>, start: int, end: int) -> bool {
        &&& 0 <= start < s.len()
        &&& s[start] == *self
        &&& end == start + 1
    }

    open spec fn missed(&self, s: Seq<char>, i: int) -> bool {
        0 <= i < s.len() ==> s[i] != *self
    }

    open spec fn wf(&self) -> bool {
        true
    }

    fn find_next(&self, s: &str) -> (r: Option<(usize, usize)>) {
        let n = s.unicode_len();
        let mut i: usize = 0;
        while i < n
            invariant
                n == s@.len(),
                i <= n,
                forall|j: int| 0 <= j < i ==> s@[j] != *self,
            decreases n - i,
        {
            if s.get_char(i) == *self {
                return Some((i, i + 1));
            }
            i = i + 1;
        }
        None
    }
}

/// A pattern string as a delimiter: a match is one occurrence of the whole
/// pattern. An empty pattern matches everywhere, at the very front first.
impl<'d> Delimiter for &'d str {
    open spec fn found(&self, s: Seq<char>, start: int, end: int) -> bool {
        &&& 0 <= start
        &&& start + self@.len() <= s.len()
        &&& end == start + self@.len()
        &&& s.subrange(start, end) == self@
    }

    open spec fn missed(&self, s: Seq<char>, i: int) -> bool {
        0 <= i && i + self@.len() <= s.len() ==> s.subrange(i, i + self@.len() as int) != self@
    }

    open spec fn wf(&self) -> bool {
        true
    }

    fn find_next(&self, s: &str) -> (r: Option<(usize, usize)>) {
        let n = s.unicode_len();
        let m = self.unicode_len();
        if m > n {
            return None;
        }
        let mut i: usize = 0;
        while i <= n - m
            invariant
                n == s@.len(),
                m == self@.len(),
                m <= n,
                i <= n - m + 1,
                forall|j: int| 0 <= j < i ==> self.missed(s@, j),
            decreases n - m - i + 1,
        {
            let mut k: usize = 0;
            while k < m && s.get_char(i + k) == self.get_char(k)
                invariant
                    n == s@.len(),
                    m == self@.len(),
                    i + m <= n,
                    k <= m,
                    forall|x: int| 0 <= x < k ==> s@[i + x] == self@[x],
                decreases m - k,
            {
                k = k + 1;
            }
            if k == m {
                proof {
                    assert(s@.subrange(i as int, i + m) =~= self@);
                }
                return Some((i, i + m));
            }
            proof {
                assert(s@.subrange(i as int, i + m) != self@) by {
                    assert(s@.subrange(i as int, i + m)[k as int] != self@[k as int]);
                }
            }
            i = i + 1;
        }
        None
    }
}

/// A predicate on characters as a delimiter: a match is one character the
/// predicate accepts. Whether a position matches is pinned only as far as
/// the predicate's own contract pins its result.
impl<F: Fn(char) -> bool> Delimiter for F {
    open spec fn found(&self, s: Seq<char>, start: int, end: int) -> bool {
        &&& 0 <= start < s.len()
        &&& end == start + 1
        &&& call_ensures(*self, (s[start],), true)
    }

    open spec fn missed(&self, s: Seq<char>, i: int) -> bool {
        0 <= i < s.len() ==> call_ensures(*self, (s[i],), false)
    }

    open spec fn wf(&self) -> bool {
        forall|c: char| call_requires(*self, (c,))
    }

    fn find_next(&self, s: &str) -> (r: Option<(usize, usize)>) {
        let n = s.unicode_len();
        let mut i: usize = 0;
        while i < n
            invariant
                n == s@.len(),
                i <= n,
                self.wf(),
                forall|j: int| 0 <= j < i ==> call_ensures(*self, (s@[j],), false),
            decreases n - i,
        {
            let c = s.get_char(i);
            if self(c) {
                return Some((i, i + 1));
            }
            i = i + 1;
        }
        None
    }
}

/// The splitter: what is left of the text, and the delimiter. Once the last
/// piece (the one after the final match) has been yielded, nothing remains.
pub struct Split<'a, D> {
    remainder: Option<&'a str>,
    delimiter: D,
}

/// Splits `s` at every match of `delimiter`, yielding the pieces between
/// the matches in order, one per call of [`Split::next`].
pub fn split<'a, D: Delimiter>(s: &'a str, delimiter: D) -> (r: Split<'a, D>)
    ensures
        r.remaining() == Some(s@),
        r.delim() == delimiter,
{
    Split { remainder: Some(s), delimiter }
}

/// One splitting step: from the text `rem`, either the piece before the
/// first match is cut off and the text after the match remains, or no
/// position matches and the whole text is the final piece.
pub open spec fn split_step<D: Delimiter>(
    d: D,
    rem: Seq<char>,
    piece: Seq<char>,
    after: Option<Seq<char>>,
) -> bool {
    ||| (exists|start: int, end: int|
        {
            &&& 0 <= start <= end <= rem.len()
            &&& #[trigger] d.found(rem, start, end)
            &&& (forall|j: int| 0 <= j < start ==> d.missed(rem, j))
            &&& piece == rem.subrange(0, start)
            &&& after == Some(rem.subrange(end, rem.len() as int))
        })
    ||| {
        &&& (forall|j: int| 0 <= j < rem.len() ==> d.missed(rem, j))
        &&& piece == rem
        &&& after is None
    }
}

impl<'a, D: Delimiter> Split<'a, D> {
    /// The text not yet yielded, if any.
    pub closed spec fn remaining(self) -> Option<Seq<char>> {
        match self.remainder {
            Some(s) => Some(s@),
            None => None,
        }
    }

    /// The delimiter this splitter was built with.
    pub closed spec fn delim(self) -> D {
        self.delimiter
    }

    /// The next piece: the text before the first match of the delimiter in
    /// what remains, or all of it when nothing matches any more. `None` once
    /// everything has been yielded.
    pub fn next(&mut self) -> (r: Option<&'a str>)
        requires
            old(self).delim().wf(),
        ensures
            final(self).delim() == old(self).delim(),
            old(self).remaining() is None ==> r is None && final(self).remaining() is None,
            old(self).remaining() matches Some(rem) ==> r matches Some(piece) && split_step(
                old(self).delim(),
                rem,
                piece@,
                final(self).remaining(),
            ),
    {
        let s: &'a str = match self.remainder {
            Some(s) => s,
            None => {
                return None;
            },
        };
        match self.delimiter.find_next(s) {
            Some((start, end)) => {
                let ret = s.substring_char(0, start);
                let rest = s.substring_char(end, s.unicode_len());
                self.remainder = Some(rest);
                proof {
                    assert(0 <= start as int <= end as int <= s@.len());
                    assert(split_step(self.delimiter, s@, ret@, Some(rest@)));
                }
                Some(ret)
            },
            None => {
                self.remainder = None;
                Some(s)
            },
        }
    }
}

} // verus!
