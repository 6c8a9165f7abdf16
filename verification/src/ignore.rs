//! Ignore-list filter: patterns tested before any dispatch.

use vstd::prelude::*;

use crate::pattern::{pattern_matches, pattern_valid, Pattern};

verus! {

/// The pattern texts of `lines` that the pattern compiler accepts, in order;
/// the rest are skipped.
pub open spec fn valid_sources(lines: Seq<String>) -> Seq<Seq<char>>
    decreases lines.len(),
{
    if lines.len() == 0 {
        Seq::empty()
    } else {
        let rest = valid_sources(lines.drop_last());
        if pattern_valid(lines.last()@) {
            rest.push(lines.last()@)
        } else {
            rest
        }
    }
}

/// Whether some pattern of `pats` matches `line`.
pub open spec fn line_ignored(pats: Seq<Seq<char>>, line: Seq<char>) -> bool {
    exists|i: int| 0 <= i < pats.len() && pattern_matches(pats[i], line)
}

/// An ordered set of compiled ignore patterns.  A line matching any of them
/// is dropped before dispatch.
pub struct IgnoreList {
    patterns: Vec<Pattern>,
}

impl View for IgnoreList {
    type V = Seq<Seq<char>>;

    /// An ignore list is abstractly the sequence of its pattern texts.
    closed spec fn view(&self) -> Seq<Seq<char>> {
        self.patterns@.map_values(|p: Pattern| p@)
    }
}

impl IgnoreList {
    /// The empty filter: ignores nothing.
    pub fn empty() -> (r: IgnoreList)
        ensures
            r@ == Seq::<Seq<char>>::empty(),
    {
        let r = IgnoreList { patterns: Vec::new() };
        proof {
            assert(r@ =~= Seq::<Seq<char>>::empty());
        }
        r
    }

    /// Compiles an ignore list from pattern texts, one pattern per line.
    /// Lines the pattern compiler rejects are skipped; the rest are kept in
    /// order.
    pub fn load(lines: &Vec<String>) -> (r: IgnoreList)
        ensures
            r@ == valid_sources(lines@),
    {
        let mut patterns: Vec<Pattern> = Vec::new();
        let mut i: usize = 0;
        while i < lines.len()
            invariant
                i <= lines@.len(),
                patterns@.map_values(|p: Pattern| p@) =~= valid_sources(lines@.subrange(0, i as int)),
            decreases lines@.len() - i,
        {
            let ghost prefix = lines@.subrange(0, i as int);
            if let Some(p) = Pattern::compile(lines[i].as_str()) {
                patterns.push(p);
            }
            proof {
                let next = lines@.subrange(0, i + 1int);
                assert(next.drop_last() =~= prefix);
                assert(next.last() == lines@[i as int]);
            }
            i = i + 1;
        }
        proof {
            assert(lines@.subrange(0, lines@.len() as int) =~= lines@);
        }
        IgnoreList { patterns }
    }

    /// Tests a line against the filter: true exactly when some pattern
    /// matches it.
    pub fn is_ignored(&self, line: &str) -> (r: bool)
        ensures
            r == line_ignored(self@, line@),
    {
        let mut i: usize = 0;
        while i < self.patterns.len()
            invariant
                i <= self.patterns@.len(),
                forall|j: int| 0 <= j < i ==> !pattern_matches(#[trigger] self@[j], line@),
            decreases self.patterns@.len() - i,
        {
            if self.patterns[i].is_match(line) {
                assert(pattern_matches(self@[i as int], line@));
                return true;
            }
            i = i + 1;
        }
        false
    }

    /// How many patterns the filter holds.
    pub fn len(&self) -> (r: usize)
        ensures
            r == self@.len(),
    {
        self.patterns.len()
    }
}

} // verus!
