//! Gamelog tailer cursor: incremental line-reading state over a growing,
//! rotatable text file.
//!
//! The file itself is read outside this crate; the cursor owns the read
//! offset and the partial line carried between reads, and turns each chunk
//! of newly appended text into the complete lines it closes.

use vstd::prelude::*;
use vstd::string::{StrSliceExecFns, StringExecFns};

verus! {

/// Splits `chars` into the complete lines it closes — starting from the
/// partial line `cur` and the lines `acc` already closed — and the partial
/// line left over.
pub open spec fn split_lines_rec(
    chars: Seq<char>,
    cur: Seq<char>,
    acc: Seq<Seq<char>>,
) -> (Seq<Seq<char>>, Seq<char>)
    decreases chars.len(),
{
    if chars.len() == 0 {
        (acc, cur)
    } else if chars[0] == '\n' {
        split_lines_rec(chars.drop_first(), Seq::empty(), acc.push(cur))
    } else {
        split_lines_rec(chars.drop_first(), cur.push(chars[0]), acc)
    }
}

/// The complete lines that reading `chars` after the partial line `cur`
/// closes.
pub open spec fn closed_lines(chars: Seq<char>, cur: Seq<char>) -> Seq<Seq<char>> {
    split_lines_rec(chars, cur, Seq::empty()).0
}

/// The partial line left over after reading `chars` past the partial line
/// `cur`.
pub open spec fn open_rest(chars: Seq<char>, cur: Seq<char>) -> Seq<char> {
    split_lines_rec(chars, cur, Seq::empty()).1
}

/// Splitting distributes over concatenation of the text: the second part
/// continues from the state the first part left behind.
pub proof fn lemma_split_lines_append(
    s1: Seq<char>,
    s2: Seq<char>,
    cur: Seq<char>,
    acc: Seq<Seq<char>>,
)
    ensures
        split_lines_rec(s1 + s2, cur, acc) == split_lines_rec(
            s2,
            split_lines_rec(s1, cur, acc).1,
            split_lines_rec(s1, cur, acc).0,
        ),
    decreases s1.len(),
{
    if s1.len() == 0 {
        assert(s1 + s2 =~= s2);
    } else {
        assert((s1 + s2)[0] == s1[0]);
        assert((s1 + s2).drop_first() =~= s1.drop_first() + s2);
        if s1[0] == '\n' {
            lemma_split_lines_append(s1.drop_first(), s2, Seq::empty(), acc.push(cur));
        } else {
            lemma_split_lines_append(s1.drop_first(), s2, cur.push(s1[0]), acc);
        }
    }
}

/// Text without a newline closes no line: it only extends the partial one.
pub proof fn lemma_split_lines_no_newline(s: Seq<char>, cur: Seq<char>, acc: Seq<Seq<char>>)
    requires
        forall|i: int| 0 <= i < s.len() ==> s[i] != '\n',
    ensures
        split_lines_rec(s, cur, acc).0 == acc,
        split_lines_rec(s, cur, acc).1 == cur + s,
    decreases s.len(),
{
    if s.len() == 0 {
        assert(cur + s =~= cur);
    } else {
        assert forall|i: int| 0 <= i < s.drop_first().len() implies s.drop_first()[i] != '\n' by {
            assert(s.drop_first()[i] == s[i + 1]);
        }
        lemma_split_lines_no_newline(s.drop_first(), cur.push(s[0]), acc);
        assert(cur.push(s[0]) + s.drop_first() =~= cur + s);
    }
}

/// The tailing cursor over the gamelog: the byte offset of the next read
/// and the partial line carried from the previous read.
pub struct GamelogCursor {
    pub offset: u64,
    pub pending: String,
}

impl GamelogCursor {
    /// A cursor positioned at `offset` — by default the current end of the
    /// file, so history is not replayed.
    pub fn new(offset: u64) -> (r: GamelogCursor)
        ensures
            r.offset == offset,
            r.pending@ == Seq::<char>::empty(),
    {
        GamelogCursor { offset, pending: String::new() }
    }

    /// Notes the file's current size.  A file shorter than the read offset
    /// was rotated or truncated by the game: the cursor resets to the
    /// start and drops its partial line, and the call reports the reset.
    pub fn observe_size(&mut self, size: u64) -> (reset: bool)
        ensures
            reset == (size < old(self).offset),
            final(self).offset == if size < old(self).offset {
                0u64
            } else {
                old(self).offset
            },
            final(self).pending@ == if size < old(self).offset {
                Seq::<char>::empty()
            } else {
                old(self).pending@
            },
    {
        if size < self.offset {
            self.offset = 0;
            self.pending = String::new();
            true
        } else {
            false
        }
    }

    /// Feeds the chunk of text read at the cursor's offset.  The offset
    /// advances by the chunk's byte length, and the call returns the
    /// complete lines the chunk closes, the carried partial line included.
    pub fn feed(&mut self, chunk: &str, byte_len: u64) -> (lines: Vec<String>)
        requires
            old(self).offset + byte_len <= u64::MAX,
        ensures
            final(self).offset == old(self).offset + byte_len,
            lines@.map_values(|l: String| l@) == closed_lines(chunk@, old(self).pending@),
            final(self).pending@ == open_rest(chunk@, old(self).pending@),
    {
        let ghost pending0 = self.pending@;
        let n = chunk.unicode_len();
        let mut lines: Vec<String> = Vec::new();
        let mut carry = self.pending.clone();
        let mut start: usize = 0;
        let mut i: usize = 0;
        proof {
            assert(chunk@.skip(0) =~= chunk@);
            assert(carry@ + chunk@.subrange(0, 0) =~= pending0);
            assert(lines@.map_values(|l: String| l@) =~= Seq::<Seq<char>>::empty());
        }
        while i < n
            invariant
                n == chunk@.len(),
                0 <= start <= i <= n,
                split_lines_rec(chunk@, pending0, Seq::empty()) == split_lines_rec(
                    chunk@.skip(i as int),
                    carry@ + chunk@.subrange(start as int, i as int),
                    lines@.map_values(|l: String| l@),
                ),
            decreases n - i,
        {
            let ghost cur = carry@ + chunk@.subrange(start as int, i as int);
            let ghost acc = lines@.map_values(|l: String| l@);
            proof {
                assert(chunk@.skip(i as int).drop_first() =~= chunk@.skip(i + 1));
                assert(chunk@.skip(i as int)[0] == chunk@[i as int]);
            }
            let c = chunk.get_char(i);
            if c == '\n' {
                let segment = chunk.substring_char(start, i);
                let line = carry.concat(segment);
                proof {
                    assert(line@ =~= cur);
                }
                lines.push(line);
                carry = String::new();
                start = i + 1;
                proof {
                    assert(lines@.map_values(|l: String| l@) =~= acc.push(cur));
                    assert(carry@ + chunk@.subrange(start as int, start as int) =~= Seq::<
                        char,
                    >::empty());
                }
            } else {
                proof {
                    assert(carry@ + chunk@.subrange(start as int, i + 1) =~= cur.push(
                        chunk@[i as int],
                    ));
                }
            }
            i = i + 1;
        }
        let segment = chunk.substring_char(start, n);
        let rest = carry.concat(segment);
        proof {
            assert(chunk@.skip(n as int) =~= Seq::<char>::empty());
            assert(rest@ =~= carry@ + chunk@.subrange(start as int, n as int));
        }
        self.pending = rest;
        self.offset = self.offset + byte_len;
        lines
    }
}

} // verus!
