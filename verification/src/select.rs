//! Weighted candidate-file selection and its deterministic random source.
//!
//! Selection builds a cumulative-weight table and resolves a single uniform
//! draw against it; the draw comes from a small linear-congruential source,
//! so a run is reproducible from its seed.

use vstd::prelude::*;

use crate::soundpack::SoundFile;

verus! {

/// A deterministic pseudo-random source: a linear-congruential generator
/// over 31 bits.  Injecting a known seed makes selection reproducible.
pub struct SoundRng {
    pub state: u32,
}

impl SoundRng {
    /// One step of the generator.
    pub open spec fn step_spec(s: u32) -> u32 {
        ((1103515245 * s + 12345) % 0x8000_0000) as u32
    }

    pub fn new(seed: u32) -> (r: SoundRng)
        ensures
            r.state == seed,
    {
        SoundRng { state: seed }
    }

    /// Draws the next value and advances the state.
    pub fn next(&mut self) -> (r: u32)
        ensures
            final(self).state == Self::step_spec(old(self).state),
            r == final(self).state,
    {
        let wide: u64 = 1103515245u64 * (self.state as u64) + 12345u64;
        let next: u32 = (wide % 0x8000_0000u64) as u32;
        self.state = next;
        next
    }
}

/// The sum of the selection weights of `files`.
pub open spec fn total_weight(files: Seq<SoundFile>) -> int
    decreases files.len(),
{
    if files.len() == 0 {
        0
    } else {
        files[0].weight + total_weight(files.drop_first())
    }
}

/// The index selected by a uniform `draw` below the total weight: the first
/// index whose cumulative weight exceeds the draw.
pub open spec fn weighted_pick(files: Seq<SoundFile>, draw: int) -> int
    decreases files.len(),
{
    if files.len() == 0 {
        0
    } else if draw < files[0].weight {
        0
    } else {
        1 + weighted_pick(files.drop_first(), draw - files[0].weight)
    }
}

/// Appending a file adds its weight to the total.
pub proof fn lemma_total_weight_push(s: Seq<SoundFile>, x: SoundFile)
    ensures
        total_weight(s.push(x)) == total_weight(s) + x.weight,
    decreases s.len(),
{
    let p = s.push(x);
    if s.len() == 0 {
        assert(p[0] == x);
        assert(p.drop_first() =~= Seq::<SoundFile>::empty());
        assert(total_weight(p) == p[0].weight + total_weight(p.drop_first()));
        assert(total_weight(p.drop_first()) == 0);
    } else {
        assert(p[0] == s[0]);
        assert(p.drop_first() =~= s.drop_first().push(x));
        lemma_total_weight_push(s.drop_first(), x);
        assert(total_weight(p) == p[0].weight + total_weight(p.drop_first()));
        assert(total_weight(s) == s[0].weight + total_weight(s.drop_first()));
    }
}

/// The total weight is bounded by the file count times the largest weight.
pub proof fn lemma_total_weight_bound(s: Seq<SoundFile>)
    ensures
        0 <= total_weight(s) <= s.len() * 0xFFFF_FFFF,
    decreases s.len(),
{
    if s.len() > 0 {
        lemma_total_weight_bound(s.drop_first());
    }
}

/// A candidate set with some positive weight has a positive total weight.
pub proof fn lemma_total_weight_pos(s: Seq<SoundFile>)
    requires
        exists|i: int| 0 <= i < s.len() && s[i].weight > 0,
    ensures
        total_weight(s) > 0,
    decreases s.len(),
{
    let i = choose|i: int| 0 <= i < s.len() && s[i].weight > 0;
    lemma_total_weight_bound(s.drop_first());
    if i > 0 {
        assert(s.drop_first()[i - 1] == s[i]);
        lemma_total_weight_pos(s.drop_first());
    }
}

/// Sums the selection weights.
pub fn total_weight_of(files: &Vec<SoundFile>) -> (t: u64)
    requires
        files@.len() <= 0xFFFF_FFFF,
    ensures
        t == total_weight(files@),
{
    let mut acc: u64 = 0;
    let mut i: usize = 0;
    while i < files.len()
        invariant
            i <= files@.len() <= 0xFFFF_FFFF,
            acc == total_weight(files@.subrange(0, i as int)),
        decreases files@.len() - i,
    {
        let ghost prefix = files@.subrange(0, i as int);
        proof {
            lemma_total_weight_bound(prefix);
            assert(files@.subrange(0, i + 1) =~= prefix.push(files@[i as int]));
            lemma_total_weight_push(prefix, files@[i as int]);
        }
        acc = acc + files[i].weight as u64;
        i = i + 1;
    }
    proof {
        assert(files@.subrange(0, files@.len() as int) =~= files@);
    }
    acc
}

/// Resolves a uniform draw against the cumulative-weight table of `files`.
/// The selected file always has a positive weight: zero-weight files are
/// never selected.
pub fn pick_weighted(files: &Vec<SoundFile>, draw: u64) -> (idx: usize)
    requires
        0 < files@.len() <= 0xFFFF_FFFF,
        draw < total_weight(files@),
    ensures
        idx == weighted_pick(files@, draw as int),
        idx < files@.len(),
        files@[idx as int].weight > 0,
{
    let mut acc: u64 = 0;
    let mut i: usize = 0;
    proof {
        assert(files@.skip(0) =~= files@);
    }
    while i < files.len()
        invariant
            i <= files@.len() <= 0xFFFF_FFFF,
            acc == total_weight(files@.subrange(0, i as int)),
            acc <= draw < total_weight(files@),
            weighted_pick(files@, draw as int) == i + weighted_pick(
                files@.skip(i as int),
                draw - acc,
            ),
        decreases files@.len() - i,
    {
        let ghost prefix = files@.subrange(0, i as int);
        let ghost rest = files@.skip(i as int);
        proof {
            lemma_total_weight_bound(prefix);
            assert(files@.subrange(0, i + 1) =~= prefix.push(files@[i as int]));
            lemma_total_weight_push(prefix, files@[i as int]);
            assert(rest.drop_first() =~= files@.skip(i + 1));
            assert(rest[0] == files@[i as int]);
        }
        let w = files[i].weight;
        if draw < acc + w as u64 {
            assert(weighted_pick(rest, draw - acc) == 0);
            return i;
        }
        acc = acc + w as u64;
        i = i + 1;
    }
    proof {
        assert(files@.subrange(0, files@.len() as int) =~= files@);
        assert(false);
    }
    0
}

} // verus!
