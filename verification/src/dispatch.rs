//! Dispatcher: resolves the winning entry for a new gamelog line.
//!
//! Channels are scanned in soundpack-declared order and entries within a
//! channel in declared order; the first admitted entry whose pattern
//! matches the line wins and scanning stops.  First-match is global across
//! channels: this is the declared, tested policy of the engine.

use vstd::prelude::*;

use crate::pattern::pattern_matches;
use crate::player::ChannelState;
use crate::soundpack::{Channel, SoundEntry, SoundpackDefinition};
use crate::threshold::Threshold;

verus! {

/// Whether `entry` fires on `line` under channel threshold `t`: it must be
/// admitted by the threshold and its pattern must match the line.
pub open spec fn entry_fires(entry: SoundEntry, t: Threshold, line: Seq<char>) -> bool {
    t.admits_spec(entry.priority) && pattern_matches(entry.pattern@, line)
}

/// The thresholds of the runtime states, in channel order.
pub open spec fn thresholds_of(players: Seq<ChannelState>) -> Seq<Threshold> {
    players.map_values(|p: ChannelState| p.threshold)
}

/// The first entry of `entries` that fires, if any.
pub open spec fn first_entry_match(entries: Seq<SoundEntry>, t: Threshold, line: Seq<char>) -> Option<
    int,
>
    decreases entries.len(),
{
    if entries.len() == 0 {
        None
    } else if entry_fires(entries[0], t, line) {
        Some(0int)
    } else {
        match first_entry_match(entries.drop_first(), t, line) {
            Some(e) => Some(e + 1),
            None => None,
        }
    }
}

/// The first (channel, entry) pair that fires, scanning channels in
/// declared order.
pub open spec fn first_match(
    channels: Seq<Channel>,
    thresholds: Seq<Threshold>,
    line: Seq<char>,
) -> Option<(int, int)>
    decreases channels.len(),
{
    if channels.len() == 0 {
        None
    } else {
        match first_entry_match(channels[0].entries@, thresholds[0], line) {
            Some(e) => Some((0int, e)),
            None => match first_match(channels.drop_first(), thresholds.drop_first(), line) {
                Some(p) => Some((p.0 + 1, p.1)),
                None => None,
            },
        }
    }
}

/// `(c1, e1)` comes strictly before `(c2, e2)` in declared order.
pub open spec fn pair_before(c1: int, e1: int, c2: int, e2: int) -> bool {
    c1 < c2 || (c1 == c2 && e1 < e2)
}

/// No entry declared before `(ci, ei)` fires on `line`.
pub open spec fn no_match_before(
    channels: Seq<Channel>,
    thresholds: Seq<Threshold>,
    line: Seq<char>,
    ci: int,
    ei: int,
) -> bool {
    forall|c: int, e: int|
        0 <= c < channels.len() && 0 <= e < channels[c].entries@.len() && pair_before(c, e, ci, ei)
            ==> !entry_fires(#[trigger] channels[c].entries@[e], thresholds[c], line)
}

/// No entry of any channel fires on `line`.
pub open spec fn no_match_at_all(
    channels: Seq<Channel>,
    thresholds: Seq<Threshold>,
    line: Seq<char>,
) -> bool {
    forall|c: int, e: int|
        0 <= c < channels.len() && 0 <= e < channels[c].entries@.len() ==> !entry_fires(
            #[trigger] channels[c].entries@[e],
            thresholds[c],
            line,
        )
}

/// The entry-level scan returns exactly the first firing entry.
proof fn lemma_first_entry_match_correct(entries: Seq<SoundEntry>, t: Threshold, line: Seq<char>)
    ensures
        match first_entry_match(entries, t, line) {
            Some(e) => 0 <= e < entries.len() && entry_fires(entries[e], t, line) && forall|j: int|
                0 <= j < e ==> !entry_fires(#[trigger] entries[j], t, line),
            None => forall|j: int|
                0 <= j < entries.len() ==> !entry_fires(#[trigger] entries[j], t, line),
        },
    decreases entries.len(),
{
    if entries.len() == 0 {
    } else if entry_fires(entries[0], t, line) {
    } else {
        lemma_first_entry_match_correct(entries.drop_first(), t, line);
        assert forall|j: int| 1 <= j < entries.len() implies entries.drop_first()[j - 1]
            == entries[j] by {}
    }
}

/// The channel-level scan returns exactly the first firing pair, in the
/// declared-order, first-match sense.
pub proof fn lemma_first_match_correct(
    channels: Seq<Channel>,
    thresholds: Seq<Threshold>,
    line: Seq<char>,
)
    requires
        thresholds.len() == channels.len(),
    ensures
        match first_match(channels, thresholds, line) {
            Some(p) => 0 <= p.0 < channels.len() && 0 <= p.1 < channels[p.0].entries@.len()
                && entry_fires(channels[p.0].entries@[p.1], thresholds[p.0], line)
                && no_match_before(channels, thresholds, line, p.0, p.1),
            None => no_match_at_all(channels, thresholds, line),
        },
    decreases channels.len(),
{
    if channels.len() == 0 {
    } else {
        lemma_first_entry_match_correct(channels[0].entries@, thresholds[0], line);
        lemma_first_match_correct(channels.drop_first(), thresholds.drop_first(), line);
        assert forall|c: int| 1 <= c < channels.len() implies channels.drop_first()[c - 1]
            == channels[c] && thresholds.drop_first()[c - 1] == thresholds[c] by {}
    }
}

/// From a firing pair with nothing firing before it, the scan result is
/// pinned.
pub proof fn lemma_first_match_unique(
    channels: Seq<Channel>,
    thresholds: Seq<Threshold>,
    line: Seq<char>,
    ci: int,
    ei: int,
)
    requires
        thresholds.len() == channels.len(),
        0 <= ci < channels.len(),
        0 <= ei < channels[ci].entries@.len(),
        entry_fires(channels[ci].entries@[ei], thresholds[ci], line),
        no_match_before(channels, thresholds, line, ci, ei),
    ensures
        first_match(channels, thresholds, line) == Some((ci, ei)),
{
    lemma_first_match_correct(channels, thresholds, line);
    match first_match(channels, thresholds, line) {
        Some(p) => {
            if pair_before(p.0, p.1, ci, ei) {
                assert(!entry_fires(channels[p.0].entries@[p.1], thresholds[p.0], line));
            } else if pair_before(ci, ei, p.0, p.1) {
                assert(!entry_fires(channels[ci].entries@[ei], thresholds[ci], line));
            }
        },
        None => {
            assert(!entry_fires(channels[ci].entries@[ei], thresholds[ci], line));
        },
    }
}

/// Law: first-match priority.  When two entries would both fire on a line,
/// the one declared earlier wins: the scan never resolves to the later one.
pub proof fn lemma_first_match_priority(
    channels: Seq<Channel>,
    thresholds: Seq<Threshold>,
    line: Seq<char>,
    c1: int,
    e1: int,
    c2: int,
    e2: int,
)
    requires
        thresholds.len() == channels.len(),
        0 <= c1 < channels.len(),
        0 <= e1 < channels[c1].entries@.len(),
        0 <= c2 < channels.len(),
        0 <= e2 < channels[c2].entries@.len(),
        entry_fires(channels[c1].entries@[e1], thresholds[c1], line),
        entry_fires(channels[c2].entries@[e2], thresholds[c2], line),
        pair_before(c1, e1, c2, e2),
    ensures
        first_match(channels, thresholds, line) is Some,
        first_match(channels, thresholds, line) != Some((c2, e2)),
{
    lemma_first_match_correct(channels, thresholds, line);
    match first_match(channels, thresholds, line) {
        Some(p) => {
            if p.0 == c2 && p.1 == e2 {
                assert(!entry_fires(channels[c1].entries@[e1], thresholds[c1], line));
            }
        },
        None => {
            assert(!entry_fires(channels[c1].entries@[e1], thresholds[c1], line));
        },
    }
}

/// Scans the rule table for the first admitted entry matching `line`.
/// Returns its (channel, entry) indices, or `None` when no entry fires.
pub fn dispatch(pack: &SoundpackDefinition, players: &Vec<ChannelState>, line: &str) -> (r: Option<
    (usize, usize),
>)
    requires
        players@.len() == pack.channels@.len(),
    ensures
        match r {
            Some(p) => p.0 < pack.channels@.len() && p.1 < pack.channels@[p.0 as int].entries@.len()
                && entry_fires(
                pack.channels@[p.0 as int].entries@[p.1 as int],
                players@[p.0 as int].threshold,
                line@,
            ) && no_match_before(
                pack.channels@,
                thresholds_of(players@),
                line@,
                p.0 as int,
                p.1 as int,
            ) && first_match(pack.channels@, thresholds_of(players@), line@) == Some(
                (p.0 as int, p.1 as int),
            ),
            None => no_match_at_all(pack.channels@, thresholds_of(players@), line@) && first_match(
                pack.channels@,
                thresholds_of(players@),
                line@,
            ) is None,
        },
{
    let ghost ths = thresholds_of(players@);
    let mut ci: usize = 0;
    while ci < pack.channels.len()
        invariant
            players@.len() == pack.channels@.len(),
            ths == thresholds_of(players@),
            ci <= pack.channels@.len(),
            forall|c: int, e: int|
                0 <= c < ci && 0 <= e < pack.channels@[c].entries@.len() ==> !entry_fires(
                    #[trigger] pack.channels@[c].entries@[e],
                    ths[c],
                    line@,
                ),
        decreases pack.channels@.len() - ci,
    {
        let channel = &pack.channels[ci];
        let threshold = players[ci].threshold;
        assert(ths[ci as int] == threshold);
        let mut ei: usize = 0;
        while ei < channel.entries.len()
            invariant
                players@.len() == pack.channels@.len(),
                ths == thresholds_of(players@),
                0 <= ci < pack.channels@.len(),
                channel == &pack.channels@[ci as int],
                threshold == ths[ci as int],
                ei <= channel.entries@.len(),
                forall|c: int, e: int|
                    0 <= c < ci && 0 <= e < pack.channels@[c].entries@.len() ==> !entry_fires(
                        #[trigger] pack.channels@[c].entries@[e],
                        ths[c],
                        line@,
                    ),
                forall|e: int|
                    0 <= e < ei ==> !entry_fires(
                        #[trigger] channel.entries@[e],
                        threshold,
                        line@,
                    ),
            decreases channel.entries@.len() - ei,
        {
            let entry = &channel.entries[ei];
            if threshold.admits(entry.priority) && entry.pattern.is_match(line) {
                proof {
                    lemma_first_match_unique(
                        pack.channels@,
                        ths,
                        line@,
                        ci as int,
                        ei as int,
                    );
                }
                return Some((ci, ei));
            }
            ei = ei + 1;
        }
        ci = ci + 1;
    }
    proof {
        lemma_first_match_correct(pack.channels@, ths, line@);
        if first_match(pack.channels@, ths, line@) is Some {
            let p = first_match(pack.channels@, ths, line@)->Some_0;
            assert(!entry_fires(pack.channels@[p.0].entries@[p.1], ths[p.0], line@));
        }
    }
    None
}

} // verus!
