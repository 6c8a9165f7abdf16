//! The sound manager: owns the rule table, the ignore filter and every
//! channel's runtime state, and applies the control messages of the
//! presentation surface.
//!
//! The manager never performs I/O itself: configuration data arrives as
//! plain values, and playback work leaves as [`PlaybackAction`] values for
//! the audio backend to perform.

use vstd::prelude::*;

use crate::dispatch::{dispatch, first_match, thresholds_of};
use crate::ignore::{line_ignored, valid_sources, IgnoreList};
use crate::player::{clamp_volume, stops_of, ChannelState, PlaybackAction};
use crate::select::{
    lemma_total_weight_pos, pick_weighted, total_weight, total_weight_of, weighted_pick, SoundRng,
};
use crate::soundpack::{
    entries_compiled_from, kept_channels, valid_raw_entries, RawChannel, SoundEntry,
    SoundpackDefinition,
};
use crate::threshold::Threshold;

verus! {

/// A control message from the presentation surface to the engine.
/// Messages naming an unknown channel are no-ops, never errors.
#[derive(Debug)]
pub enum SoundMessage {
    /// Set the named channel's volume; out-of-range values are clamped.
    VolumeChange(String, i64),
    /// Set the named channel's threshold.
    ThresholdChange(String, Threshold),
    /// Stop everything the named channel is playing.
    SkipCurrentSound(String),
    /// Toggle the named channel's pause flag.
    PlayPause(String),
}

/// A status message from the engine back to the presentation surface.
#[derive(Debug, PartialEq, Eq)]
pub enum UIMessage {
    /// The gamelog tailer is ready.
    LoadedGamelog,
    /// The rule table compiled; carries the ordered channel names.
    LoadedSoundpack(Vec<String>),
    /// The ignore filter is ready.
    LoadedIgnoreList,
    /// Persisted default volumes were applied.
    LoadedVolumeSettings(Vec<(String, u8)>),
    /// Pause toggle confirmed, with the resulting flag.
    ChannelWasPlayPaused(String, bool),
    /// Skip confirmed.
    ChannelSoundWasSkipped(String),
    /// Threshold change confirmed, with the new level.
    ChannelThresholdWasChanged(String, u8),
    /// A recoverable engine error, with its source label and description.
    SoundThreadPanicked(String, String),
}

/// The first channel state carrying `name`, if any.
pub open spec fn find_channel(players: Seq<ChannelState>, name: Seq<char>) -> Option<int>
    decreases players.len(),
{
    if players.len() == 0 {
        None
    } else if players[0].name@ == name {
        Some(0int)
    } else {
        match find_channel(players.drop_first(), name) {
            Some(i) => Some(i + 1),
            None => None,
        }
    }
}

/// The lookup finds exactly the first state with the name.
pub proof fn lemma_find_channel_correct(players: Seq<ChannelState>, name: Seq<char>)
    ensures
        match find_channel(players, name) {
            Some(i) => 0 <= i < players.len() && players[i].name@ == name && forall|j: int|
                0 <= j < i ==> (#[trigger] players[j]).name@ != name,
            None => forall|j: int| 0 <= j < players.len() ==> (#[trigger] players[j]).name@ != name,
        },
    decreases players.len(),
{
    if players.len() == 0 {
    } else if players[0].name@ == name {
    } else {
        lemma_find_channel_correct(players.drop_first(), name);
        assert forall|j: int| 1 <= j < players.len() implies players.drop_first()[j - 1]
            == players[j] by {}
    }
}

/// From a name hit with no earlier hit, the lookup result is pinned.
pub proof fn lemma_find_channel_unique(players: Seq<ChannelState>, name: Seq<char>, i: int)
    requires
        0 <= i < players.len(),
        players[i].name@ == name,
        forall|j: int| 0 <= j < i ==> (#[trigger] players[j]).name@ != name,
    ensures
        find_channel(players, name) == Some(i),
{
    lemma_find_channel_correct(players, name);
    match find_channel(players, name) {
        Some(k) => {
            if k < i {
                assert(players[k].name@ != name);
            } else if i < k {
                assert(players[i].name@ != name);
            }
        },
        None => {
            assert(players[i].name@ != name);
        },
    }
}

/// Finds the first channel state named `name`.
fn find_in(players: &Vec<ChannelState>, name: &String) -> (r: Option<usize>)
    ensures
        match r {
            Some(i) => i < players@.len() && find_channel(players@, name@) == Some(i as int),
            None => find_channel(players@, name@) is None,
        },
{
    let mut i: usize = 0;
    while i < players.len()
        invariant
            i <= players@.len(),
            forall|j: int| 0 <= j < i ==> (#[trigger] players@[j]).name@ != name@,
        decreases players@.len() - i,
    {
        if players[i].name == *name {
            proof {
                lemma_find_channel_unique(players@, name@, i as int);
            }
            return Some(i);
        }
        i = i + 1;
    }
    proof {
        lemma_find_channel_correct(players@, name@);
        if find_channel(players@, name@) is Some {
            let k = find_channel(players@, name@)->Some_0;
            assert(players@[k].name@ != name@);
        }
    }
    None
}

/// All states but the one at `i` are untouched.
pub open spec fn others_unchanged(pre: Seq<ChannelState>, post: Seq<ChannelState>, i: int) -> bool {
    &&& post.len() == pre.len()
    &&& forall|j: int| 0 <= j < pre.len() && j != i ==> post[j] == #[trigger] pre[j]
}

/// The sound engine: rule table, ignore filter, channel states, random
/// source and handle counter.
pub struct SoundManager {
    pub pack: Option<SoundpackDefinition>,
    pub ignore: IgnoreList,
    pub players: Vec<ChannelState>,
    pub rng: SoundRng,
    pub next_handle: u64,
}

/// How one control message relates the engine state before to the state
/// after, together with the exact status messages and playback actions it
/// causes.  A message naming an unknown channel changes nothing and reports
/// nothing.
pub open spec fn message_applied(
    pre: SoundManager,
    post: SoundManager,
    msg: SoundMessage,
    ui: Seq<UIMessage>,
    acts: Seq<PlaybackAction>,
) -> bool {
    &&& post.pack == pre.pack
    &&& post.ignore == pre.ignore
    &&& post.rng == pre.rng
    &&& post.next_handle == pre.next_handle
    &&& match msg {
        SoundMessage::VolumeChange(name, v) => match find_channel(pre.players@, name@) {
            Some(i) => {
                &&& others_unchanged(pre.players@, post.players@, i)
                &&& post.players@[i].volume == clamp_volume(v as int)
                &&& post.players@[i].name@ == pre.players@[i].name@
                &&& post.players@[i].paused == pre.players@[i].paused
                &&& post.players@[i].threshold == pre.players@[i].threshold
                &&& ChannelState::same_handles(pre.players@[i], post.players@[i])
                &&& ui.len() == 0
                &&& acts == seq![
                    (PlaybackAction::SetVolume {
                        channel: post.players@[i].name,
                        volume: post.players@[i].volume,
                    }),
                ]
            },
            None => post.players@ == pre.players@ && ui.len() == 0 && acts.len() == 0,
        },
        SoundMessage::ThresholdChange(name, t) => match find_channel(pre.players@, name@) {
            Some(i) => {
                &&& others_unchanged(pre.players@, post.players@, i)
                &&& post.players@[i].threshold == t
                &&& post.players@[i].name@ == pre.players@[i].name@
                &&& post.players@[i].volume == pre.players@[i].volume
                &&& post.players@[i].paused == pre.players@[i].paused
                &&& ChannelState::same_handles(pre.players@[i], post.players@[i])
                &&& ui.len() == 1
                &&& ui[0] matches UIMessage::ChannelThresholdWasChanged(n, lvl) && n@ == name@
                    && lvl as int == t.level()
                &&& acts.len() == 0
            },
            None => post.players@ == pre.players@ && ui.len() == 0 && acts.len() == 0,
        },
        SoundMessage::SkipCurrentSound(name) => match find_channel(pre.players@, name@) {
            Some(i) => {
                &&& others_unchanged(pre.players@, post.players@, i)
                &&& ChannelState::same_config(pre.players@[i], post.players@[i])
                &&& post.players@[i].active_loop is None
                &&& post.players@[i].one_shots@ == Seq::<u64>::empty()
                &&& ui == seq![UIMessage::ChannelSoundWasSkipped(name)]
                &&& acts == pre.players@[i].stop_all_actions()
            },
            None => post.players@ == pre.players@ && ui.len() == 0 && acts.len() == 0,
        },
        SoundMessage::PlayPause(name) => match find_channel(pre.players@, name@) {
            Some(i) => {
                &&& others_unchanged(pre.players@, post.players@, i)
                &&& ChannelState::play_pause_rel(pre.players@[i], post.players@[i])
                &&& ui == seq![
                    UIMessage::ChannelWasPlayPaused(name, post.players@[i].paused),
                ]
                &&& acts == seq![
                    (PlaybackAction::SetPaused {
                        channel: post.players@[i].name,
                        paused: post.players@[i].paused,
                    }),
                ]
            },
            None => post.players@ == pre.players@ && ui.len() == 0 && acts.len() == 0,
        },
    }
}

/// What a firing entry starts: its selected file, looped or once, at the
/// channel's current volume, under the fresh handle.
pub open spec fn start_action(
    player: ChannelState,
    entry: SoundEntry,
    file_index: int,
    handle: u64,
) -> PlaybackAction {
    if entry.is_loop {
        PlaybackAction::StartLoop {
            channel: player.name,
            file: entry.files@[file_index].path,
            volume: player.volume,
            delay_ms: entry.delay_ms,
            handle: handle,
        }
    } else {
        PlaybackAction::StartOneShot {
            channel: player.name,
            file: entry.files@[file_index].path,
            volume: player.volume,
            delay_ms: entry.delay_ms,
            handle: handle,
        }
    }
}

/// The engine state is untouched and no playback action leaves.
pub open spec fn line_dropped(
    pre: SoundManager,
    post: SoundManager,
    acts: Seq<PlaybackAction>,
) -> bool {
    &&& post.players@ == pre.players@
    &&& post.rng == pre.rng
    &&& post.next_handle == pre.next_handle
    &&& acts.len() == 0
}

/// How one new gamelog line relates the engine state before to the state
/// after, with the exact playback actions it causes.  An ignored line, a
/// line nothing matches, and a line whose winning channel is paused all
/// leave the engine untouched; otherwise the first matching admitted entry
/// fires on its channel with a weighted-selected file under a fresh handle.
pub open spec fn line_processed(
    pre: SoundManager,
    post: SoundManager,
    line: Seq<char>,
    acts: Seq<PlaybackAction>,
) -> bool {
    &&& post.pack == pre.pack
    &&& post.ignore == pre.ignore
    &&& if line_ignored(pre.ignore@, line) || pre.pack is None {
        line_dropped(pre, post, acts)
    } else {
        let pack = pre.pack->0;
        match first_match(pack.channels@, thresholds_of(pre.players@), line) {
            None => line_dropped(pre, post, acts),
            Some(p) => {
                let ci = p.0;
                let entry = pack.channels@[ci].entries@[p.1];
                if pre.players@[ci].paused {
                    line_dropped(pre, post, acts)
                } else {
                    let draw = SoundRng::step_spec(pre.rng.state) as int % total_weight(
                        entry.files@,
                    );
                    let fi = weighted_pick(entry.files@, draw);
                    &&& post.rng.state == SoundRng::step_spec(pre.rng.state)
                    &&& post.next_handle == pre.next_handle + 1
                    &&& others_unchanged(pre.players@, post.players@, ci)
                    &&& ChannelState::trigger_rel(
                        pre.players@[ci],
                        post.players@[ci],
                        entry.is_loop,
                        entry.concurrent,
                        entry.halts_others,
                        pre.next_handle,
                    )
                    &&& acts == ChannelState::trigger_stops(
                        pre.players@[ci],
                        entry.is_loop,
                        entry.concurrent,
                        entry.halts_others,
                    ) + seq![start_action(pre.players@[ci], entry, fi, pre.next_handle)]
                }
            },
        }
    }
}

/// The lookup sees only names: state sequences that agree name-for-name
/// resolve alike.
proof fn lemma_find_channel_names(p1: Seq<ChannelState>, p2: Seq<ChannelState>, name: Seq<char>)
    requires
        p1.len() == p2.len(),
        forall|i: int| 0 <= i < p1.len() ==> (#[trigger] p1[i]).name@ == p2[i].name@,
    ensures
        find_channel(p1, name) == find_channel(p2, name),
    decreases p1.len(),
{
    if p1.len() == 0 {
    } else {
        assert forall|i: int| 0 <= i < p1.drop_first().len() implies (#[trigger] p1.drop_first()[
            i
        ]).name@ == p2.drop_first()[i].name@ by {
            assert(p1.drop_first()[i] == p1[i + 1]);
            assert(p2.drop_first()[i] == p2[i + 1]);
        }
        lemma_find_channel_names(p1.drop_first(), p2.drop_first(), name);
    }
}

/// Law: pause involution at the engine level.  Two consecutive pause
/// toggles for the same channel, with no other message in between, leave
/// every channel exactly as configured before, with the same live handles.
pub proof fn lemma_pause_involution_engine(
    s0: SoundManager,
    s1: SoundManager,
    s2: SoundManager,
    name1: String,
    name2: String,
    ui1: Seq<UIMessage>,
    ui2: Seq<UIMessage>,
    a1: Seq<PlaybackAction>,
    a2: Seq<PlaybackAction>,
)
    requires
        name1@ == name2@,
        message_applied(s0, s1, SoundMessage::PlayPause(name1), ui1, a1),
        message_applied(s1, s2, SoundMessage::PlayPause(name2), ui2, a2),
    ensures
        s2.pack == s0.pack,
        s2.players@.len() == s0.players@.len(),
        forall|i: int|
            0 <= i < s0.players@.len() ==> ChannelState::same_config(
                s0.players@[i],
                #[trigger] s2.players@[i],
            ) && ChannelState::same_handles(s0.players@[i], s2.players@[i]),
{
    match find_channel(s0.players@, name1@) {
        None => {
            lemma_find_channel_names(s0.players@, s1.players@, name2@);
        },
        Some(i) => {
            lemma_find_channel_correct(s0.players@, name1@);
            lemma_find_channel_names(s0.players@, s1.players@, name2@);
            assert(find_channel(s1.players@, name2@) == Some(i));
        },
    }
}

/// Stop actions for every live handle of every channel, in channel order.
pub open spec fn all_stop_actions(players: Seq<ChannelState>) -> Seq<PlaybackAction>
    decreases players.len(),
{
    if players.len() == 0 {
        Seq::empty()
    } else {
        all_stop_actions(players.drop_last()) + players.last().stop_all_actions()
    }
}

/// Collects stop actions for every live handle of every channel.
fn collect_all_stops(players: &Vec<ChannelState>) -> (acts: Vec<PlaybackAction>)
    ensures
        acts@ == all_stop_actions(players@),
{
    let mut acts: Vec<PlaybackAction> = Vec::new();
    let mut i: usize = 0;
    while i < players.len()
        invariant
            i <= players@.len(),
            acts@ =~= all_stop_actions(players@.subrange(0, i as int)),
        decreases players@.len() - i,
    {
        let ghost prefix = players@.subrange(0, i as int);
        let ghost before = acts@;
        if let Some(h) = players[i].active_loop {
            acts.push(PlaybackAction::StopHandle { handle: h });
        }
        proof {
            assert(acts@ =~= before + players@[i as int].loop_stops());
        }
        let ghost mid = acts@;
        let mut j: usize = 0;
        while j < players[i].one_shots.len()
            invariant
                i < players@.len(),
                j <= players@[i as int].one_shots@.len(),
                acts@ =~= mid + stops_of(players@[i as int].one_shots@.subrange(0, j as int)),
            decreases players@[i as int].one_shots@.len() - j,
        {
            let h = players[i].one_shots[j];
            acts.push(PlaybackAction::StopHandle { handle: h });
            proof {
                let shots = players@[i as int].one_shots@;
                assert(shots.subrange(0, j + 1) =~= shots.subrange(0, j as int).push(h));
                assert(stops_of(shots.subrange(0, j + 1)) =~= stops_of(
                    shots.subrange(0, j as int),
                ).push(PlaybackAction::StopHandle { handle: h }));
            }
            j = j + 1;
        }
        proof {
            let shots = players@[i as int].one_shots@;
            assert(shots.subrange(0, shots.len() as int) =~= shots);
            assert(players@.subrange(0, i + 1).drop_last() =~= prefix);
            assert(players@.subrange(0, i + 1).last() == players@[i as int]);
            assert(acts@ =~= all_stop_actions(players@.subrange(0, i + 1)));
        }
        i = i + 1;
    }
    proof {
        assert(players@.subrange(0, players@.len() as int) =~= players@);
    }
    acts
}

/// How one channel state is carried across a soundpack swap: volume, pause
/// flag and threshold persist by name, a new name starts fresh, and live
/// handles never survive the swap.
pub open spec fn reconciled_player(
    pre: Seq<ChannelState>,
    p: ChannelState,
    name: Seq<char>,
) -> bool {
    &&& p.name@ == name
    &&& p.active_loop is None
    &&& p.one_shots@ == Seq::<u64>::empty()
    &&& match find_channel(pre, name) {
        Some(j) => p.volume == pre[j].volume && p.paused == pre[j].paused && p.threshold
            == pre[j].threshold,
        None => p.volume == 0 && !p.paused && p.threshold == Threshold::Everything,
    }
}

/// How a soundpack reload relates the engine state before to the state
/// after.  A pack with no usable channel is reported and changes nothing;
/// otherwise the rule table is swapped wholesale, every live handle of the
/// old configuration is stopped, and channel states persist by name.
pub open spec fn soundpack_applied(
    pre: SoundManager,
    post: SoundManager,
    raw: Seq<RawChannel>,
    ui: Seq<UIMessage>,
    acts: Seq<PlaybackAction>,
) -> bool {
    &&& post.ignore == pre.ignore
    &&& post.rng == pre.rng
    &&& post.next_handle == pre.next_handle
    &&& if kept_channels(raw).len() == 0 {
        &&& post.pack == pre.pack
        &&& post.players@ == pre.players@
        &&& acts.len() == 0
        &&& ui.len() == 1
        &&& ui[0] matches UIMessage::SoundThreadPanicked(src, msg) && src@ == "soundpack"@
            && msg@ == "no usable channels in soundpack"@
    } else {
        let kept = kept_channels(raw);
        &&& post.pack matches Some(pack) && {
            &&& pack.wf()
            &&& pack.channels@.len() == kept.len()
            &&& forall|i: int|
                0 <= i < kept.len() ==> (#[trigger] pack.channels@[i]).name@ == kept[i].name@
            &&& forall|i: int|
                0 <= i < kept.len() ==> entries_compiled_from(
                    (#[trigger] pack.channels@[i]).entries@,
                    valid_raw_entries(kept[i].entries@),
                )
            &&& post.players@.len() == pack.channels@.len()
            &&& forall|i: int|
                0 <= i < post.players@.len() ==> reconciled_player(
                    pre.players@,
                    #[trigger] post.players@[i],
                    pack.channels@[i].name@,
                )
            &&& ui.len() == 1
            &&& ui[0] matches UIMessage::LoadedSoundpack(names) && names@.len()
                == pack.channels@.len() && forall|i: int|
                0 <= i < names@.len() ==> (#[trigger] names@[i])@ == pack.channels@[i].name@
        }
        &&& acts == all_stop_actions(pre.players@)
    }
}

/// The channel states after applying persisted default volumes in order:
/// each pair sets the clamped volume of the first state carrying its name;
/// unknown names are ignored.
pub open spec fn apply_volumes(
    players: Seq<ChannelState>,
    pairs: Seq<(String, u8)>,
) -> Seq<ChannelState>
    decreases pairs.len(),
{
    if pairs.len() == 0 {
        players
    } else {
        let rest = apply_volumes(players, pairs.drop_last());
        let pair = pairs.last();
        match find_channel(rest, pair.0@) {
            Some(j) => rest.update(
                j,
                ChannelState { volume: clamp_volume(pair.1 as int) as u8, ..rest[j] },
            ),
            None => rest,
        }
    }
}

/// How a batch of lines relates engine states: the lines are processed in
/// order, each one from the state the previous one left behind, and the
/// actions are their actions concatenated.
pub open spec fn lines_processed(
    pre: SoundManager,
    post: SoundManager,
    lines: Seq<String>,
    acts: Seq<PlaybackAction>,
) -> bool
    decreases lines.len(),
{
    if lines.len() == 0 {
        post == pre && acts == Seq::<PlaybackAction>::empty()
    } else {
        exists|mid: SoundManager, last: Seq<PlaybackAction>|
            #![trigger line_processed(mid, post, lines.last()@, last)]
            {
                &&& last.len() <= acts.len()
                &&& lines_processed(pre, mid, lines.drop_last(), acts.take(acts.len() - last.len()))
                &&& line_processed(mid, post, lines.last()@, last)
                &&& acts.skip(acts.len() - last.len()) == last
            }
    }
}

/// Law: ignore precedence.  A line matching an ignore pattern leaves the
/// engine untouched and fires no entry, whatever the soundpack holds.
pub proof fn lemma_ignore_precedence(
    pre: SoundManager,
    post: SoundManager,
    line: Seq<char>,
    acts: Seq<PlaybackAction>,
)
    requires
        line_processed(pre, post, line, acts),
        line_ignored(pre.ignore@, line),
    ensures
        post.players@ == pre.players@,
        post.pack == pre.pack,
        post.rng == pre.rng,
        acts.len() == 0,
{
}

impl SoundManager {
    /// Structural invariant: the channel states line up one-to-one, by
    /// name, with the channels of the loaded rule table, and every state is
    /// well-formed.
    pub open spec fn wf(&self) -> bool {
        &&& match self.pack {
            Some(pack) => {
                &&& pack.wf()
                &&& self.players@.len() == pack.channels@.len()
                &&& forall|i: int|
                    0 <= i < self.players@.len() ==> (#[trigger] self.players@[i]).name@
                        == pack.channels@[i].name@
            },
            None => self.players@.len() == 0,
        }
        &&& forall|i: int| 0 <= i < self.players@.len() ==> (#[trigger] self.players@[i]).wf()
    }

    /// A fresh engine: no soundpack, no ignore patterns, no channels, the
    /// random source seeded as given.
    pub fn new(seed: u32) -> (r: SoundManager)
        ensures
            r.wf(),
            r.pack is None,
            r.players@.len() == 0,
            r.ignore@ == Seq::<Seq<char>>::empty(),
            r.rng.state == seed,
            r.next_handle == 0,
    {
        SoundManager {
            pack: None,
            ignore: IgnoreList::empty(),
            players: Vec::new(),
            rng: SoundRng::new(seed),
            next_handle: 0,
        }
    }

    /// Applies one control message, returning the status messages and
    /// playback actions it causes.
    pub fn handle_message(&mut self, msg: SoundMessage) -> (r: (Vec<UIMessage>, Vec<PlaybackAction>))
        requires
            old(self).wf(),
        ensures
            final(self).wf(),
            message_applied(*old(self), *final(self), msg, r.0@, r.1@),
    {
        let mut ui: Vec<UIMessage> = Vec::new();
        let mut acts: Vec<PlaybackAction> = Vec::new();
        match msg {
            SoundMessage::VolumeChange(name, v) => {
                if let Some(i) = find_in(&self.players, &name) {
                    let mut a = self.players[i].set_volume(v);
                    acts.append(&mut a);
                }
            },
            SoundMessage::ThresholdChange(name, t) => {
                if let Some(i) = find_in(&self.players, &name) {
                    self.players[i].set_threshold(t);
                    ui.push(UIMessage::ChannelThresholdWasChanged(name, t.as_level()));
                }
            },
            SoundMessage::SkipCurrentSound(name) => {
                if let Some(i) = find_in(&self.players, &name) {
                    let mut a = self.players[i].skip();
                    acts.append(&mut a);
                    ui.push(UIMessage::ChannelSoundWasSkipped(name));
                }
            },
            SoundMessage::PlayPause(name) => {
                if let Some(i) = find_in(&self.players, &name) {
                    let mut a = self.players[i].play_pause();
                    acts.append(&mut a);
                    ui.push(UIMessage::ChannelWasPlayPaused(name, self.players[i].paused));
                }
            },
        }
        (ui, acts)
    }

    /// Runs one new, complete gamelog line through the ignore filter, the
    /// dispatcher and the winning channel's player.
    pub fn process_line(&mut self, line: &str) -> (acts: Vec<PlaybackAction>)
        requires
            old(self).wf(),
            old(self).next_handle < u64::MAX,
        ensures
            final(self).wf(),
            line_processed(*old(self), *final(self), line@, acts@),
    {
        if self.ignore.is_ignored(line) {
            return Vec::new();
        }
        match &self.pack {
            None => Vec::new(),
            Some(pack) => {
                match dispatch(pack, &self.players, line) {
                    None => Vec::new(),
                    Some((ci, ei)) => {
                        if self.players[ci].paused {
                            return Vec::new();
                        }
                        let entry = &pack.channels[ci].entries[ei];
                        proof {
                            assert(pack.channels@[ci as int].wf());
                            assert(entry.wf());
                            lemma_total_weight_pos(entry.files@);
                        }
                        let total = total_weight_of(&entry.files);
                        let draw = (self.rng.next() as u64) % total;
                        let fi = pick_weighted(&entry.files, draw);
                        let file = entry.files[fi].path.clone();
                        let handle = self.next_handle;
                        self.next_handle = handle + 1;
                        let acts = self.players[ci].apply_trigger(
                            file,
                            entry.delay_ms,
                            entry.is_loop,
                            entry.concurrent,
                            entry.halts_others,
                            handle,
                        );
                        acts
                    },
                }
            },
        }
    }

    /// Reaps one-shot handles the backend reports as finished, on every
    /// channel.
    pub fn reap_finished(&mut self, finished: &Vec<u64>)
        requires
            old(self).wf(),
        ensures
            final(self).wf(),
            final(self).pack == old(self).pack,
            final(self).ignore == old(self).ignore,
            final(self).rng == old(self).rng,
            final(self).next_handle == old(self).next_handle,
            final(self).players@.len() == old(self).players@.len(),
            forall|i: int|
                0 <= i < old(self).players@.len() ==> ChannelState::reap_rel(
                    old(self).players@[i],
                    #[trigger] final(self).players@[i],
                    finished@,
                ),
    {
        let mut i: usize = 0;
        while i < self.players.len()
            invariant
                i <= self.players@.len(),
                self.wf(),
                self.pack == old(self).pack,
                self.ignore == old(self).ignore,
                self.rng == old(self).rng,
                self.next_handle == old(self).next_handle,
                self.players@.len() == old(self).players@.len(),
                forall|j: int|
                    0 <= j < i ==> ChannelState::reap_rel(
                        old(self).players@[j],
                        #[trigger] self.players@[j],
                        finished@,
                    ),
                forall|j: int|
                    i <= j < self.players@.len() ==> #[trigger] self.players@[j] == old(
                        self,
                    ).players@[j],
            decreases self.players@.len() - i,
        {
            self.players[i].reap(finished);
            i = i + 1;
        }
    }

    /// Reloads the soundpack from its raw declaration.
    ///
    /// On success the rule table is swapped atomically: every live handle
    /// of the old configuration is stopped, and each channel state persists
    /// exactly when its name is also in the new pack.  A pack with no
    /// usable channel is reported and leaves the previous configuration in
    /// place.
    pub fn apply_soundpack(&mut self, raw: Vec<RawChannel>) -> (r: (
        Vec<UIMessage>,
        Vec<PlaybackAction>,
    ))
        requires
            old(self).wf(),
        ensures
            final(self).wf(),
            soundpack_applied(*old(self), *final(self), raw@, r.0@, r.1@),
    {
        match SoundpackDefinition::load(raw) {
            Err(_) => {
                let mut ui: Vec<UIMessage> = Vec::new();
                ui.push(
                    UIMessage::SoundThreadPanicked(
                        String::from_str("soundpack"),
                        String::from_str("no usable channels in soundpack"),
                    ),
                );
                (ui, Vec::new())
            },
            Ok(pack) => {
                let acts = collect_all_stops(&self.players);
                let mut new_players: Vec<ChannelState> = Vec::new();
                let mut i: usize = 0;
                while i < pack.channels.len()
                    invariant
                        i <= pack.channels@.len(),
                        new_players@.len() == i,
                        pack.wf(),
                        forall|k: int| 0 <= k < self.players@.len()
                            ==> (#[trigger] self.players@[k]).wf(),
                        forall|k: int|
                            0 <= k < i ==> reconciled_player(
                                self.players@,
                                #[trigger] new_players@[k],
                                pack.channels@[k].name@,
                            ),
                        forall|k: int| 0 <= k < i ==> (#[trigger] new_players@[k]).wf(),
                    decreases pack.channels@.len() - i,
                {
                    let name = pack.channels[i].name.clone();
                    let p = match find_in(&self.players, &name) {
                        Some(j) => {
                            let src = &self.players[j];
                            ChannelState {
                                name,
                                volume: src.volume,
                                paused: src.paused,
                                threshold: src.threshold,
                                active_loop: None,
                                one_shots: Vec::new(),
                            }
                        },
                        None => ChannelState::new(name),
                    };
                    new_players.push(p);
                    i = i + 1;
                }
                let names = pack.channel_names();
                let mut ui: Vec<UIMessage> = Vec::new();
                ui.push(UIMessage::LoadedSoundpack(names));
                self.pack = Some(pack);
                self.players = new_players;
                (ui, acts)
            },
        }
    }

    /// Replaces the ignore filter wholesale with one compiled from the
    /// given pattern lines.
    pub fn apply_ignore_list(&mut self, lines: &Vec<String>) -> (ui: Vec<UIMessage>)
        requires
            old(self).wf(),
        ensures
            final(self).wf(),
            final(self).ignore@ == valid_sources(lines@),
            final(self).pack == old(self).pack,
            final(self).players@ == old(self).players@,
            final(self).rng == old(self).rng,
            final(self).next_handle == old(self).next_handle,
            ui@ == seq![UIMessage::LoadedIgnoreList],
    {
        self.ignore = IgnoreList::load(lines);
        let mut ui: Vec<UIMessage> = Vec::new();
        ui.push(UIMessage::LoadedIgnoreList);
        ui
    }

    /// Applies persisted default volumes, pair by pair in order; names not
    /// matching any channel are ignored.  Meant for startup, before any
    /// handle is live, so no gain actions are needed.
    pub fn apply_volume_settings(&mut self, pairs: Vec<(String, u8)>) -> (ui: Vec<UIMessage>)
        requires
            old(self).wf(),
        ensures
            final(self).wf(),
            final(self).players@ == apply_volumes(old(self).players@, pairs@),
            final(self).pack == old(self).pack,
            final(self).ignore == old(self).ignore,
            final(self).rng == old(self).rng,
            final(self).next_handle == old(self).next_handle,
            ui@ == seq![UIMessage::LoadedVolumeSettings(pairs)],
    {
        let mut k: usize = 0;
        while k < pairs.len()
            invariant
                k <= pairs@.len(),
                self.wf(),
                self.players@ == apply_volumes(old(self).players@, pairs@.subrange(0, k as int)),
                self.pack == old(self).pack,
                self.ignore == old(self).ignore,
                self.rng == old(self).rng,
                self.next_handle == old(self).next_handle,
            decreases pairs@.len() - k,
        {
            let ghost prefix = pairs@.subrange(0, k as int);
            if let Some(i) = find_in(&self.players, &pairs[k].0) {
                let v = pairs[k].1;
                let clamped: u8 = if v > 100 {
                    100
                } else {
                    v
                };
                self.players[i].volume = clamped;
            }
            proof {
                assert(pairs@.subrange(0, k + 1).drop_last() =~= prefix);
                assert(pairs@.subrange(0, k + 1).last() == pairs@[k as int]);
            }
            k = k + 1;
        }
        proof {
            assert(pairs@.subrange(0, pairs@.len() as int) =~= pairs@);
        }
        let mut ui: Vec<UIMessage> = Vec::new();
        ui.push(UIMessage::LoadedVolumeSettings(pairs));
        ui
    }

    /// The current per-channel volumes, for persisting as defaults.
    pub fn volume_snapshot(&self) -> (r: Vec<(String, u8)>)
        ensures
            r@.len() == self.players@.len(),
            forall|i: int|
                0 <= i < r@.len() ==> (#[trigger] r@[i]).0@ == self.players@[i].name@ && r@[i].1
                    == self.players@[i].volume,
    {
        let mut r: Vec<(String, u8)> = Vec::new();
        let mut i: usize = 0;
        while i < self.players.len()
            invariant
                i <= self.players@.len(),
                r@.len() == i,
                forall|j: int|
                    0 <= j < i ==> (#[trigger] r@[j]).0@ == self.players@[j].name@ && r@[j].1
                        == self.players@[j].volume,
            decreases self.players@.len() - i,
        {
            r.push((self.players[i].name.clone(), self.players[i].volume));
            i = i + 1;
        }
        r
    }

    /// Runs a batch of new gamelog lines through the engine in order,
    /// collecting every playback action they cause.
    pub fn process_lines(&mut self, lines: &Vec<String>) -> (acts: Vec<PlaybackAction>)
        requires
            old(self).wf(),
            old(self).next_handle + lines@.len() <= u64::MAX,
        ensures
            final(self).wf(),
            lines_processed(*old(self), *final(self), lines@, acts@),
            final(self).pack == old(self).pack,
            final(self).ignore == old(self).ignore,
            final(self).next_handle <= old(self).next_handle + lines@.len(),
    {
        let mut acts: Vec<PlaybackAction> = Vec::new();
        let mut k: usize = 0;
        proof {
            assert(acts@ =~= Seq::<PlaybackAction>::empty());
            assert(lines@.subrange(0, 0) =~= Seq::<String>::empty());
        }
        while k < lines.len()
            invariant
                k <= lines@.len(),
                self.wf(),
                lines_processed(*old(self), *self, lines@.subrange(0, k as int), acts@),
                self.pack == old(self).pack,
                self.ignore == old(self).ignore,
                self.next_handle <= old(self).next_handle + k,
                old(self).next_handle + lines@.len() <= u64::MAX,
            decreases lines@.len() - k,
        {
            let ghost pre_state = *self;
            let ghost acts_before = acts@;
            let mut a = self.process_line(lines[k].as_str());
            proof {
                let next = lines@.subrange(0, k + 1);
                assert(next.drop_last() =~= lines@.subrange(0, k as int));
                assert(next.last() == lines@[k as int]);
                let whole = acts_before + a@;
                assert(whole.take(whole.len() - a@.len()) =~= acts_before);
                assert(whole.skip(whole.len() - a@.len()) =~= a@);
                assert(lines_processed(
                    *old(self),
                    pre_state,
                    next.drop_last(),
                    whole.take(whole.len() - a@.len()),
                ));
                assert(line_processed(pre_state, *self, next.last()@, a@));
                assert(lines_processed(*old(self), *self, next, whole));
            }
            acts.append(&mut a);
            k = k + 1;
        }
        proof {
            assert(lines@.subrange(0, lines@.len() as int) =~= lines@);
        }
        acts
    }
}

} // verus!
