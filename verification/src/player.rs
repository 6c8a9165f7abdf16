//! Per-channel playback state machine.
//!
//! Each channel owns its volume, pause flag, threshold, at most one looping
//! handle and any number of one-shot handles.  Transitions return the
//! playback actions the audio backend must perform; the backend itself
//! lives outside this crate.

use vstd::prelude::*;

use crate::threshold::Threshold;

verus! {

/// A requested volume clamped into the accepted percent range.
pub open spec fn clamp_volume(v: int) -> int {
    if v < 0 {
        0
    } else if v > 100 {
        100
    } else {
        v
    }
}

/// One playback command for the audio backend.
#[derive(Debug, PartialEq, Eq)]
pub enum PlaybackAction {
    /// Start a looping clip under a fresh handle, replacing any prior loop.
    StartLoop { channel: String, file: String, volume: u8, delay_ms: Option<u64>, handle: u64 },
    /// Start a one-shot clip under a fresh handle.
    StartOneShot { channel: String, file: String, volume: u8, delay_ms: Option<u64>, handle: u64 },
    /// Stop and release one handle.
    StopHandle { handle: u64 },
    /// Apply a new gain to every handle of the channel.
    SetVolume { channel: String, volume: u8 },
    /// Mute or unmute the channel without touching its handles.
    SetPaused { channel: String, paused: bool },
}

/// Stop actions for the given handles, in order.
pub open spec fn stops_of(handles: Seq<u64>) -> Seq<PlaybackAction> {
    handles.map_values(|h: u64| PlaybackAction::StopHandle { handle: h })
}

/// The one-shot handles of `shots` that are not among `finished`, in order.
pub open spec fn surviving_shots(shots: Seq<u64>, finished: Seq<u64>) -> Seq<u64>
    decreases shots.len(),
{
    if shots.len() == 0 {
        Seq::empty()
    } else {
        let rest = surviving_shots(shots.drop_last(), finished);
        if finished.contains(shots.last()) {
            rest
        } else {
            rest.push(shots.last())
        }
    }
}

/// Whether `handles` holds `handle`.
fn contains_handle(handles: &Vec<u64>, handle: u64) -> (r: bool)
    ensures
        r == handles@.contains(handle),
{
    let mut i: usize = 0;
    while i < handles.len()
        invariant
            i <= handles@.len(),
            forall|j: int| 0 <= j < i ==> handles@[j] != handle,
        decreases handles@.len() - i,
    {
        if handles[i] == handle {
            assert(handles@[i as int] == handle);
            return true;
        }
        i = i + 1;
    }
    assert(forall|j: int| 0 <= j < handles@.len() ==> handles@[j] != handle);
    false
}

/// The runtime state of one audio channel.
pub struct ChannelState {
    pub name: String,
    pub volume: u8,
    pub paused: bool,
    pub threshold: Threshold,
    pub active_loop: Option<u64>,
    pub one_shots: Vec<u64>,
}

impl ChannelState {
    /// The volume always sits in the accepted percent range.
    pub open spec fn wf(&self) -> bool {
        self.volume <= 100
    }

    /// Every live handle of the channel: the loop first, then the one-shots.
    pub open spec fn live_handles(&self) -> Seq<u64> {
        (match self.active_loop {
            Some(h) => seq![h],
            None => Seq::empty(),
        }) + self.one_shots@
    }

    /// Stop actions for the active loop alone.
    pub open spec fn loop_stops(&self) -> Seq<PlaybackAction> {
        match self.active_loop {
            Some(h) => seq![(PlaybackAction::StopHandle { handle: h })],
            None => Seq::empty(),
        }
    }

    /// Stop actions for every live handle, loop first.
    pub open spec fn stop_all_actions(&self) -> Seq<PlaybackAction> {
        self.loop_stops() + stops_of(self.one_shots@)
    }

    /// The two states agree on name, volume, pause flag and threshold.
    pub open spec fn same_config(pre: ChannelState, post: ChannelState) -> bool {
        &&& post.name@ == pre.name@
        &&& post.volume == pre.volume
        &&& post.paused == pre.paused
        &&& post.threshold == pre.threshold
    }

    /// The two states hold the same live handles.
    pub open spec fn same_handles(pre: ChannelState, post: ChannelState) -> bool {
        &&& post.active_loop == pre.active_loop
        &&& post.one_shots@ == pre.one_shots@
    }

    /// How a pause toggle relates the state before to the state after.
    pub open spec fn play_pause_rel(pre: ChannelState, post: ChannelState) -> bool {
        &&& post.paused == !pre.paused
        &&& post.name@ == pre.name@
        &&& post.volume == pre.volume
        &&& post.threshold == pre.threshold
        &&& Self::same_handles(pre, post)
    }

    /// How firing an entry relates the state before to the state after.
    /// A loop replaces the previous loop; a one-shot joins or replaces the
    /// existing one-shots depending on the concurrency flag; an entry that
    /// halts others silences the whole channel first.
    pub open spec fn trigger_rel(
        pre: ChannelState,
        post: ChannelState,
        is_loop: bool,
        concurrent: bool,
        halts_others: bool,
        handle: u64,
    ) -> bool {
        &&& Self::same_config(pre, post)
        &&& if is_loop {
            &&& post.active_loop == Some(handle)
            &&& post.one_shots@ == if halts_others {
                Seq::<u64>::empty()
            } else {
                pre.one_shots@
            }
        } else {
            &&& post.active_loop == if halts_others {
                None::<u64>
            } else {
                pre.active_loop
            }
            &&& post.one_shots@ == if concurrent && !halts_others {
                pre.one_shots@.push(handle)
            } else {
                seq![handle]
            }
        }
    }

    /// The stop actions a firing entry causes before its own start action.
    pub open spec fn trigger_stops(
        pre: ChannelState,
        is_loop: bool,
        concurrent: bool,
        halts_others: bool,
    ) -> Seq<PlaybackAction> {
        if halts_others {
            pre.stop_all_actions()
        } else if is_loop {
            pre.loop_stops()
        } else if !concurrent {
            stops_of(pre.one_shots@)
        } else {
            Seq::empty()
        }
    }

    /// How reaping relates the state before to the state after: the
    /// finished one-shots are dropped, everything else stays.
    pub open spec fn reap_rel(pre: ChannelState, post: ChannelState, finished: Seq<u64>) -> bool {
        &&& Self::same_config(pre, post)
        &&& post.active_loop == pre.active_loop
        &&& post.one_shots@ == surviving_shots(pre.one_shots@, finished)
    }

    /// A fresh channel: silent, unpaused, volume zero, admitting everything.
    pub fn new(name: String) -> (r: ChannelState)
        ensures
            r.name@ == name@,
            r.volume == 0,
            !r.paused,
            r.threshold == Threshold::Everything,
            r.active_loop is None,
            r.one_shots@ == Seq::<u64>::empty(),
            r.wf(),
    {
        ChannelState {
            name,
            volume: 0,
            paused: false,
            threshold: Threshold::Everything,
            active_loop: None,
            one_shots: Vec::new(),
        }
    }

    /// Applies a requested volume, clamping it into range, and emits the
    /// matching gain action.  Out-of-range requests are clamped, never
    /// rejected.
    pub fn set_volume(&mut self, requested: i64) -> (acts: Vec<PlaybackAction>)
        ensures
            final(self).volume == clamp_volume(requested as int),
            final(self).name@ == old(self).name@,
            final(self).paused == old(self).paused,
            final(self).threshold == old(self).threshold,
            Self::same_handles(*old(self), *final(self)),
            final(self).wf(),
            acts@ == seq![
                (PlaybackAction::SetVolume {
                    channel: final(self).name,
                    volume: final(self).volume,
                }),
            ],
    {
        let v: u8 = if requested < 0 {
            0
        } else if requested > 100 {
            100
        } else {
            requested as u8
        };
        self.volume = v;
        let mut acts: Vec<PlaybackAction> = Vec::new();
        acts.push(PlaybackAction::SetVolume { channel: self.name.clone(), volume: v });
        acts
    }

    /// Toggles the pause flag without destroying any handle, and emits the
    /// matching mute action.
    pub fn play_pause(&mut self) -> (acts: Vec<PlaybackAction>)
        ensures
            Self::play_pause_rel(*old(self), *final(self)),
            old(self).wf() ==> final(self).wf(),
            acts@ == seq![
                (PlaybackAction::SetPaused {
                    channel: final(self).name,
                    paused: final(self).paused,
                }),
            ],
    {
        self.paused = !self.paused;
        let mut acts: Vec<PlaybackAction> = Vec::new();
        acts.push(PlaybackAction::SetPaused { channel: self.name.clone(), paused: self.paused });
        acts
    }

    /// Sets the channel threshold to the given value.  Already-playing
    /// sounds are not affected; only future dispatch honours it.
    pub fn set_threshold(&mut self, t: Threshold)
        ensures
            final(self).threshold == t,
            final(self).name@ == old(self).name@,
            final(self).volume == old(self).volume,
            final(self).paused == old(self).paused,
            Self::same_handles(*old(self), *final(self)),
            old(self).wf() ==> final(self).wf(),
    {
        self.threshold = t;
    }

    /// Stops every one-shot handle, returning their stop actions.
    fn drain_one_shot_stops(&mut self) -> (acts: Vec<PlaybackAction>)
        ensures
            final(self).one_shots@ == Seq::<u64>::empty(),
            final(self).name == old(self).name,
            final(self).volume == old(self).volume,
            final(self).paused == old(self).paused,
            final(self).threshold == old(self).threshold,
            final(self).active_loop == old(self).active_loop,
            acts@ == stops_of(old(self).one_shots@),
    {
        let mut acts: Vec<PlaybackAction> = Vec::new();
        let mut i: usize = 0;
        while i < self.one_shots.len()
            invariant
                *self == *old(self),
                i <= self.one_shots@.len(),
                acts@ =~= stops_of(self.one_shots@.subrange(0, i as int)),
            decreases self.one_shots@.len() - i,
        {
            let h = self.one_shots[i];
            acts.push(PlaybackAction::StopHandle { handle: h });
            proof {
                assert(self.one_shots@.subrange(0, i + 1) =~= self.one_shots@.subrange(
                    0,
                    i as int,
                ).push(h));
                assert(stops_of(self.one_shots@.subrange(0, i + 1)) =~= stops_of(
                    self.one_shots@.subrange(0, i as int),
                ).push(PlaybackAction::StopHandle { handle: h }));
            }
            i = i + 1;
        }
        proof {
            assert(self.one_shots@.subrange(0, self.one_shots@.len() as int) =~= self.one_shots@);
        }
        self.one_shots = Vec::new();
        acts
    }

    /// Stops the active loop and every one-shot at once; the channel
    /// returns to idle.  A no-op — no actions — when nothing is playing.
    pub fn skip(&mut self) -> (acts: Vec<PlaybackAction>)
        ensures
            Self::same_config(*old(self), *final(self)),
            final(self).active_loop is None,
            final(self).one_shots@ == Seq::<u64>::empty(),
            acts@ == old(self).stop_all_actions(),
            old(self).wf() ==> final(self).wf(),
    {
        let mut acts: Vec<PlaybackAction> = Vec::new();
        if let Some(h) = self.active_loop {
            acts.push(PlaybackAction::StopHandle { handle: h });
            self.active_loop = None;
        }
        let mut rest = self.drain_one_shot_stops();
        acts.append(&mut rest);
        proof {
            assert(acts@ =~= old(self).stop_all_actions());
        }
        acts
    }

    /// Reaps one-shot handles the backend reports as finished: they vanish
    /// from the channel without stop actions, since they already ended on
    /// their own.  The loop handle is never reaped.
    pub fn reap(&mut self, finished: &Vec<u64>)
        ensures
            Self::reap_rel(*old(self), *final(self), finished@),
            old(self).wf() ==> final(self).wf(),
    {
        let mut kept: Vec<u64> = Vec::new();
        let mut i: usize = 0;
        proof {
            assert(kept@ =~= surviving_shots(self.one_shots@.subrange(0, 0), finished@));
        }
        while i < self.one_shots.len()
            invariant
                *self == *old(self),
                i <= self.one_shots@.len(),
                kept@ == surviving_shots(self.one_shots@.subrange(0, i as int), finished@),
            decreases self.one_shots@.len() - i,
        {
            let ghost prefix = self.one_shots@.subrange(0, i as int);
            let h = self.one_shots[i];
            if !contains_handle(finished, h) {
                kept.push(h);
            }
            proof {
                let next = self.one_shots@.subrange(0, i + 1);
                assert(next.drop_last() =~= prefix);
                assert(next.last() == self.one_shots@[i as int]);
            }
            i = i + 1;
        }
        proof {
            assert(self.one_shots@.subrange(0, self.one_shots@.len() as int) =~= self.one_shots@);
        }
        self.one_shots = kept;
    }

    /// Fires a dispatched entry on this channel: stops whatever the entry's
    /// flags displace, then starts the selected file under the fresh
    /// `handle` at the channel's current volume.
    pub fn apply_trigger(
        &mut self,
        file: String,
        delay_ms: Option<u64>,
        is_loop: bool,
        concurrent: bool,
        halts_others: bool,
        handle: u64,
    ) -> (acts: Vec<PlaybackAction>)
        ensures
            Self::trigger_rel(*old(self), *final(self), is_loop, concurrent, halts_others, handle),
            old(self).wf() ==> final(self).wf(),
            is_loop ==> acts@ == Self::trigger_stops(*old(self), is_loop, concurrent, halts_others)
                + seq![
                (PlaybackAction::StartLoop {
                    channel: old(self).name,
                    file: file,
                    volume: old(self).volume,
                    delay_ms: delay_ms,
                    handle: handle,
                }),
            ],
            !is_loop ==> acts@ == Self::trigger_stops(
                *old(self),
                is_loop,
                concurrent,
                halts_others,
            ) + seq![
                (PlaybackAction::StartOneShot {
                    channel: old(self).name,
                    file: file,
                    volume: old(self).volume,
                    delay_ms: delay_ms,
                    handle: handle,
                }),
            ],
    {
        let mut acts: Vec<PlaybackAction> = Vec::new();
        if halts_others || is_loop {
            if let Some(h) = self.active_loop {
                acts.push(PlaybackAction::StopHandle { handle: h });
                self.active_loop = None;
            }
        }
        if halts_others || (!is_loop && !concurrent) {
            let mut rest = self.drain_one_shot_stops();
            acts.append(&mut rest);
        }
        if is_loop {
            acts.push(
                PlaybackAction::StartLoop {
                    channel: self.name.clone(),
                    file,
                    volume: self.volume,
                    delay_ms,
                    handle,
                },
            );
            self.active_loop = Some(handle);
        } else {
            acts.push(
                PlaybackAction::StartOneShot {
                    channel: self.name.clone(),
                    file,
                    volume: self.volume,
                    delay_ms,
                    handle,
                },
            );
            self.one_shots.push(handle);
        }
        proof {
            if is_loop {
                assert(acts@ =~= Self::trigger_stops(
                    *old(self),
                    is_loop,
                    concurrent,
                    halts_others,
                ) + seq![
                    (PlaybackAction::StartLoop {
                        channel: old(self).name,
                        file: file,
                        volume: old(self).volume,
                        delay_ms: delay_ms,
                        handle: handle,
                    }),
                ]);
            } else {
                assert(acts@ =~= Self::trigger_stops(
                    *old(self),
                    is_loop,
                    concurrent,
                    halts_others,
                ) + seq![
                    (PlaybackAction::StartOneShot {
                        channel: old(self).name,
                        file: file,
                        volume: old(self).volume,
                        delay_ms: delay_ms,
                        handle: handle,
                    }),
                ]);
            }
        }
        acts
    }
}

/// Law: every requested volume lands clamped in the accepted range, and
/// requests already in range — the boundaries included — pass unchanged.
pub proof fn lemma_volume_clamp(v: int)
    ensures
        0 <= clamp_volume(v) <= 100,
        0 <= v <= 100 ==> clamp_volume(v) == v,
        v < 0 ==> clamp_volume(v) == 0,
        v > 100 ==> clamp_volume(v) == 100,
{
}

/// Law: two pause toggles with nothing in between restore the original
/// pause flag — and with it the whole channel state.
pub proof fn lemma_pause_involution(s0: ChannelState, s1: ChannelState, s2: ChannelState)
    requires
        ChannelState::play_pause_rel(s0, s1),
        ChannelState::play_pause_rel(s1, s2),
    ensures
        s2.paused == s0.paused,
        s2.name@ == s0.name@,
        s2.volume == s0.volume,
        s2.threshold == s0.threshold,
        ChannelState::same_handles(s0, s2),
{
}

/// Law: a loop trigger always terminates the previous loop — its handle is
/// among the stopped ones — and afterwards exactly the new handle loops.
pub proof fn lemma_single_active_loop(
    pre: ChannelState,
    post: ChannelState,
    concurrent: bool,
    halts_others: bool,
    handle: u64,
)
    requires
        ChannelState::trigger_rel(pre, post, true, concurrent, halts_others, handle),
    ensures
        post.active_loop == Some(handle),
        pre.active_loop matches Some(h) ==> ChannelState::trigger_stops(
            pre,
            true,
            concurrent,
            halts_others,
        ).contains((PlaybackAction::StopHandle { handle: h })),
{
    if let Some(h) = pre.active_loop {
        let stops = ChannelState::trigger_stops(pre, true, concurrent, halts_others);
        assert(stops[0] == (PlaybackAction::StopHandle { handle: h }));
    }
}

/// Law: skipping an idle channel stops nothing: the emitted action list is
/// empty.
pub proof fn lemma_skip_idle(s: ChannelState)
    requires
        s.active_loop is None,
        s.one_shots@.len() == 0,
    ensures
        s.stop_all_actions().len() == 0,
{
}

} // verus!
