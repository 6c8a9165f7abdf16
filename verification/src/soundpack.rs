//! Soundpack rule table: channels of compiled trigger entries.
//!
//! A soundpack arrives as declarative raw values (the on-disk schema is an
//! external input, decoded outside this crate) and is compiled into an
//! immutable rule table.  Malformed entries are skipped one by one; a pack
//! with no usable channel is a load error.

use vstd::prelude::*;

use crate::pattern::{pattern_valid, Pattern};
use crate::threshold::Threshold;

verus! {

/// One candidate audio file of an entry, with its selection weight.
#[derive(Debug)]
pub struct SoundFile {
    pub path: String,
    pub weight: u32,
}

/// A trigger rule as declared by the soundpack, before compilation.
#[derive(Debug)]
pub struct RawEntry {
    pub pattern: String,
    pub priority: Threshold,
    pub files: Vec<SoundFile>,
    pub is_loop: bool,
    pub concurrent: bool,
    pub halts_others: bool,
    pub delay_ms: Option<u64>,
}

/// A channel as declared by the soundpack, before compilation.
#[derive(Debug)]
pub struct RawChannel {
    pub name: String,
    pub entries: Vec<RawEntry>,
}

/// A compiled trigger rule.
pub struct SoundEntry {
    pub pattern: Pattern,
    pub priority: Threshold,
    pub files: Vec<SoundFile>,
    pub is_loop: bool,
    pub concurrent: bool,
    pub halts_others: bool,
    pub delay_ms: Option<u64>,
}

/// A compiled channel: a name and its entries in declared order.
pub struct Channel {
    pub name: String,
    pub entries: Vec<SoundEntry>,
}

/// The compiled rule table: channels in declared order.  Immutable once
/// loaded; reconfiguration replaces it wholesale.
pub struct SoundpackDefinition {
    pub channels: Vec<Channel>,
}

/// Loading failed outright; per-entry problems are skipped instead.
#[derive(Debug, PartialEq, Eq)]
pub enum LoadError {
    /// No channel of the pack survived compilation.
    NoValidChannels,
}

/// A raw entry the compiler keeps: its pattern compiles, and it has at
/// least one candidate file, not all of weight zero.  (The file count bound
/// keeps every cumulative weight within machine range.)
pub open spec fn raw_entry_valid(e: RawEntry) -> bool {
    &&& pattern_valid(e.pattern@)
    &&& e.files@.len() > 0
    &&& e.files@.len() <= 0xFFFF_FFFF
    &&& exists|i: int| 0 <= i < e.files@.len() && e.files@[i].weight > 0
}

/// The valid entries of `es`, in declared order.
pub open spec fn valid_raw_entries(es: Seq<RawEntry>) -> Seq<RawEntry>
    decreases es.len(),
{
    if es.len() == 0 {
        Seq::empty()
    } else {
        let rest = valid_raw_entries(es.drop_last());
        if raw_entry_valid(es.last()) {
            rest.push(es.last())
        } else {
            rest
        }
    }
}

/// A compiled entry carries exactly the data of the raw entry it came from.
pub open spec fn entry_compiled_from(e: SoundEntry, raw: RawEntry) -> bool {
    &&& e.pattern@ == raw.pattern@
    &&& e.priority == raw.priority
    &&& e.files@ == raw.files@
    &&& e.is_loop == raw.is_loop
    &&& e.concurrent == raw.concurrent
    &&& e.halts_others == raw.halts_others
    &&& e.delay_ms == raw.delay_ms
}

/// Element-wise correspondence of a compiled entry list to a raw one.
pub open spec fn entries_compiled_from(es: Seq<SoundEntry>, raws: Seq<RawEntry>) -> bool {
    &&& es.len() == raws.len()
    &&& forall|i: int| 0 <= i < es.len() ==> entry_compiled_from(#[trigger] es[i], raws[i])
}

/// Whether some channel of `cs` is named `name`.
pub open spec fn channels_contain_name(cs: Seq<RawChannel>, name: Seq<char>) -> bool {
    exists|i: int| 0 <= i < cs.len() && cs[i].name@ == name
}

/// The channels of `raws` the compiler keeps: those with a non-empty name
/// that no kept channel before them already uses, in declared order.
pub open spec fn kept_channels(raws: Seq<RawChannel>) -> Seq<RawChannel>
    decreases raws.len(),
{
    if raws.len() == 0 {
        Seq::empty()
    } else {
        let rest = kept_channels(raws.drop_last());
        let c = raws.last();
        if c.name@.len() > 0 && !channels_contain_name(rest, c.name@) {
            rest.push(c)
        } else {
            rest
        }
    }
}

impl SoundEntry {
    /// Structural invariant of a compiled entry: a non-empty candidate set
    /// of bounded size with at least one positive weight.
    pub open spec fn wf(&self) -> bool {
        &&& self.files@.len() > 0
        &&& self.files@.len() <= 0xFFFF_FFFF
        &&& exists|i: int| 0 <= i < self.files@.len() && self.files@[i].weight > 0
    }
}

impl Channel {
    /// A compiled channel has a name and only well-formed entries.
    pub open spec fn wf(&self) -> bool {
        &&& self.name@.len() > 0
        &&& forall|i: int| 0 <= i < self.entries@.len() ==> (#[trigger] self.entries@[i]).wf()
    }
}

/// True when some file of `files` has a positive selection weight.
fn any_positive_weight(files: &Vec<SoundFile>) -> (r: bool)
    ensures
        r == exists|i: int| 0 <= i < files@.len() && files@[i].weight > 0,
{
    let mut i: usize = 0;
    while i < files.len()
        invariant
            i <= files@.len(),
            forall|j: int| 0 <= j < i ==> (#[trigger] files@[j]).weight == 0,
        decreases files@.len() - i,
    {
        if files[i].weight > 0 {
            return true;
        }
        i = i + 1;
    }
    false
}

/// Compiles one raw entry; `None` exactly when the entry is malformed.
fn compile_entry(raw: RawEntry) -> (r: Option<SoundEntry>)
    ensures
        r is Some <==> raw_entry_valid(raw),
        r matches Some(e) ==> entry_compiled_from(e, raw) && e.wf(),
{
    if raw.files.len() == 0 || raw.files.len() > 0xFFFF_FFFF as usize {
        return None;
    }
    if !any_positive_weight(&raw.files) {
        return None;
    }
    match Pattern::compile(raw.pattern.as_str()) {
        None => None,
        Some(pattern) => Some(SoundEntry {
            pattern,
            priority: raw.priority,
            files: raw.files,
            is_loop: raw.is_loop,
            concurrent: raw.concurrent,
            halts_others: raw.halts_others,
            delay_ms: raw.delay_ms,
        }),
    }
}

/// Compiles one raw channel, skipping its malformed entries.
fn compile_channel(raw: RawChannel) -> (r: Channel)
    requires
        raw.name@.len() > 0,
    ensures
        r.name@ == raw.name@,
        entries_compiled_from(r.entries@, valid_raw_entries(raw.entries@)),
        r.wf(),
{
    let ghost orig = raw.entries@;
    let mut rest = raw.entries;
    let mut entries: Vec<SoundEntry> = Vec::new();
    let ghost mut k: int = 0;
    while rest.len() > 0
        invariant
            0 <= k <= orig.len(),
            rest@ =~= orig.subrange(k, orig.len() as int),
            entries_compiled_from(entries@, valid_raw_entries(orig.subrange(0, k))),
            forall|i: int| 0 <= i < entries@.len() ==> (#[trigger] entries@[i]).wf(),
        decreases rest@.len(),
    {
        let ghost prefix = orig.subrange(0, k);
        let e = rest.remove(0);
        assert(e == orig[k]);
        if let Some(compiled) = compile_entry(e) {
            entries.push(compiled);
        }
        proof {
            let next = orig.subrange(0, k + 1);
            assert(next.drop_last() =~= prefix);
            assert(next.last() == orig[k]);
            k = k + 1;
        }
    }
    proof {
        assert(orig.subrange(0, k) =~= orig);
    }
    Channel { name: raw.name, entries }
}

/// True when some already-compiled channel carries `name`.
fn channel_names_contain(channels: &Vec<Channel>, name: &String) -> (r: bool)
    ensures
        r == exists|i: int| 0 <= i < channels@.len() && (#[trigger] channels@[i]).name@ == name@,
{
    let mut i: usize = 0;
    while i < channels.len()
        invariant
            i <= channels@.len(),
            forall|j: int| 0 <= j < i ==> (#[trigger] channels@[j]).name@ != name@,
        decreases channels@.len() - i,
    {
        if channels[i].name == *name {
            return true;
        }
        i = i + 1;
    }
    false
}

impl SoundpackDefinition {
    /// Well-formedness of the rule table: every channel well-formed and
    /// channel names unique.
    pub open spec fn wf(&self) -> bool {
        &&& forall|i: int| 0 <= i < self.channels@.len() ==> (#[trigger] self.channels@[i]).wf()
        &&& forall|i: int, j: int|
            0 <= i < j < self.channels@.len() ==> self.channels@[i].name@ != self.channels@[j].name@
    }

    /// Compiles a soundpack from its raw declaration.
    ///
    /// Channels with an empty name, or a name already kept, are skipped, as
    /// are malformed entries inside a kept channel; a pack from which no
    /// channel survives is rejected.
    pub fn load(raw: Vec<RawChannel>) -> (r: Result<SoundpackDefinition, LoadError>)
        ensures
            r matches Ok(pack) ==> {
                let kept = kept_channels(raw@);
                &&& kept.len() > 0
                &&& pack.wf()
                &&& pack.channels@.len() == kept.len()
                &&& forall|i: int|
                    0 <= i < kept.len() ==> (#[trigger] pack.channels@[i]).name@ == kept[i].name@
                &&& forall|i: int|
                    0 <= i < kept.len() ==> entries_compiled_from(
                        (#[trigger] pack.channels@[i]).entries@,
                        valid_raw_entries(kept[i].entries@),
                    )
            },
            r matches Err(e) ==> e == LoadError::NoValidChannels && kept_channels(raw@).len() == 0,
    {
        let ghost orig = raw@;
        let mut rest = raw;
        let mut channels: Vec<Channel> = Vec::new();
        let ghost mut k: int = 0;
        while rest.len() > 0
            invariant
                0 <= k <= orig.len(),
                rest@ =~= orig.subrange(k, orig.len() as int),
                channels@.len() == kept_channels(orig.subrange(0, k)).len(),
                forall|i: int|
                    0 <= i < channels@.len() ==> (#[trigger] channels@[i]).name@
                        == kept_channels(orig.subrange(0, k))[i].name@,
                forall|i: int|
                    0 <= i < channels@.len() ==> entries_compiled_from(
                        (#[trigger] channels@[i]).entries@,
                        valid_raw_entries(kept_channels(orig.subrange(0, k))[i].entries@),
                    ),
                forall|i: int| 0 <= i < channels@.len() ==> (#[trigger] channels@[i]).wf(),
                forall|i: int, j: int|
                    0 <= i < j < channels@.len() ==> channels@[i].name@ != channels@[j].name@,
            decreases rest@.len(),
        {
            let ghost prefix = orig.subrange(0, k);
            let ghost kept_before = kept_channels(prefix);
            let c = rest.remove(0);
            assert(c == orig[k]);
            let name_used = channel_names_contain(&channels, &c.name);
            proof {
                assert(name_used == channels_contain_name(kept_before, c.name@)) by {
                    if channels_contain_name(kept_before, c.name@) {
                        let i = choose|i: int|
                            0 <= i < kept_before.len() && kept_before[i].name@ == c.name@;
                        assert(channels@[i].name@ == c.name@);
                    }
                }
            }
            if !c.name.as_str().is_empty() && !name_used {
                channels.push(compile_channel(c));
            }
            proof {
                let next = orig.subrange(0, k + 1);
                assert(next.drop_last() =~= prefix);
                assert(next.last() == orig[k]);
                k = k + 1;
            }
        }
        proof {
            assert(orig.subrange(0, k) =~= orig);
        }
        if channels.len() == 0 {
            Err(LoadError::NoValidChannels)
        } else {
            Ok(SoundpackDefinition { channels })
        }
    }

    /// The ordered channel names, for reporting outward after a load.
    pub fn channel_names(&self) -> (r: Vec<String>)
        ensures
            r@.len() == self.channels@.len(),
            forall|i: int| 0 <= i < r@.len() ==> (#[trigger] r@[i])@ == self.channels@[i].name@,
    {
        let mut names: Vec<String> = Vec::new();
        let mut i: usize = 0;
        while i < self.channels.len()
            invariant
                i <= self.channels@.len(),
                names@.len() == i,
                forall|j: int| 0 <= j < i ==> (#[trigger] names@[j])@ == self.channels@[j].name@,
            decreases self.channels@.len() - i,
        {
            names.push(self.channels[i].name.clone());
            i = i + 1;
        }
        names
    }
}

} // verus!
