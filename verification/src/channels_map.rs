//! The directory of the channels of a connection, by channel identifier.
//!
//! The directory is kept in ascending order of the identifiers, which is the
//! order in which it is walked: channels with low identifiers come first.

use crate::frame::Id;
use vstd::prelude::*;

verus! {

/// The error of registering a channel under an identifier that is taken.
#[derive(Debug)]
pub struct DuplicateChannel(pub Id);

/// Whether the identifiers of `entries` ascend strictly: no identifier
/// occurs twice.
pub open spec fn ascending<T>(entries: Seq<(Id, T)>) -> bool {
    forall|i: int, j: int|
        0 <= i < j < entries.len() ==> (#[trigger] entries[i]).0.value() < (
        #[trigger] entries[j]).0.value()
}

/// Whether `entries` has an entry for `id`.
pub open spec fn has_entry<T>(entries: Seq<(Id, T)>, id: Id) -> bool {
    exists|i: int| 0 <= i < entries.len() && (#[trigger] entries[i]).0 == id
}

/// Whether the entry at `i` is the first of `entries` for `id`.
pub open spec fn first_for<T>(entries: Seq<(Id, T)>, id: Id, i: int) -> bool {
    &&& 0 <= i < entries.len()
    &&& entries[i].0 == id
    &&& forall|j: int| 0 <= j < i ==> (#[trigger] entries[j]).0 != id
}

/// The channel that `entries` holds for `id`, if there is one: that of the
/// first entry for `id`.
pub open spec fn lookup<T>(entries: Seq<(Id, T)>, id: Id) -> Option<T> {
    if exists|i: int| first_for(entries, id, i) {
        let i = choose|i: int| first_for(entries, id, i);
        Some(entries[i].1)
    } else {
        None
    }
}

/// The first entry for an identifier is the entry looked up.
pub proof fn lemma_lookup_first<T>(entries: Seq<(Id, T)>, id: Id, i: int)
    requires
        first_for(entries, id, i),
    ensures
        has_entry(entries, id),
        lookup(entries, id) == Some(entries[i].1),
{
    let j = choose|j: int| first_for(entries, id, j);
    if j < i {
        assert(entries[j].0 != id);
    }
    if i < j {
        assert(entries[i].0 != id);
    }
}

/// Where there is no entry for an identifier, nothing is looked up.
pub proof fn lemma_lookup_none<T>(entries: Seq<(Id, T)>, id: Id)
    requires
        !has_entry(entries, id),
    ensures
        lookup(entries, id) is None,
{
    if exists|i: int| first_for(entries, id, i) {
        let i = choose|i: int| first_for(entries, id, i);
        assert(entries[i].0 == id);
    }
}

/// Something is looked up exactly for the identifiers that have an entry.
pub proof fn lemma_lookup_some<T>(entries: Seq<(Id, T)>, id: Id)
    ensures
        lookup(entries, id) is Some <==> has_entry(entries, id),
    decreases entries.len(),
{
    if has_entry(entries, id) {
        let i = choose|i: int| 0 <= i < entries.len() && (#[trigger] entries[i]).0 == id;
        lemma_first_exists(entries, id, i);
    } else {
        lemma_lookup_none(entries, id);
    }
}

/// Where there is an entry for an identifier there is a first one.
proof fn lemma_first_exists<T>(entries: Seq<(Id, T)>, id: Id, i: int)
    requires
        0 <= i < entries.len(),
        entries[i].0 == id,
    ensures
        exists|k: int| first_for(entries, id, k),
    decreases i,
{
    if exists|j: int| 0 <= j < i && (#[trigger] entries[j]).0 == id {
        let j = choose|j: int| 0 <= j < i && (#[trigger] entries[j]).0 == id;
        lemma_first_exists(entries, id, j);
    } else {
        assert(first_for(entries, id, i));
    }
}

/// In a directory without duplicates, the entry found at a place is the
/// entry looked up.
pub proof fn lemma_lookup_at<T>(entries: Seq<(Id, T)>, i: int)
    requires
        ascending(entries),
        0 <= i < entries.len(),
    ensures
        has_entry(entries, entries[i].0),
        lookup(entries, entries[i].0) == Some(entries[i].1),
{
    let id = entries[i].0;
    assert forall|j: int| 0 <= j < i implies (#[trigger] entries[j]).0 != id by {
        assert(entries[j].0.value() < entries[i].0.value());
    }
    lemma_lookup_first(entries, id, i);
}

/// The place of the first entry of `entries` whose identifier is not below
/// `id`, or the number of entries where there is none.
fn position<T>(entries: &Vec<(Id, T)>, id: Id) -> (at: usize)
    requires
        ascending(entries@),
    ensures
        at <= entries@.len(),
        forall|i: int| 0 <= i < at ==> (#[trigger] entries@[i]).0.value() < id.value(),
        forall|i: int|
            at <= i < entries@.len() ==> (#[trigger] entries@[i]).0.value() >= id.value(),
        has_entry(entries@, id) <==> (at < entries@.len() && entries@[at as int].0 == id),
{
    let wanted = id.as_int();
    let mut at: usize = 0;
    while at < entries.len() && entries[at].0.as_int() < wanted
        invariant
            at <= entries@.len(),
            wanted == id.value(),
            ascending(entries@),
            forall|i: int| 0 <= i < at ==> (#[trigger] entries@[i]).0.value() < id.value(),
        decreases entries@.len() - at,
    {
        at += 1;
    }
    proof {
        assert forall|i: int| at <= i < entries@.len() implies (#[trigger] entries@[i]).0.value()
            >= id.value() by {
            if i > at {
                assert(entries@[at as int].0.value() < entries@[i].0.value());
            }
        }
        if at < entries@.len() {
            Id::lemma_value_injective(entries@[at as int].0, id);
        }
        if has_entry(entries@, id) {
            let i = choose|i: int| 0 <= i < entries@.len() && (#[trigger] entries@[i]).0 == id;
            assert(entries@[i].0.value() == id.value());
            if i > at {
                assert(entries@[at as int].0.value() < entries@[i].0.value());
            }
        }
    }
    at
}

/// A directory of channels that is being filled.
pub struct ChannelsMapBuilder<T> {
    map: Vec<(Id, T)>,
}

/// The directory of the channels of a connection.
pub struct ChannelsMap<T> {
    map: Vec<(Id, T)>,
}

impl<T> View for ChannelsMapBuilder<T> {
    type V = Seq<(Id, T)>;

    /// The entries, in ascending order of their identifiers.
    closed spec fn view(&self) -> Seq<(Id, T)> {
        self.map@
    }
}

impl<T> View for ChannelsMap<T> {
    type V = Seq<(Id, T)>;

    /// The entries, in ascending order of their identifiers.
    closed spec fn view(&self) -> Seq<(Id, T)> {
        self.map@
    }
}

impl<T> ChannelsMapBuilder<T> {
    #[verifier::type_invariant]
    spec fn in_order(self) -> bool {
        ascending(self.map@)
    }

    /// A directory without channels.
    pub fn new() -> (b: Self)
        ensures
            b@.len() == 0,
    {
        ChannelsMapBuilder { map: Vec::new() }
    }

    /// Registers `channel` under `channel_id`.
    ///
    /// Where the identifier is free the channel is added, and no other entry
    /// changes. Where it is taken nothing changes: the channel registered
    /// first stays, and the result is `DuplicateChannel`.
    pub fn add(&mut self, channel_id: Id, channel: T) -> (r: Result<(), DuplicateChannel>)
        ensures
            ascending(final(self)@),
            r is Err <==> has_entry(old(self)@, channel_id),
            r matches Err(e) ==> e.0 == channel_id && final(self)@ == old(self)@,
            r is Ok ==> lookup(final(self)@, channel_id) == Some(channel) && final(self)@.len()
                == old(self)@.len() + 1,
            forall|other: Id|
                other != channel_id ==> lookup(final(self)@, other) == lookup(old(self)@, other),
    {
        proof {
            use_type_invariant(&*self);
        }
        let mut map: Vec<(Id, T)> = Vec::new();
        core::mem::swap(&mut self.map, &mut map);
        let at = position(&map, channel_id);
        let ghost before = map@;
        if at < map.len() && map[at].0 == channel_id {
            self.map = map;
            Err(DuplicateChannel(channel_id))
        } else {
            map.insert(at, (channel_id, channel));
            proof {
                let after = map@;
                assert(after == before.insert(at as int, (channel_id, channel)));
                assert(ascending(after)) by {
                    assert forall|i: int, j: int| 0 <= i < j < after.len() implies (
                    #[trigger] after[i]).0.value() < (#[trigger] after[j]).0.value() by {
                        let bi = if i < at {
                            i
                        } else {
                            i - 1
                        };
                        let bj = if j < at {
                            j
                        } else {
                            j - 1
                        };
                        if i != at && j != at {
                            assert(before[bi].0.value() < before[bj].0.value());
                        } else if i == at {
                            assert(before[bj].0.value() >= channel_id.value());
                            Id::lemma_value_injective(before[bj].0, channel_id);
                            if bj == at {
                            } else {
                                assert(before[at as int].0.value() < before[bj].0.value());
                            }
                        } else {
                            assert(before[bi].0.value() < channel_id.value());
                        }
                    }
                }
                lemma_lookup_at(after, at as int);
                assert forall|other: Id| other != channel_id implies lookup(after, other)
                    == lookup(before, other) by {
                    lemma_same_elsewhere_inserted(before, after, at as int, other);
                }
            }
            self.map = map;
            Ok(())
        }
    }

    /// The number of channels registered.
    pub fn len(&self) -> (n: usize)
        ensures
            n == self@.len(),
    {
        self.map.len()
    }

    /// Whether a channel is registered under `channel_id`.
    pub fn has(&self, channel_id: Id) -> (b: bool)
        ensures
            b == has_entry(self@, channel_id),
    {
        proof {
            use_type_invariant(self);
        }
        let at = position(&self.map, channel_id);
        at < self.map.len() && self.map[at].0 == channel_id
    }

    /// The directory, complete. A connection has at least one channel.
    pub fn finalize(self) -> (m: ChannelsMap<T>)
        requires
            self@.len() > 0,
        ensures
            m@ == self@,
            ascending(m@),
    {
        proof {
            use_type_invariant(&self);
        }
        ChannelsMap { map: self.map }
    }
}

/// An entry that is added leaves the entries of other identifiers as they
/// were.
proof fn lemma_same_elsewhere_inserted<T>(
    before: Seq<(Id, T)>,
    after: Seq<(Id, T)>,
    at: int,
    other: Id,
)
    requires
        ascending(before),
        ascending(after),
        0 <= at <= before.len(),
        after == before.insert(at, after[at]),
        after[at].0 != other,
    ensures
        lookup(after, other) == lookup(before, other),
{
    if has_entry(before, other) {
        let i = choose|i: int| 0 <= i < before.len() && (#[trigger] before[i]).0 == other;
        let j = if i < at {
            i
        } else {
            i + 1
        };
        assert(after[j] == before[i]);
        lemma_lookup_at(before, i);
        lemma_lookup_at(after, j);
    } else {
        if has_entry(after, other) {
            let j = choose|j: int| 0 <= j < after.len() && (#[trigger] after[j]).0 == other;
            let i = if j < at {
                j
            } else {
                j - 1
            };
            assert(before[i] == after[j]);
        }
        lemma_lookup_none(before, other);
        lemma_lookup_none(after, other);
    }
}

/// The place of the first entry of `entries` for `id`, or the number of
/// entries where there is none.
fn find<T>(entries: &Vec<(Id, T)>, id: Id) -> (at: usize)
    ensures
        at <= entries@.len(),
        at < entries@.len() ==> first_for(entries@, id, at as int),
        at == entries@.len() ==> !has_entry(entries@, id),
{
    let mut at: usize = 0;
    while at < entries.len() && entries[at].0 != id
        invariant
            at <= entries@.len(),
            forall|j: int| 0 <= j < at ==> (#[trigger] entries@[j]).0 != id,
        decreases entries@.len() - at,
    {
        at += 1;
    }
    at
}

impl<T> ChannelsMap<T> {
    /// Whether the directory has a channel for `channel_id`.
    pub fn has_channel(&self, channel_id: Id) -> (b: bool)
        ensures
            b == has_entry(self@, channel_id),
    {
        find(&self.map, channel_id) < self.map.len()
    }

    /// The channel for `channel_id`, if the directory has one.
    pub fn dispatch(&self, channel_id: Id) -> (r: Option<&T>)
        ensures
            match lookup(self@, channel_id) {
                Some(channel) => r == Some(&channel),
                None => r is None,
            },
    {
        let at = find(&self.map, channel_id);
        if at < self.map.len() {
            proof {
                lemma_lookup_first(self.map@, channel_id, at as int);
            }
            Some(&self.map[at].1)
        } else {
            proof {
                lemma_lookup_none(self.map@, channel_id);
            }
            None
        }
    }

    /// The place of the entry for `channel_id`, if the directory has one.
    pub fn index_of(&self, channel_id: Id) -> (r: Option<usize>)
        ensures
            match r {
                Some(i) => first_for(self@, channel_id, i as int),
                None => !has_entry(self@, channel_id),
            },
    {
        let at = find(&self.map, channel_id);
        if at < self.map.len() {
            Some(at)
        } else {
            None
        }
    }

    /// The number of entries.
    pub fn len(&self) -> (n: usize)
        ensures
            n == self@.len(),
    {
        self.map.len()
    }

    /// The identifier of the entry at `i`.
    pub fn id_at(&self, i: usize) -> (id: Id)
        requires
            i < self@.len(),
        ensures
            id == self@[i as int].0,
    {
        self.map[i].0
    }

    /// The channel of the entry at `i`, to be changed in place.
    pub fn channel_at_mut(&mut self, i: usize) -> (channel: &mut T)
        requires
            i < old(self)@.len(),
        ensures
            *channel == old(self)@[i as int].1,
            final(self)@ == old(self)@.update(i as int, (old(self)@[i as int].0, *final(channel))),
    {
        &mut self.map[i].1
    }

    /// The entries of the directory, in the order in which it is walked.
    pub fn iterate(&self) -> (entries: &[(Id, T)])
        ensures
            entries@ == self@,
    {
        self.map.as_slice()
    }

    /// A directory with the same identifiers, in which each channel is what
    /// `f` makes of the channel here.
    pub fn map<F, U>(&self, f: F) -> (m: ChannelsMap<U>) where F: Fn(&T) -> U
        requires
            forall|i: int| 0 <= i < self@.len() ==> f.requires((&(#[trigger] self@[i]).1,)),
        ensures
            m@.len() == self@.len(),
            ascending(self@) ==> ascending(m@),
            forall|i: int|
                0 <= i < self@.len() ==> (#[trigger] m@[i]).0 == self@[i].0 && f.ensures(
                    (&self@[i].1,),
                    m@[i].1,
                ),
    {
        let mut out: Vec<(Id, U)> = Vec::new();
        let mut i: usize = 0;
        while i < self.map.len()
            invariant
                i <= self.map@.len(),
                out@.len() == i,
                forall|k: int| 0 <= k < self@.len() ==> f.requires((&(#[trigger] self@[k]).1,)),
                self@ == self.map@,
                forall|k: int|
                    0 <= k < i ==> (#[trigger] out@[k]).0 == self.map@[k].0 && f.ensures(
                        (&self.map@[k].1,),
                        out@[k].1,
                    ),
            decreases self.map@.len() - i,
        {
            assert(f.requires((&self@[i as int].1,)));
            let id = self.map[i].0;
            let made = f(&self.map[i].1);
            out.push((id, made));
            i += 1;
        }
        proof {
            if ascending(self@) {
                assert forall|a: int, b: int| 0 <= a < b < out@.len() implies (
                #[trigger] out@[a]).0.value() < (#[trigger] out@[b]).0.value() by {
                    assert(self.map@[a].0.value() < self.map@[b].0.value());
                }
            }
        }
        ChannelsMap { map: out }
    }
}

} // verus!
