//! The scripts' event callbacks: connections per event, each with its own id.
use std::collections::HashMap;

use vstd::prelude::*;
use vstd::std_specs::iter::IteratorSpec;

verus! {

broadcast use vstd::std_specs::hash::group_hash_axioms;

/// The events that scripts can connect to.
#[derive(Debug, Clone, Copy, PartialEq, Eq, Structural)]
pub enum EventType {
    Ready,
    MessageCreate,
    GuildMemberUpdate,
}

/// The connected callbacks of each event, by connection id. `K` is what identifies a
/// callback (the registry key of a Luau function).
pub struct BotCallbacks<K> {
    ready_events: HashMap<u64, K>,
    message_create_events: HashMap<u64, K>,
    guild_member_update_events: HashMap<u64, K>,
    next_id: u64,
}

impl<K> BotCallbacks<K> {
    /// The callbacks connected to `event`, by connection id.
    pub closed spec fn connections(&self, event: EventType) -> Map<u64, K> {
        match event {
            EventType::Ready => self.ready_events@,
            EventType::MessageCreate => self.message_create_events@,
            EventType::GuildMemberUpdate => self.guild_member_update_events@,
        }
    }

    /// The id that the next connection gets.
    pub closed spec fn next_id(&self) -> u64 {
        self.next_id
    }

    /// Every connected id is below the next id: no id has been handed out twice.
    pub open spec fn ids_below_next(&self) -> bool {
        forall|e: EventType, id: u64| #[trigger] self.connections(e).contains_key(id) ==> id < self.next_id()
    }

    /// No callbacks; the first connection gets id 1.
    pub fn new() -> (r: BotCallbacks<K>)
        ensures
            forall|e: EventType| #[trigger] r.connections(e) == Map::<u64, K>::empty(),
            r.next_id() == 1,
            r.ids_below_next(),
    {
        BotCallbacks {
            ready_events: HashMap::new(),
            message_create_events: HashMap::new(),
            guild_member_update_events: HashMap::new(),
            next_id: 1,
        }
    }

    /// Connects `callback` to `event` under the next id, which is returned; ids count up
    /// (wrapping), shared by all events.
    pub fn connect(&mut self, event: EventType, callback: K) -> (id: u64)
        ensures
            id == old(self).next_id(),
            final(self).next_id() == old(self).next_id().wrapping_add(1),
            final(self).connections(event) == old(self).connections(event).insert(id, callback),
            forall|e: EventType| e != event ==> #[trigger] final(self).connections(e) == old(self).connections(e),
            old(self).ids_below_next() && old(self).next_id() < u64::MAX ==> {
                &&& final(self).ids_below_next()
                &&& forall|e: EventType| !(#[trigger] old(self).connections(e).contains_key(id))
            },
    {
        let id = self.next_id;
        self.next_id = self.next_id.wrapping_add(1);
        match event {
            EventType::Ready => {
                self.ready_events.insert(id, callback);
            },
            EventType::MessageCreate => {
                self.message_create_events.insert(id, callback);
            },
            EventType::GuildMemberUpdate => {
                self.guild_member_update_events.insert(id, callback);
            },
        }
        proof {
            if old(self).ids_below_next() && old(self).next_id() < u64::MAX {
                assert forall|e: EventType, x: u64| #[trigger] self.connections(e).contains_key(x) implies x
                    < self.next_id() by {
                    if e != event || x != id {
                        assert(old(self).connections(e).contains_key(x));
                    }
                }
                assert forall|e: EventType| !(#[trigger] old(self).connections(e).contains_key(id)) by {
                    if old(self).connections(e).contains_key(id) {
                        assert(id < old(self).next_id());
                    }
                }
            }
        }
        id
    }

    /// Disconnects the callback with connection `id` from `event`.
    pub fn disconnect(&mut self, event: EventType, id: u64)
        ensures
            final(self).next_id() == old(self).next_id(),
            final(self).connections(event) == old(self).connections(event).remove(id),
            forall|e: EventType| e != event ==> #[trigger] final(self).connections(e) == old(self).connections(e),
            old(self).ids_below_next() ==> final(self).ids_below_next(),
    {
        match event {
            EventType::Ready => {
                self.ready_events.remove(&id);
            },
            EventType::MessageCreate => {
                self.message_create_events.remove(&id);
            },
            EventType::GuildMemberUpdate => {
                self.guild_member_update_events.remove(&id);
            },
        }
        proof {
            if old(self).ids_below_next() {
                assert forall|e: EventType, x: u64| #[trigger] self.connections(e).contains_key(x) implies x
                    < self.next_id() by {
                    assert(old(self).connections(e).contains_key(x));
                }
            }
        }
    }

    /// Disconnects every callback, before the scripts are loaded again.
    pub fn clear(&mut self)
        ensures
            final(self).next_id() == old(self).next_id(),
            forall|e: EventType| #[trigger] final(self).connections(e) == Map::<u64, K>::empty(),
            final(self).ids_below_next(),
    {
        self.ready_events.clear();
        self.message_create_events.clear();
        self.guild_member_update_events.clear();
    }

    /// The callback connected to `event` under `id`.
    pub fn get(&self, event: EventType, id: u64) -> (r: Option<&K>)
        ensures
            match r {
                Some(k) => self.connections(event).contains_key(id) && *k == self.connections(event)[id],
                None => !self.connections(event).contains_key(id),
            },
    {
        match event {
            EventType::Ready => self.ready_events.get(&id),
            EventType::MessageCreate => self.message_create_events.get(&id),
            EventType::GuildMemberUpdate => self.guild_member_update_events.get(&id),
        }
    }

    /// The ids of the callbacks connected to `event`, each once, in no particular order.
    pub fn connection_ids(&self, event: EventType) -> (r: Vec<u64>)
        ensures
            r@.to_set() == self.connections(event).dom(),
            r@.no_duplicates(),
    {
        let m = match event {
            EventType::Ready => &self.ready_events,
            EventType::MessageCreate => &self.message_create_events,
            EventType::GuildMemberUpdate => &self.guild_member_update_events,
        };
        let mut out: Vec<u64> = Vec::new();
        let ghost keys = vstd::std_specs::hash::spec_keys_iter(m).remaining();
        for k in it: m.keys()
            invariant
                it.seq() == keys,
                out@ == keys.take(it.index() as int).unref(),
        {
            assert(keys.take(it.index() as int + 1).unref() =~= keys.take(it.index() as int).unref().push(*k));
            out.push(*k);
        }
        assert(keys.take(keys.len() as int) =~= keys);
        out
    }
}

/// Disconnecting a fresh connection gives back the callbacks of every event as they were
/// before it; disconnecting it again changes nothing, and no other connection is removed. (A
/// connection is fresh whenever the ids were all below the counter and the counter had not
/// reached its end, as `connect` ensures.)
pub proof fn lemma_disconnect_undoes_connect<K>(
    before: BotCallbacks<K>,
    connected: BotCallbacks<K>,
    after: BotCallbacks<K>,
    event: EventType,
    id: u64,
    callback: K,
)
    requires
        !before.connections(event).contains_key(id),
        connected.connections(event) == before.connections(event).insert(id, callback),
        after.connections(event) == connected.connections(event).remove(id),
        forall|e: EventType| e != event ==> #[trigger] connected.connections(e) == before.connections(e),
        forall|e: EventType| e != event ==> #[trigger] after.connections(e) == connected.connections(e),
    ensures
        forall|e: EventType| #[trigger] after.connections(e) == before.connections(e),
        after.connections(event).remove(id) == after.connections(event),
        forall|x: u64|
            x != id && #[trigger] connected.connections(event).contains_key(x) ==> after.connections(
                event,
            ).contains_key(x) && after.connections(event)[x] == connected.connections(event)[x],
{
    assert(after.connections(event) =~= before.connections(event));
    assert(after.connections(event).remove(id) =~= after.connections(event));
    assert forall|e: EventType| #[trigger] after.connections(e) == before.connections(e) by {
        if e == event {
            assert(after.connections(event) =~= before.connections(event));
        }
    }
}

} // verus!
