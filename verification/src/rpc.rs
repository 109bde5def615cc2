//! The request and reply matching of the connections between components:
//! a request registers who waits for its reply, and an incoming message is
//! either a reply, handed to whoever waits for it, or a new request.
use vstd::prelude::*;

verus! {

/// The map the pairs of `entries` make, later pairs winning.
pub open spec fn listener_map<S>(entries: Seq<(u128, S)>) -> Map<u128, S>
    decreases entries.len(),
{
    if entries.len() == 0 {
        Map::empty()
    } else {
        listener_map(entries.drop_last()).insert(entries.last().0, entries.last().1)
    }
}

/// No identifier occurs twice.
pub open spec fn unique_ids<S>(entries: Seq<(u128, S)>) -> bool {
    forall|i: int, j: int| 0 <= i < j < entries.len() ==> (#[trigger] entries[i]).0 != (#[trigger] entries[j]).0
}

/// With identifiers that occur once, the map holds exactly the pairs.
pub proof fn lemma_listener_map<S>(entries: Seq<(u128, S)>)
    requires
        unique_ids(entries),
    ensures
        forall|i: int| 0 <= i < entries.len() ==> listener_map(entries).contains_key((#[trigger] entries[i]).0)
            && listener_map(entries)[entries[i].0] == entries[i].1,
        forall|k: u128| listener_map(entries).contains_key(k) ==> exists|i: int| 0 <= i < entries.len() && (#[trigger] entries[i]).0 == k,
    decreases entries.len(),
{
    if entries.len() > 0 {
        let p = entries.drop_last();
        assert(unique_ids(p)) by {
            assert forall|i: int, j: int| 0 <= i < j < p.len() implies (#[trigger] p[i]).0 != (#[trigger] p[j]).0 by {
                assert(entries[i] == p[i] && entries[j] == p[j]);
            }
        }
        lemma_listener_map(p);
        let n = entries.len() - 1;
        assert forall|i: int| 0 <= i < entries.len() implies listener_map(entries).contains_key((#[trigger] entries[i]).0)
            && listener_map(entries)[entries[i].0] == entries[i].1 by {
            if i < n {
                assert(p[i] == entries[i]);
                assert(entries[i].0 != entries[n].0);
            }
        }
        assert forall|k: u128| listener_map(entries).contains_key(k) implies exists|i: int| 0 <= i < entries.len() && (#[trigger] entries[i]).0 == k by {
            if k != entries[n].0 {
                assert(listener_map(p).contains_key(k));
                let i = choose|i: int| 0 <= i < p.len() && (#[trigger] p[i]).0 == k;
                assert(entries[i] == p[i]);
            } else {
                assert(entries[n].0 == k);
            }
        }
    }
}

/// The map of pairs with unique identifiers is the map of their pairs
/// with one pair left out, plus that pair.
pub proof fn lemma_listener_map_remove<S>(entries: Seq<(u128, S)>, i: int)
    requires
        unique_ids(entries),
        0 <= i < entries.len(),
    ensures
        unique_ids(entries.remove(i)),
        listener_map(entries.remove(i)) == listener_map(entries).remove(entries[i].0),
    decreases entries.len(),
{
    let r = entries.remove(i);
    assert(unique_ids(r)) by {
        assert forall|a: int, b: int| 0 <= a < b < r.len() implies (#[trigger] r[a]).0 != (#[trigger] r[b]).0 by {
            let a2 = if a < i { a } else { a + 1 };
            let b2 = if b < i { b } else { b + 1 };
            assert(r[a] == entries[a2] && r[b] == entries[b2]);
        }
    }
    let n = entries.len() - 1;
    let p = entries.drop_last();
    assert(unique_ids(p)) by {
        assert forall|a: int, b: int| 0 <= a < b < p.len() implies (#[trigger] p[a]).0 != (#[trigger] p[b]).0 by {
            assert(entries[a] == p[a] && entries[b] == p[b]);
        }
    }
    lemma_listener_map(p);
    if i == n {
        assert(r =~= p);
        assert(!listener_map(p).contains_key(entries[i].0)) by {
            if listener_map(p).contains_key(entries[i].0) {
                let j = choose|j: int| 0 <= j < p.len() && (#[trigger] p[j]).0 == entries[i].0;
                assert(entries[j] == p[j]);
            }
        }
        assert(listener_map(r) =~= listener_map(entries).remove(entries[i].0));
    } else {
        lemma_listener_map_remove(p, i);
        assert(r.drop_last() =~= p.remove(i));
        assert(r.last() == entries.last());
        assert(entries[i].0 != entries[n].0);
        assert(listener_map(r) =~= listener_map(entries).remove(entries[i].0));
    }
}

/// Where `id` is among `entries`, if it is.
fn find_id<S>(entries: &Vec<(u128, S)>, id: u128) -> (r: Option<usize>)
    ensures
        r matches Some(i) ==> i < entries.len() && entries@[i as int].0 == id,
        r is None ==> forall|i: int| 0 <= i < entries.len() ==> (#[trigger] entries@[i]).0 != id,
{
    let mut i: usize = 0;
    while i < entries.len()
        invariant
            0 <= i <= entries.len(),
            forall|j: int| 0 <= j < i ==> (#[trigger] entries@[j]).0 != id,
        decreases entries.len() - i,
    {
        if entries[i].0 == id {
            return Some(i);
        }
        i += 1;
    }
    None
}

/// Who waits for the reply to which message.
pub struct Listeners<S> {
    entries: Vec<(u128, S)>,
}

/// What to do with an incoming message.
pub enum Delivery<S> {
    /// It replies to a message; hand it to the one waiting.
    Reply(S),
    /// It is a new request to handle and answer.
    Request,
    /// It replies to a message nobody waits for.
    Unregistered,
}

impl<S> View for Listeners<S> {
    type V = Map<u128, S>;

    closed spec fn view(&self) -> Map<u128, S> {
        listener_map(self.entries@)
    }
}

impl<S> Listeners<S> {
    #[verifier::type_invariant]
    spec fn well_formed(self) -> bool {
        unique_ids(self.entries@)
    }

    /// Nobody waits yet.
    pub fn new() -> (l: Listeners<S>)
        ensures
            l@ == Map::<u128, S>::empty(),
    {
        Listeners { entries: Vec::new() }
    }

    /// Registers `listener` as waiting for the reply to message `id`,
    /// replacing whoever waited for it before.
    pub fn register(&mut self, id: u128, listener: S)
        ensures
            final(self)@ == old(self)@.insert(id, listener),
    {
        proof { use_type_invariant(&*self); }
        let ghost before = self.entries@;
        let mut entries: Vec<(u128, S)> = Vec::new();
        std::mem::swap(&mut entries, &mut self.entries);
        match find_id(&entries, id) {
            Some(i) => {
                proof {
                    lemma_listener_map_remove(before, i as int);
                }
                entries.remove(i);
                let ghost removed = entries@;
                entries.push((id, listener));
                proof {
                    assert(entries@.drop_last() =~= removed);
                    lemma_listener_map(before);
                    assert(listener_map(entries@) =~= listener_map(before).insert(id, listener));
                    assert forall|a: int, b: int| 0 <= a < b < entries@.len() implies
                        (#[trigger] entries@[a]).0 != (#[trigger] entries@[b]).0 by {
                        if b == removed.len() {
                            lemma_listener_map(removed);
                            if removed[a].0 == id {
                                assert(listener_map(removed).contains_key(id));
                            }
                            assert(entries@[a] == removed[a]);
                        } else {
                            assert(entries@[a] == removed[a] && entries@[b] == removed[b]);
                        }
                    }
                }
            },
            None => {
                entries.push((id, listener));
                proof {
                    assert(entries@.drop_last() =~= before);
                    assert forall|a: int, b: int| 0 <= a < b < entries@.len() implies
                        (#[trigger] entries@[a]).0 != (#[trigger] entries@[b]).0 by {
                        if b == before.len() {
                            assert(entries@[a] == before[a]);
                        } else {
                            assert(entries@[a] == before[a] && entries@[b] == before[b]);
                        }
                    }
                }
            },
        }
        self.entries = entries;
    }

    /// Decides what an incoming message is: a message without a reply
    /// address is a request; a reply goes to whoever waits for it, who then
    /// waits no longer.
    pub fn route(&mut self, reply_to: Option<u128>) -> (d: Delivery<S>)
        ensures
            reply_to is None ==> d is Request && final(self)@ == old(self)@,
            reply_to is Some && old(self)@.contains_key(reply_to->0) ==> (d matches Delivery::Reply(s)
                && s == old(self)@[reply_to->0] && final(self)@ == old(self)@.remove(reply_to->0)),
            reply_to is Some && !old(self)@.contains_key(reply_to->0) ==> d is Unregistered && final(self)@ == old(self)@,
    {
        proof { use_type_invariant(&*self); }
        match reply_to {
            None => Delivery::Request,
            Some(id) => {
                let ghost before = self.entries@;
                proof { lemma_listener_map(before); }
                let mut entries: Vec<(u128, S)> = Vec::new();
                std::mem::swap(&mut entries, &mut self.entries);
                match find_id(&entries, id) {
                    Some(i) => {
                        proof { lemma_listener_map_remove(before, i as int); }
                        let (_, listener) = entries.remove(i);
                        self.entries = entries;
                        Delivery::Reply(listener)
                    },
                    None => {
                        proof {
                            if listener_map(before).contains_key(id) {
                                let j = choose|j: int| 0 <= j < before.len() && (#[trigger] before[j]).0 == id;
                                assert(entries@[j].0 == id);
                            }
                        }
                        self.entries = entries;
                        Delivery::Unregistered
                    },
                }
            },
        }
    }
}

/// A reply reaches the one waiting for it once: after it has been handed
/// over, another reply to the same message finds nobody waiting.
pub proof fn lemma_reply_delivered_once<S>(waiting: Map<u128, S>, id: u128)
    requires
        waiting.contains_key(id),
    ensures
        !waiting.remove(id).contains_key(id),
        forall|other: u128| other != id ==> waiting.remove(id).contains_key(other) == waiting.contains_key(other),
{
}


/// A message between two connected components: a request, or the reply to
/// the message `reply_to`, carrying JSON text.
#[derive(Debug)]
pub struct Message {
    pub id: uuid::Uuid,
    pub reply_to: Option<uuid::Uuid>,
    pub message: String,
    pub message_type: String,
}

/// The reply, under the new identifier `id`, to `request`.
pub fn reply_to(request: &Message, id: uuid::Uuid, message: String, message_type: String) -> (r: Message)
    ensures
        r.id == id,
        r.reply_to == Some(request.id),
        r.message == message,
        r.message_type == message_type,
{
    Message { id, reply_to: Some(request.id), message, message_type }
}

} // verus!
