//! The relay's registry of pairings: which identifiers have a peer waiting,
//! which have both peers, and the hand-off of the queue pair between the two.

use tokio::sync::{broadcast, mpsc};
use vstd::prelude::*;
use crate::relay::channel::{
    max_capacity, new_queue, new_signal, publish, queue_bound, subscribe,
};
use crate::relay::error::CryoError;

verus! {

/// How many messages each queue of a pairing holds before its sender has to
/// wait.
pub const QUEUE_CAPACITY: usize = 10;

/// How many notifications a disconnect signal holds: it fires once.
pub const SIGNAL_CAPACITY: usize = 1;

/// One peer's half of a pairing's two queues: the end it sends into of the
/// one, the end it receives from of the other.
#[derive(Debug)]
pub struct Half {
    pub tx: mpsc::Sender<String>,
    pub rx: mpsc::Receiver<String>,
}

impl Half {
    /// How many messages the queue that this half sends into holds before
    /// its sender has to wait.
    pub fn capacity(&self) -> (capacity: usize)
        ensures
            capacity == queue_bound(self.tx),
    {
        max_capacity(&self.tx)
    }
}

/// The side of the description exchange that a peer is on.
#[derive(Clone, Copy, Debug, PartialEq, Eq, Structural)]
pub enum Role {
    /// The peer that arrived first: it waits for an offer and answers it.
    Answering,
    /// The peer that arrived second: it is asked for an offer.
    Offering,
}

/// What a peer is handed when it is registered.
#[derive(Debug)]
pub struct Pairing {
    pub role: Role,
    pub half: Half,
    pub disconnect: broadcast::Receiver<()>,
}

/// Where an identifier stands in the registry.
#[derive(Clone, Copy, Debug, PartialEq, Eq, Structural)]
pub enum Slot {
    /// No peer is registered under it.
    Vacant,
    /// One peer is registered and the other half waits to be claimed.
    Waiting,
    /// Both peers are registered.
    Paired,
}

/// Where `id` stands in a registry with the given contents.
pub open spec fn slot_of(entries: Map<Seq<char>, Option<Half>>, id: Seq<char>) -> Slot {
    if !entries.contains_key(id) {
        Slot::Vacant
    } else if entries[id] is Some {
        Slot::Waiting
    } else {
        Slot::Paired
    }
}

/// The role that a peer gets when it arrives at an identifier in the given
/// state: the first answers, the second offers, a third gets none.
pub open spec fn role_for(slot: Slot) -> Option<Role> {
    match slot {
        Slot::Vacant => Some(Role::Answering),
        Slot::Waiting => Some(Role::Offering),
        Slot::Paired => None,
    }
}

/// The registry's contents after a peer arrived at `id`: a first peer
/// leaves `waiting` under `id`, a second leaves nothing waiting, and a third
/// changes nothing.
pub open spec fn registered(
    entries: Map<Seq<char>, Option<Half>>,
    id: Seq<char>,
    waiting: Half,
) -> Map<Seq<char>, Option<Half>> {
    match slot_of(entries, id) {
        Slot::Vacant => entries.insert(id, Some(waiting)),
        Slot::Waiting => entries.insert(id, None),
        Slot::Paired => entries,
    }
}

/// The two halves that two queues make: the first peer sends into the first
/// queue and receives from the second, the second peer the other way round.
pub open spec fn crossed(
    first: (mpsc::Sender<String>, mpsc::Receiver<String>),
    second: (mpsc::Sender<String>, mpsc::Receiver<String>),
) -> (Half, Half) {
    (Half { tx: first.0, rx: second.1 }, Half { tx: second.0, rx: first.1 })
}

struct Entry {
    id: String,
    signal: broadcast::Sender<()>,
    unclaimed: Option<Half>,
}

/// The pairings that are active, by identifier.
///
/// Its view maps each registered identifier to the half that waits for the
/// second peer, or to `None` once that half was claimed.
pub struct Registry {
    entries: Vec<Entry>,
}

spec fn holds(entries: Seq<Entry>, id: Seq<char>) -> bool {
    exists|i: int| 0 <= i < entries.len() && #[trigger] entries[i].id@ == id
}

spec fn place(entries: Seq<Entry>, id: Seq<char>) -> int {
    choose|i: int| 0 <= i < entries.len() && #[trigger] entries[i].id@ == id
}

spec fn distinct(entries: Seq<Entry>) -> bool {
    forall|i: int, j: int|
        0 <= i < j < entries.len() ==> #[trigger] entries[i].id@ != #[trigger] entries[j].id@
}

spec fn contents(entries: Seq<Entry>) -> Map<Seq<char>, Option<Half>> {
    Map::new(|id: Seq<char>| holds(entries, id), |id: Seq<char>| entries[place(entries, id)].unclaimed)
}

proof fn lemma_place(entries: Seq<Entry>, i: int)
    requires
        distinct(entries),
        0 <= i < entries.len(),
    ensures
        holds(entries, entries[i].id@),
        place(entries, entries[i].id@) == i,
        contents(entries).contains_key(entries[i].id@),
        contents(entries)[entries[i].id@] == entries[i].unclaimed,
{
    let id = entries[i].id@;
    assert(holds(entries, id));
    let j = place(entries, id);
    assert(0 <= j < entries.len() && entries[j].id@ == id);
    if j < i {
        assert(entries[j].id@ != entries[i].id@);
    } else if i < j {
        assert(entries[i].id@ != entries[j].id@);
    }
}

proof fn lemma_pushed(entries: Seq<Entry>, entry: Entry)
    requires
        distinct(entries),
        !holds(entries, entry.id@),
    ensures
        distinct(entries.push(entry)),
        contents(entries.push(entry)) == contents(entries).insert(entry.id@, entry.unclaimed),
{
    let after = entries.push(entry);
    let n = entries.len() as int;
    assert forall|i: int, j: int| 0 <= i < j < after.len() implies #[trigger] after[i].id@
        != #[trigger] after[j].id@ by {
        if j == n {
            if after[i].id@ == entry.id@ {
                assert(entries[i].id@ == entry.id@);
                assert(holds(entries, entry.id@));
            }
        } else {
            assert(entries[i].id@ != entries[j].id@);
        }
    }
    assert forall|id: Seq<char>| holds(after, id) <==> (holds(entries, id) || id == entry.id@) by {
        if holds(after, id) {
            let i = place(after, id);
            if i < n {
                assert(entries[i].id@ == id);
            }
        }
        if holds(entries, id) {
            let i = place(entries, id);
            assert(after[i].id@ == id);
        }
        if id == entry.id@ {
            assert(after[n].id@ == id);
        }
    }
    assert forall|id: Seq<char>| holds(after, id) implies #[trigger] contents(after)[id]
        == contents(entries).insert(entry.id@, entry.unclaimed)[id] by {
        if id == entry.id@ {
            lemma_place(after, n);
        } else {
            let i = place(entries, id);
            lemma_place(entries, i);
            assert(after[i] == entries[i]);
            lemma_place(after, i);
        }
    }
    assert(contents(after) =~= contents(entries).insert(entry.id@, entry.unclaimed));
}

proof fn lemma_updated(entries: Seq<Entry>, at: int, entry: Entry)
    requires
        distinct(entries),
        0 <= at < entries.len(),
        entry.id@ == entries[at].id@,
    ensures
        distinct(entries.update(at, entry)),
        contents(entries.update(at, entry)) == contents(entries).insert(
            entry.id@,
            entry.unclaimed,
        ),
{
    let after = entries.update(at, entry);
    assert forall|i: int, j: int| 0 <= i < j < after.len() implies #[trigger] after[i].id@
        != #[trigger] after[j].id@ by {
        assert(after[i].id@ == entries[i].id@);
        assert(after[j].id@ == entries[j].id@);
        assert(entries[i].id@ != entries[j].id@);
    }
    assert forall|id: Seq<char>| holds(after, id) <==> holds(entries, id) by {
        if holds(after, id) {
            let i = place(after, id);
            assert(entries[i].id@ == id);
        }
        if holds(entries, id) {
            let i = place(entries, id);
            assert(after[i].id@ == id);
        }
    }
    lemma_place(entries, at);
    assert forall|id: Seq<char>| holds(after, id) implies #[trigger] contents(after)[id]
        == contents(entries).insert(entry.id@, entry.unclaimed)[id] by {
        let i = place(after, id);
        lemma_place(after, i);
        if i != at {
            assert(after[i] == entries[i]);
            lemma_place(entries, i);
        }
    }
    assert(contents(after) =~= contents(entries).insert(entry.id@, entry.unclaimed));
}

proof fn lemma_removed(entries: Seq<Entry>, at: int)
    requires
        distinct(entries),
        0 <= at < entries.len(),
    ensures
        distinct(entries.remove(at)),
        !holds(entries.remove(at), entries[at].id@),
        contents(entries.remove(at)) == contents(entries).remove(entries[at].id@),
{
    let after = entries.remove(at);
    let gone = entries[at].id@;
    assert forall|i: int| 0 <= i < after.len() implies #[trigger] after[i] == entries[if i < at {
        i
    } else {
        i + 1
    }] by {}
    assert forall|i: int, j: int| 0 <= i < j < after.len() implies #[trigger] after[i].id@
        != #[trigger] after[j].id@ by {
        let a = if i < at {
            i
        } else {
            i + 1
        };
        let b = if j < at {
            j
        } else {
            j + 1
        };
        assert(after[i] == entries[a]);
        assert(after[j] == entries[b]);
        assert(entries[a].id@ != entries[b].id@);
    }
    assert forall|id: Seq<char>| holds(after, id) <==> (holds(entries, id) && id != gone) by {
        if holds(after, id) {
            let i = place(after, id);
            let a = if i < at {
                i
            } else {
                i + 1
            };
            assert(after[i] == entries[a]);
            assert(entries[a].id@ == id);
            if a < at {
                assert(entries[a].id@ != entries[at].id@);
            } else {
                assert(entries[at].id@ != entries[a].id@);
            }
        }
        if holds(entries, id) && id != gone {
            let a = place(entries, id);
            let i = if a < at {
                a
            } else {
                a - 1
            };
            assert(after[i] == entries[a]);
            assert(after[i].id@ == id);
        }
    }
    assert forall|id: Seq<char>| holds(after, id) implies #[trigger] contents(after)[id]
        == contents(entries)[id] by {
        let i = place(after, id);
        let a = if i < at {
            i
        } else {
            i + 1
        };
        assert(after[i] == entries[a]);
        lemma_place(after, i);
        lemma_place(entries, a);
    }
    assert(contents(after) =~= contents(entries).remove(gone));
}

proof fn lemma_count(entries: Seq<Entry>)
    requires
        distinct(entries),
    ensures
        contents(entries).dom().finite(),
        contents(entries).len() == entries.len(),
    decreases entries.len(),
{
    if entries.len() == 0 {
        assert(contents(entries).dom() =~= Set::<Seq<char>>::empty());
    } else {
        let last = (entries.len() - 1) as int;
        lemma_removed(entries, last);
        lemma_place(entries, last);
        lemma_count(entries.remove(last));
        let rest = contents(entries.remove(last));
        assert(contents(entries).dom() =~= rest.dom().insert(entries[last].id@));
    }
}

fn locate(entries: &Vec<Entry>, id: &String) -> (at: Option<usize>)
    ensures
        match at {
            Some(i) => i < entries.len() && entries[i as int].id@ == id@,
            None => !holds(entries@, id@),
        },
{
    let mut i: usize = 0;
    while i < entries.len()
        invariant
            i <= entries.len(),
            forall|k: int| 0 <= k < i ==> entries[k].id@ != id@,
        decreases entries.len() - i,
    {
        if entries[i].id == *id {
            return Some(i);
        }
        i += 1;
    }
    None
}

fn seat(
    entries: &mut Vec<Entry>,
    id: String,
    first: (mpsc::Sender<String>, mpsc::Receiver<String>),
    second: (mpsc::Sender<String>, mpsc::Receiver<String>),
    signal: broadcast::Sender<()>,
) -> (pairing: Pairing)
    requires
        distinct(old(entries)@),
        !holds(old(entries)@, id@),
    ensures
        distinct(final(entries)@),
        contents(final(entries)@) == contents(old(entries)@).insert(
            id@,
            Some(crossed(first, second).1),
        ),
        pairing.role == Role::Answering,
        pairing.half == crossed(first, second).0,
{
    let disconnect = subscribe(&signal);
    let half = Half { tx: first.0, rx: second.1 };
    let entry = Entry { id, signal, unclaimed: Some(Half { tx: second.0, rx: first.1 }) };
    proof {
        lemma_pushed(entries@, entry);
    }
    entries.push(entry);
    Pairing { role: Role::Answering, half, disconnect }
}

fn claim(entries: &mut Vec<Entry>, at: usize) -> (r: Result<Pairing, CryoError>)
    requires
        distinct(old(entries)@),
        at < old(entries)@.len(),
    ensures
        distinct(final(entries)@),
        match old(entries)@[at as int].unclaimed {
            Some(waiting) => {
                &&& r matches Ok(pairing)
                &&& pairing.role == Role::Offering
                &&& pairing.half == waiting
                &&& contents(final(entries)@) == contents(old(entries)@).insert(
                    old(entries)@[at as int].id@,
                    None,
                )
            },
            None => {
                &&& r == Err::<Pairing, CryoError>(CryoError::ChannelAlreadyEstablished)
                &&& final(entries)@ == old(entries)@
            },
        },
{
    let ghost before = entries@;
    match entries[at].unclaimed.take() {
        None => {
            assert(entries@ =~= before);
            Err(CryoError::ChannelAlreadyEstablished)
        },
        Some(half) => {
            proof {
                lemma_updated(before, at as int, entries@[at as int]);
            }
            let disconnect = subscribe(&entries[at].signal);
            Ok(Pairing { role: Role::Offering, half, disconnect })
        },
    }
}

impl View for Registry {
    type V = Map<Seq<char>, Option<Half>>;

    closed spec fn view(&self) -> Map<Seq<char>, Option<Half>> {
        contents(self.entries@)
    }
}

impl Registry {
    #[verifier::type_invariant]
    spec fn well_formed(self) -> bool {
        distinct(self.entries@)
    }

    /// A registry without pairings.
    pub fn new() -> (registry: Registry)
        ensures
            registry@ == Map::<Seq<char>, Option<Half>>::empty(),
    {
        let registry = Registry { entries: Vec::new() };
        assert(registry@ =~= Map::<Seq<char>, Option<Half>>::empty());
        registry
    }

    /// Where `id` stands: vacant, waiting for its second peer, or paired.
    pub fn slot(&self, id: &str) -> (slot: Slot)
        ensures
            slot == slot_of(self@, id@),
    {
        proof {
            use_type_invariant(self);
        }
        let id = id.to_owned();
        match locate(&self.entries, &id) {
            None => Slot::Vacant,
            Some(i) => {
                proof {
                    lemma_place(self.entries@, i as int);
                }
                if self.entries[i].unclaimed.is_some() {
                    Slot::Waiting
                } else {
                    Slot::Paired
                }
            },
        }
    }

    /// Registers a peer under `id`, with two fresh queues and a fresh signal
    /// at hand for the case that it is the first.
    ///
    /// The first to arrive keeps one half of the queues as [`crossed`] makes
    /// them and leaves the other half waiting. The second to arrive claims
    /// the waiting half, and the fresh queues go unused. A third is refused
    /// and the registry stays as it is.
    pub fn register_with(
        &mut self,
        id: String,
        first: (mpsc::Sender<String>, mpsc::Receiver<String>),
        second: (mpsc::Sender<String>, mpsc::Receiver<String>),
        signal: broadcast::Sender<()>,
    ) -> (r: Result<Pairing, CryoError>)
        ensures
            final(self)@ == registered(old(self)@, id@, crossed(first, second).1),
            match role_for(slot_of(old(self)@, id@)) {
                Some(Role::Answering) => {
                    &&& r matches Ok(pairing)
                    &&& pairing.role == Role::Answering
                    &&& pairing.half == crossed(first, second).0
                },
                Some(Role::Offering) => {
                    &&& r matches Ok(pairing)
                    &&& pairing.role == Role::Offering
                    &&& Some(pairing.half) == old(self)@[id@]
                },
                None => r == Err::<Pairing, CryoError>(CryoError::ChannelAlreadyEstablished),
            },
    {
        proof {
            use_type_invariant(&*self);
        }
        let mut entries: Vec<Entry> = Vec::new();
        std::mem::swap(&mut self.entries, &mut entries);
        let r = match locate(&entries, &id) {
            None => Ok(seat(&mut entries, id, first, second, signal)),
            Some(at) => {
                proof {
                    lemma_place(entries@, at as int);
                }
                claim(&mut entries, at)
            },
        };
        std::mem::swap(&mut self.entries, &mut entries);
        r
    }

    /// Registers a peer under `id`.
    ///
    /// Without an entry for `id`, the peer is the first: two queues of
    /// [`QUEUE_CAPACITY`] and a disconnect signal are made, one half of the
    /// queues is left waiting under `id`, and the peer gets the other half
    /// and the answering role. With a half waiting under `id`, the peer is
    /// the second: it gets that half and the offering role, and the entry
    /// holds no half any more. With an entry whose half was claimed, the
    /// peer is refused and nothing changes. Either peer gets a subscription
    /// to the entry's disconnect signal.
    pub fn register(&mut self, id: String) -> (r: Result<Pairing, CryoError>)
        ensures
            match role_for(slot_of(old(self)@, id@)) {
                Some(Role::Answering) => {
                    &&& r matches Ok(pairing)
                    &&& pairing.role == Role::Answering
                    &&& queue_bound(pairing.half.tx) == QUEUE_CAPACITY
                    &&& final(self)@[id@] matches Some(waiting)
                    &&& queue_bound(waiting.tx) == QUEUE_CAPACITY
                    &&& final(self)@ == registered(old(self)@, id@, waiting)
                },
                Some(Role::Offering) => {
                    &&& r matches Ok(pairing)
                    &&& pairing.role == Role::Offering
                    &&& Some(pairing.half) == old(self)@[id@]
                    &&& final(self)@ == old(self)@.insert(id@, None)
                },
                None => {
                    &&& r == Err::<Pairing, CryoError>(CryoError::ChannelAlreadyEstablished)
                    &&& final(self)@ == old(self)@
                },
            },
    {
        proof {
            use_type_invariant(&*self);
        }
        let mut entries: Vec<Entry> = Vec::new();
        std::mem::swap(&mut self.entries, &mut entries);
        let r = match locate(&entries, &id) {
            None => {
                let first = new_queue(QUEUE_CAPACITY);
                let second = new_queue(QUEUE_CAPACITY);
                let signal = new_signal(SIGNAL_CAPACITY);
                Ok(seat(&mut entries, id, first, second, signal))
            },
            Some(at) => {
                proof {
                    lemma_place(entries@, at as int);
                }
                claim(&mut entries, at)
            },
        };
        std::mem::swap(&mut self.entries, &mut entries);
        r
    }

    /// Removes the entry of `id` and publishes its disconnect signal, so
    /// that the paired session ends too. Says whether there was an entry;
    /// without one nothing happens.
    pub fn unregister(&mut self, id: &str) -> (removed: bool)
        ensures
            removed == old(self)@.contains_key(id@),
            final(self)@ == old(self)@.remove(id@),
    {
        proof {
            use_type_invariant(&*self);
        }
        let id = id.to_owned();
        let ghost before = self.entries@;
        let mut entries: Vec<Entry> = Vec::new();
        std::mem::swap(&mut self.entries, &mut entries);
        let removed = match locate(&entries, &id) {
            None => {
                assert(contents(before) =~= contents(before).remove(id@));
                false
            },
            Some(i) => {
                proof {
                    lemma_place(before, i as int);
                    lemma_removed(before, i as int);
                }
                let entry = entries.remove(i);
                publish(&entry.signal);
                true
            },
        };
        std::mem::swap(&mut self.entries, &mut entries);
        removed
    }

    /// The number of identifiers that are registered.
    pub fn len(&self) -> (n: usize)
        ensures
            n == self@.len(),
            self@.dom().finite(),
    {
        proof {
            use_type_invariant(self);
            lemma_count(self.entries@);
        }
        self.entries.len()
    }
}

/// Pairing is decided by the order of arrival alone. Of the peers that
/// arrive one after another at an identifier that was vacant, the first
/// answers, the second offers, and every later one is refused and leaves
/// the registry as it found it.
pub proof fn lemma_pairing_order(
    vacant: Map<Seq<char>, Option<Half>>,
    id: Seq<char>,
    first: Half,
    second: Half,
    third: Half,
)
    requires
        slot_of(vacant, id) == Slot::Vacant,
    ensures
        ({
            let one = registered(vacant, id, first);
            let two = registered(one, id, second);
            let three = registered(two, id, third);
            &&& role_for(slot_of(vacant, id)) == Some(Role::Answering)
            &&& role_for(slot_of(one, id)) == Some(Role::Offering)
            &&& role_for(slot_of(two, id)) == None::<Role>
            &&& one[id] == Some(first)
            &&& three == two
        }),
{
}

/// Registering under one identifier leaves every other identifier where it
/// stood.
pub proof fn lemma_register_is_local(
    entries: Map<Seq<char>, Option<Half>>,
    id: Seq<char>,
    waiting: Half,
    other: Seq<char>,
)
    requires
        other != id,
    ensures
        slot_of(registered(entries, id, waiting), other) == slot_of(entries, other),
        slot_of(entries.remove(id), other) == slot_of(entries, other),
{
}

/// Unregistering frees the identifier, and doing it again changes nothing.
pub proof fn lemma_unregister_frees(entries: Map<Seq<char>, Option<Half>>, id: Seq<char>)
    ensures
        slot_of(entries.remove(id), id) == Slot::Vacant,
        entries.remove(id).remove(id) == entries.remove(id),
{
    assert(entries.remove(id).remove(id) =~= entries.remove(id));
}


} // verus!
