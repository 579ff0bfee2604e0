//! The bookkeeping that matches requests to their responses.
//!
//! A request that was handed to the transport waits in a [`PendingTable`]
//! under its key until a response with that key arrives, or until it is
//! swept out as expired. The table decides and records; sending, receiving
//! and reading the clock are left to the caller, who passes times as
//! nanoseconds on a clock of its choice.
use vstd::prelude::*;

use crate::id::{Id, IdView};
use crate::json::Json;
use crate::response::{reply_of, Response};
use crate::rpc_error::{RpcError, RpcErrorView};
use serde_json::Value;

verus! {

/// A request that waits for its reply. `S` is the handle through which the
/// reply reaches the waiter.
#[derive(Debug)]
pub struct PendingRequest<S> {
    pub id: Id,
    pub sender: S,
    /// When the request was registered.
    pub moment: u128,
    /// How long the waiter is ready to wait, if it set a bound.
    pub timeout: Option<u128>,
}

impl<S> PendingRequest<S> {
    /// The time from registration to `now`; zero where `now` lies before it.
    pub open spec fn elapsed(self, now: u128) -> int {
        if now >= self.moment {
            now - self.moment
        } else {
            0
        }
    }

    /// Whether the request has waited longer than its bound. A request
    /// without a bound never expires.
    pub open spec fn expired(self, now: u128) -> bool {
        match self.timeout {
            Some(bound) => bound < self.elapsed(now),
            None => false,
        }
    }

    /// Whether the request has waited longer than its bound.
    pub fn is_expired(&self, now: u128) -> (r: bool)
        ensures
            r == self.expired(now),
    {
        match self.timeout {
            Some(bound) => {
                let elapsed: u128 = if now >= self.moment {
                    now - self.moment
                } else {
                    0
                };
                bound < elapsed
            },
            None => false,
        }
    }
}

/// A reply on its way to a waiter.
#[derive(Debug)]
pub struct Delivery<S> {
    pub id: Id,
    pub sender: S,
    pub reply: Result<Value, RpcError>,
}

/// No two of the requests share a key.
spec fn distinct_ids<S>(entries: Seq<PendingRequest<S>>) -> bool {
    forall|i: int, j: int|
        0 <= i < j < entries.len() ==> (#[trigger] entries[i]).id@ != (#[trigger] entries[j]).id@
}

/// Whether one of the requests has the key.
spec fn holds<S>(entries: Seq<PendingRequest<S>>, key: IdView) -> bool {
    exists|i: int| 0 <= i < entries.len() && (#[trigger] entries[i]).id@ == key
}

/// Where the request with the key stands.
spec fn position<S>(entries: Seq<PendingRequest<S>>, key: IdView) -> int {
    choose|i: int| 0 <= i < entries.len() && (#[trigger] entries[i]).id@ == key
}

/// The requests by key.
spec fn table_of<S>(entries: Seq<PendingRequest<S>>) -> Map<IdView, PendingRequest<S>> {
    Map::new(|key: IdView| holds(entries, key), |key: IdView| entries[position(entries, key)])
}

/// Whether one of the deliveries is for the key.
pub open spec fn delivered<S>(deliveries: Seq<Delivery<S>>, key: IdView) -> bool {
    exists|i: int| 0 <= i < deliveries.len() && (#[trigger] deliveries[i]).id@ == key
}

/// No two of the deliveries are for the same key.
pub open spec fn distinct_deliveries<S>(deliveries: Seq<Delivery<S>>) -> bool {
    forall|i: int, j: int|
        0 <= i < j < deliveries.len() ==> (#[trigger] deliveries[i]).id@ != (
        #[trigger] deliveries[j]).id@
}

/// What is left of a table once the requests that have expired are taken out.
pub open spec fn unexpired<S>(table: Map<IdView, PendingRequest<S>>, now: u128) -> Map<
    IdView,
    PendingRequest<S>,
> {
    Map::new(
        |key: IdView| table.contains_key(key) && !table[key].expired(now),
        |key: IdView| table[key],
    )
}

/// A sweep takes out no request without a bound, and none that has waited no
/// longer than its bound; what it leaves stays as it was.
pub proof fn lemma_sweep_spares<S>(table: Map<IdView, PendingRequest<S>>, now: u128, key: IdView)
    requires
        table.contains_key(key),
        match table[key].timeout {
            Some(bound) => table[key].elapsed(now) <= bound,
            None => true,
        },
    ensures
        unexpired(table, now).contains_key(key),
        unexpired(table, now)[key] == table[key],
{
}

/// A sweep takes out every request that has waited longer than its bound.
pub proof fn lemma_sweep_takes<S>(table: Map<IdView, PendingRequest<S>>, now: u128, key: IdView)
    requires
        table.contains_key(key),
        table[key].timeout is Some,
        table[key].timeout->0 < table[key].elapsed(now),
    ensures
        !unexpired(table, now).contains_key(key),
{
}

/// Among requests with distinct keys, a request is found under its key.
proof fn lemma_entry_found<S>(entries: Seq<PendingRequest<S>>, i: int)
    requires
        distinct_ids(entries),
        0 <= i < entries.len(),
    ensures
        holds(entries, entries[i].id@),
        position(entries, entries[i].id@) == i,
        table_of(entries).contains_key(entries[i].id@),
        table_of(entries)[entries[i].id@] == entries[i],
{
    let found = position(entries, entries[i].id@);
    assert(entries[found].id@ == entries[i].id@);
    if found < i {
        assert(entries[found].id@ != entries[i].id@);
    } else if i < found {
        assert(entries[i].id@ != entries[found].id@);
    }
}

/// A request with a new key enters the table under that key.
proof fn lemma_table_push<S>(entries: Seq<PendingRequest<S>>, entry: PendingRequest<S>)
    requires
        distinct_ids(entries),
        !holds(entries, entry.id@),
    ensures
        distinct_ids(entries.push(entry)),
        table_of(entries.push(entry)) == table_of(entries).insert(entry.id@, entry),
{
    let longer = entries.push(entry);
    assert forall|i: int, j: int| 0 <= i < j < longer.len() implies (#[trigger] longer[i]).id@ != (
    #[trigger] longer[j]).id@ by {
        if j == entries.len() {
            assert(entries[i].id@ != entry.id@);
        } else {
            assert(entries[i].id@ != entries[j].id@);
        }
    }
    assert forall|key: IdView| holds(longer, key) <==> (holds(entries, key) || key
        == entry.id@) by {
        if holds(longer, key) {
            let i = position(longer, key);
            if i < entries.len() {
                assert(entries[i].id@ == key);
            }
        }
        if holds(entries, key) {
            let i = position(entries, key);
            assert(longer[i].id@ == key);
        }
        if key == entry.id@ {
            assert(longer[entries.len() as int].id@ == key);
        }
    }
    assert forall|key: IdView| holds(longer, key) implies #[trigger] table_of(longer)[key]
        == table_of(entries).insert(entry.id@, entry)[key] by {
        let i = position(longer, key);
        lemma_entry_found(longer, i);
        if i < entries.len() {
            assert(entries[i] == longer[i]);
            lemma_entry_found(entries, i);
        }
    }
    assert(table_of(longer) =~= table_of(entries).insert(entry.id@, entry));
}

/// Taking a request out of the list, with the last one moved into its place,
/// takes its key out of the table and nothing else.
proof fn lemma_table_swap_remove<S>(entries: Seq<PendingRequest<S>>, i: int)
    requires
        distinct_ids(entries),
        0 <= i < entries.len(),
    ensures
        distinct_ids(entries.update(i, entries.last()).drop_last()),
        table_of(entries.update(i, entries.last()).drop_last()) == table_of(entries).remove(
            entries[i].id@,
        ),
{
    let rest = entries.update(i, entries.last()).drop_last();
    let last = entries.len() - 1;
    // Where each request of `rest` stood in `entries`.
    let origin = |k: int| if k == i { last } else { k };
    assert forall|k: int| 0 <= k < rest.len() implies #[trigger] rest[k] == entries[origin(k)]
        && origin(k) != i by {}
    assert forall|a: int, b: int| 0 <= a < b < rest.len() implies (#[trigger] rest[a]).id@ != (
    #[trigger] rest[b]).id@ by {
        let oa = origin(a);
        let ob = origin(b);
        assert(rest[a] == entries[oa] && rest[b] == entries[ob]);
        if oa < ob {
            assert(entries[oa].id@ != entries[ob].id@);
        } else {
            assert(entries[ob].id@ != entries[oa].id@);
        }
    }
    assert forall|key: IdView| holds(rest, key) <==> (holds(entries, key) && key
        != entries[i].id@) by {
        if holds(rest, key) {
            let k = position(rest, key);
            assert(rest[k] == entries[origin(k)]);
            lemma_entry_found(entries, origin(k));
            lemma_entry_found(entries, i);
        }
        if holds(entries, key) && key != entries[i].id@ {
            let k = position(entries, key);
            if k == last {
                assert(rest[i].id@ == key);
            } else {
                assert(rest[k].id@ == key);
            }
        }
    }
    assert forall|key: IdView| holds(rest, key) implies #[trigger] table_of(rest)[key]
        == table_of(entries)[key] by {
        let k = position(rest, key);
        lemma_entry_found(rest, k);
        assert(rest[k] == entries[origin(k)]);
        lemma_entry_found(entries, origin(k));
    }
    assert(table_of(rest) =~= table_of(entries).remove(entries[i].id@));
}

/// A table holds as many keys as there are requests.
proof fn lemma_table_size<S>(entries: Seq<PendingRequest<S>>)
    requires
        distinct_ids(entries),
    ensures
        table_of(entries).dom().finite(),
        table_of(entries).dom().len() == entries.len(),
    decreases entries.len(),
{
    if entries.len() == 0 {
        assert(table_of(entries).dom() =~= Set::<IdView>::empty());
    } else {
        let front = entries.drop_last();
        let last = entries.last();
        assert forall|i: int, j: int| 0 <= i < j < front.len() implies (#[trigger] front[i]).id@
            != (#[trigger] front[j]).id@ by {
            assert(entries[i].id@ != entries[j].id@);
        }
        if holds(front, last.id@) {
            let i = position(front, last.id@);
            assert(entries[i].id@ != entries[entries.len() - 1].id@);
        }
        lemma_table_size(front);
        lemma_table_push(front, last);
        assert(front.push(last) =~= entries);
        assert(table_of(entries).dom() =~= table_of(front).dom().insert(last.id@));
    }
}

/// Where the request with the key stands among `entries`, if one of them has
/// it.
fn find<S>(entries: &Vec<PendingRequest<S>>, id: &Id) -> (r: Option<usize>)
    ensures
        match r {
            Some(i) => i < entries.len() && entries[i as int].id@ == id@,
            None => !holds(entries@, id@),
        },
{
    let mut i: usize = 0;
    while i < entries.len()
        invariant
            i <= entries.len(),
            forall|k: int| 0 <= k < i ==> (#[trigger] entries[k]).id@ != id@,
        decreases entries.len() - i,
    {
        if entries[i].id == *id {
            return Some(i);
        }
        i += 1;
    }
    None
}

/// The requests that wait for a reply, by key, with the number of them up to
/// which no sweep is made.
#[derive(Debug)]
pub struct PendingTable<S> {
    capacity: usize,
    entries: Vec<PendingRequest<S>>,
}

impl<S> View for PendingTable<S> {
    type V = Map<IdView, PendingRequest<S>>;

    closed spec fn view(&self) -> Map<IdView, PendingRequest<S>> {
        table_of(self.entries@)
    }
}

impl<S> PendingTable<S> {
    #[verifier::type_invariant]
    spec fn well_formed(self) -> bool {
        distinct_ids(self.entries@)
    }

    /// The number of waiting requests up to which no sweep is made.
    pub closed spec fn limit(&self) -> usize {
        self.capacity
    }

    /// Whether more requests wait than the table is meant to hold.
    pub open spec fn crowded(&self) -> bool {
        self.limit() < self@.dom().len()
    }

    /// An empty table.
    pub fn new(capacity: usize) -> (r: PendingTable<S>)
        ensures
            r@ == Map::<IdView, PendingRequest<S>>::empty(),
            r.limit() == capacity,
    {
        let r = PendingTable { capacity, entries: Vec::new() };
        assert(r@ =~= Map::<IdView, PendingRequest<S>>::empty());
        r
    }

    /// The number of waiting requests up to which no sweep is made.
    pub fn capacity(&self) -> (r: usize)
        ensures
            r == self.limit(),
    {
        self.capacity
    }

    /// The number of waiting requests.
    pub fn len(&self) -> (r: usize)
        ensures
            self@.dom().finite(),
            r == self@.dom().len(),
    {
        proof {
            use_type_invariant(self);
            lemma_table_size(self.entries@);
        }
        self.entries.len()
    }

    /// Whether no request waits.
    pub fn is_empty(&self) -> (r: bool)
        ensures
            r == (self@.dom().len() == 0),
    {
        self.len() == 0
    }

    /// Whether more requests wait than the table is meant to hold.
    pub fn over_capacity(&self) -> (r: bool)
        ensures
            r == self.crowded(),
    {
        self.capacity < self.len()
    }

    /// Takes the requests out, leaving the table empty for the moment.
    fn take_entries(&mut self) -> (entries: Vec<PendingRequest<S>>)
        ensures
            entries@ == old(self).entries@,
            distinct_ids(entries@),
            final(self).entries@.len() == 0,
            final(self).capacity == old(self).capacity,
    {
        proof {
            use_type_invariant(&*self);
        }
        let mut entries: Vec<PendingRequest<S>> = Vec::new();
        core::mem::swap(&mut self.entries, &mut entries);
        entries
    }

    /// Puts requests with distinct keys in the place of those in the table.
    fn put_entries(&mut self, entries: Vec<PendingRequest<S>>)
        requires
            distinct_ids(entries@),
        ensures
            final(self).entries@ == entries@,
            final(self).capacity == old(self).capacity,
    {
        let mut entries = entries;
        core::mem::swap(&mut self.entries, &mut entries);
    }

    /// Whether a request waits under the key.
    pub fn contains(&self, id: &Id) -> (r: bool)
        ensures
            r == self@.contains_key(id@),
    {
        find(&self.entries, id).is_some()
    }

    /// Enters a request under its key. A request that waited under the same
    /// key leaves the table and is handed back: it can no longer be answered.
    pub fn insert(&mut self, entry: PendingRequest<S>) -> (displaced: Option<PendingRequest<S>>)
        ensures
            final(self)@ == old(self)@.insert(entry.id@, entry),
            final(self).limit() == old(self).limit(),
            displaced == if old(self)@.contains_key(entry.id@) {
                Some(old(self)@[entry.id@])
            } else {
                None::<PendingRequest<S>>
            },
    {
        let mut entries = self.take_entries();
        let ghost before = entries@;
        let displaced = match find(&entries, &entry.id) {
            Some(i) => {
                proof {
                    lemma_entry_found(before, i as int);
                    lemma_table_swap_remove(before, i as int);
                }
                Some(entries.swap_remove(i))
            },
            None => None,
        };
        proof {
            lemma_table_push(entries@, entry);
            assert(table_of(before).remove(entry.id@).insert(entry.id@, entry) =~= table_of(
                before,
            ).insert(entry.id@, entry));
            if displaced is None {
                assert(table_of(before).remove(entry.id@) =~= table_of(before));
            }
        }
        entries.push(entry);
        self.put_entries(entries);
        displaced
    }

    /// Takes the request that waits under the key out of the table.
    pub fn remove(&mut self, id: &Id) -> (r: Option<PendingRequest<S>>)
        ensures
            final(self)@ == old(self)@.remove(id@),
            final(self).limit() == old(self).limit(),
            r == if old(self)@.contains_key(id@) {
                Some(old(self)@[id@])
            } else {
                None::<PendingRequest<S>>
            },
    {
        let mut entries = self.take_entries();
        let ghost before = entries@;
        let found = match find(&entries, id) {
            Some(i) => {
                proof {
                    lemma_entry_found(before, i as int);
                    lemma_table_swap_remove(before, i as int);
                }
                Some(entries.swap_remove(i))
            },
            None => {
                assert(table_of(before).remove(id@) =~= table_of(before));
                None
            },
        };
        self.put_entries(entries);
        found
    }

    /// Matches a response to the request that waits for it. Where one waits
    /// under the key of the response, it leaves the table and the reply is to
    /// be delivered to it; where none does, the response is dropped and the
    /// table stays as it is.
    pub fn fulfill(&mut self, response: Response) -> (r: Option<Delivery<S>>)
        ensures
            final(self)@ == old(self)@.remove(response.id@),
            final(self).limit() == old(self).limit(),
            match r {
                Some(delivery) => old(self)@.contains_key(response.id@) && delivery.id@
                    == response.id@ && delivery.sender == old(self)@[response.id@].sender
                    && delivery.reply == response.result,
                None => !old(self)@.contains_key(response.id@),
            },
    {
        match self.remove(&response.id) {
            Some(pending) => Some(
                Delivery { id: response.id, sender: pending.sender, reply: response.result },
            ),
            None => None,
        }
    }

    /// Takes every request that has expired at `now` out of the table. Each
    /// of them is to be answered with the timeout failure. Requests without a
    /// bound stay, however long they have waited.
    pub fn sweep(&mut self, now: u128) -> (expired: Vec<Delivery<S>>)
        ensures
            final(self)@ == unexpired(old(self)@, now),
            final(self).limit() == old(self).limit(),
            distinct_deliveries(expired@),
            forall|key: IdView|
                delivered(expired@, key) <==> old(self)@.contains_key(key) && old(
                    self,
                )@[key].expired(now),
            forall|i: int|
                0 <= i < expired.len() ==> (#[trigger] expired[i]).sender == old(
                    self,
                )@[expired[i].id@].sender && reply_of(expired[i].reply) == Err::<
                    Json,
                    RpcErrorView,
                >(RpcErrorView::timeout()),
    {
        let mut rest = self.take_entries();
        let ghost all = rest@;
        let mut kept: Vec<PendingRequest<S>> = Vec::new();
        let mut expired: Vec<Delivery<S>> = Vec::new();
        while rest.len() > 0
            invariant
                distinct_ids(all),
                rest@ == all.subrange(0, rest.len() as int),
                rest.len() <= all.len(),
                distinct_ids(kept@),
                distinct_deliveries(expired@),
                forall|i: int|
                    0 <= i < kept.len() ==> holds(all, (#[trigger] kept[i]).id@) && position(
                        all,
                        kept[i].id@,
                    ) >= rest.len() && all[position(all, kept[i].id@)] == kept[i]
                        && !kept[i].expired(now),
                forall|i: int|
                    0 <= i < expired.len() ==> holds(all, (#[trigger] expired[i]).id@)
                        && position(all, expired[i].id@) >= rest.len() && all[position(
                        all,
                        expired[i].id@,
                    )].sender == expired[i].sender && all[position(all, expired[i].id@)].expired(
                        now,
                    ) && reply_of(expired[i].reply) == Err::<Json, RpcErrorView>(
                        RpcErrorView::timeout(),
                    ),
                forall|j: int|
                    rest.len() <= j < all.len() ==> if (#[trigger] all[j]).expired(now) {
                        delivered(expired@, all[j].id@)
                    } else {
                        holds(kept@, all[j].id@)
                    },
            decreases rest.len(),
        {
            let ghost at = rest.len() - 1;
            let ghost kept_before = kept@;
            let ghost expired_before = expired@;
            let pending = rest.pop().unwrap();
            proof {
                assert(pending == all[at]);
                lemma_entry_found(all, at);
                assert(rest@ =~= all.subrange(0, rest.len() as int));
                if holds(kept_before, pending.id@) {
                    let i = position(kept_before, pending.id@);
                    assert(position(all, kept_before[i].id@) > at);
                }
                if delivered(expired_before, pending.id@) {
                    let i = choose|i: int|
                        0 <= i < expired_before.len() && (#[trigger] expired_before[i]).id@
                            == pending.id@;
                    assert(position(all, expired_before[i].id@) > at);
                }
            }
            if pending.is_expired(now) {
                let delivery = Delivery {
                    id: pending.id,
                    sender: pending.sender,
                    reply: Err(RpcError::timeout()),
                };
                expired.push(delivery);
                proof {
                    assert forall|i: int, j: int| 0 <= i < j < expired.len() implies (
                    #[trigger] expired[i]).id@ != (#[trigger] expired[j]).id@ by {
                        if j == expired_before.len() {
                            assert(expired_before[i].id@ != pending.id@);
                        } else {
                            assert(expired_before[i].id@ != expired_before[j].id@);
                        }
                    }
                    assert forall|j: int| rest.len() <= j < all.len() implies if (
                    #[trigger] all[j]).expired(now) {
                        delivered(expired@, all[j].id@)
                    } else {
                        holds(kept@, all[j].id@)
                    } by {
                        if j == at {
                            assert(expired[expired_before.len() as int].id@ == all[j].id@);
                        } else if all[j].expired(now) {
                            let i = choose|i: int|
                                0 <= i < expired_before.len() && (
                                #[trigger] expired_before[i]).id@ == all[j].id@;
                            assert(expired[i].id@ == all[j].id@);
                        }
                    }
                }
            } else {
                proof {
                    lemma_table_push(kept_before, pending);
                }
                kept.push(pending);
                proof {
                    assert forall|j: int| rest.len() <= j < all.len() implies if (
                    #[trigger] all[j]).expired(now) {
                        delivered(expired@, all[j].id@)
                    } else {
                        holds(kept@, all[j].id@)
                    } by {
                        if j == at {
                            assert(kept[kept_before.len() as int].id@ == all[j].id@);
                        } else if !all[j].expired(now) {
                            let i = position(kept_before, all[j].id@);
                            assert(kept[i].id@ == all[j].id@);
                        }
                    }
                }
            }
        }
        proof {
            assert forall|key: IdView| holds(kept@, key) <==> (table_of(all).contains_key(key)
                && !table_of(all)[key].expired(now)) by {
                if holds(kept@, key) {
                    let i = position(kept@, key);
                    assert(all[position(all, kept[i].id@)] == kept[i]);
                }
                if table_of(all).contains_key(key) && !table_of(all)[key].expired(now) {
                    let j = position(all, key);
                    assert(holds(kept@, all[j].id@));
                }
            }
            assert forall|key: IdView| holds(kept@, key) implies #[trigger] table_of(kept@)[key]
                == table_of(all)[key] by {
                let i = position(kept@, key);
                lemma_entry_found(kept@, i);
                assert(all[position(all, kept[i].id@)] == kept[i]);
            }
            assert(table_of(kept@) =~= unexpired(table_of(all), now));
            assert forall|key: IdView| delivered(expired@, key) <==> (table_of(all).contains_key(
                key,
            ) && table_of(all)[key].expired(now)) by {
                if delivered(expired@, key) {
                    let i = choose|i: int|
                        0 <= i < expired.len() && (#[trigger] expired[i]).id@ == key;
                    assert(all[position(all, expired[i].id@)].expired(now));
                }
                if table_of(all).contains_key(key) && table_of(all)[key].expired(now) {
                    let j = position(all, key);
                    assert(delivered(expired@, all[j].id@));
                }
            }
        }
        self.put_entries(kept);
        expired
    }

    /// Enters a request that the transport has taken, then makes room if the
    /// table is crowded: only when more requests wait than the table is meant
    /// to hold are those that have expired at `now` taken out, each to be
    /// answered with the timeout failure. The request that waited under the
    /// same key before, if any, is handed back unanswered.
    pub fn register(&mut self, entry: PendingRequest<S>, now: u128) -> (r: (
        Option<PendingRequest<S>>,
        Vec<Delivery<S>>,
    ))
        ensures
            final(self).limit() == old(self).limit(),
            r.0 == if old(self)@.contains_key(entry.id@) {
                Some(old(self)@[entry.id@])
            } else {
                None::<PendingRequest<S>>
            },
            old(self).limit() < old(self)@.insert(entry.id@, entry).dom().len() ==> {
                &&& final(self)@ == unexpired(old(self)@.insert(entry.id@, entry), now)
                &&& distinct_deliveries(r.1@)
                &&& forall|key: IdView|
                    delivered(r.1@, key) <==> old(self)@.insert(entry.id@, entry).contains_key(
                        key,
                    ) && old(self)@.insert(entry.id@, entry)[key].expired(now)
                &&& forall|i: int|
                    0 <= i < r.1.len() ==> (#[trigger] r.1[i]).sender == old(self)@.insert(
                        entry.id@,
                        entry,
                    )[r.1[i].id@].sender && reply_of(r.1[i].reply) == Err::<Json, RpcErrorView>(
                        RpcErrorView::timeout(),
                    )
            },
            old(self).limit() >= old(self)@.insert(entry.id@, entry).dom().len() ==> final(self)@
                == old(self)@.insert(entry.id@, entry) && r.1@.len() == 0,
    {
        let displaced = self.insert(entry);
        let expired = if self.over_capacity() {
            self.sweep(now)
        } else {
            Vec::new()
        };
        (displaced, expired)
    }
}

/// The keys of the requests that are made without one: the integers from
/// zero upwards, starting over from the lowest after the highest.
#[derive(Debug)]
pub struct RequestIds {
    next: i64,
}

impl RequestIds {
    /// The integer that the next key will be.
    pub closed spec fn upcoming(&self) -> i64 {
        self.next
    }

    /// The keys from zero.
    pub fn new() -> (r: RequestIds)
        ensures
            r.upcoming() == 0,
    {
        RequestIds { next: 0 }
    }

    /// The keys from `first`.
    pub fn starting_at(first: i64) -> (r: RequestIds)
        ensures
            r.upcoming() == first,
    {
        RequestIds { next: first }
    }

    /// Hands out the next key.
    pub fn take(&mut self) -> (id: Id)
        ensures
            id@ == IdView::Number(old(self).upcoming()),
            final(self).upcoming() == if old(self).upcoming() == i64::MAX {
                i64::MIN
            } else {
                (old(self).upcoming() + 1) as i64
            },
    {
        let id = self.next;
        self.next = id.wrapping_add(1);
        Id::Number(id)
    }
}

} // verus!
