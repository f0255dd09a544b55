//! The bounded store of the most recent messages.
//!
//! The records live in an `AllocRingBuffer` of the `ringbuffer` crate. Verus
//! cannot look into that type, so three names say what a ring holds
//! ([`ring_items`], [`ring_capacity`], [`ring_writes`]) and three small
//! functions, whose contracts Verus takes on trust, say what the crate's
//! operations do to them. [`MessageStore`] and the laws at the end of this
//! file are proved from those contracts.

use crate::message::record_views;
use crate::message::MessageRecord;
use crate::message::MessageRecordView;
use ringbuffer::AllocRingBuffer;
use ringbuffer::RingBufferExt;
use ringbuffer::RingBufferWrite;
use vstd::prelude::*;

verus! {

/// The capacity of a store that is made without naming one.
pub const DEFAULT_CAPACITY: usize = 32;

/// The largest capacity that a store can have. The slots of a ring are
/// allocated at once when it is made, and that allocation has to fit the
/// address space of every machine.
pub const MAX_CAPACITY: usize = 65_536;

/// Writes after which the store moves its records into a new ring. A ring
/// counts its writes in machine integers and never rewinds the count; below
/// this limit the count fits every machine.
const WRITE_LIMIT: usize = 0x7fff_ffff;

/// Whether `n` is 1, 2, 4, 8 and so on.
pub open spec fn power_of_two(n: nat) -> bool
    decreases n,
{
    n == 1 || (n > 1 && n % 2 == 0 && power_of_two(n / 2))
}

/// The capacities that a store can be made with.
pub open spec fn is_capacity(n: nat) -> bool {
    power_of_two(n) && n <= MAX_CAPACITY
}

/// The records after one more is appended to `items` in a store of the given
/// capacity: where the store is full, the oldest record leaves first.
pub open spec fn pushed<R>(items: Seq<R>, capacity: nat, record: R) -> Seq<R> {
    if items.len() < capacity {
        items.push(record)
    } else {
        items.drop_first().push(record)
    }
}

/// The records after `records` are appended one by one, in their order.
pub open spec fn pushed_all<R>(items: Seq<R>, capacity: nat, records: Seq<R>) -> Seq<R>
    decreases records.len(),
{
    if records.len() == 0 {
        items
    } else {
        pushed(pushed_all(items, capacity, records.drop_last()), capacity, records.last())
    }
}

/// The last `capacity` of `items`, or all of them where they are fewer.
pub open spec fn latest<R>(items: Seq<R>, capacity: nat) -> Seq<R> {
    if items.len() <= capacity {
        items
    } else {
        items.skip(items.len() - capacity)
    }
}

#[verifier::external_type_specification]
#[verifier::external_body]
#[verifier::reject_recursive_types(T)]
pub struct ExAllocRingBuffer<T>(AllocRingBuffer<T>);

/// The records that a ring holds, from the one pushed longest ago to the one
/// pushed last.
pub uninterp spec fn ring_items(ring: AllocRingBuffer<MessageRecord>) -> Seq<MessageRecordView>;

/// The capacity that a ring was made with.
pub uninterp spec fn ring_capacity(ring: AllocRingBuffer<MessageRecord>) -> nat;

/// How many pushes a ring has taken since it was made. The crate keeps this
/// count in a `usize` that only grows.
pub uninterp spec fn ring_writes(ring: AllocRingBuffer<MessageRecord>) -> nat;

/// Calls `AllocRingBuffer::with_capacity`, which panics unless the capacity
/// is a power of two. Trusted: the new ring is empty, has the capacity asked
/// for and has counted no write.
#[verifier::external_body]
fn ring_with_capacity(capacity: usize) -> (ring: AllocRingBuffer<MessageRecord>)
    requires
        is_capacity(capacity as nat),
    ensures
        ring_items(ring) == Seq::<MessageRecordView>::empty(),
        ring_capacity(ring) == capacity,
        ring_writes(ring) == 0,
{
    AllocRingBuffer::with_capacity(capacity)
}

/// Calls `RingBufferWrite::push`. Trusted: the record goes to the end; where
/// the ring was full, the record pushed longest ago is dropped to make room;
/// the capacity stays and the count of writes grows by one. The call does
/// not unwind.
#[verifier::external_body]
fn ring_push(ring: &mut AllocRingBuffer<MessageRecord>, record: MessageRecord)
    requires
        ring_items(*old(ring)).len() <= ring_capacity(*old(ring)),
        ring_writes(*old(ring)) < WRITE_LIMIT,
    ensures
        ring_items(*final(ring)) == pushed(
            ring_items(*old(ring)),
            ring_capacity(*old(ring)),
            record@,
        ),
        ring_capacity(*final(ring)) == ring_capacity(*old(ring)),
        ring_writes(*final(ring)) == ring_writes(*old(ring)) + 1,
    no_unwind
{
    ring.push(record)
}

/// Calls `RingBufferExt::iter` and clones every record it yields. Trusted:
/// the iterator goes from the record pushed longest ago to the one pushed
/// last, so the copies are the ring's records in that order.
#[verifier::external_body]
fn ring_to_vec(ring: &AllocRingBuffer<MessageRecord>) -> (records: Vec<MessageRecord>)
    requires
        ring_writes(*ring) <= WRITE_LIMIT,
    ensures
        record_views(records@) == ring_items(*ring),
{
    ring.iter().cloned().collect()
}

/// Whether `n` is a power of two.
fn is_power_of_two(n: usize) -> (yes: bool)
    ensures
        yes == power_of_two(n as nat),
{
    if n == 0 {
        return false;
    }
    let mut m: usize = n;
    while m % 2 == 0
        invariant
            m >= 1,
            power_of_two(m as nat) == power_of_two(n as nat),
        decreases m,
    {
        m = m / 2;
    }
    m == 1
}

/// The most recent messages, oldest first, never more than the capacity.
///
/// A store is made once with a fixed capacity. Pushing into a full store
/// evicts the single oldest record. Records are never changed in place, and
/// readers get copies.
pub struct MessageStore {
    ring: AllocRingBuffer<MessageRecord>,
    capacity: usize,
    writes: usize,
}

impl MessageStore {
    #[verifier::type_invariant]
    spec fn well_formed(&self) -> bool {
        &&& is_capacity(self.capacity as nat)
        &&& ring_capacity(self.ring) == self.capacity
        &&& ring_items(self.ring).len() <= self.capacity
        &&& ring_writes(self.ring) <= self.writes <= WRITE_LIMIT
    }

    /// The records in the store, oldest first.
    pub closed spec fn view(&self) -> Seq<MessageRecordView> {
        ring_items(self.ring)
    }

    /// The capacity that the store was made with.
    pub closed spec fn spec_capacity(&self) -> nat {
        self.capacity as nat
    }

    /// An empty store of the default capacity, 32.
    pub fn new() -> (store: MessageStore)
        ensures
            store@ == Seq::<MessageRecordView>::empty(),
            store.spec_capacity() == DEFAULT_CAPACITY,
    {
        assert(is_capacity(DEFAULT_CAPACITY as nat)) by {
            reveal_with_fuel(power_of_two, 6);
        }
        MessageStore {
            ring: ring_with_capacity(DEFAULT_CAPACITY),
            capacity: DEFAULT_CAPACITY,
            writes: 0,
        }
    }

    /// An empty store of the given capacity, or `None` where the capacity is
    /// not a power of two or is above [`MAX_CAPACITY`].
    pub fn with_capacity(capacity: usize) -> (made: Option<MessageStore>)
        ensures
            made is Some <==> is_capacity(capacity as nat),
            made matches Some(store) ==> store@ == Seq::<MessageRecordView>::empty()
                && store.spec_capacity() == capacity,
    {
        if capacity <= MAX_CAPACITY && is_power_of_two(capacity) {
            Some(MessageStore { ring: ring_with_capacity(capacity), capacity, writes: 0 })
        } else {
            None
        }
    }

    /// The capacity that the store was made with. It is a power of two, and
    /// the store never holds more records than this.
    pub fn capacity(&self) -> (capacity: usize)
        ensures
            capacity == self.spec_capacity(),
            is_capacity(self.spec_capacity()),
            self@.len() <= self.spec_capacity(),
    {
        proof {
            use_type_invariant(self);
        }
        self.capacity
    }

    /// The same records in a new ring that has counted only as many writes
    /// as it holds records.
    fn rebuilt(&self) -> (fresh: MessageStore)
        ensures
            fresh@ == self@,
            fresh.capacity == self.capacity,
            fresh.writes <= MAX_CAPACITY,
    {
        proof {
            use_type_invariant(self);
        }
        let kept = ring_to_vec(&self.ring);
        let ghost views = record_views(kept@);
        let mut ring = ring_with_capacity(self.capacity);
        let mut i: usize = 0;
        assert(views.take(0) =~= Seq::<MessageRecordView>::empty());
        while i < kept.len()
            invariant
                i <= kept.len() <= self.capacity <= MAX_CAPACITY,
                views == record_views(kept@),
                ring_items(ring) == views.take(i as int),
                ring_capacity(ring) == self.capacity,
                ring_writes(ring) == i,
            decreases kept.len() - i,
        {
            let record = kept[i].clone();
            ring_push(&mut ring, record);
            assert(views.take(i as int).push(views[i as int]) =~= views.take(i as int + 1));
            i = i + 1;
        }
        assert(views.take(i as int) =~= views);
        MessageStore { ring, capacity: self.capacity, writes: kept.len() }
    }

    /// Appends a record. A full store evicts its oldest record first; the
    /// other records keep their order.
    pub fn push(&mut self, record: MessageRecord)
        ensures
            final(self)@ == pushed(old(self)@, old(self).spec_capacity(), record@),
            final(self).spec_capacity() == old(self).spec_capacity(),
    {
        proof {
            use_type_invariant(&*self);
        }
        if self.writes >= WRITE_LIMIT {
            let fresh = self.rebuilt();
            proof {
                use_type_invariant(&fresh);
            }
            *self = fresh;
        }
        self.writes = self.writes + 1;
        ring_push(&mut self.ring, record);
    }

    /// Appends the records one by one, in their order.
    pub fn extend(&mut self, records: Vec<MessageRecord>)
        ensures
            final(self)@ == pushed_all(
                old(self)@,
                old(self).spec_capacity(),
                record_views(records@),
            ),
            final(self)@ == latest(
                old(self)@ + record_views(records@),
                old(self).spec_capacity(),
            ),
            final(self).spec_capacity() == old(self).spec_capacity(),
    {
        let ghost start = self@;
        let ghost capacity = self.spec_capacity();
        let ghost views = record_views(records@);
        proof {
            use_type_invariant(&*self);
            assert(views.take(0) =~= Seq::<MessageRecordView>::empty());
        }
        for record in it: records
            invariant
                views == record_views(it.seq()),
                self.spec_capacity() == capacity,
                self@ == pushed_all(start, capacity, views.take(it.index() as int)),
        {
            proof {
                let done = views.take(it.index() + 1);
                assert(done.drop_last() =~= views.take(it.index() as int));
                assert(done.last() == record@);
            }
            self.push(record);
        }
        proof {
            assert(views.take(views.len() as int) =~= views);
            lemma_pushes_keep_latest(start, capacity, views);
        }
    }

    /// A copy of the records in the store, oldest first. The store is not
    /// changed, and later pushes do not change the copy.
    pub fn snapshot(&self) -> (records: Vec<MessageRecord>)
        ensures
            record_views(records@) == self@,
            records@.len() <= self.spec_capacity(),
    {
        proof {
            use_type_invariant(self);
        }
        let records = ring_to_vec(&self.ring);
        assert(record_views(records@).len() == records@.len());
        records
    }
}

/// After any run of pushes the store holds the most recent records, as many
/// as fit, in the order in which they were pushed.
pub proof fn lemma_pushes_keep_latest<R>(items: Seq<R>, capacity: nat, records: Seq<R>)
    requires
        capacity >= 1,
        items.len() <= capacity,
    ensures
        pushed_all(items, capacity, records) == latest(items + records, capacity),
        pushed_all(items, capacity, records).len() <= capacity,
    decreases records.len(),
{
    if records.len() == 0 {
        assert(items + records =~= items);
    } else {
        let before = records.drop_last();
        lemma_pushes_keep_latest(items, capacity, before);
        let all = items + records;
        assert(all.drop_last() =~= items + before);
        assert(all.last() == records.last());
        assert(pushed(latest(items + before, capacity), capacity, records.last()) =~= latest(
            all,
            capacity,
        ));
    }
}

/// Bounded eviction: pushing `capacity + k` records into an empty store
/// leaves exactly `capacity` of them, namely all but the first `k`, in the
/// order in which they were pushed.
pub proof fn lemma_bounded_eviction<R>(capacity: nat, records: Seq<R>, k: nat)
    requires
        capacity >= 1,
        records.len() == capacity + k,
    ensures
        pushed_all(Seq::<R>::empty(), capacity, records).len() == capacity,
        pushed_all(Seq::<R>::empty(), capacity, records) == records.skip(k as int),
        forall|i: int|
            0 <= i < capacity ==> #[trigger] pushed_all(Seq::<R>::empty(), capacity, records)[i]
                == records[k + i],
{
    lemma_pushes_keep_latest(Seq::<R>::empty(), capacity, records);
    assert(Seq::<R>::empty() + records =~= records);
}

/// Every state that a run of pushes goes through is the state of some
/// prefix of the run: after the first `n` records the store holds the most
/// recent of exactly those, whatever is pushed later.
pub proof fn lemma_prefix_states<R>(capacity: nat, records: Seq<R>, n: nat)
    requires
        capacity >= 1,
        n <= records.len(),
    ensures
        pushed_all(Seq::<R>::empty(), capacity, records.take(n as int)) == latest(
            records.take(n as int),
            capacity,
        ),
{
    lemma_pushes_keep_latest(Seq::<R>::empty(), capacity, records.take(n as int));
    assert(Seq::<R>::empty() + records.take(n as int) =~= records.take(n as int));
}

} // verus!
