use vstd::prelude::*;
use crate::errors::RecordError;
use crate::item::{Caller, Item, ItemView, item_ser_len, item_wf, lemma_item_view_wf};

verus! {

broadcast use lemma_item_view_wf, vstd::slice::group_slice_axioms;

/// The fixed byte budget reserved for a record at creation. It never changes
/// afterwards, and the serialized record must always fit within it.
pub const RECORD_CAPACITY: usize = 10000;

/// The persistent container: an item counter and an append-only, ordered
/// sequence of items, within a fixed reserved byte budget.
///
/// A record is created exactly once, empty, and mutated only by [`Record::append`],
/// one item per successful call. No operation removes or reorders items.
pub struct Record {
    pub(crate) total_items: u64,
    pub(crate) items: Vec<Item>,
    pub(crate) capacity: usize,
}

/// The mathematical model of a record.
#[verifier::ext_equal]
pub ghost struct RecordView {
    pub total_items: u64,
    pub items: Seq<ItemView>,
    pub capacity: usize,
}

impl View for Record {
    type V = RecordView;

    closed spec fn view(&self) -> RecordView {
        RecordView {
            total_items: self.total_items,
            items: self.items@.map_values(|item: Item| item@),
            capacity: self.capacity,
        }
    }
}

/// The serialized size of a sequence of items: the sum of the items' sizes.
pub open spec fn items_ser_len(items: Seq<ItemView>) -> int
    decreases items.len(),
{
    if items.len() == 0 {
        0
    } else {
        items_ser_len(items.drop_last()) + item_ser_len(items.last())
    }
}

/// The serialized size of a record: the 8-byte counter plus its items.
pub open spec fn record_ser_len(v: RecordView) -> int {
    8 + items_ser_len(v.items)
}

/// The record's invariant: the counter equals the number of stored items,
/// every item carries a full owner identifier, the serialized size fits the
/// reserved capacity, and the capacity is the fixed budget set at creation.
pub open spec fn record_wf(v: RecordView) -> bool {
    &&& v.total_items == v.items.len()
    &&& forall|i: int| 0 <= i < v.items.len() ==> item_wf(#[trigger] v.items[i])
    &&& record_ser_len(v) <= v.capacity
    &&& v.capacity == RECORD_CAPACITY
}

/// The item that an append by `caller` with payload `content` stores.
pub open spec fn appended_item(caller: Caller, content: Seq<char>) -> ItemView {
    ItemView { content: content, owner: caller.principal@ }
}

/// The effect of one committed append on the model of a record: the item goes
/// to the end of the sequence and the counter rises by one, as a single step.
pub open spec fn append_effect(v: RecordView, item: ItemView) -> RecordView {
    RecordView {
        total_items: (v.total_items + 1) as u64,
        items: v.items.push(item),
        capacity: v.capacity,
    }
}

/// The authorization guard's test: a caller may mutate a record only if the
/// host verified it as an authenticated principal.
pub open spec fn authorized(caller: Caller) -> bool {
    caller.authenticated
}

/// The capacity guard's test: the serialized size of the record after
/// appending `item` stays within the reserved budget.
pub open spec fn fits_capacity(v: RecordView, item: ItemView) -> bool {
    record_ser_len(v) + item_ser_len(item) <= v.capacity
}

/// Each item occupies at least its 36 bytes of fixed overhead, so a sequence
/// of items occupies at least 36 bytes per item.
pub proof fn lemma_items_ser_len_lower_bound(items: Seq<ItemView>)
    ensures
        items_ser_len(items) >= 36 * items.len(),
    decreases items.len(),
{
    if items.len() > 0 {
        lemma_items_ser_len_lower_bound(items.drop_last());
    }
}

/// Appending one item to a sequence grows its serialized size by exactly the
/// size of that item.
pub proof fn lemma_items_ser_len_push(items: Seq<ItemView>, item: ItemView)
    ensures
        items_ser_len(items.push(item)) == items_ser_len(items) + item_ser_len(item),
{
    assert(items.push(item).drop_last() =~= items);
}

/// The serialized size of the first `n` items never exceeds the size of the
/// whole sequence.
pub proof fn lemma_items_ser_len_take_bound(items: Seq<ItemView>, n: int)
    requires
        0 <= n <= items.len(),
    ensures
        items_ser_len(items.take(n)) <= items_ser_len(items),
    decreases items.len() - n,
{
    if n == items.len() {
        assert(items.take(n) =~= items);
    } else {
        assert(items.take(n + 1).drop_last() =~= items.take(n));
        lemma_items_ser_len_take_bound(items, n + 1);
    }
}

/// Every single item's serialized size is bounded by the size of the whole
/// sequence it stands in.
pub proof fn lemma_item_ser_len_le_items(items: Seq<ItemView>, i: int)
    requires
        0 <= i < items.len(),
    ensures
        item_ser_len(items[i]) <= items_ser_len(items),
    decreases items.len(),
{
    if i == items.len() - 1 {
        lemma_items_ser_len_lower_bound(items.drop_last());
    } else {
        lemma_item_ser_len_le_items(items.drop_last(), i);
    }
}

/// Lets the other modules of this crate relate a record to its model, whose
/// construction from the fields stays hidden from callers of the library.
pub(crate) proof fn lemma_record_view(record: &Record)
    ensures
        record@.total_items == record.total_items,
        record@.items == record.items@.map_values(|item: Item| item@),
        record@.capacity == record.capacity,
{
}

impl Record {
    /// The initializer: creates a new empty record, charged to `payer`, with
    /// the fixed reserved capacity. The payer must be able to authorize and
    /// fund the allocation; otherwise nothing is allocated. The host hands
    /// the record a freshly designated storage address, so each call creates
    /// a distinct record.
    pub fn create(payer: &Caller) -> (result: Result<Record, RecordError>)
        ensures
            match result {
                Ok(record) => {
                    &&& authorized(*payer)
                    &&& record@.total_items == 0
                    &&& record@.items =~= Seq::<ItemView>::empty()
                    &&& record@.capacity == RECORD_CAPACITY
                    &&& record_wf(record@)
                },
                Err(e) => e == RecordError::AllocationError && !authorized(*payer),
            },
    {
        if !payer.authenticated {
            return Err(RecordError::AllocationError);
        }
        let record = Record { total_items: 0, items: Vec::new(), capacity: RECORD_CAPACITY };
        proof {
            assert(record@.items =~= Seq::<ItemView>::empty());
        }
        Ok(record)
    }

    /// The serialized size the record occupies in the persisted layout.
    pub fn serialized_len(&self) -> (len: usize)
        requires
            record_wf(self@),
        ensures
            len == record_ser_len(self@),
    {
        let ghost views = self@.items;
        let mut len: usize = 8;
        let mut i: usize = 0;
        while i < self.items.len()
            invariant
                record_wf(self@),
                views == self@.items,
                self.items@.len() == views.len(),
                0 <= i <= views.len(),
                len == 8 + items_ser_len(views.take(i as int)),
                len <= RECORD_CAPACITY,
            decreases views.len() - i,
        {
            let content_len: usize = self.items[i].content.as_str().as_bytes().len();
            proof {
                assert(self.items@[i as int]@ == views[i as int]);
                assert(views.take(i as int + 1).drop_last() =~= views.take(i as int));
                lemma_items_ser_len_take_bound(views, i as int + 1);
            }
            len = len + 4 + content_len + 32;
            i = i + 1;
        }
        proof {
            assert(views.take(views.len() as int) =~= views);
        }
        len
    }

    /// The appender: adds one item holding `content`, owned by `caller`, as a
    /// single atomic step, after the authorization and capacity guards pass.
    /// Any guard failure aborts the whole operation with the record unchanged.
    pub fn append(&mut self, caller: &Caller, content: String) -> (result: Result<
        (),
        RecordError,
    >)
        requires
            record_wf(old(self)@),
        ensures
            record_wf(final(self)@),
            final(self)@.capacity == old(self)@.capacity,
            match result {
                Ok(()) => {
                    &&& authorized(*caller)
                    &&& fits_capacity(old(self)@, appended_item(*caller, content@))
                    &&& final(self)@ =~= append_effect(
                        old(self)@,
                        appended_item(*caller, content@),
                    )
                },
                Err(RecordError::AuthorizationError) => {
                    &&& !authorized(*caller)
                    &&& final(self)@ =~= old(self)@
                },
                Err(RecordError::CapacityExceeded) => {
                    &&& authorized(*caller)
                    &&& !fits_capacity(old(self)@, appended_item(*caller, content@))
                    &&& final(self)@ =~= old(self)@
                },
                Err(_) => false,
            },
    {
        if !caller.authenticated {
            return Err(RecordError::AuthorizationError);
        }
        let content_len: usize = content.as_str().as_bytes().len();
        let current_len: usize = self.serialized_len();
        if content_len > self.capacity {
            // the payload alone is over budget; with the counter and the
            // item's fixed overhead on top, the record cannot hold it
            return Err(RecordError::CapacityExceeded);
        }
        let prospective: usize = current_len + 4 + content_len + 32;
        if prospective > self.capacity {
            return Err(RecordError::CapacityExceeded);
        }
        let ghost old_view = self@;
        let ghost new_item = appended_item(*caller, content@);
        let item = Item { content, owner: caller.principal };
        proof {
            lemma_items_ser_len_lower_bound(old_view.items);
            lemma_items_ser_len_push(old_view.items, new_item);
            assert(self.items@.push(item).map_values(|it: Item| it@) =~= old_view.items.push(
                new_item,
            ));
        }
        self.items.push(item);
        self.total_items = self.total_items + 1;
        proof {
            assert(self@.items =~= old_view.items.push(new_item));
            assert(self@ =~= append_effect(old_view, new_item));
        }
        Ok(())
    }

    /// The item counter.
    pub fn total_items(&self) -> (n: u64)
        ensures
            n == self@.total_items,
    {
        self.total_items
    }

    /// The reserved byte budget fixed at creation.
    pub fn capacity(&self) -> (c: usize)
        ensures
            c == self@.capacity,
    {
        self.capacity
    }

    /// The stored items, in insertion order.
    pub fn items(&self) -> (items: &Vec<Item>)
        ensures
            items@.map_values(|item: Item| item@) =~= self@.items,
    {
        &self.items
    }
}

/// After any completed operation, a record's counter equals the number of
/// stored items: creation establishes the invariant and every append
/// preserves it.
pub proof fn lemma_counter_matches_items(v: RecordView)
    requires
        record_wf(v),
    ensures
        v.total_items == v.items.len(),
{
}

/// The model of the record that a sequence of committed appends, in commit
/// order, leaves behind on a starting record.
pub open spec fn replay_appends(v0: RecordView, appended: Seq<ItemView>) -> RecordView
    decreases appended.len(),
{
    if appended.len() == 0 {
        v0
    } else {
        append_effect(replay_appends(v0, appended.drop_last()), appended.last())
    }
}

/// However many append operations the host commits on a fresh record, and in
/// whatever order it commits them, the record holds exactly the committed
/// items, in commit order, and the counter equals their number — after every
/// committed operation, since the statement covers every prefix of the
/// sequence.
pub proof fn lemma_replay_appends(v0: RecordView, appended: Seq<ItemView>)
    requires
        v0.total_items == 0,
        v0.items.len() == 0,
        appended.len() <= u64::MAX,
    ensures
        replay_appends(v0, appended).items =~= appended,
        replay_appends(v0, appended).total_items == appended.len(),
        replay_appends(v0, appended).capacity == v0.capacity,
    decreases appended.len(),
{
    if appended.len() > 0 {
        lemma_replay_appends(v0, appended.drop_last());
    }
}

/// Two append operations submitted together and committed by the host in
/// either order leave a fresh record with a counter of two and exactly the
/// two items, in the commit order: no interleaving drops or duplicates one.
pub proof fn lemma_concurrent_appends(v0: RecordView, a: ItemView, b: ItemView, a_first: bool)
    requires
        v0.total_items == 0,
        v0.items.len() == 0,
    ensures
        ({
            let vf = if a_first {
                append_effect(append_effect(v0, a), b)
            } else {
                append_effect(append_effect(v0, b), a)
            };
            &&& vf.total_items == 2
            &&& vf.items.len() == 2
            &&& vf.items.contains(a)
            &&& vf.items.contains(b)
            &&& vf.items =~= (if a_first {
                seq![a, b]
            } else {
                seq![b, a]
            })
        }),
{
    let vf = if a_first {
        append_effect(append_effect(v0, a), b)
    } else {
        append_effect(append_effect(v0, b), a)
    };
    assert(vf.items[0] == if a_first { a } else { b });
    assert(vf.items[1] == if a_first { b } else { a });
}

} // verus!
