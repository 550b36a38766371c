use vstd::bytes::{
    lemma_auto_spec_u32_to_from_le_bytes, lemma_auto_spec_u64_to_from_le_bytes,
    spec_u32_to_le_bytes, spec_u64_to_le_bytes, u32_to_le_bytes, u64_to_le_bytes,
};
use vstd::prelude::*;
use crate::errors::RecordError;
use crate::item::{Item, ItemView, content_bytes, item_ser_len, item_wf};
use crate::record::{
    Record, RecordView, items_ser_len, lemma_record_view, record_ser_len, record_wf,
};

verus! {

broadcast use vstd::slice::group_slice_axioms, vstd::array::group_array_axioms;

/// The bytes of one item in the persisted layout: a 4-byte little-endian
/// length prefix, the UTF-8 bytes of the content, and the 32-byte owner
/// identifier.
pub open spec fn item_bytes(v: ItemView) -> Seq<u8> {
    spec_u32_to_le_bytes(content_bytes(v).len() as u32) + content_bytes(v) + v.owner
}

/// The bytes of a sequence of items, in insertion order.
pub open spec fn items_bytes(items: Seq<ItemView>) -> Seq<u8>
    decreases items.len(),
{
    if items.len() == 0 {
        Seq::empty()
    } else {
        items_bytes(items.drop_last()) + item_bytes(items.last())
    }
}

/// The persisted layout of a record: the 8-byte little-endian item counter at
/// offset zero, followed by the items in insertion order.
pub open spec fn record_bytes(v: RecordView) -> Seq<u8> {
    spec_u64_to_le_bytes(v.total_items) + items_bytes(v.items)
}

/// A well-formed item whose content fits the length field serializes to
/// exactly its serialized size.
pub proof fn lemma_item_bytes_len(v: ItemView)
    requires
        item_wf(v),
    ensures
        item_bytes(v).len() == item_ser_len(v),
{
    lemma_auto_spec_u32_to_from_le_bytes();
}

/// A sequence of well-formed items serializes to exactly the sum of the
/// items' serialized sizes.
pub proof fn lemma_items_bytes_len(items: Seq<ItemView>)
    requires
        forall|i: int| 0 <= i < items.len() ==> item_wf(#[trigger] items[i]),
    ensures
        items_bytes(items).len() == items_ser_len(items),
    decreases items.len(),
{
    if items.len() > 0 {
        lemma_items_bytes_len(items.drop_last());
        lemma_item_bytes_len(items.last());
    }
}

/// The persisted layout of a well-formed record occupies exactly its
/// serialized size, so the size the capacity guard computes is the size the
/// store pays for.
pub proof fn lemma_record_bytes_len(v: RecordView)
    requires
        record_wf(v),
    ensures
        record_bytes(v).len() == record_ser_len(v),
{
    lemma_auto_spec_u64_to_from_le_bytes();
    lemma_items_bytes_len(v.items);
}

/// Extending a serialized prefix by one more item appends exactly that
/// item's bytes.
pub proof fn lemma_items_bytes_take_succ(items: Seq<ItemView>, n: int)
    requires
        0 <= n < items.len(),
    ensures
        items_bytes(items.take(n + 1)) =~= items_bytes(items.take(n)) + item_bytes(items[n]),
{
    assert(items.take(n + 1).drop_last() =~= items.take(n));
    assert(items.take(n + 1).last() == items[n]);
}

/// Appends the layout bytes of one item to `out`.
fn write_item(out: &mut Vec<u8>, item: &Item)
    requires
        content_bytes(item@).len() <= u32::MAX,
    ensures
        final(out)@ =~= old(out)@ + item_bytes(item@),
{
    let content_slice: &[u8] = item.content.as_str().as_bytes();
    let ghost prefix = spec_u32_to_le_bytes(content_bytes(item@).len() as u32);
    let mut length_prefix: Vec<u8> = u32_to_le_bytes(content_slice.len() as u32);
    out.append(&mut length_prefix);
    let mut i: usize = 0;
    while i < content_slice.len()
        invariant
            content_slice@ == content_bytes(item@),
            0 <= i <= content_slice@.len(),
            out@ =~= old(out)@ + prefix + content_slice@.take(i as int),
        decreases content_slice@.len() - i,
    {
        let byte: u8 = content_slice[i];
        out.push(byte);
        proof {
            assert(content_slice@.take(i + 1) =~= content_slice@.take(i as int).push(byte));
        }
        i = i + 1;
    }
    proof {
        assert(content_slice@.take(content_slice@.len() as int) =~= content_slice@);
    }
    let mut j: usize = 0;
    while j < 32
        invariant
            content_slice@ == content_bytes(item@),
            item.owner.id@.len() == 32,
            0 <= j <= 32,
            out@ =~= old(out)@ + prefix + content_slice@ + item.owner.id@.take(j as int),
        decreases 32 - j,
    {
        let byte: u8 = item.owner.id[j];
        out.push(byte);
        proof {
            assert(item.owner.id@.take(j + 1) =~= item.owner.id@.take(j as int).push(byte));
        }
        j = j + 1;
    }
    proof {
        assert(item.owner.id@.take(32) =~= item.owner.id@);
    }
}

/// Encodes one item into its persisted layout. The content must fit the
/// 4-byte length field; a payload past that bound cannot be encoded within
/// the fixed item layout and is rejected before anything is produced.
pub fn serialize_item(item: &Item) -> (result: Result<Vec<u8>, RecordError>)
    ensures
        match result {
            Ok(bytes) => {
                &&& content_bytes(item@).len() <= u32::MAX
                &&& bytes@ =~= item_bytes(item@)
            },
            Err(e) => {
                &&& e == RecordError::SerializationError
                &&& content_bytes(item@).len() > u32::MAX
            },
        },
{
    let content_slice: &[u8] = item.content.as_str().as_bytes();
    if content_slice.len() > u32::MAX as usize {
        return Err(RecordError::SerializationError);
    }
    let mut bytes: Vec<u8> = Vec::new();
    write_item(&mut bytes, item);
    Ok(bytes)
}

/// Serializes a well-formed record into its persisted layout. The record's
/// invariant bounds every item within the fixed capacity, so every content
/// fits the length field and serialization cannot fail.
pub fn serialize_record(record: &Record) -> (bytes: Vec<u8>)
    requires
        record_wf(record@),
    ensures
        bytes@ =~= record_bytes(record@),
        bytes@.len() == record_ser_len(record@),
        bytes@.len() <= record@.capacity,
{
    proof {
        lemma_record_view(record);
    }
    let ghost views = record@.items;
    let mut bytes: Vec<u8> = u64_to_le_bytes(record.total_items);
    let ghost counter = spec_u64_to_le_bytes(record@.total_items);
    let mut i: usize = 0;
    while i < record.items.len()
        invariant
            record_wf(record@),
            views == record@.items,
            record.items@.map_values(|item: Item| item@) == views,
            record.items@.len() == views.len(),
            0 <= i <= views.len(),
            bytes@ =~= counter + items_bytes(views.take(i as int)),
        decreases views.len() - i,
    {
        let item: &Item = &record.items[i];
        proof {
            assert(item@ == views[i as int]);
            crate::record::lemma_item_ser_len_le_items(views, i as int);
            lemma_item_bytes_len(views[i as int]);
            lemma_items_bytes_take_succ(views, i as int);
        }
        write_item(&mut bytes, item);
        i = i + 1;
    }
    proof {
        assert(views.take(views.len() as int) =~= views);
        lemma_record_bytes_len(record@);
    }
    bytes
}

} // verus!
