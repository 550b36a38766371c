use vstd::prelude::*;
use vstd::utf8::encode_utf8;

verus! {

broadcast use vstd::array::group_array_axioms;

/// The identity of a principal: a fixed 32-byte identifier, as it appears in
/// the persisted layout.
#[derive(Clone, Copy, Debug, PartialEq, Eq)]
pub struct Principal {
    pub id: [u8; 32],
}

impl View for Principal {
    type V = Seq<u8>;

    open spec fn view(&self) -> Seq<u8> {
        self.id@
    }
}

/// A caller presented with an operation request: an identity together with
/// the host's verdict on whether that identity was validly authenticated.
/// The signature check itself belongs to the host environment; the store only
/// consumes its boolean result.
#[derive(Clone, Copy, Debug)]
pub struct Caller {
    pub principal: Principal,
    pub authenticated: bool,
}

/// One stored entry: a string payload (for example, a resource link) plus the
/// identity of the principal that added it.
#[derive(Clone, Debug, PartialEq, Eq)]
pub struct Item {
    pub content: String,
    pub owner: Principal,
}

/// The mathematical model of an item: the content as a character sequence and
/// the owner as a byte sequence.
#[verifier::ext_equal]
pub ghost struct ItemView {
    pub content: Seq<char>,
    pub owner: Seq<u8>,
}

impl View for Item {
    type V = ItemView;

    open spec fn view(&self) -> ItemView {
        ItemView { content: self.content@, owner: self.owner@ }
    }
}

/// A well-formed item model carries a full 32-byte owner identifier. Every
/// value built from an [`Item`] satisfies this by construction.
pub open spec fn item_wf(v: ItemView) -> bool {
    v.owner.len() == 32
}

/// The bytes of an item's content in the persisted layout: its UTF-8 encoding.
pub open spec fn content_bytes(v: ItemView) -> Seq<u8> {
    encode_utf8(v.content)
}

/// The serialized size of one item: a 4-byte length prefix, the UTF-8 bytes
/// of the content, and the 32-byte owner identifier.
pub open spec fn item_ser_len(v: ItemView) -> int {
    4 + content_bytes(v).len() as int + 32
}

/// The view of any item is well formed: an owner identifier is always exactly
/// 32 bytes.
pub broadcast proof fn lemma_item_view_wf(item: Item)
    ensures
        #[trigger] item_wf(item@),
{
}

} // verus!
