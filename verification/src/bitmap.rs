//! Sets of entity identifiers held in compressed bitmaps.

use roaring::RoaringTreemap;
use vstd::prelude::*;

use crate::error::{HelixDbError, HelixDbErrorView};

verus! {

/// `roaring::RoaringTreemap`: a compressed set of `u64` values.
#[verifier::external_type_specification]
#[verifier::external_body]
pub struct ExRoaringTreemap(roaring::RoaringTreemap);

/// The values that a bitmap holds.
pub uninterp spec fn bitmap_ids(bitmap: RoaringTreemap) -> Set<u64>;

/// What `RoaringTreemap::deserialize_from` makes of bytes: the values of the
/// bitmap that they start with, in roaring's portable serialization, or in
/// words why it rejects them.
pub uninterp spec fn deserialized(bytes: Seq<u8>) -> Result<Set<u64>, Seq<char>>;

/// The values of the bitmap that `bytes` starts with, or `None` where roaring
/// rejects the bytes.
pub open spec fn serialized_ids(bytes: Seq<u8>) -> Option<Set<u64>> {
    match deserialized(bytes) {
        Ok(ids) => Some(ids),
        Err(_) => None,
    }
}

/// Why roaring rejects the bytes.
pub open spec fn rejection(bytes: Seq<u8>) -> Seq<char> {
    deserialized(bytes)->Err_0
}

/// `RoaringTreemap::new` makes an empty set.
pub assume_specification[ RoaringTreemap::new ]() -> (bitmap: RoaringTreemap)
    ensures
        bitmap_ids(bitmap) == Set::<u64>::empty(),
;

/// `RoaringTreemap::insert` adds the value and tells whether it was absent.
pub assume_specification[ RoaringTreemap::insert ](
    bitmap: &mut RoaringTreemap,
    value: u64,
) -> (added: bool)
    ensures
        bitmap_ids(*final(bitmap)) == bitmap_ids(*old(bitmap)).insert(value),
        added == !bitmap_ids(*old(bitmap)).contains(value),
;

/// `RoaringTreemap::remove` drops the value and tells whether it was present.
pub assume_specification[ RoaringTreemap::remove ](
    bitmap: &mut RoaringTreemap,
    value: u64,
) -> (removed: bool)
    ensures
        bitmap_ids(*final(bitmap)) == bitmap_ids(*old(bitmap)).remove(value),
        removed == bitmap_ids(*old(bitmap)).contains(value),
;

/// `RoaringTreemap::contains` tests membership.
pub assume_specification[ RoaringTreemap::contains ](
    bitmap: &RoaringTreemap,
    value: u64,
) -> (present: bool)
    ensures
        present == bitmap_ids(*bitmap).contains(value),
;

/// `RoaringTreemap::is_empty` tells whether the set has no value.
pub assume_specification[ RoaringTreemap::is_empty ](bitmap: &RoaringTreemap) -> (empty: bool)
    ensures
        empty == (bitmap_ids(*bitmap) == Set::<u64>::empty()),
;

/// `RoaringTreemap::len` counts the values. The sum overflows for the set of
/// all `u64` values alone, which the precondition leaves out.
pub assume_specification[ RoaringTreemap::len ](bitmap: &RoaringTreemap) -> (count: u64)
    requires
        bitmap_ids(*bitmap).len() <= u64::MAX,
    ensures
        count == bitmap_ids(*bitmap).len(),
;

/// Every element is smaller than those behind it.
pub open spec fn is_ascending(ids: Seq<u64>) -> bool {
    forall|i: int, j: int| #![trigger ids[i], ids[j]] 0 <= i < j < ids.len() ==> ids[i] < ids[j]
}

/// `RoaringTreemap::iter` yields every value once, in ascending order.
#[verifier::external_body]
pub(crate) fn bitmap_values(bitmap: &RoaringTreemap) -> (ids: Vec<u64>)
    ensures
        is_ascending(ids@),
        forall|id: u64| #![trigger ids@.contains(id)] ids@.contains(id) <==> bitmap_ids(*bitmap).contains(id),
{
    bitmap.iter().collect()
}

/// `&=` on bitmaps keeps the values that the other set holds too.
#[verifier::external_body]
pub(crate) fn bitmap_retain(bitmap: &mut RoaringTreemap, other: &RoaringTreemap)
    ensures
        bitmap_ids(*final(bitmap)) == bitmap_ids(*old(bitmap)).intersect(bitmap_ids(*other)),
{
    *bitmap &= other;
}

/// `|=` on bitmaps adds the values of the other set.
#[verifier::external_body]
pub(crate) fn bitmap_extend(bitmap: &mut RoaringTreemap, other: &RoaringTreemap)
    ensures
        bitmap_ids(*final(bitmap)) == bitmap_ids(*old(bitmap)).union(bitmap_ids(*other)),
{
    *bitmap |= other;
}

/// `RoaringTreemap::serialize_into` writes bytes that
/// `RoaringTreemap::deserialize_from` reads back to the same values. Which of
/// the equivalent encodings of a set is written is left open.
#[verifier::external_body]
pub(crate) fn bitmap_serialize(bitmap: &RoaringTreemap) -> (bytes: Vec<u8>)
    ensures
        serialized_ids(bytes@) == Some(bitmap_ids(*bitmap)),
{
    let mut bytes = Vec::with_capacity(bitmap.serialized_size());
    bitmap.serialize_into(&mut bytes).expect("writing to memory does not fail");
    bytes
}

/// `RoaringTreemap::deserialize_from` reads a bitmap, or reports in words why
/// the bytes are not one; both depend on the bytes alone.
#[verifier::external_body]
pub(crate) fn bitmap_deserialize(bytes: &[u8]) -> (read: Result<RoaringTreemap, String>)
    ensures
        match read {
            Ok(bitmap) => deserialized(bytes@) matches Ok(ids) && ids == bitmap_ids(bitmap),
            Err(cause) => deserialized(bytes@) matches Err(text) && text == cause@,
        },
{
    RoaringTreemap::deserialize_from(bytes).map_err(|error| error.to_string())
}

/// Every set of identifiers is finite.
pub proof fn lemma_ids_finite(ids: Set<u64>)
    ensures
        ids.finite(),
{
    broadcast use vstd::set_lib::full_set_properties;

    vstd::set_lib::lemma_set_subset_finite(Set::<u64>::full(), ids);
}

/// Two ascending sequences with the same elements are the same.
pub proof fn lemma_ascending_unique(a: Seq<u64>, b: Seq<u64>)
    requires
        is_ascending(a),
        is_ascending(b),
        forall|id: u64| a.contains(id) <==> b.contains(id),
    ensures
        a == b,
    decreases a.len(),
{
    if a.len() == 0 {
        if b.len() > 0 {
            assert(b.contains(b[0]));
            assert(a.contains(b[0]));
        }
        assert(a =~= b);
    } else {
        assert(a.contains(a.last()));
        assert(b.contains(a.last()));
        let i = choose|i: int| 0 <= i < b.len() && b[i] == a.last();
        assert(b.contains(b.last()));
        assert(a.contains(b.last()));
        let j = choose|j: int| 0 <= j < a.len() && a[j] == b.last();
        assert(a.last() == b.last()) by {
            if i < b.len() - 1 {
                assert(b[i] < b[b.len() - 1]);
            }
            if j < a.len() - 1 {
                assert(a[j] < a[a.len() - 1]);
            }
        }
        let a1 = a.drop_last();
        let b1 = b.drop_last();
        assert(is_ascending(a1)) by {
            assert forall|x: int, y: int|
                #![trigger a1[x], a1[y]]
                0 <= x < y < a1.len() implies a1[x] < a1[y] by {
                assert(a[x] < a[y]);
            }
        }
        assert(is_ascending(b1)) by {
            assert forall|x: int, y: int|
                #![trigger b1[x], b1[y]]
                0 <= x < y < b1.len() implies b1[x] < b1[y] by {
                assert(b[x] < b[y]);
            }
        }
        assert forall|id: u64| a1.contains(id) <==> b1.contains(id) by {
            if a1.contains(id) {
                let k = choose|k: int| 0 <= k < a1.len() && a1[k] == id;
                assert(a[k] < a[a.len() - 1]);
                assert(a.contains(id));
                let m = choose|m: int| 0 <= m < b.len() && b[m] == id;
                assert(b1[m] == id);
            }
            if b1.contains(id) {
                let k = choose|k: int| 0 <= k < b1.len() && b1[k] == id;
                assert(b[k] < b[b.len() - 1]);
                assert(b.contains(id));
                let m = choose|m: int| 0 <= m < a.len() && a[m] == id;
                assert(a1[m] == id);
            }
        }
        lemma_ascending_unique(a1, b1);
        assert(a =~= a1.push(a.last()));
        assert(b =~= b1.push(b.last()));
    }
}

/// `ids` lists exactly the elements of `set`, in ascending order.
pub open spec fn lists_ids(ids: Seq<u64>, set: Set<u64>) -> bool {
    &&& is_ascending(ids)
    &&& forall|id: u64| #![trigger ids.contains(id)] ids.contains(id) <==> set.contains(id)
}

/// Encodes a bitmap as the value of a bitmap index row.
pub fn encode_roaring_treemap(bitmap: &RoaringTreemap) -> (bytes: Vec<u8>)
    ensures
        serialized_ids(bytes@) == Some(bitmap_ids(*bitmap)),
{
    bitmap_serialize(bitmap)
}

/// The error that reports bytes which are no bitmap.
pub open spec fn bitmap_fault(bytes: Seq<u8>) -> HelixDbErrorView {
    HelixDbErrorView::Decode("Failed to decode RoaringTreemap: "@ + rejection(bytes))
}

/// Decodes the value of a bitmap index row.
pub fn decode_roaring_treemap(data: &[u8]) -> (decoded: Result<RoaringTreemap, HelixDbError>)
    ensures
        match decoded {
            Ok(bitmap) => serialized_ids(data@) == Some(bitmap_ids(bitmap)),
            Err(error) => serialized_ids(data@) is None && error@ == bitmap_fault(data@),
        },
{
    match bitmap_deserialize(data) {
        Ok(bitmap) => Ok(bitmap),
        Err(cause) => {
            let text = "Failed to decode RoaringTreemap: ".to_owned().concat(cause.as_str());
            Err(HelixDbError::Decode(text))
        },
    }
}

/// The text that reports bytes which are no bitmap, in evidence.
pub open spec fn parity_bitmap_fault(bytes: Seq<u8>) -> Seq<char> {
    "failed to decode parity bitmap: "@ + rejection(bytes)
}

/// Decodes one bitmap row into its exact membership, in ascending order.
pub fn decode_parity_bitmap(bytes: &[u8]) -> (decoded: Result<Vec<u64>, HelixDbError>)
    ensures
        match decoded {
            Ok(ids) => serialized_ids(bytes@) matches Some(set) && lists_ids(ids@, set),
            Err(error) => serialized_ids(bytes@) is None && error@ == HelixDbErrorView::Config(
                parity_bitmap_fault(bytes@),
            ),
        },
{
    match bitmap_deserialize(bytes) {
        Ok(bitmap) => Ok(bitmap_values(&bitmap)),
        Err(cause) => {
            let text = "failed to decode parity bitmap: ".to_owned().concat(cause.as_str());
            Err(HelixDbError::Config(text))
        },
    }
}

/// What was encoded decodes to the same identifiers, in whatever bytes.
pub proof fn law_bitmap_round_trip(written: RoaringTreemap, bytes: Seq<u8>, read: RoaringTreemap)
    requires
        serialized_ids(bytes) == Some(bitmap_ids(written)),
        serialized_ids(bytes) == Some(bitmap_ids(read)),
    ensures
        bitmap_ids(read) == bitmap_ids(written),
{
}

/// What was encoded decodes to the same identifiers, and is listed in ascending
/// order, each once; decoding fails for exactly the bytes that the listing fails
/// for.
pub proof fn law_bitmaps_read_back(
    written: RoaringTreemap,
    bytes: Vec<u8>,
    data: &[u8],
    decoded: Result<RoaringTreemap, HelixDbError>,
    listed: Result<Vec<u64>, HelixDbError>,
)
    requires
        call_ensures(encode_roaring_treemap, (&written,), bytes),
        call_ensures(decode_roaring_treemap, (data,), decoded),
        call_ensures(decode_parity_bitmap, (data,), listed),
    ensures
        decoded is Ok <==> listed is Ok,
        data@ == bytes@ ==> decoded is Ok && bitmap_ids(decoded->Ok_0) == bitmap_ids(written),
        listed matches Ok(ids) ==> {
            &&& ids@.to_set() == bitmap_ids(decoded->Ok_0)
            &&& forall|i: int, j: int|
                0 <= i < j < ids@.len() ==> (#[trigger] ids@[i]) < (#[trigger] ids@[j])
        },
        decoded is Err ==> decoded->Err_0@ is Decode && listed->Err_0@ is Config,
{
    if let Ok(ids) = listed {
        let set = bitmap_ids(decoded->Ok_0);
        assert forall|id: u64| #[trigger] ids@.to_set().contains(id) <==> set.contains(id) by {
            assert(ids@.contains(id) <==> set.contains(id));
        }
        assert(ids@.to_set() =~= set);
    }
}

} // verus!
