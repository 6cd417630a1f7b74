//! Identity of one immutable text split and the names of its files.

use vstd::prelude::*;
use vstd::utf8::encode_utf8;

use crate::digest::{hex_digest, sha256_of};
use crate::order::{
    bytes_precede, lemma_bytes_order, lemma_rank_seq_antisymmetric, lemma_rank_seq_reflexive, lemma_rank_seq_transitive, Rank,
    rank_int, rank_seq, rank_slices, rank_u64, Ranked, same_bytes,
};
use crate::render::{digit_char, hex_of_bytes, hex_string};

verus! {

/// A content-addressed blob.
#[derive(Debug, Clone, Copy, PartialEq, Eq)]
pub struct TextBlobRef {
    pub sha256: [u8; 32],
    pub size_bytes: u64,
}

/// A text split inside its blob.
#[derive(Debug, Clone, Copy, PartialEq, Eq)]
pub struct TextSplitRef {
    pub blob: TextBlobRef,
    pub footer_offset: u64,
    pub footer_len: u32,
    pub hotcache_len: u32,
    pub total_size_bytes: u64,
}

/// Exact immutable identity for one text split.
#[derive(Debug, Clone, Copy, PartialEq, Eq, PartialOrd, Ord, Hash)]
pub struct TextSplitCacheKey {
    pub sha256: [u8; 32],
    pub blob_size: u64,
    pub footer_offset: u64,
    pub footer_len: u32,
    pub hotcache_len: u32,
    pub total_size: u64,
}

/// The identity of a split.
pub open spec fn key_of(split: TextSplitRef) -> TextSplitCacheKey {
    TextSplitCacheKey {
        sha256: split.blob.sha256,
        blob_size: split.blob.size_bytes,
        footer_offset: split.footer_offset,
        footer_len: split.footer_len,
        hotcache_len: split.hotcache_len,
        total_size: split.total_size_bytes,
    }
}

impl From<&TextSplitRef> for TextSplitCacheKey {
    fn from(split: &TextSplitRef) -> (key: Self) {
        TextSplitCacheKey {
            sha256: split.blob.sha256,
            blob_size: split.blob.size_bytes,
            footer_offset: split.footer_offset,
            footer_len: split.footer_len,
            hotcache_len: split.hotcache_len,
            total_size: split.total_size_bytes,
        }
    }
}

impl vstd::std_specs::convert::FromSpecImpl<&TextSplitRef> for TextSplitCacheKey {
    open spec fn obeys_from_spec() -> bool {
        true
    }

    open spec fn from_spec(split: &TextSplitRef) -> Self {
        key_of(*split)
    }
}

/// Splits share an identity exactly if blob, layout and lengths agree.
pub proof fn law_key_identifies_split(a: TextSplitRef, b: TextSplitRef)
    ensures
        key_of(a) == key_of(b) <==> a == b,
{
}

/// Whether two digests are the same.
pub fn same_digest(a: &[u8; 32], b: &[u8; 32]) -> (same: bool)
    ensures
        same == (*a == *b),
{
    let same = same_bytes(a.as_slice(), b.as_slice());
    proof {
        if same {
            assert forall|i: int| 0 <= i < 32 implies a[i] == b[i] by {
                assert(a@[i] == b@[i]);
            }
            assert(*a =~= *b);
        }
    }
    same
}

impl TextSplitCacheKey {
    /// Whether both identify the same split.
    pub fn same(&self, other: &TextSplitCacheKey) -> (same: bool)
        ensures
            same == (*self == *other),
    {
        same_digest(&self.sha256, &other.sha256) && self.blob_size == other.blob_size
            && self.footer_offset == other.footer_offset && self.footer_len == other.footer_len
            && self.hotcache_len == other.hotcache_len && self.total_size == other.total_size
    }
}

impl Ranked for TextSplitCacheKey {
    open spec fn ranked(&self, other: &Self) -> Rank {
        rank_seq(self.sha256@, other.sha256@).refined(
            rank_int(self.blob_size as int, other.blob_size as int),
        ).refined(rank_int(self.footer_offset as int, other.footer_offset as int)).refined(
            rank_int(self.footer_len as int, other.footer_len as int),
        ).refined(rank_int(self.hotcache_len as int, other.hotcache_len as int)).refined(
            rank_int(self.total_size as int, other.total_size as int),
        )
    }

    proof fn rank_reflexive(a: &Self) {
        lemma_rank_seq_reflexive(a.sha256@);
    }

    proof fn rank_antisymmetric(a: &Self, b: &Self) {
        lemma_rank_seq_antisymmetric(a.sha256@, b.sha256@);
    }

    proof fn rank_transitive(a: &Self, b: &Self, c: &Self) {
        lemma_rank_seq_transitive(a.sha256@, b.sha256@, c.sha256@);
    }

    fn rank(&self, other: &Self) -> (rank: Rank) {
        let by_digest = rank_slices(self.sha256.as_slice(), other.sha256.as_slice());
        if by_digest != Rank::Equal {
            return by_digest;
        }
        let by_size = rank_u64(self.blob_size, other.blob_size);
        if by_size != Rank::Equal {
            return by_size;
        }
        let by_offset = rank_u64(self.footer_offset, other.footer_offset);
        if by_offset != Rank::Equal {
            return by_offset;
        }
        let by_footer = rank_u64(self.footer_len as u64, other.footer_len as u64);
        if by_footer != Rank::Equal {
            return by_footer;
        }
        let by_hotcache = rank_u64(self.hotcache_len as u64, other.hotcache_len as u64);
        if by_hotcache != Rank::Equal {
            return by_hotcache;
        }
        rank_u64(self.total_size, other.total_size)
    }
}

/// Directory of the split cache below the configured root.
pub const CACHE_DIR: &'static str = "fts-split-cache-v2";

/// Directory of complete artifacts.
pub const BLOBS_DIR: &'static str = "blobs";

/// Directory of access metadata.
pub const METADATA_DIR: &'static str = "metadata";

/// Directory of artifacts under construction.
pub const STAGING_DIR: &'static str = "staging";

/// A path with one more component; a root that ends with a separator gets no
/// second one.
pub open spec fn joined_path(root: Seq<char>, part: Seq<char>) -> Seq<char> {
    if root.len() > 0 && root.last() == '/' {
        root + part
    } else {
        root + "/"@ + part
    }
}

/// The name under which a database keeps its artifacts: the digest of its path.
pub open spec fn cache_namespace(db_path: Seq<char>) -> Seq<char> {
    hex_of_bytes(sha256_of(encode_utf8(db_path)))
}

/// The namespaced root of the disk cache: the configured root, the cache
/// directory and the namespace of the database.
pub open spec fn namespaced_root(root: Seq<char>, db_path: Seq<char>) -> Seq<char> {
    joined_path(joined_path(root, CACHE_DIR@), cache_namespace(db_path))
}

fn join_path(root: &str, part: &str) -> (path: String)
    ensures
        path@ == joined_path(root@, part@),
{
    let mut path = root.to_owned();
    let len = root.unicode_len();
    if !(len > 0 && root.get_char(len - 1) == '/') {
        path.append("/");
    }
    path.append(part);
    path
}

/// The namespaced root of the disk cache of a database.
pub fn namespace_root(root: &str, db_path: &str) -> (path: String)
    ensures
        path@ == namespaced_root(root@, db_path@),
{
    let cache = join_path(root, CACHE_DIR);
    let namespace = hex_digest(db_path.as_bytes());
    join_path(cache.as_str(), namespace.as_str())
}

/// The digest as sixty-four lower-case hexadecimal digits.
pub fn sha_hex(sha256: [u8; 32]) -> (text: String)
    ensures
        text@ == hex_of_bytes(sha256@),
{
    hex_string(sha256.as_slice())
}

/// The file name of a complete artifact.
pub fn artifact_file_name(sha256: [u8; 32]) -> (name: String)
    ensures
        name@ == hex_of_bytes(sha256@) + ".split"@,
{
    let mut name = sha_hex(sha256);
    name.append(".split");
    name
}

/// The file name of an artifact's access metadata.
pub fn metadata_file_name(sha256: [u8; 32]) -> (name: String)
    ensures
        name@ == hex_of_bytes(sha256@) + ".json"@,
{
    let mut name = sha_hex(sha256);
    name.append(".json");
    name
}

/// The file name of an artifact under construction; `unique` tells attempts
/// apart.
pub fn staging_file_name(sha256: [u8; 32], unique: &str) -> (name: String)
    ensures
        name@ == hex_of_bytes(sha256@) + "."@ + unique@ + ".tmp"@,
{
    let mut name = sha_hex(sha256);
    name.append(".");
    name.append(unique);
    name.append(".tmp");
    name
}

/// The value of an ASCII hexadecimal digit, in either case.
pub open spec fn hex_value(byte: u8) -> Option<u8> {
    if 0x30 <= byte <= 0x39 {
        Some((byte - 0x30) as u8)
    } else if 0x41 <= byte <= 0x46 {
        Some((byte - 0x37) as u8)
    } else if 0x61 <= byte <= 0x66 {
        Some((byte - 0x57) as u8)
    } else {
        None
    }
}

/// The value of a pair of hexadecimal digits. As everywhere in integer
/// parsing, a plus sign may stand in front of the last digit.
pub open spec fn hex_pair_value(first: u8, second: u8) -> Option<u8> {
    match (hex_value(first), hex_value(second)) {
        (Some(high), Some(low)) => Some((16 * high + low) as u8),
        (None, Some(low)) => if first == 0x2b {
            Some(low)
        } else {
            None
        },
        _ => None,
    }
}

/// The bytes that pairs of hexadecimal digits spell.
pub open spec fn hex_pairs_value(bytes: Seq<u8>, count: nat) -> Option<Seq<u8>>
    decreases count,
{
    if count == 0 {
        Some(Seq::empty())
    } else {
        match (
            hex_pairs_value(bytes, (count - 1) as nat),
            hex_pair_value(bytes[2 * count - 2], bytes[2 * count - 1]),
        ) {
            (Some(front), Some(byte)) => Some(front.push(byte)),
            _ => None,
        }
    }
}

/// The digest that a file stem spells, if it is sixty-four bytes long and made
/// of pairs of hexadecimal digits.
pub open spec fn parsed_sha(text: Seq<char>) -> Option<Seq<u8>> {
    let bytes = encode_utf8(text);
    if bytes.len() != 64 {
        None
    } else {
        hex_pairs_value(bytes, 32)
    }
}

fn hex_digit_value(byte: u8) -> (value: Option<u8>)
    ensures
        value == hex_value(byte),
{
    if 0x30 <= byte && byte <= 0x39 {
        Some(byte - 0x30)
    } else if 0x41 <= byte && byte <= 0x46 {
        Some(byte - 0x37)
    } else if 0x61 <= byte && byte <= 0x66 {
        Some(byte - 0x57)
    } else {
        None
    }
}

fn parse_hex_pair(first: u8, second: u8) -> (value: Option<u8>)
    ensures
        value == hex_pair_value(first, second),
{
    match (hex_digit_value(first), hex_digit_value(second)) {
        (Some(high), Some(low)) => Some(16 * high + low),
        (None, Some(low)) => if first == 0x2b {
            Some(low)
        } else {
            None
        },
        _ => None,
    }
}

/// Once a pair fails, so does everything behind it.
proof fn lemma_pairs_fail(bytes: Seq<u8>, count: nat, more: nat)
    requires
        hex_pairs_value(bytes, count) is None,
        count <= more,
    ensures
        hex_pairs_value(bytes, more) is None,
    decreases more,
{
    if count < more {
        lemma_pairs_fail(bytes, count, (more - 1) as nat);
    }
}

/// The digest that a file stem spells.
pub fn parse_sha(value: &str) -> (parsed: Option<[u8; 32]>)
    ensures
        match parsed {
            Some(sha256) => parsed_sha(value@) == Some(sha256@),
            None => parsed_sha(value@) is None,
        },
{
    let bytes = value.as_bytes();
    if bytes.len() != 64 {
        return None;
    }
    let mut sha256 = [0u8;32];
    let mut i: usize = 0;
    assert(sha256@.take(0) =~= Seq::<u8>::empty());
    while i < 32
        invariant
            i <= 32,
            bytes@ == encode_utf8(value@),
            bytes@.len() == 64,
            hex_pairs_value(bytes@, i as nat) == Some(sha256@.take(i as int)),
        decreases 32 - i,
    {
        match parse_hex_pair(bytes[2 * i], bytes[2 * i + 1]) {
            Some(byte) => {
                let ghost before = sha256@;
                sha256[i] = byte;
                assert(sha256@.take(i as int + 1) =~= before.take(i as int).push(byte));
            },
            None => {
                proof {
                    lemma_pairs_fail(bytes@, (i + 1) as nat, 32);
                }
                return None;
            },
        }
        i = i + 1;
    }
    assert(sha256@.take(32) =~= sha256@);
    Some(sha256)
}

/// A digit of a byte spells its half of the byte.
proof fn lemma_digit_value(value: int)
    requires
        0 <= value < 16,
    ensures
        (digit_char(value) as u32) < 128,
        hex_value(digit_char(value) as u8) == Some(value as u8),
{
}

proof fn lemma_hex_pairs(bytes: Seq<u8>, text: Seq<u8>, count: nat)
    requires
        text.len() == 2 * bytes.len(),
        count <= bytes.len(),
        forall|i: int|
            0 <= i < text.len() ==> #[trigger] text[i] == hex_of_bytes(bytes)[i] as u8,
    ensures
        hex_pairs_value(text, count) == Some(bytes.take(count as int)),
    decreases count,
{
    if count > 0 {
        lemma_hex_pairs(bytes, text, (count - 1) as nat);
        let at = count - 1;
        assert((2 * at) / 2 == at && (2 * at + 1) / 2 == at && (2 * at) % 2 == 0 && (2 * at + 1) % 2
            == 1);
        assert(text[2 * at] == hex_of_bytes(bytes)[2 * at] as u8);
        assert(text[2 * at + 1] == hex_of_bytes(bytes)[2 * at + 1] as u8);
        lemma_digit_value(bytes[at] as int / 16);
        lemma_digit_value(bytes[at] as int % 16);
        assert(bytes.take(count as int) =~= bytes.take(at).push(bytes[at]));
    } else {
        assert(bytes.take(0) =~= Seq::<u8>::empty());
    }
}

/// A digest's file stem spells that digest.
pub proof fn law_sha_hex_round_trip(sha256: Seq<u8>)
    requires
        sha256.len() == 32,
    ensures
        parsed_sha(hex_of_bytes(sha256)) == Some(sha256),
{
    let text = hex_of_bytes(sha256);
    assert forall|i: int| 0 <= i < text.len() implies (#[trigger] text[i] as u32) < 128 by {
        lemma_digit_value(sha256[i / 2] as int / 16);
        lemma_digit_value(sha256[i / 2] as int % 16);
    }
    assert(vstd::utf8::is_ascii_chars(text)) by {
        assert forall|i: int| 0 <= i < text.len() implies '\0' <= #[trigger] text[i] <= '\u{7f}' by {
            assert((text[i] as u32) < 128);
        }
    }
    vstd::utf8::is_ascii_chars_encode_utf8(text);
    let bytes = encode_utf8(text);
    lemma_hex_pairs(sha256, bytes, 32);
    assert(sha256.take(32) =~= sha256);
}

/// A key holds what the reference of its split says, each in its own field.
pub proof fn law_keys_hold_their_split(split: TextSplitRef, key: TextSplitCacheKey)
    requires
        call_ensures(TextSplitCacheKey::from, (&split,), key),
    ensures
        key.sha256 == split.blob.sha256,
        key.blob_size == split.blob.size_bytes,
        key.footer_offset == split.footer_offset,
        key.footer_len == split.footer_len,
        key.hotcache_len == split.hotcache_len,
        key.total_size == split.total_size_bytes,
{
}

/// Keys are the same if and only if all that they hold is.
pub proof fn law_keys_are_the_same_in_everything(
    a: TextSplitCacheKey,
    b: TextSplitCacheKey,
    same: bool,
)
    requires
        call_ensures(TextSplitCacheKey::same, (&a, &b), same),
    ensures
        same <==> {
            &&& a.sha256@ == b.sha256@
            &&& a.blob_size == b.blob_size
            &&& a.footer_offset == b.footer_offset
            &&& a.footer_len == b.footer_len
            &&& a.hotcache_len == b.hotcache_len
            &&& a.total_size == b.total_size
        },
{
    if a.sha256@ == b.sha256@ {
        assert forall|i: int| 0 <= i < 32 implies a.sha256[i] == b.sha256[i] by {
            assert(a.sha256@[i] == b.sha256@[i]);
        }
        assert(a.sha256 =~= b.sha256);
    }
}

/// Keys are ordered by their digest first, and then by their sizes in the order
/// of the fields.
pub proof fn law_keys_are_ordered_by_digest(
    a: TextSplitCacheKey,
    b: TextSplitCacheKey,
    rank: Rank,
)
    requires
        call_ensures(TextSplitCacheKey::rank, (&a, &b), rank),
    ensures
        bytes_precede(a.sha256@, b.sha256@) ==> rank == Rank::Less,
        bytes_precede(b.sha256@, a.sha256@) ==> rank == Rank::Greater,
        a.sha256@ == b.sha256@ ==> {
            &&& a.blob_size < b.blob_size ==> rank == Rank::Less
            &&& a.blob_size == b.blob_size && a.footer_offset < b.footer_offset ==> rank
                == Rank::Less
            &&& a.blob_size == b.blob_size && a.footer_offset == b.footer_offset && a.footer_len
                < b.footer_len ==> rank == Rank::Less
            &&& a.blob_size == b.blob_size && a.footer_offset == b.footer_offset && a.footer_len
                == b.footer_len && a.hotcache_len < b.hotcache_len ==> rank == Rank::Less
            &&& a.blob_size == b.blob_size && a.footer_offset == b.footer_offset && a.footer_len
                == b.footer_len && a.hotcache_len == b.hotcache_len && a.total_size
                < b.total_size ==> rank == Rank::Less
            &&& rank == Rank::Equal <==> a.blob_size == b.blob_size && a.footer_offset
                == b.footer_offset && a.footer_len == b.footer_len && a.hotcache_len
                == b.hotcache_len && a.total_size == b.total_size
        },
{
    lemma_bytes_order(a.sha256@, b.sha256@);
}

/// A database's artifacts stand below the configured root, in the cache directory,
/// in a directory named by the digest of the database's path.
pub proof fn law_roots_are_namespaced(root: &str, db_path: &str, path: String)
    requires
        call_ensures(namespace_root, (root, db_path), path),
    ensures
        root@.len() > 0 && root@.last() == '/' ==> path@ == root@ + "fts-split-cache-v2/"@
            + hex_of_bytes(sha256_of(encode_utf8(db_path@))),
        !(root@.len() > 0 && root@.last() == '/') ==> path@ == root@ + "/fts-split-cache-v2/"@
            + hex_of_bytes(sha256_of(encode_utf8(db_path@))),
{
    reveal_strlit("fts-split-cache-v2");
    reveal_strlit("fts-split-cache-v2/");
    reveal_strlit("/fts-split-cache-v2/");
    reveal_strlit("/");
    let digits = hex_of_bytes(sha256_of(encode_utf8(db_path@)));
    let cache = joined_path(root@, CACHE_DIR@);
    assert(cache.last() == '2');
    assert(path@ == cache + "/"@ + digits);
    if root@.len() > 0 && root@.last() == '/' {
        assert(path@ =~= root@ + "fts-split-cache-v2/"@ + digits);
    } else {
        assert(path@ =~= root@ + "/fts-split-cache-v2/"@ + digits);
    }
}

/// Every file of an artifact is named by the digits of its digest, which read back
/// to that digest, with the ending of its kind.
pub proof fn law_files_are_named_by_digest(
    sha256: [u8; 32],
    unique: &str,
    stem: String,
    artifact: String,
    metadata: String,
    staging: String,
    text: &str,
    parsed: Option<[u8; 32]>,
)
    requires
        call_ensures(sha_hex, (sha256,), stem),
        call_ensures(artifact_file_name, (sha256,), artifact),
        call_ensures(metadata_file_name, (sha256,), metadata),
        call_ensures(staging_file_name, (sha256, unique), staging),
        text@ == stem@,
        call_ensures(parse_sha, (text,), parsed),
    ensures
        stem@.len() == 64,
        parsed is Some && parsed->Some_0@ == sha256@,
        artifact@ == stem@ + ".split"@,
        metadata@ == stem@ + ".json"@,
        staging@ == stem@ + ("."@ + unique@ + ".tmp"@),
{
    law_sha_hex_round_trip(sha256@);
    assert(staging@ =~= stem@ + ("."@ + unique@ + ".tmp"@));
}

/// What an ASCII hexadecimal digit is worth, in either case; nothing else is worth
/// anything.
pub open spec fn digit_worth(byte: u8) -> Option<int> {
    if '0' as int <= byte <= '9' as int {
        Some(byte - '0' as int)
    } else if 'a' as int <= byte <= 'f' as int {
        Some(byte - 'a' as int + 10)
    } else if 'A' as int <= byte <= 'F' as int {
        Some(byte - 'A' as int + 10)
    } else {
        None
    }
}

/// What a pair is worth: two digits, or a plus sign and one.
pub open spec fn pair_worth(first: u8, second: u8) -> Option<int> {
    if digit_worth(second) is None {
        None
    } else if digit_worth(first) is Some {
        Some(16 * digit_worth(first)->Some_0 + digit_worth(second)->Some_0)
    } else if first == '+' as int {
        digit_worth(second)
    } else {
        None
    }
}

proof fn lemma_pairs_value(bytes: Seq<u8>, count: nat)
    requires
        2 * count <= bytes.len(),
    ensures
        hex_pairs_value(bytes, count) is Some <==> forall|i: int|
            0 <= i < count ==> pair_worth(#[trigger] bytes[2 * i], bytes[2 * i + 1]) is Some,
        hex_pairs_value(bytes, count) is Some ==> hex_pairs_value(bytes, count)->Some_0.len()
            == count && forall|i: int|
            0 <= i < count ==> #[trigger] hex_pairs_value(bytes, count)->Some_0[i] == pair_worth(
                bytes[2 * i],
                bytes[2 * i + 1],
            )->Some_0,
    decreases count,
{
    if count > 0 {
        let last = count - 1;
        lemma_pairs_value(bytes, last as nat);
        assert(bytes[2 * last] == bytes[2 * count - 2]);
        assert(hex_pair_value(bytes[2 * last], bytes[2 * last + 1]) is Some <==> pair_worth(
            bytes[2 * last],
            bytes[2 * last + 1],
        ) is Some);
        if hex_pairs_value(bytes, count) is Some {
            assert forall|i: int| 0 <= i < count implies pair_worth(
                #[trigger] bytes[2 * i],
                bytes[2 * i + 1],
            ) is Some by {
                if i < last {
                }
            }
        }
    }
}

/// A stem is read if and only if it is sixty-four bytes long and made of pairs of
/// digits; each pair is a byte of the digest, in their order.
pub proof fn law_stems_are_read_in_pairs(text: &str, parsed: Option<[u8; 32]>)
    requires
        call_ensures(parse_sha, (text,), parsed),
    ensures
        ({
            let bytes = encode_utf8(text@);
            &&& parsed is Some <==> bytes.len() == 64 && forall|i: int|
                0 <= i < 32 ==> pair_worth(#[trigger] bytes[2 * i], bytes[2 * i + 1]) is Some
            &&& parsed is Some ==> forall|i: int|
                0 <= i < 32 ==> #[trigger] parsed->Some_0@[i] == pair_worth(
                    bytes[2 * i],
                    bytes[2 * i + 1],
                )->Some_0
        }),
{
    let bytes = encode_utf8(text@);
    if bytes.len() == 64 {
        lemma_pairs_value(bytes, 32);
    }
}

} // verus!
