//! Directory listings and their wire format.
//!
//! A listing travels from the helper to the supervisor as one block of
//! bytes: the number of entries as a little-endian `u64`, then for each entry
//! the byte length of its name as a little-endian `u64`, the name in UTF-8 and
//! one byte that is `1` for a directory and `0` for anything else.

use vstd::prelude::*;
use vstd::bytes::{spec_u64_from_le_bytes, spec_u64_to_le_bytes, lemma_auto_spec_u64_to_from_le_bytes};
use vstd::string::{StringExecFns, StringSliceAdditionalSpecFns};
use vstd::utf8::{decode_utf8, encode_utf8, encode_utf8_decode_utf8};
use crate::code::ReturnCode;
use crate::error::SimuError;

verus! {

/// One entry of a directory. The name of an entry that is itself a directory
/// ends in `/`, so that it serves as a link to its listing.
#[derive(Debug, Clone, PartialEq, Eq)]
pub struct DirectoryEntry {
    name: String,
    is_dir: bool,
}

/// The entries of a directory, in the order the system gave them.
#[derive(Debug, Clone, PartialEq, Eq)]
pub struct Directory(pub Vec<DirectoryEntry>);

/// An entry as plain values: its name and whether it is a directory.
pub type EntryView = (Seq<char>, bool);

impl View for DirectoryEntry {
    type V = EntryView;

    closed spec fn view(&self) -> EntryView {
        (self.name@, self.is_dir)
    }
}

impl View for Directory {
    type V = Seq<EntryView>;

    open spec fn view(&self) -> Seq<EntryView> {
        Seq::new(self.0@.len(), |i: int| self.0@[i]@)
    }
}

/// The name an entry gets: the file name, with `/` behind it for a
/// directory.
pub open spec fn entry_name(file_name: Seq<char>, is_dir: bool) -> Seq<char> {
    if is_dir {
        file_name + seq!['/']
    } else {
        file_name
    }
}

/// The bytes of one entry.
pub open spec fn entry_bytes(entry: EntryView) -> Seq<u8> {
    let name = encode_utf8(entry.0);
    spec_u64_to_le_bytes(name.len() as u64) + name + seq![
        if entry.1 {
            1u8
        } else {
            0u8
        },
    ]
}

/// The bytes of the entries of a listing, one after the other.
pub open spec fn entries_bytes(list: Seq<EntryView>) -> Seq<u8>
    decreases list.len(),
{
    if list.len() == 0 {
        Seq::empty()
    } else {
        entry_bytes(list[0]) + entries_bytes(list.skip(1))
    }
}

/// The bytes of a listing.
pub open spec fn listing_bytes(list: Seq<EntryView>) -> Seq<u8> {
    spec_u64_to_le_bytes(list.len() as u64) + entries_bytes(list)
}

/// The lengths of a listing can be written as `u64`: the number of its
/// entries and the byte length of each name.
pub open spec fn fits(list: Seq<EntryView>) -> bool {
    &&& list.len() <= u64::MAX
    &&& forall|i: int| 0 <= i < list.len() ==> encode_utf8(#[trigger] list[i].0).len() <= u64::MAX
}

/// `bytes` begins with the bytes of the listing `list`.
pub open spec fn begins_with(bytes: Seq<u8>, list: Seq<EntryView>) -> bool {
    fits(list) && listing_bytes(list).is_prefix_of(bytes)
}

/// The listing that `bytes` begins with, if there is one. What follows the
/// listing is not looked at.
pub open spec fn decoded(bytes: Seq<u8>) -> Option<Seq<EntryView>> {
    if exists|list: Seq<EntryView>| begins_with(bytes, list) {
        Some(choose|list: Seq<EntryView>| begins_with(bytes, list))
    } else {
        None
    }
}

/// The plain values of a list of pairs.
pub open spec fn pairs_view(pairs: Seq<(String, bool)>) -> Seq<EntryView> {
    Seq::new(pairs.len(), |i: int| (pairs[i].0@, pairs[i].1))
}

/// The first error among `chunks`, if there is one.
pub open spec fn first_error(chunks: Seq<Result<Vec<u8>, SimuError>>) -> Option<SimuError>
    decreases chunks.len(),
{
    if chunks.len() == 0 {
        None
    } else {
        match chunks[0] {
            Err(e) => Some(e),
            Ok(_) => first_error(chunks.skip(1)),
        }
    }
}

/// The bytes of `chunks`, one chunk after the other.
pub open spec fn joined(chunks: Seq<Result<Vec<u8>, SimuError>>) -> Seq<u8>
    decreases chunks.len(),
{
    if chunks.len() == 0 {
        Seq::empty()
    } else {
        joined(chunks.drop_last()) + match chunks.last() {
            Ok(bytes) => bytes@,
            Err(_) => Seq::empty(),
        }
    }
}

impl DirectoryEntry {
    /// The entry for a file name as the system reports it. The name of a
    /// directory gets a `/` behind it.
    pub fn new(file_name: String, is_dir: bool) -> (entry: DirectoryEntry)
        ensures
            entry@ == (entry_name(file_name@, is_dir), is_dir),
    {
        let mut name = file_name;
        if is_dir {
            proof {
                reveal_strlit("/");
            }
            name.append("/");
            assert(name@ =~= file_name@ + seq!['/']);
        }
        DirectoryEntry { name, is_dir }
    }

    /// The name, with its `/` where the entry is a directory.
    pub fn name(&self) -> (name: &str)
        ensures
            name@ == self@.0,
    {
        self.name.as_str()
    }

    /// Whether the entry is a directory.
    pub fn is_dir(&self) -> (is_dir: bool)
        ensures
            is_dir == self@.1,
    {
        self.is_dir
    }
}

/// Serialises a list of pairs with `bincode::serialize`. For a list of
/// `(String, bool)` the crate writes the number of pairs as a little-endian
/// `u64`, then each pair as the byte length of the string as a little-endian
/// `u64`, the bytes of the string and one byte `0` or `1`; on such a value it
/// does not fail.
#[verifier::external_body]
fn bincode_serialize(pairs: &Vec<(String, bool)>) -> (bytes: Option<Vec<u8>>)
    ensures
        bytes is Some,
        bytes->0@ == listing_bytes(pairs_view(pairs@)),
{
    bincode::serialize(pairs).ok()
}

/// Reads a list of pairs with `bincode::deserialize`. The crate reads the
/// format that `bincode_serialize` writes and does not look at what follows
/// it: it succeeds exactly on the buffers that begin with the bytes of some
/// list, and returns that list.
#[verifier::external_body]
fn bincode_deserialize(bytes: &[u8]) -> (pairs: Option<Vec<(String, bool)>>)
    ensures
        match pairs {
            Some(p) => listing_bytes(pairs_view(p@)).is_prefix_of(bytes@),
            None => forall|list: Seq<EntryView>| !begins_with(bytes@, list),
        },
{
    bincode::deserialize(bytes).ok()
}

/// The byte length of a name. That it can be asked for shows that it is a
/// machine word, and so can be written as a `u64`.
fn byte_len(name: &str) -> (len: usize)
    ensures
        len == encode_utf8(name@).len(),
{
    name.as_bytes().len()
}

impl Directory {
    /// The entries as pairs of name and flag.
    fn to_pairs(&self) -> (pairs: Vec<(String, bool)>)
        ensures
            pairs_view(pairs@) == self@,
            fits(self@),
    {
        let mut pairs: Vec<(String, bool)> = Vec::new();
        let mut i: usize = 0;
        while i < self.0.len()
            invariant
                i <= self.0.len(),
                pairs@.len() == i,
                forall|k: int| 0 <= k < i ==> (#[trigger] pairs@[k]).0@ == self.0@[k]@.0,
                forall|k: int| 0 <= k < i ==> (#[trigger] pairs@[k]).1 == self.0@[k]@.1,
                forall|k: int| 0 <= k < i ==> encode_utf8(#[trigger] self@[k].0).len() <= u64::MAX,
            decreases self.0.len() - i,
        {
            let entry = &self.0[i];
            let len: usize = byte_len(entry.name.as_str());
            assert(encode_utf8(self@[i as int].0).len() == len);
            pairs.push((entry.name.clone(), entry.is_dir));
            i = i + 1;
        }
        assert(pairs_view(pairs@) =~= self@);
        pairs
    }

    /// The listing with the entries that `pairs` holds.
    fn from_pairs(pairs: &Vec<(String, bool)>) -> (dir: Directory)
        ensures
            dir@ == pairs_view(pairs@),
            fits(dir@),
    {
        let mut entries: Vec<DirectoryEntry> = Vec::new();
        let mut i: usize = 0;
        while i < pairs.len()
            invariant
                i <= pairs.len(),
                entries@.len() == i,
                forall|k: int| 0 <= k < i ==> (#[trigger] entries@[k])@ == (pairs@[k].0@, pairs@[k].1),
                forall|k: int|
                    0 <= k < i ==> encode_utf8(#[trigger] pairs_view(pairs@)[k].0).len()
                        <= u64::MAX,
            decreases pairs.len() - i,
        {
            let len: usize = byte_len(pairs[i].0.as_str());
            assert(encode_utf8(pairs_view(pairs@)[i as int].0).len() == len);
            entries.push(DirectoryEntry { name: pairs[i].0.clone(), is_dir: pairs[i].1 });
            i = i + 1;
        }
        let dir = Directory(entries);
        assert(dir@ =~= pairs_view(pairs@));
        dir
    }

    /// The bytes that carry this listing to the supervisor.
    pub fn encode(&self) -> (bytes: Vec<u8>)
        ensures
            bytes@ == listing_bytes(self@),
            fits(self@),
    {
        let pairs = self.to_pairs();
        bincode_serialize(&pairs).unwrap()
    }

    /// Reads the listing that `bytes` begins with. Bytes that begin with no
    /// listing are an error without a code of its own.
    pub fn decode(bytes: &[u8]) -> (result: Result<Directory, SimuError>)
        ensures
            match result {
                Ok(dir) => decoded(bytes@) == Some(dir@),
                Err(e) => decoded(bytes@).is_none() && e.code == ReturnCode::Unknown,
            },
    {
        match bincode_deserialize(bytes) {
            Some(pairs) => {
                let dir = Directory::from_pairs(&pairs);
                proof {
                    assert(begins_with(bytes@, dir@));
                    let other = choose|list: Seq<EntryView>| begins_with(bytes@, list);
                    lemma_listing_unique(dir@, other, bytes@);
                }
                Ok(dir)
            },
            None => Err(SimuError::unknown()),
        }
    }
}

proof fn lemma_no_error_yet(chunks: Seq<Result<Vec<u8>, SimuError>>, n: int)
    requires
        0 <= n < chunks.len(),
        forall|k: int| 0 <= k < n ==> (#[trigger] chunks[k]) is Ok,
    ensures
        first_error(chunks) == first_error(chunks.skip(n)),
        first_error(chunks.take(n)).is_none(),
    decreases n,
{
    if n == 0 {
        assert(chunks.skip(0) =~= chunks);
        assert(chunks.take(0) =~= Seq::<Result<Vec<u8>, SimuError>>::empty());
    } else {
        let rest = chunks.skip(1);
        assert forall|k: int| 0 <= k < n - 1 implies (#[trigger] rest[k]) is Ok by {
            assert(rest[k] == chunks[k + 1]);
        }
        lemma_no_error_yet(rest, n - 1);
        assert(rest.skip(n - 1) =~= chunks.skip(n));
        assert(chunks.take(n).skip(1) =~= rest.take(n - 1));
        assert(chunks.take(n)[0] == chunks[0]);
    }
}

proof fn lemma_no_error(chunks: Seq<Result<Vec<u8>, SimuError>>)
    requires
        forall|k: int| 0 <= k < chunks.len() ==> (#[trigger] chunks[k]) is Ok,
    ensures
        first_error(chunks).is_none(),
    decreases chunks.len(),
{
    if chunks.len() > 0 {
        let rest = chunks.skip(1);
        assert forall|k: int| 0 <= k < rest.len() implies (#[trigger] rest[k]) is Ok by {
            assert(rest[k] == chunks[k + 1]);
        }
        lemma_no_error(rest);
    }
}

/// Puts the chunks of a helper's output together. The first error among them
/// is the result; without one, the bytes of all chunks in their order.
pub fn join_chunks(chunks: &Vec<Result<Vec<u8>, SimuError>>) -> (result: Result<Vec<u8>, SimuError>)
    ensures
        match result {
            Ok(bytes) => first_error(chunks@).is_none() && bytes@ == joined(chunks@),
            Err(e) => first_error(chunks@) == Some(e),
        },
{
    let mut buf: Vec<u8> = Vec::new();
    let mut i: usize = 0;
    assert(chunks@.take(0) =~= Seq::<Result<Vec<u8>, SimuError>>::empty());
    while i < chunks.len()
        invariant
            i <= chunks.len(),
            forall|k: int| 0 <= k < i ==> (#[trigger] chunks@[k]) is Ok,
            buf@ == joined(chunks@.take(i as int)),
        decreases chunks.len() - i,
    {
        assert(chunks@.take(i + 1).drop_last() =~= chunks@.take(i as int));
        match &chunks[i] {
            Ok(bytes) => {
                buf.extend_from_slice(bytes.as_slice());
            },
            Err(e) => {
                proof {
                    lemma_no_error_yet(chunks@, i as int);
                }
                return Err(*e);
            },
        }
        i = i + 1;
    }
    proof {
        assert(chunks@.take(i as int) =~= chunks@);
        lemma_no_error(chunks@);
    }
    Ok(buf)
}

/// Reads a listing from the chunks of a helper's output: the first error
/// among the chunks, else the listing that their bytes begin with, else an
/// error without a code of its own.
pub fn read_listing(chunks: &Vec<Result<Vec<u8>, SimuError>>) -> (result: Result<
    Directory,
    SimuError,
>)
    ensures
        match result {
            Ok(dir) => first_error(chunks@).is_none() && decoded(joined(chunks@)) == Some(dir@),
            Err(e) => match first_error(chunks@) {
                Some(first) => e == first,
                None => decoded(joined(chunks@)).is_none() && e.code == ReturnCode::Unknown,
            },
        },
{
    match join_chunks(chunks) {
        Ok(bytes) => Directory::decode(bytes.as_slice()),
        Err(e) => Err(e),
    }
}

proof fn lemma_entry_unique(x: EntryView, y: EntryView, bytes: Seq<u8>)
    requires
        encode_utf8(x.0).len() <= u64::MAX,
        encode_utf8(y.0).len() <= u64::MAX,
        entry_bytes(x).is_prefix_of(bytes),
        entry_bytes(y).is_prefix_of(bytes),
    ensures
        x == y,
{
    lemma_auto_spec_u64_to_from_le_bytes();
    let xn = encode_utf8(x.0);
    let yn = encode_utf8(y.0);
    let xl = spec_u64_to_le_bytes(xn.len() as u64);
    let yl = spec_u64_to_le_bytes(yn.len() as u64);
    assert(xl =~= bytes.subrange(0, 8)) by {
        assert forall|k: int| 0 <= k < 8 implies xl[k] == bytes[k] by {
            assert(entry_bytes(x)[k] == xl[k]);
        }
    }
    assert(yl =~= bytes.subrange(0, 8)) by {
        assert forall|k: int| 0 <= k < 8 implies yl[k] == bytes[k] by {
            assert(entry_bytes(y)[k] == yl[k]);
        }
    }
    assert(spec_u64_from_le_bytes(xl) == xn.len() as u64);
    assert(spec_u64_from_le_bytes(yl) == yn.len() as u64);
    assert(xn.len() == yn.len());
    let n = xn.len() as int;
    assert(xn =~= yn) by {
        assert forall|k: int| 0 <= k < n implies xn[k] == yn[k] by {
            assert(entry_bytes(x)[8 + k] == xn[k]);
            assert(entry_bytes(y)[8 + k] == yn[k]);
            assert(entry_bytes(x)[8 + k] == bytes[8 + k]);
            assert(entry_bytes(y)[8 + k] == bytes[8 + k]);
        }
    }
    encode_utf8_decode_utf8(x.0);
    encode_utf8_decode_utf8(y.0);
    assert(x.0 == y.0);
    assert(entry_bytes(x)[8 + n] == bytes[8 + n]);
    assert(entry_bytes(y)[8 + n] == bytes[8 + n]);
    assert(entry_bytes(x)[8 + n] == if x.1 { 1u8 } else { 0u8 });
    assert(entry_bytes(y)[8 + n] == if y.1 { 1u8 } else { 0u8 });
    assert(x.1 == y.1);
}

proof fn lemma_entries_unique(a: Seq<EntryView>, b: Seq<EntryView>, bytes: Seq<u8>)
    requires
        a.len() == b.len(),
        fits(a),
        fits(b),
        entries_bytes(a).is_prefix_of(bytes),
        entries_bytes(b).is_prefix_of(bytes),
    ensures
        a == b,
    decreases a.len(),
{
    if a.len() == 0 {
        assert(a =~= b);
    } else {
        let ea = entry_bytes(a[0]);
        let eb = entry_bytes(b[0]);
        let ra = entries_bytes(a.skip(1));
        let rb = entries_bytes(b.skip(1));
        assert(ea.is_prefix_of(bytes)) by {
            assert forall|k: int| 0 <= k < ea.len() implies ea[k] == bytes[k] by {
                assert(entries_bytes(a)[k] == ea[k]);
            }
        }
        assert(eb.is_prefix_of(bytes)) by {
            assert forall|k: int| 0 <= k < eb.len() implies eb[k] == bytes[k] by {
                assert(entries_bytes(b)[k] == eb[k]);
            }
        }
        lemma_entry_unique(a[0], b[0], bytes);
        let rest = bytes.skip(ea.len() as int);
        assert(ra.is_prefix_of(rest)) by {
            assert forall|k: int| 0 <= k < ra.len() implies ra[k] == rest[k] by {
                assert(entries_bytes(a)[ea.len() + k] == ra[k]);
            }
        }
        assert(rb.is_prefix_of(rest)) by {
            assert forall|k: int| 0 <= k < rb.len() implies rb[k] == rest[k] by {
                assert(entries_bytes(b)[eb.len() + k] == rb[k]);
            }
        }
        assert(fits(a.skip(1))) by {
            assert forall|i: int| 0 <= i < a.skip(1).len() implies encode_utf8(
                #[trigger] a.skip(1)[i].0,
            ).len() <= u64::MAX by {
                assert(a.skip(1)[i] == a[i + 1]);
            }
        }
        assert(fits(b.skip(1))) by {
            assert forall|i: int| 0 <= i < b.skip(1).len() implies encode_utf8(
                #[trigger] b.skip(1)[i].0,
            ).len() <= u64::MAX by {
                assert(b.skip(1)[i] == b[i + 1]);
            }
        }
        lemma_entries_unique(a.skip(1), b.skip(1), rest);
        assert(a =~= b) by {
            assert forall|i: int| 0 <= i < a.len() implies a[i] == b[i] by {
                if i > 0 {
                    assert(a.skip(1)[i - 1] == a[i]);
                    assert(b.skip(1)[i - 1] == b[i]);
                }
            }
        }
    }
}

/// A buffer begins with one listing at most: the format tells where each
/// name and each entry ends.
pub proof fn lemma_listing_unique(a: Seq<EntryView>, b: Seq<EntryView>, bytes: Seq<u8>)
    requires
        begins_with(bytes, a),
        begins_with(bytes, b),
    ensures
        a == b,
{
    lemma_auto_spec_u64_to_from_le_bytes();
    let la = spec_u64_to_le_bytes(a.len() as u64);
    let lb = spec_u64_to_le_bytes(b.len() as u64);
    assert(la =~= bytes.subrange(0, 8)) by {
        assert forall|k: int| 0 <= k < 8 implies la[k] == bytes[k] by {
            assert(listing_bytes(a)[k] == la[k]);
        }
    }
    assert(lb =~= bytes.subrange(0, 8)) by {
        assert forall|k: int| 0 <= k < 8 implies lb[k] == bytes[k] by {
            assert(listing_bytes(b)[k] == lb[k]);
        }
    }
    assert(spec_u64_from_le_bytes(la) == a.len() as u64);
    assert(spec_u64_from_le_bytes(lb) == b.len() as u64);
    assert(a.len() == b.len());
    let rest = bytes.skip(8);
    let ra = entries_bytes(a);
    let rb = entries_bytes(b);
    assert(ra.is_prefix_of(rest)) by {
        assert forall|k: int| 0 <= k < ra.len() implies ra[k] == rest[k] by {
            assert(listing_bytes(a)[8 + k] == ra[k]);
        }
    }
    assert(rb.is_prefix_of(rest)) by {
        assert forall|k: int| 0 <= k < rb.len() implies rb[k] == rest[k] by {
            assert(listing_bytes(b)[8 + k] == rb[k]);
        }
    }
    lemma_entries_unique(a, b, rest);
}

/// What the helper writes, the supervisor reads: the bytes of a listing,
/// with or without more bytes behind them, decode to that listing, entry for
/// entry and in the same order.
pub proof fn lemma_listing_round_trip(list: Seq<EntryView>, more: Seq<u8>)
    requires
        fits(list),
    ensures
        decoded(listing_bytes(list) + more) == Some(list),
{
    let bytes = listing_bytes(list) + more;
    assert(listing_bytes(list).is_prefix_of(bytes));
    assert(begins_with(bytes, list));
    let found = choose|other: Seq<EntryView>| begins_with(bytes, other);
    lemma_listing_unique(list, found, bytes);
}

/// The `/` marks the directories: an entry made from a file name that does
/// not itself end in `/` has a name that ends in `/` exactly if it is a
/// directory.
pub proof fn lemma_slash_marks_directory(file_name: Seq<char>, is_dir: bool)
    requires
        !(file_name.len() > 0 && file_name.last() == '/'),
    ensures
        is_dir <==> (entry_name(file_name, is_dir).len() > 0 && entry_name(
            file_name,
            is_dir,
        ).last() == '/'),
{
}

} // verus!
