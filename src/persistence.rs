//! The snapshot codec: what a store is saved as, and how a saved snapshot is
//! checked and turned back into a store. The envelope is
//! `{ "version": <tag>, "records": { <key>: <record>, ... } }`; the text form
//! is written and read at the edge, which hands over the decoded parts.
use vstd::prelude::*;
use crate::error::StoreError;
use crate::store::{lists, Store};

verus! {

/// The one snapshot version this build reads and writes.
pub const VERSION: u32 = 1;

/// Whether no key occurs twice in `records`.
pub open spec fn keys_distinct<V>(records: Seq<(String, V)>) -> bool {
    forall|i: int, j: int|
        0 <= i < j < records.len() ==> #[trigger] records[i].0@ != #[trigger] records[j].0@
}

/// A snapshot restores to the store it was taken from: the records that
/// list a store's content have distinct keys, so `restore` accepts them, and
/// any content that the same records list is that store's content.
pub proof fn law_snapshot_round_trip<V>(
    records: Seq<(String, V)>,
    saved: Map<Seq<char>, V>,
    restored: Map<Seq<char>, V>,
)
    requires
        lists(records, saved),
        lists(records, restored),
    ensures
        keys_distinct(records),
        restored == saved,
{
    assert forall|k: Seq<char>| #[trigger] saved.contains_key(k) implies restored.contains_key(k)
        && restored[k] == saved[k] by {
        let i = choose|i: int| 0 <= i < records.len() && records[i].0@ == k;
    }
    assert forall|k: Seq<char>| #[trigger] restored.contains_key(k) implies saved.contains_key(
        k,
    ) by {
        let i = choose|i: int| 0 <= i < records.len() && records[i].0@ == k;
    }
    assert(restored =~= saved);
}

/// What was found at the snapshot path.
pub enum SnapshotRead<V> {
    /// There is no file: a first run.
    Missing,
    /// The file could not be read; holds the reason.
    Failed(String),
    /// The file is not a well-formed envelope; holds the reason.
    Malformed(String),
    /// A well-formed envelope: its version tag and its records.
    Decoded(u32, Vec<(String, V)>),
}

/// The parts of the snapshot of `store`: the current version tag and every
/// key with its value, to be encoded as the envelope.
pub fn snapshot<V>(store: &Store<V>) -> (r: (u32, &[(String, V)]))
    requires
        store.wf(),
    ensures
        r.0 == VERSION,
        lists(r.1@, store@),
{
    (VERSION, store.iter())
}

/// The store that a snapshot with tag `version` and `records` describes.
/// Fails with `UnsupportedVersion(version)` for any tag but `VERSION`,
/// whatever the records; else with `KeyAlreadyExists` when a key repeats.
pub fn restore<V>(version: u32, records: Vec<(String, V)>) -> (r: Result<Store<V>, StoreError>)
    ensures
        version != VERSION ==> (r matches Err(StoreError::UnsupportedVersion(v)) && v == version),
        version == VERSION && keys_distinct(records@) ==> (r matches Ok(s) && s.wf() && lists(
            records@,
            s@,
        )),
        version == VERSION && !keys_distinct(records@) ==> r matches Err(
            StoreError::KeyAlreadyExists,
        ),
{
    if version != VERSION {
        return Err(StoreError::UnsupportedVersion(version));
    }
    let ghost rs = records@;
    let mut pending = records;
    let mut store = Store::new();
    while pending.len() > 0
        invariant
            version == VERSION,
            rs == records@,
            pending@ == rs.take(pending@.len() as int),
            pending@.len() <= rs.len(),
            store.wf(),
            lists(rs.subrange(pending@.len() as int, rs.len() as int), store@),
        decreases pending@.len(),
    {
        let ghost m = pending@.len() as int;
        let ghost before = store@;
        let ghost tail = rs.subrange(m, rs.len() as int);
        let (key, record) = pending.pop().unwrap();
        assert(rs[m - 1].0 == key && rs[m - 1].1 == record);
        let ghost k = key@;
        let ghost v = record;
        match store.insert(key, record) {
            Ok(()) => {},
            Err(e) => {
                proof {
                    let j = choose|j: int| 0 <= j < tail.len() && tail[j].0@ == k;
                    assert(rs[m + j].0@ == rs[m - 1].0@);
                }
                return Err(e);
            },
        }
        proof {
            let tail2 = rs.subrange(m - 1, rs.len() as int);
            assert(pending@ =~= rs.take(m - 1));
            assert forall|j: int| 0 <= j < tail2.len() implies #[trigger] tail2[j] == if j == 0 {
                rs[m - 1]
            } else {
                tail[j - 1]
            } by {}
            assert forall|a: int, b: int| 0 <= a < b < tail2.len() implies #[trigger] tail2[a].0@
                != #[trigger] tail2[b].0@ by {
                if a == 0 {
                    assert(before.contains_key(tail[b - 1].0@));
                } else {
                    assert(tail[a - 1].0@ != tail[b - 1].0@);
                }
            }
            assert forall|j: int| 0 <= j < tail2.len() implies store@.contains_key(
                #[trigger] tail2[j].0@,
            ) && store@[tail2[j].0@] == tail2[j].1 by {
                if j > 0 {
                    assert(before.contains_key(tail[j - 1].0@));
                    assert(tail[j - 1].0@ != k);
                }
            }
            assert forall|key2: Seq<char>| #[trigger] store@.contains_key(key2) implies exists|
                j: int,
            | 0 <= j < tail2.len() && tail2[j].0@ == key2 by {
                if key2 == k {
                    assert(tail2[0].0@ == key2);
                } else {
                    let j = choose|j: int| 0 <= j < tail.len() && tail[j].0@ == key2;
                    assert(tail2[j + 1].0@ == key2);
                }
            }
        }
    }
    assert(rs.subrange(0, rs.len() as int) == rs);
    Ok(store)
}

/// The store that what was found at the snapshot path describes: an empty
/// store when there is no file, `Io` when it could not be read, `Json` when
/// it is not a well-formed envelope, else as `restore` says.
pub fn load_snapshot<V>(found: SnapshotRead<V>) -> (r: Result<Store<V>, StoreError>)
    ensures
        found is Missing ==> (r matches Ok(s) && s.wf() && s@ == Map::<Seq<char>, V>::empty()),
        found matches SnapshotRead::Failed(e) ==> (r matches Err(StoreError::Io(e2)) && e2 == e),
        found matches SnapshotRead::Malformed(e) ==> (r matches Err(StoreError::Json(e2)) && e2
            == e),
        found matches SnapshotRead::Decoded(version, records) ==> {
            &&& version != VERSION ==> (r matches Err(StoreError::UnsupportedVersion(v)) && v
                == version)
            &&& version == VERSION && keys_distinct(records@) ==> (r matches Ok(s) && s.wf()
                && lists(records@, s@))
            &&& version == VERSION && !keys_distinct(records@) ==> r matches Err(
                StoreError::KeyAlreadyExists,
            )
        },
{
    match found {
        SnapshotRead::Missing => Ok(Store::new()),
        SnapshotRead::Failed(e) => Err(StoreError::Io(e)),
        SnapshotRead::Malformed(e) => Err(StoreError::Json(e)),
        SnapshotRead::Decoded(version, records) => restore(version, records),
    }
}

} // verus!
