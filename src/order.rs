//! The chunk locator and orderer: from a snapshot of the chunk store's names
//! to the ascending list of part numbers of one upload, or the reason why the
//! upload cannot be merged.
use vstd::prelude::*;
use crate::naming::{
    belongs_to, belongs_to_upload, chunk_name, is_corrupt_name, lemma_chunk_name_belongs,
    lemma_chunk_name_injective, parse_chunk_name,
};

verus! {

/// Why an upload cannot be merged.
#[derive(Debug, Clone, PartialEq, Eq)]
pub enum MergeError {
    /// No stored part carries the upload's id.
    IdNotFound,
    /// A stored name of the upload is the name of no part.
    CorruptChunkName,
    /// The number of stored parts differs from the declared total.
    MissingChunks { found: usize, total: usize },
}

/// The set of names in a snapshot of the chunk store.
pub open spec fn listed(entries: Seq<String>) -> Set<Seq<char>> {
    Set::new(|e: Seq<char>| exists|j: int| 0 <= j < entries.len() && entries[j]@ == e)
}

/// Some name in `names` carries the prefix of `id`.
pub open spec fn any_located(id: Seq<char>, names: Set<Seq<char>>) -> bool {
    exists|e: Seq<char>| names.contains(e) && belongs_to(id, e)
}

/// Some name in `names` carries the prefix of `id` without being a part name.
pub open spec fn has_corrupt(id: Seq<char>, names: Set<Seq<char>>) -> bool {
    exists|e: Seq<char>| names.contains(e) && is_corrupt_name(id, e)
}

/// The part numbers of upload `id` that are stored.
pub open spec fn part_set(id: Seq<char>, names: Set<Seq<char>>) -> Set<u32> {
    Set::new(|n: u32| names.contains(chunk_name(id, n as nat)))
}

pub open spec fn ascending(v: Seq<u32>) -> bool {
    forall|i: int, j: int| 0 <= i < j < v.len() ==> v[i] < v[j]
}

/// What stops a merge of upload `id` with `total` declared parts, checked in
/// this order: nothing located, a corrupt name, a count that differs.
pub open spec fn merge_gate(id: Seq<char>, names: Set<Seq<char>>, total: usize) -> Option<
    MergeError,
> {
    if !any_located(id, names) {
        Some(MergeError::IdNotFound)
    } else if has_corrupt(id, names) {
        Some(MergeError::CorruptChunkName)
    } else if part_set(id, names).len() != total {
        Some(MergeError::MissingChunks { found: part_set(id, names).len() as usize, total })
    } else {
        None
    }
}

fn insert_part(v: &mut Vec<u32>, x: u32)
    requires
        ascending(old(v)@),
    ensures
        ascending(final(v)@),
        final(v)@.to_set() == old(v)@.to_set().insert(x),
        final(v)@.len() <= old(v)@.len() + 1,
{
    let mut pos: usize = 0;
    while pos < v.len() && v[pos] < x
        invariant
            pos <= v@.len(),
            forall|k: int| 0 <= k < pos ==> v@[k] < x,
        decreases v@.len() - pos,
    {
        pos = pos + 1;
    }
    if pos < v.len() && v[pos] == x {
        proof {
            assert(v@.to_set() =~= v@.to_set().insert(x)) by {
                assert(v@.contains(x));
            }
        }
        return;
    }
    let ghost before = v@;
    v.insert(pos, x);
    proof {
        let after = v@;
        assert(forall|k: int| 0 <= k < pos ==> after[k] == before[k]);
        assert(after[pos as int] == x);
        assert(forall|k: int| pos < k < after.len() ==> after[k] == before[k - 1]);
        assert(pos < before.len() ==> x < before[pos as int]);
        assert forall|e: u32| after.contains(e) <==> before.contains(e) || e == x by {
            if after.contains(e) {
                let k = choose|k: int| 0 <= k < after.len() && after[k] == e;
                if k < pos {
                    assert(before[k] == e);
                } else if k > pos {
                    assert(before[k - 1] == e);
                }
            }
            if before.contains(e) {
                let k = choose|k: int| 0 <= k < before.len() && before[k] == e;
                if k < pos {
                    assert(after[k] == e);
                } else {
                    assert(after[k + 1] == e);
                }
            }
            if e == x {
                assert(after[pos as int] == e);
            }
        }
        assert(after.to_set() =~= before.to_set().insert(x));
    }
}

/// Locates the parts of upload `id` among `entries` and orders them by
/// sequence number, or says why no merge of `total` parts may start.
pub fn order_chunks(id: &str, entries: &Vec<String>, total: usize) -> (r: Result<
    Vec<u32>,
    MergeError,
>)
    ensures
        match r {
            Ok(v) => merge_gate(id@, listed(entries@), total) is None && ascending(v@)
                && v@.to_set() == part_set(id@, listed(entries@)),
            Err(e) => merge_gate(id@, listed(entries@), total) == Some(e),
        },
{
    let ghost names = listed(entries@);
    let mut out: Vec<u32> = Vec::new();
    let mut any = false;
    let mut i: usize = 0;
    while i < entries.len()
        invariant
            i <= entries@.len(),
            names == listed(entries@),
            ascending(out@),
            out@.len() <= i,
            out@.to_set() == Set::new(
                |n: u32|
                    exists|j: int| 0 <= j < i && entries@[j]@ == chunk_name(id@, n as nat),
            ),
            any == exists|j: int| 0 <= j < i && belongs_to(id@, #[trigger] entries@[j]@),
            forall|j: int| 0 <= j < i ==> !is_corrupt_name(id@, #[trigger] entries@[j]@),
        decreases entries@.len() - i,
    {
        let e = entries[i].as_str();
        let ghost prev = out@.to_set();
        if belongs_to_upload(id, e) {
            any = true;
            match parse_chunk_name(id, e) {
                None => {
                    proof {
                        assert(names.contains(entries@[i as int]@));
                        assert(is_corrupt_name(id@, entries@[i as int]@));
                    }
                    return Err(MergeError::CorruptChunkName);
                },
                Some(n) => {
                    insert_part(&mut out, n);
                    proof {
                        assert forall|m: u32| entries@[i as int]@ == chunk_name(id@, m as nat) implies m
                            == n by {
                            lemma_chunk_name_injective(id@, m as nat, n as nat);
                        }
                        assert(out@.to_set() =~= Set::new(
                            |n: u32|
                                exists|j: int|
                                    0 <= j < i + 1 && entries@[j]@ == chunk_name(
                                        id@,
                                        n as nat,
                                    ),
                        ));
                    }
                },
            }
        } else {
            proof {
                assert forall|m: u32| entries@[i as int]@ != chunk_name(id@, m as nat) by {
                    lemma_chunk_name_belongs(id@, m as nat);
                }
                assert(out@.to_set() =~= Set::new(
                    |n: u32|
                        exists|j: int|
                            0 <= j < i + 1 && entries@[j]@ == chunk_name(id@, n as nat),
                ));
            }
        }
        i = i + 1;
    }
    proof {
        assert(out@.to_set() =~= part_set(id@, names));
        assert forall|e: Seq<char>| names.contains(e) implies !is_corrupt_name(id@, e) by {
            let j = choose|j: int| 0 <= j < entries@.len() && entries@[j]@ == e;
            assert(!is_corrupt_name(id@, entries@[j]@));
        }
        assert(any == any_located(id@, names)) by {
            if any_located(id@, names) {
                let e = choose|e: Seq<char>| names.contains(e) && belongs_to(id@, e);
                let j = choose|j: int| 0 <= j < entries@.len() && entries@[j]@ == e;
                assert(belongs_to(id@, entries@[j]@));
            }
            if any {
                let j = choose|j: int| 0 <= j < entries@.len() && belongs_to(id@, entries@[j]@);
                assert(names.contains(entries@[j]@));
            }
        }
        assert(out@.no_duplicates());
        out@.unique_seq_to_set();
    }
    if !any {
        return Err(MergeError::IdNotFound);
    }
    if out.len() != total {
        return Err(MergeError::MissingChunks { found: out.len(), total });
    }
    Ok(out)
}

} // verus!
