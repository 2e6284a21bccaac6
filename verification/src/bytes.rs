//! Byte vectors.
use vstd::prelude::*;

verus! {

/// Whether two byte vectors are equal.
pub fn same_bytes(left: &Vec<u8>, right: &Vec<u8>) -> (result: bool)
    ensures
        result == (left@ == right@),
{
    if left.len() != right.len() {
        return false;
    }
    for i in 0..left.len()
        invariant
            left.len() == right.len(),
            forall|j: int| 0 <= j < i ==> left@[j] == right@[j],
    {
        if left[i] != right[i] {
            return false;
        }
    }
    assert(left@ =~= right@);
    true
}

/// What a vector of byte vectors holds.
pub open spec fn blobs(vectors: Seq<Vec<u8>>) -> Seq<Seq<u8>> {
    vectors.map_values(|v: Vec<u8>| v@)
}

/// Whether one of the vectors holds the bytes.
pub fn holds_blob(vectors: &Vec<Vec<u8>>, bytes: &Vec<u8>) -> (result: bool)
    ensures
        result == blobs(vectors@).contains(bytes@),
{
    for i in 0..vectors.len()
        invariant
            forall|j: int| 0 <= j < i ==> #[trigger] blobs(vectors@)[j] != bytes@,
    {
        assert(blobs(vectors@)[i as int] == vectors@[i as int]@);
        if same_bytes(&vectors[i], bytes) {
            return true;
        }
    }
    false
}

/// Appends a byte vector.
pub fn push_blob(vectors: &mut Vec<Vec<u8>>, bytes: Vec<u8>)
    ensures
        blobs(final(vectors)@) == blobs(old(vectors)@).push(bytes@),
{
    let ghost before = vectors@;
    vectors.push(bytes);
    assert(blobs(vectors@) =~= blobs(before).push(bytes@));
}

/// Copies a byte vector.
pub fn copy_blob(bytes: &Vec<u8>) -> (copy: Vec<u8>)
    ensures
        copy@ == bytes@,
{
    let mut copy: Vec<u8> = Vec::new();
    for i in 0..bytes.len()
        invariant
            copy@ == bytes@.take(i as int),
    {
        copy.push(bytes[i]);
    }
    assert(bytes@.take(bytes@.len() as int) =~= bytes@);
    copy
}

/// What an optional byte vector holds.
pub open spec fn optional_blob(bytes: Option<Vec<u8>>) -> Option<Seq<u8>> {
    match bytes {
        Some(bytes) => Some(bytes@),
        None => None,
    }
}

} // verus!
