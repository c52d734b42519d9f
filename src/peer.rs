//! Peer identities: opaque byte strings that can be compared for equality.
use vstd::prelude::*;

verus! {

/// The identities held by a list of peers.
pub open spec fn peer_ids(list: Seq<Vec<u8>>) -> Seq<Seq<u8>> {
    list.map_values(|p: Vec<u8>| p@)
}

/// Whether two peer identities are the same.
pub fn same_peer(a: &Vec<u8>, b: &Vec<u8>) -> (r: bool)
    ensures
        r == (a@ == b@),
{
    if a.len() != b.len() {
        return false;
    }
    let mut i: usize = 0;
    while i < a.len()
        invariant
            a@.len() == b@.len(),
            0 <= i <= a@.len(),
            forall|j: int| 0 <= j < i ==> a@[j] == b@[j],
        decreases a@.len() - i,
    {
        if a[i] != b[i] {
            return false;
        }
        i += 1;
    }
    assert(a@ =~= b@);
    true
}

/// Where `p` stands in `list`, if it does.
pub fn find_peer(list: &Vec<Vec<u8>>, p: &Vec<u8>) -> (r: Option<usize>)
    ensures
        match r {
            Some(i) => i < list@.len() && list@[i as int]@ == p@,
            None => !peer_ids(list@).contains(p@),
        },
{
    let mut i: usize = 0;
    while i < list.len()
        invariant
            0 <= i <= list@.len(),
            forall|j: int| 0 <= j < i ==> list@[j]@ != p@,
        decreases list@.len() - i,
    {
        if same_peer(&list[i], p) {
            return Some(i);
        }
        i += 1;
    }
    proof {
        if peer_ids(list@).contains(p@) {
            let j = choose|j: int| 0 <= j < peer_ids(list@).len() && peer_ids(list@)[j] == p@;
            assert(list@[j]@ == p@);
        }
    }
    None
}

/// Appending a new identity to a list keeps the identities distinct.
pub(crate) proof fn lemma_push_distinct(ids: Seq<Seq<u8>>, p: Seq<u8>)
    requires
        ids.no_duplicates(),
        !ids.contains(p),
    ensures
        ids.push(p).no_duplicates(),
{
    let s = ids.push(p);
    assert forall|i: int, j: int| 0 <= i < s.len() && 0 <= j < s.len() && i != j implies s[i]
        != s[j] by {
        if i == ids.len() {
            assert(ids[j] == s[j]);
        } else if j == ids.len() {
            assert(ids[i] == s[i]);
        }
    }
}

/// The identities of a list with one more peer appended.
pub(crate) proof fn lemma_peer_ids_push(list: Seq<Vec<u8>>, p: Vec<u8>)
    ensures
        peer_ids(list.push(p)) == peer_ids(list).push(p@),
{
    assert(peer_ids(list.push(p)) =~= peer_ids(list).push(p@));
}

} // verus!
