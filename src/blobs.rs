//! The blob store: ciphertext payloads addressed by their SHA-512 digest.
use vstd::prelude::*;
use crate::bytes::bytes_eq;
use crate::outside::{sha512, sha512_of};

verus! {

pub open spec fn digests_unique(ds: Seq<[u8; 64]>) -> bool {
    forall|i: int, j: int| 0 <= i < j < ds.len() ==> ds[i]@ != ds[j]@
}

/// The store as a map from digest to content.
pub open spec fn blob_map(ds: Seq<[u8; 64]>, data: Seq<Vec<u8>>) -> Map<Seq<u8>, Seq<u8>> {
    Map::new(
        |k: Seq<u8>| exists|i: int| 0 <= i < ds.len() && #[trigger] ds[i]@ == k,
        |k: Seq<u8>| data[choose|i: int| 0 <= i < ds.len() && #[trigger] ds[i]@ == k]@,
    )
}

/// Every blob is stored under the digest of its own bytes.
pub open spec fn content_addressed(m: Map<Seq<u8>, Seq<u8>>) -> bool {
    forall|k: Seq<u8>| #[trigger] m.contains_key(k) ==> sha512_of(m[k])@ == k
}

/// Total length of the blobs `data`.
pub open spec fn total_len(data: Seq<Vec<u8>>) -> nat
    decreases data.len(),
{
    if data.len() == 0 { 0 } else { total_len(data.drop_last()) + data.last()@.len() }
}

/// The store, holding at most `capacity` bytes of blobs.
pub struct BlobStore {
    digests: Vec<[u8; 64]>,
    data: Vec<Vec<u8>>,
    capacity: usize,
    used: usize,
}

impl View for BlobStore {
    type V = Map<Seq<u8>, Seq<u8>>;

    closed spec fn view(&self) -> Map<Seq<u8>, Seq<u8>> {
        blob_map(self.digests@, self.data@)
    }
}

impl BlobStore {
    /// The most bytes of blobs the store holds.
    pub closed spec fn capacity(&self) -> nat {
        self.capacity as nat
    }

    /// The bytes of blobs stored.
    pub closed spec fn used(&self) -> nat {
        self.used as nat
    }

    pub closed spec fn wf(&self) -> bool {
        &&& self.used as nat == total_len(self.data@)
        &&& self.used <= self.capacity
        &&& self.digests@.len() == self.data@.len()
        &&& digests_unique(self.digests@)
        &&& forall|i: int| 0 <= i < self.digests@.len() ==> sha512_of(#[trigger] self.data@[i]@)@ == self.digests@[i]@
    }

    /// An empty store that holds at most `capacity` bytes.
    pub fn new(capacity: usize) -> (r: BlobStore)
        ensures
            r.wf(),
            r@ == Map::<Seq<u8>, Seq<u8>>::empty(),
            r.capacity() == capacity,
            r.used() == 0,
    {
        let r = BlobStore { digests: Vec::new(), data: Vec::new(), capacity, used: 0 };
        assert(r@ =~= Map::<Seq<u8>, Seq<u8>>::empty());
        r
    }

    pub proof fn lemma_content_addressed(&self)
        requires
            self.wf(),
        ensures
            content_addressed(self@),
    {
        assert forall|k: Seq<u8>| #[trigger] self@.contains_key(k) implies sha512_of(self@[k])@ == k by {
            let j = choose|j: int| 0 <= j < self.digests@.len() && #[trigger] self.digests@[j]@ == k;
        }
    }

    fn position(&self, digest: &[u8; 64]) -> (r: Option<usize>)
        ensures
            r matches Some(i) ==> i < self.digests@.len() && self.digests@[i as int]@ == digest@,
            r is None ==> forall|i: int| 0 <= i < self.digests@.len() ==> self.digests@[i]@ != digest@,
    {
        let mut i: usize = 0;
        while i < self.digests.len()
            invariant
                i <= self.digests@.len(),
                forall|j: int| 0 <= j < i ==> self.digests@[j]@ != digest@,
            decreases self.digests@.len() - i,
        {
            if bytes_eq(&self.digests[i], digest) {
                return Some(i);
            }
            i = i + 1;
        }
        None
    }

    /// Stores `bytes` under their digest, which it returns. Storing content
    /// that is already present changes nothing; new content that does not
    /// fit in what is left of the capacity is refused (`None`), and then
    /// nothing changes.
    pub fn put(&mut self, bytes: Vec<u8>) -> (r: Option<[u8; 64]>)
        requires
            old(self).wf(),
        ensures
            final(self).wf(),
            final(self).capacity() == old(self).capacity(),
            old(self)@.contains_key(sha512_of(bytes@)@) ==> r == Some(sha512_of(bytes@))
                && final(self)@ == old(self)@ && final(self).used() == old(self).used(),
            !old(self)@.contains_key(sha512_of(bytes@)@) && old(self).used() + bytes@.len() > old(self).capacity() ==>
                r is None && final(self)@ == old(self)@ && final(self).used() == old(self).used(),
            !old(self)@.contains_key(sha512_of(bytes@)@) && old(self).used() + bytes@.len() <= old(self).capacity() ==>
                r == Some(sha512_of(bytes@))
                && final(self)@ == old(self)@.insert(sha512_of(bytes@)@, bytes@)
                && final(self).used() == old(self).used() + bytes@.len(),
    {
        let digest = sha512(bytes.as_slice());
        let ghost old_ds = self.digests@;
        let ghost old_data = self.data@;
        match self.position(&digest) {
            Some(i) => {
                assert(old(self)@.contains_key(digest@));
            },
            None => {
                proof {
                    if old(self)@.contains_key(digest@) {
                        let j = choose|j: int| 0 <= j < old_ds.len() && #[trigger] old_ds[j]@ == digest@;
                    }
                }
                let len = bytes.len();
                if len > self.capacity - self.used {
                    return None;
                }
                self.digests.push(digest);
                self.data.push(bytes);
                self.used = self.used + len;
                proof {
                    assert(self.data@.drop_last() =~= old_data);
                }
                proof {
                    let n = old_ds.len() as int;
                    let m = blob_map(self.digests@, self.data@);
                    let o = blob_map(old_ds, old_data);
                    assert forall|k: Seq<u8>| #[trigger] m.contains_key(k) == o.insert(digest@, bytes@).contains_key(k) by {
                        if k == digest@ {
                            assert(self.digests@[n]@ == k);
                        } else if m.contains_key(k) {
                            let j = choose|j: int| 0 <= j < self.digests@.len() && #[trigger] self.digests@[j]@ == k;
                            assert(old_ds[j]@ == k);
                        } else if o.contains_key(k) {
                            let j = choose|j: int| 0 <= j < old_ds.len() && #[trigger] old_ds[j]@ == k;
                            assert(self.digests@[j]@ == k);
                        }
                    }
                    assert forall|k: Seq<u8>| m.contains_key(k) implies #[trigger] m[k] == o.insert(digest@, bytes@)[k] by {
                        let j = choose|j: int| 0 <= j < self.digests@.len() && #[trigger] self.digests@[j]@ == k;
                        if k == digest@ {
                            assert(j == n);
                        } else {
                            let jo = choose|j: int| 0 <= j < old_ds.len() && #[trigger] old_ds[j]@ == k;
                            assert(self.digests@[jo]@ == k);
                            assert(j == jo);
                        }
                    }
                    assert(m =~= o.insert(digest@, bytes@));
                }
            },
        }
        Some(digest)
    }

    /// The blob stored under `digest`, if any.
    pub fn get(&self, digest: &[u8; 64]) -> (r: Option<Vec<u8>>)
        requires
            self.wf(),
        ensures
            r is Some <==> self@.contains_key(digest@),
            r matches Some(b) ==> b@ == self@[digest@],
    {
        match self.position(digest) {
            Some(i) => {
                proof {
                    let j = choose|j: int| 0 <= j < self.digests@.len() && #[trigger] self.digests@[j]@ == digest@;
                    assert(j == i);
                }
                let b = self.data[i].clone();
                assert(b@ =~= self.data@[i as int]@);
                Some(b)
            },
            None => None,
        }
    }
}

} // verus!
