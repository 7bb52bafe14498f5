//! The session directory: at most one live push channel per identity.
use vstd::prelude::*;
use crate::bytes::bytes_eq;

verus! {

/// The entries' identities are pairwise distinct.
pub open spec fn identities_unique(ids: Seq<[u8; 32]>) -> bool {
    forall|i: int, j: int| 0 <= i < j < ids.len() ==> ids[i]@ != ids[j]@
}

/// The directory as a map from identity to push channel.
pub open spec fn directory_map(ids: Seq<[u8; 32]>, channels: Seq<u64>) -> Map<Seq<u8>, u64> {
    Map::new(
        |k: Seq<u8>| exists|i: int| 0 <= i < ids.len() && #[trigger] ids[i]@ == k,
        |k: Seq<u8>| channels[choose|i: int| 0 <= i < ids.len() && #[trigger] ids[i]@ == k],
    )
}

/// Maps each authorised identity to the channel that receives its pushes.
/// Channels are numbered by whoever owns the connections.
pub struct SessionDirectory {
    ids: Vec<[u8; 32]>,
    channels: Vec<u64>,
}

impl View for SessionDirectory {
    type V = Map<Seq<u8>, u64>;

    closed spec fn view(&self) -> Map<Seq<u8>, u64> {
        directory_map(self.ids@, self.channels@)
    }
}

impl SessionDirectory {
    pub closed spec fn wf(&self) -> bool {
        self.ids@.len() == self.channels@.len() && identities_unique(self.ids@)
    }

    pub fn new() -> (r: SessionDirectory)
        ensures
            r.wf(),
            r@ == Map::<Seq<u8>, u64>::empty(),
    {
        let r = SessionDirectory { ids: Vec::new(), channels: Vec::new() };
        assert(r@ =~= Map::<Seq<u8>, u64>::empty());
        r
    }

    fn position(&self, identity: &[u8; 32]) -> (r: Option<usize>)
        ensures
            r matches Some(i) ==> i < self.ids@.len() && self.ids@[i as int]@ == identity@,
            r is None ==> forall|i: int| 0 <= i < self.ids@.len() ==> self.ids@[i]@ != identity@,
    {
        let mut i: usize = 0;
        while i < self.ids.len()
            invariant
                i <= self.ids@.len(),
                forall|j: int| 0 <= j < i ==> self.ids@[j]@ != identity@,
            decreases self.ids@.len() - i,
        {
            if bytes_eq(&self.ids[i], identity) {
                return Some(i);
            }
            i = i + 1;
        }
        None
    }

    /// Registers `channel` for `identity`, replacing any earlier channel: the
    /// newest authorisation wins.
    pub fn authorize(&mut self, identity: &[u8; 32], channel: u64)
        requires
            old(self).wf(),
        ensures
            final(self).wf(),
            final(self)@ == old(self)@.insert(identity@, channel),
    {
        let ghost old_ids = self.ids@;
        let ghost old_channels = self.channels@;
        match self.position(identity) {
            Some(i) => {
                self.channels.set(i, channel);
                proof {
                    let m = directory_map(self.ids@, self.channels@);
                    let o = directory_map(old_ids, old_channels);
                    assert forall|k: Seq<u8>| #[trigger] m.contains_key(k) == o.insert(identity@, channel).contains_key(k) by {
                        if k == identity@ {
                            assert(self.ids@[i as int]@ == k);
                        }
                    }
                    assert forall|k: Seq<u8>| m.contains_key(k) implies #[trigger] m[k] == o.insert(identity@, channel)[k] by {
                        let j = choose|j: int| 0 <= j < self.ids@.len() && #[trigger] self.ids@[j]@ == k;
                        if k == identity@ {
                            assert(j == i);
                        } else {
                            let jo = choose|j: int| 0 <= j < old_ids.len() && #[trigger] old_ids[j]@ == k;
                            assert(j == jo);
                        }
                    }
                    assert(m =~= o.insert(identity@, channel));
                }
            },
            None => {
                self.ids.push(*identity);
                self.channels.push(channel);
                proof {
                    let n = old_ids.len() as int;
                    let m = directory_map(self.ids@, self.channels@);
                    let o = directory_map(old_ids, old_channels);
                    assert forall|k: Seq<u8>| #[trigger] m.contains_key(k) == o.insert(identity@, channel).contains_key(k) by {
                        if k == identity@ {
                            assert(self.ids@[n]@ == k);
                        } else if m.contains_key(k) {
                            let j = choose|j: int| 0 <= j < self.ids@.len() && #[trigger] self.ids@[j]@ == k;
                            assert(old_ids[j]@ == k);
                        } else if o.contains_key(k) {
                            let j = choose|j: int| 0 <= j < old_ids.len() && #[trigger] old_ids[j]@ == k;
                            assert(self.ids@[j]@ == k);
                        }
                    }
                    assert forall|k: Seq<u8>| m.contains_key(k) implies #[trigger] m[k] == o.insert(identity@, channel)[k] by {
                        let j = choose|j: int| 0 <= j < self.ids@.len() && #[trigger] self.ids@[j]@ == k;
                        if k == identity@ {
                            assert(j == n);
                        } else {
                            let jo = choose|j: int| 0 <= j < old_ids.len() && #[trigger] old_ids[j]@ == k;
                            assert(self.ids@[jo]@ == k);
                            assert(j == jo);
                        }
                    }
                    assert(m =~= o.insert(identity@, channel));
                }
            },
        }
    }

    /// The channel registered for `identity`, if any.
    pub fn lookup(&self, identity: &[u8; 32]) -> (r: Option<u64>)
        requires
            self.wf(),
        ensures
            r == (if self@.contains_key(identity@) { Some(self@[identity@]) } else { None::<u64> }),
    {
        match self.position(identity) {
            Some(i) => {
                proof {
                    let j = choose|j: int| 0 <= j < self.ids@.len() && #[trigger] self.ids@[j]@ == identity@;
                    assert(j == i);
                }
                Some(self.channels[i])
            },
            None => None,
        }
    }

    /// Drops every entry that points at `channel`, whose connection is gone;
    /// other entries stay as they are.
    pub fn release(&mut self, channel: u64)
        requires
            old(self).wf(),
        ensures
            final(self).wf(),
            forall|k: Seq<u8>| #[trigger] final(self)@.contains_key(k) <==>
                (old(self)@.contains_key(k) && old(self)@[k] != channel),
            forall|k: Seq<u8>| #[trigger] final(self)@.contains_key(k) ==> final(self)@[k] == old(self)@[k],
    {
        let ghost old_ids = self.ids@;
        let ghost old_channels = self.channels@;
        let mut ids: Vec<[u8; 32]> = Vec::new();
        let mut channels: Vec<u64> = Vec::new();
        let ghost mut origin: Seq<int> = Seq::empty();
        let mut i: usize = 0;
        while i < self.ids.len()
            invariant
                self.wf(),
                self.ids@ == old_ids,
                self.channels@ == old_channels,
                i <= old_ids.len(),
                ids@.len() == channels@.len(),
                origin.len() == ids@.len(),
                forall|j: int| 0 <= j < origin.len() ==> 0 <= #[trigger] origin[j] < i,
                forall|j: int, q: int| 0 <= j < q < origin.len() ==> origin[j] < origin[q],
                forall|j: int| 0 <= j < origin.len() ==> ids@[j] == old_ids[#[trigger] origin[j]]
                    && channels@[j] == old_channels[origin[j]] && channels@[j] != channel,
                forall|q: int| 0 <= q < i && old_channels[q] != channel ==>
                    exists|j: int| 0 <= j < origin.len() && #[trigger] origin[j] == q,
            decreases old_ids.len() - i,
        {
            let ghost prev = origin;
            if self.channels[i] != channel {
                ids.push(self.ids[i]);
                channels.push(self.channels[i]);
                proof {
                    origin = origin.push(i as int);
                }
            }
            proof {
                assert forall|q: int| 0 <= q < i + 1 && old_channels[q] != channel implies
                    exists|j: int| 0 <= j < origin.len() && #[trigger] origin[j] == q by {
                    if q == i {
                        assert(origin[origin.len() - 1] == q);
                    } else {
                        let j = choose|j: int| 0 <= j < prev.len() && #[trigger] prev[j] == q;
                        assert(origin[j] == q);
                    }
                }
            }
            i = i + 1;
        }
        proof {
            assert forall|a: int, b: int| 0 <= a < b < ids@.len() implies ids@[a]@ != ids@[b]@ by {
                assert(origin[a] < origin[b]);
            }
            let m = directory_map(ids@, channels@);
            let o = directory_map(old_ids, old_channels);
            assert forall|k: Seq<u8>| #[trigger] m.contains_key(k) <==> (o.contains_key(k) && o[k] != channel) by {
                if m.contains_key(k) {
                    let j = choose|j: int| 0 <= j < ids@.len() && #[trigger] ids@[j]@ == k;
                    assert(old_ids[origin[j]]@ == k);
                    let q = choose|q: int| 0 <= q < old_ids.len() && #[trigger] old_ids[q]@ == k;
                    assert(q == origin[j]);
                }
                if o.contains_key(k) && o[k] != channel {
                    let q = choose|q: int| 0 <= q < old_ids.len() && #[trigger] old_ids[q]@ == k;
                    let j = choose|j: int| 0 <= j < origin.len() && #[trigger] origin[j] == q;
                    assert(ids@[j]@ == k);
                }
            }
            assert forall|k: Seq<u8>| #[trigger] m.contains_key(k) implies m[k] == o[k] by {
                let j = choose|j: int| 0 <= j < ids@.len() && #[trigger] ids@[j]@ == k;
                let q = choose|q: int| 0 <= q < old_ids.len() && #[trigger] old_ids[q]@ == k;
                assert(old_ids[origin[j]]@ == k);
                assert(q == origin[j]);
            }
        }
        self.ids = ids;
        self.channels = channels;
    }
}

} // verus!
