//! The metadata ledger: message envelopes keyed by their unique hash, kept in
//! timestamp order.
use vstd::prelude::*;
use crate::bytes::bytes_eq;
use crate::interface::IMessage;

verus! {

/// Rows are in non-decreasing timestamp order.
pub open spec fn sorted_by_time(s: Seq<IMessage>) -> bool {
    forall|i: int, j: int| 0 <= i < j < s.len() ==> s[i].timestamp <= s[j].timestamp
}

/// No two rows share a hash.
pub open spec fn hashes_unique(s: Seq<IMessage>) -> bool {
    forall|i: int, j: int| 0 <= i < j < s.len() ==> s[i].hash@ != s[j].hash@
}

pub open spec fn ledger_wf(s: Seq<IMessage>) -> bool {
    sorted_by_time(s) && hashes_unique(s)
}

/// Some row carries hash `h`.
pub open spec fn has_hash(s: Seq<IMessage>, h: Seq<u8>) -> bool {
    exists|i: int| 0 <= i < s.len() && #[trigger] s[i].hash@ == h
}

/// Some row carries hash `h` and was sent by `sender`.
pub open spec fn has_owned(s: Seq<IMessage>, sender: Seq<u8>, h: Seq<u8>) -> bool {
    exists|i: int| 0 <= i < s.len() && #[trigger] s[i].hash@ == h && s[i].sender@ == sender
}

/// Whether `h` is among the hashes `hs`.
pub open spec fn hash_listed(hs: Seq<[u8; 64]>, h: Seq<u8>) -> bool {
    exists|k: int| 0 <= k < hs.len() && #[trigger] hs[k]@ == h
}

/// Whether a List call by `caller` selects row `m`: rows the caller sent
/// (`mine`) or took part in, restricted, when `with` is given, to the rows
/// exchanged between the caller and that peer (`{sender, receiver}` is
/// `{caller, with}`).
pub open spec fn visible(m: IMessage, caller: Seq<u8>, with: Option<Seq<u8>>, mine: bool) -> bool {
    &&& if mine { m.sender@ == caller } else { m.sender@ == caller || m.receiver@ == caller }
    &&& match with {
        None => true,
        Some(p) => (m.sender@ == caller && m.receiver@ == p) || (m.sender@ == p && m.receiver@ == caller),
    }
}

pub open spec fn view_of_peer(with: Option<[u8; 32]>) -> Option<Seq<u8>> {
    match with {
        None => None,
        Some(p) => Some(p@),
    }
}

pub open spec fn visible_pred(caller: Seq<u8>, with: Option<Seq<u8>>, mine: bool) -> spec_fn(IMessage) -> bool {
    |m: IMessage| visible(m, caller, with, mine)
}

/// The rows a List call by `caller` selects, in ledger order.
pub open spec fn selection(s: Seq<IMessage>, caller: Seq<u8>, with: Option<Seq<u8>>, mine: bool) -> Seq<IMessage> {
    s.filter(visible_pred(caller, with, mine))
}

/// Rows `offset .. offset + limit` of `s`, cut at its end.
pub open spec fn page(s: Seq<IMessage>, offset: nat, limit: nat) -> Seq<IMessage> {
    let lo = if offset <= s.len() { offset as int } else { s.len() as int };
    let hi = if offset + limit <= s.len() { (offset + limit) as int } else { s.len() as int };
    s.subrange(lo, hi)
}

/// Whether a Delete by `caller` of `hashes` removes row `m`.
pub open spec fn doomed(m: IMessage, caller: Seq<u8>, hashes: Seq<[u8; 64]>) -> bool {
    m.sender@ == caller && hash_listed(hashes, m.hash@)
}

pub open spec fn kept_pred(caller: Seq<u8>, hashes: Seq<[u8; 64]>) -> spec_fn(IMessage) -> bool {
    |m: IMessage| !doomed(m, caller, hashes)
}

/// What is left of `s` after `caller` deletes `hashes`.
pub open spec fn after_delete(s: Seq<IMessage>, caller: Seq<u8>, hashes: Seq<[u8; 64]>) -> Seq<IMessage> {
    s.filter(kept_pred(caller, hashes))
}

/// `new` is `old` after inserting `m`: unchanged when its hash is present,
/// else `m` added at some position.
pub open spec fn insert_result(old: Seq<IMessage>, new: Seq<IMessage>, m: IMessage) -> bool {
    if has_hash(old, m.hash@) {
        new == old
    } else {
        exists|p: int| 0 <= p <= old.len() && new == #[trigger] old.insert(p, m)
    }
}

/// A filter keeps the ledger's order and the uniqueness of its hashes.
pub proof fn lemma_filter_wf(s: Seq<IMessage>, pred: spec_fn(IMessage) -> bool)
    requires
        ledger_wf(s),
    ensures
        ledger_wf(s.filter(pred)),
    decreases s.len(),
{
    reveal(Seq::filter);
    if s.len() > 0 {
        let d = s.drop_last();
        assert(ledger_wf(d));
        lemma_filter_wf(d, pred);
        let f = d.filter(pred);
        if pred(s.last()) {
            let g = f.push(s.last());
            assert forall|i: int| 0 <= i < f.len() implies f[i].timestamp <= s.last().timestamp
                && f[i].hash@ != s.last().hash@ by {
                d.lemma_filter_contains_rev(pred, f[i]);
                let k = choose|k: int| 0 <= k < d.len() && d[k] == f[i];
                assert(s[k] == d[k]);
            }
            assert(s.filter(pred) == g);
        } else {
            assert(s.filter(pred) == f);
        }
    }
}

/// The ledger, holding at most `max_rows` rows.
pub struct Ledger {
    rows: Vec<IMessage>,
    max_rows: usize,
}

impl View for Ledger {
    type V = Seq<IMessage>;

    closed spec fn view(&self) -> Seq<IMessage> {
        self.rows@
    }
}

impl Ledger {
    /// The most rows the ledger holds.
    pub closed spec fn max_rows(&self) -> nat {
        self.max_rows as nat
    }

    pub open spec fn wf(&self) -> bool {
        ledger_wf(self@) && self@.len() <= self.max_rows()
    }

    /// An empty ledger that holds at most `max_rows` rows.
    pub fn new(max_rows: usize) -> (r: Ledger)
        ensures
            r.wf(),
            r@ == Seq::<IMessage>::empty(),
            r.max_rows() == max_rows,
    {
        Ledger { rows: Vec::new(), max_rows }
    }

    pub fn len(&self) -> (r: usize)
        ensures
            r == self@.len(),
    {
        self.rows.len()
    }

    /// Whether a row carries hash `h`.
    pub fn contains_hash(&self, h: &[u8; 64]) -> (r: bool)
        ensures
            r == has_hash(self@, h@),
    {
        let mut i: usize = 0;
        while i < self.rows.len()
            invariant
                i <= self.rows@.len(),
                forall|j: int| 0 <= j < i ==> self.rows@[j].hash@ != h@,
            decreases self.rows@.len() - i,
        {
            if bytes_eq(&self.rows[i].hash, h) {
                return true;
            }
            i = i + 1;
        }
        false
    }

    /// Inserts `m` unless a row with its hash exists; a duplicate hash is a
    /// no-op, not an error. Returns whether a row was added, or `Err` when
    /// the row is new and the ledger is full (then nothing changes). The row
    /// goes after every row not later than it, so the ledger stays in time
    /// order.
    pub fn insert(&mut self, m: IMessage) -> (r: Result<bool, ()>)
        requires
            old(self).wf(),
        ensures
            final(self).wf(),
            final(self).max_rows() == old(self).max_rows(),
            has_hash(old(self)@, m.hash@) ==> r == Ok::<bool, ()>(false) && final(self)@ == old(self)@,
            !has_hash(old(self)@, m.hash@) && old(self)@.len() >= old(self).max_rows() ==>
                r is Err && final(self)@ == old(self)@,
            !has_hash(old(self)@, m.hash@) && old(self)@.len() < old(self).max_rows() ==> {
                &&& r == Ok::<bool, ()>(true)
                &&& insert_result(old(self)@, final(self)@, m)
                &&& has_hash(final(self)@, m.hash@)
                &&& final(self)@.len() == old(self)@.len() + 1
            },
    {
        if self.contains_hash(&m.hash) {
            return Ok(false);
        }
        if self.rows.len() >= self.max_rows {
            return Err(());
        }
        let mut p: usize = 0;
        while p < self.rows.len() && self.rows[p].timestamp <= m.timestamp
            invariant
                p <= self.rows@.len(),
                forall|j: int| 0 <= j < p ==> self.rows@[j].timestamp <= m.timestamp,
            decreases self.rows@.len() - p,
        {
            p = p + 1;
        }
        let ghost s = self.rows@;
        self.rows.insert(p, m);
        proof {
            let n = self.rows@;
            assert(n == s.insert(p as int, m));
            assert forall|i: int, j: int| 0 <= i < j < n.len() implies n[i].timestamp <= n[j].timestamp by {
                if j < p {
                } else if j == p {
                } else if i < p {
                    assert(s[i].timestamp <= m.timestamp);
                } else if i == p {
                    assert(s[p as int].timestamp > m.timestamp);
                    assert(s[j - 1].timestamp >= s[p as int].timestamp);
                } else {
                }
            }
            assert(n[p as int].hash@ == m.hash@);
            assert forall|i: int, j: int| 0 <= i < j < n.len() implies n[i].hash@ != n[j].hash@ by {
                if i == p {
                    assert(s[j - 1].hash@ == n[j].hash@);
                } else if j == p {
                    assert(s[i].hash@ == n[i].hash@);
                }
            }
        }
        Ok(true)
    }

    /// The rows a List call by `caller` selects, from `offset`, at most `limit`.
    pub fn list(&self, caller: &[u8; 32], offset: u32, limit: u32, with: &Option<[u8; 32]>, mine: bool) -> (r: Vec<IMessage>)
        ensures
            r@ == page(selection(self@, caller@, view_of_peer(*with), mine), offset as nat, limit as nat),
    {
        let ghost pred = visible_pred(caller@, view_of_peer(*with), mine);
        let mut all: Vec<IMessage> = Vec::new();
        let mut i: usize = 0;
        while i < self.rows.len()
            invariant
                i <= self.rows@.len(),
                all@ == self.rows@.take(i as int).filter(pred),
                pred == visible_pred(caller@, view_of_peer(*with), mine),
            decreases self.rows@.len() - i,
        {
            let m = self.rows[i];
            proof {
                reveal(Seq::filter);
                assert(self.rows@.take(i + 1).drop_last() =~= self.rows@.take(i as int));
            }
            let ghost before = all@;
            if is_visible(&m, caller, with, mine) {
                all.push(m);
            }
            proof {
                let t = self.rows@.take(i + 1);
                assert(t.last() == m);
                assert(pred(m) == visible(m, caller@, view_of_peer(*with), mine));
                assert(t.filter(pred) == if pred(t.last()) { before.push(t.last()) } else { before });
            }
            i = i + 1;
        }
        assert(self.rows@.take(i as int) =~= self.rows@);
        let lo: usize = if (offset as usize) <= all.len() { offset as usize } else { all.len() };
        let end: u64 = (offset as u64) + (limit as u64);
        let hi: usize = if end <= all.len() as u64 {
            end as usize
        } else {
            all.len()
        };
        let mut out: Vec<IMessage> = Vec::new();
        let mut j: usize = lo;
        while j < hi
            invariant
                lo <= j <= hi,
                hi <= all@.len(),
                out@ == all@.subrange(lo as int, j as int),
            decreases hi - j,
        {
            out.push(all[j]);
            assert(all@.subrange(lo as int, j + 1) =~= all@.subrange(lo as int, j as int).push(all@[j as int]));
            j = j + 1;
        }
        out
    }

    /// Deletes the rows sent by `caller` whose hash is in `hashes`. Returns,
    /// for each requested hash in order, whether such a row existed (and is
    /// now gone).
    pub fn delete(&mut self, caller: &[u8; 32], hashes: &Vec<[u8; 64]>) -> (r: Vec<bool>)
        requires
            old(self).wf(),
        ensures
            final(self).wf(),
            final(self).max_rows() == old(self).max_rows(),
            final(self)@ == after_delete(old(self)@, caller@, hashes@),
            r@.len() == hashes@.len(),
            forall|k: int| 0 <= k < hashes@.len() ==>
                #[trigger] r@[k] == has_owned(old(self)@, caller@, hashes@[k]@),
    {
        let ghost pred = kept_pred(caller@, hashes@);
        let mut results: Vec<bool> = Vec::new();
        let mut k: usize = 0;
        while k < hashes.len()
            invariant
                k <= hashes@.len(),
                results@.len() == k,
                forall|q: int| 0 <= q < k ==> #[trigger] results@[q] == has_owned(self@, caller@, hashes@[q]@),
            decreases hashes@.len() - k,
        {
            let found = self.owns(caller, &hashes[k]);
            results.push(found);
            k = k + 1;
        }
        let mut kept: Vec<IMessage> = Vec::new();
        let mut i: usize = 0;
        while i < self.rows.len()
            invariant
                i <= self.rows@.len(),
                kept@ == self.rows@.take(i as int).filter(pred),
                pred == kept_pred(caller@, hashes@),
            decreases self.rows@.len() - i,
        {
            let m = self.rows[i];
            proof {
                reveal(Seq::filter);
                assert(self.rows@.take(i + 1).drop_last() =~= self.rows@.take(i as int));
            }
            let gone = bytes_eq(&m.sender, caller) && listed(hashes, &m.hash);
            let ghost before = kept@;
            if !gone {
                kept.push(m);
            }
            proof {
                let t = self.rows@.take(i + 1);
                assert(t.last() == m);
                assert(pred(m) == !doomed(m, caller@, hashes@));
                assert(t.filter(pred) == if pred(t.last()) { before.push(t.last()) } else { before });
            }
            i = i + 1;
        }
        assert(self.rows@.take(i as int) =~= self.rows@);
        proof {
            lemma_filter_wf(self.rows@, pred);
            self.rows@.lemma_filter_len(pred);
        }
        self.rows = kept;
        results
    }

    /// Whether a row with hash `h` sent by `sender` exists.
    pub fn owns(&self, sender: &[u8; 32], h: &[u8; 64]) -> (r: bool)
        ensures
            r == has_owned(self@, sender@, h@),
    {
        let mut i: usize = 0;
        while i < self.rows.len()
            invariant
                i <= self.rows@.len(),
                forall|j: int| 0 <= j < i ==> !(self.rows@[j].hash@ == h@ && self.rows@[j].sender@ == sender@),
            decreases self.rows@.len() - i,
        {
            if bytes_eq(&self.rows[i].hash, h) && bytes_eq(&self.rows[i].sender, sender) {
                return true;
            }
            i = i + 1;
        }
        false
    }
}

/// Whether `h` is among `hashes`.
pub fn listed(hashes: &Vec<[u8; 64]>, h: &[u8; 64]) -> (r: bool)
    ensures
        r == hash_listed(hashes@, h@),
{
    let mut k: usize = 0;
    while k < hashes.len()
        invariant
            k <= hashes@.len(),
            forall|q: int| 0 <= q < k ==> hashes@[q]@ != h@,
        decreases hashes@.len() - k,
    {
        if bytes_eq(&hashes[k], h) {
            return true;
        }
        k = k + 1;
    }
    false
}

/// Whether a List call by `caller` selects `m`.
pub fn is_visible(m: &IMessage, caller: &[u8; 32], with: &Option<[u8; 32]>, mine: bool) -> (r: bool)
    ensures
        r == visible(*m, caller@, view_of_peer(*with), mine),
{
    let party = if mine {
        bytes_eq(&m.sender, caller)
    } else {
        bytes_eq(&m.sender, caller) || bytes_eq(&m.receiver, caller)
    };
    let shared = match with {
        None => true,
        Some(p) => (bytes_eq(&m.sender, caller) && bytes_eq(&m.receiver, p))
            || (bytes_eq(&m.sender, p) && bytes_eq(&m.receiver, caller)),
    };
    party && shared
}

} // verus!
