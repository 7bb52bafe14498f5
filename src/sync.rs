//! The client-side mailbox synchroniser, as a state machine: the caller
//! performs each action it names (a List or Delete call, a local ledger
//! query or insert, a blob download) and hands back what came of it.
//!
//! One pass: fetch every pending envelope page by page until a short page,
//! look up which are already known locally, persist the new ones, download
//! every blob, then acknowledge everything fetched by deleting it in chunks.
//! Any failure of a List, Delete or local step ends the pass; the caller
//! simply drops the machine and may start over, since every step is
//! idempotent.
use vstd::prelude::*;
use vstd::string::StringExecFns;
use crate::interface::{IGetMessagesPayload, IMessage, MAXIMUM_BATCH};
use crate::ledger::{hash_listed, listed, page};
use crate::outside::{hex_encode, hex_of};

verus! {

/// Where a pass stands.
#[derive(Clone, Copy, Debug, PartialEq, Eq, Structural)]
pub enum SyncPhase {
    Idle,
    Fetching,
    Deduplicating,
    Persisting,
    Downloading,
    Acknowledging,
}

/// One blob to fetch: the remote file name and the local directory it goes to.
#[derive(Clone, Debug)]
pub struct DownloadJob {
    pub data_hash: [u8; 64],
    pub file_name: String,
    pub directory: String,
}

/// What the caller must do next.
#[derive(Clone, Debug)]
pub enum SyncAction {
    /// Sign a fresh "get-messages" request and call List with this payload.
    List(IGetMessagesPayload),
    /// Report which of these hashes the local ledger already holds.
    CheckExisting(Vec<[u8; 64]>),
    /// Insert these envelopes into the local ledger.
    Persist(Vec<IMessage>),
    /// Fetch this blob and store it; a failed download is only logged.
    Download(DownloadJob),
    /// Sign a fresh "delete-messages" request and call Delete with these hashes.
    Delete(Vec<[u8; 64]>),
    /// The pass is complete.
    Done,
    /// The pass cannot go on: more envelopes than a List offset can address.
    Abort,
}

/// The List payload that fetches the page at `offset`.
pub open spec fn list_payload(offset: u32) -> IGetMessagesPayload {
    IGetMessagesPayload { offset, limit: MAXIMUM_BATCH, with: None, mine: false }
}

pub open spec fn hashes_of(s: Seq<IMessage>) -> Seq<[u8; 64]> {
    s.map_values(|m: IMessage| m.hash)
}

/// The envelopes of `s` whose hash is not among `known`.
pub open spec fn fresh_pred(known: Seq<[u8; 64]>) -> spec_fn(IMessage) -> bool {
    |m: IMessage| !hash_listed(known, m.hash@)
}

pub open spec fn fresh(s: Seq<IMessage>, known: Seq<[u8; 64]>) -> Seq<IMessage> {
    s.filter(fresh_pred(known))
}

/// The hashes of the `i`-th chunk of at most 10000 envelopes of `s`.
pub open spec fn chunk_of(s: Seq<IMessage>, i: nat) -> Seq<[u8; 64]> {
    hashes_of(page(s, i * MAXIMUM_BATCH as nat, MAXIMUM_BATCH as nat))
}

/// `PathBuf::join` of a relative part on a `/`-separated path.
pub open spec fn path_join(base: Seq<char>, part: Seq<char>) -> Seq<char> {
    if base.len() == 0 || base.last() == '/' {
        base + part
    } else {
        base + seq!['/'] + part
    }
}

/// The local directory of a blob: `basedir/data/<hex 0..4>/<hex 4..8>`.
pub open spec fn data_path_of(basedir: Seq<char>, hash: Seq<char>) -> Seq<char> {
    path_join(path_join(path_join(basedir, "data"@), hash.subrange(0, 4)), hash.subrange(4, 8))
}

/// The file name of a blob on the relay and on disk: `<hex digest>.dat`.
pub open spec fn blob_file_name(data_hash: Seq<u8>) -> Seq<char> {
    hex_of(data_hash) + ".dat"@
}

pub open spec fn job_matches(job: DownloadJob, basedir: Seq<char>, m: IMessage) -> bool {
    &&& job.data_hash == m.data_hash
    &&& job.file_name@ == blob_file_name(m.data_hash@)
    &&& job.directory@ == data_path_of(basedir, hex_of(m.data_hash@))
}

proof fn lemma_hex_len(b: Seq<u8>)
    ensures
        hex_of(b).len() == 2 * b.len(),
    decreases b.len(),
{
    if b.len() > 0 {
        lemma_hex_len(b.drop_last());
    }
}

/// Joins `part` onto `base` as `PathBuf::join` does for a relative part.
pub fn join_path(base: String, part: &str) -> (r: String)
    ensures
        r@ == path_join(base@, part@),
{
    let n = base.as_str().unicode_len();
    if n == 0 || base.as_str().get_char(n - 1) == '/' {
        base.concat(part)
    } else {
        proof { reveal_strlit("/"); }
        let with_sep = base.concat("/");
        let r = with_sep.concat(part);
        assert(r@ =~= base@ + seq!['/'] + part@);
        r
    }
}

/// The local directory of the blob whose hex digest is `hash`:
/// `basedir/data/<hash 0..4>/<hash 4..8>`. The positions count characters;
/// for a hex digest (ASCII) they are also byte positions.
pub fn data_path(basedir: &str, hash: &str) -> (r: String)
    requires
        hash@.len() >= 8,
    ensures
        r@ == data_path_of(basedir@, hash@),
{
    let base = String::from_str(basedir);
    let with_data = join_path(base, "data");
    let first = join_path(with_data, hash.substring_char(0, 4));
    join_path(first, hash.substring_char(4, 8))
}

/// The download job for envelope `m`.
pub fn download_job(basedir: &str, m: &IMessage) -> (r: DownloadJob)
    ensures
        job_matches(r, basedir@, *m),
{
    let hex = hex_encode(m.data_hash.as_slice());
    proof {
        lemma_hex_len(m.data_hash@);
    }
    let directory = data_path(basedir, hex.as_str());
    let file_name = hex.concat(".dat");
    DownloadJob { data_hash: m.data_hash, file_name, directory }
}

/// The hashes of `s`, in order.
pub fn hashes(s: &Vec<IMessage>) -> (r: Vec<[u8; 64]>)
    ensures
        r@ == hashes_of(s@),
{
    let mut r: Vec<[u8; 64]> = Vec::new();
    let mut i: usize = 0;
    while i < s.len()
        invariant
            i <= s@.len(),
            r@ == hashes_of(s@.subrange(0, i as int)),
        decreases s@.len() - i,
    {
        r.push(s[i].hash);
        assert(hashes_of(s@.subrange(0, i + 1)) =~= hashes_of(s@.subrange(0, i as int)).push(s@[i as int].hash));
        i = i + 1;
    }
    assert(s@.subrange(0, i as int) =~= s@);
    r
}

/// The envelopes of `s` whose hash is not among `known`, in order.
pub fn fresh_envelopes(s: &Vec<IMessage>, known: &Vec<[u8; 64]>) -> (r: Vec<IMessage>)
    ensures
        r@ == fresh(s@, known@),
{
    let ghost pred = fresh_pred(known@);
    let mut r: Vec<IMessage> = Vec::new();
    let mut i: usize = 0;
    while i < s.len()
        invariant
            i <= s@.len(),
            pred == fresh_pred(known@),
            r@ == s@.take(i as int).filter(pred),
        decreases s@.len() - i,
    {
        let m = s[i];
        proof {
            reveal(Seq::filter);
            assert(s@.take(i + 1).drop_last() =~= s@.take(i as int));
        }
        let ghost before = r@;
        if !listed(known, &m.hash) {
            r.push(m);
        }
        proof {
            let t = s@.take(i + 1);
            assert(t.last() == m);
            assert(t.filter(pred) == if pred(t.last()) { before.push(t.last()) } else { before });
        }
        i = i + 1;
    }
    assert(s@.take(i as int) =~= s@);
    r
}

/// The hashes of the `index`-th chunk of at most 10000 envelopes of `s`.
pub fn chunk(s: &Vec<IMessage>, index: usize) -> (r: Vec<[u8; 64]>)
    ensures
        r@ == chunk_of(s@, index as nat),
{
    let n = s.len();
    let lo: usize = if (index as u128) * (MAXIMUM_BATCH as u128) <= n as u128 {
        index * (MAXIMUM_BATCH as usize)
    } else {
        n
    };
    let hi: usize = if ((index as u128) + 1) * (MAXIMUM_BATCH as u128) <= n as u128 {
        (index + 1) * (MAXIMUM_BATCH as usize)
    } else {
        n
    };
    let mut r: Vec<[u8; 64]> = Vec::new();
    let mut j: usize = lo;
    while j < hi
        invariant
            lo <= j <= hi,
            hi <= s@.len(),
            r@ == hashes_of(s@.subrange(lo as int, j as int)),
        decreases hi - j,
    {
        r.push(s[j].hash);
        assert(hashes_of(s@.subrange(lo as int, j + 1)) =~= hashes_of(s@.subrange(lo as int, j as int)).push(s@[j as int].hash));
        j = j + 1;
    }
    assert((index as nat) * MAXIMUM_BATCH as nat + MAXIMUM_BATCH as nat == (index as nat + 1) * MAXIMUM_BATCH as nat) by (nonlinear_arith);
    r
}

/// Whether the `index`-th chunk of `s` is non-empty.
pub open spec fn chunk_exists(s: Seq<IMessage>, index: nat) -> bool {
    index * (MAXIMUM_BATCH as nat) < s.len()
}

/// A synchronisation pass for one identity.
pub struct MailboxSync {
    /// Directory under which blobs are stored locally.
    pub basedir: String,
    pub phase: SyncPhase,
    /// Everything fetched so far in this pass.
    pub fetched: Vec<IMessage>,
    /// Position of the current download, or index of the current Delete chunk.
    pub cursor: usize,
}

impl MailboxSync {
    /// An idle machine storing blobs under `basedir`.
    pub fn new(basedir: String) -> (r: MailboxSync)
        ensures
            r.basedir@ == basedir@,
            r.phase == SyncPhase::Idle,
            r.fetched@ == Seq::<IMessage>::empty(),
            r.cursor == 0,
    {
        MailboxSync { basedir, phase: SyncPhase::Idle, fetched: Vec::new(), cursor: 0 }
    }

    /// Starts a pass: asks for the first page.
    pub fn start(&mut self) -> (r: SyncAction)
        ensures
            final(self).basedir@ == old(self).basedir@,
            final(self).phase == SyncPhase::Fetching,
            final(self).fetched@ == Seq::<IMessage>::empty(),
            r matches SyncAction::List(p) && p == list_payload(0),
    {
        self.phase = SyncPhase::Fetching;
        self.fetched = Vec::new();
        self.cursor = 0;
        SyncAction::List(IGetMessagesPayload { offset: 0, limit: MAXIMUM_BATCH, with: None, mine: false })
    }

    /// Takes one page of a List call. A page shorter than the limit ends the
    /// fetch, and the hashes fetched go to the local lookup; otherwise the next
    /// page is asked for, at the offset of what has been fetched.
    pub fn on_page(&mut self, page: Vec<IMessage>) -> (r: SyncAction)
        requires
            old(self).phase == SyncPhase::Fetching,
        ensures
            final(self).basedir@ == old(self).basedir@,
            final(self).fetched@ == old(self).fetched@ + page@,
            page@.len() < MAXIMUM_BATCH ==> final(self).phase == SyncPhase::Deduplicating
                && (r matches SyncAction::CheckExisting(h) && h@ == hashes_of(final(self).fetched@)),
            page@.len() >= MAXIMUM_BATCH && final(self).fetched@.len() <= u32::MAX ==>
                final(self).phase == SyncPhase::Fetching
                && (r matches SyncAction::List(p) && p == list_payload(final(self).fetched@.len() as u32)),
            page@.len() >= MAXIMUM_BATCH && final(self).fetched@.len() > u32::MAX ==>
                final(self).phase == SyncPhase::Idle && r is Abort,
    {
        let short = page.len() < MAXIMUM_BATCH as usize;
        let mut page = page;
        self.fetched.append(&mut page);
        if short {
            self.phase = SyncPhase::Deduplicating;
            SyncAction::CheckExisting(hashes(&self.fetched))
        } else if self.fetched.len() as u64 <= u32::MAX as u64 {
            SyncAction::List(IGetMessagesPayload {
                offset: self.fetched.len() as u32,
                limit: MAXIMUM_BATCH,
                with: None,
                mine: false,
            })
        } else {
            self.phase = SyncPhase::Idle;
            SyncAction::Abort
        }
    }

    /// Takes the hashes that the local ledger already holds, and names the
    /// envelopes to persist: those fetched whose hash is not among them.
    pub fn on_existing(&mut self, known: &Vec<[u8; 64]>) -> (r: SyncAction)
        requires
            old(self).phase == SyncPhase::Deduplicating,
        ensures
            final(self).basedir@ == old(self).basedir@,
            final(self).fetched@ == old(self).fetched@,
            final(self).phase == SyncPhase::Persisting,
            r matches SyncAction::Persist(v) && v@ == fresh(old(self).fetched@, known@),
    {
        self.phase = SyncPhase::Persisting;
        SyncAction::Persist(fresh_envelopes(&self.fetched, known))
    }

    /// The action at the current cursor: the next download if one is left,
    /// else the first Delete chunk, else the end of the pass.
    fn next_after_downloads(&mut self) -> (r: SyncAction)
        requires
            old(self).phase == SyncPhase::Downloading,
        ensures
            final(self).basedir@ == old(self).basedir@,
            final(self).fetched@ == old(self).fetched@,
            old(self).cursor < old(self).fetched@.len() ==> final(self).phase == SyncPhase::Downloading
                && final(self).cursor == old(self).cursor
                && (r matches SyncAction::Download(job) && job_matches(job, old(self).basedir@, old(self).fetched@[old(self).cursor as int])),
            old(self).cursor >= old(self).fetched@.len() && old(self).fetched@.len() > 0 ==>
                final(self).phase == SyncPhase::Acknowledging && final(self).cursor == 0
                && (r matches SyncAction::Delete(h) && h@ == chunk_of(old(self).fetched@, 0)),
            old(self).cursor >= old(self).fetched@.len() && old(self).fetched@.len() == 0 ==>
                final(self).phase == SyncPhase::Idle && r is Done,
    {
        if self.cursor < self.fetched.len() {
            let m = self.fetched[self.cursor];
            SyncAction::Download(download_job(self.basedir.as_str(), &m))
        } else if self.fetched.len() > 0 {
            self.phase = SyncPhase::Acknowledging;
            self.cursor = 0;
            SyncAction::Delete(chunk(&self.fetched, 0))
        } else {
            self.phase = SyncPhase::Idle;
            SyncAction::Done
        }
    }

    /// The local insert is done: downloads begin with the first envelope
    /// fetched (every one of them, new or not).
    pub fn on_persisted(&mut self) -> (r: SyncAction)
        requires
            old(self).phase == SyncPhase::Persisting,
        ensures
            final(self).basedir@ == old(self).basedir@,
            final(self).fetched@ == old(self).fetched@,
            old(self).fetched@.len() > 0 ==> final(self).phase == SyncPhase::Downloading
                && final(self).cursor == 0
                && (r matches SyncAction::Download(job) && job_matches(job, old(self).basedir@, old(self).fetched@[0])),
            old(self).fetched@.len() == 0 ==> final(self).phase == SyncPhase::Idle && r is Done,
    {
        self.phase = SyncPhase::Downloading;
        self.cursor = 0;
        self.next_after_downloads()
    }

    /// The current download finished, well or not (a failed download does not
    /// stop the pass): the next one, or the first Delete chunk.
    pub fn on_downloaded(&mut self) -> (r: SyncAction)
        requires
            old(self).phase == SyncPhase::Downloading,
            old(self).cursor < old(self).fetched@.len(),
        ensures
            final(self).basedir@ == old(self).basedir@,
            final(self).fetched@ == old(self).fetched@,
            old(self).cursor + 1 < old(self).fetched@.len() ==> final(self).phase == SyncPhase::Downloading
                && final(self).cursor == old(self).cursor + 1
                && (r matches SyncAction::Download(job) && job_matches(job, old(self).basedir@, old(self).fetched@[old(self).cursor + 1])),
            old(self).cursor + 1 == old(self).fetched@.len() ==>
                final(self).phase == SyncPhase::Acknowledging && final(self).cursor == 0
                && (r matches SyncAction::Delete(h) && h@ == chunk_of(old(self).fetched@, 0)),
    {
        let n = self.fetched.len();
        assert(self.cursor < n);
        self.cursor = self.cursor + 1;
        self.next_after_downloads()
    }

    /// The current Delete chunk was acknowledged: the next chunk, or the end
    /// of the pass.
    pub fn on_deleted(&mut self) -> (r: SyncAction)
        requires
            old(self).phase == SyncPhase::Acknowledging,
            old(self).cursor < usize::MAX,
        ensures
            final(self).basedir@ == old(self).basedir@,
            final(self).fetched@ == old(self).fetched@,
            chunk_exists(old(self).fetched@, (old(self).cursor + 1) as nat) ==> final(self).phase == SyncPhase::Acknowledging
                && final(self).cursor == old(self).cursor + 1
                && (r matches SyncAction::Delete(h) && h@ == chunk_of(old(self).fetched@, (old(self).cursor + 1) as nat)),
            !chunk_exists(old(self).fetched@, (old(self).cursor + 1) as nat) ==> final(self).phase == SyncPhase::Idle && r is Done,
    {
        let next = self.cursor + 1;
        assert((next as u128) * (MAXIMUM_BATCH as u128) <= 0xffff_ffff_ffff_ffffu128 * 10000) by (nonlinear_arith)
            requires next <= 0xffff_ffff_ffff_ffffu128;
        if (next as u128) * (MAXIMUM_BATCH as u128) < self.fetched.len() as u128 {
            self.cursor = next;
            SyncAction::Delete(chunk(&self.fetched, next))
        } else {
            self.phase = SyncPhase::Idle;
            SyncAction::Done
        }
    }
}

/// Pagination of a fetch: when the envelopes that List selects for the
/// caller are `s` throughout the fetch, the `k`-th page (at offset
/// `k * 10000`) is full for every `k < s.len() / 10000`, and page
/// `s.len() / 10000` is short, holding the last `s.len() % 10000` envelopes.
/// The fetch thus ends after `s.len() / 10000 + 1` List calls, with the pages
/// together equal to `s`.
pub proof fn lemma_fetch_pages(s: Seq<IMessage>, k: nat)
    ensures
        k < s.len() / (MAXIMUM_BATCH as nat) ==>
            page(s, k * MAXIMUM_BATCH as nat, MAXIMUM_BATCH as nat).len() == MAXIMUM_BATCH,
        k == s.len() / (MAXIMUM_BATCH as nat) ==>
            page(s, k * MAXIMUM_BATCH as nat, MAXIMUM_BATCH as nat).len() == s.len() % (MAXIMUM_BATCH as nat)
            && s.take((k * MAXIMUM_BATCH as nat) as int) + page(s, k * MAXIMUM_BATCH as nat, MAXIMUM_BATCH as nat) == s,
        k <= s.len() / (MAXIMUM_BATCH as nat) ==>
            s.take((k * MAXIMUM_BATCH as nat) as int) + page(s, k * MAXIMUM_BATCH as nat, MAXIMUM_BATCH as nat)
                == s.take(if k < s.len() / (MAXIMUM_BATCH as nat) { (k + 1) * MAXIMUM_BATCH as nat } else { s.len() as nat } as int),
{
    let n = s.len() as nat;
    let l = MAXIMUM_BATCH as nat;
    let q = n / l;
    assert(n == q * l + n % l && n % l < l) by (nonlinear_arith)
        requires l == 10000, q == n / l;
    if k < q {
        assert((k + 1) * l <= q * l) by (nonlinear_arith)
            requires k < q;
        assert(k * l + l == (k + 1) * l) by (nonlinear_arith);
        assert(s.take((k * l) as int) + s.subrange((k * l) as int, ((k + 1) * l) as int) =~= s.take(((k + 1) * l) as int));
    } else if k == q {
        let r = n % l;
        assert(k * l + l > n) by (nonlinear_arith)
            requires k == q, n == q * l + r, r < l;
        assert(s.take((k * l) as int) + s.subrange((k * l) as int, n as int) =~= s);
        assert(s.take(n as int) =~= s);
    }
}

/// `s.take(n)`, cut at the end of `s`.
pub open spec fn prefix(s: Seq<IMessage>, n: nat) -> Seq<IMessage> {
    s.take(if n <= s.len() { n as int } else { s.len() as int })
}

/// The Delete chunks partition what was fetched: chunk `i` holds at most
/// 10000 hashes, is non-empty exactly while `i * 10000 < s.len()`, and the
/// chunks before `i` followed by chunk `i` are the hashes of the first
/// `(i + 1) * 10000` envelopes, in order.
pub proof fn lemma_chunks_partition(s: Seq<IMessage>, i: nat)
    ensures
        chunk_of(s, i).len() <= MAXIMUM_BATCH,
        chunk_exists(s, i) <==> chunk_of(s, i).len() > 0,
        hashes_of(prefix(s, i * MAXIMUM_BATCH as nat)) + chunk_of(s, i)
            == hashes_of(prefix(s, (i + 1) * MAXIMUM_BATCH as nat)),
{
    let l = MAXIMUM_BATCH as nat;
    assert(i * l + l == (i + 1) * l) by (nonlinear_arith);
    let a = prefix(s, i * l);
    let b = page(s, i * l, l);
    assert(a + b =~= prefix(s, (i + 1) * l));
    assert(hashes_of(a + b) =~= hashes_of(a) + hashes_of(b));
}

} // verus!
