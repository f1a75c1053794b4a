//! The wireless link: how a payload is cut into chunks and written one
//! chunk at a time, which devices are taken for the display, and which
//! steps a connection goes through.

use vstd::prelude::*;

verus! {

/// Largest number of bytes the display takes in one write.
pub const MAX_CHUNK_LEN: usize = 512;

/// Offset at which chunk `k` of a payload of `total` bytes begins when it is
/// cut into chunks of `max_chunk` bytes; the end of the payload for every
/// `k` past the last chunk.
pub open spec fn chunk_start(total: nat, max_chunk: nat, k: nat) -> nat {
    if k * max_chunk < total {
        k * max_chunk
    } else {
        total
    }
}

/// The bytes `[start, end)` that chunk `k` covers.
pub open spec fn chunk_range(total: nat, max_chunk: nat, k: nat) -> (nat, nat) {
    (chunk_start(total, max_chunk, k), chunk_start(total, max_chunk, k + 1))
}

/// Number of chunks a payload of `total` bytes is cut into: `total` divided
/// by `max_chunk`, rounded up.
pub open spec fn chunk_count(total: nat, max_chunk: nat) -> nat {
    ((total + max_chunk - 1) / max_chunk as int) as nat
}

/// Chunk `k` of `bytes`.
pub open spec fn chunk(bytes: Seq<u8>, max_chunk: nat, k: nat) -> Seq<u8> {
    bytes.subrange(
        chunk_start(bytes.len(), max_chunk, k) as int,
        chunk_start(bytes.len(), max_chunk, k + 1) as int,
    )
}

/// The first `n` chunks of `bytes`, one after the other.
pub open spec fn concat_chunks(bytes: Seq<u8>, max_chunk: nat, n: nat) -> Seq<u8>
    decreases n,
{
    if n == 0 {
        Seq::empty()
    } else {
        concat_chunks(bytes, max_chunk, (n - 1) as nat) + chunk(bytes, max_chunk, (n - 1) as nat)
    }
}

/// How far a transfer has come.
#[derive(Clone, Copy, Debug, PartialEq, Eq, Structural)]
pub struct TransferProgress {
    /// Bytes the display has acknowledged.
    pub bytes_sent: usize,
    /// Bytes in the payload.
    pub total_bytes: usize,
}

impl TransferProgress {
    /// The share of the payload that has been acknowledged, in whole
    /// percent, rounded down; an empty payload counts as delivered.
    pub fn percent(&self) -> (p: u8)
        requires
            self.bytes_sent <= self.total_bytes,
        ensures
            self.total_bytes == 0 ==> p == 100,
            self.total_bytes > 0 ==> p == self.bytes_sent * 100 / (self.total_bytes as int),
    {
        if self.total_bytes == 0 {
            return 100;
        }
        let scaled: u128 = self.bytes_sent as u128 * 100;
        let p: u128 = scaled / self.total_bytes as u128;
        assert(p <= 100) by (nonlinear_arith)
            requires
                p == (self.bytes_sent * 100) / (self.total_bytes as int),
                0 <= self.bytes_sent <= self.total_bytes,
                self.total_bytes > 0,
        ;
        p as u8
    }
}

/// Why a payload was not delivered.
#[derive(Clone, Copy, Debug, PartialEq, Eq, Structural)]
pub enum SendError {
    /// A write failed; `offset` bytes had been acknowledged before it.
    ChunkFailed { offset: usize },
    /// Chunks of no bytes were asked for.
    InvalidChunkSize,
}

/// Where a transfer stands.
#[derive(Clone, Copy, Debug, PartialEq, Eq, Structural)]
pub enum SendStatus {
    /// A chunk is waiting to be written.
    InProgress,
    /// Every byte has been acknowledged.
    Completed,
    /// A write failed after `offset` bytes; nothing more will be written.
    Failed { offset: usize },
}

/// Mathematical content of a transfer.
pub struct SendView {
    /// Bytes in the payload.
    pub total: nat,
    /// Largest number of bytes in a chunk.
    pub max_chunk: nat,
    /// Number of chunks acknowledged.
    pub acked: nat,
    /// Whether a write has failed.
    pub failed: bool,
}

impl SendView {
    /// A transfer of which nothing has been written yet.
    pub open spec fn start(total: nat, max_chunk: nat) -> SendView {
        SendView { total, max_chunk, acked: 0, failed: false }
    }

    /// Bytes acknowledged so far.
    pub open spec fn sent(self) -> nat {
        chunk_start(self.total, self.max_chunk, self.acked)
    }

    /// The chunk to write next, if the transfer goes on.
    pub open spec fn pending(self) -> Option<(nat, nat)> {
        if !self.failed && self.sent() < self.total {
            Some(chunk_range(self.total, self.max_chunk, self.acked))
        } else {
            None
        }
    }

    /// The transfer after the write of the pending chunk ended: one more
    /// chunk acknowledged, or the transfer failed. With no chunk pending
    /// nothing changes.
    pub open spec fn step(self, delivered: bool) -> SendView {
        if self.pending() is None {
            self
        } else if delivered {
            SendView { acked: self.acked + 1, ..self }
        } else {
            SendView { failed: true, ..self }
        }
    }

    /// The transfer after a run of writes with the given results.
    pub open spec fn run(self, outcomes: Seq<bool>) -> SendView
        decreases outcomes.len(),
    {
        if outcomes.len() == 0 {
            self
        } else {
            self.step(outcomes[0]).run(outcomes.skip(1))
        }
    }

    /// The chunks the transport sees, in order, while writes end with the
    /// given results.
    pub open spec fn attempts(self, outcomes: Seq<bool>) -> Seq<(nat, nat)>
        decreases outcomes.len(),
    {
        if outcomes.len() == 0 {
            Seq::empty()
        } else {
            match self.pending() {
                None => Seq::empty(),
                Some(range) => seq![range] + self.step(outcomes[0]).attempts(outcomes.skip(1)),
            }
        }
    }

    /// Chunks have at least one byte, and chunks are acknowledged only while
    /// bytes remain.
    pub open spec fn wf(self) -> bool {
        &&& self.max_chunk > 0
        &&& self.total <= usize::MAX
        &&& self.max_chunk <= usize::MAX
        &&& self.acked > 0 ==> (self.acked - 1) * self.max_chunk < self.total
    }
}

/// The sending of one payload, chunk by chunk. The owner asks for the next
/// chunk, writes it, waits for the write to end and reports how it ended;
/// there is never more than one chunk under way.
pub struct ChunkedSend {
    total: usize,
    max_chunk: usize,
    acked: usize,
    failed: bool,
}

impl View for ChunkedSend {
    type V = SendView;

    closed spec fn view(&self) -> SendView {
        SendView {
            total: self.total as nat,
            max_chunk: self.max_chunk as nat,
            acked: self.acked as nat,
            failed: self.failed,
        }
    }
}

impl ChunkedSend {
    /// The state is consistent.
    pub closed spec fn wf(&self) -> bool {
        self@.wf()
    }

    /// Bytes acknowledged so far.
    fn sent(&self) -> (sent: usize)
        requires
            self.wf(),
        ensures
            sent == self@.sent(),
    {
        match self.acked.checked_mul(self.max_chunk) {
            Some(offset) => if offset < self.total {
                offset
            } else {
                self.total
            },
            None => self.total,
        }
    }

    /// Begins the transfer of a payload of `total` bytes in chunks of at
    /// most `max_chunk` bytes. Chunks of no bytes are refused.
    pub fn new(total: usize, max_chunk: usize) -> (send: Result<ChunkedSend, SendError>)
        ensures
            max_chunk == 0 ==> send == Err::<ChunkedSend, SendError>(SendError::InvalidChunkSize),
            max_chunk > 0 ==> send is Ok && send->Ok_0.wf() && send->Ok_0@ == SendView::start(
                total as nat,
                max_chunk as nat,
            ),
    {
        if max_chunk == 0 {
            return Err(SendError::InvalidChunkSize);
        }
        assert(0 * (max_chunk as nat) == 0);
        Ok(ChunkedSend { total, max_chunk, acked: 0, failed: false })
    }

    /// The bytes `[start, end)` of the payload to write next: the chunk
    /// that begins where the acknowledged bytes end. `None` once every
    /// byte is acknowledged or a write has failed.
    pub fn next_chunk(&self) -> (range: Option<(usize, usize)>)
        requires
            self.wf(),
        ensures
            match self@.pending() {
                Some(pending) => range == Some((pending.0 as usize, pending.1 as usize)),
                None => range is None,
            },
            range is Some ==> {
                &&& range->Some_0.0 == self@.sent()
                &&& range->Some_0.0 < range->Some_0.1 <= self@.total
                &&& range->Some_0.1 - range->Some_0.0 <= self@.max_chunk
            },
    {
        let sent = self.sent();
        if self.failed || sent >= self.total {
            return None;
        }
        proof {
            lemma_chunk_step(self.total as nat, self.max_chunk as nat, self.acked as nat);
        }
        let end = if self.total - sent < self.max_chunk {
            self.total
        } else {
            sent + self.max_chunk
        };
        Some((sent, end))
    }

    /// Takes note of how the write of the pending chunk ended. A delivered
    /// chunk counts as acknowledged and the next one becomes pending; a
    /// failed write ends the transfer for good. With no chunk pending the
    /// call changes nothing. Returns the progress made.
    pub fn record(&mut self, delivered: bool) -> (progress: TransferProgress)
        requires
            old(self).wf(),
        ensures
            final(self).wf(),
            final(self)@ == old(self)@.step(delivered),
            progress == (TransferProgress {
                bytes_sent: final(self)@.sent() as usize,
                total_bytes: final(self)@.total as usize,
            }),
    {
        if !self.failed && self.sent() < self.total {
            if delivered {
                proof {
                    lemma_chunk_step(self.total as nat, self.max_chunk as nat, self.acked as nat);
                    lemma_acked_bounded(self.total as nat, self.max_chunk as nat, self.acked as nat);
                }
                self.acked = self.acked + 1;
            } else {
                self.failed = true;
            }
        }
        TransferProgress { bytes_sent: self.sent(), total_bytes: self.total }
    }

    /// How far the transfer has come.
    pub fn progress(&self) -> (progress: TransferProgress)
        requires
            self.wf(),
        ensures
            progress == (TransferProgress {
                bytes_sent: self@.sent() as usize,
                total_bytes: self@.total as usize,
            }),
            progress.bytes_sent <= progress.total_bytes,
    {
        TransferProgress { bytes_sent: self.sent(), total_bytes: self.total }
    }

    /// Where the transfer stands: failed at the offset reached if a write
    /// failed, completed if every byte is acknowledged, in progress
    /// otherwise.
    pub fn status(&self) -> (status: SendStatus)
        requires
            self.wf(),
        ensures
            status == if self@.failed {
                SendStatus::Failed { offset: self@.sent() as usize }
            } else if self@.sent() == self@.total {
                SendStatus::Completed
            } else {
                SendStatus::InProgress
            },
    {
        if self.failed {
            SendStatus::Failed { offset: self.sent() }
        } else if self.sent() == self.total {
            SendStatus::Completed
        } else {
            SendStatus::InProgress
        }
    }

    /// The result of the transfer once it has ended: success when every
    /// byte was acknowledged, otherwise the error with the offset reached.
    /// `None` while a chunk is pending.
    pub fn outcome(&self) -> (outcome: Option<Result<(), SendError>>)
        requires
            self.wf(),
        ensures
            outcome == if self@.failed {
                Some(Err::<(), SendError>(SendError::ChunkFailed { offset: self@.sent() as usize }))
            } else if self@.sent() == self@.total {
                Some(Ok::<(), SendError>(()))
            } else {
                None
            },
            outcome is None <==> self@.pending() is Some,
    {
        if self.failed {
            Some(Err(SendError::ChunkFailed { offset: self.sent() }))
        } else if self.sent() == self.total {
            Some(Ok(()))
        } else {
            None
        }
    }
}

/// While bytes remain, the next chunk begins at a multiple of the chunk
/// size, is not empty and is no longer than the chunk size.
pub proof fn lemma_chunk_step(total: nat, max_chunk: nat, k: nat)
    requires
        max_chunk > 0,
        chunk_start(total, max_chunk, k) < total,
    ensures
        chunk_start(total, max_chunk, k) == k * max_chunk,
        chunk_start(total, max_chunk, k) < chunk_start(total, max_chunk, k + 1) <= total,
        chunk_start(total, max_chunk, k + 1) == if total - k * max_chunk < max_chunk {
            total
        } else {
            k * max_chunk + max_chunk
        },
        k * max_chunk < total,
{
    assert((k + 1) * max_chunk == k * max_chunk + max_chunk) by (nonlinear_arith);
}

/// While bytes remain, fewer chunks than bytes have been acknowledged.
pub proof fn lemma_acked_bounded(total: nat, max_chunk: nat, k: nat)
    requires
        max_chunk > 0,
        k * max_chunk < total,
    ensures
        k < total,
{
    assert(k <= k * max_chunk) by (nonlinear_arith)
        requires
            max_chunk > 0,
    ;
}

/// Chunk `k` exists exactly when `k` is below the number of chunks, and the
/// number of chunks is the least number of chunks that hold the payload.
pub proof fn lemma_chunk_count(total: nat, max_chunk: nat, k: nat)
    requires
        max_chunk > 0,
    ensures
        k < chunk_count(total, max_chunk) <==> k * max_chunk < total,
        chunk_count(total, max_chunk) * max_chunk >= total,
        total > 0 ==> (chunk_count(total, max_chunk) - 1) * max_chunk < total,
        total == 0 <==> chunk_count(total, max_chunk) == 0,
{
    let x = (total + max_chunk - 1) as int;
    let d = max_chunk as int;
    let q = x / d;
    let r = x % d;
    vstd::arithmetic::div_mod::lemma_fundamental_div_mod(x, d);
    vstd::arithmetic::div_mod::lemma_mod_bound(x, d);
    vstd::arithmetic::div_mod::lemma_div_pos_is_pos(x, d);
    assert(q == chunk_count(total, max_chunk));
    assert(x == d * q + r);
    assert(q * d >= total && (total > 0 ==> (q - 1) * d < total) && (total == 0 ==> q == 0) && (q
        == 0 ==> total == 0)) by (nonlinear_arith)
        requires
            x == d * q + r,
            0 <= r < d,
            x == total + d - 1,
            0 <= q,
            0 <= total,
    ;
    if (k as int) < q {
        assert(k * d < total) by (nonlinear_arith)
            requires
                0 <= k <= q - 1,
                (q - 1) * d < total,
                d > 0,
        ;
    } else {
        assert(k * d >= total) by (nonlinear_arith)
            requires
                k >= q,
                q * d >= total,
                d > 0,
        ;
    }
}

/// The first `n` chunks make up the payload as far as chunk `n` begins.
pub proof fn lemma_concat_chunks(bytes: Seq<u8>, max_chunk: nat, n: nat)
    requires
        max_chunk > 0,
    ensures
        concat_chunks(bytes, max_chunk, n) == bytes.subrange(
            0,
            chunk_start(bytes.len(), max_chunk, n) as int,
        ),
    decreases n,
{
    let total = bytes.len();
    if n == 0 {
        assert(0 * max_chunk == 0);
        assert(concat_chunks(bytes, max_chunk, 0) =~= bytes.subrange(0, 0));
    } else {
        let m = (n - 1) as nat;
        lemma_concat_chunks(bytes, max_chunk, m);
        lemma_chunk_starts_ordered(total, max_chunk, m);
        assert(concat_chunks(bytes, max_chunk, n) =~= bytes.subrange(
            0,
            chunk_start(total, max_chunk, n) as int,
        ));
    }
}

/// Chunk boundaries never go backwards and never pass the end.
pub proof fn lemma_chunk_starts_ordered(total: nat, max_chunk: nat, k: nat)
    requires
        max_chunk > 0,
    ensures
        chunk_start(total, max_chunk, k) <= chunk_start(total, max_chunk, k + 1) <= total,
{
    assert((k + 1) * max_chunk == k * max_chunk + max_chunk) by (nonlinear_arith);
}

/// Chunking: a payload of `L` bytes cut into chunks of at most `C` bytes
/// gives `L / C` chunks, rounded up; the chunks in order make up the
/// payload again; every chunk but the last is exactly `C` bytes long, and
/// the last holds at least one byte and at most `C`.
pub proof fn law_chunking(bytes: Seq<u8>, max_chunk: nat)
    requires
        max_chunk > 0,
    ensures
        ({
            let n = chunk_count(bytes.len(), max_chunk);
            &&& n * max_chunk >= bytes.len()
            &&& bytes.len() > 0 ==> (n - 1) * max_chunk < bytes.len()
            &&& concat_chunks(bytes, max_chunk, n) == bytes
            &&& forall|k: nat| k + 1 < n ==> (#[trigger] chunk(bytes, max_chunk, k)).len() == max_chunk
            &&& n > 0 ==> 0 < chunk(bytes, max_chunk, (n - 1) as nat).len() <= max_chunk
        }),
{
    let total = bytes.len();
    let n = chunk_count(total, max_chunk);
    lemma_chunk_count(total, max_chunk, n);
    lemma_concat_chunks(bytes, max_chunk, n);
    assert(bytes.subrange(0, total as int) =~= bytes);
    assert forall|k: nat| k + 1 < n implies (#[trigger] chunk(bytes, max_chunk, k)).len()
        == max_chunk by {
        lemma_chunk_count(total, max_chunk, k);
        lemma_chunk_count(total, max_chunk, k + 1);
        assert((k + 1) * max_chunk == k * max_chunk + max_chunk) by (nonlinear_arith);
    }
    if n > 0 {
        let last = (n - 1) as nat;
        lemma_chunk_count(total, max_chunk, last);
        lemma_chunk_step(total, max_chunk, last);
    }
}

/// Once a transfer has ended, further results change nothing and no chunk
/// is offered any more.
pub proof fn lemma_ended_stays(view: SendView, outcomes: Seq<bool>)
    requires
        view.pending() is None,
    ensures
        view.run(outcomes) == view,
        view.attempts(outcomes) == Seq::<(nat, nat)>::empty(),
    decreases outcomes.len(),
{
    if outcomes.len() > 0 {
        lemma_ended_stays(view, outcomes.skip(1));
    }
}

/// The trace of a transfer whose first `k` writes are delivered and whose
/// next write fails.
proof fn lemma_trace_failure(view: SendView, outcomes: Seq<bool>, k: nat)
    requires
        view.wf(),
        !view.failed,
        k < outcomes.len(),
        forall|i: int| 0 <= i < k ==> outcomes[i],
        !outcomes[k as int],
        (view.acked + k) * view.max_chunk < view.total,
    ensures
        view.attempts(outcomes) == Seq::new(
            k + 1,
            |i: int| chunk_range(view.total, view.max_chunk, view.acked + i as nat),
        ),
        view.run(outcomes) == (SendView { acked: view.acked + k, failed: true, ..view }),
    decreases k,
{
    let total = view.total;
    let max_chunk = view.max_chunk;
    assert(view.acked * max_chunk < total) by (nonlinear_arith)
        requires
            (view.acked + k) * max_chunk < total,
            max_chunk > 0,
            k >= 0,
    ;
    let rest = outcomes.skip(1);
    let want = Seq::new(k + 1, |i: int| chunk_range(total, max_chunk, view.acked + i as nat));
    if k == 0 {
        let next = view.step(false);
        lemma_ended_stays(next, rest);
        assert(view.attempts(outcomes) =~= want);
    } else {
        let next = view.step(true);
        assert(next.wf());
        let m = (k - 1) as nat;
        assert(forall|i: int| 0 <= i < m ==> rest[i] == outcomes[i + 1]);
        assert(rest[m as int] == outcomes[k as int]);
        lemma_trace_failure(next, rest, m);
        assert(next.attempts(rest) == Seq::new(
            m + 1,
            |i: int| chunk_range(total, max_chunk, next.acked + i as nat),
        ));
        assert(view.attempts(outcomes) =~= want);
    }
}

/// The trace of a transfer all of whose remaining `m` writes are delivered.
proof fn lemma_trace_success(view: SendView, outcomes: Seq<bool>, m: nat)
    requires
        view.wf(),
        !view.failed,
        m <= outcomes.len(),
        forall|i: int| 0 <= i < m ==> outcomes[i],
        m == 0 ==> view.sent() == view.total,
        m > 0 ==> (view.acked + m - 1) * view.max_chunk < view.total <= (view.acked + m)
            * view.max_chunk,
    ensures
        view.attempts(outcomes) == Seq::new(
            m,
            |i: int| chunk_range(view.total, view.max_chunk, view.acked + i as nat),
        ),
        view.run(outcomes) == (SendView { acked: view.acked + m, ..view }),
        view.run(outcomes).sent() == view.total,
    decreases m,
{
    let total = view.total;
    let max_chunk = view.max_chunk;
    let want = Seq::new(m, |i: int| chunk_range(total, max_chunk, view.acked + i as nat));
    if m == 0 {
        lemma_ended_stays(view, outcomes);
        assert(view.attempts(outcomes) =~= want);
    } else {
        assert(view.acked * max_chunk < total) by (nonlinear_arith)
            requires
                (view.acked + m - 1) * max_chunk < total,
                max_chunk > 0,
                m >= 1,
        ;
        let rest = outcomes.skip(1);
        let next = view.step(true);
        assert(next.wf());
        let left = (m - 1) as nat;
        assert(forall|i: int| 0 <= i < left ==> rest[i] == outcomes[i + 1]);
        if left == 0 {
            assert((view.acked + 1) * max_chunk >= total);
        }
        lemma_trace_success(next, rest, left);
        assert(next.attempts(rest) == Seq::new(
            left,
            |i: int| chunk_range(total, max_chunk, next.acked + i as nat),
        ));
        assert(view.attempts(outcomes) =~= want);
    }
}

/// Ordered delivery: when every write is delivered, the transport sees each
/// chunk of the payload once, in the order of the payload: the first chunk
/// begins at offset 0, each later chunk begins where the one before it
/// ended, no chunk is empty, and the last ends with the payload. The
/// transfer then stands completed.
pub proof fn law_ordered_delivery(total: nat, max_chunk: nat, outcomes: Seq<bool>)
    requires
        0 < max_chunk <= usize::MAX,
        total <= usize::MAX,
        outcomes.len() >= chunk_count(total, max_chunk),
        forall|i: int| 0 <= i < chunk_count(total, max_chunk) ==> outcomes[i],
    ensures
        ({
            let n = chunk_count(total, max_chunk);
            let seen = SendView::start(total, max_chunk).attempts(outcomes);
            let end = SendView::start(total, max_chunk).run(outcomes);
            &&& seen == Seq::new(n, |i: int| chunk_range(total, max_chunk, i as nat))
            &&& n > 0 ==> seen[0].0 == 0 && seen[n - 1].1 == total
            &&& forall|i: int| 0 <= i < n ==> (#[trigger] seen[i]).0 < seen[i].1
            &&& forall|i: int| 0 <= i < n - 1 ==> (#[trigger] seen[i]).1 == seen[i + 1].0
            &&& !end.failed
            &&& end.acked == n
            &&& end.sent() == total
            &&& end.pending() is None
        }),
{
    let n = chunk_count(total, max_chunk);
    let view = SendView::start(total, max_chunk);
    lemma_chunk_count(total, max_chunk, n);
    assert(0 * max_chunk == 0);
    if n > 0 {
        lemma_chunk_count(total, max_chunk, (n - 1) as nat);
    }
    lemma_trace_success(view, outcomes, n);
    let seen = view.attempts(outcomes);
    assert forall|i: int| 0 <= i < n implies (#[trigger] seen[i]).0 < seen[i].1 by {
        lemma_chunk_count(total, max_chunk, i as nat);
        lemma_chunk_step(total, max_chunk, i as nat);
    }
    if n > 0 {
        lemma_chunk_count(total, max_chunk, 0);
        lemma_chunk_step(total, max_chunk, (n - 1) as nat);
    }
}

/// Abort on failure: when the write of chunk `k` fails after the chunks
/// before it were delivered, the transport has seen the chunks up to `k`
/// and sees none after it, whatever would have become of later writes; the
/// transfer stands failed, and the offset it reports is the number of bytes
/// in the chunks before `k`.
pub proof fn law_abort_on_failure(bytes: Seq<u8>, max_chunk: nat, outcomes: Seq<bool>, k: nat)
    requires
        0 < max_chunk <= usize::MAX,
        bytes.len() <= usize::MAX,
        k < chunk_count(bytes.len(), max_chunk),
        k < outcomes.len(),
        forall|i: int| 0 <= i < k ==> outcomes[i],
        !outcomes[k as int],
    ensures
        ({
            let total = bytes.len();
            let seen = SendView::start(total, max_chunk).attempts(outcomes);
            let end = SendView::start(total, max_chunk).run(outcomes);
            &&& seen == Seq::new(k + 1, |i: int| chunk_range(total, max_chunk, i as nat))
            &&& end.failed
            &&& end.pending() is None
            &&& end.sent() == concat_chunks(bytes, max_chunk, k).len()
            &&& end.sent() == k * max_chunk
        }),
{
    let total = bytes.len();
    let view = SendView::start(total, max_chunk);
    lemma_chunk_count(total, max_chunk, k);
    lemma_trace_failure(view, outcomes, k);
    lemma_concat_chunks(bytes, max_chunk, k);
}

/// Part of the advertised name by which the display is recognised.
pub const DEVICE_NAME_FILTER: &'static str = "IDM";

/// The service of the display that takes commands.
pub const COMMAND_SERVICE_UUID: &'static str = "000000fa-0000-1000-8000-00805f9b34fb";

/// The characteristic of that service that commands are written to.
pub const COMMAND_CHARACTERISTIC_UUID: &'static str = "0000fa02-0000-1000-8000-00805f9b34fb";

/// Whether `needle` occurs in `haystack` as a run of consecutive bytes.
pub open spec fn contains_bytes(haystack: Seq<u8>, needle: Seq<u8>) -> bool {
    exists|i: int|
        0 <= i && i + needle.len() <= haystack.len() && #[trigger] haystack.subrange(
            i,
            i + needle.len(),
        ) == needle
}

/// Whether an advertised name belongs to the display looked for: whether
/// `filter` occurs somewhere in `name`. An empty filter matches every name.
pub fn name_matches(name: &[u8], filter: &[u8]) -> (found: bool)
    ensures
        found == contains_bytes(name@, filter@),
{
    let n = name.len();
    let m = filter.len();
    if m > n {
        return false;
    }
    let mut i: usize = 0;
    while i <= n - m
        invariant
            m <= n,
            n == name@.len(),
            m == filter@.len(),
            i <= n - m + 1,
            forall|k: int| 0 <= k < i ==> #[trigger] name@.subrange(k, k + m) != filter@,
        decreases n - m + 1 - i,
    {
        let mut j: usize = 0;
        while j < m && name[i + j] == filter[j]
            invariant
                i + m <= n,
                n == name@.len(),
                m == filter@.len(),
                j <= m,
                forall|t: int| 0 <= t < j ==> name@[i + t] == filter@[t],
            decreases m - j,
        {
            j = j + 1;
        }
        if j == m {
            assert(name@.subrange(i as int, i + m) =~= filter@);
            return true;
        }
        assert(name@.subrange(i as int, i + m)[j as int] != filter@[j as int]);
        i = i + 1;
    }
    false
}

/// Timing of a connection, in the units of the link layer.
#[derive(Clone, Copy, Debug, PartialEq, Eq, Structural)]
pub struct ConnParams {
    pub min_interval: u16,
    pub max_interval: u16,
    pub latency: u16,
    pub timeout: u16,
}

/// The timing asked of the display once it is connected: an interval of
/// 120 units, no latency and a supervision timeout of 60 units.
pub fn display_conn_params() -> (params: ConnParams)
    ensures
        params == (ConnParams { min_interval: 120, max_interval: 120, latency: 0, timeout: 60 }),
{
    ConnParams { min_interval: 120, max_interval: 120, latency: 0, timeout: 60 }
}

/// How devices are looked for.
#[derive(Clone, Copy, Debug, PartialEq, Eq, Structural)]
pub struct ScanSettings {
    /// Ask advertisers for their scan response.
    pub active: bool,
    /// Report every advertiser once.
    pub filter_duplicates: bool,
    /// Only look for advertisers in limited discoverable mode.
    pub limited: bool,
    /// Time between the starts of two scan windows.
    pub interval: u16,
    /// Length of a scan window.
    pub window: u16,
    /// Time after which the scan gives up, in milliseconds.
    pub duration_ms: i32,
}

/// How the display is looked for: actively, nearly without pause, every
/// advertiser once, for one second.
pub fn display_scan_settings() -> (settings: ScanSettings)
    ensures
        settings == (ScanSettings {
            active: true,
            filter_duplicates: true,
            limited: false,
            interval: 100,
            window: 99,
            duration_ms: 1000,
        }),
{
    ScanSettings {
        active: true,
        filter_duplicates: true,
        limited: false,
        interval: 100,
        window: 99,
        duration_ms: 1000,
    }
}

/// The steps a connection to the display goes through.
#[derive(Clone, Copy, Debug, PartialEq, Eq, Structural)]
pub enum LinkState {
    /// Nothing is going on.
    Idle,
    /// The display is being looked for and connected to.
    Scanning,
    /// A session is open and no payload is under way.
    Connected,
    /// A payload is being written.
    Streaming,
    /// The session was lost.
    Disconnected,
}

/// What can happen to a connection.
#[derive(Clone, Copy, Debug, PartialEq, Eq, Structural)]
pub enum LinkEvent {
    /// The owner wants a session.
    ScanRequested,
    /// The scan ran out of time without a device whose name matches.
    ScanTimedOut,
    /// The scan could not be run.
    ScanFailed,
    /// The device found did not accept the connection.
    ConnectFailed,
    /// The device lacks the service or the characteristic for commands.
    EndpointMissing,
    /// The device is connected and its command characteristic is resolved.
    SessionOpened,
    /// The owner wants to send a payload.
    SendRequested,
    /// Every chunk of the payload was acknowledged.
    SendCompleted,
    /// A chunk failed after `offset` bytes and the payload was given up.
    SendAborted { offset: usize },
    /// The device went away.
    LinkLost,
}

/// Why a step of a connection failed or was refused.
#[derive(Clone, Copy, Debug, PartialEq, Eq, Structural)]
pub enum LinkError {
    /// No device with a matching name advertised before the scan ran out of
    /// time.
    ScanTimeout,
    /// The scan could not be run.
    ScanFailed,
    /// The connection could not be established.
    ConnectError,
    /// The device does not offer the expected service and characteristic.
    ProtocolMismatch,
    /// The payload was given up after `offset` bytes.
    SendFailed { offset: usize },
    /// The session was lost.
    Disconnected,
    /// A session is sought or open already.
    SessionActive,
    /// There is no session to send on.
    NotConnected,
    /// A payload is under way already.
    SendInProgress,
    /// The event cannot occur in this state.
    Unexpected,
}

/// The state after `event` and the error the event amounts to, if any. A
/// refused event leaves the state as it is.
pub open spec fn link_step(state: LinkState, event: LinkEvent) -> (LinkState, Option<LinkError>) {
    match (state, event) {
        (LinkState::Idle, LinkEvent::ScanRequested) => (LinkState::Scanning, None),
        (LinkState::Disconnected, LinkEvent::ScanRequested) => (LinkState::Scanning, None),
        (_, LinkEvent::ScanRequested) => (state, Some(LinkError::SessionActive)),
        (LinkState::Scanning, LinkEvent::ScanTimedOut) => (
            LinkState::Idle,
            Some(LinkError::ScanTimeout),
        ),
        (LinkState::Scanning, LinkEvent::ScanFailed) => (
            LinkState::Idle,
            Some(LinkError::ScanFailed),
        ),
        (LinkState::Scanning, LinkEvent::ConnectFailed) => (
            LinkState::Idle,
            Some(LinkError::ConnectError),
        ),
        (LinkState::Scanning, LinkEvent::EndpointMissing) => (
            LinkState::Idle,
            Some(LinkError::ProtocolMismatch),
        ),
        (LinkState::Scanning, LinkEvent::SessionOpened) => (LinkState::Connected, None),
        (LinkState::Connected, LinkEvent::SendRequested) => (LinkState::Streaming, None),
        (LinkState::Streaming, LinkEvent::SendRequested) => (
            state,
            Some(LinkError::SendInProgress),
        ),
        (_, LinkEvent::SendRequested) => (state, Some(LinkError::NotConnected)),
        (LinkState::Streaming, LinkEvent::SendCompleted) => (LinkState::Connected, None),
        (LinkState::Streaming, LinkEvent::SendAborted { offset }) => (
            LinkState::Connected,
            Some(LinkError::SendFailed { offset }),
        ),
        (LinkState::Connected, LinkEvent::LinkLost) => (
            LinkState::Disconnected,
            Some(LinkError::Disconnected),
        ),
        (LinkState::Streaming, LinkEvent::LinkLost) => (
            LinkState::Disconnected,
            Some(LinkError::Disconnected),
        ),
        _ => (state, Some(LinkError::Unexpected)),
    }
}

impl LinkState {
    /// Whether a session is open.
    pub open spec fn has_session(self) -> bool {
        self == LinkState::Connected || self == LinkState::Streaming
    }

    /// Takes the connection through one event. A scan begins only from
    /// rest or after a loss, never while a session is sought or open; a
    /// payload is accepted only on an open session with nothing under way;
    /// a failed scan or connection leads back to rest, from where only a
    /// new scan leads on; a failed payload leaves the session open; a lost
    /// link ends the session.
    pub fn on_event(self, event: LinkEvent) -> (next: (LinkState, Result<(), LinkError>))
        ensures
            next.0 == link_step(self, event).0,
            match link_step(self, event).1 {
                Some(error) => next.1 == Err::<(), LinkError>(error),
                None => next.1 == Ok::<(), LinkError>(()),
            },
    {
        match event {
            LinkEvent::ScanRequested => match self {
                LinkState::Idle | LinkState::Disconnected => (LinkState::Scanning, Ok(())),
                _ => (self, Err(LinkError::SessionActive)),
            },
            LinkEvent::SendRequested => match self {
                LinkState::Connected => (LinkState::Streaming, Ok(())),
                LinkState::Streaming => (self, Err(LinkError::SendInProgress)),
                _ => (self, Err(LinkError::NotConnected)),
            },
            LinkEvent::LinkLost => match self {
                LinkState::Connected | LinkState::Streaming => (
                    LinkState::Disconnected,
                    Err(LinkError::Disconnected),
                ),
                _ => (self, Err(LinkError::Unexpected)),
            },
            LinkEvent::SendCompleted => match self {
                LinkState::Streaming => (LinkState::Connected, Ok(())),
                _ => (self, Err(LinkError::Unexpected)),
            },
            LinkEvent::SendAborted { offset } => match self {
                LinkState::Streaming => (
                    LinkState::Connected,
                    Err(LinkError::SendFailed { offset }),
                ),
                _ => (self, Err(LinkError::Unexpected)),
            },
            _ => match self {
                LinkState::Scanning => match event {
                    LinkEvent::ScanTimedOut => (LinkState::Idle, Err(LinkError::ScanTimeout)),
                    LinkEvent::ScanFailed => (
                        LinkState::Idle,
                        Err(LinkError::ScanFailed),
                    ),
                    LinkEvent::ConnectFailed => (LinkState::Idle, Err(LinkError::ConnectError)),
                    LinkEvent::EndpointMissing => (
                        LinkState::Idle,
                        Err(LinkError::ProtocolMismatch),
                    ),
                    _ => (LinkState::Connected, Ok(())),
                },
                _ => (self, Err(LinkError::Unexpected)),
            },
        }
    }
}

/// One session at a time: a scan is taken up only when no session is open
/// and none is being sought, a payload only on an open session with no
/// payload under way, and a refused request changes nothing.
pub proof fn law_single_session(state: LinkState)
    ensures
        link_step(state, LinkEvent::ScanRequested).1 is None <==> (state == LinkState::Idle
            || state == LinkState::Disconnected),
        link_step(state, LinkEvent::ScanRequested).1 is Some ==> link_step(
            state,
            LinkEvent::ScanRequested,
        ).0 == state,
        link_step(state, LinkEvent::SendRequested).1 is None <==> state == LinkState::Connected,
        link_step(state, LinkEvent::SendRequested).1 is Some ==> link_step(
            state,
            LinkEvent::SendRequested,
        ).0 == state,
        state.has_session() ==> link_step(state, LinkEvent::ScanRequested).1 == Some(
            LinkError::SessionActive,
        ),
{
}

} // verus!
