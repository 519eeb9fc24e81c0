//! Parallel byte-range download engine: planning, work distribution and
//! progress accounting.
//!
//! The network and file transfers themselves are driven by the caller; this
//! module decides what each worker fetches next, keeps the chunk table
//! consistent, and derives every number that is reported to the user.
use vstd::prelude::*;
use crate::download_router::RoutingDecision;
use crate::text::{
    chars_of, clamp_i64, find, is_text, next_char, percent_decode, push_decimal, push_fixed2,
    push_str, slice_chars, spec_decimal, spec_find, spec_fixed2, spec_next_char,
    spec_percent_decode, spec_starts_with, spec_strip_end, spec_strip_start, spec_trim, starts_with,
    string_of, strip_end, strip_start, trim, CharClass,
};

verus! {

/// Upper bound on concurrent connections of one download.
pub const MAX_CONNECTIONS: u8 = 16;

/// Chunks are never planned smaller than this, except for the tail of a file.
pub const MIN_CHUNK_SIZE: u64 = 1048576;

/// A chunk that has failed this many times is not handed out again.
pub const MAX_CHUNK_RETRIES: u8 = 5;

/// One byte range of the remote resource, the unit of work of a worker.
#[derive(Debug, Clone, Copy, PartialEq, Eq, Structural)]
pub struct ChunkWork {
    /// First byte of the range.
    pub start: u64,
    /// Last byte of the range (inclusive).
    pub end: u64,
    /// A worker is fetching this chunk right now.
    pub in_progress: bool,
    /// The chunk has been fetched and written.
    pub completed: bool,
    /// Number of failed attempts so far.
    pub retries: u8,
}

impl ChunkWork {
    /// Number of bytes in the range.
    pub open spec fn len(self) -> int {
        self.end - self.start + 1
    }

    /// The range holds byte offset `b`.
    pub open spec fn covers(self, b: int) -> bool {
        self.start <= b <= self.end
    }

    /// A worker may take this chunk.
    pub open spec fn claimable(self) -> bool {
        !self.completed && !self.in_progress && self.retries < MAX_CHUNK_RETRIES
    }
}

/// Size of every chunk but the last, for a resource of `total` bytes fetched
/// over `conns` connections.
pub open spec fn spec_chunk_size(total: int, conns: int) -> int {
    if total / conns >= MIN_CHUNK_SIZE {
        total / conns
    } else {
        MIN_CHUNK_SIZE as int
    }
}

/// Number of chunks in the plan: `total` divided by the chunk size, rounded up.
pub open spec fn spec_chunk_count(total: int, conns: int) -> int {
    let cs = spec_chunk_size(total, conns);
    (total + cs - 1) / cs
}

/// First byte of chunk `i`.
pub open spec fn spec_chunk_start(total: int, conns: int, i: int) -> int {
    i * spec_chunk_size(total, conns)
}

/// Last byte of chunk `i`: one chunk size further on, cut off at the end of
/// the resource.
pub open spec fn spec_chunk_end(total: int, conns: int, i: int) -> int {
    let next = (i + 1) * spec_chunk_size(total, conns);
    if next <= total {
        next - 1
    } else {
        total - 1
    }
}

/// Chunk `i` of a fresh plan.
pub open spec fn spec_chunk(total: int, conns: int, i: int) -> ChunkWork {
    ChunkWork {
        start: spec_chunk_start(total, conns, i) as u64,
        end: spec_chunk_end(total, conns, i) as u64,
        in_progress: false,
        completed: false,
        retries: 0,
    }
}

/// The fresh plan for `total` bytes over `conns` connections.
pub open spec fn spec_chunks(total: int, conns: int) -> Seq<ChunkWork> {
    Seq::new(spec_chunk_count(total, conns) as nat, |i: int| spec_chunk(total, conns, i))
}

/// `chunks` tile the byte range `[0, total)`: they start at 0, each begins
/// right after its predecessor ends, none is empty, and the last one ends at
/// `total - 1`.
pub open spec fn tiles(chunks: Seq<ChunkWork>, total: int) -> bool {
    &&& (total == 0 <==> chunks.len() == 0)
    &&& chunks.len() > 0 ==> chunks[0].start == 0 && chunks[chunks.len() - 1].end == total - 1
    &&& forall|i: int| 0 <= i < chunks.len() ==> (#[trigger] chunks[i]).start <= chunks[i].end
    &&& forall|i: int|
        0 <= i < chunks.len() - 1 ==> (#[trigger] chunks[i]).end + 1 == chunks[i + 1].start
}

/// Some chunk of `chunks` holds byte offset `b`.
pub open spec fn covered(chunks: Seq<ChunkWork>, b: int) -> bool {
    exists|i: int| 0 <= i < chunks.len() && #[trigger] chunks[i].covers(b)
}

/// Sum of the lengths of `chunks`.
pub open spec fn total_len(chunks: Seq<ChunkWork>) -> int
    decreases chunks.len(),
{
    if chunks.len() == 0 {
        0
    } else {
        total_len(chunks.drop_last()) + chunks.last().len()
    }
}

proof fn lemma_count_bounds(total: int, cs: int, n: int)
    requires
        cs > 0,
        total >= 0,
        n >= 0,
        n * cs >= total,
        n > 0 ==> (n - 1) * cs < total,
    ensures
        (total + cs - 1) / cs == n,
{
    assert((total + cs - 1) / cs == n) by (nonlinear_arith)
        requires
            cs > 0,
            total >= 0,
            n >= 0,
            n * cs >= total,
            n > 0 ==> (n - 1) * cs < total,
    ;
}

proof fn lemma_count_props(total: int, cs: int)
    requires
        cs > 0,
        total >= 0,
    ensures
        ({
            let n = (total + cs - 1) / cs;
            &&& n >= 0
            &&& n * cs >= total
            &&& (n > 0 ==> (n - 1) * cs < total)
            &&& (total == 0 <==> n == 0)
        }),
{
    let n = (total + cs - 1) / cs;
    assert(n >= 0 && n * cs >= total && (n > 0 ==> (n - 1) * cs < total) && (total == 0 <==> n
        == 0)) by (nonlinear_arith)
        requires
            cs > 0,
            total >= 0,
            n == (total + cs - 1) / cs,
    ;
}

proof fn lemma_mul_step(i: int, j: int, cs: int)
    requires
        cs > 0,
        i < j,
    ensures
        (i + 1) * cs <= j * cs,
        i * cs + cs == (i + 1) * cs,
{
    assert((i + 1) * cs <= j * cs && i * cs + cs == (i + 1) * cs) by (nonlinear_arith)
        requires
            cs > 0,
            i < j,
    ;
}

/// Every chunk of a fresh plan lies inside the resource and fits in `u64`.
pub proof fn lemma_chunk_bounds(total: int, conns: int, i: int)
    requires
        0 <= total <= u64::MAX,
        1 <= conns,
        0 <= i < spec_chunk_count(total, conns),
    ensures
        0 <= spec_chunk_start(total, conns, i) <= spec_chunk_end(total, conns, i) < total,
        spec_chunk(total, conns, i).start == spec_chunk_start(total, conns, i),
        spec_chunk(total, conns, i).end == spec_chunk_end(total, conns, i),
        spec_chunk_end(total, conns, i) - spec_chunk_start(total, conns, i) + 1
            <= spec_chunk_size(total, conns),
{
    let cs = spec_chunk_size(total, conns);
    let n = spec_chunk_count(total, conns);
    lemma_count_props(total, cs);
    lemma_mul_step(i, n, cs);
    assert(i * cs >= 0) by (nonlinear_arith)
        requires
            i >= 0,
            cs > 0,
    ;
    assert((n - 1) * cs == n * cs - cs) by (nonlinear_arith);
}

/// The fresh plan tiles `[0, total)`: the chunks are pairwise disjoint,
/// contiguous, and together cover every byte of the resource exactly once.
pub proof fn lemma_plan_tiles(total: int, conns: int)
    requires
        0 <= total <= u64::MAX,
        1 <= conns,
    ensures
        tiles(spec_chunks(total, conns), total),
{
    let cs = spec_chunk_size(total, conns);
    let n = spec_chunk_count(total, conns);
    let chunks = spec_chunks(total, conns);
    lemma_count_props(total, cs);
    assert forall|i: int| 0 <= i < chunks.len() implies (#[trigger] chunks[i]).start
        <= chunks[i].end by {
        lemma_chunk_bounds(total, conns, i);
    }
    assert forall|i: int| 0 <= i < chunks.len() - 1 implies (#[trigger] chunks[i]).end + 1
        == chunks[i + 1].start by {
        lemma_chunk_bounds(total, conns, i);
        lemma_chunk_bounds(total, conns, i + 1);
        lemma_mul_step(i, i + 1, cs);
        lemma_mul_step(i, n - 1, cs);
        assert((n - 1) * cs < total);
    }
    if n > 0 {
        lemma_chunk_bounds(total, conns, 0);
        lemma_chunk_bounds(total, conns, n - 1);
        assert(0 * cs == 0) by (nonlinear_arith);
        assert((n - 1 + 1) * cs == n * cs) by (nonlinear_arith);
    }
}

/// In a tiling, chunk `j` begins after chunk `i` ends whenever `i < j`.
pub proof fn lemma_tiles_ordered(chunks: Seq<ChunkWork>, total: int, i: int, j: int)
    requires
        tiles(chunks, total),
        0 <= i < j < chunks.len(),
    ensures
        chunks[i].end < chunks[j].start,
    decreases j - i,
{
    if i + 1 < j {
        lemma_tiles_ordered(chunks, total, i, j - 1);
        assert(chunks[j - 1].start <= chunks[j - 1].end);
        assert(chunks[j - 1].end + 1 == chunks[j - 1 + 1].start);
    } else {
        assert(chunks[i].end + 1 == chunks[i + 1].start);
    }
}

/// In a tiling, the first `k` chunks end right before byte
/// `chunks[k].start`, so the chunks up to any point cover a prefix.
proof fn lemma_tiles_prefix_len(chunks: Seq<ChunkWork>, total: int, k: int)
    requires
        tiles(chunks, total),
        0 <= k <= chunks.len(),
    ensures
        total_len(chunks.take(k)) == (if k == 0 {
            0
        } else {
            chunks[k - 1].end + 1
        }),
    decreases k,
{
    if k == 0 {
        assert(chunks.take(0).len() == 0);
    } else {
        lemma_tiles_prefix_len(chunks, total, k - 1);
        assert(chunks.take(k).drop_last() =~= chunks.take(k - 1));
        assert(chunks.take(k).last() == chunks[k - 1]);
        if k - 1 > 0 {
            assert(chunks[k - 2].end + 1 == chunks[k - 2 + 1].start);
        }
    }
}

/// A tiling of `[0, total)` covers exactly the bytes below `total`, each by
/// exactly one chunk, and its lengths add up to `total`.
pub proof fn lemma_tiles_partition(chunks: Seq<ChunkWork>, total: int)
    requires
        tiles(chunks, total),
        total >= 0,
    ensures
        total_len(chunks) == total,
        forall|i: int, b: int|
            0 <= i < chunks.len() && (#[trigger] chunks[i].covers(b)) ==> 0 <= b < total,
        forall|i: int, j: int, b: int|
            0 <= i < chunks.len() && 0 <= j < chunks.len() && #[trigger] chunks[i].covers(b)
                && #[trigger] chunks[j].covers(b) ==> i == j,
        forall|b: int| 0 <= b < total ==> #[trigger] covered(chunks, b),
{
    lemma_tiles_prefix_len(chunks, total, chunks.len() as int);
    assert(chunks.take(chunks.len() as int) =~= chunks);
    assert forall|i: int, b: int| 0 <= i < chunks.len() && (#[trigger] chunks[i].covers(
        b,
    )) implies 0 <= b < total by {
        if i > 0 {
            lemma_tiles_ordered(chunks, total, 0, i);
        }
        if i < chunks.len() - 1 {
            lemma_tiles_ordered(chunks, total, i, chunks.len() - 1);
            assert(chunks[chunks.len() - 1].start <= chunks[chunks.len() - 1].end);
        }
    }
    assert forall|i: int, j: int, b: int|
        0 <= i < chunks.len() && 0 <= j < chunks.len() && #[trigger] chunks[i].covers(b)
            && #[trigger] chunks[j].covers(b) implies i == j by {
        if i < j {
            lemma_tiles_ordered(chunks, total, i, j);
        }
        if j < i {
            lemma_tiles_ordered(chunks, total, j, i);
        }
    }
    assert forall|b: int| 0 <= b < total implies #[trigger] covered(chunks, b) by {
        lemma_tiles_find(chunks, total, b, 0);
    }
}

/// Walking a tiling from chunk `k`, some chunk at or after `k` holds byte `b`
/// whenever `b` is not before that chunk's start.
proof fn lemma_tiles_find(chunks: Seq<ChunkWork>, total: int, b: int, k: int)
    requires
        tiles(chunks, total),
        0 <= k < chunks.len(),
        chunks[k].start <= b < total,
    ensures
        covered(chunks, b),
    decreases chunks.len() - k,
{
    if b <= chunks[k].end {
        assert(chunks[k].covers(b));
    } else {
        if k == chunks.len() - 1 {
            assert(chunks[k].end == total - 1);
        } else {
            assert(chunks[k].end + 1 == chunks[k + 1].start);
            lemma_tiles_find(chunks, total, b, k + 1);
        }
    }
}

/// Chunk-partition law: for a resource of any size, the planned chunks are
/// disjoint, their union is exactly `[0, total - 1]`, and their lengths add
/// up to `total`.
pub proof fn lemma_chunk_partition(total: int, conns: int)
    requires
        0 <= total <= u64::MAX,
        1 <= conns,
    ensures
        tiles(spec_chunks(total, conns), total),
        total_len(spec_chunks(total, conns)) == total,
        forall|i: int, b: int|
            0 <= i < spec_chunks(total, conns).len() && (#[trigger] spec_chunks(
                total,
                conns,
            )[i].covers(b)) ==> 0 <= b < total,
        forall|i: int, j: int, b: int|
            0 <= i < spec_chunks(total, conns).len() && 0 <= j < spec_chunks(total, conns).len()
                && #[trigger] spec_chunks(total, conns)[i].covers(b) && #[trigger] spec_chunks(
                total,
                conns,
            )[j].covers(b) ==> i == j,
        forall|b: int| 0 <= b < total ==> #[trigger] covered(spec_chunks(total, conns), b),
{
    lemma_plan_tiles(total, conns);
    lemma_tiles_partition(spec_chunks(total, conns), total);
}

/// Every chunk of a fresh plan but the last has exactly the planned chunk
/// size, which is at least `MIN_CHUNK_SIZE`.
pub proof fn lemma_chunk_min_size(total: int, conns: int, i: int)
    requires
        0 <= total <= u64::MAX,
        1 <= conns,
        0 <= i < spec_chunk_count(total, conns) - 1,
    ensures
        spec_chunks(total, conns)[i].len() == spec_chunk_size(total, conns),
        spec_chunks(total, conns)[i].len() >= MIN_CHUNK_SIZE,
{
    let cs = spec_chunk_size(total, conns);
    let n = spec_chunk_count(total, conns);
    lemma_count_props(total, cs);
    lemma_chunk_bounds(total, conns, i);
    lemma_mul_step(i, n - 1, cs);
}

/// Settings of the engine's HTTP clients.
#[derive(Debug, Clone, Copy, PartialEq, Eq, Structural)]
pub struct SNDEEngine {
    /// Whole-request timeout, in seconds.
    pub request_timeout_secs: u64,
    /// Connect timeout, in seconds.
    pub connect_timeout_secs: u64,
    /// Idle connections kept per host; never below the worker count.
    pub pool_max_idle_per_host: u8,
}

/// Which of the engine's two HTTP clients a download uses.
#[derive(Debug, Clone, Copy, PartialEq, Eq, Structural)]
pub enum ClientKind {
    /// May negotiate HTTP/2 and above.
    General,
    /// HTTP/1.1 only: one TCP connection per worker.
    Http1Only,
}

/// A chunk handed to a worker.
#[derive(Debug, Clone, Copy, PartialEq, Eq, Structural)]
pub struct ChunkClaim {
    /// Position of the chunk in the table.
    pub index: usize,
    /// First byte to request.
    pub start: u64,
    /// Last byte to request (inclusive).
    pub end: u64,
}

/// What a worker does next.
#[derive(Debug, Clone, Copy, PartialEq, Eq, Structural)]
pub enum WorkerStep {
    /// Fetch the claimed range, then report back with `finish_chunk`.
    Fetch(ChunkClaim),
    /// Nothing to take right now, but other workers are still busy: sleep
    /// briefly and ask again.
    Wait,
    /// Stop. The flag tells whether the worker leaves in good order
    /// (everything completed, or cancellation) or because some chunk ran
    /// out of attempts.
    Exit(bool),
}

/// The chunk table of one download together with its byte counter.
pub struct ChunkTable {
    /// The planned chunks, in file order.
    pub chunks: Vec<ChunkWork>,
    /// Size of the resource in bytes.
    pub total_size: u64,
    /// Bytes written so far by all workers.
    pub downloaded: u64,
}

/// `chunks` with chunk `i` marked as being fetched.
pub open spec fn with_claimed(chunks: Seq<ChunkWork>, i: int) -> Seq<ChunkWork> {
    chunks.update(i, ChunkWork { in_progress: true, ..chunks[i] })
}

/// `chunks` after the fetch of chunk `i` ended: completed on success, one
/// more retry on failure. A chunk that is not being fetched stays as it is.
pub open spec fn with_finished(chunks: Seq<ChunkWork>, i: int, success: bool) -> Seq<ChunkWork> {
    if 0 <= i < chunks.len() && chunks[i].in_progress {
        if success {
            chunks.update(i, ChunkWork { in_progress: false, completed: true, ..chunks[i] })
        } else {
            chunks.update(
                i,
                ChunkWork { in_progress: false, retries: (chunks[i].retries + 1) as u8, ..chunks[i] },
            )
        }
    } else {
        chunks
    }
}

/// `i` is the first chunk a worker may take.
pub open spec fn is_first_claimable(chunks: Seq<ChunkWork>, i: int) -> bool {
    &&& 0 <= i < chunks.len()
    &&& chunks[i].claimable()
    &&& forall|j: int| 0 <= j < i ==> !(#[trigger] chunks[j]).claimable()
}

/// No chunk can be taken.
pub open spec fn none_claimable(chunks: Seq<ChunkWork>) -> bool {
    forall|j: int| 0 <= j < chunks.len() ==> !(#[trigger] chunks[j]).claimable()
}

/// Every chunk is completed.
pub open spec fn all_completed(chunks: Seq<ChunkWork>) -> bool {
    forall|j: int| 0 <= j < chunks.len() ==> (#[trigger] chunks[j]).completed
}

/// Some chunk is being fetched.
pub open spec fn any_in_progress(chunks: Seq<ChunkWork>) -> bool {
    exists|j: int| 0 <= j < chunks.len() && (#[trigger] chunks[j]).in_progress
}

/// Two tables describe the same byte ranges.
pub open spec fn same_ranges(a: Seq<ChunkWork>, b: Seq<ChunkWork>) -> bool {
    &&& a.len() == b.len()
    &&& forall|j: int|
        0 <= j < a.len() ==> (#[trigger] a[j]).start == b[j].start && a[j].end == b[j].end
}

/// A table with the same byte ranges as a tiling is a tiling.
pub proof fn lemma_same_ranges_tiles(a: Seq<ChunkWork>, b: Seq<ChunkWork>, total: int)
    requires
        tiles(a, total),
        same_ranges(a, b),
    ensures
        tiles(b, total),
{
    assert forall|i: int| 0 <= i < b.len() implies (#[trigger] b[i]).start <= b[i].end by {
        assert(a[i].start <= a[i].end);
    }
    assert forall|i: int| 0 <= i < b.len() - 1 implies (#[trigger] b[i]).end + 1 == b[i
        + 1].start by {
        assert(a[i].end + 1 == a[i + 1].start);
    }
    if b.len() > 0 {
        assert(a[0].start == b[0].start);
        assert(a[a.len() - 1].end == b[b.len() - 1].end);
    }
}

/// Number of connections a download runs with: the recommendation, held
/// inside `[1, MAX_CONNECTIONS]`, or 1 when the server has no range support.
pub open spec fn spec_connection_count(recommended: u8, supports_range: bool) -> u8 {
    if !supports_range {
        1
    } else if recommended < 1 {
        1
    } else if recommended > MAX_CONNECTIONS {
        MAX_CONNECTIONS
    } else {
        recommended
    }
}

/// Length to which the output file is set before the first write, by size
/// tier: the whole file below 8 GiB, 4 GiB from there to below 32 GiB, and
/// nothing (`None`: the file grows as it is written) from 32 GiB on.
pub open spec fn spec_preallocation(size: u64) -> Option<u64> {
    if size < 8589934592 {
        Some(size)
    } else if size < 34359738368 {
        Some(4294967296u64)
    } else {
        None
    }
}

/// Progress in hundredths of a percent: `downloaded / total`, rounded down
/// and held at 100.00 %. An empty resource counts as 0.
pub open spec fn spec_progress(downloaded: u64, total: u64) -> int {
    if total == 0 {
        0
    } else if downloaded >= total {
        10000
    } else {
        downloaded * 10000 / (total as int)
    }
}

/// Progress never goes back while the byte counter does not.
pub proof fn lemma_progress_monotone(a: u64, b: u64, total: u64)
    requires
        a <= b,
    ensures
        spec_progress(a, total) <= spec_progress(b, total),
        0 <= spec_progress(a, total) <= 10000,
{
    if total > 0 {
        let t = total as int;
        if b < total {
            assert(a * 10000 / t <= b * 10000 / t) by (nonlinear_arith)
                requires
                    0 <= a <= b,
                    t > 0,
            ;
        }
        if a < total {
            assert(0 <= a * 10000 / t <= 10000) by (nonlinear_arith)
                requires
                    0 <= a < t,
            ;
        }
    }
}

impl SNDEEngine {
    /// The engine's standard settings: 300 s per request, 30 s to connect,
    /// and an idle pool as large as the connection limit.
    pub fn new() -> (e: Self)
        ensures
            e.request_timeout_secs == 300,
            e.connect_timeout_secs == 30,
            e.pool_max_idle_per_host == MAX_CONNECTIONS,
    {
        SNDEEngine {
            request_timeout_secs: 300,
            connect_timeout_secs: 30,
            pool_max_idle_per_host: MAX_CONNECTIONS,
        }
    }

    /// The client for a download: the HTTP/1.1-only one exactly when the
    /// routing decision forces HTTP/1.1.
    pub fn get_client(&self, force_http1: bool) -> (k: ClientKind)
        ensures
            k == (if force_http1 {
                ClientKind::Http1Only
            } else {
                ClientKind::General
            }),
    {
        if force_http1 {
            ClientKind::Http1Only
        } else {
            ClientKind::General
        }
    }

    /// Number of workers for a download.
    pub fn connection_count(&self, recommended: u8, supports_range: bool) -> (n: u8)
        ensures
            n == spec_connection_count(recommended, supports_range),
            1 <= n <= MAX_CONNECTIONS,
    {
        if !supports_range {
            1
        } else if recommended < 1 {
            1
        } else if recommended > MAX_CONNECTIONS {
            MAX_CONNECTIONS
        } else {
            recommended
        }
    }

    /// Length to pre-allocate for a file of `size` bytes; `None` means the
    /// file is created empty.
    pub fn preallocation_len(&self, size: u64) -> (len: Option<u64>)
        ensures
            len == spec_preallocation(size),
    {
        if size < 8589934592 {
            Some(size)
        } else if size < 34359738368 {
            Some(4294967296u64)
        } else {
            None
        }
    }

    /// Splits `[0, total_size)` into chunks of `max(total_size /
    /// num_connections, MIN_CHUNK_SIZE)` bytes; the last chunk takes what
    /// is left.
    pub fn create_chunks(&self, total_size: u64, num_connections: u8) -> (chunks: Vec<ChunkWork>)
        requires
            num_connections >= 1,
        ensures
            chunks@ == spec_chunks(total_size as int, num_connections as int),
            tiles(chunks@, total_size as int),
            total_len(chunks@) == total_size,
    {
        let ghost total = total_size as int;
        let ghost conns = num_connections as int;
        let per_conn: u64 = total_size / (num_connections as u64);
        let chunk_size: u64 = if per_conn >= MIN_CHUNK_SIZE {
            per_conn
        } else {
            MIN_CHUNK_SIZE
        };
        let ghost cs = chunk_size as int;
        assert(cs == spec_chunk_size(total, conns));
        let mut chunks: Vec<ChunkWork> = Vec::new();
        let mut start: u64 = 0;
        proof {
            assert(0 * cs == 0) by (nonlinear_arith);
        }
        while start < total_size
            invariant
                cs == chunk_size,
                cs == spec_chunk_size(total, conns),
                cs > 0,
                total == total_size,
                conns == num_connections,
                conns >= 1,
                start <= total_size,
                start == (if chunks.len() * cs <= total {
                    chunks.len() * cs
                } else {
                    total
                }),
                chunks.len() > 0 ==> (chunks.len() - 1) * cs < total,
                forall|i: int|
                    0 <= i < chunks.len() ==> (#[trigger] chunks@[i]) == spec_chunk(total, conns, i),
            decreases total_size - start,
        {
            let ghost k = chunks.len() as int;
            let remaining: u64 = total_size - start;
            let len: u64 = if remaining < chunk_size {
                remaining
            } else {
                chunk_size
            };
            let end: u64 = start + (len - 1);
            proof {
                assert(k * cs + cs == (k + 1) * cs) by (nonlinear_arith);
                assert((k + 1 - 1) * cs == k * cs) by (nonlinear_arith);
                assert(start == k * cs);
                assert(start == spec_chunk_start(total, conns, k));
                assert(end == spec_chunk_end(total, conns, k));
            }
            chunks.push(
                ChunkWork { start, end, in_progress: false, completed: false, retries: 0 },
            );
            start = end + 1;
        }
        proof {
            let n = chunks.len() as int;
            lemma_count_bounds(total, cs, n);
            assert(chunks@ =~= spec_chunks(total, conns));
            lemma_chunk_partition(total, conns);
        }
        chunks
    }
}

/// Chunk partition, at the end of a download: in a consistent table whose
/// chunks are all completed, every byte of the resource lies in exactly one
/// completed chunk, no chunk reaches beyond the resource, and the lengths of
/// the chunks add up to the size of the resource.
pub proof fn lemma_completed_table_covers(table: ChunkTable)
    requires
        table.wf(),
        all_completed(table.chunks@),
    ensures
        total_len(table.chunks@) == table.total_size,
        forall|b: int| 0 <= b < table.total_size ==> #[trigger] covered(table.chunks@, b),
        forall|i: int, j: int, b: int|
            0 <= i < table.chunks@.len() && 0 <= j < table.chunks@.len()
                && #[trigger] table.chunks@[i].covers(b) && #[trigger] table.chunks@[j].covers(b)
                ==> i == j,
        forall|i: int, b: int|
            0 <= i < table.chunks@.len() && (#[trigger] table.chunks@[i].covers(b)) ==> 0 <= b
                < table.total_size && table.chunks@[i].completed,
{
    lemma_tiles_partition(table.chunks@, table.total_size as int);
}

/// Position of the first chunk a worker may take, if there is one.
pub fn first_claimable(chunks: &Vec<ChunkWork>) -> (found: Option<usize>)
    ensures
        match found {
            Some(i) => is_first_claimable(chunks@, i as int),
            None => none_claimable(chunks@),
        },
{
    let mut i: usize = 0;
    while i < chunks.len()
        invariant
            i <= chunks.len(),
            forall|j: int| 0 <= j < i ==> !(#[trigger] chunks@[j]).claimable(),
        decreases chunks.len() - i,
    {
        let c = chunks[i];
        if !c.completed && !c.in_progress && c.retries < MAX_CHUNK_RETRIES {
            return Some(i);
        }
        i += 1;
    }
    None
}

impl ChunkTable {
    /// The table is consistent: its chunks tile the resource, a chunk being
    /// fetched is neither completed nor out of attempts, and no chunk has
    /// more than `MAX_CHUNK_RETRIES` failures.
    pub open spec fn wf(&self) -> bool {
        &&& tiles(self.chunks@, self.total_size as int)
        &&& forall|j: int|
            0 <= j < self.chunks@.len() ==> (#[trigger] self.chunks@[j]).retries
                <= MAX_CHUNK_RETRIES
        &&& forall|j: int|
            0 <= j < self.chunks@.len() && (#[trigger] self.chunks@[j]).in_progress
                ==> !self.chunks@[j].completed && self.chunks@[j].retries < MAX_CHUNK_RETRIES
    }

    /// A fresh table for `total_size` bytes over `num_connections` workers.
    pub fn new(total_size: u64, num_connections: u8) -> (t: Self)
        requires
            num_connections >= 1,
        ensures
            t.wf(),
            t.total_size == total_size,
            t.downloaded == 0,
            t.chunks@ == spec_chunks(total_size as int, num_connections as int),
    {
        let engine = SNDEEngine::new();
        let chunks = engine.create_chunks(total_size, num_connections);
        ChunkTable { chunks, total_size, downloaded: 0 }
    }

    /// Hands out the first chunk that is not completed, not being fetched
    /// and has attempts left, and marks it as being fetched.
    pub fn claim_next(&mut self) -> (claim: Option<ChunkClaim>)
        requires
            old(self).wf(),
        ensures
            final(self).wf(),
            final(self).total_size == old(self).total_size,
            final(self).downloaded == old(self).downloaded,
            match claim {
                Some(c) => {
                    &&& is_first_claimable(old(self).chunks@, c.index as int)
                    &&& c.start == old(self).chunks@[c.index as int].start
                    &&& c.end == old(self).chunks@[c.index as int].end
                    &&& final(self).chunks@ == with_claimed(old(self).chunks@, c.index as int)
                },
                None => {
                    &&& none_claimable(old(self).chunks@)
                    &&& final(self).chunks@ == old(self).chunks@
                },
            },
    {
        match first_claimable(&self.chunks) {
            Some(i) => {
                let c = self.chunks[i];
                self.chunks.set(i, ChunkWork { in_progress: true, ..c });
                proof {
                    lemma_same_ranges_tiles(
                        old(self).chunks@,
                        self.chunks@,
                        self.total_size as int,
                    );
                }
                Some(ChunkClaim { index: i, start: c.start, end: c.end })
            },
            None => None,
        }
    }

    /// Records how the fetch of chunk `index` ended.
    pub fn finish_chunk(&mut self, index: usize, success: bool)
        requires
            old(self).wf(),
        ensures
            final(self).wf(),
            final(self).total_size == old(self).total_size,
            final(self).downloaded == old(self).downloaded,
            final(self).chunks@ == with_finished(old(self).chunks@, index as int, success),
    {
        if index < self.chunks.len() {
            let c = self.chunks[index];
            if c.in_progress {
                if success {
                    self.chunks.set(index, ChunkWork { in_progress: false, completed: true, ..c });
                } else {
                    self.chunks.set(
                        index,
                        ChunkWork { in_progress: false, retries: c.retries + 1, ..c },
                    );
                }
                proof {
                    lemma_same_ranges_tiles(
                        old(self).chunks@,
                        self.chunks@,
                        self.total_size as int,
                    );
                }
            }
        }
    }

    /// Adds `n` freshly written bytes to the counter. The counter never
    /// goes down; it stops at `u64::MAX`.
    pub fn add_downloaded(&mut self, n: u64)
        ensures
            final(self).chunks == old(self).chunks,
            final(self).total_size == old(self).total_size,
            final(self).downloaded >= old(self).downloaded,
            final(self).downloaded == (if old(self).downloaded + n > u64::MAX {
                u64::MAX
            } else {
                (old(self).downloaded + n) as u64
            }),
    {
        if n > u64::MAX - self.downloaded {
            self.downloaded = u64::MAX;
        } else {
            self.downloaded = self.downloaded + n;
        }
    }

    /// Every chunk is completed.
    pub fn all_complete(&self) -> (b: bool)
        ensures
            b == all_completed(self.chunks@),
    {
        let mut i: usize = 0;
        while i < self.chunks.len()
            invariant
                i <= self.chunks.len(),
                forall|j: int| 0 <= j < i ==> (#[trigger] self.chunks@[j]).completed,
            decreases self.chunks.len() - i,
        {
            if !self.chunks[i].completed {
                return false;
            }
            i += 1;
        }
        true
    }

    /// Some chunk is being fetched.
    pub fn any_in_progress(&self) -> (b: bool)
        ensures
            b == any_in_progress(self.chunks@),
    {
        let mut i: usize = 0;
        while i < self.chunks.len()
            invariant
                i <= self.chunks.len(),
                forall|j: int| 0 <= j < i ==> !(#[trigger] self.chunks@[j]).in_progress,
            decreases self.chunks.len() - i,
        {
            if self.chunks[i].in_progress {
                return true;
            }
            i += 1;
        }
        false
    }

    /// One turn of a worker's loop. On cancellation the worker leaves at
    /// once. Otherwise it takes the first chunk it may; with none to take
    /// it leaves in good order when everything is completed, waits while
    /// other workers are still fetching (their chunks may come back), and
    /// leaves with failure when the only chunks left are out of attempts.
    pub fn next_step(&mut self, cancelled: bool) -> (step: WorkerStep)
        requires
            old(self).wf(),
        ensures
            final(self).wf(),
            final(self).total_size == old(self).total_size,
            final(self).downloaded == old(self).downloaded,
            cancelled ==> step == WorkerStep::Exit(true) && final(self).chunks@ == old(
                self,
            ).chunks@,
            !cancelled ==> match step {
                WorkerStep::Fetch(c) => {
                    &&& is_first_claimable(old(self).chunks@, c.index as int)
                    &&& c.start == old(self).chunks@[c.index as int].start
                    &&& c.end == old(self).chunks@[c.index as int].end
                    &&& final(self).chunks@ == with_claimed(old(self).chunks@, c.index as int)
                },
                WorkerStep::Wait => {
                    &&& none_claimable(old(self).chunks@)
                    &&& any_in_progress(old(self).chunks@)
                    &&& final(self).chunks@ == old(self).chunks@
                },
                WorkerStep::Exit(ok) => {
                    &&& none_claimable(old(self).chunks@)
                    &&& !any_in_progress(old(self).chunks@)
                    &&& ok == all_completed(old(self).chunks@)
                    &&& final(self).chunks@ == old(self).chunks@
                },
            },
    {
        if cancelled {
            return WorkerStep::Exit(true);
        }
        match self.claim_next() {
            Some(c) => WorkerStep::Fetch(c),
            None => {
                if self.all_complete() {
                    proof {
                        assert forall|j: int| 0 <= j < self.chunks@.len() implies !(
                        #[trigger] self.chunks@[j]).in_progress by {
                            assert(self.chunks@[j].completed);
                        }
                    }
                    WorkerStep::Exit(true)
                } else if self.any_in_progress() {
                    WorkerStep::Wait
                } else {
                    WorkerStep::Exit(false)
                }
            },
        }
    }

    /// Progress of the download in hundredths of a percent.
    pub fn progress(&self) -> (p: u32)
        ensures
            p == spec_progress(self.downloaded, self.total_size),
            p <= 10000,
    {
        progress_of(self.downloaded, self.total_size)
    }
}

/// Progress in hundredths of a percent for `downloaded` of `total` bytes.
pub fn progress_of(downloaded: u64, total: u64) -> (p: u32)
    ensures
        p == spec_progress(downloaded, total),
        p <= 10000,
{
    if total == 0 {
        0
    } else if downloaded >= total {
        10000
    } else {
        let scaled: u128 = (downloaded as u128) * 10000;
        let q: u128 = scaled / (total as u128);
        proof {
            lemma_progress_monotone(downloaded, downloaded, total);
        }
        q as u32
    }
}

/// Bytes per second as a label: `B/s` below 1 KiB/s, otherwise two decimals
/// of the largest binary unit that fits.
pub open spec fn spec_format_speed(bps: u64) -> Seq<char> {
    if bps >= 1073741824 {
        spec_fixed2(bps as nat, 1073741824) + " GB/s"@
    } else if bps >= 1048576 {
        spec_fixed2(bps as nat, 1048576) + " MB/s"@
    } else if bps >= 1024 {
        spec_fixed2(bps as nat, 1024) + " KB/s"@
    } else {
        spec_decimal(bps as nat) + " B/s"@
    }
}

/// Seconds as a label: `1h 1m` from an hour on, `1m 30s` from a minute on,
/// `30s` below.
pub open spec fn spec_format_eta(seconds: u64) -> Seq<char> {
    if seconds >= 3600 {
        spec_decimal((seconds / 3600) as nat) + "h "@ + spec_decimal(((seconds % 3600) / 60) as nat)
            + "m"@
    } else if seconds >= 60 {
        spec_decimal((seconds / 60) as nat) + "m "@ + spec_decimal((seconds % 60) as nat) + "s"@
    } else {
        spec_decimal(seconds as nat) + "s"@
    }
}

/// Human-readable transfer speed.
pub fn format_speed(bps: u64) -> (label: String)
    ensures
        label@ == spec_format_speed(bps),
{
    let mut out: Vec<char> = Vec::new();
    if bps >= 1073741824 {
        push_fixed2(&mut out, bps, 1073741824);
        push_str(&mut out, " GB/s");
    } else if bps >= 1048576 {
        push_fixed2(&mut out, bps, 1048576);
        push_str(&mut out, " MB/s");
    } else if bps >= 1024 {
        push_fixed2(&mut out, bps, 1024);
        push_str(&mut out, " KB/s");
    } else {
        push_decimal(&mut out, bps as u128);
        push_str(&mut out, " B/s");
    }
    string_of(&out)
}

/// Human-readable remaining time.
pub fn format_eta(seconds: u64) -> (label: String)
    ensures
        label@ == spec_format_eta(seconds),
{
    let mut out: Vec<char> = Vec::new();
    if seconds >= 3600 {
        push_decimal(&mut out, (seconds / 3600) as u128);
        push_str(&mut out, "h ");
        push_decimal(&mut out, ((seconds % 3600) / 60) as u128);
        push_str(&mut out, "m");
    } else if seconds >= 60 {
        push_decimal(&mut out, (seconds / 60) as u128);
        push_str(&mut out, "m ");
        push_decimal(&mut out, (seconds % 60) as u128);
        push_str(&mut out, "s");
    } else {
        push_decimal(&mut out, seconds as u128);
        push_str(&mut out, "s");
    }
    string_of(&out)
}

/// Status carried by a progress event.
#[derive(Debug, Clone, Copy, PartialEq, Eq, Structural)]
pub enum ProgressStatus {
    Starting,
    Downloading,
    Merging,
    Completed,
    Failed,
    Cancelled,
}

impl ProgressStatus {
    /// The status as it is written in events.
    pub open spec fn spec_label(self) -> Seq<char> {
        match self {
            ProgressStatus::Starting => "starting"@,
            ProgressStatus::Downloading => "downloading"@,
            ProgressStatus::Merging => "merging"@,
            ProgressStatus::Completed => "completed"@,
            ProgressStatus::Failed => "failed"@,
            ProgressStatus::Cancelled => "cancelled"@,
        }
    }

    /// The status as it is written in events.
    pub fn label(&self) -> (s: String)
        ensures
            s@ == self.spec_label(),
    {
        match self {
            ProgressStatus::Starting => String::from_str("starting"),
            ProgressStatus::Downloading => String::from_str("downloading"),
            ProgressStatus::Merging => String::from_str("merging"),
            ProgressStatus::Completed => String::from_str("completed"),
            ProgressStatus::Failed => String::from_str("failed"),
            ProgressStatus::Cancelled => String::from_str("cancelled"),
        }
    }

    /// No event follows one with this status.
    pub open spec fn is_terminal(self) -> bool {
        self == ProgressStatus::Completed || self == ProgressStatus::Failed || self
            == ProgressStatus::Cancelled
    }
}

/// One progress event of a native download.
pub struct SNDEProgress {
    pub id: String,
    /// Hundredths of a percent, `0..=10000`.
    pub progress: u32,
    pub speed: String,
    pub eta: String,
    pub status: ProgressStatus,
    pub downloaded_bytes: i64,
    pub total_bytes: i64,
    pub active_connections: u8,
    pub engine_badge: String,
}

/// Result of a native download.
pub struct SNDEResult {
    pub success: bool,
    pub error: Option<String>,
    pub bytes_downloaded: u64,
    pub duration_ms: u64,
    pub avg_speed_kbps: u32,
}

/// Bytes per second over an interval: `delta * 1000 / elapsed_ms`, held at
/// `u64::MAX`.
pub open spec fn spec_speed_bps(delta: u64, elapsed_ms: u64) -> u64 {
    if elapsed_ms == 0 {
        0
    } else if delta * 1000 / (elapsed_ms as int) > u64::MAX {
        u64::MAX
    } else {
        (delta * 1000 / (elapsed_ms as int)) as u64
    }
}

/// Seconds left at the current speed; 0 when the speed is 0.
pub open spec fn spec_eta_secs(downloaded: u64, total: u64, speed_bps: u64) -> u64 {
    if speed_bps == 0 || downloaded >= total {
        0
    } else {
        ((total - downloaded) / (speed_bps as int)) as u64
    }
}

/// Average speed of a whole download in KiB/s: `bytes / 1024` per second,
/// held at `u32::MAX`; 0 for a download that took no time.
pub open spec fn spec_avg_speed_kbps(bytes: u64, duration_ms: u64) -> u32 {
    if duration_ms == 0 {
        0
    } else if bytes * 1000 / (1024 * duration_ms) > u32::MAX {
        u32::MAX
    } else {
        (bytes * 1000 / (1024 * duration_ms)) as u32
    }
}

/// Bytes per second over an interval.
pub fn speed_bps(delta: u64, elapsed_ms: u64) -> (v: u64)
    ensures
        v == spec_speed_bps(delta, elapsed_ms),
{
    if elapsed_ms == 0 {
        0
    } else {
        let q: u128 = (delta as u128) * 1000 / (elapsed_ms as u128);
        if q > 18446744073709551615 {
            18446744073709551615
        } else {
            q as u64
        }
    }
}

/// Seconds left at the current speed.
pub fn eta_secs(downloaded: u64, total: u64, speed: u64) -> (v: u64)
    ensures
        v == spec_eta_secs(downloaded, total, speed),
{
    if speed == 0 || downloaded >= total {
        0
    } else {
        (total - downloaded) / speed
    }
}

/// Average speed of a whole download in KiB/s.
pub fn avg_speed_kbps(bytes: u64, duration_ms: u64) -> (v: u32)
    ensures
        v == spec_avg_speed_kbps(bytes, duration_ms),
{
    if duration_ms == 0 {
        0
    } else {
        let q: u128 = (bytes as u128) * 1000 / (1024 * (duration_ms as u128));
        if q > 4294967295 {
            4294967295
        } else {
            q as u32
        }
    }
}

/// The reporter's memory between two ticks.
#[derive(Debug, Clone, Copy, PartialEq, Eq, Structural)]
pub struct ProgressReporter {
    /// Byte counter at the last emitted event.
    pub last_bytes: u64,
    /// Progress of the last emitted event, hundredths of a percent.
    pub last_progress: u32,
}

impl ProgressReporter {
    /// A reporter that has emitted nothing yet.
    pub fn new() -> (r: Self)
        ensures
            r.last_bytes == 0,
            r.last_progress == 0,
    {
        ProgressReporter { last_bytes: 0, last_progress: 0 }
    }

    /// One wake-up of the reporter, `elapsed_ms` after the last event, with
    /// the byte counter at `current_bytes`. With no time elapsed nothing is
    /// emitted. Otherwise the event carries the speed over the interval,
    /// the time left at that speed and the progress, which is never below
    /// that of the event before.
    pub fn tick(
        &mut self,
        id: &str,
        badge: &str,
        current_bytes: u64,
        total_size: u64,
        elapsed_ms: u64,
        connections: u8,
    ) -> (event: Option<SNDEProgress>)
        ensures
            elapsed_ms == 0 ==> event is None && *final(self) == *old(self),
            elapsed_ms > 0 ==> event is Some && ({
                let e = event->0;
                let delta = if current_bytes >= old(self).last_bytes {
                    (current_bytes - old(self).last_bytes) as u64
                } else {
                    0u64
                };
                let speed = spec_speed_bps(delta, elapsed_ms);
                &&& e.id@ == id@
                &&& e.engine_badge@ == badge@
                &&& e.status == ProgressStatus::Downloading
                &&& e.progress == final(self).last_progress
                &&& e.speed@ == spec_format_speed(speed)
                &&& e.eta@ == spec_format_eta(spec_eta_secs(current_bytes, total_size, speed))
                &&& e.downloaded_bytes == clamp_i64_spec(current_bytes)
                &&& e.total_bytes == clamp_i64_spec(total_size)
                &&& e.active_connections == connections
                &&& final(self).last_bytes == current_bytes
                &&& final(self).last_progress == (if spec_progress(current_bytes, total_size)
                    >= old(self).last_progress {
                    spec_progress(current_bytes, total_size)
                } else {
                    old(self).last_progress as int
                })
            }),
            final(self).last_progress >= old(self).last_progress,
            old(self).last_progress <= 10000 ==> final(self).last_progress <= 10000,
    {
        if elapsed_ms == 0 {
            proof {
                lemma_progress_monotone(self.last_bytes, self.last_bytes, total_size);
            }
            return None;
        }
        let delta: u64 = if current_bytes >= self.last_bytes {
            current_bytes - self.last_bytes
        } else {
            0
        };
        let speed = speed_bps(delta, elapsed_ms);
        let eta = eta_secs(current_bytes, total_size, speed);
        let now = progress_of(current_bytes, total_size);
        let shown: u32 = if now >= self.last_progress {
            now
        } else {
            self.last_progress
        };
        proof {
            lemma_progress_monotone(self.last_bytes, self.last_bytes, total_size);
        }
        self.last_bytes = current_bytes;
        self.last_progress = shown;
        Some(
            SNDEProgress {
                id: String::from_str(id),
                progress: shown,
                speed: format_speed(speed),
                eta: format_eta(eta),
                status: ProgressStatus::Downloading,
                downloaded_bytes: clamp_i64(current_bytes),
                total_bytes: clamp_i64(total_size),
                active_connections: connections,
                engine_badge: String::from_str(badge),
            },
        )
    }
}

/// `v` as an `i64`, held at `i64::MAX`.
pub open spec fn clamp_i64_spec(v: u64) -> i64 {
    if v > i64::MAX {
        i64::MAX
    } else {
        v as i64
    }
}

/// How a native download ended.
pub open spec fn spec_final_status(table: ChunkTable, cancelled: bool) -> ProgressStatus {
    if cancelled {
        ProgressStatus::Cancelled
    } else if all_completed(table.chunks@) && table.downloaded == table.total_size {
        ProgressStatus::Completed
    } else {
        ProgressStatus::Failed
    }
}

impl ChunkTable {
    /// How the download ended: cancelled when cancellation was signalled,
    /// completed when every chunk is completed and the bytes written equal
    /// the size of the resource, failed otherwise.
    pub fn final_status(&self, cancelled: bool) -> (s: ProgressStatus)
        ensures
            s == spec_final_status(*self, cancelled),
    {
        if cancelled {
            ProgressStatus::Cancelled
        } else if self.all_complete() && self.downloaded == self.total_size {
            ProgressStatus::Completed
        } else {
            ProgressStatus::Failed
        }
    }

    /// The terminal event: progress 100 % with status `completed`, or the
    /// fraction reached with `failed` or `cancelled`; no speed, no time
    /// left, no connection.
    pub fn final_event(&self, id: &str, badge: &str, cancelled: bool) -> (e: SNDEProgress)
        ensures
            e.id@ == id@,
            e.engine_badge@ == badge@,
            e.status == spec_final_status(*self, cancelled),
            e.status.is_terminal(),
            e.progress == (if e.status == ProgressStatus::Completed {
                10000
            } else {
                spec_progress(self.downloaded, self.total_size)
            }),
            e.speed@.len() == 0,
            e.eta@.len() == 0,
            e.downloaded_bytes == clamp_i64_spec(self.downloaded),
            e.total_bytes == clamp_i64_spec(self.total_size),
            e.active_connections == 0,
    {
        let status = self.final_status(cancelled);
        let progress: u32 = match status {
            ProgressStatus::Completed => 10000,
            _ => self.progress(),
        };
        SNDEProgress {
            id: String::from_str(id),
            progress,
            speed: String::new(),
            eta: String::new(),
            status,
            downloaded_bytes: clamp_i64(self.downloaded),
            total_bytes: clamp_i64(self.total_size),
            active_connections: 0,
            engine_badge: String::from_str(badge),
        }
    }

    /// The result handed back to the caller. The download succeeded exactly
    /// when it was not cancelled, every chunk is completed and the bytes
    /// written equal the size of the resource.
    pub fn result(&self, cancelled: bool, duration_ms: u64) -> (r: SNDEResult)
        ensures
            r.success == (spec_final_status(*self, cancelled) == ProgressStatus::Completed),
            r.success ==> r.bytes_downloaded == self.total_size && all_completed(self.chunks@),
            r.success <==> r.error is None,
            spec_final_status(*self, cancelled) == ProgressStatus::Cancelled ==> r.error->0@
                == "Download cancelled"@,
            spec_final_status(*self, cancelled) == ProgressStatus::Failed ==> r.error->0@
                == "Download incomplete"@,
            r.bytes_downloaded == self.downloaded,
            r.duration_ms == duration_ms,
            r.avg_speed_kbps == spec_avg_speed_kbps(self.downloaded, duration_ms),
    {
        let status = self.final_status(cancelled);
        let error = match status {
            ProgressStatus::Completed => None,
            ProgressStatus::Cancelled => Some(String::from_str("Download cancelled")),
            _ => Some(String::from_str("Download incomplete")),
        };
        SNDEResult {
            success: matches!(status, ProgressStatus::Completed),
            error,
            bytes_downloaded: self.downloaded,
            duration_ms,
            avg_speed_kbps: avg_speed_kbps(self.downloaded, duration_ms),
        }
    }
}

/// The name a server proposes in a `Content-Disposition` header, as it
/// stands in the header.
///
/// After the first `filename=`: the text behind any opening quotes, up to
/// the next quote or the end of the header, without surrounding white
/// space. Otherwise, after the first `filename*=`: the text between the
/// first `''` and the next one (or the end), percent-decoded; where the
/// decoded bytes are not UTF-8 the text is taken as it stands. A header
/// with neither parameter, or with `filename*=` and no `''`, proposes
/// nothing.
pub open spec fn spec_disposition_name(header: Seq<char>) -> Option<Seq<char>> {
    match spec_find(header, "filename="@) {
        Some(pos) => {
            let rest = header.skip(pos + "filename="@.len());
            let unquoted = spec_strip_start(rest, CharClass::Quote);
            Some(spec_trim(unquoted.take(spec_next_char(unquoted, '"', 0))))
        },
        None => match spec_find(header, "filename*="@) {
            Some(pos) => {
                let rest = header.skip(pos + "filename*="@.len());
                match spec_find(rest, "''"@) {
                    Some(q) => {
                        let tail = rest.skip(q + "''"@.len());
                        let value = match spec_find(tail, "''"@) {
                            Some(e) => tail.take(e),
                            None => tail,
                        };
                        match spec_percent_decode(value) {
                            Some(decoded) => Some(decoded),
                            None => Some(value),
                        }
                    },
                    None => None,
                }
            },
            None => None,
        },
    }
}

/// The last path component of `name`, with `/` and `\` both taken as
/// separators and trailing separators ignored; `download` where that
/// component is empty, `.` or `..`.
pub open spec fn spec_final_component(name: Seq<char>) -> Seq<char> {
    let trimmed = spec_strip_end(name, CharClass::PathSeparator);
    let parent = spec_strip_end(trimmed, CharClass::NotPathSeparator);
    let last = trimmed.skip(parent.len() as int);
    if last.len() == 0 || last == "."@ || last == ".."@ {
        "download"@
    } else {
        last
    }
}

/// The file name to store a download under, as far as the server proposes
/// one: the proposed name reduced to its last path component.
pub open spec fn spec_server_filename(header: Seq<char>) -> Option<Seq<char>> {
    match spec_disposition_name(header) {
        Some(name) => Some(spec_final_component(name)),
        None => None,
    }
}

/// The caller's output name is a stand-in that a server-provided name
/// replaces: it is empty, `download`, begins with `download_`, or the path
/// is a directory.
pub open spec fn spec_is_generic_name(file_name: Seq<char>, is_dir: bool) -> bool {
    is_dir || file_name.len() == 0 || file_name == "download"@ || spec_starts_with(
        file_name,
        "download_"@,
    )
}

/// The name a server proposes in a `Content-Disposition` header.
pub fn disposition_name(header: &str) -> (name: Option<String>)
    ensures
        name is Some == spec_disposition_name(header@) is Some,
        name is Some ==> name->0@ == spec_disposition_name(header@)->0,
{
    let h = chars_of(header);
    let key = chars_of("filename=");
    match find(&h, &key) {
        Some(pos) => {
            let rest = slice_chars(&h, pos + key.len(), h.len());
            let unquoted = strip_start(&rest, CharClass::Quote);
            let end = next_char(&unquoted, '"', 0);
            let piece = slice_chars(&unquoted, 0, end);
            let name = trim(&piece);
            proof {
                assert(h@.skip(pos + key@.len()) =~= h@.subrange(
                    pos + key@.len(),
                    h@.len() as int,
                ));
                assert(unquoted@.take(end as int) =~= unquoted@.subrange(0, end as int));
            }
            Some(string_of(&name))
        },
        None => {
            let star = chars_of("filename*=");
            match find(&h, &star) {
                Some(pos) => {
                    let rest = slice_chars(&h, pos + star.len(), h.len());
                    let sep = chars_of("''");
                    proof {
                        assert(h@.skip(pos + star@.len()) =~= h@.subrange(
                            pos + star@.len(),
                            h@.len() as int,
                        ));
                    }
                    match find(&rest, &sep) {
                        Some(q) => {
                            let tail = slice_chars(&rest, q + sep.len(), rest.len());
                            let value = match find(&tail, &sep) {
                                Some(e) => slice_chars(&tail, 0, e),
                                None => slice_chars(&tail, 0, tail.len()),
                            };
                            proof {
                                assert(rest@.skip(q + sep@.len()) =~= rest@.subrange(
                                    q + sep@.len(),
                                    rest@.len() as int,
                                ));
                                assert(tail@.subrange(0, tail@.len() as int) =~= tail@);
                                match spec_find(tail@, sep@) {
                                    Some(e) => {
                                        assert(tail@.take(e) =~= tail@.subrange(0, e));
                                    },
                                    None => {},
                                }
                            }
                            let raw = string_of(&value);
                            match percent_decode(raw.as_str()) {
                                Some(decoded) => Some(decoded),
                                None => Some(raw),
                            }
                        },
                        None => None,
                    }
                },
                None => None,
            }
        },
    }
}

/// The last path component of `name`; `download` where there is none.
pub fn final_component(name: &str) -> (out: String)
    ensures
        out@ == spec_final_component(name@),
{
    let n = chars_of(name);
    let trimmed = strip_end(&n, CharClass::PathSeparator);
    let parent = strip_end(&trimmed, CharClass::NotPathSeparator);
    let last = slice_chars(&trimmed, parent.len(), trimmed.len());
    proof {
        assert(trimmed@.skip(parent@.len() as int) =~= trimmed@.subrange(
            parent@.len() as int,
            trimmed@.len() as int,
        ));
    }
    if last.len() == 0 || is_text(&last, ".") || is_text(&last, "..") {
        String::from_str("download")
    } else {
        string_of(&last)
    }
}

/// The file name that the server proposes, safe to join to a directory.
pub fn server_filename(header: &str) -> (name: Option<String>)
    ensures
        name is Some == spec_server_filename(header@) is Some,
        name is Some ==> name->0@ == spec_server_filename(header@)->0,
{
    match disposition_name(header) {
        Some(n) => Some(final_component(n.as_str())),
        None => None,
    }
}

/// The caller's output name is a stand-in.
pub fn is_generic_name(file_name: &str, is_dir: bool) -> (b: bool)
    ensures
        b == spec_is_generic_name(file_name@, is_dir),
{
    let f = chars_of(file_name);
    let prefix = chars_of("download_");
    is_dir || f.len() == 0 || is_text(&f, "download") || starts_with(&f, &prefix)
}

/// A name that has gone through `spec_final_component` holds no path
/// separator, and is neither empty nor a dot entry: joined to a directory
/// it stays inside that directory.
pub proof fn lemma_final_component_safe(name: Seq<char>)
    ensures
        spec_final_component(name).len() > 0,
        spec_final_component(name) != "."@,
        spec_final_component(name) != ".."@,
        forall|i: int|
            0 <= i < spec_final_component(name).len() ==> (#[trigger] spec_final_component(
                name,
            )[i]) != '/' && spec_final_component(name)[i] != '\\',
{
    reveal_strlit("download");
    reveal_strlit(".");
    reveal_strlit("..");
    let trimmed = spec_strip_end(name, CharClass::PathSeparator);
    let parent = spec_strip_end(trimmed, CharClass::NotPathSeparator);
    crate::text::lemma_strip_end_prefix(trimmed, CharClass::NotPathSeparator);
    let last = trimmed.skip(parent.len() as int);
    assert forall|i: int| 0 <= i < last.len() implies !crate::text::in_class(
        CharClass::PathSeparator,
        #[trigger] last[i],
    ) by {
        assert(last[i] == trimmed[parent.len() + i]);
        assert(crate::text::in_class(CharClass::NotPathSeparator, trimmed[parent.len() + i]));
    }
}

/// A request to download with the native engine.
#[derive(Debug, Clone)]
pub struct SNDERequest {
    pub id: String,
    pub url: String,
    /// Where the file is to be written.
    pub output_path: String,
    pub routing_decision: RoutingDecision,
}

/// Why the preparation of a download failed.
#[derive(Debug, Clone, Copy, PartialEq, Eq, Structural)]
pub enum PrepareError {
    /// The server answered the HEAD request with this status.
    BadStatus(u16),
    /// The server states no size, or none that is a number.
    NoContentLength,
}

/// What the HEAD request found out.
pub struct HeadProbe {
    pub total_size: u64,
    pub supports_range: bool,
    /// The file name that the server proposes, reduced to its last path
    /// component.
    pub filename: Option<String>,
}

/// What the answer to a HEAD request says: refused unless the status is a
/// success and `Content-Length` a number; range support by `Accept-Ranges:
/// bytes`; the file name from `Content-Disposition`.
pub open spec fn spec_head_probe(
    status: u16,
    content_length: Option<Seq<char>>,
    accept_ranges: Option<Seq<char>>,
    content_disposition: Option<Seq<char>>,
) -> Result<(u64, bool, Option<Seq<char>>), PrepareError> {
    if !(200 <= status <= 299) {
        Err(PrepareError::BadStatus(status))
    } else {
        match content_length {
            None => Err(PrepareError::NoContentLength),
            Some(c) => match crate::text::spec_parse_u64(c) {
                None => Err(PrepareError::NoContentLength),
                Some(size) => Ok(
                    (
                        size,
                        accept_ranges == Some("bytes"@),
                        match content_disposition {
                            Some(h) => spec_server_filename(h),
                            None => None,
                        },
                    ),
                ),
            },
        }
    }
}

/// The text of an optional text.
pub open spec fn opt_str(s: Option<&str>) -> Option<Seq<char>> {
    match s {
        Some(t) => Some(t@),
        None => None,
    }
}

/// The directory part of a path: what stands before its last separator;
/// empty for a path without one.
pub open spec fn spec_parent(path: Seq<char>) -> Seq<char> {
    spec_strip_end(spec_strip_end(path, CharClass::NotPathSeparator), CharClass::PathSeparator)
}

/// The last part of a path.
pub open spec fn spec_file_name(path: Seq<char>) -> Seq<char> {
    path.skip(spec_strip_end(path, CharClass::NotPathSeparator).len() as int)
}

/// `name` inside the directory `dir`.
pub open spec fn spec_join(dir: Seq<char>, name: Seq<char>) -> Seq<char> {
    if dir.len() == 0 {
        name
    } else {
        dir + seq!['/'] + name
    }
}

/// Where the file is written: under the server's name, next to the place
/// the caller gave, where the caller's name is a stand-in and the
/// server proposes one; else where the caller said.
pub open spec fn spec_output_path(
    output_path: Seq<char>,
    is_dir: bool,
    server_filename: Option<Seq<char>>,
) -> Seq<char> {
    match server_filename {
        Some(name) => if spec_is_generic_name(spec_file_name(output_path), is_dir) {
            spec_join(spec_parent(output_path), name)
        } else {
            output_path
        },
        None => output_path,
    }
}

/// Everything that is settled before the first byte is fetched.
pub struct DownloadPlan {
    pub output_path: String,
    pub connections: u8,
    /// Length to set the output file to; `None` leaves it empty.
    pub preallocate: Option<u64>,
    pub client: ClientKind,
    pub table: ChunkTable,
}

impl HeadProbe {
    /// What the answer to a HEAD request says.
    pub fn from_headers(
        status: u16,
        content_length: Option<&str>,
        accept_ranges: Option<&str>,
        content_disposition: Option<&str>,
    ) -> (r: Result<HeadProbe, PrepareError>)
        ensures
            match spec_head_probe(
                status,
                opt_str(content_length),
                opt_str(accept_ranges),
                opt_str(content_disposition),
            ) {
                Ok(found) => r is Ok && r->Ok_0.total_size == found.0 && r->Ok_0.supports_range
                    == found.1 && (match (r->Ok_0.filename, found.2) {
                    (Some(a), Some(b)) => a@ == b,
                    (None, None) => true,
                    _ => false,
                }),
                Err(e) => r is Err && r->Err_0 == e,
            },
    {
        if !(200 <= status && status <= 299) {
            return Err(PrepareError::BadStatus(status));
        }
        let total_size = match content_length {
            None => {
                return Err(PrepareError::NoContentLength);
            },
            Some(c) => {
                let chars = chars_of(c);
                match crate::text::parse_u64(&chars) {
                    None => {
                        return Err(PrepareError::NoContentLength);
                    },
                    Some(v) => v,
                }
            },
        };
        let supports_range = match accept_ranges {
            Some(a) => {
                let chars = chars_of(a);
                is_text(&chars, "bytes")
            },
            None => false,
        };
        let filename = match content_disposition {
            Some(h) => server_filename(h),
            None => None,
        };
        Ok(HeadProbe { total_size, supports_range, filename })
    }
}

/// Where the file is written.
pub fn output_path_for(output_path: &str, is_dir: bool, server_filename: Option<&str>) -> (path:
    String)
    ensures
        path@ == spec_output_path(output_path@, is_dir, opt_str(server_filename)),
{
    match server_filename {
        Some(name) => {
            let p = chars_of(output_path);
            let dir_and_sep = strip_end(&p, CharClass::NotPathSeparator);
            let current = slice_chars(&p, dir_and_sep.len(), p.len());
            proof {
                assert(p@.skip(dir_and_sep@.len() as int) =~= p@.subrange(
                    dir_and_sep@.len() as int,
                    p@.len() as int,
                ));
            }
            let current_name = string_of(&current);
            if is_generic_name(current_name.as_str(), is_dir) {
                let mut dir = strip_end(&dir_and_sep, CharClass::PathSeparator);
                if dir.len() == 0 {
                    String::from_str(name)
                } else {
                    dir.push('/');
                    push_str(&mut dir, name);
                    proof {
                        assert(dir@ =~= spec_join(spec_parent(output_path@), name@));
                    }
                    string_of(&dir)
                }
            } else {
                String::from_str(output_path)
            }
        },
        None => String::from_str(output_path),
    }
}

impl SNDEEngine {
    /// Settles a download before its first byte: where the file goes, how
    /// many workers run, how much of the file is allocated up front, which
    /// client is used, and which chunks there are.
    pub fn plan(&self, request: &SNDERequest, probe: &HeadProbe, output_is_dir: bool) -> (plan:
        DownloadPlan)
        ensures
            plan.output_path@ == spec_output_path(
                request.output_path@,
                output_is_dir,
                match probe.filename {
                    Some(n) => Some(n@),
                    None => None,
                },
            ),
            plan.connections == spec_connection_count(
                request.routing_decision.recommended_connections,
                probe.supports_range,
            ),
            plan.preallocate == spec_preallocation(probe.total_size),
            plan.client == (if request.routing_decision.force_http1 {
                ClientKind::Http1Only
            } else {
                ClientKind::General
            }),
            plan.table.wf(),
            plan.table.total_size == probe.total_size,
            plan.table.downloaded == 0,
            plan.table.chunks@ == spec_chunks(probe.total_size as int, plan.connections as int),
    {
        let connections = self.connection_count(
            request.routing_decision.recommended_connections,
            probe.supports_range,
        );
        let output_path = match &probe.filename {
            Some(n) => output_path_for(request.output_path.as_str(), output_is_dir, Some(n.as_str())),
            None => output_path_for(request.output_path.as_str(), output_is_dir, None),
        };
        DownloadPlan {
            output_path,
            connections,
            preallocate: self.preallocation_len(probe.total_size),
            client: self.get_client(request.routing_decision.force_http1),
            table: ChunkTable::new(probe.total_size, connections),
        }
    }
}

/// The reporter wakes this often, in milliseconds.
pub const REPORT_INTERVAL_MS: u64 = 250;

/// A worker with nothing to take waits this long, in milliseconds.
pub const WORKER_WAIT_MS: u64 = 100;

/// The `Range` header for a chunk: `bytes=`, the first byte, `-`, the last
/// byte.
pub open spec fn spec_range_header(start: u64, end: u64) -> Seq<char> {
    "bytes="@ + spec_decimal(start as nat) + seq!['-'] + spec_decimal(end as nat)
}

/// The `Range` header for a chunk.
pub fn range_header(start: u64, end: u64) -> (header: String)
    ensures
        header@ == spec_range_header(start, end),
{
    let mut out: Vec<char> = Vec::new();
    push_str(&mut out, "bytes=");
    push_decimal(&mut out, start as u128);
    out.push('-');
    push_decimal(&mut out, end as u128);
    proof {
        assert(out@ =~= spec_range_header(start, end));
    }
    string_of(&out)
}

impl PrepareError {
    /// The error in words.
    pub open spec fn spec_message(self) -> Seq<char> {
        match self {
            PrepareError::BadStatus(status) => "HEAD request returned "@ + spec_decimal(
                status as nat,
            ),
            PrepareError::NoContentLength => "No Content-Length header"@,
        }
    }

    /// The error in words.
    pub fn message(&self) -> (text: String)
        ensures
            text@ == self.spec_message(),
    {
        let mut out: Vec<char> = Vec::new();
        match self {
            PrepareError::BadStatus(status) => {
                push_str(&mut out, "HEAD request returned ");
                push_decimal(&mut out, *status as u128);
            },
            PrepareError::NoContentLength => push_str(&mut out, "No Content-Length header"),
        }
        proof {
            assert(out@ =~= self.spec_message());
        }
        string_of(&out)
    }
}

impl ChunkTable {
    /// Whether the table is consistent.
    pub fn is_well_formed(&self) -> (b: bool)
        ensures
            b == self.wf(),
    {
        let n = self.chunks.len();
        if (self.total_size == 0) != (n == 0) {
            return false;
        }
        if n > 0 {
            if self.chunks[0].start != 0 {
                return false;
            }
            if self.total_size == 0 || self.chunks[n - 1].end != self.total_size - 1 {
                return false;
            }
        }
        let mut i: usize = 0;
        while i < n
            invariant
                i <= n,
                n == self.chunks@.len(),
                forall|j: int| 0 <= j < i ==> (#[trigger] self.chunks@[j]).start <= self.chunks@[j].end,
                forall|j: int|
                    0 <= j < i && j < n - 1 ==> (#[trigger] self.chunks@[j]).end + 1
                        == self.chunks@[j + 1].start,
                forall|j: int| 0 <= j < i ==> (#[trigger] self.chunks@[j]).retries <= MAX_CHUNK_RETRIES,
                forall|j: int|
                    0 <= j < i && (#[trigger] self.chunks@[j]).in_progress
                        ==> !self.chunks@[j].completed && self.chunks@[j].retries
                        < MAX_CHUNK_RETRIES,
            decreases n - i,
        {
            let c = self.chunks[i];
            if c.start > c.end || c.retries > MAX_CHUNK_RETRIES {
                return false;
            }
            if c.in_progress && (c.completed || c.retries >= MAX_CHUNK_RETRIES) {
                return false;
            }
            if i + 1 < n {
                if c.end == u64::MAX || c.end + 1 != self.chunks[i + 1].start {
                    return false;
                }
            }
            i += 1;
        }
        true
    }
}

} // verus!
