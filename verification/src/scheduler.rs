//! The global scheduler: a priority queue of downloads, admission under two
//! concurrency limits, and advisory bandwidth shares.
use vstd::prelude::*;
use crate::clock::unix_now_millis;
use crate::health_metrics::DownloadEngine;
use crate::text::{
    is_first_key, lemma_key_index_found, lemma_key_index_none, push_bounded, spec_key_index,
    spec_push_bounded, texts,
};

verus! {

/// At most this many downloads run at once.
pub const MAX_CONCURRENT_DOWNLOADS: usize = 3;

/// At most this many of the running downloads use the native engine.
pub const MAX_CONCURRENT_SNDE: usize = 2;

/// The log of completed downloads keeps this many ids, the most recent ones.
pub const MAX_COMPLETED_HISTORY: usize = 100;

/// How urgent a download is.
#[derive(Debug, Clone, Copy, PartialEq, Eq, PartialOrd, Ord, Hash, Structural)]
pub enum DownloadPriority {
    Low,
    Normal,
    High,
    Critical,
}

impl DownloadPriority {
    /// The priority as a number: 0 for low up to 3 for critical.
    pub open spec fn spec_rank(self) -> int {
        match self {
            DownloadPriority::Low => 0,
            DownloadPriority::Normal => 1,
            DownloadPriority::High => 2,
            DownloadPriority::Critical => 3,
        }
    }

    /// The priority as a number.
    pub fn rank(&self) -> (r: u8)
        ensures
            r == self.spec_rank(),
    {
        match self {
            DownloadPriority::Low => 0,
            DownloadPriority::Normal => 1,
            DownloadPriority::High => 2,
            DownloadPriority::Critical => 3,
        }
    }

    /// Percentage points added to the bandwidth share of a download.
    pub open spec fn spec_bonus(self) -> int {
        match self {
            DownloadPriority::Low => 0,
            DownloadPriority::Normal => 0,
            DownloadPriority::High => 10,
            DownloadPriority::Critical => 25,
        }
    }
}

impl Default for DownloadPriority {
    fn default() -> (p: Self)
        ensures
            p == DownloadPriority::Normal,
    {
        DownloadPriority::Normal
    }
}

/// A download known to the scheduler.
#[derive(Debug, Clone)]
pub struct QueuedDownload {
    pub id: String,
    pub url: String,
    pub priority: DownloadPriority,
    pub engine: DownloadEngine,
    /// Unix time of queueing, in milliseconds.
    pub queued_at: i64,
    /// Unix time of the start, in milliseconds.
    pub started_at: Option<i64>,
    pub estimated_size: Option<u64>,
}

/// The mathematical content of a `QueuedDownload`.
pub struct QueuedView {
    pub id: Seq<char>,
    pub url: Seq<char>,
    pub priority: DownloadPriority,
    pub engine: DownloadEngine,
    pub queued_at: i64,
    pub started_at: Option<i64>,
    pub estimated_size: Option<u64>,
}

impl View for QueuedDownload {
    type V = QueuedView;

    open spec fn view(&self) -> QueuedView {
        QueuedView {
            id: self.id@,
            url: self.url@,
            priority: self.priority,
            engine: self.engine,
            queued_at: self.queued_at,
            started_at: self.started_at,
            estimated_size: self.estimated_size,
        }
    }
}

impl QueuedDownload {
    /// A copy of the entry.
    pub fn duplicate(&self) -> (q: Self)
        ensures
            q == *self,
    {
        QueuedDownload {
            id: self.id.clone(),
            url: self.url.clone(),
            priority: self.priority,
            engine: self.engine,
            queued_at: self.queued_at,
            started_at: self.started_at,
            estimated_size: self.estimated_size,
        }
    }
}

/// What the scheduler tells its listeners.
#[derive(Debug, Clone)]
pub enum SchedulerEvent {
    /// A download may start.
    SlotAvailable,
    DownloadCompleted(String),
    DownloadFailed(String, String),
    PriorityChanged(String, DownloadPriority),
    Shutdown,
}

/// An advisory share of the bandwidth.
#[derive(Debug, Clone, Copy, PartialEq, Eq, Structural)]
pub struct BandwidthAllocation {
    /// Share of the total bandwidth, 0 to 100.
    pub bandwidth_percent: u8,
    pub max_connections: u8,
    pub is_throttled: bool,
}

/// The scheduler's counts at one moment.
#[derive(Debug, Clone, Copy, PartialEq, Eq, Structural)]
pub struct SchedulerStatus {
    pub queue_length: usize,
    pub active_count: usize,
    pub paused_count: usize,
    pub completed_count: usize,
    pub available_slots: usize,
}

/// The views of a list of entries.
pub open spec fn views(list: Seq<QueuedDownload>) -> Seq<QueuedView> {
    Seq::new(list.len(), |i: int| list[i]@)
}

/// The ids of a list of entries.
pub open spec fn ids(list: Seq<QueuedView>) -> Seq<Seq<char>> {
    Seq::new(list.len(), |i: int| list[i].id)
}

/// `a` may stand before `b` in the queue: its priority is higher, or the
/// same and it was queued no later.
pub open spec fn may_precede(a: QueuedView, b: QueuedView) -> bool {
    a.priority.spec_rank() > b.priority.spec_rank() || (a.priority.spec_rank()
        == b.priority.spec_rank() && a.queued_at <= b.queued_at)
}

/// The queue order: by priority, highest first, and first come first
/// served within a priority.
pub open spec fn ordered(queue: Seq<QueuedView>) -> bool {
    forall|i: int, j: int|
        0 <= i < j < queue.len() ==> may_precede(#[trigger] queue[i], #[trigger] queue[j])
}

/// Where `entry` goes into `queue`: before the first entry, at or after
/// `from`, that may not stand before it.
pub open spec fn spec_insert_pos(queue: Seq<QueuedView>, entry: QueuedView, from: int) -> int
    decreases queue.len() - from,
{
    if from >= queue.len() {
        queue.len() as int
    } else if !may_precede(queue[from], entry) {
        from
    } else {
        spec_insert_pos(queue, entry, from + 1)
    }
}

/// `queue` with `entry` in its place.
pub open spec fn spec_enqueue(queue: Seq<QueuedView>, entry: QueuedView) -> Seq<QueuedView> {
    queue.insert(spec_insert_pos(queue, entry, 0), entry)
}

/// Number of entries of `list` that run on a native engine.
pub open spec fn native_count(list: Seq<QueuedView>) -> int
    decreases list.len(),
{
    if list.len() == 0 {
        0
    } else {
        native_count(list.drop_last()) + (if list.last().engine.spec_is_native() {
            1int
        } else {
            0int
        })
    }
}

/// An entry of engine `engine` may start next to the running downloads
/// `active`: a general slot is free, and for a native engine a native slot
/// too.
pub open spec fn admissible(active: Seq<QueuedView>, engine: DownloadEngine) -> bool {
    active.len() < MAX_CONCURRENT_DOWNLOADS && (!engine.spec_is_native() || native_count(active)
        < MAX_CONCURRENT_SNDE)
}

/// Position of the first entry of `queue`, at or after `from`, that may
/// start next to `active`; the length of the queue where there is none.
pub open spec fn spec_first_admissible(
    queue: Seq<QueuedView>,
    active: Seq<QueuedView>,
    from: int,
) -> int
    decreases queue.len() - from,
{
    if from >= queue.len() {
        queue.len() as int
    } else if admissible(active, queue[from].engine) {
        from
    } else {
        spec_first_admissible(queue, active, from + 1)
    }
}

/// `list` without its first entry of id `id`.
pub open spec fn spec_without_id(list: Seq<QueuedView>, id: Seq<char>) -> Seq<QueuedView> {
    match spec_key_index(ids(list), id) {
        Some(i) => list.remove(i),
        None => list,
    }
}

/// The first entry of `list` with id `id`.
pub open spec fn spec_entry(list: Seq<QueuedView>, id: Seq<char>) -> Option<QueuedView> {
    match spec_key_index(ids(list), id) {
        Some(i) => Some(list[i]),
        None => None,
    }
}

/// Connections suggested for a bandwidth share: 2 up to 25 %, 4 up to 50 %,
/// 6 up to 75 %, 8 above.
pub open spec fn spec_share_connections(percent: int) -> int {
    if percent <= 25 {
        2
    } else if percent <= 50 {
        4
    } else if percent <= 75 {
        6
    } else {
        8
    }
}

/// The share of a running download: an equal part of 100 % for each running
/// download, plus the bonus of its priority, at most 100 %.
pub open spec fn spec_share_percent(active_count: int, priority: DownloadPriority) -> int {
    let total = if active_count < 1 {
        1
    } else {
        active_count
    };
    let base = 100int / total;
    if base + priority.spec_bonus() > 100 {
        100
    } else {
        base + priority.spec_bonus()
    }
}

/// The allocation for a download: its share when it runs, and a throttled
/// nothing when it does not.
pub open spec fn spec_allocation(active: Seq<QueuedView>, id: Seq<char>) -> BandwidthAllocation {
    match spec_entry(active, id) {
        Some(d) => {
            let percent = spec_share_percent(active.len() as int, d.priority);
            BandwidthAllocation {
                bandwidth_percent: percent as u8,
                max_connections: spec_share_connections(percent) as u8,
                is_throttled: false,
            }
        },
        None => BandwidthAllocation { bandwidth_percent: 0, max_connections: 1, is_throttled: true },
    }
}

/// The queue, the running and the paused downloads, and the log of
/// completed ones.
pub struct GlobalScheduler {
    /// Waiting downloads, in the order in which they will be considered.
    pub queue: Vec<QueuedDownload>,
    /// Running downloads. Each holds a general slot, and a native slot if
    /// its engine is native.
    pub active: Vec<QueuedDownload>,
    /// Ids of completed downloads, oldest first.
    pub completed: Vec<String>,
    pub paused: Vec<QueuedDownload>,
}

/// The mathematical content of a `GlobalScheduler`.
pub struct SchedulerView {
    pub queue: Seq<QueuedView>,
    pub active: Seq<QueuedView>,
    pub completed: Seq<Seq<char>>,
    pub paused: Seq<QueuedView>,
}

impl View for GlobalScheduler {
    type V = SchedulerView;

    open spec fn view(&self) -> SchedulerView {
        SchedulerView {
            queue: views(self.queue@),
            active: views(self.active@),
            completed: texts(self.completed@),
            paused: views(self.paused@),
        }
    }
}

impl SchedulerView {
    /// The scheduler's invariant: the queue is in order, no more downloads
    /// run than there are slots of either kind, and the log is bounded.
    pub open spec fn wf(self) -> bool {
        &&& ordered(self.queue)
        &&& self.active.len() <= MAX_CONCURRENT_DOWNLOADS
        &&& native_count(self.active) <= MAX_CONCURRENT_SNDE
        &&& self.completed.len() <= MAX_COMPLETED_HISTORY
    }

    /// General slots that are free.
    pub open spec fn available_slots(self) -> int {
        MAX_CONCURRENT_DOWNLOADS - self.active.len()
    }

    /// After a download was queued.
    pub open spec fn after_enqueue(self, entry: QueuedView) -> Self {
        SchedulerView { queue: spec_enqueue(self.queue, entry), ..self }
    }

    /// The entry that starts next, if one may.
    pub open spec fn next_to_start(self) -> Option<int> {
        let i = spec_first_admissible(self.queue, self.active, 0);
        if i < self.queue.len() {
            Some(i)
        } else {
            None
        }
    }

    /// After the next download was started at `now`.
    pub open spec fn after_start(self, now: i64) -> Self {
        match self.next_to_start() {
            Some(i) => SchedulerView {
                queue: self.queue.remove(i),
                active: self.active.push(QueuedView { started_at: Some(now), ..self.queue[i] }),
                ..self
            },
            None => self,
        }
    }

    /// The entry that starts at `now`, as it runs: the next to start, with
    /// the time of its start.
    pub open spec fn started_entry(self, now: i64) -> Option<QueuedView> {
        match self.next_to_start() {
            Some(i) => Some(QueuedView { started_at: Some(now), ..self.queue[i] }),
            None => None,
        }
    }

    /// After a download completed: it no longer runs, and its id is in the
    /// log. A download that was not running changes nothing.
    pub open spec fn after_complete(self, id: Seq<char>) -> Self {
        match spec_key_index(ids(self.active), id) {
            Some(i) => SchedulerView {
                active: self.active.remove(i),
                completed: spec_push_bounded(self.completed, id, MAX_COMPLETED_HISTORY as nat),
                ..self
            },
            None => self,
        }
    }

    /// After a download was paused: a running download gives up its slots,
    /// a waiting one leaves the queue; either is kept aside.
    pub open spec fn after_pause(self, id: Seq<char>) -> Self {
        match spec_key_index(ids(self.active), id) {
            Some(i) => SchedulerView {
                active: self.active.remove(i),
                paused: self.paused.push(self.active[i]),
                ..self
            },
            None => match spec_key_index(ids(self.queue), id) {
                Some(i) => SchedulerView {
                    queue: self.queue.remove(i),
                    paused: self.paused.push(self.queue[i]),
                    ..self
                },
                None => self,
            },
        }
    }

    /// After a paused download was resumed: it is back in the queue, in the
    /// place of its priority and queueing time.
    pub open spec fn after_resume(self, id: Seq<char>) -> Self {
        match spec_key_index(ids(self.paused), id) {
            Some(i) => SchedulerView {
                paused: self.paused.remove(i),
                queue: spec_enqueue(self.queue, self.paused[i]),
                ..self
            },
            None => self,
        }
    }

    /// After the priority of a download was set: in place for a running
    /// download; a waiting one moves to the place of its new priority.
    pub open spec fn after_set_priority(self, id: Seq<char>, priority: DownloadPriority) -> Self {
        match spec_key_index(ids(self.active), id) {
            Some(i) => SchedulerView {
                active: self.active.update(i, QueuedView { priority, ..self.active[i] }),
                ..self
            },
            None => match spec_key_index(ids(self.queue), id) {
                Some(i) => SchedulerView {
                    queue: spec_enqueue(
                        self.queue.remove(i),
                        QueuedView { priority, ..self.queue[i] },
                    ),
                    ..self
                },
                None => self,
            },
        }
    }

    /// After a download was cancelled: gone from where it first is found
    /// among the running, the waiting and the paused downloads.
    pub open spec fn after_cancel(self, id: Seq<char>) -> Self {
        if spec_key_index(ids(self.active), id) is Some {
            SchedulerView { active: spec_without_id(self.active, id), ..self }
        } else if spec_key_index(ids(self.queue), id) is Some {
            SchedulerView { queue: spec_without_id(self.queue, id), ..self }
        } else {
            SchedulerView { paused: spec_without_id(self.paused, id), ..self }
        }
    }

    /// The scheduler knows `id`.
    pub open spec fn knows(self, id: Seq<char>) -> bool {
        spec_key_index(ids(self.active), id) is Some || spec_key_index(ids(self.queue), id) is Some
            || spec_key_index(ids(self.paused), id) is Some
    }
}

/// Where an entry is inserted, every entry before may precede it, and the
/// entry at that place may not.
pub proof fn lemma_insert_pos(queue: Seq<QueuedView>, entry: QueuedView, from: int)
    requires
        0 <= from <= queue.len(),
    ensures
        from <= spec_insert_pos(queue, entry, from) <= queue.len(),
        forall|j: int|
            from <= j < spec_insert_pos(queue, entry, from) ==> may_precede(
                #[trigger] queue[j],
                entry,
            ),
        spec_insert_pos(queue, entry, from) < queue.len() ==> !may_precede(
            queue[spec_insert_pos(queue, entry, from)],
            entry,
        ),
    decreases queue.len() - from,
{
    if from < queue.len() && may_precede(queue[from], entry) {
        lemma_insert_pos(queue, entry, from + 1);
    }
}

/// Queueing keeps the queue in order, and keeps the entries that were
/// waiting in the order they had.
pub proof fn lemma_enqueue_ordered(queue: Seq<QueuedView>, entry: QueuedView)
    requires
        ordered(queue),
    ensures
        ordered(spec_enqueue(queue, entry)),
        spec_enqueue(queue, entry).len() == queue.len() + 1,
        spec_enqueue(queue, entry).remove(spec_insert_pos(queue, entry, 0)) == queue,
        spec_enqueue(queue, entry)[spec_insert_pos(queue, entry, 0)] == entry,
{
    let pos = spec_insert_pos(queue, entry, 0);
    lemma_insert_pos(queue, entry, 0);
    let out = spec_enqueue(queue, entry);
    assert(out.remove(pos) =~= queue);
    assert forall|i: int, j: int| 0 <= i < j < out.len() implies may_precede(
        #[trigger] out[i],
        #[trigger] out[j],
    ) by {
        if j == pos {
            assert(out[i] == queue[i]);
        } else if i == pos {
            assert(out[j] == queue[j - 1]);
            assert(!may_precede(queue[pos], entry));
            if j - 1 > pos {
                assert(may_precede(queue[pos], queue[j - 1]));
            }
        } else {
            let i0 = if i < pos {
                i
            } else {
                i - 1
            };
            let j0 = if j < pos {
                j
            } else {
                j - 1
            };
            assert(out[i] == queue[i0]);
            assert(out[j] == queue[j0]);
            assert(may_precede(queue[i0], queue[j0]));
        }
    }
}

/// Removing an entry keeps the queue in order.
pub proof fn lemma_remove_ordered(queue: Seq<QueuedView>, i: int)
    requires
        ordered(queue),
        0 <= i < queue.len(),
    ensures
        ordered(queue.remove(i)),
{
    let out = queue.remove(i);
    assert forall|a: int, b: int| 0 <= a < b < out.len() implies may_precede(
        #[trigger] out[a],
        #[trigger] out[b],
    ) by {
        let a0 = if a < i {
            a
        } else {
            a + 1
        };
        let b0 = if b < i {
            b
        } else {
            b + 1
        };
        assert(may_precede(queue[a0], queue[b0]));
    }
}

/// The first admissible entry is admissible, and no entry before it is.
pub proof fn lemma_first_admissible(queue: Seq<QueuedView>, active: Seq<QueuedView>, from: int)
    requires
        0 <= from <= queue.len(),
    ensures
        from <= spec_first_admissible(queue, active, from) <= queue.len(),
        forall|j: int|
            from <= j < spec_first_admissible(queue, active, from) ==> !admissible(
                active,
                (#[trigger] queue[j]).engine,
            ),
        spec_first_admissible(queue, active, from) < queue.len() ==> admissible(
            active,
            queue[spec_first_admissible(queue, active, from)].engine,
        ),
    decreases queue.len() - from,
{
    if from < queue.len() && !admissible(active, queue[from].engine) {
        lemma_first_admissible(queue, active, from + 1);
    }
}

/// Scheduler priority: the entry that starts is admissible, and of all
/// admissible entries of the queue it has the highest priority; among those
/// of its priority it was queued first.
pub proof fn lemma_start_picks_best(s: SchedulerView, j: int)
    requires
        s.wf(),
        s.next_to_start() is Some,
        0 <= j < s.queue.len(),
        admissible(s.active, s.queue[j].engine),
    ensures
        admissible(s.active, s.queue[s.next_to_start()->0].engine),
        s.queue[s.next_to_start()->0].priority.spec_rank() >= s.queue[j].priority.spec_rank(),
        s.queue[s.next_to_start()->0].priority == s.queue[j].priority ==> s.queue[s.next_to_start()->0].queued_at
            <= s.queue[j].queued_at,
        s.next_to_start()->0 <= j,
{
    lemma_first_admissible(s.queue, s.active, 0);
    let i = s.next_to_start()->0;
    if i < j {
        assert(may_precede(s.queue[i], s.queue[j]));
    }
}

/// Scheduler priority, the other way round: nothing starts only when no
/// entry of the queue is admissible.
pub proof fn lemma_no_start_means_none_admissible(s: SchedulerView, j: int)
    requires
        s.next_to_start() is None,
        0 <= j < s.queue.len(),
    ensures
        !admissible(s.active, s.queue[j].engine),
{
    lemma_first_admissible(s.queue, s.active, 0);
}

/// One more entry counts one more where its engine is native.
pub proof fn lemma_native_count_push(list: Seq<QueuedView>, x: QueuedView)
    ensures
        native_count(list.push(x)) == native_count(list) + (if x.engine.spec_is_native() {
            1int
        } else {
            0int
        }),
        native_count(list) >= 0,
    decreases list.len(),
{
    assert(list.push(x).drop_last() =~= list);
    if list.len() > 0 {
        lemma_native_count_push(list.drop_last(), list.last());
        assert(list.drop_last().push(list.last()) =~= list);
    }
}

/// One entry fewer counts one fewer where its engine is native.
pub proof fn lemma_native_count_remove(list: Seq<QueuedView>, i: int)
    requires
        0 <= i < list.len(),
    ensures
        native_count(list.remove(i)) == native_count(list) - (if list[i].engine.spec_is_native() {
            1int
        } else {
            0int
        }),
    decreases list.len(),
{
    if i == list.len() - 1 {
        assert(list.remove(i) =~= list.drop_last());
    } else {
        lemma_native_count_remove(list.drop_last(), i);
        assert(list.remove(i).drop_last() =~= list.drop_last().remove(i));
        assert(list.remove(i).last() == list.last());
    }
}

/// Changing an entry without changing its engine changes no count.
pub proof fn lemma_native_count_update(list: Seq<QueuedView>, i: int, x: QueuedView)
    requires
        0 <= i < list.len(),
        x.engine == list[i].engine,
    ensures
        native_count(list.update(i, x)) == native_count(list),
    decreases list.len(),
{
    if i == list.len() - 1 {
        assert(list.update(i, x).drop_last() =~= list.drop_last());
    } else {
        lemma_native_count_update(list.drop_last(), i, x);
        assert(list.update(i, x).drop_last() =~= list.drop_last().update(i, x));
        assert(list.update(i, x).last() == list.last());
    }
}

/// Position of the first entry of `list` with id `id`.
pub fn position_of(list: &Vec<QueuedDownload>, id: &str) -> (found: Option<usize>)
    ensures
        match found {
            Some(i) => spec_key_index(ids(views(list@)), id@) == Some(i as int) && i < list@.len(),
            None => spec_key_index(ids(views(list@)), id@) is None,
        },
{
    let key = String::from_str(id);
    let mut i: usize = 0;
    while i < list.len()
        invariant
            i <= list.len(),
            key@ == id@,
            forall|j: int| 0 <= j < i ==> ids(views(list@))[j] != id@,
        decreases list.len() - i,
    {
        if list[i].id == key {
            proof {
                assert(ids(views(list@))[i as int] == id@);
                assert(is_first_key(ids(views(list@)), id@, i as int));
                lemma_key_index_found(ids(views(list@)), id@, i as int);
            }
            return Some(i);
        }
        i += 1;
    }
    proof {
        lemma_key_index_none(ids(views(list@)), id@);
    }
    None
}

/// Number of entries of `list` that run on a native engine.
pub fn count_native(list: &Vec<QueuedDownload>) -> (n: usize)
    ensures
        n == native_count(views(list@)),
        n <= list@.len(),
{
    let mut n: usize = 0;
    let mut i: usize = 0;
    proof {
        assert(views(list@).take(0) =~= Seq::<QueuedView>::empty());
    }
    while i < list.len()
        invariant
            i <= list.len(),
            n <= i,
            n == native_count(views(list@).take(i as int)),
        decreases list.len() - i,
    {
        proof {
            let next = views(list@).take(i + 1);
            assert(next.drop_last() =~= views(list@).take(i as int));
            assert(next.last() == list@[i as int]@);
        }
        if list[i].engine.is_native() {
            n += 1;
        }
        i += 1;
    }
    proof {
        assert(views(list@).take(i as int) =~= views(list@));
    }
    n
}

/// Position of the first entry of `queue` that may start next to `active`;
/// the length of the queue where there is none.
pub fn first_admissible(queue: &Vec<QueuedDownload>, active: &Vec<QueuedDownload>) -> (pos: usize)
    ensures
        pos == spec_first_admissible(views(queue@), views(active@), 0),
        pos <= queue@.len(),
{
    let slot_free = active.len() < MAX_CONCURRENT_DOWNLOADS;
    let native_free = count_native(active) < MAX_CONCURRENT_SNDE;
    let mut i: usize = 0;
    while i < queue.len()
        invariant
            i <= queue.len(),
            slot_free == (views(active@).len() < MAX_CONCURRENT_DOWNLOADS),
            native_free == (native_count(views(active@)) < MAX_CONCURRENT_SNDE),
            spec_first_admissible(views(queue@), views(active@), 0) == spec_first_admissible(
                views(queue@),
                views(active@),
                i as int,
            ),
        decreases queue.len() - i,
    {
        let ok = slot_free && (!queue[i].engine.is_native() || native_free);
        proof {
            assert(views(queue@)[i as int] == queue@[i as int]@);
            assert(ok == admissible(views(active@), views(queue@)[i as int].engine));
        }
        if ok {
            return i;
        }
        i += 1;
    }
    i
}

/// Where `entry` goes into `queue`.
pub fn insert_pos(queue: &Vec<QueuedDownload>, entry: &QueuedDownload) -> (pos: usize)
    ensures
        pos == spec_insert_pos(views(queue@), entry@, 0),
        pos <= queue@.len(),
{
    let rank = entry.priority.rank();
    let mut i: usize = 0;
    while i < queue.len()
        invariant
            i <= queue.len(),
            rank == entry@.priority.spec_rank(),
            spec_insert_pos(views(queue@), entry@, 0) == spec_insert_pos(
                views(queue@),
                entry@,
                i as int,
            ),
        decreases queue.len() - i,
    {
        let r = queue[i].priority.rank();
        let before = r > rank || (r == rank && queue[i].queued_at <= entry.queued_at);
        proof {
            assert(views(queue@)[i as int] == queue@[i as int]@);
            assert(before == may_precede(views(queue@)[i as int], entry@));
        }
        if !before {
            return i;
        }
        i += 1;
    }
    i
}

/// Puts `entry` into `queue` at the place of its priority and queueing
/// time.
pub fn insert_ordered(queue: &mut Vec<QueuedDownload>, entry: QueuedDownload)
    ensures
        views(final(queue)@) == spec_enqueue(views(old(queue)@), entry@),
        ordered(views(old(queue)@)) ==> ordered(views(final(queue)@)),
{
    let pos = insert_pos(queue, &entry);
    let ghost before = views(queue@);
    let ghost e = entry@;
    queue.insert(pos, entry);
    proof {
        assert(views(queue@) =~= before.insert(pos as int, e));
        if ordered(before) {
            lemma_enqueue_ordered(before, e);
        }
    }
}

/// A queue is in order when each entry may stand before the next.
pub proof fn lemma_ordered_by_neighbours(queue: Seq<QueuedView>)
    requires
        forall|i: int|
            0 <= i < queue.len() - 1 ==> may_precede(#[trigger] queue[i], queue[i + 1]),
    ensures
        ordered(queue),
{
    assert forall|i: int, j: int| 0 <= i < j < queue.len() implies may_precede(
        #[trigger] queue[i],
        #[trigger] queue[j],
    ) by {
        lemma_ordered_span(queue, i, j);
    }
}

proof fn lemma_ordered_span(queue: Seq<QueuedView>, i: int, j: int)
    requires
        forall|k: int|
            0 <= k < queue.len() - 1 ==> may_precede(#[trigger] queue[k], queue[k + 1]),
        0 <= i < j < queue.len(),
    ensures
        may_precede(queue[i], queue[j]),
    decreases j - i,
{
    if i + 1 < j {
        lemma_ordered_span(queue, i, j - 1);
        assert(may_precede(queue[j - 1], queue[j - 1 + 1]));
    } else {
        assert(may_precede(queue[i], queue[i + 1]));
    }
}

impl GlobalScheduler {
    /// The invariant of the scheduler holds.
    pub open spec fn wf(&self) -> bool {
        self@.wf()
    }

    /// Whether the invariant of the scheduler holds.
    pub fn is_well_formed(&self) -> (b: bool)
        ensures
            b == self.wf(),
    {
        if self.active.len() > MAX_CONCURRENT_DOWNLOADS || count_native(&self.active)
            > MAX_CONCURRENT_SNDE || self.completed.len() > MAX_COMPLETED_HISTORY {
            return false;
        }
        let n = self.queue.len();
        let mut i: usize = 0;
        while i < n && i + 1 < n
            invariant
                i <= n,
                n == self.queue@.len(),
                forall|k: int|
                    0 <= k < i && k < n - 1 ==> may_precede(
                        #[trigger] self@.queue[k],
                        self@.queue[k + 1],
                    ),
            decreases n - i,
        {
            let a = &self.queue[i];
            let b = &self.queue[i + 1];
            let ra = a.priority.rank();
            let rb = b.priority.rank();
            proof {
                assert(self@.queue[i as int] == a@);
                assert(self@.queue[i + 1] == b@);
            }
            if !(ra > rb || (ra == rb && a.queued_at <= b.queued_at)) {
                return false;
            }
            i += 1;
        }
        proof {
            lemma_ordered_by_neighbours(self@.queue);
        }
        true
    }

    /// A scheduler with nothing queued and every slot free.
    pub fn new() -> (s: Self)
        ensures
            s.wf(),
            s@.queue.len() == 0,
            s@.active.len() == 0,
            s@.paused.len() == 0,
            s@.completed.len() == 0,
    {
        let s = GlobalScheduler {
            queue: Vec::new(),
            active: Vec::new(),
            completed: Vec::new(),
            paused: Vec::new(),
        };
        proof {
            assert(views(s.active@) =~= Seq::<QueuedView>::empty());
        }
        s
    }

    /// Queues a download at `now`. It goes behind every waiting download of
    /// higher priority and behind those of its own priority that were
    /// queued no later.
    pub fn enqueue_at(
        &mut self,
        id: String,
        url: String,
        engine: DownloadEngine,
        priority: DownloadPriority,
        estimated_size: Option<u64>,
        now: i64,
    )
        requires
            old(self).wf(),
        ensures
            final(self).wf(),
            final(self)@ == old(self)@.after_enqueue(
                QueuedView {
                    id: id@,
                    url: url@,
                    priority,
                    engine,
                    queued_at: now,
                    started_at: None,
                    estimated_size,
                },
            ),
    {
        let entry = QueuedDownload {
            id,
            url,
            priority,
            engine,
            queued_at: now,
            started_at: None,
            estimated_size,
        };
        insert_ordered(&mut self.queue, entry);
    }

    /// Queues a download now.
    pub fn enqueue(
        &mut self,
        id: String,
        url: String,
        engine: DownloadEngine,
        priority: DownloadPriority,
        estimated_size: Option<u64>,
    )
        requires
            old(self).wf(),
        ensures
            final(self).wf(),
            exists|now: i64|
                final(self)@ == old(self)@.after_enqueue(
                    #[trigger] new_entry(id@, url@, engine, priority, estimated_size, now),
                ),
    {
        let now = unix_now_millis();
        let ghost e = new_entry(id@, url@, engine, priority, estimated_size, now);
        self.enqueue_at(id, url, engine, priority, estimated_size, now);
        assert(self@ == old(self)@.after_enqueue(e));
    }

    /// Starts, at `now`, the first waiting download that may start: a
    /// general slot must be free, and a native slot too for a download on a
    /// native engine. The download leaves the queue and runs.
    pub fn try_start_next_at(&mut self, now: i64) -> (started: Option<QueuedDownload>)
        requires
            old(self).wf(),
        ensures
            final(self).wf(),
            final(self)@ == old(self)@.after_start(now),
            started is Some == old(self)@.next_to_start() is Some,
            started is Some ==> started->0@ == (QueuedView {
                started_at: Some(now),
                ..old(self)@.queue[old(self)@.next_to_start()->0]
            }),
    {
        if self.active.len() >= MAX_CONCURRENT_DOWNLOADS {
            proof {
                lemma_first_admissible(self@.queue, self@.active, 0);
            }
            return None;
        }
        let i = first_admissible(&self.queue, &self.active);
        if i >= self.queue.len() {
            return None;
        }
        let ghost before = self@;
        let mut download = self.queue.remove(i);
        download.started_at = Some(now);
        let out = download.duplicate();
        self.active.push(download);
        proof {
            lemma_first_admissible(before.queue, before.active, 0);
            assert(before.queue[i as int] == old(self).queue@[i as int]@);
            assert(out@ == (QueuedView { started_at: Some(now), ..before.queue[i as int] }));
            assert(self@.queue =~= before.queue.remove(i as int));
            assert(self@.active =~= before.active.push(out@));
            lemma_remove_ordered(before.queue, i as int);
            lemma_native_count_push(before.active, out@);
        }
        Some(out)
    }

    /// Starts the first waiting download that may start.
    pub fn try_start_next(&mut self) -> (started: Option<QueuedDownload>)
        requires
            old(self).wf(),
        ensures
            final(self).wf(),
            exists|now: i64|
                final(self)@ == #[trigger] old(self)@.after_start(now) && (match started {
                    Some(d) => Some(d@),
                    None => None,
                }) == old(self)@.started_entry(now),
            started is Some == old(self)@.next_to_start() is Some,
    {
        let now = unix_now_millis();
        let started = self.try_start_next_at(now);
        assert(self@ == old(self)@.after_start(now) && (match started {
            Some(d) => Some(d@),
            None => None,
        }) == old(self)@.started_entry(now));
        started
    }

    /// Marks a running download as completed, with or without success: its
    /// slots are free again, its id goes to the log, and the listeners are
    /// to be told that a slot is available.
    pub fn complete_download(&mut self, id: &str, success: bool) -> (event: SchedulerEvent)
        requires
            old(self).wf(),
        ensures
            final(self).wf(),
            final(self)@ == old(self)@.after_complete(id@),
            event is SlotAvailable,
    {
        let ghost before = self@;
        match position_of(&self.active, id) {
            Some(i) => {
                self.active.remove(i);
                push_bounded(&mut self.completed, String::from_str(id), MAX_COMPLETED_HISTORY);
                proof {
                    assert(self@.active =~= before.active.remove(i as int));
                    lemma_native_count_remove(before.active, i as int);
                }
            },
            None => {},
        }
        SchedulerEvent::SlotAvailable
    }

    /// Pauses a download. Tells whether the scheduler had it running or
    /// waiting.
    pub fn pause_download(&mut self, id: &str) -> (found: bool)
        requires
            old(self).wf(),
        ensures
            final(self).wf(),
            final(self)@ == old(self)@.after_pause(id@),
            found == (spec_key_index(ids(old(self)@.active), id@) is Some || spec_key_index(
                ids(old(self)@.queue),
                id@,
            ) is Some),
    {
        let ghost before = self@;
        match position_of(&self.active, id) {
            Some(i) => {
                let d = self.active.remove(i);
                self.paused.push(d);
                proof {
                    assert(self@.active =~= before.active.remove(i as int));
                    assert(self@.paused =~= before.paused.push(before.active[i as int]));
                    lemma_native_count_remove(before.active, i as int);
                }
                true
            },
            None => match position_of(&self.queue, id) {
                Some(i) => {
                    let d = self.queue.remove(i);
                    self.paused.push(d);
                    proof {
                        assert(self@.queue =~= before.queue.remove(i as int));
                        assert(self@.paused =~= before.paused.push(before.queue[i as int]));
                        lemma_remove_ordered(before.queue, i as int);
                    }
                    true
                },
                None => false,
            },
        }
    }

    /// Resumes a paused download: it waits again and is admitted like any
    /// other waiting download. Tells whether the download was paused.
    pub fn resume_download(&mut self, id: &str) -> (found: bool)
        requires
            old(self).wf(),
        ensures
            final(self).wf(),
            final(self)@ == old(self)@.after_resume(id@),
            found == spec_key_index(ids(old(self)@.paused), id@) is Some,
    {
        let ghost before = self@;
        match position_of(&self.paused, id) {
            Some(i) => {
                let d = self.paused.remove(i);
                insert_ordered(&mut self.queue, d);
                proof {
                    assert(self@.paused =~= before.paused.remove(i as int));
                }
                true
            },
            None => false,
        }
    }

    /// Sets the priority of a download.
    pub fn set_priority(&mut self, id: &str, priority: DownloadPriority)
        requires
            old(self).wf(),
        ensures
            final(self).wf(),
            final(self)@ == old(self)@.after_set_priority(id@, priority),
    {
        let ghost before = self@;
        match position_of(&self.active, id) {
            Some(i) => {
                let mut d = self.active[i].duplicate();
                d.priority = priority;
                let ghost dv = d@;
                self.active.set(i, d);
                proof {
                    assert(self@.active =~= before.active.update(i as int, dv));
                    assert(dv == (QueuedView { priority, ..before.active[i as int] }));
                    lemma_native_count_update(before.active, i as int, dv);
                }
            },
            None => match position_of(&self.queue, id) {
                Some(i) => {
                    let mut d = self.queue.remove(i);
                    d.priority = priority;
                    proof {
                        assert(views(self.queue@) =~= before.queue.remove(i as int));
                        lemma_remove_ordered(before.queue, i as int);
                    }
                    insert_ordered(&mut self.queue, d);
                },
                None => {},
            },
        }
    }

    /// The advisory bandwidth share of a download.
    pub fn get_bandwidth_allocation(&self, id: &str) -> (a: BandwidthAllocation)
        ensures
            a == spec_allocation(self@.active, id@),
            a.bandwidth_percent <= 100,
    {
        match position_of(&self.active, id) {
            Some(i) => {
                let total: usize = if self.active.len() < 1 {
                    1
                } else {
                    self.active.len()
                };
                let base: usize = 100 / total;
                let bonus: usize = match self.active[i].priority {
                    DownloadPriority::Low => 0,
                    DownloadPriority::Normal => 0,
                    DownloadPriority::High => 10,
                    DownloadPriority::Critical => 25,
                };
                let percent: usize = if base + bonus > 100 {
                    100
                } else {
                    base + bonus
                };
                let connections: u8 = if percent <= 25 {
                    2
                } else if percent <= 50 {
                    4
                } else if percent <= 75 {
                    6
                } else {
                    8
                };
                proof {
                    assert(self@.active[i as int] == self.active@[i as int]@);
                }
                BandwidthAllocation {
                    bandwidth_percent: percent as u8,
                    max_connections: connections,
                    is_throttled: false,
                }
            },
            None => BandwidthAllocation {
                bandwidth_percent: 0,
                max_connections: 1,
                is_throttled: true,
            },
        }
    }

    /// The scheduler's counts.
    pub fn get_status(&self) -> (s: SchedulerStatus)
        requires
            self.wf(),
        ensures
            s.queue_length == self@.queue.len(),
            s.active_count == self@.active.len(),
            s.paused_count == self@.paused.len(),
            s.completed_count == self@.completed.len(),
            s.available_slots == self@.available_slots(),
    {
        SchedulerStatus {
            queue_length: self.queue.len(),
            active_count: self.active.len(),
            paused_count: self.paused.len(),
            completed_count: self.completed.len(),
            available_slots: MAX_CONCURRENT_DOWNLOADS - self.active.len(),
        }
    }

    /// Cancels a download: it is removed from wherever the scheduler has
    /// it, and a running download gives up its slots. Tells whether the
    /// scheduler had the download.
    pub fn cancel_download(&mut self, id: &str) -> (found: bool)
        requires
            old(self).wf(),
        ensures
            final(self).wf(),
            final(self)@ == old(self)@.after_cancel(id@),
            found == old(self)@.knows(id@),
    {
        let ghost before = self@;
        match position_of(&self.active, id) {
            Some(i) => {
                self.active.remove(i);
                proof {
                    assert(self@.active =~= before.active.remove(i as int));
                    lemma_native_count_remove(before.active, i as int);
                }
                true
            },
            None => match position_of(&self.queue, id) {
                Some(i) => {
                    self.queue.remove(i);
                    proof {
                        assert(self@.queue =~= before.queue.remove(i as int));
                        lemma_remove_ordered(before.queue, i as int);
                    }
                    true
                },
                None => match position_of(&self.paused, id) {
                    Some(i) => {
                        self.paused.remove(i);
                        proof {
                            assert(self@.paused =~= before.paused.remove(i as int));
                        }
                        true
                    },
                    None => false,
                },
            },
        }
    }
}

/// The entry of a download queued at `now`.
pub open spec fn new_entry(
    id: Seq<char>,
    url: Seq<char>,
    engine: DownloadEngine,
    priority: DownloadPriority,
    estimated_size: Option<u64>,
    now: i64,
) -> QueuedView {
    QueuedView { id, url, priority, engine, queued_at: now, started_at: None, estimated_size }
}

impl Default for GlobalScheduler {
    fn default() -> (s: Self)
        ensures
            s.wf(),
            s@.queue.len() == 0,
            s@.active.len() == 0,
            s@.paused.len() == 0,
            s@.completed.len() == 0,
    {
        GlobalScheduler::new()
    }
}

} // verus!
