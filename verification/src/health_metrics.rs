//! Live health of running downloads: per-connection and aggregate numbers,
//! a bounded error log, and the throttling rules.
//!
//! The registry only observes. It never changes how a download runs; the
//! watchdog reads it and decides.
use vstd::prelude::*;
use crate::clock::{spec_time_label, time_label, unix_now};
use crate::text::{
    is_first_key, lemma_key_index_found, lemma_key_index_is_first, lemma_key_index_none,
    push_bounded, push_decimal, push_str, spec_decimal, spec_key_index, spec_push_bounded,
    string_of, texts,
};

verus! {

/// The error log keeps this many entries, the most recent ones.
pub const MAX_ERROR_LOG: usize = 50;

/// Health of one connection of a download.
#[derive(Debug, Clone, Copy, PartialEq, Eq, Structural)]
pub struct ConnectionHealth {
    /// Position of the connection, from 0.
    pub connection_id: u8,
    pub throughput_bps: u64,
    pub bytes_downloaded: u64,
    pub error_count: u32,
    pub retry_count: u32,
    /// Last HTTP status received; 0 before the first response.
    pub last_status_code: u16,
    pub is_stalled: bool,
    pub stall_duration_ms: u64,
}

impl Default for ConnectionHealth {
    fn default() -> (c: Self)
        ensures
            c == ConnectionHealth::idle(),
    {
        ConnectionHealth {
            connection_id: 0,
            throughput_bps: 0,
            bytes_downloaded: 0,
            error_count: 0,
            retry_count: 0,
            last_status_code: 0,
            is_stalled: false,
            stall_duration_ms: 0,
        }
    }
}

impl ConnectionHealth {
    /// A connection that has done nothing yet.
    pub open spec fn idle() -> ConnectionHealth {
        ConnectionHealth {
            connection_id: 0,
            throughput_bps: 0,
            bytes_downloaded: 0,
            error_count: 0,
            retry_count: 0,
            last_status_code: 0,
            is_stalled: false,
            stall_duration_ms: 0,
        }
    }
}

/// The engine that runs a download.
#[derive(Debug, Clone, Copy, PartialEq, Eq, Structural)]
pub enum DownloadEngine {
    /// Native engine, full parallelism.
    SNDE,
    /// Native engine in safe mode: one connection, HTTP/2 allowed.
    SNDESafe,
    /// The external media extractor.
    MediaEngine,
}

impl DownloadEngine {
    /// The label shown for the engine.
    pub open spec fn spec_badge(self) -> Seq<char> {
        match self {
            DownloadEngine::SNDE => "SNDE ACCELERATED"@,
            DownloadEngine::SNDESafe => "SNDE SAFE"@,
            DownloadEngine::MediaEngine => "MEDIA ENGINE"@,
        }
    }

    /// The label shown for the engine.
    pub fn badge(&self) -> (s: String)
        ensures
            s@ == self.spec_badge(),
    {
        match self {
            DownloadEngine::SNDE => String::from_str("SNDE ACCELERATED"),
            DownloadEngine::SNDESafe => String::from_str("SNDE SAFE"),
            DownloadEngine::MediaEngine => String::from_str("MEDIA ENGINE"),
        }
    }

    /// The engine is one of the two native ones.
    pub open spec fn spec_is_native(self) -> bool {
        self == DownloadEngine::SNDE || self == DownloadEngine::SNDESafe
    }

    /// The engine is one of the two native ones.
    pub fn is_native(&self) -> (b: bool)
        ensures
            b == self.spec_is_native(),
    {
        match self {
            DownloadEngine::SNDE => true,
            DownloadEngine::SNDESafe => true,
            DownloadEngine::MediaEngine => false,
        }
    }
}

/// Where a download stands.
#[derive(Debug, Clone, Copy, PartialEq, Eq, Structural)]
pub enum DownloadPhase {
    Preflight,
    Queued,
    Allocating,
    Downloading,
    Merging,
    PostProcessing,
    Completed,
    Failed,
    Paused,
    Cancelled,
}

/// Limits beyond which a download counts as throttled.
#[derive(Debug, Clone)]
pub struct ThrottlingThresholds {
    /// Aggregate throughput below this, in bytes per second, is throttling.
    pub min_throughput_bps: u64,
    /// More errors per minute than this is throttling.
    pub max_errors_per_minute: u32,
    pub max_retries_per_segment: u32,
    /// A connection stalled longer than this, in milliseconds, needs action.
    pub max_stall_duration_ms: u64,
    /// HTTP status codes by which a server says it throttles.
    pub throttle_status_codes: Vec<u16>,
}

impl Default for ThrottlingThresholds {
    /// 10 KB/s, 5 errors per minute, 3 retries, 30 s, and the status codes
    /// 429, 503 and 509.
    fn default() -> (t: Self)
        ensures
            t.min_throughput_bps == 10000,
            t.max_errors_per_minute == 5,
            t.max_retries_per_segment == 3,
            t.max_stall_duration_ms == 30000,
            t.throttle_status_codes@ == seq![429u16, 503u16, 509u16],
    {
        let mut codes: Vec<u16> = Vec::new();
        codes.push(429);
        codes.push(503);
        codes.push(509);
        proof {
            assert(codes@ =~= seq![429u16, 503u16, 509u16]);
        }
        ThrottlingThresholds {
            min_throughput_bps: 10000,
            max_errors_per_minute: 5,
            max_retries_per_segment: 3,
            max_stall_duration_ms: 30000,
            throttle_status_codes: codes,
        }
    }
}

impl ThrottlingThresholds {
    /// `code` is one of the throttling status codes.
    pub fn is_throttle_status(&self, code: u16) -> (b: bool)
        ensures
            b == self.throttle_status_codes@.contains(code),
    {
        let mut i: usize = 0;
        while i < self.throttle_status_codes.len()
            invariant
                i <= self.throttle_status_codes.len(),
                forall|j: int| 0 <= j < i ==> self.throttle_status_codes@[j] != code,
            decreases self.throttle_status_codes.len() - i,
        {
            if self.throttle_status_codes[i] == code {
                return true;
            }
            i += 1;
        }
        false
    }
}

/// What the health of a download suggests doing.
#[derive(Debug, Clone, PartialEq, Eq)]
pub enum WatchdogAction {
    /// Nothing: the download is healthy.
    NoAction,
    /// Cut the connections to this count.
    CollapseConnections(u8),
    /// Go on with one connection, HTTP/2 allowed.
    EnableSafeMode,
    /// Offer the user a switch to the media extractor.
    RecommendEngineSwitch,
    /// The download cannot go on; the text says why.
    CriticalFailure(String),
}

/// The mathematical content of a `WatchdogAction`.
pub enum ActionView {
    NoAction,
    CollapseConnections(u8),
    EnableSafeMode,
    RecommendEngineSwitch,
    CriticalFailure(Seq<char>),
}

impl View for WatchdogAction {
    type V = ActionView;

    open spec fn view(&self) -> ActionView {
        match self {
            WatchdogAction::NoAction => ActionView::NoAction,
            WatchdogAction::CollapseConnections(n) => ActionView::CollapseConnections(*n),
            WatchdogAction::EnableSafeMode => ActionView::EnableSafeMode,
            WatchdogAction::RecommendEngineSwitch => ActionView::RecommendEngineSwitch,
            WatchdogAction::CriticalFailure(s) => ActionView::CriticalFailure(s@),
        }
    }
}

impl WatchdogAction {
    /// The two actions are the same.
    pub fn same_as(&self, other: &WatchdogAction) -> (b: bool)
        ensures
            b == (self@ == other@),
    {
        match (self, other) {
            (WatchdogAction::NoAction, WatchdogAction::NoAction) => true,
            (WatchdogAction::CollapseConnections(a), WatchdogAction::CollapseConnections(b)) => *a
                == *b,
            (WatchdogAction::EnableSafeMode, WatchdogAction::EnableSafeMode) => true,
            (WatchdogAction::RecommendEngineSwitch, WatchdogAction::RecommendEngineSwitch) => true,
            (WatchdogAction::CriticalFailure(a), WatchdogAction::CriticalFailure(b)) => *a == *b,
            _ => false,
        }
    }

    /// A copy of the action.
    pub fn duplicate(&self) -> (a: Self)
        ensures
            a == *self,
    {
        match self {
            WatchdogAction::NoAction => WatchdogAction::NoAction,
            WatchdogAction::CollapseConnections(n) => WatchdogAction::CollapseConnections(*n),
            WatchdogAction::EnableSafeMode => WatchdogAction::EnableSafeMode,
            WatchdogAction::RecommendEngineSwitch => WatchdogAction::RecommendEngineSwitch,
            WatchdogAction::CriticalFailure(s) => WatchdogAction::CriticalFailure(s.clone()),
        }
    }
}

/// Health of one download.
#[derive(Debug, Clone)]
pub struct DownloadHealth {
    pub download_id: String,
    pub engine: DownloadEngine,
    /// Unix time at which tracking began, in seconds.
    pub started_at: i64,
    pub total_bytes: Option<u64>,
    pub downloaded_bytes: u64,
    pub active_connections: u8,
    /// Most connections the download ever had.
    pub peak_connections: u8,
    pub connection_health: Vec<ConnectionHealth>,
    /// Sum of the connections' throughput.
    pub total_throughput_bps: u64,
    pub total_errors: u32,
    pub total_retries: u32,
    /// A server answered with a throttling status code.
    pub throttling_detected: bool,
    /// How often the connections were cut.
    pub collapse_count: u8,
    pub safe_mode_active: bool,
    pub phase: DownloadPhase,
    /// The most recent messages, oldest first.
    pub error_log: Vec<String>,
}

/// The mathematical content of a `DownloadHealth`.
pub struct HealthView {
    pub download_id: Seq<char>,
    pub engine: DownloadEngine,
    pub started_at: i64,
    pub total_bytes: Option<u64>,
    pub downloaded_bytes: u64,
    pub active_connections: u8,
    pub peak_connections: u8,
    pub connection_health: Seq<ConnectionHealth>,
    pub total_throughput_bps: u64,
    pub total_errors: u32,
    pub total_retries: u32,
    pub throttling_detected: bool,
    pub collapse_count: u8,
    pub safe_mode_active: bool,
    pub phase: DownloadPhase,
    pub error_log: Seq<Seq<char>>,
}

impl View for DownloadHealth {
    type V = HealthView;

    open spec fn view(&self) -> HealthView {
        HealthView {
            download_id: self.download_id@,
            engine: self.engine,
            started_at: self.started_at,
            total_bytes: self.total_bytes,
            downloaded_bytes: self.downloaded_bytes,
            active_connections: self.active_connections,
            peak_connections: self.peak_connections,
            connection_health: self.connection_health@,
            total_throughput_bps: self.total_throughput_bps,
            total_errors: self.total_errors,
            total_retries: self.total_retries,
            throttling_detected: self.throttling_detected,
            collapse_count: self.collapse_count,
            safe_mode_active: self.safe_mode_active,
            phase: self.phase,
            error_log: texts(self.error_log@),
        }
    }
}

/// Sum of the throughput of `conns`.
pub open spec fn sum_throughput(conns: Seq<ConnectionHealth>) -> int
    decreases conns.len(),
{
    if conns.len() == 0 {
        0
    } else {
        sum_throughput(conns.drop_last()) + conns.last().throughput_bps
    }
}

/// Sum of the error counts of `conns`.
pub open spec fn sum_errors(conns: Seq<ConnectionHealth>) -> int
    decreases conns.len(),
{
    if conns.len() == 0 {
        0
    } else {
        sum_errors(conns.drop_last()) + conns.last().error_count
    }
}

/// Sum of the retry counts of `conns`.
pub open spec fn sum_retries(conns: Seq<ConnectionHealth>) -> int
    decreases conns.len(),
{
    if conns.len() == 0 {
        0
    } else {
        sum_retries(conns.drop_last()) + conns.last().retry_count
    }
}

/// `v` held at the top of `u64`.
pub open spec fn cap_u64(v: int) -> u64 {
    if v > u64::MAX {
        u64::MAX
    } else {
        v as u64
    }
}

/// `v` held at the top of `u32`.
pub open spec fn cap_u32(v: int) -> u32 {
    if v > u32::MAX {
        u32::MAX
    } else {
        v as u32
    }
}

/// `v` held at the top of `u8`.
pub open spec fn cap_u8(v: int) -> u8 {
    if v > u8::MAX {
        u8::MAX
    } else {
        v as u8
    }
}

/// `conns` grown with idle connections until it has a slot `id`, then with
/// `conn` in that slot.
pub open spec fn with_connection(conns: Seq<ConnectionHealth>, conn: ConnectionHealth) -> Seq<
    ConnectionHealth,
> {
    let id = conn.connection_id as int;
    let padded = if conns.len() <= id {
        conns + Seq::new((id + 1 - conns.len()) as nat, |i: int| ConnectionHealth::idle())
    } else {
        conns
    };
    padded.update(id, conn)
}

/// `log` with `entry` at its end, cut to the `MAX_ERROR_LOG` most recent
/// entries.
pub open spec fn log_with(log: Seq<Seq<char>>, entry: Seq<char>) -> Seq<Seq<char>> {
    spec_push_bounded(log, entry, MAX_ERROR_LOG as nat)
}

/// A log line: the time of day in square brackets, then the message.
pub open spec fn log_line(now: i64, message: Seq<char>) -> Seq<char> {
    seq!['['] + spec_time_label(now) + "] "@ + message
}

/// The message logged when the connections are cut to `count`.
pub open spec fn collapse_message(count: u8) -> Seq<char> {
    "Connections collapsed to "@ + spec_decimal(count as nat)
}

impl HealthView {
    /// What is tracked of a download that has just been registered.
    pub open spec fn fresh(
        download_id: Seq<char>,
        engine: DownloadEngine,
        total_bytes: Option<u64>,
        now: i64,
    ) -> HealthView {
        HealthView {
            download_id,
            engine,
            started_at: now,
            total_bytes,
            downloaded_bytes: 0,
            active_connections: 0,
            peak_connections: 0,
            connection_health: Seq::empty(),
            total_throughput_bps: 0,
            total_errors: 0,
            total_retries: 0,
            throttling_detected: false,
            collapse_count: 0,
            safe_mode_active: false,
            phase: DownloadPhase::Preflight,
            error_log: Seq::empty(),
        }
    }

    pub open spec fn with_phase(self, phase: DownloadPhase) -> Self {
        HealthView { phase, ..self }
    }

    pub open spec fn with_progress(self, downloaded_bytes: u64, throughput_bps: u64) -> Self {
        HealthView { downloaded_bytes, total_throughput_bps: throughput_bps, ..self }
    }

    /// After one connection reported: its slot holds the report, the
    /// connection count is the number of slots, the peak follows, and the
    /// aggregates are the sums over all slots (held at the top of their
    /// types).
    pub open spec fn with_connection(self, conn: ConnectionHealth) -> Self {
        let conns = with_connection(self.connection_health, conn);
        let active = cap_u8(conns.len() as int);
        HealthView {
            connection_health: conns,
            active_connections: active,
            peak_connections: if self.peak_connections >= active {
                self.peak_connections
            } else {
                active
            },
            total_throughput_bps: cap_u64(sum_throughput(conns)),
            total_errors: cap_u32(sum_errors(conns)),
            total_retries: cap_u32(sum_retries(conns)),
            ..self
        }
    }

    /// After an error: one more error, a line in the log, and the
    /// throttling flag set when the status code is a throttling one.
    pub open spec fn with_error(
        self,
        message: Seq<char>,
        status_code: Option<u16>,
        throttle_codes: Seq<u16>,
        now: i64,
    ) -> Self {
        HealthView {
            total_errors: cap_u32(self.total_errors + 1),
            error_log: log_with(self.error_log, log_line(now, message)),
            throttling_detected: self.throttling_detected || (status_code is Some
                && throttle_codes.contains(status_code->0)),
            ..self
        }
    }

    /// After the connections were cut to `new_count`.
    pub open spec fn with_collapse(self, new_count: u8, now: i64) -> Self {
        HealthView {
            active_connections: new_count,
            collapse_count: cap_u8(self.collapse_count + 1),
            error_log: log_with(self.error_log, log_line(now, collapse_message(new_count))),
            ..self
        }
    }

    /// After safe mode was switched; switching it on moves the download to
    /// the safe native engine.
    pub open spec fn with_safe_mode(self, enabled: bool) -> Self {
        HealthView {
            safe_mode_active: enabled,
            engine: if enabled {
                DownloadEngine::SNDESafe
            } else {
                self.engine
            },
            ..self
        }
    }

    /// Seconds since tracking began, at least 1.
    pub open spec fn elapsed_secs(self, now: i64) -> int {
        if now - self.started_at < 1 {
            1
        } else {
            now - self.started_at
        }
    }

    /// The throttling rule: a server sent a throttling status, or errors
    /// come faster than the limit per minute, or the download is in its
    /// downloading phase and moves fewer bytes per second than the minimum.
    pub open spec fn is_throttled(
        self,
        min_throughput_bps: u64,
        max_errors_per_minute: u32,
        now: i64,
    ) -> bool {
        ||| self.throttling_detected
        ||| self.total_errors * 60 > max_errors_per_minute * self.elapsed_secs(now)
        ||| (self.phase == DownloadPhase::Downloading && self.total_throughput_bps
            < min_throughput_bps)
    }

    /// Some connection has been stalled for longer than `max_stall_ms`.
    pub open spec fn any_long_stall(self, max_stall_ms: u64) -> bool {
        exists|i: int|
            0 <= i < self.connection_health.len() && (#[trigger] self.connection_health[i]).is_stalled
                && self.connection_health[i].stall_duration_ms > max_stall_ms
    }

    /// The recommendation for a download, rules in order:
    /// more than 20 errors with less than 1 KiB received is a critical
    /// failure; a throttled download in safe mode gets the engine switch
    /// recommended, one with several connections has them halved, one with
    /// a single connection goes to safe mode; a long stall costs one
    /// connection, or leads to safe mode from a single one; otherwise
    /// nothing.
    pub open spec fn recommendation(
        self,
        min_throughput_bps: u64,
        max_errors_per_minute: u32,
        max_stall_ms: u64,
        now: i64,
    ) -> ActionView {
        if self.total_errors > 20 && self.downloaded_bytes < 1024 {
            ActionView::CriticalFailure("Too many errors with no progress"@)
        } else if self.is_throttled(min_throughput_bps, max_errors_per_minute, now) {
            if self.safe_mode_active {
                ActionView::RecommendEngineSwitch
            } else if self.active_connections > 1 {
                ActionView::CollapseConnections((self.active_connections / 2) as u8)
            } else {
                ActionView::EnableSafeMode
            }
        } else if self.any_long_stall(max_stall_ms) {
            if self.active_connections > 1 {
                ActionView::CollapseConnections((self.active_connections - 1) as u8)
            } else {
                ActionView::EnableSafeMode
            }
        } else {
            ActionView::NoAction
        }
    }
}

impl Default for DownloadHealth {
    /// What is tracked of a download that has no id yet, on the media
    /// engine, stamped with the current time.
    fn default() -> (h: Self)
        ensures
            exists|now: i64|
                h@ == #[trigger] HealthView::fresh(
                    Seq::<char>::empty(),
                    DownloadEngine::MediaEngine,
                    None,
                    now,
                ),
    {
        let now = unix_now();
        let mut h = DownloadHealth::new("", DownloadEngine::MediaEngine, None, now);
        h.download_id = String::new();
        assert(h@ == HealthView::fresh(
            Seq::<char>::empty(),
            DownloadEngine::MediaEngine,
            None,
            now,
        ));
        h
    }
}

/// A copy of a list of strings.
pub fn copy_strings(v: &Vec<String>) -> (out: Vec<String>)
    ensures
        out@ == v@,
{
    let mut out: Vec<String> = Vec::new();
    let mut i: usize = 0;
    while i < v.len()
        invariant
            i <= v.len(),
            out@ == v@.take(i as int),
        decreases v.len() - i,
    {
        out.push(v[i].clone());
        i += 1;
    }
    proof {
        assert(out@ =~= v@);
    }
    out
}

/// A copy of a list of connection reports.
pub fn copy_connections(v: &Vec<ConnectionHealth>) -> (out: Vec<ConnectionHealth>)
    ensures
        out@ == v@,
{
    let mut out: Vec<ConnectionHealth> = Vec::new();
    let mut i: usize = 0;
    while i < v.len()
        invariant
            i <= v.len(),
            out@ == v@.take(i as int),
        decreases v.len() - i,
    {
        out.push(v[i]);
        i += 1;
    }
    proof {
        assert(out@ =~= v@);
    }
    out
}

/// Appends `entry` to `log` and drops the oldest entries beyond
/// `MAX_ERROR_LOG`.
pub fn push_log(log: &mut Vec<String>, entry: String)
    ensures
        texts(final(log)@) == log_with(texts(old(log)@), entry@),
{
    push_bounded(log, entry, MAX_ERROR_LOG);
}

impl DownloadHealth {
    /// What is tracked of a download registered at `now`.
    pub fn new(download_id: &str, engine: DownloadEngine, total_bytes: Option<u64>, now: i64) -> (h:
        Self)
        ensures
            h@ == HealthView::fresh(download_id@, engine, total_bytes, now),
    {
        let h = DownloadHealth {
            download_id: String::from_str(download_id),
            engine,
            started_at: now,
            total_bytes,
            downloaded_bytes: 0,
            active_connections: 0,
            peak_connections: 0,
            connection_health: Vec::new(),
            total_throughput_bps: 0,
            total_errors: 0,
            total_retries: 0,
            throttling_detected: false,
            collapse_count: 0,
            safe_mode_active: false,
            phase: DownloadPhase::Preflight,
            error_log: Vec::new(),
        };
        proof {
            assert(h@.error_log =~= Seq::<Seq<char>>::empty());
            assert(h@.connection_health =~= Seq::<ConnectionHealth>::empty());
        }
        h
    }

    /// A copy of the record.
    pub fn duplicate(&self) -> (h: Self)
        ensures
            h@ == self@,
    {
        DownloadHealth {
            download_id: self.download_id.clone(),
            engine: self.engine,
            started_at: self.started_at,
            total_bytes: self.total_bytes,
            downloaded_bytes: self.downloaded_bytes,
            active_connections: self.active_connections,
            peak_connections: self.peak_connections,
            connection_health: copy_connections(&self.connection_health),
            total_throughput_bps: self.total_throughput_bps,
            total_errors: self.total_errors,
            total_retries: self.total_retries,
            throttling_detected: self.throttling_detected,
            collapse_count: self.collapse_count,
            safe_mode_active: self.safe_mode_active,
            phase: self.phase,
            error_log: copy_strings(&self.error_log),
        }
    }

    /// Moves the download to `phase`.
    pub fn set_phase(&mut self, phase: DownloadPhase)
        ensures
            final(self)@ == old(self)@.with_phase(phase),
    {
        self.phase = phase;
    }

    /// Takes over the byte counter and the aggregate throughput.
    pub fn update_progress(&mut self, downloaded_bytes: u64, throughput_bps: u64)
        ensures
            final(self)@ == old(self)@.with_progress(downloaded_bytes, throughput_bps),
    {
        self.downloaded_bytes = downloaded_bytes;
        self.total_throughput_bps = throughput_bps;
    }

    /// Takes over the report of one connection and recomputes the
    /// aggregates.
    pub fn update_connection(&mut self, connection_health: ConnectionHealth)
        ensures
            final(self)@ == old(self)@.with_connection(connection_health),
    {
        let id: usize = connection_health.connection_id as usize;
        let ghost start = self.connection_health@;
        while self.connection_health.len() <= id
            invariant
                start.len() <= self.connection_health@.len(),
                self.connection_health@.len() <= id + 1 || self.connection_health@.len()
                    == start.len(),
                id == connection_health.connection_id,
                self.connection_health@.len() > start.len() ==> start.len() <= id,
                self.connection_health@ =~= start + Seq::new(
                    (self.connection_health@.len() - start.len()) as nat,
                    |i: int| ConnectionHealth::idle(),
                ),
                self.download_id == old(self).download_id,
                self.engine == old(self).engine,
                self.started_at == old(self).started_at,
                self.total_bytes == old(self).total_bytes,
                self.downloaded_bytes == old(self).downloaded_bytes,
                self.peak_connections == old(self).peak_connections,
                self.throttling_detected == old(self).throttling_detected,
                self.collapse_count == old(self).collapse_count,
                self.safe_mode_active == old(self).safe_mode_active,
                self.phase == old(self).phase,
                self.error_log == old(self).error_log,
            decreases id + 1 - self.connection_health.len(),
        {
            self.connection_health.push(ConnectionHealth::default());
        }
        self.connection_health.set(id, connection_health);
        proof {
            assert(self.connection_health@ =~= with_connection(start, connection_health));
        }
        let n = self.connection_health.len();
        self.active_connections = if n > 255 {
            255
        } else {
            n as u8
        };
        if self.active_connections > self.peak_connections {
            self.peak_connections = self.active_connections;
        }
        let mut throughput: u64 = 0;
        let mut errors: u32 = 0;
        let mut retries: u32 = 0;
        let mut i: usize = 0;
        proof {
            assert(self.connection_health@.take(0) =~= Seq::<ConnectionHealth>::empty());
        }
        while i < self.connection_health.len()
            invariant
                i <= self.connection_health.len(),
                throughput == cap_u64(sum_throughput(self.connection_health@.take(i as int))),
                errors == cap_u32(sum_errors(self.connection_health@.take(i as int))),
                retries == cap_u32(sum_retries(self.connection_health@.take(i as int))),
                sum_throughput(self.connection_health@.take(i as int)) >= 0,
                sum_errors(self.connection_health@.take(i as int)) >= 0,
                sum_retries(self.connection_health@.take(i as int)) >= 0,
            decreases self.connection_health.len() - i,
        {
            let c = self.connection_health[i];
            proof {
                let next = self.connection_health@.take(i + 1);
                assert(next.drop_last() =~= self.connection_health@.take(i as int));
                assert(next.last() == c);
            }
            throughput = if c.throughput_bps > u64::MAX - throughput {
                u64::MAX
            } else {
                throughput + c.throughput_bps
            };
            errors = if c.error_count > u32::MAX - errors {
                u32::MAX
            } else {
                errors + c.error_count
            };
            retries = if c.retry_count > u32::MAX - retries {
                u32::MAX
            } else {
                retries + c.retry_count
            };
            i += 1;
        }
        proof {
            assert(self.connection_health@.take(i as int) =~= self.connection_health@);
        }
        self.total_throughput_bps = throughput;
        self.total_errors = errors;
        self.total_retries = retries;
    }

    /// Records an error observed at `now`.
    pub fn record_error(
        &mut self,
        error_message: &str,
        status_code: Option<u16>,
        thresholds: &ThrottlingThresholds,
        now: i64,
    )
        ensures
            final(self)@ == old(self)@.with_error(
                error_message@,
                status_code,
                thresholds.throttle_status_codes@,
                now,
            ),
    {
        if self.total_errors < u32::MAX {
            self.total_errors = self.total_errors + 1;
        }
        let mut line: Vec<char> = Vec::new();
        line.push('[');
        let label = time_label(now);
        push_str(&mut line, label.as_str());
        push_str(&mut line, "] ");
        push_str(&mut line, error_message);
        proof {
            assert(line@ =~= log_line(now, error_message@));
        }
        push_log(&mut self.error_log, string_of(&line));
        match status_code {
            Some(code) => {
                if thresholds.is_throttle_status(code) {
                    self.throttling_detected = true;
                }
            },
            None => {},
        }
    }

    /// Records at `now` that the connections were cut to `new_count`.
    pub fn record_collapse(&mut self, new_count: u8, now: i64)
        ensures
            final(self)@ == old(self)@.with_collapse(new_count, now),
    {
        self.active_connections = new_count;
        if self.collapse_count < u8::MAX {
            self.collapse_count = self.collapse_count + 1;
        }
        let mut line: Vec<char> = Vec::new();
        line.push('[');
        let label = time_label(now);
        push_str(&mut line, label.as_str());
        push_str(&mut line, "] ");
        push_str(&mut line, "Connections collapsed to ");
        push_decimal(&mut line, new_count as u128);
        proof {
            assert(line@ =~= log_line(now, collapse_message(new_count)));
        }
        push_log(&mut self.error_log, string_of(&line));
    }

    /// Switches safe mode.
    pub fn set_safe_mode(&mut self, enabled: bool)
        ensures
            final(self)@ == old(self)@.with_safe_mode(enabled),
    {
        self.safe_mode_active = enabled;
        if enabled {
            self.engine = DownloadEngine::SNDESafe;
        }
    }

    /// Whether the throttling rule fires at `now`.
    pub fn is_throttled(&self, thresholds: &ThrottlingThresholds, now: i64) -> (b: bool)
        ensures
            b == self@.is_throttled(
                thresholds.min_throughput_bps,
                thresholds.max_errors_per_minute,
                now,
            ),
    {
        let elapsed: i128 = if (now as i128) - (self.started_at as i128) < 1 {
            1
        } else {
            (now as i128) - (self.started_at as i128)
        };
        let limit: i128 = thresholds.max_errors_per_minute as i128;
        assert(0 <= limit * elapsed <= 0xFFFF_FFFF * 0x1_0000_0000_0000_0000) by (nonlinear_arith)
            requires
                0 <= limit <= 0xFFFF_FFFF,
                1 <= elapsed <= 0x1_0000_0000_0000_0000,
        ;
        let fast_errors = (self.total_errors as i128) * 60 > limit * elapsed;
        let slow = match self.phase {
            DownloadPhase::Downloading => self.total_throughput_bps
                < thresholds.min_throughput_bps,
            _ => false,
        };
        self.throttling_detected || fast_errors || slow
    }

    /// Whether some connection has been stalled for too long.
    pub fn any_long_stall(&self, max_stall_ms: u64) -> (b: bool)
        ensures
            b == self@.any_long_stall(max_stall_ms),
    {
        let mut i: usize = 0;
        while i < self.connection_health.len()
            invariant
                i <= self.connection_health.len(),
                forall|j: int|
                    0 <= j < i ==> !((#[trigger] self.connection_health@[j]).is_stalled
                        && self.connection_health@[j].stall_duration_ms > max_stall_ms),
            decreases self.connection_health.len() - i,
        {
            let c = self.connection_health[i];
            if c.is_stalled && c.stall_duration_ms > max_stall_ms {
                proof {
                    assert(self@.connection_health[i as int] == c);
                }
                return true;
            }
            i += 1;
        }
        false
    }

    /// The recommendation for the download at `now`.
    pub fn analyze(&self, thresholds: &ThrottlingThresholds, now: i64) -> (action: WatchdogAction)
        ensures
            action@ == self@.recommendation(
                thresholds.min_throughput_bps,
                thresholds.max_errors_per_minute,
                thresholds.max_stall_duration_ms,
                now,
            ),
    {
        if self.total_errors > 20 && self.downloaded_bytes < 1024 {
            return WatchdogAction::CriticalFailure(
                String::from_str("Too many errors with no progress"),
            );
        }
        if self.is_throttled(thresholds, now) {
            if self.safe_mode_active {
                return WatchdogAction::RecommendEngineSwitch;
            }
            if self.active_connections > 1 {
                return WatchdogAction::CollapseConnections(self.active_connections / 2);
            }
            return WatchdogAction::EnableSafeMode;
        }
        if self.any_long_stall(thresholds.max_stall_duration_ms) {
            if self.active_connections > 1 {
                return WatchdogAction::CollapseConnections(self.active_connections - 1);
            }
            return WatchdogAction::EnableSafeMode;
        }
        WatchdogAction::NoAction
    }
}

/// The ids of a table of tracked downloads, in table order.
pub open spec fn ids(table: Seq<HealthView>) -> Seq<Seq<char>> {
    Seq::new(table.len(), |i: int| table[i].download_id)
}

/// What is tracked of `id`, if anything.
pub open spec fn spec_health(table: Seq<HealthView>, id: Seq<char>) -> Option<HealthView> {
    match spec_key_index(ids(table), id) {
        Some(i) => Some(table[i]),
        None => None,
    }
}

/// `table` with `entry` under its id: in place of the entry of that id, or
/// at the end where the id is new.
pub open spec fn spec_put(table: Seq<HealthView>, entry: HealthView) -> Seq<HealthView> {
    match spec_key_index(ids(table), entry.download_id) {
        Some(i) => table.update(i, entry),
        None => table.push(entry),
    }
}

/// `table` without the entry of `id`.
pub open spec fn spec_without(table: Seq<HealthView>, id: Seq<char>) -> Seq<HealthView> {
    match spec_key_index(ids(table), id) {
        Some(i) => table.remove(i),
        None => table,
    }
}

/// `table` with the entry of `id` replaced by `entry`; unchanged where
/// `id` is not tracked.
pub open spec fn spec_replace(table: Seq<HealthView>, id: Seq<char>, entry: HealthView) -> Seq<
    HealthView,
> {
    match spec_key_index(ids(table), id) {
        Some(i) => table.update(i, entry),
        None => table,
    }
}

/// `table` after an error of `id` was recorded at `now`.
pub open spec fn table_with_error(
    table: Seq<HealthView>,
    id: Seq<char>,
    message: Seq<char>,
    status_code: Option<u16>,
    throttle_codes: Seq<u16>,
    now: i64,
) -> Seq<HealthView> {
    match spec_health(table, id) {
        Some(h) => spec_replace(table, id, h.with_error(message, status_code, throttle_codes, now)),
        None => table,
    }
}

/// `table` after a collapse of `id` to `new_count` was recorded at `now`.
pub open spec fn table_with_collapse(
    table: Seq<HealthView>,
    id: Seq<char>,
    new_count: u8,
    now: i64,
) -> Seq<HealthView> {
    match spec_health(table, id) {
        Some(h) => spec_replace(table, id, h.with_collapse(new_count, now)),
        None => table,
    }
}

/// The recommendation for `id` at `now`; none where `id` is not tracked.
pub open spec fn table_recommendation(
    table: Seq<HealthView>,
    id: Seq<char>,
    min_throughput_bps: u64,
    max_errors_per_minute: u32,
    max_stall_ms: u64,
    now: i64,
) -> ActionView {
    match spec_health(table, id) {
        Some(h) => h.recommendation(min_throughput_bps, max_errors_per_minute, max_stall_ms, now),
        None => ActionView::NoAction,
    }
}

/// All downloads under watch, with the thresholds that apply to them.
pub struct HealthMetricsRegistry {
    pub downloads: Vec<DownloadHealth>,
    pub thresholds: ThrottlingThresholds,
}

impl View for HealthMetricsRegistry {
    type V = Seq<HealthView>;

    open spec fn view(&self) -> Seq<HealthView> {
        Seq::new(self.downloads@.len(), |i: int| self.downloads@[i]@)
    }
}

impl HealthMetricsRegistry {
    /// No id is tracked twice.
    pub open spec fn wf(&self) -> bool {
        forall|i: int, j: int|
            0 <= i < j < self@.len() ==> (#[trigger] self@[i]).download_id != (
            #[trigger] self@[j]).download_id
    }

    /// An empty registry with the standard thresholds.
    pub fn new() -> (r: Self)
        ensures
            r@.len() == 0,
            r.wf(),
            r.thresholds.min_throughput_bps == 10000,
            r.thresholds.max_errors_per_minute == 5,
            r.thresholds.max_retries_per_segment == 3,
            r.thresholds.max_stall_duration_ms == 30000,
            r.thresholds.throttle_status_codes@ == seq![429u16, 503u16, 509u16],
    {
        HealthMetricsRegistry { downloads: Vec::new(), thresholds: ThrottlingThresholds::default() }
    }

    /// An empty registry with thresholds of the caller's choice.
    pub fn with_thresholds(thresholds: ThrottlingThresholds) -> (r: Self)
        ensures
            r@.len() == 0,
            r.wf(),
            r.thresholds == thresholds,
    {
        HealthMetricsRegistry { downloads: Vec::new(), thresholds }
    }

    /// Whether no id is tracked twice.
    pub fn is_well_formed(&self) -> (b: bool)
        ensures
            b == self.wf(),
    {
        let mut keys: Vec<String> = Vec::new();
        let mut i: usize = 0;
        while i < self.downloads.len()
            invariant
                i <= self.downloads.len(),
                keys@.len() == i,
                forall|k: int| 0 <= k < i ==> (#[trigger] keys@[k])@ == self@[k].download_id,
            decreases self.downloads.len() - i,
        {
            keys.push(self.downloads[i].download_id.clone());
            i += 1;
        }
        let b = crate::text::all_distinct(&keys);
        proof {
            assert(texts(keys@) =~= ids(self@));
            if b {
                assert forall|x: int, y: int| 0 <= x < y < self@.len() implies (
                #[trigger] self@[x]).download_id != (#[trigger] self@[y]).download_id by {
                    assert(ids(self@)[x] != ids(self@)[y]);
                }
            } else {
                let w = choose|x: int, y: int|
                    0 <= x < y < ids(self@).len() && ids(self@)[x] == ids(self@)[y];
                assert(self@[w.0].download_id == self@[w.1].download_id);
            }
        }
        b
    }

    /// Position of the entry of `download_id`.
    pub fn position(&self, download_id: &str) -> (found: Option<usize>)
        ensures
            match found {
                Some(i) => spec_key_index(ids(self@), download_id@) == Some(i as int) && i
                    < self.downloads@.len() && self@[i as int].download_id == download_id@,
                None => spec_key_index(ids(self@), download_id@) is None,
            },
    {
        let key = String::from_str(download_id);
        let mut i: usize = 0;
        while i < self.downloads.len()
            invariant
                i <= self.downloads.len(),
                key@ == download_id@,
                forall|j: int| 0 <= j < i ==> ids(self@)[j] != download_id@,
            decreases self.downloads.len() - i,
        {
            if self.downloads[i].download_id == key {
                proof {
                    assert(ids(self@)[i as int] == download_id@);
                    assert(is_first_key(ids(self@), download_id@, i as int));
                    lemma_key_index_found(ids(self@), download_id@, i as int);
                }
                return Some(i);
            }
            i += 1;
        }
        proof {
            lemma_key_index_none(ids(self@), download_id@);
        }
        None
    }

    /// Puts `entry` in the place of the entry of `id`, if there is one.
    fn replace(&mut self, id: &str, entry: DownloadHealth)
        requires
            old(self).wf(),
            entry@.download_id == id@,
        ensures
            final(self).wf(),
            final(self)@ == spec_replace(old(self)@, id@, entry@),
            final(self).thresholds == old(self).thresholds,
    {
        let ghost before = self@;
        match self.position(id) {
            Some(i) => {
                self.downloads.set(i, entry);
                proof {
                    assert(self@ =~= before.update(i as int, entry@));
                }
            },
            None => {},
        }
    }

    /// Starts tracking a download at `now`. An entry under the same id is
    /// replaced.
    pub fn register_download_at(
        &mut self,
        download_id: &str,
        engine: DownloadEngine,
        total_bytes: Option<u64>,
        now: i64,
    )
        requires
            old(self).wf(),
        ensures
            final(self).wf(),
            final(self)@ == spec_put(
                old(self)@,
                HealthView::fresh(download_id@, engine, total_bytes, now),
            ),
            final(self).thresholds == old(self).thresholds,
    {
        let entry = DownloadHealth::new(download_id, engine, total_bytes, now);
        let ghost before = self@;
        match self.position(download_id) {
            Some(i) => {
                self.downloads.set(i, entry);
                proof {
                    assert(self@ =~= before.update(i as int, entry@));
                }
            },
            None => {
                self.downloads.push(entry);
                proof {
                    lemma_key_index_is_first(ids(before), download_id@);
                    assert(self@ =~= before.push(entry@));
                    assert forall|a: int, b: int| 0 <= a < b < self@.len() implies (
                    #[trigger] self@[a]).download_id != (#[trigger] self@[b]).download_id by {
                        if b == before.len() {
                            assert(ids(before)[a] != download_id@);
                        } else {
                            assert(before[a].download_id != before[b].download_id);
                        }
                    }
                }
            },
        }
    }

    /// Starts tracking a download now.
    pub fn register_download(
        &mut self,
        download_id: &str,
        engine: DownloadEngine,
        total_bytes: Option<u64>,
    )
        requires
            old(self).wf(),
        ensures
            final(self).wf(),
            exists|now: i64|
                final(self)@ == spec_put(
                    old(self)@,
                    #[trigger] HealthView::fresh(download_id@, engine, total_bytes, now),
                ),
            final(self).thresholds == old(self).thresholds,
    {
        let now = unix_now();
        self.register_download_at(download_id, engine, total_bytes, now);
        assert(self@ == spec_put(
            old(self)@,
            HealthView::fresh(download_id@, engine, total_bytes, now),
        ));
    }

    /// Stops tracking a download.
    pub fn unregister_download(&mut self, download_id: &str)
        requires
            old(self).wf(),
        ensures
            final(self).wf(),
            final(self)@ == spec_without(old(self)@, download_id@),
            final(self).thresholds == old(self).thresholds,
    {
        let ghost before = self@;
        match self.position(download_id) {
            Some(i) => {
                self.downloads.remove(i);
                proof {
                    assert(self@ =~= before.remove(i as int));
                    assert forall|a: int, b: int| 0 <= a < b < self@.len() implies (
                    #[trigger] self@[a]).download_id != (#[trigger] self@[b]).download_id by {
                        let a0 = if a < i { a } else { a + 1 };
                        let b0 = if b < i { b } else { b + 1 };
                        assert(before[a0].download_id != before[b0].download_id);
                    }
                }
            },
            None => {},
        }
    }

    /// What is tracked of a download, if anything.
    pub fn get_health(&self, download_id: &str) -> (health: Option<DownloadHealth>)
        ensures
            health is Some == spec_health(self@, download_id@) is Some,
            health is Some ==> health->0@ == spec_health(self@, download_id@)->0,
            health is Some ==> health->0@.download_id == download_id@,
    {
        match self.position(download_id) {
            Some(i) => Some(self.downloads[i].duplicate()),
            None => None,
        }
    }

    /// What is tracked of every download, in order of registration.
    pub fn get_all_health(&self) -> (all: Vec<DownloadHealth>)
        ensures
            all@.len() == self@.len(),
            forall|i: int| 0 <= i < all@.len() ==> (#[trigger] all@[i])@ == self@[i],
    {
        let mut all: Vec<DownloadHealth> = Vec::new();
        let mut i: usize = 0;
        while i < self.downloads.len()
            invariant
                i <= self.downloads.len(),
                all@.len() == i,
                forall|j: int| 0 <= j < i ==> (#[trigger] all@[j])@ == self@[j],
            decreases self.downloads.len() - i,
        {
            all.push(self.downloads[i].duplicate());
            i += 1;
        }
        all
    }

    /// Moves a tracked download to `phase`.
    pub fn set_phase(&mut self, download_id: &str, phase: DownloadPhase)
        requires
            old(self).wf(),
        ensures
            final(self).wf(),
            final(self).thresholds == old(self).thresholds,
            final(self)@ == (match spec_health(old(self)@, download_id@) {
                Some(h) => spec_replace(old(self)@, download_id@, h.with_phase(phase)),
                None => old(self)@,
            }),
    {
        match self.get_health(download_id) {
            Some(mut h) => {
                h.set_phase(phase);
                self.replace(download_id, h);
            },
            None => {},
        }
    }

    /// Takes over the byte counter and throughput of a tracked download.
    pub fn update_progress(&mut self, download_id: &str, downloaded_bytes: u64, throughput_bps: u64)
        requires
            old(self).wf(),
        ensures
            final(self).wf(),
            final(self).thresholds == old(self).thresholds,
            final(self)@ == (match spec_health(old(self)@, download_id@) {
                Some(h) => spec_replace(
                    old(self)@,
                    download_id@,
                    h.with_progress(downloaded_bytes, throughput_bps),
                ),
                None => old(self)@,
            }),
    {
        match self.get_health(download_id) {
            Some(mut h) => {
                h.update_progress(downloaded_bytes, throughput_bps);
                self.replace(download_id, h);
            },
            None => {},
        }
    }

    /// Takes over the report of one connection of a tracked download.
    pub fn update_connection(&mut self, download_id: &str, connection_health: ConnectionHealth)
        requires
            old(self).wf(),
        ensures
            final(self).wf(),
            final(self).thresholds == old(self).thresholds,
            final(self)@ == (match spec_health(old(self)@, download_id@) {
                Some(h) => spec_replace(
                    old(self)@,
                    download_id@,
                    h.with_connection(connection_health),
                ),
                None => old(self)@,
            }),
    {
        match self.get_health(download_id) {
            Some(mut h) => {
                h.update_connection(connection_health);
                self.replace(download_id, h);
            },
            None => {},
        }
    }

    /// Records an error of a tracked download, observed at `now`.
    pub fn record_error_at(
        &mut self,
        download_id: &str,
        error_message: &str,
        status_code: Option<u16>,
        now: i64,
    )
        requires
            old(self).wf(),
        ensures
            final(self).wf(),
            final(self).thresholds == old(self).thresholds,
            final(self)@ == table_with_error(
                old(self)@,
                download_id@,
                error_message@,
                status_code,
                old(self).thresholds.throttle_status_codes@,
                now,
            ),
    {
        match self.get_health(download_id) {
            Some(mut h) => {
                h.record_error(error_message, status_code, &self.thresholds, now);
                self.replace(download_id, h);
            },
            None => {},
        }
    }

    /// Records an error of a tracked download, observed now.
    pub fn record_error(&mut self, download_id: &str, error_message: &str, status_code: Option<u16>)
        requires
            old(self).wf(),
        ensures
            final(self).wf(),
            final(self).thresholds == old(self).thresholds,
            exists|now: i64|
                final(self)@ == #[trigger] table_with_error(
                    old(self)@,
                    download_id@,
                    error_message@,
                    status_code,
                    old(self).thresholds.throttle_status_codes@,
                    now,
                ),
    {
        let now = unix_now();
        self.record_error_at(download_id, error_message, status_code, now);
        assert(self@ == table_with_error(
            old(self)@,
            download_id@,
            error_message@,
            status_code,
            old(self).thresholds.throttle_status_codes@,
            now,
        ));
    }

    /// Records at `now` that the connections of a tracked download were
    /// cut to `new_count`.
    pub fn record_collapse_at(&mut self, download_id: &str, new_count: u8, now: i64)
        requires
            old(self).wf(),
        ensures
            final(self).wf(),
            final(self).thresholds == old(self).thresholds,
            final(self)@ == table_with_collapse(old(self)@, download_id@, new_count, now),
    {
        match self.get_health(download_id) {
            Some(mut h) => {
                h.record_collapse(new_count, now);
                self.replace(download_id, h);
            },
            None => {},
        }
    }

    /// Records that the connections of a tracked download were cut to
    /// `new_count`.
    pub fn record_collapse(&mut self, download_id: &str, new_count: u8)
        requires
            old(self).wf(),
        ensures
            final(self).wf(),
            final(self).thresholds == old(self).thresholds,
            exists|now: i64|
                final(self)@ == #[trigger] table_with_collapse(old(self)@, download_id@, new_count, now),
    {
        let now = unix_now();
        self.record_collapse_at(download_id, new_count, now);
        assert(self@ == table_with_collapse(old(self)@, download_id@, new_count, now));
    }

    /// Switches safe mode of a tracked download.
    pub fn set_safe_mode(&mut self, download_id: &str, enabled: bool)
        requires
            old(self).wf(),
        ensures
            final(self).wf(),
            final(self).thresholds == old(self).thresholds,
            final(self)@ == (match spec_health(old(self)@, download_id@) {
                Some(h) => spec_replace(old(self)@, download_id@, h.with_safe_mode(enabled)),
                None => old(self)@,
            }),
    {
        match self.get_health(download_id) {
            Some(mut h) => {
                h.set_safe_mode(enabled);
                self.replace(download_id, h);
            },
            None => {},
        }
    }

    /// The recommendation for a download at `now`; none for a download
    /// that is not tracked.
    pub fn analyze_and_recommend_at(&self, download_id: &str, now: i64) -> (action: WatchdogAction)
        ensures
            action@ == table_recommendation(
                self@,
                download_id@,
                self.thresholds.min_throughput_bps,
                self.thresholds.max_errors_per_minute,
                self.thresholds.max_stall_duration_ms,
                now,
            ),
    {
        match self.position(download_id) {
            Some(i) => self.downloads[i].analyze(&self.thresholds, now),
            None => WatchdogAction::NoAction,
        }
    }

    /// The recommendation for a download now.
    pub fn analyze_and_recommend(&self, download_id: &str) -> (action: WatchdogAction)
        ensures
            exists|now: i64|
                action@ == #[trigger] table_recommendation(
                self@,
                download_id@,
                self.thresholds.min_throughput_bps,
                self.thresholds.max_errors_per_minute,
                self.thresholds.max_stall_duration_ms,
                now,
            ),
    {
        let now = unix_now();
        let action = self.analyze_and_recommend_at(download_id, now);
        assert(action@ == table_recommendation(
                self@,
                download_id@,
                self.thresholds.min_throughput_bps,
                self.thresholds.max_errors_per_minute,
                self.thresholds.max_stall_duration_ms,
                now,
            ));
        action
    }
}

impl Default for HealthMetricsRegistry {
    fn default() -> (r: Self)
        ensures
            r@.len() == 0,
            r.wf(),
            r.thresholds.min_throughput_bps == 10000,
            r.thresholds.max_errors_per_minute == 5,
            r.thresholds.max_retries_per_segment == 3,
            r.thresholds.max_stall_duration_ms == 30000,
            r.thresholds.throttle_status_codes@ == seq![429u16, 503u16, 509u16],
    {
        HealthMetricsRegistry::new()
    }
}

} // verus!
