//! Per-host memory of how downloads went: how many connections a host
//! tolerates, how healthy it has been, how fast it served.
use vstd::prelude::*;
use crate::clock::unix_now;
use crate::text::{
    is_first_key, lemma_key_index_found, lemma_key_index_is_first, lemma_key_index_none,
    spec_key_index,
};
use crate::urls::{lowercase, parse_url, spec_lowercase, spec_url_parts};

verus! {

/// Connections assumed safe for a host nothing is known about.
pub const DEFAULT_STABLE_CONNS: u8 = 4;

/// Health of a host nothing is known about.
pub const DEFAULT_HEALTH: u8 = 50;

/// Upper end of the health scale.
pub const MAX_HEALTH: u8 = 100;

/// Records untouched for this long may be cleaned up.
pub const STALE_AFTER_SECS: i64 = 2592000;

/// Records with at least this many successes are never cleaned up.
pub const KEEP_MIN_SUCCESSES: u32 = 5;

/// What is remembered of one host.
#[derive(Debug, Clone)]
pub struct HostReputation {
    /// Host name, lower case.
    pub domain: String,
    /// Most connections that worked without throttling.
    pub max_stable_conns: u8,
    /// `http1`, `http2` or `http3`.
    pub favored_protocol: String,
    /// 0 (bad) to 100 (good).
    pub health_score: u8,
    /// Whether byte-range requests work.
    pub supports_range: bool,
    /// Moving average of the speed in KiB/s.
    pub avg_speed_kbps: u32,
    pub success_count: u32,
    pub failure_count: u32,
    /// Unix time of the last change, in seconds.
    pub last_updated: i64,
}

/// The mathematical content of a `HostReputation`.
pub struct ReputationView {
    pub domain: Seq<char>,
    pub max_stable_conns: u8,
    pub favored_protocol: Seq<char>,
    pub health_score: u8,
    pub supports_range: bool,
    pub avg_speed_kbps: u32,
    pub success_count: u32,
    pub failure_count: u32,
    pub last_updated: i64,
}

impl View for HostReputation {
    type V = ReputationView;

    open spec fn view(&self) -> ReputationView {
        ReputationView {
            domain: self.domain@,
            max_stable_conns: self.max_stable_conns,
            favored_protocol: self.favored_protocol@,
            health_score: self.health_score,
            supports_range: self.supports_range,
            avg_speed_kbps: self.avg_speed_kbps,
            success_count: self.success_count,
            failure_count: self.failure_count,
            last_updated: self.last_updated,
        }
    }
}

/// One observation that changes a record.
#[derive(Debug, Clone, Copy, PartialEq, Eq, Structural)]
pub enum ReputationUpdate {
    /// A download succeeded at `speed_kbps` over `connections_used`
    /// connections.
    Success { speed_kbps: u32, connections_used: u8 },
    /// A download failed.
    Failure { was_throttled: bool, was_range_error: bool },
    /// The connections of a running download were cut to `collapsed_to`.
    Collapse { collapsed_to: u8 },
}

/// `v + 1`, held at the top of `u32`.
pub open spec fn spec_bump(v: u32) -> u32 {
    if v == u32::MAX {
        v
    } else {
        (v + 1) as u32
    }
}

/// The moving average after one more observation: nine parts old, one part
/// new; the first observation is taken as it is.
pub open spec fn spec_ewma(prev: u32, observed: u32) -> u32 {
    if prev == 0 {
        observed
    } else {
        ((prev * 9 + observed) / 10) as u32
    }
}

impl ReputationView {
    /// The record's bounds: at least one connection, health within the
    /// scale.
    pub open spec fn wf(self) -> bool {
        self.max_stable_conns >= 1 && self.health_score <= MAX_HEALTH
    }

    /// The record an unknown host starts with.
    pub open spec fn fresh(domain: Seq<char>, now: i64) -> ReputationView {
        ReputationView {
            domain,
            max_stable_conns: DEFAULT_STABLE_CONNS,
            favored_protocol: "http1"@,
            health_score: DEFAULT_HEALTH,
            supports_range: true,
            avg_speed_kbps: 0,
            success_count: 0,
            failure_count: 0,
            last_updated: now,
        }
    }

    /// The record after a success: one more success, the speed folded into
    /// the moving average, health up by 5 (at most 100), and the stable
    /// connection count raised to the count that just worked.
    pub open spec fn after_success(self, speed_kbps: u32, connections_used: u8, now: i64) -> Self {
        ReputationView {
            success_count: spec_bump(self.success_count),
            last_updated: now,
            avg_speed_kbps: spec_ewma(self.avg_speed_kbps, speed_kbps),
            health_score: if self.health_score + 5 >= MAX_HEALTH {
                MAX_HEALTH
            } else {
                (self.health_score + 5) as u8
            },
            max_stable_conns: if connections_used > self.max_stable_conns {
                connections_used
            } else {
                self.max_stable_conns
            },
            ..self
        }
    }

    /// The record after a failure: one more failure, health down by 10 (at
    /// least 0); when throttled, two connections fewer (at least 1); after
    /// a range error, no range support.
    pub open spec fn after_failure(self, was_throttled: bool, was_range_error: bool, now: i64) -> Self {
        ReputationView {
            failure_count: spec_bump(self.failure_count),
            last_updated: now,
            health_score: if self.health_score <= 10 {
                0
            } else {
                (self.health_score - 10) as u8
            },
            max_stable_conns: if !was_throttled {
                self.max_stable_conns
            } else if self.max_stable_conns <= 3 {
                1
            } else {
                (self.max_stable_conns - 2) as u8
            },
            supports_range: if was_range_error {
                false
            } else {
                self.supports_range
            },
            ..self
        }
    }

    /// The record after a collapse: the stable connection count is the
    /// smaller of what it was and the count collapsed to.
    pub open spec fn after_collapse(self, collapsed_to: u8, now: i64) -> Self {
        ReputationView {
            max_stable_conns: if collapsed_to < self.max_stable_conns {
                collapsed_to
            } else {
                self.max_stable_conns
            },
            last_updated: now,
            ..self
        }
    }

    /// The record after `update`.
    pub open spec fn after(self, update: ReputationUpdate, now: i64) -> Self {
        match update {
            ReputationUpdate::Success { speed_kbps, connections_used } => self.after_success(
                speed_kbps,
                connections_used,
                now,
            ),
            ReputationUpdate::Failure { was_throttled, was_range_error } => self.after_failure(
                was_throttled,
                was_range_error,
                now,
            ),
            ReputationUpdate::Collapse { collapsed_to } => self.after_collapse(collapsed_to, now),
        }
    }

    /// The record after the updates `updates`, applied in order at the
    /// times `times`.
    pub open spec fn after_all(self, updates: Seq<ReputationUpdate>, times: Seq<i64>) -> Self
        recommends
            updates.len() == times.len(),
        decreases updates.len(),
    {
        if updates.len() == 0 {
            self
        } else {
            self.after_all(updates.drop_last(), times.drop_last()).after(
                updates.last(),
                times.last(),
            )
        }
    }

    /// A record last touched more than 30 days before `now`, with fewer
    /// than 5 successes.
    pub open spec fn is_stale(self, now: i64) -> bool {
        self.last_updated < now - STALE_AFTER_SECS && self.success_count < KEEP_MIN_SUCCESSES
    }
}

impl HostReputation {
    /// The record's bounds hold.
    pub open spec fn wf(self) -> bool {
        self@.wf()
    }

    /// The record an unknown host starts with, stamped `now`.
    pub fn fresh(domain: &str, now: i64) -> (r: Self)
        ensures
            r@ == ReputationView::fresh(domain@, now),
            r.wf(),
    {
        HostReputation {
            domain: String::from_str(domain),
            max_stable_conns: DEFAULT_STABLE_CONNS,
            favored_protocol: String::from_str("http1"),
            health_score: DEFAULT_HEALTH,
            supports_range: true,
            avg_speed_kbps: 0,
            success_count: 0,
            failure_count: 0,
            last_updated: now,
        }
    }

    /// A copy of the record.
    pub fn duplicate(&self) -> (r: Self)
        ensures
            r == *self,
    {
        HostReputation {
            domain: self.domain.clone(),
            max_stable_conns: self.max_stable_conns,
            favored_protocol: self.favored_protocol.clone(),
            health_score: self.health_score,
            supports_range: self.supports_range,
            avg_speed_kbps: self.avg_speed_kbps,
            success_count: self.success_count,
            failure_count: self.failure_count,
            last_updated: self.last_updated,
        }
    }

    /// Folds a successful download into the record.
    pub fn apply_success(&mut self, speed_kbps: u32, connections_used: u8, now: i64)
        ensures
            final(self)@ == old(self)@.after_success(speed_kbps, connections_used, now),
            old(self).wf() ==> final(self).wf(),
    {
        if self.success_count < u32::MAX {
            self.success_count = self.success_count + 1;
        }
        self.last_updated = now;
        if self.avg_speed_kbps == 0 {
            self.avg_speed_kbps = speed_kbps;
        } else {
            let folded: u64 = ((self.avg_speed_kbps as u64) * 9 + (speed_kbps as u64)) / 10;
            self.avg_speed_kbps = folded as u32;
        }
        if self.health_score >= MAX_HEALTH - 5 {
            self.health_score = MAX_HEALTH;
        } else {
            self.health_score = self.health_score + 5;
        }
        if connections_used > self.max_stable_conns {
            self.max_stable_conns = connections_used;
        }
    }

    /// Folds a failed download into the record.
    pub fn apply_failure(&mut self, was_throttled: bool, was_range_error: bool, now: i64)
        ensures
            final(self)@ == old(self)@.after_failure(was_throttled, was_range_error, now),
            old(self).wf() ==> final(self).wf(),
    {
        if self.failure_count < u32::MAX {
            self.failure_count = self.failure_count + 1;
        }
        self.last_updated = now;
        if self.health_score <= 10 {
            self.health_score = 0;
        } else {
            self.health_score = self.health_score - 10;
        }
        if was_throttled {
            if self.max_stable_conns <= 3 {
                self.max_stable_conns = 1;
            } else {
                self.max_stable_conns = self.max_stable_conns - 2;
            }
        }
        if was_range_error {
            self.supports_range = false;
        }
    }

    /// Folds a connection collapse into the record.
    pub fn apply_collapse(&mut self, collapsed_to: u8, now: i64)
        ensures
            final(self)@ == old(self)@.after_collapse(collapsed_to, now),
            old(self).wf() && collapsed_to >= 1 ==> final(self).wf(),
    {
        if collapsed_to < self.max_stable_conns {
            self.max_stable_conns = collapsed_to;
        }
        self.last_updated = now;
    }

    /// Folds one observation into the record.
    pub fn apply(&mut self, update: ReputationUpdate, now: i64)
        ensures
            final(self)@ == old(self)@.after(update, now),
            old(self).wf() && keeps_bounds(update) ==> final(self).wf(),
    {
        match update {
            ReputationUpdate::Success { speed_kbps, connections_used } => self.apply_success(
                speed_kbps,
                connections_used,
                now,
            ),
            ReputationUpdate::Failure { was_throttled, was_range_error } => self.apply_failure(
                was_throttled,
                was_range_error,
                now,
            ),
            ReputationUpdate::Collapse { collapsed_to } => self.apply_collapse(collapsed_to, now),
        }
    }
}

impl Default for HostReputation {
    /// The record of an unknown host, with no name yet, stamped with the
    /// current time.
    fn default() -> (r: Self)
        ensures
            exists|now: i64| r@ == ReputationView::fresh(Seq::<char>::empty(), now),
            r.wf(),
    {
        let now = unix_now();
        let mut r = HostReputation::fresh("", now);
        r.domain = String::new();
        assert(r@ == ReputationView::fresh(Seq::<char>::empty(), now));
        r
    }
}

/// The update leaves the bounds of a record alone whatever the record: any
/// success, any failure, and any collapse to at least one connection.
pub open spec fn keeps_bounds(update: ReputationUpdate) -> bool {
    match update {
        ReputationUpdate::Collapse { collapsed_to } => collapsed_to >= 1,
        _ => true,
    }
}

/// Reputation bounds, one step: an update that keeps bounds takes a record
/// within bounds to a record within bounds, for the same host.
pub proof fn lemma_update_keeps_bounds(rep: ReputationView, update: ReputationUpdate, now: i64)
    requires
        rep.wf(),
        keeps_bounds(update),
    ensures
        rep.after(update, now).wf(),
        rep.after(update, now).domain == rep.domain,
{
}

/// Reputation bounds: after any sequence of successes, failures and
/// collapses to at least one connection, the health score lies in
/// `[0, 100]` and the stable connection count is at least 1.
pub proof fn lemma_reputation_bounds(
    rep: ReputationView,
    updates: Seq<ReputationUpdate>,
    times: Seq<i64>,
)
    requires
        rep.wf(),
        updates.len() == times.len(),
        forall|i: int| 0 <= i < updates.len() ==> keeps_bounds(#[trigger] updates[i]),
    ensures
        rep.after_all(updates, times).wf(),
        0 <= rep.after_all(updates, times).health_score <= 100,
        rep.after_all(updates, times).max_stable_conns >= 1,
        rep.after_all(updates, times).domain == rep.domain,
    decreases updates.len(),
{
    if updates.len() > 0 {
        lemma_reputation_bounds(rep, updates.drop_last(), times.drop_last());
        lemma_update_keeps_bounds(
            rep.after_all(updates.drop_last(), times.drop_last()),
            updates.last(),
            times.last(),
        );
    }
}

/// A record whose stable connection count is at most 16 keeps it so under
/// any update that names at most 16 connections.
pub proof fn lemma_update_keeps_conn_limit(rep: ReputationView, update: ReputationUpdate, now: i64)
    requires
        rep.max_stable_conns <= 16,
        update matches ReputationUpdate::Success { connections_used, .. } ==> connections_used
            <= 16,
    ensures
        rep.after(update, now).max_stable_conns <= 16,
{
}

/// The host names of a table, in table order.
pub open spec fn domains(table: Seq<ReputationView>) -> Seq<Seq<char>> {
    Seq::new(table.len(), |i: int| table[i].domain)
}

/// The record of `domain` in `table`, or the record an unknown host starts
/// with.
pub open spec fn spec_get(table: Seq<ReputationView>, domain: Seq<char>, now: i64) -> ReputationView {
    match spec_key_index(domains(table), domain) {
        Some(i) => table[i],
        None => ReputationView::fresh(domain, now),
    }
}

/// The record of `domain` in `table`, if there is one.
pub open spec fn spec_lookup(table: Seq<ReputationView>, domain: Seq<char>) -> Option<
    ReputationView,
> {
    match spec_key_index(domains(table), domain) {
        Some(i) => Some(table[i]),
        None => None,
    }
}

/// `table` with `rep` written under its host name: in place of the record
/// of that host, or at the end where the host is new.
pub open spec fn spec_upsert(table: Seq<ReputationView>, rep: ReputationView) -> Seq<ReputationView> {
    match spec_key_index(domains(table), rep.domain) {
        Some(i) => table.update(i, rep),
        None => table.push(rep),
    }
}

/// `table` without its stale records, the others in their order.
pub open spec fn spec_without_stale(table: Seq<ReputationView>, now: i64) -> Seq<ReputationView> {
    table.filter(|r: ReputationView| !r.is_stale(now))
}

/// The table of host records, one per host name.
pub struct HostReputationManager {
    pub records: Vec<HostReputation>,
}

impl View for HostReputationManager {
    type V = Seq<ReputationView>;

    open spec fn view(&self) -> Seq<ReputationView> {
        Seq::new(self.records@.len(), |i: int| self.records@[i]@)
    }
}

impl HostReputationManager {
    /// No host has two records.
    pub open spec fn wf(&self) -> bool {
        forall|i: int, j: int|
            0 <= i < j < self@.len() ==> (#[trigger] self@[i]).domain != (#[trigger] self@[j]).domain
    }

    /// Every record is within its bounds.
    pub open spec fn all_within_bounds(&self) -> bool {
        forall|i: int| 0 <= i < self@.len() ==> (#[trigger] self@[i]).wf()
    }

    /// An empty table.
    pub fn new() -> (m: Self)
        ensures
            m@.len() == 0,
            m.wf(),
            m.all_within_bounds(),
    {
        HostReputationManager { records: Vec::new() }
    }

    /// Whether no host has two records.
    pub fn is_well_formed(&self) -> (b: bool)
        ensures
            b == self.wf(),
    {
        let mut keys: Vec<String> = Vec::new();
        let mut i: usize = 0;
        while i < self.records.len()
            invariant
                i <= self.records.len(),
                keys@.len() == i,
                forall|k: int| 0 <= k < i ==> (#[trigger] keys@[k])@ == self@[k].domain,
            decreases self.records.len() - i,
        {
            keys.push(self.records[i].domain.clone());
            i += 1;
        }
        let b = crate::text::all_distinct(&keys);
        proof {
            assert(crate::text::texts(keys@) =~= domains(self@));
            if b {
                assert forall|x: int, y: int| 0 <= x < y < self@.len() implies (
                #[trigger] self@[x]).domain != (#[trigger] self@[y]).domain by {
                    assert(domains(self@)[x] != domains(self@)[y]);
                }
            } else {
                let w = choose|x: int, y: int|
                    0 <= x < y < domains(self@).len() && domains(self@)[x] == domains(self@)[y];
                assert(self@[w.0].domain == self@[w.1].domain);
            }
        }
        b
    }

    /// Position of the record of `domain`.
    pub fn position(&self, domain: &str) -> (found: Option<usize>)
        ensures
            match found {
                Some(i) => spec_key_index(domains(self@), domain@) == Some(i as int) && i
                    < self.records@.len() && self@[i as int].domain == domain@,
                None => spec_key_index(domains(self@), domain@) is None,
            },
    {
        let key = String::from_str(domain);
        let mut i: usize = 0;
        while i < self.records.len()
            invariant
                i <= self.records.len(),
                key@ == domain@,
                forall|j: int| 0 <= j < i ==> domains(self@)[j] != domain@,
            decreases self.records.len() - i,
        {
            if self.records[i].domain == key {
                proof {
                    assert(domains(self@)[i as int] == domain@);
                    assert(is_first_key(domains(self@), domain@, i as int));
                    lemma_key_index_found(domains(self@), domain@, i as int);
                }
                return Some(i);
            }
            i += 1;
        }
        proof {
            lemma_key_index_none(domains(self@), domain@);
        }
        None
    }

    /// The record of `domain`, or the record an unknown host starts with,
    /// stamped `now`. Never fails.
    pub fn get_reputation_at(&self, domain: &str, now: i64) -> (rep: HostReputation)
        ensures
            rep@ == spec_get(self@, domain@, now),
            rep@.domain == domain@,
            self.all_within_bounds() ==> rep.wf(),
    {
        match self.position(domain) {
            Some(i) => self.records[i].duplicate(),
            None => HostReputation::fresh(domain, now),
        }
    }

    /// The record of `domain`, or the record an unknown host starts with,
    /// stamped with the current time.
    pub fn get_reputation(&self, domain: &str) -> (rep: HostReputation)
        ensures
            exists|now: i64| rep@ == spec_get(self@, domain@, now),
            rep@.domain == domain@,
            self.all_within_bounds() ==> rep.wf(),
    {
        let now = unix_now();
        let rep = self.get_reputation_at(domain, now);
        assert(rep@ == spec_get(self@, domain@, now));
        rep
    }

    /// The record of `domain`, if the table holds one.
    pub fn lookup(&self, domain: &str) -> (rep: Option<HostReputation>)
        ensures
            rep is Some == spec_lookup(self@, domain@) is Some,
            rep is Some ==> rep->0@ == spec_lookup(self@, domain@)->0,
    {
        match self.position(domain) {
            Some(i) => Some(self.records[i].duplicate()),
            None => None,
        }
    }

    /// Whether the table holds a record of `domain`.
    pub fn is_known(&self, domain: &str) -> (b: bool)
        ensures
            b == spec_key_index(domains(self@), domain@) is Some,
    {
        self.position(domain).is_some()
    }

    /// Writes the whole record under its host name.
    pub fn upsert_reputation(&mut self, reputation: &HostReputation)
        requires
            old(self).wf(),
        ensures
            final(self).wf(),
            final(self)@ == spec_upsert(old(self)@, reputation@),
            old(self).all_within_bounds() && reputation.wf() ==> final(self).all_within_bounds(),
    {
        let rep = reputation.duplicate();
        let ghost before = self@;
        match self.position(rep.domain.as_str()) {
            Some(i) => {
                self.records.set(i, rep);
                proof {
                    assert(self@ =~= before.update(i as int, reputation@));
                }
            },
            None => {
                self.records.push(rep);
                proof {
                    lemma_key_index_is_first(domains(before), reputation@.domain);
                    assert(self@ =~= before.push(reputation@));
                    assert forall|a: int, b: int| 0 <= a < b < self@.len() implies (
                    #[trigger] self@[a]).domain != (#[trigger] self@[b]).domain by {
                        if b == before.len() {
                            assert(domains(before)[a] != reputation@.domain);
                        } else {
                            assert(before[a].domain != before[b].domain);
                        }
                    }
                }
            },
        }
    }

    /// Folds `update`, observed at `now`, into the record of `domain`; a
    /// host that has no record yet starts from the record of an unknown
    /// host.
    pub fn record_at(&mut self, domain: &str, update: ReputationUpdate, now: i64)
        requires
            old(self).wf(),
        ensures
            final(self).wf(),
            final(self)@ == spec_upsert(
                old(self)@,
                spec_get(old(self)@, domain@, now).after(update, now),
            ),
            old(self).all_within_bounds() && keeps_bounds(update) ==> final(self).all_within_bounds(),
    {
        let mut rep = self.get_reputation_at(domain, now);
        rep.apply(update, now);
        self.upsert_reputation(&rep);
    }

    /// Records a successful download from `domain`.
    pub fn record_success(&mut self, domain: &str, speed_kbps: u32, connections_used: u8)
        requires
            old(self).wf(),
        ensures
            final(self).wf(),
            exists|now: i64|
                final(self)@ == spec_upsert(
                    old(self)@,
                    spec_get(old(self)@, domain@, now).after_success(
                        speed_kbps,
                        connections_used,
                        now,
                    ),
                ),
            old(self).all_within_bounds() ==> final(self).all_within_bounds(),
    {
        let now = unix_now();
        self.record_at(domain, ReputationUpdate::Success { speed_kbps, connections_used }, now);
        assert(self@ == spec_upsert(
            old(self)@,
            spec_get(old(self)@, domain@, now).after_success(speed_kbps, connections_used, now),
        ));
    }

    /// Records a failed download from `domain`.
    pub fn record_failure(&mut self, domain: &str, was_throttled: bool, was_range_error: bool)
        requires
            old(self).wf(),
        ensures
            final(self).wf(),
            exists|now: i64|
                final(self)@ == spec_upsert(
                    old(self)@,
                    spec_get(old(self)@, domain@, now).after_failure(
                        was_throttled,
                        was_range_error,
                        now,
                    ),
                ),
            old(self).all_within_bounds() ==> final(self).all_within_bounds(),
    {
        let now = unix_now();
        self.record_at(domain, ReputationUpdate::Failure { was_throttled, was_range_error }, now);
        assert(self@ == spec_upsert(
            old(self)@,
            spec_get(old(self)@, domain@, now).after_failure(was_throttled, was_range_error, now),
        ));
    }

    /// Records that the connections of a download from `domain` were cut
    /// to `collapsed_to`.
    pub fn record_connection_collapse(&mut self, domain: &str, collapsed_to: u8)
        requires
            old(self).wf(),
        ensures
            final(self).wf(),
            exists|now: i64|
                final(self)@ == spec_upsert(
                    old(self)@,
                    spec_get(old(self)@, domain@, now).after_collapse(collapsed_to, now),
                ),
            old(self).all_within_bounds() && collapsed_to >= 1 ==> final(self).all_within_bounds(),
    {
        let now = unix_now();
        self.record_at(domain, ReputationUpdate::Collapse { collapsed_to }, now);
        assert(self@ == spec_upsert(
            old(self)@,
            spec_get(old(self)@, domain@, now).after_collapse(collapsed_to, now),
        ));
    }

    /// A copy of every record, in table order.
    pub fn get_all_reputations(&self) -> (all: Vec<HostReputation>)
        ensures
            all@ == self.records@,
    {
        let mut all: Vec<HostReputation> = Vec::new();
        let mut i: usize = 0;
        while i < self.records.len()
            invariant
                i <= self.records.len(),
                all@ == self.records@.take(i as int),
            decreases self.records.len() - i,
        {
            all.push(self.records[i].duplicate());
            i += 1;
        }
        all
    }

    /// Deletes the records that are stale at `now` and returns how many
    /// went.
    pub fn cleanup_stale_records_at(&mut self, now: i64) -> (deleted: u64)
        requires
            old(self).wf(),
        ensures
            final(self).wf(),
            final(self)@ == spec_without_stale(old(self)@, now),
            deleted == old(self)@.len() - final(self)@.len(),
            old(self).all_within_bounds() ==> final(self).all_within_bounds(),
    {
        let mut kept: Vec<HostReputation> = Vec::new();
        let ghost before = self@;
        let ghost keep = |r: ReputationView| !r.is_stale(now);
        let mut i: usize = 0;
        let mut deleted: u64 = 0;
        // Each kept record remembers where it stood, so that distinct host
        // names stay distinct.
        let ghost mut origin: Seq<int> = Seq::empty();
        proof {
            reveal(Seq::filter);
            assert(before.take(0).filter(keep) =~= Seq::<ReputationView>::empty());
        }
        while i < self.records.len()
            invariant
                i <= self.records.len(),
                self@ == before,
                keep == (|r: ReputationView| !r.is_stale(now)),
                Seq::new(kept@.len(), |k: int| kept@[k]@) == before.take(i as int).filter(keep),
                deleted + kept@.len() == i,
                origin.len() == kept@.len(),
                forall|k: int| 0 <= k < origin.len() ==> 0 <= #[trigger] origin[k] < i && kept@[k]@
                    == before[origin[k]],
                forall|a: int, b: int| 0 <= a < b < origin.len() ==> origin[a] < origin[b],
            decreases self.records.len() - i,
        {
            let r = &self.records[i];
            let stale = (r.last_updated as i128) < (now as i128) - (STALE_AFTER_SECS as i128)
                && r.success_count < KEEP_MIN_SUCCESSES;
            proof {
                assert(before.take(i + 1).drop_last() =~= before.take(i as int));
                assert(before.take(i + 1).last() == before[i as int]);
                reveal(Seq::filter);
                assert(stale == before[i as int].is_stale(now));
            }
            if stale {
                deleted += 1;
            } else {
                let ghost prev = Seq::new(kept@.len(), |k: int| kept@[k]@);
                kept.push(r.duplicate());
                proof {
                    origin = origin.push(i as int);
                    assert(Seq::new(kept@.len(), |k: int| kept@[k]@) =~= prev.push(
                        before[i as int],
                    ));
                }
            }
            i += 1;
        }
        proof {
            assert(before.take(i as int) =~= before);
        }
        self.records = kept;
        proof {
            assert(self@ =~= spec_without_stale(before, now));
            assert forall|a: int, b: int| 0 <= a < b < self@.len() implies (#[trigger] self@[a]).domain
                != (#[trigger] self@[b]).domain by {
                assert(self@[a] == before[origin[a]]);
                assert(self@[b] == before[origin[b]]);
                assert(before[origin[a]].domain != before[origin[b]].domain);
            }
            assert forall|k: int| 0 <= k < self@.len() && old(self).all_within_bounds() implies (
            #[trigger] self@[k]).wf() by {
                assert(self@[k] == before[origin[k]]);
            }
        }
        deleted
    }

    /// Deletes the records that are stale now and returns how many went.
    pub fn cleanup_stale_records(&mut self) -> (deleted: u64)
        requires
            old(self).wf(),
        ensures
            final(self).wf(),
            exists|now: i64| final(self)@ == spec_without_stale(old(self)@, now),
            deleted == old(self)@.len() - final(self)@.len(),
            old(self).all_within_bounds() ==> final(self).all_within_bounds(),
    {
        let now = unix_now();
        let deleted = self.cleanup_stale_records_at(now);
        assert(self@ == spec_without_stale(old(self)@, now));
        deleted
    }
}

/// The host of a URL in lower case: the host that the URL parser finds,
/// lower-cased. `None` for text that is no URL and for URLs without a host.
pub open spec fn spec_extract_domain(url: Seq<char>) -> Option<Seq<char>> {
    match spec_url_parts(url) {
        Some(parts) => match parts.host {
            Some(h) => Some(spec_lowercase(h)),
            None => None,
        },
        None => None,
    }
}

/// The host of a URL in lower case.
pub fn extract_domain(url: &str) -> (domain: Option<String>)
    ensures
        domain is Some == spec_extract_domain(url@) is Some,
        domain is Some ==> domain->0@ == spec_extract_domain(url@)->0,
{
    match parse_url(url) {
        Some(parsed) => domain_of(parsed.host),
        None => None,
    }
}

/// The lower-case form of a host, where there is one.
pub fn domain_of(host: Option<String>) -> (domain: Option<String>)
    ensures
        domain is Some == host is Some,
        domain is Some ==> domain->0@ == spec_lowercase(host->0@),
{
    match host {
        Some(h) => Some(lowercase(h.as_str())),
        None => None,
    }
}

} // verus!
