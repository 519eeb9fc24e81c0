//! The watchdog: a periodic look at the health of every running download,
//! and the measures that follow from it.
//!
//! The watchdog cuts connections and switches to safe mode on its own. It
//! never moves a download from the native engine to the media extractor:
//! that switch is only ever recommended to the user.
use vstd::prelude::*;
use crate::clock::unix_now;
use crate::health_metrics::{
    spec_health, table_with_collapse, ActionView, DownloadEngine, DownloadHealth, DownloadPhase,
    HealthMetricsRegistry, HealthView, WatchdogAction,
};
use crate::text::{
    is_first_key, lemma_key_index_found, lemma_key_index_is_first, lemma_key_index_none,
    push_decimal, push_fixed2, push_str, spec_decimal, spec_fixed2, spec_key_index, string_of,
};

verus! {

/// Ticks without a byte received after which the watchdog acts.
pub const STALL_TICKS: u32 = 5;

/// Kinds of event that the watchdog reports.
#[derive(Debug, Clone, Copy, PartialEq, Eq, Structural)]
pub enum WatchdogEventType {
    HealthUpdate,
    ThrottlingDetected,
    ConnectionsCollapsed,
    SafeModeActivated,
    EngineSwitchRecommended,
    CriticalFailure,
    Recovered,
}

/// An event for the user interface.
#[derive(Debug, Clone)]
pub struct WatchdogEvent {
    pub download_id: String,
    pub event_type: WatchdogEventType,
    pub message: String,
    /// The health of the download when the event was made.
    pub health: Option<DownloadHealth>,
    /// What the user is advised to do, if anything.
    pub user_action: Option<String>,
}

/// The mathematical content of a `WatchdogEvent`.
pub struct EventView {
    pub download_id: Seq<char>,
    pub event_type: WatchdogEventType,
    pub message: Seq<char>,
    pub health: Option<HealthView>,
    pub user_action: Option<Seq<char>>,
}

impl View for WatchdogEvent {
    type V = EventView;

    open spec fn view(&self) -> EventView {
        EventView {
            download_id: self.download_id@,
            event_type: self.event_type,
            message: self.message@,
            health: match self.health {
                Some(h) => Some(h@),
                None => None,
            },
            user_action: match self.user_action {
                Some(a) => Some(a@),
                None => None,
            },
        }
    }
}

/// Settings of the watchdog.
#[derive(Debug, Clone, Copy, PartialEq, Eq, Structural)]
pub struct WatchdogConfig {
    /// Time between two looks, in milliseconds.
    pub check_interval_ms: u64,
    pub min_throughput_bps: u64,
    /// New errors within one tick from which the watchdog acts.
    pub max_consecutive_errors: u32,
    pub error_window_seconds: u64,
    pub auto_collapse: bool,
    pub auto_safe_mode: bool,
}

impl Default for WatchdogConfig {
    /// A look every second; 10 KB/s; 5 errors; a window of 60 s; both
    /// automatic measures on.
    fn default() -> (c: Self)
        ensures
            c == WatchdogConfig::standard(),
    {
        WatchdogConfig {
            check_interval_ms: 1000,
            min_throughput_bps: 10000,
            max_consecutive_errors: 5,
            error_window_seconds: 60,
            auto_collapse: true,
            auto_safe_mode: true,
        }
    }
}

impl WatchdogConfig {
    /// The standard settings.
    pub open spec fn standard() -> WatchdogConfig {
        WatchdogConfig {
            check_interval_ms: 1000,
            min_throughput_bps: 10000,
            max_consecutive_errors: 5,
            error_window_seconds: 60,
            auto_collapse: true,
            auto_safe_mode: true,
        }
    }
}

/// Orders to the watchdog.
#[derive(Debug, Clone)]
pub enum WatchdogCommand {
    StartMonitoring(String),
    StopMonitoring(String),
    /// Cut the connections of a download to the given count.
    ForceCollapse(String, u8),
    ForceSafeMode(String),
    Shutdown,
}

/// What the caller of the watchdog has to do after an order was handled.
#[derive(Debug, Clone, Copy, PartialEq, Eq, Structural)]
pub enum CommandEffect {
    /// Nothing; go on.
    Continue,
    /// Tell the engine to go on with this many connections.
    Collapse(u8),
    /// Tell the engine to go on in safe mode.
    SafeMode,
    /// Leave the loop.
    Stop,
}

/// What the watchdog remembers of one download between two looks.
#[derive(Debug, Clone)]
pub struct WatchdogState {
    pub download_id: String,
    /// Byte counter at the last look.
    pub last_check_bytes: u64,
    /// Error counter at the last look.
    pub last_check_errors: u32,
    /// Looks in a row at which no byte had been received.
    pub consecutive_stalls: u32,
    /// The actions issued for this download so far.
    pub actions_taken: Vec<WatchdogAction>,
}

/// The mathematical content of a `WatchdogState`.
pub struct WatchView {
    pub download_id: Seq<char>,
    pub last_check_bytes: u64,
    pub last_check_errors: u32,
    pub consecutive_stalls: u32,
    pub actions_taken: Seq<ActionView>,
}

/// The views of a list of actions.
pub open spec fn action_views(list: Seq<WatchdogAction>) -> Seq<ActionView> {
    Seq::new(list.len(), |i: int| list[i]@)
}

impl View for WatchdogState {
    type V = WatchView;

    open spec fn view(&self) -> WatchView {
        WatchView {
            download_id: self.download_id@,
            last_check_bytes: self.last_check_bytes,
            last_check_errors: self.last_check_errors,
            consecutive_stalls: self.consecutive_stalls,
            actions_taken: action_views(self.actions_taken@),
        }
    }
}

/// Half of `active`, at least 1.
pub open spec fn spec_halved(active: u8) -> u8 {
    if active / 2 < 1 {
        1
    } else {
        (active / 2) as u8
    }
}

/// The decision rules, in order:
///
/// 1. five stalled looks in safe mode: recommend the engine switch;
/// 2. five stalled looks with several connections: halve them;
/// 3. five stalled looks otherwise: safe mode;
/// 4. five or more new errors with several connections: halve them;
/// 5. throttling: down to 2 connections from more, down to 1 from 2, safe
///    mode from 1;
/// 6. otherwise nothing.
pub open spec fn spec_decision(
    stalls: u32,
    new_errors: u32,
    max_errors: u32,
    health: HealthView,
) -> ActionView {
    if stalls >= STALL_TICKS && health.safe_mode_active {
        ActionView::RecommendEngineSwitch
    } else if stalls >= STALL_TICKS && health.active_connections > 1 {
        ActionView::CollapseConnections(spec_halved(health.active_connections))
    } else if stalls >= STALL_TICKS {
        ActionView::EnableSafeMode
    } else if new_errors >= max_errors && health.active_connections > 1 {
        ActionView::CollapseConnections(spec_halved(health.active_connections))
    } else if health.throttling_detected {
        if health.active_connections > 2 {
            ActionView::CollapseConnections(2)
        } else if health.active_connections > 1 {
            ActionView::CollapseConnections(1)
        } else {
            ActionView::EnableSafeMode
        }
    } else {
        ActionView::NoAction
    }
}

impl WatchView {
    /// What is remembered of a download when monitoring begins.
    pub open spec fn fresh(download_id: Seq<char>) -> WatchView {
        WatchView {
            download_id,
            last_check_bytes: 0,
            last_check_errors: 0,
            consecutive_stalls: 0,
            actions_taken: Seq::empty(),
        }
    }

    /// No byte was received since the last look.
    pub open spec fn stalled(self, health: HealthView) -> bool {
        health.downloaded_bytes <= self.last_check_bytes
    }

    /// Errors since the last look.
    pub open spec fn new_errors(self, health: HealthView) -> u32 {
        if health.total_errors >= self.last_check_errors {
            (health.total_errors - self.last_check_errors) as u32
        } else {
            0
        }
    }

    /// Stalled looks in a row, this look included.
    pub open spec fn stalls_now(self, health: HealthView) -> u32 {
        if !self.stalled(health) {
            0
        } else if self.consecutive_stalls == u32::MAX {
            u32::MAX
        } else {
            (self.consecutive_stalls + 1) as u32
        }
    }

    /// What the rules say at this look.
    pub open spec fn decision(self, health: HealthView, max_errors: u32) -> ActionView {
        spec_decision(self.stalls_now(health), self.new_errors(health), max_errors, health)
    }

    /// The action issued at this look: what the rules say, unless that is
    /// nothing or was issued before.
    pub open spec fn emits(self, health: HealthView, max_errors: u32) -> Option<ActionView> {
        let d = self.decision(health, max_errors);
        if d != ActionView::NoAction && !self.actions_taken.contains(d) {
            Some(d)
        } else {
            None
        }
    }

    /// What is remembered after this look.
    pub open spec fn after_look(self, health: HealthView, max_errors: u32) -> WatchView {
        WatchView {
            last_check_bytes: health.downloaded_bytes,
            last_check_errors: health.total_errors,
            consecutive_stalls: self.stalls_now(health),
            actions_taken: match self.emits(health, max_errors) {
                Some(a) => self.actions_taken.push(a),
                None => self.actions_taken,
            },
            ..self
        }
    }

    /// What is remembered after the looks `healths`, in order.
    pub open spec fn after_looks(self, healths: Seq<HealthView>, max_errors: u32) -> WatchView
        decreases healths.len(),
    {
        if healths.len() == 0 {
            self
        } else {
            self.after_looks(healths.drop_last(), max_errors).after_look(
                healths.last(),
                max_errors,
            )
        }
    }

    /// The actions issued over the looks `healths`, in order.
    pub open spec fn emitted(self, healths: Seq<HealthView>, max_errors: u32) -> Seq<ActionView>
        decreases healths.len(),
    {
        if healths.len() == 0 {
            Seq::empty()
        } else {
            let before = self.emitted(healths.drop_last(), max_errors);
            match self.after_looks(healths.drop_last(), max_errors).emits(
                healths.last(),
                max_errors,
            ) {
                Some(a) => before.push(a),
                None => before,
            }
        }
    }
}

/// Watchdog idempotence, first half: at a look at which the rules say
/// nothing, nothing is issued and the list of issued actions stays as it
/// is.
pub proof fn lemma_quiet_when_healthy(state: WatchView, health: HealthView, max_errors: u32)
    requires
        state.decision(health, max_errors) == ActionView::NoAction,
    ensures
        state.emits(health, max_errors) is None,
        state.after_look(health, max_errors).actions_taken == state.actions_taken,
{
}

/// Over any number of looks at which the rules say nothing, nothing is
/// issued.
pub proof fn lemma_quiet_over_looks(state: WatchView, healths: Seq<HealthView>, max_errors: u32)
    requires
        forall|k: int|
            0 <= k < healths.len() ==> (#[trigger] state.after_looks(
                healths.take(k),
                max_errors,
            )).decision(healths[k], max_errors) == ActionView::NoAction,
    ensures
        state.emitted(healths, max_errors).len() == 0,
        state.after_looks(healths, max_errors).actions_taken == state.actions_taken,
    decreases healths.len(),
{
    if healths.len() > 0 {
        let n = healths.len() - 1;
        let front = healths.drop_last();
        assert forall|k: int| 0 <= k < front.len() implies (#[trigger] state.after_looks(
            front.take(k),
            max_errors,
        )).decision(front[k], max_errors) == ActionView::NoAction by {
            assert(front.take(k) =~= healths.take(k));
            assert(state.after_looks(healths.take(k), max_errors).decision(healths[k], max_errors)
                == ActionView::NoAction);
        }
        lemma_quiet_over_looks(state, front, max_errors);
        assert(healths.take(n) =~= front);
        assert(state.after_looks(healths.take(n), max_errors).decision(healths[n], max_errors)
            == ActionView::NoAction);
    }
}

/// Every action issued over a run of looks is in the list of issued
/// actions afterwards; that list only grows; and where it held no action
/// twice before, it holds none twice after.
pub proof fn lemma_emitted_are_recorded(state: WatchView, healths: Seq<HealthView>, max_errors: u32)
    requires
        state.actions_taken.no_duplicates(),
    ensures
        state.after_looks(healths, max_errors).actions_taken.no_duplicates(),
        state.after_looks(healths, max_errors).actions_taken == state.actions_taken + state.emitted(
            healths,
            max_errors,
        ),
    decreases healths.len(),
{
    if healths.len() > 0 {
        lemma_emitted_are_recorded(state, healths.drop_last(), max_errors);
        let mid = state.after_looks(healths.drop_last(), max_errors);
        let before = state.emitted(healths.drop_last(), max_errors);
        match mid.emits(healths.last(), max_errors) {
            Some(a) => {
                assert(mid.actions_taken.push(a) =~= state.actions_taken + before.push(a));
                assert forall|i: int, j: int|
                    0 <= i < mid.actions_taken.push(a).len() && 0 <= j < mid.actions_taken.push(
                        a,
                    ).len() && i != j implies mid.actions_taken.push(a)[i]
                    != mid.actions_taken.push(a)[j] by {
                    if i == mid.actions_taken.len() {
                        assert(mid.actions_taken[j] != a);
                    } else if j == mid.actions_taken.len() {
                        assert(mid.actions_taken[i] != a);
                    }
                }
            },
            None => {},
        }
    } else {
        assert(state.actions_taken + Seq::<ActionView>::empty() =~= state.actions_taken);
    }
}

/// Watchdog idempotence, second half: over any run of looks, no action is
/// issued twice.
pub proof fn lemma_never_issued_twice(state: WatchView, healths: Seq<HealthView>, max_errors: u32)
    requires
        state.actions_taken.no_duplicates(),
    ensures
        state.emitted(healths, max_errors).no_duplicates(),
        forall|i: int|
            0 <= i < state.emitted(healths, max_errors).len() ==> !state.actions_taken.contains(
                #[trigger] state.emitted(healths, max_errors)[i],
            ),
{
    lemma_emitted_are_recorded(state, healths, max_errors);
    let all = state.after_looks(healths, max_errors).actions_taken;
    let em = state.emitted(healths, max_errors);
    let n = state.actions_taken.len() as int;
    assert forall|i: int, j: int| 0 <= i < em.len() && 0 <= j < em.len() && i != j implies em[i]
        != em[j] by {
        assert(all[n + i] == em[i]);
        assert(all[n + j] == em[j]);
    }
    assert forall|i: int| 0 <= i < em.len() implies !state.actions_taken.contains(
        #[trigger] em[i],
    ) by {
        assert(all[n + i] == em[i]);
        if state.actions_taken.contains(em[i]) {
            let k = choose|k: int| 0 <= k < n && state.actions_taken[k] == em[i];
            assert(all[k] == em[i]);
        }
    }
}

/// No rule ever asks for the media extractor: the watchdog's measures are
/// collapse and safe mode, and the engine switch is a recommendation.
pub proof fn lemma_decision_kinds(stalls: u32, new_errors: u32, max_errors: u32, health: HealthView)
    ensures
        spec_decision(stalls, new_errors, max_errors, health) is NoAction || spec_decision(
            stalls,
            new_errors,
            max_errors,
            health,
        ) is CollapseConnections || spec_decision(stalls, new_errors, max_errors, health)
            is EnableSafeMode || spec_decision(stalls, new_errors, max_errors, health)
            is RecommendEngineSwitch,
        spec_decision(stalls, new_errors, max_errors, health) matches ActionView::CollapseConnections(
            n,
        ) ==> 1 <= n < health.active_connections,
{
}

impl WatchdogState {
    /// What is remembered of a download when monitoring begins.
    pub fn new(download_id: &str) -> (s: Self)
        ensures
            s@ == WatchView::fresh(download_id@),
    {
        let s = WatchdogState {
            download_id: String::from_str(download_id),
            last_check_bytes: 0,
            last_check_errors: 0,
            consecutive_stalls: 0,
            actions_taken: Vec::new(),
        };
        proof {
            assert(s@.actions_taken =~= Seq::<ActionView>::empty());
        }
        s
    }

    /// Whether `action` was issued for this download before.
    pub fn has_taken(&self, action: &WatchdogAction) -> (b: bool)
        ensures
            b == self@.actions_taken.contains(action@),
    {
        let mut i: usize = 0;
        while i < self.actions_taken.len()
            invariant
                i <= self.actions_taken.len(),
                forall|j: int| 0 <= j < i ==> self@.actions_taken[j] != action@,
            decreases self.actions_taken.len() - i,
        {
            if self.actions_taken[i].same_as(action) {
                proof {
                    assert(self@.actions_taken[i as int] == action@);
                }
                return true;
            }
            i += 1;
        }
        false
    }

    /// One look at the download: the counters are brought up to date, the
    /// rules are consulted, and an action that was not issued before is
    /// recorded and handed out.
    pub fn look(&mut self, health: &DownloadHealth, max_errors: u32) -> (action: Option<
        WatchdogAction,
    >)
        ensures
            final(self)@ == old(self)@.after_look(health@, max_errors),
            action is Some == old(self)@.emits(health@, max_errors) is Some,
            action is Some ==> action->0@ == old(self)@.emits(health@, max_errors)->0,
    {
        let stalled = health.downloaded_bytes <= self.last_check_bytes;
        let new_errors: u32 = if health.total_errors >= self.last_check_errors {
            health.total_errors - self.last_check_errors
        } else {
            0
        };
        if !stalled {
            self.consecutive_stalls = 0;
        } else if self.consecutive_stalls < u32::MAX {
            self.consecutive_stalls = self.consecutive_stalls + 1;
        }
        self.last_check_bytes = health.downloaded_bytes;
        self.last_check_errors = health.total_errors;
        let decision = decide(self.consecutive_stalls, new_errors, max_errors, health);
        let quiet = match decision {
            WatchdogAction::NoAction => true,
            _ => false,
        };
        if !quiet && !self.has_taken(&decision) {
            let ghost before = self@.actions_taken;
            let out = decision.duplicate();
            self.actions_taken.push(decision);
            proof {
                assert(self@.actions_taken =~= before.push(out@));
            }
            Some(out)
        } else {
            None
        }
    }
}

/// What the rules say for the given counters and health.
pub fn decide(stalls: u32, new_errors: u32, max_errors: u32, health: &DownloadHealth) -> (action:
    WatchdogAction)
    ensures
        action@ == spec_decision(stalls, new_errors, max_errors, health@),
{
    let active = health.active_connections;
    let halved: u8 = if active / 2 < 1 {
        1
    } else {
        active / 2
    };
    if stalls >= STALL_TICKS && health.safe_mode_active {
        WatchdogAction::RecommendEngineSwitch
    } else if stalls >= STALL_TICKS && active > 1 {
        WatchdogAction::CollapseConnections(halved)
    } else if stalls >= STALL_TICKS {
        WatchdogAction::EnableSafeMode
    } else if new_errors >= max_errors && active > 1 {
        WatchdogAction::CollapseConnections(halved)
    } else if health.throttling_detected {
        if active > 2 {
            WatchdogAction::CollapseConnections(2)
        } else if active > 1 {
            WatchdogAction::CollapseConnections(1)
        } else {
            WatchdogAction::EnableSafeMode
        }
    } else {
        WatchdogAction::NoAction
    }
}

/// A number of bytes as a label: `B` below 1 KiB, otherwise two decimals of
/// the largest binary unit that fits.
pub open spec fn spec_format_bytes(bytes: u64) -> Seq<char> {
    if bytes >= 1073741824 {
        spec_fixed2(bytes as nat, 1073741824) + " GB"@
    } else if bytes >= 1048576 {
        spec_fixed2(bytes as nat, 1048576) + " MB"@
    } else if bytes >= 1024 {
        spec_fixed2(bytes as nat, 1024) + " KB"@
    } else {
        spec_decimal(bytes as nat) + " B"@
    }
}

/// A human-readable number of bytes.
pub fn format_bytes(bytes: u64) -> (label: String)
    ensures
        label@ == spec_format_bytes(bytes),
{
    let mut out: Vec<char> = Vec::new();
    if bytes >= 1073741824 {
        push_fixed2(&mut out, bytes, 1073741824);
        push_str(&mut out, " GB");
    } else if bytes >= 1048576 {
        push_fixed2(&mut out, bytes, 1048576);
        push_str(&mut out, " MB");
    } else if bytes >= 1024 {
        push_fixed2(&mut out, bytes, 1024);
        push_str(&mut out, " KB");
    } else {
        push_decimal(&mut out, bytes as u128);
        push_str(&mut out, " B");
    }
    string_of(&out)
}

/// The ids of a list of monitored downloads.
pub open spec fn watch_ids(states: Seq<WatchView>) -> Seq<Seq<char>> {
    Seq::new(states.len(), |i: int| states[i].download_id)
}

/// The views of a list of states.
pub open spec fn state_views(list: Seq<WatchdogState>) -> Seq<WatchView> {
    Seq::new(list.len(), |i: int| list[i]@)
}

/// `states` with monitoring of `id` begun afresh: in the place of what was
/// remembered of `id`, or at the end.
pub open spec fn spec_started(states: Seq<WatchView>, id: Seq<char>) -> Seq<WatchView> {
    match spec_key_index(watch_ids(states), id) {
        Some(i) => states.update(i, WatchView::fresh(id)),
        None => states.push(WatchView::fresh(id)),
    }
}

/// `states` without what was remembered of `id`.
pub open spec fn spec_stopped(states: Seq<WatchView>, id: Seq<char>) -> Seq<WatchView> {
    match spec_key_index(watch_ids(states), id) {
        Some(i) => states.remove(i),
        None => states,
    }
}

/// The health at which monitored download `k` is looked at: what the
/// registry tracks of it, provided it is in its downloading phase.
pub open spec fn spec_watched_health(
    states: Seq<WatchView>,
    table: Seq<HealthView>,
    k: int,
) -> Option<HealthView> {
    match spec_health(table, states[k].download_id) {
        Some(h) => if h.phase == DownloadPhase::Downloading {
            Some(h)
        } else {
            None
        },
        None => None,
    }
}

/// `states` after a look at monitored download `k`.
pub open spec fn spec_checked(
    states: Seq<WatchView>,
    table: Seq<HealthView>,
    k: int,
    max_errors: u32,
) -> Seq<WatchView> {
    match spec_watched_health(states, table, k) {
        Some(h) => states.update(k, states[k].after_look(h, max_errors)),
        None => states,
    }
}

/// The action issued by a look at monitored download `k`.
pub open spec fn spec_check_emits(
    states: Seq<WatchView>,
    table: Seq<HealthView>,
    k: int,
    max_errors: u32,
) -> Option<ActionView> {
    match spec_watched_health(states, table, k) {
        Some(h) => states[k].emits(h, max_errors),
        None => None,
    }
}

/// `states` after a look at each of the first `n` monitored downloads.
pub open spec fn spec_checked_upto(
    states: Seq<WatchView>,
    table: Seq<HealthView>,
    n: int,
    max_errors: u32,
) -> Seq<WatchView>
    decreases n,
{
    if n <= 0 {
        states
    } else {
        spec_checked(spec_checked_upto(states, table, n - 1, max_errors), table, n - 1, max_errors)
    }
}

/// The actions issued by a look at each of the first `n` monitored
/// downloads, in order.
pub open spec fn spec_issued_upto(
    states: Seq<WatchView>,
    table: Seq<HealthView>,
    n: int,
    max_errors: u32,
) -> Seq<ActionView>
    decreases n,
{
    if n <= 0 {
        Seq::empty()
    } else {
        let before = spec_issued_upto(states, table, n - 1, max_errors);
        match spec_check_emits(
            spec_checked_upto(states, table, n - 1, max_errors),
            table,
            n - 1,
            max_errors,
        ) {
            Some(a) => before.push(a),
            None => before,
        }
    }
}

/// The ids of the downloads for which a look at each of the first `n`
/// monitored downloads issues an action, in order.
pub open spec fn spec_issued_ids_upto(
    states: Seq<WatchView>,
    table: Seq<HealthView>,
    n: int,
    max_errors: u32,
) -> Seq<Seq<char>>
    decreases n,
{
    if n <= 0 {
        Seq::empty()
    } else {
        let before = spec_issued_ids_upto(states, table, n - 1, max_errors);
        match spec_check_emits(
            spec_checked_upto(states, table, n - 1, max_errors),
            table,
            n - 1,
            max_errors,
        ) {
            Some(_) => before.push(states[n - 1].download_id),
            None => before,
        }
    }
}

/// The actions of a list of issued actions.
pub open spec fn issued_actions(issued: Seq<(String, WatchdogAction)>) -> Seq<ActionView> {
    Seq::new(issued.len(), |i: int| issued[i].1@)
}

/// The ids of a list of issued actions.
pub open spec fn issued_ids(issued: Seq<(String, WatchdogAction)>) -> Seq<Seq<char>> {
    Seq::new(issued.len(), |i: int| issued[i].0@)
}

/// The message of the event that reports `action`.
pub open spec fn spec_action_message(action: ActionView) -> Seq<char> {
    match action {
        ActionView::CollapseConnections(n) => "Connections reduced to "@ + spec_decimal(n as nat)
            + " due to throttling"@,
        ActionView::EnableSafeMode => "Safe Mode enabled - single connection with HTTP/2"@,
        ActionView::RecommendEngineSwitch => "Download struggling - consider switching to Media Engine"@,
        ActionView::CriticalFailure(reason) => "Download critically failed: "@ + reason,
        ActionView::NoAction => Seq::empty(),
    }
}

/// The kind of the event that reports `action`.
pub open spec fn spec_action_event_type(action: ActionView) -> WatchdogEventType {
    match action {
        ActionView::CollapseConnections(_) => WatchdogEventType::ConnectionsCollapsed,
        ActionView::EnableSafeMode => WatchdogEventType::SafeModeActivated,
        ActionView::RecommendEngineSwitch => WatchdogEventType::EngineSwitchRecommended,
        ActionView::CriticalFailure(_) => WatchdogEventType::CriticalFailure,
        ActionView::NoAction => WatchdogEventType::HealthUpdate,
    }
}

/// What the user is advised to do about `action`.
pub open spec fn spec_action_advice(action: ActionView) -> Option<Seq<char>> {
    match action {
        ActionView::RecommendEngineSwitch => Some("Switch to Media Engine"@),
        ActionView::CriticalFailure(_) => Some("Retry with Media Engine"@),
        _ => None,
    }
}

/// The registry after `action` was carried out on `id` at `now`: a collapse
/// is recorded, safe mode is switched on, and nothing else touches the
/// registry.
pub open spec fn spec_table_after_action(
    table: Seq<HealthView>,
    id: Seq<char>,
    action: ActionView,
    now: i64,
) -> Seq<HealthView> {
    match action {
        ActionView::CollapseConnections(n) => table_with_collapse(table, id, n, now),
        ActionView::EnableSafeMode => match spec_health(table, id) {
            Some(h) => crate::health_metrics::spec_replace(table, id, h.with_safe_mode(true)),
            None => table,
        },
        _ => table,
    }
}

/// The message of a health update: engine, throughput and connections.
pub open spec fn spec_health_message(health: HealthView) -> Seq<char> {
    health.engine.spec_badge() + " @ "@ + spec_format_bytes(health.total_throughput_bps) + "/s ("@
        + spec_decimal(health.active_connections as nat) + " connections)"@
}

/// The watchdog: its settings and what it remembers of each monitored
/// download.
pub struct Watchdog {
    pub config: WatchdogConfig,
    pub monitored_downloads: Vec<WatchdogState>,
}

impl View for Watchdog {
    type V = Seq<WatchView>;

    open spec fn view(&self) -> Seq<WatchView> {
        state_views(self.monitored_downloads@)
    }
}

impl Watchdog {
    /// No download is monitored twice.
    pub open spec fn wf(&self) -> bool {
        forall|i: int, j: int|
            0 <= i < j < self@.len() ==> (#[trigger] self@[i]).download_id != (
            #[trigger] self@[j]).download_id
    }

    /// A watchdog with the standard settings that monitors nothing.
    pub fn new() -> (w: Self)
        ensures
            w.wf(),
            w@.len() == 0,
            w.config == WatchdogConfig::standard(),
    {
        Watchdog { config: WatchdogConfig::default(), monitored_downloads: Vec::new() }
    }

    /// A watchdog with settings of the caller's choice.
    pub fn with_config(config: WatchdogConfig) -> (w: Self)
        ensures
            w.wf(),
            w@.len() == 0,
            w.config == config,
    {
        Watchdog { config, monitored_downloads: Vec::new() }
    }

    /// Whether no download is monitored twice.
    pub fn is_well_formed(&self) -> (b: bool)
        ensures
            b == self.wf(),
    {
        let mut keys: Vec<String> = Vec::new();
        let mut i: usize = 0;
        while i < self.monitored_downloads.len()
            invariant
                i <= self.monitored_downloads.len(),
                keys@.len() == i,
                forall|k: int| 0 <= k < i ==> (#[trigger] keys@[k])@ == self@[k].download_id,
            decreases self.monitored_downloads.len() - i,
        {
            keys.push(self.monitored_downloads[i].download_id.clone());
            i += 1;
        }
        let b = crate::text::all_distinct(&keys);
        proof {
            assert(crate::text::texts(keys@) =~= watch_ids(self@));
            if b {
                assert forall|x: int, y: int| 0 <= x < y < self@.len() implies (
                #[trigger] self@[x]).download_id != (#[trigger] self@[y]).download_id by {
                    assert(watch_ids(self@)[x] != watch_ids(self@)[y]);
                }
            } else {
                let w = choose|x: int, y: int|
                    0 <= x < y < watch_ids(self@).len() && watch_ids(self@)[x] == watch_ids(
                        self@,
                    )[y];
                assert(self@[w.0].download_id == self@[w.1].download_id);
            }
        }
        b
    }

    /// Position of what is remembered of `download_id`.
    pub fn position(&self, download_id: &str) -> (found: Option<usize>)
        ensures
            match found {
                Some(i) => spec_key_index(watch_ids(self@), download_id@) == Some(i as int) && i
                    < self@.len() && self@[i as int].download_id == download_id@,
                None => spec_key_index(watch_ids(self@), download_id@) is None,
            },
    {
        let key = String::from_str(download_id);
        let mut i: usize = 0;
        while i < self.monitored_downloads.len()
            invariant
                i <= self.monitored_downloads.len(),
                key@ == download_id@,
                forall|j: int| 0 <= j < i ==> watch_ids(self@)[j] != download_id@,
            decreases self.monitored_downloads.len() - i,
        {
            if self.monitored_downloads[i].download_id == key {
                proof {
                    assert(watch_ids(self@)[i as int] == download_id@);
                    assert(is_first_key(watch_ids(self@), download_id@, i as int));
                    lemma_key_index_found(watch_ids(self@), download_id@, i as int);
                }
                return Some(i);
            }
            i += 1;
        }
        proof {
            lemma_key_index_none(watch_ids(self@), download_id@);
        }
        None
    }

    /// Whether `download_id` is monitored.
    pub fn is_monitoring(&self, download_id: &str) -> (b: bool)
        ensures
            b == spec_key_index(watch_ids(self@), download_id@) is Some,
    {
        self.position(download_id).is_some()
    }

    /// Begins to monitor a download; what was remembered of it is
    /// forgotten.
    pub fn start_monitoring(&mut self, download_id: &str)
        requires
            old(self).wf(),
        ensures
            final(self).wf(),
            final(self).config == old(self).config,
            final(self)@ == spec_started(old(self)@, download_id@),
            spec_key_index(watch_ids(final(self)@), download_id@) is Some,
    {
        let ghost before = self@;
        let state = WatchdogState::new(download_id);
        match self.position(download_id) {
            Some(i) => {
                self.monitored_downloads.set(i, state);
                proof {
                    assert(self@ =~= before.update(i as int, WatchView::fresh(download_id@)));
                    assert(is_first_key(watch_ids(self@), download_id@, i as int)) by {
                        lemma_key_index_is_first(watch_ids(before), download_id@);
                        assert forall|j: int| 0 <= j < i implies watch_ids(self@)[j]
                            != download_id@ by {
                            assert(watch_ids(before)[j] != download_id@);
                        }
                    }
                    lemma_key_index_found(watch_ids(self@), download_id@, i as int);
                }
            },
            None => {
                self.monitored_downloads.push(state);
                proof {
                    lemma_key_index_is_first(watch_ids(before), download_id@);
                    assert(self@ =~= before.push(WatchView::fresh(download_id@)));
                    assert forall|a: int, b: int| 0 <= a < b < self@.len() implies (
                    #[trigger] self@[a]).download_id != (#[trigger] self@[b]).download_id by {
                        if b == before.len() {
                            assert(watch_ids(before)[a] != download_id@);
                        } else {
                            assert(before[a].download_id != before[b].download_id);
                        }
                    }
                    let n = before.len() as int;
                    assert(is_first_key(watch_ids(self@), download_id@, n)) by {
                        assert forall|j: int| 0 <= j < n implies watch_ids(self@)[j]
                            != download_id@ by {
                            assert(watch_ids(before)[j] != download_id@);
                        }
                    }
                    lemma_key_index_found(watch_ids(self@), download_id@, n);
                }
            },
        }
    }

    /// Ends the monitoring of a download.
    pub fn stop_monitoring(&mut self, download_id: &str)
        requires
            old(self).wf(),
        ensures
            final(self).wf(),
            final(self).config == old(self).config,
            final(self)@ == spec_stopped(old(self)@, download_id@),
            spec_key_index(watch_ids(final(self)@), download_id@) is None,
    {
        let ghost before = self@;
        match self.position(download_id) {
            Some(i) => {
                self.monitored_downloads.remove(i);
                proof {
                    assert(self@ =~= before.remove(i as int));
                    assert forall|a: int, b: int| 0 <= a < b < self@.len() implies (
                    #[trigger] self@[a]).download_id != (#[trigger] self@[b]).download_id by {
                        let a0 = if a < i {
                            a
                        } else {
                            a + 1
                        };
                        let b0 = if b < i {
                            b
                        } else {
                            b + 1
                        };
                        assert(before[a0].download_id != before[b0].download_id);
                    }
                    assert forall|j: int| 0 <= j < self@.len() implies watch_ids(self@)[j]
                        != download_id@ by {
                        let j0 = if j < i {
                            j
                        } else {
                            j + 1
                        };
                        if j0 < i {
                            assert(before[j0].download_id != before[i as int].download_id);
                        } else {
                            assert(before[i as int].download_id != before[j0].download_id);
                        }
                    }
                    lemma_key_index_none(watch_ids(self@), download_id@);
                }
            },
            None => {},
        }
    }

    /// One look at monitored download `k`. A download that the registry
    /// does not track, or that is not in its downloading phase, is passed
    /// over.
    pub fn check_index(&mut self, registry: &HealthMetricsRegistry, k: usize) -> (action: Option<
        WatchdogAction,
    >)
        requires
            old(self).wf(),
            k < old(self)@.len(),
        ensures
            final(self).wf(),
            final(self).config == old(self).config,
            final(self)@ == spec_checked(
                old(self)@,
                registry@,
                k as int,
                old(self).config.max_consecutive_errors,
            ),
            final(self)@.len() == old(self)@.len(),
            watch_ids(final(self)@) == watch_ids(old(self)@),
            action is Some == spec_check_emits(
                old(self)@,
                registry@,
                k as int,
                old(self).config.max_consecutive_errors,
            ) is Some,
            action is Some ==> action->0@ == spec_check_emits(
                old(self)@,
                registry@,
                k as int,
                old(self).config.max_consecutive_errors,
            )->0,
    {
        let ghost before = self@;
        let health = match registry.get_health(self.monitored_downloads[k].download_id.as_str()) {
            Some(h) => h,
            None => {
                proof {
                    assert(watch_ids(self@) =~= watch_ids(before));
                }
                return None;
            },
        };
        match health.phase {
            DownloadPhase::Downloading => {},
            _ => {
                proof {
                    assert(watch_ids(self@) =~= watch_ids(before));
                }
                return None;
            },
        }
        let max_errors = self.config.max_consecutive_errors;
        let mut state = WatchdogState {
            download_id: self.monitored_downloads[k].download_id.clone(),
            last_check_bytes: self.monitored_downloads[k].last_check_bytes,
            last_check_errors: self.monitored_downloads[k].last_check_errors,
            consecutive_stalls: self.monitored_downloads[k].consecutive_stalls,
            actions_taken: copy_actions(&self.monitored_downloads[k].actions_taken),
        };
        proof {
            assert(state@.actions_taken =~= before[k as int].actions_taken);
            assert(state@ == before[k as int]);
        }
        let action = state.look(&health, max_errors);
        let ghost after = state@;
        self.monitored_downloads.set(k, state);
        proof {
            assert(self@ =~= before.update(k as int, after));
            assert(watch_ids(self@) =~= watch_ids(before));
            assert forall|a: int, b: int| 0 <= a < b < self@.len() implies (#[trigger] self@[a]).download_id
                != (#[trigger] self@[b]).download_id by {
                assert(before[a].download_id != before[b].download_id);
                assert(self@[a].download_id == before[a].download_id);
                assert(self@[b].download_id == before[b].download_id);
            }
        }
        action
    }

    /// One look at a download. Nothing happens, and nothing is issued, for
    /// a download that is not monitored.
    pub fn check_health(&mut self, registry: &HealthMetricsRegistry, download_id: &str) -> (action:
        Option<WatchdogAction>)
        requires
            old(self).wf(),
        ensures
            final(self).wf(),
            final(self).config == old(self).config,
            match spec_key_index(watch_ids(old(self)@), download_id@) {
                Some(k) => {
                    &&& final(self)@ == spec_checked(
                        old(self)@,
                        registry@,
                        k,
                        old(self).config.max_consecutive_errors,
                    )
                    &&& action is Some == spec_check_emits(
                        old(self)@,
                        registry@,
                        k,
                        old(self).config.max_consecutive_errors,
                    ) is Some
                    &&& action is Some ==> action->0@ == spec_check_emits(
                        old(self)@,
                        registry@,
                        k,
                        old(self).config.max_consecutive_errors,
                    )->0
                },
                None => final(self)@ == old(self)@ && action is None,
            },
    {
        match self.position(download_id) {
            Some(k) => self.check_index(registry, k),
            None => None,
        }
    }

    /// One look at every monitored download, in the order in which
    /// monitoring began. Returns the actions issued, each with the id of
    /// its download.
    pub fn check_all(&mut self, registry: &HealthMetricsRegistry) -> (issued: Vec<
        (String, WatchdogAction),
    >)
        requires
            old(self).wf(),
        ensures
            final(self).wf(),
            final(self).config == old(self).config,
            final(self)@ == spec_checked_upto(
                old(self)@,
                registry@,
                old(self)@.len() as int,
                old(self).config.max_consecutive_errors,
            ),
            issued_actions(issued@) == spec_issued_upto(
                old(self)@,
                registry@,
                old(self)@.len() as int,
                old(self).config.max_consecutive_errors,
            ),
            issued_ids(issued@) == spec_issued_ids_upto(
                old(self)@,
                registry@,
                old(self)@.len() as int,
                old(self).config.max_consecutive_errors,
            ),
    {
        let mut issued: Vec<(String, WatchdogAction)> = Vec::new();
        proof {
            assert(issued_actions(issued@) =~= Seq::<ActionView>::empty());
            assert(issued_ids(issued@) =~= Seq::<Seq<char>>::empty());
        }
        let n = self.monitored_downloads.len();
        let mut k: usize = 0;
        while k < n
            invariant
                k <= n,
                n == old(self)@.len(),
                self@.len() == n,
                self.wf(),
                self.config == old(self).config,
                watch_ids(self@) == watch_ids(old(self)@),
                issued_actions(issued@) == spec_issued_upto(
                    old(self)@,
                    registry@,
                    k as int,
                    old(self).config.max_consecutive_errors,
                ),
                issued_ids(issued@) == spec_issued_ids_upto(
                    old(self)@,
                    registry@,
                    k as int,
                    old(self).config.max_consecutive_errors,
                ),
                self@ == spec_checked_upto(
                    old(self)@,
                    registry@,
                    k as int,
                    old(self).config.max_consecutive_errors,
                ),
            decreases n - k,
        {
            let ghost before = issued@;
            let ghost ids_before = watch_ids(self@);
            match self.check_index(registry, k) {
                Some(action) => {
                    let id = self.monitored_downloads[k].download_id.clone();
                    proof {
                        assert(id@ == watch_ids(self@)[k as int]);
                        assert(watch_ids(old(self)@)[k as int] == old(self)@[k as int].download_id);
                    }
                    let ghost a = action@;
                    issued.push((id, action));
                    proof {
                        assert(issued_actions(issued@) =~= issued_actions(before).push(a));
                        assert(issued_ids(issued@) =~= issued_ids(before).push(
                            old(self)@[k as int].download_id,
                        ));
                    }
                },
                None => {},
            }
            k += 1;
        }
        issued
    }

    /// Handles an order: monitoring begins or ends, a forced collapse or
    /// safe mode is written to the registry, and the caller is told what
    /// is left for it to do.
    pub fn handle_command(&mut self, registry: &mut HealthMetricsRegistry, command: WatchdogCommand) -> (effect:
        CommandEffect)
        requires
            old(self).wf(),
            old(registry).wf(),
        ensures
            final(self).wf(),
            final(registry).wf(),
            final(self).config == old(self).config,
            match command {
                WatchdogCommand::StartMonitoring(id) => effect == CommandEffect::Continue && final(self)@ == spec_started(old(self)@, id@) && final(registry)@ == old(registry)@,
                WatchdogCommand::StopMonitoring(id) => effect == CommandEffect::Continue && final(self)@ == spec_stopped(old(self)@, id@) && final(registry)@ == old(registry)@,
                WatchdogCommand::ForceCollapse(id, count) => effect == CommandEffect::Collapse(
                    count,
                ) && final(self)@ == old(self)@ && exists|now: i64|
                    final(registry)@ == #[trigger] table_with_collapse(
                        old(registry)@,
                        id@,
                        count,
                        now,
                    ),
                WatchdogCommand::ForceSafeMode(id) => effect == CommandEffect::SafeMode && final(self)@ == old(self)@ && final(registry)@ == spec_table_after_action(
                    old(registry)@,
                    id@,
                    ActionView::EnableSafeMode,
                    0,
                ),
                WatchdogCommand::Shutdown => effect == CommandEffect::Stop && final(self)@ == old(self)@ && final(registry)@ == old(registry)@,
            },
    {
        match command {
            WatchdogCommand::StartMonitoring(id) => {
                self.start_monitoring(id.as_str());
                CommandEffect::Continue
            },
            WatchdogCommand::StopMonitoring(id) => {
                self.stop_monitoring(id.as_str());
                CommandEffect::Continue
            },
            WatchdogCommand::ForceCollapse(id, count) => {
                registry.record_collapse(id.as_str(), count);
                CommandEffect::Collapse(count)
            },
            WatchdogCommand::ForceSafeMode(id) => {
                registry.set_safe_mode(id.as_str(), true);
                CommandEffect::SafeMode
            },
            WatchdogCommand::Shutdown => CommandEffect::Stop,
        }
    }
}

impl Default for Watchdog {
    fn default() -> (w: Self)
        ensures
            w.wf(),
            w@.len() == 0,
            w.config == WatchdogConfig::standard(),
    {
        Watchdog::new()
    }
}

/// A copy of a list of actions.
pub fn copy_actions(list: &Vec<WatchdogAction>) -> (out: Vec<WatchdogAction>)
    ensures
        out@ == list@,
{
    let mut out: Vec<WatchdogAction> = Vec::new();
    let mut i: usize = 0;
    while i < list.len()
        invariant
            i <= list.len(),
            out@ == list@.take(i as int),
        decreases list.len() - i,
    {
        out.push(list[i].duplicate());
        i += 1;
    }
    proof {
        assert(out@ =~= list@);
    }
    out
}

/// Carries out an action issued at `now`: the registry is brought up to
/// date and the event for the user interface is made. Safe mode and
/// collapse are the only measures taken; an engine switch is reported as a
/// recommendation and changes nothing.
pub fn apply_action_at(
    registry: &mut HealthMetricsRegistry,
    download_id: &str,
    action: &WatchdogAction,
    now: i64,
) -> (event: Option<WatchdogEvent>)
    requires
        old(registry).wf(),
    ensures
        final(registry).wf(),
        final(registry).thresholds == old(registry).thresholds,
        final(registry)@ == spec_table_after_action(old(registry)@, download_id@, action@, now),
        event is None == action@ is NoAction,
        event is Some ==> {
            &&& event->0@.download_id == download_id@
            &&& event->0@.event_type == spec_action_event_type(action@)
            &&& event->0@.message == spec_action_message(action@)
            &&& event->0@.health == spec_health(final(registry)@, download_id@)
            &&& event->0@.user_action == spec_action_advice(action@)
        },
{
    match action {
        WatchdogAction::NoAction => None,
        WatchdogAction::CollapseConnections(new_count) => {
            registry.record_collapse_at(download_id, *new_count, now);
            let mut message: Vec<char> = Vec::new();
            push_str(&mut message, "Connections reduced to ");
            push_decimal(&mut message, *new_count as u128);
            push_str(&mut message, " due to throttling");
            proof {
                assert(message@ =~= spec_action_message(action@));
            }
            Some(
                WatchdogEvent {
                    download_id: String::from_str(download_id),
                    event_type: WatchdogEventType::ConnectionsCollapsed,
                    message: string_of(&message),
                    health: registry.get_health(download_id),
                    user_action: None,
                },
            )
        },
        WatchdogAction::EnableSafeMode => {
            registry.set_safe_mode(download_id, true);
            Some(
                WatchdogEvent {
                    download_id: String::from_str(download_id),
                    event_type: WatchdogEventType::SafeModeActivated,
                    message: String::from_str("Safe Mode enabled - single connection with HTTP/2"),
                    health: registry.get_health(download_id),
                    user_action: None,
                },
            )
        },
        WatchdogAction::RecommendEngineSwitch => Some(
            WatchdogEvent {
                download_id: String::from_str(download_id),
                event_type: WatchdogEventType::EngineSwitchRecommended,
                message: String::from_str(
                    "Download struggling - consider switching to Media Engine",
                ),
                health: registry.get_health(download_id),
                user_action: Some(String::from_str("Switch to Media Engine")),
            },
        ),
        WatchdogAction::CriticalFailure(reason) => {
            let mut message: Vec<char> = Vec::new();
            push_str(&mut message, "Download critically failed: ");
            push_str(&mut message, reason.as_str());
            proof {
                assert(message@ =~= spec_action_message(action@));
            }
            Some(
                WatchdogEvent {
                    download_id: String::from_str(download_id),
                    event_type: WatchdogEventType::CriticalFailure,
                    message: string_of(&message),
                    health: registry.get_health(download_id),
                    user_action: Some(String::from_str("Retry with Media Engine")),
                },
            )
        },
    }
}

/// Carries out an action issued now.
pub fn apply_action(
    registry: &mut HealthMetricsRegistry,
    download_id: &str,
    action: &WatchdogAction,
) -> (event: Option<WatchdogEvent>)
    requires
        old(registry).wf(),
    ensures
        final(registry).wf(),
        final(registry).thresholds == old(registry).thresholds,
        exists|now: i64|
            final(registry)@ == #[trigger] spec_table_after_action(
                old(registry)@,
                download_id@,
                action@,
                now,
            ),
        event is None == action@ is NoAction,
        event is Some ==> {
            &&& event->0@.download_id == download_id@
            &&& event->0@.event_type == spec_action_event_type(action@)
            &&& event->0@.message == spec_action_message(action@)
            &&& event->0@.health == spec_health(final(registry)@, download_id@)
            &&& event->0@.user_action == spec_action_advice(action@)
        },
{
    let now = unix_now();
    let event = apply_action_at(registry, download_id, action, now);
    assert(registry@ == spec_table_after_action(old(registry)@, download_id@, action@, now));
    event
}

/// No measure of the watchdog moves a download to the media extractor:
/// after any action, a tracked download runs on the engine it ran on, or on
/// the safe native engine.
pub proof fn lemma_no_automatic_engine_switch(
    table: Seq<HealthView>,
    id: Seq<char>,
    action: ActionView,
    now: i64,
)
    ensures
        match (spec_health(table, id), spec_health(spec_table_after_action(table, id, action, now), id)) {
            (Some(before), Some(after)) => after.engine == before.engine || after.engine
                == DownloadEngine::SNDESafe,
            (None, after) => after is None,
            (Some(_), None) => false,
        },
{
    lemma_key_index_is_first(crate::health_metrics::ids(table), id);
    match spec_key_index(crate::health_metrics::ids(table), id) {
        Some(i) => {
            let h = table[i];
            let after = spec_table_after_action(table, id, action, now);
            assert(after.len() == table.len());
            assert(crate::health_metrics::ids(after) =~= crate::health_metrics::ids(table)) by {
                assert forall|j: int| 0 <= j < table.len() implies crate::health_metrics::ids(
                    after,
                )[j] == crate::health_metrics::ids(table)[j] by {
                    assert(after[j].download_id == table[j].download_id);
                }
            }
        },
        None => {},
    }
}

/// The health-update event of a tracked download.
pub fn health_update_event(registry: &HealthMetricsRegistry, download_id: &str) -> (event: Option<
    WatchdogEvent,
>)
    ensures
        event is Some == spec_health(registry@, download_id@) is Some,
        event is Some ==> {
            &&& event->0@.download_id == download_id@
            &&& event->0@.event_type == WatchdogEventType::HealthUpdate
            &&& event->0@.message == spec_health_message(spec_health(registry@, download_id@)->0)
            &&& event->0@.health == spec_health(registry@, download_id@)
            &&& event->0@.user_action is None
        },
{
    match registry.get_health(download_id) {
        Some(health) => {
            let mut message: Vec<char> = Vec::new();
            let badge = health.engine.badge();
            push_str(&mut message, badge.as_str());
            push_str(&mut message, " @ ");
            let speed = format_bytes(health.total_throughput_bps);
            push_str(&mut message, speed.as_str());
            push_str(&mut message, "/s (");
            push_decimal(&mut message, health.active_connections as u128);
            push_str(&mut message, " connections)");
            proof {
                assert(message@ =~= spec_health_message(health@));
            }
            Some(
                WatchdogEvent {
                    download_id: String::from_str(download_id),
                    event_type: WatchdogEventType::HealthUpdate,
                    message: string_of(&message),
                    health: Some(health),
                    user_action: None,
                },
            )
        },
        None => None,
    }
}

} // verus!
