//! The watch loop's data and decisions: debounced change events, the
//! translation of a batch into domain notifications, and the per-iteration
//! decision of the loop that the background worker runs.

use vstd::prelude::*;
use crate::paths::{extract_project_id, spec_entity_of};
use crate::text::{ends_with, str_ends_with};

verus! {

/// Kind of a debounced change: a settled change, or one still in progress
/// (a path that keeps receiving events across debounce windows).
pub enum ChangeKind {
    Any,
    Continuous,
}

/// One debounced filesystem change: the touched path, the kind of change,
/// and when it was observed, in milliseconds of a monotone clock.
pub struct RawChangeEvent {
    pub path: String,
    pub kind: ChangeKind,
    pub observed_at: u64,
}

impl RawChangeEvent {
    /// An equal event, field for field.
    pub fn duplicate(&self) -> (r: Self)
        ensures
            r == *self,
    {
        let kind = match self.kind {
            ChangeKind::Any => ChangeKind::Any,
            ChangeKind::Continuous => ChangeKind::Continuous,
        };
        let r = RawChangeEvent { path: self.path.clone(), kind, observed_at: self.observed_at };
        proof {
            assert(r.kind == self.kind);
        }
        r
    }
}

/// The notification a consumer receives when a project's work-breakdown file
/// changed.
pub struct WbsChangedPayload {
    pub project_id: String,
    pub path: String,
    pub timestamp: String,
}

/// The time-independent part of a notification, as mathematical values.
pub ghost struct NotificationCore {
    pub entity: Seq<char>,
    pub path: Seq<char>,
}

/// The time-independent part of one payload.
pub open spec fn payload_core(p: WbsChangedPayload) -> NotificationCore {
    NotificationCore { entity: p.project_id@, path: p.path@ }
}

/// An event is notified exactly when it is a settled change to a file named
/// `wbs.yaml` (by suffix) that resolves to an entity under `root`.
pub open spec fn event_notifies(e: RawChangeEvent, root: Seq<char>) -> bool {
    &&& e.kind is Any
    &&& ends_with(e.path@, "wbs.yaml"@)
    &&& spec_entity_of(e.path@, root) is Some
}

/// The notifications a batch produces, in batch order: one per notifying
/// event, carrying the resolved entity and the changed path.
pub open spec fn spec_notification_cores(batch: Seq<RawChangeEvent>, root: Seq<char>) -> Seq<
    NotificationCore,
>
    decreases batch.len(),
{
    if batch.len() == 0 {
        Seq::empty()
    } else {
        let prev = spec_notification_cores(batch.drop_last(), root);
        let e = batch.last();
        if event_notifies(e, root) {
            prev.push(
                NotificationCore {
                    entity: spec_entity_of(e.path@, root).unwrap(),
                    path: e.path@,
                },
            )
        } else {
            prev
        }
    }
}

/// Some event in `s` touches the path `p`.
pub open spec fn contains_path(s: Seq<RawChangeEvent>, p: Seq<char>) -> bool {
    exists|i: int| 0 <= i < s.len() && s[i].path@ == p
}

/// The events of `s` with repeated touches of one path dropped: only the
/// first event per path remains, in arrival order.
pub open spec fn dedup_paths(s: Seq<RawChangeEvent>) -> Seq<RawChangeEvent>
    decreases s.len(),
{
    if s.len() == 0 {
        Seq::empty()
    } else {
        let prev = dedup_paths(s.drop_last());
        if contains_path(s.drop_last(), s.last().path@) {
            prev
        } else {
            prev.push(s.last())
        }
    }
}

proof fn lemma_contains_path_push(s: Seq<RawChangeEvent>, e: RawChangeEvent, p: Seq<char>)
    ensures
        contains_path(s.push(e), p) == (contains_path(s, p) || e.path@ == p),
{
    if contains_path(s, p) {
        let i = choose|i: int| 0 <= i < s.len() && s[i].path@ == p;
        assert(s.push(e)[i].path@ == p);
    }
    if e.path@ == p {
        assert(s.push(e)[s.len() as int].path@ == p);
    }
    if contains_path(s.push(e), p) {
        let i = choose|i: int| 0 <= i < s.push(e).len() && s.push(e)[i].path@ == p;
        if i < s.len() {
            assert(s[i].path@ == p);
        }
    }
}

/// Coalescing keeps exactly the paths that were touched.
pub proof fn lemma_dedup_keeps_paths(s: Seq<RawChangeEvent>, p: Seq<char>)
    ensures
        contains_path(dedup_paths(s), p) == contains_path(s, p),
    decreases s.len(),
{
    if s.len() > 0 {
        let d = s.drop_last();
        let e = s.last();
        lemma_dedup_keeps_paths(d, p);
        assert(d.push(e) =~= s);
        lemma_contains_path_push(d, e, p);
        if contains_path(d, e.path@) {
            if e.path@ == p {
                assert(contains_path(d, p));
            }
        } else {
            lemma_contains_path_push(dedup_paths(d), e, p);
        }
    }
}

proof fn lemma_dedup_singleton(e: RawChangeEvent)
    ensures
        dedup_paths(seq![e]) =~= seq![e],
{
    let s = seq![e];
    assert(s.drop_last() =~= Seq::<RawChangeEvent>::empty());
    assert(dedup_paths(Seq::<RawChangeEvent>::empty()) =~= Seq::<RawChangeEvent>::empty());
    assert(!contains_path(s.drop_last(), e.path@));
}

/// The events of `s`, in order, cut into debounce windows: a new window
/// opens exactly where an event arrives a full window after its predecessor.
pub open spec fn split_windows(s: Seq<RawChangeEvent>, window_ms: u64) -> Seq<
    Seq<RawChangeEvent>,
>
    decreases s.len(),
{
    if s.len() == 0 {
        Seq::empty()
    } else if s.len() == 1 {
        seq![seq![s.last()]]
    } else {
        let prev = split_windows(s.drop_last(), window_ms);
        let e = s.last();
        if s[s.len() - 2].observed_at + window_ms <= e.observed_at {
            prev.push(seq![e])
        } else {
            prev.update(prev.len() - 1, prev.last().push(e))
        }
    }
}

/// What the debounced event source delivers for a run of raw events: one
/// batch per debounce window, each batch holding the window's events with
/// repeated touches of one path coalesced into the first.
pub open spec fn spec_batches(s: Seq<RawChangeEvent>, window_ms: u64) -> Seq<
    Seq<RawChangeEvent>,
> {
    split_windows(s, window_ms).map_values(|b: Seq<RawChangeEvent>| dedup_paths(b))
}

/// Whether some event of the batch touches path `p`.
fn batch_has_path(batch: &Vec<RawChangeEvent>, p: &str) -> (r: bool)
    ensures
        r == contains_path(batch@, p@),
{
    let mut i: usize = 0;
    while i < batch.len()
        invariant
            i <= batch@.len(),
            forall|j: int| 0 <= j < i ==> batch@[j].path@ != p@,
        decreases batch@.len() - i,
    {
        if crate::text::str_eq(batch[i].path.as_str(), p) {
            return true;
        }
        i += 1;
    }
    false
}

/// Group a time-ordered run of raw events into the batches the debounced
/// source delivers: windows close after `window_ms` of quiet, and within one
/// window each path is reported once.
pub fn debounce_events(events: &Vec<RawChangeEvent>, window_ms: u64) -> (batches: Vec<
    Vec<RawChangeEvent>,
>)
    requires
        forall|i: int|
            0 <= i < events@.len() - 1 ==> #[trigger] events@[i].observed_at <= events@[i
                + 1].observed_at,
    ensures
        batches@.map_values(|b: Vec<RawChangeEvent>| b@) == spec_batches(events@, window_ms),
{
    let mut batches: Vec<Vec<RawChangeEvent>> = Vec::new();
    let mut cur: Vec<RawChangeEvent> = Vec::new();
    let ghost mut cur_raw: Seq<RawChangeEvent> = Seq::empty();
    let mut last_t: u64 = 0;
    let mut i: usize = 0;
    while i < events.len()
        invariant
            i <= events@.len(),
            forall|k: int|
                0 <= k < events@.len() - 1 ==> #[trigger] events@[k].observed_at <= events@[k
                    + 1].observed_at,
            i == 0 ==> batches@.len() == 0 && cur@.len() == 0,
            i > 0 ==> split_windows(events@.take(i as int), window_ms).len() == batches@.len()
                + 1,
            i > 0 ==> batches@.map_values(|b: Vec<RawChangeEvent>| b@) == spec_batches(
                events@.take(i as int),
                window_ms,
            ).drop_last(),
            i > 0 ==> split_windows(events@.take(i as int), window_ms).last() == cur_raw,
            i > 0 ==> cur@ == dedup_paths(cur_raw),
            i > 0 ==> cur_raw.len() > 0,
            i > 0 ==> cur@.len() > 0,
            i > 0 ==> last_t == events@[i - 1].observed_at,
            i > 0 ==> cur_raw.last() == events@[i - 1],
        decreases events@.len() - i,
    {
        let e = events[i].duplicate();
        let t = e.observed_at;
        proof {
            assert(events@.take(i + 1).drop_last() =~= events@.take(i as int));
            assert(events@.take(i + 1).last() == events@[i as int]);
        }
        if i == 0 {
            cur.push(e);
            proof {
                cur_raw = seq![events@[0]];
                lemma_dedup_singleton(events@[0]);
                assert(cur@ =~= seq![events@[0]]);
                assert(spec_batches(events@.take(1), window_ms).drop_last() =~= Seq::<
                    Seq<RawChangeEvent>,
                >::empty());
                assert(batches@.map_values(|b: Vec<RawChangeEvent>| b@) =~= Seq::<
                    Seq<RawChangeEvent>,
                >::empty());
            }
        } else if t - last_t >= window_ms {
            let ghost pre_split = split_windows(events@.take(i as int), window_ms);
            let ghost pre_spec = spec_batches(events@.take(i as int), window_ms);
            let done = cur;
            batches.push(done);
            cur = Vec::new();
            cur.push(e);
            proof {
                assert(events@.take(i + 1)[i - 1] == events@[i - 1]);
                assert(split_windows(events@.take(i + 1), window_ms) =~= pre_split.push(
                    seq![events@[i as int]],
                ));
                cur_raw = seq![events@[i as int]];
                lemma_dedup_singleton(events@[i as int]);
                assert(cur@ =~= seq![events@[i as int]]);
                assert(spec_batches(events@.take(i + 1), window_ms).drop_last() =~= pre_spec);
                assert(pre_spec.drop_last().push(pre_spec.last()) =~= pre_spec);
                assert(batches@.map_values(|b: Vec<RawChangeEvent>| b@) =~= pre_spec);
            }
        } else {
            let ghost pre_split = split_windows(events@.take(i as int), window_ms);
            let ghost pre_spec = spec_batches(events@.take(i as int), window_ms);
            let ghost new_raw = cur_raw.push(events@[i as int]);
            proof {
                assert(events@.take(i + 1)[i - 1] == events@[i - 1]);
                assert(split_windows(events@.take(i + 1), window_ms) =~= pre_split.update(
                    pre_split.len() - 1,
                    new_raw,
                ));
                assert(new_raw.drop_last() =~= cur_raw);
                lemma_dedup_keeps_paths(cur_raw, events@[i as int].path@);
            }
            if !batch_has_path(&cur, e.path.as_str()) {
                cur.push(e);
            }
            proof {
                cur_raw = new_raw;
                assert(cur@ == dedup_paths(cur_raw));
                assert(spec_batches(events@.take(i + 1), window_ms).drop_last()
                    =~= pre_spec.drop_last());
                assert(split_windows(events@.take(i + 1), window_ms).last() == cur_raw);
            }
        }
        last_t = t;
        i += 1;
    }
    if cur.len() > 0 {
        proof {
            assert(events@.take(events@.len() as int) =~= events@);
        }
        let ghost full_spec = spec_batches(events@, window_ms);
        batches.push(cur);
        proof {
            assert(full_spec.drop_last().push(full_spec.last()) =~= full_spec);
            assert(batches@.map_values(|b: Vec<RawChangeEvent>| b@) =~= full_spec);
        }
    } else {
        proof {
            assert(events@.len() == 0);
            assert(batches@.map_values(|b: Vec<RawChangeEvent>| b@) =~= spec_batches(
                events@,
                window_ms,
            ));
        }
    }
    batches
}

/// Translate one debounced batch into consumer notifications, stamping every
/// notification with the given timestamp. Paths that do not match the
/// watched filename, do not resolve to an entity, or describe a still-active
/// change are suppressed, never emitted empty.
pub fn process_batch(batch: &Vec<RawChangeEvent>, projects_root: &str, timestamp: &str) -> (r:
    Vec<WbsChangedPayload>)
    ensures
        r@.map_values(|p: WbsChangedPayload| payload_core(p)) == spec_notification_cores(
            batch@,
            projects_root@,
        ),
        forall|i: int| 0 <= i < r@.len() ==> #[trigger] r@[i].timestamp@ == timestamp@,
{
    let mut r: Vec<WbsChangedPayload> = Vec::new();
    let mut i: usize = 0;
    proof {
        assert(batch@.take(0) =~= Seq::<RawChangeEvent>::empty());
        assert(r@.map_values(|p: WbsChangedPayload| payload_core(p)) =~= Seq::<
            NotificationCore,
        >::empty());
    }
    while i < batch.len()
        invariant
            i <= batch.len(),
            r@.map_values(|p: WbsChangedPayload| payload_core(p)) == spec_notification_cores(
                batch@.take(i as int),
                projects_root@,
            ),
            forall|k: int| 0 <= k < r@.len() ==> #[trigger] r@[k].timestamp@ == timestamp@,
        decreases batch.len() - i,
    {
        let e = &batch[i];
        let settled = match e.kind {
            ChangeKind::Any => true,
            ChangeKind::Continuous => false,
        };
        if settled && str_ends_with(e.path.as_str(), "wbs.yaml") {
            if let Some(project_id) = extract_project_id(e.path.as_str(), projects_root) {
                let payload = WbsChangedPayload {
                    project_id,
                    path: e.path.clone(),
                    timestamp: String::from_str(timestamp),
                };
                r.push(payload);
            }
        }
        proof {
            assert(batch@.take(i + 1).drop_last() =~= batch@.take(i as int));
            assert(batch@.take(i + 1).last() == batch@[i as int]);
            assert(r@.map_values(|p: WbsChangedPayload| payload_core(p))
                =~= spec_notification_cores(batch@.take(i + 1), projects_root@));
        }
        i += 1;
    }
    proof {
        assert(batch@.take(batch@.len() as int) =~= batch@);
    }
    r
}

/// Relies on chrono's `Utc::now().to_rfc3339()`: the current wall-clock
/// time as an RFC 3339 string. The value depends on the clock, so nothing
/// is assumed of it.
#[verifier::external_body]
fn now_rfc3339() -> String {
    chrono::Utc::now().to_rfc3339()
}

/// Translate one debounced batch into consumer notifications, stamping each
/// with the wall-clock time of the call. The entities and paths are exactly
/// those of `spec_notification_cores`; the one timestamp is shared by every
/// notification of the batch.
pub fn process_batch_now(batch: &Vec<RawChangeEvent>, projects_root: &str) -> (r: Vec<
    WbsChangedPayload,
>)
    ensures
        r@.map_values(|p: WbsChangedPayload| payload_core(p)) == spec_notification_cores(
            batch@,
            projects_root@,
        ),
        forall|i: int, j: int|
            0 <= i < r@.len() && 0 <= j < r@.len() ==> #[trigger] r@[i].timestamp@ == #[trigger] r@[j].timestamp@,
{
    let ts = now_rfc3339();
    process_batch(batch, projects_root, ts.as_str())
}

/// What the worker received while waiting on the event channel: a batch, a
/// recoverable per-event error, nothing within the poll timeout, or the
/// channel's disconnection.
pub enum RecvOutcome {
    Batch(Vec<RawChangeEvent>),
    RecvError,
    TimedOut,
    Disconnected,
}

/// The worker's decision for one loop iteration: leave the loop, or keep
/// going after emitting the given notifications.
pub enum LoopDecision {
    Exit,
    Continue(Vec<WbsChangedPayload>),
}

/// One iteration of the watch loop: exit exactly on a stop request or on the
/// channel's disconnection; translate a batch into notifications; absorb a
/// recoverable error or a quiet poll and continue with nothing to emit.
pub fn loop_step(stop_requested: bool, outcome: RecvOutcome, projects_root: &str) -> (d:
    LoopDecision)
    ensures
        (d is Exit) == (stop_requested || outcome is Disconnected),
        d is Continue && outcome is Batch ==> d->Continue_0@.map_values(
            |p: WbsChangedPayload| payload_core(p),
        ) == spec_notification_cores(outcome->Batch_0@, projects_root@),
        d is Continue && !(outcome is Batch) ==> d->Continue_0@.len() == 0,
        d is Continue ==> forall|i: int, j: int|
            0 <= i < d->Continue_0@.len() && 0 <= j < d->Continue_0@.len()
                ==> #[trigger] d->Continue_0@[i].timestamp@
                == #[trigger] d->Continue_0@[j].timestamp@,
{
    if stop_requested {
        return LoopDecision::Exit;
    }
    match outcome {
        RecvOutcome::Batch(batch) => LoopDecision::Continue(
            process_batch_now(&batch, projects_root),
        ),
        RecvOutcome::RecvError => LoopDecision::Continue(Vec::new()),
        RecvOutcome::TimedOut => LoopDecision::Continue(Vec::new()),
        RecvOutcome::Disconnected => LoopDecision::Exit,
    }
}

/// A burst that never pauses for a whole window stays in one window.
proof fn lemma_split_burst(s: Seq<RawChangeEvent>, window_ms: u64)
    requires
        s.len() > 0,
        forall|i: int|
            0 <= i < s.len() - 1 ==> #[trigger] s[i + 1].observed_at < s[i].observed_at
                + window_ms,
    ensures
        split_windows(s, window_ms).len() == 1,
        split_windows(s, window_ms)[0] =~= s,
    decreases s.len(),
{
    if s.len() > 1 {
        let d = s.drop_last();
        assert forall|i: int| 0 <= i < d.len() - 1 implies #[trigger] d[i + 1].observed_at
            < d[i].observed_at + window_ms by {
            assert(d[i] == s[i]);
            assert(d[i + 1] == s[i + 1]);
        }
        lemma_split_burst(d, window_ms);
        assert(s[s.len() - 2].observed_at + window_ms > s[(s.len() - 2) + 1].observed_at);
        assert(split_windows(s, window_ms)[0] =~= d.push(s.last()));
        assert(d.push(s.last()) =~= s);
    }
}

/// Coalescing a run of touches of one path keeps exactly the first.
proof fn lemma_dedup_constant_path(s: Seq<RawChangeEvent>)
    requires
        s.len() > 0,
        forall|i: int| 0 <= i < s.len() ==> #[trigger] s[i].path@ == s[0].path@,
    ensures
        dedup_paths(s) =~= seq![s[0]],
    decreases s.len(),
{
    if s.len() == 1 {
        lemma_dedup_singleton(s[0]);
        assert(s =~= seq![s[0]]);
    } else {
        let d = s.drop_last();
        assert forall|i: int| 0 <= i < d.len() implies #[trigger] d[i].path@ == d[0].path@ by {
            assert(d[i] == s[i]);
            assert(d[0] == s[0]);
        }
        lemma_dedup_constant_path(d);
        assert(d[0] == s[0]);
        assert(s[s.len() - 1].path@ == s[0].path@);
        assert(d[0].path@ == s.last().path@);
        assert(contains_path(d, s.last().path@));
        assert(dedup_paths(s) == dedup_paths(d));
    }
}

/// Rapid repeated changes to one path, each following its predecessor within
/// the debounce window, are delivered as a single batch holding a single
/// event: the run's first.
pub proof fn lemma_burst_coalesces(s: Seq<RawChangeEvent>, window_ms: u64)
    requires
        s.len() > 0,
        forall|i: int| 0 <= i < s.len() ==> #[trigger] s[i].path@ == s[0].path@,
        forall|i: int|
            0 <= i < s.len() - 1 ==> #[trigger] s[i + 1].observed_at < s[i].observed_at
                + window_ms,
    ensures
        spec_batches(s, window_ms).len() == 1,
        spec_batches(s, window_ms)[0] =~= seq![s[0]],
{
    lemma_split_burst(s, window_ms);
    lemma_dedup_constant_path(split_windows(s, window_ms)[0]);
}

/// A burst of changes to one notifying path yields exactly one notification,
/// and it names the entity the path resolves to.
pub proof fn lemma_burst_single_notification(
    s: Seq<RawChangeEvent>,
    window_ms: u64,
    root: Seq<char>,
)
    requires
        s.len() > 0,
        forall|i: int| 0 <= i < s.len() ==> #[trigger] s[i].path@ == s[0].path@,
        forall|i: int|
            0 <= i < s.len() - 1 ==> #[trigger] s[i + 1].observed_at < s[i].observed_at
                + window_ms,
        event_notifies(s[0], root),
    ensures
        spec_batches(s, window_ms).len() == 1,
        spec_notification_cores(spec_batches(s, window_ms)[0], root).len() == 1,
        spec_notification_cores(spec_batches(s, window_ms)[0], root)[0] == (NotificationCore {
            entity: spec_entity_of(s[0].path@, root).unwrap(),
            path: s[0].path@,
        }),
{
    lemma_burst_coalesces(s, window_ms);
    let batch = spec_batches(s, window_ms)[0];
    assert(batch.drop_last() =~= Seq::<RawChangeEvent>::empty());
    assert(spec_notification_cores(Seq::<RawChangeEvent>::empty(), root) =~= Seq::<
        NotificationCore,
    >::empty());
    assert(batch.last() == s[0]);
}

} // verus!
