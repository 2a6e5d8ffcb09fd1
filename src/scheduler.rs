//! The scheduler's decisions. The registry records which domains have a live
//! worker and whether the scheduler runs; the worker functions decide, from
//! what each outside step returned, what the next step of a tick is. The
//! caller performs the steps (timers, persistence, detection, vendor calls)
//! and hands their outcomes back.

use vstd::prelude::*;
use crate::error::{app_error_text, AppError};
use crate::models::{
    clone_opt, full_domain_of, is_failure_entry, is_success_entry, opt_view, Domain, IPInfo,
    UpdateHistory,
};
use crate::text::str_eq;

verus! {

/// A domain's schedule as the scheduler sees it.
#[derive(Debug, Clone)]
pub struct ScheduledTask {
    pub domain_id: String,
    /// Seconds between ticks.
    pub interval: u64,
    pub enabled: bool,
}

/// A point-in-time view of the scheduler.
#[derive(Debug, Clone, Copy, PartialEq, Eq, Structural)]
pub struct SchedulerStatus {
    pub running: bool,
    pub active_tasks: u32,
}

/// The test that keeps every id but `x`.
pub open spec fn other_than(x: Seq<char>) -> spec_fn(Seq<char>) -> bool {
    |t: Seq<char>| t != x
}

pub open spec fn ids_view(v: Seq<String>) -> Seq<Seq<char>> {
    v.map_values(|s: String| s@)
}

/// The ids of the enabled domains of `ds` that are not in `have`, in order.
pub open spec fn enabled_new_ids(ds: Seq<Domain>, have: Seq<Seq<char>>) -> Seq<Seq<char>>
    decreases ds.len(),
{
    if ds.len() == 0 {
        Seq::empty()
    } else {
        let rest = enabled_new_ids(ds.drop_last(), have);
        let d = ds.last();
        if d.enabled && !have.contains(d.id@) && !rest.contains(d.id@) {
            rest.push(d.id@)
        } else {
            rest
        }
    }
}

/// The abstract state of the scheduler: whether it runs, and the domain ids
/// that have a live worker, in the order they were registered.
pub struct SchedulerView {
    pub running: bool,
    pub tasks: Seq<Seq<char>>,
}

/// The status a scheduler state reports: its flag and its worker count.
pub open spec fn status_of(v: SchedulerView) -> (bool, nat) {
    (v.running, v.tasks.len())
}

/// The state after `stop`.
pub open spec fn stopped(v: SchedulerView) -> SchedulerView {
    SchedulerView { running: false, tasks: Seq::empty() }
}

/// The state after `start` with the given domains.
pub open spec fn started(v: SchedulerView, ds: Seq<Domain>) -> SchedulerView {
    if v.running {
        v
    } else {
        SchedulerView { running: true, tasks: v.tasks + enabled_new_ids(ds, v.tasks) }
    }
}

/// The registry of live workers, one per domain id, and the running flag.
pub struct SchedulerService {
    running: bool,
    tasks: Vec<String>,
}

impl SchedulerService {
    pub closed spec fn view(&self) -> SchedulerView {
        SchedulerView { running: self.running, tasks: ids_view(self.tasks@) }
    }

    /// At most one worker per domain id.
    pub closed spec fn wf(&self) -> bool {
        ids_view(self.tasks@).no_duplicates()
    }

    /// A stopped scheduler with no workers.
    pub fn new() -> (r: Self)
        ensures
            r.wf(),
            r.view().running == false,
            r.view().tasks.len() == 0,
    {
        let r = SchedulerService { running: false, tasks: Vec::new() };
        assert(ids_view(r.tasks@) =~= Seq::<Seq<char>>::empty());
        r
    }

    /// Whether a worker for `id` is registered.
    pub fn has_task(&self, id: &String) -> (r: bool)
        ensures
            r == self.view().tasks.contains(id@),
    {
        let mut i: usize = 0;
        while i < self.tasks.len()
            invariant
                i <= self.tasks@.len(),
                forall|k: int| 0 <= k < i ==> self.tasks@[k]@ != id@,
            decreases self.tasks@.len() - i,
        {
            if str_eq(self.tasks[i].as_str(), id.as_str()) {
                assert(ids_view(self.tasks@)[i as int] == id@);
                return true;
            }
            i = i + 1;
        }
        proof {
            if ids_view(self.tasks@).contains(id@) {
                let k = choose|k: int| 0 <= k < ids_view(self.tasks@).len() && ids_view(self.tasks@)[k] == id@;
                assert(self.tasks@[k]@ == id@);
            }
        }
        false
    }

    fn register(&mut self, id: String)
        requires
            old(self).wf(),
            !old(self).view().tasks.contains(id@),
        ensures
            final(self).wf(),
            final(self).view().running == old(self).view().running,
            final(self).view().tasks == old(self).view().tasks.push(id@),
    {
        let ghost before = self.tasks@;
        self.tasks.push(id);
        assert(ids_view(self.tasks@) =~= ids_view(before).push(id@));
    }

    /// Starts the scheduler with the persisted domains. A running scheduler
    /// is left as it is. Otherwise the scheduler runs afterwards and each
    /// enabled domain without a worker gets one; the returned ids are those
    /// whose worker the caller must spawn.
    pub fn start(&mut self, domains: &Vec<Domain>) -> (spawn: Vec<String>)
        requires
            old(self).wf(),
        ensures
            final(self).wf(),
            final(self).view() == started(old(self).view(), domains@),
            old(self).view().running ==> spawn@.len() == 0,
            !old(self).view().running ==> ids_view(spawn@) == enabled_new_ids(
                domains@,
                old(self).view().tasks,
            ),
    {
        let mut spawn: Vec<String> = Vec::new();
        if self.running {
            return spawn;
        }
        self.running = true;
        let ghost have = ids_view(self.tasks@);
        let mut i: usize = 0;
        while i < domains.len()
            invariant
                self.wf(),
                self.running,
                i <= domains@.len(),
                ids_view(spawn@) == enabled_new_ids(domains@.subrange(0, i as int), have),
                ids_view(self.tasks@) == have + ids_view(spawn@),
            decreases domains@.len() - i,
        {
            let d = &domains[i];
            let ghost prefix = domains@.subrange(0, i as int);
            assert(domains@.subrange(0, i + 1).drop_last() =~= prefix);
            if d.enabled && !self.has_task(&d.id) {
                proof {
                    let rest = enabled_new_ids(prefix, have);
                    assert(!have.contains(d.id@)) by {
                        if have.contains(d.id@) {
                            let k = choose|k: int| 0 <= k < have.len() && have[k] == d.id@;
                            assert((have + rest)[k] == d.id@);
                        }
                    }
                    assert(!rest.contains(d.id@)) by {
                        if rest.contains(d.id@) {
                            let k = choose|k: int| 0 <= k < rest.len() && rest[k] == d.id@;
                            assert((have + rest)[have.len() + k] == d.id@);
                        }
                    }
                }
                let id = d.id.clone();
                let id2 = d.id.clone();
                self.register(id);
                spawn.push(id2);
                assert(ids_view(spawn@) =~= ids_view(spawn@.drop_last()).push(d.id@));
                assert(ids_view(self.tasks@) =~= have + ids_view(spawn@));
            } else {
                proof {
                    let rest = enabled_new_ids(prefix, have);
                    if d.enabled {
                        let k = choose|k: int| 0 <= k < (have + rest).len() && (have + rest)[k] == d.id@;
                        if k < have.len() {
                            assert(have[k] == d.id@);
                        } else {
                            assert(rest[k - have.len()] == d.id@);
                        }
                    }
                }
            }
            i = i + 1;
        }
        assert(domains@.subrange(0, i as int) =~= domains@);
        assert(ids_view(self.tasks@) =~= have + ids_view(spawn@));
        spawn
    }

    /// Stops the scheduler: the flag is cleared first, then every registered
    /// worker is deregistered. The returned ids are the workers the caller
    /// must cancel.
    pub fn stop(&mut self) -> (cancel: Vec<String>)
        requires
            old(self).wf(),
        ensures
            final(self).wf(),
            final(self).view() == stopped(old(self).view()),
            ids_view(cancel@) == old(self).view().tasks,
    {
        self.running = false;
        let mut cancel: Vec<String> = Vec::new();
        std::mem::swap(&mut cancel, &mut self.tasks);
        assert(ids_view(self.tasks@) =~= Seq::<Seq<char>>::empty());
        cancel
    }

    /// `stop` followed by `start`: returns the workers to cancel and then
    /// those to spawn.
    pub fn reload_schedules(&mut self, domains: &Vec<Domain>) -> (r: (Vec<String>, Vec<String>))
        requires
            old(self).wf(),
        ensures
            final(self).wf(),
            final(self).view() == started(stopped(old(self).view()), domains@),
            ids_view(r.0@) == old(self).view().tasks,
            ids_view(r.1@) == enabled_new_ids(domains@, Seq::empty()),
    {
        let cancel = self.stop();
        let spawn = self.start(domains);
        (cancel, spawn)
    }

    /// Adds a worker for one domain: only an enabled domain without a worker
    /// gets one. Returns whether the caller must spawn it.
    pub fn add_domain_schedule(&mut self, domain: &Domain) -> (spawn: bool)
        requires
            old(self).wf(),
        ensures
            final(self).wf(),
            final(self).view().running == old(self).view().running,
            spawn == (domain.enabled && !old(self).view().tasks.contains(domain.id@)),
            spawn ==> final(self).view().tasks == old(self).view().tasks.push(domain.id@),
            !spawn ==> final(self).view() == old(self).view(),
    {
        if domain.enabled && !self.has_task(&domain.id) {
            self.register(domain.id.clone());
            true
        } else {
            false
        }
    }

    /// Deregisters the worker of `id`, if there is one; returns whether the
    /// caller must cancel it. The other workers stay.
    pub fn remove_domain_schedule(&mut self, id: &String) -> (cancel: bool)
        requires
            old(self).wf(),
        ensures
            final(self).wf(),
            final(self).view().running == old(self).view().running,
            cancel == old(self).view().tasks.contains(id@),
            !final(self).view().tasks.contains(id@),
            final(self).view().tasks == old(self).view().tasks.filter(other_than(id@)),
    {
        let ghost before = ids_view(self.tasks@);
        let mut kept: Vec<String> = Vec::new();
        let mut found = false;
        let mut i: usize = 0;
        while i < self.tasks.len()
            invariant
                before == ids_view(self.tasks@),
                before.no_duplicates(),
                i <= self.tasks@.len(),
                ids_view(kept@) == before.subrange(0, i as int).filter(other_than(id@)),
                found == before.subrange(0, i as int).contains(id@),
            decreases self.tasks@.len() - i,
        {
            let ghost prefix = before.subrange(0, i as int);
            assert(before.subrange(0, i + 1) =~= prefix.push(before[i as int]));
            proof {
                prefix.lemma_filter_push(before[i as int], other_than(id@));
            }
            if str_eq(self.tasks[i].as_str(), id.as_str()) {
                found = true;
                assert(prefix.push(before[i as int])[i as int] == id@);
            } else {
                kept.push(self.tasks[i].clone());
                assert(ids_view(kept@) =~= ids_view(kept@.drop_last()).push(self.tasks@[i as int]@));
                proof {
                    if prefix.push(before[i as int]).contains(id@) {
                        let k = choose|k: int| 0 <= k < i + 1 && prefix.push(before[i as int])[k] == id@;
                        assert(prefix[k] == id@);
                    }
                }
            }
            proof {
                if prefix.contains(id@) {
                    let k = choose|k: int| 0 <= k < prefix.len() && prefix[k] == id@;
                    assert(prefix.push(before[i as int])[k] == id@);
                }
            }
            i = i + 1;
        }
        assert(before.subrange(0, i as int) =~= before);
        self.tasks = kept;
        proof {
            let after = ids_view(self.tasks@);
            broadcast use vstd::seq_lib::group_filter_ensures;
            assert(!after.contains(id@));
            lemma_filter_keeps_distinct(before, id@);
            assert(after == before.filter(other_than(id@)));
            assert(after.no_duplicates());
        }
        found
    }

    /// The running flag and the number of registered workers, the count
    /// capped at `u32::MAX`.
    pub fn get_status(&self) -> (r: SchedulerStatus)
        ensures
            r.running == self.view().running,
            r.active_tasks as nat == if self.view().tasks.len() > u32::MAX {
                u32::MAX as nat
            } else {
                self.view().tasks.len()
            },
    {
        let n = self.tasks.len();
        let count: u32 = if n > u32::MAX as usize {
            u32::MAX
        } else {
            n as u32
        };
        SchedulerStatus { running: self.running, active_tasks: count }
    }
}

proof fn lemma_filter_keeps_distinct(s: Seq<Seq<char>>, x: Seq<char>)
    requires
        s.no_duplicates(),
    ensures
        s.filter(other_than(x)).no_duplicates(),
    decreases s.len(),
{
    reveal(Seq::filter);
    if s.len() > 0 {
        let init = s.drop_last();
        assert(init.no_duplicates()) by {
            assert forall|i: int, j: int| 0 <= i < init.len() && 0 <= j < init.len() && i != j
                implies init[i] != init[j] by {
                assert(init[i] == s[i] && init[j] == s[j]);
            }
        }
        lemma_filter_keeps_distinct(init, x);
        let f = init.filter(other_than(x));
        broadcast use vstd::seq_lib::group_filter_ensures;
        if s.last() != x {
            assert(!f.contains(s.last())) by {
                if f.contains(s.last()) {
                    let k = choose|k: int| 0 <= k < f.len() && f[k] == s.last();
                    lemma_filter_within(init, x, f[k]);
                    let m = choose|m: int| 0 <= m < init.len() && init[m] == f[k];
                    assert(s[m] == s[s.len() - 1]);
                }
            }
            assert(s.filter(other_than(x)) == f.push(s.last()));
            assert forall|i: int, j: int| 0 <= i < f.len() + 1 && 0 <= j < f.len() + 1 && i != j
                implies f.push(s.last())[i] != f.push(s.last())[j] by {
                if i < f.len() && j < f.len() {
                } else if i == f.len() {
                    assert(f.push(s.last())[j] == f[j]);
                } else {
                    assert(f.push(s.last())[i] == f[i]);
                }
            }
        } else {
            assert(s.filter(other_than(x)) == f);
        }
    }
}

proof fn lemma_filter_within(s: Seq<Seq<char>>, x: Seq<char>, y: Seq<char>)
    requires
        s.filter(other_than(x)).contains(y),
    ensures
        s.contains(y),
    decreases s.len(),
{
    reveal(Seq::filter);
    if s.len() > 0 {
        let init = s.drop_last();
        let f = init.filter(other_than(x));
        if s.last() == y {
            assert(s[s.len() - 1] == y);
        } else {
            if s.last() != x {
                assert(s.filter(other_than(x)) == f.push(s.last()));
                let k = choose|k: int| 0 <= k < f.len() + 1 && f.push(s.last())[k] == y;
                assert(f[k] == y);
            } else {
                assert(s.filter(other_than(x)) == f);
            }
            lemma_filter_within(init, x, y);
            let m = choose|m: int| 0 <= m < init.len() && init[m] == y;
            assert(s[m] == y);
        }
    }
}

/// Once stopped, a scheduler reports that it is not running and has no
/// workers, whatever its state before.
pub proof fn lemma_status_after_stop(v: SchedulerView)
    ensures
        status_of(stopped(v)) == (false, 0nat),
{
}

/// Starting a scheduler that already runs changes nothing.
pub proof fn lemma_start_when_running(v: SchedulerView, ds: Seq<Domain>)
    requires
        v.running,
    ensures
        started(v, ds) == v,
{
}

/// A disabled domain never gets a worker on start.
pub proof fn lemma_disabled_never_started(ds: Seq<Domain>, have: Seq<Seq<char>>, i: int)
    requires
        0 <= i < ds.len(),
        !ds[i].enabled,
        forall|j: int| 0 <= j < ds.len() && j != i ==> ds[j].id@ != ds[i].id@,
    ensures
        !enabled_new_ids(ds, have).contains(ds[i].id@),
    decreases ds.len(),
{
    let init = ds.drop_last();
    let rest = enabled_new_ids(init, have);
    if i < ds.len() - 1 {
        assert(init[i] == ds[i]);
        assert forall|j: int| 0 <= j < init.len() && j != i implies init[j].id@ != init[i].id@ by {
            assert(init[j] == ds[j]);
        }
        lemma_disabled_never_started(init, have, i);
        assert(ds.last().id@ != ds[i].id@);
    } else {
        lemma_ids_from(init, have, ds[i].id@);
    }
}

/// An id comes out of `enabled_new_ids` only if one of the domains has it.
proof fn lemma_ids_from(ds: Seq<Domain>, have: Seq<Seq<char>>, id: Seq<char>)
    requires
        forall|j: int| 0 <= j < ds.len() ==> ds[j].id@ != id,
    ensures
        !enabled_new_ids(ds, have).contains(id),
    decreases ds.len(),
{
    if ds.len() > 0 {
        let init = ds.drop_last();
        assert forall|j: int| 0 <= j < init.len() implies init[j].id@ != id by {
            assert(init[j] == ds[j]);
        }
        lemma_ids_from(init, have, id);
        let rest = enabled_new_ids(init, have);
        if ds.last().enabled && !have.contains(ds.last().id@) && !rest.contains(ds.last().id@) {
            assert(enabled_new_ids(ds, have) == rest.push(ds.last().id@));
            if rest.push(ds.last().id@).contains(id) {
                let k = choose|k: int| 0 <= k < rest.len() + 1 && rest.push(ds.last().id@)[k] == id;
                if k < rest.len() {
                    assert(rest[k] == id);
                }
            }
        }
    }
}

// ---------------------------------------------------------------------------
// One tick of a domain's worker.
// ---------------------------------------------------------------------------

/// What persistence answered when the worker re-fetched its domain.
pub enum FetchOutcome {
    Found(Domain),
    Missing,
    Failed(AppError),
}

/// The worker's next step within a tick.
pub enum WorkerAction {
    /// The worker ends for good.
    Exit,
    /// Nothing more this tick; wait for the next one.
    Wait,
    /// Ask the detector for the current IPv4 address.
    Detect(Domain),
    /// Ask the domain's vendor to point its record at `new_ip`.
    Update { domain: Domain, new_ip: String },
}

/// What a finished update attempt leaves behind: the address to persist on
/// the domain, if any, and the history entry to append.
pub struct TickRecord {
    pub ip_write: Option<String>,
    pub history: UpdateHistory,
}

/// The address to update to, if the detected one differs from the recorded
/// one; `None` when there is nothing to do.
pub open spec fn update_target(current: Option<Seq<char>>, detected: Option<Seq<char>>) -> Option<
    Seq<char>,
> {
    match detected {
        None => None,
        Some(ip) => if current == Some(ip) {
            None
        } else {
            Some(ip)
        },
    }
}

/// After re-fetching the domain: a vanished domain ends the worker, a fetch
/// error or a disabled domain waits for the next tick, an enabled domain goes
/// on to detection.
pub fn on_domain_fetched(fetched: FetchOutcome) -> (r: WorkerAction)
    ensures
        match fetched {
            FetchOutcome::Found(d) => if d.enabled {
                r == WorkerAction::Detect(d)
            } else {
                r == WorkerAction::Wait
            },
            FetchOutcome::Missing => r == WorkerAction::Exit,
            FetchOutcome::Failed(_) => r == WorkerAction::Wait,
        },
{
    match fetched {
        FetchOutcome::Found(d) => if d.enabled {
            WorkerAction::Detect(d)
        } else {
            WorkerAction::Wait
        },
        FetchOutcome::Missing => WorkerAction::Exit,
        FetchOutcome::Failed(_) => WorkerAction::Wait,
    }
}

/// After detection: a failed or empty detection waits; an address equal to
/// the recorded one waits too, with no vendor call; any other address, or
/// one for a domain with no recorded address, goes on to the update.
pub fn on_ip_detected(domain: Domain, detected: Result<IPInfo, AppError>) -> (r: WorkerAction)
    ensures
        ({
            let det = match detected {
                Ok(info) => opt_view(info.ipv4),
                Err(_) => None,
            };
            match update_target(opt_view(domain.current_ip), det) {
                None => r == WorkerAction::Wait,
                Some(ip) => r is Update && r->domain == domain && r->new_ip@ == ip,
            }
        }),
{
    let new_ip = match detected {
        Ok(info) => match info.ipv4 {
            Some(ip) => ip,
            None => return WorkerAction::Wait,
        },
        Err(_) => return WorkerAction::Wait,
    };
    let unchanged = match &domain.current_ip {
        Some(cur) => str_eq(cur.as_str(), new_ip.as_str()),
        None => false,
    };
    if unchanged {
        WorkerAction::Wait
    } else {
        WorkerAction::Update { domain, new_ip }
    }
}

/// After the vendor call: on success the new address is persisted and a
/// success entry from the recorded address to the new one is appended; on
/// failure only a failure entry with the error's text is appended, and the
/// recorded address stays, so the next tick tries again.
pub fn on_update_finished<T>(domain: &Domain, new_ip: &String, result: Result<T, AppError>, now: i64) -> (r: TickRecord)
    ensures
        match result {
            Ok(_) => {
                &&& r.ip_write == Some(*new_ip)
                &&& is_success_entry(r.history, domain.id@, domain.current_ip, new_ip@)
            },
            Err(e) => {
                &&& r.ip_write.is_none()
                &&& is_failure_entry(r.history, domain.id@, app_error_text(e))
            },
        },
        r.history.timestamp == now,
{
    match result {
        Ok(_) => {
            let history = UpdateHistory::success_at(
                domain.id.clone(),
                clone_opt(&domain.current_ip),
                new_ip.clone(),
                now,
            );
            TickRecord { ip_write: Some(new_ip.clone()), history }
        },
        Err(e) => {
            let history = UpdateHistory::failed_at(domain.id.clone(), e.message(), now);
            TickRecord { ip_write: None, history }
        },
    }
}

/// A tick whose detected address equals the recorded one makes no vendor
/// call and so appends no history.
pub proof fn lemma_unchanged_address_is_idle(current: Seq<char>)
    ensures
        update_target(Some(current), Some(current)).is_none(),
{
}

/// A tick whose detected address differs from the recorded one, or that has
/// no recorded address, updates to exactly the detected address.
pub proof fn lemma_changed_address_updates(current: Option<Seq<char>>, detected: Seq<char>)
    requires
        current != Some(detected),
    ensures
        update_target(current, Some(detected)) == Some(detected),
{
}

// ---------------------------------------------------------------------------
// The manual override.
// ---------------------------------------------------------------------------

/// The address a forced update uses: the detected IPv4 address, with no
/// comparison against the recorded one. Fails with the detection's error
/// text, or with a fixed text when no IPv4 address was found.
pub fn force_update_target(detected: Result<IPInfo, AppError>) -> (r: Result<String, String>)
    ensures
        match detected {
            Err(e) => r == Err::<String, String>(r->Err_0) && r->Err_0@ == app_error_text(e),
            Ok(info) => match info.ipv4 {
                Some(ip) => r == Ok::<String, String>(ip),
                None => r is Err && r->Err_0@ == "no IP address detected"@,
            },
        },
{
    match detected {
        Err(e) => Err(e.message()),
        Ok(info) => match info.ipv4 {
            Some(ip) => Ok(ip),
            None => Err("no IP address detected".to_string()),
        },
    }
}

/// The report of a forced update: `updated <full domain> to <address>`.
pub fn force_update_message(domain: &Domain, new_ip: &String) -> (r: String)
    ensures
        r@ == "updated "@ + full_domain_of(domain.subdomain@, domain.name@) + " to "@ + new_ip@,
{
    let full = domain.full_domain();
    "updated ".to_string().concat(full.as_str()).concat(" to ").concat(new_ip.as_str())
}

} // verus!
