//! Running a farm cycle by cycle until it is empty or the cycles run out.

use crate::farm::{
    job_views, lemma_claimed_cpus_bounded, lemma_idle_farm_rests, lemma_rendered_jobs_bounded,
    total_frames, Farm, FarmView,
};
use crate::job::Job;
use vstd::prelude::*;

verus! {

/// The first cycle from `from` on and before `limit` that finds `farm`
/// empty at its start, cycles counted from zero.
pub open spec fn first_idle_cycle(farm: FarmView, from: nat, limit: nat) -> Option<nat>
    decreases limit - from,
{
    if from >= limit {
        None
    } else if farm.after(from).idle() {
        Some(from)
    } else {
        first_idle_cycle(farm, from + 1, limit)
    }
}

/// The cycle at which a run of at most `max_cycles` cycles stops early. The
/// run looks at the farm after each cycle and stops with the cycle that
/// follows the one that left the farm empty: so this is the first cycle from
/// the second on that starts with an empty farm.
pub open spec fn stop_cycle(farm: FarmView, max_cycles: nat) -> Option<nat> {
    first_idle_cycle(farm, 1, max_cycles)
}

/// The number of cycles that such a run executes.
pub open spec fn cycles_run(farm: FarmView, max_cycles: nat) -> nat {
    match stop_cycle(farm, max_cycles) {
        Some(cycle) => cycle + 1,
        None => max_cycles,
    }
}

/// The record of a run as the contracts see it.
pub struct SimResultView {
    /// The CPUs claimed, cycle by cycle.
    pub farm_usage: Seq<nat>,
    /// The jobs finished so far, cycle by cycle.
    pub finished_jobs: Seq<nat>,
    /// The cycle at which the run stopped early, or zero.
    pub last_cycle: nat,
    /// The work that the jobs had at the start.
    pub total_frames: nat,
    /// The CPUs of the farm.
    pub cpu_count: nat,
    /// The jobs that the farm had at the start.
    pub job_count: nat,
    /// The jobs that the run left unfinished.
    pub unfinished_jobs: nat,
}

/// The record of a run of `farm` over at most `max_cycles` cycles.
pub open spec fn simulated(farm: FarmView, max_cycles: nat) -> SimResultView {
    SimResultView {
        farm_usage: Seq::new(
            cycles_run(farm, max_cycles),
            |cycle: int| farm.after(cycle as nat).used_cpus(),
        ),
        finished_jobs: Seq::new(
            cycles_run(farm, max_cycles),
            |cycle: int| (farm.jobs.len() - farm.after((cycle + 1) as nat).jobs.len()) as nat,
        ),
        last_cycle: match stop_cycle(farm, max_cycles) {
            Some(cycle) => cycle,
            None => 0,
        },
        total_frames: total_frames(farm.jobs),
        cpu_count: farm.cpu_count,
        job_count: farm.jobs.len(),
        unfinished_jobs: farm.after(cycles_run(farm, max_cycles)).jobs.len(),
    }
}

/// The record of one run. The usage of a cycle is the number of CPUs that it
/// claimed, out of `cpu_count`; the progress after a cycle is the number of
/// jobs finished so far, out of `job_count`.
#[derive(Debug, PartialEq, Eq)]
pub struct SimResult {
    /// The CPUs claimed, cycle by cycle.
    pub farm_usage: Vec<u32>,
    /// The jobs finished so far, cycle by cycle.
    pub finished_jobs: Vec<usize>,
    /// The cycle at which the run stopped early, or zero.
    pub last_cycle: u32,
    /// The work that the jobs had at the start.
    pub total_frames: u128,
    /// The CPUs of the farm.
    pub cpu_count: u32,
    /// The jobs that the farm had at the start.
    pub job_count: usize,
    /// The jobs that the run left unfinished: none, unless the cycles ran
    /// out first.
    pub unfinished_jobs: usize,
}

impl View for SimResult {
    type V = SimResultView;

    open spec fn view(&self) -> SimResultView {
        SimResultView {
            farm_usage: self.farm_usage@.map_values(|used: u32| used as nat),
            finished_jobs: self.finished_jobs@.map_values(|finished: usize| finished as nat),
            last_cycle: self.last_cycle as nat,
            total_frames: self.total_frames as nat,
            cpu_count: self.cpu_count as nat,
            job_count: self.job_count as nat,
            unfinished_jobs: self.unfinished_jobs as nat,
        }
    }
}

/// The work that the jobs in `jobs` have left, all together.
pub fn sum_frames(jobs: &Vec<Job>) -> (total: u128)
    ensures
        total == total_frames(job_views(jobs@)),
{
    let ghost views = job_views(jobs@);
    let mut total: u128 = 0;
    let mut i: usize = 0;
    assert(views.take(0) =~= Seq::empty());
    while i < jobs.len()
        invariant
            i <= jobs.len(),
            views == job_views(jobs@),
            total == total_frames(views.take(i as int)),
            total <= i * u64::MAX,
        decreases jobs.len() - i,
    {
        assert(views.take(i + 1).drop_last() =~= views.take(i as int));
        assert((i + 1) * u64::MAX == i * u64::MAX + u64::MAX) by (nonlinear_arith);
        assert(i * u64::MAX + u64::MAX <= u128::MAX) by (nonlinear_arith)
            requires
                i < usize::MAX,
                usize::MAX <= u64::MAX,
        ;
        total = total + jobs[i].frame_count as u128;
        i += 1;
    }
    assert(views.take(i as int) =~= views);
    total
}

/// Runs `farm` for at most `max_cycles` cycles and records each of them. The
/// run stops early with the cycle that follows the one that left the farm
/// empty, and notes that cycle as the last one; a run that uses up its
/// cycles notes zero.
pub fn run_sim(farm: Farm, max_cycles: u32) -> (result: SimResult)
    requires
        farm.wf(),
    ensures
        result@ == simulated(farm@, max_cycles as nat),
{
    let mut farm = farm;
    let ghost start = farm@;
    let total_frames = sum_frames(farm.jobs());
    let cpu_count = farm.cpu_count();
    let job_count = farm.job_count();
    let mut finished = false;
    let mut farm_usage: Vec<u32> = Vec::new();
    let mut finished_jobs: Vec<usize> = Vec::new();
    let mut last_cycle: u32 = 0;
    let mut cycle: u32 = 0;
    while cycle < max_cycles
        invariant_except_break
            last_cycle == 0,
            cycle <= max_cycles,
            farm_usage.len() == cycle,
            finished <==> cycle >= 1 && start.after(cycle as nat).idle(),
            stop_cycle(start, max_cycles as nat) == first_idle_cycle(
                start,
                if cycle == 0 {
                    1
                } else {
                    cycle as nat
                },
                max_cycles as nat,
            ),
            farm@ == start.after(cycle as nat),
        invariant
            farm.wf(),
            job_count == start.jobs.len(),
            farm_usage.len() == finished_jobs.len(),
            farm_usage.len() <= max_cycles,
            forall|c: int|
                0 <= c < farm_usage.len() ==> #[trigger] farm_usage[c] == start.after(
                    c as nat,
                ).used_cpus(),
            forall|c: int|
                0 <= c < finished_jobs.len() ==> #[trigger] finished_jobs[c] == start.jobs.len()
                    - start.after((c + 1) as nat).jobs.len(),
        ensures
            farm@ == start.after(farm_usage.len() as nat),
            last_cycle > 0 ==> stop_cycle(start, max_cycles as nat) == Some(last_cycle as nat)
                && farm_usage.len() == last_cycle + 1,
            last_cycle == 0 ==> stop_cycle(start, max_cycles as nat) == None::<nat>
                && farm_usage.len() == max_cycles,
        decreases max_cycles - cycle,
    {
        let stats = farm.render();
        proof {
            lemma_after_jobs_bounded(start, (cycle + 1) as nat);
        }
        farm_usage.push(stats.used_cpus);
        finished_jobs.push(job_count - stats.job_count);
        if finished {
            last_cycle = cycle;
            break ;
        }
        if farm.is_empty() {
            finished = true;
        }
        cycle += 1;
    }
    let result = SimResult {
        farm_usage,
        finished_jobs,
        last_cycle,
        total_frames,
        cpu_count,
        job_count,
        unfinished_jobs: farm.job_count(),
    };
    assert(result@.farm_usage =~= simulated(start, max_cycles as nat).farm_usage);
    assert(result@.finished_jobs =~= simulated(start, max_cycles as nat).finished_jobs);
    result
}

/// No number of cycles adds a job or changes the CPUs.
pub proof fn lemma_after_jobs_bounded(farm: FarmView, cycles: nat)
    ensures
        farm.after(cycles).jobs.len() <= farm.jobs.len(),
        farm.after(cycles).cpu_count == farm.cpu_count,
    decreases cycles,
{
    if cycles > 0 {
        lemma_after_jobs_bounded(farm, (cycles - 1) as nat);
        lemma_rendered_jobs_bounded(farm.after((cycles - 1) as nat));
    }
}

/// The jobs in a farm never get more from one cycle to a later one.
pub proof fn lemma_after_jobs_decrease(farm: FarmView, earlier: nat, later: nat)
    requires
        earlier <= later,
    ensures
        farm.after(later).jobs.len() <= farm.after(earlier).jobs.len(),
    decreases later - earlier,
{
    if earlier < later {
        lemma_after_jobs_decrease(farm, earlier, (later - 1) as nat);
        lemma_rendered_jobs_bounded(farm.after((later - 1) as nat));
    }
}

/// The record of a run stays within its bounds: it has an entry in each
/// series for each cycle that was run, and no more cycles than allowed; no
/// cycle claims more CPUs than the farm has; and the jobs finished never
/// get fewer, nor more than the jobs that the run began with.
pub proof fn lemma_simulated_in_bounds(farm: FarmView, max_cycles: nat)
    ensures
        ({
            let record = simulated(farm, max_cycles);
            &&& record.farm_usage.len() == cycles_run(farm, max_cycles)
            &&& record.finished_jobs.len() == cycles_run(farm, max_cycles)
            &&& cycles_run(farm, max_cycles) <= max_cycles
            &&& record.last_cycle < max_cycles || record.last_cycle == 0
            &&& record.unfinished_jobs <= record.job_count
            &&& forall|cycle: int|
                0 <= cycle < record.farm_usage.len() ==> #[trigger] record.farm_usage[cycle]
                    <= record.cpu_count
            &&& forall|cycle: int|
                0 <= cycle < record.finished_jobs.len() ==> #[trigger] record.finished_jobs[cycle]
                    <= record.job_count
            &&& forall|earlier: int, later: int|
                0 <= earlier <= later < record.finished_jobs.len()
                    ==> #[trigger] record.finished_jobs[earlier]
                    <= #[trigger] record.finished_jobs[later]
        }),
{
    let record = simulated(farm, max_cycles);
    lemma_first_idle_cycle(farm, 1, max_cycles);
    lemma_after_jobs_bounded(farm, cycles_run(farm, max_cycles));
    let usage = record.farm_usage;
    let finished = record.finished_jobs;
    assert forall|cycle: int| 0 <= cycle < usage.len() implies #[trigger] usage[cycle]
        <= record.cpu_count by {
        lemma_after_jobs_bounded(farm, cycle as nat);
        lemma_claimed_cpus_bounded(farm.after(cycle as nat).jobs, farm.cpu_count);
    }
    assert forall|cycle: int| 0 <= cycle < finished.len() implies #[trigger] finished[cycle]
        <= record.job_count by {
        lemma_after_jobs_bounded(farm, (cycle + 1) as nat);
    }
    assert forall|earlier: int, later: int|
        0 <= earlier <= later < finished.len() implies #[trigger] finished[earlier]
        <= #[trigger] finished[later] by {
        lemma_after_jobs_decrease(farm, (earlier + 1) as nat, (later + 1) as nat);
        lemma_after_jobs_bounded(farm, (earlier + 1) as nat);
        lemma_after_jobs_bounded(farm, (later + 1) as nat);
    }
}

/// The first idle cycle is idle, lies in the range that was searched, and no
/// cycle of that range before it is idle; where there is none, no cycle of
/// the range is idle.
pub proof fn lemma_first_idle_cycle(farm: FarmView, from: nat, limit: nat)
    ensures
        match first_idle_cycle(farm, from, limit) {
            Some(cycle) => {
                &&& from <= cycle < limit
                &&& farm.after(cycle).idle()
                &&& forall|k: nat| from <= k < cycle ==> !(#[trigger] farm.after(k)).idle()
            },
            None => forall|k: nat| from <= k < limit ==> !(#[trigger] farm.after(k)).idle(),
        },
    decreases limit - from,
{
    if from < limit && !farm.after(from).idle() {
        lemma_first_idle_cycle(farm, from + 1, limit);
    }
}

/// A cycle of the range that is idle while none before it is, is the first
/// idle cycle; and there is none where no cycle of the range is idle.
pub proof fn lemma_first_idle_cycle_unique(farm: FarmView, from: nat, limit: nat, cycle: nat)
    requires
        from <= cycle <= limit,
        forall|k: nat| from <= k < cycle ==> !(#[trigger] farm.after(k)).idle(),
        cycle < limit ==> farm.after(cycle).idle(),
    ensures
        first_idle_cycle(farm, from, limit) == if cycle < limit {
            Some(cycle)
        } else {
            None
        },
    decreases cycle - from,
{
    if from < cycle {
        assert(!farm.after(from).idle());
        lemma_first_idle_cycle_unique(farm, from + 1, limit, cycle);
    }
}

/// No number of cycles changes a farm without jobs.
pub proof fn lemma_idle_farm_stays(farm: FarmView, cycles: nat)
    requires
        farm.idle(),
    ensures
        farm.after(cycles) == farm,
    decreases cycles,
{
    if cycles > 0 {
        lemma_idle_farm_stays(farm, (cycles - 1) as nat);
        lemma_idle_farm_rests(farm);
    }
}

/// A run that stops early has found the farm empty: it leaves no job
/// unfinished, and its last cycle has claimed no CPU.
pub proof fn lemma_early_stop_leaves_nothing(farm: FarmView, max_cycles: nat)
    requires
        stop_cycle(farm, max_cycles) is Some,
    ensures
        simulated(farm, max_cycles).unfinished_jobs == 0,
        simulated(farm, max_cycles).farm_usage.last() == 0,
        simulated(farm, max_cycles).finished_jobs.last() == farm.jobs.len(),
        simulated(farm, max_cycles).last_cycle >= 1,
{
    let last = stop_cycle(farm, max_cycles).unwrap();
    lemma_first_idle_cycle(farm, 1, max_cycles);
    lemma_idle_farm_rests(farm.after(last));
    assert(farm.after(last + 1) == farm.after(last).rendered());
}

} // verus!
