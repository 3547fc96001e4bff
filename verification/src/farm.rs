//! The farm: a pool of CPUs that serves its jobs in the order of their
//! submission, one allocation pass per cycle.

use crate::error::SimError;
use crate::job::{Job, JobView};
use vstd::prelude::*;

verus! {

/// The CPUs that one pass over `jobs` claims out of `cpus`.
pub open spec fn claimed_cpus(jobs: Seq<JobView>, cpus: nat) -> nat
    decreases jobs.len(),
{
    if jobs.len() == 0 {
        0
    } else {
        let before = claimed_cpus(jobs.drop_last(), cpus);
        before + jobs.last().claims((cpus - before) as nat)
    }
}

/// The jobs after one pass with `cpus` CPUs, each in its place: a job is
/// served with what the jobs before it have left.
pub open spec fn served_jobs(jobs: Seq<JobView>, cpus: nat) -> Seq<JobView> {
    Seq::new(
        jobs.len(),
        |i: int| jobs[i].served((cpus - claimed_cpus(jobs.take(i), cpus)) as nat),
    )
}

/// The jobs that still have work, in their order.
pub open spec fn unfinished_jobs(jobs: Seq<JobView>) -> Seq<JobView> {
    jobs.filter(|job: JobView| !job.finished())
}

/// Every job in `jobs` has work left.
pub open spec fn all_unfinished(jobs: Seq<JobView>) -> bool {
    forall|i: int| 0 <= i < jobs.len() ==> !(#[trigger] jobs[i]).finished()
}

/// Every job in `jobs` has a task.
pub open spec fn all_tasked(jobs: Seq<JobView>) -> bool {
    forall|i: int| 0 <= i < jobs.len() ==> (#[trigger] jobs[i]).task_count >= 1
}

/// The work that `jobs` have left, all together.
pub open spec fn total_frames(jobs: Seq<JobView>) -> nat
    decreases jobs.len(),
{
    if jobs.len() == 0 {
        0
    } else {
        total_frames(jobs.drop_last()) + jobs.last().frame_count
    }
}

/// The views of `jobs`, in their order.
pub open spec fn job_views(jobs: Seq<Job>) -> Seq<JobView> {
    jobs.map_values(|job: Job| job@)
}

/// A farm as the contracts see it.
pub struct FarmView {
    /// The jobs, first submitted first.
    pub jobs: Seq<JobView>,
    /// The CPUs of the farm.
    pub cpu_count: nat,
}

impl FarmView {
    /// The farm with `job` submitted.
    pub open spec fn submitted(self, job: JobView) -> FarmView {
        FarmView { jobs: self.jobs.push(job), cpu_count: self.cpu_count }
    }

    /// The farm has no job.
    pub open spec fn idle(self) -> bool {
        self.jobs.len() == 0
    }

    /// The CPUs that the next cycle claims.
    pub open spec fn used_cpus(self) -> nat {
        claimed_cpus(self.jobs, self.cpu_count)
    }

    /// The farm after one cycle: every job served in its turn, and the
    /// finished ones gone.
    pub open spec fn rendered(self) -> FarmView {
        FarmView {
            jobs: unfinished_jobs(served_jobs(self.jobs, self.cpu_count)),
            cpu_count: self.cpu_count,
        }
    }

    /// The farm after `cycles` cycles.
    pub open spec fn after(self, cycles: nat) -> FarmView
        decreases cycles,
    {
        if cycles == 0 {
            self
        } else {
            self.after((cycles - 1) as nat).rendered()
        }
    }
}

/// What one cycle used and left.
#[derive(Clone, Copy, Debug, PartialEq, Eq)]
pub struct FarmCycleResult {
    /// CPUs that the cycle claimed.
    pub used_cpus: u32,
    /// CPUs of the farm.
    pub cpu_count: u32,
    /// Jobs that the cycle left unfinished.
    pub job_count: usize,
}

impl FarmCycleResult {
    /// Puts the three counts of a cycle together.
    pub fn new(used_cpus: u32, cpu_count: u32, job_count: usize) -> (stats: FarmCycleResult)
        ensures
            stats == (FarmCycleResult { used_cpus, cpu_count, job_count }),
    {
        FarmCycleResult { used_cpus, cpu_count, job_count }
    }

    /// The share of the CPUs that the cycle claimed, in whole percent,
    /// rounded down; a cycle that claimed every CPU has the full hundred.
    pub open spec fn percent_used(&self) -> nat {
        if self.used_cpus == self.cpu_count {
            100
        } else {
            (self.used_cpus * 100 / (self.cpu_count as int)) as nat
        }
    }

    /// The share of the CPUs that the cycle claimed, in whole percent,
    /// rounded down. It is a hundred where every CPU was claimed, and only
    /// there.
    pub fn usage_percent(&self) -> (percent: u32)
        requires
            self.used_cpus <= self.cpu_count,
        ensures
            percent == self.percent_used(),
            percent <= 100,
            percent == 100 <==> self.used_cpus == self.cpu_count,
    {
        if self.used_cpus == self.cpu_count {
            100
        } else {
            let scaled: u64 = self.used_cpus as u64 * 100;
            let percent: u64 = scaled / self.cpu_count as u64;
            assert(percent < 100) by (nonlinear_arith)
                requires
                    percent == scaled / (self.cpu_count as u64),
                    scaled == self.used_cpus * 100,
                    self.used_cpus < self.cpu_count,
            ;
            percent as u32
        }
    }
}

/// CPUs and the jobs that wait for them.
pub struct Farm {
    jobs: Vec<Job>,
    cpu_count: u32,
    free_cpu_count: u32,
}

impl View for Farm {
    type V = FarmView;

    closed spec fn view(&self) -> FarmView {
        FarmView { jobs: job_views(self.jobs@), cpu_count: self.cpu_count as nat }
    }
}

impl Farm {
    /// The farm is between two cycles: it has a CPU, and all of its CPUs are
    /// free.
    pub closed spec fn wf(&self) -> bool {
        &&& self.cpu_count >= 1
        &&& self.free_cpu_count == self.cpu_count
    }

    /// Makes a farm of `cpu_num` CPUs without jobs. A farm without CPUs is
    /// refused.
    pub fn new(cpu_num: u32) -> (made: Result<Farm, SimError>)
        ensures
            cpu_num == 0 <==> made == Err::<Farm, SimError>(SimError::DegenerateCapacity),
            cpu_num >= 1 <==> made is Ok,
            made matches Ok(farm) ==> farm.wf() && farm@ == (FarmView {
                jobs: Seq::empty(),
                cpu_count: cpu_num as nat,
            }),
    {
        if cpu_num == 0 {
            return Err(SimError::DegenerateCapacity);
        }
        let farm = Farm { jobs: Vec::new(), cpu_count: cpu_num, free_cpu_count: cpu_num };
        assert(farm@.jobs =~= Seq::empty());
        Ok(farm)
    }

    /// The CPUs of the farm.
    pub fn cpu_count(&self) -> (count: u32)
        ensures
            count == self@.cpu_count,
    {
        self.cpu_count
    }

    /// The CPUs that are free: between two cycles, all of them.
    pub fn free_cpu_count(&self) -> (count: u32)
        requires
            self.wf(),
        ensures
            count == self@.cpu_count,
    {
        self.free_cpu_count
    }

    /// The jobs of the farm, first submitted first.
    pub fn jobs(&self) -> (jobs: &Vec<Job>)
        ensures
            job_views(jobs@) == self@.jobs,
    {
        &self.jobs
    }

    /// The number of jobs in the farm.
    pub fn job_count(&self) -> (count: usize)
        ensures
            count == self@.jobs.len(),
    {
        self.jobs.len()
    }

    /// Whether the farm has no job left.
    pub fn is_empty(&self) -> (empty: bool)
        ensures
            empty == self@.idle(),
    {
        self.jobs.len() == 0
    }

    /// Puts `job` behind the jobs that the farm has.
    pub fn submit(&mut self, job: Job)
        requires
            old(self).wf(),
        ensures
            final(self).wf(),
            final(self)@ == old(self)@.submitted(job@),
    {
        self.jobs.push(job);
        assert(self@.jobs =~= old(self)@.jobs.push(job@));
    }

    /// Runs one cycle. Every CPU is free at its start. The jobs are served
    /// in the order of their submission, each job's tasks in turn, until no
    /// CPU is left; then the finished jobs leave the farm, and the CPUs are
    /// free again.
    pub fn render(&mut self) -> (stats: FarmCycleResult)
        requires
            old(self).wf(),
        ensures
            final(self).wf(),
            final(self)@ == old(self)@.rendered(),
            stats.used_cpus == old(self)@.used_cpus(),
            stats.cpu_count == old(self)@.cpu_count,
            stats.job_count == final(self)@.jobs.len(),
            stats.used_cpus <= stats.cpu_count,
    {
        let ghost before = self@.jobs;
        let ghost cpus = self.cpu_count as nat;
        self.free_cpu_count = self.cpu_count;
        let mut i: usize = 0;
        while i < self.jobs.len()
            invariant
                i <= before.len(),
                self.jobs.len() == before.len(),
                self.cpu_count == cpus,
                self.free_cpu_count + claimed_cpus(before.take(i as int), cpus) == cpus,
                forall|k: int|
                    0 <= k < i ==> (#[trigger] self.jobs[k])@ == served_jobs(before, cpus)[k],
                forall|k: int|
                    i <= k < before.len() ==> (#[trigger] self.jobs[k])@ == before[k],
            ensures
                i < self.jobs.len() ==> self.free_cpu_count == 0,
            decreases self.jobs.len() - i,
        {
            if self.free_cpu_count == 0 {
                break ;
            }
            let mut job = self.jobs[i];
            let claimed = job.render_tasks(self.free_cpu_count);
            self.free_cpu_count -= claimed;
            self.jobs[i] = job;
            proof {
                assert(before.take(i + 1).drop_last() =~= before.take(i as int));
            }
            i += 1;
        }
        proof {
            assert(before.take(before.len() as int) =~= before);
            assert forall|k: int| 0 <= k < before.len() implies (#[trigger] self.jobs[k])@
                == served_jobs(before, cpus)[k] by {
                if k >= i {
                    lemma_claimed_cpus_saturated(before, cpus, i as int, k);
                }
            }
            if i < before.len() {
                lemma_claimed_cpus_saturated(before, cpus, i as int, before.len() as int);
            }
            assert(job_views(self.jobs@) =~= served_jobs(before, cpus));
        }
        let used = self.cpu_count - self.free_cpu_count;
        self.retain_unfinished();
        self.free_cpu_count = self.cpu_count;
        FarmCycleResult::new(used, self.cpu_count, self.jobs.len())
    }

    /// Drops the jobs without work and keeps the others in their order.
    fn retain_unfinished(&mut self)
        ensures
            final(self)@.jobs == unfinished_jobs(old(self)@.jobs),
            final(self).cpu_count == old(self).cpu_count,
            final(self).free_cpu_count == old(self).free_cpu_count,
    {
        let ghost all = self@.jobs;
        let mut kept: Vec<Job> = Vec::new();
        let mut k: usize = 0;
        assert(all.take(0) =~= Seq::empty());
        assert(job_views(kept@) =~= Seq::empty());
        proof {
            reveal(Seq::filter);
        }
        while k < self.jobs.len()
            invariant
                k <= self.jobs.len(),
                all == job_views(self.jobs@),
                job_views(kept@) == unfinished_jobs(all.take(k as int)),
            decreases self.jobs.len() - k,
        {
            let job = self.jobs[k];
            proof {
                let seen = all.take(k as int);
                assert(all.take(k + 1) =~= seen.push(job@));
                seen.lemma_filter_push(job@, |job: JobView| !job.finished());
            }
            if job.frame_count > 0 {
                let ghost kept_before = kept@;
                kept.push(job);
                assert(job_views(kept@) =~= job_views(kept_before).push(job@));
            }
            k += 1;
        }
        assert(all.take(k as int) =~= all);
        self.jobs = kept;
    }
}

/// A pass never claims more CPUs than there are.
pub proof fn lemma_claimed_cpus_bounded(jobs: Seq<JobView>, cpus: nat)
    ensures
        claimed_cpus(jobs, cpus) <= cpus,
    decreases jobs.len(),
{
    if jobs.len() > 0 {
        lemma_claimed_cpus_bounded(jobs.drop_last(), cpus);
    }
}

/// Once a pass has claimed every CPU, the jobs that follow claim nothing.
pub proof fn lemma_claimed_cpus_saturated(jobs: Seq<JobView>, cpus: nat, i: int, k: int)
    requires
        0 <= i <= k <= jobs.len(),
        claimed_cpus(jobs.take(i), cpus) == cpus,
    ensures
        claimed_cpus(jobs.take(k), cpus) == cpus,
    decreases k - i,
{
    if i < k {
        lemma_claimed_cpus_saturated(jobs, cpus, i, k - 1);
        assert(jobs.take(k).drop_last() =~= jobs.take(k - 1));
    }
}

/// A cycle never adds a job.
pub proof fn lemma_rendered_jobs_bounded(farm: FarmView)
    ensures
        farm.rendered().jobs.len() <= farm.jobs.len(),
{
    served_jobs(farm.jobs, farm.cpu_count).lemma_filter_len(|job: JobView| !job.finished());
}

/// Every job that a cycle leaves in the farm has work left.
pub proof fn lemma_rendered_jobs_unfinished(farm: FarmView)
    ensures
        all_unfinished(farm.rendered().jobs),
{
    let served = served_jobs(farm.jobs, farm.cpu_count);
    let left = farm.rendered().jobs;
    assert forall|i: int| 0 <= i < left.len() implies !(#[trigger] left[i]).finished() by {
        served.lemma_filter_pred(|job: JobView| !job.finished(), i);
    }
}

/// Where every job has work left, one pass takes as many units of work off
/// the jobs as it claims CPUs.
pub proof fn lemma_served_jobs_work(jobs: Seq<JobView>, cpus: nat)
    requires
        all_unfinished(jobs),
    ensures
        total_frames(served_jobs(jobs, cpus)) + claimed_cpus(jobs, cpus) == total_frames(jobs),
    decreases jobs.len(),
{
    if jobs.len() > 0 {
        let first = jobs.drop_last();
        lemma_served_jobs_work(first, cpus);
        assert forall|i: int| 0 <= i < first.len() implies #[trigger] jobs.take(i) == first.take(
            i,
        ) by {
            assert(jobs.take(i) =~= first.take(i));
        }
        assert(served_jobs(jobs, cpus).drop_last() =~= served_jobs(first, cpus));
        assert(jobs.take(jobs.len() - 1) =~= first);
        assert(!jobs.last().finished());
    }
}

/// The jobs that have work left have all the work that is left.
pub proof fn lemma_unfinished_jobs_work(jobs: Seq<JobView>)
    ensures
        total_frames(unfinished_jobs(jobs)) == total_frames(jobs),
    decreases jobs.len(),
{
    reveal(Seq::filter);
    if jobs.len() > 0 {
        let first = jobs.drop_last();
        let unfinished = |job: JobView| !job.finished();
        lemma_unfinished_jobs_work(first);
        if !jobs.last().finished() {
            assert(first.filter(unfinished).push(jobs.last()).drop_last() =~= first.filter(
                unfinished,
            ));
        }
    }
}

/// Where every job has work left, a cycle takes as many units of work off
/// the farm as it claims CPUs.
pub proof fn lemma_cycle_takes_claimed_work(farm: FarmView)
    requires
        all_unfinished(farm.jobs),
    ensures
        total_frames(farm.rendered().jobs) + farm.used_cpus() == total_frames(farm.jobs),
{
    lemma_served_jobs_work(farm.jobs, farm.cpu_count);
    lemma_unfinished_jobs_work(served_jobs(farm.jobs, farm.cpu_count));
}

/// A cycle changes nothing in a farm without jobs, and claims no CPU.
pub proof fn lemma_idle_farm_rests(farm: FarmView)
    requires
        farm.idle(),
    ensures
        farm.rendered() == farm,
        farm.used_cpus() == 0,
{
    reveal(Seq::filter);
    assert(served_jobs(farm.jobs, farm.cpu_count) =~= farm.jobs);
    assert(farm.rendered().jobs =~= farm.jobs);
}

} // verus!
