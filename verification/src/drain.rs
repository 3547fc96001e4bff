//! How long a farm takes to drain: what a cycle and a run take off the
//! work of a farm, the cycles that a single job needs, and the bounds that
//! hold for every farm.

use crate::farm::{
    all_tasked, all_unfinished, claimed_cpus, lemma_claimed_cpus_bounded,
    lemma_cycle_takes_claimed_work, lemma_idle_farm_rests, lemma_rendered_jobs_unfinished,
    served_jobs, total_frames, unfinished_jobs, FarmView,
};
use crate::job::{lemma_rendered_clamps, lemma_task_count_is_ceiling, task_count_for, JobView};
use crate::sim::{
    lemma_after_jobs_bounded, lemma_first_idle_cycle, lemma_first_idle_cycle_unique, stop_cycle,
};
use vstd::prelude::*;

verus! {

/// The CPUs that the first `cycles` cycles of `farm` claim, all together.
pub open spec fn claimed_over(farm: FarmView, cycles: nat) -> nat
    decreases cycles,
{
    if cycles == 0 {
        0
    } else {
        claimed_over(farm, (cycles - 1) as nat) + farm.after((cycles - 1) as nat).used_cpus()
    }
}

/// From the first cycle on, every job in the farm has work left.
pub proof fn lemma_after_jobs_unfinished(farm: FarmView, cycles: nat)
    requires
        cycles >= 1,
    ensures
        all_unfinished(farm.after(cycles).jobs),
{
    lemma_rendered_jobs_unfinished(farm.after((cycles - 1) as nat));
}

/// Where every job starts with work, the work that is left after some
/// cycles and the CPUs claimed in them add up to the work at the start: no
/// CPU is claimed without a unit of work done, and none is done without.
pub proof fn lemma_run_takes_claimed_work(farm: FarmView, cycles: nat)
    requires
        all_unfinished(farm.jobs),
    ensures
        total_frames(farm.after(cycles).jobs) + claimed_over(farm, cycles) == total_frames(
            farm.jobs,
        ),
    decreases cycles,
{
    if cycles > 0 {
        let before = (cycles - 1) as nat;
        lemma_run_takes_claimed_work(farm, before);
        if before >= 1 {
            lemma_after_jobs_unfinished(farm, before);
        }
        lemma_cycle_takes_claimed_work(farm.after(before));
    }
}

/// The CPUs claimed over some cycles are no more than the CPUs of the farm
/// for each cycle.
pub proof fn lemma_claimed_over_bounded(farm: FarmView, cycles: nat)
    ensures
        claimed_over(farm, cycles) <= cycles * farm.cpu_count,
    decreases cycles,
{
    if cycles > 0 {
        let before = (cycles - 1) as nat;
        lemma_claimed_over_bounded(farm, before);
        lemma_after_jobs_bounded(farm, before);
        lemma_claimed_cpus_bounded(farm.after(before).jobs, farm.cpu_count);
        assert(cycles * farm.cpu_count == before * farm.cpu_count + farm.cpu_count)
            by (nonlinear_arith)
            requires
                cycles == before + 1,
        ;
    } else {
        assert(cycles * farm.cpu_count == 0) by (nonlinear_arith)
            requires
                cycles == 0,
        ;
    }
}

/// Jobs that all have work left have at least one unit of work each.
pub proof fn lemma_unfinished_jobs_have_work(jobs: Seq<JobView>)
    requires
        all_unfinished(jobs),
    ensures
        total_frames(jobs) >= jobs.len(),
    decreases jobs.len(),
{
    if jobs.len() > 0 {
        lemma_unfinished_jobs_have_work(jobs.drop_last());
        assert(!jobs.last().finished());
    }
}

/// A pass over jobs of which the first has a task claims a CPU, where the
/// farm has one.
pub proof fn lemma_first_job_claims(jobs: Seq<JobView>, cpus: nat)
    requires
        jobs.len() >= 1,
        jobs[0].task_count >= 1,
        cpus >= 1,
    ensures
        claimed_cpus(jobs, cpus) >= 1,
    decreases jobs.len(),
{
    if jobs.len() == 1 {
        reveal_with_fuel(claimed_cpus, 2);
        assert(jobs.drop_last() =~= Seq::<JobView>::empty());
    } else {
        lemma_first_job_claims(jobs.drop_last(), cpus);
    }
}

/// A cycle takes no task from a job: where every job has a task before it,
/// every job has one after it.
pub proof fn lemma_rendered_jobs_tasked(farm: FarmView)
    requires
        all_tasked(farm.jobs),
    ensures
        all_tasked(farm.rendered().jobs),
{
    let served = served_jobs(farm.jobs, farm.cpu_count);
    let left = unfinished_jobs(served);
    assert forall|i: int| 0 <= i < left.len() implies (#[trigger] left[i]).task_count >= 1 by {
        assert(left.contains(left[i]));
        served.lemma_filter_contains_rev(|job: JobView| !job.finished(), left[i]);
        let k = choose|k: int| 0 <= k < served.len() && served[k] == left[i];
        assert(served[k].task_count == farm.jobs[k].task_count);
    }
}

/// No number of cycles takes a task from a job.
pub proof fn lemma_after_jobs_tasked(farm: FarmView, cycles: nat)
    requires
        all_tasked(farm.jobs),
    ensures
        all_tasked(farm.after(cycles).jobs),
    decreases cycles,
{
    if cycles > 0 {
        lemma_after_jobs_tasked(farm, (cycles - 1) as nat);
        lemma_rendered_jobs_tasked(farm.after((cycles - 1) as nat));
    }
}

/// A farm with a CPU, whose jobs all have work and a task, does at least
/// one unit of work in every cycle until it is empty. So it is empty after
/// as many cycles as its jobs have units of work, at the latest.
pub proof fn lemma_farm_drains(farm: FarmView, cycles: nat)
    requires
        farm.cpu_count >= 1,
        all_unfinished(farm.jobs),
        all_tasked(farm.jobs),
    ensures
        farm.after(cycles).idle() || total_frames(farm.after(cycles).jobs) + cycles
            <= total_frames(farm.jobs),
        cycles >= total_frames(farm.jobs) ==> farm.after(cycles).idle(),
    decreases cycles,
{
    if cycles > 0 {
        let before = (cycles - 1) as nat;
        let then = farm.after(before);
        lemma_farm_drains(farm, before);
        if then.idle() {
            lemma_idle_farm_rests(then);
        } else {
            lemma_after_jobs_tasked(farm, before);
            lemma_after_jobs_bounded(farm, before);
            if before >= 1 {
                lemma_after_jobs_unfinished(farm, before);
            }
            lemma_first_job_claims(then.jobs, then.cpu_count);
            lemma_cycle_takes_claimed_work(then);
        }
    }
    if !farm.after(cycles).idle() {
        if cycles >= 1 {
            lemma_after_jobs_unfinished(farm, cycles);
        }
        lemma_unfinished_jobs_have_work(farm.after(cycles).jobs);
    }
}

/// A farm whose jobs all have work is not empty as long as its CPUs cannot
/// have done all the work: no cycle does more units of work than the farm
/// has CPUs.
pub proof fn lemma_farm_busy(farm: FarmView, cycles: nat)
    requires
        all_unfinished(farm.jobs),
        cycles * farm.cpu_count < total_frames(farm.jobs),
    ensures
        !farm.after(cycles).idle(),
{
    lemma_run_takes_claimed_work(farm, cycles);
    lemma_claimed_over_bounded(farm, cycles);
}

/// A run of a farm with a CPU, whose jobs all have work and a task, stops
/// early where it may take more cycles than the jobs have units of work. It
/// stops no later than after one cycle for each unit, and no sooner than
/// the CPUs can have done all the work.
pub proof fn lemma_run_stops(farm: FarmView, max_cycles: nat)
    requires
        farm.cpu_count >= 1,
        all_unfinished(farm.jobs),
        all_tasked(farm.jobs),
        max_cycles > total_frames(farm.jobs),
        max_cycles >= 2,
    ensures
        stop_cycle(farm, max_cycles) is Some,
        1 <= stop_cycle(farm, max_cycles).unwrap() < max_cycles,
        stop_cycle(farm, max_cycles).unwrap() <= total_frames(farm.jobs) || stop_cycle(
            farm,
            max_cycles,
        ).unwrap() == 1,
        stop_cycle(farm, max_cycles).unwrap() * farm.cpu_count >= total_frames(farm.jobs),
{
    let work = total_frames(farm.jobs);
    let latest: nat = if work == 0 {
        1
    } else {
        work
    };
    lemma_farm_drains(farm, latest);
    lemma_first_idle_cycle(farm, 1, max_cycles);
    assert(farm.after(latest).idle());
    let stop = stop_cycle(farm, max_cycles).unwrap();
    if stop * farm.cpu_count < work {
        lemma_farm_busy(farm, stop);
    }
}

/// A farm with one job and a CPU for each of its tasks takes one unit of
/// work off the job for each task, or all the work if that is less; the job
/// stays unless that was all its work.
pub proof fn lemma_single_job_cycle(job: JobView, cpus: nat)
    requires
        job.task_count >= 1,
        job.frame_count >= 1,
        cpus >= job.task_count,
    ensures
        ({
            let farm = FarmView { jobs: seq![job], cpu_count: cpus };
            &&& farm.used_cpus() == if job.frame_count <= job.task_count {
                job.frame_count
            } else {
                job.task_count
            }
            &&& farm.rendered().cpu_count == cpus
            &&& farm.rendered().jobs == if job.frame_count <= job.task_count {
                Seq::<JobView>::empty()
            } else {
                seq![job.worked(job.task_count)]
            }
        }),
{
    let jobs = seq![job];
    let none = Seq::<JobView>::empty();
    let unfinished = |job: JobView| !job.finished();
    reveal_with_fuel(claimed_cpus, 2);
    assert(jobs.drop_last() =~= none);
    assert(jobs.take(0) =~= none);
    let served = served_jobs(jobs, cpus);
    assert(served =~= none.push(job.served(cpus)));
    none.lemma_filter_push(job.served(cpus), unfinished);
    assert(none.filter(unfinished) =~= none) by {
        reveal(Seq::filter);
    }
    assert(none.push(job.served(cpus)) =~= seq![job.worked(job.task_count)]);
}

/// A farm with one job and a CPU for each of its tasks takes one unit of
/// work per task off the job in every cycle. After `cycles` cycles the job
/// has lost that many units for each of its tasks, and it is gone as soon as
/// that covers its work: after as many cycles as its work, divided by its
/// tasks and rounded up, and not before. Until then each cycle claims one
/// CPU per task, or one per unit left if that is less.
pub proof fn lemma_single_job_drains(job: JobView, cpus: nat, cycles: nat)
    requires
        job.task_count >= 1,
        job.frame_count >= 1,
        cpus >= job.task_count,
    ensures
        ({
            let farm = FarmView { jobs: seq![job], cpu_count: cpus };
            let done = cycles * job.task_count;
            &&& farm.after(cycles).cpu_count == cpus
            &&& farm.after(cycles).jobs == if done >= job.frame_count {
                Seq::<JobView>::empty()
            } else {
                seq![job.worked(done)]
            }
            &&& farm.after(cycles).idle() <==> cycles >= task_count_for(
                job.frame_count,
                job.task_count,
            )
            &&& farm.after(cycles).used_cpus() == if done >= job.frame_count {
                0
            } else if job.frame_count - done <= job.task_count {
                job.frame_count - done
            } else {
                job.task_count as int
            }
        }),
    decreases cycles,
{
    let farm = FarmView { jobs: seq![job], cpu_count: cpus };
    let tasks = job.task_count;
    let done = cycles * tasks;
    let rounds = task_count_for(job.frame_count, tasks);
    lemma_task_count_is_ceiling(job.frame_count, tasks);
    assert(cycles >= rounds <==> done >= job.frame_count) by (nonlinear_arith)
        requires
            rounds * tasks >= job.frame_count,
            (rounds - 1) * tasks < job.frame_count,
            done == cycles * tasks,
            tasks >= 1,
    ;
    if cycles == 0 {
        assert(done == 0) by (nonlinear_arith)
            requires
                done == cycles * tasks,
                cycles == 0,
        ;
        assert(job.worked(0) == job);
    } else {
        let before = (cycles - 1) as nat;
        let done_before = before * tasks;
        assert(done == done_before + tasks) by (nonlinear_arith)
            requires
                done == cycles * tasks,
                done_before == (cycles - 1) * tasks,
        ;
        lemma_single_job_drains(job, cpus, before);
        if done_before >= job.frame_count {
            lemma_idle_farm_rests(farm.after(before));
        } else {
            let left = job.worked(done_before);
            lemma_single_job_cycle(left, cpus);
            assert(left.worked(tasks) == job.worked(done));
            assert(farm.after(before) == (FarmView { jobs: seq![left], cpu_count: cpus }));
        }
    }
    if done >= job.frame_count {
        lemma_idle_farm_rests(farm.after(cycles));
    } else {
        lemma_single_job_cycle(job.worked(done), cpus);
        assert(farm.after(cycles) == (FarmView { jobs: seq![job.worked(done)], cpu_count: cpus }));
    }
}

/// A run of a farm with one job and a CPU for each of its tasks stops at
/// the cycle whose number is the job's work, divided by its tasks and
/// rounded up, where the run may take more cycles than that; else it uses
/// up its cycles.
pub proof fn lemma_single_job_stop_cycle(job: JobView, cpus: nat, max_cycles: nat)
    requires
        job.task_count >= 1,
        job.frame_count >= 1,
        cpus >= job.task_count,
    ensures
        stop_cycle(FarmView { jobs: seq![job], cpu_count: cpus }, max_cycles) == if task_count_for(
            job.frame_count,
            job.task_count,
        ) < max_cycles {
            Some(task_count_for(job.frame_count, job.task_count))
        } else {
            None
        },
{
    let farm = FarmView { jobs: seq![job], cpu_count: cpus };
    let rounds = task_count_for(job.frame_count, job.task_count);
    lemma_task_count_is_ceiling(job.frame_count, job.task_count);
    assert(rounds >= 1) by (nonlinear_arith)
        requires
            rounds * job.task_count >= job.frame_count,
            job.frame_count >= 1,
    ;
    assert forall|k: nat| 1 <= k < rounds implies !(#[trigger] farm.after(k)).idle() by {
        lemma_single_job_drains(job, cpus, k);
    }
    lemma_single_job_drains(job, cpus, rounds);
    if rounds < max_cycles {
        lemma_first_idle_cycle_unique(farm, 1, max_cycles, rounds);
    } else {
        assert forall|k: nat| 1 <= k < max_cycles implies !(#[trigger] farm.after(k)).idle() by {
            lemma_single_job_drains(job, cpus, k);
        }
        if max_cycles >= 1 {
            lemma_first_idle_cycle_unique(farm, 1, max_cycles, max_cycles);
        }
    }
}

/// With a single task, and so a single CPU at work, the job loses exactly
/// one unit in every cycle and is gone after as many cycles as it had units.
pub proof fn lemma_single_task_job_drains(job: JobView, cpus: nat, cycles: nat)
    requires
        job.task_count == 1,
        job.frame_count >= 1,
        cpus >= 1,
    ensures
        ({
            let farm = FarmView { jobs: seq![job], cpu_count: cpus };
            &&& farm.after(cycles).idle() <==> cycles >= job.frame_count
            &&& cycles < job.frame_count ==> farm.after(cycles).jobs == seq![job.rendered(cycles)]
            &&& farm.after(cycles).used_cpus() == if cycles < job.frame_count {
                1nat
            } else {
                0nat
            }
        }),
{
    lemma_single_job_drains(job, cpus, cycles);
    lemma_rendered_clamps(job, cycles);
    lemma_task_count_is_ceiling(job.frame_count, 1);
    assert(cycles * 1 == cycles) by (nonlinear_arith);
    assert(task_count_for(job.frame_count, 1) == job.frame_count);
}


} // verus!
