//! A job: the work it has left, and the number of tasks it is split into.

use crate::error::SimError;
use vstd::prelude::*;

verus! {

/// The number of tasks of `task_frames` frames each that `frames` frames
/// need: the quotient, rounded up.
pub open spec fn task_count_for(frames: nat, task_frames: nat) -> nat
    recommends
        task_frames >= 1,
{
    ((frames + task_frames - 1) / (task_frames as int)) as nat
}

/// A job as the contracts see it.
pub struct JobView {
    /// Units of work that are left.
    pub frame_count: nat,
    /// Tasks that the job is split into.
    pub task_count: nat,
}

impl JobView {
    /// The job that `frames` frames make when they are cut into tasks of
    /// `task_frames` frames, each task costing `startup_cycles` units more.
    pub open spec fn created(frames: nat, task_frames: nat, startup_cycles: nat) -> JobView
        recommends
            task_frames >= 1,
    {
        JobView {
            frame_count: frames + task_count_for(frames, task_frames) * startup_cycles,
            task_count: task_count_for(frames, task_frames),
        }
    }

    /// No work is left.
    pub open spec fn finished(self) -> bool {
        self.frame_count == 0
    }

    /// The job with `units` units of work taken off, stopping at zero.
    pub open spec fn worked(self, units: nat) -> JobView {
        JobView {
            frame_count: if units >= self.frame_count {
                0
            } else {
                (self.frame_count - units) as nat
            },
            task_count: self.task_count,
        }
    }

    /// The job after `times` calls of [`Job::render`].
    pub open spec fn rendered(self, times: nat) -> JobView
        decreases times,
    {
        if times == 0 {
            self
        } else {
            self.rendered((times - 1) as nat).worked(1)
        }
    }

    /// The CPUs that the job claims in a pass that reaches it with `free`
    /// CPUs left. Each of its tasks claims one CPU, and each claim takes one
    /// unit of work off the job; the job stops claiming once no work is
    /// left. A job without work that still has a task claims one CPU before
    /// it is seen to be finished.
    pub open spec fn claims(self, free: nat) -> nat {
        let wanted = if self.frame_count == 0 {
            1
        } else {
            self.frame_count
        };
        let by_tasks = if self.task_count <= wanted {
            self.task_count
        } else {
            wanted
        };
        if by_tasks <= free {
            by_tasks
        } else {
            free
        }
    }

    /// The job after such a pass.
    pub open spec fn served(self, free: nat) -> JobView {
        self.worked(self.claims(free))
    }
}

/// A job of the farm.
#[derive(Clone, Copy, Debug, PartialEq, Eq)]
pub struct Job {
    /// Units of work that are left.
    pub frame_count: u64,
    /// Tasks that the job is split into.
    pub task_count: u32,
}

impl View for Job {
    type V = JobView;

    open spec fn view(&self) -> JobView {
        JobView { frame_count: self.frame_count as nat, task_count: self.task_count as nat }
    }
}

impl Job {
    /// Makes the job for `frames` frames that are rendered in tasks of
    /// `task_frames` frames, where starting a task costs `startup_cycles`
    /// units of work. A task size of zero is refused.
    pub fn new(frames: u32, task_frames: u32, startup_cycles: u32) -> (made: Result<Job, SimError>)
        ensures
            task_frames == 0 <==> made == Err::<Job, SimError>(SimError::InvalidChunkSize),
            task_frames >= 1 <==> made is Ok,
            made matches Ok(job) ==> job@ == JobView::created(
                frames as nat,
                task_frames as nat,
                startup_cycles as nat,
            ),
    {
        if task_frames == 0 {
            return Err(SimError::InvalidChunkSize);
        }
        let whole: u32 = frames / task_frames;
        let rest: u32 = frames % task_frames;
        proof {
            lemma_task_count_split(frames as nat, task_frames as nat);
            lemma_task_count_is_ceiling(frames as nat, task_frames as nat);
        }
        let tasks: u32 = if rest > 0 {
            whole + 1
        } else {
            whole
        };
        assert(tasks * startup_cycles + frames <= u64::MAX) by (nonlinear_arith)
            requires
                tasks <= u32::MAX,
                startup_cycles <= u32::MAX,
                frames <= u32::MAX,
        ;
        let overhead: u64 = (tasks as u64) * (startup_cycles as u64);
        Ok(Job { frame_count: frames as u64 + overhead, task_count: tasks })
    }

    /// Takes one unit of work off the job, if any is left.
    pub fn render(&mut self)
        ensures
            final(self)@ == old(self)@.worked(1),
    {
        if self.frame_count > 0 {
            self.frame_count -= 1;
        }
    }

    /// Serves the tasks of the job in turn out of `free_cpus` CPUs: each
    /// task claims one CPU and renders one unit, until the tasks, the CPUs
    /// or the work run out. Returns the CPUs that were claimed.
    pub fn render_tasks(&mut self, free_cpus: u32) -> (claimed: u32)
        ensures
            claimed == old(self)@.claims(free_cpus as nat),
            final(self)@ == old(self)@.served(free_cpus as nat),
    {
        let mut claimed: u32 = 0;
        while claimed < self.task_count
            invariant_except_break
                claimed <= self.task_count,
                claimed <= free_cpus,
                claimed > 0 ==> claimed < old(self).frame_count,
            invariant
                self@ == old(self)@.worked(claimed as nat),
            ensures
                claimed == old(self)@.claims(free_cpus as nat),
            decreases self.task_count - claimed,
        {
            if claimed == free_cpus {
                break ;
            }
            claimed += 1;
            self.render();
            if self.frame_count == 0 {
                break ;
            }
        }
        claimed
    }
}

/// The rounded-up quotient is the least number of tasks that hold all the
/// frames: that many tasks hold them, and one task fewer does not.
pub proof fn lemma_task_count_is_ceiling(frames: nat, task_frames: nat)
    requires
        task_frames >= 1,
    ensures
        task_count_for(frames, task_frames) * task_frames >= frames,
        frames >= 1 ==> (task_count_for(frames, task_frames) - 1) * task_frames < frames,
        frames == 0 ==> task_count_for(frames, task_frames) == 0,
        task_count_for(frames, task_frames) <= frames,
{
    let n = frames + task_frames - 1;
    let d = task_frames as int;
    vstd::arithmetic::div_mod::lemma_fundamental_div_mod(n, d);
    vstd::arithmetic::div_mod::lemma_mod_bound(n, d);
    let q = n / d;
    assert(q * d == d * q) by (nonlinear_arith);
    assert((q - 1) * d == q * d - d) by (nonlinear_arith);
    if frames == 0 {
        vstd::arithmetic::div_mod::lemma_basic_div(n, d);
    } else {
        vstd::arithmetic::div_mod::lemma_div_pos_is_pos(n, d);
        assert(q <= frames) by (nonlinear_arith)
            requires
                q * d <= frames + d - 1,
                d >= 1,
                frames >= 1,
                q >= 0,
        ;
    }
}

/// Rendering a job `times` times takes `times` units of work off it and
/// stops at zero: the work left never grows with the number of calls, and
/// calls made after the work is done leave it at zero.
pub proof fn lemma_rendered_clamps(job: JobView, times: nat)
    ensures
        job.rendered(times) == job.worked(times),
        job.rendered(times).frame_count <= job.frame_count,
        times >= job.frame_count ==> job.rendered(times).frame_count == 0,
        times < job.frame_count ==> job.rendered(times).frame_count == job.frame_count - times,
        job.rendered(times + 1).frame_count <= job.rendered(times).frame_count,
    decreases times,
{
    if times > 0 {
        lemma_rendered_clamps(job, (times - 1) as nat);
    }
    reveal_with_fuel(JobView::rendered, 2);
}

/// The rounded-up quotient, from the quotient and the remainder.
proof fn lemma_task_count_split(frames: nat, task_frames: nat)
    requires
        task_frames >= 1,
    ensures
        task_count_for(frames, task_frames) == if frames % task_frames > 0 {
            frames / task_frames + 1
        } else {
            frames / task_frames
        },
{
    let d = task_frames as int;
    let q = (frames as int) / d;
    let r = (frames as int) % d;
    vstd::arithmetic::div_mod::lemma_fundamental_div_mod(frames as int, d);
    vstd::arithmetic::div_mod::lemma_mod_bound(frames as int, d);
    if r > 0 {
        assert(frames + d - 1 == d * (q + 1) + (r - 1)) by (nonlinear_arith)
            requires
                frames == d * q + r,
        ;
        vstd::arithmetic::div_mod::lemma_fundamental_div_mod_converse(
            frames + d - 1,
            d,
            q + 1,
            r - 1,
        );
    } else {
        assert(frames + d - 1 == d * q + (d - 1));
        vstd::arithmetic::div_mod::lemma_fundamental_div_mod_converse(frames + d - 1, d, q, d - 1);
    }
}

} // verus!
