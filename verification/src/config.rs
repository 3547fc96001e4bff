//! The settings of a batch of runs.

use vstd::prelude::*;

verus! {

/// The settings of a batch of runs. Each pair of a `min_` and a `max_` field
/// is a range with both ends included.
#[derive(Clone, Copy, Debug, PartialEq, Eq)]
pub struct Config {
    /// Runs in the batch.
    pub repetitions: u32,
    /// Cycles that a run may take.
    pub max_render_cycles: u32,
    /// CPUs of the farm.
    pub farm_cpus: u32,
    /// Jobs that a farm starts with.
    pub initial_job_count: u32,
    /// Fewest frames of a job.
    pub min_frames_per_job: u32,
    /// Most frames of a job.
    pub max_frames_per_job: u32,
    /// Fewest cycles that a frame takes.
    pub min_render_cycles_per_frame: u32,
    /// Most cycles that a frame takes.
    pub max_render_cycles_per_frame: u32,
    /// Fewest frames of a task.
    pub min_frames_per_task: u32,
    /// Most frames of a task.
    pub max_frames_per_task: u32,
    /// Fewest cycles that starting a task costs.
    pub min_task_startup_cycles: u32,
    /// Most cycles that starting a task costs.
    pub max_task_startup_cycles: u32,
}

impl Config {
    /// The frames of a job have no valid range: it starts below one frame,
    /// or ends below its start.
    pub open spec fn bad_frame_range(&self) -> bool {
        self.min_frames_per_job < 1 || self.max_frames_per_job < self.min_frames_per_job
    }

    /// The frames of a task have no valid range: it starts below one frame,
    /// or ends below its start.
    pub open spec fn bad_task_range(&self) -> bool {
        self.min_frames_per_task < 1 || self.max_frames_per_task < self.min_frames_per_task
    }

    /// Job values can be drawn: each of the four ranges holds a value, a
    /// task has at least one frame, and the most frames of a job times the
    /// most cycles of a frame fit in 32 bits.
    pub open spec fn drawable(&self) -> bool {
        &&& self.min_frames_per_job <= self.max_frames_per_job
        &&& self.min_render_cycles_per_frame <= self.max_render_cycles_per_frame
        &&& 1 <= self.min_frames_per_task <= self.max_frames_per_task
        &&& self.min_task_startup_cycles <= self.max_task_startup_cycles
        &&& self.max_frames_per_job * self.max_render_cycles_per_frame <= u32::MAX
    }

    /// A batch can be run: job values can be drawn, and the farm has a CPU.
    pub open spec fn runnable(&self) -> bool {
        &&& self.drawable()
        &&& self.farm_cpus >= 1
    }

    /// The settings that are used where none are given.
    pub fn new() -> (config: Config)
        ensures
            config == (Config {
                repetitions: 100,
                max_render_cycles: 10000,
                farm_cpus: 250,
                initial_job_count: 100,
                min_frames_per_job: 1,
                max_frames_per_job: 1000,
                min_render_cycles_per_frame: 1,
                max_render_cycles_per_frame: 1,
                min_frames_per_task: 1,
                max_frames_per_task: 10,
                min_task_startup_cycles: 1,
                max_task_startup_cycles: 10,
            }),
            config.runnable(),
    {
        Config {
            repetitions: 100,
            max_render_cycles: 10000,
            farm_cpus: 250,
            initial_job_count: 100,
            min_frames_per_job: 1,
            max_frames_per_job: 1000,
            min_frames_per_task: 1,
            max_frames_per_task: 10,
            min_render_cycles_per_frame: 1,
            max_render_cycles_per_frame: 1,
            min_task_startup_cycles: 1,
            max_task_startup_cycles: 10,
        }
    }

    /// Whether job values can be drawn from these settings.
    pub fn is_drawable(&self) -> (ok: bool)
        ensures
            ok == self.drawable(),
    {
        self.min_frames_per_job <= self.max_frames_per_job
            && self.min_render_cycles_per_frame <= self.max_render_cycles_per_frame
            && 1 <= self.min_frames_per_task
            && self.min_frames_per_task <= self.max_frames_per_task
            && self.min_task_startup_cycles <= self.max_task_startup_cycles
            && self.max_frames_per_job.checked_mul(self.max_render_cycles_per_frame).is_some()
    }

    /// Whether a batch can be run with these settings.
    pub fn is_runnable(&self) -> (ok: bool)
        ensures
            ok == self.runnable(),
    {
        self.is_drawable() && self.farm_cpus >= 1
    }
}

/// What there is to say against the settings: the first range that makes no
/// sense, the frames of a job before the frames of a task.
pub open spec fn sanity_complaint(config: &Config) -> Option<Seq<char>> {
    if config.bad_frame_range() {
        Some("Bad frame range."@)
    } else if config.bad_task_range() {
        Some("Bad task range."@)
    } else {
        None
    }
}

/// Looks for a range that makes no sense, the frames of a job first, and
/// names the first one found.
pub fn sanity_check_config(config: &Config) -> (complaint: Option<&'static str>)
    ensures
        match complaint {
            Some(text) => sanity_complaint(config) == Some(text@),
            None => sanity_complaint(config) is None,
        },
{
    if config.min_frames_per_job < 1 || config.max_frames_per_job < config.min_frames_per_job {
        return Some("Bad frame range.");
    }
    if config.min_frames_per_task < 1 || config.max_frames_per_task < config.min_frames_per_task {
        return Some("Bad task range.");
    }
    None
}

} // verus!
