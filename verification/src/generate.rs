//! Drawing the values of a job at random.

use crate::config::Config;
use vstd::prelude::*;

verus! {

/// `rand::rngs::ThreadRng`, the handle to the random number generator of
/// the current thread. Nothing of its state is visible here.
#[verifier::external_type_specification]
#[verifier::external_body]
pub struct ExThreadRng(rand::rngs::ThreadRng);

/// `rand::thread_rng` hands out the generator of the current thread, which
/// the operating system seeds at its first use; it fails only where the
/// system gives no seed. Nothing is claimed of what it returns.
pub assume_specification[ rand::thread_rng ]() -> (rng: rand::rngs::ThreadRng);

/// `rand::Rng::gen_range` on the range from `low` to `high`, both included.
/// It panics on a range without a value, which `requires` leaves out. Of the
/// number drawn only this is claimed: it lies in the range.
#[verifier::external_body]
fn gen_range_inclusive(rng: &mut rand::rngs::ThreadRng, low: u32, high: u32) -> (drawn: u32)
    requires
        low <= high,
    ensures
        low <= drawn <= high,
{
    rand::Rng::gen_range(rng, low..=high)
}

/// `frames` frames of `cycles` cycles each can be drawn from `config`.
pub open spec fn frames_allowed(config: &Config, frames: int, cycles: int) -> bool {
    &&& config.min_frames_per_job <= frames <= config.max_frames_per_job
    &&& config.min_render_cycles_per_frame <= cycles <= config.max_render_cycles_per_frame
}

/// `values` can be drawn from `config`: the frames of a job times the
/// cycles of a frame, then the frames of a task, then the cycles that
/// starting a task costs, each from its range.
pub open spec fn job_values_allowed(config: &Config, values: Seq<u32>) -> bool {
    &&& values.len() == 3
    &&& exists|frames: int, cycles: int|
        #[trigger] frames_allowed(config, frames, cycles) && values[0] == frames * cycles
    &&& config.min_frames_per_task <= values[1] <= config.max_frames_per_task
    &&& config.min_task_startup_cycles <= values[2] <= config.max_task_startup_cycles
}

/// Draws the values of one job: its frames, counted in cycles; the frames of
/// one of its tasks; and the cycles that starting a task costs.
pub fn generate_job_init_values(config: &Config) -> (values: Vec<u32>)
    requires
        config.drawable(),
    ensures
        job_values_allowed(config, values@),
{
    let mut rng = rand::thread_rng();
    let mut frames = gen_range_inclusive(
        &mut rng,
        config.min_frames_per_job,
        config.max_frames_per_job,
    );
    let cycles = gen_range_inclusive(
        &mut rng,
        config.min_render_cycles_per_frame,
        config.max_render_cycles_per_frame,
    );
    assert(frames * cycles <= u32::MAX) by (nonlinear_arith)
        requires
            frames <= config.max_frames_per_job,
            cycles <= config.max_render_cycles_per_frame,
            config.max_frames_per_job * config.max_render_cycles_per_frame <= u32::MAX,
    ;
    let ghost drawn_frames = frames;
    frames = frames * cycles;
    let task_frames = gen_range_inclusive(
        &mut rng,
        config.min_frames_per_task,
        config.max_frames_per_task,
    );
    let startup_cycles = gen_range_inclusive(
        &mut rng,
        config.min_task_startup_cycles,
        config.max_task_startup_cycles,
    );
    let values = vec![frames, task_frames, startup_cycles];
    assert(frames_allowed(config, drawn_frames as int, cycles as int));
    values
}

} // verus!
