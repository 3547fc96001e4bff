//! A batch of runs, each on a farm of its own with jobs drawn at random.

use crate::config::Config;
use crate::farm::{Farm, FarmView};
use crate::generate::{generate_job_init_values, job_values_allowed};
use crate::job::{Job, JobView};
use crate::sim::{run_sim, simulated, SimResult, SimResultView};
use vstd::prelude::*;

verus! {

/// `job` can be made from values drawn from `config`.
pub open spec fn generated_job(config: &Config, job: JobView) -> bool {
    exists|values: Seq<u32>|
        {
            &&& #[trigger] job_values_allowed(config, values)
            &&& job == JobView::created(values[0] as nat, values[1] as nat, values[2] as nat)
        }
}

/// `farm` is one that a run of the batch can start with: it has the CPUs
/// and the number of jobs that `config` asks for, and each job can be made
/// from values drawn from `config`.
pub open spec fn generated_farm(config: &Config, farm: FarmView) -> bool {
    &&& farm.cpu_count == config.farm_cpus
    &&& farm.jobs.len() == config.initial_job_count
    &&& forall|i: int| 0 <= i < farm.jobs.len() ==> generated_job(config, #[trigger] farm.jobs[i])
}

/// `result` is the record of a run of the batch: of some farm that such a
/// run can start with, over the cycles that `config` allows.
pub open spec fn batch_outcome(config: &Config, result: SimResultView) -> bool {
    exists|farm: FarmView|
        {
            &&& #[trigger] generated_farm(config, farm)
            &&& result == simulated(farm, config.max_render_cycles as nat)
        }
}

/// Makes the farm of one run: the CPUs that `config` asks for, and as many
/// jobs as it asks for, each made from values drawn at random.
pub fn generate_farm(config: &Config) -> (farm: Farm)
    requires
        config.runnable(),
    ensures
        farm.wf(),
        generated_farm(config, farm@),
{
    let mut farm = Farm::new(config.farm_cpus).unwrap();
    let mut made: u32 = 0;
    while made < config.initial_job_count
        invariant
            made <= config.initial_job_count,
            config.runnable(),
            farm.wf(),
            farm@.cpu_count == config.farm_cpus,
            farm@.jobs.len() == made,
            forall|i: int|
                0 <= i < farm@.jobs.len() ==> generated_job(config, #[trigger] farm@.jobs[i]),
        decreases config.initial_job_count - made,
    {
        let init_data = generate_job_init_values(config);
        let job = Job::new(init_data[0], init_data[1], init_data[2]).unwrap();
        assert(generated_job(config, job@)) by {
            assert(job_values_allowed(config, init_data@));
        }
        farm.submit(job);
        made += 1;
    }
    farm
}

/// Runs the batch: as many runs as `config` asks for, each on a farm of its
/// own with jobs of its own, and each for at most the cycles that `config`
/// allows. The records come in the order of the runs.
pub fn run_batch(config: &Config) -> (results: Vec<SimResult>)
    requires
        config.runnable(),
    ensures
        results.len() == config.repetitions,
        forall|i: int| 0 <= i < results.len() ==> batch_outcome(config, #[trigger] results[i]@),
{
    let mut results: Vec<SimResult> = Vec::new();
    let mut run: u32 = 0;
    while run < config.repetitions
        invariant
            run <= config.repetitions,
            config.runnable(),
            results.len() == run,
            forall|i: int| 0 <= i < results.len() ==> batch_outcome(config, #[trigger] results[i]@),
        decreases config.repetitions - run,
    {
        let farm = generate_farm(config);
        let ghost start = farm@;
        let result = run_sim(farm, config.max_render_cycles);
        assert(batch_outcome(config, result@)) by {
            assert(generated_farm(config, start));
        }
        results.push(result);
        run += 1;
    }
    results
}

} // verus!
