//! A render farm in discrete cycles.
//!
//! A farm has a fixed number of CPUs and a queue of jobs. A job is a number
//! of units of work, split into tasks. In every cycle the farm hands its
//! CPUs to the tasks of its jobs, first submitted first served, and a job
//! loses one unit of work for each CPU that it gets; a job without work
//! leaves the farm. A run cycles a farm until it is empty, or until the
//! cycles that it may take are used up, and records how many CPUs each cycle
//! claimed and how many jobs were finished after it.
//!
//! The contracts are stated over [`JobView`], [`FarmView`] and
//! [`SimResultView`]: what [`Farm::render`] does to a farm is
//! [`FarmView::rendered`], and what [`run_sim`] records is
//! [`sim::simulated`].
//!
//! The library holds no floating point: a usage is a number of CPUs out of
//! the CPUs of the farm, a progress is a number of jobs out of the jobs that
//! the run began with.

pub mod batch;
pub mod config;
pub mod drain;
pub mod error;
pub mod farm;
pub mod generate;
pub mod job;
pub mod plot_path;
pub mod sim;

pub use batch::{generate_farm, run_batch};
pub use config::{sanity_check_config, Config};
pub use error::SimError;
pub use farm::{Farm, FarmCycleResult, FarmView};
pub use generate::generate_job_init_values;
pub use job::{Job, JobView};
pub use plot_path::{next_plot_path_step, plot_file_name, PlotPathStep};
pub use sim::{run_sim, SimResult, SimResultView};
