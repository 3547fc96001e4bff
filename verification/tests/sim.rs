use farmsim::sim::sum_frames;
use farmsim::{generate_job_init_values, run_sim, Config, Farm, Job, SimResult};

fn usage_series(result: &SimResult) -> Vec<f32> {
    result
        .farm_usage
        .iter()
        .map(|&used| {
            if used == result.cpu_count {
                100f32
            } else {
                (used as f32 / result.cpu_count as f32) * 100f32
            }
        })
        .collect()
}

fn finished_series(result: &SimResult) -> Vec<f32> {
    result
        .finished_jobs
        .iter()
        .map(|&finished| (finished as f32 / result.job_count as f32) * 100f32)
        .collect()
}

#[test]
fn sim_01() {
    let mut config = Config::new();
    config.repetitions = 1;
    config.max_render_cycles = 100;
    config.farm_cpus = 1;
    config.initial_job_count = 1;
    config.min_frames_per_job = 1;
    config.max_frames_per_job = 1;
    config.min_frames_per_task = 1;
    config.max_frames_per_task = 1;
    config.min_render_cycles_per_frame = 1;
    config.max_render_cycles_per_frame = 1;
    config.min_task_startup_cycles = 0;
    config.max_task_startup_cycles = 0;

    let mut farm = Farm::new(config.farm_cpus).unwrap();
    for _ in 0..config.initial_job_count {
        let init_data = generate_job_init_values(&config);
        let job = Job::new(init_data[0], init_data[1], init_data[2]).unwrap();
        farm.submit(job);
    }
    let result = run_sim(farm, config.max_render_cycles);
    assert_eq!(result.total_frames, 1);
    assert_eq!(result.last_cycle, 1);
    assert_eq!(usage_series(&result), vec![100.0, 0.0]);
}

#[test]
fn sim_02() {
    let mut config = Config::new();
    config.repetitions = 1;
    config.max_render_cycles = 1000;
    config.farm_cpus = 2;
    config.initial_job_count = 2;
    config.min_frames_per_job = 10;
    config.max_frames_per_job = 10;
    config.min_frames_per_task = 5;
    config.max_frames_per_task = 5;
    config.min_render_cycles_per_frame = 1;
    config.max_render_cycles_per_frame = 1;
    config.min_task_startup_cycles = 2;
    config.max_task_startup_cycles = 2;

    let mut farm = Farm::new(config.farm_cpus).unwrap();
    for _ in 0..config.initial_job_count {
        let init_data = generate_job_init_values(&config);
        let job = Job::new(init_data[0], init_data[1], init_data[2]).unwrap();
        farm.submit(job);
    }
    let result = run_sim(farm, config.max_render_cycles);
    assert_eq!(result.total_frames, 28);
    assert_eq!(result.last_cycle, 14);
}

#[test]
fn run_records_every_cycle() {
    let mut farm = Farm::new(2).unwrap();
    farm.submit(Job::new(10, 5, 2).unwrap());
    farm.submit(Job::new(10, 5, 2).unwrap());
    let result = run_sim(farm, 1000);
    assert_eq!(result.cpu_count, 2);
    assert_eq!(result.job_count, 2);
    assert_eq!(result.total_frames, 28);
    assert_eq!(result.last_cycle, 14);
    // Fourteen cycles at work, and the one that found the farm empty.
    let mut usage = vec![2u32; 14];
    usage.push(0);
    assert_eq!(result.farm_usage, usage);
    let mut finished = vec![0usize; 6];
    finished.extend(vec![1usize; 7]);
    finished.extend(vec![2usize; 2]);
    assert_eq!(result.finished_jobs, finished);
    assert_eq!(result.unfinished_jobs, 0);
    assert_eq!(finished_series(&result)[5], 0.0);
    assert_eq!(finished_series(&result)[6], 50.0);
    assert_eq!(finished_series(&result)[14], 100.0);
    assert_eq!(usage_series(&result)[13], 100.0);
    assert_eq!(usage_series(&result)[14], 0.0);
}

#[test]
fn run_out_of_cycles_is_no_error() {
    let mut farm = Farm::new(1).unwrap();
    farm.submit(Job::new(10, 1, 0).unwrap());
    farm.submit(Job::new(10, 1, 0).unwrap());
    let result = run_sim(farm, 12);
    assert_eq!(result.last_cycle, 0);
    assert_eq!(result.farm_usage, vec![1; 12]);
    assert_eq!(result.finished_jobs, vec![0, 0, 0, 0, 0, 0, 0, 0, 0, 1, 1, 1]);
    assert_eq!(result.total_frames, 20);
    assert_eq!(result.job_count, 2);
    assert_eq!(result.unfinished_jobs, 1);
}

#[test]
fn run_that_empties_the_farm_in_its_last_cycle_notes_no_last_cycle() {
    let mut farm = Farm::new(1).unwrap();
    farm.submit(Job::new(3, 1, 0).unwrap());
    let result = run_sim(farm, 3);
    assert_eq!(result.last_cycle, 0);
    assert_eq!(result.farm_usage, vec![1, 1, 1]);
    assert_eq!(result.finished_jobs, vec![0, 0, 1]);
    assert_eq!(result.unfinished_jobs, 0);

    let mut farm = Farm::new(1).unwrap();
    farm.submit(Job::new(3, 1, 0).unwrap());
    let result = run_sim(farm, 4);
    assert_eq!(result.last_cycle, 3);
    assert_eq!(result.farm_usage, vec![1, 1, 1, 0]);
    assert_eq!(result.finished_jobs, vec![0, 0, 1, 1]);
}

#[test]
fn run_without_cycles_records_nothing() {
    let mut farm = Farm::new(3).unwrap();
    farm.submit(Job::new(3, 1, 0).unwrap());
    let result = run_sim(farm, 0);
    assert_eq!(result.last_cycle, 0);
    assert!(result.farm_usage.is_empty());
    assert!(result.finished_jobs.is_empty());
    assert_eq!(result.total_frames, 3);
    assert_eq!(result.cpu_count, 3);
    assert_eq!(result.job_count, 1);
    assert_eq!(result.unfinished_jobs, 1);
}

#[test]
fn run_of_an_empty_farm_stops_at_the_second_cycle() {
    let farm = Farm::new(3).unwrap();
    let result = run_sim(farm, 50);
    assert_eq!(result.last_cycle, 1);
    assert_eq!(result.farm_usage, vec![0, 0]);
    assert_eq!(result.finished_jobs, vec![0, 0]);
    assert_eq!(result.total_frames, 0);
    assert_eq!(result.job_count, 0);
}

#[test]
fn run_of_jobs_without_frames_stops_at_the_second_cycle() {
    let mut farm = Farm::new(3).unwrap();
    farm.submit(Job::new(0, 1, 4).unwrap());
    farm.submit(Job::new(0, 2, 0).unwrap());
    let result = run_sim(farm, 50);
    assert_eq!(result.last_cycle, 1);
    assert_eq!(result.farm_usage, vec![0, 0]);
    assert_eq!(result.finished_jobs, vec![2, 2]);
    assert_eq!(result.total_frames, 0);
}

#[test]
fn single_job_run_stops_after_its_rounded_up_cycles() {
    for frames in 1u32..20 {
        for task_frames in 1u32..6 {
            let job = Job::new(frames, task_frames, 2).unwrap();
            let work = job.frame_count;
            let tasks = job.task_count as u64;
            let mut farm = Farm::new(job.task_count).unwrap();
            farm.submit(job);
            let result = run_sim(farm, 10_000);
            let rounds = (work + tasks - 1) / tasks;
            assert_eq!(result.last_cycle as u64, rounds);
            assert_eq!(result.farm_usage.len() as u64, rounds + 1);
            assert_eq!(result.total_frames, work as u128);
            let claimed: u64 = result.farm_usage.iter().map(|&used| used as u64).sum();
            assert_eq!(claimed, work);
        }
    }
}

#[test]
fn usage_of_a_run_stays_within_bounds() {
    let mut farm = Farm::new(5).unwrap();
    for frames in 0..40 {
        farm.submit(Job::new(frames, 3, 1).unwrap());
    }
    let result = run_sim(farm, 100_000);
    assert!(result.last_cycle > 0);
    assert_eq!(result.farm_usage.len(), result.finished_jobs.len());
    assert_eq!(result.farm_usage.len(), result.last_cycle as usize + 1);
    for usage in usage_series(&result) {
        assert!((0.0..=100.0).contains(&usage));
    }
    for pair in result.finished_jobs.windows(2) {
        assert!(pair[0] <= pair[1]);
    }
    assert_eq!(*result.finished_jobs.last().unwrap(), result.job_count);
    assert_eq!(result.unfinished_jobs, 0);
    assert_eq!(*finished_series(&result).last().unwrap(), 100.0);
}

#[test]
fn sum_frames_adds_the_work_left() {
    assert_eq!(sum_frames(&vec![]), 0);
    let jobs = vec![
        Job::new(10, 5, 2).unwrap(),
        Job::new(1, 1, 0).unwrap(),
        Job::new(0, 1, 0).unwrap(),
    ];
    assert_eq!(sum_frames(&jobs), 15);
    let large = Job::new(u32::MAX, 1, u32::MAX).unwrap();
    assert_eq!(sum_frames(&vec![large, large, large]), 3 * large.frame_count as u128);
}

#[test]
fn job_without_tasks_is_never_served() {
    let mut farm = Farm::new(4).unwrap();
    farm.submit(Job { frame_count: 3, task_count: 0 });
    let result = run_sim(farm, 25);
    assert_eq!(result.last_cycle, 0);
    assert_eq!(result.farm_usage, vec![0; 25]);
    assert_eq!(result.finished_jobs, vec![0; 25]);
    assert_eq!(result.unfinished_jobs, 1);
}

#[test]
fn cpus_claimed_add_up_to_the_work_done() {
    let mut farm = Farm::new(3).unwrap();
    for frames in 1..12 {
        farm.submit(Job::new(frames, 2, 1).unwrap());
    }
    let work = sum_frames(farm.jobs());
    for cycles in 0..40u32 {
        let mut copy = Farm::new(3).unwrap();
        for job in farm.jobs() {
            copy.submit(*job);
        }
        let mut claimed: u128 = 0;
        for _ in 0..cycles {
            claimed += copy.render().used_cpus as u128;
        }
        assert_eq!(sum_frames(copy.jobs()) + claimed, work);
    }
}

#[test]
fn run_stops_between_its_bounds() {
    for cpus in 1u32..6 {
        for jobs in 0u32..7 {
            let mut farm = Farm::new(cpus).unwrap();
            for n in 0..jobs {
                farm.submit(Job::new(1 + (n * 7) % 11, 1 + n % 4, n % 3).unwrap());
            }
            let work = sum_frames(farm.jobs());
            let result = run_sim(farm, 10_000);
            let stop = result.last_cycle as u128;
            assert!(stop >= 1);
            assert!(stop <= work.max(1));
            assert!(stop * cpus as u128 >= work);
            assert_eq!(result.unfinished_jobs, 0);
        }
    }
}
