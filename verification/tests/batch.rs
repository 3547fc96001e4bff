use farmsim::{generate_farm, run_batch, Config};

fn small_config() -> Config {
    let mut config = Config::new();
    config.repetitions = 7;
    config.max_render_cycles = 5000;
    config.farm_cpus = 6;
    config.initial_job_count = 12;
    config.min_frames_per_job = 1;
    config.max_frames_per_job = 40;
    config.min_render_cycles_per_frame = 1;
    config.max_render_cycles_per_frame = 2;
    config.min_frames_per_task = 1;
    config.max_frames_per_task = 5;
    config.min_task_startup_cycles = 0;
    config.max_task_startup_cycles = 3;
    config
}

#[test]
fn generated_farm_has_what_the_settings_ask_for() {
    let config = small_config();
    let farm = generate_farm(&config);
    assert_eq!(farm.cpu_count(), 6);
    assert_eq!(farm.job_count(), 12);
    for job in farm.jobs() {
        assert!(job.task_count >= 1 && job.task_count <= 80);
        assert!(job.frame_count >= 1);
        assert!(job.frame_count <= 80 + 80 * 3);
        assert!(job.frame_count >= job.task_count as u64);
    }
}

#[test]
fn batch_has_one_record_for_each_run() {
    let config = small_config();
    let results = run_batch(&config);
    assert_eq!(results.len(), 7);
    for result in &results {
        assert_eq!(result.cpu_count, 6);
        assert_eq!(result.job_count, 12);
        assert!(result.total_frames >= 12);
        assert!(result.total_frames <= 12 * (80 + 80 * 3));
        // Every job has a task, so every cycle but the last two claims a
        // CPU, and the work is done well before the cycles run out.
        assert!(result.last_cycle >= 2);
        assert_eq!(result.farm_usage.len(), result.last_cycle as usize + 1);
        assert_eq!(result.finished_jobs.len(), result.farm_usage.len());
        let claimed: u128 = result.farm_usage.iter().map(|&used| used as u128).sum();
        assert_eq!(claimed, result.total_frames);
        assert!(result.farm_usage.iter().all(|&used| used <= 6));
        assert_eq!(*result.farm_usage.last().unwrap(), 0);
        assert_eq!(*result.finished_jobs.last().unwrap(), 12);
    }
}

#[test]
fn batch_without_runs_is_empty() {
    let mut config = small_config();
    config.repetitions = 0;
    assert!(run_batch(&config).is_empty());
}

#[test]
fn batch_without_jobs_runs_two_idle_cycles() {
    let mut config = small_config();
    config.initial_job_count = 0;
    let results = run_batch(&config);
    assert_eq!(results.len(), 7);
    for result in &results {
        assert_eq!(result.last_cycle, 1);
        assert_eq!(result.farm_usage, vec![0, 0]);
        assert_eq!(result.total_frames, 0);
    }
}

#[test]
fn runs_of_a_batch_differ() {
    let mut config = small_config();
    config.repetitions = 20;
    config.max_frames_per_job = 1000;
    let results = run_batch(&config);
    assert!(results.iter().any(|result| result.total_frames != results[0].total_frames));
}
