use prune::cli::{docker_preview, docker_step, log_exit, log_notice, log_step, DockerStep, LogStep, EXIT_NOTHING, EXIT_OK};
use prune::docker::DockerAction;
use prune::scan::next_provider;

#[test]
fn docker_runs_nothing_without_yes() {
    assert_eq!(docker_step(false, false, true), DockerStep::Status);
    assert_eq!(docker_step(true, false, false), DockerStep::Preview(DockerAction::BuilderPrune));
    assert_eq!(docker_step(true, true, false), DockerStep::Preview(DockerAction::SystemPrune));
    assert_eq!(docker_step(true, false, true), DockerStep::Prune(DockerAction::BuilderPrune));
    assert_eq!(docker_step(false, true, true), DockerStep::Prune(DockerAction::SystemPrune));
}

#[test]
fn the_docker_preview_says_what_would_run() {
    assert_eq!(
        docker_preview(DockerAction::BuilderPrune),
        "Layers cached from past builds. Images and containers are untouched.\n\nWould run: docker builder prune --force\nNothing was removed. Add --yes to run it."
    );
}

#[test]
fn a_machine_without_a_log_says_so() {
    let step = log_step(false, 0, true);
    assert_eq!(step, LogStep::NoLog);
    assert_eq!(log_notice(step), Some("No operation log on this machine yet."));
    assert_eq!(log_exit(step), EXIT_NOTHING);
}

#[test]
fn an_empty_log_is_nothing_to_show() {
    let step = log_step(true, 0, false);
    assert_eq!(step, LogStep::Empty);
    assert_eq!(log_notice(step), Some("No cleanups recorded yet."));
    assert_eq!(log_exit(step), EXIT_NOTHING);
    let json = log_step(true, 0, true);
    assert_eq!(json, LogStep::Json);
    assert_eq!(log_notice(json), None);
    assert_eq!(log_exit(json), EXIT_OK);
    let lines = log_step(true, 3, false);
    assert_eq!(lines, LogStep::Lines);
    assert_eq!(log_exit(lines), EXIT_OK);
}

#[test]
fn a_cancelled_scan_runs_no_further_provider() {
    let selected = vec![2, 5, 7];
    assert_eq!(next_provider(&selected, 0, false), Some(2));
    assert_eq!(next_provider(&selected, 2, false), Some(7));
    assert_eq!(next_provider(&selected, 3, false), None);
    assert_eq!(next_provider(&selected, 1, true), None);
    assert_eq!(next_provider(&selected, 0, true), None);
}
