use dock::{ContainerManager, UpdateFailure, UpdateStage, UpdateStep};

#[test]
fn update_runs_status_log_pull_build() {
    match ContainerManager::update(UpdateStage::Begin, false) {
        UpdateStep::Run { program, args, next } => {
            assert_eq!(program, "git");
            assert_eq!(args, vec!["status"]);
            assert_eq!(next, UpdateStage::CheckedRepo);
        }
        _ => panic!("expected a command"),
    }
    match ContainerManager::update(UpdateStage::CheckedRepo, true) {
        UpdateStep::Run { args, next, .. } => {
            assert_eq!(args, vec!["log", "-1", "--oneline"]);
            assert_eq!(next, UpdateStage::ReadCurrent);
        }
        _ => panic!("expected a command"),
    }
    match ContainerManager::update(UpdateStage::Pulled, true) {
        UpdateStep::Run { program, args, .. } => {
            assert_eq!(program, "bash");
            assert_eq!(args, vec!["build.sh"]);
        }
        _ => panic!("expected a command"),
    }
    assert!(matches!(ContainerManager::update(UpdateStage::Built, true), UpdateStep::Finished));
}

#[test]
fn update_failures() {
    assert!(matches!(
        ContainerManager::update(UpdateStage::CheckedRepo, false),
        UpdateStep::Failed(UpdateFailure::NotRepository)
    ));
    assert!(matches!(
        ContainerManager::update(UpdateStage::Pulled, false),
        UpdateStep::Failed(UpdateFailure::PullFailed)
    ));
    assert!(matches!(
        ContainerManager::update(UpdateStage::Built, false),
        UpdateStep::Failed(UpdateFailure::BuildFailed)
    ));
}
