//! The decisions of the self-update workflow: which command runs next, given
//! how the previous one went. Running the commands is the caller's work.
use vstd::prelude::*;
use crate::codec::views;
use crate::container::{text, ContainerManager};

verus! {

/// Where the update workflow stands: the command of that stage has just run.
#[derive(Clone, Copy, Debug, PartialEq, Eq, Structural)]
pub enum UpdateStage {
    Begin,
    CheckedRepo,
    ReadCurrent,
    Pulled,
    Built,
}

/// Why the update stopped.
#[derive(Clone, Copy, Debug, PartialEq, Eq, Structural)]
pub enum UpdateFailure {
    NotRepository,
    PullFailed,
    BuildFailed,
}

/// What to do next.
pub enum UpdateStep {
    Run { program: String, args: Vec<String>, next: UpdateStage },
    Finished,
    Failed(UpdateFailure),
}

/// What to do next, as mathematical values.
pub enum UpdateModel {
    Run(Seq<char>, Seq<Seq<char>>, UpdateStage),
    Finished,
    Failed(UpdateFailure),
}

impl View for UpdateStep {
    type V = UpdateModel;

    open spec fn view(&self) -> UpdateModel {
        match self {
            UpdateStep::Run { program, args, next } => UpdateModel::Run(program@, views(args@), *next),
            UpdateStep::Finished => UpdateModel::Finished,
            UpdateStep::Failed(f) => UpdateModel::Failed(*f),
        }
    }
}

/// The step after `stage`, where `succeeded` tells whether that stage's
/// command exited successfully: check the repository, show the current
/// revision, pull, rebuild.
pub open spec fn update_next(stage: UpdateStage, succeeded: bool) -> UpdateModel {
    match stage {
        UpdateStage::Begin => UpdateModel::Run("git"@, seq!["status"@], UpdateStage::CheckedRepo),
        UpdateStage::CheckedRepo => if succeeded {
            UpdateModel::Run("git"@, seq!["log"@, "-1"@, "--oneline"@], UpdateStage::ReadCurrent)
        } else {
            UpdateModel::Failed(UpdateFailure::NotRepository)
        },
        UpdateStage::ReadCurrent => UpdateModel::Run("git"@, seq!["pull"@], UpdateStage::Pulled),
        UpdateStage::Pulled => if succeeded {
            UpdateModel::Run("bash"@, seq!["build.sh"@], UpdateStage::Built)
        } else {
            UpdateModel::Failed(UpdateFailure::PullFailed)
        },
        UpdateStage::Built => if succeeded {
            UpdateModel::Finished
        } else {
            UpdateModel::Failed(UpdateFailure::BuildFailed)
        },
    }
}

fn run(program: &str, args: Vec<String>, next: UpdateStage) -> (r: UpdateStep)
    ensures
        r@ == UpdateModel::Run(program@, views(args@), next),
{
    UpdateStep::Run { program: text(program), args, next }
}

impl ContainerManager {
    /// The next step of the self-update workflow.
    pub fn update(stage: UpdateStage, succeeded: bool) -> (r: UpdateStep)
        ensures
            r@ == update_next(stage, succeeded),
    {
        let mut args: Vec<String> = Vec::new();
        match stage {
            UpdateStage::Begin => {
                args.push(text("status"));
                assert(views(args@) =~= seq!["status"@]);
                run("git", args, UpdateStage::CheckedRepo)
            },
            UpdateStage::CheckedRepo => {
                if !succeeded {
                    return UpdateStep::Failed(UpdateFailure::NotRepository);
                }
                args.push(text("log"));
                args.push(text("-1"));
                args.push(text("--oneline"));
                assert(views(args@) =~= seq!["log"@, "-1"@, "--oneline"@]);
                run("git", args, UpdateStage::ReadCurrent)
            },
            UpdateStage::ReadCurrent => {
                args.push(text("pull"));
                assert(views(args@) =~= seq!["pull"@]);
                run("git", args, UpdateStage::Pulled)
            },
            UpdateStage::Pulled => {
                if !succeeded {
                    return UpdateStep::Failed(UpdateFailure::PullFailed);
                }
                args.push(text("build.sh"));
                assert(views(args@) =~= seq!["build.sh"@]);
                run("bash", args, UpdateStage::Built)
            },
            UpdateStage::Built => {
                if succeeded {
                    UpdateStep::Finished
                } else {
                    UpdateStep::Failed(UpdateFailure::BuildFailed)
                }
            },
        }
    }
}

} // verus!
