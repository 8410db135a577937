//! The lifecycle of a compiled module, and the decisions that drive one
//! through it.

use vstd::prelude::*;

verus! {

/// Where a compiled module stands in its lifecycle.
#[derive(Clone, Copy, Debug, PartialEq, Eq, Structural)]
pub enum ModuleStatus {
    Uninstantiated,
    Instantiating,
    Instantiated,
    Evaluating,
    Evaluated,
    Errored,
}

/// What the script runtime is asked to do with a module next.
#[derive(Clone, Copy, Debug, PartialEq, Eq, Structural)]
pub enum LifecycleStep {
    /// Instantiate the module, resolving its static imports.
    Instantiate,
    /// Run the module's top-level code.
    Evaluate,
    /// Hand out the value that the evaluation just gave.
    UseValue,
    /// Hand out the namespace of the module, which was evaluated before.
    UseNamespace,
    /// Give up: the module cannot be brought to a value.
    Fail,
}

/// What the driver has seen of the runtime so far.
#[derive(Clone, Copy, Debug, PartialEq, Eq, Structural)]
pub enum LifecycleEvent {
    /// Nothing yet: the drive starts.
    Begin,
    /// The instantiation that was asked for has ended, well or not.
    Instantiated(bool),
    /// The evaluation that was asked for has ended, well or not.
    Evaluated(bool),
}

/// The step that follows an event, given the status that the runtime
/// reports for the module.
pub open spec fn step_after(event: LifecycleEvent, status: ModuleStatus) -> LifecycleStep {
    match event {
        LifecycleEvent::Begin => match status {
            ModuleStatus::Uninstantiated => LifecycleStep::Instantiate,
            ModuleStatus::Instantiated => LifecycleStep::Evaluate,
            ModuleStatus::Evaluated => LifecycleStep::UseNamespace,
            _ => LifecycleStep::Fail,
        },
        LifecycleEvent::Instantiated(done) => if !done {
            LifecycleStep::Fail
        } else {
            match status {
                ModuleStatus::Instantiated => LifecycleStep::Evaluate,
                ModuleStatus::Evaluated => LifecycleStep::UseNamespace,
                _ => LifecycleStep::Fail,
            }
        },
        LifecycleEvent::Evaluated(done) => if done {
            LifecycleStep::UseValue
        } else {
            LifecycleStep::Fail
        },
    }
}

/// The status of a module once the runtime has begun a step.
pub open spec fn status_during(status: ModuleStatus, step: LifecycleStep) -> ModuleStatus {
    match (status, step) {
        (ModuleStatus::Uninstantiated, LifecycleStep::Instantiate) => ModuleStatus::Instantiating,
        (ModuleStatus::Instantiated, LifecycleStep::Evaluate) => ModuleStatus::Evaluating,
        _ => status,
    }
}

/// The status of a module once the step that the runtime had begun has
/// ended.
pub open spec fn status_after(status: ModuleStatus, done: bool) -> ModuleStatus {
    match status {
        ModuleStatus::Instantiating => if done {
            ModuleStatus::Instantiated
        } else {
            ModuleStatus::Errored
        },
        ModuleStatus::Evaluating => if done {
            ModuleStatus::Evaluated
        } else {
            ModuleStatus::Errored
        },
        _ => status,
    }
}

/// A status that no step changes any more.
pub open spec fn is_terminal(status: ModuleStatus) -> bool {
    status == ModuleStatus::Evaluated || status == ModuleStatus::Errored
}

impl ModuleStatus {
    /// The status once the runtime has begun the step.
    pub fn during(self, step: LifecycleStep) -> (r: ModuleStatus)
        ensures
            r == status_during(self, step),
    {
        match (self, step) {
            (ModuleStatus::Uninstantiated, LifecycleStep::Instantiate) => {
                ModuleStatus::Instantiating
            },
            (ModuleStatus::Instantiated, LifecycleStep::Evaluate) => ModuleStatus::Evaluating,
            _ => self,
        }
    }

    /// The status once the step that had begun has ended.
    pub fn after(self, done: bool) -> (r: ModuleStatus)
        ensures
            r == status_after(self, done),
    {
        match self {
            ModuleStatus::Instantiating => if done {
                ModuleStatus::Instantiated
            } else {
                ModuleStatus::Errored
            },
            ModuleStatus::Evaluating => if done {
                ModuleStatus::Evaluated
            } else {
                ModuleStatus::Errored
            },
            _ => self,
        }
    }
}

/// The step that follows an event, given the status that the runtime
/// reports for the module.
pub fn next_step(event: LifecycleEvent, status: ModuleStatus) -> (r: LifecycleStep)
    ensures
        r == step_after(event, status),
{
    match event {
        LifecycleEvent::Begin => match status {
            ModuleStatus::Uninstantiated => LifecycleStep::Instantiate,
            ModuleStatus::Instantiated => LifecycleStep::Evaluate,
            ModuleStatus::Evaluated => LifecycleStep::UseNamespace,
            _ => LifecycleStep::Fail,
        },
        LifecycleEvent::Instantiated(done) => if !done {
            LifecycleStep::Fail
        } else {
            match status {
                ModuleStatus::Instantiated => LifecycleStep::Evaluate,
                ModuleStatus::Evaluated => LifecycleStep::UseNamespace,
                _ => LifecycleStep::Fail,
            }
        },
        LifecycleEvent::Evaluated(done) => if done {
            LifecycleStep::UseValue
        } else {
            LifecycleStep::Fail
        },
    }
}

/// A module that was evaluated gives its namespace with no further work;
/// one that has failed fails again, with no further work either.
pub proof fn terminal_statuses_ask_no_work(status: ModuleStatus)
    requires
        is_terminal(status),
    ensures
        step_after(LifecycleEvent::Begin, ModuleStatus::Evaluated) == LifecycleStep::UseNamespace,
        step_after(LifecycleEvent::Begin, ModuleStatus::Errored) == LifecycleStep::Fail,
        forall|step: LifecycleStep| status_during(status, step) == status,
        forall|done: bool| status_after(status, done) == status,
{
}

/// A fresh module whose instantiation and evaluation both end well is
/// brought to a value in two steps and is then evaluated; a step that
/// ends badly leaves it failed, and the drive stops.
pub proof fn drive_of_fresh_module(linked: bool, ran: bool)
    ensures
        step_after(LifecycleEvent::Begin, ModuleStatus::Uninstantiated)
            == LifecycleStep::Instantiate,
        ({
            let linking = status_during(ModuleStatus::Uninstantiated, LifecycleStep::Instantiate);
            let after_link = status_after(linking, linked);
            let second = step_after(LifecycleEvent::Instantiated(linked), after_link);
            let running = status_during(after_link, second);
            let after_run = status_after(running, ran);
            let third = step_after(LifecycleEvent::Evaluated(ran), after_run);
            &&& linking == ModuleStatus::Instantiating
            &&& !linked ==> after_link == ModuleStatus::Errored && second == LifecycleStep::Fail
            &&& linked ==> after_link == ModuleStatus::Instantiated && second
                == LifecycleStep::Evaluate && running == ModuleStatus::Evaluating
            &&& linked && ran ==> after_run == ModuleStatus::Evaluated && third
                == LifecycleStep::UseValue
            &&& linked && !ran ==> after_run == ModuleStatus::Errored && third
                == LifecycleStep::Fail
        }),
{
}

} // verus!
