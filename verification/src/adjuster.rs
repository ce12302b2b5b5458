//! Bringing one process to the nice value its rule asks for.
//!
//! Reading and changing a priority is the work of the operating system. The
//! adjuster does neither. It is told what reading the priority gave and says
//! whether a change is due; it is told how the change went and says what to
//! report. Nothing is tried twice.

use crate::config::{Config, ProcessConfig, ProcessConfigView};
use crate::notice::{notices_of, Notice, NoticeView};
use crate::text::{append_decimal, decimal_of};
use vstd::prelude::*;
use vstd::string::StringExecFns;

verus! {

/// What reading the current priority of a process gave.
#[derive(Clone, Copy, Debug, PartialEq, Eq, Structural)]
pub enum PriorityReading {
    /// The nice value the process has.
    Nice(i32),
    /// The process could not be found or opened.
    ProcessUnavailable,
    /// The process was found, its scheduling record could not be read.
    StatUnavailable,
}

/// A change of priority that the system is asked for.
#[derive(Clone, Copy, Debug, PartialEq, Eq, Structural)]
pub struct PriorityChange {
    pub pid: i32,
    /// The nice value the process has.
    pub from: i32,
    /// The nice value it is to get.
    pub to: i32,
}

/// What is due after the current priority was read.
#[derive(Clone, Copy, Debug, PartialEq, Eq, Structural)]
pub enum Decision {
    /// The process has the nice value of its rule already.
    Keep,
    /// The process is to get another nice value.
    Change(PriorityChange),
}

/// Why a process was not adjusted.
#[derive(Debug, PartialEq, Eq)]
pub enum AdjustError {
    /// The process could not be found or opened.
    ProcessUnavailable { pid: i32 },
    /// The scheduling record of the process could not be read.
    StatUnavailable { pid: i32 },
    /// The system refused the change, for the reason it gave.
    SetFailed { pid: i32, reason: String },
}

/// The value of an [`AdjustError`].
pub enum AdjustErrorView {
    ProcessUnavailable { pid: i32 },
    StatUnavailable { pid: i32 },
    SetFailed { pid: i32, reason: Seq<char> },
}

impl View for AdjustError {
    type V = AdjustErrorView;

    open spec fn view(&self) -> AdjustErrorView {
        match *self {
            AdjustError::ProcessUnavailable { pid } => AdjustErrorView::ProcessUnavailable { pid },
            AdjustError::StatUnavailable { pid } => AdjustErrorView::StatUnavailable { pid },
            AdjustError::SetFailed { pid, reason } => AdjustErrorView::SetFailed {
                pid,
                reason: reason@,
            },
        }
    }
}

impl AdjustErrorView {
    /// The error in words.
    pub open spec fn message(self) -> Seq<char> {
        match self {
            AdjustErrorView::ProcessUnavailable { pid } => "Could not access process for PID "@
                + decimal_of(pid as int),
            AdjustErrorView::StatUnavailable { pid } =>
                "Could not access stat information for PID "@ + decimal_of(pid as int),
            AdjustErrorView::SetFailed { pid, reason } => "Failed to adjust nice value for PID "@
                + decimal_of(pid as int) + ": "@ + reason,
        }
    }
}

impl AdjustError {
    /// The error in words.
    pub fn message(&self) -> (text: String)
        ensures
            text@ == self@.message(),
    {
        match self {
            AdjustError::ProcessUnavailable { pid } => {
                let mut text = "Could not access process for PID ".to_owned();
                append_decimal(&mut text, *pid as i64);
                text
            },
            AdjustError::StatUnavailable { pid } => {
                let mut text = "Could not access stat information for PID ".to_owned();
                append_decimal(&mut text, *pid as i64);
                text
            },
            AdjustError::SetFailed { pid, reason } => {
                let mut text = "Failed to adjust nice value for PID ".to_owned();
                append_decimal(&mut text, *pid as i64);
                text.append(": ");
                text.append(reason.as_str());
                text
            },
        }
    }
}

/// What is due for process `pid`, whose rule asks for the nice value `target`,
/// after `reading`: nothing where it has that value, a change to `target` where
/// it has another, and an error where its priority could not be read.
pub open spec fn decide(pid: i32, target: i32, reading: PriorityReading) -> Result<
    Decision,
    AdjustErrorView,
> {
    match reading {
        PriorityReading::Nice(current) => if current == target {
            Ok(Decision::Keep)
        } else {
            Ok(Decision::Change(PriorityChange { pid, from: current, to: target }))
        },
        PriorityReading::ProcessUnavailable => Err(AdjustErrorView::ProcessUnavailable { pid }),
        PriorityReading::StatUnavailable => Err(AdjustErrorView::StatUnavailable { pid }),
    }
}

/// The change that `reading` makes due, if any.
pub open spec fn change_due(pid: i32, target: i32, reading: PriorityReading) -> Option<
    PriorityChange,
> {
    match decide(pid, target, reading) {
        Ok(Decision::Change(change)) => Some(change),
        _ => None,
    }
}

/// What is reported after the current priority was read.
pub open spec fn check_notices(pid: i32, rule: ProcessConfigView, reading: PriorityReading) -> Seq<
    NoticeView,
> {
    match decide(pid, rule.nice, reading) {
        Ok(Decision::Keep) => seq![
            NoticeView::NiceMatch { name: rule.name, pid, nice: rule.nice },
        ],
        Ok(Decision::Change(change)) => seq![
            NoticeView::NiceMismatch {
                name: rule.name,
                pid,
                current: change.from,
                expected: change.to,
            },
        ],
        Err(error) => seq![NoticeView::CheckFailed { pid, reason: error.message() }],
    }
}

/// What the system said of a change, with its reason as a value.
pub open spec fn reason_of(outcome: Result<(), String>) -> Result<(), Seq<char>> {
    match outcome {
        Ok(()) => Ok(()),
        Err(reason) => Err(reason@),
    }
}

/// What the outcome of a change amounts to: success, or the error that holds
/// the system's reason.
pub open spec fn outcome_of(change: PriorityChange, outcome: Result<(), Seq<char>>) -> Result<
    (),
    AdjustErrorView,
> {
    match outcome {
        Ok(()) => Ok(()),
        Err(reason) => Err(AdjustErrorView::SetFailed { pid: change.pid, reason }),
    }
}

/// What is reported after a change was tried.
pub open spec fn change_notices(change: PriorityChange, outcome: Result<(), Seq<char>>) -> Seq<
    NoticeView,
> {
    match outcome_of(change, outcome) {
        Ok(()) => seq![NoticeView::Adjusted { pid: change.pid, from: change.from, to: change.to }],
        Err(error) => seq![
            NoticeView::AdjustFailed { pid: change.pid, reason: outcome->Err_0 },
            NoticeView::CheckFailed { pid: change.pid, reason: error.message() },
        ],
    }
}

/// How many changes of priority a decision asks the system for.
pub open spec fn changes_asked(decision: Decision) -> nat {
    match decision {
        Decision::Keep => 0,
        Decision::Change(_) => 1,
    }
}

/// The nice value that a process with the value `current` has once what
/// `decision` asks for was done.
pub open spec fn nice_after(current: i32, decision: Decision) -> i32 {
    match decision {
        Decision::Keep => current,
        Decision::Change(change) => change.to,
    }
}

/// Adjusting is idempotent. A process whose priority can be read is asked to
/// change at most once: where it has another nice value than its rule asks
/// for, one change is due, and it is to that value; once the change is made, a
/// second adjustment with the same target finds nothing to do.
pub proof fn lemma_adjusting_twice_changes_once(pid: i32, target: i32, current: i32)
    ensures
        decide(pid, target, PriorityReading::Nice(current)) is Ok,
        ({
            let first = decide(pid, target, PriorityReading::Nice(current))->Ok_0;
            let second = decide(pid, target, PriorityReading::Nice(nice_after(current, first)));
            &&& nice_after(current, first) == target
            &&& second == Ok::<Decision, AdjustErrorView>(Decision::Keep)
            &&& changes_asked(first) == (if current == target {
                0nat
            } else {
                1nat
            })
            &&& changes_asked(first) + changes_asked(second->Ok_0) <= 1
        }),
{
}

/// A process that has the nice value of its rule is left alone: no change is
/// asked for, and the one thing reported is that the value is right.
pub proof fn lemma_right_value_is_kept(pid: i32, rule: ProcessConfigView)
    ensures
        change_due(pid, rule.nice, PriorityReading::Nice(rule.nice)) is None,
        check_notices(pid, rule, PriorityReading::Nice(rule.nice)) == seq![
            NoticeView::NiceMatch { name: rule.name, pid, nice: rule.nice },
        ],
{
}

/// What the adjuster asks for and reports after the priority was read.
#[derive(Debug, PartialEq, Eq)]
pub struct Adjustment {
    /// What to report, in order.
    pub notices: Vec<Notice>,
    /// The change to ask the system for, if one is due.
    pub change: Option<PriorityChange>,
}

/// Decides how the priority of a process is brought to what its rule asks.
pub struct Adjuster<'a> {
    config: &'a Config,
}

impl<'a> View for Adjuster<'a> {
    type V = Seq<ProcessConfigView>;

    /// The rules of the configuration the adjuster was made for.
    closed spec fn view(&self) -> Seq<ProcessConfigView> {
        self.config@
    }
}

impl<'a> Adjuster<'a> {
    /// An adjuster for the rules of `config`.
    pub fn new(config: &'a Config) -> (adjuster: Self)
        ensures
            adjuster@ == config@,
    {
        Adjuster { config }
    }

    /// Decides what is due for process `pid` under `process_config`, given what
    /// reading its priority gave, and says what to report.
    ///
    /// Where the reading failed the process is given up, with a warning. Where
    /// the process has the nice value of the rule nothing is asked of the
    /// system. Otherwise one change to the rule's value is asked for.
    pub fn check_and_adjust_nice_value(
        &self,
        pid: i32,
        process_config: &ProcessConfig,
        reading: PriorityReading,
    ) -> (adjustment: Adjustment)
        ensures
            adjustment.change == change_due(pid, process_config.nice, reading),
            notices_of(adjustment.notices@) == check_notices(
                pid,
                process_config@,
                reading,
            ),
    {
        let mut notices: Vec<Notice> = Vec::new();
        let change = match self.try_check_and_adjust_nice_value(pid, process_config, reading) {
            Ok(Decision::Keep) => {
                notices.push(self.log_nice_match(process_config, pid, process_config.nice));
                None
            },
            Ok(Decision::Change(change)) => {
                notices.push(self.log_nice_mismatch(process_config, pid, change.from, change.to));
                Some(change)
            },
            Err(error) => {
                notices.push(Notice::CheckFailed { pid, reason: error.message() });
                None
            },
        };
        assert(notices_of(notices@) =~= check_notices(pid, process_config@, reading));
        Adjustment { notices, change }
    }

    /// Decides what is due for process `pid` under `process_config`, given what
    /// reading its priority gave.
    pub fn try_check_and_adjust_nice_value(
        &self,
        pid: i32,
        process_config: &ProcessConfig,
        reading: PriorityReading,
    ) -> (decision: Result<Decision, AdjustError>)
        ensures
            match decision {
                Ok(due) => decide(pid, process_config.nice, reading) == Ok::<
                    Decision,
                    AdjustErrorView,
                >(due),
                Err(error) => decide(pid, process_config.nice, reading) == Err::<
                    Decision,
                    AdjustErrorView,
                >(error@),
            },
    {
        match reading {
            PriorityReading::Nice(current_nice) => {
                let expected_nice = process_config.nice;
                if current_nice != expected_nice {
                    Ok(Decision::Change(PriorityChange { pid, from: current_nice, to: expected_nice }))
                } else {
                    Ok(Decision::Keep)
                }
            },
            PriorityReading::ProcessUnavailable => Err(AdjustError::ProcessUnavailable { pid }),
            PriorityReading::StatUnavailable => Err(AdjustError::StatUnavailable { pid }),
        }
    }

    /// The notice that a process has another nice value than its rule asks for.
    pub fn log_nice_mismatch(
        &self,
        process_config: &ProcessConfig,
        pid: i32,
        current_nice: i32,
        expected_nice: i32,
    ) -> (notice: Notice)
        ensures
            notice@ == (NoticeView::NiceMismatch {
                name: process_config@.name,
                pid,
                current: current_nice,
                expected: expected_nice,
            }),
    {
        Notice::NiceMismatch {
            name: process_config.name.clone(),
            pid,
            current: current_nice,
            expected: expected_nice,
        }
    }

    /// The notice that a process has the nice value its rule asks for.
    pub fn log_nice_match(&self, process_config: &ProcessConfig, pid: i32, current_nice: i32) -> (notice:
        Notice)
        ensures
            notice@ == (NoticeView::NiceMatch {
                name: process_config@.name,
                pid,
                nice: current_nice,
            }),
    {
        Notice::NiceMatch { name: process_config.name.clone(), pid, nice: current_nice }
    }

    /// Says what the outcome of a change amounts to: success where the system
    /// made it, and otherwise the error that holds the system's reason.
    pub fn adjust_nice_value(&self, change: PriorityChange, outcome: Result<(), String>) -> (done:
        Result<(), AdjustError>)
        ensures
            match done {
                Ok(()) => outcome_of(change, reason_of(outcome)) is Ok,
                Err(error) => outcome_of(change, reason_of(outcome)) == Err::<(), AdjustErrorView>(
                    error@,
                ),
            },
    {
        match outcome {
            Ok(()) => Ok(()),
            Err(reason) => Err(AdjustError::SetFailed { pid: change.pid, reason }),
        }
    }

    /// Says what to report after the system was asked for `change`.
    ///
    /// A change that was made is reported once. One that the system refused is
    /// reported as an error with the system's reason, and the process is given
    /// up with a warning; it is not tried again.
    pub fn conclude_adjustment(&self, change: PriorityChange, outcome: Result<(), String>) -> (notices:
        Vec<Notice>)
        ensures
            notices_of(notices@) == change_notices(change, reason_of(outcome)),
    {
        let mut notices: Vec<Notice> = Vec::new();
        match self.adjust_nice_value(change, outcome) {
            Ok(()) => {
                notices.push(Notice::Adjusted { pid: change.pid, from: change.from, to: change.to });
            },
            Err(error) => {
                let given_up = Notice::CheckFailed { pid: change.pid, reason: error.message() };
                if let AdjustError::SetFailed { pid, reason } = error {
                    notices.push(Notice::AdjustFailed { pid, reason });
                }
                notices.push(given_up);
            },
        }
        assert(notices_of(notices@) =~= change_notices(change, reason_of(outcome)));
        notices
    }
}

} // verus!
