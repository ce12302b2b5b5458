//! What the core has to report: each decision and each failure, as data.
//!
//! The core writes no log. It hands its notices to the program around it, which
//! sends them wherever its operator reads them.

use crate::text::{append_decimal, decimal_of};
use vstd::prelude::*;
use vstd::string::StringExecFns;

verus! {

/// How much a notice matters, from least to most.
#[derive(Clone, Copy, Debug, PartialEq, Eq, Structural)]
pub enum Level {
    Trace,
    Debug,
    Info,
    Warn,
    Error,
}

/// One report of the core.
#[derive(Debug, PartialEq, Eq)]
pub enum Notice {
    /// The process table could not be listed.
    ScanFailed { reason: String },
    /// The command line of a new process could not be read.
    CommandUnavailable { pid: i32 },
    /// The owner of a new process could not be told.
    OwnerUnavailable { pid: i32 },
    /// A rule is for the new process.
    Matched { pid: i32, command: String, owner: String },
    /// No rule is for the new process.
    Unmatched { pid: i32, command: String, owner: String },
    /// The process has another nice value than its rule asks for; a change follows.
    NiceMismatch { name: String, pid: i32, current: i32, expected: i32 },
    /// The process has the nice value its rule asks for; nothing follows.
    NiceMatch { name: String, pid: i32, nice: i32 },
    /// The nice value of the process was changed.
    Adjusted { pid: i32, from: i32, to: i32 },
    /// The system refused to change the nice value of the process.
    AdjustFailed { pid: i32, reason: String },
    /// Checking and adjusting the process was given up.
    CheckFailed { pid: i32, reason: String },
}

/// The value of a [`Notice`].
pub enum NoticeView {
    ScanFailed { reason: Seq<char> },
    CommandUnavailable { pid: i32 },
    OwnerUnavailable { pid: i32 },
    Matched { pid: i32, command: Seq<char>, owner: Seq<char> },
    Unmatched { pid: i32, command: Seq<char>, owner: Seq<char> },
    NiceMismatch { name: Seq<char>, pid: i32, current: i32, expected: i32 },
    NiceMatch { name: Seq<char>, pid: i32, nice: i32 },
    Adjusted { pid: i32, from: i32, to: i32 },
    AdjustFailed { pid: i32, reason: Seq<char> },
    CheckFailed { pid: i32, reason: Seq<char> },
}

impl View for Notice {
    type V = NoticeView;

    open spec fn view(&self) -> NoticeView {
        match *self {
            Notice::ScanFailed { reason } => NoticeView::ScanFailed { reason: reason@ },
            Notice::CommandUnavailable { pid } => NoticeView::CommandUnavailable { pid },
            Notice::OwnerUnavailable { pid } => NoticeView::OwnerUnavailable { pid },
            Notice::Matched { pid, command, owner } => NoticeView::Matched {
                pid,
                command: command@,
                owner: owner@,
            },
            Notice::Unmatched { pid, command, owner } => NoticeView::Unmatched {
                pid,
                command: command@,
                owner: owner@,
            },
            Notice::NiceMismatch { name, pid, current, expected } => NoticeView::NiceMismatch {
                name: name@,
                pid,
                current,
                expected,
            },
            Notice::NiceMatch { name, pid, nice } => NoticeView::NiceMatch { name: name@, pid, nice },
            Notice::Adjusted { pid, from, to } => NoticeView::Adjusted { pid, from, to },
            Notice::AdjustFailed { pid, reason } => NoticeView::AdjustFailed { pid, reason: reason@ },
            Notice::CheckFailed { pid, reason } => NoticeView::CheckFailed { pid, reason: reason@ },
        }
    }
}

/// The values of a list of notices, in order.
pub open spec fn notices_of(notices: Seq<Notice>) -> Seq<NoticeView> {
    notices.map_values(|notice: Notice| notice@)
}

impl NoticeView {
    /// How much the notice matters: failures of the system are errors, a
    /// process that had to be skipped is a warning, a priority that is changed
    /// is worth knowing, the rest is detail.
    pub open spec fn level(self) -> Level {
        match self {
            NoticeView::ScanFailed { .. } => Level::Error,
            NoticeView::CommandUnavailable { .. } => Level::Warn,
            NoticeView::OwnerUnavailable { .. } => Level::Warn,
            NoticeView::Matched { .. } => Level::Debug,
            NoticeView::Unmatched { .. } => Level::Debug,
            NoticeView::NiceMismatch { .. } => Level::Info,
            NoticeView::NiceMatch { .. } => Level::Debug,
            NoticeView::Adjusted { .. } => Level::Info,
            NoticeView::AdjustFailed { .. } => Level::Error,
            NoticeView::CheckFailed { .. } => Level::Warn,
        }
    }

    /// The notice in words.
    pub open spec fn message(self) -> Seq<char> {
        match self {
            NoticeView::ScanFailed { reason } => "Error fetching processes: "@ + reason,
            NoticeView::CommandUnavailable { pid } => "Failed to get command string for PID "@
                + decimal_of(pid as int),
            NoticeView::OwnerUnavailable { pid } => "Failed to get owner for PID "@ + decimal_of(
                pid as int,
            ),
            NoticeView::Matched { pid, command, owner } => "Process "@ + decimal_of(pid as int)
                + " with command '"@ + command + "' and owner '"@ + owner + "' matches config"@,
            NoticeView::Unmatched { pid, command, owner } => "Process "@ + decimal_of(pid as int)
                + " with command '"@ + command + "' and owner '"@ + owner + "' matches no config"@,
            NoticeView::NiceMismatch { name, pid, current, expected } => "Process '"@ + name
                + "' (PID: "@ + decimal_of(pid as int) + ") has a nice value of "@ + decimal_of(
                current as int,
            ) + " but expected "@ + decimal_of(expected as int) + ". Adjusting..."@,
            NoticeView::NiceMatch { name, pid, nice } => "Process '"@ + name + "' (PID: "@
                + decimal_of(pid as int) + ") already has the correct nice value of "@ + decimal_of(
                nice as int,
            ),
            NoticeView::Adjusted { pid, from, to } => "Successfully adjusted nice value for PID "@
                + decimal_of(pid as int) + " from "@ + decimal_of(from as int) + " to "@
                + decimal_of(to as int),
            NoticeView::AdjustFailed { pid, reason } => "Failed to adjust nice value for PID "@
                + decimal_of(pid as int) + ": "@ + reason,
            NoticeView::CheckFailed { pid, reason } =>
                "Failed to check and adjust nice value for PID "@ + decimal_of(pid as int) + ": "@
                    + reason,
        }
    }
}

impl Notice {
    /// How much the notice matters.
    pub fn level(&self) -> (level: Level)
        ensures
            level == self@.level(),
    {
        match self {
            Notice::ScanFailed { .. } => Level::Error,
            Notice::CommandUnavailable { .. } => Level::Warn,
            Notice::OwnerUnavailable { .. } => Level::Warn,
            Notice::Matched { .. } => Level::Debug,
            Notice::Unmatched { .. } => Level::Debug,
            Notice::NiceMismatch { .. } => Level::Info,
            Notice::NiceMatch { .. } => Level::Debug,
            Notice::Adjusted { .. } => Level::Info,
            Notice::AdjustFailed { .. } => Level::Error,
            Notice::CheckFailed { .. } => Level::Warn,
        }
    }

    /// The notice in words.
    pub fn message(&self) -> (text: String)
        ensures
            text@ == self@.message(),
    {
        match self {
            Notice::ScanFailed { reason } => {
                let mut text = "Error fetching processes: ".to_owned();
                text.append(reason.as_str());
                text
            },
            Notice::CommandUnavailable { pid } => {
                let mut text = "Failed to get command string for PID ".to_owned();
                append_decimal(&mut text, *pid as i64);
                text
            },
            Notice::OwnerUnavailable { pid } => {
                let mut text = "Failed to get owner for PID ".to_owned();
                append_decimal(&mut text, *pid as i64);
                text
            },
            Notice::Matched { pid, command, owner } => {
                let mut text = "Process ".to_owned();
                append_decimal(&mut text, *pid as i64);
                text.append(" with command '");
                text.append(command.as_str());
                text.append("' and owner '");
                text.append(owner.as_str());
                text.append("' matches config");
                text
            },
            Notice::Unmatched { pid, command, owner } => {
                let mut text = "Process ".to_owned();
                append_decimal(&mut text, *pid as i64);
                text.append(" with command '");
                text.append(command.as_str());
                text.append("' and owner '");
                text.append(owner.as_str());
                text.append("' matches no config");
                text
            },
            Notice::NiceMismatch { name, pid, current, expected } => {
                let mut text = "Process '".to_owned();
                text.append(name.as_str());
                text.append("' (PID: ");
                append_decimal(&mut text, *pid as i64);
                text.append(") has a nice value of ");
                append_decimal(&mut text, *current as i64);
                text.append(" but expected ");
                append_decimal(&mut text, *expected as i64);
                text.append(". Adjusting...");
                text
            },
            Notice::NiceMatch { name, pid, nice } => {
                let mut text = "Process '".to_owned();
                text.append(name.as_str());
                text.append("' (PID: ");
                append_decimal(&mut text, *pid as i64);
                text.append(") already has the correct nice value of ");
                append_decimal(&mut text, *nice as i64);
                text
            },
            Notice::Adjusted { pid, from, to } => {
                let mut text = "Successfully adjusted nice value for PID ".to_owned();
                append_decimal(&mut text, *pid as i64);
                text.append(" from ");
                append_decimal(&mut text, *from as i64);
                text.append(" to ");
                append_decimal(&mut text, *to as i64);
                text
            },
            Notice::AdjustFailed { pid, reason } => {
                let mut text = "Failed to adjust nice value for PID ".to_owned();
                append_decimal(&mut text, *pid as i64);
                text.append(": ");
                text.append(reason.as_str());
                text
            },
            Notice::CheckFailed { pid, reason } => {
                let mut text = "Failed to check and adjust nice value for PID ".to_owned();
                append_decimal(&mut text, *pid as i64);
                text.append(": ");
                text.append(reason.as_str());
                text
            },
        }
    }
}

} // verus!
