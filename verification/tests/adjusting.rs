use reniced::adjuster::{
    AdjustError, Adjuster, Adjustment, Decision, PriorityChange, PriorityReading,
};
use reniced::config::{Config, MatcherConfig, ProcessConfig};
use reniced::notice::{Level, Notice};

fn rule(nice: i32) -> ProcessConfig {
    ProcessConfig {
        name: String::from("db"),
        owner: None,
        bin: String::from("/usr/bin/db"),
        nice,
        matcher: MatcherConfig::default(),
    }
}

/// A process as the system holds it: its nice value, and how often it was changed.
struct FakeProcess {
    nice: i32,
    changes: u32,
}

/// Runs the adjuster once against the fake process, as the daemon does.
fn adjust_once(adjuster: &Adjuster, rule: &ProcessConfig, process: &mut FakeProcess) -> Vec<Notice> {
    let Adjustment { mut notices, change } =
        adjuster.check_and_adjust_nice_value(7, rule, PriorityReading::Nice(process.nice));
    if let Some(change) = change {
        process.nice = change.to;
        process.changes += 1;
        notices.extend(adjuster.conclude_adjustment(change, Ok(())));
    }
    notices
}

#[test]
fn adjusting_twice_changes_the_priority_once() {
    let config = Config::default();
    let adjuster = Adjuster::new(&config);
    let rule = rule(10);
    let mut process = FakeProcess { nice: 0, changes: 0 };

    let first = adjust_once(&adjuster, &rule, &mut process);
    assert_eq!(process.nice, 10);
    assert_eq!(process.changes, 1);
    assert_eq!(
        first,
        vec![
            Notice::NiceMismatch { name: String::from("db"), pid: 7, current: 0, expected: 10 },
            Notice::Adjusted { pid: 7, from: 0, to: 10 },
        ]
    );

    let second = adjust_once(&adjuster, &rule, &mut process);
    assert_eq!(process.nice, 10);
    assert_eq!(process.changes, 1);
    assert_eq!(second, vec![Notice::NiceMatch { name: String::from("db"), pid: 7, nice: 10 }]);
}

#[test]
fn the_right_value_asks_nothing_of_the_system() {
    let config = Config::default();
    let adjuster = Adjuster::new(&config);
    for nice in [-20, -1, 0, 19] {
        let adjustment =
            adjuster.check_and_adjust_nice_value(42, &rule(nice), PriorityReading::Nice(nice));
        assert_eq!(adjustment.change, None);
        assert_eq!(adjustment.notices.len(), 1);
        assert_eq!(adjustment.notices[0].level(), Level::Debug);
        assert_eq!(
            adjuster.try_check_and_adjust_nice_value(42, &rule(nice), PriorityReading::Nice(nice)),
            Ok(Decision::Keep)
        );
    }
}

#[test]
fn another_value_asks_for_one_change_to_the_target() {
    let config = Config::default();
    let adjuster = Adjuster::new(&config);
    let adjustment = adjuster.check_and_adjust_nice_value(42, &rule(-5), PriorityReading::Nice(3));
    assert_eq!(adjustment.change, Some(PriorityChange { pid: 42, from: 3, to: -5 }));
    assert_eq!(
        adjustment.notices,
        vec![Notice::NiceMismatch { name: String::from("db"), pid: 42, current: 3, expected: -5 }]
    );
    assert_eq!(adjustment.notices[0].level(), Level::Info);
    assert_eq!(
        adjustment.notices[0].message(),
        "Process 'db' (PID: 42) has a nice value of 3 but expected -5. Adjusting..."
    );
}

#[test]
fn a_priority_that_cannot_be_read_ends_the_adjustment() {
    let config = Config::default();
    let adjuster = Adjuster::new(&config);
    let gone = adjuster.check_and_adjust_nice_value(9, &rule(1), PriorityReading::ProcessUnavailable);
    assert_eq!(gone.change, None);
    assert_eq!(
        gone.notices,
        vec![Notice::CheckFailed {
            pid: 9,
            reason: String::from("Could not access process for PID 9"),
        }]
    );
    assert_eq!(gone.notices[0].level(), Level::Warn);
    assert_eq!(
        gone.notices[0].message(),
        "Failed to check and adjust nice value for PID 9: Could not access process for PID 9"
    );
    let unread = adjuster.try_check_and_adjust_nice_value(9, &rule(1), PriorityReading::StatUnavailable);
    assert_eq!(unread, Err(AdjustError::StatUnavailable { pid: 9 }));
    assert_eq!(unread.unwrap_err().message(), "Could not access stat information for PID 9");
    assert_eq!(
        adjuster.try_check_and_adjust_nice_value(9, &rule(1), PriorityReading::ProcessUnavailable),
        Err(AdjustError::ProcessUnavailable { pid: 9 })
    );
}

#[test]
fn a_refused_change_is_reported_with_the_reason() {
    let config = Config::default();
    let adjuster = Adjuster::new(&config);
    let change = PriorityChange { pid: 1234, from: 0, to: -10 };
    let refused = Err(String::from("Permission denied (os error 13)"));
    assert_eq!(
        adjuster.adjust_nice_value(change, refused.clone()),
        Err(AdjustError::SetFailed {
            pid: 1234,
            reason: String::from("Permission denied (os error 13)"),
        })
    );
    let notices = adjuster.conclude_adjustment(change, refused);
    assert_eq!(notices.len(), 2);
    assert_eq!(notices[0].level(), Level::Error);
    assert_eq!(
        notices[0].message(),
        "Failed to adjust nice value for PID 1234: Permission denied (os error 13)"
    );
    assert_eq!(notices[1].level(), Level::Warn);
    assert_eq!(
        notices[1].message(),
        "Failed to check and adjust nice value for PID 1234: Failed to adjust nice value for PID 1234: Permission denied (os error 13)"
    );
}

#[test]
fn a_change_that_was_made_is_reported_once() {
    let config = Config::default();
    let adjuster = Adjuster::new(&config);
    let change = PriorityChange { pid: 5, from: 19, to: -20 };
    assert_eq!(adjuster.adjust_nice_value(change, Ok(())), Ok(()));
    let notices = adjuster.conclude_adjustment(change, Ok(()));
    assert_eq!(notices, vec![Notice::Adjusted { pid: 5, from: 19, to: -20 }]);
    assert_eq!(notices[0].level(), Level::Info);
    assert_eq!(notices[0].message(), "Successfully adjusted nice value for PID 5 from 19 to -20");
}

#[test]
fn the_log_notices_name_the_rule() {
    let config = Config::default();
    let adjuster = Adjuster::new(&config);
    let matching = adjuster.log_nice_match(&rule(4), 77, 4);
    assert_eq!(matching.level(), Level::Debug);
    assert_eq!(matching.message(), "Process 'db' (PID: 77) already has the correct nice value of 4");
    let mismatch = adjuster.log_nice_mismatch(&rule(4), 77, -3, 4);
    assert_eq!(
        mismatch,
        Notice::NiceMismatch { name: String::from("db"), pid: 77, current: -3, expected: 4 }
    );
}
