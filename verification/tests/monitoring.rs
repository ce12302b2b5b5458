use reniced::adjuster::PriorityReading;
use reniced::config::{Config, MatcherConfig, ProcessConfig};
use reniced::monitor::{Action, Event, Monitor, Step, POLL_INTERVAL_SECONDS};
use reniced::notice::{Level, Notice};
use reniced::snapshot::ProcessSnapshot;

fn snapshot_of(ids: &[i32]) -> ProcessSnapshot {
    let mut snapshot = ProcessSnapshot::new();
    for id in ids {
        snapshot.insert(*id);
    }
    snapshot
}

fn config() -> Config {
    Config {
        process: vec![ProcessConfig {
            name: String::from("db"),
            owner: Some(String::from("alice")),
            bin: String::from("/usr/bin/db"),
            nice: -5,
            matcher: MatcherConfig { kind: String::from("simple"), match_string: None, strip_path: None },
        }],
    }
}

const SLEEP: Action = Action::Sleep { seconds: 3 };

/// Hands `event` to the monitor and gives back what it asks for and reports.
fn tell<'a>(monitor: Monitor<'a>, event: Event) -> (Monitor<'a>, Action, Vec<Notice>) {
    let Step { monitor, action, notices } = monitor.step(event);
    monitor.is_consistent();
    (monitor, action, notices)
}

/// Brings a fresh monitor through one cycle in which the processes `ids` are
/// seen and none of them can be read.
fn after_first_scan<'a>(config: &'a Config, ids: &[i32]) -> Monitor<'a> {
    let monitor = Monitor::new(config);
    let (mut monitor, action, _) = tell(monitor, Event::Woke);
    assert_eq!(action, Action::Scan);
    let (m, mut action, _) = tell(monitor, Event::Scanned(Ok(snapshot_of(ids))));
    monitor = m;
    for id in ids {
        assert_eq!(action, Action::ReadCommand { pid: *id });
        let (m, a, _) = tell(monitor, Event::Command(None));
        monitor = m;
        action = a;
    }
    assert_eq!(action, SLEEP);
    let (monitor, action, _) = tell(monitor, Event::Woke);
    assert_eq!(action, Action::Scan);
    monitor
}

#[test]
fn the_first_step_asks_for_the_process_table() {
    let config = config();
    assert_eq!(POLL_INTERVAL_SECONDS, 3);
    for event in [Event::Woke, Event::Command(None), Event::Priority(PriorityReading::Nice(0))] {
        let (_, action, notices) = tell(Monitor::new(&config), event);
        assert_eq!(action, Action::Scan);
        assert!(notices.is_empty());
    }
}

#[test]
fn only_what_the_previous_scan_did_not_hold_is_looked_at() {
    let config = config();
    let monitor = after_first_scan(&config, &[1, 2, 3]);
    let (monitor, action, notices) = tell(monitor, Event::Scanned(Ok(snapshot_of(&[2, 3, 4]))));
    assert_eq!(action, Action::ReadCommand { pid: 4 });
    assert!(notices.is_empty());
    let (monitor, action, notices) = tell(monitor, Event::Command(None));
    assert_eq!(action, SLEEP);
    assert_eq!(notices, vec![Notice::CommandUnavailable { pid: 4 }]);
    // process 1 is gone; when it comes back it is new again, the others are not
    let (monitor, _, _) = tell(monitor, Event::Woke);
    let (_, action, _) = tell(monitor, Event::Scanned(Ok(snapshot_of(&[1, 2, 3, 4]))));
    assert_eq!(action, Action::ReadCommand { pid: 1 });
}

#[test]
fn new_processes_are_looked_at_in_the_order_of_the_scan() {
    let config = config();
    let monitor = after_first_scan(&config, &[7]);
    let (monitor, action, _) = tell(monitor, Event::Scanned(Ok(snapshot_of(&[9, 7, 8, 3]))));
    assert_eq!(action, Action::ReadCommand { pid: 9 });
    let (monitor, action, _) = tell(monitor, Event::Command(None));
    assert_eq!(action, Action::ReadCommand { pid: 8 });
    let (monitor, action, _) = tell(monitor, Event::Command(None));
    assert_eq!(action, Action::ReadCommand { pid: 3 });
    let (_, action, _) = tell(monitor, Event::Command(None));
    assert_eq!(action, SLEEP);
}

#[test]
fn a_scan_without_new_processes_goes_to_sleep() {
    let config = config();
    let monitor = after_first_scan(&config, &[1, 2]);
    let (monitor, action, notices) = tell(monitor, Event::Scanned(Ok(snapshot_of(&[2, 1]))));
    assert_eq!(action, SLEEP);
    assert!(notices.is_empty());
    let (monitor, _, _) = tell(monitor, Event::Woke);
    let (_, action, _) = tell(monitor, Event::Scanned(Ok(ProcessSnapshot::new())));
    assert_eq!(action, SLEEP);
}

#[test]
fn a_failed_scan_is_reported_and_slept_on() {
    let config = config();
    let monitor = after_first_scan(&config, &[1, 2]);
    let (monitor, action, notices) =
        tell(monitor, Event::Scanned(Err(String::from("Permission denied (os error 13)"))));
    assert_eq!(action, SLEEP);
    assert_eq!(notices.len(), 1);
    assert_eq!(notices[0].level(), Level::Error);
    assert_eq!(notices[0].message(), "Error fetching processes: Permission denied (os error 13)");
    // what was seen before the failure is still known
    let (monitor, action, _) = tell(monitor, Event::Woke);
    assert_eq!(action, Action::Scan);
    let (_, action, _) = tell(monitor, Event::Scanned(Ok(snapshot_of(&[1, 2, 3]))));
    assert_eq!(action, Action::ReadCommand { pid: 3 });
}

#[test]
fn a_matching_process_is_brought_to_the_nice_value_of_its_rule() {
    let config = config();
    let monitor = after_first_scan(&config, &[]);
    let (monitor, action, _) = tell(monitor, Event::Scanned(Ok(snapshot_of(&[10]))));
    assert_eq!(action, Action::ReadCommand { pid: 10 });
    let (monitor, action, notices) = tell(monitor, Event::Command(Some(String::from("/usr/bin/db --listen 1"))));
    assert_eq!(action, Action::ReadOwner { pid: 10 });
    assert!(notices.is_empty());
    let (monitor, action, notices) = tell(monitor, Event::Owner(Some(String::from("alice"))));
    assert_eq!(action, Action::ReadPriority { pid: 10 });
    assert_eq!(notices.len(), 1);
    assert_eq!(notices[0].level(), Level::Debug);
    assert_eq!(
        notices[0].message(),
        "Process 10 with command '/usr/bin/db --listen 1' and owner 'alice' matches config"
    );
    let (monitor, action, notices) = tell(monitor, Event::Priority(PriorityReading::Nice(0)));
    assert_eq!(action, Action::SetPriority { pid: 10, nice: -5 });
    assert_eq!(
        notices,
        vec![Notice::NiceMismatch { name: String::from("db"), pid: 10, current: 0, expected: -5 }]
    );
    let (_, action, notices) = tell(monitor, Event::PrioritySet(Ok(())));
    assert_eq!(action, SLEEP);
    assert_eq!(notices, vec![Notice::Adjusted { pid: 10, from: 0, to: -5 }]);
}

#[test]
fn a_process_with_the_right_nice_value_is_left_alone() {
    let config = config();
    let monitor = after_first_scan(&config, &[]);
    let (monitor, _, _) = tell(monitor, Event::Scanned(Ok(snapshot_of(&[10, 11]))));
    let (monitor, _, _) = tell(monitor, Event::Command(Some(String::from("/usr/bin/db x"))));
    let (monitor, _, _) = tell(monitor, Event::Owner(Some(String::from("alice"))));
    let (_, action, notices) = tell(monitor, Event::Priority(PriorityReading::Nice(-5)));
    assert_eq!(action, Action::ReadCommand { pid: 11 });
    assert_eq!(notices, vec![Notice::NiceMatch { name: String::from("db"), pid: 10, nice: -5 }]);
}

#[test]
fn a_process_without_rule_is_passed_over() {
    let config = config();
    let monitor = after_first_scan(&config, &[]);
    let (monitor, _, _) = tell(monitor, Event::Scanned(Ok(snapshot_of(&[10, 11]))));
    let (monitor, _, _) = tell(monitor, Event::Command(Some(String::from("/usr/bin/db x"))));
    let (monitor, action, notices) = tell(monitor, Event::Owner(Some(String::from("bob"))));
    assert_eq!(action, Action::ReadCommand { pid: 11 });
    assert_eq!(
        notices,
        vec![Notice::Unmatched {
            pid: 10,
            command: String::from("/usr/bin/db x"),
            owner: String::from("bob"),
        }]
    );
    assert_eq!(notices[0].level(), Level::Debug);
    let (monitor, _, _) = tell(monitor, Event::Command(Some(String::from("/usr/bin/db x"))));
    let (_, action, notices) = tell(monitor, Event::Owner(None));
    assert_eq!(action, SLEEP);
    assert_eq!(notices, vec![Notice::OwnerUnavailable { pid: 11 }]);
    assert_eq!(notices[0].level(), Level::Warn);
    assert_eq!(notices[0].message(), "Failed to get owner for PID 11");
}

#[test]
fn a_refused_change_is_reported_and_not_tried_again() {
    let config = config();
    let monitor = after_first_scan(&config, &[]);
    let (monitor, _, _) = tell(monitor, Event::Scanned(Ok(snapshot_of(&[10, 11]))));
    let (monitor, _, _) = tell(monitor, Event::Command(Some(String::from("/usr/bin/db x"))));
    let (monitor, _, _) = tell(monitor, Event::Owner(Some(String::from("alice"))));
    let (monitor, action, _) = tell(monitor, Event::Priority(PriorityReading::Nice(0)));
    assert_eq!(action, Action::SetPriority { pid: 10, nice: -5 });
    let (monitor, action, notices) =
        tell(monitor, Event::PrioritySet(Err(String::from("Operation not permitted (os error 1)"))));
    // the loop goes on with the next process
    assert_eq!(action, Action::ReadCommand { pid: 11 });
    assert_eq!(notices.len(), 2);
    assert_eq!(notices[0].level(), Level::Error);
    assert_eq!(
        notices[0].message(),
        "Failed to adjust nice value for PID 10: Operation not permitted (os error 1)"
    );
    assert_eq!(notices[1].level(), Level::Warn);
    let (monitor, action, _) = tell(monitor, Event::Command(None));
    assert_eq!(action, SLEEP);
    // in the next cycle the process is not new, and nothing is asked about it
    let (monitor, _, _) = tell(monitor, Event::Woke);
    let (_, action, notices) = tell(monitor, Event::Scanned(Ok(snapshot_of(&[10, 11]))));
    assert_eq!(action, SLEEP);
    assert!(notices.is_empty());
}

#[test]
fn a_priority_that_cannot_be_read_ends_with_that_process() {
    let config = config();
    let monitor = after_first_scan(&config, &[]);
    let (monitor, _, _) = tell(monitor, Event::Scanned(Ok(snapshot_of(&[10, 11]))));
    let (monitor, _, _) = tell(monitor, Event::Command(Some(String::from("/usr/bin/db x"))));
    let (monitor, _, _) = tell(monitor, Event::Owner(Some(String::from("alice"))));
    let (_, action, notices) = tell(monitor, Event::Priority(PriorityReading::ProcessUnavailable));
    assert_eq!(action, Action::ReadCommand { pid: 11 });
    assert_eq!(
        notices,
        vec![Notice::CheckFailed { pid: 10, reason: String::from("Could not access process for PID 10") }]
    );
}

#[test]
fn an_event_that_answers_nothing_is_ignored() {
    let config = config();
    let monitor = after_first_scan(&config, &[]);
    let (monitor, action, notices) = tell(monitor, Event::Woke);
    assert_eq!(action, Action::Scan);
    assert!(notices.is_empty());
    let (monitor, _, _) = tell(monitor, Event::Scanned(Ok(snapshot_of(&[10]))));
    let (monitor, action, notices) = tell(monitor, Event::Owner(Some(String::from("alice"))));
    assert_eq!(action, Action::ReadCommand { pid: 10 });
    assert!(notices.is_empty());
    let (monitor, _, _) = tell(monitor, Event::Command(Some(String::from("/usr/bin/db x"))));
    let (monitor, action, _) = tell(monitor, Event::Scanned(Ok(snapshot_of(&[99]))));
    assert_eq!(action, Action::ReadOwner { pid: 10 });
    let (monitor, _, _) = tell(monitor, Event::Owner(Some(String::from("alice"))));
    let (monitor, action, _) = tell(monitor, Event::PrioritySet(Ok(())));
    assert_eq!(action, Action::ReadPriority { pid: 10 });
    let (monitor, _, _) = tell(monitor, Event::Priority(PriorityReading::Nice(3)));
    let (monitor, action, _) = tell(monitor, Event::Priority(PriorityReading::Nice(3)));
    assert_eq!(action, Action::SetPriority { pid: 10, nice: -5 });
    let (monitor, action, _) = tell(monitor, Event::PrioritySet(Ok(())));
    assert_eq!(action, SLEEP);
    let (_, action, notices) = tell(monitor, Event::Command(None));
    assert_eq!(action, SLEEP);
    assert!(notices.is_empty());
}
