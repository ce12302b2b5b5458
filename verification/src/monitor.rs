//! The detection loop: scan, find what is new, bring each new process to the
//! nice value of its rule, sleep, and scan again.
//!
//! The monitor does none of the work on the system. Each step it is told what
//! came of the last thing it asked for, and says what it asks for next. The
//! program around it does what is asked and comes back with the outcome. Every
//! failure ends with the process it concerns; the loop goes on.

use crate::adjuster::{
    change_due, change_notices, check_notices, reason_of, Adjuster, PriorityChange, PriorityReading,
};
use crate::config::{Config, ProcessConfigView};
use crate::matcher::{matched_rule, ProcessMatcher};
use crate::notice::{notices_of, Notice, NoticeView};
use crate::snapshot::{lemma_new_id, lemma_new_ids, new_ids, ProcessSnapshot};
use crate::text::text_of;
use vstd::prelude::*;

verus! {

/// How long the monitor sleeps between two scans, in seconds.
pub const POLL_INTERVAL_SECONDS: u64 = 3;

/// What the monitor asks of the program around it.
#[derive(Clone, Copy, Debug, PartialEq, Eq, Structural)]
pub enum Action {
    /// List the process table.
    Scan,
    /// Read the command line of the process.
    ReadCommand { pid: i32 },
    /// Find the owner of the process.
    ReadOwner { pid: i32 },
    /// Read the nice value of the process.
    ReadPriority { pid: i32 },
    /// Give the process the nice value.
    SetPriority { pid: i32, nice: i32 },
    /// Wait.
    Sleep { seconds: u64 },
}

/// What came of the last thing the monitor asked for.
#[derive(Debug)]
pub enum Event {
    /// The process table, or why it could not be listed.
    Scanned(Result<ProcessSnapshot, String>),
    /// The command line, if it could be read.
    Command(Option<String>),
    /// The owner's name, if it could be told.
    Owner(Option<String>),
    /// What reading the nice value gave.
    Priority(PriorityReading),
    /// How the change of the nice value went: done, or the system's reason.
    PrioritySet(Result<(), String>),
    /// The wait is over.
    Woke,
}

/// The value of an [`Event`].
pub enum EventView {
    Scanned(Result<Seq<i32>, Seq<char>>),
    Command(Option<Seq<char>>),
    Owner(Option<Seq<char>>),
    Priority(PriorityReading),
    PrioritySet(Result<(), Seq<char>>),
    Woke,
}

/// The value of what a scan gave.
pub open spec fn scan_of(scan: Result<ProcessSnapshot, String>) -> Result<Seq<i32>, Seq<char>> {
    match scan {
        Ok(snapshot) => Ok(snapshot.ids()),
        Err(reason) => Err(reason@),
    }
}

impl View for Event {
    type V = EventView;

    open spec fn view(&self) -> EventView {
        match *self {
            Event::Scanned(scan) => EventView::Scanned(scan_of(scan)),
            Event::Command(command) => EventView::Command(text_of(command)),
            Event::Owner(owner) => EventView::Owner(text_of(owner)),
            Event::Priority(reading) => EventView::Priority(reading),
            Event::PrioritySet(outcome) => EventView::PrioritySet(reason_of(outcome)),
            Event::Woke => EventView::Woke,
        }
    }
}

/// Where in its cycle a monitor is: what it has asked for and waits to hear of.
pub enum PhaseView {
    /// Nothing was asked for yet.
    Idle,
    /// The process table.
    Scanning,
    /// The command line of a new process.
    AwaitingCommand { pid: i32 },
    /// The owner of a new process, whose command line is known.
    AwaitingOwner { pid: i32, command: Seq<char> },
    /// The nice value of a process, for which the rule at `rule` is.
    AwaitingPriority { pid: i32, rule: usize },
    /// The outcome of a change of priority.
    AwaitingChange { change: PriorityChange },
    /// The end of the wait.
    Sleeping,
}

/// The value of a [`Monitor`].
#[verifier::ext_equal]
pub struct MonitorView {
    /// The rules, in the order in which they are tried.
    pub rules: Seq<ProcessConfigView>,
    /// The processes of the last scan whose cycle came to its end.
    pub previous: Seq<i32>,
    /// The processes of the scan whose new processes are being looked at; none
    /// between two cycles.
    pub current: Seq<i32>,
    /// The new processes that are still to be looked at, the next one first.
    pub pending: Seq<i32>,
    pub phase: PhaseView,
}

/// The value of a [`Step`].
#[verifier::ext_equal]
pub struct StepView {
    pub monitor: MonitorView,
    pub action: Action,
    pub notices: Seq<NoticeView>,
}

/// A monitor that has done nothing yet.
pub open spec fn initial(rules: Seq<ProcessConfigView>) -> MonitorView {
    MonitorView {
        rules,
        previous: Seq::empty(),
        current: Seq::empty(),
        pending: Seq::empty(),
        phase: PhaseView::Idle,
    }
}

/// What a monitor in `phase` has asked for.
pub open spec fn awaited(phase: PhaseView) -> Action {
    match phase {
        PhaseView::Idle => Action::Scan,
        PhaseView::Scanning => Action::Scan,
        PhaseView::AwaitingCommand { pid } => Action::ReadCommand { pid },
        PhaseView::AwaitingOwner { pid, .. } => Action::ReadOwner { pid },
        PhaseView::AwaitingPriority { pid, .. } => Action::ReadPriority { pid },
        PhaseView::AwaitingChange { change } => Action::SetPriority {
            pid: change.pid,
            nice: change.to,
        },
        PhaseView::Sleeping => Action::Sleep { seconds: POLL_INTERVAL_SECONDS },
    }
}

/// The start of a cycle: the process table is asked for.
pub open spec fn scan(m: MonitorView) -> StepView {
    StepView {
        monitor: MonitorView { phase: PhaseView::Scanning, ..m },
        action: Action::Scan,
        notices: Seq::empty(),
    }
}

/// The end of a cycle: the monitor sleeps, and reports `notices`.
pub open spec fn sleep(m: MonitorView, notices: Seq<NoticeView>) -> StepView {
    StepView {
        monitor: MonitorView { phase: PhaseView::Sleeping, ..m },
        action: Action::Sleep { seconds: POLL_INTERVAL_SECONDS },
        notices,
    }
}

/// What follows when a process is done with: the next new process is looked
/// at, or, when none is left, the current scan becomes the previous one and
/// the monitor sleeps.
pub open spec fn proceed(m: MonitorView, notices: Seq<NoticeView>) -> StepView {
    if m.pending.len() > 0 {
        let pid = m.pending.first();
        StepView {
            monitor: MonitorView {
                pending: m.pending.drop_first(),
                phase: PhaseView::AwaitingCommand { pid },
                ..m
            },
            action: Action::ReadCommand { pid },
            notices,
        }
    } else {
        sleep(MonitorView { previous: m.current, current: Seq::empty(), ..m }, notices)
    }
}

/// What follows when the process table was listed: every process that the
/// previous scan did not hold is to be looked at.
pub open spec fn dispatch(m: MonitorView, ids: Seq<i32>) -> StepView {
    proceed(MonitorView { current: ids, pending: new_ids(ids, m.previous), ..m }, Seq::empty())
}

/// What follows when the owner of process `pid` is known: its priority is read
/// where a rule is for it.
pub open spec fn classify(m: MonitorView, pid: i32, command: Seq<char>, owner: Seq<char>) -> StepView {
    match matched_rule(command, owner, m.rules) {
        Some(rule) => StepView {
            monitor: MonitorView {
                phase: PhaseView::AwaitingPriority { pid, rule: rule as usize },
                ..m
            },
            action: Action::ReadPriority { pid },
            notices: seq![NoticeView::Matched { pid, command, owner }],
        },
        None => proceed(m, seq![NoticeView::Unmatched { pid, command, owner }]),
    }
}

/// What follows when the priority of process `pid` was read: the change that
/// the rule at `rule` makes due is asked for, or the process is done with.
pub open spec fn adjust(m: MonitorView, pid: i32, rule: usize, reading: PriorityReading) -> StepView {
    let notices = check_notices(pid, m.rules[rule as int], reading);
    match change_due(pid, m.rules[rule as int].nice, reading) {
        Some(change) => StepView {
            monitor: MonitorView { phase: PhaseView::AwaitingChange { change }, ..m },
            action: Action::SetPriority { pid, nice: change.to },
            notices,
        },
        None => proceed(m, notices),
    }
}

/// One step of the monitor: what it is after `event`, what it asks for next,
/// and what it reports.
///
/// An event that does not answer what the monitor asked for changes nothing:
/// the monitor asks again.
pub open spec fn step_of(m: MonitorView, event: EventView) -> StepView {
    match (m.phase, event) {
        (PhaseView::Idle, _) => scan(m),
        (PhaseView::Sleeping, EventView::Woke) => scan(m),
        (PhaseView::Scanning, EventView::Scanned(Ok(ids))) => dispatch(m, ids),
        (PhaseView::Scanning, EventView::Scanned(Err(reason))) => sleep(
            m,
            seq![NoticeView::ScanFailed { reason }],
        ),
        (PhaseView::AwaitingCommand { pid }, EventView::Command(Some(command))) => StepView {
            monitor: MonitorView { phase: PhaseView::AwaitingOwner { pid, command }, ..m },
            action: Action::ReadOwner { pid },
            notices: Seq::empty(),
        },
        (PhaseView::AwaitingCommand { pid }, EventView::Command(None)) => proceed(
            m,
            seq![NoticeView::CommandUnavailable { pid }],
        ),
        (PhaseView::AwaitingOwner { pid, command }, EventView::Owner(Some(owner))) => classify(
            m,
            pid,
            command,
            owner,
        ),
        (PhaseView::AwaitingOwner { pid, .. }, EventView::Owner(None)) => proceed(
            m,
            seq![NoticeView::OwnerUnavailable { pid }],
        ),
        (PhaseView::AwaitingPriority { pid, rule }, EventView::Priority(reading)) => adjust(
            m,
            pid,
            rule,
            reading,
        ),
        (PhaseView::AwaitingChange { change }, EventView::PrioritySet(outcome)) => proceed(
            m,
            change_notices(change, outcome),
        ),
        _ => StepView { monitor: m, action: awaited(m.phase), notices: Seq::empty() },
    }
}

/// The process that a monitor in `phase` is looking at, if it is at one.
pub open spec fn process_in_hand(phase: PhaseView) -> Option<i32> {
    match phase {
        PhaseView::AwaitingCommand { pid } => Some(pid),
        PhaseView::AwaitingOwner { pid, .. } => Some(pid),
        PhaseView::AwaitingPriority { pid, .. } => Some(pid),
        PhaseView::AwaitingChange { change } => Some(change.pid),
        _ => None,
    }
}

/// Whether `pid` is a process that the current scan found new: the current
/// scan holds it, the previous one does not.
pub open spec fn is_new(m: MonitorView, pid: i32) -> bool {
    m.current.contains(pid) && !m.previous.contains(pid)
}

/// What holds of every monitor, whatever it was told.
///
/// The process in hand and the processes still to be looked at are new: of the
/// current scan and not of the previous one. None of them is there twice.
/// Where no process is in hand, none waits. The rule that a process waits for
/// is a rule of the configuration.
pub open spec fn consistent(m: MonitorView) -> bool {
    &&& m.previous.no_duplicates()
    &&& m.current.no_duplicates()
    &&& m.pending.no_duplicates()
    &&& forall|i: int| 0 <= i < m.pending.len() ==> is_new(m, #[trigger] m.pending[i])
    &&& process_in_hand(m.phase) matches Some(pid) ==> is_new(m, pid) && !m.pending.contains(pid)
    &&& process_in_hand(m.phase) is None ==> m.pending.len() == 0 && m.current.len() == 0
    &&& m.phase matches PhaseView::AwaitingPriority { rule, .. } ==> rule < m.rules.len()
}

/// Whether an event is one that the program around the monitor can hand in: a
/// scan holds no process twice.
pub open spec fn well_formed(event: EventView) -> bool {
    event matches EventView::Scanned(Ok(ids)) ==> ids.no_duplicates()
}

/// When a process is done with, what follows is consistent again.
proof fn lemma_proceed_keeps_consistent(m: MonitorView, notices: Seq<NoticeView>)
    requires
        m.previous.no_duplicates(),
        m.current.no_duplicates(),
        m.pending.no_duplicates(),
        forall|i: int| 0 <= i < m.pending.len() ==> is_new(m, #[trigger] m.pending[i]),
    ensures
        consistent(proceed(m, notices).monitor),
{
    let after = proceed(m, notices).monitor;
    if m.pending.len() > 0 {
        let pid = m.pending.first();
        assert(is_new(m, m.pending[0]));
        assert forall|i: int| 0 <= i < after.pending.len() implies is_new(
            after,
            #[trigger] after.pending[i],
        ) by {
            assert(after.pending[i] == m.pending[i + 1]);
        }
        assert(!after.pending.contains(pid)) by {
            if after.pending.contains(pid) {
                let i = choose|i: int| 0 <= i < after.pending.len() && after.pending[i] == pid;
                assert(m.pending[i + 1] == m.pending[0]);
            }
        }
        assert(after.pending.no_duplicates()) by {
            assert forall|i: int, j: int|
                0 <= i < after.pending.len() && 0 <= j < after.pending.len() && i
                    != j implies after.pending[i] != after.pending[j] by {
                assert(m.pending[i + 1] != m.pending[j + 1]);
            }
        }
    }
}

/// A step keeps a monitor consistent.
pub proof fn lemma_step_keeps_consistent(m: MonitorView, event: EventView)
    requires
        consistent(m),
        well_formed(event),
    ensures
        consistent(step_of(m, event).monitor),
{
    match (m.phase, event) {
        (PhaseView::Scanning, EventView::Scanned(Ok(ids))) => {
            let found = MonitorView { current: ids, pending: new_ids(ids, m.previous), ..m };
            lemma_new_ids(ids, m.previous);
            assert forall|i: int| 0 <= i < found.pending.len() implies is_new(
                found,
                #[trigger] found.pending[i],
            ) by {
                lemma_new_id(ids, m.previous, found.pending[i]);
            }
            lemma_proceed_keeps_consistent(found, Seq::empty());
        },
        (PhaseView::AwaitingCommand { pid }, EventView::Command(None)) => {
            lemma_proceed_keeps_consistent(m, seq![NoticeView::CommandUnavailable { pid }]);
        },
        (PhaseView::AwaitingOwner { pid, command }, EventView::Owner(Some(owner))) => {
            lemma_proceed_keeps_consistent(m, seq![NoticeView::Unmatched { pid, command, owner }]);
        },
        (PhaseView::AwaitingOwner { pid, .. }, EventView::Owner(None)) => {
            lemma_proceed_keeps_consistent(m, seq![NoticeView::OwnerUnavailable { pid }]);
        },
        (PhaseView::AwaitingPriority { pid, rule }, EventView::Priority(reading)) => {
            lemma_proceed_keeps_consistent(m, check_notices(pid, m.rules[rule as int], reading));
        },
        (PhaseView::AwaitingChange { change }, EventView::PrioritySet(outcome)) => {
            lemma_proceed_keeps_consistent(m, change_notices(change, outcome));
        },
        _ => {},
    }
}

/// Whether the loop may be ended while `action` is what the monitor asks for:
/// before a scan and during the sleep, never while a process is in hand.
pub open spec fn interruptible(action: Action) -> bool {
    action is Scan || action is Sleep
}

impl Action {
    /// Tells whether the loop may be ended instead of doing what is asked.
    pub fn is_interruptible(&self) -> (r: bool)
        ensures
            r == interruptible(*self),
    {
        match self {
            Action::Scan => true,
            Action::Sleep { .. } => true,
            _ => false,
        }
    }
}

/// Ending the loop where it may be ended leaves nothing half done: no process
/// is in hand and none waits.
pub proof fn lemma_interruptible_is_between_cycles(m: MonitorView, event: EventView)
    requires
        consistent(m),
        well_formed(event),
        interruptible(step_of(m, event).action),
    ensures
        to_dispatch(step_of(m, event).monitor).len() == 0,
{
    lemma_step_keeps_consistent(m, event);
}

/// The processes that a monitor has still to deal with in this cycle: the one
/// in hand, then those that wait.
pub open spec fn to_dispatch(m: MonitorView) -> Seq<i32> {
    match process_in_hand(m.phase) {
        Some(pid) => seq![pid] + m.pending,
        None => m.pending,
    }
}

/// Whether `action` asks something about process `pid`.
pub open spec fn concerns(action: Action, pid: i32) -> bool {
    match action {
        Action::ReadCommand { pid: asked } => asked == pid,
        Action::ReadOwner { pid: asked } => asked == pid,
        Action::ReadPriority { pid: asked } => asked == pid,
        Action::SetPriority { pid: asked, .. } => asked == pid,
        _ => false,
    }
}

/// What a scan sets going is the set difference of two snapshots: the
/// processes that it holds and the previous scan did not, each once. A process
/// that left the table sets nothing going.
pub proof fn lemma_scan_dispatches_the_difference(m: MonitorView, ids: Seq<i32>)
    requires
        m.phase is Scanning,
    ensures
        to_dispatch(step_of(m, EventView::Scanned(Ok(ids))).monitor) == new_ids(ids, m.previous),
        to_dispatch(step_of(m, EventView::Scanned(Ok(ids))).monitor).to_set() == ids.to_set().difference(
            m.previous.to_set(),
        ),
        ids.no_duplicates() ==> to_dispatch(
            step_of(m, EventView::Scanned(Ok(ids))).monitor,
        ).no_duplicates(),
{
    let fresh = new_ids(ids, m.previous);
    let after = step_of(m, EventView::Scanned(Ok(ids))).monitor;
    lemma_new_ids(ids, m.previous);
    assert(to_dispatch(after) =~= fresh);
}

/// A scan that failed is reported, and the monitor sleeps as long as after any
/// other scan before it scans again. What it knows of the process table stays
/// as it was.
pub proof fn lemma_failed_scan_sleeps(m: MonitorView, reason: Seq<char>)
    requires
        m.phase is Scanning,
    ensures
        ({
            let step = step_of(m, EventView::Scanned(Err(reason)));
            &&& step.action == Action::Sleep { seconds: POLL_INTERVAL_SECONDS }
            &&& step.notices == seq![NoticeView::ScanFailed { reason }]
            &&& step.monitor.phase is Sleeping
            &&& step.monitor.previous == m.previous
            &&& step_of(step.monitor, EventView::Woke).action == Action::Scan
        }),
{
}

/// The monitor asks nothing about a process that the previous scan held: every
/// process that an action concerns is new.
pub proof fn lemma_only_new_processes_are_touched(m: MonitorView, event: EventView, pid: i32)
    requires
        consistent(m),
        well_formed(event),
        concerns(step_of(m, event).action, pid),
    ensures
        is_new(step_of(m, event).monitor, pid),
        !m.previous.contains(pid),
{
    lemma_step_keeps_consistent(m, event);
    let after = step_of(m, event).monitor;
    assert(process_in_hand(after.phase) == Some(pid));
    assert(after.previous == m.previous);
}

/// While the new processes of a scan are looked at, the two snapshots stay as
/// they are. When the last of them is done with, the current snapshot becomes
/// the previous one, so that it holds every process that was in hand.
pub proof fn lemma_cycle_end_records_scan(m: MonitorView, event: EventView, pid: i32)
    requires
        consistent(m),
        process_in_hand(m.phase) == Some(pid),
    ensures
        m.current.contains(pid),
        step_of(m, event).monitor.phase is Sleeping ==> step_of(m, event).monitor.previous
            == m.current,
        !(step_of(m, event).monitor.phase is Sleeping) ==> step_of(m, event).monitor.previous
            == m.previous && step_of(m, event).monitor.current == m.current,
{
}

/// A process that the previous scan held is not new, whatever the next scan
/// holds: it is not looked at again.
pub proof fn lemma_seen_is_not_new(m: MonitorView, ids: Seq<i32>, pid: i32)
    requires
        m.phase is Scanning,
        m.previous.contains(pid),
    ensures
        !to_dispatch(step_of(m, EventView::Scanned(Ok(ids))).monitor).contains(pid),
{
    lemma_scan_dispatches_the_difference(m, ids);
    lemma_new_id(ids, m.previous, pid);
}

/// A change that the system refused is reported with the system's reason, and
/// that is the end of it: the monitor goes on to the next process or to sleep,
/// and the process is neither in hand nor waiting any more.
pub proof fn lemma_refused_change_is_final(m: MonitorView, change: PriorityChange, reason: Seq<char>)
    requires
        consistent(m),
        m.phase == (PhaseView::AwaitingChange { change }),
    ensures
        ({
            let step = step_of(m, EventView::PrioritySet(Err(reason)));
            &&& step.notices == change_notices(change, Err(reason))
            &&& step.notices[0] == NoticeView::AdjustFailed { pid: change.pid, reason }
            &&& step.action is ReadCommand || step.action is Sleep
            &&& !to_dispatch(step.monitor).contains(change.pid)
        }),
{
    let step = step_of(m, EventView::PrioritySet(Err(reason)));
    if m.pending.len() > 0 {
        let next = m.pending.first();
        assert(m.pending.contains(next));
        if to_dispatch(step.monitor).contains(change.pid) {
            let i = choose|i: int|
                0 <= i < to_dispatch(step.monitor).len() && to_dispatch(step.monitor)[i]
                    == change.pid;
            assert(m.pending[i] == change.pid);
        }
    }
}

/// Where in its cycle a monitor is.
#[derive(Debug)]
enum Phase {
    Idle,
    Scanning,
    AwaitingCommand { pid: i32 },
    AwaitingOwner { pid: i32, command: String },
    AwaitingPriority { pid: i32, rule: usize },
    AwaitingChange { change: PriorityChange },
    Sleeping,
}

impl View for Phase {
    type V = PhaseView;

    closed spec fn view(&self) -> PhaseView {
        match *self {
            Phase::Idle => PhaseView::Idle,
            Phase::Scanning => PhaseView::Scanning,
            Phase::AwaitingCommand { pid } => PhaseView::AwaitingCommand { pid },
            Phase::AwaitingOwner { pid, command } => PhaseView::AwaitingOwner { pid, command: command@ },
            Phase::AwaitingPriority { pid, rule } => PhaseView::AwaitingPriority { pid, rule },
            Phase::AwaitingChange { change } => PhaseView::AwaitingChange { change },
            Phase::Sleeping => PhaseView::Sleeping,
        }
    }
}

/// The detection loop, between two of its steps.
#[derive(Debug)]
pub struct Monitor<'a> {
    config: &'a Config,
    previous: ProcessSnapshot,
    current: ProcessSnapshot,
    /// The new processes that are still to be looked at, the next one last.
    pending: Vec<i32>,
    phase: Phase,
}

/// What a monitor is, asks for and reports after a step.
#[derive(Debug)]
pub struct Step<'a> {
    /// The monitor after the step.
    pub monitor: Monitor<'a>,
    /// What the monitor asks for next.
    pub action: Action,
    /// What the monitor reports, in order.
    pub notices: Vec<Notice>,
}

impl<'a> View for Monitor<'a> {
    type V = MonitorView;

    closed spec fn view(&self) -> MonitorView {
        MonitorView {
            rules: self.config@,
            previous: self.previous.ids(),
            current: self.current.ids(),
            pending: self.pending@.reverse(),
            phase: self.phase@,
        }
    }
}

impl<'a> View for Step<'a> {
    type V = StepView;

    open spec fn view(&self) -> StepView {
        StepView { monitor: self.monitor@, action: self.action, notices: notices_of(self.notices@) }
    }
}

/// The list `ids` read from its end.
fn reversed(ids: Vec<i32>) -> (r: Vec<i32>)
    ensures
        r@ == ids@.reverse(),
{
    let mut ids = ids;
    let ghost whole = ids@;
    let mut r: Vec<i32> = Vec::new();
    while ids.len() > 0
        invariant
            ids@.len() + r@.len() == whole.len(),
            ids@ == whole.take(ids@.len() as int),
            r@ == whole.reverse().take(r@.len() as int),
        decreases ids.len(),
    {
        let last = ids.pop();
        if let Some(id) = last {
            r.push(id);
        }
        assert(ids@ =~= whole.take(ids@.len() as int));
        assert(r@ =~= whole.reverse().take(r@.len() as int));
    }
    assert(r@ =~= whole.reverse());
    r
}

impl<'a> Monitor<'a> {
    #[verifier::type_invariant]
    spec fn sound(self) -> bool {
        consistent(self@)
    }

    /// A monitor over the rules of `config` that has done nothing yet. Its
    /// first step, whatever it is told, asks for the process table.
    pub fn new(config: &'a Config) -> (monitor: Self)
        ensures
            monitor@ == initial(config@),
    {
        let monitor = Monitor {
            config,
            previous: ProcessSnapshot::new(),
            current: ProcessSnapshot::new(),
            pending: Vec::new(),
            phase: Phase::Idle,
        };
        assert(monitor@.pending =~= Seq::<i32>::empty());
        monitor
    }

    /// A monitor is consistent, whatever it was told.
    pub fn is_consistent(&self)
        ensures
            consistent(self@),
    {
        proof {
            use_type_invariant(self);
        }
    }

    /// Takes one step: hears what came of the last thing the monitor asked
    /// for, and says what it asks for next and what it reports.
    pub fn step(self, event: Event) -> (step: Step<'a>)
        ensures
            step@ == step_of(self@, event@),
    {
        event_is_well_formed(&event);
        proof {
            use_type_invariant(&self);
            lemma_step_keeps_consistent(self@, event@);
        }
        let ghost before = self@;
        let ghost told = event@;
        let Monitor { config, previous, current, pending, phase } = self;
        let step = match (phase, event) {
            (Phase::Idle, _) | (Phase::Sleeping, Event::Woke) => Step {
                monitor: Monitor { config, previous, current, pending, phase: Phase::Scanning },
                action: Action::Scan,
                notices: Vec::new(),
            },
            (Phase::Scanning, Event::Scanned(Ok(snapshot))) => {
                let fresh = snapshot.difference(&previous);
                let pending = reversed(fresh);
                assert(pending@.reverse() =~= new_ids(snapshot.ids(), previous.ids()));
                Self::proceed(
                    config,
                    previous,
                    snapshot,
                    pending,
                    Vec::new(),
                    Ghost(PhaseView::Scanning),
                )
            },
            (Phase::Scanning, Event::Scanned(Err(reason))) => {
                let mut notices: Vec<Notice> = Vec::new();
                notices.push(Notice::ScanFailed { reason });
                assert(notices_of(notices@) =~= seq![NoticeView::ScanFailed { reason: reason@ }]);
                Step {
                    monitor: Monitor { config, previous, current, pending, phase: Phase::Sleeping },
                    action: Action::Sleep { seconds: POLL_INTERVAL_SECONDS },
                    notices,
                }
            },
            (Phase::AwaitingCommand { pid }, Event::Command(Some(command))) => Step {
                monitor: Monitor {
                    config,
                    previous,
                    current,
                    pending,
                    phase: Phase::AwaitingOwner { pid, command },
                },
                action: Action::ReadOwner { pid },
                notices: Vec::new(),
            },
            (Phase::AwaitingCommand { pid }, Event::Command(None)) => {
                let mut notices: Vec<Notice> = Vec::new();
                notices.push(Notice::CommandUnavailable { pid });
                assert(notices_of(notices@) =~= seq![NoticeView::CommandUnavailable { pid }]);
                Self::proceed(config, previous, current, pending, notices, Ghost(before.phase))
            },
            (Phase::AwaitingOwner { pid, command }, Event::Owner(Some(owner))) => {
                let matcher = ProcessMatcher::new(config);
                let found = matcher.match_index(command.as_str(), owner.as_str());
                let mut notices: Vec<Notice> = Vec::new();
                match found {
                    Some(rule) => {
                        notices.push(Notice::Matched { pid, command, owner });
                        assert(notices_of(notices@) =~= seq![
                            NoticeView::Matched { pid, command: command@, owner: owner@ },
                        ]);
                        Step {
                            monitor: Monitor {
                                config,
                                previous,
                                current,
                                pending,
                                phase: Phase::AwaitingPriority { pid, rule },
                            },
                            action: Action::ReadPriority { pid },
                            notices,
                        }
                    },
                    None => {
                        notices.push(Notice::Unmatched { pid, command, owner });
                        assert(notices_of(notices@) =~= seq![
                            NoticeView::Unmatched { pid, command: command@, owner: owner@ },
                        ]);
                        Self::proceed(
                            config,
                            previous,
                            current,
                            pending,
                            notices,
                            Ghost(before.phase),
                        )
                    },
                }
            },
            (Phase::AwaitingOwner { pid, command }, Event::Owner(None)) => {
                let mut notices: Vec<Notice> = Vec::new();
                notices.push(Notice::OwnerUnavailable { pid });
                assert(notices_of(notices@) =~= seq![NoticeView::OwnerUnavailable { pid }]);
                Self::proceed(config, previous, current, pending, notices, Ghost(before.phase))
            },
            (Phase::AwaitingPriority { pid, rule }, Event::Priority(reading)) => {
                let adjuster = Adjuster::new(config);
                let adjustment = adjuster.check_and_adjust_nice_value(
                    pid,
                    &config.process[rule],
                    reading,
                );
                match adjustment.change {
                    Some(change) => Step {
                        monitor: Monitor {
                            config,
                            previous,
                            current,
                            pending,
                            phase: Phase::AwaitingChange { change },
                        },
                        action: Action::SetPriority { pid, nice: change.to },
                        notices: adjustment.notices,
                    },
                    None => Self::proceed(
                        config,
                        previous,
                        current,
                        pending,
                        adjustment.notices,
                        Ghost(before.phase),
                    ),
                }
            },
            (Phase::AwaitingChange { change }, Event::PrioritySet(outcome)) => {
                let adjuster = Adjuster::new(config);
                let notices = adjuster.conclude_adjustment(change, outcome);
                Self::proceed(config, previous, current, pending, notices, Ghost(before.phase))
            },
            (phase, _) => {
                let action = Self::awaited_action(&phase);
                Step {
                    monitor: Monitor { config, previous, current, pending, phase },
                    action,
                    notices: Vec::new(),
                }
            },
        };
        assert(step@ =~~= step_of(before, told));
        step
    }

    /// What a monitor in `phase` has asked for.
    fn awaited_action(phase: &Phase) -> (action: Action)
        ensures
            action == awaited(phase@),
    {
        match phase {
            Phase::Idle => Action::Scan,
            Phase::Scanning => Action::Scan,
            Phase::AwaitingCommand { pid } => Action::ReadCommand { pid: *pid },
            Phase::AwaitingOwner { pid, .. } => Action::ReadOwner { pid: *pid },
            Phase::AwaitingPriority { pid, .. } => Action::ReadPriority { pid: *pid },
            Phase::AwaitingChange { change } => Action::SetPriority {
                pid: change.pid,
                nice: change.to,
            },
            Phase::Sleeping => Action::Sleep { seconds: POLL_INTERVAL_SECONDS },
        }
    }

    /// Goes on to the next new process, or to sleep when none is left.
    fn proceed(
        config: &'a Config,
        previous: ProcessSnapshot,
        current: ProcessSnapshot,
        pending: Vec<i32>,
        notices: Vec<Notice>,
        Ghost(phase): Ghost<PhaseView>,
    ) -> (step: Step<'a>)
        requires
            consistent(
                proceed(
                    MonitorView {
                        rules: config@,
                        previous: previous.ids(),
                        current: current.ids(),
                        pending: pending@.reverse(),
                        phase,
                    },
                    notices_of(notices@),
                ).monitor,
            ),
        ensures
            step@ == proceed(
                MonitorView {
                    rules: config@,
                    previous: previous.ids(),
                    current: current.ids(),
                    pending: pending@.reverse(),
                    phase,
                },
                notices_of(notices@),
            ),
    {
        let mut pending = pending;
        let ghost queue = pending@.reverse();
        match pending.pop() {
            Some(pid) => {
                assert(pid == queue.first());
                assert(pending@.reverse() =~= queue.drop_first());
                Step {
                    monitor: Monitor {
                        config,
                        previous,
                        current,
                        pending,
                        phase: Phase::AwaitingCommand { pid },
                    },
                    action: Action::ReadCommand { pid },
                    notices,
                }
            },
            None => {
                assert(queue.len() == 0);
                let empty = ProcessSnapshot::new();
                Step {
                    monitor: Monitor {
                        config,
                        previous: current,
                        current: empty,
                        pending,
                        phase: Phase::Sleeping,
                    },
                    action: Action::Sleep { seconds: POLL_INTERVAL_SECONDS },
                    notices,
                }
            },
        }
    }
}

/// An event that the program hands in is well formed: a snapshot holds no
/// process twice.
fn event_is_well_formed(event: &Event)
    ensures
        well_formed(event@),
{
    match event {
        Event::Scanned(Ok(snapshot)) => {
            snapshot.ids_are_distinct();
        },
        _ => {},
    }
}

} // verus!
