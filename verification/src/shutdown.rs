//! From the interrupt to the exit: the order in which a run is taken down.
//!
//! The coordinator waits for the interrupt, has every process killed that
//! has not exited by itself, one after the other and whatever became of
//! the kills before, reports, and only then has an ephemeral workspace
//! removed. It performs nothing itself: it names the one thing to do next
//! ([`Coordinator::pending`]), and the caller reports how that went
//! ([`Coordinator::step`]).

use vstd::prelude::*;
use crate::workspace::Durability;

verus! {

/// Where the shutdown stands.
#[derive(Clone, Copy, Debug, PartialEq, Eq, Structural)]
pub enum Phase {
    /// The processes run; the run waits for the interrupt.
    Running,
    /// The interrupt has arrived; nothing has been killed yet.
    ShutdownRequested,
    /// The processes are being killed, in the order in which they were started.
    Terminating,
    /// Every process has had its turn.
    Terminated,
    /// The ephemeral workspace is gone.
    CleanedUp,
    /// Nothing is left to do, and the workspace stays.
    Idle,
}

/// What the caller reports.
#[derive(Clone, Copy, Debug, PartialEq, Eq, Structural)]
pub enum ShutdownEvent {
    /// The operator asked for the end of the run.
    Interrupt,
    /// The run cannot go on: a failure after the first process was started.
    Fatal,
    /// What was asked for has been done.
    Completed,
    /// What was asked for has failed.
    Failed,
    /// The process to kill had exited by itself: there was nothing to kill.
    Exited,
}

/// What the caller is asked to do.
#[derive(Clone, Copy, Debug, PartialEq, Eq, Structural)]
pub enum ShutdownAction {
    /// Wait for the interrupt.
    Wait,
    /// Tell the operator that the run is being taken down.
    Announce,
    /// Kill the process with this number, counted from zero in the order
    /// in which the processes were started, unless it has exited by itself.
    Kill(usize),
    /// Tell the operator what became of the processes.
    Report,
    /// Remove the workspace and all it holds.
    RemoveWorkspace,
    /// End the run with this exit code.
    Exit(u8),
}

/// What became of one process at the shutdown.
#[derive(Clone, Copy, Debug, PartialEq, Eq, Structural)]
pub enum Outcome {
    /// It was killed.
    Killed,
    /// It had exited by itself.
    Exited,
    /// The kill failed.
    KillFailed,
}

/// The state of a shutdown, as mathematics.
pub struct Session {
    pub phase: Phase,
    /// Whether the workspace is removed at the end.
    pub ephemeral: bool,
    /// The number of processes that were started.
    pub total: nat,
    /// What became of the processes that have had their turn, in the
    /// order in which they were started.
    pub outcomes: Seq<Outcome>,
    /// Whether the operator has been told what became of the processes.
    pub reported: bool,
    /// Whether nothing but kills has failed so far.
    pub clean: bool,
}

/// The session of a run that has started `total` processes.
pub open spec fn session_start(ephemeral: bool, total: nat) -> Session {
    Session {
        phase: Phase::Running,
        ephemeral,
        total,
        outcomes: Seq::empty(),
        reported: false,
        clean: true,
    }
}

/// The phase once `settled` of `total` processes have had their turn.
pub open spec fn phase_after_kills(settled: nat, total: nat) -> Phase {
    if settled >= total {
        Phase::Terminated
    } else {
        Phase::Terminating
    }
}

/// What a report says of the process whose turn it is, if anything.
pub open spec fn outcome_of(event: ShutdownEvent) -> Option<Outcome> {
    match event {
        ShutdownEvent::Completed => Some(Outcome::Killed),
        ShutdownEvent::Failed => Some(Outcome::KillFailed),
        ShutdownEvent::Exited => Some(Outcome::Exited),
        _ => None,
    }
}

/// The session after `event`. The interrupt counts once: while the run
/// is taken down, and after, another interrupt changes nothing. A failed
/// kill is noted and the next process has its turn all the same. The
/// workspace is asked to be removed only after the report, which comes
/// only after the last process has had its turn.
pub open spec fn session_next(s: Session, event: ShutdownEvent) -> Session {
    match s.phase {
        Phase::Running => match event {
            ShutdownEvent::Interrupt => Session { phase: Phase::ShutdownRequested, ..s },
            ShutdownEvent::Fatal => Session { phase: Phase::ShutdownRequested, clean: false, ..s },
            _ => s,
        },
        Phase::ShutdownRequested => match event {
            ShutdownEvent::Completed | ShutdownEvent::Failed => Session {
                phase: phase_after_kills(0, s.total),
                ..s
            },
            _ => s,
        },
        Phase::Terminating => match outcome_of(event) {
            Some(outcome) => Session {
                phase: phase_after_kills(s.outcomes.len() + 1, s.total),
                outcomes: s.outcomes.push(outcome),
                ..s
            },
            None => s,
        },
        Phase::Terminated => match event {
            ShutdownEvent::Completed | ShutdownEvent::Failed => {
                if !s.reported {
                    Session {
                        phase: if s.ephemeral {
                            Phase::Terminated
                        } else {
                            Phase::Idle
                        },
                        reported: true,
                        ..s
                    }
                } else if event == ShutdownEvent::Completed {
                    Session { phase: Phase::CleanedUp, ..s }
                } else {
                    Session { phase: Phase::Idle, clean: false, ..s }
                }
            },
            _ => s,
        },
        Phase::CleanedUp => s,
        Phase::Idle => s,
    }
}

/// The numbers, ascending, of those of the first `count` processes whose
/// kill failed.
pub open spec fn failed_among(outcomes: Seq<Outcome>, count: int) -> Seq<nat>
    decreases count,
{
    if count <= 0 {
        Seq::empty()
    } else {
        let before = failed_among(outcomes, count - 1);
        if outcomes[count - 1] == Outcome::KillFailed {
            before.push((count - 1) as nat)
        } else {
            before
        }
    }
}

/// The numbers, ascending, of the processes whose kill failed.
pub open spec fn failures_of(s: Session) -> Seq<nat> {
    failed_among(s.outcomes, s.outcomes.len() as int)
}

/// The exit code of a session: zero if nothing has failed.
pub open spec fn exit_code(s: Session) -> u8 {
    if s.clean && failures_of(s).len() == 0 {
        0
    } else {
        1
    }
}

/// What the session asks the caller to do.
pub open spec fn session_action(s: Session) -> ShutdownAction {
    match s.phase {
        Phase::Running => ShutdownAction::Wait,
        Phase::ShutdownRequested => ShutdownAction::Announce,
        Phase::Terminating => ShutdownAction::Kill(s.outcomes.len() as usize),
        Phase::Terminated => if !s.reported {
            ShutdownAction::Report
        } else {
            ShutdownAction::RemoveWorkspace
        },
        Phase::CleanedUp => ShutdownAction::Exit(exit_code(s)),
        Phase::Idle => ShutdownAction::Exit(exit_code(s)),
    }
}

/// The session after all of `events`, in order.
pub open spec fn session_after(s: Session, events: Seq<ShutdownEvent>) -> Session
    decreases events.len(),
{
    if events.len() == 0 {
        s
    } else {
        session_next(session_after(s, events.drop_last()), events.last())
    }
}

/// What holds of every session that a run can reach: no process has its
/// turn before the interrupt; while processes are being killed there is
/// one left; after that every process has had its turn; and a workspace
/// is removed, or waiting to be, only if it is ephemeral.
pub open spec fn session_inv(s: Session) -> bool {
    &&& s.outcomes.len() <= s.total
    &&& s.total <= usize::MAX
    &&& (s.phase == Phase::Running || s.phase == Phase::ShutdownRequested) ==> s.outcomes.len()
        == 0 && !s.reported
    &&& s.phase == Phase::Terminating ==> s.outcomes.len() < s.total && !s.reported
    &&& (s.phase == Phase::Terminated || s.phase == Phase::CleanedUp || s.phase == Phase::Idle)
        ==> s.outcomes.len() == s.total
    &&& s.phase == Phase::Terminated && s.reported ==> s.ephemeral
    &&& s.phase == Phase::CleanedUp ==> s.ephemeral && s.reported
    &&& s.phase == Phase::Idle ==> s.reported
}

/// The shutdown of one run.
#[derive(Debug)]
pub struct Coordinator {
    phase: Phase,
    ephemeral: bool,
    total: usize,
    outcomes: Vec<Outcome>,
    reported: bool,
    clean: bool,
}

impl View for Coordinator {
    type V = Session;

    closed spec fn view(&self) -> Session {
        Session {
            phase: self.phase,
            ephemeral: self.ephemeral,
            total: self.total as nat,
            outcomes: self.outcomes@,
            reported: self.reported,
            clean: self.clean,
        }
    }
}

impl Coordinator {
    /// The coordinator of a run that has started `total` processes in a
    /// workspace of the given durability.
    pub fn new(durability: Durability, total: usize) -> (c: Coordinator)
        ensures
            c@ == session_start(durability == Durability::Ephemeral, total as nat),
            session_inv(c@),
    {
        Coordinator {
            phase: Phase::Running,
            ephemeral: durability == Durability::Ephemeral,
            total,
            outcomes: Vec::new(),
            reported: false,
            clean: true,
        }
    }

    /// Where the shutdown stands.
    pub fn phase(&self) -> (phase: Phase)
        ensures
            phase == self@.phase,
    {
        self.phase
    }

    /// What became of the processes that have had their turn, in the
    /// order in which they were started.
    pub fn outcomes(&self) -> (outcomes: &Vec<Outcome>)
        ensures
            outcomes@ == self@.outcomes,
    {
        &self.outcomes
    }

    /// The numbers of the processes whose kill has failed, ascending.
    pub fn failures(&self) -> (failed: Vec<usize>)
        ensures
            failed@.len() == failures_of(self@).len(),
            forall|i: int|
                0 <= i < failed@.len() ==> (#[trigger] failed@[i]) as nat == failures_of(self@)[i],
    {
        let mut failed: Vec<usize> = Vec::new();
        let mut i: usize = 0;
        while i < self.outcomes.len()
            invariant
                i <= self.outcomes.len(),
                failed@.len() == failed_among(self.outcomes@, i as int).len(),
                forall|j: int|
                    0 <= j < failed@.len() ==> (#[trigger] failed@[j]) as nat == failed_among(
                        self.outcomes@,
                        i as int,
                    )[j],
            decreases self.outcomes.len() - i,
        {
            if self.outcomes[i] == Outcome::KillFailed {
                failed.push(i);
            }
            i = i + 1;
        }
        failed
    }

    /// What the caller is asked to do now. The removal of the workspace
    /// is asked for only when the workspace is ephemeral and every
    /// process has had its turn.
    pub fn pending(&self) -> (action: ShutdownAction)
        ensures
            action == session_action(self@),
            session_inv(self@) && action == ShutdownAction::RemoveWorkspace ==> self@.ephemeral
                && self@.outcomes.len() == self@.total,
    {
        match self.phase {
            Phase::Running => ShutdownAction::Wait,
            Phase::ShutdownRequested => ShutdownAction::Announce,
            Phase::Terminating => ShutdownAction::Kill(self.outcomes.len()),
            Phase::Terminated => if !self.reported {
                ShutdownAction::Report
            } else {
                ShutdownAction::RemoveWorkspace
            },
            _ => {
                let failed = self.failures();
                if self.clean && failed.len() == 0 {
                    ShutdownAction::Exit(0)
                } else {
                    ShutdownAction::Exit(1)
                }
            },
        }
    }

    /// Takes in what the caller reports and returns what to do next. A
    /// well-formed session stays well formed.
    pub fn step(&mut self, event: ShutdownEvent) -> (action: ShutdownAction)
        ensures
            final(self)@ == session_next(old(self)@, event),
            session_inv(old(self)@) ==> session_inv(final(self)@),
            action == session_action(final(self)@),
    {
        proof {
            if session_inv(self@) {
                lemma_next_keeps_inv(self@, event);
            }
        }
        match self.phase {
            Phase::Running => match event {
                ShutdownEvent::Interrupt => {
                    self.phase = Phase::ShutdownRequested;
                },
                ShutdownEvent::Fatal => {
                    self.phase = Phase::ShutdownRequested;
                    self.clean = false;
                },
                _ => {},
            },
            Phase::ShutdownRequested => match event {
                ShutdownEvent::Completed | ShutdownEvent::Failed => {
                    self.phase = if self.total == 0 {
                        Phase::Terminated
                    } else {
                        Phase::Terminating
                    };
                },
                _ => {},
            },
            Phase::Terminating => {
                let outcome = match event {
                    ShutdownEvent::Completed => Some(Outcome::Killed),
                    ShutdownEvent::Failed => Some(Outcome::KillFailed),
                    ShutdownEvent::Exited => Some(Outcome::Exited),
                    _ => None,
                };
                if let Some(outcome) = outcome {
                    self.outcomes.push(outcome);
                    self.phase = if self.outcomes.len() >= self.total {
                        Phase::Terminated
                    } else {
                        Phase::Terminating
                    };
                }
            },
            Phase::Terminated => match event {
                ShutdownEvent::Completed | ShutdownEvent::Failed => {
                    if !self.reported {
                        self.reported = true;
                        if !self.ephemeral {
                            self.phase = Phase::Idle;
                        }
                    } else if event == ShutdownEvent::Completed {
                        self.phase = Phase::CleanedUp;
                    } else {
                        self.phase = Phase::Idle;
                        self.clean = false;
                    }
                },
                _ => {},
            },
            _ => {},
        }
        self.pending()
    }
}

/// Every step keeps what holds of every session.
pub proof fn lemma_next_keeps_inv(s: Session, event: ShutdownEvent)
    requires
        session_inv(s),
    ensures
        session_inv(session_next(s, event)),
{
}

/// One more event is one more step.
proof fn lemma_session_after_unfold(s: Session, events: Seq<ShutdownEvent>, k: int)
    requires
        0 <= k < events.len(),
    ensures
        session_after(s, events.take(k + 1)) == session_next(
            session_after(s, events.take(k)),
            events[k],
        ),
{
    assert(events.take(k + 1).drop_last() =~= events.take(k));
    assert(events.take(k + 1).last() == events[k]);
}

/// Whatever is reported, in whatever order, the session stays well
/// formed.
pub proof fn lemma_reachable_sessions_are_well_formed(
    ephemeral: bool,
    total: nat,
    events: Seq<ShutdownEvent>,
)
    requires
        total <= usize::MAX,
    ensures
        session_inv(session_after(session_start(ephemeral, total), events)),
    decreases events.len(),
{
    if events.len() > 0 {
        lemma_reachable_sessions_are_well_formed(ephemeral, total, events.drop_last());
        lemma_next_keeps_inv(
            session_after(session_start(ephemeral, total), events.drop_last()),
            events.last(),
        );
    }
}

/// No event changes the durability of the workspace or the number of
/// processes.
pub proof fn lemma_settings_stay(ephemeral: bool, total: nat, events: Seq<ShutdownEvent>)
    ensures
        session_after(session_start(ephemeral, total), events).ephemeral == ephemeral,
        session_after(session_start(ephemeral, total), events).total == total,
    decreases events.len(),
{
    if events.len() > 0 {
        lemma_settings_stay(ephemeral, total, events.drop_last());
    }
}

/// The workspace goes last: whatever is reported, in whatever order, the
/// removal of the workspace is asked for only if the workspace is
/// ephemeral, every process has had its turn and the operator has been
/// told what became of them; and the workspace counts as cleaned up only
/// from the moment its removal is reported as done.
pub proof fn lemma_workspace_removed_last(
    ephemeral: bool,
    total: nat,
    events: Seq<ShutdownEvent>,
    k: int,
)
    requires
        total <= usize::MAX,
        0 <= k < events.len(),
    ensures
        ({
            let before = session_after(session_start(ephemeral, total), events.take(k));
            let after = session_after(session_start(ephemeral, total), events.take(k + 1));
            &&& session_action(before) == ShutdownAction::RemoveWorkspace ==> ephemeral
                && before.outcomes.len() == total && before.reported
            &&& after.phase == Phase::CleanedUp && before.phase != Phase::CleanedUp
                ==> session_action(before) == ShutdownAction::RemoveWorkspace && events[k]
                == ShutdownEvent::Completed
            &&& !ephemeral ==> after.phase != Phase::CleanedUp
        }),
{
    lemma_reachable_sessions_are_well_formed(ephemeral, total, events.take(k));
    lemma_reachable_sessions_are_well_formed(ephemeral, total, events.take(k + 1));
    lemma_session_after_unfold(session_start(ephemeral, total), events, k);
    lemma_settings_stay(ephemeral, total, events.take(k));
    lemma_settings_stay(ephemeral, total, events.take(k + 1));
}

/// The interrupt counts once: once the run is being taken down, another
/// interrupt changes nothing.
pub proof fn lemma_interrupt_counts_once(s: Session)
    requires
        s.phase != Phase::Running,
    ensures
        session_next(s, ShutdownEvent::Interrupt) == s,
{
}

/// The session in which the first process is about to have its turn.
pub open spec fn kills_begin(s: Session) -> bool {
    &&& s.phase == Phase::Terminating
    &&& s.outcomes.len() == 0
    &&& s.total > 0
    &&& !s.reported
}

/// Whether every one of `reports` says what became of a process.
pub open spec fn all_outcomes(reports: Seq<ShutdownEvent>) -> bool {
    forall|i: int| 0 <= i < reports.len() ==> outcome_of(#[trigger] reports[i]).is_some()
}

/// Group termination is complete: when the kills begin and `done` of
/// them have been reported, with whatever result, then `done` processes
/// have had their turn, what became of each is on record, and the next
/// one asked for is the process number `done`. After the last report
/// every process has had its turn.
pub proof fn lemma_every_process_has_its_turn(s: Session, reports: Seq<ShutdownEvent>, done: int)
    requires
        kills_begin(s),
        all_outcomes(reports),
        reports.len() == s.total,
        s.total <= usize::MAX,
        0 <= done <= reports.len(),
    ensures
        ({
            let now = session_after(s, reports.take(done));
            &&& now.outcomes.len() == done
            &&& forall|i: int|
                0 <= i < done ==> Some(#[trigger] now.outcomes[i]) == outcome_of(reports[i])
            &&& done < s.total ==> session_action(now) == ShutdownAction::Kill(done as usize)
            &&& done == s.total ==> now.phase == Phase::Terminated
            &&& now.total == s.total
            &&& !now.reported
        }),
    decreases done,
{
    if done > 0 {
        lemma_every_process_has_its_turn(s, reports, done - 1);
        lemma_session_after_unfold(s, reports, done - 1);
        assert(outcome_of(reports[done - 1]).is_some());
    } else {
        assert(reports.take(0) =~= Seq::<ShutdownEvent>::empty());
    }
}

/// The failures on record are the kills that failed, no more and no fewer.
pub proof fn lemma_failures_are_the_failed_kills(outcomes: Seq<Outcome>, count: int, i: nat)
    requires
        0 <= count <= outcomes.len(),
    ensures
        failed_among(outcomes, count).contains(i) <==> (i < count && outcomes[i as int]
            == Outcome::KillFailed),
    decreases count,
{
    if count > 0 {
        lemma_failures_are_the_failed_kills(outcomes, count - 1, i);
        let before = failed_among(outcomes, count - 1);
        if outcomes[count - 1] == Outcome::KillFailed {
            let now = before.push((count - 1) as nat);
            assert(now[now.len() - 1] == (count - 1) as nat);
            if before.contains(i) {
                let k = choose|k: int| 0 <= k < before.len() && before[k] == i;
                assert(now[k] == i);
            }
            if now.contains(i) {
                let k = choose|k: int| 0 <= k < now.len() && now[k] == i;
                if k < before.len() {
                    assert(before[k] == i);
                }
            }
        }
    }
}

} // verus!
