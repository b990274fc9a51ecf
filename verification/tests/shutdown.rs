use local_polkadot::shutdown::{Coordinator, Outcome, Phase, ShutdownAction, ShutdownEvent};
use local_polkadot::workspace::Durability;

#[test]
fn run_waits_for_the_interrupt() {
    let mut c = Coordinator::new(Durability::Persistent, 2);
    assert_eq!(c.phase(), Phase::Running);
    assert_eq!(c.pending(), ShutdownAction::Wait);
    assert_eq!(c.step(ShutdownEvent::Completed), ShutdownAction::Wait);
    assert_eq!(c.step(ShutdownEvent::Failed), ShutdownAction::Wait);
    assert_eq!(c.phase(), Phase::Running);
}

#[test]
fn clean_shutdown_of_a_persistent_run() {
    let mut c = Coordinator::new(Durability::Persistent, 2);
    assert_eq!(c.step(ShutdownEvent::Interrupt), ShutdownAction::Announce);
    assert_eq!(c.phase(), Phase::ShutdownRequested);
    assert_eq!(c.step(ShutdownEvent::Completed), ShutdownAction::Kill(0));
    assert_eq!(c.phase(), Phase::Terminating);
    assert_eq!(c.step(ShutdownEvent::Completed), ShutdownAction::Kill(1));
    assert_eq!(c.step(ShutdownEvent::Completed), ShutdownAction::Report);
    assert_eq!(c.phase(), Phase::Terminated);
    assert_eq!(c.step(ShutdownEvent::Completed), ShutdownAction::Exit(0));
    assert_eq!(c.phase(), Phase::Idle);
    assert!(c.failures().is_empty());
}

#[test]
fn fresh_ephemeral_run_end_to_end() {
    let mut c = Coordinator::new(Durability::Ephemeral, 2);
    let mut asked = vec![c.pending()];
    for event in [
        ShutdownEvent::Interrupt,
        ShutdownEvent::Completed,
        ShutdownEvent::Completed,
        ShutdownEvent::Completed,
        ShutdownEvent::Completed,
        ShutdownEvent::Completed,
    ] {
        asked.push(c.step(event));
    }
    assert_eq!(
        asked,
        vec![
            ShutdownAction::Wait,
            ShutdownAction::Announce,
            ShutdownAction::Kill(0),
            ShutdownAction::Kill(1),
            ShutdownAction::Report,
            ShutdownAction::RemoveWorkspace,
            ShutdownAction::Exit(0),
        ]
    );
    assert_eq!(c.phase(), Phase::CleanedUp);
}

#[test]
fn failed_kill_does_not_stop_the_others() {
    let mut c = Coordinator::new(Durability::Persistent, 3);
    c.step(ShutdownEvent::Interrupt);
    assert_eq!(c.step(ShutdownEvent::Completed), ShutdownAction::Kill(0));
    assert_eq!(c.step(ShutdownEvent::Completed), ShutdownAction::Kill(1));
    assert_eq!(c.step(ShutdownEvent::Failed), ShutdownAction::Kill(2));
    assert_eq!(c.step(ShutdownEvent::Completed), ShutdownAction::Report);
    assert_eq!(c.outcomes(), &vec![Outcome::Killed, Outcome::KillFailed, Outcome::Killed]);
    assert_eq!(c.failures(), vec![1]);
    assert_eq!(c.step(ShutdownEvent::Completed), ShutdownAction::Exit(1));
}

#[test]
fn every_kill_may_fail() {
    let mut c = Coordinator::new(Durability::Ephemeral, 3);
    c.step(ShutdownEvent::Interrupt);
    c.step(ShutdownEvent::Completed);
    assert_eq!(c.step(ShutdownEvent::Failed), ShutdownAction::Kill(1));
    assert_eq!(c.step(ShutdownEvent::Failed), ShutdownAction::Kill(2));
    assert_eq!(c.step(ShutdownEvent::Failed), ShutdownAction::Report);
    assert_eq!(c.failures(), vec![0, 1, 2]);
    assert_eq!(c.step(ShutdownEvent::Completed), ShutdownAction::RemoveWorkspace);
    assert_eq!(c.step(ShutdownEvent::Completed), ShutdownAction::Exit(1));
    assert_eq!(c.phase(), Phase::CleanedUp);
}

#[test]
fn workspace_is_removed_only_after_the_last_kill() {
    let mut c = Coordinator::new(Durability::Ephemeral, 3);
    let events = [
        ShutdownEvent::Interrupt,
        ShutdownEvent::Completed,
        ShutdownEvent::Completed,
        ShutdownEvent::Failed,
        ShutdownEvent::Completed,
        ShutdownEvent::Completed,
    ];
    for event in events {
        let action = c.step(event);
        if action == ShutdownAction::RemoveWorkspace {
            assert_eq!(c.outcomes().len(), 3);
            assert_eq!(c.phase(), Phase::Terminated);
        } else {
            assert_ne!(c.phase(), Phase::CleanedUp);
        }
    }
    assert_eq!(c.pending(), ShutdownAction::RemoveWorkspace);
    assert_eq!(c.step(ShutdownEvent::Completed), ShutdownAction::Exit(1));
    assert_eq!(c.phase(), Phase::CleanedUp);
}

#[test]
fn persistent_workspace_is_never_removed() {
    let all = [
        ShutdownEvent::Interrupt,
        ShutdownEvent::Fatal,
        ShutdownEvent::Completed,
        ShutdownEvent::Failed,
        ShutdownEvent::Exited,
    ];
    for total in 0..3usize {
        for seed in 0..15625usize {
            let mut c = Coordinator::new(Durability::Persistent, total);
            let mut s = seed;
            for _ in 0..6 {
                assert_ne!(c.step(all[s % 5]), ShutdownAction::RemoveWorkspace);
                assert_ne!(c.phase(), Phase::CleanedUp);
                s /= 5;
            }
        }
    }
}

#[test]
fn second_interrupt_changes_nothing() {
    let mut c = Coordinator::new(Durability::Ephemeral, 2);
    assert_eq!(c.step(ShutdownEvent::Interrupt), ShutdownAction::Announce);
    assert_eq!(c.step(ShutdownEvent::Interrupt), ShutdownAction::Announce);
    assert_eq!(c.step(ShutdownEvent::Completed), ShutdownAction::Kill(0));
    assert_eq!(c.step(ShutdownEvent::Interrupt), ShutdownAction::Kill(0));
    assert!(c.outcomes().is_empty());
    assert_eq!(c.step(ShutdownEvent::Completed), ShutdownAction::Kill(1));
    assert_eq!(c.step(ShutdownEvent::Interrupt), ShutdownAction::Kill(1));
    assert_eq!(c.step(ShutdownEvent::Completed), ShutdownAction::Report);
    assert_eq!(c.step(ShutdownEvent::Interrupt), ShutdownAction::Report);
    assert_eq!(c.step(ShutdownEvent::Completed), ShutdownAction::RemoveWorkspace);
    assert_eq!(c.step(ShutdownEvent::Interrupt), ShutdownAction::RemoveWorkspace);
    assert_eq!(c.step(ShutdownEvent::Completed), ShutdownAction::Exit(0));
    assert_eq!(c.step(ShutdownEvent::Interrupt), ShutdownAction::Exit(0));
    assert!(c.failures().is_empty());
}

#[test]
fn run_without_processes_goes_straight_to_the_report() {
    let mut c = Coordinator::new(Durability::Ephemeral, 0);
    assert_eq!(c.step(ShutdownEvent::Interrupt), ShutdownAction::Announce);
    assert_eq!(c.step(ShutdownEvent::Completed), ShutdownAction::Report);
    assert_eq!(c.step(ShutdownEvent::Completed), ShutdownAction::RemoveWorkspace);
    assert_eq!(c.step(ShutdownEvent::Completed), ShutdownAction::Exit(0));
}

#[test]
fn fatal_failure_still_kills_what_was_started() {
    let mut c = Coordinator::new(Durability::Ephemeral, 1);
    assert_eq!(c.step(ShutdownEvent::Fatal), ShutdownAction::Announce);
    assert_eq!(c.step(ShutdownEvent::Completed), ShutdownAction::Kill(0));
    assert_eq!(c.step(ShutdownEvent::Completed), ShutdownAction::Report);
    assert_eq!(c.step(ShutdownEvent::Completed), ShutdownAction::RemoveWorkspace);
    assert_eq!(c.step(ShutdownEvent::Completed), ShutdownAction::Exit(1));
}

#[test]
fn failed_removal_ends_the_run_with_an_error() {
    let mut c = Coordinator::new(Durability::Ephemeral, 1);
    c.step(ShutdownEvent::Interrupt);
    c.step(ShutdownEvent::Completed);
    c.step(ShutdownEvent::Completed);
    assert_eq!(c.step(ShutdownEvent::Completed), ShutdownAction::RemoveWorkspace);
    assert_eq!(c.step(ShutdownEvent::Failed), ShutdownAction::Exit(1));
    assert_eq!(c.phase(), Phase::Idle);
}

#[test]
fn exit_is_final() {
    let mut c = Coordinator::new(Durability::Persistent, 0);
    c.step(ShutdownEvent::Interrupt);
    c.step(ShutdownEvent::Completed);
    assert_eq!(c.step(ShutdownEvent::Completed), ShutdownAction::Exit(0));
    for event in [
        ShutdownEvent::Interrupt,
        ShutdownEvent::Fatal,
        ShutdownEvent::Completed,
        ShutdownEvent::Failed,
        ShutdownEvent::Exited,
    ] {
        assert_eq!(c.step(event), ShutdownAction::Exit(0));
        assert_eq!(c.phase(), Phase::Idle);
    }
}

#[test]
fn process_that_exited_by_itself_is_no_failure() {
    let mut c = Coordinator::new(Durability::Ephemeral, 3);
    c.step(ShutdownEvent::Interrupt);
    assert_eq!(c.step(ShutdownEvent::Completed), ShutdownAction::Kill(0));
    assert_eq!(c.step(ShutdownEvent::Exited), ShutdownAction::Kill(1));
    assert_eq!(c.step(ShutdownEvent::Completed), ShutdownAction::Kill(2));
    assert_eq!(c.step(ShutdownEvent::Exited), ShutdownAction::Report);
    assert_eq!(c.outcomes(), &vec![Outcome::Exited, Outcome::Killed, Outcome::Exited]);
    assert!(c.failures().is_empty());
    assert_eq!(c.step(ShutdownEvent::Completed), ShutdownAction::RemoveWorkspace);
    assert_eq!(c.step(ShutdownEvent::Completed), ShutdownAction::Exit(0));
}

#[test]
fn exit_reports_count_only_while_killing() {
    let mut c = Coordinator::new(Durability::Persistent, 1);
    assert_eq!(c.step(ShutdownEvent::Exited), ShutdownAction::Wait);
    assert_eq!(c.step(ShutdownEvent::Interrupt), ShutdownAction::Announce);
    assert_eq!(c.step(ShutdownEvent::Exited), ShutdownAction::Announce);
    assert_eq!(c.step(ShutdownEvent::Completed), ShutdownAction::Kill(0));
    assert_eq!(c.step(ShutdownEvent::Failed), ShutdownAction::Report);
    assert_eq!(c.step(ShutdownEvent::Exited), ShutdownAction::Report);
    assert_eq!(c.outcomes(), &vec![Outcome::KillFailed]);
    assert_eq!(c.step(ShutdownEvent::Completed), ShutdownAction::Exit(1));
}
