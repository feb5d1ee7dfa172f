use rustbot_misc::commands::{go, is_owner, source};
use rustbot_misc::register::{register, RegisterError, RegisterStep, Scope};

/// Drives a registration against a fake catalog; returns the publish calls made and the last step.
fn drive(global: bool, guild: Option<u64>, total: usize, fail_at: Option<usize>) -> (Vec<(usize, Scope)>, RegisterStep) {
    let mut reg = register(global, guild, total).unwrap();
    let mut calls = vec![];
    loop {
        match reg.next_step() {
            RegisterStep::Publish(i, scope) => {
                calls.push((i, scope));
                reg.record(fail_at != Some(i));
            }
            other => return (calls, other),
        }
    }
}

#[test]
fn missing_guild_fails() {
    assert!(matches!(register(false, None, 3), Err(RegisterError::MissingContext)));
}

#[test]
fn global_needs_no_guild() {
    let (calls, last) = drive(true, None, 2, None);
    assert_eq!(calls, vec![(0, Scope::Global), (1, Scope::Global)]);
    assert_eq!(last, RegisterStep::Finish);
}

#[test]
fn guild_scope_publishes_in_order() {
    let (calls, last) = drive(false, Some(7), 3, None);
    assert_eq!(calls, vec![(0, Scope::Guild(7)), (1, Scope::Guild(7)), (2, Scope::Guild(7))]);
    assert_eq!(last, RegisterStep::Finish);
}

#[test]
fn first_failure_stops_publishing() {
    let (calls, last) = drive(false, Some(1), 5, Some(2));
    assert_eq!(calls.len(), 3);
    assert_eq!(last, RegisterStep::Abort);
}

#[test]
fn progress_and_done_messages() {
    let reg = register(true, None, 120).unwrap();
    assert_eq!(reg.progress_message(), "Registering 120 commands...");
    assert_eq!(register(true, None, 0).unwrap().progress_message(), "Registering 0 commands...");
    assert_eq!(reg.done_message(), "Done!");
}

#[test]
fn fixed_replies_and_owner() {
    assert_eq!(go(), "No");
    assert_eq!(source(), "https://github.com/kangalioo/rustbot");
    assert!(is_owner(5, 5));
    assert!(!is_owner(5, 6));
}
