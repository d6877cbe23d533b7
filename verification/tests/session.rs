use std::path::Path;

use emucap::live::session::{
    directory_mark, new_session_token, reusable_session_token, session_token_is_own,
    session_token_path,
};
use emucap::live::temporal::{finish_with_cleanup, step_timeout, OperationDeadline, NANOS_PER_MS};

fn combine(primary: Option<&'static str>, cleanup: &'static str) -> &'static str {
    match primary {
        Some(_) => "primary+cleanup",
        None => cleanup,
    }
}

#[test]
fn successful_effect_is_not_completed_when_cleanup_fails() {
    assert_eq!(
        finish_with_cleanup(Ok::<_, &'static str>(7), Err("cleanup"), combine),
        Err("cleanup")
    );
}

#[test]
fn dual_failure_keeps_both_failure_classes() {
    assert_eq!(
        finish_with_cleanup::<(), _>(Err("primary"), Err("cleanup"), combine),
        Err("primary+cleanup")
    );
}

#[test]
fn primary_failure_survives_successful_cleanup() {
    assert_eq!(
        finish_with_cleanup::<(), _>(Err("primary"), Ok(()), combine),
        Err("primary")
    );
}

#[test]
fn completed_effects_with_their_cleanup_are_successes() {
    assert_eq!(
        finish_with_cleanup(Ok::<_, &'static str>(7), Ok(()), combine),
        Ok(7)
    );
}

#[test]
fn operation_deadline_expires_and_never_returns_a_zero_socket_timeout() {
    let deadline = OperationDeadline::after(100 * NANOS_PER_MS, 5 * NANOS_PER_MS);
    assert!(deadline
        .remaining_timeout(100 * NANOS_PER_MS)
        .is_some_and(|value| value > 0));
    assert_eq!(
        deadline.remaining_timeout(105 * NANOS_PER_MS - 1),
        Some(NANOS_PER_MS)
    );
    assert!(deadline.expired(110 * NANOS_PER_MS));
    assert_eq!(deadline.remaining_timeout(110 * NANOS_PER_MS), None);
    assert_eq!(
        step_timeout(deadline, 100 * NANOS_PER_MS, 2 * NANOS_PER_MS),
        Some(2 * NANOS_PER_MS)
    );
}

fn foreign_of(own: &str) -> String {
    let mut chars: Vec<char> = own.chars().collect();
    chars[0] = if chars[0] == '0' { '1' } else { '0' };
    chars.into_iter().collect()
}

#[test]
fn session_token_reused_for_own_cwd_on_reconnect() {
    let mark = directory_mark(b"/home/player/games");
    let own = new_session_token(&mark, "01h");
    assert!(session_token_is_own(&own, &mark));
    let foreign = foreign_of(&own);
    assert!(!session_token_is_own(&foreign, &mark));
}

#[test]
fn session_token_path_parent_exists() {
    let path = session_token_path("/tmp", 59778);
    assert!(Path::new(&path).parent().is_some_and(|p| p.is_dir()), "{path}");
}

#[test]
fn reusable_session_token_reuses_own_mints_for_foreign() {
    let mark = directory_mark(b"/home/player/games");
    let own = new_session_token(&mark, "01h");
    assert_eq!(
        reusable_session_token(Some(&format!("{own}\n")), &mark).as_deref(),
        Some(own.as_str())
    );
    assert_eq!(reusable_session_token(Some(&foreign_of(&own)), &mark), None);
    assert_eq!(reusable_session_token(None, &mark), None);
}

#[test]
fn directories_are_marked_by_their_digest() {
    assert_eq!(directory_mark(b"abc"), "ba7816bf8f01cfea");
    assert_ne!(directory_mark(b"/a"), directory_mark(b"/b"));
}
