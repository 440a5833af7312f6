use notes::parallel::{default_pool_size, PoolSize};
use notes::watch::{touches_watched, Change, Handler, ReloadEvent, DEBOUNCE_MILLIS};

fn change(paths: &[&str]) -> Change {
    Change { data_modified: true, paths: paths.iter().map(|p| p.to_string()).collect() }
}

fn handler() -> Handler {
    Handler::new(vec!["/site".to_string()])
}

#[test]
fn window_is_a_tenth_of_a_second() {
    assert_eq!(DEBOUNCE_MILLIS, 100);
}

#[test]
fn two_changes_close_together_give_one_signal() {
    let mut h = handler();
    let c = change(&["/site/a.md"]);
    assert_eq!(h.handle_event(1000, Some(&c)), Some(ReloadEvent::Reload));
    assert_eq!(h.handle_event(1099, Some(&c)), None);
}

#[test]
fn two_changes_far_apart_give_two_signals() {
    let mut h = handler();
    let c = change(&["/site/a.md"]);
    assert_eq!(h.handle_event(1000, Some(&c)), Some(ReloadEvent::Reload));
    assert_eq!(h.handle_event(1100, Some(&c)), Some(ReloadEvent::Reload));
    assert_eq!(h.handle_event(1250, Some(&c)), Some(ReloadEvent::Reload));
}

#[test]
fn window_counts_from_the_last_signal() {
    let mut h = handler();
    let c = change(&["/site/a.md"]);
    assert_eq!(h.handle_event(1000, Some(&c)), Some(ReloadEvent::Reload));
    assert_eq!(h.handle_event(1060, Some(&c)), None);
    assert_eq!(h.handle_event(1099, Some(&c)), None);
    assert_eq!(h.handle_event(1120, Some(&c)), Some(ReloadEvent::Reload));
}

#[test]
fn first_change_is_passed_on_whatever_the_time() {
    let c = change(&["/site/a.md"]);
    assert_eq!(handler().handle_event(0, Some(&c)), Some(ReloadEvent::Reload));
    assert_eq!(handler().handle_event(1, Some(&c)), Some(ReloadEvent::Reload));
    assert_eq!(handler().handle_event(99, Some(&c)), Some(ReloadEvent::Reload));
    assert_eq!(handler().handle_event(u64::MAX, Some(&c)), Some(ReloadEvent::Reload));
}

#[test]
fn window_opens_with_the_first_signal_only() {
    let mut h = handler();
    let c = change(&["/site/a.md"]);
    let meta = Change { data_modified: false, paths: vec!["/site/a.md".to_string()] };
    assert_eq!(h.handle_event(10, Some(&meta)), None);
    assert_eq!(h.handle_event(20, None), None);
    assert_eq!(h.handle_event(30, Some(&c)), Some(ReloadEvent::Reload));
    assert_eq!(h.handle_event(129, Some(&c)), None);
    assert_eq!(h.handle_event(130, Some(&c)), Some(ReloadEvent::Reload));
}

#[test]
fn clock_reading_before_the_last_signal_is_swallowed() {
    let mut h = handler();
    let c = change(&["/site/a.md"]);
    assert_eq!(h.handle_event(500, Some(&c)), Some(ReloadEvent::Reload));
    assert_eq!(h.handle_event(100, Some(&c)), None);
}

#[test]
fn other_kinds_of_change_give_no_signal_and_leave_the_window() {
    let mut h = handler();
    let meta = Change { data_modified: false, paths: vec!["/site/a.md".to_string()] };
    assert_eq!(h.handle_event(1000, Some(&meta)), None);
    assert_eq!(h.handle_event(1001, Some(&change(&["/site/a.md"]))), Some(ReloadEvent::Reload));
}

#[test]
fn failed_reports_give_no_signal() {
    let mut h = handler();
    assert_eq!(h.handle_event(1000, None), None);
    assert_eq!(h.handle_event(1001, Some(&change(&["/site/a.md"]))), Some(ReloadEvent::Reload));
}

#[test]
fn ignored_paths_give_no_signal() {
    let mut h = handler();
    assert_eq!(h.handle_event(1000, Some(&change(&["/site/_public/a.html"]))), None);
    assert_eq!(h.handle_event(1000, Some(&change(&["/other/a.md"]))), None);
    assert_eq!(h.handle_event(1000, Some(&change(&[]))), None);
}

#[test]
fn one_watched_path_is_enough() {
    let mut h = handler();
    let c = change(&["/site/.git/index", "/site/a.md"]);
    assert_eq!(h.handle_event(1000, Some(&c)), Some(ReloadEvent::Reload));
}

#[test]
fn watched_paths() {
    let bases = vec!["/site".to_string()];
    assert!(touches_watched(&bases, &vec!["/x".to_string(), "/site/a".to_string()]));
    assert!(!touches_watched(&bases, &vec!["/x".to_string(), "/site/_a".to_string()]));
    assert!(!touches_watched(&bases, &Vec::new()));
}

#[test]
fn pool_defaults() {
    assert_eq!(default_pool_size(8), PoolSize { threads: 8, queue: 16 });
    assert_eq!(default_pool_size(1), PoolSize { threads: 1, queue: 2 });
    assert_eq!(default_pool_size(0), PoolSize { threads: 0, queue: 0 });
    assert_eq!(
        default_pool_size(usize::MAX),
        PoolSize { threads: usize::MAX, queue: usize::MAX }
    );
}
