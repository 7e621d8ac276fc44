use ossup::tasks::{after_kill, AppState, ChildStatus};

#[test]
fn a_task_runs_once() {
    let mut state = AppState::default();
    assert!(state.check_free("t1").is_ok());
    state.insert("t1");
    assert!(state.contains("t1"));
    assert_eq!(state.check_free("t1").unwrap_err(), "任务 t1 已在运行");
    assert!(state.check_free("t2").is_ok());
    state.insert("t2");
    state.insert("t1");
    assert_eq!(state.poll("t1", ChildStatus::Running), None);
    assert_eq!(state.poll("t1", ChildStatus::Exited(Some(3))), Some(3));
    assert!(!state.contains("t1") && state.contains("t2"));
    assert!(state.check_free("t1").is_ok());
}

#[test]
fn what_has_no_code_ends_with_minus_one() {
    let mut state = AppState::default();
    assert_eq!(state.poll("gone", ChildStatus::Running), Some(-1));
    state.insert("a");
    state.insert("b");
    assert_eq!(state.poll("a", ChildStatus::Exited(None)), Some(-1));
    assert_eq!(state.poll("b", ChildStatus::Lost), Some(-1));
    assert!(!state.contains("a") && !state.contains("b"));
}

#[test]
fn cancelling() {
    let mut state = AppState::default();
    assert_eq!(state.cancel_transfer(None).unwrap_err(), "没有正在运行的传输任务");
    assert_eq!(state.cancel_transfer(Some("a")).unwrap_err(), "这个任务已经不在运行了");
    state.insert("a");
    state.insert("b");
    assert_eq!(state.cancel_transfer(Some("b")).unwrap(), ["b"]);
    let mut all = state.cancel_transfer(None).unwrap();
    all.sort();
    assert_eq!(all, ["a", "b"]);
    assert_eq!(state.cancel_transfer(Some("c")).unwrap_err(), "这个任务已经不在运行了");
    assert!(state.contains("a") && state.contains("b"));
}

#[test]
fn a_kill_that_fails() {
    let failed = || Err("gone".to_string());
    assert_eq!(after_kill(true, failed()), Err("gone".to_string()));
    assert_eq!(after_kill(false, failed()), Ok(()));
    assert_eq!(after_kill(true, Ok(())), Ok(()));
    assert_eq!(after_kill(false, Ok(())), Ok(()));
}
