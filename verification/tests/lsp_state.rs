use conflic::lsp::state::{PendingScanScope, ScanExecutionState, ScanRequest, ScanScheduler};

fn is_full(r: &Option<ScanRequest>) -> bool {
    matches!(r, Some(ScanRequest::Full))
}

#[test]
fn full_request_overrides_pending_file_scope() {
    let mut scheduler = ScanScheduler::default();
    scheduler.register_request(ScanRequest::Files(vec!["a.txt".to_string()]));
    let generation = scheduler.register_request(ScanRequest::Full);
    assert!(is_full(&scheduler.prepare_scan(generation)));
}

#[test]
fn pending_generation_is_replayed_after_running_scan_finishes() {
    let mut scheduler = ScanScheduler::default();
    let first_generation = scheduler.register_request(ScanRequest::Full);
    assert!(is_full(&scheduler.prepare_scan(first_generation)));

    let second_generation = scheduler.register_request(ScanRequest::Files(vec!["changed.txt".to_string()]));
    assert!(scheduler.prepare_scan(second_generation).is_none());
    assert_eq!(scheduler.finish_scan(first_generation), Some(second_generation));
}

#[test]
fn superseded_generations_do_not_run() {
    let mut scheduler = ScanScheduler::default();
    let g1 = scheduler.register_request(ScanRequest::Files(vec!["a".into()]));
    let g2 = scheduler.register_request(ScanRequest::Files(vec!["b".into(), "a".into()]));
    assert!(g2 > g1);
    assert!(scheduler.prepare_scan(g1).is_none());
    assert!(scheduler.is_generation_current(g2));
    match scheduler.prepare_scan(g2) {
        Some(ScanRequest::Files(mut files)) => {
            files.sort();
            assert_eq!(files, vec!["a".to_string(), "b".to_string()]);
        }
        _ => panic!("expected a file scan"),
    }
    assert_eq!(scheduler.execution, ScanExecutionState::Running { generation: g2 });
    assert_eq!(scheduler.finish_scan(g2), None);
    assert_eq!(scheduler.execution, ScanExecutionState::Idle);
}

#[test]
fn debounce_is_disarmed_by_a_new_request_and_by_its_scan() {
    let mut scheduler = ScanScheduler::default();
    let g = scheduler.register_request(ScanRequest::Full);
    scheduler.arm_debounce(g);
    assert_eq!(scheduler.debounce, Some(g));
    scheduler.prepare_scan(g);
    assert_eq!(scheduler.debounce, None);
    scheduler.arm_debounce(7);
    scheduler.register_request(ScanRequest::Full);
    assert_eq!(scheduler.debounce, None);
}

#[test]
fn taking_the_request_empties_the_scope() {
    let mut scope = PendingScanScope::new();
    assert!(scope.is_empty());
    scope.merge(ScanRequest::Files(vec!["x".into(), "x".into()]));
    assert_eq!(scope.changed_files, vec!["x".to_string()]);
    assert!(!scope.is_empty());
    scope.merge(ScanRequest::Full);
    scope.merge(ScanRequest::Files(vec!["y".into()]));
    assert!(scope.changed_files.is_empty());
    assert!(is_full(&scope.take_request()));
    assert!(scope.is_empty());
    assert!(scope.take_request().is_none());
}
