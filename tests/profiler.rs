use microvm::profiler::{str_eq, Guard, Profiler, Scope};

#[test]
fn scopes_form_a_call_tree() {
    let mut p = Profiler::new();
    let g = p.sync_scope("main", 10);
    assert_eq!(g.enter_time, 10);
    let root = p.current().unwrap();
    p.sync_scope("load", 11);
    let child = p.current().unwrap();
    assert_ne!(root, child);
    assert_eq!(p.scope(child).get_pred(), Some(root));
    assert_eq!(p.scope(root).get_succs(), &vec![child]);
    p.leave_scope(5);
    assert_eq!(p.current(), Some(root));
    p.sync_scope("load", 20);
    assert_eq!(p.current(), Some(child));
    p.leave_scope(7);
    p.leave_scope(100);
    assert_eq!(p.current(), None);
    assert_eq!(p.len(), 2);
    assert_eq!(p.scope(child).get_num_calls(), 2);
    assert_eq!(p.scope(child).get_duration_sum(), 12);
    assert_eq!(p.scope(root).get_duration_sum(), 100);
    p.leave_scope(1);
    assert_eq!(p.current(), None);
}

#[test]
fn roots_are_shared_by_name() {
    let mut p = Profiler::new();
    let a = p.get_scope("a");
    let b = p.get_scope("b");
    assert_eq!(p.get_scope("a"), a);
    assert_ne!(a, b);
    assert_eq!(p.scope(b).get_name(), "b");
}

#[test]
fn report_rows_follow_the_tree() {
    let mut p = Profiler::new();
    p.sync_scope("main", 0);
    p.sync_scope("run", 0);
    p.leave_scope(30);
    p.leave_scope(40);
    let rows = p.write(None);
    assert_eq!(rows.len(), 2);
    assert_eq!((rows[0].depth, rows[0].name.as_str(), rows[0].num_calls), (0, "main", 1));
    assert_eq!(rows[0].pred_duration_sum, 40);
    assert_eq!((rows[1].depth, rows[1].name.as_str(), rows[1].duration_sum), (1, "run", 30));
    assert_eq!(rows[1].pred_duration_sum, 40);
    assert_eq!(p.write(Some(0)).len(), 1);
}

#[test]
fn scope_counters_saturate() {
    let mut s = Scope::new("x", None);
    s.leave(u128::MAX);
    s.leave(1);
    assert_eq!(s.get_duration_sum(), u128::MAX);
    assert_eq!(s.get_num_calls(), 2);
    s.add_succ(3);
    assert_eq!(s.get_succs(), &vec![3]);
    let g: Guard = s.enter(9);
    assert_eq!(g.enter_time, 9);
    assert_eq!(Guard::enter(4).enter_time, 4);
}

#[test]
fn string_equality() {
    assert!(str_eq("abc", "abc"));
    assert!(!str_eq("abc", "abd"));
    assert!(!str_eq("ab", "abc"));
    assert!(str_eq("", ""));
}
