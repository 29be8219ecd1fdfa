use disk_thrash::inventory::Inventory;

fn s(x: &str) -> String {
    x.to_string()
}

#[test]
fn track_then_contains() {
    let mut inv = Inventory::new();
    assert_eq!(inv.len(), 0);
    inv.track(s("a.tmp"));
    inv.track(s("b.tmp"));
    assert!(inv.contains(&s("a.tmp")));
    assert!(inv.contains(&s("b.tmp")));
    assert!(!inv.contains(&s("c.tmp")));
    assert_eq!(inv.len(), 2);
}

#[test]
fn track_same_path_twice_holds_once() {
    let mut inv = Inventory::new();
    inv.track(s("a.tmp"));
    inv.track(s("a.tmp"));
    assert_eq!(inv.len(), 1);
    assert_eq!(inv.drain_all(), vec![s("a.tmp")]);
}

#[test]
fn untrack_removes_only_that_path() {
    let mut inv = Inventory::new();
    inv.track(s("a.tmp"));
    inv.track(s("b.tmp"));
    inv.track(s("c.tmp"));
    inv.untrack(&s("b.tmp"));
    assert!(!inv.contains(&s("b.tmp")));
    assert!(inv.contains(&s("a.tmp")));
    assert!(inv.contains(&s("c.tmp")));
    assert_eq!(inv.len(), 2);
}

#[test]
fn untrack_absent_path_changes_nothing() {
    let mut inv = Inventory::new();
    inv.track(s("a.tmp"));
    inv.untrack(&s("z.tmp"));
    assert_eq!(inv.len(), 1);
}

#[test]
fn drain_all_twice_second_is_empty() {
    let mut inv = Inventory::new();
    inv.track(s("a.tmp"));
    inv.track(s("b.tmp"));
    let mut first = inv.drain_all();
    first.sort();
    assert_eq!(first, vec![s("a.tmp"), s("b.tmp")]);
    assert_eq!(inv.len(), 0);
    assert!(inv.drain_all().is_empty());
    assert_eq!(inv.len(), 0);
}
