use ofborg_eval::labels::label_changes;
use std::collections::BTreeSet;

fn v(s: &[&str]) -> Vec<String> {
    s.iter().map(|x| x.to_string()).collect()
}

fn apply(current: &[String], add: &[String], remove: &[String]) -> Vec<String> {
    let ch = label_changes(&current.to_vec(), add, remove);
    let mut set: BTreeSet<String> = current.iter().cloned().collect();
    for l in ch.to_add {
        set.insert(l);
    }
    for l in ch.to_remove {
        set.remove(&l);
    }
    set.into_iter().collect()
}

#[test]
fn changes_against_existing_labels() {
    let ch = label_changes(&v(&["a", "b"]), &v(&["a", "c", "e"]), &v(&["b", "d"]));
    assert_eq!(ch.to_add, v(&["c", "e"]));
    assert_eq!(ch.to_remove, v(&["b"]));
}

#[test]
fn no_changes_needed() {
    let ch = label_changes(&v(&[]), &v(&[]), &v(&["x"]));
    assert!(ch.to_add.is_empty());
    assert!(ch.to_remove.is_empty());
}

#[test]
fn reconciling_twice_is_reconciling_once() {
    let add = v(&["new", "kept"]);
    let remove = v(&["old", "gone"]);
    let once = apply(&v(&["kept", "old", "other"]), &add, &remove);
    assert_eq!(once, v(&["kept", "new", "other"]));
    let twice = apply(&once, &add, &remove);
    assert_eq!(twice, once);
}
