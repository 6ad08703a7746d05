use norse_haptic::Interner;
use norse_haptic::Path;

#[test]
fn intern_is_idempotent() {
    let mut interner = Interner::new();
    let p1 = interner.intern("/user/mouse");
    let p2 = interner.intern("/user/mouse");
    assert_eq!(p1, p2);
}

#[test]
fn intern_distinct_strings_differ() {
    let mut interner = Interner::new();
    let p1 = interner.intern("/user/mouse");
    let p2 = interner.intern("/user/keyboard");
    assert_ne!(p1, p2);
}

#[test]
fn untern_round_trip() {
    let mut interner = Interner::new();
    let p = interner.intern("/user/mouse/input/delta_x/scalar");
    let s = interner.untern(p);
    assert_eq!(s, "/user/mouse/input/delta_x/scalar");
}

#[test]
fn paths_are_dense_in_first_seen_order() {
    let mut interner = Interner::new();
    let p1 = interner.intern("a");
    let p2 = interner.intern("b");
    let p3 = interner.intern("a");
    assert_eq!(p1.0, 1);
    assert_eq!(p2.0, 2);
    assert_eq!(p3.0, 1);
}

#[test]
fn null_path_is_reserved_zero() {
    let mut interner = Interner::new();
    assert_eq!(Path::null().0, 0);
    let p = interner.intern("");
    assert_ne!(p, Path::null());
}

#[test]
fn interning_many_strings_keeps_all_resolvable() {
    let mut interner = Interner::new();
    let mut paths = Vec::new();
    for i in 0..50 {
        let name = format!("/user/device_{}", i);
        paths.push((interner.intern(&name), name));
    }
    for (p, name) in paths {
        assert_eq!(interner.untern(p), name);
    }
}
