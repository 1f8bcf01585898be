use core::cmp::Ordering;
use ord_by_key::order::{cmp_by_keys, eq_by_keys, partial_cmp_by_keys, Key};

// Keys `|i| i.0`.
pub struct T1(i32);

impl T1 {
    fn keys(&self) -> Vec<Key> {
        vec![Key::ascending(self.0 as i64)]
    }
}

impl PartialEq for T1 {
    fn eq(&self, other: &Self) -> bool {
        eq_by_keys(&self.keys(), &other.keys())
    }
}

impl Eq for T1 {}

impl Ord for T1 {
    fn cmp(&self, other: &Self) -> Ordering {
        cmp_by_keys(&self.keys(), &other.keys())
    }
}

impl PartialOrd for T1 {
    fn partial_cmp(&self, other: &Self) -> Option<Ordering> {
        partial_cmp_by_keys(&self.keys(), &other.keys())
    }
}

// Keys `|i| i.0, i.1`.
pub struct T2(i32, i32);

impl T2 {
    fn keys(&self) -> Vec<Key> {
        vec![Key::ascending(self.0 as i64), Key::ascending(self.1 as i64)]
    }
}

impl PartialEq for T2 {
    fn eq(&self, other: &Self) -> bool {
        eq_by_keys(&self.keys(), &other.keys())
    }
}

impl Eq for T2 {}

impl Ord for T2 {
    fn cmp(&self, other: &Self) -> Ordering {
        cmp_by_keys(&self.keys(), &other.keys())
    }
}

impl PartialOrd for T2 {
    fn partial_cmp(&self, other: &Self) -> Option<Ordering> {
        partial_cmp_by_keys(&self.keys(), &other.keys())
    }
}

#[test]
fn test_eq() {
    assert!(T1(1).eq(&T1(1)) == true);
    assert!(T1(1).eq(&T1(0)) == false);

    assert!(T2(1, 1).eq(&T2(1, 1)) == true);
    assert!(T2(0, 1).eq(&T2(1, 1)) == false);
    assert!(T2(1, 0).eq(&T2(1, 1)) == false);
}

#[test]
fn test_cmp() {
    assert!(T1(1).cmp(&T1(2)) == Ordering::Less);
    assert!(T1(1).cmp(&T1(1)) == Ordering::Equal);
    assert!(T1(1).cmp(&T1(0)) == Ordering::Greater);

    assert!(T2(1, 1).cmp(&T2(1, 1)) == Ordering::Equal);
    assert!(T2(1, 1).cmp(&T2(2, 1)) == Ordering::Less);
    assert!(T2(1, 1).cmp(&T2(2, 1)) == Ordering::Less);
    assert!(T2(1, 1).cmp(&T2(2, 2)) == Ordering::Less);
    assert!(T2(1, 1).cmp(&T2(1, 2)) == Ordering::Less);
    assert!(T2(1, 2).cmp(&T2(2, 1)) == Ordering::Less);
}

#[test]
fn single_field_operators() {
    assert!(T1(1) < T1(2));
    assert!(T1(1) == T1(1));
    assert!(T1(2) > T1(1));
}

#[test]
fn first_key_dominates() {
    assert!(T2(1, 1) < T2(2, 1));
    assert!(T2(1, 1) < T2(1, 2));
    assert!(T2(1, 2) < T2(2, 1));
    assert_eq!(T2(1, 2).partial_cmp(&T2(2, 1)), Some(Ordering::Less));
}

// Keys `|(i)| i.abs(), i`.
fn by_abs(i: i64) -> Vec<Key> {
    vec![Key::ascending(i.abs()), Key::ascending(i)]
}

#[test]
fn absolute_value_then_value() {
    assert_eq!(cmp_by_keys(&by_abs(-11), &by_abs(10)), Ordering::Greater);
    assert_eq!(cmp_by_keys(&by_abs(10), &by_abs(-11)), Ordering::Less);
    assert_eq!(cmp_by_keys(&by_abs(-3), &by_abs(3)), Ordering::Less);
    assert!(!eq_by_keys(&by_abs(-3), &by_abs(3)));
}
