//! Lexicographic comparison over an ordered list of extracted keys.
//!
//! A key is modelled by its integer value and by whether it is wrapped in a
//! descending-order adapter. The same ordered list of keys drives equality,
//! the total order and the partial order, and every walk stops at the first
//! key pair that decides the outcome.
use core::cmp::Ordering;
use vstd::prelude::*;

verus! {

/// One comparison key extracted from a value.
#[derive(Clone, Copy, Debug)]
pub struct Key {
    pub value: i64,
    /// The key is wrapped in a descending-order adapter.
    pub descending: bool,
}

impl Key {
    /// A key compared in natural order.
    pub fn ascending(value: i64) -> (r: Key)
        ensures
            r.value == value,
            !r.descending,
    {
        Key { value, descending: false }
    }

    /// A key compared in reverse order.
    pub fn descending(value: i64) -> (r: Key)
        ensures
            r.value == value,
            r.descending,
    {
        Key { value, descending: true }
    }
}

pub open spec fn int_cmp(x: int, y: int) -> Ordering {
    if x < y {
        Ordering::Less
    } else if x == y {
        Ordering::Equal
    } else {
        Ordering::Greater
    }
}

pub open spec fn reversed(o: Ordering) -> Ordering {
    match o {
        Ordering::Less => Ordering::Greater,
        Ordering::Equal => Ordering::Equal,
        Ordering::Greater => Ordering::Less,
    }
}

/// Three-way comparison of one key pair; the adapter of the left key decides
/// the direction (both keys of one position come from the same expression).
pub open spec fn key_cmp(a: Key, b: Key) -> Ordering {
    if a.descending {
        reversed(int_cmp(a.value as int, b.value as int))
    } else {
        int_cmp(a.value as int, b.value as int)
    }
}

/// Equality of one key pair; the adapter does not change equality.
pub open spec fn key_eq(a: Key, b: Key) -> bool {
    a.value == b.value
}

/// Position of the first key pair that is not equal, or the number of keys.
pub open spec fn first_decisive(a: Seq<Key>, b: Seq<Key>, i: int) -> int
    decreases a.len() - i,
{
    if i >= a.len() || i < 0 {
        a.len() as int
    } else if !key_eq(a[i], b[i]) {
        i
    } else {
        first_decisive(a, b, i + 1)
    }
}

/// Lexicographic comparison: the first key pair that is not `Equal` decides.
pub open spec fn lex_cmp(a: Seq<Key>, b: Seq<Key>) -> Ordering {
    let d = first_decisive(a, b, 0);
    if d < a.len() {
        key_cmp(a[d], b[d])
    } else {
        Ordering::Equal
    }
}

/// Two values are equal when every key pair is equal.
pub open spec fn lex_eq(a: Seq<Key>, b: Seq<Key>) -> bool {
    forall|i: int| 0 <= i < a.len() ==> key_eq(#[trigger] a[i], b[i])
}

/// How many key pairs a short-circuiting walk looks at.
pub open spec fn consulted(a: Seq<Key>, b: Seq<Key>) -> int {
    let d = first_decisive(a, b, 0);
    if d < a.len() {
        d + 1
    } else {
        a.len() as int
    }
}

proof fn lemma_first_decisive(a: Seq<Key>, b: Seq<Key>, i: int)
    requires
        0 <= i <= a.len(),
    ensures
        i <= first_decisive(a, b, i) <= a.len(),
        forall|j: int| i <= j < first_decisive(a, b, i) ==> key_eq(#[trigger] a[j], b[j]),
        first_decisive(a, b, i) < a.len() ==> !key_eq(
            a[first_decisive(a, b, i)],
            b[first_decisive(a, b, i)],
        ),
    decreases a.len() - i,
{
    if i < a.len() && key_eq(a[i], b[i]) {
        lemma_first_decisive(a, b, i + 1);
    }
}

proof fn lemma_first_decisive_skip(a: Seq<Key>, b: Seq<Key>, i: int)
    requires
        0 <= i <= a.len(),
        forall|j: int| 0 <= j < i ==> key_eq(#[trigger] a[j], b[j]),
    ensures
        first_decisive(a, b, 0) == first_decisive(a, b, i),
    decreases i,
{
    if i > 0 {
        lemma_first_decisive_skip(a, b, i - 1);
    }
}

proof fn lemma_key_cmp_equal(a: Key, b: Key)
    ensures
        (key_cmp(a, b) == Ordering::Equal) == key_eq(a, b),
{
}

fn int_order(x: i64, y: i64) -> (r: Ordering)
    ensures
        r == int_cmp(x as int, y as int),
{
    if x < y {
        Ordering::Less
    } else if x == y {
        Ordering::Equal
    } else {
        Ordering::Greater
    }
}

/// Three-way comparison of one key pair.
pub fn compare_key(a: &Key, b: &Key) -> (r: Ordering)
    ensures
        r == key_cmp(*a, *b),
{
    let o = int_order(a.value, b.value);
    if a.descending {
        match o {
            Ordering::Less => Ordering::Greater,
            Ordering::Equal => Ordering::Equal,
            Ordering::Greater => Ordering::Less,
        }
    } else {
        o
    }
}

/// Equality walk: stops at the first key pair that differs. Returns the result
/// and the number of key pairs looked at.
pub fn eq_walk(a: &[Key], b: &[Key]) -> (r: (bool, usize))
    requires
        a@.len() == b@.len(),
    ensures
        r.0 == lex_eq(a@, b@),
        r.1 == consulted(a@, b@),
{
    let n = a.len();
    let mut i: usize = 0;
    while i < n
        invariant
            n == a@.len(),
            n == b@.len(),
            0 <= i <= n,
            forall|j: int| 0 <= j < i ==> key_eq(#[trigger] a@[j], b@[j]),
        decreases n - i,
    {
        if a[i].value != b[i].value {
            proof {
                lemma_first_decisive_skip(a@, b@, i as int);
            }
            return (false, i + 1);
        }
        i = i + 1;
    }
    proof {
        lemma_first_decisive_skip(a@, b@, i as int);
    }
    (true, n)
}

/// Three-way walk: stops at the first key pair whose comparison is not
/// `Equal`. Returns the result and the number of key pairs looked at.
pub fn cmp_walk(a: &[Key], b: &[Key]) -> (r: (Ordering, usize))
    requires
        a@.len() == b@.len(),
    ensures
        r.0 == lex_cmp(a@, b@),
        r.1 == consulted(a@, b@),
{
    let n = a.len();
    let mut i: usize = 0;
    while i < n
        invariant
            n == a@.len(),
            n == b@.len(),
            0 <= i <= n,
            forall|j: int| 0 <= j < i ==> key_eq(#[trigger] a@[j], b@[j]),
        decreases n - i,
    {
        let result = compare_key(&a[i], &b[i]);
        proof {
            lemma_key_cmp_equal(a@[i as int], b@[i as int]);
        }
        match result {
            Ordering::Equal => {},
            _ => {
                proof {
                    lemma_first_decisive_skip(a@, b@, i as int);
                }
                return (result, i + 1);
            },
        }
        i = i + 1;
    }
    proof {
        lemma_first_decisive_skip(a@, b@, i as int);
    }
    (Ordering::Equal, n)
}

/// Equality of two values given their keys in declared order.
pub fn eq_by_keys(a: &[Key], b: &[Key]) -> (r: bool)
    requires
        a@.len() == b@.len(),
    ensures
        r == lex_eq(a@, b@),
{
    eq_walk(a, b).0
}

/// Total order of two values given their keys in declared order.
pub fn cmp_by_keys(a: &[Key], b: &[Key]) -> (r: Ordering)
    requires
        a@.len() == b@.len(),
    ensures
        r == lex_cmp(a@, b@),
{
    cmp_walk(a, b).0
}

/// Partial order of two values: the total order, always present.
pub fn partial_cmp_by_keys(a: &[Key], b: &[Key]) -> (r: Option<Ordering>)
    requires
        a@.len() == b@.len(),
    ensures
        r == Some(lex_cmp(a@, b@)),
{
    Some(cmp_by_keys(a, b))
}

/// With a single key, the order of two values is the order of their keys.
pub proof fn law_single_key(a: Key, b: Key)
    ensures
        lex_cmp(seq![a], seq![b]) == key_cmp(a, b),
{
    reveal_with_fuel(first_decisive, 2);
    lemma_key_cmp_equal(a, b);
}

/// Equality holds exactly when every key pair is equal.
pub proof fn law_eq_all_keys(a: Seq<Key>, b: Seq<Key>)
    requires
        a.len() == b.len(),
    ensures
        lex_eq(a, b) <==> (forall|i: int| 0 <= i < a.len() ==> (#[trigger] a[i]).value == b[i].value),
{
}

/// When the first key pair differs, no later key is looked at.
pub proof fn law_short_circuit(a: Seq<Key>, b: Seq<Key>)
    requires
        a.len() == b.len(),
        a.len() > 0,
        !key_eq(a[0], b[0]),
    ensures
        consulted(a, b) == 1,
{
}

/// The total order reports `Equal` exactly when the values are equal.
pub proof fn law_cmp_consistent_with_eq(a: Seq<Key>, b: Seq<Key>)
    requires
        a.len() == b.len(),
    ensures
        (lex_cmp(a, b) == Ordering::Equal) == lex_eq(a, b),
{
    lemma_first_decisive(a, b, 0);
    let d = first_decisive(a, b, 0);
    if d < a.len() {
        lemma_key_cmp_equal(a[d], b[d]);
    } else {
        assert forall|i: int| 0 <= i < a.len() implies key_eq(#[trigger] a[i], b[i]) by {}
    }
    if lex_eq(a, b) && d < a.len() {
        assert(key_eq(a[d], b[d]));
    }
}

/// The same keys with the adapter of position `i` toggled on both sides.
pub open spec fn toggle_at(a: Seq<Key>, i: int) -> Seq<Key> {
    a.update(i, Key { value: a[i].value, descending: !a[i].descending })
}

/// Toggling the descending adapter of one key inverts the outcome when that key
/// decides, and leaves it unchanged when another key decides or all tie.
pub proof fn law_reversal(a: Seq<Key>, b: Seq<Key>, i: int)
    requires
        a.len() == b.len(),
        0 <= i < a.len(),
        a[i].descending == b[i].descending,
    ensures
        first_decisive(a, b, 0) == i ==> lex_cmp(toggle_at(a, i), toggle_at(b, i)) == reversed(
            lex_cmp(a, b),
        ),
        first_decisive(a, b, 0) != i ==> lex_cmp(toggle_at(a, i), toggle_at(b, i)) == lex_cmp(
            a,
            b,
        ),
{
    let ta = toggle_at(a, i);
    let tb = toggle_at(b, i);
    assert forall|j: int| 0 <= j < a.len() implies key_eq(#[trigger] ta[j], tb[j]) == key_eq(
        a[j],
        b[j],
    ) by {}
    lemma_first_decisive(a, b, 0);
    lemma_first_decisive(ta, tb, 0);
    let d = first_decisive(a, b, 0);
    let e = first_decisive(ta, tb, 0);
    if d < e {
        assert(key_eq(ta[d], tb[d]));
    }
    if e < d {
        assert(key_eq(a[e], b[e]));
    }
    assert(d == e);
}

} // verus!
