//! Comparing values.

use crate::data::strings_view;
use crate::text::chars_of;
use vstd::prelude::*;

verus! {

/// The outcome of comparing two values.
#[derive(Debug, Clone, Copy, PartialEq, Eq, Structural)]
pub enum Order {
    Less,
    Same,
    Greater,
}

/// The outcome with the two values exchanged.
pub open spec fn flip(o: Order) -> Order {
    match o {
        Order::Less => Order::Greater,
        Order::Same => Order::Same,
        Order::Greater => Order::Less,
    }
}

/// The first outcome, or the second where the first does not decide.
pub open spec fn then_order(a: Order, b: Order) -> Order {
    if a is Same { b } else { a }
}

/// Comparing two integers.
pub open spec fn int_order(a: int, b: int) -> Order {
    if a < b {
        Order::Less
    } else if a == b {
        Order::Same
    } else {
        Order::Greater
    }
}

/// Comparing two texts character by character; a prefix comes first.
pub open spec fn str_order(a: Seq<char>, b: Seq<char>) -> Order
    decreases a.len(),
{
    if a.len() == 0 {
        if b.len() == 0 { Order::Same } else { Order::Less }
    } else if b.len() == 0 {
        Order::Greater
    } else {
        then_order(int_order(a[0] as int, b[0] as int), str_order(a.skip(1), b.skip(1)))
    }
}

/// The order of texts is total: only equal texts compare the same, exchanging
/// them flips the outcome, and it is transitive.
pub proof fn lemma_str_order(a: Seq<char>, b: Seq<char>, c: Seq<char>)
    ensures
        str_order(a, b) is Same <==> a == b,
        str_order(b, a) == flip(str_order(a, b)),
        str_order(a, b) is Less && str_order(b, c) is Less ==> str_order(a, c) is Less,
    decreases a.len(),
{
    if a.len() > 0 && b.len() > 0 {
        let c1 = if c.len() > 0 { c.skip(1) } else { c };
        lemma_str_order(a.skip(1), b.skip(1), c1);
        if a[0] == b[0] && a.skip(1) == b.skip(1) {
            assert(a =~= seq![a[0]] + a.skip(1));
            assert(b =~= seq![b[0]] + b.skip(1));
        }
        if a == b {
            assert(a.skip(1) == b.skip(1));
        }
    } else if a.len() == 0 && b.len() == 0 {
        assert(a =~= b);
    }
}

/// Compares two integers.
pub fn order_u64(a: u64, b: u64) -> (r: Order)
    ensures
        r == int_order(a as int, b as int),
{
    if a < b {
        Order::Less
    } else if a == b {
        Order::Same
    } else {
        Order::Greater
    }
}

/// Compares two truth values; false comes first.
pub fn order_bool(a: bool, b: bool) -> (r: Order)
    ensures
        r == bool_order(a, b),
{
    if a == b {
        Order::Same
    } else if b {
        Order::Less
    } else {
        Order::Greater
    }
}

/// Comparing two truth values; false comes first.
pub open spec fn bool_order(a: bool, b: bool) -> Order {
    if a == b {
        Order::Same
    } else if b {
        Order::Less
    } else {
        Order::Greater
    }
}

/// Compares two texts.
pub fn order_str(a: &str, b: &str) -> (r: Order)
    ensures
        r == str_order(a@, b@),
{
    let x: Vec<char> = chars_of(a);
    let y: Vec<char> = chars_of(b);
    let mut i: usize = 0;
    assert(a@.skip(0) =~= a@);
    assert(b@.skip(0) =~= b@);
    loop
        invariant
            x@ == a@,
            y@ == b@,
            i <= x@.len(),
            i <= y@.len(),
            str_order(a@, b@) == str_order(a@.skip(i as int), b@.skip(i as int)),
        decreases x@.len() - i,
    {
        if i == x.len() {
            return if i == y.len() { Order::Same } else { Order::Less };
        }
        if i == y.len() {
            return Order::Greater;
        }
        if x[i] < y[i] {
            return Order::Less;
        }
        if x[i] > y[i] {
            return Order::Greater;
        }
        assert(a@.skip(i as int).skip(1) =~= a@.skip(i + 1));
        assert(b@.skip(i as int).skip(1) =~= b@.skip(i + 1));
        i = i + 1;
    }
}

/// A strict total order.
pub open spec fn strict_total<T>(less: spec_fn(T, T) -> bool) -> bool {
    &&& forall|a: T, b: T| #[trigger] less(a, b) ==> a != b && !less(b, a)
    &&& forall|a: T, b: T| a == b || #[trigger] less(a, b) || less(b, a)
    &&& forall|a: T, b: T, c: T| #[trigger] less(a, b) && #[trigger] less(b, c) ==> less(a, c)
}

/// Every element comes before every later one.
pub open spec fn strictly_sorted<T>(v: Seq<T>, less: spec_fn(T, T) -> bool) -> bool {
    forall|i: int, j: int| 0 <= i < j < v.len() ==> less(#[trigger] v[i], #[trigger] v[j])
}

/// The number of leading elements that come before `x`.
pub open spec fn lower<T>(v: Seq<T>, x: T, less: spec_fn(T, T) -> bool) -> nat
    decreases v.len(),
{
    if v.len() == 0 || !less(v[0], x) {
        0
    } else {
        1 + lower(v.skip(1), x, less)
    }
}

/// A sorted list with `x` in its place; an element that is there already is not
/// repeated.
pub open spec fn put_sorted<T>(v: Seq<T>, x: T, less: spec_fn(T, T) -> bool) -> Seq<T> {
    let p = lower(v, x, less);
    if p < v.len() && v[p as int] == x {
        v
    } else {
        v.insert(p as int, x)
    }
}

/// The elements of a list, sorted, each once.
pub open spec fn sorted_set<T>(s: Seq<T>, less: spec_fn(T, T) -> bool) -> Seq<T>
    decreases s.len(),
{
    if s.len() == 0 {
        Seq::empty()
    } else {
        put_sorted(sorted_set(s.drop_last(), less), s.last(), less)
    }
}

/// `lower` counts exactly the leading elements that come before.
pub proof fn lemma_lower<T>(v: Seq<T>, x: T, less: spec_fn(T, T) -> bool)
    ensures
        lower(v, x, less) <= v.len(),
        forall|i: int| 0 <= i < lower(v, x, less) ==> less(#[trigger] v[i], x),
        lower(v, x, less) < v.len() ==> !less(v[lower(v, x, less) as int], x),
    decreases v.len(),
{
    if v.len() > 0 && less(v[0], x) {
        let rest = v.skip(1);
        lemma_lower(rest, x, less);
        assert forall|i: int| 0 <= i < lower(v, x, less) implies less(#[trigger] v[i], x) by {
            if i > 0 {
                assert(rest[i - 1] == v[i]);
            }
        }
        if lower(v, x, less) < v.len() {
            assert(rest[lower(rest, x, less) as int] == v[lower(v, x, less) as int]);
        }
    }
}

/// A position with these properties is `lower`.
pub proof fn lemma_lower_unique<T>(v: Seq<T>, x: T, less: spec_fn(T, T) -> bool, p: int)
    requires
        0 <= p <= v.len(),
        forall|i: int| 0 <= i < p ==> less(#[trigger] v[i], x),
        p < v.len() ==> !less(v[p], x),
    ensures
        lower(v, x, less) == p,
    decreases v.len(),
{
    if p > 0 {
        assert(less(v[0], x));
        let rest = v.skip(1);
        assert forall|i: int| 0 <= i < p - 1 implies less(#[trigger] rest[i], x) by {
            assert(rest[i] == v[i + 1]);
        }
        if p < v.len() {
            assert(rest[p - 1] == v[p]);
        }
        lemma_lower_unique(rest, x, less, p - 1);
    }
}

/// Putting an element into a sorted list keeps it sorted and adds just it.
pub proof fn lemma_put_sorted<T>(v: Seq<T>, x: T, less: spec_fn(T, T) -> bool)
    requires
        strict_total(less),
        strictly_sorted(v, less),
    ensures
        strictly_sorted(put_sorted(v, x, less), less),
        forall|y: T| #[trigger] put_sorted(v, x, less).contains(y) <==> v.contains(y) || y == x,
{
    lemma_lower(v, x, less);
    let p = lower(v, x, less) as int;
    let w = put_sorted(v, x, less);
    if p < v.len() && v[p] == x {
        assert(v.contains(x));
    } else {
        assert(w == v.insert(p, x));
        assert forall|i: int, j: int| 0 <= i < j < w.len() implies less(#[trigger] w[i], #[trigger] w[j]) by {
            let vi = if i < p { v[i] } else { v[i - 1] };
            if i < p && j < p {
                assert(less(v[i], v[j]));
            } else if i < p && j == p {
                assert(less(v[i], x));
            } else if i < p {
                assert(less(v[i], v[j - 1]));
            } else if i == p {
                assert(v[j - 1] == w[j]);
                assert(less(x, v[p]));
                if j - 1 > p {
                    assert(less(v[p], v[j - 1]));
                }
            } else {
                assert(less(v[i - 1], v[j - 1]));
            }
        }
        assert forall|y: T| #[trigger] w.contains(y) <==> v.contains(y) || y == x by {
            if w.contains(y) {
                let k = choose|k: int| 0 <= k < w.len() && w[k] == y;
                if k < p {
                    assert(v[k] == y);
                } else if k > p {
                    assert(v[k - 1] == y);
                }
            }
            if v.contains(y) {
                let k = choose|k: int| 0 <= k < v.len() && v[k] == y;
                if k < p {
                    assert(w[k] == y);
                } else {
                    assert(w[k + 1] == y);
                }
            }
            assert(w[p] == x);
        }
    }
}

/// `sorted_set` is strictly sorted and holds exactly the elements of the list.
pub proof fn lemma_sorted_set<T>(s: Seq<T>, less: spec_fn(T, T) -> bool)
    requires
        strict_total(less),
    ensures
        strictly_sorted(sorted_set(s, less), less),
        forall|y: T| #[trigger] sorted_set(s, less).contains(y) <==> s.contains(y),
    decreases s.len(),
{
    if s.len() > 0 {
        lemma_sorted_set(s.drop_last(), less);
        lemma_put_sorted(sorted_set(s.drop_last(), less), s.last(), less);
        assert forall|y: T| #[trigger] sorted_set(s, less).contains(y) <==> s.contains(y) by {
            if s.contains(y) {
                let k = choose|k: int| 0 <= k < s.len() && s[k] == y;
                if k < s.len() - 1 {
                    assert(s.drop_last()[k] == y);
                }
            }
            if s.drop_last().contains(y) {
                let k = choose|k: int| 0 <= k < s.drop_last().len() && s.drop_last()[k] == y;
                assert(s[k] == y);
            }
            assert(s[s.len() - 1] == s.last());
        }
    }
}

/// Two strictly sorted lists with the same elements are the same list.
pub proof fn lemma_strictly_sorted_unique<T>(a: Seq<T>, b: Seq<T>, less: spec_fn(T, T) -> bool)
    requires
        strict_total(less),
        strictly_sorted(a, less),
        strictly_sorted(b, less),
        forall|y: T| #[trigger] a.contains(y) <==> b.contains(y),
    ensures
        a == b,
    decreases a.len(),
{
    if a.len() == 0 {
        if b.len() > 0 {
            assert(b.contains(b[0]));
            assert(a.contains(b[0]));
        }
        assert(a =~= b);
    } else {
        assert(a.contains(a[0]));
        assert(b.contains(a[0]));
        let j = choose|j: int| 0 <= j < b.len() && b[j] == a[0];
        assert(b.contains(b[0]));
        assert(a.contains(b[0]));
        let i = choose|i: int| 0 <= i < a.len() && a[i] == b[0];
        if j > 0 {
            assert(less(b[0], b[j]));
            if i > 0 {
                assert(less(a[0], a[i]));
            }
        }
        assert(a[0] == b[0]);
        let a1 = a.skip(1);
        let b1 = b.skip(1);
        assert forall|p: int, q: int| 0 <= p < q < a1.len() implies less(
            #[trigger] a1[p],
            #[trigger] a1[q],
        ) by {
            assert(less(a[p + 1], a[q + 1]));
        }
        assert forall|p: int, q: int| 0 <= p < q < b1.len() implies less(
            #[trigger] b1[p],
            #[trigger] b1[q],
        ) by {
            assert(less(b[p + 1], b[q + 1]));
        }
        assert forall|y: T| #[trigger] a1.contains(y) <==> b1.contains(y) by {
            if a1.contains(y) {
                let k = choose|k: int| 0 <= k < a1.len() && a1[k] == y;
                assert(a[k + 1] == y);
                assert(less(a[0], a[k + 1]));
                assert(a.contains(y));
                assert(b.contains(y));
                let m = choose|m: int| 0 <= m < b.len() && b[m] == y;
                assert(b1[m - 1] == y);
            }
            if b1.contains(y) {
                let k = choose|k: int| 0 <= k < b1.len() && b1[k] == y;
                assert(b[k + 1] == y);
                assert(less(b[0], b[k + 1]));
                assert(a.contains(y));
                let m = choose|m: int| 0 <= m < a.len() && a[m] == y;
                assert(a1[m - 1] == y);
            }
        }
        lemma_strictly_sorted_unique(a1, b1, less);
        assert(a =~= seq![a[0]] + a1);
        assert(b =~= seq![b[0]] + b1);
    }
}

/// Lists with the same elements sort to the same list.
pub proof fn lemma_sorted_set_order_free<T>(s: Seq<T>, t: Seq<T>, less: spec_fn(T, T) -> bool)
    requires
        strict_total(less),
        forall|y: T| #[trigger] s.contains(y) <==> t.contains(y),
    ensures
        sorted_set(s, less) == sorted_set(t, less),
{
    lemma_sorted_set(s, less);
    lemma_sorted_set(t, less);
    assert forall|y: T| #[trigger] sorted_set(s, less).contains(y) <==> sorted_set(t, less).contains(y) by {
        assert(s.contains(y) <==> t.contains(y));
    }
    lemma_strictly_sorted_unique(sorted_set(s, less), sorted_set(t, less), less);
}

/// Whether one text comes before another.
pub open spec fn str_less() -> spec_fn(Seq<char>, Seq<char>) -> bool {
    |a: Seq<char>, b: Seq<char>| str_order(a, b) is Less
}

/// The order of texts is a strict total order.
pub proof fn law_text_order_total()
    ensures
        strict_total(str_less()),
{
    let less = str_less();
    assert forall|a: Seq<char>, b: Seq<char>| #[trigger] less(a, b) implies a != b && !less(b, a) by {
        lemma_str_order(a, b, b);
    }
    assert forall|a: Seq<char>, b: Seq<char>| a == b || #[trigger] less(a, b) || less(b, a) by {
        lemma_str_order(a, b, b);
    }
    assert forall|a: Seq<char>, b: Seq<char>, c: Seq<char>| #[trigger] less(a, b) && #[trigger] less(b, c) implies less(
        a,
        c,
    ) by {
        lemma_str_order(a, b, c);
    }
}

/// Puts a name into a sorted list, unless it is there.
pub fn put_name(names: &mut Vec<String>, x: String)
    ensures
        strings_view(*final(names)) == put_sorted(strings_view(*old(names)), x@, str_less()),
{
    let ghost v = strings_view(*names);
    let mut p: usize = 0;
    while p < names.len() && order_str(&names[p], &x) == Order::Less
        invariant
            v == strings_view(*names),
            p <= names@.len(),
            forall|i: int| 0 <= i < p ==> str_less()(#[trigger] v[i], x@),
        decreases names@.len() - p,
    {
        p = p + 1;
    }
    proof {
        lemma_lower_unique(v, x@, str_less(), p as int);
    }
    if p < names.len() && names[p] == x {
        return;
    }
    names.insert(p, x);
    assert(strings_view(*names) =~= v.insert(p as int, x@));
}

/// A text comes before every longer text that it starts, and otherwise the first
/// characters that differ decide, by their codes.
pub proof fn law_text_order(shared: Seq<char>, a: Seq<char>, b: Seq<char>)
    ensures
        a.len() > 0 ==> str_order(shared, shared + a) is Less,
        a.len() > 0 && b.len() > 0 && a[0] < b[0] ==> str_order(shared + a, shared + b) is Less,
        str_order(shared, shared) is Same,
    decreases shared.len(),
{
    if shared.len() > 0 {
        law_text_order(shared.skip(1), a, b);
        assert((shared + a).skip(1) =~= shared.skip(1) + a);
        assert((shared + b).skip(1) =~= shared.skip(1) + b);
    } else {
        assert(shared + a =~= a);
        assert(shared + b =~= b);
    }
}

} // verus!
