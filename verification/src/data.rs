//! Copies and comparisons of plain containers.

use vstd::prelude::*;

verus! {

/// Model of an `Option<String>`.
pub open spec fn opt_string_view(v: Option<String>) -> Option<Seq<char>> {
    match v {
        Some(x) => Some(x@),
        None => None,
    }
}

pub fn copy_opt_string(v: &Option<String>) -> (r: Option<String>)
    ensures
        opt_string_view(r) == opt_string_view(*v),
    decreases v,
{
    match v {
        Some(x) => Some(x.clone()),
        None => None,
    }
}

pub fn same_opt_string(a: &Option<String>, b: &Option<String>) -> (r: bool)
    ensures
        r == (opt_string_view(*a) == opt_string_view(*b)),
    decreases a,
{
    match a {
        Some(x) => match b {
            Some(y) => *x == *y,
            None => false,
        },
        None => match b {
            Some(_) => false,
            None => true,
        },
    }
}

/// Model of a `Vec<String>`.
pub open spec fn strings_view(v: Vec<String>) -> Seq<Seq<char>>
    decreases v,
{
    Seq::new(v@.len(), |i: int| if 0 <= i < v@.len() { v@[i]@ } else { arbitrary() })
}

pub fn copy_strings(v: &Vec<String>) -> (r: Vec<String>)
    ensures
        strings_view(r) == strings_view(*v),
    decreases v,
{
    let mut out: Vec<String> = Vec::new();
    for i in 0..v.len()
        invariant
            out@.len() == i,
            forall|j: int| 0 <= j < i ==> strings_view(out)[j] == strings_view(*v)[j],
    {
        let ghost before = out;
        out.push(v[i].clone());
        assert forall|j: int| 0 <= j < i + 1 implies strings_view(out)[j] == strings_view(*v)[j] by {
            if j < i {
                assert(out@[j] == before@[j]);
                assert(strings_view(before)[j] == strings_view(*v)[j]);
            }
        }
    }
    assert(strings_view(out) =~= strings_view(*v));
    out
}

pub fn same_strings(a: &Vec<String>, b: &Vec<String>) -> (r: bool)
    ensures
        r == (strings_view(*a) == strings_view(*b)),
    decreases a,
{
    if a.len() != b.len() {
        assert(strings_view(*a).len() != strings_view(*b).len());
        return false;
    }
    for i in 0..a.len()
        invariant
            a@.len() == b@.len(),
            forall|j: int| 0 <= j < i ==> strings_view(*a)[j] == strings_view(*b)[j],
    {
        if !(a[i] == b[i]) {
            assert(strings_view(*a)[i as int] != strings_view(*b)[i as int]);
            return false;
        }
    }
    assert(strings_view(*a) =~= strings_view(*b));
    true
}

pub fn copy_u32s(v: &Vec<u32>) -> (r: Vec<u32>)
    ensures
        r@ == v@,
{
    let mut out: Vec<u32> = Vec::new();
    for i in 0..v.len()
        invariant
            out@ == v@.take(i as int),
    {
        assert(v@.take(i as int + 1) =~= v@.take(i as int).push(v@[i as int]));
        out.push(v[i]);
    }
    assert(v@.take(v@.len() as int) =~= v@);
    out
}

pub fn same_u32s(a: &Vec<u32>, b: &Vec<u32>) -> (r: bool)
    ensures
        r == (a@ == b@),
{
    if a.len() != b.len() {
        return false;
    }
    for i in 0..a.len()
        invariant
            a@.len() == b@.len(),
            forall|j: int| 0 <= j < i ==> a@[j] == b@[j],
    {
        if a[i] != b[i] {
            return false;
        }
    }
    assert(a@ =~= b@);
    true
}

pub fn copy_bools(v: &Vec<bool>) -> (r: Vec<bool>)
    ensures
        r@ == v@,
{
    let mut out: Vec<bool> = Vec::new();
    for i in 0..v.len()
        invariant
            out@ == v@.take(i as int),
    {
        assert(v@.take(i as int + 1) =~= v@.take(i as int).push(v@[i as int]));
        out.push(v[i]);
    }
    assert(v@.take(v@.len() as int) =~= v@);
    out
}

pub fn same_bools(a: &Vec<bool>, b: &Vec<bool>) -> (r: bool)
    ensures
        r == (a@ == b@),
{
    if a.len() != b.len() {
        return false;
    }
    for i in 0..a.len()
        invariant
            a@.len() == b@.len(),
            forall|j: int| 0 <= j < i ==> a@[j] == b@[j],
    {
        if a[i] != b[i] {
            return false;
        }
    }
    assert(a@ =~= b@);
    true
}

pub fn copy_usizes(v: &Vec<usize>) -> (r: Vec<usize>)
    ensures
        r@ == v@,
{
    let mut out: Vec<usize> = Vec::new();
    for i in 0..v.len()
        invariant
            out@ == v@.take(i as int),
    {
        assert(v@.take(i as int + 1) =~= v@.take(i as int).push(v@[i as int]));
        out.push(v[i]);
    }
    assert(v@.take(v@.len() as int) =~= v@);
    out
}

pub fn same_usizes(a: &Vec<usize>, b: &Vec<usize>) -> (r: bool)
    ensures
        r == (a@ == b@),
{
    if a.len() != b.len() {
        return false;
    }
    for i in 0..a.len()
        invariant
            a@.len() == b@.len(),
            forall|j: int| 0 <= j < i ==> a@[j] == b@[j],
    {
        if a[i] != b[i] {
            return false;
        }
    }
    assert(a@ =~= b@);
    true
}

pub fn copy_i128s(v: &Vec<i128>) -> (r: Vec<i128>)
    ensures
        r@ == v@,
{
    let mut out: Vec<i128> = Vec::new();
    for i in 0..v.len()
        invariant
            out@ == v@.take(i as int),
    {
        assert(v@.take(i as int + 1) =~= v@.take(i as int).push(v@[i as int]));
        out.push(v[i]);
    }
    assert(v@.take(v@.len() as int) =~= v@);
    out
}

pub fn same_i128s(a: &Vec<i128>, b: &Vec<i128>) -> (r: bool)
    ensures
        r == (a@ == b@),
{
    if a.len() != b.len() {
        return false;
    }
    for i in 0..a.len()
        invariant
            a@.len() == b@.len(),
            forall|j: int| 0 <= j < i ==> a@[j] == b@[j],
    {
        if a[i] != b[i] {
            return false;
        }
    }
    assert(a@ =~= b@);
    true
}

pub fn copy_u64s(v: &Vec<u64>) -> (r: Vec<u64>)
    ensures
        r@ == v@,
{
    let mut out: Vec<u64> = Vec::new();
    for i in 0..v.len()
        invariant
            out@ == v@.take(i as int),
    {
        assert(v@.take(i as int + 1) =~= v@.take(i as int).push(v@[i as int]));
        out.push(v[i]);
    }
    assert(v@.take(v@.len() as int) =~= v@);
    out
}

pub fn same_u64s(a: &Vec<u64>, b: &Vec<u64>) -> (r: bool)
    ensures
        r == (a@ == b@),
{
    if a.len() != b.len() {
        return false;
    }
    for i in 0..a.len()
        invariant
            a@.len() == b@.len(),
            forall|j: int| 0 <= j < i ==> a@[j] == b@[j],
    {
        if a[i] != b[i] {
            return false;
        }
    }
    assert(a@ =~= b@);
    true
}

} // verus!
