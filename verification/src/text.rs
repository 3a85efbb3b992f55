//! Building and searching text.

use vstd::prelude::*;

verus! {

/// `String::push` appends one character.
pub assume_specification[ String::push ](s: &mut String, c: char)
    ensures
        final(s)@ == old(s)@.push(c),
;

/// What `{:?}` writes of a text: the text in quotes, with escapes.
pub uninterp spec fn quoted_text(s: Seq<char>) -> Seq<char>;

/// `<str as Debug>::fmt`, through `format!`: the text in double quotes, with what is
/// not printable escaped. Letters and digits of ASCII and `_` need no escape; beyond
/// them the contract only names the result.
#[verifier::external_body]
pub(crate) fn quoted(s: &str) -> (r: String)
    ensures
        r@ == quoted_text(s@),
        (forall|i: int| 0 <= i < s@.len() ==> is_alnum(#[trigger] s@[i]) || s@[i] == '_') ==> r@ == seq!['"'] + s@ + seq![
            '"',
        ],
{
    format!("{:?}", s)
}

/// The character of a decimal or hexadecimal digit; `upper` picks the case of a
/// letter.
pub open spec fn digit_char(d: int, upper: bool) -> char {
    if d < 10 {
        (48 + d) as char
    } else if upper {
        (55 + d) as char
    } else {
        (87 + d) as char
    }
}

/// The digits of `n` in `base`, most significant first.
pub open spec fn digits(n: nat, base: nat, upper: bool) -> Seq<char>
    decreases n,
{
    if n < base || base < 2 {
        seq![digit_char(n as int, upper)]
    } else {
        proof {
            lemma_quotient_smaller(n, base);
        }
        digits(n / base, base, upper).push(digit_char((n % base) as int, upper))
    }
}

pub proof fn lemma_quotient_smaller(n: nat, base: nat)
    requires
        2 <= base <= n,
    ensures
        n / base < n,
{
    assert(n / base < n) by (nonlinear_arith)
        requires
            2 <= base <= n,
    ;
}

/// The decimal spelling of a natural number.
pub open spec fn dec(n: nat) -> Seq<char> {
    digits(n, 10, false)
}

/// The decimal spelling of an integer, with a leading `-` below zero.
pub open spec fn dec_int(n: int) -> Seq<char> {
    if n < 0 {
        seq!['-'] + dec((-n) as nat)
    } else {
        dec(n as nat)
    }
}

/// The character of a digit.
pub fn digit(d: u8, upper: bool) -> (r: char)
    requires
        d < 16,
    ensures
        r == digit_char(d as int, upper),
{
    if d < 10 {
        (48 + d) as char
    } else if upper {
        (55 + d) as char
    } else {
        (87 + d) as char
    }
}

/// Appends the digits of `n` in `base`.
pub fn push_digits(s: &mut String, n: u64, base: u64, upper: bool)
    requires
        2 <= base <= 16,
    ensures
        final(s)@ == old(s)@ + digits(n as nat, base as nat, upper),
    decreases n,
{
    if n >= base {
        proof {
            lemma_quotient_smaller(n as nat, base as nat);
        }
        push_digits(s, n / base, base, upper);
    }
    proof {
        vstd::arithmetic::div_mod::lemma_mod_bound(n as int, base as int);
        if n < base {
            vstd::arithmetic::div_mod::lemma_small_mod(n as nat, base as nat);
        }
    }
    s.push(digit((n % base) as u8, upper));
    assert(s@ =~= old(s)@ + digits(n as nat, base as nat, upper));
}

/// The decimal spelling of `n`.
pub fn dec_text(n: u64) -> (r: String)
    ensures
        r@ == dec(n as nat),
{
    let mut s: String = String::new();
    push_digits(&mut s, n, 10, false);
    assert(s@ =~= dec(n as nat));
    s
}

/// The decimal spelling of `n`.
pub fn dec_text_usize(n: usize) -> (r: String)
    ensures
        r@ == dec(n as nat),
{
    dec_text(n as u64)
}

/// The decimal spelling of `n`.
pub fn dec_text_i64(n: i64) -> (r: String)
    ensures
        r@ == dec_int(n as int),
{
    let mut s: String = String::new();
    if n < 0 {
        s.push('-');
        let magnitude: u64 = if n == i64::MIN { 0x8000_0000_0000_0000 } else { (-n) as u64 };
        push_digits(&mut s, magnitude, 10, false);
    } else {
        push_digits(&mut s, n as u64, 10, false);
    }
    assert(s@ =~= dec_int(n as int));
    s
}

/// `a` followed by `b`.
pub fn cat2(a: &str, b: &str) -> (r: String)
    ensures
        r@ == a@ + b@,
{
    let mut s: String = a.to_owned();
    s.append(b);
    s
}

pub fn cat3(a: &str, b: &str, c: &str) -> (r: String)
    ensures
        r@ == a@ + b@ + c@,
{
    let mut s: String = cat2(a, b);
    s.append(c);
    s
}

pub fn cat4(a: &str, b: &str, c: &str, d: &str) -> (r: String)
    ensures
        r@ == a@ + b@ + c@ + d@,
{
    let mut s: String = cat3(a, b, c);
    s.append(d);
    s
}

pub fn cat5(a: &str, b: &str, c: &str, d: &str, e: &str) -> (r: String)
    ensures
        r@ == a@ + b@ + c@ + d@ + e@,
{
    let mut s: String = cat4(a, b, c, d);
    s.append(e);
    s
}

pub fn cat6(a: &str, b: &str, c: &str, d: &str, e: &str, f: &str) -> (r: String)
    ensures
        r@ == a@ + b@ + c@ + d@ + e@ + f@,
{
    let mut s: String = cat5(a, b, c, d, e);
    s.append(f);
    s
}

pub fn cat7(a: &str, b: &str, c: &str, d: &str, e: &str, f: &str, g: &str) -> (r: String)
    ensures
        r@ == a@ + b@ + c@ + d@ + e@ + f@ + g@,
{
    let mut s: String = cat6(a, b, c, d, e, f);
    s.append(g);
    s
}

pub fn cat8(a: &str, b: &str, c: &str, d: &str, e: &str, f: &str, g: &str, h: &str) -> (r: String)
    ensures
        r@ == a@ + b@ + c@ + d@ + e@ + f@ + g@ + h@,
{
    let mut s: String = cat7(a, b, c, d, e, f, g);
    s.append(h);
    s
}

pub fn cat9(a: &str, b: &str, c: &str, d: &str, e: &str, f: &str, g: &str, h: &str, i: &str) -> (r: String)
    ensures
        r@ == a@ + b@ + c@ + d@ + e@ + f@ + g@ + h@ + i@,
{
    let mut s: String = cat8(a, b, c, d, e, f, g, h);
    s.append(i);
    s
}

/// The characters of `s`.
pub fn chars_of(s: &str) -> (r: Vec<char>)
    ensures
        r@ == s@,
{
    let mut out: Vec<char> = Vec::new();
    for c in it: s.chars()
        invariant
            it.seq() == s@,
            out@ == s@.take(it.index()),
    {
        assert(s@.take(it.index() + 1) =~= s@.take(it.index()).push(c));
        out.push(c);
    }
    assert(s@.take(s@.len() as int) =~= s@);
    out
}

/// A string of the characters of `v`.
pub fn string_of(v: &Vec<char>) -> (r: String)
    ensures
        r@ == v@,
{
    let mut s: String = String::new();
    for i in 0..v.len()
        invariant
            s@ == v@.take(i as int),
    {
        assert(v@.take(i + 1) =~= v@.take(i as int).push(v@[i as int]));
        s.push(v[i]);
    }
    assert(v@.take(v@.len() as int) =~= v@);
    s
}

/// Whether the two strings hold the same characters.
pub fn str_eq(a: &str, b: &str) -> (r: bool)
    ensures
        r == (a@ == b@),
{
    a.to_owned() == b.to_owned()
}

/// Whether `part` occurs in `whole` at position `at`.
pub open spec fn occurs_at(whole: Seq<char>, part: Seq<char>, at: int) -> bool {
    0 <= at && at + part.len() <= whole.len() && whole.subrange(at, at + part.len()) == part
}

/// Whether `v` holds `p` at position `at`.
pub fn chars_at(v: &Vec<char>, p: &Vec<char>, at: usize) -> (r: bool)
    requires
        at <= v@.len(),
    ensures
        r == occurs_at(v@, p@, at as int),
{
    let n: usize = v.len();
    if n - at < p.len() {
        return false;
    }
    for i in 0..p.len()
        invariant
            n == v@.len(),
            at + p@.len() <= n,
            forall|j: int| 0 <= j < i ==> v@[at + j] == p@[j],
    {
        if v[at + i] != p[i] {
            assert(v@.subrange(at as int, at + p@.len())[i as int] != p@[i as int]);
            return false;
        }
    }
    assert(v@.subrange(at as int, at + p@.len()) =~= p@);
    true
}

/// Whether `s` starts with `p`.
pub fn starts_with(s: &str, p: &str) -> (r: bool)
    ensures
        r == occurs_at(s@, p@, 0),
{
    chars_at(&chars_of(s), &chars_of(p), 0)
}

/// Whether `s` ends with `p`.
pub fn ends_with(s: &str, p: &str) -> (r: bool)
    ensures
        r == occurs_at(s@, p@, s@.len() - p@.len()),
{
    let v: Vec<char> = chars_of(s);
    let q: Vec<char> = chars_of(p);
    if q.len() > v.len() {
        return false;
    }
    chars_at(&v, &q, v.len() - q.len())
}

/// The first position at which `part` occurs in `whole`, if it occurs.
#[verifier::opaque]
pub open spec fn first_occurrence(whole: Seq<char>, part: Seq<char>) -> Option<int> {
    if exists|at: int| occurs_at(whole, part, at) {
        Some(
            choose|at: int| #[trigger] occurs_at(whole, part, at) && forall|k: int| 0 <= k < at ==> !occurs_at(whole, part, k)
        )
    } else {
        None
    }
}

/// The last position at which `part` occurs in `whole`, if it occurs.
#[verifier::opaque]
pub open spec fn last_occurrence(whole: Seq<char>, part: Seq<char>) -> Option<int> {
    if exists|at: int| occurs_at(whole, part, at) {
        Some(
            choose|at: int| #[trigger] occurs_at(whole, part, at) && forall|k: int| at < k ==> !occurs_at(whole, part, k)
        )
    } else {
        None
    }
}

/// Where something occurs and does not occur behind, it occurs last.
pub proof fn lemma_last_occurrence(whole: Seq<char>, part: Seq<char>, at: int)
    requires
        occurs_at(whole, part, at),
        forall|k: int| at < k ==> !occurs_at(whole, part, k),
    ensures
        last_occurrence(whole, part) == Some(at),
{
    reveal(last_occurrence);
    let chosen = choose|k: int| #[trigger]
        occurs_at(whole, part, k) && forall|j: int| k < j ==> !occurs_at(whole, part, j);
    assert(chosen == at);
}

/// What occurs anywhere occurs last somewhere, at or behind that place.
pub proof fn lemma_occurs_last(whole: Seq<char>, part: Seq<char>, at: int)
    requires
        occurs_at(whole, part, at),
    ensures
        last_occurrence(whole, part) matches Some(last)
            && at <= last
            && occurs_at(whole, part, last)
            && forall|k: int|
            last < k ==> !occurs_at(whole, part, k),
    decreases whole.len() - at,
{
    if exists|k: int| at < k && occurs_at(whole, part, k) {
        let k = choose|k: int| at < k && occurs_at(whole, part, k);
        lemma_occurs_last(whole, part, k);
    } else {
        lemma_last_occurrence(whole, part, at);
    }
}

/// Finds the first occurrence of `p` in `s`.
pub fn find_first(s: &str, p: &str) -> (r: Option<usize>)
    ensures
        r is Some <==> first_occurrence(s@, p@) is Some,
        r matches Some(at) ==> first_occurrence(s@, p@) == Some(at as int) && occurs_at(s@, p@, at as int),
{
    let v: Vec<char> = chars_of(s);
    let q: Vec<char> = chars_of(p);
    let n: usize = v.len();
    let mut at: usize = 0;
    loop
        invariant
            v@ == s@,
            q@ == p@,
            n == v@.len(),
            at <= n,
            forall|k: int| 0 <= k < at ==> !occurs_at(s@, p@, k),
        decreases n - at,
    {
        if chars_at(&v, &q, at) {
            assert(occurs_at(s@, p@, at as int));
            let ghost chosen = choose|k: int| #[trigger] occurs_at(s@, p@, k) && forall|j: int| 0 <= j < k ==> !occurs_at(s@, p@, j);
            assert(chosen == at);
            proof {
                reveal(first_occurrence);
            }
            return Some(at);
        }
        if at == n {
            proof {
                reveal(first_occurrence);
            }
            assert forall|k: int| !occurs_at(s@, p@, k) by {
                if k == n {
                }
            }
            return None;
        }
        at = at + 1;
    }
}

/// Finds the last occurrence of `p` in `s`.
pub fn find_last(s: &str, p: &str) -> (r: Option<usize>)
    ensures
        r is Some <==> last_occurrence(s@, p@) is Some,
        r matches Some(at) ==> last_occurrence(s@, p@) == Some(at as int) && occurs_at(s@, p@, at as int),
{
    let v: Vec<char> = chars_of(s);
    let q: Vec<char> = chars_of(p);
    let mut at: usize = v.len();
    loop
        invariant
            v@ == s@,
            q@ == p@,
            at <= v@.len(),
            forall|k: int| at < k ==> !occurs_at(s@, p@, k),
        decreases at,
    {
        if chars_at(&v, &q, at) {
            assert(occurs_at(s@, p@, at as int));
            let ghost chosen = choose|k: int| #[trigger] occurs_at(s@, p@, k) && forall|j: int| k < j ==> !occurs_at(s@, p@, j);
            assert(chosen == at);
            proof {
                reveal(last_occurrence);
            }
            return Some(at);
        }
        if at == 0 {
            proof {
                reveal(last_occurrence);
            }
            assert forall|k: int| !occurs_at(s@, p@, k) by {
                if k == 0 {
                }
            }
            return None;
        }
        at = at - 1;
    }
}

/// The text after its leading stars.
pub open spec fn without_stars(s: Seq<char>) -> Seq<char>
    decreases s.len(),
{
    if s.len() > 0 && s[0] == '*' {
        without_stars(s.skip(1))
    } else {
        s
    }
}

/// The text after its leading stars.
pub fn trim_stars(s: &str) -> (r: String)
    ensures
        r@ == without_stars(s@),
{
    let v: Vec<char> = chars_of(s);
    let mut i: usize = 0;
    assert(s@.skip(0) =~= s@);
    while i < v.len() && v[i] == '*'
        invariant
            v@ == s@,
            i <= v@.len(),
            without_stars(s@) == without_stars(s@.skip(i as int)),
        decreases v@.len() - i,
    {
        assert(s@.skip(i as int).skip(1) =~= s@.skip(i + 1));
        i = i + 1;
    }
    let rest: &str = s.substring_char(i, v.len());
    assert(rest@ =~= s@.skip(i as int));
    rest.to_owned()
}

/// The parts in order, with `separator` between each two.
pub open spec fn join(parts: Seq<Seq<char>>, separator: Seq<char>) -> Seq<char>
    decreases parts.len(),
{
    if parts.len() == 0 {
        Seq::empty()
    } else if parts.len() == 1 {
        parts[0]
    } else {
        join(parts.drop_last(), separator) + separator + parts.last()
    }
}

/// Appends one more part to a joined text.
pub(crate) fn join_push(
    s: &mut String,
    first: bool,
    separator: &str,
    part: &str,
    Ghost(parts): Ghost<Seq<Seq<char>>>,
)
    requires
        old(s)@ == join(parts, separator@),
        first == (parts.len() == 0),
    ensures
        final(s)@ == join(parts.push(part@), separator@),
{
    assert(parts.push(part@).drop_last() =~= parts);
    if !first {
        s.append(separator);
    }
    s.append(part);
    assert(s@ =~= join(parts.push(part@), separator@));
}

/// The parts in order.
pub open spec fn concat(parts: Seq<Seq<char>>) -> Seq<char>
    decreases parts.len(),
{
    if parts.len() == 0 {
        Seq::empty()
    } else {
        concat(parts.drop_last()) + parts.last()
    }
}

/// One more part stands behind the others.
pub proof fn lemma_concat_push(parts: Seq<Seq<char>>, part: Seq<char>)
    ensures
        concat(parts.push(part)) == concat(parts) + part,
{
    assert(parts.push(part).drop_last() =~= parts);
}

/// Parts before a split stand before the parts behind it.
pub proof fn lemma_concat_add(a: Seq<Seq<char>>, b: Seq<Seq<char>>)
    ensures
        concat(a + b) == concat(a) + concat(b),
    decreases b.len(),
{
    if b.len() == 0 {
        assert(a + b =~= a);
        assert(concat(a) + concat(b) =~= concat(a));
    } else {
        assert((a + b).drop_last() =~= a + b.drop_last());
        lemma_concat_add(a, b.drop_last());
        assert(concat(a + b) =~= concat(a) + concat(b));
    }
}

/// Whether a character is an ASCII letter or digit.
pub open spec fn is_alnum(c: char) -> bool {
    ('0' <= c && c <= '9') || ('A' <= c && c <= 'Z') || ('a' <= c && c <= 'z')
}

/// Whether a character is an ASCII letter or digit.
pub fn alnum(c: char) -> (r: bool)
    ensures
        r == is_alnum(c),
{
    ('0' <= c && c <= '9') || ('A' <= c && c <= 'Z') || ('a' <= c && c <= 'z')
}

} // verus!
