//! Deterministic C-safe mangling of symbol names.
//!
//! Symbol names are already globally unique, but hold characters that are not
//! valid in native symbols. This module applies a purely mechanical, injective
//! escape; it never derives identity anew.

use crate::text::{alnum, digit, digit_char, is_alnum};
use vstd::prelude::*;

verus! {

/// The characters that one byte of a name mangles to: a letter or digit is
/// itself, `_` is `_u`, and any other byte is `_` with two hex digits.
pub open spec fn escape(byte: u8) -> Seq<char> {
    if is_alnum(byte as char) {
        seq![byte as char]
    } else if byte == 95 {
        seq!['_', 'u']
    } else {
        seq!['_', digit_char((byte / 16) as int, false), digit_char((byte % 16) as int, false)]
    }
}

/// The escaped bytes of a name.
pub open spec fn escaped(bytes: Seq<u8>) -> Seq<char>
    decreases bytes.len(),
{
    if bytes.len() == 0 {
        Seq::empty()
    } else {
        escape(bytes[0]) + escaped(bytes.skip(1))
    }
}

/// The native symbol of a name given by its bytes.
pub open spec fn mangled(bytes: Seq<u8>) -> Seq<char> {
    seq!['m', 'j', '_'] + escaped(bytes)
}

/// Whether a character may stand in a C identifier.
pub open spec fn c_char(c: char) -> bool {
    is_alnum(c) || c == '_'
}

proof fn lemma_escape(byte: u8)
    ensures
        1 <= escape(byte).len() <= 3,
        forall|i: int| 0 <= i < escape(byte).len() ==> c_char(#[trigger] escape(byte)[i]),
        is_alnum(byte as char) <==> escape(byte)[0] != '_',
{
}

/// Every mangled name is a C identifier in the `mj_` namespace.
pub proof fn law_mangled_is_c_safe(bytes: Seq<u8>)
    ensures
        mangled(bytes).len() >= 3,
        mangled(bytes).take(3) == seq!['m', 'j', '_'],
        forall|i: int| 0 <= i < mangled(bytes).len() ==> c_char(#[trigger] mangled(bytes)[i]),
{
    assert(mangled(bytes).take(3) =~= seq!['m', 'j', '_']);
    lemma_escaped_c_safe(bytes);
    assert forall|i: int| 0 <= i < mangled(bytes).len() implies c_char(#[trigger] mangled(bytes)[i]) by {
        if i >= 3 {
            assert(mangled(bytes)[i] == escaped(bytes)[i - 3]);
        }
    }
}

proof fn lemma_escaped_c_safe(bytes: Seq<u8>)
    ensures
        forall|i: int| 0 <= i < escaped(bytes).len() ==> c_char(#[trigger] escaped(bytes)[i]),
    decreases bytes.len(),
{
    if bytes.len() > 0 {
        lemma_escape(bytes[0]);
        lemma_escaped_c_safe(bytes.skip(1));
        let head = escape(bytes[0]);
        assert forall|i: int| 0 <= i < escaped(bytes).len() implies c_char(#[trigger] escaped(bytes)[i]) by {
            if i < head.len() {
                assert(escaped(bytes)[i] == head[i]);
            } else {
                assert(escaped(bytes)[i] == escaped(bytes.skip(1))[i - head.len()]);
            }
        }
    }
}

proof fn lemma_digit_char(a: int, b: int)
    requires
        0 <= a < 16,
        0 <= b < 16,
    ensures
        digit_char(a, false) == digit_char(b, false) ==> a == b,
        digit_char(a, false) != 'u',
{
}

/// One escape cannot start another, and tells its byte.
proof fn lemma_escape_head(a: u8, x: Seq<char>, b: u8, y: Seq<char>)
    requires
        escape(a) + x == escape(b) + y,
    ensures
        a == b,
        x == y,
{
    let p = escape(a) + x;
    let q = escape(b) + y;
    lemma_escape(a);
    lemma_escape(b);
    assert(p[0] == escape(a)[0]);
    assert(q[0] == escape(b)[0]);
    if !is_alnum(a as char) {
        assert(p[1] == escape(a)[1]);
        assert(q[1] == escape(b)[1]);
        lemma_digit_char((a / 16) as int, (b / 16) as int);
        lemma_digit_char((b / 16) as int, (a / 16) as int);
        if a != 95 && b != 95 {
            assert(p[2] == escape(a)[2]);
            assert(q[2] == escape(b)[2]);
            lemma_digit_char((a % 16) as int, (b % 16) as int);
            assert(a == b) by (nonlinear_arith)
                requires
                    a / 16 == b / 16,
                    a % 16 == b % 16,
            ;
        }
    }
    assert(a == b);
    assert(x =~= p.skip(escape(a).len() as int));
    assert(y =~= q.skip(escape(b).len() as int));
}

proof fn lemma_escaped_injective(a: Seq<u8>, b: Seq<u8>)
    requires
        escaped(a) == escaped(b),
    ensures
        a == b,
    decreases a.len(),
{
    if a.len() == 0 {
        if b.len() > 0 {
            lemma_escape(b[0]);
            assert(escaped(b).len() > 0);
        }
        assert(a =~= b);
    } else if b.len() == 0 {
        lemma_escape(a[0]);
        assert(escaped(a).len() > 0);
    } else {
        lemma_escape_head(a[0], escaped(a.skip(1)), b[0], escaped(b.skip(1)));
        lemma_escaped_injective(a.skip(1), b.skip(1));
        assert(a =~= seq![a[0]] + a.skip(1));
        assert(b =~= seq![b[0]] + b.skip(1));
    }
}

/// Mangling is injective: different names have different symbols.
pub proof fn law_mangle_injective(a: Seq<char>, b: Seq<char>)
    requires
        mangled(vstd::utf8::encode_utf8(a)) == mangled(vstd::utf8::encode_utf8(b)),
    ensures
        a == b,
{
    let x = vstd::utf8::encode_utf8(a);
    let y = vstd::utf8::encode_utf8(b);
    assert(escaped(x) =~= mangled(x).skip(3));
    assert(escaped(y) =~= mangled(y).skip(3));
    lemma_escaped_injective(x, y);
    vstd::utf8::encode_utf8_decode_utf8(a);
    vstd::utf8::encode_utf8_decode_utf8(b);
}

/// No mangled name is the executable wrapper `main`, the C `exit`, or in the
/// reserved `mjrt_` namespace of the runtime.
pub proof fn law_mangle_avoids_reserved(bytes: Seq<u8>, rest: Seq<char>)
    ensures
        mangled(bytes) != "main"@,
        mangled(bytes) != "exit"@,
        mangled(bytes) != "mjrt_"@ + rest,
{
    reveal_strlit("main");
    reveal_strlit("exit");
    reveal_strlit("mjrt_");
    let m = mangled(bytes);
    assert(m[0] == 'm' && m[1] == 'j' && m[2] == '_');
    assert("main"@[1] == 'a');
    assert("exit"@[0] == 'e');
    assert(("mjrt_"@ + rest)[2] == 'r');
}

/// Mangles a MIR symbol name into a C-safe native symbol.
pub fn mangle(name: &str) -> (r: String)
    ensures
        r@ == mangled(vstd::utf8::encode_utf8(name@)),
{
    let bytes: Vec<u8> = name.as_bytes_vec();
    let ghost all = vstd::utf8::encode_utf8(name@);
    let mut out: String = String::new();
    out.push('m');
    out.push('j');
    out.push('_');
    assert(all.skip(0) =~= all);
    assert(out@ =~= seq!['m', 'j', '_']);
    for i in 0..bytes.len()
        invariant
            all == bytes@,
            out@ + escaped(all.skip(i as int)) == mangled(all),
    {
        let byte: u8 = bytes[i];
        let ghost before = out@;
        let c: char = byte as char;
        if alnum(c) {
            out.push(c);
        } else if byte == 95 {
            out.push('_');
            out.push('u');
        } else {
            out.push('_');
            out.push(digit(byte / 16, false));
            out.push(digit(byte % 16, false));
        }
        proof {
            assert(out@ =~= before + escape(byte));
            assert(all.skip(i as int).skip(1) =~= all.skip(i + 1));
            assert(before + (escape(byte) + escaped(all.skip(i + 1))) =~= out@ + escaped(all.skip(i + 1)));
        }
    }
    assert(all.skip(all.len() as int) =~= Seq::<u8>::empty());
    assert(out@ + Seq::<char>::empty() =~= out@);
    out
}

} // verus!
