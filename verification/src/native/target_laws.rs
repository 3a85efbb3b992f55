//! What targets and the runtime interface promise.

use crate::native::rt_abi::{
    CAbiTy, alloc_model, dealloc_model, fmt_f64_model, fmt_i64_model, fmt_u64_model, symbols_model,
    trap_model, write_stdout_model,
};
use crate::native::target::{
    DebugInfo, EmitKind, OptLevel, binary_kind, debug_of, emit_of, host_triple, opt_of, triple_name,
};
use vstd::prelude::*;

verus! {

/// The triple of a host is spelled by its architecture, operating system and environment.
pub proof fn law_host_spelling(arch: Seq<char>, os: Seq<char>, env: Seq<char>)
    ensures
        host_triple(arch, os, env) matches Some(t) ==> triple_name(t) == arch + "-unknown-"@ + os + "-"@ + env,
{
    if host_triple(arch, os, env) is Some {
        reveal_strlit("x86_64");
        reveal_strlit("linux");
        reveal_strlit("gnu");
        reveal_strlit("-unknown-");
        reveal_strlit("-");
        reveal_strlit("x86_64-unknown-linux-gnu");
        assert("x86_64"@ + "-unknown-"@ + "linux"@ + "-"@ + "gnu"@ =~= "x86_64-unknown-linux-gnu"@);
    }
}

/// Different spellings name different artifacts; exactly those that are text need no
/// output file.
pub proof fn law_emit_kinds(a: Seq<char>, b: Seq<char>, k: EmitKind)
    ensures
        emit_of(a) is Some && emit_of(a) == emit_of(b) ==> a == b,
        emit_of("exe"@) == Some(EmitKind::Exe),
        emit_of("obj"@) == Some(EmitKind::Object),
        emit_of("bc"@) == Some(EmitKind::Bitcode),
        emit_of("ll"@) == Some(EmitKind::LlvmIr),
        emit_of("plir"@) == Some(EmitKind::Plir),
        !binary_kind(k) <==> k is Plir || k is LlvmIr,
{
    reveal_strlit("plir");
    reveal_strlit("ll");
    reveal_strlit("bc");
    reveal_strlit("obj");
    reveal_strlit("exe");
    assert("plir"@.len() == 4 && "ll"@.len() == 2 && "bc"@.len() == 2 && "obj"@.len() == 3 && "exe"@.len() == 3);
    assert("ll"@[0] == 'l' && "bc"@[0] == 'b' && "obj"@[0] == 'o' && "exe"@[0] == 'e');
}

/// The two levels of debug information, and the profile that a release has.
pub proof fn law_profiles()
    ensures
        debug_of("none"@) == Some(DebugInfo::Off),
        debug_of("lines"@) == Some(DebugInfo::Lines),
        opt_of("1"@) == opt_of("release"@),
        opt_of("0"@) == Some(OptLevel::O0),
        opt_of("release"@) == Some(OptLevel::Release),
{
    reveal_strlit("none");
    reveal_strlit("lines");
    reveal_strlit("0");
    reveal_strlit("1");
    reveal_strlit("release");
    assert("none"@.len() == 4 && "lines"@.len() == 5 && "0"@.len() == 1 && "1"@.len() == 1 && "release"@.len() == 7);
    assert("0"@[0] == '0' && "1"@[0] == '1');
}

/// What is freed is what was allocated: the pointer that allocation returns, with the
/// size and the alignment that it was asked for; and only the trap does not return.
pub proof fn law_runtime_interface(i: int)
    ensures
        dealloc_model().params.len() == 3,
        dealloc_model().params.skip(1) == alloc_model().params,
        alloc_model().ret == Some(dealloc_model().params[0].1),
        dealloc_model().ret is None,
        write_stdout_model().params[0].1 == CAbiTy::PtrConstU8 && write_stdout_model().params[1].1 == CAbiTy::U64,
        fmt_i64_model().ret == fmt_u64_model().ret && fmt_u64_model().ret == fmt_f64_model().ret,
        fmt_i64_model().ret == Some(CAbiTy::U64),
        fmt_i64_model().params.skip(1) == fmt_u64_model().params.skip(1),
        fmt_u64_model().params.skip(1) == fmt_f64_model().params.skip(1),
        fmt_i64_model().params[0].1 == CAbiTy::I64 && fmt_u64_model().params[0].1 == CAbiTy::U64
            && fmt_f64_model().params[0].1 == CAbiTy::F64,
        0 <= i < symbols_model().len() ==> (symbols_model()[i].noreturn <==> symbols_model()[i] == trap_model()),
        trap_model().ret is None,
{
    assert(dealloc_model().params.skip(1) =~= alloc_model().params);
    assert(fmt_i64_model().params.skip(1) =~= fmt_u64_model().params.skip(1));
    assert(fmt_u64_model().params.skip(1) =~= fmt_f64_model().params.skip(1));
}

} // verus!
