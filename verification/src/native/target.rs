//! Checked native build configuration: target triple, CPU features,
//! optimization level, output kind, and output path.

use crate::text::{cat3, str_eq};
use vstd::prelude::*;

verus! {

/// A supported native target triple.
#[derive(Debug, Clone, Copy, PartialEq, Eq, Structural)]
pub enum Triple {
    X86_64UnknownLinuxGnu,
}

/// The canonical spelling of a triple.
pub open spec fn triple_name(t: Triple) -> Seq<char> {
    match t {
        Triple::X86_64UnknownLinuxGnu => "x86_64-unknown-linux-gnu"@,
    }
}

impl Triple {
    /// Parses a target-triple spelling.
    pub fn parse(s: &str) -> (r: Result<Triple, String>)
        ensures
            match r {
                Ok(t) => s@ == triple_name(t),
                Err(e) => (forall|t: Triple| s@ != triple_name(t)) && e@ == "unsupported target triple '"@ + s@
                    + "' (supported: x86_64-unknown-linux-gnu)"@,
            },
    {
        if str_eq(s, "x86_64-unknown-linux-gnu") {
            Ok(Triple::X86_64UnknownLinuxGnu)
        } else {
            assert forall|t: Triple| s@ != triple_name(t) by {
                match t {
                    Triple::X86_64UnknownLinuxGnu => {},
                }
            }
            Err(cat3("unsupported target triple '", s, "' (supported: x86_64-unknown-linux-gnu)"))
        }
    }

    /// The canonical triple spelling stamped on emitted modules.
    pub fn name(self) -> (r: &'static str)
        ensures
            r@ == triple_name(self),
    {
        match self {
            Triple::X86_64UnknownLinuxGnu => "x86_64-unknown-linux-gnu",
        }
    }

    /// The pinned LLVM data-layout string for this triple.
    pub fn data_layout(self) -> (r: &'static str)
        ensures
            r@ == "e-m:e-p270:32:32-p271:32:32-p272:64:64-i64:64-i128:128-f80:128-n8:16:32:64-S128"@,
    {
        match self {
            Triple::X86_64UnknownLinuxGnu => {
                "e-m:e-p270:32:32-p271:32:32-p272:64:64-i64:64-i128:128-f80:128-n8:16:32:64-S128"
            },
        }
    }

    /// The triple of a host with this architecture, operating system and
    /// environment, when it is a supported target.
    pub fn host(arch: &str, os: &str, env: &str) -> (r: Option<Triple>)
        ensures
            r == host_triple(arch@, os@, env@),
    {
        if str_eq(arch, "x86_64") && str_eq(os, "linux") && str_eq(env, "gnu") {
            Some(Triple::X86_64UnknownLinuxGnu)
        } else {
            None
        }
    }

    /// Pointer size in bytes.
    pub fn pointer_size(self) -> (r: u64)
        ensures
            r == 8,
            r == crate::native::layout::pointer_layout().size,
    {
        match self {
            Triple::X86_64UnknownLinuxGnu => 8,
        }
    }

    /// Pointer alignment in bytes.
    pub fn pointer_align(self) -> (r: u64)
        ensures
            r == 8,
            r == crate::native::layout::pointer_layout().align,
    {
        self.pointer_size()
    }
}

/// The supported triple of a host.
pub open spec fn host_triple(arch: Seq<char>, os: Seq<char>, env: Seq<char>) -> Option<Triple> {
    if arch == "x86_64"@ && os == "linux"@ && env == "gnu"@ {
        Some(Triple::X86_64UnknownLinuxGnu)
    } else {
        None
    }
}

/// Parsing gives back the triple that a name was taken from.
pub proof fn law_triple_names(a: Triple, b: Triple)
    ensures
        triple_name(a) == triple_name(b) ==> a == b,
{
}

/// Requested CPU feature set. Only the target's baseline feature set is
/// supported.
#[derive(Debug, Clone, Copy, PartialEq, Eq, Structural)]
pub struct CpuFeatures;

impl CpuFeatures {
    /// Parses a feature-set spelling.
    pub fn parse(s: &str) -> (r: Result<CpuFeatures, String>)
        ensures
            match r {
                Ok(_) => s@ == ""@ || s@ == "baseline"@,
                Err(e) => s@ != ""@ && s@ != "baseline"@ && e@ == "unsupported CPU feature set '"@ + s@
                    + "' (supported: baseline)"@,
            },
    {
        if str_eq(s, "") || str_eq(s, "baseline") {
            Ok(CpuFeatures)
        } else {
            Err(cat3("unsupported CPU feature set '", s, "' (supported: baseline)"))
        }
    }

    /// The canonical spelling.
    pub fn name(self) -> (r: &'static str)
        ensures
            r@ == "baseline"@,
    {
        "baseline"
    }
}

impl Default for CpuFeatures {
    fn default() -> (r: CpuFeatures)
        ensures
            r == CpuFeatures,
    {
        CpuFeatures
    }
}

/// A fully checked native target: triple plus CPU features.
#[derive(Debug, Clone, Copy, PartialEq, Eq, Structural)]
pub struct NativeTarget {
    pub triple: Triple,
    pub cpu: CpuFeatures,
}

impl NativeTarget {
    /// The target of a triple with its baseline features.
    pub fn new(triple: Triple) -> (r: NativeTarget)
        ensures
            r == (NativeTarget { triple, cpu: CpuFeatures }),
    {
        NativeTarget { triple, cpu: CpuFeatures }
    }

    /// A host as a native target, when supported.
    pub fn host(arch: &str, os: &str, env: &str) -> (r: Option<NativeTarget>)
        ensures
            match host_triple(arch@, os@, env@) {
                Some(triple) => r == Some(NativeTarget { triple, cpu: CpuFeatures }),
                None => r is None,
            },
    {
        match Triple::host(arch, os, env) {
            Some(triple) => Some(NativeTarget::new(triple)),
            None => None,
        }
    }
}

/// The native optimization profile: only baseline cleanup, or the release
/// pipeline.
#[derive(Debug, Clone, Copy, PartialEq, Eq, Structural)]
pub enum OptLevel {
    O0,
    Release,
}

/// The public spelling of a profile.
pub open spec fn opt_name(o: OptLevel) -> Seq<char> {
    match o {
        OptLevel::O0 => "0"@,
        OptLevel::Release => "release"@,
    }
}

/// The profile a spelling denotes; `1` is an alias of `release`.
pub open spec fn opt_of(s: Seq<char>) -> Option<OptLevel> {
    if s == "0"@ {
        Some(OptLevel::O0)
    } else if s == "release"@ || s == "1"@ {
        Some(OptLevel::Release)
    } else {
        None
    }
}

impl OptLevel {
    /// The profile's public spelling.
    pub fn name(self) -> (r: &'static str)
        ensures
            r@ == opt_name(self),
    {
        match self {
            OptLevel::O0 => "0",
            OptLevel::Release => "release",
        }
    }

    /// Parses a profile spelling.
    pub fn parse(s: &str) -> (r: Result<OptLevel, String>)
        ensures
            match r {
                Ok(o) => opt_of(s@) == Some(o),
                Err(e) => opt_of(s@) is None && e@ == "unknown native opt level '"@ + s@
                    + "' (expected: 0, release (alias: 1))"@,
            },
    {
        if str_eq(s, "0") {
            Ok(OptLevel::O0)
        } else if str_eq(s, "release") || str_eq(s, "1") {
            Ok(OptLevel::Release)
        } else {
            Err(cat3("unknown native opt level '", s, "' (expected: 0, release (alias: 1))"))
        }
    }
}

impl Default for OptLevel {
    fn default() -> (r: OptLevel)
        ensures
            r == OptLevel::O0,
    {
        OptLevel::O0
    }
}

/// Parsing the public spelling of a profile gives the profile.
pub proof fn law_opt_round_trip(o: OptLevel)
    ensures
        opt_of(opt_name(o)) == Some(o),
{
    reveal_strlit("0");
    reveal_strlit("release");
    assert("0"@.len() == 1);
    assert("release"@.len() == 7);
}

/// How much debug information native binary artifacts carry.
#[derive(Debug, Clone, Copy, PartialEq, Eq, Structural)]
pub enum DebugInfo {
    Off,
    /// Subprograms and call-site file and line locations.
    Lines,
}

/// The debug level a spelling denotes.
pub open spec fn debug_of(s: Seq<char>) -> Option<DebugInfo> {
    if s == "none"@ {
        Some(DebugInfo::Off)
    } else if s == "lines"@ {
        Some(DebugInfo::Lines)
    } else {
        None
    }
}

impl DebugInfo {
    /// Parses a debug-level spelling.
    pub fn parse(s: &str) -> (r: Result<DebugInfo, String>)
        ensures
            match r {
                Ok(d) => debug_of(s@) == Some(d),
                Err(e) => debug_of(s@) is None && e@ == "unknown native debug level '"@ + s@ + "' (expected: none, lines)"@,
            },
    {
        if str_eq(s, "none") {
            Ok(DebugInfo::Off)
        } else if str_eq(s, "lines") {
            Ok(DebugInfo::Lines)
        } else {
            Err(cat3("unknown native debug level '", s, "' (expected: none, lines)"))
        }
    }
}

impl Default for DebugInfo {
    fn default() -> (r: DebugInfo)
        ensures
            r == DebugInfo::Lines,
    {
        DebugInfo::Lines
    }
}

/// What a native compilation should produce.
#[derive(Debug, Clone, Copy, PartialEq, Eq, Structural)]
pub enum EmitKind {
    /// Canonical textual IR.
    Plir,
    /// Textual LLVM IR.
    LlvmIr,
    /// LLVM bitcode.
    Bitcode,
    /// A relocatable object file.
    Object,
    /// A linked executable.
    Exe,
}

/// The output kind a spelling denotes.
pub open spec fn emit_of(s: Seq<char>) -> Option<EmitKind> {
    if s == "plir"@ {
        Some(EmitKind::Plir)
    } else if s == "ll"@ {
        Some(EmitKind::LlvmIr)
    } else if s == "bc"@ {
        Some(EmitKind::Bitcode)
    } else if s == "obj"@ {
        Some(EmitKind::Object)
    } else if s == "exe"@ {
        Some(EmitKind::Exe)
    } else {
        None
    }
}

/// Whether an output kind has to go to a file.
pub open spec fn binary_kind(k: EmitKind) -> bool {
    k is Bitcode || k is Object || k is Exe
}

/// The name of an output kind in messages.
pub open spec fn emit_label(k: EmitKind) -> Seq<char> {
    match k {
        EmitKind::Plir => "Plir"@,
        EmitKind::LlvmIr => "LlvmIr"@,
        EmitKind::Bitcode => "Bitcode"@,
        EmitKind::Object => "Object"@,
        EmitKind::Exe => "Exe"@,
    }
}

impl EmitKind {
    /// Parses an output-kind spelling.
    pub fn parse(s: &str) -> (r: Result<EmitKind, String>)
        ensures
            match r {
                Ok(k) => emit_of(s@) == Some(k),
                Err(e) => emit_of(s@) is None && e@ == "unknown emit kind '"@ + s@
                    + "' (expected: plir, ll, bc, obj, exe)"@,
            },
    {
        if str_eq(s, "plir") {
            Ok(EmitKind::Plir)
        } else if str_eq(s, "ll") {
            Ok(EmitKind::LlvmIr)
        } else if str_eq(s, "bc") {
            Ok(EmitKind::Bitcode)
        } else if str_eq(s, "obj") {
            Ok(EmitKind::Object)
        } else if str_eq(s, "exe") {
            Ok(EmitKind::Exe)
        } else {
            Err(cat3("unknown emit kind '", s, "' (expected: plir, ll, bc, obj, exe)"))
        }
    }

    /// Binary kinds must go to a file; text kinds may print to stdout.
    pub fn is_binary(self) -> (r: bool)
        ensures
            r == binary_kind(self),
    {
        match self {
            EmitKind::Bitcode | EmitKind::Object | EmitKind::Exe => true,
            _ => false,
        }
    }

    /// The name of the kind in messages.
    pub fn label(self) -> (r: &'static str)
        ensures
            r@ == emit_label(self),
    {
        match self {
            EmitKind::Plir => "Plir",
            EmitKind::LlvmIr => "LlvmIr",
            EmitKind::Bitcode => "Bitcode",
            EmitKind::Object => "Object",
            EmitKind::Exe => "Exe",
        }
    }
}

/// A complete, checked native build configuration.
#[derive(Debug, Clone)]
pub struct BuildConfig {
    pub target: NativeTarget,
    pub opt: OptLevel,
    pub emit: EmitKind,
    /// The path to write to. Required for binary kinds; text kinds print to
    /// stdout without one.
    pub output: Option<String>,
}

impl BuildConfig {
    /// Rejects configurations whose output kind demands a path but got none.
    pub fn validate(&self) -> (r: Result<(), String>)
        ensures
            match r {
                Ok(()) => !(binary_kind(self.emit) && self.output is None),
                Err(e) => binary_kind(self.emit)
                    && self.output is None
                    && e@ == "emit kind '"@ + emit_label(self.emit)
                    + "' produces a binary artifact and requires --output"@,
            },
    {
        if self.emit.is_binary() && self.output.is_none() {
            return Err(
                cat3("emit kind '", self.emit.label(), "' produces a binary artifact and requires --output")
            );
        }
        Ok(())
    }
}

} // verus!
