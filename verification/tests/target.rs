use mojito::native::target::{
    BuildConfig, CpuFeatures, DebugInfo, EmitKind, NativeTarget, OptLevel, Triple,
};

#[test]
fn triple_parses_its_own_name() {
    let triple = Triple::X86_64UnknownLinuxGnu;
    assert_eq!(Triple::parse(triple.name()), Ok(triple));
    assert!(Triple::parse("aarch64-apple-darwin").is_err());
    assert!(Triple::parse("").is_err());
}

#[test]
fn cpu_features_accept_only_baseline() {
    assert_eq!(CpuFeatures::parse(""), Ok(CpuFeatures));
    assert_eq!(CpuFeatures::parse("baseline"), Ok(CpuFeatures));
    assert!(CpuFeatures::parse("avx2").is_err());
}

#[test]
fn binary_emit_kinds_require_an_output_path() {
    let target = NativeTarget::new(Triple::X86_64UnknownLinuxGnu);
    for emit in [EmitKind::Bitcode, EmitKind::Object, EmitKind::Exe] {
        let config = BuildConfig {
            target,
            opt: OptLevel::O0,
            emit,
            output: None,
        };
        assert!(config.validate().is_err());
    }
    let config = BuildConfig {
        target,
        opt: OptLevel::O0,
        emit: EmitKind::LlvmIr,
        output: None,
    };
    assert!(config.validate().is_ok());
}

#[test]
fn opt_and_emit_parse_round_trip() {
    assert_eq!(OptLevel::parse("0"), Ok(OptLevel::O0));
    assert_eq!(OptLevel::parse("release"), Ok(OptLevel::Release));
    assert_eq!(OptLevel::parse("1"), Ok(OptLevel::Release));
    assert!(OptLevel::parse("2").is_err());
    assert_eq!(EmitKind::parse("plir"), Ok(EmitKind::Plir));
    assert_eq!(EmitKind::parse("ll"), Ok(EmitKind::LlvmIr));
    assert_eq!(EmitKind::parse("bc"), Ok(EmitKind::Bitcode));
    assert_eq!(EmitKind::parse("obj"), Ok(EmitKind::Object));
    assert_eq!(EmitKind::parse("exe"), Ok(EmitKind::Exe));
    assert!(EmitKind::parse("asm").is_err());
}

#[test]
fn rejected_spellings_name_what_is_supported() {
    assert_eq!(
        Triple::parse("wasm").unwrap_err(),
        "unsupported target triple 'wasm' (supported: x86_64-unknown-linux-gnu)"
    );
    assert_eq!(
        CpuFeatures::parse("avx2").unwrap_err(),
        "unsupported CPU feature set 'avx2' (supported: baseline)"
    );
    assert_eq!(
        OptLevel::parse("3").unwrap_err(),
        "unknown native opt level '3' (expected: 0, release (alias: 1))"
    );
    assert_eq!(
        DebugInfo::parse("full").unwrap_err(),
        "unknown native debug level 'full' (expected: none, lines)"
    );
    assert_eq!(
        EmitKind::parse("asm").unwrap_err(),
        "unknown emit kind 'asm' (expected: plir, ll, bc, obj, exe)"
    );
    let config = BuildConfig {
        target: NativeTarget::new(Triple::X86_64UnknownLinuxGnu),
        opt: OptLevel::O0,
        emit: EmitKind::Exe,
        output: None,
    };
    assert_eq!(
        config.validate().unwrap_err(),
        "emit kind 'Exe' produces a binary artifact and requires --output"
    );
}

#[test]
fn only_a_gnu_linux_host_is_a_target() {
    assert_eq!(
        Triple::host("x86_64", "linux", "gnu"),
        Some(Triple::X86_64UnknownLinuxGnu)
    );
    assert_eq!(Triple::host("x86_64", "linux", "musl"), None);
    assert_eq!(NativeTarget::host("aarch64", "linux", "gnu"), None);
    assert_eq!(DebugInfo::parse("none"), Ok(DebugInfo::Off));
    assert_eq!(DebugInfo::default(), DebugInfo::Lines);
}
