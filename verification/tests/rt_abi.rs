use mojito::native::rt_abi::{
    find_symbol, find_type, rt_data_symbols, rt_symbols, rt_types, type_layout, CAbiTy,
    MJRT_ABI_VERSION,
};
use mojito::native::target::{NativeTarget, Triple};

#[test]
fn table_lookups_and_named_references_resolve() {
    assert!(find_symbol("mjrt_alloc").is_some());
    assert!(find_symbol("mjrt_missing").is_none());
    let target = NativeTarget::new(Triple::X86_64UnknownLinuxGnu);
    for spec in &rt_types() {
        // Resolves without panicking and yields a nonzero layout.
        let layout = type_layout(spec, &target);
        assert!(layout.layout.size > 0, "{}", spec.name);
    }
}

#[test]
fn exported_type_layouts_are_pinned() {
    let target = NativeTarget::new(Triple::X86_64UnknownLinuxGnu);
    let desc = type_layout(&find_type("MjStrDesc").unwrap(), &target);
    assert_eq!((desc.layout.size, desc.layout.align), (16, 8));
    assert_eq!(desc.offsets, vec![0, 8]);
    let string = type_layout(&find_type("MjString").unwrap(), &target);
    assert_eq!((string.layout.size, string.layout.align), (24, 8));
    assert_eq!(string.offsets, vec![0, 8, 16]);
    let error = type_layout(&find_type("MjError").unwrap(), &target);
    assert_eq!((error.layout.size, error.layout.align), (24, 8));
    assert_eq!(error.offsets, vec![0]);
}

#[test]
fn noreturn_symbols_return_nothing() {
    for sig in &rt_symbols() {
        if sig.noreturn {
            assert!(sig.ret.is_none(), "{}", sig.symbol);
        }
        assert!(sig.since <= MJRT_ABI_VERSION, "{}", sig.symbol);
        assert!(sig.symbol.starts_with("mjrt_"), "{}", sig.symbol);
    }
}

#[test]
fn contracts_carry_their_parameters() {
    let dealloc = find_symbol("mjrt_dealloc").unwrap();
    assert_eq!(
        dealloc.params,
        vec![
            ("ptr", CAbiTy::PtrMutU8),
            ("size", CAbiTy::U64),
            ("align", CAbiTy::U64)
        ]
    );
    assert_eq!(rt_data_symbols(), vec![("mjrt_abi_version", CAbiTy::U32)]);
    let target = NativeTarget::new(Triple::X86_64UnknownLinuxGnu);
    assert_eq!(CAbiTy::U32.layout(&target).size, 4);
    assert_eq!(CAbiTy::PtrMutU8.layout(&target).size, 8);
}
