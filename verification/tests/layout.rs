use mojito::ast::Dtype;
use mojito::native::layout::{
    compose, Layout, LayoutCx, LayoutError, StructFieldIndex,
};
use mojito::native::target::{NativeTarget, Triple};
use mojito::origin::PointerOrigin;
use mojito::types::Ty;

fn target() -> NativeTarget {
    NativeTarget::new(Triple::X86_64UnknownLinuxGnu)
}

fn layout_of(ty: &Ty) -> Result<Layout, LayoutError> {
    let structs = StructFieldIndex::default();
    LayoutCx {
        target: &target(),
        structs: &structs,
    }
    .layout_of(ty)
}

#[test]
fn scalar_layouts() {
    assert_eq!(layout_of(&Ty::Int), Ok(Layout::new(8, 8)));
    assert_eq!(layout_of(&Ty::UInt), Ok(Layout::new(8, 8)));
    assert_eq!(layout_of(&Ty::Float64), Ok(Layout::new(8, 8)));
    assert_eq!(layout_of(&Ty::Bool), Ok(Layout::new(1, 1)));
    assert_eq!(layout_of(&Ty::NoneType), Ok(Layout::zero()));
}

#[test]
fn descriptor_error_and_pointer_layouts() {
    assert_eq!(layout_of(&Ty::StringLiteral), Ok(Layout::new(16, 8)));
    assert_eq!(layout_of(&Ty::Error), Ok(Layout::new(24, 8)));
    let pointer = Ty::Pointer {
        element: Box::new(Ty::Int),
        origin: PointerOrigin::Static,
    };
    assert_eq!(layout_of(&pointer), Ok(Layout::new(8, 8)));
}

#[test]
fn tuples_pad_c_style_in_declaration_order() {
    // { i1, i64, i1 }: offsets 0, 8, 16; size pads to 24.
    let structs = StructFieldIndex::default();
    let target = target();
    let cx = LayoutCx {
        target: &target,
        structs: &structs,
    };
    let layout = cx
        .struct_layout(&vec![Ty::Bool, Ty::Int, Ty::Bool])
        .unwrap();
    assert_eq!(layout.offsets, vec![0, 8, 16]);
    assert_eq!(layout.layout, Layout::new(24, 8));
    // Declaration order is preserved even when reordering would pack
    // tighter: { i1, i1, i64 } is 16 bytes, not 24.
    let packed = cx
        .struct_layout(&vec![Ty::Bool, Ty::Bool, Ty::Int])
        .unwrap();
    assert_eq!(packed.offsets, vec![0, 1, 8]);
    assert_eq!(packed.layout, Layout::new(16, 8));
    assert_eq!(
        layout_of(&Ty::Tuple(vec![Ty::Bool, Ty::Int, Ty::Bool])),
        Ok(Layout::new(24, 8))
    );
}

#[test]
fn empty_and_zero_sized_aggregates() {
    assert_eq!(layout_of(&Ty::Tuple(vec![])), Ok(Layout::zero()));
    assert_eq!(
        layout_of(&Ty::Tuple(vec![Ty::NoneType, Ty::NoneType])),
        Ok(Layout::zero())
    );
    // A zero-sized field takes no space and forces no padding.
    assert_eq!(
        layout_of(&Ty::Tuple(vec![Ty::NoneType, Ty::Bool])),
        Ok(Layout::new(1, 1))
    );
}

#[test]
fn nominal_structs_resolve_through_the_field_index() {
    let mut structs = StructFieldIndex::default();
    structs.insert("Pair".to_string(), vec![Ty::Int, Ty::Bool]);
    let target = target();
    let cx = LayoutCx {
        target: &target,
        structs: &structs,
    };
    assert_eq!(
        cx.layout_of(&Ty::Struct("Pair".to_string(), vec![])),
        Ok(Layout::new(16, 8))
    );
    let missing = cx.layout_of(&Ty::Struct("Absent".to_string(), vec![]));
    assert!(matches!(missing, Err(LayoutError::Unsupported(_))));
}

#[test]
fn variant_is_tag_plus_aligned_payload_overlay() {
    let structs = StructFieldIndex::default();
    let target = target();
    let cx = LayoutCx {
        target: &target,
        structs: &structs,
    };
    // Variant[Int, Bool]: tag at 0, payload at 8, size 16, align 8.
    let variant = cx.variant_layout(&vec![Ty::Int, Ty::Bool]).unwrap();
    assert_eq!(variant.payload_offset, 8);
    assert_eq!(variant.layout, Layout::new(16, 8));
    // Variant[Bool]: payload aligns 1, so it sits right after the tag.
    let small = cx.variant_layout(&vec![Ty::Bool]).unwrap();
    assert_eq!(small.payload_offset, 4);
    assert_eq!(small.layout, Layout::new(8, 4));
}

#[test]
fn unrepresentable_types_reject_loudly() {
    for ty in [
        Ty::Never,
        Ty::IntLiteral,
        Ty::FloatLiteral,
        Ty::Infer,
        Ty::Dtype,
        Ty::SelfType,
        Ty::VariadicPack(Box::new(Ty::Int)),
        Ty::ComptimeList(Box::new(Ty::Int)),
        Ty::Simd {
            dtype: Dtype::Float64,
            width: 4,
        },
    ] {
        assert!(
            matches!(layout_of(&ty), Err(LayoutError::Unsupported(_))),
            "{} should have no layout",
            ty.text()
        );
    }
}

#[test]
fn layout_errors_spell_the_type_or_struct() {
    assert_eq!(
        layout_of(&Ty::Simd {
            dtype: Dtype::Int8,
            width: 4
        })
        .unwrap_err()
        .text(),
        "type has no native layout yet: SIMD[DType.int8, 4]"
    );
    assert_eq!(
        layout_of(&Ty::Struct("Absent".to_string(), vec![]))
            .unwrap_err()
            .text(),
        "struct 'Absent' has no MIR declaration to lay out"
    );
}

#[test]
fn a_struct_that_contains_itself_has_no_layout() {
    let mut structs = StructFieldIndex::default();
    structs.insert(
        "Node".to_string(),
        vec![Ty::Int, Ty::Struct("Node".to_string(), vec![])],
    );
    let target = target();
    let cx = LayoutCx {
        target: &target,
        structs: &structs,
    };
    let error = cx
        .layout_of(&Ty::Struct("Node".to_string(), vec![]))
        .unwrap_err();
    assert_eq!(error.text(), "struct 'Node' contains itself");
}

#[test]
fn composed_fields_are_aligned_and_disjoint() {
    let composed = compose(&vec![
        Layout::new(1, 1),
        Layout::new(4, 4),
        Layout::new(2, 2),
        Layout::new(8, 8),
    ]);
    assert_eq!(composed.offsets, vec![0, 4, 8, 16]);
    assert_eq!(composed.layout, Layout::new(24, 8));
}
