use mojito::origin::{
    CaptureOrigin, CaptureOriginSet, Origin, OriginParamId, OriginPlace, OriginSeg, OwnerId,
    PointerOrigin, SigOrigin,
};

fn place(root: u32, path: &[OriginSeg]) -> Origin {
    Origin::Place(OriginPlace {
        root: OwnerId(root),
        path: path.to_vec(),
    })
}

#[test]
fn unions_are_flattened_deduplicated_and_ordered() {
    let a = place(1, &[]);
    let b = place(2, &[]);
    assert_eq!(
        Origin::union(vec![b.clone(), Origin::union(vec![a.clone(), b])]),
        Origin::Union(vec![a, place(2, &[])])
    );
}

#[test]
fn concrete_capture_sets_are_ordered_and_write_subsumes_read() {
    let first = place(1, &[]);
    let second = place(2, &[]);
    assert_eq!(
        CaptureOriginSet::concrete(vec![
            CaptureOrigin::read(second.clone()),
            CaptureOrigin::read(first.clone()),
            CaptureOrigin::write(first.clone()),
            CaptureOrigin::read(Origin::union(vec![second.clone(), first.clone()])),
        ]),
        CaptureOriginSet::Concrete(vec![
            CaptureOrigin::write(first),
            CaptureOrigin::read(second),
        ])
    );
}

#[test]
fn signature_unions_order_projected_members_canonically() {
    let left = SigOrigin::Projected(
        Box::new(SigOrigin::Param(0)),
        vec![OriginSeg::Field("value".into())],
    );
    let right = SigOrigin::Projected(
        Box::new(SigOrigin::Param(1)),
        vec![OriginSeg::Field("value".into())],
    );
    assert_eq!(
        SigOrigin::union(vec![right.clone(), left.clone(), right]),
        SigOrigin::Union(vec![
            left,
            SigOrigin::Projected(
                Box::new(SigOrigin::Param(1)),
                vec![OriginSeg::Field("value".into())],
            )
        ])
    );
}

#[test]
fn projected_places_use_prefix_and_wildcard_overlap() {
    let field_a = OriginSeg::Field("a".into());
    let field_b = OriginSeg::Field("b".into());
    assert!(place(1, &[]).overlaps(&place(1, std::slice::from_ref(&field_a))));
    assert!(!place(1, std::slice::from_ref(&field_a)).overlaps(&place(1, &[field_b])));
    assert!(place(1, &[OriginSeg::AnyIndex]).overlaps(&place(1, &[field_a])));
    assert!(!place(1, &[]).overlaps(&place(2, &[])));
}

#[test]
fn interior_tags_are_distinct_but_remain_under_their_base() {
    let elements = OriginSeg::Interior("element".into());
    let values = OriginSeg::Interior("value".into());
    assert!(place(1, &[]).overlaps(&place(1, std::slice::from_ref(&elements))));
    assert!(!place(1, &[elements]).overlaps(&place(1, &[values])));
}

#[test]
fn kinds_order_before_contents() {
    let union = Origin::union(vec![
        Origin::Untracked { mutable: true },
        Origin::Static,
        place(3, &[]),
        Origin::Param(OriginParamId(7)),
        Origin::Untracked { mutable: false },
    ]);
    assert_eq!(
        union,
        Origin::Union(vec![
            Origin::Param(OriginParamId(7)),
            place(3, &[]),
            Origin::Static,
            Origin::Untracked { mutable: false },
            Origin::Untracked { mutable: true },
        ])
    );
    assert_eq!(Origin::union(vec![Origin::Static, Origin::Static]), Origin::Static);
    assert_eq!(Origin::union(vec![]), Origin::Union(vec![]));
}

#[test]
fn unions_overlap_by_member_in_both_directions() {
    let union = Origin::union(vec![place(1, &[]), Origin::Static]);
    assert!(union.overlaps(&Origin::Static));
    assert!(Origin::Static.overlaps(&union));
    assert!(!union.overlaps(&place(2, &[])));
    assert!(place(2, &[]).overlaps(&Origin::Untracked { mutable: false }));
}

#[test]
fn origins_spell_their_projection_paths() {
    let origin = place(
        4,
        &[
            OriginSeg::Field("items".into()),
            OriginSeg::AnyIndex,
            OriginSeg::Interior("element".into()),
        ],
    );
    assert_eq!(origin.text(), "origin_of(#4.items[_].<element>)");
    assert_eq!(
        Origin::union(vec![Origin::Static, Origin::Param(OriginParamId(2))]).text(),
        "origin#2 | StaticOrigin"
    );
    assert_eq!(Origin::Untracked { mutable: true }.text(), "UnsafeAnyOrigin");
}

#[test]
fn only_checked_storage_has_a_pointer_origin() {
    let place = OriginPlace {
        root: OwnerId(1),
        path: vec![],
    };
    assert_eq!(
        PointerOrigin::Place {
            place: place.clone(),
            mutable: true
        }
        .as_origin(),
        Some(Origin::Place(place))
    );
    assert_eq!(PointerOrigin::Legacy.as_origin(), None);
    assert_eq!(PointerOrigin::UnsafeAny { mutable: true }.as_origin(), None);
}

#[test]
fn unions_are_flattened_at_every_depth() {
    let p = Origin::Param(OriginParamId(0));
    let nested = Origin::Union(vec![Origin::Union(vec![Origin::Static]), p.clone()]);
    let flat = Origin::Union(vec![p.clone(), Origin::Static]);
    assert_eq!(Origin::union(vec![nested.clone()]), flat);
    assert_eq!(Origin::union(vec![flat.clone()]), flat);
    assert_eq!(Origin::union(vec![Origin::Union(vec![Origin::Union(vec![p.clone()])])]), p);
    assert_eq!(
        CaptureOriginSet::concrete(vec![CaptureOrigin::read(nested)]),
        CaptureOriginSet::Concrete(vec![CaptureOrigin::read(p), CaptureOrigin::read(Origin::Static)])
    );
}

#[test]
fn signature_unions_ignore_grouping() {
    let (a, b) = (SigOrigin::Param(0), SigOrigin::Param(1));
    let flat = SigOrigin::Union(vec![a.clone(), b.clone()]);
    let grouped = SigOrigin::Union(vec![SigOrigin::Union(vec![b.clone()]), a.clone()]);
    assert_eq!(SigOrigin::union(vec![grouped.clone(), a.clone()]), flat);
    assert_eq!(SigOrigin::union(vec![SigOrigin::union(vec![b, a])]), flat);
    let under = |base: SigOrigin| SigOrigin::Projected(Box::new(base), vec![OriginSeg::AnyIndex]);
    assert_eq!(SigOrigin::union(vec![under(grouped)]), under(flat));
}

#[test]
fn a_subtree_overlaps_what_is_below() {
    let below = place(1, &[OriginSeg::Field("x".into()), OriginSeg::Field("y".into())]);
    assert!(place(1, &[OriginSeg::Subtree]).overlaps(&below));
    assert!(!place(2, &[OriginSeg::Subtree]).overlaps(&below));
}

#[test]
fn capture_sets_ignore_order_and_grouping() {
    let (a, b) = (place(1, &[]), place(2, &[]));
    let set = CaptureOriginSet::concrete(vec![CaptureOrigin::write(a.clone()), CaptureOrigin::read(b.clone())]);
    let grouped = Origin::Union(vec![Origin::Union(vec![b.clone()]), a.clone()]);
    assert_eq!(
        CaptureOriginSet::concrete(vec![CaptureOrigin::read(grouped), CaptureOrigin::write(a)]),
        set
    );
    let CaptureOriginSet::Concrete(members) = set.clone() else {
        panic!("not a concrete set");
    };
    assert_eq!(CaptureOriginSet::concrete(members), set);
}
