use uncad_model::confidence::Confidence;
use uncad_model::model::{
    invisible_edges_from_bits, AttributeFlags, EntityKind, EntityLinetype, HatchStyle,
    HorizontalJustification, Transparency, VerticalJustification,
};
use uncad_model::model::absent;
use uncad_model::{EntityId, ReadDiagnostics, Ref};

#[test]
fn a_resolved_reference_gives_its_value_and_name() {
    let r: Ref<String> = Ref::Resolved("Walls".to_string());
    assert!(r.is_resolved());
    assert_eq!(r.resolved(), Some(&"Walls".to_string()));
    assert_eq!(r.name(), "Walls");
}

#[test]
fn absent_and_unresolved_references_have_no_name() {
    let absent: Ref<String> = Ref::Absent;
    let dead: Ref<String> = Ref::Unresolved("1F".to_string());
    assert!(!absent.is_resolved());
    assert!(!dead.is_resolved());
    assert_eq!(absent.resolved(), None);
    assert_eq!(dead.resolved(), None);
    assert_eq!(absent.name(), "");
    assert_eq!(dead.name(), "");
}

#[test]
fn an_entity_id_is_the_value_it_was_minted_with() {
    let a = EntityId::new(42);
    assert_eq!(a.value(), 42);
    assert_eq!(a, EntityId::new(42));
    assert_ne!(a, EntityId::new(43));
    assert_eq!(EntityId::new(u64::MAX).value(), u64::MAX);
}

#[test]
fn transparency_reads_its_method_from_the_high_byte() {
    assert_eq!(Transparency::from_code(0), Some(Transparency::ByLayer));
    assert_eq!(Transparency::from_code(0x0100_0000), Some(Transparency::ByBlock));
    assert_eq!(Transparency::from_code(0x0200_007F), Some(Transparency::Alpha(0x7F)));
    assert_eq!(Transparency::from_code(0x0200_00FF), Some(Transparency::Alpha(255)));
    assert_eq!(Transparency::from_code(0x0300_0000), None);
    assert_eq!(Transparency::from_code(u32::MAX), None);
}

#[test]
fn a_hatch_style_is_one_of_three_codes() {
    assert_eq!(HatchStyle::from_code(0), Some(HatchStyle::Normal));
    assert_eq!(HatchStyle::from_code(1), Some(HatchStyle::Outer));
    assert_eq!(HatchStyle::from_code(2), Some(HatchStyle::Ignore));
    assert_eq!(HatchStyle::from_code(3), None);
    assert_eq!(HatchStyle::from_code(-1), None);
}

#[test]
fn a_3dface_edge_bit_marks_its_edge_invisible() {
    assert_eq!(invisible_edges_from_bits(0), [false; 4]);
    assert_eq!(invisible_edges_from_bits(1), [true, false, false, false]);
    assert_eq!(invisible_edges_from_bits(0b1010), [false, true, false, true]);
    assert_eq!(invisible_edges_from_bits(15), [true; 4]);
    assert_eq!(invisible_edges_from_bits(16), [false; 4]);
}

#[test]
fn every_kind_reports_its_dxf_type() {
    assert_eq!(EntityKind::Line.dxf_type(), Some("LINE"));
    assert_eq!(EntityKind::Face3D.dxf_type(), Some("3DFACE"));
    assert_eq!(EntityKind::Solid3D.dxf_type(), Some("3DSOLID"));
    assert_eq!(EntityKind::Polyline3D.dxf_type(), Some("POLYLINE_3D"));
    assert_eq!(EntityKind::PolylinePFace.dxf_type(), Some("POLYLINE_PFACE"));
    assert_eq!(EntityKind::AcadTable.dxf_type(), Some("ACAD_TABLE"));
    assert_eq!(EntityKind::XLine.dxf_type(), Some("XLINE"));
    assert_eq!(EntityKind::Ray.dxf_type(), Some("RAY"));
    assert_eq!(EntityKind::Image.dxf_type(), Some("IMAGE"));
    assert_eq!(EntityKind::Unknown.dxf_type(), None);
}

#[test]
fn absent_groups_read_as_the_format_defaults() {
    assert_eq!(EntityLinetype::default(), EntityLinetype::ByLayer);
    assert_eq!(HorizontalJustification::default(), HorizontalJustification::Left);
    assert_eq!(VerticalJustification::default(), VerticalJustification::Baseline);
    let flags = AttributeFlags::default();
    assert!(!flags.invisible && !flags.constant && !flags.verify && !flags.preset);
}

#[test]
fn confidence_orders_unknown_below_low_below_high() {
    assert!(Confidence::Unknown < Confidence::Low);
    assert!(Confidence::Low < Confidence::High);
    assert!(Confidence::Unknown < Confidence::High);
    assert!(!(Confidence::High < Confidence::Low));
    assert_eq!(
        Confidence::Low.partial_cmp(&Confidence::Low),
        Some(std::cmp::Ordering::Equal)
    );
    assert_eq!(Confidence::High.min(Confidence::Low), Confidence::Low);
}

#[test]
fn a_read_is_clean_only_without_warnings() {
    assert!(ReadDiagnostics::default().is_clean());
    let warned = ReadDiagnostics {
        warnings: vec!["unknown_object".to_string()],
    };
    assert!(!warned.is_clean());
}

#[test]
fn a_missing_reference_field_reads_as_absent() {
    let r: Ref<String> = absent();
    assert_eq!(r, Ref::Absent);
}

#[test]
fn a_borrowed_reference_names_what_it_borrows() {
    let walls = "Walls".to_string();
    let r: Ref<&String> = Ref::Resolved(&walls);
    assert_eq!(r.name(), "Walls");
    let dead: Ref<&String> = Ref::Unresolved("1F".to_string());
    assert_eq!(dead.name(), "");
    assert_eq!(Ref::<&String>::Absent.name(), "");
}
