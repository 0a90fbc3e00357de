use uncad_model::golden::expected::{
    block_ref, entity_linetype, horizontal, layer, mesh_edges, style_ref, text_override, text_style_ref, vertical,
};
use uncad_model::golden::block_names::{dimension_block_name, dimension_block_number};
use uncad_model::golden::dxf::DxfWriter;
use uncad_model::golden::writer::{decimal_digits, encode, group_pair, handle_hex};
use uncad_model::golden::{Codepage, Handles, LayerSpec, LayerState};
use uncad_model::model::{
    EntityLinetype, HorizontalJustification, TextOverride, VerticalJustification,
};
use uncad_model::Ref;

#[test]
fn only_a_korean_case_declares_a_codepage() {
    assert_eq!(Codepage::Ascii.dxf_name(), None);
    assert_eq!(Codepage::Ansi949.dxf_name(), Some("ANSI_949"));
    assert_eq!(Codepage::default(), Codepage::Ascii);
}

#[test]
fn ascii_text_is_its_own_bytes_in_either_codepage() {
    assert_eq!(encode(Codepage::Ascii, "WALLS"), Some(b"WALLS".to_vec()));
    assert_eq!(encode(Codepage::Ansi949, "WALLS"), Some(b"WALLS".to_vec()));
    assert_eq!(encode(Codepage::Ascii, ""), Some(Vec::new()));
}

#[test]
fn korean_text_is_stored_as_cp949_bytes() {
    assert_eq!(
        encode(Codepage::Ansi949, "\u{D45C}\u{C81C}\u{B780}"),
        Some(vec![0xC7, 0xA5, 0xC1, 0xA6, 0xB6, 0xF5])
    );
}

#[test]
fn a_codepage_that_cannot_hold_a_string_refuses_it() {
    assert_eq!(encode(Codepage::Ascii, "\u{D45C}"), None);
    assert_eq!(encode(Codepage::Ansi949, "\u{1F600}"), None);
}

#[test]
fn a_group_is_its_right_aligned_code_and_its_value() {
    assert_eq!(
        group_pair(Codepage::Ascii, 0, "LINE"),
        Some(b"  0\nLINE\n".to_vec())
    );
    assert_eq!(
        group_pair(Codepage::Ascii, 10, "1.5"),
        Some(b" 10\n1.5\n".to_vec())
    );
    assert_eq!(
        group_pair(Codepage::Ascii, 370, "-3"),
        Some(b"370\n-3\n".to_vec())
    );
    assert_eq!(
        group_pair(Codepage::Ascii, 1001, "APP"),
        Some(b"1001\nAPP\n".to_vec())
    );
    assert_eq!(group_pair(Codepage::Ascii, 1, "\u{D45C}"), None);
    assert_eq!(
        group_pair(Codepage::Ansi949, 8, "\u{D45C}"),
        Some(vec![b' ', b' ', b'8', b'\n', 0xC7, 0xA5, b'\n'])
    );
}

#[test]
fn decimal_digits_have_no_leading_zeros() {
    assert_eq!(decimal_digits(0), b"0".to_vec());
    assert_eq!(decimal_digits(7), b"7".to_vec());
    assert_eq!(decimal_digits(1042), b"1042".to_vec());
    assert_eq!(decimal_digits(u16::MAX), b"65535".to_vec());
}

#[test]
fn handles_are_upper_case_hexadecimal() {
    assert_eq!(handle_hex(0), "0");
    assert_eq!(handle_hex(0x1F), "1F");
    assert_eq!(handle_hex(0x2A0), "2A0");
    assert_eq!(handle_hex(u32::MAX), "FFFFFFFF");
}

#[test]
fn a_new_writer_has_issued_no_handle() {
    let h = Handles::default();
    assert!(h.entities.is_empty() && h.blocks.is_empty() && h.attribs.is_empty());
}

#[test]
fn a_layer_reads_back_with_its_state_and_continuous_linetype() {
    let spec = LayerSpec {
        name: "HIDDEN".to_string(),
        color_index: 3,
        state: LayerState {
            off: true,
            frozen: true,
            locked: false,
            plot: Some(false),
            lineweight: Some(25),
        },
    };
    let r = layer(&spec);
    assert_eq!(r.name, "HIDDEN");
    assert_eq!(r.color_index, -3);
    assert!(r.off && r.frozen && !r.locked);
    assert_eq!(r.plot, Some(false));
    assert_eq!(r.lineweight, Some(25));
    assert_eq!(r.linetype, Ref::Resolved("CONTINUOUS".to_string()));

    let on = LayerSpec {
        name: "Walls".to_string(),
        color_index: 5,
        state: LayerState::default(),
    };
    let r = layer(&on);
    assert_eq!(r.color_index, 5);
    assert!(!r.off && !r.frozen && !r.locked);
    assert_eq!(r.plot, None);
    assert_eq!(r.lineweight, None);
}

#[test]
fn the_three_spellings_of_the_measurement_are_one() {
    assert_eq!(text_override(""), TextOverride::Measured);
    assert_eq!(text_override("<>"), TextOverride::Measured);
    assert_eq!(text_override(" "), TextOverride::Suppressed);
    assert_eq!(
        text_override("<> H7"),
        TextOverride::Literal("<> H7".to_string())
    );
    assert_eq!(text_override("  "), TextOverride::Literal("  ".to_string()));
}

#[test]
fn a_dimension_style_resolves_only_when_declared() {
    let declared = vec!["STANDARD".to_string(), "ISO-25".to_string()];
    assert_eq!(style_ref(&None, &declared), Ref::Absent);
    assert_eq!(
        style_ref(&Some("ISO-25".to_string()), &declared),
        Ref::Resolved("ISO-25".to_string())
    );
    assert_eq!(
        style_ref(&Some("ANSI".to_string()), &declared),
        Ref::Unresolved("ANSI".to_string())
    );
}

#[test]
fn an_unstyled_text_stands_for_standard_in_any_case() {
    let declared = vec!["Title".to_string(), "Standard".to_string(), "STANDARD".to_string()];
    assert_eq!(
        text_style_ref(&None, &declared),
        Ref::Resolved("Standard".to_string())
    );
    assert_eq!(text_style_ref(&None, &["Title".to_string()]), Ref::Absent);
    assert_eq!(
        text_style_ref(&Some("Title".to_string()), &declared),
        Ref::Resolved("Title".to_string())
    );
    assert_eq!(
        text_style_ref(&Some("title".to_string()), &declared),
        Ref::Unresolved("title".to_string())
    );
}

#[test]
fn justification_codes_map_in_the_format_order() {
    assert_eq!(horizontal(None), HorizontalJustification::Left);
    assert_eq!(horizontal(Some(0)), HorizontalJustification::Left);
    assert_eq!(horizontal(Some(1)), HorizontalJustification::Center);
    assert_eq!(horizontal(Some(4)), HorizontalJustification::Middle);
    assert_eq!(horizontal(Some(5)), HorizontalJustification::Fit);
    assert_eq!(vertical(None), VerticalJustification::Baseline);
    assert_eq!(vertical(Some(1)), VerticalJustification::Bottom);
    assert_eq!(vertical(Some(3)), VerticalJustification::Top);
}

#[test]
fn an_open_mesh_has_its_grid_edges_rows_first() {
    let edges = mesh_edges(2, 3, false, false);
    assert_eq!(
        edges,
        vec![(0, 3), (1, 4), (2, 5), (0, 1), (1, 2), (3, 4), (4, 5)]
    );
}

#[test]
fn a_closed_mesh_wraps_to_its_first_row_and_column() {
    let edges = mesh_edges(2, 2, true, true);
    assert_eq!(
        edges,
        vec![(0, 2), (1, 3), (2, 0), (3, 1), (0, 1), (1, 0), (2, 3), (3, 2)]
    );
    assert_eq!(mesh_edges(3, 4, true, false).len(), 3 * 4 + 3 * 3);
}

#[test]
fn the_nth_dimension_block_is_named_star_d_n() {
    assert_eq!(dimension_block_name(1), "*D1");
    assert_eq!(dimension_block_name(12), "*D12");
    assert_eq!(dimension_block_name(0), "*D0");
}

#[test]
fn a_dimension_block_name_reads_back_as_its_number() {
    assert_eq!(dimension_block_number("*D1"), Some(1));
    assert_eq!(dimension_block_number("*D12"), Some(12));
    assert_eq!(dimension_block_number("*D007"), Some(7));
    assert_eq!(dimension_block_number("*D+3"), Some(3));
    assert_eq!(
        dimension_block_number(&dimension_block_name(usize::MAX)),
        Some(usize::MAX)
    );
}

#[test]
fn what_is_not_star_d_and_a_number_names_no_dimension() {
    assert_eq!(dimension_block_number("*D"), None);
    assert_eq!(dimension_block_number("*D+"), None);
    assert_eq!(dimension_block_number("*D-1"), None);
    assert_eq!(dimension_block_number("*D1x"), None);
    assert_eq!(dimension_block_number("*X1"), None);
    assert_eq!(dimension_block_number("D1"), None);
    assert_eq!(dimension_block_number("*D18446744073709551616"), None);
}

#[test]
fn every_mesh_edge_joins_two_vertices_of_the_mesh() {
    for (m, n, closed_m, closed_n) in [
        (1, 1, true, true),
        (1, 3, false, true),
        (3, 1, true, false),
        (4, 5, true, true),
        (4, 5, false, false),
    ] {
        for (a, b) in mesh_edges(m, n, closed_m, closed_n) {
            assert!(a < usize::from(m) * usize::from(n));
            assert!(b < usize::from(m) * usize::from(n));
        }
    }
}

#[test]
fn an_insert_of_a_block_the_file_never_defines_keeps_its_name() {
    let defined = vec!["TITLEBLOCK".to_string(), "HOLE".to_string()];
    assert_eq!(
        block_ref(&"HOLE".to_string(), &defined),
        Ref::Resolved("HOLE".to_string())
    );
    assert_eq!(
        block_ref(&"MISSING".to_string(), &defined),
        Ref::Unresolved("MISSING".to_string())
    );
    assert_eq!(
        block_ref(&"hole".to_string(), &defined),
        Ref::Unresolved("hole".to_string())
    );
}

#[test]
fn a_stated_linetype_reads_against_the_continuous_only_table() {
    assert_eq!(entity_linetype(&None), EntityLinetype::ByLayer);
    assert_eq!(entity_linetype(&Some("ByLayer".to_string())), EntityLinetype::ByLayer);
    assert_eq!(entity_linetype(&Some("BYBLOCK".to_string())), EntityLinetype::ByBlock);
    assert_eq!(entity_linetype(&Some("byblock".to_string())), EntityLinetype::ByBlock);
    assert_eq!(
        entity_linetype(&Some("CONTINUOUS".to_string())),
        EntityLinetype::Named(Ref::Resolved("CONTINUOUS".to_string()))
    );
    assert_eq!(
        entity_linetype(&Some("Continuous".to_string())),
        EntityLinetype::Named(Ref::Unresolved("Continuous".to_string()))
    );
    assert_eq!(
        entity_linetype(&Some("HIDDEN".to_string())),
        EntityLinetype::Named(Ref::Unresolved("HIDDEN".to_string()))
    );
}

#[test]
fn a_block_is_written_between_its_begin_and_end_records() {
    let mut w = DxfWriter::new(Codepage::Ascii, 0x20);
    assert!(w.block_begin("HOLE", 0, 0x1A));
    assert!(w.block_end(0x1A));
    let expected = "  0\nBLOCK\n  5\n20\n330\n1A\n100\nAcDbEntity\n  8\n0\n100\nAcDbBlockBegin\n  2\nHOLE\n 70\n0\n 10\n0.0\n 20\n0.0\n 30\n0.0\n  3\nHOLE\n  1\n\n  0\nENDBLK\n  5\n21\n330\n1A\n100\nAcDbEntity\n  8\n0\n100\nAcDbBlockEnd\n";
    assert_eq!(w.handle_seed(), "22");
    assert_eq!(w.into_bytes(), expected.as_bytes().to_vec());
}

#[test]
fn handles_are_issued_once_each_in_order() {
    let mut w = DxfWriter::new(Codepage::Ascii, 0x100);
    assert_eq!(w.handle(), 0x100);
    assert_eq!(w.handle(), 0x101);
    assert!(w.block_end(1));
    assert_eq!(w.handle(), 0x103);
    assert_eq!(w.handle_seed(), "104");
}

#[test]
fn an_entity_starts_with_its_handle_owner_and_layer() {
    let mut w = DxfWriter::new(Codepage::Ascii, 1);
    assert!(w.pair(0, "LINE"));
    assert!(w.common(0x2A, "Walls", 0x1F));
    assert!(w.extrusion(false));
    assert!(w.extrusion(true));
    assert_eq!(
        w.into_bytes(),
        b"  0\nLINE\n  5\n2A\n330\n1F\n100\nAcDbEntity\n  8\nWalls\n210\n0.0\n220\n0.0\n230\n-1.0\n"
            .to_vec()
    );
}

#[test]
fn a_record_the_code_page_cannot_hold_is_not_written_at_all() {
    let mut w = DxfWriter::new(Codepage::Ascii, 1);
    assert!(!w.common(5, "\u{D45C}", 2));
    assert!(!w.pair(1, "\u{D45C}"));
    assert!(!w.block_begin("\u{D45C}", 0, 2));
    assert_eq!(w.handle(), 2);
    assert!(w.into_bytes().is_empty());
    let mut k = DxfWriter::new(Codepage::Ansi949, 1);
    assert!(k.common(5, "\u{D45C}", 2));
    assert!(k.into_bytes().ends_with(&[b' ', b' ', b'8', b'\n', 0xC7, 0xA5, b'\n']));
}
