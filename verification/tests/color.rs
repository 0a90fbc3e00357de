use uncad_model::color::{aci_to_rgb, ACI_PALETTE};

#[test]
fn aci_index_2_is_yellow() {
    assert_eq!(aci_to_rgb(2), Some(0xFF_FF00));
}

#[test]
fn aci_palette_matches_the_published_table() {
    for (index, expected) in [
        (1_usize, 0xFF_0000_u32),
        (8, 0x80_8080),
        (9, 0xC0_C0C0),
        (11, 0xFF_7F7F),
        (12, 0xCC_0000),
        (13, 0xCC_6666),
        (14, 0x99_0000),
        (15, 0x99_4C4C),
        (16, 0x7F_0000),
        (250, 0x33_3333),
        (251, 0x5B_5B5B),
        (252, 0x84_8484),
        (253, 0xAD_ADAD),
        (254, 0xD6_D6D6),
        (255, 0xFF_FFFF),
    ] {
        assert_eq!(
            ACI_PALETTE[index], expected,
            "ACI {index} is #{:06x}, expected #{expected:06x}",
            ACI_PALETTE[index]
        );
    }
}

#[test]
fn aci_palette_covers_zero_through_byblock_and_bylayer() {
    assert_eq!(ACI_PALETTE.len(), 257);
    assert_eq!(ACI_PALETTE[0], 0);
    assert_eq!(ACI_PALETTE[256], 0);
    assert_eq!(aci_to_rgb(256), Some(0));
    assert_eq!(aci_to_rgb(257), None);
}

#[test]
fn every_index_in_the_table_looks_up_its_entry_and_none_beyond() {
    for index in 0..=256u16 {
        assert_eq!(aci_to_rgb(index), Some(ACI_PALETTE[usize::from(index)]));
    }
    assert_eq!(aci_to_rgb(u16::MAX), None);
    assert_eq!(aci_to_rgb(0), Some(0));
}
