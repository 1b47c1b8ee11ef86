//! The layout calculator: partition formulas, size validation, and the
//! descriptor round trip.

use flashrom_tester::utils::{
    construct_layout_file, get_layout_sizes, layout_section, parse_layout_file, LayoutError,
    LayoutNames,
};

#[test]
fn layout_partition_formulas() {
    let rom_sz: i64 = 0x1000000;
    let ls = get_layout_sizes(rom_sz).unwrap();

    let (name, start, len) = layout_section(&ls, LayoutNames::BottomQuad);
    assert_eq!(name, "BOTTOM_QUAD");
    assert_eq!(start, 0);
    assert_eq!(len, rom_sz / 4);

    let (name, start, len) = layout_section(&ls, LayoutNames::BottomHalf);
    assert_eq!(name, "BOTTOM_HALF");
    assert_eq!(start, 0);
    assert_eq!(len, rom_sz / 2);

    let (name, start, len) = layout_section(&ls, LayoutNames::TopHalf);
    assert_eq!(name, "TOP_HALF");
    assert_eq!(start, rom_sz / 2);
    assert_eq!(len, rom_sz / 2);

    let (name, start, len) = layout_section(&ls, LayoutNames::TopQuad);
    assert_eq!(name, "TOP_QUAD");
    assert_eq!(start, 3 * (rom_sz / 4));
    assert_eq!(len, rom_sz / 4);
}

#[test]
fn layout_rejects_nonpositive_size() {
    assert!(matches!(get_layout_sizes(0), Err(LayoutError::InvalidSize)));
    assert!(matches!(get_layout_sizes(-4), Err(LayoutError::InvalidSize)));
}

#[test]
fn layout_rejects_odd_size() {
    assert!(matches!(get_layout_sizes(3), Err(LayoutError::InvalidSize)));
    assert!(matches!(
        get_layout_sizes(0xFFFFFF),
        Err(LayoutError::InvalidSize)
    ));
}

#[test]
fn layout_descriptor_text_is_exact() {
    let ls = get_layout_sizes(0x1000000).unwrap();
    let text = construct_layout_file(&ls);
    assert_eq!(
        text,
        "000000:3fffff BOTTOM_QUAD\n000000:7fffff BOTTOM_HALF\n800000:ffffff TOP_HALF\nc00000:ffffff TOP_QUAD\n"
    );
}

#[test]
fn layout_descriptor_round_trip() {
    let rom_sz: i64 = 0x800000;
    let ls = get_layout_sizes(rom_sz).unwrap();
    let text = construct_layout_file(&ls);
    let sections = parse_layout_file(text.as_str()).unwrap();
    assert_eq!(sections.len(), 4);
    assert_eq!(
        sections[0],
        ("BOTTOM_QUAD".to_string(), 0, rom_sz / 4 - 1)
    );
    assert_eq!(
        sections[1],
        ("BOTTOM_HALF".to_string(), 0, rom_sz / 2 - 1)
    );
    assert_eq!(
        sections[2],
        ("TOP_HALF".to_string(), rom_sz / 2, rom_sz - 1)
    );
    assert_eq!(
        sections[3],
        ("TOP_QUAD".to_string(), 3 * (rom_sz / 4), rom_sz - 1)
    );
}

#[test]
fn layout_parse_rejects_malformed_lines() {
    assert!(matches!(
        parse_layout_file("no colon here"),
        Err(LayoutError::Malformed)
    ));
    assert!(matches!(
        parse_layout_file("zz:10 NAME"),
        Err(LayoutError::Malformed)
    ));
}
