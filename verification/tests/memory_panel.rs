use memory_panel::address::{
    parse_address_edit, parse_hex_offset, parse_memory_address, parse_signed_hex_offset,
};
use memory_panel::pointer::parse_pointer_expression;
use memory_panel::rtti::demangle_msvc_type_name;
use memory_panel::scan::{parse_scan_value, ScanParse, ScanValue, ScanValueType};
use memory_panel::structure::{auto_structure_elements, decode_pointer, StructureElementType};

#[test]
fn parses_all_supported_scan_types() {
    assert_eq!(
        parse_scan_value("52", ScanValueType::I32, false),
        ScanParse::Parsed(ScanValue::I32(52))
    );
    match parse_scan_value("3.5", ScanValueType::F64, false) {
        ScanParse::Float { text, expression } => {
            assert_eq!(text.parse::<f64>().ok(), Some(3.5));
            assert!(!expression);
        }
        other => panic!("unexpected {other:?}"),
    }
    assert_eq!(
        parse_scan_value("FFFFFFFF", ScanValueType::I32, true),
        ScanParse::Parsed(ScanValue::I32(-1))
    );
    assert_eq!(
        parse_scan_value("4532324+2", ScanValueType::I32, false),
        ScanParse::Evaluate("4532324+2".to_owned())
    );
    assert_eq!(
        parse_scan_value("3232/3", ScanValueType::I32, false),
        ScanParse::Evaluate("3232/3".to_owned())
    );
    assert_eq!(
        parse_scan_value("443*8", ScanValueType::F64, false),
        ScanParse::Float { text: "443*8".to_owned(), expression: true }
    );
}

#[test]
fn parses_decimal_and_hex_addresses() {
    assert_eq!(parse_memory_address("4096"), Some(4096));
    assert_eq!(parse_memory_address("0x1000"), Some(4096));
    assert_eq!(parse_memory_address("20385101704"), Some(0x20385101704));
    assert_eq!(parse_memory_address("7FF6_ABCD"), Some(0x7FF6_ABCD));
    assert_eq!(parse_memory_address("0x1000+10-8"), Some(0x1008));
    assert_eq!(parse_address_edit(0x2000, "-1040"), Some(0x0FC0));
    assert_eq!(parse_address_edit(0x2000, "+18"), Some(0x2018));
    assert_eq!(parse_address_edit(0x1000, "0x3000-10"), Some(0x2FF0));
    assert_eq!(parse_signed_hex_offset("C"), Some(12));
    assert_eq!(parse_signed_hex_offset("-0x10"), Some(-16));
    assert_eq!(parse_hex_offset("48"), Some(0x48));
}

#[test]
fn parses_pasted_pointer_expression() {
    assert_eq!(
        parse_pointer_expression("the-hust-banhmi.exe+6389C60 [258, 180, 354]"),
        Some((
            "the-hust-banhmi.exe".to_owned(),
            0x6389C60,
            vec![0x258, 0x180, 0x354],
        ))
    );
}

#[test]
fn decodes_x86_and_x64_class_pointers() {
    assert_eq!(
        decode_pointer(&0x1234_5678u32.to_le_bytes()),
        Some(0x1234_5678)
    );
    assert_eq!(
        decode_pointer(&0x1234_5678_9ABC_DEF0u64.to_le_bytes()),
        Some(0x1234_5678_9ABC_DEF0)
    );
}

#[test]
fn auto_dissect_recognizes_aligned_x86_pointer() {
    let mut bytes = vec![0; 8];
    bytes[..4].copy_from_slice(&0x0040_1000u32.to_le_bytes());
    let elements = auto_structure_elements(&bytes, 4);
    assert_eq!(elements[0].value_type, StructureElementType::Pointer);
    assert_eq!(elements[0].value_type.width(4), 4);
}

#[test]
fn demangles_basic_msvc_rtti_class_names() {
    assert_eq!(
        demangle_msvc_type_name(".?AVCamera@Game@@").as_deref(),
        Some("Game::Camera")
    );
    assert_eq!(demangle_msvc_type_name("not-rtti"), None);
}
