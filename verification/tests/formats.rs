use memory_panel::address::{format_memory_address, format_prefixed_memory_address, parse_address_edit, parse_hex_offset, parse_memory_address, parse_memory_address_term};
use memory_panel::pointer::{format_pointer_expression, format_pointer_path, instruction_memory_displacement, parse_pointer_expression, PointerPath, PointerSpec};
use memory_panel::rtti::{module_containing, rtti_name_from_raw, rtti_type_descriptor};
use memory_panel::scan::{
    editable_scan_value, format_scan_value, memory_type_config, memory_type_from_config, memory_type_label,
    memory_value_types, parse_hex_signed, parse_scan_value, scan_bounds_are_ordered, MemoryScanAction, ScanComparison,
    ScanParse, ScanValue, ScanValueType,
};
use memory_panel::structure::{ce_element_description, default_structure_elements, format_structure_value, StructureElement, StructureElementType};
use memory_panel::view::{format_memory_display, format_memory_protection, memory_display_scan_type, memory_display_types, memory_display_width, MemoryDisplayType};

#[test]
fn plain_addresses_read_back() {
    for a in [0usize, 1, 0xAB, 0x1234_5678, 0xFFFF_FFFF, 0x7FF6_1234_5678, usize::MAX] {
        assert_eq!(parse_memory_address(&format_memory_address(a)), Some(a));
    }
    assert_eq!(parse_memory_address("000000AB"), Some(0xAB));
}

#[test]
fn addresses_are_written_with_eight_digits_and_read_back() {
    assert_eq!(format_memory_address(0x1234), "00001234");
    assert_eq!(format_memory_address(0x1_2345_6789), "123456789");
    assert_eq!(format_prefixed_memory_address(0xAB), "0x000000AB");
    for a in [0usize, 1, 0xFFFF_FFFF, 0x7FF6_1234_5678, usize::MAX] {
        assert_eq!(parse_memory_address(&format_prefixed_memory_address(a)), Some(a));
        assert_eq!(parse_hex_offset(&format_memory_address(a)), Some(a));
    }
    assert_eq!(parse_address_edit(0x1000, &format!("+{:X}", 0x234)), Some(0x1234));
    assert_eq!(parse_address_edit(0x1000, "-1001"), None);
    assert_eq!(parse_memory_address_term("12"), Some(12));
    assert_eq!(parse_memory_address_term("1A"), Some(0x1A));
    assert_eq!(parse_memory_address("  0x10 _ + 8 "), Some(0x18));
    assert_eq!(parse_memory_address("0x10+zz"), None);
}

#[test]
fn edited_values_read_back() {
    let values = [
        ScanValue::I8(-128),
        ScanValue::I8(5),
        ScanValue::I16(-2),
        ScanValue::I32(i32::MIN),
        ScanValue::I32(123456),
        ScanValue::I64(-1),
        ScanValue::I64(i64::MAX),
    ];
    for v in values {
        let t = match v {
            ScanValue::I8(_) => ScanValueType::I8,
            ScanValue::I16(_) => ScanValueType::I16,
            ScanValue::I32(_) => ScanValueType::I32,
            _ => ScanValueType::I64,
        };
        for hex in [false, true] {
            let shown = format_scan_value(v, hex).unwrap();
            assert_eq!(parse_scan_value(&shown, t, hex), ScanParse::Parsed(v));
            let edited = editable_scan_value(v, hex).unwrap();
            assert_eq!(parse_scan_value(&edited, t, hex), ScanParse::Parsed(v));
        }
    }
    assert_eq!(format_scan_value(ScanValue::I16(-2), true).as_deref(), Some("0xFFFE"));
    assert_eq!(editable_scan_value(ScanValue::I16(-2), true).as_deref(), Some("FFFE"));
    assert_eq!(format_scan_value(ScanValue::I32(-7), false).as_deref(), Some("-7"));
    assert_eq!(format_scan_value(ScanValue::F32(1.5f32.to_bits()), false), None);
    assert_eq!(format_scan_value(ScanValue::F32(1.5f32.to_bits()), true).as_deref(), Some("0x3FC00000"));
}

#[test]
fn scan_text_edge_cases() {
    assert_eq!(parse_scan_value("1_000", ScanValueType::I32, false), ScanParse::Parsed(ScanValue::I32(1000)));
    assert_eq!(parse_scan_value("128", ScanValueType::I8, false), ScanParse::Invalid);
    assert_eq!(parse_scan_value("abc", ScanValueType::I32, false), ScanParse::Invalid);
    assert_eq!(parse_scan_value("1+x", ScanValueType::I32, false), ScanParse::Invalid);
    assert_eq!(parse_scan_value("1+1", ScanValueType::I32, true), ScanParse::Invalid);
    assert_eq!(parse_scan_value("-80", ScanValueType::I8, true), ScanParse::Parsed(ScanValue::I8(-128)));
    assert_eq!(parse_hex_signed("FF", 8), Some(-1));
    assert_eq!(parse_hex_signed("0x7F", 8), Some(127));
    assert_eq!(parse_hex_signed("-10", 32), Some(-16));
    assert_eq!(parse_hex_signed("g", 32), None);
}

#[test]
fn scan_bounds_order_integers_and_float_bits() {
    assert!(scan_bounds_are_ordered(ScanValue::I32(-5), ScanValue::I32(3)));
    assert!(!scan_bounds_are_ordered(ScanValue::I64(4), ScanValue::I64(3)));
    assert!(scan_bounds_are_ordered(ScanValue::F32((-2.5f32).to_bits()), ScanValue::F32(1.0f32.to_bits())));
    assert!(!scan_bounds_are_ordered(ScanValue::F64(2.0f64.to_bits()), ScanValue::F64((-1.0f64).to_bits())));
    assert!(!scan_bounds_are_ordered(ScanValue::F32(f32::NAN.to_bits()), ScanValue::F32(1.0f32.to_bits())));
    assert!(!scan_bounds_are_ordered(ScanValue::I32(1), ScanValue::I64(2)));
}

#[test]
fn value_types_and_actions_have_labels_and_keys() {
    assert_eq!(memory_type_label(ScanValueType::F64), "Double");
    assert_eq!(memory_type_config(ScanValueType::I16), "i16");
    for (t, label) in memory_value_types() {
        assert_eq!(memory_type_label(t), label);
        assert_eq!(memory_type_from_config(memory_type_config(t)), Some(t));
    }
    assert_eq!(memory_type_from_config("u8"), None);
    let actions = [
        MemoryScanAction::FirstScan,
        MemoryScanAction::Unknown,
        MemoryScanAction::Exact,
        MemoryScanAction::Increased,
        MemoryScanAction::Decreased,
        MemoryScanAction::Changed,
        MemoryScanAction::Unchanged,
        MemoryScanAction::Less,
        MemoryScanAction::Greater,
        MemoryScanAction::Between,
    ];
    for a in actions {
        assert_eq!(MemoryScanAction::from_config_key(a.config_key()), Some(a));
    }
    assert_eq!(MemoryScanAction::Between.comparison(), Some(ScanComparison::Between));
    assert_eq!(MemoryScanAction::FirstScan.comparison(), None);
    assert_eq!(MemoryScanAction::Exact.label(), "New value");
    assert_eq!(MemoryScanAction::from_config_key("first"), None);
}

#[test]
fn pointer_paths_are_written_and_pasted_back() {
    let path = PointerPath { module: "the-hust-banhmi.exe".to_owned(), module_offset: 0x6389C60, offsets: vec![0x258, 0x180, 0x354] };
    let text = format_pointer_path(&path);
    assert_eq!(text, "the-hust-banhmi.exe+6389C60 [258, 180, 354]");
    assert_eq!(parse_pointer_expression(&text), Some((path.module.clone(), path.module_offset, path.offsets.clone())));
    assert_eq!(parse_pointer_expression("game.exe+10 []"), None);
    assert_eq!(parse_pointer_expression("game.exe+10"), None);
    assert_eq!(parse_pointer_expression("+10 [8]"), None);
    assert_eq!(parse_pointer_expression("game.exe+10 [8;C]"), Some(("game.exe".to_owned(), 0x10, vec![8, 0xC])));
    let absolute = PointerSpec { base: 0x4000, module: None, offsets: vec![] };
    assert_eq!(format_pointer_expression(&absolute), "0x00004000");
    let module = PointerSpec { base: 0, module: Some(("m.dll".to_owned(), 0x20)), offsets: vec![0x8, 0x10] };
    assert_eq!(format_pointer_expression(&module), "m.dll+20 [8, 10]");
}

#[test]
fn instruction_displacements_are_read_from_the_memory_operand() {
    assert_eq!(instruction_memory_displacement("movups [rdi+288h], xmm0"), 0x288);
    assert_eq!(instruction_memory_displacement("mov eax, [rcx-0x10]"), -0x10);
    assert_eq!(instruction_memory_displacement("mov eax, [rcx]"), 0);
    assert_eq!(instruction_memory_displacement("nop"), 0);
    assert_eq!(instruction_memory_displacement("mov eax, [rcx+zz]"), 0);
}

#[test]
fn structure_rows_have_default_names_and_descriptions() {
    let rows = default_structure_elements();
    assert_eq!(rows.len(), 128);
    assert_eq!(rows[3].offset, 12);
    assert_eq!(rows[3].name, "field_000C");
    assert_eq!(rows[3].value_type, StructureElementType::I32);
    let mut e = StructureElement {
        offset: 8,
        value_type: StructureElementType::Pointer,
        name: "field_0008".to_owned(),
        detected_class: Some("CPlayer".to_owned()),
        expanded: false,
        child_elements: Vec::new(),
    };
    assert_eq!(ce_element_description(&e), "+0008 - Pointer to instance of CPlayer");
    e.name = "player".to_owned();
    e.detected_class = None;
    assert_eq!(ce_element_description(&e), "+0008 - Pointer (player)");
    e.value_type = StructureElementType::Float;
    assert_eq!(ce_element_description(&e), "+0008 - Float (player)");
}

#[test]
fn structure_values_and_memory_rows_are_formatted() {
    assert_eq!(format_structure_value(&[0xAB], StructureElementType::Byte).as_deref(), Some("AB"));
    assert_eq!(format_structure_value(&(-2i16).to_le_bytes(), StructureElementType::I16).as_deref(), Some("-2"));
    assert_eq!(format_structure_value(&0x1234u32.to_le_bytes(), StructureElementType::Pointer).as_deref(), Some("P->1234"));
    assert_eq!(format_structure_value(&[1, 2, 3], StructureElementType::Pointer).as_deref(), Some("P->?"));
    assert_eq!(format_structure_value(&1.0f32.to_le_bytes(), StructureElementType::Float), None);
    let bytes = [0x01, 0x02, 0x03, 0x04, 0xFF];
    assert_eq!(format_memory_display(&bytes, MemoryDisplayType::ByteHex).as_deref(), Some("01 02 03 04 FF"));
    assert_eq!(format_memory_display(&bytes, MemoryDisplayType::ByteDecimal).as_deref(), Some("1 2 3 4 255"));
    assert_eq!(format_memory_display(&bytes, MemoryDisplayType::I16Hex).as_deref(), Some("0201 0403"));
    assert_eq!(format_memory_display(&bytes, MemoryDisplayType::I32Decimal).as_deref(), Some("67305985"));
    assert_eq!(format_memory_display(&bytes, MemoryDisplayType::I64Hex).as_deref(), Some(""));
    assert_eq!(memory_display_width(MemoryDisplayType::Double), 8);
    assert_eq!(memory_display_scan_type(MemoryDisplayType::I16Decimal), ScanValueType::I16);
    assert_eq!(memory_display_types()[4].1, "4 Byte hex");
    assert_eq!(format_memory_protection(0x104), "Read/Write");
    assert_eq!(format_memory_protection(0x03), "Unknown");
}

#[test]
fn modules_and_rtti_names_are_found() {
    let modules = vec![("game.exe".to_owned(), 0x1000usize, 0x100usize), ("b.dll".to_owned(), 0x2000, 0x10)];
    assert_eq!(module_containing(&modules, 0x10FF), Some(("game.exe", 0x1000, 0x100)));
    assert_eq!(module_containing(&modules, 0x1100), None);
    assert_eq!(module_containing(&modules, 0x2004), Some(("b.dll", 0x2000, 0x10)));
    assert_eq!(rtti_name_from_raw(b".?AVCamera@Game@@\0junk"), Some("Game::Camera".to_owned()));
    assert_eq!(rtti_name_from_raw(b"plain\0"), None);
    let mut locator = vec![0u8; 24];
    locator[12..16].copy_from_slice(&0x300u32.to_le_bytes());
    assert_eq!(rtti_type_descriptor(0x5000, &locator, 8, 0x1000), None);
    locator[20..24].copy_from_slice(&0x4000u32.to_le_bytes());
    assert_eq!(rtti_type_descriptor(0x5000, &locator, 8, 0x1000), Some((0x1300, 16)));
    assert_eq!(rtti_type_descriptor(0x5000, &locator[..20], 4, 0), Some((0x300, 8)));
    assert_eq!(rtti_type_descriptor(0x5000, &locator[..20], 8, 0x1000), None);
}
