use memory_panel::memory_view::{MemoryViewKind, StructureClass};
use memory_panel::saved_commands::saved_memory_view;
use memory_panel::structure::{copy_elements, default_structure_elements, StructureElement, StructureElementType};

fn field(offset: usize, name: &str) -> StructureElement {
    StructureElement {
        offset,
        value_type: StructureElementType::I64,
        name: name.to_owned(),
        detected_class: Some("Player".to_owned()),
        expanded: true,
        child_elements: vec![StructureElement {
            offset: 0,
            value_type: StructureElementType::Byte,
            name: "inner".to_owned(),
            detected_class: None,
            expanded: false,
            child_elements: Vec::new(),
        }],
    }
}

#[test]
fn copied_fields_keep_their_children() {
    let rows = vec![field(0, "a"), field(8, "b")];
    let copy = copy_elements(&rows);
    assert_eq!(copy.len(), 2);
    assert_eq!(copy[1].name, "b");
    assert_eq!(copy[1].detected_class, Some("Player".to_owned()));
    assert_eq!(copy[0].child_elements[0].name, "inner");
}

#[test]
fn byte_views_step_by_the_forward_step() {
    let mut v = saved_memory_view(0x1000, None, false);
    assert!(v.step_view(true));
    assert_eq!(v.address, 0x100C);
    assert!(v.step_view(false));
    assert_eq!(v.address, 0x1000);
    v.structure_forward_step = "x".to_owned();
    assert!(!v.step_view(true));
    assert_eq!(v.address, 0x1000);
}

#[test]
fn structure_views_step_back_and_forward_and_dissect_again() {
    let mut v = saved_memory_view(0x1000, None, true);
    assert_eq!(v.kind, MemoryViewKind::Structure);
    v.auto_dissected = true;
    v.selected_structure_address = Some(0x1010);
    v.structure_back_step = "20".to_owned();
    assert!(v.step_view(false));
    assert_eq!(v.address, 0x0FE0);
    assert!(!v.auto_dissected);
    assert_eq!(v.selected_structure_address, None);
    v.selected_structure_address = Some(0x5000);
    assert!(v.use_selected_as_base());
    assert_eq!(v.address, 0x5000);
    assert_eq!(v.history, vec![0x0FE0]);
    assert!(!v.use_selected_as_base());
    assert!(v.go_back());
    assert_eq!(v.address, 0x0FE0);
    assert!(v.history.is_empty());
    assert!(!v.go_back());
}

#[test]
fn going_back_to_a_class_shows_its_fields() {
    let mut v = saved_memory_view(0x1000, None, true);
    v.classes.push(StructureClass { name: "Player".to_owned(), address: 0x2000, elements: vec![field(0, "hp")] });
    v.history.push(0x2000);
    assert!(v.go_back());
    assert_eq!(v.selected_class, 1);
    assert_eq!(v.elements.len(), 1);
    assert_eq!(v.elements[0].name, "hp");
}

#[test]
fn switching_classes_keeps_the_active_one() {
    let mut v = saved_memory_view(0x1000, None, true);
    v.classes.push(StructureClass { name: "Player".to_owned(), address: 0x2000, elements: vec![field(0, "hp")] });
    v.elements = vec![field(4, "mine")];
    v.address = 0x1100;
    v.switch_class(1);
    assert_eq!(v.classes[0].address, 0x1100);
    assert_eq!(v.classes[0].elements[0].name, "mine");
    assert_eq!(v.address, 0x2000);
    assert_eq!(v.elements[0].name, "hp");
    assert_eq!(v.selected_class, 1);
}

#[test]
fn a_view_is_dissected_once() {
    let mut v = saved_memory_view(0x1000, Some(8), true);
    assert_eq!(v.elements.len(), default_structure_elements().len());
    v.auto_dissect(&[]);
    assert!(!v.auto_dissected);
    v.auto_dissect(&[1, 0, 0, 0, 2, 0, 0, 0, 3]);
    assert!(v.auto_dissected);
    assert_eq!(v.elements.len(), 3);
    assert_eq!(v.classes[0].elements.len(), 3);
    v.auto_dissect(&[1, 2, 3, 4]);
    assert_eq!(v.elements.len(), 3);
}
