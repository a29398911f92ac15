use voxel_terrain::ui::{
    ButtonBuilder, Container, ContainerBuilder, Panel, PanelBuilder, Text, UIElement, UIElementHandle,
    UIRenderer, UI,
};

fn text(s: &str) -> UIElement {
    UIElement::Text(Text { content: s.to_string(), size: 16 })
}

#[test]
fn handle_from_keeps_its_id() {
    let h = UIElementHandle::from(42);
    assert_eq!(h.id(), 42);
    assert_eq!(h, UIElementHandle::from(42));
    assert_ne!(h, UIElementHandle::from(43));
    assert!(UIElementHandle::from(3) < UIElementHandle::from(40));
}

#[test]
fn renderer_finds_top_level_and_nested_keys() {
    let mut ui = UIRenderer::new();
    let parent = UIElementHandle::from(1);
    let nested = UIElementHandle::from(2);
    ui.insert(parent, UI::panel("Camera controls", |b| b));
    assert!(ui.contains_key(&parent));
    assert!(!ui.contains_key(&nested));
    ui.insert_to_with_id(parent, nested, text("speed"));
    assert!(ui.contains_key(&nested));
    ui.insert_to(UIElementHandle::from(99), text("lost"));
    assert!(!ui.contains_key(&UIElementHandle::from(99)));
    assert_eq!(ui.elements().len(), 1);
}

#[test]
fn renderer_add_returns_a_fresh_key() {
    let mut ui = UIRenderer::new();
    let a = ui.add(text("a"));
    assert!(ui.contains_key(&a));
    ui.insert(a, text("b"));
    assert_eq!(ui.elements().len(), 1);
    match &ui.elements()[0].1 {
        UIElement::Text(t) => assert_eq!(t.content, "b"),
        _ => panic!("expected text"),
    }
}

#[test]
fn insert_to_appends_to_the_panel_content() {
    let mut ui = UIRenderer::new();
    let p = UIElementHandle::from(5);
    ui.insert(p, UI::panel("P", |b| b.add_child(text("first"))));
    ui.insert_to(p, text("second"));
    match &ui.elements()[0].1 {
        UIElement::Panel(panel) => {
            assert_eq!(panel.content.children.len(), 2);
            assert!(panel.content.children.iter().all(|c| c.0.is_none()));
        },
        _ => panic!("expected panel"),
    }
}

#[test]
fn panel_builder_lays_out_content() {
    let panel = PanelBuilder::new("World").position(10, 130).size(300, 240).add_child(text("x")).build();
    assert_eq!(panel.position, (10, 130));
    assert_eq!(panel.size, (300, 240));
    assert_eq!(panel.title, "World");
    assert!(!panel.collapsible);
    assert_eq!(panel.content.position, (0, 0));
    assert_eq!(panel.content.size, (300, 200));
    assert_eq!(panel.content.gap, 5);
    assert_eq!(panel.content.children.len(), 1);
    let short = PanelBuilder::new("S").size(50, 10).build();
    assert_eq!(short.content.size, (50, 0));
}

#[test]
fn container_builder_keeps_child_order() {
    let c = ContainerBuilder::new()
        .position(1, 2)
        .size(3, 4)
        .add_child(text("a"))
        .add_child(text("b"))
        .build();
    assert_eq!((c.position, c.size, c.gap), ((1, 2), (3, 4), 5));
    let names: Vec<String> = c
        .children
        .iter()
        .map(|ch| match &ch.1 {
            UIElement::Text(t) => t.content.clone(),
            _ => String::new(),
        })
        .collect();
    assert_eq!(names, vec!["a".to_string(), "b".to_string()]);
}

#[test]
fn ui_presets_sizes() {
    match UI::panel("A", |b| b) {
        UIElement::Panel(p) => {
            assert_eq!(p.size, (200, 200));
            assert!(!p.collapsible);
        },
        _ => panic!("expected panel"),
    }
    match UI::collapsible("B", |b| b.position(4, 4)) {
        UIElement::Panel(p) => {
            assert!(p.collapsible);
            assert_eq!(p.position, (4, 4));
        },
        _ => panic!("expected panel"),
    }
    match UI::button("Reset Speed", 7, |b| b) {
        UIElement::Button(b) => {
            assert_eq!(b.size, (100, 20));
            assert_eq!(b.on_click, 7);
            assert_eq!(b.children.len(), 1);
        },
        _ => panic!("expected button"),
    }
    match UI::text("Camera Speed", 16, |t| t) {
        UIElement::Text(t) => assert_eq!((t.content.as_str(), t.size), ("Camera Speed", 16)),
        _ => panic!("expected text"),
    }
    let b = ButtonBuilder::new().size(1, 1).on_click(3).build();
    assert_eq!((b.size, b.on_click), ((1, 1), 3));
}

#[test]
fn panel_and_container_start_empty() {
    let c = Container::new((3, 4), (50, 60));
    assert_eq!((c.position, c.size, c.gap, c.children.len()), ((3, 4), (50, 60), 5, 0));
    let p = Panel::new((1, 2), (200, 200), "Camera controls".to_string());
    assert_eq!(p.title, "Camera controls");
    assert_eq!(p.content.size, (200, 160));
    assert!(p.content.children.is_empty());
}

#[test]
fn container_stacks_children_top_to_bottom() {
    let inner = UIElement::Container(ContainerBuilder::new().size(40, 30).build());
    let c = ContainerBuilder::new()
        .position(10, 20)
        .add_child(text("a"))
        .add_child(inner)
        .add_child(text("b"))
        .build();
    assert_eq!(c.child_offset(0), Some((15, 25)));
    assert_eq!(c.child_offset(1), Some((15, 46)));
    assert_eq!(c.child_offset(2), Some((15, 81)));
    let far = ContainerBuilder::new().position(i32::MAX, 0).add_child(text("x")).build();
    assert_eq!(far.child_offset(0), None);
}
