use mini_runtime::scene::{
    desc, indices, BindGroup, Key, Size, State, VertexFormat, WindowInput, VERTEX_COUNT,
};

fn state() -> State {
    State::new(Size { width: 800, height: 600 }, 9)
}

#[test]
fn resize_takes_positive_size() {
    let mut s = state();
    assert!(s.resize(Size { width: 1024, height: 768 }));
    assert_eq!(s.size, Size { width: 1024, height: 768 });
}

#[test]
fn resize_ignores_zero_side() {
    let mut s = state();
    assert!(!s.resize(Size { width: 0, height: 768 }));
    assert!(!s.resize(Size { width: 1024, height: 0 }));
    assert!(!s.resize(Size { width: 0, height: 0 }));
    assert_eq!(s.size, Size { width: 800, height: 600 });
}

#[test]
fn input_handles_cursor_and_keys() {
    let mut s = state();
    assert!(s.input(WindowInput::CursorMoved));
    assert!(s.input(WindowInput::Keyboard { keycode: Some(Key::Other), pressed: true }));
    assert!(!s.is_space_pressed);
    assert!(!s.input(WindowInput::Keyboard { keycode: None, pressed: true }));
    assert!(!s.input(WindowInput::Other));
}

#[test]
fn space_switches_bind_group() {
    let mut s = state();
    assert_eq!(s.render().bind_group, BindGroup::Diffuse);
    assert!(s.input(WindowInput::Keyboard { keycode: Some(Key::Space), pressed: true }));
    assert!(s.is_space_pressed);
    let plan = s.render();
    assert_eq!(plan.bind_group, BindGroup::Cartoon);
    assert_eq!(plan.index_count, 9);
    assert_eq!(plan.instance_count, 1);
    assert!(s.input(WindowInput::Keyboard { keycode: Some(Key::Space), pressed: false }));
    assert_eq!(s.render().bind_group, BindGroup::Diffuse);
}

#[test]
fn vertex_layout_values() {
    let l = desc();
    assert_eq!(l.array_stride, 20);
    assert_eq!(l.attributes.len(), 2);
    assert_eq!((l.attributes[0].offset, l.attributes[0].shader_location), (0, 0));
    assert_eq!(l.attributes[0].format, VertexFormat::Float32x3);
    assert_eq!((l.attributes[1].offset, l.attributes[1].shader_location), (12, 1));
    assert_eq!(l.attributes[1].format, VertexFormat::Float32x2);
    assert_eq!(VertexFormat::Float32x3.size() + VertexFormat::Float32x2.size(), 20);
}

#[test]
fn index_table_names_existing_vertices() {
    let idx = indices();
    assert_eq!(idx, vec![0, 1, 4, 1, 2, 4, 2, 3, 4]);
    assert!(idx.iter().all(|&i| i < VERTEX_COUNT));
}
