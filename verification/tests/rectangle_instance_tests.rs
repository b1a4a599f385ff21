use scene_core::rectangle_instance::RectangleInstance;
use scene_core::rectangle_instance_builder::RectangleInstanceBuilder;
use scene_core::vertex_types::Vertex3DColor3D;

#[test]
fn new_instance_is_unbuilt() {
    let instance = RectangleInstance::new([1, 2, 3], [4, 5, 6]);
    assert_eq!(instance.position, vec![1, 2, 3]);
    assert_eq!(instance.color, vec![4, 5, 6]);
    assert!(instance.instance_vertex.is_none());
}

#[test]
fn build_fills_the_vertex() {
    let mut instance = RectangleInstance::new([1, 2, 3], [4, 5, 6]);
    instance.build();
    assert_eq!(
        instance.instance_vertex,
        Some(Vertex3DColor3D { instance_position: [1, 2, 3], instance_color: [4, 5, 6] })
    );
    assert_eq!(instance.position, vec![1, 2, 3]);
    assert_eq!(instance.color, vec![4, 5, 6]);
}

#[test]
fn build_uses_the_first_three_components() {
    let mut instance = RectangleInstance::new([0, 0, 0], [0, 0, 0]);
    instance.position = vec![10, 20, 30, 40];
    instance.color = vec![7, 8, 9, 10, 11];
    instance.build();
    let vertex = instance.get_instance_vertex();
    assert_eq!(vertex.instance_position, [10, 20, 30]);
    assert_eq!(vertex.instance_color, [7, 8, 9]);
    assert_eq!(instance.position.len(), 4);
}

#[test]
fn rebuild_follows_changed_components() {
    let mut instance = RectangleInstanceBuilder::create([1, 1, 1], [2, 2, 2]);
    instance.position = vec![3, 3, 3];
    instance.build();
    assert_eq!(instance.get_instance_vertex().instance_position, [3, 3, 3]);
    assert_eq!(instance.get_instance_vertex().instance_color, [2, 2, 2]);
}

#[test]
fn builder_creates_built_instances() {
    let position = [(-5.0f32).to_bits(), 2.5f32.to_bits(), 10.0f32.to_bits()];
    let color = [0.25f32.to_bits(), 0.5f32.to_bits(), 1.0f32.to_bits()];
    let instance = RectangleInstanceBuilder::create(position, color);
    let vertex = instance.get_instance_vertex();
    assert_eq!(vertex.instance_position.map(f32::from_bits), [-5.0, 2.5, 10.0]);
    assert_eq!(vertex.instance_color.map(f32::from_bits), [0.25, 0.5, 1.0]);
    assert_eq!(instance.position, position.to_vec());
    assert_eq!(instance.color, color.to_vec());
}

#[test]
fn nan_payloads_survive() {
    let odd = 0x7fc0_1234u32;
    let instance = RectangleInstanceBuilder::create([odd, odd, odd], [0, 0, 0]);
    assert_eq!(instance.get_instance_vertex().instance_position, [odd, odd, odd]);
}
