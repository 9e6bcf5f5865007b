use anim_blend::gizmo::{NodeHandle, Triangle2DShapeGizmo};
use anim_blend::material::{SetMaterialPropertyValueCommand, SetMaterialShaderCommand};

fn h(index: u32, generation: u32) -> NodeHandle {
    NodeHandle { index, generation }
}

#[test]
fn gizmo_vertex_lookup() {
    let g = Triangle2DShapeGizmo::new(h(1, 1), h(2, 1), h(3, 1));
    assert_eq!(g.handle_list(), vec![h(1, 1), h(2, 1), h(3, 1)]);
    assert_eq!(g.vertex_of(h(1, 1)), Some(0));
    assert_eq!(g.vertex_of(h(2, 1)), Some(1));
    assert_eq!(g.vertex_of(h(3, 1)), Some(2));
    assert_eq!(g.vertex_of(h(3, 2)), None);
    assert!(g.is_vector_handle(h(2, 1)));
    assert!(!g.is_vector_handle(h(4, 1)));
}

#[test]
fn gizmo_shared_handle_picks_first_vertex() {
    let g = Triangle2DShapeGizmo::new(h(5, 0), h(5, 0), h(6, 0));
    assert_eq!(g.vertex_of(h(5, 0)), Some(0));
    assert_eq!(g.vertex_of(h(6, 0)), Some(2));
}

#[test]
fn property_command_swap_round_trip() {
    let mut cmd = SetMaterialPropertyValueCommand::new(7u32, "diffuseColor".to_string(), 10i32);
    assert_eq!(*cmd.material(), 7);
    assert_eq!(cmd.name(), "diffuseColor");
    let to_write = cmd.swap(3);
    assert_eq!(to_write, 10);
    let restored = cmd.swap(to_write);
    assert_eq!(restored, 3);
}

#[test]
fn shader_command_execute_revert_execute() {
    let mut cmd: SetMaterialShaderCommand<u32, &str, String> = SetMaterialShaderCommand::new(1u32, "toon");
    assert_eq!(*cmd.material(), 1);
    let mut live = "standard material".to_string();
    cmd.swap(&mut live, |s: &str| format!("{} material", s));
    assert_eq!(live, "toon material");
    cmd.swap(&mut live, |s: &str| format!("{} material", s));
    assert_eq!(live, "standard material");
    cmd.swap(&mut live, |_s: &str| "never built".to_string());
    assert_eq!(live, "toon material");
}
