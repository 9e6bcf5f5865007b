pub mod binding;
pub mod gizmo;
pub mod material;
pub mod value;
