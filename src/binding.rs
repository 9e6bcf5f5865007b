use vstd::prelude::*;

verus! {

/// The channel that an animated value targets: one of the transform channels
/// of a node, or a property of the node reached by a path.
#[derive(Debug)]
pub enum ValueBinding {
    Position,
    Scale,
    Rotation,
    Property(String),
}

/// Two bindings target the same channel: same variant, and for properties
/// the same path, character for character.
pub open spec fn same_binding(a: ValueBinding, b: ValueBinding) -> bool {
    match (a, b) {
        (ValueBinding::Position, ValueBinding::Position) => true,
        (ValueBinding::Scale, ValueBinding::Scale) => true,
        (ValueBinding::Rotation, ValueBinding::Rotation) => true,
        (ValueBinding::Property(x), ValueBinding::Property(y)) => x@ == y@,
        _ => false,
    }
}

impl PartialEq for ValueBinding {
    fn eq(&self, other: &ValueBinding) -> (r: bool) {
        match (self, other) {
            (ValueBinding::Position, ValueBinding::Position) => true,
            (ValueBinding::Scale, ValueBinding::Scale) => true,
            (ValueBinding::Rotation, ValueBinding::Rotation) => true,
            (ValueBinding::Property(x), ValueBinding::Property(y)) => x.eq(y),
            _ => false,
        }
    }
}

impl vstd::std_specs::cmp::PartialEqSpecImpl for ValueBinding {
    open spec fn obeys_eq_spec() -> bool {
        true
    }

    open spec fn eq_spec(&self, other: &ValueBinding) -> bool {
        same_binding(*self, *other)
    }
}

impl Eq for ValueBinding {
}

impl Clone for ValueBinding {
    fn clone(&self) -> (r: ValueBinding)
        ensures
            r == *self,
    {
        match self {
            ValueBinding::Position => ValueBinding::Position,
            ValueBinding::Scale => ValueBinding::Scale,
            ValueBinding::Rotation => ValueBinding::Rotation,
            ValueBinding::Property(name) => ValueBinding::Property(name.clone()),
        }
    }
}

} // verus!
