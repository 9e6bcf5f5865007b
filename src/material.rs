use vstd::prelude::*;

verus! {

/// An undoable edit that sets one named property of a material. The command
/// holds the value that is not in the material: the new one before it runs,
/// the previous one after. `R` is the material resource, `P` a property value.
pub struct SetMaterialPropertyValueCommand<R, P> {
    material: R,
    name: String,
    value: P,
}

impl<R, P> SetMaterialPropertyValueCommand<R, P> {
    /// The material the command edits.
    pub closed spec fn spec_material(&self) -> R {
        self.material
    }

    /// The name of the property the command edits.
    pub closed spec fn spec_name(&self) -> Seq<char> {
        self.name@
    }

    /// The value the command holds, that is, the one not in the material.
    pub closed spec fn spec_value(&self) -> P {
        self.value
    }

    pub fn new(material: R, name: String, value: P) -> (r: Self)
        ensures
            r.spec_material() == material,
            r.spec_name() == name@,
            r.spec_value() == value,
    {
        SetMaterialPropertyValueCommand { material, name, value }
    }

    pub fn material(&self) -> (r: &R)
        ensures
            *r == self.spec_material(),
    {
        &self.material
    }

    pub fn name(&self) -> (r: &String)
        ensures
            r@ == self.spec_name(),
    {
        &self.name
    }

    /// Exchanges the held value with `current`, the property's value in the
    /// material: returns the value to write into the material and keeps
    /// `current`. Running it twice restores both sides.
    pub fn swap(&mut self, current: P) -> (r: P)
        ensures
            r == old(self).spec_value(),
            final(self).spec_value() == current,
            final(self).spec_material() == old(self).spec_material(),
            final(self).spec_name() == old(self).spec_name(),
    {
        let mut held = current;
        std::mem::swap(&mut self.value, &mut held);
        held
    }
}

/// Where an undoable shader change stands: not run yet and holding the new
/// shader, run and holding the material it replaced, or undone and holding
/// the material it had made.
pub enum ShaderCommandState<S, M> {
    Undefined,
    NonExecuted { new_shader: S },
    Executed { old_material: M },
    Reverted { new_material: M },
}

/// An undoable edit that replaces a material by a fresh one built from a
/// shader. `R` is the material resource, `S` a shader, `M` a material.
pub struct SetMaterialShaderCommand<R, S, M> {
    material: R,
    state: ShaderCommandState<S, M>,
}

impl<R, S, M> SetMaterialShaderCommand<R, S, M> {
    pub closed spec fn spec_material(&self) -> R {
        self.material
    }

    pub closed spec fn spec_state(&self) -> ShaderCommandState<S, M> {
        self.state
    }

    /// The command is between two runs, never in its transient state.
    pub open spec fn wf(&self) -> bool {
        !(self.spec_state() is Undefined)
    }

    pub fn new(material: R, shader: S) -> (r: Self)
        ensures
            r.wf(),
            r.spec_material() == material,
            r.spec_state() == (ShaderCommandState::<S, M>::NonExecuted { new_shader: shader }),
    {
        SetMaterialShaderCommand { material, state: ShaderCommandState::NonExecuted { new_shader: shader } }
    }

    pub fn material(&self) -> (r: &R)
        ensures
            *r == self.spec_material(),
    {
        &self.material
    }

    /// Runs or undoes the change on `live`, the material's data. On the first
    /// run `live` is replaced by `from_shader` of the held shader and the old
    /// material is kept; each later call exchanges `live` with the kept one.
    pub fn swap<F: FnOnce(S) -> M>(&mut self, live: &mut M, from_shader: F)
        requires
            old(self).wf(),
            old(self).spec_state() is NonExecuted ==> from_shader.requires(
                (old(self).spec_state()->new_shader,),
            ),
        ensures
            final(self).wf(),
            final(self).spec_material() == old(self).spec_material(),
            match old(self).spec_state() {
                ShaderCommandState::NonExecuted { new_shader } => {
                    &&& from_shader.ensures((new_shader,), *final(live))
                    &&& final(self).spec_state() == (ShaderCommandState::<S, M>::Executed { old_material: *old(live) })
                },
                ShaderCommandState::Executed { old_material } => {
                    &&& *final(live) == old_material
                    &&& final(self).spec_state() == (ShaderCommandState::<S, M>::Reverted { new_material: *old(live) })
                },
                ShaderCommandState::Reverted { new_material } => {
                    &&& *final(live) == new_material
                    &&& final(self).spec_state() == (ShaderCommandState::<S, M>::Executed { old_material: *old(live) })
                },
                ShaderCommandState::Undefined => false,
            },
    {
        let mut state = ShaderCommandState::Undefined;
        std::mem::swap(&mut self.state, &mut state);
        match state {
            ShaderCommandState::Undefined => {
                assert(false);
            },
            ShaderCommandState::NonExecuted { new_shader } => {
                let mut material = from_shader(new_shader);
                std::mem::swap(live, &mut material);
                self.state = ShaderCommandState::Executed { old_material: material };
            },
            ShaderCommandState::Executed { old_material } => {
                let mut material = old_material;
                std::mem::swap(live, &mut material);
                self.state = ShaderCommandState::Reverted { new_material: material };
            },
            ShaderCommandState::Reverted { new_material } => {
                let mut material = new_material;
                std::mem::swap(live, &mut material);
                self.state = ShaderCommandState::Executed { old_material: material };
            },
        }
    }
}

} // verus!
