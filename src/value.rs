use vstd::prelude::*;

use crate::binding::{same_binding, ValueBinding};

verus! {

/// A value together with the channel it targets. The value type `V` is the
/// track value of the caller (a vector or a rotation); the arithmetic on it is
/// handed in as closures, so that this module decides only which values meet.
pub struct BoundValue<V> {
    pub binding: ValueBinding,
    pub value: V,
}

/// The output of one animation layer for one node at one instant.
pub struct BoundValueCollection<V> {
    pub values: Vec<BoundValue<V>>,
}

/// The kind of a track value: a 3D vector or a unit rotation.
#[derive(Clone, Copy, Debug, PartialEq, Eq, Structural)]
pub enum ValueKind {
    Vector3,
    UnitQuaternion,
}

/// What writing one bound value back to a node amounts to.
#[derive(Clone, Copy, Debug, PartialEq, Eq, Structural)]
pub enum ApplyAction {
    /// Set the node's local position to the (vector) value.
    SetPosition,
    /// Set the node's local scale to the (vector) value.
    SetScale,
    /// Set the node's local rotation to the (rotation) value.
    SetRotation,
    /// Resolve the binding's property path on the node and write the value there.
    SetProperty,
    /// The channel needs a value of the given kind and holds another: the write
    /// is skipped and reported.
    KindMismatch(ValueKind),
}

/// The kind of value that a transform channel takes; `None` for a property,
/// whose type is only known once its path is resolved.
pub open spec fn channel_kind(b: ValueBinding) -> Option<ValueKind> {
    match b {
        ValueBinding::Position => Some(ValueKind::Vector3),
        ValueBinding::Scale => Some(ValueKind::Vector3),
        ValueBinding::Rotation => Some(ValueKind::UnitQuaternion),
        ValueBinding::Property(_) => None,
    }
}

/// Which write applies a value of kind `kind` to the channel `b`.
pub open spec fn action_for(b: ValueBinding, kind: ValueKind) -> ApplyAction {
    match channel_kind(b) {
        Some(expected) => if expected != kind {
            ApplyAction::KindMismatch(expected)
        } else {
            match b {
                ValueBinding::Position => ApplyAction::SetPosition,
                ValueBinding::Scale => ApplyAction::SetScale,
                _ => ApplyAction::SetRotation,
            }
        },
        None => ApplyAction::SetProperty,
    }
}

/// `a` is the write for `bv`, for a kind that `kind_of` may give its value.
pub open spec fn planned_write<V, F: Fn(&V) -> ValueKind>(kind_of: F, bv: BoundValue<V>, a: ApplyAction) -> bool {
    exists|kind: ValueKind| kind_of.ensures((&bv.value,), kind) && a == #[trigger] action_for(bv.binding, kind)
}

/// Decides how a value of kind `kind` bound to `binding` is written to a node:
/// position and scale take vectors, rotation takes rotations, and a property
/// takes whatever its resolved path accepts.
pub fn apply_action(binding: &ValueBinding, kind: ValueKind) -> (r: ApplyAction)
    ensures
        r == action_for(*binding, kind),
{
    match binding {
        ValueBinding::Position => match kind {
            ValueKind::Vector3 => ApplyAction::SetPosition,
            ValueKind::UnitQuaternion => ApplyAction::KindMismatch(ValueKind::Vector3),
        },
        ValueBinding::Scale => match kind {
            ValueKind::Vector3 => ApplyAction::SetScale,
            ValueKind::UnitQuaternion => ApplyAction::KindMismatch(ValueKind::Vector3),
        },
        ValueBinding::Rotation => match kind {
            ValueKind::UnitQuaternion => ApplyAction::SetRotation,
            ValueKind::Vector3 => ApplyAction::KindMismatch(ValueKind::UnitQuaternion),
        },
        ValueBinding::Property(_) => ApplyAction::SetProperty,
    }
}

/// Some entry of `values` targets the channel `b`.
pub open spec fn has_binding<V>(values: Seq<BoundValue<V>>, b: ValueBinding) -> bool {
    exists|j: int| 0 <= j < values.len() && #[trigger] same_binding(values[j].binding, b)
}

/// `j` is the first entry of `values` that targets the channel `b`.
pub open spec fn is_first_match<V>(values: Seq<BoundValue<V>>, b: ValueBinding, j: int) -> bool {
    &&& 0 <= j < values.len()
    &&& same_binding(values[j].binding, b)
    &&& forall|k: int| 0 <= k < j ==> !#[trigger] same_binding(values[k].binding, b)
}

/// Positions, in order, of the entries of `a` whose channel `b` also targets.
pub open spec fn shared_indices<V>(a: Seq<BoundValue<V>>, b: Seq<BoundValue<V>>) -> Seq<int>
    decreases a.len(),
{
    if a.len() == 0 {
        Seq::empty()
    } else {
        let prev = shared_indices(a.drop_last(), b);
        if has_binding(b, a.last().binding) {
            prev.push(a.len() - 1)
        } else {
            prev
        }
    }
}

/// The positions that `shared_indices` yields are increasing, lie within `a`,
/// and are exactly those whose channel `b` targets.
pub proof fn lemma_shared_indices<V>(a: Seq<BoundValue<V>>, b: Seq<BoundValue<V>>)
    ensures
        forall|k: int|
            0 <= k < shared_indices(a, b).len() ==> {
                &&& 0 <= #[trigger] shared_indices(a, b)[k] < a.len()
                &&& has_binding(b, a[shared_indices(a, b)[k]].binding)
            },
        forall|k1: int, k2: int|
            0 <= k1 < k2 < shared_indices(a, b).len() ==> #[trigger] shared_indices(a, b)[k1]
                < #[trigger] shared_indices(a, b)[k2],
        forall|i: int|
            0 <= i < a.len() && has_binding(b, #[trigger] a[i].binding) ==> exists|k: int|
                0 <= k < shared_indices(a, b).len() && #[trigger] shared_indices(a, b)[k] == i,
    decreases a.len(),
{
    if a.len() > 0 {
        lemma_shared_indices(a.drop_last(), b);
        assert forall|i: int| 0 <= i < a.len() - 1 implies #[trigger] a[i] == a.drop_last()[i] by {}
        let prev = shared_indices(a.drop_last(), b);
        if has_binding(b, a.last().binding) {
            let cur = prev.push(a.len() - 1);
            assert(cur[prev.len() as int] == a.len() - 1);
            assert forall|i: int| 0 <= i < a.len() && has_binding(b, #[trigger] a[i].binding) implies exists|k: int|
                0 <= k < cur.len() && #[trigger] cur[k] == i by {
                if i < a.len() - 1 {
                    assert(has_binding(b, a.drop_last()[i].binding));
                    let k = choose|k: int| 0 <= k < prev.len() && #[trigger] prev[k] == i;
                    assert(cur[k] == i);
                } else {
                    assert(cur[prev.len() as int] == i);
                }
            }
        } else {
            assert forall|i: int| 0 <= i < a.len() && has_binding(b, #[trigger] a[i].binding) implies exists|k: int|
                0 <= k < prev.len() && #[trigger] prev[k] == i by {
                assert(i < a.len() - 1);
                assert(has_binding(b, a.drop_last()[i].binding));
            }
        }
    }
}

impl<V> BoundValue<V> {
    /// A copy for the same channel whose value is `scale` applied to this one.
    pub fn weighted_clone<F: Fn(&V) -> V>(&self, scale: F) -> (r: BoundValue<V>)
        requires
            scale.requires((&self.value,)),
        ensures
            r.binding == self.binding,
            scale.ensures((&self.value,), r.value),
    {
        BoundValue { binding: self.binding.clone(), value: scale(&self.value) }
    }

    /// Blends `other` into this value; both must target the same channel.
    pub fn blend_with<F: Fn(&V, &V) -> V>(&mut self, other: &BoundValue<V>, blend: F)
        requires
            same_binding(old(self).binding, other.binding),
            blend.requires((&old(self).value, &other.value)),
        ensures
            final(self).binding == old(self).binding,
            blend.ensures((&old(self).value, &other.value), final(self).value),
    {
        let v = blend(&self.value, &other.value);
        self.value = v;
    }

    /// Interpolates towards `other`, which must target the same channel; `None`
    /// where `interp` finds the two values not interpolable.
    pub fn interpolate<F: Fn(&V, &V) -> Option<V>>(
        &self,
        other: &BoundValue<V>,
        interp: F,
    ) -> (r: Option<BoundValue<V>>)
        requires
            same_binding(self.binding, other.binding),
            interp.requires((&self.value, &other.value)),
        ensures
            match r {
                None => interp.ensures((&self.value, &other.value), None),
                Some(b) => b.binding == self.binding && interp.ensures(
                    (&self.value, &other.value),
                    Some(b.value),
                ),
            },
    {
        match interp(&self.value, &other.value) {
            None => None,
            Some(value) => Some(BoundValue { binding: self.binding.clone(), value }),
        }
    }
}

impl<V> BoundValueCollection<V> {
    /// Position of the first entry that targets `binding`.
    pub fn position_of(&self, binding: &ValueBinding) -> (r: Option<usize>)
        ensures
            match r {
                Some(j) => is_first_match(self.values@, *binding, j as int),
                None => !has_binding(self.values@, *binding),
            },
    {
        let n = self.values.len();
        let mut j: usize = 0;
        while j < n
            invariant
                n == self.values@.len(),
                j <= n,
                forall|k: int| 0 <= k < j ==> !#[trigger] same_binding(self.values@[k].binding, *binding),
            decreases n - j,
        {
            if self.values[j].binding == *binding {
                return Some(j);
            }
            j += 1;
        }
        None
    }

    /// A copy in the same order whose values are each `scale` applied to the
    /// original value.
    pub fn weighted_clone<F: Fn(&V) -> V>(&self, scale: F) -> (r: BoundValueCollection<V>)
        requires
            forall|i: int| 0 <= i < self.values@.len() ==> scale.requires((&#[trigger] self.values@[i].value,)),
        ensures
            r.values@.len() == self.values@.len(),
            forall|i: int|
                0 <= i < self.values@.len() ==> {
                    &&& (#[trigger] r.values@[i]).binding == self.values@[i].binding
                    &&& scale.ensures((&self.values@[i].value,), r.values@[i].value)
                },
    {
        let n = self.values.len();
        let mut values: Vec<BoundValue<V>> = Vec::new();
        let mut i: usize = 0;
        while i < n
            invariant
                n == self.values@.len(),
                i <= n,
                values@.len() == i,
                forall|k: int| 0 <= k < n ==> scale.requires((&self.values@[k].value,)),
                forall|k: int|
                    0 <= k < i ==> {
                        &&& (#[trigger] values@[k]).binding == self.values@[k].binding
                        &&& scale.ensures((&self.values@[k].value,), values@[k].value)
                    },
            decreases n - i,
        {
            let v = scale(&self.values[i].value);
            values.push(BoundValue { binding: self.values[i].binding.clone(), value: v });
            i += 1;
        }
        BoundValueCollection { values }
    }

    /// Blends into each entry the first entry of `other` that targets the same
    /// channel; an entry that `other` has no counterpart for stays as it is.
    pub fn blend_with<F: Fn(&V, &V) -> V>(&mut self, other: &BoundValueCollection<V>, blend: F)
        requires
            forall|i: int, j: int|
                0 <= i < old(self).values@.len() && 0 <= j < other.values@.len()
                    ==> blend.requires((&#[trigger] old(self).values@[i].value, &#[trigger] other.values@[j].value)),
        ensures
            final(self).values@.len() == old(self).values@.len(),
            forall|i: int|
                0 <= i < old(self).values@.len() ==> (#[trigger] final(self).values@[i]).binding
                    == old(self).values@[i].binding,
            forall|i: int|
                0 <= i < old(self).values@.len() && !has_binding(other.values@, old(self).values@[i].binding)
                    ==> #[trigger] final(self).values@[i] == old(self).values@[i],
            forall|i: int, j: int|
                0 <= i < old(self).values@.len() && #[trigger] is_first_match(other.values@, old(self).values@[i].binding, j)
                    ==> blend.ensures(
                    (&old(self).values@[i].value, &other.values@[j].value),
                    final(self).values@[i].value,
                ),
            (forall|i: int| 0 <= i < old(self).values@.len() ==> !has_binding(other.values@, #[trigger] old(self).values@[i].binding))
                ==> final(self).values@ == old(self).values@,
    {
        let n = self.values.len();
        let mut i: usize = 0;
        while i < n
            invariant
                n == self.values@.len(),
                n == old(self).values@.len(),
                i <= n,
                forall|k: int, j: int|
                    0 <= k < n && 0 <= j < other.values@.len()
                        ==> blend.requires((&#[trigger] old(self).values@[k].value, &#[trigger] other.values@[j].value)),
                forall|k: int| i <= k < n ==> #[trigger] self.values@[k] == old(self).values@[k],
                forall|k: int| 0 <= k < i ==> (#[trigger] self.values@[k]).binding == old(self).values@[k].binding,
                forall|k: int|
                    0 <= k < i && !has_binding(other.values@, old(self).values@[k].binding)
                        ==> #[trigger] self.values@[k] == old(self).values@[k],
                forall|k: int, j: int|
                    0 <= k < i && #[trigger] is_first_match(other.values@, old(self).values@[k].binding, j)
                        ==> blend.ensures(
                        (&old(self).values@[k].value, &other.values@[j].value),
                        self.values@[k].value,
                    ),
            decreases n - i,
        {
            match other.position_of(&self.values[i].binding) {
                Some(j) => {
                    let v = blend(&self.values[i].value, &other.values[j].value);
                    let b = self.values[i].binding.clone();
                    self.values.set(i, BoundValue { binding: b, value: v });
                    proof {
                        assert forall|j2: int| is_first_match(other.values@, old(self).values@[i as int].binding, j2)
                            implies j2 == j by {
                            if j2 < j {
                                assert(!same_binding(other.values@[j2].binding, old(self).values@[i as int].binding));
                            } else if j < j2 {
                                assert(!same_binding(other.values@[j as int].binding, old(self).values@[i as int].binding));
                            }
                        }
                    }
                },
                None => {},
            }
            i += 1;
        }
        proof {
            if forall|k: int| 0 <= k < n ==> !has_binding(other.values@, #[trigger] old(self).values@[k].binding) {
                assert(self.values@ =~= old(self).values@);
            }
        }
    }

    /// The write that applies each entry to a node, in order; `kind_of` tells
    /// the kind of a value.
    pub fn apply_plan<F: Fn(&V) -> ValueKind>(&self, kind_of: F) -> (r: Vec<ApplyAction>)
        requires
            forall|i: int| 0 <= i < self.values@.len() ==> kind_of.requires((&#[trigger] self.values@[i].value,)),
        ensures
            r@.len() == self.values@.len(),
            forall|i: int|
                0 <= i < self.values@.len() ==> planned_write(
                    kind_of,
                    self.values@[i],
                    #[trigger] r@[i],
                ),
    {
        let n = self.values.len();
        let mut plan: Vec<ApplyAction> = Vec::new();
        let ghost mut kinds: Seq<ValueKind> = Seq::empty();
        let mut i: usize = 0;
        while i < n
            invariant
                n == self.values@.len(),
                i <= n,
                plan@.len() == i,
                kinds.len() == i,
                forall|k: int| 0 <= k < n ==> kind_of.requires((&#[trigger] self.values@[k].value,)),
                forall|k: int|
                    0 <= k < i ==> kind_of.ensures((&self.values@[k].value,), kinds[k]) && #[trigger] plan@[k]
                        == action_for(self.values@[k].binding, kinds[k]),
            decreases n - i,
        {
            let kind = kind_of(&self.values[i].value);
            let action = apply_action(&self.values[i].binding, kind);
            plan.push(action);
            proof {
                kinds = kinds.push(kind);
            }
            i += 1;
        }
        assert forall|k: int| 0 <= k < n implies planned_write(kind_of, self.values@[k], #[trigger] plan@[k]) by {
            assert(plan@[k] == action_for(self.values@[k].binding, kinds[k]));
        }
        plan
    }

    /// A new collection that holds, in the order of `self`, an entry for each
    /// entry of `self` whose channel `other` also targets: its value is
    /// `interp` of that entry and the first counterpart in `other`. Channels
    /// that only one side targets are left out.
    pub fn interpolate<F: Fn(&V, &V) -> V>(&self, other: &BoundValueCollection<V>, interp: F) -> (r:
        BoundValueCollection<V>)
        requires
            forall|i: int, j: int|
                0 <= i < self.values@.len() && 0 <= j < other.values@.len()
                    ==> interp.requires((&#[trigger] self.values@[i].value, &#[trigger] other.values@[j].value)),
        ensures
            r.values@.len() == shared_indices(self.values@, other.values@).len(),
            forall|k: int|
                0 <= k < r.values@.len() ==> (#[trigger] r.values@[k]).binding
                    == self.values@[shared_indices(self.values@, other.values@)[k]].binding,
            forall|k: int, j: int|
                0 <= k < r.values@.len() && #[trigger] is_first_match(
                    other.values@,
                    self.values@[shared_indices(self.values@, other.values@)[k]].binding,
                    j,
                ) ==> interp.ensures(
                    (&self.values@[shared_indices(self.values@, other.values@)[k]].value, &other.values@[j].value),
                    r.values@[k].value,
                ),
            forall|x: ValueBinding|
                #[trigger] has_binding(r.values@, x) <==> has_binding(self.values@, x) && has_binding(
                    other.values@,
                    x,
                ),
    {
        let ghost a = self.values@;
        let ghost b = other.values@;
        let n = self.values.len();
        let mut values: Vec<BoundValue<V>> = Vec::new();
        let mut i: usize = 0;
        while i < n
            invariant
                n == a.len(),
                a == self.values@,
                b == other.values@,
                i <= n,
                forall|i2: int, j: int|
                    0 <= i2 < n && 0 <= j < b.len() ==> interp.requires((&#[trigger] a[i2].value, &#[trigger] b[j].value)),
                values@.len() == shared_indices(a.take(i as int), b).len(),
                forall|k: int|
                    0 <= k < values@.len() ==> (#[trigger] values@[k]).binding == a[shared_indices(a.take(i as int), b)[k]].binding,
                forall|k: int, j: int|
                    0 <= k < values@.len() && #[trigger] is_first_match(b, a[shared_indices(a.take(i as int), b)[k]].binding, j)
                        ==> interp.ensures((&a[shared_indices(a.take(i as int), b)[k]].value, &b[j].value), values@[k].value),
            decreases n - i,
        {
            proof {
                assert(a.take(i + 1).drop_last() =~= a.take(i as int));
                assert(a.take(i + 1).last() == a[i as int]);
                lemma_shared_indices(a.take(i as int), b);
            }
            match other.position_of(&self.values[i].binding) {
                Some(j) => {
                    let v = interp(&self.values[i].value, &other.values[j].value);
                    let bnd = self.values[i].binding.clone();
                    values.push(BoundValue { binding: bnd, value: v });
                    proof {
                        assert(has_binding(b, a[i as int].binding)) by {
                            assert(same_binding(b[j as int].binding, a[i as int].binding));
                        }
                        assert forall|j2: int| is_first_match(b, a[i as int].binding, j2) implies j2 == j by {
                            if j2 < j {
                                assert(!same_binding(b[j2].binding, a[i as int].binding));
                            } else if j < j2 {
                                assert(!same_binding(b[j as int].binding, a[i as int].binding));
                            }
                        }
                    }
                },
                None => {},
            }
            i += 1;
        }
        proof {
            assert(a.take(n as int) =~= a);
            lemma_shared_indices(a, b);
            let idx = shared_indices(a, b);
            assert forall|x: ValueBinding|
                #[trigger] has_binding(values@, x) <==> has_binding(a, x) && has_binding(b, x) by {
                if has_binding(values@, x) {
                    let k = choose|k: int| 0 <= k < values@.len() && #[trigger] same_binding(values@[k].binding, x);
                    let ia = idx[k];
                    assert(same_binding(a[ia].binding, x));
                    assert(has_binding(b, a[ia].binding));
                    let jb = choose|j: int| 0 <= j < b.len() && #[trigger] same_binding(b[j].binding, a[ia].binding);
                    assert(same_binding(b[jb].binding, x));
                }
                if has_binding(a, x) && has_binding(b, x) {
                    let ia = choose|i: int| 0 <= i < a.len() && #[trigger] same_binding(a[i].binding, x);
                    let jb = choose|j: int| 0 <= j < b.len() && #[trigger] same_binding(b[j].binding, x);
                    assert(same_binding(b[jb].binding, a[ia].binding));
                    assert(has_binding(b, a[ia].binding));
                    let k = choose|k: int| 0 <= k < idx.len() && #[trigger] idx[k] == ia;
                    assert(same_binding(values@[k].binding, x));
                }
            }
        }
        BoundValueCollection { values }
    }
}

} // verus!
