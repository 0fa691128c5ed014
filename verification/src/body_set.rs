use vstd::prelude::*;
use crate::vec3::{force_val, triple_add, triple_bounded, vec3_in_bounds, Force, Vec3};

verus! {

/// An opaque reference to a rigid body held in a `BodySet`. A reference
/// may outlive its body; every consumer skips references that no longer
/// resolve.
#[derive(Clone, Copy, PartialEq, Eq, Structural, Debug)]
pub struct BodyHandle(pub usize);

/// One rigid body as the force layer sees it: its center of mass and
/// the force accumulated for the current step.
#[derive(Clone, Copy, PartialEq, Eq, Structural, Debug)]
pub struct Body {
    pub position: Vec3,
    pub force: Force,
}

/// The bodies, indexed by handle; a destroyed body leaves a `None` slot
/// behind so that the remaining handles stay valid.
pub struct BodySet {
    slots: Vec<Option<Body>>,
}

impl View for BodySet {
    type V = Seq<Option<Body>>;

    closed spec fn view(&self) -> Seq<Option<Body>> {
        self.slots@
    }
}

impl BodySet {
    /// `h` resolves to a live body.
    pub open spec fn valid_spec(&self, h: BodyHandle) -> bool {
        h.0 < self@.len() && self@[h.0 as int] is Some
    }

    /// The live body behind `h`.
    pub open spec fn body_spec(&self, h: BodyHandle) -> Body
        recommends
            self.valid_spec(h),
    {
        self@[h.0 as int].unwrap()
    }

    /// Every live body's position lies within the admitted world volume.
    pub open spec fn wf(&self) -> bool {
        forall|i: int|
            0 <= i < self@.len() && self@[i] is Some ==> vec3_in_bounds(
                (#[trigger] self@[i]).unwrap().position,
            )
    }

    /// Every live body's accumulated force is within `b` on each
    /// coordinate.
    pub open spec fn forces_bounded(&self, b: int) -> bool {
        forall|i: int|
            0 <= i < self@.len() && self@[i] is Some ==> triple_bounded(
                force_val((#[trigger] self@[i]).unwrap().force),
                b,
            )
    }

    /// An empty body set.
    pub fn new() -> (s: BodySet)
        ensures
            s@ =~= Seq::<Option<Body>>::empty(),
            s.wf(),
    {
        BodySet { slots: Vec::new() }
    }

    pub fn len(&self) -> (n: usize)
        ensures
            n == self@.len(),
    {
        self.slots.len()
    }

    /// Adds a body at `position` with no accumulated force; the returned
    /// handle resolves to it.
    pub fn insert(&mut self, position: Vec3) -> (h: BodyHandle)
        requires
            vec3_in_bounds(position),
        ensures
            final(self)@ =~= old(self)@.push(
                Some(Body { position, force: Force { x: 0, y: 0, z: 0 } }),
            ),
            h.0 == old(self)@.len(),
            final(self).valid_spec(h),
            old(self).wf() ==> final(self).wf(),
    {
        let h = BodyHandle(self.slots.len());
        self.slots.push(Some(Body { position, force: Force { x: 0, y: 0, z: 0 } }));
        h
    }

    /// Destroys the body behind `h`, if any: its slot is emptied and
    /// every other slot is untouched. A handle that does not resolve is
    /// ignored.
    pub fn remove(&mut self, h: BodyHandle)
        ensures
            final(self)@.len() == old(self)@.len(),
            h.0 < old(self)@.len() ==> final(self)@[h.0 as int] is None,
            forall|i: int|
                0 <= i < old(self)@.len() && i != h.0 ==> final(self)@[i] == old(self)@[i],
            old(self).wf() ==> final(self).wf(),
    {
        if h.0 < self.slots.len() {
            self.slots[h.0] = None;
        }
    }

    /// Whether `h` still resolves to a live body.
    pub fn valid(&self, h: BodyHandle) -> (r: bool)
        ensures
            r == self.valid_spec(h),
    {
        h.0 < self.slots.len() && self.slots[h.0].is_some()
    }

    /// The position (center of mass) of the live body behind `h`.
    pub fn position(&self, h: BodyHandle) -> (p: Vec3)
        requires
            self.valid_spec(h),
        ensures
            p == self.body_spec(h).position,
    {
        self.slots[h.0].as_ref().unwrap().position
    }

    /// The force accumulated so far on the live body behind `h`.
    pub fn force_of(&self, h: BodyHandle) -> (f: Force)
        requires
            self.valid_spec(h),
        ensures
            f == self.body_spec(h).force,
    {
        self.slots[h.0].as_ref().unwrap().force
    }

    /// Adds `f` to the force accumulator of the live body behind `h`;
    /// the body's position and every other slot are untouched.
    pub fn apply_force(&mut self, h: BodyHandle, f: &Force)
        requires
            old(self).valid_spec(h),
            i128::MIN <= old(self).body_spec(h).force.x + f.x <= i128::MAX,
            i128::MIN <= old(self).body_spec(h).force.y + f.y <= i128::MAX,
            i128::MIN <= old(self).body_spec(h).force.z + f.z <= i128::MAX,
        ensures
            final(self)@.len() == old(self)@.len(),
            final(self)@[h.0 as int] is Some,
            final(self).body_spec(h).position == old(self).body_spec(h).position,
            force_val(final(self).body_spec(h).force) == triple_add(
                force_val(old(self).body_spec(h).force),
                force_val(*f),
            ),
            forall|i: int|
                0 <= i < old(self)@.len() && i != h.0 ==> final(self)@[i] == old(self)@[i],
            old(self).wf() ==> final(self).wf(),
    {
        let b: Body = *self.slots[h.0].as_ref().unwrap();
        let updated = Body {
            position: b.position,
            force: Force { x: b.force.x + f.x, y: b.force.y + f.y, z: b.force.z + f.z },
        };
        self.slots[h.0] = Some(updated);
    }

    /// Empties every live body's force accumulator, as an engine does
    /// after integrating a step; positions and liveness are untouched.
    pub fn clear_forces(&mut self)
        ensures
            final(self)@.len() == old(self)@.len(),
            forall|i: int|
                0 <= i < old(self)@.len() ==> (final(self)@[i] is Some <==> old(self)@[i]
                    is Some),
            forall|i: int|
                0 <= i < old(self)@.len() && old(self)@[i] is Some ==> (#[trigger] final(self)@[i]).unwrap() == (Body {
                    position: old(self)@[i].unwrap().position,
                    force: Force { x: 0, y: 0, z: 0 },
                }),
            old(self).wf() ==> final(self).wf(),
    {
        let n = self.slots.len();
        let mut i: usize = 0;
        while i < n
            invariant
                n == self.slots@.len(),
                i <= n,
                self.slots@.len() == old(self)@.len(),
                forall|j: int| i <= j < n ==> self.slots@[j] == old(self)@[j],
                forall|j: int|
                    0 <= j < i ==> (self.slots@[j] is Some <==> old(self)@[j] is Some),
                forall|j: int|
                    0 <= j < i && old(self)@[j] is Some ==> (#[trigger] self.slots@[j]).unwrap()
                        == (Body {
                        position: old(self)@[j].unwrap().position,
                        force: Force { x: 0, y: 0, z: 0 },
                    }),
            decreases n - i,
        {
            if self.slots[i].is_some() {
                let b: Body = *self.slots[i].as_ref().unwrap();
                self.slots[i] = Some(
                    Body { position: b.position, force: Force { x: 0, y: 0, z: 0 } },
                );
            }
            i = i + 1;
        }
    }
}

} // verus!
