//! The scene's side of the physics adapter.
//!
//! The simulation runs in an engine that the caller owns. `PhysicsWorld`
//! keeps what the scene has asked of it: the box bodies in the order in which
//! they were created, the velocity last set on each, and the translation the
//! engine last reported. A handle is the position of a body in that order,
//! so the caller can replay the bodies into the engine one for one.

use crate::fixed::Fixed;
use crate::linear::{Vec2, Vec3};
use vstd::prelude::*;

verus! {

/// Whether a body is moved by the simulation.
#[derive(Clone, Copy, Debug, PartialEq, Eq, Structural)]
pub enum RigidBodyType {
    Dynamic,
    Static,
}

/// Names a body of a `PhysicsWorld`.
#[derive(Clone, Copy, Debug, PartialEq, Eq, Structural)]
pub struct RigidBodyHandle {
    pub index: usize,
}

/// A box body with locked rotation.
#[derive(Clone, Copy, Debug, PartialEq, Eq, Structural)]
pub struct RigidBody {
    pub body_type: RigidBodyType,
    /// The centre of the box.
    pub translation: Vec3,
    pub half_extent: Vec3,
    pub linvel: Vec3,
}

impl RigidBody {
    /// The body as the simulation leaves it when it reports `simulated` as
    /// its translation: a static body stays where it is.
    pub open spec fn spec_moved(self, simulated: Vec3) -> RigidBody {
        match self.body_type {
            RigidBodyType::Dynamic => RigidBody { translation: simulated, ..self },
            RigidBodyType::Static => self,
        }
    }
}

pub struct PhysicsWorld {
    bodies: Vec<RigidBody>,
    dt: Fixed,
}

/// A vector of the plane, embedded in space with a zero third component.
pub open spec fn spec_planar(v: Vec2) -> Vec3 {
    Vec3 { x: v.x, y: v.y, z: Fixed { raw: 0 } }
}

/// The bodies after a step whose outcome is `simulated`, one translation per
/// body in the order of the handles: body `i` moves as `simulated[i]` says;
/// a body without a translation stays where it is.
pub open spec fn spec_step(bodies: Seq<RigidBody>, simulated: Seq<Vec3>) -> Seq<RigidBody> {
    Seq::new(
        bodies.len(),
        |i: int|
            if i < simulated.len() {
                bodies[i].spec_moved(simulated[i])
            } else {
                bodies[i]
            },
    )
}

impl View for PhysicsWorld {
    type V = Seq<RigidBody>;

    closed spec fn view(&self) -> Seq<RigidBody> {
        self.bodies@
    }
}

impl PhysicsWorld {
    /// The time step of the last simulation step, zero before the first.
    pub closed spec fn spec_dt(&self) -> Fixed {
        self.dt
    }

    /// Whether `handle` names a body of this world.
    pub open spec fn contains(&self, handle: RigidBodyHandle) -> bool {
        handle.index < self@.len()
    }

    /// A world holds no more bodies than handles can name.
    pub proof fn lemma_handles_suffice(&self)
        ensures
            self@.len() <= usize::MAX,
    {
        assert(self.bodies.len() == self.bodies@.len());
    }

    pub fn new() -> (r: Self)
        ensures
            r@ == Seq::<RigidBody>::empty(),
            r.spec_dt()@ == 0,
    {
        PhysicsWorld { bodies: Vec::new(), dt: Fixed::zero() }
    }

    /// The number of bodies.
    pub fn len(&self) -> (n: usize)
        ensures
            n == self@.len(),
    {
        self.bodies.len()
    }

    /// The body that `handle` names.
    pub fn body(&self, handle: RigidBodyHandle) -> (r: RigidBody)
        requires
            self.contains(handle),
        ensures
            r == self@[handle.index as int],
    {
        self.bodies[handle.index]
    }

    /// The time step of the last simulation step.
    pub fn dt(&self) -> (r: Fixed)
        ensures
            r == self.spec_dt(),
    {
        self.dt
    }

    /// The gravity of every step: none.
    pub fn gravity() -> (r: Vec3)
        ensures
            r == (Vec3 { x: Fixed { raw: 0 }, y: Fixed { raw: 0 }, z: Fixed { raw: 0 } }),
    {
        Vec3 { x: Fixed::zero(), y: Fixed::zero(), z: Fixed::zero() }
    }

    /// Records a simulation step of `dt` seconds whose outcome is
    /// `simulated`, the translation of each body in the order of the handles.
    pub fn step(&mut self, dt: Fixed, simulated: &Vec<Vec3>)
        ensures
            final(self)@ == spec_step(old(self)@, simulated@),
            final(self).spec_dt() == dt,
    {
        self.dt = dt;
        let n: usize = self.bodies.len();
        let mut i: usize = 0;
        while i < n
            invariant
                n == self.bodies@.len(),
                n == old(self).bodies@.len(),
                i <= n,
                self.dt == dt,
                forall|k: int| 0 <= k < i ==> self.bodies@[k] == spec_step(old(self)@, simulated@)[k],
                forall|k: int| i <= k < n ==> self.bodies@[k] == old(self).bodies@[k],
            decreases n - i,
        {
            if i < simulated.len() {
                let body = self.bodies[i];
                match body.body_type {
                    RigidBodyType::Dynamic => {
                        self.bodies.set(i, RigidBody { translation: simulated[i], ..body });
                    },
                    RigidBodyType::Static => {},
                }
            }
            i += 1;
        }
        proof {
            assert(self.bodies@ =~= spec_step(old(self)@, simulated@));
        }
    }

    /// Adds a box body centred at `origin`, at rest, with its rotation locked.
    pub fn create_body_cuboid(
        &mut self,
        body_type: RigidBodyType,
        origin: Vec3,
        half_extent: Vec3,
    ) -> (handle: RigidBodyHandle)
        ensures
            handle.index == old(self)@.len(),
            final(self)@ == old(self)@.push(
                RigidBody {
                    body_type,
                    translation: origin,
                    half_extent,
                    linvel: spec_planar(Vec2::spec_zero()),
                },
            ),
            final(self).spec_dt() == old(self).spec_dt(),
    {
        let index: usize = self.bodies.len();
        self.bodies.push(
            RigidBody {
                body_type,
                translation: origin,
                half_extent,
                linvel: Vec3 { x: Fixed::zero(), y: Fixed::zero(), z: Fixed::zero() },
            },
        );
        RigidBodyHandle { index }
    }

    pub fn set_body_linear_velocity(&mut self, handle: RigidBodyHandle, vel: Vec3)
        requires
            old(self).contains(handle),
        ensures
            final(self)@ == old(self)@.update(
                handle.index as int,
                RigidBody { linvel: vel, ..old(self)@[handle.index as int] },
            ),
            final(self).spec_dt() == old(self).spec_dt(),
    {
        let body = self.bodies[handle.index];
        self.bodies.set(handle.index, RigidBody { linvel: vel, ..body });
    }

    /// Sets the velocity within the plane; the velocity out of the plane is
    /// zero.
    #[inline]
    pub fn set_body_linear_velocity_2d(&mut self, handle: RigidBodyHandle, vel: Vec2)
        requires
            old(self).contains(handle),
        ensures
            final(self)@ == old(self)@.update(
                handle.index as int,
                RigidBody { linvel: spec_planar(vel), ..old(self)@[handle.index as int] },
            ),
            final(self).spec_dt() == old(self).spec_dt(),
    {
        self.set_body_linear_velocity(handle, Vec3 { x: vel.x, y: vel.y, z: Fixed::zero() });
    }

    pub fn get_body_translation(&self, handle: RigidBodyHandle) -> (r: Vec3)
        requires
            self.contains(handle),
        ensures
            r == self@[handle.index as int].translation,
    {
        self.bodies[handle.index].translation
    }

    /// The translation projected to the plane.
    #[inline]
    pub fn get_body_translation_2d(&self, handle: RigidBodyHandle) -> (r: Vec2)
        requires
            self.contains(handle),
        ensures
            r == (Vec2 {
                x: self@[handle.index as int].translation.x,
                y: self@[handle.index as int].translation.y,
            }),
    {
        let translation = self.get_body_translation(handle);
        Vec2 { x: translation.x, y: translation.y }
    }
}

} // verus!
