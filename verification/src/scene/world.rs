//! The entity table: each entity is a fixed set of optional component slots.

use crate::physics::RigidBodyHandle;
use crate::scene::components::{
    AssetTransformComponent, CharacterTransformComponent, CharacterVelocityComponent,
    PhysicsBodyCollectionComponent, PhysicsBodyComponent, RootTransformComponent,
    SceneObjectShadowComponent, ShadowView, SpriteDrawCallComponent,
};
use vstd::prelude::*;

verus! {

/// Names an entity of a `World`: its position in the order of spawning.
#[derive(Clone, Copy, Debug, PartialEq, Eq, Structural)]
pub struct Entity {
    pub index: usize,
}

/// The components of one entity.
#[derive(Clone, Debug)]
pub struct SceneEntity {
    pub root_transform: Option<RootTransformComponent>,
    pub asset_transform: Option<AssetTransformComponent>,
    pub character_transform: Option<CharacterTransformComponent>,
    pub character_velocity: Option<CharacterVelocityComponent>,
    pub sprite: Option<SpriteDrawCallComponent>,
    pub shadow: Option<SceneObjectShadowComponent>,
    pub physics_body: Option<PhysicsBodyComponent>,
    pub physics_bodies: Option<PhysicsBodyCollectionComponent>,
}

/// An entity with its lists as sequences.
pub struct SceneEntityView {
    pub root_transform: Option<RootTransformComponent>,
    pub asset_transform: Option<AssetTransformComponent>,
    pub character_transform: Option<CharacterTransformComponent>,
    pub character_velocity: Option<CharacterVelocityComponent>,
    pub sprite: Option<SpriteDrawCallComponent>,
    pub shadow: Option<ShadowView>,
    pub physics_body: Option<PhysicsBodyComponent>,
    pub physics_bodies: Option<Seq<RigidBodyHandle>>,
}

impl View for SceneEntity {
    type V = SceneEntityView;

    open spec fn view(&self) -> SceneEntityView {
        SceneEntityView {
            root_transform: self.root_transform,
            asset_transform: self.asset_transform,
            character_transform: self.character_transform,
            character_velocity: self.character_velocity,
            sprite: self.sprite,
            shadow: match self.shadow {
                Some(shadow) => Some(shadow@),
                None => None,
            },
            physics_body: self.physics_body,
            physics_bodies: match self.physics_bodies {
                Some(bodies) => Some(bodies@),
                None => None,
            },
        }
    }
}

impl SceneEntityView {
    /// The entity without any component.
    pub open spec fn empty() -> SceneEntityView {
        SceneEntityView {
            root_transform: None,
            asset_transform: None,
            character_transform: None,
            character_velocity: None,
            sprite: None,
            shadow: None,
            physics_body: None,
            physics_bodies: None,
        }
    }

    /// Every body handle of the entity is below `bodies`.
    pub open spec fn handles_below(self, bodies: int) -> bool {
        &&& self.physics_body is Some ==> self.physics_body->0.handle.index < bodies
        &&& self.physics_bodies is Some ==> forall|k: int|
            0 <= k < self.physics_bodies->0.len() ==> (#[trigger] self.physics_bodies->0[k]).index
                < bodies
    }
}

impl SceneEntity {
    pub fn new() -> (r: SceneEntity)
        ensures
            r@ == SceneEntityView::empty(),
    {
        SceneEntity {
            root_transform: None,
            asset_transform: None,
            character_transform: None,
            character_velocity: None,
            sprite: None,
            shadow: None,
            physics_body: None,
            physics_bodies: None,
        }
    }
}

/// The entities of a scene, in the order in which they were spawned.
pub struct World {
    pub entities: Vec<SceneEntity>,
}

impl View for World {
    type V = Seq<SceneEntityView>;

    open spec fn view(&self) -> Seq<SceneEntityView> {
        self.entities@.map_values(|e: SceneEntity| e@)
    }
}

impl World {
    /// Whether `entity` names an entity of this world.
    pub open spec fn contains(&self, entity: Entity) -> bool {
        entity.index < self@.len()
    }

    pub fn new() -> (r: World)
        ensures
            r@ == Seq::<SceneEntityView>::empty(),
    {
        let r = World { entities: Vec::new() };
        proof {
            assert(r@ =~= Seq::<SceneEntityView>::empty());
        }
        r
    }

    /// The number of entities.
    pub fn len(&self) -> (n: usize)
        ensures
            n == self@.len(),
    {
        self.entities.len()
    }

    /// Adds an entity behind those that the world holds.
    pub fn spawn(&mut self, entity: SceneEntity) -> (id: Entity)
        ensures
            id.index == old(self)@.len(),
            final(self)@ == old(self)@.push(entity@),
    {
        let index: usize = self.entities.len();
        self.entities.push(entity);
        proof {
            assert(self@ =~= old(self)@.push(entity@));
        }
        Entity { index }
    }

    /// The entity that `entity` names.
    pub fn get(&self, entity: Entity) -> (r: &SceneEntity)
        requires
            self.contains(entity),
        ensures
            r@ == self@[entity.index as int],
    {
        &self.entities[entity.index]
    }
}

} // verus!
