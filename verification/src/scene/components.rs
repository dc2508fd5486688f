//! The components an entity may carry.

use crate::asset::metadata::{AssetPrimitive, AssetTransform};
use crate::fixed::Fixed;
use crate::linear::Vec2;
use crate::physics::RigidBodyHandle;
use crate::render::{Color, SpriteDrawCall, WorldSpaceRectDrawCall};
use vstd::prelude::*;

verus! {

/// The opacity of a shadow: 0.15.
pub const SHADOW_ALPHA_RAW: i64 = 644245094;

#[derive(Clone, Copy, Debug, PartialEq, Eq, Structural)]
pub struct SpriteDrawCallComponent {
    pub draw_call: SpriteDrawCall,
}

/// Where the object stands in the world, and its uniform scale.
#[derive(Clone, Copy, Debug, PartialEq, Eq, Structural)]
pub struct RootTransformComponent {
    pub position: Vec2,
    pub scale: Fixed,
}

#[derive(Clone, Copy, Debug, PartialEq, Eq, Structural)]
pub struct AssetTransformComponent {
    pub transform: AssetTransform,
}

/// The static bodies of a prop, one for each of its colliders.
#[derive(Clone, Debug)]
pub struct PhysicsBodyCollectionComponent {
    pub handles: Vec<RigidBodyHandle>,
}

/// The velocity that the last input asked for, in world space.
#[derive(Clone, Copy, Debug, PartialEq, Eq, Structural)]
pub struct CharacterVelocityComponent {
    pub velocity: Vec2,
}

#[derive(Clone, Copy, Debug, PartialEq, Eq, Structural)]
pub struct CharacterTransformComponent {
    pub offset: Vec2,
    pub front_point: Vec2,
}

#[derive(Clone, Copy, Debug, PartialEq, Eq, Structural)]
pub struct PhysicsBodyComponent {
    pub handle: RigidBodyHandle,
}

/// The shadows of an object: the primitives they come from, and the
/// rectangles derived from them for the object's current place.
#[derive(Clone, Debug)]
pub struct SceneObjectShadowComponent {
    pub primitives: Vec<AssetPrimitive>,
    pub draw_calls: Vec<WorldSpaceRectDrawCall>,
}

/// A shadow component as a pair of sequences.
pub struct ShadowView {
    pub primitives: Seq<AssetPrimitive>,
    pub draw_calls: Seq<WorldSpaceRectDrawCall>,
}

impl View for SceneObjectShadowComponent {
    type V = ShadowView;

    open spec fn view(&self) -> ShadowView {
        ShadowView { primitives: self.primitives@, draw_calls: self.draw_calls@ }
    }
}

impl View for PhysicsBodyCollectionComponent {
    type V = Seq<RigidBodyHandle>;

    open spec fn view(&self) -> Seq<RigidBodyHandle> {
        self.handles@
    }
}

/// The colour of every shadow: black at 0.15 opacity.
pub open spec fn spec_shadow_color() -> Color {
    Color {
        r: Fixed { raw: 0 },
        g: Fixed { raw: 0 },
        b: Fixed { raw: 0 },
        a: Fixed { raw: SHADOW_ALPHA_RAW },
    }
}

/// The rectangle that a shadow primitive casts for an object at
/// `object_position`: the primitive's offset and size, both scaled, the
/// offset taken from the object's position.
pub open spec fn spec_shadow_rect(
    primitive: AssetPrimitive,
    object_position: Vec2,
    scale: Fixed,
) -> WorldSpaceRectDrawCall {
    WorldSpaceRectDrawCall {
        origin: object_position.spec_plus(primitive.shape.position.spec_vec2().spec_scale(scale)),
        extent: primitive.shape.scale.spec_vec2().spec_scale(scale),
        color: spec_shadow_color(),
    }
}

/// One rectangle for each primitive, in their order.
pub open spec fn spec_shadow_draw_calls(
    primitives: Seq<AssetPrimitive>,
    object_position: Vec2,
    scale: Fixed,
) -> Seq<WorldSpaceRectDrawCall> {
    Seq::new(primitives.len(), |i: int| spec_shadow_rect(primitives[i], object_position, scale))
}

impl SceneObjectShadowComponent {
    /// Derives the rectangles anew from the primitives. To be called
    /// whenever the object's transform has changed.
    pub fn update_draw_calls(&mut self, object_position: Vec2, scale: Fixed)
        ensures
            final(self)@.primitives == old(self)@.primitives,
            final(self)@.draw_calls == spec_shadow_draw_calls(
                old(self)@.primitives,
                object_position,
                scale,
            ),
    {
        self.draw_calls.clear();
        let n: usize = self.primitives.len();
        let mut i: usize = 0;
        while i < n
            invariant
                n == self.primitives@.len(),
                self.primitives@ == old(self).primitives@,
                i <= n,
                self.draw_calls@.len() == i,
                forall|k: int|
                    0 <= k < i ==> self.draw_calls@[k] == spec_shadow_rect(
                        self.primitives@[k],
                        object_position,
                        scale,
                    ),
            decreases n - i,
        {
            let primitive = self.primitives[i];
            let extent: Vec2 = primitive.shape.scale.vec2().scale(scale);
            let offset: Vec2 = primitive.shape.position.vec2().scale(scale);
            let origin = object_position.plus(offset);
            let color = Color {
                r: Fixed::zero(),
                g: Fixed::zero(),
                b: Fixed::zero(),
                a: Fixed::from_raw(SHADOW_ALPHA_RAW),
            };
            self.draw_calls.push(WorldSpaceRectDrawCall { origin, extent, color });
            i += 1;
        }
        proof {
            assert(self.draw_calls@ =~= spec_shadow_draw_calls(
                old(self)@.primitives,
                object_position,
                scale,
            ));
        }
    }
}

} // verus!
