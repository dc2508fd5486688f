//! Composing a scene: what an entity is given when it is spawned, and how
//! its draw calls follow from its transform.

pub mod components;
pub mod scene;
pub mod world;

use crate::asset::metadata::{
    lemma_primitives_of_type, primitives_of_type, AssetError, AssetImageData, AssetImageEntry,
    AssetOrientation, AssetPrimitive, AssetPrimitiveType,
};
use crate::asset::Asset;
use crate::fixed::Fixed;
use crate::linear::{Vec2, Vec3};
use crate::physics::{spec_planar, PhysicsWorld, RigidBody, RigidBodyHandle, RigidBodyType};
use crate::render::resource::TextureResource;
use crate::render::{get_texture_size, screen_position, spec_screen_position, SpriteDrawCall};
use crate::scene::components::{
    spec_shadow_draw_calls, AssetTransformComponent, CharacterTransformComponent,
    CharacterVelocityComponent, PhysicsBodyCollectionComponent, PhysicsBodyComponent,
    RootTransformComponent, SceneObjectShadowComponent, ShadowView, SpriteDrawCallComponent,
};
use crate::scene::world::{Entity, SceneEntity, SceneEntityView, World};
use vstd::prelude::*;

verus! {

/// The native size of the draw call's texture, zero when it has none.
pub open spec fn spec_native_size(draw_call: SpriteDrawCall) -> Vec2 {
    match draw_call.texture {
        Some(texture) => texture.size,
        None => Vec2::spec_zero(),
    }
}

/// The draw call of a sprite whose root stands at `root_position`:
/// - its extent is the texture's native size times `scale`;
/// - its origin is the screen position of the root, less half the extent,
///   less the scaled offset;
/// - its depth key is the sum of the two world coordinates of the front
///   point, `root_position + front_point * scale`.
/// Texture and flips stay as they are.
pub open spec fn spec_update_sprite_draw_call(
    draw_call: SpriteDrawCall,
    root_position: Vec2,
    scale: Fixed,
    offset: Vec2,
    front_point: Vec2,
) -> SpriteDrawCall {
    let extent = spec_native_size(draw_call).spec_scale(scale);
    let origin = spec_screen_position(root_position).spec_minus(extent.spec_half()).spec_minus(
        offset.spec_scale(scale),
    );
    let front = root_position.spec_plus(front_point.spec_scale(scale));
    SpriteDrawCall { origin, extent, order: front.x.spec_plus(front.y), ..draw_call }
}

pub fn update_sprite_draw_call(
    draw_call: &mut SpriteDrawCall,
    root_position: Vec2,
    scale: Fixed,
    offset: Vec2,
    front_point: Vec2,
)
    ensures
        *final(draw_call) == spec_update_sprite_draw_call(
            *old(draw_call),
            root_position,
            scale,
            offset,
            front_point,
        ),
{
    let size = match &draw_call.texture {
        Some(tex) => get_texture_size(tex),
        None => Vec2::zero(),
    };
    let extent = size.scale(scale);
    let offset = offset.scale(scale);

    let mut origin = screen_position(root_position);
    origin = origin.minus(extent.half());
    origin = origin.minus(offset);

    let front_point = root_position.plus(front_point.scale(scale));

    draw_call.origin = origin;
    draw_call.extent = extent;
    draw_call.order = front_point.x.plus(front_point.y);
}

/// An entity after the one-off pass over static geometry: an entity with a
/// root transform, an asset transform and a sprite has its draw call placed,
/// and one with a root transform and shadows has their rectangles derived.
pub open spec fn spec_init_entity(e: SceneEntityView) -> SceneEntityView {
    let sprite = if e.root_transform is Some && e.asset_transform is Some && e.sprite is Some {
        Some(
            SpriteDrawCallComponent {
                draw_call: spec_update_sprite_draw_call(
                    e.sprite->0.draw_call,
                    e.root_transform->0.position,
                    e.root_transform->0.scale,
                    e.asset_transform->0.transform.position.spec_vec2(),
                    e.asset_transform->0.transform.front_point.spec_vec2(),
                ),
            },
        )
    } else {
        e.sprite
    };
    let shadow = if e.root_transform is Some && e.shadow is Some {
        Some(
            ShadowView {
                primitives: e.shadow->0.primitives,
                draw_calls: spec_shadow_draw_calls(
                    e.shadow->0.primitives,
                    e.root_transform->0.position,
                    e.root_transform->0.scale,
                ),
            },
        )
    } else {
        e.shadow
    };
    SceneEntityView { sprite, shadow, ..e }
}

/// Every entity after the pass over static geometry.
pub open spec fn spec_init_static_scene_objects(world: Seq<SceneEntityView>) -> Seq<
    SceneEntityView,
> {
    world.map_values(|e: SceneEntityView| spec_init_entity(e))
}

/// The pass over static geometry changes nothing when it is run again.
pub proof fn lemma_init_idempotent(world: Seq<SceneEntityView>)
    ensures
        spec_init_static_scene_objects(spec_init_static_scene_objects(world))
            == spec_init_static_scene_objects(world),
{
    let once = spec_init_static_scene_objects(world);
    let twice = spec_init_static_scene_objects(once);
    assert forall|i: int| 0 <= i < world.len() implies twice[i] == once[i] by {
        let e = world[i];
        assert(spec_init_entity(spec_init_entity(e)) == spec_init_entity(e));
    }
    assert(twice =~= once);
}

fn init_entity(entity: &mut SceneEntity)
    ensures
        final(entity)@ == spec_init_entity(old(entity)@),
{
    match entity.root_transform {
        Some(root_transform) => {
            match (entity.asset_transform, entity.sprite) {
                (Some(asset), Some(dc)) => {
                    let mut draw_call = dc.draw_call;
                    update_sprite_draw_call(
                        &mut draw_call,
                        root_transform.position,
                        root_transform.scale,
                        asset.transform.position.vec2(),
                        asset.transform.front_point.vec2(),
                    );
                    entity.sprite = Some(SpriteDrawCallComponent { draw_call });
                },
                _ => {},
            }
            match &mut entity.shadow {
                Some(shadow) => {
                    shadow.update_draw_calls(root_transform.position, root_transform.scale);
                },
                None => {},
            }
        },
        None => {},
    }
}

/// The one-off pass over the scene after it has been populated: places the
/// draw call of every static sprite and derives every shadow's rectangles.
pub fn init_static_scene_objects(world: &mut World)
    ensures
        final(world)@ == spec_init_static_scene_objects(old(world)@),
{
    let n: usize = world.entities.len();
    let mut i: usize = 0;
    while i < n
        invariant
            n == world.entities@.len(),
            n == old(world).entities@.len(),
            i <= n,
            forall|k: int| 0 <= k < i ==> world.entities@[k]@ == spec_init_entity(old(world).entities@[k]@),
            forall|k: int| i <= k < n ==> world.entities@[k] == old(world).entities@[k],
        decreases n - i,
    {
        init_entity(&mut world.entities[i]);
        i += 1;
    }
    proof {
        assert(world@ =~= spec_init_static_scene_objects(old(world)@));
    }
}

/// The box of a collider of an object at `position`: the centre of the box
/// and its half-extent. Offset, size and height of the primitive are scaled;
/// the box stands on the ground with its corner at the scaled offset from
/// the object, so its centre lies half an extent further on each axis.
pub open spec fn spec_collider_box(
    primitive: AssetPrimitive,
    position: Vec2,
    scale: Fixed,
) -> (Vec3, Vec3)
    recommends
        primitive.height is Some,
{
    let origin = position.spec_plus(primitive.shape.position.spec_vec2().spec_scale(scale));
    let half_height = primitive.height->0.spec_times(scale).spec_half();
    let half = primitive.shape.scale.spec_vec2().spec_scale(scale).spec_half();
    (
        Vec3 { x: origin.x.spec_plus(half.x), y: origin.y.spec_plus(half.y), z: half_height },
        Vec3 { x: half.x, y: half.y, z: half_height },
    )
}

pub fn collider_box(primitive: &AssetPrimitive, position: Vec2, scale: Fixed) -> (r: (Vec3, Vec3))
    requires
        primitive.height is Some,
    ensures
        r == spec_collider_box(*primitive, position, scale),
{
    let primitive_offset = primitive.shape.position.vec2().scale(scale);
    let primitive_origin = position.plus(primitive_offset);
    let primitive_half_height = primitive.height.unwrap().times(scale).half();
    let primitive_half_extent_2d = primitive.shape.scale.vec2().scale(scale).half();

    let body_origin = Vec3 {
        x: primitive_origin.x.plus(primitive_half_extent_2d.x),
        y: primitive_origin.y.plus(primitive_half_extent_2d.y),
        z: primitive_half_height,
    };
    let collider_extent = Vec3 {
        x: primitive_half_extent_2d.x,
        y: primitive_half_extent_2d.y,
        z: primitive_half_height,
    };
    (body_origin, collider_extent)
}

/// The static body of a collider.
pub open spec fn spec_static_body(
    primitive: AssetPrimitive,
    position: Vec2,
    scale: Fixed,
) -> RigidBody {
    RigidBody {
        body_type: RigidBodyType::Static,
        translation: spec_collider_box(primitive, position, scale).0,
        half_extent: spec_collider_box(primitive, position, scale).1,
        linvel: spec_planar(Vec2::spec_zero()),
    }
}

/// One static body for each collider, in their order.
pub open spec fn spec_collider_bodies(
    colliders: Seq<AssetPrimitive>,
    position: Vec2,
    scale: Fixed,
) -> Seq<RigidBody> {
    Seq::new(colliders.len(), |k: int| spec_static_body(colliders[k], position, scale))
}

/// The handles of `count` bodies created one after the other in a world
/// that held `first` bodies.
pub open spec fn spec_handles(first: int, count: int) -> Seq<RigidBodyHandle> {
    Seq::new(count as nat, |k: int| RigidBodyHandle { index: (first + k) as usize })
}

/// The colliders of an image, in their order.
pub open spec fn spec_colliders(image: AssetImageData) -> Seq<AssetPrimitive> {
    primitives_of_type(image.primitives@, AssetPrimitiveType::Collider)
}

/// The entity that an image of a static object becomes: root transform,
/// asset transform, an unplaced draw call bound to the image's texture, the
/// image's shadows if it has any, with no rectangles yet, and the handles of
/// its collider bodies if it has colliders.
pub open spec fn spec_static_entity(
    image: AssetImageData,
    texture: TextureResource,
    position: Vec2,
    scale: Fixed,
    first_handle: int,
) -> SceneEntityView {
    SceneEntityView {
        root_transform: Some(RootTransformComponent { position, scale }),
        asset_transform: Some(AssetTransformComponent { transform: image.transform }),
        sprite: Some(
            SpriteDrawCallComponent { draw_call: SpriteDrawCall::spec_with_texture(texture) },
        ),
        shadow: match image.spec_get_primitives(AssetPrimitiveType::Shadow) {
            Some(primitives) => Some(ShadowView { primitives, draw_calls: Seq::empty() }),
            None => None,
        },
        physics_bodies: match image.spec_get_primitives(AssetPrimitiveType::Collider) {
            Some(primitives) => Some(spec_handles(first_handle, primitives.len() as int)),
            None => None,
        },
        ..SceneEntityView::empty()
    }
}

/// The bodies of all colliders of `images`, image by image.
pub open spec fn spec_static_bodies(
    images: Seq<AssetImageEntry>,
    position: Vec2,
    scale: Fixed,
) -> Seq<RigidBody>
    decreases images.len(),
{
    if images.len() == 0 {
        Seq::empty()
    } else {
        spec_static_bodies(images.drop_last(), position, scale) + spec_collider_bodies(
            spec_colliders(images.last().data),
            position,
            scale,
        )
    }
}

/// The entities of a static object, one for each image, in their order. The
/// bodies are created in the same order, the first of them as body
/// `first_handle`.
pub open spec fn spec_static_entities(
    asset: &Asset,
    images: Seq<AssetImageEntry>,
    position: Vec2,
    scale: Fixed,
    first_handle: int,
) -> Seq<SceneEntityView>
    decreases images.len(),
{
    if images.len() == 0 {
        Seq::empty()
    } else {
        let rest = images.drop_last();
        spec_static_entities(asset, rest, position, scale, first_handle).push(
            spec_static_entity(
                images.last().data,
                asset.spec_texture_resource(images.last().id@),
                position,
                scale,
                first_handle + spec_static_bodies(rest, position, scale).len(),
            ),
        )
    }
}

/// A static object has one entity for each image, and every handle that
/// they hold names a body that exists once the object has been spawned.
pub proof fn lemma_static_entities_handles(
    asset: &Asset,
    images: Seq<AssetImageEntry>,
    position: Vec2,
    scale: Fixed,
    first_handle: int,
)
    requires
        0 <= first_handle,
        first_handle + spec_static_bodies(images, position, scale).len() <= usize::MAX,
    ensures
        spec_static_entities(asset, images, position, scale, first_handle).len() == images.len(),
        forall|k: int|
            0 <= k < images.len() ==> (#[trigger] spec_static_entities(
                asset,
                images,
                position,
                scale,
                first_handle,
            )[k]).handles_below(first_handle + spec_static_bodies(images, position, scale).len()),
    decreases images.len(),
{
    if images.len() > 0 {
        lemma_static_entities_handles(asset, images.drop_last(), position, scale, first_handle);
    }
}

/// Whether the asset holds a texture for each of `images`.
pub open spec fn all_resolved(asset: &Asset, images: Seq<AssetImageEntry>) -> bool {
    forall|i: int| 0 <= i < images.len() ==> asset.has_resource((#[trigger] images[i]).id@)
}

/// The position of the first image that the asset holds no texture for, or
/// the number of images when it holds one for each.
pub open spec fn unresolved_index(asset: &Asset, images: Seq<AssetImageEntry>) -> int
    decreases images.len(),
{
    if images.len() == 0 {
        0
    } else if !asset.has_resource(images.first().id@) {
        0
    } else {
        1 + unresolved_index(asset, images.drop_first())
    }
}

/// `unresolved_index` is the position of an image without a texture, every
/// image before it has one, and it is the number of images exactly when
/// every image has one.
pub proof fn lemma_unresolved_index(asset: &Asset, images: Seq<AssetImageEntry>)
    ensures
        0 <= unresolved_index(asset, images) <= images.len(),
        forall|i: int|
            0 <= i < unresolved_index(asset, images) ==> asset.has_resource(
                (#[trigger] images[i]).id@,
            ),
        unresolved_index(asset, images) < images.len() ==> !asset.has_resource(
            images[unresolved_index(asset, images)].id@,
        ),
        (unresolved_index(asset, images) == images.len()) == all_resolved(asset, images),
    decreases images.len(),
{
    if images.len() > 0 && asset.has_resource(images.first().id@) {
        let rest = images.drop_first();
        lemma_unresolved_index(asset, rest);
        let k = unresolved_index(asset, rest);
        assert forall|i: int| 0 <= i < k + 1 implies asset.has_resource(
            (#[trigger] images[i]).id@,
        ) by {
            if i > 0 {
                assert(images[i] == rest[i - 1]);
            }
        }
        if k < rest.len() {
            assert(images[k + 1] == rest[k]);
        }
    }
}

/// Whether a static object can be spawned, and the error if it cannot:
/// the asset must have data for the orientation, and a texture for each
/// image of it; the first image without one is reported.
pub open spec fn spec_spawn_result(asset: &Asset, orientation: AssetOrientation) -> Result<
    (),
    AssetError,
> {
    if !asset.metadata.supports(orientation) {
        Err(AssetError::UnsupportedOrientation { asset: asset.metadata.name, orientation })
    } else {
        let images = asset.metadata.spec_orientation_data(orientation).images@;
        let k = unresolved_index(asset, images);
        if k < images.len() {
            Err(AssetError::MissingResource { name: images[k].id })
        } else {
            Ok(())
        }
    }
}

/// The texture of each image, or the error for the first image without one.
fn resolve_textures(asset: &Asset, images: &Vec<AssetImageEntry>) -> (r: Result<
    Vec<TextureResource>,
    AssetError,
>)
    ensures
        r is Ok == (unresolved_index(asset, images@) == images@.len()),
        r is Ok ==> {
            &&& r->Ok_0@.len() == images@.len()
            &&& forall|i: int|
                0 <= i < images@.len() ==> r->Ok_0@[i] == asset.spec_texture_resource(images@[i].id@)
        },
        r is Err ==> {
            &&& 0 <= unresolved_index(asset, images@) < images@.len()
            &&& r->Err_0 == (AssetError::MissingResource {
                name: images@[unresolved_index(asset, images@)].id,
            })
        },
{
    let mut textures: Vec<TextureResource> = Vec::new();
    let n: usize = images.len();
    let mut i: usize = 0;
    proof {
        assert(images@.skip(0) == images@);
    }
    while i < n
        invariant
            n == images@.len(),
            i <= n,
            textures@.len() == i,
            unresolved_index(asset, images@) == i + unresolved_index(asset, images@.skip(i as int)),
            forall|k: int|
                0 <= k < i ==> textures@[k] == asset.spec_texture_resource(images@[k].id@),
        decreases n - i,
    {
        proof {
            let rest = images@.skip(i as int);
            assert(rest.first() == images@[i as int]);
            assert(rest.drop_first() == images@.skip(i as int + 1));
        }
        match asset.get_texture_resource(&images[i].id) {
            Ok(texture) => {
                textures.push(texture);
            },
            Err(e) => {
                return Err(e);
            },
        }
        i += 1;
    }
    Ok(textures)
}

/// Creates the static bodies of `colliders` and hands back their handles.
fn create_collider_bodies(
    physics: &mut PhysicsWorld,
    colliders: &Vec<AssetPrimitive>,
    position: Vec2,
    scale: Fixed,
) -> (handles: Vec<RigidBodyHandle>)
    requires
        forall|k: int| 0 <= k < colliders@.len() ==> (#[trigger] colliders@[k]).height is Some,
    ensures
        final(physics)@ == old(physics)@ + spec_collider_bodies(colliders@, position, scale),
        final(physics).spec_dt() == old(physics).spec_dt(),
        handles@ == spec_handles(old(physics)@.len() as int, colliders@.len() as int),
{
    let mut handles: Vec<RigidBodyHandle> = Vec::new();
    let n: usize = colliders.len();
    let mut i: usize = 0;
    while i < n
        invariant
            n == colliders@.len(),
            i <= n,
            forall|k: int| 0 <= k < colliders@.len() ==> (#[trigger] colliders@[k]).height is Some,
            physics.spec_dt() == old(physics).spec_dt(),
            physics@.len() == old(physics)@.len() + i,
            forall|k: int| 0 <= k < old(physics)@.len() ==> physics@[k] == old(physics)@[k],
            forall|k: int|
                0 <= k < i ==> physics@[old(physics)@.len() + k] == spec_static_body(
                    colliders@[k],
                    position,
                    scale,
                ),
            handles@.len() == i,
            forall|k: int| 0 <= k < i ==> handles@[k].index == old(physics)@.len() + k,
        decreases n - i,
    {
        let (body_origin, collider_extent) = collider_box(&colliders[i], position, scale);
        let handle = physics.create_body_cuboid(RigidBodyType::Static, body_origin, collider_extent);
        handles.push(handle);
        i += 1;
    }
    proof {
        assert(physics@ =~= old(physics)@ + spec_collider_bodies(colliders@, position, scale));
        assert(handles@ =~= spec_handles(old(physics)@.len() as int, colliders@.len() as int));
    }
    handles
}

/// Spawns a static object: one entity for each image that the asset has for
/// `orientation`, each with a static body for each of its colliders.
///
/// Fails, and leaves world and physics as they were, when the asset has no
/// data for the orientation or no texture for one of the images.
pub fn spawn_static_scene_object(
    world: &mut World,
    physics: &mut PhysicsWorld,
    asset: &Asset,
    position: Vec2,
    scale: Fixed,
    orientation: AssetOrientation,
) -> (r: Result<(), AssetError>)
    requires
        asset.wf(),
    ensures
        r == spec_spawn_result(asset, orientation),
        final(physics).spec_dt() == old(physics).spec_dt(),
        r is Ok ==> {
            let images = asset.metadata.spec_orientation_data(orientation).images@;
            &&& final(world)@ == old(world)@ + spec_static_entities(
                asset,
                images,
                position,
                scale,
                old(physics)@.len() as int,
            )
            &&& final(physics)@ == old(physics)@ + spec_static_bodies(images, position, scale)
        },
        r is Err ==> final(world)@ == old(world)@ && final(physics)@ == old(physics)@,
{
    let orientation_data = match asset.metadata.get_orientation(orientation) {
        Ok(data) => data,
        Err(e) => {
            return Err(e);
        },
    };
    let textures = match resolve_textures(asset, &orientation_data.images) {
        Ok(textures) => textures,
        Err(e) => {
            return Err(e);
        },
    };
    let ghost images = orientation_data.images@;
    let ghost base = old(physics)@.len() as int;
    let n: usize = orientation_data.images.len();
    let mut i: usize = 0;
    proof {
        assert(images.take(0) == Seq::<AssetImageEntry>::empty());
        assert(world@ =~= old(world)@ + spec_static_entities(
            asset,
            images.take(0),
            position,
            scale,
            base,
        ));
        assert(physics@ =~= old(physics)@ + spec_static_bodies(images.take(0), position, scale));
    }
    while i < n
        invariant
            n == images.len(),
            images == orientation_data.images@,
            orientation_data.wf(),
            base == old(physics)@.len(),
            i <= n,
            textures@.len() == n,
            forall|k: int|
                0 <= k < n ==> textures@[k] == asset.spec_texture_resource(images[k].id@),
            physics.spec_dt() == old(physics).spec_dt(),
            world@ == old(world)@ + spec_static_entities(
                asset,
                images.take(i as int),
                position,
                scale,
                base,
            ),
            physics@ == old(physics)@ + spec_static_bodies(images.take(i as int), position, scale),
        decreases n - i,
    {
        let data = &orientation_data.images[i].data;
        let ghost before = images.take(i as int);
        let ghost next = images.take(i as int + 1);
        let ghost first = physics@.len() as int;
        proof {
            assert(next.drop_last() == before);
            assert(next.last() == images[i as int]);
            assert(data.wf());
        }
        let mut entity = SceneEntity::new();
        entity.root_transform = Some(RootTransformComponent { position, scale });
        entity.asset_transform = Some(AssetTransformComponent { transform: data.transform });
        entity.sprite = Some(
            SpriteDrawCallComponent { draw_call: SpriteDrawCall::with_texture(textures[i]) },
        );

        if let Some(primitives) = data.get_primitives(AssetPrimitiveType::Shadow) {
            entity.shadow = Some(SceneObjectShadowComponent { primitives, draw_calls: Vec::new() });
        }
        if let Some(primitives) = data.get_primitives(AssetPrimitiveType::Collider) {
            proof {
                lemma_primitives_of_type(data.primitives@, AssetPrimitiveType::Collider);
            }
            let handles = create_collider_bodies(physics, &primitives, position, scale);
            entity.physics_bodies = Some(PhysicsBodyCollectionComponent { handles });
        }
        proof {
            assert(physics@ =~= old(physics)@ + spec_static_bodies(next, position, scale));
            assert(first == base + spec_static_bodies(before, position, scale).len());
            assert(entity@ =~~= spec_static_entity(
                *data,
                textures@[i as int],
                position,
                scale,
                first,
            ));
        }
        world.spawn(entity);
        proof {
            assert(world@ =~= old(world)@ + spec_static_entities(
                asset,
                next,
                position,
                scale,
                base,
            ));
        }
        i += 1;
    }
    proof {
        assert(images.take(n as int) == images);
    }
    Ok(())
}

/// What a character is spawned with.
pub struct CharacterSpawnParams {
    pub offset: Vec2,
    pub front_point: Vec2,
    pub texture: TextureResource,
    pub position: Vec2,
    pub physics_body_origin: Vec3,
    pub physics_collider_half_extent: Vec3,
}

/// The dynamic body of a character: origin and half-extent of its box are
/// scaled, and the origin is taken from the character's position on the
/// ground.
pub open spec fn spec_character_body(params: CharacterSpawnParams, scale: Fixed) -> RigidBody {
    RigidBody {
        body_type: RigidBodyType::Dynamic,
        translation: params.physics_body_origin.spec_scale(scale).spec_plus(
            spec_planar(params.position),
        ),
        half_extent: params.physics_collider_half_extent.spec_scale(scale),
        linvel: spec_planar(Vec2::spec_zero()),
    }
}

/// The entity of a character: root transform, no velocity, its transform, an
/// unplaced draw call bound to its texture, and its one body.
pub open spec fn spec_character_entity(
    params: CharacterSpawnParams,
    scale: Fixed,
    handle: RigidBodyHandle,
) -> SceneEntityView {
    SceneEntityView {
        root_transform: Some(RootTransformComponent { position: params.position, scale }),
        character_velocity: Some(CharacterVelocityComponent { velocity: Vec2::spec_zero() }),
        character_transform: Some(
            CharacterTransformComponent { offset: params.offset, front_point: params.front_point },
        ),
        sprite: Some(
            SpriteDrawCallComponent {
                draw_call: SpriteDrawCall::spec_with_texture(params.texture),
            },
        ),
        physics_body: Some(PhysicsBodyComponent { handle }),
        ..SceneEntityView::empty()
    }
}

/// Spawns a character: one entity with one dynamic body.
pub fn spawn_character(
    world: &mut World,
    physics: &mut PhysicsWorld,
    scale: Fixed,
    params: CharacterSpawnParams,
) -> (entity: Entity)
    ensures
        entity.index == old(world)@.len(),
        final(world)@ == old(world)@.push(
            spec_character_entity(
                params,
                scale,
                RigidBodyHandle { index: old(physics)@.len() as usize },
            ),
        ),
        final(physics)@ == old(physics)@.push(spec_character_body(params, scale)),
        final(physics).spec_dt() == old(physics).spec_dt(),
{
    let mut builder = SceneEntity::new();

    builder.root_transform = Some(RootTransformComponent { position: params.position, scale });
    builder.character_velocity = Some(CharacterVelocityComponent { velocity: Vec2::zero() });
    builder.character_transform = Some(
        CharacterTransformComponent { offset: params.offset, front_point: params.front_point },
    );
    builder.sprite = Some(
        SpriteDrawCallComponent { draw_call: SpriteDrawCall::with_texture(params.texture) },
    );

    let physics_body_origin = params.physics_body_origin.scale(scale).plus(
        Vec3 { x: params.position.x, y: params.position.y, z: Fixed::zero() },
    );
    let physics_collider_half_extent = params.physics_collider_half_extent.scale(scale);

    builder.physics_body = Some(
        PhysicsBodyComponent {
            handle: physics.create_body_cuboid(
                RigidBodyType::Dynamic,
                physics_body_origin,
                physics_collider_half_extent,
            ),
        },
    );

    world.spawn(builder)
}

} // verus!
