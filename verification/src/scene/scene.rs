//! The scene: entity table and physics bookkeeping under one roof, with the
//! operations of a frame.

use crate::asset::metadata::{AssetError, AssetOrientation};
use crate::asset::Asset;
use crate::fixed::{lemma_times_odd, Fixed};
use crate::linear::{Vec2, Vec3};
use crate::math::{
    close, in_round_trip_range, lemma_world_screen_world, screen_to_world, spec_screen_to_world,
    spec_world_to_screen, world_to_screen, AXIS_COS_RAW,
};
use crate::physics::{spec_planar, spec_step, PhysicsWorld, RigidBody, RigidBodyHandle};
use crate::render::resource::TextureResource;
use crate::render::{
    get_texture_size, render_background_geometry, render_foreground_geometry,
    spec_background_geometry, spec_foreground_geometry, Color, ColoredTriangle, SpriteDrawCall,
    TexturedQuad,
};
use crate::scene::components::{
    CharacterVelocityComponent, RootTransformComponent, SpriteDrawCallComponent,
};
use crate::scene::world::{Entity, SceneEntity, SceneEntityView, World};
use crate::scene::{
    init_static_scene_objects, lemma_static_entities_handles, spawn_character,
    spawn_static_scene_object, spec_character_body, spec_character_entity,
    spec_init_static_scene_objects, spec_spawn_result, spec_static_bodies, spec_static_entities,
    spec_update_sprite_draw_call, update_sprite_draw_call, CharacterSpawnParams,
};
use vstd::prelude::*;

verus! {

/// What the rasteriser is asked to do, one command after the other.
#[derive(Clone, Copy, Debug, PartialEq, Eq, Structural)]
pub enum DrawCommand {
    /// Fill the frame with a colour.
    Clear(Color),
    Texture(TexturedQuad),
    Triangle(ColoredTriangle),
}

pub struct Scene {
    world: World,
    physics: PhysicsWorld,
    scale: Fixed,
    background_draw_call: Option<SpriteDrawCall>,
    player_character: Option<Entity>,
}

/// Opaque black, the colour a frame is cleared with.
pub open spec fn spec_black() -> Color {
    Color {
        r: Fixed { raw: 0 },
        g: Fixed { raw: 0 },
        b: Fixed { raw: 0 },
        a: Fixed { raw: 0x1_0000_0000 },
    }
}

/// The draw call of a background image: at the origin of the screen, its
/// native size scaled.
pub open spec fn spec_background_draw_call(tex: TextureResource, scale: Fixed) -> SpriteDrawCall {
    SpriteDrawCall {
        extent: tex.size.spec_scale(scale),
        ..SpriteDrawCall::spec_with_texture(tex)
    }
}

/// Whether an entity is a character that follows its body: it has a root
/// transform, a character transform, a velocity, a sprite and a body.
pub open spec fn spec_is_dynamic(e: SceneEntityView) -> bool {
    &&& e.root_transform is Some
    &&& e.character_transform is Some
    &&& e.character_velocity is Some
    &&& e.sprite is Some
    &&& e.physics_body is Some
}

/// Whether a character's sprite is mirrored: it follows the sign of the
/// screen-space x component of the velocity, and stays as it was when that
/// component is zero.
pub open spec fn spec_facing(previous: bool, velocity: Vec2) -> bool {
    let direction = spec_world_to_screen(velocity);
    if direction.x@ != 0 {
        direction.x@ > 0
    } else {
        previous
    }
}

/// A dynamic entity after a frame: its root stands where its body is, its
/// sprite faces the way it moves, and its draw call is placed anew. Any
/// other entity stays as it is.
pub open spec fn spec_update_dynamic_entity(
    e: SceneEntityView,
    bodies: Seq<RigidBody>,
) -> SceneEntityView
    recommends
        e.handles_below(bodies.len() as int),
{
    if spec_is_dynamic(e) {
        let translation = bodies[e.physics_body->0.handle.index as int].translation;
        let position = Vec2 { x: translation.x, y: translation.y };
        let scale = e.root_transform->0.scale;
        let draw_call = e.sprite->0.draw_call;
        let facing = SpriteDrawCall {
            flip_x: spec_facing(draw_call.flip_x, e.character_velocity->0.velocity),
            ..draw_call
        };
        SceneEntityView {
            root_transform: Some(RootTransformComponent { position, scale }),
            sprite: Some(
                SpriteDrawCallComponent {
                    draw_call: spec_update_sprite_draw_call(
                        facing,
                        position,
                        scale,
                        e.character_transform->0.offset,
                        e.character_transform->0.front_point,
                    ),
                },
            ),
            ..e
        }
    } else {
        e
    }
}

/// Every entity after a frame.
pub open spec fn spec_update_dynamic_objects(
    world: Seq<SceneEntityView>,
    bodies: Seq<RigidBody>,
) -> Seq<SceneEntityView> {
    world.map_values(|e: SceneEntityView| spec_update_dynamic_entity(e, bodies))
}

/// The commands that a frame begins with: clear to black, then the
/// background image, if there is one.
pub open spec fn spec_prelude(background: Option<SpriteDrawCall>) -> Seq<DrawCommand> {
    match background {
        Some(draw_call) => match draw_call.spec_draw() {
            Some(quad) => seq![DrawCommand::Clear(spec_black()), DrawCommand::Texture(quad)],
            None => seq![DrawCommand::Clear(spec_black())],
        },
        None => seq![DrawCommand::Clear(spec_black())],
    }
}

/// The commands of a frame: clear to black; the background image, if there
/// is one; every shadow; every sprite, in depth order.
pub open spec fn spec_render(
    background: Option<SpriteDrawCall>,
    world: Seq<SceneEntityView>,
) -> Seq<DrawCommand> {
    spec_prelude(background) + spec_background_geometry(world).map_values(
        |t: ColoredTriangle| DrawCommand::Triangle(t),
    ) + spec_foreground_geometry(world).map_values(|q: TexturedQuad| DrawCommand::Texture(q))
}

/// In a frame every shadow comes before every sprite: behind the commands
/// that the frame begins with, each triangle stands before each textured
/// quad.
pub proof fn lemma_shadows_before_sprites(
    background: Option<SpriteDrawCall>,
    world: Seq<SceneEntityView>,
    i: int,
    j: int,
)
    requires
        0 <= i < spec_render(background, world).len(),
        spec_prelude(background).len() <= j < spec_render(background, world).len(),
        spec_render(background, world)[i] is Triangle,
        spec_render(background, world)[j] is Texture,
    ensures
        i < j,
{
}

/// An input without a horizontal component leaves the facing as it was,
/// whatever its vertical component and the speed: the velocity it gives has
/// no screen-space x component.
pub proof fn lemma_vertical_input_keeps_facing(previous: bool, input: Vec2, move_speed: Fixed)
    requires
        input.x@ == 0,
    ensures
        spec_world_to_screen(spec_screen_to_world(input).spec_scale(move_speed)).x@ == 0,
        spec_facing(previous, spec_screen_to_world(input).spec_scale(move_speed)) == previous,
{
    let world = spec_screen_to_world(input);
    assert(world.x == world.y);
    let velocity = world.spec_scale(move_speed);
    assert(velocity.x == velocity.y);
    let u = velocity.x;
    let forward = Fixed { raw: AXIS_COS_RAW };
    let backward = Fixed { raw: (-AXIS_COS_RAW) as i64 };
    assert(backward == forward.spec_neg());
    lemma_times_odd(forward, u);
}

/// A dynamic entity whose velocity has no screen-space x component keeps
/// the facing of its sprite through a frame.
pub proof fn lemma_facing_kept(e: SceneEntityView, bodies: Seq<RigidBody>)
    requires
        spec_is_dynamic(e),
        spec_world_to_screen(e.character_velocity->0.velocity).x@ == 0,
    ensures
        spec_update_dynamic_entity(e, bodies).sprite->0.draw_call.flip_x
            == e.sprite->0.draw_call.flip_x,
{
}

/// The velocity that an input gives comes back from the screen as it went:
/// taken to the screen and back to the world it is reproduced within one
/// ten-thousandth, as long as it lies in the round-trip range.
pub proof fn lemma_velocity_round_trip(input: Vec2, move_speed: Fixed)
    requires
        in_round_trip_range(spec_screen_to_world(input).spec_scale(move_speed)),
    ensures
        close(
            spec_screen_to_world(
                spec_world_to_screen(spec_screen_to_world(input).spec_scale(move_speed)),
            ),
            spec_screen_to_world(input).spec_scale(move_speed),
        ),
{
    lemma_world_screen_world(spec_screen_to_world(input).spec_scale(move_speed));
}

/// A frame leaves an entity that is not dynamic as it is, and leaves every
/// entity the components it was spawned with: its asset and character
/// transforms, its velocity, its shadows and its bodies.
pub proof fn lemma_frame_keeps_composition(e: SceneEntityView, bodies: Seq<RigidBody>)
    ensures
        !spec_is_dynamic(e) ==> spec_update_dynamic_entity(e, bodies) == e,
        spec_update_dynamic_entity(e, bodies).asset_transform == e.asset_transform,
        spec_update_dynamic_entity(e, bodies).character_transform == e.character_transform,
        spec_update_dynamic_entity(e, bodies).character_velocity == e.character_velocity,
        spec_update_dynamic_entity(e, bodies).shadow == e.shadow,
        spec_update_dynamic_entity(e, bodies).physics_body == e.physics_body,
        spec_update_dynamic_entity(e, bodies).physics_bodies == e.physics_bodies,
        spec_update_dynamic_entity(e, bodies).root_transform is Some == e.root_transform is Some,
        spec_update_dynamic_entity(e, bodies).sprite is Some == e.sprite is Some,
{
}

fn update_dynamic_entity(entity: &mut SceneEntity, physics: &PhysicsWorld)
    requires
        old(entity)@.handles_below(physics@.len() as int),
    ensures
        final(entity)@ == spec_update_dynamic_entity(old(entity)@, physics@),
{
    match (
        entity.root_transform,
        entity.character_transform,
        entity.character_velocity,
        entity.sprite,
        entity.physics_body,
    ) {
        (
            Some(root_transform),
            Some(sprite_transform),
            Some(vel_comp),
            Some(draw_call_comp),
            Some(phys_body_comp),
        ) => {
            let position = physics.get_body_translation_2d(phys_body_comp.handle);
            let screen_movement_dir = world_to_screen(vel_comp.velocity);
            let mut draw_call = draw_call_comp.draw_call;
            if !screen_movement_dir.x.is_zero() {
                draw_call.flip_x = screen_movement_dir.x.is_positive();
            }
            update_sprite_draw_call(
                &mut draw_call,
                position,
                root_transform.scale,
                sprite_transform.offset,
                sprite_transform.front_point,
            );
            entity.root_transform = Some(
                RootTransformComponent { position, scale: root_transform.scale },
            );
            entity.sprite = Some(SpriteDrawCallComponent { draw_call });
        },
        _ => {},
    }
}

impl Scene {
    /// The entities, in the order in which they were spawned.
    pub closed spec fn entities(&self) -> Seq<SceneEntityView> {
        self.world@
    }

    /// The bodies, in the order in which they were created.
    pub closed spec fn bodies(&self) -> Seq<RigidBody> {
        self.physics@
    }

    pub closed spec fn spec_scale(&self) -> Fixed {
        self.scale
    }

    pub closed spec fn background(&self) -> Option<SpriteDrawCall> {
        self.background_draw_call
    }

    pub closed spec fn player(&self) -> Option<Entity> {
        self.player_character
    }

    /// The time step of the last update.
    pub closed spec fn spec_dt(&self) -> Fixed {
        self.physics.spec_dt()
    }

    /// Every body handle of an entity names a body, and the player, if
    /// there is one, is an entity with a velocity and a body.
    pub open spec fn wf(&self) -> bool {
        &&& forall|i: int|
            0 <= i < self.entities().len() ==> (#[trigger] self.entities()[i]).handles_below(
                self.bodies().len() as int,
            )
        &&& match self.player() {
            Some(player) => {
                &&& player.index < self.entities().len()
                &&& self.entities()[player.index as int].character_velocity is Some
                &&& self.entities()[player.index as int].physics_body is Some
            },
            None => true,
        }
    }

    pub fn new(scale: Fixed, background_tex: Option<TextureResource>) -> (r: Self)
        ensures
            r.wf(),
            r.entities() == Seq::<SceneEntityView>::empty(),
            r.bodies() == Seq::<RigidBody>::empty(),
            r.spec_scale() == scale,
            r.player() is None,
            r.background() == match background_tex {
                Some(tex) => Some(spec_background_draw_call(tex, scale)),
                None => None,
            },
    {
        let world = World::new();
        let physics = PhysicsWorld::new();
        let player_character = None;
        let background_draw_call = match background_tex {
            Some(tex) => Some(
                SpriteDrawCall {
                    origin: Vec2::zero(),
                    extent: get_texture_size(&tex).scale(scale),
                    texture: Some(tex),
                    flip_x: false,
                    flip_y: false,
                    order: Fixed::zero(),
                },
            ),
            None => None,
        };

        Self { world, physics, scale, background_draw_call, player_character }
    }

    pub fn world(&self) -> (r: &World)
        ensures
            r@ == self.entities(),
    {
        &self.world
    }

    pub fn physics(&self) -> (r: &PhysicsWorld)
        ensures
            r@ == self.bodies(),
            r.spec_dt() == self.spec_dt(),
    {
        &self.physics
    }

    pub fn scale(&self) -> (r: Fixed)
        ensures
            r == self.spec_scale(),
    {
        self.scale
    }

    pub fn player_character(&self) -> (r: Option<Entity>)
        ensures
            r == self.player(),
    {
        self.player_character
    }

    /// To be called once all static objects have been spawned: places the
    /// draw calls of the static sprites and derives the shadows'
    /// rectangles, so that no frame has to.
    pub fn initialize(&mut self)
        ensures
            final(self).entities() == spec_init_static_scene_objects(old(self).entities()),
            final(self).bodies() == old(self).bodies(),
            final(self).spec_scale() == old(self).spec_scale(),
            final(self).background() == old(self).background(),
            final(self).player() == old(self).player(),
            final(self).spec_dt() == old(self).spec_dt(),
            old(self).wf() ==> final(self).wf(),
    {
        init_static_scene_objects(&mut self.world);
    }

    /// Spawns a static object at the scene's scale. On an error nothing is
    /// spawned.
    pub fn spawn_static_object(
        &mut self,
        asset: &Asset,
        position: Vec2,
        orientation: AssetOrientation,
    ) -> (r: Result<(), AssetError>)
        requires
            asset.wf(),
        ensures
            r == spec_spawn_result(asset, orientation),
            r is Ok ==> {
                let images = asset.metadata.spec_orientation_data(orientation).images@;
                &&& final(self).entities() == old(self).entities() + spec_static_entities(
                    asset,
                    images,
                    position,
                    old(self).spec_scale(),
                    old(self).bodies().len() as int,
                )
                &&& final(self).bodies() == old(self).bodies() + spec_static_bodies(
                    images,
                    position,
                    old(self).spec_scale(),
                )
            },
            r is Err ==> final(self).entities() == old(self).entities() && final(self).bodies()
                == old(self).bodies(),
            final(self).spec_scale() == old(self).spec_scale(),
            final(self).background() == old(self).background(),
            final(self).player() == old(self).player(),
            final(self).spec_dt() == old(self).spec_dt(),
            old(self).wf() ==> final(self).wf(),
    {
        let r = spawn_static_scene_object(
            &mut self.world,
            &mut self.physics,
            asset,
            position,
            self.scale,
            orientation,
        );
        proof {
            if r is Ok {
                let images = asset.metadata.spec_orientation_data(orientation).images@;
                self.physics.lemma_handles_suffice();
                lemma_static_entities_handles(
                    asset,
                    images,
                    position,
                    self.scale,
                    old(self).bodies().len() as int,
                );
            }
        }
        r
    }

    pub fn spawn_player(&mut self, params: CharacterSpawnParams)
        ensures
            final(self).entities() == old(self).entities().push(
                spec_character_entity(
                    params,
                    old(self).spec_scale(),
                    RigidBodyHandle { index: old(self).bodies().len() as usize },
                ),
            ),
            final(self).bodies() == old(self).bodies().push(
                spec_character_body(params, old(self).spec_scale()),
            ),
            final(self).player() == Some(Entity { index: old(self).entities().len() as usize }),
            final(self).spec_scale() == old(self).spec_scale(),
            final(self).background() == old(self).background(),
            final(self).spec_dt() == old(self).spec_dt(),
            old(self).wf() ==> final(self).wf(),
    {
        self.player_character = Some(
            spawn_character(&mut self.world, &mut self.physics, self.scale, params),
        );
    }

    /// Turns the input into the player's velocity: the input taken from
    /// screen space to world space, times `move_speed`. The velocity is kept
    /// with the player, to tell which way the sprite faces, and set on the
    /// player's body. Without a player nothing changes.
    pub fn set_player_movement_input(&mut self, input: Vec2, move_speed: Fixed)
        requires
            old(self).wf(),
        ensures
            final(self).wf(),
            final(self).spec_scale() == old(self).spec_scale(),
            final(self).background() == old(self).background(),
            final(self).player() == old(self).player(),
            final(self).spec_dt() == old(self).spec_dt(),
            match old(self).player() {
                Some(player) => {
                    let velocity = spec_screen_to_world(input).spec_scale(move_speed);
                    let entity = old(self).entities()[player.index as int];
                    let handle = entity.physics_body->0.handle;
                    &&& final(self).entities() == old(self).entities().update(
                        player.index as int,
                        SceneEntityView {
                            character_velocity: Some(CharacterVelocityComponent { velocity }),
                            ..entity
                        },
                    )
                    &&& final(self).bodies() == old(self).bodies().update(
                        handle.index as int,
                        RigidBody {
                            linvel: spec_planar(velocity),
                            ..old(self).bodies()[handle.index as int]
                        },
                    )
                },
                None => {
                    &&& final(self).entities() == old(self).entities()
                    &&& final(self).bodies() == old(self).bodies()
                },
            },
    {
        if let Some(player_character) = self.player_character {
            let velocity = screen_to_world(input).scale(move_speed);
            let entity = &mut self.world.entities[player_character.index];
            let handle = entity.physics_body.unwrap().handle;
            entity.character_velocity = Some(CharacterVelocityComponent { velocity });
            self.physics.set_body_linear_velocity_2d(handle, velocity);
            proof {
                let before = old(self).entities()[player_character.index as int];
                assert(self.entities() =~= old(self).entities().update(
                    player_character.index as int,
                    SceneEntityView {
                        character_velocity: Some(CharacterVelocityComponent { velocity }),
                        ..before
                    },
                ));
            }
        }
    }

    /// Runs a frame of the scene: takes in the outcome of the simulation
    /// step of `dt` seconds, the translation of each body in the order of
    /// the handles, and lets every character follow its body.
    pub fn update(&mut self, dt: Fixed, simulated: &Vec<Vec3>)
        requires
            old(self).wf(),
        ensures
            final(self).wf(),
            final(self).bodies() == spec_step(old(self).bodies(), simulated@),
            final(self).entities() == spec_update_dynamic_objects(
                old(self).entities(),
                spec_step(old(self).bodies(), simulated@),
            ),
            final(self).spec_dt() == dt,
            final(self).spec_scale() == old(self).spec_scale(),
            final(self).background() == old(self).background(),
            final(self).player() == old(self).player(),
    {
        self.physics.step(dt, simulated);
        self.update_dynamic_objects();
    }

    /// Lets every character follow its body.
    pub fn update_dynamic_objects(&mut self)
        requires
            old(self).wf(),
        ensures
            final(self).wf(),
            final(self).entities() == spec_update_dynamic_objects(
                old(self).entities(),
                old(self).bodies(),
            ),
            final(self).bodies() == old(self).bodies(),
            final(self).spec_dt() == old(self).spec_dt(),
            final(self).spec_scale() == old(self).spec_scale(),
            final(self).background() == old(self).background(),
            final(self).player() == old(self).player(),
    {
        let n: usize = self.world.entities.len();
        let mut i: usize = 0;
        while i < n
            invariant
                n == self.world.entities@.len(),
                n == old(self).world.entities@.len(),
                i <= n,
                old(self).wf(),
                self.physics == old(self).physics,
                self.scale == old(self).scale,
                self.background_draw_call == old(self).background_draw_call,
                self.player_character == old(self).player_character,
                forall|k: int|
                    0 <= k < i ==> self.world.entities@[k]@ == spec_update_dynamic_entity(
                        old(self).world.entities@[k]@,
                        self.physics@,
                    ),
                forall|k: int| i <= k < n ==> self.world.entities@[k] == old(self).world.entities@[k],
            decreases n - i,
        {
            proof {
                assert(old(self).entities()[i as int].handles_below(old(self).bodies().len() as int));
            }
            update_dynamic_entity(&mut self.world.entities[i], &self.physics);
            i += 1;
        }
        proof {
            assert(self.entities() =~= spec_update_dynamic_objects(
                old(self).entities(),
                old(self).bodies(),
            ));
            assert forall|k: int| 0 <= k < self.entities().len() implies (
            #[trigger] self.entities()[k]).handles_below(self.bodies().len() as int) by {
                assert(old(self).entities()[k].handles_below(old(self).bodies().len() as int));
            }
        }
    }

    /// The commands that paint the scene as it stands.
    pub fn render(&self) -> (r: Vec<DrawCommand>)
        ensures
            r@ == spec_render(self.background(), self.entities()),
    {
        let mut commands: Vec<DrawCommand> = Vec::new();
        commands.push(
            DrawCommand::Clear(
                Color {
                    r: Fixed::zero(),
                    g: Fixed::zero(),
                    b: Fixed::zero(),
                    a: Fixed::one(),
                },
            ),
        );

        if let Some(background_draw_call) = &self.background_draw_call {
            if let Some(quad) = background_draw_call.draw() {
                commands.push(DrawCommand::Texture(quad));
            }
        }
        let ghost prelude = commands@;

        let shadows = render_background_geometry(&self.world);
        let mut i: usize = 0;
        while i < shadows.len()
            invariant
                i <= shadows@.len(),
                commands@ == prelude + shadows@.take(i as int).map_values(
                    |t: ColoredTriangle| DrawCommand::Triangle(t),
                ),
            decreases shadows@.len() - i,
        {
            commands.push(DrawCommand::Triangle(shadows[i]));
            proof {
                assert(commands@ =~= prelude + shadows@.take(i as int + 1).map_values(
                    |t: ColoredTriangle| DrawCommand::Triangle(t),
                ));
            }
            i += 1;
        }
        let ghost middle = commands@;

        let sprites = render_foreground_geometry(&self.world);
        let mut j: usize = 0;
        while j < sprites.len()
            invariant
                j <= sprites@.len(),
                commands@ == middle + sprites@.take(j as int).map_values(
                    |q: TexturedQuad| DrawCommand::Texture(q),
                ),
            decreases sprites@.len() - j,
        {
            commands.push(DrawCommand::Texture(sprites[j]));
            proof {
                assert(commands@ =~= middle + sprites@.take(j as int + 1).map_values(
                    |q: TexturedQuad| DrawCommand::Texture(q),
                ));
            }
            j += 1;
        }
        proof {
            assert(shadows@.take(shadows@.len() as int) == shadows@);
            assert(sprites@.take(sprites@.len() as int) == sprites@);
            assert(commands@ =~= spec_render(self.background(), self.entities()));
        }
        commands
    }
}

} // verus!
