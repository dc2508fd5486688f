//! A furnished room with one character in it.

use crate::asset::metadata::{AssetError, AssetOrientation};
use crate::asset::Asset;
use crate::fixed::Fixed;
use crate::linear::{Vec2, Vec3};
use crate::math::spec_screen_to_world;
use crate::physics::{spec_planar, spec_step, RigidBody, RigidBodyHandle};
use crate::render::resource::TextureResource;
use crate::scene::scene::{spec_render, spec_update_dynamic_objects, DrawCommand, Scene};
use crate::scene::world::SceneEntityView;
use crate::scene::{
    spec_character_body, spec_character_entity, spec_init_static_scene_objects,
    spec_spawn_result, spec_static_bodies, spec_static_entities, CharacterSpawnParams,
};
use vstd::prelude::*;

verus! {

/// The speed of the character: 200.0 units a second.
pub const CHARACTER_MOVE_SPEED_RAW: i64 = 858993459200;

/// The direction along one axis that two opposite keys ask for.
pub open spec fn spec_axis(positive: bool, negative: bool) -> int {
    (if positive { 1int } else { 0int }) - (if negative { 1int } else { 0int })
}

/// The direction that the four movement keys ask for: on each axis one,
/// minus one, or zero when the keys of the axis cancel or rest. It is not
/// brought to length one.
pub open spec fn spec_movement_input(right: bool, left: bool, down: bool, up: bool) -> Vec2 {
    Vec2 {
        x: Fixed::spec_from_int(spec_axis(right, left)),
        y: Fixed::spec_from_int(spec_axis(up, down)),
    }
}

/// The direction of movement from the state of the four movement keys.
pub fn get_movement_input(right: bool, left: bool, down: bool, up: bool) -> (r: Vec2)
    ensures
        r == spec_movement_input(right, left, down, up),
{
    let mut x: i32 = 0;
    let mut y: i32 = 0;

    if right {
        x += 1;
    }
    if left {
        x -= 1;
    }
    if down {
        y -= 1;
    }
    if up {
        y += 1;
    }
    Vec2 { x: Fixed::from_int(x), y: Fixed::from_int(y) }
}

/// Where an object of the room stands: which asset of the bundle, where,
/// and facing which way.
#[derive(Clone, Copy, Debug, PartialEq, Eq, Structural)]
pub struct Placement {
    pub asset: usize,
    pub position: Vec2,
    pub orientation: AssetOrientation,
}

pub open spec fn spec_placement(asset: usize, x: int, y: int, orientation: AssetOrientation) -> Placement {
    Placement {
        asset,
        position: Vec2 { x: Fixed::spec_from_int(x), y: Fixed::spec_from_int(y) },
        orientation,
    }
}

/// The furniture of the room: four chairs, two tables, four bookshelves, of
/// a bundle that holds the chair, the table and the bookshelf in this order.
pub open spec fn spec_demo_placements() -> Seq<Placement> {
    seq![
        spec_placement(0, 400, 20, AssetOrientation::East),
        spec_placement(0, 500, 20, AssetOrientation::West),
        spec_placement(0, 400, 120, AssetOrientation::East),
        spec_placement(0, 500, 120, AssetOrientation::West),
        spec_placement(1, 440, 5, AssetOrientation::East),
        spec_placement(1, 440, 105, AssetOrientation::East),
        spec_placement(2, 350, -30, AssetOrientation::East),
        spec_placement(2, 350, 80, AssetOrientation::East),
        spec_placement(2, 400, -80, AssetOrientation::South),
        spec_placement(2, 510, -80, AssetOrientation::South),
    ]
}

fn placement(asset: usize, x: i32, y: i32, orientation: AssetOrientation) -> (r: Placement)
    ensures
        r == spec_placement(asset, x as int, y as int, orientation),
{
    Placement {
        asset,
        position: Vec2 { x: Fixed::from_int(x), y: Fixed::from_int(y) },
        orientation,
    }
}

pub fn demo_placements() -> (r: Vec<Placement>)
    ensures
        r@ == spec_demo_placements(),
{
    let mut placements: Vec<Placement> = Vec::new();
    // Chairs
    placements.push(placement(0, 400, 20, AssetOrientation::East));
    placements.push(placement(0, 500, 20, AssetOrientation::West));
    placements.push(placement(0, 400, 120, AssetOrientation::East));
    placements.push(placement(0, 500, 120, AssetOrientation::West));
    // Tables
    placements.push(placement(1, 440, 5, AssetOrientation::East));
    placements.push(placement(1, 440, 105, AssetOrientation::East));
    // Bookshelves
    placements.push(placement(2, 350, -30, AssetOrientation::East));
    placements.push(placement(2, 350, 80, AssetOrientation::East));
    placements.push(placement(2, 400, -80, AssetOrientation::South));
    placements.push(placement(2, 510, -80, AssetOrientation::South));
    proof {
        assert(placements@ =~= spec_demo_placements());
    }
    placements
}

/// What the character of the room is spawned with.
pub open spec fn spec_demo_player(texture: TextureResource) -> CharacterSpawnParams {
    CharacterSpawnParams {
        offset: Vec2 { x: Fixed::spec_from_int(0), y: Fixed::spec_from_int(160) },
        front_point: Vec2 { x: Fixed::spec_from_int(-150), y: Fixed::spec_from_int(-150) },
        texture,
        position: Vec2 { x: Fixed::spec_from_int(500), y: Fixed::spec_from_int(200) },
        physics_body_origin: Vec3 {
            x: Fixed::spec_from_int(40),
            y: Fixed::spec_from_int(40),
            z: Fixed::spec_from_int(160),
        },
        physics_collider_half_extent: Vec3 {
            x: Fixed::spec_from_int(40),
            y: Fixed::spec_from_int(40),
            z: Fixed::spec_from_int(160),
        },
    }
}

/// Whether every placement names an asset of the bundle.
pub open spec fn placements_in_bundle(assets: Seq<Asset>, placements: Seq<Placement>) -> bool {
    forall|i: int| 0 <= i < placements.len() ==> (#[trigger] placements[i]).asset < assets.len()
}

/// The position of the first placement that cannot be spawned, or the
/// number of placements when each of them can.
pub open spec fn failing_placement(assets: Seq<Asset>, placements: Seq<Placement>) -> int
    recommends
        placements_in_bundle(assets, placements),
    decreases placements.len(),
{
    if placements.len() == 0 {
        0
    } else if spec_spawn_result(
        &assets[placements.first().asset as int],
        placements.first().orientation,
    ) is Err {
        0
    } else {
        1 + failing_placement(assets, placements.drop_first())
    }
}

/// Entities and bodies after the static objects of `placements` have been
/// spawned in turn.
pub open spec fn spec_spawn_all(
    entities: Seq<SceneEntityView>,
    bodies: Seq<RigidBody>,
    assets: Seq<Asset>,
    placements: Seq<Placement>,
    scale: Fixed,
) -> (Seq<SceneEntityView>, Seq<RigidBody>)
    recommends
        placements_in_bundle(assets, placements),
    decreases placements.len(),
{
    if placements.len() == 0 {
        (entities, bodies)
    } else {
        let before = spec_spawn_all(entities, bodies, assets, placements.drop_last(), scale);
        let last = placements.last();
        let asset = &assets[last.asset as int];
        let images = asset.metadata.spec_orientation_data(last.orientation).images@;
        (
            before.0 + spec_static_entities(
                asset,
                images,
                last.position,
                scale,
                before.1.len() as int,
            ),
            before.1 + spec_static_bodies(images, last.position, scale),
        )
    }
}

pub struct DemoScene {
    scene: Scene,
}

impl DemoScene {
    pub closed spec fn spec_scene(&self) -> Scene {
        self.scene
    }

    /// The scene is well formed and has its character.
    pub open spec fn wf(&self) -> bool {
        &&& self.spec_scene().wf()
        &&& self.spec_scene().player() is Some
    }

    /// A room at the given scale with its background and its character,
    /// and no furniture yet.
    pub fn new(scale: Fixed, tex_background: TextureResource, tex_character: TextureResource) -> (r:
        Self)
        ensures
            r.wf(),
            r.spec_scene().spec_scale() == scale,
            r.spec_scene().background() == Some(
                crate::scene::scene::spec_background_draw_call(tex_background, scale),
            ),
            r.spec_scene().entities() == seq![
                spec_character_entity(
                    spec_demo_player(tex_character),
                    scale,
                    RigidBodyHandle { index: 0 },
                ),
            ],
            r.spec_scene().bodies() == seq![
                spec_character_body(spec_demo_player(tex_character), scale),
            ],
            r.spec_scene().player() == Some(crate::scene::world::Entity { index: 0 }),
    {
        let mut scene = Scene::new(scale, Some(tex_background));

        let player_spawn_params = CharacterSpawnParams {
            offset: Vec2 { x: Fixed::from_int(0), y: Fixed::from_int(160) },
            front_point: Vec2 { x: Fixed::from_int(-150), y: Fixed::from_int(-150) },
            texture: tex_character,
            position: Vec2 { x: Fixed::from_int(500), y: Fixed::from_int(200) },
            physics_body_origin: Vec3 {
                x: Fixed::from_int(40),
                y: Fixed::from_int(40),
                z: Fixed::from_int(160),
            },
            physics_collider_half_extent: Vec3 {
                x: Fixed::from_int(40),
                y: Fixed::from_int(40),
                z: Fixed::from_int(160),
            },
        };
        scene.spawn_player(player_spawn_params);
        proof {
            assert(scene.entities() =~= seq![
                spec_character_entity(
                    spec_demo_player(tex_character),
                    scale,
                    RigidBodyHandle { index: 0 },
                ),
            ]);
            assert(scene.bodies() =~= seq![
                spec_character_body(spec_demo_player(tex_character), scale),
            ]);
        }
        Self { scene }
    }

    pub fn scene(&self) -> (r: &Scene)
        ensures
            *r == self.spec_scene(),
    {
        &self.scene
    }

    /// Furnishes the room from a bundle that holds the chair, the table and
    /// the bookshelf, in this order, and then places the static draw calls.
    /// The objects are spawned in turn; the first that cannot be spawned
    /// ends the call with its error, and those before it stay.
    pub fn populate_scene(&mut self, assets: &Vec<Asset>) -> (r: Result<(), AssetError>)
        requires
            old(self).wf(),
            assets@.len() >= 3,
            forall|i: int| 0 <= i < assets@.len() ==> (#[trigger] assets@[i]).wf(),
        ensures
            final(self).wf(),
            final(self).spec_scene().spec_scale() == old(self).spec_scene().spec_scale(),
            final(self).spec_scene().background() == old(self).spec_scene().background(),
            final(self).spec_scene().player() == old(self).spec_scene().player(),
            final(self).spec_scene().spec_dt() == old(self).spec_scene().spec_dt(),
            ({
                let placements = spec_demo_placements();
                let k = failing_placement(assets@, placements);
                let spawned = spec_spawn_all(
                    old(self).spec_scene().entities(),
                    old(self).spec_scene().bodies(),
                    assets@,
                    placements.take(k),
                    old(self).spec_scene().spec_scale(),
                );
                &&& 0 <= k <= placements.len()
                &&& final(self).spec_scene().bodies() == spawned.1
                &&& k == placements.len() ==> {
                    &&& r is Ok
                    &&& final(self).spec_scene().entities() == spec_init_static_scene_objects(
                        spawned.0,
                    )
                }
                &&& k < placements.len() ==> {
                    &&& r is Err
                    &&& r == spec_spawn_result(
                        &assets@[placements[k].asset as int],
                        placements[k].orientation,
                    )
                    &&& final(self).spec_scene().entities() == spawned.0
                }
            }),
    {
        let placements = demo_placements();
        let ghost all = placements@;
        let ghost scale = self.scene.spec_scale();
        let n: usize = placements.len();
        let mut i: usize = 0;
        proof {
            assert(all.skip(0) == all);
            assert(all.take(0) == Seq::<Placement>::empty());
        }
        while i < n
            invariant
                n == all.len(),
                all == placements@,
                all == spec_demo_placements(),
                i <= n,
                assets@.len() >= 3,
                forall|j: int| 0 <= j < assets@.len() ==> (#[trigger] assets@[j]).wf(),
                self.wf(),
                scale == old(self).spec_scene().spec_scale(),
                self.spec_scene().spec_scale() == scale,
                self.spec_scene().background() == old(self).spec_scene().background(),
                self.spec_scene().player() == old(self).spec_scene().player(),
                self.spec_scene().spec_dt() == old(self).spec_scene().spec_dt(),
                failing_placement(assets@, all) == i + failing_placement(assets@, all.skip(i as int)),
                (self.spec_scene().entities(), self.spec_scene().bodies()) == spec_spawn_all(
                    old(self).spec_scene().entities(),
                    old(self).spec_scene().bodies(),
                    assets@,
                    all.take(i as int),
                    scale,
                ),
            decreases n - i,
        {
            let p = placements[i];
            proof {
                let rest = all.skip(i as int);
                assert(rest.first() == all[i as int]);
                assert(rest.drop_first() == all.skip(i as int + 1));
                let next = all.take(i as int + 1);
                assert(next.drop_last() == all.take(i as int));
                assert(next.last() == all[i as int]);
                assert(p.asset < 3);
            }
            match self.scene.spawn_static_object(&assets[p.asset], p.position, p.orientation) {
                Ok(()) => {},
                Err(e) => {
                    return Err(e);
                },
            }
            i += 1;
        }
        proof {
            assert(all.take(n as int) == all);
        }
        self.scene.initialize();
        Ok(())
    }

    /// Turns the state of the movement keys into the character's velocity,
    /// ahead of the simulation step.
    pub fn update_player_character_movement(
        &mut self,
        right: bool,
        left: bool,
        down: bool,
        up: bool,
    )
        requires
            old(self).wf(),
        ensures
            final(self).wf(),
            final(self).spec_scene().spec_scale() == old(self).spec_scene().spec_scale(),
            final(self).spec_scene().background() == old(self).spec_scene().background(),
            final(self).spec_scene().player() == old(self).spec_scene().player(),
            final(self).spec_scene().spec_dt() == old(self).spec_scene().spec_dt(),
            ({
                let before = old(self).spec_scene();
                let player = before.player()->0;
                let entity = before.entities()[player.index as int];
                let handle = entity.physics_body->0.handle;
                let velocity = spec_screen_to_world(
                    spec_movement_input(right, left, down, up),
                ).spec_scale(Fixed { raw: CHARACTER_MOVE_SPEED_RAW });
                &&& final(self).spec_scene().entities() == before.entities().update(
                    player.index as int,
                    SceneEntityView {
                        character_velocity: Some(
                            crate::scene::components::CharacterVelocityComponent { velocity },
                        ),
                        ..entity
                    },
                )
                &&& final(self).spec_scene().bodies() == before.bodies().update(
                    handle.index as int,
                    RigidBody {
                        linvel: spec_planar(velocity),
                        ..before.bodies()[handle.index as int]
                    },
                )
            }),
    {
        let input = get_movement_input(right, left, down, up);
        self.scene.set_player_movement_input(input, Fixed::from_raw(CHARACTER_MOVE_SPEED_RAW));
    }

    /// Takes in the outcome of the simulation step of `dt` seconds and lets
    /// the character follow its body.
    pub fn update(&mut self, dt: Fixed, simulated: &Vec<Vec3>)
        requires
            old(self).wf(),
        ensures
            final(self).wf(),
            final(self).spec_scene().bodies() == spec_step(
                old(self).spec_scene().bodies(),
                simulated@,
            ),
            final(self).spec_scene().entities() == spec_update_dynamic_objects(
                old(self).spec_scene().entities(),
                spec_step(old(self).spec_scene().bodies(), simulated@),
            ),
            final(self).spec_scene().spec_dt() == dt,
            final(self).spec_scene().spec_scale() == old(self).spec_scene().spec_scale(),
            final(self).spec_scene().background() == old(self).spec_scene().background(),
            final(self).spec_scene().player() == old(self).spec_scene().player(),
    {
        self.scene.update(dt, simulated);
    }

    /// The commands that paint the room.
    pub fn render(&self) -> (r: Vec<DrawCommand>)
        ensures
            r@ == spec_render(self.spec_scene().background(), self.spec_scene().entities()),
    {
        self.scene.render()
    }
}

} // verus!
