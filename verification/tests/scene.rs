use isoscene::asset::metadata::{
    AssetError, AssetImageData, AssetImageEntry, AssetImageType, AssetMetadata, AssetOrientation,
    AssetOrientationData, AssetOrientationEntry, AssetPrimitive, AssetPrimitiveEntry,
    AssetPrimitiveShape, AssetPrimitiveType, AssetShapeType, AssetTransform, Point,
};
use isoscene::asset::{Asset, AssetResourceEntry};
use isoscene::fixed::Fixed;
use isoscene::linear::{vec2, vec3, Vec2, Vec3};
use isoscene::math::world_to_screen;
use isoscene::physics::{PhysicsWorld, RigidBodyHandle, RigidBodyType};
use isoscene::render::resource::{create_texture_resource, TextureResource};
use isoscene::render::{
    depth_order, render_background_geometry, render_foreground_geometry, screen_position,
    SpriteDrawCall, WorldSpaceRectDrawCall,
};
use isoscene::scene::components::{
    RootTransformComponent, SceneObjectShadowComponent, SpriteDrawCallComponent, SHADOW_ALPHA_RAW,
};
use isoscene::scene::scene::{DrawCommand, Scene};
use isoscene::scene::world::{SceneEntity, World};
use isoscene::scene::{
    collider_box, init_static_scene_objects, spawn_character, spawn_static_scene_object,
    update_sprite_draw_call, CharacterSpawnParams,
};

fn fx(n: i32) -> Fixed {
    Fixed::from_int(n)
}

fn pt(x: i32, y: i32) -> Point {
    Point { x: fx(x), y: fx(y) }
}

fn tex(id: u64, w: i32, h: i32) -> TextureResource {
    create_texture_resource(id, vec2(fx(w), fx(h)))
}

fn collider(x: i32, y: i32, w: i32, d: i32, height: i32) -> AssetPrimitive {
    AssetPrimitive {
        ty: AssetPrimitiveType::Collider,
        shape: AssetPrimitiveShape { position: pt(x, y), scale: pt(w, d), shape: AssetShapeType::Rect },
        shadow_type: None,
        height: Some(fx(height)),
    }
}

fn shadow(x: i32, y: i32, w: i32, d: i32) -> AssetPrimitive {
    AssetPrimitive {
        ty: AssetPrimitiveType::Shadow,
        shape: AssetPrimitiveShape { position: pt(x, y), scale: pt(w, d), shape: AssetShapeType::Rect },
        shadow_type: Some(AssetShapeType::Rect),
        height: None,
    }
}

fn image(id: &str, front: (i32, i32), primitives: Vec<(&str, AssetPrimitive)>) -> AssetImageEntry {
    AssetImageEntry {
        id: id.to_string(),
        data: AssetImageData {
            ty: AssetImageType::Image,
            url: format!("https://example.org/{id}.png"),
            transform: AssetTransform { position: pt(2, 3), scale: pt(1, 1), front_point: pt(front.0, front.1) },
            primitives: primitives
                .into_iter()
                .map(|(id, primitive)| AssetPrimitiveEntry { id: id.to_string(), primitive })
                .collect(),
        },
    }
}

fn table() -> Asset {
    Asset {
        metadata: AssetMetadata {
            name: "table".to_string(),
            orientations: vec![AssetOrientationEntry {
                orientation: AssetOrientation::East,
                data: AssetOrientationData {
                    images: vec![
                        image(
                            "top",
                            (10, 20),
                            vec![
                                ("c1", collider(10, 10, 8, 8, 20)),
                                ("s1", shadow(1, 2, 30, 40)),
                                ("c2", collider(0, 0, 2, 4, 6)),
                            ],
                        ),
                        image("legs", (0, 0), vec![]),
                    ],
                },
            }],
        },
        resources: vec![
            AssetResourceEntry { id: "top".to_string(), texture: tex(7, 64, 32) },
            AssetResourceEntry { id: "legs".to_string(), texture: tex(8, 16, 16) },
        ],
    }
}

fn player_params() -> CharacterSpawnParams {
    CharacterSpawnParams {
        offset: vec2(fx(0), fx(160)),
        front_point: vec2(fx(-150), fx(-150)),
        texture: tex(1, 100, 200),
        position: vec2(fx(500), fx(200)),
        physics_body_origin: vec3(fx(40), fx(40), fx(160)),
        physics_collider_half_extent: vec3(fx(40), fx(40), fx(160)),
    }
}

fn sprite_with_order(order: i32, texture: Option<TextureResource>) -> SceneEntity {
    let mut e = SceneEntity::new();
    let mut dc = SpriteDrawCall::default();
    dc.order = fx(order);
    dc.texture = texture;
    e.sprite = Some(SpriteDrawCallComponent { draw_call: dc });
    e
}

#[test]
fn collider_box_is_centred_half_an_extent_in() {
    let (center, half) = collider_box(&collider(10, 10, 8, 8, 20), vec2(fx(100), fx(100)), fx(1));
    assert_eq!(center, vec3(fx(114), fx(114), fx(10)));
    assert_eq!(half, vec3(fx(4), fx(4), fx(10)));
}

#[test]
fn collider_box_scales_offset_size_and_height() {
    let quarter = Fixed::from_raw(1 << 30);
    let (center, half) = collider_box(&collider(40, 80, 16, 32, 8), vec2(fx(100), fx(200)), quarter);
    assert_eq!(center, vec3(fx(112), fx(224), fx(1)));
    assert_eq!(half, vec3(fx(2), fx(4), fx(1)));
}

#[test]
fn update_sprite_draw_call_follows_the_formula() {
    let mut dc = SpriteDrawCall::with_texture(tex(3, 64, 32));
    dc.flip_x = true;
    let root = vec2(fx(100), fx(50));
    update_sprite_draw_call(&mut dc, root, fx(2), vec2(fx(3), fx(4)), vec2(fx(10), fx(-20)));
    assert_eq!(dc.extent, vec2(fx(128), fx(64)));
    let screen = world_to_screen(root);
    assert_eq!(dc.origin.x, screen.x.minus(fx(64)).minus(fx(6)));
    assert_eq!(dc.origin.y, screen.y.neg().minus(fx(32)).minus(fx(8)));
    assert_eq!(dc.order, fx(100 + 20 + 50 - 40));
    assert!(dc.flip_x);
    assert!(!dc.flip_y);
    assert_eq!(dc.texture, Some(tex(3, 64, 32)));
}

#[test]
fn update_sprite_draw_call_without_texture_has_no_extent() {
    let mut dc = SpriteDrawCall::default();
    update_sprite_draw_call(&mut dc, vec2(fx(1), fx(2)), fx(1), vec2(fx(0), fx(0)), vec2(fx(5), fx(6)));
    assert_eq!(dc.extent, vec2(fx(0), fx(0)));
    assert_eq!(dc.origin, screen_position(vec2(fx(1), fx(2))));
    assert_eq!(dc.order, fx(14));
    assert!(dc.draw().is_none());
}

#[test]
fn screen_position_inverts_the_second_axis() {
    let p = vec2(fx(3), fx(9));
    let raw = world_to_screen(p);
    assert_eq!(screen_position(p), vec2(raw.x, raw.y.neg()));
}

#[test]
fn shadow_draw_calls_follow_the_primitives() {
    let mut component = SceneObjectShadowComponent {
        primitives: vec![shadow(1, 2, 30, 40), shadow(-5, 0, 2, 2)],
        draw_calls: vec![],
    };
    component.update_draw_calls(vec2(fx(100), fx(200)), fx(2));
    assert_eq!(component.draw_calls.len(), 2);
    assert_eq!(component.draw_calls[0].origin, vec2(fx(102), fx(204)));
    assert_eq!(component.draw_calls[0].extent, vec2(fx(60), fx(80)));
    assert_eq!(component.draw_calls[1].origin, vec2(fx(90), fx(200)));
    assert_eq!(component.draw_calls[0].color.a.raw, SHADOW_ALPHA_RAW);
    assert_eq!(component.draw_calls[0].color.r.raw, 0);
    component.update_draw_calls(vec2(fx(100), fx(200)), fx(2));
    assert_eq!(component.draw_calls.len(), 2);
}

#[test]
fn rect_draw_call_gives_two_triangles() {
    let rect = WorldSpaceRectDrawCall {
        origin: vec2(fx(10), fx(20)),
        extent: vec2(fx(4), fx(6)),
        color: isoscene::render::Color { r: fx(0), g: fx(0), b: fx(0), a: fx(1) },
    };
    let (first, second) = rect.draw();
    let v1 = screen_position(vec2(fx(10), fx(20)));
    let v2 = screen_position(vec2(fx(14), fx(20)));
    let v3 = screen_position(vec2(fx(14), fx(26)));
    let v4 = screen_position(vec2(fx(10), fx(26)));
    assert_eq!((first.a, first.b, first.c), (v1, v2, v3));
    assert_eq!((second.a, second.b, second.c), (v1, v3, v4));
    assert_eq!(first.color, rect.color);
}

#[test]
fn spawn_unsupported_orientation_creates_nothing() {
    let mut scene = Scene::new(fx(1), None);
    let asset = table();
    let r = scene.spawn_static_object(&asset, vec2(fx(0), fx(0)), AssetOrientation::North);
    match r {
        Err(AssetError::UnsupportedOrientation { asset, orientation }) => {
            assert_eq!(asset, "table");
            assert_eq!(orientation, AssetOrientation::North);
        }
        _ => panic!("an unsupported orientation must be refused"),
    }
    assert_eq!(scene.world().len(), 0);
    assert_eq!(scene.physics().len(), 0);
}

#[test]
fn spawn_with_missing_texture_creates_nothing() {
    let mut scene = Scene::new(fx(1), None);
    let mut asset = table();
    asset.resources.pop();
    let r = scene.spawn_static_object(&asset, vec2(fx(0), fx(0)), AssetOrientation::East);
    match r {
        Err(AssetError::MissingResource { name }) => assert_eq!(name, "legs"),
        _ => panic!("a missing texture must be reported"),
    }
    assert_eq!(scene.world().len(), 0);
    assert_eq!(scene.physics().len(), 0);
}

#[test]
fn spawn_static_object_composes_one_entity_per_image() {
    let mut world = World::new();
    let mut physics = PhysicsWorld::new();
    let asset = table();
    let position = vec2(fx(100), fx(100));
    spawn_static_scene_object(&mut world, &mut physics, &asset, position, fx(1), AssetOrientation::East).unwrap();
    assert_eq!(world.len(), 2);
    assert_eq!(physics.len(), 2);

    let top = &world.entities[0];
    assert_eq!(top.root_transform, Some(RootTransformComponent { position, scale: fx(1) }));
    assert_eq!(top.asset_transform.unwrap().transform.front_point, pt(10, 20));
    assert_eq!(top.sprite.unwrap().draw_call, SpriteDrawCall::with_texture(tex(7, 64, 32)));
    let shadows = top.shadow.as_ref().unwrap();
    assert_eq!(shadows.primitives.len(), 1);
    assert!(shadows.draw_calls.is_empty());
    assert_eq!(
        top.physics_bodies.as_ref().unwrap().handles,
        vec![RigidBodyHandle { index: 0 }, RigidBodyHandle { index: 1 }]
    );
    assert!(top.physics_body.is_none());
    assert!(top.character_velocity.is_none());

    let legs = &world.entities[1];
    assert_eq!(legs.sprite.unwrap().draw_call.texture, Some(tex(8, 16, 16)));
    assert!(legs.shadow.is_none());
    assert!(legs.physics_bodies.is_none());

    let first = physics.body(RigidBodyHandle { index: 0 });
    assert_eq!(first.body_type, RigidBodyType::Static);
    assert_eq!(first.translation, vec3(fx(114), fx(114), fx(10)));
    assert_eq!(first.half_extent, vec3(fx(4), fx(4), fx(10)));
    let second = physics.body(RigidBodyHandle { index: 1 });
    assert_eq!(second.translation, vec3(fx(101), fx(102), fx(3)));
    assert_eq!(second.half_extent, vec3(fx(1), fx(2), fx(3)));
}

#[test]
fn second_spawn_continues_the_handles() {
    let mut scene = Scene::new(fx(1), None);
    let asset = table();
    scene.spawn_static_object(&asset, vec2(fx(0), fx(0)), AssetOrientation::East).unwrap();
    scene.spawn_static_object(&asset, vec2(fx(50), fx(0)), AssetOrientation::East).unwrap();
    assert_eq!(scene.world().len(), 4);
    assert_eq!(scene.physics().len(), 4);
    assert_eq!(
        scene.world().entities[2].physics_bodies.as_ref().unwrap().handles,
        vec![RigidBodyHandle { index: 2 }, RigidBodyHandle { index: 3 }]
    );
}

#[test]
fn spawn_character_creates_one_dynamic_body() {
    let mut world = World::new();
    let mut physics = PhysicsWorld::new();
    let quarter = Fixed::from_raw(1 << 30);
    let entity = spawn_character(&mut world, &mut physics, quarter, player_params());
    assert_eq!(entity.index, 0);
    assert_eq!(world.len(), 1);
    assert_eq!(physics.len(), 1);
    let e = world.get(entity);
    assert_eq!(e.root_transform, Some(RootTransformComponent { position: vec2(fx(500), fx(200)), scale: quarter }));
    assert_eq!(e.character_velocity.unwrap().velocity, vec2(fx(0), fx(0)));
    assert_eq!(e.character_transform.unwrap().offset, vec2(fx(0), fx(160)));
    assert_eq!(e.sprite.unwrap().draw_call, SpriteDrawCall::with_texture(tex(1, 100, 200)));
    assert!(e.asset_transform.is_none());
    let handle = e.physics_body.unwrap().handle;
    let body = physics.body(handle);
    assert_eq!(body.body_type, RigidBodyType::Dynamic);
    assert_eq!(body.translation, vec3(fx(510), fx(210), fx(40)));
    assert_eq!(body.half_extent, vec3(fx(10), fx(10), fx(40)));
    assert_eq!(body.linvel, vec3(fx(0), fx(0), fx(0)));
}

#[test]
fn initialize_places_static_draw_calls() {
    let mut scene = Scene::new(fx(2), None);
    let asset = table();
    let position = vec2(fx(100), fx(100));
    scene.spawn_static_object(&asset, position, AssetOrientation::East).unwrap();
    assert_eq!(scene.world().entities[0].sprite.unwrap().draw_call.extent, vec2(fx(0), fx(0)));
    scene.initialize();
    let dc = scene.world().entities[0].sprite.unwrap().draw_call;
    assert_eq!(dc.extent, vec2(fx(128), fx(64)));
    let at = screen_position(position);
    assert_eq!(dc.origin, vec2(at.x.minus(fx(64)).minus(fx(4)), at.y.minus(fx(32)).minus(fx(6))));
    assert_eq!(dc.order, fx(100 + 20 + 100 + 40));
    let shadows = scene.world().entities[0].shadow.as_ref().unwrap();
    assert_eq!(shadows.draw_calls.len(), 1);
    assert_eq!(shadows.draw_calls[0].origin, vec2(fx(102), fx(104)));
    assert_eq!(shadows.draw_calls[0].extent, vec2(fx(60), fx(80)));
}

#[test]
fn initialize_twice_changes_nothing() {
    let mut scene = Scene::new(Fixed::from_raw(1 << 30), None);
    let asset = table();
    scene.spawn_static_object(&asset, vec2(fx(33), fx(-7)), AssetOrientation::East).unwrap();
    scene.spawn_player(player_params());
    scene.initialize();
    let once: Vec<(Option<SpriteDrawCallComponent>, Option<Vec<WorldSpaceRectDrawCall>>)> = scene
        .world()
        .entities
        .iter()
        .map(|e| (e.sprite, e.shadow.as_ref().map(|s| s.draw_calls.clone())))
        .collect();
    let frame_once = scene.render();
    scene.initialize();
    let twice: Vec<(Option<SpriteDrawCallComponent>, Option<Vec<WorldSpaceRectDrawCall>>)> = scene
        .world()
        .entities
        .iter()
        .map(|e| (e.sprite, e.shadow.as_ref().map(|s| s.draw_calls.clone())))
        .collect();
    assert_eq!(once, twice);
    assert_eq!(frame_once, scene.render());
}

#[test]
fn initialize_leaves_characters_alone() {
    let mut world = World::new();
    let mut physics = PhysicsWorld::new();
    spawn_character(&mut world, &mut physics, fx(1), player_params());
    init_static_scene_objects(&mut world);
    assert_eq!(world.entities[0].sprite.unwrap().draw_call, SpriteDrawCall::with_texture(tex(1, 100, 200)));
}

#[test]
fn depth_order_sorts_ascending() {
    let calls: Vec<SpriteDrawCall> = [5, -2, 3]
        .iter()
        .map(|&o| {
            let mut dc = SpriteDrawCall::default();
            dc.order = fx(o);
            dc
        })
        .collect();
    let order = depth_order(&calls);
    assert_eq!(order, vec![1, 2, 0]);
    let keys: Vec<Fixed> = order.iter().map(|&i| calls[i].order).collect();
    assert_eq!(keys, vec![fx(-2), fx(3), fx(5)]);
}

#[test]
fn depth_order_keeps_ties_in_place() {
    let calls: Vec<SpriteDrawCall> = [4, 1, 4, 1, 4]
        .iter()
        .map(|&o| {
            let mut dc = SpriteDrawCall::default();
            dc.order = fx(o);
            dc
        })
        .collect();
    assert_eq!(depth_order(&calls), vec![1, 3, 0, 2, 4]);
    assert_eq!(depth_order(&Vec::new()), Vec::<usize>::new());
}

#[test]
fn foreground_dispatches_sprites_in_depth_order() {
    let mut world = World::new();
    world.spawn(sprite_with_order(5, Some(tex(50, 1, 1))));
    world.spawn(sprite_with_order(-2, Some(tex(20, 1, 1))));
    world.spawn(SceneEntity::new());
    world.spawn(sprite_with_order(3, Some(tex(30, 1, 1))));
    let quads = render_foreground_geometry(&world);
    let ids: Vec<u64> = quads.iter().map(|q| q.texture.id).collect();
    assert_eq!(ids, vec![20, 30, 50]);
}

#[test]
fn sprite_without_texture_paints_nothing() {
    let mut world = World::new();
    world.spawn(sprite_with_order(1, None));
    world.spawn(sprite_with_order(0, Some(tex(9, 2, 2))));
    let quads = render_foreground_geometry(&world);
    assert_eq!(quads.len(), 1);
    assert_eq!(quads[0].texture.id, 9);
    assert!(SpriteDrawCall::default().draw().is_none());
}

#[test]
fn sprite_draw_hands_on_origin_extent_and_flips() {
    let mut dc = SpriteDrawCall::with_texture(tex(4, 8, 8));
    dc.origin = vec2(fx(10), fx(-20));
    dc.extent = vec2(fx(16), fx(24));
    dc.flip_x = true;
    let quad = dc.draw().unwrap();
    assert_eq!((quad.x, quad.y), (fx(10), fx(-20)));
    assert_eq!(quad.dest_size, vec2(fx(16), fx(24)));
    assert!(quad.flip_x);
    assert!(!quad.flip_y);
    assert_eq!(quad.texture, tex(4, 8, 8));
}

#[test]
fn background_dispatches_every_shadow() {
    let mut scene = Scene::new(fx(1), None);
    let asset = table();
    scene.spawn_static_object(&asset, vec2(fx(0), fx(0)), AssetOrientation::East).unwrap();
    assert!(render_background_geometry(scene.world()).is_empty());
    scene.initialize();
    let triangles = render_background_geometry(scene.world());
    assert_eq!(triangles.len(), 2);
    let rect = scene.world().entities[0].shadow.as_ref().unwrap().draw_calls[0];
    assert_eq!((triangles[0], triangles[1]), rect.draw());
}

#[test]
fn render_puts_shadows_before_sprites() {
    let mut scene = Scene::new(fx(1), Some(tex(99, 640, 480)));
    let asset = table();
    scene.spawn_static_object(&asset, vec2(fx(900), fx(900)), AssetOrientation::East).unwrap();
    scene.spawn_player(player_params());
    scene.initialize();
    let frame = scene.render();
    assert!(matches!(frame[0], DrawCommand::Clear(c) if c.a == fx(1) && c.r == fx(0)));
    match frame[1] {
        DrawCommand::Texture(q) => {
            assert_eq!(q.texture.id, 99);
            assert_eq!((q.x, q.y), (fx(0), fx(0)));
            assert_eq!(q.dest_size, vec2(fx(640), fx(480)));
        }
        _ => panic!("the background image comes second"),
    }
    let last_shadow = frame.iter().rposition(|c| matches!(c, DrawCommand::Triangle(_))).unwrap();
    let first_sprite = frame.iter().skip(2).position(|c| matches!(c, DrawCommand::Texture(_))).unwrap() + 2;
    assert!(last_shadow < first_sprite);
    assert_eq!(frame.len(), 2 + 2 + 3);
}

#[test]
fn render_without_background_starts_with_clear() {
    let scene = Scene::new(fx(1), None);
    let frame = scene.render();
    assert_eq!(frame.len(), 1);
    assert!(matches!(frame[0], DrawCommand::Clear(_)));
}

#[test]
fn movement_input_sets_velocity_on_player_and_body() {
    let mut scene = Scene::new(fx(1), None);
    scene.spawn_player(player_params());
    let input = vec2(fx(1), fx(0));
    scene.set_player_movement_input(input, fx(200));
    let expected = isoscene::math::screen_to_world(input).scale(fx(200));
    let player = scene.player_character().unwrap();
    let e = scene.world().get(player);
    assert_eq!(e.character_velocity.unwrap().velocity, expected);
    let body = scene.physics().body(e.physics_body.unwrap().handle);
    assert_eq!(body.linvel, vec3(expected.x, expected.y, fx(0)));
}

#[test]
fn movement_input_without_player_changes_nothing() {
    let mut scene = Scene::new(fx(1), None);
    let asset = table();
    scene.spawn_static_object(&asset, vec2(fx(0), fx(0)), AssetOrientation::East).unwrap();
    scene.set_player_movement_input(vec2(fx(1), fx(1)), fx(200));
    assert!(scene.player_character().is_none());
    assert_eq!(scene.physics().body(RigidBodyHandle { index: 0 }).linvel, vec3(fx(0), fx(0), fx(0)));
}

fn translations(scene: &Scene, player_at: Vec3) -> Vec<Vec3> {
    let n = scene.physics().len();
    (0..n)
        .map(|i| {
            let body = scene.physics().body(RigidBodyHandle { index: i });
            if body.body_type == RigidBodyType::Dynamic { player_at } else { body.translation }
        })
        .collect()
}

#[test]
fn update_moves_player_to_its_body() {
    let mut scene = Scene::new(fx(1), None);
    let asset = table();
    scene.spawn_static_object(&asset, vec2(fx(0), fx(0)), AssetOrientation::East).unwrap();
    scene.spawn_player(player_params());
    scene.initialize();
    let statics_before: Vec<Option<SpriteDrawCallComponent>> =
        scene.world().entities[..2].iter().map(|e| e.sprite).collect();
    let simulated = translations(&scene, vec3(fx(520), fx(230), fx(160)));
    let dt = Fixed::from_raw((1 << 32) / 60);
    scene.update(dt, &simulated);
    assert_eq!(scene.physics().dt(), dt);
    let player = scene.player_character().unwrap();
    let e = scene.world().get(player);
    let root = e.root_transform.unwrap();
    assert_eq!(root.position, vec2(fx(520), fx(230)));
    let dc = e.sprite.unwrap().draw_call;
    assert_eq!(dc.extent, vec2(fx(100), fx(200)));
    let at = screen_position(root.position);
    assert_eq!(dc.origin, vec2(at.x.minus(fx(50)), at.y.minus(fx(100)).minus(fx(160))));
    assert_eq!(dc.order, fx(520 - 150 + 230 - 150));
    let statics_after: Vec<Option<SpriteDrawCallComponent>> =
        scene.world().entities[..2].iter().map(|e| e.sprite).collect();
    assert_eq!(statics_before, statics_after);
}

#[test]
fn static_bodies_do_not_move() {
    let mut physics = PhysicsWorld::new();
    let s = physics.create_body_cuboid(RigidBodyType::Static, vec3(fx(1), fx(2), fx(3)), vec3(fx(1), fx(1), fx(1)));
    let d = physics.create_body_cuboid(RigidBodyType::Dynamic, vec3(fx(4), fx(5), fx(6)), vec3(fx(1), fx(1), fx(1)));
    let late = physics.create_body_cuboid(RigidBodyType::Dynamic, vec3(fx(0), fx(0), fx(0)), vec3(fx(1), fx(1), fx(1)));
    physics.step(fx(1), &vec![vec3(fx(9), fx(9), fx(9)), vec3(fx(7), fx(8), fx(9))]);
    assert_eq!(physics.get_body_translation(s), vec3(fx(1), fx(2), fx(3)));
    assert_eq!(physics.get_body_translation(d), vec3(fx(7), fx(8), fx(9)));
    assert_eq!(physics.get_body_translation_2d(d), vec2(fx(7), fx(8)));
    assert_eq!(physics.get_body_translation(late), vec3(fx(0), fx(0), fx(0)));
    assert_eq!(PhysicsWorld::gravity(), vec3(fx(0), fx(0), fx(0)));
}

#[test]
fn planar_velocity_has_no_vertical_part() {
    let mut physics = PhysicsWorld::new();
    let h = physics.create_body_cuboid(RigidBodyType::Dynamic, vec3(fx(0), fx(0), fx(0)), vec3(fx(1), fx(1), fx(1)));
    physics.set_body_linear_velocity(h, vec3(fx(1), fx(2), fx(3)));
    assert_eq!(physics.body(h).linvel, vec3(fx(1), fx(2), fx(3)));
    physics.set_body_linear_velocity_2d(h, vec2(fx(-4), fx(5)));
    assert_eq!(physics.body(h).linvel, vec3(fx(-4), fx(5), fx(0)));
}

fn player_flip(scene: &Scene) -> bool {
    let player = scene.player_character().unwrap();
    scene.world().get(player).sprite.unwrap().draw_call.flip_x
}

fn frame(scene: &mut Scene, input: Vec2) {
    scene.set_player_movement_input(input, fx(200));
    let simulated = translations(scene, vec3(fx(500), fx(200), fx(160)));
    scene.update(Fixed::from_raw((1 << 32) / 60), &simulated);
}

#[test]
fn zero_input_keeps_the_facing() {
    let mut scene = Scene::new(fx(1), None);
    scene.spawn_player(player_params());
    assert!(!player_flip(&scene));
    frame(&mut scene, vec2(fx(1), fx(0)));
    assert!(player_flip(&scene));
    frame(&mut scene, vec2(fx(0), fx(0)));
    assert!(player_flip(&scene));
    frame(&mut scene, vec2(fx(-1), fx(0)));
    assert!(!player_flip(&scene));
    frame(&mut scene, vec2(fx(0), fx(0)));
    assert!(!player_flip(&scene));
}

#[test]
fn vertical_input_keeps_the_facing() {
    let mut scene = Scene::new(fx(1), None);
    scene.spawn_player(player_params());
    frame(&mut scene, vec2(fx(1), fx(0)));
    assert!(player_flip(&scene));
    frame(&mut scene, vec2(fx(0), fx(1)));
    assert!(player_flip(&scene));
    frame(&mut scene, vec2(fx(0), fx(-1)));
    assert!(player_flip(&scene));
    frame(&mut scene, vec2(fx(-1), fx(1)));
    assert!(!player_flip(&scene));
    frame(&mut scene, vec2(fx(0), Fixed::from_raw(3037000500)));
    assert!(!player_flip(&scene));
}
