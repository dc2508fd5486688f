use isoscene::asset::loader::{load_asset, texture_sources};
use isoscene::asset::metadata::{
    AssetError, AssetImageData, AssetImageEntry, AssetImageType, AssetMetadata, AssetOrientation,
    AssetOrientationData, AssetOrientationEntry, AssetPrimitive, AssetPrimitiveEntry,
    AssetPrimitiveShape, AssetPrimitiveType, AssetShapeType, AssetTransform, Point,
};
use isoscene::asset::Asset;
use isoscene::demo::{
    demo_placements, get_movement_input, DemoScene, CHARACTER_MOVE_SPEED_RAW,
};
use isoscene::fixed::Fixed;
use isoscene::linear::{vec2, vec3, Vec2, Vec3};
use isoscene::math::screen_to_world;
use isoscene::physics::{RigidBodyHandle, RigidBodyType};
use isoscene::render::resource::{create_texture_resource, TextureResource};
use isoscene::scene::scene::DrawCommand;

fn fx(n: i32) -> Fixed {
    Fixed::from_int(n)
}

fn pt(x: i32, y: i32) -> Point {
    Point { x: fx(x), y: fx(y) }
}

fn tex(id: u64) -> TextureResource {
    create_texture_resource(id, vec2(fx(32), fx(32)))
}

fn collider(id: &str, height: Option<i32>) -> AssetPrimitiveEntry {
    AssetPrimitiveEntry {
        id: id.to_string(),
        primitive: AssetPrimitive {
            ty: AssetPrimitiveType::Collider,
            shape: AssetPrimitiveShape { position: pt(0, 0), scale: pt(10, 10), shape: AssetShapeType::Rect },
            shadow_type: None,
            height: height.map(fx),
        },
    }
}

fn image(id: &str, primitives: Vec<AssetPrimitiveEntry>) -> AssetImageEntry {
    AssetImageEntry {
        id: id.to_string(),
        data: AssetImageData {
            ty: AssetImageType::Image,
            url: format!("https://example.org/{id}.png"),
            transform: AssetTransform { position: pt(0, 0), scale: pt(1, 1), front_point: pt(0, 0) },
            primitives,
        },
    }
}

fn metadata(name: &str, orientations: Vec<(AssetOrientation, Vec<AssetImageEntry>)>) -> AssetMetadata {
    AssetMetadata {
        name: name.to_string(),
        orientations: orientations
            .into_iter()
            .map(|(orientation, images)| AssetOrientationEntry { orientation, data: AssetOrientationData { images } })
            .collect(),
    }
}

fn furniture(name: &str, orientations: &[AssetOrientation]) -> Asset {
    let meta = metadata(
        name,
        orientations
            .iter()
            .map(|&o| (o, vec![image(&format!("{name}-{o:?}"), vec![collider("box", Some(40))])]))
            .collect(),
    );
    let textures: Vec<TextureResource> = (0..orientations.len() as u64).map(tex).collect();
    load_asset(meta, &textures).unwrap()
}

fn bundle() -> Vec<Asset> {
    vec![
        furniture("chair", &[AssetOrientation::East, AssetOrientation::West]),
        furniture("table", &[AssetOrientation::East]),
        furniture("bookshelf", &[AssetOrientation::East, AssetOrientation::South]),
    ]
}

#[test]
fn movement_input_follows_the_keys() {
    assert_eq!(get_movement_input(false, false, false, false), vec2(fx(0), fx(0)));
    assert_eq!(get_movement_input(true, false, false, false), vec2(fx(1), fx(0)));
    assert_eq!(get_movement_input(false, true, false, false), vec2(fx(-1), fx(0)));
    assert_eq!(get_movement_input(false, false, true, false), vec2(fx(0), fx(-1)));
    assert_eq!(get_movement_input(false, false, false, true), vec2(fx(0), fx(1)));
    assert_eq!(get_movement_input(true, true, false, true), vec2(fx(0), fx(1)));
    assert_eq!(get_movement_input(true, true, true, true), vec2(fx(0), fx(0)));
}

#[test]
fn diagonal_movement_input_is_not_normalized() {
    assert_eq!(get_movement_input(true, false, false, true), vec2(fx(1), fx(1)));
    assert_eq!(get_movement_input(false, true, true, false), vec2(fx(-1), fx(-1)));
    assert_eq!(get_movement_input(true, false, true, false), vec2(fx(1), fx(-1)));
}

#[test]
fn demo_room_starts_with_its_character() {
    let quarter = Fixed::from_raw(1 << 30);
    let demo = DemoScene::new(quarter, tex(100), tex(101));
    let scene = demo.scene();
    assert_eq!(scene.world().len(), 1);
    assert_eq!(scene.player_character().unwrap().index, 0);
    let body = scene.physics().body(RigidBodyHandle { index: 0 });
    assert_eq!(body.body_type, RigidBodyType::Dynamic);
    assert_eq!(body.translation, vec3(fx(510), fx(210), fx(40)));
    assert_eq!(body.half_extent, vec3(fx(10), fx(10), fx(40)));
    let frame = demo.render();
    match frame[1] {
        DrawCommand::Texture(q) => {
            assert_eq!(q.texture.id, 100);
            assert_eq!(q.dest_size, vec2(fx(8), fx(8)));
        }
        _ => panic!("the background image comes second"),
    }
}

#[test]
fn demo_placements_list_the_furniture() {
    let placements = demo_placements();
    assert_eq!(placements.len(), 10);
    assert_eq!(placements[0].asset, 0);
    assert_eq!(placements[0].position, vec2(fx(400), fx(20)));
    assert_eq!(placements[0].orientation, AssetOrientation::East);
    assert_eq!(placements[5].asset, 1);
    assert_eq!(placements[5].position, vec2(fx(440), fx(105)));
    assert_eq!(placements[9].asset, 2);
    assert_eq!(placements[9].position, vec2(fx(510), fx(-80)));
    assert_eq!(placements[9].orientation, AssetOrientation::South);
}

#[test]
fn populate_scene_spawns_ten_objects_and_places_them() {
    let mut demo = DemoScene::new(fx(1), tex(100), tex(101));
    demo.populate_scene(&bundle()).unwrap();
    let scene = demo.scene();
    assert_eq!(scene.world().len(), 11);
    assert_eq!(scene.physics().len(), 11);
    let chair = &scene.world().entities[1];
    assert_eq!(chair.root_transform.unwrap().position, vec2(fx(400), fx(20)));
    assert_eq!(chair.sprite.unwrap().draw_call.extent, vec2(fx(32), fx(32)));
    assert_eq!(chair.sprite.unwrap().draw_call.order, fx(420));
    let last = scene.physics().body(RigidBodyHandle { index: 10 });
    assert_eq!(last.body_type, RigidBodyType::Static);
    assert_eq!(last.translation, vec3(fx(515), fx(-75), fx(20)));
    assert_eq!(scene.world().entities[0].sprite.unwrap().draw_call.extent, vec2(fx(0), fx(0)));
}

#[test]
fn populate_scene_stops_at_the_first_failure() {
    let mut assets = bundle();
    assets[1] = furniture("table", &[AssetOrientation::North]);
    let mut demo = DemoScene::new(fx(1), tex(100), tex(101));
    match demo.populate_scene(&assets) {
        Err(AssetError::UnsupportedOrientation { asset, orientation }) => {
            assert_eq!(asset, "table");
            assert_eq!(orientation, AssetOrientation::East);
        }
        _ => panic!("the table has no east side"),
    }
    let scene = demo.scene();
    assert_eq!(scene.world().len(), 5);
    assert_eq!(scene.world().entities[1].sprite.unwrap().draw_call.extent, vec2(fx(0), fx(0)));
}

fn at_rest(demo: &DemoScene) -> Vec<Vec3> {
    let physics = demo.scene().physics();
    (0..physics.len()).map(|i| physics.body(RigidBodyHandle { index: i }).translation).collect()
}

fn flip(demo: &DemoScene) -> bool {
    demo.scene().world().entities[0].sprite.unwrap().draw_call.flip_x
}

#[test]
fn demo_character_moves_at_its_speed() {
    let mut demo = DemoScene::new(fx(1), tex(100), tex(101));
    demo.update_player_character_movement(true, false, false, false);
    let expected: Vec2 = screen_to_world(vec2(fx(1), fx(0))).scale(Fixed::from_raw(CHARACTER_MOVE_SPEED_RAW));
    assert_eq!(CHARACTER_MOVE_SPEED_RAW, 200i64 << 32);
    assert_eq!(demo.scene().world().entities[0].character_velocity.unwrap().velocity, expected);
    assert_eq!(demo.scene().physics().body(RigidBodyHandle { index: 0 }).linvel, vec3(expected.x, expected.y, fx(0)));
}

#[test]
fn demo_character_keeps_facing_when_keys_rest() {
    let mut demo = DemoScene::new(fx(1), tex(100), tex(101));
    let dt = Fixed::from_raw((1 << 32) / 60);
    demo.update_player_character_movement(true, false, false, false);
    let simulated = at_rest(&demo);
    demo.update(dt, &simulated);
    assert!(flip(&demo));
    demo.update_player_character_movement(false, false, false, false);
    demo.update(dt, &simulated);
    assert!(flip(&demo));
    demo.update_player_character_movement(false, false, false, true);
    demo.update(dt, &simulated);
    assert!(flip(&demo));
    demo.update_player_character_movement(false, true, false, true);
    demo.update(dt, &simulated);
    assert!(!flip(&demo));
}

#[test]
fn load_asset_pairs_textures_with_images() {
    let meta = metadata(
        "chair",
        vec![
            (AssetOrientation::East, vec![image("e", vec![])]),
            (AssetOrientation::West, vec![image("w1", vec![]), image("w2", vec![])]),
        ],
    );
    assert_eq!(texture_sources(&meta).len(), 3);
    let asset = load_asset(meta, &vec![tex(1), tex(2), tex(3)]).unwrap();
    assert!(asset.is_well_formed());
    assert_eq!(asset.resources.len(), 3);
    assert_eq!(asset.resources[1].id, "w1");
    assert_eq!(asset.resources[1].texture.id, 2);
    assert_eq!(asset.get_texture_resource(&"w2".to_string()).unwrap().id, 3);
}

fn malformed(r: Result<Asset, AssetError>, name: &str) -> bool {
    matches!(r, Err(AssetError::Malformed { asset }) if asset == name)
}

#[test]
fn load_asset_refuses_what_is_not_well_formed() {
    let fine = || metadata("a", vec![(AssetOrientation::East, vec![image("e", vec![])])]);
    assert!(load_asset(fine(), &vec![tex(1)]).is_ok());
    assert!(malformed(load_asset(fine(), &vec![]), "a"));
    assert!(malformed(load_asset(fine(), &vec![tex(1), tex(2)]), "a"));

    let twice = metadata(
        "b",
        vec![(AssetOrientation::East, vec![image("e", vec![])]), (AssetOrientation::East, vec![image("f", vec![])])],
    );
    assert!(!twice.is_well_formed());
    assert!(malformed(load_asset(twice, &vec![tex(1), tex(2)]), "b"));

    let shared = metadata(
        "c",
        vec![(AssetOrientation::East, vec![image("e", vec![])]), (AssetOrientation::West, vec![image("e", vec![])])],
    );
    assert!(shared.is_well_formed());
    assert!(malformed(load_asset(shared, &vec![tex(1), tex(2)]), "c"));

    let flat = metadata("d", vec![(AssetOrientation::East, vec![image("e", vec![collider("box", None)])])]);
    assert!(!flat.is_well_formed());
    assert!(malformed(load_asset(flat, &vec![tex(1)]), "d"));

    let same = metadata(
        "e",
        vec![(AssetOrientation::East, vec![image("e", vec![collider("box", Some(1)), collider("box", Some(2))])])],
    );
    assert!(!same.is_well_formed());

    let images = metadata("f", vec![(AssetOrientation::East, vec![image("e", vec![]), image("e", vec![])])]);
    assert!(!images.is_well_formed());
}

#[test]
fn point_converts_into_a_vector() {
    let v: Vec2 = pt(3, -4).into();
    assert_eq!(v, vec2(fx(3), fx(-4)));
    assert_eq!(Vec2::from(pt(0, 9)), vec2(fx(0), fx(9)));
}
