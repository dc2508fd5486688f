use isoscene::asset::loader::{cache_file_for_digest, cache_file_name, texture_sources};
use isoscene::asset::metadata::{
    AssetError, AssetImageData, AssetImageEntry, AssetImageType, AssetMetadata, AssetOrientation,
    AssetOrientationData, AssetOrientationEntry, AssetPrimitive, AssetPrimitiveEntry,
    AssetPrimitiveShape, AssetPrimitiveType, AssetShapeType, AssetTransform, Point,
};
use isoscene::asset::{Asset, AssetResourceEntry};
use isoscene::fixed::Fixed;
use isoscene::linear::vec2;
use isoscene::render::resource::create_texture_resource;

fn fx(n: i32) -> Fixed {
    Fixed::from_int(n)
}

fn pt(x: i32, y: i32) -> Point {
    Point { x: fx(x), y: fx(y) }
}

fn primitive(id: &str, ty: AssetPrimitiveType, x: i32) -> AssetPrimitiveEntry {
    AssetPrimitiveEntry {
        id: id.to_string(),
        primitive: AssetPrimitive {
            ty,
            shape: AssetPrimitiveShape { position: pt(x, 0), scale: pt(1, 1), shape: AssetShapeType::Rect },
            shadow_type: if ty == AssetPrimitiveType::Shadow { Some(AssetShapeType::Rect) } else { None },
            height: if ty == AssetPrimitiveType::Collider { Some(fx(5)) } else { None },
        },
    }
}

fn image(id: &str, primitives: Vec<AssetPrimitiveEntry>) -> AssetImageEntry {
    AssetImageEntry {
        id: id.to_string(),
        data: AssetImageData {
            ty: AssetImageType::Image,
            url: format!("https://example.org/{id}.png"),
            transform: AssetTransform { position: pt(0, 0), scale: pt(1, 1), front_point: pt(0, 0) },
            primitives,
        },
    }
}

fn chair() -> AssetMetadata {
    AssetMetadata {
        name: "chair".to_string(),
        orientations: vec![
            AssetOrientationEntry {
                orientation: AssetOrientation::East,
                data: AssetOrientationData { images: vec![image("chair-e", vec![])] },
            },
            AssetOrientationEntry {
                orientation: AssetOrientation::West,
                data: AssetOrientationData {
                    images: vec![image("chair-w", vec![]), image("chair-w-arm", vec![])],
                },
            },
        ],
    }
}

#[test]
fn point_converts_to_vector() {
    assert_eq!(pt(3, -4).vec2(), vec2(fx(3), fx(-4)));
}

#[test]
fn get_orientation_finds_supported_orientation() {
    let asset = chair();
    let west = asset.get_orientation(AssetOrientation::West).unwrap();
    assert_eq!(west.images.len(), 2);
    assert_eq!(west.images[0].id, "chair-w");
    let east = asset.get_orientation(AssetOrientation::East).unwrap();
    assert_eq!(east.images.len(), 1);
}

#[test]
fn get_orientation_rejects_unsupported_orientation() {
    let asset = chair();
    match asset.get_orientation(AssetOrientation::North) {
        Err(AssetError::UnsupportedOrientation { asset, orientation }) => {
            assert_eq!(asset, "chair");
            assert_eq!(orientation, AssetOrientation::North);
        }
        _ => panic!("an unsupported orientation must be refused"),
    }
}

#[test]
fn get_primitives_selects_by_type_in_order() {
    let img = image(
        "table",
        vec![
            primitive("a", AssetPrimitiveType::Collider, 1),
            primitive("b", AssetPrimitiveType::Shadow, 2),
            primitive("c", AssetPrimitiveType::Collider, 3),
        ],
    );
    let colliders = img.data.get_primitives(AssetPrimitiveType::Collider).unwrap();
    assert_eq!(colliders.len(), 2);
    assert_eq!(colliders[0].shape.position, pt(1, 0));
    assert_eq!(colliders[1].shape.position, pt(3, 0));
    let shadows = img.data.get_primitives(AssetPrimitiveType::Shadow).unwrap();
    assert_eq!(shadows.len(), 1);
    assert_eq!(shadows[0].shape.position, pt(2, 0));
}

#[test]
fn get_primitives_is_none_without_a_match() {
    let img = image("table", vec![primitive("a", AssetPrimitiveType::Collider, 1)]);
    assert!(img.data.get_primitives(AssetPrimitiveType::Shadow).is_none());
    let bare = image("bare", vec![]);
    assert!(bare.data.get_primitives(AssetPrimitiveType::Collider).is_none());
}

#[test]
fn get_texture_resource_finds_texture_by_name() {
    let asset = Asset {
        metadata: chair(),
        resources: vec![
            AssetResourceEntry { id: "chair-e".to_string(), texture: create_texture_resource(1, vec2(fx(64), fx(32))) },
            AssetResourceEntry { id: "chair-w".to_string(), texture: create_texture_resource(2, vec2(fx(48), fx(16))) },
        ],
    };
    let tex = asset.get_texture_resource(&"chair-w".to_string()).unwrap();
    assert_eq!(tex.id, 2);
    assert_eq!(tex.size, vec2(fx(48), fx(16)));
}

#[test]
fn get_texture_resource_reports_missing_resource() {
    let asset = Asset { metadata: chair(), resources: vec![] };
    match asset.get_texture_resource(&"chair-e".to_string()) {
        Err(AssetError::MissingResource { name }) => assert_eq!(name, "chair-e"),
        _ => panic!("a missing texture must be reported"),
    }
}

#[test]
fn cache_file_name_is_the_digest_in_hex() {
    assert_eq!(
        cache_file_name("hello world"),
        ".cache/b94d27b9934d3e08a52e52d7da7dabfac484efe37a5380ee9088f7ace2efcde9.png"
    );
    assert_eq!(
        cache_file_name(""),
        ".cache/e3b0c44298fc1c149afbf4c8996fb92427ae41e4649b934ca495991b7852b855.png"
    );
}

#[test]
fn cache_file_for_digest_writes_two_digits_per_byte() {
    assert_eq!(cache_file_for_digest(&vec![0x00, 0x0a, 0xf5, 0xff]), ".cache/000af5ff.png");
    assert_eq!(cache_file_for_digest(&vec![]), ".cache/.png");
}

#[test]
fn texture_sources_lists_every_image() {
    let sources = texture_sources(&chair());
    let ids: Vec<&str> = sources.iter().map(|s| s.image_id.as_str()).collect();
    assert_eq!(ids, vec!["chair-e", "chair-w", "chair-w-arm"]);
    assert_eq!(sources[1].url, "https://example.org/chair-w.png");
}
