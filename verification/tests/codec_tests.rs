use scene_compiler::codec::EncodeBinary;
use scene_compiler::model::Node;
use scene_compiler::model::Position;
use scene_compiler::model::PositionExtra;
use scene_compiler::model::Scene;
use scene_compiler::model::Sex;
use scene_compiler::model::Stage;
use scene_compiler::model::StageExtra;
use scene_compiler::package::Package;

fn position(event: &str, race: &str, climax: bool) -> Position {
    Position {
        event: vec![event.to_string()],
        sex: Sex { male: true, female: false, futa: false },
        race: race.to_string(),
        anim_obj: String::new(),
        extra: PositionExtra { climax },
    }
}

fn stage(id: &str, events: &[&str], race: &str, fixed_len: i32) -> Stage {
    Stage {
        id: id.to_string(),
        positions: events.iter().map(|e| position(e, race, false)).collect(),
        tags: vec!["loop".to_string()],
        extra: StageExtra { fixed_len },
    }
}

fn scene(id: &str, race: &str, events: &[&str], has_warnings: bool) -> Scene {
    let st = stage("st0", events, race, 0);
    Scene {
        id: id.to_string(),
        name: format!("scene {}", id),
        stages: vec![st.clone()],
        graph: vec![Node { id: "st0".to_string(), dest: vec![] }],
        root: "st0".to_string(),
        positions: st.positions.clone(),
        has_warnings,
    }
}

/// Size/write symmetry for every primitive encodable value.
#[test]
fn size_write_symmetry_primitives() {
    let mut buf: Vec<u8> = Vec::new();
    7u8.write_byte(&mut buf);
    assert_eq!(buf.len(), 7u8.get_byte_size());
    assert_eq!(buf, vec![7]);

    let mut buf: Vec<u8> = Vec::new();
    0xA1B2C3D4u32.write_byte(&mut buf);
    assert_eq!(buf.len(), 0xA1B2C3D4u32.get_byte_size());
    assert_eq!(buf, vec![0xA1, 0xB2, 0xC3, 0xD4]);

    let mut buf: Vec<u8> = Vec::new();
    0x0102030405060708u64.write_byte(&mut buf);
    assert_eq!(buf.len(), 0x0102030405060708u64.get_byte_size());
    assert_eq!(buf, vec![1, 2, 3, 4, 5, 6, 7, 8]);

    let mut buf: Vec<u8> = Vec::new();
    true.write_byte(&mut buf);
    false.write_byte(&mut buf);
    assert_eq!(buf, vec![1, 0]);
    assert_eq!(true.get_byte_size() + false.get_byte_size(), 2);
}

/// Text: 8-byte big-endian length prefix plus the raw UTF-8 bytes.
#[test]
fn size_write_symmetry_string() {
    let s = "hello".to_string();
    let mut buf: Vec<u8> = Vec::new();
    s.write_byte(&mut buf);
    assert_eq!(buf.len(), s.get_byte_size());
    assert_eq!(buf, vec![0, 0, 0, 0, 0, 0, 0, 5, b'h', b'e', b'l', b'l', b'o']);
}

/// A sequence: 8-byte count prefix plus each element's image, in order.
#[test]
fn size_write_symmetry_vec() {
    let v: Vec<String> = vec!["ab".to_string(), "c".to_string()];
    let mut buf: Vec<u8> = Vec::new();
    v.write_byte(&mut buf);
    assert_eq!(buf.len(), v.get_byte_size());
    assert_eq!(buf[7], 2);
    assert_eq!(&buf[8..18], &[0, 0, 0, 0, 0, 0, 0, 2, b'a', b'b']);
}

/// Size/write symmetry for a whole package.
#[test]
fn size_write_symmetry_package() {
    let mut p = Package::new();
    p.pack_name = "pack".to_string();
    p.prefix_hash = "PFX".to_string();
    p.scenes.push(scene("sc0", "Human", &["EvA"], false));
    p.scenes.push(scene("sc1", "Human", &["EvB"], true));
    let buf = p.compile_binary();
    assert_eq!(buf.len(), p.get_byte_size());
}

/// The fixed-point millis encoding of 1.2345 seconds is the signed
/// big-endian representation of 1235.
#[test]
fn float_millis_round_trip() {
    let millis: i32 = (1.2345f32 * 1000.0).round() as i32;
    assert_eq!(millis, 1235);
    let mut buf: Vec<u8> = Vec::new();
    millis.write_byte(&mut buf);
    assert_eq!(buf, 1235i32.to_be_bytes().to_vec());
    assert_eq!(buf.len(), millis.get_byte_size());
}

/// -0.0005 seconds rounds to the nearest representable millis integer.
#[test]
fn float_millis_negative_rounding() {
    let millis: i32 = (-0.0005f32 * 1000.0).round() as i32;
    assert_eq!(millis, -1);
    let mut buf: Vec<u8> = Vec::new();
    millis.write_byte(&mut buf);
    assert_eq!(buf, (-1i32).to_be_bytes().to_vec());
}

/// Binary export omits every scene with warnings or an empty stage list,
/// and never omits a qualifying scene.
#[test]
fn binary_export_scene_filter() {
    let mut p = Package::new();
    p.pack_name = "pk".to_string();
    p.pack_author = "au".to_string();
    p.prefix_hash = "px".to_string();
    let good = scene("good", "Human", &["EvG"], false);
    let warned = scene("warned", "Human", &["EvW"], true);
    let mut empty = scene("empty", "Human", &["EvE"], false);
    empty.stages.clear();
    p.scenes.push(warned);
    p.scenes.push(good.clone());
    p.scenes.push(empty);

    let buf = p.compile_binary();
    // version byte, three length-prefixed strings, then the 8-byte count
    // of qualifying scenes.
    let head = 1 + (8 + 2) + (8 + 2) + (8 + 2);
    let count = u64::from_be_bytes(buf[head..head + 8].try_into().unwrap());
    assert_eq!(count, 1);

    // The one qualifying scene's image follows completely.
    let mut scene_bytes: Vec<u8> = Vec::new();
    good.write_byte(&mut scene_bytes);
    assert_eq!(&buf[head + 8..], &scene_bytes[..]);
}

/// An empty package still writes its header and a zero scene count.
#[test]
fn binary_export_empty_package() {
    let p = Package::new();
    let buf = p.compile_binary();
    assert_eq!(buf.len(), p.get_byte_size());
    assert_eq!(*buf.last().unwrap(), 0);
}

/// The registry file name falls back to the prefix token when the
/// package has no name.
#[test]
fn registry_file_name_fallback() {
    let mut p = Package::new();
    p.prefix_hash = "tok".to_string();
    assert_eq!(p.registry_file_name(), "tok.slr");
    p.pack_name = "named".to_string();
    assert_eq!(p.registry_file_name(), "named.slr");
}
