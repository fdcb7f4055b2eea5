use scene_compiler::model::Node;
use scene_compiler::model::Position;
use scene_compiler::model::PositionExtra;
use scene_compiler::model::Scene;
use scene_compiler::model::Sex;
use scene_compiler::model::Stage;
use scene_compiler::model::StageExtra;
use scene_compiler::package::CURRENT_VERSION;
use scene_compiler::package::OffsetEntry;
use scene_compiler::package::Package;
use scene_compiler::text::to_lower;
use scene_compiler::text::trim_exec;
use scene_compiler::text::split_commas_exec;

fn scene(id: &str, stage_id: &str) -> Scene {
    let st = Stage {
        id: stage_id.to_string(),
        positions: vec![Position {
            event: vec!["Ev".to_string()],
            sex: Sex { male: true, female: false, futa: false },
            race: "Human".to_string(),
            anim_obj: String::new(),
            extra: PositionExtra { climax: false },
        }],
        tags: vec![],
        extra: StageExtra { fixed_len: 0 },
    };
    Scene {
        id: id.to_string(),
        name: format!("scene {}", id),
        stages: vec![st.clone()],
        graph: vec![Node { id: stage_id.to_string(), dest: vec![] }],
        root: stage_id.to_string(),
        positions: st.positions.clone(),
        has_warnings: false,
    }
}

/// A fresh package: current version, unknown author, no scenes.
#[test]
fn new_package_defaults() {
    let p = Package::new();
    assert_eq!(p.version, CURRENT_VERSION);
    assert_eq!(p.pack_name, "");
    assert_eq!(p.pack_author, "Unknown");
    assert!(p.scenes.is_empty());
}

/// Saving inserts a new scene and replaces a scene with the same id.
#[test]
fn save_scene_insert_and_replace() {
    let mut p = Package::new();
    let stored = p.save_scene(scene("sc0", "st0"));
    assert_eq!(stored.id, "sc0");
    p.save_scene(scene("sc1", "st1"));
    assert_eq!(p.scenes.len(), 2);

    let mut replacement = scene("sc0", "st9");
    replacement.name = "renamed".to_string();
    p.save_scene(replacement);
    assert_eq!(p.scenes.len(), 2);
    assert_eq!(p.get_scene(&"sc0".to_string()).unwrap().name, "renamed");
}

/// Discarding removes and returns the scene; an unknown id is None.
#[test]
fn discard_scene_behavior() {
    let mut p = Package::new();
    p.save_scene(scene("sc0", "st0"));
    let removed = p.discard_scene(&"sc0".to_string()).unwrap();
    assert_eq!(removed.id, "sc0");
    assert!(p.scenes.is_empty());
    assert!(p.discard_scene(&"sc0".to_string()).is_none());
}

/// Lookup by scene id, shared and mutable.
#[test]
fn get_scene_and_mut() {
    let mut p = Package::new();
    p.save_scene(scene("sc0", "st0"));
    assert!(p.get_scene(&"missing".to_string()).is_none());
    let sc = p.get_scene_mut(&"sc0".to_string()).unwrap();
    sc.name = "edited".to_string();
    assert_eq!(p.get_scene(&"sc0".to_string()).unwrap().name, "edited");
}

/// Stage lookup searches across every scene of the package.
#[test]
fn get_stage_across_scenes() {
    let mut p = Package::new();
    p.save_scene(scene("sc0", "stA"));
    p.save_scene(scene("sc1", "stB"));
    assert_eq!(p.get_stage(&"stB".to_string()).unwrap().id, "stB");
    assert!(p.get_stage(&"stC".to_string()).is_none());
}

/// Reset replaces the package wholesale with a fresh one.
#[test]
fn reset_package() {
    let mut p = Package::new();
    p.pack_name = "old".to_string();
    p.save_scene(scene("sc0", "st0"));
    p.reset();
    assert_eq!(p.pack_name, "");
    assert!(p.scenes.is_empty());
    assert_eq!(p.version, CURRENT_VERSION);
}

/// Migration stamps the package with the current schema version and
/// keeps every scene.
#[test]
fn migration_stamps_version() {
    let mut p = Package::new();
    p.version = 0;
    p.save_scene(scene("sc0", "st0"));
    p.update_to_latest_version().unwrap();
    assert_eq!(p.version, CURRENT_VERSION);
    assert_eq!(p.scenes.len(), 1);
}

/// The project name comes from the file name, cut at the project-file
/// extension.
#[test]
fn project_name_from_file_name() {
    let mut p = Package::new();
    p.set_project_name_from_path("MyPack.slsb.json");
    assert_eq!(p.pack_name, "MyPack");
    p.set_project_name_from_path("bare-name");
    assert_eq!(p.pack_name, "bare-name");
}

/// Offset import: mapping entries naming known scenes are applied, in
/// order; non-mappings and unknown scenes are skipped; a mapping entry
/// without a string key fails the whole import.
#[test]
fn offset_import_plan() {
    let mut p = Package::new();
    p.save_scene(scene("sc0", "st0"));
    p.save_scene(scene("sc1", "st1"));
    let entries = vec![
        OffsetEntry { scene_id: Some("sc1".to_string()), is_mapping: true },
        OffsetEntry { scene_id: Some("ghost".to_string()), is_mapping: true },
        OffsetEntry { scene_id: Some("sc0".to_string()), is_mapping: false },
        OffsetEntry { scene_id: Some("sc0".to_string()), is_mapping: true },
    ];
    let ids = p.import_offset(&entries).unwrap();
    assert_eq!(ids, vec!["sc1".to_string(), "sc0".to_string()]);

    let bad = vec![OffsetEntry { scene_id: None, is_mapping: true }];
    assert!(p.import_offset(&bad).is_err());

    let skipped = vec![OffsetEntry { scene_id: None, is_mapping: false }];
    assert!(p.import_offset(&skipped).unwrap().is_empty());
}

/// The text helpers: ASCII lowercasing, trimming and comma splitting.
#[test]
fn text_helpers() {
    assert_eq!(to_lower("AbC-9"), "abc-9");
    assert_eq!(trim_exec("  padded\t"), "padded");
    assert_eq!(trim_exec(""), "");
    assert_eq!(split_commas_exec("a,b,,c"), vec!["a", "b", "", "c"]);
    assert_eq!(split_commas_exec(""), vec![""]);
}
