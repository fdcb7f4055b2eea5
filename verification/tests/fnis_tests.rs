use scene_compiler::compile::CompileError;
use scene_compiler::fnis::make_fnis_line;
use scene_compiler::fnis::make_fnis_lines;
use scene_compiler::fnis::map_race_to_folder;
use scene_compiler::fnis::race_buckets_exec;
use scene_compiler::model::Node;
use scene_compiler::model::Position;
use scene_compiler::model::PositionExtra;
use scene_compiler::model::Scene;
use scene_compiler::model::Sex;
use scene_compiler::model::Stage;
use scene_compiler::model::StageExtra;
use scene_compiler::package::Package;

fn position(events: &[&str], race: &str) -> Position {
    Position {
        event: events.iter().map(|e| e.to_string()).collect(),
        sex: Sex { male: true, female: false, futa: false },
        race: race.to_string(),
        anim_obj: String::new(),
        extra: PositionExtra { climax: false },
    }
}

fn one_scene(id: &str, race: &str, events: &[&str], fixed_len: i32) -> Scene {
    let st = Stage {
        id: format!("{}_st0", id),
        positions: vec![position(events, race)],
        tags: vec![],
        extra: StageExtra { fixed_len },
    };
    Scene {
        id: id.to_string(),
        name: id.to_string(),
        stages: vec![st.clone()],
        graph: vec![Node { id: st.id.clone(), dest: vec![] }],
        root: st.id.clone(),
        positions: st.positions.clone(),
        has_warnings: false,
    }
}

fn package(scenes: Vec<Scene>) -> Package {
    let mut p = Package::new();
    p.pack_name = "pk".to_string();
    p.prefix_hash = "h".to_string();
    p.scenes = scenes;
    p
}

/// A lone event gives one basic line; the format is byte-exact.
#[test]
fn line_basic_format() {
    assert_eq!(make_fnis_line("b", "Ev", "h", "", &vec![]), "b hEv Ev.hkx");
    assert_eq!(make_fnis_line("b", "Ev", "h", "a,Tn", &vec![]), "b -a,Tn hEv Ev.hkx");
    assert_eq!(
        make_fnis_line("s", "Ev", "h", "", &vec!["Torch".to_string()]),
        "s -o hEv Ev.hkx Torch"
    );
    assert_eq!(
        make_fnis_line("+", "Ev", "h", "a,Tn", &vec!["A".to_string(), "B".to_string()]),
        "+ -o,a,Tn hEv Ev.hkx A B"
    );
}

/// A chain is one `s` line and then `+` lines, one per remaining event.
#[test]
fn lines_chain_kinds() {
    let events = vec!["E0".to_string(), "E1".to_string(), "E2".to_string()];
    let lines = make_fnis_lines(&events, "h", false, &vec![]);
    assert_eq!(lines, vec!["s hE0 E0.hkx", "+ hE1 E1.hkx", "+ hE2 E2.hkx"]);
}

/// With a positive fixed duration, only the third (last) line of a
/// three-event chain carries the fixed-duration, non-looping option.
#[test]
fn lines_fixed_len_only_on_last() {
    let events = vec!["E0".to_string(), "E1".to_string(), "E2".to_string()];
    let fixed = make_fnis_lines(&events, "h", true, &vec![]);
    let unfixed = make_fnis_lines(&events, "h", false, &vec![]);
    assert_eq!(fixed[0], unfixed[0]);
    assert_eq!(fixed[1], unfixed[1]);
    assert_eq!(fixed[2], "+ -a,Tn hE2 E2.hkx");
    assert!(!fixed[0].contains("a,Tn"));
    assert!(!fixed[1].contains("a,Tn"));
}

/// A lone fixed event carries the option on its single line.
#[test]
fn lines_fixed_len_single() {
    let events = vec!["E0".to_string()];
    let lines = make_fnis_lines(&events, "h", true, &vec![]);
    assert_eq!(lines, vec!["b -a,Tn hE0 E0.hkx"]);
}

/// The race-to-folder table, including multi-key entries, and its
/// rejection of unknown races.
#[test]
fn race_folder_table() {
    assert_eq!(map_race_to_folder("Human").unwrap(), "character");
    assert_eq!(map_race_to_folder("Dog").unwrap(), "canine");
    assert_eq!(map_race_to_folder("Chaurus Reaper").unwrap(), "chaurus");
    assert_eq!(map_race_to_folder("Ash Hopper").unwrap(), "dlc02\\scrib");
    assert_eq!(map_race_to_folder("Giant Spider").unwrap(), "frostbitespider");
    assert!(map_race_to_folder("Gnome").is_err());
}

/// The alias fan-out: Canine feeds all three canine buckets; a specific
/// canine feeds itself and the generic bucket; others feed themselves.
#[test]
fn race_bucket_fanout() {
    assert_eq!(race_buckets_exec("Canine"), vec!["Canine", "Dog", "Wolf"]);
    assert_eq!(race_buckets_exec("Dog"), vec!["Dog", "Canine"]);
    assert_eq!(race_buckets_exec("Wolf"), vec!["Wolf", "Canine"]);
    assert_eq!(race_buckets_exec("Chaurus Reaper"), vec!["Chaurus"]);
    assert_eq!(race_buckets_exec("Boar (Mounted)"), vec!["Boar (Any)"]);
    assert_eq!(race_buckets_exec("Giant"), vec!["Giant"]);
}

/// Two scenes sharing one identical event id emit that event once across
/// all manifests.
#[test]
fn text_export_global_dedup() {
    let p = package(vec![
        one_scene("sc0", "Human", &["Shared"], 0),
        one_scene("sc1", "Human", &["Shared"], 0),
    ]);
    let manifests = p.compile_text().unwrap();
    let total: usize = manifests.iter().map(|m| m.lines.len()).sum();
    assert_eq!(total, 1);
    assert_eq!(manifests[0].lines[0], "b hShared Shared.hkx");
}

/// The reserved sentinel names are never treated as real events.
#[test]
fn text_export_skips_sentinels() {
    let p = package(vec![one_scene("sc0", "Human", &["__BLANK__"], 0)]);
    let manifests = p.compile_text().unwrap();
    let total: usize = manifests.iter().map(|m| m.lines.len()).sum();
    assert_eq!(total, 0);
}

/// A scene positioned as race Dog contributes its lines to both the Dog
/// and Canine manifests, and not to Wolf.
#[test]
fn text_export_dog_feeds_dog_and_canine() {
    let p = package(vec![one_scene("sc0", "Dog", &["DogEv"], 0)]);
    let manifests = p.compile_text().unwrap();
    let files: Vec<&str> = manifests.iter().map(|m| m.file_name.as_str()).collect();
    assert!(files.contains(&"FNIS_pk_dog_List.txt"));
    assert!(files.contains(&"FNIS_pk_canine_List.txt"));
    assert!(!files.iter().any(|f| f.contains("wolf")));
    for m in &manifests {
        assert_eq!(m.dir, "meshes\\actors\\canine\\animations\\pk");
        assert_eq!(m.lines, vec!["b hDogEv DogEv.hkx"]);
    }
}

/// The generic character folder gets one manifest per package.
#[test]
fn text_export_character_manifest() {
    let p = package(vec![one_scene("sc0", "Human", &["Ev"], 0)]);
    let manifests = p.compile_text().unwrap();
    assert_eq!(manifests.len(), 1);
    assert_eq!(manifests[0].dir, "meshes\\actors\\character\\animations\\pk");
    assert_eq!(manifests[0].file_name, "FNIS_pk_List.txt");
}

/// Every other creature folder names its manifest by the folder's
/// trailing segment.
#[test]
fn text_export_creature_manifest_name() {
    let p = package(vec![one_scene("sc0", "Ash Hopper", &["Ev"], 0)]);
    let manifests = p.compile_text().unwrap();
    assert_eq!(manifests[0].dir, "meshes\\actors\\dlc02\\scrib\\animations\\pk");
    assert_eq!(manifests[0].file_name, "FNIS_pk_scrib_List.txt");
}

/// Warned scenes contribute nothing to the text manifests.
#[test]
fn text_export_skips_warned_scenes() {
    let mut warned = one_scene("sc0", "Human", &["Ev"], 0);
    warned.has_warnings = true;
    let p = package(vec![warned]);
    let manifests = p.compile_text().unwrap();
    assert!(manifests.is_empty());
}

/// The consistency failures: a non-warning scene without stages, a
/// position-count mismatch, a position without events, and an unmapped
/// race, each reported as a recoverable error.
#[test]
fn text_export_error_cases() {
    let mut empty = one_scene("sc0", "Human", &["Ev"], 0);
    empty.stages.clear();
    let r = package(vec![empty]).compile_text();
    assert!(matches!(r, Err(CompileError::SceneWithoutStages { .. })));

    let mut mismatched = one_scene("sc1", "Human", &["Ev"], 0);
    mismatched.positions.push(position(&["Extra"], "Human"));
    let r = package(vec![mismatched]).compile_text();
    assert!(matches!(r, Err(CompileError::PositionCountMismatch { .. })));

    let mut no_event = one_scene("sc2", "Human", &["Ev"], 0);
    no_event.stages[0].positions[0].event.clear();
    let r = package(vec![no_event]).compile_text();
    assert!(matches!(r, Err(CompileError::MissingEvent { .. })));

    let r = package(vec![one_scene("sc3", "Gnome", &["Ev"], 0)]).compile_text();
    match r {
        Err(CompileError::UnmappedRace { race }) => assert_eq!(race, "Gnome"),
        other => panic!("expected an unmapped race, got {:?}", other),
    }
}

/// The animation-object list is comma-split with empty tokens discarded
/// and attached as per-line options.
#[test]
fn text_export_anim_objects() {
    let mut sc = one_scene("sc0", "Human", &["Ev"], 0);
    sc.stages[0].positions[0].anim_obj = "Torch,,Lantern".to_string();
    sc.positions = sc.stages[0].positions.clone();
    let p = package(vec![sc]);
    let manifests = p.compile_text().unwrap();
    assert_eq!(manifests[0].lines, vec!["b -o hEv Ev.hkx Torch Lantern"]);
}

/// A fixed-duration stage with a chain: the option lands on the last
/// line only, end to end through the package export.
#[test]
fn text_export_fixed_chain_end_to_end() {
    let p = package(vec![one_scene("sc0", "Human", &["C0", "C1", "C2"], 2000)]);
    let manifests = p.compile_text().unwrap();
    assert_eq!(
        manifests[0].lines,
        vec!["s hC0 C0.hkx", "+ hC1 C1.hkx", "+ -a,Tn hC2 C2.hkx"]
    );
}
