use scene_compiler::legacy::ImportError;
use scene_compiler::legacy::LegacyActor;
use scene_compiler::legacy::LegacyAnimation;
use scene_compiler::legacy::LegacyDocument;
use scene_compiler::legacy::LegacyStageRecord;
use scene_compiler::legacy::map_legacy_to_racekey;
use scene_compiler::package::CURRENT_VERSION;
use scene_compiler::package::Package;

fn actor(kind: Option<&str>, race: Option<&str>, events: &[&str]) -> LegacyActor {
    LegacyActor {
        actor_type: kind.map(|k| k.to_string()),
        race: race.map(|r| r.to_string()),
        stages: Some(events.iter().map(|e| Some(e.to_string())).collect()),
    }
}

fn animation(name: &str, creature_race: Option<&str>, actors: Vec<LegacyActor>) -> LegacyAnimation {
    LegacyAnimation {
        name: Some(name.to_string()),
        creature_race: creature_race.map(|r| r.to_string()),
        tags: None,
        stage: None,
        actors: Some(actors),
    }
}

fn document(name: &str, animations: Vec<LegacyAnimation>) -> LegacyDocument {
    LegacyDocument { name: Some(name.to_string()), animations: Some(animations) }
}

/// Three actors by two stages: one scene with exactly 2 stages of 3
/// positions each, and a linear graph stage0 -> stage1 -> (nothing).
#[test]
fn import_three_actors_two_stages() {
    let doc = document(
        "pk",
        vec![animation(
            "anim",
            None,
            vec![
                actor(Some("male"), None, &["E0a", "E1a"]),
                actor(Some("female"), None, &["E0b", "E1b"]),
                actor(Some("male"), None, &["E0c", "E1c"]),
            ],
        )],
    );
    let p = Package::from_slal(&doc).unwrap();
    assert_eq!(p.version, CURRENT_VERSION);
    assert_eq!(p.pack_name, "pk");
    assert_eq!(p.scenes.len(), 1);
    let sc = &p.scenes[0];
    assert_eq!(sc.stages.len(), 2);
    assert_eq!(sc.stages[0].positions.len(), 3);
    assert_eq!(sc.stages[1].positions.len(), 3);
    assert_eq!(sc.positions.len(), 3);
    // Linear graph: the root is stage 0, stage 0 leads to stage 1, stage
    // 1 is terminal.
    assert_eq!(sc.root, sc.stages[0].id);
    assert_eq!(sc.graph.len(), 2);
    assert_eq!(sc.graph[0].id, sc.stages[0].id);
    assert_eq!(sc.graph[0].dest, vec![sc.stages[1].id.clone()]);
    assert_eq!(sc.graph[1].id, sc.stages[1].id);
    assert!(sc.graph[1].dest.is_empty());
    // Events land on the right slots.
    assert_eq!(sc.stages[0].positions[1].event, vec!["E0b".to_string()]);
    assert_eq!(sc.stages[1].positions[2].event, vec!["E1c".to_string()]);
    // Climax is marked on every position of the last stage only.
    assert!(sc.stages[1].positions.iter().all(|p| p.extra.climax));
    assert!(sc.stages[0].positions.iter().all(|p| !p.extra.climax));
}

/// A creature actor with no per-actor race falls back to the animation's
/// declared creature race.
#[test]
fn import_creature_race_fallback() {
    let doc = document(
        "pk",
        vec![animation(
            "anim",
            Some("Dog"),
            vec![
                actor(Some("female"), None, &["E0"]),
                actor(Some("creaturemale"), None, &["E1"]),
            ],
        )],
    );
    let p = Package::from_slal(&doc).unwrap();
    let sc = &p.scenes[0];
    assert_eq!(sc.stages[0].positions[0].race, "Human");
    assert_eq!(sc.stages[0].positions[1].race, "Dog");
    assert!(sc.stages[0].positions[1].sex.male);
    assert!(!sc.stages[0].positions[1].sex.female);
}

/// A per-actor race override takes precedence over the animation's race,
/// and legacy names match case-insensitively with a plural form.
#[test]
fn import_creature_race_override_and_plural() {
    let doc = document(
        "pk",
        vec![animation(
            "anim",
            Some("Dog"),
            vec![actor(Some("creaturefemale"), Some("horses"), &["E0"])],
        )],
    );
    let p = Package::from_slal(&doc).unwrap();
    assert_eq!(p.scenes[0].stages[0].positions[0].race, "Horse");
    assert!(p.scenes[0].stages[0].positions[0].sex.female);
}

/// An unmapped legacy race string makes the whole import fail.
#[test]
fn import_unmapped_race_fails() {
    let doc = document(
        "pk",
        vec![animation(
            "anim",
            Some("Imp"),
            vec![actor(Some("creaturemale"), None, &["E0"])],
        )],
    );
    let r = Package::from_slal(&doc);
    assert!(matches!(r, Err(ImportError::UnknownLegacyRace { .. })));
}

/// An unrecognized actor type token is a hard failure.
#[test]
fn import_unknown_actor_kind_fails() {
    let doc = document(
        "pk",
        vec![animation("anim", None, vec![actor(Some("robot"), None, &["E0"])])],
    );
    let r = Package::from_slal(&doc);
    match r {
        Err(ImportError::UnknownActorKind { kind }) => assert_eq!(kind, "robot"),
        other => panic!("expected an unknown actor kind, got {:?}", other),
    }
}

/// A missing type field defaults to the male kind with race Human.
#[test]
fn import_missing_type_defaults_to_male() {
    let doc = document("pk", vec![animation("anim", None, vec![actor(None, None, &["E0"])])]);
    let p = Package::from_slal(&doc).unwrap();
    let pos = &p.scenes[0].stages[0].positions[0];
    assert!(pos.sex.male);
    assert_eq!(pos.race, "Human");
}

/// The literal token `type` counts as male; tokens match after
/// lower-casing.
#[test]
fn import_type_token_and_case() {
    let doc = document(
        "pk",
        vec![animation(
            "anim",
            None,
            vec![actor(Some("TYPE"), None, &["E0"]), actor(Some("Female"), None, &["E1"])],
        )],
    );
    let p = Package::from_slal(&doc).unwrap();
    assert!(p.scenes[0].stages[0].positions[0].sex.male);
    assert!(p.scenes[0].stages[0].positions[1].sex.female);
}

/// Tags are comma-split, lower-cased and trimmed per token, and shared
/// identically by every stage of the scene.
#[test]
fn import_tags_shared_by_stages() {
    let mut anim = animation("anim", None, vec![actor(Some("male"), None, &["E0", "E1"])]);
    anim.tags = Some("Loop , FORWARD,idle".to_string());
    let doc = document("pk", vec![anim]);
    let p = Package::from_slal(&doc).unwrap();
    let want = vec!["loop".to_string(), "forward".to_string(), "idle".to_string()];
    assert_eq!(p.scenes[0].stages[0].tags, want);
    assert_eq!(p.scenes[0].stages[1].tags, want);
}

/// A missing or empty tag string gives the empty tag set.
#[test]
fn import_empty_tags() {
    let mut anim = animation("anim", None, vec![actor(Some("male"), None, &["E0"])]);
    anim.tags = Some(String::new());
    let doc = document("pk", vec![anim]);
    let p = Package::from_slal(&doc).unwrap();
    assert!(p.scenes[0].stages[0].tags.is_empty());
}

/// Per-stage fixed durations come from the override records; stages
/// without a matching record stay unfixed.
#[test]
fn import_stage_fixed_durations() {
    let mut anim = animation("anim", None, vec![actor(Some("male"), None, &["E0", "E1", "E2"])]);
    anim.stage = Some(vec![
        LegacyStageRecord { number: Some(1), timer_ms: Some(1500) },
        LegacyStageRecord { number: Some(7), timer_ms: Some(9000) },
        LegacyStageRecord { number: None, timer_ms: Some(4) },
    ]);
    let doc = document("pk", vec![anim]);
    let p = Package::from_slal(&doc).unwrap();
    let sc = &p.scenes[0];
    assert_eq!(sc.stages[0].extra.fixed_len, 0);
    assert_eq!(sc.stages[1].extra.fixed_len, 1500);
    assert_eq!(sc.stages[2].extra.fixed_len, 0);
}

/// The document-level failure cases, one per error variant.
#[test]
fn import_document_failures() {
    let r = Package::from_slal(&LegacyDocument { name: None, animations: Some(vec![]) });
    assert!(matches!(r, Err(ImportError::MissingPackName)));

    let r = Package::from_slal(&LegacyDocument { name: Some("pk".to_string()), animations: None });
    assert!(matches!(r, Err(ImportError::MissingAnimations)));

    let mut anim = animation("anim", None, vec![actor(Some("male"), None, &["E0"])]);
    anim.name = None;
    let r = Package::from_slal(&document("pk", vec![anim]));
    assert!(matches!(r, Err(ImportError::MissingAnimationName { animation: 0 })));

    let mut anim = animation("anim", None, vec![]);
    anim.actors = None;
    let r = Package::from_slal(&document("pk", vec![anim]));
    assert!(matches!(r, Err(ImportError::MissingActors { animation: 0 })));

    let r = Package::from_slal(&document("pk", vec![animation("anim", None, vec![])]));
    assert!(matches!(r, Err(ImportError::SceneWithoutStages { animation: 0 })));

    let r = Package::from_slal(&document(
        "pk",
        vec![animation("anim", None, vec![actor(Some("male"), None, &[])])],
    ));
    assert!(matches!(r, Err(ImportError::SceneWithoutStages { animation: 0 })));

    let mut bad = actor(Some("male"), None, &["E1"]);
    bad.stages = None;
    let r = Package::from_slal(&document(
        "pk",
        vec![animation("anim", None, vec![actor(Some("male"), None, &["E0"]), bad])],
    ));
    assert!(matches!(r, Err(ImportError::MissingStages { animation: 0, actor: 1 })));

    let r = Package::from_slal(&document(
        "pk",
        vec![animation(
            "anim",
            None,
            vec![actor(Some("male"), None, &["E0", "E1"]), actor(Some("male"), None, &["E2"])],
        )],
    ));
    assert!(matches!(r, Err(ImportError::UnevenStageCounts { animation: 0, actor: 1 })));

    let mut bad = actor(Some("male"), None, &["E0"]);
    bad.stages = Some(vec![None]);
    let r = Package::from_slal(&document("pk", vec![animation("anim", None, vec![bad])]));
    assert!(matches!(
        r,
        Err(ImportError::MissingEventId { animation: 0, actor: 0, stage: 0 })
    ));
}

/// Generated scene identifiers are distinct across animations.
#[test]
fn import_scene_ids_distinct() {
    let doc = document(
        "pk",
        vec![
            animation("a0", None, vec![actor(Some("male"), None, &["E0"])]),
            animation("a1", None, vec![actor(Some("male"), None, &["E1"])]),
        ],
    );
    let p = Package::from_slal(&doc).unwrap();
    assert_eq!(p.scenes.len(), 2);
    assert_ne!(p.scenes[0].id, p.scenes[1].id);
}

/// The legacy race lookup is case-insensitive and rejects unknown names.
#[test]
fn legacy_racekey_lookup() {
    assert_eq!(map_legacy_to_racekey("wolf").unwrap(), "Wolf");
    assert_eq!(map_legacy_to_racekey("CHAURUS REAPER").unwrap(), "Chaurus Reaper");
    assert_eq!(map_legacy_to_racekey("dogs").unwrap(), "Dog");
    assert!(map_legacy_to_racekey("gnome").is_err());
}
