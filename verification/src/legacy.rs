//! Legacy-format ingestion: reconstructs structured scenes from a
//! loosely-typed legacy animation-list document. The document arrives as
//! a validated intermediate schema of plain optional values; every
//! decision on defaults, classification and failure is made, and proved,
//! here. The import is all-or-nothing: any missing field, unknown actor
//! kind or unmapped legacy race aborts the whole import.
use vstd::prelude::*;

use crate::compile::clone_string_vec;
use crate::model::Position;
use crate::model::PositionExtra;
use crate::model::Scene;
use crate::model::Sex;
use crate::model::Stage;
use crate::model::StageExtra;
use crate::model::Node;
use crate::text::dec_digits;
use crate::text::lower;
use crate::text::push_char;
use crate::text::push_decimal;
use crate::text::split_commas;
use crate::text::str_eq;
use crate::text::to_lower;
use crate::text::trim;
use crate::text::trim_exec;
use vstd::string::StrSliceExecFns;
use vstd::string::StringExecFns;

verus! {

/// One per-stage override record of the legacy document: a stage number
/// and a fixed duration in fixed-point milliseconds, either possibly
/// missing or mistyped in the source document.
#[derive(Debug, Clone, PartialEq, Eq)]
pub struct LegacyStageRecord {
    pub number: Option<i64>,
    pub timer_ms: Option<i32>,
}

/// One actor entry: its type token, an optional per-actor race override,
/// and one event id per stage (absent when the document held none).
#[derive(Debug, Clone, PartialEq, Eq)]
pub struct LegacyActor {
    pub actor_type: Option<String>,
    pub race: Option<String>,
    pub stages: Option<Vec<Option<String>>>,
}

/// One animation entry of the legacy document.
#[derive(Debug, Clone, PartialEq, Eq)]
pub struct LegacyAnimation {
    pub name: Option<String>,
    pub creature_race: Option<String>,
    pub tags: Option<String>,
    pub stage: Option<Vec<LegacyStageRecord>>,
    pub actors: Option<Vec<LegacyActor>>,
}

/// The whole legacy document: package name and animation list.
#[derive(Debug, Clone, PartialEq, Eq)]
pub struct LegacyDocument {
    pub name: Option<String>,
    pub animations: Option<Vec<LegacyAnimation>>,
}

/// A fatal condition met while importing a legacy document.
#[derive(Debug, Clone, PartialEq, Eq)]
pub enum ImportError {
    /// The document has no package name.
    MissingPackName,
    /// The document has no animation list.
    MissingAnimations,
    /// An animation entry has no name.
    MissingAnimationName { animation: usize },
    /// An animation entry has no actor list.
    MissingActors { animation: usize },
    /// An actor entry has no stage-event list.
    MissingStages { animation: usize, actor: usize },
    /// A stage entry of an actor has no event id.
    MissingEventId { animation: usize, actor: usize, stage: usize },
    /// An actor's type token is not one of the recognized kinds.
    UnknownActorKind { kind: String },
    /// A legacy race name with no race-key entry.
    UnknownLegacyRace { race: String },
    /// An animation with no actors, or whose first actor has no stages.
    SceneWithoutStages { animation: usize },
    /// An actor whose stage count differs from the first actor's.
    UnevenStageCounts { animation: usize, actor: usize },
}

/// The race-key table for lowercased legacy race names.
pub open spec fn legacy_direct(low: Seq<char>) -> Option<Seq<char>> {
    if low == "human"@ {
        Some("Human"@)
    } else if low == "ash hopper"@ {
        Some("Ash Hopper"@)
    } else if low == "bear"@ {
        Some("Bear"@)
    } else if low == "boar"@ {
        Some("Boar"@)
    } else if low == "boar (any)"@ {
        Some("Boar (Any)"@)
    } else if low == "boar (mounted)"@ {
        Some("Boar (Mounted)"@)
    } else if low == "canine"@ {
        Some("Canine"@)
    } else if low == "dog"@ {
        Some("Dog"@)
    } else if low == "wolf"@ {
        Some("Wolf"@)
    } else if low == "fox"@ {
        Some("Fox"@)
    } else if low == "chaurus"@ {
        Some("Chaurus"@)
    } else if low == "chaurus reaper"@ {
        Some("Chaurus Reaper"@)
    } else if low == "chaurus hunter"@ {
        Some("Chaurus Hunter"@)
    } else if low == "chicken"@ {
        Some("Chicken"@)
    } else if low == "cow"@ {
        Some("Cow"@)
    } else if low == "deer"@ {
        Some("Deer"@)
    } else if low == "dragon priest"@ {
        Some("Dragon Priest"@)
    } else if low == "dragon"@ {
        Some("Dragon"@)
    } else if low == "draugr"@ {
        Some("Draugr"@)
    } else if low == "dwarven ballista"@ {
        Some("Dwarven Ballista"@)
    } else if low == "dwarven centurion"@ {
        Some("Dwarven Centurion"@)
    } else if low == "dwarven sphere"@ {
        Some("Dwarven Sphere"@)
    } else if low == "dwarven spider"@ {
        Some("Dwarven Spider"@)
    } else if low == "falmer"@ {
        Some("Falmer"@)
    } else if low == "flame atronach"@ {
        Some("Flame Atronach"@)
    } else if low == "frost atronach"@ {
        Some("Frost Atronach"@)
    } else if low == "storm atronach"@ {
        Some("Storm Atronach"@)
    } else if low == "gargoyle"@ {
        Some("Gargoyle"@)
    } else if low == "giant"@ {
        Some("Giant"@)
    } else if low == "goat"@ {
        Some("Goat"@)
    } else if low == "hagraven"@ {
        Some("Hagraven"@)
    } else if low == "horker"@ {
        Some("Horker"@)
    } else if low == "horse"@ {
        Some("Horse"@)
    } else if low == "ice wraith"@ {
        Some("Ice Wraith"@)
    } else if low == "lurker"@ {
        Some("Lurker"@)
    } else if low == "mammoth"@ {
        Some("Mammoth"@)
    } else if low == "mudcrab"@ {
        Some("Mudcrab"@)
    } else if low == "netch"@ {
        Some("Netch"@)
    } else if low == "rabbit"@ {
        Some("Rabbit"@)
    } else if low == "riekling"@ {
        Some("Riekling"@)
    } else if low == "sabrecat"@ {
        Some("Sabrecat"@)
    } else if low == "seeker"@ {
        Some("Seeker"@)
    } else if low == "skeever"@ {
        Some("Skeever"@)
    } else if low == "slaughterfish"@ {
        Some("Slaughterfish"@)
    } else if low == "spider"@ {
        Some("Spider"@)
    } else if low == "large spider"@ {
        Some("Large Spider"@)
    } else if low == "giant spider"@ {
        Some("Giant Spider"@)
    } else if low == "spriggan"@ {
        Some("Spriggan"@)
    } else if low == "troll"@ {
        Some("Troll"@)
    } else if low == "vampire lord"@ {
        Some("Vampire Lord"@)
    } else if low == "werewolf"@ {
        Some("Werewolf"@)
    } else if low == "wispmother"@ {
        Some("Wispmother"@)
    } else if low == "wisp"@ {
        Some("Wisp"@)
    } else {
        None
    }
}

/// The race key of a legacy race name: matched case-insensitively against
/// the known race keys, with a plural form (a trailing `s`) accepted too.
pub open spec fn legacy_racekey(s: Seq<char>) -> Option<Seq<char>> {
    let low = lower(s);
    if legacy_direct(low) is Some {
        legacy_direct(low)
    } else if low.len() > 0 && low.last() == 's' && legacy_direct(low.drop_last()) is Some {
        legacy_direct(low.drop_last())
    } else {
        None
    }
}

/// Looks a lowercased legacy race name up in the race-key table.
fn legacy_direct_exec(low: &str) -> (r: Option<String>)
    ensures
        ({
            match r {
                Some(k) => legacy_direct(low@) == Some(k@),
                None => legacy_direct(low@) is None,
            }
        }),
{
    if str_eq(low, "human") {
        Some("Human".to_owned())
    } else if str_eq(low, "ash hopper") {
        Some("Ash Hopper".to_owned())
    } else if str_eq(low, "bear") {
        Some("Bear".to_owned())
    } else if str_eq(low, "boar") {
        Some("Boar".to_owned())
    } else if str_eq(low, "boar (any)") {
        Some("Boar (Any)".to_owned())
    } else if str_eq(low, "boar (mounted)") {
        Some("Boar (Mounted)".to_owned())
    } else if str_eq(low, "canine") {
        Some("Canine".to_owned())
    } else if str_eq(low, "dog") {
        Some("Dog".to_owned())
    } else if str_eq(low, "wolf") {
        Some("Wolf".to_owned())
    } else if str_eq(low, "fox") {
        Some("Fox".to_owned())
    } else if str_eq(low, "chaurus") {
        Some("Chaurus".to_owned())
    } else if str_eq(low, "chaurus reaper") {
        Some("Chaurus Reaper".to_owned())
    } else if str_eq(low, "chaurus hunter") {
        Some("Chaurus Hunter".to_owned())
    } else if str_eq(low, "chicken") {
        Some("Chicken".to_owned())
    } else if str_eq(low, "cow") {
        Some("Cow".to_owned())
    } else if str_eq(low, "deer") {
        Some("Deer".to_owned())
    } else if str_eq(low, "dragon priest") {
        Some("Dragon Priest".to_owned())
    } else if str_eq(low, "dragon") {
        Some("Dragon".to_owned())
    } else if str_eq(low, "draugr") {
        Some("Draugr".to_owned())
    } else if str_eq(low, "dwarven ballista") {
        Some("Dwarven Ballista".to_owned())
    } else if str_eq(low, "dwarven centurion") {
        Some("Dwarven Centurion".to_owned())
    } else if str_eq(low, "dwarven sphere") {
        Some("Dwarven Sphere".to_owned())
    } else if str_eq(low, "dwarven spider") {
        Some("Dwarven Spider".to_owned())
    } else if str_eq(low, "falmer") {
        Some("Falmer".to_owned())
    } else if str_eq(low, "flame atronach") {
        Some("Flame Atronach".to_owned())
    } else if str_eq(low, "frost atronach") {
        Some("Frost Atronach".to_owned())
    } else if str_eq(low, "storm atronach") {
        Some("Storm Atronach".to_owned())
    } else if str_eq(low, "gargoyle") {
        Some("Gargoyle".to_owned())
    } else if str_eq(low, "giant") {
        Some("Giant".to_owned())
    } else if str_eq(low, "goat") {
        Some("Goat".to_owned())
    } else if str_eq(low, "hagraven") {
        Some("Hagraven".to_owned())
    } else if str_eq(low, "horker") {
        Some("Horker".to_owned())
    } else if str_eq(low, "horse") {
        Some("Horse".to_owned())
    } else if str_eq(low, "ice wraith") {
        Some("Ice Wraith".to_owned())
    } else if str_eq(low, "lurker") {
        Some("Lurker".to_owned())
    } else if str_eq(low, "mammoth") {
        Some("Mammoth".to_owned())
    } else if str_eq(low, "mudcrab") {
        Some("Mudcrab".to_owned())
    } else if str_eq(low, "netch") {
        Some("Netch".to_owned())
    } else if str_eq(low, "rabbit") {
        Some("Rabbit".to_owned())
    } else if str_eq(low, "riekling") {
        Some("Riekling".to_owned())
    } else if str_eq(low, "sabrecat") {
        Some("Sabrecat".to_owned())
    } else if str_eq(low, "seeker") {
        Some("Seeker".to_owned())
    } else if str_eq(low, "skeever") {
        Some("Skeever".to_owned())
    } else if str_eq(low, "slaughterfish") {
        Some("Slaughterfish".to_owned())
    } else if str_eq(low, "spider") {
        Some("Spider".to_owned())
    } else if str_eq(low, "large spider") {
        Some("Large Spider".to_owned())
    } else if str_eq(low, "giant spider") {
        Some("Giant Spider".to_owned())
    } else if str_eq(low, "spriggan") {
        Some("Spriggan".to_owned())
    } else if str_eq(low, "troll") {
        Some("Troll".to_owned())
    } else if str_eq(low, "vampire lord") {
        Some("Vampire Lord".to_owned())
    } else if str_eq(low, "werewolf") {
        Some("Werewolf".to_owned())
    } else if str_eq(low, "wispmother") {
        Some("Wispmother".to_owned())
    } else if str_eq(low, "wisp") {
        Some("Wisp".to_owned())
    } else {
        None
    }
}

/// Maps a legacy race name to its race key; an unknown name is an error,
/// exactly when [`legacy_racekey`] has no entry for it.
pub fn map_legacy_to_racekey(race: &str) -> (r: Result<String, ImportError>)
    ensures
        ({
            match r {
                Ok(k) => legacy_racekey(race@) == Some(k@),
                Err(e) => legacy_racekey(race@) is None && match e {
                    ImportError::UnknownLegacyRace { race: rr } => rr@ == race@,
                    _ => false,
                },
            }
        }),
{
    let low = to_lower(race);
    match legacy_direct_exec(low.as_str()) {
        Some(k) => Ok(k),
        None => {
            let n: usize = low.as_str().unicode_len();
            if n > 0 && low.as_str().get_char(n - 1) == 's' {
                let stem: &str = low.as_str().substring_char(0, n - 1);
                proof {
                    assert(stem@ =~= lower(race@).drop_last());
                }
                match legacy_direct_exec(stem) {
                    Some(k) => Ok(k),
                    None => Err(ImportError::UnknownLegacyRace { race: race.to_owned() }),
                }
            } else {
                Err(ImportError::UnknownLegacyRace { race: race.to_owned() })
            }
        }
    }
}


/// The actor's classification token: the lower-cased type field, with a
/// missing field defaulting to the male kind.
pub open spec fn kind_of(actor: LegacyActor) -> Seq<char> {
    match actor.actor_type {
        Option::Some(k) => lower(k@),
        Option::None => "male"@,
    }
}

/// The sex flags of a classification token; `None` for an unknown token.
/// The literal token `type` counts as male.
pub open spec fn sex_of(kl: Seq<char>) -> Option<Sex> {
    if kl == "male"@ || kl == "type"@ {
        Some(Sex { male: true, female: false, futa: false })
    } else if kl == "female"@ {
        Some(Sex { male: false, female: true, futa: false })
    } else if kl == "creaturemale"@ {
        Some(Sex { male: true, female: false, futa: false })
    } else if kl == "creaturefemale"@ {
        Some(Sex { male: false, female: true, futa: false })
    } else {
        None
    }
}

/// Whether the token names a creature kind, whose race comes from the
/// legacy race lookup instead of being forced to `Human`.
pub open spec fn is_creature(kl: Seq<char>) -> bool {
    kl == "creaturemale"@ || kl == "creaturefemale"@
}

/// The legacy race name an actor resolves against: its own race field,
/// falling back to the animation's declared creature race, then to the
/// empty name.
pub open spec fn effective_race(actor: LegacyActor, crt: Option<String>) -> Seq<char> {
    match actor.race {
        Option::Some(r) => r@,
        Option::None => match crt {
            Option::Some(c) => c@,
            Option::None => Seq::empty(),
        },
    }
}

/// The race key of an actor: `Human` for the human kinds, the legacy
/// race lookup for the creature kinds; `None` when the lookup fails.
pub open spec fn race_of(actor: LegacyActor, crt: Option<String>) -> Option<Seq<char>> {
    if is_creature(kind_of(actor)) {
        legacy_racekey(effective_race(actor, crt))
    } else {
        Some("Human"@)
    }
}

/// The tag set of an animation: the comma-separated tag string,
/// lower-cased, trimmed per token; an empty or missing string gives the
/// empty set.
pub open spec fn tags_of(tags: Option<String>) -> Seq<Seq<char>> {
    match tags {
        Option::None => Seq::empty(),
        Option::Some(s) => if s@.len() == 0 {
            Seq::empty()
        } else {
            Seq::new(
                split_commas(lower(s@)).len(),
                |k: int| trim(split_commas(lower(s@))[k]),
            )
        },
    }
}

/// The fixed duration of stage `t` per the override records: the last
/// record whose number matches wins; a matching record without a timer,
/// or no matching record at all, leaves the stage unfixed.
pub open spec fn fixed_of_rec(rs: Seq<LegacyStageRecord>, t: int) -> i32
    decreases rs.len(),
{
    if rs.len() == 0 {
        0
    } else if rs.last().number is Some && rs.last().number->0 == t {
        match rs.last().timer_ms {
            Option::Some(x) => x,
            Option::None => 0,
        }
    } else {
        fixed_of_rec(rs.drop_last(), t)
    }
}

/// The fixed duration of stage `t`, with no records meaning unfixed.
pub open spec fn fixed_of(rs: Option<Vec<LegacyStageRecord>>, t: int) -> i32 {
    match rs {
        Option::None => 0,
        Option::Some(v) => fixed_of_rec(v@, t),
    }
}

/// A position produced by the import, field for field.
pub open spec fn position_matches(
    p: Position,
    actor: LegacyActor,
    crt: Option<String>,
    event: Seq<char>,
    climax: bool,
) -> bool {
    &&& p.event.deep_view() == seq![event]
    &&& Some(p.sex) == sex_of(kind_of(actor))
    &&& Some(p.race@) == race_of(actor, crt)
    &&& p.anim_obj@.len() == 0
    &&& p.extra.climax == climax
}

/// A stage produced by the import, field for field.
pub open spec fn stage_matches(st: Stage, anim: LegacyAnimation, t: int, count: int) -> bool {
    let actors = anim.actors->0@;
    &&& st.positions@.len() == actors.len()
    &&& st.tags.deep_view() == tags_of(anim.tags)
    &&& st.extra.fixed_len == fixed_of(anim.stage, t)
    &&& forall|n: int|
        0 <= n < actors.len() ==> position_matches(
            #[trigger] st.positions@[n],
            actors[n],
            anim.creature_race,
            actors[n].stages->0@[t]->0@,
            t == count - 1,
        )
}

/// A whole scene produced by the import: the stage list, the per-actor
/// templates, the climax marking, and the linear stage graph with the
/// first stage as root and the last stage terminal.
pub open spec fn scene_matches(sc: Scene, anim: LegacyAnimation) -> bool {
    let actors = anim.actors->0@;
    let count = actors[0].stages->0@.len() as int;
    &&& sc.name@ == anim.name->0@
    &&& !sc.has_warnings
    &&& sc.stages@.len() == count
    &&& sc.positions@.len() == actors.len()
    &&& sc.graph@.len() == count
    &&& sc.root@ == sc.stages@[0].id@
    &&& (forall|t: int| 0 <= t < count ==> stage_matches(#[trigger] sc.stages@[t], anim, t, count))
    &&& (forall|n: int|
        0 <= n < actors.len() ==> position_matches(
            #[trigger] sc.positions@[n],
            actors[n],
            anim.creature_race,
            actors[n].stages->0@[0]->0@,
            count == 1,
        ))
    &&& (forall|t: int|
        0 <= t < count ==> (#[trigger] sc.graph@[t]).id@ == sc.stages@[t].id@ && (if t < count - 1 {
            sc.graph@[t].dest@.len() == 1 && sc.graph@[t].dest@[0]@ == sc.stages@[t + 1].id@
        } else {
            sc.graph@[t].dest@.len() == 0
        }))
    &&& (forall|t1: int, t2: int|
        0 <= t1 < t2 < count ==> sc.stages@[t1].id@ != sc.stages@[t2].id@)
}

/// An animation entry the import accepts whole: a name, a non-empty
/// actor list, one stage-event list per actor, all of the first actor's
/// (non-zero) length, an event id in every entry, a recognized type
/// token, and a mappable race for every creature actor.
pub open spec fn anim_ok(anim: LegacyAnimation) -> bool {
    let actors = anim.actors->0@;
    &&& anim.name is Some
    &&& anim.actors is Some
    &&& actors.len() > 0
    &&& actors[0].stages is Some
    &&& actors[0].stages->0@.len() > 0
    &&& (forall|n: int|
        0 <= n < actors.len() ==> (#[trigger] actors[n]).stages is Some && actors[n].stages->0@.len()
            == actors[0].stages->0@.len())
    &&& (forall|n: int, t: int|
        0 <= n < actors.len() && 0 <= t < actors[0].stages->0@.len()
            ==> (#[trigger] actors[n].stages->0@[t]) is Some)
    &&& (forall|n: int|
        0 <= n < actors.len() ==> sex_of(kind_of(#[trigger] actors[n])) is Some)
    &&& (forall|n: int|
        0 <= n < actors.len() ==> race_of(#[trigger] actors[n], anim.creature_race) is Some)
}

/// A document the import accepts whole.
pub open spec fn import_ok(doc: LegacyDocument) -> bool {
    &&& doc.name is Some
    &&& doc.animations is Some
    &&& (forall|a: int|
        0 <= a < doc.animations->0@.len() ==> anim_ok(#[trigger] doc.animations->0@[a]))
}

/// Classifies one actor: its sex flags and its race key, exactly as
/// [`sex_of`] and [`race_of`] state them; an unknown type token or an
/// unmapped creature race is an error.
fn classify_actor(actor: &LegacyActor, crt: &Option<String>) -> (r: Result<
    (Sex, String),
    ImportError,
>)
    ensures
        r is Ok <==> (sex_of(kind_of(*actor)) is Some && race_of(*actor, *crt) is Some),
        ({
            match r {
                Ok(sr) => Some(sr.0) == sex_of(kind_of(*actor)) && Some(sr.1@) == race_of(
                    *actor,
                    *crt,
                ),
                Err(e) => match e {
                    ImportError::UnknownActorKind { kind } => kind@ == kind_of(*actor)
                        && sex_of(kind_of(*actor)) is None,
                    ImportError::UnknownLegacyRace { race } => race@ == effective_race(
                        *actor,
                        *crt,
                    ) && sex_of(kind_of(*actor)) is Some && race_of(*actor, *crt) is None,
                    _ => false,
                },
            }
        }),
{
    let kl: String = match &actor.actor_type {
        Some(k) => to_lower(k.as_str()),
        None => "male".to_owned(),
    };
    proof {
        assert(kl@ == kind_of(*actor));
        reveal_strlit("male");
        reveal_strlit("type");
        reveal_strlit("female");
        reveal_strlit("creaturemale");
        reveal_strlit("creaturefemale");
    }
    if str_eq(kl.as_str(), "male") || str_eq(kl.as_str(), "type") {
        Ok((Sex { male: true, female: false, futa: false }, "Human".to_owned()))
    } else if str_eq(kl.as_str(), "female") {
        Ok((Sex { male: false, female: true, futa: false }, "Human".to_owned()))
    } else if str_eq(kl.as_str(), "creaturemale") || str_eq(kl.as_str(), "creaturefemale") {
        let sex = if str_eq(kl.as_str(), "creaturemale") {
            Sex { male: true, female: false, futa: false }
        } else {
            Sex { male: false, female: true, futa: false }
        };
        let effective: &str = match &actor.race {
            Some(r) => r.as_str(),
            None => match crt {
                Some(c) => c.as_str(),
                None => "",
            },
        };
        proof {
            reveal_strlit("");
            assert(effective@ =~= effective_race(*actor, *crt));
        }
        match map_legacy_to_racekey(effective) {
            Ok(k) => Ok((sex, k)),
            Err(e) => Err(e),
        }
    } else {
        Err(ImportError::UnknownActorKind { kind: kl })
    }
}

/// The tag list of an animation, exactly as [`tags_of`] states it.
fn parse_tags(tags: &Option<String>) -> (r: Vec<String>)
    ensures
        r.deep_view() == tags_of(*tags),
{
    match tags {
        None => Vec::new(),
        Some(s) => {
            if s.as_str().is_empty() {
                let r: Vec<String> = Vec::new();
                proof {
                    assert(r.deep_view() =~= tags_of(*tags));
                }
                r
            } else {
                let low = to_lower(s.as_str());
                let toks = crate::text::split_commas_exec(low.as_str());
                let ghost tsv = split_commas(lower(s@));
                let mut r: Vec<String> = Vec::new();
                let n: usize = toks.len();
                let mut i: usize = 0;
                while i < n
                    invariant
                        n == toks@.len(),
                        i <= n,
                        n == tsv.len(),
                        forall|k: int| 0 <= k < n ==> toks@[k]@ == #[trigger] tsv[k],
                        r@.len() == i,
                        forall|k: int| 0 <= k < i ==> r@[k]@ == trim(#[trigger] tsv[k]),
                    decreases n - i,
                {
                    let t = trim_exec(toks[i].as_str());
                    r.push(t);
                    i = i + 1;
                }
                proof {
                    assert(r.deep_view() =~= tags_of(*tags));
                }
                r
            }
        }
    }
}

/// The fixed duration of stage `t`, exactly as [`fixed_of`] states it.
fn stage_fixed_len(rs: &Option<Vec<LegacyStageRecord>>, t: usize) -> (r: i32)
    ensures
        r == fixed_of(*rs, t as int),
{
    match rs {
        None => 0,
        Some(v) => {
            let n: usize = v.len();
            let mut acc: i32 = 0;
            let mut i: usize = 0;
            while i < n
                invariant
                    n == v@.len(),
                    i <= n,
                    acc == fixed_of_rec(v@.take(i as int), t as int),
                decreases n - i,
            {
                proof {
                    assert(v@.take(i + 1).drop_last() =~= v@.take(i as int));
                    assert(v@.take(i + 1).last() == v@[i as int]);
                }
                let rec = &v[i];
                let matches_t: bool = match rec.number {
                    Some(num) => num >= 0 && (num as u64) == (t as u64),
                    None => false,
                };
                if matches_t {
                    acc = match rec.timer_ms {
                        Some(x) => x,
                        None => 0,
                    };
                }
                i = i + 1;
            }
            proof {
                assert(v@.take(n as int) =~= v@);
            }
            acc
        }
    }
}


/// The generated scene identifier for the animation at `a`.
pub open spec fn scene_id_of(a: nat) -> Seq<char> {
    seq!['s'] + dec_digits(a)
}

/// The generated stage identifier for stage `t` of the animation at `a`.
pub open spec fn stage_id_of(a: nat, t: nat) -> Seq<char> {
    seq!['s'] + dec_digits(a) + seq!['_'] + dec_digits(t)
}

/// Distinct animations get distinct scene identifiers.
pub proof fn lemma_scene_ids_distinct(a1: nat, a2: nat)
    requires
        a1 != a2,
    ensures
        scene_id_of(a1) != scene_id_of(a2),
{
    if scene_id_of(a1) == scene_id_of(a2) {
        assert(dec_digits(a1) =~= scene_id_of(a1).subrange(1, scene_id_of(a1).len() as int));
        assert(dec_digits(a2) =~= scene_id_of(a2).subrange(1, scene_id_of(a2).len() as int));
        crate::text::lemma_dec_digits_injective(a1, a2);
    }
}

/// Within one animation, distinct stages get distinct identifiers.
pub proof fn lemma_stage_ids_distinct(a: nat, t1: nat, t2: nat)
    requires
        t1 != t2,
    ensures
        stage_id_of(a, t1) != stage_id_of(a, t2),
{
    if stage_id_of(a, t1) == stage_id_of(a, t2) {
        let l = 2 + dec_digits(a).len() as int;
        assert(dec_digits(t1) =~= stage_id_of(a, t1).subrange(l, stage_id_of(a, t1).len() as int));
        assert(dec_digits(t2) =~= stage_id_of(a, t2).subrange(l, stage_id_of(a, t2).len() as int));
        crate::text::lemma_dec_digits_injective(t1, t2);
    }
}

/// Builds the scene identifier for the animation at `index`.
fn make_scene_id(index: u64) -> (r: String)
    ensures
        r@ == scene_id_of(index as nat),
{
    let mut s: String = String::new();
    push_char(&mut s, 's');
    push_decimal(index, &mut s);
    proof {
        assert(s@ =~= scene_id_of(index as nat));
    }
    s
}

/// Builds the stage identifier for stage `t` of the animation at `index`.
fn make_stage_id(index: u64, t: u64) -> (r: String)
    ensures
        r@ == stage_id_of(index as nat, t as nat),
{
    let mut s: String = String::new();
    push_char(&mut s, 's');
    push_decimal(index, &mut s);
    push_char(&mut s, '_');
    push_decimal(t, &mut s);
    proof {
        assert(s@ =~= stage_id_of(index as nat, t as nat));
    }
    s
}

/// The positions of one stage: one per actor slot, each holding the
/// actor's single declared event for that stage.
fn build_stage_positions(anim: &LegacyAnimation, t: usize, climax: bool) -> (r: Vec<Position>)
    requires
        anim_ok(*anim),
        t < anim.actors->0@[0].stages->0@.len(),
    ensures
        r@.len() == anim.actors->0@.len(),
        forall|n: int|
            0 <= n < r@.len() ==> position_matches(
                #[trigger] r@[n],
                anim.actors->0@[n],
                anim.creature_race,
                anim.actors->0@[n].stages->0@[t as int]->0@,
                climax,
            ),
{
    let actors: &Vec<LegacyActor> = match &anim.actors {
        Some(v) => v,
        None => {
            proof {
                assert(false);
            }
            return Vec::new();
        }
    };
    let a_count: usize = actors.len();
    let mut positions: Vec<Position> = Vec::new();
    let mut n: usize = 0;
    while n < a_count
        invariant
            anim_ok(*anim),
            actors == anim.actors->0,
            a_count == actors@.len(),
            t < anim.actors->0@[0].stages->0@.len(),
            n <= a_count,
            positions@.len() == n,
            forall|k: int|
                0 <= k < n ==> position_matches(
                    #[trigger] positions@[k],
                    anim.actors->0@[k],
                    anim.creature_race,
                    anim.actors->0@[k].stages->0@[t as int]->0@,
                    climax,
                ),
        decreases a_count - n,
    {
        let a = &actors[n];
        let sv: &Vec<Option<String>> = match &a.stages {
            Some(v) => v,
            None => {
                proof {
                    assert(false);
                }
                return Vec::new();
            }
        };
        proof {
            assert(sv@.len() == anim.actors->0@[0].stages->0@.len());
        }
        let ev: String = match &sv[t] {
            Some(e) => e.clone(),
            None => {
                proof {
                    assert(anim.actors->0@[n as int].stages->0@[t as int] is Some);
                    assert(false);
                }
                return Vec::new();
            }
        };
        let (sex, race) = match classify_actor(a, &anim.creature_race) {
            Ok(x) => x,
            Err(_) => {
                proof {
                    assert(false);
                }
                return Vec::new();
            }
        };
        let mut event: Vec<String> = Vec::new();
        event.push(ev);
        let pos = Position {
            event,
            sex,
            race,
            anim_obj: String::new(),
            extra: PositionExtra { climax },
        };
        positions.push(pos);
        proof {
            assert(positions@.last().event.deep_view() =~= seq![
                anim.actors->0@[n as int].stages->0@[t as int]->0@,
            ]);
        }
        n = n + 1;
    }
    positions
}

/// Constructs one scene from one animation entry, exactly as
/// [`scene_matches`] states: stages up front with one neutral-free
/// position per slot, shared tags, per-stage fixed durations, climax on
/// every last-stage position, per-actor templates, and a linear graph
/// rooted at the first stage.
pub fn scene_from_animation(anim: &LegacyAnimation, index: u64) -> (r: Result<Scene, ImportError>)
    ensures
        r is Ok <==> anim_ok(*anim),
        ({
            match r {
                Ok(sc) => scene_matches(sc, *anim) && sc.id@ == scene_id_of(index as nat),
                Err(e) => !anim_ok(*anim) && !(e is MissingPackName) && !(e is MissingAnimations),
            }
        }),
{
    if anim.name.is_none() {
        return Err(ImportError::MissingAnimationName { animation: index as usize });
    }
    let name: String = match &anim.name {
        Some(nm) => nm.clone(),
        None => String::new(),
    };
    let actors: &Vec<LegacyActor> = match &anim.actors {
        Some(v) => v,
        None => {
            return Err(ImportError::MissingActors { animation: index as usize });
        }
    };
    let a_count: usize = actors.len();
    if a_count == 0 {
        return Err(ImportError::SceneWithoutStages { animation: index as usize });
    }
    let a0 = &actors[0];
    let first_stages: &Vec<Option<String>> = match &a0.stages {
        Some(v) => v,
        None => {
            return Err(ImportError::MissingStages { animation: index as usize, actor: 0 });
        }
    };
    let count: usize = first_stages.len();
    if count == 0 {
        return Err(ImportError::SceneWithoutStages { animation: index as usize });
    }

    // Validation pass: every actor must carry one event per stage, of the
    // first actor's stage count, under a recognized type and a mappable
    // race.
    let mut n: usize = 0;
    while n < a_count
        invariant
            actors == anim.actors->0,
            anim.actors is Some,
            a_count == actors@.len(),
            count == anim.actors->0@[0].stages->0@.len(),
            anim.actors->0@[0].stages is Some,
            count > 0,
            a_count > 0,
            n <= a_count,
            forall|k: int|
                0 <= k < n ==> (#[trigger] actors@[k]).stages is Some && actors@[k].stages->0@.len()
                    == count,
            forall|k: int, t: int|
                0 <= k < n && 0 <= t < count ==> (#[trigger] actors@[k].stages->0@[t]) is Some,
            forall|k: int| 0 <= k < n ==> sex_of(kind_of(#[trigger] actors@[k])) is Some,
            forall|k: int|
                0 <= k < n ==> race_of(#[trigger] actors@[k], anim.creature_race) is Some,
        decreases a_count - n,
    {
        let a = &actors[n];
        let sv: &Vec<Option<String>> = match &a.stages {
            Some(v) => v,
            None => {
                return Err(
                    ImportError::MissingStages { animation: index as usize, actor: n },
                );
            }
        };
        if sv.len() != count {
            return Err(ImportError::UnevenStageCounts { animation: index as usize, actor: n });
        }
        let mut t: usize = 0;
        while t < count
            invariant
                actors == anim.actors->0,
                n < a_count,
                a_count == actors@.len(),
                a == &actors@[n as int],
                sv == actors@[n as int].stages->0,
                actors@[n as int].stages is Some,
                sv@.len() == count,
                t <= count,
                forall|q: int| 0 <= q < t ==> (#[trigger] sv@[q]) is Some,
            decreases count - t,
        {
            if sv[t].is_none() {
                return Err(
                    ImportError::MissingEventId {
                        animation: index as usize,
                        actor: n,
                        stage: t,
                    },
                );
            }
            t = t + 1;
        }
        match classify_actor(a, &anim.creature_race) {
            Ok(_) => {}
            Err(e) => {
                return Err(e);
            }
        }
        n = n + 1;
    }
    proof {
        assert(anim_ok(*anim));
    }

    // Construction pass.
    let tags = parse_tags(&anim.tags);
    let mut stages_v: Vec<Stage> = Vec::new();
    let mut t: usize = 0;
    while t < count
        invariant
            anim_ok(*anim),
            actors == anim.actors->0,
            a_count == actors@.len(),
            count == anim.actors->0@[0].stages->0@.len(),
            tags.deep_view() == tags_of(anim.tags),
            t <= count,
            stages_v@.len() == t,
            forall|k: int|
                0 <= k < t ==> stage_matches(#[trigger] stages_v@[k], *anim, k, count as int),
            forall|k: int|
                0 <= k < t ==> (#[trigger] stages_v@[k]).id@ == stage_id_of(
                    index as nat,
                    k as nat,
                ),
        decreases count - t,
    {
        let positions = build_stage_positions(anim, t, t == count - 1);
        let stage = Stage {
            id: make_stage_id(index, t as u64),
            positions,
            tags: clone_string_vec(&tags),
            extra: StageExtra { fixed_len: stage_fixed_len(&anim.stage, t) },
        };
        stages_v.push(stage);
        proof {
            assert(stage_matches(stages_v@.last(), *anim, t as int, count as int));
        }
        t = t + 1;
    }
    let templates = build_stage_positions(anim, 0, count == 1);

    let mut graph: Vec<Node> = Vec::new();
    let mut t: usize = 0;
    while t < count
        invariant
            count == stages_v@.len(),
            t <= count,
            graph@.len() == t,
            forall|k: int|
                0 <= k < t ==> (#[trigger] graph@[k]).id@ == stages_v@[k].id@ && (if k < count - 1 {
                    graph@[k].dest@.len() == 1 && graph@[k].dest@[0]@ == stages_v@[k + 1].id@
                } else {
                    graph@[k].dest@.len() == 0
                }),
        decreases count - t,
    {
        let mut dest: Vec<String> = Vec::new();
        if t + 1 < count {
            dest.push(stages_v[t + 1].id.clone());
        }
        let node = Node { id: stages_v[t].id.clone(), dest };
        graph.push(node);
        t = t + 1;
    }

    let root: String = stages_v[0].id.clone();
    let sc = Scene {
        id: make_scene_id(index),
        name,
        stages: stages_v,
        graph,
        root,
        positions: templates,
        has_warnings: false,
    };
    proof {
        assert forall|t1: int, t2: int|
            0 <= t1 < t2 < sc.stages@.len() implies sc.stages@[t1].id@ != sc.stages@[t2].id@ by {
            lemma_stage_ids_distinct(index as nat, t1 as nat, t2 as nat);
        }
        assert(scene_matches(sc, *anim));
    }
    Ok(sc)
}

impl crate::package::Package {
    /// Imports a whole legacy document: one scene per animation entry, in
    /// order, into a fresh package named after the document, which then
    /// starts from schema version 0 and is run through the migration
    /// path. Any missing field or failed lookup anywhere aborts the whole
    /// import; no partial package is produced.
    pub fn from_slal(doc: &LegacyDocument) -> (r: Result<crate::package::Package, ImportError>)
        ensures
            r is Ok <==> import_ok(*doc),
            ({
                match r {
                    Err(e) => match e {
                        ImportError::MissingPackName => doc.name is None,
                        ImportError::MissingAnimations => doc.name is Some
                            && doc.animations is None,
                        _ => doc.name is Some && doc.animations is Some && exists|a: int|
                            0 <= a < doc.animations->0@.len() && !anim_ok(
                                #[trigger] doc.animations->0@[a],
                            ),
                    },
                    Ok(p) => {
                        &&& p.version == crate::package::CURRENT_VERSION
                        &&& p.pack_name@ == doc.name->0@
                        &&& p.pack_author@ == "Unknown"@
                        &&& p.prefix_hash@ == Seq::<char>::empty()
                        &&& p.scenes@.len() == doc.animations->0@.len()
                        &&& (forall|a: int|
                            0 <= a < p.scenes@.len() ==> scene_matches(
                                #[trigger] p.scenes@[a],
                                doc.animations->0@[a],
                            ))
                        &&& (forall|a: int|
                            0 <= a < p.scenes@.len() ==> (#[trigger] p.scenes@[a]).id@
                                == scene_id_of(a as nat))
                        &&& p.wf()
                    },
                }
            }),
            r is Err ==> !import_ok(*doc),
    {
        let pack_name: String = match &doc.name {
            Some(nm) => nm.clone(),
            None => {
                return Err(ImportError::MissingPackName);
            }
        };
        let anims: &Vec<LegacyAnimation> = match &doc.animations {
            Some(v) => v,
            None => {
                return Err(ImportError::MissingAnimations);
            }
        };
        let n: usize = anims.len();
        let mut scenes: Vec<Scene> = Vec::new();
        let mut a: usize = 0;
        while a < n
            invariant
                anims == doc.animations->0,
                doc.animations is Some,
                doc.name is Some,
                n == anims@.len(),
                a <= n,
                scenes@.len() == a,
                forall|k: int| 0 <= k < a ==> anim_ok(#[trigger] anims@[k]),
                forall|k: int|
                    0 <= k < a ==> scene_matches(#[trigger] scenes@[k], anims@[k]),
                forall|k: int|
                    0 <= k < a ==> (#[trigger] scenes@[k]).id@ == scene_id_of(k as nat),
            decreases n - a,
        {
            match scene_from_animation(&anims[a], a as u64) {
                Ok(sc) => {
                    scenes.push(sc);
                }
                Err(e) => {
                    proof {
                        assert(!anim_ok(doc.animations->0@[a as int]));
                    }
                    return Err(e);
                }
            }
            a = a + 1;
        }
        let mut p = crate::package::Package::new();
        p.version = 0;
        p.pack_name = pack_name;
        p.scenes = scenes;
        proof {
            assert forall|i: int, j: int|
                0 <= i < j < p.scenes@.len() implies p.scenes@[i].id@ != p.scenes@[j].id@ by {
                lemma_scene_ids_distinct(i as nat, j as nat);
            }
        }
        match p.update_to_latest_version() {
            Ok(()) => {}
            Err(_) => {}
        }
        Ok(p)
    }
}

} // verus!
