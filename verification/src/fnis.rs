//! Race-grouped text generation: builds the engine-facing animation
//! manifest lines, maps race keys to engine folders, and fans lines out
//! into one or more race buckets per a fixed alias table.
use vstd::prelude::*;

use crate::text::str_eq;
use vstd::string::StringExecFns;

verus! {

/// The option fragment of a manifest line: nothing, ` -<options>`, ` -o`
/// or ` -o,<options>`, depending on whether options and animation objects
/// are present.
pub open spec fn opts_part(options: Seq<char>, has_objects: bool) -> Seq<char> {
    if options.len() == 0 && !has_objects {
        Seq::empty()
    } else if !has_objects {
        " -"@ + options
    } else if options.len() == 0 {
        " -o"@
    } else {
        " -o,"@ + options
    }
}

/// The trailing animation-object fragment: one space-prefixed token each.
pub open spec fn objs_part(objs: Seq<Seq<char>>) -> Seq<char>
    decreases objs.len(),
{
    if objs.len() == 0 {
        Seq::empty()
    } else {
        objs_part(objs.drop_last()) + " "@ + objs.last()
    }
}

/// One manifest line: kind and options, the namespaced event name, the
/// event\'s animation file, then the animation objects.
pub open spec fn fnis_line(
    anim_type: Seq<char>,
    event: Seq<char>,
    hash: Seq<char>,
    options: Seq<char>,
    objs: Seq<Seq<char>>,
) -> Seq<char> {
    anim_type + opts_part(options, objs.len() > 0) + " "@ + hash + event + " "@ + event + ".hkx"@
        + objs_part(objs)
}

/// Builds one manifest line, exactly as [`fnis_line`] states it.
pub fn make_fnis_line(
    anim_type: &str,
    event: &str,
    hash: &str,
    options: &str,
    anim_obj: &Vec<String>,
) -> (r: String)
    ensures
        r@ == fnis_line(anim_type@, event@, hash@, options@, anim_obj.deep_view()),
{
    let mut r: String = String::new();
    r.append(anim_type);
    if options.is_empty() && anim_obj.len() == 0 {
    } else if anim_obj.len() == 0 {
        r.append(" -");
        r.append(options);
    } else if options.is_empty() {
        r.append(" -o");
    } else {
        r.append(" -o,");
        r.append(options);
    }
    proof {
        assert(anim_obj.deep_view().len() == anim_obj@.len());
        assert(r@ =~= anim_type@ + opts_part(options@, anim_obj.deep_view().len() > 0));
    }
    r.append(" ");
    r.append(hash);
    r.append(event);
    r.append(" ");
    r.append(event);
    r.append(".hkx");
    let ghost head = anim_type@ + opts_part(options@, anim_obj.deep_view().len() > 0) + " "@
        + hash@ + event@ + " "@ + event@ + ".hkx"@;
    proof {
        assert(r@ =~= head);
    }
    let n: usize = anim_obj.len();
    let mut i: usize = 0;
    while i < n
        invariant
            n == anim_obj@.len(),
            i <= n,
            r@ == head + objs_part(anim_obj.deep_view().take(i as int)),
        decreases n - i,
    {
        r.append(" ");
        r.append(anim_obj[i].as_str());
        proof {
            assert(anim_obj.deep_view().take(i + 1).drop_last() =~= anim_obj.deep_view().take(
                i as int,
            ));
            assert(anim_obj.deep_view().take(i + 1).last() == anim_obj@[i as int]@);
            assert(r@ =~= head + objs_part(anim_obj.deep_view().take(i + 1)));
        }
        i = i + 1;
    }
    proof {
        assert(anim_obj.deep_view().take(n as int) =~= anim_obj.deep_view());
        assert(r@ =~= fnis_line(anim_type@, event@, hash@, options@, anim_obj.deep_view()));
    }
    r
}

/// The line kind: `b` for a lone event, `s` for the start of a chain, `+`
/// for a continuation.
pub open spec fn line_kind(i: int, n: int) -> Seq<char> {
    if n == 1 {
        "b"@
    } else if i == 0 {
        "s"@
    } else {
        "+"@
    }
}

/// The per-line options: the fixed-duration, non-looping marker goes on
/// the last line of the chain only, and only when the stage is fixed.
pub open spec fn line_opts(i: int, n: int, fixed: bool) -> Seq<char> {
    if fixed && i == n - 1 {
        "a,Tn"@
    } else {
        ""@
    }
}

/// The manifest lines of one event chain: one line per event, in declared
/// order.
pub open spec fn fnis_lines(
    events: Seq<Seq<char>>,
    hash: Seq<char>,
    fixed: bool,
    objs: Seq<Seq<char>>,
) -> Seq<Seq<char>> {
    Seq::new(
        events.len(),
        |i: int|
            fnis_line(
                line_kind(i, events.len() as int),
                events[i],
                hash,
                line_opts(i, events.len() as int, fixed),
                objs,
            ),
    )
}

/// Builds the manifest lines of one event chain, exactly as
/// [`fnis_lines`] states them: a single `b` line, or an `s` line followed
/// by `+` lines; the fixed-duration option lands on the final line only.
pub fn make_fnis_lines(
    events: &Vec<String>,
    hash: &str,
    fixed_len: bool,
    anim_obj: &Vec<String>,
) -> (r: Vec<String>)
    ensures
        r.deep_view() == fnis_lines(events.deep_view(), hash@, fixed_len, anim_obj.deep_view()),
{
    let n: usize = events.len();
    if n == 1 {
        let opts: &str = if fixed_len {
            "a,Tn"
        } else {
            ""
        };
        let line = make_fnis_line("b", events[0].as_str(), hash, opts, anim_obj);
        let mut r: Vec<String> = Vec::new();
        r.push(line);
        proof {
            assert(r.deep_view() =~= fnis_lines(
                events.deep_view(),
                hash@,
                fixed_len,
                anim_obj.deep_view(),
            ));
        }
        r
    } else {
        let mut r: Vec<String> = Vec::new();
        let mut i: usize = 0;
        while i < n
            invariant
                n == events@.len(),
                n != 1,
                i <= n,
                r@.len() == i,
                forall|k: int|
                    0 <= k < i ==> r@[k]@ == #[trigger] fnis_lines(
                        events.deep_view(),
                        hash@,
                        fixed_len,
                        anim_obj.deep_view(),
                    )[k],
            decreases n - i,
        {
            let kind: &str = if i == 0 {
                "s"
            } else {
                "+"
            };
            let opts: &str = if fixed_len && i == n - 1 {
                "a,Tn"
            } else {
                ""
            };
            let line = make_fnis_line(kind, events[i].as_str(), hash, opts, anim_obj);
            r.push(line);
            i = i + 1;
        }
        proof {
            assert(r.deep_view() =~= fnis_lines(
                events.deep_view(),
                hash@,
                fixed_len,
                anim_obj.deep_view(),
            ));
        }
        r
    }
}

/// The non-last lines of a chain never carry the fixed-duration option:
/// they are identical whether or not the stage is fixed, and only the
/// final line of a fixed stage carries the `a,Tn` marker.
pub proof fn lemma_fixed_len_only_last(events: Seq<Seq<char>>, hash: Seq<char>, objs: Seq<Seq<char>>)
    requires
        events.len() >= 1,
    ensures
        fnis_lines(events, hash, true, objs).len() == events.len(),
        fnis_lines(events, hash, false, objs).len() == events.len(),
        forall|i: int|
            0 <= i < events.len() - 1 ==> fnis_lines(events, hash, true, objs)[i] == fnis_lines(
                events,
                hash,
                false,
                objs,
            )[i],
        fnis_lines(events, hash, true, objs).last() == fnis_line(
            line_kind(events.len() - 1, events.len() as int),
            events.last(),
            hash,
            "a,Tn"@,
            objs,
        ),
{
}

/// The engine folder of a race key, when the engine recognizes it.
pub open spec fn race_folder(race: Seq<char>) -> Option<Seq<char>> {
    if race == "Human"@ {
        Some("character"@)
    } else if race == "Ash Hopper"@ {
        Some("dlc02\\scrib"@)
    } else if race == "Bear"@ {
        Some("bear"@)
    } else if race == "Boar"@ || race == "Boar (Any)"@ || race == "Boar (Mounted)"@ {
        Some("dlc02\\boarriekling"@)
    } else if race == "Canine"@ || race == "Dog"@ || race == "Wolf"@ || race == "Fox"@ {
        Some("canine"@)
    } else if race == "Chaurus"@ || race == "Chaurus Reaper"@ {
        Some("chaurus"@)
    } else if race == "Chaurus Hunter"@ {
        Some("dlc01\\chaurusflyer"@)
    } else if race == "Chicken"@ {
        Some("ambient\\chicken"@)
    } else if race == "Cow"@ {
        Some("cow"@)
    } else if race == "Deer"@ {
        Some("deer"@)
    } else if race == "Dragon Priest"@ {
        Some("dragonpriest"@)
    } else if race == "Dragon"@ {
        Some("dragon"@)
    } else if race == "Draugr"@ {
        Some("draugr"@)
    } else if race == "Dwarven Ballista"@ {
        Some("dlc02\\dwarvenballistacenturion"@)
    } else if race == "Dwarven Centurion"@ {
        Some("dwarvensteamcenturion"@)
    } else if race == "Dwarven Sphere"@ {
        Some("dwarvenspherecenturion"@)
    } else if race == "Dwarven Spider"@ {
        Some("dwarvenspider"@)
    } else if race == "Falmer"@ {
        Some("falmer"@)
    } else if race == "Flame Atronach"@ {
        Some("atronachflame"@)
    } else if race == "Frost Atronach"@ {
        Some("atronachfrost"@)
    } else if race == "Storm Atronach"@ {
        Some("atronachstorm"@)
    } else if race == "Gargoyle"@ {
        Some("dlc01\\vampirebrute"@)
    } else if race == "Giant"@ {
        Some("giant"@)
    } else if race == "Goat"@ {
        Some("goat"@)
    } else if race == "Hagraven"@ {
        Some("hagraven"@)
    } else if race == "Horker"@ {
        Some("horker"@)
    } else if race == "Horse"@ {
        Some("horse"@)
    } else if race == "Ice Wraith"@ {
        Some("icewraith"@)
    } else if race == "Lurker"@ {
        Some("dlc02\\benthiclurker"@)
    } else if race == "Mammoth"@ {
        Some("mammoth"@)
    } else if race == "Mudcrab"@ {
        Some("mudcrab"@)
    } else if race == "Netch"@ {
        Some("dlc02\\netch"@)
    } else if race == "Rabbit"@ {
        Some("ambient\\hare"@)
    } else if race == "Riekling"@ {
        Some("dlc02\\riekling"@)
    } else if race == "Sabrecat"@ {
        Some("sabrecat"@)
    } else if race == "Seeker"@ {
        Some("dlc02\\hmdaedra"@)
    } else if race == "Skeever"@ {
        Some("skeever"@)
    } else if race == "Slaughterfish"@ {
        Some("slaughterfish"@)
    } else if race == "Spider"@ || race == "Large Spider"@ || race == "Giant Spider"@ {
        Some("frostbitespider"@)
    } else if race == "Spriggan"@ {
        Some("spriggan"@)
    } else if race == "Troll"@ {
        Some("troll"@)
    } else if race == "Vampire Lord"@ {
        Some("vampirelord"@)
    } else if race == "Werewolf"@ {
        Some("werewolfbeast"@)
    } else if race == "Wispmother"@ {
        Some("wisp"@)
    } else if race == "Wisp"@ {
        Some("witchlight"@)
    } else {
        None
    }
}

/// Maps a race key to its engine folder; an unrecognized race is an
/// error, exactly when [`race_folder`] has no entry for it.
pub fn map_race_to_folder(race: &str) -> (r: Result<String, ()>)
    ensures
        ({
            match r {
                Ok(f) => race_folder(race@) == Some(f@),
                Err(_) => race_folder(race@) is None,
            }
        }),
{
    if str_eq(race, "Human") {
        Ok("character".to_owned())
    } else if str_eq(race, "Ash Hopper") {
        Ok("dlc02\\scrib".to_owned())
    } else if str_eq(race, "Bear") {
        Ok("bear".to_owned())
    } else if str_eq(race, "Boar") || str_eq(race, "Boar (Any)") || str_eq(race, "Boar (Mounted)") {
        Ok("dlc02\\boarriekling".to_owned())
    } else if str_eq(race, "Canine") || str_eq(race, "Dog") || str_eq(race, "Wolf") || str_eq(race, "Fox") {
        Ok("canine".to_owned())
    } else if str_eq(race, "Chaurus") || str_eq(race, "Chaurus Reaper") {
        Ok("chaurus".to_owned())
    } else if str_eq(race, "Chaurus Hunter") {
        Ok("dlc01\\chaurusflyer".to_owned())
    } else if str_eq(race, "Chicken") {
        Ok("ambient\\chicken".to_owned())
    } else if str_eq(race, "Cow") {
        Ok("cow".to_owned())
    } else if str_eq(race, "Deer") {
        Ok("deer".to_owned())
    } else if str_eq(race, "Dragon Priest") {
        Ok("dragonpriest".to_owned())
    } else if str_eq(race, "Dragon") {
        Ok("dragon".to_owned())
    } else if str_eq(race, "Draugr") {
        Ok("draugr".to_owned())
    } else if str_eq(race, "Dwarven Ballista") {
        Ok("dlc02\\dwarvenballistacenturion".to_owned())
    } else if str_eq(race, "Dwarven Centurion") {
        Ok("dwarvensteamcenturion".to_owned())
    } else if str_eq(race, "Dwarven Sphere") {
        Ok("dwarvenspherecenturion".to_owned())
    } else if str_eq(race, "Dwarven Spider") {
        Ok("dwarvenspider".to_owned())
    } else if str_eq(race, "Falmer") {
        Ok("falmer".to_owned())
    } else if str_eq(race, "Flame Atronach") {
        Ok("atronachflame".to_owned())
    } else if str_eq(race, "Frost Atronach") {
        Ok("atronachfrost".to_owned())
    } else if str_eq(race, "Storm Atronach") {
        Ok("atronachstorm".to_owned())
    } else if str_eq(race, "Gargoyle") {
        Ok("dlc01\\vampirebrute".to_owned())
    } else if str_eq(race, "Giant") {
        Ok("giant".to_owned())
    } else if str_eq(race, "Goat") {
        Ok("goat".to_owned())
    } else if str_eq(race, "Hagraven") {
        Ok("hagraven".to_owned())
    } else if str_eq(race, "Horker") {
        Ok("horker".to_owned())
    } else if str_eq(race, "Horse") {
        Ok("horse".to_owned())
    } else if str_eq(race, "Ice Wraith") {
        Ok("icewraith".to_owned())
    } else if str_eq(race, "Lurker") {
        Ok("dlc02\\benthiclurker".to_owned())
    } else if str_eq(race, "Mammoth") {
        Ok("mammoth".to_owned())
    } else if str_eq(race, "Mudcrab") {
        Ok("mudcrab".to_owned())
    } else if str_eq(race, "Netch") {
        Ok("dlc02\\netch".to_owned())
    } else if str_eq(race, "Rabbit") {
        Ok("ambient\\hare".to_owned())
    } else if str_eq(race, "Riekling") {
        Ok("dlc02\\riekling".to_owned())
    } else if str_eq(race, "Sabrecat") {
        Ok("sabrecat".to_owned())
    } else if str_eq(race, "Seeker") {
        Ok("dlc02\\hmdaedra".to_owned())
    } else if str_eq(race, "Skeever") {
        Ok("skeever".to_owned())
    } else if str_eq(race, "Slaughterfish") {
        Ok("slaughterfish".to_owned())
    } else if str_eq(race, "Spider") || str_eq(race, "Large Spider") || str_eq(race, "Giant Spider") {
        Ok("frostbitespider".to_owned())
    } else if str_eq(race, "Spriggan") {
        Ok("spriggan".to_owned())
    } else if str_eq(race, "Troll") {
        Ok("troll".to_owned())
    } else if str_eq(race, "Vampire Lord") {
        Ok("vampirelord".to_owned())
    } else if str_eq(race, "Werewolf") {
        Ok("werewolfbeast".to_owned())
    } else if str_eq(race, "Wispmother") {
        Ok("wisp".to_owned())
    } else if str_eq(race, "Wisp") {
        Ok("witchlight".to_owned())
    } else {
        Err(())
    }
}

/// The race buckets a line set fans out into: `Canine` feeds the generic
/// canine bucket and both specific ones, a specific canine feeds itself
/// and the generic bucket, the chaurus, spider and boar variants collapse
/// into one bucket each, and every other race feeds itself alone.
pub open spec fn race_buckets(race: Seq<char>) -> Seq<Seq<char>> {
    if race == "Canine"@ {
        seq!["Canine"@, "Dog"@, "Wolf"@]
    } else if race == "Dog"@ || race == "Wolf"@ {
        seq![race, "Canine"@]
    } else if race == "Chaurus"@ || race == "Chaurus Reaper"@ {
        seq!["Chaurus"@]
    } else if race == "Spider"@ || race == "Large Spider"@ || race == "Giant Spider"@ {
        seq!["Spider"@]
    } else if race == "Boar"@ || race == "Boar (Mounted)"@ || race == "Boar (Any)"@ {
        seq!["Boar (Any)"@]
    } else {
        seq![race]
    }
}

/// Fans a race key out into its buckets, exactly as [`race_buckets`]
/// states them.
pub fn race_buckets_exec(race: &str) -> (r: Vec<String>)
    ensures
        r@.len() == race_buckets(race@).len(),
        forall|k: int| 0 <= k < r@.len() ==> r@[k]@ == #[trigger] race_buckets(race@)[k],
{
    let mut r: Vec<String> = Vec::new();
    if str_eq(race, "Canine") {
        r.push("Canine".to_owned());
        r.push("Dog".to_owned());
        r.push("Wolf".to_owned());
    } else if str_eq(race, "Dog") || str_eq(race, "Wolf") {
        r.push(race.to_owned());
        r.push("Canine".to_owned());
    } else if str_eq(race, "Chaurus") || str_eq(race, "Chaurus Reaper") {
        r.push("Chaurus".to_owned());
    } else if str_eq(race, "Spider") || str_eq(race, "Large Spider") || str_eq(
        race,
        "Giant Spider",
    ) {
        r.push("Spider".to_owned());
    } else if str_eq(race, "Boar") || str_eq(race, "Boar (Mounted)") || str_eq(
        race,
        "Boar (Any)",
    ) {
        r.push("Boar (Any)".to_owned());
    } else {
        r.push(race.to_owned());
    }
    r
}

} // verus!
