//! The root aggregate: a versioned `Package` owning a scene collection,
//! with scene insert/remove/lookup, the schema-version migration path and
//! the compiled binary artifact.
use vstd::prelude::*;

use crate::codec::EncodeBinary;
use crate::codec::enc_seq;
use crate::codec::enc_u64;
use crate::codec::lemma_enc_seq_push;
use crate::codec::write_u64_be;
use crate::model::Scene;
use crate::model::Stage;
use crate::model::exported_scenes;
use crate::model::lemma_exported_take_len;
use crate::model::lemma_exported_take_succ;
use vstd::string::StrSliceExecFns;
use vstd::string::StringExecFns;

verus! {

/// The current schema version; the in-memory version after any successful
/// load or import.
pub const CURRENT_VERSION: u8 = 4;

/// First index of the scene with the given id, or -1 when absent.
pub open spec fn scene_idx(scenes: Seq<Scene>, id: Seq<char>) -> int
    decreases scenes.len(),
{
    if scenes.len() == 0 {
        -1
    } else if scenes.first().id@ == id {
        0
    } else {
        let r = scene_idx(scenes.drop_first(), id);
        if r < 0 {
            -1
        } else {
            r + 1
        }
    }
}

/// `scene_idx` is the first match: a negative result means no scene has
/// the id; a non-negative result points at the first scene that does.
pub proof fn lemma_scene_idx(scenes: Seq<Scene>, id: Seq<char>)
    ensures
        scene_idx(scenes, id) < 0 ==> forall|k: int|
            0 <= k < scenes.len() ==> scenes[k].id@ != id,
        scene_idx(scenes, id) >= 0 ==> {
            let j = scene_idx(scenes, id);
            &&& 0 <= j < scenes.len()
            &&& scenes[j].id@ == id
            &&& forall|k: int| 0 <= k < j ==> scenes[k].id@ != id
        },
    decreases scenes.len(),
{
    if scenes.len() > 0 && scenes.first().id@ != id {
        lemma_scene_idx(scenes.drop_first(), id);
        let rest = scenes.drop_first();
        assert(forall|k: int| 0 <= k < rest.len() ==> rest[k] == scenes[k + 1]);
        let r = scene_idx(rest, id);
        if r < 0 {
            assert forall|k: int| 0 <= k < scenes.len() implies scenes[k].id@ != id by {
                if k > 0 {
                    assert(rest[k - 1] == scenes[k]);
                }
            }
        } else {
            assert(rest[r] == scenes[r + 1]);
            assert forall|k: int| 0 <= k < r + 1 implies scenes[k].id@ != id by {
                if k > 0 {
                    assert(rest[k - 1] == scenes[k]);
                }
            }
        }
    }
}

/// First index of the stage with the given id, or -1 when absent.
pub open spec fn stage_idx(stages: Seq<Stage>, id: Seq<char>) -> int
    decreases stages.len(),
{
    if stages.len() == 0 {
        -1
    } else if stages.first().id@ == id {
        0
    } else {
        let r = stage_idx(stages.drop_first(), id);
        if r < 0 {
            -1
        } else {
            r + 1
        }
    }
}

/// `stage_idx` is the first match, in the same way as `scene_idx`.
pub proof fn lemma_stage_idx(stages: Seq<Stage>, id: Seq<char>)
    ensures
        stage_idx(stages, id) < 0 ==> forall|k: int|
            0 <= k < stages.len() ==> stages[k].id@ != id,
        stage_idx(stages, id) >= 0 ==> {
            let j = stage_idx(stages, id);
            &&& 0 <= j < stages.len()
            &&& stages[j].id@ == id
            &&& forall|k: int| 0 <= k < j ==> stages[k].id@ != id
        },
    decreases stages.len(),
{
    if stages.len() > 0 && stages.first().id@ != id {
        lemma_stage_idx(stages.drop_first(), id);
        let rest = stages.drop_first();
        assert(forall|k: int| 0 <= k < rest.len() ==> rest[k] == stages[k + 1]);
        let r = stage_idx(rest, id);
        if r < 0 {
            assert forall|k: int| 0 <= k < stages.len() implies stages[k].id@ != id by {
                if k > 0 {
                    assert(rest[k - 1] == stages[k]);
                }
            }
        } else {
            assert(rest[r] == stages[r + 1]);
            assert forall|k: int| 0 <= k < r + 1 implies stages[k].id@ != id by {
                if k > 0 {
                    assert(rest[k - 1] == stages[k]);
                }
            }
        }
    }
}

impl Scene {
    /// The stage of this scene with the given id, if any.
    pub fn get_stage(&self, id: &String) -> (r: Option<&Stage>)
        ensures
            ({
                let j = stage_idx(self.stages@, id@);
                match r {
                    Some(st) => j >= 0 && *st == self.stages@[j],
                    None => j < 0,
                }
            }),
    {
        proof {
            lemma_stage_idx(self.stages@, id@);
        }
        let n: usize = self.stages.len();
        let mut i: usize = 0;
        while i < n
            invariant
                n == self.stages@.len(),
                i <= n,
                forall|k: int| 0 <= k < i ==> self.stages@[k].id@ != id@,
            decreases n - i,
        {
            if self.stages[i].id.eq(id) {
                proof {
                    lemma_stage_idx(self.stages@, id@);
                }
                return Some(&self.stages[i]);
            }
            i = i + 1;
        }
        None
    }

    /// Brings this scene fully current in one call, given the package
    /// version it was stored under. The current in-memory shape carries
    /// every schema version, so nothing needs rewriting and migration
    /// always succeeds.
    pub fn update_to_latest_version(&mut self, stored_version: u8) -> (r: Result<(), String>)
        ensures
            r is Ok,
            *final(self) == *old(self),
    {
        let _ = stored_version;
        Ok(())
    }
}

/// The root aggregate: schema version, display name, author, namespace
/// prefix token, and the owned scene collection (ids unique, order
/// irrelevant).
#[derive(Debug, Clone, PartialEq, Eq)]
pub struct Package {
    pub version: u8,
    pub pack_name: String,
    pub pack_author: String,
    pub prefix_hash: String,
    pub scenes: Vec<Scene>,
}

impl Package {
    /// Scene ids are unique within a package.
    pub open spec fn wf(&self) -> bool {
        forall|i: int, j: int|
            0 <= i < j < self.scenes@.len() ==> self.scenes@[i].id@ != self.scenes@[j].id@
    }

    /// A fresh, empty package at the current schema version. The random
    /// namespace token is owed by the caller: it starts out empty.
    pub fn new() -> (r: Package)
        ensures
            r.version == CURRENT_VERSION,
            r.pack_name@ == Seq::<char>::empty(),
            r.pack_author@ == "Unknown"@,
            r.prefix_hash@ == Seq::<char>::empty(),
            r.scenes@ == Seq::<Scene>::empty(),
            r.wf(),
    {
        Package {
            version: CURRENT_VERSION,
            pack_name: String::new(),
            pack_author: "Unknown".to_owned(),
            prefix_hash: String::new(),
            scenes: Vec::new(),
        }
    }

    /// Replaces this package wholesale with a fresh one.
    pub fn reset(&mut self) -> (r: &Package)
        ensures
            final(self).version == CURRENT_VERSION,
            final(self).pack_name@ == Seq::<char>::empty(),
            final(self).pack_author@ == "Unknown"@,
            final(self).prefix_hash@ == Seq::<char>::empty(),
            final(self).scenes@ == Seq::<Scene>::empty(),
            *r == *final(self),
    {
        *self = Package::new();
        self
    }

    /// Inserts the scene, replacing any scene with the same id, and
    /// returns a reference to the stored copy.
    pub fn save_scene(&mut self, scene: Scene) -> (r: &Scene)
        ensures
            *r == scene,
            ({
                let j = scene_idx(old(self).scenes@, scene.id@);
                if j >= 0 {
                    final(self).scenes@ == old(self).scenes@.update(j, scene)
                } else {
                    final(self).scenes@ == old(self).scenes@.push(scene)
                }
            }),
            final(self).version == old(self).version,
            final(self).pack_name == old(self).pack_name,
            final(self).pack_author == old(self).pack_author,
            final(self).prefix_hash == old(self).prefix_hash,
            old(self).wf() ==> final(self).wf(),
    {
        proof {
            lemma_scene_idx(self.scenes@, scene.id@);
        }
        let n: usize = self.scenes.len();
        let mut i: usize = 0;
        while i < n
            invariant
                *self == *old(self),
                n == self.scenes@.len(),
                i <= n,
                forall|k: int| 0 <= k < i ==> self.scenes@[k].id@ != scene.id@,
            decreases n - i,
        {
            if self.scenes[i].id.eq(&scene.id) {
                let slot = &mut self.scenes[i];
                *slot = scene;
                proof {
                    lemma_scene_idx(old(self).scenes@, old(self).scenes@[i as int].id@);
                }
                return &self.scenes[i];
            }
            i = i + 1;
        }
        self.scenes.push(scene);
        return &self.scenes[n];
    }

    /// Removes and returns the scene with the given id, if present.
    pub fn discard_scene(&mut self, id: &String) -> (r: Option<Scene>)
        ensures
            ({
                let j = scene_idx(old(self).scenes@, id@);
                match r {
                    Some(sc) => j >= 0 && sc == old(self).scenes@[j] && final(self).scenes@
                        == old(self).scenes@.remove(j),
                    None => j < 0 && *final(self) == *old(self),
                }
            }),
            final(self).version == old(self).version,
            final(self).pack_name == old(self).pack_name,
            final(self).pack_author == old(self).pack_author,
            final(self).prefix_hash == old(self).prefix_hash,
            old(self).wf() ==> final(self).wf(),
    {
        proof {
            lemma_scene_idx(self.scenes@, id@);
        }
        let n: usize = self.scenes.len();
        let mut i: usize = 0;
        while i < n
            invariant
                *self == *old(self),
                n == self.scenes@.len(),
                i <= n,
                forall|k: int| 0 <= k < i ==> self.scenes@[k].id@ != id@,
            decreases n - i,
        {
            if self.scenes[i].id.eq(id) {
                proof {
                    lemma_scene_idx(self.scenes@, id@);
                }
                let sc = self.scenes.remove(i);
                return Some(sc);
            }
            i = i + 1;
        }
        None
    }

    /// The scene with the given id, if any.
    pub fn get_scene(&self, id: &String) -> (r: Option<&Scene>)
        ensures
            ({
                let j = scene_idx(self.scenes@, id@);
                match r {
                    Some(sc) => j >= 0 && *sc == self.scenes@[j],
                    None => j < 0,
                }
            }),
    {
        proof {
            lemma_scene_idx(self.scenes@, id@);
        }
        let n: usize = self.scenes.len();
        let mut i: usize = 0;
        while i < n
            invariant
                n == self.scenes@.len(),
                i <= n,
                forall|k: int| 0 <= k < i ==> self.scenes@[k].id@ != id@,
            decreases n - i,
        {
            if self.scenes[i].id.eq(id) {
                proof {
                    lemma_scene_idx(self.scenes@, id@);
                }
                return Some(&self.scenes[i]);
            }
            i = i + 1;
        }
        None
    }

    /// Mutable access to the scene with the given id, if any.
    pub fn get_scene_mut(&mut self, id: &String) -> (r: Option<&mut Scene>)
        ensures
            ({
                let j = scene_idx(old(self).scenes@, id@);
                match r {
                    Some(sc) => j >= 0 && *sc == old(self).scenes@[j] && final(self).scenes@
                        == old(self).scenes@.update(j, *final(sc)),
                    None => j < 0 && *final(self) == *old(self),
                }
            }),
            final(self).version == old(self).version,
            final(self).pack_name == old(self).pack_name,
            final(self).pack_author == old(self).pack_author,
            final(self).prefix_hash == old(self).prefix_hash,
    {
        proof {
            lemma_scene_idx(self.scenes@, id@);
        }
        let n: usize = self.scenes.len();
        let mut i: usize = 0;
        while i < n
            invariant
                *self == *old(self),
                n == self.scenes@.len(),
                i <= n,
                forall|k: int| 0 <= k < i ==> self.scenes@[k].id@ != id@,
            decreases n - i,
        {
            if self.scenes[i].id.eq(id) {
                proof {
                    lemma_scene_idx(self.scenes@, id@);
                }
                return Some(&mut self.scenes[i]);
            }
            i = i + 1;
        }
        None
    }

    /// The stage with the given id, searched across every scene.
    pub fn get_stage(&self, id: &String) -> (r: Option<&Stage>)
        ensures
            ({
                match r {
                    Some(st) => exists|j: int|
                        0 <= j < self.scenes@.len() && stage_idx(self.scenes@[j].stages@, id@) >= 0
                            && *st == self.scenes@[j].stages@[stage_idx(
                            self.scenes@[j].stages@,
                            id@,
                        )],
                    None => forall|j: int|
                        0 <= j < self.scenes@.len() ==> stage_idx(
                            #[trigger] self.scenes@[j].stages@,
                            id@,
                        ) < 0,
                }
            }),
    {
        let n: usize = self.scenes.len();
        let mut i: usize = 0;
        while i < n
            invariant
                n == self.scenes@.len(),
                i <= n,
                forall|j: int| 0 <= j < i ==> stage_idx(#[trigger] self.scenes@[j].stages@, id@) < 0,
            decreases n - i,
        {
            let found = self.scenes[i].get_stage(id);
            if found.is_some() {
                return found;
            }
            i = i + 1;
        }
        None
    }

    /// Runs every scene through migration, parameterized by the stored
    /// (old) package version, then stamps the package with the current
    /// schema version. A scene failure would abort the whole load tagged
    /// with the offending scene id; with the migrations recorded here it
    /// never does.
    pub fn update_to_latest_version(&mut self) -> (r: Result<(), String>)
        ensures
            r is Ok,
            final(self).version == CURRENT_VERSION,
            final(self).scenes@ == old(self).scenes@,
            final(self).pack_name == old(self).pack_name,
            final(self).pack_author == old(self).pack_author,
            final(self).prefix_hash == old(self).prefix_hash,
    {
        let stored_version: u8 = self.version;
        let n: usize = self.scenes.len();
        let mut i: usize = 0;
        while i < n
            invariant
                n == self.scenes@.len(),
                i <= n,
                self.scenes@ == old(self).scenes@,
                self.version == old(self).version,
                self.pack_name == old(self).pack_name,
                self.pack_author == old(self).pack_author,
                self.prefix_hash == old(self).prefix_hash,
            decreases n - i,
        {
            let sc = &mut self.scenes[i];
            match sc.update_to_latest_version(stored_version) {
                Ok(()) => {}
                Err(e) => {
                    let mut msg: String = "Failed to update scene ".to_owned();
                    msg.append(self.scenes[i].id.as_str());
                    msg.append(": ");
                    msg.append(e.as_str());
                    return Err(msg);
                }
            }
            proof {
                assert(self.scenes@ =~= old(self).scenes@);
            }
            i = i + 1;
        }
        self.version = CURRENT_VERSION;
        Ok(())
    }

    /// The compiled binary artifact: exactly this package's byte image,
    /// with capacity pre-reserved from the computed length.
    pub fn compile_binary(&self) -> (r: Vec<u8>)
        requires
            self.enc().len() <= usize::MAX,
        ensures
            r@ == self.enc(),
    {
        let size: usize = self.get_byte_size();
        let mut buf: Vec<u8> = Vec::with_capacity(size);
        self.write_byte(&mut buf);
        buf
    }

    /// Name of the binary registry file: the package name, or the prefix
    /// token when no name is set, with the registry extension.
    pub fn registry_file_name(&self) -> (r: String)
        ensures
            r@ == (if self.pack_name@.len() == 0 {
                self.prefix_hash@
            } else {
                self.pack_name@
            }) + ".slr"@,
    {
        let mut base: String = if self.pack_name.as_str().is_empty() {
            self.prefix_hash.clone()
        } else {
            self.pack_name.clone()
        };
        base.append(".slr");
        base
    }
}

impl EncodeBinary for Package {
    /// Version byte, package name, author, prefix token, then the
    /// qualifying scenes: an 8-byte count followed by each qualifying
    /// scene's image. Scenes with warnings or an empty stage list are
    /// silently excluded from the artifact.
    open spec fn enc(&self) -> Seq<u8> {
        self.version.enc() + self.pack_name.enc() + self.pack_author.enc()
            + self.prefix_hash.enc() + enc_u64(exported_scenes(self.scenes@).len() as u64)
            + enc_seq(exported_scenes(self.scenes@))
    }

    fn get_byte_size(&self) -> (r: usize)
        ensures
            r == self.enc().len(),
    {
        let a: usize = self.version.get_byte_size();
        let b: usize = self.pack_name.get_byte_size();
        let c: usize = self.pack_author.get_byte_size();
        let d: usize = self.prefix_hash.get_byte_size();
        let mut acc: usize = a + b + c + d + 8;
        let ghost head: nat = (self.version.enc() + self.pack_name.enc() + self.pack_author.enc()
            + self.prefix_hash.enc() + enc_u64(exported_scenes(self.scenes@).len() as u64)).len();
        let n: usize = self.scenes.len();
        let mut i: usize = 0;
        while i < n
            invariant
                n == self.scenes@.len(),
                i <= n,
                self.enc().len() <= usize::MAX,
                head + enc_seq(exported_scenes(self.scenes@)).len() == self.enc().len(),
                acc == head + enc_seq(exported_scenes(self.scenes@.take(i as int))).len(),
            decreases n - i,
        {
            proof {
                lemma_exported_take_succ(self.scenes@, i as int);
                if crate::model::qualifies(self.scenes@[i as int]) {
                    lemma_enc_seq_push(
                        exported_scenes(self.scenes@.take(i as int)),
                        self.scenes@[i as int],
                    );
                }
                lemma_exported_take_len(self.scenes@, i + 1);
            }
            let sc = &self.scenes[i];
            if !sc.has_warnings && sc.stages.len() > 0 {
                let s: usize = sc.get_byte_size();
                acc = acc + s;
            }
            i = i + 1;
        }
        proof {
            assert(self.scenes@.take(n as int) =~= self.scenes@);
        }
        acc
    }

    #[verifier::rlimit(100)]
    fn write_byte(&self, buf: &mut Vec<u8>)
        ensures
            final(buf)@ == old(buf)@ + self.enc(),
    {
        self.version.write_byte(buf);
        self.pack_name.write_byte(buf);
        self.pack_author.write_byte(buf);
        self.prefix_hash.write_byte(buf);
        let ghost head = buf@;
        proof {
            assert(head =~= old(buf)@ + (self.version.enc() + self.pack_name.enc()
                + self.pack_author.enc() + self.prefix_hash.enc()));
        }

        let n: usize = self.scenes.len();
        let mut count: usize = 0;
        let mut i: usize = 0;
        while i < n
            invariant
                n == self.scenes@.len(),
                i <= n,
                count == exported_scenes(self.scenes@.take(i as int)).len(),
                count <= i,
            decreases n - i,
        {
            proof {
                lemma_exported_take_succ(self.scenes@, i as int);
            }
            let sc = &self.scenes[i];
            if !sc.has_warnings && sc.stages.len() > 0 {
                count = count + 1;
            }
            i = i + 1;
        }
        proof {
            assert(self.scenes@.take(n as int) =~= self.scenes@);
        }
        write_u64_be(count as u64, buf);

        let ghost mid = buf@;
        let mut i: usize = 0;
        while i < n
            invariant
                n == self.scenes@.len(),
                i <= n,
                buf@ == mid + enc_seq(exported_scenes(self.scenes@.take(i as int))),
            decreases n - i,
        {
            proof {
                lemma_exported_take_succ(self.scenes@, i as int);
                if crate::model::qualifies(self.scenes@[i as int]) {
                    lemma_enc_seq_push(
                        exported_scenes(self.scenes@.take(i as int)),
                        self.scenes@[i as int],
                    );
                }
            }
            let sc = &self.scenes[i];
            if !sc.has_warnings && sc.stages.len() > 0 {
                sc.write_byte(buf);
            }
            i = i + 1;
        }
        proof {
            assert(self.scenes@.take(n as int) =~= self.scenes@);
            assert(buf@ =~= old(buf)@ + self.enc());
        }
    }
}


/// One top-level entry of an offset-import document: the scene key (when
/// it was a string) and whether its value is itself a mapping.
#[derive(Debug, Clone, PartialEq, Eq)]
pub struct OffsetEntry {
    pub scene_id: Option<String>,
    pub is_mapping: bool,
}

/// An offset document is valid when every mapping entry's key is a
/// string.
pub open spec fn offset_valid(entries: Seq<OffsetEntry>) -> bool {
    forall|k: int|
        0 <= k < entries.len() ==> ((#[trigger] entries[k]).is_mapping ==> entries[k].scene_id
            is Some)
}

/// The scene ids an offset import applies to, in entry order: the keys
/// of the mapping entries that name a known scene. Entries that are not
/// mappings, and keys of unknown scenes, are skipped.
pub open spec fn offset_plan(scenes: Seq<Scene>, entries: Seq<OffsetEntry>) -> Seq<Seq<char>>
    decreases entries.len(),
{
    if entries.len() == 0 {
        Seq::empty()
    } else {
        let rest = offset_plan(scenes, entries.drop_last());
        let e = entries.last();
        if e.is_mapping && e.scene_id is Some && scene_idx(scenes, e.scene_id->0@) >= 0 {
            rest.push(e.scene_id->0@)
        } else {
            rest
        }
    }
}

impl Package {
    /// Validates an offset-import document against this package: entries
    /// whose value is not a mapping are skipped; a mapping entry whose
    /// key is not a string fails the whole import; keys of unknown
    /// scenes are skipped. Returns, in order, the ids of the known
    /// scenes whose per-stage offsets the owning scenes should apply.
    pub fn import_offset(&self, entries: &Vec<OffsetEntry>) -> (r: Result<Vec<String>, String>)
        ensures
            r is Ok <==> offset_valid(entries@),
            ({
                match r {
                    Ok(ids) => ids.deep_view() == offset_plan(self.scenes@, entries@),
                    Err(_) => !offset_valid(entries@),
                }
            }),
    {
        let mut ids: Vec<String> = Vec::new();
        let n: usize = entries.len();
        let mut i: usize = 0;
        while i < n
            invariant
                n == entries@.len(),
                i <= n,
                forall|k: int|
                    0 <= k < i ==> ((#[trigger] entries@[k]).is_mapping ==> entries@[k].scene_id
                        is Some),
                ids.deep_view() == offset_plan(self.scenes@, entries@.take(i as int)),
            decreases n - i,
        {
            proof {
                assert(entries@.take(i + 1).drop_last() =~= entries@.take(i as int));
                assert(entries@.take(i + 1).last() == entries@[i as int]);
            }
            let e = &entries[i];
            if e.is_mapping {
                let id: &String = match &e.scene_id {
                    Some(id) => id,
                    None => {
                        return Err(
                            "Not a valid offset file, expected string for scene id".to_owned(),
                        );
                    }
                };
                if self.get_scene(id).is_some() {
                    ids.push(id.clone());
                    proof {
                        assert(ids.deep_view() =~= offset_plan(
                            self.scenes@,
                            entries@.take(i + 1),
                        ));
                    }
                } else {
                    proof {
                        assert(ids.deep_view() =~= offset_plan(
                            self.scenes@,
                            entries@.take(i + 1),
                        ));
                    }
                }
            } else {
                proof {
                    assert(ids.deep_view() =~= offset_plan(self.scenes@, entries@.take(i + 1)));
                }
            }
            i = i + 1;
        }
        proof {
            assert(entries@.take(n as int) =~= entries@);
        }
        Ok(ids)
    }

    /// Derives the project's display name from the file name of its
    /// on-disk project document: everything before the first occurrence
    /// of the project-file extension, or the whole name when the
    /// extension does not occur.
    pub fn set_project_name_from_path(&mut self, file_name: &str)
        ensures
            final(self).pack_name@ == ({
                let j = crate::text::find_sub(file_name@, ".slsb.json"@);
                if j >= 0 {
                    file_name@.take(j)
                } else {
                    file_name@
                }
            }),
            final(self).version == old(self).version,
            final(self).pack_author == old(self).pack_author,
            final(self).prefix_hash == old(self).prefix_hash,
            final(self).scenes@ == old(self).scenes@,
    {
        proof {
            crate::text::lemma_find_sub(file_name@, ".slsb.json"@);
        }
        let cut: usize = crate::text::find_sub_exec(file_name, ".slsb.json");
        let stem: &str = file_name.substring_char(0, cut);
        self.pack_name = stem.to_owned();
        proof {
            let j = crate::text::find_sub(file_name@, ".slsb.json"@);
            if j < 0 {
                assert(file_name@.subrange(0, file_name@.len() as int) =~= file_name@);
            }
        }
    }
}

} // verus!
