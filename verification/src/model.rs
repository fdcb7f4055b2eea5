//! The graph-structured data model: a `Package` aggregates `Scene`s; a
//! `Scene` holds an ordered list of `Stage`s, a stage graph of `Node`s, a
//! designated root stage and per-actor `Position` templates; a `Stage`
//! holds one `Position` per actor slot. Every entity carries its exact
//! binary image through [`EncodeBinary`].
use vstd::prelude::*;

use crate::codec::EncodeBinary;
use crate::codec::enc_seq;
use crate::codec::lemma_enc_seq_push;

verus! {

/// Three independent sex flags of an actor slot; not mutually exclusive.
#[derive(Debug, Clone, PartialEq, Eq)]
pub struct Sex {
    pub male: bool,
    pub female: bool,
    pub futa: bool,
}

/// Per-position extras; the climax marker is set only on the positions of
/// a scene's final stage.
#[derive(Debug, Clone, PartialEq, Eq)]
pub struct PositionExtra {
    pub climax: bool,
}

/// Per-actor-slot state at a stage, or the scene-level per-actor template.
/// `event` holds one or more animation-event identifiers; more than one
/// denotes a multi-part combo animation.
#[derive(Debug, Clone, PartialEq, Eq)]
pub struct Position {
    pub event: Vec<String>,
    pub sex: Sex,
    pub race: String,
    pub anim_obj: String,
    pub extra: PositionExtra,
}

/// Per-stage extras. `fixed_len` is a fixed playback duration in
/// fixed-point milliseconds; 0 means "not fixed".
#[derive(Debug, Clone, PartialEq, Eq)]
pub struct StageExtra {
    pub fixed_len: i32,
}

/// One step of an animation sequence: one `Position` per actor slot, a
/// free-form tag list and per-stage extras.
#[derive(Debug, Clone, PartialEq, Eq)]
pub struct Stage {
    pub id: String,
    pub positions: Vec<Position>,
    pub tags: Vec<String>,
    pub extra: StageExtra,
}

/// Adjacency record of the stage graph, keyed by stage id: zero or more
/// destination stage ids. Zero destinations marks a terminal stage.
#[derive(Debug, Clone, PartialEq, Eq)]
pub struct Node {
    pub id: String,
    pub dest: Vec<String>,
}

/// One animation definition: an ordered stage list, the stage graph, the
/// root stage id, scene-level per-actor position templates and a warning
/// flag set by validation outside this crate.
#[derive(Debug, Clone, PartialEq, Eq)]
pub struct Scene {
    pub id: String,
    pub name: String,
    pub stages: Vec<Stage>,
    pub graph: Vec<Node>,
    pub root: String,
    pub positions: Vec<Position>,
    pub has_warnings: bool,
}

impl EncodeBinary for Sex {
    /// One byte per flag: male, female, futa.
    open spec fn enc(&self) -> Seq<u8> {
        self.male.enc() + self.female.enc() + self.futa.enc()
    }

    fn get_byte_size(&self) -> (r: usize)
        ensures
            r == self.enc().len(),
    {
        3
    }

    fn write_byte(&self, buf: &mut Vec<u8>)
        ensures
            final(buf)@ == old(buf)@ + self.enc(),
    {
        self.male.write_byte(buf);
        self.female.write_byte(buf);
        self.futa.write_byte(buf);
        assert(buf@ =~= old(buf)@ + self.enc());
    }
}

impl EncodeBinary for PositionExtra {
    open spec fn enc(&self) -> Seq<u8> {
        self.climax.enc()
    }

    fn get_byte_size(&self) -> (r: usize)
        ensures
            r == self.enc().len(),
    {
        1
    }

    fn write_byte(&self, buf: &mut Vec<u8>)
        ensures
            final(buf)@ == old(buf)@ + self.enc(),
    {
        self.climax.write_byte(buf);
    }
}

impl EncodeBinary for Position {
    /// Events, sex flags, race key, animation-object list, extras.
    open spec fn enc(&self) -> Seq<u8> {
        self.event.enc() + self.sex.enc() + self.race.enc() + self.anim_obj.enc()
            + self.extra.enc()
    }

    fn get_byte_size(&self) -> (r: usize)
        ensures
            r == self.enc().len(),
    {
        let a: usize = self.event.get_byte_size();
        let b: usize = self.sex.get_byte_size();
        let c: usize = self.race.get_byte_size();
        let d: usize = self.anim_obj.get_byte_size();
        let e: usize = self.extra.get_byte_size();
        a + b + c + d + e
    }

    fn write_byte(&self, buf: &mut Vec<u8>)
        ensures
            final(buf)@ == old(buf)@ + self.enc(),
    {
        self.event.write_byte(buf);
        self.sex.write_byte(buf);
        self.race.write_byte(buf);
        self.anim_obj.write_byte(buf);
        self.extra.write_byte(buf);
        assert(buf@ =~= old(buf)@ + self.enc());
    }
}

impl EncodeBinary for StageExtra {
    open spec fn enc(&self) -> Seq<u8> {
        self.fixed_len.enc()
    }

    fn get_byte_size(&self) -> (r: usize)
        ensures
            r == self.enc().len(),
    {
        4
    }

    fn write_byte(&self, buf: &mut Vec<u8>)
        ensures
            final(buf)@ == old(buf)@ + self.enc(),
    {
        self.fixed_len.write_byte(buf);
    }
}

impl EncodeBinary for Stage {
    /// Stage id, positions, tags, extras.
    open spec fn enc(&self) -> Seq<u8> {
        self.id.enc() + self.positions.enc() + self.tags.enc() + self.extra.enc()
    }

    fn get_byte_size(&self) -> (r: usize)
        ensures
            r == self.enc().len(),
    {
        let a: usize = self.id.get_byte_size();
        let b: usize = self.positions.get_byte_size();
        let c: usize = self.tags.get_byte_size();
        let d: usize = self.extra.get_byte_size();
        a + b + c + d
    }

    fn write_byte(&self, buf: &mut Vec<u8>)
        ensures
            final(buf)@ == old(buf)@ + self.enc(),
    {
        self.id.write_byte(buf);
        self.positions.write_byte(buf);
        self.tags.write_byte(buf);
        self.extra.write_byte(buf);
        assert(buf@ =~= old(buf)@ + self.enc());
    }
}

impl EncodeBinary for Node {
    /// The mapping entry of the stage graph: key, then destination list.
    open spec fn enc(&self) -> Seq<u8> {
        self.id.enc() + self.dest.enc()
    }

    fn get_byte_size(&self) -> (r: usize)
        ensures
            r == self.enc().len(),
    {
        let a: usize = self.id.get_byte_size();
        let b: usize = self.dest.get_byte_size();
        a + b
    }

    fn write_byte(&self, buf: &mut Vec<u8>)
        ensures
            final(buf)@ == old(buf)@ + self.enc(),
    {
        self.id.write_byte(buf);
        self.dest.write_byte(buf);
        assert(buf@ =~= old(buf)@ + self.enc());
    }
}

impl EncodeBinary for Scene {
    /// Scene id, display name, root stage id, stage list, stage graph
    /// (count prefix plus key/value pairs), position templates. The
    /// warning flag is editor state and has no binary image.
    open spec fn enc(&self) -> Seq<u8> {
        self.id.enc() + self.name.enc() + self.root.enc() + self.stages.enc()
            + self.graph.enc() + self.positions.enc()
    }

    fn get_byte_size(&self) -> (r: usize)
        ensures
            r == self.enc().len(),
    {
        let a: usize = self.id.get_byte_size();
        let b: usize = self.name.get_byte_size();
        let c: usize = self.root.get_byte_size();
        let d: usize = self.stages.get_byte_size();
        let e: usize = self.graph.get_byte_size();
        let f: usize = self.positions.get_byte_size();
        a + b + c + d + e + f
    }

    fn write_byte(&self, buf: &mut Vec<u8>)
        ensures
            final(buf)@ == old(buf)@ + self.enc(),
    {
        self.id.write_byte(buf);
        self.name.write_byte(buf);
        self.root.write_byte(buf);
        self.stages.write_byte(buf);
        self.graph.write_byte(buf);
        self.positions.write_byte(buf);
        assert(buf@ =~= old(buf)@ + self.enc());
    }
}

/// A scene belongs in the compiled binary artifact exactly when it has no
/// warnings and a non-empty stage list.
pub open spec fn qualifies(s: Scene) -> bool {
    !s.has_warnings && s.stages@.len() > 0
}

/// The qualifying scenes, in traversal order.
pub open spec fn exported_scenes(scenes: Seq<Scene>) -> Seq<Scene>
    decreases scenes.len(),
{
    if scenes.len() == 0 {
        Seq::empty()
    } else if qualifies(scenes.last()) {
        exported_scenes(scenes.drop_last()).push(scenes.last())
    } else {
        exported_scenes(scenes.drop_last())
    }
}

/// Walking one scene further either appends it (when it qualifies) or
/// leaves the exported selection unchanged.
pub proof fn lemma_exported_take_succ(scenes: Seq<Scene>, i: int)
    requires
        0 <= i < scenes.len(),
    ensures
        exported_scenes(scenes.take(i + 1)) == if qualifies(scenes[i]) {
            exported_scenes(scenes.take(i)).push(scenes[i])
        } else {
            exported_scenes(scenes.take(i))
        },
{
    assert(scenes.take(i + 1).drop_last() =~= scenes.take(i));
    assert(scenes.take(i + 1).last() == scenes[i]);
}

/// The exported selection of a prefix never encodes to more bytes than
/// that of the whole scene list.
pub proof fn lemma_exported_take_len(scenes: Seq<Scene>, i: int)
    requires
        0 <= i <= scenes.len(),
    ensures
        enc_seq(exported_scenes(scenes.take(i))).len() <= enc_seq(
            exported_scenes(scenes),
        ).len(),
        exported_scenes(scenes.take(i)).len() <= exported_scenes(scenes).len(),
    decreases scenes.len() - i,
{
    if i == scenes.len() {
        assert(scenes.take(i) =~= scenes);
    } else {
        lemma_exported_take_succ(scenes, i);
        if qualifies(scenes[i]) {
            lemma_enc_seq_push(exported_scenes(scenes.take(i)), scenes[i]);
        }
        lemma_exported_take_len(scenes, i + 1);
    }
}

/// Membership in the exported selection: a scene list entry is exported
/// exactly when it qualifies.
pub proof fn lemma_exported_contains(scenes: Seq<Scene>, s: Scene)
    ensures
        exported_scenes(scenes).contains(s) <==> scenes.contains(s) && qualifies(s),
    decreases scenes.len(),
{
    if scenes.len() > 0 {
        lemma_exported_contains(scenes.drop_last(), s);
        if scenes.contains(s) {
            let i = choose|i: int| 0 <= i < scenes.len() && scenes[i] == s;
            if i < scenes.len() - 1 {
                assert(scenes.drop_last()[i] == s);
                assert(scenes.drop_last().contains(s));
            }
        }
        if scenes.last() == s {
            assert(scenes[scenes.len() - 1] == s);
            assert(scenes.contains(s));
        }
        if scenes.drop_last().contains(s) {
            let j = choose|j: int| 0 <= j < scenes.drop_last().len() && scenes.drop_last()[j] == s;
            assert(scenes[j] == s);
            assert(scenes.contains(s));
        }
        let e = exported_scenes(scenes.drop_last());
        if qualifies(scenes.last()) {
            assert(exported_scenes(scenes) == e.push(scenes.last()));
            if e.contains(s) {
                let k = choose|k: int| 0 <= k < e.len() && e[k] == s;
                assert(e.push(scenes.last())[k] == s);
                assert(exported_scenes(scenes).contains(s));
            }
            if s == scenes.last() {
                assert(e.push(scenes.last())[e.len() as int] == s);
                assert(exported_scenes(scenes).contains(s));
            }
            if exported_scenes(scenes).contains(s) {
                let k = choose|k: int|
                    0 <= k < e.push(scenes.last()).len() && e.push(scenes.last())[k] == s;
                if k < e.len() {
                    assert(e[k] == s);
                    assert(e.contains(s));
                } else {
                    assert(s == scenes.last());
                }
            }
        }
    }
}

} // verus!
