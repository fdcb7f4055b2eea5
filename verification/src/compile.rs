//! The text-manifest compiler: walks every non-warning scene, combines
//! stage-level positions with scene-level templates, de-duplicates event
//! chains globally, and fans each chain's lines out into race buckets.
//! The emitted-event state is explicit, threaded through the fold, so
//! exports are independently testable and re-entrant.
use vstd::prelude::*;

use crate::fnis::fnis_lines;
use crate::fnis::race_buckets;
use crate::fnis::race_buckets_exec;
use crate::fnis::make_fnis_lines;
use crate::model::Position;
use crate::model::Scene;
use crate::model::Stage;
use crate::package::Package;
use crate::text::split_commas;
use crate::text::str_eq;
use vstd::string::StrSliceExecFns;
use vstd::string::StringExecFns;

verus! {

/// One event chain to emit: the events of a stage-level position, the
/// authoritative race of the scene-level template at the same slot,
/// whether the stage has a fixed duration, and the animation objects.
#[derive(Debug, Clone, PartialEq, Eq)]
pub struct LineJob {
    pub events: Vec<String>,
    pub race: String,
    pub fixed: bool,
    pub objects: Vec<String>,
}

/// The mathematical image of a [`LineJob`]: events, race, fixed flag,
/// objects.
pub type JobV = (Seq<Seq<char>>, Seq<char>, bool, Seq<Seq<char>>);

impl View for LineJob {
    type V = JobV;

    open spec fn view(&self) -> JobV {
        (self.events.deep_view(), self.race@, self.fixed, self.objects.deep_view())
    }
}

/// The de-duplication key of a job: its first event identifier.
pub open spec fn job_key(j: JobV) -> Seq<char> {
    j.0[0]
}

/// The manifest lines a job emits.
pub open spec fn job_lines(j: JobV, hash: Seq<char>) -> Seq<Seq<char>> {
    fnis_lines(j.0, hash, j.2, j.3)
}

/// One race bucket of generated lines.
#[derive(Debug, Clone, PartialEq, Eq)]
pub struct RaceLines {
    pub race: String,
    pub lines: Vec<String>,
}

/// The mathematical image of a bucket list: (race, lines) pairs in order.
pub open spec fn buckets_view(bs: Seq<RaceLines>) -> Seq<(Seq<char>, Seq<Seq<char>>)> {
    Seq::new(bs.len(), |k: int| (bs[k].race@, bs[k].lines.deep_view()))
}

/// First index of the bucket for `race`, or -1 when absent.
pub open spec fn bucket_idx(bs: Seq<(Seq<char>, Seq<Seq<char>>)>, race: Seq<char>) -> int
    decreases bs.len(),
{
    if bs.len() == 0 {
        -1
    } else if bs.first().0 == race {
        0
    } else {
        let r = bucket_idx(bs.drop_first(), race);
        if r < 0 {
            -1
        } else {
            r + 1
        }
    }
}

/// `bucket_idx` is the first match.
pub proof fn lemma_bucket_idx(bs: Seq<(Seq<char>, Seq<Seq<char>>)>, race: Seq<char>)
    ensures
        bucket_idx(bs, race) < 0 ==> forall|k: int| 0 <= k < bs.len() ==> bs[k].0 != race,
        bucket_idx(bs, race) >= 0 ==> {
            let j = bucket_idx(bs, race);
            &&& 0 <= j < bs.len()
            &&& bs[j].0 == race
            &&& forall|k: int| 0 <= k < j ==> bs[k].0 != race
        },
    decreases bs.len(),
{
    if bs.len() > 0 && bs.first().0 != race {
        lemma_bucket_idx(bs.drop_first(), race);
        let rest = bs.drop_first();
        assert(forall|k: int| 0 <= k < rest.len() ==> rest[k] == bs[k + 1]);
        let r = bucket_idx(rest, race);
        if r < 0 {
            assert forall|k: int| 0 <= k < bs.len() implies bs[k].0 != race by {
                if k > 0 {
                    assert(rest[k - 1] == bs[k]);
                }
            }
        } else {
            assert(rest[r] == bs[r + 1]);
            assert forall|k: int| 0 <= k < r + 1 implies bs[k].0 != race by {
                if k > 0 {
                    assert(rest[k - 1] == bs[k]);
                }
            }
        }
    }
}

/// Appends `lines` to the bucket for `race`, creating the bucket at the
/// end when it does not exist yet.
pub open spec fn bucket_insert(
    bs: Seq<(Seq<char>, Seq<Seq<char>>)>,
    race: Seq<char>,
    lines: Seq<Seq<char>>,
) -> Seq<(Seq<char>, Seq<Seq<char>>)> {
    let j = bucket_idx(bs, race);
    if j < 0 {
        bs.push((race, lines))
    } else {
        bs.update(j, (bs[j].0, bs[j].1 + lines))
    }
}

/// Inserts `lines` into every bucket of `races`, in order.
pub open spec fn bucket_insert_all(
    bs: Seq<(Seq<char>, Seq<Seq<char>>)>,
    races: Seq<Seq<char>>,
    lines: Seq<Seq<char>>,
) -> Seq<(Seq<char>, Seq<Seq<char>>)>
    decreases races.len(),
{
    if races.len() == 0 {
        bs
    } else {
        bucket_insert_all(bucket_insert(bs, races.first(), lines), races.drop_first(), lines)
    }
}

/// Whether `key` was already emitted.
pub open spec fn emitted_contains(emitted: Seq<Seq<char>>, key: Seq<char>) -> bool {
    exists|k: int| 0 <= k < emitted.len() && emitted[k] == key
}

/// The generation state: the race buckets built so far and the globally
/// emitted event identifiers.
pub type GenState = (Seq<(Seq<char>, Seq<Seq<char>>)>, Seq<Seq<char>>);

/// Processes one job: a job whose key was already emitted contributes
/// nothing; otherwise its key is marked emitted and its lines are fanned
/// out into the job's race buckets.
pub open spec fn gen_step(st: GenState, j: JobV, hash: Seq<char>) -> GenState {
    if emitted_contains(st.1, job_key(j)) {
        st
    } else {
        (bucket_insert_all(st.0, race_buckets(j.1), job_lines(j, hash)), st.1.push(job_key(j)))
    }
}

/// The state after the first `k` jobs, starting from `init`.
pub open spec fn gen_upto(jobs: Seq<JobV>, hash: Seq<char>, init: GenState, k: int) -> GenState
    decreases k,
{
    if k <= 0 {
        init
    } else {
        gen_step(gen_upto(jobs, hash, init, k - 1), jobs[k - 1], hash)
    }
}

/// The reserved sentinel event names, seeded as already emitted so they
/// are never treated as real events.
pub open spec fn seed_emitted() -> Seq<Seq<char>> {
    seq!["__BLANK__"@, "__DEFAULT__"@]
}

/// The generation result over a whole job list.
pub open spec fn gen_result(jobs: Seq<JobV>, hash: Seq<char>) -> GenState {
    gen_upto(jobs, hash, (Seq::empty(), seed_emitted()), jobs.len() as int)
}

/// The emitted set only grows as jobs are processed.
pub proof fn lemma_emitted_monotone(
    jobs: Seq<JobV>,
    hash: Seq<char>,
    init: GenState,
    a: int,
    b: int,
    key: Seq<char>,
)
    requires
        0 <= a <= b,
        emitted_contains(gen_upto(jobs, hash, init, a).1, key),
    ensures
        emitted_contains(gen_upto(jobs, hash, init, b).1, key),
    decreases b - a,
{
    if a < b {
        let st = gen_upto(jobs, hash, init, b - 1);
        lemma_emitted_monotone(jobs, hash, init, a, b - 1, key);
        let w = choose|k: int| 0 <= k < st.1.len() && st.1[k] == key;
        if !emitted_contains(st.1, job_key(jobs[b - 1])) {
            assert(gen_upto(jobs, hash, init, b).1 == st.1.push(job_key(jobs[b - 1])));
            assert(st.1.push(job_key(jobs[b - 1]))[w] == key);
        }
    }
}

/// After a job is processed, its key is emitted.
pub proof fn lemma_key_emitted(jobs: Seq<JobV>, hash: Seq<char>, init: GenState, i: int)
    requires
        0 <= i < jobs.len(),
    ensures
        emitted_contains(gen_upto(jobs, hash, init, i + 1).1, job_key(jobs[i])),
{
    let st = gen_upto(jobs, hash, init, i);
    if !emitted_contains(st.1, job_key(jobs[i])) {
        let pushed = st.1.push(job_key(jobs[i]));
        assert(pushed[st.1.len() as int] == job_key(jobs[i]));
    }
}

/// Global de-duplication: when two jobs share one identical first event
/// identifier, only the earlier one contributes lines; processing the
/// later one leaves every bucket, and the whole state, unchanged.
pub proof fn lemma_global_dedup(
    jobs: Seq<JobV>,
    hash: Seq<char>,
    init: GenState,
    i: int,
    j: int,
)
    requires
        0 <= i < j < jobs.len(),
        job_key(jobs[i]) == job_key(jobs[j]),
    ensures
        gen_upto(jobs, hash, init, j + 1) == gen_upto(jobs, hash, init, j),
{
    lemma_key_emitted(jobs, hash, init, i);
    lemma_emitted_monotone(jobs, hash, init, i + 1, j, job_key(jobs[i]));
}

/// Deep copy of a string list, element for element.
pub fn clone_string_vec(v: &Vec<String>) -> (r: Vec<String>)
    ensures
        r@ == v@,
        r.deep_view() == v.deep_view(),
{
    let r = v.clone();
    proof {
        assert forall|k: int| 0 <= k < r@.len() implies r@[k] == v@[k] by {
            assert(vstd::pervasive::cloned::<String>(v@[k], r@[k]));
        }
        assert(r@ =~= v@);
        assert(r.deep_view() =~= v.deep_view());
    }
    r
}

/// Whether `s` occurs in `v`.
pub fn contains_str(v: &Vec<String>, s: &str) -> (r: bool)
    ensures
        r == emitted_contains(v.deep_view(), s@),
{
    let n: usize = v.len();
    let mut i: usize = 0;
    while i < n
        invariant
            n == v@.len(),
            i <= n,
            forall|k: int| 0 <= k < i ==> v@[k]@ != s@,
        decreases n - i,
    {
        if str_eq(v[i].as_str(), s) {
            proof {
                assert(v.deep_view()[i as int] == s@);
            }
            return true;
        }
        i = i + 1;
    }
    proof {
        if emitted_contains(v.deep_view(), s@) {
            let w = choose|k: int| 0 <= k < v.deep_view().len() && v.deep_view()[k] == s@;
            assert(v@[w]@ != s@);
        }
    }
    false
}

/// Appends `lines` to the bucket for `race`, creating it at the end when
/// absent, exactly as [`bucket_insert`] states.
pub fn bucket_insert_exec(buckets: &mut Vec<RaceLines>, race: &str, lines: &Vec<String>)
    ensures
        buckets_view(final(buckets)@) == bucket_insert(
            buckets_view(old(buckets)@),
            race@,
            lines.deep_view(),
        ),
{
    let n: usize = buckets.len();
    let mut i: usize = 0;
    while i < n
        invariant
            *buckets == *old(buckets),
            n == buckets@.len(),
            i <= n,
            forall|k: int| 0 <= k < i ==> buckets@[k].race@ != race@,
        decreases n - i,
    {
        if str_eq(buckets[i].race.as_str(), race) {
            proof {
                lemma_bucket_idx(buckets_view(buckets@), race@);
                assert(buckets_view(buckets@)[i as int].0 == race@);
                assert(forall|k: int|
                    0 <= k < i ==> buckets_view(buckets@)[k].0 != race@);
            }
            let mut chunk = clone_string_vec(lines);
            let slot = &mut buckets[i];
            slot.lines.append(&mut chunk);
            proof {
                assert(buckets@[i as int].lines@ =~= old(buckets)@[i as int].lines@ + lines@);
                assert(buckets@[i as int].lines.deep_view() =~= old(buckets)@[i as int].lines.deep_view()
                    + lines.deep_view());
                assert(buckets_view(buckets@) =~= bucket_insert(
                    buckets_view(old(buckets)@),
                    race@,
                    lines.deep_view(),
                ));
            }
            return ;
        }
        i = i + 1;
    }
    proof {
        lemma_bucket_idx(buckets_view(buckets@), race@);
        if bucket_idx(buckets_view(buckets@), race@) >= 0 {
            let j = bucket_idx(buckets_view(buckets@), race@);
            assert(buckets@[j].race@ != race@);
        }
    }
    let fresh = RaceLines { race: race.to_owned(), lines: clone_string_vec(lines) };
    buckets.push(fresh);
    proof {
        assert(buckets_view(buckets@) =~= bucket_insert(
            buckets_view(old(buckets)@),
            race@,
            lines.deep_view(),
        ));
    }
}

/// The job list as job images, in order.
pub open spec fn jobs_view(js: Seq<LineJob>) -> Seq<JobV> {
    Seq::new(js.len(), |k: int| js[k]@)
}

/// Runs the whole generation fold: seeds the emitted set with the two
/// reserved sentinels, then processes every job in order, exactly as
/// [`gen_result`] states.
pub fn gen_race_lines(jobs: &Vec<LineJob>, hash: &str) -> (r: Vec<RaceLines>)
    requires
        forall|k: int| 0 <= k < jobs@.len() ==> (#[trigger] jobs@[k]).events@.len() >= 1,
    ensures
        buckets_view(r@) == gen_result(jobs_view(jobs@), hash@).0,
{
    let ghost jv = jobs_view(jobs@);
    let ghost init: GenState = (Seq::empty(), seed_emitted());
    let mut emitted: Vec<String> = Vec::new();
    emitted.push("__BLANK__".to_owned());
    emitted.push("__DEFAULT__".to_owned());
    let mut buckets: Vec<RaceLines> = Vec::new();
    proof {
        assert(emitted.deep_view() =~= seed_emitted());
        assert(buckets_view(buckets@) =~= init.0);
    }
    let n: usize = jobs.len();
    let mut i: usize = 0;
    while i < n
        invariant
            n == jobs@.len(),
            i <= n,
            jv == jobs_view(jobs@),
            init == ((Seq::<(Seq<char>, Seq<Seq<char>>)>::empty(), seed_emitted())),
            forall|k: int| 0 <= k < jobs@.len() ==> (#[trigger] jobs@[k]).events@.len() >= 1,
            buckets_view(buckets@) == gen_upto(jv, hash@, init, i as int).0,
            emitted.deep_view() == gen_upto(jv, hash@, init, i as int).1,
        decreases n - i,
    {
        let ghost st = gen_upto(jv, hash@, init, i as int);
        let job = &jobs[i];
        proof {
            assert(jv[i as int] == jobs@[i as int]@);
            assert(job_key(jv[i as int]) == job.events@[0]@);
            assert(job.events.deep_view()[0] == job.events@[0]@);
        }
        if !contains_str(&emitted, job.events[0].as_str()) {
            emitted.push(job.events[0].clone());
            let lines = make_fnis_lines(&job.events, hash, job.fixed, &job.objects);
            let races = race_buckets_exec(job.race.as_str());
            proof {
                assert(emitted.deep_view() =~= st.1.push(job_key(jv[i as int])));
                assert(lines.deep_view() == job_lines(jv[i as int], hash@));
            }
            let ghost target = bucket_insert_all(
                st.0,
                race_buckets(jv[i as int].1),
                job_lines(jv[i as int], hash@),
            );
            proof {
                assert(race_buckets(jv[i as int].1).skip(0) =~= race_buckets(jv[i as int].1));
            }
            let m: usize = races.len();
            let mut t: usize = 0;
            while t < m
                invariant
                    m == races@.len(),
                    t <= m,
                    races@.len() == race_buckets(jv[i as int].1).len(),
                    forall|k: int|
                        0 <= k < races@.len() ==> races@[k]@ == #[trigger] race_buckets(
                            jv[i as int].1,
                        )[k],
                    lines.deep_view() == job_lines(jv[i as int], hash@),
                    target == bucket_insert_all(
                        buckets_view(buckets@),
                        race_buckets(jv[i as int].1).skip(t as int),
                        job_lines(jv[i as int], hash@),
                    ),
                decreases m - t,
            {
                let ghost before = buckets_view(buckets@);
                let ghost rem = race_buckets(jv[i as int].1).skip(t as int);
                bucket_insert_exec(&mut buckets, races[t].as_str(), &lines);
                proof {
                    assert(rem.first() == race_buckets(jv[i as int].1)[t as int]);
                    assert(races@[t as int]@ == rem.first());
                    assert(buckets_view(buckets@) == bucket_insert(
                        before,
                        rem.first(),
                        job_lines(jv[i as int], hash@),
                    ));
                    assert(rem.drop_first() =~= race_buckets(jv[i as int].1).skip(t + 1));
                }
                t = t + 1;
            }
            proof {
                assert(race_buckets(jv[i as int].1).skip(m as int) =~= Seq::<Seq<char>>::empty());
                assert(buckets_view(buckets@) == target);
                assert(gen_upto(jv, hash@, init, i + 1) == gen_step(st, jv[i as int], hash@));
            }
        } else {
            proof {
                assert(gen_upto(jv, hash@, init, i + 1) == gen_step(st, jv[i as int], hash@));
            }
        }
        i = i + 1;
    }
    proof {
        assert(gen_upto(jv, hash@, init, n as int) == gen_result(jv, hash@));
    }
    buckets
}


/// Comma tokens with the empty ones discarded.
pub open spec fn nonempty_tokens(ts: Seq<Seq<char>>) -> Seq<Seq<char>>
    decreases ts.len(),
{
    if ts.len() == 0 {
        Seq::empty()
    } else if ts.last().len() > 0 {
        nonempty_tokens(ts.drop_last()).push(ts.last())
    } else {
        nonempty_tokens(ts.drop_last())
    }
}

/// Splits a comma-separated object list, discarding empty tokens.
pub fn split_objects(s: &str) -> (r: Vec<String>)
    ensures
        r.deep_view() == nonempty_tokens(split_commas(s@)),
{
    let toks = crate::text::split_commas_exec(s);
    let ghost tsv = split_commas(s@);
    proof {
        assert(toks.deep_view() =~= tsv);
    }
    let mut r: Vec<String> = Vec::new();
    let n: usize = toks.len();
    let mut i: usize = 0;
    while i < n
        invariant
            n == toks@.len(),
            i <= n,
            toks.deep_view() == tsv,
            r.deep_view() == nonempty_tokens(tsv.take(i as int)),
        decreases n - i,
    {
        proof {
            assert(tsv.take(i + 1).drop_last() =~= tsv.take(i as int));
            assert(tsv.take(i + 1).last() == tsv[i as int]);
            assert(toks@[i as int]@ == tsv[i as int]);
        }
        if !toks[i].as_str().is_empty() {
            let t = toks[i].clone();
            r.push(t);
            proof {
                assert(r.deep_view() =~= nonempty_tokens(tsv.take(i + 1)));
            }
        } else {
            proof {
                assert(r.deep_view() =~= nonempty_tokens(tsv.take(i + 1)));
            }
        }
        i = i + 1;
    }
    proof {
        assert(tsv.take(n as int) =~= tsv);
    }
    r
}

/// A fatal condition met while compiling the text manifests.
#[derive(Debug, Clone, PartialEq, Eq)]
pub enum CompileError {
    /// A scene owed to the artifact has no stages.
    SceneWithoutStages { scene_id: String },
    /// A stage's position count differs from the scene's template count.
    PositionCountMismatch { scene_id: String },
    /// A position carries no animation event at all.
    MissingEvent { scene_id: String },
    /// A race key with no engine folder.
    UnmappedRace { race: String },
}

/// A stage fit for emission: one position per template slot, each with at
/// least one event.
pub open spec fn stage_consistent(st: Stage, slots: nat) -> bool {
    st.positions@.len() == slots && forall|p: int|
        0 <= p < st.positions@.len() ==> (#[trigger] st.positions@[p]).event@.len() >= 1
}

/// A scene fit for emission: at least one stage, every stage consistent
/// with the scene's templates.
pub open spec fn scene_consistent(s: Scene) -> bool {
    s.stages@.len() > 0 && forall|t: int|
        0 <= t < s.stages@.len() ==> stage_consistent(
            #[trigger] s.stages@[t],
            s.positions@.len(),
        )
}

/// The jobs of one stage: one per actor slot, combining the stage-level
/// position with the scene-level template at the same slot.
pub open spec fn stage_jobs(st: Stage, templates: Seq<Position>) -> Seq<JobV> {
    Seq::new(
        st.positions@.len(),
        |p: int|
            (
                st.positions@[p].event.deep_view(),
                templates[p].race@,
                st.extra.fixed_len > 0,
                nonempty_tokens(split_commas(st.positions@[p].anim_obj@)),
            ),
    )
}

/// The jobs of a stage list, in stage order.
pub open spec fn stages_jobs(stages: Seq<Stage>, templates: Seq<Position>) -> Seq<JobV>
    decreases stages.len(),
{
    if stages.len() == 0 {
        Seq::empty()
    } else {
        stages_jobs(stages.drop_last(), templates) + stage_jobs(stages.last(), templates)
    }
}

/// The jobs of a whole package: every non-warning scene, in order.
pub open spec fn package_jobs(scenes: Seq<Scene>) -> Seq<JobV>
    decreases scenes.len(),
{
    if scenes.len() == 0 {
        Seq::empty()
    } else if scenes.last().has_warnings {
        package_jobs(scenes.drop_last())
    } else {
        package_jobs(scenes.drop_last()) + stages_jobs(
            scenes.last().stages@,
            scenes.last().positions@,
        )
    }
}

impl Package {
    /// Walks every non-warning scene and collects one job per stage and
    /// actor slot, in traversal order. A non-warning scene with no
    /// stages, a stage whose position count differs from the scene's
    /// template count, or a position without events is a consistency
    /// error carrying the offending scene id; the walk is all-or-nothing.
    pub fn collect_line_jobs(&self) -> (r: Result<Vec<LineJob>, CompileError>)
        ensures
            r is Ok <==> (forall|k: int|
                0 <= k < self.scenes@.len() ==> ((#[trigger] self.scenes@[k]).has_warnings
                    || scene_consistent(self.scenes@[k]))),
            ({
                match r {
                    Ok(jobs) => jobs_view(jobs@) == package_jobs(self.scenes@) && forall|k: int|
                        0 <= k < jobs@.len() ==> (#[trigger] jobs@[k]).events@.len() >= 1,
                    Err(e) => match e {
                        CompileError::SceneWithoutStages { scene_id } => exists|k: int|
                            0 <= k < self.scenes@.len() && (#[trigger] self.scenes@[k]).id@
                                == scene_id@ && !self.scenes@[k].has_warnings
                                && self.scenes@[k].stages@.len() == 0,
                        CompileError::PositionCountMismatch { scene_id } => exists|k: int|
                            0 <= k < self.scenes@.len() && (#[trigger] self.scenes@[k]).id@
                                == scene_id@ && !self.scenes@[k].has_warnings
                                && !scene_consistent(self.scenes@[k]),
                        CompileError::MissingEvent { scene_id } => exists|k: int|
                            0 <= k < self.scenes@.len() && (#[trigger] self.scenes@[k]).id@
                                == scene_id@ && !self.scenes@[k].has_warnings
                                && !scene_consistent(self.scenes@[k]),
                        CompileError::UnmappedRace { .. } => false,
                    },
                }
            }),
    {
        let mut jobs: Vec<LineJob> = Vec::new();
        let n: usize = self.scenes.len();
        let mut i: usize = 0;
        while i < n
            invariant
                n == self.scenes@.len(),
                i <= n,
                jobs_view(jobs@) == package_jobs(self.scenes@.take(i as int)),
                forall|k: int|
                    0 <= k < i ==> ((#[trigger] self.scenes@[k]).has_warnings || scene_consistent(
                        self.scenes@[k],
                    )),
                forall|k: int| 0 <= k < jobs@.len() ==> (#[trigger] jobs@[k]).events@.len() >= 1,
            decreases n - i,
        {
            let ghost done = package_jobs(self.scenes@.take(i as int));
            proof {
                assert(self.scenes@.take(i + 1).drop_last() =~= self.scenes@.take(i as int));
                assert(self.scenes@.take(i + 1).last() == self.scenes@[i as int]);
            }
            let sc = &self.scenes[i];
            if !sc.has_warnings {
                if sc.stages.len() == 0 {
                    proof {
                        assert(!scene_consistent(self.scenes@[i as int]));
                    }
                    return Err(CompileError::SceneWithoutStages { scene_id: sc.id.clone() });
                }
                let slots: usize = sc.positions.len();
                let m: usize = sc.stages.len();
                proof {
                    assert(sc.stages@.take(0) =~= Seq::<Stage>::empty());
                    assert(jobs_view(jobs@) =~~= done + stages_jobs(
                        sc.stages@.take(0),
                        sc.positions@,
                    ));
                }
                let mut t: usize = 0;
                while t < m
                    invariant
                        n == self.scenes@.len(),
                        i < n,
                        sc == &self.scenes@[i as int],
                        m == sc.stages@.len(),
                        !sc.has_warnings,
                        slots == sc.positions@.len(),
                        t <= m,
                        done == package_jobs(self.scenes@.take(i as int)),
                        jobs_view(jobs@) == done + stages_jobs(
                            sc.stages@.take(t as int),
                            sc.positions@,
                        ),
                        forall|k: int|
                            0 <= k < t ==> stage_consistent(
                                #[trigger] sc.stages@[k],
                                sc.positions@.len(),
                            ),
                        forall|k: int|
                            0 <= k < jobs@.len() ==> (#[trigger] jobs@[k]).events@.len() >= 1,
                    decreases m - t,
                {
                    let ghost scene_done = done + stages_jobs(
                        sc.stages@.take(t as int),
                        sc.positions@,
                    );
                    proof {
                        assert(sc.stages@.take(t + 1).drop_last() =~= sc.stages@.take(t as int));
                        assert(sc.stages@.take(t + 1).last() == sc.stages@[t as int]);
                    }
                    let st = &sc.stages[t];
                    if st.positions.len() != slots {
                        proof {
                            assert(!stage_consistent(sc.stages@[t as int], sc.positions@.len()));
                            assert(!scene_consistent(self.scenes@[i as int]));
                        }
                        return Err(
                            CompileError::PositionCountMismatch { scene_id: sc.id.clone() },
                        );
                    }
                    let fixed: bool = st.extra.fixed_len > 0;
                    let p_count: usize = st.positions.len();
                    proof {
                        assert(jobs_view(jobs@) =~~= scene_done + stage_jobs(
                            sc.stages@[t as int],
                            sc.positions@,
                        ).take(0));
                    }
                    let mut p: usize = 0;
                    while p < p_count
                        invariant
                            n == self.scenes@.len(),
                            i < n,
                            sc == &self.scenes@[i as int],
                            m == sc.stages@.len(),
                            !sc.has_warnings,
                            t < m,
                            st == &sc.stages@[t as int],
                            slots == sc.positions@.len(),
                            p_count == st.positions@.len(),
                            p_count == slots,
                            fixed == (st.extra.fixed_len > 0),
                            p <= p_count,
                            jobs_view(jobs@) == scene_done + stage_jobs(
                                sc.stages@[t as int],
                                sc.positions@,
                            ).take(p as int),
                            forall|q: int|
                                0 <= q < p ==> (#[trigger] st.positions@[q]).event@.len() >= 1,
                            forall|k: int|
                                0 <= k < jobs@.len() ==> (#[trigger] jobs@[k]).events@.len() >= 1,
                        decreases p_count - p,
                    {
                        let pos = &st.positions[p];
                        if pos.event.len() == 0 {
                            proof {
                                assert(!stage_consistent(
                                    sc.stages@[t as int],
                                    sc.positions@.len(),
                                ));
                                assert(!scene_consistent(self.scenes@[i as int]));
                            }
                            return Err(CompileError::MissingEvent { scene_id: sc.id.clone() });
                        }
                        let objects = split_objects(pos.anim_obj.as_str());
                        let job = LineJob {
                            events: clone_string_vec(&pos.event),
                            race: sc.positions[p].race.clone(),
                            fixed,
                            objects,
                        };
                        let ghost jobs_before = jobs@;
                        jobs.push(job);
                        proof {
                            let x = stage_jobs(sc.stages@[t as int], sc.positions@);
                            assert(x.len() == p_count);
                            assert(jobs@.last()@ == x[p as int]);
                            assert(jobs@ == jobs_before.push(job));
                            assert(jobs_view(jobs_before).len() == scene_done.len() + p);
                            assert forall|k: int|
                                0 <= k < jobs@.len() implies #[trigger] jobs_view(jobs@)[k] == (
                            scene_done + x.take(p + 1))[k] by {
                                assert(jobs_view(jobs@)[k] == jobs@[k]@);
                                if k < jobs_before.len() {
                                    assert(jobs@[k] == jobs_before[k]);
                                    assert(jobs_view(jobs_before)[k] == jobs_before[k]@);
                                    assert(jobs_view(jobs_before)[k] == (scene_done + x.take(
                                        p as int,
                                    ))[k]);
                                    if k >= scene_done.len() {
                                        assert(x.take(p as int)[k - scene_done.len()] == x[k
                                            - scene_done.len()]);
                                        assert(x.take(p + 1)[k - scene_done.len()] == x[k
                                            - scene_done.len()]);
                                    }
                                } else {
                                    assert(k == jobs_before.len());
                                    assert(jobs@[k] == job);
                                    assert((scene_done + x.take(p + 1))[k] == x.take(p + 1)[
                                        p as int]);
                                    assert(x.take(p + 1)[p as int] == x[p as int]);
                                }
                            }
                            assert(jobs_view(jobs@) =~= scene_done + x.take(p + 1));
                        }
                        p = p + 1;
                    }
                    proof {
                        assert(stage_jobs(sc.stages@[t as int], sc.positions@).take(
                            p_count as int,
                        ) =~= stage_jobs(sc.stages@[t as int], sc.positions@));
                        assert(jobs_view(jobs@) =~~= done + stages_jobs(
                            sc.stages@.take(t + 1),
                            sc.positions@,
                        ));
                    }
                    t = t + 1;
                }
                proof {
                    assert(sc.stages@.take(m as int) =~= sc.stages@);
                    assert(scene_consistent(self.scenes@[i as int]));
                    assert(jobs_view(jobs@) =~~= package_jobs(self.scenes@.take(i + 1)));
                }
            }
            i = i + 1;
        }
        proof {
            assert(self.scenes@.take(n as int) =~= self.scenes@);
        }
        Ok(jobs)
    }
}


/// One plain-text manifest to write: target directory, file name, lines.
#[derive(Debug, Clone, PartialEq, Eq)]
pub struct TextManifest {
    pub dir: String,
    pub file_name: String,
    pub lines: Vec<String>,
}

/// The folder's trailing path segment: what follows the first backslash,
/// or the whole folder when it has none.
pub open spec fn folder_tail(folder: Seq<char>) -> Seq<char> {
    let i = crate::text::find_char(folder, '\\');
    if i >= 0 {
        folder.skip(i + 1)
    } else {
        folder
    }
}

/// The directory a race bucket's manifest goes to.
pub open spec fn manifest_dir(folder: Seq<char>, pack: Seq<char>) -> Seq<char> {
    "meshes\\actors\\"@ + folder + "\\animations\\"@ + pack
}

/// The manifest file name: the generic character folder and every
/// specific creature folder get one manifest per package; the canine
/// folder gets up to three, chosen by the exact race key.
pub open spec fn manifest_file(race: Seq<char>, folder: Seq<char>, pack: Seq<char>) -> Seq<char> {
    let crt = folder_tail(folder);
    if crt == "character"@ {
        "FNIS_"@ + pack + "_List.txt"@
    } else if crt == "canine"@ {
        if race == "Canine"@ {
            "FNIS_"@ + pack + "_canine_List.txt"@
        } else if race == "Dog"@ {
            "FNIS_"@ + pack + "_dog_List.txt"@
        } else {
            "FNIS_"@ + pack + "_wolf_List.txt"@
        }
    } else {
        "FNIS_"@ + pack + "_"@ + crt + "_List.txt"@
    }
}

/// Routes every race bucket to its folder and file name. An unmapped
/// race key is a fatal error, exactly when [`race_folder`] has no entry.
pub fn build_manifests(lists: &Vec<RaceLines>, pack_name: &str) -> (r: Result<
    Vec<TextManifest>,
    CompileError,
>)
    ensures
        r is Ok <==> (forall|k: int|
            0 <= k < lists@.len() ==> crate::fnis::race_folder(
                (#[trigger] lists@[k]).race@,
            ) is Some),
        ({
            match r {
                Ok(ms) => ms@.len() == lists@.len() && forall|k: int|
                    0 <= k < ms@.len() ==> {
                        let folder = crate::fnis::race_folder(lists@[k].race@)->0;
                        &&& (#[trigger] ms@[k]).dir@ == manifest_dir(folder, pack_name@)
                        &&& ms@[k].file_name@ == manifest_file(
                            lists@[k].race@,
                            folder,
                            pack_name@,
                        )
                        &&& ms@[k].lines.deep_view() == lists@[k].lines.deep_view()
                    },
                Err(e) => match e {
                    CompileError::UnmappedRace { race } => exists|k: int|
                        0 <= k < lists@.len() && (#[trigger] lists@[k]).race@ == race@
                            && crate::fnis::race_folder(lists@[k].race@) is None,
                    _ => false,
                },
            }
        }),
{
    let mut ms: Vec<TextManifest> = Vec::new();
    let n: usize = lists.len();
    let mut k: usize = 0;
    while k < n
        invariant
            n == lists@.len(),
            k <= n,
            ms@.len() == k,
            forall|j: int|
                0 <= j < k ==> crate::fnis::race_folder((#[trigger] lists@[j]).race@) is Some,
            forall|j: int|
                0 <= j < k ==> {
                    let folder = crate::fnis::race_folder(lists@[j].race@)->0;
                    &&& (#[trigger] ms@[j]).dir@ == manifest_dir(folder, pack_name@)
                    &&& ms@[j].file_name@ == manifest_file(lists@[j].race@, folder, pack_name@)
                    &&& ms@[j].lines.deep_view() == lists@[j].lines.deep_view()
                },
        decreases n - k,
    {
        let entry = &lists[k];
        let folder: String = match crate::fnis::map_race_to_folder(entry.race.as_str()) {
            Ok(f) => f,
            Err(_) => {
                return Err(CompileError::UnmappedRace { race: entry.race.clone() });
            }
        };
        let fl: usize = folder.as_str().unicode_len();
        let mut pos: usize = 0;
        let mut found: bool = false;
        while pos < fl && !found
            invariant
                fl == folder@.len(),
                pos <= fl,
                found ==> pos < fl && folder@[pos as int] == '\\',
                forall|q: int| 0 <= q < pos ==> folder@[q] != '\\',
            decreases fl - pos + (if found { 0int } else { 1int }),
        {
            if folder.as_str().get_char(pos) == '\\' {
                found = true;
            } else {
                pos = pos + 1;
            }
        }
        proof {
            crate::text::lemma_find_char(folder@, '\\');
        }
        let crt: &str = if found {
            folder.as_str().substring_char(pos + 1, fl)
        } else {
            folder.as_str()
        };
        proof {
            assert(crt@ == folder_tail(folder@));
        }
        let mut dir: String = "meshes\\actors\\".to_owned();
        dir.append(folder.as_str());
        dir.append("\\animations\\");
        dir.append(pack_name);
        let mut file: String = "FNIS_".to_owned();
        file.append(pack_name);
        if crate::text::str_eq(crt, "character") {
            file.append("_List.txt");
        } else if crate::text::str_eq(crt, "canine") {
            if crate::text::str_eq(entry.race.as_str(), "Canine") {
                file.append("_canine_List.txt");
            } else if crate::text::str_eq(entry.race.as_str(), "Dog") {
                file.append("_dog_List.txt");
            } else {
                file.append("_wolf_List.txt");
            }
        } else {
            file.append("_");
            file.append(crt);
            file.append("_List.txt");
        }
        proof {
            assert(dir@ =~= manifest_dir(folder@, pack_name@));
            assert(file@ =~= manifest_file(entry.race@, folder@, pack_name@));
        }
        let m = TextManifest { dir, file_name: file, lines: clone_string_vec(&entry.lines) };
        ms.push(m);
        k = k + 1;
    }
    proof {
        if !(forall|j: int|
            0 <= j < lists@.len() ==> crate::fnis::race_folder(
                (#[trigger] lists@[j]).race@,
            ) is Some) {
            assert(false);
        }
    }
    Ok(ms)
}

impl Package {
    /// Compiles the race-grouped text manifests of this package: collects
    /// one job per stage position of every non-warning scene, runs the
    /// globally de-duplicated generation fold seeded with the reserved
    /// sentinels, and routes each race bucket to its folder and file.
    pub fn compile_text(&self) -> (r: Result<Vec<TextManifest>, CompileError>)
        ensures
            ({
                let jobs = package_jobs(self.scenes@);
                let buckets = gen_result(jobs, self.prefix_hash@).0;
                match r {
                    Ok(ms) => {
                        &&& (forall|k: int|
                            0 <= k < self.scenes@.len() ==> ((
                            #[trigger] self.scenes@[k]).has_warnings || scene_consistent(
                                self.scenes@[k],
                            )))
                        &&& ms@.len() == buckets.len()
                        &&& (forall|k: int|
                            0 <= k < ms@.len() ==> {
                                let folder = crate::fnis::race_folder(buckets[k].0)->0;
                                &&& crate::fnis::race_folder(buckets[k].0) is Some
                                &&& (#[trigger] ms@[k]).dir@ == manifest_dir(
                                    folder,
                                    self.pack_name@,
                                )
                                &&& ms@[k].file_name@ == manifest_file(
                                    buckets[k].0,
                                    folder,
                                    self.pack_name@,
                                )
                                &&& ms@[k].lines.deep_view() == buckets[k].1
                            })
                    },
                    Err(e) => match e {
                        CompileError::UnmappedRace { race } => exists|k: int|
                            0 <= k < buckets.len() && (#[trigger] buckets[k]).0 == race@
                                && crate::fnis::race_folder(buckets[k].0) is None,
                        _ => exists|k: int|
                            0 <= k < self.scenes@.len() && !(#[trigger] self.scenes@[k]).has_warnings
                                && !scene_consistent(self.scenes@[k]),
                    },
                }
            }),
    {
        let jobs = match self.collect_line_jobs() {
            Ok(jobs) => jobs,
            Err(e) => {
                return Err(e);
            }
        };
        let lists = gen_race_lines(&jobs, self.prefix_hash.as_str());
        let ghost buckets = gen_result(package_jobs(self.scenes@), self.prefix_hash@).0;
        proof {
            assert(buckets_view(lists@) == buckets);
        }
        match build_manifests(&lists, self.pack_name.as_str()) {
            Ok(ms) => {
                proof {
                    assert forall|k: int| 0 <= k < ms@.len() implies {
                        let folder = crate::fnis::race_folder(buckets[k].0)->0;
                        &&& crate::fnis::race_folder(buckets[k].0) is Some
                        &&& (#[trigger] ms@[k]).dir@ == manifest_dir(folder, self.pack_name@)
                        &&& ms@[k].file_name@ == manifest_file(
                            buckets[k].0,
                            folder,
                            self.pack_name@,
                        )
                        &&& ms@[k].lines.deep_view() == buckets[k].1
                    } by {
                        assert(lists@[k].race@ == buckets[k].0);
                        assert(lists@[k].lines.deep_view() == buckets[k].1);
                    }
                }
                Ok(ms)
            }
            Err(e) => {
                proof {
                    if let CompileError::UnmappedRace { race } = &e {
                        let w = choose|k: int|
                            0 <= k < lists@.len() && (#[trigger] lists@[k]).race@ == race@
                                && crate::fnis::race_folder(lists@[k].race@) is None;
                        assert(buckets_view(lists@)[w].0 == race@);
                        assert(buckets[w].0 == race@);
                    }
                }
                Err(e)
            }
        }
    }
}

} // verus!
