//! The hash-diff synchronizer: given the remote manifest, an engine
//! namespace and the digests of the files currently on disk, decide
//! which files must be fetched.
//!
//! The decision for one entry: entries outside the engine's namespace
//! are ignored; an entry whose local copy is missing, or whose local
//! digest differs from the manifest digest up to ASCII letter case, is
//! planned for download; a matching copy is left alone. Completing the
//! planned downloads brings every entry of the engine in line with the
//! manifest and touches nothing else.

use vstd::prelude::*;

use crate::manifest::{
    belongs_to_engine, engine_prefix, entries_view, lemma_belongs_decompose,
    lemma_rel_path_injective, local_rel_path, rel_path_of, CdnFile, EntryV,
};
use crate::text::eq_ignore_ascii_case;

verus! {

/// Mathematical image of a planned download.
pub ghost struct TaskV {
    pub name: Seq<char>,
    pub rel_path: Seq<char>,
}

/// One planned download: the manifest name (used to address the remote
/// file) and the path of the local copy relative to the target
/// directory.
pub struct SyncTask {
    pub name: String,
    pub rel_path: String,
}

impl View for SyncTask {
    type V = TaskV;

    open spec fn view(&self) -> TaskV {
        TaskV { name: self.name@, rel_path: self.rel_path@ }
    }
}

/// Image of a task list.
pub open spec fn tasks_view(t: Seq<SyncTask>) -> Seq<TaskV> {
    t.map_values(|x: SyncTask| x@)
}

/// The download that entry `e` would require.
pub open spec fn task_of(e: EntryV, engine: Seq<char>) -> TaskV {
    TaskV { name: e.name, rel_path: rel_path_of(e.name, engine) }
}

/// The digests of the local files: relative path of each existing file
/// to its computed content digest.
pub struct DirState {
    files: Vec<(String, String)>,
}

/// Association list folded into a map; a later record for the same
/// path supersedes an earlier one.
pub closed spec fn map_of(pairs: Seq<(String, String)>) -> Map<Seq<char>, Seq<char>>
    decreases pairs.len(),
{
    if pairs.len() == 0 {
        Map::empty()
    } else {
        map_of(pairs.drop_last()).insert(pairs.last().0@, pairs.last().1@)
    }
}

impl View for DirState {
    type V = Map<Seq<char>, Seq<char>>;

    closed spec fn view(&self) -> Map<Seq<char>, Seq<char>> {
        map_of(self.files@)
    }
}

proof fn lemma_map_of_not_found(pairs: Seq<(String, String)>, key: Seq<char>)
    requires
        forall|k: int| 0 <= k < pairs.len() ==> (#[trigger] pairs[k]).0@ != key,
    ensures
        !map_of(pairs).contains_key(key),
    decreases pairs.len(),
{
    if pairs.len() > 0 {
        lemma_map_of_not_found(pairs.drop_last(), key);
    }
}

proof fn lemma_map_of_found(pairs: Seq<(String, String)>, key: Seq<char>, j: int)
    requires
        0 <= j < pairs.len(),
        pairs[j].0@ == key,
        forall|k: int| j < k < pairs.len() ==> (#[trigger] pairs[k]).0@ != key,
    ensures
        map_of(pairs).contains_key(key),
        map_of(pairs)[key] == pairs[j].1@,
    decreases pairs.len(),
{
    if j == pairs.len() - 1 {
    } else {
        lemma_map_of_found(pairs.drop_last(), key, j);
    }
}

impl DirState {
    /// A directory with no recorded files.
    pub fn new() -> (d: DirState)
        ensures
            d@ == Map::<Seq<char>, Seq<char>>::empty(),
    {
        DirState { files: Vec::new() }
    }

    /// Record that the file at `path` exists with content digest
    /// `digest`, superseding any earlier record for the same path.
    pub fn record(&mut self, path: String, digest: String)
        ensures
            final(self)@ == old(self)@.insert(path@, digest@),
    {
        let ghost before = self.files@;
        self.files.push((path, digest));
        proof {
            assert(self.files@.drop_last() =~= before);
        }
    }

    /// The recorded digest of the file at `path`, if any.
    pub fn lookup(&self, path: &String) -> (r: Option<&String>)
        ensures
            match r {
                Some(d) => self@.contains_key(path@) && d@ == self@[path@],
                None => !self@.contains_key(path@),
            },
    {
        let mut i: usize = self.files.len();
        while i > 0
            invariant
                i <= self.files@.len(),
                forall|k: int| i <= k < self.files@.len() ==> (#[trigger] self.files@[k]).0@
                    != path@,
            decreases i,
        {
            i = i - 1;
            if crate::text::str_eq(self.files[i].0.as_str(), path.as_str()) {
                proof {
                    lemma_map_of_found(self.files@, path@, i as int);
                }
                return Some(&self.files[i].1);
            }
        }
        proof {
            lemma_map_of_not_found(self.files@, path@);
        }
        None
    }
}

/// Entry `e` is in line with the local state: its local copy exists
/// and its digest matches the manifest digest up to ASCII letter case.
pub open spec fn entry_synced(e: EntryV, engine: Seq<char>, local: Map<Seq<char>, Seq<char>>) -> bool {
    let rel = rel_path_of(e.name, engine);
    local.contains_key(rel) && eq_ignore_ascii_case(local[rel], e.hash)
}

/// Entry `e` requires a download: it belongs to the engine's namespace
/// and its local copy is missing or does not match.
pub open spec fn needs_sync(e: EntryV, engine: Seq<char>, local: Map<Seq<char>, Seq<char>>) -> bool {
    belongs_to_engine(e.name, engine) && !entry_synced(e, engine, local)
}

/// The downloads a synchronization pass performs, in manifest order:
/// one task for each entry of the engine whose local copy is missing
/// or mismatched.
pub open spec fn plan_spec(
    entries: Seq<EntryV>,
    engine: Seq<char>,
    local: Map<Seq<char>, Seq<char>>,
) -> Seq<TaskV>
    decreases entries.len(),
{
    if entries.len() == 0 {
        Seq::empty()
    } else {
        plan_spec(entries.drop_last(), engine, local) + (if needs_sync(
            entries.last(),
            engine,
            local,
        ) {
            seq![task_of(entries.last(), engine)]
        } else {
            Seq::empty()
        })
    }
}

/// Compute the downloads that bring the target directory in line with
/// the manifest for one engine. Entries outside the engine's namespace
/// are ignored; an entry is planned exactly when its local copy is
/// missing or its digest differs from the manifest digest by more than
/// ASCII letter case.
pub fn synchronize(manifest: &Vec<CdnFile>, engine: &str, local: &DirState) -> (tasks: Vec<
    SyncTask,
>)
    ensures
        tasks_view(tasks@) == plan_spec(entries_view(manifest@), engine@, local@),
{
    let ghost entries = entries_view(manifest@);
    let mut tasks: Vec<SyncTask> = Vec::new();
    let mut i: usize = 0;
    while i < manifest.len()
        invariant
            i <= manifest@.len(),
            entries == entries_view(manifest@),
            tasks_view(tasks@) == plan_spec(entries.take(i as int), engine@, local@),
        decreases manifest@.len() - i,
    {
        let ghost prefix = entries.take(i as int);
        let e = &manifest[i];
        match local_rel_path(e.name.as_str(), engine) {
            None => {
                assert(!needs_sync(entries[i as int], engine@, local@));
            },
            Some(rel) => {
                let synced: bool = match local.lookup(&rel) {
                    None => false,
                    Some(d) => crate::text::str_eq_ignore_ascii_case(
                        d.as_str(),
                        e.hash.as_str(),
                    ),
                };
                if !synced {
                    let task = SyncTask { name: e.name.clone(), rel_path: rel };
                    assert(task@ == task_of(entries[i as int], engine@));
                    let ghost old_tasks = tasks@;
                    tasks.push(task);
                    proof {
                        assert(tasks_view(tasks@) =~= tasks_view(old_tasks).push(
                            task_of(entries[i as int], engine@),
                        ));
                    }
                } else {
                    assert(!needs_sync(entries[i as int], engine@, local@));
                }
            },
        }
        proof {
            assert(entries.take(i + 1 as int).drop_last() =~= prefix);
            assert(entries.take(i + 1 as int).last() == entries[i as int]);
            if needs_sync(entries[i as int], engine@, local@) {
                assert(tasks_view(tasks@) =~= plan_spec(prefix, engine@, local@) + seq![
                    task_of(entries[i as int], engine@),
                ]);
            } else {
                assert(tasks_view(tasks@) =~= plan_spec(prefix, engine@, local@)
                    + Seq::<TaskV>::empty());
            }
        }
        i = i + 1;
    }
    proof {
        assert(entries.take(manifest@.len() as int) =~= entries);
    }
    tasks
}

/// Every entry that requires a download is planned.
pub proof fn lemma_plan_complete(
    entries: Seq<EntryV>,
    engine: Seq<char>,
    local: Map<Seq<char>, Seq<char>>,
    i: int,
)
    requires
        0 <= i < entries.len(),
        needs_sync(entries[i], engine, local),
    ensures
        plan_spec(entries, engine, local).contains(task_of(entries[i], engine)),
    decreases entries.len(),
{
    let plan = plan_spec(entries, engine, local);
    if i == entries.len() - 1 {
        assert(plan[plan.len() - 1] == task_of(entries[i], engine));
    } else {
        lemma_plan_complete(entries.drop_last(), engine, local, i);
        let sub = plan_spec(entries.drop_last(), engine, local);
        let j = choose|j: int| 0 <= j < sub.len() && sub[j] == task_of(entries[i], engine);
        assert(plan[j] == task_of(entries[i], engine));
    }
}

/// Every planned task is the download some entry requires.
pub proof fn lemma_plan_sound(
    entries: Seq<EntryV>,
    engine: Seq<char>,
    local: Map<Seq<char>, Seq<char>>,
    j: int,
)
    requires
        0 <= j < plan_spec(entries, engine, local).len(),
    ensures
        exists|i: int|
            0 <= i < entries.len() && needs_sync(#[trigger] entries[i], engine, local)
                && plan_spec(entries, engine, local)[j] == task_of(entries[i], engine),
    decreases entries.len(),
{
    let plan = plan_spec(entries, engine, local);
    let sub = plan_spec(entries.drop_last(), engine, local);
    if j < sub.len() {
        lemma_plan_sound(entries.drop_last(), engine, local, j);
        let i = choose|i: int|
            0 <= i < entries.drop_last().len() && needs_sync(
                #[trigger] entries.drop_last()[i],
                engine,
                local,
            ) && sub[j] == task_of(entries.drop_last()[i], engine);
        assert(entries[i] == entries.drop_last()[i]);
        assert(needs_sync(entries[i], engine, local) && plan[j] == task_of(entries[i], engine));
    } else {
        let i = entries.len() - 1;
        assert(needs_sync(entries[i], engine, local) && plan[j] == task_of(entries[i], engine));
    }
}

/// A manifest is well formed for an engine when no two of the engine's
/// entries share a name.
pub open spec fn wf_manifest(entries: Seq<EntryV>, engine: Seq<char>) -> bool {
    forall|i: int, j: int|
        0 <= i < j < entries.len() && belongs_to_engine((#[trigger] entries[i]).name, engine)
            && belongs_to_engine((#[trigger] entries[j]).name, engine) ==> entries[i].name
            != entries[j].name
}

/// Prefix isolation: every planned task names a remote file inside the
/// engine's namespace, and writes only to the local path obtained by
/// stripping that namespace. Entries of any other engine never
/// contribute a write.
pub proof fn lemma_prefix_isolation(
    entries: Seq<EntryV>,
    engine: Seq<char>,
    local: Map<Seq<char>, Seq<char>>,
    j: int,
)
    requires
        0 <= j < plan_spec(entries, engine, local).len(),
    ensures
        belongs_to_engine(plan_spec(entries, engine, local)[j].name, engine),
        plan_spec(entries, engine, local)[j].name == engine_prefix(engine) + plan_spec(
            entries,
            engine,
            local,
        )[j].rel_path,
{
    lemma_plan_sound(entries, engine, local, j);
    let i = choose|i: int|
        0 <= i < entries.len() && needs_sync(#[trigger] entries[i], engine, local) && plan_spec(
            entries,
            engine,
            local,
        )[j] == task_of(entries[i], engine);
    lemma_belongs_decompose(entries[i].name, engine);
}

/// Some path is written when the plan is carried out.
pub open spec fn written_by(
    entries: Seq<EntryV>,
    engine: Seq<char>,
    local: Map<Seq<char>, Seq<char>>,
    p: Seq<char>,
) -> bool {
    exists|i: int|
        0 <= i < entries.len() && needs_sync(#[trigger] entries[i], engine, local) && rel_path_of(
            entries[i].name,
            engine,
        ) == p
}

/// The local state after every planned download completed: each
/// planned path now carries the digest of its manifest entry; every
/// other path is untouched.
pub open spec fn apply_plan(
    entries: Seq<EntryV>,
    engine: Seq<char>,
    local: Map<Seq<char>, Seq<char>>,
) -> Map<Seq<char>, Seq<char>> {
    Map::new(
        |p: Seq<char>| local.contains_key(p) || written_by(entries, engine, local, p),
        |p: Seq<char>|
            if written_by(entries, engine, local, p) {
                entries[choose|i: int|
                    0 <= i < entries.len() && needs_sync(#[trigger] entries[i], engine, local)
                        && rel_path_of(entries[i].name, engine) == p].hash
            } else {
                local[p]
            },
    )
}

/// Paths the plan does not name keep their previous state, present or
/// absent, digest for digest.
pub proof fn lemma_apply_untouched(
    entries: Seq<EntryV>,
    engine: Seq<char>,
    local: Map<Seq<char>, Seq<char>>,
    p: Seq<char>,
)
    requires
        !written_by(entries, engine, local, p),
    ensures
        apply_plan(entries, engine, local).contains_key(p) == local.contains_key(p),
        local.contains_key(p) ==> apply_plan(entries, engine, local)[p] == local[p],
{
}

/// After the planned downloads complete, every entry of the engine is
/// in line with the manifest.
pub proof fn lemma_apply_synchronizes(
    entries: Seq<EntryV>,
    engine: Seq<char>,
    local: Map<Seq<char>, Seq<char>>,
    i: int,
)
    requires
        wf_manifest(entries, engine),
        0 <= i < entries.len(),
        belongs_to_engine(entries[i].name, engine),
    ensures
        entry_synced(entries[i], engine, apply_plan(entries, engine, local)),
{
    let rel = rel_path_of(entries[i].name, engine);
    let after = apply_plan(entries, engine, local);
    if needs_sync(entries[i], engine, local) {
        assert(written_by(entries, engine, local, rel));
        let w = choose|w: int|
            0 <= w < entries.len() && needs_sync(#[trigger] entries[w], engine, local)
                && rel_path_of(entries[w].name, engine) == rel;
        lemma_rel_path_injective(entries[w].name, entries[i].name, engine);
        assert(after[rel] == entries[i].hash);
        crate::text::lemma_eq_ignore_ascii_case_refl(entries[i].hash);
    } else {
        if written_by(entries, engine, local, rel) {
            let w = choose|w: int|
                0 <= w < entries.len() && needs_sync(#[trigger] entries[w], engine, local)
                    && rel_path_of(entries[w].name, engine) == rel;
            lemma_rel_path_injective(entries[w].name, entries[i].name, engine);
            assert(false);
        }
        assert(after[rel] == local[rel]);
    }
}

/// When no entry requires a download the plan is empty.
pub proof fn lemma_plan_none_needed(
    entries: Seq<EntryV>,
    engine: Seq<char>,
    local: Map<Seq<char>, Seq<char>>,
)
    requires
        forall|i: int| 0 <= i < entries.len() ==> !needs_sync(#[trigger] entries[i], engine, local),
    ensures
        plan_spec(entries, engine, local) == Seq::<TaskV>::empty(),
    decreases entries.len(),
{
    if entries.len() > 0 {
        lemma_plan_none_needed(entries.drop_last(), engine, local);
        assert(plan_spec(entries, engine, local) =~= Seq::<TaskV>::empty());
    }
}

/// Idempotence: a pass run on the state left by completing the
/// previous pass's downloads plans nothing.
pub proof fn lemma_sync_idempotent(
    entries: Seq<EntryV>,
    engine: Seq<char>,
    local: Map<Seq<char>, Seq<char>>,
)
    requires
        wf_manifest(entries, engine),
    ensures
        plan_spec(entries, engine, apply_plan(entries, engine, local)) == Seq::<TaskV>::empty(),
{
    let after = apply_plan(entries, engine, local);
    assert forall|i: int| 0 <= i < entries.len() implies !needs_sync(
        #[trigger] entries[i],
        engine,
        after,
    ) by {
        if belongs_to_engine(entries[i].name, engine) {
            lemma_apply_synchronizes(entries, engine, local, i);
        }
    }
    lemma_plan_none_needed(entries, engine, after);
}

/// Case-insensitive digest comparison: an entry whose local copy
/// carries a digest that differs from the manifest digest only in
/// ASCII letter case is treated as matching, and the pass plans no
/// download for it.
pub proof fn lemma_case_insensitive_match(
    entries: Seq<EntryV>,
    engine: Seq<char>,
    local: Map<Seq<char>, Seq<char>>,
    i: int,
)
    requires
        wf_manifest(entries, engine),
        0 <= i < entries.len(),
        belongs_to_engine(entries[i].name, engine),
        local.contains_key(rel_path_of(entries[i].name, engine)),
        eq_ignore_ascii_case(local[rel_path_of(entries[i].name, engine)], entries[i].hash),
    ensures
        !needs_sync(entries[i], engine, local),
        !plan_spec(entries, engine, local).contains(task_of(entries[i], engine)),
{
    let plan = plan_spec(entries, engine, local);
    if plan.contains(task_of(entries[i], engine)) {
        let j = choose|j: int| 0 <= j < plan.len() && plan[j] == task_of(entries[i], engine);
        lemma_plan_sound(entries, engine, local, j);
        let w = choose|w: int|
            0 <= w < entries.len() && needs_sync(#[trigger] entries[w], engine, local) && plan[j]
                == task_of(entries[w], engine);
        assert(entries[w].name == entries[i].name);
        if w != i {
            assert(false);
        }
    }
}

/// Repair: for a well-formed manifest, a pass over any local state —
/// however files were deleted or corrupted — plans exactly the entries
/// of the engine that are out of line, and completing those downloads
/// restores each of them digest for digest while paths the plan does
/// not name keep their state.
pub proof fn lemma_sync_repairs(
    entries: Seq<EntryV>,
    engine: Seq<char>,
    damaged: Map<Seq<char>, Seq<char>>,
    i: int,
)
    requires
        wf_manifest(entries, engine),
        0 <= i < entries.len(),
        belongs_to_engine(entries[i].name, engine),
    ensures
        plan_spec(entries, engine, damaged).contains(task_of(entries[i], engine)) <==> !entry_synced(
            entries[i],
            engine,
            damaged,
        ),
        entry_synced(entries[i], engine, apply_plan(entries, engine, damaged)),
{
    let plan = plan_spec(entries, engine, damaged);
    if !entry_synced(entries[i], engine, damaged) {
        lemma_plan_complete(entries, engine, damaged, i);
    }
    if plan.contains(task_of(entries[i], engine)) {
        let j = choose|j: int| 0 <= j < plan.len() && plan[j] == task_of(entries[i], engine);
        lemma_plan_sound(entries, engine, damaged, j);
        let w = choose|w: int|
            0 <= w < entries.len() && needs_sync(#[trigger] entries[w], engine, damaged) && plan[j]
                == task_of(entries[w], engine);
        assert(entries[w].name == entries[i].name);
        if w != i {
            assert(false);
        }
    }
    lemma_apply_synchronizes(entries, engine, damaged, i);
}

} // verus!
