//! The record table: every tracked process, updated once per tick.
use vstd::prelude::*;

use crate::SAMPLE_LIMIT;
use crate::sproc::{
    dead_step, due_for_reaping, first_record, live_step, DeadStatus, ProcSample, SProc,
    SProcView, SampleView, WEIGHT_SCALE,
};

verus! {

/// No two records share a process id.
pub open spec fn distinct_pids(s: Seq<SProc>) -> bool {
    forall|i: int, j: int|
        0 <= i < s.len() && 0 <= j < s.len() && i != j ==> #[trigger] s[i].pid != #[trigger] s[j].pid
}

pub open spec fn has_pid(s: Seq<SProc>, pid: u32) -> bool {
    exists|i: int| 0 <= i < s.len() && #[trigger] s[i].pid == pid
}

/// The table that a sequence of records with distinct ids stands for.
pub open spec fn records_map(s: Seq<SProc>) -> Map<u32, SProcView> {
    Map::new(
        |pid: u32| has_pid(s, pid),
        |pid: u32| s[choose|i: int| 0 <= i < s.len() && #[trigger] s[i].pid == pid]@,
    )
}

/// `k` is the last entry of `s` for process `pid`.
pub open spec fn last_sample_of(s: Seq<ProcSample>, pid: u32, k: int) -> bool {
    &&& 0 <= k < s.len()
    &&& s[k].pid == pid
    &&& forall|j: int| k < j < s.len() ==> #[trigger] s[j].pid != pid
}

/// What a snapshot says of each process id; where an id occurs twice, the
/// later entry counts.
pub open spec fn snapshot_map(s: Seq<ProcSample>) -> Map<u32, SampleView> {
    Map::new(
        |pid: u32| exists|i: int| 0 <= i < s.len() && #[trigger] s[i].pid == pid,
        |pid: u32| s[choose|k: int| #[trigger] last_sample_of(s, pid, k)]@,
    )
}

/// The table after one tick: processes in the snapshot get a live sample (or
/// a new record); the others get a zero sample and a tombstone, and are
/// dropped once dead for longer than the history capacity.
pub open spec fn next_table(
    old: Map<u32, SProcView>,
    snap: Map<u32, SampleView>,
    w: int,
) -> Map<u32, SProcView> {
    Map::new(
        |pid: u32|
            snap.contains_key(pid) || (old.contains_key(pid) && !due_for_reaping(
                dead_step(old[pid], w),
            )),
        |pid: u32|
            if snap.contains_key(pid) {
                if old.contains_key(pid) {
                    live_step(old[pid], snap[pid], w)
                } else {
                    first_record(snap[pid])
                }
            } else {
                dead_step(old[pid], w)
            },
    )
}

/// In records with distinct ids, each record is what the table holds for its id.
pub proof fn lemma_records_map_at(s: Seq<SProc>, i: int)
    requires
        distinct_pids(s),
        0 <= i < s.len(),
    ensures
        records_map(s).contains_key(s[i].pid),
        records_map(s)[s[i].pid] == s[i]@,
{
    let pid = s[i].pid;
    assert(has_pid(s, pid));
    let k = choose|k: int| 0 <= k < s.len() && #[trigger] s[k].pid == pid;
    assert(k == i);
}

/// The entry a snapshot holds for `pid` is its last one.
pub proof fn lemma_snapshot_map_at(s: Seq<ProcSample>, pid: u32, k: int)
    requires
        last_sample_of(s, pid, k),
    ensures
        snapshot_map(s).contains_key(pid),
        snapshot_map(s)[pid] == s[k]@,
{
    assert(s[k].pid == pid);
    let c = choose|c: int| #[trigger] last_sample_of(s, pid, c);
    assert(last_sample_of(s, pid, c));
    assert(c == k);
}

proof fn lemma_has_pid_push(s: Seq<SProc>, r: SProc, pid: u32)
    ensures
        has_pid(s, pid) ==> has_pid(s.push(r), pid),
        has_pid(s.push(r), r.pid),
        has_pid(s.push(r), pid) ==> has_pid(s, pid) || pid == r.pid,
{
    if has_pid(s, pid) {
        let i = choose|i: int| 0 <= i < s.len() && #[trigger] s[i].pid == pid;
        assert(s.push(r)[i].pid == pid);
    }
    assert(s.push(r)[s.len() as int].pid == r.pid);
    if has_pid(s.push(r), pid) {
        let i = choose|i: int| 0 <= i < s.len() + 1 && #[trigger] s.push(r)[i].pid == pid;
        if i < s.len() {
            assert(s[i].pid == pid);
        }
    }
}

/// The last entry of `snapshot` for `pid`, if any.
fn find_sample(snapshot: &Vec<ProcSample>, pid: u32) -> (r: Option<usize>)
    ensures
        match r {
            Some(k) => last_sample_of(snapshot@, pid, k as int),
            None => forall|j: int| 0 <= j < snapshot@.len() ==> #[trigger] snapshot@[j].pid != pid,
        },
{
    let mut i: usize = snapshot.len();
    while i > 0
        invariant
            i <= snapshot@.len(),
            forall|j: int| i <= j < snapshot@.len() ==> #[trigger] snapshot@[j].pid != pid,
        decreases i,
    {
        i = i - 1;
        if snapshot[i].pid == pid {
            return Some(i);
        }
    }
    None
}

/// Whether some record in `procs` has id `pid`.
fn contains_pid(procs: &Vec<SProc>, pid: u32) -> (r: bool)
    ensures
        r == has_pid(procs@, pid),
{
    let mut i: usize = 0;
    while i < procs.len()
        invariant
            i <= procs@.len(),
            forall|j: int| 0 <= j < i ==> #[trigger] procs@[j].pid != pid,
        decreases procs@.len() - i,
    {
        if procs[i].pid == pid {
            return true;
        }
        i = i + 1;
    }
    false
}

/// All tracked processes, keyed by process id.
pub struct SProcs {
    procs: Vec<SProc>,
}

impl SProcs {
    #[verifier::type_invariant]
    spec fn pids_are_distinct(&self) -> bool {
        distinct_pids(self.procs@)
    }
}

impl View for SProcs {
    type V = Map<u32, SProcView>;

    closed spec fn view(&self) -> Map<u32, SProcView> {
        records_map(self.procs@)
    }
}

impl SProcs {
    /// An empty table.
    pub fn new() -> (r: SProcs)
        ensures
            r@ == Map::<u32, SProcView>::empty(),
    {
        let r = SProcs { procs: Vec::new() };
        assert(r@ =~= Map::<u32, SProcView>::empty());
        r
    }

    /// The records, one per tracked process.
    pub fn get(&self) -> (r: &Vec<SProc>)
        ensures
            distinct_pids(r@),
            records_map(r@) == self@,
    {
        proof { use_type_invariant(self); }
        &self.procs
    }

    /// Applies one tick's snapshot with smoothing weight
    /// `ewma_weight / WEIGHT_SCALE`.
    pub fn update(&mut self, snapshot: &Vec<ProcSample>, ewma_weight: u64)
        requires
            ewma_weight <= WEIGHT_SCALE,
        ensures
            final(self)@ == next_table(old(self)@, snapshot_map(snapshot@), ewma_weight as int),
    {
        proof { use_type_invariant(&*self); }
        let ghost w = ewma_weight as int;
        let ghost old_map = old(self)@;
        let ghost snap = snapshot_map(snapshot@);
        let ghost target = next_table(old_map, snap, w);
        let mut remaining: Vec<SProc> = Vec::new();
        std::mem::swap(&mut remaining, &mut self.procs);
        let ghost orig = remaining@;
        assert(records_map(orig) == old_map);
        let mut next: Vec<SProc> = Vec::new();
        while remaining.len() > 0
            invariant
                ewma_weight <= WEIGHT_SCALE,
                w == ewma_weight,
                distinct_pids(orig),
                records_map(orig) == old_map,
                snap == snapshot_map(snapshot@),
                target == next_table(old_map, snap, w),
                remaining@.len() <= orig.len(),
                remaining@ == orig.subrange(0, remaining@.len() as int),
                distinct_pids(next@),
                forall|j: int|
                    0 <= j < next@.len() ==> exists|i: int|
                        remaining@.len() <= i < orig.len() && #[trigger] orig[i].pid == (
                        #[trigger] next@[j]).pid,
                forall|j: int|
                    0 <= j < next@.len() ==> target.contains_key(#[trigger] next@[j].pid)
                        && target[next@[j].pid] == next@[j]@,
                forall|i: int|
                    remaining@.len() <= i < orig.len() && target.contains_key(
                        #[trigger] orig[i].pid,
                    ) ==> has_pid(next@, orig[i].pid),
            decreases remaining@.len(),
        {
            let ghost idx = remaining@.len() - 1;
            let mut rec = remaining.pop().unwrap();
            proof {
                assert(rec == orig[idx]);
                lemma_records_map_at(orig, idx);
            }
            let keep = match find_sample(snapshot, rec.pid) {
                Some(k) => {
                    proof { lemma_snapshot_map_at(snapshot@, rec.pid, k as int); }
                    rec.add_sample(&snapshot[k], ewma_weight);
                    true
                },
                None => {
                    let status = rec.add_dead_sample(ewma_weight);
                    match status {
                        DeadStatus::ShouldReap => false,
                        DeadStatus::StillFreshlyDead => true,
                    }
                },
            };
            let ghost before = next@;
            if keep {
                proof {
                    assert(!has_pid(before, rec.pid)) by {
                        if has_pid(before, rec.pid) {
                            let j = choose|j: int| 0 <= j < before.len() && #[trigger] before[j].pid == rec.pid;
                            let i = choose|i: int|
                                remaining@.len() + 1 <= i < orig.len() && #[trigger] orig[i].pid == (
                                #[trigger] before[j]).pid;
                            assert(orig[i].pid == orig[idx].pid);
                        }
                    }
                }
                next.push(rec);
            }
            proof {
                assert forall|i: int, j: int|
                    0 <= i < next@.len() && 0 <= j < next@.len() && i != j implies #[trigger] next@[i].pid
                    != #[trigger] next@[j].pid by {
                    if keep && (i == before.len() || j == before.len()) {
                        let o = if i == before.len() { j } else { i };
                        assert(next@[o] == before[o]);
                        if before[o].pid == orig[idx].pid {
                            assert(has_pid(before, orig[idx].pid));
                        }
                    } else {
                        assert(next@[i] == before[i]);
                        assert(next@[j] == before[j]);
                    }
                }
                assert forall|j: int| 0 <= j < next@.len() implies exists|i: int|
                    remaining@.len() <= i < orig.len() && #[trigger] orig[i].pid == (
                    #[trigger] next@[j]).pid by {
                    if keep && j == before.len() {
                        assert(orig[idx].pid == next@[j].pid);
                    } else {
                        assert(next@[j] == before[j]);
                        let i = choose|i: int|
                            remaining@.len() + 1 <= i < orig.len() && #[trigger] orig[i].pid == (
                            #[trigger] before[j]).pid;
                        assert(orig[i].pid == next@[j].pid);
                    }
                }
                assert forall|j: int| 0 <= j < next@.len() implies target.contains_key(
                    #[trigger] next@[j].pid,
                ) && target[next@[j].pid] == next@[j]@ by {
                    if !(keep && j == before.len()) {
                        assert(next@[j] == before[j]);
                    }
                }
                assert forall|i: int|
                    remaining@.len() <= i < orig.len() && target.contains_key(
                        #[trigger] orig[i].pid,
                    ) implies has_pid(next@, orig[i].pid) by {
                    if keep {
                        lemma_has_pid_push(before, rec, orig[i].pid);
                    }
                }
            }
        }
        let mut k: usize = 0;
        while k < snapshot.len()
            invariant
                k <= snapshot@.len(),
                distinct_pids(orig),
                records_map(orig) == old_map,
                snap == snapshot_map(snapshot@),
                target == next_table(old_map, snap, w),
                distinct_pids(next@),
                forall|j: int|
                    0 <= j < next@.len() ==> target.contains_key(#[trigger] next@[j].pid)
                        && target[next@[j].pid] == next@[j]@,
                forall|i: int|
                    0 <= i < orig.len() && target.contains_key(#[trigger] orig[i].pid) ==> has_pid(
                        next@,
                        orig[i].pid,
                    ),
                forall|q: int| 0 <= q < k ==> has_pid(next@, #[trigger] snapshot@[q].pid),
            decreases snapshot@.len() - k,
        {
            let pid = snapshot[k].pid;
            if !contains_pid(&next, pid) {
                let last = find_sample(snapshot, pid);
                let kl = match last {
                    Some(kl) => kl,
                    None => {
                        assert(snapshot@[k as int].pid == pid);
                        k
                    },
                };
                let rec = SProc::from(&snapshot[kl]);
                let ghost before = next@;
                proof {
                    lemma_snapshot_map_at(snapshot@, pid, kl as int);
                    assert(!old_map.contains_key(pid)) by {
                        if old_map.contains_key(pid) {
                            let i = choose|i: int| 0 <= i < orig.len() && #[trigger] orig[i].pid == pid;
                            assert(target.contains_key(orig[i].pid));
                        }
                    }
                }
                next.push(rec);
                proof {
                    assert forall|i: int, j: int|
                        0 <= i < next@.len() && 0 <= j < next@.len() && i != j implies #[trigger] next@[i].pid
                        != #[trigger] next@[j].pid by {
                        if i == before.len() || j == before.len() {
                            let o = if i == before.len() { j } else { i };
                            assert(next@[o] == before[o]);
                            if before[o].pid == pid {
                                assert(has_pid(before, pid));
                            }
                        } else {
                            assert(next@[i] == before[i]);
                            assert(next@[j] == before[j]);
                        }
                    }
                    assert forall|j: int| 0 <= j < next@.len() implies target.contains_key(
                        #[trigger] next@[j].pid,
                    ) && target[next@[j].pid] == next@[j]@ by {
                        if j < before.len() {
                            assert(next@[j] == before[j]);
                        }
                    }
                    assert forall|i: int|
                        0 <= i < orig.len() && target.contains_key(#[trigger] orig[i].pid) implies has_pid(
                            next@,
                            orig[i].pid,
                        ) by {
                        lemma_has_pid_push(before, rec, orig[i].pid);
                    }
                    assert forall|q: int| 0 <= q < k + 1 implies has_pid(next@, #[trigger] snapshot@[q].pid) by {
                        lemma_has_pid_push(before, rec, snapshot@[q].pid);
                    }
                }
            }
            k = k + 1;
        }
        proof {
            let m = records_map(next@);
            assert forall|pid: u32| #[trigger] m.contains_key(pid) <==> target.contains_key(pid) by {
                if m.contains_key(pid) {
                    let j = choose|j: int| 0 <= j < next@.len() && #[trigger] next@[j].pid == pid;
                    assert(target.contains_key(next@[j].pid));
                }
                if target.contains_key(pid) {
                    if snap.contains_key(pid) {
                        let q = choose|q: int| 0 <= q < snapshot@.len() && #[trigger] snapshot@[q].pid == pid;
                        assert(has_pid(next@, snapshot@[q].pid));
                    } else {
                        let i = choose|i: int| 0 <= i < orig.len() && #[trigger] orig[i].pid == pid;
                        assert(has_pid(next@, orig[i].pid));
                    }
                }
            }
            assert forall|pid: u32| #[trigger] m.contains_key(pid) implies m[pid] == target[pid] by {
                let j = choose|j: int| 0 <= j < next@.len() && #[trigger] next@[j].pid == pid;
                lemma_records_map_at(next@, j);
            }
            assert(m =~= target);
        }
        self.procs = next;
    }
}

impl Default for SProcs {
    fn default() -> (r: SProcs)
        ensures
            r@ == Map::<u32, SProcView>::empty(),
    {
        SProcs::new()
    }
}

/// The table after applying `snaps` one tick at a time, oldest first.
pub open spec fn run_ticks(
    t: Map<u32, SProcView>,
    snaps: Seq<Map<u32, SampleView>>,
    w: int,
) -> Map<u32, SProcView>
    decreases snaps.len(),
{
    if snaps.len() == 0 {
        t
    } else {
        next_table(run_ticks(t, snaps.drop_last(), w), snaps.last(), w)
    }
}

/// A process present in a tick's snapshot is alive after that tick, so a
/// process present every tick is never tombstoned.
pub proof fn lemma_present_stays_alive(
    t: Map<u32, SProcView>,
    snap: Map<u32, SampleView>,
    w: int,
    pid: u32,
)
    requires
        snap.contains_key(pid),
    ensures
        next_table(t, snap, w).contains_key(pid),
        next_table(t, snap, w)[pid].dead_for_ticks == None::<usize>,
{
}

/// A live process absent for one tick is tombstoned for that tick, and is
/// alive again as soon as it reappears.
pub proof fn lemma_absent_once_then_back(
    t: Map<u32, SProcView>,
    absent: Map<u32, SampleView>,
    back: Map<u32, SampleView>,
    w: int,
    pid: u32,
)
    requires
        t.contains_key(pid),
        t[pid].dead_for_ticks == None::<usize>,
        !absent.contains_key(pid),
        back.contains_key(pid),
    ensures
        next_table(t, absent, w).contains_key(pid),
        next_table(t, absent, w)[pid].dead_for_ticks == Some(1usize),
        next_table(next_table(t, absent, w), back, w).contains_key(pid),
        next_table(next_table(t, absent, w), back, w)[pid].dead_for_ticks == None::<usize>,
{
}

/// A live process absent for `n` consecutive ticks, `n` up to the history
/// capacity, is still listed, tombstoned for `n` ticks.
pub proof fn lemma_absent_ticks_counted(
    t: Map<u32, SProcView>,
    snaps: Seq<Map<u32, SampleView>>,
    w: int,
    pid: u32,
)
    requires
        t.contains_key(pid),
        t[pid].dead_for_ticks == None::<usize>,
        snaps.len() <= SAMPLE_LIMIT,
        forall|i: int| 0 <= i < snaps.len() ==> !(#[trigger] snaps[i]).contains_key(pid),
    ensures
        run_ticks(t, snaps, w).contains_key(pid),
        run_ticks(t, snaps, w)[pid].dead_for_ticks == if snaps.len() == 0 {
            None::<usize>
        } else {
            Some(snaps.len() as usize)
        },
    decreases snaps.len(),
{
    if snaps.len() > 0 {
        let prefix = snaps.drop_last();
        assert forall|i: int| 0 <= i < prefix.len() implies !(#[trigger] prefix[i]).contains_key(pid) by {
            assert(prefix[i] == snaps[i]);
        }
        lemma_absent_ticks_counted(t, prefix, w, pid);
        assert(!snaps.last().contains_key(pid));
    }
}

/// A live process absent for capacity + 1 consecutive ticks is removed.
pub proof fn lemma_absent_too_long_reaped(
    t: Map<u32, SProcView>,
    snaps: Seq<Map<u32, SampleView>>,
    w: int,
    pid: u32,
)
    requires
        t.contains_key(pid),
        t[pid].dead_for_ticks == None::<usize>,
        snaps.len() == SAMPLE_LIMIT + 1,
        forall|i: int| 0 <= i < snaps.len() ==> !(#[trigger] snaps[i]).contains_key(pid),
    ensures
        !run_ticks(t, snaps, w).contains_key(pid),
{
    let prefix = snaps.drop_last();
    assert forall|i: int| 0 <= i < prefix.len() implies !(#[trigger] prefix[i]).contains_key(pid) by {
        assert(prefix[i] == snaps[i]);
    }
    lemma_absent_ticks_counted(t, prefix, w, pid);
    assert(!snaps.last().contains_key(pid));
}

} // verus!
