//! A single tracked process: smoothed metrics, bounded histories and liveness.
use std::collections::VecDeque;
use vstd::prelude::*;

use crate::SAMPLE_LIMIT;

verus! {

/// Denominator of smoothing weights: a weight `w` stands for `w / WEIGHT_SCALE`.
pub const WEIGHT_SCALE: u64 = 1000;

/// Exponentially weighted moving average with weight `w / WEIGHT_SCALE`,
/// rounded down.
pub open spec fn ewma_of(new_val: int, prev_ewma: int, w: int) -> int {
    (new_val * w + prev_ewma * (WEIGHT_SCALE - w)) / WEIGHT_SCALE as int
}

/// Smooths `new_val` into `prev_ewma`, giving the new value weight
/// `ewma_weight / WEIGHT_SCALE`.
pub fn ewma(new_val: u64, prev_ewma: u64, ewma_weight: u64) -> (r: u64)
    requires
        ewma_weight <= WEIGHT_SCALE,
    ensures
        r == ewma_of(new_val as int, prev_ewma as int, ewma_weight as int),
{
    let w = ewma_weight as u128;
    let top = if new_val > prev_ewma { new_val } else { prev_ewma };
    proof {
        let s = WEIGHT_SCALE as int;
        assert(new_val * w + prev_ewma * (s - w) <= top * s) by (nonlinear_arith)
            requires
                new_val <= top,
                prev_ewma <= top,
                0 <= w <= s,
        ;
        assert(top * s <= u64::MAX * 1000) by (nonlinear_arith)
            requires
                top <= u64::MAX,
                s == 1000,
        ;
        assert(new_val * w + prev_ewma * (s - w) >= 0) by (nonlinear_arith)
            requires
                new_val >= 0,
                prev_ewma >= 0,
                0 <= w <= s,
        ;
        vstd::arithmetic::div_mod::lemma_div_is_ordered(
            new_val * w + prev_ewma * (s - w),
            top * s,
            s,
        );
        vstd::arithmetic::div_mod::lemma_div_by_multiple(top as int, s);
    }
    let mixed = new_val as u128 * w + prev_ewma as u128 * (WEIGHT_SCALE as u128 - w);
    (mixed / WEIGHT_SCALE as u128) as u64
}

/// A value that is already the average stays put, whatever the weight.
pub proof fn lemma_ewma_steady(x: int, w: int)
    requires
        0 <= w <= WEIGHT_SCALE,
    ensures
        ewma_of(x, x, w) == x,
{
    assert(x * w + x * (WEIGHT_SCALE - w) == WEIGHT_SCALE * x) by (nonlinear_arith);
    vstd::arithmetic::div_mod::lemma_div_multiples_vanish(x, WEIGHT_SCALE as int);
}

/// A zero sample scales the average by exactly `1 - w`.
pub proof fn lemma_ewma_zero_decay(prev: int, w: int)
    requires
        0 <= w <= WEIGHT_SCALE,
    ensures
        ewma_of(0, prev, w) == prev * (WEIGHT_SCALE - w) / WEIGHT_SCALE as int,
{
}

/// `h` after pushing `x` at the front and keeping at most `limit` entries.
pub open spec fn pushed<T>(h: Seq<T>, x: T, limit: usize) -> Seq<T> {
    let grown = seq![x] + h;
    if grown.len() <= limit {
        grown
    } else {
        grown.subrange(0, limit as int)
    }
}

/// Inserts `x` as the newest entry of `deq` and drops the oldest ones beyond
/// `limit`.
pub fn push_sample<T>(deq: &mut VecDeque<T>, x: T, limit: usize)
    ensures
        final(deq)@ == pushed(old(deq)@, x, limit),
{
    deq.push_front(x);
    deq.truncate(limit);
}

/// One process as seen in one snapshot of the system.
pub struct ProcSample {
    pub pid: u32,
    pub name: String,
    /// cpu usage, hundredths of a percent of one core
    pub cpu: u64,
    /// resident memory, KiB
    pub mem_kb: u64,
    pub disk_read_bytes: u64,
    pub disk_write_bytes: u64,
}

pub struct SampleView {
    pub pid: u32,
    pub name: Seq<char>,
    pub cpu: u64,
    pub mem_kb: u64,
    pub disk_read_bytes: u64,
    pub disk_write_bytes: u64,
}

impl View for ProcSample {
    type V = SampleView;

    open spec fn view(&self) -> SampleView {
        SampleView {
            pid: self.pid,
            name: self.name@,
            cpu: self.cpu,
            mem_kb: self.mem_kb,
            disk_read_bytes: self.disk_read_bytes,
            disk_write_bytes: self.disk_write_bytes,
        }
    }
}

/// Whether a dead process should stay listed for now or be removed.
#[derive(Debug, Clone, Copy, PartialEq, Eq, Structural)]
pub enum DeadStatus {
    StillFreshlyDead,
    ShouldReap,
}

/// Marks a process that has vanished from the snapshots.
#[derive(Debug)]
pub struct Tombstone {
    /// ticks since the process was last seen
    pub dead_for_ticks: usize,
}

/// A tracked process. Cpu values are in hundredths of a percent, memory in
/// KiB, disk values in bytes per tick; histories hold the newest sample first.
#[derive(Debug)]
pub struct SProc {
    pub pid: u32,
    pub name: String,
    pub cpu_ewma: u64,
    pub cpu_hist: VecDeque<u64>,
    pub mem_kb: u64,
    pub disk_read_ewma: u64,
    pub disk_read_hist: VecDeque<u64>,
    pub disk_write_ewma: u64,
    pub disk_write_hist: VecDeque<u64>,
    /// set while the process is absent from the snapshots
    pub tombstone: Option<Tombstone>,
}

pub struct SProcView {
    pub pid: u32,
    pub name: Seq<char>,
    pub cpu_ewma: u64,
    pub cpu_hist: Seq<u64>,
    pub mem_kb: u64,
    pub disk_read_ewma: u64,
    pub disk_read_hist: Seq<u64>,
    pub disk_write_ewma: u64,
    pub disk_write_hist: Seq<u64>,
    /// `None` while alive; the ticks since it vanished once tombstoned
    pub dead_for_ticks: Option<usize>,
}

impl View for SProc {
    type V = SProcView;

    open spec fn view(&self) -> SProcView {
        SProcView {
            pid: self.pid,
            name: self.name@,
            cpu_ewma: self.cpu_ewma,
            cpu_hist: self.cpu_hist@,
            mem_kb: self.mem_kb,
            disk_read_ewma: self.disk_read_ewma,
            disk_read_hist: self.disk_read_hist@,
            disk_write_ewma: self.disk_write_ewma,
            disk_write_hist: self.disk_write_hist@,
            dead_for_ticks: match self.tombstone {
                Some(t) => Some(t.dead_for_ticks),
                None => None,
            },
        }
    }
}

/// `r` after taking one sample through the smoothing and history path.
pub open spec fn with_sample(
    r: SProcView,
    cpu: u64,
    mem_kb: u64,
    disk_read: u64,
    disk_write: u64,
    w: int,
) -> SProcView {
    SProcView {
        cpu_ewma: ewma_of(cpu as int, r.cpu_ewma as int, w) as u64,
        cpu_hist: pushed(r.cpu_hist, cpu, SAMPLE_LIMIT),
        mem_kb,
        disk_read_ewma: ewma_of(disk_read as int, r.disk_read_ewma as int, w) as u64,
        disk_read_hist: pushed(r.disk_read_hist, disk_read, SAMPLE_LIMIT),
        disk_write_ewma: ewma_of(disk_write as int, r.disk_write_ewma as int, w) as u64,
        disk_write_hist: pushed(r.disk_write_hist, disk_write, SAMPLE_LIMIT),
        ..r
    }
}

/// `r` after a tick in which its process was seen with sample `s`: alive again.
pub open spec fn live_step(r: SProcView, s: SampleView, w: int) -> SProcView {
    SProcView {
        dead_for_ticks: None,
        ..with_sample(r, s.cpu, s.mem_kb, s.disk_read_bytes, s.disk_write_bytes, w)
    }
}

/// Ticks dead after one more absent tick (saturating at `usize::MAX`).
pub open spec fn next_dead_ticks(d: Option<usize>) -> usize {
    match d {
        None => 1,
        Some(t) => if t < usize::MAX { (t + 1) as usize } else { t },
    }
}

/// `r` after a tick in which its process was absent: a zero sample, tombstoned.
pub open spec fn dead_step(r: SProcView, w: int) -> SProcView {
    SProcView {
        dead_for_ticks: Some(next_dead_ticks(r.dead_for_ticks)),
        ..with_sample(r, 0, 0, 0, 0, w)
    }
}

/// `r` has been dead for longer than the history capacity.
pub open spec fn due_for_reaping(r: SProcView) -> bool {
    match r.dead_for_ticks {
        Some(t) => t > SAMPLE_LIMIT,
        None => false,
    }
}

/// The record made from the first sample of a process.
pub open spec fn first_record(s: SampleView) -> SProcView {
    SProcView {
        pid: s.pid,
        name: s.name,
        cpu_ewma: s.cpu,
        cpu_hist: seq![s.cpu],
        mem_kb: s.mem_kb,
        disk_read_ewma: s.disk_read_bytes,
        disk_read_hist: seq![s.disk_read_bytes],
        disk_write_ewma: s.disk_write_bytes,
        disk_write_hist: seq![s.disk_write_bytes],
        dead_for_ticks: None,
    }
}

impl SProc {
    /// The record of a process seen for the first time: averages start at
    /// the first sample, not at zero.
    pub fn from(p: &ProcSample) -> (r: SProc)
        ensures
            r@ == first_record(p@),
    {
        let mut cpu_hist = VecDeque::new();
        cpu_hist.push_back(p.cpu);
        let mut disk_read_hist = VecDeque::new();
        disk_read_hist.push_back(p.disk_read_bytes);
        let mut disk_write_hist = VecDeque::new();
        disk_write_hist.push_back(p.disk_write_bytes);
        let r = SProc {
            pid: p.pid,
            name: p.name.clone(),
            cpu_ewma: p.cpu,
            cpu_hist,
            mem_kb: p.mem_kb,
            disk_read_ewma: p.disk_read_bytes,
            disk_read_hist,
            disk_write_ewma: p.disk_write_bytes,
            disk_write_hist,
            tombstone: None,
        };
        assert(r@.cpu_hist =~= seq![p.cpu]);
        assert(r@.disk_read_hist =~= seq![p.disk_read_bytes]);
        assert(r@.disk_write_hist =~= seq![p.disk_write_bytes]);
        r
    }

    pub fn is_dead(&self) -> (r: bool)
        ensures
            r == self@.dead_for_ticks.is_some(),
    {
        self.tombstone.is_some()
    }

    /// Feeds a sample of the live process and marks it alive.
    pub fn add_sample(&mut self, p: &ProcSample, ewma_weight: u64)
        requires
            ewma_weight <= WEIGHT_SCALE,
        ensures
            final(self)@ == live_step(old(self)@, p@, ewma_weight as int),
    {
        self.add_sample_helper(p.cpu, p.mem_kb, p.disk_read_bytes, p.disk_write_bytes, ewma_weight);
        self.tombstone = None;
    }

    /// Feeds a zero sample for a process absent from this tick's snapshot,
    /// tombstones it and says whether it has been dead long enough to remove.
    pub fn add_dead_sample(&mut self, ewma_weight: u64) -> (r: DeadStatus)
        requires
            ewma_weight <= WEIGHT_SCALE,
        ensures
            final(self)@ == dead_step(old(self)@, ewma_weight as int),
            r == (if due_for_reaping(final(self)@) {
                DeadStatus::ShouldReap
            } else {
                DeadStatus::StillFreshlyDead
            }),
    {
        self.add_sample_helper(0, 0, 0, 0, ewma_weight);
        let ticks = match &self.tombstone {
            None => 1,
            Some(t) => if t.dead_for_ticks < usize::MAX { t.dead_for_ticks + 1 } else { t.dead_for_ticks },
        };
        self.tombstone = Some(Tombstone { dead_for_ticks: ticks });
        if ticks > SAMPLE_LIMIT {
            DeadStatus::ShouldReap
        } else {
            DeadStatus::StillFreshlyDead
        }
    }

    fn add_sample_helper(
        &mut self,
        cpu: u64,
        mem_kb: u64,
        disk_read_bytes: u64,
        disk_write_bytes: u64,
        ewma_weight: u64,
    )
        requires
            ewma_weight <= WEIGHT_SCALE,
        ensures
            final(self)@ == with_sample(
                old(self)@,
                cpu,
                mem_kb,
                disk_read_bytes,
                disk_write_bytes,
                ewma_weight as int,
            ),
    {
        self.cpu_ewma = ewma(cpu, self.cpu_ewma, ewma_weight);
        self.mem_kb = mem_kb;
        self.disk_read_ewma = ewma(disk_read_bytes, self.disk_read_ewma, ewma_weight);
        self.disk_write_ewma = ewma(disk_write_bytes, self.disk_write_ewma, ewma_weight);
        push_sample(&mut self.cpu_hist, cpu, SAMPLE_LIMIT);
        push_sample(&mut self.disk_read_hist, disk_read_bytes, SAMPLE_LIMIT);
        push_sample(&mut self.disk_write_hist, disk_write_bytes, SAMPLE_LIMIT);
    }
}

} // verus!
