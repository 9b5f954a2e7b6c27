//! Live resource figures: CPU time counters from `/proc/stat` and memory use
//! from `/proc/meminfo`.
use vstd::prelude::*;
use crate::text::{chars_of, lines, lines_vec, parse_unsigned, parse_unsigned_vec, vec_views, words, words_vec};
use crate::tweaks::memory::{available_kb, meminfo_totals, total_kb};

verus! {

/// The aggregate CPU time counters of `/proc/stat`, in clock ticks.
#[derive(Clone, Copy, Debug)]
pub struct CpuStat {
    pub user: u64,
    pub nice: u64,
    pub system: u64,
    pub idle: u64,
    pub iowait: u64,
    pub irq: u64,
    pub softirq: u64,
    pub steal: u64,
}

impl Default for CpuStat {
    fn default() -> (s: Self)
        ensures
            s.user == 0 && s.nice == 0 && s.system == 0 && s.idle == 0 && s.iowait == 0 && s.irq
                == 0 && s.softirq == 0 && s.steal == 0,
    {
        CpuStat { user: 0, nice: 0, system: 0, idle: 0, iowait: 0, irq: 0, softirq: 0, steal: 0 }
    }
}

impl CpuStat {
    /// All the counters added up.
    pub open spec fn sum(self) -> nat {
        (self.user + self.nice + self.system + self.idle + self.iowait + self.irq + self.softirq
            + self.steal) as nat
    }

    /// Whether the counters add up without overflowing a `u64`.
    pub fn fits(&self) -> (r: bool)
        ensures
            r == (self.sum() <= u64::MAX),
    {
        let a = self.user as u128 + self.nice as u128 + self.system as u128 + self.idle as u128
            + self.iowait as u128 + self.irq as u128 + self.softirq as u128 + self.steal as u128;
        a <= u64::MAX as u128
    }

    /// Total CPU time.
    pub fn total(&self) -> (t: u64)
        requires
            self.sum() <= u64::MAX,
        ensures
            t as nat == self.sum(),
    {
        self.user + self.nice + self.system + self.idle + self.iowait + self.irq + self.softirq
            + self.steal
    }

    /// Time spent idle, waiting for I/O included.
    pub fn idle_total(&self) -> (t: u64)
        requires
            self.idle + self.iowait <= u64::MAX,
        ensures
            t == self.idle + self.iowait,
    {
        self.idle + self.iowait
    }
}

/// The `k`-th word of the first line read as a `u64`.
pub open spec fn counter(w: Seq<Seq<char>>, k: int) -> Option<nat> {
    parse_unsigned(w[k], u64::MAX as nat)
}

/// The counters of the first line of `/proc/stat`
/// (`cpu user nice system idle iowait irq softirq steal ...`): none when
/// the line is missing, has fewer than eight counters, or one does not read
/// as a `u64`.
pub open spec fn stat_counters(content: Seq<char>) -> Option<Seq<nat>> {
    let ls = lines(content);
    if ls.len() == 0 {
        None
    } else {
        let w = words(ls[0]);
        if w.len() >= 9 && (forall|k: int| 1 <= k <= 8 ==> #[trigger] counter(w, k) is Some) {
            Some(Seq::new(8, |k: int| counter(w, k + 1)->0))
        } else {
            None
        }
    }
}

/// The counters of `s` in file order.
pub open spec fn stat_seq(s: CpuStat) -> Seq<nat> {
    seq![
        s.user as nat,
        s.nice as nat,
        s.system as nat,
        s.idle as nat,
        s.iowait as nat,
        s.irq as nat,
        s.softirq as nat,
        s.steal as nat,
    ]
}

/// The aggregate CPU counters in the content of `/proc/stat`.
pub fn parse_cpu_stat(content: &str) -> (r: Option<CpuStat>)
    ensures
        match r {
            Some(s) => stat_counters(content@) == Some(stat_seq(s)),
            None => stat_counters(content@) is None,
        },
{
    let ls = lines_vec(&chars_of(content));
    if ls.len() == 0 {
        return None;
    }
    assert(vec_views(ls@)[0] == ls@[0]@);
    let w = words_vec(&ls[0]);
    let ghost wv = vec_views(w@);
    if w.len() < 9 {
        return None;
    }
    let mut vals: Vec<u64> = Vec::new();
    let mut k: usize = 1;
    while k <= 8
        invariant
            1 <= k <= 9,
            w.len() >= 9,
            wv == vec_views(w@),
            wv == words(lines(content@)[0]),
            vals@.len() == k - 1,
            forall|j: int| 1 <= j < k ==> #[trigger] counter(wv, j) == Some(vals@[j - 1] as nat),
        decreases 9 - k,
    {
        assert(wv[k as int] == w@[k as int]@);
        match parse_unsigned_vec(&w[k], u64::MAX) {
            Some(n) => vals.push(n),
            None => {
                assert(counter(wv, k as int) is None);
                return None;
            },
        }
        k += 1;
    }
    let s = CpuStat {
        user: vals[0],
        nice: vals[1],
        system: vals[2],
        idle: vals[3],
        iowait: vals[4],
        irq: vals[5],
        softirq: vals[6],
        steal: vals[7],
    };
    assert(forall|j: int| 1 <= j <= 8 ==> #[trigger] counter(wv, j) is Some);
    assert(Seq::new(8, |j: int| counter(wv, j + 1)->0) =~= stat_seq(s)) by {
        assert(counter(wv, 1) == Some(vals@[0] as nat));
        assert(counter(wv, 2) == Some(vals@[1] as nat));
        assert(counter(wv, 3) == Some(vals@[2] as nat));
        assert(counter(wv, 4) == Some(vals@[3] as nat));
        assert(counter(wv, 5) == Some(vals@[4] as nat));
        assert(counter(wv, 6) == Some(vals@[5] as nat));
        assert(counter(wv, 7) == Some(vals@[6] as nat));
        assert(counter(wv, 8) == Some(vals@[7] as nat));
    }
    Some(s)
}

/// How much total and idle time passed between two samples; a counter that
/// went backwards counts as no time.
pub fn cpu_deltas(prev: &CpuStat, curr: &CpuStat) -> (r: (u64, u64))
    requires
        prev.sum() <= u64::MAX,
        curr.sum() <= u64::MAX,
    ensures
        r.0 == (if curr.sum() >= prev.sum() {
            (curr.sum() - prev.sum()) as nat
        } else {
            0
        }),
        r.1 == (if curr.idle + curr.iowait >= prev.idle + prev.iowait {
            ((curr.idle + curr.iowait) - (prev.idle + prev.iowait)) as nat
        } else {
            0
        }),
{
    let total = curr.total().saturating_sub(prev.total());
    let idle = curr.idle_total().saturating_sub(prev.idle_total());
    (total, idle)
}

/// Memory in use, as the resource monitor reports it.
#[derive(Clone, Copy, Debug)]
pub struct MemoryUsage {
    pub total_kb: u64,
    pub used_kb: u64,
    pub total_mb: u64,
    pub used_mb: u64,
}

/// Memory use from the content of `/proc/meminfo`: none when the total is
/// missing or zero; used memory is the total less what is available, or
/// zero when more is available than the total.
pub fn memory_usage(content: &str) -> (r: Option<MemoryUsage>)
    ensures
        match r {
            Some(m) => {
                &&& total_kb(content@) > 0
                &&& m.total_kb == total_kb(content@)
                &&& m.used_kb == (if available_kb(content@) <= total_kb(content@) {
                    (total_kb(content@) - available_kb(content@)) as nat
                } else {
                    0
                })
                &&& m.total_mb == m.total_kb / 1024
                &&& m.used_mb == m.used_kb / 1024
            },
            None => total_kb(content@) == 0,
        },
{
    let (total, avail) = meminfo_totals(content);
    if total == 0 {
        return None;
    }
    let used = total.saturating_sub(avail);
    Some(MemoryUsage { total_kb: total, used_kb: used, total_mb: total / 1024, used_mb: used / 1024 })
}

} // verus!

verus! {

/// Every counter of `curr` is at least the same counter of `prev`.
pub open spec fn counters_grew(prev: CpuStat, curr: CpuStat) -> bool {
    &&& prev.user <= curr.user
    &&& prev.nice <= curr.nice
    &&& prev.system <= curr.system
    &&& prev.idle <= curr.idle
    &&& prev.iowait <= curr.iowait
    &&& prev.irq <= curr.irq
    &&& prev.softirq <= curr.softirq
    &&& prev.steal <= curr.steal
}

/// Between two samples whose counters only grew, the idle time that passed
/// is part of the total time that passed, so the busy share lies between 0
/// and 100 percent.
pub proof fn law_idle_within_total(prev: CpuStat, curr: CpuStat)
    requires
        counters_grew(prev, curr),
    ensures
        curr.sum() >= prev.sum(),
        curr.idle + curr.iowait >= prev.idle + prev.iowait,
        (curr.idle + curr.iowait) - (prev.idle + prev.iowait) <= curr.sum() - prev.sum(),
{
}

} // verus!
