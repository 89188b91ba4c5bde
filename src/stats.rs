use vstd::prelude::*;

use crate::text::str_eq;
use crate::utils::TimeUtils;

verus! {

/// Whether some entry has key `k`.
pub open spec fn has_key(es: Seq<(Seq<char>, u64)>, k: Seq<char>) -> bool {
    exists|i: int| 0 <= i < es.len() && (#[trigger] es[i]).0 == k
}

/// The count stored under `k`, if any.
pub open spec fn lookup(es: Seq<(Seq<char>, u64)>, k: Seq<char>) -> Option<u64> {
    if has_key(es, k) {
        Some(es[choose|i: int| 0 <= i < es.len() && (#[trigger] es[i]).0 == k].1)
    } else {
        None
    }
}

pub open spec fn keys_unique(es: Seq<(Seq<char>, u64)>) -> bool {
    forall|i: int, j: int|
        0 <= i < j < es.len() ==> (#[trigger] es[i]).0 != (#[trigger] es[j]).0
}

pub open spec fn counts_at_most(es: Seq<(Seq<char>, u64)>, b: nat) -> bool {
    forall|i: int| 0 <= i < es.len() ==> (#[trigger] es[i]).1 <= b
}

pub proof fn lemma_lookup_at(es: Seq<(Seq<char>, u64)>, i: int)
    requires
        keys_unique(es),
        0 <= i < es.len(),
    ensures
        lookup(es, es[i].0) == Some(es[i].1),
{
    let k = es[i].0;
    assert(has_key(es, k));
    let j = choose|j: int| 0 <= j < es.len() && (#[trigger] es[j]).0 == k;
    if j < i {
        assert(es[j].0 != es[i].0);
    } else if i < j {
        assert(es[i].0 != es[j].0);
    }
}

/// Counts keyed by name, one entry per name, in order of first use.
#[derive(Debug)]
pub struct CountMap {
    entries: Vec<(String, u64)>,
}

impl CountMap {
    pub closed spec fn entries(&self) -> Seq<(Seq<char>, u64)> {
        self.entries@.map_values(|e: (String, u64)| (e.0@, e.1))
    }

    pub open spec fn wf(&self) -> bool {
        keys_unique(self.entries())
    }

    /// The count under `k`, if any.
    pub open spec fn count(&self, k: Seq<char>) -> Option<u64> {
        lookup(self.entries(), k)
    }

    pub fn new() -> (r: Self)
        ensures
            r.wf(),
            r.entries().len() == 0,
    {
        let r = CountMap { entries: Vec::new() };
        assert(r.entries() =~= Seq::empty());
        r
    }

    fn find(&self, key: &str) -> (r: Option<usize>)
        ensures
            match r {
                Some(i) => i < self.entries().len() && self.entries()[i as int].0 == key@,
                None => !has_key(self.entries(), key@),
            },
    {
        let mut i: usize = 0;
        while i < self.entries.len()
            invariant
                i <= self.entries@.len(),
                forall|k: int| 0 <= k < i ==> (#[trigger] self.entries()[k]).0 != key@,
            decreases self.entries@.len() - i,
        {
            if str_eq(self.entries[i].0.as_str(), key) {
                return Some(i);
            }
            i = i + 1;
        }
        None
    }

    /// The count under `key`, if any.
    pub fn get(&self, key: &str) -> (r: Option<u64>)
        requires
            self.wf(),
        ensures
            r == self.count(key@),
    {
        match self.find(key) {
            Some(i) => {
                proof {
                    lemma_lookup_at(self.entries(), i as int);
                }
                Some(self.entries[i].1)
            },
            None => None,
        }
    }

    /// The number of keys.
    pub fn len(&self) -> (r: usize)
        ensures
            r == self.entries().len(),
    {
        self.entries.len()
    }

    pub fn is_empty(&self) -> (r: bool)
        ensures
            r == (self.entries().len() == 0),
    {
        self.entries.len() == 0
    }

    /// Adds one to the count under `key`, a new key starting at one.
    pub fn increment(&mut self, key: &str, bound: u64)
        requires
            old(self).wf(),
            counts_at_most(old(self).entries(), bound as nat),
            bound < u64::MAX,
        ensures
            final(self).wf(),
            counts_at_most(final(self).entries(), bound as nat + 1),
            final(self).count(key@) == Some(
                (match old(self).count(key@) {
                    Some(v) => v + 1,
                    None => 1,
                }) as u64,
            ),
            forall|k: Seq<char>| k != key@ ==> #[trigger] final(self).count(k) == old(self).count(k),
            final(self).entries().len() == old(self).entries().len() + (if old(self).count(
                key@,
            ) is Some {
                0int
            } else {
                1int
            }),
    {
        let ghost es = self.entries();
        match self.find(key) {
            Some(i) => {
                proof {
                    lemma_lookup_at(es, i as int);
                }
                let v = self.entries[i].1;
                let name = self.entries[i].0.clone();
                self.entries.set(i, (name, v + 1));
                let ghost ns = self.entries();
                assert(ns =~= es.update(i as int, (key@, (v + 1) as u64)));
                assert(keys_unique(ns));
                proof {
                    lemma_lookup_at(ns, i as int);
                    assert forall|k: Seq<char>| k != key@ implies #[trigger] lookup(ns, k) == lookup(
                        es,
                        k,
                    ) by {
                        if has_key(es, k) {
                            let j = choose|j: int| 0 <= j < es.len() && (#[trigger] es[j]).0 == k;
                            lemma_lookup_at(es, j);
                            assert(ns[j] == es[j]);
                            lemma_lookup_at(ns, j);
                        } else {
                            assert(!has_key(ns, k)) by {
                                if has_key(ns, k) {
                                    let j = choose|j: int|
                                        0 <= j < ns.len() && (#[trigger] ns[j]).0 == k;
                                    assert(es[j].0 == k);
                                }
                            }
                        }
                    }
                }
            },
            None => {
                let n = self.entries.len();
                self.entries.push((key.to_string(), 1));
                let ghost ns = self.entries();
                assert(ns =~= es.push((key@, 1u64)));
                assert(keys_unique(ns));
                proof {
                    lemma_lookup_at(ns, n as int);
                    assert forall|k: Seq<char>| k != key@ implies #[trigger] lookup(ns, k) == lookup(
                        es,
                        k,
                    ) by {
                        if has_key(es, k) {
                            let j = choose|j: int| 0 <= j < es.len() && (#[trigger] es[j]).0 == k;
                            lemma_lookup_at(es, j);
                            assert(ns[j] == es[j]);
                            lemma_lookup_at(ns, j);
                        } else {
                            assert(!has_key(ns, k)) by {
                                if has_key(ns, k) {
                                    let j = choose|j: int|
                                        0 <= j < ns.len() && (#[trigger] ns[j]).0 == k;
                                    if j < n {
                                        assert(es[j].0 == k);
                                    }
                                }
                            }
                        }
                    }
                }
            },
        }
    }

    /// A copy with the same entries.
    pub fn duplicate(&self) -> (r: CountMap)
        ensures
            r.entries() == self.entries(),
    {
        let mut out: Vec<(String, u64)> = Vec::new();
        let mut i: usize = 0;
        while i < self.entries.len()
            invariant
                i <= self.entries@.len(),
                out@.map_values(|e: (String, u64)| (e.0@, e.1)) == self.entries().take(i as int),
            decreases self.entries@.len() - i,
        {
            let ghost prev = out@;
            out.push((self.entries[i].0.clone(), self.entries[i].1));
            assert(out@.map_values(|e: (String, u64)| (e.0@, e.1)) =~= prev.map_values(
                |e: (String, u64)| (e.0@, e.1),
            ).push(self.entries()[i as int]));
            assert(self.entries().take(i + 1) =~= self.entries().take(i as int).push(
                self.entries()[i as int],
            ));
            i = i + 1;
        }
        assert(self.entries().take(self.entries@.len() as int) =~= self.entries());
        CountMap { entries: out }
    }
}

impl CountMap {
    /// The entries, in order of first use.
    pub fn pairs(&self) -> (r: Vec<(String, u64)>)
        ensures
            r@.map_values(|e: (String, u64)| (e.0@, e.1)) == self.entries(),
    {
        self.duplicate().entries
    }
}

/// Resource figures reported from outside.
#[derive(Debug, Clone, Copy)]
pub struct PerformanceMetrics {
    pub avg_processing_time_us: u64,
    pub memory_usage_bytes: u64,
    /// CPU use in hundredths of a percent.
    pub cpu_usage_centipercent: u32,
}

impl PerformanceMetrics {
    pub fn zero() -> (r: Self)
        ensures
            r.avg_processing_time_us == 0,
            r.memory_usage_bytes == 0,
            r.cpu_usage_centipercent == 0,
    {
        PerformanceMetrics { avg_processing_time_us: 0, memory_usage_bytes: 0, cpu_usage_centipercent: 0 }
    }
}

/// Request counters and the per-domain and per-type counts.
#[derive(Debug)]
pub struct Stats {
    pub total_requests: u64,
    pub blocked_requests: u64,
    pub allowed_requests: u64,
    pub domains_blocked: CountMap,
    pub request_types: CountMap,
    pub performance_metrics: PerformanceMetrics,
    pub start_time: u64,
    pub last_updated: u64,
}

impl Stats {
    /// Every request is blocked or allowed; no count exceeds the requests
    /// it counts.
    pub open spec fn wf(&self) -> bool {
        &&& self.total_requests == self.blocked_requests + self.allowed_requests
        &&& self.domains_blocked.wf()
        &&& self.request_types.wf()
        &&& counts_at_most(self.domains_blocked.entries(), self.blocked_requests as nat)
        &&& counts_at_most(self.request_types.entries(), self.total_requests as nat)
    }

    /// All counters at zero, both times set to `now`.
    pub fn fresh(now: u64) -> (r: Self)
        ensures
            r.wf(),
            r.total_requests == 0,
            r.blocked_requests == 0,
            r.allowed_requests == 0,
            r.domains_blocked.entries().len() == 0,
            r.request_types.entries().len() == 0,
            r.performance_metrics.avg_processing_time_us == 0,
            r.performance_metrics.memory_usage_bytes == 0,
            r.performance_metrics.cpu_usage_centipercent == 0,
            r.start_time == now,
            r.last_updated == now,
    {
        Stats {
            total_requests: 0,
            blocked_requests: 0,
            allowed_requests: 0,
            domains_blocked: CountMap::new(),
            request_types: CountMap::new(),
            performance_metrics: PerformanceMetrics::zero(),
            start_time: now,
            last_updated: now,
        }
    }

    /// A copy with the same counters and counts.
    pub fn duplicate(&self) -> (r: Self)
        ensures
            r.total_requests == self.total_requests,
            r.blocked_requests == self.blocked_requests,
            r.allowed_requests == self.allowed_requests,
            r.domains_blocked.entries() == self.domains_blocked.entries(),
            r.request_types.entries() == self.request_types.entries(),
            r.performance_metrics == self.performance_metrics,
            r.start_time == self.start_time,
            r.last_updated == self.last_updated,
    {
        Stats {
            total_requests: self.total_requests,
            blocked_requests: self.blocked_requests,
            allowed_requests: self.allowed_requests,
            domains_blocked: self.domains_blocked.duplicate(),
            request_types: self.request_types.duplicate(),
            performance_metrics: self.performance_metrics,
            start_time: self.start_time,
            last_updated: self.last_updated,
        }
    }
}

/// Collects request statistics while switched on.
#[derive(Debug)]
pub struct StatsCollector {
    stats: Stats,
    collecting: bool,
}

impl StatsCollector {
    pub open spec fn wf(&self) -> bool {
        self.stats_view().wf()
    }

    pub closed spec fn stats_view(&self) -> Stats {
        self.stats
    }

    pub closed spec fn is_collecting(&self) -> bool {
        self.collecting
    }

    /// Whether a recording made now would be counted.
    pub open spec fn counts_next(&self) -> bool {
        self.is_collecting() && self.stats_view().total_requests < u64::MAX
    }

    /// A collector with all counters at zero, switched on.
    pub fn new() -> (r: Self)
        ensures
            r.wf(),
            r.is_collecting(),
            r.stats_view().total_requests == 0,
            r.stats_view().blocked_requests == 0,
            r.stats_view().allowed_requests == 0,
            r.stats_view().domains_blocked.entries().len() == 0,
            r.stats_view().request_types.entries().len() == 0,
    {
        StatsCollector { stats: Stats::fresh(TimeUtils::now_seconds()), collecting: true }
    }

    pub fn start_collection(&mut self) -> (r: Result<(), crate::error::AuboError>)
        ensures
            r is Ok,
            final(self).is_collecting(),
            final(self).stats_view() == old(self).stats_view(),
    {
        self.collecting = true;
        Ok(())
    }

    pub fn stop_collection(&mut self) -> (r: Result<(), crate::error::AuboError>)
        ensures
            r is Ok,
            !final(self).is_collecting(),
            final(self).stats_view() == old(self).stats_view(),
    {
        self.collecting = false;
        Ok(())
    }

    /// Counts one blocked request for `domain` and `request_type`. While
    /// switched off, or with the total at its largest value, nothing changes.
    pub fn record_blocked_request(&mut self, domain: &str, request_type: &str)
        requires
            old(self).wf(),
        ensures
            final(self).wf(),
            old(self).counts_next() ==> counted_step(
                old(self).stats_view(),
                final(self).stats_view(),
            ),
            final(self).is_collecting() == old(self).is_collecting(),
            ({
                let o = old(self).stats_view();
                let n = final(self).stats_view();
                if old(self).counts_next() {
                    &&& n.total_requests == o.total_requests + 1
                    &&& n.blocked_requests == o.blocked_requests + 1
                    &&& n.allowed_requests == o.allowed_requests
                    &&& n.domains_blocked.count(domain@) == Some(
                        (match o.domains_blocked.count(domain@) {
                            Some(v) => v + 1,
                            None => 1,
                        }) as u64,
                    )
                    &&& forall|k: Seq<char>|
                        k != domain@ ==> #[trigger] n.domains_blocked.count(k)
                            == o.domains_blocked.count(k)
                    &&& n.request_types.count(request_type@) == Some(
                        (match o.request_types.count(request_type@) {
                            Some(v) => v + 1,
                            None => 1,
                        }) as u64,
                    )
                    &&& forall|k: Seq<char>|
                        k != request_type@ ==> #[trigger] n.request_types.count(k)
                            == o.request_types.count(k)
                    &&& n.performance_metrics == o.performance_metrics
                    &&& n.start_time == o.start_time
                } else {
                    n == o
                }
            }),
    {
        if !self.collecting || self.stats.total_requests == u64::MAX {
            return;
        }
        let total = self.stats.total_requests;
        let blocked = self.stats.blocked_requests;
        self.stats.domains_blocked.increment(domain, blocked);
        self.stats.request_types.increment(request_type, total);
        self.stats.total_requests = total + 1;
        self.stats.blocked_requests = blocked + 1;
        self.stats.last_updated = TimeUtils::now_seconds();
    }

    /// Counts one allowed request of `request_type`; the domain is not
    /// counted. While switched off, or with the total at its largest value,
    /// nothing changes.
    pub fn record_allowed_request(&mut self, domain: &str, request_type: &str)
        requires
            old(self).wf(),
        ensures
            final(self).wf(),
            old(self).counts_next() ==> counted_step(
                old(self).stats_view(),
                final(self).stats_view(),
            ),
            final(self).is_collecting() == old(self).is_collecting(),
            ({
                let o = old(self).stats_view();
                let n = final(self).stats_view();
                if old(self).counts_next() {
                    &&& n.total_requests == o.total_requests + 1
                    &&& n.blocked_requests == o.blocked_requests
                    &&& n.allowed_requests == o.allowed_requests + 1
                    &&& n.domains_blocked.entries() == o.domains_blocked.entries()
                    &&& n.request_types.count(request_type@) == Some(
                        (match o.request_types.count(request_type@) {
                            Some(v) => v + 1,
                            None => 1,
                        }) as u64,
                    )
                    &&& forall|k: Seq<char>|
                        k != request_type@ ==> #[trigger] n.request_types.count(k)
                            == o.request_types.count(k)
                    &&& n.performance_metrics == o.performance_metrics
                    &&& n.start_time == o.start_time
                } else {
                    n == o
                }
            }),
    {
        if !self.collecting || self.stats.total_requests == u64::MAX {
            return;
        }
        let total = self.stats.total_requests;
        self.stats.request_types.increment(request_type, total);
        self.stats.total_requests = total + 1;
        self.stats.allowed_requests = self.stats.allowed_requests + 1;
        self.stats.last_updated = TimeUtils::now_seconds();
    }

    /// A consistent copy of the statistics.
    pub fn get_stats(&self) -> (r: Stats)
        requires
            self.wf(),
        ensures
            r.wf(),
            r.total_requests == self.stats_view().total_requests,
            r.blocked_requests == self.stats_view().blocked_requests,
            r.allowed_requests == self.stats_view().allowed_requests,
            r.domains_blocked.entries() == self.stats_view().domains_blocked.entries(),
            r.request_types.entries() == self.stats_view().request_types.entries(),
            r.performance_metrics == self.stats_view().performance_metrics,
            r.start_time == self.stats_view().start_time,
            r.last_updated == self.stats_view().last_updated,
    {
        self.stats.duplicate()
    }

    /// Replaces the resource figures.
    pub fn update_performance_metrics(
        &mut self,
        avg_processing_time_us: u64,
        memory_usage_bytes: u64,
        cpu_usage_centipercent: u32,
    )
        requires
            old(self).wf(),
        ensures
            final(self).wf(),
            final(self).is_collecting() == old(self).is_collecting(),
            final(self).stats_view().performance_metrics == (PerformanceMetrics {
                avg_processing_time_us,
                memory_usage_bytes,
                cpu_usage_centipercent,
            }),
            final(self).stats_view().total_requests == old(self).stats_view().total_requests,
            final(self).stats_view().blocked_requests == old(self).stats_view().blocked_requests,
            final(self).stats_view().allowed_requests == old(self).stats_view().allowed_requests,
            final(self).stats_view().domains_blocked == old(self).stats_view().domains_blocked,
            final(self).stats_view().request_types == old(self).stats_view().request_types,
    {
        self.stats.performance_metrics = PerformanceMetrics {
            avg_processing_time_us,
            memory_usage_bytes,
            cpu_usage_centipercent,
        };
        self.stats.last_updated = TimeUtils::now_seconds();
    }

    /// All counters back to zero; switching is kept as it was.
    pub fn reset(&mut self)
        ensures
            final(self).wf(),
            final(self).is_collecting() == old(self).is_collecting(),
            final(self).stats_view().total_requests == 0,
            final(self).stats_view().blocked_requests == 0,
            final(self).stats_view().allowed_requests == 0,
            final(self).stats_view().domains_blocked.entries().len() == 0,
            final(self).stats_view().request_types.entries().len() == 0,
            final(self).stats_view().performance_metrics.avg_processing_time_us == 0,
            final(self).stats_view().performance_metrics.memory_usage_bytes == 0,
            final(self).stats_view().performance_metrics.cpu_usage_centipercent == 0,
    {
        self.stats = Stats::fresh(TimeUtils::now_seconds());
    }
}

/// One counted recording: the total goes up by one, and so does exactly
/// one of the blocked and allowed counters.
pub open spec fn counted_step(a: Stats, b: Stats) -> bool {
    &&& b.total_requests == a.total_requests + 1
    &&& ((b.blocked_requests == a.blocked_requests + 1 && b.allowed_requests == a.allowed_requests)
        || (b.allowed_requests == a.allowed_requests + 1 && b.blocked_requests
        == a.blocked_requests))
}

/// Starting from zero, after `n` counted recordings of blocked and allowed
/// requests in any interleaving, the total is `n` and equals blocked plus
/// allowed.
pub proof fn lemma_counts_add_up(states: Seq<Stats>)
    requires
        states.len() >= 1,
        states[0].total_requests == 0,
        states[0].blocked_requests == 0,
        states[0].allowed_requests == 0,
        forall|i: int| 0 <= i < states.len() - 1 ==> counted_step(#[trigger] states[i], states[i + 1]),
    ensures
        states.last().total_requests == states.len() - 1,
        states.last().total_requests == states.last().blocked_requests
            + states.last().allowed_requests,
    decreases states.len(),
{
    if states.len() > 1 {
        let prefix = states.drop_last();
        assert forall|i: int| 0 <= i < prefix.len() - 1 implies counted_step(
            #[trigger] prefix[i],
            prefix[i + 1],
        ) by {
            assert(counted_step(states[i], states[i + 1]));
        }
        lemma_counts_add_up(prefix);
        assert(counted_step(states[states.len() - 2], states[states.len() - 1]));
    }
}

} // verus!
