use vstd::prelude::*;

use crate::config::{HookConfig, HookFunction};
use crate::engine::FilterEngine;
use crate::error::HookError;
use crate::stats::StatsCollector;
use crate::text::str_eq;

verus! {

/// The bookkeeping of one interception point.
#[derive(Debug, Clone)]
pub struct HookInfo {
    pub name: String,
    pub library: String,
    /// The handle the hooking collaborator gave for the original function.
    pub original_fn: u64,
    pub installed: bool,
}

/// What is tracked of a record: name, library, handle, installed.
pub open spec fn hook_view(h: HookInfo) -> (Seq<char>, Seq<char>, u64, bool) {
    (h.name@, h.library@, h.original_fn, h.installed)
}

/// One intercepted request.
#[derive(Debug, Clone)]
pub struct RequestContext {
    pub url: String,
    pub domain: String,
    pub request_type: String,
    pub origin_process: String,
    /// Milliseconds since the Unix epoch at interception.
    pub timestamp: u64,
    pub ip_address: Option<String>,
}

/// One step of an uninstall pass over the records: names, libraries and
/// handles stay; a record that was not installed stays so; a record stays
/// installed only where it was and its removal failed.
pub open spec fn uninstall_step(
    before: Seq<(Seq<char>, Seq<char>, u64, bool)>,
    after: Seq<(Seq<char>, Seq<char>, u64, bool)>,
) -> bool {
    &&& after.len() == before.len()
    &&& forall|i: int|
        0 <= i < before.len() ==> {
            &&& (#[trigger] after[i]).0 == before[i].0
            &&& after[i].1 == before[i].1
            &&& after[i].2 == before[i].2
            &&& (after[i].3 ==> before[i].3)
        }
}

/// Some enabled descriptor has this function name.
pub open spec fn names_enabled(descs: Seq<HookFunction>, name: Seq<char>) -> bool {
    exists|j: int| 0 <= j < descs.len() && descs[j].enabled && #[trigger] descs[j].name@ == name
}

/// `remove` may report success on releasing `h`.
pub open spec fn removed<U: Fn(u64) -> Result<(), HookError>>(remove: U, h: u64) -> bool {
    exists|o: Result<(), HookError>| o is Ok && #[trigger] remove.ensures((h,), o)
}

/// `resolve` may answer `r` for the symbol `name` of `library`.
pub open spec fn resolves<R: Fn(&str, &str) -> Option<u64>>(
    resolve: R,
    library: Seq<char>,
    name: Seq<char>,
    r: Option<u64>,
) -> bool {
    exists|l: &str, n: &str| l@ == library && n@ == name && #[trigger] resolve.ensures((l, n), r)
}

/// Resolving `name` in `library` and hooking the address found may have
/// given the handle `h`.
pub open spec fn installs<R: Fn(&str, &str) -> Option<u64>, I: Fn(u64) -> Result<u64, HookError>>(
    resolve: R,
    install: I,
    library: Seq<char>,
    name: Seq<char>,
    h: u64,
) -> bool {
    exists|a: u64|
        resolves(resolve, library, name, Some(a)) && #[trigger] install.ensures(
            (a,),
            Ok::<u64, HookError>(h),
        )
}

/// The symbol may not have resolved, or hooking the address found may have
/// failed.
pub open spec fn install_failed<
    R: Fn(&str, &str) -> Option<u64>,
    I: Fn(u64) -> Result<u64, HookError>,
>(resolve: R, install: I, library: Seq<char>, name: Seq<char>) -> bool {
    resolves(resolve, library, name, None) || exists|a: u64, e: HookError|
        resolves(resolve, library, name, Some(a)) && #[trigger] install.ensures(
            (a,),
            Err::<u64, HookError>(e),
        )
}

/// Some record called `name` is installed.
pub open spec fn has_installed(rs: Seq<(Seq<char>, Seq<char>, u64, bool)>, name: Seq<char>) -> bool {
    exists|i: int| 0 <= i < rs.len() && (#[trigger] rs[i]).0 == name && rs[i].3
}

/// Some enabled descriptor names `name` in `library`.
pub open spec fn targets(descs: Seq<HookFunction>, library: Seq<char>, name: Seq<char>) -> bool {
    exists|j: int|
        0 <= j < descs.len() && (#[trigger] descs[j]).enabled && descs[j].library@ == library
            && descs[j].name@ == name
}

/// `resolve` may have found the address `a` for an enabled descriptor.
pub open spec fn resolved_for<R: Fn(&str, &str) -> Option<u64>>(
    resolve: R,
    descs: Seq<HookFunction>,
    a: u64,
) -> bool {
    exists|j: int|
        0 <= j < descs.len() && (#[trigger] descs[j]).enabled && resolves(
            resolve,
            descs[j].library@,
            descs[j].name@,
            Some(a),
        )
}

/// What the collaborator accepts: `resolve` is asked only for enabled
/// descriptors' symbols, `install` only for addresses `resolve` found for
/// them.
pub open spec fn backend_ready<R: Fn(&str, &str) -> Option<u64>, I: Fn(u64) -> Result<u64, HookError>>(
    b: (R, I),
    descs: Seq<HookFunction>,
) -> bool {
    &&& forall|l: &str, n: &str| targets(descs, l@, n@) ==> #[trigger] b.0.requires((l, n))
    &&& forall|a: u64| resolved_for(b.0, descs, a) ==> #[trigger] b.1.requires((a,))
}

/// The outcome of an install pass over `descs` from `before` to `after`:
/// every enabled descriptor ends with an installed record of its name or
/// its attempt failed; every record is as before or was installed in the
/// pass, for an enabled descriptor, with a handle the collaborator gave.
pub open spec fn install_pass<R: Fn(&str, &str) -> Option<u64>, I: Fn(u64) -> Result<u64, HookError>>(
    b: (R, I),
    descs: Seq<HookFunction>,
    before: Seq<(Seq<char>, Seq<char>, u64, bool)>,
    after: Seq<(Seq<char>, Seq<char>, u64, bool)>,
) -> bool {
    &&& after.len() >= before.len()
    &&& forall|j: int|
        0 <= j < descs.len() && (#[trigger] descs[j]).enabled ==> has_installed(after, descs[j].name@)
            || install_failed(b.0, b.1, descs[j].library@, descs[j].name@)
    &&& forall|i: int|
        0 <= i < after.len() ==> (i < before.len() && #[trigger] after[i] == before[i]) || (after[i].3
            && targets(descs, after[i].1, after[i].0) && installs(
            b.0,
            b.1,
            after[i].1,
            after[i].0,
            after[i].2,
        ))
}

/// The outcome of an uninstall pass with `remove` from `before` to
/// `after`: records not installed are untouched; an installed record keeps
/// name, library and handle, and is uninstalled where its removal may have
/// succeeded, kept installed where it may have failed.
pub open spec fn removal_pass<U: Fn(u64) -> Result<(), HookError>>(
    remove: U,
    before: Seq<(Seq<char>, Seq<char>, u64, bool)>,
    after: Seq<(Seq<char>, Seq<char>, u64, bool)>,
) -> bool {
    &&& uninstall_step(before, after)
    &&& forall|i: int|
        0 <= i < before.len() ==> {
            &&& (!before[i].3 ==> #[trigger] after[i] == before[i])
            &&& (before[i].3 && !after[i].3 ==> removed(remove, before[i].2))
            &&& (before[i].3 && after[i].3 ==> exists|e: HookError|
                remove.ensures((before[i].2,), Err::<(), HookError>(e)))
        }
}

/// `remove` is asked only for the handles of installed records.
pub open spec fn remover_ready<U: Fn(u64) -> Result<(), HookError>>(
    remove: U,
    rs: Seq<(Seq<char>, Seq<char>, u64, bool)>,
) -> bool {
    forall|i: int| 0 <= i < rs.len() && (#[trigger] rs[i]).3 ==> remove.requires((rs[i].2,))
}

/// The number of installed records.
pub open spec fn installed_count(hs: Seq<(Seq<char>, Seq<char>, u64, bool)>) -> nat
    decreases hs.len(),
{
    if hs.len() == 0 {
        0
    } else {
        installed_count(hs.drop_last()) + if hs.last().3 {
            1nat
        } else {
            0nat
        }
    }
}

/// The interception points and the single place where an intercepted
/// request becomes a decision and a count.
#[derive(Debug)]
pub struct NetworkHooks {
    config: HookConfig,
    filter_engine: FilterEngine,
    stats: StatsCollector,
    hooks: Vec<HookInfo>,
    request_counter: usize,
    blocked_counter: usize,
}

impl NetworkHooks {
    pub open spec fn wf(&self) -> bool {
        &&& self.engine().wf()
        &&& self.stats_collector().wf()
        &&& self.names_unique()
    }

    pub closed spec fn names_unique(&self) -> bool {
        forall|i: int, j: int|
            0 <= i < j < self.hooks@.len() ==> (#[trigger] self.hooks@[i]).name@
                != (#[trigger] self.hooks@[j]).name@
    }

    pub closed spec fn records(&self) -> Seq<(Seq<char>, Seq<char>, u64, bool)> {
        self.hooks@.map_values(|h: HookInfo| hook_view(h))
    }

    pub closed spec fn engine(&self) -> FilterEngine {
        self.filter_engine
    }

    pub closed spec fn stats_collector(&self) -> StatsCollector {
        self.stats
    }

    pub closed spec fn hook_config(&self) -> HookConfig {
        self.config
    }

    pub closed spec fn counters(&self) -> (usize, usize) {
        (self.request_counter, self.blocked_counter)
    }

    /// No hooks installed, counters at zero.
    pub fn new(config: HookConfig, filter_engine: FilterEngine, stats: StatsCollector) -> (r: Self)
        requires
            filter_engine.wf(),
            stats.wf(),
        ensures
            r.wf(),
            r.records().len() == 0,
            r.counters() == (0usize, 0usize),
            r.engine() == filter_engine,
            r.stats_collector() == stats,
            r.hook_config() == config,
    {
        let r = NetworkHooks {
            config,
            filter_engine,
            stats,
            hooks: Vec::new(),
            request_counter: 0,
            blocked_counter: 0,
        };
        assert(r.records() =~= Seq::empty());
        r
    }

    pub fn filter_engine(&self) -> (r: &FilterEngine)
        ensures
            *r == self.engine(),
    {
        &self.filter_engine
    }

    pub fn stats(&self) -> (r: &StatsCollector)
        ensures
            *r == self.stats_collector(),
    {
        &self.stats
    }

    /// Switches statistics collection on or off.
    pub fn set_collecting(&mut self, on: bool)
        requires
            old(self).wf(),
        ensures
            final(self).wf(),
            final(self).stats_collector().is_collecting() == on,
            final(self).stats_collector().stats_view() == old(self).stats_collector().stats_view(),
            final(self).records() == old(self).records(),
            final(self).engine() == old(self).engine(),
            final(self).counters() == old(self).counters(),
            final(self).hook_config() == old(self).hook_config(),
    {
        if on {
            let _ = self.stats.start_collection();
        } else {
            let _ = self.stats.stop_collection();
        }
    }

    /// The installed records, in registry order.
    pub fn hook_records(&self) -> (r: &Vec<HookInfo>)
        ensures
            r@.map_values(|h: HookInfo| hook_view(h)) == self.records(),
    {
        &self.hooks
    }

    fn find(&self, name: &str) -> (r: Option<usize>)
        ensures
            match r {
                Some(i) => i < self.records().len() && self.records()[i as int].0 == name@,
                None => forall|i: int|
                    0 <= i < self.records().len() ==> (#[trigger] self.records()[i]).0 != name@,
            },
    {
        let mut i: usize = 0;
        while i < self.hooks.len()
            invariant
                i <= self.hooks@.len(),
                forall|k: int| 0 <= k < i ==> (#[trigger] self.records()[k]).0 != name@,
            decreases self.hooks@.len() - i,
        {
            if str_eq(self.hooks[i].name.as_str(), name) {
                return Some(i);
            }
            i = i + 1;
        }
        None
    }

    /// Takes the outcome of installing the hook for `desc`. A handle makes
    /// the record for that function name installed with that handle (a
    /// record of the same name is replaced); an error leaves the registry
    /// as it was and is returned.
    pub fn record_install(&mut self, desc: &HookFunction, outcome: Result<u64, HookError>) -> (r:
        Result<(), HookError>)
        requires
            old(self).wf(),
        ensures
            final(self).wf(),
            final(self).engine() == old(self).engine(),
            final(self).stats_collector() == old(self).stats_collector(),
            final(self).counters() == old(self).counters(),
            final(self).hook_config() == old(self).hook_config(),
            match outcome {
                Err(e) => r == Err::<(), HookError>(e) && final(self).records() == old(
                    self,
                ).records(),
                Ok(h) => r is Ok && (exists|i: int|
                    0 <= i < old(self).records().len() && (#[trigger] old(self).records()[i]).0
                        == desc.name@ && final(self).records() == old(self).records().update(
                        i,
                        (desc.name@, desc.library@, h, true),
                    )) || ((forall|i: int|
                    0 <= i < old(self).records().len() ==> (#[trigger] old(
                        self,
                    ).records()[i]).0 != desc.name@) && final(self).records() == old(
                    self,
                ).records().push((desc.name@, desc.library@, h, true))),
            },
    {
        match outcome {
            Err(e) => Err(e),
            Ok(handle) => {
                let info = HookInfo {
                    name: desc.name.clone(),
                    library: desc.library.clone(),
                    original_fn: handle,
                    installed: true,
                };
                let ghost before = self.records();
                match self.find(desc.name.as_str()) {
                    Some(i) => {
                        self.hooks.set(i, info);
                        assert(self.records() =~= before.update(
                            i as int,
                            (desc.name@, desc.library@, handle, true),
                        ));
                        assert(self.names_unique()) by {
                            assert forall|a: int, b: int|
                                0 <= a < b < self.hooks@.len() implies (#[trigger] self.hooks@[a]).name@
                                != (#[trigger] self.hooks@[b]).name@ by {
                                assert(self.records()[a].0 == self.hooks@[a].name@);
                                assert(self.records()[b].0 == self.hooks@[b].name@);
                                assert(before[a].0 == old(self).hooks@[a].name@);
                                assert(before[b].0 == old(self).hooks@[b].name@);
                            }
                        }
                    },
                    None => {
                        self.hooks.push(info);
                        assert(self.records() =~= before.push(
                            (desc.name@, desc.library@, handle, true),
                        ));
                        assert(self.names_unique()) by {
                            assert forall|a: int, b: int|
                                0 <= a < b < self.hooks@.len() implies (#[trigger] self.hooks@[a]).name@
                                != (#[trigger] self.hooks@[b]).name@ by {
                                assert(self.records()[a].0 == self.hooks@[a].name@);
                                assert(self.records()[b].0 == self.hooks@[b].name@);
                                if b < before.len() {
                                    assert(before[a].0 == old(self).hooks@[a].name@);
                                    assert(before[b].0 == old(self).hooks@[b].name@);
                                } else {
                                    assert(before[a].0 == old(self).hooks@[a].name@);
                                }
                            }
                        }
                    },
                }
                Ok(())
            },
        }
    }

    /// Takes the outcome of removing the hook of record `i`. Success on an
    /// installed record marks it uninstalled; anything else leaves the
    /// registry as it was. The outcome is returned.
    pub fn record_removal(&mut self, i: usize, outcome: Result<(), HookError>) -> (r: Result<
        (),
        HookError,
    >)
        requires
            old(self).wf(),
            i < old(self).records().len(),
        ensures
            final(self).wf(),
            r == outcome,
            final(self).engine() == old(self).engine(),
            final(self).stats_collector() == old(self).stats_collector(),
            final(self).counters() == old(self).counters(),
            final(self).hook_config() == old(self).hook_config(),
            final(self).records() == if old(self).records()[i as int].3 && outcome is Ok {
                old(self).records().update(
                    i as int,
                    (
                        old(self).records()[i as int].0,
                        old(self).records()[i as int].1,
                        old(self).records()[i as int].2,
                        false,
                    ),
                )
            } else {
                old(self).records()
            },
    {
        if self.hooks[i].installed && outcome.is_ok() {
            let info = HookInfo {
                name: self.hooks[i].name.clone(),
                library: self.hooks[i].library.clone(),
                original_fn: self.hooks[i].original_fn,
                installed: false,
            };
            let ghost before = self.records();
            let ghost old_hooks = self.hooks@;
            self.hooks.set(i, info);
            assert(self.records() =~= before.update(
                i as int,
                (before[i as int].0, before[i as int].1, before[i as int].2, false),
            ));
            assert(self.names_unique()) by {
                assert forall|a: int, b: int|
                    0 <= a < b < self.hooks@.len() implies (#[trigger] self.hooks@[a]).name@
                    != (#[trigger] self.hooks@[b]).name@ by {
                    assert(self.records()[a].0 == self.hooks@[a].name@);
                    assert(self.records()[b].0 == self.hooks@[b].name@);
                    assert(before[a].0 == old_hooks[a].name@);
                    assert(before[b].0 == old_hooks[b].name@);
                }
            }
        }
        outcome
    }

    /// Installs the hook for one descriptor: the symbol is resolved, then
    /// hooked; a symbol that does not resolve is `SymbolNotFound`.
    fn install_hook<R, I>(&mut self, desc: &HookFunction, resolve: &R, install: &I) -> (r: Result<
        (),
        HookError,
    >) where R: Fn(&str, &str) -> Option<u64>, I: Fn(u64) -> Result<u64, HookError>
        requires
            old(self).wf(),
            forall|l: &str, n: &str|
                l@ == desc.library@ && n@ == desc.name@ ==> #[trigger] resolve.requires((l, n)),
            forall|a: u64|
                resolves(*resolve, desc.library@, desc.name@, Some(a)) ==> #[trigger] install.requires(
                    (a,),
                ),
        ensures
            final(self).wf(),
            final(self).engine() == old(self).engine(),
            final(self).stats_collector() == old(self).stats_collector(),
            final(self).counters() == old(self).counters(),
            final(self).hook_config() == old(self).hook_config(),
            final(self).records().len() >= old(self).records().len(),
            forall|i: int|
                0 <= i < final(self).records().len() ==> (i < old(self).records().len()
                    && #[trigger] final(self).records()[i] == old(self).records()[i]) || (final(self).records()[i].0 == desc.name@
                    && final(self).records()[i].1 == desc.library@ && final(self).records()[i].3
                    && installs(*resolve, *install, desc.library@, desc.name@, final(self).records()[i].2)),
            has_installed(final(self).records(), desc.name@) || install_failed(
                *resolve,
                *install,
                desc.library@,
                desc.name@,
            ),
            forall|x: Seq<char>|
                has_installed(old(self).records(), x) ==> #[trigger] has_installed(final(self).records(), x),
    {
        let lib = desc.library.as_str();
        let nm = desc.name.as_str();
        let ghost before = self.records();
        match resolve(lib, nm) {
            None => {
                assert(resolves(*resolve, desc.library@, desc.name@, None));
                Err(
                    HookError::SymbolNotFound {
                        symbol: desc.name.clone(),
                        library: desc.library.clone(),
                    },
                )
            },
            Some(addr) => {
                assert(resolves(*resolve, desc.library@, desc.name@, Some(addr)));
                let outcome = install(addr);
                match outcome {
                    Ok(h) => {
                        assert(installs(*resolve, *install, desc.library@, desc.name@, h));
                        let r = self.record_install(desc, Ok(h));
                        let ghost after = self.records();
                        let ghost rec = (desc.name@, desc.library@, h, true);
                        let ghost idx: int = if exists|i: int|
                            0 <= i < before.len() && (#[trigger] before[i]).0 == desc.name@
                                && after == before.update(i, rec) {
                            choose|i: int|
                                0 <= i < before.len() && (#[trigger] before[i]).0 == desc.name@
                                    && after == before.update(i, rec)
                        } else {
                            before.len() as int
                        };
                        proof {
                            if idx == before.len() {
                                assert(after == before.push(rec));
                            }
                        }
                        assert(0 <= idx < after.len() && after[idx] == rec);
                        assert(forall|i: int|
                            0 <= i < after.len() && i != idx ==> i < before.len() && #[trigger] after[i]
                                == before[i]);
                        assert(has_installed(after, desc.name@));
                        assert forall|x: Seq<char>| has_installed(before, x) implies #[trigger] has_installed(
                            after,
                            x,
                        ) by {
                            let j = choose|j: int| 0 <= j < before.len() && (#[trigger] before[j]).0 == x && before[j].3;
                            if after[j] == before[j] {
                            } else {
                                assert(after[j] == rec);
                            }
                        }
                        r
                    },
                    Err(e) => {
                        assert(install.ensures((addr,), Err::<u64, HookError>(e)));
                        assert(install_failed(*resolve, *install, desc.library@, desc.name@));
                        Err(e)
                    },
                }
            },
        }
    }

    /// Installs the enabled hooks of the configuration, in configured
    /// order, through the given collaborator (`resolve` finds a symbol in a
    /// library, `install` hooks an address and gives the original's
    /// handle). A hook that fails is skipped and the others go on: every
    /// enabled descriptor ends with an installed record of its name or its
    /// attempt failed. With hooks disabled nothing happens; without a
    /// collaborator the result is `InstallationFailed` for `"all"` and
    /// nothing changes.
    pub fn install_hooks<R, I>(&mut self, backend: Option<(R, I)>) -> (r: Result<(), HookError>)
        where R: Fn(&str, &str) -> Option<u64>, I: Fn(u64) -> Result<u64, HookError>
        requires
            old(self).wf(),
            backend matches Some(b) ==> backend_ready(b, old(self).hook_config().hook_functions@),
        ensures
            final(self).wf(),
            final(self).engine() == old(self).engine(),
            final(self).stats_collector() == old(self).stats_collector(),
            final(self).counters() == old(self).counters(),
            final(self).hook_config() == old(self).hook_config(),
            !old(self).hook_config().enabled ==> r is Ok && final(self).records() == old(self).records(),
            old(self).hook_config().enabled && backend is None ==> (match r {
                Err(HookError::InstallationFailed { function, .. }) => function@ == "all"@,
                _ => false,
            }) && final(self).records() == old(self).records(),
            old(self).hook_config().enabled && backend is Some ==> r is Ok,
            old(self).hook_config().enabled ==> (backend matches Some(b) ==> install_pass(
                b,
                old(self).hook_config().hook_functions@,
                old(self).records(),
                final(self).records(),
            )),
    {
        if !self.config.enabled {
            return Ok(());
        }
        match backend {
            None => Err(
                HookError::InstallationFailed {
                    function: "all".to_string(),
                    reason: "hooking API not available".to_string(),
                },
            ),
            Some(b) => {
                let ghost gb = b;
                let (resolve, install) = b;
                let n = self.config.hook_functions.len();
                let ghost start = self.records();
                let ghost descs = self.config.hook_functions@;
                let mut k: usize = 0;
                while k < n
                    invariant
                        self.wf(),
                        k <= n,
                        n == descs.len(),
                        gb == (resolve, install),
                        self.config.hook_functions@ == descs,
                        self.engine() == old(self).engine(),
                        self.stats_collector() == old(self).stats_collector(),
                        self.counters() == old(self).counters(),
                        self.hook_config() == old(self).hook_config(),
                        old(self).hook_config().hook_functions@ == descs,
                        start == old(self).records(),
                        backend_ready(gb, descs),
                        self.records().len() >= start.len(),
                        forall|j: int|
                            0 <= j < k && (#[trigger] descs[j]).enabled ==> has_installed(
                                self.records(),
                                descs[j].name@,
                            ) || install_failed(resolve, install, descs[j].library@, descs[j].name@),
                        forall|i: int|
                            0 <= i < self.records().len() ==> (i < start.len()
                                && #[trigger] self.records()[i] == start[i]) || (self.records()[i].3
                                && targets(descs, self.records()[i].1, self.records()[i].0)
                                && installs(
                                resolve,
                                install,
                                self.records()[i].1,
                                self.records()[i].0,
                                self.records()[i].2,
                            )),
                    decreases n - k,
                {
                    if self.config.hook_functions[k].enabled {
                        let desc = self.config.hook_functions[k].duplicate();
                        let ghost before = self.records();
                        assert(descs[k as int].enabled);
                        assert(descs[k as int].library@ == desc.library@);
                        assert(descs[k as int].name@ == desc.name@);
                        assert(gb.0 == resolve && gb.1 == install);
                        assert forall|l: &str, m: &str|
                            l@ == desc.library@ && m@ == desc.name@ implies #[trigger] resolve.requires(
                            (l, m),
                        ) by {
                            assert(descs[k as int].enabled);
                            assert(targets(descs, l@, m@));
                        }
                        assert forall|a: u64|
                            resolves(resolve, desc.library@, desc.name@, Some(a)) implies #[trigger] install.requires(
                            (a,),
                        ) by {
                            assert(descs[k as int].enabled);
                            assert(resolved_for(resolve, descs, a));
                        }
                        let _ = self.install_hook(&desc, &resolve, &install);
                        assert forall|i: int|
                            0 <= i < self.records().len() implies (i < start.len()
                                && #[trigger] self.records()[i] == start[i]) || (self.records()[i].3
                                && targets(descs, self.records()[i].1, self.records()[i].0)
                                && installs(
                                resolve,
                                install,
                                self.records()[i].1,
                                self.records()[i].0,
                                self.records()[i].2,
                            )) by {
                            if i < before.len() && self.records()[i] == before[i] {
                            } else {
                                assert(targets(descs, self.records()[i].1, self.records()[i].0));
                            }
                        }
                        assert forall|j: int|
                            0 <= j < k + 1 && (#[trigger] descs[j]).enabled implies has_installed(
                                self.records(),
                                descs[j].name@,
                            ) || install_failed(resolve, install, descs[j].library@, descs[j].name@) by {
                            if j < k {
                                if has_installed(before, descs[j].name@) {
                                }
                            }
                        }
                    }
                    k = k + 1;
                }
                Ok(())
            },
        }
    }

    /// Removes every installed hook through `remove`, which releases a
    /// handle and is asked only for the handles of installed records. A
    /// removal that succeeds marks its record uninstalled; one that fails
    /// leaves it installed, to be retried by a later pass. Records not
    /// installed are not touched. Without a collaborator the result is
    /// `RemovalFailed` for `"all"` and nothing changes.
    pub fn uninstall_hooks<U>(&mut self, remove: Option<U>) -> (r: Result<(), HookError>) where
        U: Fn(u64) -> Result<(), HookError>,

        requires
            old(self).wf(),
            remove matches Some(f) ==> remover_ready(f, old(self).records()),
        ensures
            final(self).wf(),
            final(self).engine() == old(self).engine(),
            final(self).stats_collector() == old(self).stats_collector(),
            final(self).counters() == old(self).counters(),
            final(self).hook_config() == old(self).hook_config(),
            remove is None ==> (match r {
                Err(HookError::RemovalFailed { function, .. }) => function@ == "all"@,
                _ => false,
            }) && final(self).records() == old(self).records(),
            remove is Some ==> r is Ok,
            uninstall_step(old(self).records(), final(self).records()),
            remove matches Some(f) ==> removal_pass(f, old(self).records(), final(self).records()),
    {
        match remove {
            None => Err(
                HookError::RemovalFailed {
                    function: "all".to_string(),
                    reason: "hooking API not available".to_string(),
                },
            ),
            Some(f) => {
                let ghost start = self.records();
                let mut i: usize = 0;
                while i < self.hooks.len()
                    invariant
                        self.wf(),
                        i <= self.hooks@.len(),
                        self.hooks@.len() == start.len(),
                        self.records().len() == start.len(),
                        start == old(self).records(),
                        self.engine() == old(self).engine(),
                        self.stats_collector() == old(self).stats_collector(),
                        self.counters() == old(self).counters(),
                        self.hook_config() == old(self).hook_config(),
                        remover_ready(f, start),
                        uninstall_step(start, self.records()),
                        forall|k: int|
                            i <= k < start.len() ==> #[trigger] self.records()[k] == start[k],
                        forall|k: int|
                            0 <= k < i ==> {
                                &&& (!start[k].3 ==> #[trigger] self.records()[k] == start[k])
                                &&& (start[k].3 && !self.records()[k].3 ==> removed(f, start[k].2))
                                &&& (start[k].3 && self.records()[k].3 ==> exists|e: HookError|
                                    f.ensures((start[k].2,), Err::<(), HookError>(e)))
                            },
                    decreases self.hooks@.len() - i,
                {
                    assert(self.records()[i as int] == start[i as int]);
                    if self.hooks[i].installed {
                        let handle = self.hooks[i].original_fn;
                        let outcome = f(handle);
                        let ghost got = outcome;
                        let ghost before = self.records();
                        let _ = self.record_removal(i, outcome);
                        assert(self.records().len() == start.len());
                        proof {
                            if got is Ok {
                                assert(removed(f, start[i as int].2));
                            } else {
                                let e = got->Err_0;
                                assert(f.ensures((start[i as int].2,), Err::<(), HookError>(e)));
                            }
                        }
                        assert forall|k: int| 0 <= k < i + 1 implies {
                            &&& (!start[k].3 ==> #[trigger] self.records()[k] == start[k])
                            &&& (start[k].3 && !self.records()[k].3 ==> removed(f, start[k].2))
                            &&& (start[k].3 && self.records()[k].3 ==> exists|e: HookError|
                                f.ensures((start[k].2,), Err::<(), HookError>(e)))
                        } by {
                            if k < i {
                                assert(self.records()[k] == before[k]);
                            }
                        }
                    }
                    i = i + 1;
                }
                Ok(())
            },
        }
    }

    /// Decides one intercepted request and records it: the request counter
    /// always goes up by one (wrapping), the verdict is the filter engine's,
    /// the blocked counter goes up for a blocked request, and the statistics
    /// count the request as blocked (by domain and type) or allowed (by
    /// type). Returns `true` for block.
    pub fn analyze_request(&mut self, context: &RequestContext) -> (r: bool)
        requires
            old(self).wf(),
        ensures
            final(self).wf(),
            r == old(self).engine().decides_block(context.url@),
            crate::engine::unparsable(context.url@) ==> r == crate::engine::blocks_with_host(
                old(self).engine().allow_domains(),
                old(self).engine().block_domains(),
                old(self).engine().pattern_rules(),
                crate::engine::fallback_host(context.url@),
                context.url@,
            ),
            final(self).engine() == old(self).engine(),
            final(self).records() == old(self).records(),
            final(self).counters().0 == (if old(self).counters().0 == usize::MAX {
                0
            } else {
                old(self).counters().0 + 1
            }),
            final(self).counters().1 == (if !r {
                old(self).counters().1 as int
            } else if old(self).counters().1 == usize::MAX {
                0
            } else {
                old(self).counters().1 + 1
            }),
            final(self).stats_collector().is_collecting() == old(
                self,
            ).stats_collector().is_collecting(),
            ({
                let o = old(self).stats_collector().stats_view();
                let n = final(self).stats_collector().stats_view();
                if old(self).stats_collector().counts_next() {
                    &&& n.total_requests == o.total_requests + 1
                    &&& n.blocked_requests == o.blocked_requests + if r {
                        1int
                    } else {
                        0int
                    }
                    &&& n.allowed_requests == o.allowed_requests + if r {
                        0int
                    } else {
                        1int
                    }
                    &&& n.request_types.count(context.request_type@) == Some(
                        (match o.request_types.count(context.request_type@) {
                            Some(v) => v + 1,
                            None => 1,
                        }) as u64,
                    )
                    &&& r ==> n.domains_blocked.count(context.domain@) == Some(
                        (match o.domains_blocked.count(context.domain@) {
                            Some(v) => v + 1,
                            None => 1,
                        }) as u64,
                    )
                    &&& !r ==> n.domains_blocked.entries() == o.domains_blocked.entries()
                } else {
                    n == o
                }
            }),
    {
        self.request_counter = if self.request_counter == usize::MAX {
            0
        } else {
            self.request_counter + 1
        };
        let block = self.filter_engine.should_block(
            context.url.as_str(),
            context.request_type.as_str(),
            context.origin_process.as_str(),
        );
        if block {
            self.blocked_counter = if self.blocked_counter == usize::MAX {
                0
            } else {
                self.blocked_counter + 1
            };
            self.stats.record_blocked_request(
                context.domain.as_str(),
                context.request_type.as_str(),
            );
        } else {
            self.stats.record_allowed_request(
                context.domain.as_str(),
                context.request_type.as_str(),
            );
        }
        block
    }

    /// The request and blocked counters.
    pub fn get_stats(&self) -> (r: (usize, usize))
        ensures
            r == self.counters(),
    {
        (self.request_counter, self.blocked_counter)
    }

    /// The number of installed hooks.
    pub fn get_active_hook_count(&self) -> (r: usize)
        ensures
            r == installed_count(self.records()),
    {
        let mut n: usize = 0;
        let mut i: usize = 0;
        assert(self.records().take(0) =~= Seq::<(Seq<char>, Seq<char>, u64, bool)>::empty());
        while i < self.hooks.len()
            invariant
                i <= self.hooks@.len(),
                n == installed_count(self.records().take(i as int)),
                n <= i,
            decreases self.hooks@.len() - i,
        {
            assert(self.records().take(i + 1).drop_last() =~= self.records().take(i as int));
            if self.hooks[i].installed {
                n = n + 1;
            }
            i = i + 1;
        }
        assert(self.records().take(self.hooks@.len() as int) =~= self.records());
        n
    }
}

/// After an uninstall pass in which no removal failed, a second pass
/// leaves every record as the first left it.
pub proof fn lemma_uninstall_idempotent(
    before: Seq<(Seq<char>, Seq<char>, u64, bool)>,
    once: Seq<(Seq<char>, Seq<char>, u64, bool)>,
    twice: Seq<(Seq<char>, Seq<char>, u64, bool)>,
)
    requires
        uninstall_step(before, once),
        forall|i: int| 0 <= i < once.len() ==> !(#[trigger] once[i]).3,
        uninstall_step(once, twice),
    ensures
        twice == once,
{
    assert forall|i: int| 0 <= i < once.len() implies #[trigger] twice[i] == once[i] by {
        assert(!once[i].3);
    }
    assert(twice =~= once);
}

} // verus!
