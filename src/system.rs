use vstd::prelude::*;

use crate::config::HookConfig;
use crate::engine::FilterEngine;
use crate::error::{AuboError, HookError};
use crate::hooks::{backend_ready, install_pass, removal_pass, remover_ready, uninstall_step, NetworkHooks};
use crate::stats::StatsCollector;

verus! {

/// The running instance: the interception lifecycle with its decision
/// engine and statistics, and the shutdown flag.
#[derive(Debug)]
pub struct AuboSystem {
    network_hooks: NetworkHooks,
    shutdown: bool,
}

impl AuboSystem {
    pub open spec fn wf(&self) -> bool {
        self.hooks_view().wf()
    }

    pub closed spec fn hooks_view(&self) -> NetworkHooks {
        self.network_hooks
    }

    pub closed spec fn shutting_down(&self) -> bool {
        self.shutdown
    }

    /// A system over the given hook configuration and rule store, with a
    /// fresh statistics collector, not started.
    pub fn new(hooks: HookConfig, filter_engine: FilterEngine) -> (r: Self)
        requires
            filter_engine.wf(),
        ensures
            r.wf(),
            !r.shutting_down(),
            r.hooks_view().engine() == filter_engine,
            r.hooks_view().records().len() == 0,
            r.hooks_view().hook_config() == hooks,
    {
        let stats = StatsCollector::new();
        AuboSystem { network_hooks: NetworkHooks::new(hooks, filter_engine, stats), shutdown: false }
    }

    /// Installs the hooks through the collaborator, if there is one, and
    /// switches statistics on. A missing collaborator or a failed hook does
    /// not stop the start: decisions stay available.
    pub fn start<R, I>(&mut self, backend: Option<(R, I)>) -> (r: Result<(), AuboError>) where
        R: Fn(&str, &str) -> Option<u64>,
        I: Fn(u64) -> Result<u64, HookError>,

        requires
            old(self).wf(),
            backend matches Some(b) ==> backend_ready(
                b,
                old(self).hooks_view().hook_config().hook_functions@,
            ),
        ensures
            r is Ok,
            final(self).wf(),
            final(self).hooks_view().stats_collector().is_collecting(),
            final(self).hooks_view().engine() == old(self).hooks_view().engine(),
            final(self).hooks_view().hook_config() == old(self).hooks_view().hook_config(),
            final(self).shutting_down() == old(self).shutting_down(),
            !old(self).hooks_view().hook_config().enabled || backend is None ==> final(self).hooks_view().records() == old(self).hooks_view().records(),
            old(self).hooks_view().hook_config().enabled ==> (backend matches Some(b)
                ==> install_pass(
                b,
                old(self).hooks_view().hook_config().hook_functions@,
                old(self).hooks_view().records(),
                final(self).hooks_view().records(),
            )),
    {
        let _ = self.network_hooks.install_hooks(backend);
        self.network_hooks.set_collecting(true);
        Ok(())
    }

    /// Raises the shutdown flag, switches statistics off and removes the
    /// installed hooks through the collaborator, if there is one.
    pub fn stop<U>(&mut self, remove: Option<U>) -> (r: Result<(), AuboError>) where
        U: Fn(u64) -> Result<(), HookError>,

        requires
            old(self).wf(),
            remove matches Some(f) ==> remover_ready(f, old(self).hooks_view().records()),
        ensures
            r is Ok,
            final(self).wf(),
            final(self).shutting_down(),
            !final(self).hooks_view().stats_collector().is_collecting(),
            uninstall_step(old(self).hooks_view().records(), final(self).hooks_view().records()),
            remove is None ==> final(self).hooks_view().records() == old(self).hooks_view().records(),
            remove matches Some(f) ==> removal_pass(
                f,
                old(self).hooks_view().records(),
                final(self).hooks_view().records(),
            ),
    {
        self.shutdown = true;
        self.network_hooks.set_collecting(false);
        let _ = self.network_hooks.uninstall_hooks(remove);
        Ok(())
    }

    pub fn is_shutting_down(&self) -> (r: bool)
        ensures
            r == self.shutting_down(),
    {
        self.shutdown
    }

    pub fn filter_engine(&self) -> (r: &FilterEngine)
        ensures
            *r == self.hooks_view().engine(),
    {
        self.network_hooks.filter_engine()
    }

    pub fn network_hooks(&self) -> (r: &NetworkHooks)
        ensures
            *r == self.hooks_view(),
    {
        &self.network_hooks
    }

    pub fn network_hooks_mut(&mut self) -> (r: &mut NetworkHooks)
        ensures
            *r == old(self).hooks_view(),
            final(self).hooks_view() == *final(r),
            final(self).shutting_down() == old(self).shutting_down(),
    {
        &mut self.network_hooks
    }

    pub fn stats(&self) -> (r: &StatsCollector)
        ensures
            *r == self.hooks_view().stats_collector(),
    {
        self.network_hooks.stats()
    }
}

/// Starts `system` and makes it the running instance. With an instance
/// already running nothing changes.
pub fn initialize<R, I>(
    slot: &mut Option<AuboSystem>,
    system: AuboSystem,
    backend: Option<(R, I)>,
) -> (r: Result<(), AuboError>) where
    R: Fn(&str, &str) -> Option<u64>,
    I: Fn(u64) -> Result<u64, HookError>,

    requires
        system.wf(),
        backend matches Some(b) ==> backend_ready(
            b,
            system.hooks_view().hook_config().hook_functions@,
        ),
    ensures
        r is Ok,
        *old(slot) is Some ==> *final(slot) == *old(slot),
        *old(slot) is None ==> (*final(slot) matches Some(s) && s.wf()
            && s.hooks_view().engine() == system.hooks_view().engine()
            && s.hooks_view().stats_collector().is_collecting() && (system.hooks_view().hook_config().enabled ==> (
        backend matches Some(b) ==> install_pass(
            b,
            system.hooks_view().hook_config().hook_functions@,
            system.hooks_view().records(),
            s.hooks_view().records(),
        )))),
{
    if slot.is_some() {
        return Ok(());
    }
    let mut system = system;
    let _ = system.start(backend);
    *slot = Some(system);
    Ok(())
}

/// Takes the running instance out of `slot` and stops it, removing its
/// hooks through `remove`; the stopped instance is handed back.
pub fn shutdown<U>(slot: &mut Option<AuboSystem>, remove: Option<U>) -> (r: Result<
    Option<AuboSystem>,
    AuboError,
>) where U: Fn(u64) -> Result<(), HookError>,

    requires
        *old(slot) matches Some(s) ==> s.wf(),
        *old(slot) matches Some(s) ==> (remove matches Some(f) ==> remover_ready(
            f,
            s.hooks_view().records(),
        )),
    ensures
        *final(slot) is None,
        *old(slot) is None ==> r matches Ok(None),
        *old(slot) matches Some(s) ==> (r matches Ok(Some(t)) && t.wf() && t.shutting_down()
            && !t.hooks_view().stats_collector().is_collecting() && uninstall_step(
            s.hooks_view().records(),
            t.hooks_view().records(),
        ) && (remove is None ==> t.hooks_view().records() == s.hooks_view().records()) && (
        remove matches Some(f) ==> removal_pass(
            f,
            s.hooks_view().records(),
            t.hooks_view().records(),
        ))),
{
    match slot.take() {
        None => Ok(None),
        Some(mut system) => {
            let _ = system.stop(remove);
            Ok(Some(system))
        },
    }
}

/// The verdict of the running instance on a request; with none running,
/// nothing is blocked.
pub fn should_block_request(
    slot: &Option<AuboSystem>,
    url: &str,
    request_type: &str,
    origin: &str,
) -> (r: bool)
    ensures
        match slot {
            Some(s) => r == s.hooks_view().engine().decides_block(url@),
            None => !r,
        },
{
    match slot {
        Some(system) => system.filter_engine().should_block(url, request_type, origin),
        None => false,
    }
}

/// The number of installed hooks of the running instance, 0 with none.
pub fn get_active_hook_count(slot: &Option<AuboSystem>) -> (r: usize)
    ensures
        match slot {
            Some(s) => r == crate::hooks::installed_count(s.hooks_view().records()),
            None => r == 0,
        },
{
    match slot {
        Some(system) => system.network_hooks().get_active_hook_count(),
        None => 0,
    }
}

/// The number of rules of the running instance, 0 with none.
pub fn get_loaded_filter_count(slot: &Option<AuboSystem>) -> (r: usize)
    ensures
        match slot {
            Some(s) => r as int == crate::engine::rule_total(s.hooks_view().engine()),
            None => r == 0,
        },
{
    match slot {
        Some(system) => system.filter_engine().get_loaded_filter_count(),
        None => 0,
    }
}

/// Acknowledges a connection from the companion process.
pub fn handle_companion_connection(fd: i32) -> (r: Result<(), AuboError>)
    ensures
        r is Ok,
{
    Ok(())
}

} // verus!
