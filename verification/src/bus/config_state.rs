//! Configuration snapshot.

use crate::bus::rcu::Rcu;
use crate::device::system_config::{cfg_default, CfgView, SystemConfig};
use std::sync::Arc;
use vstd::prelude::*;

verus! {

/// One configuration snapshot.
#[derive(Clone, Copy)]
pub struct ConfigSnapshot {
    pub cfg: SystemConfig,
}

impl ConfigSnapshot {
    /// Factory settings.
    pub fn new() -> (r: Self)
        ensures
            r.cfg@ == cfg_default(),
    {
        ConfigSnapshot { cfg: SystemConfig::defaults() }
    }
}

impl Default for ConfigSnapshot {
    fn default() -> (r: Self)
        ensures
            r.cfg@ == cfg_default(),
    {
        ConfigSnapshot::new()
    }
}

/// The published configuration.
pub struct ConfigState {
    pub snapshot: Rcu<ConfigSnapshot>,
}

impl View for ConfigState {
    type V = Option<CfgView>;

    open spec fn view(&self) -> Option<CfgView> {
        match self.snapshot@ {
            Some(s) => Some(s.cfg@),
            None => None,
        }
    }
}

impl ConfigState {
    /// Starts with the factory settings.
    pub fn new() -> (r: Self)
        ensures
            r@ == Some(cfg_default()),
    {
        ConfigState { snapshot: Rcu::new(ConfigSnapshot::new()) }
    }
}

/// A handle to the current configuration.
pub fn config_read(state: &ConfigState) -> (r: Option<Arc<ConfigSnapshot>>)
    ensures
        r is Some <==> state@ is Some,
        r is Some ==> r->0.cfg@ == state@->0,
{
    state.snapshot.read()
}

/// Publishes a configuration.
pub fn config_write(state: &mut ConfigState, snapshot: ConfigSnapshot)
    ensures
        final(state)@ == Some(snapshot.cfg@),
{
    state.snapshot.write(snapshot);
}

/// Applies `f` to the current configuration.
pub fn config_read_with<F, R>(state: &ConfigState, f: F) -> (r: Option<R>) where
    F: FnOnce(&ConfigSnapshot) -> R,

    requires
        state.snapshot@ is Some ==> f.requires((&state.snapshot@->0,)),
    ensures
        r is Some <==> state@ is Some,
        r is Some ==> f.ensures((&state.snapshot@->0,), r->0),
{
    state.snapshot.read_with(f)
}

} // verus!
