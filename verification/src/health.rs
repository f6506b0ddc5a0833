//! Process health: lifetime metadata recorded at start-up and its two
//! outward view versions.

use vstd::prelude::*;

use crate::models::{Health, StateView};
use crate::wrappers::now_unix_millis;

verus! {

/// Process-lifetime health, recorded once when the process starts.
#[derive(Clone, Copy, Debug, PartialEq, Eq, Structural)]
pub struct HealthState {
    pub ok: bool,
    pub started_at: i64,
}

impl HealthState {
    /// A healthy state stamped with the current time.
    pub fn new() -> (r: Self)
        ensures
            r.ok,
    {
        HealthState { ok: true, started_at: now_unix_millis() }
    }

    /// The state through the chosen view.
    pub fn health<T: StateView<HealthState>>(&self) -> (r: T)
        ensures
            r.models(self),
    {
        T::from_state(self)
    }
}

/// The first health view: the flag alone.
#[derive(Clone, Copy, Debug, PartialEq, Eq, Structural)]
pub struct HealthV1 {
    pub ok: bool,
}

impl StateView<HealthState> for HealthV1 {
    open spec fn models(&self, state: &HealthState) -> bool {
        self.ok == state.ok
    }

    fn from_state(state: &HealthState) -> (r: Self) {
        HealthV1 { ok: state.ok }
    }

    fn to_state(&self) -> (r: HealthState) {
        HealthState { ok: self.ok, started_at: now_unix_millis() }
    }
}

impl StateView<Health> for HealthV1 {
    open spec fn models(&self, state: &Health) -> bool {
        self.ok == state.ok
    }

    fn from_state(state: &Health) -> (r: Self) {
        HealthV1 { ok: state.ok }
    }

    fn to_state(&self) -> (r: Health) {
        Health { ok: self.ok, started_at: now_unix_millis() }
    }
}

/// The second health view: the flag and the start time.
#[derive(Clone, Copy, Debug, PartialEq, Eq, Structural)]
pub struct HealthV2 {
    pub ok: bool,
    pub started_at: i64,
}

impl StateView<HealthState> for HealthV2 {
    open spec fn models(&self, state: &HealthState) -> bool {
        self.ok == state.ok && self.started_at == state.started_at
    }

    fn from_state(state: &HealthState) -> (r: Self) {
        HealthV2 { ok: state.ok, started_at: state.started_at }
    }

    fn to_state(&self) -> (r: HealthState) {
        HealthState { ok: self.ok, started_at: self.started_at }
    }
}

impl StateView<Health> for HealthV2 {
    open spec fn models(&self, state: &Health) -> bool {
        self.ok == state.ok && self.started_at == state.started_at
    }

    fn from_state(state: &Health) -> (r: Self) {
        HealthV2 { ok: state.ok, started_at: state.started_at }
    }

    fn to_state(&self) -> (r: Health) {
        Health { ok: self.ok, started_at: self.started_at }
    }
}

} // verus!
