//! The contract shared by the per-frame enhancement modules and the handles
//! they receive.
use vstd::prelude::*;
use crate::registry::{RegistryView, StateRegistry};
use crate::settings::AppSettings;

verus! {

/// Usage records as (type, payload), oldest first.
pub type RecordLog = Seq<(Seq<char>, Seq<char>)>;

/// Calls received by an enhancement, oldest first.
pub type CallLog<V> = Seq<EnhancementCall<V>>;

/// Sink for fire-and-forget usage records.
pub trait MetricsClient {
    /// The records sent so far, as (type, payload).
    spec fn records(&self) -> RecordLog;

    fn add_metrics_record(&mut self, record_type: &str, record_payload: &str)
        ensures
            final(self).records() == old(self).records().push((record_type@, record_payload@)),
    ;
}

/// Keyboard state of the current frame; keys are host key codes.
pub trait KeyboardInput {
    spec fn key_down(&self, key: u32) -> bool;

    spec fn key_pressed(&self, key: u32, repeating: bool) -> bool;

    fn is_key_down(&self, key: u32) -> (r: bool)
        ensures
            r == self.key_down(key),
    ;

    fn is_key_pressed(&self, key: u32, repeating: bool) -> (r: bool)
        ensures
            r == self.key_pressed(key, repeating),
    ;
}

/// Failure of one enhancement operation.
#[derive(Debug)]
pub struct EnhancementError {
    pub message: String,
}

/// Read-only handles for one frame's update.
pub struct UpdateContext<'a, I> {
    pub input: &'a I,
}

/// One call received by an enhancement, with its outcome.
pub enum EnhancementCall<V> {
    /// `update_settings`: whether it changed the settings, `None` if it failed.
    UpdateSettings(Option<bool>),
    /// `update`: whether it succeeded, and the registry it was handed.
    Update { ok: bool, states: RegistryView<V> },
    /// `render`: whether it succeeded.
    Render(bool),
    RenderDebugWindow,
}

/// An `update_settings` outcome as an enhancement records it.
pub open spec fn settings_outcome(r: Result<bool, EnhancementError>) -> Option<bool> {
    match r {
        Ok(b) => Some(b),
        Err(_) => None,
    }
}

/// One pluggable module of the frame pipeline. `V` is the type of the values
/// in the state registry; `I` is the host's frame handle, used for input and
/// for drawing. Each operation appends itself to the module's call history.
pub trait Enhancement<V, I> {
    /// The calls received so far, oldest first.
    spec fn calls(&self) -> CallLog<V>;

    /// May change `settings`; returns whether it did.
    fn update_settings(&mut self, input: &I, settings: &mut AppSettings) -> (r: Result<bool, EnhancementError>)
        ensures
            final(self).calls() == old(self).calls().push(EnhancementCall::UpdateSettings(settings_outcome(r))),
    ;

    /// The per-frame work; may read and resolve entries of `states`.
    fn update(&mut self, ctx: &UpdateContext<I>, states: &mut StateRegistry<V>) -> (r: Result<(), EnhancementError>)
        ensures
            final(self).calls() == old(self).calls().push(EnhancementCall::Update { ok: r is Ok, states: old(states)@ }),
    ;

    /// Draws from the registry without changing it.
    fn render(&mut self, states: &StateRegistry<V>, surface: &I) -> (r: Result<(), EnhancementError>)
        ensures
            final(self).calls() == old(self).calls().push(EnhancementCall::Render(r is Ok)),
    ;

    /// Optional diagnostic pass; its failures are the module's own business.
    fn render_debug_window(&mut self, states: &StateRegistry<V>, surface: &I)
        ensures
            final(self).calls() == old(self).calls().push(EnhancementCall::RenderDebugWindow),
    ;
}

} // verus!
