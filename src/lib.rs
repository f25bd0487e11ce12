//! Per-frame orchestration runtime: a lazily resolved state cache, a pipeline
//! of pluggable enhancements, and a failure-counting backoff for the update
//! phase of the frame loop.
use vstd::prelude::*;

pub mod application;
pub mod backoff;
pub mod enhancement;
pub mod laws;
pub mod registry;
pub mod settings;
pub mod signal;

pub use application::{fold_error, Application, FrameEvent, FrameOutcome, HostActions, RenderPlan, RenderTrace, ScreenBounds, UpdateTrace};
pub use backoff::{Backoff, BackoffWindow, COOLDOWN_MS, FAILURE_THRESHOLD};
pub use enhancement::{
    CallLog, Enhancement, EnhancementCall, EnhancementError, KeyboardInput, MetricsClient, RecordLog, UpdateContext,
};
pub use registry::{Built, RegistryView, ResolveError, Resolver, Slot, StateKey, StateRegistry};
pub use settings::AppSettings;
pub use signal::EdgeFlag;

verus! {

} // verus!
