//! Properties that relate several operations, proved over the models that
//! the operations' own contracts use.
use vstd::prelude::*;
use crate::application::{
    frame_step, pre_update_effect, render_calls, render_effect, update_calls, spec_host_actions, toggle_effect, update_effect, Application, RenderTrace,
    ScreenBounds, UpdateTrace,
};
use crate::enhancement::{Enhancement, EnhancementError, KeyboardInput};
use crate::backoff::{spec_begin_frame, window_elapsed, Backoff, BackoffWindow, COOLDOWN_MS, FAILURE_THRESHOLD};
use crate::registry::{spec_resolve, Built, RegistryView, StateKey};
use crate::signal::EdgeFlag;

verus! {

/// Resolving a key twice with no invalidation in between yields the same
/// instance, and the second resolution changes nothing and builds nothing.
pub proof fn lemma_resolve_idempotent<V>(r0: RegistryView<V>, k: StateKey, b1: Built<V>, b2: Built<V>)
    requires
        spec_resolve(r0, k, b1).1 is Ok,
    ensures
        spec_resolve(spec_resolve(r0, k, b1).0, k, b2) == spec_resolve(r0, k, b1),
{
    let r1 = spec_resolve(r0, k, b1).0;
    if !r0.is_current(k) {
        assert(r1.entries.contains_key(k));
        assert(r1.is_current(k));
    }
}

/// Invalidation builds nothing and leaves every key stale; the next
/// resolution of a key runs its resolver exactly once, and a value it builds
/// becomes a new instance.
pub proof fn lemma_invalidation_is_lazy<V>(r0: RegistryView<V>, k: StateKey, b: Built<V>)
    ensures
        r0.invalidated().builds == r0.builds,
        r0.invalidated().entries.dom() == r0.entries.dom(),
        !r0.invalidated().is_current(k),
        !(b is NoResolver) ==> spec_resolve(r0.invalidated(), k, b).0.builds == r0.builds + 1,
        b is Value ==> spec_resolve(r0.invalidated(), k, b).1 == Ok::<u64, crate::registry::ResolveError>(r0.next_instance as u64),
        b is Value ==> spec_resolve(r0.invalidated(), k, b).0.is_current(k),
{
    assert(r0.invalidated().entries.dom() =~= r0.entries.dom());
}

/// Closing the settings window marks the settings dirty; the next
/// `pre_update` asks for exactly one save of settings taken with the window
/// closed and clears the flag, so the one after asks for none.
pub proof fn lemma_dirty_round_trip<V, E>(
    a0: Application<V, E>,
    a1: Application<V, E>,
    a2: Application<V, E>,
    a3: Application<V, E>,
)
    requires
        a0.settings_visible,
        toggle_effect(a0, a1, true),
        pre_update_effect(a1, a2),
        pre_update_effect(a2, a3),
    ensures
        a1.settings_dirty,
        !a1.settings_visible,
        spec_host_actions(a1).persist_settings,
        !a2.settings_dirty,
        !a2.settings_visible,
        a2.settings == a1.settings,
        !spec_host_actions(a2).persist_settings,
{
}

/// A raised screen-capture flag yields one notification of the host, with
/// the current preference, at the next `pre_update`, and none at the one
/// after.
pub proof fn lemma_edge_triggered_once<V, E>(
    a0: Application<V, E>,
    a1: Application<V, E>,
    a2: Application<V, E>,
)
    requires
        a0.settings_screen_capture_changed == (EdgeFlag { raised: true }),
        pre_update_effect(a0, a1),
        pre_update_effect(a1, a2),
    ensures
        spec_host_actions(a0).screen_capture_visible == Some(!a0.settings.hide_overlay_from_screen_capture),
        !a1.settings_screen_capture_changed.raised,
        spec_host_actions(a1).screen_capture_visible is None,
{
}

/// The controller after consecutive frames whose updates fail, at the given
/// times.
pub open spec fn failing_frames(b: Backoff, times: Seq<u64>) -> Backoff
    decreases times.len(),
{
    if times.len() == 0 {
        b
    } else {
        frame_step(failing_frames(b, times.drop_last()), false, times.last())
    }
}

/// From a controller with no failures and no suspension, fewer failing
/// frames than the threshold open no window and are counted; the
/// threshold-th one opens a window of the cooldown from its own time and
/// resets the counter.
pub proof fn lemma_backoff_trigger(times: Seq<u64>)
    requires
        times.len() <= FAILURE_THRESHOLD,
    ensures
        times.len() < FAILURE_THRESHOLD ==> failing_frames(Backoff { consecutive_failures: 0, window: None }, times)
            == (Backoff { consecutive_failures: times.len() as u32, window: None }),
        times.len() == FAILURE_THRESHOLD ==> failing_frames(Backoff { consecutive_failures: 0, window: None }, times)
            == (Backoff {
                consecutive_failures: 0,
                window: Some(BackoffWindow { start_ms: times[times.len() - 1], duration_ms: COOLDOWN_MS }),
            }),
    decreases times.len(),
{
    if times.len() > 0 {
        lemma_backoff_trigger(times.drop_last());
    }
}

/// While a window has not elapsed, a frame skips the update and leaves the
/// controller unchanged, whatever the update would have done; once it has
/// elapsed, the frame closes it and runs the update.
pub proof fn lemma_backoff_window(b: Backoff, now: u64, succeeded: bool)
    requires
        b.wf(),
        b.window is Some,
    ensures
        !window_elapsed(b.window->Some_0, now) ==> spec_begin_frame(b, now) == b && frame_step(b, succeeded, now) == b,
        window_elapsed(b.window->Some_0, now) ==> spec_begin_frame(b, now).window is None,
{
}

/// A failing enhancement does not stop the others: in a frame whose update
/// and render phases went as `tu` and `tr` record, every enhancement received
/// `update_settings`, `update`, `render` and its diagnostic pass, once each
/// and in that order; the update phase fails exactly when one of the updates
/// failed; and the first update was handed the invalidated registry, which
/// that invalidation built nothing into.
pub proof fn lemma_enhancement_isolation<V, E: Enhancement<V, I>, I: KeyboardInput>(
    a0: Application<V, E>,
    a1: Application<V, E>,
    a2: Application<V, E>,
    tu: UpdateTrace<V>,
    tr: RenderTrace,
    r: Result<(), EnhancementError>,
    input: I,
    display: ScreenBounds,
    total_read_calls: u64,
)
    requires
        update_effect(a0, a1, tu, r, input, display, total_read_calls),
        render_effect::<V, E, I>(a1, a2, tr),
    ensures
        a2.enhancements@.len() == a0.enhancements@.len(),
        forall|k: int| 0 <= k < a0.enhancements@.len() ==> #[trigger] a2.enhancements@[k].calls()
            == render_calls(update_calls(a0.enhancements@[k].calls(), tu, k), tr, k),
        r is Err <==> tu.updates.contains(false),
        a0.enhancements@.len() > 0 ==> tu.handed[0] == a0.app_state@.invalidated()
            && tu.handed[0].builds == a0.app_state@.builds,
{
    assert forall|k: int| 0 <= k < a0.enhancements@.len() implies #[trigger] a2.enhancements@[k].calls()
        == render_calls(update_calls(a0.enhancements@[k].calls(), tu, k), tr, k) by {
        assert(a1.enhancements@[k].calls() == update_calls(a0.enhancements@[k].calls(), tu, k));
    }
}

} // verus!
