//! The orchestrator: settings lifecycle, the enhancement pipeline, and the
//! frame step with its update backoff.
use vstd::prelude::*;
use crate::backoff::{spec_begin_frame, spec_record, Backoff};
use crate::enhancement::{
    settings_outcome, Enhancement, EnhancementCall, EnhancementError, KeyboardInput, MetricsClient, UpdateContext,
};
use crate::registry::{RegistryView, StateRegistry};
use crate::settings::AppSettings;
use crate::signal::EdgeFlag;

verus! {

/// Size of the drawable surface, in pixels.
#[derive(Clone, Copy, Debug, PartialEq, Eq, Structural)]
pub struct ScreenBounds {
    pub width: u32,
    pub height: u32,
}

/// What the overlay host is asked to do before the update phase.
#[derive(Clone, Copy, Debug, PartialEq, Eq, Structural)]
pub struct HostActions {
    /// Snapshot the user-interface layout into the settings, then save them.
    pub persist_settings: bool,
    /// Send a "settings-updated" usage record with the settings, without
    /// their layout, as payload.
    pub record_settings_update: bool,
    /// New screen-capture visibility of the overlay, if it changed.
    pub screen_capture_visible: Option<bool>,
    /// New visibility of the host's debug window, if it changed.
    pub debug_overlay_visible: Option<bool>,
}

/// What the host draws around the enhancements in the render phase.
#[derive(Clone, Copy, Debug, PartialEq, Eq, Structural)]
pub struct RenderPlan {
    pub watermark: bool,
    pub settings_window: bool,
}

/// Summary of one frame.
#[derive(Clone, Copy, Debug, PartialEq, Eq, Structural)]
pub struct FrameOutcome {
    /// The update phase ran.
    pub updated: bool,
    /// The update phase ran and an enhancement failed in it.
    pub update_failed: bool,
    /// This frame opened a suspension of updates.
    pub backoff_opened: bool,
    pub render: RenderPlan,
}

/// The controller after one frame at `now` whose update, if it ran, succeeded
/// or failed as `succeeded` says.
pub open spec fn frame_step(b: Backoff, succeeded: bool, now: u64) -> Backoff {
    let b1 = spec_begin_frame(b, now);
    if b1.window is None { spec_record(b1, succeeded, now) } else { b1 }
}

pub struct Application<V, E> {
    pub app_state: StateRegistry<V>,
    pub enhancements: Vec<E>,
    pub settings: AppSettings,
    pub screen_bounds: ScreenBounds,
    pub frame_read_calls: u64,
    pub last_total_read_calls: u64,
    pub settings_visible: bool,
    pub settings_dirty: bool,
    pub settings_screen_capture_changed: EdgeFlag,
    pub settings_render_debug_window_changed: EdgeFlag,
    pub backoff: Backoff,
    /// Record of the update and render phases run so far.
    pub log: Ghost<Seq<FrameEvent<V>>>,
}

/// What one update phase handed to the enhancements and what came back, in
/// the order of the enhancement list.
pub struct UpdateTrace<V> {
    /// Outcome of each `update_settings`: whether it changed the settings,
    /// or `None` where it failed.
    pub settings: Seq<Option<bool>>,
    /// Whether the settings hotkey was pressed.
    pub pressed: bool,
    /// The registry handed to each enhancement's `update`.
    pub handed: Seq<RegistryView<V>>,
    /// Whether each `update` succeeded.
    pub updates: Seq<bool>,
}

/// What one render phase got back from each enhancement's `render`.
pub struct RenderTrace {
    pub rendered: Seq<bool>,
}

pub enum FrameEvent<V> {
    Update(UpdateTrace<V>),
    Render(RenderTrace),
}

/// The calls an enhancement receives in an update phase, after `before`.
pub open spec fn update_calls<V>(before: Seq<EnhancementCall<V>>, tr: UpdateTrace<V>, k: int) -> Seq<EnhancementCall<V>> {
    before.push(EnhancementCall::UpdateSettings(tr.settings[k])).push(
        EnhancementCall::Update { ok: tr.updates[k], states: tr.handed[k] },
    )
}

/// The calls an enhancement receives in a render phase, after `before`.
pub open spec fn render_calls<V>(before: Seq<EnhancementCall<V>>, tr: RenderTrace, k: int) -> Seq<EnhancementCall<V>> {
    before.push(EnhancementCall::Render(tr.rendered[k])).push(EnhancementCall::RenderDebugWindow)
}

/// `post` is `pre` after an update phase that went as `tr` records, with
/// result `r`: every enhancement ran `update_settings` and then, after the
/// hotkey and the invalidation, `update`, each once; the first `update` got
/// the invalidated registry.
pub open spec fn update_effect<V, E: Enhancement<V, I>, I: KeyboardInput>(
    pre: Application<V, E>,
    post: Application<V, E>,
    tr: UpdateTrace<V>,
    r: Result<(), EnhancementError>,
    input: I,
    display: ScreenBounds,
    total_read_calls: u64,
) -> bool {
    let n = pre.enhancements@.len();
    &&& post.log@ == pre.log@.push(FrameEvent::Update(tr))
    &&& tr.settings.len() == n
    &&& tr.updates.len() == n
    &&& tr.handed.len() == n
    &&& post.enhancements@.len() == n
    &&& forall|k: int| 0 <= k < n ==> #[trigger] post.enhancements@[k].calls()
        == update_calls(pre.enhancements@[k].calls(), tr, k)
    &&& n > 0 ==> tr.handed[0] == pre.app_state@.invalidated()
    &&& n == 0 ==> post.app_state@ == pre.app_state@.invalidated()
    &&& tr.pressed == input.key_pressed(post.settings.key_settings, false)
    &&& post.settings_visible == (if tr.pressed { !pre.settings_visible } else { pre.settings_visible })
    &&& post.settings_dirty == (pre.settings_dirty || tr.settings.contains(Some(true))
        || (tr.pressed && pre.settings_visible))
    &&& (r is Err <==> tr.updates.contains(false))
    &&& post.screen_bounds == display
    &&& post.frame_read_calls == total_read_calls - pre.last_total_read_calls
    &&& post.last_total_read_calls == total_read_calls
    &&& post.backoff == pre.backoff
    &&& post.settings_screen_capture_changed == pre.settings_screen_capture_changed
    &&& post.settings_render_debug_window_changed == pre.settings_render_debug_window_changed
}

/// `post` is `pre` after a render phase that went as `tr` records: every
/// enhancement rendered once, then every enhancement ran its diagnostic pass
/// once, and nothing but the enhancements and the record changed.
pub open spec fn render_effect<V, E: Enhancement<V, I>, I>(pre: Application<V, E>, post: Application<V, E>, tr: RenderTrace) -> bool {
    let n = pre.enhancements@.len();
    &&& post.log@ == pre.log@.push(FrameEvent::Render(tr))
    &&& tr.rendered.len() == n
    &&& post.enhancements@.len() == n
    &&& forall|k: int| 0 <= k < n ==> #[trigger] post.enhancements@[k].calls()
        == render_calls(pre.enhancements@[k].calls(), tr, k)
    &&& post == (Application { enhancements: post.enhancements, log: post.log, ..pre })
}

/// `post` is `pre` after a frame whose update phase ran (failing as `failed`
/// says) and whose render phase followed.
pub open spec fn frame_with_update<V, E: Enhancement<V, I>, I: KeyboardInput>(
    pre: Application<V, E>,
    post: Application<V, E>,
    failed: bool,
    input: I,
    display: ScreenBounds,
    total_read_calls: u64,
) -> bool {
    let n = pre.enhancements@.len();
    let tu = post.log@[pre.log@.len() as int]->Update_0;
    let tr = post.log@.last()->Render_0;
    &&& post.log@.len() == pre.log@.len() + 2
    &&& post.log@[pre.log@.len() as int] is Update
    &&& post.log@.last() is Render
    &&& tu.settings.len() == n
    &&& tu.updates.len() == n
    &&& tu.handed.len() == n
    &&& tr.rendered.len() == n
    &&& post.enhancements@.len() == n
    &&& forall|k: int| 0 <= k < n ==> #[trigger] post.enhancements@[k].calls()
        == render_calls(update_calls(pre.enhancements@[k].calls(), tu, k), tr, k)
    &&& n > 0 ==> tu.handed[0] == pre.app_state@.invalidated()
    &&& n == 0 ==> post.app_state@ == pre.app_state@.invalidated()
    &&& tu.pressed == input.key_pressed(post.settings.key_settings, false)
    &&& post.settings_visible == (if tu.pressed { !pre.settings_visible } else { pre.settings_visible })
    &&& post.settings_dirty == (pre.settings_dirty || tu.settings.contains(Some(true))
        || (tu.pressed && pre.settings_visible))
    &&& failed == tu.updates.contains(false)
    &&& post.screen_bounds == display
    &&& post.frame_read_calls == total_read_calls - pre.last_total_read_calls
    &&& post.last_total_read_calls == total_read_calls
    &&& post.settings_screen_capture_changed == pre.settings_screen_capture_changed
    &&& post.settings_render_debug_window_changed == pre.settings_render_debug_window_changed
}

/// `post` is `pre` after a frame whose update phase was skipped: only the
/// render phase ran, and only the enhancements, the record and the backoff
/// controller changed.
pub open spec fn frame_without_update<V, E: Enhancement<V, I>, I>(pre: Application<V, E>, post: Application<V, E>) -> bool {
    let n = pre.enhancements@.len();
    let tr = post.log@.last()->Render_0;
    &&& post.log@.len() == pre.log@.len() + 1
    &&& post.log@.last() is Render
    &&& post.log@.drop_last() == pre.log@
    &&& tr.rendered.len() == n
    &&& post.enhancements@.len() == n
    &&& forall|k: int| 0 <= k < n ==> #[trigger] post.enhancements@[k].calls()
        == render_calls(pre.enhancements@[k].calls(), tr, k)
    &&& post == (Application { enhancements: post.enhancements, log: post.log, backoff: post.backoff, ..pre })
}

proof fn lemma_push_contains<T>(s: Seq<T>, x: T, y: T)
    ensures
        s.push(x).contains(y) == (s.contains(y) || x == y),
{
    if s.contains(y) {
        let i = choose|i: int| 0 <= i < s.len() && s[i] == y;
        assert(s.push(x)[i] == y);
    }
    if x == y {
        assert(s.push(x)[s.len() as int] == y);
    }
    if s.push(x).contains(y) {
        let i = choose|i: int| 0 <= i < s.push(x).len() && s.push(x)[i] == y;
        if i < s.len() {
            assert(s[i] == y);
        }
    }
}

/// Keeps the last failure seen: `outcome`'s error if it failed, else `last`.
pub fn fold_error(last: Option<EnhancementError>, outcome: Result<(), EnhancementError>) -> (r: Option<EnhancementError>)
    ensures
        r == (match outcome {
            Ok(()) => last,
            Err(e) => Some(e),
        }),
        r is Some == (last is Some || outcome is Err),
{
    match outcome {
        Ok(()) => last,
        Err(e) => Some(e),
    }
}

/// The metrics records after a press (or not) of the settings hotkey that
/// left the window `visible`.
pub open spec fn toggle_records(
    before: Seq<(Seq<char>, Seq<char>)>,
    pressed: bool,
    visible: bool,
) -> Seq<(Seq<char>, Seq<char>)> {
    if pressed {
        before.push(("settings-toggled"@, if visible { "visible: true"@ } else { "visible: false"@ }))
    } else {
        before
    }
}

/// The result of `pre_update` on `a`.
pub open spec fn spec_host_actions<V, E>(a: Application<V, E>) -> HostActions {
    HostActions {
        persist_settings: a.settings_dirty,
        record_settings_update: a.settings_dirty,
        screen_capture_visible: if a.settings_screen_capture_changed.raised {
            Some(!a.settings.hide_overlay_from_screen_capture)
        } else {
            None
        },
        debug_overlay_visible: if a.settings_render_debug_window_changed.raised {
            Some(a.settings.render_debug_window)
        } else {
            None
        },
    }
}

/// `post` is `pre` after `pre_update`: the dirty flag and both change flags
/// are cleared, nothing else changes.
pub open spec fn pre_update_effect<V, E>(pre: Application<V, E>, post: Application<V, E>) -> bool {
    &&& !post.settings_dirty
    &&& !post.settings_screen_capture_changed.raised
    &&& !post.settings_render_debug_window_changed.raised
    &&& post.settings == pre.settings
    &&& post.settings_visible == pre.settings_visible
    &&& post.app_state == pre.app_state
    &&& post.enhancements == pre.enhancements
    &&& post.backoff == pre.backoff
    &&& post.log == pre.log
}

/// `post` is `pre` after the settings hotkey was or was not `pressed`.
pub open spec fn toggle_effect<V, E>(pre: Application<V, E>, post: Application<V, E>, pressed: bool) -> bool {
    &&& post.settings_visible == (if pressed { !pre.settings_visible } else { pre.settings_visible })
    &&& post.settings_dirty == (pre.settings_dirty || (pressed && pre.settings_visible))
    &&& post.settings == pre.settings
    &&& post.app_state == pre.app_state
    &&& post.enhancements == pre.enhancements
    &&& post.backoff == pre.backoff
    &&& post.settings_screen_capture_changed == pre.settings_screen_capture_changed
    &&& post.settings_render_debug_window_changed == pre.settings_render_debug_window_changed
    &&& post.log == pre.log
}

impl<V, E> Application<V, E> {
    /// A fresh application: settings hidden and clean, no failures, and both
    /// change flags raised so that the host receives the current preferences
    /// on the first frame.
    pub fn new(app_state: StateRegistry<V>, settings: AppSettings, enhancements: Vec<E>) -> (r: Self)
        ensures
            r.app_state == app_state,
            r.settings == settings,
            r.enhancements == enhancements,
            !r.settings_visible,
            !r.settings_dirty,
            r.settings_screen_capture_changed.raised,
            r.settings_render_debug_window_changed.raised,
            r.backoff.wf(),
            r.backoff.consecutive_failures == 0,
            r.backoff.window is None,
            r.frame_read_calls == 0,
            r.last_total_read_calls == 0,
            r.screen_bounds == (ScreenBounds { width: 0, height: 0 }),
            r.log@ == Seq::<FrameEvent<V>>::empty(),
    {
        Application {
            app_state,
            enhancements,
            settings,
            screen_bounds: ScreenBounds { width: 0, height: 0 },
            frame_read_calls: 0,
            last_total_read_calls: 0,
            settings_visible: false,
            settings_dirty: false,
            settings_screen_capture_changed: EdgeFlag::new(true),
            settings_render_debug_window_changed: EdgeFlag::new(true),
            backoff: Backoff::new(),
            log: Ghost(Seq::empty()),
        }
    }

    pub fn settings(&self) -> (r: &AppSettings)
        ensures
            *r == self.settings,
    {
        &self.settings
    }

    pub fn settings_mut(&mut self) -> (r: &mut AppSettings)
        ensures
            *r == old(self).settings,
            *final(self) == (Application { settings: *final(r), ..*old(self) }),
    {
        &mut self.settings
    }

    /// Signals that the screen-capture preference changed.
    pub fn notify_screen_capture_changed(&mut self)
        ensures
            *final(self) == (Application {
                settings_screen_capture_changed: EdgeFlag { raised: true },
                ..*old(self)
            }),
    {
        self.settings_screen_capture_changed.raise();
    }

    /// Signals that the debug-window preference changed.
    pub fn notify_debug_window_changed(&mut self)
        ensures
            *final(self) == (Application {
                settings_render_debug_window_changed: EdgeFlag { raised: true },
                ..*old(self)
            }),
    {
        self.settings_render_debug_window_changed.raise();
    }

    /// Start of a frame: reports whether the settings must be persisted and
    /// which host preferences changed, clearing the dirty flag and both
    /// change flags.
    pub fn pre_update(&mut self) -> (r: HostActions)
        ensures
            r == spec_host_actions(*old(self)),
            pre_update_effect(*old(self), *final(self)),
            final(self).screen_bounds == old(self).screen_bounds,
            final(self).frame_read_calls == old(self).frame_read_calls,
            final(self).last_total_read_calls == old(self).last_total_read_calls,
    {
        let persist_settings = self.settings_dirty;
        self.settings_dirty = false;
        let screen_capture_visible = if self.settings_screen_capture_changed.take() {
            Some(!self.settings.hide_overlay_from_screen_capture)
        } else {
            None
        };
        let debug_overlay_visible = if self.settings_render_debug_window_changed.take() {
            Some(self.settings.render_debug_window)
        } else {
            None
        };
        HostActions {
            persist_settings,
            record_settings_update: persist_settings,
            screen_capture_visible,
            debug_overlay_visible,
        }
    }

    /// Applies one press (or not) of the settings hotkey: a press flips the
    /// window's visibility and sends a "settings-toggled" record of the new
    /// visibility, and closing the window marks the settings dirty.
    pub fn toggle_settings<M: MetricsClient>(&mut self, pressed: bool, metrics: &mut M)
        ensures
            toggle_effect(*old(self), *final(self), pressed),
            final(metrics).records() == toggle_records(old(metrics).records(), pressed, final(self).settings_visible),
            final(self).screen_bounds == old(self).screen_bounds,
            final(self).frame_read_calls == old(self).frame_read_calls,
            final(self).last_total_read_calls == old(self).last_total_read_calls,
    {
        if pressed {
            self.settings_visible = !self.settings_visible;
            if self.settings_visible {
                metrics.add_metrics_record("settings-toggled", "visible: true");
            } else {
                metrics.add_metrics_record("settings-toggled", "visible: false");
                self.settings_dirty = true;
            }
        }
    }
}

impl<V, E> Application<V, E> {
    /// Takes one `update_settings` outcome: a change marks the settings dirty.
    pub fn apply_settings_outcome(&mut self, outcome: &Result<bool, EnhancementError>)
        ensures
            *final(self) == (Application {
                settings_dirty: old(self).settings_dirty || settings_outcome(*outcome) == Some(true),
                ..*old(self)
            }),
    {
        match outcome {
            Ok(true) => {
                self.settings_dirty = true;
            },
            _ => {},
        }
    }

    /// Stores the user-interface layout saved by the host in the settings.
    pub fn store_ui_layout(&mut self, layout: String)
        ensures
            *final(self) == (Application {
                settings: AppSettings { imgui: Some(layout), ..old(self).settings },
                ..*old(self)
            }),
    {
        self.settings.imgui = Some(layout);
    }

    /// The settings without their layout: the payload of a
    /// "settings-updated" usage record.
    pub fn settings_without_layout(&self) -> (r: AppSettings)
        ensures
            r == (AppSettings { imgui: None, ..self.settings }),
    {
        AppSettings {
            key_settings: self.settings.key_settings,
            hide_overlay_from_screen_capture: self.settings.hide_overlay_from_screen_capture,
            render_debug_window: self.settings.render_debug_window,
            valthrun_watermark: self.settings.valthrun_watermark,
            metrics: self.settings.metrics,
            imgui: None,
        }
    }

    /// The update phase of a frame.
    ///
    /// Every enhancement may adjust the settings (a change marks them dirty),
    /// the settings hotkey is applied, the registry is invalidated once, the
    /// screen bounds are refreshed, every enhancement runs its update in order
    /// whatever its predecessors returned, and the read counter is sampled.
    /// The result is the last update error, if any update failed; failures of
    /// `update_settings` do not count.
    pub fn update<I: KeyboardInput, M: MetricsClient>(
        &mut self,
        input: &I,
        display: ScreenBounds,
        total_read_calls: u64,
        metrics: &mut M,
    ) -> (r: Result<(), EnhancementError>) where E: Enhancement<V, I>
        requires
            total_read_calls >= old(self).last_total_read_calls,
        ensures
            final(self).log@.len() == old(self).log@.len() + 1,
            final(self).log@.last() is Update,
            update_effect(*old(self), *final(self), final(self).log@.last()->Update_0, r, *input, display, total_read_calls),
            final(metrics).records() == toggle_records(
                old(metrics).records(),
                (final(self).log@.last()->Update_0).pressed,
                final(self).settings_visible,
            ),
    {
        let n = self.enhancements.len();
        let ghost settings_t: Seq<Option<bool>> = Seq::empty();
        let mut i: usize = 0;
        while i < n
            invariant
                0 <= i <= n,
                self.enhancements@.len() == n,
                n == old(self).enhancements@.len(),
                settings_t.len() == i,
                forall|k: int| 0 <= k < i ==> #[trigger] self.enhancements@[k].calls()
                    == old(self).enhancements@[k].calls().push(EnhancementCall::UpdateSettings(settings_t[k])),
                forall|k: int| i <= k < n ==> #[trigger] self.enhancements@[k].calls()
                    == old(self).enhancements@[k].calls(),
                self.settings_dirty == (old(self).settings_dirty || settings_t.contains(Some(true))),
                self.settings_visible == old(self).settings_visible,
                self.app_state == old(self).app_state,
                self.log == old(self).log,
                self.screen_bounds == old(self).screen_bounds,
                self.last_total_read_calls == old(self).last_total_read_calls,
                self.backoff == old(self).backoff,
                self.settings_screen_capture_changed == old(self).settings_screen_capture_changed,
                self.settings_render_debug_window_changed == old(self).settings_render_debug_window_changed,
            decreases n - i,
        {
            let outcome = self.enhancements[i].update_settings(input, &mut self.settings);
            self.apply_settings_outcome(&outcome);
            proof {
                lemma_push_contains(settings_t, settings_outcome(outcome), Some(true));
                settings_t = settings_t.push(settings_outcome(outcome));
            }
            i = i + 1;
        }

        let pressed = input.is_key_pressed(self.settings.key_settings, false);
        self.toggle_settings(pressed, metrics);

        self.app_state.invalidate_states();
        let ghost states = self.app_state@;
        self.screen_bounds = display;

        let ctx = UpdateContext { input };
        let mut last_error: Option<EnhancementError> = None;
        let ghost updates_t: Seq<bool> = Seq::empty();
        let ghost handed_t: Seq<RegistryView<V>> = Seq::empty();
        let mut j: usize = 0;
        while j < n
            invariant
                0 <= j <= n,
                self.enhancements@.len() == n,
                n == old(self).enhancements@.len(),
                updates_t.len() == j,
                handed_t.len() == j,
                settings_t.len() == n,
                forall|k: int| 0 <= k < j ==> #[trigger] self.enhancements@[k].calls()
                    == old(self).enhancements@[k].calls().push(EnhancementCall::UpdateSettings(settings_t[k])).push(
                        EnhancementCall::Update { ok: updates_t[k], states: handed_t[k] },
                    ),
                forall|k: int| j <= k < n ==> #[trigger] self.enhancements@[k].calls()
                    == old(self).enhancements@[k].calls().push(EnhancementCall::UpdateSettings(settings_t[k])),
                last_error is Some == updates_t.contains(false),
                j == 0 ==> self.app_state@ == states,
                j > 0 ==> handed_t[0] == states,
                states == old(self).app_state@.invalidated(),
                pressed == input.key_pressed(self.settings.key_settings, false),
                self.settings_dirty == (old(self).settings_dirty || settings_t.contains(Some(true))
                    || (pressed && old(self).settings_visible)),
                self.settings_visible == (if pressed { !old(self).settings_visible } else { old(self).settings_visible }),
                metrics.records() == toggle_records(old(metrics).records(), pressed, self.settings_visible),
                self.log == old(self).log,
                self.screen_bounds == display,
                self.last_total_read_calls == old(self).last_total_read_calls,
                self.backoff == old(self).backoff,
                self.settings_screen_capture_changed == old(self).settings_screen_capture_changed,
                self.settings_render_debug_window_changed == old(self).settings_render_debug_window_changed,
            decreases n - j,
        {
            let ghost before = self.app_state@;
            let outcome = self.enhancements[j].update(&ctx, &mut self.app_state);
            let ghost ok = outcome is Ok;
            last_error = fold_error(last_error, outcome);
            proof {
                lemma_push_contains(updates_t, ok, false);
                updates_t = updates_t.push(ok);
                handed_t = handed_t.push(before);
            }
            j = j + 1;
        }

        self.frame_read_calls = total_read_calls - self.last_total_read_calls;
        self.last_total_read_calls = total_read_calls;
        proof {
            let tr = UpdateTrace { settings: settings_t, pressed, handed: handed_t, updates: updates_t };
            self.log@ = self.log@.push(FrameEvent::Update(tr));
        }

        match last_error {
            Some(e) => Err(e),
            None => Ok(()),
        }
    }

    /// The render phase: every enhancement draws, then every enhancement runs
    /// its diagnostic pass, whatever the settings or earlier failures;
    /// failures are dropped. Returns what the host draws around them.
    pub fn render<I>(&mut self, surface: &I) -> (r: RenderPlan) where E: Enhancement<V, I>
        ensures
            r == (RenderPlan {
                watermark: old(self).settings.valthrun_watermark,
                settings_window: old(self).settings_visible,
            }),
            final(self).log@.len() == old(self).log@.len() + 1,
            final(self).log@.last() is Render,
            render_effect::<V, E, I>(*old(self), *final(self), final(self).log@.last()->Render_0),
    {
        let n = self.enhancements.len();
        let ghost rendered_t: Seq<bool> = Seq::empty();
        let mut i: usize = 0;
        while i < n
            invariant
                0 <= i <= n,
                n == old(self).enhancements@.len(),
                self.enhancements@.len() == n,
                rendered_t.len() == i,
                forall|k: int| 0 <= k < i ==> #[trigger] self.enhancements@[k].calls()
                    == old(self).enhancements@[k].calls().push(EnhancementCall::Render(rendered_t[k])),
                forall|k: int| i <= k < n ==> #[trigger] self.enhancements@[k].calls()
                    == old(self).enhancements@[k].calls(),
                *self == (Application { enhancements: self.enhancements, ..*old(self) }),
            decreases n - i,
        {
            let outcome = self.enhancements[i].render(&self.app_state, surface);
            proof { rendered_t = rendered_t.push(outcome is Ok); }
            i = i + 1;
        }
        let ghost tr = RenderTrace { rendered: rendered_t };
        let mut j: usize = 0;
        while j < n
            invariant
                0 <= j <= n,
                self.enhancements@.len() == n,
                n == old(self).enhancements@.len(),
                rendered_t.len() == n,
                tr == (RenderTrace { rendered: rendered_t }),
                forall|k: int| 0 <= k < j ==> #[trigger] self.enhancements@[k].calls()
                    == render_calls(old(self).enhancements@[k].calls(), tr, k),
                forall|k: int| j <= k < n ==> #[trigger] self.enhancements@[k].calls()
                    == old(self).enhancements@[k].calls().push(EnhancementCall::Render(rendered_t[k])),
                *self == (Application { enhancements: self.enhancements, ..*old(self) }),
            decreases n - j,
        {
            self.enhancements[j].render_debug_window(&self.app_state, surface);
            j = j + 1;
        }
        proof {
            self.log@ = self.log@.push(FrameEvent::Render(tr));
        }
        RenderPlan { watermark: self.settings.valthrun_watermark, settings_window: self.settings_visible }
    }

    /// One frame at time `now_ms`: the update phase runs unless updates are
    /// suspended, its outcome feeds the backoff controller, and the render
    /// phase always runs.
    pub fn run_frame<I: KeyboardInput, M: MetricsClient>(
        &mut self,
        input: &I,
        display: ScreenBounds,
        total_read_calls: u64,
        metrics: &mut M,
        now_ms: u64,
    ) -> (r: FrameOutcome) where E: Enhancement<V, I>
        requires
            old(self).backoff.wf(),
            total_read_calls >= old(self).last_total_read_calls,
        ensures
            final(self).backoff.wf(),
            r.updated == (spec_begin_frame(old(self).backoff, now_ms).window is None),
            final(self).backoff == frame_step(old(self).backoff, !r.update_failed, now_ms),
            r.backoff_opened == (r.update_failed && old(self).backoff.consecutive_failures + 1 == crate::backoff::FAILURE_THRESHOLD
                && spec_begin_frame(old(self).backoff, now_ms).window is None),
            r.updated ==> frame_with_update(*old(self), *final(self), r.update_failed, *input, display, total_read_calls),
            r.updated ==> final(metrics).records() == toggle_records(
                old(metrics).records(),
                (final(self).log@[old(self).log@.len() as int]->Update_0).pressed,
                final(self).settings_visible,
            ),
            !r.updated ==> frame_without_update::<V, E, I>(*old(self), *final(self)) && !r.update_failed
                && final(metrics).records() == old(metrics).records(),
            old(self).enhancements@.len() == 0 ==> !r.update_failed,
            r.render == (RenderPlan {
                watermark: final(self).settings.valthrun_watermark,
                settings_window: final(self).settings_visible,
            }),
    {
        let run = self.backoff.begin_frame(now_ms);
        let mut update_failed = false;
        let mut backoff_opened = false;
        let ghost pre = *old(self);
        if run {
            let ghost a0 = *self;
            let result = self.update(input, display, total_read_calls, metrics);
            let ghost a1 = *self;
            update_failed = result.is_err();
            backoff_opened = self.backoff.record(!update_failed, now_ms);
            let ghost a2 = *self;
            let render = self.render(input);
            proof {
                let tu = a1.log@.last()->Update_0;
                let tr = self.log@.last()->Render_0;
                assert(a1.log@ =~= pre.log@.push(FrameEvent::Update(tu)));
                assert(self.log@ =~= pre.log@.push(FrameEvent::Update(tu)).push(FrameEvent::Render(tr)));
                assert(self.log@[pre.log@.len() as int] == FrameEvent::<V>::Update(tu));
                assert forall|k: int| 0 <= k < pre.enhancements@.len() implies #[trigger] self.enhancements@[k].calls()
                    == render_calls(update_calls(pre.enhancements@[k].calls(), tu, k), tr, k) by {
                    assert(a2.enhancements@[k].calls() == a1.enhancements@[k].calls());
                }
            }
            FrameOutcome { updated: run, update_failed, backoff_opened, render }
        } else {
            let render = self.render(input);
            proof { assert(self.log@.drop_last() =~= pre.log@); }
            FrameOutcome { updated: run, update_failed, backoff_opened, render }
        }
    }
}


} // verus!
