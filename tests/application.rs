use std::cell::Cell;
use std::rc::Rc;

use controller::{
    fold_error, AppSettings, Application, CallLog, Enhancement, EnhancementError, KeyboardInput, MetricsClient, RecordLog, RenderPlan, ScreenBounds,
    StateKey, StateRegistry, UpdateContext,
};

const KEY_SETTINGS: u32 = 45;

struct Input {
    pressed: Vec<u32>,
}

impl KeyboardInput for Input {
    fn key_down(&self, key: u32) -> bool {
        self.pressed.contains(&key)
    }

    fn key_pressed(&self, key: u32, _repeating: bool) -> bool {
        self.pressed.contains(&key)
    }

    fn is_key_down(&self, key: u32) -> bool {
        self.pressed.contains(&key)
    }

    fn is_key_pressed(&self, key: u32, _repeating: bool) -> bool {
        self.pressed.contains(&key)
    }
}

#[derive(Default)]
struct Metrics {
    records: Vec<(String, String)>,
}

impl MetricsClient for Metrics {
    fn records(&self) -> RecordLog {
        unreachable!("read by the verifier only")
    }

    fn add_metrics_record(&mut self, record_type: &str, record_payload: &str) {
        self.records.push((record_type.to_string(), record_payload.to_string()));
    }
}

#[derive(Default)]
struct Calls {
    updates: Cell<u32>,
    renders: Cell<u32>,
    debug_renders: Cell<u32>,
    settings_updates: Cell<u32>,
}

struct Probe {
    id: u64,
    fail_update: bool,
    change_settings: bool,
    fail_settings: bool,
    calls: Rc<Calls>,
}

impl Enhancement<u64, Input> for Probe {
    fn calls(&self) -> CallLog<u64> {
        unreachable!("read by the verifier only")
    }

    fn update_settings(&mut self, _input: &Input, settings: &mut AppSettings) -> Result<bool, EnhancementError> {
        self.calls.settings_updates.set(self.calls.settings_updates.get() + 1);
        if self.fail_settings {
            return Err(EnhancementError { message: String::from("bad settings") });
        }
        if self.change_settings {
            settings.valthrun_watermark = !settings.valthrun_watermark;
        }
        Ok(self.change_settings)
    }

    fn update(&mut self, _ctx: &UpdateContext<Input>, states: &mut StateRegistry<u64>) -> Result<(), EnhancementError> {
        self.calls.updates.set(self.calls.updates.get() + 1);
        if self.fail_update {
            return Err(EnhancementError { message: format!("probe {} failed", self.id) });
        }
        states.set(self.id, StateKey { type_tag: 7, context: self.id });
        Ok(())
    }

    fn render(&mut self, states: &StateRegistry<u64>, _surface: &Input) -> Result<(), EnhancementError> {
        self.calls.renders.set(self.calls.renders.get() + 1);
        let _ = states.get(StateKey { type_tag: 7, context: self.id });
        Ok(())
    }

    fn render_debug_window(&mut self, _states: &StateRegistry<u64>, _surface: &Input) {
        self.calls.debug_renders.set(self.calls.debug_renders.get() + 1);
    }
}

fn settings() -> AppSettings {
    AppSettings {
        key_settings: KEY_SETTINGS,
        hide_overlay_from_screen_capture: true,
        render_debug_window: false,
        valthrun_watermark: true,
        metrics: false,
        imgui: None,
    }
}

fn app_with(probes: Vec<Probe>) -> Application<u64, Probe> {
    Application::new(StateRegistry::new(), settings(), probes)
}

fn probe(id: u64, fail_update: bool, calls: &Rc<Calls>) -> Probe {
    Probe { id, fail_update, change_settings: false, fail_settings: false, calls: calls.clone() }
}

fn no_keys() -> Input {
    Input { pressed: vec![] }
}

const SCREEN: ScreenBounds = ScreenBounds { width: 1920, height: 1080 };

#[test]
fn failing_enhancement_does_not_stop_others() {
    let calls = Rc::new(Calls::default());
    let mut app = app_with(vec![probe(1, false, &calls), probe(2, true, &calls), probe(3, false, &calls)]);
    let mut metrics = Metrics::default();
    let result = app.update(&no_keys(), SCREEN, 0, &mut metrics);
    assert_eq!(result.unwrap_err().message, "probe 2 failed");
    assert_eq!(calls.updates.get(), 3);
    assert_eq!(calls.settings_updates.get(), 3);
    assert_eq!(app.app_state.get(StateKey { type_tag: 7, context: 3 }), Some(&3));
    let plan = app.render(&no_keys());
    assert_eq!(plan, RenderPlan { watermark: true, settings_window: false });
    assert_eq!(calls.renders.get(), 3);
    assert_eq!(calls.debug_renders.get(), 3);
}

#[test]
fn update_refreshes_bounds_and_read_counter() {
    let calls = Rc::new(Calls::default());
    let mut app = app_with(vec![probe(1, false, &calls)]);
    let mut metrics = Metrics::default();
    app.update(&no_keys(), SCREEN, 120, &mut metrics).unwrap();
    assert_eq!(app.frame_read_calls, 120);
    app.update(&no_keys(), SCREEN, 150, &mut metrics).unwrap();
    assert_eq!(app.frame_read_calls, 30);
    assert_eq!(app.last_total_read_calls, 150);
    assert_eq!(app.screen_bounds, SCREEN);
}

#[test]
fn update_invalidates_registry_once_per_frame() {
    let calls = Rc::new(Calls::default());
    let mut app = app_with(vec![]);
    let _ = calls;
    app.app_state.set(9, StateKey { type_tag: 1, context: 0 });
    assert!(app.app_state.is_current(StateKey { type_tag: 1, context: 0 }));
    app.update(&no_keys(), SCREEN, 0, &mut Metrics::default()).unwrap();
    assert!(!app.app_state.is_current(StateKey { type_tag: 1, context: 0 }));
    assert_eq!(app.app_state.get(StateKey { type_tag: 1, context: 0 }), Some(&9));
}

#[test]
fn settings_change_marks_dirty() {
    let calls = Rc::new(Calls::default());
    let mut p = probe(1, false, &calls);
    p.change_settings = true;
    let mut app = app_with(vec![p]);
    app.update(&no_keys(), SCREEN, 0, &mut Metrics::default()).unwrap();
    assert!(app.settings_dirty);
    assert!(!app.settings().valthrun_watermark);
}

#[test]
fn closing_settings_persists_once() {
    let mut app = app_with(vec![]);
    let mut metrics = Metrics::default();
    let press = Input { pressed: vec![KEY_SETTINGS] };
    app.pre_update();
    app.update(&press, SCREEN, 0, &mut metrics).unwrap();
    assert!(app.settings_visible);
    assert!(!app.settings_dirty);
    app.update(&press, SCREEN, 0, &mut metrics).unwrap();
    assert!(!app.settings_visible);
    assert!(app.settings_dirty);
    let first = app.pre_update();
    assert!(first.persist_settings);
    assert!(!app.settings_dirty);
    let second = app.pre_update();
    assert!(!second.persist_settings);
    let records = &metrics.records;
    assert_eq!(records.len(), 2);
    assert_eq!(records[0], ("settings-toggled".to_string(), "visible: true".to_string()));
    assert_eq!(records[1], ("settings-toggled".to_string(), "visible: false".to_string()));
}

#[test]
fn screen_capture_flag_notifies_once() {
    let mut app = app_with(vec![]);
    // both flags are raised at start so the host learns the preferences
    let start = app.pre_update();
    assert_eq!(start.screen_capture_visible, Some(false));
    assert_eq!(start.debug_overlay_visible, Some(false));
    app.settings_mut().hide_overlay_from_screen_capture = false;
    app.notify_screen_capture_changed();
    let first = app.pre_update();
    assert_eq!(first.screen_capture_visible, Some(true));
    assert_eq!(first.debug_overlay_visible, None);
    assert!(!app.settings_screen_capture_changed.raised);
    let second = app.pre_update();
    assert_eq!(second.screen_capture_visible, None);
}

#[test]
fn debug_window_flag_notifies_once() {
    let mut app = app_with(vec![]);
    app.pre_update();
    app.settings_mut().render_debug_window = true;
    app.notify_debug_window_changed();
    assert_eq!(app.pre_update().debug_overlay_visible, Some(true));
    assert_eq!(app.pre_update().debug_overlay_visible, None);
}

#[test]
fn failing_frames_trigger_backoff_end_to_end() {
    let calls = Rc::new(Calls::default());
    let mut app = app_with(vec![probe(1, true, &calls)]);
    let mut metrics = Metrics::default();
    assert!(!app.settings_visible);
    let mut now: u64 = 0;
    for _ in 0..9 {
        let out = app.run_frame(&no_keys(), SCREEN, 0, &mut metrics, now);
        assert!(out.updated && out.update_failed && !out.backoff_opened);
        now += 16;
    }
    assert_eq!(app.backoff.consecutive_failures, 9);
    assert_eq!(app.backoff.window, None);
    let tenth = app.run_frame(&no_keys(), SCREEN, 0, &mut metrics, now);
    assert!(tenth.backoff_opened);
    assert_eq!(app.backoff.consecutive_failures, 0);
    assert_eq!(calls.updates.get(), 10);
    assert_eq!(calls.renders.get(), 10);
    let opened_at = now;
    for step in 1..=5u64 {
        let out = app.run_frame(&no_keys(), SCREEN, 0, &mut metrics, opened_at + step * 200);
        assert!(!out.updated);
        assert_eq!(out.render, RenderPlan { watermark: true, settings_window: false });
    }
    assert_eq!(calls.updates.get(), 10);
    assert_eq!(calls.renders.get(), 15);
    let resumed = app.run_frame(&no_keys(), SCREEN, 0, &mut metrics, opened_at + 1001);
    assert!(resumed.updated);
    assert_eq!(calls.updates.get(), 11);
    assert_eq!(app.backoff.consecutive_failures, 1);
}

#[test]
fn successful_frame_resets_failures() {
    let calls = Rc::new(Calls::default());
    let mut app = app_with(vec![probe(1, false, &calls)]);
    app.backoff.consecutive_failures = 4;
    let out = app.run_frame(&no_keys(), SCREEN, 0, &mut Metrics::default(), 0);
    assert!(out.updated && !out.update_failed);
    assert_eq!(app.backoff.consecutive_failures, 0);
}

#[test]
fn failing_settings_pass_does_not_fail_update() {
    let calls = Rc::new(Calls::default());
    let mut first = probe(1, false, &calls);
    first.fail_settings = true;
    let mut app = app_with(vec![first, probe(2, false, &calls)]);
    let result = app.update(&no_keys(), SCREEN, 10, &mut Metrics::default());
    assert!(result.is_ok());
    assert!(!app.settings_dirty);
    assert_eq!(calls.settings_updates.get(), 2);
    assert_eq!(calls.updates.get(), 2);
    assert_eq!(app.frame_read_calls, 10);
}

#[test]
fn no_enhancements_update_succeeds() {
    let mut app = app_with(vec![]);
    assert!(app.update(&no_keys(), SCREEN, 0, &mut Metrics::default()).is_ok());
    let out = app.run_frame(&no_keys(), SCREEN, 0, &mut Metrics::default(), 0);
    assert!(out.updated && !out.update_failed);
}

#[test]
fn dirty_settings_request_record_and_layout_snapshot() {
    let mut app = app_with(vec![]);
    app.pre_update();
    app.settings_dirty = true;
    app.settings_mut().imgui = Some(String::from("[old]"));
    let actions = app.pre_update();
    assert!(actions.persist_settings);
    assert!(actions.record_settings_update);
    let payload = app.settings_without_layout();
    assert_eq!(payload.imgui, None);
    assert_eq!(payload.key_settings, KEY_SETTINGS);
    assert!(payload.hide_overlay_from_screen_capture);
    app.store_ui_layout(String::from("[Window][overlay]"));
    assert_eq!(app.settings().imgui, Some(String::from("[Window][overlay]")));
    assert!(!app.pre_update().record_settings_update);
}

#[test]
fn settings_outcome_marks_dirty_only_on_change() {
    let mut app = app_with(vec![]);
    app.apply_settings_outcome(&Ok(false));
    assert!(!app.settings_dirty);
    app.apply_settings_outcome(&Err(EnhancementError { message: String::from("x") }));
    assert!(!app.settings_dirty);
    app.apply_settings_outcome(&Ok(true));
    assert!(app.settings_dirty);
}

#[test]
fn fold_error_keeps_last_failure() {
    let e = |m: &str| EnhancementError { message: m.to_string() };
    assert!(fold_error(None, Ok(())).is_none());
    assert_eq!(fold_error(None, Err(e("a"))).unwrap().message, "a");
    assert_eq!(fold_error(Some(e("a")), Ok(())).unwrap().message, "a");
    assert_eq!(fold_error(Some(e("a")), Err(e("b"))).unwrap().message, "b");
}
