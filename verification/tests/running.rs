//! The loop, the outputs and what is published of a running show.

use cuepool::actions::{apply_engine_action, ActionStep, EngineAction};
use cuepool::diagnostics::{VideoDiagnostics, VideoTimings};
use cuepool::ieee::{Double, Single};
use cuepool::lighting::{LightingEngine, RecordedEvent};
use cuepool::pacing::{
    control_key, control_present_mode, due, due_or_forced, identify_colour, identify_until,
    identifying, monitor_step, next_turn, note_longest, output_key, pixmap_available,
    previews_kept, segment_batch, size_taken, window_role, ChaseConfig, ControlKey, DrawStep,
    GenerateConfig, KeyPress, LateState, LoopState, PresentMode, Presented, SegmentSource,
    SegmentTap, SurfaceOutcome, SurfaceState, TurnFacts, TurnPlan, WindowRole, IDENTIFY_PERIOD,
    SHUTDOWN_TIMEOUT, TURN_PERIOD,
};
use cuepool::playback::{
    apply_external_cue, external_step, give_up_video, keep_failed_video, levels_changed,
    levels_log_due, network_route, remote_go, reset_for_project_change, stop_external_outputs, texture_recreated, user_event,
    video_stopped_message, AppEvent, EventStep, ExternalError, ExternalStep, NetworkRoute,
    LEVELS_LOG_DELAY,
};
use cuepool::published::{
    close_requested, finished_cues, publish_active_cues, window_title, Running,
};
use cuepool::qid::Qid;
use cuepool::show::{
    AudioOutputDriver, CanvasFit, Cue, CueBase, CueKind, CueTriggers, FadeType, LoopMode,
    StopMode, TriggerMode,
};
use cuepool::state::{ActiveCueInfo, CueState, SharedState};
use cuepool::table::Table;
use cuepool::video::{video_path, PlayVideo, SeekError, VideoControl, VideoDeck, Worker};
use cuepool::windows::{window_event, WindowFacts, WindowInput, WindowStep};

const SECOND: u64 = 1_000_000_000;
const NOW: u64 = 500 * SECOND;

fn double(x: f64) -> Double {
    Double { bits: x.to_bits() }
}

fn single(x: f32) -> Single {
    Single { bits: x.to_bits() }
}

fn cue(qid: i64, name: &str, kind: CueKind) -> Cue {
    Cue {
        base: CueBase {
            qid: Qid::new(qid, 0),
            parent: None,
            name: name.to_string(),
            enabled: true,
            trigger: TriggerMode::Go,
            loop_mode: LoopMode::HoldLast,
            loop_count: 0,
            triggers: CueTriggers { hotkey: None, midi: None, wall_clock: None, timecode: None },
        },
        kind,
        extra: 0,
    }
}

fn deck() -> VideoDeck {
    VideoDeck {
        control: VideoControl {
            stream_epoch: 5,
            streaming: false,
            clock: None,
            paused: false,
            pause_started: None,
            peek_pts: None,
            last_pts: None,
            canvas_has_frame: false,
            media_length: None,
            timeline_offset: double(0.0),
            fade: None,
            hold_position: None,
            seek_frame: None,
            step_pending: false,
            fit: CanvasFit::Fit,
            video_active: false,
            text_active: false,
        },
        stop: false,
        video_paused: false,
        pixmap_paused: false,
        paused: false,
        pending: None,
        worker: Worker::Idle,
        current_qid: None,
        current_text: None,
        current_pixmap: None,
        pixmap_stop: false,
        pixmap_streaming: false,
        current_instance: None,
        session: 0,
        session_instance: None,
        open_retries: 0,
        follow: None,
        last_hard_sync: None,
        drift: None,
        warned_rate: None,
    }
}

fn chase() -> ChaseConfig {
    ChaseConfig { linear: false, driver: AudioOutputDriver::Auto, device: String::new(), channel: 0 }
}

fn generate() -> GenerateConfig {
    GenerateConfig {
        enabled: false,
        driver: AudioOutputDriver::Auto,
        device: String::new(),
        channel: 0,
        rate: 25,
        start: double(0.0),
    }
}

fn quiet_loop() -> LoopState {
    LoopState {
        shutdown_started: None,
        generation: 1,
        status_open: false,
        consumer_reported: false,
        chase: chase(),
        generate: generate(),
        generating: false,
        generate_tried: NOW,
        devices_listed: NOW,
    }
}

fn facts() -> TurnFacts {
    TurnFacts {
        delivered: false,
        quit: false,
        show_status: false,
        consumer_exited: false,
        generation: 1,
        layout_changed: false,
        chase: chase(),
        generate: generate(),
        now: NOW + 1,
    }
}

#[test]
fn nothing_is_due_twice_in_a_period() {
    let mut last = NOW;
    assert!(!due(&mut last, SECOND, NOW + SECOND - 1));
    assert!(due(&mut last, SECOND, NOW + SECOND));
    assert_eq!(last, NOW + SECOND);
    assert!(!due(&mut last, SECOND, NOW + SECOND + 1));
    assert!(due_or_forced(&mut last, SECOND, true, NOW + SECOND + 1));
}

#[test]
fn a_project_is_reset_once() {
    let mut l = quiet_loop();
    let changed = |l: &mut LoopState| match l.take_turn(&mut SharedState::new(), TurnFacts { generation: 2, ..facts() }) {
        TurnPlan::Run { reset_project, .. } => reset_project,
        _ => false,
    };
    assert!(changed(&mut l));
    assert!(!changed(&mut l));
}

#[test]
fn outputs_are_rebuilt_for_a_layout_but_not_for_a_project() {
    let rebuilt = |generation| {
        let mut l = quiet_loop();
        let f = TurnFacts { layout_changed: true, generation, ..facts() };
        matches!(l.take_turn(&mut SharedState::new(), f), TurnPlan::Run { rebuild_outputs: true, .. })
    };
    assert!(rebuilt(1));
    assert!(!rebuilt(2));
}

#[test]
fn a_quiet_turn_does_nothing() {
    let mut l = quiet_loop();
    assert!(matches!(
        l.take_turn(&mut SharedState::new(), facts()),
        TurnPlan::Run {
            report_consumer: false,
            reset_project: false,
            rebuild_outputs: false,
            rebuild_chase: false,
            list_devices: false,
            open_generator: false,
            ..
        }
    ));
}

#[test]
fn an_accepted_shutdown_ends() {
    let mut l = quiet_loop();
    l.accept_shutdown(NOW);
    assert_eq!(l.shutdown_started, Some(NOW));
    assert!(matches!(l.take_turn(&mut SharedState::new(), facts()), TurnPlan::Wait));
    let answered = TurnFacts { delivered: true, ..facts() };
    assert!(matches!(l.take_turn(&mut SharedState::new(), answered), TurnPlan::Exit { undelivered: false }));
    let late = TurnFacts { now: NOW + SHUTDOWN_TIMEOUT, ..facts() };
    assert!(matches!(l.take_turn(&mut SharedState::new(), late), TurnPlan::Exit { undelivered: true }));
}

#[test]
fn a_consumer_that_exits_is_reported_once() {
    let mut l = quiet_loop();
    let mut state = SharedState::new();
    let reported = |l: &mut LoopState, state: &mut SharedState| {
        matches!(
            l.take_turn(state, TurnFacts { consumer_exited: true, ..facts() }),
            TurnPlan::Run { report_consumer: true, .. }
        )
    };
    l.take_turn(&mut state, facts());
    assert_eq!(state.diagnostics.consumer_error, None);
    assert!(reported(&mut l, &mut state));
    assert!(!reported(&mut l, &mut state));
    assert_eq!(
        state.diagnostics.consumer_error.as_deref(),
        Some("video-consume thread exited unexpectedly; video output is frozen")
    );
}

#[test]
fn segments_are_sampled_where_their_source_is() {
    let taps = vec![
        SegmentTap { id: 1, source: SegmentSource::Canvas },
        SegmentTap { id: 2, source: SegmentSource::PixelMap },
    ];
    let (sampled, cleared) = segment_batch(&taps, true, false);
    assert_eq!(sampled, [1]);
    assert_eq!(cleared, [2]);
    assert_eq!(previews_kept(&vec![1, 2, 3], &vec![3, 1]), [1, 3]);
    assert!(pixmap_available(true, true));
    assert!(!pixmap_available(true, false));
}

#[test]
fn outputs_are_identified_for_a_while() {
    let until = identify_until(true, None, NOW);
    assert_eq!(until, Some(NOW + IDENTIFY_PERIOD));
    assert!(identifying(until, NOW + IDENTIFY_PERIOD - 1));
    assert!(!identifying(until, NOW + IDENTIFY_PERIOD));
    assert_eq!(identify_colour(0), identify_colour(6));
    assert_ne!(identify_colour(0), identify_colour(1));
    assert!(monitor_step(true, true).rebuild);
    assert!(!monitor_step(true, false).rebuild);
}

#[test]
fn turns_follow_each_other() {
    assert_eq!(next_turn(NOW), NOW + TURN_PERIOD);
    assert_eq!(note_longest(10, 3_000), 10);
    assert_eq!(note_longest(10, 20_000), 20);
}

#[test]
fn a_lost_surface_is_recovered_with_growing_patience() {
    let mut s = SurfaceState { present: true, retry_at: None, failures: 0, occluded_warned: false };
    assert!(matches!(s.draw_step(SurfaceOutcome::Ready, false, NOW), DrawStep::Draw));
    assert!(matches!(s.draw_step(SurfaceOutcome::Outdated, false, NOW), DrawStep::Reconfigure));
    assert!(matches!(s.draw_step(SurfaceOutcome::Lost, false, NOW), DrawStep::Recover));
    assert_eq!(s.not_recovered(NOW), 100);
    assert_eq!(s.not_recovered(NOW), 200);
    assert!(!s.retry_due(NOW));
    assert!(s.retry_due(NOW + 200_000_000));
    assert_eq!(s.recovered(), 2);
    assert_eq!(s.failures, 0);
}

#[test]
fn the_desk_is_presented_without_waiting_where_it_can() {
    assert!(matches!(control_present_mode(PresentMode::Fifo, true, true), PresentMode::Mailbox));
    assert!(matches!(control_present_mode(PresentMode::Fifo, false, true), PresentMode::Immediate));
    assert!(matches!(control_present_mode(PresentMode::Fifo, false, false), PresentMode::Fifo));
}

fn key(name: &str) -> KeyPress {
    KeyPress { escape: false, f11: false, letter_f: false, command: false, name: name.into() }
}

#[test]
fn keys_mean_the_same_in_every_window() {
    assert!(matches!(control_key(&key("g")), ControlKey::Hotkey));
    assert!(output_key(&key("g"), true, false).hotkey);
    let f11 = KeyPress { f11: true, ..key("F11") };
    assert!(matches!(control_key(&f11), ControlKey::ToggleOutputs));
    assert_eq!(output_key(&f11, true, false).fullscreen, Some(true));
    let escape = KeyPress { escape: true, ..key("Escape") };
    assert_eq!(output_key(&escape, true, true).fullscreen, Some(false));
    assert!(matches!(window_role(false, true, false, false), Some(WindowRole::Control)));
    assert!(matches!(window_role(false, false, false, false), Some(WindowRole::Unknown)));
    assert!(window_role(true, true, false, false).is_none());
    assert!(size_taken(1, 1) && !size_taken(0, 1));
}

#[test]
fn events_of_old_streams_are_ignored() {
    let d = deck();
    assert!(matches!(user_event(&d, AppEvent::VideoEof(4), false), EventStep::Ignore));
    assert!(matches!(user_event(&d, AppEvent::VideoEof(5), false), EventStep::EndVideo));
    assert!(matches!(user_event(&d, AppEvent::VideoFailed(5), false), EventStep::FailVideo));
    assert!(matches!(user_event(&d, AppEvent::DeviceLost, false), EventStep::Exit));
    assert!(matches!(user_event(&d, AppEvent::VideoEof(5), true), EventStep::Ignore));
}

#[test]
fn cues_without_sound_are_played_outside_the_engine() {
    let network = cue(1, "net", CueKind::Network { command: "udp://10.0.0.1:9/x".into() });
    assert!(matches!(external_step(&network), ExternalStep::Network { command } if command == "udp://10.0.0.1:9/x"));
    let pixmap = cue(2, "map", CueKind::PixelMap { path: "m.mp4".into() });
    assert!(matches!(external_step(&pixmap), ExternalStep::PixelMap { loop_mode: LoopMode::HoldLast, .. }));
    assert!(matches!(external_step(&cue(3, "d", CueKind::Group)), ExternalStep::NotExternal));
    assert!(matches!(network_route(true, false, true), NetworkRoute::Udp));
    assert!(matches!(network_route(false, false, true), NetworkRoute::Osc));
    assert!(matches!(network_route(false, false, false), NetworkRoute::Unavailable));
    let go = remote_go("foh".into(), &Qid::new(15, 1));
    assert_eq!(go.args, ["foh", "1.5"]);
    let error = ExternalError::Udp { host: "h".into(), port: 9, error: "down".into() };
    assert!(error.to_text().contains("h:9") && error.to_text().contains("down"));
    assert!(video_stopped_message("clip").contains("clip"));
}

#[test]
fn level_changes_are_logged_when_they_settle() {
    let mut due = levels_changed(None, NOW);
    assert_eq!(due, Some(NOW + LEVELS_LOG_DELAY));
    assert!(!levels_log_due(&mut due, NOW + LEVELS_LOG_DELAY - 1));
    assert!(levels_log_due(&mut due, NOW + LEVELS_LOG_DELAY));
    assert_eq!(due, None);
    assert!(texture_recreated(None, 4, 4));
    assert!(!texture_recreated(Some((4, 4)), 4, 4));
    assert!(texture_recreated(Some((4, 5)), 4, 4));
}

#[test]
fn stopping_everything_ends_picture_text_and_lights() {
    let mut d = deck();
    d.show_text(Qid::new(3, 0), true);
    d.start_pixmap(Qid::new(4, 0));
    assert!(d.control.text_active);
    let mut lights = LightingEngine::new();
    lights.preview_recording(
        &vec![RecordedEvent { t_ms: 1000, universe: 1, channel: 0, value: 9 }],
        NOW,
    );
    assert_eq!(lights.shows.len(), 1);
    stop_external_outputs(&mut d, &mut lights, &Table::new());
    assert_eq!(d.current_text, None);
    assert_eq!(d.current_pixmap, None);
    assert!(lights.shows.is_empty());
}

#[test]
fn a_new_project_starts_with_dark_lights_and_no_text() {
    let mut d = deck();
    d.show_text(Qid::new(3, 0), true);
    let mut lights = LightingEngine::new();
    lights.preview_recording(
        &vec![RecordedEvent { t_ms: 1000, universe: 1, channel: 0, value: 9 }],
        NOW,
    );
    reset_for_project_change(&mut d, &mut lights);
    assert_eq!(d.current_text, None);
    assert!(!lights.is_active());
}

#[test]
fn engine_actions_reach_the_outputs() {
    let mut d = deck();
    let mut lights = LightingEngine::new();
    let mut apply = |d: &mut VideoDeck, action| {
        let mut state = SharedState::new();
        apply_engine_action(&mut state, d, &mut lights, action, &Table::new(), None, 8, NOW)
    };
    let play = PlayVideo {
        path: "clip.mov".into(),
        qid: Qid::new(12, 1),
        instance_id: 4,
        start_time: double(0.0),
        duration: double(0.0),
        media_end: double(0.0),
        media_target: Some(0),
        fit: CanvasFit::Fit,
        fresh_session: 9,
        now: NOW,
    };
    let done = apply(&mut d, EngineAction::PlayVideo { play, follow: Some(double(3600.0)) });
    assert!(matches!(done, Ok(ActionStep::Nothing)));
    assert_eq!(d.current_qid, Some(Qid::new(12, 1)));
    assert_eq!(d.follow.as_ref().map(|f| f.offset), Some(double(3600.0)));

    let seek = |target_ns| EngineAction::SeekVideo {
        qid: Qid::new(12, 1),
        path: "clip.mov".into(),
        target: double(8.0),
        media_target: double(8.0),
        media_offset: double(0.0),
        target_ns,
    };
    assert!(matches!(apply(&mut d, seek(None)), Err(SeekError::OutsideClock)));
    assert!(matches!(apply(&mut d, seek(Some(8 * SECOND))), Ok(ActionStep::Nothing)));

    let faded = apply(&mut d, EngineAction::StopVideo { fade_out: single(2.0) });
    assert!(matches!(faded, Ok(ActionStep::Canvas(w)) if !w.blank));
    assert_eq!(d.control.fade, Some((NOW, single(2.0))));
    let stopped = apply(&mut d, EngineAction::StopVideo { fade_out: single(0.0) });
    assert!(matches!(stopped, Ok(ActionStep::Canvas(w)) if w.blank));
    assert_eq!(d.current_qid, None);

    let go = EngineAction::RemoteGo { node: "foh".into(), qid: Qid::new(15, 1) };
    assert!(matches!(apply(&mut d, go), Ok(ActionStep::Send(m)) if m.args == ["foh", "1.5"]));
    let fire = EngineAction::FireExternal(cue(6, "d", CueKind::Dummy));
    assert!(matches!(apply(&mut d, fire), Ok(ActionStep::Fire(ExternalStep::Nothing, false))));
    let picture = CueKind::Image { path: "a.png".into(), fit: CanvasFit::Fit };
    let epoch = d.control.stream_epoch;
    let fired = apply(&mut d, EngineAction::FireExternal(cue(7, "i", picture)));
    assert!(matches!(fired, Ok(ActionStep::Fire(ExternalStep::Image { .. }, false))));
    assert_eq!(d.current_qid, Some(Qid::new(7, 0)));
    assert_eq!(d.control.stream_epoch, epoch + 1);
}

#[test]
fn a_still_pixel_map_stays_until_it_is_stopped() {
    let mut d = deck();
    let map = cue(4, "map", CueKind::PixelMap { path: "wall.png".into() });
    apply_external_cue(&mut d, &map);
    d.pixmap_drained(true);
    assert_eq!(d.current_pixmap, Some(Qid::new(4, 0)));
    d.pixmap_fed();
    d.pixmap_drained(false);
    assert_eq!(d.current_pixmap, Some(Qid::new(4, 0)));
    d.pixmap_drained(true);
    assert_eq!(d.current_pixmap, None);
}

#[test]
fn a_text_blanks_an_empty_canvas_only() {
    let mut d = deck();
    let text = cue(
        5,
        "title",
        CueKind::Text {
            text: "Act I".into(),
            font_size: single(40.0),
            colour: [255; 4],
            fit: CanvasFit::Fit,
            font: String::new(),
        },
    );
    d.current_qid = None;
    d.control.canvas_has_frame = false;
    assert!(apply_external_cue(&mut d, &text).1);
    d.control.canvas_has_frame = true;
    assert!(!apply_external_cue(&mut d, &text).1);
}

fn info(qid: i64) -> ActiveCueInfo {
    ActiveCueInfo {
        instance_id: 7,
        qid: Qid::new(qid, 0),
        name: "sound".into(),
        paused: false,
        position_secs: single(1.0),
        length_secs: None,
        state: CueState::Playing,
    }
}

#[test]
fn running_cues_are_listed_once() {
    let mut state = SharedState::new();
    state.show_file.cues = vec![
        cue(1, "one", CueKind::Dummy),
        cue(2, "two", CueKind::Image { path: "a.png".into(), fit: CanvasFit::Fit }),
        cue(3, "three", CueKind::Dummy),
    ];
    let running = Running {
        engine_video: Some((Qid::new(2, 0), 9)),
        current_video: Some(Qid::new(3, 0)),
        video_paused: true,
        video_position: single(2.0),
        video_length: Some(single(10.0)),
        configured: single(4.0),
        text: Some(Qid::new(3, 0)),
        pixel_map: Some(Qid::new(1, 0)),
    };
    let shows = vec![Qid::new(3, 0), Qid::new(8, 0)];
    publish_active_cues(&mut state, vec![info(1)], &running, shows);
    let listed: Vec<Qid> = state.active_cues.iter().map(|c| c.qid).collect();
    assert_eq!(listed, [Qid::new(1, 0), Qid::new(2, 0), Qid::new(3, 0)]);
    assert_eq!(state.active_cues[2].name, "three");
    assert!(state.active_cues[1].paused);
    assert_eq!(state.active_cues[1].instance_id, 9);
    // An image has no duration of its own.
    assert_eq!(state.active_cues[1].length_secs, Some(single(10.0)));
    let ended = Running { engine_video: None, text: None, ..running };
    publish_active_cues(&mut state, Vec::new(), &ended, Vec::new());
    let listed: Vec<Qid> = state.active_cues.iter().map(|c| c.qid).collect();
    assert_eq!(listed, [Qid::new(3, 0), Qid::new(1, 0)]);
    assert_eq!(state.active_cues[0].instance_id, 0);
}

#[test]
fn the_end_of_a_preview_is_no_end_of_a_cue() {
    let ended = vec![Qid::new(1, 0), Qid::new(-10, 1), Qid::new(2, 0)];
    assert_eq!(finished_cues(&ended), [Qid::new(1, 0), Qid::new(2, 0)]);
}

#[test]
fn the_title_names_the_project() {
    assert_eq!(window_title(Some("gallery"), false), "CuePool — gallery");
    assert_eq!(window_title(Some("gallery"), true), "CuePool — gallery *");
    assert_eq!(window_title(None, false), "CuePool — Untitled");
}

#[test]
fn closing_asks_when_there_is_something_to_lose() {
    let mut state = SharedState::new();
    assert!(close_requested(&mut state, false));
    assert!(!state.pending_close_confirm);
    assert!(!close_requested(&mut state, true));
    assert!(state.pending_close_confirm);
}

#[test]
fn the_rest_of_a_turn_keeps_its_periods() {
    let mut late = LateState {
        monitors_listed: NOW,
        counters_published: NOW,
        cues_published: NOW,
        redrawn: NOW,
        identify_until: None,
    };
    let quiet = late.finish_turn(false, NOW + 15_000_000);
    assert!(!quiet.list_monitors && !quiet.identify && !quiet.publish_counters && !quiet.redraw);
    assert!(late.finish_turn(false, NOW + 16_000_000).redraw);
    assert!(!late.cues_due(false, NOW + 15_000_000));
    assert!(late.cues_due(true, NOW + 15_000_000));

    let second = late.finish_turn(true, NOW + SECOND);
    assert!(second.list_monitors && second.identify && second.publish_counters && second.redraw);
    assert!(late.finish_turn(false, NOW + SECOND + IDENTIFY_PERIOD - 1).identify);
    assert!(!late.finish_turn(false, NOW + SECOND + IDENTIFY_PERIOD).identify);

    let mut told = Presented { fit: CanvasFit::Fit, layouts: 4, identify: false };
    told.tell(CanvasFit::Fill, false, true);
    assert_eq!(told, Presented { fit: CanvasFit::Fill, layouts: 4, identify: true });
    told.tell(CanvasFit::Fill, true, false);
    assert_eq!(told.layouts, 5);
}

#[test]
fn events_belong_to_their_window() {
    let facts = WindowFacts {
        active_cues: false,
        outputs: 1,
        is_open: true,
        fullscreen: false,
        repaint: true,
    };
    let mut state = SharedState::default();
    let state = &mut state;
    let step = |state: &mut SharedState, role, event: WindowInput, facts: WindowFacts| {
        window_event(state, Some(role), &event, &facts)
    };
    let pressed = |name: &str, consumed| WindowInput::Key { key: key(name), consumed };

    let control = WindowRole::Control;
    assert_eq!(step(state, control, pressed("g", false), facts), WindowStep::Hotkey);
    assert_eq!(step(state, control, pressed("g", true), facts), WindowStep::Nothing);
    assert_eq!(step(state, control, WindowInput::Resized(0, 9), facts), WindowStep::Nothing);
    let f11 = WindowInput::Key { key: KeyPress { f11: true, ..key("F11") }, consumed: false };
    let none_open = WindowFacts { outputs: 0, ..facts };
    assert_eq!(
        step(state, control, f11, none_open),
        WindowStep::ToggleOutputs { open_first: true }
    );
    assert_eq!(step(state, control, WindowInput::DroppedFile, facts), WindowStep::TakeFile);
    assert_eq!(step(state, control, WindowInput::CloseRequested, facts), WindowStep::Exit);
    state.dirty = true;
    assert_eq!(step(state, control, WindowInput::CloseRequested, facts), WindowStep::Nothing);
    assert!(state.pending_close_confirm);

    state.panels.status = true;
    let status = WindowRole::Status;
    assert_eq!(step(state, status, pressed("g", false), facts), WindowStep::RequestDraw);
    assert_eq!(step(state, status, WindowInput::Resized(4, 3), facts), WindowStep::Configure(4, 3));
    assert_eq!(step(state, status, WindowInput::CloseRequested, facts), WindowStep::Discard);
    assert!(!state.panels.status);

    state.panels.video = true;
    let output = WindowRole::Output;
    assert_eq!(step(state, output, WindowInput::Resized(4, 0), facts), WindowStep::TellSize(4, 0));
    assert!(matches!(
        step(state, output, pressed("g", true), facts),
        WindowStep::OutputKey(k) if k.hotkey && k.fullscreen.is_none()
    ));
    let two = WindowFacts { outputs: 2, ..facts };
    assert_eq!(step(state, output, WindowInput::CloseRequested, two), WindowStep::Discard);
    assert!(state.panels.video);
    step(state, output, WindowInput::CloseRequested, facts);
    assert!(!state.panels.video);

    assert_eq!(
        window_event(state, None, &WindowInput::CloseRequested, &facts),
        WindowStep::Nothing
    );
}

#[test]
fn the_file_of_a_video_is_found_by_its_number() {
    let clip = |path: &str| CueKind::Video {
        path: path.into(),
        start_time: double(0.0),
        duration: double(0.0),
        volume: single(1.0),
        pan: single(0.0),
        fade_in: single(0.0),
        fade_out: single(0.0),
        fade_type: FadeType::Linear,
        follow_mtc: false,
        mtc_start: double(0.0),
    };
    let cues = vec![cue(1, "d", CueKind::Dummy), cue(2, "v", clip("a.mov"))];
    assert_eq!(video_path(&cues, &Qid::new(2, 0)).as_deref(), Some("a.mov"));
    assert_eq!(video_path(&cues, &Qid::new(1, 0)), None);
}

#[test]
fn a_stop_reaches_only_its_own_cue() {
    let mut d = deck();
    let mut lights = LightingEngine::new();
    d.show_text(Qid::new(3, 0), true);
    d.start_pixmap(Qid::new(4, 0));
    d.show_image(Qid::new(5, 0));
    let mut stop = |d: &mut VideoDeck, qid: i64, mode, engine_video| {
        let action = EngineAction::StopExternal {
            qid: Qid::new(qid, 0),
            mode,
            fade_out: single(0.0),
            fade_type: FadeType::Linear,
        };
        let mut state = SharedState::new();
        match apply_engine_action(
            &mut state,
            d,
            &mut lights,
            action,
            &Table::new(),
            engine_video,
            8,
            NOW,
        ) {
            Ok(ActionStep::Canvas(wish)) => wish,
            _ => unreachable!(),
        }
    };
    assert!(!stop(&mut d, 9, StopMode::Immediate, None).clear_overlay);
    assert!(stop(&mut d, 3, StopMode::LoopEnd, None).clear_overlay);
    assert_eq!(d.current_text, None);
    assert!(!stop(&mut d, 4, StopMode::LoopEnd, None).blank_pixmap);
    assert_eq!(d.current_pixmap, Some(Qid::new(4, 0)));
    assert!(stop(&mut d, 4, StopMode::Immediate, None).blank_pixmap);
    assert_eq!(d.current_pixmap, None);
    // A picture that the engine plays is the engine's to stop.
    stop(&mut d, 5, StopMode::Immediate, Some(Qid::new(5, 0)));
    assert_eq!(d.current_qid, Some(Qid::new(5, 0)));
    stop(&mut d, 5, StopMode::Immediate, None);
    assert_eq!(d.current_qid, None);
}

fn decoded() -> VideoDiagnostics {
    VideoDiagnostics {
        path: "clip.mov".into(),
        width: 1920,
        height: 1080,
        decode_path: "software".into(),
        fallback_reason: Some("no device".into()),
        timings: VideoTimings::default(),
    }
}

#[test]
fn a_stopped_picture_is_no_longer_told_of() {
    let mut d = deck();
    let mut lights = LightingEngine::new();
    let mut state = SharedState::new();
    let mut stop = |state: &mut SharedState, d: &mut VideoDeck, secs: f32| {
        let action = EngineAction::StopVideo { fade_out: single(secs) };
        let samples = Table::new();
        assert!(apply_engine_action(state, d, &mut lights, action, &samples, None, 8, NOW).is_ok());
    };
    state.diagnostics.video = Some(decoded());
    stop(&mut state, &mut d, 2.0);
    assert!(state.diagnostics.video.is_some());
    stop(&mut state, &mut d, 0.0);
    assert!(state.diagnostics.video.is_none());
}

#[test]
fn a_failed_video_stays_in_the_diagnostics() {
    let mut d = deck();
    let mut state = SharedState::new();
    state.diagnostics.video = Some(decoded());
    let kept = give_up_video(&mut state, "clip.mov", NOW);
    assert_eq!(
        state.operator_alert.as_ref().unwrap().message,
        "Video stopped: 'clip.mov' could not be read. Check the file and its storage."
    );
    d.stop_video_playback(&mut state, 9);
    assert!(state.diagnostics.video.is_none());
    keep_failed_video(&mut state, kept);
    let video = state.diagnostics.video.as_ref().unwrap();
    assert_eq!((video.path.as_str(), video.width), ("clip.mov", 1920));
    assert_eq!(video.fallback_reason.as_deref(), Some("no device"));
    let none = give_up_video(&mut SharedState::new(), "clip.mov", NOW);
    keep_failed_video(&mut state, none);
    assert!(state.diagnostics.video.is_some());
}
