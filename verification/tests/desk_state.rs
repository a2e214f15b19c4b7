//! What the desk holds: the project, its selection, its history and the cards.

use cuepool::commands::{apply_project_import, step_selection, SelectionStep};
use cuepool::desk::{
    discard_message, waveform_path, waveform_shown, DeskWindow, ImportFrame, Keys, MenuItem,
    QuitChoice, SettingsFrame, WaveformShown,
};
use cuepool::diagnostics::{
    video_status_badge, DecodeTiming, Diagnostics, OutputDiagnostics, Rgb, SystemFacts, TimingTexts,
    VideoDiagnostics, VideoTimings,
};
use cuepool::frame::FrameInput;
use cuepool::identity_card::LAUNCH_HOLD;
use cuepool::ieee::{Double, Single};
use cuepool::path::FilePath;
use cuepool::project::{
    check_unattended_file, check_unattended_path, prepare_unattended_project, step_failed,
    CuePoolApp, FileStep, PreparedProject, ProjectFile, ProjectText, MAX_AUTOMATION_PROJECT_BYTES,
};
use cuepool::qid::Qid;
use cuepool::show::{
    AudioOutputDriver, Cue, CueBase, CueKind, CueTriggers, FadeType, LoopMode, RemoteNode,
    ShowFile, TriggerMode,
};
use cuepool::state::{
    audio_driver_command, AppCommand, ImportSections, SharedState, RECENT_FILES,
    RELEASE_NOTES_VERSION,
};
use cuepool::undo::{Snapshot, UndoRedo};

const SECOND: u64 = 1_000_000_000;

fn base(qid: Qid, name: &str) -> CueBase {
    CueBase {
        qid,
        parent: None,
        name: name.to_string(),
        enabled: true,
        trigger: TriggerMode::Go,
        loop_mode: LoopMode::OneShot,
        loop_count: 0,
        triggers: CueTriggers { hotkey: None, midi: None, wall_clock: None, timecode: None },
    }
}

fn dummy(qid: Qid) -> Cue {
    Cue { base: base(qid, ""), kind: CueKind::Dummy, extra: 0 }
}

fn double(x: f64) -> Double {
    Double { bits: x.to_bits() }
}

fn single(x: f32) -> Single {
    Single { bits: x.to_bits() }
}

fn sound(qid: Qid, name: &str, path: &str, seconds: f64) -> Cue {
    Cue {
        base: base(qid, name),
        kind: CueKind::Sound {
            path: path.to_string(),
            start_time: double(0.0),
            duration: double(seconds),
            volume: single(0.0),
            pan: single(0.0),
            fade_in: single(0.0),
            fade_out: single(0.0),
            fade_type: FadeType::Linear,
        },
        extra: 0,
    }
}

fn file(text: &str) -> FilePath {
    FilePath { text: text.to_string(), key: text.to_string() }
}

fn prepared(path: &str, file_len: u64, modified: Option<u64>) -> PreparedProject {
    PreparedProject { path: file(path), show: ShowFile::default(), file_len, modified }
}

fn no_timings() -> TimingTexts {
    TimingTexts {
        decode: "0.00 ms".to_string(),
        hw_transfer: "0.00 ms".to_string(),
        plane_copy: "0.00 ms".to_string(),
        upload: "0.00 ms".to_string(),
        conversion_submit: "0.00 ms".to_string(),
    }
}

#[test]
fn release_notes_match_the_release() {
    const PACKAGE_MINOR: &str = "0.13";
    assert_eq!(
        RELEASE_NOTES_VERSION, PACKAGE_MINOR,
        "the \"What's new\" copy still describes {RELEASE_NOTES_VERSION}; \
         rewrite it for {PACKAGE_MINOR}, then bump RELEASE_NOTES_VERSION"
    );
}

#[test]
fn video_badge_separates_acceleration_from_fallback() {
    const HEALTHY: Rgb = Rgb { r: 100, g: 220, b: 100 };
    const DEGRADED: Rgb = Rgb { r: 240, g: 190, b: 90 };
    let diag = |decode_path: &str, fallback: Option<&str>| VideoDiagnostics {
        path: "clip.mov".into(),
        width: 1920,
        height: 1080,
        decode_path: decode_path.into(),
        fallback_reason: fallback.map(str::to_owned),
        timings: VideoTimings::default(),
    };

    let badge = video_status_badge(None);
    assert_eq!(badge.label, "Video: idle");
    assert!(!badge.tip.contains("Fell back"));

    for path in [
        "hap gpu-native",
        "d3d12va zero-copy (Radeon Pro W5700)",
        "hardware (videotoolbox)",
    ] {
        let d = diag(path, None);
        assert!(d.accelerated(), "{path} should count as accelerated");
        let badge = video_status_badge(Some(&d));
        assert_eq!(badge.label, format!("Video: {path}"));
        assert_eq!(badge.colour, HEALTHY, "{path} should read healthy");
    }

    let software = diag("software", None);
    assert!(!software.accelerated());
    let badge = video_status_badge(Some(&software));
    assert_eq!(badge.label, "Video: software ⚠");
    assert_eq!(badge.colour, DEGRADED);
    assert!(badge.tip.contains("Decoding on the CPU"));

    let fell_back = diag("d3d11va readback", Some("shareable D3D12VA pool rejected"));
    assert!(fell_back.accelerated());
    let badge = video_status_badge(Some(&fell_back));
    assert_eq!(badge.label, "Video: d3d11va readback ⚠");
    assert_eq!(badge.colour, DEGRADED);
    assert!(badge.tip.contains("Fell back: shareable D3D12VA pool rejected"));
    assert!(!badge.tip.contains("Decoding on the CPU"));
}

#[test]
fn decode_timing_clones_share_the_latest_sample() {
    let timing = DecodeTiming::default();
    let snapshot = timing.clone();
    timing.set_ms(double(4.2));

    assert_eq!(snapshot.get_ms(), double(4.2));
}

#[test]
fn a_timing_starts_at_its_sample() {
    assert_eq!(DecodeTiming::from_ms(double(1.5)).get_ms(), double(1.5));
    assert_eq!(DecodeTiming::default().get_ms(), double(0.0));
}

#[test]
fn test_shared_state_default() {
    let state = SharedState::new();
    assert!(state.show_file.cues.is_empty());
    assert_eq!(state.selected_cue_id, None);
}

#[test]
fn unattended_open_refuses_to_discard_dirty_state() {
    let mut app = CuePoolApp::new();
    app.state.dirty = true;

    assert_eq!(
        app.open_project_unattended(
            Err("failed to resolve '/missing.qproj': No such file".into()),
            Err("No such file".into()),
        ),
        Err("current project has unsaved changes".into())
    );
}

#[test]
fn unattended_open_rejects_non_regular_paths() {
    let mut app = CuePoolApp::new();
    let refused = check_unattended_path(true, None, true);
    assert_eq!(refused, Err("project path must name a .qproj file".into()));

    assert_eq!(
        app.open_project_unattended(Err(refused.unwrap_err()), Err(String::new())),
        Err("project path must name a .qproj file".into())
    );
}

#[test]
fn every_unattended_refusal_has_its_reason() {
    assert_eq!(
        check_unattended_path(false, Some("qproj"), true),
        Err("project path must be absolute".into())
    );
    assert_eq!(
        check_unattended_path(true, Some("qproj"), false),
        Err("project path must use a local drive".into())
    );
    assert_eq!(check_unattended_path(true, Some("QPROJ"), true), Ok(()));
    assert_eq!(
        check_unattended_file(false, 1),
        Err("project path must name a regular file".into())
    );
    assert_eq!(check_unattended_file(true, MAX_AUTOMATION_PROJECT_BYTES), Ok(()));
    assert_eq!(
        check_unattended_file(true, MAX_AUTOMATION_PROJECT_BYTES + 1),
        Err("project exceeds the 16 MiB automation limit".into())
    );
    assert_eq!(
        step_failed(FileStep::Open, "/show.qproj", "denied"),
        "failed to open '/show.qproj': denied"
    );
    assert_eq!(
        step_failed(FileStep::Parse, "/show.qproj", "bad"),
        "failed to parse '/show.qproj': bad"
    );
}

#[test]
fn a_project_is_prepared_from_its_resolved_file() {
    let inspected = |len, text| ProjectFile::Inspected {
        canonical: file("/real/show.qproj"),
        is_file: true,
        len,
        modified: Some(7),
        text,
    };
    let prepare =
        |found| prepare_unattended_project("/show.qproj", true, Some("qproj"), true, found);
    let refused = |found| prepare(found).map(|_| ()).unwrap_err();

    let read = |len| ProjectText::Read { len, show: Ok(ShowFile::default()) };
    let project = prepare(inspected(120, read(120))).ok().unwrap();
    assert_eq!(project.path.text, "/real/show.qproj");
    assert_eq!((project.file_len, project.modified), (120, Some(7)));

    assert_eq!(
        refused(ProjectFile::Unresolved("gone".into())),
        "failed to resolve '/show.qproj': gone"
    );
    assert_eq!(
        refused(inspected(120, ProjectText::Unread("broken".into()))),
        "failed to read '/real/show.qproj': broken"
    );
    // The file grew while it was read.
    assert_eq!(
        refused(inspected(120, read(MAX_AUTOMATION_PROJECT_BYTES + 1))),
        "project exceeds the 16 MiB automation limit"
    );
    let bad = ProjectText::Read { len: 120, show: Err("eof".into()) };
    assert_eq!(refused(inspected(120, bad)), "failed to parse '/real/show.qproj': eof");
    let named = prepare_unattended_project(
        "show.qproj",
        false,
        Some("qproj"),
        true,
        ProjectFile::Unresolved("gone".into()),
    );
    assert_eq!(named.map(|_| ()), Err("project path must be absolute".into()));
}

#[test]
fn cue_selection_reuses_the_validated_app_path() {
    let mut show = ShowFile::default();
    show.cues.push(dummy(Qid::new(15, 1)));
    let mut app = CuePoolApp::with_show_file(show, None);

    assert!(app.select_cue(Qid::new(15, 1)).is_ok());
    assert_eq!(app.state().selected_cue_id, Some(Qid::new(15, 1)));
    assert_eq!(app.select_cue(Qid::new(2, 0)), Err("cue Q2 not found".into()));
}

#[test]
fn unattended_open_rejects_a_file_changed_after_preparation() {
    let mut app = CuePoolApp::new();
    assert_eq!(
        app.apply_unattended_project(prepared("/show.qproj", 120, Some(7)), Ok((121, Some(7)))),
        Err("project changed after validation; submit the command again".into())
    );
    assert_eq!(
        app.apply_unattended_project(prepared("/show.qproj", 120, Some(7)), Ok((120, Some(8)))),
        Err("project changed after validation; submit the command again".into())
    );
    assert_eq!(
        app.apply_unattended_project(prepared("/show.qproj", 120, Some(7)), Err("gone".into())),
        Err("project changed after validation; failed to inspect '/show.qproj': gone".into())
    );
    assert!(app.state().project_path.is_none());
}

#[test]
fn an_unchanged_project_opens_unattended() {
    let mut app = CuePoolApp::new();
    app.state.selected_cue_id = Some(Qid::new(1, 0));
    assert_eq!(
        app.open_project_unattended(
            Ok(prepared("/show.qproj", 120, Some(7))),
            Ok((120, Some(7))),
        ),
        Ok(())
    );
    assert_eq!(app.state().project_path.as_ref().map(|p| p.text.as_str()), Some("/show.qproj"));
    assert_eq!(app.state().recent_files.len(), 1);
    assert!(!app.state().dirty);
}

#[test]
fn selection_steps_by_list_position_and_clamps() {
    let cues = vec![dummy(Qid::new(9, 0)), dummy(Qid::new(15, 1)), dummy(Qid::new(4, 0))];

    assert_eq!(step_selection(&vec![], None, SelectionStep::Next), None);
    assert_eq!(step_selection(&cues, None, SelectionStep::Next), Some(Qid::new(9, 0)));
    assert_eq!(step_selection(&cues, None, SelectionStep::Previous), Some(Qid::new(4, 0)));
    assert_eq!(
        step_selection(&cues, Some(Qid::new(9, 0)), SelectionStep::Previous),
        Some(Qid::new(9, 0))
    );
    assert_eq!(
        step_selection(&cues, Some(Qid::new(4, 0)), SelectionStep::Next),
        Some(Qid::new(4, 0))
    );
    assert_eq!(
        step_selection(&cues, Some(Qid::new(9, 0)), SelectionStep::Next),
        Some(Qid::new(15, 1))
    );
    assert_eq!(
        step_selection(&cues, Some(Qid::new(4, 0)), SelectionStep::Previous),
        Some(Qid::new(15, 1))
    );
    assert_eq!(
        step_selection(&cues, Some(Qid::new(15, 1)), SelectionStep::First),
        Some(Qid::new(9, 0))
    );
    assert_eq!(
        step_selection(&cues, Some(Qid::new(15, 1)), SelectionStep::Last),
        Some(Qid::new(4, 0))
    );
}

#[test]
fn launch_card_runs_for_its_full_duration_from_first_render() {
    let mut app = CuePoolApp::new();

    assert_eq!(app.cards.launch_card_timing(10 * SECOND), Some((0, LAUNCH_HOLD)));
    assert_eq!(app.cards.launch_card_timing(12_400_000_000), None);
    assert!(app.cards.launched_at.is_none());
}

#[test]
fn a_loaded_project_skips_the_launch_card_but_keeps_about_available() {
    let mut app = CuePoolApp::with_show_file(ShowFile::default(), None);

    assert_eq!(app.cards.launch_card_timing(10 * SECOND), None);
    assert!(!app.about_requested());
    app.state.panels.about = true;
    assert!(app.about_requested());
}

#[test]
fn test_generate_large_show_file() {
    let mut show = ShowFile::default();
    for i in 0..500i64 {
        show.cues.push(sound(
            Qid::new(i + 1, 0),
            &format!("Cue {}", i + 1),
            &format!("/audio/cue_{}.wav", i + 1),
            10.0,
        ));
    }
    assert_eq!(show.cues.len(), 500);
}

#[test]
fn selecting_current_audio_driver_is_a_no_op() {
    let current = AudioOutputDriver::ASIO;
    assert!(audio_driver_command(current, current).is_none());
    assert!(matches!(
        audio_driver_command(current, AudioOutputDriver::WASAPI),
        Some(AppCommand::SetAudioDriver(AudioOutputDriver::WASAPI))
    ));
}

#[test]
fn diagnostics_start_with_every_rate_at_zero() {
    let d = Diagnostics::default();
    let rates = [
        &d.presented_per_sec,
        &d.starved_per_sec,
        &d.uploads_per_sec,
        &d.dropped_per_sec,
        &d.event_loop_per_sec,
    ];
    assert!(rates.iter().all(|rate| *rate == "0"));
    assert!(d.log_file.is_empty() && d.outputs.is_empty() && d.video.is_none());
    assert!(d.to_text(&no_timings()).contains("Event Loop/s: 0"));
}

#[test]
fn the_system_is_taken_down_once_it_is_known() {
    let mut d = Diagnostics { log_file: "/logs/a.log".into(), ..Default::default() };
    d.note_system(SystemFacts {
        app_version: "0.13.0".into(),
        os: "linux".into(),
        arch: "x86_64".into(),
        gpu_name: "card".into(),
        gpu_backend: "Vulkan".into(),
        gpu_driver: "driver".into(),
        gpu_driver_info: "1.2".into(),
        ffmpeg: 59 << 16 | 39 << 8 | 100,
        overrides: vec![("RUST_LOG".into(), "debug".into())],
    });
    assert_eq!(d.ffmpeg_version, "libavutil 59.39.100");
    assert_eq!(d.env_overrides, [("RUST_LOG".to_string(), "debug".to_string())]);
    assert_eq!((d.os.as_str(), d.log_file.as_str()), ("linux", "/logs/a.log"));
}

#[test]
fn a_take_is_handed_to_the_editor_once() {
    let mut app = CuePoolApp::new();
    app.state.open_take_editor = Some("takes/one.dmxrec".into());
    let first = app.update(idle_frame(), SECOND);
    assert_eq!(first.take.as_deref(), Some("takes/one.dmxrec"));
    assert_eq!(app.state().open_take_editor, None);
    assert_eq!(app.update(idle_frame(), SECOND).take, None);
}

#[test]
fn diagnostics_include_the_persistent_log_path() {
    let diagnostics = Diagnostics {
        log_file: "C:/CuePool/cuepool.log".into(),
        ..Default::default()
    };

    assert!(diagnostics.sections(&no_timings())[0]
        .1
        .contains(&("Log File".into(), "C:/CuePool/cuepool.log".into())));
    assert!(diagnostics
        .to_text(&no_timings())
        .contains("Log File: C:/CuePool/cuepool.log"));
}

#[test]
fn diagnostics_list_every_output() {
    let output = |name: &str, fullscreen: bool| OutputDiagnostics {
        name: name.into(),
        size: (1920, 1080),
        present_mode: "Fifo".into(),
        format: "Bgra8UnormSrgb".into(),
        refresh: "60.00 Hz".into(),
        fullscreen,
        presented_per_sec: "60".into(),
    };
    let diagnostics = Diagnostics {
        outputs: vec![output("Left", true), output("Right", false)],
        env_overrides: vec![("CUEPOOL_HAP".into(), "0".into())],
        ..Default::default()
    };
    let text = diagnostics.to_text(&no_timings());
    assert!(text.contains("Left"));
    assert!(text.contains("Right"));
    assert!(text.contains("1920"));
    assert!(text.contains("CUEPOOL_HAP"));
}

#[test]
fn settings_only_import_applies_audio_without_project_reset() {
    let mut state = SharedState::new();
    state.project_generation = 7;
    let mut imported = ShowFile::default();
    imported.show_settings.audio_output_driver = AudioOutputDriver::ASIO;
    imported.show_settings.audio_output_device = "Dante Virtual Soundcard (x64)".into();

    apply_project_import(
        &mut state,
        imported,
        ImportSections { projection: false, lighting: false, show_settings: true },
    );

    assert_eq!(state.project_generation, 7);
    assert!(state
        .command_queue
        .iter()
        .any(|command| matches!(command, AppCommand::ApplyAudioSettings)));
    assert_eq!(state.show_file.show_settings.audio_output_driver, AudioOutputDriver::ASIO);
    assert!(state.undo_redo.can_undo());
    assert!(state.dirty);
}

#[test]
fn undo_queues_audio_apply_when_output_settings_change() {
    let mut state = SharedState::new();
    state.show_file.show_settings.audio_output_driver = AudioOutputDriver::ASIO;
    state.show_file.show_settings.audio_output_device = "ASIO device".into();
    let before = Snapshot::from_state(&state);
    state.undo_redo.push(before);
    state.show_file.show_settings.audio_output_driver = AudioOutputDriver::WASAPI;
    state.show_file.show_settings.audio_output_device = "WASAPI device".into();

    let current = Snapshot::from_state(&state);
    state.undo_redo.undo(current).unwrap().apply(&mut state);

    assert_eq!(state.show_file.show_settings.audio_output_driver, AudioOutputDriver::ASIO);
    assert!(state
        .command_queue
        .iter()
        .any(|command| matches!(command, AppCommand::ApplyAudioSettings)));
}

#[test]
fn test_undo_redo() {
    let mut state = SharedState::new();
    state.show_file.cues.push(sound(Qid::new(1, 0), "First", "/audio/first.wav", 0.0));

    let s1 = Snapshot::from_state(&state);
    state.undo_redo.push(s1);
    state.show_file.cues.push(sound(Qid::new(2, 0), "Second", "/audio/second.wav", 0.0));
    assert_eq!(state.show_file.cues.len(), 2);

    let current = Snapshot::from_state(&state);
    let prev = state.undo_redo.undo(current).unwrap();
    prev.apply(&mut state);
    assert_eq!(state.show_file.cues.len(), 1);
    assert_eq!(state.show_file.cues[0].base.name, "First");

    let current = Snapshot::from_state(&state);
    let next = state.undo_redo.redo(current).unwrap();
    next.apply(&mut state);
    assert_eq!(state.show_file.cues.len(), 2);
    assert_eq!(state.show_file.cues[1].base.name, "Second");
}

#[test]
fn the_history_is_bounded_and_can_be_suspended() {
    let state = SharedState::new();
    let mut history = UndoRedo::new(2);
    history.set_suppress(true);
    history.push(Snapshot::from_state(&state));
    assert!(!history.can_undo());
    history.set_suppress(false);
    for _ in 0..5 {
        history.push(Snapshot::from_state(&state));
    }
    assert!(history.undo(Snapshot::from_state(&state)).is_some());
    assert!(history.undo(Snapshot::from_state(&state)).is_some());
    assert!(history.undo(Snapshot::from_state(&state)).is_none());
    assert!(history.can_redo());
    history.push(Snapshot::from_state(&state));
    assert!(!history.can_redo());
}

#[test]
fn recent_files_are_few_distinct_and_newest_first() {
    let mut state = SharedState::new();
    for i in 0..12 {
        state.push_recent_file(&file(&format!("/show{i}.qproj")));
    }
    state.push_recent_file(&file("/show5.qproj"));
    assert_eq!(state.recent_files.len(), RECENT_FILES);
    assert_eq!(state.recent_files[0].text, "/show5.qproj");
    assert_eq!(state.recent_files.iter().filter(|p| p.text == "/show5.qproj").count(), 1);
}

#[test]
fn a_file_that_does_not_parse_changes_nothing() {
    let mut state = SharedState::new();
    assert_eq!(
        state.load_show_file(&file("/bad.qproj"), Err("expected value".into())),
        Err("expected value".into())
    );
    assert!(state.project_path.is_none());
    assert!(state.recent_files.is_empty());
}

fn idle_frame() -> FrameInput {
    FrameInput {
        keys: no_keys(),
        keyboard_wanted: false,
        keyboard_at_end: false,
        picked: None,
        menu: None,
        alert_dismissed: false,
        settings: None,
        closed: Vec::new(),
        quit: None,
        quit_closed: false,
        discard: None,
        import: None,
        notes_read: false,
        pressed: false,
        card_closed: false,
    }
}

fn no_keys() -> Keys {
    Keys {
        command: false,
        shift: false,
        alt: false,
        bare: true,
        n: false,
        o: false,
        s: false,
        d: false,
        t: false,
        z: false,
        delete: false,
        backspace: false,
        up: false,
        down: false,
        home: false,
        end: false,
        space: false,
        escape: false,
    }
}

#[test]
fn the_key_that_skips_the_card_runs_nothing() {
    let mut app = CuePoolApp::new();
    let space = || FrameInput { keys: Keys { space: true, ..no_keys() }, ..idle_frame() };
    let first = app.update(FrameInput { pressed: true, ..space() }, SECOND);
    assert_eq!(first.launch, Some((0, LAUNCH_HOLD)));
    assert!(app.state().command_queue.is_empty());

    // The release notes come next, and are as much in the way.
    let second = app.update(space(), 2 * SECOND);
    assert!(second.launch.is_none() && second.release_notes);
    assert!(app.state().command_queue.is_empty());
    app.update(FrameInput { notes_read: true, ..idle_frame() }, 2 * SECOND);
    let third = app.update(space(), 3 * SECOND);
    assert!(!third.release_notes);
    assert!(matches!(app.state().command_queue.as_slice(), [AppCommand::Go]));
}

#[test]
fn escape_that_ends_an_edit_does_not_stop_the_show() {
    let mut app = CuePoolApp::with_show_file(ShowFile::default(), None);
    app.update(FrameInput { keyboard_at_end: true, ..idle_frame() }, SECOND);
    let escape = || FrameInput { keys: Keys { escape: true, ..no_keys() }, ..idle_frame() };
    app.update(escape(), SECOND);
    assert!(app.state().command_queue.is_empty());
    app.update(escape(), SECOND);
    assert!(matches!(app.state().command_queue.as_slice(), [AppCommand::Stop]));
}

#[test]
fn only_questions_on_screen_are_answered() {
    let mut app = CuePoolApp::with_show_file(ShowFile::default(), None);
    let drop_it = || FrameInput { quit: Some(QuitChoice::Discard), ..idle_frame() };
    app.update(drop_it(), SECOND);
    assert!(!app.state().quit);
    app.state.pending_close_confirm = true;
    let kept = app.update(FrameInput { quit: Some(QuitChoice::Save), ..idle_frame() }, SECOND);
    assert!(kept.save && !app.state().quit);
    app.update(FrameInput { quit_closed: true, ..idle_frame() }, SECOND);
    assert!(!app.state().pending_close_confirm && !app.state().quit);
    app.state.pending_close_confirm = true;
    app.update(drop_it(), SECOND);
    assert!(app.state().quit);
}

#[test]
fn the_settings_window_is_taken_over() {
    let mut app = CuePoolApp::with_show_file(ShowFile::default(), None);
    let node = |name: &str| RemoteNode {
        name: name.into(),
        address: "10.0.0.1".into(),
        last_seen: None,
        extra: 0,
    };
    app.state.show_file.remote_nodes = vec![node("a"), node("b"), node("c"), node("d")];
    app.state.panels.settings = true;
    let mut settings = app.state().show_file.show_settings.clone();
    settings.node_name = "booth".into();
    let current = settings.audio_output_driver;
    let frame = |settings, driver, forget| FrameInput {
        settings: Some(SettingsFrame {
            open: false,
            settings,
            changed: false,
            levels: true,
            driver: Some(driver),
            device: Some("Desk".into()),
            forget,
        }),
        ..idle_frame()
    };
    app.update(frame(settings.clone(), current, vec![0, 2]), SECOND);
    let state = app.state();
    let names: Vec<&str> =
        state.show_file.remote_nodes.iter().map(|node| node.name.as_str()).collect();
    assert_eq!(names, ["b", "d"]);
    assert_eq!(state.show_file.show_settings.node_name, "booth");
    assert!(state.dirty && !state.panels.settings);
    assert!(matches!(
        state.command_queue.as_slice(),
        [AppCommand::ApplyAudioSettings, AppCommand::SetAudioDevice(name)] if name == "Desk"
    ));

    // The window is closed: nothing more comes of it.
    app.state.command_queue.clear();
    app.update(frame(settings, AudioOutputDriver::ASIO, vec![0]), SECOND);
    assert!(app.state().command_queue.is_empty());
    assert_eq!(app.state().show_file.remote_nodes.len(), 2);
}

#[test]
fn the_about_card_closes_itself() {
    let mut app = CuePoolApp::with_show_file(ShowFile::default(), None);
    let open = MenuItem::Window(DeskWindow::About, true);
    let shown = app.update(FrameInput { menu: Some(open), ..idle_frame() }, SECOND);
    assert_eq!(shown.about, Some(0));
    assert_eq!(app.update(idle_frame(), 3 * SECOND).about, Some(2 * SECOND));
    app.update(FrameInput { card_closed: true, ..idle_frame() }, 4 * SECOND);
    assert_eq!(app.update(idle_frame(), 5 * SECOND).about, None);
    assert!(!app.state().panels.about);
}

#[test]
fn the_waveform_is_that_of_the_selected_sound() {
    let mut app = CuePoolApp::with_show_file(ShowFile::default(), None);
    assert_eq!(waveform_path(app.state()), None);
    app.state.show_file.cues = vec![
        dummy(Qid::new(1, 0)),
        sound(Qid::new(2, 0), "a", "/m/a.wav", 3.0),
    ];
    app.state.selected_cue_id = Some(Qid::new(1, 0));
    assert_eq!(waveform_path(app.state()), None);
    app.state.selected_cue_id = Some(Qid::new(2, 0));
    assert_eq!(waveform_path(app.state()), Some("/m/a.wav"));
    assert_eq!(waveform_shown(Some("/m/a.wav"), true), WaveformShown::Waveform);
    assert_eq!(waveform_shown(Some("/m/a.wav"), false), WaveformShown::Waiting);
    assert_eq!(waveform_shown(Some(""), true), WaveformShown::Nothing);
}

#[test]
fn the_selected_cue_can_be_changed() {
    let mut state = SharedState::default();
    assert!(state.selected_cue_mut().is_none());
    state.show_file.cues = vec![dummy(Qid::new(1, 0)), dummy(Qid::new(2, 0))];
    state.selected_cue_id = Some(Qid::new(20, 1));
    state.selected_cue_mut().unwrap().base.name = "blackout".into();
    assert_eq!(state.show_file.cues[1].base.name, "blackout");
    assert_eq!(state.show_file.cues[0].base.name, "");
}

#[test]
fn discarding_is_asked_in_words() {
    let mut app = CuePoolApp::with_show_file(ShowFile::default(), None);
    app.state.pending_discard_confirm = Some(AppCommand::NewProject);
    assert_eq!(
        discard_message(app.state()),
        "Discard the current project? Discard and continue?"
    );
    app.state.dirty = true;
    assert_eq!(
        discard_message(app.state()),
        "You have unsaved changes. Discard and continue?"
    );
    app.update(FrameInput { discard: Some(false), ..idle_frame() }, SECOND);
    assert!(app.state().pending_discard_confirm.is_none());
    assert!(app.state().command_queue.is_empty());

    app.state.pending_discard_confirm = Some(AppCommand::NewProject);
    app.update(FrameInput { discard: Some(true), ..idle_frame() }, SECOND);
    assert!(app.state().discard_confirmed);
    assert!(matches!(app.state().command_queue.as_slice(), [AppCommand::NewProject]));
    // The question is gone; another answer does nothing.
    app.update(FrameInput { discard: Some(true), ..idle_frame() }, SECOND);
    assert_eq!(app.state().command_queue.len(), 1);
}

#[test]
fn an_import_needs_something_ticked() {
    let mut app = CuePoolApp::with_show_file(ShowFile::default(), None);
    let menu = MenuItem::Import { name: "other".into(), show: ShowFile::default() };
    app.update(FrameInput { menu: Some(menu), ..idle_frame() }, SECOND);
    assert!(app.state().import_request.is_some());

    let nothing = ImportSections { projection: false, lighting: false, show_settings: false };
    let import = |sections| FrameInput {
        import: Some(ImportFrame::Import(sections, ShowFile::default())),
        ..idle_frame()
    };
    app.update(import(nothing), SECOND);
    assert!(app.state().import_request.is_some() && !app.state().dirty);
    let generation = app.state().project_generation;
    let lights = ImportSections { lighting: true, ..nothing };
    app.update(import(lights), SECOND);
    assert!(app.state().import_request.is_none() && app.state().dirty);
    assert_eq!(app.state().project_generation, generation + 1);
    assert!(app.state().command_queue.is_empty());
}
