//! What comes from outside: remote commands, the control interface, files.

use cuepool::control::{
    api_rejection, apply_api_command, audio_output_current, configured_audio_error,
    decoder_version_text, execute_show_control, note_audio_failed, note_audio_opened,
    osc_endpoints, process_api_command, select_command, show_control_is_active, Activity,
    ApiCommand, EngineWish, Playback, ShowControlCommand,
};
use cuepool::ieee::{Double, Single};
use cuepool::media::{
    dropped_kind, find_in_dir, handle_dropped_file, rasterize_text_block, resolve_path,
    text_font_family, Atlas, DirEntry, DroppedKind, FontChoice, Glyph, ProjectPlace,
};
use cuepool::pack::{
    common_path_prefix, pack_folder, pack_project, packed_map, packed_name, packed_path,
    packed_project_name, packed_to, referenced_files, MediaFile,
};
use cuepool::path::FilePath;
use cuepool::qid::{holds_qid, Qid};
use cuepool::remote::{
    discovery_due, is_remote_target_match, process_msc_event, process_osc_event, MscEvent,
    OscEvent, OscReply, DISCOVERY_NANOS,
};
use cuepool::show::{
    AudioOutputDriver, CanvasFit, Cue, CueBase, CueKind, CueTriggers, FadeType, LoopMode,
    TriggerMode,
};
use cuepool::state::{AppCommand, SharedState};
use cuepool::table::Table;
use cuepool::text::{
    join_of, lines_of, parse_number, push_decimal, same_text_ignoring_case, split_of, trim,
};

const SECOND: u64 = 1_000_000_000;
const NOW: u64 = 50 * SECOND;

fn double(x: f64) -> Double {
    Double { bits: x.to_bits() }
}

fn single(x: f32) -> Single {
    Single { bits: x.to_bits() }
}

fn base(qid: i64, name: &str) -> CueBase {
    CueBase {
        qid: Qid::new(qid, 0),
        parent: None,
        name: name.to_string(),
        enabled: true,
        trigger: TriggerMode::Go,
        loop_mode: LoopMode::OneShot,
        loop_count: 0,
        triggers: CueTriggers { hotkey: None, midi: None, wall_clock: None, timecode: None },
    }
}

fn image(qid: i64, path: &str) -> Cue {
    Cue {
        base: base(qid, "image"),
        kind: CueKind::Image { path: path.to_string(), fit: CanvasFit::Fit },
        extra: 0,
    }
}

fn dummy(qid: i64) -> Cue {
    Cue { base: base(qid, "dummy"), kind: CueKind::Dummy, extra: 0 }
}

fn file(text: &str) -> FilePath {
    FilePath { text: text.to_string(), key: text.to_string() }
}

fn stage() -> SharedState {
    let mut state = SharedState::new();
    state.show_file.cues = vec![dummy(1), image(2, "/m/a.png")];
    state
}

fn osc(state: &mut SharedState, ev: OscEvent) -> OscReply {
    process_osc_event(state, ev, false, false, false, NOW)
}

#[test]
fn a_number_that_names_no_cue_is_not_pointed_at() {
    let mut state = stage();
    osc(&mut state, OscEvent::Select { qid: "2".into() });
    assert_eq!(state.selected_cue_id, Some(Qid::new(2, 0)));
    osc(&mut state, OscEvent::Select { qid: "two".into() });
    assert_eq!(state.selected_cue_id, Some(Qid::new(2, 0)));
    osc(&mut state, OscEvent::Go { qid: Some("1".into()) });
    assert_eq!(state.selected_cue_id, Some(Qid::new(1, 0)));
    assert!(matches!(state.command_queue.as_slice(), [AppCommand::Go]));
}

#[test]
fn remote_transport_is_queued() {
    let mut state = stage();
    osc(&mut state, OscEvent::Stop);
    osc(&mut state, OscEvent::Pause);
    osc(&mut state, OscEvent::Unpause);
    osc(&mut state, OscEvent::Save);
    assert!(matches!(
        state.command_queue.as_slice(),
        [AppCommand::Stop, AppCommand::Pause, AppCommand::SaveProject]
    ));
    process_osc_event(&mut state, OscEvent::Unpause, true, false, false, NOW);
    assert_eq!(state.command_queue.len(), 4);
    let ping = osc(&mut state, OscEvent::RemotePing { src: "10.0.0.9".into() });
    assert!(matches!(ping, OscReply::Pong { to } if to == "10.0.0.9"));
    let live = osc(&mut state, OscEvent::DmxChannel { universe: 1, channel: 2, value: 3 });
    assert!(matches!(live, OscReply::LiveInput { universe: 1, channel: 1, value: 3 }));
}

#[test]
fn takes_are_chosen_by_a_bare_name() {
    let mut state = stage();
    let chosen = osc(&mut state, OscEvent::RecorderSelect { name: "act2".into() });
    assert!(matches!(chosen, OscReply::Nothing));
    assert_eq!(state.recorder_file, "act2.dmxrec");
    let refused = osc(&mut state, OscEvent::RecorderSelect { name: "../act2".into() });
    assert!(matches!(refused, OscReply::TakeRefused));
    assert_eq!(state.recorder_file, "act2.dmxrec");
    osc(&mut state, OscEvent::RecorderStop);
    process_osc_event(&mut state, OscEvent::RecorderStop, false, true, false, NOW);
    assert!(matches!(
        state.command_queue.as_slice(),
        [AppCommand::RecorderStopPreview, AppCommand::RecorderRecord { .. }]
    ));
}

#[test]
fn commands_for_other_nodes_are_left_alone() {
    let mut state = stage();
    state.show_file.show_settings.node_name = " stage-left ".into();
    assert!(is_remote_target_match(&state.show_file.show_settings, "stage-left"));
    assert!(is_remote_target_match(&state.show_file.show_settings, " * "));
    assert!(!is_remote_target_match(&state.show_file.show_settings, "Stage-Left"));
    osc(&mut state, OscEvent::RemoteGo { target: "stage-right".into(), qid: "2".into() });
    assert!(state.command_queue.is_empty());
    assert_eq!(state.selected_cue_id, None);
    osc(&mut state, OscEvent::RemoteGo { target: "stage-left".into(), qid: "2".into() });
    assert_eq!(state.selected_cue_id, Some(Qid::new(2, 0)));
    assert_eq!(state.command_queue.len(), 1);
}

#[test]
fn nodes_that_announce_themselves_are_kept() {
    let mut state = stage();
    let said = |name: &str| OscEvent::RemoteDiscovery {
        name: name.into(),
        addr: Some("10.0.0.7".into()),
    };
    osc(&mut state, said("foh"));
    osc(&mut state, said("booth"));
    osc(&mut state, said("foh"));
    let names: Vec<&str> =
        state.show_file.remote_nodes.iter().map(|n| n.name.as_str()).collect();
    assert_eq!(names, ["foh", "booth"]);
    assert_eq!(discovery_due(NOW, NOW + DISCOVERY_NANOS - 1), (false, NOW));
    assert_eq!(discovery_due(NOW, NOW + DISCOVERY_NANOS), (true, NOW + DISCOVERY_NANOS));
    assert_eq!(discovery_due(NOW, NOW - 1), (false, NOW));
}

#[test]
fn machine_control_speaks_the_same_language() {
    let mut state = stage();
    process_msc_event(&mut state, MscEvent::Go { qid: "2".into() });
    assert_eq!(state.selected_cue_id, Some(Qid::new(2, 0)));
    process_msc_event(&mut state, MscEvent::Stop);
    process_msc_event(&mut state, MscEvent::Other);
    assert!(matches!(state.command_queue.as_slice(), [AppCommand::Go, AppCommand::Stop]));
}

fn idle() -> Activity {
    Activity {
        cues: false,
        show_clock: false,
        engine_video: false,
        video: false,
        text: false,
        pending_decode: false,
        pixel_map: false,
        timecode_follow: false,
        recording: false,
        lighting: false,
    }
}

fn playback(activity: Activity, paused: bool) -> Playback {
    Playback {
        activity,
        paused,
        instances: vec![3],
        project: "show".into(),
        profile: "gallery".into(),
        seek_text: "4.500".into(),
    }
}

#[test]
fn a_running_show_is_not_shut_down() {
    let mut state = stage();
    let running = Activity { lighting: true, ..idle() };
    assert!(show_control_is_active(&running));
    assert!(!show_control_is_active(&idle()));
    let refused =
        execute_show_control(&mut state, ShowControlCommand::Shutdown, &playback(running, false));
    assert!(matches!(refused, Err(e) if e == "cues are active; stop playback before shutting down"));
    let taken =
        execute_show_control(&mut state, ShowControlCommand::Shutdown, &playback(idle(), false));
    assert!(matches!(taken, Ok((EngineWish::Shutdown, said)) if said == "profile 'gallery' accepted shutdown"));
}

#[test]
fn control_answers_name_what_they_did() {
    let mut state = stage();
    let seek = |instance_id| ShowControlCommand::Seek { instance_id, seconds: single(4.5) };
    let found = execute_show_control(&mut state, seek(3), &playback(idle(), false));
    assert!(matches!(found, Ok((EngineWish::Seek { .. }, said)) if said == "cue instance 3 seeked to 4.500s"));
    let lost = execute_show_control(&mut state, seek(8), &playback(idle(), false));
    assert!(matches!(lost, Err(e) if e == "cue instance 8 is not active"));
    let none =
        execute_show_control(&mut state, ShowControlCommand::Preload, &playback(idle(), false));
    assert!(matches!(none, Err(e) if e == "no cue is selected"));
    let go = execute_show_control(&mut state, ShowControlCommand::Go, &playback(idle(), false));
    assert!(matches!(go, Err(e) if e == "no cue is selected"));
    state.selected_cue_id = Some(Qid::new(1, 0));
    let go = execute_show_control(&mut state, ShowControlCommand::Go, &playback(idle(), false));
    assert!(matches!(go, Ok((EngineWish::Go, said)) if said == "GO applied"));
    let wrong =
        execute_show_control(&mut state, ShowControlCommand::Preload, &playback(idle(), false));
    assert!(matches!(wrong, Err(e) if e == "preload is not supported for cue Q1"));
}

#[test]
fn peers_are_answered_and_refused() {
    let mut state = stage();
    let number = || ApiCommand::SelectCue { qid: "1".into() };
    let quiet = playback(idle(), false);
    let late = process_api_command(&mut state, number(), false, &quiet, true);
    assert!(matches!(late, Err(e) if e == "shutdown is in progress"));
    assert_eq!(state.selected_cue_id, None);
    let taken = process_api_command(&mut state, number(), false, &quiet, false);
    assert!(matches!(taken, Ok((EngineWish::Nothing, said)) if said == "selected cue Q1"));
    assert_eq!(state.selected_cue_id, Some(Qid::new(1, 0)));
    let none = ApiCommand::SelectCue { qid: "99".into() };
    let missing = process_api_command(&mut state, none, false, &quiet, false);
    assert!(matches!(missing, Err(e) if e == "cue Q99 not found"));
    let paused = process_api_command(&mut state, ApiCommand::Resume, false, &quiet, false);
    assert!(matches!(paused, Err(e) if e == "playback is not paused"));
}

#[test]
fn interface_commands_carry_readable_numbers() {
    let selected = apply_api_command(ApiCommand::SelectCue { qid: "1.5".into() }, false);
    assert!(matches!(selected, Ok(ShowControlCommand::SelectCue(q)) if q == Qid::new(15, 1)));
    assert!(apply_api_command(ApiCommand::SelectCue { qid: "x".into() }, false).is_err());
    assert!(select_command("1", Ok(Qid::new(1, 0))).is_ok());
    assert!(select_command("1", Err("no".into())).is_err());
    assert!(apply_api_command(ApiCommand::OpenProject, true).is_ok());
    assert!(apply_api_command(ApiCommand::OpenProject, false).is_err());
    assert_eq!(api_rejection(false), None);
    assert!(api_rejection(true).is_some());
}

#[test]
fn the_audio_output_follows_the_settings() {
    let mut state = stage();
    state.show_file.show_settings.audio_output_driver = AudioOutputDriver::ASIO;
    state.show_file.show_settings.audio_output_device = "Dante".into();
    assert!(audio_output_current(&state, Some((AudioOutputDriver::ASIO, "Dante"))));
    assert!(!audio_output_current(&state, Some((AudioOutputDriver::ASIO, "Other"))));
    assert!(!audio_output_current(&state, None));
    note_audio_failed(&mut state, "ASIO", "Dante", "busy");
    assert_eq!(
        state.audio_error.as_deref(),
        Some(configured_audio_error("ASIO", "Dante", "busy").as_str())
    );
    note_audio_opened(&mut state, AudioOutputDriver::ASIO, "Dante".into());
    assert!(state.audio_error.is_none());
    assert_eq!(state.audio_device_name, "Dante");
}

#[test]
fn ports_of_host_and_remote_meet() {
    let (host_rx, host_tx) = osc_endpoints(9000, 8000, true, true);
    let (remote_rx, remote_tx) = osc_endpoints(9000, 8000, true, false);
    assert_eq!((host_rx, host_tx), (remote_tx, remote_rx));
    assert_eq!(osc_endpoints(9000, 8000, false, false), (9000, 8000));
    assert_eq!(decoder_version_text((61 << 16) | (3 << 8) | 100), "libavutil 61.3.100");
}

#[test]
fn dropped_files_are_told_apart_by_their_extension() {
    assert!(matches!(dropped_kind(Some("QPROJ")), DroppedKind::Project));
    assert!(matches!(dropped_kind(Some("MP4")), DroppedKind::Video));
    assert!(matches!(dropped_kind(Some("Wav")), DroppedKind::Audio));
    assert!(matches!(dropped_kind(Some("txt")), DroppedKind::Unsupported));
    assert!(matches!(dropped_kind(None), DroppedKind::Unsupported));
}

#[test]
fn a_dropped_clip_becomes_a_cue() {
    let mut state = stage();
    let drop = |state: &mut SharedState, ext: Option<&str>, stem: Option<&str>, path: &str| {
        handle_dropped_file(state, ext, stem, file(path), path.into(), Qid::new(3, 0))
    };
    assert!(drop(&mut state, Some("WAV"), Some("new"), "/m/new.WAV"));
    assert_eq!(state.show_file.cues.len(), 3);
    let cue = &state.show_file.cues[2];
    assert!(matches!(&cue.kind, CueKind::Sound { path, .. } if path == "/m/new.WAV"));
    assert_eq!(cue.base.name, "new");
    assert_eq!(cue.base.qid, Qid::new(3, 0));
    assert!(state.undo_redo.can_undo());
    assert!(!drop(&mut state, Some("txt"), Some("new"), "/m/new.txt"));
    assert_eq!(state.show_file.cues.len(), 3);
    assert!(drop(&mut state, Some("mov"), None, "/m/.mov"));
    assert_eq!(state.show_file.cues[3].base.name, "Dropped");
    assert!(drop(&mut state, Some("QPROJ"), Some("show"), "/m/show.QPROJ"));
    assert!(matches!(state.command_queue.as_slice(), [AppCommand::OpenProject { .. }]));
}

#[test]
fn media_is_looked_for_in_order() {
    let file = |name: &str, path: &str| DirEntry::File { name: name.into(), path: path.into() };
    let tree = || {
        vec![
            DirEntry::Unreadable,
            DirEntry::Directory { listed: false, entries: vec![file("a.wav", "/p/x/a.wav")] },
            DirEntry::Directory {
                listed: true,
                entries: vec![DirEntry::Unreadable, file("a.wav", "/p/broken/a.wav")],
            },
            DirEntry::Directory {
                listed: true,
                entries: vec![
                    DirEntry::Other,
                    DirEntry::Directory { listed: true, entries: vec![file("a.wav", "/p/m/n/a.wav")] },
                ],
            },
            file("a.wav", "/p/a.wav"),
        ]
    };
    let place = |relative_exists, name: Option<&str>| {
        Some(ProjectPlace {
            relative: "/p/sub/a.wav".into(),
            relative_exists,
            file_name: name.map(str::to_owned),
            entries: Some(tree()),
        })
    };
    let found = |here, project| resolve_path("sub/a.wav", here, &project);
    assert_eq!(found(true, place(true, None)).as_deref(), Some("sub/a.wav"));
    assert_eq!(found(false, place(true, None)).as_deref(), Some("/p/sub/a.wav"));
    assert_eq!(found(false, place(false, Some("a.wav"))).as_deref(), Some("/p/m/n/a.wav"));
    assert_eq!(found(false, place(false, Some("b.wav"))), None);
    assert_eq!(found(false, place(false, None)), None);
    assert_eq!(found(false, None), None);
    // Behind an entry that cannot be read a directory is not searched.
    assert_eq!(find_in_dir(&tree(), "a.wav"), None);
    assert!(matches!(text_font_family("", false), FontChoice::BuiltIn));
    assert!(matches!(text_font_family("a.ttf", true), FontChoice::Known));
    assert!(matches!(text_font_family("a.ttf", false), FontChoice::Load));
}

#[test]
fn glyphs_are_laid_into_the_picture() {
    let atlas = Atlas { width: 2, height: 1, coverage: vec![0, 255] };
    let glyph = Glyph { min_x: 0, min_y: 0, max_x: 2, max_y: 1, left: 1, top: 0 };
    let alpha: Vec<u8> = (0..=255).collect();
    let picture = rasterize_text_block(3, 1, &vec![glyph], &atlas, (9, 8, 7), &alpha);
    assert_eq!((picture.width, picture.height), (3, 1));
    assert_eq!(&picture.rgba[8..12], &[9, 8, 7, 255]);
    assert_eq!(&picture.rgba[0..4], &[0, 0, 0, 0]);
}

fn media(parts: &[&str]) -> MediaFile {
    MediaFile {
        original: parts.join("/"),
        parts: parts.iter().map(|p| p.to_string()).collect(),
        root: parts.iter().take_while(|p| p.ends_with(':') || **p == "\\" || **p == "/").count(),
        leaf: parts[parts.len() - 1].to_string(),
        name: parts[parts.len() - 1].to_string(),
    }
}

#[test]
fn packed_files_are_kept_apart() {
    let files = vec![media(&["a", "x", "clip.mov"]), media(&["a", "y", "clip.mov"])];
    let first = packed_to(&files, 0);
    let second = packed_to(&files, 1);
    assert_eq!(first, ["Media", "x", "clip.mov"]);
    assert_eq!(second, ["Media", "y", "clip.mov"]);
}

#[test]
fn files_of_one_name_on_several_drives_are_kept_apart() {
    let files = vec![
        media(&["C:", "\\", "a", "clip.mov"]),
        media(&["D:", "\\", "a", "clip.mov"]),
        media(&["E:", "\\", "clip.mov"]),
        media(&["D:", "\\", "b", "clip.mov"]),
        media(&["F:", "\\", "still.png"]),
    ];
    assert_eq!(common_path_prefix(&files, "clip.mov"), Vec::<String>::new());
    assert_eq!(packed_to(&files, 0), ["Media", "root-1", "a", "clip.mov"]);
    assert_eq!(packed_to(&files, 1), ["Media", "root-2", "a", "clip.mov"]);
    assert_eq!(packed_to(&files, 2), ["Media", "root-3", "clip.mov"]);
    assert_eq!(packed_to(&files, 3), ["Media", "root-2", "b", "clip.mov"]);
    assert_eq!(packed_to(&files, 4), ["Media", "still.png"]);
    let alone = vec![media(&["/", "m", "clip.mov"]), media(&["/", "n", "still.png"])];
    assert_eq!(packed_to(&alone, 0), ["Media", "clip.mov"]);
}

#[test]
fn an_absolute_and_a_relative_file_have_no_directory_in_common() {
    let files = vec![media(&["/", "a", "x.wav"]), media(&["b", "x.wav"])];
    assert_eq!(common_path_prefix(&files, "x.wav"), Vec::<String>::new());
    assert_eq!(packed_to(&files, 0), ["Media", "root-1", "a", "x.wav"]);
    assert_eq!(packed_to(&files, 1), ["Media", "root-2", "b", "x.wav"]);
}

#[test]
fn the_common_directory_is_as_long_as_can_be() {
    let files = vec![
        media(&["/", "m", "one", "a", "x.wav"]),
        media(&["/", "m", "one", "b", "x.wav"]),
        media(&["/", "m", "one", "x.wav"]),
        media(&["/", "y.wav"]),
    ];
    assert_eq!(common_path_prefix(&files, "x.wav"), ["/", "m", "one"]);
    assert_eq!(common_path_prefix(&files, "y.wav"), ["/"]);
    assert_eq!(common_path_prefix(&files, "z.wav"), Vec::<String>::new());
    assert_eq!(packed_to(&files, 2), ["Media", "x.wav"]);
}

#[test]
fn each_media_file_is_packed_once() {
    let cues = vec![image(1, "/m/a.png"), image(2, "/m/b.png"), image(3, "/m/a.png")];
    assert_eq!(referenced_files(&cues), ["/m/a.png", "/m/b.png"]);
}

#[test]
fn a_packed_project_points_into_its_folder() {
    let mut state = stage();
    pack_project(&mut state, &vec![("/m/a.png".to_string(), "media/a.png".to_string())]);
    assert!(matches!(&state.show_file.cues[1].kind, CueKind::Image { path, .. } if path == "media/a.png"));
    assert!(state.dirty || state.undo_redo.can_undo() || state.project_path.is_none());
    assert_eq!(packed_path("/show/media/a.png".into(), "/show"), "media/a.png");
    assert_eq!(packed_name(Some("media/a.png".into()), "/x".into()), "media/a.png");
    assert_eq!(packed_name(None, "/x".into()), "/x");
    assert!(packed_project_name(Some("gallery")).contains("gallery"));
}

#[test]
fn a_project_is_packed_into_the_folder_without_the_extension() {
    let folder = |text: &str, name: Option<&str>| {
        let picked = FilePath { text: text.into(), key: text.into() };
        let r = pack_folder(&picked, name);
        assert_eq!(r.text, r.key);
        r.text
    };
    assert_eq!(folder("/shows/tonight.qproj", Some("tonight.qproj")), "/shows/tonight");
    assert_eq!(folder("C:\\s.x\\a.b.qproj", Some("a.b.qproj")), "C:\\s.x\\a.b");
    assert_eq!(folder("/shows.d/tonight", Some("tonight")), "/shows.d/tonight");
    assert_eq!(folder("/shows/.hidden", Some(".hidden")), "/shows/.hidden");
    assert_eq!(folder("/shows/.hidden.qproj", Some(".hidden.qproj")), "/shows/.hidden");
    assert_eq!(folder("a.", Some("a.")), "a");
    assert_eq!(folder("/a/..", Some("..")), "/a/..");
    assert_eq!(folder("/", None), "/");
}

#[test]
fn a_packed_project_is_whole_and_keeps_files_apart() {
    let mut state = stage();
    state.show_file.cues = vec![
        image(1, "/m/one/a.png"),
        image(2, "/m/two/a.png"),
        image(3, "/m/one/a.png"),
        image(4, "/n/b.png"),
    ];
    let files: Vec<MediaFile> = referenced_files(&state.show_file.cues)
        .into_iter()
        .map(|original| {
            let mut parts = vec!["/"];
            parts.extend(original[1..].split('/'));
            MediaFile { original: original.clone(), ..media(&parts) }
        })
        .collect();
    let places: Vec<String> =
        (0..files.len()).map(|i| format!("/show/{}", packed_to(&files, i).join("/"))).collect();
    let map = packed_map(&files, &places, "/show");
    pack_project(&mut state, &map);
    let paths: Vec<String> = state
        .show_file
        .cues
        .iter()
        .map(|cue| match &cue.kind {
            CueKind::Image { path, .. } => path.replace('\\', "/"),
            _ => unreachable!(),
        })
        .collect();
    assert_eq!(
        paths,
        ["Media/one/a.png", "Media/two/a.png", "Media/one/a.png", "Media/b.png"]
    );
}

#[test]
fn a_packed_file_is_seen_from_the_folder_it_lies_in() {
    let shown = |path: &str, folder: &str| packed_path(path.to_string(), folder).replace('\\', "/");
    assert_eq!(shown("/show/a.png", "/show"), "a.png");
    assert_eq!(shown("/show/media/deep/.a..b", "/show/"), "media/deep/.a..b");
    assert_eq!(shown("/media/a.png", "/"), "media/a.png");
    assert_eq!(shown("./media/a.png", "."), "media/a.png");
    assert_eq!(shown("a/./media/../x.wav", "a/."), "media/../x.wav");
    assert_eq!(shown("../a/x.wav", "../a"), "x.wav");
    assert_eq!(shown("/show", "/show"), "");
    assert_eq!(shown("..", ".."), "");
    assert_eq!(shown("", ""), "");
}

#[test]
fn numbers_are_read_printed_and_compared_by_value() {
    let a = Qid::parse("1.50").unwrap();
    let b = Qid::new(15, 1);
    assert!(a.same(&b));
    assert_eq!(a, b);
    assert_eq!(b.to_text(), "1.5");
    assert_eq!(a.to_text(), "1.50");
    assert_eq!(Qid::from_parts(-3, 0).to_text(), "-3");
    assert_eq!(a.parts(), (150, 2));
    assert!(Qid::parse("one").is_none());
    assert!(Qid::read("").is_err());
    assert!(holds_qid(&vec![b], &a));
    assert!(!holds_qid(&vec![b], &Qid::new(2, 0)));
}

#[test]
fn text_is_cut_as_expected() {
    assert_eq!(trim("  a b\t\n"), "a b");
    assert_eq!(split_of("a,b,,c", ','), ["a", "b", "", "c"]);
    assert_eq!(lines_of("a\r\nb\n\nc"), ["a", "b", "", "c"]);
    assert_eq!(parse_number("0042"), Some(42));
    assert_eq!(parse_number("+7"), Some(7));
    assert_eq!(parse_number(""), None);
    assert_eq!(parse_number("99999999999999999999"), None);
    let mut out = String::from("n=");
    push_decimal(&mut out, 1200);
    assert_eq!(out, "n=1200");
    assert_eq!(join_of(&vec!["a".into(), "b".into()], ", "), "a, b");
    assert!(same_text_ignoring_case("AbC", "aBc"));
    assert!(!same_text_ignoring_case("AbC", "aBd"));
}

#[test]
fn tables_hold_one_value_for_each_key() {
    let mut table: Table<&str> = Table::new();
    table.insert(5, "five");
    table.insert(2, "two");
    table.insert(5, "FIVE");
    assert_eq!(table.len(), 2);
    let mut keys = table.keys();
    keys.sort();
    assert_eq!(keys, [2, 5]);
    assert_eq!(table.get(2), Some(&"two"));
    assert_eq!(table.get(7), None);
    assert_eq!(table.get(5), Some(&"FIVE"));
    assert!(table.remove(2));
    assert!(!table.remove(2));
    assert!(!table.is_empty());
}

#[test]
fn fade_types_are_kept_in_a_cue() {
    let kind = CueKind::Volume {
        sound_qid: Qid::new(1, 0),
        fade_time: single(2.0),
        volume: single(0.5),
        fade_type: FadeType::SCurve,
    };
    let cue = Cue { base: base(6, "duck"), kind, extra: 4 };
    let copy = cue.clone();
    assert!(matches!(copy.kind, CueKind::Volume { fade_type: FadeType::SCurve, .. }));
    assert_eq!(copy.extra, 4);
    assert_eq!(double(1.0).lt(double(2.0)), true);
}
