//! The command line, the first project, and leaving again.

use cuepool::commands::drain_app_commands;
use cuepool::control::{process_engine_command, EngineStep, ShowControlCommand};
use cuepool::path::FilePath;
use cuepool::project::CuePoolApp;
use cuepool::remote::{osc_take_file_name, remote_discovery_message};
use cuepool::show::ShowFile;
use cuepool::startup::{
    apply_startup_show_mode, control_surface_retry_delay, device_failure, gpu_display_context,
    hap_outcome, is_project_extension, load_startup_project, negotiation_reason,
    optional_feature_candidates, parse_cli, prefer_dx12_backend, quit_needs_confirmation,
    resolve_cli_project_path, resolve_zero_copy_preference, shutdown_rejection, start_session,
    version_requested, zero_copy_granted, CliOptions, HapOutcome, Refusal, SavedSettings,
    StartupProject, ZeroCopyPreference,
};
use cuepool::state::{AppCommand, SharedState, ShowMode};

fn args(list: &[&str]) -> Vec<String> {
    list.iter().map(|a| a.to_string()).collect()
}

fn file(text: &str) -> FilePath {
    FilePath { text: text.to_string(), key: text.to_string() }
}

#[test]
fn osc_take_names_are_bare_file_names() {
    for windows in [false, true] {
        assert_eq!(osc_take_file_name("act1", windows).as_deref(), Some("act1.dmxrec"));
        assert_eq!(osc_take_file_name("act1.dmxrec", windows).as_deref(), Some("act1.dmxrec"));
        assert_eq!(osc_take_file_name("  act1 ", windows).as_deref(), Some("act1.dmxrec"));
        for bad in [
            "",
            "   ",
            "..",
            "../x",
            "/tmp/x",
            "a/b",
            "a\\b",
            "C:\\x",
            "\\\\srv\\share\\x",
            "a\0b",
        ] {
            assert!(osc_take_file_name(bad, windows).is_none(), "{bad:?}");
        }
    }
}

#[test]
fn control_surface_retry_backoff_is_capped() {
    let delays: Vec<u64> = (1..=9).map(control_surface_retry_delay).collect();
    assert_eq!(delays, [100, 200, 400, 800, 1600, 3200, 5000, 5000, 5000]);
}

#[test]
fn optional_gpu_features_retry_independent_acceleration_paths() {
    let zero_copy: u128 = 1 << 0;
    let hap: u128 = 1 << 2;

    assert_eq!(
        optional_feature_candidates(zero_copy, hap),
        vec![zero_copy | hap, zero_copy, hap, 0]
    );
    assert_eq!(optional_feature_candidates(0, hap), vec![hap, 0]);
    assert_eq!(optional_feature_candidates(zero_copy, 0), vec![zero_copy, 0]);
    assert_eq!(optional_feature_candidates(0, 0), vec![0]);
}

#[test]
fn granted_features_are_told_apart() {
    assert!(zero_copy_granted(1, 5));
    assert!(!zero_copy_granted(1, 4));
    assert_eq!(hap_outcome(4, 5), HapOutcome::Granted);
    assert_eq!(hap_outcome(4, 1), HapOutcome::Refused);
    assert_eq!(hap_outcome(0, 1), HapOutcome::Missing);
    let refused = vec![
        Refusal { features: "A | B".into(), reason: "limit".into() },
        Refusal { features: "A".into(), reason: "lost".into() },
    ];
    assert!(negotiation_reason("HAP", &refused).contains("limit"));
    assert!(device_failure(&refused).contains("lost"));
    let context = gpu_display_context("Radeon", "Vulkan", "amdvlk", "2026", Some("DELL"));
    assert!(context.contains("Radeon") && context.contains("DELL"), "{context}");
}

#[test]
fn the_engine_takes_its_own_commands() {
    let mut state = SharedState::default();
    assert!(matches!(
        process_engine_command(&mut state, AppCommand::Go, false),
        EngineStep::Control(ShowControlCommand::Go)
    ));
    assert!(matches!(
        process_engine_command(&mut state, AppCommand::Pause, true),
        EngineStep::Control(ShowControlCommand::Resume)
    ));
    assert!(matches!(
        process_engine_command(&mut state, AppCommand::SaveProject, false),
        EngineStep::Unhandled(AppCommand::SaveProject)
    ));
    assert!(!state.dirty);
    assert!(matches!(
        process_engine_command(&mut state, AppCommand::SetAudioDevice("Desk".into()), false),
        EngineStep::ApplyAudio
    ));
    assert!(state.dirty);
    assert_eq!(state.show_file.show_settings.audio_output_device, "Desk");
}

#[test]
fn winit_drain_requeues_gui_file_commands() {
    let mut state = SharedState::default();
    state.command_queue = vec![
        AppCommand::OpenProject { path: file("open.qproj") },
        AppCommand::SaveProject,
        AppCommand::SaveProjectAs { path: file("save-as.qproj") },
        AppCommand::Go,
    ];

    let mut handled = 0;
    drain_app_commands(&mut state, |command| match command {
        AppCommand::Go => {
            handled += 1;
            Ok(())
        }
        other => Err(other),
    });

    assert_eq!(handled, 1);
    assert!(matches!(
        state.command_queue.as_slice(),
        [
            AppCommand::OpenProject { .. },
            AppCommand::SaveProject,
            AppCommand::SaveProjectAs { .. }
        ]
    ));
}

#[test]
fn remote_discovery_requires_remote_control() {
    let mut settings = ShowFile::default().show_settings;
    settings.node_name = "stage-left".into();
    assert!(remote_discovery_message(&settings).is_none());

    settings.enable_remote_control = true;
    let message = remote_discovery_message(&settings).unwrap();
    assert_eq!(message.addr, "/qplayer/remote/discovery");
    assert_eq!(message.args, vec!["stage-left".to_string()]);
}

#[test]
fn quitting_asks_whenever_there_is_work_to_lose() {
    assert!(!quit_needs_confirmation(false, false));
    assert!(quit_needs_confirmation(true, false), "unsaved edits");
    assert!(quit_needs_confirmation(false, true), "cues still running");
    assert!(quit_needs_confirmation(true, true));
}

#[test]
fn unattended_shutdown_requires_an_idle_clean_project() {
    assert_eq!(shutdown_rejection(false, false), None);
    assert_eq!(
        shutdown_rejection(false, true),
        Some("cues are active; stop playback before shutting down")
    );
    assert_eq!(
        shutdown_rejection(true, false),
        Some("the project has unsaved changes; save or discard them before shutting down")
    );
}

#[test]
fn cli_accepts_explicit_and_legacy_project_paths() {
    let path = "Opening Night.qproj".to_string();
    assert_eq!(
        parse_cli(&args(&["--project", "Opening Night.qproj"])),
        Ok(CliOptions { project: Some(path.clone()), zero_copy: None, show_mode: false })
    );
    assert_eq!(
        parse_cli(&args(&["Opening Night.qproj"])),
        Ok(CliOptions { project: Some(path), zero_copy: None, show_mode: false })
    );
    assert_eq!(
        parse_cli(&args(&[])),
        Ok(CliOptions { project: None, zero_copy: None, show_mode: false })
    );
}

#[test]
fn cli_show_mode_launches_locked_and_composes_with_the_other_options() {
    assert!(!parse_cli(&args(&[])).unwrap().show_mode, "Edit mode is the default");
    assert!(parse_cli(&args(&["--show-mode"])).unwrap().show_mode);
    assert!(parse_cli(&args(&["--show-mode", "--show-mode"])).unwrap().show_mode);
    assert_eq!(
        parse_cli(&args(&["--show-mode", "--no-zero-copy", "--project", "Opening Night.qproj"])),
        Ok(CliOptions {
            project: Some("Opening Night.qproj".into()),
            zero_copy: Some(false),
            show_mode: true,
        })
    );
    assert_eq!(
        parse_cli(&args(&["--show-mode", "Opening Night.qproj"])),
        Ok(CliOptions {
            project: Some("Opening Night.qproj".into()),
            zero_copy: None,
            show_mode: true,
        })
    );
}

#[test]
fn cli_rejects_invalid_argument_shapes() {
    let missing = parse_cli(&args(&["--project"])).unwrap_err();
    assert!(missing.contains("Missing path"), "{missing}");

    let unknown = parse_cli(&args(&["--wat"])).unwrap_err();
    assert!(unknown.contains("Unknown option"), "{unknown}");

    let duplicate = parse_cli(&args(&["one.qproj", "--project", "two.qproj"])).unwrap_err();
    assert!(duplicate.contains("Only one project"), "{duplicate}");

    let extra = parse_cli(&args(&["one.qproj", "two.qproj"])).unwrap_err();
    assert!(extra.contains("Only one project"), "{extra}");
}

#[test]
fn cli_zero_copy_controls_override_the_environment_fallback() {
    assert_eq!(parse_cli(&args(&["--zero-copy"])).unwrap().zero_copy, Some(true));
    assert_eq!(parse_cli(&args(&["--no-zero-copy"])).unwrap().zero_copy, Some(false));
    assert_eq!(
        resolve_zero_copy_preference(Some(true), ZeroCopyPreference::Disabled),
        ZeroCopyPreference::Enabled
    );
    assert_eq!(
        resolve_zero_copy_preference(Some(false), ZeroCopyPreference::Enabled),
        ZeroCopyPreference::Disabled
    );
    assert_eq!(
        resolve_zero_copy_preference(None, ZeroCopyPreference::Enabled),
        ZeroCopyPreference::Enabled
    );

    let conflict = parse_cli(&args(&["--zero-copy", "--no-zero-copy"])).unwrap_err();
    assert!(conflict.contains("Only one of"), "{conflict}");
}

#[test]
fn the_version_is_asked_for_by_its_option() {
    assert!(version_requested(&args(&["--version"])));
    assert!(!version_requested(&args(&["version"])));
    assert!(!version_requested(&args(&[])));
}

#[test]
fn windows_prefers_dx12_without_enabling_zero_copy() {
    assert!(prefer_dx12_backend(true, false));
}

#[test]
fn elsewhere_only_zero_copy_prefers_dx12() {
    assert!(!prefer_dx12_backend(false, false));
    assert!(prefer_dx12_backend(false, true));
}

#[test]
fn cli_project_path_preserves_absolute_and_resolves_relative_paths() {
    let absolute = "/work/show files/Opening Night.QPROJ";
    let relative = "show files/Opening Night.QPROJ";
    let kept =
        resolve_cli_project_path(file(absolute), true, file("/unused"), Some("QPROJ"), true);
    assert_eq!(kept.unwrap().text, absolute);
    let joined =
        resolve_cli_project_path(file(relative), false, file(absolute), Some("QPROJ"), true);
    assert_eq!(joined.unwrap().text, absolute);
}

#[test]
fn missing_cli_project_error_names_resolved_path() {
    let resolved = "/work/missing project.qproj";
    let error = resolve_cli_project_path(
        file("missing project.qproj"),
        false,
        file(resolved),
        Some("qproj"),
        false,
    )
    .unwrap_err();
    assert!(error.contains(resolved), "{error}");
}

#[test]
fn only_projects_are_opened_from_the_command_line() {
    assert!(is_project_extension(Some("qproj")));
    assert!(is_project_extension(Some("QProj")));
    assert!(!is_project_extension(Some("txt")));
    assert!(!is_project_extension(None));
    assert!(resolve_cli_project_path(file("/a.txt"), true, file("/a.txt"), Some("txt"), true)
        .is_err());
}

#[test]
fn startup_project_load_populates_project_path() {
    let path = file("/work/startup.qproj");
    let mut cuepool = CuePoolApp::new();

    load_startup_project(&mut cuepool.state, &path, StartupProject::Read(ShowFile::default()))
        .unwrap();

    assert_eq!(cuepool.state().project_path.as_ref().map(|p| p.text.as_str()), Some(&*path.text));
    assert_eq!(cuepool.state().recent_files.first().map(|p| p.text.as_str()), Some(&*path.text));
}

#[test]
fn startup_show_mode_survives_the_startup_project_load() {
    let path = file("/work/gallery.qproj");
    let mut cuepool = CuePoolApp::new();
    assert_eq!(
        cuepool.state().show_mode,
        ShowMode::Edit,
        "an unflagged launch stays in Edit mode"
    );
    apply_startup_show_mode(&mut cuepool.state, false);
    assert_eq!(cuepool.state().show_mode, ShowMode::Edit);

    load_startup_project(&mut cuepool.state, &path, StartupProject::Read(ShowFile::default()))
        .unwrap();
    apply_startup_show_mode(&mut cuepool.state, true);

    let state = cuepool.state();
    assert_eq!(state.show_mode, ShowMode::Show);
    assert_eq!(state.project_path.as_ref().map(|p| p.text.as_str()), Some(&*path.text));
    assert!(!state.dirty, "launching locked is not an edit");
}

#[test]
fn corrupt_startup_project_fails_without_populating_project_path() {
    let mut cuepool = CuePoolApp::new();

    let error = load_startup_project(
        &mut cuepool.state,
        &file("/work/corrupt.qproj"),
        StartupProject::Unparsable("EOF while parsing an object".into()),
    )
    .unwrap_err();

    assert!(error.contains("Cannot parse startup project"), "{error}");
    assert!(cuepool.state().project_path.is_none());
}

#[test]
fn an_unreadable_startup_project_is_named() {
    let mut state = SharedState::new();
    let error = load_startup_project(
        &mut state,
        &file("/work/gone.qproj"),
        StartupProject::Unreadable("No such file".into()),
    )
    .unwrap_err();
    assert!(error.contains("/work/gone.qproj") && error.contains("No such file"), "{error}");
    assert!(state.project_path.is_none());
}

#[test]
fn a_session_begins_alone_with_its_settings() {
    let settings = || SavedSettings {
        recent_files: vec![file("/shows/last.qproj")],
        last_seen_release_notes: Some("0.12".into()),
    };
    let read = || Some((file("/shows/tonight.qproj"), StartupProject::Read(ShowFile::default())));

    let log = || "/logs/tonight.log".to_string();

    let mut state = SharedState::default();
    let second = start_session(&mut state, Ok(false), settings(), read(), true, log()).unwrap_err();
    assert_eq!(second.title, "CuePool is already running");
    assert!(state.project_path.is_none() && state.recent_files.is_empty());
    let unsure =
        start_session(&mut state, Err("no lock".into()), settings(), read(), true, log())
            .unwrap_err();
    assert_eq!(
        unsure.message,
        "Cannot establish the CuePool single-instance guard: no lock"
    );

    let bad = Some((file("/shows/tonight.qproj"), StartupProject::Unparsable("eof".into())));
    let failure = start_session(&mut state, Ok(true), settings(), bad, true, log()).unwrap_err();
    assert_eq!(failure.title, "Could not open project");
    assert_eq!(
        failure.message,
        "CuePool startup project load result=failure: \
         Cannot parse startup project '/shows/tonight.qproj': eof"
    );
    assert!(matches!(state.show_mode, ShowMode::Edit));
    assert_eq!(state.diagnostics.log_file, "");

    assert!(start_session(&mut state, Ok(true), settings(), read(), true, log()).is_ok());
    assert!(matches!(state.show_mode, ShowMode::Show));
    assert_eq!(state.recent_files.len(), 2);
    assert_eq!(state.recent_files[0].text, "/shows/tonight.qproj");
    assert_eq!(state.last_seen_release_notes.as_deref(), Some("0.12"));
    assert_eq!(state.diagnostics.log_file, "/logs/tonight.log");
}
