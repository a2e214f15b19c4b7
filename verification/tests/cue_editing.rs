//! Commands on the cue list, as the operator gives them.

use std::collections::HashSet;

use cuepool::commands::{
    confirm_discard, duplicate_rows, process_command, put_back, take_commands, Outcome,
};
use cuepool::cue_order::{enclosing_span, span};
use cuepool::desk::{
    answer_discard, answer_quit, discard_heading, dismiss_alert, editing_text, expire_alert,
    menu_bar, quit_choice, save_and_quit, save_target, set_window, shortcuts, shows_release_notes,
    acknowledge_release_notes, status_bar, wants_open_dialog, DeskWindow, Keys, MenuItem,
    QuitChoice,
};
use cuepool::diagnostics::{video_status_badge, Rgb, VideoDiagnostics, VideoTimings};
use cuepool::identity_card::{
    card_repaint, card_shown, torus_colour, CardPresentation, Cards, TorusCanvas, FRAME_INTERVAL,
    LAUNCH_FADE, TORUS_HEIGHT, TORUS_WIDTH,
};
use cuepool::ieee::{Double, Single};
use cuepool::path::FilePath;
use cuepool::project::CuePoolApp;
use cuepool::qid::Qid;
use cuepool::show::{
    CanvasFit, Cue, CueBase, CueKind, CueTriggers, FadeType, HotkeyTrigger, LoopMode, ShowFile,
    StopMode, TriggerMode,
};
use cuepool::state::{
    AppCommand, CueType, SharedState, ShowMode, OPERATOR_ALERT_NANOS, RELEASE_NOTES_VERSION,
};
use cuepool::undo::UndoRedo;

const SECOND: u64 = 1_000_000_000;
const NOW: u64 = 50 * SECOND;

fn double(x: f64) -> Double {
    Double { bits: x.to_bits() }
}

fn single(x: f32) -> Single {
    Single { bits: x.to_bits() }
}

fn q(n: i64) -> Qid {
    Qid::new(n, 0)
}

fn file(text: &str) -> FilePath {
    FilePath { text: text.to_string(), key: text.to_string() }
}

fn cue(qid: Qid, parent: Option<Qid>, name: &str, kind: CueKind) -> Cue {
    Cue {
        base: CueBase {
            qid,
            parent,
            name: name.to_string(),
            enabled: true,
            trigger: TriggerMode::Go,
            loop_mode: LoopMode::OneShot,
            loop_count: 0,
            triggers: CueTriggers { hotkey: None, midi: None, wall_clock: None, timecode: None },
        },
        kind,
        extra: 0,
    }
}

fn sound(path: &str) -> CueKind {
    CueKind::Sound {
        path: path.to_string(),
        start_time: double(0.0),
        duration: double(180.0),
        volume: single(0.8),
        pan: single(0.0),
        fade_in: single(0.0),
        fade_out: single(0.0),
        fade_type: FadeType::Linear,
    }
}

/// A group of three, then four cues, the last of which stops the group.
fn demo() -> SharedState {
    let group = Some(q(1));
    let mut show = ShowFile::default();
    show.cues = vec![
        cue(q(1), None, "Opening Sequence", CueKind::Group),
        cue(Qid::new(11, 1), group, "Lobby Ambience", sound("lobby.wav")),
        cue(
            Qid::new(12, 1),
            group,
            "Titles",
            CueKind::Image { path: "titles.png".into(), fit: CanvasFit::Fit },
        ),
        cue(Qid::new(13, 1), group, "Wait", CueKind::Dummy),
        cue(q(2), None, "House Lights Half", CueKind::Dummy),
        cue(q(3), None, "Arm Projection", CueKind::Dummy),
        cue(q(4), None, "Curtain", CueKind::Dummy),
        cue(
            q(5),
            None,
            "Stop Opening",
            CueKind::Stop {
                stop_qid: q(1),
                stop_mode: StopMode::Immediate,
                fade_out_time: single(2.0),
                fade_type: FadeType::Linear,
                stop_all: false,
            },
        ),
    ];
    CuePoolApp::with_show_file(show, None).state
}

fn qids(state: &SharedState) -> Vec<Qid> {
    state.show_file.cues.iter().map(|cue| cue.base.qid).collect()
}

/// Carry out one command. Added cues get `next`, copies get 101, 102, ...
fn run_numbered(state: &mut SharedState, command: AppCommand, next: Qid) -> Outcome {
    let rows = match &command {
        AppCommand::DuplicateCue { qid } => duplicate_rows(state, *qid),
        _ => 0,
    };
    let numbers = (0..rows).map(|i| q(101 + i as i64)).collect();
    process_command(state, command, next, &numbers, NOW)
}

fn run(state: &mut SharedState, command: AppCommand) -> Outcome {
    run_numbered(state, command, q(99))
}

/// Carry out what waits on the queue, and leave what is for someone else.
fn drain(state: &mut SharedState) {
    let mut unhandled = Vec::new();
    for command in take_commands(state) {
        if let Outcome::Unhandled(other) = run(state, command) {
            unhandled.push(other);
        }
    }
    put_back(state, unhandled);
}

fn no_keys() -> Keys {
    Keys {
        command: false,
        shift: false,
        alt: false,
        bare: true,
        n: false,
        o: false,
        s: false,
        d: false,
        t: false,
        z: false,
        delete: false,
        backspace: false,
        up: false,
        down: false,
        home: false,
        end: false,
        space: false,
        escape: false,
    }
}

#[test]
fn discarding_changes_is_confirmed_in_app_before_a_new_project() {
    let mut state = demo();
    state.dirty = true;
    assert!(matches!(run(&mut state, AppCommand::NewProject), Outcome::Parked));

    assert!(state.pending_discard_confirm.is_some());
    assert!(!state.show_file.cues.is_empty());

    answer_discard(&mut state, false);
    drain(&mut state);
    assert!(state.pending_discard_confirm.is_none());
    assert!(!state.show_file.cues.is_empty());

    assert!(matches!(run(&mut state, AppCommand::NewProject), Outcome::Parked));
    answer_discard(&mut state, true);
    drain(&mut state);
    assert!(state.pending_discard_confirm.is_none());
    assert!(state.show_file.cues.is_empty());
}

#[test]
fn a_clean_project_is_left_without_a_question() {
    let mut state = demo();
    assert!(confirm_discard(&mut state, AppCommand::NewProject));
    assert!(state.pending_discard_confirm.is_none());
    assert_ne!(discard_heading(&AppCommand::NewProject), "");
}

#[test]
fn inspector_refuses_to_renumber_a_cue_onto_an_existing_qid() {
    let mut state = demo();
    let before = qids(&state);
    run(&mut state, AppCommand::UpdateCueQid { qid: q(3), new_qid: q(2) });
    assert_eq!(
        qids(&state),
        before,
        "a QID collision must be refused, not create two cues sharing a number"
    );
}

#[test]
fn inspector_renumbering_carries_every_reference_to_the_old_qid() {
    let mut state = demo();
    state.selected_cue_id = Some(q(1));
    run(&mut state, AppCommand::UpdateCueQid { qid: q(1), new_qid: q(7) });

    let cues = &state.show_file.cues;
    assert_eq!(cues[0].base.qid, q(7));
    assert_eq!(state.selected_cue_id, Some(q(7)));
    assert!(
        cues[1..4].iter().all(|cue| cue.base.parent == Some(q(7))),
        "children must follow their group's new number"
    );
    assert!(
        matches!(&cues[7].kind, CueKind::Stop { stop_qid, .. } if *stop_qid == q(7)),
        "the Stop cue must still point at the group it stops"
    );
}

#[test]
fn typing_into_a_cue_name_does_not_reach_the_show() {
    let editing = editing_text(true, true);
    let pressed = [
        Keys { space: true, ..no_keys() },
        Keys { delete: true, ..no_keys() },
        Keys { backspace: true, ..no_keys() },
        Keys { up: true, ..no_keys() },
        Keys { down: true, ..no_keys() },
        Keys { home: true, ..no_keys() },
        Keys { end: true, ..no_keys() },
        Keys { command: true, bare: false, z: true, ..no_keys() },
        Keys { command: true, bare: false, up: true, ..no_keys() },
        Keys { command: true, bare: false, down: true, ..no_keys() },
    ];
    for keys in &pressed {
        assert!(shortcuts(keys, false, editing, None).is_empty());
    }

    // Escape has dropped the focus already, but the frame before counts.
    let escape = Keys { escape: true, ..no_keys() };
    assert!(shortcuts(&escape, false, editing_text(false, true), None).is_empty());

    let commands = shortcuts(&escape, false, editing_text(false, false), None);
    assert!(
        commands.iter().any(|command| matches!(command, AppCommand::Stop)),
        "Escape outside a field should stop the show, got {commands:?}"
    );
}

#[test]
fn menu_shortcuts_stay_live_while_renaming() {
    let mut state = demo();
    state.project_path = Some(file("/work/shortcut_while_renaming.qproj"));
    let save = Keys { command: true, bare: false, s: true, ..no_keys() };
    let commands = shortcuts(&save, false, true, None);
    assert_eq!(commands.len(), 1);
    for command in commands {
        let outcome = run(&mut state, command);
        assert!(
            matches!(&outcome, Outcome::Save(Some(path)) if path.text == "/work/shortcut_while_renaming.qproj"),
            "Cmd+S should still save while a field is focused, got {outcome:?}"
        );
    }
}

#[test]
fn the_keys_ask_for_what_their_labels_say() {
    let one = |keys: Keys| {
        let mut commands = shortcuts(&keys, false, false, Some(file("/a.qproj")));
        assert_eq!(commands.len(), 1, "{commands:?}");
        commands.remove(0)
    };
    let with_command = || Keys { command: true, bare: false, ..no_keys() };
    assert!(matches!(one(Keys { n: true, ..with_command() }), AppCommand::NewProject));
    assert!(matches!(one(Keys { o: true, ..with_command() }), AppCommand::OpenProject { .. }));
    assert!(matches!(one(Keys { d: true, ..with_command() }), AppCommand::DuplicateCue { .. }));
    assert!(matches!(one(Keys { t: true, ..with_command() }), AppCommand::AddCue { .. }));
    assert!(matches!(one(Keys { z: true, ..with_command() }), AppCommand::Undo));
    assert!(matches!(one(Keys { z: true, shift: true, ..with_command() }), AppCommand::Redo));
    assert!(matches!(one(Keys { up: true, ..with_command() }), AppCommand::MoveCueUp { .. }));
    assert!(matches!(one(Keys { delete: true, ..no_keys() }), AppCommand::DeleteCue { .. }));
    assert!(matches!(one(Keys { up: true, ..no_keys() }), AppCommand::SelectPreviousCue));
    assert!(matches!(one(Keys { home: true, ..no_keys() }), AppCommand::SelectFirstCue));
    assert!(wants_open_dialog(&Keys { o: true, ..with_command() }, false));
    assert!(!wants_open_dialog(&Keys { o: true, ..with_command() }, true));
}

#[test]
fn space_still_fires_go_in_show_mode() {
    let commands = shortcuts(&Keys { space: true, ..no_keys() }, false, false, None);
    assert!(
        commands.iter().any(|command| matches!(command, AppCommand::Go)),
        "Space should fire GO with no field focused, got {commands:?}"
    );
    let mut state = demo();
    state.show_mode = ShowMode::Show;
    for command in commands {
        assert!(matches!(run(&mut state, command), Outcome::Unhandled(AppCommand::Go)));
    }
}

#[test]
fn show_mode_refuses_cue_edits_however_they_are_raised() {
    let mut state = demo();
    state.show_mode = ShowMode::Show;
    state.selected_cue_id = Some(Qid::new(11, 1));
    let before = qids(&state);

    for command in shortcuts(&Keys { backspace: true, ..no_keys() }, false, false, None) {
        assert!(matches!(run(&mut state, command), Outcome::Locked));
    }
    assert_eq!(qids(&state), before, "Backspace must not delete in Show mode");

    for command in [
        AppCommand::AddCue { cue_type: CueType::Sound },
        AppCommand::DeleteCue { qid: None },
        AppCommand::DuplicateCue { qid: None },
        AppCommand::MoveCueUp { qid: None },
        AppCommand::UpdateCueName {
            qid: Qid::new(11, 1),
            name: "Renamed mid-show".into(),
        },
    ] {
        let text = format!("{command:?}");
        run(&mut state, command);
        assert_eq!(qids(&state), before, "{text} must be refused in Show mode");
    }
    assert_eq!(
        state.show_file.cues[1].base.name, "Lobby Ambience",
        "a refused rename must not reach the model either"
    );

    state.show_mode = ShowMode::Edit;
    run(&mut state, AppCommand::DeleteCue { qid: None });
    assert_ne!(qids(&state), before, "Edit mode still deletes");
}

#[test]
fn a_run_of_merged_edits_undoes_as_one_step() {
    let mut state = demo();
    let qid = Qid::new(11, 1);
    state.undo_redo = UndoRedo::default();

    for name in ["L", "Lo", "Lob", "Lobb", "Lobby"] {
        run(&mut state, AppCommand::UpdateCueName { qid, name: name.into() });
    }
    assert_eq!(state.show_file.cues[1].base.name, "Lobby");

    run(&mut state, AppCommand::Undo);
    assert_eq!(
        state.show_file.cues[1].base.name, "Lobby Ambience",
        "one undo should rewind the whole typing run, not one keystroke"
    );
}

#[test]
fn selecting_a_cue_is_not_an_undo_step() {
    let mut state = demo();
    state.undo_redo = UndoRedo::default();

    for qid in [q(1), Qid::new(12, 1), Qid::new(13, 1)] {
        run(&mut state, AppCommand::SelectCue(qid));
    }
    assert!(!state.undo_redo.can_undo(), "selections must not accumulate undo entries");
    for command in shortcuts(&Keys { up: true, ..no_keys() }, false, false, None) {
        run(&mut state, command);
    }
    assert_eq!(state.selected_cue_id, Some(Qid::new(12, 1)));
    assert!(
        !state.undo_redo.can_undo(),
        "arrow-key navigation must not accumulate undo entries either"
    );

    run(&mut state, AppCommand::UpdateCueName { qid: q(1), name: "Changed".into() });
    run(&mut state, AppCommand::Undo);
    assert!(state.undo_redo.can_redo());
    run(&mut state, AppCommand::SelectCue(Qid::new(12, 1)));
    assert!(state.undo_redo.can_redo(), "selecting a cue must not discard the redo stack");
}

#[test]
fn show_mode_is_neither_dirtying_nor_undoable() {
    let mut state = demo();
    state.dirty = false;
    state.undo_redo = UndoRedo::default();

    cuepool::startup::apply_startup_show_mode(&mut state, true);
    assert_eq!(state.show_mode, ShowMode::Show);
    assert!(!state.dirty, "a mode switch must not mark the project unsaved");
    assert!(!state.undo_redo.can_undo(), "a mode switch must not take an undo entry");

    state.show_mode = ShowMode::Edit;
    run(
        &mut state,
        AppCommand::UpdateCueName { qid: q(1), name: "Edited before the show".into() },
    );
    state.show_mode = ShowMode::Show;

    run(&mut state, AppCommand::Undo);
    assert_eq!(
        state.show_mode,
        ShowMode::Show,
        "undo must not drop the operator out of Show mode"
    );
    assert_eq!(
        state.show_file.cues[0].base.name, "Edited before the show",
        "Show mode refuses the undo, so the edit stands"
    );
}

#[test]
fn a_new_cue_lands_where_its_number_says_and_is_selected() {
    let mut state = demo();
    state.selected_cue_id = Some(Qid::new(11, 1));
    run_numbered(
        &mut state,
        AppCommand::AddCue { cue_type: CueType::Sound },
        Qid::new(111, 2),
    );

    let added = &state.show_file.cues[2].base;
    assert_eq!(
        qids(&state),
        vec![
            q(1),
            Qid::new(11, 1),
            Qid::new(111, 2),
            Qid::new(12, 1),
            Qid::new(13, 1),
            q(2),
            q(3),
            q(4),
            q(5),
        ],
        "the new cue belongs directly after the cue it was numbered against"
    );
    assert_eq!(added.parent, Some(q(1)), "adding beside a group member joins that group");
    assert_eq!(
        state.selected_cue_id,
        Some(added.qid),
        "the new cue should be selected, not left to be hunted for"
    );
}

#[test]
fn a_group_duplicates_and_deletes_whole() {
    let mut state = demo();
    state.selected_cue_id = Some(q(1));
    run(&mut state, AppCommand::DuplicateCue { qid: None });

    assert_eq!(state.show_file.cues.len(), 12, "header plus three members");
    let copied_header = state.show_file.cues[4].base.qid;
    assert_eq!(state.selected_cue_id, Some(copied_header));
    assert!(state.show_file.cues[4].base.name.ends_with(" (copy)"));
    for offset in 5..8 {
        assert_eq!(
            state.show_file.cues[offset].base.parent,
            Some(copied_header),
            "a copied member must follow the copied header, not the original"
        );
    }
    let numbers = qids(&state);
    let unique: HashSet<String> = numbers.iter().map(|n| n.to_text()).collect();
    assert_eq!(unique.len(), numbers.len(), "duplicate QIDs must be unreachable");

    state.selected_cue_id = Some(q(1));
    run(&mut state, AppCommand::DeleteCue { qid: None });

    assert_eq!(state.show_file.cues.len(), 8, "four cues went with the group");
    assert!(
        !state.show_file.cues.iter().any(|cue| cue.base.parent == Some(q(1))),
        "no member may outlive its group"
    );
    assert!(
        state.selected_cue_id.is_some(),
        "deleting must move the standby on, not clear it"
    );
}

#[test]
fn nudging_a_group_moves_it_as_a_block() {
    let mut state = demo();
    state.selected_cue_id = Some(q(1));
    run(&mut state, AppCommand::MoveCueDown { qid: None });

    assert_eq!(
        qids(&state),
        vec![
            q(2),
            q(1),
            Qid::new(11, 1),
            Qid::new(12, 1),
            Qid::new(13, 1),
            q(3),
            q(4),
            q(5),
        ],
        "the group and its members move together, over the whole neighbour"
    );
}

#[test]
fn dropping_a_cue_on_the_group_directly_above_joins_it() {
    let mut state = demo();
    state.show_file.cues[1].base.parent = None;
    run(&mut state, AppCommand::MoveCue { from_idx: 1, to_idx: 1, parent: Some(q(1)) });

    assert_eq!(
        state.show_file.cues[1].base.parent,
        Some(q(1)),
        "the drop must join the group even though nothing moved"
    );
    assert_eq!(
        state.show_file.cues[1].base.qid,
        Qid::new(11, 1),
        "and must not shuffle the list to do it"
    );
}

#[test]
fn duplicating_a_triggered_cue_warns_that_the_trigger_is_shared() {
    let mut state = demo();
    state.show_file.cues[4].base.triggers.hotkey = Some(HotkeyTrigger { key: "G".into() });
    state.selected_cue_id = Some(q(2));
    run(&mut state, AppCommand::DuplicateCue { qid: None });

    assert!(
        state.show_file.cues[5].base.triggers.hotkey.is_some(),
        "the copy keeps the trigger"
    );
    assert!(
        state.operator_alert.as_ref().is_some_and(|alert| alert.message.contains("hotkey")),
        "and the operator is told both cues now fire on it"
    );
}

#[test]
fn a_group_dragged_to_the_end_lands_at_the_end() {
    let mut state = demo();
    let len = state.show_file.cues.len();
    run(&mut state, AppCommand::MoveCue { from_idx: 0, to_idx: len, parent: None });

    assert_eq!(
        qids(&state),
        vec![
            q(2),
            q(3),
            q(4),
            q(5),
            q(1),
            Qid::new(11, 1),
            Qid::new(12, 1),
            Qid::new(13, 1),
        ],
        "the group and its members should end up last, still contiguous"
    );
}

#[test]
fn a_refused_renumber_is_reported_to_the_operator() {
    let mut state = demo();
    let before = qids(&state);
    run(
        &mut state,
        AppCommand::UpdateCueQid { qid: Qid::new(11, 1), new_qid: Qid::new(12, 1) },
    );

    assert_eq!(qids(&state), before);
    assert!(
        state
            .operator_alert
            .as_ref()
            .is_some_and(|alert| alert.message.contains("already in use")),
        "a refused renumber must say so, not only log it"
    );
}

#[test]
fn a_pre_filled_timecode_trigger_needs_a_paused_clock() {
    for (paused, expected) in [(false, None), (true, Some(double(42.5)))] {
        let mut state = demo();
        state.show_time = Some(double(42.5));
        state.show_paused = paused;
        state.selected_cue_id = None;
        run(&mut state, AppCommand::AddCue { cue_type: CueType::Stop });

        let added = &state.show_file.cues.last().expect("the added cue").base;
        assert_eq!(
            added.triggers.timecode.as_ref().map(|t| t.time),
            expected,
            "clock paused={paused}"
        );
    }
}

#[test]
fn ungrouping_moves_the_cue_clear_of_its_group() {
    let mut state = demo();
    run(&mut state, AppCommand::UngroupCue { qid: Qid::new(11, 1) });

    assert_eq!(
        qids(&state),
        vec![
            q(1),
            Qid::new(12, 1),
            Qid::new(13, 1),
            Qid::new(11, 1),
            q(2),
            q(3),
            q(4),
            q(5),
        ],
        "the freed cue steps past the group, not to the end of the show"
    );
    assert_eq!(state.show_file.cues[3].base.parent, None);
    assert!(
        state.show_file.cues[1..3].iter().all(|cue| cue.base.parent == Some(q(1))),
        "the members left behind stay contiguous with their header"
    );
}

#[test]
fn a_cue_command_naming_its_target_ignores_the_selection() {
    let mut state = demo();
    state.selected_cue_id = Some(q(2));
    run(&mut state, AppCommand::DeleteCue { qid: Some(Qid::new(11, 1)) });

    assert!(!qids(&state).contains(&Qid::new(11, 1)), "the named cue goes");
    assert!(qids(&state).contains(&q(2)), "the selected one stays");
}

#[test]
fn spans_are_groups_or_single_cues() {
    let state = demo();
    let cues = &state.show_file.cues;
    assert_eq!((span(cues, 0).start, span(cues, 0).end), (0, 4));
    assert_eq!((span(cues, 2).start, span(cues, 2).end), (2, 3));
    assert_eq!((enclosing_span(cues, 2).start, enclosing_span(cues, 2).end), (0, 4));
}

#[test]
fn undo_and_redo_give_the_project_back() {
    let mut state = demo();
    let before = qids(&state);
    run(&mut state, AppCommand::DeleteCue { qid: Some(q(4)) });
    let after = qids(&state);
    run(&mut state, AppCommand::Undo);
    assert_eq!(qids(&state), before);
    run(&mut state, AppCommand::Redo);
    assert_eq!(qids(&state), after);
}

#[test]
fn an_unknown_cue_is_not_selected() {
    let mut state = demo();
    let outcome = run(&mut state, AppCommand::SelectCue(q(77)));
    assert!(matches!(&outcome, Outcome::Warned(w) if w == "cue Q77 not found"), "{outcome:?}");
    assert_eq!(state.selected_cue_id, None);
}

#[test]
fn operator_alert_is_visible_dismissible_and_expires() {
    const MESSAGE: &str = "Projector 2 failed; 2 of 3 outputs remain active. See Window > Log.";
    let mut state = demo();

    state.report_operator_error(MESSAGE.into(), NOW);
    assert_eq!(expire_alert(&mut state, NOW), Some(OPERATOR_ALERT_NANOS));
    assert_eq!(state.operator_alert.as_ref().map(|a| a.message.as_str()), Some(MESSAGE));
    dismiss_alert(&mut state);
    assert!(state.operator_alert.is_none());

    state.report_operator_error(MESSAGE.into(), NOW);
    state.operator_alert.as_mut().unwrap().expires_at = NOW - SECOND / 1000;
    assert_eq!(expire_alert(&mut state, NOW), None);
    assert!(state.operator_alert.is_none());
}

#[test]
fn status_bar_tracks_the_active_video_decode_path() {
    let mut video = VideoDiagnostics {
        path: "titles.mov".into(),
        width: 1920,
        height: 1080,
        decode_path: "hardware (VideoToolbox)".into(),
        fallback_reason: None,
        timings: VideoTimings::default(),
    };
    assert_eq!(video_status_badge(Some(&video)).label, "Video: hardware (VideoToolbox)");

    video.decode_path = "software".into();
    video.fallback_reason = Some("shareable D3D12VA pool rejected".into());
    let badge = video_status_badge(Some(&video));
    assert_eq!(badge.label, "Video: software ⚠");
    assert!(badge.tip.contains("shareable D3D12VA pool rejected"));

    assert_eq!(video_status_badge(None).label, "Video: idle");
}

#[test]
fn a_trim_of_the_master_is_flagged() {
    let state = demo();
    assert!(!status_bar(&state, single(0.0)).master);
    assert!(status_bar(&state, single(-6.0)).master);
}

#[test]
fn the_status_window_stays_open_until_it_is_closed() {
    let mut state = demo();
    set_window(&mut state, DeskWindow::Status, true);
    drain(&mut state);
    assert!(state.panels.status);
}

#[test]
fn the_launch_card_fades_before_it_goes() {
    let mut cards = CuePoolApp::new().cards;
    let started_at = SECOND / 60;
    assert!(cards.launch_card_timing(started_at).is_some());
    let (_, remaining) = cards.launch_card_timing(started_at + 2_290_000_000).unwrap();
    assert!(remaining < LAUNCH_FADE);
    assert!(cards.launch_card_timing(started_at + 2_500_000_000).is_none());
    assert!(cards.launch_card_timing(started_at + 2_600_000_000).is_none());
}

#[test]
fn launch_card_is_skippable_and_swallows_the_keypress() {
    let mut app = CuePoolApp::new();
    let launching = app.cards.launch_card_timing(NOW).is_some();
    assert!(launching);
    let keys = Keys { space: true, ..no_keys() };
    assert!(shortcuts(&keys, launching, false, None).is_empty());
    app.cards.end_launch(true, false);
    assert!(app.cards.launch_card_timing(NOW + 1).is_none());
    assert_eq!(app.state().show_mode, ShowMode::Edit);
    assert!(app.state().command_queue.is_empty());
}

#[test]
fn about_shows_the_invoked_card_until_it_is_closed() {
    let mut state = demo();
    let mut cards = Cards { pending: false, launched_at: None, invoked_at: None };
    assert!(card_shown(false, false, state.panels.about).is_none());
    set_window(&mut state, DeskWindow::About, true);
    assert_eq!(card_shown(false, false, state.panels.about), Some(CardPresentation::Invoked));
    assert_eq!(cards.invoked_for(NOW), 0);
    assert_eq!(cards.invoked_for(NOW + SECOND), SECOND);
    cards.end_invoked(&mut state);
    assert!(!state.panels.about);
    assert!(cards.invoked_at.is_none());
}

#[test]
fn release_notes_follow_the_splash_and_are_acknowledged_once() {
    let mut app = CuePoolApp::new();
    let started_at = SECOND / 60;
    let launching = app.cards.launch_card_timing(started_at).is_some();
    assert!(!shows_release_notes(app.state(), launching));
    let launching = app.cards.launch_card_timing(started_at + 2_500_000_000).is_some();
    assert!(shows_release_notes(app.state(), launching));

    let keys = Keys { space: true, ..no_keys() };
    assert!(shortcuts(&keys, true, false, None).is_empty());

    acknowledge_release_notes(&mut app.state);
    assert_eq!(app.state().last_seen_release_notes.as_deref(), Some(RELEASE_NOTES_VERSION));
    assert!(!shows_release_notes(app.state(), false));
}

#[test]
fn torus_colour_changes_with_the_release_series() {
    let v0_5 = torus_colour("0", "5");
    let v0_6 = torus_colour("0", "6");
    let v1_0 = torus_colour("1", "0");

    assert_eq!(v0_5, Rgb { r: 92, g: 168, b: 255 });
    assert_eq!(v0_6, Rgb { r: 183, g: 135, b: 255 });
    assert_ne!(v0_5, v0_6);
    assert_ne!(v0_6, v1_0);
}

#[test]
fn about_dims_the_workspace_less_than_launch() {
    assert!(CardPresentation::Invoked.backdrop() < CardPresentation::Launch.backdrop());
}

#[test]
fn frames_of_the_donut_have_its_size() {
    let torus = |step: i64| {
        let mut canvas = TorusCanvas::new();
        for i in 0..40 {
            canvas.plot(12 + i, 5 + (i * step) % 11, single(0.2), single(0.5), 4);
        }
        canvas.frame()
    };
    let first = torus(1);
    let next = torus(3);

    assert_ne!(first, next);
    assert_eq!(first.lines().count(), TORUS_HEIGHT);
    assert_eq!(first.len(), 1429);
    assert!(!first.ends_with('\n'));
    assert!(first.lines().all(|line| line.len() == TORUS_WIDTH));
    assert!(first
        .bytes()
        .all(|byte| byte == b'\n' || byte == b' ' || b".,-~:;=!*#$@".contains(&byte)));
}

#[test]
fn nearer_points_cover_farther_ones() {
    let mut canvas = TorusCanvas::new();
    canvas.plot(3, 2, single(0.5), single(1.0), 11);
    let near = canvas.frame();
    canvas.plot(3, 2, single(0.25), single(1.0), 0);
    assert_eq!(canvas.frame(), near);
    canvas.plot(-1, 2, single(0.9), single(1.0), 5);
    canvas.plot(TORUS_WIDTH as i64, 2, single(0.9), single(1.0), 5);
    assert_eq!(canvas.frame(), near);
    assert!(card_repaint(0) <= FRAME_INTERVAL);
}

#[test]
fn leaving_is_agreed_with_the_operator() {
    let mut state = demo();
    state.pending_close_confirm = true;
    assert!(!answer_quit(&mut state, quit_choice(None, false)));
    assert!(state.pending_close_confirm);
    assert!(!answer_quit(&mut state, Some(QuitChoice::Cancel)));
    assert!(!state.pending_close_confirm && !state.quit);

    state.pending_close_confirm = true;
    assert!(!answer_quit(&mut state, Some(QuitChoice::Discard)));
    assert!(state.quit);

    let mut state = demo();
    state.dirty = true;
    state.pending_close_confirm = true;
    assert!(answer_quit(&mut state, Some(QuitChoice::Save)));
    save_and_quit(&mut state, Some("disk full"), NOW);
    assert!(!state.quit, "a failed save keeps the desk open");
    assert!(state.operator_alert.is_some());
    save_and_quit(&mut state, None, NOW);
    assert!(state.quit);
}

#[test]
fn saving_goes_to_the_project_or_where_the_operator_says() {
    let mut state = demo();
    let found = save_target(&state, Ok(file("/picked.qproj"))).unwrap();
    assert_eq!(found.text, "/picked.qproj");
    assert!(save_target(&state, Err("cancelled".into())).is_err());
    state.project_path = Some(file("/own.qproj"));
    assert_eq!(save_target(&state, Err("cancelled".into())).unwrap().text, "/own.qproj");
}

#[test]
fn the_menu_queues_what_it_says() {
    let mut state = demo();
    menu_bar(&mut state, MenuItem::Undo);
    assert!(state.command_queue.is_empty(), "there is nothing to undo yet");
    run(&mut state, AppCommand::UpdateCueName { qid: q(1), name: "Opening".into() });
    menu_bar(&mut state, MenuItem::Save);
    menu_bar(&mut state, MenuItem::Undo);
    menu_bar(&mut state, MenuItem::Pack(file("/packed")));
    assert!(matches!(
        state.command_queue.as_slice(),
        [AppCommand::SaveProject, AppCommand::Undo, AppCommand::PackProject { .. }]
    ));
    menu_bar(&mut state, MenuItem::Window(DeskWindow::Log, true));
    assert!(state.panels.log);
    menu_bar(&mut state, MenuItem::Autosave(true));
    assert!(state.show_file.show_settings.autosave_enabled);
}
