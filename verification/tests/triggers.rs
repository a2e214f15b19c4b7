//! What fires of itself: clock, timecode, MIDI and hotkey triggers.

use chrono::{Datelike, NaiveDate, NaiveTime, Timelike};
use cuepool::ieee::Double;
use cuepool::midi::{hotkey_cue, process_midi_event, MidiEvent};
use cuepool::qid::Qid;
use cuepool::show::{
    Cue, CueBase, CueKind, CueTriggers, HotkeyTrigger, LoopMode, MidiTrigger, MidiTriggerKind,
    RepeatMode, TimecodeTrigger, TriggerMode, WallClockTrigger,
};
use cuepool::state::SharedState;
use cuepool::triggers::{
    due_timecode_cues, due_wall_clock_cues, note_clock_fired, poll_timecode_triggers,
    unlatch_rewound_timecode_triggers, wall_clock_due, ClockFired, ClockTime,
};

fn double(x: f64) -> Double {
    Double { bits: x.to_bits() }
}

fn plain_cue(qid: i64) -> Cue {
    Cue {
        base: CueBase {
            qid: Qid::new(qid, 0),
            parent: None,
            name: String::new(),
            enabled: true,
            trigger: TriggerMode::Go,
            loop_mode: LoopMode::OneShot,
            loop_count: 0,
            triggers: CueTriggers { hotkey: None, midi: None, wall_clock: None, timecode: None },
        },
        kind: CueKind::Dummy,
        extra: 0,
    }
}

fn timecode_cue(qid: i64, at_secs: f64) -> Cue {
    let mut cue = plain_cue(qid);
    cue.base.triggers.timecode = Some(TimecodeTrigger { time: double(at_secs) });
    cue
}

fn wall_clock_cue(qid: i64, time: &str, repeat: RepeatMode) -> Cue {
    let mut cue = plain_cue(qid);
    cue.base.triggers.wall_clock = Some(WallClockTrigger { time: time.to_string(), repeat });
    cue
}

fn day(date: NaiveDate) -> i32 {
    date.num_days_from_ce()
}

fn time(t: NaiveTime) -> ClockTime {
    ClockTime { secs: t.num_seconds_from_midnight(), nanos: t.nanosecond() }
}

#[test]
fn timecode_triggers_rearm_on_rewind_but_stay_latched_past_their_time() {
    let qid = Qid::new(7, 0);
    let cues = vec![timecode_cue(7, 7.0)];
    let mut fired = vec![qid];

    unlatch_rewound_timecode_triggers(&mut fired, &cues, double(7.0));
    assert!(fired.contains(&qid));
    unlatch_rewound_timecode_triggers(&mut fired, &cues, double(42.0));
    assert!(fired.contains(&qid));

    unlatch_rewound_timecode_triggers(&mut fired, &cues, double(3.0));
    assert!(fired.is_empty());
}

#[test]
fn deleted_or_untriggered_cues_drop_out_of_the_timecode_latch() {
    let mut fired = vec![Qid::new(7, 0)];
    unlatch_rewound_timecode_triggers(&mut fired, &vec![plain_cue(7)], double(42.0));
    assert!(fired.is_empty());
}

#[test]
fn a_wall_clock_trigger_fires_once_per_target_even_across_the_whole_window() {
    let qid = Qid::new(3, 0);
    let cues = vec![wall_clock_cue(3, "20:00:00", RepeatMode::Daily)];
    let today = NaiveDate::from_ymd_opt(2026, 9, 3).unwrap();
    let target = NaiveTime::from_hms_opt(20, 0, 0).unwrap();
    let mut fired: Vec<ClockFired> = Vec::new();

    let early = NaiveTime::from_hms_milli_opt(19, 59, 58, 100).unwrap();
    let due = due_wall_clock_cues(&cues, day(today), time(early), &fired);
    assert_eq!(due.len(), 1);
    note_clock_fired(&mut fired, qid, day(today), time(target));

    let late = NaiveTime::from_hms_milli_opt(20, 0, 1, 500).unwrap();
    assert!(due_wall_clock_cues(&cues, day(today), time(late), &fired).is_empty());

    let tomorrow = today.succ_opt().unwrap();
    assert_eq!(due_wall_clock_cues(&cues, day(tomorrow), time(target), &fired).len(), 1);
}

#[test]
fn a_once_wall_clock_trigger_never_fires_a_second_day() {
    let cues = vec![wall_clock_cue(3, "20:00:00", RepeatMode::Once)];
    let today = NaiveDate::from_ymd_opt(2026, 9, 3).unwrap();
    let target = NaiveTime::from_hms_opt(20, 0, 0).unwrap();
    let fired =
        vec![ClockFired { qid: Qid::new(3, 0), date: day(today), target: time(target) }];
    let tomorrow = today.succ_opt().unwrap();
    assert!(due_wall_clock_cues(&cues, day(tomorrow), time(target), &fired).is_empty());
}

#[test]
fn twelve_hour_and_disabled_wall_clock_triggers_are_handled() {
    let mut disabled = wall_clock_cue(4, "08:00:00 PM", RepeatMode::Daily);
    disabled.base.enabled = false;
    let cues = vec![wall_clock_cue(3, "08:00:00 PM", RepeatMode::Daily), disabled];
    let today = NaiveDate::from_ymd_opt(2026, 9, 3).unwrap();
    let at = NaiveTime::from_hms_opt(20, 0, 0).unwrap();
    let due = due_wall_clock_cues(&cues, day(today), time(at), &Vec::new());
    assert_eq!(due.len(), 1);
    assert_eq!(due[0].qid, Qid::new(3, 0));
    assert_eq!(due[0].target, time(at));
    assert_eq!(due[0].text, "08:00:00 PM");
}

#[test]
fn times_that_cannot_be_read_never_fire() {
    let cues = vec![
        wall_clock_cue(1, "soon", RepeatMode::Daily),
        wall_clock_cue(2, "25:00:00", RepeatMode::Daily),
    ];
    let at = ClockTime { secs: 0, nanos: 0 };
    assert!(due_wall_clock_cues(&cues, 1, at, &Vec::new()).is_empty());
}

#[test]
fn the_clock_window_is_two_seconds_wide_on_either_side() {
    let target = ClockTime { secs: 72_000, nanos: 0 };
    let due = |secs, nanos| {
        wall_clock_due(target, RepeatMode::Daily, 1, ClockTime { secs, nanos }, None)
    };
    assert!(due(72_000, 0));
    assert!(due(72_001, 999_999_999));
    assert!(due(71_998, 1));
    assert!(!due(72_003, 0));
    assert!(!due(71_997, 0));
}

#[test]
fn timecode_triggers_come_due_once_and_skip_disabled_cues() {
    let mut off = timecode_cue(8, 2.0);
    off.base.enabled = false;
    let cues = vec![timecode_cue(7, 5.0), off, timecode_cue(9, 9.0)];
    let mut fired = Vec::new();
    assert!(due_timecode_cues(&cues, double(4.9), &fired).is_empty());
    let due = due_timecode_cues(&cues, double(5.0), &fired);
    assert_eq!(due, vec![(Qid::new(7, 0), double(5.0))]);
    fired.push(Qid::new(7, 0));
    assert!(due_timecode_cues(&cues, double(6.0), &fired).is_empty());
}

#[test]
fn polling_publishes_the_next_trigger_and_fires_nothing_while_paused() {
    let mut state = SharedState::new();
    state.show_file.cues = vec![timecode_cue(7, 5.0), timecode_cue(9, 9.0), timecode_cue(8, 7.0)];
    let mut fired = Vec::new();

    assert!(poll_timecode_triggers(&mut state, &mut fired, Some(double(6.0)), true).is_empty());
    assert_eq!(state.next_timecode, Some((Qid::new(8, 0), double(7.0))));

    let due = poll_timecode_triggers(&mut state, &mut fired, Some(double(6.0)), false);
    assert_eq!(due, vec![(Qid::new(7, 0), double(5.0))]);
    assert_eq!(fired, vec![Qid::new(7, 0)]);
    assert!(poll_timecode_triggers(&mut state, &mut fired, Some(double(6.5)), false).is_empty());

    assert!(poll_timecode_triggers(&mut state, &mut fired, None, false).is_empty());
    assert!(fired.is_empty());
    assert_eq!(state.next_timecode, None);
}

#[test]
fn a_learned_midi_message_fires_its_cue() {
    let mut state = SharedState::new();
    state.show_file.cues = vec![plain_cue(1), plain_cue(2)];
    state.pending_midi_learn = Some(Qid::new(2, 0));
    let note = MidiEvent::NoteOn { channel: 3, note: 64, velocity: 80 };
    let out = process_midi_event(&mut state, note);
    assert_eq!(out.learned, Some(Qid::new(2, 0)));
    assert!(state.pending_midi_learn.is_none());
    assert!(state.dirty);

    let note = MidiEvent::NoteOn { channel: 3, note: 64, velocity: 80 };
    let out = process_midi_event(&mut state, note);
    assert_eq!(out.fire, vec![Qid::new(2, 0)]);
    let other = MidiEvent::NoteOn { channel: 3, note: 65, velocity: 80 };
    assert!(process_midi_event(&mut state, other).fire.is_empty());
}

#[test]
fn midi_triggers_need_their_kind_channel_and_velocity() {
    let mut state = SharedState::new();
    let mut cue = plain_cue(1);
    cue.base.triggers.midi = Some(MidiTrigger {
        channel: 0,
        kind: MidiTriggerKind::CC,
        note_or_cc: 7,
        velocity_min: 64,
    });
    state.show_file.cues = vec![cue];
    let fires = |state: &mut SharedState, ev| !process_midi_event(state, ev).fire.is_empty();
    assert!(fires(&mut state, MidiEvent::CC { channel: 0, cc: 7, value: 64 }));
    assert!(!fires(&mut state, MidiEvent::CC { channel: 0, cc: 7, value: 63 }));
    assert!(!fires(&mut state, MidiEvent::CC { channel: 1, cc: 7, value: 64 }));
    assert!(!fires(&mut state, MidiEvent::NoteOn { channel: 0, note: 7, velocity: 64 }));
}

#[test]
fn the_midi_bridge_reaches_full_range() {
    let mut state = SharedState::new();
    state.recorder_midi_enabled = true;
    state.recorder_midi_universe = 3;
    let out = process_midi_event(&mut state, MidiEvent::CC { channel: 0, cc: 10, value: 127 });
    assert_eq!(out.bridge, Some((3, 10, 255)));
    let out = process_midi_event(&mut state, MidiEvent::CC { channel: 0, cc: 10, value: 0 });
    assert_eq!(out.bridge, Some((3, 10, 0)));
}

#[test]
fn hotkeys_find_the_first_enabled_cue() {
    let mut off = plain_cue(1);
    off.base.triggers.hotkey = Some(HotkeyTrigger { key: "g".into() });
    off.base.enabled = false;
    let mut on = plain_cue(2);
    on.base.triggers.hotkey = Some(HotkeyTrigger { key: "G".into() });
    let cues = vec![off, on];
    assert_eq!(hotkey_cue(&cues, "g"), Some(Qid::new(2, 0)));
    assert_eq!(hotkey_cue(&cues, "h"), None);
}
