//! Cue looks, their fades, and recorded shows.

use cuepool::dmx::{
    destination, look_frames, segment_colours, wanted_outputs, Axis, Corner, Destination,
    FixturePatch, LayerSource, LightingConfig, ScanOrder, SegmentPatch, SegmentRow,
};
use cuepool::ieee::Single;
use cuepool::lighting::{
    ActiveShow, Envelope, FadeSample, LightingEngine, LightingProtocol, RecordedEvent, ShowClock,
};
use cuepool::qid::Qid;
use cuepool::show::{FadeType, LoopMode};
use cuepool::table::Table;
use rustjay_lighting::{
    builtin_profiles, render_look, FixtureLook, FixtureProfile, MaskedFrame, RecEvent, ShowPlayer,
};

/// A second, in the unit of the library's clock.
const SECOND: u64 = 1_000_000_000;
const MILLI: u64 = 1_000_000;
/// When the tests begin.
const START: u64 = 100 * SECOND;

fn single(x: f32) -> Single {
    Single { bits: x.to_bits() }
}

fn number(x: Single) -> f32 {
    f32::from_bits(x.bits)
}

fn look(dimmer: f32) -> FixtureLook {
    FixtureLook { dimmer, ..Default::default() }
}

fn curve(t: f32, fade_type: FadeType) -> f32 {
    match fade_type {
        FadeType::Linear => t,
        FadeType::Square => t * t,
        FadeType::InverseSquare => t.sqrt(),
        FadeType::SCurve => t * t * (3.0 - 2.0 * t),
    }
}

fn seconds(ns: u64) -> f32 {
    std::time::Duration::from_nanos(ns).as_secs_f32()
}

fn samples(eng: &LightingEngine, now: u64) -> Table<FadeSample> {
    let mut table = Table::new();
    for id in eng.fades.keys() {
        let fade = eng.fades.get(id).unwrap();
        let elapsed = seconds(now - fade.start);
        let t = elapsed / number(fade.duration);
        let look = fade.from.lerp(&fade.to, curve(t, fade.fade_type));
        table.insert(id, FadeSample { elapsed: single(elapsed), look });
    }
    table
}

fn go_at(
    eng: &mut LightingEngine,
    snapshot: &[(u32, FixtureLook)],
    fade_time: f32,
    fade_type: FadeType,
    now: u64,
) {
    let sampled = samples(eng, now);
    eng.go(
        &snapshot.to_vec(),
        &sampled,
        FixtureLook::default(),
        single(fade_time),
        fade_type,
        now,
    );
}

fn evaluate(eng: &mut LightingEngine, now: u64, id: u32) -> FixtureLook {
    let sampled = samples(eng, now);
    eng.evaluate(&sampled);
    *eng.live.get(id).expect("fixture has a look")
}

fn assert_dimmers(eng: &mut LightingEngine, now: u64, expected: &[(u32, f32)]) {
    for (id, expected) in expected {
        let actual = evaluate(eng, now, *id).dimmer;
        assert!(
            (actual - expected).abs() < 1e-5,
            "fixture {id}: expected {expected}, got {actual}"
        );
    }
}

fn profile(id: &str) -> FixtureProfile {
    builtin_profiles().into_iter().find(|p| p.id == id).expect("a built-in profile")
}

#[test]
fn disjoint_cue_leaves_earlier_fade_running() {
    let mut eng = LightingEngine::new();
    let start = START;
    go_at(&mut eng, &[(4, look(1.0))], 30.0, FadeType::Linear, start);
    let movers_start = start + 6190 * MILLI;
    let profile = profile("dimmer");
    assert_eq!(render_look(&profile, &evaluate(&mut eng, movers_start, 4)), vec![52]);
    go_at(
        &mut eng,
        &[(1, look(1.0)), (2, look(0.5)), (3, look(0.25))],
        30.0,
        FadeType::Linear,
        movers_start,
    );
    assert_dimmers(&mut eng, start + 15 * SECOND, &[(4, 0.5), (1, 8.81 / 30.0)]);
    assert_dimmers(&mut eng, start + 30 * SECOND, &[(4, 1.0), (1, 23.81 / 30.0)]);
    assert_eq!(render_look(&profile, &evaluate(&mut eng, start + 30 * SECOND, 4)), vec![255]);
    assert_dimmers(
        &mut eng,
        movers_start + 30 * SECOND,
        &[(4, 1.0), (1, 1.0), (2, 0.5), (3, 0.25)],
    );
}

#[test]
fn simultaneous_cues_both_fade() {
    let mut eng = LightingEngine::new();
    let start = START;
    go_at(&mut eng, &[(1, look(1.0))], 10.0, FadeType::Linear, start);
    go_at(&mut eng, &[(2, look(0.5))], 10.0, FadeType::Linear, start);
    assert_dimmers(&mut eng, start, &[(1, 0.0), (2, 0.0)]);
    assert_dimmers(&mut eng, start + 5 * SECOND, &[(1, 0.5), (2, 0.25)]);
    assert_dimmers(&mut eng, start + 10 * SECOND, &[(1, 1.0), (2, 0.5)]);
}

#[test]
fn live_push_replaces_only_addressed_fixtures() {
    let mut eng = LightingEngine::new();
    let start = START;
    go_at(&mut eng, &[(1, look(1.0)), (2, look(1.0))], 10.0, FadeType::Linear, start);
    go_at(
        &mut eng,
        &[(2, look(0.25)), (3, look(0.75))],
        0.0,
        FadeType::Linear,
        start + 2 * SECOND,
    );
    assert_dimmers(&mut eng, start + 2 * SECOND, &[(1, 0.2), (2, 0.25), (3, 0.75)]);
    assert_dimmers(&mut eng, start + 10 * SECOND, &[(1, 1.0), (2, 0.25), (3, 0.75)]);
}

#[test]
fn same_fixture_takeover_starts_at_current_look() {
    let mut eng = LightingEngine::new();
    let start = START;
    go_at(&mut eng, &[(1, look(1.0))], 10.0, FadeType::Linear, start);
    let takeover = start + 4 * SECOND;
    go_at(&mut eng, &[(1, look(0.0))], 6.0, FadeType::Linear, takeover);
    assert_dimmers(&mut eng, takeover, &[(1, 0.4)]);
    assert_dimmers(&mut eng, takeover + 3 * SECOND, &[(1, 0.2)]);
    assert_dimmers(&mut eng, takeover + 6 * SECOND, &[(1, 0.0)]);
}

#[test]
fn fixture_curves_and_completion_are_independent() {
    let mut eng = LightingEngine::new();
    let start = START;
    let moving = FixtureLook {
        dimmer: 1.0,
        color: [1.0, 0.5, 0.25],
        pan: 1.0,
        tilt: 0.0,
        strobe: 1.0,
        gobo: 42,
        ..Default::default()
    };
    for (id, duration, curve, target) in [
        (1, 4.0, FadeType::Linear, look(1.0)),
        (2, 8.0, FadeType::Square, moving),
        (3, 16.0, FadeType::InverseSquare, look(1.0)),
        (4, 16.0, FadeType::SCurve, look(1.0)),
    ] {
        go_at(&mut eng, &[(id, target)], duration, curve, start);
    }
    assert!(eng.is_active());
    let halfway = start + 4 * SECOND;
    assert_dimmers(&mut eng, halfway, &[(1, 1.0), (2, 0.25), (3, 0.5), (4, 0.15625)]);
    assert!(eng.fades.get(1).is_none(), "completed fixture holds its target");
    assert!(eng.is_active(), "other fixtures are still fading");
    assert_eq!(
        evaluate(&mut eng, halfway, 2),
        FixtureLook {
            dimmer: 0.25,
            color: [0.25, 0.125, 0.0625],
            pan: 0.625,
            tilt: 0.375,
            ..Default::default()
        },
        "continuous parameters fade; strobe and gobo wait until the end",
    );
    assert_eq!(evaluate(&mut eng, start + 8 * SECOND, 2), moving);
    assert!(eng.is_active());
    assert_dimmers(
        &mut eng,
        start + 16 * SECOND,
        &[(1, 1.0), (2, 1.0), (3, 1.0), (4, 1.0)],
    );
    assert!(!eng.is_active(), "the last fade has finished");
    assert_eq!(evaluate(&mut eng, start + 30 * SECOND, 2), moving);
}

#[test]
fn empty_snapshot_leaves_fades_running() {
    let mut eng = LightingEngine::new();
    let start = START;
    go_at(&mut eng, &[(1, look(1.0))], 10.0, FadeType::Linear, start);
    for fade_time in [0.0, 5.0] {
        go_at(&mut eng, &[], fade_time, FadeType::Square, start + 2 * SECOND);
    }
    assert!(eng.is_active());
    assert_dimmers(&mut eng, start + 10 * SECOND, &[(1, 1.0)]);
    assert!(!eng.is_active());
}

#[test]
fn stop_holds_all_fixtures_without_stopping_shows_or_overlay() {
    let mut eng = LightingEngine::new();
    let start = START;
    eng.shows.push(show(LoopMode::LoopedInfinite, 0.0));
    eng.set_overlay(Some((150, MaskedFrame::default())));
    go_at(&mut eng, &[(1, look(1.0))], 10.0, FadeType::Linear, start);
    go_at(&mut eng, &[(2, look(0.8))], 20.0, FadeType::Linear, start + 2 * SECOND);
    eng.dirty = false;
    let sampled = samples(&eng, start + 5 * SECOND);
    eng.stop_fade(&sampled);
    assert!(eng.dirty, "the held looks must be submitted");
    assert!(eng.fades.is_empty());
    assert_dimmers(&mut eng, start + 30 * SECOND, &[(1, 0.5), (2, 0.12)]);
    assert_eq!(eng.active_show_qids(), vec![Qid::new(1, 0)]);
    assert!(eng.shows[0].stopping.is_none());
    assert!(eng.take_finished_shows().is_empty());
    assert!(eng.is_active(), "recorded show and overlay remain active");
    eng.stop_all_shows();
    assert!(eng.is_active(), "overlay alone remains active");
    eng.set_overlay(None);
    assert!(!eng.is_active());
}

/// Two events: channel 0 is 100 at once and 200 after a second.
fn show(loop_mode: LoopMode, fade_out: f32) -> ActiveShow {
    let event = |t_ms, value| RecEvent { t_ms, universe: 1, channel: 0, value };
    ActiveShow {
        qid: Qid::new(1, 0),
        player: ShowPlayer::new(vec![event(0, 100), event(1000, 200)]),
        started: START,
        priority: 100,
        loop_mode,
        loop_count: 1,
        fade_in: single(0.0),
        fade_out: single(fade_out),
        fade_type: FadeType::Linear,
        stopping: None,
        finished_reported: false,
    }
}

/// The clock of a show at `age_ms` after its start.
fn clock(s: &ActiveShow, age_ms: u64, now: u64) -> ShowClock {
    let end = s.end_ms().map_or(0.0, |ms| ms as f32 / 1000.0);
    ShowClock {
        elapsed_ms: age_ms,
        elapsed: single(age_ms as f32 / 1000.0),
        end: single(end),
        tail: single((end - number(s.fade_out)).max(0.0)),
        stop_elapsed: single(s.stopping.map_or(0.0, |(start, _, _)| seconds(now - start))),
    }
}

fn weight(s: &ActiveShow, c: &ShowClock, e: Envelope) -> f32 {
    let elapsed = number(c.elapsed);
    let mut weight = 1.0;
    if e.fade_in {
        weight *= curve((elapsed / number(s.fade_in)).clamp(0.0, 1.0), s.fade_type);
    }
    if e.tail {
        let (tail, end) = (number(c.tail), number(c.end));
        let t = (elapsed - tail) / (end - tail).max(f32::EPSILON);
        weight *= 1.0 - curve(t.clamp(0.0, 1.0), s.fade_type);
    }
    if let (true, Some((_, duration, fade_type))) = (e.stopping, s.stopping) {
        let t = number(c.stop_elapsed) / number(duration).max(f32::EPSILON);
        weight *= 1.0 - curve(t.clamp(0.0, 1.0), fade_type);
    }
    weight
}

fn eval(s: &mut ActiveShow, age_ms: u64, finished: &mut Vec<Qid>) -> Option<f32> {
    let c = clock(s, age_ms, START + age_ms * MILLI);
    let e = s.eval(&c, finished)?;
    Some(weight(s, &c, e))
}

fn shown(s: &ActiveShow) -> u8 {
    s.player.frame().get(1).unwrap().values()[0]
}

#[test]
fn show_oneshot_plays_and_releases_at_end() {
    let mut fin = Vec::new();
    let mut s = show(LoopMode::OneShot, 0.0);
    assert_eq!(eval(&mut s, 500, &mut fin), Some(1.0));
    assert_eq!(shown(&s), 100);
    assert!(fin.is_empty());

    let mut s = show(LoopMode::OneShot, 0.0);
    assert_eq!(eval(&mut s, 1500, &mut fin), None, "released past end");
    assert_eq!(fin, vec![Qid::new(1, 0)], "natural end reported once");
}

#[test]
fn show_holdlast_holds_but_reports_finished() {
    let mut fin = Vec::new();
    let mut s = show(LoopMode::HoldLast, 0.0);
    assert_eq!(eval(&mut s, 5000, &mut fin), Some(1.0), "holds forever");
    assert_eq!(shown(&s), 200, "last frame");
    assert_eq!(fin, vec![Qid::new(1, 0)]);
    eval(&mut s, 5001, &mut fin);
    assert_eq!(fin.len(), 1);
}

#[test]
fn show_infinite_loop_wraps_playhead() {
    let mut fin = Vec::new();
    let mut s = show(LoopMode::LoopedInfinite, 0.0);
    assert_eq!(eval(&mut s, 1500, &mut fin), Some(1.0));
    assert_eq!(shown(&s), 100);
    assert!(fin.is_empty(), "infinite loop never finishes");
}

#[test]
fn show_tail_fade_out_weight() {
    let mut fin = Vec::new();
    let mut s = show(LoopMode::OneShot, 1.0);
    let w = eval(&mut s, 500, &mut fin).expect("still live");
    assert!((w - 0.5).abs() < 0.05, "mid tail-fade weight ~0.5, got {w}");
}

#[test]
fn show_stop_fades_then_releases() {
    let mut fin = Vec::new();
    let mut s = show(LoopMode::LoopedInfinite, 0.0);
    let now = START + 4 * SECOND;
    s.stopping = Some((now - SECOND, single(2.0), FadeType::Linear));
    let c = clock(&s, 500, now);
    let e = s.eval(&c, &mut fin).expect("mid stop-fade");
    let w = weight(&s, &c, e);
    assert!((w - 0.5).abs() < 0.05, "stop fade half done, got {w}");

    s.stopping = Some((now - 3 * SECOND, single(2.0), FadeType::Linear));
    let c = clock(&s, 500, now);
    assert_eq!(s.eval(&c, &mut fin), None);
    assert_eq!(fin, vec![Qid::new(1, 0)]);
}

fn event(t_ms: u32, value: u8) -> RecordedEvent {
    RecordedEvent { t_ms, universe: 1, channel: 0, value }
}

fn fire(eng: &mut LightingEngine, qid: Qid, events: &Vec<RecordedEvent>, priority: u8, now: u64) {
    eng.go_show(
        qid,
        events,
        priority,
        single(0.0),
        single(0.0),
        FadeType::Linear,
        LoopMode::OneShot,
        1,
        now,
    );
}

#[test]
fn go_show_refire_replaces_and_stop_all_clears() {
    let mut eng = LightingEngine::new();
    let ev = vec![event(1000, 9)];
    fire(&mut eng, Qid::new(1, 0), &ev, 100, START);
    fire(&mut eng, Qid::new(1, 0), &ev, 120, START);
    assert_eq!(eng.shows.len(), 1, "refire replaces, not stacks");
    assert_eq!(eng.shows[0].priority, 120);
    assert!(
        !eng.stop_show(Qid::new(2, 0), single(0.0), FadeType::Linear, START),
        "unknown qid"
    );
    eng.stop_all_shows();
    assert!(eng.shows.is_empty());
}

#[test]
fn go_snap_and_fade_evaluate() {
    let mut eng = LightingEngine::new();
    go_at(&mut eng, &[(1, look(1.0))], 0.0, FadeType::Linear, START);
    assert_eq!(evaluate(&mut eng, START, 1).dimmer, 1.0);

    go_at(&mut eng, &[(1, look(0.0))], 10.0, FadeType::Linear, START);
    let early = evaluate(&mut eng, START + MILLI, 1).dimmer;
    assert!(early > 0.9, "fade barely started, got {early}");
    let end = evaluate(&mut eng, START + 11 * SECOND, 1).dimmer;
    assert_eq!(end, 0.0);
}

#[test]
fn absent_fixture_tracks_through_cue() {
    let mut eng = LightingEngine::new();
    go_at(&mut eng, &[(1, look(0.8))], 0.0, FadeType::Linear, START);
    go_at(&mut eng, &[(2, look(0.5))], 0.0, FadeType::Linear, START);
    assert_eq!(evaluate(&mut eng, START, 1).dimmer, 0.8);
    assert_eq!(evaluate(&mut eng, START, 2).dimmer, 0.5);
}

#[test]
fn stop_fade_holds_midpoint() {
    let mut eng = LightingEngine::new();
    go_at(&mut eng, &[(1, look(1.0))], 0.0, FadeType::Linear, START);
    go_at(&mut eng, &[(1, look(0.0))], 100.0, FadeType::Linear, START);
    let sampled = samples(&eng, START + MILLI);
    eng.stop_fade(&sampled);
    let held = evaluate(&mut eng, START + SECOND, 1).dimmer;
    assert!(held > 0.95, "held near start value, got {held}");
    assert!(eng.fades.is_empty());
}

#[test]
fn a_played_recording_moves_and_ends() {
    let mut eng = LightingEngine::new();
    fire(&mut eng, Qid::new(5, 0), &vec![event(0, 10), event(1000, 20)], 100, START);
    let c = clock(&eng.shows[0], 400, START + 400 * MILLI);
    let envelopes = eng.advance_shows(&vec![c]);
    assert_eq!(shown(&eng.shows[0]), 10);
    assert_eq!(envelopes.len(), 1);
    eng.finish_tick(&envelopes);
    assert_eq!(eng.shows.len(), 1);

    let c = clock(&eng.shows[0], 1000, START + SECOND);
    let envelopes = eng.advance_shows(&vec![c]);
    assert_eq!(envelopes, vec![None]);
    eng.finish_tick(&envelopes);
    assert!(eng.shows.is_empty());
    assert_eq!(eng.take_finished_shows(), vec![Qid::new(5, 0)]);
    assert!(eng.take_finished_shows().is_empty());
}

#[test]
fn a_recording_without_length_ends_at_once() {
    let mut fin = Vec::new();
    let mut s = show(LoopMode::LoopedInfinite, 0.0);
    s.player = ShowPlayer::new(Vec::new());
    assert_eq!(eval(&mut s, 0, &mut fin), None);
    assert_eq!(fin, vec![Qid::new(1, 0)]);
}

#[test]
fn counted_loops_play_so_many_times() {
    let mut fin = Vec::new();
    let mut s = show(LoopMode::Looped, 0.0);
    s.loop_count = 3;
    assert_eq!(s.end_ms(), Some(3000));
    assert_eq!(eval(&mut s, 2500, &mut fin), Some(1.0));
    assert_eq!(shown(&s), 100);
    assert_eq!(eval(&mut s, 3000, &mut fin), None);
    assert_eq!(shown(&s), 200);
}

#[test]
fn a_stop_without_time_overrides_one_with() {
    let mut eng = LightingEngine::new();
    fire(&mut eng, Qid::new(1, 0), &vec![event(1000, 9)], 100, START);
    assert!(eng.stop_show(Qid::new(10, 1), single(2.0), FadeType::Linear, START));
    assert!(eng.stop_show(Qid::new(1, 0), single(4.0), FadeType::Square, START + SECOND));
    assert_eq!(eng.shows[0].stopping, Some((START, single(2.0), FadeType::Linear)));
    assert!(eng.stop_show(Qid::new(1, 0), single(0.0), FadeType::Square, START + SECOND));
    assert_eq!(eng.shows[0].stopping, Some((START + SECOND, single(0.0), FadeType::Square)));
}

#[test]
fn shutting_down_forgets_everything() {
    let mut eng = LightingEngine::new();
    go_at(&mut eng, &[(1, look(0.8))], 0.0, FadeType::Linear, START);
    fire(&mut eng, Qid::new(1, 0), &vec![event(1000, 9)], 100, START);
    eng.set_segment_pixels(7, 1, 1, vec![1, 2, 3, 4]);
    eng.shutdown();
    assert!(!eng.is_active());
    assert!(eng.live.is_empty());
    assert!(!eng.dirty);
    assert!(eng.segment_pixels.is_empty());
}

#[test]
fn segments_are_read_in_scan_order() {
    // Two by two pixels: a b over c d.
    let rgba: Vec<u8> = vec![1, 1, 1, 255, 2, 2, 2, 255, 3, 3, 3, 255, 4, 4, 4, 255];
    let order = |start_corner, serpentine, primary| ScanOrder { start_corner, serpentine, primary };
    let reds = |o| segment_colours(&rgba, 2, 2, o).iter().map(|p| p[0]).collect::<Vec<u8>>();
    assert_eq!(reds(order(Corner::TopLeft, false, Axis::Horizontal)), [1, 2, 3, 4]);
    assert_eq!(reds(order(Corner::TopLeft, true, Axis::Horizontal)), [1, 2, 4, 3]);
    assert_eq!(reds(order(Corner::BottomRight, false, Axis::Vertical)), [4, 2, 3, 1]);
    assert_eq!(reds(order(Corner::TopRight, false, Axis::Horizontal)), [2, 1, 4, 3]);
    // A pixel of which a byte or two came is black.
    let cut = vec![9, 8, 7, 6, 5, 4];
    let row = segment_colours(&cut, 2, 1, order(Corner::TopLeft, false, Axis::Horizontal));
    assert_eq!(row, [[7, 8, 9, 6], [0, 0, 0, 255]]);
}

fn config() -> LightingConfig {
    let patch = |id, address, dest: &str| FixturePatch {
        id,
        universe: 1,
        address,
        dest: dest.to_string(),
    };
    LightingConfig {
        enabled: true,
        protocol: LightingProtocol::Sacn,
        dest_ip: String::new(),
        fps: single(40.0),
        look_priority: 100,
        fixtures: vec![patch(1, 10, ""), patch(2, 20, "10.0.0.2"), patch(3, 511, "")],
        segments: vec![SegmentPatch { id: 9, universe: 2, address: 1 }],
    }
}

#[test]
fn fixtures_write_into_the_frame_of_their_node() {
    let rendered = vec![Some(vec![5, 6]), Some(vec![7]), Some(vec![8, 9, 10])];
    let rows = vec![Some(SegmentRow { footprint: 3, bytes: vec![1, 2, 3, 4, 5, 6] })];
    let frames = look_frames(&config(), &rendered, &rows);
    let project = frames.position("").expect("a frame for the project's destination");
    let node = frames.position("10.0.0.2").expect("a frame for the node");
    assert_eq!(frames.position("10.0.0.3"), None);
    let one = frames.frames[project].get(1).unwrap();
    assert_eq!(&one.values()[9..11], &[5, 6]);
    assert_eq!(&one.values()[510..512], &[8, 9]);
    assert!(one.owned(9) && !one.owned(11));
    let two = frames.frames[project].get(2).unwrap();
    assert_eq!(&two.values()[0..6], &[1, 2, 3, 4, 5, 6]);
    assert_eq!(frames.frames[node].get(1).unwrap().values()[19], 7);
    assert!(frames.frames[node].get(2).is_none());
}

#[test]
fn a_fixture_without_a_rendering_writes_nothing() {
    let frames = look_frames(&config(), &vec![None, None, None], &vec![None]);
    for frame in &frames.frames {
        assert!(frame.get(1).is_none());
    }
}

#[test]
fn there_is_one_output_for_each_destination() {
    let plan = wanted_outputs(&config()).unwrap();
    assert_eq!(plan.dests, ["", "10.0.0.2"]);
    let mut off = config();
    off.enabled = false;
    assert!(wanted_outputs(&off).is_none());
    assert!(matches!(destination("", LightingProtocol::Sacn), Destination::Multicast));
    assert!(matches!(destination("", LightingProtocol::ArtNet), Destination::Broadcast));
    assert!(matches!(destination("10.0.0.2", LightingProtocol::Sacn), Destination::Address(a) if a == "10.0.0.2"));
}

#[test]
fn senders_are_rebuilt_only_when_the_plan_changes() {
    let mut eng = LightingEngine::new();
    assert_eq!(eng.reconcile_sender(&config()), Some(vec!["".to_string(), "10.0.0.2".to_string()]));
    eng.sender_opened("");
    eng.sender_opened("10.0.0.2");
    assert_eq!(eng.reconcile_sender(&config()), None);
    let mut faster = config();
    faster.fps = single(44.0);
    assert!(eng.reconcile_sender(&faster).is_some());
    let mut off = config();
    off.enabled = false;
    assert_eq!(eng.reconcile_sender(&off), Some(Vec::new()));
    assert!(eng.senders.is_empty());
}

#[test]
fn ticks_are_paced_and_frames_sent_on_change() {
    let mut eng = LightingEngine::new();
    assert!(eng.tick_due(single(0.0), START));
    assert!(!eng.tick_due(single(1.0 / 61.0), START + 16 * MILLI));
    assert!(eng.tick_due(single(1.0 / 60.0), START + 17 * MILLI));
    assert!(!eng.frame_due());
    eng.set_overlay(Some((150, MaskedFrame::default())));
    eng.sender_opened("");
    assert!(eng.frame_due());
}

#[test]
fn layers_are_stacked_looks_shows_overlay() {
    let mut eng = LightingEngine::new();
    fire(&mut eng, Qid::new(1, 0), &vec![event(1000, 9)], 110, START);
    fire(&mut eng, Qid::new(2, 0), &vec![event(1000, 9)], 90, START);
    eng.set_overlay(Some((150, MaskedFrame::default())));
    let kept = Some(Envelope { fade_in: false, tail: false, stopping: false });
    let layers = eng.layers(&vec![kept, None], Some(100), true);
    assert_eq!(
        layers.iter().map(|l| (l.priority, l.source)).collect::<Vec<_>>(),
        vec![(100, LayerSource::Looks), (110, LayerSource::Show(0)), (150, LayerSource::Overlay)]
    );
    let elsewhere = eng.layers(&vec![kept, None], Some(100), false);
    assert_eq!(elsewhere.len(), 1);
}

#[test]
fn segments_that_left_the_patch_are_dropped() {
    let mut eng = LightingEngine::new();
    eng.set_segment_pixels(9, 1, 1, vec![0; 4]);
    eng.set_segment_pixels(8, 1, 1, vec![0; 4]);
    eng.retain_segments(&config());
    assert!(eng.segment_pixels.get(9).is_some());
    assert!(eng.segment_pixels.get(8).is_none());
    eng.dirty = false;
    eng.clear_segment_pixels(8);
    assert!(!eng.dirty);
    eng.clear_segment_pixels(9);
    assert!(eng.dirty);
}

#[test]
fn every_open_output_gets_a_frame() {
    let mut eng = LightingEngine::new();
    for dest in ["", "10.0.0.2", "10.0.0.9"] {
        eng.sender_opened(dest);
    }
    eng.set_segment_pixels(8, 1, 1, vec![0; 4]);
    fire(&mut eng, Qid::new(1, 0), &vec![event(1000, 9)], 110, START);
    let rendered = vec![Some(vec![5, 6]), Some(vec![7]), None];
    let c = clock(&eng.shows[0], 400, START + 400 * MILLI);
    let plan = eng.tick(&config(), &rendered, &vec![None], &vec![c]);
    assert!(eng.segment_pixels.get(8).is_none());
    let sent: Vec<(&str, Vec<LayerSource>)> = plan
        .outputs
        .iter()
        .map(|o| (o.dest.as_str(), o.layers.iter().map(|l| l.source).collect()))
        .collect();
    assert_eq!(
        sent,
        vec![
            ("", vec![LayerSource::Looks, LayerSource::Show(0)]),
            ("10.0.0.2", vec![LayerSource::Looks]),
            ("10.0.0.9", vec![]),
        ]
    );
    let node = plan.outputs[1].looks.unwrap();
    assert_eq!(plan.looks.frames[node].get(1).unwrap().values()[19], 7);

    let c = clock(&eng.shows[0], 1000, START + SECOND);
    let plan = eng.tick(&config(), &rendered, &vec![None], &vec![c]);
    assert_eq!(plan.outputs[0].layers.len(), 1);
    eng.finish_tick(&plan.envelopes);
    assert!(eng.shows.is_empty() && !eng.dirty);
}
