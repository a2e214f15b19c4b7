//! The video deck: seeking, pausing, decoding and following timecode.

use cuepool::ieee::{Double, Single};
use cuepool::qid::Qid;
use cuepool::show::{
    CanvasFit, Cue, CueBase, CueKind, CueTriggers, FadeType, LoopMode, TriggerMode,
};
use cuepool::state::SharedState;
use cuepool::video::{
    clamp_video_seek_secs, queue_latest_video_decode, take_ready_video_decode, video_paused_position,
    video_seek_clock, video_start_clock, DecodeRequest, FailStep, FollowTarget, FrameRate,
    FrameStep, Locate, MtcAdjust, MtcFollow, PlayVideo, VideoControl, VideoDeck, Worker,
    MAX_VIDEO_OPEN_RETRIES,
};

const SECOND: u64 = 1_000_000_000;
const NOW: u64 = 1_000 * SECOND;

fn double(x: f64) -> Double {
    Double { bits: x.to_bits() }
}

fn number(x: Double) -> f64 {
    f64::from_bits(x.bits)
}

fn nanos(secs: f64) -> u64 {
    std::time::Duration::from_secs_f64(secs).as_nanos() as u64
}

fn deck() -> VideoDeck {
    VideoDeck {
        control: VideoControl {
            stream_epoch: 0,
            streaming: false,
            clock: None,
            paused: false,
            pause_started: None,
            peek_pts: None,
            last_pts: None,
            canvas_has_frame: false,
            media_length: None,
            timeline_offset: double(0.0),
            fade: None,
            hold_position: None,
            seek_frame: None,
            step_pending: false,
            fit: CanvasFit::Fit,
            video_active: false,
            text_active: false,
        },
        stop: false,
        video_paused: false,
        pixmap_paused: false,
        paused: false,
        pending: None,
        worker: Worker::Idle,
        current_qid: None,
        current_text: None,
        current_pixmap: None,
        pixmap_stop: false,
        pixmap_streaming: false,
        current_instance: None,
        session: 0,
        session_instance: None,
        open_retries: 0,
        follow: None,
        last_hard_sync: None,
        drift: None,
        warned_rate: None,
    }
}

fn request(path: &str, start_before: f64) -> DecodeRequest {
    DecodeRequest {
        path: path.into(),
        start_before: Some(double(start_before)),
        seek_frame: None,
        clamp_to_media: true,
        session: 0,
    }
}

fn playing(path: &str) -> VideoDeck {
    let mut d = deck();
    d.play_video(PlayVideo {
        path: path.into(),
        qid: Qid::new(12, 1),
        instance_id: 4,
        start_time: double(0.0),
        duration: double(0.0),
        media_end: double(0.0),
        media_target: Some(0),
        fit: CanvasFit::Fill,
        fresh_session: 9,
        now: NOW,
    });
    d
}

#[test]
fn seeks_clamp_to_the_media_length() {
    let length = Some(double(230.02));
    let clamp = |secs: f64, length| number(clamp_video_seek_secs(double(secs), length));
    assert_eq!(clamp(12.0, length), 12.0);
    assert!(clamp(500.0, length) < 230.02);
    assert!(clamp(230.02, length) < 230.02);
    assert_eq!(clamp(500.0, None), 500.0);
    assert_eq!(clamp(f64::INFINITY, None), 0.0);
}

#[test]
fn a_seek_that_is_no_number_goes_to_an_end() {
    let clamp = |secs: f64, length| number(clamp_video_seek_secs(double(secs), length));
    assert_eq!(clamp(f64::NAN, None), 0.0);
    assert_eq!(clamp(f64::NAN, Some(double(10.0))), 10.0f64.next_down());
    assert_eq!(clamp(20.0, Some(double(f64::INFINITY))), 20.0);
    assert_eq!(clamp(20.0, Some(double(0.0))), 20.0);
}

#[test]
fn video_seek_clock_freezes_only_when_paused() {
    let now = NOW;
    let target = 3.25;

    let (clock, pause_started) = video_seek_clock(now, Some(nanos(target)), false).unwrap();
    assert_eq!(pause_started, None);
    assert_eq!(now - clock, nanos(target));

    let (clock, pause_started) = video_seek_clock(now, Some(nanos(target)), true).unwrap();
    assert_eq!(pause_started, Some(now));
    assert_eq!(now - clock, nanos(target));

    assert_eq!(video_seek_clock(now, Some(now + 1), false), None);
    assert_eq!(video_seek_clock(now, None, false), None);
}

#[test]
fn video_start_clock_keeps_audio_anchor_after_output_setup() {
    let now = NOW;
    let clock_origin = 10 * SECOND;
    let engine_now = clock_origin + 275_000_000;
    let media_offset = 3.25;

    let clock =
        video_start_clock(now, Some(nanos(media_offset) + (engine_now - clock_origin))).unwrap();

    assert_eq!(now - clock, nanos(media_offset) + 275_000_000);
}

#[test]
fn video_decode_gate_keeps_only_the_latest_request_and_one_worker() {
    let mut worker = Worker::Busy;
    let mut pending = None;
    queue_latest_video_decode(&mut pending, request("first.mp4", 1.0));
    queue_latest_video_decode(&mut pending, request("latest.mp4", 2.0));

    assert!(take_ready_video_decode(&mut worker, &mut pending).is_none());
    assert_eq!(pending.as_ref().unwrap().path, "latest.mp4");

    worker = Worker::Finished;
    let request = take_ready_video_decode(&mut worker, &mut pending).unwrap();
    assert_eq!(request.path, "latest.mp4");
    assert_eq!(worker, Worker::Idle);
}

#[test]
fn playing_a_video_queues_its_decode() {
    let mut d = playing("clip.mov");
    assert_eq!(d.current_qid, Some(Qid::new(12, 1)));
    assert_eq!(d.current_instance, Some(4));
    assert_eq!(d.control.fit, CanvasFit::Fill);
    let start = d.start_pending_video_decode().unwrap();
    assert_eq!(start.request.path, "clip.mov");
    assert!(d.pending.is_none());
    assert!(d.is_current(start.stream_epoch));
    assert!(!d.is_current(start.stream_epoch + 1));
}

#[test]
fn stopping_cuts_the_old_stream_off() {
    let mut d = playing("clip.mov");
    let start = d.start_pending_video_decode().unwrap();
    d.stop_video_playback(&mut SharedState::new(), 11);
    assert!(!d.is_current(start.stream_epoch));
    assert!(d.stop);
    assert_eq!(d.current_qid, None);
    assert!(d.pending.is_none());
}

#[test]
fn a_pause_keeps_the_position() {
    let mut d = playing("clip.mov");
    d.control.clock = Some(NOW - 5 * SECOND);
    d.set_video_paused(true, None, NOW);
    assert_eq!(video_paused_position(&d.control, None, NOW + SECOND), Some(5 * SECOND));
    d.set_video_paused(false, None, NOW + 3 * SECOND);
    assert_eq!(d.control.clock, Some(NOW - 2 * SECOND));
}

#[test]
fn a_seek_goes_where_it_is_asked() {
    let mut d = playing("clip.mov");
    let to = |d: &mut VideoDeck, ns: u64| {
        d.seek_video_cue(
            Qid::new(12, 1),
            "clip.mov".into(),
            double(8.0),
            double(8.0),
            double(0.0),
            Some(ns),
            NOW,
        )
    };
    assert!(to(&mut d, 8 * SECOND).is_ok());
    assert_eq!(d.control.clock, Some(NOW - 8 * SECOND));
    assert!(to(&mut d, NOW + SECOND).is_err());
}

#[test]
fn opening_is_tried_again_a_few_times() {
    let mut d = playing("clip.mov");
    for attempt in 1..=MAX_VIDEO_OPEN_RETRIES {
        let epoch = d.control.stream_epoch;
        let again = Some(("clip.mov".to_string(), double(1.0)));
        assert_eq!(d.video_failed(epoch, again), FailStep::Retry { attempt });
    }
    let epoch = d.control.stream_epoch;
    let again = Some(("clip.mov".to_string(), double(1.0)));
    assert!(matches!(d.video_failed(epoch, again), FailStep::GiveUp { .. }));
    assert_eq!(d.video_failed(epoch + 100, None), FailStep::Stale);
}

#[test]
fn frames_are_stepped_only_while_paused() {
    let mut d = playing("clip.mov");
    assert_eq!(d.frame_step(None), FrameStep::Refused);
    assert_eq!(d.frame_step_back(double(1.0), &vec![clip(Qid::new(12, 1))]), FrameStep::Refused);

    d.set_video_paused(true, None, NOW + 5 * SECOND);
    d.control.peek_pts = None;
    assert_eq!(d.frame_step(Some(40)), FrameStep::NotReady);
    d.control.peek_pts = Some(double(5.04));
    let clock = d.control.clock.unwrap();
    assert_eq!(d.frame_step(Some(40)), FrameStep::Frame { moved: true });
    assert_eq!(d.control.clock, Some(clock - 40));
    assert!(d.control.step_pending);
    assert_eq!(d.frame_step(None), FrameStep::Frame { moved: false });

    let other = vec![clip(Qid::new(3, 0))];
    assert_eq!(d.frame_step_back(double(5.0), &other), FrameStep::Refused);
    d.control.last_pts = Some(double(0.0));
    let own = vec![clip(Qid::new(12, 1))];
    assert_eq!(d.frame_step_back(double(5.0), &own), FrameStep::Refused);
    d.control.last_pts = Some(double(4.96));
    assert_eq!(d.frame_step_back(double(5.0), &own), FrameStep::Sought);
    let pending = d.pending.as_ref().unwrap();
    assert_eq!(pending.path, "clip.mov");
    assert_eq!(pending.start_before, Some(double(4.96)));
    assert!(!pending.clamp_to_media);

    d.control.clock = None;
    assert_eq!(d.frame_step(None), FrameStep::Display);
    assert_eq!(d.frame_step_back(double(5.0), &own), FrameStep::Display);
}

fn clip(qid: Qid) -> Cue {
    Cue {
        base: CueBase {
            qid,
            parent: None,
            name: String::new(),
            enabled: true,
            trigger: TriggerMode::Go,
            loop_mode: LoopMode::OneShot,
            loop_count: 1,
            triggers: CueTriggers { hotkey: None, midi: None, wall_clock: None, timecode: None },
        },
        kind: CueKind::Video {
            path: "clip.mov".into(),
            start_time: double(0.0),
            duration: double(0.0),
            volume: Single { bits: 0x3f80_0000 },
            pan: Single { bits: 0 },
            fade_in: Single { bits: 0 },
            fade_out: Single { bits: 0 },
            fade_type: FadeType::Linear,
            follow_mtc: false,
            mtc_start: double(0.0),
        },
        extra: 0,
    }
}

fn target(adjust: MtcAdjust) -> FollowTarget {
    FollowTarget {
        playing: true,
        target: double(20.0),
        target_ns: 20 * SECOND,
        drift: double(0.1),
        far: false,
        adjust,
        locate: Locate { sync: false, hold: false },
        floor: SECOND,
    }
}

fn following() -> VideoDeck {
    let mut d = playing("clip.mov");
    d.control.streaming = true;
    d.control.clock = Some(NOW - 19 * SECOND);
    d.follow = Some(MtcFollow {
        qid: Qid::new(12, 1),
        path: "clip.mov".into(),
        offset: double(0.0),
        hold_position: None,
        last_tick: 0,
        last_mtc: double(20.0),
        last_mtc_at: NOW,
    });
    d
}

#[test]
fn drift_is_nudged_out_of_the_clock() {
    let mut d = following();
    d.nudge_video_clock(true, SECOND);
    assert_eq!(d.control.clock, Some(NOW - 20 * SECOND));
    d.nudge_video_clock(false, SECOND);
    assert_eq!(d.control.clock, Some(NOW - 19 * SECOND));
    d.mtc_reanchor(7 * SECOND, NOW);
    assert_eq!(d.control.clock, Some(NOW - 7 * SECOND));
}

#[test]
fn hard_syncs_keep_their_distance() {
    let mut d = following();
    assert!(d.mtc_hard_sync(&target(MtcAdjust::HardSync), NOW));
    assert!(!d.mtc_hard_sync(&target(MtcAdjust::HardSync), NOW + SECOND / 2));
    assert!(d.mtc_hard_sync(&target(MtcAdjust::HardSync), NOW + SECOND));
}

#[test]
fn a_wrong_rate_is_warned_of_once() {
    let mut d = deck();
    assert!(d.warn_of_rate(true, FrameRate::Fps24));
    assert!(!d.warn_of_rate(true, FrameRate::Fps24));
    assert!(d.warn_of_rate(true, FrameRate::Fps30));
}

#[test]
fn a_fresh_deck_has_no_fade() {
    let control = deck().control;
    assert!(control.fade.is_none());
    assert!(!cuepool::pacing::fade_done(&control, Single { bits: 0 }));
}

#[test]
fn a_followed_video_is_held_against_its_timecode() {
    // In step: the clock is nudged, and the drift is on record.
    let mut d = following();
    d.drive_mtc_follow(&target(MtcAdjust::Nudge { forward: true, ns: SECOND }), NOW);
    assert_eq!(d.control.clock, Some(NOW - 20 * SECOND));
    assert_eq!(d.drift, Some(double(0.1)));

    // Far off: the media is opened again at the target.
    let mut d = following();
    let epoch = d.control.stream_epoch;
    d.drive_mtc_follow(&target(MtcAdjust::HardSync), NOW);
    let pending = d.pending.as_ref().unwrap();
    assert_eq!(pending.path, "clip.mov");
    assert_eq!(pending.start_before, Some(double(20.0)));
    assert!(pending.clamp_to_media);
    assert_eq!(d.control.clock, Some(NOW - 20 * SECOND));
    assert_eq!(d.control.stream_epoch, epoch + 1);

    // The timecode stops: the picture holds at the target, and goes on from
    // there when it runs again.
    let mut d = following();
    let stopped = FollowTarget {
        playing: false,
        locate: Locate { sync: false, hold: true },
        ..target(MtcAdjust::Keep)
    };
    d.drive_mtc_follow(&stopped, NOW);
    assert_eq!(d.control.hold_position, Some(double(20.0)));
    assert_eq!(d.drift, None);
    d.drive_mtc_follow(&target(MtcAdjust::Keep), NOW);
    assert_eq!(d.control.hold_position, None);
    assert_eq!(d.control.clock, Some(NOW - 20 * SECOND));

    // Nothing follows: nothing happens.
    let mut d = playing("clip.mov");
    let clock = d.control.clock;
    d.drive_mtc_follow(&target(MtcAdjust::HardSync), NOW);
    assert_eq!(d.control.clock, clock);
}

#[test]
fn a_timecode_goes_on_between_two_messages() {
    let mut d = following();
    assert_eq!(d.note_timecode(double(20.0), NOW + 40), Some((40, NOW + 40)));
    assert_eq!(d.note_timecode(double(20.04), NOW + 80), Some((0, 40)));
    assert_eq!(d.note_timecode(double(20.04), NOW + 90), Some((10, 10)));
    assert_eq!(deck().note_timecode(double(1.0), NOW), None);
}

#[test]
fn a_decoder_that_did_not_start_leaves_room() {
    let mut d = playing("clip.mov");
    assert!(d.start_pending_video_decode().is_some());
    d.decode_not_started();
    assert!(!d.control.streaming);
    assert!(matches!(d.worker, Worker::Idle));
}
