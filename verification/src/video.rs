//! The video transport: the presentation clock and what moves it, the one
//! decoder that runs at a time, and following an incoming timecode. Moments
//! are nanoseconds, positions in the media are in seconds.

use vstd::prelude::*;

use crate::ieee::Double;
use crate::ieee::Single;
use crate::qid::Qid;
use crate::show::{CanvasFit, Cue, CueKind};
use crate::state::{Moment, SharedState};

verus! {

/// How often a decoder that failed is started again before the cue is given
/// up.
pub const MAX_VIDEO_OPEN_RETRIES: u32 = 3;

impl Double {
    pub open spec fn finite(self) -> bool {
        self.magnitude() < 0x7ff0_0000_0000_0000
    }

    /// Whether the number is above zero.
    pub open spec fn positive(self) -> bool {
        0 < self.bits <= 0x7ff0_0000_0000_0000
    }

    /// The number, or zero where it is below or no number.
    pub open spec fn or_zero(self) -> Double {
        if self.positive() {
            self
        } else {
            Double::zero()
        }
    }

    /// The next number below a finite one above zero.
    pub open spec fn next_below(self) -> Double {
        Double { bits: (self.bits - 1) as u64 }
    }

    pub fn gt_zero(self) -> (b: bool)
        ensures
            b == self.positive(),
    {
        0 < self.bits && self.bits <= 0x7ff0_0000_0000_0000
    }

    fn is_finite(self) -> (b: bool)
        ensures
            b == self.finite(),
    {
        let m: u64 = if self.bits >= 0x8000_0000_0000_0000 {
            self.bits - 0x8000_0000_0000_0000
        } else {
            self.bits
        };
        m < 0x7ff0_0000_0000_0000
    }

    fn zero_or_more(self) -> (r: Double)
        ensures
            r == self.or_zero(),
    {
        if self.gt_zero() {
            self
        } else {
            Double { bits: 0 }
        }
    }
}

/// Where a seek may go: before the end of media of known length, and anywhere
/// finite in media of unknown length.
pub open spec fn clamped_seek(target: Double, length: Option<Double>) -> Double {
    match length {
        Some(l) if l.finite() && l.positive() => if target.less(l.next_below()) {
            target
        } else {
            l.next_below()
        },
        _ => if target.finite() {
            target
        } else {
            Double::zero()
        },
    }
}

pub fn clamp_video_seek_secs(target: Double, length: Option<Double>) -> (r: Double)
    ensures
        r == clamped_seek(target, length),
{
    if let Some(l) = length {
        if l.is_finite() && l.gt_zero() {
            let end: Double = Double { bits: l.bits - 1 };
            return if target.lt(end) {
                target
            } else {
                end
            };
        }
    }
    if target.is_finite() {
        target
    } else {
        Double { bits: 0 }
    }
}

/// A seek never reaches the end of media whose length is known.
pub proof fn seeks_stay_before_the_end(target: Double, length: Double)
    requires
        length.finite(),
        length.positive(),
    ensures
        clamped_seek(target, Some(length)).less(length),
        target.less(length.next_below()) ==> clamped_seek(target, Some(length)) == target,
{
}

/// The clock of a video that is at `target` nanoseconds now, and since when it
/// is paused. There is none where the target is no time, or lies before all
/// clocks.
pub open spec fn seek_clock(now: Moment, target: Option<u64>, paused: bool) -> Option<
    (Moment, Option<Moment>),
> {
    match target {
        Some(t) if t <= now => Some(
            (
                (now - t) as u64,
                if paused {
                    Some(now)
                } else {
                    None
                },
            ),
        ),
        _ => None,
    }
}

pub fn video_seek_clock(now: Moment, target: Option<u64>, paused: bool) -> (r: Option<
    (Moment, Option<Moment>),
>)
    ensures
        r == seek_clock(now, target, paused),
{
    match target {
        Some(t) => {
            if t <= now {
                Some(
                    (
                        now - t,
                        if paused {
                            Some(now)
                        } else {
                            None
                        },
                    ),
                )
            } else {
                None
            }
        },
        None => None,
    }
}

/// The clock of a video that starts now at `target` nanoseconds.
pub fn video_start_clock(now: Moment, target: Option<u64>) -> (r: Option<Moment>)
    ensures
        r == start_clock(now, target),
{
    match video_seek_clock(now, target, false) {
        Some((clock, _)) => Some(clock),
        None => None,
    }
}

pub open spec fn start_clock(now: Moment, target: Option<u64>) -> Option<Moment> {
    match seek_clock(now, target, false) {
        Some((clock, _)) => Some(clock),
        None => None,
    }
}

/// A single frame that is waited for after a seek.
#[derive(Clone, Copy, PartialEq, Eq, Structural, Debug)]
pub struct SeekFrame {
    pub position: Double,
    pub adjust_show_clock: bool,
}

/// What the presentation thread shares.
#[derive(Clone, Copy, PartialEq, Eq, Debug)]
pub struct VideoControl {
    /// Counts the streams; what an older stream reports is ignored.
    pub stream_epoch: u64,
    /// A stream is attached.
    pub streaming: bool,
    /// The moment at which the video was at zero.
    pub clock: Option<Moment>,
    pub paused: bool,
    pub pause_started: Option<Moment>,
    pub peek_pts: Option<Double>,
    pub last_pts: Option<Double>,
    pub canvas_has_frame: bool,
    pub media_length: Option<Double>,
    pub timeline_offset: Double,
    /// A fade to black: when it began, and how long it takes.
    pub fade: Option<(Moment, Single)>,
    pub hold_position: Option<Double>,
    pub seek_frame: Option<SeekFrame>,
    pub step_pending: bool,
    pub fit: CanvasFit,
    pub video_active: bool,
    pub text_active: bool,
}

/// A decoder that is to be started.
pub struct DecodeRequest {
    pub path: String,
    /// The first frame is the last one before this position.
    pub start_before: Option<Double>,
    pub seek_frame: Option<SeekFrame>,
    pub clamp_to_media: bool,
    /// The record of what failed to decode on the graphics processor.
    pub session: u64,
}

#[verifier::ext_equal]
pub struct RequestView {
    pub path: Seq<char>,
    pub start_before: Option<Double>,
    pub seek_frame: Option<SeekFrame>,
    pub clamp_to_media: bool,
    pub session: u64,
}

impl View for DecodeRequest {
    type V = RequestView;

    open spec fn view(&self) -> RequestView {
        RequestView {
            path: self.path@,
            start_before: self.start_before,
            seek_frame: self.seek_frame,
            clamp_to_media: self.clamp_to_media,
            session: self.session,
        }
    }
}

pub open spec fn request_opt(r: Option<DecodeRequest>) -> Option<RequestView> {
    match r {
        Some(r) => Some(r@),
        None => None,
    }
}

/// The decoder thread.
#[derive(Clone, Copy, PartialEq, Eq, Structural, Debug)]
pub enum Worker {
    Idle,
    Busy,
    Finished,
}

/// Ask for a decoder; a request that still waits is forgotten.
pub fn queue_latest_video_decode(pending: &mut Option<DecodeRequest>, request: DecodeRequest)
    ensures
        *final(pending) == Some(request),
{
    *pending = Some(request);
}

/// The request to start a decoder for, unless one still runs. One that has
/// finished is put away.
pub fn take_ready_video_decode(worker: &mut Worker, pending: &mut Option<DecodeRequest>) -> (r:
    Option<DecodeRequest>)
    ensures
        *old(worker) == Worker::Busy ==> r is None && *final(worker) == *old(worker),
        *old(worker) == Worker::Busy ==> *final(pending) == *old(pending),
        *old(worker) != Worker::Busy ==> r == *old(pending) && *final(worker) == Worker::Idle
            && *final(pending) is None,
{
    if *worker == Worker::Busy {
        return None;
    }
    *worker = Worker::Idle;
    pending.take()
}

/// A video that follows a timecode.
pub struct MtcFollow {
    pub qid: Qid,
    pub path: String,
    /// The timecode at the video's start.
    pub offset: Double,
    /// Where the video stands still.
    pub hold_position: Option<Double>,
    pub last_tick: Moment,
    pub last_mtc: Double,
    pub last_mtc_at: Moment,
}

#[verifier::ext_equal]
pub struct FollowView {
    pub qid: (int, nat),
    pub path: Seq<char>,
    pub offset: Double,
    pub hold_position: Option<Double>,
    pub last_tick: Moment,
    pub last_mtc: Double,
    pub last_mtc_at: Moment,
}

impl View for MtcFollow {
    type V = FollowView;

    open spec fn view(&self) -> FollowView {
        FollowView {
            qid: self.qid@,
            path: self.path@,
            offset: self.offset,
            hold_position: self.hold_position,
            last_tick: self.last_tick,
            last_mtc: self.last_mtc,
            last_mtc_at: self.last_mtc_at,
        }
    }
}

pub open spec fn follow_opt(f: Option<MtcFollow>) -> Option<FollowView> {
    match f {
        Some(f) => Some(f@),
        None => None,
    }
}

/// The frame rates of a timecode.
#[derive(Clone, Copy, PartialEq, Eq, Structural, Debug)]
pub enum FrameRate {
    Fps24,
    Fps25,
    Fps30Drop,
    Fps30,
}

/// The video transport.
pub struct VideoDeck {
    pub control: VideoControl,
    /// The decoder is asked to stop.
    pub stop: bool,
    /// The decoder is asked to wait, and the pixel map's with it.
    pub video_paused: bool,
    pub pixmap_paused: bool,
    /// The show is paused.
    pub paused: bool,
    pub pending: Option<DecodeRequest>,
    pub worker: Worker,
    pub current_qid: Option<Qid>,
    pub current_text: Option<Qid>,
    pub current_pixmap: Option<Qid>,
    /// The pixel map's decoder is asked to stop, and one is attached.
    pub pixmap_stop: bool,
    pub pixmap_streaming: bool,
    pub current_instance: Option<u64>,
    pub session: u64,
    pub session_instance: Option<u64>,
    pub open_retries: u32,
    pub follow: Option<MtcFollow>,
    pub last_hard_sync: Option<Moment>,
    pub drift: Option<Double>,
    pub warned_rate: Option<FrameRate>,
}

pub struct DeckView {
    pub control: VideoControl,
    pub stop: bool,
    pub video_paused: bool,
    pub pixmap_paused: bool,
    pub paused: bool,
    pub pending: Option<RequestView>,
    pub worker: Worker,
    pub current_qid: Option<Qid>,
    pub current_text: Option<Qid>,
    pub current_pixmap: Option<Qid>,
    /// The pixel map's decoder is asked to stop, and one is attached.
    pub pixmap_stop: bool,
    pub pixmap_streaming: bool,
    pub current_instance: Option<u64>,
    pub session: u64,
    pub session_instance: Option<u64>,
    pub open_retries: u32,
    pub follow: Option<FollowView>,
    pub last_hard_sync: Option<Moment>,
    pub drift: Option<Double>,
    pub warned_rate: Option<FrameRate>,
}

impl View for VideoDeck {
    type V = DeckView;

    open spec fn view(&self) -> DeckView {
        DeckView {
            control: self.control,
            stop: self.stop,
            video_paused: self.video_paused,
            pixmap_paused: self.pixmap_paused,
            paused: self.paused,
            pending: request_opt(self.pending),
            worker: self.worker,
            current_qid: self.current_qid,
            current_text: self.current_text,
            current_pixmap: self.current_pixmap,
            pixmap_stop: self.pixmap_stop,
            pixmap_streaming: self.pixmap_streaming,
            current_instance: self.current_instance,
            session: self.session,
            session_instance: self.session_instance,
            open_retries: self.open_retries,
            follow: follow_opt(self.follow),
            last_hard_sync: self.last_hard_sync,
            drift: self.drift,
            warned_rate: self.warned_rate,
        }
    }
}

/// A decoder that was given a request.
pub struct DecodeStart {
    pub request: DecodeRequest,
    pub stream_epoch: u64,
}

impl DeckView {
    /// Room for the streams of one operation.
    pub open spec fn room(self) -> bool {
        self.control.stream_epoch < u64::MAX - 4
    }

    /// The deck once a decoder was asked for: the old stream is cut off at
    /// once, and its last picture stays.
    #[verifier::opaque]
    pub open spec fn decode_asked(
        self,
        path: Seq<char>,
        start_before: Option<Double>,
        seek_frame: Option<SeekFrame>,
        clamp_to_media: bool,
    ) -> DeckView {
        DeckView {
            pending: Some(
                RequestView {
                    path,
                    start_before,
                    seek_frame,
                    clamp_to_media,
                    session: self.session,
                },
            ),
            stop: true,
            control: VideoControl {
                stream_epoch: (self.control.stream_epoch + 1) as u64,
                streaming: false,
                peek_pts: None,
                ..self.control
            },
            ..self
        }
    }

    /// The deck once a waiting request was given to a decoder, where none runs.
    pub open spec fn decode_started(self) -> DeckView {
        if self.worker == Worker::Busy {
            self
        } else {
            match self.pending {
                None => DeckView { worker: Worker::Idle, ..self },
                Some(request) => DeckView {
                    pending: None,
                    worker: Worker::Busy,
                    stop: false,
                    control: VideoControl {
                        stream_epoch: (self.control.stream_epoch + 1) as u64,
                        streaming: true,
                        seek_frame: request.seek_frame,
                        ..self.control
                    },
                    ..self
                },
            }
        }
    }

    /// The deck with its picture cue set; it is no playback of the video before
    /// it.
    #[verifier::opaque]
    pub open spec fn with_video(self, qid: Option<Qid>) -> DeckView {
        DeckView {
            current_qid: qid,
            current_instance: None,
            control: VideoControl { video_active: qid is Some, ..self.control },
            ..self
        }
    }

    /// The deck with its text cue set.
    pub open spec fn with_text(self, qid: Option<Qid>) -> DeckView {
        DeckView {
            current_text: qid,
            control: VideoControl { text_active: qid is Some, ..self.control },
            ..self
        }
    }

    /// The deck once its picture is stopped.
    pub open spec fn stopped(self, session: u64) -> DeckView {
        DeckView {
            stop: true,
            pending: None,
            session,
            session_instance: None,
            control: VideoControl {
                stream_epoch: (self.control.stream_epoch + 1) as u64,
                streaming: false,
                clock: None,
                peek_pts: None,
                last_pts: None,
                canvas_has_frame: false,
                fade: None,
                hold_position: None,
                seek_frame: None,
                media_length: None,
                timeline_offset: Double::zero(),
                ..self.control
            },
            ..self
        }.with_video(None)
    }

    /// The deck once the show is paused or goes on. The clock stands still
    /// while it is paused: it is moved by the time that passed.
    pub open spec fn paused_set(
        self,
        paused: bool,
        fade_start: Option<Moment>,
        now: Moment,
    ) -> DeckView {
        let c = self.control;
        DeckView {
            video_paused: paused,
            pixmap_paused: paused,
            paused,
            control: if paused {
                VideoControl { paused, pause_started: Some(now), ..c }
            } else {
                match c.pause_started {
                    None => VideoControl { paused, ..c },
                    Some(at) => VideoControl {
                        paused,
                        pause_started: None,
                        clock: match c.clock {
                            Some(clock) => Some((clock + passed(at, now)) as u64),
                            None => None,
                        },
                        fade: match (c.fade, fade_start) {
                            (Some((_, length)), Some(start)) => Some((start, length)),
                            (fade, _) => fade,
                        },
                        ..c
                    },
                }
            },
            ..self
        }
    }

    /// The deck once its clock is at another position. `clock` is where the
    /// clock goes.
    pub open spec fn clock_moved(
        self,
        qid: (int, nat),
        target: Double,
        media_offset: Double,
        clock: (Moment, Option<Moment>),
    ) -> DeckView {
        let c = self.control;
        DeckView {
            control: VideoControl {
                clock: Some(clock.0),
                pause_started: clock.1,
                peek_pts: None,
                last_pts: None,
                timeline_offset: media_offset,
                hold_position: if c.hold_position is Some {
                    Some(target)
                } else {
                    None
                },
                ..c
            },
            follow: match self.follow {
                Some(f) if f.qid == qid && f.hold_position is Some => Some(
                    FollowView { hold_position: Some(target), ..f },
                ),
                f => f,
            },
            ..self
        }
    }

    /// The deck once it is to be at another position.
    pub open spec fn sought(
        self,
        qid: (int, nat),
        path: Seq<char>,
        target: Double,
        media_target: Double,
        media_offset: Double,
        clock: (Moment, Option<Moment>),
    ) -> DeckView {
        self.clock_moved(qid, target, media_offset, clock).decode_asked(
            path,
            Some(media_target),
            if self.control.paused {
                Some(SeekFrame { position: media_target, adjust_show_clock: false })
            } else {
                None
            },
            true,
        )
    }

    /// The deck with a video cue in it.
    pub open spec fn loaded(self, p: PlayView) -> DeckView {
        DeckView {
            open_retries: 0,
            session: if self.session_instance == Some(p.instance_id) {
                self.session
            } else {
                p.fresh_session
            },
            session_instance: Some(p.instance_id),
            video_paused: false,
            control: VideoControl {
                stream_epoch: (self.control.stream_epoch + 1) as u64,
                clock: start_clock(p.now, p.media_target),
                pause_started: None,
                peek_pts: None,
                last_pts: None,
                canvas_has_frame: false,
                media_length: if p.duration.positive() {
                    Some(p.media_end)
                } else {
                    None
                },
                timeline_offset: p.start_time.or_zero(),
                fade: None,
                seek_frame: None,
                fit: p.fit,
                video_active: true,
                ..self.control
            },
            current_qid: Some(p.qid),
            current_instance: Some(p.instance_id),
            ..self
        }
    }

    /// The deck once a video cue plays.
    pub open spec fn played(self, p: PlayView) -> DeckView {
        let offset = p.start_time.or_zero();
        self.loaded(p).decode_asked(
            p.path,
            if offset.positive() {
                Some(offset)
            } else {
                None
            },
            None,
            false,
        )
    }
}

/// How much time passed between two moments.
pub open spec fn passed(from: Moment, to: Moment) -> int {
    if to > from {
        to - from
    } else {
        0
    }
}

/// A video cue that is to play.
pub struct PlayVideo {
    pub path: String,
    pub qid: Qid,
    pub instance_id: u64,
    pub start_time: Double,
    pub duration: Double,
    /// Where the media ends: its start and its duration together.
    pub media_end: Double,
    /// Where the media is now, in nanoseconds: its start and the time that the
    /// cue has run together.
    pub media_target: Option<u64>,
    pub fit: CanvasFit,
    /// A new record of what fails to decode on the graphics processor.
    pub fresh_session: u64,
    pub now: Moment,
}

pub struct PlayView {
    pub path: Seq<char>,
    pub qid: Qid,
    pub instance_id: u64,
    pub start_time: Double,
    pub duration: Double,
    pub media_end: Double,
    pub media_target: Option<u64>,
    pub fit: CanvasFit,
    pub fresh_session: u64,
    pub now: Moment,
}

impl View for PlayVideo {
    type V = PlayView;

    open spec fn view(&self) -> PlayView {
        PlayView {
            path: self.path@,
            qid: self.qid,
            instance_id: self.instance_id,
            start_time: self.start_time,
            duration: self.duration,
            media_end: self.media_end,
            media_target: self.media_target,
            fit: self.fit,
            fresh_session: self.fresh_session,
            now: self.now,
        }
    }
}

/// Why a seek failed.
#[derive(Clone, Copy, PartialEq, Eq, Structural, Debug)]
pub enum SeekError {
    /// The target is outside the clock's range.
    OutsideClock,
}

impl VideoDeck {
    /// Set the picture cue.
    pub fn set_current_video_qid(&mut self, qid: Option<Qid>)
        ensures
            final(self)@ == old(self)@.with_video(qid),
            final(self)@.control.stream_epoch == old(self)@.control.stream_epoch,
    {
        proof {
            reveal(DeckView::with_video);
        }
        self.current_qid = qid;
        self.current_instance = None;
        self.control.video_active = qid.is_some();
    }

    /// Set the text cue.
    pub fn set_current_text_qid(&mut self, qid: Option<Qid>)
        ensures
            final(self)@ == old(self)@.with_text(qid),
    {
        self.current_text = qid;
        self.control.text_active = qid.is_some();
    }

    /// Ask for a decoder at this file, in place of any other.
    pub fn spawn_video_decode(
        &mut self,
        path: String,
        start_before: Option<Double>,
        seek_frame: Option<SeekFrame>,
        clamp_to_media: bool,
    )
        requires
            old(self)@.control.stream_epoch < u64::MAX,
        ensures
            final(self)@ == old(self)@.decode_asked(path@, start_before, seek_frame, clamp_to_media),
    {
        proof {
            reveal(DeckView::decode_asked);
        }
        let session: u64 = self.session;
        queue_latest_video_decode(
            &mut self.pending,
            DecodeRequest { path, start_before, seek_frame, clamp_to_media, session },
        );
        self.stop = true;
        let control: VideoControl = self.control;
        self.control = VideoControl {
            stream_epoch: control.stream_epoch + 1,
            streaming: false,
            peek_pts: None,
            ..control
        };
    }

    /// Give the waiting request to a decoder, where none runs. The result is
    /// what the decoder is to be started with.
    pub fn start_pending_video_decode(&mut self) -> (r: Option<DecodeStart>)
        requires
            old(self)@.control.stream_epoch < u64::MAX,
        ensures
            final(self)@ == old(self)@.decode_started(),
            r is Some == (old(self)@.worker != Worker::Busy && old(self)@.pending is Some),
            r matches Some(start) ==> Some(start.request@) == old(self)@.pending
                && start.stream_epoch == final(self)@.control.stream_epoch,
    {
        match take_ready_video_decode(&mut self.worker, &mut self.pending) {
            None => None,
            Some(request) => {
                self.stop = false;
                self.worker = Worker::Busy;
                self.control.stream_epoch = self.control.stream_epoch + 1;
                self.control.streaming = true;
                self.control.seek_frame = request.seek_frame;
                Some(DecodeStart { request, stream_epoch: self.control.stream_epoch })
            },
        }
    }

    /// The decoder could not be started.
    pub fn decode_not_started(&mut self)
        ensures
            final(self)@ == (DeckView {
                worker: Worker::Idle,
                control: VideoControl { streaming: false, ..old(self)@.control },
                ..old(self)@
            }),
    {
        self.worker = Worker::Idle;
        self.control.streaming = false;
    }

    /// Stop the picture. `session` is a new record of what fails to decode. The
    /// diagnostics tell of no video from there on.
    pub fn stop_video_playback(&mut self, state: &mut SharedState, session: u64)
        requires
            old(self)@.room(),
        ensures
            final(self)@ == old(self)@.stopped(session),
            final(state)@ == old(state)@.with_video(None),
    {
        self.stop = true;
        self.pending = None;
        self.session = session;
        self.session_instance = None;
        let control: VideoControl = self.control;
        self.control = VideoControl {
            stream_epoch: control.stream_epoch + 1,
            streaming: false,
            clock: None,
            peek_pts: None,
            last_pts: None,
            canvas_has_frame: false,
            fade: None,
            hold_position: None,
            seek_frame: None,
            media_length: None,
            timeline_offset: Double { bits: 0 },
            ..control
        };
        self.set_current_video_qid(None);
        state.record_video(None);
    }

    /// Pause the show, or go on. `fade_start` is where the start of a fade that
    /// is under way moves to.
    pub fn set_video_paused(&mut self, paused: bool, fade_start: Option<Moment>, now: Moment)
        requires
            match (old(self)@.control.clock, old(self)@.control.pause_started) {
                (Some(clock), Some(at)) => clock + passed(at, now) <= u64::MAX,
                _ => true,
            },
        ensures
            final(self)@ == old(self)@.paused_set(paused, fade_start, now),
    {
        self.video_paused = paused;
        self.pixmap_paused = paused;
        self.paused = paused;
        let mut control: VideoControl = self.control;
        control.paused = paused;
        if paused {
            control.pause_started = Some(now);
        } else {
            match control.pause_started {
                Some(at) => {
                    control.pause_started = None;
                    if let Some(clock) = control.clock {
                        let gap: u64 = if now > at {
                            now - at
                        } else {
                            0
                        };
                        control.clock = Some(clock + gap);
                    }
                    if let (Some((_, length)), Some(start)) = (control.fade, fade_start) {
                        control.fade = Some((start, length));
                    }
                },
                None => {},
            }
        }
        self.control = control;
    }

    fn move_clock(
        &mut self,
        qid: &Qid,
        target: Double,
        media_offset: Double,
        clock: (Moment, Option<Moment>),
    )
        ensures
            final(self)@ == old(self)@.clock_moved(qid@, target, media_offset, clock),
    {
        let control: VideoControl = self.control;
        self.control = VideoControl {
            clock: Some(clock.0),
            pause_started: clock.1,
            peek_pts: None,
            last_pts: None,
            timeline_offset: media_offset,
            hold_position: if control.hold_position.is_some() {
                Some(target)
            } else {
                None
            },
            ..control
        };
        let mut follow: Option<MtcFollow> = self.follow.take();
        if let Some(f) = follow {
            let hold: Option<Double> = if f.qid.same(qid) && f.hold_position.is_some() {
                Some(target)
            } else {
                f.hold_position
            };
            follow = Some(MtcFollow { hold_position: hold, ..f });
        }
        self.follow = follow;
    }

    /// Go to another position: `target` seconds in the cue, `media_target`
    /// seconds in the media, which is `target_ns` nanoseconds.
    pub fn seek_video_cue(
        &mut self,
        qid: Qid,
        path: String,
        target: Double,
        media_target: Double,
        media_offset: Double,
        target_ns: Option<u64>,
        now: Moment,
    ) -> (r: Result<(), SeekError>)
        requires
            old(self)@.room(),
        ensures
            match seek_clock(now, target_ns, old(self)@.control.paused) {
                Some(clock) => r is Ok && final(self)@ == old(self)@.sought(
                    qid@,
                    path@,
                    target,
                    media_target,
                    media_offset,
                    clock,
                ),
                None => {
                    &&& r == Err::<(), SeekError>(SeekError::OutsideClock)
                    &&& final(self)@ == old(self)@
                },
            },
    {
        let paused: bool = self.control.paused;
        let clock: (Moment, Option<Moment>) = match video_seek_clock(now, target_ns, paused) {
            Some(c) => c,
            None => {
                return Err(SeekError::OutsideClock);
            },
        };
        self.move_clock(&qid, target, media_offset, clock);
        self.spawn_video_decode(
            path,
            Some(media_target),
            if paused {
                Some(SeekFrame { position: media_target, adjust_show_clock: false })
            } else {
                None
            },
            true,
        );
        Ok(())
    }

    fn load(&mut self, p: &PlayVideo)
        requires
            old(self)@.control.stream_epoch < u64::MAX,
        ensures
            final(self)@ == old(self)@.loaded(p@),
    {
        self.open_retries = 0;
        let same_instance: bool = match self.session_instance {
            Some(i) => i == p.instance_id,
            None => false,
        };
        if !same_instance {
            self.session = p.fresh_session;
            self.session_instance = Some(p.instance_id);
        }
        self.video_paused = false;
        let control: VideoControl = self.control;
        self.control = VideoControl {
            stream_epoch: control.stream_epoch + 1,
            clock: video_start_clock(p.now, p.media_target),
            pause_started: None,
            peek_pts: None,
            last_pts: None,
            canvas_has_frame: false,
            media_length: if p.duration.gt_zero() {
                Some(p.media_end)
            } else {
                None
            },
            timeline_offset: p.start_time.zero_or_more(),
            fade: None,
            seek_frame: None,
            fit: p.fit,
            video_active: true,
            ..control
        };
        self.current_qid = Some(p.qid);
        self.current_instance = Some(p.instance_id);
    }

    /// Play a video cue.
    pub fn play_video(&mut self, p: PlayVideo)
        requires
            old(self)@.room(),
        ensures
            final(self)@ == old(self)@.played(p@),
    {
        let offset: Double = p.start_time.zero_or_more();
        self.load(&p);
        self.spawn_video_decode(
            p.path,
            if offset.gt_zero() {
                Some(offset)
            } else {
                None
            },
            None,
            false,
        );
    }
}

/// Where the presentation stands, in nanoseconds. `hold` is where a video that
/// follows a timecode stands still, where it does.
pub open spec fn position_of(control: VideoControl, hold: Option<u64>, now: Moment) -> Option<u64> {
    match (hold, control.clock, control.pause_started) {
        (Some(h), _, _) => Some(h),
        (None, None, _) => None,
        (None, Some(clock), Some(at)) => Some(passed(clock, at) as u64),
        (None, Some(clock), None) => Some(passed(clock, now) as u64),
    }
}

/// The presentation position, in nanoseconds. It stands still while the show is
/// paused, and where the timecode holds it.
pub fn video_paused_position(control: &VideoControl, hold: Option<u64>, now: Moment) -> (r: Option<
    u64,
>)
    ensures
        r == position_of(*control, hold, now),
{
    match (hold, control.clock, control.pause_started) {
        (Some(h), _, _) => Some(h),
        (None, None, _) => None,
        (None, Some(clock), Some(at)) => Some(
            if at > clock {
                at - clock
            } else {
                0
            },
        ),
        (None, Some(clock), None) => Some(
            if now > clock {
                now - clock
            } else {
                0
            },
        ),
    }
}

/// Pausing and going on leaves the position where it was.
pub proof fn a_pause_keeps_the_position(
    d: DeckView,
    fade: Option<Moment>,
    start: Moment,
    end: Moment,
)
    requires
        d.control.clock is Some,
        d.control.clock->0 <= start <= end,
        d.control.pause_started is None,
        d.control.clock->0 + (end - start) <= u64::MAX,
    ensures
        ({
            let paused = d.paused_set(true, None, start);
            let resumed = paused.paused_set(false, fade, end);
            &&& position_of(d.control, None, start) == position_of(paused.control, None, end)
            &&& position_of(paused.control, None, end) == position_of(resumed.control, None, end)
        }),
{
}

/// After a seek the position is the one that was asked for.
pub proof fn a_seek_goes_where_it_is_asked(
    d: DeckView,
    qid: (int, nat),
    path: Seq<char>,
    target: Double,
    media_target: Double,
    offset: Double,
    ns: u64,
    now: Moment,
)
    requires
        ns <= now,
    ensures
        ({
            let clock = seek_clock(now, Some(ns), d.control.paused)->0;
            let s = d.sought(qid, path, target, media_target, offset, clock);
            position_of(s.control, None, now) == Some(ns)
        }),
{
    reveal(DeckView::decode_asked);
    reveal(DeckView::with_video);
}

/// Of all requests only the latest is ever given to a decoder, and never while
/// another runs.
pub proof fn only_the_latest_request_is_decoded(
    d: DeckView,
    first: Seq<char>,
    latest: Seq<char>,
    at: Option<Double>,
    frame: Option<SeekFrame>,
    clamp: bool,
)
    requires
        d.control.stream_epoch < u64::MAX - 2,
    ensures
        ({
            let e = d.decode_asked(first, at, frame, clamp).decode_asked(latest, at, frame, clamp);
            &&& e.pending->0.path == latest
            &&& d.worker == Worker::Busy ==> e.decode_started() == e
            &&& d.worker != Worker::Busy ==> e.decode_started().pending is None
                && e.decode_started().worker == Worker::Busy
        }),
{
    reveal(DeckView::decode_asked);
    reveal(DeckView::with_video);
}

/// A new stream, a stop or a seek makes every earlier stream's reports stale.
pub proof fn old_streams_are_cut_off(
    d: DeckView,
    path: Seq<char>,
    at: Option<Double>,
    frame: Option<SeekFrame>,
    clamp: bool,
    session: u64,
)
    requires
        d.room(),
    ensures
        d.decode_asked(path, at, frame, clamp).control.stream_epoch > d.control.stream_epoch,
        !d.decode_asked(path, at, frame, clamp).control.streaming,
        d.stopped(session).control.stream_epoch > d.control.stream_epoch,
        !d.stopped(session).control.streaming,
{
    reveal(DeckView::decode_asked);
    reveal(DeckView::with_video);
}

/// What the drift of a followed video asks for.
#[derive(Clone, Copy, PartialEq, Eq, Structural, Debug)]
pub enum MtcAdjust {
    Keep,
    Hold,
    /// Move the clock: further into the clip, or back, by nanoseconds.
    Nudge { forward: bool, ns: u64 },
    HardSync,
}

/// What a timecode that does not run asks for.
#[derive(Clone, Copy, PartialEq, Eq, Structural, Debug)]
pub struct Locate {
    pub sync: bool,
    pub hold: bool,
}

/// Where a followed video belongs, as the caller works it out.
#[derive(Clone, Copy, PartialEq, Eq, Structural, Debug)]
pub struct FollowTarget {
    pub playing: bool,
    /// Where the video belongs, in seconds and in nanoseconds.
    pub target: Double,
    pub target_ns: u64,
    /// How far it is from there.
    pub drift: Double,
    /// Whether the held position is too far from there to go on smoothly.
    pub far: bool,
    pub adjust: MtcAdjust,
    pub locate: Locate,
    /// The least time between two openings of the media.
    pub floor: u64,
}

impl DeckView {
    /// The deck once the clock is moved.
    #[verifier::opaque]
    pub open spec fn nudged(self, forward: bool, ns: u64) -> DeckView {
        match self.control.clock {
            Some(clock) => if forward && ns <= clock {
                DeckView {
                    control: VideoControl { clock: Some((clock - ns) as u64), ..self.control },
                    ..self
                }
            } else if forward {
                self
            } else {
                DeckView {
                    control: VideoControl { clock: Some((clock + ns) as u64), ..self.control },
                    ..self
                }
            },
            None => self,
        }
    }

    /// The deck once its position is `ns` now.
    #[verifier::opaque]
    pub open spec fn anchored(self, ns: u64, now: Moment) -> DeckView {
        if ns <= now {
            DeckView {
                control: VideoControl { clock: Some((now - ns) as u64), ..self.control },
                ..self
            }
        } else {
            self
        }
    }

    /// Whether the media may be opened again.
    pub open spec fn may_reopen(self, floor: u64, now: Moment) -> bool {
        match self.last_hard_sync {
            Some(at) => passed(at, now) >= floor,
            None => true,
        }
    }

    /// The deck once the followed media is opened again at the target, unless
    /// it was opened a moment ago.
    #[verifier::opaque]
    pub open spec fn hard_synced(self, t: FollowTarget, now: Moment) -> DeckView {
        if self.follow is Some && self.may_reopen(t.floor, now) {
            DeckView { last_hard_sync: Some(now), ..self }.decode_asked(
                self.follow->0.path,
                Some(t.target),
                None,
                true,
            ).anchored(t.target_ns, now)
        } else {
            self
        }
    }

    #[verifier::opaque]
    pub open spec fn held(self, hold: Option<Double>) -> DeckView {
        DeckView {
            follow: match self.follow {
                Some(f) => Some(FollowView { hold_position: hold, ..f }),
                None => None,
            },
            control: VideoControl { hold_position: hold, ..self.control },
            ..self
        }
    }

    /// The deck once a followed video was held against its timecode.
    pub open spec fn followed(self, t: FollowTarget, now: Moment) -> DeckView {
        let d = DeckView { drift: None, ..self };
        match self.follow {
            None => d,
            Some(f) => if t.playing {
                let moved = if f.hold_position is Some {
                    if t.far {
                        d.hard_synced(t, now)
                    } else {
                        d.anchored(t.target_ns, now)
                    }
                } else {
                    let e = DeckView { drift: Some(t.drift), ..d };
                    match t.adjust {
                        MtcAdjust::Nudge { forward, ns } => e.nudged(forward, ns),
                        MtcAdjust::HardSync => e.hard_synced(t, now),
                        _ => e,
                    }
                };
                moved.held(None)
            } else {
                let synced = if t.locate.sync {
                    d.hard_synced(t, now)
                } else {
                    d
                };
                if t.locate.hold {
                    synced.held(Some(t.target))
                } else {
                    synced
                }
            },
        }
    }
}

/// A followed video is not opened twice within the least time between two
/// openings.
pub proof fn openings_keep_their_distance(
    d: DeckView,
    t: FollowTarget,
    first: Moment,
    second: Moment,
)
    requires
        d.follow is Some,
        d.may_reopen(t.floor, first),
        d.control.stream_epoch < u64::MAX - 2,
        first <= second < first + t.floor,
    ensures
        d.hard_synced(t, first).hard_synced(t, second) == d.hard_synced(t, first),
{
    reveal(DeckView::decode_asked);
    reveal(DeckView::with_video);
    reveal(DeckView::hard_synced);
    reveal(DeckView::anchored);
}

impl VideoDeck {
    /// Move the clock of the video that plays.
    pub fn nudge_video_clock(&mut self, forward: bool, ns: u64)
        requires
            !forward && old(self)@.control.clock is Some ==> old(self)@.control.clock->0 + ns
                <= u64::MAX,
        ensures
            final(self)@ == old(self)@.nudged(forward, ns),
    {
        proof {
            reveal(DeckView::nudged);
        }
        if let Some(clock) = self.control.clock {
            if forward {
                if ns <= clock {
                    self.control.clock = Some(clock - ns);
                }
            } else {
                self.control.clock = Some(clock + ns);
            }
        }
    }

    /// Put the video at a position, now.
    pub fn mtc_reanchor(&mut self, ns: u64, now: Moment)
        ensures
            final(self)@ == old(self)@.anchored(ns, now),
    {
        proof {
            reveal(DeckView::anchored);
        }
        if ns <= now {
            self.control.clock = Some(now - ns);
        }
    }

    /// Open the followed media again at the target, unless it was opened a
    /// moment ago. Whether it was is returned.
    pub fn mtc_hard_sync(&mut self, t: &FollowTarget, now: Moment) -> (b: bool)
        requires
            old(self)@.control.stream_epoch < u64::MAX,
        ensures
            b == (old(self)@.follow is Some && old(self)@.may_reopen(t.floor, now)),
            final(self)@ == old(self)@.hard_synced(*t, now),
    {
        proof {
            reveal(DeckView::hard_synced);
        }
        let path: String = match &self.follow {
            Some(f) => f.path.as_str().to_owned(),
            None => {
                return false;
            },
        };
        if let Some(at) = self.last_hard_sync {
            let gap: u64 = if now > at {
                now - at
            } else {
                0
            };
            if gap < t.floor {
                return false;
            }
        }
        self.last_hard_sync = Some(now);
        self.spawn_video_decode(path, Some(t.target), None, true);
        self.mtc_reanchor(t.target_ns, now);
        true
    }

    fn set_hold(&mut self, hold: Option<Double>)
        ensures
            final(self)@ == old(self)@.held(hold),
    {
        proof {
            reveal(DeckView::held);
        }
        let follow: Option<MtcFollow> = self.follow.take();
        self.follow = match follow {
            Some(f) => Some(MtcFollow { hold_position: hold, ..f }),
            None => None,
        };
        self.control.hold_position = hold;
    }

    /// Hold the followed video against its timecode.
    pub fn drive_mtc_follow(&mut self, t: &FollowTarget, now: Moment)
        requires
            old(self)@.control.stream_epoch < u64::MAX,
            t.adjust matches MtcAdjust::Nudge { forward, ns } ==> !forward && old(
                self,
            )@.control.clock is Some ==> old(self)@.control.clock->0 + ns <= u64::MAX,
        ensures
            final(self)@ == old(self)@.followed(*t, now),
    {
        self.drift = None;
        let held: bool = match &self.follow {
            None => {
                return ;
            },
            Some(f) => f.hold_position.is_some(),
        };
        if t.playing {
            if held {
                if t.far {
                    self.mtc_hard_sync(t, now);
                } else {
                    self.mtc_reanchor(t.target_ns, now);
                }
            } else {
                self.drift = Some(t.drift);
                match t.adjust {
                    MtcAdjust::Nudge { forward, ns } => self.nudge_video_clock(forward, ns),
                    MtcAdjust::HardSync => {
                        self.mtc_hard_sync(t, now);
                    },
                    MtcAdjust::Keep => {},
                    MtcAdjust::Hold => {},
                }
            }
            self.set_hold(None);
        } else {
            if t.locate.sync {
                self.mtc_hard_sync(t, now);
            }
            if t.locate.hold {
                self.set_hold(Some(t.target));
            }
        }
    }

    /// A timecode arrived. Between two of them the position goes on by itself:
    /// the result is how long ago this one was first seen and how long ago the
    /// last tick was, in nanoseconds.
    pub fn note_timecode(&mut self, secs: Double, now: Moment) -> (r: Option<(u64, u64)>)
        ensures
            match old(self)@.follow {
                None => r is None && final(self)@ == old(self)@,
                Some(f) => {
                    let changed = secs.is_nan() || f.last_mtc.is_nan() || secs.rank()
                        != f.last_mtc.rank();
                    let at = if changed {
                        now
                    } else {
                        f.last_mtc_at
                    };
                    &&& r == Some((passed(at, now) as u64, passed(f.last_tick, now) as u64))
                    &&& final(self)@ == (DeckView {
                        follow: Some(
                            FollowView {
                                last_tick: now,
                                last_mtc: if changed {
                                    secs
                                } else {
                                    f.last_mtc
                                },
                                last_mtc_at: at,
                                ..f
                            },
                        ),
                        ..old(self)@
                    })
                },
            },
    {
        let follow: Option<MtcFollow> = self.follow.take();
        match follow {
            None => None,
            Some(f) => {
                let same: bool = secs.ge(f.last_mtc) && f.last_mtc.ge(secs);
                let at: u64 = if same {
                    f.last_mtc_at
                } else {
                    now
                };
                let since: u64 = if now > at {
                    now - at
                } else {
                    0
                };
                let tick: u64 = if now > f.last_tick {
                    now - f.last_tick
                } else {
                    0
                };
                let last_mtc: Double = if same {
                    f.last_mtc
                } else {
                    secs
                };
                self.follow = Some(
                    MtcFollow { last_tick: now, last_mtc, last_mtc_at: at, ..f },
                );
                Some((since, tick))
            },
        }
    }

    /// Whether to warn that the timecode does not run at the rate the video is
    /// made for: once for each other rate.
    pub fn warn_of_rate(&mut self, running: bool, rate: FrameRate) -> (b: bool)
        ensures
            b == (running && rate != FrameRate::Fps25 && old(self)@.warned_rate != Some(rate)),
            final(self)@ == (if b {
                DeckView { warned_rate: Some(rate), ..old(self)@ }
            } else {
                old(self)@
            }),
    {
        let known: bool = match self.warned_rate {
            Some(r) => r == rate,
            None => false,
        };
        if running && rate != FrameRate::Fps25 && !known {
            self.warned_rate = Some(rate);
            true
        } else {
            false
        }
    }
}

/// What a frame step came to.
#[derive(Clone, Copy, PartialEq, Eq, Structural, Debug)]
pub enum FrameStep {
    /// The show is not paused, or there is nothing to step to.
    Refused,
    /// The next frame comes up; the show's clock follows it where it moved.
    Frame { moved: bool },
    /// No frame is decoded yet.
    NotReady,
    /// There is no video: the show's clock moves by one display frame.
    Display,
    /// A decoder looks for the frame before this one.
    Sought,
}

/// The file of the first video cue that has a number.
pub open spec fn video_path_of(cues: Seq<Cue>, id: (int, nat)) -> Option<Seq<char>>
    decreases cues.len(),
{
    if cues.len() == 0 {
        None
    } else if cues[0].base.qid@ == id && cues[0].kind is Video {
        Some(cues[0].kind->Video_path@)
    } else {
        video_path_of(cues.drop_first(), id)
    }
}

/// The file of the video cue that has this number.
pub fn video_path(cues: &Vec<Cue>, id: &Qid) -> (r: Option<String>)
    ensures
        match (r, video_path_of(cues@, id@)) {
            (Some(a), Some(b)) => a@ == b,
            (None, None) => true,
            _ => false,
        },
{
    let mut i: usize = 0;
    assert(cues@.skip(0) =~= cues@);
    while i < cues.len()
        invariant
            i <= cues@.len(),
            video_path_of(cues@, id@) == video_path_of(cues@.skip(i as int), id@),
        decreases cues@.len() - i,
    {
        assert(cues@.skip(i as int)[0] == cues@[i as int]);
        assert(cues@.skip(i as int).drop_first() =~= cues@.skip(i + 1));
        if cues[i].base.qid.same(id) {
            if let CueKind::Video { path, .. } = &cues[i].kind {
                return Some(path.as_str().to_owned());
            }
        }
        i = i + 1;
    }
    None
}

impl VideoDeck {
    /// Step one frame forward. `ahead` is how far the next frame lies ahead, in
    /// nanoseconds, where it does.
    pub fn frame_step(&mut self, ahead: Option<u64>) -> (r: FrameStep)
        ensures
            ({
                let d = old(self)@;
                let moved = ahead is Some && d.control.clock is Some && ahead->0
                    <= d.control.clock->0;
                if !d.paused {
                    r == FrameStep::Refused && final(self)@ == d
                } else if d.control.clock is None {
                    r == FrameStep::Display && final(self)@ == d
                } else if d.control.peek_pts is None {
                    r == FrameStep::NotReady && final(self)@ == d
                } else {
                    &&& r == FrameStep::Frame { moved }
                    &&& final(self)@ == (DeckView {
                        control: VideoControl {
                            clock: if moved {
                                Some((d.control.clock->0 - ahead->0) as u64)
                            } else {
                                d.control.clock
                            },
                            step_pending: true,
                            ..d.control
                        },
                        ..d
                    })
                }
            }),
    {
        if !self.paused {
            return FrameStep::Refused;
        }
        match self.control.clock {
            None => FrameStep::Display,
            Some(clock) => {
                if self.control.peek_pts.is_none() {
                    return FrameStep::NotReady;
                }
                let mut moved: bool = false;
                let mut to: u64 = clock;
                if let Some(ns) = ahead {
                    if ns <= clock {
                        to = clock - ns;
                        moved = true;
                    }
                }
                let control: VideoControl = self.control;
                self.control = VideoControl { clock: Some(to), step_pending: true, ..control };
                FrameStep::Frame { moved }
            },
        }
    }

    /// Step one frame back. `position` is where the presentation stands. The
    /// file that plays is that of its cue.
    pub fn frame_step_back(&mut self, position: Double, cues: &Vec<Cue>) -> (r: FrameStep)
        requires
            old(self)@.control.stream_epoch < u64::MAX,
        ensures
            ({
                let d = old(self)@;
                let shown = match d.control.last_pts {
                    Some(pts) => pts,
                    None => position,
                };
                let path = match d.current_qid {
                    Some(id) => video_path_of(cues@, id@),
                    None => None,
                };
                if !d.paused {
                    r == FrameStep::Refused && final(self)@ == d
                } else if d.control.clock is None {
                    r == FrameStep::Display && final(self)@ == d
                } else if Double::zero().at_least(shown) || path is None {
                    r == FrameStep::Refused && final(self)@ == d
                } else {
                    &&& r == FrameStep::Sought
                    &&& final(self)@ == d.decode_asked(
                        path->0,
                        Some(shown),
                        Some(SeekFrame { position, adjust_show_clock: true }),
                        false,
                    )
                }
            }),
    {
        if !self.paused {
            return FrameStep::Refused;
        }
        if self.control.clock.is_none() {
            return FrameStep::Display;
        }
        let shown: Double = match self.control.last_pts {
            Some(pts) => pts,
            None => position,
        };
        let zero: Double = Double { bits: 0 };
        if zero.ge(shown) {
            return FrameStep::Refused;
        }
        let path: Option<String> = match &self.current_qid {
            Some(id) => video_path(cues, id),
            None => None,
        };
        match path {
            None => FrameStep::Refused,
            Some(path) => {
                self.spawn_video_decode(
                    path,
                    Some(shown),
                    Some(SeekFrame { position, adjust_show_clock: true }),
                    false,
                );
                FrameStep::Sought
            },
        }
    }

    /// Whether a report comes from the present stream.
    pub fn is_current(&self, epoch: u64) -> (b: bool)
        ensures
            b == (epoch == self@.control.stream_epoch),
    {
        epoch == self.control.stream_epoch
    }

    /// A decoder failed. A failed open is often passing, so it is tried again
    /// from the present position before the cue is given up. `playing` is the
    /// file and the position of the video that plays.
    pub fn video_failed(&mut self, epoch: u64, playing: Option<(String, Double)>) -> (r: FailStep)
        requires
            old(self)@.control.stream_epoch < u64::MAX,
        ensures
            ({
                let d = old(self)@;
                if epoch != d.control.stream_epoch {
                    r == FailStep::Stale && final(self)@ == d
                } else if playing is Some && d.open_retries < MAX_VIDEO_OPEN_RETRIES {
                    &&& r == FailStep::Retry { attempt: (d.open_retries + 1) as u32 }
                    &&& final(self)@ == DeckView {
                        open_retries: (d.open_retries + 1) as u32,
                        ..d
                    }.decode_asked((playing->0).0@, Some((playing->0).1), None, false)
                } else {
                    &&& r == FailStep::GiveUp { report: playing is Some }
                    &&& final(self)@ == d
                }
            }),
    {
        if !self.is_current(epoch) {
            return FailStep::Stale;
        }
        match playing {
            None => FailStep::GiveUp { report: false },
            Some((path, position)) => {
                if self.open_retries < MAX_VIDEO_OPEN_RETRIES {
                    let attempt: u32 = self.open_retries + 1;
                    self.open_retries = attempt;
                    self.spawn_video_decode(path, Some(position), None, false);
                    FailStep::Retry { attempt }
                } else {
                    FailStep::GiveUp { report: true }
                }
            },
        }
    }
}

/// What a failed decoder leads to.
#[derive(Clone, Copy, PartialEq, Eq, Structural, Debug)]
pub enum FailStep {
    /// It belongs to an older stream.
    Stale,
    Retry { attempt: u32 },
    /// The cue is given up; the operator is told where one played.
    GiveUp { report: bool },
}

/// A video that is played is where it is asked to be: at `media_target` now,
/// and further on by the time that passes. The decoder is asked for the cue's
/// file from its start on.
pub proof fn a_video_starts_where_it_is_asked(deck: &mut VideoDeck, p: PlayVideo, later: Moment)
    requires
        old(deck)@.room(),
        call_ensures(VideoDeck::play_video, (deck, p), ()),
        p.now <= later,
    ensures
        ({
            let c = final(deck)@.control;
            let r = final(deck)@.pending;
            &&& p.media_target matches Some(t) ==> t <= p.now ==> {
                &&& c.clock == Some((p.now - t) as u64)
                &&& c.pause_started is None
                &&& position_of(c, None, p.now) == Some(t)
                &&& position_of(c, None, later) == Some((t + (later - p.now)) as u64)
            }
            &&& p.media_target is None || p.media_target->0 > p.now ==> c.clock is None
            &&& r is Some
            &&& r->0.path == p.path@
            &&& 0 < p.start_time.bits <= 0x7ff0_0000_0000_0000 ==> r->0.start_before == Some(
                p.start_time,
            )
            &&& !(0 < p.start_time.bits <= 0x7ff0_0000_0000_0000) ==> r->0.start_before is None
            &&& r->0.seek_frame is None
            &&& !r->0.clamp_to_media
            &&& r->0.session == final(deck)@.session
        }),
{
    reveal(DeckView::decode_asked);
}

/// A video that is played is the picture cue; what the one before it left is
/// gone, and texts, the pixel map and what is followed stay.
pub proof fn a_video_takes_over_the_picture(deck: &mut VideoDeck, p: PlayVideo)
    requires
        old(deck)@.room(),
        call_ensures(VideoDeck::play_video, (deck, p), ()),
    ensures
        ({
            let d = old(deck)@;
            let e = final(deck)@;
            &&& e.current_qid == Some(p.qid)
            &&& e.current_instance == Some(p.instance_id)
            &&& e.control.video_active
            &&& e.control.fit == p.fit
            &&& e.control.timeline_offset.bits == (if 0 < p.start_time.bits
                <= 0x7ff0_0000_0000_0000 {
                p.start_time.bits
            } else {
                0u64
            })
            &&& e.control.media_length == (if 0 < p.duration.bits <= 0x7ff0_0000_0000_0000 {
                Some(p.media_end)
            } else {
                None
            })
            &&& e.control.stream_epoch > d.control.stream_epoch
            &&& !e.control.streaming
            &&& e.control.fade is None
            &&& e.control.seek_frame is None
            &&& e.control.peek_pts is None
            &&& e.control.last_pts is None
            &&& !e.control.canvas_has_frame
            &&& e.open_retries == 0
            &&& e.stop
            &&& !e.video_paused
            &&& e.session_instance == Some(p.instance_id)
            &&& d.session_instance == Some(p.instance_id) ==> e.session == d.session
            &&& d.session_instance != Some(p.instance_id) ==> e.session == p.fresh_session
            &&& e.control.hold_position == d.control.hold_position
            &&& e.control.text_active == d.control.text_active
            &&& e.control.paused == d.control.paused
            &&& e.control.step_pending == d.control.step_pending
            &&& e.current_text == d.current_text
            &&& e.current_pixmap == d.current_pixmap
            &&& e.pixmap_stop == d.pixmap_stop
            &&& e.pixmap_streaming == d.pixmap_streaming
            &&& e.pixmap_paused == d.pixmap_paused
            &&& e.paused == d.paused
            &&& e.worker == d.worker
            &&& e.follow == d.follow
            &&& e.last_hard_sync == d.last_hard_sync
            &&& e.drift == d.drift
            &&& e.warned_rate == d.warned_rate
        }),
{
    reveal(DeckView::decode_asked);
}

/// A seek succeeds where the position lies in the clock's range; the video is
/// there then, and goes on from there unless it is paused. A seek that fails
/// changes nothing.
pub proof fn a_seek_moves_the_video(
    deck: &mut VideoDeck,
    qid: Qid,
    path: String,
    target: Double,
    media_target: Double,
    media_offset: Double,
    target_ns: Option<u64>,
    now: Moment,
    r: Result<(), SeekError>,
    later: Moment,
)
    requires
        old(deck)@.room(),
        call_ensures(
            VideoDeck::seek_video_cue,
            (deck, qid, path, target, media_target, media_offset, target_ns, now),
            r,
        ),
        now <= later,
    ensures
        ({
            let d = old(deck)@;
            let e = final(deck)@;
            &&& r is Ok <==> target_ns is Some && target_ns->0 <= now
            &&& r is Err ==> e == d
            &&& r is Ok ==> {
                &&& position_of(e.control, None, now) == target_ns
                &&& d.control.paused ==> position_of(e.control, None, later) == target_ns
                &&& !d.control.paused ==> position_of(e.control, None, later) == Some(
                    (target_ns->0 + (later - now)) as u64,
                )
                &&& e.control.clock == Some((now - target_ns->0) as u64)
                &&& e.control.pause_started == (if d.control.paused {
                    Some(now)
                } else {
                    None
                })
                &&& e.control.timeline_offset == media_offset
                &&& e.control.peek_pts is None
                &&& e.control.last_pts is None
                &&& !e.control.streaming
                &&& e.control.stream_epoch > d.control.stream_epoch
                &&& e.control.hold_position == (if d.control.hold_position is Some {
                    Some(target)
                } else {
                    None
                })
                &&& e.pending is Some
                &&& e.pending->0.path == path@
                &&& e.pending->0.start_before == Some(media_target)
                &&& e.pending->0.clamp_to_media
                &&& e.pending->0.session == d.session
                &&& e.pending->0.seek_frame is Some == d.control.paused
                &&& d.control.paused ==> e.pending->0.seek_frame->0.position == media_target
                    && !e.pending->0.seek_frame->0.adjust_show_clock
                &&& e.stop
                &&& e.current_qid == d.current_qid
                &&& e.current_instance == d.current_instance
                &&& e.control.media_length == d.control.media_length
                &&& e.control.fade == d.control.fade
                &&& e.control.paused == d.control.paused
                &&& e.paused == d.paused
                &&& e.follow is Some == d.follow is Some
                &&& d.follow is Some ==> e.follow->0.qid == d.follow->0.qid && e.follow->0.offset
                    == d.follow->0.offset && e.follow->0.hold_position == (if d.follow->0.qid
                    == qid@ && d.follow->0.hold_position is Some {
                    Some(target)
                } else {
                    d.follow->0.hold_position
                })
            }
        }),
{
    reveal(DeckView::decode_asked);
}

/// While the show is paused the video stands still, and when it goes on it does
/// so from there; a fade starts anew where it is told to.
pub proof fn a_pause_holds_the_video(
    deck: &mut VideoDeck,
    after: &mut VideoDeck,
    fade: Option<Moment>,
    other: Option<Moment>,
    start: Moment,
    end: Moment,
    at: Moment,
)
    requires
        old(deck)@.control.clock is Some,
        old(deck)@.control.clock->0 <= start <= at <= end,
        old(deck)@.control.pause_started is None,
        old(deck)@.control.clock->0 + (end - start) <= u64::MAX,
        call_ensures(VideoDeck::set_video_paused, (deck, true, other, start), ()),
        old(after)@ == final(deck)@,
        call_ensures(VideoDeck::set_video_paused, (after, false, fade, end), ()),
    ensures
        ({
            let d = old(deck)@;
            let paused = final(deck)@;
            let on = final(after)@;
            let clock = d.control.clock->0;
            &&& paused.paused && paused.video_paused && paused.pixmap_paused
                && paused.control.paused
            &&& !on.paused && !on.video_paused && !on.pixmap_paused && !on.control.paused
            &&& paused.control.clock == d.control.clock
            &&& paused.control.pause_started == Some(start)
            &&& position_of(d.control, None, start) == Some((start - clock) as u64)
            &&& position_of(paused.control, None, at) == Some((start - clock) as u64)
            &&& position_of(on.control, None, end) == Some((start - clock) as u64)
            &&& on.control.pause_started is None
            &&& on.control.clock == Some((clock + (end - start)) as u64)
            &&& paused.control.fade == d.control.fade
            &&& d.control.fade is None ==> on.control.fade is None
            &&& d.control.fade is Some ==> on.control.fade is Some && (on.control.fade->0).1 == (
            d.control.fade->0).1 && (on.control.fade->0).0 == (if fade is Some {
                fade->0
            } else {
                (d.control.fade->0).0
            })
            &&& on.current_qid == d.current_qid
            &&& on.pending == d.pending
            &&& on.control.stream_epoch == d.control.stream_epoch
            &&& on.control.hold_position == d.control.hold_position
            &&& on.follow == d.follow
        }),
{
}

/// Stopping leaves no picture, no clock and no request; texts and the pixel map
/// stay.
pub proof fn a_stop_leaves_no_picture(deck: &mut VideoDeck, state: &mut SharedState, session: u64)
    requires
        old(deck)@.room(),
        call_ensures(VideoDeck::stop_video_playback, (deck, state, session), ()),
    ensures
        ({
            let d = old(deck)@;
            let e = final(deck)@;
            &&& e.current_qid is None
            &&& e.current_instance is None
            &&& !e.control.video_active
            &&& e.control.clock is None
            &&& e.control.peek_pts is None
            &&& e.control.last_pts is None
            &&& !e.control.canvas_has_frame
            &&& e.control.fade is None
            &&& e.control.hold_position is None
            &&& e.control.seek_frame is None
            &&& e.control.media_length is None
            &&& e.control.timeline_offset.bits == 0
            &&& !e.control.streaming
            &&& e.control.stream_epoch > d.control.stream_epoch
            &&& e.stop
            &&& e.pending is None
            &&& e.session == session
            &&& e.session_instance is None
            &&& e.control.text_active == d.control.text_active
            &&& e.control.paused == d.control.paused
            &&& e.current_text == d.current_text
            &&& e.current_pixmap == d.current_pixmap
            &&& e.pixmap_stop == d.pixmap_stop
            &&& e.pixmap_streaming == d.pixmap_streaming
            &&& e.paused == d.paused
            &&& e.follow == d.follow
            &&& e.worker == d.worker
            &&& final(state)@.diagnostics.video is None
            &&& final(state)@.show_file == old(state)@.show_file
            &&& final(state)@.command_queue == old(state)@.command_queue
        }),
{
    reveal(DeckView::with_video);
}

/// A decoder is started for the request that waits, as it was asked for, and
/// only where none runs; its reports are told from those of every stream
/// before it.
pub proof fn one_decoder_runs_at_a_time(deck: &mut VideoDeck, r: Option<DecodeStart>)
    requires
        old(deck)@.control.stream_epoch < u64::MAX,
        call_ensures(VideoDeck::start_pending_video_decode, (deck,), r),
    ensures
        ({
            let d = old(deck)@;
            let e = final(deck)@;
            &&& d.worker == Worker::Busy ==> r is None && e == d
            &&& d.worker != Worker::Busy && d.pending is None ==> r is None && e.worker
                == Worker::Idle && e.control == d.control && e.stop == d.stop
            &&& d.worker != Worker::Busy && d.pending is Some ==> {
                &&& r is Some
                &&& r->0.request.path@ == d.pending->0.path
                &&& r->0.request.start_before == d.pending->0.start_before
                &&& r->0.request.seek_frame == d.pending->0.seek_frame
                &&& r->0.request.clamp_to_media == d.pending->0.clamp_to_media
                &&& r->0.request.session == d.pending->0.session
                &&& r->0.stream_epoch == e.control.stream_epoch
                &&& e.control.stream_epoch > d.control.stream_epoch
                &&& e.control.streaming
                &&& e.control.seek_frame == d.pending->0.seek_frame
                &&& e.control.clock == d.control.clock
                &&& e.worker == Worker::Busy
                &&& !e.stop
                &&& e.pending is None
            }
            &&& e.current_qid == d.current_qid
            &&& e.paused == d.paused
            &&& e.follow == d.follow
        }),
{
}

/// A request replaces the one that waits; the stream before it is cut off, and
/// the picture and the clock stay.
pub proof fn a_request_replaces_the_one_that_waits(
    deck: &mut VideoDeck,
    path: String,
    start_before: Option<Double>,
    seek_frame: Option<SeekFrame>,
    clamp: bool,
)
    requires
        old(deck)@.control.stream_epoch < u64::MAX,
        call_ensures(
            VideoDeck::spawn_video_decode,
            (deck, path, start_before, seek_frame, clamp),
            (),
        ),
    ensures
        ({
            let d = old(deck)@;
            let e = final(deck)@;
            &&& e.pending is Some
            &&& e.pending->0.path == path@
            &&& e.pending->0.start_before == start_before
            &&& e.pending->0.seek_frame == seek_frame
            &&& e.pending->0.clamp_to_media == clamp
            &&& e.pending->0.session == d.session
            &&& e.stop
            &&& !e.control.streaming
            &&& e.control.stream_epoch > d.control.stream_epoch
            &&& e.control.peek_pts is None
            &&& e.control.clock == d.control.clock
            &&& e.control.last_pts == d.control.last_pts
            &&& e.control.canvas_has_frame == d.control.canvas_has_frame
            &&& e.control.fade == d.control.fade
            &&& e.control.paused == d.control.paused
            &&& e.current_qid == d.current_qid
            &&& e.current_instance == d.current_instance
            &&& e.worker == d.worker
            &&& e.paused == d.paused
            &&& e.follow == d.follow
            &&& e.open_retries == d.open_retries
        }),
{
    reveal(DeckView::decode_asked);
}

/// Where a seek may go: as it is, where that lies before the last moment of
/// the media, else to that moment; in media of unknown length every finite
/// position is as good, and none that is not.
pub proof fn seeks_are_kept_in_the_media(target: Double, length: Option<Double>, r: Double)
    requires
        call_ensures(clamp_video_seek_secs, (target, length), r),
    ensures
        ({
            let known = length is Some && 0 < length->0.bits < 0x7ff0_0000_0000_0000;
            let end = Double { bits: (length->0.bits - 1) as u64 };
            let size = if target.bits >= 0x8000_0000_0000_0000 {
                target.bits - 0x8000_0000_0000_0000
            } else {
                target.bits as int
            };
            &&& known && target.less(end) ==> r == target
            &&& known && !target.less(end) ==> r == end
            &&& !known && size < 0x7ff0_0000_0000_0000 ==> r == target
            &&& !known && size >= 0x7ff0_0000_0000_0000 ==> r.bits == 0
        }),
{
}

/// The position of a video: where it is held, else the time since it was at
/// zero, up to the pause where there is one.
pub proof fn the_position_is_the_time_since_the_start(
    control: &VideoControl,
    hold: Option<u64>,
    now: Moment,
    r: Option<u64>,
)
    requires
        call_ensures(video_paused_position, (control, hold, now), r),
    ensures
        hold is Some ==> r == hold,
        hold is None && control.clock is None ==> r is None,
        hold is None && control.clock is Some ==> {
            let clock = control.clock->0;
            let end = if control.pause_started is Some {
                control.pause_started->0
            } else {
                now
            };
            &&& r is Some
            &&& end >= clock ==> r->0 == end - clock
            &&& end < clock ==> r->0 == 0
        },
{
}

/// The clock of a video that is at a position now shows that position.
pub proof fn a_clock_shows_its_position(
    now: Moment,
    target: Option<u64>,
    paused: bool,
    s: Option<(Moment, Option<Moment>)>,
    c: Option<Moment>,
)
    requires
        call_ensures(video_seek_clock, (now, target, paused), s),
        call_ensures(video_start_clock, (now, target), c),
    ensures
        s is Some <==> target is Some && target->0 <= now,
        s is Some ==> (s->0).0 + target->0 == now,
        s is Some && paused ==> (s->0).1 == Some(now),
        s is Some && !paused ==> (s->0).1 is None,
        c is Some == s is Some,
        c is Some ==> c->0 == (s->0).0,
{
}

/// Moving the clock ahead takes the video further on by that much, and moving
/// it back takes it back.
pub proof fn a_nudge_moves_the_video(deck: &mut VideoDeck, forward: bool, ns: u64, now: Moment)
    requires
        old(deck)@.control.clock is Some,
        old(deck)@.control.pause_started is None,
        old(deck)@.control.clock->0 + ns <= now,
        call_ensures(VideoDeck::nudge_video_clock, (deck, forward, ns), ()),
    ensures
        ({
            let before = position_of(old(deck)@.control, None, now);
            let after = position_of(final(deck)@.control, None, now);
            &&& before is Some && after is Some
            &&& forward && ns <= old(deck)@.control.clock->0 ==> after->0 == before->0 + ns
            &&& forward && ns > old(deck)@.control.clock->0 ==> after == before
            &&& !forward ==> after->0 == before->0 - ns
            &&& final(deck)@.control.stream_epoch == old(deck)@.control.stream_epoch
            &&& final(deck)@.pending == old(deck)@.pending
        }),
{
    reveal(DeckView::nudged);
}

/// A video that is put at a position is there.
pub proof fn an_anchored_video_is_there(deck: &mut VideoDeck, ns: u64, now: Moment)
    requires
        call_ensures(VideoDeck::mtc_reanchor, (deck, ns, now), ()),
    ensures
        ns <= now ==> final(deck)@.control.clock == Some((now - ns) as u64),
        ns <= now && old(deck)@.control.pause_started is None ==> position_of(
            final(deck)@.control,
            None,
            now,
        ) == Some(ns),
        ns > now ==> final(deck)@ == old(deck)@,
        final(deck)@.control.stream_epoch == old(deck)@.control.stream_epoch,
        final(deck)@.pending == old(deck)@.pending,
{
    reveal(DeckView::anchored);
}

/// The followed media is opened again at its target, unless it was opened less
/// than the least time ago, and then nothing changes.
pub proof fn followed_media_is_opened_at_its_target(
    deck: &mut VideoDeck,
    t: &FollowTarget,
    now: Moment,
    b: bool,
)
    requires
        old(deck)@.control.stream_epoch < u64::MAX,
        call_ensures(VideoDeck::mtc_hard_sync, (deck, t, now), b),
    ensures
        ({
            let d = old(deck)@;
            let e = final(deck)@;
            &&& b <==> d.follow is Some && (d.last_hard_sync is None || (if now
                >= d.last_hard_sync->0 {
                now - d.last_hard_sync->0 >= t.floor
            } else {
                t.floor == 0
            }))
            &&& !b ==> e == d
            &&& b ==> {
                &&& e.last_hard_sync == Some(now)
                &&& e.pending is Some
                &&& e.pending->0.path == d.follow->0.path
                &&& e.pending->0.start_before == Some(t.target)
                &&& e.pending->0.seek_frame is None
                &&& e.pending->0.clamp_to_media
                &&& e.control.stream_epoch > d.control.stream_epoch
                &&& t.target_ns <= now ==> e.control.clock == Some((now - t.target_ns) as u64)
                &&& t.target_ns > now ==> e.control.clock == d.control.clock
            }
            &&& e.follow == d.follow
            &&& e.current_qid == d.current_qid
        }),
{
    reveal(DeckView::hard_synced);
    reveal(DeckView::decode_asked);
    reveal(DeckView::anchored);
}

/// A followed video runs with its timecode: it is held nowhere then, it is
/// moved or opened again only where that is asked for, and one that was held
/// goes on from its target. Where the timecode stands still the video is held
/// at its target, where that is asked for.
pub proof fn a_followed_video_keeps_to_its_timecode(
    deck: &mut VideoDeck,
    t: &FollowTarget,
    now: Moment,
)
    requires
        old(deck)@.control.stream_epoch < u64::MAX,
        call_ensures(VideoDeck::drive_mtc_follow, (deck, t, now), ()),
    ensures
        ({
            let d = old(deck)@;
            let e = final(deck)@;
            let held = d.follow is Some && d.follow->0.hold_position is Some;
            &&& d.follow is None ==> e.drift is None && e.control == d.control && e.pending
                == d.pending && e.follow is None
            &&& d.follow is Some && t.playing ==> {
                &&& e.follow is Some
                &&& e.follow->0.hold_position is None
                &&& e.control.hold_position is None
                &&& held ==> e.drift is None
                &&& !held ==> e.drift == Some(t.drift)
                &&& held && !t.far ==> e.pending == d.pending && e.control.stream_epoch
                    == d.control.stream_epoch && e.control.clock == (if t.target_ns <= now {
                    Some((now - t.target_ns) as u64)
                } else {
                    d.control.clock
                })
                &&& !held && (t.adjust is Keep || t.adjust is Hold) ==> e.control.clock
                    == d.control.clock && e.pending == d.pending
                &&& !held && t.adjust is Nudge && d.control.clock is Some ==> {
                    let ns = t.adjust->ns;
                    let clock = d.control.clock->0;
                    &&& e.pending == d.pending
                    &&& t.adjust->forward && ns <= clock ==> e.control.clock == Some(
                        (clock - ns) as u64,
                    )
                    &&& !t.adjust->forward ==> e.control.clock == Some((clock + ns) as u64)
                }
                &&& (held && t.far || !held && t.adjust is HardSync) && d.last_hard_sync is None
                    ==> {
                    &&& e.pending is Some
                    &&& e.pending->0.path == d.follow->0.path
                    &&& e.pending->0.start_before == Some(t.target)
                    &&& e.last_hard_sync == Some(now)
                    &&& t.target_ns <= now ==> e.control.clock == Some((now - t.target_ns) as u64)
                }
            }
            &&& d.follow is Some && !t.playing ==> {
                &&& e.follow is Some
                &&& e.drift is None
                &&& t.locate.hold ==> e.follow->0.hold_position == Some(t.target)
                    && e.control.hold_position == Some(t.target)
                &&& !t.locate.hold ==> e.follow->0.hold_position == d.follow->0.hold_position
                    && e.control.hold_position == d.control.hold_position
                &&& !t.locate.sync ==> e.pending == d.pending && e.control.clock
                    == d.control.clock && e.control.stream_epoch == d.control.stream_epoch
                &&& t.locate.sync && d.last_hard_sync is None ==> e.pending is Some
                    && e.pending->0.path == d.follow->0.path && e.pending->0.start_before == Some(
                    t.target,
                ) && e.last_hard_sync == Some(now)
            }
            &&& e.current_qid == d.current_qid
            &&& e.paused == d.paused
        }),
{
    reveal(DeckView::hard_synced);
    reveal(DeckView::decode_asked);
    reveal(DeckView::anchored);
    reveal(DeckView::nudged);
    reveal(DeckView::held);
}

/// A timecode that did not change is as old as when it was first seen; a new
/// one is new.
pub proof fn an_unchanged_timecode_grows_old(
    deck: &mut VideoDeck,
    secs: Double,
    now: Moment,
    r: Option<(u64, u64)>,
)
    requires
        call_ensures(VideoDeck::note_timecode, (deck, secs, now), r),
        old(deck)@.follow is Some ==> old(deck)@.follow->0.last_mtc_at <= now && old(
            deck,
        )@.follow->0.last_tick <= now,
    ensures
        r is Some == old(deck)@.follow is Some,
        final(deck)@.follow is Some == old(deck)@.follow is Some,
        r is Some ==> {
            let f = old(deck)@.follow->0;
            let g = final(deck)@.follow->0;
            &&& (r->0).1 == now - f.last_tick
            &&& g.last_tick == now
            &&& (secs.less(f.last_mtc) || f.last_mtc.less(secs)) ==> (r->0).0 == 0 && g.last_mtc
                == secs && g.last_mtc_at == now
            &&& (secs.at_least(f.last_mtc) && f.last_mtc.at_least(secs)) ==> (r->0).0 == now
                - f.last_mtc_at && g.last_mtc == f.last_mtc && g.last_mtc_at == f.last_mtc_at
            &&& g.qid == f.qid
            &&& g.path == f.path
            &&& g.offset == f.offset
            &&& g.hold_position == f.hold_position
        },
        final(deck)@.control == old(deck)@.control,
{
}

/// The operator is warned of a rate once while it lasts, never of 25 frames a
/// second, and never while the timecode stands still.
pub proof fn a_rate_is_warned_of_once(
    deck: &mut VideoDeck,
    again: &mut VideoDeck,
    rate: FrameRate,
    running: bool,
    more: bool,
    b: bool,
    c: bool,
)
    requires
        call_ensures(VideoDeck::warn_of_rate, (deck, running, rate), b),
        old(again)@ == final(deck)@,
        call_ensures(VideoDeck::warn_of_rate, (again, more, rate), c),
    ensures
        rate == FrameRate::Fps25 ==> !b && !c,
        !running ==> !b && final(deck)@ == old(deck)@,
        running && rate != FrameRate::Fps25 ==> !c,
        running && rate != FrameRate::Fps25 && old(deck)@.warned_rate is None ==> b,
        running && rate != FrameRate::Fps25 && old(deck)@.warned_rate != Some(rate) ==> b,
        final(again)@.control == old(deck)@.control,
{
}

/// The file of a video cue is that of the first video cue with its number.
pub proof fn a_number_leads_to_its_video(cues: &Vec<Cue>, id: &Qid, r: Option<String>, k: int)
    requires
        call_ensures(video_path, (cues, id), r),
        0 <= k < cues@.len(),
        cues@[k].base.qid@ == id@,
        cues@[k].kind is Video,
        forall|j: int|
            0 <= j < k ==> !((#[trigger] cues@[j]).base.qid@ == id@ && cues@[j].kind is Video),
    ensures
        r is Some,
        r->0@ == cues@[k].kind->Video_path@,
{
    lemma_video_path(cues@, id@, k);
}

proof fn lemma_video_path(cues: Seq<Cue>, id: (int, nat), k: int)
    requires
        0 <= k < cues.len(),
        cues[k].base.qid@ == id,
        cues[k].kind is Video,
        forall|j: int|
            0 <= j < k ==> !((#[trigger] cues[j]).base.qid@ == id && cues[j].kind is Video),
    ensures
        video_path_of(cues, id) == Some(cues[k].kind->Video_path@),
    decreases k,
{
    if k > 0 {
        assert(!(cues[0].base.qid@ == id && cues[0].kind is Video));
        let rest = cues.drop_first();
        assert(rest[k - 1] == cues[k]);
        assert forall|j: int| 0 <= j < k - 1 implies !((#[trigger] rest[j]).base.qid@ == id
            && rest[j].kind is Video) by {
            assert(rest[j] == cues[j + 1]);
        }
        lemma_video_path(rest, id, k - 1);
    }
}

/// A number that no video cue has leads to no file.
pub proof fn a_number_without_a_video_leads_nowhere(cues: &Vec<Cue>, id: &Qid, r: Option<String>)
    requires
        call_ensures(video_path, (cues, id), r),
        forall|j: int|
            0 <= j < cues@.len() ==> !((#[trigger] cues@[j]).base.qid@ == id@
                && cues@[j].kind is Video),
    ensures
        r is None,
{
    lemma_no_video_path(cues@, id@);
}

proof fn lemma_no_video_path(cues: Seq<Cue>, id: (int, nat))
    requires
        forall|j: int|
            0 <= j < cues.len() ==> !((#[trigger] cues[j]).base.qid@ == id
                && cues[j].kind is Video),
    ensures
        video_path_of(cues, id) is None,
    decreases cues.len(),
{
    if cues.len() > 0 {
        let rest = cues.drop_first();
        assert forall|j: int| 0 <= j < rest.len() implies !((#[trigger] rest[j]).base.qid@ == id
            && rest[j].kind is Video) by {
            assert(rest[j] == cues[j + 1]);
        }
        assert(!(cues[0].base.qid@ == id && cues[0].kind is Video));
        lemma_no_video_path(rest, id);
    }
}

/// A step forward is taken only while the show is paused; the video is ahead by
/// the step then.
pub proof fn a_step_goes_to_the_next_frame(
    deck: &mut VideoDeck,
    ahead: Option<u64>,
    r: FrameStep,
    now: Moment,
)
    requires
        call_ensures(VideoDeck::frame_step, (deck, ahead), r),
        old(deck)@.control.clock is Some ==> old(deck)@.control.clock->0 <= now,
        old(deck)@.control.pause_started is None,
    ensures
        ({
            let d = old(deck)@;
            let e = final(deck)@;
            let c = d.control;
            &&& r is Refused <==> !d.paused
            &&& r is Display <==> d.paused && c.clock is None
            &&& r is NotReady <==> d.paused && c.clock is Some && c.peek_pts is None
            &&& r is Frame <==> d.paused && c.clock is Some && c.peek_pts is Some
            &&& !(r is Frame) ==> e == d
            &&& r is Frame ==> {
                let before = position_of(c, None, now)->0;
                let after = position_of(e.control, None, now)->0;
                &&& e.control.step_pending
                &&& r->moved <==> ahead is Some && ahead->0 <= c.clock->0
                &&& r->moved ==> after == before + ahead->0
                &&& !r->moved ==> after == before
                &&& e.pending == d.pending
                &&& e.control.stream_epoch == c.stream_epoch
            }
        }),
{
}

/// A step back looks for the last frame before the one that is shown, in the
/// file that plays, and only while the show is paused.
pub proof fn a_step_back_looks_for_the_frame_before(
    deck: &mut VideoDeck,
    position: Double,
    cues: &Vec<Cue>,
    r: FrameStep,
)
    requires
        old(deck)@.control.stream_epoch < u64::MAX,
        call_ensures(VideoDeck::frame_step_back, (deck, position, cues), r),
    ensures
        ({
            let d = old(deck)@;
            let e = final(deck)@;
            let c = d.control;
            let shown = if c.last_pts is Some {
                c.last_pts->0
            } else {
                position
            };
            &&& !d.paused ==> r is Refused
            &&& r is Display <==> d.paused && c.clock is None
            &&& d.current_qid is None && c.clock is Some ==> r is Refused
            &&& !(r is Sought) ==> e == d
            &&& r is Sought ==> {
                &&& d.paused && c.clock is Some && d.current_qid is Some
                &&& !Double { bits: 0 }.at_least(shown)
                &&& Some(e.pending->0.path) == video_path_of(cues@, d.current_qid->0@)
                &&& e.pending is Some
                &&& e.pending->0.start_before == Some(shown)
                &&& e.pending->0.seek_frame == Some(
                    SeekFrame { position, adjust_show_clock: true },
                )
                &&& !e.pending->0.clamp_to_media
                &&& e.control.clock == c.clock
            }
            &&& d.paused && c.clock is Some && d.current_qid is Some && video_path_of(
                cues@,
                d.current_qid->0@,
            ) is Some && !Double { bits: 0 }.at_least(shown) ==> r is Sought
        }),
{
    reveal(DeckView::decode_asked);
}

/// A failed decoder of the present stream is started again three times, from
/// the position that was reached, and then given up; a failure of an older
/// stream changes nothing.
pub proof fn a_failed_decoder_is_tried_again(
    deck: &mut VideoDeck,
    epoch: u64,
    playing: Option<(String, Double)>,
    r: FailStep,
)
    requires
        old(deck)@.control.stream_epoch < u64::MAX,
        call_ensures(VideoDeck::video_failed, (deck, epoch, playing), r),
    ensures
        ({
            let d = old(deck)@;
            let e = final(deck)@;
            &&& r is Stale <==> epoch != d.control.stream_epoch
            &&& r is Retry <==> epoch == d.control.stream_epoch && playing is Some
                && d.open_retries < 3
            &&& r is GiveUp ==> (r->report <==> playing is Some)
            &&& !(r is Retry) ==> e == d
            &&& r is Retry ==> {
                &&& r->attempt == d.open_retries + 1
                &&& e.open_retries == d.open_retries + 1
                &&& e.pending is Some
                &&& e.pending->0.path == (playing->0).0@
                &&& e.pending->0.start_before == Some((playing->0).1)
                &&& e.pending->0.seek_frame is None
                &&& !e.pending->0.clamp_to_media
                &&& e.control.clock == d.control.clock
                &&& e.control.stream_epoch > d.control.stream_epoch
                &&& e.current_qid == d.current_qid
            }
        }),
{
    reveal(DeckView::decode_asked);
}

/// A report counts where it comes from the present stream.
pub proof fn reports_of_the_present_stream_count(deck: &VideoDeck, epoch: u64, b: bool)
    requires
        call_ensures(VideoDeck::is_current, (deck, epoch), b),
    ensures
        b <==> epoch == deck@.control.stream_epoch,
{
}

/// Setting the picture cue or the text cue sets that one alone; a picture cue
/// that is set so is no playback.
pub proof fn cues_are_set_one_by_one(
    deck: &mut VideoDeck,
    text: &mut VideoDeck,
    qid: Option<Qid>,
    id: Option<Qid>,
)
    requires
        call_ensures(VideoDeck::set_current_video_qid, (deck, qid), ()),
        call_ensures(VideoDeck::set_current_text_qid, (text, id), ()),
    ensures
        final(deck)@.current_qid == qid,
        final(deck)@.current_instance is None,
        final(deck)@.control.video_active == qid is Some,
        final(deck)@.control.text_active == old(deck)@.control.text_active,
        final(deck)@.control.clock == old(deck)@.control.clock,
        final(deck)@.current_text == old(deck)@.current_text,
        final(deck)@.pending == old(deck)@.pending,
        final(text)@.current_text == id,
        final(text)@.control.text_active == id is Some,
        final(text)@.control.video_active == old(text)@.control.video_active,
        final(text)@.control.clock == old(text)@.control.clock,
        final(text)@.current_qid == old(text)@.current_qid,
        final(text)@.current_instance == old(text)@.current_instance,
        final(text)@.pending == old(text)@.pending,
{
    reveal(DeckView::with_video);
}

/// A decoder that could not be started leaves room for the next.
pub proof fn a_decoder_that_did_not_start_is_gone(deck: &mut VideoDeck)
    requires
        call_ensures(VideoDeck::decode_not_started, (deck,), ()),
    ensures
        final(deck)@.worker == Worker::Idle,
        !final(deck)@.control.streaming,
        final(deck)@.control.stream_epoch == old(deck)@.control.stream_epoch,
        final(deck)@.control.clock == old(deck)@.control.clock,
        final(deck)@.current_qid == old(deck)@.current_qid,
        final(deck)@.pending == old(deck)@.pending,
        final(deck)@.stop == old(deck)@.stop,
{
}

/// A queued request is handed out once no decoder runs, and once only; a later
/// one takes its place.
pub proof fn a_queued_request_is_handed_out_once(
    pending: &mut Option<DecodeRequest>,
    first: DecodeRequest,
    again: &mut Option<DecodeRequest>,
    latest: DecodeRequest,
    worker: &mut Worker,
    taken: &mut Option<DecodeRequest>,
    r: Option<DecodeRequest>,
)
    requires
        call_ensures(queue_latest_video_decode, (pending, first), ()),
        call_ensures(queue_latest_video_decode, (again, latest), ()),
        *old(again) == *final(pending),
        call_ensures(take_ready_video_decode, (worker, taken), r),
        *old(taken) == *final(again),
    ensures
        *final(pending) == Some(first),
        *old(worker) == Worker::Busy ==> r is None && *final(taken) == Some(latest)
            && *final(worker) == Worker::Busy,
        *old(worker) != Worker::Busy ==> r == Some(latest) && *final(taken) is None
            && *final(worker) == Worker::Idle,
{
}

} // verus!
