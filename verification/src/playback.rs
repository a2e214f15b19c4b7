//! What the show engine asks of the outputs: stopping pictures, texts, pixel
//! maps and lights, and firing the cues that the engine itself does not play.

use vstd::prelude::*;

use crate::diagnostics::VideoDiagnostics;
use crate::ieee::{Double, Single};
use crate::lighting::{
    all_sampled, player_events, player_position, sampled_looks, show_position, stop_requested,
    without_show, FadeSample, LightingEngine, LightingView, RecordedEvent,
};
use crate::qid::Qid;
use crate::remote::OscMessage;
use crate::show::{CanvasFit, Cue, CueKind, FadeType, LoopMode, StopMode};
use crate::state::{alert_fits, Moment, SharedState, StateView};
use crate::table::Table;
use crate::text::{decimal, push_decimal, texts};
use crate::video::{DeckView, FollowView, MtcFollow, VideoControl, VideoDeck};

verus! {

impl LightingView {
    /// The lights once the show of a cue was asked to end.
    pub open spec fn show_stopped(
        self,
        id: (int, nat),
        fade_out_time: Single,
        fade_type: FadeType,
        now: Moment,
    ) -> LightingView {
        let i = show_position(self.shows, id) as int;
        if i < self.shows.len() {
            LightingView {
                shows: self.shows.update(
                    i,
                    stop_requested(self.shows[i], fade_out_time, fade_type, now),
                ),
                dirty: true,
                ..self
            }
        } else {
            self
        }
    }

    /// The lights once all fades hold where they are and all shows are dropped.
    pub open spec fn all_stopped(self, samples: Map<u32, FadeSample>) -> LightingView {
        let held = if self.fades.dom() =~= Set::<u32>::empty() {
            self
        } else {
            LightingView {
                live: sampled_looks(self.live, self.fades, samples),
                fades: Map::empty(),
                dirty: true,
                ..self
            }
        };
        if self.shows.len() > 0 {
            LightingView { shows: Seq::empty(), dirty: true, ..held }
        } else {
            held
        }
    }
}

/// What is to be sent to the canvas.
#[derive(Clone, Copy, PartialEq, Eq, Structural, Debug)]
pub struct CanvasWish {
    /// Blank the picture.
    pub blank: bool,
    /// Take the text away.
    pub clear_overlay: bool,
    /// Blank the pixel map, so that the lights on it go dark.
    pub blank_pixmap: bool,
}

pub open spec fn same_cue(a: Option<Qid>, b: (int, nat)) -> bool {
    a is Some && a->0@ == b
}

fn is_cue(a: &Option<Qid>, b: &Qid) -> (r: bool)
    ensures
        r == same_cue(*a, b@),
{
    match a {
        Some(a) => a.same(b),
        None => false,
    }
}

/// The state once a picture was asked to end: where no time is given to it, it
/// stops, and the diagnostics tell of no video.
pub open spec fn picture_end_noted(s: StateView, fade_out: Single) -> StateView {
    if fade_out.positive() {
        s
    } else {
        s.with_video(None)
    }
}

impl DeckView {
    /// The deck once its picture fades out, or is stopped where no time is
    /// given to it.
    pub open spec fn picture_ended(self, fade_out: Single, session: u64, now: Moment) -> DeckView {
        if fade_out.positive() {
            DeckView {
                control: VideoControl { fade: Some((now, fade_out)), ..self.control },
                ..self
            }
        } else {
            self.stopped(session)
        }
    }

    /// The deck without a pixel map.
    pub open spec fn without_pixmap(self) -> DeckView {
        DeckView { pixmap_stop: true, pixmap_streaming: false, current_pixmap: None, ..self }
    }

    pub open spec fn without_text_of(self, id: (int, nat)) -> DeckView {
        if same_cue(self.current_text, id) {
            self.with_text(None)
        } else {
            self
        }
    }

    pub open spec fn without_pixmap_of(self, id: (int, nat), mode: StopMode) -> DeckView {
        if same_cue(self.current_pixmap, id) && mode != StopMode::LoopEnd {
            self.without_pixmap()
        } else {
            self
        }
    }

    /// Whether a cue that is asked to end is the picture, and none that the
    /// engine plays itself.
    pub open spec fn ends_picture(
        self,
        id: (int, nat),
        mode: StopMode,
        engine_video: Option<Qid>,
    ) -> bool {
        same_cue(self.current_qid, id) && !same_cue(engine_video, id) && mode != StopMode::LoopEnd
    }

    /// The deck once a cue was asked to end that the engine does not play
    /// itself. At the end of a loop only its text goes.
    pub open spec fn external_stopped(
        self,
        id: (int, nat),
        mode: StopMode,
        fade_out: Single,
        engine_video: Option<Qid>,
        session: u64,
        now: Moment,
    ) -> DeckView {
        let d = self.without_text_of(id).without_pixmap_of(id, mode);
        if self.ends_picture(id, mode, engine_video) {
            d.picture_ended(fade_out, session, now)
        } else {
            d
        }
    }

    /// The deck with a pixel map that is about to be shown; any other ends.
    pub open spec fn pixmap_begun(self, qid: Qid) -> DeckView {
        DeckView {
            pixmap_stop: false,
            pixmap_streaming: false,
            current_pixmap: Some(qid),
            ..self
        }
    }

    /// The deck once a cue was fired that the engine does not play itself: an
    /// image and a pixel map take their place at once.
    pub open spec fn external_fired(self, cue: Cue) -> DeckView {
        match cue.kind {
            CueKind::Image { .. } => self.image_shown(cue.base.qid),
            CueKind::PixelMap { .. } => self.pixmap_begun(cue.base.qid),
            _ => self,
        }
    }

    /// Whether nothing is on the canvas.
    pub open spec fn canvas_bare(self) -> bool {
        self.current_qid is None && !self.control.canvas_has_frame
    }

    /// The deck as it follows a timecode from its start, or follows none.
    pub open spec fn following(
        self,
        follow: Option<(Qid, String, Double)>,
        now: Moment,
    ) -> DeckView {
        DeckView {
            follow: match follow {
                Some((qid, path, offset)) => Some(
                    FollowView {
                        qid: qid@,
                        path: path@,
                        offset,
                        hold_position: Some(Double::zero()),
                        last_tick: now,
                        last_mtc: Double::zero(),
                        last_mtc_at: now,
                    },
                ),
                None => None,
            },
            ..self
        }
    }

    /// The deck once a still image is shown: no stream feeds it.
    pub open spec fn image_shown(self, qid: Qid) -> DeckView {
        DeckView {
            stop: true,
            pending: None,
            control: VideoControl {
                stream_epoch: (self.control.stream_epoch + 1) as u64,
                clock: None,
                streaming: false,
                peek_pts: None,
                last_pts: None,
                ..self.control
            },
            ..self
        }.with_video(Some(qid))
    }
}

impl VideoDeck {
    /// Let the picture fade out, or stop it where no time is given to it; then
    /// `true` is returned.
    pub fn end_picture(
        &mut self,
        state: &mut SharedState,
        fade_out: Single,
        session: u64,
        now: Moment,
    ) -> (stopped: bool)
        requires
            old(self)@.room(),
        ensures
            stopped == !fade_out.positive(),
            final(self)@ == old(self)@.picture_ended(fade_out, session, now),
            final(state)@ == picture_end_noted(old(state)@, fade_out),
    {
        if fade_out.gt_zero() {
            self.control.fade = Some((now, fade_out));
            false
        } else {
            self.stop_video_playback(state, session);
            true
        }
    }

    /// The engine asks for the end of the video.
    pub fn stop_video(
        &mut self,
        state: &mut SharedState,
        fade_out: Single,
        session: u64,
        now: Moment,
    ) -> (w: CanvasWish)
        requires
            old(self)@.room(),
        ensures
            w == (CanvasWish {
                blank: !fade_out.positive(),
                clear_overlay: false,
                blank_pixmap: false,
            }),
            final(self)@ == old(self)@.picture_ended(fade_out, session, now),
            final(state)@ == picture_end_noted(old(state)@, fade_out),
    {
        let stopped: bool = self.end_picture(state, fade_out, session, now);
        CanvasWish { blank: stopped, clear_overlay: false, blank_pixmap: false }
    }

    /// End the pixel map.
    pub fn stop_pixmap(&mut self)
        ensures
            final(self)@ == old(self)@.without_pixmap(),
    {
        self.pixmap_stop = true;
        self.pixmap_streaming = false;
        self.current_pixmap = None;
    }

    /// Start a pixel map; any other ends.
    pub fn start_pixmap(&mut self, qid: Qid)
        ensures
            final(self)@ == old(self)@.pixmap_begun(qid),
    {
        self.pixmap_stop = false;
        self.pixmap_streaming = false;
        self.current_pixmap = Some(qid);
    }

    /// A decoder feeds the pixel map; a still picture needs none.
    pub fn pixmap_fed(&mut self)
        ensures
            final(self)@ == (DeckView { pixmap_streaming: true, ..old(self)@ }),
    {
        self.pixmap_streaming = true;
    }

    /// The pixel map's frames were drained; `gone` tells that no more will
    /// come. A still picture stays.
    pub fn pixmap_drained(&mut self, gone: bool)
        ensures
            final(self)@ == (if old(self)@.pixmap_streaming && gone {
                DeckView { pixmap_streaming: false, current_pixmap: None, ..old(self)@ }
            } else {
                old(self)@
            }),
    {
        if self.pixmap_streaming && gone {
            self.pixmap_streaming = false;
            self.current_pixmap = None;
        }
    }

    /// A still image takes the place of the picture.
    pub fn show_image(&mut self, qid: Qid)
        requires
            old(self)@.room(),
        ensures
            final(self)@ == old(self)@.image_shown(qid),
    {
        self.stop = true;
        self.pending = None;
        let control: VideoControl = self.control;
        self.control = VideoControl {
            stream_epoch: control.stream_epoch + 1,
            clock: None,
            streaming: false,
            peek_pts: None,
            last_pts: None,
            ..control
        };
        self.set_current_video_qid(Some(qid));
    }

    /// Whether the canvas is blanked before a text comes up: nothing else is on
    /// it.
    pub fn text_blanks_canvas(&self) -> (b: bool)
        ensures
            b == self@.canvas_bare(),
    {
        self.current_qid.is_none() && !self.control.canvas_has_frame
    }

    /// A text was laid out; an empty one shows nothing.
    pub fn show_text(&mut self, qid: Qid, shown: bool)
        ensures
            final(self)@ == old(self)@.with_text(
                if shown {
                    Some(qid)
                } else {
                    None
                },
            ),
    {
        self.set_current_text_qid(
            if shown {
                Some(qid)
            } else {
                None
            },
        );
    }

    /// The followed timecode is set for a video that follows one, and dropped
    /// for one that does not.
    pub fn set_follow(&mut self, follow: Option<(Qid, String, Double)>, now: Moment)
        ensures
            final(self)@ == old(self)@.following(follow, now),
    {
        self.follow = match follow {
            Some((qid, path, offset)) => Some(
                MtcFollow {
                    qid,
                    path,
                    offset,
                    hold_position: Some(Double { bits: 0 }),
                    last_tick: now,
                    last_mtc: Double { bits: 0 },
                    last_mtc_at: now,
                },
            ),
            None => None,
        };
    }
}

/// The engine asks for the end of a cue that it does not play itself.
pub fn stop_external(
    state: &mut SharedState,
    deck: &mut VideoDeck,
    lighting: &mut LightingEngine,
    qid: Qid,
    mode: StopMode,
    fade_out: Single,
    fade_type: FadeType,
    engine_video: Option<Qid>,
    session: u64,
    now: Moment,
) -> (w: CanvasWish)
    requires
        old(deck)@.room(),
    ensures
        final(lighting)@ == old(lighting)@.show_stopped(qid@, fade_out, fade_type, now),
        final(deck)@ == old(deck)@.external_stopped(
            qid@,
            mode,
            fade_out,
            engine_video,
            session,
            now,
        ),
        final(state)@ == (if old(deck)@.ends_picture(qid@, mode, engine_video) {
            picture_end_noted(old(state)@, fade_out)
        } else {
            old(state)@
        }),
        w == (CanvasWish {
            blank: false,
            clear_overlay: same_cue(old(deck)@.current_text, qid@),
            blank_pixmap: same_cue(old(deck)@.current_pixmap, qid@) && mode != StopMode::LoopEnd,
        }),
{
    lighting.stop_show(qid, fade_out, fade_type, now);
    let mut wish: CanvasWish = CanvasWish {
        blank: false,
        clear_overlay: false,
        blank_pixmap: false,
    };
    if is_cue(&deck.current_text, &qid) {
        deck.set_current_text_qid(None);
        wish.clear_overlay = true;
    }
    if is_cue(&deck.current_pixmap, &qid) && mode != StopMode::LoopEnd {
        deck.stop_pixmap();
        wish.blank_pixmap = true;
    }
    if is_cue(&deck.current_qid, &qid) && !is_cue(&engine_video, &qid) && mode
        != StopMode::LoopEnd {
        deck.end_picture(state, fade_out, session, now);
    }
    wish
}

/// Everything but sound and video ends: no timecode is followed, the lights
/// hold, and texts and pixel maps go.
pub fn stop_external_outputs(
    deck: &mut VideoDeck,
    lighting: &mut LightingEngine,
    samples: &Table<FadeSample>,
) -> (w: CanvasWish)
    requires
        all_sampled(old(lighting)@.fades, samples@),
    ensures
        final(lighting)@ == old(lighting)@.all_stopped(samples@),
        final(deck)@ == (DeckView { follow: None, ..old(deck)@ }).without_pixmap().with_text(None),
        w == (CanvasWish { blank: false, clear_overlay: true, blank_pixmap: true }),
{
    deck.follow = None;
    lighting.stop_fade(samples);
    lighting.stop_all_shows();
    deck.stop_pixmap();
    deck.set_current_text_qid(None);
    CanvasWish { blank: false, clear_overlay: true, blank_pixmap: true }
}

/// A cue for another machine.
pub fn remote_go(node: String, qid: &Qid) -> (r: OscMessage)
    ensures
        r.addr@ == "/qplayer/remote/go"@,
        texts(r.args@) == seq![node@, qid.text()],
{
    let q: String = qid.to_text();
    let mut args: Vec<String> = Vec::new();
    args.push(node);
    args.push(q);
    assert(texts(args@) =~= seq![node@, qid.text()]);
    OscMessage { addr: "/qplayer/remote/go".to_owned(), args }
}

/// What a cue that the engine does not play itself asks for.
pub enum ExternalStep {
    Network { command: String },
    Text { text: String, font_size: Single, colour: [u8; 4], fit: CanvasFit, font: String },
    Image { path: String, fit: CanvasFit },
    PixelMap { path: String, loop_mode: LoopMode },
    Lighting { fade_time: Single, fade_type: FadeType },
    DmxShow {
        path: String,
        fade_in: Single,
        fade_out: Single,
        fade_type: FadeType,
        priority: u8,
        loop_mode: LoopMode,
        loop_count: i32,
    },
    /// Nothing: the cue only holds a place.
    Nothing,
    /// The engine plays such a cue itself.
    NotExternal,
}

/// Whether a step is what a cue asks for.
pub open spec fn external_step_of(cue: Cue, step: ExternalStep) -> bool {
    match (cue.kind, step) {
        (CueKind::Network { command }, ExternalStep::Network { command: c }) => c@ == command@,
        (
            CueKind::Text { text, font_size, colour, fit, font },
            ExternalStep::Text { text: t, font_size: s, colour: k, fit: f, font: n },
        ) => t@ == text@ && s == font_size && k == colour && f == fit && n@ == font@,
        (CueKind::Image { path, fit }, ExternalStep::Image { path: p, fit: f }) => p@ == path@ && f
            == fit,
        (CueKind::PixelMap { path }, ExternalStep::PixelMap { path: p, loop_mode }) => p@ == path@
            && loop_mode == cue.base.loop_mode,
        (
            CueKind::Lighting { fade_time, fade_type },
            ExternalStep::Lighting { fade_time: t, fade_type: f },
        ) => t == fade_time && f == fade_type,
        (
            CueKind::DmxShow { path, fade_in, fade_out, fade_type, priority },
            ExternalStep::DmxShow {
                path: p,
                fade_in: i,
                fade_out: o,
                fade_type: f,
                priority: y,
                loop_mode,
                loop_count,
            },
        ) => p@ == path@ && i == fade_in && o == fade_out && f == fade_type && y == priority
            && loop_mode == cue.base.loop_mode && loop_count == cue.base.loop_count,
        (CueKind::Dummy, ExternalStep::Nothing) => true,
        (CueKind::Sound { .. }, ExternalStep::NotExternal) => true,
        (CueKind::Video { .. }, ExternalStep::NotExternal) => true,
        (CueKind::Stop { .. }, ExternalStep::NotExternal) => true,
        (CueKind::Volume { .. }, ExternalStep::NotExternal) => true,
        (CueKind::Group, ExternalStep::NotExternal) => true,
        (CueKind::TimeCode { .. }, ExternalStep::NotExternal) => true,
        (CueKind::Goto { .. }, ExternalStep::NotExternal) => true,
        _ => false,
    }
}

/// What a cue that the engine does not play itself asks for.
pub fn external_step(cue: &Cue) -> (r: ExternalStep)
    ensures
        external_step_of(*cue, r),
{
    match &cue.kind {
        CueKind::Network { command } => ExternalStep::Network {
            command: command.as_str().to_owned(),
        },
        CueKind::Text { text, font_size, colour, fit, font } => ExternalStep::Text {
            text: text.as_str().to_owned(),
            font_size: *font_size,
            colour: *colour,
            fit: *fit,
            font: font.as_str().to_owned(),
        },
        CueKind::Image { path, fit } => ExternalStep::Image {
            path: path.as_str().to_owned(),
            fit: *fit,
        },
        CueKind::PixelMap { path } => ExternalStep::PixelMap {
            path: path.as_str().to_owned(),
            loop_mode: cue.base.loop_mode,
        },
        CueKind::Lighting { fade_time, fade_type } => ExternalStep::Lighting {
            fade_time: *fade_time,
            fade_type: *fade_type,
        },
        CueKind::DmxShow { path, fade_in, fade_out, fade_type, priority } => ExternalStep::DmxShow {
            path: path.as_str().to_owned(),
            fade_in: *fade_in,
            fade_out: *fade_out,
            fade_type: *fade_type,
            priority: *priority,
            loop_mode: cue.base.loop_mode,
            loop_count: cue.base.loop_count,
        },
        CueKind::Dummy => ExternalStep::Nothing,
        _ => ExternalStep::NotExternal,
    }
}

/// Fire a cue that the engine does not play itself. What it asks for is
/// returned, and whether the canvas is blanked before its text comes up.
pub fn apply_external_cue(deck: &mut VideoDeck, cue: &Cue) -> (r: (ExternalStep, bool))
    requires
        cue.kind is Image ==> old(deck)@.room(),
    ensures
        external_step_of(*cue, r.0),
        r.1 == (cue.kind is Text && old(deck)@.canvas_bare()),
        final(deck)@ == old(deck)@.external_fired(*cue),
{
    let step: ExternalStep = external_step(cue);
    let mut blank: bool = false;
    match &cue.kind {
        CueKind::Text { .. } => {
            blank = deck.text_blanks_canvas();
        },
        CueKind::Image { .. } => deck.show_image(cue.base.qid),
        CueKind::PixelMap { .. } => deck.start_pixmap(cue.base.qid),
        _ => {},
    }
    (step, blank)
}

/// How long after a change of the levels they are logged.
pub const LEVELS_LOG_DELAY: u64 = 1_000_000_000;

/// When the levels are logged: a while after the first of a run of changes.
pub fn levels_changed(due: Option<Moment>, now: Moment) -> (r: Option<Moment>)
    requires
        now <= u64::MAX - LEVELS_LOG_DELAY,
    ensures
        r == (if due is Some {
            due
        } else {
            Some((now + LEVELS_LOG_DELAY) as u64)
        }),
{
    if due.is_some() {
        due
    } else {
        Some(now + LEVELS_LOG_DELAY)
    }
}

/// Whether the levels are logged now; then they are not again until they
/// change.
pub fn levels_log_due(due: &mut Option<Moment>, now: Moment) -> (b: bool)
    ensures
        b == (*old(due) is Some && now >= (*old(due))->0),
        *final(due) == (if b {
            None
        } else {
            *old(due)
        }),
{
    match *due {
        Some(at) => {
            if now >= at {
                *due = None;
                true
            } else {
                false
            }
        },
        None => false,
    }
}

impl LightingEngine {
    /// Play a take through the lights without a cue, once, as it was recorded.
    pub fn preview_recording(&mut self, events: &Vec<RecordedEvent>, now: Moment)
        ensures
            final(self)@ == (LightingView {
                shows: final(self)@.shows,
                dirty: true,
                ..old(self)@
            }),
            final(self)@.shows.len() > 0,
            final(self)@.shows.drop_last() == without_show(old(self)@.shows, (-1int, 0nat)),
            ({
                let s = final(self)@.shows.last();
                &&& s.qid@ == (-1int, 0nat)
                &&& s.priority == 100
                &&& s.started == now
                &&& s.loop_mode == LoopMode::OneShot
                &&& s.loop_count == 1
                &&& s.fade_in == (Single { bits: 0 })
                &&& s.fade_out == (Single { bits: 0 })
                &&& s.fade_type == FadeType::Linear
                &&& s.stopping is None
                &&& !s.finished_reported
                &&& player_events(s.player) == events@
                &&& player_position(s.player) == 0
            }),
    {
        let none: Single = Single { bits: 0 };
        self.go_show(
            Qid::new(-1, 0),
            events,
            100,
            none,
            none,
            FadeType::Linear,
            LoopMode::OneShot,
            1,
            now,
        );
    }
}

/// Another project is open: the lights start over, and no text is shown.
pub fn reset_for_project_change(deck: &mut VideoDeck, lighting: &mut LightingEngine)
    ensures
        final(deck)@ == old(deck)@.with_text(None),
        final(lighting)@ == (LightingView {
            live: Map::empty(),
            fades: Map::empty(),
            shows: Seq::empty(),
            overlay: None,
            finished_shows: Seq::empty(),
            segment_pixels: Map::empty(),
            dirty: false,
            last_tick: old(lighting)@.last_tick,
            applied: None,
            senders: Seq::empty(),
        }),
{
    lighting.shutdown();
    deck.set_current_text_qid(None);
}

/// Whether a picture of this size needs another texture.
pub fn texture_recreated(have: Option<(u32, u32)>, width: u32, height: u32) -> (b: bool)
    ensures
        b == (have != Some((width, height))),
{
    match have {
        Some((w, h)) => w != width || h != height,
        None => true,
    }
}

/// What came in from another thread.
#[derive(Clone, Copy, PartialEq, Eq, Structural, Debug)]
pub enum AppEvent {
    /// The last frame of a stream was shown.
    VideoEof(u64),
    /// The decoder of a stream failed.
    VideoFailed(u64),
    /// An output needs its surface anew; whether it is one of the open ones.
    OutputSurfaceLost(bool),
    /// The graphics device is gone.
    DeviceLost,
}

/// What an event leads to.
#[derive(Clone, Copy, PartialEq, Eq, Structural, Debug)]
pub enum EventStep {
    Ignore,
    /// Tell the engine that its video ended.
    EndVideo,
    /// See what the failed decoder leads to.
    FailVideo,
    RebuildOutputs,
    /// End with an error.
    Exit,
}

/// What an event leads to: nothing while the program shuts down, and nothing
/// where it comes from an older stream.
pub fn user_event(deck: &VideoDeck, event: AppEvent, shutting_down: bool) -> (r: EventStep)
    ensures
        r == (if shutting_down {
            EventStep::Ignore
        } else {
            match event {
                AppEvent::VideoEof(epoch) => if epoch == deck@.control.stream_epoch {
                    EventStep::EndVideo
                } else {
                    EventStep::Ignore
                },
                AppEvent::VideoFailed(epoch) => if epoch == deck@.control.stream_epoch {
                    EventStep::FailVideo
                } else {
                    EventStep::Ignore
                },
                AppEvent::OutputSurfaceLost(open) => if open {
                    EventStep::RebuildOutputs
                } else {
                    EventStep::Ignore
                },
                AppEvent::DeviceLost => EventStep::Exit,
            }
        }),
{
    if shutting_down {
        return EventStep::Ignore;
    }
    match event {
        AppEvent::VideoEof(epoch) => {
            if deck.is_current(epoch) {
                EventStep::EndVideo
            } else {
                EventStep::Ignore
            }
        },
        AppEvent::VideoFailed(epoch) => {
            if deck.is_current(epoch) {
                EventStep::FailVideo
            } else {
                EventStep::Ignore
            }
        },
        AppEvent::OutputSurfaceLost(open) => {
            if open {
                EventStep::RebuildOutputs
            } else {
                EventStep::Ignore
            }
        },
        AppEvent::DeviceLost => EventStep::Exit,
    }
}

/// What the operator is told where a video could not be read.
pub fn video_stopped_message(name: &str) -> (r: String)
    ensures
        r@ == video_stopped_words(name@),
{
    let mut r: String = "Video stopped: '".to_owned();
    r.append(name);
    r.append("' could not be read. Check the file and its storage.");
    r
}

/// What the operator is told where the video of this name could not be read.
pub open spec fn video_stopped_words(name: Seq<char>) -> Seq<char> {
    "Video stopped: '"@ + name + "' could not be read. Check the file and its storage."@
}

/// A video is given up: the operator is told, and what the diagnostics told of
/// it is handed out, to be put back once the engine has stopped it.
pub fn give_up_video(state: &mut SharedState, name: &str, now: Moment) -> (kept: Option<
    VideoDiagnostics,
>)
    requires
        alert_fits(now),
    ensures
        final(state)@ == old(state)@.alerted(video_stopped_words(name@), now),
        kept == old(state)@.diagnostics.video,
{
    let message: String = video_stopped_message(name);
    state.report_operator_error(message, now);
    match &state.diagnostics.video {
        Some(video) => Some(video.clone()),
        None => None,
    }
}

/// Put back what the diagnostics told of a video that was given up.
pub fn keep_failed_video(state: &mut SharedState, kept: Option<VideoDiagnostics>)
    ensures
        final(state)@ == failure_kept(old(state)@, kept),
{
    if kept.is_some() {
        state.record_video(kept);
    }
}

/// The state with the record of a video that was given up.
pub open spec fn failure_kept(s: StateView, kept: Option<VideoDiagnostics>) -> StateView {
    if kept is Some {
        s.with_video(kept)
    } else {
        s
    }
}

/// What the diagnostics told of a video that failed they tell again once it was
/// given up, whatever the engine's actions made of the state in between.
pub proof fn a_failed_video_stays_on_record(before: StateView, between: StateView)
    requires
        before.diagnostics.video is Some,
    ensures
        ({
            let end = failure_kept(between, before.diagnostics.video);
            &&& end.diagnostics.video == before.diagnostics.video
            &&& end == between.with_video(before.diagnostics.video)
        }),
{
}

/// How a network cue's command goes out.
#[derive(Clone, Copy, PartialEq, Eq, Structural, Debug)]
pub enum NetworkRoute {
    Udp,
    Tcp,
    Osc,
    /// It would go out over OSC, which is not running.
    Unavailable,
}

/// How a network cue's command goes out: as its prefix says, else over OSC.
pub fn network_route(udp: bool, tcp: bool, osc: bool) -> (r: NetworkRoute)
    ensures
        r == (if udp {
            NetworkRoute::Udp
        } else if tcp {
            NetworkRoute::Tcp
        } else if osc {
            NetworkRoute::Osc
        } else {
            NetworkRoute::Unavailable
        }),
{
    if udp {
        NetworkRoute::Udp
    } else if tcp {
        NetworkRoute::Tcp
    } else if osc {
        NetworkRoute::Osc
    } else {
        NetworkRoute::Unavailable
    }
}

/// Why a cue that the engine does not play itself failed.
pub enum ExternalError {
    Udp { host: String, port: u16, error: String },
    Tcp { host: String, port: u16, error: String },
    OscCommand { error: String },
    OscSend { error: String },
    OscUnavailable,
    DmxShow { qid: Qid, error: String },
}

impl ExternalError {
    pub open spec fn words(self) -> Seq<char> {
        match self {
            ExternalError::Udp { host, port, error } => "UDP send to "@ + host@ + ":"@ + decimal(
                port as nat,
            ) + " failed: "@ + error@,
            ExternalError::Tcp { host, port, error } => "TCP send to "@ + host@ + ":"@ + decimal(
                port as nat,
            ) + " failed: "@ + error@,
            ExternalError::OscCommand { error } => "invalid OSC command: "@ + error@,
            ExternalError::OscSend { error } => "OSC send failed: "@ + error@,
            ExternalError::OscUnavailable => "OSC manager is unavailable"@,
            ExternalError::DmxShow { qid, error } => "DmxShow cue Q"@ + qid.text()
                + " failed to load: "@ + error@,
        }
    }

    /// The failure in words.
    pub fn to_text(&self) -> (r: String)
        ensures
            r@ == self.words(),
    {
        match self {
            ExternalError::Udp { host, port, error } => {
                let mut r: String = "UDP send to ".to_owned();
                r.append(host.as_str());
                r.append(":");
                push_decimal(&mut r, *port as u64);
                r.append(" failed: ");
                r.append(error.as_str());
                r
            },
            ExternalError::Tcp { host, port, error } => {
                let mut r: String = "TCP send to ".to_owned();
                r.append(host.as_str());
                r.append(":");
                push_decimal(&mut r, *port as u64);
                r.append(" failed: ");
                r.append(error.as_str());
                r
            },
            ExternalError::OscCommand { error } => {
                let mut r: String = "invalid OSC command: ".to_owned();
                r.append(error.as_str());
                r
            },
            ExternalError::OscSend { error } => {
                let mut r: String = "OSC send failed: ".to_owned();
                r.append(error.as_str());
                r
            },
            ExternalError::OscUnavailable => "OSC manager is unavailable".to_owned(),
            ExternalError::DmxShow { qid, error } => {
                let mut r: String = "DmxShow cue Q".to_owned();
                let number: String = qid.to_text();
                r.append(number.as_str());
                r.append(" failed to load: ");
                r.append(error.as_str());
                r
            },
        }
    }
}

/// A picture that is given time fades from now on for that time and stays;
/// one that is given none is gone at once.
pub proof fn a_picture_fades_or_stops(
    deck: &mut VideoDeck,
    state: &mut SharedState,
    fade_out: Single,
    session: u64,
    now: Moment,
    w: CanvasWish,
)
    requires
        old(deck)@.room(),
        call_ensures(VideoDeck::stop_video, (deck, state, fade_out, session, now), w),
    ensures
        ({
            let d = old(deck)@;
            let e = final(deck)@;
            let timed = 0 < fade_out.bits <= 0x7f80_0000;
            &&& timed ==> {
                &&& !w.blank
                &&& e.control.fade == Some((now, fade_out))
                &&& e.current_qid == d.current_qid
                &&& e.control.clock == d.control.clock
                &&& e.control.streaming == d.control.streaming
                &&& e.pending == d.pending
                &&& final(state)@ == old(state)@
            }
            &&& !timed ==> {
                &&& w.blank
                &&& e.current_qid is None
                &&& e.control.clock is None
                &&& e.control.fade is None
                &&& !e.control.streaming
                &&& e.control.stream_epoch > d.control.stream_epoch
                &&& e.pending is None
                &&& e.session == session
                &&& final(state)@.diagnostics.video is None
            }
            &&& !w.clear_overlay
            &&& !w.blank_pixmap
            &&& e.current_text == d.current_text
            &&& e.current_pixmap == d.current_pixmap
            &&& e.follow == d.follow
        }),
{
    reveal(DeckView::with_video);
}

/// The pixel map is on from its start to its end, or until its frames run out;
/// a still picture stays. The picture is not touched.
pub proof fn a_pixel_map_starts_and_ends(
    ended: &mut VideoDeck,
    begun: &mut VideoDeck,
    fed: &mut VideoDeck,
    drained: &mut VideoDeck,
    qid: Qid,
    gone: bool,
)
    requires
        call_ensures(VideoDeck::stop_pixmap, (ended,), ()),
        call_ensures(VideoDeck::start_pixmap, (begun, qid), ()),
        call_ensures(VideoDeck::pixmap_fed, (fed,), ()),
        call_ensures(VideoDeck::pixmap_drained, (drained, gone), ()),
    ensures
        final(ended)@.pixmap_stop,
        !final(ended)@.pixmap_streaming,
        final(ended)@.current_pixmap is None,
        final(ended)@.control == old(ended)@.control,
        final(ended)@.current_qid == old(ended)@.current_qid,
        !final(begun)@.pixmap_stop,
        !final(begun)@.pixmap_streaming,
        final(begun)@.current_pixmap == Some(qid),
        final(begun)@.control == old(begun)@.control,
        final(begun)@.current_qid == old(begun)@.current_qid,
        final(fed)@.pixmap_streaming,
        final(fed)@.current_pixmap == old(fed)@.current_pixmap,
        final(fed)@.control == old(fed)@.control,
        gone && old(drained)@.pixmap_streaming ==> final(drained)@.current_pixmap is None && !final(drained)@.pixmap_streaming,
        !(gone && old(drained)@.pixmap_streaming) ==> final(drained)@ == old(drained)@,
        final(drained)@.control == old(drained)@.control,
{
}

/// A still image is the picture, with no clock, no stream and no decoder.
pub proof fn a_still_image_has_no_clock(deck: &mut VideoDeck, qid: Qid)
    requires
        old(deck)@.room(),
        call_ensures(VideoDeck::show_image, (deck, qid), ()),
    ensures
        ({
            let d = old(deck)@;
            let e = final(deck)@;
            &&& e.current_qid == Some(qid)
            &&& e.current_instance is None
            &&& e.control.video_active
            &&& e.control.clock is None
            &&& !e.control.streaming
            &&& e.control.peek_pts is None
            &&& e.control.last_pts is None
            &&& e.control.stream_epoch > d.control.stream_epoch
            &&& e.stop
            &&& e.pending is None
            &&& e.current_text == d.current_text
            &&& e.current_pixmap == d.current_pixmap
            &&& e.control.text_active == d.control.text_active
            &&& e.follow == d.follow
        }),
{
    reveal(DeckView::with_video);
}

/// A text is on while it shows something; the canvas is blanked for it only
/// where nothing else is on it.
pub proof fn texts_are_on_while_they_show(
    deck: &mut VideoDeck,
    canvas: &VideoDeck,
    qid: Qid,
    shown: bool,
    b: bool,
)
    requires
        call_ensures(VideoDeck::show_text, (deck, qid, shown), ()),
        call_ensures(VideoDeck::text_blanks_canvas, (canvas,), b),
    ensures
        shown ==> final(deck)@.current_text == Some(qid),
        !shown ==> final(deck)@.current_text is None,
        final(deck)@.control.text_active == shown,
        final(deck)@.current_qid == old(deck)@.current_qid,
        final(deck)@.control.clock == old(deck)@.control.clock,
        b <==> canvas@.current_qid is None && !canvas@.control.canvas_has_frame,
{
}

/// A video that follows a timecode is held at its start until the timecode is
/// read; one that does not drops what was followed.
pub proof fn following_begins_at_the_start(
    deck: &mut VideoDeck,
    follow: Option<(Qid, String, Double)>,
    now: Moment,
)
    requires
        call_ensures(VideoDeck::set_follow, (deck, follow, now), ()),
    ensures
        follow is None ==> final(deck)@.follow is None,
        follow is Some ==> {
            let f = final(deck)@.follow->0;
            &&& final(deck)@.follow is Some
            &&& f.qid == (follow->0).0@
            &&& f.path == (follow->0).1@
            &&& f.offset == (follow->0).2
            &&& f.hold_position is Some
            &&& f.hold_position->0.bits == 0
            &&& f.last_mtc.bits == 0
            &&& f.last_tick == now
            &&& f.last_mtc_at == now
        },
        final(deck)@.control == old(deck)@.control,
        final(deck)@.current_qid == old(deck)@.current_qid,
{
}

/// The end of a cue that the engine does not play itself takes its text away at
/// once; its pixel map and its picture end too, except at the end of a loop.
/// What belongs to other cues stays, and so does the engine's own video.
pub proof fn the_end_of_a_cue_ends_what_it_shows(
    state: &mut SharedState,
    deck: &mut VideoDeck,
    lighting: &mut LightingEngine,
    qid: Qid,
    mode: StopMode,
    fade_out: Single,
    fade_type: FadeType,
    engine_video: Option<Qid>,
    session: u64,
    now: Moment,
    w: CanvasWish,
)
    requires
        old(deck)@.room(),
        call_ensures(
            stop_external,
            (
                state,
                deck,
                lighting,
                qid,
                mode,
                fade_out,
                fade_type,
                engine_video,
                session,
                now,
            ),
            w,
        ),
    ensures
        ({
            let d = old(deck)@;
            let e = final(deck)@;
            let text = d.current_text is Some && (d.current_text->0)@ == qid@;
            let pixmap = d.current_pixmap is Some && (d.current_pixmap->0)@ == qid@ && !(
            mode is LoopEnd);
            let own = engine_video is Some && (engine_video->0)@ == qid@;
            let picture = d.current_qid is Some && (d.current_qid->0)@ == qid@ && !own && !(
            mode is LoopEnd);
            let timed = 0 < fade_out.bits <= 0x7f80_0000;
            &&& text ==> e.current_text is None && w.clear_overlay
            &&& !text ==> e.current_text == d.current_text && !w.clear_overlay
            &&& pixmap ==> e.current_pixmap is None && e.pixmap_stop && w.blank_pixmap
            &&& !pixmap ==> e.current_pixmap == d.current_pixmap && !w.blank_pixmap
            &&& picture && timed ==> e.control.fade == Some((now, fade_out)) && e.current_qid
                == d.current_qid
            &&& picture && !timed ==> e.current_qid is None && e.control.clock is None && final(state)@.diagnostics.video is None
            &&& !picture ==> e.current_qid == d.current_qid && e.control.clock == d.control.clock
                && e.control.fade == d.control.fade && final(state)@ == old(state)@
            &&& !w.blank
            &&& e.follow == d.follow
            &&& final(lighting)@.shows.len() == old(lighting)@.shows.len()
            &&& final(lighting)@.live == old(lighting)@.live
            &&& final(lighting)@.fades == old(lighting)@.fades
            &&& (forall|i: int|
                0 <= i < old(lighting)@.shows.len() ==> (#[trigger] old(
                    lighting,
                )@.shows[i]).qid@ != qid@) ==> final(lighting)@ == old(lighting)@
        }),
{
    reveal(DeckView::with_video);
    let shows = old(lighting)@.shows;
    if forall|i: int| 0 <= i < shows.len() ==> (#[trigger] shows[i]).qid@ != qid@ {
        crate::lighting::lemma_show_position(shows, qid@, shows.len() as int);
    }
}

/// The show of a cue that is asked to end fades out, whatever else the cue is.
pub proof fn the_end_of_a_cue_fades_its_show(
    state: &mut SharedState,
    deck: &mut VideoDeck,
    lighting: &mut LightingEngine,
    qid: Qid,
    mode: StopMode,
    fade_out: Single,
    fade_type: FadeType,
    engine_video: Option<Qid>,
    session: u64,
    now: Moment,
    w: CanvasWish,
    k: int,
)
    requires
        old(deck)@.room(),
        call_ensures(
            stop_external,
            (
                state,
                deck,
                lighting,
                qid,
                mode,
                fade_out,
                fade_type,
                engine_video,
                session,
                now,
            ),
            w,
        ),
        0 <= k < old(lighting)@.shows.len(),
        old(lighting)@.shows[k].qid@ == qid@,
        forall|i: int| 0 <= i < k ==> (#[trigger] old(lighting)@.shows[i]).qid@ != qid@,
    ensures
        ({
            let s = old(lighting)@.shows[k];
            let t = final(lighting)@.shows[k];
            let timed = 0 < fade_out.bits <= 0x7f80_0000;
            &&& timed && s.stopping is None ==> t.stopping == Some((now, fade_out, fade_type))
            &&& timed && s.stopping is Some ==> t.stopping == s.stopping
            &&& !timed ==> t.stopping == Some((now, Single { bits: 0 }, fade_type))
            &&& t.qid == s.qid
            &&& final(lighting)@.dirty
            &&& forall|i: int|
                0 <= i < old(lighting)@.shows.len() && i != k ==> (#[trigger] final(lighting)@.shows[i]) == old(lighting)@.shows[i]
        }),
{
    crate::lighting::lemma_show_position(old(lighting)@.shows, qid@, k);
}

/// When everything ends, no timecode is followed, no fixture fades and no show
/// plays; texts and pixel maps go, and the picture is left to the engine.
pub proof fn everything_ends(
    deck: &mut VideoDeck,
    lighting: &mut LightingEngine,
    samples: &Table<FadeSample>,
    w: CanvasWish,
    id: u32,
)
    requires
        all_sampled(old(lighting)@.fades, samples@),
        call_ensures(stop_external_outputs, (deck, lighting, samples), w),
    ensures
        final(deck)@.follow is None,
        final(deck)@.current_text is None,
        !final(deck)@.control.text_active,
        final(deck)@.current_pixmap is None,
        final(deck)@.pixmap_stop,
        final(deck)@.current_qid == old(deck)@.current_qid,
        final(deck)@.control.clock == old(deck)@.control.clock,
        final(lighting)@.shows.len() == 0,
        !final(lighting)@.fades.contains_key(id),
        old(lighting)@.live.contains_key(id) ==> final(lighting)@.live.contains_key(id),
        old(lighting)@.live.contains_key(id) && !old(lighting)@.fades.contains_key(id) ==> final(lighting)@.live[id] == old(lighting)@.live[id],
        !w.blank && w.clear_overlay && w.blank_pixmap,
{
    if old(lighting)@.fades.contains_key(id) {
        assert(old(lighting)@.fades.dom().contains(id));
    }
}

/// A cue for another machine names that machine and the cue.
pub proof fn a_remote_go_names_machine_and_cue(node: String, qid: &Qid, r: OscMessage)
    requires
        call_ensures(remote_go, (node, qid), r),
    ensures
        r.addr@ == "/qplayer/remote/go"@,
        r.args@.len() == 2,
        r.args@[0]@ == node@,
        r.args@[1]@ == qid.text(),
{
    assert(texts(r.args@).len() == r.args@.len());
    assert(texts(r.args@)[0] == r.args@[0]@);
    assert(texts(r.args@)[1] == r.args@[1]@);
}

/// A cue that the engine does not play itself asks for what it holds; an image
/// and a pixel map take their place on the deck at once, and the others leave
/// the deck as it is.
pub proof fn an_external_cue_asks_for_what_it_holds(
    deck: &mut VideoDeck,
    cue: &Cue,
    r: (ExternalStep, bool),
)
    requires
        cue.kind is Image ==> old(deck)@.room(),
        call_ensures(apply_external_cue, (deck, cue), r),
    ensures
        ({
            let d = old(deck)@;
            let e = final(deck)@;
            let k = cue.kind;
            &&& k is Network <==> r.0 is Network
            &&& k is Network ==> r.0->Network_command@ == k->command@
            &&& k is Text <==> r.0 is Text
            &&& k is Text ==> r.0->text@ == k->text@ && r.0->font_size == k->font_size
                && r.0->colour == k->colour && r.0->font@ == k->font@ && r.0->Text_fit
                == k->Text_fit
            &&& k is Image <==> r.0 is Image
            &&& k is Image ==> r.0->Image_path@ == k->Image_path@ && r.0->Image_fit
                == k->Image_fit && e.current_qid == Some(cue.base.qid) && e.control.clock is None
            &&& k is PixelMap <==> r.0 is PixelMap
            &&& k is PixelMap ==> r.0->PixelMap_path@ == k->PixelMap_path@
                && r.0->PixelMap_loop_mode == cue.base.loop_mode && e.current_pixmap == Some(
                cue.base.qid,
            ) && !e.pixmap_stop
            &&& k is Lighting <==> r.0 is Lighting
            &&& k is Lighting ==> r.0->fade_time == k->Lighting_fade_time
                && r.0->Lighting_fade_type == k->Lighting_fade_type
            &&& k is DmxShow <==> r.0 is DmxShow
            &&& k is DmxShow ==> r.0->DmxShow_path@ == k->DmxShow_path@ && r.0->fade_in
                == k->DmxShow_fade_in && r.0->fade_out == k->DmxShow_fade_out && r.0->priority
                == k->priority && r.0->loop_count == cue.base.loop_count
                && r.0->DmxShow_loop_mode == cue.base.loop_mode && r.0->DmxShow_fade_type
                == k->DmxShow_fade_type
            &&& k is Dummy <==> r.0 is Nothing
            &&& !(k is Image || k is PixelMap) ==> e == d
            &&& !(k is Image) ==> e.current_qid == d.current_qid && e.control == d.control
            &&& !(k is PixelMap) ==> e.current_pixmap == d.current_pixmap
            &&& r.1 <==> k is Text && d.current_qid is None && !d.control.canvas_has_frame
        }),
{
    reveal(DeckView::with_video);
}

/// The levels are logged once, a second after the first of a run of changes.
pub proof fn levels_are_logged_a_second_later(
    due: Option<Moment>,
    now: Moment,
    r: Option<Moment>,
    at: &mut Option<Moment>,
    later: Moment,
    b: bool,
)
    requires
        now <= u64::MAX - 1_000_000_000,
        call_ensures(levels_changed, (due, now), r),
        *old(at) == r,
        call_ensures(levels_log_due, (at, later), b),
    ensures
        due is Some ==> r == due,
        due is None ==> r == Some((now + 1_000_000_000) as u64),
        due is None ==> (b <==> later >= now + 1_000_000_000),
        due is Some ==> (b <==> later >= due->0),
        b ==> *final(at) is None,
        !b ==> *final(at) == r,
{
}

/// Where no time is set the levels are not logged.
pub proof fn unchanged_levels_are_not_logged(at: &mut Option<Moment>, now: Moment, b: bool)
    requires
        *old(at) is None,
        call_ensures(levels_log_due, (at, now), b),
    ensures
        !b,
        *final(at) is None,
{
}

/// A preview plays the take once, from its first moment, without fades, in
/// place of an earlier preview; the shows of cues play on.
pub proof fn a_preview_plays_the_take_once(
    engine: &mut LightingEngine,
    events: &Vec<RecordedEvent>,
    now: Moment,
)
    requires
        call_ensures(LightingEngine::preview_recording, (engine, events, now), ()),
    ensures
        ({
            let before = old(engine)@.shows;
            let after = final(engine)@.shows;
            let s = after.last();
            &&& after.len() > 0
            &&& player_events(s.player) == events@
            &&& player_position(s.player) == 0
            &&& s.loop_mode is OneShot
            &&& s.started == now
            &&& s.priority == 100
            &&& s.fade_in.bits == 0 && s.fade_out.bits == 0
            &&& s.stopping is None
            &&& s.qid@ == (-1int, 0nat)
            &&& (forall|i: int|
                0 <= i < before.len() ==> (#[trigger] before[i]).qid@ != (-1int, 0nat))
                ==> after.drop_last() == before
            &&& final(engine)@.dirty
            &&& final(engine)@.live == old(engine)@.live
            &&& final(engine)@.fades == old(engine)@.fades
        }),
{
    crate::lighting::lemma_without_show(old(engine)@.shows, (-1int, 0nat));
}

/// Another project begins with dark lights and no text; the picture is not
/// touched.
pub proof fn another_project_starts_dark(
    deck: &mut VideoDeck,
    lighting: &mut LightingEngine,
    id: u32,
)
    requires
        call_ensures(reset_for_project_change, (deck, lighting), ()),
    ensures
        final(deck)@.current_text is None,
        !final(deck)@.control.text_active,
        final(deck)@.current_qid == old(deck)@.current_qid,
        !final(lighting)@.live.contains_key(id),
        !final(lighting)@.fades.contains_key(id),
        final(lighting)@.shows.len() == 0,
        final(lighting)@.senders.len() == 0,
        final(lighting)@.applied is None,
{
}

/// A texture is made anew where there is none of this size.
pub proof fn a_texture_fits_its_picture(have: Option<(u32, u32)>, w: u32, h: u32, b: bool)
    requires
        call_ensures(texture_recreated, (have, w, h), b),
    ensures
        have is None ==> b,
        have is Some ==> (b <==> (have->0).0 != w || (have->0).1 != h),
{
}

/// Events of the present stream end or fail the video, those of an older one
/// do nothing, a lost device ends the program, and nothing happens while it
/// shuts down.
pub proof fn events_lead_where_they_should(
    deck: &VideoDeck,
    event: AppEvent,
    shutting_down: bool,
    r: EventStep,
)
    requires
        call_ensures(user_event, (deck, event, shutting_down), r),
    ensures
        shutting_down ==> r is Ignore,
        !shutting_down ==> {
            &&& event is DeviceLost <==> r is Exit
            &&& event is OutputSurfaceLost ==> (if event->OutputSurfaceLost_0 {
                r is RebuildOutputs
            } else {
                r is Ignore
            })
            &&& event is VideoEof ==> (if event->VideoEof_0 == deck@.control.stream_epoch {
                r is EndVideo
            } else {
                r is Ignore
            })
            &&& event is VideoFailed ==> (if event->VideoFailed_0 == deck@.control.stream_epoch {
                r is FailVideo
            } else {
                r is Ignore
            })
        },
{
}

/// A video that is given up is named to the operator for the time of an alert,
/// and what is told of it can be put back.
pub proof fn a_given_up_video_is_named(
    state: &mut SharedState,
    back: &mut SharedState,
    name: &str,
    now: Moment,
    kept: Option<VideoDiagnostics>,
)
    requires
        alert_fits(now),
        call_ensures(give_up_video, (state, name, now), kept),
        call_ensures(keep_failed_video, (back, kept), ()),
    ensures
        final(state)@.operator_alert is Some,
        final(state)@.operator_alert->0.message == "Video stopped: '"@ + name@
            + "' could not be read. Check the file and its storage."@,
        final(state)@.show_file == old(state)@.show_file,
        final(state)@.command_queue == old(state)@.command_queue,
        kept == old(state)@.diagnostics.video,
        kept is Some ==> final(back)@.diagnostics.video == kept,
        kept is None ==> final(back)@ == old(back)@,
        final(back)@.show_file == old(back)@.show_file,
        final(back)@.operator_alert == old(back)@.operator_alert,
{
}

/// A command goes out as its prefix says, else over OSC where that runs.
pub proof fn commands_go_out_as_they_say(udp: bool, tcp: bool, osc: bool, r: NetworkRoute)
    requires
        call_ensures(network_route, (udp, tcp, osc), r),
    ensures
        r is Udp <==> udp,
        r is Tcp <==> !udp && tcp,
        r is Osc <==> !udp && !tcp && osc,
        r is Unavailable <==> !udp && !tcp && !osc,
{
}

/// Each failure is put in its own words.
pub proof fn failures_are_put_in_words(e: &ExternalError, r: String)
    requires
        call_ensures(ExternalError::to_text, (e,), r),
    ensures
        match *e {
            ExternalError::Udp { host, port, error } => r@ == "UDP send to "@ + host@ + ":"@
                + decimal(port as nat) + " failed: "@ + error@,
            ExternalError::Tcp { host, port, error } => r@ == "TCP send to "@ + host@ + ":"@
                + decimal(port as nat) + " failed: "@ + error@,
            ExternalError::OscCommand { error } => r@ == "invalid OSC command: "@ + error@,
            ExternalError::OscSend { error } => r@ == "OSC send failed: "@ + error@,
            ExternalError::OscUnavailable => r@ == "OSC manager is unavailable"@,
            ExternalError::DmxShow { qid, error } => r@ == "DmxShow cue Q"@ + qid.text()
                + " failed to load: "@ + error@,
        },
{
}

} // verus!
