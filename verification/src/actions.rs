//! The show engine's actions on the picture, the lights and other machines.

use vstd::prelude::*;

use crate::ieee::{Double, Single};
use crate::lighting::{all_sampled, FadeSample, LightingEngine, LightingView};
use crate::playback::{
    apply_external_cue, external_step_of, picture_end_noted, remote_go, same_cue, stop_external,
    stop_external_outputs, CanvasWish, ExternalStep,
};
use crate::qid::Qid;
use crate::remote::OscMessage;
use crate::show::{Cue, FadeType, StopMode};
use crate::state::{Moment, SharedState, StateView};
use crate::table::Table;
use crate::text::texts;
use crate::video::{passed, seek_clock, DeckView, PlayVideo, SeekError, VideoDeck};

verus! {

/// What the show engine asks for.
pub enum EngineAction {
    /// Play a video; `follow` is where it starts on the timecode that it
    /// follows, if it follows one.
    PlayVideo { play: PlayVideo, follow: Option<Double> },
    SeekVideo {
        qid: Qid,
        path: String,
        target: Double,
        media_target: Double,
        media_offset: Double,
        target_ns: Option<u64>,
    },
    StopVideo { fade_out: Single },
    SetVideoPaused { paused: bool, fade_start: Option<Moment> },
    /// Fire a cue that the engine does not play itself.
    FireExternal(Cue),
    StopExternal { qid: Qid, mode: StopMode, fade_out: Single, fade_type: FadeType },
    StopAllExternal,
    /// Fire a cue on another machine.
    RemoteGo { node: String, qid: Qid },
    /// Something for the log only.
    Trace,
}

/// What is left to do once an action was taken up.
pub enum ActionStep {
    Nothing,
    Canvas(CanvasWish),
    /// Fire a cue; the canvas is blanked first where that is told.
    Fire(ExternalStep, bool),
    Send(OscMessage),
}

/// What an action needs of the outputs, so that no counter or clock of theirs
/// runs over.
pub open spec fn action_ready(
    deck: DeckView,
    lights: LightingView,
    action: EngineAction,
    samples: Map<u32, FadeSample>,
    now: Moment,
) -> bool {
    match action {
        EngineAction::PlayVideo { .. } => deck.room(),
        EngineAction::SeekVideo { .. } => deck.room(),
        EngineAction::StopVideo { .. } => deck.room(),
        EngineAction::StopExternal { .. } => deck.room(),
        EngineAction::SetVideoPaused { .. } => match (
            deck.control.clock,
            deck.control.pause_started,
        ) {
            (Some(clock), Some(at)) => clock + passed(at, now) <= u64::MAX,
            _ => true,
        },
        EngineAction::FireExternal(cue) => cue.kind is Image ==> deck.room(),
        EngineAction::StopAllExternal => all_sampled(lights.fades, samples),
        _ => true,
    }
}

/// The deck once a video plays, on a timecode or on its own.
pub open spec fn playing(
    deck: DeckView,
    play: PlayVideo,
    follow: Option<Double>,
    now: Moment,
) -> DeckView {
    deck.played(play@).following(
        match follow {
            Some(offset) => Some((play.qid, play.path, offset)),
            None => None,
        },
        now,
    )
}

/// The state once an action was taken up: a picture that stops is no longer
/// told of.
pub open spec fn action_noted(
    state: StateView,
    deck: DeckView,
    action: EngineAction,
    engine_video: Option<Qid>,
) -> StateView {
    match action {
        EngineAction::StopVideo { fade_out } => picture_end_noted(state, fade_out),
        EngineAction::StopExternal { qid, mode, fade_out, .. } => if deck.ends_picture(
            qid@,
            mode,
            engine_video,
        ) {
            picture_end_noted(state, fade_out)
        } else {
            state
        },
        _ => state,
    }
}

/// Whether an action leads from one state of the deck and the lights to
/// another, and this is left to do. Only a seek can fail: where its target
/// lies outside the clock.
pub open spec fn action_taken(
    state: StateView,
    deck: DeckView,
    lights: LightingView,
    action: EngineAction,
    samples: Map<u32, FadeSample>,
    engine_video: Option<Qid>,
    session: u64,
    now: Moment,
    state_after: StateView,
    deck_after: DeckView,
    lights_after: LightingView,
    r: Result<ActionStep, SeekError>,
) -> bool {
    &&& state_after == action_noted(state, deck, action, engine_video)
    &&& match action {
        EngineAction::PlayVideo { play, follow } => {
            &&& deck_after == playing(deck, play, follow, now)
            &&& lights_after == lights
            &&& r == Ok::<ActionStep, SeekError>(ActionStep::Nothing)
        },
        EngineAction::SeekVideo { qid, path, target, media_target, media_offset, target_ns } => {
            &&& lights_after == lights
            &&& match seek_clock(now, target_ns, deck.control.paused) {
                Some(clock) => {
                    &&& deck_after == deck.sought(
                        qid@,
                        path@,
                        target,
                        media_target,
                        media_offset,
                        clock,
                    )
                    &&& r == Ok::<ActionStep, SeekError>(ActionStep::Nothing)
                },
                None => {
                    &&& deck_after == deck
                    &&& r == Err::<ActionStep, SeekError>(SeekError::OutsideClock)
                },
            }
        },
        EngineAction::StopVideo { fade_out } => {
            &&& deck_after == deck.picture_ended(fade_out, session, now)
            &&& lights_after == lights
            &&& r == Ok::<ActionStep, SeekError>(
                ActionStep::Canvas(
                    CanvasWish {
                        blank: !fade_out.positive(),
                        clear_overlay: false,
                        blank_pixmap: false,
                    },
                ),
            )
        },
        EngineAction::SetVideoPaused { paused, fade_start } => {
            &&& deck_after == deck.paused_set(paused, fade_start, now)
            &&& lights_after == lights
            &&& r == Ok::<ActionStep, SeekError>(ActionStep::Nothing)
        },
        EngineAction::FireExternal(cue) => {
            &&& deck_after == deck.external_fired(cue)
            &&& lights_after == lights
            &&& r matches Ok(ActionStep::Fire(step, blank)) && external_step_of(cue, step) && blank
                == (cue.kind is Text && deck.canvas_bare())
        },
        EngineAction::StopExternal { qid, mode, fade_out, fade_type } => {
            &&& deck_after == deck.external_stopped(
                qid@,
                mode,
                fade_out,
                engine_video,
                session,
                now,
            )
            &&& lights_after == lights.show_stopped(qid@, fade_out, fade_type, now)
            &&& r == Ok::<ActionStep, SeekError>(
                ActionStep::Canvas(
                    CanvasWish {
                        blank: false,
                        clear_overlay: same_cue(deck.current_text, qid@),
                        blank_pixmap: same_cue(deck.current_pixmap, qid@) && mode
                            != StopMode::LoopEnd,
                    },
                ),
            )
        },
        EngineAction::StopAllExternal => {
            &&& deck_after == (DeckView { follow: None, ..deck }).without_pixmap().with_text(None)
            &&& lights_after == lights.all_stopped(samples)
            &&& r == Ok::<ActionStep, SeekError>(
                ActionStep::Canvas(
                    CanvasWish { blank: false, clear_overlay: true, blank_pixmap: true },
                ),
            )
        },
        EngineAction::RemoteGo { node, qid } => {
            &&& deck_after == deck
            &&& lights_after == lights
            &&& r matches Ok(ActionStep::Send(m)) && m.addr@ == "/qplayer/remote/go"@ && texts(
                m.args@,
            ) == seq![node@, qid.text()]
        },
        EngineAction::Trace => {
            &&& deck_after == deck
            &&& lights_after == lights
            &&& r == Ok::<ActionStep, SeekError>(ActionStep::Nothing)
        },
    }
}

fn play(deck: &mut VideoDeck, play: PlayVideo, follow: Option<Double>, now: Moment)
    requires
        old(deck)@.room(),
    ensures
        final(deck)@ == playing(old(deck)@, play, follow, now),
{
    let follow: Option<(Qid, String, Double)> = match follow {
        Some(offset) => Some((play.qid, play.path.clone(), offset)),
        None => None,
    };
    deck.play_video(play);
    deck.set_follow(follow, now);
}

/// Take up an action of the show engine. `engine_video` is the video that the
/// engine itself plays, `samples` where each fade of the lights is.
pub fn apply_engine_action(
    state: &mut SharedState,
    deck: &mut VideoDeck,
    lighting: &mut LightingEngine,
    action: EngineAction,
    samples: &Table<FadeSample>,
    engine_video: Option<Qid>,
    session: u64,
    now: Moment,
) -> (r: Result<ActionStep, SeekError>)
    requires
        action_ready(old(deck)@, old(lighting)@, action, samples@, now),
    ensures
        action_taken(
            old(state)@,
            old(deck)@,
            old(lighting)@,
            action,
            samples@,
            engine_video,
            session,
            now,
            final(state)@,
            final(deck)@,
            final(lighting)@,
            r,
        ),
{
    match action {
        EngineAction::PlayVideo { play: p, follow } => {
            play(deck, p, follow, now);
            Ok(ActionStep::Nothing)
        },
        EngineAction::SeekVideo { qid, path, target, media_target, media_offset, target_ns } => {
            match deck.seek_video_cue(
                qid,
                path,
                target,
                media_target,
                media_offset,
                target_ns,
                now,
            ) {
                Ok(_) => Ok(ActionStep::Nothing),
                Err(e) => Err(e),
            }
        },
        EngineAction::StopVideo { fade_out } => Ok(
            ActionStep::Canvas(deck.stop_video(state, fade_out, session, now)),
        ),
        EngineAction::SetVideoPaused { paused, fade_start } => {
            deck.set_video_paused(paused, fade_start, now);
            Ok(ActionStep::Nothing)
        },
        EngineAction::FireExternal(cue) => {
            let (step, blank): (ExternalStep, bool) = apply_external_cue(deck, &cue);
            Ok(ActionStep::Fire(step, blank))
        },
        EngineAction::StopExternal { qid, mode, fade_out, fade_type } => Ok(
            ActionStep::Canvas(
                stop_external(
                    state,
                    deck,
                    lighting,
                    qid,
                    mode,
                    fade_out,
                    fade_type,
                    engine_video,
                    session,
                    now,
                ),
            ),
        ),
        EngineAction::StopAllExternal => Ok(
            ActionStep::Canvas(stop_external_outputs(deck, lighting, samples)),
        ),
        EngineAction::RemoteGo { node, qid } => Ok(ActionStep::Send(remote_go(node, &qid))),
        EngineAction::Trace => Ok(ActionStep::Nothing),
    }
}

/// What the engine asks of the picture leaves the lights alone.
pub proof fn the_picture_leaves_the_lights_alone(
    state: StateView,
    deck: DeckView,
    lights: LightingView,
    action: EngineAction,
    samples: Map<u32, FadeSample>,
    engine_video: Option<Qid>,
    session: u64,
    now: Moment,
    state_after: StateView,
    deck_after: DeckView,
    lights_after: LightingView,
    r: Result<ActionStep, SeekError>,
)
    requires
        action_taken(
            state,
            deck,
            lights,
            action,
            samples,
            engine_video,
            session,
            now,
            state_after,
            deck_after,
            lights_after,
            r,
        ),
        !(action is StopExternal || action is StopAllExternal),
    ensures
        lights_after == lights,
{
}

/// A video that the engine plays is where the engine wants it, from the file it
/// names, and follows a timecode exactly where it is told to; what is told of
/// the state and the lights stays.
pub proof fn the_engine_plays_a_video(
    state: &mut SharedState,
    deck: &mut VideoDeck,
    lighting: &mut LightingEngine,
    play: PlayVideo,
    follow: Option<Double>,
    samples: &Table<FadeSample>,
    engine_video: Option<Qid>,
    session: u64,
    now: Moment,
    r: Result<ActionStep, SeekError>,
)
    requires
        old(deck)@.room(),
        call_ensures(
            apply_engine_action,
            (
                state,
                deck,
                lighting,
                EngineAction::PlayVideo { play, follow },
                samples,
                engine_video,
                session,
                now,
            ),
            r,
        ),
    ensures
        ({
            let d = old(deck)@;
            let e = final(deck)@;
            &&& r is Ok && r->Ok_0 is Nothing
            &&& e.current_qid == Some(play.qid)
            &&& e.current_instance == Some(play.instance_id)
            &&& play.media_target matches Some(t) ==> t <= play.now ==> e.control.clock == Some(
                (play.now - t) as u64,
            )
            &&& play.media_target is None || play.media_target->0 > play.now
                ==> e.control.clock is None
            &&& e.pending is Some
            &&& e.pending->0.path == play.path@
            &&& 0 < play.start_time.bits <= 0x7ff0_0000_0000_0000
                ==> e.pending->0.start_before == Some(play.start_time)
            &&& !(0 < play.start_time.bits <= 0x7ff0_0000_0000_0000)
                ==> e.pending->0.start_before is None
            &&& e.control.stream_epoch > d.control.stream_epoch
            &&& follow is None ==> e.follow is None
            &&& follow is Some ==> e.follow is Some && e.follow->0.qid == play.qid@
                && e.follow->0.path == play.path@ && e.follow->0.offset == follow->0
                && e.follow->0.hold_position is Some && e.follow->0.hold_position->0.bits == 0
            &&& e.current_text == d.current_text
            &&& e.current_pixmap == d.current_pixmap
            &&& final(lighting)@ == old(lighting)@
            &&& final(state)@ == old(state)@
        }),
{
    reveal(DeckView::decode_asked);
}

/// A seek of the engine moves the video where it lies in the clock's range, and
/// fails without any change where it does not.
pub proof fn the_engine_seeks(
    state: &mut SharedState,
    deck: &mut VideoDeck,
    lighting: &mut LightingEngine,
    qid: Qid,
    path: String,
    target: Double,
    media_target: Double,
    media_offset: Double,
    target_ns: Option<u64>,
    samples: &Table<FadeSample>,
    engine_video: Option<Qid>,
    session: u64,
    now: Moment,
    r: Result<ActionStep, SeekError>,
)
    requires
        old(deck)@.room(),
        call_ensures(
            apply_engine_action,
            (
                state,
                deck,
                lighting,
                EngineAction::SeekVideo {
                    qid,
                    path,
                    target,
                    media_target,
                    media_offset,
                    target_ns,
                },
                samples,
                engine_video,
                session,
                now,
            ),
            r,
        ),
    ensures
        ({
            let d = old(deck)@;
            let e = final(deck)@;
            &&& r is Ok <==> target_ns is Some && target_ns->0 <= now
            &&& r is Ok ==> r->Ok_0 is Nothing
            &&& r is Err ==> e == d
            &&& r is Ok ==> e.control.clock == Some((now - target_ns->0) as u64)
                && e.pending is Some && e.pending->0.path == path@ && e.pending->0.start_before
                == Some(media_target) && e.pending->0.clamp_to_media && e.control.timeline_offset
                == media_offset && e.current_qid == d.current_qid
            &&& final(lighting)@ == old(lighting)@
            &&& final(state)@ == old(state)@
        }),
{
    reveal(DeckView::decode_asked);
}

/// Stopping the video fades it where it has the time and else blanks the
/// canvas; a pause stops or starts the clock. Neither touches the lights.
pub proof fn the_engine_stops_and_pauses(
    state: &mut SharedState,
    deck: &mut VideoDeck,
    lighting: &mut LightingEngine,
    action: EngineAction,
    samples: &Table<FadeSample>,
    engine_video: Option<Qid>,
    session: u64,
    now: Moment,
    r: Result<ActionStep, SeekError>,
)
    requires
        action_ready(old(deck)@, old(lighting)@, action, samples@, now),
        call_ensures(
            apply_engine_action,
            (state, deck, lighting, action, samples, engine_video, session, now),
            r,
        ),
        action is StopVideo || action is SetVideoPaused || action is Trace || action is RemoteGo,
    ensures
        ({
            let d = old(deck)@;
            let e = final(deck)@;
            &&& r is Ok
            &&& final(lighting)@ == old(lighting)@
            &&& action matches EngineAction::StopVideo { fade_out } ==> {
                let timed = 0 < fade_out.bits <= 0x7f80_0000;
                &&& r->Ok_0 is Canvas
                &&& r->Ok_0->Canvas_0.blank == !timed
                &&& !r->Ok_0->Canvas_0.clear_overlay
                &&& !r->Ok_0->Canvas_0.blank_pixmap
                &&& timed ==> e.control.fade == Some((now, fade_out)) && e.current_qid
                    == d.current_qid && final(state)@ == old(state)@
                &&& !timed ==> e.current_qid is None && e.control.clock is None && e.session
                    == session && final(state)@.diagnostics.video is None
            }
            &&& action matches EngineAction::SetVideoPaused { paused, .. } ==> {
                &&& r->Ok_0 is Nothing
                &&& e.paused == paused
                &&& e.video_paused == paused
                &&& e.pixmap_paused == paused
                &&& e.control.paused == paused
                &&& paused ==> e.control.pause_started == Some(now) && e.control.clock
                    == d.control.clock
                &&& !paused ==> e.control.pause_started is None
                &&& e.current_qid == d.current_qid
                &&& final(state)@ == old(state)@
            }
            &&& action is Trace ==> r->Ok_0 is Nothing && e == d && final(state)@ == old(state)@
            &&& action matches EngineAction::RemoteGo { node, qid } ==> {
                &&& r->Ok_0 is Send
                &&& r->Ok_0->Send_0.addr@ == "/qplayer/remote/go"@
                &&& r->Ok_0->Send_0.args@.len() == 2
                &&& r->Ok_0->Send_0.args@[0]@ == node@
                &&& r->Ok_0->Send_0.args@[1]@ == qid.text()
                &&& e == d
                &&& final(state)@ == old(state)@
            }
        }),
{
    reveal(DeckView::with_video);
    if action is RemoteGo {
        let args = r->Ok_0->Send_0.args@;
        assert(texts(args).len() == args.len());
        assert(texts(args)[0] == args[0]@);
        assert(texts(args)[1] == args[1]@);
    }
}

/// Firing a cue hands on what the cue holds, and ending one ends what it shows;
/// ending all of them ends every light, text and pixel map.
pub proof fn the_engine_fires_and_ends_cues(
    state: &mut SharedState,
    deck: &mut VideoDeck,
    lighting: &mut LightingEngine,
    action: EngineAction,
    samples: &Table<FadeSample>,
    engine_video: Option<Qid>,
    session: u64,
    now: Moment,
    r: Result<ActionStep, SeekError>,
)
    requires
        action_ready(old(deck)@, old(lighting)@, action, samples@, now),
        call_ensures(
            apply_engine_action,
            (state, deck, lighting, action, samples, engine_video, session, now),
            r,
        ),
        action is FireExternal || action is StopExternal || action is StopAllExternal,
    ensures
        ({
            let d = old(deck)@;
            let e = final(deck)@;
            &&& r is Ok
            &&& action matches EngineAction::FireExternal(cue) ==> {
                &&& r->Ok_0 is Fire
                &&& external_step_of(cue, r->Ok_0->Fire_0)
                &&& r->Ok_0->Fire_1 <==> cue.kind is Text && d.current_qid is None
                    && !d.control.canvas_has_frame
                &&& cue.kind is Image ==> e.current_qid == Some(cue.base.qid)
                &&& cue.kind is PixelMap ==> e.current_pixmap == Some(cue.base.qid)
                &&& !(cue.kind is Image || cue.kind is PixelMap) ==> e == d
                &&& final(lighting)@ == old(lighting)@
                &&& final(state)@ == old(state)@
            }
            &&& action matches EngineAction::StopExternal { qid, mode, fade_out, .. } ==> {
                let text = d.current_text is Some && (d.current_text->0)@ == qid@;
                let pixmap = d.current_pixmap is Some && (d.current_pixmap->0)@ == qid@ && !(
                mode is LoopEnd);
                let own = engine_video is Some && (engine_video->0)@ == qid@;
                let picture = d.current_qid is Some && (d.current_qid->0)@ == qid@ && !own && !(
                mode is LoopEnd);
                let timed = 0 < fade_out.bits <= 0x7f80_0000;
                &&& r->Ok_0 is Canvas
                &&& !r->Ok_0->Canvas_0.blank
                &&& r->Ok_0->Canvas_0.clear_overlay == text
                &&& r->Ok_0->Canvas_0.blank_pixmap == pixmap
                &&& text ==> e.current_text is None
                &&& !text ==> e.current_text == d.current_text
                &&& pixmap ==> e.current_pixmap is None
                &&& !pixmap ==> e.current_pixmap == d.current_pixmap
                &&& picture && timed ==> e.control.fade == Some((now, fade_out))
                &&& picture && !timed ==> e.current_qid is None
                &&& !picture ==> e.current_qid == d.current_qid && e.control.fade
                    == d.control.fade && final(state)@ == old(state)@
            }
            &&& action is StopAllExternal ==> {
                &&& r->Ok_0 is Canvas
                &&& !r->Ok_0->Canvas_0.blank
                &&& r->Ok_0->Canvas_0.clear_overlay
                &&& r->Ok_0->Canvas_0.blank_pixmap
                &&& e.follow is None
                &&& e.current_text is None
                &&& e.current_pixmap is None
                &&& e.current_qid == d.current_qid
                &&& final(lighting)@.shows.len() == 0
                &&& final(state)@ == old(state)@
            }
        }),
{
    reveal(DeckView::with_video);
}

} // verus!
