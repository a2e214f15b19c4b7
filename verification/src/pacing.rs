//! The main loop: what is due in each turn of it, and what the windows' events
//! lead to. Moments and durations are nanoseconds.

use vstd::prelude::*;

use crate::diagnostics::DiagnosticsView;
use crate::ieee::{Double, Single};
use crate::show::{AudioOutputDriver, CanvasFit};
use crate::startup::{control_surface_retry_delay, retry_delay};
use crate::state::{Moment, SharedState, StateView};
use crate::text::same;
use crate::video::{passed, VideoControl};

verus! {

/// How long a shutdown waits for its answer to be delivered.
pub const SHUTDOWN_TIMEOUT: u64 = 5_000_000_000;

/// How often the audio devices are listed, and an output that could not be
/// opened is tried again.
pub const DEVICE_PERIOD: u64 = 5_000_000_000;

/// How often the monitors are listed.
pub const MONITOR_PERIOD: u64 = 1_000_000_000;

/// How often the counters are published.
pub const COUNTER_PERIOD: u64 = 1_000_000_000;

/// How often the control window is drawn, and the running cues are published.
pub const REDRAW_PERIOD: u64 = 16_000_000;

/// How long the outputs flash to be told apart.
pub const IDENTIFY_PERIOD: u64 = 8_000_000_000;

/// How long the loop sleeps.
pub const TURN_PERIOD: u64 = 4_000_000;

/// Whether a period has passed since a moment.
pub open spec fn is_due(last: Moment, period: u64, now: Moment) -> bool {
    passed(last, now) >= period
}

/// Whether something that is done once a period is due; if so, the moment is
/// kept.
pub fn due(last: &mut Moment, period: u64, now: Moment) -> (b: bool)
    ensures
        b == is_due(*old(last), period, now),
        *final(last) == (if b {
            now
        } else {
            *old(last)
        }),
{
    let gap: u64 = if now > *last {
        now - *last
    } else {
        0
    };
    if gap >= period {
        *last = now;
        true
    } else {
        false
    }
}

/// What was done is not due again within its period.
pub proof fn nothing_is_due_twice_in_a_period(last: Moment, period: u64, a: Moment, b: Moment)
    requires
        is_due(last, period, a),
        a <= b < a + period,
    ensures
        !is_due(a, period, b),
{
}

/// Whether something that is done once a period is due, or is asked for.
pub fn due_or_forced(last: &mut Moment, period: u64, force: bool, now: Moment) -> (b: bool)
    ensures
        b == (force || is_due(*old(last), period, now)),
        *final(last) == (if b {
            now
        } else {
            *old(last)
        }),
{
    if force {
        *last = now;
        true
    } else {
        due(last, period, now)
    }
}

/// Which timecode is chased: where it comes from, and for one on an audio
/// input the driver, the device and the channel.
pub struct ChaseConfig {
    /// Linear timecode on an audio input, or one over MIDI.
    pub linear: bool,
    pub driver: AudioOutputDriver,
    pub device: String,
    pub channel: u16,
}

pub open spec fn same_chase(a: ChaseConfig, b: ChaseConfig) -> bool {
    a.linear == b.linear && a.driver == b.driver && a.device@ == b.device@ && a.channel == b.channel
}

/// The timecode that is generated.
pub struct GenerateConfig {
    pub enabled: bool,
    pub driver: AudioOutputDriver,
    pub device: String,
    pub channel: u16,
    /// The frame rate, by its number.
    pub rate: u8,
    /// The timecode at the start of the show, in seconds.
    pub start: Double,
}

pub open spec fn same_generate(a: GenerateConfig, b: GenerateConfig) -> bool {
    a.enabled == b.enabled && a.driver == b.driver && a.device@ == b.device@ && a.channel
        == b.channel && a.rate == b.rate && a.start.equal(b.start)
}

/// What the loop remembers from turn to turn.
pub struct LoopState {
    /// A shutdown was accepted.
    pub shutdown_started: Option<Moment>,
    /// The project the outputs belong to.
    pub generation: u64,
    pub status_open: bool,
    pub consumer_reported: bool,
    pub chase: ChaseConfig,
    pub generate: GenerateConfig,
    pub generating: bool,
    pub generate_tried: Moment,
    pub devices_listed: Moment,
}

/// What a turn of the loop finds.
pub struct TurnFacts {
    /// The answer to a shutdown was delivered.
    pub delivered: bool,
    /// The operator agreed to quit.
    pub quit: bool,
    pub show_status: bool,
    /// The presentation thread has ended.
    pub consumer_exited: bool,
    pub generation: u64,
    /// Outputs are open and were built for another layout. A project that is
    /// reset closes them first.
    pub layout_changed: bool,
    pub chase: ChaseConfig,
    pub generate: GenerateConfig,
    pub now: Moment,
}

/// What the diagnostics tell once the presentation thread has ended.
pub const CONSUMER_ERROR: &'static str =
    "video-consume thread exited unexpectedly; video output is frozen";

/// What a turn of the loop does about the status window.
#[derive(Clone, Copy, PartialEq, Eq, Structural, Debug)]
pub enum StatusStep {
    Keep,
    Open,
    Close,
}

/// What a turn of the loop does.
#[derive(Clone, Copy, PartialEq, Eq, Structural, Debug)]
pub enum TurnPlan {
    /// A shutdown waits for its answer to be delivered.
    Wait,
    /// The program ends; `undelivered` tells that an answer was given up.
    Exit { undelivered: bool },
    Run {
        status: StatusStep,
        /// The presentation thread has ended, and nobody was told.
        report_consumer: bool,
        /// Another project is open.
        reset_project: bool,
        rebuild_outputs: bool,
        rebuild_chase: bool,
        list_devices: bool,
        /// The output for generated timecode is to be opened, or closed.
        open_generator: bool,
    },
}

/// What the status window needs.
pub open spec fn status_step(show: bool, open: bool) -> StatusStep {
    if show && !open {
        StatusStep::Open
    } else if !show {
        StatusStep::Close
    } else {
        StatusStep::Keep
    }
}

/// Whether the output for generated timecode is to be opened: its settings
/// changed, or it is missing and was not tried for a while.
pub open spec fn opens_generator(s: LoopState, f: TurnFacts) -> bool {
    !same_generate(s.generate, f.generate) || (s.generate.enabled && !s.generating && is_due(
        s.generate_tried,
        DEVICE_PERIOD,
        f.now,
    ))
}

/// What a turn of the loop does.
pub open spec fn turn_plan(s: LoopState, f: TurnFacts) -> TurnPlan {
    if s.shutdown_started is Some {
        if f.delivered || is_due(s.shutdown_started->0, SHUTDOWN_TIMEOUT, f.now) {
            TurnPlan::Exit { undelivered: !f.delivered }
        } else {
            TurnPlan::Wait
        }
    } else if f.quit {
        TurnPlan::Exit { undelivered: false }
    } else {
        TurnPlan::Run {
            status: status_step(f.show_status, s.status_open),
            report_consumer: f.consumer_exited && !s.consumer_reported,
            reset_project: f.generation != s.generation,
            rebuild_outputs: f.layout_changed && f.generation == s.generation,
            rebuild_chase: !same_chase(s.chase, f.chase),
            list_devices: is_due(s.devices_listed, DEVICE_PERIOD, f.now),
            open_generator: opens_generator(s, f),
        }
    }
}

/// The state once the diagnostics tell that the presentation thread has ended.
pub open spec fn consumer_noted(s: StateView) -> StateView {
    StateView {
        diagnostics: DiagnosticsView { consumer_error: Some(CONSUMER_ERROR@), ..s.diagnostics },
        ..s
    }
}

/// Whether `t` is what the loop remembers after a turn.
pub open spec fn turn_taken(s: LoopState, f: TurnFacts, t: LoopState) -> bool {
    if turn_plan(s, f) is Run {
        &&& t.shutdown_started is None
        &&& t.generation == f.generation
        &&& t.status_open == s.status_open
        &&& t.consumer_reported == (s.consumer_reported || f.consumer_exited)
        &&& t.chase == f.chase
        &&& t.generate == f.generate
        &&& t.generating == s.generating
        &&& t.generate_tried == (if opens_generator(s, f) {
            f.now
        } else {
            s.generate_tried
        })
        &&& t.devices_listed == (if is_due(s.devices_listed, DEVICE_PERIOD, f.now) {
            f.now
        } else {
            s.devices_listed
        })
    } else {
        t == s
    }
}

fn note_consumer(state: &mut SharedState)
    ensures
        final(state)@ == consumer_noted(old(state)@),
{
    state.diagnostics.consumer_error = Some(CONSUMER_ERROR.to_owned());
}

fn chase_is(a: &ChaseConfig, b: &ChaseConfig) -> (r: bool)
    ensures
        r == same_chase(*a, *b),
{
    a.linear == b.linear && a.driver == b.driver && same(a.device.as_str(), b.device.as_str())
        && a.channel == b.channel
}

fn generate_is(a: &GenerateConfig, b: &GenerateConfig) -> (r: bool)
    ensures
        r == same_generate(*a, *b),
{
    a.enabled == b.enabled && a.driver == b.driver && same(a.device.as_str(), b.device.as_str())
        && a.channel == b.channel && a.rate == b.rate && a.start.eq_number(b.start)
}

impl LoopState {
    /// A shutdown was accepted: the loop only waits for its answer to be
    /// delivered.
    pub fn accept_shutdown(&mut self, now: Moment)
        ensures
            *final(self) == (LoopState { shutdown_started: Some(now), ..*old(self) }),
    {
        self.shutdown_started = Some(now);
    }

    /// Begin a turn of the loop. Where the presentation thread has ended, the
    /// diagnostics tell of it from the turn that finds it.
    pub fn take_turn(&mut self, state: &mut SharedState, f: TurnFacts) -> (plan: TurnPlan)
        ensures
            plan == turn_plan(*old(self), f),
            turn_taken(*old(self), f, *final(self)),
            final(state)@ == (if plan is Run && plan->report_consumer {
                consumer_noted(old(state)@)
            } else {
                old(state)@
            }),
    {
        if let Some(started) = self.shutdown_started {
            let mut since: Moment = started;
            return if f.delivered || due(&mut since, SHUTDOWN_TIMEOUT, f.now) {
                TurnPlan::Exit { undelivered: !f.delivered }
            } else {
                TurnPlan::Wait
            };
        }
        if f.quit {
            return TurnPlan::Exit { undelivered: false };
        }
        let status: StatusStep = if f.show_status && !self.status_open {
            StatusStep::Open
        } else if !f.show_status {
            StatusStep::Close
        } else {
            StatusStep::Keep
        };
        let report_consumer: bool = f.consumer_exited && !self.consumer_reported;
        if report_consumer {
            self.consumer_reported = true;
            note_consumer(state);
        }
        let reset_project: bool = f.generation != self.generation;
        self.generation = f.generation;
        let rebuild_chase: bool = !chase_is(&self.chase, &f.chase);
        let list_devices: bool = due(&mut self.devices_listed, DEVICE_PERIOD, f.now);
        let changed: bool = !generate_is(&self.generate, &f.generate);
        let open_generator: bool = if changed {
            self.generate_tried = f.now;
            true
        } else {
            self.generate.enabled && !self.generating && due(
                &mut self.generate_tried,
                DEVICE_PERIOD,
                f.now,
            )
        };
        self.chase = f.chase;
        self.generate = f.generate;
        TurnPlan::Run {
            status,
            report_consumer,
            reset_project,
            rebuild_outputs: f.layout_changed && !reset_project,
            rebuild_chase,
            list_devices,
            open_generator,
        }
    }
}

/// A project is reset once: the turn after finds nothing to do.
pub proof fn a_project_is_reset_once(s: LoopState, f: TurnFacts, t: LoopState, g: TurnFacts)
    requires
        turn_plan(s, f) is Run,
        turn_taken(s, f, t),
        g.generation == f.generation,
        turn_plan(t, g) is Run,
    ensures
        !turn_plan(t, g)->reset_project,
        f.consumer_exited ==> !turn_plan(t, g)->report_consumer,
{
}

/// Once a shutdown is accepted no turn does anything but wait, until its answer
/// is delivered or given up; then the program ends.
pub proof fn an_accepted_shutdown_stops_all_else(s: LoopState, at: Moment, f: TurnFacts)
    ensures
        turn_plan(LoopState { shutdown_started: Some(at), ..s }, f) == (if f.delivered {
            TurnPlan::Exit { undelivered: false }
        } else if f.now >= at + SHUTDOWN_TIMEOUT {
            TurnPlan::Exit { undelivered: true }
        } else {
            TurnPlan::Wait
        }),
{
}

/// The turn that finds the presentation thread ended puts it into the
/// diagnostics, and no later turn does so again.
pub proof fn an_ended_consumer_is_put_on_record(
    s: LoopState,
    f: TurnFacts,
    before: StateView,
    t: LoopState,
    g: TurnFacts,
)
    requires
        !s.consumer_reported,
        f.consumer_exited,
        turn_plan(s, f) is Run,
        turn_taken(s, f, t),
    ensures
        turn_plan(s, f)->report_consumer,
        consumer_noted(before).diagnostics.consumer_error == Some(CONSUMER_ERROR@),
        turn_plan(t, g) is Run ==> !turn_plan(t, g)->report_consumer,
{
}

/// A shutdown that was accepted ends the program, at the latest when its
/// answer was given up.
pub proof fn an_accepted_shutdown_ends(s: LoopState, f: TurnFacts)
    requires
        s.shutdown_started is Some,
    ensures
        f.delivered ==> turn_plan(s, f) == (TurnPlan::Exit { undelivered: false }),
        f.now >= s.shutdown_started->0 + SHUTDOWN_TIMEOUT ==> turn_plan(s, f) is Exit,
        !(turn_plan(s, f) is Run),
{
}

/// Where a pixel-map segment takes its pixels from.
#[derive(Clone, Copy, PartialEq, Eq, Structural, Debug)]
pub enum SegmentSource {
    Canvas,
    PixelMap,
}

/// A segment that is switched on.
#[derive(Clone, Copy, PartialEq, Eq, Structural, Debug)]
pub struct SegmentTap {
    pub id: u32,
    pub source: SegmentSource,
}

/// Whether a segment has something to sample. A segment on the pixel map owns
/// its channels only while a pixel map plays.
pub open spec fn tapped(tap: SegmentTap, canvas: bool, pixmap: bool) -> bool {
    match tap.source {
        SegmentSource::Canvas => canvas,
        SegmentSource::PixelMap => pixmap,
    }
}

/// The segments among the first `n` that have something to sample.
pub open spec fn sampled_taps(segments: Seq<SegmentTap>, canvas: bool, pixmap: bool, n: int) -> Seq<
    u32,
>
    decreases n,
{
    if n <= 0 {
        Seq::empty()
    } else {
        let before = sampled_taps(segments, canvas, pixmap, n - 1);
        if tapped(segments[n - 1], canvas, pixmap) {
            before.push(segments[n - 1].id)
        } else {
            before
        }
    }
}

/// The segments among the first `n` that are not sampled.
pub open spec fn cleared_taps(segments: Seq<SegmentTap>, sampled: Seq<u32>, n: int) -> Seq<u32>
    decreases n,
{
    if n <= 0 {
        Seq::empty()
    } else {
        let before = cleared_taps(segments, sampled, n - 1);
        if sampled.contains(segments[n - 1].id) {
            before
        } else {
            before.push(segments[n - 1].id)
        }
    }
}

fn holds(ids: &Vec<u32>, id: u32) -> (b: bool)
    ensures
        b == ids@.contains(id),
{
    let mut i: usize = 0;
    while i < ids.len()
        invariant
            i <= ids@.len(),
            forall|j: int| 0 <= j < i ==> ids@[j] != id,
        decreases ids@.len() - i,
    {
        if ids[i] == id {
            return true;
        }
        i = i + 1;
    }
    false
}

/// The segments to sample, and those whose pixels are to be forgotten: what
/// they sampled is gone. `canvas` and `pixmap` tell what there is.
pub fn segment_batch(segments: &Vec<SegmentTap>, canvas: bool, pixmap: bool) -> (r: (
    Vec<u32>,
    Vec<u32>,
))
    ensures
        r.0@ == sampled_taps(segments@, canvas, pixmap, segments@.len() as int),
        r.1@ == cleared_taps(segments@, r.0@, segments@.len() as int),
{
    let mut sampled: Vec<u32> = Vec::new();
    let mut i: usize = 0;
    while i < segments.len()
        invariant
            i <= segments@.len(),
            sampled@ == sampled_taps(segments@, canvas, pixmap, i as int),
        decreases segments@.len() - i,
    {
        let here: bool = match segments[i].source {
            SegmentSource::Canvas => canvas,
            SegmentSource::PixelMap => pixmap,
        };
        if here {
            sampled.push(segments[i].id);
        }
        i = i + 1;
    }
    let mut cleared: Vec<u32> = Vec::new();
    let mut j: usize = 0;
    while j < segments.len()
        invariant
            j <= segments@.len(),
            cleared@ == cleared_taps(segments@, sampled@, j as int),
        decreases segments@.len() - j,
    {
        if !holds(&sampled, segments[j].id) {
            cleared.push(segments[j].id);
        }
        j = j + 1;
    }
    (sampled, cleared)
}

/// The previews that stay: those of segments that are sampled.
pub fn previews_kept(previews: &Vec<u32>, sampled: &Vec<u32>) -> (r: Vec<u32>)
    ensures
        r@ == previews@.filter(|id: u32| sampled@.contains(id)),
{
    let mut r: Vec<u32> = Vec::new();
    let mut i: usize = 0;
    let ghost keep = |id: u32| sampled@.contains(id);
    assert(previews@.take(0).filter(keep) =~= Seq::<u32>::empty()) by {
        reveal(Seq::filter);
    }
    while i < previews.len()
        invariant
            i <= previews@.len(),
            keep == (|id: u32| sampled@.contains(id)),
            r@ == previews@.take(i as int).filter(keep),
        decreases previews@.len() - i,
    {
        let id: u32 = previews[i];
        proof {
            reveal(Seq::filter);
            assert(previews@.take(i + 1).drop_last() =~= previews@.take(i as int));
            assert(previews@.take(i + 1).last() == id);
        }
        if holds(sampled, id) {
            r.push(id);
        }
        i = i + 1;
    }
    assert(previews@.take(i as int) =~= previews@);
    r
}

/// Whether a pixel map is there to be sampled: a cue plays one, and it has a
/// texture.
pub fn pixmap_available(playing: bool, texture: bool) -> (b: bool)
    ensures
        b == (playing && texture),
{
    playing && texture
}

/// The colours by which outputs are told apart.
pub const IDENTIFY_COLOURS: usize = 6;

/// The name of the colour in which an output flashes.
pub fn identify_colour(index: usize) -> (r: &'static str)
    ensures
        r@ == identify_colour_of(index),
{
    let i: usize = index % IDENTIFY_COLOURS;
    if i == 0 {
        "RED"
    } else if i == 1 {
        "GREEN"
    } else if i == 2 {
        "BLUE"
    } else if i == 3 {
        "YELLOW"
    } else if i == 4 {
        "MAGENTA"
    } else {
        "CYAN"
    }
}

pub open spec fn identify_colour_of(index: usize) -> Seq<char> {
    let i = index % IDENTIFY_COLOURS;
    if i == 0 {
        "RED"@
    } else if i == 1 {
        "GREEN"@
    } else if i == 2 {
        "BLUE"@
    } else if i == 3 {
        "YELLOW"@
    } else if i == 4 {
        "MAGENTA"@
    } else {
        "CYAN"@
    }
}

/// Until when the outputs flash: from a request on, for a while.
pub fn identify_until(request: bool, until: Option<Moment>, now: Moment) -> (r: Option<Moment>)
    requires
        now <= u64::MAX - IDENTIFY_PERIOD,
    ensures
        r == (if request {
            Some((now + IDENTIFY_PERIOD) as u64)
        } else {
            until
        }),
{
    if request {
        Some(now + IDENTIFY_PERIOD)
    } else {
        until
    }
}

/// Whether the outputs flash.
pub fn identifying(until: Option<Moment>, now: Moment) -> (b: bool)
    ensures
        b == (until is Some && now < until->0),
{
    match until {
        Some(t) => now < t,
        None => false,
    }
}

/// What a look at the monitors leads to.
#[derive(Clone, Copy, PartialEq, Eq, Structural, Debug)]
pub struct MonitorStep {
    /// The list changed and is to be published.
    pub publish: bool,
    /// The outputs are to find their monitors again.
    pub rebuild: bool,
}

/// What a look at the monitors leads to, where some outputs are open.
pub fn monitor_step(changed: bool, outputs_open: bool) -> (r: MonitorStep)
    ensures
        r.publish == changed,
        r.rebuild == (changed && outputs_open),
{
    MonitorStep { publish: changed, rebuild: changed && outputs_open }
}

/// What the rest of a turn remembers.
#[derive(Clone, Copy, PartialEq, Eq, Structural, Debug)]
pub struct LateState {
    pub monitors_listed: Moment,
    pub counters_published: Moment,
    pub cues_published: Moment,
    pub redrawn: Moment,
    pub identify_until: Option<Moment>,
}

/// What the rest of a turn does.
#[derive(Clone, Copy, PartialEq, Eq, Structural, Debug)]
pub struct LatePlan {
    pub list_monitors: bool,
    /// The outputs flash to be told apart.
    pub identify: bool,
    pub publish_counters: bool,
    pub redraw: bool,
}

impl LateState {
    /// What is due in the rest of a turn. `request` tells that the outputs are
    /// asked to flash.
    pub open spec fn plan(self, request: bool, now: Moment) -> LatePlan {
        LatePlan {
            list_monitors: is_due(self.monitors_listed, MONITOR_PERIOD, now),
            identify: request || (self.identify_until is Some && now < self.identify_until->0),
            publish_counters: is_due(self.counters_published, COUNTER_PERIOD, now),
            redraw: is_due(self.redrawn, REDRAW_PERIOD, now),
        }
    }

    /// What is remembered after it.
    pub open spec fn after(self, request: bool, now: Moment) -> LateState {
        let plan = self.plan(request, now);
        LateState {
            monitors_listed: if plan.list_monitors {
                now
            } else {
                self.monitors_listed
            },
            counters_published: if plan.publish_counters {
                now
            } else {
                self.counters_published
            },
            cues_published: self.cues_published,
            redrawn: if plan.redraw {
                now
            } else {
                self.redrawn
            },
            identify_until: if request {
                Some((now + IDENTIFY_PERIOD) as u64)
            } else {
                self.identify_until
            },
        }
    }

    /// The rest of a turn.
    pub fn finish_turn(&mut self, request: bool, now: Moment) -> (plan: LatePlan)
        requires
            now <= u64::MAX - IDENTIFY_PERIOD,
        ensures
            plan == old(self).plan(request, now),
            *final(self) == old(self).after(request, now),
    {
        let list_monitors: bool = due(&mut self.monitors_listed, MONITOR_PERIOD, now);
        self.identify_until = identify_until(request, self.identify_until, now);
        let identify: bool = identifying(self.identify_until, now);
        let publish_counters: bool = due(&mut self.counters_published, COUNTER_PERIOD, now);
        let redraw: bool = due(&mut self.redrawn, REDRAW_PERIOD, now);
        LatePlan { list_monitors, identify, publish_counters, redraw }
    }

    /// Whether the running cues are published: once a frame, and whenever a
    /// command was answered.
    pub fn cues_due(&mut self, force: bool, now: Moment) -> (b: bool)
        ensures
            b == (force || is_due(old(self).cues_published, REDRAW_PERIOD, now)),
            *final(self) == (LateState {
                cues_published: if b {
                    now
                } else {
                    old(self).cues_published
                },
                ..*old(self)
            }),
    {
        due_or_forced(&mut self.cues_published, REDRAW_PERIOD, force, now)
    }
}

/// A request to tell the outputs apart is answered at once, and for a while.
pub proof fn outputs_flash_for_a_while(s: LateState, now: Moment, later: Moment)
    requires
        now <= later,
        now <= u64::MAX - IDENTIFY_PERIOD,
    ensures
        s.plan(true, now).identify,
        s.after(true, now).plan(false, later).identify == (later < now + IDENTIFY_PERIOD),
{
}

/// What the presentation thread is told.
#[derive(Clone, Copy, PartialEq, Eq, Structural, Debug)]
pub struct Presented {
    pub fit: CanvasFit,
    /// Counts the layouts of the outputs, so that each is taken over.
    pub layouts: u64,
    pub identify: bool,
}

impl Presented {
    /// Tell the presentation thread how the picture fits, whether the layout
    /// of the outputs is another, and whether they flash.
    pub fn tell(&mut self, fit: CanvasFit, layout_changed: bool, identify: bool)
        requires
            old(self).layouts < u64::MAX,
        ensures
            *final(self) == (Presented {
                fit,
                layouts: if layout_changed {
                    (old(self).layouts + 1) as u64
                } else {
                    old(self).layouts
                },
                identify,
            }),
    {
        self.fit = fit;
        if layout_changed {
            self.layouts = self.layouts + 1;
        }
        self.identify = identify;
    }
}

/// Whether a fade to black that has run for `elapsed` seconds is over.
pub fn fade_done(control: &VideoControl, elapsed: Single) -> (b: bool)
    ensures
        b == (control.fade is Some && elapsed.at_least((control.fade->0).1)),
{
    match control.fade {
        Some((_, length)) => elapsed.ge(length),
        None => false,
    }
}

/// A duration in whole microseconds, in 32 bits.
pub open spec fn micros(ns: u64) -> u32 {
    if ns / 1000 > u32::MAX {
        u32::MAX
    } else {
        (ns / 1000) as u32
    }
}

/// The longest duration seen, in whole microseconds.
pub fn note_longest(longest: u32, ns: u64) -> (r: u32)
    ensures
        r >= longest,
        r >= micros(ns),
        r == longest || r == micros(ns),
{
    let us: u64 = ns / 1000;
    let us: u32 = if us > u32::MAX as u64 {
        u32::MAX
    } else {
        us as u32
    };
    if us > longest {
        us
    } else {
        longest
    }
}

/// When the next turn of the loop begins at the latest.
pub fn next_turn(now: Moment) -> (r: Moment)
    requires
        now <= u64::MAX - TURN_PERIOD,
    ensures
        r == now + TURN_PERIOD,
{
    now + TURN_PERIOD
}

/// What became of an attempt to draw the control window.
#[derive(Clone, Copy, PartialEq, Eq, Structural, Debug)]
pub enum SurfaceOutcome {
    Ready,
    /// The window is covered or minimized.
    Occluded,
    Outdated,
    Lost,
    Failed,
}

/// What drawing the control window does.
#[derive(Clone, Copy, PartialEq, Eq, Structural, Debug)]
pub enum DrawStep {
    Draw,
    Skip,
    /// Skip, and warn that the question to quit cannot be seen.
    WarnOccluded,
    Reconfigure,
    /// Put the surface away and get another at once.
    Recover,
    Complain,
}

/// The control window's surface.
#[derive(Clone, Copy, PartialEq, Eq, Structural, Debug)]
pub struct SurfaceState {
    /// There is a surface.
    pub present: bool,
    pub retry_at: Option<Moment>,
    pub failures: u32,
    pub occluded_warned: bool,
}

impl SurfaceState {
    /// Whether another surface is to be tried for now.
    pub open spec fn retries(self, now: Moment) -> bool {
        self.retry_at is Some && self.retry_at->0 <= now
    }

    pub fn retry_due(&self, now: Moment) -> (b: bool)
        ensures
            b == self.retries(now),
    {
        match self.retry_at {
            Some(at) => at <= now,
            None => false,
        }
    }

    /// What an attempt to draw leads to. `asking` tells that a question to quit
    /// waits for an answer.
    pub fn draw_step(&mut self, outcome: SurfaceOutcome, asking: bool, now: Moment) -> (r: DrawStep)
        ensures
            r == (match outcome {
                SurfaceOutcome::Ready => DrawStep::Draw,
                SurfaceOutcome::Occluded => if asking && !old(self).occluded_warned {
                    DrawStep::WarnOccluded
                } else {
                    DrawStep::Skip
                },
                SurfaceOutcome::Outdated => DrawStep::Reconfigure,
                SurfaceOutcome::Lost => DrawStep::Recover,
                SurfaceOutcome::Failed => DrawStep::Complain,
            }),
            *final(self) == (match r {
                DrawStep::WarnOccluded => SurfaceState { occluded_warned: true, ..*old(self) },
                DrawStep::Recover => SurfaceState {
                    present: false,
                    failures: 0,
                    retry_at: Some(now),
                    ..*old(self)
                },
                _ => *old(self),
            }),
    {
        match outcome {
            SurfaceOutcome::Ready => DrawStep::Draw,
            SurfaceOutcome::Occluded => {
                if asking && !self.occluded_warned {
                    self.occluded_warned = true;
                    DrawStep::WarnOccluded
                } else {
                    DrawStep::Skip
                }
            },
            SurfaceOutcome::Outdated => DrawStep::Reconfigure,
            SurfaceOutcome::Lost => {
                self.present = false;
                self.failures = 0;
                self.retry_at = Some(now);
                DrawStep::Recover
            },
            SurfaceOutcome::Failed => DrawStep::Complain,
        }
    }

    /// Another surface was got. The number of attempts that failed is returned.
    pub fn recovered(&mut self) -> (failures: u32)
        ensures
            failures == old(self).failures,
            *final(self) == (SurfaceState {
                present: true,
                retry_at: None,
                failures: 0,
                ..*old(self)
            }),
    {
        let failures: u32 = self.failures;
        self.present = true;
        self.retry_at = None;
        self.failures = 0;
        failures
    }

    /// No other surface could be got; the next attempt comes later each time.
    pub fn not_recovered(&mut self, now: Moment) -> (delay_ms: u64)
        requires
            now <= u64::MAX - 5_000_000_000,
        ensures
            ({
                let failures: u32 = if old(self).failures < u32::MAX {
                    (old(self).failures + 1) as u32
                } else {
                    u32::MAX
                };
                &&& delay_ms == retry_delay(failures as nat)
                &&& *final(self) == (SurfaceState {
                    failures,
                    retry_at: Some((now + delay_ms * 1_000_000) as u64),
                    ..*old(self)
                })
            }),
    {
        if self.failures < u32::MAX {
            self.failures = self.failures + 1;
        }
        let delay: u64 = control_surface_retry_delay(self.failures);
        proof {
            lemma_retry_delay_bounded(self.failures as nat);
        }
        self.retry_at = Some(now + delay * 1_000_000);
        delay
    }
}

proof fn lemma_retry_delay_bounded(n: nat)
    ensures
        100 <= retry_delay(n) <= 5000,
    decreases n,
{
    if n > 1 {
        lemma_retry_delay_bounded((n - 1) as nat);
    }
}

/// How a surface presents its frames.
#[derive(Clone, Copy, PartialEq, Eq, Structural, Debug)]
pub enum PresentMode {
    Fifo,
    Mailbox,
    Immediate,
}

/// How the operator's windows present their frames: without waiting for the
/// display where they can, so that the outputs do not wait for them.
pub fn control_present_mode(preset: PresentMode, mailbox: bool, immediate: bool) -> (r: PresentMode)
    ensures
        r == (if mailbox {
            PresentMode::Mailbox
        } else if immediate {
            PresentMode::Immediate
        } else {
            preset
        }),
{
    if mailbox {
        PresentMode::Mailbox
    } else if immediate {
        PresentMode::Immediate
    } else {
        preset
    }
}

/// A key that was pressed.
pub struct KeyPress {
    pub escape: bool,
    pub f11: bool,
    pub letter_f: bool,
    /// Control or Command is held.
    pub command: bool,
    /// The name of the key, empty where it has none.
    pub name: String,
}

/// What a key in the control window does.
#[derive(Clone, Copy, PartialEq, Eq, Structural, Debug)]
pub enum ControlKey {
    Ignored,
    /// Switch the outputs to full screen and back.
    ToggleOutputs,
    /// Fire the cues that have this key.
    Hotkey,
}

/// What a key in the control window does: the outputs' full screen on F11 or
/// with Control and F, else the cues that have it, unless Control is held.
pub fn control_key(key: &KeyPress) -> (r: ControlKey)
    ensures
        r == control_key_of(*key),
{
    if key.f11 || (key.letter_f && key.command) {
        ControlKey::ToggleOutputs
    } else if !key.name.as_str().is_empty() && !key.command {
        ControlKey::Hotkey
    } else {
        ControlKey::Ignored
    }
}

pub open spec fn control_key_of(key: KeyPress) -> ControlKey {
    if key.f11 || (key.letter_f && key.command) {
        ControlKey::ToggleOutputs
    } else if key.name@.len() > 0 && !key.command {
        ControlKey::Hotkey
    } else {
        ControlKey::Ignored
    }
}

/// Whether a key fires cues while an output window has it.
pub open spec fn output_hotkey(key: KeyPress) -> bool {
    !key.escape && !key.f11 && !key.command && key.name@.len() > 0
}

/// What a key in an output window does.
#[derive(Clone, Copy, PartialEq, Eq, Structural, Debug)]
pub struct OutputKey {
    /// The full screen the window is put in, where that changes.
    pub fullscreen: Option<bool>,
    /// Fire the cues that have this key.
    pub hotkey: bool,
}

/// What a key in an output window does. `open` tells that the window is one of
/// the outputs, and `fullscreen` that it fills the screen.
pub fn output_key(key: &KeyPress, open: bool, fullscreen: bool) -> (r: OutputKey)
    ensures
        r.fullscreen == (if !open {
            None
        } else if key.escape {
            Some(false)
        } else if key.f11 || (key.letter_f && key.command) {
            Some(!fullscreen)
        } else {
            None
        }),
        r.hotkey == output_hotkey(*key),
{
    let change: Option<bool> = if !open {
        None
    } else if key.escape {
        Some(false)
    } else if key.f11 || (key.letter_f && key.command) {
        Some(!fullscreen)
    } else {
        None
    };
    OutputKey {
        fullscreen: change,
        hotkey: !key.escape && !key.f11 && !key.command && !key.name.as_str().is_empty(),
    }
}

/// A bare key fires the same cues in the control window and in an output
/// window, and is one that fires cues exactly where it has a name.
pub proof fn hotkeys_agree_between_windows(key: KeyPress)
    requires
        !key.escape,
        !key.f11,
    ensures
        (control_key_of(key) == ControlKey::Hotkey) == output_hotkey(key),
{
}

/// The window an event belongs to.
#[derive(Clone, Copy, PartialEq, Eq, Structural, Debug)]
pub enum WindowRole {
    Control,
    Status,
    Output,
    Unknown,
}

/// The window an event belongs to. While the program shuts down no event
/// belongs to any.
pub fn window_role(shutting_down: bool, control: bool, status: bool, output: bool) -> (r: Option<
    WindowRole,
>)
    ensures
        r == (if shutting_down {
            None
        } else if control {
            Some(WindowRole::Control)
        } else if status {
            Some(WindowRole::Status)
        } else if output {
            Some(WindowRole::Output)
        } else {
            Some(WindowRole::Unknown)
        }),
{
    if shutting_down {
        None
    } else if control {
        Some(WindowRole::Control)
    } else if status {
        Some(WindowRole::Status)
    } else if output {
        Some(WindowRole::Output)
    } else {
        Some(WindowRole::Unknown)
    }
}

/// Whether a new size is taken: a window that is minimized has none.
pub fn size_taken(width: u32, height: u32) -> (b: bool)
    ensures
        b == (width > 0 && height > 0),
{
    width > 0 && height > 0
}

/// Something is due once its period has passed since it was done, and then not
/// again for a period; what is forced is due at once.
pub proof fn periods_are_kept(
    last: &mut Moment,
    again: &mut Moment,
    forced: &mut Moment,
    period: u64,
    now: Moment,
    later: Moment,
    force: bool,
    b: bool,
    c: bool,
    d: bool,
)
    requires
        call_ensures(due, (last, period, now), b),
        *old(again) == *final(last),
        call_ensures(due, (again, period, later), c),
        call_ensures(due_or_forced, (forced, period, force, now), d),
        *old(last) <= now <= later,
        *old(forced) <= now,
    ensures
        b <==> now - *old(last) >= period,
        b ==> *final(last) == now,
        !b ==> *final(last) == *old(last),
        b ==> (c <==> later - now >= period),
        d <==> force || now - *old(forced) >= period,
        d ==> *final(forced) == now,
        !d ==> *final(forced) == *old(forced),
{
}

/// An accepted shutdown only waits: it ends with its answer, or five seconds
/// later without.
pub proof fn a_shutdown_waits_for_its_answer(
    accepted: &mut LoopState,
    turn: &mut LoopState,
    state: &mut SharedState,
    f: TurnFacts,
    at: Moment,
    plan: TurnPlan,
)
    requires
        call_ensures(LoopState::accept_shutdown, (accepted, at), ()),
        *old(turn) == *final(accepted),
        call_ensures(LoopState::take_turn, (turn, state, f), plan),
        at <= f.now,
    ensures
        f.delivered ==> plan == (TurnPlan::Exit { undelivered: false }),
        !f.delivered && f.now - at >= 5_000_000_000 ==> plan == (TurnPlan::Exit {
            undelivered: true,
        }),
        !f.delivered && f.now - at < 5_000_000_000 ==> plan is Wait,
        final(state)@ == old(state)@,
        final(accepted).generation == old(accepted).generation,
        final(accepted).status_open == old(accepted).status_open,
{
}

/// A turn of the loop ends the program where the operator agreed, and else does
/// what changed since the turn before: the status window, another project, the
/// outputs, the timecode and the list of devices.
pub proof fn a_turn_does_what_changed(
    turn: &mut LoopState,
    state: &mut SharedState,
    f: TurnFacts,
    plan: TurnPlan,
)
    requires
        call_ensures(LoopState::take_turn, (turn, state, f), plan),
        old(turn).shutdown_started is None,
        old(turn).devices_listed <= f.now,
        old(turn).generate_tried <= f.now,
    ensures
        ({
            let s = *old(turn);
            let t = *final(turn);
            let same_source = s.chase.linear == f.chase.linear && s.chase.driver == f.chase.driver
                && s.chase.device@ == f.chase.device@ && s.chase.channel == f.chase.channel;
            &&& f.quit <==> plan == (TurnPlan::Exit { undelivered: false })
            &&& f.quit ==> t == s && final(state)@ == old(state)@
            &&& !f.quit ==> {
                &&& plan is Run
                &&& plan->status is Open <==> f.show_status && !s.status_open
                &&& plan->status is Close <==> !f.show_status
                &&& plan->status is Keep <==> f.show_status && s.status_open
                &&& plan->report_consumer <==> f.consumer_exited && !s.consumer_reported
                &&& plan->reset_project <==> f.generation != s.generation
                &&& plan->rebuild_outputs <==> f.layout_changed && f.generation == s.generation
                &&& plan->rebuild_chase <==> !same_source
                &&& plan->list_devices <==> f.now - s.devices_listed >= 5_000_000_000
                &&& t.generation == f.generation
                &&& f.consumer_exited ==> t.consumer_reported
                &&& !f.consumer_exited ==> t.consumer_reported == s.consumer_reported
                &&& t.chase == f.chase
                &&& t.generate == f.generate
                &&& t.status_open == s.status_open
                &&& plan->list_devices ==> t.devices_listed == f.now
                &&& !plan->list_devices ==> t.devices_listed == s.devices_listed
                &&& plan->open_generator ==> t.generate_tried == f.now
                &&& !plan->open_generator ==> t.generate_tried == s.generate_tried
                &&& s.generate == f.generate && s.generate.start.at_least(s.generate.start) ==> (
                plan->open_generator <==> s.generate.enabled && !s.generating && f.now
                    - s.generate_tried >= 5_000_000_000)
                &&& s.generate.enabled != f.generate.enabled || s.generate.channel
                    != f.generate.channel || s.generate.rate != f.generate.rate
                    || s.generate.driver != f.generate.driver || s.generate.device@
                    != f.generate.device@ ==> plan->open_generator
                &&& plan->report_consumer ==> final(state)@.diagnostics.consumer_error == Some(
                    "video-consume thread exited unexpectedly; video output is frozen"@,
                )
                &&& !plan->report_consumer ==> final(state)@ == old(state)@
                &&& final(state)@.show_file == old(state)@.show_file
            }
        }),
{
}

/// A segment is sampled where its source is there, and its pixels are forgotten
/// where nothing of its number is sampled.
pub proof fn segments_are_sampled_where_they_can_be(
    segments: &Vec<SegmentTap>,
    canvas: bool,
    pixmap: bool,
    r: (Vec<u32>, Vec<u32>),
    id: u32,
)
    requires
        call_ensures(segment_batch, (segments, canvas, pixmap), r),
    ensures
        r.0@.contains(id) <==> exists|i: int|
            0 <= i < segments@.len() && (#[trigger] segments@[i]).id == id && (
            segments@[i].source is Canvas && canvas || segments@[i].source is PixelMap && pixmap),
        r.1@.contains(id) <==> !r.0@.contains(id) && exists|i: int|
            0 <= i < segments@.len() && (#[trigger] segments@[i]).id == id,
{
    lemma_sampled(segments@, canvas, pixmap, id, segments@.len() as int);
    lemma_cleared(segments@, r.0@, id, segments@.len() as int);
}

proof fn lemma_sampled(segments: Seq<SegmentTap>, canvas: bool, pixmap: bool, id: u32, n: int)
    requires
        0 <= n <= segments.len(),
    ensures
        sampled_taps(segments, canvas, pixmap, n).contains(id) <==> exists|i: int|
            0 <= i < n && (#[trigger] segments[i]).id == id && (segments[i].source is Canvas
                && canvas || segments[i].source is PixelMap && pixmap),
    decreases n,
{
    if n > 0 {
        lemma_sampled(segments, canvas, pixmap, id, n - 1);
        let before = sampled_taps(segments, canvas, pixmap, n - 1);
        let all = sampled_taps(segments, canvas, pixmap, n);
        if before.contains(id) {
            let k = choose|k: int| 0 <= k < before.len() && before[k] == id;
            assert(all[k] == id);
        }
        if all.contains(id) {
            let k = choose|k: int| 0 <= k < all.len() && all[k] == id;
            if k < before.len() {
                assert(before[k] == id);
            } else {
                assert(segments[n - 1].id == id);
            }
        }
        if segments[n - 1].id == id && tapped(segments[n - 1], canvas, pixmap) {
            assert(all.last() == id);
        }
    }
}

proof fn lemma_cleared(segments: Seq<SegmentTap>, sampled: Seq<u32>, id: u32, n: int)
    requires
        0 <= n <= segments.len(),
    ensures
        cleared_taps(segments, sampled, n).contains(id) <==> !sampled.contains(id) && exists|
            i: int,
        |
            0 <= i < n && (#[trigger] segments[i]).id == id,
    decreases n,
{
    if n > 0 {
        lemma_cleared(segments, sampled, id, n - 1);
        let before = cleared_taps(segments, sampled, n - 1);
        let all = cleared_taps(segments, sampled, n);
        if before.contains(id) {
            let k = choose|k: int| 0 <= k < before.len() && before[k] == id;
            assert(all[k] == id);
        }
        if all.contains(id) {
            let k = choose|k: int| 0 <= k < all.len() && all[k] == id;
            if k < before.len() {
                assert(before[k] == id);
            } else {
                assert(segments[n - 1].id == id);
            }
        }
        if segments[n - 1].id == id && !sampled.contains(id) {
            assert(all.last() == id);
        }
    }
}

/// A preview stays where its segment is sampled.
pub proof fn previews_go_with_their_segment(
    previews: &Vec<u32>,
    sampled: &Vec<u32>,
    r: Vec<u32>,
    id: u32,
)
    requires
        call_ensures(previews_kept, (previews, sampled), r),
    ensures
        r@.contains(id) <==> previews@.contains(id) && sampled@.contains(id),
        r@.len() <= previews@.len(),
{
    let keep = |x: u32| sampled@.contains(x);
    assert(r@ == previews@.filter(keep));
    previews@.lemma_filter_len(keep);
    if r@.contains(id) {
        previews@.lemma_filter_contains_rev(keep, id);
        let k = choose|k: int| 0 <= k < r@.len() && r@[k] == id;
        previews@.lemma_filter_pred(keep, k);
        assert(keep(id));
    }
    if previews@.contains(id) && sampled@.contains(id) {
        let k = choose|k: int| 0 <= k < previews@.len() && previews@[k] == id;
        previews@.lemma_filter_contains(keep, k);
    }
}

/// Outputs flash in six colours in turn, for eight seconds from a request on.
pub proof fn outputs_flash_in_turn(
    index: usize,
    colour: &'static str,
    request: bool,
    until: Option<Moment>,
    now: Moment,
    r: Option<Moment>,
    later: Moment,
    b: bool,
)
    requires
        now <= u64::MAX - 8_000_000_000,
        call_ensures(identify_colour, (index,), colour),
        call_ensures(identify_until, (request, until, now), r),
        call_ensures(identifying, (r, later), b),
    ensures
        index % 6 == 0 ==> colour@ == "RED"@,
        index % 6 == 1 ==> colour@ == "GREEN"@,
        index % 6 == 2 ==> colour@ == "BLUE"@,
        index % 6 == 3 ==> colour@ == "YELLOW"@,
        index % 6 == 4 ==> colour@ == "MAGENTA"@,
        index % 6 == 5 ==> colour@ == "CYAN"@,
        request ==> (b <==> later < now + 8_000_000_000),
        !request ==> r == until,
        !request && until is None ==> !b,
        !request && until is Some ==> (b <==> later < until->0),
{
}

/// Another list of monitors is published, and the open outputs find theirs
/// again; a pixel map is sampled where one plays and has a picture.
pub proof fn monitors_and_pixel_maps_are_followed(
    changed: bool,
    open: bool,
    r: MonitorStep,
    playing: bool,
    texture: bool,
    p: bool,
)
    requires
        call_ensures(monitor_step, (changed, open), r),
        call_ensures(pixmap_available, (playing, texture), p),
    ensures
        r.publish <==> changed,
        r.rebuild <==> changed && open,
        p <==> playing && texture,
{
}

/// The rest of a turn lists the monitors and publishes the counters every
/// second and draws the window sixty times a second; the outputs flash while
/// they are asked to.
pub proof fn the_rest_of_a_turn_keeps_its_periods(
    late: &mut LateState,
    request: bool,
    now: Moment,
    plan: LatePlan,
)
    requires
        now <= u64::MAX - 8_000_000_000,
        call_ensures(LateState::finish_turn, (late, request, now), plan),
        old(late).monitors_listed <= now,
        old(late).counters_published <= now,
        old(late).redrawn <= now,
    ensures
        ({
            let s = *old(late);
            let t = *final(late);
            &&& plan.list_monitors <==> now - s.monitors_listed >= 1_000_000_000
            &&& plan.publish_counters <==> now - s.counters_published >= 1_000_000_000
            &&& plan.redraw <==> now - s.redrawn >= 16_000_000
            &&& plan.identify <==> request || s.identify_until is Some && now
                < s.identify_until->0
            &&& t.monitors_listed == (if plan.list_monitors { now } else { s.monitors_listed })
            &&& t.counters_published == (if plan.publish_counters {
                now
            } else {
                s.counters_published
            })
            &&& t.redrawn == (if plan.redraw { now } else { s.redrawn })
            &&& t.cues_published == s.cues_published
            &&& request ==> t.identify_until == Some((now + 8_000_000_000) as u64)
            &&& !request ==> t.identify_until == s.identify_until
        }),
{
}

/// The running cues are published sixty times a second, and whenever that is
/// forced.
pub proof fn running_cues_are_published_often(
    late: &mut LateState,
    force: bool,
    now: Moment,
    b: bool,
)
    requires
        call_ensures(LateState::cues_due, (late, force, now), b),
        old(late).cues_published <= now,
    ensures
        b <==> force || now - old(late).cues_published >= 16_000_000,
        b ==> final(late).cues_published == now,
        !b ==> *final(late) == *old(late),
        final(late).redrawn == old(late).redrawn,
        final(late).identify_until == old(late).identify_until,
{
}

/// The presentation thread is told the fit and whether to flash, and counts the
/// layouts it is given.
pub proof fn the_presentation_is_told(
    p: &mut Presented,
    fit: CanvasFit,
    changed: bool,
    identify: bool,
)
    requires
        old(p).layouts < u64::MAX,
        call_ensures(Presented::tell, (p, fit, changed, identify), ()),
    ensures
        final(p).fit == fit,
        final(p).identify == identify,
        changed ==> final(p).layouts == old(p).layouts + 1,
        !changed ==> final(p).layouts == old(p).layouts,
{
}

/// A fade is over once it ran for its time; the longest duration is kept, in
/// whole microseconds; the next turn comes four milliseconds later at the
/// latest.
pub proof fn durations_are_measured(
    control: &VideoControl,
    elapsed: Single,
    b: bool,
    longest: u32,
    ns: u64,
    r: u32,
    now: Moment,
    t: Moment,
)
    requires
        call_ensures(fade_done, (control, elapsed), b),
        call_ensures(note_longest, (longest, ns), r),
        now <= u64::MAX - 4_000_000,
        call_ensures(next_turn, (now,), t),
    ensures
        control.fade is None ==> !b,
        control.fade is Some ==> (b <==> elapsed.at_least((control.fade->0).1)),
        r >= longest,
        ns / 1000 <= u32::MAX ==> r >= ns / 1000,
        r == longest || r == ns / 1000 || r == u32::MAX,
        ns / 1000 <= longest ==> r == longest,
        ns / 1000 > longest && ns / 1000 <= u32::MAX ==> r == ns / 1000,
        t - now == 4_000_000,
{
}

/// What drawing comes to: a surface that is ready is drawn on, one that is
/// outdated is set up again, one that is lost is replaced at once, and of one
/// that cannot be seen the operator is warned once while a question waits.
pub proof fn surfaces_are_drawn_or_recovered(
    s: &mut SurfaceState,
    outcome: SurfaceOutcome,
    asking: bool,
    now: Moment,
    r: DrawStep,
)
    requires
        call_ensures(SurfaceState::draw_step, (s, outcome, asking, now), r),
    ensures
        r is Draw <==> outcome is Ready,
        r is Reconfigure <==> outcome is Outdated,
        r is Recover <==> outcome is Lost,
        r is Complain <==> outcome is Failed,
        r is WarnOccluded <==> outcome is Occluded && asking && !old(s).occluded_warned,
        r is Skip <==> outcome is Occluded && (!asking || old(s).occluded_warned),
        r is WarnOccluded ==> final(s).occluded_warned && final(s).present == old(s).present,
        r is Recover ==> !final(s).present && final(s).failures == 0 && final(s).retry_at == Some(
            now,
        ),
        !(r is WarnOccluded || r is Recover) ==> *final(s) == *old(s),
{
}

/// A lost surface is tried for again, later with each failure, until there is
/// one.
pub proof fn a_surface_is_tried_for_again(
    s: &mut SurfaceState,
    failed: &mut SurfaceState,
    waiting: &SurfaceState,
    now: Moment,
    failures: u32,
    delay: u64,
    b: bool,
)
    requires
        call_ensures(SurfaceState::recovered, (s,), failures),
        now <= u64::MAX - 5_000_000_000,
        call_ensures(SurfaceState::not_recovered, (failed, now), delay),
        call_ensures(SurfaceState::retry_due, (waiting, now), b),
    ensures
        final(s).present,
        final(s).retry_at is None,
        final(s).failures == 0,
        failures == old(s).failures,
        old(failed).failures < u32::MAX ==> final(failed).failures == old(failed).failures + 1,
        100 <= delay <= 5000,
        old(failed).failures == 0 ==> delay == 100,
        final(failed).retry_at is Some && final(failed).retry_at->0 == now + delay * 1_000_000,
        final(failed).present == old(failed).present,
        b <==> waiting.retry_at is Some && waiting.retry_at->0 <= now,
{
    let n: nat = if old(failed).failures < u32::MAX {
        (old(failed).failures + 1) as nat
    } else {
        u32::MAX as nat
    };
    lemma_retry_delay_bounded(n);
}

/// The operator's windows wait for the display only where they must.
pub proof fn windows_present_without_waiting(
    preset: PresentMode,
    mailbox: bool,
    immediate: bool,
    r: PresentMode,
)
    requires
        call_ensures(control_present_mode, (preset, mailbox, immediate), r),
    ensures
        mailbox ==> r is Mailbox,
        !mailbox && immediate ==> r is Immediate,
        !mailbox && !immediate ==> r == preset,
{
}

/// Keys do what they say: full screen on its keys, out of it on Escape, and
/// cues on the others that have a name.
pub proof fn keys_do_what_they_say(
    key: &KeyPress,
    c: ControlKey,
    open: bool,
    fullscreen: bool,
    o: OutputKey,
)
    requires
        call_ensures(control_key, (key,), c),
        call_ensures(output_key, (key, open, fullscreen), o),
    ensures
        ({
            let screen = key.f11 || key.letter_f && key.command;
            &&& c is ToggleOutputs <==> screen
            &&& c is Hotkey <==> !screen && key.name@.len() > 0 && !key.command
            &&& !open ==> o.fullscreen is None
            &&& open && key.escape ==> o.fullscreen == Some(false)
            &&& open && !key.escape && screen ==> o.fullscreen == Some(!fullscreen)
            &&& open && !key.escape && !screen ==> o.fullscreen is None
            &&& o.hotkey <==> !key.escape && !key.f11 && !key.command && key.name@.len() > 0
        }),
{
}

/// An event belongs to the first window it fits, and to none while the program
/// shuts down; a size without an extent is none.
pub proof fn events_have_a_window(
    down: bool,
    control: bool,
    status: bool,
    output: bool,
    r: Option<WindowRole>,
    w: u32,
    h: u32,
    b: bool,
)
    requires
        call_ensures(window_role, (down, control, status, output), r),
        call_ensures(size_taken, (w, h), b),
    ensures
        down <==> r is None,
        !down && control <==> r == Some(WindowRole::Control),
        !down && !control && status <==> r == Some(WindowRole::Status),
        !down && !control && !status && output <==> r == Some(WindowRole::Output),
        b <==> w > 0 && h > 0,
{
}

} // verus!
