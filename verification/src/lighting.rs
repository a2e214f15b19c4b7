//! Lighting playback: every fixture fades on its own, recorded shows run
//! beside the looks, and each output gets its layers. Levels and fade curves
//! are worked out by the caller; here it is decided what fades, what plays,
//! what has ended and what goes where.

use vstd::prelude::*;

use rustjay_lighting::{FixtureLook, MaskedFrame, ShowPlayer};

use crate::ieee::Single;
use crate::qid::Qid;
use crate::show::{FadeType, LoopMode};
use crate::state::Moment;
use crate::table::Table;
use crate::text::texts;

verus! {

/// A change of one channel in a recorded show.
#[derive(Clone, Copy, PartialEq, Eq, Structural, Debug)]
pub struct RecordedEvent {
    pub t_ms: u32,
    pub universe: u16,
    pub channel: u16,
    pub value: u8,
}

/// The events a player plays.
pub uninterp spec fn player_events(player: ShowPlayer) -> Seq<RecordedEvent>;

/// Where a player's playhead stands, in milliseconds.
pub uninterp spec fn player_position(player: ShowPlayer) -> u32;

/// The length of a recorded show: the time of its last event.
pub open spec fn length_ms(events: Seq<RecordedEvent>) -> u32 {
    if events.len() > 0 {
        events.last().t_ms
    } else {
        0
    }
}

/// A player over these events, at the start, by
/// `rustjay_lighting::ShowPlayer::new`.
#[verifier::external_body]
fn new_player(events: &Vec<RecordedEvent>) -> (player: ShowPlayer)
    ensures
        player_events(player) == events@,
        player_position(player) == 0,
{
    ShowPlayer::new(
        events.iter().map(
            |e| rustjay_lighting::RecEvent {
                t_ms: e.t_ms,
                universe: e.universe,
                channel: e.channel,
                value: e.value,
            },
        ).collect(),
    )
}

/// How long a player's show is, by `rustjay_lighting::ShowPlayer::duration_ms`:
/// up to the last event it was made with.
#[verifier::external_body]
fn player_length(player: &ShowPlayer) -> (ms: u32)
    ensures
        ms == length_ms(player_events(*player)),
{
    player.duration_ms()
}

/// Moves a player's playhead, by `rustjay_lighting::ShowPlayer::seek`: the
/// events stay, and the playhead is where it was asked to go.
#[verifier::external_body]
fn seek_player(player: &mut ShowPlayer, t_ms: u32)
    ensures
        player_events(*final(player)) == player_events(*old(player)),
        player_position(*final(player)) == t_ms,
{
    player.seek(t_ms);
}

/// A fade of one fixture.
pub struct ActiveFade {
    pub start: Moment,
    pub duration: Single,
    pub fade_type: FadeType,
    pub from: FixtureLook,
    pub to: FixtureLook,
}

/// Where a fade stands: how long it has run, in seconds, and the look it has
/// then, as long as it is under way.
#[derive(Clone, Copy)]
pub struct FadeSample {
    pub elapsed: Single,
    pub look: FixtureLook,
}

impl ActiveFade {
    /// Whether the fade has ended.
    pub open spec fn complete(self, sample: FadeSample) -> bool {
        sample.elapsed.at_least(self.duration)
    }

    /// The look of the fixture: the target once the fade has ended.
    pub open spec fn look(self, sample: FadeSample) -> FixtureLook {
        if self.complete(sample) {
            self.to
        } else {
            sample.look
        }
    }
}

/// A recorded show that plays.
pub struct ActiveShow {
    pub qid: Qid,
    pub player: ShowPlayer,
    pub started: Moment,
    pub priority: u8,
    pub loop_mode: LoopMode,
    pub loop_count: i32,
    pub fade_in: Single,
    /// A fade before the natural end.
    pub fade_out: Single,
    pub fade_type: FadeType,
    /// A fade out on request: when it began, how long it takes, its shape.
    pub stopping: Option<(Moment, Single, FadeType)>,
    /// The end was announced.
    pub finished_reported: bool,
}

/// The lighting state.
pub struct LightingEngine {
    pub live: Table<FixtureLook>,
    pub fades: Table<ActiveFade>,
    /// In the order in which they were started.
    pub shows: Vec<ActiveShow>,
    /// A layer over the shows: its priority and its channels.
    pub overlay: Option<(u8, MaskedFrame)>,
    /// Shows that ended and were not yet asked for.
    pub finished_shows: Vec<Qid>,
    /// The latest sampled pixels of each segment: columns, rows, colours.
    pub segment_pixels: Table<(u32, u32, Vec<u8>)>,
    /// Something changed since the last frame.
    pub dirty: bool,
    pub last_tick: Option<Moment>,
    /// The settings that the open outputs were opened for.
    pub applied: Option<OutputPlan>,
    /// The destinations of the open outputs.
    pub senders: Vec<String>,
}

/// The wire protocols.
#[derive(Clone, Copy, PartialEq, Eq, Structural, Debug)]
pub enum LightingProtocol {
    Sacn,
    ArtNet,
}

/// What the outputs are opened for: the protocol, one destination each (none
/// named stands for the protocol's own) and the frame rate.
pub struct OutputPlan {
    pub protocol: LightingProtocol,
    pub dests: Vec<String>,
    pub fps: Single,
}

#[verifier::ext_equal]
pub struct PlanView {
    pub protocol: LightingProtocol,
    pub dests: Seq<Seq<char>>,
    pub fps: Single,
}

impl View for OutputPlan {
    type V = PlanView;

    open spec fn view(&self) -> PlanView {
        PlanView { protocol: self.protocol, dests: texts(self.dests@), fps: self.fps }
    }
}

pub open spec fn plan_opt(p: Option<OutputPlan>) -> Option<PlanView> {
    match p {
        Some(p) => Some(p@),
        None => None,
    }
}

#[verifier::ext_equal]
pub struct LightingView {
    pub live: Map<u32, FixtureLook>,
    pub fades: Map<u32, ActiveFade>,
    pub shows: Seq<ActiveShow>,
    pub overlay: Option<(u8, MaskedFrame)>,
    pub finished_shows: Seq<Qid>,
    pub segment_pixels: Map<u32, (u32, u32, Vec<u8>)>,
    pub dirty: bool,
    pub last_tick: Option<Moment>,
    pub applied: Option<PlanView>,
    pub senders: Seq<Seq<char>>,
}

impl View for LightingEngine {
    type V = LightingView;

    open spec fn view(&self) -> LightingView {
        LightingView {
            live: self.live@,
            fades: self.fades@,
            shows: self.shows@,
            overlay: self.overlay,
            finished_shows: self.finished_shows@,
            segment_pixels: self.segment_pixels@,
            dirty: self.dirty,
            last_tick: self.last_tick,
            applied: plan_opt(self.applied),
            senders: texts(self.senders@),
        }
    }
}

/// The looks once every fade is sampled.
pub open spec fn sampled_looks(
    live: Map<u32, FixtureLook>,
    fades: Map<u32, ActiveFade>,
    samples: Map<u32, FadeSample>,
) -> Map<u32, FixtureLook> {
    Map::new(
        |id: u32| live.contains_key(id) || fades.contains_key(id),
        |id: u32|
            if fades.contains_key(id) {
                fades[id].look(samples[id])
            } else {
                live[id]
            },
    )
}

/// The fades that are still under way.
pub open spec fn running_fades(
    fades: Map<u32, ActiveFade>,
    samples: Map<u32, FadeSample>,
) -> Map<u32, ActiveFade> {
    Map::new(
        |id: u32| fades.contains_key(id) && !fades[id].complete(samples[id]),
        |id: u32| fades[id],
    )
}

/// Whether every fade has a sample.
pub open spec fn all_sampled(fades: Map<u32, ActiveFade>, samples: Map<u32, FadeSample>) -> bool {
    forall|id: u32| #[trigger] fades.contains_key(id) ==> samples.contains_key(id)
}

impl LightingView {
    /// The state once every fade is sampled into the live looks and those that
    /// ended are dropped.
    pub open spec fn evaluated(self, samples: Map<u32, FadeSample>) -> LightingView {
        LightingView {
            live: sampled_looks(self.live, self.fades, samples),
            fades: running_fades(self.fades, samples),
            ..self
        }
    }

    /// The state once one fixture of a cue is set: it fades from where it is,
    /// or snaps where the cue takes no time.
    pub open spec fn fixture_set(
        self,
        id: u32,
        look: FixtureLook,
        from: FixtureLook,
        fade_time: Single,
        fade_type: FadeType,
        now: Moment,
    ) -> LightingView {
        if fade_time.positive() {
            LightingView {
                fades: self.fades.insert(
                    id,
                    ActiveFade { start: now, duration: fade_time, fade_type, from, to: look },
                ),
                ..self
            }
        } else {
            LightingView {
                live: self.live.insert(id, look),
                fades: self.fades.remove(id),
                ..self
            }
        }
    }

    /// The state once the first `n` fixtures of a cue are set. `from` are the
    /// looks when the cue started; a fixture that had none rests.
    pub open spec fn fixtures_set(
        self,
        snapshot: Seq<(u32, FixtureLook)>,
        from: Map<u32, FixtureLook>,
        rest: FixtureLook,
        fade_time: Single,
        fade_type: FadeType,
        now: Moment,
        n: int,
    ) -> LightingView
        decreases n,
    {
        if n <= 0 {
            self
        } else {
            let (id, look) = snapshot[n - 1];
            self.fixtures_set(snapshot, from, rest, fade_time, fade_type, now, n - 1).fixture_set(
                id,
                look,
                if from.contains_key(id) {
                    from[id]
                } else {
                    rest
                },
                fade_time,
                fade_type,
                now,
            )
        }
    }

    /// The state once a lighting cue is fired.
    pub open spec fn cue_fired(
        self,
        snapshot: Seq<(u32, FixtureLook)>,
        samples: Map<u32, FadeSample>,
        rest: FixtureLook,
        fade_time: Single,
        fade_type: FadeType,
        now: Moment,
    ) -> LightingView {
        let e = self.evaluated(samples);
        LightingView {
            dirty: true,
            ..e.fixtures_set(
                snapshot,
                e.live,
                rest,
                fade_time,
                fade_type,
                now,
                snapshot.len() as int,
            )
        }
    }
}

impl LightingEngine {
    pub fn new() -> (r: LightingEngine)
        ensures
            r@ == (LightingView {
                live: Map::empty(),
                fades: Map::empty(),
                shows: Seq::empty(),
                overlay: None,
                finished_shows: Seq::empty(),
                segment_pixels: Map::empty(),
                dirty: false,
                last_tick: None,
                applied: None,
                senders: Seq::empty(),
            }),
    {
        LightingEngine {
            live: Table::new(),
            fades: Table::new(),
            shows: Vec::new(),
            overlay: None,
            finished_shows: Vec::new(),
            segment_pixels: Table::new(),
            dirty: false,
            last_tick: None,
            applied: None,
            senders: Vec::new(),
        }
    }

    pub fn is_active(&self) -> (b: bool)
        ensures
            b == (!(self@.fades.dom() =~= Set::<u32>::empty()) || self@.shows.len() > 0
                || self@.overlay is Some),
    {
        !self.fades.is_empty() || self.shows.len() > 0 || self.overlay.is_some()
    }

    /// The cues whose recorded shows play, in the order of their start.
    pub fn active_show_qids(&self) -> (r: Vec<Qid>)
        ensures
            r@ == self@.shows.map_values(|s: ActiveShow| s.qid),
    {
        let mut r: Vec<Qid> = Vec::new();
        let ghost all = self.shows@.map_values(|s: ActiveShow| s.qid);
        let mut i: usize = 0;
        while i < self.shows.len()
            invariant
                i <= self.shows@.len(),
                all == self.shows@.map_values(|s: ActiveShow| s.qid),
                r@ == all.take(i as int),
            decreases self.shows@.len() - i,
        {
            r.push(self.shows[i].qid);
            assert(all.take(i + 1) =~= all.take(i as int).push(self.shows@[i as int].qid));
            i = i + 1;
        }
        assert(all.take(i as int) =~= all);
        r
    }

    /// Sample every fade into the live looks and drop those that ended.
    pub fn evaluate(&mut self, samples: &Table<FadeSample>)
        requires
            all_sampled(old(self)@.fades, samples@),
        ensures
            final(self)@ == old(self)@.evaluated(samples@),
    {
        let ghost fades = self.fades@;
        let ghost live = self.live@;
        let ghost before = self@;
        let mut kept: Table<ActiveFade> = Table::new();
        let ids: Vec<u32> = self.fades.keys();
        let mut i: usize = 0;
        proof {
            assert(self.live@ =~= live);
        }
        let ghost mut seen: Set<u32> = Set::empty();
        while i < ids.len()
            invariant
                self.fades@ == fades,
                i <= ids@.len(),
                forall|j: int| 0 <= j < ids@.len() ==> fades.contains_key(#[trigger] ids@[j]),
                all_sampled(fades, samples@),
                self@ == (LightingView { live: self.live@, ..before }),
                before.fades == fades,
                before.live == live,
                forall|k: u32|
                    #[trigger] seen.contains(k) == (exists|j: int|
                        0 <= j < i && #[trigger] ids@[j] == k),
                forall|k: u32| #[trigger] seen.contains(k) ==> fades.contains_key(k),
                self.live@ == Map::new(
                    |k: u32| live.contains_key(k) || seen.contains(k),
                    |k: u32|
                        if seen.contains(k) {
                            fades[k].look(samples@[k])
                        } else {
                            live[k]
                        },
                ),
                kept@ == Map::new(
                    |k: u32| seen.contains(k) && !fades[k].complete(samples@[k]),
                    |k: u32| fades[k],
                ),
            decreases ids@.len() - i,
        {
            let id: u32 = ids[i];
            let fade: &ActiveFade = match self.fades.get(id) {
                Some(fade) => fade,
                None => {
                    assert(false);
                    return;
                },
            };
            let ghost old_live = self.live@;
            let ghost old_kept = kept@;
            let ghost old_seen = seen;
            let sample: FadeSample = match samples.get(id) {
                Some(s) => *s,
                None => {
                    assert(false);
                    return;
                },
            };
            let done: bool = sample.elapsed.ge(fade.duration);
            let look: FixtureLook = if done {
                fade.to
            } else {
                sample.look
            };
            if !done {
                kept.insert(
                    id,
                    ActiveFade {
                        start: fade.start,
                        duration: fade.duration,
                        fade_type: fade.fade_type,
                        from: fade.from,
                        to: fade.to,
                    },
                );
            }
            self.live.insert(id, look);
            proof {
                seen = seen.insert(id);
                assert(ids@[i as int] == id);
                assert forall|k: u32| #[trigger] seen.contains(k) == (exists|j: int|
                    0 <= j < i + 1 && #[trigger] ids@[j] == k) by {
                    if old_seen.contains(k) {
                        let j = choose|j: int| 0 <= j < i && #[trigger] ids@[j] == k;
                        assert(ids@[j] == k);
                    }
                    if k == id {
                        assert(ids@[i as int] == k);
                    }
                }
                assert(self.live@ =~= Map::new(
                    |k: u32| live.contains_key(k) || seen.contains(k),
                    |k: u32|
                        if seen.contains(k) {
                            fades[k].look(samples@[k])
                        } else {
                            live[k]
                        },
                ));
                assert(kept@ =~= Map::new(
                    |k: u32| seen.contains(k) && !fades[k].complete(samples@[k]),
                    |k: u32| fades[k],
                ));
            }
            i = i + 1;
        }
        proof {
            assert forall|k: u32| fades.contains_key(k) implies seen.contains(k) by {
                let j = choose|j: int| 0 <= j < ids@.len() && ids@[j] == k;
                assert(ids@[j] == k);
            }
            assert(self.live@ =~= sampled_looks(live, fades, samples@));
            assert(kept@ =~= running_fades(fades, samples@));
        }
        self.fades = kept;
        assert(self@ =~= before.evaluated(samples@));
    }

    fn set_fixture(
        &mut self,
        id: u32,
        look: FixtureLook,
        from: FixtureLook,
        fade_time: Single,
        fade_type: FadeType,
        now: Moment,
    )
        ensures
            final(self)@ == old(self)@.fixture_set(id, look, from, fade_time, fade_type, now),
    {
        if fade_time.gt_zero() {
            self.fades.insert(
                id,
                ActiveFade { start: now, duration: fade_time, fade_type, from, to: look },
            );
        } else {
            self.live.insert(id, look);
            let _ = self.fades.remove(id);
        }
        assert(self@ =~= old(self)@.fixture_set(id, look, from, fade_time, fade_type, now));
    }

    /// Fire a lighting cue: its fixtures fade from where they are to the cue's
    /// looks, or snap where the cue takes no time. All other fixtures keep
    /// their looks and fades. `rest` is the look of a fixture that has none.
    pub fn go(
        &mut self,
        snapshot: &Vec<(u32, FixtureLook)>,
        samples: &Table<FadeSample>,
        rest: FixtureLook,
        fade_time: Single,
        fade_type: FadeType,
        now: Moment,
    )
        requires
            all_sampled(old(self)@.fades, samples@),
        ensures
            final(self)@ == old(self)@.cue_fired(
                snapshot@,
                samples@,
                rest,
                fade_time,
                fade_type,
                now,
            ),
    {
        self.evaluate(samples);
        let ghost start = self@;
        let mut from: Vec<FixtureLook> = Vec::new();
        let mut j: usize = 0;
        while j < snapshot.len()
            invariant
                self@ == start,
                j <= snapshot@.len(),
                from@.len() == j,
                forall|k: int|
                    0 <= k < j ==> (#[trigger] from@[k]) == (if start.live.contains_key(
                        snapshot@[k].0,
                    ) {
                        start.live[snapshot@[k].0]
                    } else {
                        rest
                    }),
            decreases snapshot@.len() - j,
        {
            let look: FixtureLook = match self.live.get(snapshot[j].0) {
                Some(l) => *l,
                None => rest,
            };
            from.push(look);
            j = j + 1;
        }
        let mut i: usize = 0;
        while i < snapshot.len()
            invariant
                i <= snapshot@.len(),
                from@.len() == snapshot@.len(),
                forall|k: int|
                    0 <= k < from@.len() ==> (#[trigger] from@[k]) == (
                    if start.live.contains_key(snapshot@[k].0) {
                        start.live[snapshot@[k].0]
                    } else {
                        rest
                    }),
                self@ == start.fixtures_set(
                    snapshot@,
                    start.live,
                    rest,
                    fade_time,
                    fade_type,
                    now,
                    i as int,
                ),
            decreases snapshot@.len() - i,
        {
            let (id, look): (u32, FixtureLook) = snapshot[i];
            self.set_fixture(id, look, from[i], fade_time, fade_type, now);
            i = i + 1;
        }
        self.dirty = true;
    }

    /// End all fades; the fixtures hold the looks they have.
    pub fn stop_fade(&mut self, samples: &Table<FadeSample>)
        requires
            all_sampled(old(self)@.fades, samples@),
        ensures
            final(self)@ == (if old(self)@.fades.dom() =~= Set::<u32>::empty() {
                old(self)@
            } else {
                LightingView {
                    live: sampled_looks(old(self)@.live, old(self)@.fades, samples@),
                    fades: Map::empty(),
                    dirty: true,
                    ..old(self)@
                }
            }),
    {
        if !self.fades.is_empty() {
            self.evaluate(samples);
            self.fades = Table::new();
            self.dirty = true;
        }
    }
}

/// A fixture that a cue does not name keeps its fade, and its look at the
/// moment the cue fires.
pub proof fn cues_leave_other_fixtures_alone(
    e: LightingView,
    snapshot: Seq<(u32, FixtureLook)>,
    samples: Map<u32, FadeSample>,
    rest: FixtureLook,
    fade_time: Single,
    fade_type: FadeType,
    now: Moment,
    id: u32,
)
    requires
        forall|i: int| 0 <= i < snapshot.len() ==> (#[trigger] snapshot[i]).0 != id,
    ensures
        ({
            let before = e.evaluated(samples);
            let after = e.cue_fired(snapshot, samples, rest, fade_time, fade_type, now);
            &&& after.fades.contains_key(id) == before.fades.contains_key(id)
            &&& before.fades.contains_key(id) ==> after.fades[id] == before.fades[id]
            &&& after.live.contains_key(id) == before.live.contains_key(id)
            &&& before.live.contains_key(id) ==> after.live[id] == before.live[id]
        }),
{
    let before = e.evaluated(samples);
    lemma_others_kept(
        before,
        snapshot,
        before.live,
        rest,
        fade_time,
        fade_type,
        now,
        id,
        snapshot.len() as int,
    );
}

proof fn lemma_others_kept(
    e: LightingView,
    snapshot: Seq<(u32, FixtureLook)>,
    from: Map<u32, FixtureLook>,
    rest: FixtureLook,
    fade_time: Single,
    fade_type: FadeType,
    now: Moment,
    id: u32,
    n: int,
)
    requires
        forall|i: int| 0 <= i < snapshot.len() ==> (#[trigger] snapshot[i]).0 != id,
        0 <= n <= snapshot.len(),
    ensures
        ({
            let after = e.fixtures_set(snapshot, from, rest, fade_time, fade_type, now, n);
            &&& after.fades.contains_key(id) == e.fades.contains_key(id)
            &&& e.fades.contains_key(id) ==> after.fades[id] == e.fades[id]
            &&& after.live.contains_key(id) == e.live.contains_key(id)
            &&& e.live.contains_key(id) ==> after.live[id] == e.live[id]
        }),
    decreases n,
{
    if n > 0 {
        lemma_others_kept(e, snapshot, from, rest, fade_time, fade_type, now, id, n - 1);
        assert(snapshot[n - 1].0 != id);
    }
}

/// A cue without a fade time puts each of its fixtures at its look at once, and
/// the fixture fades no more.
pub proof fn a_cue_without_time_snaps(
    e: LightingView,
    snapshot: Seq<(u32, FixtureLook)>,
    samples: Map<u32, FadeSample>,
    rest: FixtureLook,
    fade_time: Single,
    fade_type: FadeType,
    now: Moment,
    k: int,
)
    requires
        0 <= k < snapshot.len(),
        !fade_time.positive(),
        forall|i: int|
            0 <= i < snapshot.len() && i != k ==> (#[trigger] snapshot[i]).0 != snapshot[k].0,
    ensures
        ({
            let after = e.cue_fired(snapshot, samples, rest, fade_time, fade_type, now);
            &&& after.live.contains_key(snapshot[k].0)
            &&& after.live[snapshot[k].0] == snapshot[k].1
            &&& !after.fades.contains_key(snapshot[k].0)
        }),
{
    let before = e.evaluated(samples);
    lemma_snapped(
        before,
        snapshot,
        before.live,
        rest,
        fade_time,
        fade_type,
        now,
        k,
        snapshot.len() as int,
    );
}

proof fn lemma_snapped(
    e: LightingView,
    snapshot: Seq<(u32, FixtureLook)>,
    from: Map<u32, FixtureLook>,
    rest: FixtureLook,
    fade_time: Single,
    fade_type: FadeType,
    now: Moment,
    k: int,
    n: int,
)
    requires
        0 <= k < n <= snapshot.len(),
        !fade_time.positive(),
        forall|i: int|
            0 <= i < snapshot.len() && i != k ==> (#[trigger] snapshot[i]).0 != snapshot[k].0,
    ensures
        ({
            let after = e.fixtures_set(snapshot, from, rest, fade_time, fade_type, now, n);
            &&& after.live.contains_key(snapshot[k].0)
            &&& after.live[snapshot[k].0] == snapshot[k].1
            &&& !after.fades.contains_key(snapshot[k].0)
        }),
    decreases n,
{
    if k < n - 1 {
        lemma_snapped(e, snapshot, from, rest, fade_time, fade_type, now, k, n - 1);
        assert(snapshot[n - 1].0 != snapshot[k].0);
    }
}

/// A fade that has ended holds its target, and one under way keeps running.
pub proof fn fades_end_at_their_target(e: LightingView, samples: Map<u32, FadeSample>, id: u32)
    requires
        e.fades.contains_key(id),
    ensures
        e.fades[id].complete(samples[id]) ==> e.evaluated(samples).live[id] == e.fades[id].to
            && !e.evaluated(samples).fades.contains_key(id),
        !e.fades[id].complete(samples[id]) ==> e.evaluated(samples).live[id] == samples[id].look
            && e.evaluated(samples).fades.contains_key(id) && e.evaluated(samples).fades[id]
            == e.fades[id],
{
}

/// The clock of a show, as the caller reads it: how long the show has run, in
/// milliseconds and in seconds, its end and the start of its tail fade in
/// seconds, and how long it has been stopping.
#[derive(Clone, Copy)]
pub struct ShowClock {
    pub elapsed_ms: u64,
    pub elapsed: Single,
    pub end: Single,
    pub tail: Single,
    pub stop_elapsed: Single,
}

/// Which fades weigh on a show's layer.
#[derive(Clone, Copy, PartialEq, Eq, Structural, Debug)]
pub struct Envelope {
    pub fade_in: bool,
    pub tail: bool,
    pub stopping: bool,
}

impl ActiveShow {
    pub open spec fn length(self) -> u32 {
        length_ms(player_events(self.player))
    }

    /// When the show ends of itself, in milliseconds, if it does.
    pub open spec fn natural_end(self) -> Option<int> {
        match self.loop_mode {
            LoopMode::OneShot => Some(self.length() as int),
            LoopMode::HoldLast => None,
            LoopMode::LoopedInfinite => None,
            LoopMode::Looped => Some(
                self.length() * (if self.loop_count > 1 {
                    self.loop_count as int
                } else {
                    1
                }),
            ),
        }
    }

    /// Where the playhead is after this many milliseconds.
    pub open spec fn playhead(self, elapsed_ms: u64) -> int {
        let length = self.length() as int;
        let held = if elapsed_ms < length {
            elapsed_ms as int
        } else {
            length
        };
        match self.loop_mode {
            LoopMode::OneShot => held,
            LoopMode::HoldLast => held,
            LoopMode::LoopedInfinite => elapsed_ms as int % length,
            LoopMode::Looped => if elapsed_ms >= self.natural_end()->0 {
                length
            } else {
                elapsed_ms as int % length
            },
        }
    }

    /// Whether the show is over: it has no length, it reached its end, or it
    /// was stopped and has faded out.
    pub open spec fn released(self, c: ShowClock) -> bool {
        ||| self.length() == 0
        ||| self.natural_end() is Some && c.elapsed.at_least(c.end)
        ||| self.stopping is Some && c.stop_elapsed.at_least((self.stopping->0).1)
    }

    /// Whether the end of the show is known by now. One that holds its last
    /// frame has ended when it got there, though it plays on.
    pub open spec fn ended(self, c: ShowClock) -> bool {
        ||| self.released(c)
        ||| self.loop_mode == LoopMode::HoldLast && c.elapsed_ms >= self.length()
    }

    pub open spec fn envelope(self, c: ShowClock) -> Envelope {
        Envelope {
            fade_in: self.fade_in.positive() && c.elapsed.less(self.fade_in),
            tail: self.natural_end() is Some && self.fade_out.positive() && c.elapsed.at_least(
                c.tail,
            ),
            stopping: self.stopping is Some,
        }
    }

    /// Whether `t` is the show once it was looked at: the playhead moved, and
    /// the end is on record.
    pub open spec fn advanced(self, c: ShowClock, t: ActiveShow) -> bool {
        &&& t == (ActiveShow {
            player: t.player,
            finished_reported: self.finished_reported || self.ended(c),
            ..self
        })
        &&& player_events(t.player) == player_events(self.player)
        &&& self.length() > 0 ==> player_position(t.player) == self.playhead(c.elapsed_ms)
        &&& self.length() == 0 ==> t.player == self.player
    }

    /// When the show ends of itself, in milliseconds, if it does.
    pub fn end_ms(&self) -> (r: Option<u64>)
        ensures
            match (r, self.natural_end()) {
                (Some(a), Some(b)) => a == b,
                (None, None) => true,
                _ => false,
            },
    {
        let length: u64 = player_length(&self.player) as u64;
        match self.loop_mode {
            LoopMode::OneShot => Some(length),
            LoopMode::HoldLast => None,
            LoopMode::LoopedInfinite => None,
            LoopMode::Looped => {
                let count: u64 = if self.loop_count > 1 {
                    self.loop_count as u64
                } else {
                    1
                };
                assert(length * count <= 0xffff_ffff * 0x7fff_ffff) by (nonlinear_arith)
                    requires
                        length <= 0xffff_ffff,
                        count <= 0x7fff_ffff,
                ;
                Some(length * count)
            },
        }
    }

    /// Look at a show: move its playhead, note its end, and say which fades
    /// weigh on it. Nothing is said of one that is over. The first time its end
    /// is known, the cue is put on the list of those that finished.
    pub fn eval(&mut self, c: &ShowClock, finished: &mut Vec<Qid>) -> (r: Option<Envelope>)
        ensures
            old(self).advanced(*c, *final(self)),
            final(finished)@ == (if old(self).ended(*c) && !old(self).finished_reported {
                old(finished)@.push(old(self).qid)
            } else {
                old(finished)@
            }),
            r == (if old(self).released(*c) {
                None
            } else {
                Some(old(self).envelope(*c))
            }),
    {
        let length: u64 = player_length(&self.player) as u64;
        if length == 0 {
            if !self.finished_reported {
                self.finished_reported = true;
                finished.push(self.qid);
            }
            return None;
        }
        let end: Option<u64> = self.end_ms();
        let held: u64 = if c.elapsed_ms < length {
            c.elapsed_ms
        } else {
            length
        };
        let t_ms: u64 = match self.loop_mode {
            LoopMode::OneShot => held,
            LoopMode::HoldLast => held,
            LoopMode::LoopedInfinite => c.elapsed_ms % length,
            LoopMode::Looped => match end {
                Some(total) => {
                    if c.elapsed_ms >= total {
                        length
                    } else {
                        c.elapsed_ms % length
                    }
                },
                None => 0,
            },
        };
        seek_player(&mut self.player, t_ms as u32);
        if self.loop_mode == LoopMode::HoldLast && c.elapsed_ms >= length
            && !self.finished_reported {
            self.finished_reported = true;
            finished.push(self.qid);
        }
        let fade_in: bool = self.fade_in.gt_zero() && c.elapsed.lt(self.fade_in);
        let mut tail: bool = false;
        if end.is_some() {
            if c.elapsed.ge(c.end) {
                if !self.finished_reported {
                    self.finished_reported = true;
                    finished.push(self.qid);
                }
                return None;
            }
            tail = self.fade_out.gt_zero() && c.elapsed.ge(c.tail);
        }
        match self.stopping {
            Some((_, duration, _)) => {
                if c.stop_elapsed.ge(duration) {
                    if !self.finished_reported {
                        self.finished_reported = true;
                        finished.push(self.qid);
                    }
                    return None;
                }
            },
            None => {},
        }
        Some(Envelope { fade_in, tail, stopping: self.stopping.is_some() })
    }
}

/// The playhead never leaves the recording.
pub proof fn the_playhead_stays_in_the_recording(show: ActiveShow, elapsed_ms: u64)
    requires
        show.length() > 0,
    ensures
        0 <= show.playhead(elapsed_ms) <= show.length(),
{
}

/// A show that holds its last frame or loops for ever is over only once it was
/// stopped.
pub proof fn endless_shows_end_only_by_a_stop(show: ActiveShow, c: ShowClock)
    requires
        show.length() > 0,
        show.loop_mode == LoopMode::HoldLast || show.loop_mode == LoopMode::LoopedInfinite,
        show.stopping is None,
    ensures
        !show.released(c),
{
}

/// For each show the fades that weigh on it, or nothing where it is over.
pub open spec fn envelopes_of(shows: Seq<ActiveShow>, clocks: Seq<ShowClock>) -> Seq<
    Option<Envelope>,
> {
    Seq::new(
        clocks.len(),
        |i: int|
            if shows[i].released(clocks[i]) {
                None
            } else {
                Some(shows[i].envelope(clocks[i]))
            },
    )
}

/// The cues among the first `n` shows whose end becomes known now.
pub open spec fn newly_ended(shows: Seq<ActiveShow>, clocks: Seq<ShowClock>, n: int) -> Seq<Qid>
    decreases n,
{
    if n <= 0 {
        Seq::empty()
    } else {
        let before = newly_ended(shows, clocks, n - 1);
        if shows[n - 1].ended(clocks[n - 1]) && !shows[n - 1].finished_reported {
            before.push(shows[n - 1].qid)
        } else {
            before
        }
    }
}

/// What is left of the first `n` shows once those that are over are dropped.
pub open spec fn still_playing(
    shows: Seq<ActiveShow>,
    envelopes: Seq<Option<Envelope>>,
    n: int,
) -> Seq<ActiveShow>
    decreases n,
{
    if n <= 0 {
        Seq::empty()
    } else {
        let before = still_playing(shows, envelopes, n - 1);
        if envelopes[n - 1] is Some {
            before.push(shows[n - 1])
        } else {
            before
        }
    }
}

/// `shows` without those of the cue `id`.
pub open spec fn without_show(shows: Seq<ActiveShow>, id: (int, nat)) -> Seq<ActiveShow>
    decreases shows.len(),
{
    if shows.len() == 0 {
        Seq::empty()
    } else {
        let rest = without_show(shows.drop_last(), id);
        if shows.last().qid@ == id {
            rest
        } else {
            rest.push(shows.last())
        }
    }
}

/// The position of the first show of the cue `id`, or the number of shows.
pub open spec fn show_position(shows: Seq<ActiveShow>, id: (int, nat)) -> nat
    decreases shows.len(),
{
    if shows.len() == 0 || shows[0].qid@ == id {
        0
    } else {
        1 + show_position(shows.drop_first(), id)
    }
}

/// A show's fade out on request: one under way is not begun again, but without
/// a fade time the show ends at once.
pub open spec fn stop_requested(
    show: ActiveShow,
    fade_out_time: Single,
    fade_type: FadeType,
    now: Moment,
) -> ActiveShow {
    ActiveShow {
        stopping: if !fade_out_time.positive() {
            Some((now, Single { bits: 0 }, fade_type))
        } else if show.stopping is None {
            Some((now, fade_out_time, fade_type))
        } else {
            show.stopping
        },
        ..show
    }
}

impl LightingEngine {
    /// Look at every show. The result says for each which fades weigh on it,
    /// or nothing where it is over.
    pub fn advance_shows(&mut self, clocks: &Vec<ShowClock>) -> (r: Vec<Option<Envelope>>)
        requires
            clocks@.len() == old(self)@.shows.len(),
        ensures
            final(self)@ == (LightingView {
                shows: final(self)@.shows,
                finished_shows: old(self)@.finished_shows + newly_ended(
                    old(self)@.shows,
                    clocks@,
                    clocks@.len() as int,
                ),
                ..old(self)@
            }),
            final(self)@.shows.len() == old(self)@.shows.len(),
            forall|i: int|
                0 <= i < clocks@.len() ==> old(self)@.shows[i].advanced(
                    clocks@[i],
                    #[trigger] final(self)@.shows[i],
                ),
            r@ == envelopes_of(old(self)@.shows, clocks@),
    {
        let ghost start = self@;
        let mut r: Vec<Option<Envelope>> = Vec::new();
        let mut shows: Vec<ActiveShow> = Vec::new();
        std::mem::swap(&mut shows, &mut self.shows);
        let mut finished: Vec<Qid> = Vec::new();
        std::mem::swap(&mut finished, &mut self.finished_shows);
        let mut i: usize = 0;
        assert(start.finished_shows + newly_ended(start.shows, clocks@, 0)
            =~= start.finished_shows);
        while i < shows.len()
            invariant
                i <= shows@.len(),
                shows@.len() == start.shows.len(),
                clocks@.len() == start.shows.len(),
                r@.len() == i,
                finished@ == start.finished_shows + newly_ended(start.shows, clocks@, i as int),
                forall|j: int|
                    0 <= j < i ==> start.shows[j].advanced(clocks@[j], #[trigger] shows@[j]),
                forall|j: int| i <= j < shows@.len() ==> (#[trigger] shows@[j]) == start.shows[j],
                forall|j: int|
                    0 <= j < i ==> (#[trigger] r@[j]) == (if start.shows[j].released(clocks@[j]) {
                        None
                    } else {
                        Some(start.shows[j].envelope(clocks@[j]))
                    }),
            decreases shows@.len() - i,
        {
            let ghost before = finished@;
            let e: Option<Envelope> = shows[i].eval(&clocks[i], &mut finished);
            r.push(e);
            assert(finished@ =~= start.finished_shows + newly_ended(start.shows, clocks@, i + 1));
            i = i + 1;
        }
        self.shows = shows;
        self.finished_shows = finished;
        assert(r@ =~= envelopes_of(start.shows, clocks@));
        r
    }

    /// Drop the shows that are over; the frame was sent.
    pub fn finish_tick(&mut self, envelopes: &Vec<Option<Envelope>>)
        requires
            envelopes@.len() == old(self)@.shows.len(),
        ensures
            final(self)@ == (LightingView {
                shows: still_playing(old(self)@.shows, envelopes@, envelopes@.len() as int),
                dirty: false,
                ..old(self)@
            }),
    {
        let ghost start = self@;
        let mut shows: Vec<ActiveShow> = Vec::new();
        std::mem::swap(&mut shows, &mut self.shows);
        let mut kept: Vec<ActiveShow> = Vec::new();
        let mut i: usize = 0;
        let n: usize = shows.len();
        while shows.len() > 0
            invariant
                n == start.shows.len(),
                envelopes@.len() == start.shows.len(),
                i + shows@.len() == start.shows.len(),
                shows@ == start.shows.skip(i as int),
                kept@ == still_playing(start.shows, envelopes@, i as int),
            decreases shows@.len(),
        {
            let show: ActiveShow = shows.remove(0);
            assert(start.shows.skip(i as int)[0] == start.shows[i as int]);
            assert(shows@ =~= start.shows.skip(i + 1));
            if envelopes[i].is_some() {
                kept.push(show);
            }
            i = i + 1;
        }
        self.shows = kept;
        self.dirty = false;
    }

    /// Start a recorded show for a cue; one of the same cue starts over.
    pub fn go_show(
        &mut self,
        qid: Qid,
        events: &Vec<RecordedEvent>,
        priority: u8,
        fade_in: Single,
        fade_out: Single,
        fade_type: FadeType,
        loop_mode: LoopMode,
        loop_count: i32,
        now: Moment,
    )
        ensures
            final(self)@ == (LightingView {
                shows: final(self)@.shows,
                dirty: true,
                ..old(self)@
            }),
            final(self)@.shows.len() > 0,
            final(self)@.shows.drop_last() == without_show(old(self)@.shows, qid@),
            final(self)@.shows.last() == (ActiveShow {
                qid,
                player: final(self)@.shows.last().player,
                started: now,
                priority,
                loop_mode,
                loop_count,
                fade_in,
                fade_out,
                fade_type,
                stopping: None,
                finished_reported: false,
            }),
            player_events(final(self)@.shows.last().player) == events@,
            player_position(final(self)@.shows.last().player) == 0,
    {
        let ghost start = self@;
        let mut shows: Vec<ActiveShow> = Vec::new();
        std::mem::swap(&mut shows, &mut self.shows);
        let mut kept: Vec<ActiveShow> = Vec::new();
        let ghost mut done: int = 0;
        assert(start.shows.take(0) =~= Seq::<ActiveShow>::empty());
        while shows.len() > 0
            invariant
                0 <= done,
                done + shows@.len() == start.shows.len(),
                shows@ == start.shows.skip(done),
                kept@ == without_show(start.shows.take(done), qid@),
            decreases shows@.len(),
        {
            let show: ActiveShow = shows.remove(0);
            proof {
                assert(start.shows.skip(done)[0] == start.shows[done]);
                assert(shows@ =~= start.shows.skip(done + 1));
                assert(start.shows.take(done + 1).drop_last() =~= start.shows.take(done));
                assert(start.shows.take(done + 1).last() == start.shows[done]);
            }
            if !show.qid.same(&qid) {
                kept.push(show);
            }
            proof {
                done = done + 1;
            }
        }
        assert(start.shows.take(done) =~= start.shows);
        let ghost others = kept@;
        kept.push(
            ActiveShow {
                qid,
                player: new_player(events),
                started: now,
                priority,
                loop_mode,
                loop_count,
                fade_in,
                fade_out,
                fade_type,
                stopping: None,
                finished_reported: false,
            },
        );
        assert(kept@.drop_last() =~= others);
        self.shows = kept;
        self.dirty = true;
    }

    /// Fade out and release the show of a cue. Whether it plays is returned.
    pub fn stop_show(&mut self, qid: Qid, fade_out_time: Single, fade_type: FadeType, now: Moment)
        -> (b: bool)
        ensures
            ({
                let i = show_position(old(self)@.shows, qid@) as int;
                &&& b == (i < old(self)@.shows.len())
                &&& final(self)@ == (if b {
                    LightingView {
                        shows: old(self)@.shows.update(
                            i,
                            stop_requested(old(self)@.shows[i], fade_out_time, fade_type, now),
                        ),
                        dirty: true,
                        ..old(self)@
                    }
                } else {
                    old(self)@
                })
            }),
    {
        let ghost start = self@;
        let mut i: usize = 0;
        assert(self.shows@.skip(0) =~= self.shows@);
        while i < self.shows.len() && !self.shows[i].qid.same(&qid)
            invariant
                self@ == start,
                i <= self.shows@.len(),
                show_position(start.shows, qid@) == i + show_position(
                    start.shows.skip(i as int),
                    qid@,
                ),
            decreases self.shows@.len() - i,
        {
            assert(start.shows.skip(i as int).drop_first() =~= start.shows.skip(i + 1));
            i = i + 1;
        }
        if i >= self.shows.len() {
            return false;
        }
        let stopping: Option<(Moment, Single, FadeType)> = if !fade_out_time.gt_zero() {
            Some((now, Single { bits: 0 }, fade_type))
        } else if self.shows[i].stopping.is_none() {
            Some((now, fade_out_time, fade_type))
        } else {
            self.shows[i].stopping
        };
        self.shows[i].stopping = stopping;
        self.dirty = true;
        assert(self.shows@ =~= start.shows.update(
            i as int,
            stop_requested(start.shows[i as int], fade_out_time, fade_type, now),
        ));
        true
    }

    /// Drop all shows at once.
    pub fn stop_all_shows(&mut self)
        ensures
            final(self)@ == (if old(self)@.shows.len() > 0 {
                LightingView { shows: Seq::empty(), dirty: true, ..old(self)@ }
            } else {
                old(self)@
            }),
    {
        if self.shows.len() > 0 {
            self.shows = Vec::new();
            self.dirty = true;
        }
    }

    /// The shows that ended since this was last asked.
    pub fn take_finished_shows(&mut self) -> (r: Vec<Qid>)
        ensures
            r@ == old(self)@.finished_shows,
            final(self)@ == (LightingView { finished_shows: Seq::empty(), ..old(self)@ }),
    {
        let mut r: Vec<Qid> = Vec::new();
        std::mem::swap(&mut r, &mut self.finished_shows);
        r
    }

    /// Set or clear the layer over the shows.
    pub fn set_overlay(&mut self, overlay: Option<(u8, MaskedFrame)>)
        ensures
            final(self)@ == (LightingView {
                overlay,
                dirty: old(self)@.dirty || overlay is Some || old(self)@.overlay is Some,
                ..old(self)@
            }),
    {
        if overlay.is_some() || self.overlay.is_some() {
            self.dirty = true;
        }
        self.overlay = overlay;
    }

    /// Forget a segment's pixels, so that the looks on its channels come
    /// through again.
    pub fn clear_segment_pixels(&mut self, id: u32)
        ensures
            final(self)@ == (LightingView {
                segment_pixels: old(self)@.segment_pixels.remove(id),
                dirty: old(self)@.dirty || old(self)@.segment_pixels.contains_key(id),
                ..old(self)@
            }),
    {
        if self.segment_pixels.remove(id) {
            self.dirty = true;
        }
    }

    /// Take new pixels for a segment.
    pub fn set_segment_pixels(&mut self, id: u32, cols: u32, rows: u32, rgba: Vec<u8>)
        ensures
            final(self)@ == (LightingView {
                segment_pixels: old(self)@.segment_pixels.insert(id, (cols, rows, rgba)),
                dirty: true,
                ..old(self)@
            }),
    {
        self.segment_pixels.insert(id, (cols, rows, rgba));
        self.dirty = true;
    }

    /// Forget everything, for another project. The outputs are closed.
    pub fn shutdown(&mut self)
        ensures
            final(self)@ == (LightingView {
                live: Map::empty(),
                fades: Map::empty(),
                shows: Seq::empty(),
                overlay: None,
                finished_shows: Seq::empty(),
                segment_pixels: Map::empty(),
                dirty: false,
                last_tick: old(self)@.last_tick,
                applied: None,
                senders: Seq::empty(),
            }),
    {
        self.live = Table::new();
        self.fades = Table::new();
        self.shows = Vec::new();
        self.finished_shows = Vec::new();
        self.overlay = None;
        self.segment_pixels = Table::new();
        self.dirty = false;
        self.applied = None;
        self.senders = Vec::new();
    }
}

/// No cue has two shows: starting one again replaces it.
pub proof fn starting_a_show_replaces_it(shows: Seq<ActiveShow>, id: (int, nat))
    ensures
        forall|i: int|
            0 <= i < without_show(shows, id).len() ==> (#[trigger] without_show(
                shows,
                id,
            )[i]).qid@ != id,
    decreases shows.len(),
{
    if shows.len() > 0 {
        starting_a_show_replaces_it(shows.drop_last(), id);
    }
}

/// A show that is not over fades in while it has run for less than its fade-in
/// time, and not from then on; its tail fades where it has an end, a fade-out
/// time and the tail was reached; it fades out once it was asked to stop.
pub proof fn a_show_fades_when_it_should(
    show: &mut ActiveShow,
    c: &ShowClock,
    finished: &mut Vec<Qid>,
    r: Option<Envelope>,
)
    requires
        call_ensures(ActiveShow::eval, (show, c, finished), r),
        r is Some,
    ensures
        ({
            let s = *old(show);
            let has_time = 0 < s.fade_in.bits <= 0x7f80_0000;
            let has_tail = 0 < s.fade_out.bits <= 0x7f80_0000;
            let ends = s.loop_mode is OneShot || s.loop_mode is Looped;
            &&& has_time && c.elapsed.less(s.fade_in) ==> r->0.fade_in
            &&& c.elapsed.at_least(s.fade_in) ==> !r->0.fade_in
            &&& !has_time ==> !r->0.fade_in
            &&& ends && has_tail && c.elapsed.at_least(c.tail) ==> r->0.tail
            &&& !ends ==> !r->0.tail
            &&& !has_tail ==> !r->0.tail
            &&& c.elapsed.less(c.tail) ==> !r->0.tail
            &&& r->0.stopping <==> s.stopping is Some
        }),
{
}

/// A show is over when it holds nothing, has run up to its end or has faded
/// out after a stop, and not before.
pub proof fn a_show_is_over_at_its_end(
    show: &mut ActiveShow,
    c: &ShowClock,
    finished: &mut Vec<Qid>,
    r: Option<Envelope>,
)
    requires
        call_ensures(ActiveShow::eval, (show, c, finished), r),
    ensures
        ({
            let s = *old(show);
            let events = player_events(s.player);
            let empty = events.len() == 0 || events.last().t_ms == 0;
            let ends = s.loop_mode is OneShot || s.loop_mode is Looped;
            &&& empty ==> r is None
            &&& ends && c.elapsed.at_least(c.end) ==> r is None
            &&& s.stopping is Some && c.stop_elapsed.at_least((s.stopping->0).1) ==> r is None
            &&& !empty && !(ends && c.elapsed.at_least(c.end)) && !(s.stopping is Some
                && c.stop_elapsed.at_least((s.stopping->0).1)) ==> r is Some
        }),
{
}

/// The end of a show is told of exactly once: when it is first known, which for
/// one that holds its last frame is when it got there.
pub proof fn the_end_of_a_show_is_told_once(
    show: &mut ActiveShow,
    again: &mut ActiveShow,
    c: &ShowClock,
    d: &ShowClock,
    finished: &mut Vec<Qid>,
    more: &mut Vec<Qid>,
    r: Option<Envelope>,
    q: Option<Envelope>,
)
    requires
        call_ensures(ActiveShow::eval, (show, c, finished), r),
        *old(again) == *final(show),
        call_ensures(ActiveShow::eval, (again, d, more), q),
    ensures
        ({
            let s = *old(show);
            let events = player_events(s.player);
            let got_there = s.loop_mode is HoldLast && events.len() > 0 && c.elapsed_ms
                >= events.last().t_ms;
            let known = r is None || got_there;
            &&& known ==> final(show).finished_reported
            &&& known && !s.finished_reported ==> final(finished)@ == old(finished)@.push(s.qid)
            &&& known && s.finished_reported ==> final(finished)@ == old(finished)@
            &&& !known ==> final(finished)@ == old(finished)@ && final(show).finished_reported
                == s.finished_reported
            &&& known ==> final(more)@ == old(more)@
        }),
{
}

/// Looking at a show moves its playhead alone: with the time up to the last
/// event where the show plays once or holds, and round and round where it
/// loops.
pub proof fn a_show_plays_along(
    show: &mut ActiveShow,
    c: &ShowClock,
    finished: &mut Vec<Qid>,
    r: Option<Envelope>,
)
    requires
        call_ensures(ActiveShow::eval, (show, c, finished), r),
    ensures
        ({
            let s = *old(show);
            let t = *final(show);
            let events = player_events(s.player);
            let length = events.last().t_ms;
            let at = player_position(t.player);
            &&& player_events(t.player) == events
            &&& t.qid == s.qid
            &&& t.started == s.started
            &&& t.priority == s.priority
            &&& t.loop_mode == s.loop_mode
            &&& t.loop_count == s.loop_count
            &&& t.fade_in == s.fade_in
            &&& t.fade_out == s.fade_out
            &&& t.fade_type == s.fade_type
            &&& t.stopping == s.stopping
            &&& events.len() > 0 && length > 0 ==> {
                &&& s.loop_mode is OneShot || s.loop_mode is HoldLast ==> (if c.elapsed_ms
                    < length {
                    at == c.elapsed_ms
                } else {
                    at == length
                })
                &&& s.loop_mode is LoopedInfinite ==> at == c.elapsed_ms % (length as u64)
                &&& s.loop_mode is Looped && s.loop_count > 1 ==> (if c.elapsed_ms < length
                    * s.loop_count {
                    at == c.elapsed_ms % (length as u64)
                } else {
                    at == length
                })
                &&& s.loop_mode is Looped && s.loop_count <= 1 ==> (if c.elapsed_ms < length {
                    at == c.elapsed_ms
                } else {
                    at == length
                })
            }
        }),
{
    let s = *old(show);
    let events = player_events(s.player);
    if events.len() > 0 && events.last().t_ms > 0 {
        let length = events.last().t_ms as int;
        if s.loop_mode is Looped && s.loop_count <= 1 && c.elapsed_ms < length {
            vstd::arithmetic::div_mod::lemma_small_mod(c.elapsed_ms as nat, length as nat);
        }
    }
}

/// A show that plays once ends at its last event, one that loops a number of
/// times after as many lengths, and the others have no end of their own.
pub proof fn shows_end_after_their_loops(show: &ActiveShow, r: Option<u64>)
    requires
        call_ensures(ActiveShow::end_ms, (show,), r),
        player_events(show.player).len() > 0,
    ensures
        ({
            let length = player_events(show.player).last().t_ms;
            &&& show.loop_mode is OneShot ==> r == Some(length as u64)
            &&& show.loop_mode is HoldLast ==> r is None
            &&& show.loop_mode is LoopedInfinite ==> r is None
            &&& show.loop_mode is Looped && show.loop_count >= 1 ==> r is Some && r->0 == length
                * show.loop_count
            &&& show.loop_mode is Looped && show.loop_count < 1 ==> r == Some(length as u64)
        }),
{
    let length = player_events(show.player).last().t_ms as int;
    assert(length * 1 == length);
}

/// Every show is looked at by its own clock, in order; one that is not over
/// gets an answer and stays.
pub proof fn every_show_is_looked_at(
    engine: &mut LightingEngine,
    clocks: &Vec<ShowClock>,
    r: Vec<Option<Envelope>>,
    i: int,
)
    requires
        clocks@.len() == old(engine)@.shows.len(),
        call_ensures(LightingEngine::advance_shows, (engine, clocks), r),
        0 <= i < clocks@.len(),
    ensures
        ({
            let s = old(engine)@.shows[i];
            let c = clocks@[i];
            let t = final(engine)@.shows[i];
            let ends = s.loop_mode is OneShot || s.loop_mode is Looped;
            let events = player_events(s.player);
            let empty = events.len() == 0 || events.last().t_ms == 0;
            &&& r@.len() == clocks@.len()
            &&& final(engine)@.shows.len() == clocks@.len()
            &&& r@[i] is None <==> empty || (ends && c.elapsed.at_least(c.end)) || (
            s.stopping is Some && c.stop_elapsed.at_least((s.stopping->0).1))
            &&& r@[i] is Some ==> {
                &&& r@[i]->0.stopping == s.stopping is Some
                &&& 0 < s.fade_in.bits <= 0x7f80_0000 && c.elapsed.less(s.fade_in)
                    ==> r@[i]->0.fade_in
                &&& c.elapsed.at_least(s.fade_in) ==> !r@[i]->0.fade_in
            }
            &&& t.qid == s.qid
            &&& t.started == s.started
            &&& t.priority == s.priority
            &&& t.stopping == s.stopping
            &&& r@[i] is None ==> t.finished_reported
            &&& final(engine)@.live == old(engine)@.live
            &&& final(engine)@.fades == old(engine)@.fades
            &&& final(engine)@.overlay == old(engine)@.overlay
            &&& final(engine)@.dirty == old(engine)@.dirty
            &&& r@[i] is None && !s.finished_reported ==> final(engine)@.finished_shows.contains(
                s.qid,
            )
        }),
{
    let shows = old(engine)@.shows;
    assert(shows[i].advanced(clocks@[i], final(engine)@.shows[i]));
    if r@[i] is None && !shows[i].finished_reported {
        lemma_newly_ended(shows, clocks@, i, clocks@.len() as int);
        let n = newly_ended(shows, clocks@, clocks@.len() as int);
        let k = choose|k: int| 0 <= k < n.len() && n[k] == shows[i].qid;
        let before = old(engine)@.finished_shows;
        assert((before + n)[before.len() + k] == shows[i].qid);
    }
}

proof fn lemma_newly_ended(shows: Seq<ActiveShow>, clocks: Seq<ShowClock>, i: int, n: int)
    requires
        0 <= i < n <= shows.len(),
        shows[i].ended(clocks[i]),
        !shows[i].finished_reported,
    ensures
        newly_ended(shows, clocks, n).contains(shows[i].qid),
    decreases n,
{
    let all = newly_ended(shows, clocks, n);
    if i == n - 1 {
        assert(all.last() == shows[i].qid);
    } else {
        lemma_newly_ended(shows, clocks, i, n - 1);
        let before = newly_ended(shows, clocks, n - 1);
        let k = choose|k: int| 0 <= k < before.len() && before[k] == shows[i].qid;
        assert(all[k] == shows[i].qid);
    }
}

/// Once a frame was sent the shows that are over are gone; the others stay, in
/// their order.
pub proof fn shows_that_are_over_are_dropped(
    engine: &mut LightingEngine,
    envelopes: &Vec<Option<Envelope>>,
)
    requires
        envelopes@.len() == old(engine)@.shows.len(),
        call_ensures(LightingEngine::finish_tick, (engine, envelopes), ()),
    ensures
        ({
            let shows = old(engine)@.shows;
            let left = final(engine)@.shows;
            &&& forall|i: int|
                0 <= i < shows.len() && (#[trigger] envelopes@[i]) is Some ==> left.contains(
                    shows[i],
                )
            &&& forall|j: int|
                0 <= j < left.len() ==> stayed(shows, envelopes@, #[trigger] left[j])
            &&& (forall|i: int| 0 <= i < shows.len() ==> (#[trigger] envelopes@[i]) is Some)
                ==> left == shows
            &&& (forall|i: int| 0 <= i < shows.len() ==> (#[trigger] envelopes@[i]) is None)
                ==> left.len() == 0
            &&& !final(engine)@.dirty
            &&& final(engine)@.finished_shows == old(engine)@.finished_shows
            &&& final(engine)@.live == old(engine)@.live
            &&& final(engine)@.fades == old(engine)@.fades
        }),
{
    let shows = old(engine)@.shows;
    lemma_still_playing(shows, envelopes@, envelopes@.len() as int);
    assert(shows.take(envelopes@.len() as int) =~= shows);
}

/// Whether the show is one of those that are not over.
pub open spec fn stayed(
    shows: Seq<ActiveShow>,
    envelopes: Seq<Option<Envelope>>,
    show: ActiveShow,
) -> bool {
    exists|i: int| 0 <= i < shows.len() && (#[trigger] envelopes[i]) is Some && shows[i] == show
}

proof fn lemma_still_playing(shows: Seq<ActiveShow>, envelopes: Seq<Option<Envelope>>, n: int)
    requires
        0 <= n <= shows.len(),
        envelopes.len() == shows.len(),
    ensures
        ({
            let left = still_playing(shows, envelopes, n);
            &&& forall|i: int|
                0 <= i < n && (#[trigger] envelopes[i]) is Some ==> left.contains(shows[i])
            &&& forall|j: int| 0 <= j < left.len() ==> stayed(shows, envelopes, #[trigger] left[j])
            &&& (forall|i: int| 0 <= i < n ==> (#[trigger] envelopes[i]) is Some) ==> left
                == shows.take(n)
            &&& (forall|i: int| 0 <= i < n ==> (#[trigger] envelopes[i]) is None) ==> left.len()
                == 0
        }),
    decreases n,
{
    if n > 0 {
        lemma_still_playing(shows, envelopes, n - 1);
        let before = still_playing(shows, envelopes, n - 1);
        let left = still_playing(shows, envelopes, n);
        assert forall|i: int| 0 <= i < n && (#[trigger] envelopes[i]) is Some implies left.contains(
            shows[i],
        ) by {
            if i < n - 1 {
                assert(before.contains(shows[i]));
                let k = choose|k: int| 0 <= k < before.len() && before[k] == shows[i];
                assert(left[k] == shows[i]);
            } else {
                assert(left.last() == shows[i]);
            }
        }
        assert forall|j: int| 0 <= j < left.len() implies stayed(
            shows,
            envelopes,
            #[trigger] left[j],
        ) by {
            if j < before.len() {
                assert(left[j] == before[j]);
            } else {
                assert(envelopes[n - 1] is Some);
            }
        }
        if forall|i: int| 0 <= i < n ==> (#[trigger] envelopes[i]) is Some {
            assert(envelopes[n - 1] is Some);
            assert(left =~= shows.take(n));
        }
        if forall|i: int| 0 <= i < n ==> (#[trigger] envelopes[i]) is None {
            assert(envelopes[n - 1] is None);
        }
    } else {
        assert(still_playing(shows, envelopes, n) =~= shows.take(n));
    }
}

/// A recorded show that is started plays from its first moment, as it was
/// asked for, after all others; a show that its cue had is gone, and the shows
/// of other cues play on.
pub proof fn a_show_starts_as_asked(
    engine: &mut LightingEngine,
    qid: Qid,
    events: &Vec<RecordedEvent>,
    priority: u8,
    fade_in: Single,
    fade_out: Single,
    fade_type: FadeType,
    loop_mode: LoopMode,
    loop_count: i32,
    now: Moment,
)
    requires
        call_ensures(
            LightingEngine::go_show,
            (
                engine,
                qid,
                events,
                priority,
                fade_in,
                fade_out,
                fade_type,
                loop_mode,
                loop_count,
                now,
            ),
            (),
        ),
    ensures
        ({
            let before = old(engine)@.shows;
            let after = final(engine)@.shows;
            let s = after.last();
            &&& after.len() > 0
            &&& s.qid == qid
            &&& player_events(s.player) == events@
            &&& player_position(s.player) == 0
            &&& s.started == now
            &&& s.priority == priority
            &&& s.fade_in == fade_in
            &&& s.fade_out == fade_out
            &&& s.fade_type == fade_type
            &&& s.loop_mode == loop_mode
            &&& s.loop_count == loop_count
            &&& s.stopping is None
            &&& !s.finished_reported
            &&& final(engine)@.dirty
            &&& forall|j: int|
                0 <= j < after.len() - 1 ==> (#[trigger] after[j]).qid@ != qid@ && before.contains(
                    after[j],
                )
            &&& forall|i: int|
                0 <= i < before.len() && (#[trigger] before[i]).qid@ != qid@ ==> after.contains(
                    before[i],
                )
            &&& (forall|i: int| 0 <= i < before.len() ==> (#[trigger] before[i]).qid@ != qid@)
                ==> after.drop_last() == before
            &&& final(engine)@.live == old(engine)@.live
            &&& final(engine)@.fades == old(engine)@.fades
            &&& final(engine)@.finished_shows == old(engine)@.finished_shows
        }),
{
    let before = old(engine)@.shows;
    let after = final(engine)@.shows;
    lemma_without_show(before, qid@);
    let rest = after.drop_last();
    assert forall|j: int| 0 <= j < after.len() - 1 implies (#[trigger] after[j]).qid@ != qid@
        && before.contains(after[j]) by {
        assert(after[j] == rest[j]);
    }
    assert forall|i: int|
        0 <= i < before.len() && (#[trigger] before[i]).qid@ != qid@ implies after.contains(
        before[i],
    ) by {
        assert(rest.contains(before[i]));
        let k = choose|k: int| 0 <= k < rest.len() && rest[k] == before[i];
        assert(after[k] == before[i]);
    }
}

pub(crate) proof fn lemma_without_show(shows: Seq<ActiveShow>, id: (int, nat))
    ensures
        ({
            let rest = without_show(shows, id);
            &&& forall|j: int|
                0 <= j < rest.len() ==> (#[trigger] rest[j]).qid@ != id && shows.contains(rest[j])
            &&& forall|i: int|
                0 <= i < shows.len() && (#[trigger] shows[i]).qid@ != id ==> rest.contains(shows[i])
            &&& (forall|i: int| 0 <= i < shows.len() ==> (#[trigger] shows[i]).qid@ != id) ==> rest
                == shows
        }),
    decreases shows.len(),
{
    if shows.len() > 0 {
        let init = shows.drop_last();
        lemma_without_show(init, id);
        let before = without_show(init, id);
        let rest = without_show(shows, id);
        let n = shows.len() - 1;
        assert forall|j: int| 0 <= j < rest.len() implies (#[trigger] rest[j]).qid@ != id
            && shows.contains(rest[j]) by {
            if j < before.len() {
                assert(rest[j] == before[j]);
                assert(init.contains(before[j]));
                let k = choose|k: int| 0 <= k < init.len() && init[k] == before[j];
                assert(shows[k] == rest[j]);
            } else {
                assert(shows[n] == rest[j]);
            }
        }
        assert forall|i: int| 0 <= i < shows.len() && (#[trigger] shows[i]).qid@
            != id implies rest.contains(shows[i]) by {
            if i < n {
                assert(init[i] == shows[i]);
                assert(before.contains(init[i]));
                let k = choose|k: int| 0 <= k < before.len() && before[k] == init[i];
                assert(rest[k] == shows[i]);
            } else {
                assert(rest.last() == shows[i]);
            }
        }
        if forall|i: int| 0 <= i < shows.len() ==> (#[trigger] shows[i]).qid@ != id {
            assert forall|i: int| 0 <= i < init.len() implies (#[trigger] init[i]).qid@ != id by {
                assert(init[i] == shows[i]);
            }
            assert(shows[n].qid@ != id);
            assert(rest =~= shows);
        }
    } else {
        assert(without_show(shows, id) =~= shows);
    }
}

/// Stopping a cue's show starts its fade out now, unless one is under way, and
/// ends it at once where no time is given; no other show is touched, and
/// without such a show nothing changes.
pub proof fn a_stop_fades_the_show_out(
    engine: &mut LightingEngine,
    qid: Qid,
    fade_out_time: Single,
    fade_type: FadeType,
    now: Moment,
    b: bool,
    k: int,
)
    requires
        call_ensures(LightingEngine::stop_show, (engine, qid, fade_out_time, fade_type, now), b),
        0 <= k < old(engine)@.shows.len(),
        old(engine)@.shows[k].qid@ == qid@,
        forall|i: int| 0 <= i < k ==> (#[trigger] old(engine)@.shows[i]).qid@ != qid@,
    ensures
        ({
            let before = old(engine)@.shows;
            let after = final(engine)@.shows;
            let s = before[k];
            let t = after[k];
            let timed = 0 < fade_out_time.bits <= 0x7f80_0000;
            &&& b
            &&& final(engine)@.dirty
            &&& after.len() == before.len()
            &&& forall|i: int|
                0 <= i < before.len() && i != k ==> (#[trigger] after[i]) == before[i]
            &&& !timed ==> t.stopping == Some((now, Single { bits: 0 }, fade_type))
            &&& timed && s.stopping is None ==> t.stopping == Some(
                (now, fade_out_time, fade_type),
            )
            &&& timed && s.stopping is Some ==> t.stopping == s.stopping
            &&& t.qid == s.qid
            &&& t.player == s.player
            &&& t.started == s.started
            &&& t.finished_reported == s.finished_reported
            &&& t.fade_in == s.fade_in
            &&& t.loop_mode == s.loop_mode
        }),
{
    lemma_show_position(old(engine)@.shows, qid@, k);
}

pub(crate) proof fn lemma_show_position(shows: Seq<ActiveShow>, id: (int, nat), k: int)
    requires
        0 <= k <= shows.len(),
        k < shows.len() ==> shows[k].qid@ == id,
        forall|i: int| 0 <= i < k ==> (#[trigger] shows[i]).qid@ != id,
    ensures
        show_position(shows, id) == k,
    decreases k,
{
    if k > 0 {
        assert(shows[0].qid@ != id);
        let rest = shows.drop_first();
        assert forall|i: int| 0 <= i < k - 1 implies (#[trigger] rest[i]).qid@ != id by {
            assert(rest[i] == shows[i + 1]);
        }
        lemma_show_position(rest, id, k - 1);
    }
}

/// Stopping the show of a cue that plays none changes nothing.
pub proof fn only_shows_that_play_are_stopped(
    engine: &mut LightingEngine,
    qid: Qid,
    fade_out_time: Single,
    fade_type: FadeType,
    now: Moment,
    b: bool,
)
    requires
        call_ensures(LightingEngine::stop_show, (engine, qid, fade_out_time, fade_type, now), b),
        forall|i: int|
            0 <= i < old(engine)@.shows.len() ==> (#[trigger] old(engine)@.shows[i]).qid@ != qid@,
    ensures
        !b,
        final(engine)@ == old(engine)@,
{
    lemma_show_position(old(engine)@.shows, qid@, old(engine)@.shows.len() as int);
}

/// A cue with a fade time lets each of its fixtures fade from the look it has
/// to the cue's, from now on and for that time; one without puts it there at
/// once.
pub proof fn a_cue_fades_its_fixtures(
    engine: &mut LightingEngine,
    snapshot: &Vec<(u32, FixtureLook)>,
    samples: &Table<FadeSample>,
    rest: FixtureLook,
    fade_time: Single,
    fade_type: FadeType,
    now: Moment,
    k: int,
)
    requires
        all_sampled(old(engine)@.fades, samples@),
        call_ensures(
            LightingEngine::go,
            (engine, snapshot, samples, rest, fade_time, fade_type, now),
            (),
        ),
        0 <= k < snapshot@.len(),
        forall|i: int|
            0 <= i < snapshot@.len() && i != k ==> (#[trigger] snapshot@[i]).0 != snapshot@[k].0,
    ensures
        ({
            let d = old(engine)@;
            let e = final(engine)@;
            let (id, look) = snapshot@[k];
            let timed = 0 < fade_time.bits <= 0x7f80_0000;
            let had = if d.fades.contains_key(id) {
                if samples@[id].elapsed.at_least(d.fades[id].duration) {
                    d.fades[id].to
                } else {
                    samples@[id].look
                }
            } else if d.live.contains_key(id) {
                d.live[id]
            } else {
                rest
            };
            &&& e.dirty
            &&& !timed ==> e.live.contains_key(id) && e.live[id] == look && !e.fades.contains_key(
                id,
            )
            &&& timed ==> {
                &&& e.fades.contains_key(id)
                &&& e.fades[id].start == now
                &&& e.fades[id].duration == fade_time
                &&& e.fades[id].fade_type == fade_type
                &&& e.fades[id].from == had
                &&& e.fades[id].to == look
            }
            &&& e.shows == d.shows
            &&& e.overlay == d.overlay
            &&& e.finished_shows == d.finished_shows
        }),
{
    let b = old(engine)@.evaluated(samples@);
    lemma_fixture_set(
        b,
        snapshot@,
        b.live,
        rest,
        fade_time,
        fade_type,
        now,
        k,
        snapshot@.len() as int,
    );
}

proof fn lemma_fixture_set(
    e: LightingView,
    snapshot: Seq<(u32, FixtureLook)>,
    from: Map<u32, FixtureLook>,
    rest: FixtureLook,
    fade_time: Single,
    fade_type: FadeType,
    now: Moment,
    k: int,
    n: int,
)
    requires
        0 <= n <= snapshot.len(),
        0 <= k < snapshot.len(),
        forall|i: int|
            0 <= i < snapshot.len() && i != k ==> (#[trigger] snapshot[i]).0 != snapshot[k].0,
    ensures
        ({
            let after = e.fixtures_set(snapshot, from, rest, fade_time, fade_type, now, n);
            let (id, look) = snapshot[k];
            &&& after.shows == e.shows
            &&& after.overlay == e.overlay
            &&& after.finished_shows == e.finished_shows
            &&& k < n && !fade_time.positive() ==> after.live.contains_key(id) && after.live[id]
                == look && !after.fades.contains_key(id)
            &&& k < n && fade_time.positive() ==> after.fades.contains_key(id) && after.fades[id]
                == (ActiveFade {
                start: now,
                duration: fade_time,
                fade_type,
                from: if from.contains_key(id) {
                    from[id]
                } else {
                    rest
                },
                to: look,
            })
        }),
    decreases n,
{
    if n > 0 {
        lemma_fixture_set(e, snapshot, from, rest, fade_time, fade_type, now, k, n - 1);
        if n - 1 != k {
            assert(snapshot[n - 1].0 != snapshot[k].0);
        }
    }
}

/// A fixture that a cue does not name keeps the look it has and the fade it is
/// in.
pub proof fn a_cue_leaves_the_others_alone(
    engine: &mut LightingEngine,
    snapshot: &Vec<(u32, FixtureLook)>,
    samples: &Table<FadeSample>,
    rest: FixtureLook,
    fade_time: Single,
    fade_type: FadeType,
    now: Moment,
    id: u32,
)
    requires
        all_sampled(old(engine)@.fades, samples@),
        call_ensures(
            LightingEngine::go,
            (engine, snapshot, samples, rest, fade_time, fade_type, now),
            (),
        ),
        forall|i: int| 0 <= i < snapshot@.len() ==> (#[trigger] snapshot@[i]).0 != id,
    ensures
        ({
            let d = old(engine)@;
            let e = final(engine)@;
            let over = samples@[id].elapsed.at_least(d.fades[id].duration);
            &&& !d.fades.contains_key(id) ==> !e.fades.contains_key(id) && e.live.contains_key(id)
                == d.live.contains_key(id) && (d.live.contains_key(id) ==> e.live[id]
                == d.live[id])
            &&& d.fades.contains_key(id) && !over ==> e.fades.contains_key(id) && e.fades[id]
                == d.fades[id]
            &&& d.fades.contains_key(id) && over ==> !e.fades.contains_key(id)
                && e.live.contains_key(id) && e.live[id] == d.fades[id].to
        }),
{
    cues_leave_other_fixtures_alone(
        old(engine)@,
        snapshot@,
        samples@,
        rest,
        fade_time,
        fade_type,
        now,
        id,
    );
}

/// Fades that are sampled put their looks among the live ones; those that ran
/// for their time are at their targets and gone.
pub proof fn fades_run_for_their_time(
    engine: &mut LightingEngine,
    samples: &Table<FadeSample>,
    id: u32,
)
    requires
        all_sampled(old(engine)@.fades, samples@),
        call_ensures(LightingEngine::evaluate, (engine, samples), ()),
    ensures
        ({
            let d = old(engine)@;
            let e = final(engine)@;
            let over = samples@[id].elapsed.at_least(d.fades[id].duration);
            &&& d.fades.contains_key(id) ==> {
                &&& e.live.contains_key(id)
                &&& over ==> e.live[id] == d.fades[id].to && !e.fades.contains_key(id)
                &&& !over ==> e.live[id] == samples@[id].look && e.fades.contains_key(id)
                    && e.fades[id] == d.fades[id]
            }
            &&& !d.fades.contains_key(id) ==> !e.fades.contains_key(id) && e.live.contains_key(id)
                == d.live.contains_key(id) && (d.live.contains_key(id) ==> e.live[id]
                == d.live[id])
            &&& e.shows == d.shows
            &&& e.overlay == d.overlay
            &&& e.dirty == d.dirty
        }),
{
}

/// Ending the fades leaves every fixture at the look it has.
pub proof fn stopped_fades_hold_their_looks(
    engine: &mut LightingEngine,
    samples: &Table<FadeSample>,
    id: u32,
)
    requires
        all_sampled(old(engine)@.fades, samples@),
        call_ensures(LightingEngine::stop_fade, (engine, samples), ()),
    ensures
        ({
            let d = old(engine)@;
            let e = final(engine)@;
            &&& !e.fades.contains_key(id)
            &&& d.fades.contains_key(id) ==> {
                &&& e.dirty
                &&& e.live.contains_key(id)
                &&& e.live[id] == (if samples@[id].elapsed.at_least(d.fades[id].duration) {
                    d.fades[id].to
                } else {
                    samples@[id].look
                })
            }
            &&& !d.fades.contains_key(id) ==> e.live.contains_key(id) == d.live.contains_key(id)
                && (d.live.contains_key(id) ==> e.live[id] == d.live[id])
            &&& e.shows == d.shows
        }),
{
    let d = old(engine)@;
    if d.fades.contains_key(id) {
        assert(d.fades.dom().contains(id));
    }
}

/// The engine is active while anything fades, plays or lies over the shows.
pub proof fn an_engine_rests_when_nothing_moves(engine: &LightingEngine, b: bool, id: u32)
    requires
        call_ensures(LightingEngine::is_active, (engine,), b),
    ensures
        engine@.fades.contains_key(id) ==> b,
        engine@.shows.len() > 0 ==> b,
        engine@.overlay is Some ==> b,
        (forall|k: u32| !(#[trigger] engine@.fades.contains_key(k))) && engine@.shows.len() == 0
            && engine@.overlay is None ==> !b,
{
    if engine@.fades.contains_key(id) {
        assert(engine@.fades.dom().contains(id));
    }
    if forall|k: u32| !(#[trigger] engine@.fades.contains_key(k)) {
        assert(engine@.fades.dom() =~= Set::<u32>::empty()) by {
            assert forall|k: u32| !(#[trigger] engine@.fades.dom().contains(k)) by {
                assert(!engine@.fades.contains_key(k));
            }
        }
    }
}

/// The cues of the shows that play come in the order of the shows.
pub proof fn playing_cues_come_in_order(engine: &LightingEngine, r: Vec<Qid>)
    requires
        call_ensures(LightingEngine::active_show_qids, (engine,), r),
    ensures
        r@.len() == engine@.shows.len(),
        forall|i: int| 0 <= i < r@.len() ==> (#[trigger] r@[i]) == engine@.shows[i].qid,
{
}

/// Shows that ended are handed out once.
pub proof fn finished_shows_are_handed_out_once(
    engine: &mut LightingEngine,
    again: &mut LightingEngine,
    r: Vec<Qid>,
    s: Vec<Qid>,
)
    requires
        call_ensures(LightingEngine::take_finished_shows, (engine,), r),
        old(again)@ == final(engine)@,
        call_ensures(LightingEngine::take_finished_shows, (again,), s),
    ensures
        r@ == old(engine)@.finished_shows,
        s@.len() == 0,
        final(again)@.shows == old(engine)@.shows,
        final(again)@.live == old(engine)@.live,
        final(again)@.dirty == old(engine)@.dirty,
{
}

/// Dropping all shows leaves none; the looks and fades stay.
pub proof fn all_shows_can_be_dropped(engine: &mut LightingEngine)
    requires
        call_ensures(LightingEngine::stop_all_shows, (engine,), ()),
    ensures
        final(engine)@.shows.len() == 0,
        old(engine)@.shows.len() > 0 ==> final(engine)@.dirty,
        final(engine)@.live == old(engine)@.live,
        final(engine)@.fades == old(engine)@.fades,
        final(engine)@.overlay == old(engine)@.overlay,
        final(engine)@.finished_shows == old(engine)@.finished_shows,
{
}

/// The overlay and the pixels of a segment are as they were last set, and a
/// frame is owed for each change.
pub proof fn layers_are_as_they_were_set(
    over: &mut LightingEngine,
    set: &mut LightingEngine,
    cleared: &mut LightingEngine,
    overlay: Option<(u8, MaskedFrame)>,
    id: u32,
    other: u32,
    cols: u32,
    rows: u32,
    rgba: Vec<u8>,
)
    requires
        call_ensures(LightingEngine::set_overlay, (over, overlay), ()),
        call_ensures(LightingEngine::set_segment_pixels, (set, id, cols, rows, rgba), ()),
        call_ensures(LightingEngine::clear_segment_pixels, (cleared, id), ()),
        other != id,
    ensures
        final(over)@.overlay == overlay,
        overlay is Some || old(over)@.overlay is Some ==> final(over)@.dirty,
        overlay is None && old(over)@.overlay is None ==> final(over)@.dirty == old(over)@.dirty,
        final(over)@.shows == old(over)@.shows,
        final(set)@.segment_pixels.contains_key(id),
        final(set)@.segment_pixels[id] == (cols, rows, rgba),
        final(set)@.dirty,
        ({
            let was = old(set)@.segment_pixels;
            let now = final(set)@.segment_pixels;
            &&& now.contains_key(other) == was.contains_key(other)
            &&& was.contains_key(other) ==> now[other] == was[other]
        }),
        !final(cleared)@.segment_pixels.contains_key(id),
        old(cleared)@.segment_pixels.contains_key(id) ==> final(cleared)@.dirty,
        ({
            let was = old(cleared)@.segment_pixels;
            let left = final(cleared)@.segment_pixels;
            &&& left.contains_key(other) == was.contains_key(other)
            &&& was.contains_key(other) ==> left[other] == was[other]
        }),
{
}

/// An engine begins, and is left after a shutdown, with nothing on it.
pub proof fn a_shutdown_leaves_nothing(engine: &mut LightingEngine, fresh: LightingEngine, id: u32)
    requires
        call_ensures(LightingEngine::shutdown, (engine,), ()),
        call_ensures(LightingEngine::new, (), fresh),
    ensures
        !final(engine)@.live.contains_key(id) && !fresh@.live.contains_key(id),
        !final(engine)@.fades.contains_key(id) && !fresh@.fades.contains_key(id),
        !final(engine)@.segment_pixels.contains_key(id) && !fresh@.segment_pixels.contains_key(id),
        final(engine)@.shows.len() == 0 && fresh@.shows.len() == 0,
        final(engine)@.finished_shows.len() == 0 && fresh@.finished_shows.len() == 0,
        final(engine)@.senders.len() == 0 && fresh@.senders.len() == 0,
        final(engine)@.overlay is None && fresh@.overlay is None,
        final(engine)@.applied is None && fresh@.applied is None,
        !final(engine)@.dirty && !fresh@.dirty,
{
}

} // verus!
