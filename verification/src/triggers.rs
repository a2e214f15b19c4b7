//! What fires a cue besides the operator: the time of day and the show clock.

use vstd::prelude::*;

use crate::ieee::Double;
use crate::qid::{holds_qid, qids, Qid};
use crate::show::{
    find_cue, position, Cue, CueBase, CueTriggers, RepeatMode, ShowView, TimecodeTrigger,
};
use crate::state::{SharedState, StateView};

verus! {

/// A time of day: whole seconds since midnight, and nanoseconds beyond them.
/// In a leap second the nanoseconds run past a whole second.
#[derive(Clone, Copy, PartialEq, Eq, Structural, Debug)]
pub struct ClockTime {
    pub secs: u32,
    pub nanos: u32,
}

impl ClockTime {
    pub open spec fn valid(self) -> bool {
        &&& self.secs < 86_400
        &&& self.nanos < 2_000_000_000
        &&& self.nanos >= 1_000_000_000 ==> self.secs % 60 == 59
    }
}

pub open spec fn clock_parts(t: Option<ClockTime>) -> Option<(u32, u32)> {
    match t {
        Some(t) => Some((t.secs, t.nanos)),
        None => None,
    }
}

/// What a text reads as in a time format: seconds and nanoseconds.
pub uninterp spec fn parsed_time(text: Seq<char>, format: Seq<char>) -> Option<(u32, u32)>;

/// Reads a time of day with `chrono::NaiveTime::parse_from_str`. The outcome is
/// a function of the text and the format, and a time that was read is a time
/// of day. Which texts a format admits is not stated.
#[verifier::external_body]
fn read_time(text: &str, format: &str) -> (r: Option<ClockTime>)
    ensures
        clock_parts(r) == parsed_time(text@, format@),
        r matches Some(t) ==> t.valid(),
{
    let t = chrono::NaiveTime::parse_from_str(text, format).ok()?;
    Some(
        ClockTime {
            secs: chrono::Timelike::num_seconds_from_midnight(&t),
            nanos: chrono::Timelike::nanosecond(&t),
        },
    )
}

/// The nanoseconds from `b` to `a`, counting a leap second that lies between
/// them.
pub open spec fn nanos_between(a: ClockTime, b: ClockTime) -> int {
    let leap: int = if a.secs > b.secs && b.nanos >= 1_000_000_000 {
        1
    } else if a.secs < b.secs && a.nanos >= 1_000_000_000 {
        -1
    } else {
        0
    };
    (a.secs - b.secs + leap) * 1_000_000_000 + (a.nanos - b.nanos)
}

/// The whole seconds in a time span, of either sign.
pub open spec fn whole_seconds(nanos: int) -> int {
    if nanos >= 0 {
        nanos / 1_000_000_000
    } else {
        -((-nanos) / 1_000_000_000)
    }
}

/// The seconds from `b` to `a`, by `chrono::NaiveTime::signed_duration_since`
/// and `TimeDelta::num_seconds`: the distance in nanoseconds, cut to whole
/// seconds toward zero.
#[verifier::external_body]
fn seconds_between(a: ClockTime, b: ClockTime) -> (r: i64)
    requires
        a.valid(),
        b.valid(),
    ensures
        r == whole_seconds(nanos_between(a, b)),
{
    let a = chrono::NaiveTime::from_num_seconds_from_midnight_opt(a.secs, a.nanos).unwrap();
    let b = chrono::NaiveTime::from_num_seconds_from_midnight_opt(b.secs, b.nanos).unwrap();
    a.signed_duration_since(b).num_seconds()
}

/// The last target a wall-clock trigger fired for.
#[derive(Clone, Copy, Debug)]
pub struct ClockFired {
    pub qid: Qid,
    /// The day, by number.
    pub date: i32,
    pub target: ClockTime,
}

/// The last firing on record for a cue.
pub open spec fn last_fired(fired: Seq<ClockFired>, id: (int, nat)) -> Option<(i32, ClockTime)>
    decreases fired.len(),
{
    if fired.len() == 0 {
        None
    } else if fired.last().qid@ == id {
        Some((fired.last().date, fired.last().target))
    } else {
        last_fired(fired.drop_last(), id)
    }
}

fn last_fired_of(fired: &Vec<ClockFired>, id: &Qid) -> (r: Option<(i32, ClockTime)>)
    ensures
        r == last_fired(fired@, id@),
{
    let mut i: usize = fired.len();
    assert(fired@.take(i as int) =~= fired@);
    while i > 0
        invariant
            i <= fired@.len(),
            last_fired(fired@, id@) == last_fired(fired@.take(i as int), id@),
        decreases i,
    {
        proof {
            assert(fired@.take(i as int).drop_last() =~= fired@.take(i - 1));
            assert(fired@.take(i as int).last() == fired@[i - 1]);
        }
        if fired[i - 1].qid.same(id) {
            return Some((fired[i - 1].date, fired[i - 1].target));
        }
        i = i - 1;
    }
    None
}

/// Whether a trigger with this target, read from its text, is due: the clock is
/// less than two seconds from the target, and the trigger has not fired for
/// that target today, or at all where it counts once.
pub open spec fn target_due(
    target: ClockTime,
    repeat: RepeatMode,
    today: i32,
    now: ClockTime,
    last: Option<(i32, ClockTime)>,
) -> bool {
    let distance = whole_seconds(nanos_between(now, target));
    &&& -1 <= distance <= 1
    &&& match last {
        Some((date, at)) => repeat != RepeatMode::Once && !(date == today && at == target),
        None => true,
    }
}

/// Whether a trigger is due, once its target was read.
pub fn wall_clock_due(
    target: ClockTime,
    repeat: RepeatMode,
    today: i32,
    now: ClockTime,
    last: Option<(i32, ClockTime)>,
) -> (b: bool)
    requires
        target.valid(),
        now.valid(),
    ensures
        b == target_due(target, repeat, today, now, last),
{
    let distance: i64 = seconds_between(now, target);
    if distance > 1 || distance < -1 {
        return false;
    }
    match last {
        Some((date, at)) => {
            repeat != RepeatMode::Once && !(date == today && at == target)
        },
        None => true,
    }
}

/// The time of day a text stands for: in 24 hours, else in 12.
pub open spec fn clock_target(text: Seq<char>) -> Option<(u32, u32)> {
    match parsed_time(text, "%H:%M:%S"@) {
        Some(t) => Some(t),
        None => parsed_time(text, "%I:%M:%S %p"@),
    }
}

fn clock_target_of(text: &str) -> (r: Option<ClockTime>)
    ensures
        clock_parts(r) == clock_target(text@),
        r matches Some(t) ==> t.valid(),
{
    match read_time(text, "%H:%M:%S") {
        Some(t) => Some(t),
        None => read_time(text, "%I:%M:%S %p"),
    }
}

/// The target for which a cue's wall-clock trigger is due.
pub open spec fn cue_clock_due(
    cue: Cue,
    today: i32,
    now: ClockTime,
    fired: Seq<ClockFired>,
) -> Option<ClockTime> {
    if !cue.base.enabled {
        None
    } else {
        match cue.base.triggers.wall_clock {
            Some(trigger) => match clock_target(trigger.time@) {
                Some(p) => {
                    let target = ClockTime { secs: p.0, nanos: p.1 };
                    if target_due(
                        target,
                        trigger.repeat,
                        today,
                        now,
                        last_fired(fired, cue.base.qid@),
                    ) {
                        Some(target)
                    } else {
                        None
                    }
                },
                None => None,
            },
            None => None,
        }
    }
}

/// A wall-clock trigger that is due: the cue, the target, and how the target
/// was written.
#[derive(Debug)]
pub struct DueClock {
    pub qid: Qid,
    pub target: ClockTime,
    pub text: String,
}

/// The due triggers of the first `n` cues: which cue, and for which target.
pub open spec fn clocks_due(
    cues: Seq<Cue>,
    today: i32,
    now: ClockTime,
    fired: Seq<ClockFired>,
    n: int,
) -> Seq<(int, ClockTime)>
    decreases n,
{
    if n <= 0 {
        Seq::empty()
    } else {
        let before = clocks_due(cues, today, now, fired, n - 1);
        match cue_clock_due(cues[n - 1], today, now, fired) {
            Some(target) => before.push((n - 1, target)),
            None => before,
        }
    }
}

/// Whether `entry` says that the trigger of `cue` is due for `target`.
pub open spec fn tells(entry: DueClock, cue: Cue, target: ClockTime) -> bool {
    &&& entry.qid == cue.base.qid
    &&& entry.target == target
    &&& cue.base.triggers.wall_clock is Some
    &&& entry.text@ == cue.base.triggers.wall_clock->0.time@
}

/// Whether `r` lists these due triggers.
pub open spec fn lists_due(r: Seq<DueClock>, due: Seq<(int, ClockTime)>, cues: Seq<Cue>) -> bool {
    &&& r.len() == due.len()
    &&& forall|k: int| 0 <= k < r.len() ==> tells(#[trigger] r[k], cues[due[k].0], due[k].1)
}

/// The wall-clock triggers due now, in the order of their cues.
pub fn due_wall_clock_cues(
    cues: &Vec<Cue>,
    today: i32,
    now: ClockTime,
    fired: &Vec<ClockFired>,
) -> (r: Vec<DueClock>)
    requires
        now.valid(),
    ensures
        lists_due(r@, clocks_due(cues@, today, now, fired@, cues@.len() as int), cues@),
{
    let mut r: Vec<DueClock> = Vec::new();
    let mut i: usize = 0;
    while i < cues.len()
        invariant
            now.valid(),
            i <= cues@.len(),
            lists_due(r@, clocks_due(cues@, today, now, fired@, i as int), cues@),
        decreases cues@.len() - i,
    {
        let ghost due = clocks_due(cues@, today, now, fired@, i as int);
        let ghost before = r@;
        let cue: &Cue = &cues[i];
        assert(clocks_due(cues@, today, now, fired@, i + 1) == match cue_clock_due(
            *cue,
            today,
            now,
            fired@,
        ) {
            Some(target) => due.push((i as int, target)),
            None => due,
        });
        if cue.base.enabled {
            match &cue.base.triggers.wall_clock {
                Some(trigger) => match clock_target_of(trigger.time.as_str()) {
                    Some(target) => {
                        assert(ClockTime { secs: target.secs, nanos: target.nanos } == target);
                        let last: Option<(i32, ClockTime)> = last_fired_of(fired, &cue.base.qid);
                        if wall_clock_due(target, trigger.repeat, today, now, last) {
                            assert(cue_clock_due(*cue, today, now, fired@) == Some(target));
                            r.push(
                                DueClock {
                                    qid: cue.base.qid,
                                    target,
                                    text: trigger.time.clone(),
                                },
                            );
                            proof {
                                let all = due.push((i as int, target));
                                assert forall|k: int| 0 <= k < r@.len() implies tells(
                                    #[trigger] r@[k],
                                    cues@[all[k].0],
                                    all[k].1,
                                ) by {
                                    if k < before.len() {
                                        assert(r@[k] == before[k]);
                                    }
                                }
                            }
                        }
                    },
                    None => {},
                },
                None => {},
            }
        }
        i = i + 1;
    }
    r
}

/// Note that a trigger fired for a target.
pub fn note_clock_fired(fired: &mut Vec<ClockFired>, qid: Qid, date: i32, target: ClockTime)
    ensures
        last_fired(final(fired)@, qid@) == Some((date, target)),
        forall|id: (int, nat)|
            id != qid@ ==> #[trigger] last_fired(final(fired)@, id) == last_fired(old(fired)@, id),
{
    let ghost before = fired@;
    let entry: ClockFired = ClockFired { qid, date, target };
    fired.push(entry);
    assert(fired@.drop_last() =~= before);
}

/// A trigger that fired for a target does not fire for it again that day,
/// however long the clock stays near.
pub proof fn a_target_fires_once_a_day(
    target: ClockTime,
    repeat: RepeatMode,
    today: i32,
    now: ClockTime,
)
    ensures
        !target_due(target, repeat, today, now, Some((today, target))),
{
}

/// A trigger that counts once never fires again.
pub proof fn a_once_trigger_never_fires_again(
    target: ClockTime,
    today: i32,
    now: ClockTime,
    last: (i32, ClockTime),
)
    ensures
        !target_due(target, RepeatMode::Once, today, now, Some(last)),
{
}

/// A daily trigger fires again on another day, when the clock is at its target.
pub proof fn a_daily_trigger_fires_every_day(
    target: ClockTime,
    today: i32,
    last: (i32, ClockTime),
)
    requires
        last.0 != today,
    ensures
        target_due(target, RepeatMode::Daily, today, target, Some(last)),
{
}

/// Whether the show clock is at or past the timecode trigger of cue `id`.
pub open spec fn still_passed(cues: Seq<Cue>, id: (int, nat), elapsed: Double) -> bool {
    exists|i: int|
        0 <= i < cues.len() && (#[trigger] cues[i]).base.qid@ == id
            && cues[i].base.triggers.timecode is Some && elapsed.at_least(
            cues[i].base.triggers.timecode->0.time,
        )
}

/// The fired triggers that stay latched.
pub open spec fn still_latched(fired: Seq<Qid>, cues: Seq<Cue>, elapsed: Double) -> Seq<Qid>
    decreases fired.len(),
{
    if fired.len() == 0 {
        Seq::empty()
    } else {
        let before = still_latched(fired.drop_last(), cues, elapsed);
        if still_passed(cues, fired.last()@, elapsed) {
            before.push(fired.last())
        } else {
            before
        }
    }
}

fn passed(cues: &Vec<Cue>, id: &Qid, elapsed: Double) -> (b: bool)
    ensures
        b == still_passed(cues@, id@, elapsed),
{
    let mut i: usize = 0;
    while i < cues.len()
        invariant
            i <= cues@.len(),
            forall|j: int|
                0 <= j < i ==> !((#[trigger] cues@[j]).base.qid@ == id@
                    && cues@[j].base.triggers.timecode is Some && elapsed.at_least(
                    cues@[j].base.triggers.timecode->0.time,
                )),
        decreases cues@.len() - i,
    {
        if cues[i].base.qid.same(id) {
            match &cues[i].base.triggers.timecode {
                Some(trigger) => {
                    if elapsed.ge(trigger.time) {
                        assert(cues@[i as int].base.qid@ == id@);
                        return true;
                    }
                },
                None => {},
            }
        }
        i = i + 1;
    }
    false
}

/// A fired trigger stays latched only while the show clock is at or past its
/// time. Rewinding before it arms it again; a trigger whose cue is gone drops
/// out.
pub fn unlatch_rewound_timecode_triggers(fired: &mut Vec<Qid>, cues: &Vec<Cue>, elapsed: Double)
    ensures
        final(fired)@ == still_latched(old(fired)@, cues@, elapsed),
{
    let ghost all = fired@;
    let mut kept: Vec<Qid> = Vec::new();
    let mut i: usize = 0;
    assert(all.take(0) =~= Seq::<Qid>::empty());
    while i < fired.len()
        invariant
            fired@ == all,
            i <= all.len(),
            kept@ == still_latched(all.take(i as int), cues@, elapsed),
        decreases all.len() - i,
    {
        proof {
            assert(all.take(i + 1).drop_last() =~= all.take(i as int));
            assert(all.take(i + 1).last() == all[i as int]);
        }
        if passed(cues, &fired[i], elapsed) {
            kept.push(fired[i]);
        }
        i = i + 1;
    }
    assert(all.take(i as int) =~= all);
    *fired = kept;
}

proof fn lemma_still_latched(fired: Seq<Qid>, cues: Seq<Cue>, elapsed: Double, id: (int, nat))
    ensures
        qids(still_latched(fired, cues, elapsed)).contains(id) == (qids(fired).contains(id)
            && still_passed(cues, id, elapsed)),
    decreases fired.len(),
{
    if fired.len() > 0 {
        let front = fired.drop_last();
        lemma_still_latched(front, cues, elapsed, id);
        let kept = still_latched(front, cues, elapsed);
        let r = still_latched(fired, cues, elapsed);
        assert(qids(fired) =~= qids(front).push(fired.last()@));
        if still_passed(cues, fired.last()@, elapsed) {
            assert(qids(r) =~= qids(kept).push(fired.last()@));
            if qids(kept).contains(id) {
                let k = choose|k: int| 0 <= k < qids(kept).len() && qids(kept)[k] == id;
                assert(qids(r)[k] == id);
            }
            if fired.last()@ == id {
                assert(qids(r)[kept.len() as int] == id);
            }
        }
        if qids(front).contains(id) {
            let k = choose|k: int| 0 <= k < qids(front).len() && qids(front)[k] == id;
            assert(qids(fired)[k] == id);
        }
        if fired.last()@ == id {
            assert(qids(fired)[front.len() as int] == id);
        }
    }
}

/// A trigger is latched after the update exactly where it was, and the clock
/// is still at or past its time: while it is, it does not fire again; rewound
/// before its time, it is armed.
pub proof fn triggers_rearm_exactly_on_rewind(
    fired: Seq<Qid>,
    cues: Seq<Cue>,
    elapsed: Double,
    id: (int, nat),
)
    ensures
        qids(still_latched(fired, cues, elapsed)).contains(id) <==> qids(fired).contains(id)
            && still_passed(cues, id, elapsed),
{
    lemma_still_latched(fired, cues, elapsed, id);
}

/// Whether a cue's timecode trigger is due.
pub open spec fn timecode_due(cue: Cue, elapsed: Double, fired: Seq<Qid>) -> bool {
    &&& cue.base.enabled
    &&& cue.base.triggers.timecode is Some
    &&& elapsed.at_least(cue.base.triggers.timecode->0.time)
    &&& !qids(fired).contains(cue.base.qid@)
}

/// The due timecode triggers of the first `n` cues.
pub open spec fn timecodes_due(
    cues: Seq<Cue>,
    elapsed: Double,
    fired: Seq<Qid>,
    n: int,
) -> Seq<(Qid, Double)>
    decreases n,
{
    if n <= 0 {
        Seq::empty()
    } else {
        let before = timecodes_due(cues, elapsed, fired, n - 1);
        if timecode_due(cues[n - 1], elapsed, fired) {
            before.push((cues[n - 1].base.qid, cues[n - 1].base.triggers.timecode->0.time))
        } else {
            before
        }
    }
}

/// The timecode triggers due at this show time that have not fired.
pub fn due_timecode_cues(cues: &Vec<Cue>, elapsed: Double, fired: &Vec<Qid>) -> (r: Vec<
    (Qid, Double),
>)
    ensures
        r@ == timecodes_due(cues@, elapsed, fired@, cues@.len() as int),
{
    let mut r: Vec<(Qid, Double)> = Vec::new();
    let mut i: usize = 0;
    while i < cues.len()
        invariant
            i <= cues@.len(),
            r@ == timecodes_due(cues@, elapsed, fired@, i as int),
        decreases cues@.len() - i,
    {
        let cue: &Cue = &cues[i];
        if cue.base.enabled {
            match &cue.base.triggers.timecode {
                Some(trigger) => {
                    if elapsed.ge(trigger.time) && !holds_qid(fired, &cue.base.qid) {
                        r.push((cue.base.qid, trigger.time));
                    }
                },
                None => {},
            }
        }
        i = i + 1;
    }
    r
}

/// Whether a cue's trigger is still to come.
pub open spec fn timecode_ahead(cue: Cue, now: Double, fired: Seq<Qid>) -> bool {
    &&& cue.base.enabled
    &&& !qids(fired).contains(cue.base.qid@)
    &&& cue.base.triggers.timecode is Some
    &&& cue.base.triggers.timecode->0.time.at_least(now)
}

/// The earliest trigger still to come among the first `n` cues; of equal ones
/// the first.
pub open spec fn next_ahead(
    cues: Seq<Cue>,
    now: Double,
    fired: Seq<Qid>,
    n: int,
) -> Option<(Qid, Double)>
    decreases n,
{
    if n <= 0 {
        None
    } else {
        let before = next_ahead(cues, now, fired, n - 1);
        if timecode_ahead(cues[n - 1], now, fired) {
            let t = cues[n - 1].base.triggers.timecode->0.time;
            match before {
                Some(b) => if t.total_rank() < b.1.total_rank() {
                    Some((cues[n - 1].base.qid, t))
                } else {
                    before
                },
                None => Some((cues[n - 1].base.qid, t)),
            }
        } else {
            before
        }
    }
}

/// The next armed trigger is no later than any trigger still to come.
pub proof fn next_trigger_is_the_earliest(
    cues: Seq<Cue>,
    now: Double,
    fired: Seq<Qid>,
    n: int,
    k: int,
)
    requires
        0 <= k < n <= cues.len(),
        timecode_ahead(cues[k], now, fired),
    ensures
        next_ahead(cues, now, fired, n) is Some,
        (next_ahead(cues, now, fired, n)->0).1.total_rank()
            <= cues[k].base.triggers.timecode->0.time.total_rank(),
    decreases n,
{
    if k < n - 1 {
        next_trigger_is_the_earliest(cues, now, fired, n - 1, k);
    }
}

fn next_ahead_of(cues: &Vec<Cue>, now: Double, fired: &Vec<Qid>) -> (r: Option<(Qid, Double)>)
    ensures
        r == next_ahead(cues@, now, fired@, cues@.len() as int),
{
    let mut best: Option<(Qid, Double)> = None;
    let mut i: usize = 0;
    while i < cues.len()
        invariant
            i <= cues@.len(),
            best == next_ahead(cues@, now, fired@, i as int),
        decreases cues@.len() - i,
    {
        let cue: &Cue = &cues[i];
        if cue.base.enabled && !holds_qid(fired, &cue.base.qid) {
            match &cue.base.triggers.timecode {
                Some(trigger) => {
                    if trigger.time.ge(now) {
                        let earlier: bool = match best {
                            Some(b) => trigger.time.before(b.1),
                            None => true,
                        };
                        if earlier {
                            best = Some((cue.base.qid, trigger.time));
                        }
                    }
                },
                None => {},
            }
        }
        i = i + 1;
    }
    best
}

pub open spec fn with_timecode(cue: Cue, time: Double) -> Cue {
    Cue {
        base: CueBase {
            triggers: CueTriggers {
                timecode: Some(TimecodeTrigger { time }),
                ..cue.base.triggers
            },
            ..cue.base
        },
        ..cue
    }
}

/// The state after the show clock was published.
pub open spec fn clock_published(
    s: StateView,
    fired: Seq<Qid>,
    elapsed: Option<Double>,
    paused: bool,
) -> StateView {
    StateView {
        show_time: elapsed,
        show_paused: paused,
        next_timecode: match elapsed {
            Some(now) => next_ahead(
                s.show_file.cues,
                now,
                fired,
                s.show_file.cues.len() as int,
            ),
            None => None,
        },
        ..s
    }
}

/// The state after a requested capture of the show time.
pub open spec fn time_captured(s: StateView, elapsed: Double) -> StateView {
    match s.pending_timecode_capture {
        Some(id) => {
            let cues = s.show_file.cues;
            let i = position(cues, id@) as int;
            if i < cues.len() {
                StateView {
                    show_file: ShowView {
                        cues: cues.update(i, with_timecode(cues[i], elapsed)),
                        ..s.show_file
                    },
                    dirty: true,
                    pending_timecode_capture: None,
                    ..s
                }
            } else {
                StateView { pending_timecode_capture: None, ..s }
            }
        },
        None => s,
    }
}

/// The state, the latch and the triggers that fire after one look at the show
/// clock. While the clock stands still nothing fires; without a clock every
/// trigger is armed again.
pub open spec fn timecode_polled(
    s: StateView,
    fired: Seq<Qid>,
    elapsed: Option<Double>,
    paused: bool,
) -> (StateView, Seq<Qid>, Seq<(Qid, Double)>) {
    let published = clock_published(s, fired, elapsed, paused);
    match elapsed {
        None => (published, Seq::empty(), Seq::empty()),
        Some(now) => {
            let captured = time_captured(published, now);
            let cues = captured.show_file.cues;
            let latched = still_latched(fired, cues, now);
            if paused {
                (captured, latched, Seq::empty())
            } else {
                let due = timecodes_due(cues, now, latched, cues.len() as int);
                (captured, latched + due.map_values(|d: (Qid, Double)| d.0), due)
            }
        },
    }
}

fn publish_clock(
    state: &mut SharedState,
    fired: &Vec<Qid>,
    elapsed: Option<Double>,
    paused: bool,
)
    ensures
        final(state)@ == clock_published(old(state)@, fired@, elapsed, paused),
{
    state.show_time = elapsed;
    state.show_paused = paused;
    state.next_timecode = match elapsed {
        Some(now) => next_ahead_of(&state.show_file.cues, now, fired),
        None => None,
    };
}

fn capture_time(state: &mut SharedState, elapsed: Double)
    ensures
        final(state)@ == time_captured(old(state)@, elapsed),
{
    match state.pending_timecode_capture {
        Some(id) => {
            match find_cue(&state.show_file.cues, &id) {
                Some(i) => {
                    let ghost before = state.show_file.cues@;
                    state.show_file.cues[i].base.triggers.timecode = Some(
                        TimecodeTrigger { time: elapsed },
                    );
                    state.dirty = true;
                    assert(state.show_file.cues@ =~= before.update(
                        i as int,
                        with_timecode(before[i as int], elapsed),
                    ));
                },
                None => {},
            }
            state.pending_timecode_capture = None;
        },
        None => {},
    }
}

/// Look at the show clock: publish it with the next armed trigger, carry out a
/// requested capture, and return the triggers that fire.
pub fn poll_timecode_triggers(
    state: &mut SharedState,
    fired: &mut Vec<Qid>,
    elapsed: Option<Double>,
    paused: bool,
) -> (due: Vec<(Qid, Double)>)
    ensures
        (final(state)@, final(fired)@, due@) == timecode_polled(
            old(state)@,
            old(fired)@,
            elapsed,
            paused,
        ),
{
    publish_clock(state, fired, elapsed, paused);
    let now: Double = match elapsed {
        Some(t) => t,
        None => {
            fired.clear();
            return Vec::new();
        },
    };
    capture_time(state, now);
    unlatch_rewound_timecode_triggers(fired, &state.show_file.cues, now);
    if paused {
        return Vec::new();
    }
    let due: Vec<(Qid, Double)> = due_timecode_cues(&state.show_file.cues, now, fired);
    let ghost latched = fired@;
    let ghost names = due@.map_values(|d: (Qid, Double)| d.0);
    let mut i: usize = 0;
    assert(latched + names.take(0) =~= latched);
    while i < due.len()
        invariant
            i <= due@.len(),
            names == due@.map_values(|d: (Qid, Double)| d.0),
            fired@ == latched + names.take(i as int),
        decreases due@.len() - i,
    {
        fired.push(due[i].0);
        assert(names.take(i + 1) =~= names.take(i as int).push(due@[i as int].0));
        assert(fired@ =~= latched + names.take(i + 1));
        i = i + 1;
    }
    assert(names.take(i as int) =~= names);
    due
}

/// Nothing fires while the show clock is paused.
pub proof fn nothing_fires_while_paused(s: StateView, fired: Seq<Qid>, elapsed: Option<Double>)
    ensures
        timecode_polled(s, fired, elapsed, true).2.len() == 0,
{
}

/// Once the clock stops, every trigger is armed for the next run.
pub proof fn a_stopped_clock_arms_every_trigger(s: StateView, fired: Seq<Qid>, paused: bool)
    ensures
        timecode_polled(s, fired, None, paused).1.len() == 0,
{
}

proof fn lemma_due_members(
    cues: Seq<Cue>,
    elapsed: Double,
    fired: Seq<Qid>,
    n: int,
    k: int,
)
    requires
        0 <= k < n <= cues.len(),
        timecode_due(cues[k], elapsed, fired),
    ensures
        exists|j: int|
            0 <= j < timecodes_due(cues, elapsed, fired, n).len() && (
            #[trigger] timecodes_due(cues, elapsed, fired, n)[j]).0 == cues[k].base.qid,
    decreases n,
{
    let all = timecodes_due(cues, elapsed, fired, n);
    let before = timecodes_due(cues, elapsed, fired, n - 1);
    if k == n - 1 {
        assert(all[before.len() as int].0 == cues[k].base.qid);
    } else {
        lemma_due_members(cues, elapsed, fired, n - 1, k);
        let j = choose|j: int|
            0 <= j < before.len() && (#[trigger] before[j]).0 == cues[k].base.qid;
        assert(all[j].0 == cues[k].base.qid);
    }
}

/// A trigger that fired is on record and does not fire at the next look,
/// as long as its cue and the clock stay as they are.
pub proof fn a_fired_trigger_does_not_fire_again(
    s: StateView,
    fired: Seq<Qid>,
    elapsed: Double,
    k: int,
)
    requires
        0 <= k < s.show_file.cues.len(),
        s.pending_timecode_capture is None,
        timecode_due(
            s.show_file.cues[k],
            elapsed,
            still_latched(fired, s.show_file.cues, elapsed),
        ),
    ensures
        ({
            let after = timecode_polled(s, fired, Some(elapsed), false);
            !timecode_due(
                after.0.show_file.cues[k],
                elapsed,
                still_latched(after.1, after.0.show_file.cues, elapsed),
            )
        }),
{
    let after = timecode_polled(s, fired, Some(elapsed), false);
    let cues = s.show_file.cues;
    let latched = still_latched(fired, cues, elapsed);
    lemma_due_members(cues, elapsed, latched, cues.len() as int, k);
    let due = timecodes_due(cues, elapsed, latched, cues.len() as int);
    let j = choose|j: int| 0 <= j < due.len() && (#[trigger] due[j]).0 == cues[k].base.qid;
    let names = due.map_values(|d: (Qid, Double)| d.0);
    assert(names[j] == cues[k].base.qid);
    assert(after.1[latched.len() + j] == cues[k].base.qid);
    assert(qids(after.1)[latched.len() + j] == cues[k].base.qid@);
    assert(still_passed(cues, cues[k].base.qid@, elapsed));
    lemma_still_latched(after.1, cues, elapsed, cues[k].base.qid@);
}

/// A trigger with no firing on record is due whenever the clock is less than
/// two seconds from its target, whatever its repeat mode, and at no other time.
pub proof fn an_unfired_trigger_is_due_at_its_target(
    target: ClockTime,
    repeat: RepeatMode,
    today: i32,
    now: ClockTime,
    due: bool,
)
    requires
        target.valid(),
        now.valid(),
        call_ensures(wall_clock_due, (target, repeat, today, now, None::<(i32, ClockTime)>), due),
    ensures
        now == target ==> due,
        now.nanos < 1_000_000_000 && target.nanos < 1_000_000_000 ==> due == (-2_000_000_000 < (
        now.secs * 1_000_000_000 + now.nanos) - (target.secs * 1_000_000_000 + target.nanos)
            < 2_000_000_000),
{
}

/// A trigger that fired is due again exactly where it would be without that
/// firing, unless it counts once or fired for this target today.
pub proof fn a_firing_holds_back_only_itself(
    target: ClockTime,
    repeat: RepeatMode,
    today: i32,
    now: ClockTime,
    last: (i32, ClockTime),
    due: bool,
    fresh: bool,
)
    requires
        target.valid(),
        now.valid(),
        call_ensures(wall_clock_due, (target, repeat, today, now, Some(last)), due),
        call_ensures(wall_clock_due, (target, repeat, today, now, None::<(i32, ClockTime)>), fresh),
    ensures
        due == (fresh && repeat != RepeatMode::Once && last != (today, target)),
{
}

/// The due triggers of the first `n` cues are those of the cues that have one.
proof fn lemma_clocks_due(
    cues: Seq<Cue>,
    today: i32,
    now: ClockTime,
    fired: Seq<ClockFired>,
    n: int,
)
    requires
        0 <= n <= cues.len(),
    ensures
        ({
            let due = clocks_due(cues, today, now, fired, n);
            &&& forall|j: int|
                0 <= j < due.len() ==> 0 <= (#[trigger] due[j]).0 < n && cue_clock_due(
                    cues[due[j].0],
                    today,
                    now,
                    fired,
                ) == Some(due[j].1)
            &&& forall|i: int, j: int|
                0 <= i < j < due.len() ==> (#[trigger] due[i]).0 < (#[trigger] due[j]).0
            &&& forall|k: int|
                0 <= k < n && cue_clock_due(#[trigger] cues[k], today, now, fired) is Some
                    ==> exists|j: int| 0 <= j < due.len() && (#[trigger] due[j]).0 == k
        }),
    decreases n,
{
    if n > 0 {
        lemma_clocks_due(cues, today, now, fired, n - 1);
        let before = clocks_due(cues, today, now, fired, n - 1);
        let due = clocks_due(cues, today, now, fired, n);
        assert forall|k: int|
            0 <= k < n && cue_clock_due(#[trigger] cues[k], today, now, fired) is Some implies exists|
            j: int,
        | 0 <= j < due.len() && (#[trigger] due[j]).0 == k by {
            if k < n - 1 {
                let j = choose|j: int| 0 <= j < before.len() && (#[trigger] before[j]).0 == k;
                assert(due[j].0 == k);
            } else {
                assert(due[before.len() as int].0 == k);
            }
        }
    }
}

/// Whether `r` tells that the trigger of the cue `cue` is due for `target`.
pub open spec fn told_due(r: Seq<DueClock>, cue: Cue, target: ClockTime) -> bool {
    exists|j: int|
        0 <= j < r.len() && (#[trigger] r[j]).qid == cue.base.qid && r[j].target == target
            && r[j].text@ == cue.base.triggers.wall_clock->0.time@
}

/// Whether what is told is the trigger of an enabled cue, for the time that its
/// text stands for.
pub open spec fn told_rightly(cues: Seq<Cue>, d: DueClock) -> bool {
    exists|k: int|
        0 <= k < cues.len() && (#[trigger] cues[k]).base.qid == d.qid && cues[k].base.enabled
            && cues[k].base.triggers.wall_clock is Some && clock_target(
            cues[k].base.triggers.wall_clock->0.time@,
        ) == Some((d.target.secs, d.target.nanos))
}

/// An enabled cue whose trigger has never fired is told of as soon as the clock
/// is at its target; and only enabled cues with a trigger are told of, for the
/// time that the trigger's text stands for.
pub proof fn due_clocks_are_those_of_enabled_cues(
    cues: &Vec<Cue>,
    today: i32,
    now: ClockTime,
    fired: &Vec<ClockFired>,
    r: Vec<DueClock>,
)
    requires
        now.valid(),
        call_ensures(due_wall_clock_cues, (cues, today, now, fired), r),
    ensures
        forall|k: int|
            0 <= k < cues@.len() && (#[trigger] cues@[k]).base.enabled
                && cues@[k].base.triggers.wall_clock is Some && clock_target(
                cues@[k].base.triggers.wall_clock->0.time@,
            ) == Some((now.secs, now.nanos)) && (forall|i: int|
                0 <= i < fired@.len() ==> (#[trigger] fired@[i]).qid@ != cues@[k].base.qid@)
                ==> told_due(r@, cues@[k], now),
        forall|j: int| 0 <= j < r@.len() ==> told_rightly(cues@, #[trigger] r@[j]),
        r@.len() <= cues@.len(),
{
    let n = cues@.len() as int;
    let due = clocks_due(cues@, today, now, fired@, n);
    lemma_clocks_due(cues@, today, now, fired@, n);
    assert forall|k: int|
        0 <= k < cues@.len() && (#[trigger] cues@[k]).base.enabled
            && cues@[k].base.triggers.wall_clock is Some && clock_target(
            cues@[k].base.triggers.wall_clock->0.time@,
        ) == Some((now.secs, now.nanos)) && (forall|i: int|
            0 <= i < fired@.len() ==> (#[trigger] fired@[i]).qid@ != cues@[k].base.qid@)
            implies told_due(r@, cues@[k], now) by {
        lemma_never_fired(fired@, cues@[k].base.qid@);
        assert(cue_clock_due(cues@[k], today, now, fired@) == Some(now));
        let j = choose|j: int| 0 <= j < due.len() && (#[trigger] due[j]).0 == k;
        assert(tells(r@[j], cues@[due[j].0], due[j].1));
    }
    assert forall|j: int| 0 <= j < r@.len() implies told_rightly(cues@, #[trigger] r@[j]) by {
        let k = due[j].0;
        assert(tells(r@[j], cues@[k], due[j].1));
        assert(cues@[k].base.enabled);
    }
    lemma_clocks_due_few(cues@, today, now, fired@, n);
}

proof fn lemma_clocks_due_few(
    cues: Seq<Cue>,
    today: i32,
    now: ClockTime,
    fired: Seq<ClockFired>,
    n: int,
)
    requires
        0 <= n,
    ensures
        clocks_due(cues, today, now, fired, n).len() <= n,
    decreases n,
{
    if n > 0 {
        lemma_clocks_due_few(cues, today, now, fired, n - 1);
    }
}

proof fn lemma_never_fired(fired: Seq<ClockFired>, id: (int, nat))
    requires
        forall|i: int| 0 <= i < fired.len() ==> (#[trigger] fired[i]).qid@ != id,
    ensures
        last_fired(fired, id) is None,
    decreases fired.len(),
{
    if fired.len() > 0 {
        assert(fired.last() == fired[fired.len() - 1]);
        assert forall|i: int| 0 <= i < fired.len() - 1 implies (
        #[trigger] fired.drop_last()[i]).qid@ != id by {
            assert(fired.drop_last()[i] == fired[i]);
        }
        lemma_never_fired(fired.drop_last(), id);
    }
}

/// Of several firings on record for a cue the last one counts.
pub proof fn the_last_firing_counts(fired: Seq<ClockFired>, i: int)
    requires
        0 <= i < fired.len(),
        forall|j: int| i < j < fired.len() ==> (#[trigger] fired[j]).qid@ != fired[i].qid@,
    ensures
        last_fired(fired, fired[i].qid@) == Some((fired[i].date, fired[i].target)),
    decreases fired.len(),
{
    if i < fired.len() - 1 {
        assert(fired.last() == fired[fired.len() - 1]);
        assert forall|j: int| i < j < fired.len() - 1 implies (
        #[trigger] fired.drop_last()[j]).qid@ != fired[i].qid@ by {
            assert(fired.drop_last()[j] == fired[j]);
        }
        assert(fired.drop_last()[i] == fired[i]);
        the_last_firing_counts(fired.drop_last(), i);
    }
}

/// A time in 24 hours is read as one; only what is none is read in 12 hours.
pub proof fn times_are_read_in_24_hours_first(text: Seq<char>)
    ensures
        parsed_time(text, "%H:%M:%S"@) is Some ==> clock_target(text) == parsed_time(
            text,
            "%H:%M:%S"@,
        ),
        parsed_time(text, "%H:%M:%S"@) is None ==> clock_target(text) == parsed_time(
            text,
            "%I:%M:%S %p"@,
        ),
{
}

/// Whether a cue can fire by the show clock at all.
pub open spec fn has_timecode(cue: Cue) -> bool {
    cue.base.enabled && cue.base.triggers.timecode is Some
}

/// Whether a firing is that of a cue whose trigger the clock has reached.
pub open spec fn fires_rightly(cues: Seq<Cue>, elapsed: Double, d: (Qid, Double)) -> bool {
    exists|k: int|
        0 <= k < cues.len() && has_timecode(#[trigger] cues[k]) && d.0 == cues[k].base.qid && d.1
            == cues[k].base.triggers.timecode->0.time && elapsed.at_least(d.1)
}

proof fn lemma_timecodes_due(cues: Seq<Cue>, elapsed: Double, fired: Seq<Qid>, n: int)
    requires
        0 <= n <= cues.len(),
    ensures
        forall|j: int|
            0 <= j < timecodes_due(cues, elapsed, fired, n).len() ==> fires_rightly(
                cues,
                elapsed,
                #[trigger] timecodes_due(cues, elapsed, fired, n)[j],
            ) && !qids(fired).contains(timecodes_due(cues, elapsed, fired, n)[j].0@),
    decreases n,
{
    if n > 0 {
        lemma_timecodes_due(cues, elapsed, fired, n - 1);
        let before = timecodes_due(cues, elapsed, fired, n - 1);
        let all = timecodes_due(cues, elapsed, fired, n);
        assert forall|j: int| 0 <= j < all.len() implies fires_rightly(
            cues,
            elapsed,
            #[trigger] all[j],
        ) && !qids(fired).contains(all[j].0@) by {
            if j < before.len() {
                assert(all[j] == before[j]);
            } else {
                assert(has_timecode(cues[n - 1]));
            }
        }
    }
}

/// While the show clock runs, an enabled cue fires once the clock is at or past
/// its trigger, where it has not fired already; no other cue fires. What fires
/// is on record afterwards.
pub proof fn timecodes_fire_when_the_clock_reaches_them(
    state: &mut SharedState,
    fired: &mut Vec<Qid>,
    elapsed: Double,
    due: Vec<(Qid, Double)>,
)
    requires
        old(state)@.pending_timecode_capture is None,
        call_ensures(poll_timecode_triggers, (state, fired, Some(elapsed), false), due),
    ensures
        ({
            let cues = old(state)@.show_file.cues;
            &&& forall|k: int|
                0 <= k < cues.len() && has_timecode(#[trigger] cues[k]) && elapsed.at_least(
                    cues[k].base.triggers.timecode->0.time,
                ) && !qids(old(fired)@).contains(cues[k].base.qid@) ==> exists|j: int|
                    0 <= j < due@.len() && (#[trigger] due@[j]).0 == cues[k].base.qid
            &&& forall|j: int|
                0 <= j < due@.len() ==> fires_rightly(cues, elapsed, #[trigger] due@[j])
            &&& forall|j: int|
                0 <= j < due@.len() ==> qids(final(fired)@).contains((#[trigger] due@[j]).0@)
            &&& final(state)@.show_file == old(state)@.show_file
            &&& final(state)@.show_time == Some(elapsed)
            &&& !final(state)@.show_paused
        }),
{
    let cues = old(state)@.show_file.cues;
    let n = cues.len() as int;
    let latched = still_latched(old(fired)@, cues, elapsed);
    assert(due@ == timecodes_due(cues, elapsed, latched, n));
    lemma_timecodes_due(cues, elapsed, latched, n);
    assert forall|k: int|
        0 <= k < cues.len() && has_timecode(#[trigger] cues[k]) && elapsed.at_least(
            cues[k].base.triggers.timecode->0.time,
        ) && !qids(old(fired)@).contains(cues[k].base.qid@) implies exists|j: int|
        0 <= j < due@.len() && (#[trigger] due@[j]).0 == cues[k].base.qid by {
        lemma_still_latched(old(fired)@, cues, elapsed, cues[k].base.qid@);
        lemma_due_members(cues, elapsed, latched, n, k);
    }
    let names = due@.map_values(|d: (Qid, Double)| d.0);
    assert forall|j: int| 0 <= j < due@.len() implies qids(final(fired)@).contains(
        (#[trigger] due@[j]).0@,
    ) by {
        assert(names[j] == due@[j].0);
        assert(final(fired)@[latched.len() + j] == names[j]);
        assert(qids(final(fired)@)[latched.len() + j] == due@[j].0@);
    }
}

/// A trigger that fired fires again only once the clock was before its time: as
/// long as it is at or past it, the cue stays on record and out of what fires.
pub proof fn a_latched_trigger_is_quiet(
    state: &mut SharedState,
    fired: &mut Vec<Qid>,
    elapsed: Double,
    paused: bool,
    due: Vec<(Qid, Double)>,
    k: int,
)
    requires
        old(state)@.pending_timecode_capture is None,
        0 <= k < old(state)@.show_file.cues.len(),
        old(state)@.show_file.cues[k].base.triggers.timecode is Some,
        qids(old(fired)@).contains(old(state)@.show_file.cues[k].base.qid@),
        elapsed.at_least(old(state)@.show_file.cues[k].base.triggers.timecode->0.time),
        call_ensures(poll_timecode_triggers, (state, fired, Some(elapsed), paused), due),
    ensures
        qids(final(fired)@).contains(old(state)@.show_file.cues[k].base.qid@),
        forall|j: int|
            0 <= j < due@.len() ==> (#[trigger] due@[j]).0@
                != old(state)@.show_file.cues[k].base.qid@,
{
    let cues = old(state)@.show_file.cues;
    let n = cues.len() as int;
    let id = cues[k].base.qid@;
    let latched = still_latched(old(fired)@, cues, elapsed);
    assert(still_passed(cues, id, elapsed));
    lemma_still_latched(old(fired)@, cues, elapsed, id);
    lemma_timecodes_due(cues, elapsed, latched, n);
    let x = choose|x: int| 0 <= x < qids(latched).len() && qids(latched)[x] == id;
    assert(latched[x]@ == id);
    assert(final(fired)@[x] == latched[x]);
    assert(qids(final(fired)@)[x] == id);
}

proof fn lemma_next_ahead(cues: Seq<Cue>, now: Double, fired: Seq<Qid>, n: int)
    requires
        0 <= n <= cues.len(),
    ensures
        next_ahead(cues, now, fired, n) matches Some(next) ==> exists|k: int|
            0 <= k < n && timecode_ahead(#[trigger] cues[k], now, fired) && next == (
                cues[k].base.qid,
                cues[k].base.triggers.timecode->0.time,
            ),
    decreases n,
{
    if n > 0 {
        lemma_next_ahead(cues, now, fired, n - 1);
        let before = next_ahead(cues, now, fired, n - 1);
        let all = next_ahead(cues, now, fired, n);
        if all is Some {
            if all == before {
                let k = choose|k: int|
                    0 <= k < n - 1 && timecode_ahead(#[trigger] cues[k], now, fired) && all->0 == (
                        cues[k].base.qid,
                        cues[k].base.triggers.timecode->0.time,
                    );
                assert(timecode_ahead(cues[k], now, fired));
            } else {
                assert(timecode_ahead(cues[n - 1], now, fired));
            }
        }
    }
}

/// The next trigger that is shown is that of an enabled cue, has not fired, and
/// is at or after the clock; no other such trigger is earlier; and there is one
/// wherever such a trigger is. Without a clock none is shown.
pub proof fn the_next_trigger_is_shown(
    state: &mut SharedState,
    fired: &mut Vec<Qid>,
    elapsed: Option<Double>,
    paused: bool,
    due: Vec<(Qid, Double)>,
)
    requires
        call_ensures(poll_timecode_triggers, (state, fired, elapsed, paused), due),
    ensures
        final(state)@.show_time == elapsed,
        final(state)@.show_paused == paused,
        elapsed is None ==> final(state)@.next_timecode is None && due@.len() == 0
            && final(fired)@.len() == 0,
        paused ==> due@.len() == 0,
        ({
            let cues = old(state)@.show_file.cues;
            let next = final(state)@.next_timecode;
            elapsed matches Some(now) ==> {
                &&& next is Some ==> exists|k: int|
                    0 <= k < cues.len() && has_timecode(#[trigger] cues[k]) && !qids(
                        old(fired)@,
                    ).contains(cues[k].base.qid@)
                        && cues[k].base.triggers.timecode->0.time.at_least(now) && next == Some(
                        (cues[k].base.qid, cues[k].base.triggers.timecode->0.time),
                    )
                &&& forall|k: int|
                    0 <= k < cues.len() && has_timecode(#[trigger] cues[k]) && !qids(
                        old(fired)@,
                    ).contains(cues[k].base.qid@)
                        && cues[k].base.triggers.timecode->0.time.at_least(now) ==> next is Some && (
                    next->0).1.total_rank()
                        <= cues[k].base.triggers.timecode->0.time.total_rank()
            }
        }),
{
    let cues = old(state)@.show_file.cues;
    let n = cues.len() as int;
    if let Some(now) = elapsed {
        lemma_next_ahead(cues, now, old(fired)@, n);
        assert forall|k: int|
            0 <= k < cues.len() && has_timecode(#[trigger] cues[k]) && !qids(old(fired)@).contains(
                cues[k].base.qid@,
            ) && cues[k].base.triggers.timecode->0.time.at_least(now) implies (
        final(state)@.next_timecode is Some && (final(state)@.next_timecode->0).1.total_rank()
            <= cues[k].base.triggers.timecode->0.time.total_rank()) by {
            next_trigger_is_the_earliest(cues, now, old(fired)@, n, k);
        }
        let next = final(state)@.next_timecode;
        if next is Some {
            let k = choose|k: int|
                0 <= k < n && timecode_ahead(#[trigger] cues[k], now, old(fired)@) && next->0 == (
                    cues[k].base.qid,
                    cues[k].base.triggers.timecode->0.time,
                );
            assert(has_timecode(cues[k]));
        }
    }
}

/// A capture that was asked for gives its cue, and no other, the show's time as
/// trigger; it is asked for once, and is an edit.
pub proof fn a_capture_takes_the_show_time(s: StateView, elapsed: Double, id: Qid)
    requires
        s.pending_timecode_capture == Some(id),
    ensures
        ({
            let t = time_captured(s, elapsed);
            let before = s.show_file.cues;
            let after = t.show_file.cues;
            &&& t.pending_timecode_capture is None
            &&& after.len() == before.len()
            &&& forall|k: int|
                0 <= k < before.len() && (#[trigger] before[k]).base.qid@ != id@ ==> after[k]
                    == before[k]
            &&& forall|k: int|
                #![trigger before[k]]
                0 <= k < before.len() && before[k].base.qid@ == id@ && (forall|j: int|
                    0 <= j < k ==> (#[trigger] before[j]).base.qid@ != id@) ==> {
                    &&& t.dirty
                    &&& after[k].base.triggers.timecode == Some(TimecodeTrigger { time: elapsed })
                    &&& after[k].base.triggers.wall_clock == before[k].base.triggers.wall_clock
                    &&& after[k].base.qid == before[k].base.qid
                    &&& after[k].kind == before[k].kind
                }
            &&& t.undo_redo == s.undo_redo
            &&& t.selected_cue_id == s.selected_cue_id
        }),
{
    let before = s.show_file.cues;
    crate::show::lemma_position(before, id@);
    let i = position(before, id@) as int;
    assert forall|k: int|
        #![trigger before[k]]
        0 <= k < before.len() && before[k].base.qid@ == id@ && (forall|j: int|
            0 <= j < k ==> (#[trigger] before[j]).base.qid@ != id@) implies k == i by {
        if i < k {
            assert(before[i].base.qid@ == id@);
        }
    }
}

/// A look at the show clock carries out the capture that was asked for before
/// it looks for triggers.
pub proof fn a_look_at_the_clock_captures_first(
    state: &mut SharedState,
    fired: &mut Vec<Qid>,
    elapsed: Double,
    paused: bool,
    due: Vec<(Qid, Double)>,
)
    requires
        call_ensures(poll_timecode_triggers, (state, fired, Some(elapsed), paused), due),
    ensures
        final(state)@.show_file == time_captured(old(state)@, elapsed).show_file,
        final(state)@.pending_timecode_capture is None,
{
}

proof fn lemma_timecodes_due_prefix(
    a: Seq<Cue>,
    b: Seq<Cue>,
    elapsed: Double,
    fired: Seq<Qid>,
    n: int,
)
    requires
        n <= a.len(),
        n <= b.len(),
        forall|i: int| 0 <= i < n ==> a[i] == b[i],
    ensures
        timecodes_due(a, elapsed, fired, n) == timecodes_due(b, elapsed, fired, n),
    decreases n,
{
    if n > 0 {
        lemma_timecodes_due_prefix(a, b, elapsed, fired, n - 1);
    }
}

/// Due timecode triggers come in the order of the list: one cue more comes
/// behind the others where it is due.
pub proof fn due_timecodes_come_in_order(
    cues: &Vec<Cue>,
    more: &Vec<Cue>,
    cue: Cue,
    elapsed: Double,
    fired: &Vec<Qid>,
    r: Vec<(Qid, Double)>,
    s: Vec<(Qid, Double)>,
)
    requires
        call_ensures(due_timecode_cues, (cues, elapsed, fired), r),
        call_ensures(due_timecode_cues, (more, elapsed, fired), s),
        more@ == cues@.push(cue),
    ensures
        cues@.len() == 0 ==> r@.len() == 0,
        ({
            let t = cue.base.triggers.timecode;
            let known = exists|i: int|
                0 <= i < fired@.len() && (#[trigger] fired@[i])@ == cue.base.qid@;
            let due = cue.base.enabled && t is Some && elapsed.at_least(t->0.time) && !known;
            &&& due ==> s@ == r@.push((cue.base.qid, t->0.time))
            &&& !due ==> s@ == r@
        }),
{
    let n = cues@.len() as int;
    lemma_timecodes_due_prefix(cues@, more@, elapsed, fired@, n);
    assert(more@[n] == cue);
    let id = cue.base.qid@;
    assert(qids(fired@).len() == fired@.len());
    if qids(fired@).contains(id) {
        let i = choose|i: int| 0 <= i < qids(fired@).len() && qids(fired@)[i] == id;
        assert(fired@[i]@ == id);
    }
    if exists|i: int| 0 <= i < fired@.len() && (#[trigger] fired@[i])@ == id {
        let i = choose|i: int| 0 <= i < fired@.len() && (#[trigger] fired@[i])@ == id;
        assert(qids(fired@)[i] == id);
    }
}

/// Of the triggers on record those stay, in their order, whose cue is there
/// with a time that the clock is at or past.
pub proof fn a_rewound_trigger_is_taken_off_the_record(
    fired: &mut Vec<Qid>,
    more: &mut Vec<Qid>,
    cues: &Vec<Cue>,
    elapsed: Double,
    q: Qid,
)
    requires
        call_ensures(unlatch_rewound_timecode_triggers, (fired, cues, elapsed), ()),
        call_ensures(unlatch_rewound_timecode_triggers, (more, cues, elapsed), ()),
        old(more)@ == old(fired)@.push(q),
    ensures
        old(fired)@.len() == 0 ==> final(fired)@.len() == 0,
        (exists|i: int|
            0 <= i < cues@.len() && (#[trigger] cues@[i]).base.qid@ == q@
                && cues@[i].base.triggers.timecode is Some && elapsed.at_least(
                cues@[i].base.triggers.timecode->0.time,
            )) ==> final(more)@ == final(fired)@.push(q),
        (forall|i: int|
            0 <= i < cues@.len() && (#[trigger] cues@[i]).base.qid@ == q@
                && cues@[i].base.triggers.timecode is Some ==> !elapsed.at_least(
                cues@[i].base.triggers.timecode->0.time,
            )) ==> final(more)@ == final(fired)@,
{
    assert(old(more)@.drop_last() =~= old(fired)@);
    assert(old(more)@.last() == q);
}

proof fn lemma_clocks_due_prefix(
    a: Seq<Cue>,
    b: Seq<Cue>,
    today: i32,
    now: ClockTime,
    fired: Seq<ClockFired>,
    n: int,
)
    requires
        n <= a.len(),
        n <= b.len(),
        forall|i: int| 0 <= i < n ==> a[i] == b[i],
    ensures
        clocks_due(a, today, now, fired, n) == clocks_due(b, today, now, fired, n),
    decreases n,
{
    if n > 0 {
        lemma_clocks_due_prefix(a, b, today, now, fired, n - 1);
    }
}

proof fn lemma_clocks_due_rows(
    cues: Seq<Cue>,
    today: i32,
    now: ClockTime,
    fired: Seq<ClockFired>,
    n: int,
)
    requires
        0 <= n <= cues.len(),
    ensures
        forall|j: int|
            0 <= j < clocks_due(cues, today, now, fired, n).len() ==> 0 <= (#[trigger] clocks_due(
                cues,
                today,
                now,
                fired,
                n,
            )[j]).0 < n,
    decreases n,
{
    if n > 0 {
        lemma_clocks_due_rows(cues, today, now, fired, n - 1);
        let before = clocks_due(cues, today, now, fired, n - 1);
        let all = clocks_due(cues, today, now, fired, n);
        assert forall|j: int| 0 <= j < all.len() implies 0 <= (#[trigger] all[j]).0 < n by {
            if j < before.len() {
                assert(all[j] == before[j]);
            }
        }
    }
}

/// Due clock triggers come in the order of the list: one cue more leaves those
/// before it and comes behind them, if at all.
pub proof fn due_clocks_come_in_order(
    cues: &Vec<Cue>,
    more: &Vec<Cue>,
    cue: Cue,
    today: i32,
    now: ClockTime,
    fired: &Vec<ClockFired>,
    r: Vec<DueClock>,
    s: Vec<DueClock>,
)
    requires
        now.valid(),
        call_ensures(due_wall_clock_cues, (cues, today, now, fired), r),
        call_ensures(due_wall_clock_cues, (more, today, now, fired), s),
        more@ == cues@.push(cue),
    ensures
        cues@.len() == 0 ==> r@.len() == 0,
        s@.len() == r@.len() || s@.len() == r@.len() + 1,
        s@.len() == r@.len() + 1 ==> s@.last().qid == cue.base.qid && cue.base.enabled
            && cue.base.triggers.wall_clock is Some && s@.last().text@
            == cue.base.triggers.wall_clock->0.time@,
        forall|j: int|
            0 <= j < r@.len() ==> (#[trigger] s@[j]).qid == r@[j].qid && s@[j].target == r@[j].target
                && s@[j].text@ == r@[j].text@,
{
    let n = cues@.len() as int;
    let a = clocks_due(cues@, today, now, fired@, n);
    let b = clocks_due(more@, today, now, fired@, n + 1);
    lemma_clocks_due_prefix(cues@, more@, today, now, fired@, n);
    lemma_clocks_due_rows(cues@, today, now, fired@, n);
    assert(more@[n] == cue);
    assert forall|j: int| 0 <= j < r@.len() implies (#[trigger] s@[j]).qid == r@[j].qid
        && s@[j].target == r@[j].target && s@[j].text@ == r@[j].text@ by {
        assert(a[j] == b[j]);
        assert(more@[a[j].0] == cues@[a[j].0]);
        assert(tells(r@[j], cues@[a[j].0], a[j].1));
        assert(tells(s@[j], more@[b[j].0], b[j].1));
    }
    if s@.len() == r@.len() + 1 {
        let j = r@.len() as int;
        assert(tells(s@[j], more@[b[j].0], b[j].1));
    }
}

} // verus!
