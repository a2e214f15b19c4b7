//! MIDI messages and keys: learned as triggers, bridged to DMX, fired.

use vstd::prelude::*;

use crate::qid::Qid;
use crate::show::{
    find_cue, position, Cue, CueBase, CueTriggers, MidiTrigger, MidiTriggerKind, ShowView,
};
use crate::state::{SharedState, StateView};
use crate::text::{same_ignoring_case, same_text_ignoring_case};

verus! {

/// A MIDI message.
#[derive(Clone, Copy, PartialEq, Eq, Structural, Debug)]
pub enum MidiEvent {
    NoteOn { channel: u8, note: u8, velocity: u8 },
    NoteOff { channel: u8, note: u8, velocity: u8 },
    CC { channel: u8, cc: u8, value: u8 },
}

/// The trigger that a message is learned as: at least as hard as it was
/// played.
pub open spec fn learned_trigger(ev: MidiEvent) -> MidiTrigger {
    match ev {
        MidiEvent::NoteOn { channel, note, velocity } => MidiTrigger {
            channel,
            kind: MidiTriggerKind::NoteOn,
            note_or_cc: note,
            velocity_min: velocity,
        },
        MidiEvent::NoteOff { channel, note, velocity } => MidiTrigger {
            channel,
            kind: MidiTriggerKind::NoteOff,
            note_or_cc: note,
            velocity_min: velocity,
        },
        MidiEvent::CC { channel, cc, value } => MidiTrigger {
            channel,
            kind: MidiTriggerKind::CC,
            note_or_cc: cc,
            velocity_min: value,
        },
    }
}

/// Whether a message sets off a trigger: of the same kind, on the same channel
/// and note or controller, and strong enough.
pub open spec fn sets_off(ev: MidiEvent, trigger: MidiTrigger) -> bool {
    let t = learned_trigger(ev);
    t.kind == trigger.kind && t.channel == trigger.channel && t.note_or_cc == trigger.note_or_cc
        && t.velocity_min >= trigger.velocity_min
}

/// A message that was learned sets off the trigger it was learned as.
pub proof fn a_learned_message_sets_off_its_trigger(ev: MidiEvent)
    ensures
        sets_off(ev, learned_trigger(ev)),
{
}

fn learn(ev: MidiEvent) -> (t: MidiTrigger)
    ensures
        t == learned_trigger(ev),
{
    match ev {
        MidiEvent::NoteOn { channel, note, velocity } => MidiTrigger {
            channel,
            kind: MidiTriggerKind::NoteOn,
            note_or_cc: note,
            velocity_min: velocity,
        },
        MidiEvent::NoteOff { channel, note, velocity } => MidiTrigger {
            channel,
            kind: MidiTriggerKind::NoteOff,
            note_or_cc: note,
            velocity_min: velocity,
        },
        MidiEvent::CC { channel, cc, value } => MidiTrigger {
            channel,
            kind: MidiTriggerKind::CC,
            note_or_cc: cc,
            velocity_min: value,
        },
    }
}

fn matches_trigger(ev: MidiEvent, trigger: &MidiTrigger) -> (b: bool)
    ensures
        b == sets_off(ev, *trigger),
{
    let t: MidiTrigger = learn(ev);
    t.kind == trigger.kind && t.channel == trigger.channel && t.note_or_cc == trigger.note_or_cc
        && t.velocity_min >= trigger.velocity_min
}

pub open spec fn with_midi(cue: Cue, trigger: MidiTrigger) -> Cue {
    Cue {
        base: CueBase {
            triggers: CueTriggers { midi: Some(trigger), ..cue.base.triggers },
            ..cue.base
        },
        ..cue
    }
}

/// The state after a message was learned for the waiting cue. Where the cue is
/// gone the wait ends without an edit.
pub open spec fn midi_learned(s: StateView, id: Qid, ev: MidiEvent) -> StateView {
    let cues = s.show_file.cues;
    let i = position(cues, id@) as int;
    if i < cues.len() {
        StateView {
            show_file: ShowView {
                cues: cues.update(i, with_midi(cues[i], learned_trigger(ev))),
                ..s.show_file
            },
            dirty: true,
            pending_midi_learn: None,
            ..s
        }
    } else {
        StateView { pending_midi_learn: None, ..s }
    }
}

/// The DMX level of a controller value: the controller's range on the range of
/// a byte.
pub open spec fn bridged_level(value: u8) -> int {
    (value * 255 / 127) % 256
}

/// The recorder input a message is bridged to: the universe, the channel and
/// the level.
pub open spec fn bridged(s: StateView, ev: MidiEvent) -> Option<(u16, u16, u8)> {
    match ev {
        MidiEvent::CC { cc, value, .. } => if s.recorder_midi_enabled {
            Some((s.recorder_midi_universe, cc as u16, bridged_level(value) as u8))
        } else {
            None
        },
        _ => None,
    }
}

/// A full controller is a full channel, and an empty one an empty channel.
pub proof fn the_bridge_spans_the_range()
    ensures
        bridged_level(0) == 0,
        bridged_level(127) == 255,
{
}

/// The cues among the first `n` that a message fires.
pub open spec fn fired_by(cues: Seq<Cue>, ev: MidiEvent, n: int) -> Seq<Qid>
    decreases n,
{
    if n <= 0 {
        Seq::empty()
    } else {
        let before = fired_by(cues, ev, n - 1);
        let cue = cues[n - 1];
        if cue.base.enabled && cue.base.triggers.midi is Some && sets_off(
            ev,
            cue.base.triggers.midi->0,
        ) {
            before.push(cue.base.qid)
        } else {
            before
        }
    }
}

/// What a message leads to.
pub struct MidiOutcome {
    /// The cue that learned it.
    pub learned: Option<Qid>,
    /// The recorder input it is bridged to.
    pub bridge: Option<(u16, u16, u8)>,
    /// The cues it fires, in order.
    pub fire: Vec<Qid>,
}

fn cues_fired(cues: &Vec<Cue>, ev: MidiEvent) -> (r: Vec<Qid>)
    ensures
        r@ == fired_by(cues@, ev, cues@.len() as int),
{
    let mut r: Vec<Qid> = Vec::new();
    let mut i: usize = 0;
    while i < cues.len()
        invariant
            i <= cues@.len(),
            r@ == fired_by(cues@, ev, i as int),
        decreases cues@.len() - i,
    {
        let cue: &Cue = &cues[i];
        if cue.base.enabled {
            match &cue.base.triggers.midi {
                Some(trigger) => {
                    if matches_trigger(ev, trigger) {
                        r.push(cue.base.qid);
                    }
                },
                None => {},
            }
        }
        i = i + 1;
    }
    r
}

fn bridge(state: &SharedState, ev: MidiEvent) -> (r: Option<(u16, u16, u8)>)
    ensures
        r == bridged(state@, ev),
{
    match ev {
        MidiEvent::CC { cc, value, .. } => {
            if state.recorder_midi_enabled {
                let level: u16 = (value as u16 * 255 / 127) % 256;
                Some((state.recorder_midi_universe, cc as u16, level as u8))
            } else {
                None
            }
        },
        _ => None,
    }
}

/// Take a MIDI message: a waiting cue learns it, and it does nothing else;
/// otherwise it is bridged to the recorder and fires cues.
pub fn process_midi_event(state: &mut SharedState, ev: MidiEvent) -> (out: MidiOutcome)
    ensures
        match old(state)@.pending_midi_learn {
            Some(id) => {
                &&& final(state)@ == midi_learned(old(state)@, id, ev)
                &&& out.learned == (if position(old(state)@.show_file.cues, id@) < old(
                    state,
                )@.show_file.cues.len() {
                    Some(id)
                } else {
                    None
                })
                &&& out.bridge is None
                &&& out.fire@ == Seq::<Qid>::empty()
            },
            None => {
                &&& final(state)@ == old(state)@
                &&& out.learned is None
                &&& out.bridge == bridged(old(state)@, ev)
                &&& out.fire@ == fired_by(
                    old(state)@.show_file.cues,
                    ev,
                    old(state)@.show_file.cues.len() as int,
                )
            },
        },
{
    match state.pending_midi_learn {
        Some(id) => {
            let mut learned: Option<Qid> = None;
            match find_cue(&state.show_file.cues, &id) {
                Some(i) => {
                    let ghost before = state.show_file.cues@;
                    state.show_file.cues[i].base.triggers.midi = Some(learn(ev));
                    state.dirty = true;
                    learned = Some(id);
                    assert(state.show_file.cues@ =~= before.update(
                        i as int,
                        with_midi(before[i as int], learned_trigger(ev)),
                    ));
                },
                None => {},
            }
            state.pending_midi_learn = None;
            MidiOutcome { learned, bridge: None, fire: Vec::new() }
        },
        None => MidiOutcome {
            learned: None,
            bridge: bridge(state, ev),
            fire: cues_fired(&state.show_file.cues, ev),
        },
    }
}

/// Whether a key fires a cue.
pub open spec fn key_fires(cue: Cue, key: Seq<char>) -> bool {
    cue.base.enabled && cue.base.triggers.hotkey is Some && same_ignoring_case(
        cue.base.triggers.hotkey->0.key@,
        key,
    )
}

/// The first cue from row `i` on that a key fires.
pub open spec fn first_by_key(cues: Seq<Cue>, key: Seq<char>, i: int) -> Option<Qid>
    decreases cues.len() - i,
{
    if i < 0 || i >= cues.len() {
        None
    } else if key_fires(cues[i], key) {
        Some(cues[i].base.qid)
    } else {
        first_by_key(cues, key, i + 1)
    }
}

/// The cue that a key fires: the first enabled one with that key, whatever the
/// case.
pub fn hotkey_cue(cues: &Vec<Cue>, key: &str) -> (r: Option<Qid>)
    ensures
        r == first_by_key(cues@, key@, 0),
{
    let mut i: usize = 0;
    while i < cues.len()
        invariant
            i <= cues@.len(),
            first_by_key(cues@, key@, 0) == first_by_key(cues@, key@, i as int),
        decreases cues@.len() - i,
    {
        let cue: &Cue = &cues[i];
        if cue.base.enabled {
            match &cue.base.triggers.hotkey {
                Some(trigger) => {
                    if same_text_ignoring_case(trigger.key.as_str(), key) {
                        return Some(cue.base.qid);
                    }
                },
                None => {},
            }
        }
        i = i + 1;
    }
    None
}

/// While a cue waits to learn, a message becomes its trigger and does nothing
/// else; the wait is over then, whether the cue is there or not.
pub proof fn a_waiting_cue_learns_the_message(
    state: &mut SharedState,
    ev: MidiEvent,
    out: MidiOutcome,
    id: Qid,
    k: int,
)
    requires
        call_ensures(process_midi_event, (state, ev), out),
        old(state)@.pending_midi_learn == Some(id),
    ensures
        ({
            let s = old(state)@;
            let t = final(state)@;
            let before = s.show_file.cues;
            let after = t.show_file.cues;
            &&& out.fire@.len() == 0
            &&& out.bridge is None
            &&& t.pending_midi_learn is None
            &&& after.len() == before.len()
            &&& crate::commands::no_row(before, id@) ==> out.learned is None && after == before
                && t.dirty == s.dirty
            &&& crate::commands::first_row(before, id@, k) ==> {
                let m = after[k].base.triggers.midi->0;
                &&& out.learned == Some(id)
                &&& t.dirty
                &&& after[k].base.triggers.midi is Some
                &&& (ev matches MidiEvent::NoteOn { channel, note, velocity } ==> m.kind
                    == MidiTriggerKind::NoteOn && m.channel == channel && m.note_or_cc == note
                    && m.velocity_min == velocity)
                &&& (ev matches MidiEvent::NoteOff { channel, note, velocity } ==> m.kind
                    == MidiTriggerKind::NoteOff && m.channel == channel && m.note_or_cc == note
                    && m.velocity_min == velocity)
                &&& (ev matches MidiEvent::CC { channel, cc, value } ==> m.kind
                    == MidiTriggerKind::CC && m.channel == channel && m.note_or_cc == cc
                    && m.velocity_min == value)
                &&& after[k].base.triggers.hotkey == before[k].base.triggers.hotkey
                &&& after[k].base.triggers.timecode == before[k].base.triggers.timecode
                &&& after[k].base.triggers.wall_clock == before[k].base.triggers.wall_clock
                &&& after[k].base.qid == before[k].base.qid
                &&& after[k].base.name == before[k].base.name
                &&& after[k].kind == before[k].kind
                &&& forall|j: int|
                    0 <= j < before.len() && j != k ==> (#[trigger] after[j]) == before[j]
            }
        }),
{
    let cues = old(state)@.show_file.cues;
    if crate::commands::first_row(cues, id@, k) {
        crate::commands::lemma_first_row(cues, id@, k);
    }
    if crate::commands::no_row(cues, id@) {
        crate::commands::lemma_no_row(cues, id@);
    }
}

/// Whether a message is of a trigger's kind, on its channel and note or
/// controller, and strong enough.
pub open spec fn answers(ev: MidiEvent, t: MidiTrigger) -> bool {
    match ev {
        MidiEvent::NoteOn { channel, note, velocity } => t.kind == MidiTriggerKind::NoteOn
            && t.channel == channel && t.note_or_cc == note && velocity >= t.velocity_min,
        MidiEvent::NoteOff { channel, note, velocity } => t.kind == MidiTriggerKind::NoteOff
            && t.channel == channel && t.note_or_cc == note && velocity >= t.velocity_min,
        MidiEvent::CC { channel, cc, value } => t.kind == MidiTriggerKind::CC && t.channel
            == channel && t.note_or_cc == cc && value >= t.velocity_min,
    }
}

/// A message fires the enabled cues whose trigger it answers, and no others;
/// it changes nothing.
pub proof fn a_message_fires_the_cues_it_is_for(
    state: &mut SharedState,
    ev: MidiEvent,
    out: MidiOutcome,
    k: int,
)
    requires
        call_ensures(process_midi_event, (state, ev), out),
        old(state)@.pending_midi_learn is None,
        0 <= k < old(state)@.show_file.cues.len(),
        forall|j: int|
            0 <= j < old(state)@.show_file.cues.len() && j != k ==> (#[trigger] old(
                state,
            )@.show_file.cues[j]).base.qid != old(state)@.show_file.cues[k].base.qid,
    ensures
        ({
            let cue = old(state)@.show_file.cues[k];
            &&& out.learned is None
            &&& final(state)@ == old(state)@
            &&& out.fire@.contains(cue.base.qid) <==> cue.base.enabled
                && cue.base.triggers.midi is Some && answers(ev, cue.base.triggers.midi->0)
        }),
{
    let cues = old(state)@.show_file.cues;
    lemma_fired(cues, ev, k, cues.len() as int);
}

proof fn lemma_fired(cues: Seq<Cue>, ev: MidiEvent, k: int, n: int)
    requires
        0 <= n <= cues.len(),
        0 <= k < cues.len(),
        forall|j: int|
            0 <= j < cues.len() && j != k ==> (#[trigger] cues[j]).base.qid != cues[k].base.qid,
    ensures
        fired_by(cues, ev, n).contains(cues[k].base.qid) <==> k < n && cues[k].base.enabled
            && cues[k].base.triggers.midi is Some && answers(ev, cues[k].base.triggers.midi->0),
    decreases n,
{
    if n > 0 {
        lemma_fired(cues, ev, k, n - 1);
        let before = fired_by(cues, ev, n - 1);
        let all = fired_by(cues, ev, n);
        let id = cues[k].base.qid;
        if before.contains(id) {
            let i = choose|i: int| 0 <= i < before.len() && before[i] == id;
            assert(all[i] == id);
        }
        if all.contains(id) {
            let i = choose|i: int| 0 <= i < all.len() && all[i] == id;
            if i < before.len() {
                assert(before[i] == id);
            } else {
                assert(cues[n - 1].base.qid == id);
                assert(n - 1 == k);
            }
        }
        if n - 1 == k && all.len() > before.len() {
            assert(all.last() == id);
        }
    }
}

/// Cues fire in the order of the list.
pub proof fn no_more_cues_fire_than_there_are(
    state: &mut SharedState,
    ev: MidiEvent,
    out: MidiOutcome,
)
    requires
        call_ensures(process_midi_event, (state, ev), out),
    ensures
        out.fire@.len() <= old(state)@.show_file.cues.len(),
{
    let cues = old(state)@.show_file.cues;
    lemma_fired_len(cues, ev, cues.len() as int);
}

proof fn lemma_fired_len(cues: Seq<Cue>, ev: MidiEvent, n: int)
    requires
        0 <= n <= cues.len(),
    ensures
        fired_by(cues, ev, n).len() <= n,
    decreases n,
{
    if n > 0 {
        lemma_fired_len(cues, ev, n - 1);
    }
}

/// A controller drives the channel of its number, over the whole range and in
/// its order, while the bridge is on; notes drive none.
pub proof fn controllers_drive_channels(state: &mut SharedState, ev: MidiEvent, out: MidiOutcome)
    requires
        call_ensures(process_midi_event, (state, ev), out),
        old(state)@.pending_midi_learn is None,
    ensures
        ({
            let s = old(state)@;
            &&& !s.recorder_midi_enabled ==> out.bridge is None
            &&& !(ev is CC) ==> out.bridge is None
            &&& s.recorder_midi_enabled && ev is CC ==> {
                let (universe, channel, level) = out.bridge->0;
                let value = ev->value;
                &&& out.bridge is Some
                &&& universe == s.recorder_midi_universe
                &&& channel == ev->cc
                &&& value <= 127 ==> level * 127 <= value * 255 < (level + 1) * 127
                &&& value == 0 ==> level == 0
                &&& value == 127 ==> level == 255
            }
        }),
{
    if ev is CC {
        let value = ev->value as int;
        if value <= 127 {
            assert(value * 255 / 127 <= 255);
        }
    }
}

/// A key fires the first enabled cue that has it, in either case.
pub proof fn a_key_fires_the_first_cue_that_has_it(
    cues: &Vec<Cue>,
    key: &str,
    r: Option<Qid>,
    k: int,
)
    requires
        call_ensures(hotkey_cue, (cues, key), r),
    ensures
        ({
            let fits = |j: int|
                cues@[j].base.enabled && cues@[j].base.triggers.hotkey is Some
                    && same_ignoring_case(cues@[j].base.triggers.hotkey->0.key@, key@);
            &&& 0 <= k < cues@.len() && fits(k) && (forall|j: int| 0 <= j < k ==> !#[trigger] fits(j))
                ==> r == Some(cues@[k].base.qid)
            &&& (forall|j: int| 0 <= j < cues@.len() ==> !#[trigger] fits(j)) ==> r is None
        }),
{
    let fits = |j: int|
        cues@[j].base.enabled && cues@[j].base.triggers.hotkey is Some && same_ignoring_case(
            cues@[j].base.triggers.hotkey->0.key@,
            key@,
        );
    if 0 <= k < cues@.len() && fits(k) && (forall|j: int| 0 <= j < k ==> !#[trigger] fits(j)) {
        assert forall|j: int| 0 <= j < k implies !key_fires(#[trigger] cues@[j], key@) by {
            assert(!fits(j));
        }
        lemma_first_by_key(cues@, key@, 0, k);
    }
    if forall|j: int| 0 <= j < cues@.len() ==> !#[trigger] fits(j) {
        assert forall|j: int| 0 <= j < cues@.len() implies !key_fires(
            #[trigger] cues@[j],
            key@,
        ) by {
            assert(!fits(j));
        }
        lemma_first_by_key(cues@, key@, 0, cues@.len() as int);
    }
}

proof fn lemma_first_by_key(cues: Seq<Cue>, key: Seq<char>, i: int, k: int)
    requires
        0 <= i <= k <= cues.len(),
        k < cues.len() ==> key_fires(cues[k], key),
        forall|j: int| 0 <= j < k ==> !key_fires(#[trigger] cues[j], key),
    ensures
        first_by_key(cues, key, i) == (if k < cues.len() {
            Some(cues[k].base.qid)
        } else {
            None
        }),
    decreases k - i,
{
    if i < k {
        lemma_first_by_key(cues, key, i + 1, k);
    }
}

} // verus!
