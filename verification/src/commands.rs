//! What each command of the operator does to the state.

use vstd::prelude::*;

use crate::cue_order::{
    block_head, duplicate_span, enclosing_span, insertion, insertion_of, is_copy, move_span, moved,
    nudge, nudge_of, selection_after, selection_after_removal, span, span_end, Block,
};
use crate::ieee::{Double, Single};
use crate::path::{clone_path_opt, FilePath};
use crate::qid::{qid_opt, same_qid_opt, Qid};
use crate::show::{
    clone_cues, default_show, find_cue, has_cue, numbers_unique, position, CanvasFit, Cue, CueBase,
    CueKind, CueTriggers, FadeType, LoopMode, ShowFile, ShowView, StopMode, TimecodeTrigger,
    TriggerMode,
};
use crate::state::{
    alert_fits, recent, AppCommand, CueType, ImportSections, Moment, SharedState, ShowMode,
    StateView, with_audio_apply, queue_audio_settings_apply,
};
use crate::text::{join, join_of, texts};
use crate::undo::{HistoryView, Snapshot};

verus! {

/// A step of the selection through the cue list.
#[derive(Clone, Copy, PartialEq, Eq, Structural, Debug)]
pub enum SelectionStep {
    Previous,
    Next,
    First,
    Last,
}

/// The row the selection steps to: one up or down from the current row, not
/// past either end; without a current row, down starts at the top and up at
/// the bottom.
pub open spec fn stepped_row(cues: Seq<Cue>, current: Option<Qid>, step: SelectionStep) -> int {
    let at = match current {
        Some(id) => if position(cues, id@) < cues.len() {
            Some(position(cues, id@) as int)
        } else {
            None
        },
        None => None,
    };
    let last = cues.len() - 1;
    match step {
        SelectionStep::Previous => match at {
            Some(i) => if i > 0 {
                i - 1
            } else {
                0
            },
            None => last,
        },
        SelectionStep::Next => match at {
            Some(i) => if i + 1 < last {
                i + 1
            } else {
                last
            },
            None => 0,
        },
        SelectionStep::First => 0,
        SelectionStep::Last => last,
    }
}

pub open spec fn stepped(cues: Seq<Cue>, current: Option<Qid>, step: SelectionStep) -> Option<Qid> {
    if cues.len() == 0 {
        None
    } else {
        Some(cues[stepped_row(cues, current, step)].base.qid)
    }
}

/// The cue that a step of the selection arrives at.
pub fn step_selection(cues: &Vec<Cue>, current: Option<Qid>, step: SelectionStep) -> (r: Option<
    Qid,
>)
    ensures
        r == stepped(cues@, current, step),
{
    if cues.len() == 0 {
        return None;
    }
    let last: usize = cues.len() - 1;
    let at: Option<usize> = match current {
        Some(id) => find_cue(cues, &id),
        None => None,
    };
    let row: usize = match step {
        SelectionStep::Previous => match at {
            Some(i) => if i > 0 {
                i - 1
            } else {
                0
            },
            None => last,
        },
        SelectionStep::Next => match at {
            Some(i) => if i < last {
                i + 1
            } else {
                last
            },
            None => 0,
        },
        SelectionStep::First => 0,
        SelectionStep::Last => last,
    };
    Some(cues[row].base.qid)
}

/// A step of the selection never leaves the cue list.
pub proof fn selection_steps_stay_in_the_list(
    cues: Seq<Cue>,
    current: Option<Qid>,
    step: SelectionStep,
)
    requires
        cues.len() > 0,
    ensures
        0 <= stepped_row(cues, current, step) < cues.len(),
{
}

/// What remains to be done for a command outside the state.
#[derive(Debug)]
pub enum Outcome {
    /// Nothing.
    Done,
    /// The command edits cues, and the show is running: it had no effect.
    Locked,
    /// The command would discard work; it waits for the operator.
    Parked,
    /// The command could not be carried out; this says why.
    Warned(String),
    /// Read this project, and hand over what it holds.
    Open(FilePath),
    /// Save the project here, or ask where.
    Save(Option<FilePath>),
    /// Pack the project into this folder.
    Pack(FilePath),
    /// The command is for the show engine.
    Unhandled(AppCommand),
}

/// The cue a command is about: the one it names, else the selection.
pub open spec fn target_of(qid: Option<Qid>, selected: Option<Qid>) -> Option<Qid> {
    match qid {
        Some(q) => Some(q),
        None => selected,
    }
}

/// The row of the cue a command is about.
pub open spec fn target_row(s: StateView, qid: Option<Qid>) -> Option<int> {
    match target_of(qid, s.selected_cue_id) {
        Some(id) => {
            let i = position(s.show_file.cues, id@);
            if i < s.show_file.cues.len() {
                Some(i as int)
            } else {
                None
            }
        },
        None => None,
    }
}

fn row_of(state: &SharedState, qid: Option<Qid>) -> (r: Option<(Qid, usize)>)
    ensures
        match (r, target_row(state@, qid)) {
            (Some(p), Some(i)) => p.1 == i && p.1 < state@.show_file.cues.len() && target_of(
                qid,
                state@.selected_cue_id,
            ) == Some(p.0),
            (None, None) => true,
            _ => false,
        },
{
    let target: Option<Qid> = match qid {
        Some(q) => Some(q),
        None => state.selected_cue_id,
    };
    match target {
        Some(id) => match find_cue(&state.show_file.cues, &id) {
            Some(i) => Some((id, i)),
            None => None,
        },
        None => None,
    }
}

/// The name of the run of edits to which repeated edits of one cue belong.
pub open spec fn run_key(id: Qid, what: Seq<char>) -> Seq<char> {
    "cue:"@ + id.text() + ":"@ + what
}

fn run_key_of(id: &Qid, what: &str) -> (r: String)
    ensures
        r@ == run_key(*id, what@),
{
    let mut r: String = "cue:".to_owned();
    let number: String = id.to_text();
    r.append(number.as_str());
    r.append(":");
    r.append(what);
    r
}

pub(crate) fn record(state: &mut SharedState)
    ensures
        final(state)@ == old(state)@.recorded(),
{
    let snapshot: Snapshot = Snapshot::from_state(state);
    state.undo_redo.push(snapshot);
    assert(state@ =~= old(state)@.recorded());
}

pub(crate) fn edit_cues(state: &mut SharedState, cues: Vec<Cue>)
    ensures
        final(state)@ == old(state)@.edited(cues@),
{
    state.show_file.cues = cues;
    state.dirty = true;
}

fn record_as(state: &mut SharedState, key: String)
    ensures
        final(state)@ == old(state)@.recorded_as(key@),
{
    let ghost k = key@;
    let snapshot: Snapshot = Snapshot::from_state(state).with_merge_key(key);
    state.undo_redo.push(snapshot);
    assert(state@ =~= old(state)@.recorded_as(k));
}

/// Whether a command that discards the project may go ahead.
pub open spec fn may_discard(s: StateView) -> bool {
    s.discard_confirmed || (!s.dirty && s.active_cues.len() == 0)
}

/// The state once a discarding command was asked for: an agreement is used
/// up; without one, and with work to lose, the command waits.
pub open spec fn after_discard_check(s: StateView, command: AppCommand) -> StateView {
    if s.discard_confirmed {
        StateView { discard_confirmed: false, ..s }
    } else if may_discard(s) {
        s
    } else {
        StateView { pending_discard_confirm: Some(command), ..s }
    }
}

/// Whether `command` may discard the project now. Where it may not, it waits
/// for the operator.
pub fn confirm_discard(state: &mut SharedState, command: AppCommand) -> (b: bool)
    ensures
        b == may_discard(old(state)@),
        final(state)@ == after_discard_check(old(state)@, command),
{
    if state.discard_confirmed {
        state.discard_confirmed = false;
        return true;
    }
    if !state.dirty && state.active_cues.len() == 0 {
        return true;
    }
    state.pending_discard_confirm = Some(command);
    false
}

/// The next value of a counter that starts over at its end.
pub open spec fn next_generation(n: u64) -> u64 {
    if n == u64::MAX {
        0
    } else {
        (n + 1) as u64
    }
}

/// Whether `t` is what `s` becomes when a new project is begun.
pub open spec fn begun(s: StateView, t: StateView) -> bool {
    &&& default_show(t.show_file)
    &&& t == (StateView {
        show_file: t.show_file,
        project_path: None,
        selected_cue_id: None,
        dirty: false,
        project_generation: next_generation(s.project_generation),
        ..s.recorded()
    })
}

fn new_project(state: &mut SharedState)
    ensures
        begun(old(state)@, final(state)@),
{
    record(state);
    state.show_file = ShowFile::default();
    state.project_path = None;
    state.selected_cue_id = None;
    state.dirty = false;
    state.project_generation = if state.project_generation == u64::MAX {
        0
    } else {
        state.project_generation + 1
    };
}

/// The state after a project was opened: the edit history and the recent
/// files know of it.
pub open spec fn opened(s: StateView, path: FilePath, show: ShowView) -> StateView {
    StateView {
        recent_files: recent(s.recent_files, path),
        ..s.recorded().loaded(path, show)
    }
}

/// Make a project that was read the current one.
pub fn apply_project_show(state: &mut SharedState, path: &FilePath, show: ShowFile)
    ensures
        final(state)@ == opened(old(state)@, *path, show@),
{
    let ghost read = show@;
    record(state);
    state.apply_show_file(path, show);
    state.push_recent_file(path);
    assert(state@ =~= opened(old(state)@, *path, read));
}

/// The state after the project was saved.
pub open spec fn saved(s: StateView, path: FilePath) -> StateView {
    StateView {
        project_path: Some(path),
        dirty: false,
        recent_files: recent(s.recent_files, path),
        ..s
    }
}

/// Note that the project was saved.
pub fn note_saved(state: &mut SharedState, path: &FilePath)
    ensures
        final(state)@ == saved(old(state)@, *path),
{
    state.project_path = Some(path.clone());
    state.dirty = false;
    state.push_recent_file(path);
    assert(state@ =~= saved(old(state)@, *path));
}

/// The state after one step back in the history.
pub open spec fn after_undo(s: StateView) -> StateView {
    if s.undo_redo.undo.len() > 0 {
        StateView {
            undo_redo: HistoryView { suppress: false, ..s.undo_redo.undone(s.snapshot()) },
            ..s.restored(s.undo_redo.undo.last())
        }
    } else {
        s
    }
}

/// The state after one step forward in the history.
pub open spec fn after_redo(s: StateView) -> StateView {
    if s.undo_redo.redo.len() > 0 {
        StateView {
            undo_redo: HistoryView { suppress: false, ..s.undo_redo.redone(s.snapshot()) },
            ..s.restored(s.undo_redo.redo.last())
        }
    } else {
        s
    }
}

fn undo_step(state: &mut SharedState)
    ensures
        final(state)@ == after_undo(old(state)@),
{
    let current: Snapshot = Snapshot::from_state(state);
    match state.undo_redo.undo(current) {
        Some(previous) => {
            state.undo_redo.set_suppress(true);
            previous.apply(state);
            state.undo_redo.set_suppress(false);
        },
        None => {},
    }
    assert(state@ =~= after_undo(old(state)@));
}

fn redo_step(state: &mut SharedState)
    ensures
        final(state)@ == after_redo(old(state)@),
{
    let current: Snapshot = Snapshot::from_state(state);
    match state.undo_redo.redo(current) {
        Some(next) => {
            state.undo_redo.set_suppress(true);
            next.apply(state);
            state.undo_redo.set_suppress(false);
        },
        None => {},
    }
    assert(state@ =~= after_redo(old(state)@));
}

/// What a kind of cue is called.
pub open spec fn kind_name(t: CueType) -> Seq<char> {
    match t {
        CueType::Sound => "Sound"@,
        CueType::Video => "Video"@,
        CueType::Stop => "Stop"@,
        CueType::Volume => "Volume"@,
        CueType::Group => "Group"@,
        CueType::Dummy => "Dummy"@,
        CueType::TimeCode => "TimeCode"@,
        CueType::Network => "Network"@,
        CueType::Text => "Text"@,
        CueType::Image => "Image"@,
        CueType::Goto => "Goto"@,
        CueType::Lighting => "Lighting"@,
        CueType::DmxShow => "DmxShow"@,
        CueType::PixelMap => "PixelMap"@,
    }
}

fn kind_name_of(t: CueType) -> (r: &'static str)
    ensures
        r@ == kind_name(t),
{
    match t {
        CueType::Sound => "Sound",
        CueType::Video => "Video",
        CueType::Stop => "Stop",
        CueType::Volume => "Volume",
        CueType::Group => "Group",
        CueType::Dummy => "Dummy",
        CueType::TimeCode => "TimeCode",
        CueType::Network => "Network",
        CueType::Text => "Text",
        CueType::Image => "Image",
        CueType::Goto => "Goto",
        CueType::Lighting => "Lighting",
        CueType::DmxShow => "DmxShow",
        CueType::PixelMap => "PixelMap",
    }
}

/// One, in single precision.
pub const ONE: u32 = 0x3f80_0000;

/// Two, in single precision.
pub const TWO: u32 = 0x4000_0000;

/// The font size of a new text cue: forty-eight, in single precision.
pub const FONT_SIZE: u32 = 0x4240_0000;

/// The timecode at which a new video cue starts to follow: one hour, in
/// double-precision seconds.
pub const ONE_HOUR: u64 = 0x40ac_2000_0000_0000;

/// The priority of a new lighting show.
pub const SHOW_PRIORITY: u8 = 100;

/// Whether `kind` is what a new cue of kind `t` does.
pub open spec fn is_new_kind(kind: CueKind, t: CueType) -> bool {
    let zero = Single { bits: 0 };
    let start = Double { bits: 0 };
    match (t, kind) {
        (
            CueType::Sound,
            CueKind::Sound {
                path,
                start_time,
                duration,
                volume,
                pan,
                fade_in,
                fade_out,
                fade_type,
            },
        ) => path@ == ""@ && start_time == start && duration == start && volume.bits == ONE && pan
            == zero && fade_in == zero && fade_out == zero && fade_type == FadeType::Linear,
        (
            CueType::Video,
            CueKind::Video {
                path,
                start_time,
                duration,
                volume,
                pan,
                fade_in,
                fade_out,
                fade_type,
                follow_mtc,
                mtc_start,
            },
        ) => path@ == ""@ && start_time == start && duration == start && volume.bits == ONE && pan
            == zero && fade_in == zero && fade_out == zero && fade_type == FadeType::Linear
            && !follow_mtc && mtc_start.bits == ONE_HOUR,
        (
            CueType::Stop,
            CueKind::Stop { stop_qid, stop_mode, fade_out_time, fade_type, stop_all },
        ) => stop_qid@ == (0int, 0nat) && stop_mode == StopMode::Immediate && fade_out_time == zero
            && fade_type == FadeType::Linear && !stop_all,
        (CueType::Volume, CueKind::Volume { sound_qid, fade_time, volume, fade_type }) => sound_qid@
            == (0int, 0nat) && fade_time == zero && volume == zero && fade_type == FadeType::Linear,
        (CueType::Group, CueKind::Group) => true,
        (CueType::Dummy, CueKind::Dummy) => true,
        (CueType::TimeCode, CueKind::TimeCode { start_time, duration }) => start_time == start
            && duration == start,
        (CueType::Network, CueKind::Network { command }) => command@ == ""@,
        (CueType::Text, CueKind::Text { text, font_size, colour, fit, font }) => text@ == ""@
            && font_size.bits == FONT_SIZE && colour@ == seq![255u8, 255u8, 255u8, 255u8] && fit
            == CanvasFit::Fit && font@ == ""@,
        (CueType::Image, CueKind::Image { path, fit }) => path@ == ""@ && fit == CanvasFit::Fit,
        (CueType::Goto, CueKind::Goto { target_qid }) => target_qid@ == (0int, 0nat),
        (CueType::Lighting, CueKind::Lighting { fade_time, fade_type }) => fade_time.bits == TWO
            && fade_type == FadeType::Linear,
        (CueType::DmxShow, CueKind::DmxShow { path, fade_in, fade_out, fade_type, priority }) =>
            path@ == ""@ && fade_in == zero && fade_out == zero && fade_type == FadeType::Linear
            && priority == SHOW_PRIORITY,
        (CueType::PixelMap, CueKind::PixelMap { path }) => path@ == ""@,
        _ => false,
    }
}

/// Whether `base` is what a new cue starts with, besides what it does.
pub open spec fn is_new_base(
    base: CueBase,
    number: Qid,
    parent: Option<Qid>,
    name: Seq<char>,
    armed: Option<Double>,
) -> bool {
    &&& base.qid == number
    &&& base.parent == parent
    &&& base.name@ == name
    &&& base.enabled
    &&& base.trigger == TriggerMode::Go
    &&& base.loop_mode == LoopMode::OneShot
    &&& base.loop_count == 1
    &&& base.triggers == (CueTriggers {
        hotkey: None,
        midi: None,
        wall_clock: None,
        timecode: match armed {
            Some(time) => Some(TimecodeTrigger { time }),
            None => None,
        },
    })
}

pub(crate) fn new_base(
    number: Qid,
    parent: Option<Qid>,
    name: String,
    armed: Option<Double>,
) -> (base: CueBase)
    ensures
        is_new_base(base, number, parent, name@, armed),
{
    CueBase {
        qid: number,
        parent,
        name,
        enabled: true,
        trigger: TriggerMode::Go,
        loop_mode: LoopMode::OneShot,
        loop_count: 1,
        triggers: CueTriggers {
            hotkey: None,
            midi: None,
            wall_clock: None,
            timecode: match armed {
                Some(time) => Some(TimecodeTrigger { time }),
                None => None,
            },
        },
    }
}

/// Whether `cue` is the new cue of kind `t` with this number in this group,
/// armed at `armed` where that is given.
pub open spec fn is_new_cue(
    cue: Cue,
    t: CueType,
    number: Qid,
    parent: Option<Qid>,
    armed: Option<Double>,
) -> bool {
    &&& is_new_base(cue.base, number, parent, "New "@ + kind_name(t) + " Cue"@, armed)
    &&& is_new_kind(cue.kind, t)
    &&& cue.extra == 0
}

fn new_kind(t: CueType) -> (kind: CueKind)
    ensures
        is_new_kind(kind, t),
{
    let zero: Single = Single { bits: 0 };
    let start: Double = Double { bits: 0 };
    let none: Qid = Qid::new(0, 0);
    match t {
        CueType::Sound => CueKind::Sound {
            path: "".to_owned(),
            start_time: start,
            duration: start,
            volume: Single { bits: ONE },
            pan: zero,
            fade_in: zero,
            fade_out: zero,
            fade_type: FadeType::Linear,
        },
        CueType::Video => CueKind::Video {
            path: "".to_owned(),
            start_time: start,
            duration: start,
            volume: Single { bits: ONE },
            pan: zero,
            fade_in: zero,
            fade_out: zero,
            fade_type: FadeType::Linear,
            follow_mtc: false,
            mtc_start: Double { bits: ONE_HOUR },
        },
        CueType::Stop => CueKind::Stop {
            stop_qid: none,
            stop_mode: StopMode::Immediate,
            fade_out_time: zero,
            fade_type: FadeType::Linear,
            stop_all: false,
        },
        CueType::Volume => CueKind::Volume {
            sound_qid: none,
            fade_time: zero,
            volume: zero,
            fade_type: FadeType::Linear,
        },
        CueType::Group => CueKind::Group,
        CueType::Dummy => CueKind::Dummy,
        CueType::TimeCode => CueKind::TimeCode { start_time: start, duration: start },
        CueType::Network => CueKind::Network { command: "".to_owned() },
        CueType::Text => {
            let colour: [u8; 4] = [255, 255, 255, 255];
            assert(colour@ =~= seq![255u8, 255u8, 255u8, 255u8]);
            CueKind::Text {
                text: "".to_owned(),
                font_size: Single { bits: FONT_SIZE },
                colour,
                fit: CanvasFit::Fit,
                font: "".to_owned(),
            }
        },
        CueType::Image => CueKind::Image { path: "".to_owned(), fit: CanvasFit::Fit },
        CueType::Goto => CueKind::Goto { target_qid: none },
        CueType::Lighting => CueKind::Lighting {
            fade_time: Single { bits: TWO },
            fade_type: FadeType::Linear,
        },
        CueType::DmxShow => CueKind::DmxShow {
            path: "".to_owned(),
            fade_in: zero,
            fade_out: zero,
            fade_type: FadeType::Linear,
            priority: SHOW_PRIORITY,
        },
        CueType::PixelMap => CueKind::PixelMap { path: "".to_owned() },
    }
}

fn new_cue(t: CueType, number: Qid, parent: Option<Qid>, armed: Option<Double>) -> (cue: Cue)
    ensures
        is_new_cue(cue, t, number, parent, armed),
{
    let mut name: String = "New ".to_owned();
    name.append(kind_name_of(t));
    name.append(" Cue");
    Cue { base: new_base(number, parent, name, armed), kind: new_kind(t), extra: 0 }
}

/// The show time at which a new cue is armed: only while the clock is paused,
/// so that cues added to a running show carry no trigger nobody asked for.
pub open spec fn armed_at(s: StateView) -> Option<Double> {
    if s.show_paused {
        s.show_time
    } else {
        None
    }
}

/// Whether `t` is what `s` becomes when a cue of this kind is added.
pub open spec fn added(s: StateView, cue_type: CueType, number: Qid, t: StateView) -> bool {
    let place = insertion_of(s.show_file.cues, s.selected_cue_id);
    let cue = t.show_file.cues[place.0];
    &&& is_new_cue(cue, cue_type, number, place.1, armed_at(s))
    &&& t == (StateView {
        selected_cue_id: Some(number),
        ..s.recorded().edited(s.show_file.cues.insert(place.0, cue))
    })
}

fn add_cue(state: &mut SharedState, cue_type: CueType, number: Qid)
    ensures
        added(old(state)@, cue_type, number, final(state)@),
{
    record(state);
    let place: (usize, Option<Qid>) = insertion(&state.show_file.cues, state.selected_cue_id);
    let armed: Option<Double> = if state.show_paused {
        state.show_time
    } else {
        None
    };
    let cue: Cue = new_cue(cue_type, number, place.1, armed);
    let ghost before = state@;
    state.show_file.cues.insert(place.0, cue);
    state.selected_cue_id = Some(number);
    state.dirty = true;
    proof {
        let all = old(state)@.show_file.cues;
        assert(state@.show_file.cues == all.insert(place.0 as int, cue));
        assert(state@.show_file.cues[place.0 as int] == cue);
        assert(state@ =~= (StateView {
            selected_cue_id: Some(number),
            ..before.edited(all.insert(place.0 as int, cue))
        }));
    }
}

/// The state after the cue at row `i` was deleted, a group with its members.
pub open spec fn deleted(s: StateView, i: int) -> StateView {
    let cues = s.show_file.cues;
    let end = span_end(cues, i);
    StateView {
        selected_cue_id: selection_after(cues, i, end),
        ..s.recorded().edited(cues.take(i) + cues.skip(end))
    }
}

fn delete_cue(state: &mut SharedState, qid: Option<Qid>)
    ensures
        final(state)@ == (match target_row(old(state)@, qid) {
            Some(i) => deleted(old(state)@, i),
            None => old(state)@,
        }),
{
    match row_of(state, qid) {
        Some((_, i)) => {
            record(state);
            let block: Block = span(&state.show_file.cues, i);
            let next: Option<Qid> = selection_after_removal(&state.show_file.cues, block);
            state.selected_cue_id = next;
            let ghost all = state.show_file.cues@;
            let mut tail: Vec<Cue> = state.show_file.cues.split_off(block.end);
            state.show_file.cues.truncate(block.start);
            state.show_file.cues.append(&mut tail);
            state.dirty = true;
            proof {
                assert(state.show_file.cues@ =~= all.take(i as int) + all.skip(block.end as int));
                assert(state@ =~= deleted(old(state)@, i as int));
            }
        },
        None => {},
    }
}

pub open spec fn any_midi(cues: Seq<Cue>) -> bool {
    exists|i: int| 0 <= i < cues.len() && (#[trigger] cues[i]).base.triggers.midi is Some
}

pub open spec fn any_hotkey(cues: Seq<Cue>) -> bool {
    exists|i: int| 0 <= i < cues.len() && (#[trigger] cues[i]).base.triggers.hotkey is Some
}

pub open spec fn any_timecode(cues: Seq<Cue>) -> bool {
    exists|i: int| 0 <= i < cues.len() && (#[trigger] cues[i]).base.triggers.timecode is Some
}

pub open spec fn any_wall_clock(cues: Seq<Cue>) -> bool {
    exists|i: int| 0 <= i < cues.len() && (#[trigger] cues[i]).base.triggers.wall_clock is Some
}

pub open spec fn one_if(b: bool, name: Seq<char>) -> Seq<Seq<char>> {
    if b {
        seq![name]
    } else {
        Seq::empty()
    }
}

/// The kinds of trigger that `cues` have, by name.
pub open spec fn trigger_names(cues: Seq<Cue>) -> Seq<Seq<char>> {
    one_if(any_midi(cues), "MIDI"@) + one_if(any_hotkey(cues), "hotkey"@) + one_if(
        any_timecode(cues),
        "timecode"@,
    ) + one_if(any_wall_clock(cues), "wall clock"@)
}

fn trigger_names_of(cues: &Vec<Cue>) -> (r: Vec<String>)
    ensures
        texts(r@) == trigger_names(cues@),
{
    let mut midi: bool = false;
    let mut hotkey: bool = false;
    let mut timecode: bool = false;
    let mut wall_clock: bool = false;
    let mut i: usize = 0;
    while i < cues.len()
        invariant
            i <= cues@.len(),
            midi == any_midi(cues@.take(i as int)),
            hotkey == any_hotkey(cues@.take(i as int)),
            timecode == any_timecode(cues@.take(i as int)),
            wall_clock == any_wall_clock(cues@.take(i as int)),
        decreases cues@.len() - i,
    {
        let ghost done = cues@.take(i as int);
        let ghost next = cues@.take(i + 1);
        proof {
            assert(forall|j: int| 0 <= j < i ==> #[trigger] next[j] == done[j]);
            assert(next[i as int] == cues@[i as int]);
        }
        let t: &CueTriggers = &cues[i].base.triggers;
        if t.midi.is_some() {
            midi = true;
            assert(next[i as int].base.triggers.midi is Some);
        }
        if t.hotkey.is_some() {
            hotkey = true;
            assert(next[i as int].base.triggers.hotkey is Some);
        }
        if t.timecode.is_some() {
            timecode = true;
            assert(next[i as int].base.triggers.timecode is Some);
        }
        if t.wall_clock.is_some() {
            wall_clock = true;
            assert(next[i as int].base.triggers.wall_clock is Some);
        }
        proof {
            if any_midi(done) {
                let j = choose|j: int|
                    0 <= j < done.len() && (#[trigger] done[j]).base.triggers.midi is Some;
                assert(next[j].base.triggers.midi is Some);
            }
            if any_hotkey(done) {
                let j = choose|j: int|
                    0 <= j < done.len() && (#[trigger] done[j]).base.triggers.hotkey is Some;
                assert(next[j].base.triggers.hotkey is Some);
            }
            if any_timecode(done) {
                let j = choose|j: int|
                    0 <= j < done.len() && (#[trigger] done[j]).base.triggers.timecode is Some;
                assert(next[j].base.triggers.timecode is Some);
            }
            if any_wall_clock(done) {
                let j = choose|j: int|
                    0 <= j < done.len() && (#[trigger] done[j]).base.triggers.wall_clock is Some;
                assert(next[j].base.triggers.wall_clock is Some);
            }
        }
        i = i + 1;
    }
    assert(cues@.take(i as int) =~= cues@);
    let mut r: Vec<String> = Vec::new();
    if midi {
        r.push("MIDI".to_owned());
    }
    if hotkey {
        r.push("hotkey".to_owned());
    }
    if timecode {
        r.push("timecode".to_owned());
    }
    if wall_clock {
        r.push("wall clock".to_owned());
    }
    assert(texts(r@) =~= trigger_names(cues@));
    r
}

/// What the operator is told where a copy answers to the same trigger.
pub open spec fn shared_text(id: Qid, names: Seq<Seq<char>>) -> Seq<char> {
    "The copy of Q"@ + id.text() + " shares its "@ + join(names, " and "@)
        + " trigger — both cues will fire"@
}

/// Whether `t` is what `s` becomes when the cue at row `i` is duplicated, a
/// group with its members: the copies stand right behind the block, the first
/// is selected, and triggers that two cues now share are reported.
pub open spec fn duplicated(
    s: StateView,
    i: int,
    id: Qid,
    numbers: Seq<Qid>,
    now: Moment,
    t: StateView,
) -> bool {
    let cues = s.show_file.cues;
    let end = span_end(cues, i);
    let copies = t.show_file.cues.subrange(end, end + (end - i));
    let before = sharing_reported(s.recorded(), id, copies, now);
    &&& t.show_file.cues.len() == cues.len() + (end - i)
    &&& forall|k: int|
        0 <= k < end - i ==> is_copy(
            #[trigger] copies[k],
            cues[i + k],
            numbers[k],
            cues[i].base.qid@,
            numbers[0],
        )
    &&& t == (StateView {
        selected_cue_id: Some(numbers[0]),
        ..before.edited(cues.take(end) + copies + cues.skip(end))
    })
}

/// How many numbers a duplicate of this cue needs: one for each of its rows.
pub fn duplicate_rows(state: &SharedState, qid: Option<Qid>) -> (n: usize)
    ensures
        n == (match target_row(state@, qid) {
            Some(i) => span_end(state@.show_file.cues, i) - i,
            None => 0,
        }),
{
    match row_of(state, qid) {
        Some((_, i)) => {
            let block: Block = span(&state.show_file.cues, i);
            block.end - block.start
        },
        None => 0,
    }
}

/// Whether `numbers` are enough for the copies of this cue.
pub open spec fn numbers_fit(s: StateView, qid: Option<Qid>, numbers: Seq<Qid>) -> bool {
    match target_row(s, qid) {
        Some(i) => numbers.len() == span_end(s.show_file.cues, i) - i,
        None => true,
    }
}

/// The state after triggers that copies share are reported.
pub open spec fn sharing_reported(
    s: StateView,
    id: Qid,
    copies: Seq<Cue>,
    now: Moment,
) -> StateView {
    let names = trigger_names(copies);
    if names.len() > 0 {
        s.alerted(shared_text(id, names), now)
    } else {
        s
    }
}

fn report_sharing(state: &mut SharedState, id: &Qid, copies: &Vec<Cue>, now: Moment)
    requires
        alert_fits(now),
    ensures
        final(state)@ == sharing_reported(old(state)@, *id, copies@, now),
{
    let shared: Vec<String> = trigger_names_of(copies);
    assert(shared@.len() == trigger_names(copies@).len()) by {
        assert(texts(shared@).len() == shared@.len());
    }
    if shared.len() > 0 {
        let mut message: String = "The copy of Q".to_owned();
        let number: String = id.to_text();
        message.append(number.as_str());
        message.append(" shares its ");
        let names: String = join_of(&shared, " and ");
        message.append(names.as_str());
        message.append(" trigger — both cues will fire");
        state.report_operator_error(message, now);
    }
}

fn put_rows(cues: &mut Vec<Cue>, at: usize, rows: Vec<Cue>)
    requires
        at <= old(cues)@.len(),
    ensures
        final(cues)@ == old(cues)@.take(at as int) + rows@ + old(cues)@.skip(at as int),
        final(cues)@.subrange(at as int, at + rows@.len()) == rows@,
{
    let mut rows: Vec<Cue> = rows;
    let ghost spec_rows = rows@;
    let mut tail: Vec<Cue> = cues.split_off(at);
    cues.append(&mut rows);
    cues.append(&mut tail);
    assert(cues@ =~= old(cues)@.take(at as int) + spec_rows + old(cues)@.skip(at as int));
    assert(cues@.subrange(at as int, at + spec_rows.len()) =~= spec_rows);
}

#[verifier::spinoff_prover]
#[verifier::rlimit(60)]
fn duplicate_cue(state: &mut SharedState, qid: Option<Qid>, numbers: &Vec<Qid>, now: Moment)
    requires
        numbers_fit(old(state)@, qid, numbers@),
        alert_fits(now),
    ensures
        match target_row(old(state)@, qid) {
            Some(i) => duplicated(
                old(state)@,
                i,
                target_of(qid, old(state)@.selected_cue_id)->0,
                numbers@,
                now,
                final(state)@,
            ),
            None => final(state)@ == old(state)@,
        },
{
    match row_of(state, qid) {
        Some((id, i)) => {
            record(state);
            let block: Block = span(&state.show_file.cues, i);
            let copies: Vec<Cue> = duplicate_span(&state.show_file.cues, block, numbers);
            let ghost spec_copies = copies@;
            report_sharing(state, &id, &copies, now);
            let ghost before = state@;
            put_rows(&mut state.show_file.cues, block.end, copies);
            state.selected_cue_id = Some(numbers[0]);
            state.dirty = true;
            proof {
                let end = block.end as int;
                let all = old(state)@.show_file.cues;
                assert(before.show_file.cues == all);
                assert(state@ =~= (StateView {
                    selected_cue_id: Some(numbers@[0]),
                    ..before.edited(all.take(end) + spec_copies + all.skip(end))
                }));
            }
        },
        None => {},
    }
}

/// The state after a cue was moved by one step; as it was where there is no
/// room to step. Repeated steps of one cue are one run of edits.
pub open spec fn nudged(s: StateView, qid: Option<Qid>, down: bool) -> StateView {
    match target_row(s, qid) {
        Some(i) => match nudge_of(s.show_file.cues, i, down) {
            Some(m) => s.recorded_as(
                run_key(target_of(qid, s.selected_cue_id)->0, "move"@),
            ).edited(moved(s.show_file.cues, m.0, m.1, m.2)),
            None => s,
        },
        None => s,
    }
}

/// Move a cue one step, a group with its members.
pub fn nudge_cue(state: &mut SharedState, qid: Option<Qid>, down: bool)
    ensures
        final(state)@ == nudged(old(state)@, qid, down),
{
    match row_of(state, qid) {
        Some((id, i)) => {
            let key: String = run_key_of(&id, "move");
            let mut cues: Vec<Cue> = clone_cues(&state.show_file.cues);
            if nudge(&mut cues, i, down) {
                record_as(state, key);
                edit_cues(state, cues);
            }
        },
        None => {},
    }
}

pub open spec fn with_parent(cue: Cue, parent: Option<Qid>) -> Cue {
    Cue { base: CueBase { parent, ..cue.base }, ..cue }
}

/// The state after a cue left its group: it stands right behind the group, so
/// that the members that stay are still one block.
pub open spec fn ungrouped(s: StateView, qid: Qid) -> StateView {
    let cues = s.show_file.cues;
    let i = position(cues, qid@) as int;
    if i < cues.len() && cues[i].base.parent is Some {
        let end = span_end(cues, block_head(cues, i));
        let freed = cues.update(i, with_parent(cues[i], None));
        s.recorded().edited(moved(freed, i, i + 1, end))
    } else {
        s
    }
}

fn ungroup_cue(state: &mut SharedState, qid: Qid)
    ensures
        final(state)@ == ungrouped(old(state)@, qid),
{
    match find_cue(&state.show_file.cues, &qid) {
        Some(i) => {
            if state.show_file.cues[i].base.parent.is_some() {
                record(state);
                let group: Block = enclosing_span(&state.show_file.cues, i);
                let ghost before = state@;
                state.show_file.cues[i].base.parent = None;
                let ghost freed = state.show_file.cues@;
                proof {
                    assert(freed =~= before.show_file.cues.update(
                        i as int,
                        with_parent(before.show_file.cues[i as int], None),
                    ));
                }
                move_span(&mut state.show_file.cues, Block { start: i, end: i + 1 }, group.end);
                state.dirty = true;
                assert(state@ =~= ungrouped(old(state)@, qid));
            }
        },
        None => {},
    }
}

/// The group a dragged cue ends up in: none for a group, and none where it was
/// dropped on itself.
pub open spec fn dropped_parent(dragged: Cue, parent: Option<Qid>) -> Option<Qid> {
    if dragged.is_group() || qid_opt(parent) == Some(dragged.base.qid@) {
        None
    } else {
        parent
    }
}

/// The row a dragged cue is put before: a group never into the middle of
/// another block. Past the end of the list is a place of its own.
pub open spec fn dropped_row(cues: Seq<Cue>, from: int, to: int) -> int {
    if cues[from].is_group() && to < cues.len() {
        block_head(cues, to)
    } else {
        to
    }
}

/// A row of the list, or its end.
pub open spec fn row_within(cues: Seq<Cue>, row: int) -> int {
    if row > cues.len() {
        cues.len() as int
    } else {
        row
    }
}

/// The state after a cue, a group with its members, was dragged to another
/// row or into another group. A drop that changes neither is no edit.
pub open spec fn dragged(s: StateView, from: int, to: int, parent: Option<Qid>) -> StateView {
    let cues = s.show_file.cues;
    if from < cues.len() {
        let end = span_end(cues, from);
        let joined = dropped_parent(cues[from], parent);
        let row = dropped_row(cues, from, to);
        let moves = row < from || row > end;
        if moves || qid_opt(cues[from].base.parent) != qid_opt(joined) {
            s.recorded().edited(
                moved(
                    cues.update(from, with_parent(cues[from], joined)),
                    from,
                    end,
                    row_within(cues, row),
                ),
            )
        } else {
            s
        }
    } else {
        s
    }
}

fn move_cue(state: &mut SharedState, from_idx: usize, to_idx: usize, parent: Option<Qid>)
    ensures
        final(state)@ == dragged(old(state)@, from_idx as int, to_idx as int, parent),
{
    if from_idx >= state.show_file.cues.len() {
        return;
    }
    let n: usize = state.show_file.cues.len();
    let block: Block = span(&state.show_file.cues, from_idx);
    let is_group: bool = state.show_file.cues[from_idx].group();
    let own: Option<Qid> = Some(state.show_file.cues[from_idx].base.qid);
    let joined: Option<Qid> = if is_group || same_qid_opt(&parent, &own) {
        None
    } else {
        parent
    };
    let row: usize = if is_group && to_idx < n {
        enclosing_span(&state.show_file.cues, to_idx).start
    } else {
        to_idx
    };
    let moves: bool = row < block.start || row > block.end;
    let regroups: bool = !same_qid_opt(&state.show_file.cues[from_idx].base.parent, &joined);
    if moves || regroups {
        record(state);
        let ghost before = state@;
        let mut cues: Vec<Cue> = clone_cues(&state.show_file.cues);
        cues[block.start].base.parent = joined;
        proof {
            assert(cues@ =~= before.show_file.cues.update(
                from_idx as int,
                with_parent(before.show_file.cues[from_idx as int], joined),
            ));
        }
        let within: usize = if row > n {
            n
        } else {
            row
        };
        move_span(&mut cues, block, within);
        edit_cues(state, cues);
    }
}

pub open spec fn renumbered_ref(q: Qid, from: (int, nat), to: Qid) -> Qid {
    if q@ == from {
        to
    } else {
        q
    }
}

/// What a cue does once the cue `from` is numbered `to`: stops, volume changes
/// and jumps follow the cue they name.
pub open spec fn renumbered_kind(kind: CueKind, from: (int, nat), to: Qid) -> CueKind {
    match kind {
        CueKind::Stop { stop_qid, stop_mode, fade_out_time, fade_type, stop_all } =>
            CueKind::Stop {
            stop_qid: renumbered_ref(stop_qid, from, to),
            stop_mode,
            fade_out_time,
            fade_type,
            stop_all,
        },
        CueKind::Volume { sound_qid, fade_time, volume, fade_type } => CueKind::Volume {
            sound_qid: renumbered_ref(sound_qid, from, to),
            fade_time,
            volume,
            fade_type,
        },
        CueKind::Goto { target_qid } => CueKind::Goto {
            target_qid: renumbered_ref(target_qid, from, to),
        },
        other => other,
    }
}

/// A cue once the cue `from` is numbered `to`; `own` where it is that cue.
pub open spec fn renumbered_cue(cue: Cue, from: (int, nat), to: Qid, own: bool) -> Cue {
    Cue {
        base: CueBase {
            qid: if own {
                to
            } else {
                cue.base.qid
            },
            parent: match cue.base.parent {
                Some(p) => Some(renumbered_ref(p, from, to)),
                None => None,
            },
            ..cue.base
        },
        kind: renumbered_kind(cue.kind, from, to),
        extra: cue.extra,
    }
}

/// The cues once the one at row `i`, numbered `from`, is numbered `to`.
pub open spec fn renumbered(cues: Seq<Cue>, i: int, from: (int, nat), to: Qid) -> Seq<Cue> {
    Seq::new(cues.len(), |k: int| renumbered_cue(cues[k], from, to, k == i))
}

/// A new number keeps the numbers unique, where no other cue had it.
pub proof fn renumbering_keeps_numbers_unique(cues: Seq<Cue>, i: int, to: Qid)
    requires
        0 <= i < cues.len(),
        numbers_unique(cues),
        !has_cue(cues, to@),
    ensures
        numbers_unique(renumbered(cues, i, cues[i].base.qid@, to)),
{
    let r = renumbered(cues, i, cues[i].base.qid@, to);
    assert forall|j: int, k: int| 0 <= j < k < r.len() implies (#[trigger] r[j]).base.qid@ != (
    #[trigger] r[k]).base.qid@ by {
        assert(cues[j].base.qid@ != cues[k].base.qid@);
        assert(cues[j].base.qid@ != to@);
        assert(cues[k].base.qid@ != to@);
    }
}

/// Whether some cue refers to the cue `id`: as its group, or as what it stops,
/// fades or jumps to.
pub open spec fn refers(cue: Cue, id: (int, nat)) -> bool {
    ||| qid_opt(cue.base.parent) == Some(id)
    ||| cue.kind is Stop && cue.kind->stop_qid@ == id
    ||| cue.kind is Volume && cue.kind->sound_qid@ == id
    ||| cue.kind is Goto && cue.kind->target_qid@ == id
}

/// Every reference to a renumbered cue follows it: a cue that referred to the
/// old number refers to the new one, and none is left behind.
pub proof fn references_follow_a_new_number(
    cues: Seq<Cue>,
    i: int,
    from: (int, nat),
    to: Qid,
    k: int,
)
    requires
        0 <= k < cues.len(),
        from != to@,
    ensures
        refers(cues[k], from) ==> refers(renumbered(cues, i, from, to)[k], to@),
        !refers(renumbered(cues, i, from, to)[k], from),
{
}

fn renumber_ref(q: Qid, from: &Qid, to: Qid) -> (r: Qid)
    ensures
        r == renumbered_ref(q, from@, to),
{
    if q.same(from) {
        to
    } else {
        q
    }
}

fn renumber_cue(cue: &mut Cue, from: &Qid, to: Qid, own: bool)
    ensures
        *final(cue) == renumbered_cue(*old(cue), from@, to, own),
{
    if own {
        cue.base.qid = to;
    }
    cue.base.parent = match cue.base.parent {
        Some(p) => Some(renumber_ref(p, from, to)),
        None => None,
    };
    match &mut cue.kind {
        CueKind::Stop { stop_qid, .. } => {
            *stop_qid = renumber_ref(*stop_qid, from, to);
        },
        CueKind::Volume { sound_qid, .. } => {
            *sound_qid = renumber_ref(*sound_qid, from, to);
        },
        CueKind::Goto { target_qid } => {
            *target_qid = renumber_ref(*target_qid, from, to);
        },
        _ => {},
    }
}

fn renumber_all(cues: &mut Vec<Cue>, i: usize, from: &Qid, to: Qid)
    requires
        i < old(cues)@.len(),
    ensures
        final(cues)@ == renumbered(old(cues)@, i as int, from@, to),
{
    let ghost all = cues@;
    let mut k: usize = 0;
    while k < cues.len()
        invariant
            k <= cues@.len(),
            cues@.len() == all.len(),
            forall|j: int|
                0 <= j < k ==> (#[trigger] cues@[j]) == renumbered_cue(
                    all[j],
                    from@,
                    to,
                    j == i,
                ),
            forall|j: int| k <= j < all.len() ==> (#[trigger] cues@[j]) == all[j],
        decreases cues@.len() - k,
    {
        renumber_cue(&mut cues[k], from, to, k == i);
        k = k + 1;
    }
    assert(cues@ =~= renumbered(all, i as int, from@, to));
}

/// What the operator is told where a number is taken.
pub open spec fn taken_text(new_qid: Qid, qid: Qid) -> Seq<char> {
    "Q"@ + new_qid.text() + " is already in use — Q"@ + qid.text() + " keeps its number"@
}

/// The state after a cue was given a new number: a number in use is refused;
/// otherwise everything that referred to the cue, the selection too, follows.
pub open spec fn requalified(s: StateView, qid: Qid, new_qid: Qid, now: Moment) -> StateView {
    let cues = s.show_file.cues;
    let i = position(cues, qid@) as int;
    if has_cue(cues, new_qid@) {
        s.alerted(taken_text(new_qid, qid), now)
    } else if i < cues.len() {
        StateView {
            selected_cue_id: if qid_opt(s.selected_cue_id) == Some(qid@) {
                Some(new_qid)
            } else {
                s.selected_cue_id
            },
            ..s.recorded_as(run_key(qid, "qid"@)).edited(renumbered(cues, i, qid@, new_qid))
        }
    } else {
        s
    }
}

fn update_cue_qid(state: &mut SharedState, qid: Qid, new_qid: Qid, now: Moment)
    requires
        alert_fits(now),
    ensures
        final(state)@ == requalified(old(state)@, qid, new_qid, now),
{
    if find_cue(&state.show_file.cues, &new_qid).is_some() {
        let mut message: String = "Q".to_owned();
        let wanted: String = new_qid.to_text();
        message.append(wanted.as_str());
        message.append(" is already in use — Q");
        let kept: String = qid.to_text();
        message.append(kept.as_str());
        message.append(" keeps its number");
        state.report_operator_error(message, now);
        return;
    }
    match find_cue(&state.show_file.cues, &qid) {
        Some(i) => {
            let key: String = run_key_of(&qid, "qid");
            record_as(state, key);
            let follows: bool = match &state.selected_cue_id {
                Some(id) => id.same(&qid),
                None => false,
            };
            let mut cues: Vec<Cue> = clone_cues(&state.show_file.cues);
            renumber_all(&mut cues, i, &qid, new_qid);
            edit_cues(state, cues);
            if follows {
                state.selected_cue_id = Some(new_qid);
            }
        },
        None => {},
    }
}

pub open spec fn with_name(cue: Cue, name: String) -> Cue {
    Cue { base: CueBase { name, ..cue.base }, ..cue }
}

pub open spec fn with_trigger(cue: Cue, trigger: TriggerMode) -> Cue {
    Cue { base: CueBase { trigger, ..cue.base }, ..cue }
}

/// The state after a cue was renamed.
pub open spec fn renamed(s: StateView, qid: Qid, name: String) -> StateView {
    let cues = s.show_file.cues;
    let i = position(cues, qid@) as int;
    if i < cues.len() {
        s.recorded_as(run_key(qid, "name"@)).edited(cues.update(i, with_name(cues[i], name)))
    } else {
        s
    }
}

fn update_cue_name(state: &mut SharedState, qid: Qid, name: String)
    ensures
        final(state)@ == renamed(old(state)@, qid, name),
{
    match find_cue(&state.show_file.cues, &qid) {
        Some(i) => {
            let key: String = run_key_of(&qid, "name");
            record_as(state, key);
            state.show_file.cues[i].base.name = name;
            state.dirty = true;
            assert(state@ =~= renamed(old(state)@, qid, name));
        },
        None => {},
    }
}

/// The state after a cue was given another start.
pub open spec fn retriggered(s: StateView, qid: Qid, trigger: TriggerMode) -> StateView {
    let cues = s.show_file.cues;
    let i = position(cues, qid@) as int;
    if i < cues.len() {
        s.recorded_as(run_key(qid, "trigger"@)).edited(
            cues.update(i, with_trigger(cues[i], trigger)),
        )
    } else {
        s
    }
}

fn update_cue_trigger(state: &mut SharedState, qid: Qid, trigger: TriggerMode)
    ensures
        final(state)@ == retriggered(old(state)@, qid, trigger),
{
    match find_cue(&state.show_file.cues, &qid) {
        Some(i) => {
            let key: String = run_key_of(&qid, "trigger");
            record_as(state, key);
            state.show_file.cues[i].base.trigger = trigger;
            state.dirty = true;
            assert(state@ =~= retriggered(old(state)@, qid, trigger));
        },
        None => {},
    }
}

/// What is said of a cue that is not there.
pub open spec fn missing_text(id: Qid) -> Seq<char> {
    "cue Q"@ + id.text() + " not found"@
}

/// Select a cue by its number.
pub fn select_cue(state: &mut SharedState, id: Qid) -> (r: Result<(), String>)
    ensures
        match r {
            Ok(_) => has_cue(old(state)@.show_file.cues, id@) && final(state)@ == (StateView {
                selected_cue_id: Some(id),
                ..old(state)@
            }),
            Err(e) => !has_cue(old(state)@.show_file.cues, id@) && e@ == missing_text(id)
                && final(state)@ == old(state)@,
        },
{
    if find_cue(&state.show_file.cues, &id).is_some() {
        state.selected_cue_id = Some(id);
        Ok(())
    } else {
        let mut e: String = "cue Q".to_owned();
        let number: String = id.to_text();
        e.append(number.as_str());
        e.append(" not found");
        Err(e)
    }
}

/// The state after the selection was moved by a step.
pub open spec fn navigated(s: StateView, step: SelectionStep) -> StateView {
    match stepped(s.show_file.cues, s.selected_cue_id, step) {
        Some(id) => StateView { selected_cue_id: Some(id), ..s },
        None => s,
    }
}

fn navigate(state: &mut SharedState, step: SelectionStep)
    ensures
        final(state)@ == navigated(old(state)@, step),
{
    match step_selection(&state.show_file.cues, state.selected_cue_id, step) {
        Some(id) => {
            state.selected_cue_id = Some(id);
        },
        None => {},
    }
}

/// Whether a command finds what it needs: numbers for the cues it copies.
pub open spec fn command_ready(s: StateView, cmd: AppCommand, numbers: Seq<Qid>) -> bool {
    match cmd {
        AppCommand::DuplicateCue { qid } => s.show_mode == ShowMode::Show || numbers_fit(
            s,
            qid,
            numbers,
        ),
        _ => true,
    }
}

/// Whether `t` and `out` are what a command makes of the state `s`.
pub open spec fn carried_out(
    s: StateView,
    cmd: AppCommand,
    next_qid: Qid,
    numbers: Seq<Qid>,
    now: Moment,
    t: StateView,
    out: Outcome,
) -> bool {
    if s.show_mode == ShowMode::Show && cmd.is_cue_edit() {
        t == s && out == Outcome::Locked
    } else {
        match cmd {
            AppCommand::NewProject => {
                let asked = after_discard_check(s, AppCommand::NewProject);
                if may_discard(s) {
                    begun(asked, t) && out == Outcome::Done
                } else {
                    t == asked && out == Outcome::Parked
                }
            },
            AppCommand::OpenProject { path } => {
                let asked = after_discard_check(s, cmd);
                t == asked && out == (if may_discard(s) {
                    Outcome::Open(path)
                } else {
                    Outcome::Parked
                })
            },
            AppCommand::SaveProject => t == s && out == Outcome::Save(s.project_path),
            AppCommand::SaveProjectAs { path } => t == s && out == Outcome::Save(Some(path)),
            AppCommand::PackProject { path } => t == s && out == Outcome::Pack(path),
            AppCommand::SelectCue(id) => if has_cue(s.show_file.cues, id@) {
                t == (StateView { selected_cue_id: Some(id), ..s }) && out == Outcome::Done
            } else {
                t == s && out is Warned && out->Warned_0@ == missing_text(id)
            },
            AppCommand::SelectPreviousCue => t == navigated(s, SelectionStep::Previous) && out
                == Outcome::Done,
            AppCommand::SelectNextCue => t == navigated(s, SelectionStep::Next) && out
                == Outcome::Done,
            AppCommand::SelectFirstCue => t == navigated(s, SelectionStep::First) && out
                == Outcome::Done,
            AppCommand::SelectLastCue => t == navigated(s, SelectionStep::Last) && out
                == Outcome::Done,
            AppCommand::Undo => t == after_undo(s) && out == Outcome::Done,
            AppCommand::Redo => t == after_redo(s) && out == Outcome::Done,
            AppCommand::AddCue { cue_type } => added(s, cue_type, next_qid, t) && out
                == Outcome::Done,
            AppCommand::DeleteCue { qid } => t == (match target_row(s, qid) {
                Some(i) => deleted(s, i),
                None => s,
            }) && out == Outcome::Done,
            AppCommand::DuplicateCue { qid } => out == Outcome::Done && (match target_row(s, qid) {
                Some(i) => duplicated(
                    s,
                    i,
                    target_of(qid, s.selected_cue_id)->0,
                    numbers,
                    now,
                    t,
                ),
                None => t == s,
            }),
            AppCommand::MoveCueUp { qid } => t == nudged(s, qid, false) && out == Outcome::Done,
            AppCommand::MoveCueDown { qid } => t == nudged(s, qid, true) && out == Outcome::Done,
            AppCommand::UngroupCue { qid } => t == ungrouped(s, qid) && out == Outcome::Done,
            AppCommand::MoveCue { from_idx, to_idx, parent } => t == dragged(
                s,
                from_idx as int,
                to_idx as int,
                parent,
            ) && out == Outcome::Done,
            AppCommand::UpdateCueQid { qid, new_qid } => t == requalified(s, qid, new_qid, now)
                && out == Outcome::Done,
            AppCommand::UpdateCueName { qid, name } => t == renamed(s, qid, name) && out
                == Outcome::Done,
            AppCommand::UpdateCueTrigger { qid, trigger } => t == retriggered(s, qid, trigger)
                && out == Outcome::Done,
            other => t == s && out == Outcome::Unhandled(other),
        }
    }
}

/// Carry out a command on the state. `next_qid` is the number of the cue it
/// may add, `numbers` those of the cues it may copy.
pub fn process_command(
    state: &mut SharedState,
    cmd: AppCommand,
    next_qid: Qid,
    numbers: &Vec<Qid>,
    now: Moment,
) -> (out: Outcome)
    requires
        command_ready(old(state)@, cmd, numbers@),
        alert_fits(now),
    ensures
        carried_out(old(state)@, cmd, next_qid, numbers@, now, final(state)@, out),
{
    if cmd.edits_cues() && state.show_mode == ShowMode::Show {
        return Outcome::Locked;
    }
    match cmd {
        AppCommand::NewProject => {
            if !confirm_discard(state, AppCommand::NewProject) {
                return Outcome::Parked;
            }
            new_project(state);
            Outcome::Done
        },
        AppCommand::OpenProject { path } => {
            let wanted: FilePath = path.clone();
            if !confirm_discard(state, AppCommand::OpenProject { path }) {
                return Outcome::Parked;
            }
            Outcome::Open(wanted)
        },
        AppCommand::SaveProject => Outcome::Save(clone_path_opt(&state.project_path)),
        AppCommand::SaveProjectAs { path } => Outcome::Save(Some(path)),
        AppCommand::PackProject { path } => Outcome::Pack(path),
        AppCommand::SelectCue(id) => match select_cue(state, id) {
            Ok(_) => Outcome::Done,
            Err(e) => Outcome::Warned(e),
        },
        AppCommand::SelectPreviousCue => {
            navigate(state, SelectionStep::Previous);
            Outcome::Done
        },
        AppCommand::SelectNextCue => {
            navigate(state, SelectionStep::Next);
            Outcome::Done
        },
        AppCommand::SelectFirstCue => {
            navigate(state, SelectionStep::First);
            Outcome::Done
        },
        AppCommand::SelectLastCue => {
            navigate(state, SelectionStep::Last);
            Outcome::Done
        },
        AppCommand::Undo => {
            undo_step(state);
            Outcome::Done
        },
        AppCommand::Redo => {
            redo_step(state);
            Outcome::Done
        },
        AppCommand::AddCue { cue_type } => {
            add_cue(state, cue_type, next_qid);
            Outcome::Done
        },
        AppCommand::DeleteCue { qid } => {
            delete_cue(state, qid);
            Outcome::Done
        },
        AppCommand::DuplicateCue { qid } => {
            duplicate_cue(state, qid, numbers, now);
            Outcome::Done
        },
        AppCommand::MoveCueUp { qid } => {
            nudge_cue(state, qid, false);
            Outcome::Done
        },
        AppCommand::MoveCueDown { qid } => {
            nudge_cue(state, qid, true);
            Outcome::Done
        },
        AppCommand::UngroupCue { qid } => {
            ungroup_cue(state, qid);
            Outcome::Done
        },
        AppCommand::MoveCue { from_idx, to_idx, parent } => {
            move_cue(state, from_idx, to_idx, parent);
            Outcome::Done
        },
        AppCommand::UpdateCueQid { qid, new_qid } => {
            update_cue_qid(state, qid, new_qid, now);
            Outcome::Done
        },
        AppCommand::UpdateCueName { qid, name } => {
            update_cue_name(state, qid, name);
            Outcome::Done
        },
        AppCommand::UpdateCueTrigger { qid, trigger } => {
            update_cue_trigger(state, qid, trigger);
            Outcome::Done
        },
        other => Outcome::Unhandled(other),
    }
}

/// Take all waiting commands off the queue.
pub fn take_commands(state: &mut SharedState) -> (r: Vec<AppCommand>)
    ensures
        r@ == old(state)@.command_queue,
        final(state)@ == (StateView { command_queue: Seq::empty(), ..old(state)@ }),
{
    let mut r: Vec<AppCommand> = Vec::new();
    std::mem::swap(&mut r, &mut state.command_queue);
    r
}

/// Put commands that are for someone else back on the queue, behind those that
/// came in meanwhile.
pub fn put_back(state: &mut SharedState, unhandled: Vec<AppCommand>)
    ensures
        final(state)@ == (StateView {
            command_queue: old(state)@.command_queue + unhandled@,
            ..old(state)@
        }),
{
    let mut unhandled: Vec<AppCommand> = unhandled;
    state.command_queue.append(&mut unhandled);
}

/// The commands that came back from their dispatch, in order.
pub open spec fn refused(outcomes: Seq<Result<(), AppCommand>>) -> Seq<AppCommand>
    decreases outcomes.len(),
{
    if outcomes.len() == 0 {
        Seq::empty()
    } else {
        match outcomes.last() {
            Ok(_) => refused(outcomes.drop_last()),
            Err(command) => refused(outcomes.drop_last()).push(command),
        }
    }
}

/// Dispatch every waiting command in order. Those that come back stay on the
/// queue.
pub fn drain_app_commands<F: FnMut(AppCommand) -> Result<(), AppCommand>>(
    state: &mut SharedState,
    mut dispatch: F,
)
    requires
        forall|command: AppCommand| #[trigger] call_requires(dispatch, (command,)),
    ensures
        exists|outcomes: Seq<Result<(), AppCommand>>|
            {
                &&& outcomes.len() == old(state)@.command_queue.len()
                &&& forall|i: int|
                    0 <= i < outcomes.len() ==> call_ensures(
                        dispatch,
                        (old(state)@.command_queue[i],),
                        #[trigger] outcomes[i],
                    )
                &&& final(state)@ == (StateView {
                    command_queue: #[trigger] refused(outcomes),
                    ..old(state)@
                })
            },
{
    let commands: Vec<AppCommand> = take_commands(state);
    let mut unhandled: Vec<AppCommand> = Vec::new();
    let ghost mut outcomes: Seq<Result<(), AppCommand>> = Seq::empty();
    let ghost given = dispatch;
    for command in it: commands
        invariant
            dispatch == given,
            it.seq() == old(state)@.command_queue,
            forall|command: AppCommand| #[trigger] call_requires(dispatch, (command,)),
            outcomes.len() == it.index(),
            forall|i: int|
                0 <= i < outcomes.len() ==> call_ensures(
                    dispatch,
                    (old(state)@.command_queue[i],),
                    #[trigger] outcomes[i],
                ),
            unhandled@ == refused(outcomes),
    {
        let outcome: Result<(), AppCommand> = dispatch(command);
        proof {
            assert(outcomes.push(outcome).drop_last() =~= outcomes);
            outcomes = outcomes.push(outcome);
        }
        match outcome {
            Ok(_) => {},
            Err(command) => {
                unhandled.push(command);
            },
        }
    }
    put_back(state, unhandled);
    assert(state@.command_queue == refused(outcomes));
}

/// While the show runs, no command that edits cues has any effect.
pub proof fn show_mode_refuses_cue_edits(
    s: StateView,
    cmd: AppCommand,
    next_qid: Qid,
    numbers: Seq<Qid>,
    now: Moment,
    t: StateView,
    out: Outcome,
)
    requires
        s.show_mode == ShowMode::Show,
        cmd.is_cue_edit(),
        carried_out(s, cmd, next_qid, numbers, now, t, out),
    ensures
        t == s,
{
}

/// No command changes the operator's mode.
pub proof fn commands_keep_the_mode(
    s: StateView,
    cmd: AppCommand,
    next_qid: Qid,
    numbers: Seq<Qid>,
    now: Moment,
    t: StateView,
    out: Outcome,
)
    requires
        carried_out(s, cmd, next_qid, numbers, now, t, out),
    ensures
        t.show_mode == s.show_mode,
{
}

/// While the show runs, no command but a new project changes the cues, and
/// that one only once the operator agreed or there is nothing to lose.
pub proof fn show_mode_protects_the_cues(
    s: StateView,
    cmd: AppCommand,
    next_qid: Qid,
    numbers: Seq<Qid>,
    now: Moment,
    t: StateView,
    out: Outcome,
)
    requires
        s.show_mode == ShowMode::Show,
        carried_out(s, cmd, next_qid, numbers, now, t, out),
        t.show_file.cues != s.show_file.cues,
    ensures
        cmd is NewProject,
        may_discard(s),
{
}

/// Selecting a cue, by number or by a step, is no edit: neither the project
/// nor the edit history changes.
pub proof fn selecting_is_not_an_edit(
    s: StateView,
    cmd: AppCommand,
    next_qid: Qid,
    numbers: Seq<Qid>,
    now: Moment,
    t: StateView,
    out: Outcome,
)
    requires
        carried_out(s, cmd, next_qid, numbers, now, t, out),
        cmd is SelectCue || cmd is SelectPreviousCue || cmd is SelectNextCue
            || cmd is SelectFirstCue || cmd is SelectLastCue,
    ensures
        t.show_file == s.show_file,
        t.undo_redo == s.undo_redo,
        t.dirty == s.dirty,
        t.show_mode == s.show_mode,
        t.command_queue == s.command_queue,
{
}

/// A command that discards the project runs only where the operator agreed, or
/// there is nothing to lose; otherwise it waits, and the project stays.
pub proof fn discarding_is_confirmed(
    s: StateView,
    cmd: AppCommand,
    next_qid: Qid,
    numbers: Seq<Qid>,
    now: Moment,
    t: StateView,
    out: Outcome,
)
    requires
        cmd is NewProject || cmd is OpenProject,
        carried_out(s, cmd, next_qid, numbers, now, t, out),
        s.dirty || s.active_cues.len() > 0,
        !s.discard_confirmed,
    ensures
        out == Outcome::Parked,
        t == (StateView { pending_discard_confirm: t.pending_discard_confirm, ..s }),
        t.pending_discard_confirm == Some(cmd),
{
}

/// Undoing a recorded edit gives the project back as it was before the edit,
/// whatever the edit changed.
pub proof fn undo_restores_the_project(s: StateView, edited: StateView)
    requires
        !s.undo_redo.suppress,
        s.undo_redo.max_depth > 0,
        edited.undo_redo == s.recorded().undo_redo,
    ensures
        after_undo(edited).show_file == s.show_file,
        after_undo(edited).project_path == s.project_path,
        after_undo(edited).selected_cue_id == s.selected_cue_id,
        after_undo(edited).dirty == s.dirty,
        after_undo(edited).show_mode == edited.show_mode,
{
    let stack = s.undo_redo.undo.push(s.snapshot());
    if stack.len() > s.undo_redo.max_depth {
        assert(stack.drop_first().last() == s.snapshot());
    }
}

/// Redoing an undone edit gives the project back as it was before the undo.
pub proof fn redo_restores_the_project(s: StateView)
    requires
        s.undo_redo.undo.len() > 0,
    ensures
        after_redo(after_undo(s)).show_file == s.show_file,
        after_redo(after_undo(s)).project_path == s.project_path,
        after_redo(after_undo(s)).selected_cue_id == s.selected_cue_id,
        after_redo(after_undo(s)).dirty == s.dirty,
{
}

/// Deleting a group takes its members along: of the rows behind it up to the
/// first that is no member, none is left, and all other cues stay in order.
pub proof fn deleting_a_group_takes_its_members(s: StateView, i: int)
    requires
        0 <= i < s.show_file.cues.len(),
        s.show_file.cues[i].is_group(),
    ensures
        ({
            let cues = s.show_file.cues;
            let end = span_end(cues, i);
            &&& i < end <= cues.len()
            &&& forall|j: int|
                i < j < end ==> qid_opt((#[trigger] cues[j]).base.parent) == Some(
                    cues[i].base.qid@,
                )
            &&& end < cues.len() ==> qid_opt(cues[end].base.parent) != Some(cues[i].base.qid@)
            &&& deleted(s, i).show_file.cues == cues.take(i) + cues.skip(end)
        }),
{
    crate::cue_order::group_block_is_contiguous(s.show_file.cues, i);
}

/// Dragging a cue neither adds nor removes one.
pub proof fn dragging_keeps_the_number_of_cues(
    s: StateView,
    from: int,
    to: int,
    parent: Option<Qid>,
)
    requires
        0 <= from < s.show_file.cues.len(),
        0 <= to,
    ensures
        dragged(s, from, to, parent).show_file.cues.len() == s.show_file.cues.len(),
{
    let cues = s.show_file.cues;
    if cues[from].is_group() {
        crate::cue_order::group_block_is_contiguous(cues, from);
    }
}

/// Import parts of another show. `imported` is the show with those parts
/// copied into it.
pub open spec fn imported_state(
    s: StateView,
    imported: ShowView,
    sections: ImportSections,
) -> StateView {
    StateView {
        show_file: imported,
        dirty: true,
        project_generation: if sections.projection || sections.lighting {
            next_generation(s.project_generation)
        } else {
            s.project_generation
        },
        command_queue: if sections.show_settings {
            with_audio_apply(s.command_queue)
        } else {
            s.command_queue
        },
        ..s.recorded()
    }
}

/// Import parts of another show: one edit, after which outputs and audio are
/// set up anew where they are concerned.
pub fn apply_project_import(state: &mut SharedState, imported: ShowFile, sections: ImportSections)
    ensures
        final(state)@ == imported_state(old(state)@, imported@, sections),
{
    let ghost show = imported@;
    record(state);
    state.show_file = imported;
    state.dirty = true;
    if sections.projection || sections.lighting {
        state.project_generation = if state.project_generation == u64::MAX {
            0
        } else {
            state.project_generation + 1
        };
    }
    if sections.show_settings {
        queue_audio_settings_apply(state);
    }
    assert(state@ =~= imported_state(old(state)@, show, sections));
}

/// Whether row `k` is the first one with this number.
pub open spec fn first_row(cues: Seq<Cue>, id: (int, nat), k: int) -> bool {
    &&& 0 <= k < cues.len()
    &&& cues[k].base.qid@ == id
    &&& forall|j: int| 0 <= j < k ==> (#[trigger] cues[j]).base.qid@ != id
}

/// Whether no row has this number.
pub open spec fn no_row(cues: Seq<Cue>, id: (int, nat)) -> bool {
    forall|j: int| 0 <= j < cues.len() ==> (#[trigger] cues[j]).base.qid@ != id
}

pub(crate) proof fn lemma_first_row(cues: Seq<Cue>, id: (int, nat), k: int)
    requires
        first_row(cues, id, k),
    ensures
        position(cues, id) == k,
        has_cue(cues, id),
{
    crate::show::lemma_position(cues, id);
    let p = position(cues, id) as int;
    if p < k {
        assert(cues[p].base.qid@ == id);
    } else if p > k {
        assert(cues[k].base.qid@ != id);
    }
}

pub(crate) proof fn lemma_no_row(cues: Seq<Cue>, id: (int, nat))
    requires
        no_row(cues, id),
    ensures
        position(cues, id) == cues.len(),
        !has_cue(cues, id),
{
    crate::show::lemma_position(cues, id);
}

/// While the show runs, the commands that edit cues are refused and change
/// nothing; no other command is refused, and none is while it does not run.
#[verifier::rlimit(60)]
pub proof fn a_running_show_is_locked(
    state: &mut SharedState,
    cmd: AppCommand,
    next_qid: Qid,
    numbers: &Vec<Qid>,
    now: Moment,
    out: Outcome,
)
    requires
        call_ensures(process_command, (state, cmd, next_qid, numbers, now), out),
    ensures
        ({
            let edits = cmd is Undo || cmd is Redo || cmd is AddCue || cmd is DeleteCue
                || cmd is DuplicateCue || cmd is MoveCueUp || cmd is MoveCueDown
                || cmd is UngroupCue || cmd is MoveCue || cmd is UpdateCueQid
                || cmd is UpdateCueName || cmd is UpdateCueTrigger;
            let locked = edits && old(state)@.show_mode == ShowMode::Show;
            &&& out is Locked <==> locked
            &&& locked ==> final(state)@ == old(state)@
        }),
{
}

/// A cue that is there can be selected by its number; of one that is not there
/// the operator is told, and the selection stays.
#[verifier::rlimit(60)]
pub proof fn a_number_selects_its_cue(
    state: &mut SharedState,
    id: Qid,
    next_qid: Qid,
    numbers: &Vec<Qid>,
    now: Moment,
    out: Outcome,
)
    requires
        call_ensures(
            process_command,
            (state, AppCommand::SelectCue(id), next_qid, numbers, now),
            out,
        ),
    ensures
        ({
            let s = old(state)@;
            let t = final(state)@;
            &&& (exists|k: int| #[trigger] first_row(s.show_file.cues, id@, k)) ==> out is Done
                && t.selected_cue_id == Some(id)
            &&& no_row(s.show_file.cues, id@) ==> out is Warned && out->Warned_0@ == "cue Q"@
                + id.text() + " not found"@ && t == s
            &&& t.show_file == s.show_file
            &&& t.undo_redo == s.undo_redo
            &&& t.dirty == s.dirty
            &&& t.command_queue == s.command_queue
        }),
{
    let cues = old(state)@.show_file.cues;
    if exists|k: int| #[trigger] first_row(cues, id@, k) {
        let k = choose|k: int| #[trigger] first_row(cues, id@, k);
        lemma_first_row(cues, id@, k);
    }
    if no_row(cues, id@) {
        lemma_no_row(cues, id@);
    }
}

/// The selection steps to the row above or below, or to either end, and no
/// further than the list goes; without a selection it comes in from the other
/// end.
#[verifier::rlimit(60)]
pub proof fn the_selection_steps_row_by_row(
    cues: &Vec<Cue>,
    current: Option<Qid>,
    step: SelectionStep,
    r: Option<Qid>,
    k: int,
)
    requires
        call_ensures(step_selection, (cues, current, step), r),
    ensures
        cues@.len() == 0 ==> r is None,
        cues@.len() > 0 ==> {
            let last = cues@.len() - 1;
            &&& step is First ==> r == Some(cues@[0].base.qid)
            &&& step is Last ==> r == Some(cues@[last].base.qid)
            &&& current is None || no_row(cues@, (current->0)@) ==> {
                &&& step is Next ==> r == Some(cues@[0].base.qid)
                &&& step is Previous ==> r == Some(cues@[last].base.qid)
            }
            &&& current is Some && first_row(cues@, (current->0)@, k) ==> {
                &&& step is Next && k < last ==> r == Some(cues@[k + 1].base.qid)
                &&& step is Next && k == last ==> r == Some(cues@[last].base.qid)
                &&& step is Previous && k > 0 ==> r == Some(cues@[k - 1].base.qid)
                &&& step is Previous && k == 0 ==> r == Some(cues@[0].base.qid)
            }
        },
{
    if current is Some {
        if no_row(cues@, (current->0)@) {
            lemma_no_row(cues@, (current->0)@);
        }
        if first_row(cues@, (current->0)@, k) {
            lemma_first_row(cues@, (current->0)@, k);
        }
    }
}

/// The commands that step the selection do so in their direction, and are no
/// edits.
#[verifier::rlimit(60)]
pub proof fn selection_commands_step_the_selection(
    state: &mut SharedState,
    cmd: AppCommand,
    next_qid: Qid,
    numbers: &Vec<Qid>,
    now: Moment,
    out: Outcome,
    k: int,
)
    requires
        call_ensures(process_command, (state, cmd, next_qid, numbers, now), out),
        cmd is SelectPreviousCue || cmd is SelectNextCue || cmd is SelectFirstCue
            || cmd is SelectLastCue,
    ensures
        ({
            let s = old(state)@;
            let t = final(state)@;
            let cues = s.show_file.cues;
            let last = cues.len() - 1;
            &&& out is Done
            &&& cues.len() == 0 ==> t.selected_cue_id == s.selected_cue_id
            &&& cues.len() > 0 && cmd is SelectFirstCue ==> t.selected_cue_id == Some(
                cues[0].base.qid,
            )
            &&& cues.len() > 0 && cmd is SelectLastCue ==> t.selected_cue_id == Some(
                cues[last].base.qid,
            )
            &&& cues.len() > 0 && s.selected_cue_id is None && cmd is SelectNextCue
                ==> t.selected_cue_id == Some(cues[0].base.qid)
            &&& cues.len() > 0 && s.selected_cue_id is None && cmd is SelectPreviousCue
                ==> t.selected_cue_id == Some(cues[last].base.qid)
            &&& s.selected_cue_id is Some && first_row(cues, (s.selected_cue_id->0)@, k) ==> {
                &&& cmd is SelectNextCue && k < last ==> t.selected_cue_id == Some(
                    cues[k + 1].base.qid,
                )
                &&& cmd is SelectPreviousCue && k > 0 ==> t.selected_cue_id == Some(
                    cues[k - 1].base.qid,
                )
                &&& cmd is SelectNextCue && k == last ==> t.selected_cue_id == Some(
                    cues[k].base.qid,
                )
                &&& cmd is SelectPreviousCue && k == 0 ==> t.selected_cue_id == Some(
                    cues[k].base.qid,
                )
            }
            &&& t.show_file == s.show_file
            &&& t.undo_redo == s.undo_redo
            &&& t.dirty == s.dirty
        }),
{
    let s = old(state)@;
    if s.selected_cue_id is Some && first_row(s.show_file.cues, (s.selected_cue_id->0)@, k) {
        lemma_first_row(s.show_file.cues, (s.selected_cue_id->0)@, k);
    }
}

/// A cue that is added stands right behind the selected one, at the end where
/// none is selected; it is enabled, waits for Go, is selected and is the only
/// cue that is new. It is armed at the show time while that stands still.
#[verifier::rlimit(60)]
pub proof fn a_new_cue_stands_behind_the_selection(
    state: &mut SharedState,
    cue_type: CueType,
    next_qid: Qid,
    numbers: &Vec<Qid>,
    now: Moment,
    out: Outcome,
    k: int,
)
    requires
        call_ensures(
            process_command,
            (state, AppCommand::AddCue { cue_type }, next_qid, numbers, now),
            out,
        ),
        old(state)@.show_mode != ShowMode::Show,
        match old(state)@.selected_cue_id {
            Some(id) => first_row(old(state)@.show_file.cues, id@, k),
            None => k == old(state)@.show_file.cues.len() - 1,
        },
    ensures
        ({
            let s = old(state)@;
            let t = final(state)@;
            let before = s.show_file.cues;
            let after = t.show_file.cues;
            let new = after[k + 1];
            &&& out is Done
            &&& after.len() == before.len() + 1
            &&& forall|j: int| 0 <= j <= k ==> (#[trigger] after[j]) == before[j]
            &&& forall|j: int| k + 1 < j < after.len() ==> (#[trigger] after[j]) == before[j - 1]
            &&& new.base.qid == next_qid
            &&& new.base.enabled
            &&& new.base.trigger == TriggerMode::Go
            &&& new.base.loop_mode == LoopMode::OneShot
            &&& new.base.loop_count == 1
            &&& new.base.triggers.hotkey is None
            &&& new.base.triggers.midi is None
            &&& new.base.triggers.wall_clock is None
            &&& !s.show_paused ==> new.base.triggers.timecode is None
            &&& s.show_paused ==> (match s.show_time {
                Some(time) => new.base.triggers.timecode == Some(TimecodeTrigger { time }),
                None => new.base.triggers.timecode is None,
            })
            &&& s.selected_cue_id is None ==> new.base.parent is None
            &&& s.selected_cue_id is Some ==> new.base.parent == (if before[k].is_group() {
                Some(before[k].base.qid)
            } else {
                before[k].base.parent
            })
            &&& t.selected_cue_id == Some(next_qid)
            &&& t.dirty
            &&& t.project_path == s.project_path
            &&& t.command_queue == s.command_queue
        }),
{
    let s = old(state)@;
    if let Some(id) = s.selected_cue_id {
        lemma_first_row(s.show_file.cues, id@, k);
    }
}

/// A new cue is of the kind that was asked for, and bears its name.
#[verifier::rlimit(60)]
pub proof fn a_new_cue_is_of_its_kind(
    state: &mut SharedState,
    cue_type: CueType,
    next_qid: Qid,
    numbers: &Vec<Qid>,
    now: Moment,
    out: Outcome,
)
    requires
        call_ensures(
            process_command,
            (state, AppCommand::AddCue { cue_type }, next_qid, numbers, now),
            out,
        ),
        old(state)@.show_mode != ShowMode::Show,
        old(state)@.selected_cue_id is None,
    ensures
        ({
            let cue = final(state)@.show_file.cues.last();
            let kind = cue.kind;
            let name = cue.base.name@;
            &&& cue_type is Sound ==> kind is Sound && kind->Sound_path@ == ""@
                && kind->Sound_volume.bits == 0x3f80_0000 && name == "New "@ + "Sound"@ + " Cue"@
            &&& cue_type is Video ==> kind is Video && kind->Video_path@ == ""@
                && kind->Video_volume.bits == 0x3f80_0000 && !kind->follow_mtc
                && kind->mtc_start.bits == 0x40ac_2000_0000_0000 && name == "New "@ + "Video"@
                + " Cue"@
            &&& cue_type is Stop ==> kind is Stop && !kind->stop_all && kind->stop_qid@ == (
                0int,
                0nat,
            ) && kind->stop_mode == StopMode::Immediate && name == "New "@ + "Stop"@ + " Cue"@
            &&& cue_type is Volume ==> kind is Volume && kind->sound_qid@ == (0int, 0nat) && name
                == "New "@ + "Volume"@ + " Cue"@
            &&& cue_type is Group ==> kind is Group && name == "New "@ + "Group"@ + " Cue"@
            &&& cue_type is Dummy ==> kind is Dummy && name == "New "@ + "Dummy"@ + " Cue"@
            &&& cue_type is TimeCode ==> kind is TimeCode && name == "New "@ + "TimeCode"@
                + " Cue"@
            &&& cue_type is Network ==> kind is Network && kind->command@ == ""@ && name
                == "New "@ + "Network"@ + " Cue"@
            &&& cue_type is Text ==> kind is Text && kind->text@ == ""@ && kind->font_size.bits
                == 0x4240_0000 && kind->Text_fit == CanvasFit::Fit && name == "New "@ + "Text"@
                + " Cue"@
            &&& cue_type is Image ==> kind is Image && kind->Image_path@ == ""@ && name
                == "New "@ + "Image"@ + " Cue"@
            &&& cue_type is Goto ==> kind is Goto && kind->target_qid@ == (0int, 0nat) && name
                == "New "@ + "Goto"@ + " Cue"@
            &&& cue_type is Lighting ==> kind is Lighting && kind->Lighting_fade_time.bits
                == 0x4000_0000 && name == "New "@ + "Lighting"@ + " Cue"@
            &&& cue_type is DmxShow ==> kind is DmxShow && kind->priority == 100 && name
                == "New "@ + "DmxShow"@ + " Cue"@
            &&& cue_type is PixelMap ==> kind is PixelMap && name == "New "@ + "PixelMap"@
                + " Cue"@
            &&& cue.extra == 0
        }),
{
}

/// Deleting a cue takes it out, a group with its members, and nothing else; the
/// selection goes to the cue behind, or the one before where that was the end.
#[verifier::rlimit(60)]
pub proof fn a_deleted_cue_is_gone(
    state: &mut SharedState,
    qid: Option<Qid>,
    next_qid: Qid,
    numbers: &Vec<Qid>,
    now: Moment,
    out: Outcome,
    k: int,
)
    requires
        call_ensures(
            process_command,
            (state, AppCommand::DeleteCue { qid }, next_qid, numbers, now),
            out,
        ),
        old(state)@.show_mode != ShowMode::Show,
        match qid {
            Some(q) => first_row(old(state)@.show_file.cues, q@, k),
            None => old(state)@.selected_cue_id is Some && first_row(
                old(state)@.show_file.cues,
                (old(state)@.selected_cue_id->0)@,
                k,
            ),
        },
    ensures
        ({
            let s = old(state)@;
            let t = final(state)@;
            let before = s.show_file.cues;
            let after = t.show_file.cues;
            let n = before.len() - after.len();
            &&& out is Done
            &&& 1 <= n
            &&& k + n <= before.len()
            &&& !before[k].is_group() ==> n == 1
            &&& forall|j: int|
                k < j < k + n ==> qid_opt((#[trigger] before[j]).base.parent) == Some(
                    before[k].base.qid@,
                )
            &&& before[k].is_group() && k + n < before.len() ==> qid_opt(
                before[k + n].base.parent,
            ) != Some(before[k].base.qid@)
            &&& forall|j: int| 0 <= j < k ==> (#[trigger] after[j]) == before[j]
            &&& forall|j: int| k <= j < after.len() ==> (#[trigger] after[j]) == before[j + n]
            &&& t.selected_cue_id == (if k < after.len() {
                Some(after[k].base.qid)
            } else if k > 0 {
                Some(after[k - 1].base.qid)
            } else {
                None
            })
            &&& t.dirty
            &&& t.project_path == s.project_path
            &&& t.command_queue == s.command_queue
        }),
{
    let cues = old(state)@.show_file.cues;
    let id = match qid {
        Some(q) => q,
        None => old(state)@.selected_cue_id->0,
    };
    lemma_first_row(cues, id@, k);
    if cues[k].is_group() {
        crate::cue_order::group_block_is_contiguous(cues, k);
    }
}

/// A command on a cue that is not there changes nothing.
#[verifier::rlimit(60)]
pub proof fn missing_cues_are_left_alone(
    state: &mut SharedState,
    cmd: AppCommand,
    next_qid: Qid,
    numbers: &Vec<Qid>,
    now: Moment,
    out: Outcome,
)
    requires
        call_ensures(process_command, (state, cmd, next_qid, numbers, now), out),
        match cmd {
            AppCommand::DeleteCue { qid: Some(q) } => no_row(old(state)@.show_file.cues, q@),
            AppCommand::DuplicateCue { qid: Some(q) } => no_row(old(state)@.show_file.cues, q@),
            AppCommand::MoveCueUp { qid: Some(q) } => no_row(old(state)@.show_file.cues, q@),
            AppCommand::MoveCueDown { qid: Some(q) } => no_row(old(state)@.show_file.cues, q@),
            AppCommand::UngroupCue { qid } => no_row(old(state)@.show_file.cues, qid@),
            AppCommand::UpdateCueName { qid, .. } => no_row(old(state)@.show_file.cues, qid@),
            AppCommand::UpdateCueTrigger { qid, .. } => no_row(old(state)@.show_file.cues, qid@),
            _ => false,
        },
    ensures
        final(state)@ == old(state)@,
{
    let cues = old(state)@.show_file.cues;
    match cmd {
        AppCommand::DeleteCue { qid: Some(q) } => lemma_no_row(cues, q@),
        AppCommand::DuplicateCue { qid: Some(q) } => lemma_no_row(cues, q@),
        AppCommand::MoveCueUp { qid: Some(q) } => lemma_no_row(cues, q@),
        AppCommand::MoveCueDown { qid: Some(q) } => lemma_no_row(cues, q@),
        AppCommand::UngroupCue { qid } => lemma_no_row(cues, qid@),
        AppCommand::UpdateCueName { qid, .. } => lemma_no_row(cues, qid@),
        AppCommand::UpdateCueTrigger { qid, .. } => lemma_no_row(cues, qid@),
        _ => {},
    }
}

/// A duplicate stands right behind the cue, a group's with copies of its
/// members; it has a number of its own, does what the cue does and is
/// selected. All other rows stay.
#[verifier::rlimit(60)]
pub proof fn a_duplicate_stands_behind_its_cue(
    state: &mut SharedState,
    qid: Qid,
    next_qid: Qid,
    numbers: &Vec<Qid>,
    now: Moment,
    out: Outcome,
    k: int,
)
    requires
        call_ensures(
            process_command,
            (state, AppCommand::DuplicateCue { qid: Some(qid) }, next_qid, numbers, now),
            out,
        ),
        old(state)@.show_mode != ShowMode::Show,
        first_row(old(state)@.show_file.cues, qid@, k),
        numbers@.len() > 0,
    ensures
        ({
            let s = old(state)@;
            let t = final(state)@;
            let before = s.show_file.cues;
            let after = t.show_file.cues;
            let n = after.len() - before.len();
            &&& out is Done
            &&& 1 <= n
            &&& k + n <= before.len()
            &&& !before[k].is_group() ==> n == 1
            &&& forall|j: int|
                k < j < k + n ==> qid_opt((#[trigger] before[j]).base.parent) == Some(
                    before[k].base.qid@,
                )
            &&& before[k].is_group() && k + n < before.len() ==> qid_opt(
                before[k + n].base.parent,
            ) != Some(before[k].base.qid@)
            &&& forall|j: int| 0 <= j < k + n ==> (#[trigger] after[j]) == before[j]
            &&& forall|j: int|
                k + n <= j < before.len() ==> after[j + n] == (#[trigger] before[j])
            &&& forall|j: int|
                0 <= j < n ==> {
                    let copy = #[trigger] after[k + n + j];
                    &&& copy.base.qid == numbers@[j]
                    &&& copy.base.name@ == before[k + j].base.name@ + " (copy)"@
                    &&& copy.kind == before[k + j].kind
                    &&& copy.base.triggers == before[k + j].base.triggers
                    &&& copy.base.trigger == before[k + j].base.trigger
                    &&& copy.base.enabled == before[k + j].base.enabled
                    &&& j > 0 ==> copy.base.parent == Some(numbers@[0])
                }
            &&& t.selected_cue_id == Some(numbers@[0])
            &&& t.dirty
            &&& t.command_queue == s.command_queue
        }),
{
    let s = old(state)@;
    let cues = s.show_file.cues;
    lemma_first_row(cues, qid@, k);
    if cues[k].is_group() {
        crate::cue_order::group_block_is_contiguous(cues, k);
    }
    let end = span_end(cues, k);
    let after = final(state)@.show_file.cues;
    let copies = after.subrange(end, end + (end - k));
    assert(after == cues.take(end) + copies + cues.skip(end));
    assert forall|j: int| 0 <= j < end - k implies {
        let copy = #[trigger] after[end + j];
        &&& copy.base.qid == numbers@[j]
        &&& copy.base.name@ == cues[k + j].base.name@ + " (copy)"@
        &&& copy.kind == cues[k + j].kind
        &&& copy.base.triggers == cues[k + j].base.triggers
        &&& copy.base.trigger == cues[k + j].base.trigger
        &&& copy.base.enabled == cues[k + j].base.enabled
        &&& j > 0 ==> copy.base.parent == Some(numbers@[0])
    } by {
        assert(after[end + j] == copies[j]);
        assert(is_copy(copies[j], cues[k + j], numbers@[j], cues[k].base.qid@, numbers@[0]));
    }
}

/// As many numbers are asked for as a duplicate has rows: one for a cue, and
/// one for a group and each of its members.
#[verifier::rlimit(60)]
pub proof fn duplicates_need_a_number_for_each_row(
    state: &SharedState,
    qid: Option<Qid>,
    n: usize,
    id: Qid,
    k: int,
)
    requires
        call_ensures(duplicate_rows, (state, qid), n),
        qid == Some(id) || qid is None && state@.selected_cue_id == Some(id),
    ensures
        no_row(state@.show_file.cues, id@) ==> n == 0,
        first_row(state@.show_file.cues, id@, k) ==> {
            let cues = state@.show_file.cues;
            &&& 1 <= n
            &&& k + n <= cues.len()
            &&& !cues[k].is_group() ==> n == 1
            &&& forall|j: int|
                k < j < k + n ==> qid_opt((#[trigger] cues[j]).base.parent) == Some(
                    cues[k].base.qid@,
                )
            &&& cues[k].is_group() && k + n < cues.len() ==> qid_opt(cues[k + n].base.parent)
                != Some(cues[k].base.qid@)
        },
{
    let cues = state@.show_file.cues;
    if no_row(cues, id@) {
        lemma_no_row(cues, id@);
    }
    if first_row(cues, id@, k) {
        lemma_first_row(cues, id@, k);
        if cues[k].is_group() {
            crate::cue_order::group_block_is_contiguous(cues, k);
        }
    }
}

/// In a list without groups the commands that move a cue exchange it with the
/// row above or below; at either end they do nothing. The selection stays.
#[verifier::rlimit(60)]
pub proof fn a_cue_moves_by_one_row(
    state: &mut SharedState,
    cmd: AppCommand,
    next_qid: Qid,
    numbers: &Vec<Qid>,
    now: Moment,
    out: Outcome,
    k: int,
)
    requires
        call_ensures(process_command, (state, cmd, next_qid, numbers, now), out),
        old(state)@.show_mode != ShowMode::Show,
        match cmd {
            AppCommand::MoveCueUp { qid: Some(q) } => first_row(
                old(state)@.show_file.cues,
                q@,
                k,
            ),
            AppCommand::MoveCueDown { qid: Some(q) } => first_row(
                old(state)@.show_file.cues,
                q@,
                k,
            ),
            _ => false,
        },
        forall|j: int|
            0 <= j < old(state)@.show_file.cues.len() ==> !(#[trigger] old(
                state,
            )@.show_file.cues[j]).is_group(),
    ensures
        ({
            let s = old(state)@;
            let t = final(state)@;
            let before = s.show_file.cues;
            let after = t.show_file.cues;
            let to = if cmd is MoveCueUp {
                k - 1
            } else {
                k + 1
            };
            let room = 0 <= to < before.len();
            &&& out is Done
            &&& !room ==> t == s
            &&& room ==> {
                &&& after.len() == before.len()
                &&& after[to] == before[k]
                &&& after[k] == before[to]
                &&& forall|j: int|
                    0 <= j < before.len() && j != k && j != to ==> (#[trigger] after[j])
                        == before[j]
                &&& t.dirty
            }
            &&& t.selected_cue_id == s.selected_cue_id
        }),
{
    let cues = old(state)@.show_file.cues;
    let q = match cmd {
        AppCommand::MoveCueUp { qid: Some(q) } => q,
        AppCommand::MoveCueDown { qid: Some(q) } => q,
        _ => next_qid,
    };
    lemma_first_row(cues, q@, k);
    if cues[k].base.parent is Some {
        crate::show::lemma_position(cues, (cues[k].base.parent->0)@);
    }
    if k > 0 && cues[k - 1].base.parent is Some {
        crate::show::lemma_position(cues, (cues[k - 1].base.parent->0)@);
    }
    if cmd is MoveCueUp && k > 0 {
        assert(moved(cues, k, k + 1, k - 1) =~= cues.update(k - 1, cues[k]).update(
            k,
            cues[k - 1],
        ));
    }
    if cmd is MoveCueDown && k + 1 < cues.len() {
        assert(moved(cues, k, k + 1, k + 2) =~= cues.update(k + 1, cues[k]).update(
            k,
            cues[k + 1],
        ));
    }
}

/// Moving a cue, in whatever list, keeps every cue as it is.
#[verifier::rlimit(60)]
pub proof fn moving_a_cue_keeps_all_cues(
    state: &mut SharedState,
    qid: Option<Qid>,
    down: bool,
)
    requires
        call_ensures(nudge_cue, (state, qid, down), ()),
    ensures
        final(state)@.show_file.cues.to_multiset() == old(state)@.show_file.cues.to_multiset(),
        final(state)@.selected_cue_id == old(state)@.selected_cue_id,
        final(state)@.project_path == old(state)@.project_path,
{
    let s = old(state)@;
    let cues = s.show_file.cues;
    match target_row(s, qid) {
        Some(i) => {
            match nudge_of(cues, i, down) {
                Some(m) => {
                    crate::cue_order::lemma_nudge_in_range(cues, i, down);
                    crate::cue_order::moving_keeps_every_cue(cues, m.0, m.1, m.2);
                },
                None => {},
            }
        },
        None => {},
    }
}

/// A cue that leaves its group is in none, and stands right behind the last
/// member; the others stay in their order.
#[verifier::rlimit(60)]
pub proof fn an_ungrouped_cue_stands_behind_its_group(
    state: &mut SharedState,
    qid: Qid,
    next_qid: Qid,
    numbers: &Vec<Qid>,
    now: Moment,
    out: Outcome,
    g: int,
    k: int,
    end: int,
)
    requires
        call_ensures(
            process_command,
            (state, AppCommand::UngroupCue { qid }, next_qid, numbers, now),
            out,
        ),
        old(state)@.show_mode != ShowMode::Show,
        first_row(old(state)@.show_file.cues, qid@, k),
        0 <= g < k < end <= old(state)@.show_file.cues.len(),
        first_row(old(state)@.show_file.cues, old(state)@.show_file.cues[g].base.qid@, g),
        old(state)@.show_file.cues[g].is_group(),
        forall|j: int|
            g < j < end ==> qid_opt((#[trigger] old(state)@.show_file.cues[j]).base.parent)
                == Some(old(state)@.show_file.cues[g].base.qid@),
        end < old(state)@.show_file.cues.len() ==> qid_opt(
            old(state)@.show_file.cues[end].base.parent,
        ) != Some(old(state)@.show_file.cues[g].base.qid@),
    ensures
        ({
            let s = old(state)@;
            let t = final(state)@;
            let before = s.show_file.cues;
            let after = t.show_file.cues;
            &&& out is Done
            &&& after.len() == before.len()
            &&& after[end - 1].base.qid == before[k].base.qid
            &&& after[end - 1].base.name == before[k].base.name
            &&& after[end - 1].kind == before[k].kind
            &&& after[end - 1].base.parent is None
            &&& forall|j: int| 0 <= j < k ==> (#[trigger] after[j]) == before[j]
            &&& forall|j: int| k <= j < end - 1 ==> (#[trigger] after[j]) == before[j + 1]
            &&& forall|j: int| end <= j < before.len() ==> (#[trigger] after[j]) == before[j]
            &&& t.dirty
            &&& t.selected_cue_id == s.selected_cue_id
        }),
{
    let cues = old(state)@.show_file.cues;
    lemma_first_row(cues, qid@, k);
    lemma_first_row(cues, cues[g].base.qid@, g);
    assert(qid_opt(cues[k].base.parent) == Some(cues[g].base.qid@));
    crate::cue_order::lemma_members_stop(cues, cues[g].base.qid@, g + 1, end);
    assert(block_head(cues, k) == g);
    assert(span_end(cues, block_head(cues, k)) == end);
}

/// A cue that is in no group cannot leave one.
#[verifier::rlimit(60)]
pub proof fn only_members_leave_a_group(
    state: &mut SharedState,
    qid: Qid,
    next_qid: Qid,
    numbers: &Vec<Qid>,
    now: Moment,
    out: Outcome,
    k: int,
)
    requires
        call_ensures(
            process_command,
            (state, AppCommand::UngroupCue { qid }, next_qid, numbers, now),
            out,
        ),
        first_row(old(state)@.show_file.cues, qid@, k),
        old(state)@.show_file.cues[k].base.parent is None,
    ensures
        final(state)@ == old(state)@,
{
    lemma_first_row(old(state)@.show_file.cues, qid@, k);
}

/// A single cue that is dragged stands before the row it was dropped on, in the
/// group it was dropped into; all others stay in their order.
#[verifier::rlimit(60)]
pub proof fn a_dragged_cue_stands_where_it_was_dropped(
    state: &mut SharedState,
    from_idx: usize,
    to_idx: usize,
    parent: Option<Qid>,
    next_qid: Qid,
    numbers: &Vec<Qid>,
    now: Moment,
    out: Outcome,
)
    requires
        call_ensures(
            process_command,
            (
                state,
                AppCommand::MoveCue { from_idx, to_idx, parent },
                next_qid,
                numbers,
                now,
            ),
            out,
        ),
        old(state)@.show_mode != ShowMode::Show,
        from_idx < old(state)@.show_file.cues.len(),
        !old(state)@.show_file.cues[from_idx as int].is_group(),
    ensures
        ({
            let s = old(state)@;
            let t = final(state)@;
            let before = s.show_file.cues;
            let after = t.show_file.cues;
            let from = from_idx as int;
            let drop = if to_idx > before.len() {
                before.len() as int
            } else {
                to_idx as int
            };
            let at = if drop > from {
                drop - 1
            } else {
                drop
            };
            let own = qid_opt(parent) == Some(before[from].base.qid@);
            &&& out is Done
            &&& after.len() == before.len()
            &&& after[at].base.qid == before[from].base.qid
            &&& after[at].base.name == before[from].base.name
            &&& after[at].kind == before[from].kind
            &&& own ==> after[at].base.parent is None
            &&& !own ==> qid_opt(after[at].base.parent) == qid_opt(parent)
            &&& forall|j: int|
                0 <= j < before.len() && j < from && j < at ==> (#[trigger] after[j]) == before[j]
            &&& forall|j: int| from <= j < at ==> (#[trigger] after[j]) == before[j + 1]
            &&& forall|j: int| at < j <= from ==> (#[trigger] after[j]) == before[j - 1]
            &&& forall|j: int|
                0 <= j < before.len() && j > from && j > at ==> (#[trigger] after[j]) == before[j]
            &&& to_idx <= before.len() && at == from && qid_opt(before[from].base.parent) == (if own {
                None
            } else {
                qid_opt(parent)
            }) ==> t == s
            &&& t.selected_cue_id == s.selected_cue_id
        }),
{
}

/// A group that is dragged takes its members along, lands between two blocks
/// and is in no group; the other cues stay in their order.
#[verifier::rlimit(60)]
pub proof fn a_dragged_group_keeps_its_members(
    state: &mut SharedState,
    from_idx: usize,
    to_idx: usize,
    parent: Option<Qid>,
    next_qid: Qid,
    numbers: &Vec<Qid>,
    now: Moment,
    out: Outcome,
    at: int,
)
    requires
        call_ensures(
            process_command,
            (
                state,
                AppCommand::MoveCue { from_idx, to_idx, parent },
                next_qid,
                numbers,
                now,
            ),
            out,
        ),
        old(state)@.show_mode != ShowMode::Show,
        from_idx < old(state)@.show_file.cues.len(),
        old(state)@.show_file.cues[from_idx as int].is_group(),
        old(state)@.show_file.cues[from_idx as int].base.parent is None,
        to_idx < old(state)@.show_file.cues.len() ==> old(
            state,
        )@.show_file.cues[to_idx as int].base.parent is None,
        at == (if to_idx > old(state)@.show_file.cues.len() {
            old(state)@.show_file.cues.len() as int
        } else {
            to_idx as int
        }),
    ensures
        ({
            let s = old(state)@;
            let t = final(state)@;
            let before = s.show_file.cues;
            let after = t.show_file.cues;
            let from = from_idx as int;
            let end = span_end(before, from);
            let n = end - from;
            let row = if at < from {
                at
            } else if at > end {
                at - n
            } else {
                from
            };
            &&& out is Done
            &&& after.len() == before.len()
            &&& forall|j: int|
                from < j < end ==> qid_opt((#[trigger] before[j]).base.parent) == Some(
                    before[from].base.qid@,
                )
            &&& forall|j: int| 0 <= j < n ==> (#[trigger] after[row + j]) == before[from + j]
            &&& after.take(row) + after.skip(row + n) == before.take(from) + before.skip(end)
        }),
{
    let cues = old(state)@.show_file.cues;
    let from = from_idx as int;
    crate::cue_order::group_block_is_contiguous(cues, from);
    let end = span_end(cues, from);
    let n = end - from;
    let row = if at < from {
        at
    } else if at > end {
        at - n
    } else {
        from
    };
    let after = final(state)@.show_file.cues;
    assert(with_parent(cues[from], None) == cues[from]);
    assert(cues.update(from, with_parent(cues[from], None)) =~= cues);
    assert(after.take(row) + after.skip(row + n) =~= cues.take(from) + cues.skip(end));
}

/// A number that is in use is refused, and nothing but the alert changes.
/// Otherwise the cue has the new number, and every cue that named the old one
/// names the new one, the selection with them.
#[verifier::rlimit(60)]
pub proof fn a_new_number_is_followed(
    state: &mut SharedState,
    qid: Qid,
    new_qid: Qid,
    next_qid: Qid,
    numbers: &Vec<Qid>,
    now: Moment,
    out: Outcome,
    k: int,
    j: int,
)
    requires
        call_ensures(
            process_command,
            (state, AppCommand::UpdateCueQid { qid, new_qid }, next_qid, numbers, now),
            out,
        ),
        alert_fits(now),
        old(state)@.show_mode != ShowMode::Show,
        0 <= j < old(state)@.show_file.cues.len(),
    ensures
        ({
            let s = old(state)@;
            let t = final(state)@;
            let before = s.show_file.cues;
            let after = t.show_file.cues;
            let b = before[j];
            let a = after[j];
            &&& out is Done
            &&& first_row(before, new_qid@, k) ==> t.show_file == s.show_file && t.selected_cue_id
                == s.selected_cue_id && t.undo_redo == s.undo_redo && t.operator_alert is Some
                && t.operator_alert->0.message == "Q"@ + new_qid.text()
                + " is already in use — Q"@ + qid.text() + " keeps its number"@
            &&& no_row(before, new_qid@) && no_row(before, qid@) ==> t == s
            &&& no_row(before, new_qid@) && first_row(before, qid@, k) ==> {
                &&& after.len() == before.len()
                &&& a.base.qid == (if j == k {
                    new_qid
                } else {
                    b.base.qid
                })
                &&& qid_opt(b.base.parent) == Some(qid@) ==> a.base.parent == Some(new_qid)
                &&& qid_opt(b.base.parent) != Some(qid@) ==> a.base.parent == b.base.parent
                &&& b.kind is Stop ==> a.kind is Stop && a.kind->stop_qid == (
                if b.kind->stop_qid@ == qid@ {
                    new_qid
                } else {
                    b.kind->stop_qid
                }) && a.kind->stop_all == b.kind->stop_all
                &&& b.kind is Volume ==> a.kind is Volume && a.kind->sound_qid == (
                if b.kind->sound_qid@ == qid@ {
                    new_qid
                } else {
                    b.kind->sound_qid
                })
                &&& b.kind is Goto ==> a.kind is Goto && a.kind->target_qid == (
                if b.kind->target_qid@ == qid@ {
                    new_qid
                } else {
                    b.kind->target_qid
                })
                &&& !(b.kind is Stop || b.kind is Volume || b.kind is Goto) ==> a.kind == b.kind
                &&& a.base.name == b.base.name
                &&& a.base.enabled == b.base.enabled
                &&& a.base.triggers == b.base.triggers
                &&& t.selected_cue_id == (if qid_opt(s.selected_cue_id) == Some(qid@) {
                    Some(new_qid)
                } else {
                    s.selected_cue_id
                })
                &&& t.dirty
            }
        }),
{
    let cues = old(state)@.show_file.cues;
    if first_row(cues, new_qid@, k) {
        lemma_first_row(cues, new_qid@, k);
    }
    if no_row(cues, new_qid@) {
        lemma_no_row(cues, new_qid@);
        if no_row(cues, qid@) {
            lemma_no_row(cues, qid@);
        }
        if first_row(cues, qid@, k) {
            lemma_first_row(cues, qid@, k);
        }
    }
}

/// Renaming a cue changes its name alone.
#[verifier::rlimit(60)]
pub proof fn a_name_changes_alone(
    state: &mut SharedState,
    qid: Qid,
    name: String,
    next_qid: Qid,
    numbers: &Vec<Qid>,
    now: Moment,
    out: Outcome,
    k: int,
)
    requires
        call_ensures(
            process_command,
            (state, AppCommand::UpdateCueName { qid, name }, next_qid, numbers, now),
            out,
        ),
        old(state)@.show_mode != ShowMode::Show,
        first_row(old(state)@.show_file.cues, qid@, k),
    ensures
        ({
            let before = old(state)@.show_file.cues;
            let n = final(state)@.show_file.cues;
            &&& out is Done
            &&& n.len() == before.len()
            &&& n[k].base.name == name
            &&& n[k].base.qid == before[k].base.qid
            &&& n[k].base.trigger == before[k].base.trigger
            &&& n[k].base.parent == before[k].base.parent
            &&& n[k].base.enabled == before[k].base.enabled
            &&& n[k].base.triggers == before[k].base.triggers
            &&& n[k].kind == before[k].kind
            &&& forall|j: int|
                0 <= j < before.len() && j != k ==> (#[trigger] n[j]) == before[j]
            &&& final(state)@.dirty
            &&& final(state)@.selected_cue_id == old(state)@.selected_cue_id
        }),
{
    lemma_first_row(old(state)@.show_file.cues, qid@, k);
}

/// Giving a cue another start changes that alone.
#[verifier::rlimit(60)]
pub proof fn a_start_changes_alone(
    state: &mut SharedState,
    qid: Qid,
    trigger: TriggerMode,
    next_qid: Qid,
    numbers: &Vec<Qid>,
    now: Moment,
    out: Outcome,
    k: int,
)
    requires
        call_ensures(
            process_command,
            (state, AppCommand::UpdateCueTrigger { qid, trigger }, next_qid, numbers, now),
            out,
        ),
        old(state)@.show_mode != ShowMode::Show,
        first_row(old(state)@.show_file.cues, qid@, k),
    ensures
        ({
            let before = old(state)@.show_file.cues;
            let n = final(state)@.show_file.cues;
            &&& out is Done
            &&& n.len() == before.len()
            &&& n[k].base.trigger == trigger
            &&& n[k].base.name == before[k].base.name
            &&& n[k].base.qid == before[k].base.qid
            &&& n[k].base.parent == before[k].base.parent
            &&& n[k].base.enabled == before[k].base.enabled
            &&& n[k].base.triggers == before[k].base.triggers
            &&& n[k].kind == before[k].kind
            &&& forall|j: int|
                0 <= j < before.len() && j != k ==> (#[trigger] n[j]) == before[j]
            &&& final(state)@.dirty
            &&& final(state)@.selected_cue_id == old(state)@.selected_cue_id
        }),
{
    lemma_first_row(old(state)@.show_file.cues, qid@, k);
}

/// An edit of the cues is on record: what the project was before it is what a
/// step back goes to, and nothing can be redone.
#[verifier::rlimit(60)]
pub proof fn an_edit_is_on_record(
    state: &mut SharedState,
    cmd: AppCommand,
    next_qid: Qid,
    numbers: &Vec<Qid>,
    now: Moment,
    out: Outcome,
)
    requires
        call_ensures(process_command, (state, cmd, next_qid, numbers, now), out),
        old(state)@.show_mode != ShowMode::Show,
        !old(state)@.undo_redo.suppress,
        old(state)@.undo_redo.max_depth > 0,
        old(state)@.undo_redo.undo.len() > 0 ==> old(
            state,
        )@.undo_redo.undo.last().merge_key is None,
        cmd is AddCue || cmd is DeleteCue || cmd is MoveCueUp || cmd is MoveCueDown
            || cmd is UngroupCue || cmd is MoveCue || cmd is UpdateCueQid || cmd is UpdateCueName
            || cmd is UpdateCueTrigger,
        final(state)@.show_file.cues != old(state)@.show_file.cues,
    ensures
        ({
            let s = old(state)@;
            let h = final(state)@.undo_redo;
            &&& h.undo.len() > 0
            &&& h.undo.last().show_file == s.show_file
            &&& h.undo.last().selected_cue_id == s.selected_cue_id
            &&& h.undo.last().dirty == s.dirty
            &&& h.undo.last().project_path == s.project_path
        }),
{
    lemma_edit_recorded(old(state)@, cmd, next_qid, numbers@, now, final(state)@, out);
}

/// A step back makes the project what it was before the latest edit on record,
/// and keeps what it is now for the step forward; a step forward does the
/// reverse. Without an edit on record neither does anything.
#[verifier::rlimit(60)]
pub proof fn steps_in_the_history_go_both_ways(
    back: &mut SharedState,
    on: &mut SharedState,
    next_qid: Qid,
    numbers: &Vec<Qid>,
    now: Moment,
    x: Outcome,
    y: Outcome,
)
    requires
        call_ensures(process_command, (back, AppCommand::Undo, next_qid, numbers, now), x),
        old(on)@ == final(back)@,
        call_ensures(process_command, (on, AppCommand::Redo, next_qid, numbers, now), y),
        old(back)@.show_mode != ShowMode::Show,
    ensures
        ({
            let s = old(back)@;
            let t = final(back)@;
            let u = final(on)@;
            let n = s.undo_redo.undo.len();
            &&& n == 0 ==> t == s
            &&& n > 0 ==> {
                let top = s.undo_redo.undo[n - 1];
                &&& t.show_file == top.show_file
                &&& t.selected_cue_id == top.selected_cue_id
                &&& t.project_path == top.project_path
                &&& t.dirty == top.dirty
                &&& t.undo_redo.undo.len() == n - 1
                &&& t.show_mode == s.show_mode
                &&& u.show_file == s.show_file
                &&& u.selected_cue_id == s.selected_cue_id
                &&& u.project_path == s.project_path
                &&& u.dirty == s.dirty
                &&& u.undo_redo.undo.len() == n
                &&& u.show_mode == s.show_mode
            }
        }),
{
}

proof fn lemma_edit_recorded(
    s: StateView,
    cmd: AppCommand,
    next_qid: Qid,
    numbers: Seq<Qid>,
    now: Moment,
    t: StateView,
    out: Outcome,
)
    requires
        carried_out(s, cmd, next_qid, numbers, now, t, out),
        s.show_mode != ShowMode::Show,
        !s.undo_redo.suppress,
        s.undo_redo.max_depth > 0,
        s.undo_redo.undo.len() > 0 ==> s.undo_redo.undo.last().merge_key is None,
        cmd is AddCue || cmd is DeleteCue || cmd is MoveCueUp || cmd is MoveCueDown
            || cmd is UngroupCue || cmd is MoveCue || cmd is UpdateCueQid || cmd is UpdateCueName
            || cmd is UpdateCueTrigger,
        t.show_file.cues != s.show_file.cues,
    ensures
        t.undo_redo.undo.len() > 0,
        ({
            let top = t.undo_redo.undo.last();
            &&& top.show_file == s.show_file
            &&& top.selected_cue_id == s.selected_cue_id
            &&& top.dirty == s.dirty
            &&& top.project_path == s.project_path
        }),
        t.show_mode == s.show_mode,
        t.show_file.show_settings == s.show_file.show_settings,
{
    let plain = s.snapshot();
    let stack = s.undo_redo.undo.push(plain);
    if stack.len() > s.undo_redo.max_depth {
        assert(stack.drop_first().last() == plain);
    }
    assert forall|key: Seq<char>| #[trigger] s.recorded_as(key).undo_redo.undo.len() > 0
        && s.recorded_as(key).undo_redo.undo.last() == (crate::undo::SnapshotView {
        merge_key: Some(key),
        ..plain
    }) by {
        let keyed = crate::undo::SnapshotView { merge_key: Some(key), ..plain };
        let other = s.undo_redo.undo.push(keyed);
        if other.len() > s.undo_redo.max_depth {
            assert(other.drop_first().last() == keyed);
        }
    }
}

/// Renaming a cue twice in a row is one edit: the second time nothing more is
/// put on record.
#[verifier::rlimit(60)]
pub proof fn a_run_of_edits_is_one_edit(
    state: &mut SharedState,
    qid: Qid,
    name: String,
    next_qid: Qid,
    numbers: &Vec<Qid>,
    now: Moment,
    out: Outcome,
    k: int,
)
    requires
        call_ensures(
            process_command,
            (state, AppCommand::UpdateCueName { qid, name }, next_qid, numbers, now),
            out,
        ),
        old(state)@.show_mode != ShowMode::Show,
        !old(state)@.undo_redo.suppress,
        old(state)@.undo_redo.max_depth > 0,
        old(state)@.undo_redo.undo.len() > 0,
        old(state)@.undo_redo.undo.last().merge_key == Some(
            "cue:"@ + qid.text() + ":"@ + "name"@,
        ),
        first_row(old(state)@.show_file.cues, qid@, k),
    ensures
        final(state)@.undo_redo.undo == old(state)@.undo_redo.undo,
        final(state)@.undo_redo.redo.len() == 0,
{
    lemma_first_row(old(state)@.show_file.cues, qid@, k);
}

/// A new project, and another one that is opened, wait for the operator where
/// there is work to lose and no agreement; an agreement is good for once.
#[verifier::rlimit(60)]
pub proof fn work_is_not_discarded_unasked(
    state: &mut SharedState,
    command: AppCommand,
    b: bool,
)
    requires
        call_ensures(confirm_discard, (state, command), b),
    ensures
        ({
            let s = old(state)@;
            let t = final(state)@;
            let to_lose = s.dirty || s.active_cues.len() > 0;
            &&& s.discard_confirmed ==> b && !t.discard_confirmed
            &&& !s.discard_confirmed && !to_lose ==> b && t == s
            &&& !s.discard_confirmed && to_lose ==> !b && t.pending_discard_confirm == Some(
                command,
            ) && !t.discard_confirmed
            &&& b ==> t.pending_discard_confirm == s.pending_discard_confirm
            &&& t.show_file == s.show_file
            &&& t.dirty == s.dirty
            &&& t.project_path == s.project_path
            &&& t.selected_cue_id == s.selected_cue_id
            &&& t.undo_redo == s.undo_redo
        }),
{
}

/// A new project starts empty and saved nowhere; where the operator has to be
/// asked, the project stays.
#[verifier::rlimit(60)]
pub proof fn a_new_project_is_empty(
    state: &mut SharedState,
    next_qid: Qid,
    numbers: &Vec<Qid>,
    now: Moment,
    out: Outcome,
)
    requires
        call_ensures(
            process_command,
            (state, AppCommand::NewProject, next_qid, numbers, now),
            out,
        ),
    ensures
        ({
            let s = old(state)@;
            let t = final(state)@;
            let asks = !s.discard_confirmed && (s.dirty || s.active_cues.len() > 0);
            &&& asks ==> out is Parked && t.show_file == s.show_file && t.project_path
                == s.project_path && t.dirty == s.dirty && t.undo_redo == s.undo_redo
                && t.pending_discard_confirm == Some(AppCommand::NewProject)
            &&& !asks ==> {
                &&& out is Done
                &&& t.show_file.cues.len() == 0
                &&& t.project_path is None
                &&& t.selected_cue_id is None
                &&& !t.dirty
                &&& !t.discard_confirmed
                &&& t.project_generation != s.project_generation
                &&& s.project_generation < u64::MAX ==> t.project_generation
                    == s.project_generation + 1
            }
            &&& t.show_mode == s.show_mode
            &&& t.recent_files == s.recent_files
        }),
{
}

/// Opening, saving and packing are handed on with the path that was named, a
/// plain save with the project's own; the state stays.
#[verifier::rlimit(60)]
pub proof fn files_are_handed_on(
    state: &mut SharedState,
    cmd: AppCommand,
    next_qid: Qid,
    numbers: &Vec<Qid>,
    now: Moment,
    out: Outcome,
)
    requires
        call_ensures(process_command, (state, cmd, next_qid, numbers, now), out),
    ensures
        ({
            let s = old(state)@;
            let t = final(state)@;
            let asks = !s.discard_confirmed && (s.dirty || s.active_cues.len() > 0);
            &&& cmd matches AppCommand::OpenProject { path } ==> {
                &&& asks ==> out is Parked && t.pending_discard_confirm == Some(cmd)
                &&& !asks ==> out == Outcome::Open(path) && !t.discard_confirmed
                &&& t.show_file == s.show_file
                &&& t.undo_redo == s.undo_redo
                &&& t.dirty == s.dirty
            }
            &&& cmd is SaveProject ==> out == Outcome::Save(s.project_path) && t == s
            &&& cmd matches AppCommand::SaveProjectAs { path } ==> out == Outcome::Save(
                Some(path),
            ) && t == s
            &&& cmd matches AppCommand::PackProject { path } ==> out == Outcome::Pack(path) && t
                == s
        }),
{
}

/// Commands that are not about the project are handed on as they are.
#[verifier::rlimit(60)]
pub proof fn other_commands_are_handed_on(
    state: &mut SharedState,
    cmd: AppCommand,
    next_qid: Qid,
    numbers: &Vec<Qid>,
    now: Moment,
    out: Outcome,
)
    requires
        call_ensures(process_command, (state, cmd, next_qid, numbers, now), out),
        cmd is Go || cmd is Stop || cmd is Pause || cmd is SetMasterVolume
            || cmd is QueryMasterVolume || cmd is SetAudioDriver || cmd is SetAudioDevice
            || cmd is ApplyAudioSettings || cmd is ToggleVideoWindow
            || cmd is ToggleVideoFullscreen || cmd is ToggleProjectionWindow
            || cmd is OpenProjectionOutputs || cmd is Preload || cmd is LearnMidiTrigger
            || cmd is CaptureTimecodeTrigger || cmd is LightingLivePush || cmd is RecorderRecord
            || cmd is RecorderDiscard || cmd is RecorderRevert || cmd is RecorderSetMonitor
            || cmd is RecorderPreview || cmd is RecorderStopPreview || cmd is RecorderClearLive
            || cmd is RecorderScrub || cmd is FrameStep || cmd is FrameStepBack || cmd is SeekCue
            || cmd is SetCueLevel,
    ensures
        out == Outcome::Unhandled(cmd),
        final(state)@ == old(state)@,
{
}

/// The queue is taken whole and in order, and commands that are put back stand
/// behind those that came in meanwhile.
#[verifier::rlimit(60)]
pub proof fn the_queue_keeps_its_order(
    a: &mut SharedState,
    b: &mut SharedState,
    r: Vec<AppCommand>,
    unhandled: Vec<AppCommand>,
)
    requires
        call_ensures(take_commands, (a,), r),
        call_ensures(put_back, (b, unhandled), ()),
    ensures
        r@ == old(a)@.command_queue,
        final(a)@.command_queue.len() == 0,
        final(a)@.show_file == old(a)@.show_file,
        final(a)@.selected_cue_id == old(a)@.selected_cue_id,
        final(b)@.command_queue == old(b)@.command_queue + unhandled@,
        final(b)@.show_file == old(b)@.show_file,
        final(b)@.selected_cue_id == old(b)@.selected_cue_id,
{
}

/// A project that was opened is the current one: unchanged, nothing selected,
/// first among the recent ones, and the project before it can be had back.
#[verifier::rlimit(60)]
pub proof fn an_opened_project_is_current(state: &mut SharedState, path: &FilePath, show: ShowFile)
    requires
        call_ensures(apply_project_show, (state, path, show), ()),
        !old(state)@.undo_redo.suppress,
        old(state)@.undo_redo.max_depth > 0,
    ensures
        ({
            let s = old(state)@;
            let t = final(state)@;
            &&& t.show_file == show@
            &&& t.project_path == Some(*path)
            &&& t.selected_cue_id is None
            &&& !t.dirty
            &&& t.project_generation != s.project_generation
            &&& t.recent_files.len() > 0 && t.recent_files[0] == *path
            &&& t.undo_redo.undo.last().show_file == s.show_file
            &&& t.undo_redo.undo.last().project_path == s.project_path
            &&& t.undo_redo.redo.len() == 0
            &&& t.show_mode == s.show_mode
            &&& t.command_queue == s.command_queue
        }),
{
    let s = old(state)@;
    let stack = s.undo_redo.undo.push(s.snapshot());
    if stack.len() > s.undo_redo.max_depth {
        assert(stack.drop_first().last() == s.snapshot());
    }
}

/// A saved project has nothing left to save, is where it was saved, and comes
/// first among the recent ones.
#[verifier::rlimit(60)]
pub proof fn a_saved_project_is_clean(state: &mut SharedState, path: &FilePath)
    requires
        call_ensures(note_saved, (state, path), ()),
    ensures
        !final(state)@.dirty,
        final(state)@.project_path == Some(*path),
        final(state)@.recent_files.len() > 0,
        final(state)@.recent_files[0] == *path,
        final(state)@.show_file == old(state)@.show_file,
        final(state)@.selected_cue_id == old(state)@.selected_cue_id,
        final(state)@.undo_redo == old(state)@.undo_redo,
        final(state)@.project_generation == old(state)@.project_generation,
{
}

/// An import is an edit: the show is the one with the parts copied in, there is
/// work to save, and what was there before can be had back. Outputs are rebuilt
/// where the picture or the light came along, and audio where its settings did.
#[verifier::rlimit(60)]
pub proof fn an_import_is_an_edit(
    state: &mut SharedState,
    imported: ShowFile,
    sections: ImportSections,
)
    requires
        call_ensures(apply_project_import, (state, imported, sections), ()),
        !old(state)@.undo_redo.suppress,
        old(state)@.undo_redo.max_depth > 0,
    ensures
        ({
            let s = old(state)@;
            let t = final(state)@;
            let rebuilt = sections.projection || sections.lighting;
            &&& t.show_file == imported@
            &&& t.dirty
            &&& t.project_path == s.project_path
            &&& t.selected_cue_id == s.selected_cue_id
            &&& rebuilt <==> t.project_generation != s.project_generation
            &&& t.undo_redo.undo.last().show_file == s.show_file
            &&& t.undo_redo.redo.len() == 0
            &&& !sections.show_settings ==> t.command_queue == s.command_queue
            &&& sections.show_settings ==> crate::state::audio_apply_queued(t.command_queue)
        }),
{
    let s = old(state)@;
    let stack = s.undo_redo.undo.push(s.snapshot());
    if stack.len() > s.undo_redo.max_depth {
        assert(stack.drop_first().last() == s.snapshot());
    }
    if sections.show_settings && !crate::state::audio_apply_queued(s.command_queue) {
        let q = final(state)@.command_queue;
        assert(q[q.len() - 1] is ApplyAudioSettings);
    }
}

proof fn lemma_refused_all_or_none(outcomes: Seq<Result<(), AppCommand>>, given: Seq<AppCommand>)
    requires
        outcomes.len() == given.len(),
    ensures
        (forall|i: int| 0 <= i < outcomes.len() ==> (#[trigger] outcomes[i]) is Ok) ==> refused(
            outcomes,
        ).len() == 0,
        (forall|i: int| 0 <= i < outcomes.len() ==> (#[trigger] outcomes[i]) == Err::<
            (),
            AppCommand,
        >(given[i])) ==> refused(outcomes) == given,
    decreases outcomes.len(),
{
    if outcomes.len() > 0 {
        let short = outcomes.drop_last();
        lemma_refused_all_or_none(short, given.drop_last());
        let last = outcomes.len() - 1;
        assert(outcomes.last() == outcomes[last]);
        if forall|i: int| 0 <= i < outcomes.len() ==> (#[trigger] outcomes[i]) is Ok {
            assert forall|i: int| 0 <= i < short.len() implies (#[trigger] short[i]) is Ok by {
                assert(outcomes[i] is Ok);
            }
        }
        if forall|i: int|
            0 <= i < outcomes.len() ==> (#[trigger] outcomes[i]) == Err::<(), AppCommand>(
                given[i],
            ) {
            assert forall|i: int| 0 <= i < short.len() implies (#[trigger] short[i]) == Err::<
                (),
                AppCommand,
            >(given.drop_last()[i]) by {
                assert(outcomes[i] == Err::<(), AppCommand>(given[i]));
            }
            assert(given.drop_last().push(given[last]) =~= given);
        }
    }
}

/// Commands that are all taken leave an empty queue; commands that all come
/// back stay on it in their order. Nothing else changes.
#[verifier::rlimit(60)]
pub proof fn taken_commands_leave_the_queue<F: FnMut(AppCommand) -> Result<(), AppCommand>>(
    state: &mut SharedState,
    dispatch: F,
)
    requires
        call_ensures(drain_app_commands::<F>, (state, dispatch), ()),
    ensures
        (forall|c: AppCommand, r: Result<(), AppCommand>| #[trigger]
            call_ensures(dispatch, (c,), r) ==> r is Ok) ==> final(state)@.command_queue.len() == 0,
        (forall|c: AppCommand, r: Result<(), AppCommand>| #[trigger]
            call_ensures(dispatch, (c,), r) ==> r == Err::<(), AppCommand>(c)) ==> final(state)@.command_queue == old(state)@.command_queue,
        final(state)@ == (StateView {
            command_queue: final(state)@.command_queue,
            ..old(state)@
        }),
{
    let outcomes = choose|outcomes: Seq<Result<(), AppCommand>>|
        {
            &&& outcomes.len() == old(state)@.command_queue.len()
            &&& forall|i: int|
                0 <= i < outcomes.len() ==> call_ensures(
                    dispatch,
                    (old(state)@.command_queue[i],),
                    #[trigger] outcomes[i],
                )
            &&& final(state)@ == (StateView {
                command_queue: #[trigger] refused(outcomes),
                ..old(state)@
            })
        };
    lemma_refused_all_or_none(outcomes, old(state)@.command_queue);
}

} // verus!
