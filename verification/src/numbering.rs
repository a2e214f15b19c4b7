//! No two cues have one number: an invariant of the cue list and of every
//! state the history gives back, which all commands keep.

use vstd::prelude::*;

use crate::commands::{
    added, after_redo, after_undo, carried_out, command_ready, deleted, dragged, dropped_parent,
    dropped_row, duplicated, may_discard, nudged, renumbering_keeps_numbers_unique, requalified,
    row_within, run_key, target_of, target_row, ungrouped, with_name, with_parent, with_trigger,
    Outcome,
};
use crate::cue_order::{
    block_head, insertion_of, lemma_members_end, moved, nudge_of, span_end,
};
use crate::qid::Qid;
use crate::show::{has_cue, lemma_position, numbers_unique, position, Cue};
use crate::state::{AppCommand, Moment, ShowMode, StateView};
use crate::undo::{HistoryView, SnapshotView};

verus! {

/// Whether no two cues have one number, in any state the history holds.
pub open spec fn history_unique(h: HistoryView) -> bool {
    &&& forall|i: int| 0 <= i < h.undo.len() ==> numbers_unique((#[trigger] h.undo[i]).show_file.cues)
    &&& forall|i: int| 0 <= i < h.redo.len() ==> numbers_unique((#[trigger] h.redo[i]).show_file.cues)
}

/// Whether no two cues have one number, now and in all of the history.
pub open spec fn all_unique(s: StateView) -> bool {
    numbers_unique(s.show_file.cues) && history_unique(s.undo_redo)
}

/// Whether the numbers for new cues are free and differ from each other.
pub open spec fn numbers_free(cues: Seq<Cue>, next_qid: Qid, numbers: Seq<Qid>) -> bool {
    &&& !has_cue(cues, next_qid@)
    &&& forall|k: int| 0 <= k < numbers.len() ==> !has_cue(cues, (#[trigger] numbers[k])@)
    &&& forall|j: int, k: int|
        0 <= j < k < numbers.len() ==> (#[trigger] numbers[j])@ != (#[trigger] numbers[k])@
}

proof fn lemma_span(cues: Seq<Cue>, i: int)
    requires
        0 <= i < cues.len(),
    ensures
        i < span_end(cues, i) <= cues.len(),
{
    if cues[i].is_group() {
        lemma_members_end(cues, cues[i].base.qid@, i + 1);
    }
}

proof fn lemma_block_head(cues: Seq<Cue>, i: int)
    requires
        0 <= i < cues.len(),
    ensures
        0 <= block_head(cues, i) <= i,
{
    if let Some(p) = cues[i].base.parent {
        lemma_position(cues, p@);
    }
}

/// The row from which the `k`th row of a list with a moved block came.
spec fn origin(start: int, end: int, to: int, k: int) -> int {
    if to < start {
        if k < to || k >= end {
            k
        } else if k < to + (end - start) {
            k - to + start
        } else {
            k - (end - start)
        }
    } else if to > end {
        if k < start || k >= to {
            k
        } else if k < start + (to - end) {
            k - start + end
        } else {
            k - (to - end)
        }
    } else {
        k
    }
}

/// Moving a block keeps the numbers unique.
pub proof fn moving_keeps_numbers_unique(cues: Seq<Cue>, start: int, end: int, to: int)
    requires
        numbers_unique(cues),
        0 <= start <= end <= cues.len(),
        0 <= to <= cues.len(),
    ensures
        numbers_unique(moved(cues, start, end, to)),
{
    let m = moved(cues, start, end, to);
    assert(m.len() == cues.len());
    assert forall|k: int| 0 <= k < m.len() implies #[trigger] m[k] == cues[origin(
        start,
        end,
        to,
        k,
    )] by {}
    assert forall|i: int, j: int| 0 <= i < j < m.len() implies (#[trigger] m[i]).base.qid@ != (
    #[trigger] m[j]).base.qid@ by {
        let a = origin(start, end, to, i);
        let b = origin(start, end, to, j);
        assert(a != b);
        assert(m[i] == cues[a] && m[j] == cues[b]);
        if a < b {
            assert(cues[a].base.qid@ != cues[b].base.qid@);
        } else {
            assert(cues[b].base.qid@ != cues[a].base.qid@);
        }
    }
}

/// A cue that changes but keeps its number keeps the numbers unique.
pub proof fn editing_keeps_numbers_unique(cues: Seq<Cue>, i: int, cue: Cue)
    requires
        numbers_unique(cues),
        0 <= i < cues.len(),
        cue.base.qid@ == cues[i].base.qid@,
    ensures
        numbers_unique(cues.update(i, cue)),
{
    let u = cues.update(i, cue);
    assert forall|a: int, b: int| 0 <= a < b < u.len() implies (#[trigger] u[a]).base.qid@ != (
    #[trigger] u[b]).base.qid@ by {
        assert(cues[a].base.qid@ != cues[b].base.qid@);
    }
}

/// A cue with a free number can be put anywhere.
pub proof fn adding_keeps_numbers_unique(cues: Seq<Cue>, i: int, cue: Cue)
    requires
        numbers_unique(cues),
        0 <= i <= cues.len(),
        !has_cue(cues, cue.base.qid@),
    ensures
        numbers_unique(cues.insert(i, cue)),
{
    let u = cues.insert(i, cue);
    assert forall|a: int, b: int| 0 <= a < b < u.len() implies (#[trigger] u[a]).base.qid@ != (
    #[trigger] u[b]).base.qid@ by {
        let x = if a < i {
            a
        } else {
            a - 1
        };
        let y = if b < i {
            b
        } else {
            b - 1
        };
        if a == i {
            assert(u[b] == cues[y]);
            assert(cues[y].base.qid@ != cue.base.qid@);
        } else if b == i {
            assert(u[a] == cues[x]);
            assert(cues[x].base.qid@ != cue.base.qid@);
        } else {
            assert(u[a] == cues[x] && u[b] == cues[y]);
            assert(cues[x].base.qid@ != cues[y].base.qid@);
        }
    }
}

/// Taking rows away keeps the numbers unique.
pub proof fn deleting_keeps_numbers_unique(cues: Seq<Cue>, i: int, end: int)
    requires
        numbers_unique(cues),
        0 <= i <= end <= cues.len(),
    ensures
        numbers_unique(cues.take(i) + cues.skip(end)),
{
    let u = cues.take(i) + cues.skip(end);
    assert forall|a: int, b: int| 0 <= a < b < u.len() implies (#[trigger] u[a]).base.qid@ != (
    #[trigger] u[b]).base.qid@ by {
        let x = if a < i {
            a
        } else {
            a + (end - i)
        };
        let y = if b < i {
            b
        } else {
            b + (end - i)
        };
        assert(u[a] == cues[x] && u[b] == cues[y]);
        assert(cues[x].base.qid@ != cues[y].base.qid@);
    }
}

/// Copies with free numbers of their own can be put anywhere.
pub proof fn copies_keep_numbers_unique(cues: Seq<Cue>, end: int, copies: Seq<Cue>)
    requires
        numbers_unique(cues),
        numbers_unique(copies),
        0 <= end <= cues.len(),
        forall|k: int| 0 <= k < copies.len() ==> !has_cue(cues, (#[trigger] copies[k]).base.qid@),
    ensures
        numbers_unique(cues.take(end) + copies + cues.skip(end)),
{
    let u = cues.take(end) + copies + cues.skip(end);
    let n = copies.len() as int;
    assert forall|a: int, b: int| 0 <= a < b < u.len() implies (#[trigger] u[a]).base.qid@ != (
    #[trigger] u[b]).base.qid@ by {
        let from = |k: int|
            if k < end {
                cues[k]
            } else if k < end + n {
                copies[k - end]
            } else {
                cues[k - n]
            };
        assert(u[a] == from(a) && u[b] == from(b));
        let ca = end <= a < end + n;
        let cb = end <= b < end + n;
        if ca && cb {
            assert(copies[a - end].base.qid@ != copies[b - end].base.qid@);
        } else if ca {
            assert(!has_cue(cues, copies[a - end].base.qid@));
        } else if cb {
            assert(!has_cue(cues, copies[b - end].base.qid@));
        } else {
            let x = if a < end {
                a
            } else {
                a - n
            };
            let y = if b < end {
                b
            } else {
                b - n
            };
            assert(cues[x].base.qid@ != cues[y].base.qid@);
        }
    }
}

proof fn lemma_recorded_unique(h: HistoryView, s: SnapshotView)
    requires
        history_unique(h),
        numbers_unique(s.show_file.cues),
    ensures
        history_unique(h.recorded(s)),
{
    let r = h.recorded(s);
    assert forall|i: int| 0 <= i < r.undo.len() implies numbers_unique(
        (#[trigger] r.undo[i]).show_file.cues,
    ) by {
        let stack = h.undo.push(s);
        if !h.suppress && !h.merges(s) {
            let k = if stack.len() > h.max_depth {
                i + 1
            } else {
                i
            };
            assert(r.undo[i] == stack[k]);
            if k < h.undo.len() {
                assert(numbers_unique(h.undo[k].show_file.cues));
            }
        } else {
            assert(numbers_unique(h.undo[i].show_file.cues));
        }
    }
}

proof fn lemma_nudge_in_range(cues: Seq<Cue>, i: int, down: bool)
    requires
        0 <= i < cues.len(),
    ensures
        nudge_of(cues, i, down) matches Some(m) ==> 0 <= m.0 <= m.1 <= cues.len() && 0 <= m.2
            <= cues.len(),
{
    lemma_block_head(cues, i);
    lemma_span(cues, i);
    let head = block_head(cues, i);
    lemma_span(cues, head);
    if head >= i {
        if down {
            if span_end(cues, i) < cues.len() {
                lemma_span(cues, span_end(cues, i));
            }
        } else if i > 0 {
            lemma_block_head(cues, i - 1);
        }
    }
}

proof fn lemma_adding(s: StateView, cmd: AppCommand, next_qid: Qid, t: StateView, numbers: Seq<Qid>)
    requires
        all_unique(s),
        numbers_free(s.show_file.cues, next_qid, numbers),
        cmd is AddCue,
        added(s, cmd->cue_type, next_qid, t),
    ensures
        all_unique(t),
{
    let cues = s.show_file.cues;
    lemma_recorded_unique(s.undo_redo, s.snapshot());
    let place = insertion_of(cues, s.selected_cue_id);
    if let Some(id) = s.selected_cue_id {
        lemma_position(cues, id@);
    }
    adding_keeps_numbers_unique(cues, place.0, t.show_file.cues[place.0]);
}

proof fn lemma_deleting(s: StateView, i: int)
    requires
        all_unique(s),
        0 <= i < s.show_file.cues.len(),
    ensures
        all_unique(deleted(s, i)),
{
    let cues = s.show_file.cues;
    lemma_recorded_unique(s.undo_redo, s.snapshot());
    lemma_span(cues, i);
    deleting_keeps_numbers_unique(cues, i, span_end(cues, i));
}

proof fn lemma_duplicating(
    s: StateView,
    i: int,
    id: Qid,
    next_qid: Qid,
    numbers: Seq<Qid>,
    now: Moment,
    t: StateView,
)
    requires
        all_unique(s),
        0 <= i < s.show_file.cues.len(),
        numbers.len() == span_end(s.show_file.cues, i) - i,
        numbers_free(s.show_file.cues, next_qid, numbers),
        duplicated(s, i, id, numbers, now, t),
    ensures
        all_unique(t),
{
    let cues = s.show_file.cues;
    lemma_recorded_unique(s.undo_redo, s.snapshot());
    lemma_span(cues, i);
    let end = span_end(cues, i);
    let copies = t.show_file.cues.subrange(end, end + (end - i));
    assert(t.show_file.cues == cues.take(end) + copies + cues.skip(end));
    assert forall|a: int, b: int| 0 <= a < b < copies.len() implies (
    #[trigger] copies[a]).base.qid@ != (#[trigger] copies[b]).base.qid@ by {
        assert(copies[a].base.qid == numbers[a]);
        assert(copies[b].base.qid == numbers[b]);
    }
    assert forall|k: int| 0 <= k < copies.len() implies !has_cue(
        cues,
        (#[trigger] copies[k]).base.qid@,
    ) by {
        assert(copies[k].base.qid == numbers[k]);
    }
    copies_keep_numbers_unique(cues, end, copies);
}

proof fn lemma_stepping(s: StateView, qid: Option<Qid>, down: bool)
    requires
        all_unique(s),
    ensures
        all_unique(nudged(s, qid, down)),
{
    let cues = s.show_file.cues;
    if let Some(i) = target_row(s, qid) {
        if let Some(id) = target_of(qid, s.selected_cue_id) {
            lemma_position(cues, id@);
        }
        lemma_nudge_in_range(cues, i, down);
        if let Some(m) = nudge_of(cues, i, down) {
            moving_keeps_numbers_unique(cues, m.0, m.1, m.2);
            let key = run_key(target_of(qid, s.selected_cue_id)->0, "move"@);
            lemma_recorded_unique(
                s.undo_redo,
                SnapshotView { merge_key: Some(key), ..s.snapshot() },
            );
        }
    }
}

proof fn lemma_ungrouping(s: StateView, qid: Qid)
    requires
        all_unique(s),
    ensures
        all_unique(ungrouped(s, qid)),
{
    let cues = s.show_file.cues;
    let i = position(cues, qid@) as int;
    lemma_position(cues, qid@);
    if i < cues.len() && cues[i].base.parent is Some {
        lemma_block_head(cues, i);
        let end = span_end(cues, block_head(cues, i));
        lemma_span(cues, block_head(cues, i));
        let freed = cues.update(i, with_parent(cues[i], None));
        editing_keeps_numbers_unique(cues, i, with_parent(cues[i], None));
        moving_keeps_numbers_unique(freed, i, i + 1, end);
        lemma_recorded_unique(s.undo_redo, s.snapshot());
    }
}

proof fn lemma_dragging(s: StateView, from: int, to: int, parent: Option<Qid>)
    requires
        all_unique(s),
        0 <= from,
        0 <= to,
    ensures
        all_unique(dragged(s, from, to, parent)),
{
    let cues = s.show_file.cues;
    if from < cues.len() {
        lemma_span(cues, from);
        let row = row_within(cues, dropped_row(cues, from, to));
        if to < cues.len() {
            lemma_block_head(cues, to);
        }
        let joined = dropped_parent(cues[from], parent);
        let set = cues.update(from, with_parent(cues[from], joined));
        editing_keeps_numbers_unique(cues, from, with_parent(cues[from], joined));
        moving_keeps_numbers_unique(set, from, span_end(cues, from), row);
        lemma_recorded_unique(s.undo_redo, s.snapshot());
    }
}

proof fn lemma_renumbering(s: StateView, qid: Qid, new_qid: Qid, now: Moment)
    requires
        all_unique(s),
    ensures
        all_unique(requalified(s, qid, new_qid, now)),
{
    let cues = s.show_file.cues;
    let i = position(cues, qid@) as int;
    lemma_position(cues, qid@);
    if !has_cue(cues, new_qid@) && i < cues.len() {
        renumbering_keeps_numbers_unique(cues, i, new_qid);
        let key = run_key(qid, "qid"@);
        lemma_recorded_unique(s.undo_redo, SnapshotView { merge_key: Some(key), ..s.snapshot() });
    }
}

proof fn lemma_renaming(s: StateView, qid: Qid, key: Seq<char>, cue: Cue)
    requires
        all_unique(s),
        position(s.show_file.cues, qid@) < s.show_file.cues.len(),
        cue.base.qid == s.show_file.cues[position(s.show_file.cues, qid@) as int].base.qid,
    ensures
        all_unique(
            s.recorded_as(key).edited(
                s.show_file.cues.update(position(s.show_file.cues, qid@) as int, cue),
            ),
        ),
{
    let i = position(s.show_file.cues, qid@) as int;
    editing_keeps_numbers_unique(s.show_file.cues, i, cue);
    lemma_recorded_unique(s.undo_redo, SnapshotView { merge_key: Some(key), ..s.snapshot() });
}

proof fn lemma_going_back(s: StateView)
    requires
        all_unique(s),
    ensures
        all_unique(after_undo(s)),
        all_unique(after_redo(s)),
{
    let h = s.undo_redo;
    if h.undo.len() > 0 {
        let u = h.undone(s.snapshot());
        assert(numbers_unique(h.undo.last().show_file.cues)) by {
            assert(h.undo.last() == h.undo[h.undo.len() - 1]);
        }
        assert forall|i: int| 0 <= i < u.undo.len() implies numbers_unique(
            (#[trigger] u.undo[i]).show_file.cues,
        ) by {
            assert(u.undo[i] == h.undo[i]);
        }
        assert forall|i: int| 0 <= i < u.redo.len() implies numbers_unique(
            (#[trigger] u.redo[i]).show_file.cues,
        ) by {
            if i < h.redo.len() {
                assert(u.redo[i] == h.redo[i]);
            }
        }
    }
    if h.redo.len() > 0 {
        let u = h.redone(s.snapshot());
        assert(numbers_unique(h.redo.last().show_file.cues)) by {
            assert(h.redo.last() == h.redo[h.redo.len() - 1]);
        }
        assert forall|i: int| 0 <= i < u.undo.len() implies numbers_unique(
            (#[trigger] u.undo[i]).show_file.cues,
        ) by {
            if i < h.undo.len() {
                assert(u.undo[i] == h.undo[i]);
            }
        }
        assert forall|i: int| 0 <= i < u.redo.len() implies numbers_unique(
            (#[trigger] u.redo[i]).show_file.cues,
        ) by {
            assert(u.redo[i] == h.redo[i]);
        }
    }
}

/// No command gives two cues one number, nor puts a state into the history in
/// which two have one. New cues get numbers that are free.
pub proof fn commands_keep_numbers_unique(
    s: StateView,
    cmd: AppCommand,
    next_qid: Qid,
    numbers: Seq<Qid>,
    now: Moment,
    t: StateView,
    out: Outcome,
)
    requires
        all_unique(s),
        numbers_free(s.show_file.cues, next_qid, numbers),
        command_ready(s, cmd, numbers),
        carried_out(s, cmd, next_qid, numbers, now, t, out),
    ensures
        all_unique(t),
{
    let cues = s.show_file.cues;
    if !(s.show_mode == ShowMode::Show && cmd.is_cue_edit()) {
        match cmd {
            AppCommand::NewProject => {
                if may_discard(s) {
                    lemma_recorded_unique(s.undo_redo, s.snapshot());
                }
            },
            AppCommand::Undo => lemma_going_back(s),
            AppCommand::Redo => lemma_going_back(s),
            AppCommand::AddCue { cue_type } => lemma_adding(s, cmd, next_qid, t, numbers),
            AppCommand::DeleteCue { qid } => {
                if let Some(i) = target_row(s, qid) {
                    lemma_target(s, qid);
                    lemma_deleting(s, i);
                }
            },
            AppCommand::DuplicateCue { qid } => {
                if let Some(i) = target_row(s, qid) {
                    lemma_target(s, qid);
                    lemma_duplicating(
                        s,
                        i,
                        target_of(qid, s.selected_cue_id)->0,
                        next_qid,
                        numbers,
                        now,
                        t,
                    );
                }
            },
            AppCommand::MoveCueUp { qid } => lemma_stepping(s, qid, false),
            AppCommand::MoveCueDown { qid } => lemma_stepping(s, qid, true),
            AppCommand::UngroupCue { qid } => lemma_ungrouping(s, qid),
            AppCommand::MoveCue { from_idx, to_idx, parent } => lemma_dragging(
                s,
                from_idx as int,
                to_idx as int,
                parent,
            ),
            AppCommand::UpdateCueQid { qid, new_qid } => lemma_renumbering(s, qid, new_qid, now),
            AppCommand::UpdateCueName { qid, name } => {
                lemma_position(cues, qid@);
                if position(cues, qid@) < cues.len() {
                    let i = position(cues, qid@) as int;
                    lemma_renaming(
                        s,
                        qid,
                        run_key(qid, "name"@),
                        with_name(cues[i], name),
                    );
                }
            },
            AppCommand::UpdateCueTrigger { qid, trigger } => {
                lemma_position(cues, qid@);
                if position(cues, qid@) < cues.len() {
                    let i = position(cues, qid@) as int;
                    lemma_renaming(
                        s,
                        qid,
                        run_key(qid, "trigger"@),
                        with_trigger(cues[i], trigger),
                    );
                }
            },
            _ => {},
        }
    }
}

proof fn lemma_target(s: StateView, qid: Option<Qid>)
    ensures
        target_row(s, qid) matches Some(i) ==> 0 <= i < s.show_file.cues.len(),
{
    if let Some(id) = target_of(qid, s.selected_cue_id) {
        lemma_position(s.show_file.cues, id@);
    }
}

} // verus!
