//! The edit history: what the project was before each edit.

use vstd::prelude::*;

use crate::path::FilePath;
use crate::qid::Qid;
use crate::show::{ShowFile, ShowView};
use crate::text::{same, text_opt};

verus! {

/// The editable state of a project at one moment. The operator's mode is not
/// part of it: undoing an edit never leaves Show mode.
#[derive(Debug)]
pub struct Snapshot {
    pub show_file: ShowFile,
    pub project_path: Option<FilePath>,
    pub selected_cue_id: Option<Qid>,
    pub dirty: bool,
    /// Consecutive snapshots with the same key belong to one edit.
    pub merge_key: Option<String>,
}

#[verifier::ext_equal]
pub struct SnapshotView {
    pub show_file: ShowView,
    pub project_path: Option<FilePath>,
    pub selected_cue_id: Option<Qid>,
    pub dirty: bool,
    pub merge_key: Option<Seq<char>>,
}

impl View for Snapshot {
    type V = SnapshotView;

    open spec fn view(&self) -> SnapshotView {
        SnapshotView {
            show_file: self.show_file@,
            project_path: self.project_path,
            selected_cue_id: self.selected_cue_id,
            dirty: self.dirty,
            merge_key: text_opt(self.merge_key),
        }
    }
}

impl Snapshot {
    /// The snapshot as part of the run of edits named `key`.
    pub fn with_merge_key(self, key: String) -> (r: Snapshot)
        ensures
            r@ == (SnapshotView { merge_key: Some(key@), ..self@ }),
    {
        Snapshot {
            show_file: self.show_file,
            project_path: self.project_path,
            selected_cue_id: self.selected_cue_id,
            dirty: self.dirty,
            merge_key: Some(key),
        }
    }
}

/// Undo and redo histories of bounded depth.
#[derive(Debug)]
pub struct UndoRedo {
    undo_stack: Vec<Snapshot>,
    redo_stack: Vec<Snapshot>,
    max_depth: usize,
    /// While set, no snapshot is recorded.
    suppress: bool,
}

#[verifier::ext_equal]
pub struct HistoryView {
    pub undo: Seq<SnapshotView>,
    pub redo: Seq<SnapshotView>,
    pub max_depth: nat,
    pub suppress: bool,
}

pub open spec fn snapshots(v: Seq<Snapshot>) -> Seq<SnapshotView> {
    v.map_values(|s: Snapshot| s@)
}

impl View for UndoRedo {
    type V = HistoryView;

    closed spec fn view(&self) -> HistoryView {
        HistoryView {
            undo: snapshots(self.undo_stack@),
            redo: snapshots(self.redo_stack@),
            max_depth: self.max_depth as nat,
            suppress: self.suppress,
        }
    }
}

impl HistoryView {
    /// Whether `s` belongs to the run of edits that the latest snapshot began.
    pub open spec fn merges(self, s: SnapshotView) -> bool {
        s.merge_key is Some && self.undo.len() > 0 && self.undo.last().merge_key == s.merge_key
    }

    /// The history once `s` is recorded: nothing can be redone any more; of a
    /// run of merged edits the first snapshot stays; the oldest one goes where
    /// there is no room.
    pub open spec fn recorded(self, s: SnapshotView) -> HistoryView {
        if self.suppress {
            self
        } else if self.merges(s) {
            HistoryView { redo: Seq::empty(), ..self }
        } else {
            let stack = self.undo.push(s);
            HistoryView {
                undo: if stack.len() > self.max_depth {
                    stack.drop_first()
                } else {
                    stack
                },
                redo: Seq::empty(),
                ..self
            }
        }
    }

    /// The history after one step back from `current`.
    pub open spec fn undone(self, current: SnapshotView) -> HistoryView {
        if self.undo.len() > 0 {
            HistoryView { undo: self.undo.drop_last(), redo: self.redo.push(current), ..self }
        } else {
            self
        }
    }

    /// The history after one step forward from `current`.
    pub open spec fn redone(self, current: SnapshotView) -> HistoryView {
        if self.redo.len() > 0 {
            HistoryView { undo: self.undo.push(current), redo: self.redo.drop_last(), ..self }
        } else {
            self
        }
    }

    /// Both stacks together never hold more than the depth allows.
    pub open spec fn bounded(self) -> bool {
        self.undo.len() + self.redo.len() <= self.max_depth
    }
}

impl UndoRedo {
    pub fn new(max_depth: usize) -> (r: UndoRedo)
        ensures
            r@ == (HistoryView {
                undo: Seq::empty(),
                redo: Seq::empty(),
                max_depth: max_depth as nat,
                suppress: false,
            }),
    {
        let r: UndoRedo = UndoRedo {
            undo_stack: Vec::new(),
            redo_stack: Vec::new(),
            max_depth,
            suppress: false,
        };
        assert(snapshots(r.undo_stack@) =~= Seq::<SnapshotView>::empty());
        assert(snapshots(r.redo_stack@) =~= Seq::<SnapshotView>::empty());
        r
    }

    /// Record a snapshot of the state before an edit.
    pub fn push(&mut self, snapshot: Snapshot)
        ensures
            final(self)@ == old(self)@.recorded(snapshot@),
    {
        if self.suppress {
            return;
        }
        let n: usize = self.undo_stack.len();
        let merges: bool = match &snapshot.merge_key {
            Some(key) => {
                if n > 0 {
                    match &self.undo_stack[n - 1].merge_key {
                        Some(top) => same(top.as_str(), key.as_str()),
                        None => false,
                    }
                } else {
                    false
                }
            },
            None => false,
        };
        assert(n > 0 ==> snapshots(self.undo_stack@).last() == self.undo_stack@[n - 1]@);
        assert(merges == old(self)@.merges(snapshot@));
        self.redo_stack.clear();
        assert(snapshots(self.redo_stack@) =~= Seq::<SnapshotView>::empty());
        if merges {
            assert(self@ =~= old(self)@.recorded(snapshot@));
            return;
        }
        let ghost before = self.undo_stack@;
        let ghost taken = snapshot@;
        self.undo_stack.push(snapshot);
        assert(snapshots(self.undo_stack@) =~= snapshots(before).push(taken));
        if self.undo_stack.len() > self.max_depth {
            let ghost full = self.undo_stack@;
            self.undo_stack.remove(0);
            assert(snapshots(self.undo_stack@) =~= snapshots(full).drop_first());
        }
        assert(self@ =~= old(self)@.recorded(taken));
    }

    /// One step back: the latest snapshot, with `current` kept for a redo.
    pub fn undo(&mut self, current: Snapshot) -> (r: Option<Snapshot>)
        ensures
            final(self)@ == old(self)@.undone(current@),
            r is Some == (old(self)@.undo.len() > 0),
            r matches Some(s) ==> s@ == old(self)@.undo.last(),
    {
        let ghost before = self.undo_stack@;
        match self.undo_stack.pop() {
            Some(previous) => {
                let ghost redo = self.redo_stack@;
                let ghost kept = current@;
                self.redo_stack.push(current);
                proof {
                    assert(snapshots(self.redo_stack@) =~= snapshots(redo).push(kept));
                    assert(snapshots(self.undo_stack@) =~= snapshots(before).drop_last());
                    assert(snapshots(before).last() == previous@);
                    assert(self@ =~= old(self)@.undone(kept));
                }
                Some(previous)
            },
            None => None,
        }
    }

    /// One step forward: the latest undone state, with `current` kept for an
    /// undo.
    pub fn redo(&mut self, current: Snapshot) -> (r: Option<Snapshot>)
        ensures
            final(self)@ == old(self)@.redone(current@),
            r is Some == (old(self)@.redo.len() > 0),
            r matches Some(s) ==> s@ == old(self)@.redo.last(),
    {
        let ghost before = self.redo_stack@;
        match self.redo_stack.pop() {
            Some(next) => {
                let ghost undo = self.undo_stack@;
                let ghost kept = current@;
                self.undo_stack.push(current);
                proof {
                    assert(snapshots(self.undo_stack@) =~= snapshots(undo).push(kept));
                    assert(snapshots(self.redo_stack@) =~= snapshots(before).drop_last());
                    assert(snapshots(before).last() == next@);
                    assert(self@ =~= old(self)@.redone(kept));
                }
                Some(next)
            },
            None => None,
        }
    }

    pub fn can_undo(&self) -> (b: bool)
        ensures
            b == (self@.undo.len() > 0),
    {
        !self.undo_stack.is_empty()
    }

    pub fn can_redo(&self) -> (b: bool)
        ensures
            b == (self@.redo.len() > 0),
    {
        !self.redo_stack.is_empty()
    }

    pub fn set_suppress(&mut self, suppress: bool)
        ensures
            final(self)@ == (HistoryView { suppress, ..old(self)@ }),
    {
        self.suppress = suppress;
    }
}

impl Default for UndoRedo {
    /// A history of fifty steps.
    fn default() -> (r: Self)
        ensures
            r@ == (HistoryView {
                undo: Seq::empty(),
                redo: Seq::empty(),
                max_depth: 50,
                suppress: false,
            }),
    {
        UndoRedo::new(50)
    }
}

/// Undoing right after an edit gives back the snapshot taken before it.
pub proof fn undo_gives_back_the_state_before_the_edit(h: HistoryView, s: SnapshotView)
    requires
        !h.suppress,
        h.max_depth > 0,
        !h.merges(s),
    ensures
        h.recorded(s).undo.len() > 0,
        h.recorded(s).undo.last() == s,
{
    let stack = h.undo.push(s);
    if stack.len() > h.max_depth {
        assert(stack.drop_first().last() == s);
    }
}

/// Redoing right after an undo gives back the state the undo left, and the
/// history is as it was before the undo.
pub proof fn redo_undoes_an_undo(h: HistoryView, current: SnapshotView)
    requires
        h.undo.len() > 0,
    ensures
        h.undone(current).redo.last() == current,
        h.undone(current).redone(h.undo.last()) == h,
{
    let u = h.undone(current);
    assert(u.redone(h.undo.last()).undo =~= h.undo);
    assert(u.redone(h.undo.last()).redo =~= h.redo);
}

/// A run of edits under one key undoes as one step: a later edit of the run
/// leaves the snapshots to undo as they are.
pub proof fn merged_edits_undo_as_one_step(h: HistoryView, first: SnapshotView, later: SnapshotView)
    requires
        !h.suppress,
        h.max_depth > 0,
        !h.merges(first),
        first.merge_key is Some,
        later.merge_key == first.merge_key,
    ensures
        h.recorded(first).recorded(later) == h.recorded(first),
        h.recorded(first).recorded(later).undo.last() == first,
{
    undo_gives_back_the_state_before_the_edit(h, first);
    assert(h.recorded(first).recorded(later).redo =~= h.recorded(first).redo);
}

/// Recording an edit leaves nothing to redo.
pub proof fn an_edit_discards_redo(h: HistoryView, s: SnapshotView)
    requires
        !h.suppress,
    ensures
        h.recorded(s).redo.len() == 0,
{
}

/// While recording is suppressed, nothing is recorded.
pub proof fn suppressed_recording_changes_nothing(h: HistoryView, s: SnapshotView)
    requires
        h.suppress,
    ensures
        h.recorded(s) == h,
{
}

/// No step makes the history deeper than its limit.
pub proof fn history_stays_bounded(h: HistoryView, s: SnapshotView)
    requires
        h.bounded(),
    ensures
        h.recorded(s).bounded(),
        h.undone(s).bounded(),
        h.redone(s).bounded(),
{
}

/// What is recorded comes back on the step back, unless it belongs to the run
/// of edits on top, whose first snapshot stays; nothing can be redone after an
/// edit, and of a full history the oldest goes.
pub proof fn recorded_snapshots_come_back(
    h: &mut UndoRedo,
    snapshot: Snapshot,
    back: &mut UndoRedo,
    current: Snapshot,
    r: Option<Snapshot>,
)
    requires
        call_ensures(UndoRedo::push, (h, snapshot), ()),
        old(back)@ == final(h)@,
        call_ensures(UndoRedo::undo, (back, current), r),
        old(h)@.max_depth > 0,
        old(h)@.undo.len() <= old(h)@.max_depth,
    ensures
        ({
            let was = old(h)@;
            let now = final(h)@;
            let n = was.undo.len();
            let merges = snapshot.merge_key is Some && n > 0 && was.undo[n - 1].merge_key == Some(
                snapshot.merge_key->0@,
            );
            &&& was.suppress ==> now == was
            &&& !was.suppress ==> now.redo.len() == 0
            &&& !was.suppress && merges ==> now.undo == was.undo && r is Some && r->0@
                == was.undo[n - 1]
            &&& !was.suppress && !merges ==> r is Some && r->0@ == snapshot@
            &&& !was.suppress && !merges && n < was.max_depth ==> now.undo == was.undo.push(
                snapshot@,
            )
            &&& !was.suppress && !merges && n == was.max_depth ==> now.undo.len() == n
                && now.undo.drop_last() == was.undo.skip(1)
            &&& now.max_depth == was.max_depth
            &&& now.suppress == was.suppress
        }),
{
    let was = old(h)@;
    let stack = was.undo.push(snapshot@);
    if stack.len() > was.max_depth {
        assert(stack.drop_first().last() == snapshot@);
        assert(stack.drop_first().drop_last() =~= was.undo.skip(1));
    }
}

/// A step back hands out the latest snapshot and keeps the present for a step
/// forward, which hands it out again and leaves the history as it was.
pub proof fn steps_back_and_forward_undo_each_other(
    h: &mut UndoRedo,
    on: &mut UndoRedo,
    current: Snapshot,
    previous: Snapshot,
    r: Option<Snapshot>,
    q: Option<Snapshot>,
)
    requires
        call_ensures(UndoRedo::undo, (h, current), r),
        old(on)@ == final(h)@,
        call_ensures(UndoRedo::redo, (on, previous), q),
        old(h)@.undo.len() > 0,
        previous@ == old(h)@.undo.last(),
    ensures
        ({
            let n = old(h)@.undo.len();
            &&& r is Some && r->0@ == old(h)@.undo[n - 1]
            &&& final(h)@.undo == old(h)@.undo.take(n - 1)
            &&& final(h)@.redo == old(h)@.redo.push(current@)
            &&& q is Some && q->0@ == current@
            &&& final(on)@.undo == old(h)@.undo
            &&& final(on)@.redo == old(h)@.redo
        }),
{
    let n = old(h)@.undo.len();
    assert(old(h)@.undo.drop_last() =~= old(h)@.undo.take(n - 1));
    assert(final(on)@.undo =~= old(h)@.undo);
    assert(final(on)@.redo =~= old(h)@.redo);
}

/// Without a snapshot there is no step, and a history tells whether there is
/// one; a fresh one has none.
pub proof fn an_empty_history_has_no_steps(
    h: &mut UndoRedo,
    on: &mut UndoRedo,
    current: Snapshot,
    r: Option<Snapshot>,
    q: Option<Snapshot>,
    told: &UndoRedo,
    u: bool,
    v: bool,
    depth: usize,
    fresh: UndoRedo,
)
    requires
        call_ensures(UndoRedo::undo, (h, current), r),
        call_ensures(UndoRedo::redo, (on, current), q),
        call_ensures(UndoRedo::can_undo, (told,), u),
        call_ensures(UndoRedo::can_redo, (told,), v),
        call_ensures(UndoRedo::new, (depth,), fresh),
    ensures
        old(h)@.undo.len() == 0 ==> r is None && final(h)@ == old(h)@,
        old(on)@.redo.len() == 0 ==> q is None && final(on)@ == old(on)@,
        u <==> told@.undo.len() > 0,
        v <==> told@.redo.len() > 0,
        fresh@.undo.len() == 0 && fresh@.redo.len() == 0,
        fresh@.max_depth == depth,
        !fresh@.suppress,
{
}

/// A snapshot of a run of edits is the snapshot with the run's name, and a
/// history records again once it is told to.
pub proof fn runs_are_named(
    s: Snapshot,
    key: String,
    r: Snapshot,
    h: &mut UndoRedo,
    suppress: bool,
)
    requires
        call_ensures(Snapshot::with_merge_key, (s, key), r),
        call_ensures(UndoRedo::set_suppress, (h, suppress), ()),
    ensures
        r@.merge_key == Some(key@),
        r@.show_file == s@.show_file,
        r@.project_path == s@.project_path,
        r@.selected_cue_id == s@.selected_cue_id,
        r@.dirty == s@.dirty,
        final(h)@.suppress == suppress,
        final(h)@.undo == old(h)@.undo,
        final(h)@.redo == old(h)@.redo,
        final(h)@.max_depth == old(h)@.max_depth,
{
}

} // verus!
