//! Blocks of the cue list. A group and the members right behind it are one
//! block; every other cue is a block of its own.

use vstd::prelude::*;

use crate::qid::{qid_opt, Qid};
use crate::show::{find_cue, position, Cue};

verus! {

/// Rows `start` up to, not including, `end`.
#[derive(Clone, Copy, PartialEq, Eq, Structural, Debug)]
pub struct Block {
    pub start: usize,
    pub end: usize,
}

/// The first row at or after `i` that is not a member of the group `id`.
pub open spec fn members_end(cues: Seq<Cue>, id: (int, nat), i: int) -> int
    decreases cues.len() - i,
{
    if i < 0 || i >= cues.len() || qid_opt(cues[i].base.parent) != Some(id) {
        i
    } else {
        members_end(cues, id, i + 1)
    }
}

/// Where the block that starts at row `i` ends.
pub open spec fn span_end(cues: Seq<Cue>, i: int) -> int {
    if cues[i].is_group() {
        members_end(cues, cues[i].base.qid@, i + 1)
    } else {
        i + 1
    }
}

pub proof fn lemma_members_end(cues: Seq<Cue>, id: (int, nat), i: int)
    requires
        0 <= i <= cues.len(),
    ensures
        i <= members_end(cues, id, i) <= cues.len(),
        forall|j: int|
            i <= j < members_end(cues, id, i) ==> qid_opt((#[trigger] cues[j]).base.parent) == Some(
                id,
            ),
        members_end(cues, id, i) < cues.len() ==> qid_opt(
            cues[members_end(cues, id, i)].base.parent,
        ) != Some(id),
    decreases cues.len() - i,
{
    if i < cues.len() && qid_opt(cues[i].base.parent) == Some(id) {
        lemma_members_end(cues, id, i + 1);
    }
}

/// A group's block holds the group, then members of it only, and stops at the
/// first row that is none.
pub proof fn group_block_is_contiguous(cues: Seq<Cue>, i: int)
    requires
        0 <= i < cues.len(),
        cues[i].is_group(),
    ensures
        i < span_end(cues, i) <= cues.len(),
        forall|j: int|
            i < j < span_end(cues, i) ==> qid_opt((#[trigger] cues[j]).base.parent) == Some(
                cues[i].base.qid@,
            ),
        span_end(cues, i) < cues.len() ==> qid_opt(cues[span_end(cues, i)].base.parent) != Some(
            cues[i].base.qid@,
        ),
{
    lemma_members_end(cues, cues[i].base.qid@, i + 1);
}

/// The block that starts at row `i`: a group with its members, or one cue.
pub fn span(cues: &Vec<Cue>, i: usize) -> (b: Block)
    requires
        i < cues@.len(),
    ensures
        b.start == i,
        b.end == span_end(cues@, i as int),
        i < b.end <= cues@.len(),
{
    let n: usize = cues.len();
    let mut end: usize = i + 1;
    if cues[i].group() {
        let id: Qid = cues[i].base.qid;
        while end < n && is_member(&cues[end], &id)
            invariant
                n == cues@.len(),
                i < end <= n,
                members_end(cues@, id@, i + 1) == members_end(cues@, id@, end as int),
            decreases cues@.len() - end,
        {
            end = end + 1;
        }
    }
    Block { start: i, end }
}

fn is_member(cue: &Cue, id: &Qid) -> (b: bool)
    ensures
        b == (qid_opt(cue.base.parent) == Some(id@)),
{
    match &cue.base.parent {
        Some(p) => p.same(id),
        None => false,
    }
}

/// The row that heads the block in which row `i` stands: the cue's group,
/// where the cue is among the members right behind it, else the row itself.
pub open spec fn block_head(cues: Seq<Cue>, i: int) -> int {
    match cues[i].base.parent {
        Some(p) => {
            let h = position(cues, p@) as int;
            if h < i && cues[h].is_group() && span_end(cues, h) > i {
                h
            } else {
                i
            }
        },
        None => i,
    }
}

/// The whole block in which row `i` stands.
pub fn enclosing_span(cues: &Vec<Cue>, i: usize) -> (b: Block)
    requires
        i < cues@.len(),
    ensures
        b.start == block_head(cues@, i as int),
        b.end == span_end(cues@, b.start as int),
        b.start <= i < b.end <= cues@.len(),
{
    match cues[i].base.parent {
        Some(p) => match find_cue(cues, &p) {
            Some(h) => {
                if h < i && cues[h].group() {
                    let b: Block = span(cues, h);
                    if b.end > i {
                        return b;
                    }
                }
            },
            None => {},
        },
        None => {},
    }
    span(cues, i)
}

/// `cues` with the rows `start..end` taken out and put back before the row
/// that was at `to`; unchanged where `to` is at or inside them.
pub open spec fn moved(cues: Seq<Cue>, start: int, end: int, to: int) -> Seq<Cue> {
    if to < start {
        cues.take(to) + cues.subrange(start, end) + cues.subrange(to, start) + cues.skip(end)
    } else if to > end {
        cues.take(start) + cues.subrange(end, to) + cues.subrange(start, end) + cues.skip(to)
    } else {
        cues
    }
}

/// Moving a block only reorders the list: every cue is still in it, as often.
pub proof fn moving_keeps_every_cue(cues: Seq<Cue>, start: int, end: int, to: int)
    requires
        0 <= start <= end <= cues.len(),
        0 <= to <= cues.len(),
    ensures
        moved(cues, start, end, to).len() == cues.len(),
        moved(cues, start, end, to).to_multiset() == cues.to_multiset(),
{
    broadcast use vstd::seq_lib::group_seq_properties;
    if to < start {
        let a = cues.take(to);
        let b = cues.subrange(to, start);
        let c = cues.subrange(start, end);
        let d = cues.skip(end);
        assert(cues =~= a + b + c + d);
        lemma_swap_middle(a, b, c, d);
    } else if to > end {
        let a = cues.take(start);
        let b = cues.subrange(start, end);
        let c = cues.subrange(end, to);
        let d = cues.skip(to);
        assert(cues =~= a + b + c + d);
        lemma_swap_middle(a, b, c, d);
    }
}

proof fn lemma_swap_middle(a: Seq<Cue>, b: Seq<Cue>, c: Seq<Cue>, d: Seq<Cue>)
    ensures
        (a + b + c + d).to_multiset() == (a + c + b + d).to_multiset(),
{
    vstd::seq_lib::lemma_multiset_commutative(a + b + c, d);
    vstd::seq_lib::lemma_multiset_commutative(a + b, c);
    vstd::seq_lib::lemma_multiset_commutative(a, b);
    vstd::seq_lib::lemma_multiset_commutative(a + c + b, d);
    vstd::seq_lib::lemma_multiset_commutative(a + c, b);
    vstd::seq_lib::lemma_multiset_commutative(a, c);
    let m = a.to_multiset();
    let n = b.to_multiset();
    let o = c.to_multiset();
    assert(m.add(n).add(o) =~= m.add(o).add(n));
}

/// A moved block stays together, in its order, at its new place.
pub proof fn moving_keeps_the_block(cues: Seq<Cue>, start: int, end: int, to: int)
    requires
        0 <= start <= end <= cues.len(),
        0 <= to <= cues.len(),
        to < start || to > end,
    ensures
        ({
            let at = if to < start {
                to
            } else {
                to - (end - start)
            };
            moved(cues, start, end, to).subrange(at, at + (end - start)) == cues.subrange(
                start,
                end,
            )
        }),
{
    let at = if to < start {
        to
    } else {
        to - (end - start)
    };
    assert(moved(cues, start, end, to).subrange(at, at + (end - start)) =~= cues.subrange(
        start,
        end,
    ));
}

/// Take the rows of `block` out and put them back before the row at `to`.
pub fn move_span(cues: &mut Vec<Cue>, block: Block, to: usize)
    requires
        block.start <= block.end <= old(cues)@.len(),
        to <= old(cues)@.len(),
    ensures
        final(cues)@ == moved(old(cues)@, block.start as int, block.end as int, to as int),
{
    let ghost all = cues@;
    if to < block.start {
        let mut tail: Vec<Cue> = cues.split_off(block.end);
        let mut rows: Vec<Cue> = cues.split_off(block.start);
        let mut between: Vec<Cue> = cues.split_off(to);
        cues.append(&mut rows);
        cues.append(&mut between);
        cues.append(&mut tail);
        assert(cues@ =~= moved(all, block.start as int, block.end as int, to as int));
    } else if to > block.end {
        let mut tail: Vec<Cue> = cues.split_off(to);
        let mut between: Vec<Cue> = cues.split_off(block.end);
        let mut rows: Vec<Cue> = cues.split_off(block.start);
        cues.append(&mut between);
        cues.append(&mut rows);
        cues.append(&mut tail);
        assert(cues@ =~= moved(all, block.start as int, block.end as int, to as int));
    }
}

/// Where a cue added beside the selected one goes, and the group it joins:
/// right behind the selected cue, in that cue's group; behind a group's header
/// as its first member; at the end of the list without a selection.
pub open spec fn insertion_of(cues: Seq<Cue>, selected: Option<Qid>) -> (int, Option<Qid>) {
    match selected {
        Some(id) => {
            let i = position(cues, id@) as int;
            if i < cues.len() {
                (
                    i + 1,
                    if cues[i].is_group() {
                        Some(cues[i].base.qid)
                    } else {
                        cues[i].base.parent
                    },
                )
            } else {
                (cues.len() as int, None)
            }
        },
        None => (cues.len() as int, None),
    }
}

pub fn insertion(cues: &Vec<Cue>, selected: Option<Qid>) -> (r: (usize, Option<Qid>))
    ensures
        r.0 == insertion_of(cues@, selected).0,
        r.1 == insertion_of(cues@, selected).1,
        r.0 <= cues@.len(),
{
    let n: usize = cues.len();
    match selected {
        Some(id) => match find_cue(cues, &id) {
            Some(i) => {
                if cues[i].group() {
                    (i + 1, Some(cues[i].base.qid))
                } else {
                    (i + 1, cues[i].base.parent)
                }
            },
            None => (n, None),
        },
        None => (n, None),
    }
}

/// Where row `i` would be moved by one step: the rows that move and the row
/// they are put before; nothing where there is no room to step. A member of a
/// group steps over one other member; a block steps over its neighbour block.
pub open spec fn nudge_of(cues: Seq<Cue>, i: int, down: bool) -> Option<(int, int, int)> {
    let head = block_head(cues, i);
    if head < i {
        if down {
            if i + 1 < span_end(cues, head) {
                Some((i, i + 1, i + 2))
            } else {
                None
            }
        } else if i - 1 > head {
            Some((i, i + 1, i - 1))
        } else {
            None
        }
    } else {
        let end = span_end(cues, i);
        if down {
            if end < cues.len() {
                Some((i, end, span_end(cues, end)))
            } else {
                None
            }
        } else if i > 0 {
            Some((i, end, block_head(cues, i - 1)))
        } else {
            None
        }
    }
}

/// Move row `i`, with its members where it is a group, one step up or down.
/// Whether anything moved is returned.
pub fn nudge(cues: &mut Vec<Cue>, i: usize, down: bool) -> (b: bool)
    requires
        i < old(cues)@.len(),
    ensures
        b == nudge_of(old(cues)@, i as int, down) is Some,
        final(cues)@ == (match nudge_of(old(cues)@, i as int, down) {
            Some(m) => moved(old(cues)@, m.0, m.1, m.2),
            None => old(cues)@,
        }),
{
    let block: Block = enclosing_span(cues, i);
    if block.start < i {
        let row: Block = Block { start: i, end: i + 1 };
        if down {
            if i + 1 < block.end {
                move_span(cues, row, i + 2);
                return true;
            }
        } else if i - 1 > block.start {
            move_span(cues, row, i - 1);
            return true;
        }
        return false;
    }
    if down {
        if block.end < cues.len() {
            let next: Block = span(cues, block.end);
            move_span(cues, block, next.end);
            return true;
        }
    } else if i > 0 {
        let previous: Block = enclosing_span(cues, i - 1);
        move_span(cues, block, previous.start);
        return true;
    }
    false
}

/// The cue selected once `block` is gone: the one behind it, else the one
/// before it.
pub open spec fn selection_after(cues: Seq<Cue>, start: int, end: int) -> Option<Qid> {
    if end < cues.len() {
        Some(cues[end].base.qid)
    } else if start > 0 {
        Some(cues[start - 1].base.qid)
    } else {
        None
    }
}

pub fn selection_after_removal(cues: &Vec<Cue>, block: Block) -> (r: Option<Qid>)
    requires
        block.start <= block.end <= cues@.len(),
    ensures
        r == selection_after(cues@, block.start as int, block.end as int),
{
    if block.end < cues.len() {
        Some(cues[block.end].base.qid)
    } else if block.start > 0 {
        Some(cues[block.start - 1].base.qid)
    } else {
        None
    }
}

/// What is added to the name of a copied cue.
pub const COPY_SUFFIX: &'static str = " (copy)";

/// Whether `copy` is the copy of `cue` under a new number: its name says that
/// it is one, and a member of the copied group `from` follows the new header
/// `to`.
pub open spec fn is_copy(
    copy: Cue,
    cue: Cue,
    number: Qid,
    from: (int, nat),
    to: Qid,
) -> bool {
    &&& copy.base.qid == number
    &&& copy.base.parent == (if qid_opt(cue.base.parent) == Some(from) {
        Some(to)
    } else {
        cue.base.parent
    })
    &&& copy.base.name@ == cue.base.name@ + COPY_SUFFIX@
    &&& copy.base.enabled == cue.base.enabled
    &&& copy.base.trigger == cue.base.trigger
    &&& copy.base.loop_mode == cue.base.loop_mode
    &&& copy.base.loop_count == cue.base.loop_count
    &&& copy.base.triggers == cue.base.triggers
    &&& copy.kind == cue.kind
    &&& copy.extra == cue.extra
}

/// Copies of the rows of `block`, numbered by `numbers`.
pub fn duplicate_span(cues: &Vec<Cue>, block: Block, numbers: &Vec<Qid>) -> (r: Vec<Cue>)
    requires
        block.start < block.end <= cues@.len(),
        numbers@.len() == block.end - block.start,
    ensures
        r@.len() == block.end - block.start,
        forall|k: int|
            0 <= k < r@.len() ==> is_copy(
                #[trigger] r@[k],
                cues@[block.start + k],
                numbers@[k],
                cues@[block.start as int].base.qid@,
                numbers@[0],
            ),
{
    let from: Qid = cues[block.start].base.qid;
    let to: Qid = numbers[0];
    let mut r: Vec<Cue> = Vec::new();
    let mut i: usize = block.start;
    while i < block.end
        invariant
            block.start <= i <= block.end <= cues@.len(),
            block.start < block.end,
            numbers@.len() == block.end - block.start,
            from == cues@[block.start as int].base.qid,
            to == numbers@[0],
            r@.len() == i - block.start,
            forall|k: int|
                0 <= k < r@.len() ==> is_copy(
                    #[trigger] r@[k],
                    cues@[block.start + k],
                    numbers@[k],
                    from@,
                    to,
                ),
        decreases block.end - i,
    {
        let mut copy: Cue = cues[i].clone();
        copy.base.qid = numbers[i - block.start];
        if is_member(&cues[i], &from) {
            copy.base.parent = Some(to);
        }
        copy.base.name.append(COPY_SUFFIX);
        r.push(copy);
        i = i + 1;
    }
    r
}

/// Whether the rows `a` up to `b` are one block: a single cue, or a group with
/// members of it only.
pub open spec fn one_block(cues: Seq<Cue>, a: int, b: int) -> bool {
    ||| a + 1 == b
    ||| cues[a].is_group() && a < b && forall|j: int|
        a < j < b ==> qid_opt((#[trigger] cues[j]).base.parent) == Some(cues[a].base.qid@)
}

/// `after` is `before` with the rows `a..b` and `b..c` in each other's place.
pub open spec fn exchanged(before: Seq<Cue>, after: Seq<Cue>, a: int, b: int, c: int) -> bool {
    &&& 0 <= a < b < c <= before.len()
    &&& after.len() == before.len()
    &&& forall|k: int| 0 <= k < a || c <= k < before.len() ==> #[trigger] after[k] == before[k]
    &&& forall|k: int| 0 <= k < c - b ==> #[trigger] after[a + k] == before[b + k]
    &&& forall|k: int| 0 <= k < b - a ==> #[trigger] after[a + c - b + k] == before[a + k]
}

proof fn lemma_block_head(cues: Seq<Cue>, i: int)
    requires
        0 <= i < cues.len(),
    ensures
        0 <= block_head(cues, i) <= i,
        i < span_end(cues, block_head(cues, i)) <= cues.len(),
        one_block(cues, block_head(cues, i), i + 1),
        one_block(cues, i, span_end(cues, i)),
        i < span_end(cues, i) <= cues.len(),
{
    if cues[i].base.parent is Some {
        crate::show::lemma_position(cues, (cues[i].base.parent->0)@);
    }
    let h = block_head(cues, i);
    lemma_members_end(cues, cues[h].base.qid@, h + 1);
    lemma_members_end(cues, cues[i].base.qid@, i + 1);
}

/// A step moves a block that is there to a place that is.
pub(crate) proof fn lemma_nudge_in_range(cues: Seq<Cue>, i: int, down: bool)
    requires
        0 <= i < cues.len(),
    ensures
        nudge_of(cues, i, down) matches Some(m) ==> 0 <= m.0 <= m.1 <= cues.len() && 0 <= m.2
            <= cues.len(),
{
    lemma_block_head(cues, i);
    if i > 0 {
        lemma_block_head(cues, i - 1);
    }
    let end = span_end(cues, i);
    if end < cues.len() {
        lemma_block_head(cues, end);
    }
    if i + 1 < cues.len() {
        lemma_block_head(cues, i + 1);
    }
}

/// In a list without groups a step up exchanges a row with the one before it,
/// a step down with the one behind it, and all other rows stay; at either end
/// of the list there is no step.
pub proof fn a_step_exchanges_neighbours(cues: &mut Vec<Cue>, i: usize, down: bool, b: bool)
    requires
        i < old(cues)@.len(),
        forall|k: int| 0 <= k < old(cues)@.len() ==> !(#[trigger] old(cues)@[k]).is_group(),
        call_ensures(nudge, (cues, i, down), b),
    ensures
        ({
            let before = old(cues)@;
            let after = final(cues)@;
            let j = if down {
                i + 1
            } else {
                i - 1
            };
            &&& b == (0 <= j < before.len())
            &&& !b ==> after == before
            &&& b ==> {
                &&& after.len() == before.len()
                &&& after[i as int] == before[j]
                &&& after[j] == before[i as int]
                &&& forall|k: int|
                    0 <= k < before.len() && k != i && k != j ==> #[trigger] after[k] == before[k]
            }
        }),
{
    let before = old(cues)@;
    lemma_block_head(before, i as int);
    if cues@[i as int].base.parent is Some {
        crate::show::lemma_position(before, (before[i as int].base.parent->0)@);
    }
    if i > 0 && before[i - 1].base.parent is Some {
        crate::show::lemma_position(before, (before[i - 1].base.parent->0)@);
    }
}

/// A cue that is in no group steps, with its members where it is a group, over
/// the one block before it or behind it: the two blocks change places, and no
/// other row moves. Where the neighbour is a cue in no group, it is the
/// neighbour alone.
pub proof fn a_block_steps_over_its_neighbour(cues: &mut Vec<Cue>, i: usize, down: bool, b: bool)
    requires
        i < old(cues)@.len(),
        old(cues)@[i as int].base.parent is None,
        call_ensures(nudge, (cues, i, down), b),
    ensures
        ({
            let before = old(cues)@;
            let after = final(cues)@;
            let end = span_end(before, i as int);
            &&& one_block(before, i as int, end)
            &&& !down ==> b == (i > 0)
            &&& down ==> b == (end < before.len())
            &&& !b ==> after == before
            &&& b && !down ==> exists|h: int|
                #[trigger] exchanged(before, after, h, i as int, end) && one_block(
                    before,
                    h,
                    i as int,
                ) && (before[i - 1].base.parent is None ==> h == i - 1)
            &&& b && down ==> exists|e: int|
                #[trigger] exchanged(before, after, i as int, end, e) && one_block(before, end, e)
                    && e == span_end(before, end)
        }),
{
    let before = old(cues)@;
    let after = final(cues)@;
    let end = span_end(before, i as int);
    lemma_block_head(before, i as int);
    if b && !down {
        lemma_block_head(before, i - 1);
        let h = block_head(before, i - 1);
        assert(exchanged(before, after, h, i as int, end));
    }
    if b && down {
        lemma_block_head(before, end);
        let e = span_end(before, end);
        assert(exchanged(before, after, i as int, end, e));
    }
}

/// A member of a group steps over one other member of it, and never out of the
/// group.
pub proof fn a_member_steps_inside_its_group(
    cues: &mut Vec<Cue>,
    i: usize,
    down: bool,
    b: bool,
    g: int,
)
    requires
        0 <= g < i < old(cues)@.len(),
        old(cues)@[g].is_group(),
        forall|k: int|
            g < k <= i ==> qid_opt((#[trigger] old(cues)@[k]).base.parent) == Some(
                old(cues)@[g].base.qid@,
            ),
        forall|k: int|
            0 <= k < g ==> (#[trigger] old(cues)@[k]).base.qid@ != old(cues)@[g].base.qid@,
        call_ensures(nudge, (cues, i, down), b),
    ensures
        ({
            let before = old(cues)@;
            let after = final(cues)@;
            let j = if down {
                i + 1
            } else {
                i - 1
            };
            &&& b == (g < j < before.len() && qid_opt(before[j].base.parent) == Some(
                before[g].base.qid@,
            ))
            &&& !b ==> after == before
            &&& b ==> {
                &&& after.len() == before.len()
                &&& after[i as int] == before[j]
                &&& after[j] == before[i as int]
                &&& forall|k: int|
                    0 <= k < before.len() && k != i && k != j ==> #[trigger] after[k] == before[k]
            }
        }),
{
    let before = old(cues)@;
    let id = before[g].base.qid@;
    crate::show::lemma_position(before, id);
    assert(position(before, id) == g) by {
        if position(before, id) < g {
            assert(before[position(before, id) as int].base.qid@ == id);
        } else if position(before, id) > g {
            assert(before[g].base.qid@ == id);
        }
    }
    lemma_members_end(before, id, g + 1);
    lemma_members_reach(before, id, g + 1, i as int);
    assert(qid_opt(before[i as int].base.parent) == Some(id));
    assert(block_head(before, i as int) == g);
    if i + 1 < before.len() && qid_opt(before[i + 1].base.parent) == Some(id) {
        lemma_members_reach(before, id, g + 1, i + 1);
    }
}

/// Members in a row all belong to the block.
proof fn lemma_members_reach(cues: Seq<Cue>, id: (int, nat), i: int, j: int)
    requires
        0 <= i <= j < cues.len(),
        forall|k: int| i <= k <= j ==> qid_opt((#[trigger] cues[k]).base.parent) == Some(id),
    ensures
        j < members_end(cues, id, i),
    decreases j - i,
{
    lemma_members_end(cues, id, i);
    assert(qid_opt(cues[i].base.parent) == Some(id));
    if i < j {
        lemma_members_reach(cues, id, i + 1, j);
    } else {
        lemma_members_end(cues, id, i + 1);
    }
}

/// Whether the row is in no group, or stands right behind its group or another
/// member of it; no group is in another.
pub open spec fn stands_with_its_group(cues: Seq<Cue>, k: int) -> bool {
    cues[k].base.parent is Some ==> {
        &&& !cues[k].is_group()
        &&& k > 0
        &&& qid_opt(cues[k - 1].base.parent) == qid_opt(cues[k].base.parent) || (
        cues[k - 1].is_group() && Some(cues[k - 1].base.qid@) == qid_opt(cues[k].base.parent))
    }
}

/// Whether the list is in order: members stand behind their group, and no two
/// cues share a number.
pub open spec fn in_order(cues: Seq<Cue>) -> bool {
    &&& forall|k: int| 0 <= k < cues.len() ==> #[trigger] stands_with_its_group(cues, k)
    &&& forall|j: int, k: int|
        0 <= j < k < cues.len() ==> (#[trigger] cues[j]).base.qid@ != (#[trigger] cues[k]).base.qid@
}

/// In a list that is in order the block of a row without a group ends where the
/// next row without one begins.
proof fn lemma_span_in_order(cues: Seq<Cue>, i: int)
    requires
        in_order(cues),
        0 <= i < cues.len(),
        cues[i].base.parent is None,
    ensures
        i < span_end(cues, i) <= cues.len(),
        forall|k: int| i < k < span_end(cues, i) ==> (#[trigger] cues[k]).base.parent is Some,
        span_end(cues, i) < cues.len() ==> cues[span_end(cues, i)].base.parent is None,
{
    lemma_members_end(cues, cues[i].base.qid@, i + 1);
    let e = span_end(cues, i);
    if e < cues.len() {
        assert(stands_with_its_group(cues, e));
        assert(stands_with_its_group(cues, e - 1));
        if e - 1 > i {
            assert(qid_opt(cues[e - 1].base.parent) == Some(cues[i].base.qid@));
        }
    }
}

/// In a list that is in order the rows from one row without a group up to the
/// next are one block, headed by the first of them.
proof fn lemma_head_in_order(cues: Seq<Cue>, h: int, i: int)
    requires
        in_order(cues),
        0 <= h <= i < cues.len(),
        cues[h].base.parent is None,
        forall|k: int| h < k <= i ==> (#[trigger] cues[k]).base.parent is Some,
    ensures
        block_head(cues, i) == h,
        h < i ==> cues[h].is_group() && qid_opt(cues[i].base.parent) == Some(cues[h].base.qid@),
        i < span_end(cues, h),
    decreases i - h,
{
    lemma_members_end(cues, cues[h].base.qid@, h + 1);
    if h < i {
        let id = cues[h].base.qid@;
        if h < i - 1 {
            lemma_head_in_order(cues, h, i - 1);
            assert(cues[i - 1].base.parent is Some);
            assert(stands_with_its_group(cues, i - 1));
        }
        assert(stands_with_its_group(cues, i));
        assert(cues[i].base.parent is Some);
        assert(qid_opt(cues[i].base.parent) == Some(id));
        assert(cues[h].is_group());
        crate::show::lemma_position(cues, id);
        assert(position(cues, id) == h) by {
            let p = position(cues, id) as int;
            if p < h {
                assert(cues[p].base.qid@ != cues[h].base.qid@);
            } else if p > h {
                assert(cues[h].base.qid@ == id);
            }
        }
        assert forall|k: int| h + 1 <= k <= i implies qid_opt((#[trigger] cues[k]).base.parent)
            == Some(id) by {
            if k < i {
                lemma_head_in_order(cues, h, k);
            }
        }
        lemma_members_reach(cues, id, h + 1, i);
    }
}

/// A step up of a block and then a step down of it give the list back, where
/// the list is in order.
pub proof fn a_step_back_undoes_a_step(
    up: &mut Vec<Cue>,
    back: &mut Vec<Cue>,
    i: usize,
    j: usize,
    b: bool,
    c: bool,
)
    requires
        i < old(up)@.len(),
        old(up)@[i as int].base.parent is None,
        in_order(old(up)@),
        call_ensures(nudge, (up, i, false), b),
        b,
        old(back)@ == final(up)@,
        j < old(back)@.len(),
        old(back)@[j as int].base.qid@ == old(up)@[i as int].base.qid@,
        call_ensures(nudge, (back, j, true), c),
    ensures
        c,
        final(back)@ == old(up)@,
{
    lemma_step_back(old(up)@, i as int, j as int);
}

proof fn lemma_step_back(cues: Seq<Cue>, i: int, j: int)
    requires
        0 < i < cues.len(),
        cues[i].base.parent is None,
        in_order(cues),
        ({
            let mid = moved(cues, i, span_end(cues, i), block_head(cues, i - 1));
            0 <= j < mid.len() && mid[j].base.qid@ == cues[i].base.qid@
        }),
    ensures
        ({
            let h = block_head(cues, i - 1);
            let n = span_end(cues, i) - i;
            let mid = moved(cues, i, i + n, h);
            &&& j == h
            &&& block_head(mid, h) == h
            &&& span_end(mid, h) == h + n
            &&& h + n < mid.len()
            &&& span_end(mid, h + n) == i + n
            &&& moved(mid, h, h + n, i + n) == cues
        }),
{
    let end = span_end(cues, i);
    lemma_span_in_order(cues, i);
    let h = block_head(cues, i - 1);
    lemma_first_of_block(cues, i - 1, h);
    let n = end - i;
    let mid = moved(cues, i, end, h);
    assert(mid.len() == cues.len());
    assert forall|k: int| 0 <= k < h || end <= k < cues.len() implies #[trigger] mid[k]
        == cues[k] by {}
    assert forall|k: int| h <= k < h + n implies #[trigger] mid[k] == cues[k + i - h] by {}
    assert forall|k: int| h + n <= k < end implies #[trigger] mid[k] == cues[k - n] by {}
    assert(j == h) by {
        if j < h || j >= end {
            assert(cues[j].base.qid@ != cues[i].base.qid@);
        } else if j < h + n {
            if j > h {
                assert(cues[i].base.qid@ != cues[j + i - h].base.qid@);
            }
        } else {
            assert(cues[j - n].base.qid@ != cues[i].base.qid@);
        }
    }
    assert(mid[h] == cues[i]);
    assert(mid[h + n] == cues[h]);
    assert(span_end(mid, h) == h + n) by {
        lemma_members_end(cues, cues[i].base.qid@, i + 1);
        if cues[i].is_group() {
            assert forall|k: int| h + 1 <= k < h + n implies qid_opt((#[trigger] mid[k]).base.parent)
                == Some(cues[i].base.qid@) by {
                assert(mid[k] == cues[k + i - h]);
            }
            lemma_members_stop(mid, cues[i].base.qid@, h + 1, h + n);
        }
    }
    assert(span_end(mid, h + n) == end) by {
        assert forall|k: int| h + n + 1 <= k < end implies qid_opt((#[trigger] mid[k]).base.parent)
            == Some(cues[h].base.qid@) by {
            lemma_head_in_order(cues, h, k - n);
        }
        if i - h > 1 {
            lemma_head_in_order(cues, h, h + 1);
        }
        if cues[h].is_group() {
            lemma_members_stop(mid, cues[h].base.qid@, h + n + 1, end);
        }
    }
    assert(moved(mid, h, h + n, end) =~= cues) by {
        assert forall|k: int| 0 <= k < cues.len() implies moved(mid, h, h + n, end)[k]
            == cues[k] by {
            if h <= k < i {
                assert(mid[k + n] == cues[k]);
            } else if i <= k < end {
                assert(mid[k - i + h] == cues[k]);
            }
        }
    }
}

/// The block in which a row stands begins with a row without a group, where the
/// list is in order, and all its other rows have one.
proof fn lemma_first_of_block(cues: Seq<Cue>, i: int, h: int)
    requires
        in_order(cues),
        0 <= i < cues.len(),
        h == block_head(cues, i),
    ensures
        0 <= h <= i,
        cues[h].base.parent is None,
        forall|k: int| h < k <= i ==> (#[trigger] cues[k]).base.parent is Some,
    decreases i,
{
    if cues[i].base.parent is Some {
        let g = lemma_find_head(cues, i);
        lemma_head_in_order(cues, g, i);
    }
}

proof fn lemma_find_head(cues: Seq<Cue>, i: int) -> (g: int)
    requires
        in_order(cues),
        0 <= i < cues.len(),
    ensures
        0 <= g <= i,
        cues[g].base.parent is None,
        forall|k: int| g < k <= i ==> (#[trigger] cues[k]).base.parent is Some,
    decreases i,
{
    if cues[i].base.parent is None {
        i
    } else {
        assert(stands_with_its_group(cues, i));
        lemma_find_head(cues, i - 1)
    }
}

/// Members in a row that end at a row which is none.
pub(crate) proof fn lemma_members_stop(cues: Seq<Cue>, id: (int, nat), i: int, j: int)
    requires
        0 <= i <= j <= cues.len(),
        forall|k: int| i <= k < j ==> qid_opt((#[trigger] cues[k]).base.parent) == Some(id),
        j < cues.len() ==> qid_opt(cues[j].base.parent) != Some(id),
    ensures
        members_end(cues, id, i) == j,
    decreases j - i,
{
    if i < j {
        assert(qid_opt(cues[i].base.parent) == Some(id));
        lemma_members_stop(cues, id, i + 1, j);
    }
}

/// Moving rows takes them to their new place as they are, and leaves all other
/// rows in their order.
pub proof fn moving_leaves_the_others_in_order(cues: &mut Vec<Cue>, block: Block, to: usize)
    requires
        block.start <= block.end <= old(cues)@.len(),
        to <= old(cues)@.len(),
        call_ensures(move_span, (cues, block, to), ()),
    ensures
        ({
            let before = old(cues)@;
            let after = final(cues)@;
            let n = block.end - block.start;
            let at = if to < block.start {
                to as int
            } else if to > block.end {
                to - n
            } else {
                block.start as int
            };
            &&& after.len() == before.len()
            &&& after.subrange(at, at + n) == before.subrange(
                block.start as int,
                block.end as int,
            )
            &&& after.take(at) + after.skip(at + n) == before.take(block.start as int)
                + before.skip(block.end as int)
        }),
{
    let before = old(cues)@;
    let after = final(cues)@;
    let n = block.end - block.start;
    let at = if to < block.start {
        to as int
    } else if to > block.end {
        to - n
    } else {
        block.start as int
    };
    assert(after.subrange(at, at + n) =~= before.subrange(block.start as int, block.end as int));
    assert(after.take(at) + after.skip(at + n) =~= before.take(block.start as int) + before.skip(
        block.end as int,
    ));
}

/// The block of a row is the row alone, or the group with all the members right
/// behind it.
pub proof fn a_block_is_a_group_with_its_members(cues: &Vec<Cue>, i: usize, b: Block)
    requires
        i < cues@.len(),
        call_ensures(span, (cues, i), b),
    ensures
        b.start == i,
        i < b.end <= cues@.len(),
        !cues@[i as int].is_group() ==> b.end == i + 1,
        cues@[i as int].is_group() ==> {
            &&& forall|k: int|
                i < k < b.end ==> qid_opt((#[trigger] cues@[k]).base.parent) == Some(
                    cues@[i as int].base.qid@,
                )
            &&& b.end < cues@.len() ==> qid_opt(cues@[b.end as int].base.parent) != Some(
                cues@[i as int].base.qid@,
            )
        },
{
    lemma_members_end(cues@, cues@[i as int].base.qid@, i + 1);
}

/// The block in which a row stands holds the row; it starts at the row itself,
/// or at the group that the row is a member of.
pub proof fn the_block_of_a_member_is_its_group(cues: &Vec<Cue>, i: usize, b: Block)
    requires
        i < cues@.len(),
        call_ensures(enclosing_span, (cues, i), b),
    ensures
        b.start <= i < b.end <= cues@.len(),
        one_block(cues@, b.start as int, i + 1),
        cues@[i as int].base.parent is None ==> b.start == i,
        b.start < i ==> cues@[b.start as int].is_group() && qid_opt(
            cues@[i as int].base.parent,
        ) == Some(cues@[b.start as int].base.qid@),
{
    lemma_block_head(cues@, i as int);
}

/// A cue is added right behind the selected one: into the selected group as its
/// first member, else into the group of the selected cue. Without a selection
/// it is added at the end, in no group.
pub proof fn cues_are_added_behind_the_selection(
    cues: &Vec<Cue>,
    selected: Option<Qid>,
    r: (usize, Option<Qid>),
)
    requires
        call_ensures(insertion, (cues, selected), r),
    ensures
        selected is None ==> r.0 == cues@.len() && r.1 is None,
        selected is Some && (forall|k: int|
            0 <= k < cues@.len() ==> (#[trigger] cues@[k]).base.qid@ != (selected->0)@) ==> r.0
            == cues@.len() && r.1 is None,
        forall|k: int|
            #![trigger cues@[k]]
            0 <= k < cues@.len() && qid_opt(selected) == Some(cues@[k].base.qid@) && (forall|j: int|
                0 <= j < k ==> (#[trigger] cues@[j]).base.qid@ != cues@[k].base.qid@) ==> r.0 == k
                + 1 && r.1 == (if cues@[k].is_group() {
                Some(cues@[k].base.qid)
            } else {
                cues@[k].base.parent
            }),
{
    if let Some(id) = selected {
        crate::show::lemma_position(cues@, id@);
        let p = position(cues@, id@) as int;
        assert forall|k: int|
            #![trigger cues@[k]]
            0 <= k < cues@.len() && qid_opt(selected) == Some(cues@[k].base.qid@) && (forall|j: int|
                0 <= j < k ==> (#[trigger] cues@[j]).base.qid@ != cues@[k].base.qid@) implies k
            == p by {
            if p < k {
                assert(cues@[p].base.qid@ == id@);
            }
        }
    }
}

/// Once a block is gone the cue behind it is selected, else the one before it,
/// else none: only an empty list has none.
pub proof fn the_selection_moves_to_a_neighbour(cues: &Vec<Cue>, block: Block, r: Option<Qid>)
    requires
        block.start <= block.end <= cues@.len(),
        call_ensures(selection_after_removal, (cues, block), r),
    ensures
        block.end < cues@.len() ==> r == Some(cues@[block.end as int].base.qid),
        block.end == cues@.len() && block.start > 0 ==> r == Some(
            cues@[block.start - 1].base.qid,
        ),
        r is None <==> block.start == 0 && block.end == cues@.len(),
{
}

/// A copy is the cue under a new number, with a name that says so; copied
/// members follow the copied group, and nothing else of a cue changes.
pub proof fn copies_differ_in_number_and_name(
    cues: &Vec<Cue>,
    block: Block,
    numbers: &Vec<Qid>,
    r: Vec<Cue>,
)
    requires
        block.start < block.end <= cues@.len(),
        numbers@.len() == block.end - block.start,
        call_ensures(duplicate_span, (cues, block, numbers), r),
    ensures
        r@.len() == block.end - block.start,
        forall|k: int|
            0 <= k < r@.len() ==> {
                let copy = #[trigger] r@[k];
                let cue = cues@[block.start + k];
                &&& copy.base.qid == numbers@[k]
                &&& copy.base.name@ == cue.base.name@ + " (copy)"@
                &&& copy.kind == cue.kind
                &&& copy.extra == cue.extra
                &&& copy.base.enabled == cue.base.enabled
                &&& copy.base.trigger == cue.base.trigger
                &&& copy.base.triggers == cue.base.triggers
                &&& copy.base.loop_mode == cue.base.loop_mode
                &&& copy.base.loop_count == cue.base.loop_count
                &&& copy.base.parent == (if qid_opt(cue.base.parent) == Some(
                    cues@[block.start as int].base.qid@,
                ) {
                    Some(numbers@[0])
                } else {
                    cue.base.parent
                })
            },
{
}

} // verus!
