//! What the operator sees of the playback: the cues that run, and the window's
//! title.

use vstd::prelude::*;

use crate::ieee::Single;
use crate::qid::{qids, Qid};
use crate::show::{find_cue, position, Cue, CueKind};
use crate::state::{ActiveCueInfo, CueState, SharedState, StateView};

verus! {

#[verifier::ext_equal]
pub struct InfoView {
    pub instance_id: u64,
    pub qid: (int, nat),
    pub name: Seq<char>,
    pub paused: bool,
    pub position_secs: Single,
    pub length_secs: Option<Single>,
    pub state: CueState,
}

pub open spec fn info_view(a: ActiveCueInfo) -> InfoView {
    InfoView {
        instance_id: a.instance_id,
        qid: a.qid@,
        name: a.name@,
        paused: a.paused,
        position_secs: a.position_secs,
        length_secs: a.length_secs,
        state: a.state,
    }
}

pub open spec fn infos(v: Seq<ActiveCueInfo>) -> Seq<InfoView> {
    v.map_values(|a: ActiveCueInfo| info_view(a))
}

/// Whether a cue is among those that run.
pub open spec fn listed(p: Seq<InfoView>, id: (int, nat)) -> bool {
    exists|i: int| 0 <= i < p.len() && (#[trigger] p[i]).qid == id
}

/// The video or image that is shown.
#[derive(Clone, Copy)]
pub struct ShownVideo {
    pub qid: Qid,
    /// The playback it belongs to, or zero.
    pub instance_id: u64,
    pub paused: bool,
    pub position_secs: Single,
    /// The duration set in the cue, or zero.
    pub configured: Single,
    /// The length of the media, where it is known.
    pub length: Option<Single>,
}

/// The list with the shown video, where it is a cue of the show and not listed
/// yet.
pub open spec fn with_shown(p: Seq<InfoView>, cues: Seq<Cue>, shown: Option<ShownVideo>) -> Seq<
    InfoView,
> {
    match shown {
        Some(v) if !listed(p, v.qid@) && position(cues, v.qid@) < cues.len() => p.push(
            InfoView {
                instance_id: v.instance_id,
                qid: v.qid@,
                name: cues[position(cues, v.qid@) as int].base.name@,
                paused: v.paused,
                position_secs: v.position_secs,
                length_secs: if v.configured.positive() {
                    Some(v.configured)
                } else {
                    v.length
                },
                state: if v.paused {
                    CueState::Paused
                } else {
                    CueState::Playing
                },
            },
        ),
        _ => p,
    }
}

/// The list with the first `n` of these cues, each where it is a cue of the
/// show and not listed yet.
pub open spec fn with_running(
    p: Seq<InfoView>,
    cues: Seq<Cue>,
    running: Seq<(int, nat)>,
    n: int,
) -> Seq<InfoView>
    decreases n,
{
    if n <= 0 {
        p
    } else {
        let before = with_running(p, cues, running, n - 1);
        let id = running[n - 1];
        if !listed(before, id) && position(cues, id) < cues.len() {
            before.push(
                InfoView {
                    instance_id: 0,
                    qid: id,
                    name: cues[position(cues, id) as int].base.name@,
                    paused: false,
                    position_secs: Single { bits: 0 },
                    length_secs: None,
                    state: CueState::Playing,
                },
            )
        } else {
            before
        }
    }
}

fn is_listed(p: &Vec<ActiveCueInfo>, id: &Qid) -> (b: bool)
    ensures
        b == listed(infos(p@), id@),
{
    let mut i: usize = 0;
    while i < p.len()
        invariant
            i <= p@.len(),
            forall|j: int| 0 <= j < i ==> (#[trigger] infos(p@)[j]).qid != id@,
        decreases p@.len() - i,
    {
        assert(infos(p@)[i as int].qid == p@[i as int].qid@);
        if p[i].qid.same(id) {
            return true;
        }
        i = i + 1;
    }
    false
}

/// Publish the cues that run: those of the engine, the video or image that is
/// shown, and the others in their order.
fn publish(
    state: &mut SharedState,
    engine: Vec<ActiveCueInfo>,
    shown: Option<ShownVideo>,
    running: &Vec<Qid>,
)
    ensures
        infos(final(state)@.active_cues) == with_running(
            with_shown(infos(engine@), old(state)@.show_file.cues, shown),
            old(state)@.show_file.cues,
            qids(running@),
            running@.len() as int,
        ),
        final(state)@ == (StateView { active_cues: final(state)@.active_cues, ..old(state)@ }),
{
    let ghost cues = state@.show_file.cues;
    let mut p: Vec<ActiveCueInfo> = engine;
    if let Some(v) = shown {
        if !is_listed(&p, &v.qid) {
            if let Some(i) = find_cue(&state.show_file.cues, &v.qid) {
                let ghost before = p@;
                p.push(
                    ActiveCueInfo {
                        instance_id: v.instance_id,
                        qid: v.qid,
                        name: state.show_file.cues[i].base.name.as_str().to_owned(),
                        paused: v.paused,
                        position_secs: v.position_secs,
                        length_secs: if v.configured.gt_zero() {
                            Some(v.configured)
                        } else {
                            v.length
                        },
                        state: if v.paused {
                            CueState::Paused
                        } else {
                            CueState::Playing
                        },
                    },
                );
                assert(infos(p@) =~= infos(before).push(info_view(p@.last())));
            }
        }
    }
    let ghost start = infos(p@);
    assert(start == with_shown(infos(engine@), cues, shown));
    let mut k: usize = 0;
    while k < running.len()
        invariant
            k <= running@.len(),
            cues == state@.show_file.cues,
            state@ == old(state)@,
            infos(p@) == with_running(start, cues, qids(running@), k as int),
        decreases running@.len() - k,
    {
        let id: Qid = running[k];
        assert(qids(running@)[k as int] == id@);
        if !is_listed(&p, &id) {
            if let Some(i) = find_cue(&state.show_file.cues, &id) {
                let ghost before = p@;
                p.push(
                    ActiveCueInfo {
                        instance_id: 0,
                        qid: id,
                        name: state.show_file.cues[i].base.name.as_str().to_owned(),
                        paused: false,
                        position_secs: Single { bits: 0 },
                        length_secs: None,
                        state: CueState::Playing,
                    },
                );
                assert(infos(p@) =~= infos(before).push(info_view(p@.last())));
            }
        }
        k = k + 1;
    }
    state.active_cues = p;
}

/// What runs, beside the cues of the engine.
#[derive(Clone, Copy)]
pub struct Running {
    /// The cue of the engine's video, and its playback.
    pub engine_video: Option<(Qid, u64)>,
    /// The cue whose video or image was shown last.
    pub current_video: Option<Qid>,
    pub video_paused: bool,
    pub video_position: Single,
    pub video_length: Option<Single>,
    /// The duration set in the cue, should it be a video.
    pub configured: Single,
    pub text: Option<Qid>,
    pub pixel_map: Option<Qid>,
}

/// The video or image that is shown: the engine's before any other. Only a
/// video cue has a duration of its own.
pub open spec fn shown_of(r: Running, cues: Seq<Cue>) -> Option<ShownVideo> {
    let (qid, instance_id) = match (r.engine_video, r.current_video) {
        (Some((qid, id)), _) => (Some(qid), id),
        (None, current) => (current, 0u64),
    };
    match qid {
        Some(qid) => {
            let i = position(cues, qid@) as int;
            Some(
                ShownVideo {
                    qid,
                    instance_id,
                    paused: r.video_paused,
                    position_secs: r.video_position,
                    configured: if i < cues.len() && cues[i].kind is Video {
                        r.configured
                    } else {
                        Single { bits: 0 }
                    },
                    length: r.video_length,
                },
            )
        },
        None => None,
    }
}

pub open spec fn qid_list(q: Option<Qid>) -> Seq<(int, nat)> {
    match q {
        Some(q) => seq![q@],
        None => Seq::empty(),
    }
}

/// The other cues that run: the text, the pixel map, the recorded lights.
pub open spec fn others_of(r: Running, shows: Seq<Qid>) -> Seq<(int, nat)> {
    qid_list(r.text) + qid_list(r.pixel_map) + qids(shows)
}

/// The list that is published.
pub open spec fn published(
    engine: Seq<InfoView>,
    cues: Seq<Cue>,
    r: Running,
    shows: Seq<Qid>,
) -> Seq<InfoView> {
    let others = others_of(r, shows);
    with_running(with_shown(engine, cues, shown_of(r, cues)), cues, others, others.len() as int)
}

fn shown_video(r: &Running, cues: &Vec<Cue>) -> (v: Option<ShownVideo>)
    ensures
        v == shown_of(*r, cues@),
{
    let (qid, instance_id): (Option<Qid>, u64) = match r.engine_video {
        Some((qid, id)) => (Some(qid), id),
        None => (r.current_video, 0),
    };
    match qid {
        Some(qid) => {
            let mut configured: Single = Single { bits: 0 };
            match find_cue(cues, &qid) {
                Some(i) => match cues[i].kind {
                    CueKind::Video { .. } => {
                        configured = r.configured;
                    },
                    _ => {},
                },
                None => {},
            }
            Some(
                ShownVideo {
                    qid,
                    instance_id,
                    paused: r.video_paused,
                    position_secs: r.video_position,
                    configured,
                    length: r.video_length,
                },
            )
        },
        None => None,
    }
}

/// Publish the cues that run: those of the engine, the video or image that is
/// shown, the text, the pixel map and the recorded lights, each once.
pub fn publish_active_cues(
    state: &mut SharedState,
    engine: Vec<ActiveCueInfo>,
    running: &Running,
    shows: Vec<Qid>,
)
    ensures
        infos(final(state)@.active_cues) == published(
            infos(engine@),
            old(state)@.show_file.cues,
            *running,
            shows@,
        ),
        final(state)@ == (StateView { active_cues: final(state)@.active_cues, ..old(state)@ }),
{
    let shown: Option<ShownVideo> = shown_video(running, &state.show_file.cues);
    let mut others: Vec<Qid> = Vec::new();
    match running.text {
        Some(qid) => others.push(qid),
        None => {},
    }
    match running.pixel_map {
        Some(qid) => others.push(qid),
        None => {},
    }
    let mut shows: Vec<Qid> = shows;
    let ghost given = shows@;
    others.append(&mut shows);
    assert(qids(others@) =~= others_of(*running, given));
    publish(state, engine, shown, &others);
}

proof fn lemma_running_keeps(p: Seq<InfoView>, cues: Seq<Cue>, running: Seq<(int, nat)>, n: int)
    requires
        n >= 0,
    ensures
        with_running(p, cues, running, n).len() >= p.len(),
        forall|i: int| 0 <= i < p.len() ==> with_running(p, cues, running, n)[i] == p[i],
        forall|i: int, j: int|
            p.len() <= j < with_running(p, cues, running, n).len() && 0 <= i < j ==> (
            #[trigger] with_running(p, cues, running, n)[i]).qid != (#[trigger] with_running(
                p,
                cues,
                running,
                n,
            )[j]).qid,
    decreases n,
{
    if n > 0 {
        lemma_running_keeps(p, cues, running, n - 1);
        let before = with_running(p, cues, running, n - 1);
        let after = with_running(p, cues, running, n);
        assert forall|i: int, j: int|
            p.len() <= j < after.len() && 0 <= i < j implies (#[trigger] after[i]).qid != (
        #[trigger] after[j]).qid by {
            if j == before.len() {
                assert(after[i] == before[i]);
            } else {
                assert(after[i] == before[i] && after[j] == before[j]);
            }
        }
    }
}

/// What the engine reports is published as it is, and no other cue is listed
/// twice.
pub proof fn running_cues_are_listed_once(
    engine: Seq<InfoView>,
    cues: Seq<Cue>,
    running: Running,
    shows: Seq<Qid>,
)
    ensures
        ({
            let r = published(engine, cues, running, shows);
            &&& r.len() >= engine.len()
            &&& forall|i: int| 0 <= i < engine.len() ==> #[trigger] r[i] == engine[i]
            &&& forall|i: int, j: int|
                engine.len() <= j < r.len() && 0 <= i < j ==> (#[trigger] r[i]).qid != (
                #[trigger] r[j]).qid
        }),
{
    let shown = shown_of(running, cues);
    let others = others_of(running, shows);
    let p = with_shown(engine, cues, shown);
    lemma_running_keeps(p, cues, others, others.len() as int);
    let r = published(engine, cues, running, shows);
    assert forall|i: int| 0 <= i < engine.len() implies #[trigger] r[i] == engine[i] by {
        assert(p[i] == engine[i]);
        assert(r[i] == p[i]);
    }
    assert forall|i: int, j: int| engine.len() <= j < r.len() && 0 <= i < j implies (
    #[trigger] r[i]).qid != (#[trigger] r[j]).qid by {
        if j < p.len() {
            assert(r[i] == p[i] && r[j] == p[j]);
            assert(!listed(engine, (shown->0).qid@));
            assert(p[i] == engine[i]);
        }
    }
}

/// The shows that ended and were fired by a cue: a preview is none.
pub open spec fn finished_cues_of(ended: Seq<Qid>, n: int) -> Seq<Qid>
    decreases n,
{
    if n <= 0 {
        Seq::empty()
    } else {
        let before = finished_cues_of(ended, n - 1);
        if ended[n - 1]@ == (-1int, 0nat) {
            before
        } else {
            before.push(ended[n - 1])
        }
    }
}

/// The shows that ended and were fired by a cue.
pub fn finished_cues(ended: &Vec<Qid>) -> (r: Vec<Qid>)
    ensures
        r@ == finished_cues_of(ended@, ended@.len() as int),
{
    let preview: Qid = Qid::new(-1, 0);
    let mut r: Vec<Qid> = Vec::new();
    let mut i: usize = 0;
    while i < ended.len()
        invariant
            i <= ended@.len(),
            preview@ == (-1int, 0nat),
            r@ == finished_cues_of(ended@, i as int),
        decreases ended@.len() - i,
    {
        if !ended[i].same(&preview) {
            r.push(ended[i]);
        }
        i = i + 1;
    }
    r
}

/// The title of the control window.
pub open spec fn title_of(name: Option<Seq<char>>, dirty: bool) -> Seq<char> {
    let named = "CuePool — "@ + (match name {
        Some(n) => n,
        None => "Untitled"@,
    });
    if dirty {
        named + " *"@
    } else {
        named
    }
}

/// The title of the control window: the project's name, and a star while it
/// has unsaved changes.
pub fn window_title(name: Option<&str>, dirty: bool) -> (r: String)
    ensures
        r@ == title_of(
            match name {
                Some(n) => Some(n@),
                None => None,
            },
            dirty,
        ),
{
    let mut r: String = "CuePool — ".to_owned();
    match name {
        Some(n) => r.append(n),
        None => r.append("Untitled"),
    }
    if dirty {
        r.append(" *");
    }
    r
}

/// The control window is to be closed. Where work would be lost the operator
/// is asked; else the program ends, and `true` is returned.
pub fn close_requested(state: &mut SharedState, active_cues: bool) -> (exit: bool)
    ensures
        exit == !(old(state)@.dirty || active_cues),
        final(state)@ == (if exit {
            old(state)@
        } else {
            StateView { pending_close_confirm: true, ..old(state)@ }
        }),
{
    if crate::startup::quit_needs_confirmation(state.dirty, active_cues) {
        state.pending_close_confirm = true;
        false
    } else {
        true
    }
}

/// The cues that run are published with what the engine reports first, and
/// nothing but the list changes.
pub proof fn running_cues_are_published(
    state: &mut SharedState,
    engine: Vec<ActiveCueInfo>,
    running: &Running,
    shows: Vec<Qid>,
    i: int,
)
    requires
        call_ensures(publish_active_cues, (state, engine, running, shows), ()),
        0 <= i < engine@.len(),
    ensures
        ({
            let s = old(state)@;
            let t = final(state)@;
            let a = t.active_cues;
            &&& a.len() >= engine@.len()
            &&& a[i].qid@ == engine@[i].qid@
            &&& a[i].instance_id == engine@[i].instance_id
            &&& a[i].name@ == engine@[i].name@
            &&& a[i].paused == engine@[i].paused
            &&& a[i].position_secs == engine@[i].position_secs
            &&& a[i].length_secs == engine@[i].length_secs
            &&& a[i].state == engine@[i].state
            &&& t.show_file == s.show_file
            &&& t.dirty == s.dirty
            &&& t.command_queue == s.command_queue
            &&& t.selected_cue_id == s.selected_cue_id
        }),
{
    let s = old(state)@;
    running_cues_are_listed_once(infos(engine@), s.show_file.cues, *running, shows@);
    let r = infos(final(state)@.active_cues);
    assert(r.len() == final(state)@.active_cues.len());
    assert(infos(engine@).len() == engine@.len());
    assert(r[i] == infos(engine@)[i]);
    assert(r[i] == info_view(final(state)@.active_cues[i]));
    assert(infos(engine@)[i] == info_view(engine@[i]));
}

/// The video or image that is shown follows the engine's cues, where it is a
/// cue of the show that the engine does not report: with the engine's playback,
/// its cue's name, its position, and the length of its media unless its cue
/// sets one.
pub proof fn the_shown_video_is_published(
    state: &mut SharedState,
    engine: Vec<ActiveCueInfo>,
    running: &Running,
    shows: Vec<Qid>,
    id: Qid,
    k: int,
)
    requires
        call_ensures(publish_active_cues, (state, engine, running, shows), ()),
        running.engine_video is Some && (running.engine_video->0).0 == id
            || running.engine_video is None && running.current_video == Some(id),
        forall|j: int| 0 <= j < engine@.len() ==> (#[trigger] engine@[j]).qid@ != id@,
        crate::commands::first_row(old(state)@.show_file.cues, id@, k),
    ensures
        ({
            let cue = old(state)@.show_file.cues[k];
            let n = engine@.len() as int;
            let a = final(state)@.active_cues;
            let set = cue.kind is Video && 0 < running.configured.bits <= 0x7f80_0000;
            &&& a.len() > n
            &&& a[n].qid@ == id@
            &&& a[n].name@ == cue.base.name@
            &&& a[n].paused == running.video_paused
            &&& a[n].position_secs == running.video_position
            &&& a[n].length_secs == (if set {
                Some(running.configured)
            } else {
                running.video_length
            })
            &&& a[n].state == (if running.video_paused {
                CueState::Paused
            } else {
                CueState::Playing
            })
            &&& a[n].instance_id == (if running.engine_video is Some {
                (running.engine_video->0).1
            } else {
                0u64
            })
        }),
{
    let cues = old(state)@.show_file.cues;
    crate::commands::lemma_first_row(cues, id@, k);
    let e = infos(engine@);
    let shown = shown_of(*running, cues);
    let others = others_of(*running, shows@);
    assert(!listed(e, id@)) by {
        assert forall|j: int| 0 <= j < e.len() implies (#[trigger] e[j]).qid != id@ by {
            assert(e[j] == info_view(engine@[j]));
        }
    }
    let p = with_shown(e, cues, shown);
    lemma_running_keeps(p, cues, others, others.len() as int);
    let r = infos(final(state)@.active_cues);
    let n = engine@.len() as int;
    assert(e.len() == n);
    assert(p.len() == n + 1);
    assert(r.len() == final(state)@.active_cues.len());
    assert(r[n] == p[n]);
    assert(r[n] == info_view(final(state)@.active_cues[n]));
}

/// A text, a pixel map or a recorded show that runs is published, where it is a
/// cue of the show.
pub proof fn other_running_cues_are_published(
    state: &mut SharedState,
    engine: Vec<ActiveCueInfo>,
    running: &Running,
    shows: Vec<Qid>,
    id: Qid,
    k: int,
)
    requires
        call_ensures(publish_active_cues, (state, engine, running, shows), ()),
        running.text == Some(id) || running.pixel_map == Some(id) || shows@.contains(id),
        crate::commands::first_row(old(state)@.show_file.cues, id@, k),
    ensures
        exists|i: int|
            0 <= i < final(state)@.active_cues.len() && (#[trigger] final(
                state)@.active_cues[i]).qid@ == id@,
{
    let cues = old(state)@.show_file.cues;
    crate::commands::lemma_first_row(cues, id@, k);
    let others = others_of(*running, shows@);
    let p = with_shown(infos(engine@), cues, shown_of(*running, cues));
    let a = qid_list(running.text);
    let b = qid_list(running.pixel_map);
    let c = qids(shows@);
    assert(exists|m: int| 0 <= m < others.len() && #[trigger] others[m] == id@) by {
        if running.text == Some(id) {
            assert(others[0] == id@);
        } else if running.pixel_map == Some(id) {
            assert(others[a.len() as int] == id@);
        } else {
            let x = choose|x: int| 0 <= x < shows@.len() && shows@[x] == id;
            assert(c[x] == id@);
            assert(others[a.len() + b.len() + x] == id@);
        }
    }
    let m = choose|m: int| 0 <= m < others.len() && #[trigger] others[m] == id@;
    lemma_running_listed(p, cues, others, others.len() as int, m);
    let r = infos(final(state)@.active_cues);
    let i = choose|i: int| 0 <= i < r.len() && (#[trigger] r[i]).qid == id@;
    assert(r[i] == info_view(final(state)@.active_cues[i]));
    assert(final(state)@.active_cues[i].qid@ == id@);
}

proof fn lemma_running_listed(
    p: Seq<InfoView>,
    cues: Seq<Cue>,
    running: Seq<(int, nat)>,
    n: int,
    m: int,
)
    requires
        0 <= m < n <= running.len(),
        position(cues, running[m]) < cues.len(),
    ensures
        listed(with_running(p, cues, running, n), running[m]),
    decreases n,
{
    let before = with_running(p, cues, running, n - 1);
    let all = with_running(p, cues, running, n);
    if m < n - 1 {
        lemma_running_listed(p, cues, running, n - 1, m);
    }
    if listed(before, running[m]) {
        let i = choose|i: int| 0 <= i < before.len() && (#[trigger] before[i]).qid == running[m];
        assert(all[i] == before[i]);
    } else {
        assert(all.last().qid == running[m]);
    }
}

/// Of the shows that ended those of cues are told of, and the preview is not.
pub proof fn previews_are_not_told_of(ended: &Vec<Qid>, r: Vec<Qid>, q: Qid)
    requires
        call_ensures(finished_cues, (ended,), r),
    ensures
        r@.contains(q) <==> ended@.contains(q) && q@ != (-1int, 0nat),
        r@.len() <= ended@.len(),
{
    lemma_finished(ended@, q, ended@.len() as int);
    assert(ended@.take(ended@.len() as int) =~= ended@);
}

proof fn lemma_finished(ended: Seq<Qid>, q: Qid, n: int)
    requires
        0 <= n <= ended.len(),
    ensures
        finished_cues_of(ended, n).contains(q) <==> ended.take(n).contains(q) && q@ != (
            -1int,
            0nat,
        ),
        finished_cues_of(ended, n).len() <= n,
    decreases n,
{
    if n > 0 {
        lemma_finished(ended, q, n - 1);
        let before = finished_cues_of(ended, n - 1);
        let all = finished_cues_of(ended, n);
        let t = ended.take(n - 1);
        let u = ended.take(n);
        assert(u =~= t.push(ended[n - 1]));
        if t.contains(q) {
            let k = choose|k: int| 0 <= k < t.len() && t[k] == q;
            assert(u[k] == q);
        }
        if u.contains(q) {
            let k = choose|k: int| 0 <= k < u.len() && u[k] == q;
            if k < n - 1 {
                assert(t[k] == q);
            }
        }
        if before.contains(q) {
            let k = choose|k: int| 0 <= k < before.len() && before[k] == q;
            assert(all[k] == q);
        }
        if all.contains(q) {
            let k = choose|k: int| 0 <= k < all.len() && all[k] == q;
            if k < before.len() {
                assert(before[k] == q);
            }
        }
        if ended[n - 1] == q {
            assert(u[n - 1] == q);
            if q@ != (-1int, 0nat) {
                assert(all.last() == q);
            }
        }
    }
}

/// The title tells the project's name, and a star while there is work to save.
pub proof fn the_title_tells_of_unsaved_work(name: Option<&str>, dirty: bool, r: String)
    requires
        call_ensures(window_title, (name, dirty), r),
    ensures
        name is Some && !dirty ==> r@ == "CuePool — "@ + name->0@,
        name is Some && dirty ==> r@ == "CuePool — "@ + name->0@ + " *"@,
        name is None && !dirty ==> r@ == "CuePool — "@ + "Untitled"@,
        name is None && dirty ==> r@ == "CuePool — "@ + "Untitled"@ + " *"@,
{
}

/// The program ends on a request only where nothing is lost; else it asks.
pub proof fn a_close_asks_before_work_is_lost(state: &mut SharedState, active: bool, exit: bool)
    requires
        call_ensures(close_requested, (state, active), exit),
    ensures
        exit <==> !old(state)@.dirty && !active,
        exit ==> final(state)@ == old(state)@,
        !exit ==> final(state)@.pending_close_confirm,
        final(state)@.show_file == old(state)@.show_file,
        final(state)@.quit == old(state)@.quit,
{
}

} // verus!
