//! What messages from the network do to the show.

use vstd::prelude::*;

use crate::pacing::{due, is_due};
use crate::qid::{parsed_qid, Qid};
use crate::show::{RemoteNode, ShowSettings, ShowView};
use crate::state::{AppCommand, Moment, SharedState, StateView};
use crate::text::{
    chars_of, contains_char, has_char, same, text_opt, texts, trim, trimmed,
};

verus! {

/// What a take recorded from the network is filed as.
pub const TAKE_SUFFIX: &'static str = ".dmxrec";

pub open spec fn ends_with(s: Seq<char>, p: Seq<char>) -> bool {
    p.len() <= s.len() && s.skip(s.len() - p.len()) == p
}

fn has_suffix(s: &str, p: &str) -> (b: bool)
    ensures
        b == ends_with(s@, p@),
{
    let n: usize = s.unicode_len();
    let k: usize = p.unicode_len();
    if k <= n {
        let tail: &str = s.substring_char(n - k, n);
        assert(tail@ =~= s@.skip(n - k));
        same(tail, p)
    } else {
        false
    }
}

pub open spec fn is_letter(c: char) -> bool {
    65 <= c as u32 <= 90 || 97 <= c as u32 <= 122
}

/// Whether a name is a file name and nothing more: not empty, no step to
/// another folder, no separator, no zero character, and on Windows no drive
/// before it.
pub open spec fn bare_name(name: Seq<char>, windows: bool) -> bool {
    &&& name.len() > 0
    &&& !has_char(name, '\0')
    &&& !has_char(name, '/')
    &&& !has_char(name, '\\')
    &&& name != "."@
    &&& name != ".."@
    &&& !(windows && name.len() >= 2 && is_letter(name[0]) && name[1] == ':')
}

/// The file a take name stands for.
pub open spec fn take_file(name: Seq<char>, windows: bool) -> Option<Seq<char>> {
    let t = trimmed(name);
    if bare_name(t, windows) {
        Some(
            if ends_with(t, TAKE_SUFFIX@) {
                t
            } else {
                t + TAKE_SUFFIX@
            },
        )
    } else {
        None
    }
}

fn has_drive(name: &str) -> (b: bool)
    ensures
        b == (name@.len() >= 2 && is_letter(name@[0]) && name@[1] == ':'),
{
    let v: Vec<char> = chars_of(name);
    if v.len() < 2 {
        return false;
    }
    let c: u32 = v[0] as u32;
    ((65 <= c && c <= 90) || (97 <= c && c <= 122)) && v[1] == ':'
}

/// The file that a take name from the network stands for. The network is open
/// to anyone, so only a bare file name is taken. `windows` says whether a name
/// can begin with a drive.
pub fn osc_take_file_name(name: &str, windows: bool) -> (r: Option<String>)
    ensures
        text_opt(r) == take_file(name@, windows),
{
    let t: &str = trim(name);
    if t.is_empty() || contains_char(t, '\0') || contains_char(t, '/') || contains_char(t, '\\')
        || same(t, ".") || same(t, "..") || (windows && has_drive(t)) {
        return None;
    }
    let mut file: String = t.to_owned();
    if !has_suffix(t, TAKE_SUFFIX) {
        file.append(TAKE_SUFFIX);
    }
    Some(file)
}

/// A file that a take name stands for has the suffix, is a bare name itself,
/// and names no other folder.
pub proof fn take_files_are_bare(name: Seq<char>, windows: bool)
    requires
        take_file(name, windows) is Some,
    ensures
        ends_with(take_file(name, windows)->0, TAKE_SUFFIX@),
        !has_char(take_file(name, windows)->0, '/'),
        !has_char(take_file(name, windows)->0, '\\'),
        !has_char(take_file(name, windows)->0, '\0'),
        take_file(name, windows)->0 != "."@,
        take_file(name, windows)->0 != ".."@,
{
    reveal_strlit(".dmxrec");
    reveal_strlit(".");
    reveal_strlit("..");
    let t = trimmed(name);
    let file = take_file(name, windows)->0;
    if !ends_with(t, TAKE_SUFFIX@) {
        assert(file.skip(file.len() - 7) =~= TAKE_SUFFIX@);
        assert forall|i: int| 0 <= i < file.len() implies file[i] != '/' && file[i] != '\\'
            && file[i] != '\0' by {
            if i < t.len() {
                assert(file[i] == t[i]);
                assert(t[i] != '/' && t[i] != '\\' && t[i] != '\0');
            }
        }
    }
    assert(file.len() >= 7);
}

/// A message to a peer: its address and its texts.
#[derive(Debug, PartialEq, Eq)]
pub struct OscMessage {
    pub addr: String,
    pub args: Vec<String>,
}

/// What a machine tells its peers about itself: its name, where it takes part
/// in remote control at all.
pub fn remote_discovery_message(settings: &ShowSettings) -> (r: Option<OscMessage>)
    ensures
        r is Some == settings.enable_remote_control,
        r matches Some(m) ==> m.addr@ == "/qplayer/remote/discovery"@ && texts(m.args@) == seq![
            trimmed(settings.node_name@),
        ],
{
    if settings.enable_remote_control {
        let mut args: Vec<String> = Vec::new();
        args.push(trim(settings.node_name.as_str()).to_owned());
        assert(texts(args@) =~= seq![trimmed(settings.node_name@)]);
        Some(OscMessage { addr: "/qplayer/remote/discovery".to_owned(), args })
    } else {
        None
    }
}

/// How often a machine tells of itself, in nanoseconds.
pub const DISCOVERY_NANOS: u64 = 1_000_000_000;

/// Whether it is time for a machine to tell of itself, and when it last did.
pub fn discovery_due(last: Moment, now: Moment) -> (r: (bool, Moment))
    ensures
        r.0 == is_due(last, DISCOVERY_NANOS, now),
        r.1 == (if r.0 {
            now
        } else {
            last
        }),
{
    let mut at: Moment = last;
    let told: bool = due(&mut at, DISCOVERY_NANOS, now);
    (told, at)
}

/// Whether a command addressed to `target` is for the machine `local`: names
/// count without white space around them, and `*` means every machine.
pub open spec fn addressed(target: Seq<char>, local: Seq<char>) -> bool {
    trimmed(target) == trimmed(local) || trimmed(target) == "*"@
}

pub fn is_remote_target_match(settings: &ShowSettings, target: &str) -> (b: bool)
    ensures
        b == addressed(target@, settings.node_name@),
{
    let t: &str = trim(target);
    same(t, trim(settings.node_name.as_str())) || same(t, "*")
}

/// What the output alignment is asked for.
#[derive(Debug)]
pub enum Autoblend {
    Stream { url: String },
    Markers { output: i32 },
    Colors { output: i32 },
    Apply,
    Abort,
    White { output: i32 },
    Run { url: String, output: i32 },
}

/// A message of the show's own protocol.
#[allow(inconsistent_fields)]
#[derive(Debug)]
pub enum OscEvent {
    Go { qid: Option<String> },
    Stop,
    Pause,
    Unpause,
    Select { qid: String },
    Save,
    /// Channels count from one on the wire.
    DmxChannel { universe: u16, channel: u16, value: u8 },
    RecorderRecord,
    RecorderStop,
    RecorderPlay,
    RecorderDiscard,
    RecorderRevert,
    RecorderSelect { name: String },
    Align(Autoblend),
    RemotePing { src: String },
    RemoteDiscovery { name: String, addr: Option<String> },
    RemoteGo { target: String, qid: String },
    RemoteStop { target: String, qid: String },
    RemotePause { target: String, qid: String },
    RemoteUnpause { target: String, qid: String },
    RemotePreload { target: String, qid: String },
    Other,
}

/// What remains to be done for a message.
#[derive(Debug)]
pub enum OscReply {
    Nothing,
    /// Feed this level to the recorder; channels count from zero.
    LiveInput { universe: u16, channel: u16, value: u8 },
    /// Answer the sender.
    Pong { to: String },
    Align(Autoblend),
    /// The take name was no bare file name.
    TakeRefused,
}

/// A message of the MIDI show control protocol.
#[allow(inconsistent_fields)]
#[derive(Debug)]
pub enum MscEvent {
    Go { qid: String },
    TimedGo { qid: String },
    Stop,
    Resume,
    Other,
}

impl StateView {
    /// The state with a command at the end of the queue.
    pub open spec fn queued(self, command: AppCommand) -> StateView {
        StateView { command_queue: self.command_queue.push(command), ..self }
    }

    /// The state with the named cue selected, where the name is a number.
    pub open spec fn pointed(self, qid: Option<Qid>) -> StateView {
        match qid {
            Some(id) => StateView { selected_cue_id: Some(id), ..self },
            None => self,
        }
    }
}

fn queue(state: &mut SharedState, command: AppCommand)
    ensures
        final(state)@ == old(state)@.queued(command),
{
    state.command_queue.push(command);
}

/// Select the cue a peer named, where it named one.
pub fn point(state: &mut SharedState, qid: Option<Qid>)
    ensures
        final(state)@ == old(state)@.pointed(qid),
{
    if qid.is_some() {
        state.selected_cue_id = qid;
    }
}

/// The position of the first node of this name, or the number of nodes.
pub open spec fn node_position(nodes: Seq<RemoteNode>, name: Seq<char>) -> nat
    decreases nodes.len(),
{
    if nodes.len() == 0 || nodes[0].name@ == name {
        0
    } else {
        1 + node_position(nodes.drop_first(), name)
    }
}

fn node_position_of(nodes: &Vec<RemoteNode>, name: &str) -> (i: usize)
    ensures
        i == node_position(nodes@, name@),
        i <= nodes@.len(),
{
    let mut i: usize = 0;
    assert(nodes@.skip(0) =~= nodes@);
    while i < nodes.len() && !same(nodes[i].name.as_str(), name)
        invariant
            i <= nodes@.len(),
            node_position(nodes@, name@) == i + node_position(nodes@.skip(i as int), name@),
        decreases nodes@.len() - i,
    {
        assert(nodes@.skip(i as int).drop_first() =~= nodes@.skip(i + 1));
        i = i + 1;
    }
    i
}

/// Whether `u` are the nodes once a peer told of itself: a known one was seen
/// now, at the address it gave if any; an unknown one joins at the end.
pub open spec fn discovered(
    nodes: Seq<RemoteNode>,
    name: Seq<char>,
    addr: Option<String>,
    now: Moment,
    u: Seq<RemoteNode>,
) -> bool {
    let i = node_position(nodes, name) as int;
    if i < nodes.len() {
        u == nodes.update(
            i,
            RemoteNode {
                last_seen: Some(now),
                address: match addr {
                    Some(a) => a,
                    None => nodes[i].address,
                },
                ..nodes[i]
            },
        )
    } else {
        &&& u.len() == nodes.len() + 1
        &&& u.drop_last() == nodes
        &&& u.last().name@ == name
        &&& u.last().address@ == (match addr {
            Some(a) => a@,
            None => ""@,
        })
        &&& u.last().last_seen == Some(now)
        &&& u.last().extra == 0
    }
}

/// Whether `t` is the state once a peer told of itself: a machine does not
/// take notice of itself, nor of one without a name.
pub open spec fn heard_of(
    s: StateView,
    name: Seq<char>,
    addr: Option<String>,
    now: Moment,
    t: StateView,
) -> bool {
    let peer = trimmed(name);
    if peer.len() > 0 && peer != trimmed(s.show_file.show_settings.node_name@) {
        &&& discovered(s.show_file.remote_nodes, peer, addr, now, t.show_file.remote_nodes)
        &&& t == (StateView {
            show_file: ShowView { remote_nodes: t.show_file.remote_nodes, ..s.show_file },
            ..s
        })
    } else {
        t == s
    }
}

fn hear_of(state: &mut SharedState, name: &str, addr: Option<String>, now: Moment)
    ensures
        heard_of(old(state)@, name@, addr, now, final(state)@),
{
    let peer: &str = trim(name);
    if peer.is_empty() || same(peer, trim(state.show_file.show_settings.node_name.as_str())) {
        return;
    }
    let i: usize = node_position_of(&state.show_file.remote_nodes, peer);
    let ghost nodes = state.show_file.remote_nodes@;
    let ghost given = addr;
    if i < state.show_file.remote_nodes.len() {
        state.show_file.remote_nodes[i].last_seen = Some(now);
        match addr {
            Some(a) => {
                state.show_file.remote_nodes[i].address = a;
            },
            None => {},
        }
        proof {
            let u = RemoteNode {
                last_seen: Some(now),
                address: match given {
                    Some(a) => a,
                    None => nodes[i as int].address,
                },
                ..nodes[i as int]
            };
            assert(state.show_file.remote_nodes@[i as int] == u);
            assert(state.show_file.remote_nodes@ =~= nodes.update(i as int, u));
        }
    } else {
        let address: String = match addr {
            Some(a) => a,
            None => "".to_owned(),
        };
        state.show_file.remote_nodes.push(
            RemoteNode { name: peer.to_owned(), address, last_seen: Some(now), extra: 0 },
        );
        assert(state.show_file.remote_nodes@.drop_last() =~= nodes);
    }
}

/// The machines known before are still known, in their places.
pub proof fn discovery_forgets_no_one(
    nodes: Seq<RemoteNode>,
    name: Seq<char>,
    addr: Option<String>,
    now: Moment,
    u: Seq<RemoteNode>,
    k: int,
)
    requires
        discovered(nodes, name, addr, now, u),
        0 <= k < nodes.len(),
    ensures
        k < u.len(),
        u[k].name == nodes[k].name,
{
    if node_position(nodes, name) >= nodes.len() {
        assert(u[k] == u.drop_last()[k]);
    }
}

/// Whether `t` and `reply` are what a message makes of the state `s`. `paused`
/// and `recording` say what the playback and the recorder are doing.
pub open spec fn osc_effect(
    s: StateView,
    ev: OscEvent,
    paused: bool,
    recording: bool,
    windows: bool,
    now: Moment,
    t: StateView,
    reply: OscReply,
) -> bool {
    let local = s.show_file.show_settings.node_name@;
    match ev {
        OscEvent::Go { qid } => t == s.pointed(
            match qid {
                Some(text) => parsed_qid(text@),
                None => None,
            },
        ).queued(AppCommand::Go) && reply == OscReply::Nothing,
        OscEvent::Stop => t == s.queued(AppCommand::Stop) && reply == OscReply::Nothing,
        OscEvent::Pause => t == s.queued(AppCommand::Pause) && reply == OscReply::Nothing,
        OscEvent::Unpause => t == (if paused {
            s.queued(AppCommand::Pause)
        } else {
            s
        }) && reply == OscReply::Nothing,
        OscEvent::Select { qid } => t == s.pointed(parsed_qid(qid@)) && reply == OscReply::Nothing,
        OscEvent::Save => t == s.queued(AppCommand::SaveProject) && reply == OscReply::Nothing,
        OscEvent::DmxChannel { universe, channel, value } => t == s && reply == (
        OscReply::LiveInput { universe, channel: (channel - 1) as u16, value }),
        OscEvent::RecorderRecord => t == s.queued(
            AppCommand::RecorderRecord { file: s.recorder_file },
        ) && reply == OscReply::Nothing,
        OscEvent::RecorderStop => t == (if recording {
            s.queued(AppCommand::RecorderRecord { file: s.recorder_file })
        } else {
            s.queued(AppCommand::RecorderStopPreview)
        }) && reply == OscReply::Nothing,
        OscEvent::RecorderPlay => t == s.queued(
            AppCommand::RecorderPreview { file: s.recorder_file },
        ) && reply == OscReply::Nothing,
        OscEvent::RecorderDiscard => t == s.queued(AppCommand::RecorderDiscard) && reply
            == OscReply::Nothing,
        OscEvent::RecorderRevert => t == s.queued(
            AppCommand::RecorderRevert { file: s.recorder_file },
        ) && reply == OscReply::Nothing,
        OscEvent::RecorderSelect { name } => match take_file(name@, windows) {
            Some(file) => t.recorder_file@ == file && t == (StateView {
                recorder_file: t.recorder_file,
                ..s
            }) && reply == OscReply::Nothing,
            None => t == s && reply == OscReply::TakeRefused,
        },
        OscEvent::Align(what) => t == s && reply == OscReply::Align(what),
        OscEvent::RemotePing { src } => t == s && reply == (OscReply::Pong { to: src }),
        OscEvent::RemoteDiscovery { name, addr } => heard_of(s, name@, addr, now, t) && reply
            == OscReply::Nothing,
        OscEvent::RemoteGo { target, qid } => t == (if addressed(target@, local) {
            s.pointed(parsed_qid(qid@)).queued(AppCommand::Go)
        } else {
            s
        }) && reply == OscReply::Nothing,
        OscEvent::RemoteStop { target, qid } => t == (if addressed(target@, local) {
            s.pointed(parsed_qid(qid@)).queued(AppCommand::Stop)
        } else {
            s
        }) && reply == OscReply::Nothing,
        OscEvent::RemotePause { target, qid } => t == (if addressed(target@, local) {
            s.pointed(parsed_qid(qid@)).queued(AppCommand::Pause)
        } else {
            s
        }) && reply == OscReply::Nothing,
        OscEvent::RemoteUnpause { target, qid } => t == (if addressed(target@, local) {
            let p = s.pointed(parsed_qid(qid@));
            if paused {
                p.queued(AppCommand::Pause)
            } else {
                p
            }
        } else {
            s
        }) && reply == OscReply::Nothing,
        OscEvent::RemotePreload { target, qid } => t == (if addressed(target@, local) {
            s.pointed(parsed_qid(qid@)).queued(AppCommand::Preload)
        } else {
            s
        }) && reply == OscReply::Nothing,
        OscEvent::Other => t == s && reply == OscReply::Nothing,
    }
}

/// Carry out a message of the show's own protocol.
pub fn process_osc_event(
    state: &mut SharedState,
    ev: OscEvent,
    paused: bool,
    recording: bool,
    windows: bool,
    now: Moment,
) -> (reply: OscReply)
    requires
        ev matches OscEvent::DmxChannel { channel, .. } ==> channel > 0,
    ensures
        osc_effect(old(state)@, ev, paused, recording, windows, now, final(state)@, reply),
{
    match ev {
        OscEvent::Go { qid } => {
            match qid {
                Some(text) => point(state, Qid::parse(text.as_str())),
                None => {},
            }
            queue(state, AppCommand::Go);
            OscReply::Nothing
        },
        OscEvent::Stop => {
            queue(state, AppCommand::Stop);
            OscReply::Nothing
        },
        OscEvent::Pause => {
            queue(state, AppCommand::Pause);
            OscReply::Nothing
        },
        OscEvent::Unpause => {
            if paused {
                queue(state, AppCommand::Pause);
            }
            OscReply::Nothing
        },
        OscEvent::Select { qid } => {
            point(state, Qid::parse(qid.as_str()));
            OscReply::Nothing
        },
        OscEvent::Save => {
            queue(state, AppCommand::SaveProject);
            OscReply::Nothing
        },
        OscEvent::DmxChannel { universe, channel, value } => OscReply::LiveInput {
            universe,
            channel: channel - 1,
            value,
        },
        OscEvent::RecorderRecord => {
            let file: String = state.recorder_file.clone();
            queue(state, AppCommand::RecorderRecord { file });
            OscReply::Nothing
        },
        OscEvent::RecorderStop => {
            if recording {
                let file: String = state.recorder_file.clone();
                queue(state, AppCommand::RecorderRecord { file });
            } else {
                queue(state, AppCommand::RecorderStopPreview);
            }
            OscReply::Nothing
        },
        OscEvent::RecorderPlay => {
            let file: String = state.recorder_file.clone();
            queue(state, AppCommand::RecorderPreview { file });
            OscReply::Nothing
        },
        OscEvent::RecorderDiscard => {
            queue(state, AppCommand::RecorderDiscard);
            OscReply::Nothing
        },
        OscEvent::RecorderRevert => {
            let file: String = state.recorder_file.clone();
            queue(state, AppCommand::RecorderRevert { file });
            OscReply::Nothing
        },
        OscEvent::RecorderSelect { name } => match osc_take_file_name(name.as_str(), windows) {
            Some(file) => {
                state.recorder_file = file;
                OscReply::Nothing
            },
            None => OscReply::TakeRefused,
        },
        OscEvent::Align(what) => OscReply::Align(what),
        OscEvent::RemotePing { src } => OscReply::Pong { to: src },
        OscEvent::RemoteDiscovery { name, addr } => {
            hear_of(state, name.as_str(), addr, now);
            OscReply::Nothing
        },
        OscEvent::RemoteGo { target, qid } => {
            if is_remote_target_match(&state.show_file.show_settings, target.as_str()) {
                point(state, Qid::parse(qid.as_str()));
                queue(state, AppCommand::Go);
            }
            OscReply::Nothing
        },
        OscEvent::RemoteStop { target, qid } => {
            if is_remote_target_match(&state.show_file.show_settings, target.as_str()) {
                point(state, Qid::parse(qid.as_str()));
                queue(state, AppCommand::Stop);
            }
            OscReply::Nothing
        },
        OscEvent::RemotePause { target, qid } => {
            if is_remote_target_match(&state.show_file.show_settings, target.as_str()) {
                point(state, Qid::parse(qid.as_str()));
                queue(state, AppCommand::Pause);
            }
            OscReply::Nothing
        },
        OscEvent::RemoteUnpause { target, qid } => {
            if is_remote_target_match(&state.show_file.show_settings, target.as_str()) {
                point(state, Qid::parse(qid.as_str()));
                if paused {
                    queue(state, AppCommand::Pause);
                }
            }
            OscReply::Nothing
        },
        OscEvent::RemotePreload { target, qid } => {
            if is_remote_target_match(&state.show_file.show_settings, target.as_str()) {
                point(state, Qid::parse(qid.as_str()));
                queue(state, AppCommand::Preload);
            }
            OscReply::Nothing
        },
        OscEvent::Other => OscReply::Nothing,
    }
}

/// A command addressed to another machine changes nothing here.
pub proof fn commands_for_others_change_nothing(
    s: StateView,
    ev: OscEvent,
    target: String,
    qid: String,
    paused: bool,
    recording: bool,
    windows: bool,
    now: Moment,
    t: StateView,
    reply: OscReply,
)
    requires
        osc_effect(s, ev, paused, recording, windows, now, t, reply),
        !addressed(target@, s.show_file.show_settings.node_name@),
        ev == (OscEvent::RemoteGo { target, qid }) || ev == (OscEvent::RemoteStop { target, qid })
            || ev == (OscEvent::RemotePause { target, qid }) || ev == (OscEvent::RemoteUnpause {
            target,
            qid,
        }) || ev == (OscEvent::RemotePreload { target, qid }),
    ensures
        t == s,
{
}

/// No message from the network edits a cue or the edit history.
pub proof fn messages_never_edit_cues(
    s: StateView,
    ev: OscEvent,
    paused: bool,
    recording: bool,
    windows: bool,
    now: Moment,
    t: StateView,
    reply: OscReply,
)
    requires
        osc_effect(s, ev, paused, recording, windows, now, t, reply),
    ensures
        t.show_file.cues == s.show_file.cues,
        t.undo_redo == s.undo_redo,
        t.show_mode == s.show_mode,
        t.dirty == s.dirty,
{
}

/// The state after a MIDI show control message.
pub open spec fn msc_effect(s: StateView, ev: MscEvent) -> StateView {
    match ev {
        MscEvent::Go { qid } => s.pointed(parsed_qid(qid@)).queued(AppCommand::Go),
        MscEvent::TimedGo { qid } => s.pointed(parsed_qid(qid@)).queued(AppCommand::Go),
        MscEvent::Stop => s.queued(AppCommand::Stop),
        MscEvent::Resume => s,
        MscEvent::Other => s,
    }
}

/// Carry out a MIDI show control message.
pub fn process_msc_event(state: &mut SharedState, ev: MscEvent)
    ensures
        final(state)@ == msc_effect(old(state)@, ev),
{
    match ev {
        MscEvent::Go { qid } => {
            point(state, Qid::parse(qid.as_str()));
            queue(state, AppCommand::Go);
        },
        MscEvent::TimedGo { qid } => {
            point(state, Qid::parse(qid.as_str()));
            queue(state, AppCommand::Go);
        },
        MscEvent::Stop => queue(state, AppCommand::Stop),
        MscEvent::Resume => {},
        MscEvent::Other => {},
    }
}

/// A message for this machine queues exactly the command of its own name, and
/// one for another machine queues nothing: only a Go message queues a Go, only
/// a Stop message a Stop, and only a message to preload a preload.
pub proof fn messages_queue_the_command_of_their_name(
    state: &mut SharedState,
    ev: OscEvent,
    paused: bool,
    recording: bool,
    windows: bool,
    now: Moment,
    reply: OscReply,
)
    requires
        ev matches OscEvent::DmxChannel { channel, .. } ==> channel > 0,
        call_ensures(process_osc_event, (state, ev, paused, recording, windows, now), reply),
    ensures
        ({
            let local = old(state)@.show_file.show_settings.node_name@;
            let q = old(state)@.command_queue;
            let r = final(state)@.command_queue;
            let file = old(state)@.recorder_file;
            match ev {
                OscEvent::Go { .. } => r == q.push(AppCommand::Go),
                OscEvent::Stop => r == q.push(AppCommand::Stop),
                OscEvent::Pause => r == q.push(AppCommand::Pause),
                OscEvent::Unpause => r == (if paused {
                    q.push(AppCommand::Pause)
                } else {
                    q
                }),
                OscEvent::Save => r == q.push(AppCommand::SaveProject),
                OscEvent::RecorderRecord => r == q.push(AppCommand::RecorderRecord { file }),
                OscEvent::RecorderStop => r == q.push(
                    if recording {
                        AppCommand::RecorderRecord { file }
                    } else {
                        AppCommand::RecorderStopPreview
                    },
                ),
                OscEvent::RecorderPlay => r == q.push(AppCommand::RecorderPreview { file }),
                OscEvent::RecorderDiscard => r == q.push(AppCommand::RecorderDiscard),
                OscEvent::RecorderRevert => r == q.push(AppCommand::RecorderRevert { file }),
                OscEvent::RemoteGo { target, .. } => r == (if addressed(target@, local) {
                    q.push(AppCommand::Go)
                } else {
                    q
                }),
                OscEvent::RemoteStop { target, .. } => r == (if addressed(target@, local) {
                    q.push(AppCommand::Stop)
                } else {
                    q
                }),
                OscEvent::RemotePause { target, .. } => r == (if addressed(target@, local) {
                    q.push(AppCommand::Pause)
                } else {
                    q
                }),
                OscEvent::RemoteUnpause { target, .. } => r == (if addressed(target@, local)
                    && paused {
                    q.push(AppCommand::Pause)
                } else {
                    q
                }),
                OscEvent::RemotePreload { target, .. } => r == (if addressed(target@, local) {
                    q.push(AppCommand::Preload)
                } else {
                    q
                }),
                _ => r == q,
            }
        }),
{
}

/// A command addressed to this machine does what selecting its cue and giving
/// the command here would do: the two messages one after the other end in the
/// same state as the one.
pub proof fn a_remote_command_is_a_selection_and_a_command(
    selecting: &mut SharedState,
    commanding: &mut SharedState,
    remote: &mut SharedState,
    target: String,
    qid: String,
    plain: OscEvent,
    addressed_event: OscEvent,
    paused: bool,
    recording: bool,
    windows: bool,
    now: Moment,
    r: OscReply,
    s: OscReply,
    t: OscReply,
)
    requires
        old(remote)@ == old(selecting)@,
        old(commanding)@ == final(selecting)@,
        addressed(target@, old(remote)@.show_file.show_settings.node_name@),
        ({
            ||| plain == (OscEvent::Go { qid: None }) && addressed_event == (OscEvent::RemoteGo {
                target,
                qid,
            })
            ||| plain == OscEvent::Stop && addressed_event == (OscEvent::RemoteStop { target, qid })
            ||| plain == OscEvent::Pause && addressed_event == (OscEvent::RemotePause {
                target,
                qid,
            })
            ||| plain == OscEvent::Unpause && addressed_event == (OscEvent::RemoteUnpause {
                target,
                qid,
            })
        }),
        call_ensures(
            process_osc_event,
            (selecting, OscEvent::Select { qid }, paused, recording, windows, now),
            r,
        ),
        call_ensures(
            process_osc_event,
            (commanding, plain, paused, recording, windows, now),
            s,
        ),
        call_ensures(
            process_osc_event,
            (remote, addressed_event, paused, recording, windows, now),
            t,
        ),
    ensures
        final(remote)@ == final(commanding)@,
{
}

/// A message that names a cue selects it, where the name is a number; every
/// other message leaves the selection alone.
pub proof fn messages_select_the_cue_they_name(
    state: &mut SharedState,
    ev: OscEvent,
    paused: bool,
    recording: bool,
    windows: bool,
    now: Moment,
    reply: OscReply,
)
    requires
        ev matches OscEvent::DmxChannel { channel, .. } ==> channel > 0,
        call_ensures(process_osc_event, (state, ev, paused, recording, windows, now), reply),
    ensures
        ({
            let local = old(state)@.show_file.show_settings.node_name@;
            let before = old(state)@.selected_cue_id;
            let after = final(state)@.selected_cue_id;
            let named = match ev {
                OscEvent::Go { qid: Some(text) } => Some(text@),
                OscEvent::Select { qid } => Some(qid@),
                OscEvent::RemoteGo { target, qid } if addressed(target@, local) => Some(qid@),
                OscEvent::RemoteStop { target, qid } if addressed(target@, local) => Some(qid@),
                OscEvent::RemotePause { target, qid } if addressed(target@, local) => Some(qid@),
                OscEvent::RemoteUnpause { target, qid } if addressed(target@, local) => Some(
                    qid@,
                ),
                OscEvent::RemotePreload { target, qid } if addressed(target@, local) => Some(
                    qid@,
                ),
                _ => None,
            };
            match named {
                Some(text) => match parsed_qid(text) {
                    Some(id) => after == Some(id),
                    None => after == before,
                },
                None => after == before,
            }
        }),
{
}

/// Messages change the queue, the selection, the take's name and the list of
/// machines, each only where it is about that, and nothing else.
pub proof fn messages_change_only_what_they_are_about(
    state: &mut SharedState,
    ev: OscEvent,
    paused: bool,
    recording: bool,
    windows: bool,
    now: Moment,
    reply: OscReply,
)
    requires
        ev matches OscEvent::DmxChannel { channel, .. } ==> channel > 0,
        call_ensures(process_osc_event, (state, ev, paused, recording, windows, now), reply),
    ensures
        !(ev is RecorderSelect) ==> final(state)@.recorder_file == old(state)@.recorder_file,
        !(ev is RemoteDiscovery) ==> final(state)@.show_file == old(state)@.show_file,
        final(state)@.project_path == old(state)@.project_path,
        final(state)@.show_mode == old(state)@.show_mode,
        final(state)@.dirty == old(state)@.dirty,
        final(state)@.undo_redo == old(state)@.undo_redo,
        final(state)@.active_cues == old(state)@.active_cues,
        final(state)@.panels == old(state)@.panels,
        final(state)@.quit == old(state)@.quit,
        final(state)@.show_paused == old(state)@.show_paused,
        final(state)@.discard_confirmed == old(state)@.discard_confirmed,
        final(state)@.pending_discard_confirm == old(state)@.pending_discard_confirm,
{
}

/// Each message is answered as it asks to be: a level goes to the recorder, one
/// channel lower than on the wire; a ping is answered to its sender; and what
/// is asked of the alignment is handed on.
pub proof fn messages_are_answered(
    state: &mut SharedState,
    ev: OscEvent,
    paused: bool,
    recording: bool,
    windows: bool,
    now: Moment,
    reply: OscReply,
)
    requires
        ev matches OscEvent::DmxChannel { channel, .. } ==> channel > 0,
        call_ensures(process_osc_event, (state, ev, paused, recording, windows, now), reply),
    ensures
        match ev {
            OscEvent::DmxChannel { universe, channel, value } => reply is LiveInput
                && reply->LiveInput_universe == universe && reply->LiveInput_channel + 1 == channel
                && reply->LiveInput_value == value,
            OscEvent::RemotePing { src } => reply == (OscReply::Pong { to: src }),
            OscEvent::Align(what) => reply == OscReply::Align(what),
            OscEvent::RecorderSelect { name } => reply == (if take_file(name@, windows) is Some {
                OscReply::Nothing
            } else {
                OscReply::TakeRefused
            }) && (take_file(name@, windows) matches Some(file) ==> (
            final(state)@.recorder_file@ == file)),
            _ => reply == OscReply::Nothing,
        },
{
}

/// A machine is addressed by its own name, with any white space around it, and
/// by a star; by no other name.
pub proof fn a_machine_is_addressed_by_its_name(settings: &ShowSettings, target: &str, b: bool)
    requires
        call_ensures(is_remote_target_match, (settings, target), b),
    ensures
        target@ == settings.node_name@ ==> b,
        trimmed(target@) == trimmed(settings.node_name@) ==> b,
        trimmed(target@) == "*"@ ==> b,
        trimmed(target@) != "*"@ && trimmed(target@) != trimmed(settings.node_name@) ==> !b,
{
}

/// A take name is refused where it is empty, steps to another folder, holds a
/// separator or a zero character, or on Windows begins with a drive; otherwise
/// its file is the name with the suffix, once.
pub proof fn take_names_are_filed_with_their_suffix(name: &str, windows: bool, r: Option<String>)
    requires
        call_ensures(osc_take_file_name, (name, windows), r),
    ensures
        ({
            let t = trimmed(name@);
            let refused = t.len() == 0 || has_char(t, '/') || has_char(t, '\\') || has_char(t, '\0')
                || t == "."@ || t == ".."@ || (windows && t.len() >= 2 && (97 <= t[0] as u32
                <= 122 || 65 <= t[0] as u32 <= 90) && t[1] == ':');
            &&& (r is None) == refused
            &&& r is Some ==> r->0@ == (if t.len() >= 7 && t.skip(t.len() - 7) == ".dmxrec"@ {
                t
            } else {
                t + ".dmxrec"@
            })
        }),
{
    reveal_strlit(".dmxrec");
    let t = trimmed(name@);
    if r is Some {
        assert((t + ".dmxrec"@).len() == t.len() + 7);
    }
}

/// What a peer tells of itself is on record afterwards: under its name, seen
/// now, at the address that it gave. The machine itself and one without a name
/// are not.
pub proof fn peers_are_put_on_record(
    state: &mut SharedState,
    name: String,
    addr: Option<String>,
    paused: bool,
    recording: bool,
    windows: bool,
    now: Moment,
    reply: OscReply,
)
    requires
        call_ensures(
            process_osc_event,
            (state, OscEvent::RemoteDiscovery { name, addr }, paused, recording, windows, now),
            reply,
        ),
    ensures
        ({
            let peer = trimmed(name@);
            let local = trimmed(old(state)@.show_file.show_settings.node_name@);
            let before = old(state)@.show_file.remote_nodes;
            let after = final(state)@.show_file.remote_nodes;
            &&& peer.len() == 0 || peer == local ==> final(state)@ == old(state)@
            &&& peer.len() > 0 && peer != local ==> {
                &&& exists|k: int|
                    0 <= k < after.len() && (#[trigger] after[k]).name@ == peer
                        && after[k].last_seen == Some(now) && (addr matches Some(a) ==> (
                    after[k].address@ == a@))
                &&& after.len() == before.len() <==> exists|k: int|
                    0 <= k < before.len() && (#[trigger] before[k]).name@ == peer
                &&& before.len() <= after.len() <= before.len() + 1
                &&& forall|k: int|
                    0 <= k < before.len() && (#[trigger] before[k]).name@ != peer ==> after[k]
                        == before[k]
            }
        }),
{
    let peer = trimmed(name@);
    let local = trimmed(old(state)@.show_file.show_settings.node_name@);
    let before = old(state)@.show_file.remote_nodes;
    let after = final(state)@.show_file.remote_nodes;
    if peer.len() > 0 && peer != local {
        lemma_node_position(before, peer);
        let i = node_position(before, peer) as int;
        if i < before.len() {
            assert(after[i].name@ == peer);
        } else {
            assert(after[after.len() - 1].name@ == peer);
            assert forall|k: int| 0 <= k < before.len() implies after[k] == #[trigger] before[k] by {
                assert(after.drop_last()[k] == before[k]);
            }
        }
    }
}

proof fn lemma_node_position(nodes: Seq<RemoteNode>, name: Seq<char>)
    ensures
        node_position(nodes, name) <= nodes.len(),
        forall|j: int| 0 <= j < node_position(nodes, name) ==> (#[trigger] nodes[j]).name@ != name,
        node_position(nodes, name) < nodes.len() ==> nodes[node_position(
            nodes,
            name,
        ) as int].name@ == name,
    decreases nodes.len(),
{
    if nodes.len() > 0 && nodes[0].name@ != name {
        let t = nodes.drop_first();
        lemma_node_position(t, name);
        assert forall|j: int| 0 <= j < node_position(nodes, name) implies (
        #[trigger] nodes[j]).name@ != name by {
            if j > 0 {
                assert(nodes[j] == t[j - 1]);
            }
        }
    }
}

/// A message of MIDI show control does what the show's own message of that name
/// does; a timed Go is a Go, and a resume does nothing.
pub proof fn show_control_speaks_for_the_same_commands(
    msc: &mut SharedState,
    own: &mut SharedState,
    qid: String,
    ev: MscEvent,
    same: OscEvent,
    paused: bool,
    recording: bool,
    windows: bool,
    now: Moment,
    reply: OscReply,
)
    requires
        old(msc)@ == old(own)@,
        ({
            ||| ev == (MscEvent::Go { qid }) && same == (OscEvent::Go { qid: Some(qid) })
            ||| ev == (MscEvent::TimedGo { qid }) && same == (OscEvent::Go { qid: Some(qid) })
            ||| ev == MscEvent::Stop && same == OscEvent::Stop
            ||| ev == MscEvent::Resume && same == OscEvent::Other
            ||| ev == MscEvent::Other && same == OscEvent::Other
        }),
        call_ensures(process_msc_event, (msc, ev), ()),
        call_ensures(process_osc_event, (own, same, paused, recording, windows, now), reply),
    ensures
        final(msc)@ == final(own)@,
        ev is Stop ==> final(msc)@.command_queue == old(msc)@.command_queue.push(AppCommand::Stop),
        ev is Go || ev is TimedGo ==> final(msc)@.command_queue == old(msc)@.command_queue.push(
            AppCommand::Go,
        ),
        ev is Resume || ev is Other ==> final(msc)@ == old(msc)@,
{
}

/// A machine tells of itself once a second: as soon as a second has passed
/// since it last did, and not before.
pub proof fn a_machine_tells_of_itself_every_second(
    last: Moment,
    now: Moment,
    r: (bool, Moment),
)
    requires
        call_ensures(discovery_due, (last, now), r),
    ensures
        r.0 == (now >= last + 1_000_000_000),
        r.0 ==> r.1 == now,
        !r.0 ==> r.1 == last,
{
}

/// A machine tells its name to its peers exactly where remote control is on.
pub proof fn a_machine_tells_its_name(settings: &ShowSettings, r: Option<OscMessage>)
    requires
        call_ensures(remote_discovery_message, (settings,), r),
    ensures
        settings.enable_remote_control == (r is Some),
        r matches Some(m) ==> m.addr@ == "/qplayer/remote/discovery"@ && m.args@.len() == 1
            && m.args@[0]@ == trimmed(settings.node_name@),
{
    if let Some(m) = r {
        assert(texts(m.args@).len() == m.args@.len());
        assert(texts(m.args@)[0] == m.args@[0]@);
    }
}

/// Pointing at a cue selects it; pointing at none changes nothing.
pub proof fn pointing_selects(state: &mut SharedState, qid: Option<Qid>)
    requires
        call_ensures(point, (state, qid), ()),
    ensures
        qid is Some ==> final(state)@.selected_cue_id == qid,
        qid is None ==> final(state)@ == old(state)@,
        final(state)@ == (StateView {
            selected_cue_id: final(state)@.selected_cue_id,
            ..old(state)@
        }),
{
}

} // verus!
