//! The show: cues, their triggers, and the settings that decisions read.

use vstd::prelude::*;

use crate::ieee::{Double, Single};
use crate::qid::Qid;

verus! {

/// What starts a cue.
#[derive(Clone, Copy, PartialEq, Eq, Structural, Debug)]
pub enum TriggerMode {
    Go,
    WithLast,
    AfterLast,
}

/// How a cue repeats.
#[derive(Clone, Copy, PartialEq, Eq, Structural, Debug)]
pub enum LoopMode {
    OneShot,
    Looped,
    LoopedInfinite,
    HoldLast,
}

/// The shape of a fade.
#[derive(Clone, Copy, PartialEq, Eq, Structural, Debug)]
pub enum FadeType {
    Linear,
    Square,
    InverseSquare,
    SCurve,
}

/// When a stop cue takes hold.
#[derive(Clone, Copy, PartialEq, Eq, Structural, Debug)]
pub enum StopMode {
    Immediate,
    LoopEnd,
}

/// How a picture fills the canvas.
#[derive(Clone, Copy, PartialEq, Eq, Structural, Debug)]
pub enum CanvasFit {
    Fit,
    Fill,
    Stretch,
}

/// The audio system a stream is opened through; those the decisions never
/// name are told apart by number.
#[derive(Clone, Copy, PartialEq, Eq, Structural, Debug)]
pub enum AudioOutputDriver {
    Auto,
    WASAPI,
    ASIO,
    Other(u8),
}

/// A key that fires a cue.
#[derive(Debug)]
pub struct HotkeyTrigger {
    pub key: String,
}

#[derive(Clone, Copy, PartialEq, Eq, Structural, Debug)]
pub enum MidiTriggerKind {
    NoteOn,
    NoteOff,
    CC,
}

/// A MIDI message that fires a cue, with the least velocity it needs.
#[derive(Clone, Copy, PartialEq, Eq, Structural, Debug)]
pub struct MidiTrigger {
    pub channel: u8,
    pub kind: MidiTriggerKind,
    pub note_or_cc: u8,
    pub velocity_min: u8,
}

/// Whether a time of day counts once or every day.
#[derive(Clone, Copy, PartialEq, Eq, Structural, Debug)]
pub enum RepeatMode {
    Once,
    Daily,
}

/// A time of day that fires a cue.
#[derive(Debug)]
pub struct WallClockTrigger {
    pub time: String,
    pub repeat: RepeatMode,
}

/// A show time that fires a cue.
#[derive(Clone, Copy, PartialEq, Eq, Structural, Debug)]
pub struct TimecodeTrigger {
    pub time: Double,
}

/// Everything beside the cue list that fires a cue.
#[derive(Debug)]
pub struct CueTriggers {
    pub hotkey: Option<HotkeyTrigger>,
    pub midi: Option<MidiTrigger>,
    pub wall_clock: Option<WallClockTrigger>,
    pub timecode: Option<TimecodeTrigger>,
}

/// What all cues have.
#[derive(Debug)]
pub struct CueBase {
    pub qid: Qid,
    /// The group the cue belongs to.
    pub parent: Option<Qid>,
    pub name: String,
    pub enabled: bool,
    pub trigger: TriggerMode,
    pub loop_mode: LoopMode,
    pub loop_count: i32,
    pub triggers: CueTriggers,
}

/// What a cue does.
#[derive(Debug)]
pub enum CueKind {
    Sound {
        path: String,
        start_time: Double,
        duration: Double,
        volume: Single,
        pan: Single,
        fade_in: Single,
        fade_out: Single,
        fade_type: FadeType,
    },
    Video {
        path: String,
        start_time: Double,
        duration: Double,
        volume: Single,
        pan: Single,
        fade_in: Single,
        fade_out: Single,
        fade_type: FadeType,
        follow_mtc: bool,
        mtc_start: Double,
    },
    Stop {
        stop_qid: Qid,
        stop_mode: StopMode,
        fade_out_time: Single,
        fade_type: FadeType,
        stop_all: bool,
    },
    Volume { sound_qid: Qid, fade_time: Single, volume: Single, fade_type: FadeType },
    Group,
    Dummy,
    TimeCode { start_time: Double, duration: Double },
    Network { command: String },
    Text { text: String, font_size: Single, colour: [u8; 4], fit: CanvasFit, font: String },
    Image { path: String, fit: CanvasFit },
    Goto { target_qid: Qid },
    Lighting { fade_time: Single, fade_type: FadeType },
    DmxShow {
        path: String,
        fade_in: Single,
        fade_out: Single,
        fade_type: FadeType,
        priority: u8,
    },
    PixelMap { path: String },
}

/// A cue. `extra` names the part of its content that no decision reads.
#[derive(Debug)]
pub struct Cue {
    pub base: CueBase,
    pub kind: CueKind,
    pub extra: u64,
}

impl Cue {
    pub open spec fn is_group(self) -> bool {
        self.kind is Group
    }

    pub fn group(&self) -> (b: bool)
        ensures
            b == self.is_group(),
    {
        match self.kind {
            CueKind::Group => true,
            _ => false,
        }
    }
}

impl Clone for HotkeyTrigger {
    fn clone(&self) -> (r: Self)
        ensures
            r == *self,
    {
        HotkeyTrigger { key: self.key.clone() }
    }
}

impl Clone for WallClockTrigger {
    fn clone(&self) -> (r: Self)
        ensures
            r == *self,
    {
        WallClockTrigger {
            time: self.time.clone(),
            repeat: self.repeat,
        }
    }
}

impl Clone for CueTriggers {
    fn clone(&self) -> (r: Self)
        ensures
            r == *self,
    {
        CueTriggers {
            hotkey: match &self.hotkey {
                Some(t) => Some(t.clone()),
                None => None,
            },
            midi: self.midi,
            wall_clock: match &self.wall_clock {
                Some(t) => Some(t.clone()),
                None => None,
            },
            timecode: self.timecode,
        }
    }
}

impl Clone for CueBase {
    fn clone(&self) -> (r: Self)
        ensures
            r == *self,
    {
        CueBase {
            qid: self.qid,
            parent: self.parent,
            name: self.name.clone(),
            enabled: self.enabled,
            trigger: self.trigger,
            loop_mode: self.loop_mode,
            loop_count: self.loop_count,
            triggers: self.triggers.clone(),
        }
    }
}

impl Clone for CueKind {
    fn clone(&self) -> (r: Self)
        ensures
            r == *self,
    {
        match self {
            CueKind::Sound {
                path,
                start_time,
                duration,
                volume,
                pan,
                fade_in,
                fade_out,
                fade_type,
            } => CueKind::Sound {
                path: path.clone(),
                start_time: *start_time,
                duration: *duration,
                volume: *volume,
                pan: *pan,
                fade_in: *fade_in,
                fade_out: *fade_out,
                fade_type: *fade_type,
            },
            CueKind::Video {
                path,
                start_time,
                duration,
                volume,
                pan,
                fade_in,
                fade_out,
                fade_type,
                follow_mtc,
                mtc_start,
            } => CueKind::Video {
                path: path.clone(),
                start_time: *start_time,
                duration: *duration,
                volume: *volume,
                pan: *pan,
                fade_in: *fade_in,
                fade_out: *fade_out,
                fade_type: *fade_type,
                follow_mtc: *follow_mtc,
                mtc_start: *mtc_start,
            },
            CueKind::Stop { stop_qid, stop_mode, fade_out_time, fade_type, stop_all } =>
                CueKind::Stop {
                    stop_qid: *stop_qid,
                    stop_mode: *stop_mode,
                    fade_out_time: *fade_out_time,
                    fade_type: *fade_type,
                    stop_all: *stop_all,
                },
            CueKind::Volume { sound_qid, fade_time, volume, fade_type } => CueKind::Volume {
                sound_qid: *sound_qid,
                fade_time: *fade_time,
                volume: *volume,
                fade_type: *fade_type,
            },
            CueKind::Group => CueKind::Group,
            CueKind::Dummy => CueKind::Dummy,
            CueKind::TimeCode { start_time, duration } => CueKind::TimeCode {
                start_time: *start_time,
                duration: *duration,
            },
            CueKind::Network { command } => CueKind::Network { command: command.clone() },
            CueKind::Text { text, font_size, colour, fit, font } => CueKind::Text {
                text: text.clone(),
                font_size: *font_size,
                colour: *colour,
                fit: *fit,
                font: font.clone(),
            },
            CueKind::Image { path, fit } => CueKind::Image { path: path.clone(), fit: *fit },
            CueKind::Goto { target_qid } => CueKind::Goto { target_qid: *target_qid },
            CueKind::Lighting { fade_time, fade_type } => CueKind::Lighting {
                fade_time: *fade_time,
                fade_type: *fade_type,
            },
            CueKind::DmxShow { path, fade_in, fade_out, fade_type, priority } => CueKind::DmxShow {
                path: path.clone(),
                fade_in: *fade_in,
                fade_out: *fade_out,
                fade_type: *fade_type,
                priority: *priority,
            },
            CueKind::PixelMap { path } => CueKind::PixelMap { path: path.clone() },
        }
    }
}

impl Clone for Cue {
    fn clone(&self) -> (r: Self)
        ensures
            r == *self,
    {
        Cue { base: self.base.clone(), kind: self.kind.clone(), extra: self.extra }
    }
}

/// A machine that takes part in the show. Its address is kept as text.
#[derive(Debug)]
pub struct RemoteNode {
    pub name: String,
    pub address: String,
    pub last_seen: Option<u64>,
    pub extra: u64,
}

impl Clone for RemoteNode {
    fn clone(&self) -> (r: Self)
        ensures
            r == *self,
    {
        RemoteNode {
            name: self.name.clone(),
            address: self.address.clone(),
            last_seen: self.last_seen,
            extra: self.extra,
        }
    }
}

/// The settings that decisions read; `extra` names the rest.
#[derive(Debug)]
pub struct ShowSettings {
    pub audio_output_driver: AudioOutputDriver,
    pub audio_output_device: String,
    pub enable_remote_control: bool,
    pub is_remote_host: bool,
    pub node_name: String,
    pub autosave_enabled: bool,
    pub extra: u64,
}

impl Clone for ShowSettings {
    fn clone(&self) -> (r: Self)
        ensures
            r == *self,
    {
        ShowSettings {
            audio_output_driver: self.audio_output_driver,
            audio_output_device: self.audio_output_device.clone(),
            enable_remote_control: self.enable_remote_control,
            is_remote_host: self.is_remote_host,
            node_name: self.node_name.clone(),
            autosave_enabled: self.autosave_enabled,
            extra: self.extra,
        }
    }
}

/// A show as it is saved. `extra` names what no decision reads.
#[derive(Debug)]
pub struct ShowFile {
    pub cues: Vec<Cue>,
    pub show_settings: ShowSettings,
    pub remote_nodes: Vec<RemoteNode>,
    pub extra: u64,
}

#[verifier::ext_equal]
pub struct ShowView {
    pub cues: Seq<Cue>,
    pub show_settings: ShowSettings,
    pub remote_nodes: Seq<RemoteNode>,
    pub extra: u64,
}

impl View for ShowFile {
    type V = ShowView;

    open spec fn view(&self) -> ShowView {
        ShowView {
            cues: self.cues@,
            show_settings: self.show_settings,
            remote_nodes: self.remote_nodes@,
            extra: self.extra,
        }
    }
}

pub fn clone_cues(cues: &Vec<Cue>) -> (r: Vec<Cue>)
    ensures
        r@ == cues@,
{
    let mut r: Vec<Cue> = Vec::new();
    let mut i: usize = 0;
    while i < cues.len()
        invariant
            i <= cues@.len(),
            r@ == cues@.take(i as int),
        decreases cues@.len() - i,
    {
        r.push(cues[i].clone());
        assert(cues@.take(i + 1) =~= cues@.take(i as int).push(cues@[i as int]));
        i = i + 1;
    }
    assert(cues@.take(i as int) =~= cues@);
    r
}

fn clone_nodes(nodes: &Vec<RemoteNode>) -> (r: Vec<RemoteNode>)
    ensures
        r@ == nodes@,
{
    let mut r: Vec<RemoteNode> = Vec::new();
    let mut i: usize = 0;
    while i < nodes.len()
        invariant
            i <= nodes@.len(),
            r@ == nodes@.take(i as int),
        decreases nodes@.len() - i,
    {
        r.push(nodes[i].clone());
        assert(nodes@.take(i + 1) =~= nodes@.take(i as int).push(nodes@[i as int]));
        i = i + 1;
    }
    assert(nodes@.take(i as int) =~= nodes@);
    r
}

impl Clone for ShowFile {
    fn clone(&self) -> (r: Self)
        ensures
            r@ == self@,
    {
        ShowFile {
            cues: clone_cues(&self.cues),
            show_settings: self.show_settings.clone(),
            remote_nodes: clone_nodes(&self.remote_nodes),
            extra: self.extra,
        }
    }
}

/// Whether `s` is what a new show's settings are.
pub open spec fn default_settings(s: ShowSettings) -> bool {
    &&& s.audio_output_driver == AudioOutputDriver::Auto
    &&& s.audio_output_device@ == ""@
    &&& !s.enable_remote_control
    &&& !s.is_remote_host
    &&& s.node_name@ == ""@
    &&& !s.autosave_enabled
    &&& s.extra == 0
}

/// Whether `s` is an empty show.
pub open spec fn default_show(s: ShowView) -> bool {
    &&& s.cues == Seq::<Cue>::empty()
    &&& default_settings(s.show_settings)
    &&& s.remote_nodes == Seq::<RemoteNode>::empty()
    &&& s.extra == 0
}

impl Default for ShowFile {
    fn default() -> (r: Self)
        ensures
            default_show(r@),
    {
        ShowFile {
            cues: Vec::new(),
            show_settings: ShowSettings {
                audio_output_driver: AudioOutputDriver::Auto,
                audio_output_device: "".to_owned(),
                enable_remote_control: false,
                is_remote_host: false,
                node_name: "".to_owned(),
                autosave_enabled: false,
                extra: 0,
            },
            remote_nodes: Vec::new(),
            extra: 0,
        }
    }
}

/// The position of the first cue numbered `id`, or the number of cues.
pub open spec fn position(cues: Seq<Cue>, id: (int, nat)) -> nat
    decreases cues.len(),
{
    if cues.len() == 0 || cues[0].base.qid@ == id {
        0
    } else {
        1 + position(cues.drop_first(), id)
    }
}

pub proof fn lemma_position(cues: Seq<Cue>, id: (int, nat))
    ensures
        position(cues, id) <= cues.len(),
        forall|j: int| 0 <= j < position(cues, id) ==> (#[trigger] cues[j]).base.qid@ != id,
        position(cues, id) < cues.len() ==> cues[position(cues, id) as int].base.qid@ == id,
    decreases cues.len(),
{
    if cues.len() > 0 && cues[0].base.qid@ != id {
        let t = cues.drop_first();
        lemma_position(t, id);
        assert forall|j: int| 0 <= j < position(cues, id) implies (
        #[trigger] cues[j]).base.qid@ != id by {
            if j > 0 {
                assert(cues[j] == t[j - 1]);
            }
        }
    }
}

/// Whether a cue is numbered `id`.
pub open spec fn has_cue(cues: Seq<Cue>, id: (int, nat)) -> bool {
    exists|i: int| 0 <= i < cues.len() && (#[trigger] cues[i]).base.qid@ == id
}

pub proof fn lemma_has_cue(cues: Seq<Cue>, id: (int, nat))
    ensures
        has_cue(cues, id) == (position(cues, id) < cues.len()),
{
    lemma_position(cues, id);
    if position(cues, id) < cues.len() {
        assert(cues[position(cues, id) as int].base.qid@ == id);
    }
}

/// The position of the first cue numbered `id`.
pub fn find_cue(cues: &Vec<Cue>, id: &Qid) -> (r: Option<usize>)
    ensures
        match r {
            Some(i) => i < cues@.len() && i == position(cues@, id@) && cues@[i as int].base.qid@
                == id@,
            None => position(cues@, id@) == cues@.len() && !has_cue(cues@, id@),
        },
        r is Some == has_cue(cues@, id@),
{
    let mut i: usize = 0;
    while i < cues.len()
        invariant
            i <= cues@.len(),
            forall|j: int| 0 <= j < i ==> (#[trigger] cues@[j]).base.qid@ != id@,
        decreases cues@.len() - i,
    {
        if cues[i].base.qid.same(id) {
            proof {
                lemma_position(cues@, id@);
                lemma_has_cue(cues@, id@);
                if position(cues@, id@) < i {
                    assert(cues@[position(cues@, id@) as int].base.qid@ == id@);
                }
            }
            return Some(i);
        }
        i = i + 1;
    }
    proof {
        lemma_position(cues@, id@);
        lemma_has_cue(cues@, id@);
        if position(cues@, id@) < cues@.len() {
            assert(cues@[position(cues@, id@) as int].base.qid@ == id@);
        }
    }
    None
}

/// No two cues have the same number.
pub open spec fn numbers_unique(cues: Seq<Cue>) -> bool {
    forall|i: int, j: int|
        0 <= i < j < cues.len() ==> (#[trigger] cues[i]).base.qid@ != (
        #[trigger] cues[j]).base.qid@
}

/// A cue is found at the first row that has its number; a group is told from
/// every other kind, and a copy of a list is the list.
pub proof fn cues_are_found_by_number(
    cues: &Vec<Cue>,
    id: &Qid,
    r: Option<usize>,
    copy: Vec<Cue>,
    cue: &Cue,
    g: bool,
)
    requires
        call_ensures(find_cue, (cues, id), r),
        call_ensures(clone_cues, (cues,), copy),
        call_ensures(Cue::group, (cue,), g),
    ensures
        r is Some ==> r->0 < cues@.len() && cues@[r->0 as int].base.qid@ == id@ && forall|j: int|
            0 <= j < r->0 ==> (#[trigger] cues@[j]).base.qid@ != id@,
        r is None ==> forall|j: int|
            0 <= j < cues@.len() ==> (#[trigger] cues@[j]).base.qid@ != id@,
        copy@ == cues@,
        g <==> cue.kind is Group,
{
    lemma_position(cues@, id@);
    lemma_has_cue(cues@, id@);
}

} // verus!
