//! What goes out on the wire: which outputs are open, which channels each
//! destination's fixtures own, and which layers are merged for it.

use vstd::prelude::*;

use rustjay_lighting::MaskedFrame;

use crate::ieee::Single;
use crate::lighting::{
    envelopes_of, newly_ended, plan_opt, Envelope, LightingEngine, LightingProtocol, LightingView,
    OutputPlan, PlanView, ShowClock,
};
use crate::state::Moment;
use crate::text::{chars_of, same, texts, trim, trimmed};

verus! {

/// The channels of a universe.
pub const UNIVERSE_SIZE: u16 = 512;

/// The owned channels of a frame, by universe and channel (counted from zero),
/// with their values.
pub uninterp spec fn frame_channels(frame: MaskedFrame) -> Map<(u16, u16), u8>;

/// The universes of a frame.
pub uninterp spec fn frame_universes(frame: MaskedFrame) -> Set<u16>;

#[verifier::ext_equal]
pub struct FrameView {
    pub channels: Map<(u16, u16), u8>,
    pub universes: Set<u16>,
}

pub open spec fn frame_view(frame: MaskedFrame) -> FrameView {
    FrameView { channels: frame_channels(frame), universes: frame_universes(frame) }
}

/// The channel, counted from zero, behind a DMX address.
pub open spec fn first_channel(address: u16) -> int {
    if address > 1 {
        address - 1
    } else {
        0
    }
}

/// Where a fixture of this footprint stands when it is the `k`th of a row that
/// starts at `universe` and `address`: as many to a universe as fit whole.
pub open spec fn fixture_place(footprint: int, universe: u16, address: u16, k: int) -> (u16, int) {
    let start = first_channel(address);
    let room = if start + footprint > UNIVERSE_SIZE {
        0
    } else {
        (UNIVERSE_SIZE - start) / footprint
    };
    let per = UNIVERSE_SIZE as int / footprint;
    if k < room {
        (universe, start + k * footprint)
    } else {
        (((universe + 1 + (k - room) / per) % 0x1_0000) as u16, ((k - room) % per) * footprint)
    }
}

impl FrameView {
    pub open spec fn empty() -> FrameView {
        FrameView { channels: Map::empty(), universes: Set::empty() }
    }

    /// The frame once these values stand from an address on; what lies past
    /// the end of the universe is left out.
    pub open spec fn span_written(self, universe: u16, address: u16, bytes: Seq<u8>) -> FrameView {
        let start = first_channel(address);
        FrameView {
            channels: self.channels.union_prefer_right(
                Map::new(
                    |at: (u16, u16)|
                        at.0 == universe && start <= at.1 < UNIVERSE_SIZE && at.1 < start
                            + bytes.len(),
                    |at: (u16, u16)| bytes[at.1 - start],
                ),
            ),
            universes: self.universes.insert(universe),
        }
    }

    /// The frame once the first `n` values of a row of fixtures stand in it.
    pub open spec fn row_packed(
        self,
        footprint: int,
        data: Seq<u8>,
        universe: u16,
        address: u16,
        n: int,
    ) -> FrameView
        decreases n,
    {
        if n <= 0 {
            self
        } else {
            let before = self.row_packed(footprint, data, universe, address, n - 1);
            let place = fixture_place(footprint, universe, address, (n - 1) / footprint);
            FrameView {
                channels: before.channels.insert(
                    (place.0, (place.1 + (n - 1) % footprint) as u16),
                    data[n - 1],
                ),
                universes: before.universes.insert(place.0),
            }
        }
    }
}

impl FrameView {
    /// The frame once a row of fixtures stands in it. A footprint that fits no
    /// universe adds nothing.
    pub open spec fn row_added(
        self,
        footprint: usize,
        data: Seq<u8>,
        universe: u16,
        address: u16,
    ) -> FrameView {
        if 0 < footprint <= UNIVERSE_SIZE {
            self.row_packed(footprint as int, data, universe, address, data.len() as int)
        } else {
            self
        }
    }
}

/// A frame that owns nothing, by the `Default` of
/// `rustjay_lighting::MaskedFrame`.
#[verifier::external_body]
fn empty_frame() -> (frame: MaskedFrame)
    ensures
        frame_channels(frame) == FrameView::empty().channels,
        frame_universes(frame) == FrameView::empty().universes,
{
    MaskedFrame::default()
}

/// Writes values from a DMX address on, by
/// `rustjay_lighting::MaskedFrame::write_span`: those channels are owned and
/// hold the values, up to the end of the universe, which is then in the frame.
#[verifier::external_body]
fn write_span(frame: &mut MaskedFrame, universe: u16, address: u16, bytes: &Vec<u8>)
    ensures
        frame_channels(*final(frame)) == frame_view(*old(frame)).span_written(
            universe,
            address,
            bytes@,
        ).channels,
        frame_universes(*final(frame)) == frame_view(*old(frame)).span_written(
            universe,
            address,
            bytes@,
        ).universes,
{
    frame.write_span(universe, address, bytes);
}

/// Writes a row of fixtures, by
/// `rustjay_lighting::MaskedFrame::pack_fixtures`: none is split over two
/// universes, and a footprint that fits no universe writes nothing.
#[verifier::external_body]
fn pack_fixtures(
    frame: &mut MaskedFrame,
    footprint: usize,
    data: &Vec<u8>,
    universe: u16,
    address: u16,
)
    ensures
        frame_channels(*final(frame)) == frame_view(*old(frame)).row_added(
            footprint,
            data@,
            universe,
            address,
        ).channels,
        frame_universes(*final(frame)) == frame_view(*old(frame)).row_added(
            footprint,
            data@,
            universe,
            address,
        ).universes,
{
    frame.pack_fixtures(footprint, data, universe, address);
}

/// The corner at which a segment's wiring starts.
#[derive(Clone, Copy, PartialEq, Eq, Structural, Debug)]
pub enum Corner {
    TopLeft,
    TopRight,
    BottomLeft,
    BottomRight,
}

/// The direction in which a segment's wiring runs first.
#[derive(Clone, Copy, PartialEq, Eq, Structural, Debug)]
pub enum Axis {
    Horizontal,
    Vertical,
}

/// How a segment is wired.
#[derive(Clone, Copy, PartialEq, Eq, Structural, Debug)]
pub struct ScanOrder {
    pub start_corner: Corner,
    pub serpentine: bool,
    pub primary: Axis,
}

impl ScanOrder {
    pub open spec fn from_left(self) -> bool {
        self.start_corner == Corner::TopLeft || self.start_corner == Corner::BottomLeft
    }

    pub open spec fn from_top(self) -> bool {
        self.start_corner == Corner::TopLeft || self.start_corner == Corner::TopRight
    }

    /// The column and row of the `n`th pixel along the wire.
    pub open spec fn place(self, cols: int, rows: int, n: int) -> (int, int) {
        if self.primary == Axis::Horizontal {
            let (row, col) = (n / cols, n % cols);
            let back = self.serpentine && row % 2 == 1;
            (
                if self.from_left() != back {
                    col
                } else {
                    cols - 1 - col
                },
                if self.from_top() {
                    row
                } else {
                    rows - 1 - row
                },
            )
        } else {
            let (col, row) = (n / rows, n % rows);
            let back = self.serpentine && col % 2 == 1;
            (
                if self.from_left() {
                    col
                } else {
                    cols - 1 - col
                },
                if self.from_top() != back {
                    row
                } else {
                    rows - 1 - row
                },
            )
        }
    }
}

/// At least one column or row.
pub open spec fn at_least_one(n: u32) -> int {
    if n > 1 {
        n as int
    } else {
        1
    }
}

/// Whether pixels of this size can be addressed: four bytes each, counted in
/// 32 bits, and none that lacks just its last byte.
pub open spec fn addressable(rgba: Seq<u8>, cols: u32, rows: u32) -> bool {
    at_least_one(cols) * at_least_one(rows) * 4 <= u32::MAX && rgba.len() % 4 != 3
}

/// The four bytes of the pixel at a column and row, or black where there is
/// none.
pub open spec fn pixel_at(rgba: Seq<u8>, cols: u32, at: (int, int)) -> Seq<u8> {
    let i = (at.1 * cols + at.0) * 4;
    if i + 4 <= rgba.len() {
        rgba.subrange(i, i + 4)
    } else {
        seq![0u8, 0u8, 0u8, 255u8]
    }
}

/// A segment's pixels along its wire, by `rustjay_lighting::demux_tile` on the
/// whole picture.
#[verifier::external_body]
fn demux(rgba: &Vec<u8>, cols: u32, rows: u32, order: ScanOrder) -> (r: Vec<[u8; 4]>)
    requires
        addressable(rgba@, cols, rows),
    ensures
        r@.len() == at_least_one(cols) * at_least_one(rows),
        forall|n: int|
            0 <= n < r@.len() ==> (#[trigger] r@[n])@ == pixel_at(
                rgba@,
                cols,
                order.place(at_least_one(cols), at_least_one(rows), n),
            ),
{
    let start_corner = match order.start_corner {
        Corner::TopLeft => rustjay_lighting::Corner::TopLeft,
        Corner::TopRight => rustjay_lighting::Corner::TopRight,
        Corner::BottomLeft => rustjay_lighting::Corner::BottomLeft,
        Corner::BottomRight => rustjay_lighting::Corner::BottomRight,
    };
    let primary = match order.primary {
        Axis::Horizontal => rustjay_lighting::Axis::Horizontal,
        Axis::Vertical => rustjay_lighting::Axis::Vertical,
    };
    let order = rustjay_lighting::ScanOrder { start_corner, serpentine: order.serpentine, primary };
    rustjay_lighting::demux_tile(rgba, cols, [0, 0], [cols, rows], order)
}

/// A segment's pixels along its wire, blue first as the colour pipeline takes
/// them; the sampler delivers red first.
pub fn segment_colours(rgba: &Vec<u8>, cols: u32, rows: u32, order: ScanOrder) -> (r: Vec<[u8; 4]>)
    requires
        addressable(rgba@, cols, rows),
    ensures
        r@.len() == at_least_one(cols) * at_least_one(rows),
        forall|n: int|
            0 <= n < r@.len() ==> (#[trigger] r@[n])@ == ({
                let p = pixel_at(
                    rgba@,
                    cols,
                    order.place(at_least_one(cols), at_least_one(rows), n),
                );
                seq![p[2], p[1], p[0], p[3]]
            }),
{
    let pixels: Vec<[u8; 4]> = demux(rgba, cols, rows, order);
    let mut r: Vec<[u8; 4]> = Vec::new();
    let mut i: usize = 0;
    while i < pixels.len()
        invariant
            i <= pixels@.len(),
            r@.len() == i,
            forall|n: int|
                0 <= n < i ==> (#[trigger] r@[n])@ == seq![
                    pixels@[n]@[2],
                    pixels@[n]@[1],
                    pixels@[n]@[0],
                    pixels@[n]@[3],
                ],
        decreases pixels@.len() - i,
    {
        let p: [u8; 4] = pixels[i];
        r.push([p[2], p[1], p[0], p[3]]);
        assert(r@[i as int]@ =~= seq![
            pixels@[i as int]@[2],
            pixels@[i as int]@[1],
            pixels@[i as int]@[0],
            pixels@[i as int]@[3],
        ]);
        i = i + 1;
    }
    r
}


/// A fixture in the patch: its address, and the destination it is patched to.
pub struct FixturePatch {
    pub id: u32,
    pub universe: u16,
    pub address: u16,
    pub dest: String,
}

/// A pixel-map segment in the patch.
pub struct SegmentPatch {
    pub id: u32,
    pub universe: u16,
    pub address: u16,
}

/// The lighting settings of a project. Segments that are switched off are not
/// among its segments.
pub struct LightingConfig {
    pub enabled: bool,
    pub protocol: LightingProtocol,
    pub dest_ip: String,
    pub fps: Single,
    /// The priority of the cue looks among the layers.
    pub look_priority: u8,
    pub fixtures: Vec<FixturePatch>,
    pub segments: Vec<SegmentPatch>,
}

/// Whether `a` comes before `b`, character by character.
pub open spec fn precedes(a: Seq<char>, b: Seq<char>) -> bool
    decreases a.len(),
{
    if b.len() == 0 {
        false
    } else if a.len() == 0 {
        true
    } else if a[0] != b[0] {
        (a[0] as int) < (b[0] as int)
    } else {
        precedes(a.drop_first(), b.drop_first())
    }
}

/// `s` with `x` in its place, once.
pub open spec fn inserted(s: Seq<Seq<char>>, x: Seq<char>) -> Seq<Seq<char>>
    decreases s.len(),
{
    if s.len() == 0 {
        seq![x]
    } else if s[0] == x {
        s
    } else if precedes(x, s[0]) {
        seq![x] + s
    } else {
        seq![s[0]] + inserted(s.drop_first(), x)
    }
}

/// The destinations of the first `n` fixtures, in order, each once.
pub open spec fn fixture_dests(fixtures: Seq<FixturePatch>, n: int) -> Seq<Seq<char>>
    decreases n,
{
    if n <= 0 {
        Seq::empty()
    } else {
        inserted(fixture_dests(fixtures, n - 1), fixtures[n - 1].dest@)
    }
}

impl LightingConfig {
    /// The destination of what is not patched elsewhere.
    pub open spec fn default_dest(self) -> Seq<char> {
        trimmed(self.dest_ip@)
    }

    /// What the outputs are to be opened for: one for each destination.
    pub open spec fn wanted(self) -> Option<PlanView> {
        if self.enabled {
            Some(
                PlanView {
                    protocol: self.protocol,
                    dests: inserted(
                        fixture_dests(self.fixtures@, self.fixtures@.len() as int),
                        self.default_dest(),
                    ),
                    fps: self.fps,
                },
            )
        } else {
            None
        }
    }
}

fn comes_before(a: &Vec<char>, b: &Vec<char>) -> (r: bool)
    ensures
        r == precedes(a@, b@),
{
    let mut i: usize = 0;
    assert(a@.skip(0) =~= a@);
    assert(b@.skip(0) =~= b@);
    while i < a.len() && i < b.len() && a[i] == b[i]
        invariant
            i <= a@.len(),
            i <= b@.len(),
            precedes(a@, b@) == precedes(a@.skip(i as int), b@.skip(i as int)),
        decreases a@.len() - i,
    {
        assert(a@.skip(i as int).drop_first() =~= a@.skip(i + 1));
        assert(b@.skip(i as int).drop_first() =~= b@.skip(i + 1));
        i = i + 1;
    }
    if i >= b.len() {
        false
    } else if i >= a.len() {
        true
    } else {
        let x: char = a[i];
        let y: char = b[i];
        assert(a@.skip(i as int)[0] == x);
        assert(b@.skip(i as int)[0] == y);
        x < y
    }
}

fn insert_text(v: &mut Vec<String>, x: &str)
    ensures
        texts(final(v)@) == inserted(texts(old(v)@), x@),
{
    let ghost start = texts(v@);
    let key: Vec<char> = chars_of(x);
    let mut i: usize = 0;
    assert(start.skip(0) =~= start);
    assert(start.take(0) + inserted(start.skip(0), x@) =~= inserted(start, x@));
    while i < v.len() && !same(v[i].as_str(), x) && !comes_before(
        &key,
        &chars_of(v[i].as_str()),
    )
        invariant
            key@ == x@,
            texts(v@) == start,
            i <= v@.len(),
            inserted(start, x@) == start.take(i as int) + inserted(start.skip(i as int), x@),
        decreases v@.len() - i,
    {
        assert(start[i as int] == v@[i as int]@);
        assert(start.skip(i as int)[0] == start[i as int]);
        assert(start.skip(i as int).drop_first() =~= start.skip(i + 1));
        assert(start.take(i as int) + (seq![start[i as int]] + inserted(start.skip(i + 1), x@))
            =~= start.take(i + 1) + inserted(start.skip(i + 1), x@));
        i = i + 1;
    }
    if i < v.len() && same(v[i].as_str(), x) {
        assert(start[i as int] == v@[i as int]@);
        assert(start.skip(i as int)[0] == start[i as int]);
        assert(start.take(i as int) + start.skip(i as int) =~= start);
        return ;
    }
    proof {
        if i < v@.len() {
            assert(start[i as int] == v@[i as int]@);
            assert(start.skip(i as int)[0] == start[i as int]);
        }
    }
    let ghost before = v@;
    v.insert(i, x.to_owned());
    assert(texts(v@) =~= start.take(i as int) + (seq![x@] + start.skip(i as int)));
    assert(i == start.len() ==> start.skip(i as int) =~= Seq::<Seq<char>>::empty());
    assert(i == start.len() ==> seq![x@] + start.skip(i as int) =~= seq![x@]);
}

/// What the outputs are to be opened for.
pub fn wanted_outputs(cfg: &LightingConfig) -> (r: Option<OutputPlan>)
    ensures
        plan_opt(r) == cfg.wanted(),
{
    if !cfg.enabled {
        return None;
    }
    let mut dests: Vec<String> = Vec::new();
    let mut i: usize = 0;
    assert(texts(dests@) =~= fixture_dests(cfg.fixtures@, 0));
    while i < cfg.fixtures.len()
        invariant
            i <= cfg.fixtures@.len(),
            texts(dests@) == fixture_dests(cfg.fixtures@, i as int),
        decreases cfg.fixtures@.len() - i,
    {
        insert_text(&mut dests, cfg.fixtures[i].dest.as_str());
        i = i + 1;
    }
    insert_text(&mut dests, trim(cfg.dest_ip.as_str()));
    Some(OutputPlan { protocol: cfg.protocol, dests, fps: cfg.fps })
}

/// Where an output sends to.
pub enum Destination {
    Multicast,
    Broadcast,
    /// To be read as an address.
    Address(String),
}

/// Where an output sends to: the protocol's own way where no address is named.
pub fn destination(dest: &str, protocol: LightingProtocol) -> (r: Destination)
    ensures
        match r {
            Destination::Multicast => dest@.len() == 0 && protocol == LightingProtocol::Sacn,
            Destination::Broadcast => dest@.len() == 0 && protocol == LightingProtocol::ArtNet,
            Destination::Address(a) => dest@.len() > 0 && a@ == dest@,
        },
{
    if chars_of(dest).len() == 0 {
        match protocol {
            LightingProtocol::Sacn => Destination::Multicast,
            LightingProtocol::ArtNet => Destination::Broadcast,
        }
    } else {
        Destination::Address(dest.to_owned())
    }
}

/// Whether two lists hold the same texts in the same order.
fn same_texts(a: &Vec<String>, b: &Vec<String>) -> (r: bool)
    ensures
        r == (texts(a@) == texts(b@)),
{
    if a.len() != b.len() {
        assert(texts(a@).len() != texts(b@).len());
        return false;
    }
    let mut i: usize = 0;
    while i < a.len()
        invariant
            i <= a@.len(),
            a@.len() == b@.len(),
            forall|j: int| 0 <= j < i ==> texts(a@)[j] == texts(b@)[j],
        decreases a@.len() - i,
    {
        if !same(a[i].as_str(), b[i].as_str()) {
            assert(texts(a@)[i as int] != texts(b@)[i as int]);
            return false;
        }
        assert(texts(a@)[i as int] == texts(b@)[i as int]);
        i = i + 1;
    }
    assert(texts(a@) =~= texts(b@));
    true
}

fn same_plan(a: &Option<OutputPlan>, b: &Option<OutputPlan>) -> (r: bool)
    ensures
        r == (plan_opt(*a) == plan_opt(*b)),
{
    match (a, b) {
        (Some(a), Some(b)) => a.protocol == b.protocol && a.fps == b.fps && same_texts(
            &a.dests,
            &b.dests,
        ),
        (None, None) => true,
        _ => false,
    }
}

fn copy_texts(v: &Vec<String>) -> (r: Vec<String>)
    ensures
        texts(r@) == texts(v@),
{
    let mut r: Vec<String> = Vec::new();
    let mut i: usize = 0;
    while i < v.len()
        invariant
            i <= v@.len(),
            r@.len() == i,
            forall|j: int| 0 <= j < i ==> (#[trigger] r@[j])@ == v@[j]@,
        decreases v@.len() - i,
    {
        r.push(v[i].as_str().to_owned());
        i = i + 1;
    }
    assert(texts(r@) =~= texts(v@));
    r
}

/// A sixtieth of a second, by its bits.
pub const TICK_SECONDS: u32 = 0x3c88_8889;

impl LightingView {
    /// Whether something moves.
    pub open spec fn animating(self) -> bool {
        !(self.fades.dom() =~= Set::<u32>::empty()) || self.shows.len() > 0
    }
}

/// Where a layer of an output comes from.
#[derive(Clone, Copy, PartialEq, Eq, Structural, Debug)]
pub enum LayerSource {
    /// The cue looks at this destination.
    Looks,
    /// The recorded show at this position.
    Show(usize),
    Overlay,
}

#[derive(Clone, Copy, PartialEq, Eq, Structural, Debug)]
pub struct Layer {
    pub priority: u8,
    pub source: LayerSource,
}

/// The layers of the first `n` shows, of those that still play.
pub open spec fn show_layers(
    e: LightingView,
    envelopes: Seq<Option<Envelope>>,
    n: int,
) -> Seq<Layer>
    decreases n,
{
    if n <= 0 {
        Seq::empty()
    } else if envelopes[n - 1] is Some {
        show_layers(e, envelopes, n - 1).push(
            Layer {
                priority: e.shows[n - 1].priority,
                source: LayerSource::Show((n - 1) as usize),
            },
        )
    } else {
        show_layers(e, envelopes, n - 1)
    }
}

/// The layers of an output, the lower first: the looks where it has any, and at
/// the default destination the shows and what lies over them.
pub open spec fn layers_of(
    e: LightingView,
    envelopes: Seq<Option<Envelope>>,
    look: Option<u8>,
    default: bool,
) -> Seq<Layer> {
    let looks = match look {
        Some(priority) => seq![Layer { priority, source: LayerSource::Looks }],
        None => Seq::empty(),
    };
    let over = match e.overlay {
        Some((priority, _)) => seq![Layer { priority, source: LayerSource::Overlay }],
        None => Seq::empty(),
    };
    if default {
        looks + show_layers(e, envelopes, envelopes.len() as int) + over
    } else {
        looks
    }
}

/// The identities of segments.
pub open spec fn segment_ids(segments: Seq<SegmentPatch>) -> Set<u32> {
    Set::new(|id: u32| exists|i: int| 0 <= i < segments.len() && segments[i].id == id)
}

fn has_segment(segments: &Vec<SegmentPatch>, id: u32) -> (b: bool)
    ensures
        b == segment_ids(segments@).contains(id),
{
    let mut i: usize = 0;
    while i < segments.len()
        invariant
            i <= segments@.len(),
            forall|j: int| 0 <= j < i ==> (#[trigger] segments@[j]).id != id,
        decreases segments@.len() - i,
    {
        if segments[i].id == id {
            return true;
        }
        i = i + 1;
    }
    false
}

impl LightingEngine {
    /// Whether a tick is due: not within a sixtieth of a second of the last,
    /// `elapsed` seconds ago. The time of one that is due is kept.
    pub fn tick_due(&mut self, elapsed: Single, now: Moment) -> (b: bool)
        ensures
            b == !(old(self)@.last_tick is Some && elapsed.less(Single { bits: TICK_SECONDS })),
            final(self)@ == (if b {
                LightingView { last_tick: Some(now), ..old(self)@ }
            } else {
                old(self)@
            }),
    {
        if self.last_tick.is_some() && elapsed.lt(Single { bits: TICK_SECONDS }) {
            return false;
        }
        self.last_tick = Some(now);
        true
    }

    /// Hold the open outputs against the settings. Where they differ, the open
    /// ones are to be closed and the listed ones opened.
    pub fn reconcile_sender(&mut self, cfg: &LightingConfig) -> (r: Option<Vec<String>>)
        ensures
            r is Some == (old(self)@.applied != cfg.wanted()),
            r matches Some(open) ==> texts(open@) == (match cfg.wanted() {
                Some(plan) => plan.dests,
                None => Seq::empty(),
            }),
            final(self)@ == (if r is Some {
                LightingView { applied: cfg.wanted(), senders: Seq::empty(), ..old(self)@ }
            } else {
                old(self)@
            }),
    {
        let wanted: Option<OutputPlan> = wanted_outputs(cfg);
        if same_plan(&wanted, &self.applied) {
            return None;
        }
        let open: Vec<String> = match &wanted {
            Some(plan) => copy_texts(&plan.dests),
            None => Vec::new(),
        };
        assert(wanted is None ==> texts(open@) =~= Seq::<Seq<char>>::empty());
        self.senders = Vec::new();
        self.applied = wanted;
        assert(texts(self.senders@) =~= Seq::<Seq<char>>::empty());
        Some(open)
    }

    /// An output was opened; it is to get the present state.
    pub fn sender_opened(&mut self, dest: &str)
        ensures
            final(self)@ == (LightingView {
                senders: inserted(old(self)@.senders, dest@),
                dirty: true,
                ..old(self)@
            }),
    {
        insert_text(&mut self.senders, dest);
        self.dirty = true;
    }

    /// Whether a frame is to be made: an output is open, and something moves or
    /// has changed.
    pub fn frame_due(&self) -> (b: bool)
        ensures
            b == (self@.senders.len() > 0 && (self@.animating() || self@.dirty)),
    {
        self.senders.len() > 0 && (!self.fades.is_empty() || self.shows.len() > 0 || self.dirty)
    }

    /// Forget the pixels of segments that are gone or switched off: their
    /// channels go back to the looks, and no old picture comes up when one is
    /// switched on again.
    pub fn retain_segments(&mut self, cfg: &LightingConfig)
        ensures
            final(self)@ == (LightingView {
                segment_pixels: old(self)@.segment_pixels.restrict(segment_ids(cfg.segments@)),
                ..old(self)@
            }),
    {
        let ghost start = self@;
        let mut gone: Vec<u32> = Vec::new();
        let mut i: usize = 0;
        let ids: Vec<u32> = self.segment_pixels.keys();
        while i < ids.len()
            invariant
                i <= ids@.len(),
                self@ == start,
                forall|j: int|
                    0 <= j < i ==> segment_ids(cfg.segments@).contains(
                        #[trigger] ids@[j],
                    ) || gone@.contains(ids@[j]),
                forall|j: int|
                    0 <= j < gone@.len() ==> !segment_ids(cfg.segments@).contains(
                        #[trigger] gone@[j],
                    ),
            decreases ids@.len() - i,
        {
            let id: u32 = ids[i];
            if !has_segment(&cfg.segments, id) {
                let ghost before = gone@;
                gone.push(id);
                assert(gone@[before.len() as int] == id);
                assert forall|j: int| 0 <= j < i implies segment_ids(cfg.segments@).contains(
                    #[trigger] ids@[j],
                ) || gone@.contains(ids@[j]) by {
                    let k = ids@[j];
                    if before.contains(k) {
                        let x = choose|x: int| 0 <= x < before.len() && before[x] == k;
                        assert(gone@[x] == k);
                    }
                }
            }
            i = i + 1;
        }
        proof {
            assert forall|k: u32| #[trigger] start.segment_pixels.contains_key(k) implies segment_ids(
                cfg.segments@,
            ).contains(k) || gone@.contains(k) by {
                let r = choose|r: int| 0 <= r < ids@.len() && ids@[r] == k;
                assert(ids@[r] == k);
            }
        }
        let mut j: usize = 0;
        assert(gone@.take(0) =~= Seq::<u32>::empty());
        while j < gone.len()
            invariant
                j <= gone@.len(),
                self@.live == start.live,
                self@.fades == start.fades,
                self@.shows == start.shows,
                self@.overlay == start.overlay,
                self@.finished_shows == start.finished_shows,
                self@.dirty == start.dirty,
                self@.last_tick == start.last_tick,
                self@.applied == start.applied,
                self@.senders == start.senders,
                forall|k: u32| #[trigger]
                    self@.segment_pixels.contains_key(k) == (start.segment_pixels.contains_key(k)
                        && !gone@.take(j as int).contains(k)),
                forall|k: u32| #[trigger]
                    self@.segment_pixels.contains_key(k) ==> self@.segment_pixels[k]
                        == start.segment_pixels[k],
            decreases gone@.len() - j,
        {
            let ghost before = self@.segment_pixels;
            let id: u32 = gone[j];
            self.segment_pixels.remove(id);
            proof {
                assert(gone@.take(j + 1) =~= gone@.take(j as int).push(id));
                assert forall|k: u32| #[trigger]
                    self@.segment_pixels.contains_key(k) == (start.segment_pixels.contains_key(k)
                        && !gone@.take(j + 1).contains(k)) by {
                    let t = gone@.take(j as int);
                    assert(t.push(id)[t.len() as int] == id);
                    if t.contains(k) {
                        let x = choose|x: int| 0 <= x < t.len() && t[x] == k;
                        assert(t.push(id)[x] == k);
                    }
                    assert(before.contains_key(k) == (start.segment_pixels.contains_key(k)
                        && !t.contains(k)));
                }
            }
            j = j + 1;
        }
        proof {
            assert(gone@.take(j as int) =~= gone@);
            assert forall|k: u32| segment_ids(cfg.segments@).contains(k) implies !gone@.contains(
                k,
            ) by {
                if gone@.contains(k) {
                    let x = choose|x: int| 0 <= x < gone@.len() && gone@[x] == k;
                    assert(!segment_ids(cfg.segments@).contains(gone@[x]));
                }
            }
            assert(self@.segment_pixels =~= start.segment_pixels.restrict(
                segment_ids(cfg.segments@),
            ));
        }
    }

    /// The layers of an output: `look` is the priority of its cue looks, where
    /// it has any, and `default` tells whether it is the default destination.
    pub fn layers(&self, envelopes: &Vec<Option<Envelope>>, look: Option<u8>, default: bool) -> (r:
        Vec<Layer>)
        requires
            envelopes@.len() == self@.shows.len(),
        ensures
            r@ == layers_of(self@, envelopes@, look, default),
    {
        let mut r: Vec<Layer> = Vec::new();
        if let Some(priority) = look {
            r.push(Layer { priority, source: LayerSource::Looks });
        }
        let ghost looks = r@;
        assert(looks =~= layers_of(self@, envelopes@, look, false));
        if !default {
            return r;
        }
        let mut i: usize = 0;
        assert(looks + show_layers(self@, envelopes@, 0) =~= looks);
        while i < self.shows.len()
            invariant
                i <= self.shows@.len(),
                envelopes@.len() == self@.shows.len(),
                r@ == looks + show_layers(self@, envelopes@, i as int),
            decreases self.shows@.len() - i,
        {
            if envelopes[i].is_some() {
                r.push(
                    Layer { priority: self.shows[i].priority, source: LayerSource::Show(i) },
                );
            }
            assert(r@ =~= looks + show_layers(self@, envelopes@, i + 1));
            i = i + 1;
        }
        if let Some((priority, _)) = &self.overlay {
            r.push(Layer { priority: *priority, source: LayerSource::Overlay });
        }
        assert(r@ =~= layers_of(self@, envelopes@, look, default));
        r
    }
}

/// The frames of the cue looks, one for each destination that has any.
pub struct LookFrames {
    pub dests: Vec<String>,
    pub frames: Vec<MaskedFrame>,
}

/// The position of `dest` among `dests`, or their number.
pub open spec fn dest_position(dests: Seq<Seq<char>>, dest: Seq<char>) -> nat
    decreases dests.len(),
{
    if dests.len() == 0 || dests[0] == dest {
        0
    } else {
        1 + dest_position(dests.drop_first(), dest)
    }
}

proof fn lemma_dest_position(dests: Seq<Seq<char>>, dest: Seq<char>)
    ensures
        dest_position(dests, dest) <= dests.len(),
        dest_position(dests, dest) < dests.len() ==> dests[dest_position(dests, dest) as int]
            == dest,
        forall|j: int| 0 <= j < dest_position(dests, dest) ==> dests[j] != dest,
    decreases dests.len(),
{
    if dests.len() > 0 && dests[0] != dest {
        lemma_dest_position(dests.drop_first(), dest);
        assert forall|j: int| 0 <= j < dest_position(dests, dest) implies dests[j] != dest by {
            if j > 0 {
                assert(dests.drop_first()[j - 1] == dests[j]);
            }
        }
    }
}

proof fn lemma_dest_pushed(dests: Seq<Seq<char>>, new: Seq<char>, dest: Seq<char>)
    ensures
        dest_position(dests.push(new), dest) == (if dest_position(dests, dest) < dests.len()
            || dest == new {
            dest_position(dests, dest)
        } else {
            dests.len() + 1
        }),
    decreases dests.len(),
{
    if dests.len() == 0 {
        assert(dests.push(new)[0] == new);
        assert(dests.push(new).drop_first() =~= Seq::<Seq<char>>::empty());
        assert(dest_position(Seq::<Seq<char>>::empty(), dest) == 0);
    } else {
        assert(dests.push(new)[0] == dests[0]);
        assert(dests.push(new).drop_first() =~= dests.drop_first().push(new));
        lemma_dest_pushed(dests.drop_first(), new, dest);
    }
}

impl LookFrames {
    pub open spec fn wf(self) -> bool {
        self.dests@.len() == self.frames@.len()
    }

    /// The frame for a destination, where there is one.
    pub open spec fn at(self, dest: Seq<char>) -> Option<FrameView> {
        let i = dest_position(texts(self.dests@), dest);
        if i < self.frames@.len() {
            Some(frame_view(self.frames@[i as int]))
        } else {
            None
        }
    }

    /// The position of a destination's frame, where there is one.
    pub fn position(&self, dest: &str) -> (r: Option<usize>)
        requires
            self.wf(),
        ensures
            r is Some == (self.at(dest@) is Some),
            r matches Some(i) ==> i < self.frames@.len() && self.at(dest@) == Some(
                frame_view(self.frames@[i as int]),
            ) && i == dest_position(texts(self.dests@), dest@),
            r is None ==> dest_position(texts(self.dests@), dest@) == self.dests@.len(),
    {
        let ghost ds = texts(self.dests@);
        let mut i: usize = 0;
        assert(ds.skip(0) =~= ds);
        while i < self.dests.len() && !same(self.dests[i].as_str(), dest)
            invariant
                i <= self.dests@.len(),
                ds == texts(self.dests@),
                dest_position(ds, dest@) == i + dest_position(ds.skip(i as int), dest@),
            decreases self.dests@.len() - i,
        {
            assert(ds.skip(i as int)[0] == self.dests@[i as int]@);
            assert(ds.skip(i as int).drop_first() =~= ds.skip(i + 1));
            i = i + 1;
        }
        if i < self.dests.len() {
            assert(ds.skip(i as int)[0] == self.dests@[i as int]@);
            Some(i)
        } else {
            None
        }
    }

    /// The position of a destination's frame; where there is none, an empty one
    /// is added.
    fn entry(&mut self, dest: &str) -> (i: usize)
        requires
            old(self).wf(),
        ensures
            final(self).wf(),
            i < final(self).frames@.len(),
            i == dest_position(texts(final(self).dests@), dest@),
            frame_view(final(self).frames@[i as int]) == or_empty(old(self).at(dest@)),
            forall|d: Seq<char>| d != dest@ ==> #[trigger] final(self).at(d) == old(self).at(d),
    {
        match self.position(dest) {
            Some(i) => i,
            None => {
                let i: usize = self.frames.len();
                let ghost ds = texts(self.dests@);
                let ghost before = *self;
                self.dests.push(dest.to_owned());
                self.frames.push(empty_frame());
                proof {
                    assert(texts(self.dests@) =~= ds.push(dest@));
                    lemma_dest_pushed(ds, dest@, dest@);
                    assert forall|d: Seq<char>| d != dest@ implies #[trigger] self.at(d)
                        == before.at(d) by {
                        lemma_dest_pushed(ds, dest@, d);
                        lemma_dest_position(ds, d);
                    }
                    assert(frame_view(self.frames@[i as int]) =~= FrameView::empty());
                }
                i
            },
        }
    }

    fn add_span(&mut self, dest: &str, universe: u16, address: u16, bytes: &Vec<u8>)
        requires
            old(self).wf(),
        ensures
            final(self).wf(),
            final(self).at(dest@) == Some(
                or_empty(old(self).at(dest@)).span_written(universe, address, bytes@),
            ),
            forall|d: Seq<char>| d != dest@ ==> #[trigger] final(self).at(d) == old(self).at(d),
    {
        let ghost before = *self;
        let i: usize = self.entry(dest);
        let ghost between = *self;
        write_span(&mut self.frames[i], universe, address, bytes);
        proof {
            assert(self.at(dest@)->0 =~= or_empty(before.at(dest@)).span_written(
                universe,
                address,
                bytes@,
            ));
            lemma_others_kept(between, *self, dest@, i as int);
        }
    }

    fn add_row(&mut self, dest: &str, footprint: usize, data: &Vec<u8>, universe: u16, address: u16)
        requires
            old(self).wf(),
        ensures
            final(self).wf(),
            final(self).at(dest@) == Some(
                or_empty(old(self).at(dest@)).row_added(footprint, data@, universe, address),
            ),
            forall|d: Seq<char>| d != dest@ ==> #[trigger] final(self).at(d) == old(self).at(d),
    {
        let ghost before = *self;
        let i: usize = self.entry(dest);
        let ghost between = *self;
        pack_fixtures(&mut self.frames[i], footprint, data, universe, address);
        proof {
            assert(self.at(dest@)->0 =~= or_empty(before.at(dest@)).row_added(
                footprint,
                data@,
                universe,
                address,
            ));
            lemma_others_kept(between, *self, dest@, i as int);
        }
    }
}

pub open spec fn or_empty(f: Option<FrameView>) -> FrameView {
    match f {
        Some(f) => f,
        None => FrameView::empty(),
    }
}

proof fn lemma_others_kept(a: LookFrames, b: LookFrames, dest: Seq<char>, i: int)
    requires
        a.wf(),
        b.dests@ == a.dests@,
        b.frames@.len() == a.frames@.len(),
        0 <= i < a.frames@.len(),
        i == dest_position(texts(a.dests@), dest),
        forall|j: int| 0 <= j < a.frames@.len() && j != i ==> a.frames@[j] == b.frames@[j],
    ensures
        forall|d: Seq<char>| d != dest ==> #[trigger] b.at(d) == a.at(d),
{
    assert forall|d: Seq<char>| d != dest implies #[trigger] b.at(d) == a.at(d) by {
        lemma_dest_position(texts(a.dests@), d);
        lemma_dest_position(texts(a.dests@), dest);
    }
}

/// The looks of the first `n` fixtures at a destination. A fixture without
/// values has no known profile and takes no part.
pub open spec fn fixture_layer(
    fixtures: Seq<FixturePatch>,
    rendered: Seq<Option<Vec<u8>>>,
    n: int,
    dest: Seq<char>,
) -> Option<FrameView>
    decreases n,
{
    if n <= 0 {
        None
    } else {
        let before = fixture_layer(fixtures, rendered, n - 1, dest);
        if rendered[n - 1] is Some && fixtures[n - 1].dest@ == dest {
            Some(
                or_empty(before).span_written(
                    fixtures[n - 1].universe,
                    fixtures[n - 1].address,
                    rendered[n - 1]->0@,
                ),
            )
        } else {
            before
        }
    }
}

/// The values of a segment: its footprint per pixel, and all pixels in a row.
pub struct SegmentRow {
    pub footprint: usize,
    pub bytes: Vec<u8>,
}

/// `base` under the pixels of the first `n` segments.
pub open spec fn segments_over(
    base: Option<FrameView>,
    segments: Seq<SegmentPatch>,
    rows: Seq<Option<SegmentRow>>,
    n: int,
) -> Option<FrameView>
    decreases n,
{
    if n <= 0 {
        base
    } else {
        let before = segments_over(base, segments, rows, n - 1);
        match rows[n - 1] {
            Some(row) => Some(
                or_empty(before).row_added(
                    row.footprint,
                    row.bytes@,
                    segments[n - 1].universe,
                    segments[n - 1].address,
                ),
            ),
            None => before,
        }
    }
}

/// The looks at a destination: its fixtures, and at the default destination
/// the segments over them.
pub open spec fn look_layer(
    cfg: LightingConfig,
    rendered: Seq<Option<Vec<u8>>>,
    rows: Seq<Option<SegmentRow>>,
    dest: Seq<char>,
) -> Option<FrameView> {
    let fixtures = fixture_layer(cfg.fixtures@, rendered, cfg.fixtures@.len() as int, dest);
    if dest == cfg.default_dest() {
        segments_over(fixtures, cfg.segments@, rows, cfg.segments@.len() as int)
    } else {
        fixtures
    }
}

/// The frames of the cue looks. `rendered` holds each fixture's values, where
/// its profile is known, and `rows` each segment's, where it has pixels and a
/// known profile.
pub fn look_frames(
    cfg: &LightingConfig,
    rendered: &Vec<Option<Vec<u8>>>,
    rows: &Vec<Option<SegmentRow>>,
) -> (r: LookFrames)
    requires
        rendered@.len() == cfg.fixtures@.len(),
        rows@.len() == cfg.segments@.len(),
    ensures
        r.wf(),
        forall|d: Seq<char>| #[trigger] r.at(d) == look_layer(*cfg, rendered@, rows@, d),
{
    let mut r: LookFrames = LookFrames { dests: Vec::new(), frames: Vec::new() };
    let mut i: usize = 0;
    while i < cfg.fixtures.len()
        invariant
            i <= cfg.fixtures@.len(),
            rendered@.len() == cfg.fixtures@.len(),
            r.wf(),
            forall|d: Seq<char>| #[trigger]
                r.at(d) == fixture_layer(cfg.fixtures@, rendered@, i as int, d),
        decreases cfg.fixtures@.len() - i,
    {
        let fixture: &FixturePatch = &cfg.fixtures[i];
        if let Some(bytes) = &rendered[i] {
            let ghost before = r;
            r.add_span(fixture.dest.as_str(), fixture.universe, fixture.address, bytes);
            assert forall|d: Seq<char>| #[trigger] r.at(d) == fixture_layer(
                cfg.fixtures@,
                rendered@,
                i + 1,
                d,
            ) by {
                assert(before.at(d) == fixture_layer(cfg.fixtures@, rendered@, i as int, d));
            }
        }
        i = i + 1;
    }
    let dest: &str = trim(cfg.dest_ip.as_str());
    let ghost base = r;
    let mut j: usize = 0;
    while j < cfg.segments.len()
        invariant
            j <= cfg.segments@.len(),
            rows@.len() == cfg.segments@.len(),
            r.wf(),
            dest@ == cfg.default_dest(),
            r.at(dest@) == segments_over(base.at(dest@), cfg.segments@, rows@, j as int),
            forall|d: Seq<char>| d != dest@ ==> #[trigger] r.at(d) == base.at(d),
        decreases cfg.segments@.len() - j,
    {
        let segment: &SegmentPatch = &cfg.segments[j];
        if let Some(row) = &rows[j] {
            let ghost before = r;
            r.add_row(dest, row.footprint, &row.bytes, segment.universe, segment.address);
            assert forall|d: Seq<char>| d != dest@ implies #[trigger] r.at(d) == base.at(d) by {
                assert(before.at(d) == base.at(d));
            }
        }
        j = j + 1;
    }
    assert forall|d: Seq<char>| #[trigger] r.at(d) == look_layer(*cfg, rendered@, rows@, d) by {
        assert(base.at(d) == fixture_layer(
            cfg.fixtures@,
            rendered@,
            cfg.fixtures@.len() as int,
            d,
        ));
    }
    r
}

/// What is merged for one output.
pub struct OutputFrame {
    pub dest: String,
    /// The position of its cue looks among the frames, where it has any.
    pub looks: Option<usize>,
    pub layers: Vec<Layer>,
}

/// The frames of a tick.
pub struct TickPlan {
    pub looks: LookFrames,
    /// For each show the fades that weigh on it, or nothing where it is over.
    pub envelopes: Vec<Option<Envelope>>,
    /// One for each open output.
    pub outputs: Vec<OutputFrame>,
}

/// Whether an output merges what belongs to its destination: the looks that
/// are patched there, and the shows and the overlay at the default one.
pub open spec fn output_of(
    e: LightingView,
    cfg: LightingConfig,
    envelopes: Seq<Option<Envelope>>,
    looks: LookFrames,
    dest: Seq<char>,
    out: OutputFrame,
) -> bool {
    let at = looks.at(dest);
    let priority = if at is Some {
        Some(cfg.look_priority)
    } else {
        None
    };
    &&& out.dest@ == dest
    &&& match out.looks {
        Some(i) => i < looks.frames@.len() && at == Some(frame_view(looks.frames@[i as int])),
        None => at is None,
    }
    &&& out.layers@ == layers_of(e, envelopes, priority, dest == cfg.default_dest())
}

impl LightingEngine {
    /// What every open output merges.
    fn outputs(
        &self,
        cfg: &LightingConfig,
        envelopes: &Vec<Option<Envelope>>,
        looks: &LookFrames,
    ) -> (r: Vec<OutputFrame>)
        requires
            looks.wf(),
            envelopes@.len() == self@.shows.len(),
        ensures
            r@.len() == self@.senders.len(),
            forall|i: int|
                0 <= i < r@.len() ==> output_of(
                    self@,
                    *cfg,
                    envelopes@,
                    *looks,
                    self@.senders[i],
                    #[trigger] r@[i],
                ),
    {
        let home: &str = trim(cfg.dest_ip.as_str());
        let mut r: Vec<OutputFrame> = Vec::new();
        let mut i: usize = 0;
        while i < self.senders.len()
            invariant
                i <= self.senders@.len(),
                looks.wf(),
                home@ == cfg.default_dest(),
                envelopes@.len() == self@.shows.len(),
                r@.len() == i,
                forall|j: int|
                    0 <= j < i ==> output_of(
                        self@,
                        *cfg,
                        envelopes@,
                        *looks,
                        self@.senders[j],
                        #[trigger] r@[j],
                    ),
            decreases self.senders@.len() - i,
        {
            let dest: &str = self.senders[i].as_str();
            assert(self@.senders[i as int] == dest@);
            let at: Option<usize> = looks.position(dest);
            let priority: Option<u8> = if at.is_some() {
                Some(cfg.look_priority)
            } else {
                None
            };
            let layers: Vec<Layer> = self.layers(envelopes, priority, same(dest, home));
            r.push(OutputFrame { dest: dest.to_owned(), looks: at, layers });
            i = i + 1;
        }
        r
    }

    /// The frames of a tick, once the fades were sampled and the fixtures and
    /// segments rendered. Pixels of segments that are gone are forgotten, the
    /// shows move on, and every open output gets a frame, even an empty one, so
    /// that no output goes on with what is no longer there.
    pub fn tick(
        &mut self,
        cfg: &LightingConfig,
        rendered: &Vec<Option<Vec<u8>>>,
        rows: &Vec<Option<SegmentRow>>,
        clocks: &Vec<ShowClock>,
    ) -> (r: TickPlan)
        requires
            rendered@.len() == cfg.fixtures@.len(),
            rows@.len() == cfg.segments@.len(),
            clocks@.len() == old(self)@.shows.len(),
        ensures
            final(self)@ == (LightingView {
                shows: final(self)@.shows,
                finished_shows: old(self)@.finished_shows + newly_ended(
                    old(self)@.shows,
                    clocks@,
                    clocks@.len() as int,
                ),
                segment_pixels: old(self)@.segment_pixels.restrict(segment_ids(cfg.segments@)),
                ..old(self)@
            }),
            final(self)@.shows.len() == old(self)@.shows.len(),
            forall|i: int|
                0 <= i < clocks@.len() ==> old(self)@.shows[i].advanced(
                    clocks@[i],
                    #[trigger] final(self)@.shows[i],
                ),
            r.envelopes@ == envelopes_of(old(self)@.shows, clocks@),
            r.looks.wf(),
            forall|d: Seq<char>| #[trigger]
                r.looks.at(d) == look_layer(*cfg, rendered@, rows@, d),
            r.outputs@.len() == old(self)@.senders.len(),
            forall|i: int|
                0 <= i < r.outputs@.len() ==> output_of(
                    final(self)@,
                    *cfg,
                    r.envelopes@,
                    r.looks,
                    old(self)@.senders[i],
                    #[trigger] r.outputs@[i],
                ),
    {
        self.retain_segments(cfg);
        let looks: LookFrames = look_frames(cfg, rendered, rows);
        let envelopes: Vec<Option<Envelope>> = self.advance_shows(clocks);
        let outputs: Vec<OutputFrame> = self.outputs(cfg, &envelopes, &looks);
        TickPlan { looks, envelopes, outputs }
    }
}

proof fn lemma_precedes(a: Seq<char>, b: Seq<char>, c: Seq<char>)
    ensures
        !precedes(a, a),
        a != b ==> precedes(a, b) || precedes(b, a),
        precedes(a, b) && precedes(b, c) ==> precedes(a, c),
    decreases a.len(),
{
    if a.len() > 0 {
        let (x, y, z) = (a.drop_first(), b.drop_first(), c.drop_first());
        lemma_precedes(x, y, z);
        if b.len() > 0 && a[0] == b[0] && x == y {
            assert(a =~= seq![a[0]] + x);
            assert(b =~= seq![b[0]] + y);
            assert(a == b);
        }
    } else if b.len() == 0 {
        assert(a =~= b);
    }
}

/// Whether texts stand in order, each once.
pub open spec fn ascending(s: Seq<Seq<char>>) -> bool {
    forall|i: int, j: int| 0 <= i < j < s.len() ==> precedes(#[trigger] s[i], #[trigger] s[j])
}

proof fn lemma_inserted(s: Seq<Seq<char>>, x: Seq<char>)
    requires
        ascending(s),
    ensures
        ascending(inserted(s, x)),
        forall|y: Seq<char>| #[trigger]
            inserted(s, x).contains(y) <==> (y == x || s.contains(y)),
    decreases s.len(),
{
    let t = inserted(s, x);
    if s.len() == 0 {
        assert(t[0] == x);
    } else if s[0] == x {
    } else if precedes(x, s[0]) {
        assert forall|i: int, j: int| 0 <= i < j < t.len() implies precedes(
            #[trigger] t[i],
            #[trigger] t[j],
        ) by {
            if i == 0 && j > 1 {
                lemma_precedes(x, s[0], s[j - 1]);
            }
        }
        assert(t[0] == x);
        assert forall|y: Seq<char>| #[trigger] t.contains(y) <==> (y == x || s.contains(y)) by {
            if s.contains(y) {
                let k = choose|k: int| 0 <= k < s.len() && s[k] == y;
                assert(t[k + 1] == y);
            }
        }
    } else {
        let rest = s.drop_first();
        assert forall|i: int, j: int| 0 <= i < j < rest.len() implies precedes(
            #[trigger] rest[i],
            #[trigger] rest[j],
        ) by {
            assert(precedes(s[i + 1], s[j + 1]));
        }
        lemma_inserted(rest, x);
        let u = inserted(rest, x);
        lemma_precedes(s[0], x, x);
        assert forall|i: int, j: int| 0 <= i < j < t.len() implies precedes(
            #[trigger] t[i],
            #[trigger] t[j],
        ) by {
            if i == 0 {
                let y = u[j - 1];
                assert(u.contains(y));
                if y != x {
                    let k = choose|k: int| 0 <= k < rest.len() && rest[k] == y;
                    assert(s[k + 1] == y);
                    assert(precedes(s[0], s[k + 1]));
                }
            } else {
                assert(precedes(u[i - 1], u[j - 1]));
            }
        }
        assert forall|y: Seq<char>| #[trigger] t.contains(y) <==> (y == x || s.contains(y)) by {
            if t.contains(y) {
                let k = choose|k: int| 0 <= k < t.len() && t[k] == y;
                if k > 0 {
                    assert(u[k - 1] == y);
                    assert(u.contains(y));
                    if y != x {
                        let m = choose|m: int| 0 <= m < rest.len() && rest[m] == y;
                        assert(s[m + 1] == y);
                    }
                }
            }
            if y == x || s.contains(y) {
                if y == s[0] {
                    assert(t[0] == y);
                } else {
                    if y != x {
                        let m = choose|m: int| 0 <= m < s.len() && s[m] == y;
                        assert(rest[m - 1] == y);
                        assert(rest.contains(y));
                    }
                    assert(u.contains(y));
                    let k = choose|k: int| 0 <= k < u.len() && u[k] == y;
                    assert(t[k + 1] == y);
                }
            }
        }
    }
}

proof fn lemma_fixture_dests(fixtures: Seq<FixturePatch>, n: int)
    requires
        0 <= n <= fixtures.len(),
    ensures
        ascending(fixture_dests(fixtures, n)),
        forall|i: int| 0 <= i < n ==> fixture_dests(fixtures, n).contains(
            (#[trigger] fixtures[i]).dest@,
        ),
    decreases n,
{
    if n > 0 {
        lemma_fixture_dests(fixtures, n - 1);
        lemma_inserted(fixture_dests(fixtures, n - 1), fixtures[n - 1].dest@);
    }
}

/// Every destination gets one output: the default one and each that a fixture
/// is patched to.
pub proof fn every_destination_gets_one_output(cfg: LightingConfig)
    requires
        cfg.enabled,
    ensures
        ascending(cfg.wanted()->0.dests),
        cfg.wanted()->0.dests.contains(cfg.default_dest()),
        forall|i: int| 0 <= i < cfg.fixtures@.len() ==> cfg.wanted()->0.dests.contains(
            (#[trigger] cfg.fixtures@[i]).dest@,
        ),
{
    let n = cfg.fixtures@.len() as int;
    lemma_fixture_dests(cfg.fixtures@, n);
    lemma_inserted(fixture_dests(cfg.fixtures@, n), cfg.default_dest());
}

/// A fixture writes only into its own destination's frame.
pub proof fn fixtures_stay_at_their_destination(
    fixtures: Seq<FixturePatch>,
    rendered: Seq<Option<Vec<u8>>>,
    n: int,
    dest: Seq<char>,
)
    requires
        forall|i: int| 0 <= i < n ==> (#[trigger] fixtures[i]).dest@ != dest,
    ensures
        fixture_layer(fixtures, rendered, n, dest) is None,
    decreases n,
{
    if n > 0 {
        fixtures_stay_at_their_destination(fixtures, rendered, n - 1, dest);
    }
}

/// Without an envelope a show takes no part in any output: one that is over is
/// heard no more.
pub proof fn released_shows_are_not_sent(
    e: LightingView,
    envelopes: Seq<Option<Envelope>>,
    n: int,
    i: usize,
)
    requires
        0 <= n <= usize::MAX,
        envelopes[i as int] is None,
    ensures
        forall|k: int|
            0 <= k < show_layers(e, envelopes, n).len() ==> (#[trigger] show_layers(
                e,
                envelopes,
                n,
            )[k]).source != LayerSource::Show(i),
    decreases n,
{
    if n > 0 {
        released_shows_are_not_sent(e, envelopes, n - 1, i);
    }
}

proof fn lemma_dests_are_of_fixtures(fixtures: Seq<FixturePatch>, n: int, y: Seq<char>)
    requires
        0 <= n <= fixtures.len(),
        fixture_dests(fixtures, n).contains(y),
    ensures
        exists|i: int| 0 <= i < n && (#[trigger] fixtures[i]).dest@ == y,
    decreases n,
{
    if n > 0 {
        lemma_fixture_dests(fixtures, n - 1);
        lemma_inserted(fixture_dests(fixtures, n - 1), fixtures[n - 1].dest@);
        if y == fixtures[n - 1].dest@ {
            assert(fixtures[n - 1].dest@ == y);
        } else {
            lemma_dests_are_of_fixtures(fixtures, n - 1, y);
            let i = choose|i: int| 0 <= i < n - 1 && (#[trigger] fixtures[i]).dest@ == y;
            assert(fixtures[i].dest@ == y);
        }
    }
}

/// Outputs are wanted while lighting is on: one, in order, for each place that
/// a fixture is patched to and for the default place, and for no other.
pub proof fn outputs_go_where_fixtures_are(
    cfg: &LightingConfig,
    r: Option<OutputPlan>,
    y: Seq<char>,
)
    requires
        call_ensures(wanted_outputs, (cfg,), r),
    ensures
        r is Some <==> cfg.enabled,
        r is Some ==> {
            let dests = texts(r->0.dests@);
            &&& r->0.protocol == cfg.protocol
            &&& r->0.fps == cfg.fps
            &&& ascending(dests)
            &&& dests.contains(y) <==> y == trimmed(cfg.dest_ip@) || exists|i: int|
                0 <= i < cfg.fixtures@.len() && (#[trigger] cfg.fixtures@[i]).dest@ == y
        },
{
    if r is Some {
        let n = cfg.fixtures@.len() as int;
        let d = fixture_dests(cfg.fixtures@, n);
        lemma_fixture_dests(cfg.fixtures@, n);
        lemma_inserted(d, cfg.default_dest());
        let dests = texts(r->0.dests@);
        assert(dests == inserted(d, cfg.default_dest()));
        assert(dests.contains(y) <==> (y == cfg.default_dest() || d.contains(y)));
        if d.contains(y) {
            lemma_dests_are_of_fixtures(cfg.fixtures@, n, y);
        }
        if exists|i: int| 0 <= i < n && (#[trigger] cfg.fixtures@[i]).dest@ == y {
            let i = choose|i: int| 0 <= i < n && (#[trigger] cfg.fixtures@[i]).dest@ == y;
            assert(d.contains(cfg.fixtures@[i].dest@));
        }
    }
}

/// An output without an address sends the way of its protocol.
pub proof fn an_output_without_an_address_sends_to_all(
    dest: &str,
    protocol: LightingProtocol,
    r: Destination,
)
    requires
        call_ensures(destination, (dest, protocol), r),
    ensures
        dest@.len() > 0 ==> r is Address && r->Address_0@ == dest@,
        dest@.len() == 0 && protocol is Sacn ==> r is Multicast,
        dest@.len() == 0 && protocol is ArtNet ==> r is Broadcast,
{
}

/// Ticks are a sixtieth of a second apart, and the first is due at once; one
/// that is not due changes nothing.
pub proof fn ticks_keep_their_distance(
    engine: &mut LightingEngine,
    elapsed: Single,
    now: Moment,
    b: bool,
)
    requires
        call_ensures(LightingEngine::tick_due, (engine, elapsed, now), b),
    ensures
        old(engine)@.last_tick is None ==> b,
        old(engine)@.last_tick is Some ==> (b <==> !elapsed.less(Single { bits: 0x3c88_8889 })),
        b ==> final(engine)@.last_tick == Some(now),
        !b ==> final(engine)@ == old(engine)@,
        final(engine)@.shows == old(engine)@.shows,
        final(engine)@.live == old(engine)@.live,
        final(engine)@.dirty == old(engine)@.dirty,
{
}

/// Outputs are closed and opened anew exactly where the settings ask for
/// others, and asking again changes nothing.
pub proof fn outputs_follow_the_settings(
    engine: &mut LightingEngine,
    again: &mut LightingEngine,
    cfg: &LightingConfig,
    r: Option<Vec<String>>,
    q: Option<Vec<String>>,
)
    requires
        call_ensures(LightingEngine::reconcile_sender, (engine, cfg), r),
        old(again)@ == final(engine)@,
        call_ensures(LightingEngine::reconcile_sender, (again, cfg), q),
    ensures
        ({
            let d = old(engine)@;
            let e = final(engine)@;
            &&& q is None
            &&& r is None ==> e == d
            &&& r is Some ==> e.senders.len() == 0
            &&& !cfg.enabled ==> e.applied is None && (r is Some ==> r->0@.len() == 0)
            &&& cfg.enabled ==> e.applied is Some && e.applied->0.protocol == cfg.protocol
                && e.applied->0.fps == cfg.fps && (r is Some ==> texts(r->0@)
                == e.applied->0.dests)
            &&& !cfg.enabled && d.applied is None ==> r is None
            &&& !cfg.enabled && d.applied is Some ==> r is Some
            &&& cfg.enabled && d.applied is None ==> r is Some
            &&& cfg.enabled && d.applied is Some && (d.applied->0.protocol != cfg.protocol
                || d.applied->0.fps != cfg.fps) ==> r is Some
            &&& e.shows == d.shows
            &&& e.live == d.live
        }),
{
    if r is Some {
        assert(texts(r->0@).len() == r->0@.len());
    }
}

/// An output that was opened is among the open ones, each once, and gets the
/// present state.
pub proof fn an_opened_output_gets_the_state(
    engine: &mut LightingEngine,
    dest: &str,
    y: Seq<char>,
)
    requires
        ascending(old(engine)@.senders),
        call_ensures(LightingEngine::sender_opened, (engine, dest), ()),
    ensures
        final(engine)@.dirty,
        ascending(final(engine)@.senders),
        final(engine)@.senders.contains(y) <==> y == dest@ || old(engine)@.senders.contains(y),
        final(engine)@.applied == old(engine)@.applied,
        final(engine)@.live == old(engine)@.live,
        final(engine)@.shows == old(engine)@.shows,
{
    lemma_inserted(old(engine)@.senders, dest@);
}

/// A frame is made only for an open output, and while something fades, plays or
/// has changed.
pub proof fn frames_are_made_for_changes(engine: &LightingEngine, b: bool, id: u32)
    requires
        call_ensures(LightingEngine::frame_due, (engine,), b),
    ensures
        engine@.senders.len() == 0 ==> !b,
        engine@.senders.len() > 0 && engine@.dirty ==> b,
        engine@.senders.len() > 0 && engine@.shows.len() > 0 ==> b,
        engine@.senders.len() > 0 && engine@.fades.contains_key(id) ==> b,
        !engine@.dirty && engine@.shows.len() == 0 && (forall|k: u32|
            !(#[trigger] engine@.fades.contains_key(k))) ==> !b,
{
    if engine@.fades.contains_key(id) {
        assert(engine@.fades.dom().contains(id));
    }
    if forall|k: u32| !(#[trigger] engine@.fades.contains_key(k)) {
        assert(engine@.fades.dom() =~= Set::<u32>::empty()) by {
            assert forall|k: u32| !(#[trigger] engine@.fades.dom().contains(k)) by {
                assert(!engine@.fades.contains_key(k));
            }
        }
    }
}

/// The pixels of a segment are kept exactly while the segment is patched.
pub proof fn pixels_go_with_their_segment(
    engine: &mut LightingEngine,
    cfg: &LightingConfig,
    id: u32,
)
    requires
        call_ensures(LightingEngine::retain_segments, (engine, cfg), ()),
    ensures
        ({
            let was = old(engine)@.segment_pixels;
            let left = final(engine)@.segment_pixels;
            let patched = exists|i: int|
                0 <= i < cfg.segments@.len() && (#[trigger] cfg.segments@[i]).id == id;
            &&& left.contains_key(id) <==> was.contains_key(id) && patched
            &&& left.contains_key(id) ==> left[id] == was[id]
            &&& final(engine)@.live == old(engine)@.live
            &&& final(engine)@.shows == old(engine)@.shows
            &&& final(engine)@.dirty == old(engine)@.dirty
        }),
{
}

/// An output merges its looks, where it has any, under the shows that are not
/// over and the overlay; those two go to the default place only. Each layer
/// has the priority of what it comes from.
pub proof fn layers_come_from_what_is_on(
    engine: &LightingEngine,
    envelopes: &Vec<Option<Envelope>>,
    look: Option<u8>,
    default: bool,
    r: Vec<Layer>,
    i: usize,
)
    requires
        envelopes@.len() == engine@.shows.len(),
        call_ensures(LightingEngine::layers, (engine, envelopes, look, default), r),
        i < engine@.shows.len(),
    ensures
        ({
            let s = Layer { priority: engine@.shows[i as int].priority, source: LayerSource::Show(i) };
            &&& look is Some ==> r@.len() > 0 && r@[0] == (Layer {
                priority: look->0,
                source: LayerSource::Looks,
            })
            &&& !default ==> r@.len() == (if look is Some {
                1int
            } else {
                0
            })
            &&& default && engine@.overlay is Some ==> r@.len() > 0 && r@.last() == (Layer {
                priority: (engine@.overlay->0).0,
                source: LayerSource::Overlay,
            })
            &&& default && envelopes@[i as int] is Some ==> r@.contains(s)
            &&& envelopes@[i as int] is None ==> forall|k: int|
                0 <= k < r@.len() ==> (#[trigger] r@[k]).source != LayerSource::Show(i)
            &&& r@.len() <= envelopes@.len() + 2
        }),
{
    let e = engine@;
    let n = envelopes@.len() as int;
    let shows = show_layers(e, envelopes@, n);
    let looks = match look {
        Some(priority) => seq![Layer { priority, source: LayerSource::Looks }],
        None => Seq::empty(),
    };
    assert(n == envelopes.len());
    lemma_show_layers(e, envelopes@, n, i);
    if default {
        if envelopes@[i as int] is Some {
            let s = Layer { priority: e.shows[i as int].priority, source: LayerSource::Show(i) };
            let k = choose|k: int| 0 <= k < shows.len() && shows[k] == s;
            assert(r@[looks.len() + k] == s);
        } else {
            released_shows_are_not_sent(e, envelopes@, n, i);
            assert forall|k: int| 0 <= k < r@.len() implies (#[trigger] r@[k]).source
                != LayerSource::Show(i) by {
                if k < looks.len() {
                    assert(r@[k] == looks[k]);
                } else if k < looks.len() + shows.len() {
                    assert(r@[k] == shows[k - looks.len()]);
                }
            }
        }
    }
}

proof fn lemma_show_layers(e: LightingView, envelopes: Seq<Option<Envelope>>, n: int, i: usize)
    requires
        0 <= n <= envelopes.len(),
        n <= usize::MAX,
    ensures
        show_layers(e, envelopes, n).len() <= n,
        i < n && envelopes[i as int] is Some ==> show_layers(e, envelopes, n).contains(
            Layer { priority: e.shows[i as int].priority, source: LayerSource::Show(i) },
        ),
    decreases n,
{
    if n > 0 {
        lemma_show_layers(e, envelopes, n - 1, i);
        let before = show_layers(e, envelopes, n - 1);
        let all = show_layers(e, envelopes, n);
        let s = Layer { priority: e.shows[i as int].priority, source: LayerSource::Show(i) };
        if i < n && envelopes[i as int] is Some {
            if i == n - 1 {
                assert(all.last() == s);
            } else {
                let k = choose|k: int| 0 <= k < before.len() && before[k] == s;
                assert(all[k] == s);
            }
        }
    }
}

/// The frame of a destination exists where a fixture with values is patched to
/// it, and then holds each fixture's values from its address on, where no later
/// one lies over them.
pub proof fn fixtures_write_at_their_address(
    cfg: &LightingConfig,
    rendered: &Vec<Option<Vec<u8>>>,
    rows: &Vec<Option<SegmentRow>>,
    r: LookFrames,
    k: int,
    o: int,
)
    requires
        rendered@.len() == cfg.fixtures@.len(),
        rows@.len() == cfg.segments@.len(),
        call_ensures(look_frames, (cfg, rendered, rows), r),
        cfg.segments@.len() == 0,
        0 <= k < cfg.fixtures@.len(),
        rendered@[k] is Some,
        0 <= o < (rendered@[k]->0)@.len(),
        forall|j: int|
            k < j < cfg.fixtures@.len() ==> (#[trigger] cfg.fixtures@[j]).universe
                != cfg.fixtures@[k].universe,
    ensures
        ({
            let f = cfg.fixtures@[k];
            let start = if f.address == 0 {
                0int
            } else {
                f.address - 1
            };
            let frame = r.at(f.dest@);
            let at = (f.universe, (start + o) as u16);
            &&& frame is Some
            &&& frame->0.universes.contains(f.universe)
            &&& start + o < 512 ==> frame->0.channels.contains_key(at) && frame->0.channels[at]
                == (rendered@[k]->0)@[o]
        }),
{
    let d = cfg.fixtures@[k].dest@;
    assert(r.at(d) == look_layer(*cfg, rendered@, rows@, d));
    lemma_fixture_writes(cfg.fixtures@, rendered@, k, o, cfg.fixtures@.len() as int);
}

proof fn lemma_fixture_writes(
    fixtures: Seq<FixturePatch>,
    rendered: Seq<Option<Vec<u8>>>,
    k: int,
    o: int,
    n: int,
)
    requires
        rendered.len() == fixtures.len(),
        0 <= k < n <= fixtures.len(),
        rendered[k] is Some,
        0 <= o < (rendered[k]->0)@.len(),
        forall|j: int|
            k < j < fixtures.len() ==> (#[trigger] fixtures[j]).universe != fixtures[k].universe,
    ensures
        ({
            let f = fixtures[k];
            let start = first_channel(f.address);
            let frame = fixture_layer(fixtures, rendered, n, f.dest@);
            let at = (f.universe, (start + o) as u16);
            &&& frame is Some
            &&& frame->0.universes.contains(f.universe)
            &&& start + o < 512 ==> frame->0.channels.contains_key(at) && frame->0.channels[at]
                == (rendered[k]->0)@[o]
        }),
    decreases n,
{
    let f = fixtures[k];
    let start = first_channel(f.address);
    let at = (f.universe, (start + o) as u16);
    if n - 1 > k {
        lemma_fixture_writes(fixtures, rendered, k, o, n - 1);
        assert(fixtures[n - 1].universe != f.universe);
    } else {
        if start + o < 512 {
            assert(at.1 - start == o);
        }
    }
}

/// A frame holds only channels that some fixture of its destination covers.
pub proof fn frames_hold_what_fixtures_cover(
    cfg: &LightingConfig,
    rendered: &Vec<Option<Vec<u8>>>,
    rows: &Vec<Option<SegmentRow>>,
    r: LookFrames,
    d: Seq<char>,
    at: (u16, u16),
)
    requires
        rendered@.len() == cfg.fixtures@.len(),
        rows@.len() == cfg.segments@.len(),
        call_ensures(look_frames, (cfg, rendered, rows), r),
        cfg.segments@.len() == 0,
    ensures
        r.at(d) is Some && r.at(d)->0.channels.contains_key(at) ==> exists|k: int|
            0 <= k < cfg.fixtures@.len() && #[trigger] covers(
                cfg.fixtures@[k],
                rendered@[k],
                d,
                at,
            ),
        (forall|k: int| 0 <= k < cfg.fixtures@.len() ==> (#[trigger] cfg.fixtures@[k]).dest@ != d)
            ==> r.at(d) is None,
{
    assert(r.at(d) == look_layer(*cfg, rendered@, rows@, d));
    let n = cfg.fixtures@.len() as int;
    if r.at(d) is Some && r.at(d)->0.channels.contains_key(at) {
        lemma_covered(cfg.fixtures@, rendered@, d, at, n);
    }
    if forall|k: int| 0 <= k < cfg.fixtures@.len() ==> (#[trigger] cfg.fixtures@[k]).dest@ != d {
        fixtures_stay_at_their_destination(cfg.fixtures@, rendered@, n, d);
    }
}

/// Whether a fixture with these values covers a channel of a destination.
pub open spec fn covers(
    f: FixturePatch,
    values: Option<Vec<u8>>,
    d: Seq<char>,
    at: (u16, u16),
) -> bool {
    let start = if f.address == 0 {
        0int
    } else {
        f.address - 1
    };
    &&& f.dest@ == d
    &&& f.universe == at.0
    &&& values is Some
    &&& start <= at.1 < start + (values->0)@.len()
    &&& at.1 < 512
}

proof fn lemma_covered(
    fixtures: Seq<FixturePatch>,
    rendered: Seq<Option<Vec<u8>>>,
    d: Seq<char>,
    at: (u16, u16),
    n: int,
)
    requires
        rendered.len() == fixtures.len(),
        0 <= n <= fixtures.len(),
        fixture_layer(fixtures, rendered, n, d) is Some,
        (fixture_layer(fixtures, rendered, n, d)->0).channels.contains_key(at),
    ensures
        exists|k: int| 0 <= k < n && #[trigger] covers(fixtures[k], rendered[k], d, at),
    decreases n,
{
    if n > 0 {
        if covers(fixtures[n - 1], rendered[n - 1], d, at) {
        } else {
            lemma_covered(fixtures, rendered, d, at, n - 1);
            let k = choose|k: int|
                0 <= k < n - 1 && #[trigger] covers(fixtures[k], rendered[k], d, at);
            assert(covers(fixtures[k], rendered[k], d, at));
        }
    }
}

/// The colours of a segment are its pixels along the wire, with red and blue
/// in each other's place.
pub proof fn colours_have_red_and_blue_exchanged(
    rgba: &Vec<u8>,
    cols: u32,
    rows: u32,
    order: ScanOrder,
    r: Vec<[u8; 4]>,
    x: int,
    y: int,
)
    requires
        addressable(rgba@, cols, rows),
        call_ensures(segment_colours, (rgba, cols, rows, order), r),
        cols > 1,
        rows > 1,
        rgba@.len() == cols * rows * 4,
        0 <= x < cols,
        0 <= y < rows,
        order.primary == Axis::Horizontal,
        !order.serpentine,
        order.start_corner == Corner::TopLeft,
    ensures
        ({
            let n = y * cols + x;
            let p = r@[n]@;
            &&& 0 <= n < r@.len()
            &&& p[0] == rgba@[n * 4 + 2]
            &&& p[1] == rgba@[n * 4 + 1]
            &&& p[2] == rgba@[n * 4]
            &&& p[3] == rgba@[n * 4 + 3]
        }),
{
    let c = cols as int;
    let n = y * c + x;
    assert(0 <= n < c * rows) by (nonlinear_arith)
        requires
            n == y * c + x,
            0 <= x < c,
            0 <= y < rows,
    ;
    assert(n / c == y && n % c == x) by {
        vstd::arithmetic::div_mod::lemma_fundamental_div_mod_converse(n, c, y, x);
    }
    assert(order.place(c, rows as int, n) == (x, y));
    assert(n * 4 + 4 <= rgba@.len());
    let q = r@[n];
    assert(q@ == ({
        let p = pixel_at(rgba@, cols, order.place(c, rows as int, n));
        seq![p[2], p[1], p[0], p[3]]
    }));
}

/// Every open output gets a frame of its own in a tick, in the order of the
/// outputs; the shows go to the default one alone.
pub proof fn every_output_gets_a_frame(
    engine: &mut LightingEngine,
    cfg: &LightingConfig,
    rendered: &Vec<Option<Vec<u8>>>,
    rows: &Vec<Option<SegmentRow>>,
    clocks: &Vec<ShowClock>,
    r: TickPlan,
    i: int,
)
    requires
        rendered@.len() == cfg.fixtures@.len(),
        rows@.len() == cfg.segments@.len(),
        clocks@.len() == old(engine)@.shows.len(),
        call_ensures(LightingEngine::tick, (engine, cfg, rendered, rows, clocks), r),
        0 <= i < old(engine)@.senders.len(),
    ensures
        ({
            let out = r.outputs@[i];
            let dest = old(engine)@.senders[i];
            &&& r.outputs@.len() == old(engine)@.senders.len()
            &&& out.dest@ == dest
            &&& out.looks is Some == r.looks.at(dest) is Some
            &&& out.looks is Some ==> out.layers@.len() > 0 && out.layers@[0] == (Layer {
                priority: cfg.look_priority,
                source: LayerSource::Looks,
            })
            &&& dest != trimmed(cfg.dest_ip@) ==> out.layers@.len() <= 1
            &&& dest != trimmed(cfg.dest_ip@) && out.looks is None ==> out.layers@.len() == 0
            &&& dest == trimmed(cfg.dest_ip@) && old(engine)@.overlay is Some ==> out.layers@.len()
                > 0 && out.layers@.last().source == LayerSource::Overlay
            &&& r.envelopes@.len() == clocks@.len()
            &&& final(engine)@.senders == old(engine)@.senders
            &&& final(engine)@.live == old(engine)@.live
            &&& final(engine)@.fades == old(engine)@.fades
            &&& final(engine)@.dirty == old(engine)@.dirty
        }),
{
    assert(output_of(
        final(engine)@,
        *cfg,
        r.envelopes@,
        r.looks,
        old(engine)@.senders[i],
        r.outputs@[i],
    ));
}

/// The frame of a destination is found where it was put.
pub proof fn frames_are_found_by_destination(looks: &LookFrames, dest: &str, r: Option<usize>)
    requires
        looks.wf(),
        call_ensures(LookFrames::position, (looks, dest), r),
    ensures
        r is Some ==> r->0 < looks.dests@.len() && looks.dests@[r->0 as int]@ == dest@ && forall|
            j: int,
        |
            0 <= j < r->0 ==> (#[trigger] looks.dests@[j])@ != dest@,
        r is None ==> forall|j: int|
            0 <= j < looks.dests@.len() ==> (#[trigger] looks.dests@[j])@ != dest@,
{
    let ds = texts(looks.dests@);
    lemma_dest_position(ds, dest@);
    assert forall|j: int| 0 <= j < dest_position(ds, dest@) implies (
    #[trigger] looks.dests@[j])@ != dest@ by {
        assert(ds[j] == looks.dests@[j]@);
    }
}

/// Each pixel stands once on the wire: lines are counted from the corner where
/// it starts, rows or columns as it runs, and on every second line of a
/// serpentine the pixels come from the other side.
pub proof fn the_wire_runs_from_its_corner(
    rgba: &Vec<u8>,
    cols: u32,
    rows: u32,
    order: ScanOrder,
    r: Vec<[u8; 4]>,
    x: int,
    y: int,
)
    requires
        addressable(rgba@, cols, rows),
        call_ensures(segment_colours, (rgba, cols, rows, order), r),
        cols > 0,
        rows > 0,
        rgba@.len() == cols * rows * 4,
        0 <= x < cols,
        0 <= y < rows,
    ensures
        ({
            let corner = order.start_corner;
            let right = if corner == Corner::TopLeft || corner == Corner::BottomLeft {
                x
            } else {
                cols - 1 - x
            };
            let down = if corner == Corner::TopLeft || corner == Corner::TopRight {
                y
            } else {
                rows - 1 - y
            };
            let n = match order.primary {
                Axis::Horizontal => if order.serpentine && down % 2 == 1 {
                    down * cols + (cols - 1 - right)
                } else {
                    down * cols + right
                },
                Axis::Vertical => if order.serpentine && right % 2 == 1 {
                    right * rows + (rows - 1 - down)
                } else {
                    right * rows + down
                },
            };
            let p = r@[n]@;
            let i = (y * cols + x) * 4;
            &&& r@.len() == cols * rows
            &&& 0 <= n < r@.len()
            &&& p[0] == rgba@[i + 2]
            &&& p[1] == rgba@[i + 1]
            &&& p[2] == rgba@[i]
            &&& p[3] == rgba@[i + 3]
        }),
{
    let c = cols as int;
    let h = rows as int;
    let corner = order.start_corner;
    let right = if corner == Corner::TopLeft || corner == Corner::BottomLeft {
        x
    } else {
        c - 1 - x
    };
    let down = if corner == Corner::TopLeft || corner == Corner::TopRight {
        y
    } else {
        h - 1 - y
    };
    let (line, along, width) = match order.primary {
        Axis::Horizontal => (
            down,
            if order.serpentine && down % 2 == 1 {
                c - 1 - right
            } else {
                right
            },
            c,
        ),
        Axis::Vertical => (
            right,
            if order.serpentine && right % 2 == 1 {
                h - 1 - down
            } else {
                down
            },
            h,
        ),
    };
    let n = line * width + along;
    vstd::arithmetic::div_mod::lemma_fundamental_div_mod_converse(n, width, line, along);
    assert(order.place(c, h, n) == (x, y));
    assert(0 <= n < c * h) by {
        if order.primary == Axis::Horizontal {
            assert(0 <= n < c * h) by (nonlinear_arith)
                requires
                    n == line * c + along,
                    0 <= along < c,
                    0 <= line < h,
            ;
        } else {
            assert(0 <= n < c * h) by (nonlinear_arith)
                requires
                    n == line * h + along,
                    0 <= along < h,
                    0 <= line < c,
            ;
        }
    }
    let i = (y * c + x) * 4;
    assert(0 <= y * c + x < c * h) by (nonlinear_arith)
        requires
            0 <= x < c,
            0 <= y < h,
    ;
    assert(i + 4 <= rgba@.len());
    let q = r@[n];
    assert(q@ == ({
        let p = pixel_at(rgba@, cols, order.place(c, h, n));
        seq![p[2], p[1], p[0], p[3]]
    }));
}

} // verus!
