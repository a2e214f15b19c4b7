//! The card with the program's identity: shown for a moment when the program
//! starts, and from the help menu with the credits. Times are nanoseconds.

use vstd::prelude::*;

use crate::diagnostics::Rgb;
use crate::ieee::Single;
use crate::state::{Moment, SharedState, StateView};
use crate::text::{is_line, join, join_of, lemma_lines_of_join, lines, number, parse_number};
use crate::video::passed;

verus! {

/// How long the card stays when the program starts.
pub const LAUNCH_HOLD: u64 = 2_400_000_000;

/// The last part of that, in which it fades.
pub const LAUNCH_FADE: u64 = 220_000_000;

/// How often the card is drawn.
pub const FRAME_INTERVAL: u64 = 33_000_000;

/// How the card is shown.
#[derive(Clone, Copy, PartialEq, Eq, Structural, Debug)]
pub enum CardPresentation {
    /// When the program starts: for a while, until any input.
    Launch,
    /// From the help menu, until it is closed.
    Invoked,
}

impl CardPresentation {
    /// How opaque the black behind the card is.
    pub open spec fn darkness(self) -> u8 {
        match self {
            CardPresentation::Launch => 248,
            CardPresentation::Invoked => 232,
        }
    }

    pub fn backdrop(self) -> (alpha: u8)
        ensures
            alpha == self.darkness(),
    {
        match self {
            CardPresentation::Launch => 248,
            CardPresentation::Invoked => 232,
        }
    }
}

/// From the help menu the card only dims the desk; it does not replace it.
pub proof fn about_dims_less_than_launch()
    ensures
        CardPresentation::Invoked.darkness() < CardPresentation::Launch.darkness(),
{
}

/// When the card is up.
#[derive(Clone, Copy, PartialEq, Eq, Structural, Debug)]
pub struct Cards {
    /// The program has just started; no frame was drawn yet.
    pub pending: bool,
    pub launched_at: Option<Moment>,
    pub invoked_at: Option<Moment>,
}

impl Cards {
    /// The card with its start on record, from the first frame on.
    pub open spec fn begun(self, now: Moment) -> Cards {
        if self.pending {
            Cards { pending: false, launched_at: Some(now), ..self }
        } else {
            self
        }
    }

    /// How long the card is up since the program started and how long it will
    /// be, where it is.
    pub open spec fn timing(self, now: Moment) -> Option<(int, int)> {
        match self.begun(now).launched_at {
            Some(at) if passed(at, now) < LAUNCH_HOLD => Some(
                (passed(at, now), LAUNCH_HOLD - passed(at, now)),
            ),
            _ => None,
        }
    }

    /// How long the card is up since the program started and how long it will
    /// be, where it is.
    pub fn launch_card_timing(&mut self, now: Moment) -> (r: Option<(u64, u64)>)
        ensures
            r is Some == (old(self).timing(now) is Some),
            r matches Some((elapsed, remaining)) ==> {
                &&& elapsed == (old(self).timing(now)->0).0
                &&& remaining == (old(self).timing(now)->0).1
            },
            *final(self) == (if r is Some {
                old(self).begun(now)
            } else {
                Cards { launched_at: None, ..old(self).begun(now) }
            }),
    {
        if self.pending {
            self.pending = false;
            self.launched_at = Some(now);
        }
        match self.launched_at {
            None => None,
            Some(at) => {
                let elapsed: u64 = if now > at {
                    now - at
                } else {
                    0
                };
                if elapsed >= LAUNCH_HOLD {
                    self.launched_at = None;
                    None
                } else {
                    Some((elapsed, LAUNCH_HOLD - elapsed))
                }
            },
        }
    }

    /// The launch card ends early on any input.
    pub fn end_launch(&mut self, skipped: bool, closed: bool)
        ensures
            *final(self) == (if skipped || closed {
                Cards { launched_at: None, ..*old(self) }
            } else {
                *old(self)
            }),
    {
        if skipped || closed {
            self.launched_at = None;
        }
    }

    /// How long the card is up from the help menu; it starts with this frame
    /// where it was not.
    pub fn invoked_for(&mut self, now: Moment) -> (elapsed: u64)
        ensures
            ({
                let at = match old(self).invoked_at {
                    Some(at) => at,
                    None => now,
                };
                &&& elapsed == passed(at, now)
                &&& *final(self) == (Cards { invoked_at: Some(at), ..*old(self) })
            }),
    {
        let at: u64 = match self.invoked_at {
            Some(at) => at,
            None => now,
        };
        self.invoked_at = Some(at);
        if now > at {
            now - at
        } else {
            0
        }
    }

    /// The card from the help menu is closed.
    pub fn end_invoked(&mut self, state: &mut SharedState)
        ensures
            *final(self) == (Cards { invoked_at: None, ..*old(self) }),
            final(state)@ == (StateView {
                panels: crate::state::Panels { about: false, ..old(state)@.panels },
                ..old(state)@
            }),
    {
        self.invoked_at = None;
        let p: crate::state::Panels = state.panels;
        state.panels = crate::state::Panels { about: false, ..p };
    }
}

/// Which card is up: the launch card before any other, and none over the
/// release notes.
pub fn card_shown(launching: bool, release_notes: bool, about: bool) -> (r: Option<
    CardPresentation,
>)
    ensures
        r == (if launching {
            Some(CardPresentation::Launch)
        } else if !release_notes && about {
            Some(CardPresentation::Invoked)
        } else {
            None
        }),
{
    if launching {
        Some(CardPresentation::Launch)
    } else if !release_notes && about {
        Some(CardPresentation::Invoked)
    } else {
        None
    }
}

/// When the card is drawn again.
pub fn card_repaint(remaining: u64) -> (r: u64)
    ensures
        r == (if remaining < FRAME_INTERVAL {
            remaining
        } else {
            FRAME_INTERVAL
        }),
{
    if remaining < FRAME_INTERVAL {
        remaining
    } else {
        FRAME_INTERVAL
    }
}

/// The launch card is up from the first frame for as long as it is held, and
/// no longer.
pub proof fn the_launch_card_is_held(c: Cards, first: Moment, later: Moment)
    requires
        c.pending,
        first <= later,
    ensures
        c.timing(first) == Some((0int, LAUNCH_HOLD as int)),
        c.begun(first).timing(later) is Some == (later - first < LAUNCH_HOLD),
{
}

/// The colours of the donut, one for each series of releases in turn.
pub open spec fn accent(n: int) -> Rgb {
    if n == 0 {
        Rgb { r: 76, g: 255, b: 225 }
    } else if n == 1 {
        Rgb { r: 255, g: 124, b: 159 }
    } else if n == 2 {
        Rgb { r: 255, g: 196, b: 92 }
    } else if n == 3 {
        Rgb { r: 92, g: 210, b: 255 }
    } else if n == 4 {
        Rgb { r: 154, g: 255, b: 150 }
    } else if n == 5 {
        Rgb { r: 92, g: 168, b: 255 }
    } else {
        Rgb { r: 183, g: 135, b: 255 }
    }
}

/// The colour of the donut for a version.
pub fn torus_colour(major: &str, minor: &str) -> (r: Rgb)
    requires
        number(major@) is Some,
        number(minor@) is Some,
        number(major@)->0 + number(minor@)->0 <= u64::MAX,
    ensures
        r == accent((number(major@)->0 + number(minor@)->0) % 7),
{
    let a: u64 = match parse_number(major) {
        Some(n) => n,
        None => 0,
    };
    let b: u64 = match parse_number(minor) {
        Some(n) => n,
        None => 0,
    };
    let n: u64 = (a + b) % 7;
    if n == 0 {
        Rgb { r: 76, g: 255, b: 225 }
    } else if n == 1 {
        Rgb { r: 255, g: 124, b: 159 }
    } else if n == 2 {
        Rgb { r: 255, g: 196, b: 92 }
    } else if n == 3 {
        Rgb { r: 92, g: 210, b: 255 }
    } else if n == 4 {
        Rgb { r: 154, g: 255, b: 150 }
    } else if n == 5 {
        Rgb { r: 92, g: 168, b: 255 }
    } else {
        Rgb { r: 183, g: 135, b: 255 }
    }
}

/// Two series that follow each other have different colours.
pub proof fn the_colour_changes_with_the_series(major: u64, minor: u64)
    requires
        major + minor < u64::MAX,
    ensures
        accent((major + minor) % 7) != accent((major + (minor + 1)) % 7),
{
    let n = (major + minor) % 7;
    let m = (major + (minor + 1)) % 7;
    assert(n != m);
    assert(0 <= n < 7 && 0 <= m < 7);
}

/// The size of the donut, in characters.
pub const TORUS_WIDTH: usize = 64;

pub const TORUS_HEIGHT: usize = 22;

/// The shades of the donut, the darkest first.
pub open spec fn shade_of(shade: usize) -> char {
    if shade == 0 {
        '.'
    } else if shade == 1 {
        ','
    } else if shade == 2 {
        '-'
    } else if shade == 3 {
        '~'
    } else if shade == 4 {
        ':'
    } else if shade == 5 {
        ';'
    } else if shade == 6 {
        '='
    } else if shade == 7 {
        '!'
    } else if shade == 8 {
        '*'
    } else if shade == 9 {
        '#'
    } else if shade == 10 {
        '$'
    } else {
        '@'
    }
}

fn shade_char(shade: usize) -> (c: char)
    ensures
        c == shade_of(shade),
{
    if shade == 0 {
        '.'
    } else if shade == 1 {
        ','
    } else if shade == 2 {
        '-'
    } else if shade == 3 {
        '~'
    } else if shade == 4 {
        ':'
    } else if shade == 5 {
        ';'
    } else if shade == 6 {
        '='
    } else if shade == 7 {
        '!'
    } else if shade == 8 {
        '*'
    } else if shade == 9 {
        '#'
    } else if shade == 10 {
        '$'
    } else {
        '@'
    }
}

/// The donut while it is drawn: its characters, and how near each of them is.
pub struct TorusCanvas {
    pub pixels: Vec<char>,
    pub depth: Vec<Single>,
}

/// Whether a character can be of the donut: blank, or one of its shades.
pub open spec fn is_pixel(c: char) -> bool {
    c == ' ' || exists|shade: usize| c == #[trigger] shade_of(shade)
}

impl TorusCanvas {
    /// Every character is blank or a shade, and there are as many as the size
    /// says.
    pub open spec fn wf(self) -> bool {
        &&& self.pixels@.len() == TORUS_WIDTH * TORUS_HEIGHT
        &&& self.depth@.len() == TORUS_WIDTH * TORUS_HEIGHT
        &&& forall|i: int| 0 <= i < self.pixels@.len() ==> is_pixel(#[trigger] self.pixels@[i])
    }

    pub fn new() -> (r: TorusCanvas)
        ensures
            r.wf(),
            forall|i: int| 0 <= i < r.pixels@.len() ==> r.pixels@[i] == ' ',
            forall|i: int| 0 <= i < r.depth@.len() ==> r.depth@[i] == (Single { bits: 0 }),
    {
        let mut pixels: Vec<char> = Vec::new();
        let mut depth: Vec<Single> = Vec::new();
        let n: usize = TORUS_WIDTH * TORUS_HEIGHT;
        let mut i: usize = 0;
        while i < n
            invariant
                i <= n,
                pixels@.len() == i,
                depth@.len() == i,
                forall|j: int| 0 <= j < i ==> pixels@[j] == ' ',
                forall|j: int| 0 <= j < i ==> depth@[j] == (Single { bits: 0 }),
            decreases n - i,
        {
            pixels.push(' ');
            depth.push(Single { bits: 0 });
            i = i + 1;
        }
        TorusCanvas { pixels, depth }
    }

    /// Whether a point of the donut is seen: it is lit, on the canvas and
    /// nearer than what is there.
    pub open spec fn seen(self, x: i64, y: i64, near: Single, light: Single) -> bool {
        light.positive() && 0 <= x < TORUS_WIDTH && 0 <= y < TORUS_HEIGHT && self.depth@[y
            * TORUS_WIDTH + x].less(near)
    }

    /// Draw a point of the donut.
    pub fn plot(&mut self, x: i64, y: i64, near: Single, light: Single, shade: usize)
        requires
            old(self).wf(),
        ensures
            final(self).wf(),
            final(self).pixels@ == (if old(self).seen(x, y, near, light) {
                old(self).pixels@.update(y * TORUS_WIDTH + x, shade_of(shade))
            } else {
                old(self).pixels@
            }),
            final(self).depth@ == (if old(self).seen(x, y, near, light) {
                old(self).depth@.update(y * TORUS_WIDTH + x, near)
            } else {
                old(self).depth@
            }),
    {
        if light.gt_zero() && 0 <= x && x < 64 && 0 <= y && y < 22 {
            let i: usize = y as usize * TORUS_WIDTH + x as usize;
            if self.depth[i].lt(near) {
                self.depth.set(i, near);
                self.pixels.set(i, shade_char(shade));
            }
        }
    }

    /// The rows of the donut.
    pub open spec fn rows(self) -> Seq<Seq<char>> {
        Seq::new(
            TORUS_HEIGHT as nat,
            |y: int| self.pixels@.subrange(y * TORUS_WIDTH, (y + 1) * TORUS_WIDTH),
        )
    }

    /// The donut as text, a line a row.
    pub fn frame(&self) -> (r: String)
        requires
            self.wf(),
        ensures
            r@ == join(self.rows(), "\n"@),
            r@.len() == 1429,
            lines(r@) == self.rows(),
    {
        let mut rows: Vec<String> = Vec::new();
        let mut y: usize = 0;
        while y < TORUS_HEIGHT
            invariant
                y <= TORUS_HEIGHT,
                self.wf(),
                rows@.len() == y,
                forall|i: int| 0 <= i < y ==> (#[trigger] rows@[i])@ == self.rows()[i],
            decreases TORUS_HEIGHT - y,
        {
            let row: String = crate::text::text_of(
                &self.pixels,
                y * TORUS_WIDTH,
                (y + 1) * TORUS_WIDTH,
            );
            rows.push(row);
            y = y + 1;
        }
        proof {
            assert(crate::text::texts(rows@) =~= self.rows());
            the_donut_keeps_its_size(*self);
        }
        join_of(&rows, "\n")
    }
}

/// The text of the first rows of the donut.
proof fn lemma_donut_rows(c: TorusCanvas, n: int)
    requires
        c.wf(),
        1 <= n <= TORUS_HEIGHT,
    ensures
        ({
            let text = join(c.rows().take(n), "\n"@);
            &&& text.len() == 65 * n - 1
            &&& forall|i: int|
                0 <= i < text.len() ==> #[trigger] text[i] == (if i % 65 == 64 {
                    '\n'
                } else {
                    c.pixels@[i / 65 * 64 + i % 65]
                })
        }),
    decreases n,
{
    reveal_strlit("\n");
    let rows = c.rows().take(n);
    let text = join(rows, "\n"@);
    let row = c.rows()[n - 1];
    assert(rows.last() == row);
    assert(row.len() == 64);
    if n == 1 {
        assert(text == row);
    } else {
        lemma_donut_rows(c, n - 1);
        let before = join(c.rows().take(n - 1), "\n"@);
        assert(rows.drop_last() =~= c.rows().take(n - 1));
        assert(text == before + "\n"@ + row);
        assert forall|i: int| 0 <= i < text.len() implies #[trigger] text[i] == (if i % 65 == 64 {
            '\n'
        } else {
            c.pixels@[i / 65 * 64 + i % 65]
        }) by {
            if i < before.len() {
                assert(text[i] == before[i]);
            } else if i > before.len() {
                let x = i - before.len() - 1;
                assert(text[i] == row[x]);
                assert(i == 65 * (n - 1) + x);
                assert(row[x] == c.pixels@[64 * (n - 1) + x]);
            }
        }
    }
}

/// The donut's text is always of one size: 22 lines of 64 characters, with no
/// line feed after the last, and each of them is blank or a shade.
pub proof fn the_donut_keeps_its_size(c: TorusCanvas)
    requires
        c.wf(),
    ensures
        ({
            let text = join(c.rows(), "\n"@);
            &&& text.len() == 1429
            &&& text.last() != '\n'
            &&& forall|i: int|
                0 <= i < text.len() ==> #[trigger] text[i] == '\n' || is_pixel(text[i])
            &&& lines(text).len() == TORUS_HEIGHT
            &&& forall|y: int|
                0 <= y < TORUS_HEIGHT ==> (#[trigger] lines(text)[y]).len() == TORUS_WIDTH
            &&& lines(text) == c.rows()
        }),
{
    let rows = c.rows();
    let text = join(rows, "\n"@);
    reveal_strlit("\n");
    assert("\n"@ =~= seq!['\n']);
    assert(rows.take(TORUS_HEIGHT as int) =~= rows);
    lemma_donut_rows(c, TORUS_HEIGHT as int);
    assert forall|y: int| 0 <= y < rows.len() implies is_line(#[trigger] rows[y]) by {
        let row = rows[y];
        assert forall|x: int| 0 <= x < row.len() implies #[trigger] row[x] != '\n' && row[x]
            != '\r' by {
            assert(row[x] == c.pixels@[y * 64 + x]);
            assert(is_pixel(row[x]));
        }
    }
    lemma_lines_of_join(rows);
    assert(is_pixel(c.pixels@[1407]));
    assert(text[1428] != '\n');
    assert forall|i: int| 0 <= i < text.len() implies #[trigger] text[i] == '\n' || is_pixel(
        text[i],
    ) by {
        if i % 65 != 64 {
            assert(0 <= i / 65 * 64 + i % 65 < c.pixels@.len());
            assert(is_pixel(c.pixels@[i / 65 * 64 + i % 65]));
        }
    }
}

/// The card hides the desk nearly to the full when the program starts, and
/// lets more of it through when it was asked for.
pub proof fn a_card_stands_on_its_black(p: CardPresentation, alpha: u8)
    requires
        call_ensures(CardPresentation::backdrop, (p,), alpha),
    ensures
        p == CardPresentation::Launch ==> alpha == 248,
        p == CardPresentation::Invoked ==> alpha == 232,
{
}

/// The launch card starts with the first frame, what it has been up and what
/// it will be make up its time together, and then it is gone.
pub proof fn the_launch_card_runs_down(c: &mut Cards, now: Moment, r: Option<(u64, u64)>)
    requires
        call_ensures(Cards::launch_card_timing, (c, now), r),
    ensures
        !final(c).pending,
        final(c).invoked_at == old(c).invoked_at,
        old(c).pending ==> r == Some((0u64, 2_400_000_000u64)) && final(c).launched_at == Some(now),
        !old(c).pending && old(c).launched_at is None ==> r is None,
        !old(c).pending ==> (old(c).launched_at matches Some(at) ==> {
            &&& r is Some == (now < at + 2_400_000_000)
            &&& r is Some ==> final(c).launched_at == Some(at)
            &&& r is Some ==> (r->0).0 + (r->0).1 == 2_400_000_000
            &&& r is Some && at <= now ==> (r->0).0 == now - at
            &&& r is Some && now < at ==> (r->0).0 == 0
        }),
        r is None ==> final(c).launched_at is None,
{
}

/// Any input, and closing it, ends the launch card, and nothing else does.
pub proof fn any_input_ends_the_launch_card(c: &mut Cards, skipped: bool, closed: bool)
    requires
        call_ensures(Cards::end_launch, (c, skipped, closed), ()),
    ensures
        skipped ==> final(c).launched_at is None,
        closed ==> final(c).launched_at is None,
        !skipped && !closed ==> final(c).launched_at == old(c).launched_at,
        final(c).pending == old(c).pending,
        final(c).invoked_at == old(c).invoked_at,
{
}

/// The card that was asked for counts from its first frame until it is closed,
/// and then starts over.
pub proof fn the_card_counts_from_its_first_frame(
    c: &mut Cards,
    first: Moment,
    e: u64,
    d: &mut Cards,
    later: Moment,
    f: u64,
)
    requires
        call_ensures(Cards::invoked_for, (c, first), e),
        call_ensures(Cards::invoked_for, (d, later), f),
        *old(d) == *final(c),
        old(c).invoked_at is None,
    ensures
        e == 0,
        first <= later ==> f == later - first,
        later < first ==> f == 0,
        final(c).invoked_at == Some(first),
        final(d).invoked_at == Some(first),
        final(d).pending == old(c).pending,
        final(d).launched_at == old(c).launched_at,
{
}

/// Closing the card that was asked for takes it from the screen and leaves
/// every other window as it is.
pub proof fn a_closed_card_is_gone(c: &mut Cards, state: &mut SharedState)
    requires
        call_ensures(Cards::end_invoked, (c, state), ()),
    ensures
        final(c).invoked_at is None,
        final(c).pending == old(c).pending,
        final(c).launched_at == old(c).launched_at,
        !final(state)@.panels.about,
        final(state)@.panels == (crate::state::Panels { about: false, ..old(state)@.panels }),
        final(state)@ == (StateView { panels: final(state)@.panels, ..old(state)@ }),
{
}

/// At most one card is up: the launch card while it lasts, the other only
/// where it was asked for and no release notes are open.
pub proof fn one_card_is_up(
    launching: bool,
    release_notes: bool,
    about: bool,
    r: Option<CardPresentation>,
)
    requires
        call_ensures(card_shown, (launching, release_notes, about), r),
    ensures
        r == Some(CardPresentation::Launch) <==> launching,
        r == Some(CardPresentation::Invoked) <==> !launching && about && !release_notes,
        r is None <==> !launching && (release_notes || !about),
{
}

/// The card is drawn again within 33 milliseconds, and no later than it ends.
pub proof fn the_card_is_drawn_in_time(remaining: u64, r: u64)
    requires
        call_ensures(card_repaint, (remaining,), r),
    ensures
        r <= remaining,
        r <= 33_000_000,
        r == remaining || r == 33_000_000,
{
}

/// The series take the seven colours in turn.
pub proof fn the_series_take_the_colours_in_turn(
    major: &str,
    minor: &str,
    r: Rgb,
    major2: &str,
    minor2: &str,
    r2: Rgb,
)
    requires
        call_ensures(torus_colour, (major, minor), r),
        call_ensures(torus_colour, (major2, minor2), r2),
        number(major@) is Some,
        number(minor@) is Some,
        number(major2@) is Some,
        number(minor2@) is Some,
        number(major@)->0 + number(minor@)->0 <= u64::MAX,
        number(major2@)->0 + number(minor2@)->0 <= u64::MAX,
    ensures
        ({
            let n = number(major@)->0 + number(minor@)->0;
            let m = number(major2@)->0 + number(minor2@)->0;
            &&& n % 7 == 0 ==> r == (Rgb { r: 76, g: 255, b: 225 })
            &&& n % 7 == 1 ==> r == (Rgb { r: 255, g: 124, b: 159 })
            &&& n % 7 == 2 ==> r == (Rgb { r: 255, g: 196, b: 92 })
            &&& n % 7 == 3 ==> r == (Rgb { r: 92, g: 210, b: 255 })
            &&& n % 7 == 4 ==> r == (Rgb { r: 154, g: 255, b: 150 })
            &&& n % 7 == 5 ==> r == (Rgb { r: 92, g: 168, b: 255 })
            &&& n % 7 == 6 ==> r == (Rgb { r: 183, g: 135, b: 255 })
            &&& r == r2 <==> n % 7 == m % 7
        }),
{
    let n = number(major@)->0 + number(minor@)->0;
    let m = number(major2@)->0 + number(minor2@)->0;
    assert(0 <= n % 7 < 7 && 0 <= m % 7 < 7);
}

/// A new canvas is blank and as far away as can be.
pub proof fn a_new_canvas_is_blank(c: TorusCanvas)
    requires
        call_ensures(TorusCanvas::new, (), c),
    ensures
        c.pixels@.len() == 1408,
        c.depth@.len() == 1408,
        forall|i: int| 0 <= i < 1408 ==> c.pixels@[i] == ' ',
        forall|i: int| 0 <= i < 1408 ==> c.depth@[i].bits == 0,
{
}

/// A point is drawn where it is lit, on the canvas and nearer than what stands
/// there: its shade and its depth take that place, and no other changes. The
/// shades run from a dot to an at sign.
pub proof fn a_nearer_point_covers_a_farther_one(
    c: &mut TorusCanvas,
    x: i64,
    y: i64,
    near: Single,
    light: Single,
    shade: usize,
)
    requires
        old(c).wf(),
        call_ensures(TorusCanvas::plot, (c, x, y, near, light, shade), ()),
    ensures
        !light.positive() ==> final(c).pixels@ == old(c).pixels@ && final(c).depth@ == old(c).depth@,
        !(0 <= x < 64 && 0 <= y < 22) ==> final(c).pixels@ == old(c).pixels@ && final(c).depth@
            == old(c).depth@,
        0 <= x < 64 && 0 <= y < 22 ==> ({
            let i = 64 * y + x;
            &&& light.positive() && old(c).depth@[i].less(near) ==> {
                &&& final(c).depth@[i] == near
                &&& shade < 12 ==> final(c).pixels@[i] == ".,-~:;=!*#$@"@[shade as int]
                &&& shade >= 12 ==> final(c).pixels@[i] == '@'
            }
            &&& !old(c).depth@[i].less(near) ==> final(c).pixels@ == old(c).pixels@
                && final(c).depth@ == old(c).depth@
            &&& forall|j: int|
                0 <= j < 1408 && j != i ==> final(c).pixels@[j] == old(c).pixels@[j]
            &&& forall|j: int| 0 <= j < 1408 && j != i ==> final(c).depth@[j] == old(c).depth@[j]
        }),
{
    reveal_strlit(".,-~:;=!*#$@");
}

/// Where the character of a column and row stands in the donut's text.
pub open spec fn place(x: int, y: int) -> int {
    65 * y + x
}

/// The text of the donut holds the character of each place, 64 to a line.
pub proof fn the_text_holds_each_character(c: &TorusCanvas, r: String)
    requires
        c.wf(),
        call_ensures(TorusCanvas::frame, (c,), r),
    ensures
        r@.len() == 1429,
        forall|x: int, y: int|
            0 <= x < 64 && 0 <= y < 22 ==> r@[#[trigger] place(x, y)] == c.pixels@[64 * y + x],
        forall|y: int| 0 <= y < 21 ==> r@[#[trigger] place(64, y)] == '\n',
{
    assert(c.rows().take(TORUS_HEIGHT as int) =~= c.rows());
    lemma_donut_rows(*c, TORUS_HEIGHT as int);
    assert forall|x: int, y: int| 0 <= x < 64 && 0 <= y < 22 implies r@[#[trigger] place(x, y)]
        == c.pixels@[64 * y + x] by {
        let i = 65 * y + x;
        assert(i % 65 == x && i / 65 == y);
        assert(r@[i] == r@[i]);
    }
    assert forall|y: int| 0 <= y < 21 implies r@[#[trigger] place(64, y)] == '\n' by {
        let i = 65 * y + 64;
        assert(i % 65 == 64);
        assert(r@[i] == r@[i]);
    }
}

} // verus!
