//! Files and pictures: what a dropped file becomes, where a file is looked for,
//! which font a text gets, and laying glyphs into a picture.

use vstd::prelude::*;
use vstd::arithmetic::div_mod::{lemma_fundamental_div_mod, lemma_fundamental_div_mod_converse};

use crate::commands::{edit_cues, is_new_base, new_base, record, ONE, ONE_HOUR};
use crate::ieee::{Double, Single};
use crate::path::FilePath;
use crate::qid::Qid;
use crate::show::{clone_cues, Cue, CueKind, FadeType};
use crate::state::{AppCommand, SharedState, StateView};
use crate::text::{same, slice_opt, text_opt};

verus! {

/// A text in small letters, as `str::to_lowercase` writes it.
pub uninterp spec fn lower_case(s: Seq<char>) -> Seq<char>;

/// A text in small letters, by `str::to_lowercase`.
#[verifier::external_body]
fn lowercase(s: &str) -> (r: String)
    ensures
        r@ == lower_case(s@),
{
    s.to_lowercase()
}

/// What a dropped file is.
#[derive(Clone, Copy, PartialEq, Eq, Structural, Debug)]
pub enum DroppedKind {
    Project,
    Video,
    Audio,
    Unsupported,
}

/// What a file with this extension is, in small letters.
pub open spec fn kind_of(ext: Option<Seq<char>>) -> DroppedKind {
    match ext {
        None => DroppedKind::Unsupported,
        Some(e) => if e == "qproj"@ {
            DroppedKind::Project
        } else if e == "mp4"@ || e == "mov"@ || e == "mkv"@ || e == "avi"@ {
            DroppedKind::Video
        } else if e == "wav"@ || e == "mp3"@ || e == "flac"@ || e == "ogg"@ || e == "aiff"@ || e
            == "wma"@ {
            DroppedKind::Audio
        } else {
            DroppedKind::Unsupported
        },
    }
}

/// What a file with this extension is; the extension is in small letters.
pub fn kind_of_lower(ext: Option<&str>) -> (r: DroppedKind)
    ensures
        r == kind_of(
            match ext {
                Some(e) => Some(e@),
                None => None,
            },
        ),
{
    match ext {
        None => DroppedKind::Unsupported,
        Some(e) => {
            if same(e, "qproj") {
                DroppedKind::Project
            } else if same(e, "mp4") || same(e, "mov") || same(e, "mkv") || same(e, "avi") {
                DroppedKind::Video
            } else if same(e, "wav") || same(e, "mp3") || same(e, "flac") || same(e, "ogg") || same(
                e,
                "aiff",
            ) || same(e, "wma") {
                DroppedKind::Audio
            } else {
                DroppedKind::Unsupported
            }
        },
    }
}

/// What a dropped file is, by its extension in any letters.
pub fn dropped_kind(ext: Option<&str>) -> (r: DroppedKind)
    ensures
        r == kind_of(
            match ext {
                Some(e) => Some(lower_case(e@)),
                None => None,
            },
        ),
{
    match ext {
        None => kind_of_lower(None),
        Some(e) => {
            let lower: String = lowercase(e);
            kind_of_lower(Some(lower.as_str()))
        },
    }
}

/// The kind of cue a dropped file becomes: at full volume, from its start to
/// its end, without fades.
pub open spec fn dropped_cue_kind(video: bool, path: String) -> CueKind {
    let zero = Double::zero();
    let none = Single { bits: 0 };
    if video {
        CueKind::Video {
            path,
            start_time: zero,
            duration: zero,
            volume: Single { bits: ONE },
            pan: none,
            fade_in: none,
            fade_out: none,
            fade_type: FadeType::Linear,
            follow_mtc: false,
            mtc_start: Double { bits: ONE_HOUR },
        }
    } else {
        CueKind::Sound {
            path,
            start_time: zero,
            duration: zero,
            volume: Single { bits: ONE },
            pan: none,
            fade_in: none,
            fade_out: none,
            fade_type: FadeType::Linear,
        }
    }
}

/// Whether `t` is what `s` becomes when a file is dropped on the control
/// window: a project is opened, a sound or a video becomes a cue of the file's
/// name at the end of the list, and anything else is refused.
pub open spec fn file_dropped(
    s: StateView,
    kind: DroppedKind,
    stem: Option<Seq<char>>,
    file: FilePath,
    path: String,
    number: Qid,
    t: StateView,
) -> bool {
    match kind {
        DroppedKind::Project => t == (StateView {
            command_queue: s.command_queue.push(AppCommand::OpenProject { path: file }),
            ..s
        }),
        DroppedKind::Unsupported => t == s,
        _ => {
            let cue = t.show_file.cues.last();
            let name = match stem {
                Some(stem) => stem,
                None => "Dropped"@,
            };
            &&& is_new_base(cue.base, number, None, name, None)
            &&& cue.kind == dropped_cue_kind(kind == DroppedKind::Video, path)
            &&& cue.extra == 0
            &&& t == s.recorded().edited(s.show_file.cues.push(cue))
        },
    }
}

/// Take a dropped file whose kind is known. `number` is free.
pub fn take_dropped_file(
    state: &mut SharedState,
    kind: DroppedKind,
    stem: Option<&str>,
    file: FilePath,
    path: String,
    number: Qid,
) -> (taken: bool)
    ensures
        taken == (kind != DroppedKind::Unsupported),
        file_dropped(old(state)@, kind, slice_opt(stem), file, path, number, final(state)@),
{
    match kind {
        DroppedKind::Unsupported => {
            return false;
        },
        DroppedKind::Project => {
            state.command_queue.push(AppCommand::OpenProject { path: file });
            return true;
        },
        _ => {},
    }
    let zero: Double = Double { bits: 0 };
    let none: Single = Single { bits: 0 };
    let full: Single = Single { bits: ONE };
    let cue_kind: CueKind = if kind == DroppedKind::Video {
        CueKind::Video {
            path,
            start_time: zero,
            duration: zero,
            volume: full,
            pan: none,
            fade_in: none,
            fade_out: none,
            fade_type: FadeType::Linear,
            follow_mtc: false,
            mtc_start: Double { bits: ONE_HOUR },
        }
    } else {
        CueKind::Sound {
            path,
            start_time: zero,
            duration: zero,
            volume: full,
            pan: none,
            fade_in: none,
            fade_out: none,
            fade_type: FadeType::Linear,
        }
    };
    let name: String = match stem {
        Some(stem) => stem.to_owned(),
        None => "Dropped".to_owned(),
    };
    let cue: Cue = Cue { base: new_base(number, None, name, None), kind: cue_kind, extra: 0 };
    let ghost all = old(state)@.show_file.cues;
    let ghost new = cue;
    record(state);
    let mut cues: Vec<Cue> = clone_cues(&state.show_file.cues);
    cues.push(cue);
    edit_cues(state, cues);
    assert(state@.show_file.cues == all.push(new));
    assert(all.push(new).last() == new);
    true
}

/// A file was dropped on the control window. `ext` and `stem` are the parts of
/// its name, `number` is free.
pub fn handle_dropped_file(
    state: &mut SharedState,
    ext: Option<&str>,
    stem: Option<&str>,
    file: FilePath,
    path: String,
    number: Qid,
) -> (taken: bool)
    ensures
        ({
            let kind = kind_of(
                match ext {
                    Some(e) => Some(lower_case(e@)),
                    None => None,
                },
            );
            &&& taken == (kind != DroppedKind::Unsupported)
            &&& file_dropped(old(state)@, kind, slice_opt(stem), file, path, number, final(state)@)
        }),
{
    take_dropped_file(state, dropped_kind(ext), stem, file, path, number)
}

/// An entry of a directory.
pub enum DirEntry {
    /// It could not be read.
    Unreadable,
    File { name: String, path: String },
    /// A directory and its entries, where it could be listed.
    Directory { listed: bool, entries: Vec<DirEntry> },
    Other,
}

/// The first file of this name from the `i`th entry on, directory by
/// directory. Behind an entry that cannot be read nothing is found.
pub open spec fn found_in(entries: Seq<DirEntry>, name: Seq<char>, i: int) -> Option<Seq<char>>
    decreases entries, entries.len() - i,
{
    if i < 0 || i >= entries.len() {
        None
    } else {
        match entries[i] {
            DirEntry::Unreadable => None,
            DirEntry::File { name: n, path } => if n@ == name {
                Some(path@)
            } else {
                found_in(entries, name, i + 1)
            },
            DirEntry::Directory { listed, entries: inner } => {
                let below = if listed {
                    found_in(inner@, name, 0)
                } else {
                    None
                };
                if below is Some {
                    below
                } else {
                    found_in(entries, name, i + 1)
                }
            },
            DirEntry::Other => found_in(entries, name, i + 1),
        }
    }
}

/// The first file of this name from the `i`th entry of the project's directory
/// on. Here an entry that cannot be read is passed over.
pub open spec fn found_in_project(entries: Seq<DirEntry>, name: Seq<char>, i: int) -> Option<
    Seq<char>,
>
    decreases entries.len() - i,
{
    if i < 0 || i >= entries.len() {
        None
    } else {
        let here = match entries[i] {
            DirEntry::File { name: n, path } => if n@ == name {
                Some(path@)
            } else {
                None
            },
            DirEntry::Directory { listed, entries: inner } => if listed {
                found_in(inner@, name, 0)
            } else {
                None
            },
            _ => None,
        };
        if here is Some {
            here
        } else {
            found_in_project(entries, name, i + 1)
        }
    }
}

/// Look for a file by its name in a directory and all below it.
pub fn find_in_dir(entries: &Vec<DirEntry>, name: &str) -> (r: Option<String>)
    ensures
        text_opt(r) == found_in(entries@, name@, 0),
    decreases entries,
{
    let mut i: usize = 0;
    while i < entries.len()
        invariant
            i <= entries@.len(),
            found_in(entries@, name@, 0) == found_in(entries@, name@, i as int),
        decreases entries@.len() - i,
    {
        match &entries[i] {
            DirEntry::Unreadable => {
                return None;
            },
            DirEntry::File { name: n, path } => {
                if same(n.as_str(), name) {
                    return Some(path.as_str().to_owned());
                }
            },
            DirEntry::Directory { listed, entries: inner } => {
                if *listed {
                    let below: Option<String> = find_in_dir(inner, name);
                    if below.is_some() {
                        return below;
                    }
                }
            },
            DirEntry::Other => {},
        }
        i = i + 1;
    }
    None
}

fn find_in_project(entries: &Vec<DirEntry>, name: &str) -> (r: Option<String>)
    ensures
        text_opt(r) == found_in_project(entries@, name@, 0),
{
    let mut i: usize = 0;
    while i < entries.len()
        invariant
            i <= entries@.len(),
            found_in_project(entries@, name@, 0) == found_in_project(entries@, name@, i as int),
        decreases entries@.len() - i,
    {
        match &entries[i] {
            DirEntry::File { name: n, path } => {
                if same(n.as_str(), name) {
                    return Some(path.as_str().to_owned());
                }
            },
            DirEntry::Directory { listed, entries: inner } => {
                if *listed {
                    let below: Option<String> = find_in_dir(inner, name);
                    if below.is_some() {
                        return below;
                    }
                }
            },
            _ => {},
        }
        i = i + 1;
    }
    None
}

/// What a project's directory has of a file.
pub struct ProjectPlace {
    /// The file's path below the directory, and whether it is there.
    pub relative: String,
    pub relative_exists: bool,
    /// The name of the file, where its path ends in one.
    pub file_name: Option<String>,
    /// The directory's entries, where it could be listed.
    pub entries: Option<Vec<DirEntry>>,
}

/// Where a file is found: at its own place, below the project, then by its
/// name in all of the project's directories.
pub open spec fn resolved(path: Seq<char>, here: bool, project: Option<ProjectPlace>) -> Option<
    Seq<char>,
> {
    if here {
        Some(path)
    } else {
        match project {
            None => None,
            Some(p) => if p.relative_exists {
                Some(p.relative@)
            } else if p.file_name is Some && p.entries is Some {
                found_in_project(p.entries->0@, p.file_name->0@, 0)
            } else {
                None
            },
        }
    }
}

/// Find a file. `here` tells that its path is absolute and leads to it.
pub fn resolve_path(path: &str, here: bool, project: &Option<ProjectPlace>) -> (r: Option<String>)
    ensures
        text_opt(r) == resolved(path@, here, *project),
{
    if here {
        return Some(path.to_owned());
    }
    match project {
        None => None,
        Some(p) => {
            if p.relative_exists {
                return Some(p.relative.as_str().to_owned());
            }
            match (&p.file_name, &p.entries) {
                (Some(name), Some(entries)) => find_in_project(entries, name.as_str()),
                _ => None,
            }
        },
    }
}

/// Whether a directory or one below it lists a file of this name and path.
pub open spec fn lists(entries: Seq<DirEntry>, name: Seq<char>, path: Seq<char>) -> bool
    decreases entries,
{
    exists|i: int|
        0 <= i < entries.len() && match #[trigger] entries[i] {
            DirEntry::File { name: n, path: p } => n@ == name && p@ == path,
            DirEntry::Directory { entries: inner, .. } => lists(inner@, name, path),
            _ => false,
        }
}

proof fn lemma_found_is_listed(entries: Seq<DirEntry>, name: Seq<char>, i: int)
    requires
        0 <= i,
    ensures
        found_in(entries, name, i) matches Some(path) ==> lists(entries, name, path),
    decreases entries, entries.len() - i,
{
    if i < entries.len() {
        match entries[i] {
            DirEntry::Directory { listed, entries: inner } => {
                if listed {
                    lemma_found_is_listed(inner@, name, 0);
                }
            },
            _ => {},
        }
        lemma_found_is_listed(entries, name, i + 1);
    }
}

/// What is found in the project's directories has the name that was asked for.
pub proof fn files_are_found_by_name(entries: Seq<DirEntry>, name: Seq<char>, i: int)
    requires
        0 <= i,
    ensures
        found_in_project(entries, name, i) matches Some(path) ==> lists(entries, name, path),
    decreases entries.len() - i,
{
    if i < entries.len() {
        match entries[i] {
            DirEntry::Directory { listed, entries: inner } => {
                if listed {
                    lemma_found_is_listed(inner@, name, 0);
                }
            },
            _ => {},
        }
        files_are_found_by_name(entries, name, i + 1);
    }
}

/// Which font a text gets.
#[derive(Clone, Copy, PartialEq, Eq, Structural, Debug)]
pub enum FontChoice {
    BuiltIn,
    /// The file's font, which is known.
    Known,
    /// The file's font, once it is read.
    Load,
}

/// Which font a text gets: its own where it names one, read on first use.
pub fn text_font_family(font: &str, known: bool) -> (r: FontChoice)
    ensures
        r == (if font@.len() == 0 {
            FontChoice::BuiltIn
        } else if known {
            FontChoice::Known
        } else {
            FontChoice::Load
        }),
{
    if font.is_empty() {
        FontChoice::BuiltIn
    } else if known {
        FontChoice::Known
    } else {
        FontChoice::Load
    }
}

/// A glyph: its box in the atlas, and where it goes in the picture.
#[derive(Clone, Copy, PartialEq, Eq, Structural, Debug)]
pub struct Glyph {
    pub min_x: u16,
    pub min_y: u16,
    pub max_x: u16,
    pub max_y: u16,
    pub left: i32,
    pub top: i32,
}

/// The glyphs of a font: how much of each texel they cover, row by row.
pub struct Atlas {
    pub width: usize,
    pub height: usize,
    pub coverage: Vec<u8>,
}

impl Atlas {
    pub open spec fn wf(self) -> bool {
        self.coverage@.len() == self.width * self.height
    }
}

/// How much a glyph covers of the pixel at a column and row of the picture.
pub open spec fn coverage_at(g: Glyph, atlas: Atlas, x: int, y: int) -> u8 {
    let sx = g.min_x + (x - g.left);
    let sy = g.min_y + (y - g.top);
    if g.min_x <= sx < g.max_x && g.min_y <= sy < g.max_y && sx < atlas.width && sy
        < atlas.height {
        atlas.coverage@[sy * atlas.width + sx]
    } else {
        0
    }
}

/// A picture, four bytes a pixel, row by row.
pub struct Picture {
    pub width: usize,
    pub height: usize,
    pub rgba: Vec<u8>,
}

impl Picture {
    pub open spec fn wf(self) -> bool {
        &&& self.width > 0
        &&& self.rgba@.len() == self.width * self.height * 4
    }

    /// The bytes of the `p`th pixel.
    pub open spec fn pixel(self, p: int) -> (u8, u8, u8, u8) {
        (self.rgba@[4 * p], self.rgba@[4 * p + 1], self.rgba@[4 * p + 2], self.rgba@[4 * p + 3])
    }
}

/// A pixel once a glyph is laid over it: where it covers any of it, the pixel
/// takes the colour, and is at least as opaque as the coverage makes it.
pub open spec fn inked(
    pixel: (u8, u8, u8, u8),
    cover: u8,
    colour: (u8, u8, u8),
    alpha: Seq<u8>,
) -> (u8, u8, u8, u8) {
    if cover > 0 {
        let a = alpha[cover as int];
        (
            colour.0,
            colour.1,
            colour.2,
            if a > pixel.3 {
                a
            } else {
                pixel.3
            },
        )
    } else {
        pixel
    }
}

/// Whether the `p`th pixel of a picture was reached, row by row of the glyph.
spec fn reached(g: Glyph, width: int, p: int, gy: int, gx: int) -> bool {
    let row = p / width - g.top;
    let col = p % width - g.left;
    row < gy || (row == gy && col < gx)
}

proof fn lemma_pixel_index(width: int, x: int, y: int)
    requires
        0 <= x < width,
        0 <= y,
    ensures
        (y * width + x) / width == y,
        (y * width + x) % width == x,
{
    lemma_fundamental_div_mod_converse(y * width + x, width, y, x);
}

proof fn lemma_pixel_is(width: int, p: int)
    requires
        width > 0,
        0 <= p,
    ensures
        p == (p / width) * width + p % width,
        0 <= p % width < width,
        0 <= p / width,
{
    lemma_fundamental_div_mod(p, width);
    assert(width * (p / width) == (p / width) * width) by (nonlinear_arith);
    assert(0 <= p / width) by (nonlinear_arith)
        requires
            width > 0,
            0 <= p,
    ;
}

proof fn lemma_cell_in_range(width: int, height: int, x: int, y: int)
    requires
        0 <= x < width,
        0 <= y < height,
    ensures
        0 <= y * width + x < width * height,
{
    assert(y * width + x < width * height) by (nonlinear_arith)
        requires
            0 <= x < width,
            0 <= y < height,
    ;
    assert(0 <= y * width) by (nonlinear_arith)
        requires
            0 <= x < width,
            0 <= y,
    ;
}

proof fn lemma_row_in_range(width: int, height: int, p: int)
    requires
        width > 0,
        0 <= p < width * height,
    ensures
        p / width < height,
{
    assert(p / width < height) by (nonlinear_arith)
        requires
            width > 0,
            0 <= p < width * height,
    ;
}

/// Lay a glyph into a picture. `alpha` tells for each coverage how opaque it
/// makes a pixel.
pub fn lay_glyph(
    picture: &mut Picture,
    g: &Glyph,
    atlas: &Atlas,
    colour: (u8, u8, u8),
    alpha: &Vec<u8>,
)
    requires
        old(picture).wf(),
        old(picture).width <= i32::MAX,
        old(picture).height <= i32::MAX,
        atlas.wf(),
        alpha@.len() == 256,
    ensures
        final(picture).wf(),
        final(picture).width == old(picture).width,
        final(picture).height == old(picture).height,
        forall|p: int|
            0 <= p < old(picture).width * old(picture).height ==> #[trigger] final(picture).pixel(p)
                == inked(
                old(picture).pixel(p),
                coverage_at(
                    *g,
                    *atlas,
                    p % (old(picture).width as int),
                    p / (old(picture).width as int),
                ),
                colour,
                alpha@,
            ),
{
    let ghost start = *picture;
    let width: usize = picture.width;
    let height: usize = picture.height;
    let ghost w = width as int;
    let ghost n = width * height;
    let gw: u16 = if g.max_x > g.min_x {
        g.max_x - g.min_x
    } else {
        0
    };
    let gh: u16 = if g.max_y > g.min_y {
        g.max_y - g.min_y
    } else {
        0
    };
    let mut gy: u16 = 0;
    assert forall|p: int| 0 <= p < n && reached(*g, w, p, 0, 0) implies coverage_at(
        *g,
        *atlas,
        p % w,
        p / w,
    ) == 0 by {}
    while gy < gh
        invariant
            gy <= gh,
            gh == (if g.max_y > g.min_y {
                g.max_y - g.min_y
            } else {
                0
            }),
            gw == (if g.max_x > g.min_x {
                g.max_x - g.min_x
            } else {
                0
            }),
            picture.wf(),
            start.wf(),
            picture.width == width,
            picture.height == height,
            start.width == width,
            start.height == height,
            w == width,
            n == width * height,
            width <= i32::MAX,
            height <= i32::MAX,
            atlas.wf(),
            alpha@.len() == 256,
            forall|p: int|
                0 <= p < n ==> #[trigger] picture.pixel(p) == (if reached(*g, w, p, gy as int, 0) {
                    inked(
                        start.pixel(p),
                        coverage_at(*g, *atlas, p % w, p / w),
                        colour,
                        alpha@,
                    )
                } else {
                    start.pixel(p)
                }),
        decreases gh - gy,
    {
        let mut gx: u16 = 0;
        while gx < gw
            invariant
                gx <= gw,
                gy < gh,
                gh == (if g.max_y > g.min_y {
                    g.max_y - g.min_y
                } else {
                    0
                }),
                gw == (if g.max_x > g.min_x {
                    g.max_x - g.min_x
                } else {
                    0
                }),
                picture.wf(),
                start.wf(),
                picture.width == width,
                picture.height == height,
                start.width == width,
                start.height == height,
                w == width,
                n == width * height,
                width <= i32::MAX,
                height <= i32::MAX,
                atlas.wf(),
                alpha@.len() == 256,
                forall|p: int|
                    0 <= p < n ==> #[trigger] picture.pixel(p) == (if reached(
                        *g,
                        w,
                        p,
                        gy as int,
                        gx as int,
                    ) {
                        inked(
                            start.pixel(p),
                            coverage_at(*g, *atlas, p % w, p / w),
                            colour,
                            alpha@,
                        )
                    } else {
                        start.pixel(p)
                    }),
            decreases gw - gx,
        {
            let x: i64 = g.left as i64 + gx as i64;
            let y: i64 = g.top as i64 + gy as i64;
            let sx: usize = g.min_x as usize + gx as usize;
            let sy: usize = g.min_y as usize + gy as usize;
            let ghost before = *picture;
            let ghost target = y * w + x;
            let inside: bool = 0 <= x && x < width as i64 && 0 <= y && y < height as i64;
            proof {
                // Only the pixel at this place is newly reached.
                assert forall|p: int|
                    0 <= p < n && reached(*g, w, p, gy as int, gx + 1) && !reached(
                        *g,
                        w,
                        p,
                        gy as int,
                        gx as int,
                    ) implies inside && p == target by {
                    lemma_pixel_is(w, p);
                    lemma_row_in_range(w, height as int, p);
                }
                if inside {
                    lemma_pixel_index(w, x as int, y as int);
                    lemma_cell_in_range(w, height as int, x as int, y as int);
                }
            }
            if inside && sx < atlas.width && sy < atlas.height {
                let texels: usize = atlas.coverage.len();
                proof {
                    lemma_cell_in_range(
                        atlas.width as int,
                        atlas.height as int,
                        sx as int,
                        sy as int,
                    );
                    assert(sy * atlas.width + sx < texels);
                }
                let cover: u8 = atlas.coverage[sy * atlas.width + sx];
                assert(cover == coverage_at(*g, *atlas, x as int, y as int));
                if cover > 0 {
                    let bytes: usize = picture.rgba.len();
                    proof {
                        assert((y * w + x) * 4 + 3 < bytes);
                        assert(0 <= y * w) by (nonlinear_arith)
                            requires
                                0 <= y,
                                0 <= w,
                        ;
                    }
                    let i: usize = (y as usize * width + x as usize) * 4;
                    let a: u8 = alpha[cover as usize];
                    let old_a: u8 = picture.rgba[i + 3];
                    picture.rgba.set(i, colour.0);
                    picture.rgba.set(i + 1, colour.1);
                    picture.rgba.set(i + 2, colour.2);
                    picture.rgba.set(
                        i + 3,
                        if a > old_a {
                            a
                        } else {
                            old_a
                        },
                    );
                    proof {
                        assert(i == 4 * target);
                        assert(before.pixel(target) == start.pixel(target));
                        assert(picture.pixel(target) == inked(
                            start.pixel(target),
                            cover,
                            colour,
                            alpha@,
                        ));
                        assert forall|p: int|
                            0 <= p < n && p != target implies #[trigger] picture.pixel(p)
                            == before.pixel(p) by {}
                    }
                }
            }
            proof {
                assert forall|p: int| 0 <= p < n implies #[trigger] picture.pixel(p) == (if reached(
                    *g,
                    w,
                    p,
                    gy as int,
                    gx + 1,
                ) {
                    inked(start.pixel(p), coverage_at(*g, *atlas, p % w, p / w), colour, alpha@)
                } else {
                    start.pixel(p)
                }) by {
                    assert(before.pixel(p) == (if reached(*g, w, p, gy as int, gx as int) {
                        inked(start.pixel(p), coverage_at(*g, *atlas, p % w, p / w), colour, alpha@)
                    } else {
                        start.pixel(p)
                    }));
                    if inside && p == target {
                        assert(p % w == x && p / w == y);
                    }
                }
            }
            gx = gx + 1;
        }
        proof {
            assert forall|p: int| 0 <= p < n implies #[trigger] picture.pixel(p) == (if reached(
                *g,
                w,
                p,
                gy + 1,
                0,
            ) {
                inked(start.pixel(p), coverage_at(*g, *atlas, p % w, p / w), colour, alpha@)
            } else {
                start.pixel(p)
            }) by {
                assert(picture.pixel(p) == (if reached(*g, w, p, gy as int, gw as int) {
                    inked(start.pixel(p), coverage_at(*g, *atlas, p % w, p / w), colour, alpha@)
                } else {
                    start.pixel(p)
                }));
            }
        }
        gy = gy + 1;
    }
}

/// A pixel of a text at a column and row, once the first `n` glyphs are laid
/// over nothing.
pub open spec fn text_pixel(
    glyphs: Seq<Glyph>,
    atlas: Atlas,
    colour: (u8, u8, u8),
    alpha: Seq<u8>,
    x: int,
    y: int,
    n: int,
) -> (u8, u8, u8, u8)
    decreases n,
{
    if n <= 0 {
        (0, 0, 0, 0)
    } else {
        inked(
            text_pixel(glyphs, atlas, colour, alpha, x, y, n - 1),
            coverage_at(glyphs[n - 1], atlas, x, y),
            colour,
            alpha,
        )
    }
}

fn blank_picture(width: usize, height: usize) -> (r: Picture)
    requires
        width > 0,
        width * height * 4 <= usize::MAX,
    ensures
        r.wf(),
        r.width == width,
        r.height == height,
        forall|p: int| 0 <= p < width * height ==> #[trigger] r.pixel(p) == (0u8, 0u8, 0u8, 0u8),
{
    assert(width * height <= width * height * 4) by (nonlinear_arith)
        requires
            0 <= width,
            0 <= height,
    ;
    let n: usize = width * height * 4;
    let mut rgba: Vec<u8> = Vec::new();
    let mut i: usize = 0;
    while i < n
        invariant
            i <= n,
            rgba@.len() == i,
            forall|j: int| 0 <= j < i ==> rgba@[j] == 0,
        decreases n - i,
    {
        rgba.push(0);
        i = i + 1;
    }
    Picture { width, height, rgba }
}

/// A text as a picture: its glyphs laid one after the other over nothing.
pub fn rasterize_text_block(
    width: usize,
    height: usize,
    glyphs: &Vec<Glyph>,
    atlas: &Atlas,
    colour: (u8, u8, u8),
    alpha: &Vec<u8>,
) -> (r: Picture)
    requires
        0 < width <= i32::MAX,
        height <= i32::MAX,
        width * height * 4 <= usize::MAX,
        atlas.wf(),
        alpha@.len() == 256,
    ensures
        r.wf(),
        r.width == width,
        r.height == height,
        forall|p: int|
            0 <= p < width * height ==> #[trigger] r.pixel(p) == text_pixel(
                glyphs@,
                *atlas,
                colour,
                alpha@,
                p % (width as int),
                p / (width as int),
                glyphs@.len() as int,
            ),
{
    let mut r: Picture = blank_picture(width, height);
    let mut i: usize = 0;
    while i < glyphs.len()
        invariant
            i <= glyphs@.len(),
            r.wf(),
            r.width == width,
            r.height == height,
            0 < width <= i32::MAX,
            height <= i32::MAX,
            atlas.wf(),
            alpha@.len() == 256,
            forall|p: int|
                0 <= p < width * height ==> #[trigger] r.pixel(p) == text_pixel(
                    glyphs@,
                    *atlas,
                    colour,
                    alpha@,
                    p % (width as int),
                    p / (width as int),
                    i as int,
                ),
        decreases glyphs@.len() - i,
    {
        let ghost before = r;
        lay_glyph(&mut r, &glyphs[i], atlas, colour, alpha);
        assert forall|p: int| 0 <= p < width * height implies #[trigger] r.pixel(p) == text_pixel(
            glyphs@,
            *atlas,
            colour,
            alpha@,
            p % (width as int),
            p / (width as int),
            i + 1,
        ) by {
            assert(before.pixel(p) == text_pixel(
                glyphs@,
                *atlas,
                colour,
                alpha@,
                p % (width as int),
                p / (width as int),
                i as int,
            ));
        }
        i = i + 1;
    }
    r
}

/// Each extension belongs to one kind of file.
pub proof fn each_extension_has_its_kind(e: &str, r: DroppedKind, none: DroppedKind)
    requires
        call_ensures(kind_of_lower, (Some(e),), r),
        call_ensures(kind_of_lower, (None,), none),
    ensures
        none == DroppedKind::Unsupported,
        r == DroppedKind::Project <==> e@ == "qproj"@,
        r == DroppedKind::Video <==> (e@ == "mp4"@ || e@ == "mov"@ || e@ == "mkv"@ || e@ == "avi"@),
        r == DroppedKind::Audio <==> (e@ == "wav"@ || e@ == "mp3"@ || e@ == "flac"@ || e@ == "ogg"@
            || e@ == "aiff"@ || e@ == "wma"@),
{
    reveal_strlit("qproj");
    reveal_strlit("mp4");
    reveal_strlit("mov");
    reveal_strlit("mkv");
    reveal_strlit("avi");
    reveal_strlit("wav");
    reveal_strlit("mp3");
    reveal_strlit("flac");
    reveal_strlit("ogg");
    reveal_strlit("aiff");
    reveal_strlit("wma");
    if e@ == "mp4"@ || e@ == "mov"@ || e@ == "mkv"@ || e@ == "avi"@ {
        assert(e@.len() == 3);
    }
    if e@ == "wav"@ || e@ == "mp3"@ || e@ == "ogg"@ || e@ == "wma"@ {
        assert(e@.len() == 3);
        assert(e@[0] == 'w' || e@[0] == 'o' || e@[2] == '3');
    }
    if e@ == "flac"@ || e@ == "aiff"@ {
        assert(e@.len() == 4);
    }
    if e@ == "qproj"@ {
        assert(e@.len() == 5);
    }
    if e@ == "mp4"@ {
        assert(e@[2] == '4' && e@[0] == 'm');
    }
    if e@ == "mov"@ {
        assert(e@[2] == 'v' && e@[0] == 'm');
    }
    if e@ == "mkv"@ {
        assert(e@[2] == 'v' && e@[0] == 'm');
    }
    if e@ == "avi"@ {
        assert(e@[2] == 'i' && e@[0] == 'a');
    }
}

/// The letters of an extension may be large or small.
pub proof fn large_letters_make_no_difference(
    e: &str,
    r: DroppedKind,
    small: &str,
    s: DroppedKind,
    none: DroppedKind,
)
    requires
        call_ensures(dropped_kind, (Some(e),), r),
        call_ensures(kind_of_lower, (Some(small),), s),
        call_ensures(dropped_kind, (None,), none),
        small@ == lower_case(e@),
    ensures
        r == s,
        none == DroppedKind::Unsupported,
{
}

/// A dropped project is to be opened, and nothing else happens.
pub proof fn a_dropped_project_is_opened(
    state: &mut SharedState,
    kind: DroppedKind,
    stem: Option<&str>,
    file: FilePath,
    path: String,
    number: Qid,
    taken: bool,
)
    requires
        call_ensures(take_dropped_file, (state, kind, stem, file, path, number), taken),
        kind == DroppedKind::Project,
    ensures
        taken,
        final(state)@.command_queue == old(state)@.command_queue.push(
            AppCommand::OpenProject { path: file },
        ),
        final(state)@ == (StateView {
            command_queue: final(state)@.command_queue,
            ..old(state)@
        }),
{
}

/// A file of no known kind is refused and changes nothing.
pub proof fn a_strange_file_is_refused(
    state: &mut SharedState,
    kind: DroppedKind,
    stem: Option<&str>,
    file: FilePath,
    path: String,
    number: Qid,
    taken: bool,
)
    requires
        call_ensures(take_dropped_file, (state, kind, stem, file, path, number), taken),
        kind == DroppedKind::Unsupported,
    ensures
        !taken,
        final(state)@ == old(state)@,
{
}

/// A dropped sound or video becomes the last cue: it has the free number, the
/// file's name and the file, plays in full at full volume and waits for a go.
/// The others stay, and the project is to be saved.
pub proof fn a_dropped_file_becomes_the_last_cue(
    state: &mut SharedState,
    kind: DroppedKind,
    stem: Option<&str>,
    file: FilePath,
    path: String,
    number: Qid,
    taken: bool,
)
    requires
        call_ensures(take_dropped_file, (state, kind, stem, file, path, number), taken),
        kind == DroppedKind::Video || kind == DroppedKind::Audio,
    ensures
        taken,
        ({
            let before = old(state)@.show_file.cues;
            let after = final(state)@.show_file.cues;
            let cue = after.last();
            &&& after.len() == before.len() + 1
            &&& forall|i: int| 0 <= i < before.len() ==> after[i] == before[i]
            &&& cue.base.qid == number
            &&& cue.base.parent is None
            &&& cue.base.enabled
            &&& cue.base.trigger == crate::show::TriggerMode::Go
            &&& stem matches Some(s) ==> cue.base.name@ == s@
            &&& stem is None ==> cue.base.name@ == "Dropped"@
            &&& kind == DroppedKind::Video ==> (cue.kind matches CueKind::Video {
                path: p,
                start_time,
                duration,
                volume,
                pan,
                fade_in,
                fade_out,
                fade_type,
                follow_mtc,
                mtc_start,
            } && {
                &&& p == path
                &&& start_time.bits == 0
                &&& duration.bits == 0
                &&& volume.bits == 0x3f80_0000
                &&& pan.bits == 0
                &&& fade_in.bits == 0
                &&& fade_out.bits == 0
                &&& fade_type == FadeType::Linear
                &&& !follow_mtc
                &&& mtc_start.bits == 0x40ac_2000_0000_0000
            })
            &&& kind == DroppedKind::Audio ==> (cue.kind matches CueKind::Sound {
                path: p,
                start_time,
                duration,
                volume,
                pan,
                fade_in,
                fade_out,
                fade_type,
            } && {
                &&& p == path
                &&& start_time.bits == 0
                &&& duration.bits == 0
                &&& volume.bits == 0x3f80_0000
                &&& pan.bits == 0
                &&& fade_in.bits == 0
                &&& fade_out.bits == 0
                &&& fade_type == FadeType::Linear
            })
        }),
        final(state)@.dirty,
        final(state)@.command_queue == old(state)@.command_queue,
        final(state)@.selected_cue_id == old(state)@.selected_cue_id,
        !old(state)@.undo_redo.suppress ==> final(state)@.undo_redo.redo.len() == 0,
{
}

/// A dropped file is taken by the kind of its extension.
pub proof fn a_dropped_file_is_taken_by_its_kind(
    a: &mut SharedState,
    b: &mut SharedState,
    ext: Option<&str>,
    kind: DroppedKind,
    stem: Option<&str>,
    file: FilePath,
    path: String,
    number: Qid,
    taken: bool,
    also: bool,
)
    requires
        call_ensures(handle_dropped_file, (a, ext, stem, file, path, number), taken),
        call_ensures(dropped_kind, (ext,), kind),
        call_ensures(take_dropped_file, (b, kind, stem, file, path, number), also),
        old(a)@ == old(b)@,
    ensures
        taken == also,
        final(a)@.command_queue == final(b)@.command_queue,
        final(a)@.show_file.cues.len() == final(b)@.show_file.cues.len(),
        final(a)@.show_file.cues.len() > old(a)@.show_file.cues.len()
            ==> final(a)@.show_file.cues.last().kind == final(b)@.show_file.cues.last().kind,
        final(a)@.show_file.cues.len() > old(a)@.show_file.cues.len()
            ==> final(a)@.show_file.cues.last().base.name@ == final(b)@.show_file.cues.last().base.name@,
        final(a)@.dirty == final(b)@.dirty,
{
}

proof fn lemma_found_behind(entries: Seq<DirEntry>, name: Seq<char>, i: int)
    requires
        0 <= i,
        entries.len() > 0,
    ensures
        found_in(entries, name, i + 1) == found_in(entries.skip(1), name, i),
        found_in_project(entries, name, i + 1) == found_in_project(entries.skip(1), name, i),
    decreases entries.len() - i,
{
    if i + 1 < entries.len() {
        assert(entries.skip(1)[i] == entries[i + 1]);
        lemma_found_behind(entries, name, i + 1);
    }
}

/// A directory is searched entry by entry: a file of the name is found, an
/// entry that cannot be read ends the search, what is found below a directory
/// is found, and else the rest decides.
pub proof fn a_directory_is_searched_in_order(
    entries: &Vec<DirEntry>,
    rest: &Vec<DirEntry>,
    inner: &Vec<DirEntry>,
    name: &str,
    r: Option<String>,
    behind: Option<String>,
    below: Option<String>,
)
    requires
        call_ensures(find_in_dir, (entries, name), r),
        call_ensures(find_in_dir, (rest, name), behind),
        call_ensures(find_in_dir, (inner, name), below),
        entries@.len() > 0,
        rest@ == entries@.skip(1),
    ensures
        match entries@[0] {
            DirEntry::Unreadable => r is None,
            DirEntry::File { name: n, path } => if n@ == name@ {
                text_opt(r) == Some(path@)
            } else {
                text_opt(r) == text_opt(behind)
            },
            DirEntry::Directory { listed, entries: e } => {
                &&& listed && e == inner && below is Some ==> text_opt(r) == text_opt(below)
                &&& listed && e == inner && below is None ==> text_opt(r) == text_opt(behind)
                &&& !listed ==> text_opt(r) == text_opt(behind)
            },
            DirEntry::Other => text_opt(r) == text_opt(behind),
        },
{
    lemma_found_behind(entries@, name@, 0);
}

/// An empty directory holds no file, and what is found is listed.
pub proof fn only_listed_files_are_found(entries: &Vec<DirEntry>, name: &str, r: Option<String>)
    requires
        call_ensures(find_in_dir, (entries, name), r),
    ensures
        entries@.len() == 0 ==> r is None,
        r matches Some(path) ==> lists(entries@, name@, path@),
{
    lemma_found_is_listed(entries@, name@, 0);
}

/// A file is taken where its own path leads to it, then below the project,
/// and only then looked for by its name.
pub proof fn a_file_is_found_at_its_own_place_first(
    path: &str,
    here: bool,
    project: &Option<ProjectPlace>,
    r: Option<String>,
)
    requires
        call_ensures(resolve_path, (path, here, project), r),
    ensures
        here ==> text_opt(r) == Some(path@),
        !here && project is None ==> r is None,
        !here ==> (project matches Some(p) ==> {
            &&& p.relative_exists ==> text_opt(r) == Some(p.relative@)
            &&& !p.relative_exists && p.file_name is None ==> r is None
            &&& !p.relative_exists && p.entries is None ==> r is None
            &&& !p.relative_exists && r is Some ==> lists(p.entries->0@, p.file_name->0@, r->0@)
            &&& !p.relative_exists && p.entries is Some && p.entries->0@.len() == 0 ==> r is None
        }),
{
    if project is Some {
        let p = project->0;
        if p.entries is Some && p.file_name is Some {
            files_are_found_by_name(p.entries->0@, p.file_name->0@, 0);
        }
    }
}

/// The project's directory is searched entry by entry, and an entry that
/// cannot be read is passed over.
pub proof fn the_project_is_searched_in_order(
    path: &str,
    p: ProjectPlace,
    q: ProjectPlace,
    inner: &Vec<DirEntry>,
    r: Option<String>,
    behind: Option<String>,
    below: Option<String>,
)
    requires
        call_ensures(resolve_path, (path, false, &Some(p)), r),
        call_ensures(resolve_path, (path, false, &Some(q)), behind),
        p.file_name is Some,
        q.file_name == p.file_name,
        !p.relative_exists,
        !q.relative_exists,
        p.entries is Some,
        q.entries is Some,
        p.entries->0@.len() > 0,
        q.entries->0@ == p.entries->0@.skip(1),
        text_opt(below) == found_in(inner@, p.file_name->0@, 0),
    ensures
        match p.entries->0@[0] {
            DirEntry::File { name: n, path: f } => if n@ == p.file_name->0@ {
                text_opt(r) == Some(f@)
            } else {
                text_opt(r) == text_opt(behind)
            },
            DirEntry::Directory { listed, entries: e } => {
                &&& listed && e == inner && below is Some ==> text_opt(r) == text_opt(below)
                &&& listed && e == inner && below is None ==> text_opt(r) == text_opt(behind)
                &&& !listed ==> text_opt(r) == text_opt(behind)
            },
            _ => text_opt(r) == text_opt(behind),
        },
{
    lemma_found_behind(p.entries->0@, p.file_name->0@, 0);
}

/// A text without a font gets the built-in one; a font is read once.
pub proof fn a_font_is_read_on_first_use(font: &str, known: bool, r: FontChoice)
    requires
        call_ensures(text_font_family, (font, known), r),
    ensures
        r == FontChoice::BuiltIn <==> font@.len() == 0,
        r == FontChoice::Load <==> font@.len() > 0 && !known,
        r == FontChoice::Known <==> font@.len() > 0 && known,
{
}

/// A glyph colours the pixels that it covers and no other: a texel of its box
/// falls on the pixel as far right and down of the glyph's place, and makes it
/// at least as opaque as its coverage asks for.
pub proof fn a_glyph_colours_what_it_covers(
    picture: &mut Picture,
    g: &Glyph,
    atlas: &Atlas,
    colour: (u8, u8, u8),
    alpha: &Vec<u8>,
    x: int,
    y: int,
)
    requires
        call_ensures(lay_glyph, (picture, g, atlas, colour, alpha), ()),
        old(picture).wf(),
        atlas.wf(),
        alpha@.len() == 256,
        0 <= x < old(picture).width,
        0 <= y < old(picture).height,
    ensures
        ({
            let i = 4 * (y * old(picture).width + x);
            let before = old(picture).rgba@;
            let after = final(picture).rgba@;
            let sx = g.min_x + x - g.left;
            let sy = g.min_y + y - g.top;
            let on = g.left <= x && g.top <= y && sx < g.max_x && sy < g.max_y && sx < atlas.width
                && sy < atlas.height;
            let cover = atlas.coverage@[sy * atlas.width + sx];
            &&& !on || cover == 0 ==> after[i] == before[i] && after[i + 1] == before[i + 1]
                && after[i + 2] == before[i + 2] && after[i + 3] == before[i + 3]
            &&& on && cover > 0 ==> {
                &&& after[i] == colour.0
                &&& after[i + 1] == colour.1
                &&& after[i + 2] == colour.2
                &&& after[i + 3] >= before[i + 3]
                &&& after[i + 3] >= alpha@[cover as int]
                &&& after[i + 3] == before[i + 3] || after[i + 3] == alpha@[cover as int]
            }
        }),
        final(picture).width == old(picture).width,
        final(picture).height == old(picture).height,
        final(picture).rgba@.len() == old(picture).rgba@.len(),
{
    let w = old(picture).width as int;
    let p = y * w + x;
    lemma_pixel_index(w, x, y);
    lemma_cell_in_range(w, old(picture).height as int, x, y);
    assert(final(picture).pixel(p) == inked(
        old(picture).pixel(p),
        coverage_at(*g, *atlas, p % w, p / w),
        colour,
        alpha@,
    ));
}

proof fn lemma_text_pixel_prefix(
    a: Seq<Glyph>,
    b: Seq<Glyph>,
    atlas: Atlas,
    colour: (u8, u8, u8),
    alpha: Seq<u8>,
    x: int,
    y: int,
    n: int,
)
    requires
        n <= a.len(),
        n <= b.len(),
        forall|k: int| 0 <= k < n ==> a[k] == b[k],
    ensures
        text_pixel(a, atlas, colour, alpha, x, y, n) == text_pixel(b, atlas, colour, alpha, x, y, n),
    decreases n,
{
    if n > 0 {
        lemma_text_pixel_prefix(a, b, atlas, colour, alpha, x, y, n - 1);
    }
}

/// A text without glyphs is an empty picture, and one glyph more is laid over
/// the picture of the others.
pub proof fn a_text_is_laid_glyph_by_glyph(
    width: usize,
    height: usize,
    glyphs: &Vec<Glyph>,
    more: &Vec<Glyph>,
    g: &Glyph,
    atlas: &Atlas,
    colour: (u8, u8, u8),
    alpha: &Vec<u8>,
    r: Picture,
    s: Picture,
    picture: &mut Picture,
    p: int,
)
    requires
        call_ensures(rasterize_text_block, (width, height, glyphs, atlas, colour, alpha), r),
        call_ensures(rasterize_text_block, (width, height, more, atlas, colour, alpha), s),
        call_ensures(lay_glyph, (picture, g, atlas, colour, alpha), ()),
        *old(picture) == r,
        more@ == glyphs@.push(*g),
        0 <= p < width * height,
    ensures
        r.width == width,
        r.height == height,
        r.rgba@.len() == width * height * 4,
        glyphs@.len() == 0 ==> r.rgba@[4 * p] == 0 && r.rgba@[4 * p + 1] == 0 && r.rgba@[4 * p + 2]
            == 0 && r.rgba@[4 * p + 3] == 0,
        s.rgba@[4 * p] == final(picture).rgba@[4 * p],
        s.rgba@[4 * p + 1] == final(picture).rgba@[4 * p + 1],
        s.rgba@[4 * p + 2] == final(picture).rgba@[4 * p + 2],
        s.rgba@[4 * p + 3] == final(picture).rgba@[4 * p + 3],
{
    let w = width as int;
    let n = glyphs@.len() as int;
    lemma_text_pixel_prefix(glyphs@, more@, *atlas, colour, alpha@, p % w, p / w, n);
    assert(r.pixel(p) == text_pixel(glyphs@, *atlas, colour, alpha@, p % w, p / w, n));
    assert(s.pixel(p) == text_pixel(more@, *atlas, colour, alpha@, p % w, p / w, n + 1));
    assert(final(picture).pixel(p) == inked(
        r.pixel(p),
        coverage_at(*g, *atlas, p % w, p / w),
        colour,
        alpha@,
    ));
}

} // verus!
