//! The diagnostics an operator reads, and copies into a report.

use vstd::prelude::*;

use crate::ieee::Double;
use crate::text::{decimal, push_decimal, same, starts_with, text_opt};

verus! {

/// How long one step takes for a frame, in milliseconds. Copies share one
/// value, which the decoder sets while others read it.
#[derive(Debug, Default)]
pub struct DecodeTiming(std::sync::Arc<std::sync::atomic::AtomicU64>);

impl Clone for DecodeTiming {
    fn clone(&self) -> (r: Self)
        ensures
            r == *self,
    {
        DecodeTiming(self.0.clone())
    }
}

impl DecodeTiming {
    /// A value of its own, which starts at `ms`. What it holds is not stated:
    /// any copy may set it.
    pub fn from_ms(ms: Double) -> (r: DecodeTiming) {
        DecodeTiming(std::sync::Arc::new(std::sync::atomic::AtomicU64::new(ms.bits)))
    }

    /// Set the value of all copies.
    pub fn set_ms(&self, ms: Double) {
        self.0.store(ms.bits, std::sync::atomic::Ordering::Relaxed);
    }

    /// The value that some copy set last. Which one that is, is not stated:
    /// any copy may set another at any time.
    pub fn get_ms(&self) -> (r: Double) {
        Double { bits: self.0.load(std::sync::atomic::Ordering::Relaxed) }
    }
}

/// The timings in print, to two places.
#[derive(Debug)]
pub struct TimingTexts {
    pub decode: String,
    pub hw_transfer: String,
    pub plane_copy: String,
    pub upload: String,
    pub conversion_submit: String,
}

/// How long the steps of decoding take for a frame.
#[derive(Debug, Default)]
pub struct VideoTimings {
    pub decode: DecodeTiming,
    pub hw_transfer: DecodeTiming,
    pub plane_copy: DecodeTiming,
    pub upload: DecodeTiming,
    pub conversion_submit: DecodeTiming,
}

impl Clone for VideoTimings {
    fn clone(&self) -> (r: Self)
        ensures
            r == *self,
    {
        VideoTimings {
            decode: self.decode.clone(),
            hw_transfer: self.hw_transfer.clone(),
            plane_copy: self.plane_copy.clone(),
            upload: self.upload.clone(),
            conversion_submit: self.conversion_submit.clone(),
        }
    }
}

/// The video that is being decoded.
#[derive(Debug)]
pub struct VideoDiagnostics {
    pub path: String,
    pub width: u32,
    pub height: u32,
    /// How it is decoded: `software`, or the name of what decodes it.
    pub decode_path: String,
    pub fallback_reason: Option<String>,
    pub timings: VideoTimings,
}

impl Clone for VideoDiagnostics {
    fn clone(&self) -> (r: Self)
        ensures
            r == *self,
    {
        VideoDiagnostics {
            path: self.path.clone(),
            width: self.width,
            height: self.height,
            decode_path: self.decode_path.clone(),
            fallback_reason: match &self.fallback_reason {
                Some(reason) => Some(reason.clone()),
                None => None,
            },
            timings: self.timings.clone(),
        }
    }
}

impl VideoDiagnostics {
    pub open spec fn on_gpu(self) -> bool {
        self.decode_path@ != "software"@
    }

    /// Nothing was given up on the way.
    pub open spec fn healthy(self) -> bool {
        self.on_gpu() && self.fallback_reason is None
    }

    /// Whether the graphics processor decodes: every path but one names what
    /// decodes.
    pub fn accelerated(&self) -> (b: bool)
        ensures
            b == self.on_gpu(),
    {
        !same(self.decode_path.as_str(), "software")
    }
}

/// A colour.
#[derive(Clone, Copy, PartialEq, Eq, Structural, Debug)]
pub struct Rgb {
    pub r: u8,
    pub g: u8,
    pub b: u8,
}

/// What the status bar shows of the video.
pub struct Badge {
    pub label: String,
    pub colour: Rgb,
    pub tip: String,
}

pub struct BadgeView {
    pub label: Seq<char>,
    pub colour: Rgb,
    pub tip: Seq<char>,
}

impl View for Badge {
    type V = BadgeView;

    open spec fn view(&self) -> BadgeView {
        BadgeView { label: self.label@, colour: self.colour, tip: self.tip@ }
    }
}

/// A size as it is printed.
pub open spec fn size_text(width: u32, height: u32) -> Seq<char> {
    decimal(width as nat) + "x"@ + decimal(height as nat)
}

/// The video badge: grey while nothing is decoded, green while all is well,
/// amber while the video is decoded in a worse way than it could be.
pub open spec fn badge_of(video: Option<&VideoDiagnostics>) -> BadgeView {
    match video {
        None => BadgeView {
            label: "Video: idle"@,
            colour: Rgb { r: 120, g: 120, b: 120 },
            tip: "No video decoding right now."@,
        },
        Some(v) => {
            let start = "Decode path: "@ + v.decode_path@ + "\nSource: "@ + size_text(
                v.width,
                v.height,
            ) + " — "@ + v.path@;
            let fell = match v.fallback_reason {
                Some(reason) => start + "\n\nFell back: "@ + reason@,
                None => start,
            };
            let cpu = if v.on_gpu() {
                fell
            } else {
                fell + "\n\nDecoding on the CPU — expect higher load than a hardware path."@
            };
            BadgeView {
                label: if v.healthy() {
                    "Video: "@ + v.decode_path@
                } else {
                    "Video: "@ + v.decode_path@ + " ⚠"@
                },
                colour: if v.healthy() {
                    Rgb { r: 100, g: 220, b: 100 }
                } else {
                    Rgb { r: 240, g: 190, b: 90 }
                },
                tip: cpu + "\n\nFull detail in Help > Status…"@,
            }
        },
    }
}

fn push_size(out: &mut String, width: u32, height: u32)
    ensures
        final(out)@ == old(out)@ + size_text(width, height),
{
    let ghost start = out@;
    push_decimal(out, width as u64);
    out.append("x");
    push_decimal(out, height as u64);
    assert(out@ =~= start + size_text(width, height));
}

/// What the status bar shows of the video.
pub fn video_status_badge(video: Option<&VideoDiagnostics>) -> (r: Badge)
    ensures
        r@ == badge_of(video),
{
    let v: &VideoDiagnostics = match video {
        None => {
            return Badge {
                label: "Video: idle".to_owned(),
                colour: Rgb { r: 120, g: 120, b: 120 },
                tip: "No video decoding right now.".to_owned(),
            };
        },
        Some(v) => v,
    };
    let healthy: bool = v.accelerated() && v.fallback_reason.is_none();
    let mut label: String = "Video: ".to_owned();
    label.append(v.decode_path.as_str());
    if !healthy {
        label.append(" ⚠");
    }
    let mut tip: String = "Decode path: ".to_owned();
    tip.append(v.decode_path.as_str());
    tip.append("\nSource: ");
    push_size(&mut tip, v.width, v.height);
    tip.append(" — ");
    tip.append(v.path.as_str());
    if let Some(reason) = &v.fallback_reason {
        tip.append("\n\nFell back: ");
        tip.append(reason.as_str());
    }
    if !v.accelerated() {
        tip.append("\n\nDecoding on the CPU — expect higher load than a hardware path.");
    }
    tip.append("\n\nFull detail in Help > Status…");
    let colour: Rgb = if healthy {
        Rgb { r: 100, g: 220, b: 100 }
    } else {
        Rgb { r: 240, g: 190, b: 90 }
    };
    Badge { label, colour, tip }
}

/// The badge is green exactly while the graphics processor decodes and nothing
/// was given up for it.
pub proof fn green_means_nothing_was_given_up(v: VideoDiagnostics)
    ensures
        (badge_of(Some(&v)).colour == Rgb { r: 100, g: 220, b: 100 }) == v.healthy(),
        badge_of(None).colour != (Rgb { r: 100, g: 220, b: 100 }),
{
}

/// One output window. How often it presents is in print, to a whole number.
#[derive(Debug)]
pub struct OutputDiagnostics {
    pub name: String,
    pub size: (u32, u32),
    pub present_mode: String,
    pub format: String,
    pub refresh: String,
    pub fullscreen: bool,
    pub presented_per_sec: String,
}

/// What the status window shows. Rates are in print, to a whole number.
#[derive(Debug)]
pub struct Diagnostics {
    pub app_version: String,
    pub os: String,
    pub arch: String,
    pub log_file: String,
    pub gpu_name: String,
    pub gpu_backend: String,
    pub gpu_driver: String,
    pub gpu_driver_info: String,
    pub ffmpeg_version: String,
    pub env_overrides: Vec<(String, String)>,
    pub outputs: Vec<OutputDiagnostics>,
    pub presented_per_sec: String,
    pub starved_per_sec: String,
    pub uploads_per_sec: String,
    pub dropped_per_sec: String,
    pub event_loop_per_sec: String,
    pub consumer_error: Option<String>,
    pub video: Option<VideoDiagnostics>,
    pub frame_pacing: Vec<(String, String)>,
}

#[verifier::ext_equal]
pub struct DiagnosticsView {
    pub app_version: Seq<char>,
    pub os: Seq<char>,
    pub arch: Seq<char>,
    pub log_file: Seq<char>,
    pub gpu_name: Seq<char>,
    pub gpu_backend: Seq<char>,
    pub gpu_driver: Seq<char>,
    pub gpu_driver_info: Seq<char>,
    pub ffmpeg_version: Seq<char>,
    pub env_overrides: Seq<Row>,
    pub outputs: Seq<OutputDiagnostics>,
    pub presented_per_sec: Seq<char>,
    pub starved_per_sec: Seq<char>,
    pub uploads_per_sec: Seq<char>,
    pub dropped_per_sec: Seq<char>,
    pub event_loop_per_sec: Seq<char>,
    pub consumer_error: Option<Seq<char>>,
    pub video: Option<VideoDiagnostics>,
    pub frame_pacing: Seq<Row>,
}

impl View for Diagnostics {
    type V = DiagnosticsView;

    open spec fn view(&self) -> DiagnosticsView {
        DiagnosticsView {
            app_version: self.app_version@,
            os: self.os@,
            arch: self.arch@,
            log_file: self.log_file@,
            gpu_name: self.gpu_name@,
            gpu_backend: self.gpu_backend@,
            gpu_driver: self.gpu_driver@,
            gpu_driver_info: self.gpu_driver_info@,
            ffmpeg_version: self.ffmpeg_version@,
            env_overrides: rows(self.env_overrides@),
            outputs: self.outputs@,
            presented_per_sec: self.presented_per_sec@,
            starved_per_sec: self.starved_per_sec@,
            uploads_per_sec: self.uploads_per_sec@,
            dropped_per_sec: self.dropped_per_sec@,
            event_loop_per_sec: self.event_loop_per_sec@,
            consumer_error: text_opt(self.consumer_error),
            video: self.video,
            frame_pacing: rows(self.frame_pacing@),
        }
    }
}

/// The diagnostics before anything is known: no text, no output and no video,
/// and every rate zero.
pub open spec fn no_diagnostics() -> DiagnosticsView {
    DiagnosticsView {
        app_version: Seq::empty(),
        os: Seq::empty(),
        arch: Seq::empty(),
        log_file: Seq::empty(),
        gpu_name: Seq::empty(),
        gpu_backend: Seq::empty(),
        gpu_driver: Seq::empty(),
        gpu_driver_info: Seq::empty(),
        ffmpeg_version: Seq::empty(),
        env_overrides: Seq::empty(),
        outputs: Seq::empty(),
        presented_per_sec: "0"@,
        starved_per_sec: "0"@,
        uploads_per_sec: "0"@,
        dropped_per_sec: "0"@,
        event_loop_per_sec: "0"@,
        consumer_error: None,
        video: None,
        frame_pacing: Seq::empty(),
    }
}

impl Default for Diagnostics {
    fn default() -> (r: Self)
        ensures
            r@ == no_diagnostics(),
    {
        let r: Diagnostics = Diagnostics {
            app_version: String::new(),
            os: String::new(),
            arch: String::new(),
            log_file: String::new(),
            gpu_name: String::new(),
            gpu_backend: String::new(),
            gpu_driver: String::new(),
            gpu_driver_info: String::new(),
            ffmpeg_version: String::new(),
            env_overrides: Vec::new(),
            outputs: Vec::new(),
            presented_per_sec: "0".to_owned(),
            starved_per_sec: "0".to_owned(),
            uploads_per_sec: "0".to_owned(),
            dropped_per_sec: "0".to_owned(),
            event_loop_per_sec: "0".to_owned(),
            consumer_error: None,
            video: None,
            frame_pacing: Vec::new(),
        };
        assert(r@ =~= no_diagnostics());
        r
    }
}

/// What is known of the system once the program has started.
pub struct SystemFacts {
    pub app_version: String,
    pub os: String,
    pub arch: String,
    pub gpu_name: String,
    pub gpu_backend: String,
    pub gpu_driver: String,
    pub gpu_driver_info: String,
    /// The version of the decoder's library: sixteen bits, and twice eight.
    pub ffmpeg: u32,
    /// The settings of the environment that are set.
    pub overrides: Vec<(String, String)>,
}

/// The version of the decoder's library in words.
pub open spec fn ffmpeg_words(v: u32) -> Seq<char> {
    "libavutil "@ + decimal((v / 0x1_0000) as nat) + "."@ + decimal((v / 0x100 % 0x100) as nat)
        + "."@ + decimal((v % 0x100) as nat)
}

/// The diagnostics once the system is known.
pub open spec fn system_noted(d: DiagnosticsView, f: SystemFacts) -> DiagnosticsView {
    DiagnosticsView {
        app_version: f.app_version@,
        os: f.os@,
        arch: f.arch@,
        gpu_name: f.gpu_name@,
        gpu_backend: f.gpu_backend@,
        gpu_driver: f.gpu_driver@,
        gpu_driver_info: f.gpu_driver_info@,
        ffmpeg_version: ffmpeg_words(f.ffmpeg),
        env_overrides: d.env_overrides + rows(f.overrides@),
        ..d
    }
}

impl Diagnostics {
    /// Take down what is known of the system once the program has started.
    pub fn note_system(&mut self, f: SystemFacts)
        ensures
            final(self)@ == system_noted(old(self)@, f),
    {
        let ghost before = self.env_overrides@;
        let mut version: String = "libavutil ".to_owned();
        push_decimal(&mut version, (f.ffmpeg / 0x1_0000) as u64);
        version.append(".");
        push_decimal(&mut version, (f.ffmpeg / 0x100 % 0x100) as u64);
        version.append(".");
        push_decimal(&mut version, (f.ffmpeg % 0x100) as u64);
        let mut overrides: Vec<(String, String)> = f.overrides;
        self.app_version = f.app_version;
        self.os = f.os;
        self.arch = f.arch;
        self.gpu_name = f.gpu_name;
        self.gpu_backend = f.gpu_backend;
        self.gpu_driver = f.gpu_driver;
        self.gpu_driver_info = f.gpu_driver_info;
        self.ffmpeg_version = version;
        self.env_overrides.append(&mut overrides);
        proof {
            assert(rows(self.env_overrides@) =~= rows(before) + rows(f.overrides@));
            assert(self@ =~= system_noted(old(self)@, f));
        }
    }
}

/// A line: what it tells of, and what it tells.
pub type Row = (Seq<char>, Seq<char>);

pub open spec fn row_view(r: (String, String)) -> Row {
    (r.0@, r.1@)
}

pub open spec fn rows(v: Seq<(String, String)>) -> Seq<Row> {
    v.map_values(|r: (String, String)| row_view(r))
}

pub open spec fn section_view(s: (&'static str, Vec<(String, String)>)) -> (Seq<char>, Seq<Row>) {
    (s.0@, rows(s.1@))
}

pub open spec fn sections_view(v: Seq<(&'static str, Vec<(String, String)>)>) -> Seq<
    (Seq<char>, Seq<Row>),
> {
    v.map_values(|s: (&'static str, Vec<(String, String)>)| section_view(s))
}

/// The lines of one output.
pub open spec fn output_rows(out: OutputDiagnostics, i: int) -> Seq<Row> {
    let p = "Output "@ + decimal((i + 1) as nat);
    seq![
        (p + " Name"@, out.name@),
        (p + " Size"@, size_text(out.size.0, out.size.1)),
        (p + " Present Mode"@, out.present_mode@),
        (p + " Surface Format"@, out.format@),
        (p + " Monitor Refresh"@, out.refresh@),
        (
            p + " Fullscreen"@,
            if out.fullscreen {
                "yes"@
            } else {
                "no"@
            },
        ),
        (p + " Presented/s"@, out.presented_per_sec@),
    ]
}

/// The lines of the first `n` outputs.
pub open spec fn outputs_rows(outputs: Seq<OutputDiagnostics>, n: int) -> Seq<Row>
    decreases n,
{
    if n <= 0 {
        Seq::empty()
    } else {
        outputs_rows(outputs, n - 1) + output_rows(outputs[n - 1], n - 1)
    }
}

pub open spec fn or_text(t: Option<String>, other: Seq<char>) -> Seq<char> {
    match t {
        Some(t) => t@,
        None => other,
    }
}

impl Diagnostics {
    pub open spec fn system_rows(self) -> Seq<Row> {
        seq![
            ("App Version"@, self.app_version@),
            ("OS"@, self.os@),
            ("Arch"@, self.arch@),
            ("Log File"@, self.log_file@),
        ]
    }

    pub open spec fn gpu_rows(self) -> Seq<Row> {
        seq![
            ("Name"@, self.gpu_name@),
            ("Backend"@, self.gpu_backend@),
            ("Driver"@, self.gpu_driver@),
            ("Driver Info"@, self.gpu_driver_info@),
        ]
    }

    pub open spec fn all_output_rows(self) -> Seq<Row> {
        if self.outputs@.len() == 0 {
            seq![("Outputs"@, "none open"@)]
        } else {
            outputs_rows(self.outputs@, self.outputs@.len() as int)
        }
    }

    pub open spec fn video_rows(self, t: TimingTexts) -> Seq<Row> {
        match self.video {
            Some(v) => seq![
                ("File"@, v.path@),
                ("Source Size"@, size_text(v.width, v.height)),
                ("Decode Path"@, v.decode_path@),
                ("Fallback Reason"@, or_text(v.fallback_reason, "none"@)),
                ("Decode ms/frame"@, t.decode@),
                ("HW transfer ms/frame"@, t.hw_transfer@),
                ("Plane copy ms/frame"@, t.plane_copy@),
                ("Upload ms/frame"@, t.upload@),
                ("Conversion submit ms/frame"@, t.conversion_submit@),
            ],
            None => seq![("Status"@, "no video playing"@)],
        }
    }

    pub open spec fn pacing_rows(self) -> Seq<Row> {
        seq![
            ("Output Count"@, decimal(self.outputs@.len())),
            ("Event Loop/s"@, self.event_loop_per_sec@),
            ("Presented/s (all outputs)"@, self.presented_per_sec@),
            ("Uploads/s"@, self.uploads_per_sec@),
            ("Dropped/s"@, self.dropped_per_sec@),
            ("Starved/s"@, self.starved_per_sec@),
            ("Video Consumer"@, or_text(self.consumer_error, "running"@)),
        ]
    }

    pub open spec fn override_rows(self) -> Seq<Row> {
        if self.env_overrides@.len() == 0 {
            seq![("Overrides"@, "none set"@)]
        } else {
            rows(self.env_overrides@)
        }
    }

    /// All sections, in order. The frame timings are there only where they are
    /// measured.
    pub open spec fn sections_of(self, t: TimingTexts) -> Seq<(Seq<char>, Seq<Row>)> {
        let start = seq![
            ("System"@, self.system_rows()),
            ("GPU"@, self.gpu_rows()),
            ("Outputs"@, self.all_output_rows()),
            ("Video Decode"@, self.video_rows(t)),
            ("Pacing"@, self.pacing_rows()),
        ];
        let paced = if self.frame_pacing@.len() == 0 {
            start
        } else {
            start.push(("Frame Pacing (wgpu)"@, rows(self.frame_pacing@)))
        };
        paced.push(("Environment Overrides"@, self.override_rows()))
    }
}

/// One line of the text.
pub open spec fn row_text(r: Row) -> Seq<char> {
    "  "@ + r.0 + ": "@ + r.1 + "\n"@
}

/// The first `n` lines of a section.
pub open spec fn rows_text(rs: Seq<Row>, n: int) -> Seq<char>
    decreases n,
{
    if n <= 0 {
        Seq::empty()
    } else {
        rows_text(rs, n - 1) + row_text(rs[n - 1])
    }
}

/// The first `n` sections, as they are copied.
pub open spec fn sections_text(s: Seq<(Seq<char>, Seq<Row>)>, n: int) -> Seq<char>
    decreases n,
{
    if n <= 0 {
        Seq::empty()
    } else {
        sections_text(s, n - 1) + (s[n - 1].0 + "\n"@ + rows_text(
            s[n - 1].1,
            s[n - 1].1.len() as int,
        ) + "\n"@)
    }
}

fn row(v: &mut Vec<(String, String)>, key: &str, value: &str)
    ensures
        rows(final(v)@) == rows(old(v)@).push((key@, value@)),
{
    let ghost before = v@;
    v.push((key.to_owned(), value.to_owned()));
    assert(rows(v@) =~= rows(before).push((key@, value@)));
}

fn text_or<'a>(t: &'a Option<String>, other: &'a str) -> (r: &'a str)
    ensures
        r@ == or_text(*t, other@),
{
    match t {
        Some(t) => t.as_str(),
        None => other,
    }
}

fn copy_rows(v: &Vec<(String, String)>) -> (r: Vec<(String, String)>)
    ensures
        rows(r@) == rows(v@),
{
    let mut r: Vec<(String, String)> = Vec::new();
    let mut i: usize = 0;
    assert(rows(r@) =~= rows(v@.take(0)));
    while i < v.len()
        invariant
            i <= v@.len(),
            rows(r@) == rows(v@.take(i as int)),
        decreases v@.len() - i,
    {
        row(&mut r, v[i].0.as_str(), v[i].1.as_str());
        assert(rows(v@.take(i + 1)) =~= rows(v@.take(i as int)).push(row_view(v@[i as int])));
        i = i + 1;
    }
    assert(v@.take(i as int) =~= v@);
    r
}

fn prefixed(p: &str, rest: &str) -> (r: String)
    ensures
        r@ == p@ + rest@,
{
    let mut r: String = p.to_owned();
    r.append(rest);
    r
}

fn size_string(width: u32, height: u32) -> (r: String)
    ensures
        r@ == size_text(width, height),
{
    let mut r: String = String::new();
    push_size(&mut r, width, height);
    assert(r@ =~= size_text(width, height));
    r
}

fn add_output_rows(v: &mut Vec<(String, String)>, out: &OutputDiagnostics, i: usize)
    requires
        i < usize::MAX,
    ensures
        rows(final(v)@) == rows(old(v)@) + output_rows(*out, i as int),
{
    let ghost start = rows(v@);
    let mut p: String = "Output ".to_owned();
    push_decimal(&mut p, (i + 1) as u64);
    row(v, prefixed(p.as_str(), " Name").as_str(), out.name.as_str());
    row(v, prefixed(p.as_str(), " Size").as_str(), size_string(out.size.0, out.size.1).as_str());
    row(v, prefixed(p.as_str(), " Present Mode").as_str(), out.present_mode.as_str());
    row(v, prefixed(p.as_str(), " Surface Format").as_str(), out.format.as_str());
    row(v, prefixed(p.as_str(), " Monitor Refresh").as_str(), out.refresh.as_str());
    row(
        v,
        prefixed(p.as_str(), " Fullscreen").as_str(),
        if out.fullscreen {
            "yes"
        } else {
            "no"
        },
    );
    row(v, prefixed(p.as_str(), " Presented/s").as_str(), out.presented_per_sec.as_str());
    assert(rows(v@) =~= start + output_rows(*out, i as int));
}

type Section = (&'static str, Vec<(String, String)>);

fn add_section(v: &mut Vec<Section>, title: &'static str, lines: Vec<(String, String)>)
    ensures
        sections_view(final(v)@) == sections_view(old(v)@).push((title@, rows(lines@))),
{
    let ghost before = v@;
    v.push((title, lines));
    assert(sections_view(v@) =~= sections_view(before).push((title@, rows(lines@))));
}

impl Diagnostics {
    fn system_section(&self) -> (v: Vec<(String, String)>)
        ensures
            rows(v@) == self.system_rows(),
    {
        let mut v: Vec<(String, String)> = Vec::new();
        row(&mut v, "App Version", self.app_version.as_str());
        row(&mut v, "OS", self.os.as_str());
        row(&mut v, "Arch", self.arch.as_str());
        row(&mut v, "Log File", self.log_file.as_str());
        assert(rows(v@) =~= self.system_rows());
        v
    }

    fn gpu_section(&self) -> (v: Vec<(String, String)>)
        ensures
            rows(v@) == self.gpu_rows(),
    {
        let mut v: Vec<(String, String)> = Vec::new();
        row(&mut v, "Name", self.gpu_name.as_str());
        row(&mut v, "Backend", self.gpu_backend.as_str());
        row(&mut v, "Driver", self.gpu_driver.as_str());
        row(&mut v, "Driver Info", self.gpu_driver_info.as_str());
        assert(rows(v@) =~= self.gpu_rows());
        v
    }

    fn outputs_section(&self) -> (v: Vec<(String, String)>)
        ensures
            rows(v@) == self.all_output_rows(),
    {
        let mut v: Vec<(String, String)> = Vec::new();
        let n: usize = self.outputs.len();
        if n == 0 {
            row(&mut v, "Outputs", "none open");
            assert(rows(v@) =~= self.all_output_rows());
            return v;
        }
        let mut i: usize = 0;
        assert(rows(v@) =~= outputs_rows(self.outputs@, 0));
        while i < n
            invariant
                i <= n,
                n == self.outputs@.len(),
                rows(v@) == outputs_rows(self.outputs@, i as int),
            decreases n - i,
        {
            add_output_rows(&mut v, &self.outputs[i], i);
            i = i + 1;
        }
        v
    }

    fn video_section(&self, t: &TimingTexts) -> (v: Vec<(String, String)>)
        ensures
            rows(v@) == self.video_rows(*t),
    {
        let mut v: Vec<(String, String)> = Vec::new();
        match &self.video {
            Some(video) => {
                row(&mut v, "File", video.path.as_str());
                row(&mut v, "Source Size", size_string(video.width, video.height).as_str());
                row(&mut v, "Decode Path", video.decode_path.as_str());
                row(&mut v, "Fallback Reason", text_or(&video.fallback_reason, "none"));
                row(&mut v, "Decode ms/frame", t.decode.as_str());
                row(&mut v, "HW transfer ms/frame", t.hw_transfer.as_str());
                row(&mut v, "Plane copy ms/frame", t.plane_copy.as_str());
                row(&mut v, "Upload ms/frame", t.upload.as_str());
                row(&mut v, "Conversion submit ms/frame", t.conversion_submit.as_str());
            },
            None => {
                row(&mut v, "Status", "no video playing");
            },
        }
        assert(rows(v@) =~= self.video_rows(*t));
        v
    }

    fn pacing_section(&self) -> (v: Vec<(String, String)>)
        ensures
            rows(v@) == self.pacing_rows(),
    {
        let mut v: Vec<(String, String)> = Vec::new();
        let mut count: String = String::new();
        push_decimal(&mut count, self.outputs.len() as u64);
        assert(count@ =~= decimal(self.outputs@.len()));
        row(&mut v, "Output Count", count.as_str());
        row(&mut v, "Event Loop/s", self.event_loop_per_sec.as_str());
        row(&mut v, "Presented/s (all outputs)", self.presented_per_sec.as_str());
        row(&mut v, "Uploads/s", self.uploads_per_sec.as_str());
        row(&mut v, "Dropped/s", self.dropped_per_sec.as_str());
        row(&mut v, "Starved/s", self.starved_per_sec.as_str());
        row(&mut v, "Video Consumer", text_or(&self.consumer_error, "running"));
        assert(rows(v@) =~= self.pacing_rows());
        v
    }

    fn overrides_section(&self) -> (v: Vec<(String, String)>)
        ensures
            rows(v@) == self.override_rows(),
    {
        if self.env_overrides.len() == 0 {
            let mut v: Vec<(String, String)> = Vec::new();
            row(&mut v, "Overrides", "none set");
            assert(rows(v@) =~= self.override_rows());
            v
        } else {
            copy_rows(&self.env_overrides)
        }
    }

    /// Titled sections of lines: what is on the screen, and what is copied.
    /// `t` is how the video's timings are printed.
    pub fn sections(&self, t: &TimingTexts) -> (r: Vec<(&'static str, Vec<(String, String)>)>)
        ensures
            sections_view(r@) == self.sections_of(*t),
    {
        let mut r: Vec<(&'static str, Vec<(String, String)>)> = Vec::new();
        add_section(&mut r, "System", self.system_section());
        add_section(&mut r, "GPU", self.gpu_section());
        add_section(&mut r, "Outputs", self.outputs_section());
        add_section(&mut r, "Video Decode", self.video_section(t));
        add_section(&mut r, "Pacing", self.pacing_section());
        if self.frame_pacing.len() > 0 {
            add_section(&mut r, "Frame Pacing (wgpu)", copy_rows(&self.frame_pacing));
        }
        add_section(&mut r, "Environment Overrides", self.overrides_section());
        assert(sections_view(r@) =~= self.sections_of(*t));
        r
    }

    /// The sections as one text, for the clipboard.
    pub fn to_text(&self, t: &TimingTexts) -> (r: String)
        ensures
            r@ == sections_text(self.sections_of(*t), self.sections_of(*t).len() as int),
    {
        let sections: Vec<(&'static str, Vec<(String, String)>)> = self.sections(t);
        let ghost s = self.sections_of(*t);
        let mut text: String = String::new();
        let mut i: usize = 0;
        assert(text@ =~= sections_text(s, 0));
        while i < sections.len()
            invariant
                i <= sections@.len(),
                s == sections_view(sections@),
                text@ == sections_text(s, i as int),
            decreases sections@.len() - i,
        {
            let ghost start = text@;
            let lines: &Vec<(String, String)> = &sections[i].1;
            let ghost rs = rows(lines@);
            text.append(sections[i].0);
            text.append("\n");
            let ghost head = text@;
            assert(head =~= start + (s[i as int].0 + "\n"@));
            let mut j: usize = 0;
            assert(text@ =~= head + rows_text(rs, 0));
            while j < lines.len()
                invariant
                    j <= lines@.len(),
                    rs == rows(lines@),
                    text@ == head + rows_text(rs, j as int),
                decreases lines@.len() - j,
            {
                let ghost so_far = text@;
                text.append("  ");
                text.append(lines[j].0.as_str());
                text.append(": ");
                text.append(lines[j].1.as_str());
                text.append("\n");
                assert(text@ =~= so_far + row_text(rs[j as int]));
                assert(text@ =~= head + rows_text(rs, j + 1));
                j = j + 1;
            }
            text.append("\n");
            assert(text@ =~= sections_text(s, i + 1));
            i = i + 1;
        }
        text
    }
}

/// The video is decoded by the graphics processor exactly where its path does
/// not name software.
pub proof fn software_is_no_acceleration(v: &VideoDiagnostics, b: bool)
    requires
        call_ensures(VideoDiagnostics::accelerated, (v,), b),
    ensures
        !b <==> v.decode_path@ == "software"@,
{
}

/// Without a video the badge is grey and says so.
pub proof fn an_idle_badge_is_grey(r: Badge)
    requires
        call_ensures(video_status_badge, (None,), r),
    ensures
        r.label@ == "Video: idle"@,
        r.colour == (Rgb { r: 120, g: 120, b: 120 }),
        r.tip@ == "No video decoding right now."@,
{
}

/// The badge names the decode path. It is green where nothing was given up,
/// and amber, with a warning and the reason, where something was.
pub proof fn the_badge_warns_of_a_worse_path(v: &VideoDiagnostics, r: Badge)
    requires
        call_ensures(video_status_badge, (Some(v),), r),
    ensures
        ({
            let path = v.decode_path@;
            let slow = path == "software"@;
            let source = "Decode path: "@ + path + "\nSource: "@ + (decimal(v.width as nat) + "x"@
                + decimal(v.height as nat)) + " — "@ + v.path@;
            let cpu =
                "\n\nDecoding on the CPU — expect higher load than a hardware path."@;
            let end = "\n\nFull detail in Help > Status…"@;
            &&& !slow && v.fallback_reason is None ==> {
                &&& r.label@ == "Video: "@ + path
                &&& r.colour == (Rgb { r: 100, g: 220, b: 100 })
                &&& r.tip@ == source + end
            }
            &&& slow || v.fallback_reason is Some ==> {
                &&& r.label@ == "Video: "@ + path + " ⚠"@
                &&& r.colour == (Rgb { r: 240, g: 190, b: 90 })
            }
            &&& slow && v.fallback_reason is None ==> r.tip@ == source + cpu + end
            &&& v.fallback_reason matches Some(reason) ==> {
                &&& !slow ==> r.tip@ == source + "\n\nFell back: "@ + reason@ + end
                &&& slow ==> r.tip@ == source + "\n\nFell back: "@ + reason@ + cpu + end
            }
        }),
{
}

/// Each fact of the system is taken down in its place, the settings of the
/// environment behind those that are there, and nothing else is touched.
pub proof fn each_fact_is_taken_down(d: &mut Diagnostics, f: SystemFacts)
    requires
        call_ensures(Diagnostics::note_system, (d, f), ()),
    ensures
        final(d)@.app_version == f.app_version@,
        final(d)@.os == f.os@,
        final(d)@.arch == f.arch@,
        final(d)@.gpu_name == f.gpu_name@,
        final(d)@.gpu_backend == f.gpu_backend@,
        final(d)@.gpu_driver == f.gpu_driver@,
        final(d)@.gpu_driver_info == f.gpu_driver_info@,
        forall|major: nat, minor: nat, micro: nat|
            f.ffmpeg == 65536 * major + 256 * minor + micro && minor < 256 && micro < 256
                ==> final(d)@.ffmpeg_version == "libavutil "@ + #[trigger] decimal(major) + "."@
                + #[trigger] decimal(minor) + "."@ + #[trigger] decimal(micro),
        final(d)@.env_overrides.len() == old(d)@.env_overrides.len() + f.overrides@.len(),
        forall|i: int|
            0 <= i < old(d)@.env_overrides.len() ==> final(d)@.env_overrides[i]
                == old(d)@.env_overrides[i],
        forall|i: int|
            0 <= i < f.overrides@.len() ==> final(d)@.env_overrides[old(d)@.env_overrides.len() + i]
                == ((#[trigger] f.overrides@[i]).0@, f.overrides@[i].1@),
        final(d)@.log_file == old(d)@.log_file,
        final(d)@.outputs == old(d)@.outputs,
        final(d)@.presented_per_sec == old(d)@.presented_per_sec,
        final(d)@.starved_per_sec == old(d)@.starved_per_sec,
        final(d)@.uploads_per_sec == old(d)@.uploads_per_sec,
        final(d)@.dropped_per_sec == old(d)@.dropped_per_sec,
        final(d)@.event_loop_per_sec == old(d)@.event_loop_per_sec,
        final(d)@.consumer_error == old(d)@.consumer_error,
        final(d)@.video == old(d)@.video,
        final(d)@.frame_pacing == old(d)@.frame_pacing,
{
    assert(rows(f.overrides@).len() == f.overrides@.len());
    assert forall|i: int| 0 <= i < f.overrides@.len() implies final(d)@.env_overrides[old(d)@.env_overrides.len() + i] == (
        (#[trigger] f.overrides@[i]).0@,
        f.overrides@[i].1@,
    ) by {
        assert(rows(f.overrides@)[i] == row_view(f.overrides@[i]));
    }
    assert forall|major: nat, minor: nat, micro: nat|
        f.ffmpeg == 65536 * major + 256 * minor + micro && minor < 256 && micro < 256 implies final(d)@.ffmpeg_version == "libavutil "@ + #[trigger] decimal(major) + "."@ + #[trigger] decimal(
        minor,
    ) + "."@ + #[trigger] decimal(micro) by {
        assert(f.ffmpeg / 0x1_0000 == major);
        assert(f.ffmpeg / 0x100 % 0x100 == minor);
        assert(f.ffmpeg % 0x100 == micro);
    }
}

proof fn lemma_outputs_rows(outputs: Seq<OutputDiagnostics>, n: int, i: int, k: int)
    requires
        0 <= i < n <= outputs.len(),
        0 <= k < 7,
    ensures
        outputs_rows(outputs, n).len() == 7 * n,
        outputs_rows(outputs, n)[7 * i + k] == output_rows(outputs[i], i)[k],
    decreases n,
{
    if n > 1 {
        lemma_outputs_rows(outputs, n - 1, if i < n - 1 { i } else { 0 }, k);
    } else {
        assert(outputs_rows(outputs, 0).len() == 0);
    }
}

/// The status window has six sections, or seven where the frame timings are
/// measured, each under its title.
pub proof fn the_sections_stand_in_order(
    d: &Diagnostics,
    t: &TimingTexts,
    r: Vec<(&'static str, Vec<(String, String)>)>,
)
    requires
        call_ensures(Diagnostics::sections, (d, t), r),
    ensures
        ({
            let s = sections_view(r@);
            let last = if d.frame_pacing@.len() == 0 {
                5int
            } else {
                6int
            };
            &&& s.len() == last + 1
            &&& s[0].0 == "System"@
            &&& s[0].1 == seq![
                ("App Version"@, d.app_version@),
                ("OS"@, d.os@),
                ("Arch"@, d.arch@),
                ("Log File"@, d.log_file@),
            ]
            &&& s[1].0 == "GPU"@
            &&& s[1].1 == seq![
                ("Name"@, d.gpu_name@),
                ("Backend"@, d.gpu_backend@),
                ("Driver"@, d.gpu_driver@),
                ("Driver Info"@, d.gpu_driver_info@),
            ]
            &&& s[2].0 == "Outputs"@
            &&& d.outputs@.len() == 0 ==> s[2].1 == seq![("Outputs"@, "none open"@)]
            &&& s[3].0 == "Video Decode"@
            &&& d.video is None ==> s[3].1 == seq![("Status"@, "no video playing"@)]
            &&& s[4].0 == "Pacing"@
            &&& s[4].1.len() == 7
            &&& s[4].1[0] == ("Output Count"@, decimal(d.outputs@.len()))
            &&& s[4].1[1] == ("Event Loop/s"@, d.event_loop_per_sec@)
            &&& s[4].1[2] == ("Presented/s (all outputs)"@, d.presented_per_sec@)
            &&& s[4].1[3] == ("Uploads/s"@, d.uploads_per_sec@)
            &&& s[4].1[4] == ("Dropped/s"@, d.dropped_per_sec@)
            &&& s[4].1[5] == ("Starved/s"@, d.starved_per_sec@)
            &&& d.consumer_error is None ==> s[4].1[6] == ("Video Consumer"@, "running"@)
            &&& d.consumer_error matches Some(e) ==> s[4].1[6] == ("Video Consumer"@, e@)
            &&& d.frame_pacing@.len() > 0 ==> s[5].0 == "Frame Pacing (wgpu)"@ && s[5].1 == rows(
                d.frame_pacing@,
            )
            &&& s[last].0 == "Environment Overrides"@
            &&& d.env_overrides@.len() == 0 ==> s[last].1 == seq![("Overrides"@, "none set"@)]
            &&& d.env_overrides@.len() > 0 ==> s[last].1 == rows(d.env_overrides@)
        }),
{
}

/// Each output has seven lines, and each line names it by its number.
pub proof fn each_output_has_its_lines(
    d: &Diagnostics,
    t: &TimingTexts,
    r: Vec<(&'static str, Vec<(String, String)>)>,
    i: int,
)
    requires
        call_ensures(Diagnostics::sections, (d, t), r),
        0 <= i < d.outputs@.len(),
    ensures
        ({
            let lines = sections_view(r@)[2].1;
            let out = d.outputs@[i];
            let p = "Output "@ + decimal((i + 1) as nat);
            &&& lines.len() == 7 * d.outputs@.len()
            &&& lines[7 * i] == (p + " Name"@, out.name@)
            &&& lines[7 * i + 1] == (
                p + " Size"@,
                decimal(out.size.0 as nat) + "x"@ + decimal(out.size.1 as nat),
            )
            &&& lines[7 * i + 2] == (p + " Present Mode"@, out.present_mode@)
            &&& lines[7 * i + 3] == (p + " Surface Format"@, out.format@)
            &&& lines[7 * i + 4] == (p + " Monitor Refresh"@, out.refresh@)
            &&& out.fullscreen ==> lines[7 * i + 5] == (p + " Fullscreen"@, "yes"@)
            &&& !out.fullscreen ==> lines[7 * i + 5] == (p + " Fullscreen"@, "no"@)
            &&& lines[7 * i + 6] == (p + " Presented/s"@, out.presented_per_sec@)
        }),
{
    let n = d.outputs@.len() as int;
    lemma_outputs_rows(d.outputs@, n, i, 0);
    lemma_outputs_rows(d.outputs@, n, i, 1);
    lemma_outputs_rows(d.outputs@, n, i, 2);
    lemma_outputs_rows(d.outputs@, n, i, 3);
    lemma_outputs_rows(d.outputs@, n, i, 4);
    lemma_outputs_rows(d.outputs@, n, i, 5);
    lemma_outputs_rows(d.outputs@, n, i, 6);
}

/// The lines on the video tell what is decoded, how, and what each step of it
/// takes.
pub proof fn the_video_has_its_lines(
    d: &Diagnostics,
    t: &TimingTexts,
    r: Vec<(&'static str, Vec<(String, String)>)>,
)
    requires
        call_ensures(Diagnostics::sections, (d, t), r),
        d.video is Some,
    ensures
        ({
            let lines = sections_view(r@)[3].1;
            let v = d.video->0;
            &&& lines.len() == 9
            &&& lines[0] == ("File"@, v.path@)
            &&& lines[1] == (
                "Source Size"@,
                decimal(v.width as nat) + "x"@ + decimal(v.height as nat),
            )
            &&& lines[2] == ("Decode Path"@, v.decode_path@)
            &&& v.fallback_reason is None ==> lines[3] == ("Fallback Reason"@, "none"@)
            &&& v.fallback_reason matches Some(e) ==> lines[3] == ("Fallback Reason"@, e@)
            &&& lines[4] == ("Decode ms/frame"@, t.decode@)
            &&& lines[5] == ("HW transfer ms/frame"@, t.hw_transfer@)
            &&& lines[6] == ("Plane copy ms/frame"@, t.plane_copy@)
            &&& lines[7] == ("Upload ms/frame"@, t.upload@)
            &&& lines[8] == ("Conversion submit ms/frame"@, t.conversion_submit@)
        }),
{
}

/// The copied text has a line for each title, then its lines set in, then an
/// empty one.
pub proof fn the_text_starts_with_the_system(d: &Diagnostics, t: &TimingTexts, r: String)
    requires
        call_ensures(Diagnostics::to_text, (d, t), r),
    ensures
        ({
            let head = "System"@ + "\n"@ + ("  "@ + "App Version"@ + ": "@ + d.app_version@ + "\n"@)
                + ("  "@ + "OS"@ + ": "@ + d.os@ + "\n"@) + ("  "@ + "Arch"@ + ": "@ + d.arch@
                + "\n"@) + ("  "@ + "Log File"@ + ": "@ + d.log_file@ + "\n"@) + "\n"@;
            starts_with(r@, head)
        }),
{
    let s = d.sections_of(*t);
    let rs = d.system_rows();
    assert(s[0] == ("System"@, rs));
    assert(rows_text(rs, 0) =~= Seq::<char>::empty());
    assert(rows_text(rs, 1) == rows_text(rs, 0) + row_text(rs[0]));
    assert(rows_text(rs, 2) == rows_text(rs, 1) + row_text(rs[1]));
    assert(rows_text(rs, 3) == rows_text(rs, 2) + row_text(rs[2]));
    assert(rows_text(rs, 4) == rows_text(rs, 3) + row_text(rs[3]));
    assert(sections_text(s, 0) =~= Seq::<char>::empty());
    lemma_sections_text_grows(s, 1, s.len() as int);
    let head = "System"@ + "\n"@ + ("  "@ + "App Version"@ + ": "@ + d.app_version@ + "\n"@) + (
    "  "@ + "OS"@ + ": "@ + d.os@ + "\n"@) + ("  "@ + "Arch"@ + ": "@ + d.arch@ + "\n"@) + ("  "@
        + "Log File"@ + ": "@ + d.log_file@ + "\n"@) + "\n"@;
    assert(sections_text(s, 1) =~= head);
}

proof fn lemma_sections_text_grows(s: Seq<(Seq<char>, Seq<Row>)>, k: int, n: int)
    requires
        0 <= k <= n,
    ensures
        starts_with(sections_text(s, n), sections_text(s, k)),
    decreases n,
{
    if k < n {
        lemma_sections_text_grows(s, k, n - 1);
        let p = sections_text(s, k);
        assert(sections_text(s, n).take(p.len() as int) =~= sections_text(s, n - 1).take(
            p.len() as int,
        ));
    } else {
        assert(sections_text(s, n).take(sections_text(s, n).len() as int) =~= sections_text(s, n));
    }
}

} // verus!
