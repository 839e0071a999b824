use vstd::prelude::*;

use std::sync::mpsc::{Receiver, TryRecvError};

use crate::app::ViewMode;
use crate::text::{
    all_digits, ascii_lower, chars_of, decimal, digit_char, digits_value, eq_ignore_ascii_case,
    lemma_decimal_digits, eq_ignore_case, is_ws, is_whitespace,
    push_decimal, push_str, string_from, to_ascii_lower, trim, trim_chars,
};

verus! {

/// Terminal columns of the square image export.
pub const IMAGE_TERMINAL_WIDTH: u16 = 160;

/// Pixel size of the square image export.
pub const IMAGE_PIXEL_WIDTH: u32 = 2160;

pub const IMAGE_PIXEL_HEIGHT: u32 = 2160;

/// Pixel size of the square video export.
pub const ANIMATION_PIXEL_WIDTH: u32 = 1080;

pub const ANIMATION_PIXEL_HEIGHT: u32 = 1080;

/// Frames per second of recorded animations.
pub const ANIMATION_FPS: u32 = 15;

// ---------------------------------------------------------------------------
// Sizes
// ---------------------------------------------------------------------------

/// Shape of an exported picture or animation.
#[derive(Debug, Clone, Copy, PartialEq, Eq, Structural)]
pub enum ExportSize {
    Standard,
    Wide,
    UltraWide,
    Portrait,
    Tall,
    LargeSquare,
}

pub open spec fn size_index(s: ExportSize) -> int {
    match s {
        ExportSize::Standard => 0,
        ExportSize::Wide => 1,
        ExportSize::UltraWide => 2,
        ExportSize::Portrait => 3,
        ExportSize::Tall => 4,
        ExportSize::LargeSquare => 5,
    }
}

pub open spec fn size_at(i: int) -> ExportSize {
    if i == 0 {
        ExportSize::Standard
    } else if i == 1 {
        ExportSize::Wide
    } else if i == 2 {
        ExportSize::UltraWide
    } else if i == 3 {
        ExportSize::Portrait
    } else if i == 4 {
        ExportSize::Tall
    } else {
        ExportSize::LargeSquare
    }
}

/// The size one step along the cycle of all sizes, forward or backward.
pub open spec fn size_step(s: ExportSize, forward: bool) -> ExportSize {
    let i = size_index(s);
    if forward {
        size_at(if i == 5 {
            0
        } else {
            i + 1
        })
    } else {
        size_at(if i == 0 {
            5
        } else {
            i - 1
        })
    }
}

pub open spec fn size_label(s: ExportSize) -> Seq<char> {
    match s {
        ExportSize::Standard => "square"@,
        ExportSize::Wide => "wide"@,
        ExportSize::UltraWide => "cinema"@,
        ExportSize::Portrait => "portrait"@,
        ExportSize::Tall => "story"@,
        ExportSize::LargeSquare => "large square"@,
    }
}

pub open spec fn terminal_size_of(s: ExportSize) -> (u16, u16) {
    match s {
        ExportSize::Standard => (160, 80),
        ExportSize::Wide => (192, 54),
        ExportSize::UltraWide => (240, 51),
        ExportSize::Portrait => (108, 96),
        ExportSize::Tall => (96, 128),
        ExportSize::LargeSquare => (220, 110),
    }
}

pub open spec fn image_pixels_of(s: ExportSize) -> (u32, u32) {
    match s {
        ExportSize::Standard => (2160, 2160),
        ExportSize::Wide => (2400, 1350),
        ExportSize::UltraWide => (2560, 1080),
        ExportSize::Portrait => (1350, 2400),
        ExportSize::Tall => (1080, 1920),
        ExportSize::LargeSquare => (2880, 2880),
    }
}

pub open spec fn animation_pixels_of(s: ExportSize) -> (u32, u32) {
    match s {
        ExportSize::Standard => (1080, 1080),
        ExportSize::Wide => (1280, 720),
        ExportSize::UltraWide => (1280, 540),
        ExportSize::Portrait => (720, 1280),
        ExportSize::Tall => (608, 1080),
        ExportSize::LargeSquare => (1440, 1440),
    }
}

pub open spec fn gif_pixels_of(s: ExportSize) -> (u32, u32) {
    match s {
        ExportSize::Standard | ExportSize::LargeSquare => (1080, 1080),
        ExportSize::Wide => (1080, 608),
        ExportSize::UltraWide => (1080, 456),
        ExportSize::Portrait => (608, 1080),
        ExportSize::Tall => (540, 960),
    }
}

impl ExportSize {
    /// Every size, in cycle order (`ExportSize::ALL`).
    pub fn all() -> (r: Vec<ExportSize>)
        ensures
            r.len() == 6,
            forall|i: int| 0 <= i < 6 ==> #[trigger] r@[i] == size_at(i),
    {
        vec![
            ExportSize::Standard,
            ExportSize::Wide,
            ExportSize::UltraWide,
            ExportSize::Portrait,
            ExportSize::Tall,
            ExportSize::LargeSquare,
        ]
    }

    /// The next size forward, or the previous one.
    pub fn next(self, forward: bool) -> (r: ExportSize)
        ensures
            r == size_step(self, forward),
    {
        let all = ExportSize::all();
        let mut index: usize = 0;
        while index < all.len() && all[index] != self
            invariant
                all.len() == 6,
                forall|i: int| 0 <= i < 6 ==> #[trigger] all@[i] == size_at(i),
                index <= 6,
                forall|i: int| 0 <= i < index ==> size_at(i) != self,
            decreases 6 - index,
        {
            index = index + 1;
        }
        assert(index < 6) by {
            if index == 6 {
                assert(size_at(size_index(self)) == self);
            }
        }
        assert(index == size_index(self));
        let next = if forward {
            (index + 1) % 6
        } else {
            (index + 6 - 1) % 6
        };
        all[next]
    }

    /// The size's name in the export panel.
    pub fn label(self) -> (r: &'static str)
        ensures
            r@ == size_label(self),
    {
        match self {
            ExportSize::Standard => "square",
            ExportSize::Wide => "wide",
            ExportSize::UltraWide => "cinema",
            ExportSize::Portrait => "portrait",
            ExportSize::Tall => "story",
            ExportSize::LargeSquare => "large square",
        }
    }

    /// Terminal columns and rows rendered for the export.
    pub fn terminal_size(self) -> (r: (u16, u16))
        ensures
            r == terminal_size_of(self),
    {
        match self {
            ExportSize::Standard => (IMAGE_TERMINAL_WIDTH, 80),
            ExportSize::Wide => (192, 54),
            ExportSize::UltraWide => (240, 51),
            ExportSize::Portrait => (108, 96),
            ExportSize::Tall => (96, 128),
            ExportSize::LargeSquare => (220, 110),
        }
    }

    /// Pixel size of a PNG or SVG export.
    pub fn image_pixels(self) -> (r: (u32, u32))
        ensures
            r == image_pixels_of(self),
    {
        match self {
            ExportSize::Standard => (IMAGE_PIXEL_WIDTH, IMAGE_PIXEL_HEIGHT),
            ExportSize::Wide => (2400, 1350),
            ExportSize::UltraWide => (2560, 1080),
            ExportSize::Portrait => (1350, 2400),
            ExportSize::Tall => (1080, 1920),
            ExportSize::LargeSquare => (2880, 2880),
        }
    }

    /// Pixel size of an MP4 or WebM export.
    pub fn animation_pixels(self) -> (r: (u32, u32))
        ensures
            r == animation_pixels_of(self),
    {
        match self {
            ExportSize::Standard => (ANIMATION_PIXEL_WIDTH, ANIMATION_PIXEL_HEIGHT),
            ExportSize::Wide => (1280, 720),
            ExportSize::UltraWide => (1280, 540),
            ExportSize::Portrait => (720, 1280),
            ExportSize::Tall => (608, 1080),
            ExportSize::LargeSquare => (1440, 1440),
        }
    }

    /// Pixel size of a GIF export.
    pub fn gif_pixels(self) -> (r: (u32, u32))
        ensures
            r == gif_pixels_of(self),
    {
        match self {
            ExportSize::Standard | ExportSize::LargeSquare => (1080, 1080),
            ExportSize::Wide => (1080, 608),
            ExportSize::UltraWide => (1080, 456),
            ExportSize::Portrait => (608, 1080),
            ExportSize::Tall => (540, 960),
        }
    }

    /// Pixel size of an export in `format`.
    pub fn output_pixels(self, format: ExportFormat) -> (r: (u32, u32))
        ensures
            r == (match format {
                ExportFormat::Png | ExportFormat::Svg => image_pixels_of(self),
                ExportFormat::Gif => gif_pixels_of(self),
                ExportFormat::Mp4 | ExportFormat::Webm => animation_pixels_of(self),
            }),
    {
        match format {
            ExportFormat::Png | ExportFormat::Svg => self.image_pixels(),
            ExportFormat::Gif => self.gif_pixels(),
            ExportFormat::Mp4 | ExportFormat::Webm => self.animation_pixels(),
        }
    }
}

// ---------------------------------------------------------------------------
// Formats
// ---------------------------------------------------------------------------

/// File format of an export.
#[derive(Debug, Clone, Copy, PartialEq, Eq, Structural)]
pub enum ExportFormat {
    Png,
    Svg,
    Gif,
    Mp4,
    Webm,
}

pub open spec fn format_index(f: ExportFormat) -> int {
    match f {
        ExportFormat::Png => 0,
        ExportFormat::Svg => 1,
        ExportFormat::Gif => 2,
        ExportFormat::Mp4 => 3,
        ExportFormat::Webm => 4,
    }
}

pub open spec fn format_at(i: int) -> ExportFormat {
    if i == 0 {
        ExportFormat::Png
    } else if i == 1 {
        ExportFormat::Svg
    } else if i == 2 {
        ExportFormat::Gif
    } else if i == 3 {
        ExportFormat::Mp4
    } else {
        ExportFormat::Webm
    }
}

/// The format one step along the cycle of all formats, forward or backward.
pub open spec fn format_step(f: ExportFormat, forward: bool) -> ExportFormat {
    let i = format_index(f);
    if forward {
        format_at(if i == 4 {
            0
        } else {
            i + 1
        })
    } else {
        format_at(if i == 0 {
            4
        } else {
            i - 1
        })
    }
}

pub open spec fn format_extension(f: ExportFormat) -> Seq<char> {
    match f {
        ExportFormat::Png => "png"@,
        ExportFormat::Svg => "svg"@,
        ExportFormat::Gif => "gif"@,
        ExportFormat::Mp4 => "mp4"@,
        ExportFormat::Webm => "webm"@,
    }
}

pub open spec fn format_label(f: ExportFormat) -> Seq<char> {
    match f {
        ExportFormat::Png => "PNG"@,
        ExportFormat::Svg => "SVG"@,
        ExportFormat::Gif => "GIF"@,
        ExportFormat::Mp4 => "MP4"@,
        ExportFormat::Webm => "WebM"@,
    }
}

impl ExportFormat {
    /// Every format, in cycle order (`ExportFormat::ALL`).
    pub fn all() -> (r: Vec<ExportFormat>)
        ensures
            r.len() == 5,
            forall|i: int| 0 <= i < 5 ==> #[trigger] r@[i] == format_at(i),
    {
        vec![
            ExportFormat::Png,
            ExportFormat::Svg,
            ExportFormat::Gif,
            ExportFormat::Mp4,
            ExportFormat::Webm,
        ]
    }

    /// The next format forward, or the previous one.
    pub fn next(self, forward: bool) -> (r: ExportFormat)
        ensures
            r == format_step(self, forward),
    {
        let all = ExportFormat::all();
        let mut index: usize = 0;
        while index < all.len() && all[index] != self
            invariant
                all.len() == 5,
                forall|i: int| 0 <= i < 5 ==> #[trigger] all@[i] == format_at(i),
                index <= 5,
                forall|i: int| 0 <= i < index ==> format_at(i) != self,
            decreases 5 - index,
        {
            index = index + 1;
        }
        assert(index < 5) by {
            if index == 5 {
                assert(format_at(format_index(self)) == self);
            }
        }
        assert(index == format_index(self));
        let next = if forward {
            (index + 1) % 5
        } else {
            (index + 5 - 1) % 5
        };
        all[next]
    }

    /// File extension written for the format.
    pub fn extension(self) -> (r: &'static str)
        ensures
            r@ == format_extension(self),
    {
        match self {
            ExportFormat::Png => "png",
            ExportFormat::Svg => "svg",
            ExportFormat::Gif => "gif",
            ExportFormat::Mp4 => "mp4",
            ExportFormat::Webm => "webm",
        }
    }

    /// Name of the format in the export panel.
    pub fn label(self) -> (r: &'static str)
        ensures
            r@ == format_label(self),
    {
        match self {
            ExportFormat::Png => "PNG",
            ExportFormat::Svg => "SVG",
            ExportFormat::Gif => "GIF",
            ExportFormat::Mp4 => "MP4",
            ExportFormat::Webm => "WebM",
        }
    }

    /// Whether the format is a still image.
    pub fn is_image(self) -> (r: bool)
        ensures
            r == (self == ExportFormat::Png || self == ExportFormat::Svg),
    {
        match self {
            ExportFormat::Png | ExportFormat::Svg => true,
            _ => false,
        }
    }

    /// Whether writing the format needs the external `ffmpeg` program.
    pub fn needs_ffmpeg(self) -> (r: bool)
        ensures
            r == (self == ExportFormat::Mp4 || self == ExportFormat::Webm),
    {
        match self {
            ExportFormat::Mp4 | ExportFormat::Webm => true,
            _ => false,
        }
    }
}

/// Stepping forward and then backward through the sizes or the formats
/// returns to the start, and six sizes or five formats forward come full
/// circle.
pub proof fn lemma_export_cycles(s: ExportSize, f: ExportFormat, forward: bool)
    ensures
        size_step(size_step(s, forward), !forward) == s,
        format_step(format_step(f, forward), !forward) == f,
        size_step(size_step(size_step(size_step(size_step(size_step(s, true), true), true), true), true), true) == s,
        format_step(format_step(format_step(format_step(format_step(f, true), true), true), true), true) == f,
{
    match s {
        ExportSize::Standard => {},
        ExportSize::Wide => {},
        ExportSize::UltraWide => {},
        ExportSize::Portrait => {},
        ExportSize::Tall => {},
        ExportSize::LargeSquare => {},
    }
    match f {
        ExportFormat::Png => {},
        ExportFormat::Svg => {},
        ExportFormat::Gif => {},
        ExportFormat::Mp4 => {},
        ExportFormat::Webm => {},
    }
}

// ---------------------------------------------------------------------------
// Host-dependent hint
// ---------------------------------------------------------------------------

/// The operating system the program runs on, as far as install hints care.
#[derive(Debug, Clone, Copy, PartialEq, Eq, Structural)]
pub enum HostOs {
    MacOs,
    Windows,
    Other,
}

pub open spec fn ffmpeg_hint(os: HostOs) -> Seq<char> {
    match os {
        HostOs::MacOs => "ffmpeg is required for MP4/WebM export. Install it with: brew install ffmpeg"@,
        HostOs::Windows => "ffmpeg is required for MP4/WebM export. Install it with: winget install Gyan.FFmpeg"@,
        HostOs::Other => "ffmpeg is required for MP4/WebM export. Install it with: sudo apt install ffmpeg"@,
    }
}

/// How to install `ffmpeg` on the host.
pub fn ffmpeg_install_hint(os: HostOs) -> (r: &'static str)
    ensures
        r@ == ffmpeg_hint(os),
{
    match os {
        HostOs::MacOs => "ffmpeg is required for MP4/WebM export. Install it with: brew install ffmpeg",
        HostOs::Windows => "ffmpeg is required for MP4/WebM export. Install it with: winget install Gyan.FFmpeg",
        HostOs::Other => "ffmpeg is required for MP4/WebM export. Install it with: sudo apt install ffmpeg",
    }
}

// ---------------------------------------------------------------------------
// File names
// ---------------------------------------------------------------------------

pub open spec fn is_ascii_alnum(c: char) -> bool {
    ('0' <= c && c <= '9') || ('a' <= c && c <= 'z') || ('A' <= c && c <= 'Z')
}

/// What a character becomes in a file-name slug: ASCII letters and digits
/// in lower case; white space and `- _ / \ : .` become `-`; CJK ideographs
/// of the basic block stay; anything else is dropped.
pub open spec fn slug_char(c: char) -> Option<char> {
    if is_ascii_alnum(c) {
        Some(ascii_lower(c))
    } else if is_ws(c) || c == '-' || c == '_' || c == '/' || c == '\\' || c == ':' || c == '.' {
        Some('-')
    } else if 0x4e00 <= (c as u32) && (c as u32) <= 0x9fff {
        Some(c)
    } else {
        None
    }
}

pub open spec fn slug_chars(s: Seq<char>) -> Seq<char>
    decreases s.len(),
{
    if s.len() == 0 {
        Seq::empty()
    } else {
        match slug_char(s.last()) {
            Some(c) => slug_chars(s.drop_last()).push(c),
            None => slug_chars(s.drop_last()),
        }
    }
}

pub open spec fn trim_dash_start(s: Seq<char>) -> Seq<char>
    decreases s.len(),
{
    if s.len() > 0 && s[0] == '-' {
        trim_dash_start(s.drop_first())
    } else {
        s
    }
}

pub open spec fn trim_dash_end(s: Seq<char>) -> Seq<char>
    decreases s.len(),
{
    if s.len() > 0 && s.last() == '-' {
        trim_dash_end(s.drop_last())
    } else {
        s
    }
}

/// The slug of `s`: its slug characters without leading or trailing dashes,
/// or `termarium` when nothing is left.
pub open spec fn slug_spec(s: Seq<char>) -> Seq<char> {
    let t = trim_dash_end(trim_dash_start(slug_chars(s)));
    if t.len() == 0 {
        "termarium"@
    } else {
        t
    }
}

proof fn lemma_trim_dash_start_from(s: Seq<char>, i: int)
    requires
        0 <= i <= s.len(),
        forall|k: int| 0 <= k < i ==> #[trigger] s[k] == '-',
        i == s.len() || s[i] != '-',
    ensures
        trim_dash_start(s) == s.subrange(i, s.len() as int),
    decreases i,
{
    if i > 0 {
        let t = s.drop_first();
        assert forall|k: int| 0 <= k < i - 1 implies #[trigger] t[k] == '-' by {
            assert(t[k] == s[k + 1]);
        }
        if i - 1 < t.len() {
            assert(t[i - 1] == s[i]);
        }
        lemma_trim_dash_start_from(t, i - 1);
        assert(t.subrange(i - 1, t.len() as int) =~= s.subrange(i, s.len() as int));
    } else {
        assert(s.subrange(0, s.len() as int) =~= s);
    }
}

proof fn lemma_trim_dash_end_to(s: Seq<char>, j: int)
    requires
        0 <= j <= s.len(),
        forall|k: int| j <= k < s.len() ==> #[trigger] s[k] == '-',
        j == 0 || s[j - 1] != '-',
    ensures
        trim_dash_end(s) == s.subrange(0, j),
    decreases s.len() - j,
{
    if j < s.len() {
        let t = s.drop_last();
        assert forall|k: int| j <= k < t.len() implies #[trigger] t[k] == '-' by {
            assert(t[k] == s[k]);
        }
        if j > 0 {
            assert(t[j - 1] == s[j - 1]);
        }
        lemma_trim_dash_end_to(t, j);
        assert(t.subrange(0, j) =~= s.subrange(0, j));
    } else {
        assert(s.subrange(0, j) =~= s);
    }
}

fn slug_char_exec(c: char) -> (r: Option<char>)
    ensures
        r == slug_char(c),
{
    if ('0' <= c && c <= '9') || ('a' <= c && c <= 'z') || ('A' <= c && c <= 'Z') {
        Some(to_ascii_lower(c))
    } else if is_whitespace(c) || c == '-' || c == '_' || c == '/' || c == '\\' || c == ':' || c
        == '.' {
        Some('-')
    } else if 0x4e00 <= (c as u32) && (c as u32) <= 0x9fff {
        Some(c)
    } else {
        None
    }
}

/// A file-name slug of `value`.
pub fn slug(value: &str) -> (r: String)
    ensures
        r@ == slug_spec(value@),
{
    let v = chars_of(value);
    let mut raw: Vec<char> = Vec::new();
    let mut i: usize = 0;
    while i < v.len()
        invariant
            i <= v.len(),
            raw@ == slug_chars(v@.take(i as int)),
        decreases v.len() - i,
    {
        assert(v@.take(i + 1).drop_last() =~= v@.take(i as int));
        match slug_char_exec(v[i]) {
            Some(c) => raw.push(c),
            None => {},
        }
        i = i + 1;
    }
    assert(v@.take(v.len() as int) =~= v@);
    let n = raw.len();
    let mut a: usize = 0;
    while a < n && raw[a] == '-'
        invariant
            n == raw.len(),
            a <= n,
            forall|k: int| 0 <= k < a ==> #[trigger] raw@[k] == '-',
        decreases n - a,
    {
        a = a + 1;
    }
    proof {
        lemma_trim_dash_start_from(raw@, a as int);
    }
    let ghost t = raw@.subrange(a as int, n as int);
    let mut b: usize = n;
    while b > a && raw[b - 1] == '-'
        invariant
            n == raw.len(),
            a <= b <= n,
            forall|k: int| b <= k < n ==> #[trigger] raw@[k] == '-',
        decreases b,
    {
        b = b - 1;
    }
    proof {
        assert forall|k: int| b - a <= k < t.len() implies #[trigger] t[k] == '-' by {
            assert(t[k] == raw@[k + a]);
        }
        if b > a {
            assert(t[b - a - 1] == raw@[b - 1]);
        }
        lemma_trim_dash_end_to(t, b - a);
        assert(t.subrange(0, b - a) =~= raw@.subrange(a as int, b as int));
    }
    if a == b {
        return String::from_str("termarium");
    }
    let out = crate::text::copy_range(&raw, a, b);
    string_from(out.as_slice())
}

proof fn lemma_slug_chars_allowed(s: Seq<char>)
    ensures
        forall|k: int|
            0 <= k < slug_chars(s).len() ==> #[trigger] slug_allowed(slug_chars(s)[k]),
    decreases s.len(),
{
    if s.len() > 0 {
        lemma_slug_chars_allowed(s.drop_last());
        lemma_slug_char_allowed(s.last());
        let prev = slug_chars(s.drop_last());
        assert forall|k: int| 0 <= k < slug_chars(s).len() implies #[trigger] slug_allowed(
            slug_chars(s)[k],
        ) by {
            if k < prev.len() {
                assert(slug_chars(s)[k] == prev[k]);
            }
        }
    }
}

proof fn lemma_slug_char_allowed(c: char)
    ensures
        slug_char(c) matches Some(d) ==> slug_allowed(d),
{
    if 'A' <= c && c <= 'Z' {
        let d = ascii_lower(c);
        assert((d as u32) == (c as u32) + 32);
    }
}

proof fn lemma_trim_dash_start_sub(s: Seq<char>)
    ensures
        exists|i: int|
            0 <= i <= s.len() && #[trigger] trim_dash_start(s) == s.subrange(i, s.len() as int),
        trim_dash_start(s).len() > 0 ==> trim_dash_start(s)[0] != '-',
    decreases s.len(),
{
    if s.len() > 0 && s[0] == '-' {
        lemma_trim_dash_start_sub(s.drop_first());
        let i = choose|i: int|
            0 <= i <= s.drop_first().len() && #[trigger] trim_dash_start(s.drop_first())
                == s.drop_first().subrange(i, s.drop_first().len() as int);
        assert(s.drop_first().subrange(i, s.drop_first().len() as int) =~= s.subrange(
            i + 1,
            s.len() as int,
        ));
    } else {
        assert(s.subrange(0, s.len() as int) =~= s);
    }
}

proof fn lemma_trim_dash_end_sub(s: Seq<char>)
    ensures
        exists|j: int| 0 <= j <= s.len() && #[trigger] trim_dash_end(s) == s.subrange(0, j),
        trim_dash_end(s).len() > 0 ==> trim_dash_end(s).last() != '-',
        trim_dash_end(s).len() > 0 && s.len() > 0 ==> trim_dash_end(s)[0] == s[0],
    decreases s.len(),
{
    if s.len() > 0 && s.last() == '-' {
        lemma_trim_dash_end_sub(s.drop_last());
        let j = choose|j: int|
            0 <= j <= s.drop_last().len() && #[trigger] trim_dash_end(s.drop_last())
                == s.drop_last().subrange(0, j);
        assert(s.drop_last().subrange(0, j) =~= s.subrange(0, j));
    } else {
        assert(s.subrange(0, s.len() as int) =~= s);
    }
}

/// Characters a slug may hold.
pub open spec fn slug_allowed(c: char) -> bool {
    ('0' <= c && c <= '9') || ('a' <= c && c <= 'z') || c == '-' || (0x4e00 <= (c as u32) && (
    c as u32) <= 0x9fff)
}

/// A slug is never empty, never starts or ends with a dash, and holds only
/// lowercase ASCII letters, digits, dashes and CJK ideographs.
pub proof fn lemma_slug_shape(s: Seq<char>)
    ensures
        slug_spec(s).len() > 0,
        slug_spec(s)[0] != '-',
        slug_spec(s).last() != '-',
        forall|k: int| 0 <= k < slug_spec(s).len() ==> #[trigger] slug_allowed(slug_spec(s)[k]),
{
    reveal_strlit("termarium");
    let raw = slug_chars(s);
    lemma_slug_chars_allowed(s);
    lemma_trim_dash_start_sub(raw);
    let a = trim_dash_start(raw);
    lemma_trim_dash_end_sub(a);
    let t = trim_dash_end(a);
    if t.len() > 0 {
        let i = choose|i: int| 0 <= i <= raw.len() && #[trigger] trim_dash_start(raw) == raw.subrange(
            i,
            raw.len() as int,
        );
        let j = choose|j: int| 0 <= j <= a.len() && #[trigger] trim_dash_end(a) == a.subrange(0, j);
        assert forall|k: int| 0 <= k < t.len() implies #[trigger] slug_allowed(t[k]) by {
            assert(t[k] == a[k]);
            assert(a[k] == raw[k + i]);
        }
    }
}

/// The file name of an export:
/// `termarium-<slug of place>-<slug of target>-<stamp>.<extension>`, where
/// the target is the selected object or, without one, `sky` or `globe`.
pub open spec fn output_file_name_spec(
    format: ExportFormat,
    location_name: Seq<char>,
    target: Option<Seq<char>>,
    view_mode: ViewMode,
    stamp: Seq<char>,
) -> Seq<char> {
    let t = match target {
        Some(t) => t,
        None => match view_mode {
            ViewMode::Sky => "sky"@,
            ViewMode::Ground => "globe"@,
        },
    };
    "termarium-"@ + slug_spec(location_name) + "-"@ + slug_spec(t) + "-"@ + stamp + "."@
        + format_extension(format)
}

/// The export file name for the given place, target, view and time stamp.
pub fn output_file_name(
    format: ExportFormat,
    location_name: &str,
    target: Option<&str>,
    view_mode: ViewMode,
    stamp: &str,
) -> (r: String)
    ensures
        r@ == output_file_name_spec(
            format,
            location_name@,
            match target {
                Some(t) => Some(t@),
                None => None,
            },
            view_mode,
            stamp@,
        ),
{
    let view = match view_mode {
        ViewMode::Sky => "sky",
        ViewMode::Ground => "globe",
    };
    let t = match target {
        Some(t) => t,
        None => view,
    };
    let place = slug(location_name);
    let what = slug(t);
    let mut out: Vec<char> = Vec::new();
    push_str(&mut out, "termarium-");
    push_str(&mut out, place.as_str());
    push_str(&mut out, "-");
    push_str(&mut out, what.as_str());
    push_str(&mut out, "-");
    push_str(&mut out, stamp);
    push_str(&mut out, ".");
    push_str(&mut out, format.extension());
    assert(out@ =~= output_file_name_spec(
        format,
        location_name@,
        match target {
            Some(t) => Some(t@),
            None => None,
        },
        view_mode,
        stamp@,
    ));
    string_from(out.as_slice())
}

/// What chrono writes for the UTC instant `secs` seconds after the Unix
/// epoch with the format `%Y%m%d-%H%M%S`; none when the instant lies outside
/// chrono's range.
pub uninterp spec fn utc_compact_stamp(secs: i64) -> Option<Seq<char>>;

/// The proleptic Gregorian date `(year, month, day)` of the day `days`
/// after 1 January 1970.
pub open spec fn civil_date(days: int) -> (int, int, int) {
    let z = days + 719468;
    let era = z / 146097;
    let doe = z - era * 146097;
    let yoe = (doe - doe / 1460 + doe / 36524 - doe / 146096) / 365;
    let doy = doe - (365 * yoe + yoe / 4 - yoe / 100);
    let mp = (5 * doy + 2) / 153;
    let d = doy - (153 * mp + 2) / 5 + 1;
    let m = if mp < 10 {
        mp + 3
    } else {
        mp - 9
    };
    (if m <= 2 {
        yoe + era * 400 + 1
    } else {
        yoe + era * 400
    }, m, d)
}

/// `n` (below 100) written with two digits.
pub open spec fn two_digits(n: int) -> Seq<char> {
    seq![digit_char((n / 10) as nat), digit_char((n % 10) as nat)]
}

/// The UTC instant `secs` seconds after the Unix epoch written as
/// `YYYYMMDD-HHMMSS`, for years 0 to 9999 (four-digit years).
pub open spec fn stamp_text(secs: int) -> Seq<char> {
    let (y, m, d) = civil_date(secs / 86400);
    let t = secs % 86400;
    padded4(y as nat) + two_digits(m) + two_digits(d) + seq!['-'] + two_digits(t / 3600)
        + two_digits(t % 3600 / 60) + two_digits(t % 60)
}

/// `DateTime::<Utc>::from_timestamp(secs, 0)` formatted with `%Y%m%d-%H%M%S`.
/// From 1 January of the year 0 to the end of 9999 the text is the
/// Gregorian date and time (`stamp_text`); outside that, where chrono's
/// range ends and its years take a sign, the result is only named.
#[verifier::external_body]
fn compact_utc_stamp(secs: i64) -> (r: Option<String>)
    ensures
        r matches Some(s) ==> utc_compact_stamp(secs) == Some(s@),
        r is None ==> utc_compact_stamp(secs) is None,
        (r is Some && r.unwrap()@ == stamp_text(secs as int)) <== (-62167219200 <= secs <= 253402300799),
{
    match chrono::DateTime::from_timestamp(secs, 0) {
        Some(time) => Some(time.format("%Y%m%d-%H%M%S").to_string()),
        None => None,
    }
}

/// The default export file name for an export made `unix_secs` seconds after
/// the Unix epoch; none when that instant cannot be written as a date.
pub fn default_output_name(
    format: ExportFormat,
    location_name: &str,
    target: Option<&str>,
    view_mode: ViewMode,
    unix_secs: i64,
) -> (r: Option<String>)
    ensures
        r matches Some(n) ==> (utc_compact_stamp(unix_secs) matches Some(stamp) && n@
            == output_file_name_spec(
            format,
            location_name@,
            match target {
                Some(t) => Some(t@),
                None => None,
            },
            view_mode,
            stamp,
        )),
        r is None ==> utc_compact_stamp(unix_secs) is None,
{
    match compact_utc_stamp(unix_secs) {
        Some(stamp) => Some(output_file_name(format, location_name, target, view_mode, stamp.as_str())),
        None => None,
    }
}

// ---------------------------------------------------------------------------
// Encoding a recording with ffmpeg
// ---------------------------------------------------------------------------

/// Longest recording, in seconds: a GIF stops after four seconds, a video
/// after a minute.
pub open spec fn recording_limit_secs(format: ExportFormat) -> u64 {
    match format {
        ExportFormat::Gif => 4,
        _ => 60,
    }
}

/// The longest a recording in `format` may run, in seconds.
pub fn max_recording_secs(format: ExportFormat) -> (r: u64)
    ensures
        r == recording_limit_secs(format),
{
    match format {
        ExportFormat::Gif => 4,
        _ => 60,
    }
}

// ---------------------------------------------------------------------------
// Recording the frames of an animation
// ---------------------------------------------------------------------------

/// Frames a recording should hold after `elapsed_ms` milliseconds: one for
/// the start and one more for each full frame time, counting no time past
/// the format's limit.
pub open spec fn frames_due(format: ExportFormat, elapsed_ms: u64) -> int {
    let limit = recording_limit_secs(format) * 1000;
    let t = if elapsed_ms < limit {
        elapsed_ms as int
    } else {
        limit as int
    };
    t * ANIMATION_FPS / 1000 + 1
}

/// A recording in progress: what it records to, how many frames it has
/// captured, and the frames. The time since it started is kept by the caller
/// and handed to the methods in milliseconds.
pub struct RecordingState<F> {
    pub format: ExportFormat,
    pub size: ExportSize,
    pub output_path: String,
    pub captured_frames: u32,
    pub frames: Vec<F>,
}

impl<F> RecordingState<F> {
    /// A recording that has captured nothing yet.
    pub fn new(format: ExportFormat, size: ExportSize, output_path: String) -> (r: Self)
        ensures
            r.format == format,
            r.size == size,
            r.output_path@ == output_path@,
            r.captured_frames == 0,
            r.frames@.len() == 0,
    {
        RecordingState { format, size, output_path, captured_frames: 0, frames: Vec::new() }
    }

    /// The longest the recording may run, in milliseconds.
    pub fn max_duration_ms(&self) -> (r: u64)
        ensures
            r == recording_limit_secs(self.format) * 1000,
    {
        max_recording_secs(self.format) * 1000
    }

    /// How long the recording has run, counting no time past its limit.
    pub fn elapsed_ms(&self, since_start_ms: u64) -> (r: u64)
        ensures
            r == (if since_start_ms < recording_limit_secs(self.format) * 1000 {
                since_start_ms
            } else {
                (recording_limit_secs(self.format) * 1000) as u64
            }),
    {
        let limit = self.max_duration_ms();
        if since_start_ms < limit {
            since_start_ms
        } else {
            limit
        }
    }

    /// Whether the recording is behind: it has captured fewer frames than
    /// are due.
    pub fn should_capture(&self, since_start_ms: u64) -> (r: bool)
        ensures
            r == (self.captured_frames < frames_due(self.format, since_start_ms)),
    {
        let elapsed = self.elapsed_ms(since_start_ms);
        let due = elapsed * (ANIMATION_FPS as u64) / 1000 + 1;
        (self.captured_frames as u64) < due
    }

    /// Keeps a captured frame.
    pub fn mark_captured(&mut self, frame: F)
        requires
            old(self).captured_frames < u32::MAX,
        ensures
            final(self).frames@ == old(self).frames@.push(frame),
            final(self).captured_frames == old(self).captured_frames + 1,
            final(self).format == old(self).format,
            final(self).size == old(self).size,
            final(self).output_path@ == old(self).output_path@,
    {
        self.frames.push(frame);
        self.captured_frames = self.captured_frames + 1;
    }

    /// Whether the recording has run for its whole limit.
    pub fn is_expired(&self, since_start_ms: u64) -> (r: bool)
        ensures
            r == (since_start_ms >= recording_limit_secs(self.format) * 1000),
    {
        since_start_ms >= self.max_duration_ms()
    }
}

/// `n` written with at least four digits, zeros in front.
pub open spec fn padded4(n: nat) -> Seq<char> {
    if n < 10 {
        "000"@ + decimal(n)
    } else if n < 100 {
        "00"@ + decimal(n)
    } else if n < 1000 {
        "0"@ + decimal(n)
    } else {
        decimal(n)
    }
}

/// The file a recorded frame is written to: `frame-<index>.png`, the index
/// with at least four digits.
pub open spec fn frame_name(index: nat) -> Seq<char> {
    "frame-"@ + padded4(index) + ".png"@
}

/// The name of frame `index` of a recording.
pub fn frame_file_name(index: u32) -> (r: String)
    ensures
        r@ == frame_name(index as nat),
{
    proof {
        reveal_strlit("frame-");
        reveal_strlit(".png");
        reveal_strlit("000");
        reveal_strlit("00");
        reveal_strlit("0");
    }
    let mut out: Vec<char> = Vec::new();
    push_str(&mut out, "frame-");
    if index < 10 {
        push_str(&mut out, "000");
    } else if index < 100 {
        push_str(&mut out, "00");
    } else if index < 1000 {
        push_str(&mut out, "0");
    }
    push_decimal(index, &mut out);
    push_str(&mut out, ".png");
    assert(out@ =~= frame_name(index as nat));
    string_from(out.as_slice())
}

proof fn lemma_decimal_width(n: nat)
    requires
        n < 10000,
    ensures
        n < 10 ==> decimal(n).len() == 1,
        10 <= n < 100 ==> decimal(n).len() == 2,
        100 <= n < 1000 ==> decimal(n).len() == 3,
        1000 <= n ==> decimal(n).len() == 4,
    decreases n,
{
    if n >= 10 {
        lemma_decimal_width(n / 10);
    }
}

proof fn lemma_zeros_value(z: Seq<char>)
    requires
        forall|i: int| 0 <= i < z.len() ==> z[i] == '0',
    ensures
        digits_value(z) == 0,
    decreases z.len(),
{
    if z.len() > 0 {
        lemma_zeros_value(z.drop_last());
    }
}

/// Leading zeros leave the value of a run of digits unchanged.
proof fn lemma_leading_zeros(z: Seq<char>, s: Seq<char>)
    requires
        forall|i: int| 0 <= i < z.len() ==> z[i] == '0',
        all_digits(s),
    ensures
        all_digits(z + s),
        digits_value(z + s) == digits_value(s),
    decreases s.len(),
{
    let t = z + s;
    assert forall|i: int| 0 <= i < t.len() implies crate::text::is_digit(#[trigger] t[i]) by {
        if i < z.len() {
            assert(t[i] == z[i]);
        } else {
            assert(t[i] == s[i - z.len()]);
        }
    }
    if s.len() == 0 {
        assert(t =~= z);
        lemma_zeros_value(z);
    } else {
        let d = s.drop_last();
        assert(all_digits(d)) by {
            assert forall|i: int| 0 <= i < d.len() implies crate::text::is_digit(#[trigger] d[i]) by {
                assert(d[i] == s[i]);
            }
        }
        lemma_leading_zeros(z, d);
        assert(t.drop_last() =~= z + d);
        assert(t.last() == s.last());
    }
}

/// Every frame of a recording up to the ten-thousandth is named `frame-`,
/// exactly four decimal digits whose value is the frame's index, and `.png`:
/// the names the ffmpeg input pattern `frame-%04d.png` matches, in order.
pub proof fn lemma_frame_name_four_digits(index: nat)
    requires
        index < 10000,
    ensures
        frame_name(index).len() == 14,
        frame_name(index).subrange(0, 6) == "frame-"@,
        frame_name(index).subrange(10, 14) == ".png"@,
        all_digits(frame_name(index).subrange(6, 10)),
        digits_value(frame_name(index).subrange(6, 10)) == index,
{
    reveal_strlit("frame-");
    reveal_strlit(".png");
    reveal_strlit("000");
    reveal_strlit("00");
    reveal_strlit("0");
    lemma_decimal_width(index);
    lemma_decimal_digits(index);
    let d = decimal(index);
    let z: Seq<char> = if index < 10 {
        "000"@
    } else if index < 100 {
        "00"@
    } else if index < 1000 {
        "0"@
    } else {
        Seq::empty()
    };
    assert(padded4(index) == z + d);
    lemma_leading_zeros(z, d);
    let f = frame_name(index);
    assert(f =~= "frame-"@ + (z + d) + ".png"@);
    assert(f.subrange(6, 10) =~= z + d);
    assert(f.subrange(0, 6) =~= "frame-"@);
    assert(f.subrange(10, 14) =~= ".png"@);
}

/// The arguments ffmpeg gets to encode the frames matched by `input` into
/// `output`: overwrite, the frame rate, the input pattern, then for MP4 the
/// H.264 codec in 4:2:0 with the index in front, for WebM VP9 in 4:2:0 at
/// constant quality 32, and last the output path.
pub open spec fn video_args(format: ExportFormat, input: Seq<char>, output: Seq<char>) -> Seq<Seq<char>> {
    seq!["-y"@, "-framerate"@, decimal(ANIMATION_FPS as nat), "-i"@, input] + match format {
        ExportFormat::Mp4 => seq!["-c:v"@, "libx264"@, "-pix_fmt"@, "yuv420p"@, "-movflags"@, "+faststart"@],
        ExportFormat::Webm => seq!["-c:v"@, "libvpx-vp9"@, "-pix_fmt"@, "yuv420p"@, "-b:v"@, "0"@, "-crf"@, "32"@],
        _ => Seq::empty(),
    } + seq![output]
}

pub open spec fn arg_views(v: Seq<String>) -> Seq<Seq<char>> {
    v.map_values(|s: String| s@)
}

fn push_arg(args: &mut Vec<String>, a: &str)
    ensures
        arg_views(final(args)@) == arg_views(old(args)@).push(a@),
{
    args.push(String::from_str(a));
    assert(arg_views(args@) =~= arg_views(old(args)@).push(a@));
}

/// The ffmpeg arguments that encode the frames `input` (a numbered file
/// pattern) into the video `output`.
pub fn video_command_args(format: ExportFormat, input: &str, output: &str) -> (r: Vec<String>)
    ensures
        arg_views(r@) == video_args(format, input@, output@),
{
    let mut args: Vec<String> = Vec::new();
    push_arg(&mut args, "-y");
    push_arg(&mut args, "-framerate");
    let mut fps: Vec<char> = Vec::new();
    push_decimal(ANIMATION_FPS, &mut fps);
    let fps_text = string_from(fps.as_slice());
    push_arg(&mut args, fps_text.as_str());
    push_arg(&mut args, "-i");
    push_arg(&mut args, input);
    match format {
        ExportFormat::Mp4 => {
            push_arg(&mut args, "-c:v");
            push_arg(&mut args, "libx264");
            push_arg(&mut args, "-pix_fmt");
            push_arg(&mut args, "yuv420p");
            push_arg(&mut args, "-movflags");
            push_arg(&mut args, "+faststart");
        },
        ExportFormat::Webm => {
            push_arg(&mut args, "-c:v");
            push_arg(&mut args, "libvpx-vp9");
            push_arg(&mut args, "-pix_fmt");
            push_arg(&mut args, "yuv420p");
            push_arg(&mut args, "-b:v");
            push_arg(&mut args, "0");
            push_arg(&mut args, "-crf");
            push_arg(&mut args, "32");
        },
        _ => {},
    }
    push_arg(&mut args, output);
    assert(arg_views(args@) =~= video_args(format, input@, output@));
    args
}

// ---------------------------------------------------------------------------
// Where an export is written
// ---------------------------------------------------------------------------

/// The position of the last `c` in `s`.
pub open spec fn last_pos(s: Seq<char>, c: char) -> Option<int>
    decreases s.len(),
{
    if s.len() == 0 {
        None
    } else if s.last() == c {
        Some(s.len() - 1)
    } else {
        last_pos(s.drop_last(), c)
    }
}

/// The extension of a file name, as `Path::extension` documents it: the
/// part after the last `.`; none without a `.`, for a name whose only `.`
/// starts it, and for `..`.
pub open spec fn name_extension(name: Seq<char>) -> Option<Seq<char>> {
    if name == seq!['.', '.'] {
        None
    } else {
        match last_pos(name, '.') {
            None => None,
            Some(i) => if i == 0 {
                None
            } else {
                Some(name.skip(i + 1))
            },
        }
    }
}

/// What `Path::extension` gives for a path, as text: the extension of its
/// file name, none without a file name.
pub open spec fn path_extension(path: Seq<char>) -> Option<Seq<char>> {
    match path_file_name(path) {
        Some(n) => name_extension(n),
        None => None,
    }
}

/// What `Path::file_name` gives for a path, as text.
pub uninterp spec fn path_file_name(path: Seq<char>) -> Option<Seq<char>>;

/// What `Path::join` gives for a path and a further component, as text.
pub uninterp spec fn path_join(base: Seq<char>, rest: Seq<char>) -> Seq<char>;

/// What `Path::with_extension` gives for a path and an extension, as text.
pub uninterp spec fn path_with_extension(path: Seq<char>, extension: Seq<char>) -> Seq<char>;

/// `Path::extension` of `path`. Its documentation: the part of the file name
/// after its last `.`, none without a file name, without a `.` in it, or for a
/// name that starts with its only `.` (`path_extension`, over the name of
/// `Path::file_name`).
#[verifier::external_body]
fn extension_of(path: &str) -> (r: Option<String>)
    ensures
        match r {
            Some(e) => path_extension(path@) == Some(e@),
            None => path_extension(path@) is None,
        },
{
    std::path::Path::new(path).extension().and_then(|e| e.to_str()).map(|e| e.to_string())
}

/// `Path::file_name` of `path`: its final component, none when the path ends
/// in `..`. The contract names the result.
#[verifier::external_body]
fn file_name_of(path: &str) -> (r: Option<String>)
    ensures
        match r {
            Some(n) => path_file_name(path@) == Some(n@),
            None => path_file_name(path@) is None,
        },
{
    std::path::Path::new(path).file_name().and_then(|n| n.to_str()).map(|n| n.to_string())
}

/// `Path::join`: `rest` appended to `base` after a separator (or `rest` alone
/// when it is absolute). The contract names the result.
#[verifier::external_body]
fn join_path(base: &str, rest: &str) -> (r: String)
    ensures
        r@ == path_join(base@, rest@),
{
    std::path::Path::new(base).join(rest).to_string_lossy().into_owned()
}

/// `Path::with_extension`: the path with its extension replaced by (or given)
/// `extension`. The contract names the result. Its documentation has it
/// panic on an extension that holds a path separator, so such extensions
/// are left out.
#[verifier::external_body]
fn replace_extension(path: &str, extension: &str) -> (r: String)
    requires
        !extension@.contains('/'),
        !extension@.contains('\\'),
    ensures
        r@ == path_with_extension(path@, extension@),
{
    std::path::Path::new(path).with_extension(extension).to_string_lossy().into_owned()
}

/// Whether a path names the home directory (`~`) or a place under it (`~/…`).
pub open spec fn under_home(value: Seq<char>) -> bool {
    value == seq!['~'] || (value.len() >= 2 && value[0] == '~' && value[1] == '/')
}

/// A path with a leading `~` replaced by the home directory `home`, when one
/// is known; other paths are kept.
pub open spec fn expanded_home(value: Seq<char>, home: Option<Seq<char>>) -> Seq<char> {
    match home {
        Some(h) => if under_home(value) {
            path_join(h, if value.len() >= 2 {
                value.skip(2)
            } else {
                Seq::empty()
            })
        } else {
            value
        },
        None => value,
    }
}

/// Expands a leading `~` in `value` to the home directory `home`.
pub fn expand_home(value: &str, home: Option<&str>) -> (r: String)
    ensures
        r@ == expanded_home(
            value@,
            match home {
                Some(h) => Some(h@),
                None => None,
            },
        ),
{
    let v = chars_of(value);
    let tilde = (v.len() == 1 && v[0] == '~') || (v.len() >= 2 && v[0] == '~' && v[1] == '/');
    proof {
        if v@.len() == 1 && v@[0] == '~' {
            assert(v@ =~= seq!['~']);
        }
    }
    match home {
        Some(h) => {
            if tilde {
                let mut rest: Vec<char> = Vec::new();
                let mut k: usize = 2;
                while k < v.len()
                    invariant
                        2 <= k,
                        v.len() >= 2 ==> k <= v.len(),
                        v.len() >= 2 ==> rest@ =~= v@.subrange(2, k as int),
                        v.len() < 2 ==> rest@.len() == 0,
                    decreases v.len() - k,
                {
                    rest.push(v[k]);
                    k = k + 1;
                }
                proof {
                    if v@.len() < 2 {
                        assert(rest@ =~= Seq::<char>::empty());
                    } else {
                        assert(v@.subrange(2, v@.len() as int) =~= v@.skip(2));
                    }
                }
                let r = string_from(rest.as_slice());
                join_path(h, r.as_str())
            } else {
                String::from_str(value)
            }
        },
        None => String::from_str(value),
    }
}

/// Where an export goes, given what was typed: a blank answer keeps the
/// default path. Otherwise `~` is expanded; a path that ends in `/`, has no
/// extension, or is a directory (`is_dir`, asked of the expanded path)
/// receives the default file name (or `termarium-export.png`); a file path
/// keeps an extension that matches the format up to ASCII case and has it
/// replaced otherwise.
pub open spec fn resolved_output_path(
    input: Seq<char>,
    default_path: Seq<char>,
    format: ExportFormat,
    home: Option<Seq<char>>,
    is_dir: bool,
) -> Seq<char> {
    let t = trim(input);
    let path = expanded_home(t, home);
    if t.len() == 0 {
        default_path
    } else if t.last() == '/' || path_extension(path) is None || is_dir {
        path_join(
            path,
            match path_file_name(default_path) {
                Some(n) => n,
                None => "termarium-export.png"@,
            },
        )
    } else if eq_ignore_case(path_extension(path)->0, format_extension(format)) {
        path
    } else {
        path_with_extension(path, format_extension(format))
    }
}

/// The path an export is written to, as `resolved_output_path` says; `home`
/// is the home directory, `is_dir` whether the typed path (with `~`
/// expanded) is an existing directory.
pub fn resolve_output_path(
    input: &str,
    default_path: &str,
    format: ExportFormat,
    home: Option<&str>,
    is_dir: bool,
) -> (r: String)
    ensures
        r@ == resolved_output_path(
            input@,
            default_path@,
            format,
            match home {
                Some(h) => Some(h@),
                None => None,
            },
            is_dir,
        ),
{
    let v = chars_of(input);
    let t = trim_chars(&v);
    if t.len() == 0 {
        return String::from_str(default_path);
    }
    let trimmed = string_from(t.as_slice());
    let path = expand_home(trimmed.as_str(), home);
    let extension = extension_of(path.as_str());
    if t[t.len() - 1] == '/' || extension.is_none() || is_dir {
        let name = match file_name_of(default_path) {
            Some(n) => n,
            None => {
                proof {
                    reveal_strlit("termarium-export.png");
                }
                String::from_str("termarium-export.png")
            },
        };
        return join_path(path.as_str(), name.as_str());
    }
    let wanted = format.extension();
    proof {
        reveal_strlit("png");
        reveal_strlit("svg");
        reveal_strlit("gif");
        reveal_strlit("mp4");
        reveal_strlit("webm");
        assert(!wanted@.contains('/') && !wanted@.contains('\\')) by {
            if wanted@.contains('/') || wanted@.contains('\\') {
                let k = choose|k: int| 0 <= k < wanted@.len() && (wanted@[k] == '/' || wanted@[k] == '\\');
            }
        }
    }
    match extension {
        Some(e) => {
            if eq_ignore_ascii_case(e.as_str(), wanted) {
                path
            } else {
                replace_extension(path.as_str(), wanted)
            }
        },
        None => path,
    }
}

// ---------------------------------------------------------------------------
// Colours and text in SVG output
// ---------------------------------------------------------------------------

/// The colour of a terminal cell, as the renderer stores it.
#[derive(Debug, Clone, Copy, PartialEq, Eq, Structural)]
pub enum CellColor {
    Reset,
    Black,
    Red,
    Green,
    Yellow,
    Blue,
    Magenta,
    Cyan,
    Gray,
    DarkGray,
    LightRed,
    LightGreen,
    LightYellow,
    LightBlue,
    LightMagenta,
    LightCyan,
    White,
    Rgb(u8, u8, u8),
    Indexed(u8),
}

/// Channel value of a step of the 6x6x6 colour cube.
pub open spec fn cube_level(v: int) -> int {
    if v == 0 {
        0
    } else {
        55 + v * 40
    }
}

/// Channel value of a step (0 to 5) of the 6x6x6 colour cube.
pub fn cube_color(value: u8) -> (r: u8)
    requires
        value <= 5,
    ensures
        r == cube_level(value as int),
{
    if value == 0 {
        0
    } else {
        55 + value * 40
    }
}

/// The sixteen basic palette colours.
pub open spec fn basic_color(i: int) -> (u8, u8, u8) {
    if i == 0 {
        (0, 0, 0)
    } else if i == 1 {
        (128, 0, 0)
    } else if i == 2 {
        (0, 128, 0)
    } else if i == 3 {
        (128, 128, 0)
    } else if i == 4 {
        (0, 0, 128)
    } else if i == 5 {
        (128, 0, 128)
    } else if i == 6 {
        (0, 128, 128)
    } else if i == 7 {
        (192, 192, 192)
    } else if i == 8 {
        (128, 128, 128)
    } else if i == 9 {
        (255, 0, 0)
    } else if i == 10 {
        (0, 255, 0)
    } else if i == 11 {
        (255, 255, 0)
    } else if i == 12 {
        (0, 0, 255)
    } else if i == 13 {
        (255, 0, 255)
    } else if i == 14 {
        (0, 255, 255)
    } else {
        (255, 255, 255)
    }
}

/// RGB of an entry of the 256-colour palette: 16 basic colours, a 6x6x6
/// cube, then 24 greys from 8 in steps of 10.
pub open spec fn indexed_rgb(index: int) -> (u8, u8, u8) {
    if index < 16 {
        basic_color(index)
    } else if index <= 231 {
        let v = index - 16;
        (cube_level(v / 36) as u8, cube_level((v % 36) / 6) as u8, cube_level(v % 6) as u8)
    } else {
        let g = (8 + (index - 232) * 10) as u8;
        (g, g, g)
    }
}

/// RGB of an entry of the 256-colour palette.
pub fn indexed_color(index: u8) -> (r: (u8, u8, u8))
    ensures
        r == indexed_rgb(index as int),
{
    if index < 16 {
        let basic: Vec<(u8, u8, u8)> = vec![
            (0, 0, 0),
            (128, 0, 0),
            (0, 128, 0),
            (128, 128, 0),
            (0, 0, 128),
            (128, 0, 128),
            (0, 128, 128),
            (192, 192, 192),
            (128, 128, 128),
            (255, 0, 0),
            (0, 255, 0),
            (255, 255, 0),
            (0, 0, 255),
            (255, 0, 255),
            (0, 255, 255),
            (255, 255, 255),
        ];
        return basic[index as usize];
    }
    if index <= 231 {
        let value = index - 16;
        let r = value / 36;
        let g = (value % 36) / 6;
        let b = value % 6;
        return (cube_color(r), cube_color(g), cube_color(b));
    }
    let gray = 8 + (index - 232) * 10;
    (gray, gray, gray)
}

/// RGB that a cell colour is drawn with.
pub open spec fn cell_rgb(c: CellColor) -> (u8, u8, u8) {
    match c {
        CellColor::Black | CellColor::Reset => (0, 0, 0),
        CellColor::Red => (205, 49, 49),
        CellColor::Green => (13, 188, 121),
        CellColor::Yellow => (229, 229, 16),
        CellColor::Blue => (36, 114, 200),
        CellColor::Magenta => (188, 63, 188),
        CellColor::Cyan => (17, 168, 205),
        CellColor::Gray | CellColor::White => (229, 229, 229),
        CellColor::DarkGray => (102, 102, 102),
        CellColor::LightRed => (241, 76, 76),
        CellColor::LightGreen => (35, 209, 139),
        CellColor::LightYellow => (245, 245, 67),
        CellColor::LightBlue => (59, 142, 234),
        CellColor::LightMagenta => (214, 112, 214),
        CellColor::LightCyan => (41, 184, 219),
        CellColor::Rgb(r, g, b) => (r, g, b),
        CellColor::Indexed(i) => indexed_rgb(i as int),
    }
}

/// RGB that `color` is drawn with.
pub fn color_rgb(color: CellColor) -> (r: (u8, u8, u8))
    ensures
        r == cell_rgb(color),
{
    match color {
        CellColor::Black | CellColor::Reset => (0, 0, 0),
        CellColor::Red => (205, 49, 49),
        CellColor::Green => (13, 188, 121),
        CellColor::Yellow => (229, 229, 16),
        CellColor::Blue => (36, 114, 200),
        CellColor::Magenta => (188, 63, 188),
        CellColor::Cyan => (17, 168, 205),
        CellColor::Gray | CellColor::White => (229, 229, 229),
        CellColor::DarkGray => (102, 102, 102),
        CellColor::LightRed => (241, 76, 76),
        CellColor::LightGreen => (35, 209, 139),
        CellColor::LightYellow => (245, 245, 67),
        CellColor::LightBlue => (59, 142, 234),
        CellColor::LightMagenta => (214, 112, 214),
        CellColor::LightCyan => (41, 184, 219),
        CellColor::Rgb(r, g, b) => (r, g, b),
        CellColor::Indexed(index) => indexed_color(index),
    }
}

/// Lowercase hexadecimal digit of `d`.
pub open spec fn hex_digit(d: int) -> char {
    if d < 10 {
        ((48 + d) as u32) as char
    } else {
        ((87 + d) as u32) as char
    }
}

/// Two lowercase hexadecimal digits of a byte.
pub open spec fn hex_byte(b: u8) -> Seq<char> {
    seq![hex_digit(b as int / 16), hex_digit(b as int % 16)]
}

/// The CSS form `#rrggbb` of a cell colour.
pub open spec fn css_of(c: CellColor) -> Seq<char> {
    let (r, g, b) = cell_rgb(c);
    seq!['#'] + hex_byte(r) + hex_byte(g) + hex_byte(b)
}

fn hex_char(d: u8) -> (c: char)
    requires
        d < 16,
    ensures
        c == hex_digit(d as int),
{
    if d < 10 {
        (48 + d) as char
    } else {
        (87 + d) as char
    }
}

/// The CSS form `#rrggbb` of `color`.
pub fn color_css(color: CellColor) -> (r: String)
    ensures
        r@ == css_of(color),
{
    let (r, g, b) = color_rgb(color);
    let mut out: Vec<char> = Vec::new();
    out.push('#');
    out.push(hex_char(r / 16));
    out.push(hex_char(r % 16));
    out.push(hex_char(g / 16));
    out.push(hex_char(g % 16));
    out.push(hex_char(b / 16));
    out.push(hex_char(b % 16));
    assert(out@ =~= css_of(color));
    string_from(out.as_slice())
}

/// The XML escape of one character: `&`, `<`, `>` and `"` become entities.
pub open spec fn xml_escape_char(c: char) -> Seq<char> {
    if c == '&' {
        "&amp;"@
    } else if c == '<' {
        "&lt;"@
    } else if c == '>' {
        "&gt;"@
    } else if c == '"' {
        "&quot;"@
    } else {
        seq![c]
    }
}

/// `s` with every `&`, `<`, `>` and `"` replaced by its entity.
pub open spec fn xml_escaped(s: Seq<char>) -> Seq<char>
    decreases s.len(),
{
    if s.len() == 0 {
        Seq::empty()
    } else {
        xml_escaped(s.drop_last()) + xml_escape_char(s.last())
    }
}

/// `value` escaped for use as XML text.
pub fn escape_xml(value: &str) -> (r: String)
    ensures
        r@ == xml_escaped(value@),
{
    let v = chars_of(value);
    let mut out: Vec<char> = Vec::new();
    let mut i: usize = 0;
    while i < v.len()
        invariant
            i <= v.len(),
            out@ == xml_escaped(v@.take(i as int)),
        decreases v.len() - i,
    {
        let c = v[i];
        assert(v@.take(i + 1).drop_last() =~= v@.take(i as int));
        if c == '&' {
            push_str(&mut out, "&amp;");
        } else if c == '<' {
            push_str(&mut out, "&lt;");
        } else if c == '>' {
            push_str(&mut out, "&gt;");
        } else if c == '"' {
            push_str(&mut out, "&quot;");
        } else {
            out.push(c);
            assert(out@ =~= xml_escaped(v@.take(i as int)) + seq![c]);
        }
        i = i + 1;
    }
    assert(v@.take(v.len() as int) =~= v@);
    string_from(out.as_slice())
}

/// Escaped text holds no `<`, `>` or `"`: it cannot end the element or an
/// attribute it is written into.
pub proof fn lemma_escaped_has_no_markup(s: Seq<char>)
    ensures
        forall|k: int|
            0 <= k < xml_escaped(s).len() ==> #[trigger] xml_escaped(s)[k] != '<' && xml_escaped(
                s,
            )[k] != '>' && xml_escaped(s)[k] != '"',
    decreases s.len(),
{
    reveal_strlit("&amp;");
    reveal_strlit("&lt;");
    reveal_strlit("&gt;");
    reveal_strlit("&quot;");
    if s.len() > 0 {
        lemma_escaped_has_no_markup(s.drop_last());
        let prev = xml_escaped(s.drop_last());
        let tail = xml_escape_char(s.last());
        assert forall|k: int| 0 <= k < xml_escaped(s).len() implies #[trigger] xml_escaped(s)[k]
            != '<' && xml_escaped(s)[k] != '>' && xml_escaped(s)[k] != '"' by {
            if k < prev.len() {
                assert(xml_escaped(s)[k] == prev[k]);
            } else {
                assert(xml_escaped(s)[k] == tail[k - prev.len()]);
            }
        }
    }
}

// ---------------------------------------------------------------------------
// A running animation export
// ---------------------------------------------------------------------------

#[verifier::external_type_specification]
#[verifier::external_body]
#[verifier::reject_recursive_types(T)]
pub struct ExReceiver<T>(Receiver<T>);

/// What a look at the export worker's channel finds: the worker's report
/// (the file written, or why not), nothing yet, or the worker gone without
/// a report.
#[derive(Debug)]
pub enum JobPoll {
    Ready(Result<String, String>),
    Pending,
    Stopped,
}

/// `Receiver::try_recv` without waiting. What it finds depends on how far
/// the worker has got, so nothing is stated of it.
#[verifier::external_body]
fn poll_receiver(receiver: &Receiver<Result<String, String>>) -> (r: JobPoll) {
    match receiver.try_recv() {
        Ok(report) => JobPoll::Ready(report),
        Err(TryRecvError::Empty) => JobPoll::Pending,
        Err(TryRecvError::Disconnected) => JobPoll::Stopped,
    }
}

/// The message of an export whose worker stopped without a report.
pub open spec fn worker_stopped_message() -> Seq<char> {
    "export worker stopped"@
}

/// What a look at the export worker gives: its report when it has sent one,
/// nothing while it works, an error when it stopped without a report.
pub fn job_result(poll: JobPoll) -> (r: Option<Result<String, String>>)
    ensures
        match poll {
            JobPoll::Ready(Ok(path)) => r matches Some(Ok(p)) && p@ == path@,
            JobPoll::Ready(Err(e)) => r matches Some(Err(m)) && m@ == e@,
            JobPoll::Pending => r is None,
            JobPoll::Stopped => r matches Some(Err(m)) && m@ == worker_stopped_message(),
        },
{
    match poll {
        JobPoll::Ready(report) => Some(report),
        JobPoll::Pending => None,
        JobPoll::Stopped => {
            let m = "export worker stopped";
            proof {
                reveal_strlit("export worker stopped");
            }
            Some(Err(m.to_string()))
        },
    }
}

/// An animation export running in the background: its format, how many
/// frames it writes, and the channel on which the worker reports.
pub struct ExportJob {
    pub format: ExportFormat,
    pub frame_count: usize,
    pub receiver: Receiver<Result<String, String>>,
}

impl ExportJob {
    /// A job for a worker that writes `frame_count` frames in `format` and
    /// reports on `receiver`.
    pub fn new(format: ExportFormat, frame_count: usize, receiver: Receiver<Result<String, String>>) -> (r: Self)
        ensures
            r.format == format,
            r.frame_count == frame_count,
    {
        ExportJob { format, frame_count, receiver }
    }

    /// The worker's report once it is in: the file written or why not;
    /// nothing while the worker runs; an error when it stopped without a
    /// report (see `job_result`).
    pub fn try_finish(&self) -> (r: Option<Result<String, String>>) {
        job_result(poll_receiver(&self.receiver))
    }
}

} // verus!
