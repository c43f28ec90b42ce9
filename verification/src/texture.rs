//! The resource pool: it owns all drawable resources, issues opaque handles,
//! plans synthesized scrolling-text bitmaps, and turns a handle plus a
//! destination rectangle into explicit copy commands, splitting an oversized
//! marquee texture into up to two slices.
//!
//! The actual pixels live with the host behind the `TextureBackend` port: the
//! pool decides sizes, truncation, padding and slice geometry, and keeps the
//! per-handle bookkeeping; the backend loads, rasterizes and stores bitmaps,
//! mirroring the pool's handle order.

use vstd::prelude::*;
use vstd::string::StringExecFns;
use vstd::arithmetic::div_mod::{
    lemma_div_is_ordered, lemma_div_by_multiple, lemma_div_pos_is_pos, lemma_mod_bound,
};
use vstd::arithmetic::mul::{lemma_mul_inequality, lemma_mul_is_commutative, lemma_mul_nonnegative};
use crate::geometry::{PixelRect, UNIT};
use crate::errors::{TextureCreationError, RenderError};

verus! {

/// An RGBA color.
#[derive(Copy, Clone, PartialEq, Eq, Structural, Debug)]
pub struct Color {
    pub r: u8,
    pub g: u8,
    pub b: u8,
    pub a: u8,
}

impl Color {
    pub fn rgb(r: u8, g: u8, b: u8) -> (c: Self)
        ensures
            c == (Color { r, g, b, a: 255 }),
    {
        Self { r, g, b, a: 255 }
    }

    pub fn rgba(r: u8, g: u8, b: u8, a: u8) -> (c: Self)
        ensures
            c == (Color { r, g, b, a }),
    {
        Self { r, g, b, a }
    }
}

/// Font style flags; combinable.
#[derive(Copy, Clone, PartialEq, Eq, Structural, Debug)]
pub struct FontStyle {
    pub bold: bool,
    pub italic: bool,
}

/// Font hinting mode.
#[derive(Copy, Clone, PartialEq, Eq, Structural, Debug)]
pub enum FontHinting {
    Normal,
    Light,
    Mono,
    NoHinting,
}

/// A font to rasterize text with.
#[derive(Clone)]
pub struct FontInfo {
    pub path: String,
    pub style: FontStyle,
    pub hinting: FontHinting,
}

/// A pure map from a time seed (in milliseconds, already scaled by the
/// destination/texture width ratio) and a fits-without-scrolling flag to a
/// scroll fraction in [0, 1] and a should-wrap flag.
#[derive(Copy, Clone, PartialEq, Eq, Structural, Debug)]
pub enum ScrollBehavior {
    /// One full leftward loop every period: the fraction falls from 1 toward
    /// 0 over each period, and the texture wraps around.
    LoopEvery { period_millis: u32 },
    /// No scrolling: fraction 0, no wrap.
    Stationary,
}

impl ScrollBehavior {
    /// A looping behavior needs a nonzero period.
    pub open spec fn wf(self) -> bool {
        match self {
            ScrollBehavior::LoopEvery { period_millis } => 1 <= period_millis,
            ScrollBehavior::Stationary => true,
        }
    }

    /// The scroll fraction, in fixed point over `UNIT`.
    pub open spec fn spec_fraction(self, time_seed_millis: int, fits: bool) -> int {
        match self {
            ScrollBehavior::LoopEvery { period_millis } => UNIT - (time_seed_millis
                % (period_millis as int)) * UNIT / (period_millis as int),
            ScrollBehavior::Stationary => 0,
        }
    }

    /// Whether the texture should wrap around while scrolling.
    pub open spec fn spec_wrap(self, fits: bool) -> bool {
        match self {
            ScrollBehavior::LoopEvery { .. } => true,
            ScrollBehavior::Stationary => false,
        }
    }

    /// Evaluate the behavior; the fraction always lies in [0, 1].
    pub fn eval(&self, time_seed_millis: u64, fits: bool) -> (r: (u32, bool))
        requires
            self.wf(),
        ensures
            r.0 == self.spec_fraction(time_seed_millis as int, fits),
            r.1 == self.spec_wrap(fits),
            r.0 <= UNIT,
    {
        match self {
            ScrollBehavior::LoopEvery { period_millis } => {
                let p = *period_millis;
                let m: u64 = time_seed_millis % (p as u64);
                proof {
                    lemma_mod_bound(time_seed_millis as int, p as int);
                    lemma_mul_inequality(m as int, p as int, UNIT as int);
                    lemma_div_is_ordered((m as int) * (UNIT as int), (p as int) * (UNIT as int), p as int);
                    lemma_mul_is_commutative(p as int, UNIT as int);
                    lemma_div_by_multiple(UNIT as int, p as int);
                    lemma_div_pos_is_pos((m as int) * (UNIT as int), p as int);
                }
                let q: u32 = ((m * (UNIT as u64)) / (p as u64)) as u32;
                (UNIT - q, true)
            },
            ScrollBehavior::Stationary => (0, false),
        }
    }
}

/// What a synthesized text texture should display, consumed at synthesis
/// time.
#[derive(Clone)]
pub struct TextDisplayInfo {
    pub text: String,
    pub color: Color,
    pub scroll: ScrollBehavior,
    pub max_pixel_width: u32,
    pub pixel_height: u32,
}

impl FontInfo {
    /// A duplicate whose fields carry the same values.
    pub fn clone_info(&self) -> (r: Self)
        ensures
            r.path@ == self.path@,
            r.style == self.style,
            r.hinting == self.hinting,
    {
        FontInfo { path: self.path.clone(), style: self.style, hinting: self.hinting }
    }
}

/// How to (re)produce a drawable resource.
#[derive(Clone)]
pub enum TextureCreationInfo {
    Path(String),
    Url(String),
    Text(FontInfo, TextDisplayInfo),
}

impl TextDisplayInfo {
    /// A duplicate whose fields carry the same values.
    pub fn clone_info(&self) -> (r: Self)
        ensures
            r.text@ == self.text@,
            r.color == self.color,
            r.scroll == self.scroll,
            r.max_pixel_width == self.max_pixel_width,
            r.pixel_height == self.pixel_height,
    {
        TextDisplayInfo {
            text: self.text.clone(),
            color: self.color,
            scroll: self.scroll,
            max_pixel_width: self.max_pixel_width,
            pixel_height: self.pixel_height,
        }
    }
}

/// Two descriptions name the same resource: same variant, same values.
pub open spec fn info_equiv(a: TextureCreationInfo, b: TextureCreationInfo) -> bool {
    match (a, b) {
        (TextureCreationInfo::Path(p), TextureCreationInfo::Path(q)) => p@ == q@,
        (TextureCreationInfo::Url(p), TextureCreationInfo::Url(q)) => p@ == q@,
        (TextureCreationInfo::Text(f1, t1), TextureCreationInfo::Text(f2, t2)) => {
            &&& f1.path@ == f2.path@
            &&& f1.style == f2.style
            &&& f1.hinting == f2.hinting
            &&& t1.text@ == t2.text@
            &&& t1.color == t2.color
            &&& t1.scroll == t2.scroll
            &&& t1.max_pixel_width == t2.max_pixel_width
            &&& t1.pixel_height == t2.pixel_height
        },
        _ => false,
    }
}

impl TextureCreationInfo {
    /// A duplicate that names the same resource.
    pub fn clone_info(&self) -> (r: Self)
        ensures
            info_equiv(r, *self),
    {
        match self {
            TextureCreationInfo::Path(p) => TextureCreationInfo::Path(p.clone()),
            TextureCreationInfo::Url(u) => TextureCreationInfo::Url(u.clone()),
            TextureCreationInfo::Text(f, t) => TextureCreationInfo::Text(
                f.clone_info(),
                t.clone_info(),
            ),
        }
    }

    pub open spec fn wf(self) -> bool {
        match self {
            TextureCreationInfo::Text(_, tdi) => tdi.scroll.wf(),
            _ => true,
        }
    }

    /// Check at run time what `wf` says: descriptions reach the engine from
    /// unverified updaters and must be validated before use.
    pub fn check_wf(&self) -> (b: bool)
        ensures
            b == self.wf(),
    {
        match self {
            TextureCreationInfo::Text(_, tdi) => match tdi.scroll {
                ScrollBehavior::LoopEvery { period_millis } => period_millis >= 1,
                ScrollBehavior::Stationary => true,
            },
            _ => true,
        }
    }
}

/// An opaque id resolving to a pool-owned resource; cheap to copy, never
/// resolving to the resource except through the pool.
#[derive(Copy, Clone, Hash, PartialEq, Eq, Structural, Debug)]
pub struct TextureHandle {
    handle: u16,
}

impl TextureHandle {
    pub closed spec fn spec_index(self) -> u16 {
        self.handle
    }

    pub fn index(&self) -> (r: u16)
        ensures
            r == self.spec_index(),
    {
        self.handle
    }
}

/// A pixel width and height.
#[derive(Copy, Clone, PartialEq, Eq, Structural, Debug)]
pub struct PixelSize {
    pub w: u32,
    pub h: u32,
}

impl PixelSize {
    pub fn new(w: u32, h: u32) -> (r: Self)
        ensures
            r == (PixelSize { w, h }),
    {
        Self { w, h }
    }
}

/// Cached facts about a side-scrolling text texture, kept per handle, present
/// only for handles created from text, and replaced or removed whenever the
/// handle's backing resource is rebuilt.
#[derive(Clone)]
pub struct SideScrollingTextMetadata {
    pub size: PixelSize,
    pub scroll: ScrollBehavior,
    pub text: String,
}

/// The pool's record of one resource: its pixel size, and scroll metadata if
/// it was synthesized from text.
#[derive(Clone)]
pub struct TextureEntry {
    pub size: PixelSize,
    pub text_metadata: Option<SideScrollingTextMetadata>,
}

/// The host side of the pool: it loads, rasterizes and stores the actual
/// bitmaps, keeping one staged bitmap between a `stage_*` call and the
/// `commit_*` call that files it under the pool's handle order.
pub trait TextureBackend {
    /// Load a resource from a file path; stage it and report its pixel size,
    /// or fail with a reason.
    fn stage_from_path(&mut self, path: &str) -> Result<PixelSize, String>;

    /// Fetch a resource over the network and decode it; stage it and report
    /// its pixel size, or fail with a reason.
    fn stage_from_url(&mut self, url: &str) -> Result<PixelSize, String>;

    /// Measure what `text` would rasterize to with `font` at `point_size`.
    fn measure_text(&mut self, font: &FontInfo, point_size: u16, text: &str) -> Result<
        PixelSize,
        String,
    >;

    /// Rasterize `text` and pad or crop it to exactly `padded_size`; stage
    /// the result.
    fn stage_text(
        &mut self,
        font: &FontInfo,
        point_size: u16,
        text: &str,
        color: Color,
        padded_size: PixelSize,
    ) -> Result<(), String>;

    /// File the staged bitmap as the newest resource.
    fn commit_append(&mut self);

    /// Replace the resource at `index` with the staged bitmap, as a single
    /// swap.
    fn commit_replace(&mut self, index: usize);
}

/// The large reference point size text is first measured at.
pub const INITIAL_POINT_SIZE: u16 = 100;

/// The glyph sequence substituted for blank input text, which cannot be
/// rasterized.
pub open spec fn spec_blank_text() -> Seq<char> {
    "<BLANK TEXT>"@
}

/// The text actually rasterized for an input text.
pub open spec fn effective_text(text: Seq<char>) -> Seq<char> {
    if text.len() == 0 {
        spec_blank_text()
    } else {
        text
    }
}

/// The integer point size that scales the reference measurement to the
/// requested pixel height exactly, floored; saturated to the type's range,
/// and to its maximum when the reference measurement had no height.
pub open spec fn spec_scaled_point_size(pixel_height: u32, reference_height: u32) -> int {
    if reference_height == 0 {
        u16::MAX as int
    } else if INITIAL_POINT_SIZE * pixel_height / (reference_height as int) > u16::MAX {
        u16::MAX as int
    } else {
        INITIAL_POINT_SIZE * pixel_height / (reference_height as int)
    }
}

/// Scale the reference point size so that text measured `reference_height`
/// pixels tall at the reference point size hits `pixel_height` instead.
pub fn scaled_point_size(pixel_height: u32, reference_height: u32) -> (r: u16)
    ensures
        r == spec_scaled_point_size(pixel_height, reference_height),
{
    if reference_height == 0 {
        u16::MAX
    } else {
        proof {
            assert((INITIAL_POINT_SIZE as int) * (pixel_height as int) <= (u16::MAX as int) * (
            u32::MAX as int)) by (nonlinear_arith)
                requires
                    INITIAL_POINT_SIZE <= u16::MAX,
                    pixel_height <= u32::MAX,
            ;
        }
        let v: u64 = (INITIAL_POINT_SIZE as u64) * (pixel_height as u64) / (reference_height
            as u64);
        if v > (u16::MAX as u64) {
            u16::MAX
        } else {
            v as u16
        }
    }
}

/// How many characters of an overflowing text to keep: the character count
/// scaled down by the measured overflow ratio (an estimate from character
/// count, not pixel-exact).
pub open spec fn spec_chars_to_keep(char_len: int, max_width: u32, measured_width: u32) -> int {
    char_len * max_width / (measured_width as int)
}

pub fn chars_to_keep(char_len: usize, max_width: u32, measured_width: u32) -> (r: usize)
    requires
        max_width < measured_width,
    ensures
        r == spec_chars_to_keep(char_len as int, max_width, measured_width),
        r <= char_len,
{
    proof {
        assert((char_len as int) * (max_width as int) <= (usize::MAX as int) * (u32::MAX as int))
            by (nonlinear_arith)
            requires
                char_len <= usize::MAX,
                max_width <= u32::MAX,
        ;
        lemma_div_pos_is_pos((char_len as int) * (max_width as int), measured_width as int);
        lemma_mul_inequality(max_width as int, measured_width as int, char_len as int);
        lemma_mul_is_commutative(max_width as int, char_len as int);
        lemma_mul_is_commutative(measured_width as int, char_len as int);
        lemma_div_is_ordered(
            (char_len as int) * (max_width as int),
            (char_len as int) * (measured_width as int),
            measured_width as int,
        );
        lemma_div_by_multiple(char_len as int, measured_width as int);
    }
    ((char_len as u128) * (max_width as u128) / (measured_width as u128)) as usize
}

/// The dimensions a rasterized text surface is padded or cropped to: padded
/// on the right when narrower than the requested maximum width, padded or
/// cropped vertically to the requested height exactly.
pub open spec fn spec_padded_size(measured: PixelSize, max_pixel_width: u32, pixel_height: u32)
    -> PixelSize {
    PixelSize {
        w: if measured.w < max_pixel_width {
            max_pixel_width
        } else {
            measured.w
        },
        h: pixel_height,
    }
}

pub fn padded_size(measured: PixelSize, max_pixel_width: u32, pixel_height: u32) -> (r: PixelSize)
    ensures
        r == spec_padded_size(measured, max_pixel_width, pixel_height),
        r.w >= max_pixel_width,
        r.w >= measured.w,
        r.h == pixel_height,
{
    let surface_is_too_short = measured.w < max_pixel_width;
    let text_height_doesnt_match = measured.h != pixel_height;
    if surface_is_too_short && text_height_doesnt_match {
        PixelSize { w: max_pixel_width, h: pixel_height }
    } else if surface_is_too_short {
        PixelSize { w: max_pixel_width, h: measured.h }
    } else if text_height_doesnt_match {
        PixelSize { w: measured.w, h: pixel_height }
    } else {
        measured
    }
}

/// LAW: text synthesis hits the requested pixel height exactly and never
/// falls short of the requested maximum width, whatever was measured for
/// whatever input text.
pub proof fn lemma_text_synthesis_dimensions(
    measured: PixelSize,
    max_pixel_width: u32,
    pixel_height: u32,
)
    ensures
        spec_padded_size(measured, max_pixel_width, pixel_height).h == pixel_height,
        spec_padded_size(measured, max_pixel_width, pixel_height).w >= max_pixel_width,
{
}

/// An entry is internally consistent: cached metadata agrees with the entry's
/// size and carries a usable scroll behavior.
pub open spec fn entry_wf(e: TextureEntry) -> bool {
    match e.text_metadata {
        None => true,
        Some(m) => m.size == e.size && m.scroll.wf(),
    }
}

/// The text cached for a text description, against a pool whose maximum
/// texture width is `max_texture_w`: the whole effective text when it was not
/// truncated, else the character-count-estimate prefix for the over-wide
/// width the effective text measured.
pub open spec fn rendered_text_matches(
    rendered: Seq<char>,
    text: Seq<char>,
    max_texture_w: u32,
) -> bool {
    ||| rendered == effective_text(text)
    ||| (exists|measured_w: u32|
        #![trigger spec_chars_to_keep(effective_text(text).len() as int, max_texture_w, measured_w)]
        measured_w > max_texture_w && rendered == effective_text(text).subrange(
            0,
            spec_chars_to_keep(effective_text(text).len() as int, max_texture_w, measured_w),
        ))
}

/// An entry reflects a creation description in a pool whose maximum texture
/// width is `max_texture_w`: scroll metadata exactly for text descriptions,
/// caching that text's scroll behavior, size, and the rendered text (the
/// effective text, or its truncation prefix); and the synthesis size
/// invariants for text.
pub open spec fn entry_matches(
    e: TextureEntry,
    info: TextureCreationInfo,
    max_texture_w: u32,
) -> bool {
    match info {
        TextureCreationInfo::Path(_) => e.text_metadata is None,
        TextureCreationInfo::Url(_) => e.text_metadata is None,
        TextureCreationInfo::Text(_, tdi) => match e.text_metadata {
            Some(m) => {
                &&& m.size == e.size
                &&& m.scroll == tdi.scroll
                &&& m.text@.is_prefix_of(effective_text(tdi.text@))
                &&& rendered_text_matches(m.text@, tdi.text@, max_texture_w)
                &&& e.size.h == tdi.pixel_height
                &&& e.size.w >= tdi.max_pixel_width
            },
            None => false,
        },
    }
}

/// The pool: per-handle bookkeeping for every resource the backend stores.
pub struct TexturePool {
    textures: Vec<TextureEntry>,
    max_texture_size: PixelSize,
}

impl TexturePool {
    pub closed spec fn entries(self) -> Seq<TextureEntry> {
        self.textures@
    }

    pub closed spec fn spec_max_texture_size(self) -> PixelSize {
        self.max_texture_size
    }

    pub open spec fn wf(self) -> bool {
        &&& self.entries().len() <= 0x10000
        &&& forall|i: int| 0 <= i < self.entries().len() ==> entry_wf(#[trigger] self.entries()[i])
    }

    pub fn new(max_texture_size: PixelSize) -> (r: Self)
        ensures
            r.entries().len() == 0,
            r.spec_max_texture_size() == max_texture_size,
            r.wf(),
    {
        Self { textures: Vec::new(), max_texture_size }
    }

    pub fn num_textures(&self) -> (r: usize)
        ensures
            r == self.entries().len(),
    {
        self.textures.len()
    }

    pub fn get_entry(&self, handle: &TextureHandle) -> (r: &TextureEntry)
        requires
            handle.spec_index() < self.entries().len(),
        ensures
            *r == self.entries()[handle.spec_index() as int],
    {
        &self.textures[handle.index() as usize]
    }

    /// Plan and stage a text texture: measure at the reference size, floor to
    /// the point size that hits the requested height, truncate by the
    /// character-count estimate when wider than the pool's maximum texture
    /// width, then pad/crop to the final dimensions and hand the result to
    /// the backend. Returns the final size and the rendered text.
    fn stage_text_texture<B: TextureBackend>(
        &self,
        backend: &mut B,
        font: &FontInfo,
        tdi: &TextDisplayInfo,
    ) -> (r: Result<(PixelSize, String), TextureCreationError>)
        ensures
            r matches Ok((size, rendered)) ==> {
                &&& size.h == tdi.pixel_height
                &&& size.w >= tdi.max_pixel_width
                &&& rendered@.is_prefix_of(effective_text(tdi.text@))
                &&& rendered_text_matches(rendered@, tdi.text@, self.spec_max_texture_size().w)
            },
            r matches Err(e) ==> (e is Backend || e is CutTextStillTooWide),
            r matches Err(TextureCreationError::CutTextStillTooWide { cut_width, max_width })
                ==> (max_width == self.spec_max_texture_size().w && cut_width > max_width),
    {
        let text: &str = if tdi.text.as_str().is_empty() {
            "<BLANK TEXT>"
        } else {
            tdi.text.as_str()
        };
        proof {
            assert(text@ == effective_text(tdi.text@));
        }
        let initial = match backend.measure_text(font, INITIAL_POINT_SIZE, text) {
            Ok(size) => size,
            Err(reason) => {
                return Err(TextureCreationError::Backend(reason));
            },
        };
        let point_size = scaled_point_size(tdi.pixel_height, initial.h);
        let measured = match backend.measure_text(font, point_size, text) {
            Ok(size) => size,
            Err(reason) => {
                return Err(TextureCreationError::Backend(reason));
            },
        };
        if measured.w > self.max_texture_size.w {
            let char_len = text.unicode_len();
            let amount_chars_to_keep = chars_to_keep(char_len, self.max_texture_size.w, measured.w);
            let cut_text: &str = text.substring_char(0, amount_chars_to_keep);
            let cut_measured = match backend.measure_text(font, point_size, cut_text) {
                Ok(size) => size,
                Err(reason) => {
                    return Err(TextureCreationError::Backend(reason));
                },
            };
            if cut_measured.w > self.max_texture_size.w {
                return Err(
                    TextureCreationError::CutTextStillTooWide {
                        cut_width: cut_measured.w,
                        max_width: self.max_texture_size.w,
                    },
                );
            }
            let size = padded_size(cut_measured, tdi.max_pixel_width, tdi.pixel_height);
            match backend.stage_text(font, point_size, cut_text, tdi.color, size) {
                Ok(()) => {},
                Err(reason) => {
                    return Err(TextureCreationError::Backend(reason));
                },
            }
            proof {
                assert(cut_text@.is_prefix_of(text@));
                assert(cut_text@ == effective_text(tdi.text@).subrange(
                    0,
                    spec_chars_to_keep(
                        effective_text(tdi.text@).len() as int,
                        self.spec_max_texture_size().w,
                        measured.w,
                    ),
                ));
                assert(rendered_text_matches(
                    cut_text@,
                    tdi.text@,
                    self.spec_max_texture_size().w,
                ));
            }
            Ok((size, String::from_str(cut_text)))
        } else {
            let size = padded_size(measured, tdi.max_pixel_width, tdi.pixel_height);
            match backend.stage_text(font, point_size, text, tdi.color, size) {
                Ok(()) => {},
                Err(reason) => {
                    return Err(TextureCreationError::Backend(reason));
                },
            }
            proof {
                assert(text@.is_prefix_of(text@));
            }
            Ok((size, String::from_str(text)))
        }
    }

    /// Stage the resource a description names, whichever variant it is, and
    /// report its final size, plus the rendered text for text descriptions.
    fn stage_raw_texture<B: TextureBackend>(
        &self,
        backend: &mut B,
        creation_info: &TextureCreationInfo,
    ) -> (r: Result<(PixelSize, Option<String>), TextureCreationError>)
        ensures
            r matches Ok((size, rendered)) ==> {
                &&& (rendered is Some <==> creation_info is Text)
                &&& (creation_info matches TextureCreationInfo::Text(_, tdi) ==> {
                    &&& size.h == tdi.pixel_height
                    &&& size.w >= tdi.max_pixel_width
                    &&& rendered matches Some(t) && t@.is_prefix_of(effective_text(tdi.text@))
                        && rendered_text_matches(t@, tdi.text@, self.spec_max_texture_size().w)
                })
            },
            r matches Err(e) ==> (e is Backend || (creation_info is Text
                && e is CutTextStillTooWide)),
            r matches Err(TextureCreationError::CutTextStillTooWide { cut_width, max_width })
                ==> (max_width == self.spec_max_texture_size().w && cut_width > max_width),
    {
        match creation_info {
            TextureCreationInfo::Path(path) => match backend.stage_from_path(path.as_str()) {
                Ok(size) => Ok((size, None)),
                Err(reason) => Err(TextureCreationError::Backend(reason)),
            },
            TextureCreationInfo::Url(url) => match backend.stage_from_url(url.as_str()) {
                Ok(size) => Ok((size, None)),
                Err(reason) => Err(TextureCreationError::Backend(reason)),
            },
            TextureCreationInfo::Text(font, tdi) => match self.stage_text_texture(
                backend,
                font,
                tdi,
            ) {
                Ok((size, rendered)) => Ok((size, Some(rendered))),
                Err(e) => Err(e),
            },
        }
    }

    /// The pool record for a freshly staged resource: text descriptions get
    /// fresh scroll metadata; any other description carries none, so stale
    /// metadata disappears with the record it replaces.
    fn possibly_update_text_metadata(
        creation_info: &TextureCreationInfo,
        size: PixelSize,
        rendered_text: Option<String>,
        max_texture_width: u32,
    ) -> (e: TextureEntry)
        requires
            creation_info.wf(),
            rendered_text is Some <==> creation_info is Text,
            creation_info matches TextureCreationInfo::Text(_, tdi) ==> {
                &&& size.h == tdi.pixel_height
                &&& size.w >= tdi.max_pixel_width
                &&& (rendered_text matches Some(t) && t@.is_prefix_of(effective_text(tdi.text@))
                    && rendered_text_matches(t@, tdi.text@, max_texture_width))
            },
        ensures
            entry_matches(e, *creation_info, max_texture_width),
            entry_wf(e),
            e.size == size,
    {
        match creation_info {
            TextureCreationInfo::Text(_, tdi) => {
                let text = match rendered_text {
                    Some(t) => t,
                    None => unreached(),
                };
                TextureEntry {
                    size,
                    text_metadata: Some(SideScrollingTextMetadata { size, scroll: tdi.scroll, text }),
                }
            },
            _ => TextureEntry { size, text_metadata: None },
        }
    }

    /// Create a resource for a description and hand out its new handle. The
    /// pool's other records are untouched; on failure the pool is exactly as
    /// it was.
    pub fn make_texture<B: TextureBackend>(
        &mut self,
        backend: &mut B,
        creation_info: &TextureCreationInfo,
    ) -> (r: Result<TextureHandle, TextureCreationError>)
        requires
            old(self).wf(),
            creation_info.wf(),
        ensures
            final(self).wf(),
            final(self).spec_max_texture_size() == old(self).spec_max_texture_size(),
            r matches Ok(handle) ==> {
                &&& handle.spec_index() == old(self).entries().len()
                &&& final(self).entries().len() == old(self).entries().len() + 1
                &&& final(self).entries().drop_last() == old(self).entries()
                &&& entry_matches(
                    final(self).entries().last(),
                    *creation_info,
                    old(self).spec_max_texture_size().w,
                )
            },
            r is Err ==> *final(self) == *old(self),
            (r matches Err(TextureCreationError::PoolFull)) <==> old(self).entries().len()
                >= 0x10000,
            r matches Err(e) ==> (e is PoolFull || e is Backend || e is CutTextStillTooWide),
            r matches Err(TextureCreationError::CutTextStillTooWide { cut_width, max_width })
                ==> (creation_info is Text && max_width == old(self).spec_max_texture_size().w
                && cut_width > max_width),
    {
        if self.textures.len() >= 0x10000 {
            return Err(TextureCreationError::PoolFull);
        }
        let max_texture_width = self.max_texture_size.w;
        let (size, rendered_text) = match self.stage_raw_texture(backend, creation_info) {
            Ok(staged) => staged,
            Err(e) => {
                return Err(e);
            },
        };
        let handle = TextureHandle { handle: self.textures.len() as u16 };
        let entry = Self::possibly_update_text_metadata(
            creation_info,
            size,
            rendered_text,
            max_texture_width,
        );
        backend.commit_append();
        self.textures.push(entry);
        proof {
            assert(self.entries().drop_last() =~= old(self).entries());
        }
        Ok(handle)
    }

    /// Rebuild the resource behind an existing handle in place, per a new
    /// description; the record swap is a single assignment, so no partial
    /// state is ever observable, and nothing of the old record survives. On
    /// failure the pool is exactly as it was.
    pub fn remake_texture<B: TextureBackend>(
        &mut self,
        backend: &mut B,
        creation_info: &TextureCreationInfo,
        handle: &TextureHandle,
    ) -> (r: Result<(), TextureCreationError>)
        requires
            old(self).wf(),
            creation_info.wf(),
            handle.spec_index() < old(self).entries().len(),
        ensures
            final(self).wf(),
            final(self).spec_max_texture_size() == old(self).spec_max_texture_size(),
            r is Ok ==> {
                &&& final(self).entries().len() == old(self).entries().len()
                &&& final(self).entries() == old(self).entries().update(
                    handle.spec_index() as int,
                    final(self).entries()[handle.spec_index() as int],
                )
                &&& entry_matches(
                    final(self).entries()[handle.spec_index() as int],
                    *creation_info,
                    old(self).spec_max_texture_size().w,
                )
            },
            r is Err ==> *final(self) == *old(self),
            r matches Err(e) ==> (e is Backend || e is CutTextStillTooWide),
            r matches Err(TextureCreationError::CutTextStillTooWide { cut_width, max_width })
                ==> (creation_info is Text && max_width == old(self).spec_max_texture_size().w
                && cut_width > max_width),
    {
        let max_texture_width = self.max_texture_size.w;
        let (size, rendered_text) = match self.stage_raw_texture(backend, creation_info) {
            Ok(staged) => staged,
            Err(e) => {
                return Err(e);
            },
        };
        let entry = Self::possibly_update_text_metadata(
            creation_info,
            size,
            rendered_text,
            max_texture_width,
        );
        let index = handle.index() as usize;
        backend.commit_replace(index);
        *vstd::std_specs::vec::vec_index_mut(&mut self.textures, index) = entry;
        proof {
            assert(self.entries() =~= old(self).entries().update(
                handle.spec_index() as int,
                self.entries()[handle.spec_index() as int],
            ));
        }
        Ok(())
    }
}

/// One drawing step for the host to execute, in paint order.
#[derive(Copy, Clone, PartialEq, Eq, Debug)]
pub enum DrawCommand {
    /// Fill `rect` with `color`.
    FillRect { color: Color, rect: PixelRect },
    /// Copy the resource behind `handle` (all of it when `src` is `None`,
    /// else the `src` slice of it) onto `dest`, scaling if the shapes differ.
    CopyTexture { handle: TextureHandle, src: Option<PixelRect>, dest: PixelRect },
}

pub open spec fn command_dest(c: DrawCommand) -> PixelRect {
    match c {
        DrawCommand::FillRect { rect, .. } => rect,
        DrawCommand::CopyTexture { dest, .. } => dest,
    }
}

pub open spec fn command_src(c: DrawCommand) -> Option<PixelRect> {
    match c {
        DrawCommand::FillRect { .. } => None,
        DrawCommand::CopyTexture { src, .. } => src,
    }
}

/// The time seed handed to a scroll behavior: wall-clock milliseconds scaled
/// by the destination/texture width ratio, so wider destinations scroll
/// proportionally faster.
pub open spec fn spec_time_seed(now_millis: u64, dest_w: u32, texture_w: u32) -> int {
    now_millis * dest_w / (texture_w as int)
}

/// Where the visible destination-width window starts within a scrolling text
/// texture, at a given wall-clock time.
pub open spec fn spec_scroll_src_x(
    m: SideScrollingTextMetadata,
    dest: PixelRect,
    now_millis: u64,
) -> int {
    let seed = spec_time_seed(now_millis, dest.w, m.size.w);
    let fits = m.size.w <= dest.w;
    let span: int = if m.scroll.spec_wrap(fits) {
        m.size.w as int
    } else {
        m.size.w - dest.w
    };
    span * m.scroll.spec_fraction(seed, fits) / (UNIT as int)
}

/// A resource can be drawn into `dest`: always, for plain resources; for
/// scrolling text, only when the texture is at least as wide as the
/// destination and not empty.
pub open spec fn texture_drawable(e: TextureEntry, dest: PixelRect) -> bool {
    match e.text_metadata {
        None => true,
        Some(_) => dest.w <= e.size.w && 1 <= e.size.w,
    }
}

/// The copy commands that draw a resource into `dest`: one plain copy for
/// non-text resources; for scrolling text, one aligned slice when the visible
/// window lies inside the texture, else a right-hand slice to the texture's
/// end and a wrap slice from its origin, continuing the marquee.
pub open spec fn texture_draw_plan(
    e: TextureEntry,
    handle: TextureHandle,
    dest: PixelRect,
    now_millis: u64,
) -> Seq<DrawCommand> {
    match e.text_metadata {
        None => seq![DrawCommand::CopyTexture { handle, src: None, dest }],
        Some(m) => {
            let tw = e.size.w;
            let th = e.size.h;
            let sx = spec_scroll_src_x(m, dest, now_millis);
            if sx + dest.w <= tw {
                seq![
                    DrawCommand::CopyTexture {
                        handle,
                        src: Some(PixelRect { x: sx as u32, y: 0, w: dest.w, h: th }),
                        dest,
                    },
                ]
            } else {
                let right_w = (tw - sx) as u32;
                let spill = (sx + dest.w - tw) as u32;
                seq![
                    DrawCommand::CopyTexture {
                        handle,
                        src: Some(PixelRect { x: sx as u32, y: 0, w: right_w, h: th }),
                        dest: PixelRect { x: dest.x, y: dest.y, w: right_w, h: dest.h },
                    },
                    DrawCommand::CopyTexture {
                        handle,
                        src: Some(PixelRect { x: 0, y: 0, w: spill, h: th }),
                        dest: PixelRect {
                            x: (dest.x + right_w) as u32,
                            y: dest.y,
                            w: spill,
                            h: dest.h,
                        },
                    },
                ]
            }
        },
    }
}

/// A scroll fraction lies in the unit interval.
pub proof fn lemma_scroll_fraction_bounds(scroll: ScrollBehavior, seed: int, fits: bool)
    requires
        scroll.wf(),
        0 <= seed,
    ensures
        0 <= scroll.spec_fraction(seed, fits) <= UNIT,
{
    match scroll {
        ScrollBehavior::LoopEvery { period_millis } => {
            let p = period_millis as int;
            lemma_mod_bound(seed, p);
            crate::geometry::lemma_scaled_le(seed % p, UNIT as int, p);
        },
        ScrollBehavior::Stationary => {},
    }
}

/// The visible window's start lies within the texture.
pub proof fn lemma_scroll_src_x_bounds(
    m: SideScrollingTextMetadata,
    dest: PixelRect,
    now_millis: u64,
)
    requires
        m.scroll.wf(),
        dest.w <= m.size.w,
        1 <= m.size.w,
    ensures
        0 <= spec_scroll_src_x(m, dest, now_millis) <= m.size.w,
        !m.scroll.spec_wrap(m.size.w <= dest.w) ==> spec_scroll_src_x(m, dest, now_millis)
            + dest.w <= m.size.w,
{
    let fits = m.size.w <= dest.w;
    let seed = spec_time_seed(now_millis, dest.w, m.size.w);
    lemma_mul_nonnegative(now_millis as int, dest.w as int);
    lemma_div_pos_is_pos(now_millis * dest.w, m.size.w as int);
    lemma_scroll_fraction_bounds(m.scroll, seed, fits);
    let span: int = if m.scroll.spec_wrap(fits) {
        m.size.w as int
    } else {
        m.size.w - dest.w
    };
    crate::geometry::lemma_scaled_le(m.scroll.spec_fraction(seed, fits), span, UNIT as int);
    lemma_mul_is_commutative(span, m.scroll.spec_fraction(seed, fits));
}

/// The right/left split of a scrolled texture copy whose source window spills
/// past the texture's right edge: the right-hand screen destination, and,
/// when there is spill, the left-hand wrap slice's texture source and screen
/// destination.
pub fn split_overflowing_scrolled_rect(
    texture_src: PixelRect,
    screen_dest: PixelRect,
    texture_size: PixelSize,
) -> (r: (PixelRect, Option<(PixelRect, PixelRect)>))
    requires
        screen_dest.w <= texture_size.w,
        texture_src.w == screen_dest.w,
        texture_src.x <= texture_size.w,
        screen_dest.valid(),
    ensures
        texture_src.x + screen_dest.w <= texture_size.w ==> r == (
            screen_dest,
            Option::<(PixelRect, PixelRect)>::None,
        ),
        texture_src.x + screen_dest.w > texture_size.w ==> {
            let spill = (texture_src.x + screen_dest.w - texture_size.w) as u32;
            &&& r.0 == (PixelRect {
                x: screen_dest.x,
                y: screen_dest.y,
                w: (screen_dest.w - spill) as u32,
                h: screen_dest.h,
            })
            &&& r.1 == Some(
                (
                    PixelRect { x: 0, y: 0, w: spill, h: texture_size.h },
                    PixelRect {
                        x: (screen_dest.x + screen_dest.w - spill) as u32,
                        y: screen_dest.y,
                        w: spill,
                        h: screen_dest.h,
                    },
                ),
            )
        },
{
    let how_much_wider = texture_size.w - screen_dest.w;
    if texture_src.x <= how_much_wider {
        return (screen_dest, None);
    }
    let texture_right_side_spill_amount = texture_src.x - how_much_wider;
    let righthand_dest_rect = PixelRect {
        x: screen_dest.x,
        y: screen_dest.y,
        w: screen_dest.w - texture_right_side_spill_amount,
        h: screen_dest.h,
    };
    let lefthand_screen_dest = PixelRect {
        x: screen_dest.x + (screen_dest.w - texture_right_side_spill_amount),
        y: screen_dest.y,
        w: texture_right_side_spill_amount,
        h: screen_dest.h,
    };
    let lefthand_texture_clip_rect = PixelRect {
        x: 0,
        y: 0,
        w: texture_right_side_spill_amount,
        h: texture_size.h,
    };
    (righthand_dest_rect, Some((lefthand_texture_clip_rect, lefthand_screen_dest)))
}

impl TexturePool {
    /// Emit the commands that draw the resource behind `handle` into `dest`:
    /// a plain copy for non-text resources; for text, the slices of the
    /// leftward marquee at the given wall-clock time.
    pub fn draw_texture_to_canvas(
        &self,
        handle: &TextureHandle,
        dest: PixelRect,
        now_millis: u64,
        commands: &mut Vec<DrawCommand>,
    ) -> (r: Result<(), RenderError>)
        requires
            self.wf(),
            handle.spec_index() < self.entries().len(),
            dest.valid(),
        ensures
            ({
                let e = self.entries()[handle.spec_index() as int];
                &&& (r is Ok <==> texture_drawable(e, dest))
                &&& (r is Ok ==> final(commands)@ == old(commands)@ + texture_draw_plan(
                    e,
                    *handle,
                    dest,
                    now_millis,
                ))
                &&& (r is Err ==> final(commands)@ == old(commands)@)
            }),
    {
        let entry = &self.textures[handle.index() as usize];
        proof {
            assert(entry_wf(self.entries()[handle.spec_index() as int]));
        }
        match &entry.text_metadata {
            None => {
                commands.push(DrawCommand::CopyTexture { handle: *handle, src: None, dest });
                proof {
                    assert(commands@ =~= old(commands)@ + texture_draw_plan(
                        self.entries()[handle.spec_index() as int],
                        *handle,
                        dest,
                        now_millis,
                    ));
                }
                Ok(())
            },
            Some(metadata) => {
                let tw = entry.size.w;
                let th = entry.size.h;
                if tw < dest.w {
                    return Err(
                        RenderError::TextureNarrowerThanDest {
                            texture_width: tw,
                            dest_width: dest.w,
                        },
                    );
                }
                if tw == 0 {
                    return Err(RenderError::DegenerateTextTexture);
                }
                proof {
                    assert((now_millis as int) * (dest.w as int) <= (u64::MAX as int) * (
                    u32::MAX as int)) by (nonlinear_arith)
                        requires
                            now_millis <= u64::MAX,
                            dest.w <= u32::MAX,
                    ;
                    lemma_mul_nonnegative(now_millis as int, dest.w as int);
                    lemma_div_pos_is_pos(now_millis * dest.w, tw as int);
                    lemma_mul_inequality(dest.w as int, tw as int, now_millis as int);
                    lemma_mul_is_commutative(dest.w as int, now_millis as int);
                    lemma_mul_is_commutative(tw as int, now_millis as int);
                    lemma_div_is_ordered(
                        (now_millis as int) * (dest.w as int),
                        (now_millis as int) * (tw as int),
                        tw as int,
                    );
                    lemma_div_by_multiple(now_millis as int, tw as int);
                }
                let seed: u64 = ((now_millis as u128) * (dest.w as u128) / (tw as u128)) as u64;
                let fits = tw <= dest.w;
                let (fract, wrap) = metadata.scroll.eval(seed, fits);
                let span: u32 = if wrap {
                    tw
                } else {
                    tw - dest.w
                };
                proof {
                    assert((span as int) * (fract as int) <= (u32::MAX as int) * (UNIT as int))
                        by (nonlinear_arith)
                        requires
                            span <= u32::MAX,
                            fract <= UNIT,
                    ;
                    crate::geometry::lemma_scaled_le(fract as int, span as int, UNIT as int);
                    lemma_mul_is_commutative(span as int, fract as int);
                }
                let sx: u32 = (((span as u64) * (fract as u64)) / (UNIT as u64)) as u32;
                let texture_src = PixelRect { x: sx, y: 0, w: dest.w, h: th };
                let (righthand_dest, possible_left) = split_overflowing_scrolled_rect(
                    texture_src,
                    dest,
                    entry.size,
                );
                match possible_left {
                    None => {
                        commands.push(
                            DrawCommand::CopyTexture {
                                handle: *handle,
                                src: Some(texture_src),
                                dest,
                            },
                        );
                        proof {
                            assert(commands@ =~= old(commands)@ + texture_draw_plan(
                                self.entries()[handle.spec_index() as int],
                                *handle,
                                dest,
                                now_millis,
                            ));
                        }
                        Ok(())
                    },
                    Some((left_src, left_dest)) => {
                        let right_src = PixelRect { x: sx, y: 0, w: righthand_dest.w, h: th };
                        commands.push(
                            DrawCommand::CopyTexture {
                                handle: *handle,
                                src: Some(right_src),
                                dest: righthand_dest,
                            },
                        );
                        commands.push(
                            DrawCommand::CopyTexture {
                                handle: *handle,
                                src: Some(left_src),
                                dest: left_dest,
                            },
                        );
                        proof {
                            assert(commands@ =~= old(commands)@ + texture_draw_plan(
                                self.entries()[handle.spec_index() as int],
                                *handle,
                                dest,
                                now_millis,
                            ));
                        }
                        Ok(())
                    },
                }
            },
        }
    }
}

/// LAW: the slices drawn for a scrolling text texture exactly cover one
/// destination-width window into the texture, with no gap and no overlap,
/// contiguously filling the destination; and the left-hand wrap slice appears
/// exactly when the window would otherwise read past the texture's end and
/// wrap to its origin.
pub proof fn lemma_scroll_slices_cover(
    e: TextureEntry,
    handle: TextureHandle,
    dest: PixelRect,
    now_millis: u64,
)
    requires
        entry_wf(e),
        e.text_metadata is Some,
        texture_drawable(e, dest),
        dest.valid(),
    ensures
        ({
            let m = e.text_metadata.unwrap();
            let sx = spec_scroll_src_x(m, dest, now_millis);
            let tw = e.size.w;
            let plan = texture_draw_plan(e, handle, dest, now_millis);
            &&& 0 <= sx <= tw
            &&& 1 <= plan.len() <= 2
            &&& (plan.len() == 2 <==> sx + dest.w > tw)
            &&& (plan.len() == 1 ==> {
                let s = command_src(plan[0]).unwrap();
                &&& command_dest(plan[0]) == dest
                &&& s.x == sx && s.w == dest.w
                &&& sx + dest.w <= tw
            })
            &&& (plan.len() == 2 ==> {
                let s0 = command_src(plan[0]).unwrap();
                let d0 = command_dest(plan[0]);
                let s1 = command_src(plan[1]).unwrap();
                let d1 = command_dest(plan[1]);
                &&& s0.x == sx && s0.x + s0.w == tw
                &&& s1.x == 0 && s1.w == sx + dest.w - tw
                &&& s0.w + s1.w == dest.w
                &&& d0.x == dest.x && d0.w == s0.w
                &&& d1.x == dest.x + s0.w && d1.w == s1.w
                &&& d0.y == dest.y && d1.y == dest.y && d0.h == dest.h && d1.h == dest.h
            })
        }),
{
    let m = e.text_metadata.unwrap();
    lemma_scroll_src_x_bounds(m, dest, now_millis);
}

/// Every slice of a texture's draw plan lands inside the destination
/// rectangle.
pub proof fn lemma_texture_plan_dests_contained(
    e: TextureEntry,
    handle: TextureHandle,
    dest: PixelRect,
    now_millis: u64,
)
    requires
        entry_wf(e),
        texture_drawable(e, dest),
        dest.valid(),
    ensures
        forall|k: int|
            0 <= k < texture_draw_plan(e, handle, dest, now_millis).len()
                ==> crate::geometry::rect_contains(
                dest,
                command_dest(#[trigger] texture_draw_plan(e, handle, dest, now_millis)[k]),
            ),
{
    match e.text_metadata {
        None => {},
        Some(m) => {
            lemma_scroll_src_x_bounds(m, dest, now_millis);
        },
    }
}

/// LAW: what `recreate` leaves behind a handle is pinned by the new
/// description alone, and drawing reads nothing but the handle's current
/// record: two pools whose records for a handle agree draw it identically,
/// whatever else they ever held.
pub proof fn lemma_recreate_then_draw_uses_only_new_description(
    p1: TexturePool,
    p2: TexturePool,
    handle: TextureHandle,
    dest: PixelRect,
    now_millis: u64,
)
    requires
        handle.spec_index() < p1.entries().len(),
        handle.spec_index() < p2.entries().len(),
        p1.entries()[handle.spec_index() as int] == p2.entries()[handle.spec_index() as int],
    ensures
        texture_draw_plan(p1.entries()[handle.spec_index() as int], handle, dest, now_millis)
            == texture_draw_plan(
            p2.entries()[handle.spec_index() as int],
            handle,
            dest,
            now_millis,
        ),
        texture_drawable(p1.entries()[handle.spec_index() as int], dest) == texture_drawable(
            p2.entries()[handle.spec_index() as int],
            dest,
        ),
{
}

} // verus!
