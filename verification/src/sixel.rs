//! Sixel rendering options, terminal capability, and preview cache entries.

use vstd::prelude::*;
use crate::text::{contains_seq, contains_text, decimal, push_decimal, same_text};

verus! {

/// Size of the preview cache, in megabytes.
pub const MAX_CACHE_SIZE_MB: usize = 50;

/// Options for turning an image into Sixel output.
#[derive(Debug, Clone, Copy, PartialEq, Eq, Structural)]
pub struct RenderOptions {
    /// Target width in terminal cells.
    pub width: u16,
    /// Target height in terminal cells.
    pub height: u16,
    /// Whether to keep the aspect ratio.
    pub preserve_aspect: bool,
    /// Whether to use high quality resizing.
    pub high_quality: bool,
}

impl Default for RenderOptions {
    /// 40 by 20 cells, aspect kept, high quality.
    fn default() -> (r: RenderOptions)
        ensures
            r.width == 40,
            r.height == 20,
            r.preserve_aspect,
            r.high_quality,
    {
        RenderOptions { width: 40, height: 20, preserve_aspect: true, high_quality: true }
    }
}

/// What the terminal can show.
#[derive(Debug, Clone, Copy, PartialEq, Eq, Structural)]
pub enum TerminalCapability {
    /// Full Sixel support.
    Sixel,
    /// No Sixel support: text only.
    TextOnly,
}

/// `TERM` values that name a Sixel-capable terminal (matched as substrings).
pub open spec fn sixel_term(term: Seq<char>) -> bool {
    contains_seq(term, "xterm-256color"@) || contains_seq(term, "xterm-sixel"@) || contains_seq(
        term,
        "mlterm"@,
    ) || contains_seq(term, "yaft-256color"@)
}

/// The capability that the environment shows: a Sixel-capable `TERM`, then
/// iTerm2 or WezTerm as `TERM_PROGRAM`, then a kitty window; else text only.
pub open spec fn spec_capability(
    term: Option<Seq<char>>,
    term_program: Option<Seq<char>>,
    kitty_window: bool,
) -> TerminalCapability {
    if term matches Some(t) && sixel_term(t) {
        TerminalCapability::Sixel
    } else if term_program == Some("iTerm.app"@) || term_program == Some("WezTerm"@) {
        TerminalCapability::Sixel
    } else if kitty_window {
        TerminalCapability::Sixel
    } else {
        TerminalCapability::TextOnly
    }
}

/// The view of an optional string.
pub open spec fn opt_view(o: Option<String>) -> Option<Seq<char>> {
    match o {
        Some(s) => Some(s@),
        None => None,
    }
}

/// Decide the terminal capability from the values of `TERM`, `TERM_PROGRAM`
/// and whether `KITTY_WINDOW_ID` is set.
pub fn capability_from_env(
    term: &Option<String>,
    term_program: &Option<String>,
    kitty_window: bool,
) -> (c: TerminalCapability)
    ensures
        c == spec_capability(opt_view(*term), opt_view(*term_program), kitty_window),
{
    if let Some(t) = term {
        let t = t.as_str();
        if contains_text(t, "xterm-256color") || contains_text(t, "xterm-sixel") || contains_text(
            t,
            "mlterm",
        ) || contains_text(t, "yaft-256color") {
            return TerminalCapability::Sixel;
        }
    }
    if let Some(p) = term_program {
        let p = p.as_str();
        if same_text(p, "iTerm.app") || same_text(p, "WezTerm") {
            return TerminalCapability::Sixel;
        }
    }
    if kitty_window {
        TerminalCapability::Sixel
    } else {
        TerminalCapability::TextOnly
    }
}

/// A rendered preview held in the cache.
#[derive(Debug)]
pub struct PreviewEntry {
    /// Path to the image file.
    pub path: String,
    /// Rendered Sixel text.
    pub sixel_data: String,
    /// Size in bytes.
    pub size_bytes: usize,
    /// When it was last used, in ticks of a monotonic clock.
    pub last_access: u64,
    /// Image dimensions.
    pub dimensions: (u32, u32),
}

impl Clone for PreviewEntry {
    fn clone(&self) -> (r: PreviewEntry)
        ensures
            r.path@ == self.path@,
            r.sixel_data@ == self.sixel_data@,
            r.size_bytes == self.size_bytes,
            r.last_access == self.last_access,
            r.dimensions == self.dimensions,
    {
        PreviewEntry {
            path: self.path.clone(),
            sixel_data: self.sixel_data.clone(),
            size_bytes: self.size_bytes,
            last_access: self.last_access,
            dimensions: (self.dimensions.0, self.dimensions.1),
        }
    }
}

/// Outcome of a preview request.
#[derive(Debug, Clone)]
pub struct PreviewResult {
    pub path: String,
    pub entry: Option<PreviewEntry>,
    pub error: Option<String>,
}

/// Figures of the preview cache.
#[derive(Debug, Clone, Copy, PartialEq, Eq, Structural)]
pub struct CacheStats {
    pub entries: usize,
    pub size_bytes: usize,
    pub max_size_bytes: usize,
}


/// The options of the image widgets' Sixel rendering.
pub type SixelRenderOptions = RenderOptions;

/// Pixels per terminal cell, across.
pub const CELL_PIXEL_WIDTH: u32 = 8;

/// Pixels per terminal cell, down.
pub const CELL_PIXEL_HEIGHT: u32 = 16;

/// The pixel size that fits `options`' cells, when an image of
/// `width` x `height` pixels is larger in either direction; `None` when it
/// already fits.
pub open spec fn spec_resize_bounds(width: u32, height: u32, options: RenderOptions) -> Option<(u32, u32)> {
    let tw = options.width * CELL_PIXEL_WIDTH;
    let th = options.height * CELL_PIXEL_HEIGHT;
    if width <= tw && height <= th {
        None
    } else {
        Some((tw as u32, th as u32))
    }
}

/// The bounds an image must be resized into, if it does not fit.
pub fn resize_bounds(width: u32, height: u32, options: &RenderOptions) -> (r: Option<(u32, u32)>)
    ensures
        r == spec_resize_bounds(width, height, *options),
{
    let tw = options.width as u32 * CELL_PIXEL_WIDTH;
    let th = options.height as u32 * CELL_PIXEL_HEIGHT;
    if width <= tw && height <= th {
        None
    } else {
        Some((tw, th))
    }
}

/// The Sixel text written for an image of `width` x `height` pixels: the
/// raster header, a black colour register, and the end of the sequence.
pub open spec fn spec_sixel_stub(width: u32, height: u32) -> Seq<char> {
    "\x1bP0;1;0q\"1;1;"@ + decimal(width as nat) + ";"@ + decimal(height as nat) + "\n"@ + "#0;2;0;0;0"@
        + "\x1b\\"@
}

/// The Sixel text of an image of `width` x `height` pixels.
pub fn sixel_stub(width: u32, height: u32) -> (r: String)
    ensures
        r@ == spec_sixel_stub(width, height),
{
    let mut r = String::from_str("\x1bP0;1;0q\"1;1;");
    push_decimal(&mut r, width as u128);
    r.append(";");
    push_decimal(&mut r, height as u128);
    r.append("\n");
    r.append("#0;2;0;0;0");
    r.append("\x1b\\");
    r
}

} // verus!
