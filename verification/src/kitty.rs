//! The inline-image side of the renderer: decode and resize a raster
//! image through the `image` crate, encode it as PNG, and frame the
//! base64 payload into chunked terminal graphics escape sequences.

use vstd::prelude::*;
use crate::strutil::{spec_dec, spec_dec_i64, fmt_u64, fmt_i64, push_char};
use base64::Engine;
use image::DynamicImage;

verus! {

/// The base64 (standard alphabet, padded) rendering of a byte sequence.
pub uninterp spec fn base64_of(b: Seq<u8>) -> Seq<char>;

/// Relies on `base64`'s `Engine::encode` with the standard padded
/// alphabet: four ASCII characters for every three input bytes. The
/// bound keeps the encoded length within `usize`, where the encoder
/// would otherwise panic.
#[verifier::external_body]
fn encode_base64(b: &Vec<u8>) -> (r: String)
    requires
        4 * (b@.len() as int / 3) + 4 <= usize::MAX as int,
    ensures
        r@ == base64_of(b@),
        r@.len() == 4 * ((b@.len() + 2) / 3),
        r.is_ascii(),
{
    base64::engine::general_purpose::STANDARD.encode(b)
}

#[verifier::external_type_specification]
#[verifier::external_body]
pub struct ExDynamicImage(DynamicImage);

/// Relies on `image::open`: decode the image file at `path`, guessing
/// the format; the error is rendered as text.
#[verifier::external_body]
fn open_image(path: &str) -> (r: Result<DynamicImage, String>) {
    image::open(path).map_err(|err| format!("Failed to open image '{}': {}", path, err))
}

/// Relies on `DynamicImage::width`.
#[verifier::external_body]
fn image_width(img: &DynamicImage) -> (r: u32) {
    img.width()
}

/// Relies on `DynamicImage::height`.
#[verifier::external_body]
fn image_height(img: &DynamicImage) -> (r: u32) {
    img.height()
}

/// Relies on `DynamicImage::resize_exact` with the Lanczos filter: a
/// resampled copy with exactly the given dimensions.
#[verifier::external_body]
fn resize_exact_image(img: &DynamicImage, w: u32, h: u32) -> (r: DynamicImage) {
    img.resize_exact(w, h, image::imageops::FilterType::Lanczos3)
}

/// Relies on `DynamicImage::write_to` with the PNG format: the image
/// losslessly re-encoded; the error is rendered as text.
#[verifier::external_body]
fn encode_png(img: &DynamicImage) -> (r: Result<Vec<u8>, String>) {
    let mut bytes: Vec<u8> = Vec::new();
    let mut cursor = std::io::Cursor::new(&mut bytes);
    match img.write_to(&mut cursor, image::ImageFormat::Png) {
        Ok(()) => Ok(bytes),
        Err(err) => Err(format!("Failed to encode image: {}", err)),
    }
}

/// The terminal cell footprint reserved for the transmitted image.
#[derive(Debug, Clone, Copy, PartialEq, Eq, Structural)]
pub struct KittyArtworkInfo {
    pub pad_columns: usize,
    pub pad_rows: usize,
}

/// A transmitted image: the escape-sequence payload and its footprint.
#[derive(Debug, Clone)]
pub struct KittyImage {
    pub payload: String,
    pub info: KittyArtworkInfo,
}

/// A terminal cell's pixel size, in tenths of a pixel.
#[derive(Debug, Clone, Copy, PartialEq, Eq, Structural)]
pub struct CellMetrics {
    pub width_tenths: u32,
    pub height_tenths: u32,
}

/// A terminal program name that talks the graphics protocol.
pub open spec fn spec_term_program_supported(v: Seq<char>) -> bool {
    let l = crate::strutil::spec_lower(v);
    l == "kitty"@ || l == "wezterm"@ || l == "ghostty"@ || l == "tabby"@
        || l == "warp-terminal"@
}

/// Does this terminal program name advertise graphics support?
pub fn term_program_supports_kitty(value: &str) -> (r: bool)
    ensures
        r == spec_term_program_supported(value@),
{
    let l = crate::strutil::to_lower(value);
    crate::strutil::str_eq(l.as_str(), "kitty")
        || crate::strutil::str_eq(l.as_str(), "wezterm")
        || crate::strutil::str_eq(l.as_str(), "ghostty")
        || crate::strutil::str_eq(l.as_str(), "tabby")
        || crate::strutil::str_eq(l.as_str(), "warp-terminal")
}

/// A `TERM` value that implies graphics support, possibly via the
/// terminal's own environment markers.
pub open spec fn spec_term_name_supported(term: Seq<char>, has_ghostty_env: bool) -> bool {
    let l = crate::strutil::spec_lower(term);
    crate::strutil::spec_contains(l, "kitty"@) || crate::strutil::spec_contains(l, "wezterm"@)
        || crate::strutil::spec_contains(l, "foot"@)
        || crate::strutil::spec_contains(l, "ghostty"@) || has_ghostty_env
}

/// Does this `TERM` value imply graphics support?
pub fn term_name_supports_kitty(term: &str, has_ghostty_env: bool) -> (r: bool)
    ensures
        r == spec_term_name_supported(term@, has_ghostty_env),
{
    let l = crate::strutil::to_lower(term);
    if crate::strutil::str_contains(l.as_str(), "kitty")
        || crate::strutil::str_contains(l.as_str(), "wezterm")
        || crate::strutil::str_contains(l.as_str(), "foot") {
        return true;
    }
    if crate::strutil::str_contains(l.as_str(), "ghostty") {
        return true;
    }
    has_ghostty_env
}

/// The vertical nudge for a given row footprint: eight percent of the
/// rows, rounded half up, but at least one when any rows are reserved.
pub open spec fn spec_vertical_offset_rows(pad_rows: nat) -> int {
    if pad_rows == 0 {
        0
    } else {
        let off = (pad_rows * 8 + 50) / 100;
        if off < 1 { 1 } else { off as int }
    }
}

/// The small upward shift applied to the transmitted image. The bound
/// is the million-cell cap that `cell_count` puts on any footprint and
/// `render_image` puts on configured values; it keeps the percentage
/// arithmetic within `i32`.
pub fn compute_vertical_offset_rows(pad_rows: usize) -> (r: i32)
    requires
        pad_rows <= 1_000_000,
    ensures
        r as int == spec_vertical_offset_rows(pad_rows as nat),
{
    if pad_rows == 0 {
        return 0;
    }
    let off: usize = (pad_rows * 8 + 50) / 100;
    if off < 1 {
        1
    } else {
        off as i32
    }
}

/// A padding value shifted by a user offset, never below its floor.
pub open spec fn spec_adjust(base: nat, delta: int, min_value: nat) -> nat {
    if base + delta < min_value { min_value } else { (base + delta) as nat }
}

/// Shift a pad value by a signed offset, clamping at a minimum floor.
/// The bounds keep `base + delta` within `i64` and the result within
/// `usize` on every architecture; the pad values callers hold are
/// already capped at a million cells.
pub fn adjust_with_offset(base: usize, delta: i32, min_value: usize) -> (r: usize)
    requires
        base <= 1_000_000_000,
        min_value <= 1_000_000_000,
    ensures
        r as nat == spec_adjust(base as nat, delta as int, min_value as nat),
{
    let adjusted: i64 = base as i64 + delta as i64;
    if adjusted < min_value as i64 {
        min_value
    } else {
        adjusted as usize
    }
}

/// The cell count a pixel length occupies against a cell size in tenths
/// of a pixel: the ceiling of their quotient, at least one, and capped
/// at a million cells.
pub open spec fn spec_cell_count(px: nat, cell_tenths: nat) -> nat
    recommends
        cell_tenths > 0,
{
    let c = (px * 10 + cell_tenths - 1) / (cell_tenths as int);
    if c < 1 { 1 } else if c > 1_000_000 { 1_000_000 } else { c as nat }
}

/// How many terminal cells a pixel length spans.
pub fn cell_count(px: u32, cell_tenths: u32) -> (r: usize)
    requires
        cell_tenths > 0,
    ensures
        r as nat == spec_cell_count(px as nat, cell_tenths as nat),
        r >= 1,
        r <= 1_000_000,
{
    let wide: u64 = ((px as u64) * 10 + (cell_tenths as u64) - 1) / (cell_tenths as u64);
    if wide < 1 {
        1
    } else if wide > 1_000_000 {
        1_000_000
    } else {
        wide as usize
    }
}

/// One chunk header of the graphics protocol, carrying the image size,
/// the position offsets and the more-data flag.
pub open spec fn spec_chunk_header(w: nat, h: nat, x: int, y: int, more: bool) -> Seq<char> {
    "\u{1b}_Ga=T,f=100,s="@ + spec_dec(w) + ",v="@ + spec_dec(h) + ",x="@
        + spec_dec_i64(x) + ",y="@ + spec_dec_i64(y) + ",m="@
        + (if more { "1"@ } else { "0"@ }) + ";"@
}

/// The whole chunked transmission of an encoded payload: pieces of at
/// most 4096 characters, each framed by a header and a terminator, the
/// more-data flag cleared exactly on the last chunk.
pub open spec fn spec_transmit(enc: Seq<char>, w: nat, h: nat, x: int, y: int) -> Seq<char>
    decreases enc.len(),
{
    if enc.len() == 0 {
        Seq::empty()
    } else {
        let k: int = if enc.len() < 4096 { enc.len() as int } else { 4096 };
        spec_chunk_header(w, h, x, y, enc.len() > 4096) + enc.subrange(0, k)
            + "\u{1b}\\"@ + spec_transmit(enc.subrange(k, enc.len() as int), w, h, x, y)
    }
}

fn chunk_header(w: u32, h: u32, x: i32, y: i32, more: bool) -> (r: String)
    ensures
        r@ == spec_chunk_header(w as nat, h as nat, x as int, y as int, more),
{
    let mut r = String::new();
    r.append("\u{1b}_Ga=T,f=100,s=");
    let ws = fmt_u64(w as u64);
    r.append(ws.as_str());
    r.append(",v=");
    let hs = fmt_u64(h as u64);
    r.append(hs.as_str());
    r.append(",x=");
    let xs = fmt_i64(x as i64);
    r.append(xs.as_str());
    r.append(",y=");
    let ys = fmt_i64(y as i64);
    r.append(ys.as_str());
    r.append(",m=");
    if more {
        r.append("1");
    } else {
        r.append("0");
    }
    r.append(";");
    proof {
        assert(r@ =~= spec_chunk_header(w as nat, h as nat, x as int, y as int, more));
    }
    r
}

/// Frame PNG bytes as a chunked graphics-protocol transmission.
pub fn transmit_png(
    png_bytes: &Vec<u8>,
    width: u32,
    height: u32,
    horizontal_offset: i32,
    vertical_offset: i32,
) -> (r: String)
    requires
        4 * (png_bytes@.len() as int / 3) + 4 <= usize::MAX as int,
    ensures
        r@ == spec_transmit(base64_of(png_bytes@), width as nat, height as nat,
            horizontal_offset as int, vertical_offset as int),
{
    let encoded = encode_base64(png_bytes);
    let ghost enc = encoded@;
    let n = encoded.as_str().unicode_len();
    let mut out = String::new();
    let mut start: usize = 0;
    proof {
        assert(enc.subrange(0, n as int) =~= enc);
        assert(out@ + spec_transmit(enc, width as nat, height as nat,
            horizontal_offset as int, vertical_offset as int)
            =~= spec_transmit(enc, width as nat, height as nat,
                horizontal_offset as int, vertical_offset as int));
    }
    while start < n
        invariant
            n == enc.len(),
            encoded@ == enc,
            start <= n,
            spec_transmit(enc, width as nat, height as nat, horizontal_offset as int,
                vertical_offset as int) == out@ + spec_transmit(
                enc.subrange(start as int, n as int), width as nat, height as nat,
                horizontal_offset as int, vertical_offset as int),
        decreases n - start,
    {
        let remaining = n - start;
        let k = if remaining < 4096 { remaining } else { 4096 };
        let more = remaining > 4096;
        let header = chunk_header(width, height, horizontal_offset, vertical_offset, more);
        out.append(header.as_str());
        let piece = encoded.as_str().substring_char(start, start + k);
        out.append(piece);
        out.append("\u{1b}\\");
        proof {
            let rest = enc.subrange(start as int, n as int);
            assert(rest.subrange(0, k as int) =~= enc.subrange(
                start as int, start as int + k as int));
            assert(rest.subrange(k as int, rest.len() as int) =~= enc.subrange(
                start as int + k as int, n as int));
        }
        start = start + k;
    }
    proof {
        assert(enc.subrange(n as int, n as int) =~= Seq::<char>::empty());
        assert(out@ + Seq::<char>::empty() =~= out@);
    }
    out
}

/// Decide the dimensions a raster image is resized to: exact when both
/// sides are configured, aspect-preserving when one is, untouched when
/// none is; a zero-sized source is left alone.
fn resize_image(img: DynamicImage, width: Option<u32>, height: Option<u32>) -> DynamicImage {
    match (width, height) {
        (Some(w), Some(h)) => resize_exact_image(&img, w, h),
        (Some(w), None) => {
            let iw = image_width(&img);
            let ih = image_height(&img);
            if iw == 0 {
                img
            } else {
                proof {
                    assert((ih as int) * (w as int) <= 0xFFFF_FFFF * 0xFFFF_FFFF)
                        by (nonlinear_arith)
                        requires
                            0 <= ih as int <= 0xFFFF_FFFF,
                            0 <= w as int <= 0xFFFF_FFFF,
                    ;
                }
                let wide: u64 = ((ih as u64) * (w as u64) + (iw as u64) / 2) / (iw as u64);
                let h2: u32 = if wide > 0xFFFF_FFFFu64 {
                    0xFFFF_FFFFu32
                } else if wide < 1 {
                    1
                } else {
                    wide as u32
                };
                resize_exact_image(&img, w, h2)
            }
        },
        (None, Some(h)) => {
            let iw = image_width(&img);
            let ih = image_height(&img);
            if ih == 0 {
                img
            } else {
                proof {
                    assert((iw as int) * (h as int) <= 0xFFFF_FFFF * 0xFFFF_FFFF)
                        by (nonlinear_arith)
                        requires
                            0 <= iw as int <= 0xFFFF_FFFF,
                            0 <= h as int <= 0xFFFF_FFFF,
                    ;
                }
                let wide: u64 = ((iw as u64) * (h as u64) + (ih as u64) / 2) / (ih as u64);
                let w2: u32 = if wide > 0xFFFF_FFFFu64 {
                    0xFFFF_FFFFu32
                } else if wide < 1 {
                    1
                } else {
                    wide as u32
                };
                resize_exact_image(&img, w2, h)
            }
        },
        (None, None) => img,
    }
}

/// Transmit the image at `path` and compute the terminal footprint the
/// text block must leave for it. Whatever the decoder and encoder
/// return, the reserved row count never drops below one, and explicitly
/// configured pad values are honoured, shifted by the offsets. The
/// million-cell bound on the configured values matches `cell_count`'s
/// cap on automatic footprints; no terminal approaches it.
pub fn render_image(
    path: &str,
    target_width: Option<u32>,
    target_height: Option<u32>,
    configured_padding: Option<usize>,
    configured_rows: Option<usize>,
    offset_columns: i32,
    offset_rows: i32,
    cell: Option<CellMetrics>,
) -> (r: Result<KittyImage, String>)
    requires
        match configured_padding { Some(p) => p <= 1_000_000, None => true },
        match configured_rows { Some(p) => p <= 1_000_000, None => true },
    ensures
        match r {
            Ok(img) => {
                &&& img.info.pad_rows >= 1
                &&& match configured_padding {
                    Some(p) => img.info.pad_columns as nat == spec_adjust(
                        p as nat, offset_columns as int, 0),
                    None => true,
                }
                &&& match configured_rows {
                    Some(p) => img.info.pad_rows as nat == spec_adjust(
                        p as nat, offset_rows as int, 1),
                    None => true,
                }
            },
            Err(_) => true,
        },
{
    let img = match open_image(path) {
        Ok(i) => i,
        Err(e) => {
            return Err(e);
        },
    };
    let img = resize_image(img, target_width, target_height);
    let final_width = image_width(&img);
    let final_height = image_height(&img);
    let png_bytes = match encode_png(&img) {
        Ok(b) => b,
        Err(e) => {
            return Err(e);
        },
    };
    if png_bytes.len() / 3 >= (usize::MAX - 4) / 4 {
        return Err("encoded image too large to transmit".to_owned());
    }
    let (cell_w, cell_h) = match cell {
        Some(c) => {
            if c.width_tenths > 0 && c.height_tenths > 0 {
                (c.width_tenths, c.height_tenths)
            } else {
                (115, 180)
            }
        },
        None => (115, 180),
    };
    let auto_columns = cell_count(final_width, cell_w);
    let auto_pad_columns = match configured_padding {
        Some(p) => p,
        None => auto_columns + 1,
    };
    let auto_pad_rows = match configured_rows {
        Some(p) => p,
        None => cell_count(final_height, cell_h),
    };
    let pad_columns = adjust_with_offset(auto_pad_columns, offset_columns, 0);
    let pad_rows = adjust_with_offset(auto_pad_rows, offset_rows, 1);
    let base_offset = compute_vertical_offset_rows(auto_pad_rows);
    let vertical_offset_rows: i32 = if offset_rows >= 0 {
        if base_offset <= i32::MAX - offset_rows {
            base_offset + offset_rows
        } else {
            i32::MAX
        }
    } else {
        if base_offset >= i32::MIN - offset_rows {
            base_offset + offset_rows
        } else {
            i32::MIN
        }
    };
    let mut payload = transmit_png(
        &png_bytes, final_width, final_height, offset_columns, vertical_offset_rows);
    push_char(&mut payload, '\n');
    Ok(KittyImage { payload, info: KittyArtworkInfo { pad_columns, pad_rows } })
}

} // verus!
