use vstd::prelude::*;
use crate::error::OcrError;

verus! {

#[verifier::external_type_specification]
#[verifier::external_body]
pub struct ExImageError(image::ImageError);

/// An 8-bit grayscale image, row by row.
pub struct GrayPixels {
    pub width: u32,
    pub height: u32,
    pub pixels: Vec<u8>,
}

impl GrayPixels {
    /// One byte per pixel.
    pub open spec fn wf(&self) -> bool {
        self.pixels@.len() == self.width as nat * self.height as nat
    }
}

/// The three buffers handed to OCR, each a PNG file: the whole processed image, its
/// bottom part and its top part.
pub struct PreparedImage {
    pub full: Vec<u8>,
    pub bottom: Vec<u8>,
    pub top: Vec<u8>,
}

/// Gray levels at or below this become black.
pub const CONTRAST_LOW: u8 = 50;

/// Gray levels at or above this become white.
pub const CONTRAST_HIGH: u8 = 200;

/// Percent of the height, from the bottom, where totals are looked for.
pub const BOTTOM_PERCENT: u64 = 20;

/// Percent of the height, from the top, where the merchant and date are looked for.
pub const TOP_PERCENT: u64 = 30;

/// The grayscale image that some bytes decode to, as width, height and pixels row by
/// row, if they are an image of a format that can be decoded.
pub uninterp spec fn decoded_gray(bytes: Seq<u8>) -> Option<(nat, nat, Seq<u8>)>;

/// The PNG file that encodes a grayscale image of the given pixels and size.
pub uninterp spec fn png_encoding(pixels: Seq<u8>, width: nat, height: nat) -> Seq<u8>;

/// A linear contrast stretch: `lower` and below go to 0, `upper` and above to 255.
pub open spec fn stretched(p: u8, lower: u8, upper: u8) -> u8 {
    if p >= upper {
        255
    } else if p <= lower {
        0
    } else {
        ((255 * (p - lower) as int) / ((upper - lower) as int)) as u8
    }
}

pub open spec fn stretched_pixels(px: Seq<u8>) -> Seq<u8> {
    px.map_values(|p: u8| stretched(p, CONTRAST_LOW, CONTRAST_HIGH))
}

pub open spec fn bottom_rows(height: nat) -> nat {
    height * BOTTOM_PERCENT as nat / 100
}

pub open spec fn top_rows(height: nat) -> nat {
    height * TOP_PERCENT as nat / 100
}

/// Relies on `image::load_from_memory`, which guesses the format and decodes the bytes,
/// and on `DynamicImage::to_luma8`, which makes a grayscale copy with one byte per pixel.
/// Both depend on the bytes alone.
#[verifier::external_body]
fn decode_gray(bytes: &[u8]) -> (r: Result<GrayPixels, image::ImageError>)
    ensures
        match r {
            Ok(g) => g.wf() && decoded_gray(bytes@) == Some((g.width as nat, g.height as nat, g.pixels@)),
            Err(_) => decoded_gray(bytes@) is None,
        },
{
    let g = image::load_from_memory(bytes)?.to_luma8();
    let (width, height) = g.dimensions();
    Ok(GrayPixels { width, height, pixels: g.into_raw() })
}

/// Relies on `imageproc::contrast::stretch_contrast`, which maps each pixel as `stretched` says.
#[verifier::external_body]
fn stretch_contrast(g: &GrayPixels, lower: u8, upper: u8) -> (r: GrayPixels)
    requires
        g.wf(),
        lower < upper,
    ensures
        r.width == g.width,
        r.height == g.height,
        r.pixels@ == g.pixels@.map_values(|p: u8| stretched(p, lower, upper)),
{
    let buf = image::GrayImage::from_raw(g.width, g.height, g.pixels.clone()).unwrap();
    let out = imageproc::contrast::stretch_contrast(&buf, lower, upper);
    GrayPixels { width: g.width, height: g.height, pixels: out.into_raw() }
}

/// Relies on `image::ImageBuffer::write_to` with the PNG format. Into a `Vec` it fails
/// only on a zero width or height.
#[verifier::external_body]
fn encode_png(g: &GrayPixels) -> (r: Result<Vec<u8>, image::ImageError>)
    requires
        g.wf(),
    ensures
        r matches Ok(b) ==> b@ == png_encoding(g.pixels@, g.width as nat, g.height as nat),
        g.width > 0 && g.height > 0 ==> r is Ok,
{
    let buf = image::GrayImage::from_raw(g.width, g.height, g.pixels.clone()).unwrap();
    let mut out: Vec<u8> = Vec::new();
    buf.write_to(&mut std::io::Cursor::new(&mut out), image::ImageOutputFormat::Png).map(|_| out)
}

/// Rows `top..top + rows` of `g`, at full width.
pub fn crop_rows(g: &GrayPixels, top: u32, rows: u32) -> (r: GrayPixels)
    requires
        g.wf(),
        top as nat + rows as nat <= g.height as nat,
    ensures
        r.wf(),
        r.width == g.width,
        r.height == rows,
        r.pixels@ == g.pixels@.subrange(top as int * g.width as int, (top as int + rows as int) * g.width as int),
{
    let w = g.width as usize;
    let n = g.pixels.len();
    proof {
        assert(top as nat * g.width as nat <= (top as nat + rows as nat) * g.width as nat) by (nonlinear_arith);
        assert((top as nat + rows as nat) * g.width as nat <= g.height as nat * g.width as nat) by (nonlinear_arith)
            requires top as nat + rows as nat <= g.height as nat;
        assert((top as nat + rows as nat) * g.width as nat == top as nat * g.width as nat + rows as nat * g.width as nat) by (nonlinear_arith);
        assert(g.height as nat * g.width as nat == g.width as nat * g.height as nat) by (nonlinear_arith);
        assert(rows as nat * g.width as nat == g.width as nat * rows as nat) by (nonlinear_arith);
        assert(rows as nat * g.width as nat <= n);
    }
    let start = (top as usize) * w;
    let end = start + (rows as usize) * w;
    let mut pixels: Vec<u8> = Vec::new();
    let mut i: usize = start;
    while i < end
        invariant
            start <= i <= end <= g.pixels@.len(),
            pixels@ == g.pixels@.subrange(start as int, i as int),
        decreases end - i,
    {
        pixels.push(g.pixels[i]);
        i = i + 1;
        assert(pixels@ =~= g.pixels@.subrange(start as int, i as int));
    }
    GrayPixels { width: g.width, height: rows, pixels }
}

/// The three PNG files prepared from a grayscale image of width `w`, height `h` and
/// pixels `px`: the whole image stretched, its bottom fifth and its top three tenths.
/// Preparation fails only when a part has no row or the image no column.
pub open spec fn prepared_from(r: Result<PreparedImage, OcrError>, w: nat, h: nat, px: Seq<u8>) -> bool {
    let s = stretched_pixels(px);
    let bh = bottom_rows(h);
    let th = top_rows(h);
    &&& (w > 0 && bh > 0 ==> r is Ok)
    &&& match r {
        Ok(p) => {
            &&& p.full@ == png_encoding(s, w, h)
            &&& p.bottom@ == png_encoding(s.subrange(((h - bh) * w) as int, (h * w) as int), w, bh)
            &&& p.top@ == png_encoding(s.subrange(0, (th * w) as int), w, th)
        },
        Err(e) => e == OcrError::ImageEncodeError,
    }
}

/// Stretches the contrast of a grayscale image and encodes it, its bottom fifth and its
/// top three tenths as PNG files.
pub fn prepare_gray(g: &GrayPixels) -> (r: Result<PreparedImage, OcrError>)
    requires
        g.wf(),
    ensures
        prepared_from(r, g.width as nat, g.height as nat, g.pixels@),
{
    let s = stretch_contrast(g, CONTRAST_LOW, CONTRAST_HIGH);
    assert(s.pixels@ =~= stretched_pixels(g.pixels@));
    let h = g.height as u64;
    let bh = (h * BOTTOM_PERCENT / 100) as u32;
    let th = (h * TOP_PERCENT / 100) as u32;
    let bottom = crop_rows(&s, g.height - bh, bh);
    let top = crop_rows(&s, 0, th);
    let full = match encode_png(&s) {
        Ok(b) => b,
        Err(_) => return Err(OcrError::ImageEncodeError),
    };
    let bottom = match encode_png(&bottom) {
        Ok(b) => b,
        Err(_) => return Err(OcrError::ImageEncodeError),
    };
    let top = match encode_png(&top) {
        Ok(b) => b,
        Err(_) => return Err(OcrError::ImageEncodeError),
    };
    proof {
        let w = g.width as nat;
        let hh = g.height as nat;
        assert((hh - bottom_rows(hh) + bottom_rows(hh)) * w == hh * w);
        assert(bottom_rows(hh) <= top_rows(hh));
    }
    Ok(PreparedImage { full, bottom, top })
}

/// Decodes an image and prepares it for OCR. Bytes that are no image give
/// `ImageDecodeError`; otherwise the result is `prepare_gray`'s on the decoded grayscale image.
pub fn preprocess_image(bytes: &[u8]) -> (r: Result<PreparedImage, OcrError>)
    ensures
        match decoded_gray(bytes@) {
            None => r == Err::<PreparedImage, OcrError>(OcrError::ImageDecodeError),
            Some(d) => prepared_from(r, d.0, d.1, d.2),
        },
{
    let g = match decode_gray(bytes) {
        Ok(g) => g,
        Err(_) => return Err(OcrError::ImageDecodeError),
    };
    prepare_gray(&g)
}

} // verus!
