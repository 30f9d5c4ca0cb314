//! The dither mask: a binary bitmap that is laid over a display with its
//! aspect ratio kept, centred, and sampled to the nearest cell.

use vstd::prelude::*;

verus! {

/// The luma above which a pixel of the mask image counts as set.
pub const LUMA_THRESHOLD: u8 = 128;

/// Why a mask could not be made.
#[derive(Clone, Copy, Debug, PartialEq, Eq, Structural)]
pub enum NoiseError {
    /// The bytes are not a PNG image that can be decoded.
    Decode,
    /// The number of luma values is not width times height.
    SizeMismatch,
}

/// The mathematical value of a mask: its size and its cells, row by row.
pub struct MaskView {
    pub width: int,
    pub height: int,
    pub cells: Seq<bool>,
}

impl MaskView {
    /// Whether the mask holds exactly one cell for each position.
    pub open spec fn wf(self) -> bool {
        &&& 0 <= self.width
        &&& 0 <= self.height
        &&& self.cells.len() == self.width * self.height
    }
}

/// The smaller of two integers.
pub open spec fn min_int(a: int, b: int) -> int {
    if a <= b {
        a
    } else {
        b
    }
}

/// Whether a mask of `w` by `h` cells is relatively wider than a display of
/// `dw` by `dh` pixels. Such a mask is scaled to the display's width, any
/// other to its height.
pub open spec fn fits_width(w: int, h: int, dw: int, dh: int) -> bool {
    w * dh > h * dw
}

/// The part of the display that the scaled, centred mask covers: the left
/// and top edge, then its width and height in display pixels.
pub open spec fn mask_region(w: int, h: int, dw: int, dh: int) -> (int, int, int, int) {
    if fits_width(w, h, dw, dh) {
        let rh = (h * dw) / w;
        (0, (dh - rh) / 2, dw, rh)
    } else {
        let rw = (w * dh) / h;
        ((dw - rw) / 2, 0, rw, dh)
    }
}

/// Whether the display pixel `(x, y)` lies on the scaled mask.
pub open spec fn in_mask_region(w: int, h: int, dw: int, dh: int, x: int, y: int) -> bool {
    let (x0, y0, rw, rh) = mask_region(w, h, dw, dh);
    x0 <= x < x0 + rw && y0 <= y < y0 + rh
}

/// The cell of the mask that the display pixel `(x, y)` of the region falls
/// on: the distance from the region's edge times the scale, rounded down,
/// and no further than the last column and row.
pub open spec fn mask_texel(w: int, h: int, dw: int, dh: int, x: int, y: int) -> (int, int) {
    let (x0, y0, rw, rh) = mask_region(w, h, dw, dh);
    if fits_width(w, h, dw, dh) {
        (min_int(((x - x0) * w) / dw, w - 1), min_int(((y - y0) * w) / dw, h - 1))
    } else {
        (min_int(((x - x0) * h) / dh, w - 1), min_int(((y - y0) * h) / dh, h - 1))
    }
}

/// What the mask `m` shows at the pixel `(x, y)` of a display of `dw` by
/// `dh` pixels: the cell under the pixel, and `false` off the scaled mask or
/// where the mask or the display has no area.
pub open spec fn sample_mask(m: MaskView, x: int, y: int, dw: int, dh: int) -> bool {
    if m.width <= 0 || m.height <= 0 || dw <= 0 || dh <= 0 {
        false
    } else if !in_mask_region(m.width, m.height, dw, dh, x, y) {
        false
    } else {
        let (tx, ty) = mask_texel(m.width, m.height, dw, dh, x, y);
        m.cells[ty * m.width + tx]
    }
}

/// The scaled mask lies within the display.
pub proof fn lemma_region_in_display(w: int, h: int, dw: int, dh: int)
    requires
        0 < w,
        0 < h,
        0 < dw,
        0 < dh,
    ensures
        ({
            let (x0, y0, rw, rh) = mask_region(w, h, dw, dh);
            0 <= x0 && 0 <= y0 && 0 <= rw && 0 <= rh && x0 + rw <= dw && y0 + rh <= dh
        }),
{
    if fits_width(w, h, dw, dh) {
        assert(0 <= (h * dw) / w <= dh) by (nonlinear_arith)
            requires
                0 < w,
                0 < h,
                0 < dw,
                0 < dh,
                w * dh > h * dw,
        ;
    } else {
        assert(0 <= (w * dh) / h <= dw) by (nonlinear_arith)
            requires
                0 < w,
                0 < h,
                0 < dw,
                0 < dh,
                w * dh <= h * dw,
        ;
    }
}

/// The cell under a pixel is a cell of the mask.
pub proof fn lemma_texel_in_mask(w: int, h: int, dw: int, dh: int, x: int, y: int)
    requires
        0 < w,
        0 < h,
        0 < dw,
        0 < dh,
        in_mask_region(w, h, dw, dh, x, y),
    ensures
        0 <= mask_texel(w, h, dw, dh, x, y).0 < w,
        0 <= mask_texel(w, h, dw, dh, x, y).1 < h,
        0 <= mask_texel(w, h, dw, dh, x, y).1 * w + mask_texel(w, h, dw, dh, x, y).0 < w * h,
{
    let (x0, y0, rw, rh) = mask_region(w, h, dw, dh);
    let (tx, ty) = mask_texel(w, h, dw, dh, x, y);
    let ax = x - x0;
    let ay = y - y0;
    if fits_width(w, h, dw, dh) {
        assert(0 <= (ax * w) / dw && 0 <= (ay * w) / dw) by (nonlinear_arith)
            requires
                0 <= ax,
                0 <= ay,
                0 < w,
                0 < dw,
        ;
    } else {
        assert(0 <= (ax * h) / dh && 0 <= (ay * h) / dh) by (nonlinear_arith)
            requires
                0 <= ax,
                0 <= ay,
                0 < h,
                0 < dh,
        ;
    }
    assert(0 <= ty * w + tx < w * h) by (nonlinear_arith)
        requires
            0 <= tx < w,
            0 <= ty < h,
    ;
}

/// Off the scaled mask every sample is `false`.
pub proof fn lemma_outside_is_false(m: MaskView, x: int, y: int, dw: int, dh: int)
    requires
        !in_mask_region(m.width, m.height, dw, dh, x, y),
    ensures
        !sample_mask(m, x, y, dw, dh),
{
}

/// On the scaled mask the sample depends on the cell alone: two pixels, of
/// displays of any two resolutions, that fall on the same cell show the same.
pub proof fn lemma_same_texel_same_sample(
    m: MaskView,
    x1: int,
    y1: int,
    dw1: int,
    dh1: int,
    x2: int,
    y2: int,
    dw2: int,
    dh2: int,
)
    requires
        0 < m.width,
        0 < m.height,
        0 < dw1 && 0 < dh1 && 0 < dw2 && 0 < dh2,
        in_mask_region(m.width, m.height, dw1, dh1, x1, y1),
        in_mask_region(m.width, m.height, dw2, dh2, x2, y2),
        mask_texel(m.width, m.height, dw1, dh1, x1, y1) == mask_texel(
            m.width,
            m.height,
            dw2,
            dh2,
            x2,
            y2,
        ),
    ensures
        sample_mask(m, x1, y1, dw1, dh1) == sample_mask(m, x2, y2, dw2, dh2),
{
}

/// On a display of the mask's own size every pixel shows its own cell.
pub proof fn lemma_native_resolution(m: MaskView, x: int, y: int)
    requires
        0 <= x < m.width,
        0 <= y < m.height,
    ensures
        sample_mask(m, x, y, m.width, m.height) == m.cells[y * m.width + x],
{
    let w = m.width;
    let h = m.height;
    assert(w * h == h * w) by (nonlinear_arith);
    assert((w * h) / h == w) by (nonlinear_arith)
        requires
            0 < h,
    ;
    assert((x * h) / h == x) by (nonlinear_arith)
        requires
            0 < h,
    ;
    assert((y * h) / h == y) by (nonlinear_arith)
        requires
            0 < h,
    ;
    assert(mask_region(w, h, w, h) == (0int, 0int, w, h));
    assert(mask_texel(w, h, w, h, x, y) == (x, y));
}

/// What decoding the bytes of a PNG file and converting the image to 8-bit
/// luma yields: width, height and one luma value per pixel, row by row; or
/// nothing where the bytes do not decode.
pub uninterp spec fn png_luma(bytes: Seq<u8>) -> Option<(u32, u32, Seq<u8>)>;

/// The error type of the image decoder.
#[verifier::external_type_specification]
#[verifier::external_body]
pub struct ExImageError(image::ImageError);

/// Calls `image::load_from_memory_with_format` with the PNG format, then
/// `DynamicImage::to_luma8`, and hands out the grey image's dimensions and
/// its pixels in order. The contract gives the outcome its name, `png_luma`,
/// since decoding is a function of the bytes; and it claims that a decoded
/// image comes with one luma value for each of its pixels, which is how the
/// image buffer hands its pixels out.
#[verifier::external_body]
fn decode_png_luma(bytes: &[u8]) -> (res: Result<(u32, u32, Vec<u8>), image::ImageError>)
    ensures
        match res {
            Ok(img) => png_luma(bytes@) == Some((img.0, img.1, img.2@)) && img.2@.len() == img.0
                * img.1,
            Err(_) => png_luma(bytes@) is None,
        },
{
    let gray = image::load_from_memory_with_format(bytes, image::ImageFormat::Png)?.to_luma8();
    let (width, height) = gray.dimensions();
    Ok((width, height, gray.pixels().map(|p| p.0[0]).collect()))
}

/// The cells that a sequence of luma values thresholds to.
pub open spec fn threshold_cells(luma: Seq<u8>) -> Seq<bool> {
    Seq::new(luma.len(), |i: int| luma[i] > LUMA_THRESHOLD)
}

/// The mask that `width`, `height` and `luma` make, if the sizes agree.
pub open spec fn mask_of_luma(width: u32, height: u32, luma: Seq<u8>) -> Option<MaskView> {
    if luma.len() == width * height {
        Some(MaskView { width: width as int, height: height as int, cells: threshold_cells(luma) })
    } else {
        None
    }
}

/// A binary mask of `width` by `height` cells.
pub struct NoiseTexture {
    width: u32,
    height: u32,
    data: Vec<bool>,
}

impl View for NoiseTexture {
    type V = MaskView;

    closed spec fn view(&self) -> MaskView {
        MaskView { width: self.width as int, height: self.height as int, cells: self.data@ }
    }
}

impl NoiseTexture {
    #[verifier::type_invariant]
    spec fn inv(self) -> bool {
        self.data@.len() == self.width * self.height
    }

    /// Makes a mask from the luma values of an image, row by row: a cell is
    /// set where the luma exceeds the threshold. Fails exactly when the
    /// number of values is not `width * height`.
    pub fn from_luma(width: u32, height: u32, luma: Vec<u8>) -> (res: Result<
        NoiseTexture,
        NoiseError,
    >)
        ensures
            match mask_of_luma(width, height, luma@) {
                Some(m) => res matches Ok(t) && t@ == m && m.wf(),
                None => res == Err::<NoiseTexture, NoiseError>(NoiseError::SizeMismatch),
            },
    {
        let n: usize = luma.len();
        proof {
            lemma_product_fits(width as u64, height as u64);
        }
        if n as u64 != width as u64 * height as u64 {
            return Err(NoiseError::SizeMismatch);
        }
        let mut data: Vec<bool> = Vec::new();
        let mut i: usize = 0;
        while i < n
            invariant
                i <= n,
                n == luma@.len(),
                data@.len() == i,
                forall|j: int| 0 <= j < i ==> data@[j] == (luma@[j] > LUMA_THRESHOLD),
            decreases n - i,
        {
            data.push(luma[i] > LUMA_THRESHOLD);
            i = i + 1;
        }
        assert(data@ =~= threshold_cells(luma@));
        Ok(NoiseTexture { width, height, data })
    }

    /// Makes a mask from the bytes of a PNG file: the image is converted to
    /// 8-bit luma and thresholded. Succeeds exactly when the bytes decode,
    /// and fails with `Decode` otherwise.
    pub fn load_from_file(bytes: &[u8]) -> (res: Result<NoiseTexture, NoiseError>)
        ensures
            match png_luma(bytes@) {
                Some((width, height, luma)) => res matches Ok(t) && mask_of_luma(
                    width,
                    height,
                    luma,
                ) == Some(t@) && t@.wf(),
                None => res == Err::<NoiseTexture, NoiseError>(NoiseError::Decode),
            },
    {
        match decode_png_luma(bytes) {
            Ok((width, height, luma)) => Self::from_luma(width, height, luma),
            Err(_) => Err(NoiseError::Decode),
        }
    }

    /// Width of the mask in cells.
    pub fn width(&self) -> (w: u32)
        ensures
            w == self@.width,
    {
        self.width
    }

    /// Height of the mask in cells.
    pub fn height(&self) -> (h: u32)
        ensures
            h == self@.height,
    {
        self.height
    }

    /// Samples the mask at the pixel `(display_x, display_y)` of a display
    /// of `display_width` by `display_height` pixels. The mask is scaled
    /// uniformly to fit the display and centred; off the scaled mask the
    /// sample is `false`.
    pub fn sample(&self, display_x: u32, display_y: u32, display_width: u32, display_height: u32)
        -> (set: bool)
        ensures
            self@.wf(),
            set == sample_mask(
                self@,
                display_x as int,
                display_y as int,
                display_width as int,
                display_height as int,
            ),
            !in_mask_region(
                self@.width,
                self@.height,
                display_width as int,
                display_height as int,
                display_x as int,
                display_y as int,
            ) ==> !set,
    {
        proof {
            use_type_invariant(self);
        }
        if self.width == 0 || self.height == 0 || display_width == 0 || display_height == 0 {
            return false;
        }
        let w: u64 = self.width as u64;
        let h: u64 = self.height as u64;
        let dw: u64 = display_width as u64;
        let dh: u64 = display_height as u64;
        let x: u64 = display_x as u64;
        let y: u64 = display_y as u64;
        proof {
            lemma_region_in_display(w as int, h as int, dw as int, dh as int);
            lemma_product_fits(w, dh);
            lemma_product_fits(h, dw);
        }
        let wide: bool = w * dh > h * dw;
        let (x0, y0, rw, rh): (u64, u64, u64, u64) = if wide {
            let rh: u64 = (h * dw) / w;
            (0, (dh - rh) / 2, dw, rh)
        } else {
            let rw: u64 = (w * dh) / h;
            ((dw - rw) / 2, 0, rw, dh)
        };
        if x < x0 || x >= x0 + rw || y < y0 || y >= y0 + rh {
            return false;
        }
        proof {
            lemma_texel_in_mask(w as int, h as int, dw as int, dh as int, x as int, y as int);
            lemma_product_fits((x - x0) as u64, w);
            lemma_product_fits((y - y0) as u64, w);
            lemma_product_fits((x - x0) as u64, h);
            lemma_product_fits((y - y0) as u64, h);
        }
        let (sx, sy): (u64, u64) = if wide {
            (((x - x0) * w) / dw, ((y - y0) * w) / dw)
        } else {
            (((x - x0) * h) / dh, ((y - y0) * h) / dh)
        };
        let tx: u64 = if sx <= w - 1 {
            sx
        } else {
            w - 1
        };
        let ty: u64 = if sy <= h - 1 {
            sy
        } else {
            h - 1
        };
        assert(ty * w + tx < w * h) by (nonlinear_arith)
            requires
                tx < w,
                ty < h,
        ;
        proof {
            lemma_product_fits(w, h);
        }
        let idx: u64 = ty * w + tx;
        assert(w * h == self.data@.len());
        let n: usize = self.data.len();
        assert(idx < n);
        self.data[idx as usize]
    }

    /// The mask as one byte per cell, row by row, for a single-channel
    /// texture: 255 for a set cell, 0 for a clear one.
    pub fn texture_bytes(&self) -> (bytes: Vec<u8>)
        ensures
            bytes@.len() == self@.cells.len(),
            forall|i: int|
                0 <= i < bytes@.len() ==> bytes@[i] == if self@.cells[i] {
                    255u8
                } else {
                    0u8
                },
    {
        let n: usize = self.data.len();
        let mut bytes: Vec<u8> = Vec::new();
        let mut i: usize = 0;
        while i < n
            invariant
                i <= n,
                n == self.data@.len(),
                bytes@.len() == i,
                forall|j: int|
                    0 <= j < i ==> bytes@[j] == if self.data@[j] {
                        255u8
                    } else {
                        0u8
                    },
            decreases n - i,
        {
            bytes.push(if self.data[i] { 255 } else { 0 });
            i = i + 1;
        }
        bytes
    }
}

/// The product of two 32-bit numbers fits 64 bits.
proof fn lemma_product_fits(a: u64, b: u64)
    requires
        a <= u32::MAX,
        b <= u32::MAX,
    ensures
        a * b <= 0xFFFF_FFFE_0000_0001,
{
    assert(a * b <= 0xFFFF_FFFE_0000_0001) by (nonlinear_arith)
        requires
            a <= 0xFFFF_FFFF,
            b <= 0xFFFF_FFFF,
    ;
}

} // verus!
