//! What the render pipeline is fed with: the lookup tables and the mask of a
//! session with the parameters of its shader, and the test pattern that
//! stands in for the display where there is nothing to capture.

use vstd::prelude::*;
use vstd::arithmetic::div_mod::lemma_fundamental_div_mod_converse;
use crate::spectrum::{
    ColorSample, SpectrumError, is_lookup_table, table_fault, first_fault_of, lemma_valid_has_table,
};
use crate::overlay::OverlayState;

verus! {

/// Entries of a lookup table: one for each degree of input hue.
pub const SPECTRUM_RESOLUTION: usize = 360;

/// The constants of the shader, as its uniform block lays them out.
#[derive(Clone, Copy, Debug, PartialEq, Eq, Structural)]
pub struct SpectrumParams {
    /// Blend strength in millionths.
    pub strength: i64,
    /// One where a secondary spectrum is bound, else zero.
    pub use_dual_spectrum: i32,
    /// One where a mask is bound, else zero.
    pub use_noise_texture: i32,
}

/// The textures of a session.
pub struct SessionTextures {
    /// Lookup table of the primary spectrum.
    pub spectrum1: Vec<ColorSample>,
    /// Lookup table of the secondary spectrum, in dual mode.
    pub spectrum2: Option<Vec<ColorSample>>,
    /// Width, height and bytes of the mask texture, where a mask is used.
    pub noise: Option<(u32, u32, Vec<u8>)>,
    /// The constants of the shader.
    pub params: SpectrumParams,
}

/// One for `true`, zero for `false`.
pub open spec fn flag(b: bool) -> i32 {
    if b {
        1i32
    } else {
        0i32
    }
}

/// Whether `textures` are the textures of the session `state`: the lookup
/// table of each spectrum at one entry per degree, the mask as one byte per
/// cell (255 for a set cell, 0 for a clear one), and the shader's constants.
pub open spec fn is_session_textures(state: OverlayState, textures: SessionTextures) -> bool {
    &&& is_lookup_table(
        state.spectrum_pair.spectrum1.nodes@,
        textures.spectrum1@,
        SPECTRUM_RESOLUTION as int,
    )
    &&& match state.spectrum_pair.spectrum2 {
        Some(second) => textures.spectrum2 matches Some(table) && is_lookup_table(
            second.nodes@,
            table@,
            SPECTRUM_RESOLUTION as int,
        ),
        None => textures.spectrum2 is None,
    }
    &&& match state.noise_texture {
        Some(mask) => textures.noise matches Some((width, height, bytes)) && width == mask@.width
            && height == mask@.height && bytes@.len() == mask@.cells.len() && forall|i: int|
            0 <= i < bytes@.len() ==> bytes@[i] == if mask@.cells[i] {
                255u8
            } else {
                0u8
            },
        None => textures.noise is None,
    }
    &&& textures.params == (SpectrumParams {
        strength: state.hue_mapper.strength,
        use_dual_spectrum: flag(state.spectrum_pair.spectrum2 is Some),
        use_noise_texture: flag(state.noise_texture is Some),
    })
}

impl OverlayState {
    /// The constants of the session's shader.
    pub fn shader_params(&self) -> (params: SpectrumParams)
        ensures
            params == (SpectrumParams {
                strength: self.hue_mapper.strength,
                use_dual_spectrum: flag(self.spectrum_pair.spectrum2 is Some),
                use_noise_texture: flag(self.noise_texture is Some),
            }),
    {
        SpectrumParams {
            strength: self.hue_mapper.get_strength(),
            use_dual_spectrum: if self.spectrum_pair.has_dual_spectrum() {
                1
            } else {
                0
            },
            use_noise_texture: if self.noise_texture.is_some() {
                1
            } else {
                0
            },
        }
    }

    /// Why the session has no textures, if it has none: the lookup table of
    /// the primary spectrum cannot be made, or else that of the secondary.
    pub open spec fn textures_fault(&self) -> Option<SpectrumError> {
        first_fault_of(
            table_fault(self.spectrum_pair.spectrum1.nodes@, SPECTRUM_RESOLUTION as int),
            match self.spectrum_pair.spectrum2 {
                Some(second) => table_fault(second.nodes@, SPECTRUM_RESOLUTION as int),
                None => None,
            },
        )
    }

    /// The textures of the session. Fails exactly where a lookup table
    /// cannot be made, the primary one first; never for a session whose
    /// spectra are valid, as those that `finish_start` hands out are.
    pub fn textures(&self) -> (res: Result<SessionTextures, SpectrumError>)
        ensures
            match self.textures_fault() {
                Some(e) => res matches Err(x) && x == e,
                None => res matches Ok(textures) && is_session_textures(*self, textures),
            },
            self.spectrum_pair.spec_valid() ==> res is Ok,
    {
        proof {
            if self.spectrum_pair.spec_valid() {
                lemma_valid_has_table(
                    self.spectrum_pair.spectrum1.nodes@,
                    SPECTRUM_RESOLUTION as int,
                );
                if self.spectrum_pair.spectrum2 is Some {
                    lemma_valid_has_table(
                        self.spectrum_pair.spectrum2->0.nodes@,
                        SPECTRUM_RESOLUTION as int,
                    );
                }
            }
        }
        let spectrum1 = match self.spectrum_pair.spectrum1.get_rgb_lookup_table(SPECTRUM_RESOLUTION) {
            Ok(table) => table,
            Err(e) => {
                return Err(e);
            },
        };
        let spectrum2 = match &self.spectrum_pair.spectrum2 {
            Some(second) => match second.get_rgb_lookup_table(SPECTRUM_RESOLUTION) {
                Ok(table) => Some(table),
                Err(e) => {
                    return Err(e);
                },
            },
            None => None,
        };
        let noise = match &self.noise_texture {
            Some(mask) => Some((mask.width(), mask.height(), mask.texture_bytes())),
            None => None,
        };
        Ok(SessionTextures { spectrum1, spectrum2, noise, params: self.shader_params() })
    }
}

/// Byte `k` of the test pattern of `width` by `height` pixels. A pixel is
/// four bytes: blue is constant, green grows downwards, red grows to the
/// right, and alpha is full.
pub open spec fn pattern_byte(k: int, width: int, height: int) -> u8 {
    let pixel = k / 4;
    let x = pixel % width;
    let y = pixel / width;
    let channel = k % 4;
    if channel == 0 {
        128u8
    } else if channel == 1 {
        ((y * 255) / height) as u8
    } else if channel == 2 {
        ((x * 255) / width) as u8
    } else {
        255u8
    }
}

/// The test pattern of `width` by `height` pixels.
pub open spec fn pattern(width: int, height: int) -> Seq<u8> {
    Seq::new((width * height * 4) as nat, |k: int| pattern_byte(k, width, height))
}

/// The test pattern of `width` by `height` pixels, four bytes per pixel, row
/// by row; `None` exactly where it would not fit this machine's memory.
pub fn test_pattern(width: u32, height: u32) -> (pixels: Option<Vec<u8>>)
    ensures
        match pixels {
            Some(bytes) => bytes@ == pattern(width as int, height as int),
            None => width * height * 4 > usize::MAX,
        },
{
    assert(width * height <= 0xFFFF_FFFFu64 * 0xFFFF_FFFFu64) by (nonlinear_arith)
        requires
            width <= 0xFFFF_FFFFu32,
            height <= 0xFFFF_FFFFu32,
    ;
    let total: u128 = width as u128 * height as u128 * 4;
    if total > usize::MAX as u128 {
        return None;
    }
    let w: usize = width as usize;
    let h: usize = height as usize;
    let mut bytes: Vec<u8> = Vec::new();
    let mut y: usize = 0;
    while y < h
        invariant
            y <= h,
            w == width,
            h == height,
            w * h * 4 <= usize::MAX,
            bytes@.len() == y * w * 4,
            forall|k: int| 0 <= k < bytes@.len() ==> bytes@[k] == pattern_byte(k, w as int, h as int),
        decreases h - y,
    {
        assert((y * 255) / (h as int) < 255) by (nonlinear_arith)
            requires
                0 <= y < h,
        ;
        let green: u8 = ((y as u64 * 255) / (h as u64)) as u8;
        let mut x: usize = 0;
        while x < w
            invariant
                x <= w,
                y < h,
                w <= u32::MAX,
                h <= u32::MAX,
                w * h * 4 <= usize::MAX,
                green == (y * 255) / (h as int),
                bytes@.len() == (y * w + x) * 4,
                forall|k: int|
                    0 <= k < bytes@.len() ==> bytes@[k] == pattern_byte(k, w as int, h as int),
            decreases w - x,
        {
            assert((x * 255) / (w as int) < 255) by (nonlinear_arith)
                requires
                    0 <= x < w,
            ;
            let red: u8 = ((x as u64 * 255) / (w as u64)) as u8;
            proof {
                let p = y * w + x;
                lemma_fundamental_div_mod_converse(p, w as int, y as int, x as int);
                lemma_fundamental_div_mod_converse(p * 4, 4, p, 0);
                lemma_fundamental_div_mod_converse(p * 4 + 1, 4, p, 1);
                lemma_fundamental_div_mod_converse(p * 4 + 2, 4, p, 2);
                lemma_fundamental_div_mod_converse(p * 4 + 3, 4, p, 3);
                assert((y * w + x + 1) * 4 <= w * h * 4) by (nonlinear_arith)
                    requires
                        0 <= x < w,
                        0 <= y < h,
                ;
            }
            bytes.push(128);
            bytes.push(green);
            bytes.push(red);
            bytes.push(255);
            x = x + 1;
        }
        assert((y * w + w) * 4 == (y + 1) * w * 4) by (nonlinear_arith);
        y = y + 1;
    }
    assert(bytes@.len() == width * height * 4) by (nonlinear_arith)
        requires
            bytes@.len() == y * w * 4,
            y == height,
            w == width,
    ;
    assert(bytes@ =~= pattern(width as int, height as int));
    Some(bytes)
}

} // verus!
