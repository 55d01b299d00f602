//! Textures: a grid of colours, sampled at fixed-point coordinates.

use vstd::prelude::*;
use crate::arith::{clamp, lemma_floor_div_bounds, lemma_mul_bounds};
use crate::color::Color;

verus! {

/// The texture coordinate that stands for one: coordinates run from `0`
/// up to, not including, `TEX_ONE` across a texture.
pub const TEX_ONE: i64 = 0x1_0000;

/// The mathematical content of a texture: its colours row by row.
pub struct TextureGrid {
    pub width: int,
    pub height: int,
    pub texels: Seq<Color>,
}

impl TextureGrid {
    /// The texture has a colour for every texel, and at least one texel.
    pub open spec fn wf(self) -> bool {
        &&& 0 < self.width
        &&& 0 < self.height
        &&& self.texels.len() == self.width * self.height
    }

    /// The column or row that the coordinate `t` falls in, of `n` columns
    /// or rows: `t * n / TEX_ONE` rounded down, held to the texture.
    pub open spec fn cell(t: int, n: int) -> int {
        clamp((t * n) / (TEX_ONE as int), 0, n - 1)
    }

    /// The colour at the texture coordinates `(u, v)`.
    pub open spec fn sample(self, u: int, v: int) -> Color {
        self.texels[Self::cell(v, self.height) * self.width + Self::cell(u, self.width)]
    }
}

/// A texture.
pub struct Texture {
    height: usize,
    width: usize,
    texture: Vec<Color>,
}

impl View for Texture {
    type V = TextureGrid;

    closed spec fn view(&self) -> TextureGrid {
        TextureGrid {
            width: self.width as int,
            height: self.height as int,
            texels: self.texture@,
        }
    }
}

/// The colours that a run of bytes holds, three bytes to a colour: red,
/// green, blue.
pub open spec fn texels_of(data: Seq<u8>) -> Seq<Color> {
    Seq::new(
        (data.len() / 3) as nat,
        |i: int| Color { red: data[3 * i], green: data[3 * i + 1], blue: data[3 * i + 2] },
    )
}

impl Texture {
    #[verifier::type_invariant]
    closed spec fn inv(self) -> bool {
        self@.wf()
    }

    /// A texture of `width` by `height` texels from the bytes of an RGB
    /// image, three bytes to a texel, row by row. `None` where the texture
    /// would have no texel or the bytes are not as many as it needs.
    pub fn from_rgb8(width: usize, height: usize, data: &Vec<u8>) -> (r: Option<Texture>)
        ensures
            r.is_some() <==> (width > 0 && height > 0 && data@.len() == 3 * (width * height)),
            r matches Some(t) ==> t@ == (TextureGrid {
                width: width as int,
                height: height as int,
                texels: texels_of(data@),
            }) && t@.wf(),
    {
        if width == 0 || height == 0 {
            return None;
        }
        let n = data.len();
        if n % 3 != 0 {
            assert(data@.len() != 3 * (width * height));
            return None;
        }
        let count: usize = n / 3;
        // `count == width * height`, tested without a product that overflows.
        if count / width != height || count % width != 0 {
            proof {
                if data@.len() == 3 * (width * height) {
                    assert(count == width * height);
                    vstd::arithmetic::div_mod::lemma_fundamental_div_mod_converse(
                        count as int,
                        width as int,
                        height as int,
                        0,
                    );
                    assert(false);
                }
            }
            return None;
        }
        proof {
            vstd::arithmetic::div_mod::lemma_fundamental_div_mod(count as int, width as int);
            assert(width * (count / width) == width * height) by (nonlinear_arith)
                requires
                    count / width == height,
            ;
        }
        let mut texture: Vec<Color> = Vec::new();
        let mut i: usize = 0;
        while i < count
            invariant
                i <= count,
                count == n / 3,
                n % 3 == 0,
                n == data@.len(),
                texture@.len() == i,
                forall|j: int| 0 <= j < i ==> texture@[j] == texels_of(data@)[j],
            decreases count - i,
        {
            texture.push(Color::cons(data[3 * i], data[3 * i + 1], data[3 * i + 2]));
            i += 1;
        }
        assert(texture@ =~= texels_of(data@));
        Some(Texture { height, width, texture })
    }

    /// A texture from the bytes of an image file. `None` where the bytes
    /// are no image that can be read, or an image without pixels.
    pub fn decode(data: &Vec<u8>) -> (r: Option<Texture>)
        ensures
            r matches Some(t) ==> t@.wf(),
    {
        match decode_rgb8(data) {
            Some((width, height, raw)) => Texture::from_rgb8(width, height, &raw),
            None => None,
        }
    }

    pub fn width(&self) -> (w: usize)
        ensures
            w == self@.width,
            self@.wf(),
    {
        proof {
            use_type_invariant(self);
        }
        self.width
    }

    pub fn height(&self) -> (h: usize)
        ensures
            h == self@.height,
            self@.wf(),
    {
        proof {
            use_type_invariant(self);
        }
        self.height
    }

    /// The colour at the texture coordinates `(x, y)`, each held to the
    /// texture.
    pub fn get_at(&self, x: i64, y: i64) -> (c: Color)
        ensures
            c == self@.sample(x as int, y as int),
    {
        proof {
            use_type_invariant(self);
        }
        let nx: usize = cell_of(x, self.width);
        let ny: usize = cell_of(y, self.height);
        let len = self.texture.len();
        proof {
            assert(ny * self.width + nx < self.width * self.height) by (nonlinear_arith)
                requires
                    0 <= nx < self.width,
                    0 <= ny < self.height,
            ;
            assert(0 <= ny * self.width) by (nonlinear_arith)
                requires
                    0 <= ny,
                    0 <= self.width,
            ;
        }
        self.texture[ny * self.width + nx]
    }
}

/// Decodes an image held in memory into its width, its height and its
/// pixels as rows of RGB bytes. It calls `image::load_from_memory` and, on
/// the image that this returns, `to_rgb8`, `dimensions` and `into_raw`.
/// `None` stands for every error of the decoder. The decoders choose their
/// arithmetic by the machine they run on, so nothing is claimed of what
/// comes back.
#[verifier::external_body]
fn decode_rgb8(data: &Vec<u8>) -> Option<(usize, usize, Vec<u8>)> {
    let image = image::load_from_memory(data.as_slice()).ok()?.to_rgb8();
    let (width, height) = image.dimensions();
    Some((width as usize, height as usize, image.into_raw()))
}

/// The column or row that the coordinate `t` falls in, of `n`.
fn cell_of(t: i64, n: usize) -> (r: usize)
    requires
        n > 0,
    ensures
        r == TextureGrid::cell(t as int, n as int),
        r < n,
{
    if t <= 0 {
        proof {
            assert(t * n <= 0) by (nonlinear_arith)
                requires
                    t <= 0,
                    n > 0,
            ;
            lemma_floor_div_bounds(t * n, TEX_ONE as int);
        }
        0
    } else if t >= TEX_ONE {
        proof {
            assert(t * n >= TEX_ONE * n) by (nonlinear_arith)
                requires
                    t >= TEX_ONE,
                    n > 0,
            ;
            lemma_floor_div_bounds(t * n, TEX_ONE as int);
            let q = (t * n) / (TEX_ONE as int);
            if q < n {
                assert(q * TEX_ONE + TEX_ONE <= n * TEX_ONE) by (nonlinear_arith)
                    requires
                        q + 1 <= n,
                ;
                assert(n * TEX_ONE == TEX_ONE * n) by (nonlinear_arith);
            }
        }
        n - 1
    } else {
        proof {
            lemma_mul_bounds(t as int, n as int, 0x1_0000, 0xffff_ffff_ffff_ffff);
            assert(0 <= t * n) by (nonlinear_arith)
                requires
                    t >= 0,
                    n >= 0,
            ;
            assert(t * n < TEX_ONE * n) by (nonlinear_arith)
                requires
                    t < TEX_ONE,
                    n > 0,
            ;
            lemma_floor_div_bounds(t * n, TEX_ONE as int);
            let q = (t * n) / (TEX_ONE as int);
            if q >= n {
                assert(q * TEX_ONE >= n * TEX_ONE) by (nonlinear_arith)
                    requires
                        q >= n,
                ;
                assert(n * TEX_ONE == TEX_ONE * n) by (nonlinear_arith);
            }
            if q < 0 {
                assert(q * TEX_ONE + TEX_ONE <= 0) by (nonlinear_arith)
                    requires
                        q + 1 <= 0,
                ;
            }
        }
        let scaled: u128 = ((t as u128) * (n as u128)) / (TEX_ONE as u128);
        scaled as usize
    }
}

} // verus!
