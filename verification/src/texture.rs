//! Textures: a rectangle of RGBA texels.

use vstd::prelude::*;

verus! {

/// The colour word of four channel bytes: alpha, red, green, blue, from the
/// highest byte down.
pub open spec fn pack_rgba(r: u8, g: u8, b: u8, a: u8) -> u32 {
    (a as u32 * 0x100_0000 + r as u32 * 0x1_0000 + g as u32 * 0x100 + b as u32) as u32
}

/// Whether a texture has texels and holds four bytes for each of them.
pub open spec fn texture_valid(width: usize, height: usize, data: Seq<u8>) -> bool {
    width > 0 && height > 0 && data.len() == width * height * 4
}

/// The colour word of the texel in column `x` of row `y`.
pub open spec fn texel_at(width: usize, data: Seq<u8>, x: int, y: int) -> u32 {
    let i = (y * width + x) * 4;
    pack_rgba(data[i], data[i + 1], data[i + 2], data[i + 3])
}

/// The four bytes of a texel, red first, packed into one colour word.
pub fn rgba_to_u32(rgba: [u8; 4]) -> (c: u32)
    ensures
        c == pack_rgba(rgba[0], rgba[1], rgba[2], rgba[3]),
{
    let r = rgba[0];
    let g = rgba[1];
    let b = rgba[2];
    let a = rgba[3];
    assert(((a as u32) << 24) | ((r as u32) << 16) | ((g as u32) << 8) | (b as u32) == (a as u32
        * 0x100_0000 + r as u32 * 0x1_0000 + g as u32 * 0x100 + b as u32) as u32) by (bit_vector);
    ((a as u32) << 24) | ((r as u32) << 16) | ((g as u32) << 8) | (b as u32)
}

/// A decoded image of the `image` crate. The library looks into it only
/// through the two functions below.
#[verifier::external_type_specification]
#[verifier::external_body]
pub struct ExDynamicImage(image::DynamicImage);

/// The width and the height that a decoded image has: what
/// `image::GenericImageView::dimensions` returns for it.
pub uninterp spec fn image_size(img: image::DynamicImage) -> (usize, usize);

/// The pixels that a decoded image holds, as bytes of red, green, blue and
/// alpha: what `image::DynamicImage::to_rgba8` returns for it, taken out of
/// its buffer.
pub uninterp spec fn image_bytes(img: image::DynamicImage) -> Seq<u8>;

/// Width and height of a decoded image, as `image::GenericImageView::dimensions`
/// gives them. The contract gives the two numbers their name and claims
/// nothing else of them: they are read from the image and depend on
/// nothing but the image.
#[verifier::external_body]
fn image_dimensions(img: &image::DynamicImage) -> (r: (usize, usize))
    ensures
        r == image_size(*img),
{
    let (width, height) = image::GenericImageView::dimensions(img);
    (width as usize, height as usize)
}

/// The pixels of a decoded image as bytes, red, green, blue and alpha, as
/// `image::DynamicImage::to_rgba8` gives them; its buffer is handed over by
/// `into_raw`. The contract gives the bytes their name and claims one
/// thing more: there are at least four of them for each pixel. The crate
/// makes no image buffer whose container is shorter than that
/// (`ImageBuffer::from_raw` refuses one, `ImageBuffer::new` allocates just
/// as many), while the container may well be longer. The conversion
/// depends on nothing but the image.
#[verifier::external_body]
fn image_rgba(img: &image::DynamicImage) -> (r: Vec<u8>)
    ensures
        r@ == image_bytes(*img),
        image_size(*img).0 * image_size(*img).1 * 4 <= r@.len(),
{
    img.to_rgba8().into_raw()
}

/// Why an image did not become a texture.
#[derive(Clone, Copy, Debug, PartialEq, Eq)]
pub enum TextureError {
    /// There are fewer than four bytes for each texel.
    TruncatedData,
}

/// What [`Texture::from_rgba`] makes of a size and of bytes: a texture of
/// that size with the bytes that its texels need, where there are enough.
pub open spec fn texture_from_rgba(width: usize, height: usize, data: Seq<u8>) -> Result<
    (usize, usize, Seq<u8>),
    TextureError,
> {
    if width * height * 4 <= data.len() {
        Ok((width, height, data.take(width * height * 4)))
    } else {
        Err(TextureError::TruncatedData)
    }
}

/// An image to paint triangles with, row by row, four bytes to a texel.
#[derive(Debug, Clone)]
pub struct Texture {
    pub width: usize,
    pub height: usize,
    /// Red, green, blue and alpha of each texel.
    pub data: Vec<u8>,
}

impl Texture {
    /// A texture of the given parts, as they are.
    pub fn new(width: usize, height: usize, data: Vec<u8>) -> (t: Texture)
        ensures
            t.width == width,
            t.height == height,
            t.data@ == data@,
    {
        Texture { width, height, data }
    }

    /// A texture of the given size from bytes of red, green, blue and
    /// alpha. Bytes beyond those that the texels need are dropped.
    pub fn from_rgba(width: usize, height: usize, data: Vec<u8>) -> (r: Result<
        Texture,
        TextureError,
    >)
        ensures
            match r {
                Ok(t) => texture_from_rgba(width, height, data@) == Ok::<
                    (usize, usize, Seq<u8>),
                    TextureError,
                >((t.width, t.height, t.data@)),
                Err(e) => texture_from_rgba(width, height, data@) == Err::<
                    (usize, usize, Seq<u8>),
                    TextureError,
                >(e),
            },
    {
        let w: u128 = width as u128;
        let h: u128 = height as u128;
        assert(w * h <= 0xffff_ffff_ffff_ffff * 0xffff_ffff_ffff_ffff) by (nonlinear_arith)
            requires
                w <= 0xffff_ffff_ffff_ffff,
                h <= 0xffff_ffff_ffff_ffff,
        ;
        let n = data.len();
        if w * h > (n / 4) as u128 {
            return Err(TextureError::TruncatedData);
        }
        let needed: usize = (w * h) as usize * 4;
        let mut data = data;
        data.truncate(needed);
        Ok(Texture { width, height, data })
    }

    /// The texture of a decoded image: of the size of the image, with the
    /// bytes that the image holds for its pixels. Bytes beyond those that
    /// the texels need are dropped, so the texture has four bytes for each
    /// of its texels. Every image has enough bytes, so this never fails.
    pub fn from_image(img: &image::DynamicImage) -> (r: Result<Texture, TextureError>)
        ensures
            r.is_ok(),
            match r {
                Ok(t) => {
                    &&& texture_from_rgba(
                        image_size(*img).0,
                        image_size(*img).1,
                        image_bytes(*img),
                    ) == Ok::<(usize, usize, Seq<u8>), TextureError>((t.width, t.height, t.data@))
                    &&& t.data@.len() == t.width * t.height * 4
                },
                Err(e) => texture_from_rgba(
                    image_size(*img).0,
                    image_size(*img).1,
                    image_bytes(*img),
                ) == Err::<(usize, usize, Seq<u8>), TextureError>(e),
            },
    {
        let (width, height) = image_dimensions(img);
        let data = image_rgba(img);
        Texture::from_rgba(width, height, data)
    }

    /// The place of this texture in memory, to tell textures apart while
    /// they live. Calls `std::ptr::from_ref`; nothing is claimed of the number.
    #[verifier::external_body]
    pub fn id(&self) -> usize {
        std::ptr::from_ref(self) as usize
    }

    /// The bytes of the texels.
    pub fn data_as_u8_slice(&self) -> (s: &[u8])
        ensures
            s@ == self.data@,
    {
        self.data.as_slice()
    }

    /// The number of texels in a row.
    pub fn width(&self) -> (w: usize)
        ensures
            w == self.width,
    {
        self.width
    }

    /// The number of rows.
    pub fn height(&self) -> (h: usize)
        ensures
            h == self.height,
    {
        self.height
    }

    /// Whether the texture can be sampled.
    pub fn is_valid(&self) -> (ok: bool)
        ensures
            ok == texture_valid(self.width, self.height, self.data@),
    {
        if self.width == 0 || self.height == 0 {
            return false;
        }
        let w: u128 = self.width as u128;
        let h: u128 = self.height as u128;
        assert(w * h <= 0xffff_ffff_ffff_ffff * 0xffff_ffff_ffff_ffff) by (nonlinear_arith)
            requires
                w <= 0xffff_ffff_ffff_ffff,
                h <= 0xffff_ffff_ffff_ffff,
        ;
        let n = self.data.len();
        n % 4 == 0 && (n / 4) as u128 == w * h
    }

    /// The colour word of the texel in column `x` of row `y`, where there is one.
    pub fn texel(&self, x: usize, y: usize) -> (c: Option<u32>)
        ensures
            c == if texture_valid(self.width, self.height, self.data@) && x < self.width && y
                < self.height {
                Some(texel_at(self.width, self.data@, x as int, y as int))
            } else {
                None
            },
    {
        if !self.is_valid() || x >= self.width || y >= self.height {
            return None;
        }
        let w = self.width;
        assert(0 <= y * w && (y * w + x) * 4 + 3 < w * self.height * 4) by (nonlinear_arith)
            requires
                0 <= x < w,
                0 <= y < self.height,
        {
            assert((y + 1) * w <= self.height * w);
        }
        let n = self.data.len();
        assert((y * w + x) * 4 + 3 < n);
        let i = (y * w + x) * 4;
        Some(rgba_to_u32([self.data[i], self.data[i + 1], self.data[i + 2], self.data[i + 3]]))
    }
}

} // verus!
