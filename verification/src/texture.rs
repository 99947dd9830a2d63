//! Textures: decoded pixels with the layout of their upload, and the depth
//! buffer that goes with a surface.

use vstd::prelude::*;

verus! {

#[verifier::external_type_specification]
#[verifier::external_body]
pub struct ExImageError(image::ImageError);

/// Why a texture was refused.
#[derive(Clone, Copy, Debug, PartialEq, Eq)]
pub enum TextureError {
    /// The bytes are no image, or the pixels are no valid RGBA8 buffer.
    DecodeFailed,
}

/// An image as a decoder hands it over: RGBA8 pixels, row after row.
#[derive(Debug)]
pub struct DecodedImage {
    pub pixels: Vec<u8>,
    pub width: u32,
    pub height: u32,
}

/// The size of a texture in texels.
#[derive(Clone, Copy, Debug, PartialEq, Eq)]
pub struct Extent3d {
    pub width: u32,
    pub height: u32,
    pub depth_or_array_layers: u32,
}

/// How the rows of an image lie in the bytes that are uploaded.
#[derive(Clone, Copy, Debug, PartialEq, Eq)]
pub struct ImageDataLayout {
    pub offset: u64,
    pub bytes_per_row: u32,
    pub rows_per_image: u32,
}

/// The texel formats in use.
#[derive(Clone, Copy, Debug, PartialEq, Eq)]
pub enum TextureFormat {
    Rgba8UnormSrgb,
    Depth32Float,
}

/// A color image ready for upload.
#[derive(Debug)]
pub struct Texture {
    pixels: Vec<u8>,
    width: u32,
    height: u32,
}

/// The depth buffer of a surface of a given size.
#[derive(Clone, Copy, Debug, PartialEq, Eq)]
pub struct DepthTexture {
    pub width: u32,
    pub height: u32,
}

/// The pixels are a non-empty RGBA8 image of the given size whose rows can
/// be measured in 32 bits.
pub open spec fn valid_pixels(pixels: Seq<u8>, width: u32, height: u32) -> bool {
    &&& width > 0
    &&& height > 0
    &&& 4 * width <= u32::MAX
    &&& pixels.len() == 4 * width * height
}

/// Decodes an image file held in memory to RGBA8.
///
/// Trusted: the body is `image::load_from_memory` followed by
/// `DynamicImage::to_rgba8`, whose buffer and dimensions are handed on as they
/// are. Which pixels come out may differ from one machine to the next in the
/// last bit, so the contract claims only what `ImageBuffer` guarantees of
/// every image: four bytes for each pixel.
#[verifier::external_body]
fn decode_rgba8(bytes: &[u8]) -> (result: Result<DecodedImage, image::ImageError>)
    ensures
        result matches Ok(img) ==> img.pixels@.len() == 4 * img.width * img.height,
{
    match image::load_from_memory(bytes) {
        Ok(img) => {
            let rgba = img.to_rgba8();
            let (width, height) = rgba.dimensions();
            Ok(DecodedImage { pixels: rgba.into_raw(), width, height })
        },
        Err(e) => Err(e),
    }
}

impl Extent3d {
    /// The extent of a single two-dimensional layer.
    pub open spec fn flat(width: u32, height: u32) -> Extent3d {
        Extent3d { width, height, depth_or_array_layers: 1 }
    }
}

impl Texture {
    /// The RGBA8 pixels, row after row.
    pub closed spec fn pixel_image(&self) -> Seq<u8> {
        self.pixels@
    }

    /// Width in texels.
    pub closed spec fn spec_width(&self) -> u32 {
        self.width
    }

    /// Height in texels.
    pub closed spec fn spec_height(&self) -> u32 {
        self.height
    }

    /// What every texture satisfies.
    pub open spec fn wf(&self) -> bool {
        valid_pixels(self.pixel_image(), self.spec_width(), self.spec_height())
    }

    /// Accepts a decoded image as a texture.
    ///
    /// Succeeds exactly on a valid pixel buffer, and then the texture holds
    /// those pixels and that size.
    pub fn from_pixels(pixels: Vec<u8>, width: u32, height: u32) -> (result: Result<
        Texture,
        TextureError,
    >)
        ensures
            result is Ok <==> valid_pixels(pixels@, width, height),
            result matches Ok(t) ==> t.wf() && t.pixel_image() == pixels@ && t.spec_width() == width
                && t.spec_height() == height,
            result matches Err(e) ==> e == TextureError::DecodeFailed,
    {
        if width == 0 || height == 0 || width > u32::MAX / 4 {
            return Err(TextureError::DecodeFailed);
        }
        let row: u64 = 4 * (width as u64);
        assert(row * height <= 0x4_0000_0000 * 0x1_0000_0000) by (nonlinear_arith)
            requires
                row <= 0x4_0000_0000,
                height <= 0x1_0000_0000,
        ;
        let expected: u128 = (row as u128) * (height as u128);
        assert(expected == 4 * width * height) by (nonlinear_arith)
            requires
                expected == row * height,
                row == 4 * width,
        ;
        if pixels.len() as u128 != expected {
            return Err(TextureError::DecodeFailed);
        }
        Ok(Texture { pixels, width, height })
    }

    /// Decodes an image file held in memory and accepts it as a texture.
    ///
    /// Whether the bytes decode is the decoder's word. Whatever it hands
    /// over goes through [`Texture::from_pixels`].
    pub fn new(bytes: &[u8]) -> (result: Result<Texture, TextureError>)
        ensures
            result matches Ok(t) ==> t.wf(),
            result matches Err(e) ==> e == TextureError::DecodeFailed,
    {
        match decode_rgba8(bytes) {
            Ok(img) => Texture::from_pixels(img.pixels, img.width, img.height),
            Err(_) => Err(TextureError::DecodeFailed),
        }
    }

    /// The RGBA8 pixels, row after row.
    pub fn pixels(&self) -> (bytes: &[u8])
        ensures
            bytes@ == self.pixel_image(),
    {
        self.pixels.as_slice()
    }

    /// Width in texels.
    #[verifier::when_used_as_spec(spec_width)]
    pub fn width(&self) -> (w: u32)
        ensures
            w == self.spec_width(),
    {
        self.width
    }

    /// Height in texels.
    #[verifier::when_used_as_spec(spec_height)]
    pub fn height(&self) -> (h: u32)
        ensures
            h == self.spec_height(),
    {
        self.height
    }

    /// The format of the texels.
    pub fn format(&self) -> (f: TextureFormat)
        ensures
            f == TextureFormat::Rgba8UnormSrgb,
    {
        TextureFormat::Rgba8UnormSrgb
    }

    /// The size of the texture that receives the pixels.
    pub fn extent(&self) -> (e: Extent3d)
        ensures
            e == Extent3d::flat(self.spec_width(), self.spec_height()),
    {
        Extent3d { width: self.width, height: self.height, depth_or_array_layers: 1 }
    }

    /// The layout of the upload: rows of four bytes per texel, without
    /// padding, which together are exactly the pixels.
    pub fn data_layout(&self) -> (layout: ImageDataLayout)
        requires
            self.wf(),
        ensures
            layout.offset == 0,
            layout.bytes_per_row == 4 * self.spec_width(),
            layout.rows_per_image == self.spec_height(),
            layout.bytes_per_row * layout.rows_per_image == self.pixel_image().len(),
    {
        assert(4 * self.width * self.height == (4 * self.width) * self.height)
            by (nonlinear_arith);
        ImageDataLayout { offset: 0, bytes_per_row: 4 * self.width, rows_per_image: self.height }
    }
}

impl DepthTexture {
    /// The format of every depth buffer.
    pub open spec fn spec_depth_format() -> TextureFormat {
        TextureFormat::Depth32Float
    }

    /// Width in texels.
    pub open spec fn spec_width(&self) -> u32 {
        self.width
    }

    /// Height in texels.
    pub open spec fn spec_height(&self) -> u32 {
        self.height
    }

    /// The depth buffer for a surface of the given size.
    pub fn new(width: u32, height: u32) -> (depth: DepthTexture)
        ensures
            depth.spec_width() == width,
            depth.spec_height() == height,
    {
        DepthTexture { width, height }
    }

    /// The format of every depth buffer.
    #[verifier::when_used_as_spec(spec_depth_format)]
    pub fn depth_format() -> (f: TextureFormat)
        ensures
            f == DepthTexture::spec_depth_format(),
    {
        TextureFormat::Depth32Float
    }

    /// The size of the depth buffer: that of the surface, one layer deep.
    pub fn extent(&self) -> (e: Extent3d)
        ensures
            e == Extent3d::flat(self.spec_width(), self.spec_height()),
    {
        Extent3d { width: self.width, height: self.height, depth_or_array_layers: 1 }
    }
}

} // verus!
