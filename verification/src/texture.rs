//! Textures: what colour a surface has at a point.

use vstd::prelude::*;
use image::DynamicImage;
use image::GenericImageView;
use image::ImageError;
use image::ImageFormat;
use crate::color::{level, level_of};
use crate::scalar::{Scalar, ONE};
use crate::traits::Texture;
use crate::vec3::{Color, Point3, Vec3};

verus! {

/// One colour everywhere.
#[derive(Clone, Copy, Debug, PartialEq, Eq, Structural)]
pub struct SolidColor {
    color_value: Color,
}

impl SolidColor {
    /// The colour.
    pub closed spec fn view(self) -> Color {
        self.color_value
    }

    pub fn new_rgb(red: Scalar, green: Scalar, blue: Scalar) -> (r: Self)
        ensures
            r@ == (Vec3 { x: red, y: green, z: blue }),
    {
        SolidColor { color_value: Vec3 { x: red, y: green, z: blue } }
    }

    pub fn new(color: Color) -> (r: Self)
        ensures
            r@ == color,
    {
        SolidColor { color_value: color }
    }
}

impl Texture for SolidColor {
    open spec fn value_spec(&self, u: Scalar, v: Scalar, p: Point3) -> Color {
        self@
    }

    fn value(&self, u: Scalar, v: Scalar, p: &Point3) -> (c: Color) {
        self.color_value
    }
}

/// Two textures laid out like the cells of a three-dimensional chess
/// board.
pub struct CheckerTexture<E: Texture, O: Texture> {
    pub inv_scale: Scalar,
    pub even: E,
    pub odd: O,
}

/// Whether the cell `(x, y, z)` of the board is an even one: whether the
/// sum of its coordinates is.
pub open spec fn is_even_cell(x: int, y: int, z: int) -> bool {
    (x + y + z) % 2 == 0
}

impl<E: Texture, O: Texture> CheckerTexture<E, O> {
    /// A board whose cells measure the inverse of `inv_scale`.
    pub fn new(inv_scale: Scalar, even: E, odd: O) -> (r: Self)
        ensures
            r.inv_scale == inv_scale,
            r.even == even,
            r.odd == odd,
    {
        CheckerTexture { inv_scale, even, odd }
    }

    /// The colour at a point that lies in the cell `(x_int, y_int, z_int)`:
    /// that of the even texture in an even cell, that of the odd one in an
    /// odd cell.
    pub fn value_in_cell(
        &self,
        x_int: i32,
        y_int: i32,
        z_int: i32,
        u: Scalar,
        v: Scalar,
        p: &Point3,
    ) -> (c: Color)
        ensures
            c == (if is_even_cell(x_int as int, y_int as int, z_int as int) {
                self.even.value_spec(u, v, *p)
            } else {
                self.odd.value_spec(u, v, *p)
            }),
    {
        let sum: i64 = x_int as i64 + y_int as i64 + z_int as i64;
        if sum % 2 == 0 {
            self.even.value(u, v, p)
        } else {
            self.odd.value(u, v, p)
        }
    }
}

/// A pixel: red, green, blue and alpha.
pub type Rgba = (u8, u8, u8, u8);

#[verifier::external_type_specification]
#[verifier::external_body]
pub struct ExDynamicImage(DynamicImage);

#[verifier::external_type_specification]
#[verifier::external_body]
pub struct ExImageError(ImageError);

#[verifier::external_type_specification]
#[verifier::external_body]
pub struct ExImageFormat(ImageFormat);

/// The pixels of an image as 8-bit RGBA, row by row from the top, each
/// row from the left.
pub uninterp spec fn rows(img: DynamicImage) -> Seq<Seq<Rgba>>;

/// The width of an image in pixels.
pub uninterp spec fn row_width(img: DynamicImage) -> nat;

/// `image::ImageFormat::from_path`: the format that the extension of a
/// file's name stands for, or an error where it stands for none. Nothing
/// is claimed of the result.
#[verifier::external_body]
fn format_from_path(file_name: &str) -> (r: Result<ImageFormat, ImageError>) {
    ImageFormat::from_path(file_name)
}

/// `image::load_from_memory_with_format`: decodes the bytes of an image
/// file of the given format. Nothing is claimed of the result: decoders
/// may differ from one machine to another in the low bits of a pixel.
#[verifier::external_body]
fn load_from_memory_with_format(bytes: &Vec<u8>, format: ImageFormat) -> (r: Result<
    DynamicImage,
    ImageError,
>) {
    image::load_from_memory_with_format(bytes.as_slice(), format)
}

/// `GenericImageView::dimensions` of a `DynamicImage`: its width and its
/// height. Claimed: the height is the number of rows.
#[verifier::external_body]
fn dimensions(img: &DynamicImage) -> (r: (u32, u32))
    ensures
        r.0 == row_width(*img),
        r.1 == rows(*img).len(),
{
    img.dimensions()
}

/// `GenericImageView::get_pixel` of a `DynamicImage`: the pixel in column
/// `x` of row `y`, converted to 8-bit RGBA. It panics outside the image,
/// which `requires` rules out.
#[verifier::external_body]
fn get_pixel(img: &DynamicImage, x: u32, y: u32) -> (r: Rgba)
    requires
        x < row_width(*img),
        y < rows(*img).len(),
    ensures
        r == rows(*img)[y as int][x as int],
{
    let p = img.get_pixel(x, y);
    (p.0[0], p.0[1], p.0[2], p.0[3])
}

/// Why a texture could not be made.
#[derive(Clone, Copy, Debug, PartialEq, Eq, Structural)]
pub enum TextureError {
    /// The name stands for no format, or the bytes are not an image of its
    /// format that can be decoded.
    Undecodable,
}

/// The rank of `byte / 256`.
pub open spec fn channel(byte: u8) -> Scalar {
    level(byte as int) as Scalar
}

/// The colour of a pixel: each of red, green and blue over 256.
pub open spec fn pixel_color(p: Rgba) -> Color {
    Vec3 { x: channel(p.0), y: channel(p.1), z: channel(p.2) }
}

/// A picture as a texture.
pub struct ImageTexture {
    image: DynamicImage,
}

impl ImageTexture {
    /// The width of the picture.
    pub closed spec fn width(self) -> nat {
        row_width(self.image)
    }

    /// The rows of the picture.
    pub closed spec fn view(self) -> Seq<Seq<Rgba>> {
        rows(self.image)
    }

    /// What `color_at` gives for the pixel in column `i` of row `j`: cyan
    /// for a picture without rows; the colour of the pixel inside the
    /// picture; nothing outside it.
    pub open spec fn sampled(self, i: u32, j: u32) -> Option<Color> {
        if self@.len() == 0 {
            Some(Vec3 { x: 0, y: ONE, z: ONE })
        } else if i < self.width() && j < self@.len() {
            Some(pixel_color(self@[j as int][i as int]))
        } else {
            None
        }
    }

    /// Decodes the bytes of the image file named `file_name`. The format
    /// goes by the extension of the name. Whether the bytes can be decoded
    /// is the decoder's to say; whatever it objects to comes back as
    /// `Undecodable`.
    pub fn new(file_name: &str, bytes: &Vec<u8>) -> (r: Result<Self, TextureError>)
        ensures
            r matches Err(e) ==> e == TextureError::Undecodable,
    {
        match format_from_path(file_name) {
            Ok(format) => match load_from_memory_with_format(bytes, format) {
                Ok(image) => Ok(ImageTexture { image }),
                Err(_) => Err(TextureError::Undecodable),
            },
            Err(_) => Err(TextureError::Undecodable),
        }
    }

    /// Width and height of the picture.
    pub fn size(&self) -> (r: (u32, u32))
        ensures
            r.0 == self.width(),
            r.1 == self@.len(),
    {
        dimensions(&self.image)
    }

    /// The colour of the pixel in column `i` of row `j`.
    pub fn color_at(&self, i: u32, j: u32) -> (c: Option<Color>)
        ensures
            c == self.sampled(i, j),
    {
        let (width, height) = dimensions(&self.image);
        if height == 0 {
            return Some(Vec3 { x: 0, y: ONE, z: ONE });
        }
        if i < width && j < height {
            let p = get_pixel(&self.image, i, j);
            Some(Vec3 { x: level_of(p.0), y: level_of(p.1), z: level_of(p.2) })
        } else {
            None
        }
    }
}

} // verus!
