//! Files that arrive in base64 (uploaded mods, cover images, server icons), and
//! the server icon: cut to a centred square, scaled to 64×64, as PNG.
use vstd::prelude::*;
use base64::Engine;
use crate::packwiz::{cover_image_filename, cover_image_name};
use crate::paths::{existing_image_filename, image_for};
use crate::protocol::PackwizImage;
use crate::text::{push_str, str_views, string_of};

verus! {

// ---------------------------------------------------------------------------
// Base64
// ---------------------------------------------------------------------------

/// A name for what the standard engine of `base64` decodes a text to: the
/// bytes it stands for, or none where it is not valid standard base64.
pub uninterp spec fn base64_decoded(text: Seq<char>) -> Option<Seq<u8>>;

/// `base64::engine::general_purpose::STANDARD.decode`: the bytes that a text
/// in standard base64 stands for, none where the text is not valid. What it
/// accepts is left to `base64`; the contract only names its result.
#[verifier::external_body]
fn decode_base64(text: &str) -> (r: Option<Vec<u8>>)
    ensures
        match r {
            Some(b) => base64_decoded(text@) == Some(b@),
            None => base64_decoded(text@) is None,
        },
{
    base64::engine::general_purpose::STANDARD.decode(text).ok()
}

/// The bytes of an uploaded file, or the log line saying they could not be
/// decoded.
pub fn decode_upload(data_base64: &str) -> (r: Result<Vec<u8>, String>)
    ensures
        match base64_decoded(data_base64@) {
            Some(b) => r matches Ok(v) && v@ == b,
            None => r matches Err(m) && m@ == "❌ Error decodificando archivo Base64."@,
        },
{
    match decode_base64(data_base64) {
        Some(b) => Ok(b),
        None => Err(String::from_str("❌ Error decodificando archivo Base64.")),
    }
}

/// What becomes of the cover image sent with a publication.
pub enum CoverImage {
    /// Save these bytes under this name in the images folder.
    Save { name: String, bytes: Vec<u8> },
    /// Keep the image there is (or the default one), with a warning where the
    /// one sent could not be decoded.
    Existing { warning: Option<String> },
}

/// What becomes of the cover image `image` of the pack `pack_key`: saved as
/// `<pack_key>.<extension>` where it decodes; else the existing one is kept.
pub fn cover_image_plan(pack_key: &str, image: &Option<PackwizImage>) -> (r: CoverImage)
    ensures
        match image {
            None => r matches CoverImage::Existing { warning } && warning is None,
            Some(img) => match base64_decoded(img.data_base64@) {
                Some(b) => r matches CoverImage::Save { name, bytes } && name@ == cover_image_name(
                    pack_key@,
                    img.filename@,
                ) && bytes@ == b,
                None => r matches CoverImage::Existing { warning } && warning matches Some(w) && w@
                    == "⚠️ Error decodificando la imagen enviada, uso la anterior o la de por defecto."@,
            },
        },
{
    match image {
        None => CoverImage::Existing { warning: None },
        Some(img) => match decode_base64(img.data_base64.as_str()) {
            Some(bytes) => CoverImage::Save {
                name: cover_image_filename(pack_key, img.filename.as_str()),
                bytes,
            },
            None => CoverImage::Existing {
                warning: Some(
                    String::from_str(
                        "⚠️ Error decodificando la imagen enviada, uso la anterior o la de por defecto.",
                    ),
                ),
            },
        },
    }
}

/// The cover image a pack keeps where none was saved: its existing one among
/// the names of the images folder, else `smp.png`.
pub fn fallback_cover_image(names: &Vec<String>, pack_key: &str) -> (r: String)
    ensures
        r@ == match image_for(str_views(names@), pack_key@) {
            Some(n) => n,
            None => "smp.png"@,
        },
{
    match existing_image_filename(names, pack_key) {
        Some(n) => n,
        None => String::from_str("smp.png"),
    }
}

// ---------------------------------------------------------------------------
// The server icon
// ---------------------------------------------------------------------------

/// A name for why `image` cannot read an image from bytes: none where it can.
pub uninterp spec fn image_load_error(bytes: Seq<u8>) -> Option<Seq<char>>;

/// A name for the width and height of the image that `image` reads from bytes.
pub uninterp spec fn image_size(bytes: Seq<u8>) -> (u32, u32);

/// `image::load_from_memory`, then `DynamicImage::width` and `height`: the size
/// of the image that the bytes hold (its format guessed from them), or the text
/// of the error. Which bytes it reads, and the size, are left to `image`; the
/// contract only names them.
#[verifier::external_body]
fn image_dimensions(bytes: &Vec<u8>) -> (r: Result<(u32, u32), String>)
    ensures
        match r {
            Ok(d) => image_load_error(bytes@) is None && d == image_size(bytes@),
            Err(m) => image_load_error(bytes@) == Some(m@),
        },
{
    match image::load_from_memory(bytes.as_slice()) {
        Ok(img) => Ok((img.width(), img.height())),
        Err(e) => Err(e.to_string()),
    }
}

/// A name for "`png` is an icon that `image` made from the image in `bytes`":
/// the square of side `side` at (`x`, `y`), scaled to `size` by `size`, as PNG.
/// It is a relation, not a function: the resampling's floating point and the
/// decoders' code paths depend on the machine, so the same inputs may give
/// other bytes elsewhere.
pub uninterp spec fn icon_made(png: Seq<u8>, bytes: Seq<u8>, x: u32, y: u32, side: u32, size: u32) -> bool;

/// `image::load_from_memory`, `DynamicImage::crop_imm` (clamped to the image),
/// `DynamicImage::resize_exact` with the Lanczos filter of window 3, and
/// `DynamicImage::write_to` as PNG into memory: the encoded bytes, or the text of
/// the first error. The contract ties the bytes to the inputs by the relation
/// `icon_made`; which bytes, and whether it fails, is left to `image`.
#[verifier::external_body]
fn square_icon_png(bytes: &Vec<u8>, x: u32, y: u32, side: u32, size: u32) -> (r: Result<Vec<u8>, String>)
    ensures
        r matches Ok(png) ==> icon_made(png@, bytes@, x, y, side, size),
{
    let img = match image::load_from_memory(bytes.as_slice()) {
        Ok(i) => i,
        Err(e) => return Err(e.to_string()),
    };
    let icon = img.crop_imm(x, y, side, side).resize_exact(size, size, image::imageops::FilterType::Lanczos3);
    let mut out = std::io::Cursor::new(Vec::new());
    match icon.write_to(&mut out, image::ImageFormat::Png) {
        Ok(()) => Ok(out.into_inner()),
        Err(e) => Err(e.to_string()),
    }
}

/// The centred square of an image `width` by `height`: its corner and side.
pub open spec fn square_crop(width: u32, height: u32) -> (u32, u32, u32) {
    let side = if width < height {
        width
    } else {
        height
    };
    (((width - side) / 2) as u32, ((height - side) / 2) as u32, side)
}

/// The corner and side of the centred square of an image `width` by `height`.
pub fn icon_crop(width: u32, height: u32) -> (r: (u32, u32, u32))
    ensures
        r == square_crop(width, height),
{
    let side = if width < height {
        width
    } else {
        height
    };
    ((width - side) / 2, (height - side) / 2, side)
}

fn prefixed(prefix: &str, text: &str) -> (r: String)
    ensures
        r@ == prefix@ + text@,
{
    let mut out: Vec<char> = Vec::new();
    push_str(&mut out, prefix);
    push_str(&mut out, text);
    string_of(&out)
}

/// The side of a server icon, in pixels.
pub const ICON_SIDE: u32 = 64;

/// The PNG of a server icon from an uploaded image in base64: its centred
/// square (`square_crop` of the image's size) scaled to 64×64. Refused where
/// the text is not base64 or the bytes are not an image, with the message for
/// each; a failure of the image library after that is reported as a failure to
/// save the icon. An icon that comes back is one the image library made from
/// that square; its bytes are left to the library.
pub fn icon_png(data_base64: &str) -> (r: Result<Vec<u8>, String>)
    ensures
        match base64_decoded(data_base64@) {
            None => r matches Err(m) && m@ == "Imagen inválida (base64 corrupto)."@,
            Some(b) => match image_load_error(b) {
                Some(t) => r matches Err(m) && m@ == "No pude leer la imagen: "@ + t,
                None => {
                    let c = square_crop(image_size(b).0, image_size(b).1);
                    &&& r matches Ok(png) ==> icon_made(png@, b, c.0, c.1, c.2, 64)
                    &&& r matches Err(m) ==> exists|t: Seq<char>|
                        m@ == "No pude guardar server-icon.png: "@ + t
                },
            },
        },
{
    let bytes = match decode_base64(data_base64) {
        Some(b) => b,
        None => {
            return Err(String::from_str("Imagen inválida (base64 corrupto)."));
        },
    };
    let (width, height) = match image_dimensions(&bytes) {
        Ok(d) => d,
        Err(e) => {
            return Err(prefixed("No pude leer la imagen: ", e.as_str()));
        },
    };
    let (x, y, side) = icon_crop(width, height);
    match square_icon_png(&bytes, x, y, side, ICON_SIDE) {
        Ok(png) => Ok(png),
        Err(e) => Err(prefixed("No pude guardar server-icon.png: ", e.as_str())),
    }
}

} // verus!
