//! The encoding that a frame gets before it goes to a device.

use crate::convert_image::{swap_rgb, swapped};
use crate::device::ImageFormat;
use vstd::prelude::*;
use vstd::slice::slice_to_vec;

verus! {

/// Width of the companion display in pixels.
pub const COMPANION_WIDTH: u32 = 320;

/// Height of the companion display in pixels.
pub const COMPANION_HEIGHT: u32 = 170;

/// The largest width and the largest height that a WebP image can have.
pub const WEBP_MAX_DIMENSION: u32 = 16384;

/// What the lossless WebP encoder of the `image` crate makes of a packed
/// RGB buffer of the given width and height: the encoded image, or nothing
/// where the encoder reports an error.
pub uninterp spec fn webp_image(rgb: Seq<u8>, width: u32, height: u32) -> Option<Seq<u8>>;

/// Calls `image::codecs::webp::WebPEncoder::encode` on a lossless encoder
/// that writes into a fresh buffer, for three-byte RGB pixels. The encoder
/// panics on a buffer that does not hold `width * height` pixels, so such
/// a buffer is left out. The contract gives the outcome its name, which
/// depends on the pixels and the two dimensions alone, and says when there
/// is an image: the encoder's only error, short of a failing writer, is a
/// width or a height that is zero or beyond what the format allows.
#[verifier::external_body]
fn encode_webp(rgb: &[u8], width: u32, height: u32) -> (image: Option<Vec<u8>>)
    requires
        rgb@.len() == width * height * 3,
    ensures
        match image {
            Some(bytes) => webp_image(rgb@, width, height) == Some(bytes@),
            None => webp_image(rgb@, width, height) is None,
        },
        image.is_some() == (1 <= width && width <= WEBP_MAX_DIMENSION && 1 <= height && height
            <= WEBP_MAX_DIMENSION),
{
    let mut out: Vec<u8> = Vec::new();
    let encoder = image::codecs::webp::WebPEncoder::new_lossless(&mut out);
    match encoder.encode(rgb, width, height, image::ExtendedColorType::Rgb8) {
        Ok(()) => Some(out),
        Err(_) => None,
    }
}

/// The payload that stands for `frame` on a device that takes its frames
/// in `format`: the frame itself, or the WebP image of the frame with its
/// first and third channel exchanged. A frame that does not hold
/// `width * height` pixels has no WebP image.
pub open spec fn encoded(frame: Seq<u8>, format: ImageFormat, width: u32, height: u32) -> Option<
    Seq<u8>,
> {
    match format {
        ImageFormat::Raw => Some(frame),
        ImageFormat::WebP => if frame.len() == width * height * 3 {
            webp_image(swapped(frame), width, height)
        } else {
            None
        },
    }
}

/// Whether a frame of `len` bytes can be encoded in `format`: always as
/// it is; as a WebP image where it holds `width * height` pixels and both
/// dimensions are ones that the format allows.
pub open spec fn encodable(len: nat, format: ImageFormat, width: u32, height: u32) -> bool {
    match format {
        ImageFormat::Raw => true,
        ImageFormat::WebP => {
            &&& len == width * height * 3
            &&& 1 <= width <= WEBP_MAX_DIMENSION
            &&& 1 <= height <= WEBP_MAX_DIMENSION
        },
    }
}

/// Encodes `frame` for a device that takes its frames in `format`. There
/// is a payload exactly where the frame can be encoded.
pub fn encode_frame(frame: &Vec<u8>, format: ImageFormat, width: u32, height: u32) -> (payload:
    Option<Vec<u8>>)
    ensures
        match payload {
            Some(bytes) => encoded(frame@, format, width, height) == Some(bytes@),
            None => encoded(frame@, format, width, height) is None,
        },
        payload is Some <==> encodable(frame@.len(), format, width, height),
{
    match format {
        ImageFormat::Raw => Some(slice_to_vec(frame.as_slice())),
        ImageFormat::WebP => {
            assert(width * height <= 0xffff_ffff * 0xffff_ffff) by (nonlinear_arith)
                requires
                    width <= 0xffff_ffff,
                    height <= 0xffff_ffff,
            ;
            let pixels: u64 = width as u64 * height as u64;
            let len = frame.len();
            if len % 3 == 0 && (len / 3) as u64 == pixels {
                let rgb = swap_rgb(frame, width, height);
                encode_webp(rgb.as_slice(), width, height)
            } else {
                None
            }
        },
    }
}

} // verus!
