//! Thumbnails: image data as it comes from and goes to the interface, and
//! the name of the file that a thumbnail is kept in.

use crate::error::StoreError;
use crate::text::{digits_of, hex_text, join, starts_with, strip_prefix};
use base64::Engine;
use vstd::prelude::*;

verus! {

/// The bytes that the standard base64 engine of `base64` decodes a text
/// to, or nothing where it refuses the text.
pub uninterp spec fn decoded_base64(text: Seq<char>) -> Option<Seq<u8>>;

/// The text that the standard base64 engine of `base64` encodes bytes as.
pub uninterp spec fn encoded_base64(bytes: Seq<u8>) -> Seq<char>;

/// Decodes base64 with `general_purpose::STANDARD.decode`.
///
/// The contract claims only that the result is a function of the text.
#[verifier::external_body]
fn decode_base64(text: &str) -> (r: Option<Vec<u8>>)
    ensures
        match r {
            Some(bytes) => decoded_base64(text@) == Some(bytes@),
            None => decoded_base64(text@) is None,
        },
{
    base64::engine::general_purpose::STANDARD.decode(text).ok()
}

/// Encodes base64 with `general_purpose::STANDARD.encode`, which panics
/// where the length of the result cannot be told in a `usize`; such input
/// is left out.
///
/// The contract claims only that the result is a function of the bytes.
#[verifier::external_body]
fn encode_base64(bytes: &Vec<u8>) -> (r: String)
    requires
        bytes@.len() / 3 * 4 + 4 <= usize::MAX,
    ensures
        r@ == encoded_base64(bytes@),
{
    base64::engine::general_purpose::STANDARD.encode(bytes)
}

/// The base64 text of image data: what follows the head of a data URL for
/// a JPEG or a PNG image, or the whole where there is no such head.
pub open spec fn image_payload(data: Seq<char>) -> Seq<char> {
    if starts_with(data, "data:image/jpeg;base64,"@) {
        data.skip("data:image/jpeg;base64,"@.len() as int)
    } else if starts_with(data, "data:image/png;base64,"@) {
        data.skip("data:image/png;base64,"@.len() as int)
    } else {
        data
    }
}

/// The bytes of an image that is given as base64 text, with or without
/// the head of a data URL.
pub fn thumbnail_image(base64_data: &str) -> (r: Result<Vec<u8>, StoreError>)
    ensures
        match r {
            Ok(bytes) => decoded_base64(image_payload(base64_data@)) == Some(bytes@),
            Err(e) => decoded_base64(image_payload(base64_data@)) is None && e
                == StoreError::InvalidImageData,
        },
{
    let payload = match strip_prefix(base64_data, "data:image/jpeg;base64,") {
        Some(rest) => rest,
        None => match strip_prefix(base64_data, "data:image/png;base64,") {
            Some(rest) => rest,
            None => base64_data,
        },
    };
    match decode_base64(payload) {
        Some(bytes) => Ok(bytes),
        None => Err(StoreError::InvalidImageData),
    }
}

/// Whether an image is small enough for its base64 text to have a length.
pub open spec fn encodable(len: nat) -> bool {
    len / 3 * 4 + 4 <= usize::MAX
}

/// The data URL of a JPEG image. An image too large for its text to have
/// a length has none.
pub fn thumbnail_data_url(image: &Vec<u8>) -> (r: Result<String, StoreError>)
    ensures
        match r {
            Ok(url) => encodable(image@.len()) && url@ == "data:image/jpeg;base64,"@
                + encoded_base64(image@),
            Err(e) => !encodable(image@.len()) && e == StoreError::ImageTooLarge,
        },
{
    if image.len() / 3 > (usize::MAX - 4) / 4 {
        return Err(StoreError::ImageTooLarge);
    }
    let encoded = encode_base64(image);
    Ok(join("data:image/jpeg;base64,", encoded.as_str()))
}

/// The name of the file that holds the thumbnail of a video: the hash of
/// the video's id in hexadecimal, and `.jpg`.
pub fn thumbnail_file_name(id_hash: u64) -> (r: String)
    ensures
        r@ == digits_of(id_hash as nat, 16) + ".jpg"@,
{
    let name = hex_text(id_hash);
    join(name.as_str(), ".jpg")
}

} // verus!
